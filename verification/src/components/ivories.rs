//! The keyboard drawn on its side: which keys are down, from the top of
//! the screen to the bottom, and how each is shaded.

use vstd::prelude::*;
use crate::action::{Action, Key};

verus! {

/// The row, counted up from the bottom of the window, on which middle C
/// is drawn.
pub const C_POSITION: u16 = 13;

/// Middle C.
pub const MIDDLE_C: Key = 60;

/// How a key that is down is shaded.
#[derive(Clone, Copy, Debug, PartialEq, Eq, Structural)]
pub enum Shade {
    /// The lower half of the row.
    Lower,
    /// The upper half of the row.
    Upper,
    /// The whole row.
    Full,
}

/// The key that a message holds down: the pitch of a note-on, and zero
/// for anything else.
pub open spec fn key_of(a: Action) -> Key {
    match a {
        Action::NoteOn(k, _) => k,
        _ => 0,
    }
}

/// The first place at or after `from` whose key is below `key`, or the
/// length of the list when there is none.
pub open spec fn place_below(sorted: Seq<Key>, key: Key, from: int) -> int
    decreases sorted.len() - from,
{
    if from >= sorted.len() {
        sorted.len() as int
    } else if sorted[from] < key {
        from
    } else {
        place_below(sorted, key, from + 1)
    }
}

/// The keys that the messages hold down, highest first.
pub open spec fn pressed_spec(active: Seq<Action>) -> Seq<Key>
    decreases active.len(),
{
    if active.len() == 0 {
        Seq::empty()
    } else {
        let sorted = pressed_spec(active.drop_last());
        sorted.insert(place_below(sorted, key_of(active.last()), 0), key_of(active.last()))
    }
}

/// Whether no key in the list is followed by a higher one.
pub open spec fn falling(keys: Seq<Key>) -> bool {
    forall|i: int, j: int| 0 <= i <= j < keys.len() ==> keys[i] >= keys[j]
}

/// The place for a key lies in the list, after every key that is not
/// below it and before one that is.
pub proof fn lemma_place_below(sorted: Seq<Key>, key: Key, from: int)
    requires
        0 <= from <= sorted.len(),
        falling(sorted),
    ensures
        from <= place_below(sorted, key, from) <= sorted.len(),
        forall|i: int| from <= i < place_below(sorted, key, from) ==> sorted[i] >= key,
        forall|i: int| place_below(sorted, key, from) <= i < sorted.len() ==> sorted[i] < key,
    decreases sorted.len() - from,
{
    if from < sorted.len() && sorted[from] >= key {
        lemma_place_below(sorted, key, from + 1);
    }
}

/// The keys that are down are listed from the highest to the lowest, and
/// there is one for each message.
pub proof fn lemma_pressed_falls(active: Seq<Action>)
    ensures
        falling(pressed_spec(active)),
        pressed_spec(active).len() == active.len(),
    decreases active.len(),
{
    if active.len() > 0 {
        lemma_pressed_falls(active.drop_last());
        let sorted = pressed_spec(active.drop_last());
        let key = key_of(active.last());
        lemma_place_below(sorted, key, 0);
        let at = place_below(sorted, key, 0);
        let after = sorted.insert(at, key);
        assert forall|i: int, j: int| 0 <= i <= j < after.len() implies after[i] >= after[j] by {
            if i < at {
                assert(after[i] == sorted[i]);
            } else if i > at {
                assert(after[i] == sorted[i - 1]);
            }
            if j < at {
                assert(after[j] == sorted[j]);
            } else if j > at {
                assert(after[j] == sorted[j - 1]);
            }
        }
    }
}

/// The keys that the messages hold down, highest first.
pub fn pressed(active: &Vec<Action>) -> (keys: Vec<Key>)
    ensures
        keys@ == pressed_spec(active@),
        falling(keys@),
        keys@.len() == active@.len(),
{
    let mut keys: Vec<Key> = Vec::new();
    let mut i: usize = 0;
    assert(active@.take(0) =~= Seq::<Action>::empty());
    while i < active.len()
        invariant
            i <= active@.len(),
            keys@ == pressed_spec(active@.take(i as int)),
        decreases active@.len() - i,
    {
        proof {
            assert(active@.take(i + 1).drop_last() =~= active@.take(i as int));
            lemma_pressed_falls(active@.take(i as int));
            lemma_place_below(keys@, key_of(active@[i as int]), 0);
        }
        let key = match &active[i] {
            Action::NoteOn(k, _) => *k,
            _ => 0,
        };
        let mut at: usize = 0;
        while at < keys.len() && keys[at] >= key
            invariant
                at <= keys@.len(),
                place_below(keys@, key, 0) == place_below(keys@, key, at as int),
            decreases keys@.len() - at,
        {
            at += 1;
        }
        keys.insert(at, key);
        i += 1;
    }
    proof {
        assert(active@.take(active@.len() as int) =~= active@);
        lemma_pressed_falls(active@);
    }
    keys
}

/// How the key at place `i` of the keys that are down is shaded: an even
/// key fills the lower half of its row; an odd key fills the upper half,
/// or the whole row when the key before it in the list is the same key.
pub fn shade(keys: &Vec<Key>, i: usize) -> (s: Shade)
    requires
        i < keys@.len(),
    ensures
        s == if keys@[i as int] % 2 == 0 {
            Shade::Lower
        } else if i > 0 && keys@[i - 1] == keys@[i as int] {
            Shade::Full
        } else {
            Shade::Upper
        },
{
    let key = keys[i];
    if key % 2 == 0 {
        Shade::Lower
    } else if i > 0 && keys[i - 1] == key {
        Shade::Full
    } else {
        Shade::Upper
    }
}

/// The row of a key from middle C up, counted up from the bottom of the
/// window: two keys share a row.
pub fn row(key: Key) -> (r: u16)
    requires
        key >= MIDDLE_C,
    ensures
        r == (key - MIDDLE_C) / 2 + C_POSITION,
{
    ((key - MIDDLE_C) / 2) as u16 + C_POSITION
}

} // verus!
