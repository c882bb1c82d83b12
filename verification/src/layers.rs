//! The stack of views of the client: the last layer is in front.

use std::collections::VecDeque;
use vstd::prelude::*;
use crate::patch::KEYBOARD_ID;
use crate::text::{push_char, str_eq};

verus! {

/// Puts a layer in front of the others.
pub fn add_layer<L>(a: &mut VecDeque<(u16, L)>, b: L, id: u16)
    ensures
        final(a)@ == old(a)@.push((id, b)),
{
    a.push_back((id, b));
}

/// Whether layer `k` is the one to start drawing from: it covers what is
/// below it, and every layer in front of it lets the one below show.
pub open spec fn is_bottom(alphas: Seq<bool>, k: int) -> bool {
    &&& 0 <= k < alphas.len()
    &&& !alphas[k]
    &&& forall|j: int| k < j < alphas.len() ==> alphas[j]
}

/// The layer to start drawing from, given for each layer whether it lets
/// the one below show. Some layer must cover what is below it.
pub fn bottom(alphas: &Vec<bool>) -> (k: usize)
    requires
        exists|i: int| 0 <= i < alphas@.len() && !alphas@[i],
    ensures
        is_bottom(alphas@, k as int),
{
    let mut k: usize = alphas.len() - 1;
    while alphas[k]
        invariant
            k < alphas@.len(),
            forall|j: int| k < j < alphas@.len() ==> alphas@[j],
            exists|i: int| 0 <= i < alphas@.len() && !alphas@[i],
        decreases k,
    {
        proof {
            let i = choose|i: int| 0 <= i < alphas@.len() && !alphas@[i];
            assert(i < k);
        }
        k -= 1;
    }
    k
}

/// The highest id among the layers, or zero when there are none.
pub open spec fn highest(ids: Seq<u16>) -> u16
    decreases ids.len(),
{
    if ids.len() == 0 {
        0
    } else {
        let before = highest(ids.drop_last());
        if ids.last() > before {
            ids.last()
        } else {
            before
        }
    }
}

/// The id for a new module: the keyboard has its fixed id, any other
/// module gets the id after the highest in use. The ids must not be used
/// up.
pub fn next_id(ids: &Vec<u16>, name: &str) -> (id: u16)
    requires
        name@ != "keyboard"@ ==> highest(ids@) < u16::MAX,
    ensures
        id == if name@ == "keyboard"@ {
            KEYBOARD_ID
        } else {
            (highest(ids@) + 1) as u16
        },
{
    if str_eq(name, "keyboard") {
        return KEYBOARD_ID;
    }
    let mut max: u16 = 0;
    let mut i: usize = 0;
    assert(ids@.take(0) =~= Seq::<u16>::empty());
    while i < ids.len()
        invariant
            i <= ids@.len(),
            max == highest(ids@.take(i as int)),
        decreases ids@.len() - i,
    {
        proof {
            assert(ids@.take(i + 1).drop_last() =~= ids@.take(i as int));
        }
        if ids[i] > max {
            max = ids[i];
        }
        i += 1;
    }
    assert(ids@.take(ids@.len() as int) =~= ids@);
    max + 1
}

/// A character of a title as it goes into a file name: capital letters
/// of the alphabet become small ones.
pub open spec fn lowered(c: char) -> char {
    if 'A' <= c <= 'Z' {
        ((c as u8) + 32) as char
    } else {
        c
    }
}

/// The file name for a title: the title without its spaces and slashes,
/// in small letters.
pub open spec fn file_name_of(title: Seq<char>) -> Seq<char>
    decreases title.len(),
{
    if title.len() == 0 {
        Seq::empty()
    } else {
        let before = file_name_of(title.drop_last());
        if title.last() == ' ' || title.last() == '/' {
            before
        } else {
            before.push(lowered(title.last()))
        }
    }
}

/// The file name under which a project with the given title is saved.
pub fn file_name(title: &Vec<char>) -> (name: String)
    ensures
        name@ == file_name_of(title@),
{
    let mut name = String::new();
    let mut i: usize = 0;
    assert(title@.take(0) =~= Seq::<char>::empty());
    while i < title.len()
        invariant
            i <= title@.len(),
            name@ == file_name_of(title@.take(i as int)),
        decreases title@.len() - i,
    {
        proof {
            assert(title@.take(i + 1).drop_last() =~= title@.take(i as int));
        }
        let c = title[i];
        if c != ' ' && c != '/' {
            let low = if 'A' <= c && c <= 'Z' {
                ((c as u8) + 32) as char
            } else {
                c
            };
            push_char(&mut name, low);
        }
        i += 1;
    }
    assert(title@.take(title@.len() as int) =~= title@);
    name
}

} // verus!
