//! Text as rows of characters: splitting at separators, joining with
//! colons, and decimal numbers.

use vstd::prelude::*;

verus! {

/// `String::push`: appends one character to the end of the string.
#[verifier::external_body]
pub(crate) fn push_char(s: &mut String, c: char)
    ensures
        final(s)@ == old(s)@.push(c),
{
    s.push(c)
}

/// `String::pop`: removes the last character and returns it, or returns
/// `None` and leaves the string alone when it is empty.
#[verifier::external_body]
pub(crate) fn pop_char(s: &mut String) -> (c: Option<char>)
    ensures
        old(s)@.len() == 0 ==> c is None && final(s)@ == old(s)@,
        old(s)@.len() > 0 ==> c == Some(old(s)@.last()) && final(s)@ == old(s)@.drop_last(),
{
    s.pop()
}

/// Whether two string slices hold the same characters.
pub(crate) fn str_eq(a: &str, b: &str) -> (same: bool)
    ensures
        same == (a@ == b@),
{
    let x = a.to_owned();
    let y = b.to_owned();
    x == y
}

/// The characters of a string slice, in order.
pub fn chars_of(s: &str) -> (chars: Vec<char>)
    ensures
        chars@ == s@,
{
    let mut chars: Vec<char> = Vec::new();
    let n = s.unicode_len();
    let mut i: usize = 0;
    while i < n
        invariant
            i <= n,
            n == s@.len(),
            chars@ =~= s@.take(i as int),
        decreases n - i,
    {
        chars.push(s.get_char(i));
        i += 1;
    }
    assert(s@.take(n as int) =~= s@);
    chars
}

/// The string that holds the given characters.
pub fn string_of(chars: &Vec<char>) -> (s: String)
    ensures
        s@ == chars@,
{
    let mut s = String::new();
    let mut i: usize = 0;
    while i < chars.len()
        invariant
            i <= chars@.len(),
            s@ =~= chars@.take(i as int),
        decreases chars@.len() - i,
    {
        push_char(&mut s, chars[i]);
        i += 1;
    }
    assert(chars@.take(chars@.len() as int) =~= chars@);
    s
}

/// Whether a character separates the messages of a batch.
pub open spec fn is_space(c: char) -> bool {
    c == ' ' || c == '\t' || c == '\n' || c == '\r'
}

/// Whether `c` is a separator: a colon between the fields of a message, or
/// white space between the messages of a batch.
pub open spec fn separates(c: char, colon: bool) -> bool {
    if colon {
        c == ':'
    } else {
        is_space(c)
    }
}

/// The pieces into which the separators cut a text. There is always at
/// least one piece, and a piece may be empty.
pub open spec fn split(s: Seq<char>, colon: bool) -> Seq<Seq<char>>
    decreases s.len(),
{
    if s.len() == 0 {
        seq![Seq::empty()]
    } else {
        let before = split(s.drop_last(), colon);
        if separates(s.last(), colon) {
            before.push(Seq::empty())
        } else {
            before.update(before.len() - 1, before.last().push(s.last()))
        }
    }
}

/// The pieces joined by colons.
pub open spec fn join(pieces: Seq<Seq<char>>) -> Seq<char>
    decreases pieces.len(),
{
    if pieces.len() == 0 {
        Seq::empty()
    } else if pieces.len() == 1 {
        pieces[0]
    } else {
        join(pieces.drop_last()).push(':') + pieces.last()
    }
}

/// Whether a text holds no colon.
pub open spec fn plain(s: Seq<char>) -> bool {
    forall|i: int| 0 <= i < s.len() ==> #[trigger] s[i] != ':'
}

/// Whether no piece holds a colon.
pub open spec fn all_plain(pieces: Seq<Seq<char>>) -> bool {
    forall|i: int| 0 <= i < pieces.len() ==> plain(#[trigger] pieces[i])
}

/// Splitting yields at least one piece, and at colons only pieces without
/// a colon.
pub proof fn lemma_split_plain(s: Seq<char>, colon: bool)
    ensures
        split(s, colon).len() >= 1,
        colon ==> all_plain(split(s, colon)),
    decreases s.len(),
{
    if s.len() > 0 {
        lemma_split_plain(s.drop_last(), colon);
        let before = split(s.drop_last(), colon);
        if colon && !separates(s.last(), colon) {
            let after = split(s, colon);
            assert forall|i: int| 0 <= i < after.len() implies plain(#[trigger] after[i]) by {
                if i < before.len() - 1 {
                    assert(after[i] == before[i]);
                } else {
                    assert(plain(before[i]));
                }
            }
        } else if colon {
            let after = split(s, colon);
            assert forall|i: int| 0 <= i < after.len() implies plain(#[trigger] after[i]) by {
                if i < before.len() {
                    assert(after[i] == before[i]);
                }
            }
        }
    }
}

/// A text that is followed by a colon and a piece without a colon splits
/// into the pieces of the text and that piece.
pub proof fn lemma_split_push(s: Seq<char>, piece: Seq<char>)
    requires
        plain(piece),
    ensures
        split(s.push(':') + piece, true) == split(s, true).push(piece),
    decreases piece.len(),
{
    let whole = s.push(':') + piece;
    lemma_split_plain(s, true);
    if piece.len() == 0 {
        assert(piece =~= Seq::<char>::empty());
        assert(whole =~= s.push(':'));
        assert(whole.drop_last() =~= s);
        assert(whole.last() == ':');
    } else {
        let shorter = piece.drop_last();
        assert(plain(shorter)) by {
            assert forall|i: int| 0 <= i < shorter.len() implies #[trigger] shorter[i] != ':' by {
                assert(shorter[i] == piece[i]);
            }
        }
        lemma_split_push(s, shorter);
        assert(whole.drop_last() =~= s.push(':') + shorter);
        assert(whole.last() == piece.last());
        assert(piece[piece.len() - 1] != ':');
        assert(shorter.push(piece.last()) =~= piece);
        assert(split(whole, true) =~= split(s, true).push(piece));
    }
}

/// A text that is followed by a colon and another text splits into the
/// pieces of the one and the pieces of the other.
pub proof fn lemma_split_concat(s: Seq<char>, t: Seq<char>)
    ensures
        split(s.push(':') + t, true) == split(s, true) + split(t, true),
    decreases t.len(),
{
    let whole = s.push(':') + t;
    lemma_split_plain(s, true);
    if t.len() == 0 {
        assert(whole =~= s.push(':'));
        assert(whole.drop_last() =~= s);
        assert(whole.last() == ':');
        assert(split(whole, true) =~= split(s, true) + split(t, true));
    } else {
        let shorter = t.drop_last();
        lemma_split_concat(s, shorter);
        lemma_split_plain(shorter, true);
        assert(whole.drop_last() =~= s.push(':') + shorter);
        assert(whole.last() == t.last());
        assert(split(whole, true) =~= split(s, true) + split(t, true));
    }
}

/// A text without a colon is one piece.
pub proof fn lemma_split_one(piece: Seq<char>)
    requires
        plain(piece),
    ensures
        split(piece, true) == seq![piece],
    decreases piece.len(),
{
    if piece.len() == 0 {
        assert(piece =~= Seq::<char>::empty());
    } else {
        let shorter = piece.drop_last();
        assert(plain(shorter)) by {
            assert forall|i: int| 0 <= i < shorter.len() implies #[trigger] shorter[i] != ':' by {
                assert(shorter[i] == piece[i]);
            }
        }
        lemma_split_one(shorter);
        assert(piece[piece.len() - 1] != ':');
        assert(shorter.push(piece.last()) =~= piece);
        assert(split(piece, true) =~= seq![piece]);
    }
}

/// Pieces without colons, joined and split again, are the same pieces.
pub proof fn lemma_split_join(pieces: Seq<Seq<char>>)
    requires
        pieces.len() >= 1,
        all_plain(pieces),
    ensures
        split(join(pieces), true) == pieces,
    decreases pieces.len(),
{
    if pieces.len() == 1 {
        lemma_split_one(pieces[0]);
        assert(seq![pieces[0]] =~= pieces);
    } else {
        let init = pieces.drop_last();
        assert(all_plain(init)) by {
            assert forall|i: int| 0 <= i < init.len() implies plain(#[trigger] init[i]) by {
                assert(init[i] == pieces[i]);
            }
        }
        lemma_split_join(init);
        assert(plain(pieces[pieces.len() - 1]));
        lemma_split_push(join(init), pieces.last());
        assert(init.push(pieces.last()) =~= pieces);
    }
}

/// A text, split at its colons and joined again, is the same text.
pub proof fn lemma_join_split(s: Seq<char>)
    ensures
        join(split(s, true)) == s,
    decreases s.len(),
{
    if s.len() == 0 {
        assert(join(seq![Seq::<char>::empty()]) =~= s);
    } else {
        let before = split(s.drop_last(), true);
        lemma_join_split(s.drop_last());
        lemma_split_plain(s.drop_last(), true);
        if s.last() == ':' {
            let after = before.push(Seq::empty());
            assert(after.drop_last() =~= before);
            assert(join(after) =~= s.drop_last().push(':'));
            assert(s.drop_last().push(':') =~= s);
        } else {
            let grown = before.last().push(s.last());
            let after = before.update(before.len() - 1, grown);
            if before.len() == 1 {
                assert(join(after) == grown);
                assert(join(before) == before[0]);
            } else {
                assert(after.drop_last() =~= before.drop_last());
                assert(join(after) =~= (join(before.drop_last()).push(':') + before.last()).push(
                    s.last(),
                ));
            }
            assert(s.drop_last().push(s.last()) =~= s);
        }
    }
}

/// Cuts a text at its separators.
pub fn split_at(text: &Vec<char>, colon: bool) -> (pieces: Vec<Vec<char>>)
    ensures
        pieces@.len() == split(text@, colon).len(),
        forall|i: int| 0 <= i < pieces@.len() ==> (#[trigger] pieces@[i])@ == split(text@, colon)[i],
{
    let mut pieces: Vec<Vec<char>> = Vec::new();
    let mut piece: Vec<char> = Vec::new();
    let mut i: usize = 0;
    assert(text@.take(0) =~= Seq::<char>::empty());
    while i < text.len()
        invariant
            i <= text@.len(),
            pieces@.len() + 1 == split(text@.take(i as int), colon).len(),
            forall|k: int|
                0 <= k < pieces@.len() ==> (#[trigger] pieces@[k])@ == split(
                    text@.take(i as int),
                    colon,
                )[k],
            piece@ == split(text@.take(i as int), colon).last(),
        decreases text@.len() - i,
    {
        let c = text[i];
        proof {
            assert(text@.take(i + 1).drop_last() =~= text@.take(i as int));
            assert(text@.take(i + 1).last() == c);
        }
        let cut = if colon {
            c == ':'
        } else {
            c == ' ' || c == '\t' || c == '\n' || c == '\r'
        };
        if cut {
            pieces.push(piece);
            piece = Vec::new();
        } else {
            piece.push(c);
        }
        i += 1;
    }
    assert(text@.take(text@.len() as int) =~= text@);
    pieces.push(piece);
    pieces
}

/// The digit for a number below ten.
pub open spec fn digit(d: nat) -> char {
    if d == 0 {
        '0'
    } else if d == 1 {
        '1'
    } else if d == 2 {
        '2'
    } else if d == 3 {
        '3'
    } else if d == 4 {
        '4'
    } else if d == 5 {
        '5'
    } else if d == 6 {
        '6'
    } else if d == 7 {
        '7'
    } else if d == 8 {
        '8'
    } else {
        '9'
    }
}

/// The number that a digit stands for, if the character is a digit.
pub open spec fn digit_value(c: char) -> Option<nat> {
    if c == '0' {
        Some(0)
    } else if c == '1' {
        Some(1)
    } else if c == '2' {
        Some(2)
    } else if c == '3' {
        Some(3)
    } else if c == '4' {
        Some(4)
    } else if c == '5' {
        Some(5)
    } else if c == '6' {
        Some(6)
    } else if c == '7' {
        Some(7)
    } else if c == '8' {
        Some(8)
    } else if c == '9' {
        Some(9)
    } else {
        None
    }
}

/// A number in decimal digits, without leading zeros.
pub open spec fn dec(n: nat) -> Seq<char>
    decreases n,
{
    if n < 10 {
        seq![digit(n)]
    } else {
        dec(n / 10).push(digit(n % 10))
    }
}

/// The number that a row of decimal digits stands for. An empty text and a
/// text with anything but digits in it stand for none.
pub open spec fn undec(s: Seq<char>) -> Option<nat>
    decreases s.len(),
{
    if s.len() == 0 {
        None
    } else {
        match digit_value(s.last()) {
            None => None,
            Some(d) => if s.len() == 1 {
                Some(d)
            } else {
                match undec(s.drop_last()) {
                    None => None,
                    Some(v) => Some(v * 10 + d),
                }
            },
        }
    }
}

/// A whole number in decimal digits, with a minus sign if it is negative.
pub open spec fn dec_int(v: int) -> Seq<char> {
    if v < 0 {
        seq!['-'] + dec((-v) as nat)
    } else {
        dec(v as nat)
    }
}

/// The whole number that a text stands for: decimal digits, with or
/// without a minus sign before them.
pub open spec fn undec_int(s: Seq<char>) -> Option<int> {
    if s.len() > 0 && s[0] == '-' {
        match undec(s.drop_first()) {
            Some(v) => Some(-(v as int)),
            None => None,
        }
    } else {
        match undec(s) {
            Some(v) => Some(v as int),
            None => None,
        }
    }
}

/// A number written in decimal digits reads as that number, and holds no
/// colon.
pub proof fn lemma_undec_dec(n: nat)
    ensures
        undec(dec(n)) == Some(n),
        plain(dec(n)),
        dec(n).len() >= 1,
        dec(n)[0] != '-',
    decreases n,
{
    if n >= 10 {
        lemma_undec_dec(n / 10);
        let init = dec(n / 10);
        let whole = init.push(digit(n % 10));
        assert(whole.drop_last() =~= init);
        assert(digit_value(digit(n % 10)) == Some(n % 10));
        assert(whole[0] == init[0]);
        assert forall|i: int| 0 <= i < whole.len() implies #[trigger] whole[i] != ':' by {
            if i < init.len() {
                assert(whole[i] == init[i]);
            }
        }
    } else {
        assert(digit_value(digit(n)) == Some(n));
    }
}

/// A whole number written in decimal reads as that number, and holds no
/// colon.
pub proof fn lemma_undec_dec_int(v: int)
    ensures
        undec_int(dec_int(v)) == Some(v),
        plain(dec_int(v)),
{
    if v < 0 {
        let n = (-v) as nat;
        lemma_undec_dec(n);
        let whole = seq!['-'] + dec(n);
        assert(whole.drop_first() =~= dec(n));
        assert forall|i: int| 0 <= i < whole.len() implies #[trigger] whole[i] != ':' by {
            if i > 0 {
                assert(whole[i] == dec(n)[i - 1]);
            }
        }
    } else {
        lemma_undec_dec(v as nat);
    }
}

/// The value of a row of digits does not fall when more digits follow.
proof fn lemma_undec_grows(s: Seq<char>, k: int)
    requires
        1 <= k <= s.len(),
        undec(s) is Some,
    ensures
        undec(s.take(k)) is Some,
        undec(s.take(k))->0 <= undec(s)->0,
    decreases s.len() - k,
{
    if k < s.len() {
        lemma_undec_grows(s, k + 1);
        assert(s.take(k + 1).drop_last() =~= s.take(k));
    } else {
        assert(s.take(k) =~= s);
    }
}

/// A text with something that is no digit in it stands for no number.
proof fn lemma_undec_fails(s: Seq<char>, k: int)
    requires
        1 <= k <= s.len(),
        undec(s.take(k)) is None,
    ensures
        undec(s) is None,
    decreases s.len() - k,
{
    if k < s.len() {
        assert(s.take(k + 1).drop_last() =~= s.take(k));
        lemma_undec_fails(s, k + 1);
    } else {
        assert(s.take(k) =~= s);
    }
}

/// The number below ten that a digit stands for.
fn value_of(c: char) -> (d: Option<u64>)
    ensures
        match d {
            Some(v) => digit_value(c) == Some(v as nat) && v < 10,
            None => digit_value(c) is None,
        },
{
    if c == '0' {
        Some(0)
    } else if c == '1' {
        Some(1)
    } else if c == '2' {
        Some(2)
    } else if c == '3' {
        Some(3)
    } else if c == '4' {
        Some(4)
    } else if c == '5' {
        Some(5)
    } else if c == '6' {
        Some(6)
    } else if c == '7' {
        Some(7)
    } else if c == '8' {
        Some(8)
    } else if c == '9' {
        Some(9)
    } else {
        None
    }
}

/// Reads the digits of `text` from place `from` on as a number of at most
/// `max`.
pub fn read_number(text: &Vec<char>, from: usize, max: u64) -> (n: Option<u64>)
    requires
        from <= text@.len(),
        max <= u32::MAX,
    ensures
        match n {
            Some(v) => undec(text@.skip(from as int)) == Some(v as nat) && v <= max,
            None => undec(text@.skip(from as int)) is None || undec(text@.skip(from as int))->0
                > max,
        },
{
    let ghost s = text@.skip(from as int);
    if from == text.len() {
        return None;
    }
    let mut acc: u64 = 0;
    let mut i: usize = from;
    while i < text.len()
        invariant
            from <= i <= text@.len(),
            from < text@.len(),
            s == text@.skip(from as int),
            max <= u32::MAX,
            acc <= max,
            i > from ==> undec(s.take(i - from)) == Some(acc as nat),
            i == from ==> acc == 0,
        decreases text@.len() - i,
    {
        let ghost k = i - from;
        proof {
            assert(s.take(k + 1).drop_last() =~= s.take(k));
            assert(s.take(k + 1).last() == text@[i as int]);
        }
        let d = match value_of(text[i]) {
            Some(d) => d,
            None => {
                proof {
                    lemma_undec_fails(s, k + 1);
                }
                return None;
            },
        };
        let next = acc * 10 + d;
        if next > max {
            proof {
                if undec(s) is Some {
                    lemma_undec_grows(s, k + 1);
                }
            }
            return None;
        }
        acc = next;
        i += 1;
    }
    assert(s.take(s.len() as int) =~= s);
    Some(acc)
}

/// Appends a number in decimal digits to a text.
pub fn write_number(out: &mut String, n: u64)
    ensures
        final(out)@ == old(out)@ + dec(n as nat),
    decreases n,
{
    if n >= 10 {
        write_number(out, n / 10);
    }
    let d = n % 10;
    let c = if d == 0 {
        '0'
    } else if d == 1 {
        '1'
    } else if d == 2 {
        '2'
    } else if d == 3 {
        '3'
    } else if d == 4 {
        '4'
    } else if d == 5 {
        '5'
    } else if d == 6 {
        '6'
    } else if d == 7 {
        '7'
    } else if d == 8 {
        '8'
    } else {
        '9'
    };
    push_char(out, c);
    proof {
        if n >= 10 {
            assert(final(out)@ =~= old(out)@ + dec((n / 10) as nat).push(digit((n % 10) as nat)));
        } else {
            assert(final(out)@ =~= old(out)@ + seq![digit(n as nat)]);
        }
    }
}

} // verus!
