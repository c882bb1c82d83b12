//! The ruler above a timeline: a mark at every beat, a stronger one at the
//! first beat of every bar, and the place of the playhead.

use vstd::prelude::*;

verus! {

/// A mark on the ruler.
#[derive(Clone, Copy, Debug, PartialEq, Eq, Structural)]
pub struct Mark {
    /// The column of the mark, counted from the left end of the ruler.
    pub column: u16,
    /// Whether the mark stands at the end of a bar.
    pub strong: bool,
}

/// Whether the beat at `column` closes a bar, on a ruler scrolled by
/// `scroll` beats with `zoom` columns to the beat and `time_beat` beats
/// to the bar.
pub open spec fn closes_bar(column: int, time_beat: int, zoom: int, scroll: int) -> bool {
    (column / zoom + scroll + 1) % time_beat == 0
}

/// The marks of a ruler of `width` columns: one at every column that is a
/// multiple of `zoom`, from the left.
pub open spec fn marks_of(width: int, time_beat: int, zoom: int, scroll: int) -> Seq<Mark>
    decreases width,
{
    if width <= 0 {
        Seq::empty()
    } else {
        let before = marks_of(width - 1, time_beat, zoom, scroll);
        if (width - 1) % zoom == 0 {
            before.push(
                Mark {
                    column: (width - 1) as u16,
                    strong: closes_bar(width - 1, time_beat, zoom, scroll),
                },
            )
        } else {
            before
        }
    }
}

/// The marks of a ruler. The scale must be positive, and the beats shown
/// must be countable in sixteen bits.
pub fn marks(width: u16, time_beat: u16, zoom: u16, scroll: u16) -> (list: Vec<Mark>)
    requires
        zoom > 0,
        time_beat > 0,
        width + scroll < u16::MAX,
    ensures
        list@ == marks_of(width as int, time_beat as int, zoom as int, scroll as int),
{
    let mut list: Vec<Mark> = Vec::new();
    let mut beat: u16 = 0;
    let mut i: u16 = 0;
    while i < width
        invariant
            i <= width,
            zoom > 0,
            time_beat > 0,
            width + scroll < u16::MAX,
            beat <= i,
            i > 0 ==> beat == (i - 1) / (zoom as int) + 1,
            i == 0 ==> beat == 0,
            list@ == marks_of(i as int, time_beat as int, zoom as int, scroll as int),
        decreases width - i,
    {
        if i % zoom == 0 {
            proof {
                lemma_beat_count(i as int, zoom as int);
            }
            let strong = (beat + scroll + 1) % time_beat == 0;
            list.push(Mark { column: i, strong });
            beat += 1;
        } else {
            proof {
                lemma_beat_same(i as int, zoom as int);
            }
        }
        i += 1;
    }
    list
}

/// At a column that is a multiple of the scale, as many beats lie to the
/// left as the column divided by the scale says.
proof fn lemma_beat_count(i: int, zoom: int)
    requires
        0 <= i,
        0 < zoom,
        i % zoom == 0,
    ensures
        i > 0 ==> (i - 1) / zoom + 1 == i / zoom,
        i == 0 ==> i / zoom == 0,
{
    vstd::arithmetic::div_mod::lemma_fundamental_div_mod(i, zoom);
    if i > 0 {
        vstd::arithmetic::div_mod::lemma_fundamental_div_mod(i - 1, zoom);
        vstd::arithmetic::div_mod::lemma_mod_pos_bound(i - 1, zoom);
        let q = i / zoom;
        let p = (i - 1) / zoom;
        let r = (i - 1) % zoom;
        assert(p + 1 == q) by (nonlinear_arith)
            requires
                i == zoom * q,
                i - 1 == zoom * p + r,
                0 <= r < zoom,
                0 < zoom,
        ;
    }
}

/// Between two beats, the count of beats to the left stays.
proof fn lemma_beat_same(i: int, zoom: int)
    requires
        0 <= i,
        0 < zoom,
        i % zoom != 0,
    ensures
        i > 0,
        (i - 1) / zoom == i / zoom,
{
    vstd::arithmetic::div_mod::lemma_fundamental_div_mod(i, zoom);
    vstd::arithmetic::div_mod::lemma_mod_pos_bound(i, zoom);
    if i == 0 {
        vstd::arithmetic::div_mod::lemma_small_mod(0, zoom as nat);
    } else {
        vstd::arithmetic::div_mod::lemma_fundamental_div_mod(i - 1, zoom);
        vstd::arithmetic::div_mod::lemma_mod_pos_bound(i - 1, zoom);
        let q = i / zoom;
        let p = (i - 1) / zoom;
        let r = (i - 1) % zoom;
        let s = i % zoom;
        assert(p == q) by (nonlinear_arith)
            requires
                i == zoom * q + s,
                i - 1 == zoom * p + r,
                0 <= r < zoom,
                0 < s < zoom,
                0 < zoom,
        ;
    }
}

/// The column of the playhead on a ruler of `width` columns, if the
/// playhead is in view.
pub fn cursor(playhead: u16, scroll: u16, width: u16) -> (column: Option<u16>)
    ensures
        column == if scroll <= playhead && playhead - scroll < width {
            Some((playhead - scroll) as u16)
        } else {
            None
        },
{
    if scroll <= playhead && playhead - scroll < width {
        Some(playhead - scroll)
    } else {
        None
    }
}

} // verus!
