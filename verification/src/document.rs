//! A project as the engine consumes it: an ordered list of modules, each
//! with its kind, its named parameters and marks, and the tracks, notes and
//! routes it holds.

use vstd::prelude::*;
use crate::action::{Note, Offset, Param};
use crate::text::str_eq;

verus! {

/// An audio file that regions refer to.
pub struct Asset {
    pub id: u16,
    pub src: String,
    pub size: u32,
}

/// A stretch of an asset placed on a track.
#[derive(Clone, Copy, Debug, PartialEq, Eq, Structural)]
pub struct RegionEl {
    pub id: u16,
    pub asset: u16,
    pub offset: u32,
    pub asset_in: u32,
    pub asset_out: u32,
}

/// One track of a timeline.
pub struct Track {
    pub id: u16,
    pub regions: Vec<RegionEl>,
}

/// One end of a patch cable: an anchor of a module.
#[derive(Clone, Copy, Debug, PartialEq, Eq, Structural)]
pub struct Plug {
    pub module: u16,
    pub index: usize,
}

/// A patch cable bus with the anchors wired to it.
pub struct Route {
    pub id: u16,
    pub inputs: Vec<Plug>,
    pub outputs: Vec<Plug>,
}

/// One module of a project.
pub struct Element {
    pub id: u16,
    pub name: String,
    pub params: Vec<(String, Param)>,
    pub marks: Vec<(String, Offset)>,
    pub assets: Vec<Asset>,
    pub tracks: Vec<Track>,
    pub notes: Vec<Note>,
    pub routes: Vec<Route>,
}

/// One track of a timeline as a mathematical value.
pub struct TrackView {
    pub id: u16,
    pub regions: Seq<RegionEl>,
}

impl View for Track {
    type V = TrackView;

    open spec fn view(&self) -> TrackView {
        TrackView { id: self.id, regions: self.regions@ }
    }
}

/// The tracks of a list as mathematical values.
pub open spec fn tracks_view(tracks: Seq<Track>) -> Seq<TrackView> {
    Seq::new(tracks.len(), |i: int| tracks[i]@)
}

/// A list of named values with each name as a row of characters.
pub open spec fn named<T>(entries: Seq<(String, T)>) -> Seq<(Seq<char>, T)> {
    Seq::new(entries.len(), |i: int| (entries[i].0@, entries[i].1))
}

/// A module of a project as a mathematical value.
pub struct ElementView {
    pub id: u16,
    pub name: Seq<char>,
    pub params: Seq<(Seq<char>, Param)>,
    pub marks: Seq<(Seq<char>, Offset)>,
    pub assets: Seq<Asset>,
    pub tracks: Seq<TrackView>,
    pub notes: Seq<Note>,
    pub routes: Seq<Route>,
}

impl View for Element {
    type V = ElementView;

    open spec fn view(&self) -> ElementView {
        ElementView {
            id: self.id,
            name: self.name@,
            params: named(self.params@),
            marks: named(self.marks@),
            assets: self.assets@,
            tracks: tracks_view(self.tracks@),
            notes: self.notes@,
            routes: self.routes@,
        }
    }
}

/// A module of kind `name` with nothing in it.
pub open spec fn blank_view(id: u16, name: Seq<char>) -> ElementView {
    ElementView {
        id,
        name,
        params: Seq::empty(),
        marks: Seq::empty(),
        assets: Seq::empty(),
        tracks: Seq::empty(),
        notes: Seq::empty(),
        routes: Seq::empty(),
    }
}

/// Why a module of a project could not be built.
#[derive(Clone, Copy, Debug, PartialEq, Eq, Structural)]
pub enum LoadError {
    /// A parameter or mark that the module needs is not there.
    Missing,
    /// A value lies outside what the module can hold.
    Range,
}

/// A project.
pub struct Document {
    pub title: String,
    pub src: String,
    pub sample_rate: u32,
    pub modules: Vec<Element>,
}

/// The value that `name` has in a list of named values: where a name
/// occurs more than once, the last occurrence counts.
pub open spec fn lookup<T>(entries: Seq<(Seq<char>, T)>, name: Seq<char>) -> Option<T>
    decreases entries.len(),
{
    if entries.len() == 0 {
        None
    } else if entries.last().0 == name {
        Some(entries.last().1)
    } else {
        lookup(entries.drop_last(), name)
    }
}

/// Looks `name` up in a list of named values.
pub fn find<T: Copy>(entries: &Vec<(String, T)>, name: &str) -> (value: Option<T>)
    ensures
        value == lookup(named(entries@), name@),
{
    let mut i: usize = entries.len();
    proof {
        assert(named(entries@).take(i as int) =~= named(entries@));
    }
    while i > 0
        invariant
            i <= entries@.len(),
            lookup(named(entries@), name@) == lookup(named(entries@).take(i as int), name@),
        decreases i,
    {
        proof {
            assert(named(entries@).take(i as int).drop_last() =~= named(entries@).take(i - 1));
        }
        if str_eq(entries[i - 1].0.as_str(), name) {
            return Some(entries[i - 1].1);
        }
        i -= 1;
    }
    None
}

/// An element of kind `name` with nothing in it.
pub fn blank(id: u16, name: String) -> (el: Element)
    ensures
        el@ == blank_view(id, name@),
{
    let el = Element {
        id,
        name,
        params: Vec::new(),
        marks: Vec::new(),
        assets: Vec::new(),
        tracks: Vec::new(),
        notes: Vec::new(),
        routes: Vec::new(),
    };
    proof {
        assert(el@.params =~= Seq::empty());
        assert(el@.marks =~= Seq::empty());
        assert(el@.tracks =~= Seq::empty());
    }
    el
}

/// A module of kind `name` that holds the given parameters and nothing
/// else.
pub open spec fn with_params(id: u16, name: Seq<char>, params: Seq<(Seq<char>, Param)>) -> ElementView {
    ElementView { params, ..blank_view(id, name) }
}

/// Whether the name at place `k` of a list does not occur after it.
pub open spec fn last_of_its_name<T>(entries: Seq<(Seq<char>, T)>, k: int) -> bool {
    forall|j: int| k < j < entries.len() ==> (#[trigger] entries[j]).0 != entries[k].0
}

/// A name that does not occur again further on has the value that stands
/// with it.
pub proof fn lemma_lookup_at<T>(entries: Seq<(Seq<char>, T)>, k: int)
    requires
        0 <= k < entries.len(),
    ensures
        last_of_its_name(entries, k) ==> lookup(entries, entries[k].0) == Some(entries[k].1),
    decreases entries.len(),
{
    if last_of_its_name(entries, k) && k < entries.len() - 1 {
        let init = entries.drop_last();
        assert(entries[entries.len() - 1].0 != entries[k].0);
        assert(last_of_its_name(init, k)) by {
            assert forall|j: int| k < j < init.len() implies (#[trigger] init[j]).0 != init[k].0 by {
                assert(entries[j].0 != entries[k].0);
            }
        }
        lemma_lookup_at(init, k);
    }
}

} // verus!
