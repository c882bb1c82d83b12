//! The voice pool of the drawbar organ: a note-on takes one voice per
//! drawbar, a note-off lets the voices of that note fade, and a voice is
//! given back when it has faded out.
//!
//! Gains are counted in envelope steps: every sample moves a voice one step
//! towards its target, and `RAMP` steps make up one unit of velocity.

use vstd::prelude::*;
use crate::action::{take_queue, Action, Key, Param, Volume};
use vstd::string::StringExecFns;
use crate::document::{blank, find, lemma_lookup_at, lookup, named, with_params, Element};
use crate::text::str_eq;

verus! {

/// Number of voices in the pool.
pub const VOICES: usize = 256;

/// Number of drawbars.
pub const BARS: usize = 9;

/// Envelope steps per unit of velocity.
pub const RAMP: u32 = 500;

/// Sample rate of a new synth.
pub const SAMPLE_HZ: u32 = 48000;

/// One sounding voice.
#[derive(Clone, Copy, Debug, PartialEq, Eq, Structural)]
pub struct Sig {
    pub note: Key,
    pub targetvol: u32,
    pub curvol: u32,
    pub baridx: usize,
}

pub struct Store {
    pub queue: Vec<Action>,
    pub sigs: Vec<Option<Sig>>,
    pub sample_rate: u32,
    pub bar_values: [Param; 9],
}

/// The synth as a mathematical value.
pub struct StoreView {
    pub queue: Seq<Action>,
    pub sigs: Seq<Option<Sig>>,
    pub sample_rate: u32,
    pub bar_values: Seq<Param>,
}

impl View for Store {
    type V = StoreView;

    open spec fn view(&self) -> StoreView {
        StoreView {
            queue: self.queue@,
            sigs: self.sigs@,
            sample_rate: self.sample_rate,
            bar_values: self.bar_values@,
        }
    }
}

/// Length of the pipe of drawbar `baridx` in fifteenths of a foot: the
/// drawbars are 16', 5 1/3', 8', 4', 2 2/3', 2', 1 3/5', 1 1/3' and 1'.
pub open spec fn bar_length(baridx: int) -> int {
    if baridx == 0 {
        240
    } else if baridx == 1 {
        80
    } else if baridx == 2 {
        120
    } else if baridx == 3 {
        60
    } else if baridx == 4 {
        40
    } else if baridx == 5 {
        30
    } else if baridx == 6 {
        24
    } else if baridx == 7 {
        20
    } else {
        15
    }
}

/// Length of the pipe of drawbar `baridx` in fifteenths of a foot. A voice
/// on that drawbar sounds at the note's frequency times 8 feet over this
/// length.
pub fn bar_freq(baridx: usize) -> (fifteenths: u32)
    requires
        baridx < BARS,
    ensures
        fifteenths == bar_length(baridx as int),
{
    if baridx == 0 {
        240
    } else if baridx == 1 {
        80
    } else if baridx == 2 {
        120
    } else if baridx == 3 {
        60
    } else if baridx == 4 {
        40
    } else if baridx == 5 {
        30
    } else if baridx == 6 {
        24
    } else if baridx == 7 {
        20
    } else {
        15
    }
}

impl StoreView {
    /// The pool has its fixed size.
    pub open spec fn wf(self) -> bool {
        self.sigs.len() == VOICES && self.bar_values.len() == BARS
    }

    /// Number of voices in use.
    pub open spec fn active(self) -> nat {
        self.sigs.filter(|v: Option<Sig>| v is Some).len()
    }
}

/// Drawbar levels of a new synth.
pub open spec fn default_bars() -> Seq<Param> {
    seq![250, 250, 250, 750, 500, 0, 0, 0, 0]
}

/// A silent synth with every voice free.
pub fn init() -> (store: Store)
    ensures
        store@.wf(),
        store@.queue == Seq::<Action>::empty(),
        store@.sigs == Seq::new(VOICES as nat, |i: int| None::<Sig>),
        store@.sample_rate == SAMPLE_HZ,
        store@.bar_values == default_bars(),
        store@ == silent(default_bars()),
{
    let mut sigs: Vec<Option<Sig>> = Vec::new();
    let mut i: usize = 0;
    while i < VOICES
        invariant
            i <= VOICES,
            sigs@ =~= Seq::new(i as nat, |i: int| None::<Sig>),
        decreases VOICES - i,
    {
        sigs.push(None);
        i += 1;
    }
    let bar_values: [Param; 9] = [250, 250, 250, 750, 500, 0, 0, 0, 0];
    assert(bar_values@ =~= default_bars());
    Store { queue: Vec::new(), sigs, sample_rate: SAMPLE_HZ, bar_values }
}

/// Index of the first free voice at or after `from`, or the size of the
/// pool when none is free.
pub open spec fn first_free(sigs: Seq<Option<Sig>>, from: int) -> int
    decreases sigs.len() - from,
{
    if from >= sigs.len() {
        sigs.len() as int
    } else if sigs[from] is None {
        from
    } else {
        first_free(sigs, from + 1)
    }
}

/// A voice that starts silent and rises to the velocity `vol`.
pub open spec fn fresh(note: Key, vol: Volume, baridx: int) -> Sig {
    Sig { note, targetvol: (vol * RAMP) as u32, curvol: 0, baridx: baridx as usize }
}

/// The pool after taking a voice for each drawbar from `bar` on, each in
/// the first free place, and whether every drawbar got one. When the pool
/// runs out, the voices taken so far stay.
pub open spec fn allocate(sigs: Seq<Option<Sig>>, note: Key, vol: Volume, bar: int) -> (
    Seq<Option<Sig>>,
    bool,
)
    decreases BARS - bar,
{
    if bar >= BARS {
        (sigs, true)
    } else {
        let idx = first_free(sigs, 0);
        if idx >= sigs.len() {
            (sigs, false)
        } else {
            allocate(sigs.update(idx, Some(fresh(note, vol, bar))), note, vol, bar + 1)
        }
    }
}

/// The voice `v` after a note-off for `note`: a voice of that note fades.
pub open spec fn release(v: Option<Sig>, note: Key) -> Option<Sig> {
    match v {
        Some(sig) => if sig.note == note { Some(Sig { targetvol: 0, ..sig }) } else { v },
        None => None,
    }
}

/// The drawbar that a parameter name stands for.
pub open spec fn bar_index(name: Seq<char>) -> Option<int> {
    if name == "16"@ {
        Some(0)
    } else if name == "5.3"@ {
        Some(1)
    } else if name == "8"@ {
        Some(2)
    } else if name == "4"@ {
        Some(3)
    } else if name == "2.6"@ {
        Some(4)
    } else if name == "2"@ {
        Some(5)
    } else if name == "1.6"@ {
        Some(6)
    } else if name == "1.3"@ {
        Some(7)
    } else if name == "1"@ {
        Some(8)
    } else {
        None
    }
}

/// The synth after one message. A note-on that finds a voice for every
/// drawbar is passed on to the client; one that runs out of voices is not.
pub open spec fn dispatch_spec(s: StoreView, a: Action) -> StoreView {
    match a {
        Action::NoteOn(note, vol) => {
            let (sigs, complete) = allocate(s.sigs, note, vol, 0);
            StoreView {
                sigs,
                queue: if complete { s.queue.push(Action::NoteOn(note, vol)) } else { s.queue },
                ..s
            }
        },
        Action::NoteOff(note) => StoreView {
            sigs: Seq::new(s.sigs.len(), |i: int| release(s.sigs[i], note)),
            queue: s.queue.push(Action::NoteOff(note)),
            ..s
        },
        Action::SetParam(ctrl, value) => match bar_index(ctrl@) {
            Some(idx) => StoreView { bar_values: s.bar_values.update(idx, value), ..s },
            None => s,
        },
        _ => s,
    }
}

/// Position of the first free voice.
fn position_free(sigs: &Vec<Option<Sig>>) -> (at: usize)
    ensures
        at == first_free(sigs@, 0),
        at <= sigs@.len(),
        at < sigs@.len() ==> sigs@[at as int] is None,
{
    let mut i: usize = 0;
    while i < sigs.len() && sigs[i].is_some()
        invariant
            i <= sigs@.len(),
            first_free(sigs@, 0) == first_free(sigs@, i as int),
        decreases sigs@.len() - i,
    {
        i += 1;
    }
    i
}

/// The drawbar that the parameter `name` stands for.
fn drawbar(name: &str) -> (idx: Option<usize>)
    ensures
        match idx {
            Some(i) => bar_index(name@) == Some(i as int) && i < BARS,
            None => bar_index(name@) is None,
        },
{
    if str_eq(name, "16") {
        Some(0)
    } else if str_eq(name, "5.3") {
        Some(1)
    } else if str_eq(name, "8") {
        Some(2)
    } else if str_eq(name, "4") {
        Some(3)
    } else if str_eq(name, "2.6") {
        Some(4)
    } else if str_eq(name, "2") {
        Some(5)
    } else if str_eq(name, "1.6") {
        Some(6)
    } else if str_eq(name, "1.3") {
        Some(7)
    } else if str_eq(name, "1") {
        Some(8)
    } else {
        None
    }
}

/// Applies one message to the synth.
pub fn dispatch(store: &mut Store, action: Action)
    ensures
        final(store)@ == dispatch_spec(old(store)@, action),
        final(store)@.sigs.len() == old(store)@.sigs.len(),
        old(store)@.wf() ==> final(store)@.wf(),
{
    match action {
        Action::NoteOn(note, vol) => {
            let mut baridx: usize = 0;
            while baridx < BARS
                invariant
                    baridx <= BARS,
                    action == Action::NoteOn(note, vol),
                    store.sigs@.len() == old(store)@.sigs.len(),
                    store.queue@ == old(store)@.queue,
                    store.sample_rate == old(store).sample_rate,
                    store.bar_values == old(store).bar_values,
                    allocate(old(store)@.sigs, note, vol, 0) == allocate(
                        store.sigs@,
                        note,
                        vol,
                        baridx as int,
                    ),
                decreases BARS - baridx,
            {
                let idx = position_free(&store.sigs);
                if idx >= store.sigs.len() {
                    assert(allocate(store.sigs@, note, vol, baridx as int) == (store.sigs@, false));
                    return ;
                }
                let sig = Sig { note, targetvol: (vol as u32) * RAMP, curvol: 0, baridx };
                store.sigs[idx] = Some(sig);
                baridx += 1;
            }
            store.queue.push(Action::NoteOn(note, vol));
        },
        Action::NoteOff(note) => {
            let n = store.sigs.len();
            let mut i: usize = 0;
            while i < n
                invariant
                    i <= n,
                    n == old(store)@.sigs.len(),
                    store.queue@ == old(store)@.queue,
                    store.sample_rate == old(store).sample_rate,
                    store.bar_values == old(store).bar_values,
                    store.sigs@ =~= Seq::new(
                        n as nat,
                        |j: int|
                            if j < i {
                                release(old(store)@.sigs[j], note)
                            } else {
                                old(store)@.sigs[j]
                            },
                    ),
                decreases n - i,
            {
                match store.sigs[i] {
                    Some(sig) => {
                        if sig.note == note {
                            store.sigs[i] = Some(
                                Sig {
                                    note: sig.note,
                                    targetvol: 0,
                                    curvol: sig.curvol,
                                    baridx: sig.baridx,
                                },
                            );
                        }
                    },
                    None => {},
                }
                i += 1;
            }
            assert(store.sigs@ =~= Seq::new(n as nat, |i: int| release(old(store)@.sigs[i], note)));
            store.queue.push(Action::NoteOff(note));
        },
        Action::SetParam(ctrl, value) => {
            match drawbar(ctrl.as_str()) {
                Some(idx) => {
                    store.bar_values[idx] = value;
                },
                None => {},
            }
        },
        _ => {},
    }
}

/// Level of a drawbar that a project does not set.
pub const DEFAULT_LEVEL: Param = 100;

/// The level that a project gives drawbar `name`.
pub open spec fn level(params: Seq<(Seq<char>, Param)>, name: Seq<char>) -> Param {
    match lookup(params, name) {
        Some(v) => v,
        None => DEFAULT_LEVEL,
    }
}

/// Drawbar levels as a project's parameters give them.
pub open spec fn read_bars(params: Seq<(Seq<char>, Param)>) -> Seq<Param> {
    seq![
        level(params, "16"@),
        level(params, "5.3"@),
        level(params, "8"@),
        level(params, "4"@),
        level(params, "2.6"@),
        level(params, "2"@),
        level(params, "1.6"@),
        level(params, "1.3"@),
        level(params, "1"@),
    ]
}

fn read_level(params: &Vec<(String, Param)>, name: &str) -> (v: Param)
    ensures
        v == level(named(params@), name@),
{
    match find(params, name) {
        Some(v) => v,
        None => DEFAULT_LEVEL,
    }
}

/// A silent synth with the drawbar levels `bar_values`.
pub open spec fn silent(bar_values: Seq<Param>) -> StoreView {
    StoreView {
        queue: Seq::empty(),
        sigs: Seq::new(VOICES as nat, |i: int| None::<Sig>),
        sample_rate: SAMPLE_HZ,
        bar_values,
    }
}

/// A synth with the drawbar levels of a project's module.
pub fn read(doc: &Element) -> (r: Option<Store>)
    ensures
        r matches Some(store) && store@ == silent(read_bars(named(doc.params@))),
{
    let mut store = init();
    let bar_values: [Param; 9] = [
        read_level(&doc.params, "16"),
        read_level(&doc.params, "5.3"),
        read_level(&doc.params, "8"),
        read_level(&doc.params, "4"),
        read_level(&doc.params, "2.6"),
        read_level(&doc.params, "2"),
        read_level(&doc.params, "1.6"),
        read_level(&doc.params, "1.3"),
        read_level(&doc.params, "1"),
    ];
    assert(bar_values@ =~= read_bars(named(doc.params@)));
    store.bar_values = bar_values;
    Some(store)
}

/// A voice after one sample: it moves one step towards its target, and a
/// voice that fades is given back when it reaches silence.
pub open spec fn step_voice(v: Option<Sig>) -> Option<Sig> {
    match v {
        None => None,
        Some(sig) => if sig.curvol == sig.targetvol {
            v
        } else if sig.targetvol == 0 {
            if sig.curvol <= 1 {
                None
            } else {
                Some(Sig { curvol: (sig.curvol - 1) as u32, ..sig })
            }
        } else if sig.curvol < sig.targetvol {
            Some(Sig { curvol: (sig.curvol + 1) as u32, ..sig })
        } else {
            Some(Sig { curvol: sig.targetvol, ..sig })
        },
    }
}

/// The synth after one sample.
pub open spec fn compute_spec(s: StoreView) -> StoreView {
    StoreView { sigs: Seq::new(s.sigs.len(), |i: int| step_voice(s.sigs[i])), ..s }
}

/// Steps every voice by one sample.
pub fn compute(store: &mut Store)
    ensures
        final(store)@ == compute_spec(old(store)@),
        old(store)@.wf() ==> final(store)@.wf(),
{
    let n = store.sigs.len();
    let mut i: usize = 0;
    while i < n
        invariant
            i <= n,
            n == old(store)@.sigs.len(),
            store.queue@ == old(store)@.queue,
            store.sample_rate == old(store).sample_rate,
            store.bar_values == old(store).bar_values,
            store.sigs@ =~= Seq::new(
                n as nat,
                |j: int| if j < i { step_voice(old(store)@.sigs[j]) } else { old(store)@.sigs[j] },
            ),
        decreases n - i,
    {
        match store.sigs[i] {
            Some(sig) => {
                if sig.curvol != sig.targetvol {
                    if sig.targetvol == 0 {
                        if sig.curvol <= 1 {
                            store.sigs[i] = None;
                        } else {
                            store.sigs[i] = Some(
                                Sig {
                                    note: sig.note,
                                    targetvol: sig.targetvol,
                                    curvol: sig.curvol - 1,
                                    baridx: sig.baridx,
                                },
                            );
                        }
                    } else {
                        let curvol = if sig.curvol < sig.targetvol {
                            sig.curvol + 1
                        } else {
                            sig.targetvol
                        };
                        store.sigs[i] = Some(
                            Sig {
                                note: sig.note,
                                targetvol: sig.targetvol,
                                curvol,
                                baridx: sig.baridx,
                            },
                        );
                    }
                }
            },
            None => {},
        }
        i += 1;
    }
    assert(store.sigs@ =~= Seq::new(n as nat, |i: int| step_voice(old(store)@.sigs[i])));
}

/// Empties the queue of notes that sounded: they go to the client.
pub fn dispatch_requested(store: &mut Store) -> (r: (
    Option<Vec<Action>>,
    Option<Vec<Action>>,
    Option<Vec<Action>>,
))
    ensures
        final(store)@ == (StoreView { queue: Seq::empty(), ..old(store)@ }),
        r.0 is None,
        r.1 is None,
        r.2 matches Some(carry) && carry@ == old(store)@.queue,
{
    let carry = take_queue(&mut store.queue);
    (None, None, Some(carry))
}

/// However many notes a synth is sent, it never sounds more voices than
/// its pool holds.
pub proof fn lemma_voices_bounded(s: StoreView)
    requires
        s.wf(),
    ensures
        s.active() <= VOICES,
{
    s.sigs.lemma_filter_len(|v: Option<Sig>| v is Some);
}

/// The first free voice lies at or after the place where the search began.
pub proof fn lemma_first_free_range(sigs: Seq<Option<Sig>>, from: int)
    requires
        0 <= from <= sigs.len(),
    ensures
        from <= first_free(sigs, from) <= sigs.len(),
        first_free(sigs, from) < sigs.len() ==> sigs[first_free(sigs, from)] is None,
    decreases sigs.len() - from,
{
    if from < sigs.len() && sigs[from] is Some {
        lemma_first_free_range(sigs, from + 1);
    }
}

/// No message changes the size of the pool.
pub proof fn lemma_allocate_len(sigs: Seq<Option<Sig>>, note: Key, vol: Volume, bar: int)
    ensures
        allocate(sigs, note, vol, bar).0.len() == sigs.len(),
    decreases BARS - bar,
{
    if bar < BARS {
        let idx = first_free(sigs, 0);
        lemma_first_free_range(sigs, 0);
        if idx < sigs.len() {
            lemma_allocate_len(sigs.update(idx, Some(fresh(note, vol, bar))), note, vol, bar + 1);
        }
    }
}

/// The synth after a run of events, each either a message or, for `None`,
/// the passing of one sample.
pub open spec fn run(s: StoreView, events: Seq<Option<Action>>) -> StoreView
    decreases events.len(),
{
    if events.len() == 0 {
        s
    } else {
        let before = run(s, events.drop_last());
        match events.last() {
            Some(a) => dispatch_spec(before, a),
            None => compute_spec(before),
        }
    }
}

/// For every run of messages sent to a synth, with any number of samples
/// passing between them, at most `VOICES` voices sound at once.
pub proof fn lemma_run_bounded(s: StoreView, events: Seq<Option<Action>>)
    requires
        s.wf(),
    ensures
        run(s, events).wf(),
        run(s, events).active() <= VOICES,
    decreases events.len(),
{
    if events.len() > 0 {
        lemma_run_bounded(s, events.drop_last());
        let before = run(s, events.drop_last());
        match events.last() {
            Some(Action::NoteOn(note, vol)) => {
                lemma_allocate_len(before.sigs, note, vol, 0);
            },
            _ => {},
        }
    }
    lemma_voices_bounded(run(s, events));
}

/// The parameters that hold the drawbar levels `bars` in a project.
pub open spec fn written(bars: Seq<Param>) -> Seq<(Seq<char>, Param)> {
    seq![
        ("16"@, bars[0]),
        ("5.3"@, bars[1]),
        ("8"@, bars[2]),
        ("4"@, bars[3]),
        ("2.6"@, bars[4]),
        ("2"@, bars[5]),
        ("1.6"@, bars[6]),
        ("1.3"@, bars[7]),
        ("1"@, bars[8]),
    ]
}

/// The synth as a module of a project: its drawbar levels under their
/// names.
pub fn write(store: &Store, id: u16) -> (el: Element)
    ensures
        el@ == with_params(id, "hammond"@, written(store@.bar_values)),
{
    let mut params: Vec<(String, Param)> = Vec::new();
    params.push((String::from_str("16"), store.bar_values[0]));
    params.push((String::from_str("5.3"), store.bar_values[1]));
    params.push((String::from_str("8"), store.bar_values[2]));
    params.push((String::from_str("4"), store.bar_values[3]));
    params.push((String::from_str("2.6"), store.bar_values[4]));
    params.push((String::from_str("2"), store.bar_values[5]));
    params.push((String::from_str("1.6"), store.bar_values[6]));
    params.push((String::from_str("1.3"), store.bar_values[7]));
    params.push((String::from_str("1"), store.bar_values[8]));
    assert(named(params@) =~= written(store@.bar_values));
    let mut el = blank(id, String::from_str("hammond"));
    el.params = params;
    el
}

/// Drawbar levels that are written to a project read back as they were.
pub proof fn lemma_write_read(bars: Seq<Param>)
    requires
        bars.len() == BARS,
    ensures
        read_bars(written(bars)) == bars,
{
    reveal_strlit("16");
    reveal_strlit("5.3");
    reveal_strlit("8");
    reveal_strlit("4");
    reveal_strlit("2.6");
    reveal_strlit("2");
    reveal_strlit("1.6");
    reveal_strlit("1.3");
    reveal_strlit("1");
    let w = written(bars);
    lemma_lookup_at(w, 0);
    lemma_lookup_at(w, 1);
    lemma_lookup_at(w, 2);
    lemma_lookup_at(w, 3);
    lemma_lookup_at(w, 4);
    lemma_lookup_at(w, 5);
    lemma_lookup_at(w, 6);
    lemma_lookup_at(w, 7);
    lemma_lookup_at(w, 8);
    assert("16"@.len() == 2 && "5.3"@.len() == 3 && "8"@.len() == 1 && "4"@.len() == 1 && "2.6"@.len()
        == 3 && "2"@.len() == 1 && "1.6"@.len() == 3 && "1.3"@.len() == 3 && "1"@.len() == 1);
    assert("8"@[0] != "4"@[0] && "8"@[0] != "2"@[0] && "8"@[0] != "1"@[0] && "4"@[0] != "2"@[0]
        && "4"@[0] != "1"@[0] && "2"@[0] != "1"@[0]);
    assert("5.3"@[0] != "2.6"@[0] && "5.3"@[0] != "1.6"@[0] && "5.3"@[0] != "1.3"@[0]
        && "2.6"@[0] != "1.6"@[0] && "2.6"@[0] != "1.3"@[0] && "1.6"@[2] != "1.3"@[2]);
    assert(read_bars(w) =~= bars);
}

} // verus!
