//! The place of an external plugin in the graph. The plugin itself runs
//! outside: messages for it wait in an inbox until the host hands them to
//! the plugin.

use vstd::prelude::*;
use vstd::string::StringExecFns;
use crate::action::{take_queue, Action};

verus! {

pub struct Store {
    pub name: String,
    pub inbox: Vec<Action>,
}

/// The plugin's place as a mathematical value.
pub struct StoreView {
    pub name: Seq<char>,
    pub inbox: Seq<Action>,
}

impl View for Store {
    type V = StoreView;

    open spec fn view(&self) -> StoreView {
        StoreView { name: self.name@, inbox: self.inbox@ }
    }
}

/// Where the plugin `name` is loaded from.
pub open spec fn path_of(name: Seq<char>) -> Seq<char> {
    "./modules/"@ + name + ".so"@
}

/// A place for the plugin `name`, with an empty inbox.
pub fn init(name: String) -> (store: Store)
    ensures
        store@ == (StoreView { name: name@, inbox: Seq::empty() }),
{
    Store { name, inbox: Vec::new() }
}

/// Where the plugin is loaded from.
pub fn path(store: &Store) -> (p: String)
    ensures
        p@ == path_of(store@.name),
{
    String::from_str("./modules/").concat(store.name.as_str()).concat(".so")
}

/// The plugin's place after one message: the message waits in the inbox.
pub open spec fn dispatch_spec(s: StoreView, a: Action) -> StoreView {
    StoreView { inbox: s.inbox.push(a), ..s }
}

/// Puts one message into the inbox.
pub fn dispatch(store: &mut Store, action: Action)
    ensures
        final(store)@ == dispatch_spec(old(store)@, action),
{
    store.inbox.push(action);
}

/// Empties the inbox and hands back the messages for the plugin, oldest
/// first.
pub fn take_inbox(store: &mut Store) -> (held: Vec<Action>)
    ensures
        held@ == old(store)@.inbox,
        final(store)@ == (StoreView { inbox: Seq::empty(), ..old(store)@ }),
{
    take_queue(&mut store.inbox)
}

/// A plugin sends nothing into the graph.
pub fn dispatch_requested(store: &mut Store) -> (r: (
    Option<Vec<Action>>,
    Option<Vec<Action>>,
    Option<Vec<Action>>,
))
    ensures
        final(store)@ == old(store)@,
        r.0 is None,
        r.1 is None,
        r.2 is None,
{
    (None, None, None)
}

} // verus!
