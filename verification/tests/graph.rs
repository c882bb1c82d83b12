use palit::action::Action;
use palit::graph::{CycleError, Graph};
use palit::node::Module;

fn bus() -> Module {
    Module::Passthru(Vec::new())
}

#[test]
fn new_graph_holds_only_its_root() {
    let g = Graph::new();
    assert_eq!(g.node_count(), 1);
    assert_eq!(g.connection_count(), 0);
    assert_eq!(g.master_index(), 0);
    assert!(matches!(g.node(0), Module::Master));
    assert_eq!(g.visit_order(), vec![0]);
}

#[test]
fn add_node_hands_out_consecutive_handles() {
    let mut g = Graph::new();
    assert_eq!(g.add_node(bus()), 1);
    assert_eq!(g.add_node(bus()), 2);
    assert_eq!(g.node_count(), 3);
    assert_eq!(g.connection_count(), 0);
}

#[test]
fn edge_back_to_its_source_is_refused_and_changes_nothing() {
    let mut g = Graph::new();
    let a = g.add_node(bus());
    let b = g.add_node(bus());
    let c = g.add_node(bus());
    assert_eq!(g.add_edge(a, b), Ok(()));
    assert_eq!(g.add_edge(b, c), Ok(()));
    let nodes = g.node_count();
    let edges = g.connection_count();
    let order = g.visit_order();
    assert_eq!(g.add_edge(c, a), Err(CycleError));
    assert_eq!(g.node_count(), nodes);
    assert_eq!(g.connection_count(), edges);
    assert_eq!(g.visit_order(), order);
    assert!(!g.has_edge(c, a));
}

#[test]
fn edge_from_a_node_to_itself_is_refused() {
    let mut g = Graph::new();
    let a = g.add_node(bus());
    assert_eq!(g.add_edge(a, a), Err(CycleError));
    assert_eq!(g.connection_count(), 0);
    // also where the node already has neighbours on both sides
    let b = g.add_node(bus());
    let c = g.add_node(bus());
    assert_eq!(g.add_edge(b, a), Ok(()));
    assert_eq!(g.add_edge(a, c), Ok(()));
    assert_eq!(g.add_edge(a, a), Err(CycleError));
    assert_eq!(g.connection_count(), 2);
}

#[test]
fn parallel_edges_are_kept_and_counted() {
    let mut g = Graph::new();
    let a = g.add_node(bus());
    let b = g.add_node(bus());
    assert_eq!(g.add_edge(a, b), Ok(()));
    assert_eq!(g.add_edge(a, b), Ok(()));
    assert_eq!(g.connection_count(), 2);
    assert_eq!(g.outputs_of(a), vec![b, b]);
    assert!(g.remove_connection(a, b));
    assert_eq!(g.connection_count(), 1);
    assert!(g.has_edge(a, b));
    assert!(g.remove_connection(a, b));
    assert!(!g.has_edge(a, b));
    assert!(!g.remove_connection(a, b));
}

#[test]
fn visit_order_puts_producers_first() {
    let mut g = Graph::new();
    let a = g.add_node(bus());
    let b = g.add_node(bus());
    g.add_edge(b, a).unwrap();
    g.add_edge(a, 0).unwrap();
    let order = g.visit_order();
    assert_eq!(order.len(), 3);
    let at = |n: usize| order.iter().position(|x| *x == n).unwrap();
    assert!(at(b) < at(a));
    assert!(at(a) < at(0));
}

#[test]
fn remove_all_edges_detaches_in_both_directions() {
    let mut g = Graph::new();
    let a = g.add_node(bus());
    let b = g.add_node(bus());
    let c = g.add_node(bus());
    let d = g.add_node(bus());
    g.add_edge(a, b).unwrap();
    g.add_edge(b, c).unwrap();
    g.add_edge(b, d).unwrap();
    g.add_edge(a, d).unwrap();
    g.add_edge(a, b).unwrap();
    g.remove_all_edges(b);
    assert_eq!(g.connection_count(), 1);
    assert!(g.has_edge(a, d));
    assert!(g.outputs_of(b).is_empty());
    assert!(g.inputs_of(b).is_empty());
    assert_eq!(g.node_count(), 5);
}

#[test]
fn removing_an_edge_in_the_middle_keeps_the_others() {
    let mut g = Graph::new();
    let a = g.add_node(bus());
    let b = g.add_node(bus());
    let c = g.add_node(bus());
    g.add_edge(a, b).unwrap();
    g.add_edge(a, c).unwrap();
    g.add_edge(b, c).unwrap();
    assert!(g.remove_connection(a, b));
    assert_eq!(g.connection_count(), 2);
    assert!(g.has_edge(a, c));
    assert!(g.has_edge(b, c));
    assert_eq!(g.inputs_of(c).len(), 2);
    // the edge that was refused before is now accepted
    assert_eq!(g.add_edge(c, a), Err(CycleError));
    assert!(g.remove_connection(a, c));
    assert_eq!(g.add_edge(c, a), Ok(()));
}

#[test]
fn bus_forwards_to_its_outputs_on_the_next_round() {
    let mut g = Graph::new();
    let from = g.add_node(bus());
    let to = g.add_node(bus());
    g.add_edge(from, to).unwrap();
    g.dispatch(from, Action::NoteOn(60, 100));
    let client = g.walk_dispatch();
    assert!(client.is_empty());
    match g.node(to) {
        Module::Passthru(q) => assert_eq!(q, &vec![Action::NoteOn(60, 100)]),
        _ => panic!("not a bus"),
    }
    match g.node(from) {
        Module::Passthru(q) => assert!(q.is_empty()),
        _ => panic!("not a bus"),
    }
}

#[test]
fn parallel_edges_deliver_twice() {
    let mut g = Graph::new();
    let from = g.add_node(bus());
    let to = g.add_node(bus());
    g.add_edge(from, to).unwrap();
    g.add_edge(from, to).unwrap();
    g.dispatch(from, Action::NoteOff(3));
    g.walk_dispatch();
    match g.node(to) {
        Module::Passthru(q) => assert_eq!(q, &vec![Action::NoteOff(3), Action::NoteOff(3)]),
        _ => panic!("not a bus"),
    }
}

#[test]
fn client_messages_carry_the_id_of_the_operator_upstream() {
    let mut g = Graph::new();
    let octave = g.add_node(Module::Octave(Vec::new(), 3));
    let op = g.add_node(Module::Operator(Vec::new(), vec![octave, octave], 104));
    g.add_edge(op, octave).unwrap();
    g.dispatch(op, Action::NoteOn(60, 1));
    // first round: the operator hands the note to the octave node
    assert!(g.walk_dispatch().is_empty());
    // second round: the octave node sends it on and reports it
    let client = g.walk_dispatch();
    assert_eq!(client, vec![Action::At(104, Box::new(Action::NoteOn(60, 1)))]);
}

#[test]
fn audio_stops_at_the_root() {
    let mut g = Graph::new();
    let keys = g.add_node(Module::DebugKeys(Vec::new(), Vec::new(), 1000));
    g.add_edge(keys, 0).unwrap();
    g.audio_requested(128);
    match g.node(keys) {
        Module::DebugKeys(_, _, timer) => assert_eq!(*timer, 872),
        _ => panic!("not a DebugKeys node"),
    }
}
