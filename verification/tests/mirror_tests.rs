use controller_core::mirror::{TopologyMirror, TopologySnapshot};
use controller_core::types::NodeKind;

fn snapshot(drones: Vec<u8>, edges: Vec<(u8, u8)>) -> TopologySnapshot {
    TopologySnapshot { drone_ids: drones, client_ids: vec![1], server_ids: vec![9], edges }
}

#[test]
fn rebuild_assigns_stable_indices_in_order() {
    let s = snapshot(vec![5, 6], vec![(5, 6), (5, 1), (6, 9)]);
    let m = TopologyMirror::rebuild(&s);
    let nodes = m.get_nodes();
    assert_eq!(nodes.len(), 4);
    assert_eq!((nodes[0].id, nodes[0].kind, nodes[0].index), (5, NodeKind::Drone, 0));
    assert_eq!((nodes[1].id, nodes[1].kind, nodes[1].index), (6, NodeKind::Drone, 1));
    assert_eq!((nodes[2].id, nodes[2].kind, nodes[2].index), (1, NodeKind::Client, 2));
    assert_eq!((nodes[3].id, nodes[3].kind, nodes[3].index), (9, NodeKind::Server, 3));
    assert_eq!(m.get_edges().as_slice(), &[(5, 6), (5, 1), (6, 9)]);
}

#[test]
fn reconcile_removes_crashed_relays_with_their_edges() {
    let s0 = snapshot(vec![5, 6], vec![(5, 6), (5, 1), (6, 9)]);
    let mut m = TopologyMirror::rebuild(&s0);
    // relay 6 crashed; its edges go with it, the others stay
    let s1 = snapshot(vec![5], vec![(5, 1)]);
    m.reconcile(&s1);
    let ids: Vec<u8> = m.get_nodes().iter().map(|n| n.id).collect();
    assert_eq!(ids, vec![5, 1, 9]);
    // surviving nodes keep their stable indices
    let indices: Vec<usize> = m.get_nodes().iter().map(|n| n.index).collect();
    assert_eq!(indices, vec![0, 2, 3]);
    assert_eq!(m.get_edges().as_slice(), &[(5, 1)]);
}

#[test]
fn reconcile_adds_missing_edges_only() {
    let s0 = snapshot(vec![5, 6], vec![(5, 6)]);
    let mut m = TopologyMirror::rebuild(&s0);
    // the engine now also reports 5-1 and the old edge reversed
    let s1 = snapshot(vec![5, 6], vec![(6, 5), (5, 1)]);
    m.reconcile(&s1);
    assert_eq!(m.get_edges().as_slice(), &[(5, 6), (5, 1)]);
}

#[test]
fn reconcile_twice_equals_reconcile_once() {
    let s0 = snapshot(vec![5, 6], vec![(5, 6), (5, 1), (6, 9)]);
    let s1 = snapshot(vec![5], vec![(5, 1), (1, 9)]);

    let mut once = TopologyMirror::rebuild(&s0);
    once.reconcile(&s1);

    let mut twice = TopologyMirror::rebuild(&s0);
    twice.reconcile(&s1);
    twice.reconcile(&s1);

    assert_eq!(once.get_nodes(), twice.get_nodes());
    assert_eq!(once.get_edges(), twice.get_edges());
}

#[test]
fn empty_mirror_has_nothing() {
    let m = TopologyMirror::empty();
    assert!(m.get_nodes().is_empty());
    assert!(m.get_edges().is_empty());
}
