use controller_core::events::handle_packet_sent;
use controller_core::mirror::TopologySnapshot;
use controller_core::reset::LifecycleManager;
use controller_core::types::{LogColor, NodeKind, Packet, PacketKind};

fn snapshot() -> TopologySnapshot {
    TopologySnapshot {
        drone_ids: vec![5, 6],
        client_ids: vec![1],
        server_ids: vec![9],
        edges: vec![(5, 6), (5, 1), (6, 9)],
    }
}

#[test]
fn reset_walks_the_two_phase_machine() {
    let mut manager = LifecycleManager::new();
    manager.begin_reset();
    let outcome = manager.complete_reset(&snapshot());
    assert_eq!(outcome.hub.get_all_ids(), vec![5, 6, 1, 9]);
    assert_eq!(outcome.mirror.get_nodes().len(), 4);
    // the machine is running again: a second reset can start
    manager.begin_reset();
    let _ = manager.complete_reset(&snapshot());
}

#[test]
fn reset_installs_the_zeroed_baseline() {
    let mut manager = LifecycleManager::new();
    manager.begin_reset();
    let outcome = manager.complete_reset(&snapshot());
    for id in [5u8, 6, 1, 9] {
        assert_eq!(outcome.hub.get_logs(id).len(), 0);
    }
    assert_eq!(outcome.hub.get_drone_stats(5).packets_forwarded, [0, 0, 0, 0, 0]);
    assert_eq!(outcome.hub.get_drone_stats(6).fragments_dropped, 0);
    assert_eq!(outcome.hub.get_client_stats(1).messages_assembled, 0);
    assert_eq!(outcome.hub.get_server_stats(9).packets_received, [0, 0, 0, 0, 0]);
}

#[test]
fn late_event_on_the_old_hub_cannot_touch_the_new_one() {
    // a relay worker still holds the old hub while a reset completes;
    // its in-flight event lands on the old hub only, and the new hub is
    // the freshly zeroed baseline whatever that event's outcome
    let mut manager = LifecycleManager::new();
    manager.begin_reset();
    let old_outcome = manager.complete_reset(&snapshot());
    let mut old_hub = old_outcome.hub;

    manager.begin_reset();
    // the in-flight event completes against the old hub during teardown
    let p = Packet { kind: PacketKind::Fragment, hops: vec![3, 5, 7], hop_index: 2, path_trace: vec![] };
    handle_packet_sent(&mut old_hub, NodeKind::Drone, &p);
    old_hub.add_log(1, "stale line".to_string(), LogColor::Info);
    let new_outcome = manager.complete_reset(&snapshot());

    assert_eq!(old_hub.get_drone_stats(5).packets_forwarded, [1, 0, 0, 0, 0]);
    assert_eq!(old_hub.get_logs(1).len(), 1);
    for id in [5u8, 6, 1, 9] {
        assert_eq!(new_outcome.hub.get_logs(id).len(), 0);
    }
    assert_eq!(new_outcome.hub.get_drone_stats(5).packets_forwarded, [0, 0, 0, 0, 0]);
}
