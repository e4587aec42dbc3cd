use controller_core::hub::{ContentFile, ContentFileType, SimulationData, MAX_LOG_LENGTH};
use controller_core::types::{LogColor, NodeKind, PacketKind};

fn small_hub() -> SimulationData {
    SimulationData::new(vec![5, 6], vec![1], vec![9])
}

#[test]
fn fresh_hub_has_empty_logs_and_zero_stats() {
    let hub = small_hub();
    for id in [5u8, 6, 1, 9] {
        assert_eq!(hub.get_logs(id).len(), 0);
    }
    let ds = hub.get_drone_stats(5);
    assert_eq!(ds.packets_forwarded, [0, 0, 0, 0, 0]);
    assert_eq!(ds.fragments_dropped, 0);
    let cs = hub.get_client_stats(1);
    assert_eq!(cs.packets_sent, [0, 0, 0, 0, 0]);
    assert_eq!(cs.packets_received, [0, 0, 0, 0, 0]);
    assert_eq!(cs.messages_assembled, 0);
    assert_eq!(cs.messages_fragmented, 0);
    let ss = hub.get_server_stats(9);
    assert_eq!(ss.packets_sent, [0, 0, 0, 0, 0]);
    assert_eq!(ss.messages_fragmented, 0);
}

#[test]
fn add_log_appends_in_order() {
    let mut hub = small_hub();
    hub.add_log(5, "first".to_string(), LogColor::Neutral);
    hub.add_log(5, "second".to_string(), LogColor::Positive);
    let logs = hub.get_logs(5);
    assert_eq!(logs.len(), 2);
    assert_eq!(logs[0].text, "first");
    assert_eq!(logs[0].color, LogColor::Neutral);
    assert_eq!(logs[1].text, "second");
    assert_eq!(logs[1].color, LogColor::Positive);
}

#[test]
fn log_at_capacity_evicts_first_entry() {
    let mut hub = small_hub();
    for i in 0..MAX_LOG_LENGTH {
        hub.add_log(5, format!("entry {i}"), LogColor::Neutral);
    }
    assert_eq!(hub.get_logs(5).len(), 100);
    hub.add_log(5, "entry 100".to_string(), LogColor::Neutral);
    let logs = hub.get_logs(5);
    assert_eq!(logs.len(), 100);
    assert_eq!(logs[0].text, "entry 1");
    assert_eq!(logs[99].text, "entry 100");
}

#[test]
fn long_history_keeps_last_capacity_entries_in_order() {
    let mut hub = small_hub();
    for i in 0..250 {
        hub.add_log(6, format!("line {i}"), LogColor::Neutral);
    }
    let logs = hub.get_logs(6);
    assert_eq!(logs.len(), 100);
    for (k, entry) in logs.iter().enumerate() {
        assert_eq!(entry.text, format!("line {}", 150 + k));
    }
}

#[test]
fn clear_log_empties_one_node_only() {
    let mut hub = small_hub();
    hub.add_log(5, "a".to_string(), LogColor::Neutral);
    hub.add_log(1, "b".to_string(), LogColor::Neutral);
    hub.clear_log(5);
    assert_eq!(hub.get_logs(5).len(), 0);
    assert_eq!(hub.get_logs(1).len(), 1);
}

#[test]
fn clear_all_logs_empties_every_node() {
    let mut hub = small_hub();
    for id in [5u8, 6, 1, 9] {
        hub.add_log(id, "x".to_string(), LogColor::Info);
    }
    hub.clear_all_logs();
    for id in [5u8, 6, 1, 9] {
        assert_eq!(hub.get_logs(id).len(), 0);
    }
}

#[test]
fn note_counters_tick_independently() {
    let mut hub = small_hub();
    hub.note_packet_sent(NodeKind::Drone, 5, PacketKind::Fragment);
    hub.note_packet_sent(NodeKind::Drone, 5, PacketKind::Ack);
    hub.note_packet_sent(NodeKind::Client, 1, PacketKind::Fragment);
    hub.note_packet_received(NodeKind::Server, 9, PacketKind::Fragment);
    hub.note_fragment_dropped(5);
    assert_eq!(hub.get_drone_stats(5).packets_forwarded, [1, 1, 0, 0, 0]);
    assert_eq!(hub.get_drone_stats(5).fragments_dropped, 1);
    assert_eq!(hub.get_drone_stats(6).packets_forwarded, [0, 0, 0, 0, 0]);
    assert_eq!(hub.get_client_stats(1).packets_sent, [1, 0, 0, 0, 0]);
    assert_eq!(hub.get_server_stats(9).packets_received, [1, 0, 0, 0, 0]);
}

#[test]
fn pending_files_pop_once_newest_first() {
    let mut hub = small_hub();
    assert!(hub.pop_file().is_none());
    hub.push_file(ContentFile {
        name: "a.txt".to_string(),
        file: ContentFileType::Text("alpha".to_string()),
    });
    hub.push_file(ContentFile {
        name: "b.txt".to_string(),
        file: ContentFileType::Text("beta".to_string()),
    });
    let first = hub.pop_file().unwrap();
    assert_eq!(first.name, "b.txt");
    let second = hub.pop_file().unwrap();
    assert_eq!(second.name, "a.txt");
    assert!(hub.pop_file().is_none());
}

#[test]
fn get_ids_reports_population_by_category() {
    let hub = small_hub();
    assert_eq!(hub.get_ids(NodeKind::Drone).as_slice(), &[5, 6]);
    assert_eq!(hub.get_ids(NodeKind::Client).as_slice(), &[1]);
    assert_eq!(hub.get_ids(NodeKind::Server).as_slice(), &[9]);
    assert_eq!(hub.get_all_ids(), vec![5, 6, 1, 9]);
    assert!(hub.has_node(6));
    assert!(!hub.has_node(77));
}
