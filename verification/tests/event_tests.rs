use controller_core::events::{
    get_from_and_to_packet_send, get_from_packet_received, get_log_line_client_body,
    get_log_line_packet_received, get_log_line_packet_sent, get_log_line_server_body,
    get_packet_type_str, handle_client_event, handle_client_message_assembled,
    handle_client_message_fragmented, handle_drone_event, handle_packet_dropped,
    handle_packet_received, handle_packet_sent, handle_server_event,
    handle_server_message_fragmented, is_shortcut, packet_log_color,
};
use controller_core::hub::{ContentFileType, SimulationData};
use controller_core::types::{
    ClientBody, ClientCommunicationBody, ClientContentBody, ClientEvent, CommunicationMessage,
    DroneEvent, LogColor, NackKind, NodeKind, Packet, PacketKind, ServerBody,
    ServerCommunicationBody, ServerContentBody, ServerEvent, ServerType,
};

fn hub() -> SimulationData {
    SimulationData::new(vec![5, 6], vec![1], vec![9])
}

fn fragment(hops: Vec<u8>, hop_index: usize) -> Packet {
    Packet { kind: PacketKind::Fragment, hops, hop_index, path_trace: vec![] }
}

#[test]
fn packet_type_names() {
    assert_eq!(get_packet_type_str(PacketKind::Fragment), "Fragment");
    assert_eq!(get_packet_type_str(PacketKind::Ack), "Ack");
    assert_eq!(get_packet_type_str(PacketKind::Nack(NackKind::Dropped)), "Nack:Dropped");
    assert_eq!(
        get_packet_type_str(PacketKind::Nack(NackKind::ErrorInRouting(4))),
        "Nack:ErrorInRouting"
    );
    assert_eq!(get_packet_type_str(PacketKind::FloodRequest), "Flood request");
    assert_eq!(get_packet_type_str(PacketKind::FloodResponse), "Flood response");
}

#[test]
fn packet_colors_follow_kind() {
    assert_eq!(packet_log_color(PacketKind::Fragment), Some(LogColor::Neutral));
    assert_eq!(packet_log_color(PacketKind::Ack), Some(LogColor::Positive));
    assert_eq!(packet_log_color(PacketKind::Nack(NackKind::Dropped)), Some(LogColor::Negative));
    assert_eq!(packet_log_color(PacketKind::FloodRequest), None);
    assert_eq!(packet_log_color(PacketKind::FloodResponse), None);
}

#[test]
fn sent_route_reading() {
    let p = fragment(vec![3, 5, 7], 2);
    assert_eq!(get_from_and_to_packet_send(&p), (5, Some(7)));
    let fr = Packet {
        kind: PacketKind::FloodRequest,
        hops: vec![],
        hop_index: 0,
        path_trace: vec![1, 5],
    };
    assert_eq!(get_from_and_to_packet_send(&fr), (5, None));
}

#[test]
fn relay_forward_logs_and_counts() {
    // relay node 5 forwards a fragment from node 3 on its way to node 7
    let mut data = hub();
    let p = fragment(vec![3, 5, 7], 2);
    handle_packet_sent(&mut data, NodeKind::Drone, &p);
    let logs = data.get_logs(5);
    assert_eq!(logs.len(), 1);
    assert_eq!(logs[0].text, "Fragment sent to node #7");
    assert_eq!(logs[0].color, LogColor::Neutral);
    assert_eq!(data.get_drone_stats(5).packets_forwarded, [1, 0, 0, 0, 0]);
}

#[test]
fn flood_traffic_counts_without_log_lines() {
    let mut data = hub();
    let fr = Packet {
        kind: PacketKind::FloodRequest,
        hops: vec![],
        hop_index: 0,
        path_trace: vec![1, 5],
    };
    handle_packet_sent(&mut data, NodeKind::Drone, &fr);
    assert_eq!(data.get_logs(5).len(), 0);
    assert_eq!(data.get_drone_stats(5).packets_forwarded, [0, 0, 0, 1, 0]);
    assert!(get_log_line_packet_sent(&fr).is_none());
}

#[test]
fn dropped_fragment_logs_origin_and_counts() {
    let mut data = hub();
    let p = fragment(vec![3, 5, 7], 1);
    handle_packet_dropped(&mut data, &p);
    let logs = data.get_logs(5);
    assert_eq!(logs.len(), 1);
    assert_eq!(logs[0].text, "Dropped fragment sent by node #3");
    assert_eq!(logs[0].color, LogColor::Negative);
    assert_eq!(data.get_drone_stats(5).fragments_dropped, 1);
}

#[test]
fn received_direct_hop_names_the_sender() {
    // current hop is the receiver: direct delivery, logged from node #3
    let p = fragment(vec![3, 1], 1);
    assert!(!is_shortcut(&p, 1));
    assert_eq!(get_from_packet_received(&p), 3);
    let entry = get_log_line_packet_received(&p, 1).unwrap();
    assert_eq!(entry.text, "Received Fragment from node #3");
}

#[test]
fn received_with_empty_route_is_out_of_band() {
    // an empty route must not fault and is out-of-band delivery
    let p = fragment(vec![], 0);
    assert!(is_shortcut(&p, 1));
    let entry = get_log_line_packet_received(&p, 1).unwrap();
    assert_eq!(entry.text, "Received Fragment from SimulationController");
}

#[test]
fn received_with_other_current_hop_is_out_of_band() {
    let p = fragment(vec![3, 4, 2], 1);
    assert!(is_shortcut(&p, 1));
    let entry = get_log_line_packet_received(&p, 1).unwrap();
    assert_eq!(entry.text, "Received Fragment from SimulationController");
}

#[test]
fn received_event_updates_receiver_state() {
    let mut data = hub();
    let p = fragment(vec![3, 1], 1);
    handle_packet_received(&mut data, 1, NodeKind::Client, &p);
    let logs = data.get_logs(1);
    assert_eq!(logs.len(), 1);
    assert_eq!(logs[0].text, "Received Fragment from node #3");
    assert_eq!(data.get_client_stats(1).packets_received, [1, 0, 0, 0, 0]);
}

#[test]
fn assembled_png_response_queues_an_image() {
    // client 1 assembles a file response whose bytes begin with the PNG signature
    let mut data = hub();
    let png = vec![0x89u8, 0x50, 0x4e, 0x47, 0x0d, 0x0a, 0x1a, 0x0a, 1, 2, 3];
    let body = ServerBody::ServerContent(ServerContentBody::RespFile(
        png.clone(),
        "logo.png".to_string(),
    ));
    handle_client_message_assembled(&mut data, &body, 9, 1);
    assert_eq!(data.get_client_stats(1).messages_assembled, 1);
    let file = data.pop_file().expect("a content item must be queued");
    assert_eq!(file.name, "logo.png");
    match file.file {
        ContentFileType::Image(bytes) => assert_eq!(bytes, png),
        ContentFileType::Text(_) => panic!("a PNG body must be classified as an image"),
    }
    let logs = data.get_logs(1);
    assert_eq!(logs.len(), 1);
    assert_eq!(
        logs[0].text,
        "Assembled message from server #9\n  Type: Content - Response\n  File: logo.png\n  Size: 11 bytes"
    );
    assert_eq!(logs[0].color, LogColor::Info);
}

#[test]
fn assembled_text_response_queues_decoded_text() {
    let mut data = hub();
    let body = ServerBody::ServerContent(ServerContentBody::RespFile(
        b"plain words".to_vec(),
        "note.txt".to_string(),
    ));
    handle_client_message_assembled(&mut data, &body, 9, 1);
    let file = data.pop_file().unwrap();
    match file.file {
        ContentFileType::Text(text) => assert_eq!(text, "plain words"),
        ContentFileType::Image(_) => panic!("plain text must not be classified as an image"),
    }
}

#[test]
fn assembled_invalid_utf8_is_decoded_lossily() {
    let mut data = hub();
    let body = ServerBody::ServerContent(ServerContentBody::RespFile(
        vec![0x68, 0x69, 0xff],
        "odd.bin".to_string(),
    ));
    handle_client_message_assembled(&mut data, &body, 9, 1);
    let file = data.pop_file().unwrap();
    match file.file {
        ContentFileType::Text(text) => assert_eq!(text, "hi\u{fffd}"),
        ContentFileType::Image(_) => panic!("not an image"),
    }
}

#[test]
fn non_file_assembly_queues_nothing() {
    let mut data = hub();
    let body = ServerBody::RespServerType(ServerType::Content);
    handle_client_message_assembled(&mut data, &body, 9, 1);
    assert_eq!(data.get_client_stats(1).messages_assembled, 1);
    assert!(data.pop_file().is_none());
    assert_eq!(
        data.get_logs(1)[0].text,
        "Assembled message from server #9\n  Type: Response server type\n  Message content: Content"
    );
}

#[test]
fn fragmented_message_logs_and_counts() {
    let mut data = hub();
    let body = ClientBody::ClientContent(ClientContentBody::ReqFile("a.txt".to_string()));
    handle_client_message_fragmented(&mut data, &body, 1, 9);
    assert_eq!(data.get_client_stats(1).messages_fragmented, 1);
    let logs = data.get_logs(1);
    assert_eq!(
        logs[0].text,
        "Fragmented message for server #9\n  Type: Content - Request file\n  File: a.txt"
    );
}

#[test]
fn server_fragmented_message_logs_on_the_server() {
    let mut data = hub();
    let body = ServerBody::ServerCommunication(ServerCommunicationBody::RespClientList(vec![1, 2]));
    handle_server_message_fragmented(&mut data, &body, 9, 1);
    assert_eq!(data.get_server_stats(9).messages_fragmented, 1);
    assert_eq!(
        data.get_logs(9)[0].text,
        "Fragmented message for client #1\n  Type: Communication - Response clients list\n  Message content: [1, 2]"
    );
}

#[test]
fn body_log_lines_render_exactly() {
    let send = ClientBody::ClientCommunication(ClientCommunicationBody::MessageSend(
        CommunicationMessage { from: 1, to: 2, message: "hello there".to_string() },
    ));
    assert_eq!(
        get_log_line_client_body(&send),
        "  Type: Communication - Send message \n  From: 1, To: 2\n  Message content: hello there"
    );
    assert_eq!(
        get_log_line_client_body(&ClientBody::ReqServerType),
        "  Type: Request server type"
    );
    let files = ServerBody::ServerContent(ServerContentBody::RespFilesList(vec![
        "a.txt".to_string(),
        "b.png".to_string(),
    ]));
    assert_eq!(
        get_log_line_server_body(&files),
        "  Type: Content - Response files list\n  Message content: [\"a.txt\", \"b.png\"]"
    );
    assert_eq!(
        get_log_line_server_body(&ServerBody::ServerContent(ServerContentBody::ErrFileNotFound)),
        "  Type: Error - File not found"
    );
    assert_eq!(
        get_log_line_server_body(&ServerBody::ErrUnsupportedRequestType),
        "  Type: Error - Unsupported request type"
    );
}

#[test]
fn controller_shortcut_hands_the_packet_back_untouched() {
    let mut data = hub();
    let p = fragment(vec![3, 5, 7], 2);
    let event = DroneEvent::ControllerShortcut(p);
    let out = handle_drone_event(&mut data, &event);
    let packet = out.expect("the shortcut packet must be handed back");
    assert_eq!(packet.hops, vec![3, 5, 7]);
    // the hub saw no mutation: no log, no counter
    for id in [5u8, 6, 1, 9] {
        assert_eq!(data.get_logs(id).len(), 0);
    }
    assert_eq!(data.get_drone_stats(5).packets_forwarded, [0, 0, 0, 0, 0]);
}

#[test]
fn forwarded_count_grows_by_exactly_the_forward_events() {
    // two relay forwards of fragments for node 5, interleaved with
    // client and server traffic, grow forwarded[fragment] by exactly 2
    let mut data = hub();
    let forward = |hops: Vec<u8>| DroneEvent::PacketSent(fragment(hops, 2));
    handle_drone_event(&mut data, &forward(vec![3, 5, 7]));
    handle_client_event(&mut data, &ClientEvent::PacketSent(fragment(vec![1, 5], 1)));
    handle_server_event(&mut data, &ServerEvent::PacketSent(fragment(vec![9, 6], 1)));
    handle_drone_event(&mut data, &forward(vec![1, 5, 9]));
    handle_client_event(&mut data, &ClientEvent::PacketReceived(fragment(vec![9, 1], 1), 1));
    assert_eq!(data.get_drone_stats(5).packets_forwarded, [2, 0, 0, 0, 0]);
    assert_eq!(data.get_client_stats(1).packets_sent, [1, 0, 0, 0, 0]);
    assert_eq!(data.get_server_stats(9).packets_sent, [1, 0, 0, 0, 0]);
}
