//! Translation of engine events into hub mutations: the log line and the
//! counter every event produces, stated exactly.

use vstd::prelude::*;

use crate::hub::{ContentFile, ContentFileType, ContentFileTypeView, ContentFileView, HubView,
    SimulationData};
use crate::types::{
    ClientBody, ClientBodyView, ClientCommunicationBody, ClientCommunicationBodyView,
    ClientContentBody, ClientContentBodyView, ClientEvent, ClientEventView, DroneEvent,
    DroneEventView, LogColor, LogEntry, LogEntryView, NackKind, NodeKind, Packet, PacketKind,
    PacketView, ServerBody, ServerBodyView, ServerCommunicationBody, ServerCommunicationBodyView,
    ServerContentBody, ServerContentBodyView, ServerEvent, ServerEventView, ServerType,
};

verus! {

use vstd::string::StringExecFns;

use crate::types::spec_stat_index;
use crate::text::{spec_decimal, spec_name_items, spec_u8_items, name_list_string, u8_list_string, u8_to_string, u64_to_string};

/// The display name of a packet kind, as it appears in log lines.
pub open spec fn spec_packet_type_text(kind: PacketKind) -> Seq<char> {
    match kind {
        PacketKind::Fragment => "Fragment"@,
        PacketKind::Ack => "Ack"@,
        PacketKind::Nack(NackKind::ErrorInRouting(_)) => "Nack:ErrorInRouting"@,
        PacketKind::Nack(NackKind::DestinationIsDrone) => "Nack:DestinationIsDrone"@,
        PacketKind::Nack(NackKind::Dropped) => "Nack:Dropped"@,
        PacketKind::Nack(NackKind::UnexpectedRecipient(_)) => "Nack:UnexpectedRecipient"@,
        PacketKind::FloodRequest => "Flood request"@,
        PacketKind::FloodResponse => "Flood response"@,
    }
}

/// The display name of a packet kind.
pub fn get_packet_type_str(kind: PacketKind) -> (r: &'static str)
    ensures
        r@ == spec_packet_type_text(kind),
{
    match kind {
        PacketKind::Fragment => "Fragment",
        PacketKind::Ack => "Ack",
        PacketKind::Nack(NackKind::ErrorInRouting(_)) => "Nack:ErrorInRouting",
        PacketKind::Nack(NackKind::DestinationIsDrone) => "Nack:DestinationIsDrone",
        PacketKind::Nack(NackKind::Dropped) => "Nack:Dropped",
        PacketKind::Nack(NackKind::UnexpectedRecipient(_)) => "Nack:UnexpectedRecipient",
        PacketKind::FloodRequest => "Flood request",
        PacketKind::FloodResponse => "Flood response",
    }
}

/// The tint of the inline log line a packet produces: neutral for
/// fragments, positive for acks, negative for nacks; flood traffic
/// produces no inline log line at all, to avoid spam.
pub open spec fn spec_log_color(kind: PacketKind) -> Option<LogColor> {
    match kind {
        PacketKind::Fragment => Some(LogColor::Neutral),
        PacketKind::Ack => Some(LogColor::Positive),
        PacketKind::Nack(_) => Some(LogColor::Negative),
        PacketKind::FloodRequest => None,
        PacketKind::FloodResponse => None,
    }
}

/// The tint of the inline log line a packet produces, if any.
pub fn packet_log_color(kind: PacketKind) -> (r: Option<LogColor>)
    ensures
        r == spec_log_color(kind),
{
    match kind {
        PacketKind::Fragment => Some(LogColor::Neutral),
        PacketKind::Ack => Some(LogColor::Positive),
        PacketKind::Nack(_) => Some(LogColor::Negative),
        PacketKind::FloodRequest => None,
        PacketKind::FloodResponse => None,
    }
}

/// A sent packet's route can be read when it follows the protocol: a
/// flood request carries at least one visited node in its trace, and
/// any other packet stands past the first hop of its route.
pub open spec fn spec_sent_route_ok(p: PacketView) -> bool {
    match p.kind {
        PacketKind::FloodRequest => p.path_trace.len() > 0,
        _ => 1 <= p.hop_index && p.hop_index < p.hops.len(),
    }
}

/// The node that sent or forwarded the packet: the last visited node
/// for a flood request, else the hop before the current one.
pub open spec fn spec_sent_source(p: PacketView) -> u8 {
    if p.kind is FloodRequest {
        p.path_trace.last()
    } else {
        p.hops[p.hop_index - 1]
    }
}

/// The node the packet goes to next; a flood request is broadcast and
/// has no single target.
pub open spec fn spec_sent_target(p: PacketView) -> Option<u8> {
    if p.kind is FloodRequest {
        None
    } else {
        Some(p.hops[p.hop_index])
    }
}

/// The log entry a sent packet produces, if any: the packet kind and
/// the target node, tinted by kind; none for flood traffic.
pub open spec fn spec_sent_log(p: PacketView) -> Option<LogEntryView> {
    match spec_log_color(p.kind) {
        Some(c) => match spec_sent_target(p) {
            Some(t) => Some(
                LogEntryView {
                    text: spec_packet_type_text(p.kind) + " sent to node #"@ + spec_decimal(
                        t as int,
                    ),
                    color: c,
                },
            ),
            None => None,
        },
        None => None,
    }
}

/// Reads the sender and the target of a sent packet off its route.
pub fn get_from_and_to_packet_send(p: &Packet) -> (r: (u8, Option<u8>))
    requires
        spec_sent_route_ok(p@),
    ensures
        r.0 == spec_sent_source(p@),
        r.1 == spec_sent_target(p@),
{
    match p.kind {
        PacketKind::FloodRequest => (p.path_trace[p.path_trace.len() - 1], None),
        _ => (p.hops[p.hop_index - 1], Some(p.hops[p.hop_index])),
    }
}

/// Builds the log entry for a sent packet, if the packet kind produces
/// one.
pub fn get_log_line_packet_sent(p: &Packet) -> (r: Option<LogEntry>)
    requires
        spec_sent_route_ok(p@),
    ensures
        r is Some <==> spec_sent_log(p@) is Some,
        r is Some ==> r.unwrap()@ == spec_sent_log(p@).unwrap(),
{
    let color = match packet_log_color(p.kind) {
        Some(c) => c,
        None => {
            return None;
        },
    };
    let (_, target) = get_from_and_to_packet_send(p);
    let t = match target {
        Some(t) => t,
        None => {
            return None;
        },
    };
    let mut text = String::from_str(get_packet_type_str(p.kind));
    text.append(" sent to node #");
    let ts = u8_to_string(t);
    text.append(ts.as_str());
    proof {
        assert(text@ =~= spec_packet_type_text(p@.kind) + " sent to node #"@ + spec_decimal(
            t as int,
        ));
    }
    Some(LogEntry { text, color })
}

/// Whether a received packet reached its receiver out of band, handed
/// over by the controller rather than delivered along its route: an
/// empty or overrun route, or a current hop that is not the receiver,
/// all mean out-of-band delivery. A best-effort classification used
/// only for logging.
pub open spec fn spec_is_shortcut(p: PacketView, receiver_id: u8) -> bool {
    !(p.hop_index < p.hops.len() && p.hops[p.hop_index] == receiver_id)
}

/// Whether the packet was handed over out of band; an empty route never
/// faults.
pub fn is_shortcut(p: &Packet, receiver_id: u8) -> (r: bool)
    ensures
        r == spec_is_shortcut(p@, receiver_id),
{
    !(p.hop_index < p.hops.len() && p.hops[p.hop_index] == receiver_id)
}

/// A received packet's logged sender can be read when the packet either
/// came out of band, or stands at a readable position of its route.
pub open spec fn spec_received_route_ok(p: PacketView, receiver_id: u8) -> bool {
    spec_log_color(p.kind) is Some && !spec_is_shortcut(p, receiver_id) ==> (p.hop_index + 1
        < p.hops.len() || p.hop_index >= 1)
}

/// The node a directly delivered packet is logged as coming from: the
/// hop before the receiver once the route is exhausted, else the
/// current hop.
pub open spec fn spec_received_source(p: PacketView) -> u8 {
    if p.hop_index + 1 < p.hops.len() {
        p.hops[p.hop_index]
    } else {
        p.hops[p.hop_index - 1]
    }
}

/// The log entry a received packet produces, if any: the packet kind
/// and where it came from, the sending node for direct delivery and the
/// controller for out-of-band delivery; none for flood traffic.
pub open spec fn spec_received_log(p: PacketView, receiver_id: u8) -> Option<LogEntryView> {
    match spec_log_color(p.kind) {
        Some(c) => {
            let from_text = if spec_is_shortcut(p, receiver_id) {
                "SimulationController"@
            } else {
                "node #"@ + spec_decimal(spec_received_source(p) as int)
            };
            Some(
                LogEntryView {
                    text: "Received "@ + spec_packet_type_text(p.kind) + " from "@ + from_text,
                    color: c,
                },
            )
        },
        None => None,
    }
}

/// The node a directly delivered packet is logged as coming from.
pub fn get_from_packet_received(p: &Packet) -> (r: u8)
    requires
        p@.hop_index < p@.hops.len(),
        p@.hop_index + 1 < p@.hops.len() || p@.hop_index >= 1,
    ensures
        r == spec_received_source(p@),
{
    if p.hop_index < p.hops.len() - 1 {
        p.hops[p.hop_index]
    } else {
        p.hops[p.hop_index - 1]
    }
}

/// Law of delivery classification: a logging packet whose current hop
/// is the receiver is logged as received from a node of the route; one
/// with an empty route, or whose current hop is not the receiver, is
/// logged as handed over by the controller; and an empty route never
/// faults, since an out-of-band entry reads nothing from the route.
pub proof fn lemma_received_classification(p: PacketView, receiver_id: u8)
    requires
        spec_log_color(p.kind) is Some,
        p.hop_index >= 0,
    ensures
        p.hops.len() == 0 ==> spec_received_route_ok(p, receiver_id),
        (p.hop_index < p.hops.len() && p.hops[p.hop_index] == receiver_id)
            ==> spec_received_log(p, receiver_id) == Some(
            LogEntryView {
                text: "Received "@ + spec_packet_type_text(p.kind) + " from "@ + ("node #"@
                    + spec_decimal(spec_received_source(p) as int)),
                color: spec_log_color(p.kind).unwrap(),
            },
        ),
        !(p.hop_index < p.hops.len() && p.hops[p.hop_index] == receiver_id)
            ==> spec_received_log(p, receiver_id) == Some(
            LogEntryView {
                text: "Received "@ + spec_packet_type_text(p.kind) + " from "@
                    + "SimulationController"@,
                color: spec_log_color(p.kind).unwrap(),
            },
        ),
{
}

/// Builds the log entry for a received packet, if the packet kind
/// produces one.
pub fn get_log_line_packet_received(p: &Packet, receiver_id: u8) -> (r: Option<LogEntry>)
    requires
        spec_received_route_ok(p@, receiver_id),
    ensures
        r is Some <==> spec_received_log(p@, receiver_id) is Some,
        r is Some ==> r.unwrap()@ == spec_received_log(p@, receiver_id).unwrap(),
{
    let color = match packet_log_color(p.kind) {
        Some(c) => c,
        None => {
            return None;
        },
    };
    let mut text = String::from_str("Received ");
    text.append(get_packet_type_str(p.kind));
    text.append(" from ");
    if is_shortcut(p, receiver_id) {
        text.append("SimulationController");
        proof {
            assert(text@ =~= "Received "@ + spec_packet_type_text(p@.kind) + " from "@
                + "SimulationController"@);
        }
    } else {
        let from_id = get_from_packet_received(p);
        text.append("node #");
        let fs = u8_to_string(from_id);
        text.append(fs.as_str());
        proof {
            assert(text@ =~= "Received "@ + spec_packet_type_text(p@.kind) + " from "@ + ("node #"@
                + spec_decimal(spec_received_source(p@) as int)));
        }
    }
    Some(LogEntry { text, color })
}

/// A dropped packet's route can be read when the owning relay and the
/// previous hop both stand on it.
pub open spec fn spec_dropped_route_ok(p: PacketView) -> bool {
    1 <= p.hop_index && p.hop_index < p.hops.len()
}

/// The relay that dropped the packet: the current hop of the route.
pub open spec fn spec_dropped_owner(p: PacketView) -> u8 {
    p.hops[p.hop_index]
}

/// The node the dropped fragment came from: the hop before the relay.
pub open spec fn spec_dropped_origin(p: PacketView) -> u8 {
    p.hops[p.hop_index - 1]
}

/// The negative log entry a dropped fragment produces, citing its
/// origin.
pub open spec fn spec_dropped_log(p: PacketView) -> LogEntryView {
    LogEntryView {
        text: "Dropped fragment sent by node #"@ + spec_decimal(spec_dropped_origin(p) as int),
        color: LogColor::Negative,
    }
}

/// Builds the log entry for a dropped fragment.
pub fn dropped_log_entry(p: &Packet) -> (r: LogEntry)
    requires
        spec_dropped_route_ok(p@),
    ensures
        r@ == spec_dropped_log(p@),
{
    let mut text = String::from_str("Dropped fragment sent by node #");
    let fs = u8_to_string(p.hops[p.hop_index - 1]);
    text.append(fs.as_str());
    proof {
        assert(text@ =~= "Dropped fragment sent by node #"@ + spec_decimal(
            spec_dropped_origin(p@) as int,
        ));
    }
    LogEntry { text, color: LogColor::Negative }
}

/// What a sequence of bytes decodes to as lossy UTF-8: well-formed
/// sequences as themselves, ill-formed ones with replacement characters.
pub uninterp spec fn utf8_lossy(bytes: Seq<u8>) -> Seq<char>;

/// Relies on `String::from_utf8_lossy`: its documentation says the result
/// depends on the bytes alone, decoding valid UTF-8 as it is and replacing
/// invalid sequences with U+FFFD; the body only turns the returned
/// copy-on-write string into an owned one.
#[verifier::external_body]
fn utf8_lossy_string(v: &[u8]) -> (r: String)
    ensures
        r@ == utf8_lossy(v@),
{
    String::from_utf8_lossy(v).into_owned()
}

/// Whether a sequence of bytes begins like a known image format.
pub uninterp spec fn is_image_bytes(bytes: Seq<u8>) -> bool;

/// Relies on `infer::is_image`: true exactly when the bytes match one of
/// its image matchers, a function of the bytes alone; its PNG matcher
/// accepts any buffer that begins with the four-byte PNG signature.
#[verifier::external_body]
fn bytes_are_image(v: &[u8]) -> (r: bool)
    ensures
        r == is_image_bytes(v@),
        v@.len() > 3 && v@[0] == 0x89 && v@[1] == 0x50 && v@[2] == 0x4e && v@[3] == 0x47 ==> r,
{
    infer::is_image(v)
}

/// The display name of a reported server kind.
pub open spec fn spec_server_type_text(t: ServerType) -> Seq<char> {
    match t {
        ServerType::Content => "Content"@,
        ServerType::Communication => "Communication"@,
        ServerType::Undefined => "Undefined"@,
    }
}

/// The display name of a reported server kind.
pub fn server_type_str(t: ServerType) -> (r: &'static str)
    ensures
        r@ == spec_server_type_text(t),
{
    match t {
        ServerType::Content => "Content",
        ServerType::Communication => "Communication",
        ServerType::Undefined => "Undefined",
    }
}

/// The descriptive log text for the body of a message a client sent.
pub open spec fn spec_client_body_text(b: ClientBodyView) -> Seq<char> {
    "  Type: "@ + match b {
        ClientBodyView::ReqServerType => "Request server type"@,
        ClientBodyView::ClientContent(ClientContentBodyView::ReqFilesList) => {
            "Content - Request files list"@
        },
        ClientBodyView::ClientContent(ClientContentBodyView::ReqFile(f)) => {
            "Content - Request file\n  File: "@ + f
        },
        ClientBodyView::ClientCommunication(
            ClientCommunicationBodyView::ReqRegistrationToChat,
        ) => "Communication - Request registration to chat"@,
        ClientBodyView::ClientCommunication(ClientCommunicationBodyView::MessageSend(cm)) => {
            "Communication - Send message \n  From: "@ + spec_decimal(cm.from as int) + ", To: "@
                + spec_decimal(cm.to as int) + "\n  Message content: "@ + cm.message
        },
        ClientBodyView::ClientCommunication(ClientCommunicationBodyView::ReqClientList) => {
            "Communication - Request clients list"@
        },
    }
}

/// Builds the descriptive log text for the body of a message a client
/// sent.
pub fn get_log_line_client_body(client_body: &ClientBody) -> (r: String)
    ensures
        r@ == spec_client_body_text(client_body@),
{
    let mut res = String::from_str("  Type: ");
    match client_body {
        ClientBody::ReqServerType => {
            res.append("Request server type");
            proof {
                assert(res@ =~= spec_client_body_text(client_body@));
            }
        },
        ClientBody::ClientContent(ccb) => match ccb {
            ClientContentBody::ReqFilesList => {
                res.append("Content - Request files list");
                proof {
                    assert(res@ =~= spec_client_body_text(client_body@));
                }
            },
            ClientContentBody::ReqFile(f) => {
                res.append("Content - Request file\n  File: ");
                res.append(f.as_str());
                proof {
                    assert(res@ =~= spec_client_body_text(client_body@));
                }
            },
        },
        ClientBody::ClientCommunication(ccb) => match ccb {
            ClientCommunicationBody::ReqRegistrationToChat => {
                res.append("Communication - Request registration to chat");
                proof {
                    assert(res@ =~= spec_client_body_text(client_body@));
                }
            },
            ClientCommunicationBody::MessageSend(cm) => {
                res.append("Communication - Send message \n  From: ");
                let fs = u8_to_string(cm.from);
                res.append(fs.as_str());
                res.append(", To: ");
                let ts = u8_to_string(cm.to);
                res.append(ts.as_str());
                res.append("\n  Message content: ");
                res.append(cm.message.as_str());
                proof {
                    assert(res@ =~= spec_client_body_text(client_body@));
                }
            },
            ClientCommunicationBody::ReqClientList => {
                res.append("Communication - Request clients list");
                proof {
                    assert(res@ =~= spec_client_body_text(client_body@));
                }
            },
        },
    }
    res
}

/// The descriptive log text for the body of a message a server sent.
pub open spec fn spec_server_body_text(b: ServerBodyView) -> Seq<char> {
    "  Type: "@ + match b {
        ServerBodyView::RespServerType(t) => {
            "Response server type\n  Message content: "@ + spec_server_type_text(t)
        },
        ServerBodyView::ErrUnsupportedRequestType => "Error - Unsupported request type"@,
        ServerBodyView::ServerContent(ServerContentBodyView::RespFilesList(v)) => {
            "Content - Response files list\n  Message content: "@ + ("["@ + spec_name_items(v)
                + "]"@)
        },
        ServerBodyView::ServerContent(ServerContentBodyView::RespFile(bytes, name)) => {
            "Content - Response\n  File: "@ + name + "\n  Size: "@ + spec_decimal(
                bytes.len() as int,
            ) + " bytes"@
        },
        ServerBodyView::ServerContent(ServerContentBodyView::ErrFileNotFound) => {
            "Error - File not found"@
        },
        ServerBodyView::ServerCommunication(ServerCommunicationBodyView::RespClientList(v)) => {
            "Communication - Response clients list\n  Message content: "@ + ("["@
                + spec_u8_items(v) + "]"@)
        },
        ServerBodyView::ServerCommunication(ServerCommunicationBodyView::MessageReceive(cm)) => {
            "Communication - Send message \n  From: "@ + spec_decimal(cm.from as int) + ", To: "@
                + spec_decimal(cm.to as int) + "\n  Message content: "@ + cm.message
        },
        ServerBodyView::ServerCommunication(ServerCommunicationBodyView::ErrWrongClientId) => {
            "Error - Wrong client id"@
        },
        ServerBodyView::ServerCommunication(ServerCommunicationBodyView::ErrNotRegistered) => {
            "Error - Not registered"@
        },
        ServerBodyView::ServerCommunication(ServerCommunicationBodyView::RegistrationSuccess) => {
            "Registration success"@
        },
    }
}

/// Builds the descriptive log text for the body of a message a server
/// sent.
pub fn get_log_line_server_body(server_body: &ServerBody) -> (r: String)
    ensures
        r@ == spec_server_body_text(server_body@),
{
    let mut res = String::from_str("  Type: ");
    match server_body {
        ServerBody::RespServerType(t) => {
            res.append("Response server type\n  Message content: ");
            res.append(server_type_str(*t));
            proof {
                assert(res@ =~= spec_server_body_text(server_body@));
            }
        },
        ServerBody::ErrUnsupportedRequestType => {
            res.append("Error - Unsupported request type");
            proof {
                assert(res@ =~= spec_server_body_text(server_body@));
            }
        },
        ServerBody::ServerContent(scb) => match scb {
            ServerContentBody::RespFilesList(v) => {
                res.append("Content - Response files list\n  Message content: ");
                let ls = name_list_string(v);
                res.append(ls.as_str());
                proof {
                    assert(res@ =~= spec_server_body_text(server_body@));
                }
            },
            ServerContentBody::RespFile(bytes, name) => {
                res.append("Content - Response\n  File: ");
                res.append(name.as_str());
                res.append("\n  Size: ");
                let ss = u64_to_string(bytes.len() as u64);
                res.append(ss.as_str());
                res.append(" bytes");
                proof {
                    assert(res@ =~= spec_server_body_text(server_body@));
                }
            },
            ServerContentBody::ErrFileNotFound => {
                res.append("Error - File not found");
                proof {
                    assert(res@ =~= spec_server_body_text(server_body@));
                }
            },
        },
        ServerBody::ServerCommunication(scb) => match scb {
            ServerCommunicationBody::RespClientList(v) => {
                res.append("Communication - Response clients list\n  Message content: ");
                let ls = u8_list_string(v);
                res.append(ls.as_str());
                proof {
                    assert(res@ =~= spec_server_body_text(server_body@));
                }
            },
            ServerCommunicationBody::MessageReceive(cm) => {
                res.append("Communication - Send message \n  From: ");
                let fs = u8_to_string(cm.from);
                res.append(fs.as_str());
                res.append(", To: ");
                let ts = u8_to_string(cm.to);
                res.append(ts.as_str());
                res.append("\n  Message content: ");
                res.append(cm.message.as_str());
                proof {
                    assert(res@ =~= spec_server_body_text(server_body@));
                }
            },
            ServerCommunicationBody::ErrWrongClientId => {
                res.append("Error - Wrong client id");
                proof {
                    assert(res@ =~= spec_server_body_text(server_body@));
                }
            },
            ServerCommunicationBody::ErrNotRegistered => {
                res.append("Error - Not registered");
                proof {
                    assert(res@ =~= spec_server_body_text(server_body@));
                }
            },
            ServerCommunicationBody::RegistrationSuccess => {
                res.append("Registration success");
                proof {
                    assert(res@ =~= spec_server_body_text(server_body@));
                }
            },
        },
    }
    res
}

/// A sent packet can be handled when its route reads and the sender is
/// a node of the sending category whose counter has room.
pub open spec fn spec_packet_sent_pre(h: HubView, cat: NodeKind, p: PacketView) -> bool {
    &&& spec_sent_route_ok(p)
    &&& {
        let src = spec_sent_source(p);
        let i = spec_stat_index(p.kind);
        match cat {
            NodeKind::Drone => h.drone_stats.contains_key(src)
                && h.drone_stats[src].packets_forwarded[i] < u64::MAX,
            NodeKind::Client => h.client_stats.contains_key(src)
                && h.client_stats[src].packets_sent[i] < u64::MAX,
            NodeKind::Server => h.server_stats.contains_key(src)
                && h.server_stats[src].packets_sent[i] < u64::MAX,
        }
    }
}

/// What a sent packet does to the hub: the sender gets the inline log
/// line, if the packet kind produces one, and its sent (for a relay:
/// forwarded) counter ticks.
pub open spec fn spec_handle_packet_sent(h: HubView, cat: NodeKind, p: PacketView) -> HubView {
    let src = spec_sent_source(p);
    let h1 = match spec_sent_log(p) {
        Some(e) => h.with_log(src, e),
        None => h,
    };
    h1.with_packet_sent(cat, src, p.kind)
}

/// Records a sent packet: a log line for the sender where the kind asks
/// for one, and one tick of the sender's sent-by-kind counter.
pub fn handle_packet_sent(data: &mut SimulationData, sender_type: NodeKind, p: &Packet)
    requires
        old(data).wf(),
        spec_packet_sent_pre(old(data)@, sender_type, p@),
    ensures
        final(data).wf(),
        final(data)@ == spec_handle_packet_sent(old(data)@, sender_type, p@),
{
    let (from_id, _) = get_from_and_to_packet_send(p);
    proof {
        match sender_type {
            NodeKind::Drone => assert(old(data)@.drone_ids.to_set().contains(from_id)),
            NodeKind::Client => assert(old(data)@.client_ids.to_set().contains(from_id)),
            NodeKind::Server => assert(old(data)@.server_ids.to_set().contains(from_id)),
        }
        assert(old(data)@.all_ids().contains(from_id));
        assert(old(data)@.logs.contains_key(from_id));
    }
    match get_log_line_packet_sent(p) {
        Some(entry) => {
            data.add_log(from_id, entry.text, entry.color);
        },
        None => {},
    }
    data.note_packet_sent(sender_type, from_id, p.kind);
}

/// A dropped fragment can be recorded when its route reads and the
/// owning relay is known with room in its counter.
pub open spec fn spec_packet_dropped_pre(h: HubView, p: PacketView) -> bool {
    &&& spec_dropped_route_ok(p)
    &&& h.drone_stats.contains_key(spec_dropped_owner(p))
    &&& h.drone_stats[spec_dropped_owner(p)].fragments_dropped < u64::MAX
}

/// What a dropped fragment does to the hub: the owning relay gets a
/// negative log line citing the origin, and its dropped counter ticks.
pub open spec fn spec_handle_packet_dropped(h: HubView, p: PacketView) -> HubView {
    let owner = spec_dropped_owner(p);
    h.with_log(owner, spec_dropped_log(p)).with_fragment_dropped(owner)
}

/// Records a dropped fragment for the relay that dropped it.
pub fn handle_packet_dropped(data: &mut SimulationData, p: &Packet)
    requires
        old(data).wf(),
        spec_packet_dropped_pre(old(data)@, p@),
    ensures
        final(data).wf(),
        final(data)@ == spec_handle_packet_dropped(old(data)@, p@),
{
    let drone_id = p.hops[p.hop_index];
    proof {
        assert(old(data)@.drone_ids.to_set().contains(drone_id));
        assert(old(data)@.all_ids().contains(drone_id));
        assert(old(data)@.logs.contains_key(drone_id));
    }
    let entry = dropped_log_entry(p);
    data.add_log(drone_id, entry.text, entry.color);
    data.note_fragment_dropped(drone_id);
}

/// A received packet can be recorded when its logged sender reads and
/// the receiver is a client or a server with room in its counter.
pub open spec fn spec_packet_received_pre(
    h: HubView,
    cat: NodeKind,
    receiver_id: u8,
    p: PacketView,
) -> bool {
    &&& spec_received_route_ok(p, receiver_id)
    &&& {
        let i = spec_stat_index(p.kind);
        match cat {
            NodeKind::Drone => false,
            NodeKind::Client => h.client_stats.contains_key(receiver_id)
                && h.client_stats[receiver_id].packets_received[i] < u64::MAX,
            NodeKind::Server => h.server_stats.contains_key(receiver_id)
                && h.server_stats[receiver_id].packets_received[i] < u64::MAX,
        }
    }
}

/// What a received packet does to the hub: the receiver gets the inline
/// log line, if the packet kind produces one, and its received counter
/// ticks.
pub open spec fn spec_handle_packet_received(
    h: HubView,
    cat: NodeKind,
    receiver_id: u8,
    p: PacketView,
) -> HubView {
    let h1 = match spec_received_log(p, receiver_id) {
        Some(e) => h.with_log(receiver_id, e),
        None => h,
    };
    h1.with_packet_received(cat, receiver_id, p.kind)
}

/// Records a received packet for the client or server that received it.
pub fn handle_packet_received(
    data: &mut SimulationData,
    receiver_id: u8,
    receiver_type: NodeKind,
    p: &Packet,
)
    requires
        old(data).wf(),
        spec_packet_received_pre(old(data)@, receiver_type, receiver_id, p@),
    ensures
        final(data).wf(),
        final(data)@ == spec_handle_packet_received(old(data)@, receiver_type, receiver_id, p@),
{
    proof {
        match receiver_type {
            NodeKind::Drone => assert(false),
            NodeKind::Client => assert(old(data)@.client_ids.to_set().contains(receiver_id)),
            NodeKind::Server => assert(old(data)@.server_ids.to_set().contains(receiver_id)),
        }
        assert(old(data)@.all_ids().contains(receiver_id));
        assert(old(data)@.logs.contains_key(receiver_id));
    }
    match get_log_line_packet_received(p, receiver_id) {
        Some(entry) => {
            data.add_log(receiver_id, entry.text, entry.color);
        },
        None => {},
    }
    data.note_packet_received(receiver_type, receiver_id, p.kind);
}

/// The multi-line log entry a client gets when it assembles a message
/// from a server.
pub open spec fn spec_client_assembled_log(body: ServerBodyView, from: u8) -> LogEntryView {
    LogEntryView {
        text: "Assembled message from server #"@ + spec_decimal(from as int) + "\n"@
            + spec_server_body_text(body),
        color: LogColor::Info,
    }
}

/// The content item an assembled file response queues: the raw bytes
/// when they look like an image, their lossy text otherwise.
pub open spec fn spec_content_of(name: Seq<char>, bytes: Seq<u8>) -> ContentFileView {
    ContentFileView {
        name: name,
        file: if is_image_bytes(bytes) {
            ContentFileTypeView::Image(bytes)
        } else {
            ContentFileTypeView::Text(utf8_lossy(bytes))
        },
    }
}

/// What an assembled message does to a client's hub state: a
/// descriptive log entry and one tick of the assembled counter; a file
/// response is additionally classified and queued for the rendering
/// layer.
pub open spec fn spec_handle_client_assembled(
    h: HubView,
    body: ServerBodyView,
    from: u8,
    to: u8,
) -> HubView {
    let h1 = h.with_log(to, spec_client_assembled_log(body, from)).with_message_assembled(
        NodeKind::Client,
        to,
    );
    match body {
        ServerBodyView::ServerContent(ServerContentBodyView::RespFile(bytes, name)) => {
            h1.with_file(spec_content_of(name, bytes))
        },
        _ => h1,
    }
}

/// Records a message a client assembled from a server's fragments.
pub fn handle_client_message_assembled(
    data: &mut SimulationData,
    body: &ServerBody,
    from: u8,
    to: u8,
)
    requires
        old(data).wf(),
        old(data)@.client_stats.contains_key(to),
        old(data)@.client_stats[to].messages_assembled < u64::MAX,
    ensures
        final(data).wf(),
        final(data)@ == spec_handle_client_assembled(old(data)@, body@, from, to),
{
    proof {
        assert(old(data)@.client_ids.to_set().contains(to));
        assert(old(data)@.all_ids().contains(to));
        assert(old(data)@.logs.contains_key(to));
    }
    let mut log_line = String::from_str("Assembled message from server #");
    let fs = u8_to_string(from);
    log_line.append(fs.as_str());
    log_line.append("\n");
    let bl = get_log_line_server_body(body);
    log_line.append(bl.as_str());
    proof {
        assert(log_line@ =~= spec_client_assembled_log(body@, from).text);
    }
    data.add_log(to, log_line, LogColor::Info);
    data.note_message_assembled(NodeKind::Client, to);
    if let ServerBody::ServerContent(ServerContentBody::RespFile(v, name)) = body {
        let file = if bytes_are_image(v.as_slice()) {
            let bytes = v.clone();
            proof {
                assert(bytes@ =~= v@);
            }
            ContentFileType::Image(bytes)
        } else {
            ContentFileType::Text(utf8_lossy_string(v.as_slice()))
        };
        data.push_file(ContentFile { name: name.clone(), file });
    }
}

/// The multi-line log entry a client gets when one of its messages is
/// fragmented for a server.
pub open spec fn spec_client_fragmented_log(body: ClientBodyView, to: u8) -> LogEntryView {
    LogEntryView {
        text: "Fragmented message for server #"@ + spec_decimal(to as int) + "\n"@
            + spec_client_body_text(body),
        color: LogColor::Info,
    }
}

/// What a fragmented message does to a client's hub state: a
/// descriptive log entry and one tick of the fragmented counter.
pub open spec fn spec_handle_client_fragmented(
    h: HubView,
    body: ClientBodyView,
    from: u8,
    to: u8,
) -> HubView {
    h.with_log(from, spec_client_fragmented_log(body, to)).with_message_fragmented(
        NodeKind::Client,
        from,
    )
}

/// Records a message a client fragmented for a server.
pub fn handle_client_message_fragmented(
    data: &mut SimulationData,
    body: &ClientBody,
    from: u8,
    to: u8,
)
    requires
        old(data).wf(),
        old(data)@.client_stats.contains_key(from),
        old(data)@.client_stats[from].messages_fragmented < u64::MAX,
    ensures
        final(data).wf(),
        final(data)@ == spec_handle_client_fragmented(old(data)@, body@, from, to),
{
    proof {
        assert(old(data)@.client_ids.to_set().contains(from));
        assert(old(data)@.all_ids().contains(from));
        assert(old(data)@.logs.contains_key(from));
    }
    let mut log_line = String::from_str("Fragmented message for server #");
    let ts = u8_to_string(to);
    log_line.append(ts.as_str());
    log_line.append("\n");
    let bl = get_log_line_client_body(body);
    log_line.append(bl.as_str());
    proof {
        assert(log_line@ =~= spec_client_fragmented_log(body@, to).text);
    }
    data.add_log(from, log_line, LogColor::Info);
    data.note_message_fragmented(NodeKind::Client, from);
}

/// The multi-line log entry a server gets when it assembles a message
/// from a client.
pub open spec fn spec_server_assembled_log(body: ClientBodyView, from: u8) -> LogEntryView {
    LogEntryView {
        text: "Assembled message from client #"@ + spec_decimal(from as int) + "\n"@
            + spec_client_body_text(body),
        color: LogColor::Info,
    }
}

/// What an assembled message does to a server's hub state: a
/// descriptive log entry and one tick of the assembled counter.
pub open spec fn spec_handle_server_assembled(
    h: HubView,
    body: ClientBodyView,
    from: u8,
    to: u8,
) -> HubView {
    h.with_log(to, spec_server_assembled_log(body, from)).with_message_assembled(
        NodeKind::Server,
        to,
    )
}

/// Records a message a server assembled from a client's fragments.
pub fn handle_server_message_assembled(
    data: &mut SimulationData,
    body: &ClientBody,
    from: u8,
    to: u8,
)
    requires
        old(data).wf(),
        old(data)@.server_stats.contains_key(to),
        old(data)@.server_stats[to].messages_assembled < u64::MAX,
    ensures
        final(data).wf(),
        final(data)@ == spec_handle_server_assembled(old(data)@, body@, from, to),
{
    proof {
        assert(old(data)@.server_ids.to_set().contains(to));
        assert(old(data)@.all_ids().contains(to));
        assert(old(data)@.logs.contains_key(to));
    }
    let mut log_line = String::from_str("Assembled message from client #");
    let fs = u8_to_string(from);
    log_line.append(fs.as_str());
    log_line.append("\n");
    let bl = get_log_line_client_body(body);
    log_line.append(bl.as_str());
    proof {
        assert(log_line@ =~= spec_server_assembled_log(body@, from).text);
    }
    data.add_log(to, log_line, LogColor::Info);
    data.note_message_assembled(NodeKind::Server, to);
}

/// The multi-line log entry a server gets when one of its messages is
/// fragmented for a client.
pub open spec fn spec_server_fragmented_log(body: ServerBodyView, to: u8) -> LogEntryView {
    LogEntryView {
        text: "Fragmented message for client #"@ + spec_decimal(to as int) + "\n"@
            + spec_server_body_text(body),
        color: LogColor::Info,
    }
}

/// What a fragmented message does to a server's hub state: a
/// descriptive log entry and one tick of the fragmented counter.
pub open spec fn spec_handle_server_fragmented(
    h: HubView,
    body: ServerBodyView,
    from: u8,
    to: u8,
) -> HubView {
    h.with_log(from, spec_server_fragmented_log(body, to)).with_message_fragmented(
        NodeKind::Server,
        from,
    )
}

/// Records a message a server fragmented for a client.
pub fn handle_server_message_fragmented(
    data: &mut SimulationData,
    body: &ServerBody,
    from: u8,
    to: u8,
)
    requires
        old(data).wf(),
        old(data)@.server_stats.contains_key(from),
        old(data)@.server_stats[from].messages_fragmented < u64::MAX,
    ensures
        final(data).wf(),
        final(data)@ == spec_handle_server_fragmented(old(data)@, body@, from, to),
{
    proof {
        assert(old(data)@.server_ids.to_set().contains(from));
        assert(old(data)@.all_ids().contains(from));
        assert(old(data)@.logs.contains_key(from));
    }
    let mut log_line = String::from_str("Fragmented message for client #");
    let ts = u8_to_string(to);
    log_line.append(ts.as_str());
    log_line.append("\n");
    let bl = get_log_line_server_body(body);
    log_line.append(bl.as_str());
    proof {
        assert(log_line@ =~= spec_server_fragmented_log(body@, to).text);
    }
    data.add_log(from, log_line, LogColor::Info);
    data.note_message_fragmented(NodeKind::Server, from);
}

/// What a relay event needs of the hub before it can be recorded.
pub open spec fn spec_drone_event_pre(h: HubView, ev: DroneEventView) -> bool {
    match ev {
        DroneEventView::PacketSent(p) => spec_packet_sent_pre(h, NodeKind::Drone, p),
        DroneEventView::PacketDropped(p) => spec_packet_dropped_pre(h, p),
        DroneEventView::ControllerShortcut(_) => true,
    }
}

/// What a relay event does to the hub; an out-of-band delivery request
/// changes nothing, it is handed back to the caller.
pub open spec fn spec_handle_drone_event(h: HubView, ev: DroneEventView) -> HubView {
    match ev {
        DroneEventView::PacketSent(p) => spec_handle_packet_sent(h, NodeKind::Drone, p),
        DroneEventView::PacketDropped(p) => spec_handle_packet_dropped(h, p),
        DroneEventView::ControllerShortcut(_) => h,
    }
}

/// Applies one relay event to the hub. A `ControllerShortcut` asks for
/// out-of-band delivery, which only the engine can perform: the packet
/// is handed back for the caller to deliver, and the hub is untouched
/// whatever that delivery's outcome.
pub fn handle_drone_event<'a>(data: &mut SimulationData, event: &'a DroneEvent) -> (r: Option<
    &'a Packet,
>)
    requires
        old(data).wf(),
        spec_drone_event_pre(old(data)@, event@),
    ensures
        final(data).wf(),
        final(data)@ == spec_handle_drone_event(old(data)@, event@),
        match event@ {
            DroneEventView::ControllerShortcut(p) => r is Some && r.unwrap()@ == p,
            _ => r is None,
        },
{
    match event {
        DroneEvent::PacketSent(p) => {
            handle_packet_sent(data, NodeKind::Drone, p);
            None
        },
        DroneEvent::PacketDropped(p) => {
            handle_packet_dropped(data, p);
            None
        },
        DroneEvent::ControllerShortcut(p) => Some(p),
    }
}

/// What an originator event needs of the hub before it can be recorded.
pub open spec fn spec_client_event_pre(h: HubView, ev: ClientEventView) -> bool {
    match ev {
        ClientEventView::PacketSent(p) => spec_packet_sent_pre(h, NodeKind::Client, p),
        ClientEventView::PacketReceived(p, id) => spec_packet_received_pre(
            h,
            NodeKind::Client,
            id,
            p,
        ),
        ClientEventView::MessageAssembled { body, from, to } => h.client_stats.contains_key(to)
            && h.client_stats[to].messages_assembled < u64::MAX,
        ClientEventView::MessageFragmented { body, from, to } => h.client_stats.contains_key(from)
            && h.client_stats[from].messages_fragmented < u64::MAX,
    }
}

/// What an originator event does to the hub.
pub open spec fn spec_handle_client_event(h: HubView, ev: ClientEventView) -> HubView {
    match ev {
        ClientEventView::PacketSent(p) => spec_handle_packet_sent(h, NodeKind::Client, p),
        ClientEventView::PacketReceived(p, id) => spec_handle_packet_received(
            h,
            NodeKind::Client,
            id,
            p,
        ),
        ClientEventView::MessageAssembled { body, from, to } => spec_handle_client_assembled(
            h,
            body,
            from,
            to,
        ),
        ClientEventView::MessageFragmented { body, from, to } => spec_handle_client_fragmented(
            h,
            body,
            from,
            to,
        ),
    }
}

/// Applies one originator event to the hub.
pub fn handle_client_event(data: &mut SimulationData, event: &ClientEvent)
    requires
        old(data).wf(),
        spec_client_event_pre(old(data)@, event@),
    ensures
        final(data).wf(),
        final(data)@ == spec_handle_client_event(old(data)@, event@),
{
    match event {
        ClientEvent::PacketSent(p) => handle_packet_sent(data, NodeKind::Client, p),
        ClientEvent::PacketReceived(p, id) => handle_packet_received(
            data,
            *id,
            NodeKind::Client,
            p,
        ),
        ClientEvent::MessageAssembled { body, from, to } => handle_client_message_assembled(
            data,
            body,
            *from,
            *to,
        ),
        ClientEvent::MessageFragmented { body, from, to } => handle_client_message_fragmented(
            data,
            body,
            *from,
            *to,
        ),
    }
}

/// What a responder event needs of the hub before it can be recorded.
pub open spec fn spec_server_event_pre(h: HubView, ev: ServerEventView) -> bool {
    match ev {
        ServerEventView::PacketSent(p) => spec_packet_sent_pre(h, NodeKind::Server, p),
        ServerEventView::PacketReceived(p, id) => spec_packet_received_pre(
            h,
            NodeKind::Server,
            id,
            p,
        ),
        ServerEventView::MessageAssembled { body, from, to } => h.server_stats.contains_key(to)
            && h.server_stats[to].messages_assembled < u64::MAX,
        ServerEventView::MessageFragmented { body, from, to } => h.server_stats.contains_key(from)
            && h.server_stats[from].messages_fragmented < u64::MAX,
    }
}

/// What a responder event does to the hub.
pub open spec fn spec_handle_server_event(h: HubView, ev: ServerEventView) -> HubView {
    match ev {
        ServerEventView::PacketSent(p) => spec_handle_packet_sent(h, NodeKind::Server, p),
        ServerEventView::PacketReceived(p, id) => spec_handle_packet_received(
            h,
            NodeKind::Server,
            id,
            p,
        ),
        ServerEventView::MessageAssembled { body, from, to } => spec_handle_server_assembled(
            h,
            body,
            from,
            to,
        ),
        ServerEventView::MessageFragmented { body, from, to } => spec_handle_server_fragmented(
            h,
            body,
            from,
            to,
        ),
    }
}

/// Applies one responder event to the hub.
pub fn handle_server_event(data: &mut SimulationData, event: &ServerEvent)
    requires
        old(data).wf(),
        spec_server_event_pre(old(data)@, event@),
    ensures
        final(data).wf(),
        final(data)@ == spec_handle_server_event(old(data)@, event@),
{
    match event {
        ServerEvent::PacketSent(p) => handle_packet_sent(data, NodeKind::Server, p),
        ServerEvent::PacketReceived(p, id) => handle_packet_received(
            data,
            *id,
            NodeKind::Server,
            p,
        ),
        ServerEvent::MessageAssembled { body, from, to } => handle_server_message_assembled(
            data,
            body,
            *from,
            *to,
        ),
        ServerEvent::MessageFragmented { body, from, to } => handle_server_message_fragmented(
            data,
            body,
            *from,
            *to,
        ),
    }
}

/// One event of any of the three independently drained streams; a trace
/// of these stands for an arbitrary interleaving of the three workers'
/// mutations, which all happen under the hub's one lock.
pub enum HubEventView {
    Drone(DroneEventView),
    Client(ClientEventView),
    Server(ServerEventView),
}

/// What one interleaved event needs of the hub.
pub open spec fn spec_hub_event_pre(h: HubView, ev: HubEventView) -> bool {
    match ev {
        HubEventView::Drone(e) => spec_drone_event_pre(h, e),
        HubEventView::Client(e) => spec_client_event_pre(h, e),
        HubEventView::Server(e) => spec_server_event_pre(h, e),
    }
}

/// What one interleaved event does to the hub.
pub open spec fn spec_hub_step(h: HubView, ev: HubEventView) -> HubView {
    match ev {
        HubEventView::Drone(e) => spec_handle_drone_event(h, e),
        HubEventView::Client(e) => spec_handle_client_event(h, e),
        HubEventView::Server(e) => spec_handle_server_event(h, e),
    }
}

/// Whether every event of a trace meets its precondition in the state
/// it runs in.
pub open spec fn spec_trace_ok(h: HubView, evs: Seq<HubEventView>) -> bool
    decreases evs.len(),
{
    evs.len() == 0 || (spec_hub_event_pre(h, evs[0]) && spec_trace_ok(
        spec_hub_step(h, evs[0]),
        evs.drop_first(),
    ))
}

/// The hub after a whole trace of interleaved events.
pub open spec fn spec_run_trace(h: HubView, evs: Seq<HubEventView>) -> HubView
    decreases evs.len(),
{
    if evs.len() == 0 {
        h
    } else {
        spec_run_trace(spec_hub_step(h, evs[0]), evs.drop_first())
    }
}

/// How many events of a trace are relay forwards attributed to node
/// `id` whose packet kind is counted in column `col`.
pub open spec fn spec_forward_count(evs: Seq<HubEventView>, id: u8, col: int) -> nat
    decreases evs.len(),
{
    if evs.len() == 0 {
        0
    } else {
        (match evs[0] {
            HubEventView::Drone(DroneEventView::PacketSent(p)) => {
                if spec_sent_source(p) == id && spec_stat_index(p.kind) == col {
                    1 as nat
                } else {
                    0 as nat
                }
            },
            _ => 0 as nat,
        }) + spec_forward_count(evs.drop_first(), id, col)
    }
}

/// Law of stat conservation: across any trace of interleaved worker
/// events whose preconditions hold, a relay's forwarded counter in a
/// column grows by exactly the number of relay-forward events of that
/// column attributed to it, however events of the other categories are
/// interleaved.
pub proof fn lemma_forwarded_conservation(
    h: HubView,
    evs: Seq<HubEventView>,
    id: u8,
    col: int,
)
    requires
        spec_trace_ok(h, evs),
        h.drone_stats.contains_key(id),
        h.drone_stats[id].packets_forwarded.len() == 5,
        0 <= col < 5,
    ensures
        spec_run_trace(h, evs).drone_stats.contains_key(id),
        spec_run_trace(h, evs).drone_stats[id].packets_forwarded.len() == 5,
        spec_run_trace(h, evs).drone_stats[id].packets_forwarded[col]
            == h.drone_stats[id].packets_forwarded[col] + spec_forward_count(evs, id, col),
    decreases evs.len(),
{
    if evs.len() > 0 {
        let h1 = spec_hub_step(h, evs[0]);
        assert(h1.drone_stats.contains_key(id) && h1.drone_stats[id].packets_forwarded.len() == 5
            && h1.drone_stats[id].packets_forwarded[col]
            == h.drone_stats[id].packets_forwarded[col] + (match evs[0] {
            HubEventView::Drone(DroneEventView::PacketSent(p)) => {
                if spec_sent_source(p) == id && spec_stat_index(p.kind) == col {
                    1 as nat
                } else {
                    0 as nat
                }
            },
            _ => 0 as nat,
        })) by {
            match evs[0] {
                HubEventView::Drone(e) => {
                    match e {
                        DroneEventView::PacketSent(p) => {
                            assert(spec_hub_event_pre(h, evs[0]));
                        },
                        DroneEventView::PacketDropped(p) => {},
                        DroneEventView::ControllerShortcut(p) => {},
                    }
                },
                HubEventView::Client(e) => {},
                HubEventView::Server(e) => {},
            }
        }
        lemma_forwarded_conservation(h1, evs.drop_first(), id, col);
    }
}

} // verus!
