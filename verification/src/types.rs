//! Plain models of the values that flow through the hub: node categories,
//! packets, log lines and the per-category statistics tables.

use vstd::prelude::*;

verus! {

/// The three categories of nodes in the network. Every node id belongs to
/// exactly one category.
#[derive(Clone, Copy, Debug, PartialEq, Eq, Structural)]
pub enum NodeKind {
    Drone,
    Client,
    Server,
}

/// The reasons a negative acknowledgement can carry.
#[derive(Clone, Copy, Debug, PartialEq, Eq, Structural)]
pub enum NackKind {
    ErrorInRouting(u8),
    DestinationIsDrone,
    Dropped,
    UnexpectedRecipient(u8),
}

/// The fixed five-way packet classification that every statistics table is
/// indexed by.
#[derive(Clone, Copy, Debug, PartialEq, Eq, Structural)]
pub enum PacketKind {
    Fragment,
    Ack,
    Nack(NackKind),
    FloodRequest,
    FloodResponse,
}

/// A packet as the hub needs to see it: its classification, its source
/// route with the current position in it, and, for flood requests, the
/// trace of nodes the request has visited so far.
#[derive(Clone, Debug)]
pub struct Packet {
    pub kind: PacketKind,
    /// The planned route, as node ids.
    pub hops: Vec<u8>,
    /// Index into `hops` of the hop the packet stands at.
    pub hop_index: usize,
    /// For flood requests only: the ids of the nodes visited so far.
    pub path_trace: Vec<u8>,
}

/// Mathematical image of a [`Packet`].
pub struct PacketView {
    pub kind: PacketKind,
    pub hops: Seq<u8>,
    pub hop_index: int,
    pub path_trace: Seq<u8>,
}

impl View for Packet {
    type V = PacketView;

    open spec fn view(&self) -> PacketView {
        PacketView {
            kind: self.kind,
            hops: self.hops@,
            hop_index: self.hop_index as int,
            path_trace: self.path_trace@,
        }
    }
}

/// The tint a log line is rendered with; stands for the colour the
/// rendering layer picks.
#[derive(Clone, Copy, Debug, PartialEq, Eq, Structural)]
pub enum LogColor {
    /// Grey: neutral traffic such as fragments.
    Neutral,
    /// Light green: positive outcomes such as acks.
    Positive,
    /// Light red: negative outcomes such as nacks and drops.
    Negative,
    /// White: informational multi-line entries.
    Info,
}

/// One entry of a node's bounded log history.
#[derive(Clone, Debug)]
pub struct LogEntry {
    pub text: String,
    pub color: LogColor,
}

/// Mathematical image of a [`LogEntry`].
pub struct LogEntryView {
    pub text: Seq<char>,
    pub color: LogColor,
}

impl View for LogEntry {
    type V = LogEntryView;

    open spec fn view(&self) -> LogEntryView {
        LogEntryView { text: self.text@, color: self.color }
    }
}

/// Position of a packet kind in the five-way statistics tables.
/// The one table shared by all three categories, so the columns stay
/// comparable.
pub open spec fn spec_stat_index(kind: PacketKind) -> int {
    match kind {
        PacketKind::Fragment => 0,
        PacketKind::Ack => 1,
        PacketKind::Nack(_) => 2,
        PacketKind::FloodRequest => 3,
        PacketKind::FloodResponse => 4,
    }
}

/// Number of columns in every statistics table.
pub const STAT_COLUMNS: usize = 5;

/// Returns the statistics column a packet kind is counted in.
pub fn get_packet_stat_index(kind: PacketKind) -> (r: usize)
    ensures
        r == spec_stat_index(kind),
        r < STAT_COLUMNS,
{
    match kind {
        PacketKind::Fragment => 0,
        PacketKind::Ack => 1,
        PacketKind::Nack(_) => 2,
        PacketKind::FloodRequest => 3,
        PacketKind::FloodResponse => 4,
    }
}

/// The kind a responder reports for itself.
#[derive(Clone, Copy, Debug, PartialEq, Eq, Structural)]
pub enum ServerType {
    Content,
    Communication,
    Undefined,
}

/// A chat message relayed between two clients.
#[derive(Clone, Debug)]
pub struct CommunicationMessage {
    pub from: u8,
    pub to: u8,
    pub message: String,
}

/// Mathematical image of [`CommunicationMessage`].
pub struct CommunicationMessageView {
    pub from: u8,
    pub to: u8,
    pub message: Seq<char>,
}

impl View for CommunicationMessage {
    type V = CommunicationMessageView;

    open spec fn view(&self) -> CommunicationMessageView {
        CommunicationMessageView { from: self.from, to: self.to, message: self.message@ }
    }
}

/// The content-service requests a client can make.
#[derive(Clone, Debug)]
pub enum ClientContentBody {
    ReqFilesList,
    ReqFile(String),
}

/// Mathematical image of [`ClientContentBody`].
pub enum ClientContentBodyView {
    ReqFilesList,
    ReqFile(Seq<char>),
}

impl View for ClientContentBody {
    type V = ClientContentBodyView;

    open spec fn view(&self) -> ClientContentBodyView {
        match self {
            ClientContentBody::ReqFilesList => ClientContentBodyView::ReqFilesList,
            ClientContentBody::ReqFile(name) => ClientContentBodyView::ReqFile(name@),
        }
    }
}

/// The communication-service requests a client can make.
#[derive(Clone, Debug)]
pub enum ClientCommunicationBody {
    ReqRegistrationToChat,
    MessageSend(CommunicationMessage),
    ReqClientList,
}

/// Mathematical image of [`ClientCommunicationBody`].
pub enum ClientCommunicationBodyView {
    ReqRegistrationToChat,
    MessageSend(CommunicationMessageView),
    ReqClientList,
}

impl View for ClientCommunicationBody {
    type V = ClientCommunicationBodyView;

    open spec fn view(&self) -> ClientCommunicationBodyView {
        match self {
            ClientCommunicationBody::ReqRegistrationToChat => {
                ClientCommunicationBodyView::ReqRegistrationToChat
            },
            ClientCommunicationBody::MessageSend(m) => {
                ClientCommunicationBodyView::MessageSend(m@)
            },
            ClientCommunicationBody::ReqClientList => ClientCommunicationBodyView::ReqClientList,
        }
    }
}

/// The body of a message a client sends.
#[derive(Clone, Debug)]
pub enum ClientBody {
    ReqServerType,
    ClientContent(ClientContentBody),
    ClientCommunication(ClientCommunicationBody),
}

/// Mathematical image of [`ClientBody`].
pub enum ClientBodyView {
    ReqServerType,
    ClientContent(ClientContentBodyView),
    ClientCommunication(ClientCommunicationBodyView),
}

impl View for ClientBody {
    type V = ClientBodyView;

    open spec fn view(&self) -> ClientBodyView {
        match self {
            ClientBody::ReqServerType => ClientBodyView::ReqServerType,
            ClientBody::ClientContent(b) => ClientBodyView::ClientContent(b@),
            ClientBody::ClientCommunication(b) => ClientBodyView::ClientCommunication(b@),
        }
    }
}

/// The content-service responses a server can give.
#[derive(Clone, Debug)]
pub enum ServerContentBody {
    RespFilesList(Vec<String>),
    RespFile(Vec<u8>, String),
    ErrFileNotFound,
}

/// Mathematical image of [`ServerContentBody`].
pub enum ServerContentBodyView {
    RespFilesList(Seq<Seq<char>>),
    RespFile(Seq<u8>, Seq<char>),
    ErrFileNotFound,
}

impl View for ServerContentBody {
    type V = ServerContentBodyView;

    open spec fn view(&self) -> ServerContentBodyView {
        match self {
            ServerContentBody::RespFilesList(v) => {
                ServerContentBodyView::RespFilesList(crate::text::spec_names_of(v@))
            },
            ServerContentBody::RespFile(bytes, name) => {
                ServerContentBodyView::RespFile(bytes@, name@)
            },
            ServerContentBody::ErrFileNotFound => ServerContentBodyView::ErrFileNotFound,
        }
    }
}

/// The communication-service responses a server can give.
#[derive(Clone, Debug)]
pub enum ServerCommunicationBody {
    RespClientList(Vec<u8>),
    MessageReceive(CommunicationMessage),
    ErrWrongClientId,
    ErrNotRegistered,
    RegistrationSuccess,
}

/// Mathematical image of [`ServerCommunicationBody`].
pub enum ServerCommunicationBodyView {
    RespClientList(Seq<u8>),
    MessageReceive(CommunicationMessageView),
    ErrWrongClientId,
    ErrNotRegistered,
    RegistrationSuccess,
}

impl View for ServerCommunicationBody {
    type V = ServerCommunicationBodyView;

    open spec fn view(&self) -> ServerCommunicationBodyView {
        match self {
            ServerCommunicationBody::RespClientList(v) => {
                ServerCommunicationBodyView::RespClientList(v@)
            },
            ServerCommunicationBody::MessageReceive(m) => {
                ServerCommunicationBodyView::MessageReceive(m@)
            },
            ServerCommunicationBody::ErrWrongClientId => {
                ServerCommunicationBodyView::ErrWrongClientId
            },
            ServerCommunicationBody::ErrNotRegistered => {
                ServerCommunicationBodyView::ErrNotRegistered
            },
            ServerCommunicationBody::RegistrationSuccess => {
                ServerCommunicationBodyView::RegistrationSuccess
            },
        }
    }
}

/// The body of a message a server sends.
#[derive(Clone, Debug)]
pub enum ServerBody {
    RespServerType(ServerType),
    ErrUnsupportedRequestType,
    ServerContent(ServerContentBody),
    ServerCommunication(ServerCommunicationBody),
}

/// Mathematical image of [`ServerBody`].
pub enum ServerBodyView {
    RespServerType(ServerType),
    ErrUnsupportedRequestType,
    ServerContent(ServerContentBodyView),
    ServerCommunication(ServerCommunicationBodyView),
}

impl View for ServerBody {
    type V = ServerBodyView;

    open spec fn view(&self) -> ServerBodyView {
        match self {
            ServerBody::RespServerType(t) => ServerBodyView::RespServerType(*t),
            ServerBody::ErrUnsupportedRequestType => ServerBodyView::ErrUnsupportedRequestType,
            ServerBody::ServerContent(b) => ServerBodyView::ServerContent(b@),
            ServerBody::ServerCommunication(b) => ServerBodyView::ServerCommunication(b@),
        }
    }
}

/// An event reported by the relay event stream.
#[derive(Clone, Debug)]
pub enum DroneEvent {
    PacketSent(Packet),
    PacketDropped(Packet),
    ControllerShortcut(Packet),
}

/// Mathematical image of [`DroneEvent`].
pub enum DroneEventView {
    PacketSent(PacketView),
    PacketDropped(PacketView),
    ControllerShortcut(PacketView),
}

impl View for DroneEvent {
    type V = DroneEventView;

    open spec fn view(&self) -> DroneEventView {
        match self {
            DroneEvent::PacketSent(p) => DroneEventView::PacketSent(p@),
            DroneEvent::PacketDropped(p) => DroneEventView::PacketDropped(p@),
            DroneEvent::ControllerShortcut(p) => DroneEventView::ControllerShortcut(p@),
        }
    }
}

/// An event reported by the originator event stream.
#[derive(Clone, Debug)]
pub enum ClientEvent {
    PacketSent(Packet),
    PacketReceived(Packet, u8),
    MessageAssembled { body: ServerBody, from: u8, to: u8 },
    MessageFragmented { body: ClientBody, from: u8, to: u8 },
}

/// Mathematical image of [`ClientEvent`].
pub enum ClientEventView {
    PacketSent(PacketView),
    PacketReceived(PacketView, u8),
    MessageAssembled { body: ServerBodyView, from: u8, to: u8 },
    MessageFragmented { body: ClientBodyView, from: u8, to: u8 },
}

impl View for ClientEvent {
    type V = ClientEventView;

    open spec fn view(&self) -> ClientEventView {
        match self {
            ClientEvent::PacketSent(p) => ClientEventView::PacketSent(p@),
            ClientEvent::PacketReceived(p, id) => ClientEventView::PacketReceived(p@, *id),
            ClientEvent::MessageAssembled { body, from, to } => {
                ClientEventView::MessageAssembled { body: body@, from: *from, to: *to }
            },
            ClientEvent::MessageFragmented { body, from, to } => {
                ClientEventView::MessageFragmented { body: body@, from: *from, to: *to }
            },
        }
    }
}

/// An event reported by the responder event stream.
#[derive(Clone, Debug)]
pub enum ServerEvent {
    PacketSent(Packet),
    PacketReceived(Packet, u8),
    MessageAssembled { body: ClientBody, from: u8, to: u8 },
    MessageFragmented { body: ServerBody, from: u8, to: u8 },
}

/// Mathematical image of [`ServerEvent`].
pub enum ServerEventView {
    PacketSent(PacketView),
    PacketReceived(PacketView, u8),
    MessageAssembled { body: ClientBodyView, from: u8, to: u8 },
    MessageFragmented { body: ServerBodyView, from: u8, to: u8 },
}

impl View for ServerEvent {
    type V = ServerEventView;

    open spec fn view(&self) -> ServerEventView {
        match self {
            ServerEvent::PacketSent(p) => ServerEventView::PacketSent(p@),
            ServerEvent::PacketReceived(p, id) => ServerEventView::PacketReceived(p@, *id),
            ServerEvent::MessageAssembled { body, from, to } => {
                ServerEventView::MessageAssembled { body: body@, from: *from, to: *to }
            },
            ServerEvent::MessageFragmented { body, from, to } => {
                ServerEventView::MessageFragmented { body: body@, from: *from, to: *to }
            },
        }
    }
}

} // verus!
