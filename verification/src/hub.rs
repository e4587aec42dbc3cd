//! The shared state hub: per-node bounded log histories, per-category
//! statistics and the pending content inbox, behind one well-formedness
//! invariant.

use vstd::prelude::*;

use std::collections::HashMap;
use std::collections::VecDeque;

use crate::types::{LogColor, LogEntry, LogEntryView, NodeKind, PacketKind};

verus! {

broadcast use vstd::std_specs::hash::group_hash_axioms;

use crate::types::spec_stat_index;

/// Capacity of every per-node log history; the oldest entry is evicted
/// first once a log is full.
pub const MAX_LOG_LENGTH: usize = 100;

/// Running counters for one relay node.
#[derive(Clone, Debug)]
pub struct DroneStats {
    /// Forwarded packets, one column per packet kind.
    pub packets_forwarded: [u64; 5],
    /// Fragments this relay dropped.
    pub fragments_dropped: u64,
}

/// Mathematical image of [`DroneStats`].
#[verifier::ext_equal]
pub struct DroneStatsView {
    pub packets_forwarded: Seq<u64>,
    pub fragments_dropped: u64,
}

impl View for DroneStats {
    type V = DroneStatsView;

    open spec fn view(&self) -> DroneStatsView {
        DroneStatsView {
            packets_forwarded: self.packets_forwarded@,
            fragments_dropped: self.fragments_dropped,
        }
    }
}

impl DroneStatsView {
    /// All counters at zero.
    pub open spec fn zero() -> DroneStatsView {
        DroneStatsView {
            packets_forwarded: Seq::new(5, |i: int| 0u64),
            fragments_dropped: 0u64,
        }
    }
}

impl Default for DroneStats {
    /// Zeroed counters.
    fn default() -> (r: Self)
        ensures
            r@ == DroneStatsView::zero(),
    {
        let r = DroneStats { packets_forwarded: [0, 0, 0, 0, 0], fragments_dropped: 0 };
        proof {
            assert(r@ =~= DroneStatsView::zero());
        }
        r
    }
}

/// Running counters for one originator node.
#[derive(Clone, Debug)]
pub struct ClientStats {
    pub packets_sent: [u64; 5],
    pub packets_received: [u64; 5],
    pub messages_assembled: u64,
    pub messages_fragmented: u64,
}

/// Mathematical image of [`ClientStats`].
#[verifier::ext_equal]
pub struct ClientStatsView {
    pub packets_sent: Seq<u64>,
    pub packets_received: Seq<u64>,
    pub messages_assembled: u64,
    pub messages_fragmented: u64,
}

impl View for ClientStats {
    type V = ClientStatsView;

    open spec fn view(&self) -> ClientStatsView {
        ClientStatsView {
            packets_sent: self.packets_sent@,
            packets_received: self.packets_received@,
            messages_assembled: self.messages_assembled,
            messages_fragmented: self.messages_fragmented,
        }
    }
}

impl ClientStatsView {
    /// All counters at zero.
    pub open spec fn zero() -> ClientStatsView {
        ClientStatsView {
            packets_sent: Seq::new(5, |i: int| 0u64),
            packets_received: Seq::new(5, |i: int| 0u64),
            messages_assembled: 0u64,
            messages_fragmented: 0u64,
        }
    }
}

impl Default for ClientStats {
    /// Zeroed counters.
    fn default() -> (r: Self)
        ensures
            r@ == ClientStatsView::zero(),
    {
        let r = ClientStats {
            packets_sent: [0, 0, 0, 0, 0],
            packets_received: [0, 0, 0, 0, 0],
            messages_assembled: 0,
            messages_fragmented: 0,
        };
        proof {
            assert(r@ =~= ClientStatsView::zero());
        }
        r
    }
}

/// Running counters for one responder node.
#[derive(Clone, Debug)]
pub struct ServerStats {
    pub packets_sent: [u64; 5],
    pub packets_received: [u64; 5],
    pub messages_assembled: u64,
    pub messages_fragmented: u64,
}

/// Mathematical image of [`ServerStats`].
#[verifier::ext_equal]
pub struct ServerStatsView {
    pub packets_sent: Seq<u64>,
    pub packets_received: Seq<u64>,
    pub messages_assembled: u64,
    pub messages_fragmented: u64,
}

impl View for ServerStats {
    type V = ServerStatsView;

    open spec fn view(&self) -> ServerStatsView {
        ServerStatsView {
            packets_sent: self.packets_sent@,
            packets_received: self.packets_received@,
            messages_assembled: self.messages_assembled,
            messages_fragmented: self.messages_fragmented,
        }
    }
}

impl ServerStatsView {
    /// All counters at zero.
    pub open spec fn zero() -> ServerStatsView {
        ServerStatsView {
            packets_sent: Seq::new(5, |i: int| 0u64),
            packets_received: Seq::new(5, |i: int| 0u64),
            messages_assembled: 0u64,
            messages_fragmented: 0u64,
        }
    }
}

impl Default for ServerStats {
    /// Zeroed counters.
    fn default() -> (r: Self)
        ensures
            r@ == ServerStatsView::zero(),
    {
        let r = ServerStats {
            packets_sent: [0, 0, 0, 0, 0],
            packets_received: [0, 0, 0, 0, 0],
            messages_assembled: 0,
            messages_fragmented: 0,
        };
        proof {
            assert(r@ =~= ServerStatsView::zero());
        }
        r
    }
}

/// The payload of a decoded content item: an image, kept as its raw
/// bytes for the rendering layer to decode, or plain text.
#[derive(Clone, Debug)]
pub enum ContentFileType {
    Image(Vec<u8>),
    Text(String),
}

/// Mathematical image of [`ContentFileType`].
pub enum ContentFileTypeView {
    Image(Seq<u8>),
    Text(Seq<char>),
}

impl View for ContentFileType {
    type V = ContentFileTypeView;

    open spec fn view(&self) -> ContentFileTypeView {
        match self {
            ContentFileType::Image(bytes) => ContentFileTypeView::Image(bytes@),
            ContentFileType::Text(text) => ContentFileTypeView::Text(text@),
        }
    }
}

/// A decoded content item queued for the rendering layer.
#[derive(Clone, Debug)]
pub struct ContentFile {
    pub name: String,
    pub file: ContentFileType,
}

/// Mathematical image of [`ContentFile`].
#[verifier::ext_equal]
pub struct ContentFileView {
    pub name: Seq<char>,
    pub file: ContentFileTypeView,
}

impl View for ContentFile {
    type V = ContentFileView;

    open spec fn view(&self) -> ContentFileView {
        ContentFileView { name: self.name@, file: self.file@ }
    }
}

/// How one more entry changes a bounded log: appended at the end, with
/// the oldest entry evicted first when the log is full.
pub open spec fn spec_log_push(s: Seq<LogEntryView>, e: LogEntryView) -> Seq<LogEntryView> {
    if s.len() >= MAX_LOG_LENGTH {
        s.subrange(1, s.len() as int).push(e)
    } else {
        s.push(e)
    }
}

/// Mathematical image of the whole hub.
#[verifier::ext_equal]
pub struct HubView {
    pub drone_ids: Seq<u8>,
    pub client_ids: Seq<u8>,
    pub server_ids: Seq<u8>,
    pub logs: Map<u8, Seq<LogEntryView>>,
    pub drone_stats: Map<u8, DroneStatsView>,
    pub client_stats: Map<u8, ClientStatsView>,
    pub server_stats: Map<u8, ServerStatsView>,
    pub files: Seq<ContentFileView>,
}

impl HubView {
    /// The ids of every node the hub knows, of all three categories.
    pub open spec fn all_ids(self) -> Set<u8> {
        self.drone_ids.to_set().union(self.client_ids.to_set()).union(self.server_ids.to_set())
    }

    /// Well-formedness: each id belongs to exactly one category, every
    /// known node has a log and the statistics record of its category,
    /// and no log exceeds its capacity.
    pub open spec fn wf(self) -> bool {
        &&& self.drone_ids.no_duplicates()
        &&& self.client_ids.no_duplicates()
        &&& self.server_ids.no_duplicates()
        &&& forall|id: u8|
            self.drone_ids.contains(id) ==> !self.client_ids.contains(id)
                && !self.server_ids.contains(id)
        &&& forall|id: u8| self.client_ids.contains(id) ==> !self.server_ids.contains(id)
        &&& self.logs.dom() == self.all_ids()
        &&& self.drone_stats.dom() == self.drone_ids.to_set()
        &&& self.client_stats.dom() == self.client_ids.to_set()
        &&& self.server_stats.dom() == self.server_ids.to_set()
        &&& forall|id: u8| #[trigger]
            self.logs.contains_key(id) ==> self.logs[id].len() <= MAX_LOG_LENGTH
        &&& forall|id: u8| #[trigger]
            self.drone_stats.contains_key(id) ==> self.drone_stats[id].packets_forwarded.len() == 5
        &&& forall|id: u8| #[trigger]
            self.client_stats.contains_key(id) ==> self.client_stats[id].packets_sent.len() == 5
                && self.client_stats[id].packets_received.len() == 5
        &&& forall|id: u8| #[trigger]
            self.server_stats.contains_key(id) ==> self.server_stats[id].packets_sent.len() == 5
                && self.server_stats[id].packets_received.len() == 5
    }

    /// The freshly built baseline for a given node population: empty
    /// logs everywhere, zeroed statistics, an empty content inbox.
    pub open spec fn fresh(drones: Seq<u8>, clients: Seq<u8>, servers: Seq<u8>) -> HubView {
        HubView {
            drone_ids: drones,
            client_ids: clients,
            server_ids: servers,
            logs: Map::new(
                |id: u8| drones.contains(id) || clients.contains(id) || servers.contains(id),
                |id: u8| Seq::empty(),
            ),
            drone_stats: Map::new(|id: u8| drones.contains(id), |id: u8| DroneStatsView::zero()),
            client_stats: Map::new(|id: u8| clients.contains(id), |id: u8| ClientStatsView::zero()),
            server_stats: Map::new(|id: u8| servers.contains(id), |id: u8| ServerStatsView::zero()),
            files: Seq::empty(),
        }
    }

    /// The hub after one log entry lands on node `id`.
    pub open spec fn with_log(self, id: u8, e: LogEntryView) -> HubView {
        HubView { logs: self.logs.insert(id, spec_log_push(self.logs[id], e)), ..self }
    }

    /// The hub after node `id`'s log is cleared.
    pub open spec fn with_log_cleared(self, id: u8) -> HubView {
        HubView { logs: self.logs.insert(id, Seq::empty()), ..self }
    }

    /// The hub after every node's log is cleared.
    pub open spec fn with_all_logs_cleared(self) -> HubView {
        HubView { logs: Map::new(|id: u8| self.logs.contains_key(id), |id: u8| Seq::empty()), ..self }
    }
}

/// The shared state hub. One instance is the single source of truth for
/// everything the rendering layer shows about the network; it is built
/// fresh at every reset.
pub struct SimulationData {
    drone_ids: Vec<u8>,
    client_ids: Vec<u8>,
    server_ids: Vec<u8>,
    logs: HashMap<u8, VecDeque<LogEntry>>,
    drone_stats: HashMap<u8, DroneStats>,
    client_stats: HashMap<u8, ClientStats>,
    server_stats: HashMap<u8, ServerStats>,
    files: Vec<ContentFile>,
}

impl View for SimulationData {
    type V = HubView;

    closed spec fn view(&self) -> HubView {
        HubView {
            drone_ids: self.drone_ids@,
            client_ids: self.client_ids@,
            server_ids: self.server_ids@,
            logs: self.logs@.map_values(
                |q: VecDeque<LogEntry>| q@.map_values(|e: LogEntry| e@),
            ),
            drone_stats: self.drone_stats@.map_values(|s: DroneStats| s@),
            client_stats: self.client_stats@.map_values(|s: ClientStats| s@),
            server_stats: self.server_stats@.map_values(|s: ServerStats| s@),
            files: self.files@.map_values(|f: ContentFile| f@),
        }
    }
}

impl SimulationData {
    /// Well-formedness of the hub; established by the constructor and
    /// preserved by every operation.
    pub open spec fn wf(self) -> bool {
        self@.wf()
    }

    /// Builds the freshly zeroed hub for a node population: one empty
    /// log per node, zeroed statistics per category, an empty inbox.
    ///
    /// The ids must be unique and the categories disjoint: every node id
    /// belongs to exactly one category.
    pub fn new(drone_ids: Vec<u8>, client_ids: Vec<u8>, server_ids: Vec<u8>) -> (r: Self)
        requires
            drone_ids@.no_duplicates(),
            client_ids@.no_duplicates(),
            server_ids@.no_duplicates(),
            forall|id: u8|
                drone_ids@.contains(id) ==> !client_ids@.contains(id) && !server_ids@.contains(id),
            forall|id: u8| client_ids@.contains(id) ==> !server_ids@.contains(id),
        ensures
            r.wf(),
            r@ == HubView::fresh(drone_ids@, client_ids@, server_ids@),
    {
        let ghost d = drone_ids@;
        let ghost c = client_ids@;
        let ghost s = server_ids@;
        let mut logs: HashMap<u8, VecDeque<LogEntry>> = HashMap::new();
        let mut drone_stats: HashMap<u8, DroneStats> = HashMap::new();
        let mut client_stats: HashMap<u8, ClientStats> = HashMap::new();
        let mut server_stats: HashMap<u8, ServerStats> = HashMap::new();

        let mut i: usize = 0;
        while i < drone_ids.len()
            invariant
                i <= d.len(),
                drone_ids@ == d,
                logs@.dom() =~= d.take(i as int).to_set(),
                drone_stats@.dom() =~= d.take(i as int).to_set(),
                forall|id: u8| #[trigger] logs@.contains_key(id) ==> logs@[id]@.len() == 0,
                forall|id: u8| #[trigger]
                    drone_stats@.contains_key(id) ==> drone_stats@[id]@ == DroneStatsView::zero(),
            decreases d.len() - i,
        {
            let id = drone_ids[i];
            logs.insert(id, VecDeque::new());
            drone_stats.insert(id, DroneStats::default());
            proof {
                assert(d.take(i + 1 as int) =~= d.take(i as int).push(d[i as int]));
                assert forall|x: u8|
                    #![trigger d.take(i + 1 as int).to_set().contains(x)]
                    d.take(i + 1 as int).to_set().contains(x) <==> d.take(
                        i as int,
                    ).to_set().insert(d[i as int]).contains(x) by {
                    if d.take(i + 1 as int).contains(x) {
                        let j = choose|j: int|
                            0 <= j < d.take(i + 1 as int).len() && #[trigger] d.take(
                                i + 1 as int,
                            )[j] == x;
                        if j < i {
                            assert(d.take(i as int)[j] == x);
                        }
                    }
                    if d.take(i as int).contains(x) {
                        let j = choose|j: int|
                            0 <= j < d.take(i as int).len() && #[trigger] d.take(i as int)[j]
                                == x;
                        assert(d.take(i + 1 as int)[j] == x);
                    }
                    if x == d[i as int] {
                        assert(d.take(i + 1 as int)[i as int] == x);
                    }
                }
                assert(d.take(i + 1 as int).to_set() =~= d.take(i as int).to_set().insert(
                    d[i as int],
                ));
            }
            i = i + 1;
        }
        proof {
            assert(d.take(d.len() as int) =~= d);
        }

        let mut i: usize = 0;
        while i < client_ids.len()
            invariant
                i <= c.len(),
                client_ids@ == c,
                logs@.dom() =~= d.to_set().union(c.take(i as int).to_set()),
                client_stats@.dom() =~= c.take(i as int).to_set(),
                drone_stats@.dom() =~= d.to_set(),
                forall|id: u8| #[trigger] logs@.contains_key(id) ==> logs@[id]@.len() == 0,
                forall|id: u8| #[trigger]
                    drone_stats@.contains_key(id) ==> drone_stats@[id]@ == DroneStatsView::zero(),
                forall|id: u8| #[trigger]
                    client_stats@.contains_key(id) ==> client_stats@[id]@ == ClientStatsView::zero(),
            decreases c.len() - i,
        {
            let id = client_ids[i];
            logs.insert(id, VecDeque::new());
            client_stats.insert(id, ClientStats::default());
            proof {
                assert(c.take(i + 1 as int) =~= c.take(i as int).push(c[i as int]));
                assert forall|x: u8|
                    #![trigger c.take(i + 1 as int).to_set().contains(x)]
                    c.take(i + 1 as int).to_set().contains(x) <==> c.take(
                        i as int,
                    ).to_set().insert(c[i as int]).contains(x) by {
                    if c.take(i + 1 as int).contains(x) {
                        let j = choose|j: int|
                            0 <= j < c.take(i + 1 as int).len() && #[trigger] c.take(
                                i + 1 as int,
                            )[j] == x;
                        if j < i {
                            assert(c.take(i as int)[j] == x);
                        }
                    }
                    if c.take(i as int).contains(x) {
                        let j = choose|j: int|
                            0 <= j < c.take(i as int).len() && #[trigger] c.take(i as int)[j]
                                == x;
                        assert(c.take(i + 1 as int)[j] == x);
                    }
                    if x == c[i as int] {
                        assert(c.take(i + 1 as int)[i as int] == x);
                    }
                }
                assert(c.take(i + 1 as int).to_set() =~= c.take(i as int).to_set().insert(
                    c[i as int],
                ));
            }
            i = i + 1;
        }
        proof {
            assert(c.take(c.len() as int) =~= c);
        }

        let mut i: usize = 0;
        while i < server_ids.len()
            invariant
                i <= s.len(),
                server_ids@ == s,
                logs@.dom() =~= d.to_set().union(c.to_set()).union(s.take(i as int).to_set()),
                server_stats@.dom() =~= s.take(i as int).to_set(),
                drone_stats@.dom() =~= d.to_set(),
                client_stats@.dom() =~= c.to_set(),
                forall|id: u8| #[trigger] logs@.contains_key(id) ==> logs@[id]@.len() == 0,
                forall|id: u8| #[trigger]
                    drone_stats@.contains_key(id) ==> drone_stats@[id]@ == DroneStatsView::zero(),
                forall|id: u8| #[trigger]
                    client_stats@.contains_key(id) ==> client_stats@[id]@ == ClientStatsView::zero(),
                forall|id: u8| #[trigger]
                    server_stats@.contains_key(id) ==> server_stats@[id]@ == ServerStatsView::zero(),
            decreases s.len() - i,
        {
            let id = server_ids[i];
            logs.insert(id, VecDeque::new());
            server_stats.insert(id, ServerStats::default());
            proof {
                assert(s.take(i + 1 as int) =~= s.take(i as int).push(s[i as int]));
                assert forall|x: u8|
                    #![trigger s.take(i + 1 as int).to_set().contains(x)]
                    s.take(i + 1 as int).to_set().contains(x) <==> s.take(
                        i as int,
                    ).to_set().insert(s[i as int]).contains(x) by {
                    if s.take(i + 1 as int).contains(x) {
                        let j = choose|j: int|
                            0 <= j < s.take(i + 1 as int).len() && #[trigger] s.take(
                                i + 1 as int,
                            )[j] == x;
                        if j < i {
                            assert(s.take(i as int)[j] == x);
                        }
                    }
                    if s.take(i as int).contains(x) {
                        let j = choose|j: int|
                            0 <= j < s.take(i as int).len() && #[trigger] s.take(i as int)[j]
                                == x;
                        assert(s.take(i + 1 as int)[j] == x);
                    }
                    if x == s[i as int] {
                        assert(s.take(i + 1 as int)[i as int] == x);
                    }
                }
                assert(s.take(i + 1 as int).to_set() =~= s.take(i as int).to_set().insert(
                    s[i as int],
                ));
            }
            i = i + 1;
        }
        proof {
            assert(s.take(s.len() as int) =~= s);
        }

        let r = SimulationData {
            drone_ids,
            client_ids,
            server_ids,
            logs,
            drone_stats,
            client_stats,
            server_stats,
            files: Vec::new(),
        };
        proof {
            assert(r@ =~~= HubView::fresh(d, c, s));
            assert(r@.logs.dom() =~= r@.all_ids());
            assert(r@.drone_stats.dom() =~= d.to_set());
            assert(r@.client_stats.dom() =~= c.to_set());
            assert(r@.server_stats.dom() =~= s.to_set());
        }
        r
    }
}

impl HubView {
    /// The hub after a sent or forwarded packet of kind `kind` is
    /// counted for the node `id` of category `cat`.
    pub open spec fn with_packet_sent(self, cat: NodeKind, id: u8, kind: PacketKind) -> HubView {
        let i = spec_stat_index(kind);
        match cat {
            NodeKind::Drone => {
                let st = self.drone_stats[id];
                self.with_drone_stats(
                    id,
                    DroneStatsView {
                        packets_forwarded: st.packets_forwarded.update(
                            i,
                            (st.packets_forwarded[i] + 1) as u64,
                        ),
                        ..st
                    },
                )
            },
            NodeKind::Client => {
                let st = self.client_stats[id];
                self.with_client_stats(
                    id,
                    ClientStatsView {
                        packets_sent: st.packets_sent.update(i, (st.packets_sent[i] + 1) as u64),
                        ..st
                    },
                )
            },
            NodeKind::Server => {
                let st = self.server_stats[id];
                self.with_server_stats(
                    id,
                    ServerStatsView {
                        packets_sent: st.packets_sent.update(i, (st.packets_sent[i] + 1) as u64),
                        ..st
                    },
                )
            },
        }
    }

    /// The hub after a received packet of kind `kind` is counted for
    /// the node `id` of category `cat` (a client or a server).
    pub open spec fn with_packet_received(self, cat: NodeKind, id: u8, kind: PacketKind) -> HubView {
        let i = spec_stat_index(kind);
        match cat {
            NodeKind::Drone => self,
            NodeKind::Client => {
                let st = self.client_stats[id];
                self.with_client_stats(
                    id,
                    ClientStatsView {
                        packets_received: st.packets_received.update(
                            i,
                            (st.packets_received[i] + 1) as u64,
                        ),
                        ..st
                    },
                )
            },
            NodeKind::Server => {
                let st = self.server_stats[id];
                self.with_server_stats(
                    id,
                    ServerStatsView {
                        packets_received: st.packets_received.update(
                            i,
                            (st.packets_received[i] + 1) as u64,
                        ),
                        ..st
                    },
                )
            },
        }
    }

    /// The hub after relay `id`'s dropped-fragment counter ticks.
    pub open spec fn with_fragment_dropped(self, id: u8) -> HubView {
        let st = self.drone_stats[id];
        self.with_drone_stats(
            id,
            DroneStatsView { fragments_dropped: (st.fragments_dropped + 1) as u64, ..st },
        )
    }

    /// The hub after the assembled-message counter of node `id` of
    /// category `cat` (a client or a server) ticks.
    pub open spec fn with_message_assembled(self, cat: NodeKind, id: u8) -> HubView {
        match cat {
            NodeKind::Drone => self,
            NodeKind::Client => {
                let st = self.client_stats[id];
                self.with_client_stats(
                    id,
                    ClientStatsView {
                        messages_assembled: (st.messages_assembled + 1) as u64,
                        ..st
                    },
                )
            },
            NodeKind::Server => {
                let st = self.server_stats[id];
                self.with_server_stats(
                    id,
                    ServerStatsView {
                        messages_assembled: (st.messages_assembled + 1) as u64,
                        ..st
                    },
                )
            },
        }
    }

    /// The hub after the fragmented-message counter of node `id` of
    /// category `cat` (a client or a server) ticks.
    pub open spec fn with_message_fragmented(self, cat: NodeKind, id: u8) -> HubView {
        match cat {
            NodeKind::Drone => self,
            NodeKind::Client => {
                let st = self.client_stats[id];
                self.with_client_stats(
                    id,
                    ClientStatsView {
                        messages_fragmented: (st.messages_fragmented + 1) as u64,
                        ..st
                    },
                )
            },
            NodeKind::Server => {
                let st = self.server_stats[id];
                self.with_server_stats(
                    id,
                    ServerStatsView {
                        messages_fragmented: (st.messages_fragmented + 1) as u64,
                        ..st
                    },
                )
            },
        }
    }

    /// The hub after a content item joins the pending inbox.
    pub open spec fn with_file(self, f: ContentFileView) -> HubView {
        HubView { files: self.files.push(f), ..self }
    }

    pub open spec fn with_drone_stats(self, id: u8, st: DroneStatsView) -> HubView {
        HubView { drone_stats: self.drone_stats.insert(id, st), ..self }
    }

    pub open spec fn with_client_stats(self, id: u8, st: ClientStatsView) -> HubView {
        HubView { client_stats: self.client_stats.insert(id, st), ..self }
    }

    pub open spec fn with_server_stats(self, id: u8, st: ServerStatsView) -> HubView {
        HubView { server_stats: self.server_stats.insert(id, st), ..self }
    }
}

impl SimulationData {
    /// Whether the hub knows a node with this id, in any category.
    pub fn has_node(&self, id: u8) -> (r: bool)
        ensures
            r == self@.logs.contains_key(id),
    {
        self.logs.contains_key(&id)
    }

    /// Adds a log entry for the node that matches `id`, evicting the
    /// oldest entry if the log is at capacity.
    pub fn add_log(&mut self, id: u8, text: String, color: LogColor)
        requires
            old(self).wf(),
            old(self)@.logs.contains_key(id),
        ensures
            final(self).wf(),
            final(self)@ == old(self)@.with_log(id, LogEntryView { text: text@, color: color }),
    {
        let ghost pre = self@;
        let ghost e = LogEntryView { text: text@, color: color };
        let mut q = self.logs.remove(&id).unwrap();
        if q.len() >= MAX_LOG_LENGTH {
            q.pop_front();
        }
        q.push_back(LogEntry { text, color });
        self.logs.insert(id, q);
        proof {
            assert(q@.map_values(|le: LogEntry| le@) =~= spec_log_push(pre.logs[id], e));
            assert(self@ =~~= pre.with_log(id, e));
            assert(self@.logs.dom() =~= pre.logs.dom());
        }
    }

    /// Clears the log of the node that matches `id`.
    pub fn clear_log(&mut self, id: u8)
        requires
            old(self).wf(),
            old(self)@.logs.contains_key(id),
        ensures
            final(self).wf(),
            final(self)@ == old(self)@.with_log_cleared(id),
    {
        let ghost pre = self@;
        let mut q = self.logs.remove(&id).unwrap();
        q.clear();
        self.logs.insert(id, q);
        proof {
            assert(self@ =~~= pre.with_log_cleared(id));
            assert(self@.logs.dom() =~= pre.logs.dom());
        }
    }

    /// Clears the logs of every node the hub knows.
    pub fn clear_all_logs(&mut self)
        requires
            old(self).wf(),
        ensures
            final(self).wf(),
            final(self)@ == old(self)@.with_all_logs_cleared(),
    {
        let ghost pre = self@;
        let mut i: usize = 0;
        while i < self.drone_ids.len()
            invariant
                old(self).wf(),
                i <= pre.drone_ids.len(),
                self.wf(),
                self@.drone_ids == pre.drone_ids,
                self@.client_ids == pre.client_ids,
                self@.server_ids == pre.server_ids,
                self@.drone_stats == pre.drone_stats,
                self@.client_stats == pre.client_stats,
                self@.server_stats == pre.server_stats,
                self@.files == pre.files,
                self@.logs.dom() == pre.logs.dom(),
                forall|j: int|
                    0 <= j < i ==> #[trigger] self@.logs[pre.drone_ids[j]] == Seq::<
                        LogEntryView,
                    >::empty(),
                forall|id: u8| #[trigger]
                    self@.logs.contains_key(id) && !pre.drone_ids.take(i as int).contains(id)
                        ==> self@.logs[id] == pre.logs[id],
            decreases pre.drone_ids.len() - i,
        {
            let id = self.drone_ids[i];
            proof {
                assert(pre.logs.contains_key(id));
            }
            self.clear_log(id);
            proof {
                assert forall|j: int| 0 <= j < i + 1 implies #[trigger] self@.logs[pre.drone_ids[j]]
                    == Seq::<LogEntryView>::empty() by {
                    if j < i {
                        assert(self@.logs[pre.drone_ids[j]] == Seq::<LogEntryView>::empty());
                    }
                }
                assert forall|x: u8| #[trigger]
                    self@.logs.contains_key(x) && !pre.drone_ids.take(i + 1 as int).contains(x)
                        implies self@.logs[x] == pre.logs[x] by {
                    assert(!pre.drone_ids.take(i as int).contains(x)) by {
                        if pre.drone_ids.take(i as int).contains(x) {
                            let j = choose|j: int|
                                0 <= j < i && #[trigger] pre.drone_ids.take(i as int)[j] == x;
                            assert(pre.drone_ids.take(i + 1 as int)[j] == x);
                        }
                    }
                    assert(x != id) by {
                        assert(pre.drone_ids.take(i + 1 as int)[i as int] == id);
                    }
                }
            }
            i = i + 1;
        }
        let mut i: usize = 0;
        while i < self.client_ids.len()
            invariant
                old(self).wf(),
                i <= pre.client_ids.len(),
                self.wf(),
                self@.drone_ids == pre.drone_ids,
                self@.client_ids == pre.client_ids,
                self@.server_ids == pre.server_ids,
                self@.drone_stats == pre.drone_stats,
                self@.client_stats == pre.client_stats,
                self@.server_stats == pre.server_stats,
                self@.files == pre.files,
                self@.logs.dom() == pre.logs.dom(),
                forall|j: int|
                    0 <= j < pre.drone_ids.len() ==> #[trigger] self@.logs[pre.drone_ids[j]] == Seq::<
                        LogEntryView,
                    >::empty(),
                forall|j: int|
                    0 <= j < i ==> #[trigger] self@.logs[pre.client_ids[j]] == Seq::<
                        LogEntryView,
                    >::empty(),
                forall|id: u8| #[trigger]
                    self@.logs.contains_key(id) && !pre.drone_ids.contains(id)
                        && !pre.client_ids.take(i as int).contains(id) ==> self@.logs[id]
                        == pre.logs[id],
            decreases pre.client_ids.len() - i,
        {
            let id = self.client_ids[i];
            proof {
                assert(pre.logs.contains_key(id));
            }
            self.clear_log(id);
            proof {
                assert forall|j: int| 0 <= j < pre.drone_ids.len() implies #[trigger] self@.logs[pre.drone_ids[j]]
                    == Seq::<LogEntryView>::empty() by {
                    assert(self@.logs[pre.drone_ids[j]] == Seq::<LogEntryView>::empty() || pre.drone_ids[j]
                        == id);
                }
                assert forall|j: int| 0 <= j < i + 1 implies #[trigger] self@.logs[pre.client_ids[j]]
                    == Seq::<LogEntryView>::empty() by {
                    if j < i {
                        assert(self@.logs[pre.client_ids[j]] == Seq::<LogEntryView>::empty());
                    }
                }
                assert forall|x: u8| #[trigger]
                    self@.logs.contains_key(x) && !pre.drone_ids.contains(x)
                        && !pre.client_ids.take(i + 1 as int).contains(x) implies self@.logs[x]
                    == pre.logs[x] by {
                    assert(!pre.client_ids.take(i as int).contains(x)) by {
                        if pre.client_ids.take(i as int).contains(x) {
                            let j = choose|j: int|
                                0 <= j < i && #[trigger] pre.client_ids.take(i as int)[j] == x;
                            assert(pre.client_ids.take(i + 1 as int)[j] == x);
                        }
                    }
                    assert(x != id) by {
                        assert(pre.client_ids.take(i + 1 as int)[i as int] == id);
                    }
                }
            }
            i = i + 1;
        }
        let mut i: usize = 0;
        while i < self.server_ids.len()
            invariant
                old(self).wf(),
                i <= pre.server_ids.len(),
                self.wf(),
                self@.drone_ids == pre.drone_ids,
                self@.client_ids == pre.client_ids,
                self@.server_ids == pre.server_ids,
                self@.drone_stats == pre.drone_stats,
                self@.client_stats == pre.client_stats,
                self@.server_stats == pre.server_stats,
                self@.files == pre.files,
                self@.logs.dom() == pre.logs.dom(),
                forall|j: int|
                    0 <= j < pre.drone_ids.len() ==> #[trigger] self@.logs[pre.drone_ids[j]] == Seq::<
                        LogEntryView,
                    >::empty(),
                forall|j: int|
                    0 <= j < pre.client_ids.len() ==> #[trigger] self@.logs[pre.client_ids[j]]
                        == Seq::<LogEntryView>::empty(),
                forall|j: int|
                    0 <= j < i ==> #[trigger] self@.logs[pre.server_ids[j]] == Seq::<
                        LogEntryView,
                    >::empty(),
                forall|id: u8| #[trigger]
                    self@.logs.contains_key(id) && !pre.drone_ids.contains(id)
                        && !pre.client_ids.contains(id) && !pre.server_ids.take(
                        i as int,
                    ).contains(id) ==> self@.logs[id] == pre.logs[id],
            decreases pre.server_ids.len() - i,
        {
            let id = self.server_ids[i];
            proof {
                assert(pre.logs.contains_key(id));
            }
            self.clear_log(id);
            proof {
                assert forall|j: int| 0 <= j < pre.drone_ids.len() implies #[trigger] self@.logs[pre.drone_ids[j]]
                    == Seq::<LogEntryView>::empty() by {
                    assert(self@.logs[pre.drone_ids[j]] == Seq::<LogEntryView>::empty() || pre.drone_ids[j]
                        == id);
                }
                assert forall|j: int| 0 <= j < pre.client_ids.len() implies #[trigger] self@.logs[pre.client_ids[j]]
                    == Seq::<LogEntryView>::empty() by {
                    assert(self@.logs[pre.client_ids[j]] == Seq::<LogEntryView>::empty() || pre.client_ids[j]
                        == id);
                }
                assert forall|j: int| 0 <= j < i + 1 implies #[trigger] self@.logs[pre.server_ids[j]]
                    == Seq::<LogEntryView>::empty() by {
                    if j < i {
                        assert(self@.logs[pre.server_ids[j]] == Seq::<LogEntryView>::empty());
                    }
                }
                assert forall|x: u8| #[trigger]
                    self@.logs.contains_key(x) && !pre.drone_ids.contains(x)
                        && !pre.client_ids.contains(x) && !pre.server_ids.take(
                        i + 1 as int,
                    ).contains(x) implies self@.logs[x] == pre.logs[x] by {
                    assert(!pre.server_ids.take(i as int).contains(x)) by {
                        if pre.server_ids.take(i as int).contains(x) {
                            let j = choose|j: int|
                                0 <= j < i && #[trigger] pre.server_ids.take(i as int)[j] == x;
                            assert(pre.server_ids.take(i + 1 as int)[j] == x);
                        }
                    }
                    assert(x != id) by {
                        assert(pre.server_ids.take(i + 1 as int)[i as int] == id);
                    }
                }
            }
            i = i + 1;
        }
        proof {
            assert forall|id: u8| #[trigger] self@.logs.contains_key(id) implies self@.logs[id]
                == Seq::<LogEntryView>::empty() by {
                assert(pre.logs.contains_key(id));
                assert(pre.all_ids().contains(id));
                if pre.drone_ids.to_set().contains(id) {
                    let j = choose|j: int|
                        0 <= j < pre.drone_ids.len() && #[trigger] pre.drone_ids[j] == id;
                    assert(self@.logs[pre.drone_ids[j]] == Seq::<LogEntryView>::empty());
                } else if pre.client_ids.to_set().contains(id) {
                    let j = choose|j: int|
                        0 <= j < pre.client_ids.len() && #[trigger] pre.client_ids[j] == id;
                    assert(self@.logs[pre.client_ids[j]] == Seq::<LogEntryView>::empty());
                } else {
                    let j = choose|j: int|
                        0 <= j < pre.server_ids.len() && #[trigger] pre.server_ids[j] == id;
                    assert(self@.logs[pre.server_ids[j]] == Seq::<LogEntryView>::empty());
                }
            }
            assert(self@ =~~= pre.with_all_logs_cleared());
        }
    }

    /// A read-only snapshot of the log of the node that matches `id`.
    pub fn get_logs(&self, id: u8) -> (r: &VecDeque<LogEntry>)
        requires
            self.wf(),
            self@.logs.contains_key(id),
        ensures
            r@.map_values(|e: LogEntry| e@) == self@.logs[id],
    {
        self.logs.get(&id).unwrap()
    }

    /// Counts one sent (for a relay: forwarded) packet of kind `kind`
    /// for the node `id` of category `cat`.
    pub fn note_packet_sent(&mut self, cat: NodeKind, id: u8, kind: PacketKind)
        requires
            old(self).wf(),
            match cat {
                NodeKind::Drone => old(self)@.drone_stats.contains_key(id) && old(
                    self,
                )@.drone_stats[id].packets_forwarded[spec_stat_index(kind)] < u64::MAX,
                NodeKind::Client => old(self)@.client_stats.contains_key(id) && old(
                    self,
                )@.client_stats[id].packets_sent[spec_stat_index(kind)] < u64::MAX,
                NodeKind::Server => old(self)@.server_stats.contains_key(id) && old(
                    self,
                )@.server_stats[id].packets_sent[spec_stat_index(kind)] < u64::MAX,
            },
        ensures
            final(self).wf(),
            final(self)@ == old(self)@.with_packet_sent(cat, id, kind),
    {
        let ghost pre = self@;
        let idx = crate::types::get_packet_stat_index(kind);
        match cat {
            NodeKind::Drone => {
                let mut st = self.drone_stats.remove(&id).unwrap();
                let cur = st.packets_forwarded[idx];
                st.packets_forwarded.set(idx, cur + 1);
                self.drone_stats.insert(id, st);
                proof {
                    assert(self@ =~~= pre.with_packet_sent(cat, id, kind));
                    assert(self@.drone_stats.dom() =~= pre.drone_stats.dom());
                }
            },
            NodeKind::Client => {
                let mut st = self.client_stats.remove(&id).unwrap();
                let cur = st.packets_sent[idx];
                st.packets_sent.set(idx, cur + 1);
                self.client_stats.insert(id, st);
                proof {
                    assert(self@ =~~= pre.with_packet_sent(cat, id, kind));
                    assert(self@.client_stats.dom() =~= pre.client_stats.dom());
                }
            },
            NodeKind::Server => {
                let mut st = self.server_stats.remove(&id).unwrap();
                let cur = st.packets_sent[idx];
                st.packets_sent.set(idx, cur + 1);
                self.server_stats.insert(id, st);
                proof {
                    assert(self@ =~~= pre.with_packet_sent(cat, id, kind));
                    assert(self@.server_stats.dom() =~= pre.server_stats.dom());
                }
            },
        }
    }

    /// Counts one received packet of kind `kind` for the node `id` of
    /// category `cat`; only clients and servers receive.
    pub fn note_packet_received(&mut self, cat: NodeKind, id: u8, kind: PacketKind)
        requires
            old(self).wf(),
            cat != NodeKind::Drone,
            match cat {
                NodeKind::Drone => false,
                NodeKind::Client => old(self)@.client_stats.contains_key(id) && old(
                    self,
                )@.client_stats[id].packets_received[spec_stat_index(kind)] < u64::MAX,
                NodeKind::Server => old(self)@.server_stats.contains_key(id) && old(
                    self,
                )@.server_stats[id].packets_received[spec_stat_index(kind)] < u64::MAX,
            },
        ensures
            final(self).wf(),
            final(self)@ == old(self)@.with_packet_received(cat, id, kind),
    {
        let ghost pre = self@;
        let idx = crate::types::get_packet_stat_index(kind);
        match cat {
            NodeKind::Drone => {
                proof {
                    assert(false);
                }
            },
            NodeKind::Client => {
                let mut st = self.client_stats.remove(&id).unwrap();
                let cur = st.packets_received[idx];
                st.packets_received.set(idx, cur + 1);
                self.client_stats.insert(id, st);
                proof {
                    assert(self@ =~~= pre.with_packet_received(cat, id, kind));
                    assert(self@.client_stats.dom() =~= pre.client_stats.dom());
                }
            },
            NodeKind::Server => {
                let mut st = self.server_stats.remove(&id).unwrap();
                let cur = st.packets_received[idx];
                st.packets_received.set(idx, cur + 1);
                self.server_stats.insert(id, st);
                proof {
                    assert(self@ =~~= pre.with_packet_received(cat, id, kind));
                    assert(self@.server_stats.dom() =~= pre.server_stats.dom());
                }
            },
        }
    }

    /// Counts one dropped fragment for the relay `id`.
    pub fn note_fragment_dropped(&mut self, id: u8)
        requires
            old(self).wf(),
            old(self)@.drone_stats.contains_key(id),
            old(self)@.drone_stats[id].fragments_dropped < u64::MAX,
        ensures
            final(self).wf(),
            final(self)@ == old(self)@.with_fragment_dropped(id),
    {
        let ghost pre = self@;
        let mut st = self.drone_stats.remove(&id).unwrap();
        st.fragments_dropped = st.fragments_dropped + 1;
        self.drone_stats.insert(id, st);
        proof {
            assert(self@ =~~= pre.with_fragment_dropped(id));
            assert(self@.drone_stats.dom() =~= pre.drone_stats.dom());
        }
    }

    /// Counts one assembled message for the node `id` of category
    /// `cat`; only clients and servers assemble.
    pub fn note_message_assembled(&mut self, cat: NodeKind, id: u8)
        requires
            old(self).wf(),
            cat != NodeKind::Drone,
            match cat {
                NodeKind::Drone => false,
                NodeKind::Client => old(self)@.client_stats.contains_key(id) && old(
                    self,
                )@.client_stats[id].messages_assembled < u64::MAX,
                NodeKind::Server => old(self)@.server_stats.contains_key(id) && old(
                    self,
                )@.server_stats[id].messages_assembled < u64::MAX,
            },
        ensures
            final(self).wf(),
            final(self)@ == old(self)@.with_message_assembled(cat, id),
    {
        let ghost pre = self@;
        match cat {
            NodeKind::Drone => {
                proof {
                    assert(false);
                }
            },
            NodeKind::Client => {
                let mut st = self.client_stats.remove(&id).unwrap();
                st.messages_assembled = st.messages_assembled + 1;
                self.client_stats.insert(id, st);
                proof {
                    assert(self@ =~~= pre.with_message_assembled(cat, id));
                    assert(self@.client_stats.dom() =~= pre.client_stats.dom());
                }
            },
            NodeKind::Server => {
                let mut st = self.server_stats.remove(&id).unwrap();
                st.messages_assembled = st.messages_assembled + 1;
                self.server_stats.insert(id, st);
                proof {
                    assert(self@ =~~= pre.with_message_assembled(cat, id));
                    assert(self@.server_stats.dom() =~= pre.server_stats.dom());
                }
            },
        }
    }

    /// Counts one fragmented message for the node `id` of category
    /// `cat`; only clients and servers fragment.
    pub fn note_message_fragmented(&mut self, cat: NodeKind, id: u8)
        requires
            old(self).wf(),
            cat != NodeKind::Drone,
            match cat {
                NodeKind::Drone => false,
                NodeKind::Client => old(self)@.client_stats.contains_key(id) && old(
                    self,
                )@.client_stats[id].messages_fragmented < u64::MAX,
                NodeKind::Server => old(self)@.server_stats.contains_key(id) && old(
                    self,
                )@.server_stats[id].messages_fragmented < u64::MAX,
            },
        ensures
            final(self).wf(),
            final(self)@ == old(self)@.with_message_fragmented(cat, id),
    {
        let ghost pre = self@;
        match cat {
            NodeKind::Drone => {
                proof {
                    assert(false);
                }
            },
            NodeKind::Client => {
                let mut st = self.client_stats.remove(&id).unwrap();
                st.messages_fragmented = st.messages_fragmented + 1;
                self.client_stats.insert(id, st);
                proof {
                    assert(self@ =~~= pre.with_message_fragmented(cat, id));
                    assert(self@.client_stats.dom() =~= pre.client_stats.dom());
                }
            },
            NodeKind::Server => {
                let mut st = self.server_stats.remove(&id).unwrap();
                st.messages_fragmented = st.messages_fragmented + 1;
                self.server_stats.insert(id, st);
                proof {
                    assert(self@ =~~= pre.with_message_fragmented(cat, id));
                    assert(self@.server_stats.dom() =~= pre.server_stats.dom());
                }
            },
        }
    }

    /// Queues a content item for the rendering layer.
    pub fn push_file(&mut self, f: ContentFile)
        requires
            old(self).wf(),
        ensures
            final(self).wf(),
            final(self)@ == old(self)@.with_file(f@),
    {
        let ghost pre = self@;
        self.files.push(f);
        proof {
            assert(self@ =~~= pre.with_file(f@));
        }
    }

    /// Takes the most recently queued pending content item, if any;
    /// single consumer, each item is handed out once.
    pub fn pop_file(&mut self) -> (r: Option<ContentFile>)
        requires
            old(self).wf(),
        ensures
            final(self).wf(),
            old(self)@.files.len() == 0 ==> r is None && final(self)@ == old(self)@,
            old(self)@.files.len() > 0 ==> r is Some && r.unwrap()@ == old(self)@.files.last()
                && final(self)@ == (HubView { files: old(self)@.files.drop_last(), ..old(self)@ }),
    {
        let ghost pre = self@;
        let r = self.files.pop();
        proof {
            if pre.files.len() > 0 {
                assert(self@ =~~= (HubView { files: pre.files.drop_last(), ..pre }));
            } else {
                assert(self@ =~~= pre);
            }
        }
        r
    }

    /// The statistics of the relay that matches `id`.
    pub fn get_drone_stats(&self, id: u8) -> (r: &DroneStats)
        requires
            self.wf(),
            self@.drone_stats.contains_key(id),
        ensures
            r@ == self@.drone_stats[id],
    {
        self.drone_stats.get(&id).unwrap()
    }

    /// The statistics of the client that matches `id`.
    pub fn get_client_stats(&self, id: u8) -> (r: &ClientStats)
        requires
            self.wf(),
            self@.client_stats.contains_key(id),
        ensures
            r@ == self@.client_stats[id],
    {
        self.client_stats.get(&id).unwrap()
    }

    /// The statistics of the server that matches `id`.
    pub fn get_server_stats(&self, id: u8) -> (r: &ServerStats)
        requires
            self.wf(),
            self@.server_stats.contains_key(id),
        ensures
            r@ == self@.server_stats[id],
    {
        self.server_stats.get(&id).unwrap()
    }

    /// The ids the hub knows for one node category.
    pub fn get_ids(&self, kind: NodeKind) -> (r: &Vec<u8>)
        ensures
            r@ == match kind {
                NodeKind::Drone => self@.drone_ids,
                NodeKind::Client => self@.client_ids,
                NodeKind::Server => self@.server_ids,
            },
    {
        match kind {
            NodeKind::Drone => &self.drone_ids,
            NodeKind::Client => &self.client_ids,
            NodeKind::Server => &self.server_ids,
        }
    }

    /// All ids the hub knows, relays first, then clients, then servers.
    pub fn get_all_ids(&self) -> (r: Vec<u8>)
        ensures
            r@ == self@.drone_ids + self@.client_ids + self@.server_ids,
    {
        let mut r: Vec<u8> = Vec::new();
        let mut i: usize = 0;
        while i < self.drone_ids.len()
            invariant
                i <= self@.drone_ids.len(),
                r@ == self@.drone_ids.take(i as int),
            decreases self@.drone_ids.len() - i,
        {
            r.push(self.drone_ids[i]);
            proof {
                assert(self@.drone_ids.take(i + 1 as int) =~= self@.drone_ids.take(i as int).push(
                    self@.drone_ids[i as int],
                ));
            }
            i = i + 1;
        }
        let mut i: usize = 0;
        while i < self.client_ids.len()
            invariant
                i <= self@.client_ids.len(),
                r@ == self@.drone_ids + self@.client_ids.take(i as int),
            decreases self@.client_ids.len() - i,
        {
            r.push(self.client_ids[i]);
            proof {
                assert(self@.client_ids.take(i + 1 as int) =~= self@.client_ids.take(i as int).push(
                    self@.client_ids[i as int],
                ));
                assert(r@ =~= self@.drone_ids + self@.client_ids.take(i + 1 as int));
            }
            i = i + 1;
        }
        let mut i: usize = 0;
        while i < self.server_ids.len()
            invariant
                i <= self@.server_ids.len(),
                r@ == self@.drone_ids + self@.client_ids + self@.server_ids.take(i as int),
            decreases self@.server_ids.len() - i,
        {
            r.push(self.server_ids[i]);
            proof {
                assert(self@.server_ids.take(i + 1 as int) =~= self@.server_ids.take(i as int).push(
                    self@.server_ids[i as int],
                ));
                assert(r@ =~= self@.drone_ids + self@.client_ids + self@.server_ids.take(
                    i + 1 as int,
                ));
            }
            i = i + 1;
        }
        proof {
            assert(self@.drone_ids.take(self@.drone_ids.len() as int) =~= self@.drone_ids);
            assert(self@.client_ids.take(self@.client_ids.len() as int) =~= self@.client_ids);
            assert(self@.server_ids.take(self@.server_ids.len() as int) =~= self@.server_ids);
        }
        r
    }
}

/// A log after a whole sequence of entries lands on it, one by one.
pub open spec fn spec_log_fold(s: Seq<LogEntryView>, es: Seq<LogEntryView>) -> Seq<LogEntryView>
    decreases es.len(),
{
    if es.len() == 0 {
        s
    } else {
        spec_log_fold(spec_log_push(s, es[0]), es.drop_first())
    }
}

/// Law of the bounded log: once enough entries have arrived to reach
/// the capacity, a log holds exactly the last `MAX_LOG_LENGTH` entries
/// ever added, in arrival order.
pub proof fn lemma_log_bounded_history(s: Seq<LogEntryView>, es: Seq<LogEntryView>)
    requires
        s.len() <= MAX_LOG_LENGTH,
        s.len() + es.len() >= MAX_LOG_LENGTH,
    ensures
        spec_log_fold(s, es) == (s + es).skip(s.len() + es.len() - MAX_LOG_LENGTH),
        spec_log_fold(s, es).len() == MAX_LOG_LENGTH,
    decreases es.len(),
{
    if es.len() == 0 {
        assert(spec_log_fold(s, es) =~= (s + es).skip(s.len() + es.len() - MAX_LOG_LENGTH));
    } else {
        let e = es[0];
        let rest = es.drop_first();
        let s1 = spec_log_push(s, e);
        if s.len() < MAX_LOG_LENGTH {
            lemma_log_bounded_history(s1, rest);
            assert(s1 + rest =~= s + es);
            assert(spec_log_fold(s, es) == spec_log_fold(s1, rest));
            assert((s1 + rest).skip(s1.len() + rest.len() - MAX_LOG_LENGTH) =~= (s + es).skip(
                s.len() + es.len() - MAX_LOG_LENGTH,
            ));
        } else {
            assert(s.len() == MAX_LOG_LENGTH);
            assert(s1 =~= s.subrange(1, s.len() as int).push(e));
            lemma_log_bounded_history(s1, rest);
            assert(s1 + rest =~= (s + es).skip(1));
            assert((s1 + rest).skip(s1.len() + rest.len() - MAX_LOG_LENGTH) =~= (s + es).skip(
                s.len() + es.len() - MAX_LOG_LENGTH,
            ));
        }
    }
}

/// Law of the reset baseline: the freshly built hub starts every node
/// of its population with an empty log and zeroed statistics, and with
/// an empty content inbox, whatever happened before the reset.
pub proof fn lemma_fresh_hub_baseline(drones: Seq<u8>, clients: Seq<u8>, servers: Seq<u8>)
    ensures
        forall|id: u8| #[trigger]
            HubView::fresh(drones, clients, servers).logs.contains_key(id) ==> HubView::fresh(
                drones,
                clients,
                servers,
            ).logs[id] == Seq::<LogEntryView>::empty(),
        forall|id: u8| #[trigger]
            HubView::fresh(drones, clients, servers).drone_stats.contains_key(id)
                ==> HubView::fresh(drones, clients, servers).drone_stats[id]
                == DroneStatsView::zero(),
        forall|id: u8| #[trigger]
            HubView::fresh(drones, clients, servers).client_stats.contains_key(id)
                ==> HubView::fresh(drones, clients, servers).client_stats[id]
                == ClientStatsView::zero(),
        forall|id: u8| #[trigger]
            HubView::fresh(drones, clients, servers).server_stats.contains_key(id)
                ==> HubView::fresh(drones, clients, servers).server_stats[id]
                == ServerStatsView::zero(),
        HubView::fresh(drones, clients, servers).files == Seq::<ContentFileView>::empty(),
{
}

} // verus!
