//! The lifecycle manager's decision side of a hot reset. The caller
//! first cancels and joins every live worker, then asks for the fresh
//! state: the hub rebuilt to its zeroed baseline and the topology mirror
//! rebuilt from the engine's current snapshot. Only then may new workers
//! be spawned, bound to the new hub; the old hub is discarded, so no
//! worker spawned for it can touch the new one.

use vstd::prelude::*;

use crate::hub::{HubView, SimulationData};
use crate::mirror::{spec_rebuild, TopologyMirror, TopologySnapshot};

verus! {

/// The two phases of the pipeline: running, or tearing down and
/// rebuilding. A reset is never interleaved with a concurrent reset.
#[derive(Clone, Copy, Debug, PartialEq, Eq, Structural)]
pub enum LifecyclePhase {
    Running,
    Resetting,
}

/// Everything a completed reset installs: the zeroed hub and the
/// rebuilt mirror.
pub struct ResetOutcome {
    pub hub: SimulationData,
    pub mirror: TopologyMirror,
}

/// Orders the reset sequence: cancellation and joining of the old
/// workers happens strictly between `begin_reset` and `complete_reset`,
/// so the old hub is only replaced once no old worker can still touch
/// it.
pub struct LifecycleManager {
    phase: LifecyclePhase,
}

impl LifecycleManager {
    /// The current phase.
    pub closed spec fn phase(self) -> LifecyclePhase {
        self.phase
    }

    /// A manager for a freshly started pipeline.
    pub fn new() -> (r: Self)
        ensures
            r.phase() == LifecyclePhase::Running,
    {
        LifecycleManager { phase: LifecyclePhase::Running }
    }

    /// Enters the resetting phase. The caller must now cancel every
    /// live worker and join it before completing the reset.
    pub fn begin_reset(&mut self)
        requires
            old(self).phase() == LifecyclePhase::Running,
        ensures
            final(self).phase() == LifecyclePhase::Resetting,
    {
        self.phase = LifecyclePhase::Resetting;
    }

    /// Completes the reset: builds the zeroed hub for the snapshot's
    /// node population and the mirror rebuilt from its adjacency, and
    /// returns to the running phase. Every log of the new hub is empty
    /// and every counter zero, independent of anything the old hub saw.
    pub fn complete_reset(&mut self, snapshot: &TopologySnapshot) -> (r: ResetOutcome)
        requires
            old(self).phase() == LifecyclePhase::Resetting,
            snapshot@.wf(),
            snapshot@.drone_ids.len() + snapshot@.client_ids.len() + snapshot@.server_ids.len()
                <= usize::MAX,
        ensures
            final(self).phase() == LifecyclePhase::Running,
            r.hub.wf(),
            r.hub@ == HubView::fresh(
                snapshot@.drone_ids,
                snapshot@.client_ids,
                snapshot@.server_ids,
            ),
            r.mirror.wf(),
            r.mirror@ == spec_rebuild(snapshot@),
    {
        self.phase = LifecyclePhase::Running;
        let drone_ids = snapshot.drone_ids.clone();
        let client_ids = snapshot.client_ids.clone();
        let server_ids = snapshot.server_ids.clone();
        proof {
            assert(drone_ids@ =~= snapshot@.drone_ids);
            assert(client_ids@ =~= snapshot@.client_ids);
            assert(server_ids@ =~= snapshot@.server_ids);
        }
        let hub = SimulationData::new(drone_ids, client_ids, server_ids);
        let mirror = TopologyMirror::rebuild(snapshot);
        ResetOutcome { hub, mirror }
    }
}

} // verus!
