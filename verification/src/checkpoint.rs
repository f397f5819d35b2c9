//! The named barriers every process of a run passes, in order.

use vstd::prelude::*;

verus! {

/// A named synchronisation point of the run. Every process announces each
/// checkpoint once and waits for all other processes to announce it too, which
/// orders the phases of the run across processes.
#[derive(Clone, Copy, Debug, PartialEq, Eq, Structural)]
pub enum Checkpoint {
    /// The network shaping of every process is in place.
    NetworkConfigured,
    /// Every process is done establishing its discovery connections.
    ConnectionsEstablished,
    /// Every process has finished the scenario.
    Completed,
}

impl Checkpoint {
    /// The name under which the checkpoint is announced.
    pub open spec fn spec_name(self) -> Seq<char> {
        match self {
            Checkpoint::NetworkConfigured => "state_network_configured"@,
            Checkpoint::ConnectionsEstablished => "state_completed_establish_connections"@,
            Checkpoint::Completed => "state_completed"@,
        }
    }

    /// The place of the checkpoint in the chain, counted from zero.
    pub open spec fn position(self) -> nat {
        match self {
            Checkpoint::NetworkConfigured => 0,
            Checkpoint::ConnectionsEstablished => 1,
            Checkpoint::Completed => 2,
        }
    }

    /// The name under which the checkpoint is announced.
    pub fn name(&self) -> (s: &'static str)
        ensures
            s@ == self.spec_name(),
    {
        match self {
            Checkpoint::NetworkConfigured => "state_network_configured",
            Checkpoint::ConnectionsEstablished => "state_completed_establish_connections",
            Checkpoint::Completed => "state_completed",
        }
    }
}

/// Different checkpoints are announced under different names, so each has a
/// counter of its own at the coordination service.
pub proof fn lemma_names_distinct(a: Checkpoint, b: Checkpoint)
    ensures
        a.spec_name() == b.spec_name() <==> a == b,
{
    reveal_strlit("state_network_configured");
    reveal_strlit("state_completed_establish_connections");
    reveal_strlit("state_completed");
    assert("state_network_configured"@.len() == 24);
    assert("state_completed_establish_connections"@.len() == 37);
    assert("state_completed"@.len() == 15);
}

} // verus!
