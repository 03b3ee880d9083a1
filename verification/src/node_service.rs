//! The choices a development node makes when it starts: how blocks are sealed for
//! the consensus chosen on the command line, and whether offchain workers and
//! telemetry run.

use vstd::prelude::*;

verus! {

/// The consensus chosen on the command line.
#[derive(Clone, Copy, Debug, PartialEq, Eq, Structural)]
pub enum Consensus {
    /// No block production.
    NoSealing,
    /// A block for every transaction.
    InstantSeal,
    /// Blocks on request, or every given number of milliseconds.
    ManualSeal(Option<u64>),
}

/// How the node seals blocks.
#[derive(Clone, Copy, Debug, PartialEq, Eq, Structural)]
pub enum Sealing {
    /// Nothing is sealed.
    Off,
    /// The first block is sealed at once, a seal command opens the channels, and every
    /// transaction is then sealed at once.
    Instant,
    /// Blocks are sealed on command, and a timer sends a command every `millis`.
    ManualEvery { millis: u64 },
    /// Blocks are sealed on command only.
    Manual,
}

/// What the node starts.
#[derive(Clone, Copy, Debug, PartialEq, Eq, Structural)]
pub struct NodePlan {
    pub sealing: Sealing,
    /// The consensus the RPC layer is told about.
    pub rpc_consensus: Consensus,
    pub offchain_workers: bool,
    pub telemetry: bool,
}

/// The node's plan: the sealing that the consensus asks for, offchain workers when
/// enabled, telemetry when endpoints are configured.
pub fn node_plan(consensus: Consensus, offchain_worker_enabled: bool, telemetry_endpoints: usize) -> (r: NodePlan)
    ensures
        r.sealing == (match consensus {
            Consensus::NoSealing => Sealing::Off,
            Consensus::InstantSeal => Sealing::Instant,
            Consensus::ManualSeal(Some(rate)) => Sealing::ManualEvery { millis: rate },
            Consensus::ManualSeal(None) => Sealing::Manual,
        }),
        r.rpc_consensus == consensus,
        r.offchain_workers == offchain_worker_enabled,
        r.telemetry == (telemetry_endpoints > 0),
{
    let sealing = match consensus {
        Consensus::NoSealing => Sealing::Off,
        Consensus::InstantSeal => Sealing::Instant,
        Consensus::ManualSeal(Some(rate)) => Sealing::ManualEvery { millis: rate },
        Consensus::ManualSeal(None) => Sealing::Manual,
    };
    NodePlan {
        sealing,
        rpc_consensus: consensus,
        offchain_workers: offchain_worker_enabled,
        telemetry: telemetry_endpoints > 0,
    }
}

} // verus!
