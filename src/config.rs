use vstd::prelude::*;

verus! {

/// Settings the engine runs with. Durations are in milliseconds.
#[derive(Clone, Debug)]
pub struct PbftConfig {
    /// Ordered roster of peer ids; the primary of view `v` is `peers[v mod N]`.
    pub peers: Vec<Vec<u8>>,
    /// How often the primary tries to publish a block.
    pub block_duration: u64,
    /// Number of committed blocks between checkpoints.
    pub checkpoint_period: u64,
    /// How long a pending block may wait for its commit before a view change.
    pub view_change_timeout: u64,
    /// Cadence of backlog retries and publish attempts.
    pub message_timeout: u64,
    /// Bound on retained messages between checkpoints.
    pub max_log_size: u64,
}

impl PbftConfig {
    /// A configuration with the given roster and the usual durations.
    pub fn with_peers(peers: Vec<Vec<u8>>) -> (r: PbftConfig)
        ensures
            r.peers@ == peers@,
            r.checkpoint_period == 100,
            r.view_change_timeout == 4000,
    {
        PbftConfig {
            peers,
            block_duration: 200,
            checkpoint_period: 100,
            view_change_timeout: 4000,
            message_timeout: 10,
            max_log_size: 1000,
        }
    }
}

} // verus!
