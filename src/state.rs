use vstd::prelude::*;
use crate::config::PbftConfig;
use crate::message::{copy_bytes, PbftBlock};
use crate::message_type::PbftMessageType;

verus! {

/// Phases of one consensus round, in the order they are entered.
#[derive(Clone, Copy, Debug, PartialEq, Eq, Structural)]
pub enum PbftPhase {
    NotStarted,
    PrePreparing,
    Preparing,
    Checking,
    Committing,
    Finished,
}

#[derive(Clone, Copy, Debug, PartialEq, Eq, Structural)]
pub enum PbftMode {
    Normal,
    Checkpointing,
    ViewChanging,
}

#[derive(Clone, Copy, Debug, PartialEq, Eq, Structural)]
pub enum PbftNodeRole {
    Primary,
    Secondary,
}

/// The block under consensus at this node.
#[derive(Clone, Debug)]
pub enum WorkingBlockOption {
    NoWorkingBlock,
    /// Announced by the host, not yet accepted through a `PrePrepare`.
    TentativeWorkingBlock(Vec<u8>),
    /// Accepted through a `PrePrepare`.
    WorkingBlock(PbftBlock),
}

pub open spec fn phase_rank(p: PbftPhase) -> nat {
    match p {
        PbftPhase::NotStarted => 0,
        PbftPhase::PrePreparing => 1,
        PbftPhase::Preparing => 2,
        PbftPhase::Checking => 3,
        PbftPhase::Committing => 4,
        PbftPhase::Finished => 5,
    }
}

/// A phase change is admissible when it enters the next phase or resets the round.
pub open spec fn phase_step_ok(from: PbftPhase, to: PbftPhase) -> bool {
    to == PbftPhase::NotStarted || phase_rank(to) == phase_rank(from) + 1
}

/// The multicast type a node in phase `p` is waiting for.
pub open spec fn expected_type(p: PbftPhase) -> PbftMessageType {
    match p {
        PbftPhase::NotStarted => PbftMessageType::BlockNew,
        PbftPhase::PrePreparing => PbftMessageType::PrePrepare,
        PbftPhase::Preparing => PbftMessageType::Prepare,
        PbftPhase::Checking => PbftMessageType::Prepare,
        PbftPhase::Committing => PbftMessageType::Commit,
        PbftPhase::Finished => PbftMessageType::Unset,
    }
}

/// Byzantine tolerance of a roster of `n` nodes.
pub open spec fn max_faulty(n: nat) -> nat {
    if n == 0 { 0 } else { ((n - 1) as nat) / 3 }
}

/// Index in the roster of the primary of view `v`.
pub open spec fn primary_index(v: u64, n: nat) -> nat
    recommends n > 0,
{
    (v as nat) % n
}

/// A timer polled against a monotonic clock (milliseconds).
#[derive(Clone, Copy, Debug)]
pub struct Timeout {
    pub duration: u64,
    pub started_at: u64,
    pub active: bool,
}

pub open spec fn timer_expired(t: Timeout, now: u64) -> bool {
    t.active && now >= t.started_at && now - t.started_at >= t.duration
}

impl Timeout {
    pub fn new(duration: u64) -> (r: Timeout)
        ensures
            r.duration == duration,
            !r.active,
    {
        Timeout { duration, started_at: 0, active: false }
    }

    pub fn start(&mut self, now: u64)
        ensures
            final(self).active,
            final(self).started_at == now,
            final(self).duration == old(self).duration,
    {
        self.started_at = now;
        self.active = true;
    }

    pub fn stop(&mut self)
        ensures
            !final(self).active,
            final(self).duration == old(self).duration,
    {
        self.active = false;
    }

    pub fn is_expired(&self, now: u64) -> (r: bool)
        ensures
            r == timer_expired(*self, now),
    {
        self.active && now >= self.started_at && now - self.started_at >= self.duration
    }
}

/// Node-local consensus variables.
#[derive(Clone, Debug)]
pub struct PbftState {
    pub id: u64,
    pub peer_id: Vec<u8>,
    pub peers: Vec<Vec<u8>>,
    pub view: u64,
    pub seq_num: u64,
    pub f: u64,
    pub phase: PbftPhase,
    pub mode: PbftMode,
    pub pre_checkpoint_mode: PbftMode,
    pub role: PbftNodeRole,
    pub working_block: WorkingBlockOption,
    pub timeout: Timeout,
}

impl PbftState {
    /// The roster is non-empty, this node is in it, `f` is derived from its
    /// size, and the role is primary exactly for the views this node leads.
    pub open spec fn wf(&self) -> bool {
        &&& self.peers.len() > 0
        &&& (self.id as nat) < self.peers.len()
        &&& self.peer_id@ == self.peers@[self.id as int]@
        &&& self.f as nat == max_faulty(self.peers.len() as nat)
        &&& 2 * (self.f as int) + 1 <= u64::MAX
        &&& (self.role == PbftNodeRole::Primary) == (self.id as nat == primary_index(
            self.view,
            self.peers.len() as nat,
        ))
    }

    pub open spec fn is_primary_spec(&self) -> bool {
        self.role == PbftNodeRole::Primary
    }

    /// Fresh state of node `id` in view 0.
    pub fn new(id: u64, config: &PbftConfig) -> (r: PbftState)
        requires
            config.peers.len() > 0,
            (id as nat) < config.peers.len(),
        ensures
            r.wf(),
            r.id == id,
            r.peers.len() == config.peers.len(),
            forall|j: int| 0 <= j < r.peers.len() ==> #[trigger] r.peers@[j]@ == config.peers@[j]@,
            r.view == 0,
            r.seq_num == 0,
            r.phase == PbftPhase::NotStarted,
            r.mode == PbftMode::Normal,
            r.working_block is NoWorkingBlock,
            r.is_primary_spec() == (id == 0),
            !r.timeout.active,
            r.timeout.duration == config.view_change_timeout,
    {
        let n: usize = config.peers.len();
        let f: u64 = ((n - 1) / 3) as u64;
        let mut peers: Vec<Vec<u8>> = Vec::new();
        let mut i: usize = 0;
        while i < n
            invariant
                i <= n,
                n == config.peers.len(),
                peers.len() == i,
                forall|j: int| 0 <= j < i ==> #[trigger] peers@[j]@ == config.peers@[j]@,
            decreases n - i,
        {
            peers.push(copy_bytes(&config.peers[i]));
            i = i + 1;
        }
        let peer_id = copy_bytes(&config.peers[id as usize]);
        let role = if id == 0 { PbftNodeRole::Primary } else { PbftNodeRole::Secondary };
        PbftState {
            id,
            peer_id,
            peers,
            view: 0,
            seq_num: 0,
            f,
            phase: PbftPhase::NotStarted,
            mode: PbftMode::Normal,
            pre_checkpoint_mode: PbftMode::Normal,
            role,
            working_block: WorkingBlockOption::NoWorkingBlock,
            timeout: Timeout::new(config.view_change_timeout),
        }
    }

    pub fn is_primary(&self) -> (r: bool)
        ensures
            r == self.is_primary_spec(),
    {
        self.role == PbftNodeRole::Primary
    }

    /// The multicast type this node is waiting for in its current phase.
    pub fn check_msg_type(&self) -> (r: PbftMessageType)
        ensures
            r == expected_type(self.phase),
    {
        match self.phase {
            PbftPhase::NotStarted => PbftMessageType::BlockNew,
            PbftPhase::PrePreparing => PbftMessageType::PrePrepare,
            PbftPhase::Preparing => PbftMessageType::Prepare,
            PbftPhase::Checking => PbftMessageType::Prepare,
            PbftPhase::Committing => PbftMessageType::Commit,
            PbftPhase::Finished => PbftMessageType::Unset,
        }
    }

    /// Move to `target` if it is the next phase or `NotStarted`; otherwise
    /// change nothing and return `None`.
    pub fn switch_phase(&mut self, target: PbftPhase) -> (r: Option<PbftPhase>)
        ensures
            phase_step_ok(old(self).phase, target) ==> r == Some(target) && final(self).phase
                == target,
            !phase_step_ok(old(self).phase, target) ==> r is None && final(self).phase == old(
                self,
            ).phase,
            final(self).id == old(self).id,
            final(self).peer_id == old(self).peer_id,
            final(self).peers == old(self).peers,
            final(self).view == old(self).view,
            final(self).seq_num == old(self).seq_num,
            final(self).f == old(self).f,
            final(self).mode == old(self).mode,
            final(self).pre_checkpoint_mode == old(self).pre_checkpoint_mode,
            final(self).role == old(self).role,
            final(self).working_block == old(self).working_block,
            final(self).timeout == old(self).timeout,
    {
        let ok = match (self.phase, target) {
            (_, PbftPhase::NotStarted) => true,
            (PbftPhase::NotStarted, PbftPhase::PrePreparing) => true,
            (PbftPhase::PrePreparing, PbftPhase::Preparing) => true,
            (PbftPhase::Preparing, PbftPhase::Checking) => true,
            (PbftPhase::Checking, PbftPhase::Committing) => true,
            (PbftPhase::Committing, PbftPhase::Finished) => true,
            _ => false,
        };
        if ok {
            self.phase = target;
            Some(target)
        } else {
            None
        }
    }

    /// Peer id of this node.
    pub fn get_own_peer_id(&self) -> (r: Vec<u8>)
        ensures
            r@ == self.peer_id@,
    {
        copy_bytes(&self.peer_id)
    }

    /// Peer id of the primary of the current view.
    pub fn get_primary_peer_id(&self) -> (r: Vec<u8>)
        requires
            self.wf(),
        ensures
            r@ == self.peers@[primary_index(self.view, self.peers.len() as nat) as int]@,
    {
        let n: u64 = self.peers.len() as u64;
        copy_bytes(&self.peers[(self.view % n) as usize])
    }

    /// Enter view `view`, taking the role that the roster gives this node there.
    pub fn enter_view(&mut self, view: u64)
        requires
            old(self).wf(),
        ensures
            final(self).wf(),
            final(self).view == view,
            final(self).is_primary_spec() == (final(self).id as nat == primary_index(
                view,
                final(self).peers.len() as nat,
            )),
            final(self).id == old(self).id,
            final(self).peers == old(self).peers,
            final(self).peer_id == old(self).peer_id,
            final(self).seq_num == old(self).seq_num,
            final(self).phase == old(self).phase,
            final(self).mode == old(self).mode,
            final(self).pre_checkpoint_mode == old(self).pre_checkpoint_mode,
            final(self).working_block == old(self).working_block,
            final(self).timeout == old(self).timeout,
    {
        self.view = view;
        let n: u64 = self.peers.len() as u64;
        if self.id == view % n {
            self.role = PbftNodeRole::Primary;
        } else {
            self.role = PbftNodeRole::Secondary;
        }
    }
}

/// Once a node has moved from view `v` to view `v + 1`, it is the primary
/// exactly when it sits at position `(v + 1) mod N` of the roster, and the
/// primary's peer id is the roster entry there. When no peer id appears
/// twice in the roster, holding that peer id also makes the node the primary.
pub proof fn lemma_new_primary(st: PbftState, v: u64)
    requires
        st.wf(),
        st.view as int == v + 1,
    ensures
        st.is_primary_spec() == (st.id as nat == ((v + 1) as nat) % (st.peers.len() as nat)),
        st.is_primary_spec() ==> st.peer_id@ == st.peers@[((v + 1) as nat % (st.peers.len() as nat)) as int]@,
        (forall|i: int, j: int|
            0 <= i < st.peers.len() && 0 <= j < st.peers.len() && #[trigger] st.peers@[i]@ == #[trigger] st.peers@[j]@ ==> i == j)
            ==> (st.peer_id@ == st.peers@[((v + 1) as nat % (st.peers.len() as nat)) as int]@ ==> st.is_primary_spec()),
{
    let k = ((v + 1) as nat % (st.peers.len() as nat)) as int;
    if (forall|i: int, j: int|
        0 <= i < st.peers.len() && 0 <= j < st.peers.len() && #[trigger] st.peers@[i]@ == #[trigger] st.peers@[j]@ ==> i == j)
        && st.peer_id@ == st.peers@[k]@ {
        assert(st.peers@[st.id as int]@ == st.peers@[k]@);
    }
}

/// Every admissible phase change either enters the next phase of the round or
/// resets the round to `NotStarted`; `Finished` can only be left by a reset.
pub proof fn lemma_phase_monotone(from: PbftPhase, to: PbftPhase)
    requires
        phase_step_ok(from, to),
    ensures
        to == PbftPhase::NotStarted || phase_rank(from) < phase_rank(to),
        from == PbftPhase::Finished ==> to == PbftPhase::NotStarted,
{
}

} // verus!
