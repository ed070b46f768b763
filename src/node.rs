use vstd::prelude::*;
use crate::config::PbftConfig;
use crate::error::PbftError;
use crate::message::{bytes_eq, copy_bytes, block_model_of, Block, BlockModel, InfoModel, MessageModel, PbftBlock, PbftMessage, PbftMessageInfo, PbftViewChange, PeerMessage};
use crate::message_log::{PbftLog, committed_spec, msgs_view, num_carrying, prepared_spec, pre_prepare_taken, selected, renumbered, kept_from};
use crate::message_type::{PbftMessageType, is_multicast_spec, type_rank};
use crate::state::{PbftMode, PbftPhase, PbftState, WorkingBlockOption, expected_type, phase_step_ok, primary_index, timer_expired};

verus! {

/// What to do with a multicast message that arrives at this point of the round.
#[derive(Clone, Copy, Debug, PartialEq, Eq, Structural)]
pub enum PbftNotReadyType {
    Proceed,
    PushToBacklog,
    AddToLog,
}

/// A request to the host validator, performed by the host after the entry
/// point returns. A `Broadcast` goes to every peer and back to this node's
/// own `on_peer_message`.
#[derive(Clone, Debug)]
pub enum ServiceAction {
    Broadcast(PeerMessage),
    InitializeBlock(Option<Vec<u8>>),
    CheckBlocks(Vec<Vec<u8>>),
    CommitBlock(Vec<u8>),
    CancelBlock,
    IgnoreBlock(Vec<u8>),
    /// Summarize, then finalize the block under construction.
    Publish,
}

/// What the host reports of its chain: the head, and the blocks it can look up by id.
#[derive(Clone, Debug)]
pub struct ChainView {
    pub head: Block,
    pub blocks: Vec<Block>,
}

/// The consensus node: its state, its message log, and the requests for the
/// host that it has issued and the host has not yet taken.
#[derive(Clone, Debug)]
pub struct PbftNode {
    pub state: PbftState,
    pub msg_log: PbftLog,
    pub actions: Vec<ServiceAction>,
}

/// The verdict on multicast message `m` for a node in state `st`.
pub open spec fn verdict_spec(st: PbftState, m: MessageModel) -> PbftNotReadyType {
    if m.info.seq_num > st.seq_num {
        PbftNotReadyType::PushToBacklog
    } else if m.info.seq_num == st.seq_num {
        if st.working_block is NoWorkingBlock {
            PbftNotReadyType::AddToLog
        } else if type_rank(m.info.msg_type) < type_rank(expected_type(st.phase)) {
            PbftNotReadyType::AddToLog
        } else if type_rank(m.info.msg_type) > type_rank(expected_type(st.phase)) {
            PbftNotReadyType::PushToBacklog
        } else {
            PbftNotReadyType::Proceed
        }
    } else {
        PbftNotReadyType::AddToLog
    }
}

/// `a` broadcasts the consensus message `(t, view, seq, signer, block)`.
pub open spec fn broadcasts(a: ServiceAction, t: PbftMessageType, view: u64, seq: u64, signer: Seq<u8>, block: BlockModel) -> bool {
    match a {
        ServiceAction::Broadcast(PeerMessage::Pbft(m)) => m@ == MessageModel {
            info: InfoModel { msg_type: t, view, seq_num: seq, signer_id: signer },
            block,
        },
        _ => false,
    }
}

/// What `_broadcast_pbft_message` does to the list of actions.
pub open spec fn broadcast_effect(st: PbftState, before: Seq<ServiceAction>, after: Seq<ServiceAction>, t: PbftMessageType, seq: u64, block: BlockModel) -> bool {
    if is_multicast_spec(t) && t != expected_type(st.phase) {
        after == before
    } else {
        after.len() == before.len() + 1 && after.take(before.len() as int) == before
            && broadcasts(after.last(), t, st.view, seq, st.peer_id@, block)
    }
}

/// The working block is the accepted block `b`.
pub open spec fn holds_accepted(w: WorkingBlockOption, b: BlockModel) -> bool {
    match w {
        WorkingBlockOption::WorkingBlock(x) => x@ == b,
        _ => false,
    }
}

/// The working block is the tentative block with id `id`.
pub open spec fn holds_tentative(w: WorkingBlockOption, id: Seq<u8>) -> bool {
    match w {
        WorkingBlockOption::TentativeWorkingBlock(x) => x@ == id,
        _ => false,
    }
}

/// The fields that fix who this node is and which view it is in.
pub open spec fn same_seat(a: PbftState, b: PbftState) -> bool {
    &&& a.id == b.id
    &&& a.peer_id == b.peer_id
    &&& a.peers == b.peers
    &&& a.view == b.view
    &&& a.f == b.f
    &&& a.role == b.role
}

/// A `PrePrepare` is accepted: it is for the current view, none is logged
/// for its view and sequence number yet, and the block it proposes is the
/// one this node announced (the primary: its one `BlockNew` there; a
/// secondary: some logged `BlockNew` carrying that block).
pub open spec fn pre_prepare_ok(st: PbftState, msgs: Seq<MessageModel>, m: MessageModel) -> bool {
    &&& m.info.view == st.view
    &&& selected(msgs, PbftMessageType::PrePrepare, m.info.view, m.info.seq_num).len() == 0
    &&& if st.is_primary_spec() {
        let bn = selected(msgs, PbftMessageType::BlockNew, m.info.view, m.info.seq_num);
        bn.len() == 1 && bn[0].block == m.block
    } else {
        num_carrying(msgs, PbftMessageType::BlockNew, m.block) >= 1
    }
}

/// The error a rejected `PrePrepare` gets, by the first check it fails.
pub open spec fn pre_prepare_error(st: PbftState, msgs: Seq<MessageModel>, m: MessageModel, r: Result<(), PbftError>) -> bool {
    let pp = selected(msgs, PbftMessageType::PrePrepare, m.info.view, m.info.seq_num);
    let bn = selected(msgs, PbftMessageType::BlockNew, m.info.view, m.info.seq_num);
    if m.info.view != st.view {
        r == Err::<(), PbftError>(PbftError::ViewMismatch(m.info.view, st.view))
    } else if pp.len() != 0 {
        r == Err::<(), PbftError>(PbftError::MessageExists(PbftMessageType::PrePrepare))
    } else if st.is_primary_spec() && bn.len() != 1 {
        r == Err::<(), PbftError>(PbftError::WrongNumMessages(PbftMessageType::BlockNew, 1, bn.len() as usize))
    } else if st.is_primary_spec() {
        r matches Err(PbftError::BlockMismatch(_, _))
    } else {
        r == Err::<(), PbftError>(PbftError::WrongNumMessages(PbftMessageType::BlockNew, 1, 0))
    }
}

/// `a` broadcasts a view change for `view` whose checkpoint is at `seq`.
pub open spec fn broadcasts_view_change(a: ServiceAction, view: u64, seq: u64, signer: Seq<u8>) -> bool {
    match a {
        ServiceAction::Broadcast(PeerMessage::ViewChange(vc)) => vc.info@ == InfoModel {
            msg_type: PbftMessageType::ViewChange,
            view,
            seq_num: seq,
            signer_id: signer,
        },
        _ => false,
    }
}

/// A new primary's requests to the host: cancel the block it was building,
/// drop the block that was under consensus, if any, and start a new block.
pub open spec fn abandon_actions(before: Seq<ServiceAction>, after: Seq<ServiceAction>, w: WorkingBlockOption) -> bool {
    let n = before.len() as int;
    &&& after.len() >= n + 2
    &&& after.take(n) == before
    &&& after[n] is CancelBlock
    &&& after.last() matches ServiceAction::InitializeBlock(None)
    &&& match w {
        WorkingBlockOption::NoWorkingBlock => after.len() == n + 2,
        WorkingBlockOption::TentativeWorkingBlock(id) => after.len() == n + 3
            && (after[n + 1] matches ServiceAction::IgnoreBlock(x) && x@ == id@),
        WorkingBlockOption::WorkingBlock(b) => after.len() == n + 3
            && (after[n + 1] matches ServiceAction::IgnoreBlock(x) && x@ == b.block_id@),
    }
}

/// The proof messages of the latest stable checkpoint; none without one.
pub open spec fn stable_proof(log: PbftLog) -> Seq<MessageModel> {
    match log.latest_stable_checkpoint {
        Some(cp) => msgs_view(cp.checkpoint_messages@),
        None => Seq::empty(),
    }
}

/// Number of distinct nodes whose logged view changes ask for `view`.
pub open spec fn view_change_votes(log: PbftLog, view: u64) -> nat {
    crate::message_log::vc_signer_list(crate::message_log::infos_view(log.view_changes@), view).to_set().len()
}

/// Copies of a list of messages.
pub fn copy_messages(v: &Vec<PbftMessage>) -> (r: Vec<PbftMessage>)
    ensures
        msgs_view(r@) == msgs_view(v@),
{
    let mut r: Vec<PbftMessage> = Vec::new();
    let mut i: usize = 0;
    while i < v.len()
        invariant
            i <= v.len(),
            msgs_view(r@) == msgs_view(v@).take(i as int),
        decreases v.len() - i,
    {
        let ghost prev = r@;
        r.push(v[i].copy());
        assert(msgs_view(r@) =~= msgs_view(prev).push(v@[i as int]@));
        assert(msgs_view(v@).take(i + 1) =~= msgs_view(v@).take(i as int).push(v@[i as int]@));
        i = i + 1;
    }
    assert(msgs_view(v@).take(v.len() as int) =~= msgs_view(v@));
    r
}

/// Some block the host knows has id `id`, and the first such block extends
/// the chain head.
pub open spec fn chain_links(chain: ChainView, id: Seq<u8>) -> bool {
    exists|i: int|
        0 <= i < chain.blocks@.len() && (#[trigger] chain.blocks@[i]).block_id@ == id && (forall|j: int|
            0 <= j < i ==> chain.blocks@[j].block_id@ != id) && chain.blocks@[i].previous_id@
            == chain.head.block_id@
}

/// A committed block may go to the host: it is the accepted working block
/// (or a later block with the same id), and it extends the chain head.
pub open spec fn commit_admissible(w: WorkingBlockOption, b: BlockModel, chain: ChainView) -> bool {
    match w {
        WorkingBlockOption::WorkingBlock(x) => x@.block_id == b.block_id && b.block_num >= x.block_num
            && chain_links(chain, b.block_id),
        _ => false,
    }
}

/// `PrePrepare` for the block this node announced, at the next sequence number:
/// handled whatever the verdict says.
pub open spec fn awaited_pre_prepare(st: PbftState, m: MessageModel) -> bool {
    holds_tentative(st.working_block, m.block.block_id) && m.info.seq_num == st.seq_num + 1
}

/// `after` is `before` with one more request at the end.
pub open spec fn appended_one(before: Seq<ServiceAction>, after: Seq<ServiceAction>) -> bool {
    after.len() == before.len() + 1 && after.take(before.len() as int) == before
}

/// `after` is the peer backlog `before` with a copy of `m` queued at the end.
pub open spec fn queued(before: Seq<PeerMessage>, after: Seq<PeerMessage>, m: MessageModel) -> bool {
    &&& after.len() == before.len() + 1
    &&& after.take(before.len() as int) == before
    &&& after.last() matches PeerMessage::Pbft(x) && x@ == m
}

/// The log after `add_message(m)`.
pub open spec fn logged(msgs: Seq<MessageModel>, m: MessageModel) -> Seq<MessageModel> {
    if pre_prepare_taken(msgs, m) {
        msgs
    } else {
        msgs.push(m)
    }
}

/// A multicast message that is not handled now: it is queued or logged as
/// the verdict says, and nothing else changes.
pub open spec fn deferred(o: PbftNode, n: PbftNode, m: MessageModel, v: PbftNotReadyType, r: Result<(), PbftError>) -> bool {
    &&& r == Err::<(), PbftError>(PbftError::NotReadyForMessage)
    &&& n.state == o.state
    &&& n.actions == o.actions
    &&& n.msg_log.view_changes == o.msg_log.view_changes
    &&& n.msg_log.block_backlog == o.msg_log.block_backlog
    &&& n.msg_log.latest_stable_checkpoint == o.msg_log.latest_stable_checkpoint
    &&& v == PbftNotReadyType::PushToBacklog ==> queued(o.msg_log.backlog@, n.msg_log.backlog@, m)
        && n.msg_log.msgs() == o.msg_log.msgs()
    &&& v == PbftNotReadyType::AddToLog ==> n.msg_log.backlog == o.msg_log.backlog
        && n.msg_log.msgs() == logged(o.msg_log.msgs(), m)
}

/// The parts of the log that handling a logged message leaves alone.
pub open spec fn side_logs_kept(o: PbftNode, n: PbftNode) -> bool {
    &&& n.msg_log.view_changes == o.msg_log.view_changes
    &&& n.msg_log.block_backlog == o.msg_log.block_backlog
    &&& n.msg_log.latest_stable_checkpoint == o.msg_log.latest_stable_checkpoint
}

/// The log that a `PrePrepare` is checked against: a secondary's `BlockNew`s
/// for its block are first renumbered to the message's view and sequence number.
pub open spec fn pre_prepare_base(st: PbftState, msgs: Seq<MessageModel>, m: MessageModel) -> Seq<MessageModel> {
    if m.info.view == st.view && selected(msgs, PbftMessageType::PrePrepare, m.info.view, m.info.seq_num).len() == 0
        && !st.is_primary_spec() {
        msgs.map_values(|x: MessageModel| renumbered(x, PbftMessageType::BlockNew, m.info.view, m.info.seq_num, m.block))
    } else {
        msgs
    }
}

/// What handling a `PrePrepare` does.
pub open spec fn pre_prepare_outcome(o: PbftNode, n: PbftNode, m: MessageModel, r: Result<(), PbftError>) -> bool {
    let v = verdict_spec(o.state, m);
    let go = awaited_pre_prepare(o.state, m) || v == PbftNotReadyType::Proceed;
    &&& !go ==> deferred(o, n, m, v, r)
    &&& go ==> (r is Ok == pre_prepare_ok(o.state, o.msg_log.msgs(), m))
        && side_logs_kept(o, n)
        && n.msg_log.backlog == o.msg_log.backlog
    &&& go && r is Err ==> pre_prepare_error(o.state, o.msg_log.msgs(), m, r)
        && same_seat(n.state, o.state)
        && n.state.phase == o.state.phase
        && n.state.mode == o.state.mode
        && n.state.working_block == o.state.working_block
        && n.actions == o.actions
        && n.msg_log.msgs() == pre_prepare_base(o.state, o.msg_log.msgs(), m)
    &&& r is Ok ==> holds_accepted(n.state.working_block, m.block)
        && n.state.phase == (if phase_step_ok(o.state.phase, PbftPhase::Preparing) { PbftPhase::Preparing } else { o.state.phase })
        && (!o.state.is_primary_spec() ==> n.state.seq_num == m.info.seq_num)
        && same_seat(n.state, o.state)
        && n.state.mode == o.state.mode
        && n.msg_log.msgs() == pre_prepare_base(o.state, o.msg_log.msgs(), m).push(m)
        && broadcast_effect(n.state, o.actions@, n.actions@, PbftMessageType::Prepare, m.info.seq_num, m.block)
}

/// What handling a `Prepare` does.
pub open spec fn prepare_outcome(o: PbftNode, n: PbftNode, m: MessageModel, r: Result<(), PbftError>) -> bool {
    let v = verdict_spec(o.state, m);
    let go = v == PbftNotReadyType::Proceed;
    let msgs1 = o.msg_log.msgs().push(m);
    &&& !go ==> deferred(o, n, m, v, r)
    &&& go ==> n.msg_log.msgs() == msgs1 && n.msg_log.backlog == o.msg_log.backlog && side_logs_kept(o, n)
        && (r is Ok == prepared_spec(msgs1, m.info.view, m.info.seq_num, m.block, o.state.f))
    &&& r is Err ==> n.state == o.state && n.actions == o.actions
    &&& r is Ok && o.state.phase != PbftPhase::Checking ==> n.state.phase == (if phase_step_ok(o.state.phase, PbftPhase::Checking) { PbftPhase::Checking } else { o.state.phase })
        && same_seat(n.state, o.state)
        && n.state.working_block == o.state.working_block
        && n.state.mode == o.state.mode
        && appended_one(o.actions@, n.actions@)
        && (n.actions@.last() matches ServiceAction::CheckBlocks(ids) && ids@.len() == 1 && ids@[0]@ == m.block.block_id)
    &&& r is Ok && o.state.phase == PbftPhase::Checking ==> n.state == o.state && n.actions == o.actions
}

/// Some block the host knows has id `id`.
pub open spec fn chain_has(chain: ChainView, id: Seq<u8>) -> bool {
    exists|i: int| 0 <= i < chain.blocks@.len() && (#[trigger] chain.blocks@[i]).block_id@ == id
}

/// How a committed block that may not go to the host is refused.
pub open spec fn commit_refusal(o: PbftNode, n: PbftNode, m: MessageModel, chain: ChainView, r: Result<(), PbftError>) -> bool {
    match o.state.working_block {
        WorkingBlockOption::WorkingBlock(x) => if !(x@.block_id == m.block.block_id && m.block.block_num >= x.block_num) {
            (r matches Err(PbftError::BlockMismatch(_, _))) && n.msg_log.backlog == o.msg_log.backlog
        } else if !chain_has(chain, m.block.block_id) {
            r == Err::<(), PbftError>(PbftError::WrongNumBlocks) && n.msg_log.backlog == o.msg_log.backlog
        } else {
            (r matches Err(PbftError::BlockMismatch(_, _))) && queued(o.msg_log.backlog@, n.msg_log.backlog@, m)
        },
        _ => r == Err::<(), PbftError>(PbftError::NoWorkingBlock) && n.msg_log.backlog == o.msg_log.backlog,
    }
}

/// What handling a `Commit` does.
pub open spec fn commit_outcome(o: PbftNode, n: PbftNode, m: MessageModel, chain: ChainView, r: Result<(), PbftError>) -> bool {
    let v = verdict_spec(o.state, m);
    let go = v == PbftNotReadyType::Proceed;
    let msgs1 = o.msg_log.msgs().push(m);
    let committed = committed_spec(msgs1, m.info.view, m.info.seq_num, m.block, o.state.f);
    let committing = o.state.phase == PbftPhase::Committing;
    &&& !go ==> deferred(o, n, m, v, r)
    &&& go ==> n.msg_log.msgs() == msgs1 && side_logs_kept(o, n)
        && (r is Ok == (committed && (committing ==> commit_admissible(o.state.working_block, m.block, chain))))
    &&& go && !committed ==> n.msg_log.backlog == o.msg_log.backlog
    &&& go && committed && committing && !commit_admissible(o.state.working_block, m.block, chain) ==> commit_refusal(o, n, m, chain, r)
    &&& go && r is Ok ==> n.msg_log.backlog == o.msg_log.backlog
    &&& r is Err ==> n.state == o.state && n.actions == o.actions
    &&& r is Ok && committing ==> n.state.phase == PbftPhase::Finished
        && n.state.working_block is NoWorkingBlock
        && same_seat(n.state, o.state)
        && n.state.mode == o.state.mode
        && n.state.seq_num == o.state.seq_num
        && appended_one(o.actions@, n.actions@)
        && (n.actions@.last() matches ServiceAction::CommitBlock(id) && id@ == m.block.block_id)
    &&& r is Ok && !committing ==> n.state == o.state && n.actions == o.actions
}

/// What handling a `Checkpoint` does.
pub open spec fn checkpoint_outcome(o: PbftNode, n: PbftNode, m: MessageModel, r: Result<(), PbftError>) -> bool {
    &&& o.msg_log.latest_checkpoint_spec() >= m.info.seq_num ==> r is Ok && n == o
    &&& o.msg_log.latest_checkpoint_spec() < m.info.seq_num ==> {
        let msgs1 = o.msg_log.msgs().push(m);
        let entering = !o.state.is_primary_spec() && o.state.mode != PbftMode::Checkpointing;
        let mode1 = if entering { PbftMode::Checkpointing } else { o.state.mode };
        let pre1 = if entering { o.state.mode } else { o.state.pre_checkpoint_mode };
        let signers = crate::message_log::num_signers(msgs1, PbftMessageType::Checkpoint, m.info.view, m.info.seq_num, m.block, false);
        let stable = mode1 == PbftMode::Checkpointing && signers >= 2 * (o.state.f as nat) + 1;
        &&& r is Ok == (mode1 != PbftMode::Checkpointing || stable)
        &&& r is Err ==> r == Err::<(), PbftError>(PbftError::WrongNumMessages(
            PbftMessageType::Checkpoint,
            (2 * o.state.f + 1) as usize,
            signers as usize,
        ))
        &&& n.state.pre_checkpoint_mode == pre1
        &&& n.state.mode == (if stable { pre1 } else { mode1 })
        &&& entering ==> appended_one(o.actions@, n.actions@)
            && broadcasts(n.actions@.last(), PbftMessageType::Checkpoint, o.state.view, m.info.seq_num,
                o.state.peer_id@, PbftBlock::empty_view())
        &&& !entering ==> n.actions == o.actions
        &&& stable ==> n.msg_log.msgs() == kept_from(msgs1, m.info.seq_num)
            && n.msg_log.latest_stable_checkpoint is Some
            && n.msg_log.latest_checkpoint_spec() == m.info.seq_num
            && forall|k: int| 0 <= k < n.msg_log.msgs().len() ==> (#[trigger] n.msg_log.msgs()[k]).info.seq_num >= m.info.seq_num
        &&& !stable ==> n.msg_log.msgs() == msgs1
            && n.msg_log.latest_stable_checkpoint == o.msg_log.latest_stable_checkpoint
        &&& same_seat(n.state, o.state)
        &&& n.state.phase == o.state.phase
        &&& n.state.seq_num == o.state.seq_num
        &&& n.state.working_block == o.state.working_block
        &&& n.msg_log.backlog == o.msg_log.backlog
        &&& n.msg_log.block_backlog == o.msg_log.block_backlog
        &&& n.msg_log.view_changes == o.msg_log.view_changes
    }
}

/// Distinct nodes asking for the view `vc` asks for, once `vc` is logged.
pub open spec fn votes_with(log: PbftLog, vc: PbftViewChange) -> nat {
    crate::message_log::vc_signer_list(
        crate::message_log::infos_view(log.view_changes@).push(vc.info@),
        vc.info.view,
    ).to_set().len()
}

/// What handling a `ViewChange` does. A node not yet changing views joins
/// once `f + 1` nodes ask for a later view, broadcasting its own vote first.
pub open spec fn view_change_outcome(o: PbftNode, n: PbftNode, vc: PbftViewChange, r: Result<(), PbftError>) -> bool {
    let votes = votes_with(o.msg_log, vc);
    let joins = o.state.mode == PbftMode::ViewChanging || (votes >= o.state.f + 1 && vc.info.view > o.state.view);
    let started = o.state.mode != PbftMode::ViewChanging && joins;
    let k = o.actions@.len() as int;
    let base = if started { n.actions@.take(k + 1) } else { o.actions@ };
    &&& crate::message_log::infos_view(n.msg_log.view_changes@) == crate::message_log::infos_view(o.msg_log.view_changes@).push(vc.info@)
    &&& n.msg_log.messages == o.msg_log.messages
    &&& n.msg_log.backlog == o.msg_log.backlog
    &&& n.msg_log.block_backlog == o.msg_log.block_backlog
    &&& n.msg_log.latest_stable_checkpoint == o.msg_log.latest_stable_checkpoint
    &&& !joins ==> r is Ok && n.state == o.state && n.actions == o.actions
    &&& started ==> n.actions@.len() > k && n.actions@.take(k) == o.actions@
        && broadcasts_view_change(n.actions@[k], (o.state.view + 1) as u64, o.msg_log.latest_checkpoint_spec(), o.state.peer_id@)
    &&& joins ==> (r is Ok == (votes >= 2 * (o.state.f as nat) + 1))
    &&& joins && r is Err ==> r == Err::<(), PbftError>(PbftError::WrongNumMessages(
            PbftMessageType::ViewChange,
            (2 * o.state.f + 1) as usize,
            votes as usize,
        ))
        && n.actions@ == base
        && n.state.mode == PbftMode::ViewChanging
        && n.state.view == o.state.view
        && n.state.phase == o.state.phase
        && n.state.working_block == o.state.working_block
    &&& joins && r is Ok ==> n.state.view == vc.info.view
        && n.state.is_primary_spec() == (n.state.id as nat == primary_index(vc.info.view, n.state.peers.len() as nat))
        && n.state.mode == PbftMode::Normal
        && n.state.phase == PbftPhase::NotStarted
        && n.state.working_block is NoWorkingBlock
        && (n.state.is_primary_spec() ==> abandon_actions(base, n.actions@, o.state.working_block))
        && (!n.state.is_primary_spec() ==> n.actions@ == base)
}

/// What `on_block_new` does with `block`, given the host's chain, at time `now`.
pub open spec fn block_new_outcome(o: PbftNode, n: PbftNode, block: Block, chain: ChainView, now: u64, r: Result<(), PbftError>) -> bool {
    &&& o.state.is_primary_spec() && o.state.seq_num == u64::MAX ==> r is Err && n == o
    &&& !(o.state.is_primary_spec() && o.state.seq_num == u64::MAX) ==> {
                let primary = o.state.is_primary_spec();
                let seq1 = if primary { (o.state.seq_num + 1) as u64 } else { o.state.seq_num };
                let admitted = block.block_num <= chain.head.block_num + 1 && o.state.phase == PbftPhase::NotStarted;
                &&& r is Ok
                &&& n.state.seq_num == seq1
                &&& same_seat(n.state, o.state)
                &&& n.state.mode == o.state.mode
                &&& admitted ==> n.state.phase == PbftPhase::PrePreparing
                    && holds_tentative(n.state.working_block, block.block_id@)
                    && n.state.timeout.active
                    && n.state.timeout.started_at == now
                    && n.msg_log.msgs() == o.msg_log.msgs().push(MessageModel {
                        info: InfoModel {
                            msg_type: PbftMessageType::BlockNew,
                            view: o.state.view,
                            seq_num: if primary { seq1 } else { 0 },
                            signer_id: o.state.peer_id@,
                        },
                        block: block_model_of(block),
                    })
                    && n.msg_log.block_backlog == o.msg_log.block_backlog
                    && (primary ==> appended_one(o.actions@, n.actions@)
                        && broadcasts(n.actions@.last(), PbftMessageType::PrePrepare, o.state.view,
                            seq1, o.state.peer_id@, block_model_of(block)))
                    && (!primary ==> n.actions == o.actions)
                &&& !admitted ==> n.state.phase == o.state.phase
                    && n.state.working_block == o.state.working_block
                    && n.msg_log.msgs() == o.msg_log.msgs()
                    && n.msg_log.block_backlog@ == o.msg_log.block_backlog@.push(block)
                    && n.actions == o.actions
                    && n.state.timeout == o.state.timeout
            }
    &&& n.msg_log.backlog == o.msg_log.backlog
    &&& n.msg_log.view_changes == o.msg_log.view_changes
    &&& n.msg_log.latest_stable_checkpoint == o.msg_log.latest_stable_checkpoint
}

/// `p` is `o` with its oldest queued peer message taken off the backlog.
pub open spec fn popped_peer(o: PbftNode, p: PbftNode) -> bool {
    &&& p.state == o.state
    &&& p.actions == o.actions
    &&& p.msg_log.messages == o.msg_log.messages
    &&& p.msg_log.view_changes == o.msg_log.view_changes
    &&& p.msg_log.block_backlog == o.msg_log.block_backlog
    &&& p.msg_log.latest_stable_checkpoint == o.msg_log.latest_stable_checkpoint
    &&& p.msg_log.checkpoint_period == o.msg_log.checkpoint_period
    &&& p.msg_log.backlog@ == o.msg_log.backlog@.drop_first()
}

/// `q` is `o` with its oldest queued block taken off the block backlog.
pub open spec fn popped_block(o: PbftNode, q: PbftNode) -> bool {
    &&& q.state == o.state
    &&& q.actions == o.actions
    &&& q.msg_log.messages == o.msg_log.messages
    &&& q.msg_log.view_changes == o.msg_log.view_changes
    &&& q.msg_log.backlog == o.msg_log.backlog
    &&& q.msg_log.latest_stable_checkpoint == o.msg_log.latest_stable_checkpoint
    &&& q.msg_log.checkpoint_period == o.msg_log.checkpoint_period
    &&& q.msg_log.block_backlog@ == o.msg_log.block_backlog@.drop_first()
}

/// First step of `retry_backlog`: the oldest queued peer message, if any, is
/// taken off the backlog and handled, leaving `mid` with result `pr`.
pub open spec fn peer_retry_step(o: PbftNode, mid: PbftNode, chain: ChainView, pr: Result<(), PbftError>) -> bool {
    if o.msg_log.backlog@.len() == 0 {
        mid == o && pr is Ok
    } else {
        exists|p: PbftNode|
            popped_peer(o, p) && #[trigger] peer_message_outcome(p, mid, o.msg_log.backlog@[0], chain, pr)
    }
}

/// Second step of `retry_backlog`: in normal mode between rounds, the oldest
/// queued block, if any, is taken off the block backlog and handled as a new
/// block. The result is that block's error, if any, and `pr` otherwise.
pub open spec fn block_retry_step(mid: PbftNode, n: PbftNode, chain: ChainView, now: u64, pr: Result<(), PbftError>, r: Result<(), PbftError>) -> bool {
    if mid.state.mode == PbftMode::Normal && mid.state.phase == PbftPhase::NotStarted
        && mid.msg_log.block_backlog@.len() > 0 {
        exists|q: PbftNode, rb: Result<(), PbftError>|
            popped_block(mid, q) && #[trigger] block_new_outcome(q, n, mid.msg_log.block_backlog@[0], chain, now, rb)
                && r == (if rb is Err { rb } else { pr })
    } else {
        n == mid && r == pr
    }
}

/// What handling any peer message does.
pub open spec fn peer_message_outcome(o: PbftNode, n: PbftNode, msg: PeerMessage, chain: ChainView, r: Result<(), PbftError>) -> bool {
    match msg {
        PeerMessage::Pbft(m) => match m.info.msg_type {
            PbftMessageType::PrePrepare => pre_prepare_outcome(o, n, m@, r),
            PbftMessageType::Prepare => prepare_outcome(o, n, m@, r),
            PbftMessageType::Commit => commit_outcome(o, n, m@, chain, r),
            PbftMessageType::Checkpoint => checkpoint_outcome(o, n, m@, r),
            _ => r is Ok && n == o,
        },
        PeerMessage::ViewChange(vc) => view_change_outcome(o, n, vc, r),
    }
}

/// Index of the first block of `blocks` with id `id`.
pub fn find_block(blocks: &Vec<Block>, id: &Vec<u8>) -> (r: Option<usize>)
    ensures
        r is None ==> forall|i: int| 0 <= i < blocks@.len() ==> (#[trigger] blocks@[i]).block_id@ != id@,
        r matches Some(i) ==> i < blocks@.len() && blocks@[i as int].block_id@ == id@ && forall|j: int|
            0 <= j < i ==> (#[trigger] blocks@[j]).block_id@ != id@,
{
    let mut i: usize = 0;
    while i < blocks.len()
        invariant
            i <= blocks.len(),
            forall|j: int| 0 <= j < i ==> (#[trigger] blocks@[j]).block_id@ != id@,
        decreases blocks.len() - i,
    {
        if bytes_eq(&blocks[i].block_id, id) {
            return Some(i);
        }
        i = i + 1;
    }
    None
}

impl PbftNode {
    pub open spec fn wf(&self) -> bool {
        self.state.wf() && self.msg_log.wf()
    }

    /// A node `id` in view 0; the primary asks the host to start a block.
    pub fn new(id: u64, config: &PbftConfig) -> (r: PbftNode)
        requires
            config.peers.len() > 0,
            (id as nat) < config.peers.len(),
        ensures
            r.wf(),
            r.state.id == id,
            r.state.view == 0,
            r.state.seq_num == 0,
            r.state.phase == PbftPhase::NotStarted,
            r.state.mode == PbftMode::Normal,
            r.state.working_block is NoWorkingBlock,
            r.state.is_primary_spec() == (id == 0),
            r.msg_log.msgs().len() == 0,
            r.msg_log.latest_stable_checkpoint is None,
            r.msg_log.backlog@.len() == 0,
            r.msg_log.block_backlog@.len() == 0,
            r.msg_log.view_changes@.len() == 0,
            id == 0 ==> r.actions@.len() == 1 && r.actions@[0] matches ServiceAction::InitializeBlock(None),
            id != 0 ==> r.actions@.len() == 0,
    {
        let state = PbftState::new(id, config);
        let msg_log = PbftLog::new(config);
        let mut actions: Vec<ServiceAction> = Vec::new();
        if state.is_primary() {
            actions.push(ServiceAction::InitializeBlock(None));
        }
        PbftNode { state, msg_log, actions }
    }

    /// Decide whether a multicast message can be handled now.
    pub fn _handle_multicast(&self, msg: &PbftMessage) -> (r: PbftNotReadyType)
        ensures
            r == verdict_spec(self.state, msg@),
    {
        let seq = msg.info.seq_num;
        if seq > self.state.seq_num {
            PbftNotReadyType::PushToBacklog
        } else if seq == self.state.seq_num {
            if let WorkingBlockOption::NoWorkingBlock = self.state.working_block {
                return PbftNotReadyType::AddToLog;
            }
            let expecting = self.state.check_msg_type();
            if msg.info.msg_type.precedes(&expecting) {
                PbftNotReadyType::AddToLog
            } else if expecting.precedes(&msg.info.msg_type) {
                PbftNotReadyType::PushToBacklog
            } else {
                PbftNotReadyType::Proceed
            }
        } else {
            PbftNotReadyType::AddToLog
        }
    }

    /// Apply the decision of `_handle_multicast`: queue the message, or log
    /// it; in both cases the message gets no further handling for now.
    pub fn _handle_not_ready(&mut self, not_ready: PbftNotReadyType, msg: PbftMessage) -> (r: Result<(), PbftError>)
        requires
            old(self).wf(),
        ensures
            final(self).wf(),
            final(self).state == old(self).state,
            final(self).actions == old(self).actions,
            r is Ok == (not_ready == PbftNotReadyType::Proceed),
            r is Err ==> r == Err::<(), PbftError>(PbftError::NotReadyForMessage),
            not_ready == PbftNotReadyType::PushToBacklog ==> queued(old(self).msg_log.backlog@, final(self).msg_log.backlog@, msg@)
                && final(self).msg_log.msgs() == old(self).msg_log.msgs(),
            not_ready == PbftNotReadyType::AddToLog ==> final(self).msg_log.backlog == old(self).msg_log.backlog
                && final(self).msg_log.msgs() == if pre_prepare_taken(old(self).msg_log.msgs(), msg@) {
                    old(self).msg_log.msgs()
                } else {
                    old(self).msg_log.msgs().push(msg@)
                },
            not_ready == PbftNotReadyType::Proceed ==> final(self).msg_log == old(self).msg_log,
            final(self).msg_log.latest_stable_checkpoint == old(self).msg_log.latest_stable_checkpoint,
            final(self).msg_log.block_backlog == old(self).msg_log.block_backlog,
            final(self).msg_log.view_changes == old(self).msg_log.view_changes,
            final(self).msg_log.checkpoint_period == old(self).msg_log.checkpoint_period,
    {
        match not_ready {
            PbftNotReadyType::PushToBacklog => {
                let ghost before = self.msg_log.backlog@;
                self.msg_log.push_backlog(PeerMessage::Pbft(msg));
                assert(self.msg_log.backlog@.take(before.len() as int) =~= before);
                Err(PbftError::NotReadyForMessage)
            },
            PbftNotReadyType::AddToLog => {
                self.msg_log.add_message(msg);
                Err(PbftError::NotReadyForMessage)
            },
            PbftNotReadyType::Proceed => Ok(()),
        }
    }

    /// Broadcast a consensus message signed by this node, unless it is a
    /// multicast message of a type this node's phase does not send.
    pub fn _broadcast_pbft_message(&mut self, seq_num: u64, msg_type: PbftMessageType, block: PbftBlock)
        ensures
            broadcast_effect(old(self).state, old(self).actions@, final(self).actions@, msg_type, seq_num, block@),
            final(self).state == old(self).state,
            final(self).msg_log == old(self).msg_log,
    {
        let expected = self.state.check_msg_type();
        if msg_type.is_multicast() && msg_type != expected {
            return ;
        }
        let info = PbftMessageInfo::new(msg_type, self.state.view, seq_num, &self.state.peer_id);
        let msg = PbftMessage { info, block };
        let ghost before = self.actions@;
        self.actions.push(ServiceAction::Broadcast(PeerMessage::Pbft(msg)));
        assert(self.actions@.take(before.len() as int) =~= before);
    }

    /// Accept a `PrePrepare` (see `pre_prepare_ok`). A secondary first takes
    /// the message's sequence number and renumbers its `BlockNew`s for that
    /// block to it.
    pub fn _handle_pre_prepare(&mut self, msg: &PbftMessage) -> (r: Result<(), PbftError>)
        requires
            old(self).wf(),
        ensures
            final(self).wf(),
            r is Ok == pre_prepare_ok(old(self).state, old(self).msg_log.msgs(), msg@),
            r is Ok ==> holds_accepted(final(self).state.working_block, msg@.block),
            r is Err ==> final(self).state.working_block == old(self).state.working_block
                && pre_prepare_error(old(self).state, old(self).msg_log.msgs(), msg@, r),
            ({
                let renumbers = msg@.info.view == old(self).state.view && selected(
                    old(self).msg_log.msgs(),
                    PbftMessageType::PrePrepare,
                    msg@.info.view,
                    msg@.info.seq_num,
                ).len() == 0 && !old(self).state.is_primary_spec();
                &&& renumbers ==> final(self).state.seq_num == msg@.info.seq_num
                    && final(self).msg_log.msgs() == old(self).msg_log.msgs().map_values(
                    |m: MessageModel| renumbered(m, PbftMessageType::BlockNew, msg@.info.view, msg@.info.seq_num, msg@.block),
                )
                &&& !renumbers ==> final(self).state.seq_num == old(self).state.seq_num
                    && final(self).msg_log.msgs() == old(self).msg_log.msgs()
            }),
            same_seat(final(self).state, old(self).state),
            final(self).state.phase == old(self).state.phase,
            final(self).state.mode == old(self).state.mode,
            final(self).state.pre_checkpoint_mode == old(self).state.pre_checkpoint_mode,
            final(self).state.timeout == old(self).state.timeout,
            final(self).actions == old(self).actions,
            final(self).msg_log.backlog == old(self).msg_log.backlog,
            final(self).msg_log.block_backlog == old(self).msg_log.block_backlog,
            final(self).msg_log.view_changes == old(self).msg_log.view_changes,
            final(self).msg_log.latest_stable_checkpoint == old(self).msg_log.latest_stable_checkpoint,
            final(self).msg_log.checkpoint_period == old(self).msg_log.checkpoint_period,
    {
        let view = msg.info.view;
        let seq = msg.info.seq_num;
        if view != self.state.view {
            return Err(PbftError::ViewMismatch(view, self.state.view));
        }
        let existing = self.msg_log.get_messages_of_type(PbftMessageType::PrePrepare, seq, view);
        if existing.len() != 0 {
            return Err(PbftError::MessageExists(PbftMessageType::PrePrepare));
        }
        if self.state.is_primary() {
            let block_new_msgs = self.msg_log.get_messages_of_type(PbftMessageType::BlockNew, seq, view);
            if block_new_msgs.len() != 1 {
                return Err(PbftError::WrongNumMessages(PbftMessageType::BlockNew, 1, block_new_msgs.len()));
            }
            assert(msgs_view(block_new_msgs@)[0] == block_new_msgs@[0]@);
            if !block_new_msgs[0].block.same_as(&msg.block) {
                return Err(PbftError::BlockMismatch(block_new_msgs[0].block.copy(), msg.block.copy()));
            }
        } else {
            self.state.seq_num = seq;
            let num_updated = self.msg_log.fix_seq_nums(PbftMessageType::BlockNew, seq, view, &msg.block);
            if num_updated < 1 {
                return Err(PbftError::WrongNumMessages(PbftMessageType::BlockNew, 1, num_updated));
            }
        }
        self.state.working_block = WorkingBlockOption::WorkingBlock(msg.block.copy());
        Ok(())
    }

    /// Take part in a checkpoint: a secondary that is not checkpointing yet
    /// enters checkpointing mode and re-signs the message; once `2f + 1`
    /// nodes have signed it, the checkpoint is stable, the log is pruned and
    /// the mode from before the checkpoint returns.
    pub fn _handle_checkpoint(&mut self, msg: &PbftMessage) -> (r: Result<(), PbftError>)
        requires
            old(self).wf(),
            msg@.info.msg_type == PbftMessageType::Checkpoint,
        ensures
            final(self).wf(),
            ({
                let entering = !old(self).state.is_primary_spec() && old(self).state.mode != PbftMode::Checkpointing;
                let mode1 = if entering { PbftMode::Checkpointing } else { old(self).state.mode };
                let pre1 = if entering { old(self).state.mode } else { old(self).state.pre_checkpoint_mode };
                let stable = mode1 == PbftMode::Checkpointing && crate::message_log::num_signers(
                    old(self).msg_log.msgs(),
                    PbftMessageType::Checkpoint,
                    msg@.info.view,
                    msg@.info.seq_num,
                    msg@.block,
                    false,
                ) >= 2 * (old(self).state.f as nat) + 1;
                &&& r is Ok == (mode1 != PbftMode::Checkpointing || stable)
                &&& r is Err ==> r == Err::<(), PbftError>(PbftError::WrongNumMessages(
                    PbftMessageType::Checkpoint,
                    (2 * old(self).state.f + 1) as usize,
                    crate::message_log::num_signers(old(self).msg_log.msgs(), PbftMessageType::Checkpoint,
                        msg@.info.view, msg@.info.seq_num, msg@.block, false) as usize,
                ))
                &&& entering ==> final(self).actions@.len() == old(self).actions@.len() + 1
                    && final(self).actions@.take(old(self).actions@.len() as int) == old(self).actions@
                    && broadcasts(final(self).actions@.last(), PbftMessageType::Checkpoint, old(self).state.view,
                        msg@.info.seq_num, old(self).state.peer_id@, PbftBlock::empty_view())
                &&& !entering ==> final(self).actions == old(self).actions
                &&& final(self).state.pre_checkpoint_mode == pre1
                &&& stable ==> final(self).state.mode == pre1
                    && final(self).msg_log.msgs() == kept_from(old(self).msg_log.msgs(), msg@.info.seq_num)
                    && final(self).msg_log.latest_checkpoint_spec() == msg@.info.seq_num
                    && final(self).msg_log.latest_stable_checkpoint is Some
                &&& !stable ==> final(self).state.mode == mode1
                    && final(self).msg_log == old(self).msg_log
            }),
            same_seat(final(self).state, old(self).state),
            final(self).state.seq_num == old(self).state.seq_num,
            final(self).state.phase == old(self).state.phase,
            final(self).state.working_block == old(self).state.working_block,
            final(self).state.timeout == old(self).state.timeout,
            final(self).msg_log.backlog == old(self).msg_log.backlog,
            final(self).msg_log.block_backlog == old(self).msg_log.block_backlog,
            final(self).msg_log.view_changes == old(self).msg_log.view_changes,
            final(self).msg_log.checkpoint_period == old(self).msg_log.checkpoint_period,
    {
        if !self.state.is_primary() && self.state.mode != PbftMode::Checkpointing {
            self.state.pre_checkpoint_mode = self.state.mode;
            self.state.mode = PbftMode::Checkpointing;
            self._broadcast_pbft_message(msg.info.seq_num, PbftMessageType::Checkpoint, PbftBlock::empty());
        }
        if self.state.mode == PbftMode::Checkpointing {
            let needed: u64 = 2 * self.state.f + 1;
            self.msg_log.check_msg_against_log(msg, needed)?;
            self.msg_log.garbage_collect(msg.info.seq_num, msg.info.view);
            self.state.mode = self.state.pre_checkpoint_mode;
        }
        Ok(())
    }

    /// Move to the view that `vc` asks for once `2f + 1` nodes have asked for
    /// it. A node that leads the new view abandons the block in progress and
    /// starts a new one. Every node then begins the round afresh.
    pub fn _handle_view_change(&mut self, vc: &PbftViewChange) -> (r: Result<(), PbftError>)
        requires
            old(self).wf(),
        ensures
            final(self).wf(),
            r is Ok == (view_change_votes(old(self).msg_log, vc.info.view) >= 2 * (old(self).state.f as nat) + 1),
            r is Ok ==> final(self).state.view == vc.info.view
                && final(self).state.is_primary_spec() == (final(self).state.id as nat == primary_index(
                    vc.info.view,
                    final(self).state.peers.len() as nat,
                ))
                && final(self).state.working_block is NoWorkingBlock
                && final(self).state.phase == PbftPhase::NotStarted
                && final(self).state.mode == PbftMode::Normal
                && !final(self).state.timeout.active
                && (final(self).state.is_primary_spec() ==> abandon_actions(old(self).actions@, final(self).actions@,
                    old(self).state.working_block))
                && (!final(self).state.is_primary_spec() ==> final(self).actions == old(self).actions),
            r is Err ==> final(self).state == old(self).state && final(self).actions == old(self).actions
                && r == Err::<(), PbftError>(PbftError::WrongNumMessages(
                    PbftMessageType::ViewChange,
                    (2 * old(self).state.f + 1) as usize,
                    view_change_votes(old(self).msg_log, vc.info.view) as usize,
                )),
            final(self).state.id == old(self).state.id,
            final(self).state.peers == old(self).state.peers,
            final(self).state.seq_num == old(self).state.seq_num,
            final(self).msg_log == old(self).msg_log,
    {
        let needed: u64 = 2 * self.state.f + 1;
        self.msg_log.check_view_change_quorum(vc, needed)?;
        self.state.enter_view(vc.info.view);
        if self.state.is_primary() {
            let ghost before = self.actions@;
            self.actions.push(ServiceAction::CancelBlock);
            match &self.state.working_block {
                WorkingBlockOption::WorkingBlock(b) => {
                    self.actions.push(ServiceAction::IgnoreBlock(copy_bytes(&b.block_id)));
                },
                WorkingBlockOption::TentativeWorkingBlock(id) => {
                    self.actions.push(ServiceAction::IgnoreBlock(copy_bytes(id)));
                },
                WorkingBlockOption::NoWorkingBlock => {},
            }
            self.actions.push(ServiceAction::InitializeBlock(None));
            assert(self.actions@.take(before.len() as int) =~= before);
        }
        self.state.working_block = WorkingBlockOption::NoWorkingBlock;
        self.state.phase = PbftPhase::NotStarted;
        self.state.mode = PbftMode::Normal;
        self.state.timeout.stop();
        Ok(())
    }

    /// Suspect the primary: enter view-changing mode and broadcast a vote for
    /// the next view, carrying the latest stable checkpoint (sequence number 0
    /// and no proof when there is none). Does nothing when already changing views.
    pub fn start_view_change(&mut self) -> (r: Result<(), PbftError>)
        requires
            old(self).wf(),
        ensures
            final(self).wf(),
            old(self).state.mode == PbftMode::ViewChanging ==> r is Ok && *final(self) == *old(self),
            old(self).state.mode != PbftMode::ViewChanging && old(self).state.view == u64::MAX ==> r is Err
                && *final(self) == *old(self),
            old(self).state.mode != PbftMode::ViewChanging && old(self).state.view < u64::MAX ==> r is Ok
                && final(self).state.mode == PbftMode::ViewChanging
                && final(self).actions@.len() == old(self).actions@.len() + 1
                && final(self).actions@.take(old(self).actions@.len() as int) == old(self).actions@
                && broadcasts_view_change(final(self).actions@.last(), (old(self).state.view + 1) as u64,
                    old(self).msg_log.latest_checkpoint_spec(), old(self).state.peer_id@)
                && (final(self).actions@.last() matches ServiceAction::Broadcast(PeerMessage::ViewChange(vc))
                    && msgs_view(vc.checkpoint_messages@) == stable_proof(old(self).msg_log)),
            same_seat(final(self).state, old(self).state),
            final(self).state.seq_num == old(self).state.seq_num,
            final(self).state.phase == old(self).state.phase,
            final(self).state.working_block == old(self).state.working_block,
            final(self).state.timeout == old(self).state.timeout,
            final(self).state.pre_checkpoint_mode == old(self).state.pre_checkpoint_mode,
            final(self).msg_log == old(self).msg_log,
    {
        if self.state.mode == PbftMode::ViewChanging {
            return Ok(());
        }
        if self.state.view == u64::MAX {
            return Err(PbftError::InternalError("view number exhausted".to_owned()));
        }
        self.state.mode = PbftMode::ViewChanging;
        let (stable_seq, checkpoint_messages) = match &self.msg_log.latest_stable_checkpoint {
            Some(cp) => (cp.seq_num, copy_messages(&cp.checkpoint_messages)),
            None => {
                let empty: Vec<PbftMessage> = Vec::new();
                assert(msgs_view(empty@) =~= Seq::<MessageModel>::empty());
                (0, empty)
            },
        };
        let info = PbftMessageInfo::new(PbftMessageType::ViewChange, self.state.view + 1, stable_seq, &self.state.peer_id);
        let vc = PbftViewChange { info, checkpoint_messages };
        let ghost before = self.actions@;
        self.actions.push(ServiceAction::Broadcast(PeerMessage::ViewChange(vc)));
        assert(self.actions@.take(before.len() as int) =~= before);
        Ok(())
    }

    /// The primary starts a checkpoint at its current sequence number, unless
    /// one is already under way.
    pub fn start_checkpoint(&mut self) -> (r: Result<(), PbftError>)
        requires
            old(self).wf(),
        ensures
            final(self).wf(),
            r is Ok,
            !old(self).state.is_primary_spec() || old(self).state.mode == PbftMode::Checkpointing ==> *final(self) == *old(self),
            old(self).state.is_primary_spec() && old(self).state.mode != PbftMode::Checkpointing ==>
                final(self).state.mode == PbftMode::Checkpointing
                && final(self).state.pre_checkpoint_mode == old(self).state.mode
                && final(self).actions@.len() == old(self).actions@.len() + 1
                && final(self).actions@.take(old(self).actions@.len() as int) == old(self).actions@
                && broadcasts(final(self).actions@.last(), PbftMessageType::Checkpoint, old(self).state.view,
                    old(self).state.seq_num, old(self).state.peer_id@, PbftBlock::empty_view()),
            same_seat(final(self).state, old(self).state),
            final(self).state.seq_num == old(self).state.seq_num,
            final(self).state.phase == old(self).state.phase,
            final(self).state.working_block == old(self).state.working_block,
            final(self).state.timeout == old(self).state.timeout,
            final(self).msg_log == old(self).msg_log,
    {
        if !self.state.is_primary() {
            return Ok(());
        }
        if self.state.mode == PbftMode::Checkpointing {
            return Ok(());
        }
        self.state.pre_checkpoint_mode = self.state.mode;
        self.state.mode = PbftMode::Checkpointing;
        let s = self.state.seq_num;
        self._broadcast_pbft_message(s, PbftMessageType::Checkpoint, PbftBlock::empty());
        Ok(())
    }

    fn _on_pre_prepare(&mut self, m: PbftMessage) -> (r: Result<(), PbftError>)
        requires
            old(self).wf(),
            m.info.msg_type == PbftMessageType::PrePrepare,
        ensures
            final(self).wf(),
            pre_prepare_outcome(*old(self), *final(self), m@, r),
    {
        let verdict = self._handle_multicast(&m);
        let awaited = match &self.state.working_block {
            WorkingBlockOption::TentativeWorkingBlock(id) => bytes_eq(id, &m.block.block_id)
                && m.info.seq_num > self.state.seq_num && m.info.seq_num - self.state.seq_num == 1,
            _ => false,
        };
        if !awaited {
            self._handle_not_ready(verdict, m.copy())?;
        }
        let ghost before = self.msg_log.msgs();
        self._handle_pre_prepare(&m)?;
        proof {
            crate::message_log::lemma_none_selected(before, PbftMessageType::PrePrepare, m.info.view, m.info.seq_num,
                PbftMessageType::BlockNew, m.info.view, m.info.seq_num, m@.block);
        }
        let seq = m.info.seq_num;
        let block = m.block.copy();
        self.msg_log.add_message(m);
        self.state.switch_phase(PbftPhase::Preparing);
        self._broadcast_pbft_message(seq, PbftMessageType::Prepare, block);
        Ok(())
    }

    fn _on_prepare(&mut self, m: PbftMessage) -> (r: Result<(), PbftError>)
        requires
            old(self).wf(),
            m.info.msg_type == PbftMessageType::Prepare,
        ensures
            final(self).wf(),
            prepare_outcome(*old(self), *final(self), m@, r),
    {
        let verdict = self._handle_multicast(&m);
        self._handle_not_ready(verdict, m.copy())?;
        self.msg_log.add_message(m.copy());
        self.msg_log.prepared(&m, self.state.f)?;
        if self.state.phase != PbftPhase::Checking {
            self.state.switch_phase(PbftPhase::Checking);
            let ghost before = self.actions@;
            self.actions.push(ServiceAction::CheckBlocks(vec![copy_bytes(&m.block.block_id)]));
            assert(self.actions@.take(before.len() as int) =~= before);
        }
        Ok(())
    }

    fn _on_commit(&mut self, m: PbftMessage, chain: &ChainView) -> (r: Result<(), PbftError>)
        requires
            old(self).wf(),
            m.info.msg_type == PbftMessageType::Commit,
        ensures
            final(self).wf(),
            commit_outcome(*old(self), *final(self), m@, *chain, r),
    {
        let verdict = self._handle_multicast(&m);
        self._handle_not_ready(verdict, m.copy())?;
        self.msg_log.add_message(m.copy());
        self.msg_log.committed(&m, self.state.f)?;
        if self.state.phase == PbftPhase::Committing {
            let wb = match &self.state.working_block {
                WorkingBlockOption::WorkingBlock(b) => b.copy(),
                _ => {
                    return Err(PbftError::NoWorkingBlock);
                },
            };
            if !(bytes_eq(&m.block.block_id, &wb.block_id) && m.block.block_num >= wb.block_num) {
                return Err(PbftError::BlockMismatch(m.block.copy(), wb));
            }
            let i = match find_block(&chain.blocks, &m.block.block_id) {
                Some(i) => i,
                None => {
                    return Err(PbftError::WrongNumBlocks);
                },
            };
            if !bytes_eq(&chain.blocks[i].previous_id, &chain.head.block_id) {
                proof {
                    if chain_links(*chain, m@.block.block_id) {
                        let w = choose|w: int|
                            0 <= w < chain.blocks@.len() && (#[trigger] chain.blocks@[w]).block_id@
                                == m@.block.block_id && (forall|j: int|
                                0 <= j < w ==> chain.blocks@[j].block_id@ != m@.block.block_id)
                                && chain.blocks@[w].previous_id@ == chain.head.block_id@;
                        assert(w == i as int);
                    }
                }
                let err = PbftError::BlockMismatch(m.block.copy(), wb);
                let ghost queue = self.msg_log.backlog@;
                self.msg_log.push_backlog(PeerMessage::Pbft(m));
                assert(self.msg_log.backlog@.take(queue.len() as int) =~= queue);
                return Err(err);
            }
            let ghost before = self.actions@;
            self.actions.push(ServiceAction::CommitBlock(copy_bytes(&m.block.block_id)));
            assert(self.actions@.take(before.len() as int) =~= before);
            self.state.switch_phase(PbftPhase::Finished);
            self.state.working_block = WorkingBlockOption::NoWorkingBlock;
        }
        Ok(())
    }

    fn _on_checkpoint(&mut self, m: PbftMessage) -> (r: Result<(), PbftError>)
        requires
            old(self).wf(),
            m.info.msg_type == PbftMessageType::Checkpoint,
        ensures
            final(self).wf(),
            checkpoint_outcome(*old(self), *final(self), m@, r),
    {
        if self.msg_log.get_latest_checkpoint() >= m.info.seq_num {
            return Ok(());
        }
        self.msg_log.add_message(m.copy());
        let ghost logged = self.msg_log.msgs();
        let r = self._handle_checkpoint(&m);
        proof {
            crate::message_log::lemma_stable_checkpoint_prunes(logged, m.info.seq_num);
        }
        r
    }

    fn _on_view_change(&mut self, vc: PbftViewChange) -> (r: Result<(), PbftError>)
        requires
            old(self).wf(),
        ensures
            final(self).wf(),
            view_change_outcome(*old(self), *final(self), vc, r),
    {
        let logged = PbftViewChange { info: vc.info.copy(), checkpoint_messages: copy_messages(&vc.checkpoint_messages) };
        let ghost before = crate::message_log::infos_view(self.msg_log.view_changes@);
        let ghost start = self.actions@;
        self.msg_log.add_view_change(logged);
        assert(crate::message_log::infos_view(self.msg_log.view_changes@) =~= before.push(vc.info@));
        if self.state.mode != PbftMode::ViewChanging {
            let f1: u64 = self.state.f + 1;
            if self.msg_log.check_view_change_quorum(&vc, f1).is_ok() && vc.info.view > self.state.view {
                self.start_view_change()?;
            } else {
                return Ok(());
            }
        }
        let ghost mid = self.actions@;
        let r = self._handle_view_change(&vc);
        proof {
            assert(self.actions@.take(mid.len() as int) =~= mid);
            if mid.len() == start.len() + 1 {
                assert(self.actions@.take(start.len() as int) =~= mid.take(start.len() as int));
                assert(self.actions@[start.len() as int] == mid[start.len() as int]);
            }
        }
        r
    }

    /// Handle a message from a peer, or from this node's own broadcast.
    /// Multicast messages that arrive early are queued, late ones only logged.
    pub fn on_peer_message(&mut self, msg: PeerMessage, chain: &ChainView) -> (r: Result<(), PbftError>)
        requires
            old(self).wf(),
        ensures
            final(self).wf(),
            peer_message_outcome(*old(self), *final(self), msg, *chain, r),
    {
        match msg {
            PeerMessage::Pbft(m) => match m.info.msg_type {
                PbftMessageType::PrePrepare => self._on_pre_prepare(m),
                PbftMessageType::Prepare => self._on_prepare(m),
                PbftMessageType::Commit => self._on_commit(m, chain),
                PbftMessageType::Checkpoint => self._on_checkpoint(m),
                _ => Ok(()),
            },
            PeerMessage::ViewChange(vc) => self._on_view_change(vc),
        }
    }

    /// The host announces a candidate block. The primary takes the next
    /// sequence number for it; a secondary waits for the primary's. A block
    /// more than one past the chain head, or one that arrives while a round
    /// is under way, goes to the block backlog. Otherwise it becomes the
    /// tentative working block, the view-change timer starts, and the primary
    /// proposes it with a `PrePrepare`.
    pub fn on_block_new(&mut self, block: Block, chain: &ChainView, now: u64) -> (r: Result<(), PbftError>)
        requires
            old(self).wf(),
        ensures
            final(self).wf(),
            block_new_outcome(*old(self), *final(self), block, *chain, now, r),
    {
        let primary = self.state.is_primary();
        if primary {
            if self.state.seq_num == u64::MAX {
                return Err(PbftError::InternalError("sequence number exhausted".to_owned()));
            }
            self.state.seq_num = self.state.seq_num + 1;
        }
        let pbft_block = PbftBlock::from_block(&block);
        let stamp: u64 = if primary { self.state.seq_num } else { 0 };
        let info = PbftMessageInfo::new(PbftMessageType::BlockNew, self.state.view, stamp, &self.state.peer_id);
        let msg = PbftMessage { info, block: pbft_block.copy() };
        let head_num = chain.head.block_num;
        if (block.block_num > head_num && block.block_num - head_num > 1)
            || self.state.switch_phase(PbftPhase::PrePreparing).is_none() {
            self.msg_log.push_block_backlog(block);
            return Ok(());
        }
        self.msg_log.add_message(msg);
        self.state.working_block = WorkingBlockOption::TentativeWorkingBlock(copy_bytes(&block.block_id));
        self.state.timeout.start(now);
        if primary {
            let s = self.state.seq_num;
            self._broadcast_pbft_message(s, PbftMessageType::PrePrepare, pbft_block);
        }
        Ok(())
    }

    /// The host committed a block. At the end of a round the primary asks
    /// for a new block on top of it, the round resets, and the primary starts
    /// a checkpoint when the period is complete. The view-change timer stops.
    pub fn on_block_commit(&mut self, block_id: Vec<u8>) -> (r: Result<(), PbftError>)
        requires
            old(self).wf(),
        ensures
            final(self).wf(),
            r is Ok,
            !final(self).state.timeout.active,
            old(self).state.phase == PbftPhase::Finished ==> final(self).state.phase == PbftPhase::NotStarted,
            old(self).state.phase != PbftPhase::Finished ==> final(self).state.phase == old(self).state.phase
                && final(self).actions == old(self).actions
                && final(self).state.mode == old(self).state.mode,
            old(self).state.phase == PbftPhase::Finished && !old(self).state.is_primary_spec() ==>
                final(self).actions == old(self).actions && final(self).state.mode == old(self).state.mode,
            old(self).state.phase == PbftPhase::Finished && old(self).state.is_primary_spec() ==> {
                let k = old(self).actions@.len() as int;
                let starts = old(self).state.mode != PbftMode::Checkpointing && old(self).msg_log.checkpoint_period > 0
                    && old(self).state.seq_num % old(self).msg_log.checkpoint_period == 0;
                &&& final(self).actions@.len() == k + 1 + (if starts { 1int } else { 0 })
                &&& final(self).actions@.take(k) == old(self).actions@
                &&& final(self).actions@[k] matches ServiceAction::InitializeBlock(Some(id)) && id@ == block_id@
                &&& starts ==> final(self).state.mode == PbftMode::Checkpointing
                    && final(self).state.pre_checkpoint_mode == old(self).state.mode
                    && broadcasts(final(self).actions@[k + 1], PbftMessageType::Checkpoint, old(self).state.view,
                        old(self).state.seq_num, old(self).state.peer_id@, PbftBlock::empty_view())
                &&& !starts ==> final(self).state.mode == old(self).state.mode
            },
            same_seat(final(self).state, old(self).state),
            final(self).state.seq_num == old(self).state.seq_num,
            final(self).state.working_block == old(self).state.working_block,
            final(self).msg_log == old(self).msg_log,
    {
        if self.state.phase == PbftPhase::Finished {
            let ghost before = self.actions@;
            if self.state.is_primary() {
                self.actions.push(ServiceAction::InitializeBlock(Some(block_id)));
                assert(self.actions@.take(before.len() as int) =~= before);
            }
            let ghost pushed = self.actions@;
            self.state.switch_phase(PbftPhase::NotStarted);
            if self.msg_log.at_checkpoint(self.state.seq_num) {
                self.start_checkpoint()?;
                proof {
                    if pushed.len() > before.len() {
                        assert(self.actions@.take(pushed.len() as int)[before.len() as int] == self.actions@[before.len() as int]);
                        assert(self.actions@.take(before.len() as int) =~= pushed.take(before.len() as int));
                    }
                }
            }
        }
        self.state.timeout.stop();
        Ok(())
    }

    /// The host found block `block_id` valid: enter the commit phase and vote
    /// to commit the block, as the host reports it.
    pub fn on_block_valid(&mut self, block_id: Vec<u8>, chain: &ChainView) -> (r: Result<(), PbftError>)
        requires
            old(self).wf(),
        ensures
            final(self).wf(),
            final(self).state.phase == (if phase_step_ok(old(self).state.phase, PbftPhase::Committing) {
                PbftPhase::Committing
            } else {
                old(self).state.phase
            }),
            r is Ok == exists|i: int| 0 <= i < chain.blocks@.len() && (#[trigger] chain.blocks@[i]).block_id@ == block_id@,
            r is Err ==> final(self).actions == old(self).actions && r == Err::<(), PbftError>(PbftError::WrongNumBlocks),
            r is Ok ==> exists|i: int|
                0 <= i < chain.blocks@.len() && (#[trigger] chain.blocks@[i]).block_id@ == block_id@
                    && (forall|j: int| 0 <= j < i ==> chain.blocks@[j].block_id@ != block_id@)
                    && broadcast_effect(final(self).state, old(self).actions@, final(self).actions@,
                    PbftMessageType::Commit, old(self).state.seq_num, block_model_of(chain.blocks@[i])),
            same_seat(final(self).state, old(self).state),
            final(self).state.seq_num == old(self).state.seq_num,
            final(self).state.mode == old(self).state.mode,
            final(self).state.working_block == old(self).state.working_block,
            final(self).msg_log == old(self).msg_log,
    {
        self.state.switch_phase(PbftPhase::Committing);
        match find_block(&chain.blocks, &block_id) {
            None => Err(PbftError::WrongNumBlocks),
            Some(i) => {
                let s = self.state.seq_num;
                self._broadcast_pbft_message(s, PbftMessageType::Commit, PbftBlock::from_block(&chain.blocks[i]));
                Ok(())
            },
        }
    }

    /// The primary, between rounds, asks the host to publish the block it is building.
    pub fn try_publish(&mut self) -> (r: Result<(), PbftError>)
        ensures
            r is Ok,
            final(self).state == old(self).state,
            final(self).msg_log == old(self).msg_log,
            old(self).state.is_primary_spec() && old(self).state.phase == PbftPhase::NotStarted ==>
                final(self).actions@ == old(self).actions@.push(ServiceAction::Publish),
            !(old(self).state.is_primary_spec() && old(self).state.phase == PbftPhase::NotStarted) ==>
                final(self).actions == old(self).actions,
    {
        if self.state.is_primary() && self.state.phase == PbftPhase::NotStarted {
            self.actions.push(ServiceAction::Publish);
        }
        Ok(())
    }

    /// Whether the view-change timer has run out at time `now`.
    pub fn check_timeout_expired(&self, now: u64) -> (r: bool)
        ensures
            r == timer_expired(self.state.timeout, now),
    {
        self.state.timeout.is_expired(now)
    }

    /// Retry the oldest queued peer message; then, in normal mode between
    /// rounds, the oldest queued block. Reports how the peer message fared.
    pub fn retry_backlog(&mut self, chain: &ChainView, now: u64) -> (r: Result<(), PbftError>)
        requires
            old(self).wf(),
        ensures
            final(self).wf(),
            exists|mid: PbftNode, pr: Result<(), PbftError>|
                #[trigger] peer_retry_step(*old(self), mid, *chain, pr) && block_retry_step(mid, *final(self), *chain, now, pr, r),
    {
        let mut peer_res: Result<(), PbftError> = Ok(());
        let ghost start = *self;
        let ghost mut popped = *self;
        match self.msg_log.pop_backlog() {
            Some(m) => {
                proof {
                    popped = *self;
                }
                peer_res = self.on_peer_message(m, chain);
                proof {
                    assert(popped_peer(start, popped));
                    assert(peer_message_outcome(popped, *self, start.msg_log.backlog@[0], *chain, peer_res));
                }
            },
            None => {},
        }
        let ghost mid = *self;
        assert(peer_retry_step(start, mid, *chain, peer_res));
        if self.state.mode == PbftMode::Normal && self.state.phase == PbftPhase::NotStarted {
            match self.msg_log.pop_block_backlog() {
                Some(b) => {
                    let ghost q = *self;
                    let rb = self.on_block_new(b, chain, now);
                    proof {
                        assert(popped_block(mid, q));
                        assert(block_new_outcome(q, *self, mid.msg_log.block_backlog@[0], *chain, now, rb));
                    }
                    if rb.is_err() {
                        return rb;
                    }
                },
                None => {},
            }
        }
        peer_res
    }

    /// Hand the pending host requests over, oldest first, and forget them.
    pub fn take_actions(&mut self) -> (r: Vec<ServiceAction>)
        ensures
            r@ == old(self).actions@,
            final(self).actions@.len() == 0,
            final(self).state == old(self).state,
            final(self).msg_log == old(self).msg_log,
    {
        let mut r: Vec<ServiceAction> = Vec::new();
        std::mem::swap(&mut r, &mut self.actions);
        r
    }
}

} // verus!
