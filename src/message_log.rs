use vstd::prelude::*;
use crate::config::PbftConfig;
use crate::error::PbftError;
use crate::message::{bytes_eq, copy_bytes, Block, BlockModel, MessageModel, InfoModel, PbftBlock, PbftMessage, PbftViewChange, PeerMessage};
use crate::message_type::PbftMessageType;

verus! {

broadcast use vstd::seq_lib::group_seq_properties;

pub open spec fn msgs_view(v: Seq<PbftMessage>) -> Seq<MessageModel> {
    v.map_values(|m: PbftMessage| m@)
}

pub open spec fn infos_view(v: Seq<PbftViewChange>) -> Seq<InfoModel> {
    v.map_values(|m: PbftViewChange| m.info@)
}

pub open spec fn bytes_view(v: Seq<Vec<u8>>) -> Seq<Seq<u8>> {
    v.map_values(|b: Vec<u8>| b@)
}

/// `m` has type `t` and belongs to `(view, seq)`.
pub open spec fn has_key(m: MessageModel, t: PbftMessageType, view: u64, seq: u64) -> bool {
    m.info.msg_type == t && m.info.view == view && m.info.seq_num == seq
}

/// Two messages that are both `PrePrepare`s for the same view and sequence number.
pub open spec fn conflicting(a: MessageModel, b: MessageModel) -> bool {
    a.info.msg_type == PbftMessageType::PrePrepare && has_key(
        b,
        PbftMessageType::PrePrepare,
        a.info.view,
        a.info.seq_num,
    )
}

/// The messages of `msgs` of type `t` at `(view, seq)`, in log order.
pub open spec fn selected(msgs: Seq<MessageModel>, t: PbftMessageType, view: u64, seq: u64) -> Seq<
    MessageModel,
>
    decreases msgs.len(),
{
    if msgs.len() == 0 {
        Seq::empty()
    } else {
        let rest = selected(msgs.drop_last(), t, view, seq);
        if has_key(msgs.last(), t, view, seq) {
            rest.push(msgs.last())
        } else {
            rest
        }
    }
}

/// Signers of the messages of type `t` at `(view, seq)` that carry `block`
/// (any block when `check_block` is false), in log order, repeats included.
pub open spec fn signer_list(
    msgs: Seq<MessageModel>,
    t: PbftMessageType,
    view: u64,
    seq: u64,
    block: BlockModel,
    check_block: bool,
) -> Seq<Seq<u8>>
    decreases msgs.len(),
{
    if msgs.len() == 0 {
        Seq::empty()
    } else {
        let rest = signer_list(msgs.drop_last(), t, view, seq, block, check_block);
        let m = msgs.last();
        if has_key(m, t, view, seq) && (!check_block || m.block == block) {
            rest.push(m.info.signer_id)
        } else {
            rest
        }
    }
}

/// Number of distinct signers of matching messages.
pub open spec fn num_signers(
    msgs: Seq<MessageModel>,
    t: PbftMessageType,
    view: u64,
    seq: u64,
    block: BlockModel,
    check_block: bool,
) -> nat {
    signer_list(msgs, t, view, seq, block, check_block).to_set().len()
}

/// Signers of the view changes voting for `view`, repeats included.
pub open spec fn vc_signer_list(vcs: Seq<InfoModel>, view: u64) -> Seq<Seq<u8>>
    decreases vcs.len(),
{
    if vcs.len() == 0 {
        Seq::empty()
    } else {
        let rest = vc_signer_list(vcs.drop_last(), view);
        if vcs.last().view == view {
            rest.push(vcs.last().signer_id)
        } else {
            rest
        }
    }
}

/// Exactly one `PrePrepare` at `(view, seq)`, carrying `block`, and `2f + 1`
/// distinct signers of `Prepare`s for that block.
pub open spec fn prepared_spec(msgs: Seq<MessageModel>, view: u64, seq: u64, block: BlockModel, f: u64) -> bool {
    let pp = selected(msgs, PbftMessageType::PrePrepare, view, seq);
    &&& pp.len() == 1
    &&& pp[0].block == block
    &&& num_signers(msgs, PbftMessageType::Prepare, view, seq, block, true) >= 2 * (f as nat) + 1
}

/// Prepared, and `2f + 1` distinct signers of `Commit`s for the same block.
pub open spec fn committed_spec(msgs: Seq<MessageModel>, view: u64, seq: u64, block: BlockModel, f: u64) -> bool {
    &&& prepared_spec(msgs, view, seq, block, f)
    &&& num_signers(msgs, PbftMessageType::Commit, view, seq, block, true) >= 2 * (f as nat) + 1
}

/// The messages of `msgs` with a sequence number of at least `seq`, in order.
pub open spec fn kept_from(msgs: Seq<MessageModel>, seq: u64) -> Seq<MessageModel>
    decreases msgs.len(),
{
    if msgs.len() == 0 {
        Seq::empty()
    } else {
        let rest = kept_from(msgs.drop_last(), seq);
        if msgs.last().info.seq_num >= seq {
            rest.push(msgs.last())
        } else {
            rest
        }
    }
}

/// `m` with its `BlockNew` renumbered to `(view, seq)` when it carries `block`.
pub open spec fn renumbered(m: MessageModel, t: PbftMessageType, view: u64, seq: u64, block: BlockModel) -> MessageModel {
    if m.info.msg_type == t && m.block == block {
        MessageModel { info: InfoModel { view, seq_num: seq, ..m.info }, ..m }
    } else {
        m
    }
}

/// Some message of `msgs` has type `t` and belongs to `(view, seq)`.
pub open spec fn key_present(msgs: Seq<MessageModel>, t: PbftMessageType, view: u64, seq: u64) -> bool {
    exists|i: int| 0 <= i < msgs.len() && #[trigger] has_key(msgs[i], t, view, seq)
}

/// `m` is a `PrePrepare` for a view and sequence number that already have one.
pub open spec fn pre_prepare_taken(msgs: Seq<MessageModel>, m: MessageModel) -> bool {
    m.info.msg_type == PbftMessageType::PrePrepare && key_present(
        msgs,
        PbftMessageType::PrePrepare,
        m.info.view,
        m.info.seq_num,
    )
}

pub open spec fn no_conflicts(msgs: Seq<MessageModel>) -> bool {
    forall|i: int, j: int|
        0 <= i < msgs.len() && 0 <= j < msgs.len() && #[trigger] conflicting(msgs[i], msgs[j]) ==> i
            == j
}

/// Number of messages of type `t` that carry `block`.
pub open spec fn num_carrying(msgs: Seq<MessageModel>, t: PbftMessageType, block: BlockModel) -> nat
    decreases msgs.len(),
{
    if msgs.len() == 0 {
        0
    } else {
        num_carrying(msgs.drop_last(), t, block) + if msgs.last().info.msg_type == t
            && msgs.last().block == block {
            1nat
        } else {
            0nat
        }
    }
}

/// Each message that garbage collection keeps comes from the old log and has
/// a sequence number of at least `seq`.
pub proof fn lemma_kept_from_elems(msgs: Seq<MessageModel>, seq: u64)
    ensures
        forall|k: int|
            0 <= k < kept_from(msgs, seq).len() ==> (#[trigger] kept_from(msgs, seq)[k]).info.seq_num
                >= seq && exists|j: int| 0 <= j < msgs.len() && msgs[j] == kept_from(msgs, seq)[k],
        kept_from(msgs, seq).len() <= msgs.len(),
    decreases msgs.len(),
{
    if msgs.len() > 0 {
        let d = msgs.drop_last();
        lemma_kept_from_elems(d, seq);
        assert forall|k: int| 0 <= k < kept_from(msgs, seq).len() implies (#[trigger] kept_from(
            msgs,
            seq,
        )[k]).info.seq_num >= seq && exists|j: int|
            0 <= j < msgs.len() && msgs[j] == kept_from(msgs, seq)[k] by {
            if k < kept_from(d, seq).len() {
                let j = choose|j: int| 0 <= j < d.len() && d[j] == kept_from(d, seq)[k];
                assert(d[j] == msgs[j]);
                assert(kept_from(d, seq)[k] == kept_from(msgs, seq)[k]);
            } else {
                assert(msgs[msgs.len() - 1] == kept_from(msgs, seq)[k]);
            }
        }
    }
}

/// Garbage collection keeps the log free of conflicting `PrePrepare`s.
pub proof fn lemma_kept_from_no_conflicts(msgs: Seq<MessageModel>, seq: u64)
    requires
        no_conflicts(msgs),
    ensures
        no_conflicts(kept_from(msgs, seq)),
    decreases msgs.len(),
{
    if msgs.len() > 0 {
        let d = msgs.drop_last();
        let x = msgs.last();
        assert forall|i: int, j: int|
            0 <= i < d.len() && 0 <= j < d.len() && #[trigger] conflicting(d[i], d[j]) implies i
                == j by {
            assert(conflicting(msgs[i], msgs[j]));
        }
        lemma_kept_from_no_conflicts(d, seq);
        lemma_kept_from_elems(d, seq);
        let kd = kept_from(d, seq);
        let k = kept_from(msgs, seq);
        if x.info.seq_num >= seq {
            assert forall|i: int, j: int|
                0 <= i < k.len() && 0 <= j < k.len() && #[trigger] conflicting(k[i], k[j]) implies i
                    == j by {
                let last = kd.len() as int;
                if i < last && j == last {
                    let w = choose|w: int| 0 <= w < d.len() && d[w] == kd[i];
                    assert(conflicting(msgs[w], msgs[msgs.len() - 1]));
                } else if j < last && i == last {
                    let w = choose|w: int| 0 <= w < d.len() && d[w] == kd[j];
                    assert(conflicting(msgs[msgs.len() - 1], msgs[w]));
                } else if i < last && j < last {
                    assert(conflicting(kd[i], kd[j]));
                }
            }
        }
    }
}

/// With no message of type `t` selected at `(view, seq)`, none is present,
/// also after renumbering messages of another type.
pub proof fn lemma_none_selected(msgs: Seq<MessageModel>, t: PbftMessageType, view: u64, seq: u64, rt: PbftMessageType, rview: u64, rseq: u64, rblock: BlockModel)
    requires
        selected(msgs, t, view, seq).len() == 0,
        rt != t,
    ensures
        !key_present(msgs, t, view, seq),
        !key_present(msgs.map_values(|m: MessageModel| renumbered(m, rt, rview, rseq, rblock)), t, view, seq),
    decreases msgs.len(),
{
    if msgs.len() > 0 {
        let d = msgs.drop_last();
        if !has_key(msgs.last(), t, view, seq) {
            lemma_none_selected(d, t, view, seq, rt, rview, rseq, rblock);
            assert forall|i: int| 0 <= i < msgs.len() implies !#[trigger] has_key(msgs[i], t, view, seq) by {
                if i < d.len() {
                    assert(msgs[i] == d[i]);
                }
            }
        }
    }
    let mapped = msgs.map_values(|m: MessageModel| renumbered(m, rt, rview, rseq, rblock));
    assert forall|i: int| 0 <= i < mapped.len() implies !#[trigger] has_key(mapped[i], t, view, seq) by {
        assert(mapped[i] == renumbered(msgs[i], rt, rview, rseq, rblock));
        assert(!has_key(msgs[i], t, view, seq));
    }
}

/// Two logged `PrePrepare`s for the same view and sequence number are the
/// same message.
pub proof fn lemma_pre_prepare_unique(log: PbftLog, i: int, j: int)
    requires
        log.wf(),
        0 <= i < log.msgs().len(),
        0 <= j < log.msgs().len(),
        log.msgs()[i].info.msg_type == PbftMessageType::PrePrepare,
        log.msgs()[j].info.msg_type == PbftMessageType::PrePrepare,
        log.msgs()[i].info.view == log.msgs()[j].info.view,
        log.msgs()[i].info.seq_num == log.msgs()[j].info.seq_num,
    ensures
        log.msgs()[i] == log.msgs()[j],
{
    assert(conflicting(log.msgs()[i], log.msgs()[j]));
}

/// Whenever a block is committed at a view and sequence number, it is also
/// prepared there.
pub proof fn lemma_committed_implies_prepared(
    msgs: Seq<MessageModel>,
    view: u64,
    seq: u64,
    block: BlockModel,
    f: u64,
)
    requires
        committed_spec(msgs, view, seq, block, f),
    ensures
        prepared_spec(msgs, view, seq, block, f),
{
}

/// After a stable checkpoint at `seq`, every message left in the log has a
/// sequence number of at least `seq`.
pub proof fn lemma_stable_checkpoint_prunes(msgs: Seq<MessageModel>, seq: u64)
    ensures
        forall|k: int|
            0 <= k < kept_from(msgs, seq).len() ==> (#[trigger] kept_from(msgs, seq)[k]).info.seq_num
                >= seq,
{
    lemma_kept_from_elems(msgs, seq);
}

/// A stable checkpoint and the `Checkpoint` messages that prove it.
#[derive(Clone, Debug)]
pub struct PbftStableCheckpoint {
    pub seq_num: u64,
    pub checkpoint_messages: Vec<PbftMessage>,
}

/// Messages this node has received or sent, its two backlogs, and its latest
/// stable checkpoint.
#[derive(Clone, Debug)]
pub struct PbftLog {
    pub messages: Vec<PbftMessage>,
    pub view_changes: Vec<PbftViewChange>,
    /// Peer messages to retry later, oldest first.
    pub backlog: Vec<PeerMessage>,
    /// Host blocks not yet admissible, oldest first.
    pub block_backlog: Vec<Block>,
    pub latest_stable_checkpoint: Option<PbftStableCheckpoint>,
    pub checkpoint_period: u64,
    pub max_log_size: u64,
}

impl PbftLog {
    pub open spec fn msgs(&self) -> Seq<MessageModel> {
        msgs_view(self.messages@)
    }

    /// At most one `PrePrepare` per view and sequence number.
    pub open spec fn wf(&self) -> bool {
        no_conflicts(self.msgs())
    }

    pub open spec fn latest_checkpoint_spec(&self) -> u64 {
        match self.latest_stable_checkpoint {
            Some(cp) => cp.seq_num,
            None => 0,
        }
    }

    pub fn new(config: &PbftConfig) -> (r: PbftLog)
        ensures
            r.wf(),
            r.messages@.len() == 0,
            r.view_changes@.len() == 0,
            r.backlog@.len() == 0,
            r.block_backlog@.len() == 0,
            r.latest_stable_checkpoint is None,
            r.checkpoint_period == config.checkpoint_period,
            r.max_log_size == config.max_log_size,
    {
        let r = PbftLog {
            messages: Vec::new(),
            view_changes: Vec::new(),
            backlog: Vec::new(),
            block_backlog: Vec::new(),
            latest_stable_checkpoint: None,
            checkpoint_period: config.checkpoint_period,
            max_log_size: config.max_log_size,
        };
        assert(r.msgs() =~= Seq::<MessageModel>::empty());
        r
    }

    /// Whether the log holds a message of type `t` at `(view, seq)`.
    pub fn has_message_of_type(&self, t: PbftMessageType, view: u64, seq: u64) -> (r: bool)
        ensures
            r == key_present(self.msgs(), t, view, seq),
    {
        let mut i: usize = 0;
        while i < self.messages.len()
            invariant
                i <= self.messages.len(),
                forall|j: int| 0 <= j < i ==> !#[trigger] has_key(self.msgs()[j], t, view, seq),
            decreases self.messages.len() - i,
        {
            let m = &self.messages[i];
            if m.info.msg_type == t && m.info.view == view && m.info.seq_num == seq {
                assert(has_key(self.msgs()[i as int], t, view, seq));
                return true;
            }
            i = i + 1;
        }
        false
    }

    /// Log a message. A second `PrePrepare` for a view and sequence number
    /// that already has one is not logged.
    pub fn add_message(&mut self, msg: PbftMessage)
        requires
            old(self).wf(),
        ensures
            final(self).wf(),
            final(self).msgs() == if pre_prepare_taken(old(self).msgs(), msg@) {
                old(self).msgs()
            } else {
                old(self).msgs().push(msg@)
            },
            final(self).view_changes == old(self).view_changes,
            final(self).backlog == old(self).backlog,
            final(self).block_backlog == old(self).block_backlog,
            final(self).latest_stable_checkpoint == old(self).latest_stable_checkpoint,
            final(self).checkpoint_period == old(self).checkpoint_period,
    {
        if msg.info.msg_type.is_multicast() && msg.info.msg_type.rank() == 1 {
            let taken = self.has_message_of_type(
                PbftMessageType::PrePrepare,
                msg.info.view,
                msg.info.seq_num,
            );
            if taken {
                return ;
            }
        }
        let ghost before = self.msgs();
        self.messages.push(msg);
        assert(self.msgs() =~= before.push(msg@));
        assert forall|i: int, j: int|
            0 <= i < self.msgs().len() && 0 <= j < self.msgs().len() && #[trigger] conflicting(
                self.msgs()[i],
                self.msgs()[j],
            ) implies i == j by {
            let n = before.len() as int;
            if i == n && j < n {
                assert(has_key(before[j], PbftMessageType::PrePrepare, msg@.info.view, msg@.info.seq_num));
            } else if j == n && i < n {
                assert(has_key(before[i], PbftMessageType::PrePrepare, msg@.info.view, msg@.info.seq_num));
            }
        }
    }

    /// Copies of the messages of type `t` at `(view, seq)`.
    pub fn get_messages_of_type(&self, t: PbftMessageType, seq: u64, view: u64) -> (r: Vec<PbftMessage>)
        ensures
            msgs_view(r@) == selected(self.msgs(), t, view, seq),
    {
        let mut r: Vec<PbftMessage> = Vec::new();
        let mut i: usize = 0;
        while i < self.messages.len()
            invariant
                i <= self.messages.len(),
                msgs_view(r@) == selected(self.msgs().take(i as int), t, view, seq),
            decreases self.messages.len() - i,
        {
            let ghost prev = r@;
            let m = &self.messages[i];
            assert(self.msgs().take(i + 1).drop_last() =~= self.msgs().take(i as int));
            if m.info.msg_type == t && m.info.view == view && m.info.seq_num == seq {
                r.push(m.copy());
                assert(msgs_view(r@) =~= msgs_view(prev).push(m@));
            }
            i = i + 1;
        }
        assert(self.msgs().take(self.messages.len() as int) =~= self.msgs());
        r
    }

    /// Signers of the matching messages, repeats included.
    fn collect_signers(
        &self,
        t: PbftMessageType,
        view: u64,
        seq: u64,
        block: &PbftBlock,
        check_block: bool,
    ) -> (r: Vec<Vec<u8>>)
        ensures
            bytes_view(r@) == signer_list(self.msgs(), t, view, seq, block@, check_block),
    {
        let mut r: Vec<Vec<u8>> = Vec::new();
        let mut i: usize = 0;
        while i < self.messages.len()
            invariant
                i <= self.messages.len(),
                bytes_view(r@) == signer_list(self.msgs().take(i as int), t, view, seq, block@, check_block),
            decreases self.messages.len() - i,
        {
            let ghost prev = r@;
            let m = &self.messages[i];
            assert(self.msgs().take(i + 1).drop_last() =~= self.msgs().take(i as int));
            if m.info.msg_type == t && m.info.view == view && m.info.seq_num == seq && (!check_block
                || m.block.same_as(block)) {
                r.push(copy_bytes(&m.info.signer_id));
                assert(bytes_view(r@) =~= bytes_view(prev).push(m.info.signer_id@));
            }
            i = i + 1;
        }
        assert(self.msgs().take(self.messages.len() as int) =~= self.msgs());
        r
    }

    /// Signers of the logged view changes for `view`, repeats included.
    fn collect_vc_signers(&self, view: u64) -> (r: Vec<Vec<u8>>)
        ensures
            bytes_view(r@) == vc_signer_list(infos_view(self.view_changes@), view),
    {
        let ghost vcs = infos_view(self.view_changes@);
        let mut r: Vec<Vec<u8>> = Vec::new();
        let mut i: usize = 0;
        while i < self.view_changes.len()
            invariant
                i <= self.view_changes.len(),
                vcs == infos_view(self.view_changes@),
                bytes_view(r@) == vc_signer_list(vcs.take(i as int), view),
            decreases self.view_changes.len() - i,
        {
            let ghost prev = r@;
            let m = &self.view_changes[i];
            assert(vcs.take(i + 1).drop_last() =~= vcs.take(i as int));
            if m.info.view == view {
                r.push(copy_bytes(&m.info.signer_id));
                assert(bytes_view(r@) =~= bytes_view(prev).push(m.info.signer_id@));
            }
            i = i + 1;
        }
        assert(vcs.take(self.view_changes.len() as int) =~= vcs);
        r
    }

    /// Whether the log has at least `required` distinct signers of messages
    /// like `msg` (same type, view and sequence number).
    pub fn check_msg_against_log(&self, msg: &PbftMessage, required: u64) -> (r: Result<(), PbftError>)
        ensures
            r is Ok == (num_signers(self.msgs(), msg@.info.msg_type, msg@.info.view, msg@.info.seq_num, msg@.block, false) >= required),
            r is Err ==> r == Err::<(), PbftError>(PbftError::WrongNumMessages(
                msg.info.msg_type,
                required as usize,
                num_signers(self.msgs(), msg@.info.msg_type, msg@.info.view, msg@.info.seq_num, msg@.block, false) as usize,
            )),
    {
        let signers = self.collect_signers(msg.info.msg_type, msg.info.view, msg.info.seq_num, &msg.block, false);
        let n = num_unique(&signers);
        if (n as u64) < required {
            Err(PbftError::WrongNumMessages(msg.info.msg_type, required as usize, n))
        } else {
            Ok(())
        }
    }

    /// Whether at least `required` distinct nodes have asked for the view that `vc` asks for.
    pub fn check_view_change_quorum(&self, vc: &PbftViewChange, required: u64) -> (r: Result<(), PbftError>)
        ensures
            r is Ok == (vc_signer_list(infos_view(self.view_changes@), vc.info.view).to_set().len() >= required),
            r is Err ==> r == Err::<(), PbftError>(PbftError::WrongNumMessages(
                PbftMessageType::ViewChange,
                required as usize,
                vc_signer_list(infos_view(self.view_changes@), vc.info.view).to_set().len() as usize,
            )),
    {
        let signers = self.collect_vc_signers(vc.info.view);
        let n = num_unique(&signers);
        if (n as u64) < required {
            Err(PbftError::WrongNumMessages(PbftMessageType::ViewChange, required as usize, n))
        } else {
            Ok(())
        }
    }

    /// `Ok` exactly when the log proves `msg`'s block prepared at its view
    /// and sequence number.
    pub fn prepared(&self, msg: &PbftMessage, f: u64) -> (r: Result<(), PbftError>)
        requires
            2 * (f as int) + 1 <= u64::MAX,
        ensures
            r is Ok == prepared_spec(self.msgs(), msg@.info.view, msg@.info.seq_num, msg@.block, f),
    {
        let pp = self.get_messages_of_type(PbftMessageType::PrePrepare, msg.info.seq_num, msg.info.view);
        if pp.len() != 1 {
            return Err(PbftError::WrongNumMessages(PbftMessageType::PrePrepare, 1, pp.len()));
        }
        assert(msgs_view(pp@)[0] == pp@[0]@);
        if !pp[0].block.same_as(&msg.block) {
            return Err(PbftError::BlockMismatch(pp[0].block.copy(), msg.block.copy()));
        }
        let signers = self.collect_signers(PbftMessageType::Prepare, msg.info.view, msg.info.seq_num, &msg.block, true);
        let n = num_unique(&signers);
        let needed: u64 = 2 * f + 1;
        if (n as u64) < needed {
            Err(PbftError::WrongNumMessages(PbftMessageType::Prepare, needed as usize, n))
        } else {
            Ok(())
        }
    }

    /// `Ok` exactly when the log proves `msg`'s block committed at its view
    /// and sequence number.
    pub fn committed(&self, msg: &PbftMessage, f: u64) -> (r: Result<(), PbftError>)
        requires
            2 * (f as int) + 1 <= u64::MAX,
        ensures
            r is Ok == committed_spec(self.msgs(), msg@.info.view, msg@.info.seq_num, msg@.block, f),
    {
        self.prepared(msg, f)?;
        let signers = self.collect_signers(PbftMessageType::Commit, msg.info.view, msg.info.seq_num, &msg.block, true);
        let n = num_unique(&signers);
        let needed: u64 = 2 * f + 1;
        if (n as u64) < needed {
            Err(PbftError::WrongNumMessages(PbftMessageType::Commit, needed as usize, n))
        } else {
            Ok(())
        }
    }

    /// Give every logged message of type `t` that carries `block` the view
    /// `view` and sequence number `seq`; return how many were changed.
    pub fn fix_seq_nums(&mut self, t: PbftMessageType, seq: u64, view: u64, block: &PbftBlock) -> (r: usize)
        requires
            old(self).wf(),
            t != PbftMessageType::PrePrepare,
        ensures
            final(self).wf(),
            final(self).msgs() == old(self).msgs().map_values(|m: MessageModel| renumbered(m, t, view, seq, block@)),
            r == num_carrying(old(self).msgs(), t, block@),
            final(self).view_changes == old(self).view_changes,
            final(self).backlog == old(self).backlog,
            final(self).block_backlog == old(self).block_backlog,
            final(self).latest_stable_checkpoint == old(self).latest_stable_checkpoint,
            final(self).checkpoint_period == old(self).checkpoint_period,
    {
        let ghost start = self.msgs();
        let mut count: usize = 0;
        let mut i: usize = 0;
        while i < self.messages.len()
            invariant
                i <= self.messages.len(),
                self.messages.len() == start.len(),
                count <= i,
                count == num_carrying(start.take(i as int), t, block@),
                forall|k: int| 0 <= k < i ==> #[trigger] self.msgs()[k] == renumbered(start[k], t, view, seq, block@),
                forall|k: int| i <= k < start.len() ==> #[trigger] self.msgs()[k] == start[k],
                self.view_changes == old(self).view_changes,
                self.backlog == old(self).backlog,
                self.block_backlog == old(self).block_backlog,
                self.latest_stable_checkpoint == old(self).latest_stable_checkpoint,
                self.checkpoint_period == old(self).checkpoint_period,
            decreases self.messages.len() - i,
        {
            assert(start.take(i + 1).drop_last() =~= start.take(i as int));
            assert(self.msgs()[i as int] == start[i as int]);
            if self.messages[i].info.msg_type == t && self.messages[i].block.same_as(block) {
                let mut m = self.messages[i].copy();
                m.info.view = view;
                m.info.seq_num = seq;
                let ghost before = self.msgs();
                self.messages.set(i, m);
                assert(self.msgs() =~= before.update(i as int, renumbered(start[i as int], t, view, seq, block@)));
                count = count + 1;
            } else {
                assert(renumbered(start[i as int], t, view, seq, block@) == start[i as int]);
            }
            i = i + 1;
        }
        assert(start.take(start.len() as int) =~= start);
        assert(self.msgs() =~= start.map_values(|m: MessageModel| renumbered(m, t, view, seq, block@)));
        assert forall|a: int, b: int|
            0 <= a < self.msgs().len() && 0 <= b < self.msgs().len() && #[trigger] conflicting(
                self.msgs()[a],
                self.msgs()[b],
            ) implies a == b by {
            assert(self.msgs()[a] == renumbered(start[a], t, view, seq, block@));
            assert(self.msgs()[b] == renumbered(start[b], t, view, seq, block@));
            assert(conflicting(start[a], start[b]));
        }
        count
    }

    /// Declare a stable checkpoint at `seq`: its proof is the logged
    /// `Checkpoint` messages at `(view, seq)`, and every message with a lower
    /// sequence number leaves the log.
    pub fn garbage_collect(&mut self, seq: u64, view: u64)
        requires
            old(self).wf(),
        ensures
            final(self).wf(),
            final(self).msgs() == kept_from(old(self).msgs(), seq),
            final(self).latest_stable_checkpoint is Some,
            final(self).latest_checkpoint_spec() == seq,
            msgs_view(final(self).latest_stable_checkpoint.unwrap().checkpoint_messages@) == selected(
                old(self).msgs(),
                PbftMessageType::Checkpoint,
                view,
                seq,
            ),
            final(self).view_changes == old(self).view_changes,
            final(self).backlog == old(self).backlog,
            final(self).block_backlog == old(self).block_backlog,
            final(self).checkpoint_period == old(self).checkpoint_period,
    {
        let proof_msgs = self.get_messages_of_type(PbftMessageType::Checkpoint, seq, view);
        let ghost start = self.msgs();
        let mut kept: Vec<PbftMessage> = Vec::new();
        let mut i: usize = 0;
        while i < self.messages.len()
            invariant
                i <= self.messages.len(),
                start == self.msgs(),
                msgs_view(kept@) == kept_from(start.take(i as int), seq),
            decreases self.messages.len() - i,
        {
            let ghost prev = kept@;
            assert(start.take(i + 1).drop_last() =~= start.take(i as int));
            if self.messages[i].info.seq_num >= seq {
                kept.push(self.messages[i].copy());
                assert(msgs_view(kept@) =~= msgs_view(prev).push(start[i as int]));
            }
            i = i + 1;
        }
        assert(start.take(start.len() as int) =~= start);
        proof {
            lemma_kept_from_no_conflicts(start, seq);
        }
        self.messages = kept;
        self.latest_stable_checkpoint = Some(
            PbftStableCheckpoint { seq_num: seq, checkpoint_messages: proof_msgs },
        );
    }

    /// Whether the sequence number `committed_seq` just committed closes a
    /// checkpoint period.
    pub fn at_checkpoint(&self, committed_seq: u64) -> (r: bool)
        ensures
            r == (self.checkpoint_period > 0 && committed_seq % self.checkpoint_period == 0),
    {
        self.checkpoint_period > 0 && committed_seq % self.checkpoint_period == 0
    }

    /// Sequence number of the latest stable checkpoint, 0 when there is none.
    pub fn get_latest_checkpoint(&self) -> (r: u64)
        ensures
            r == self.latest_checkpoint_spec(),
    {
        match &self.latest_stable_checkpoint {
            Some(cp) => cp.seq_num,
            None => 0,
        }
    }

    pub fn add_view_change(&mut self, vc: PbftViewChange)
        ensures
            final(self).view_changes@ == old(self).view_changes@.push(vc),
            final(self).messages == old(self).messages,
            final(self).backlog == old(self).backlog,
            final(self).block_backlog == old(self).block_backlog,
            final(self).latest_stable_checkpoint == old(self).latest_stable_checkpoint,
            final(self).checkpoint_period == old(self).checkpoint_period,
    {
        self.view_changes.push(vc);
    }

    /// Queue a peer message for a later retry.
    pub fn push_backlog(&mut self, msg: PeerMessage)
        ensures
            final(self).backlog@ == old(self).backlog@.push(msg),
            final(self).messages == old(self).messages,
            final(self).view_changes == old(self).view_changes,
            final(self).block_backlog == old(self).block_backlog,
            final(self).latest_stable_checkpoint == old(self).latest_stable_checkpoint,
            final(self).checkpoint_period == old(self).checkpoint_period,
    {
        self.backlog.push(msg);
    }

    /// Take the oldest queued peer message.
    pub fn pop_backlog(&mut self) -> (r: Option<PeerMessage>)
        ensures
            old(self).backlog@.len() == 0 ==> r is None && *final(self) == *old(self),
            old(self).backlog@.len() > 0 ==> r == Some(old(self).backlog@[0]) && final(self).backlog@
                == old(self).backlog@.drop_first(),
            final(self).messages == old(self).messages,
            final(self).view_changes == old(self).view_changes,
            final(self).block_backlog == old(self).block_backlog,
            final(self).latest_stable_checkpoint == old(self).latest_stable_checkpoint,
            final(self).checkpoint_period == old(self).checkpoint_period,
    {
        if self.backlog.len() == 0 {
            None
        } else {
            let m = self.backlog.remove(0);
            assert(self.backlog@ =~= old(self).backlog@.drop_first());
            Some(m)
        }
    }

    /// Queue a host block that cannot enter consensus yet.
    pub fn push_block_backlog(&mut self, block: Block)
        ensures
            final(self).block_backlog@ == old(self).block_backlog@.push(block),
            final(self).messages == old(self).messages,
            final(self).view_changes == old(self).view_changes,
            final(self).backlog == old(self).backlog,
            final(self).latest_stable_checkpoint == old(self).latest_stable_checkpoint,
            final(self).checkpoint_period == old(self).checkpoint_period,
    {
        self.block_backlog.push(block);
    }

    /// Take the oldest queued host block.
    pub fn pop_block_backlog(&mut self) -> (r: Option<Block>)
        ensures
            old(self).block_backlog@.len() == 0 ==> r is None && *final(self) == *old(self),
            old(self).block_backlog@.len() > 0 ==> r == Some(old(self).block_backlog@[0])
                && final(self).block_backlog@ == old(self).block_backlog@.drop_first(),
            final(self).messages == old(self).messages,
            final(self).view_changes == old(self).view_changes,
            final(self).backlog == old(self).backlog,
            final(self).latest_stable_checkpoint == old(self).latest_stable_checkpoint,
            final(self).checkpoint_period == old(self).checkpoint_period,
    {
        if self.block_backlog.len() == 0 {
            None
        } else {
            let b = self.block_backlog.remove(0);
            assert(self.block_backlog@ =~= old(self).block_backlog@.drop_first());
            Some(b)
        }
    }
}

/// Number of distinct byte strings in `v`.
pub fn num_unique(v: &Vec<Vec<u8>>) -> (r: usize)
    ensures
        r == bytes_view(v@).to_set().len(),
{
    let ghost all = bytes_view(v@);
    let mut uniq: Vec<Vec<u8>> = Vec::new();
    let mut i: usize = 0;
    while i < v.len()
        invariant
            i <= v.len(),
            all == bytes_view(v@),
            uniq.len() <= i,
            bytes_view(uniq@).no_duplicates(),
            bytes_view(uniq@).to_set() == all.take(i as int).to_set(),
        decreases v.len() - i,
    {
        let ghost prev = bytes_view(uniq@);
        let mut found = false;
        let mut k: usize = 0;
        while k < uniq.len()
            invariant
                k <= uniq.len(),
                prev == bytes_view(uniq@),
                i < v.len(),
                found == exists|j: int| 0 <= j < k && prev[j] == v@[i as int]@,
            decreases uniq.len() - k,
        {
            assert(prev[k as int] == uniq@[k as int]@);
            if bytes_eq(&uniq[k], &v[i]) {
                found = true;
            }
            k = k + 1;
        }
        proof {
            assert(all.take(i + 1) =~= all.take(i as int).push(v@[i as int]@));
            all.take(i as int).lemma_push_to_set_commute(v@[i as int]@);
        }
        if !found {
            uniq.push(copy_bytes(&v[i]));
            proof {
                assert(bytes_view(uniq@) =~= prev.push(v@[i as int]@));
                prev.lemma_push_to_set_commute(v@[i as int]@);
            }
        } else {
            proof {
                let j = choose|j: int| 0 <= j < uniq.len() && prev[j] == v@[i as int]@;
                assert(prev.to_set().contains(prev[j]));
                assert(prev.to_set().insert(v@[i as int]@) =~= prev.to_set());
            }
        }
        i = i + 1;
    }
    assert(all.take(v.len() as int) =~= all);
    proof {
        bytes_view(uniq@).unique_seq_to_set();
    }
    uniq.len()
}

} // verus!
