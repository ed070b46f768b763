use vstd::prelude::*;
use crate::message_type::PbftMessageType;

verus! {

/// A block as the host validator delivers it.
#[derive(Clone, Debug)]
pub struct Block {
    pub block_id: Vec<u8>,
    pub previous_id: Vec<u8>,
    pub signer_id: Vec<u8>,
    pub block_num: u64,
    pub payload: Vec<u8>,
    pub summary: Vec<u8>,
}

/// The projection of a block that consensus messages carry.
#[derive(Clone, Debug)]
pub struct PbftBlock {
    pub block_id: Vec<u8>,
    pub signer_id: Vec<u8>,
    pub block_num: u64,
    pub summary: Vec<u8>,
}

/// Header of every consensus message.
#[derive(Clone, Debug)]
pub struct PbftMessageInfo {
    pub msg_type: PbftMessageType,
    pub view: u64,
    pub seq_num: u64,
    pub signer_id: Vec<u8>,
}

/// `BlockNew`, `PrePrepare`, `Prepare`, `Commit` or `Checkpoint` message.
#[derive(Clone, Debug)]
pub struct PbftMessage {
    pub info: PbftMessageInfo,
    pub block: PbftBlock,
}

/// A vote for a new view, with the proof of the sender's latest stable checkpoint.
#[derive(Clone, Debug)]
pub struct PbftViewChange {
    pub info: PbftMessageInfo,
    pub checkpoint_messages: Vec<PbftMessage>,
}

/// A message received from a peer (or from this node's own broadcast).
#[derive(Clone, Debug)]
pub enum PeerMessage {
    Pbft(PbftMessage),
    ViewChange(PbftViewChange),
}

pub struct BlockModel {
    pub block_id: Seq<u8>,
    pub signer_id: Seq<u8>,
    pub block_num: u64,
    pub summary: Seq<u8>,
}

pub struct InfoModel {
    pub msg_type: PbftMessageType,
    pub view: u64,
    pub seq_num: u64,
    pub signer_id: Seq<u8>,
}

pub struct MessageModel {
    pub info: InfoModel,
    pub block: BlockModel,
}

impl View for PbftBlock {
    type V = BlockModel;

    open spec fn view(&self) -> BlockModel {
        BlockModel {
            block_id: self.block_id@,
            signer_id: self.signer_id@,
            block_num: self.block_num,
            summary: self.summary@,
        }
    }
}

impl View for PbftMessageInfo {
    type V = InfoModel;

    open spec fn view(&self) -> InfoModel {
        InfoModel {
            msg_type: self.msg_type,
            view: self.view,
            seq_num: self.seq_num,
            signer_id: self.signer_id@,
        }
    }
}

impl View for PbftMessage {
    type V = MessageModel;

    open spec fn view(&self) -> MessageModel {
        MessageModel { info: self.info@, block: self.block@ }
    }
}

/// The projection that consensus messages carry of a host block.
pub open spec fn block_model_of(b: Block) -> BlockModel {
    BlockModel {
        block_id: b.block_id@,
        signer_id: b.signer_id@,
        block_num: b.block_num,
        summary: b.summary@,
    }
}

pub fn copy_bytes(b: &Vec<u8>) -> (r: Vec<u8>)
    ensures
        r@ == b@,
{
    let mut r: Vec<u8> = Vec::new();
    let mut i: usize = 0;
    while i < b.len()
        invariant
            i <= b.len(),
            r@ == b@.subrange(0, i as int),
        decreases b.len() - i,
    {
        r.push(b[i]);
        i = i + 1;
        assert(r@ =~= b@.subrange(0, i as int));
    }
    assert(r@ =~= b@);
    r
}

pub fn bytes_eq(a: &Vec<u8>, b: &Vec<u8>) -> (r: bool)
    ensures
        r == (a@ == b@),
{
    if a.len() != b.len() {
        return false;
    }
    let mut i: usize = 0;
    while i < a.len()
        invariant
            i <= a.len(),
            a.len() == b.len(),
            forall|j: int| 0 <= j < i ==> a@[j] == b@[j],
        decreases a.len() - i,
    {
        if a[i] != b[i] {
            return false;
        }
        i = i + 1;
    }
    assert(a@ =~= b@);
    true
}

impl PbftBlock {
    pub open spec fn empty_view() -> BlockModel {
        BlockModel { block_id: Seq::empty(), signer_id: Seq::empty(), block_num: 0, summary: Seq::empty() }
    }

    /// The empty block carried by `Checkpoint` messages.
    pub fn empty() -> (r: PbftBlock)
        ensures
            r@ == PbftBlock::empty_view(),
    {
        let r = PbftBlock { block_id: Vec::new(), signer_id: Vec::new(), block_num: 0, summary: Vec::new() };
        assert(r@ =~= PbftBlock::empty_view());
        r
    }

    pub fn copy(&self) -> (r: PbftBlock)
        ensures
            r@ == self@,
    {
        PbftBlock {
            block_id: copy_bytes(&self.block_id),
            signer_id: copy_bytes(&self.signer_id),
            block_num: self.block_num,
            summary: copy_bytes(&self.summary),
        }
    }

    pub fn same_as(&self, other: &PbftBlock) -> (r: bool)
        ensures
            r == (self@ == other@),
    {
        bytes_eq(&self.block_id, &other.block_id) && bytes_eq(&self.signer_id, &other.signer_id)
            && self.block_num == other.block_num && bytes_eq(&self.summary, &other.summary)
    }

    /// Trim a host block to what consensus messages carry.
    pub fn from_block(block: &Block) -> (r: PbftBlock)
        ensures
            r@ == block_model_of(*block),
    {
        PbftBlock {
            block_id: copy_bytes(&block.block_id),
            signer_id: copy_bytes(&block.signer_id),
            block_num: block.block_num,
            summary: copy_bytes(&block.summary),
        }
    }
}

impl PbftMessageInfo {
    pub fn new(msg_type: PbftMessageType, view: u64, seq_num: u64, signer_id: &Vec<u8>) -> (r:
        PbftMessageInfo)
        ensures
            r@ == (InfoModel { msg_type, view, seq_num, signer_id: signer_id@ }),
    {
        PbftMessageInfo { msg_type, view, seq_num, signer_id: copy_bytes(signer_id) }
    }

    pub fn copy(&self) -> (r: PbftMessageInfo)
        ensures
            r@ == self@,
    {
        PbftMessageInfo::new(self.msg_type, self.view, self.seq_num, &self.signer_id)
    }
}

impl PbftMessage {
    pub fn copy(&self) -> (r: PbftMessage)
        ensures
            r@ == self@,
    {
        PbftMessage { info: self.info.copy(), block: self.block.copy() }
    }
}

impl Block {
    pub fn copy(&self) -> (r: Block)
        ensures
            r.block_id@ == self.block_id@,
            r.previous_id@ == self.previous_id@,
            r.signer_id@ == self.signer_id@,
            r.block_num == self.block_num,
            r.payload@ == self.payload@,
            r.summary@ == self.summary@,
    {
        Block {
            block_id: copy_bytes(&self.block_id),
            previous_id: copy_bytes(&self.previous_id),
            signer_id: copy_bytes(&self.signer_id),
            block_num: self.block_num,
            payload: copy_bytes(&self.payload),
            summary: copy_bytes(&self.summary),
        }
    }
}

} // verus!
