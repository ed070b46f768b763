use vstd::prelude::*;
use crate::message::PbftBlock;
use crate::message_type::PbftMessageType;

verus! {

/// Failures reported by the consensus engine.
#[derive(Clone, Debug)]
pub enum PbftError {
    /// A message could not be decoded.
    SerializationError,
    /// The message was deferred: added to the log or to the backlog.
    NotReadyForMessage,
    /// A message of this type already exists for the view and sequence number.
    MessageExists(PbftMessageType),
    /// Expected count, actual count.
    WrongNumMessages(PbftMessageType, usize, usize),
    BlockMismatch(PbftBlock, PbftBlock),
    NoWorkingBlock,
    /// Got, expected.
    ViewMismatch(u64, u64),
    WrongNumBlocks,
    Timeout,
    InternalError(String),
}

} // verus!
