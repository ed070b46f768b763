use vstd::prelude::*;

verus! {

/// Kinds of consensus messages. The first four form the ordered progression
/// of a round: `BlockNew < PrePrepare < Prepare < Commit`.
#[derive(Clone, Copy, Debug, PartialEq, Eq, Structural)]
pub enum PbftMessageType {
    BlockNew,
    PrePrepare,
    Prepare,
    Commit,
    Checkpoint,
    ViewChange,
    Unset,
}

/// Position of a message type in the declared order.
pub open spec fn type_rank(t: PbftMessageType) -> nat {
    match t {
        PbftMessageType::BlockNew => 0,
        PbftMessageType::PrePrepare => 1,
        PbftMessageType::Prepare => 2,
        PbftMessageType::Commit => 3,
        PbftMessageType::Checkpoint => 4,
        PbftMessageType::ViewChange => 5,
        PbftMessageType::Unset => 6,
    }
}

/// Wire name of a message type.
pub open spec fn wire_name(t: PbftMessageType) -> Seq<char> {
    match t {
        PbftMessageType::BlockNew => "BlockNew"@,
        PbftMessageType::PrePrepare => "PrePrepare"@,
        PbftMessageType::Prepare => "Prepare"@,
        PbftMessageType::Commit => "Commit"@,
        PbftMessageType::Checkpoint => "Checkpoint"@,
        PbftMessageType::ViewChange => "ViewChange"@,
        PbftMessageType::Unset => "Unset"@,
    }
}

pub open spec fn is_multicast_spec(t: PbftMessageType) -> bool {
    t == PbftMessageType::PrePrepare || t == PbftMessageType::Prepare || t == PbftMessageType::Commit
}

impl PbftMessageType {
    /// Ordinal of this type in the declared order.
    pub fn rank(&self) -> (r: u8)
        ensures
            r as nat == type_rank(*self),
    {
        match self {
            PbftMessageType::BlockNew => 0,
            PbftMessageType::PrePrepare => 1,
            PbftMessageType::Prepare => 2,
            PbftMessageType::Commit => 3,
            PbftMessageType::Checkpoint => 4,
            PbftMessageType::ViewChange => 5,
            PbftMessageType::Unset => 6,
        }
    }

    /// Whether `self` comes strictly before `other` in the declared order.
    pub fn precedes(&self, other: &PbftMessageType) -> (r: bool)
        ensures
            r == (type_rank(*self) < type_rank(*other)),
    {
        self.rank() < other.rank()
    }

    /// The name that peer messages of this type carry on the wire.
    pub fn as_str(&self) -> (r: &'static str)
        ensures
            r@ == wire_name(*self),
    {
        match self {
            PbftMessageType::BlockNew => "BlockNew",
            PbftMessageType::PrePrepare => "PrePrepare",
            PbftMessageType::Prepare => "Prepare",
            PbftMessageType::Commit => "Commit",
            PbftMessageType::Checkpoint => "Checkpoint",
            PbftMessageType::ViewChange => "ViewChange",
            PbftMessageType::Unset => "Unset",
        }
    }

    /// `PrePrepare`, `Prepare` and `Commit` are the multicast types.
    pub fn is_multicast(&self) -> (r: bool)
        ensures
            r == is_multicast_spec(*self),
    {
        match self {
            PbftMessageType::PrePrepare | PbftMessageType::Prepare | PbftMessageType::Commit => true,
            _ => false,
        }
    }
}

} // verus!
