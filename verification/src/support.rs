use vstd::prelude::*;

verus! {

/// A block header. For this chain it carries only the block's number.
pub struct Header<BlockNumber> {
    pub block_number: BlockNumber,
}

/// A caller-attributed request to invoke one operation of the runtime.
pub struct Extrinsic<Caller, Call> {
    pub caller: Caller,
    pub call: Call,
}

/// A block: a header plus an ordered sequence of extrinsics.
pub struct Block<H, E> {
    pub header: H,
    pub extrinsics: Vec<E>,
}

/// Every way a dispatched call, or block execution itself, can fail.
///
/// Callers that want the historical free-text reason can ask `message`.
#[derive(Clone, Copy, Debug, PartialEq, Eq, Structural)]
pub enum DispatchError {
    /// A transfer was asked to move more than the caller holds.
    InsufficientBalance,
    /// Crediting the recipient would overflow its balance.
    Overflow,
    /// The content is already claimed by some account.
    AlreadyClaimed,
    /// The caller is not the owner of an existing claim on the content
    /// (a missing claim and a claim held by someone else are not
    /// distinguished).
    NotClaimOwner,
    /// The block's declared number does not match the chain head after
    /// advancement.
    BlockNumberMismatch,
}

/// The outcome of dispatching one call, or of executing one block.
pub type DispatchResult = Result<(), DispatchError>;

impl DispatchError {
    /// The human-readable reason for this failure.
    pub fn message(&self) -> (r: &'static str)
        ensures
            r@ == match self {
                DispatchError::InsufficientBalance => "Insufficient balance"@,
                DispatchError::Overflow => "Overflow"@,
                DispatchError::AlreadyClaimed => "This content is already claimed."@,
                DispatchError::NotClaimOwner => "This claim is owned by someone else."@,
                DispatchError::BlockNumberMismatch => "Block number mismatch"@,
            },
    {
        match self {
            DispatchError::InsufficientBalance => "Insufficient balance",
            DispatchError::Overflow => "Overflow",
            DispatchError::AlreadyClaimed => "This content is already claimed.",
            DispatchError::NotClaimOwner => "This claim is owned by someone else.",
            DispatchError::BlockNumberMismatch => "Block number mismatch",
        }
    }
}

} // verus!
