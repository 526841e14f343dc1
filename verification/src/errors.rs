use vstd::prelude::*;

verus! {

/// Terminal failure of one call; no storage mutation is committed when one is returned.
#[derive(Clone, Copy, PartialEq, Eq, Structural, Debug)]
pub enum RollError {
    /// A token offered to the pool is not on the allow-list.
    InvalidAsset,
    /// The transaction was already consumed by an earlier roll.
    DuplicateTransaction,
    /// A roll was attempted with a token count other than one.
    WrongAssetCount,
    /// A roll was attempted while the pool held no instances.
    PoolEmpty,
    /// The stack counter is at its maximum and cannot take another push.
    Overflow,
    /// A pop was attempted on an empty stack.
    Underflow,
    /// A stack slot does not hold an exactly 32-byte record.
    CorruptEntry,
    /// The raw transaction bytes do not decode to a transaction.
    MalformedTransaction,
    /// The raw block bytes do not decode to a block.
    MalformedBlock,
    /// The contract was asked to initialize a second time.
    AlreadyInitialized,
}

} // verus!
