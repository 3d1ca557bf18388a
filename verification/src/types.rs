//! Plain data types of the ledger: identities, digests, account records,
//! the hibernation event, and the error taxonomy.

use vstd::prelude::*;

verus! {

/// A 32-byte identity (an account address), held as four 64-bit words.
#[derive(Clone, Copy, PartialEq, Eq, Structural, Debug)]
pub struct Pubkey {
    pub w0: u64,
    pub w1: u64,
    pub w2: u64,
    pub w3: u64,
}

impl Pubkey {
    /// Builds an identity from its four 64-bit words.
    pub fn new(w0: u64, w1: u64, w2: u64, w3: u64) -> (k: Pubkey)
        ensures
            k == (Pubkey { w0, w1, w2, w3 }),
    {
        Pubkey { w0, w1, w2, w3 }
    }
}

/// A 32-byte opaque digest (a state commitment or accumulator root), held as
/// four 64-bit words.
#[derive(Clone, Copy, PartialEq, Eq, Structural, Debug)]
pub struct Digest {
    pub w0: u64,
    pub w1: u64,
    pub w2: u64,
    pub w3: u64,
}

impl Digest {
    /// The all-zero digest: the root at bootstrap and the tag of a freshly
    /// created vault.
    pub open spec fn zeroed() -> Digest {
        Digest { w0: 0, w1: 0, w2: 0, w3: 0 }
    }

    /// Builds a digest from its four 64-bit words.
    pub fn new(w0: u64, w1: u64, w2: u64, w3: u64) -> (d: Digest)
        ensures
            d == (Digest { w0, w1, w2, w3 }),
    {
        Digest { w0, w1, w2, w3 }
    }

    /// The all-zero digest.
    pub fn zero() -> (d: Digest)
        ensures
            d == Digest::zeroed(),
    {
        Digest { w0: 0, w1: 0, w2: 0, w3: 0 }
    }
}

/// The root registry singleton: the authority identity and the current
/// accumulator root.
#[derive(Clone, Copy, PartialEq, Eq, Structural, Debug)]
pub struct GlobalConfig {
    pub admin: Pubkey,
    pub latest_root: Digest,
}

/// One active vault record: exclusively controlled by `owner`, holding a
/// balance, the timestamp of the most recent activity, and the digest of the
/// vault's last committed state (zero at fresh creation).
#[derive(Clone, Copy, PartialEq, Eq, Structural, Debug)]
pub struct VaultAccount {
    pub owner: Pubkey,
    pub balance: u64,
    pub last_used: i64,
    pub mock_zk_state_hash: Digest,
}

/// The emitted record of a hibernated vault's state: the payload an external
/// accumulator folds into the next published root. Write-once; the ledger does
/// not retain it after emission.
#[derive(Clone, Copy, PartialEq, Eq, Structural, Debug)]
pub struct CompressionEvent {
    pub owner: Pubkey,
    pub balance: u64,
    pub state_hash: Digest,
}

/// Why an operation was refused. Every error aborts the whole operation with
/// no state change.
#[derive(Clone, Copy, PartialEq, Eq, Structural, Debug)]
pub enum ErrorCode {
    /// Hibernation attempted before the idle threshold elapsed.
    AccountNotInactiveEnough,
    /// Caller is not the principal the operation requires.
    Unauthorized,
    /// Requested withdrawal exceeds the available balance.
    InsufficientFunds,
    /// Revival's claimed state does not validate against the current root.
    InvalidProof,
    /// An active vault already exists for this owner.
    AccountAlreadyExists,
    /// No active vault exists for this owner.
    AccountNotFound,
}

} // verus!
