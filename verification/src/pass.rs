use vstd::prelude::*;

use crate::address::Address;

verus! {

/// Why the registry refuses a request. A refused request changes nothing.
#[derive(Copy, Clone, Debug, PartialEq, Eq, Structural)]
pub enum TradePassError {
    NotInitialized,
    AlreadyInitialized,
    Unauthorized,
    PassNotFound,
    PassAlreadyExists,
    PassRevoked,
}

impl TradePassError {
    /// The number by which the contract interface reports this error.
    pub open spec fn spec_code(self) -> u32 {
        match self {
            TradePassError::NotInitialized => 1,
            TradePassError::AlreadyInitialized => 2,
            TradePassError::Unauthorized => 3,
            TradePassError::PassNotFound => 4,
            TradePassError::PassAlreadyExists => 5,
            TradePassError::PassRevoked => 6,
        }
    }

    /// The number by which the contract interface reports this error.
    pub fn code(self) -> (c: u32)
        ensures
            c == self.spec_code(),
    {
        match self {
            TradePassError::NotInitialized => 1,
            TradePassError::AlreadyInitialized => 2,
            TradePassError::Unauthorized => 3,
            TradePassError::PassNotFound => 4,
            TradePassError::PassAlreadyExists => 5,
            TradePassError::PassRevoked => 6,
        }
    }
}

/// Whether a pass grants trading rights.
#[derive(Copy, Clone, Debug, PartialEq, Eq, Structural)]
pub enum PassStatus {
    Active,
    Revoked,
}

impl PassStatus {
    /// The number by which the contract interface stores this status.
    pub fn code(self) -> (c: u32)
        ensures
            c == (if self is Active { 0u32 } else { 1u32 }),
    {
        match self {
            PassStatus::Active => 0,
            PassStatus::Revoked => 1,
        }
    }
}

/// A soulbound pass: it is bound to `owner` for good and cannot be moved.
#[derive(Clone, Debug, PartialEq, Eq)]
pub struct TradePass {
    /// The wallet the pass was issued to.
    pub owner: Address,
    /// Whether the pass still grants trading rights.
    pub status: PassStatus,
    /// Ledger time at which the pass was issued.
    pub issued_at: u64,
    /// Ledger time at which the pass was revoked; 0 while it is active.
    pub revoked_at: u64,
    /// Serial number of the pass, counted from 1 in order of issue.
    pub pass_id: u64,
    /// Where the pass's metadata lives (an IPFS or on-chain URI).
    pub metadata_uri: Vec<u8>,
}

/// The mathematical value of a [`TradePass`].
pub struct PassView {
    pub owner: Seq<u8>,
    pub status: PassStatus,
    pub issued_at: u64,
    pub revoked_at: u64,
    pub pass_id: u64,
    pub metadata_uri: Seq<u8>,
}

impl View for TradePass {
    type V = PassView;

    open spec fn view(&self) -> PassView {
        PassView {
            owner: self.owner@,
            status: self.status,
            issued_at: self.issued_at,
            revoked_at: self.revoked_at,
            pass_id: self.pass_id,
            metadata_uri: self.metadata_uri@,
        }
    }
}

impl TradePass {
    /// A copy of this pass.
    pub fn duplicate(&self) -> (p: TradePass)
        ensures
            p@ == self@,
    {
        let metadata_uri = self.metadata_uri.clone();
        assert(metadata_uri@ =~= self.metadata_uri@);
        TradePass {
            owner: self.owner.duplicate(),
            status: self.status,
            issued_at: self.issued_at,
            revoked_at: self.revoked_at,
            pass_id: self.pass_id,
            metadata_uri,
        }
    }
}

} // verus!
