//! A soulbound trading-pass registry: an administrator issues at most one
//! non-transferable pass per wallet address, anyone may check whether an
//! address holds an active pass, and the administrator may revoke passes.
//!
//! The registry is a state machine over [`contract::TradePassContract`]; every
//! operation is verified against the transition functions of [`ledger`].

pub mod address;
pub mod contract;
pub mod laws;
pub mod ledger;
pub mod pass;
