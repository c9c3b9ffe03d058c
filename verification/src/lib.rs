//! Reward-distribution orchestrator for a staking pool.
//!
//! The library is the decision core of a contract that harvests unstaked
//! rewards from a staking pool, converts a time-decayed portion of them into a
//! reward token through an external swap venue, and forwards the converted
//! amount to a farm.  Every external interaction is asynchronous and may fail;
//! the core is therefore written as a set of transition functions from the
//! persistent ledger and an observed event to the new ledger and the next
//! outbound request.  The host glue that actually performs the calls lives
//! outside the library and feeds results back in as plain values.

pub mod arith;
pub mod contract;
