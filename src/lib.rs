//! Per-client account ledger for a stream of deposits, withdrawals and
//! disputes.
//!
//! - `funds`: checked decimal amounts.
//! - `balance`: available and held funds, changed only by checked diffs.
//! - `account`: the per-deposit dispute state machine and its laws.
//! - `transaction_engine`: routes transactions to lazily created accounts.
//! - `dispatch`: shards the stream across lanes by client, keeping each
//!   client's transactions in order.

pub mod account;
pub mod balance;
pub mod dispatch;
pub mod funds;
pub mod transaction;
pub mod transaction_engine;
