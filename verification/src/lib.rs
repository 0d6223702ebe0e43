//! A verified core for two small on-ledger state machines: a "virtual pet"
//! ledger whose pets are fed by staking funds and penalised by withdrawals,
//! and a savings-goal tracker with scheduled-deposit classification.
//!
//! The host environment (persistent storage, authentication, event sink and
//! clock) lives outside this crate; the library holds the records and the
//! transition rules, stated and proved over mathematical views.

pub mod errors;
pub mod goal;
pub mod pet;
pub mod pet_ledger;
pub mod savings;
pub mod stats;
