//! A verified registry for agent services: composite units of bonded agent
//! roles with a staffed lifecycle.
//!
//! A service moves from `PreRegistration` through `ActiveRegistration` and
//! `FinishedRegistration` to `Deployed`, and through `TerminatedBonded`
//! back to `PreRegistration` once every operator has unbonded. Along the
//! way the registry enforces role capacity and threshold quorum bounds,
//! and keeps an exact economic ledger of deposits, per-operator bonds,
//! slashing and refunds against a custodial wallet.
//!
//! Every operation is all-or-nothing: it either applies completely or
//! fails with a specific [`error::ErrorCode`] and changes nothing.

pub mod admin_ops;
pub mod agent_ops;
pub mod deploy_ops;
pub mod error;
pub mod funds_ops;
pub mod laws;
pub mod ledger;
pub mod pda;
pub mod register_ops;
pub mod service_ops;
pub mod service_state;
pub mod state;
pub mod sums;
pub mod teardown_ops;
