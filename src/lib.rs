//! Per-community state of a chat bot: a scheduler that reclaims ephemeral
//! voice resources some time after they become empty, guarded by fencing
//! tokens, and an engine that turns activity into rate-limited point totals.

pub mod accrual;
pub mod accrual_laws;
pub mod convert;
pub mod guild;
pub mod oauth;
pub mod reclaim;
pub mod reclaim_laws;
pub mod role_limit;
pub mod table;
