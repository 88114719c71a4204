//! A batch ledger engine: validates deposit, withdrawal and dispute-lifecycle
//! records, applies them in order to per-client accounts, and exports a final
//! snapshot of every account.

pub mod errors;
pub mod transaction;
pub mod state;
pub mod laws;
