//! A token-claim ledger: an authority records how many tokens each user may
//! claim, switches claiming on, and each user then withdraws the whole
//! entitlement exactly once. The token program's transfers are described by the
//! values that the operations return.

pub mod claim;
pub mod key;
pub mod laws;
pub mod scale;
pub mod token;
