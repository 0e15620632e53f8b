//! Revenue-share registry: a weighted set of payees that always sums to 100%,
//! guarded by a single admin and a one-way lock, with planning of child
//! contract deployments and of native-token distributions.
pub mod contract;
pub mod deploy;
pub mod effect;
pub mod error;
pub mod laws;
pub mod order;
pub mod payout;
pub mod state;
