//! A fungible-token ledger with storage registration and a two-phase
//! "transfer, notify, reconcile" settlement for transfers into receiver
//! contracts.

pub mod amount;
pub mod error;
pub mod model;
pub mod ledger;
pub mod settlement;
pub mod defi;
pub mod setup;
