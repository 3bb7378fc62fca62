pub mod address;
pub mod codec;
pub mod delegation;
pub mod effects;
pub mod error;
pub mod escrow;
pub mod ledger;
pub mod router;
pub mod state;
