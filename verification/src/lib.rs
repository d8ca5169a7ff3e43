//! Verified core of a multi-party bounty escrow: the escrow record, its status
//! state machine, the basis-point distribution arithmetic and the payout
//! planning.

pub mod errors;
pub mod events;
pub mod helpers;
pub mod instructions;
pub mod state;
pub mod token_account;
