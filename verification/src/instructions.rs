//! The operations on an escrow record, one module each.

pub mod claim;
pub mod common;
pub mod confirm_release;
pub mod fund_escrow;
pub mod initialize_escrow;
pub mod propose_release;
pub mod raise_dispute;
pub mod refund;
pub mod release;
pub mod resolve_dispute;

pub use self::claim::claim;
pub use self::common::{distribute_spl, Distribution, Payout};
pub use self::confirm_release::confirm;
pub use self::fund_escrow::fund_escrow;
pub use self::initialize_escrow::{initialize_escrow, InitializeParams};
pub use self::propose_release::propose_release;
pub use self::raise_dispute::raise_dispute;
pub use self::refund::refund;
pub use self::release::release;
pub use self::resolve_dispute::resolve_dispute;
