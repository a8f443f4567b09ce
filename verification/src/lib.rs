//! Subscription state machine for a shared, append-only ledger environment.
//!
//! Each user owns exactly one `UserState` record tracking a free/premium
//! tier, an off-chain point balance, and an optional linked hardware
//! identifier. Records live in a [`ledger::SubscriptionLedger`], a keyed
//! store addressed purely by the owner's identity, and are mutated through
//! four operations: create, earn points, upgrade, downgrade. All access
//! control, input validation and arithmetic safety rules are stated as
//! contracts and proved.

pub mod laws;
pub mod ledger;
pub mod state;

pub use ledger::EarnPoints;
pub use ledger::InitializeSubscription;
pub use ledger::SubscriptionLedger;
pub use ledger::UpgradeSubscription;
pub use state::AirventError;
pub use state::Identity;
pub use state::Tier;
pub use state::UserState;
