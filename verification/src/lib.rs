//! A donation-campaign ledger: an authorized admin opens fundraising
//! campaigns with a target amount and a designated recipient, arbitrary
//! donors contribute, each campaign moves through the lifecycle
//! Active -> Completed -> Closed (or Active -> Closed), and the recipient
//! withdraws the collected funds once the target has been reached.
//!
//! The contracts are stated over a mathematical view of the stored state;
//! the verified invariants cover id assignment, fund accounting, and the
//! legal status transitions.

pub mod contract;
pub mod errors;
pub mod ledger;
pub mod types;

pub use contract::ContractView;
pub use contract::ZakatContract;
pub use errors::Error;
pub use types::Campaign;
pub use types::CampaignCategory;
pub use types::CampaignModel;
pub use types::CampaignStatus;
pub use types::Donation;
pub use types::DonationModel;
pub use types::Identity;
