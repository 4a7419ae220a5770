//! An access-controlled registry of administrators, healthcare providers and
//! medical-record fingerprints. Changes to the administrator set need the
//! endorsement of a quorum of distinct administrators; providers and records
//! may only be written by callers holding the matching role.

pub mod contract;
pub mod laws;
pub mod model;
pub mod table;
pub mod types;

pub use contract::HealthCareContract;
pub use table::Table;
pub use types::{AdminStatus, ContractError, DataKey, Endorsement, HealthRecord, Provider, Settings};
