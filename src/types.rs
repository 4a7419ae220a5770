use vstd::prelude::*;

verus! {

/// The logical keys under which the registry's state is persisted.
#[derive(Clone, Copy, Debug, PartialEq, Eq, Structural)]
pub enum DataKey {
    Admins,
    Providers,
    Records,
    PendingAdmins,
    Settings,
}

/// Standing of an identity in the admin set.
#[derive(Clone, Copy, Debug, PartialEq, Eq, Structural)]
pub struct AdminStatus {
    pub weight: u32,
    pub active: bool,
}

impl DeepView for AdminStatus {
    type V = AdminStatus;

    open spec fn deep_view(&self) -> AdminStatus {
        *self
    }
}

/// Configuration written once by initialisation.
#[derive(Clone, Copy, Debug, PartialEq, Eq, Structural)]
pub struct Settings {
    pub required_approvals: u32,
    pub is_upgradable: bool,
}

impl DeepView for Settings {
    type V = Settings;

    open spec fn deep_view(&self) -> Settings {
        *self
    }
}

/// An entry of the provider directory.
#[derive(Clone, Debug)]
pub struct Provider {
    pub provider_id: String,
    pub credentials: String,
    pub active: bool,
}

pub struct ProviderView {
    pub provider_id: Seq<char>,
    pub credentials: Seq<char>,
    pub active: bool,
}

impl DeepView for Provider {
    type V = ProviderView;

    open spec fn deep_view(&self) -> ProviderView {
        ProviderView {
            provider_id: self.provider_id@,
            credentials: self.credentials@,
            active: self.active,
        }
    }
}

/// An entry of the record index.
#[derive(Clone, Debug)]
pub struct HealthRecord {
    pub owner: String,
    pub record_hash: String,
    pub record_type: String,
    pub timestamp: u64,
}

pub struct HealthRecordView {
    pub owner: Seq<char>,
    pub record_hash: Seq<char>,
    pub record_type: Seq<char>,
    pub timestamp: u64,
}

impl DeepView for HealthRecord {
    type V = HealthRecordView;

    open spec fn deep_view(&self) -> HealthRecordView {
        HealthRecordView {
            owner: self.owner@,
            record_hash: self.record_hash@,
            record_type: self.record_type@,
            timestamp: self.timestamp,
        }
    }
}

/// Why an operation was refused; a refused operation changes nothing.
#[derive(Clone, Copy, Debug, PartialEq, Eq, Structural)]
pub enum ContractError {
    AlreadyInitialized,
    NotInitialized,
    /// The caller is not an active admin.
    Unauthorized,
    /// The caller is not an active provider.
    InactiveProvider,
    ProviderExists,
    ProviderNotFound,
    RecordExists,
    RecordNotFound,
}

/// What one endorsement of an admin-set change did.
#[derive(Clone, Copy, Debug, PartialEq, Eq, Structural)]
pub enum Endorsement {
    /// The caller was added to the target's endorsers; no quorum yet.
    Recorded,
    /// The caller had already endorsed the target; no quorum yet.
    AlreadyEndorsed,
    /// The endorsers reached the quorum and the change was applied.
    Finalized,
}

} // verus!
