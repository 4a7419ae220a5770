use vstd::prelude::*;

use crate::types::{AdminStatus, ContractError, Endorsement, HealthRecordView, ProviderView, Settings};

verus! {

/// The whole persisted state, as mathematical values.
pub struct LedgerView {
    pub admins: Map<Seq<char>, AdminStatus>,
    pub settings: Option<Settings>,
    pub providers: Map<Seq<char>, ProviderView>,
    pub records: Map<Seq<char>, HealthRecordView>,
    /// For each identity proposed for addition, the admins that endorsed it, in order.
    pub pending_additions: Map<Seq<char>, Seq<Seq<char>>>,
    /// For each identity proposed for removal, the admins that endorsed it, in order.
    pub pending_removals: Map<Seq<char>, Seq<Seq<char>>>,
}

/// The standing that a newly admitted admin gets.
pub open spec fn fresh_admin() -> AdminStatus {
    AdminStatus { weight: 1, active: true }
}

/// The endorsers recorded for `target` in `tracker` (none if it has no entry).
pub open spec fn endorsers(tracker: Map<Seq<char>, Seq<Seq<char>>>, target: Seq<char>) -> Seq<Seq<char>> {
    if tracker.contains_key(target) {
        tracker[target]
    } else {
        Seq::empty()
    }
}

/// `who` appended to `list`, unless it is there already.
pub open spec fn endorse(list: Seq<Seq<char>>, who: Seq<char>) -> Seq<Seq<char>> {
    if list.contains(who) {
        list
    } else {
        list.push(who)
    }
}

/// The admin set that initialisation writes: every listed identity, weight 1, active.
pub open spec fn initial_admins(ids: Seq<Seq<char>>) -> Map<Seq<char>, AdminStatus> {
    Map::new(|k: Seq<char>| ids.contains(k), |k: Seq<char>| fresh_admin())
}

impl LedgerView {
    /// The state before initialisation.
    pub open spec fn empty() -> LedgerView {
        LedgerView {
            admins: Map::empty(),
            settings: None,
            providers: Map::empty(),
            records: Map::empty(),
            pending_additions: Map::empty(),
            pending_removals: Map::empty(),
        }
    }

    pub open spec fn is_active_admin(self, id: Seq<char>) -> bool {
        self.admins.contains_key(id) && self.admins[id].active
    }

    pub open spec fn is_active_provider(self, id: Seq<char>) -> bool {
        self.providers.contains_key(id) && self.providers[id].active
    }

    pub open spec fn threshold(self) -> nat {
        match self.settings {
            Some(s) => s.required_approvals as nat,
            None => 0,
        }
    }

    pub open spec fn initialize_error(self) -> Option<ContractError> {
        if self.settings is Some {
            Some(ContractError::AlreadyInitialized)
        } else {
            None
        }
    }

    pub open spec fn after_initialize(self, ids: Seq<Seq<char>>, required_approvals: u32) -> LedgerView {
        LedgerView {
            admins: initial_admins(ids),
            settings: Some(Settings { required_approvals, is_upgradable: true }),
            ..self
        }
    }

    /// Why a governance call by `caller` is refused, if it is.
    pub open spec fn governance_error(self, caller: Seq<char>) -> Option<ContractError> {
        if !self.is_active_admin(caller) {
            Some(ContractError::Unauthorized)
        } else if self.settings is None {
            Some(ContractError::NotInitialized)
        } else {
            None
        }
    }

    /// What an accepted endorsement of `target` by `who` does, given the tracker before it.
    pub open spec fn endorsement(self, tracker: Map<Seq<char>, Seq<Seq<char>>>, who: Seq<char>, target: Seq<char>) -> Endorsement {
        let before = endorsers(tracker, target);
        if endorse(before, who).len() >= self.threshold() {
            Endorsement::Finalized
        } else if before.contains(who) {
            Endorsement::AlreadyEndorsed
        } else {
            Endorsement::Recorded
        }
    }

    /// The state after `proposer` endorses adding `target`, when accepted.
    pub open spec fn after_propose_admin(self, proposer: Seq<char>, target: Seq<char>) -> LedgerView {
        let list = endorse(endorsers(self.pending_additions, target), proposer);
        if list.len() >= self.threshold() {
            LedgerView {
                admins: self.admins.insert(target, fresh_admin()),
                pending_additions: self.pending_additions.remove(target),
                ..self
            }
        } else {
            LedgerView { pending_additions: self.pending_additions.insert(target, list), ..self }
        }
    }

    /// The state after `remover` endorses removing `target`, when accepted.
    pub open spec fn after_remove_admin(self, remover: Seq<char>, target: Seq<char>) -> LedgerView {
        let list = endorse(endorsers(self.pending_removals, target), remover);
        if list.len() >= self.threshold() {
            LedgerView {
                admins: self.admins.remove(target),
                pending_removals: self.pending_removals.remove(target),
                ..self
            }
        } else {
            LedgerView { pending_removals: self.pending_removals.insert(target, list), ..self }
        }
    }

    /// `propose_admin` as a transition: a refused call leaves the state as it was.
    pub open spec fn propose_step(self, proposer: Seq<char>, target: Seq<char>) -> LedgerView {
        if self.governance_error(proposer) is Some {
            self
        } else {
            self.after_propose_admin(proposer, target)
        }
    }

    /// `remove_admin` as a transition: a refused call leaves the state as it was.
    pub open spec fn remove_step(self, remover: Seq<char>, target: Seq<char>) -> LedgerView {
        if self.governance_error(remover) is Some {
            self
        } else {
            self.after_remove_admin(remover, target)
        }
    }

    pub open spec fn register_provider_error(self, caller: Seq<char>, provider: Seq<char>) -> Option<ContractError> {
        if !self.is_active_admin(caller) {
            Some(ContractError::Unauthorized)
        } else if self.providers.contains_key(provider) {
            Some(ContractError::ProviderExists)
        } else {
            None
        }
    }

    pub open spec fn after_register_provider(self, provider: Seq<char>, provider_id: Seq<char>, credentials: Seq<char>) -> LedgerView {
        LedgerView {
            providers: self.providers.insert(provider, ProviderView { provider_id, credentials, active: true }),
            ..self
        }
    }

    pub open spec fn provider_status_error(self, caller: Seq<char>, provider: Seq<char>) -> Option<ContractError> {
        if !self.is_active_admin(caller) {
            Some(ContractError::Unauthorized)
        } else if !self.providers.contains_key(provider) {
            Some(ContractError::ProviderNotFound)
        } else {
            None
        }
    }

    pub open spec fn after_provider_status(self, provider: Seq<char>, active: bool) -> LedgerView {
        LedgerView {
            providers: self.providers.insert(provider, ProviderView { active, ..self.providers[provider] }),
            ..self
        }
    }

    pub open spec fn upload_error(self, caller: Seq<char>, record_id: Seq<char>) -> Option<ContractError> {
        if !self.is_active_provider(caller) {
            Some(ContractError::InactiveProvider)
        } else if self.records.contains_key(record_id) {
            Some(ContractError::RecordExists)
        } else {
            None
        }
    }

    pub open spec fn after_upload(self, record_id: Seq<char>, record: HealthRecordView) -> LedgerView {
        LedgerView { records: self.records.insert(record_id, record), ..self }
    }

    pub open spec fn update_record_error(self, caller: Seq<char>, record_id: Seq<char>) -> Option<ContractError> {
        if !self.is_active_provider(caller) {
            Some(ContractError::InactiveProvider)
        } else if !self.records.contains_key(record_id) {
            Some(ContractError::RecordNotFound)
        } else {
            None
        }
    }

    pub open spec fn after_update_record(self, record_id: Seq<char>, record_hash: Seq<char>, timestamp: u64) -> LedgerView {
        LedgerView {
            records: self.records.insert(
                record_id,
                HealthRecordView { record_hash, timestamp, ..self.records[record_id] },
            ),
            ..self
        }
    }

    /// Whether the record `record_id` exists and its stored hash is `hash`.
    pub open spec fn hash_matches(self, record_id: Seq<char>, hash: Seq<char>) -> bool {
        self.records.contains_key(record_id) && self.records[record_id].record_hash == hash
    }
}

} // verus!
