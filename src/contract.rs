use vstd::prelude::*;

use crate::model::{endorse, endorsers, fresh_admin, initial_admins, LedgerView};
use crate::table::Table;
use crate::types::{AdminStatus, ContractError, Endorsement, HealthRecord, Provider, Settings};

verus! {

/// The registry: admin set, settings, provider directory, record index and the
/// two trackers of pending admin-set changes. Every operation takes the
/// identity of a caller whose authorisation has already been established.
pub struct HealthCareContract {
    pub admins: Table<AdminStatus>,
    pub settings: Option<Settings>,
    pub providers: Table<Provider>,
    pub records: Table<HealthRecord>,
    pub pending_additions: Table<Vec<String>>,
    pub pending_removals: Table<Vec<String>>,
}

impl View for HealthCareContract {
    type V = LedgerView;

    open spec fn view(&self) -> LedgerView {
        LedgerView {
            admins: self.admins@,
            settings: self.settings,
            providers: self.providers@,
            records: self.records@,
            pending_additions: self.pending_additions@,
            pending_removals: self.pending_removals@,
        }
    }
}

/// The endorsers of `target` in `tracker` with `who` added, and whether `who`
/// was there already.
fn endorsed_list(tracker: &Table<Vec<String>>, who: &String, target: &String) -> (r: (Vec<String>, bool))
    requires
        tracker.wf(),
    ensures
        r.0.deep_view() == endorse(endorsers(tracker@, target@), who@),
        r.1 == endorsers(tracker@, target@).contains(who@),
{
    let mut list: Vec<String> = Vec::new();
    let mut found = false;
    let ghost before = endorsers(tracker@, target@);
    match tracker.get(target) {
        Some(existing) => {
            let ghost ev = existing.deep_view();
            let mut j: usize = 0;
            while j < existing.len()
                invariant
                    ev == existing.deep_view(),
                    0 <= j <= existing@.len(),
                    list.deep_view() == ev.take(j as int),
                    found == ev.take(j as int).contains(who@),
                decreases existing@.len() - j,
            {
                let s = existing[j].clone();
                let same = s == *who;
                list.push(s);
                proof {
                    assert(ev.take(j as int + 1) =~= ev.take(j as int).push(ev[j as int]));
                    assert(list.deep_view() =~= ev.take(j as int + 1));
                    if same {
                        assert(ev.take(j as int + 1)[j as int] == who@);
                    }
                    if ev.take(j as int + 1).contains(who@) && !same {
                        let w = choose|w: int| 0 <= w < j + 1 && #[trigger] ev.take(j as int + 1)[w] == who@;
                        assert(ev.take(j as int)[w] == who@);
                    }
                }
                found = found || same;
                j += 1;
            }
            proof {
                assert(ev.take(j as int) =~= ev);
            }
        },
        None => {
            assert(list.deep_view() =~= before);
        },
    }
    if !found {
        list.push(who.clone());
        proof {
            assert(list.deep_view() =~= before.push(who@));
        }
    }
    (list, found)
}

impl HealthCareContract {
    pub open spec fn wf(&self) -> bool {
        &&& self.admins.wf()
        &&& self.providers.wf()
        &&& self.records.wf()
        &&& self.pending_additions.wf()
        &&& self.pending_removals.wf()
    }

    /// A registry that has not been initialised.
    pub fn new() -> (r: Self)
        ensures
            r.wf(),
            r@ == LedgerView::empty(),
    {
        HealthCareContract {
            admins: Table::new(),
            settings: None,
            providers: Table::new(),
            records: Table::new(),
            pending_additions: Table::new(),
            pending_removals: Table::new(),
        }
    }

    /// Seeds the admin set, each listed identity with weight 1 and active, and
    /// fixes the number of distinct endorsements an admin-set change needs.
    /// Allowed once.
    pub fn initialize(&mut self, initial_admins_list: &Vec<String>, required_approvals: u32) -> (r: Result<bool, ContractError>)
        requires
            old(self).wf(),
        ensures
            final(self).wf(),
            match r {
                Ok(b) => b && old(self)@.initialize_error() is None && final(self)@ == old(self)@.after_initialize(
                    initial_admins_list.deep_view(),
                    required_approvals,
                ),
                Err(e) => old(self)@.initialize_error() == Some(e) && final(self)@ == old(self)@,
            },
    {
        if self.settings.is_some() {
            return Err(ContractError::AlreadyInitialized);
        }
        let ghost ids = initial_admins_list.deep_view();
        let mut admins: Table<AdminStatus> = Table::new();
        let mut i: usize = 0;
        proof {
            assert(admins@ =~= initial_admins(ids.take(0)));
        }
        while i < initial_admins_list.len()
            invariant
                ids == initial_admins_list.deep_view(),
                0 <= i <= initial_admins_list@.len(),
                admins.wf(),
                admins@ == initial_admins(ids.take(i as int)),
            decreases initial_admins_list@.len() - i,
        {
            admins.set(initial_admins_list[i].clone(), AdminStatus { weight: 1, active: true });
            proof {
                let next = ids.take(i as int + 1);
                assert(next =~= ids.take(i as int).push(ids[i as int]));
                assert forall|k: Seq<char>| #[trigger] next.contains(k) <==> (ids.take(i as int).contains(k) || k == ids[i as int]) by {
                    if next.contains(k) && k != ids[i as int] {
                        let w = choose|w: int| 0 <= w < next.len() && #[trigger] next[w] == k;
                        assert(ids.take(i as int)[w] == k);
                    }
                    if k == ids[i as int] {
                        assert(next[i as int] == k);
                    }
                    if ids.take(i as int).contains(k) {
                        let w = choose|w: int| 0 <= w < i && #[trigger] ids.take(i as int)[w] == k;
                        assert(next[w] == k);
                    }
                }
                assert(admins@ =~= initial_admins(next));
            }
            i += 1;
        }
        proof {
            assert(ids.take(i as int) =~= ids);
        }
        self.admins = admins;
        self.settings = Some(Settings { required_approvals, is_upgradable: true });
        Ok(true)
    }

    /// Whether `address` is an active admin.
    pub fn is_admin(&self, address: &String) -> (r: bool)
        requires
            self.wf(),
        ensures
            r == self@.is_active_admin(address@),
    {
        match self.admins.get(address) {
            Some(status) => status.active,
            None => false,
        }
    }

    /// Refuses anyone but an active admin.
    pub fn validate_admin(&self, address: &String) -> (r: Result<(), ContractError>)
        requires
            self.wf(),
        ensures
            r is Ok <==> self@.is_active_admin(address@),
            r is Err ==> r == Err::<(), ContractError>(ContractError::Unauthorized),
    {
        if self.is_admin(address) {
            Ok(())
        } else {
            Err(ContractError::Unauthorized)
        }
    }

    /// Whether `address` is a registered provider whose entry is active.
    pub fn is_active_provider(&self, address: &String) -> (r: bool)
        requires
            self.wf(),
        ensures
            r == self@.is_active_provider(address@),
    {
        match self.providers.get(address) {
            Some(p) => p.active,
            None => false,
        }
    }

    /// The quorum for admin-set changes, once initialised.
    pub fn get_required_approvals(&self) -> (r: Result<u32, ContractError>)
        ensures
            match self.settings {
                Some(s) => r == Ok::<u32, ContractError>(s.required_approvals),
                None => r == Err::<u32, ContractError>(ContractError::NotInitialized),
            },
    {
        match self.settings {
            Some(s) => Ok(s.required_approvals),
            None => Err(ContractError::NotInitialized),
        }
    }

    /// The admin set.
    pub fn get_admins(&self) -> (r: &Table<AdminStatus>)
        ensures
            r@ == self@.admins,
    {
        &self.admins
    }

    /// Admits `new_admin` with weight 1, active, and clears its addition tracker.
    fn finalize_admin_add(&mut self, new_admin: &String)
        requires
            old(self).wf(),
        ensures
            final(self).wf(),
            final(self)@ == (LedgerView {
                admins: old(self)@.admins.insert(new_admin@, fresh_admin()),
                pending_additions: old(self)@.pending_additions.remove(new_admin@),
                ..old(self)@
            }),
    {
        self.admins.set(new_admin.clone(), AdminStatus { weight: 1, active: true });
        self.pending_additions.remove(new_admin);
    }

    /// Drops `admin_to_remove` from the admin set and clears its removal tracker.
    fn finalize_admin_remove(&mut self, admin_to_remove: &String)
        requires
            old(self).wf(),
        ensures
            final(self).wf(),
            final(self)@ == (LedgerView {
                admins: old(self)@.admins.remove(admin_to_remove@),
                pending_removals: old(self)@.pending_removals.remove(admin_to_remove@),
                ..old(self)@
            }),
    {
        self.admins.remove(admin_to_remove);
        self.pending_removals.remove(admin_to_remove);
    }

    /// `proposer` endorses adding `new_admin`; once the distinct endorsers reach
    /// the quorum, `new_admin` joins the admin set and its tracker is cleared.
    pub fn endorse_addition(&mut self, proposer: &String, new_admin: &String) -> (r: Result<Endorsement, ContractError>)
        requires
            old(self).wf(),
        ensures
            final(self).wf(),
            match r {
                Ok(k) => old(self)@.governance_error(proposer@) is None && k == old(self)@.endorsement(
                    old(self)@.pending_additions,
                    proposer@,
                    new_admin@,
                ) && final(self)@ == old(self)@.after_propose_admin(proposer@, new_admin@),
                Err(e) => old(self)@.governance_error(proposer@) == Some(e) && final(self)@ == old(self)@,
            },
    {
        if !self.is_admin(proposer) {
            return Err(ContractError::Unauthorized);
        }
        let threshold = match self.settings {
            Some(s) => s.required_approvals,
            None => {
                return Err(ContractError::NotInitialized);
            },
        };
        let (list, already) = endorsed_list(&self.pending_additions, proposer, new_admin);
        if list.len() >= threshold as usize {
            self.finalize_admin_add(new_admin);
            Ok(Endorsement::Finalized)
        } else {
            self.pending_additions.set(new_admin.clone(), list);
            if already {
                Ok(Endorsement::AlreadyEndorsed)
            } else {
                Ok(Endorsement::Recorded)
            }
        }
    }

    /// `remover` endorses removing `admin_to_remove`; once the distinct
    /// endorsers reach the quorum, it leaves the admin set and its tracker is
    /// cleared.
    pub fn endorse_removal(&mut self, remover: &String, admin_to_remove: &String) -> (r: Result<Endorsement, ContractError>)
        requires
            old(self).wf(),
        ensures
            final(self).wf(),
            match r {
                Ok(k) => old(self)@.governance_error(remover@) is None && k == old(self)@.endorsement(
                    old(self)@.pending_removals,
                    remover@,
                    admin_to_remove@,
                ) && final(self)@ == old(self)@.after_remove_admin(remover@, admin_to_remove@),
                Err(e) => old(self)@.governance_error(remover@) == Some(e) && final(self)@ == old(self)@,
            },
    {
        if !self.is_admin(remover) {
            return Err(ContractError::Unauthorized);
        }
        let threshold = match self.settings {
            Some(s) => s.required_approvals,
            None => {
                return Err(ContractError::NotInitialized);
            },
        };
        let (list, already) = endorsed_list(&self.pending_removals, remover, admin_to_remove);
        if list.len() >= threshold as usize {
            self.finalize_admin_remove(admin_to_remove);
            Ok(Endorsement::Finalized)
        } else {
            self.pending_removals.set(admin_to_remove.clone(), list);
            if already {
                Ok(Endorsement::AlreadyEndorsed)
            } else {
                Ok(Endorsement::Recorded)
            }
        }
    }

    /// `endorse_addition`, reporting any accepted endorsement as `true`.
    pub fn propose_admin(&mut self, proposer: &String, new_admin: &String) -> (r: Result<bool, ContractError>)
        requires
            old(self).wf(),
        ensures
            final(self).wf(),
            match r {
                Ok(b) => b && old(self)@.governance_error(proposer@) is None && final(self)@
                    == old(self)@.after_propose_admin(proposer@, new_admin@),
                Err(e) => old(self)@.governance_error(proposer@) == Some(e) && final(self)@ == old(self)@,
            },
    {
        match self.endorse_addition(proposer, new_admin) {
            Ok(_) => Ok(true),
            Err(e) => Err(e),
        }
    }

    /// `endorse_removal`, reporting any accepted endorsement as `true`.
    pub fn remove_admin(&mut self, remover: &String, admin_to_remove: &String) -> (r: Result<bool, ContractError>)
        requires
            old(self).wf(),
        ensures
            final(self).wf(),
            match r {
                Ok(b) => b && old(self)@.governance_error(remover@) is None && final(self)@
                    == old(self)@.after_remove_admin(remover@, admin_to_remove@),
                Err(e) => old(self)@.governance_error(remover@) == Some(e) && final(self)@ == old(self)@,
            },
    {
        match self.endorse_removal(remover, admin_to_remove) {
            Ok(_) => Ok(true),
            Err(e) => Err(e),
        }
    }

    /// An active admin registers a new provider, active from the start.
    pub fn register_provider(
        &mut self,
        caller: &String,
        provider_address: String,
        provider_id: String,
        credentials: String,
    ) -> (r: Result<bool, ContractError>)
        requires
            old(self).wf(),
        ensures
            final(self).wf(),
            match r {
                Ok(b) => b && old(self)@.register_provider_error(caller@, provider_address@) is None
                    && final(self)@ == old(self)@.after_register_provider(
                    provider_address@,
                    provider_id@,
                    credentials@,
                ),
                Err(e) => old(self)@.register_provider_error(caller@, provider_address@) == Some(e)
                    && final(self)@ == old(self)@,
            },
    {
        if !self.is_admin(caller) {
            return Err(ContractError::Unauthorized);
        }
        if self.providers.contains(&provider_address) {
            return Err(ContractError::ProviderExists);
        }
        self.providers.set(provider_address, Provider { provider_id, credentials, active: true });
        Ok(true)
    }

    /// An active admin sets a registered provider's active flag, keeping its
    /// identifier and credentials.
    pub fn update_provider_status(&mut self, caller: &String, provider_address: &String, active_status: bool) -> (r: Result<bool, ContractError>)
        requires
            old(self).wf(),
        ensures
            final(self).wf(),
            match r {
                Ok(b) => b && old(self)@.provider_status_error(caller@, provider_address@) is None
                    && final(self)@ == old(self)@.after_provider_status(provider_address@, active_status),
                Err(e) => old(self)@.provider_status_error(caller@, provider_address@) == Some(e)
                    && final(self)@ == old(self)@,
            },
    {
        if !self.is_admin(caller) {
            return Err(ContractError::Unauthorized);
        }
        let updated = match self.providers.get(provider_address) {
            Some(p) => Provider {
                provider_id: p.provider_id.clone(),
                credentials: p.credentials.clone(),
                active: active_status,
            },
            None => {
                return Err(ContractError::ProviderNotFound);
            },
        };
        self.providers.set(provider_address.clone(), updated);
        Ok(true)
    }

    /// An active provider stores a new record under an identifier not yet used.
    pub fn upload_health_record(
        &mut self,
        caller: &String,
        record_id: String,
        user_address: String,
        record_hash: String,
        record_type: String,
        timestamp: u64,
    ) -> (r: Result<bool, ContractError>)
        requires
            old(self).wf(),
        ensures
            final(self).wf(),
            match r {
                Ok(b) => b && old(self)@.upload_error(caller@, record_id@) is None && final(self)@
                    == old(self)@.after_upload(
                    record_id@,
                    crate::types::HealthRecordView {
                        owner: user_address@,
                        record_hash: record_hash@,
                        record_type: record_type@,
                        timestamp,
                    },
                ),
                Err(e) => old(self)@.upload_error(caller@, record_id@) == Some(e) && final(self)@
                    == old(self)@,
            },
    {
        if !self.is_active_provider(caller) {
            return Err(ContractError::InactiveProvider);
        }
        if self.records.contains(&record_id) {
            return Err(ContractError::RecordExists);
        }
        self.records.set(
            record_id,
            HealthRecord { owner: user_address, record_hash, record_type, timestamp },
        );
        Ok(true)
    }

    /// An active provider replaces a record's hash and timestamp, keeping its
    /// owner and type.
    pub fn update_health_record(
        &mut self,
        caller: &String,
        record_id: &String,
        new_record_hash: String,
        new_timestamp: u64,
    ) -> (r: Result<bool, ContractError>)
        requires
            old(self).wf(),
        ensures
            final(self).wf(),
            match r {
                Ok(b) => b && old(self)@.update_record_error(caller@, record_id@) is None
                    && final(self)@ == old(self)@.after_update_record(
                    record_id@,
                    new_record_hash@,
                    new_timestamp,
                ),
                Err(e) => old(self)@.update_record_error(caller@, record_id@) == Some(e)
                    && final(self)@ == old(self)@,
            },
    {
        if !self.is_active_provider(caller) {
            return Err(ContractError::InactiveProvider);
        }
        let updated = match self.records.get(record_id) {
            Some(rec) => HealthRecord {
                owner: rec.owner.clone(),
                record_hash: new_record_hash,
                record_type: rec.record_type.clone(),
                timestamp: new_timestamp,
            },
            None => {
                return Err(ContractError::RecordNotFound);
            },
        };
        self.records.set(record_id.clone(), updated);
        Ok(true)
    }

    /// Whether the record exists and its stored hash is `provided_hash`.
    pub fn verify_health_record(&self, record_id: &String, provided_hash: &String) -> (r: bool)
        requires
            self.wf(),
        ensures
            r == self@.hash_matches(record_id@, provided_hash@),
    {
        match self.records.get(record_id) {
            Some(rec) => rec.record_hash == *provided_hash,
            None => false,
        }
    }

    /// Owner, hash, type and timestamp of a record.
    pub fn get_record_details(&self, record_id: &String) -> (r: Result<(String, String, String, u64), ContractError>)
        requires
            self.wf(),
        ensures
            r is Ok <==> self@.records.contains_key(record_id@),
            match r {
                Ok(t) => t.0@ == self@.records[record_id@].owner && t.1@ == self@.records[record_id@].record_hash
                    && t.2@ == self@.records[record_id@].record_type && t.3
                    == self@.records[record_id@].timestamp,
                Err(e) => e == ContractError::RecordNotFound,
            },
    {
        match self.records.get(record_id) {
            Some(rec) => Ok((rec.owner.clone(), rec.record_hash.clone(), rec.record_type.clone(), rec.timestamp)),
            None => Err(ContractError::RecordNotFound),
        }
    }
}

} // verus!
