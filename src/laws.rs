use vstd::prelude::*;

use crate::model::{endorse, endorsers, fresh_admin, LedgerView};
use crate::types::{ContractError, HealthRecordView};

verus! {

broadcast use vstd::seq::Seq::lemma_push_to_set_commute, vstd::seq_lib::seq_to_set_is_finite;

/// The state after `proposers`, in order, each call `propose_admin` for `target`.
pub open spec fn propose_run(v: LedgerView, proposers: Seq<Seq<char>>, target: Seq<char>) -> LedgerView
    decreases proposers.len(),
{
    if proposers.len() == 0 {
        v
    } else {
        propose_run(v, proposers.drop_last(), target).propose_step(proposers.last(), target)
    }
}

/// The state after `removers`, in order, each call `remove_admin` for `target`.
pub open spec fn removal_run(v: LedgerView, removers: Seq<Seq<char>>, target: Seq<char>) -> LedgerView
    decreases removers.len(),
{
    if removers.len() == 0 {
        v
    } else {
        removal_run(v, removers.drop_last(), target).remove_step(removers.last(), target)
    }
}

/// Adding a caller to a duplicate-free list of endorsers keeps it duplicate-free
/// and adds the caller to its set.
proof fn lemma_endorse(list: Seq<Seq<char>>, who: Seq<char>)
    requires
        list.no_duplicates(),
    ensures
        endorse(list, who).no_duplicates(),
        endorse(list, who).to_set() == list.to_set().insert(who),
        endorse(list, who).len() == list.to_set().insert(who).len(),
{
    if list.contains(who) {
        assert(list.to_set().insert(who) =~= list.to_set());
    } else {
        let l2 = list.push(who);
        assert forall|i: int, j: int| 0 <= i < l2.len() && 0 <= j < l2.len() && i != j implies l2[i]
            != l2[j] by {
            if i == list.len() {
                assert(list[j] != who);
            } else if j == list.len() {
                assert(list[i] != who);
            }
        }
    }
    endorse(list, who).unique_seq_to_set();
}

proof fn lemma_admission_run(v: LedgerView, ps: Seq<Seq<char>>, target: Seq<char>)
    requires
        v.settings is Some,
        v.threshold() >= 1,
        !v.is_active_admin(target),
        !v.pending_additions.contains_key(target),
        forall|i: int| 0 <= i < ps.len() ==> v.is_active_admin(#[trigger] ps[i]),
    ensures
        propose_run(v, ps, target).settings == v.settings,
        ps.to_set().len() < v.threshold() ==> propose_run(v, ps, target).admins == v.admins
            && endorsers(propose_run(v, ps, target).pending_additions, target).no_duplicates()
            && endorsers(propose_run(v, ps, target).pending_additions, target).to_set()
            == ps.to_set(),
        ps.to_set().len() >= v.threshold() ==> propose_run(v, ps, target).admins == v.admins.insert(
            target,
            fresh_admin(),
        ),
    decreases ps.len(),
{
    if ps.len() == 0 {
        assert(ps.to_set() =~= Set::<Seq<char>>::empty());
        assert(Seq::<Seq<char>>::empty().to_set() =~= Set::<Seq<char>>::empty());
    } else {
        let pre = ps.drop_last();
        let p = ps.last();
        assert forall|i: int| 0 <= i < pre.len() implies v.is_active_admin(#[trigger] pre[i]) by {
            assert(pre[i] == ps[i]);
        }
        lemma_admission_run(v, pre, target);
        assert(ps =~= pre.push(p));
        assert(ps.to_set() == pre.to_set().insert(p));
        assert(v.is_active_admin(ps[ps.len() - 1]));
        let r0 = propose_run(v, pre, target);
        let t0 = endorsers(r0.pending_additions, target);
        if pre.to_set().len() < v.threshold() {
            lemma_endorse(t0, p);
            let r = r0.after_propose_admin(p, target);
            assert(r == propose_run(v, ps, target));
            if endorse(t0, p).len() < v.threshold() {
                assert(endorsers(r.pending_additions, target) == endorse(t0, p));
            }
        } else {
            assert(pre.to_set().insert(p).len() >= pre.to_set().len());
            assert(r0.admins.insert(target, fresh_admin()) =~= r0.admins);
        }
    }
}

/// With a quorum of at least one, an identity that is not an active admin
/// becomes one through calls of `propose_admin` by active admins exactly when
/// the distinct callers number at least the quorum, in any order and however
/// often each repeats; until then the admin set does not change.
pub proof fn law_admission_needs_quorum(v: LedgerView, proposers: Seq<Seq<char>>, target: Seq<char>)
    requires
        v.settings is Some,
        v.threshold() >= 1,
        !v.is_active_admin(target),
        !v.pending_additions.contains_key(target),
        forall|i: int| 0 <= i < proposers.len() ==> v.is_active_admin(#[trigger] proposers[i]),
    ensures
        propose_run(v, proposers, target).is_active_admin(target) <==> proposers.to_set().len()
            >= v.threshold(),
        propose_run(v, proposers, target).admins == if proposers.to_set().len() >= v.threshold() {
            v.admins.insert(target, fresh_admin())
        } else {
            v.admins
        },
{
    lemma_admission_run(v, proposers, target);
}

proof fn lemma_removal_run(v: LedgerView, ps: Seq<Seq<char>>, target: Seq<char>)
    requires
        v.settings is Some,
        v.threshold() >= 1,
        !v.pending_removals.contains_key(target),
        forall|i: int| 0 <= i < ps.len() ==> v.is_active_admin(#[trigger] ps[i]),
    ensures
        removal_run(v, ps, target).settings == v.settings,
        ps.to_set().len() < v.threshold() ==> removal_run(v, ps, target).admins == v.admins
            && endorsers(removal_run(v, ps, target).pending_removals, target).no_duplicates()
            && endorsers(removal_run(v, ps, target).pending_removals, target).to_set()
            == ps.to_set(),
        ps.to_set().len() >= v.threshold() ==> removal_run(v, ps, target).admins == v.admins.remove(
            target,
        ),
    decreases ps.len(),
{
    if ps.len() == 0 {
        assert(ps.to_set() =~= Set::<Seq<char>>::empty());
        assert(Seq::<Seq<char>>::empty().to_set() =~= Set::<Seq<char>>::empty());
    } else {
        let pre = ps.drop_last();
        let p = ps.last();
        assert forall|i: int| 0 <= i < pre.len() implies v.is_active_admin(#[trigger] pre[i]) by {
            assert(pre[i] == ps[i]);
        }
        lemma_removal_run(v, pre, target);
        assert(ps =~= pre.push(p));
        assert(ps.to_set() == pre.to_set().insert(p));
        assert(v.is_active_admin(ps[ps.len() - 1]));
        let r0 = removal_run(v, pre, target);
        let t0 = endorsers(r0.pending_removals, target);
        if pre.to_set().len() < v.threshold() {
            lemma_endorse(t0, p);
            let r = r0.after_remove_admin(p, target);
            assert(r == removal_run(v, ps, target));
            if endorse(t0, p).len() < v.threshold() {
                assert(endorsers(r.pending_removals, target) == endorse(t0, p));
            }
        } else {
            assert(pre.to_set().insert(p).len() >= pre.to_set().len());
            assert(r0.admins.remove(target) =~= r0.admins);
        }
    }
}

/// With a quorum of at least one, calls of `remove_admin` by active admins
/// remove `target` exactly when the distinct callers number at least the
/// quorum (the target may be one of them); from then on the target is no
/// active admin. Until then the admin set does not change.
pub proof fn law_removal_needs_quorum(v: LedgerView, removers: Seq<Seq<char>>, target: Seq<char>)
    requires
        v.settings is Some,
        v.threshold() >= 1,
        !v.pending_removals.contains_key(target),
        forall|i: int| 0 <= i < removers.len() ==> v.is_active_admin(#[trigger] removers[i]),
    ensures
        removal_run(v, removers, target).admins == if removers.to_set().len() >= v.threshold() {
            v.admins.remove(target)
        } else {
            v.admins
        },
        removers.to_set().len() >= v.threshold() ==> !removal_run(v, removers, target).is_active_admin(
            target,
        ),
{
    lemma_removal_run(v, removers, target);
}

/// After a record is stored under `record_id`, every upload under the same
/// identifier is refused, whoever the caller, and the stored record is the one
/// uploaded.
pub proof fn law_upload_write_once(
    v: LedgerView,
    first_caller: Seq<char>,
    record_id: Seq<char>,
    record: HealthRecordView,
    second_caller: Seq<char>,
)
    requires
        v.upload_error(first_caller, record_id) is None,
    ensures
        v.after_upload(record_id, record).upload_error(second_caller, record_id) is Some,
        v.after_upload(record_id, record).records[record_id] == record,
{
}

/// An update keeps a record's owner and type, and afterwards the record
/// verifies against the new hash and no other.
pub proof fn law_update_keeps_owner_and_type(
    v: LedgerView,
    caller: Seq<char>,
    record_id: Seq<char>,
    new_hash: Seq<char>,
    new_timestamp: u64,
)
    requires
        v.update_record_error(caller, record_id) is None,
    ensures
        v.after_update_record(record_id, new_hash, new_timestamp).records[record_id].owner
            == v.records[record_id].owner,
        v.after_update_record(record_id, new_hash, new_timestamp).records[record_id].record_type
            == v.records[record_id].record_type,
        forall|h: Seq<char>|
            v.after_update_record(record_id, new_hash, new_timestamp).hash_matches(record_id, h)
                <==> h == new_hash,
{
}

/// After a provider is registered, registering the same identity again is
/// refused, whoever the caller.
pub proof fn law_provider_write_once(
    v: LedgerView,
    first_caller: Seq<char>,
    provider: Seq<char>,
    provider_id: Seq<char>,
    credentials: Seq<char>,
    second_caller: Seq<char>,
)
    requires
        v.register_provider_error(first_caller, provider) is None,
    ensures
        v.after_register_provider(provider, provider_id, credentials).register_provider_error(
            second_caller,
            provider,
        ) is Some,
{
}

/// Once a provider is deactivated, its uploads and updates are refused.
pub proof fn law_deactivated_provider_cannot_write(
    v: LedgerView,
    admin: Seq<char>,
    provider: Seq<char>,
    record_id: Seq<char>,
)
    requires
        v.provider_status_error(admin, provider) is None,
    ensures
        v.after_provider_status(provider, false).upload_error(provider, record_id) == Some(
            ContractError::InactiveProvider,
        ),
        v.after_provider_status(provider, false).update_record_error(provider, record_id) == Some(
            ContractError::InactiveProvider,
        ),
{
}

} // verus!
