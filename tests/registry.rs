use med_registry::{ContractError, Endorsement, HealthCareContract};

fn s(x: &str) -> String {
    x.to_string()
}

fn with_admins(admins: &[&str], threshold: u32) -> HealthCareContract {
    let mut c = HealthCareContract::new();
    let list: Vec<String> = admins.iter().map(|a| s(a)).collect();
    assert_eq!(c.initialize(&list, threshold), Ok(true));
    c
}

fn with_provider() -> HealthCareContract {
    let mut c = with_admins(&["admin"], 1);
    assert_eq!(c.register_provider(&s("admin"), s("prov"), s("DR123"), s("Board Certified")), Ok(true));
    c
}

#[test]
fn test_contract_initialization() {
    let mut c = HealthCareContract::new();
    assert!(!c.is_admin(&s("admin")));
    assert_eq!(c.get_required_approvals(), Err(ContractError::NotInitialized));
    assert_eq!(c.initialize(&vec![s("admin")], 1), Ok(true));
    assert!(c.is_admin(&s("admin")));
    assert_eq!(c.get_required_approvals(), Ok(1));
    assert_eq!(c.settings.map(|x| x.is_upgradable), Some(true));
    assert_eq!(c.initialize(&vec![s("admin2")], 1), Err(ContractError::AlreadyInitialized));
    assert!(!c.is_admin(&s("admin2")));
    assert_eq!(c.get_admins().entries.len(), 1);
}

#[test]
fn initialization_marks_every_admin_with_weight_one() {
    let c = with_admins(&["a", "b", "a"], 2);
    assert_eq!(c.admins.entries.len(), 2);
    for (_, st) in c.admins.entries.iter() {
        assert_eq!(st.weight, 1);
        assert!(st.active);
    }
    assert_eq!(c.get_required_approvals(), Ok(2));
}

#[test]
fn single_admin_quorum_of_one_finalizes_at_once() {
    let mut c = with_admins(&["A"], 1);
    assert_eq!(c.propose_admin(&s("A"), &s("B")), Ok(true));
    assert!(c.is_admin(&s("B")));
    assert_eq!(c.validate_admin(&s("B")), Ok(()));
    assert!(c.pending_additions.entries.is_empty());
}

#[test]
fn two_admins_quorum_of_two_needs_both() {
    let mut c = with_admins(&["A", "B"], 2);
    assert_eq!(c.propose_admin(&s("A"), &s("C")), Ok(true));
    assert!(!c.is_admin(&s("C")));
    assert_eq!(c.propose_admin(&s("B"), &s("C")), Ok(true));
    assert!(c.is_admin(&s("C")));
}

#[test]
fn repeated_endorsement_counts_once() {
    let mut c = with_admins(&["A", "B"], 2);
    assert_eq!(c.endorse_addition(&s("A"), &s("C")), Ok(Endorsement::Recorded));
    assert_eq!(c.endorse_addition(&s("A"), &s("C")), Ok(Endorsement::AlreadyEndorsed));
    assert!(!c.is_admin(&s("C")));
    assert_eq!(c.endorse_addition(&s("B"), &s("C")), Ok(Endorsement::Finalized));
    assert!(c.is_admin(&s("C")));
}

#[test]
fn non_admin_cannot_propose_or_remove() {
    let mut c = with_admins(&["A"], 1);
    assert_eq!(c.propose_admin(&s("U"), &s("X")), Err(ContractError::Unauthorized));
    assert_eq!(c.remove_admin(&s("U"), &s("A")), Err(ContractError::Unauthorized));
    assert!(!c.is_admin(&s("X")));
    assert!(c.is_admin(&s("A")));
    assert!(c.pending_additions.entries.is_empty());
}

#[test]
fn uninitialized_registry_refuses_governance() {
    let mut c = HealthCareContract::new();
    assert_eq!(c.propose_admin(&s("A"), &s("B")), Err(ContractError::Unauthorized));
    assert_eq!(c.validate_admin(&s("A")), Err(ContractError::Unauthorized));
}

#[test]
fn removal_needs_quorum_and_revokes_admin() {
    let mut c = with_admins(&["A", "B", "C"], 2);
    assert_eq!(c.remove_admin(&s("A"), &s("C")), Ok(true));
    assert!(c.is_admin(&s("C")));
    assert_eq!(c.remove_admin(&s("A"), &s("C")), Ok(true));
    assert!(c.is_admin(&s("C")));
    assert_eq!(c.endorse_removal(&s("B"), &s("C")), Ok(Endorsement::Finalized));
    assert!(!c.is_admin(&s("C")));
    assert_eq!(c.validate_admin(&s("C")), Err(ContractError::Unauthorized));
    assert_eq!(c.propose_admin(&s("C"), &s("D")), Err(ContractError::Unauthorized));
}

#[test]
fn add_and_remove_trackers_are_separate() {
    let mut c = with_admins(&["A", "B"], 2);
    assert_eq!(c.propose_admin(&s("A"), &s("X")), Ok(true));
    assert_eq!(c.remove_admin(&s("B"), &s("X")), Ok(true));
    assert!(!c.is_admin(&s("X")));
    assert_eq!(c.pending_additions.entries.len(), 1);
    assert_eq!(c.pending_removals.entries.len(), 1);
}

#[test]
fn admin_may_remove_itself_and_the_last_admin() {
    let mut c = with_admins(&["A"], 1);
    assert_eq!(c.remove_admin(&s("A"), &s("A")), Ok(true));
    assert!(!c.is_admin(&s("A")));
    assert!(c.admins.entries.is_empty());
    assert_eq!(c.propose_admin(&s("A"), &s("A")), Err(ContractError::Unauthorized));
}

#[test]
fn target_can_be_proposed_again_after_finalization() {
    let mut c = with_admins(&["A", "B"], 2);
    c.propose_admin(&s("A"), &s("C")).unwrap();
    c.propose_admin(&s("B"), &s("C")).unwrap();
    c.remove_admin(&s("A"), &s("C")).unwrap();
    c.remove_admin(&s("B"), &s("C")).unwrap();
    assert!(!c.is_admin(&s("C")));
    assert_eq!(c.endorse_addition(&s("A"), &s("C")), Ok(Endorsement::Recorded));
    assert!(!c.is_admin(&s("C")));
}

#[test]
fn test_admin_management() {
    let mut c = with_admins(&["admin1"], 1);
    assert_eq!(c.propose_admin(&s("admin1"), &s("admin2")), Ok(true));
    assert!(c.is_admin(&s("admin2")));
    assert_eq!(c.propose_admin(&s("admin1"), &s("admin2")), Ok(true));
    assert_eq!(c.propose_admin(&s("normal_user"), &s("other")), Err(ContractError::Unauthorized));
    assert_eq!(c.propose_admin(&s("admin2"), &s("admin3")), Ok(true));
    assert!(c.is_admin(&s("admin3")));
}

#[test]
fn test_provider_registration() {
    let mut c = with_provider();
    assert!(c.is_active_provider(&s("prov")));
    assert_eq!(
        c.register_provider(&s("admin"), s("prov"), s("DR123_new"), s("New Credentials")),
        Err(ContractError::ProviderExists)
    );
    let entry = &c.providers.entries[0].1;
    assert_eq!(entry.provider_id, "DR123");
    assert_eq!(entry.credentials, "Board Certified");
    assert_eq!(
        c.register_provider(&s("normal_user"), s("other"), s("DR456"), s("Some Credentials")),
        Err(ContractError::Unauthorized)
    );
    assert_eq!(c.providers.entries.len(), 1);
    assert!(!c.is_active_provider(&s("other")));
}

#[test]
fn test_provider_status_update() {
    let mut c = with_provider();
    assert_eq!(c.update_provider_status(&s("admin"), &s("prov"), false), Ok(true));
    assert!(!c.is_active_provider(&s("prov")));
    let entry = &c.providers.entries[0].1;
    assert_eq!(entry.provider_id, "DR123");
    assert_eq!(entry.credentials, "Board Certified");
    assert_eq!(
        c.update_provider_status(&s("admin"), &s("nobody"), false),
        Err(ContractError::ProviderNotFound)
    );
    assert_eq!(
        c.update_provider_status(&s("prov"), &s("prov"), true),
        Err(ContractError::Unauthorized)
    );
    assert_eq!(c.update_provider_status(&s("admin"), &s("prov"), true), Ok(true));
    assert!(c.is_active_provider(&s("prov")));
}

#[test]
fn test_health_record_management() {
    let mut c = with_admins(&["admin"], 1);
    c.register_provider(&s("admin"), s("provider"), s("DR123"), s("Active Doctor")).unwrap();
    c.register_provider(&s("admin"), s("inactive"), s("DR456"), s("Inactive Doctor")).unwrap();
    c.update_provider_status(&s("admin"), &s("inactive"), false).unwrap();

    assert_eq!(
        c.upload_health_record(&s("provider"), s("REC001"), s("patient"), s("hash123"), s("Blood Test"), 1234567890),
        Ok(true)
    );
    assert_eq!(
        c.upload_health_record(&s("inactive"), s("REC002"), s("patient"), s("hash456"), s("X-Ray"), 1234567891),
        Err(ContractError::InactiveProvider)
    );
    assert_eq!(
        c.upload_health_record(&s("provider"), s("REC001"), s("patient"), s("hash789"), s("MRI"), 1234567892),
        Err(ContractError::RecordExists)
    );
    assert_eq!(c.update_health_record(&s("provider"), &s("REC001"), s("updated_hash"), 1234567900), Ok(true));
    assert!(c.verify_health_record(&s("REC001"), &s("updated_hash")));
    assert!(!c.verify_health_record(&s("REC001"), &s("wrong_hash")));
    assert!(!c.verify_health_record(&s("REC001"), &s("hash123")));
    assert_eq!(
        c.get_record_details(&s("REC001")),
        Ok((s("patient"), s("updated_hash"), s("Blood Test"), 1234567900))
    );
    assert_eq!(c.get_record_details(&s("NON_EXISTENT")), Err(ContractError::RecordNotFound));
}

#[test]
fn second_upload_keeps_first_record() {
    let mut c = with_provider();
    c.register_provider(&s("admin"), s("prov2"), s("DR9"), s("Other")).unwrap();
    c.upload_health_record(&s("prov"), s("R1"), s("pat"), s("h1"), s("Lab"), 10).unwrap();
    assert_eq!(
        c.upload_health_record(&s("prov2"), s("R1"), s("pat2"), s("h2"), s("MRI"), 20),
        Err(ContractError::RecordExists)
    );
    assert_eq!(c.get_record_details(&s("R1")), Ok((s("pat"), s("h1"), s("Lab"), 10)));
}

#[test]
fn update_of_missing_record_or_by_inactive_provider_fails() {
    let mut c = with_provider();
    assert_eq!(
        c.update_health_record(&s("prov"), &s("R9"), s("h"), 1),
        Err(ContractError::RecordNotFound)
    );
    c.upload_health_record(&s("prov"), s("R1"), s("pat"), s("h1"), s("Lab"), 10).unwrap();
    c.update_provider_status(&s("admin"), &s("prov"), false).unwrap();
    assert_eq!(
        c.update_health_record(&s("prov"), &s("R1"), s("h2"), 11),
        Err(ContractError::InactiveProvider)
    );
    assert_eq!(
        c.update_health_record(&s("stranger"), &s("R1"), s("h2"), 11),
        Err(ContractError::InactiveProvider)
    );
    assert!(c.verify_health_record(&s("R1"), &s("h1")));
}

#[test]
fn verify_of_absent_record_is_false() {
    let c = with_provider();
    assert!(!c.verify_health_record(&s("none"), &s("")));
}

#[test]
fn empty_identifiers_are_ordinary_keys() {
    let mut c = with_admins(&[""], 1);
    assert!(c.is_admin(&s("")));
    assert!(!c.is_admin(&s(" ")));
    assert_eq!(c.register_provider(&s(""), s(""), s(""), s("")), Ok(true));
    assert_eq!(c.upload_health_record(&s(""), s(""), s(""), s(""), s(""), u64::MAX), Ok(true));
    assert_eq!(c.get_record_details(&s("")), Ok((s(""), s(""), s(""), u64::MAX)));
}

#[test]
fn admission_counts_distinct_endorsers_in_any_order() {
    let orders: [[&str; 5]; 3] = [
        ["A", "A", "B", "B", "C"],
        ["C", "B", "B", "C", "A"],
        ["B", "C", "C", "C", "A"],
    ];
    for order in orders.iter() {
        let mut c = with_admins(&["A", "B", "C", "D"], 3);
        for (i, who) in order.iter().enumerate() {
            assert_eq!(c.propose_admin(&s(who), &s("X")), Ok(true));
            assert_eq!(c.is_admin(&s("X")), i == order.len() - 1);
        }
    }
}
