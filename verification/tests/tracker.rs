use levana_perps::tracker::{CodeIdResp, ContractResp, Tracker, TrackerError, TrackerExecuteMsg};

fn s(x: &str) -> String {
    x.to_string()
}

fn tracker_with_code() -> Tracker {
    let mut t = Tracker::instantiate(s("admin"));
    t.execute(
        &s("admin"),
        &None,
        10,
        TrackerExecuteMsg::CodeId { contract_type: s("market"), code_id: 7, hash: s("h7"), gitrev: None },
    )
    .unwrap();
    t
}

#[test]
fn tracker_requires_admin() {
    let mut t = Tracker::instantiate(s("admin"));
    let msg = TrackerExecuteMsg::AddAdmin { address: s("bob") };
    assert_eq!(t.execute(&s("eve"), &None, 0, msg).unwrap_err(), TrackerError::NotAdmin);
    // The contract's own admin is always allowed.
    let msg = TrackerExecuteMsg::AddAdmin { address: s("bob") };
    assert!(t.execute(&s("root"), &Some(s("root")), 0, msg).is_ok());
    let msg = TrackerExecuteMsg::AddAdmin { address: s("bob") };
    assert_eq!(t.execute(&s("admin"), &None, 0, msg).unwrap_err(), TrackerError::AlreadyAnAdmin);
}

#[test]
fn tracker_registers_code_once() {
    let mut t = tracker_with_code();
    let again = TrackerExecuteMsg::CodeId { contract_type: s("market"), code_id: 7, hash: s("other"), gitrev: None };
    assert_eq!(t.execute(&s("admin"), &None, 11, again).unwrap_err(), TrackerError::CodeIdAlreadySubmitted);
    let same_hash = TrackerExecuteMsg::CodeId { contract_type: s("market"), code_id: 8, hash: s("h7"), gitrev: None };
    assert_eq!(t.execute(&s("admin"), &None, 11, same_hash).unwrap_err(), TrackerError::CodeHashAlreadySubmitted);
    match t.query_code_by_id(7) {
        CodeIdResp::Found { contract_type, code_id, hash, tracked_at, .. } => {
            assert_eq!(contract_type, "market");
            assert_eq!(code_id, 7);
            assert_eq!(hash, "h7");
            assert_eq!(tracked_at, 10);
        }
        CodeIdResp::NotFound => panic!("code 7 should be found"),
    }
    assert!(matches!(t.query_code_by_hash(&s("h7")), CodeIdResp::Found { code_id: 7, .. }));
    assert!(matches!(t.query_code_by_id(8), CodeIdResp::NotFound));
}

#[test]
fn tracker_numbers_instances_per_family() {
    let mut t = tracker_with_code();
    for addr in ["c0", "c1"] {
        t.execute(&s("admin"), &None, 20, TrackerExecuteMsg::Instantiate { code_id: 7, address: s(addr), family: s("fam") })
            .unwrap();
    }
    let unknown = TrackerExecuteMsg::Instantiate { code_id: 9, address: s("c9"), family: s("fam") };
    assert_eq!(t.execute(&s("admin"), &None, 20, unknown).unwrap_err(), TrackerError::CodeIdNotFound);
    assert_eq!(t.family_address_exec(&s("market"), &s("fam"), Some(0)), Some(s("c0")));
    assert_eq!(t.family_address_exec(&s("market"), &s("fam"), None), Some(s("c1")));
    assert_eq!(t.family_address_exec(&s("market"), &s("other"), None), None);
    match t.query_contract_by_address(&s("c1")).unwrap() {
        ContractResp::Found { sequence, contract_type, migrate_count, .. } => {
            assert_eq!(sequence, 1);
            assert_eq!(contract_type, "market");
            assert_eq!(migrate_count, 0);
        }
        ContractResp::NotFound => panic!("c1 should be tracked"),
    }
    assert!(matches!(t.query_contract_by_family(&s("market"), &s("fam"), Some(0)).unwrap(), ContractResp::Found { .. }));
}

#[test]
fn tracker_migrates_within_type() {
    let mut t = tracker_with_code();
    t.execute(&s("admin"), &None, 20, TrackerExecuteMsg::Instantiate { code_id: 7, address: s("c0"), family: s("fam") })
        .unwrap();
    t.execute(
        &s("admin"),
        &None,
        30,
        TrackerExecuteMsg::CodeId { contract_type: s("market"), code_id: 8, hash: s("h8"), gitrev: Some(s("abc")) },
    )
    .unwrap();
    t.execute(
        &s("admin"),
        &None,
        31,
        TrackerExecuteMsg::CodeId { contract_type: s("token"), code_id: 9, hash: s("h9"), gitrev: None },
    )
    .unwrap();
    let wrong = TrackerExecuteMsg::Migrate { new_code_id: 9, address: s("c0") };
    assert_eq!(t.execute(&s("admin"), &None, 40, wrong).unwrap_err(), TrackerError::ContractTypeMismatch);
    let missing = TrackerExecuteMsg::Migrate { new_code_id: 8, address: s("zz") };
    assert_eq!(t.execute(&s("admin"), &None, 40, missing).unwrap_err(), TrackerError::ContractNotFound);
    t.execute(&s("admin"), &None, 40, TrackerExecuteMsg::Migrate { new_code_id: 8, address: s("c0") }).unwrap();
    match t.query_contract_by_address(&s("c0")).unwrap() {
        ContractResp::Found { current_code_id, original_code_id, migrate_count, current_tracked_at, .. } => {
            assert_eq!(current_code_id, 8);
            assert_eq!(original_code_id, 7);
            assert_eq!(migrate_count, 1);
            assert_eq!(current_tracked_at, 40);
        }
        ContractResp::NotFound => panic!("c0 should be tracked"),
    }
}

#[test]
fn tracker_removes_admins() {
    let mut t = Tracker::instantiate(s("admin"));
    let msg = TrackerExecuteMsg::RemoveAdmin { address: s("bob") };
    assert_eq!(t.execute(&s("admin"), &None, 0, msg).unwrap_err(), TrackerError::NotAnAdmin);
    let msg = TrackerExecuteMsg::RemoveAdmin { address: s("admin") };
    t.execute(&s("admin"), &None, 0, msg).unwrap();
    let msg = TrackerExecuteMsg::AddAdmin { address: s("bob") };
    assert_eq!(t.execute(&s("admin"), &None, 0, msg).unwrap_err(), TrackerError::NotAdmin);
}
