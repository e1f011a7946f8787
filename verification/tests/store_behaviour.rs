use employee_store::schema::{
    Access, Employee, EmployeePatch, EmployeeRecord, Employment, History, PreviousPosition,
};
use employee_store::store::{ApiError, EmployeeStore};

fn sample_record(name: &str) -> EmployeeRecord {
    EmployeeRecord {
        id: 0,
        employee: Employee {
            full_name: name.to_string(),
            gender: "Other".to_string(),
            dob: "1990-04-12".to_string(),
            email: "person@example.com".to_string(),
            phone: "0123456789".to_string(),
            address: "12 Long Street, Hanoi".to_string(),
        },
        employment: Employment {
            position: "Engineer".to_string(),
            department: "Platform".to_string(),
            manager_id: None,
            start_date: "2020-01-02".to_string(),
            contract_type: "full-time".to_string(),
            status: "active".to_string(),
            salary: 2000,
        },
        access: Access {
            role: "staff".to_string(),
            permissions: vec!["read".to_string()],
        },
        history: History {
            last_promotion: None,
            previous_positions: vec![PreviousPosition {
                title: "Intern".to_string(),
                from: "2019-01-01".to_string(),
                to: "2019-12-31".to_string(),
            }],
        },
    }
}

fn empty_patch() -> EmployeePatch {
    EmployeePatch::empty()
}

#[test]
fn create_assigns_one_then_two() {
    let mut store = EmployeeStore::new();
    let first = store.create(sample_record("Ann Lee")).expect("valid record");
    assert_eq!(first.id, 1);
    let second = store.create(sample_record("Bob Tran")).expect("valid record");
    assert_eq!(second.id, 2);
}

#[test]
fn create_overrides_embedded_id() {
    let mut store = EmployeeStore::new();
    let mut candidate = sample_record("Ann Lee");
    candidate.id = 77;
    let created = store.create(candidate).expect("valid record");
    assert_eq!(created.id, 1);
}

#[test]
fn create_invalid_record_is_not_inserted() {
    let mut store = EmployeeStore::new();
    let mut candidate = sample_record("Ann Lee");
    candidate.employee.email = "not-an-email".to_string();
    let err = store.create(candidate).expect_err("invalid email");
    assert!(matches!(err, ApiError::ValidationFailed(_)));
    assert_eq!(store.len(), 0);
    assert!(store.get(1).is_err());
}

#[test]
fn created_ids_are_unique() {
    let mut store = EmployeeStore::new();
    let mut ids = Vec::new();
    for _ in 0..6 {
        ids.push(store.create(sample_record("Ann Lee")).expect("valid").id);
    }
    for i in 0..ids.len() {
        for j in 0..ids.len() {
            if i != j {
                assert_ne!(ids[i], ids[j]);
            }
        }
    }
}

#[test]
fn create_exceeds_every_live_id() {
    let mut store = EmployeeStore::new();
    let a = store.create(sample_record("Ann Lee")).expect("valid").id;
    let b = store.create(sample_record("Bob Tran")).expect("valid").id;
    let c = store.create(sample_record("Cam Vu")).expect("valid").id;
    assert_eq!((a, b, c), (1, 2, 3));
    // Deleting a low identifier never reissues it: the next create still
    // exceeds the live maximum.
    store.delete(2).expect("present");
    let d = store.create(sample_record("Dan Ho")).expect("valid").id;
    assert_eq!(d, 4);
}

#[test]
fn get_missing_reports_not_found() {
    let store = EmployeeStore::new();
    match store.get(999) {
        Err(ApiError::NotFound(id)) => assert_eq!(id, 999),
        _ => panic!("expected NotFound"),
    }
}

#[test]
fn get_returns_stored_record() {
    let mut store = EmployeeStore::new();
    store.create(sample_record("Ann Lee")).expect("valid");
    let rec = store.get(1).expect("present");
    assert_eq!(rec.id, 1);
    assert_eq!(rec.employee.full_name, "Ann Lee");
    assert_eq!(rec.employment.salary, 2000);
}

#[test]
fn list_is_sorted_for_any_insertion_order() {
    let mut store = EmployeeStore::new();
    for id in [5u32, 1, 3, 4, 2] {
        let mut rec = sample_record("Ann Lee");
        rec.id = id;
        store.create_with_id(rec).expect("fresh id");
    }
    let listed = store.list();
    let ids: Vec<u32> = listed.iter().map(|r| r.id).collect();
    assert_eq!(ids, vec![1, 2, 3, 4, 5]);
}

#[test]
fn replace_preserves_identity() {
    let mut store = EmployeeStore::new();
    store.create(sample_record("Ann Lee")).expect("valid");
    let mut candidate = sample_record("Ann Le Updated");
    candidate.id = 99;
    let replaced = store.replace(1, candidate).expect("present and valid");
    assert_eq!(replaced.id, 1);
    assert_eq!(replaced.employee.full_name, "Ann Le Updated");
    let stored = store.get(1).expect("present");
    assert_eq!(stored.id, 1);
    assert_eq!(stored.employee.full_name, "Ann Le Updated");
    assert!(store.get(99).is_err());
}

#[test]
fn replace_missing_reports_not_found() {
    let mut store = EmployeeStore::new();
    match store.replace(42, sample_record("Ann Lee")) {
        Err(ApiError::NotFound(id)) => assert_eq!(id, 42),
        _ => panic!("expected NotFound"),
    }
}

#[test]
fn replace_invalid_candidate_changes_nothing() {
    let mut store = EmployeeStore::new();
    store.create(sample_record("Ann Lee")).expect("valid");
    let mut candidate = sample_record("Bob Tran");
    candidate.employee.phone = "123".to_string();
    let err = store.replace(1, candidate).expect_err("invalid phone");
    assert!(matches!(err, ApiError::ValidationFailed(_)));
    let stored = store.get(1).expect("present");
    assert_eq!(stored.employee.full_name, "Ann Lee");
}

#[test]
fn patch_updates_salary_and_nothing_else() {
    let mut store = EmployeeStore::new();
    let mut rec = sample_record("Ann Lee");
    rec.id = 5;
    store.create_with_id(rec).expect("fresh id");

    let mut patch = empty_patch();
    patch.salary = Some(3000);
    let patched = store.patch(5, patch).expect("present");

    assert_eq!(patched.id, 5);
    assert_eq!(patched.employment.salary, 3000);
    let reference = sample_record("Ann Lee");
    assert_eq!(patched.employee.full_name, reference.employee.full_name);
    assert_eq!(patched.employee.gender, reference.employee.gender);
    assert_eq!(patched.employee.dob, reference.employee.dob);
    assert_eq!(patched.employee.email, reference.employee.email);
    assert_eq!(patched.employee.phone, reference.employee.phone);
    assert_eq!(patched.employee.address, reference.employee.address);
    assert_eq!(patched.employment.position, reference.employment.position);
    assert_eq!(patched.employment.department, reference.employment.department);
    assert_eq!(patched.employment.manager_id, reference.employment.manager_id);
    assert_eq!(patched.employment.start_date, reference.employment.start_date);
    assert_eq!(patched.employment.contract_type, reference.employment.contract_type);
    assert_eq!(patched.employment.status, reference.employment.status);
    assert_eq!(patched.access.role, reference.access.role);
    assert_eq!(patched.access.permissions, reference.access.permissions);
    assert_eq!(patched.history.last_promotion, reference.history.last_promotion);
    assert_eq!(
        patched.history.previous_positions.len(),
        reference.history.previous_positions.len()
    );
    let stored = store.get(5).expect("present");
    assert_eq!(stored.employment.salary, 3000);
}

#[test]
fn patch_touches_only_supplied_fields() {
    let mut store = EmployeeStore::new();
    store.create(sample_record("Ann Lee")).expect("valid");
    let mut patch = empty_patch();
    patch.full_name = Some("Ann Moved".to_string());
    patch.department = Some("Research".to_string());
    let patched = store.patch(1, patch).expect("present");
    assert_eq!(patched.employee.full_name, "Ann Moved");
    assert_eq!(patched.employment.department, "Research");
    assert_eq!(patched.employee.email, "person@example.com");
    assert_eq!(patched.employment.position, "Engineer");
    assert_eq!(patched.employment.salary, 2000);
}

#[test]
fn empty_patch_changes_nothing() {
    let mut store = EmployeeStore::new();
    store.create(sample_record("Ann Lee")).expect("valid");
    let patched = store.patch(1, empty_patch()).expect("present");
    let reference = sample_record("Ann Lee");
    assert_eq!(patched.id, 1);
    assert_eq!(patched.employee.full_name, reference.employee.full_name);
    assert_eq!(patched.employment.salary, reference.employment.salary);
    assert_eq!(patched.access.role, reference.access.role);
}

#[test]
fn patch_missing_reports_not_found() {
    let mut store = EmployeeStore::new();
    match store.patch(8, empty_patch()) {
        Err(ApiError::NotFound(id)) => assert_eq!(id, 8),
        _ => panic!("expected NotFound"),
    }
}

#[test]
fn delete_returns_record_and_completes() {
    let mut store = EmployeeStore::new();
    store.create(sample_record("Ann Lee")).expect("valid");
    store.create(sample_record("Bob Tran")).expect("valid");

    let deleted = store.delete(1).expect("present");
    assert_eq!(deleted.id, 1);
    assert_eq!(deleted.employee.full_name, "Ann Lee");

    match store.get(1) {
        Err(ApiError::NotFound(id)) => assert_eq!(id, 1),
        _ => panic!("expected NotFound after delete"),
    }
    let listed = store.list();
    assert_eq!(listed.len(), 1);
    assert!(listed.iter().all(|r| r.id != 1));
    // The survivor is untouched.
    let kept = store.get(2).expect("present");
    assert_eq!(kept.employee.full_name, "Bob Tran");
}

#[test]
fn delete_missing_reports_not_found() {
    let mut store = EmployeeStore::new();
    match store.delete(3) {
        Err(ApiError::NotFound(id)) => assert_eq!(id, 3),
        _ => panic!("expected NotFound"),
    }
}

#[test]
fn create_with_id_refuses_live_id() {
    let mut store = EmployeeStore::new();
    let mut rec = sample_record("Ann Lee");
    rec.id = 7;
    store.create_with_id(rec).expect("fresh id");
    let mut again = sample_record("Bob Tran");
    again.id = 7;
    match store.create_with_id(again) {
        Err(ApiError::AlreadyExists(id)) => assert_eq!(id, 7),
        _ => panic!("expected AlreadyExists"),
    }
    let stored = store.get(7).expect("present");
    assert_eq!(stored.employee.full_name, "Ann Lee");
}

#[test]
fn create_after_seeding_tops_live_maximum() {
    let mut store = EmployeeStore::new();
    let mut rec = sample_record("Ann Lee");
    rec.id = 10;
    store.create_with_id(rec).expect("fresh id");
    let created = store.create(sample_record("Bob Tran")).expect("valid");
    assert_eq!(created.id, 11);
}
