use employee_store::schema::{
    Access, Employee, EmployeeRecord, Employment, History, PreviousPosition,
};
use employee_store::validation::{
    validate_access, validate_employee, validate_employment, validate_history, validate_record,
    Violation,
};

fn valid_employee() -> Employee {
    Employee {
        full_name: "Ann Lee".to_string(),
        gender: "F".to_string(),
        dob: "1990-04-12".to_string(),
        email: "ann@example.com".to_string(),
        phone: "0123456789".to_string(),
        address: "12 Long Street".to_string(),
    }
}

fn valid_record() -> EmployeeRecord {
    EmployeeRecord {
        id: 0,
        employee: valid_employee(),
        employment: Employment {
            position: "Engineer".to_string(),
            department: "Platform".to_string(),
            manager_id: Some(1),
            start_date: "2020-01-02".to_string(),
            contract_type: "full-time".to_string(),
            status: "active".to_string(),
            salary: 0,
        },
        access: Access {
            role: "staff".to_string(),
            permissions: vec!["read".to_string(), "write".to_string()],
        },
        history: History {
            last_promotion: Some("2022-06-01".to_string()),
            previous_positions: vec![PreviousPosition {
                title: "Intern".to_string(),
                from: "2019-01-01".to_string(),
                to: "2019-12-31".to_string(),
            }],
        },
    }
}

#[test]
fn valid_record_has_no_violations() {
    assert_eq!(validate_record(&valid_record()), vec![]);
}

#[test]
fn invalid_email_is_named() {
    let mut e = valid_employee();
    e.full_name = "A".to_string();
    e.email = "not-an-email".to_string();
    let vs = validate_employee(&e);
    assert_eq!(vs, vec![Violation::FullNameTooShort, Violation::EmailInvalid]);
    assert!(vs.iter().any(|v| v.field_name() == "email"));
}

#[test]
fn email_grammar_is_really_checked() {
    // A wrapper that ignored its input could not tell these apart.
    let mut good = valid_employee();
    good.email = "user.name+tag@sub.example.co".to_string();
    assert_eq!(validate_employee(&good), vec![]);

    let mut bad = valid_employee();
    bad.email = "user at example.com".to_string();
    assert_eq!(validate_employee(&bad), vec![Violation::EmailInvalid]);

    let mut empty = valid_employee();
    empty.email = "".to_string();
    assert_eq!(validate_employee(&empty), vec![Violation::EmailInvalid]);

    let mut no_domain = valid_employee();
    no_domain.email = "user@".to_string();
    assert_eq!(validate_employee(&no_domain), vec![Violation::EmailInvalid]);
}

#[test]
fn every_employee_rule_fires() {
    let e = Employee {
        full_name: "A".to_string(),
        gender: "".to_string(),
        dob: "1990-1-1".to_string(),
        email: "broken".to_string(),
        phone: "12345678".to_string(),
        address: "Home".to_string(),
    };
    assert_eq!(
        validate_employee(&e),
        vec![
            Violation::FullNameTooShort,
            Violation::GenderMissing,
            Violation::DobTooShort,
            Violation::EmailInvalid,
            Violation::PhoneTooShort,
            Violation::AddressTooShort,
        ]
    );
}

#[test]
fn every_employment_rule_fires() {
    let e = Employment {
        position: "E".to_string(),
        department: "P".to_string(),
        manager_id: None,
        start_date: "2020-1-2".to_string(),
        contract_type: "f".to_string(),
        status: "a".to_string(),
        salary: 0,
    };
    assert_eq!(
        validate_employment(&e),
        vec![
            Violation::PositionTooShort,
            Violation::DepartmentTooShort,
            Violation::StartDateTooShort,
            Violation::ContractTypeTooShort,
            Violation::StatusTooShort,
        ]
    );
}

#[test]
fn access_needs_role_and_permissions() {
    let a = Access { role: "r".to_string(), permissions: vec![] };
    assert_eq!(
        validate_access(&a),
        vec![Violation::RoleTooShort, Violation::PermissionsEmpty]
    );
    let ok = Access { role: "staff".to_string(), permissions: vec!["read".to_string()] };
    assert_eq!(validate_access(&ok), vec![]);
}

#[test]
fn history_violations_carry_entry_index() {
    let h = History {
        last_promotion: None,
        previous_positions: vec![
            PreviousPosition {
                title: "Intern".to_string(),
                from: "2019-01-01".to_string(),
                to: "2019-12-31".to_string(),
            },
            PreviousPosition {
                title: "I".to_string(),
                from: "2020-1".to_string(),
                to: "2020-12-31".to_string(),
            },
        ],
    };
    assert_eq!(
        validate_history(&h),
        vec![
            Violation::PreviousTitleTooShort(1),
            Violation::PreviousFromTooShort(1),
        ]
    );
}

#[test]
fn record_violations_are_ordered_by_sub_record() {
    let mut r = valid_record();
    r.employee.phone = "123".to_string();
    r.employment.status = "a".to_string();
    r.access.permissions = vec![];
    r.history.previous_positions[0].to = "short".to_string();
    assert_eq!(
        validate_record(&r),
        vec![
            Violation::PhoneTooShort,
            Violation::StatusTooShort,
            Violation::PermissionsEmpty,
            Violation::PreviousToTooShort(0),
        ]
    );
}

#[test]
fn violation_names_and_messages() {
    assert_eq!(Violation::EmailInvalid.field_name(), "email");
    assert_eq!(Violation::EmailInvalid.message(), "invalid email");
    assert_eq!(Violation::FullNameTooShort.field_name(), "full_name");
    assert_eq!(
        Violation::FullNameTooShort.message(),
        "full_name must be at least 2 characters"
    );
    assert_eq!(Violation::PreviousFromTooShort(3).field_name(), "from");
    assert_eq!(Violation::PermissionsEmpty.message(), "at least one permission required");
}

#[test]
fn salary_of_zero_is_accepted() {
    let mut r = valid_record();
    r.employment.salary = 0;
    assert_eq!(validate_record(&r), vec![]);
}
