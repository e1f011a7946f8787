//! The validation layer: field-level constraints a candidate record must
//! satisfy before the store accepts it on create or full replace.
//!
//! The rules are stated as spec functions over record views; the executable
//! validators return exactly the ordered list of violations those spec
//! functions describe. The email grammar is the one outside check the layer
//! relies on; everything else is plain length arithmetic.
//!
//! `salary` needs no rule of its own: it is an unsigned integer, so the
//! "non-negative" constraint holds by type.

use crate::schema::{
    Access, AccessView, Employee, EmployeeRecord, EmployeeRecordView, EmployeeView, Employment,
    EmploymentView, History, HistoryView, PreviousPositionView,
};
use validator::ValidateEmail;
use vstd::prelude::*;

verus! {

/// One field-level constraint violation. Variants that concern an entry of
/// `previous_positions` carry the entry's index.
#[derive(Clone, Copy, PartialEq, Eq, Structural, Debug)]
pub enum Violation {
    FullNameTooShort,
    GenderMissing,
    DobTooShort,
    EmailInvalid,
    PhoneTooShort,
    AddressTooShort,
    PositionTooShort,
    DepartmentTooShort,
    StartDateTooShort,
    ContractTypeTooShort,
    StatusTooShort,
    RoleTooShort,
    PermissionsEmpty,
    PreviousTitleTooShort(usize),
    PreviousFromTooShort(usize),
    PreviousToTooShort(usize),
}

/// The name of the field a violation concerns.
pub open spec fn spec_field_name(v: Violation) -> Seq<char> {
    match v {
        Violation::FullNameTooShort => "full_name"@,
        Violation::GenderMissing => "gender"@,
        Violation::DobTooShort => "dob"@,
        Violation::EmailInvalid => "email"@,
        Violation::PhoneTooShort => "phone"@,
        Violation::AddressTooShort => "address"@,
        Violation::PositionTooShort => "position"@,
        Violation::DepartmentTooShort => "department"@,
        Violation::StartDateTooShort => "start_date"@,
        Violation::ContractTypeTooShort => "contract_type"@,
        Violation::StatusTooShort => "status"@,
        Violation::RoleTooShort => "role"@,
        Violation::PermissionsEmpty => "permissions"@,
        Violation::PreviousTitleTooShort(_) => "title"@,
        Violation::PreviousFromTooShort(_) => "from"@,
        Violation::PreviousToTooShort(_) => "to"@,
    }
}

/// The human-readable reason of a violation.
pub open spec fn spec_message(v: Violation) -> Seq<char> {
    match v {
        Violation::FullNameTooShort => "full_name must be at least 2 characters"@,
        Violation::GenderMissing => "gender is required"@,
        Violation::DobTooShort => "dob must be format YYYY-MM-DD"@,
        Violation::EmailInvalid => "invalid email"@,
        Violation::PhoneTooShort => "phone must be at least 9 digits"@,
        Violation::AddressTooShort => "address must be at least 5 characters"@,
        Violation::PositionTooShort => "position must be at least 2 characters"@,
        Violation::DepartmentTooShort => "department must be at least 2 characters"@,
        Violation::StartDateTooShort => "start_date must be YYYY-MM-DD"@,
        Violation::ContractTypeTooShort => "contract_type must be at least 2 characters"@,
        Violation::StatusTooShort => "status must be at least 2 characters"@,
        Violation::RoleTooShort => "role must be at least 2 characters"@,
        Violation::PermissionsEmpty => "at least one permission required"@,
        Violation::PreviousTitleTooShort(_) => "title must be at least 2 characters"@,
        Violation::PreviousFromTooShort(_) => "from must be YYYY-MM-DD"@,
        Violation::PreviousToTooShort(_) => "to must be YYYY-MM-DD"@,
    }
}

impl Violation {
    /// The name of the field the violation concerns.
    pub fn field_name(&self) -> (r: String)
        ensures
            r@ == spec_field_name(*self),
    {
        match self {
            Violation::FullNameTooShort => String::from_str("full_name"),
            Violation::GenderMissing => String::from_str("gender"),
            Violation::DobTooShort => String::from_str("dob"),
            Violation::EmailInvalid => String::from_str("email"),
            Violation::PhoneTooShort => String::from_str("phone"),
            Violation::AddressTooShort => String::from_str("address"),
            Violation::PositionTooShort => String::from_str("position"),
            Violation::DepartmentTooShort => String::from_str("department"),
            Violation::StartDateTooShort => String::from_str("start_date"),
            Violation::ContractTypeTooShort => String::from_str("contract_type"),
            Violation::StatusTooShort => String::from_str("status"),
            Violation::RoleTooShort => String::from_str("role"),
            Violation::PermissionsEmpty => String::from_str("permissions"),
            Violation::PreviousTitleTooShort(_) => String::from_str("title"),
            Violation::PreviousFromTooShort(_) => String::from_str("from"),
            Violation::PreviousToTooShort(_) => String::from_str("to"),
        }
    }

    /// The human-readable reason of the violation.
    pub fn message(&self) -> (r: String)
        ensures
            r@ == spec_message(*self),
    {
        match self {
            Violation::FullNameTooShort => String::from_str(
                "full_name must be at least 2 characters",
            ),
            Violation::GenderMissing => String::from_str("gender is required"),
            Violation::DobTooShort => String::from_str("dob must be format YYYY-MM-DD"),
            Violation::EmailInvalid => String::from_str("invalid email"),
            Violation::PhoneTooShort => String::from_str("phone must be at least 9 digits"),
            Violation::AddressTooShort => String::from_str(
                "address must be at least 5 characters",
            ),
            Violation::PositionTooShort => String::from_str(
                "position must be at least 2 characters",
            ),
            Violation::DepartmentTooShort => String::from_str(
                "department must be at least 2 characters",
            ),
            Violation::StartDateTooShort => String::from_str("start_date must be YYYY-MM-DD"),
            Violation::ContractTypeTooShort => String::from_str(
                "contract_type must be at least 2 characters",
            ),
            Violation::StatusTooShort => String::from_str("status must be at least 2 characters"),
            Violation::RoleTooShort => String::from_str("role must be at least 2 characters"),
            Violation::PermissionsEmpty => String::from_str("at least one permission required"),
            Violation::PreviousTitleTooShort(_) => String::from_str(
                "title must be at least 2 characters",
            ),
            Violation::PreviousFromTooShort(_) => String::from_str("from must be YYYY-MM-DD"),
            Violation::PreviousToTooShort(_) => String::from_str("to must be YYYY-MM-DD"),
        }
    }
}

/// Whether the characters form a valid email address.
///
/// The grammar (HTML5's email production, with internationalized domains
/// folded to ASCII) is decided by the outside check named in [`email_ok`];
/// it depends on the characters alone.
pub uninterp spec fn valid_email(s: Seq<char>) -> bool;

/// Relies on `validator::ValidateEmail::validate_email` for `str`: it tests
/// the string against the HTML5 email grammar, and its result depends on
/// the string's characters alone.
#[verifier::external_body]
fn email_ok(s: &str) -> (r: bool)
    ensures
        r == valid_email(s@),
{
    s.validate_email()
}

/// `seq![v]` when `cond` holds, else the empty sequence: one conditional
/// entry of a violation list.
pub open spec fn violation_when(cond: bool, v: Violation) -> Seq<Violation> {
    if cond {
        seq![v]
    } else {
        Seq::empty()
    }
}

/// The ordered violations of the personal-identity sub-record.
pub open spec fn employee_violations(e: EmployeeView) -> Seq<Violation> {
    violation_when(e.full_name.len() < 2, Violation::FullNameTooShort)
        + violation_when(e.gender.len() < 1, Violation::GenderMissing)
        + violation_when(e.dob.len() < 10, Violation::DobTooShort)
        + violation_when(!valid_email(e.email), Violation::EmailInvalid)
        + violation_when(e.phone.len() < 9, Violation::PhoneTooShort)
        + violation_when(e.address.len() < 5, Violation::AddressTooShort)
}

/// The ordered violations of the employment sub-record.
pub open spec fn employment_violations(e: EmploymentView) -> Seq<Violation> {
    violation_when(e.position.len() < 2, Violation::PositionTooShort)
        + violation_when(e.department.len() < 2, Violation::DepartmentTooShort)
        + violation_when(e.start_date.len() < 10, Violation::StartDateTooShort)
        + violation_when(e.contract_type.len() < 2, Violation::ContractTypeTooShort)
        + violation_when(e.status.len() < 2, Violation::StatusTooShort)
}

/// The ordered violations of the access sub-record.
pub open spec fn access_violations(a: AccessView) -> Seq<Violation> {
    violation_when(a.role.len() < 2, Violation::RoleTooShort)
        + violation_when(a.permissions.len() < 1, Violation::PermissionsEmpty)
}

/// The ordered violations of the position-history entry at index `i`.
pub open spec fn position_violations(p: PreviousPositionView, i: usize) -> Seq<Violation> {
    violation_when(p.title.len() < 2, Violation::PreviousTitleTooShort(i))
        + violation_when(p.from.len() < 10, Violation::PreviousFromTooShort(i))
        + violation_when(p.to.len() < 10, Violation::PreviousToTooShort(i))
}

/// The ordered violations of the first `n` position-history entries.
pub open spec fn positions_violations_upto(ps: Seq<PreviousPositionView>, n: int) -> Seq<
    Violation,
>
    decreases n,
{
    if n <= 0 {
        Seq::empty()
    } else {
        positions_violations_upto(ps, n - 1) + position_violations(ps[n - 1], (n - 1) as usize)
    }
}

/// The ordered violations of the history sub-record.
pub open spec fn history_violations(h: HistoryView) -> Seq<Violation> {
    positions_violations_upto(h.previous_positions, h.previous_positions.len() as int)
}

/// The ordered violations of a whole candidate record.
pub open spec fn record_violations(r: EmployeeRecordView) -> Seq<Violation> {
    employee_violations(r.employee) + employment_violations(r.employment) + access_violations(
        r.access,
    ) + history_violations(r.history)
}

/// A record is valid exactly when it has no violations.
pub open spec fn record_valid(r: EmployeeRecordView) -> bool {
    record_violations(r).len() == 0
}

/// Checks the personal-identity sub-record, returning its ordered
/// violation list.
pub fn validate_employee(e: &Employee) -> (vs: Vec<Violation>)
    ensures
        vs@ == employee_violations(e@),
{
    let mut vs: Vec<Violation> = Vec::new();
    if e.full_name.as_str().unicode_len() < 2 {
        vs.push(Violation::FullNameTooShort);
    }
    if e.gender.as_str().unicode_len() < 1 {
        vs.push(Violation::GenderMissing);
    }
    if e.dob.as_str().unicode_len() < 10 {
        vs.push(Violation::DobTooShort);
    }
    if !email_ok(e.email.as_str()) {
        vs.push(Violation::EmailInvalid);
    }
    if e.phone.as_str().unicode_len() < 9 {
        vs.push(Violation::PhoneTooShort);
    }
    if e.address.as_str().unicode_len() < 5 {
        vs.push(Violation::AddressTooShort);
    }
    proof {
        assert(vs@ =~= employee_violations(e@));
    }
    vs
}

/// Checks the employment sub-record, returning its ordered violation list.
pub fn validate_employment(e: &Employment) -> (vs: Vec<Violation>)
    ensures
        vs@ == employment_violations(e@),
{
    let mut vs: Vec<Violation> = Vec::new();
    if e.position.as_str().unicode_len() < 2 {
        vs.push(Violation::PositionTooShort);
    }
    if e.department.as_str().unicode_len() < 2 {
        vs.push(Violation::DepartmentTooShort);
    }
    if e.start_date.as_str().unicode_len() < 10 {
        vs.push(Violation::StartDateTooShort);
    }
    if e.contract_type.as_str().unicode_len() < 2 {
        vs.push(Violation::ContractTypeTooShort);
    }
    if e.status.as_str().unicode_len() < 2 {
        vs.push(Violation::StatusTooShort);
    }
    proof {
        assert(vs@ =~= employment_violations(e@));
    }
    vs
}

/// Checks the access sub-record, returning its ordered violation list.
pub fn validate_access(a: &Access) -> (vs: Vec<Violation>)
    ensures
        vs@ == access_violations(a@),
{
    let mut vs: Vec<Violation> = Vec::new();
    if a.role.as_str().unicode_len() < 2 {
        vs.push(Violation::RoleTooShort);
    }
    if a.permissions.len() < 1 {
        vs.push(Violation::PermissionsEmpty);
    }
    proof {
        assert(vs@ =~= access_violations(a@));
    }
    vs
}

/// Checks the history sub-record, returning its ordered violation list.
pub fn validate_history(h: &History) -> (vs: Vec<Violation>)
    ensures
        vs@ == history_violations(h@),
{
    let mut vs: Vec<Violation> = Vec::new();
    let mut i: usize = 0;
    while i < h.previous_positions.len()
        invariant
            i <= h.previous_positions.len(),
            vs@ == positions_violations_upto(h@.previous_positions, i as int),
        decreases h.previous_positions.len() - i,
    {
        let ghost before = vs@;
        let p = &h.previous_positions[i];
        if p.title.as_str().unicode_len() < 2 {
            vs.push(Violation::PreviousTitleTooShort(i));
        }
        if p.from.as_str().unicode_len() < 10 {
            vs.push(Violation::PreviousFromTooShort(i));
        }
        if p.to.as_str().unicode_len() < 10 {
            vs.push(Violation::PreviousToTooShort(i));
        }
        proof {
            assert(h@.previous_positions[i as int] == p@);
            assert(vs@ =~= before + position_violations(p@, i));
        }
        i = i + 1;
    }
    proof {
        assert(h@.previous_positions.len() == h.previous_positions@.len());
    }
    vs
}

/// Checks a whole candidate record, returning the ordered list of every
/// field-level violation; the record is acceptable exactly when the list
/// is empty.
pub fn validate_record(r: &EmployeeRecord) -> (vs: Vec<Violation>)
    ensures
        vs@ == record_violations(r@),
{
    let mut vs = validate_employee(&r.employee);
    let mut more = validate_employment(&r.employment);
    vs.append(&mut more);
    let mut more = validate_access(&r.access);
    vs.append(&mut more);
    let mut more = validate_history(&r.history);
    vs.append(&mut more);
    vs
}

} // verus!
