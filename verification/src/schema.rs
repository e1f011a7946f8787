//! The employee record and its sub-records, with their mathematical views.
//!
//! Each executable type carries a ghost view whose text fields are
//! sequences of characters, so that contracts can speak of record contents
//! as mathematical values.

use vstd::prelude::*;

verus! {

/// Personal identity of an employee: every field is text.
#[derive(Debug)]
pub struct Employee {
    pub full_name: String,
    pub gender: String,
    pub dob: String,
    pub email: String,
    pub phone: String,
    pub address: String,
}

/// Mathematical view of [`Employee`].
#[verifier::ext_equal]
pub ghost struct EmployeeView {
    pub full_name: Seq<char>,
    pub gender: Seq<char>,
    pub dob: Seq<char>,
    pub email: Seq<char>,
    pub phone: Seq<char>,
    pub address: Seq<char>,
}

impl View for Employee {
    type V = EmployeeView;

    open spec fn view(&self) -> EmployeeView {
        EmployeeView {
            full_name: self.full_name@,
            gender: self.gender@,
            dob: self.dob@,
            email: self.email@,
            phone: self.phone@,
            address: self.address@,
        }
    }
}

impl Clone for Employee {
    fn clone(&self) -> (res: Self)
        ensures
            res@ == self@,
    {
        Employee {
            full_name: self.full_name.clone(),
            gender: self.gender.clone(),
            dob: self.dob.clone(),
            email: self.email.clone(),
            phone: self.phone.clone(),
            address: self.address.clone(),
        }
    }
}

/// Employment details: position, department, optional manager reference,
/// start date, contract type, status and a non-negative salary.
#[derive(Debug)]
pub struct Employment {
    pub position: String,
    pub department: String,
    pub manager_id: Option<u32>,
    pub start_date: String,
    pub contract_type: String,
    pub status: String,
    pub salary: u32,
}

/// Mathematical view of [`Employment`].
#[verifier::ext_equal]
pub ghost struct EmploymentView {
    pub position: Seq<char>,
    pub department: Seq<char>,
    pub manager_id: Option<u32>,
    pub start_date: Seq<char>,
    pub contract_type: Seq<char>,
    pub status: Seq<char>,
    pub salary: u32,
}

impl View for Employment {
    type V = EmploymentView;

    open spec fn view(&self) -> EmploymentView {
        EmploymentView {
            position: self.position@,
            department: self.department@,
            manager_id: self.manager_id,
            start_date: self.start_date@,
            contract_type: self.contract_type@,
            status: self.status@,
            salary: self.salary,
        }
    }
}

impl Clone for Employment {
    fn clone(&self) -> (res: Self)
        ensures
            res@ == self@,
    {
        Employment {
            position: self.position.clone(),
            department: self.department.clone(),
            manager_id: self.manager_id,
            start_date: self.start_date.clone(),
            contract_type: self.contract_type.clone(),
            status: self.status.clone(),
            salary: self.salary,
        }
    }
}

/// Access control data: a role and the set of permission strings.
#[derive(Debug)]
pub struct Access {
    pub role: String,
    pub permissions: Vec<String>,
}

/// Mathematical view of [`Access`].
#[verifier::ext_equal]
pub ghost struct AccessView {
    pub role: Seq<char>,
    pub permissions: Seq<Seq<char>>,
}

impl View for Access {
    type V = AccessView;

    open spec fn view(&self) -> AccessView {
        AccessView { role: self.role@, permissions: self.permissions.deep_view() }
    }
}

impl Clone for Access {
    fn clone(&self) -> (res: Self)
        ensures
            res@ == self@,
    {
        let res = Access { role: self.role.clone(), permissions: clone_strings(&self.permissions) };
        proof {
            assert(res@ =~= self@);
        }
        res
    }
}

/// One entry of an employee's position history: a title and the date
/// range it was held for.
#[derive(Debug)]
pub struct PreviousPosition {
    pub title: String,
    pub from: String,
    pub to: String,
}

/// Mathematical view of [`PreviousPosition`].
#[verifier::ext_equal]
pub ghost struct PreviousPositionView {
    pub title: Seq<char>,
    pub from: Seq<char>,
    pub to: Seq<char>,
}

impl View for PreviousPosition {
    type V = PreviousPositionView;

    open spec fn view(&self) -> PreviousPositionView {
        PreviousPositionView { title: self.title@, from: self.from@, to: self.to@ }
    }
}

impl Clone for PreviousPosition {
    fn clone(&self) -> (res: Self)
        ensures
            res@ == self@,
    {
        PreviousPosition {
            title: self.title.clone(),
            from: self.from.clone(),
            to: self.to.clone(),
        }
    }
}

/// Promotion history: an optional last-promotion date and the ordered
/// list of previously held positions.
#[derive(Debug)]
pub struct History {
    pub last_promotion: Option<String>,
    pub previous_positions: Vec<PreviousPosition>,
}

/// Mathematical view of [`History`].
#[verifier::ext_equal]
pub ghost struct HistoryView {
    pub last_promotion: Option<Seq<char>>,
    pub previous_positions: Seq<PreviousPositionView>,
}

impl View for History {
    type V = HistoryView;

    open spec fn view(&self) -> HistoryView {
        HistoryView {
            last_promotion: match self.last_promotion {
                Some(s) => Some(s@),
                None => None,
            },
            previous_positions: Seq::new(
                self.previous_positions@.len(),
                |i: int| self.previous_positions@[i]@,
            ),
        }
    }
}

impl Clone for History {
    fn clone(&self) -> (res: Self)
        ensures
            res@ == self@,
    {
        let last_promotion = match &self.last_promotion {
            Some(s) => Some(s.clone()),
            None => None,
        };
        let res = History {
            last_promotion,
            previous_positions: clone_positions(&self.previous_positions),
        };
        proof {
            assert(res@ =~= self@);
        }
        res
    }
}

/// The unit of storage: an identifier plus the four sub-records.
#[derive(Debug)]
pub struct EmployeeRecord {
    pub id: u32,
    pub employee: Employee,
    pub employment: Employment,
    pub access: Access,
    pub history: History,
}

/// Mathematical view of [`EmployeeRecord`].
#[verifier::ext_equal]
pub ghost struct EmployeeRecordView {
    pub id: u32,
    pub employee: EmployeeView,
    pub employment: EmploymentView,
    pub access: AccessView,
    pub history: HistoryView,
}

impl View for EmployeeRecord {
    type V = EmployeeRecordView;

    open spec fn view(&self) -> EmployeeRecordView {
        EmployeeRecordView {
            id: self.id,
            employee: self.employee@,
            employment: self.employment@,
            access: self.access@,
            history: self.history@,
        }
    }
}

impl Clone for EmployeeRecord {
    fn clone(&self) -> (res: Self)
        ensures
            res@ == self@,
    {
        EmployeeRecord {
            id: self.id,
            employee: self.employee.clone(),
            employment: self.employment.clone(),
            access: self.access.clone(),
            history: self.history.clone(),
        }
    }
}

impl EmployeeRecordView {
    /// The same record with its identifier forced to `id`.
    pub open spec fn with_id(self, id: u32) -> EmployeeRecordView {
        EmployeeRecordView { id, ..self }
    }
}

/// A partial update: exactly the fields a patch may touch, each present
/// only when the payload supplied it. Fields outside this list (gender,
/// dob, manager, start date, access, history) are not patchable.
#[derive(Debug)]
pub struct EmployeePatch {
    pub full_name: Option<String>,
    pub email: Option<String>,
    pub phone: Option<String>,
    pub address: Option<String>,
    pub position: Option<String>,
    pub department: Option<String>,
    pub salary: Option<u32>,
    pub status: Option<String>,
    pub contract_type: Option<String>,
}

/// Mathematical view of [`EmployeePatch`].
#[verifier::ext_equal]
pub ghost struct EmployeePatchView {
    pub full_name: Option<Seq<char>>,
    pub email: Option<Seq<char>>,
    pub phone: Option<Seq<char>>,
    pub address: Option<Seq<char>>,
    pub position: Option<Seq<char>>,
    pub department: Option<Seq<char>>,
    pub salary: Option<u32>,
    pub status: Option<Seq<char>>,
    pub contract_type: Option<Seq<char>>,
}

/// The view of one optional text field.
pub open spec fn opt_text_view(o: Option<String>) -> Option<Seq<char>> {
    match o {
        Some(s) => Some(s@),
        None => None,
    }
}

impl View for EmployeePatch {
    type V = EmployeePatchView;

    open spec fn view(&self) -> EmployeePatchView {
        EmployeePatchView {
            full_name: opt_text_view(self.full_name),
            email: opt_text_view(self.email),
            phone: opt_text_view(self.phone),
            address: opt_text_view(self.address),
            position: opt_text_view(self.position),
            department: opt_text_view(self.department),
            salary: self.salary,
            status: opt_text_view(self.status),
            contract_type: opt_text_view(self.contract_type),
        }
    }
}

impl EmployeePatch {
    /// A patch that touches nothing.
    pub fn empty() -> (p: EmployeePatch)
        ensures
            p@.full_name is None,
            p@.email is None,
            p@.phone is None,
            p@.address is None,
            p@.position is None,
            p@.department is None,
            p@.salary is None,
            p@.status is None,
            p@.contract_type is None,
    {
        EmployeePatch {
            full_name: None,
            email: None,
            phone: None,
            address: None,
            position: None,
            department: None,
            salary: None,
            status: None,
            contract_type: None,
        }
    }
}

/// Clones a vector of strings, keeping every element's characters.
fn clone_strings(v: &Vec<String>) -> (r: Vec<String>)
    ensures
        r.deep_view() == v.deep_view(),
{
    let mut r: Vec<String> = Vec::new();
    let mut i: usize = 0;
    while i < v.len()
        invariant
            i <= v.len(),
            r@.len() == i,
            forall|j: int| 0 <= j < i ==> r@[j]@ == v@[j]@,
        decreases v.len() - i,
    {
        r.push(v[i].clone());
        i = i + 1;
    }
    proof {
        assert(r.deep_view() =~= v.deep_view());
    }
    r
}

/// Clones a vector of previous positions, keeping every entry.
fn clone_positions(v: &Vec<PreviousPosition>) -> (r: Vec<PreviousPosition>)
    ensures
        r@.len() == v@.len(),
        forall|j: int| 0 <= j < v@.len() ==> r@[j]@ == v@[j]@,
{
    let mut r: Vec<PreviousPosition> = Vec::new();
    let mut i: usize = 0;
    while i < v.len()
        invariant
            i <= v.len(),
            r@.len() == i,
            forall|j: int| 0 <= j < i ==> r@[j]@ == v@[j]@,
        decreases v.len() - i,
    {
        r.push(v[i].clone());
        i = i + 1;
    }
    r
}

} // verus!
