//! The record store: owns the identifier-to-record mapping, allocates new
//! identifiers, and implements create, get, list, replace, patch and delete.
//!
//! The backing storage is a vector of records kept strictly ascending by
//! identifier, so identifiers are unique by construction and a listing is
//! sorted for free. The store itself is a plain sequential object; a caller
//! that serves concurrent requests puts it behind one readers-writer lock,
//! so every operation here is one atomic critical section.

use crate::schema::{
    EmployeePatch, EmployeePatchView, EmployeeRecord, EmployeeRecordView, EmployeeView,
    EmploymentView,
};
use crate::validation::{record_valid, record_violations, validate_record, Violation};
use vstd::prelude::*;

verus! {

/// The typed failures a store operation can report. Every operation is
/// all-or-nothing: on any error the store is unchanged.
#[derive(Debug)]
pub enum ApiError {
    /// The operation targeted an identifier with no live record.
    NotFound(u32),
    /// A create or replace candidate broke field constraints; carries the
    /// ordered list of violations.
    ValidationFailed(Vec<Violation>),
    /// A create with a caller-supplied identifier refused to overwrite an
    /// existing record.
    AlreadyExists(u32),
}

/// The records' identifiers are strictly ascending.
pub open spec fn sorted_by_id(s: Seq<EmployeeRecordView>) -> bool {
    forall|i: int, j: int| #![trigger s[i], s[j]] 0 <= i < j < s.len() ==> s[i].id < s[j].id
}

/// Some record in `s` carries identifier `id`.
pub open spec fn has_id(s: Seq<EmployeeRecordView>, id: u32) -> bool {
    exists|i: int| 0 <= i < s.len() && #[trigger] s[i].id == id
}

/// The index of the record carrying `id` (meaningful when `has_id` holds
/// and `s` is sorted, which makes the index unique).
pub open spec fn index_of_id(s: Seq<EmployeeRecordView>, id: u32) -> int {
    choose|i: int| 0 <= i < s.len() && #[trigger] s[i].id == id
}

/// The record carrying `id`.
pub open spec fn record_of(s: Seq<EmployeeRecordView>, id: u32) -> EmployeeRecordView {
    s[index_of_id(s, id)]
}

/// In a sorted sequence, an identifier appears at one index at most.
pub proof fn lemma_id_index_unique(s: Seq<EmployeeRecordView>, i: int, j: int)
    requires
        sorted_by_id(s),
        0 <= i < s.len(),
        0 <= j < s.len(),
        s[i].id == s[j].id,
    ensures
        i == j,
{
    if i < j {
        assert(s[i].id < s[j].id);
    }
    if j < i {
        assert(s[j].id < s[i].id);
    }
}

/// A record found at index `k` pins down `index_of_id` and `record_of`.
pub proof fn lemma_found(s: Seq<EmployeeRecordView>, k: int, id: u32)
    requires
        sorted_by_id(s),
        0 <= k < s.len(),
        s[k].id == id,
    ensures
        has_id(s, id),
        index_of_id(s, id) == k,
        record_of(s, id) == s[k],
{
    assert(has_id(s, id));
    let j = index_of_id(s, id);
    lemma_id_index_unique(s, j, k);
}

/// In a sorted sequence the last identifier bounds every identifier.
pub proof fn lemma_last_is_max(s: Seq<EmployeeRecordView>)
    requires
        sorted_by_id(s),
        s.len() > 0,
    ensures
        forall|i: int| #![trigger s[i]] 0 <= i < s.len() ==> s[i].id <= s[s.len() - 1].id,
{
    assert forall|i: int| #![trigger s[i]] 0 <= i < s.len() implies s[i].id <= s[s.len()
        - 1].id by {
        if i < s.len() - 1 {
            assert(s[i].id < s[s.len() - 1].id);
        }
    }
}

/// Removing the record at index `k` from a sorted sequence keeps it sorted,
/// drops exactly that record's identifier, and leaves every other
/// identifier's record untouched.
pub proof fn lemma_remove_id(s: Seq<EmployeeRecordView>, k: int)
    requires
        sorted_by_id(s),
        0 <= k < s.len(),
    ensures
        sorted_by_id(s.remove(k)),
        !has_id(s.remove(k), s[k].id),
        forall|x: u32| x != s[k].id ==> (has_id(s.remove(k), x) <==> has_id(s, x)),
        forall|x: u32|
            x != s[k].id && has_id(s, x) ==> record_of(s.remove(k), x) == record_of(s, x),
{
    s.remove_ensures(k);
    let t = s.remove(k);
    assert forall|i: int, j: int| #![trigger t[i], t[j]] 0 <= i < j < t.len() implies t[i].id
        < t[j].id by {
        let i0: int = if i < k {
            i
        } else {
            i + 1
        };
        let j0: int = if j < k {
            j
        } else {
            j + 1
        };
        assert(t[i] == s[i0]);
        assert(t[j] == s[j0]);
        assert(s[i0].id < s[j0].id);
    }
    if has_id(t, s[k].id) {
        let i = choose|i: int| 0 <= i < t.len() && #[trigger] t[i].id == s[k].id;
        let i0: int = if i < k {
            i
        } else {
            i + 1
        };
        assert(t[i] == s[i0]);
        lemma_id_index_unique(s, i0, k);
    }
    assert forall|x: u32| x != s[k].id implies (has_id(t, x) <==> has_id(s, x)) by {
        if has_id(t, x) {
            let i = choose|i: int| 0 <= i < t.len() && #[trigger] t[i].id == x;
            let i0: int = if i < k {
                i
            } else {
                i + 1
            };
            assert(t[i] == s[i0]);
            assert(s[i0].id == x);
        }
        if has_id(s, x) {
            let j = choose|i: int| 0 <= i < s.len() && #[trigger] s[i].id == x;
            assert(j != k);
            let j1: int = if j < k {
                j
            } else {
                j - 1
            };
            assert(t[j1] == s[j]);
            assert(t[j1].id == x);
        }
    }
    assert forall|x: u32| x != s[k].id && has_id(s, x) implies record_of(t, x) == record_of(
        s,
        x,
    ) by {
        let i = index_of_id(t, x);
        assert(0 <= i < t.len() && t[i].id == x);
        let i0: int = if i < k {
            i
        } else {
            i + 1
        };
        assert(t[i] == s[i0]);
        lemma_found(s, i0, x);
    }
}

/// Updating index `k` of a sorted sequence with a record that keeps the
/// identifier of the old entry keeps the sequence sorted, changes that
/// identifier's record to the new one, and touches no other identifier.
pub proof fn lemma_update_id(s: Seq<EmployeeRecordView>, k: int, v: EmployeeRecordView)
    requires
        sorted_by_id(s),
        0 <= k < s.len(),
        v.id == s[k].id,
    ensures
        sorted_by_id(s.update(k, v)),
        forall|x: u32| has_id(s.update(k, v), x) <==> has_id(s, x),
        has_id(s, v.id) && record_of(s.update(k, v), v.id) == v,
        forall|x: u32|
            x != v.id && has_id(s, x) ==> record_of(s.update(k, v), x) == record_of(s, x),
{
    let t = s.update(k, v);
    assert forall|i: int, j: int| #![trigger t[i], t[j]] 0 <= i < j < t.len() implies t[i].id
        < t[j].id by {
        assert(s[i].id < s[j].id);
        assert(t[i].id == s[i].id);
        assert(t[j].id == s[j].id);
    }
    assert forall|x: u32| has_id(t, x) <==> has_id(s, x) by {
        if has_id(t, x) {
            let i = choose|i: int| 0 <= i < t.len() && #[trigger] t[i].id == x;
            assert(t[i].id == s[i].id);
            assert(s[i].id == x);
        }
        if has_id(s, x) {
            let i = choose|i: int| 0 <= i < s.len() && #[trigger] s[i].id == x;
            assert(t[i].id == s[i].id);
            assert(t[i].id == x);
        }
    }
    assert(s[k].id == v.id);
    assert(has_id(s, v.id));
    assert(t[k] == v);
    lemma_found(t, k, v.id);
    assert forall|x: u32| x != v.id && has_id(s, x) implies record_of(t, x) == record_of(
        s,
        x,
    ) by {
        let i = index_of_id(s, x);
        assert(0 <= i < s.len() && s[i].id == x);
        assert(i != k);
        assert(t[i] == s[i]);
        lemma_found(t, i, x);
    }
}

/// Inserting a record at the position that keeps a sorted sequence sorted
/// adds exactly its identifier and touches no other identifier's record.
pub proof fn lemma_insert_id(s: Seq<EmployeeRecordView>, k: int, v: EmployeeRecordView)
    requires
        sorted_by_id(s),
        0 <= k <= s.len(),
        forall|i: int| #![trigger s[i]] 0 <= i < k ==> s[i].id < v.id,
        forall|i: int| #![trigger s[i]] k <= i < s.len() ==> s[i].id > v.id,
    ensures
        sorted_by_id(s.insert(k, v)),
        has_id(s.insert(k, v), v.id),
        record_of(s.insert(k, v), v.id) == v,
        forall|x: u32| x != v.id ==> (has_id(s.insert(k, v), x) <==> has_id(s, x)),
        forall|x: u32|
            x != v.id && has_id(s, x) ==> record_of(s.insert(k, v), x) == record_of(s, x),
{
    s.insert_ensures(k, v);
    let t = s.insert(k, v);
    assert forall|i: int, j: int| #![trigger t[i], t[j]] 0 <= i < j < t.len() implies t[i].id
        < t[j].id by {
        if i < k {
            assert(t[i] == s[i]);
        }
        if i == k {
            assert(t[i] == v);
        }
        if i > k {
            assert(t[i] == s[i - 1]);
        }
        if j < k {
            assert(t[j] == s[j]);
        }
        if j == k {
            assert(t[j] == v);
        }
        if j > k {
            assert(t[j] == s[j - 1]);
        }
    }
    assert(t[k] == v);
    lemma_found(t, k, v.id);
    assert forall|x: u32| x != v.id implies (has_id(t, x) <==> has_id(s, x)) by {
        if has_id(t, x) {
            let i = choose|i: int| 0 <= i < t.len() && #[trigger] t[i].id == x;
            let i0: int = if i < k {
                i
            } else {
                i - 1
            };
            assert(i != k);
            assert(t[i] == s[i0]);
            assert(s[i0].id == x);
        }
        if has_id(s, x) {
            let i = choose|i: int| 0 <= i < s.len() && #[trigger] s[i].id == x;
            let i1: int = if i < k {
                i
            } else {
                i + 1
            };
            assert(t[i1] == s[i]);
            assert(t[i1].id == x);
        }
    }
    assert forall|x: u32| x != v.id && has_id(s, x) implies record_of(t, x) == record_of(
        s,
        x,
    ) by {
        let i = index_of_id(s, x);
        assert(0 <= i < s.len() && s[i].id == x);
        let i1: int = if i < k {
            i
        } else {
            i + 1
        };
        assert(t[i1] == s[i]);
        lemma_found(t, i1, x);
    }
}

/// The text value a patch leaves in a field: the supplied one, or the
/// stored one when the patch does not touch the field.
pub open spec fn patched_text(o: Option<Seq<char>>, d: Seq<char>) -> Seq<char> {
    match o {
        Some(s) => s,
        None => d,
    }
}

/// The record a patch payload produces from a stored record: exactly the
/// supplied fields are overwritten; the identifier and every field the
/// payload does not touch — nested sub-records included — keep their
/// stored values.
pub open spec fn apply_patch(r: EmployeeRecordView, p: EmployeePatchView) -> EmployeeRecordView {
    EmployeeRecordView {
        id: r.id,
        employee: EmployeeView {
            full_name: patched_text(p.full_name, r.employee.full_name),
            gender: r.employee.gender,
            dob: r.employee.dob,
            email: patched_text(p.email, r.employee.email),
            phone: patched_text(p.phone, r.employee.phone),
            address: patched_text(p.address, r.employee.address),
        },
        employment: EmploymentView {
            position: patched_text(p.position, r.employment.position),
            department: patched_text(p.department, r.employment.department),
            manager_id: r.employment.manager_id,
            start_date: r.employment.start_date,
            contract_type: patched_text(p.contract_type, r.employment.contract_type),
            status: patched_text(p.status, r.employment.status),
            salary: match p.salary {
                Some(v) => v,
                None => r.employment.salary,
            },
        },
        access: r.access,
        history: r.history,
    }
}

/// The in-memory employee store.
pub struct EmployeeStore {
    records: Vec<EmployeeRecord>,
}

impl View for EmployeeStore {
    type V = Seq<EmployeeRecordView>;

    closed spec fn view(&self) -> Seq<EmployeeRecordView> {
        Seq::new(self.records@.len(), |i: int| self.records@[i]@)
    }
}

impl EmployeeStore {
    /// The store's invariant: records strictly ascending by identifier.
    pub open spec fn wf(&self) -> bool {
        sorted_by_id(self@)
    }

    /// A live record carries `id`.
    pub open spec fn contains_id(&self, id: u32) -> bool {
        has_id(self@, id)
    }

    /// The live record carrying `id` (meaningful when `contains_id` holds).
    pub open spec fn spec_get(&self, id: u32) -> EmployeeRecordView {
        record_of(self@, id)
    }

    /// The largest live identifier, or 0 when the store is empty.
    pub open spec fn max_id(&self) -> u32 {
        if self@.len() == 0 {
            0u32
        } else {
            self@[self@.len() - 1].id
        }
    }

    /// The identifier the next `create` hands out.
    pub open spec fn alloc_id(&self) -> u32 {
        (self.max_id() + 1) as u32
    }

    /// A fresh identifier exists below the machine bound.
    pub open spec fn can_allocate(&self) -> bool {
        self.max_id() < u32::MAX
    }

    /// An empty store.
    pub fn new() -> (s: EmployeeStore)
        ensures
            s@ == Seq::<EmployeeRecordView>::empty(),
            s.wf(),
    {
        let s = EmployeeStore { records: Vec::new() };
        proof {
            assert(s@ =~= Seq::<EmployeeRecordView>::empty());
        }
        s
    }

    /// How many records are live.
    pub fn len(&self) -> (n: usize)
        ensures
            n == self@.len(),
    {
        self.records.len()
    }

    /// The largest live identifier, or 0 when the store is empty; a caller
    /// can check before a create that a fresh identifier exists.
    pub fn current_max_id(&self) -> (m: u32)
        ensures
            m == self.max_id(),
    {
        let n = self.records.len();
        if n == 0 {
            0
        } else {
            self.records[n - 1].id
        }
    }

    /// The index of the record carrying `id`, if one is live.
    fn find_index(&self, id: u32) -> (r: Option<usize>)
        ensures
            match r {
                Some(k) => k < self@.len() && self@[k as int].id == id,
                None => !self.contains_id(id),
            },
    {
        let mut i: usize = 0;
        while i < self.records.len()
            invariant
                i <= self.records.len(),
                self@.len() == self.records@.len(),
                forall|j: int| #![trigger self@[j]] 0 <= j < i ==> self@[j].id != id,
            decreases self.records.len() - i,
        {
            if self.records[i].id == id {
                return Some(i);
            }
            i = i + 1;
        }
        None
    }

    /// Read-only lookup: a copy of the record carrying `id`, or NotFound.
    pub fn get(&self, id: u32) -> (r: Result<EmployeeRecord, ApiError>)
        requires
            self.wf(),
        ensures
            match r {
                Ok(rec) => self.contains_id(id) && rec@ == self.spec_get(id) && rec@.id == id,
                Err(e) => !self.contains_id(id) && match e {
                    ApiError::NotFound(i) => i == id,
                    _ => false,
                },
            },
    {
        match self.find_index(id) {
            Some(k) => {
                let rec = self.records[k].clone();
                proof {
                    lemma_found(self@, k as int, id);
                }
                Ok(rec)
            },
            None => Err(ApiError::NotFound(id)),
        }
    }

    /// All live records, ascending by identifier.
    pub fn list(&self) -> (r: Vec<EmployeeRecord>)
        requires
            self.wf(),
        ensures
            r@.len() == self@.len(),
            forall|i: int| #![trigger r@[i]] 0 <= i < self@.len() ==> r@[i]@ == self@[i],
            forall|i: int, j: int|
                #![trigger r@[i], r@[j]]
                0 <= i < j < r@.len() ==> r@[i]@.id < r@[j]@.id,
    {
        let mut r: Vec<EmployeeRecord> = Vec::new();
        let mut i: usize = 0;
        while i < self.records.len()
            invariant
                i <= self.records.len(),
                self@.len() == self.records@.len(),
                r@.len() == i,
                forall|j: int| #![trigger r@[j]] 0 <= j < i ==> r@[j]@ == self@[j],
            decreases self.records.len() - i,
        {
            r.push(self.records[i].clone());
            i = i + 1;
        }
        r
    }

    /// Creates a record: validates the candidate, allocates the next
    /// identifier (one above the current maximum, or 1 on an empty store),
    /// forces it onto the candidate, and inserts, all as one step. On a
    /// validation failure nothing changes.
    pub fn create(&mut self, candidate: EmployeeRecord) -> (r: Result<EmployeeRecord, ApiError>)
        requires
            old(self).wf(),
            old(self).can_allocate(),
        ensures
            final(self).wf(),
            match r {
                Ok(rec) => {
                    &&& record_valid(candidate@)
                    &&& rec@ == candidate@.with_id(old(self).alloc_id())
                    &&& rec@.id == old(self).alloc_id()
                    &&& final(self)@ == old(self)@.push(rec@)
                    &&& final(self).contains_id(rec@.id)
                    &&& final(self).spec_get(rec@.id) == rec@
                    &&& forall|i: int|
                        #![trigger old(self)@[i]]
                        0 <= i < old(self)@.len() ==> old(self)@[i].id < rec@.id
                },
                Err(e) => {
                    &&& final(self)@ == old(self)@
                    &&& match e {
                        ApiError::ValidationFailed(vs) => !record_valid(candidate@) && vs@
                            == record_violations(candidate@),
                        _ => false,
                    }
                },
            },
    {
        let ghost cand = candidate@;
        let vs = validate_record(&candidate);
        if vs.len() > 0 {
            return Err(ApiError::ValidationFailed(vs));
        }
        let n = self.records.len();
        let new_id: u32 = if n == 0 {
            1
        } else {
            self.records[n - 1].id + 1
        };
        let ghost prev = self@;
        proof {
            if prev.len() > 0 {
                lemma_last_is_max(prev);
            }
        }
        let mut rec = candidate;
        rec.id = new_id;
        let out = rec.clone();
        self.records.push(rec);
        proof {
            assert(out@ =~= cand.with_id(new_id));
            assert(self@ =~= prev.push(out@));
            assert forall|i: int, j: int|
                #![trigger self@[i], self@[j]]
                0 <= i < j < self@.len() implies self@[i].id < self@[j].id by {
                if j < self@.len() - 1 {
                    assert(prev[i].id < prev[j].id);
                } else {
                    assert(prev[i].id <= prev[prev.len() - 1].id);
                }
            }
            lemma_found(self@, self@.len() - 1, new_id);
        }
        Ok(out)
    }

    /// Deletes the record carrying `id` and returns it as it stood just
    /// before removal; every other record is untouched.
    pub fn delete(&mut self, id: u32) -> (r: Result<EmployeeRecord, ApiError>)
        requires
            old(self).wf(),
        ensures
            final(self).wf(),
            match r {
                Ok(rec) => {
                    &&& old(self).contains_id(id)
                    &&& rec@ == old(self).spec_get(id)
                    &&& rec@.id == id
                    &&& final(self)@ == old(self)@.remove(index_of_id(old(self)@, id))
                    &&& !final(self).contains_id(id)
                    &&& forall|x: u32|
                        x != id ==> (final(self).contains_id(x) <==> old(self).contains_id(x))
                    &&& forall|x: u32|
                        x != id && old(self).contains_id(x) ==> final(self).spec_get(x) == old(
                            self,
                        ).spec_get(x)
                },
                Err(e) => {
                    &&& final(self)@ == old(self)@
                    &&& !old(self).contains_id(id)
                    &&& match e {
                        ApiError::NotFound(i) => i == id,
                        _ => false,
                    }
                },
            },
    {
        match self.find_index(id) {
            Some(k) => {
                let ghost prev = self@;
                proof {
                    lemma_found(prev, k as int, id);
                    old(self).records@.remove_ensures(k as int);
                    prev.remove_ensures(k as int);
                }
                let rec = self.records.remove(k);
                proof {
                    assert(self@ =~= prev.remove(k as int));
                    lemma_remove_id(prev, k as int);
                }
                Ok(rec)
            },
            None => Err(ApiError::NotFound(id)),
        }
    }

    /// Full replace: every field of the record carrying `id` is overwritten
    /// by the validated candidate, except that the identifier is forced to
    /// `id` — a caller cannot reassign a record to another identifier.
    /// Nothing changes on error.
    pub fn replace(&mut self, id: u32, candidate: EmployeeRecord) -> (r: Result<
        EmployeeRecord,
        ApiError,
    >)
        requires
            old(self).wf(),
        ensures
            final(self).wf(),
            match r {
                Ok(rec) => {
                    &&& old(self).contains_id(id)
                    &&& record_valid(candidate@)
                    &&& rec@ == candidate@.with_id(id)
                    &&& rec@.id == id
                    &&& final(self)@ == old(self)@.update(index_of_id(old(self)@, id), rec@)
                    &&& final(self).contains_id(id)
                    &&& final(self).spec_get(id) == rec@
                    &&& forall|x: u32| final(self).contains_id(x) <==> old(self).contains_id(x)
                    &&& forall|x: u32|
                        x != id && old(self).contains_id(x) ==> final(self).spec_get(x) == old(
                            self,
                        ).spec_get(x)
                },
                Err(e) => {
                    &&& final(self)@ == old(self)@
                    &&& match e {
                        ApiError::NotFound(i) => i == id && !old(self).contains_id(id),
                        ApiError::ValidationFailed(vs) => old(self).contains_id(id)
                            && !record_valid(candidate@) && vs@ == record_violations(candidate@),
                        _ => false,
                    }
                },
            },
    {
        let k = match self.find_index(id) {
            Some(k) => k,
            None => {
                return Err(ApiError::NotFound(id));
            },
        };
        let ghost cand = candidate@;
        let vs = validate_record(&candidate);
        if vs.len() > 0 {
            proof {
                assert(self.contains_id(id));
            }
            return Err(ApiError::ValidationFailed(vs));
        }
        let ghost prev = self@;
        let mut rec = candidate;
        rec.id = id;
        let out = rec.clone();
        self.records.set(k, rec);
        proof {
            assert(out@ =~= cand.with_id(id));
            assert(self@ =~= prev.update(k as int, out@));
            lemma_found(prev, k as int, id);
            lemma_update_id(prev, k as int, out@);
        }
        Ok(out)
    }

    /// Partial update: overwrites exactly the fields present in `p` on the
    /// record carrying `id`, leaving every other field untouched. The merged
    /// record is not re-validated: a patch can leave a record that create or
    /// replace would reject, a documented limitation kept as stored
    /// behaviour.
    pub fn patch(&mut self, id: u32, p: EmployeePatch) -> (r: Result<EmployeeRecord, ApiError>)
        requires
            old(self).wf(),
        ensures
            final(self).wf(),
            match r {
                Ok(rec) => {
                    &&& old(self).contains_id(id)
                    &&& rec@ == apply_patch(old(self).spec_get(id), p@)
                    &&& rec@.id == id
                    &&& final(self)@ == old(self)@.update(index_of_id(old(self)@, id), rec@)
                    &&& final(self).contains_id(id)
                    &&& final(self).spec_get(id) == rec@
                    &&& forall|x: u32| final(self).contains_id(x) <==> old(self).contains_id(x)
                    &&& forall|x: u32|
                        x != id && old(self).contains_id(x) ==> final(self).spec_get(x) == old(
                            self,
                        ).spec_get(x)
                },
                Err(e) => {
                    &&& final(self)@ == old(self)@
                    &&& !old(self).contains_id(id)
                    &&& match e {
                        ApiError::NotFound(i) => i == id,
                        _ => false,
                    }
                },
            },
    {
        let k = match self.find_index(id) {
            Some(k) => k,
            None => {
                return Err(ApiError::NotFound(id));
            },
        };
        let ghost prev = self@;
        let ghost pv = p@;
        let mut rec = self.records[k].clone();
        let EmployeePatch {
            full_name,
            email,
            phone,
            address,
            position,
            department,
            salary,
            status,
            contract_type,
        } = p;
        if let Some(v) = full_name {
            rec.employee.full_name = v;
        }
        if let Some(v) = email {
            rec.employee.email = v;
        }
        if let Some(v) = phone {
            rec.employee.phone = v;
        }
        if let Some(v) = address {
            rec.employee.address = v;
        }
        if let Some(v) = position {
            rec.employment.position = v;
        }
        if let Some(v) = department {
            rec.employment.department = v;
        }
        if let Some(v) = salary {
            rec.employment.salary = v;
        }
        if let Some(v) = status {
            rec.employment.status = v;
        }
        if let Some(v) = contract_type {
            rec.employment.contract_type = v;
        }
        let out = rec.clone();
        self.records.set(k, rec);
        proof {
            lemma_found(prev, k as int, id);
            assert(out@ =~= apply_patch(prev[k as int], pv));
            assert(self@ =~= prev.update(k as int, out@));
            lemma_update_id(prev, k as int, out@);
        }
        Ok(out)
    }

    /// Creates a record under a caller-supplied identifier, as the seed
    /// loader and the identifier-taking create variant do, refusing to
    /// overwrite a live record. The candidate is not validated: seeding
    /// bypasses the validation layer.
    pub fn create_with_id(&mut self, record: EmployeeRecord) -> (r: Result<(), ApiError>)
        requires
            old(self).wf(),
        ensures
            final(self).wf(),
            match r {
                Ok(u) => {
                    &&& !old(self).contains_id(record@.id)
                    &&& final(self).contains_id(record@.id)
                    &&& final(self).spec_get(record@.id) == record@
                    &&& final(self)@.len() == old(self)@.len() + 1
                    &&& forall|x: u32|
                        x != record@.id ==> (final(self).contains_id(x) <==> old(
                            self,
                        ).contains_id(x))
                    &&& forall|x: u32|
                        x != record@.id && old(self).contains_id(x) ==> final(self).spec_get(x)
                            == old(self).spec_get(x)
                },
                Err(e) => {
                    &&& final(self)@ == old(self)@
                    &&& old(self).contains_id(record@.id)
                    &&& match e {
                        ApiError::AlreadyExists(i) => i == record@.id,
                        _ => false,
                    }
                },
            },
    {
        let ghost rv = record@;
        let id = record.id;
        let mut k: usize = 0;
        while k < self.records.len() && self.records[k].id < id
            invariant
                k <= self.records.len(),
                self@.len() == self.records@.len(),
                forall|j: int| #![trigger self@[j]] 0 <= j < k ==> self@[j].id < id,
            decreases self.records.len() - k,
        {
            k = k + 1;
        }
        if k < self.records.len() && self.records[k].id == id {
            proof {
                assert(self@[k as int].id == id);
                assert(self.contains_id(id));
            }
            return Err(ApiError::AlreadyExists(id));
        }
        let ghost prev = self@;
        proof {
            assert forall|i: int| #![trigger prev[i]] k <= i < prev.len() implies prev[i].id
                > id by {
                if i > k {
                    assert(prev[k as int].id < prev[i].id);
                }
            }
            if self.contains_id(id) {
                let w = choose|i: int| 0 <= i < prev.len() && #[trigger] prev[i].id == id;
                assert(false);
            }
            prev.insert_ensures(k as int, rv);
        }
        self.records.insert(k, record);
        proof {
            assert(self@ =~= prev.insert(k as int, rv));
            lemma_insert_id(prev, k as int, rv);
        }
        Ok(())
    }
}

/// Uniqueness: no two live records of a well-formed store share an
/// identifier. Every operation keeps the store well formed, so this holds
/// after any sequence of creates, whatever order a lock serialized them in.
pub proof fn lemma_ids_unique(s: &EmployeeStore)
    requires
        s.wf(),
    ensures
        forall|i: int, j: int|
            #![trigger s@[i], s@[j]]
            0 <= i < s@.len() && 0 <= j < s@.len() && i != j ==> s@[i].id != s@[j].id,
{
    assert forall|i: int, j: int|
        #![trigger s@[i], s@[j]]
        0 <= i < s@.len() && 0 <= j < s@.len() && i != j implies s@[i].id != s@[j].id by {
        if i < j {
            assert(s@[i].id < s@[j].id);
        }
        if j < i {
            assert(s@[j].id < s@[i].id);
        }
    }
}

/// Monotonic allocation: the identifier `create` hands out strictly
/// exceeds every identifier live immediately before the call.
pub proof fn lemma_allocation_monotonic(s: &EmployeeStore)
    requires
        s.wf(),
        s.can_allocate(),
    ensures
        forall|i: int| #![trigger s@[i]] 0 <= i < s@.len() ==> s@[i].id < s.alloc_id(),
{
    if s@.len() > 0 {
        lemma_last_is_max(s@);
    }
}

/// Uniqueness across creates: as long as an earlier `create`'s record is
/// still live, the identifier the next `create` allocates strictly exceeds
/// it, so no two created records ever share an identifier — in whatever
/// order a lock serialized the calls.
pub proof fn lemma_created_ids_distinct(s: &EmployeeStore, earlier: u32)
    requires
        s.wf(),
        s.contains_id(earlier),
        s.can_allocate(),
    ensures
        earlier < s.alloc_id(),
{
    let i = choose|i: int| 0 <= i < s@.len() && #[trigger] s@[i].id == earlier;
    lemma_allocation_monotonic(s);
    assert(s@[i].id < s.alloc_id());
}

/// Delete completeness: once no live record carries `id` — as `delete`
/// ensures of its target — a lookup of `id` can only report NotFound (see
/// `get`), and no entry of a listing carries `id` (see `list`).
pub proof fn lemma_delete_completeness(s: &EmployeeStore, id: u32)
    requires
        !s.contains_id(id),
    ensures
        forall|i: int| #![trigger s@[i]] 0 <= i < s@.len() ==> s@[i].id != id,
{
}

/// Patch locality: a patch payload changes no field it does not carry.
/// The identifier and the fields outside the patchable set never change;
/// each patchable field keeps its stored value when the payload leaves it
/// out.
pub proof fn lemma_patch_locality(r: EmployeeRecordView, p: EmployeePatchView)
    ensures
        apply_patch(r, p).id == r.id,
        apply_patch(r, p).employee.gender == r.employee.gender,
        apply_patch(r, p).employee.dob == r.employee.dob,
        apply_patch(r, p).employment.manager_id == r.employment.manager_id,
        apply_patch(r, p).employment.start_date == r.employment.start_date,
        apply_patch(r, p).access == r.access,
        apply_patch(r, p).history == r.history,
        p.full_name is None ==> apply_patch(r, p).employee.full_name == r.employee.full_name,
        p.email is None ==> apply_patch(r, p).employee.email == r.employee.email,
        p.phone is None ==> apply_patch(r, p).employee.phone == r.employee.phone,
        p.address is None ==> apply_patch(r, p).employee.address == r.employee.address,
        p.position is None ==> apply_patch(r, p).employment.position == r.employment.position,
        p.department is None ==> apply_patch(r, p).employment.department
            == r.employment.department,
        p.salary is None ==> apply_patch(r, p).employment.salary == r.employment.salary,
        p.status is None ==> apply_patch(r, p).employment.status == r.employment.status,
        p.contract_type is None ==> apply_patch(r, p).employment.contract_type
            == r.employment.contract_type,
{
}

} // verus!
