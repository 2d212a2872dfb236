//! Job-scoped persistence units and their lifecycle.
//!
//! Each job owns exactly one isolated unit, named by the job's
//! canonical UUID string. The backing system may also hold units that
//! are unrelated to jobs; their names do not parse as job identifiers.

use vstd::prelude::*;
use crate::ids::JobId;
use crate::records::ObjectRecord;

verus! {

/// Failures of the store lifecycle. `NotFound` means the unit does not
/// exist, distinguished from `ConnectionFailed`, which signals a
/// transient problem reaching an existing unit; callers rely on that
/// distinction to tell "no such job" from "backend unreachable".
#[derive(Clone, Copy, Debug, PartialEq, Eq, Structural)]
pub enum StoreError {
    AlreadyExists,
    NotFound,
    ConnectionFailed,
}

/// One isolated persistence unit: a named table of object records.
pub struct PersistenceUnit {
    name: String,
    records: Vec<ObjectRecord>,
}

impl PersistenceUnit {
    /// The unit's name.
    pub closed spec fn spec_name(&self) -> Seq<char> {
        self.name@
    }

    /// The records the unit holds, in insertion order.
    pub closed spec fn spec_records(&self) -> Seq<ObjectRecord> {
        self.records@
    }

    /// The unit's name.
    pub fn name(&self) -> (r: &str)
        ensures
            r@ == self.spec_name(),
    {
        self.name.as_str()
    }

    /// The records the unit holds, in insertion order.
    pub fn records(&self) -> (r: &Vec<ObjectRecord>)
        ensures
            r@ == self.spec_records(),
    {
        &self.records
    }
}

/// The set of persistence units known to the backing system, keyed by
/// unit name. Unit names are unique; each job's unit is named by the
/// job's canonical UUID string, so no call can cross from one job's
/// data into another's.
pub struct JobStore {
    units: Vec<PersistenceUnit>,
}

impl JobStore {
    /// The names of all units, in creation order.
    pub closed spec fn names(&self) -> Seq<Seq<char>> {
        self.units@.map_values(|u: PersistenceUnit| u.spec_name())
    }

    /// Whether a unit of this name exists.
    pub open spec fn has_unit(&self, name: Seq<char>) -> bool {
        self.names().contains(name)
    }

    /// The records of the unit of this name; meaningful only where
    /// `has_unit` holds.
    pub closed spec fn records_of(&self, name: Seq<char>) -> Seq<ObjectRecord> {
        let i = choose|i: int|
            0 <= i < self.units@.len() && self.units@[i].spec_name() == name;
        self.units@[i].spec_records()
    }

    /// Unit names never collide: each name denotes at most one unit.
    pub closed spec fn wf(&self) -> bool {
        forall|i: int, j: int|
            0 <= i < self.units@.len() && 0 <= j < self.units@.len() && i != j
                ==> self.units@[i].spec_name() != self.units@[j].spec_name()
    }

    /// An empty backing system with no units.
    pub fn new() -> (r: JobStore)
        ensures
            r.wf(),
            r.names() == Seq::<Seq<char>>::empty(),
    {
        let r = JobStore { units: Vec::new() };
        proof {
            assert(r.names() =~= Seq::<Seq<char>>::empty());
        }
        r
    }

    /// The index of the unit of this name, if any.
    fn find_unit(&self, name: &str) -> (r: Option<usize>)
        ensures
            r matches Some(i) ==> i < self.units@.len()
                && self.units@[i as int].spec_name() == name@,
            r is Some <==> self.has_unit(name@),
    {
        let target: String = name.to_owned();
        let n = self.units.len();
        for i in 0..n
            invariant
                n == self.units@.len(),
                target@ == name@,
                forall|j: int| 0 <= j < i ==> self.units@[j].spec_name() != name@,
        {
            if self.units[i].name == target {
                proof {
                    assert(self.names()[i as int] == name@);
                }
                return Some(i);
            }
        }
        proof {
            assert(forall|j: int|
                0 <= j < self.names().len() ==> self.names()[j] != name@);
        }
        None
    }

    /// Provisions a new, empty unit under this name, whatever the name;
    /// fails with `AlreadyExists` if a unit of the name already exists.
    /// The backing system may hold units created this way that are not
    /// job units.
    pub fn create_unit(&mut self, name: &str) -> (r: Result<(), StoreError>)
        requires
            old(self).wf(),
        ensures
            final(self).wf(),
            r is Ok <==> !old(self).has_unit(name@),
            r is Err ==> (r matches Err(e) && e == StoreError::AlreadyExists)
                && *final(self) == *old(self),
            r is Ok ==> final(self).names() == old(self).names().push(name@)
                && final(self).records_of(name@) == Seq::<ObjectRecord>::empty(),
            forall|n: Seq<char>|
                n != name@ ==> final(self).has_unit(n) == old(self).has_unit(n),
            forall|n: Seq<char>|
                n != name@ && old(self).has_unit(n)
                    ==> final(self).records_of(n) == old(self).records_of(n),
    {
        match self.find_unit(name) {
            Some(_) => Err(StoreError::AlreadyExists),
            None => {
                let unit = PersistenceUnit { name: name.to_owned(), records: Vec::new() };
                self.units.push(unit);
                proof {
                    self.lemma_after_push(*old(self), name@);
                }
                Ok(())
            },
        }
    }

    /// After pushing a unit with a fresh name, the store's view is the
    /// old view extended by that name with the pushed records.
    proof fn lemma_after_push(&self, prev: JobStore, name: Seq<char>)
        requires
            prev.wf(),
            !prev.has_unit(name),
            self.units@ == prev.units@.push(self.units@.last()),
            self.units@.len() == prev.units@.len() + 1,
            self.units@.last().spec_name() == name,
        ensures
            self.wf(),
            self.names() == prev.names().push(name),
            self.records_of(name) == self.units@.last().spec_records(),
            forall|n: Seq<char>| n != name ==> self.has_unit(n) == prev.has_unit(n),
            forall|n: Seq<char>|
                n != name && prev.has_unit(n) ==> self.records_of(n) == prev.records_of(n),
    {
        let len = prev.units@.len() as int;
        assert(forall|i: int|
            0 <= i < len ==> self.units@[i] == #[trigger] prev.units@[i]);
        assert(self.units@[len].spec_name() == name);
        assert(self.names() =~= prev.names().push(name));
        assert forall|i: int, j: int|
            0 <= i < self.units@.len() && 0 <= j < self.units@.len() && i != j implies
            self.units@[i].spec_name() != self.units@[j].spec_name() by {
            if i < len && j < len {
                assert(prev.units@[i].spec_name() != prev.units@[j].spec_name());
            } else if i == len && j < len {
                if self.units@[j].spec_name() == name {
                    assert(prev.names()[j] == name);
                    assert(prev.has_unit(name));
                }
            } else if j == len && i < len {
                if self.units@[i].spec_name() == name {
                    assert(prev.names()[i] == name);
                    assert(prev.has_unit(name));
                }
            }
        }
        assert forall|n: Seq<char>| n != name implies
            self.has_unit(n) == prev.has_unit(n) by {
            if prev.has_unit(n) {
                let j = choose|j: int| 0 <= j < len && prev.names()[j] == n;
                assert(self.names()[j] == n);
            }
            if self.has_unit(n) {
                let j = choose|j: int|
                    0 <= j < self.names().len() && self.names()[j] == n;
                assert(j < len);
                assert(prev.names()[j] == n);
            }
        }
        assert forall|n: Seq<char>| n != name && prev.has_unit(n) implies
            self.records_of(n) == prev.records_of(n) by {
            let i = choose|i: int|
                0 <= i < self.units@.len() && self.units@[i].spec_name() == n;
            let j = choose|j: int|
                0 <= j < prev.units@.len() && prev.units@[j].spec_name() == n;
            assert(prev.names()[j] == n);
            assert(self.names()[j] == n);
            assert(i < len);
            assert(prev.units@[i].spec_name() == n);
            assert(i == j || prev.units@[i].spec_name() != prev.units@[j].spec_name());
        }
        assert(self.names()[len] == name);
        let i = choose|i: int|
            0 <= i < self.units@.len() && self.units@[i].spec_name() == name;
        assert(i == len) by {
            if i < len {
                assert(prev.units@[i].spec_name() == name);
                assert(prev.names()[i] == name);
            }
        }
    }

    /// Provisions the persistence unit for a job as part of job setup.
    pub fn create(&mut self, job: &JobId) -> (r: Result<(), StoreError>)
        requires
            old(self).wf(),
        ensures
            final(self).wf(),
            r is Ok <==> !old(self).has_unit(job@),
            r is Err ==> (r matches Err(e) && e == StoreError::AlreadyExists)
                && *final(self) == *old(self),
            r is Ok ==> final(self).names() == old(self).names().push(job@)
                && final(self).records_of(job@) == Seq::<ObjectRecord>::empty(),
            forall|n: Seq<char>|
                n != job@ ==> final(self).has_unit(n) == old(self).has_unit(n),
            forall|n: Seq<char>|
                n != job@ && old(self).has_unit(n)
                    ==> final(self).records_of(n) == old(self).records_of(n),
    {
        self.create_unit(job.as_str())
    }

    /// Opens the existing unit for a job; fails with `NotFound` exactly
    /// when no unit of that name exists. The borrow is scoped to the
    /// caller, so the unit is released on every exit path.
    pub fn connect<'a>(&'a self, job: &JobId) -> (r: Result<&'a PersistenceUnit, StoreError>)
        requires
            self.wf(),
        ensures
            r is Ok <==> self.has_unit(job@),
            r matches Ok(u) ==> u.spec_name() == job@
                && u.spec_records() == self.records_of(job@),
            r matches Err(e) ==> e == StoreError::NotFound,
    {
        match self.find_unit(job.as_str()) {
            Some(i) => {
                let u = &self.units[i];
                proof {
                    self.lemma_records_at_index(i as int);
                }
                Ok(u)
            },
            None => Err(StoreError::NotFound),
        }
    }

    /// In a store with unique names, the records of the unit at any
    /// index are the records the unit's name denotes.
    proof fn lemma_records_at_index(&self, i: int)
        requires
            self.wf(),
            0 <= i < self.units@.len(),
        ensures
            self.has_unit(self.units@[i].spec_name()),
            self.records_of(self.units@[i].spec_name()) == self.units@[i].spec_records(),
    {
        let name = self.units@[i].spec_name();
        assert(self.names()[i] == name);
        let j = choose|j: int|
            0 <= j < self.units@.len() && self.units@[j].spec_name() == name;
        assert(i == j || self.units@[i].spec_name() != self.units@[j].spec_name());
    }

    /// Appends one record to a job's unit, as a migration worker does;
    /// fails with `NotFound` exactly when the job has no unit. Nothing
    /// is checked of the record itself: the read side treats integrity
    /// violations as classified errors.
    pub fn insert_record(&mut self, job: &JobId, rec: ObjectRecord) -> (r: Result<
        (),
        StoreError,
    >)
        requires
            old(self).wf(),
        ensures
            final(self).wf(),
            r is Ok <==> old(self).has_unit(job@),
            r is Err ==> (r matches Err(e) && e == StoreError::NotFound)
                && *final(self) == *old(self),
            final(self).names() == old(self).names(),
            r is Ok ==> final(self).records_of(job@) == old(self).records_of(job@).push(rec),
            forall|n: Seq<char>|
                final(self).has_unit(n) == old(self).has_unit(n),
            forall|n: Seq<char>|
                n != job@ && old(self).has_unit(n)
                    ==> final(self).records_of(n) == old(self).records_of(n),
    {
        match self.find_unit(job.as_str()) {
            Some(i) => {
                proof {
                    self.lemma_records_at_index(i as int);
                }
                self.units[i].records.push(rec);
                proof {
                    self.lemma_after_update(*old(self), i as int);
                }
                Ok(())
            },
            None => Err(StoreError::NotFound),
        }
    }

    /// After appending to the unit at one index, every other unit and
    /// the set of names are unchanged, and that unit's records gained
    /// the appended element.
    proof fn lemma_after_update(&self, prev: JobStore, i: int)
        requires
            prev.wf(),
            0 <= i < prev.units@.len(),
            self.units@.len() == prev.units@.len(),
            forall|j: int|
                0 <= j < prev.units@.len() && j != i
                    ==> self.units@[j] == prev.units@[j],
            self.units@[i].spec_name() == prev.units@[i].spec_name(),
            self.units@[i].spec_records()
                == prev.units@[i].spec_records().push(
                self.units@[i].spec_records().last()),
        ensures
            self.wf(),
            self.names() == prev.names(),
            forall|n: Seq<char>| self.has_unit(n) == prev.has_unit(n),
            self.records_of(prev.units@[i].spec_name())
                == self.units@[i].spec_records(),
            forall|n: Seq<char>|
                n != prev.units@[i].spec_name() && prev.has_unit(n)
                    ==> self.records_of(n) == prev.records_of(n),
    {
        assert(self.names() =~= prev.names());
        self.lemma_records_at_index(i);
        assert forall|n: Seq<char>|
            n != prev.units@[i].spec_name() && prev.has_unit(n) implies
            self.records_of(n) == prev.records_of(n) by {
            let a = choose|a: int|
                0 <= a < self.units@.len() && self.units@[a].spec_name() == n;
            let b = choose|b: int|
                0 <= b < prev.units@.len() && prev.units@[b].spec_name() == n;
            assert(prev.names()[b] == n);
            assert(self.names()[b] == n);
            assert(b != i);
            assert(self.units@[b].spec_name() == n);
            assert(a == b || self.units@[a].spec_name() != self.units@[b].spec_name());
            assert(a != i);
        }
    }

    /// The names of all existing units in the backing system, in
    /// creation order; only a subset of them are job identifiers.
    pub fn list(&self) -> (r: Vec<String>)
        ensures
            r@.len() == self.names().len(),
            forall|i: int| 0 <= i < r@.len() ==> r@[i]@ == self.names()[i],
    {
        let mut r: Vec<String> = Vec::new();
        let n = self.units.len();
        for i in 0..n
            invariant
                n == self.units@.len(),
                r@.len() == i,
                forall|j: int| 0 <= j < i ==> r@[j]@ == self.names()[j],
        {
            r.push(self.units[i].name.clone());
        }
        r
    }
}

} // verus!
