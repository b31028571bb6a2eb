//! The store: four tables, their invariants, and the migration runner that
//! brings an empty store to the current schema version.
//!
//! The store's state is held as plain rows in memory. Each table keeps a key
//! counter from which surrogate keys are handed out in insertion order,
//! starting at 1 when the table is created. The schema version counts the
//! migrations applied so far; each migration creates one table, and the
//! runner applies every outstanding one in increasing order, exactly once.

use vstd::prelude::*;

use crate::models::{Assignment, Class, DbError, Grade, Student};
use crate::rows::{has_key, keys_below, unique_keys, Keyed};

verus! {

/// The schema version a fully migrated store carries: one migration per
/// table, in the order students, classes, assignments, grades.
pub const CURRENT_SCHEMA_VERSION: u64 = 4;

/// Whether some student row carries the external identifier `sid`.
pub open spec fn sid_taken(rows: Seq<Student>, sid: Seq<char>) -> bool {
    exists|i: int| 0 <= i < rows.len() && (#[trigger] rows[i]).student_id@ == sid
}

/// Whether a student row other than the one keyed `id` carries the external
/// identifier `sid`.
pub open spec fn sid_taken_by_other(rows: Seq<Student>, sid: Seq<char>, id: i64) -> bool {
    exists|i: int|
        0 <= i < rows.len() && (#[trigger] rows[i]).student_id@ == sid && rows[i].id != id
}

/// Whether no two student rows share an external identifier.
pub open spec fn unique_sids(rows: Seq<Student>) -> bool {
    forall|i: int, j: int|
        #![trigger rows[i].student_id, rows[j].student_id]
        0 <= i < j < rows.len() ==> rows[i].student_id@ != rows[j].student_id@
}

/// Whether some assignment row references class `class_id`.
pub open spec fn class_referenced(rows: Seq<Assignment>, class_id: i64) -> bool {
    exists|i: int| 0 <= i < rows.len() && (#[trigger] rows[i]).class_id == class_id
}

/// Whether some grade row references student `student_id`.
pub open spec fn student_referenced(rows: Seq<Grade>, student_id: i64) -> bool {
    exists|i: int| 0 <= i < rows.len() && (#[trigger] rows[i]).student_id == student_id
}

/// Whether some grade row references assignment `assignment_id`.
pub open spec fn assignment_referenced(rows: Seq<Grade>, assignment_id: i64) -> bool {
    exists|i: int| 0 <= i < rows.len() && (#[trigger] rows[i]).assignment_id == assignment_id
}

/// The shared store: one row vector and one key counter per table, and the
/// schema version the migration runner maintains.
pub struct Database {
    pub schema_version: u64,
    pub students: Vec<Student>,
    pub classes: Vec<Class>,
    pub assignments: Vec<Assignment>,
    pub grades: Vec<Grade>,
    pub next_student_id: i64,
    pub next_class_id: i64,
    pub next_assignment_id: i64,
    pub next_grade_id: i64,
}

impl Database {
    /// The students table's invariant. Before its migration has run the
    /// table does not exist: no rows, counter zero. Afterwards keys are
    /// unique, lie below the counter, external identifiers are unique, and
    /// every row meets its field constraints.
    pub open spec fn students_inv(&self) -> bool {
        if self.schema_version >= 1 {
            &&& 1 <= self.next_student_id
            &&& unique_keys(self.students@)
            &&& keys_below(self.students@, self.next_student_id)
            &&& unique_sids(self.students@)
            &&& forall|i: int|
                0 <= i < self.students@.len() ==> (#[trigger] self.students@[i]).fields_valid()
        } else {
            self.students@.len() == 0 && self.next_student_id == 0
        }
    }

    /// The classes table's invariant; as for students, without an external
    /// identifier.
    pub open spec fn classes_inv(&self) -> bool {
        if self.schema_version >= 2 {
            &&& 1 <= self.next_class_id
            &&& unique_keys(self.classes@)
            &&& keys_below(self.classes@, self.next_class_id)
            &&& forall|i: int|
                0 <= i < self.classes@.len() ==> (#[trigger] self.classes@[i]).fields_valid()
        } else {
            self.classes@.len() == 0 && self.next_class_id == 0
        }
    }

    /// The assignments table's invariant: beyond the common key discipline,
    /// every row references an existing class.
    pub open spec fn assignments_inv(&self) -> bool {
        if self.schema_version >= 3 {
            &&& 1 <= self.next_assignment_id
            &&& unique_keys(self.assignments@)
            &&& keys_below(self.assignments@, self.next_assignment_id)
            &&& forall|i: int|
                0 <= i < self.assignments@.len() ==> (#[trigger] self.assignments@[i]).fields_valid()
            &&& forall|i: int|
                0 <= i < self.assignments@.len() ==> has_key(
                    self.classes@,
                    (#[trigger] self.assignments@[i]).class_id,
                )
        } else {
            self.assignments@.len() == 0 && self.next_assignment_id == 0
        }
    }

    /// The grades table's invariant: every row references an existing
    /// student and an existing assignment.
    pub open spec fn grades_inv(&self) -> bool {
        if self.schema_version >= 4 {
            &&& 1 <= self.next_grade_id
            &&& unique_keys(self.grades@)
            &&& keys_below(self.grades@, self.next_grade_id)
            &&& forall|i: int|
                0 <= i < self.grades@.len() ==> has_key(
                    self.students@,
                    (#[trigger] self.grades@[i]).student_id,
                )
            &&& forall|i: int|
                0 <= i < self.grades@.len() ==> has_key(
                    self.assignments@,
                    (#[trigger] self.grades@[i]).assignment_id,
                )
        } else {
            self.grades@.len() == 0 && self.next_grade_id == 0
        }
    }

    /// The store's structural invariant, at whatever schema version it has
    /// reached. Constructors establish it; the migration runner and every
    /// repository operation preserve it.
    pub open spec fn inv(&self) -> bool {
        &&& self.students_inv()
        &&& self.classes_inv()
        &&& self.assignments_inv()
        &&& self.grades_inv()
    }

    /// A fully migrated, well-formed store: the state in which repository
    /// operations are reachable.
    pub open spec fn wf(&self) -> bool {
        &&& self.inv()
        &&& self.schema_version == CURRENT_SCHEMA_VERSION
    }

    /// Creates an empty store: no tables yet, schema version zero.
    pub fn new() -> (db: Database)
        ensures
            db.inv(),
            db.schema_version == 0,
            db.students@.len() == 0,
            db.classes@.len() == 0,
            db.assignments@.len() == 0,
            db.grades@.len() == 0,
    {
        Database {
            schema_version: 0,
            students: Vec::new(),
            classes: Vec::new(),
            assignments: Vec::new(),
            grades: Vec::new(),
            next_student_id: 0,
            next_class_id: 0,
            next_assignment_id: 0,
            next_grade_id: 0,
        }
    }

    /// Applies the one migration that brings the schema to `version`:
    /// creates that version's table by starting its key counter at 1. The
    /// version counter itself is advanced by the runner.
    fn apply_migration(&mut self, version: u64)
        requires
            1 <= version <= CURRENT_SCHEMA_VERSION,
        ensures
            version == 1 ==> *final(self) == (Database {
                next_student_id: 1,
                ..*old(self)
            }),
            version == 2 ==> *final(self) == (Database { next_class_id: 1, ..*old(self) }),
            version == 3 ==> *final(self) == (Database {
                next_assignment_id: 1,
                ..*old(self)
            }),
            version == 4 ==> *final(self) == (Database { next_grade_id: 1, ..*old(self) }),
    {
        if version == 1 {
            self.next_student_id = 1;
        } else if version == 2 {
            self.next_class_id = 1;
        } else if version == 3 {
            self.next_assignment_id = 1;
        } else {
            self.next_grade_id = 1;
        }
    }

    /// Brings the store from its recorded schema version to the current
    /// one, applying each outstanding migration in increasing order exactly
    /// once. Each step is a single in-memory assignment, so no partially
    /// applied migration is ever visible.
    ///
    /// Safe to call on an already-current store: nothing changes and no
    /// error occurs. Existing rows and key counters of tables already
    /// created are never touched. A store whose version is beyond what this
    /// library knows is refused, fatally for startup.
    pub fn run_migrations(&mut self) -> (r: Result<(), DbError>)
        requires
            old(self).inv(),
        ensures
            old(self).schema_version > CURRENT_SCHEMA_VERSION ==> r == Err::<(), DbError>(
                DbError::MigrationError,
            ) && *final(self) == *old(self),
            old(self).schema_version <= CURRENT_SCHEMA_VERSION ==> {
                &&& r == Ok::<(), DbError>(())
                &&& final(self).wf()
                &&& final(self).students@ == old(self).students@
                &&& final(self).classes@ == old(self).classes@
                &&& final(self).assignments@ == old(self).assignments@
                &&& final(self).grades@ == old(self).grades@
                &&& final(self).next_student_id == if old(self).schema_version >= 1 {
                    old(self).next_student_id
                } else {
                    1i64
                }
                &&& final(self).next_class_id == if old(self).schema_version >= 2 {
                    old(self).next_class_id
                } else {
                    1i64
                }
                &&& final(self).next_assignment_id == if old(self).schema_version >= 3 {
                    old(self).next_assignment_id
                } else {
                    1i64
                }
                &&& final(self).next_grade_id == if old(self).schema_version >= 4 {
                    old(self).next_grade_id
                } else {
                    1i64
                }
            },
            old(self).schema_version == CURRENT_SCHEMA_VERSION ==> *final(self) == *old(self)
                && r == Ok::<(), DbError>(()),
    {
        if self.schema_version > CURRENT_SCHEMA_VERSION {
            return Err(DbError::MigrationError);
        }
        if self.schema_version == CURRENT_SCHEMA_VERSION {
            return Ok(());
        }
        while self.schema_version < CURRENT_SCHEMA_VERSION
            invariant
                self.inv(),
                old(self).schema_version <= self.schema_version <= CURRENT_SCHEMA_VERSION,
                self.students@ == old(self).students@,
                self.classes@ == old(self).classes@,
                self.assignments@ == old(self).assignments@,
                self.grades@ == old(self).grades@,
                self.next_student_id == if self.schema_version >= 1 {
                    if old(self).schema_version >= 1 {
                        old(self).next_student_id
                    } else {
                        1i64
                    }
                } else {
                    old(self).next_student_id
                },
                self.next_class_id == if self.schema_version >= 2 {
                    if old(self).schema_version >= 2 {
                        old(self).next_class_id
                    } else {
                        1i64
                    }
                } else {
                    old(self).next_class_id
                },
                self.next_assignment_id == if self.schema_version >= 3 {
                    if old(self).schema_version >= 3 {
                        old(self).next_assignment_id
                    } else {
                        1i64
                    }
                } else {
                    old(self).next_assignment_id
                },
                self.next_grade_id == if self.schema_version >= 4 {
                    if old(self).schema_version >= 4 {
                        old(self).next_grade_id
                    } else {
                        1i64
                    }
                } else {
                    old(self).next_grade_id
                },
            decreases CURRENT_SCHEMA_VERSION - self.schema_version,
        {
            let next_version = self.schema_version + 1;
            self.apply_migration(next_version);
            self.schema_version = next_version;
        }
        Ok(())
    }
}

} // verus!
