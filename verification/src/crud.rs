//! The repository: Create/List/Update/Delete per entity, against the shared
//! store.
//!
//! Every operation has one shape: validate the supplied fields, check the
//! constraints the store enforces (foreign keys, unique external student
//! identifier, an unexhausted key space), then apply a single row change.
//! The contracts say, case by case, which error comes back on which input
//! and exactly how the store changes — and that nothing changes on failure.
//! Create returns the generated surrogate key; Update and Delete aimed at
//! an absent id report it rather than succeeding over zero rows.

use vstd::pervasive::VecAdditionalExecFns;
use vstd::prelude::*;

use crate::date::{date_of, is_valid_date_string, parse_date, Date};
use crate::models::{Assignment, Class, DbError, Grade, Student};
use crate::rows::{
    find_by_key, has_key, lemma_has_key_push, lemma_has_key_remove, lemma_has_key_update, Keyed,
};
use crate::store::{
    assignment_referenced, class_referenced, sid_taken, sid_taken_by_other, student_referenced,
    unique_sids, Database,
};

verus! {

/// Whether the students table — rows and key counter — is the same in both
/// states.
pub open spec fn students_unchanged(pre: Database, post: Database) -> bool {
    post.students@ == pre.students@ && post.next_student_id == pre.next_student_id
}

/// Whether the classes table is the same in both states.
pub open spec fn classes_unchanged(pre: Database, post: Database) -> bool {
    post.classes@ == pre.classes@ && post.next_class_id == pre.next_class_id
}

/// Whether the assignments table is the same in both states.
pub open spec fn assignments_unchanged(pre: Database, post: Database) -> bool {
    post.assignments@ == pre.assignments@ && post.next_assignment_id == pre.next_assignment_id
}

/// Whether the grades table is the same in both states.
pub open spec fn grades_unchanged(pre: Database, post: Database) -> bool {
    post.grades@ == pre.grades@ && post.next_grade_id == pre.next_grade_id
}

/// Whether the schema version is the same in both states.
pub open spec fn schema_unchanged(pre: Database, post: Database) -> bool {
    post.schema_version == pre.schema_version
}

/// Whether `s` is the empty string.
fn str_empty(s: &String) -> (r: bool)
    ensures
        r == (s@.len() == 0),
{
    s.as_str().is_empty()
}

/// Whether some student row carries the external identifier `sid`.
fn sid_in_use(rows: &Vec<Student>, sid: &String) -> (r: bool)
    ensures
        r == sid_taken(rows@, sid@),
{
    let mut i: usize = 0;
    while i < rows.len()
        invariant
            i <= rows@.len(),
            forall|j: int| 0 <= j < i ==> (#[trigger] rows@[j]).student_id@ != sid@,
        decreases rows@.len() - i,
    {
        if rows[i].student_id == *sid {
            return true;
        }
        i += 1;
    }
    false
}

/// Whether a student row other than the one keyed `id` carries the external
/// identifier `sid`.
fn sid_in_use_by_other(rows: &Vec<Student>, sid: &String, id: i64) -> (r: bool)
    ensures
        r == sid_taken_by_other(rows@, sid@, id),
{
    let mut i: usize = 0;
    while i < rows.len()
        invariant
            i <= rows@.len(),
            forall|j: int|
                0 <= j < i ==> !((#[trigger] rows@[j]).student_id@ == sid@ && rows@[j].id != id),
        decreases rows@.len() - i,
    {
        if rows[i].student_id == *sid && rows[i].id != id {
            return true;
        }
        i += 1;
    }
    false
}

/// Whether some assignment row references class `class_id`.
fn class_in_use(rows: &Vec<Assignment>, class_id: i64) -> (r: bool)
    ensures
        r == class_referenced(rows@, class_id),
{
    let mut i: usize = 0;
    while i < rows.len()
        invariant
            i <= rows@.len(),
            forall|j: int| 0 <= j < i ==> (#[trigger] rows@[j]).class_id != class_id,
        decreases rows@.len() - i,
    {
        if rows[i].class_id == class_id {
            return true;
        }
        i += 1;
    }
    false
}

/// Whether some grade row references student `student_id`.
fn student_in_use(rows: &Vec<Grade>, student_id: i64) -> (r: bool)
    ensures
        r == student_referenced(rows@, student_id),
{
    let mut i: usize = 0;
    while i < rows.len()
        invariant
            i <= rows@.len(),
            forall|j: int| 0 <= j < i ==> (#[trigger] rows@[j]).student_id != student_id,
        decreases rows@.len() - i,
    {
        if rows[i].student_id == student_id {
            return true;
        }
        i += 1;
    }
    false
}

/// Whether some grade row references assignment `assignment_id`.
fn assignment_in_use(rows: &Vec<Grade>, assignment_id: i64) -> (r: bool)
    ensures
        r == assignment_referenced(rows@, assignment_id),
{
    let mut i: usize = 0;
    while i < rows.len()
        invariant
            i <= rows@.len(),
            forall|j: int| 0 <= j < i ==> (#[trigger] rows@[j]).assignment_id != assignment_id,
        decreases rows@.len() - i,
    {
        if rows[i].assignment_id == assignment_id {
            return true;
        }
        i += 1;
    }
    false
}

/// Inserts a student. Names and the external identifier must be non-empty;
/// the identifier must not be in use; on success the row is appended under
/// the next surrogate key, which is returned.
pub fn insert_student(
    db: &mut Database,
    first_name: String,
    last_name: String,
    student_id: String,
) -> (r: Result<i64, DbError>)
    requires
        old(db).wf(),
    ensures
        final(db).wf(),
        schema_unchanged(*old(db), *final(db)),
        classes_unchanged(*old(db), *final(db)),
        assignments_unchanged(*old(db), *final(db)),
        grades_unchanged(*old(db), *final(db)),
        ({
            let valid = first_name@.len() > 0 && last_name@.len() > 0 && student_id@.len() > 0;
            let dup = sid_taken(old(db).students@, student_id@);
            let full = old(db).next_student_id == i64::MAX;
            &&& (!valid ==> r == Err::<i64, DbError>(DbError::ValidationError)
                && students_unchanged(*old(db), *final(db)))
            &&& (valid && dup ==> r == Err::<i64, DbError>(DbError::StoreError)
                && students_unchanged(*old(db), *final(db)))
            &&& (valid && !dup && full ==> r == Err::<i64, DbError>(DbError::StoreError)
                && students_unchanged(*old(db), *final(db)))
            &&& (valid && !dup && !full ==> {
                &&& r == Ok::<i64, DbError>(old(db).next_student_id)
                &&& final(db).students@ == old(db).students@.push(
                    (Student {
                        id: old(db).next_student_id,
                        first_name: first_name,
                        last_name: last_name,
                        student_id: student_id,
                    }),
                )
                &&& final(db).next_student_id == old(db).next_student_id + 1
            })
        }),
{
    if str_empty(&first_name) || str_empty(&last_name) || str_empty(&student_id) {
        return Err(DbError::ValidationError);
    }
    if sid_in_use(&db.students, &student_id) {
        return Err(DbError::StoreError);
    }
    if db.next_student_id == i64::MAX {
        return Err(DbError::StoreError);
    }
    let id = db.next_student_id;
    db.next_student_id = id + 1;
    let row = Student { id, first_name, last_name, student_id };
    db.students.push(row);
    proof {
        let pre = old(db).students@;
        let post = db.students@;
        assert forall|x: int, y: int|
            #![trigger post[x].key(), post[y].key()]
            0 <= x < y < post.len() implies post[x].key() != post[y].key() by {
            if y < pre.len() {
            } else {
                assert(post[x].key() == pre[x].key());
            }
        }
        assert forall|x: int, y: int|
            #![trigger post[x].student_id, post[y].student_id]
            0 <= x < y < post.len() implies post[x].student_id@ != post[y].student_id@ by {
            if y < pre.len() {
            } else {
                assert(pre[x].student_id@ != post[y].student_id@);
            }
        }
        assert forall|i: int| 0 <= i < db.grades@.len() implies has_key(
            post,
            (#[trigger] db.grades@[i]).student_id,
        ) by {
            lemma_has_key_push(pre, post[pre.len() as int], db.grades@[i].student_id);
        }
    }
    Ok(id)
}

/// Lists every student row, in insertion order.
pub fn get_students(db: &Database) -> (r: Vec<Student>)
    ensures
        r@ == db.students@,
{
    let mut out: Vec<Student> = Vec::new();
    let mut i: usize = 0;
    while i < db.students.len()
        invariant
            i <= db.students@.len(),
            out@ == db.students@.subrange(0, i as int),
        decreases db.students@.len() - i,
    {
        out.push(db.students[i].clone());
        proof {
            assert(db.students@.subrange(0, i + 1 as int) =~= db.students@.subrange(
                0,
                i as int,
            ).push(db.students@[i as int]));
        }
        i += 1;
    }
    proof {
        assert(out@ =~= db.students@);
    }
    out
}

/// Replaces the student row keyed `id` with the supplied fields, the key
/// unchanged. Constraints are those of `insert_student`; an absent id is
/// reported as not found.
pub fn update_student(
    db: &mut Database,
    id: i64,
    first_name: String,
    last_name: String,
    student_id: String,
) -> (r: Result<(), DbError>)
    requires
        old(db).wf(),
    ensures
        final(db).wf(),
        schema_unchanged(*old(db), *final(db)),
        classes_unchanged(*old(db), *final(db)),
        assignments_unchanged(*old(db), *final(db)),
        grades_unchanged(*old(db), *final(db)),
        final(db).next_student_id == old(db).next_student_id,
        ({
            let valid = first_name@.len() > 0 && last_name@.len() > 0 && student_id@.len() > 0;
            let found = has_key(old(db).students@, id);
            let dup = sid_taken_by_other(old(db).students@, student_id@, id);
            &&& (!valid ==> r == Err::<(), DbError>(DbError::ValidationError)
                && students_unchanged(*old(db), *final(db)))
            &&& (valid && !found ==> r == Err::<(), DbError>(DbError::NotFoundError)
                && students_unchanged(*old(db), *final(db)))
            &&& (valid && found && dup ==> r == Err::<(), DbError>(DbError::StoreError)
                && students_unchanged(*old(db), *final(db)))
            &&& (valid && found && !dup ==> {
                &&& r == Ok::<(), DbError>(())
                &&& exists|i: int|
                    0 <= i < old(db).students@.len() && (#[trigger] old(db).students@[i]).id == id
                        && final(db).students@ == old(db).students@.update(
                        i,
                        (Student {
                            id: id,
                            first_name: first_name,
                            last_name: last_name,
                            student_id: student_id,
                        }),
                    )
            })
        }),
{
    if str_empty(&first_name) || str_empty(&last_name) || str_empty(&student_id) {
        return Err(DbError::ValidationError);
    }
    let idx = match find_by_key(&db.students, id) {
        Some(i) => i,
        None => {
            return Err(DbError::NotFoundError);
        },
    };
    if sid_in_use_by_other(&db.students, &student_id, id) {
        return Err(DbError::StoreError);
    }
    let row = Student { id, first_name, last_name, student_id };
    db.students.set(idx, row);
    proof {
        let pre = old(db).students@;
        let post = db.students@;
        let k = idx as int;
        assert(forall|x: int|
            0 <= x < post.len() ==> (#[trigger] post[x]).key() == pre[x].key());
        assert forall|x: int, y: int|
            #![trigger post[x].student_id, post[y].student_id]
            0 <= x < y < post.len() implies post[x].student_id@ != post[y].student_id@ by {
            if x == k {
                assert(pre[k].key() != pre[y].key());
                assert(pre[y].id != id);
            } else if y == k {
                assert(pre[x].key() != pre[k].key());
                assert(pre[x].id != id);
            }
        }
        assert forall|i: int| 0 <= i < db.grades@.len() implies has_key(
            post,
            (#[trigger] db.grades@[i]).student_id,
        ) by {
            lemma_has_key_update(pre, k, post[k], db.grades@[i].student_id);
        }
    }
    Ok(())
}

/// Deletes the student row keyed `id`. A student still referenced by a
/// grade cannot be deleted; an absent id is reported as not found.
pub fn delete_student(db: &mut Database, id: i64) -> (r: Result<(), DbError>)
    requires
        old(db).wf(),
    ensures
        final(db).wf(),
        schema_unchanged(*old(db), *final(db)),
        classes_unchanged(*old(db), *final(db)),
        assignments_unchanged(*old(db), *final(db)),
        grades_unchanged(*old(db), *final(db)),
        final(db).next_student_id == old(db).next_student_id,
        ({
            let found = has_key(old(db).students@, id);
            let referenced = student_referenced(old(db).grades@, id);
            &&& (!found ==> r == Err::<(), DbError>(DbError::NotFoundError)
                && students_unchanged(*old(db), *final(db)))
            &&& (found && referenced ==> r == Err::<(), DbError>(DbError::StoreError)
                && students_unchanged(*old(db), *final(db)))
            &&& (found && !referenced ==> {
                &&& r == Ok::<(), DbError>(())
                &&& !has_key(final(db).students@, id)
                &&& exists|i: int|
                    0 <= i < old(db).students@.len() && (#[trigger] old(db).students@[i]).id == id
                        && final(db).students@ == old(db).students@.remove(i)
            })
        }),
{
    let idx = match find_by_key(&db.students, id) {
        Some(i) => i,
        None => {
            return Err(DbError::NotFoundError);
        },
    };
    if student_in_use(&db.grades, id) {
        return Err(DbError::StoreError);
    }
    db.students.remove(idx);
    proof {
        let pre = old(db).students@;
        let post = db.students@;
        let k = idx as int;
        assert forall|x: int, y: int|
            #![trigger post[x].key(), post[y].key()]
            0 <= x < y < post.len() implies post[x].key() != post[y].key() by {
            assert(post[x] == if x < k {
                pre[x]
            } else {
                pre[x + 1]
            });
            assert(post[y] == if y < k {
                pre[y]
            } else {
                pre[y + 1]
            });
        }
        assert forall|x: int, y: int|
            #![trigger post[x].student_id, post[y].student_id]
            0 <= x < y < post.len() implies post[x].student_id@ != post[y].student_id@ by {
            assert(post[x] == if x < k {
                pre[x]
            } else {
                pre[x + 1]
            });
            assert(post[y] == if y < k {
                pre[y]
            } else {
                pre[y + 1]
            });
        }
        assert forall|x: int| 0 <= x < post.len() implies (#[trigger] post[x]).key() != id by {
            assert(post[x] == if x < k {
                pre[x]
            } else {
                pre[x + 1]
            });
        }
        assert forall|i: int| 0 <= i < db.grades@.len() implies has_key(
            post,
            (#[trigger] db.grades@[i]).student_id,
        ) by {
            lemma_has_key_remove(pre, k, db.grades@[i].student_id);
        }
    }
    Ok(())
}

/// Inserts a class. The name must be non-empty; on success the row is
/// appended under the next surrogate key, which is returned.
pub fn insert_class(db: &mut Database, class_name: String) -> (r: Result<i64, DbError>)
    requires
        old(db).wf(),
    ensures
        final(db).wf(),
        schema_unchanged(*old(db), *final(db)),
        students_unchanged(*old(db), *final(db)),
        assignments_unchanged(*old(db), *final(db)),
        grades_unchanged(*old(db), *final(db)),
        ({
            let valid = class_name@.len() > 0;
            let full = old(db).next_class_id == i64::MAX;
            &&& (!valid ==> r == Err::<i64, DbError>(DbError::ValidationError)
                && classes_unchanged(*old(db), *final(db)))
            &&& (valid && full ==> r == Err::<i64, DbError>(DbError::StoreError)
                && classes_unchanged(*old(db), *final(db)))
            &&& (valid && !full ==> {
                &&& r == Ok::<i64, DbError>(old(db).next_class_id)
                &&& final(db).classes@ == old(db).classes@.push(
                    (Class { id: old(db).next_class_id, class_name: class_name }),
                )
                &&& final(db).next_class_id == old(db).next_class_id + 1
            })
        }),
{
    if str_empty(&class_name) {
        return Err(DbError::ValidationError);
    }
    if db.next_class_id == i64::MAX {
        return Err(DbError::StoreError);
    }
    let id = db.next_class_id;
    db.next_class_id = id + 1;
    db.classes.push(Class { id, class_name });
    proof {
        let pre = old(db).classes@;
        let post = db.classes@;
        assert forall|x: int, y: int|
            #![trigger post[x].key(), post[y].key()]
            0 <= x < y < post.len() implies post[x].key() != post[y].key() by {
            if y < pre.len() {
            } else {
                assert(post[x].key() == pre[x].key());
            }
        }
        assert forall|i: int| 0 <= i < db.assignments@.len() implies has_key(
            post,
            (#[trigger] db.assignments@[i]).class_id,
        ) by {
            lemma_has_key_push(pre, post[pre.len() as int], db.assignments@[i].class_id);
        }
    }
    Ok(id)
}

/// Lists every class row, in insertion order.
pub fn get_classes(db: &Database) -> (r: Vec<Class>)
    ensures
        r@ == db.classes@,
{
    let mut out: Vec<Class> = Vec::new();
    let mut i: usize = 0;
    while i < db.classes.len()
        invariant
            i <= db.classes@.len(),
            out@ == db.classes@.subrange(0, i as int),
        decreases db.classes@.len() - i,
    {
        out.push(db.classes[i].clone());
        proof {
            assert(db.classes@.subrange(0, i + 1 as int) =~= db.classes@.subrange(
                0,
                i as int,
            ).push(db.classes@[i as int]));
        }
        i += 1;
    }
    proof {
        assert(out@ =~= db.classes@);
    }
    out
}

/// Replaces the class row keyed `id` with the supplied fields, the key
/// unchanged. An absent id is reported as not found.
pub fn update_class(db: &mut Database, id: i64, class_name: String) -> (r: Result<(), DbError>)
    requires
        old(db).wf(),
    ensures
        final(db).wf(),
        schema_unchanged(*old(db), *final(db)),
        students_unchanged(*old(db), *final(db)),
        assignments_unchanged(*old(db), *final(db)),
        grades_unchanged(*old(db), *final(db)),
        final(db).next_class_id == old(db).next_class_id,
        ({
            let valid = class_name@.len() > 0;
            let found = has_key(old(db).classes@, id);
            &&& (!valid ==> r == Err::<(), DbError>(DbError::ValidationError)
                && classes_unchanged(*old(db), *final(db)))
            &&& (valid && !found ==> r == Err::<(), DbError>(DbError::NotFoundError)
                && classes_unchanged(*old(db), *final(db)))
            &&& (valid && found ==> {
                &&& r == Ok::<(), DbError>(())
                &&& exists|i: int|
                    0 <= i < old(db).classes@.len() && (#[trigger] old(db).classes@[i]).id == id
                        && final(db).classes@ == old(db).classes@.update(
                        i,
                        (Class { id: id, class_name: class_name }),
                    )
            })
        }),
{
    if str_empty(&class_name) {
        return Err(DbError::ValidationError);
    }
    let idx = match find_by_key(&db.classes, id) {
        Some(i) => i,
        None => {
            return Err(DbError::NotFoundError);
        },
    };
    db.classes.set(idx, Class { id, class_name });
    proof {
        let pre = old(db).classes@;
        let post = db.classes@;
        let k = idx as int;
        assert(forall|x: int|
            0 <= x < post.len() ==> (#[trigger] post[x]).key() == pre[x].key());
        assert forall|i: int| 0 <= i < db.assignments@.len() implies has_key(
            post,
            (#[trigger] db.assignments@[i]).class_id,
        ) by {
            lemma_has_key_update(pre, k, post[k], db.assignments@[i].class_id);
        }
    }
    Ok(())
}

/// Deletes the class row keyed `id`. A class still referenced by an
/// assignment cannot be deleted; an absent id is reported as not found.
pub fn delete_class(db: &mut Database, id: i64) -> (r: Result<(), DbError>)
    requires
        old(db).wf(),
    ensures
        final(db).wf(),
        schema_unchanged(*old(db), *final(db)),
        students_unchanged(*old(db), *final(db)),
        assignments_unchanged(*old(db), *final(db)),
        grades_unchanged(*old(db), *final(db)),
        final(db).next_class_id == old(db).next_class_id,
        ({
            let found = has_key(old(db).classes@, id);
            let referenced = class_referenced(old(db).assignments@, id);
            &&& (!found ==> r == Err::<(), DbError>(DbError::NotFoundError)
                && classes_unchanged(*old(db), *final(db)))
            &&& (found && referenced ==> r == Err::<(), DbError>(DbError::StoreError)
                && classes_unchanged(*old(db), *final(db)))
            &&& (found && !referenced ==> {
                &&& r == Ok::<(), DbError>(())
                &&& !has_key(final(db).classes@, id)
                &&& exists|i: int|
                    0 <= i < old(db).classes@.len() && (#[trigger] old(db).classes@[i]).id == id
                        && final(db).classes@ == old(db).classes@.remove(i)
            })
        }),
{
    let idx = match find_by_key(&db.classes, id) {
        Some(i) => i,
        None => {
            return Err(DbError::NotFoundError);
        },
    };
    if class_in_use(&db.assignments, id) {
        return Err(DbError::StoreError);
    }
    db.classes.remove(idx);
    proof {
        let pre = old(db).classes@;
        let post = db.classes@;
        let k = idx as int;
        assert forall|x: int, y: int|
            #![trigger post[x].key(), post[y].key()]
            0 <= x < y < post.len() implies post[x].key() != post[y].key() by {
            assert(post[x] == if x < k {
                pre[x]
            } else {
                pre[x + 1]
            });
            assert(post[y] == if y < k {
                pre[y]
            } else {
                pre[y + 1]
            });
        }
        assert forall|x: int| 0 <= x < post.len() implies (#[trigger] post[x]).key() != id by {
            assert(post[x] == if x < k {
                pre[x]
            } else {
                pre[x + 1]
            });
        }
        assert forall|i: int| 0 <= i < db.assignments@.len() implies has_key(
            post,
            (#[trigger] db.assignments@[i]).class_id,
        ) by {
            lemma_has_key_remove(pre, k, db.assignments@[i].class_id);
        }
    }
    Ok(())
}

/// Inserts an assignment into an existing class. The title must be
/// non-empty and the due date, if supplied, must be a valid `YYYY-MM-DD`
/// string; a dangling class reference is a store-constraint failure. On
/// success the row is appended under the next surrogate key, which is
/// returned.
pub fn insert_assignment(
    db: &mut Database,
    class_id: i64,
    title: String,
    due_date: Option<String>,
    category: String,
    max_score: i64,
) -> (r: Result<i64, DbError>)
    requires
        old(db).wf(),
    ensures
        final(db).wf(),
        schema_unchanged(*old(db), *final(db)),
        students_unchanged(*old(db), *final(db)),
        classes_unchanged(*old(db), *final(db)),
        grades_unchanged(*old(db), *final(db)),
        ({
            let valid = title@.len() > 0 && (due_date matches Some(ds) ==> is_valid_date_string(
                ds@,
            ));
            let class_ok = has_key(old(db).classes@, class_id);
            let full = old(db).next_assignment_id == i64::MAX;
            &&& (!valid ==> r == Err::<i64, DbError>(DbError::ValidationError)
                && assignments_unchanged(*old(db), *final(db)))
            &&& (valid && !class_ok ==> r == Err::<i64, DbError>(DbError::StoreError)
                && assignments_unchanged(*old(db), *final(db)))
            &&& (valid && class_ok && full ==> r == Err::<i64, DbError>(DbError::StoreError)
                && assignments_unchanged(*old(db), *final(db)))
            &&& (valid && class_ok && !full ==> {
                &&& r == Ok::<i64, DbError>(old(db).next_assignment_id)
                &&& final(db).assignments@ == old(db).assignments@.push(
                    (Assignment {
                        id: old(db).next_assignment_id,
                        class_id: class_id,
                        title: title,
                        due_date: match due_date {
                            Some(ds) => Some(date_of(ds@)),
                            None => None,
                        },
                        category: category,
                        max_score: max_score,
                    }),
                )
                &&& final(db).next_assignment_id == old(db).next_assignment_id + 1
            })
        }),
{
    if str_empty(&title) {
        return Err(DbError::ValidationError);
    }
    let parsed: Option<Date> = match &due_date {
        Some(ds) => match parse_date(ds.as_str()) {
            Ok(d) => Some(d),
            Err(e) => {
                return Err(e);
            },
        },
        None => None,
    };
    if find_by_key(&db.classes, class_id).is_none() {
        return Err(DbError::StoreError);
    }
    if db.next_assignment_id == i64::MAX {
        return Err(DbError::StoreError);
    }
    let id = db.next_assignment_id;
    db.next_assignment_id = id + 1;
    db.assignments.push(
        Assignment { id, class_id, title, due_date: parsed, category, max_score },
    );
    proof {
        let pre = old(db).assignments@;
        let post = db.assignments@;
        assert forall|x: int, y: int|
            #![trigger post[x].key(), post[y].key()]
            0 <= x < y < post.len() implies post[x].key() != post[y].key() by {
            if y < pre.len() {
            } else {
                assert(post[x].key() == pre[x].key());
            }
        }
        assert forall|i: int| 0 <= i < db.grades@.len() implies has_key(
            post,
            (#[trigger] db.grades@[i]).assignment_id,
        ) by {
            lemma_has_key_push(pre, post[pre.len() as int], db.grades@[i].assignment_id);
        }
    }
    Ok(id)
}

/// Lists every assignment row, in insertion order.
pub fn get_assignments(db: &Database) -> (r: Vec<Assignment>)
    ensures
        r@ == db.assignments@,
{
    let mut out: Vec<Assignment> = Vec::new();
    let mut i: usize = 0;
    while i < db.assignments.len()
        invariant
            i <= db.assignments@.len(),
            out@ == db.assignments@.subrange(0, i as int),
        decreases db.assignments@.len() - i,
    {
        out.push(db.assignments[i].clone());
        proof {
            assert(db.assignments@.subrange(0, i + 1 as int) =~= db.assignments@.subrange(
                0,
                i as int,
            ).push(db.assignments@[i as int]));
        }
        i += 1;
    }
    proof {
        assert(out@ =~= db.assignments@);
    }
    out
}

/// Replaces the assignment row keyed `id` with the supplied fields, the key
/// unchanged. Constraints are those of `insert_assignment`; an absent id is
/// reported as not found.
pub fn update_assignment(
    db: &mut Database,
    id: i64,
    class_id: i64,
    title: String,
    due_date: Option<String>,
    category: String,
    max_score: i64,
) -> (r: Result<(), DbError>)
    requires
        old(db).wf(),
    ensures
        final(db).wf(),
        schema_unchanged(*old(db), *final(db)),
        students_unchanged(*old(db), *final(db)),
        classes_unchanged(*old(db), *final(db)),
        grades_unchanged(*old(db), *final(db)),
        final(db).next_assignment_id == old(db).next_assignment_id,
        ({
            let valid = title@.len() > 0 && (due_date matches Some(ds) ==> is_valid_date_string(
                ds@,
            ));
            let found = has_key(old(db).assignments@, id);
            let class_ok = has_key(old(db).classes@, class_id);
            &&& (!valid ==> r == Err::<(), DbError>(DbError::ValidationError)
                && assignments_unchanged(*old(db), *final(db)))
            &&& (valid && !found ==> r == Err::<(), DbError>(DbError::NotFoundError)
                && assignments_unchanged(*old(db), *final(db)))
            &&& (valid && found && !class_ok ==> r == Err::<(), DbError>(DbError::StoreError)
                && assignments_unchanged(*old(db), *final(db)))
            &&& (valid && found && class_ok ==> {
                &&& r == Ok::<(), DbError>(())
                &&& exists|i: int|
                    0 <= i < old(db).assignments@.len() && (#[trigger] old(
                        db,
                    ).assignments@[i]).id == id && final(db).assignments@ == old(
                        db,
                    ).assignments@.update(
                        i,
                        (Assignment {
                            id: id,
                            class_id: class_id,
                            title: title,
                            due_date: match due_date {
                                Some(ds) => Some(date_of(ds@)),
                                None => None,
                            },
                            category: category,
                            max_score: max_score,
                        }),
                    )
            })
        }),
{
    if str_empty(&title) {
        return Err(DbError::ValidationError);
    }
    let parsed: Option<Date> = match &due_date {
        Some(ds) => match parse_date(ds.as_str()) {
            Ok(d) => Some(d),
            Err(e) => {
                return Err(e);
            },
        },
        None => None,
    };
    let idx = match find_by_key(&db.assignments, id) {
        Some(i) => i,
        None => {
            return Err(DbError::NotFoundError);
        },
    };
    if find_by_key(&db.classes, class_id).is_none() {
        return Err(DbError::StoreError);
    }
    db.assignments.set(idx, Assignment { id, class_id, title, due_date: parsed, category, max_score });
    proof {
        let pre = old(db).assignments@;
        let post = db.assignments@;
        let k = idx as int;
        assert(forall|x: int|
            0 <= x < post.len() ==> (#[trigger] post[x]).key() == pre[x].key());
        assert forall|i: int| 0 <= i < db.grades@.len() implies has_key(
            post,
            (#[trigger] db.grades@[i]).assignment_id,
        ) by {
            lemma_has_key_update(pre, k, post[k], db.grades@[i].assignment_id);
        }
    }
    Ok(())
}

/// Deletes the assignment row keyed `id`. An assignment still referenced by
/// a grade cannot be deleted; an absent id is reported as not found.
pub fn delete_assignment(db: &mut Database, id: i64) -> (r: Result<(), DbError>)
    requires
        old(db).wf(),
    ensures
        final(db).wf(),
        schema_unchanged(*old(db), *final(db)),
        students_unchanged(*old(db), *final(db)),
        classes_unchanged(*old(db), *final(db)),
        grades_unchanged(*old(db), *final(db)),
        final(db).next_assignment_id == old(db).next_assignment_id,
        ({
            let found = has_key(old(db).assignments@, id);
            let referenced = assignment_referenced(old(db).grades@, id);
            &&& (!found ==> r == Err::<(), DbError>(DbError::NotFoundError)
                && assignments_unchanged(*old(db), *final(db)))
            &&& (found && referenced ==> r == Err::<(), DbError>(DbError::StoreError)
                && assignments_unchanged(*old(db), *final(db)))
            &&& (found && !referenced ==> {
                &&& r == Ok::<(), DbError>(())
                &&& !has_key(final(db).assignments@, id)
                &&& exists|i: int|
                    0 <= i < old(db).assignments@.len() && (#[trigger] old(
                        db,
                    ).assignments@[i]).id == id && final(db).assignments@ == old(
                        db,
                    ).assignments@.remove(i)
            })
        }),
{
    let idx = match find_by_key(&db.assignments, id) {
        Some(i) => i,
        None => {
            return Err(DbError::NotFoundError);
        },
    };
    if assignment_in_use(&db.grades, id) {
        return Err(DbError::StoreError);
    }
    db.assignments.remove(idx);
    proof {
        let pre = old(db).assignments@;
        let post = db.assignments@;
        let k = idx as int;
        assert forall|x: int, y: int|
            #![trigger post[x].key(), post[y].key()]
            0 <= x < y < post.len() implies post[x].key() != post[y].key() by {
            assert(post[x] == if x < k {
                pre[x]
            } else {
                pre[x + 1]
            });
            assert(post[y] == if y < k {
                pre[y]
            } else {
                pre[y + 1]
            });
        }
        assert forall|x: int| 0 <= x < post.len() implies (#[trigger] post[x]).key() != id by {
            assert(post[x] == if x < k {
                pre[x]
            } else {
                pre[x + 1]
            });
        }
        assert forall|i: int| 0 <= i < db.grades@.len() implies has_key(
            post,
            (#[trigger] db.grades@[i]).assignment_id,
        ) by {
            lemma_has_key_remove(pre, k, db.grades@[i].assignment_id);
        }
    }
    Ok(())
}

/// Inserts a grade linking an existing student to an existing assignment; a
/// dangling reference either way is a store-constraint failure. On success
/// the row is appended under the next surrogate key, which is returned.
pub fn insert_grade(
    db: &mut Database,
    student_id: i64,
    assignment_id: i64,
    score: i64,
) -> (r: Result<i64, DbError>)
    requires
        old(db).wf(),
    ensures
        final(db).wf(),
        schema_unchanged(*old(db), *final(db)),
        students_unchanged(*old(db), *final(db)),
        classes_unchanged(*old(db), *final(db)),
        assignments_unchanged(*old(db), *final(db)),
        ({
            let refs_ok = has_key(old(db).students@, student_id) && has_key(
                old(db).assignments@,
                assignment_id,
            );
            let full = old(db).next_grade_id == i64::MAX;
            &&& (!refs_ok ==> r == Err::<i64, DbError>(DbError::StoreError)
                && grades_unchanged(*old(db), *final(db)))
            &&& (refs_ok && full ==> r == Err::<i64, DbError>(DbError::StoreError)
                && grades_unchanged(*old(db), *final(db)))
            &&& (refs_ok && !full ==> {
                &&& r == Ok::<i64, DbError>(old(db).next_grade_id)
                &&& final(db).grades@ == old(db).grades@.push(
                    (Grade {
                        id: old(db).next_grade_id,
                        student_id: student_id,
                        assignment_id: assignment_id,
                        score: score,
                    }),
                )
                &&& final(db).next_grade_id == old(db).next_grade_id + 1
            })
        }),
{
    if find_by_key(&db.students, student_id).is_none() {
        return Err(DbError::StoreError);
    }
    if find_by_key(&db.assignments, assignment_id).is_none() {
        return Err(DbError::StoreError);
    }
    if db.next_grade_id == i64::MAX {
        return Err(DbError::StoreError);
    }
    let id = db.next_grade_id;
    db.next_grade_id = id + 1;
    db.grades.push(Grade { id, student_id, assignment_id, score });
    proof {
        let pre = old(db).grades@;
        let post = db.grades@;
        assert forall|x: int, y: int|
            #![trigger post[x].key(), post[y].key()]
            0 <= x < y < post.len() implies post[x].key() != post[y].key() by {
            if y < pre.len() {
            } else {
                assert(post[x].key() == pre[x].key());
            }
        }
    }
    Ok(id)
}

/// Lists every grade row, in insertion order.
pub fn get_grades(db: &Database) -> (r: Vec<Grade>)
    ensures
        r@ == db.grades@,
{
    let mut out: Vec<Grade> = Vec::new();
    let mut i: usize = 0;
    while i < db.grades.len()
        invariant
            i <= db.grades@.len(),
            out@ == db.grades@.subrange(0, i as int),
        decreases db.grades@.len() - i,
    {
        out.push(db.grades[i].clone());
        proof {
            assert(db.grades@.subrange(0, i + 1 as int) =~= db.grades@.subrange(
                0,
                i as int,
            ).push(db.grades@[i as int]));
        }
        i += 1;
    }
    proof {
        assert(out@ =~= db.grades@);
    }
    out
}

/// Replaces the grade row keyed `id` with the supplied fields, the key
/// unchanged. Constraints are those of `insert_grade`; an absent id is
/// reported as not found.
pub fn update_grade(
    db: &mut Database,
    id: i64,
    student_id: i64,
    assignment_id: i64,
    score: i64,
) -> (r: Result<(), DbError>)
    requires
        old(db).wf(),
    ensures
        final(db).wf(),
        schema_unchanged(*old(db), *final(db)),
        students_unchanged(*old(db), *final(db)),
        classes_unchanged(*old(db), *final(db)),
        assignments_unchanged(*old(db), *final(db)),
        final(db).next_grade_id == old(db).next_grade_id,
        ({
            let found = has_key(old(db).grades@, id);
            let refs_ok = has_key(old(db).students@, student_id) && has_key(
                old(db).assignments@,
                assignment_id,
            );
            &&& (!found ==> r == Err::<(), DbError>(DbError::NotFoundError)
                && grades_unchanged(*old(db), *final(db)))
            &&& (found && !refs_ok ==> r == Err::<(), DbError>(DbError::StoreError)
                && grades_unchanged(*old(db), *final(db)))
            &&& (found && refs_ok ==> {
                &&& r == Ok::<(), DbError>(())
                &&& exists|i: int|
                    0 <= i < old(db).grades@.len() && (#[trigger] old(db).grades@[i]).id == id
                        && final(db).grades@ == old(db).grades@.update(
                        i,
                        (Grade {
                            id: id,
                            student_id: student_id,
                            assignment_id: assignment_id,
                            score: score,
                        }),
                    )
            })
        }),
{
    let idx = match find_by_key(&db.grades, id) {
        Some(i) => i,
        None => {
            return Err(DbError::NotFoundError);
        },
    };
    if find_by_key(&db.students, student_id).is_none() {
        return Err(DbError::StoreError);
    }
    if find_by_key(&db.assignments, assignment_id).is_none() {
        return Err(DbError::StoreError);
    }
    db.grades.set(idx, Grade { id, student_id, assignment_id, score });
    proof {
        let pre = old(db).grades@;
        let post = db.grades@;
        assert(forall|x: int|
            0 <= x < post.len() ==> (#[trigger] post[x]).key() == pre[x].key());
    }
    Ok(())
}

/// Deletes the grade row keyed `id`; nothing references grades, so an
/// existing row can always be deleted. An absent id is reported as not
/// found.
pub fn delete_grade(db: &mut Database, id: i64) -> (r: Result<(), DbError>)
    requires
        old(db).wf(),
    ensures
        final(db).wf(),
        schema_unchanged(*old(db), *final(db)),
        students_unchanged(*old(db), *final(db)),
        classes_unchanged(*old(db), *final(db)),
        assignments_unchanged(*old(db), *final(db)),
        final(db).next_grade_id == old(db).next_grade_id,
        ({
            let found = has_key(old(db).grades@, id);
            &&& (!found ==> r == Err::<(), DbError>(DbError::NotFoundError)
                && grades_unchanged(*old(db), *final(db)))
            &&& (found ==> {
                &&& r == Ok::<(), DbError>(())
                &&& !has_key(final(db).grades@, id)
                &&& exists|i: int|
                    0 <= i < old(db).grades@.len() && (#[trigger] old(db).grades@[i]).id == id
                        && final(db).grades@ == old(db).grades@.remove(i)
            })
        }),
{
    let idx = match find_by_key(&db.grades, id) {
        Some(i) => i,
        None => {
            return Err(DbError::NotFoundError);
        },
    };
    db.grades.remove(idx);
    proof {
        let pre = old(db).grades@;
        let post = db.grades@;
        let k = idx as int;
        assert forall|x: int, y: int|
            #![trigger post[x].key(), post[y].key()]
            0 <= x < y < post.len() implies post[x].key() != post[y].key() by {
            assert(post[x] == if x < k {
                pre[x]
            } else {
                pre[x + 1]
            });
            assert(post[y] == if y < k {
                pre[y]
            } else {
                pre[y + 1]
            });
        }
        assert forall|x: int| 0 <= x < post.len() implies (#[trigger] post[x]).key() != id by {
            assert(post[x] == if x < k {
                pre[x]
            } else {
                pre[x + 1]
            });
        }
        assert forall|i: int| 0 <= i < post.len() implies has_key(
            old(db).students@,
            (#[trigger] post[i]).student_id,
        ) && has_key(old(db).assignments@, post[i].assignment_id) by {
            assert(post[i] == if i < k {
                pre[i]
            } else {
                pre[i + 1]
            });
        }
    }
    Ok(())
}

} // verus!
