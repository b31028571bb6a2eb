//! The four persisted record types and the error taxonomy of the store.

use vstd::prelude::*;

use crate::date::Date;

verus! {

/// How a repository operation fails.
///
/// `ValidationError` reports malformed input (an empty required field, a due
/// date not in `YYYY-MM-DD` shape) and is raised before the store is touched.
/// `StoreError` reports a constraint the store enforces (a dangling foreign
/// key, a duplicate external student identifier, an exhausted key space).
/// `NotFoundError` reports an update or delete aimed at an id with no row.
/// `MigrationError` reports a store whose schema is newer than this library
/// understands; it is fatal to startup.
#[derive(Clone, Copy, Debug, PartialEq, Eq, Structural)]
pub enum DbError {
    ValidationError,
    NotFoundError,
    StoreError,
    MigrationError,
}

/// A student: a surrogate key, a name, and the institution's own identifier.
#[derive(Debug, PartialEq)]
pub struct Student {
    pub id: i64,
    pub first_name: String,
    pub last_name: String,
    pub student_id: String,
}

/// A class, identified by its surrogate key and a display name.
#[derive(Debug, PartialEq)]
pub struct Class {
    pub id: i64,
    pub class_name: String,
}

/// An assignment belonging to one class, with an optional due date and a
/// maximum attainable score.
#[derive(Debug, PartialEq)]
pub struct Assignment {
    pub id: i64,
    pub class_id: i64,
    pub title: String,
    pub due_date: Option<Date>,
    pub category: String,
    pub max_score: i64,
}

/// A grade: one student's score on one assignment.
#[derive(Debug, PartialEq)]
pub struct Grade {
    pub id: i64,
    pub student_id: i64,
    pub assignment_id: i64,
    pub score: i64,
}

impl Student {
    /// The field constraints a student row must meet: every name component
    /// and the external identifier are present (non-empty).
    pub open spec fn fields_valid(&self) -> bool {
        &&& self.first_name@.len() > 0
        &&& self.last_name@.len() > 0
        &&& self.student_id@.len() > 0
    }
}

impl Class {
    /// The field constraints a class row must meet: a non-empty name.
    pub open spec fn fields_valid(&self) -> bool {
        self.class_name@.len() > 0
    }
}

impl Assignment {
    /// The field constraints an assignment row must meet: a non-empty title,
    /// and a due date, if any, that names a real calendar day.
    pub open spec fn fields_valid(&self) -> bool {
        &&& self.title@.len() > 0
        &&& (self.due_date matches Some(d) ==> d.valid())
    }
}

impl Clone for Student {
    fn clone(&self) -> (r: Self)
        ensures
            r == *self,
    {
        Student {
            id: self.id,
            first_name: self.first_name.clone(),
            last_name: self.last_name.clone(),
            student_id: self.student_id.clone(),
        }
    }
}

impl Clone for Class {
    fn clone(&self) -> (r: Self)
        ensures
            r == *self,
    {
        Class { id: self.id, class_name: self.class_name.clone() }
    }
}

impl Clone for Assignment {
    fn clone(&self) -> (r: Self)
        ensures
            r == *self,
    {
        Assignment {
            id: self.id,
            class_id: self.class_id,
            title: self.title.clone(),
            due_date: self.due_date,
            category: self.category.clone(),
            max_score: self.max_score,
        }
    }
}

impl Clone for Grade {
    fn clone(&self) -> (r: Self)
        ensures
            r == *self,
    {
        Grade {
            id: self.id,
            student_id: self.student_id,
            assignment_id: self.assignment_id,
            score: self.score,
        }
    }
}

} // verus!
