//! One table's rows, seen through their surrogate keys.
//!
//! The four entity tables share one interaction pattern: every row carries a
//! store-assigned integer key, keys are unique within a table, and rows are
//! found, replaced and removed by key. This module holds that common ground:
//! the `Keyed` trait, the specifications over a table's row sequence, the
//! key lookup shared by every repository operation, and the lemmas about how
//! key membership survives a push, an in-place replacement and a removal.

use vstd::prelude::*;

use crate::models::{Assignment, Class, Grade, Student};

verus! {

/// A persisted record carrying its store-assigned surrogate key.
pub trait Keyed: Sized {
    /// The row's surrogate key.
    spec fn key(&self) -> i64;

    /// Reads the surrogate key.
    fn get_key(&self) -> (k: i64)
        ensures
            k == self.key(),
    ;
}

impl Keyed for Student {
    open spec fn key(&self) -> i64 {
        self.id
    }

    fn get_key(&self) -> (k: i64) {
        self.id
    }
}

impl Keyed for Class {
    open spec fn key(&self) -> i64 {
        self.id
    }

    fn get_key(&self) -> (k: i64) {
        self.id
    }
}

impl Keyed for Assignment {
    open spec fn key(&self) -> i64 {
        self.id
    }

    fn get_key(&self) -> (k: i64) {
        self.id
    }
}

impl Keyed for Grade {
    open spec fn key(&self) -> i64 {
        self.id
    }

    fn get_key(&self) -> (k: i64) {
        self.id
    }
}

/// Whether no two rows share a surrogate key.
pub open spec fn unique_keys<R: Keyed>(rows: Seq<R>) -> bool {
    forall|i: int, j: int|
        #![trigger rows[i].key(), rows[j].key()]
        0 <= i < j < rows.len() ==> rows[i].key() != rows[j].key()
}

/// Whether some row carries key `k`.
pub open spec fn has_key<R: Keyed>(rows: Seq<R>, k: i64) -> bool {
    exists|i: int| 0 <= i < rows.len() && #[trigger] rows[i].key() == k
}

/// Whether every key lies in `1 ..= bound - 1`, the range the table's key
/// counter has handed out.
pub open spec fn keys_below<R: Keyed>(rows: Seq<R>, bound: i64) -> bool {
    forall|i: int| 0 <= i < rows.len() ==> 1 <= #[trigger] rows[i].key() < bound
}

/// Finds the position of the row carrying key `k`, or reports that no row
/// does.
pub fn find_by_key<R: Keyed>(rows: &Vec<R>, k: i64) -> (r: Option<usize>)
    ensures
        match r {
            Some(i) => i < rows@.len() && rows@[i as int].key() == k,
            None => !has_key(rows@, k),
        },
{
    let mut i: usize = 0;
    while i < rows.len()
        invariant
            i <= rows@.len(),
            forall|j: int| 0 <= j < i ==> #[trigger] rows@[j].key() != k,
        decreases rows@.len() - i,
    {
        if rows[i].get_key() == k {
            return Some(i);
        }
        i += 1;
    }
    None
}

/// A key present among `rows` is still present after a row with a fresh key
/// is appended.
pub proof fn lemma_has_key_push<R: Keyed>(rows: Seq<R>, r: R, k: i64)
    requires
        has_key(rows, k),
    ensures
        has_key(rows.push(r), k),
{
    let i = choose|i: int| 0 <= i < rows.len() && #[trigger] rows[i].key() == k;
    assert(rows.push(r)[i].key() == k);
}

/// A key present among `rows` is still present after the row at another
/// position — one with a different key — is removed.
pub proof fn lemma_has_key_remove<R: Keyed>(rows: Seq<R>, i: int, k: i64)
    requires
        0 <= i < rows.len(),
        has_key(rows, k),
        rows[i].key() != k,
    ensures
        has_key(rows.remove(i), k),
{
    let j = choose|j: int| 0 <= j < rows.len() && #[trigger] rows[j].key() == k;
    if j < i {
        assert(rows.remove(i)[j].key() == k);
    } else {
        assert(rows.remove(i)[j - 1].key() == k);
    }
}

/// A key present among `rows` is still present after a row is replaced in
/// place by one carrying the same key as the row it replaces.
pub proof fn lemma_has_key_update<R: Keyed>(rows: Seq<R>, i: int, r: R, k: i64)
    requires
        0 <= i < rows.len(),
        has_key(rows, k),
        r.key() == rows[i].key(),
    ensures
        has_key(rows.update(i, r), k),
{
    let j = choose|j: int| 0 <= j < rows.len() && #[trigger] rows[j].key() == k;
    if j == i {
        assert(rows.update(i, r)[i].key() == k);
    } else {
        assert(rows.update(i, r)[j].key() == k);
    }
}

} // verus!
