//! Laws relating the repository operations, stated over the row sequences
//! their contracts use and proved for every entity at once.
//!
//! A successful Create appends exactly `rows.push(row)`, Update replaces
//! exactly `rows.update(i, row)` with the key kept, and Delete removes
//! exactly `rows.remove(i)`; List returns the row sequence as it stands.
//! The lemmas below therefore speak about those sequence operations, under
//! the key discipline the store's invariant guarantees, and are generic in
//! the record type.

use vstd::prelude::*;

use crate::rows::{has_key, unique_keys, Keyed};

verus! {

/// A create followed by a list shows exactly one additional record: the
/// listing grows by one, ends with the inserted record, keeps every earlier
/// record in place, and no record but the new one carries the new key.
pub proof fn lemma_create_then_list<R: Keyed>(pre: Seq<R>, post: Seq<R>, row: R)
    requires
        unique_keys(pre),
        !has_key(pre, row.key()),
        post == pre.push(row),
    ensures
        post.len() == pre.len() + 1,
        post[pre.len() as int] == row,
        forall|i: int| 0 <= i < pre.len() ==> post[i] == pre[i],
        has_key(post, row.key()),
        unique_keys(post),
        forall|i: int|
            0 <= i < post.len() && (#[trigger] post[i]).key() == row.key() ==> post[i] == row,
{
    assert(post[pre.len() as int].key() == row.key());
    assert forall|x: int, y: int|
        #![trigger post[x].key(), post[y].key()]
        0 <= x < y < post.len() implies post[x].key() != post[y].key() by {
        if y < pre.len() {
        } else {
            assert(post[x].key() == pre[x].key());
        }
    }
}

/// An update followed by a list shows the record's fields replaced exactly
/// by the supplied ones under the unchanged key: the listing keeps its
/// length, holds the new record at the old position and every other record
/// unchanged, and no other position carries that key.
pub proof fn lemma_update_then_list<R: Keyed>(pre: Seq<R>, post: Seq<R>, i: int, row: R)
    requires
        unique_keys(pre),
        0 <= i < pre.len(),
        row.key() == pre[i].key(),
        post == pre.update(i, row),
    ensures
        post.len() == pre.len(),
        post[i] == row,
        forall|j: int| 0 <= j < pre.len() && j != i ==> post[j] == pre[j],
        unique_keys(post),
        forall|j: int| 0 <= j < post.len() && (#[trigger] post[j]).key() == row.key() ==> j == i,
{
    assert(forall|x: int| 0 <= x < post.len() ==> (#[trigger] post[x]).key() == pre[x].key());
    assert forall|j: int|
        0 <= j < post.len() && (#[trigger] post[j]).key() == row.key() implies j == i by {
        if j < i {
            assert(pre[j].key() != pre[i].key());
        } else if i < j {
            assert(pre[i].key() != pre[j].key());
        }
    }
}

/// A delete followed by a list no longer shows any record with the deleted
/// key: the listing shrinks by one, every other record survives in order,
/// and the key is gone.
pub proof fn lemma_delete_then_list<R: Keyed>(pre: Seq<R>, post: Seq<R>, i: int)
    requires
        unique_keys(pre),
        0 <= i < pre.len(),
        post == pre.remove(i),
    ensures
        post.len() == pre.len() - 1,
        forall|j: int| 0 <= j < i ==> post[j] == pre[j],
        forall|j: int| i <= j < post.len() ==> post[j] == pre[j + 1],
        !has_key(post, pre[i].key()),
        unique_keys(post),
{
    assert forall|x: int, y: int|
        #![trigger post[x].key(), post[y].key()]
        0 <= x < y < post.len() implies post[x].key() != post[y].key() by {
        assert(post[x] == if x < i {
            pre[x]
        } else {
            pre[x + 1]
        });
        assert(post[y] == if y < i {
            pre[y]
        } else {
            pre[y + 1]
        });
    }
    assert forall|x: int| 0 <= x < post.len() implies (#[trigger] post[x]).key() != pre[
        i
    ].key() by {
        assert(post[x] == if x < i {
            pre[x]
        } else {
            pre[x + 1]
        });
    }
}

/// Two creates serialized one after the other both take effect: with
/// exclusive access to the store each insert appends its row, so the
/// listing afterwards shows both records and no update is lost.
pub proof fn lemma_serialized_creates<R: Keyed>(pre: Seq<R>, first: R, second: R)
    requires
        unique_keys(pre),
        !has_key(pre, first.key()),
        !has_key(pre.push(first), second.key()),
    ensures
        pre.push(first).push(second).len() == pre.len() + 2,
        has_key(pre.push(first).push(second), first.key()),
        has_key(pre.push(first).push(second), second.key()),
        unique_keys(pre.push(first).push(second)),
{
    let mid = pre.push(first);
    let post = mid.push(second);
    lemma_create_then_list(pre, mid, first);
    lemma_create_then_list(mid, post, second);
    assert(post[pre.len() as int].key() == first.key());
}

} // verus!
