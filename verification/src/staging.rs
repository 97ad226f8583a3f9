//! The log of a writer: the operations handed to it, in order, until a commit
//! applies them.

use vstd::prelude::*;
use crate::model::{Posting, ValueView, WriteOp};

verus! {

/// The field number of the `id` of a document.
pub const ID_FIELD: u32 = 0;

/// The deletion of every document with an `id`.
pub open spec fn delete_op(id: Seq<char>) -> WriteOp {
    WriteOp::Delete { field: ID_FIELD, text: id }
}

/// What an upsert hands to the writer: the deletion of every document with
/// the `id`, then the document.
pub open spec fn upsert_ops(id: Seq<char>, postings: Seq<Posting>) -> Seq<WriteOp> {
    seq![delete_op(id), WriteOp::Add(postings)]
}

/// Whether a document holds a text in a field.
pub open spec fn holds_text(postings: Seq<Posting>, field: u32, text: Seq<char>) -> bool {
    exists|k: int|
        0 <= k < postings.len() && #[trigger] postings[k] == (Posting {
            field,
            value: ValueView::Text(text),
        })
}

/// Whether the operation at `at` adds a document that an operation at `by`
/// deletes: the deletion comes later and is of a text that the document holds.
pub open spec fn deletes(log: Seq<WriteOp>, by: int, at: int) -> bool {
    &&& 0 <= at < by < log.len()
    &&& log[at] is Add
    &&& log[by] is Delete
    &&& holds_text(log[at]->Add_0, log[by]->Delete_field, log[by]->Delete_text)
}

/// Whether the document added at `at` is deleted again later in the log.
pub open spec fn deleted_later(log: Seq<WriteOp>, at: int) -> bool {
    exists|by: int| #[trigger] deletes(log, by, at)
}

/// A document with one `id`: it is the first posting, and no other posting is
/// of the `id` field.
pub open spec fn has_one_id(postings: Seq<Posting>, id: Seq<char>) -> bool {
    &&& postings.len() > 0
    &&& postings[0] == Posting { field: ID_FIELD, value: ValueView::Text(id) }
    &&& forall|i: int| 0 < i < postings.len() ==> (#[trigger] postings[i]).field != ID_FIELD
}

/// Upserting a document twice under one `id` leaves the second version alone:
/// whatever the log held before, the first version is deleted again by the
/// second upsert, and nothing in the log deletes the second.
pub proof fn lemma_second_upsert_replaces_first(
    log: Seq<WriteOp>,
    id: Seq<char>,
    first: Seq<Posting>,
    second: Seq<Posting>,
)
    requires
        has_one_id(first, id),
        has_one_id(second, id),
    ensures
        ({
            let after = log + upsert_ops(id, first) + upsert_ops(id, second);
            &&& after[log.len() as int + 1] == WriteOp::Add(first)
            &&& after[log.len() as int + 3] == WriteOp::Add(second)
            &&& deleted_later(after, log.len() as int + 1)
            &&& !deleted_later(after, log.len() as int + 3)
        }),
{
    let after = log + upsert_ops(id, first) + upsert_ops(id, second);
    let at = log.len() as int;
    assert(first[0] == Posting { field: ID_FIELD, value: ValueView::Text(id) });
    assert(deletes(after, at + 2, at + 1));
    assert forall|by: int| !#[trigger] deletes(after, by, at + 3) by {}
}

/// A deletion by `id` reaches the document that an upsert added before it,
/// whatever else the log holds between the two.
pub proof fn lemma_delete_reaches_upsert(
    log: Seq<WriteOp>,
    id: Seq<char>,
    postings: Seq<Posting>,
    between: Seq<WriteOp>,
)
    requires
        has_one_id(postings, id),
    ensures
        deleted_later(
            log + upsert_ops(id, postings) + between + seq![delete_op(id)],
            log.len() as int + 1,
        ),
{
    let after = log + upsert_ops(id, postings) + between + seq![delete_op(id)];
    assert(postings[0] == Posting { field: ID_FIELD, value: ValueView::Text(id) });
    assert(deletes(after, after.len() as int - 1, log.len() as int + 1));
}

/// A deletion does not reach a document of another `id`.
pub proof fn lemma_delete_spares_other_ids(
    log: Seq<WriteOp>,
    at: int,
    id: Seq<char>,
    other: Seq<char>,
)
    requires
        0 <= at < log.len(),
        log[at] is Add,
        has_one_id(log[at]->Add_0, other),
        other != id,
    ensures
        !deletes(log.push(delete_op(id)), log.len() as int, at),
{
    let postings = log[at]->Add_0;
    assert forall|k: int| 0 <= k < postings.len() implies #[trigger] postings[k] != (Posting {
        field: ID_FIELD,
        value: ValueView::Text(id),
    }) by {
        if k > 0 {
            assert(postings[k].field != ID_FIELD);
        }
    }
}

} // verus!
