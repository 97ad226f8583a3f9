//! Documents of the engine: an ordered list of field values.

use vstd::prelude::*;
use crate::model::{valid_facet_path, Posting, ValueView, MAX_FIELD};
use tantivy::schema::Field;
use tantivy::TantivyDocument;

verus! {

/// The engine's document.
#[verifier::external_type_specification]
#[verifier::external_body]
pub struct ExTantivyDocument(TantivyDocument);

/// The engine's encoding of a facet path: the path without its leading slash
/// and its escapes, the steps set apart.
pub uninterp spec fn facet_encoding(path: Seq<char>) -> Seq<char>;

/// The values added to a document, in the order in which they were added.
pub uninterp spec fn document_postings(document: TantivyDocument) -> Seq<Posting>;

/// `TantivyDocument::default`: a document without values.
#[verifier::external_body]
pub(crate) fn new_document() -> (document: TantivyDocument)
    ensures
        document_postings(document) == Seq::<Posting>::empty(),
{
    TantivyDocument::default()
}

/// `TantivyDocument::add_text`: the text is added behind the other values. The
/// engine panics on a field number above [`MAX_FIELD`].
#[verifier::external_body]
pub(crate) fn add_text(document: &mut TantivyDocument, field: u32, text: &str)
    requires
        field <= MAX_FIELD,
    ensures
        document_postings(*final(document)) == document_postings(*old(document)).push(
            Posting { field, value: ValueView::Text(text@) },
        ),
{
    document.add_text(Field::from_field_id(field), text);
}

/// `TantivyDocument::add_i64`.
#[verifier::external_body]
pub(crate) fn add_integer(document: &mut TantivyDocument, field: u32, value: i64)
    requires
        field <= MAX_FIELD,
    ensures
        document_postings(*final(document)) == document_postings(*old(document)).push(
            Posting { field, value: ValueView::Integer(value) },
        ),
{
    document.add_i64(Field::from_field_id(field), value);
}

/// `TantivyDocument::add_f64` with the double of an order-preserving code, as
/// `tantivy::u64_to_f64` gives it.
#[verifier::external_body]
pub(crate) fn add_double(document: &mut TantivyDocument, field: u32, code: u64)
    requires
        field <= MAX_FIELD,
    ensures
        document_postings(*final(document)) == document_postings(*old(document)).push(
            Posting { field, value: ValueView::Double(code) },
        ),
{
    document.add_f64(Field::from_field_id(field), tantivy::u64_to_f64(code));
}

/// `TantivyDocument::add_date` with `DateTime::from_timestamp_nanos`.
#[verifier::external_body]
pub(crate) fn add_date(document: &mut TantivyDocument, field: u32, nanos: i64)
    requires
        field <= MAX_FIELD,
    ensures
        document_postings(*final(document)) == document_postings(*old(document)).push(
            Posting { field, value: ValueView::Date(nanos) },
        ),
{
    document.add_date(Field::from_field_id(field), tantivy::DateTime::from_timestamp_nanos(nanos));
}

/// `TantivyDocument::add_facet`, which encodes the path with `Facet::from` and
/// panics on a path that does not start with a slash.
#[verifier::external_body]
pub(crate) fn add_facet(document: &mut TantivyDocument, field: u32, path: &str)
    requires
        field <= MAX_FIELD,
        valid_facet_path(path@),
    ensures
        document_postings(*final(document)) == document_postings(*old(document)).push(
            Posting { field, value: ValueView::Facet(facet_encoding(path@)) },
        ),
{
    document.add_facet(Field::from_field_id(field), path);
}

} // verus!
