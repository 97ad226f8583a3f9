//! Queries of the engine.

use vstd::prelude::*;
use crate::engine::document::facet_encoding;
use crate::model::{valid_facet_path, Occur, QueryView, ValueView};
use crate::tokenizer::texts_view;
use tantivy::query::Occur as EngineOccur;
use tantivy::schema::{Field, IndexRecordOption};
use tantivy::Term;

verus! {

/// A query in the engine's own form. The engine hands its queries about as
/// trait objects, which are held here.
#[verifier::external_body]
pub struct EngineQuery {
    /// The engine's query.
    pub inner: Box<dyn tantivy::query::Query>,
}

/// One clause of a boolean query.
pub struct Clause {
    /// How the clause takes part in matching.
    pub occur: Occur,
    /// The clause's query.
    pub query: EngineQuery,
}

/// The shape of a query.
pub uninterp spec fn query_shape(query: EngineQuery) -> QueryView;

/// Whether the engine compiles a regular expression.
pub uninterp spec fn regex_compiles(pattern: Seq<char>) -> bool;

/// The shapes of the clauses of a boolean query.
pub open spec fn clause_shapes(clauses: Seq<Clause>) -> Seq<(Occur, QueryView)> {
    clauses.map_values(|clause: Clause| (clause.occur, query_shape(clause.query)))
}

/// `AllQuery`.
#[verifier::external_body]
pub(crate) fn all_query() -> (query: EngineQuery)
    ensures
        query_shape(query) == QueryView::All,
{
    EngineQuery { inner: Box::new(tantivy::query::AllQuery) }
}

/// `EmptyQuery`.
#[verifier::external_body]
pub(crate) fn empty_query() -> (query: EngineQuery)
    ensures
        query_shape(query) == QueryView::Empty,
{
    EngineQuery { inner: Box::new(tantivy::query::EmptyQuery) }
}

/// `TermQuery::new` on the text term of a field, without frequencies.
#[verifier::external_body]
pub(crate) fn term_query(field: u32, text: &str) -> (query: EngineQuery)
    ensures
        query_shape(query) == (QueryView::Term { field, text: text@ }),
{
    let term = Term::from_field_text(Field::from_field_id(field), text);
    EngineQuery { inner: Box::new(tantivy::query::TermQuery::new(term, IndexRecordOption::Basic)) }
}

/// `FuzzyTermQuery::new` on the text term of a field, a transposition
/// counting as one edit.
#[verifier::external_body]
pub(crate) fn fuzzy_query(field: u32, text: &str, max_edits: u8) -> (query: EngineQuery)
    ensures
        query_shape(query) == (QueryView::FuzzyTerm { field, text: text@, max_edits }),
{
    let term = Term::from_field_text(Field::from_field_id(field), text);
    EngineQuery { inner: Box::new(tantivy::query::FuzzyTermQuery::new(term, max_edits, true)) }
}

/// `PhraseQuery::new` on the text terms of a field, in order. The engine
/// panics on fewer than two terms.
#[verifier::external_body]
pub(crate) fn phrase_query(field: u32, terms: &Vec<String>) -> (query: EngineQuery)
    requires
        terms@.len() > 1,
    ensures
        query_shape(query) == (QueryView::Phrase { field, terms: texts_view(terms@) }),
{
    let field = Field::from_field_id(field);
    let terms = terms.iter().map(|text| Term::from_field_text(field, text)).collect();
    EngineQuery { inner: Box::new(tantivy::query::PhraseQuery::new(terms)) }
}

/// `RegexQuery::from_pattern`, which fails on a pattern that does not compile.
#[verifier::external_body]
pub(crate) fn regex_query(field: u32, pattern: &str) -> (made: Result<
    EngineQuery,
    tantivy::TantivyError,
>)
    ensures
        made is Ok <==> regex_compiles(pattern@),
        made is Ok ==> query_shape(made->Ok_0) == (QueryView::Regex { field, pattern: pattern@ }),
{
    let query = tantivy::query::RegexQuery::from_pattern(pattern, Field::from_field_id(field))?;
    Ok(EngineQuery { inner: Box::new(query) })
}

/// `RangeQuery::new` between two integers of a field, both included.
#[verifier::external_body]
pub(crate) fn integer_range_query(field: u32, lower: i64, upper: i64) -> (query: EngineQuery)
    ensures
        query_shape(query) == (QueryView::Range {
            field,
            lower: ValueView::Integer(lower),
            upper: ValueView::Integer(upper),
        }),
{
    let field = Field::from_field_id(field);
    let lower = std::ops::Bound::Included(Term::from_field_i64(field, lower));
    let upper = std::ops::Bound::Included(Term::from_field_i64(field, upper));
    EngineQuery { inner: Box::new(tantivy::query::RangeQuery::new(lower, upper)) }
}

/// `RangeQuery::new` between two doubles of a field, both included, each
/// given by its order-preserving code.
#[verifier::external_body]
pub(crate) fn double_range_query(field: u32, lower: u64, upper: u64) -> (query: EngineQuery)
    ensures
        query_shape(query) == (QueryView::Range {
            field,
            lower: ValueView::Double(lower),
            upper: ValueView::Double(upper),
        }),
{
    let field = Field::from_field_id(field);
    let lower = Term::from_field_f64(field, tantivy::u64_to_f64(lower));
    let upper = Term::from_field_f64(field, tantivy::u64_to_f64(upper));
    let bounds = (std::ops::Bound::Included(lower), std::ops::Bound::Included(upper));
    EngineQuery { inner: Box::new(tantivy::query::RangeQuery::new(bounds.0, bounds.1)) }
}

/// `RangeQuery::new` between two timestamps of a field, both included, each
/// in nanoseconds since the Unix epoch.
#[verifier::external_body]
pub(crate) fn date_range_query(field: u32, lower: i64, upper: i64) -> (query: EngineQuery)
    ensures
        query_shape(query) == (QueryView::Range {
            field,
            lower: ValueView::Date(lower),
            upper: ValueView::Date(upper),
        }),
{
    let field = Field::from_field_id(field);
    let lower = Term::from_field_date(field, tantivy::DateTime::from_timestamp_nanos(lower));
    let upper = Term::from_field_date(field, tantivy::DateTime::from_timestamp_nanos(upper));
    let bounds = (std::ops::Bound::Included(lower), std::ops::Bound::Included(upper));
    EngineQuery { inner: Box::new(tantivy::query::RangeQuery::new(bounds.0, bounds.1)) }
}

/// `TermQuery::new` on the facet term of a field, the path encoded by
/// `Facet::from`. The engine panics on a path that does not start with a slash.
#[verifier::external_body]
pub(crate) fn facet_query(field: u32, path: &str) -> (query: EngineQuery)
    requires
        valid_facet_path(path@),
    ensures
        query_shape(query) == (QueryView::Facet { field, path: facet_encoding(path@) }),
{
    let facet = tantivy::schema::Facet::from(path);
    let term = Term::from_facet(Field::from_field_id(field), &facet);
    EngineQuery { inner: Box::new(tantivy::query::TermQuery::new(term, IndexRecordOption::Basic)) }
}

/// `BooleanQuery::from` on the clauses, in order.
#[verifier::external_body]
pub(crate) fn boolean_query(clauses: Vec<Clause>) -> (query: EngineQuery)
    ensures
        query_shape(query) == QueryView::Boolean(clause_shapes(clauses@)),
{
    let clauses = clauses.into_iter().map(|clause| (match clause.occur {
        Occur::Should => EngineOccur::Should,
        Occur::Must => EngineOccur::Must,
        Occur::MustNot => EngineOccur::MustNot,
    }, clause.query.inner)).collect::<Vec<_>>();
    EngineQuery { inner: Box::new(tantivy::query::BooleanQuery::from(clauses)) }
}

/// `BoostQuery::new` with the score of the given bits, as `from_bits` of the
/// engine's score type gives it.
#[verifier::external_body]
pub(crate) fn boost_query(query: EngineQuery, factor: u32) -> (boosted: EngineQuery)
    ensures
        query_shape(boosted) == (QueryView::Boost { query: Box::new(query_shape(query)), factor }),
{
    let factor = tantivy::Score::from_bits(factor);
    EngineQuery { inner: Box::new(tantivy::query::BoostQuery::new(query.inner, factor)) }
}

/// `Query::box_clone`: a second query of the same shape.
#[verifier::external_body]
pub(crate) fn clone_query(query: &EngineQuery) -> (copy: EngineQuery)
    ensures
        query_shape(copy) == query_shape(*query),
{
    EngineQuery { inner: query.inner.box_clone() }
}

} // verus!
