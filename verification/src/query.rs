//! The query algebra: leaf predicates on fields and their combinations.

use vstd::prelude::*;
use vstd::string::*;
use crate::dates::{date_nanos, parse_date};
use crate::engine::document::facet_encoding;
use crate::engine::queries::{
    all_query, boolean_query, boost_query, clause_shapes, clone_query, date_range_query,
    double_range_query, empty_query, facet_query, fuzzy_query, integer_range_query, phrase_query,
    query_shape, regex_compiles, regex_query, term_query, Clause, EngineQuery,
};
use crate::error::Error;
use crate::index::Index;
use crate::model::{
    clauses_bound, clauses_needs, field_bound, field_number, range_needs, valid_facet_path,
    value_type_of, FieldSpec, Occur, QueryView, ValueType, ValueView, MAX_FIELD,
};
use crate::tokenizer::texts_view;

verus! {

/// An immutable query: a leaf predicate on a field, or a combination of
/// queries. Beside the engine's form of the query it keeps what the query
/// needs of a schema: the least number above every field number that it
/// names, and the type of value of each field that it asks a range of.
pub struct Query {
    engine: EngineQuery,
    fields: u32,
    needs: Vec<(u32, ValueType)>,
}

/// A bound of a range query, as the caller gives it.
pub enum RangeValue {
    /// A timestamp as RFC 3339 text, for a date field.
    Text(String),
    /// An integer, for an integer field.
    Integer(i64),
    /// The order-preserving code of a double, for a double field.
    Double(u64),
}

impl View for Query {
    type V = QueryView;

    closed spec fn view(&self) -> QueryView {
        query_shape(self.engine)
    }
}

/// What a leaf query on a field is: the shape that `shape` gives for the
/// field's number, or the refusal of a name that the schema does not hold.
pub open spec fn on_field(
    fields: Seq<FieldSpec>,
    field: Seq<char>,
    shape: spec_fn(u32) -> Result<QueryView, Error>,
) -> Result<QueryView, Error> {
    match field_number(fields, field) {
        Some(number) => shape(number),
        None => Err(Error::FieldNotFound),
    }
}

/// Whether a query came out as the algebra says: the shape on success, the
/// error otherwise.
pub open spec fn made_as(made: Result<Query, Error>, expected: Result<QueryView, Error>) -> bool {
    match expected {
        Ok(shape) => made is Ok && made->Ok_0@ == shape,
        Err(error) => made is Err && made->Err_0 == error,
    }
}

/// The edit distance of a fuzzy term query, which the engine keeps in one byte.
pub open spec fn fuzzy_shape(field: u32, term: Seq<char>, distance: i64) -> Result<
    QueryView,
    Error,
> {
    if 0 <= distance <= u8::MAX {
        Ok(QueryView::FuzzyTerm { field, text: term, max_edits: distance as u8 })
    } else {
        Err(Error::ConversionFailure)
    }
}

/// A phrase needs at least two terms.
pub open spec fn phrase_shape(field: u32, terms: Seq<Seq<char>>) -> Result<QueryView, Error> {
    if terms.len() > 1 {
        Ok(QueryView::Phrase { field, terms })
    } else {
        Err(Error::ConversionFailure)
    }
}

/// A pattern has to compile.
pub open spec fn regex_shape(field: u32, pattern: Seq<char>) -> Result<QueryView, Error> {
    if regex_compiles(pattern) {
        Ok(QueryView::Regex { field, pattern })
    } else {
        Err(Error::InvalidRegex)
    }
}

/// A facet has to be a path.
pub open spec fn facet_shape(field: u32, path: Seq<char>) -> Result<QueryView, Error> {
    if valid_facet_path(path) {
        Ok(QueryView::Facet { field, path: facet_encoding(path) })
    } else {
        Err(Error::ConversionFailure)
    }
}

/// The bound of a range over a field of a type of value: a date field takes
/// RFC 3339 text, an integer field an integer, a double field a double's code.
pub open spec fn range_bound(value_type: ValueType, bound: RangeValue) -> Result<ValueView, Error> {
    match (value_type, bound) {
        (ValueType::Date, RangeValue::Text(text)) => match date_nanos(text@) {
            Ok(nanos) => Ok(ValueView::Date(nanos)),
            Err(error) => Err(error),
        },
        (ValueType::I64, RangeValue::Integer(value)) => Ok(ValueView::Integer(value)),
        (ValueType::F64, RangeValue::Double(code)) => Ok(ValueView::Double(code)),
        _ => Err(Error::ConversionFailure),
    }
}

/// Whether ranges can be asked of a field of this type of value.
pub open spec fn supports_range(value_type: ValueType) -> bool {
    value_type == ValueType::Date || value_type == ValueType::I64 || value_type == ValueType::F64
}

/// A range over a field: both bounds included, each read by the field's type.
/// A date bound that is not text is refused before either date is parsed.
pub open spec fn range_shape(value_type: ValueType, field: u32, from: RangeValue, to: RangeValue)
    -> Result<QueryView, Error> {
    if !supports_range(value_type) {
        Err(Error::UnsupportedRangeField)
    } else if value_type == ValueType::Date && !(from is Text && to is Text) {
        Err(Error::ConversionFailure)
    } else {
        match range_bound(value_type, from) {
            Err(error) => Err(error),
            Ok(lower) => match range_bound(value_type, to) {
                Err(error) => Err(error),
                Ok(upper) => Ok(QueryView::Range { field, lower, upper }),
            },
        }
    }
}

/// The clauses that take each of the queries with the same role, in order.
pub open spec fn uniform_clauses(occur: Occur, queries: Seq<Query>) -> Seq<(Occur, QueryView)> {
    queries.map_values(|query: Query| (occur, query@))
}

/// The shape of a negation: everything, but not what the query matches.
pub open spec fn negation_shape(query: QueryView) -> QueryView {
    QueryView::Boolean(seq![(Occur::Must, QueryView::All), (Occur::MustNot, query)])
}

fn leaf(engine: EngineQuery, field: u32) -> (query: Query)
    requires
        field <= MAX_FIELD,
        field_bound(query_shape(engine)) == field + 1,
        range_needs(query_shape(engine)) == Seq::<(u32, ValueType)>::empty(),
    ensures
        query@ == query_shape(engine),
{
    Query { engine, fields: field + 1, needs: Vec::new() }
}

fn range(engine: EngineQuery, field: u32, value_type: ValueType) -> (query: Query)
    requires
        field <= MAX_FIELD,
        field_bound(query_shape(engine)) == field + 1,
        range_needs(query_shape(engine)) == seq![(field, value_type), (field, value_type)],
    ensures
        query@ == query_shape(engine),
{
    let mut needs: Vec<(u32, ValueType)> = Vec::new();
    needs.push((field, value_type));
    needs.push((field, value_type));
    proof {
        assert(needs@ =~= seq![(field, value_type), (field, value_type)]);
    }
    Query { engine, fields: field + 1, needs }
}

fn copy_needs(needs: &Vec<(u32, ValueType)>) -> (copy: Vec<(u32, ValueType)>)
    ensures
        copy@ == needs@,
{
    let mut copy: Vec<(u32, ValueType)> = Vec::new();
    append_needs(&mut copy, needs);
    proof {
        assert(copy@ =~= needs@);
    }
    copy
}

fn append_needs(needs: &mut Vec<(u32, ValueType)>, more: &Vec<(u32, ValueType)>)
    ensures
        final(needs)@ == old(needs)@ + more@,
{
    let ghost before = needs@;
    let mut i: usize = 0;
    proof {
        assert(needs@ =~= before + more@.take(0));
    }
    while i < more.len()
        invariant
            i <= more.len(),
            needs@ == before + more@.take(i as int),
        decreases more.len() - i,
    {
        needs.push(more[i]);
        proof {
            assert(needs@ =~= before + more@.take(i + 1));
        }
        i += 1;
    }
    proof {
        assert(more@.take(more@.len() as int) =~= more@);
    }
}

fn uniform(occur: Occur, queries: &Vec<Query>) -> (combined: Query)
    ensures
        combined@ == QueryView::Boolean(uniform_clauses(occur, queries@)),
{
    let ghost all = uniform_clauses(occur, queries@);
    let mut clauses: Vec<Clause> = Vec::new();
    let mut fields: u32 = 0;
    let mut needs: Vec<(u32, ValueType)> = Vec::new();
    let mut i: usize = 0;
    proof {
        assert(needs@ =~= clauses_needs(all.take(0)));
    }
    while i < queries.len()
        invariant
            i <= queries.len(),
            all == uniform_clauses(occur, queries@),
            clause_shapes(clauses@) == all.take(i as int),
            fields == clauses_bound(all.take(i as int)),
            needs@ == clauses_needs(all.take(i as int)),
        decreases queries.len() - i,
    {
        let ghost before = clauses@;
        let bound = queries[i].field_bound();
        let query = clone_query(queries[i].get_query());
        clauses.push(Clause { occur, query });
        if bound > fields {
            fields = bound;
        }
        append_needs(&mut needs, queries[i].range_needs());
        proof {
            assert(all.take(i + 1).drop_last() =~= all.take(i as int));
            assert(clause_shapes(clauses@) =~= clause_shapes(before).push(
                (occur, queries@[i as int]@),
            ));
        }
        i += 1;
    }
    proof {
        assert(all.take(queries@.len() as int) =~= all);
    }
    Query { engine: boolean_query(clauses), fields, needs }
}

impl Clone for Query {
    /// A second query of the same shape.
    fn clone(&self) -> (copy: Query)
        ensures
            copy@ == self@,
    {
        proof {
            use_type_invariant(self);
        }
        Query {
            engine: clone_query(&self.engine),
            fields: self.fields,
            needs: copy_needs(&self.needs),
        }
    }
}

impl Query {
    #[verifier::type_invariant]
    spec fn well_formed(&self) -> bool {
        &&& self.fields == field_bound(query_shape(self.engine))
        &&& self.needs@ == range_needs(query_shape(self.engine))
    }

    /// The engine's form of the query.
    pub fn get_query(&self) -> (engine: &EngineQuery)
        ensures
            query_shape(*engine) == self@,
    {
        &self.engine
    }

    /// The least number above every field number that the query names; zero
    /// for a query that names no field.
    pub fn field_bound(&self) -> (bound: u32)
        ensures
            bound == field_bound(self@),
    {
        proof {
            use_type_invariant(self);
        }
        self.fields
    }

    /// What the ranges of the query need of a schema: for each bound of each
    /// range, the field's number and the type of value that the field has to
    /// hold.
    pub fn range_needs(&self) -> (needs: &Vec<(u32, ValueType)>)
        ensures
            needs@ == range_needs(self@),
    {
        proof {
            use_type_invariant(self);
        }
        &self.needs
    }

    /// The query that matches every document.
    pub fn new_all() -> (query: Query)
        ensures
            query@ == QueryView::All,
    {
        Query { engine: all_query(), fields: 0, needs: Vec::new() }
    }

    /// The query that matches no document.
    pub fn new_empty() -> (query: Query)
        ensures
            query@ == QueryView::Empty,
    {
        Query { engine: empty_query(), fields: 0, needs: Vec::new() }
    }

    /// The exact match of a term in a field.
    pub fn new_term(index: &Index, field: String, term: String) -> (made: Result<Query, Error>)
        ensures
            made_as(
                made,
                on_field(
                    index.fields(),
                    field@,
                    |number: u32| Ok::<QueryView, Error>(QueryView::Term { field: number, text: term@ }),
                ),
            ),
    {
        match index.field(field.as_str()) {
            Some(number) => Ok(leaf(term_query(number, term.as_str()), number)),
            None => Err(Error::FieldNotFound),
        }
    }

    /// The match of every term within `distance` edits of a term, a
    /// transposition counting as one edit. The distance has to fit one byte.
    pub fn new_fuzzy_term(index: &Index, field: String, term: String, distance: i64) -> (made:
        Result<Query, Error>)
        ensures
            made_as(
                made,
                on_field(index.fields(), field@, |number: u32| fuzzy_shape(number, term@, distance)),
            ),
    {
        match index.field(field.as_str()) {
            Some(number) => {
                if distance < 0 || distance > 255 {
                    Err(Error::ConversionFailure)
                } else {
                    Ok(leaf(fuzzy_query(number, term.as_str(), distance as u8), number))
                }
            },
            None => Err(Error::FieldNotFound),
        }
    }

    /// The match of terms that stand next to each other in a field, in this
    /// order. A phrase of fewer than two terms is refused.
    pub fn new_phrase(index: &Index, field: String, terms: Vec<String>) -> (made: Result<
        Query,
        Error,
    >)
        ensures
            made_as(
                made,
                on_field(
                    index.fields(),
                    field@,
                    |number: u32| phrase_shape(number, texts_view(terms@)),
                ),
            ),
    {
        match index.field(field.as_str()) {
            Some(number) => {
                if terms.len() < 2 {
                    Err(Error::ConversionFailure)
                } else {
                    Ok(leaf(phrase_query(number, &terms), number))
                }
            },
            None => Err(Error::FieldNotFound),
        }
    }

    /// The match of every term of a field that a pattern accepts as a whole.
    /// A pattern that does not compile is refused.
    pub fn new_regex(index: &Index, field: String, regex: String) -> (made: Result<Query, Error>)
        ensures
            made_as(
                made,
                on_field(index.fields(), field@, |number: u32| regex_shape(number, regex@)),
            ),
    {
        match index.field(field.as_str()) {
            Some(number) => match regex_query(number, regex.as_str()) {
                Ok(query) => Ok(leaf(query, number)),
                Err(_) => Err(Error::InvalidRegex),
            },
            None => Err(Error::FieldNotFound),
        }
    }

    /// The match of the values of a field between two bounds, both included.
    /// Only date, integer and double fields have ranges, and each bound has to
    /// be of the field's type.
    pub fn new_range(index: &Index, field: String, from: RangeValue, to: RangeValue) -> (made:
        Result<Query, Error>)
        ensures
            made_as(
                made,
                on_field(
                    index.fields(),
                    field@,
                    |number: u32|
                        range_shape(
                            value_type_of(index.fields()[number as int].kind),
                            number,
                            from,
                            to,
                        ),
                ),
            ),
    {
        let number = match index.field(field.as_str()) {
            Some(number) => number,
            None => {
                return Err(Error::FieldNotFound);
            },
        };
        let value_type = match index.value_type(number) {
            Some(value_type) => value_type,
            None => {
                return Err(Error::FieldNotFound);
            },
        };
        match value_type {
            ValueType::Date => match (from, to) {
                (RangeValue::Text(from_text), RangeValue::Text(to_text)) => {
                    let lower = match parse_date(from_text.as_str()) {
                        Ok(nanos) => nanos,
                        Err(error) => {
                            return Err(error);
                        },
                    };
                    let upper = match parse_date(to_text.as_str()) {
                        Ok(nanos) => nanos,
                        Err(error) => {
                            return Err(error);
                        },
                    };
                    Ok(range(date_range_query(number, lower, upper), number, ValueType::Date))
                },
                _ => Err(Error::ConversionFailure),
            },
            ValueType::I64 => match (from, to) {
                (RangeValue::Integer(lower), RangeValue::Integer(upper)) => Ok(
                    range(integer_range_query(number, lower, upper), number, ValueType::I64),
                ),
                _ => Err(Error::ConversionFailure),
            },
            ValueType::F64 => match (from, to) {
                (RangeValue::Double(lower), RangeValue::Double(upper)) => Ok(
                    range(double_range_query(number, lower, upper), number, ValueType::F64),
                ),
                _ => Err(Error::ConversionFailure),
            },
            _ => Err(Error::UnsupportedRangeField),
        }
    }

    /// The exact match of a facet path in a field. A facet that is no path is
    /// refused.
    pub fn new_facet(index: &Index, field: String, path: String) -> (made: Result<Query, Error>)
        ensures
            made_as(
                made,
                on_field(index.fields(), field@, |number: u32| facet_shape(number, path@)),
            ),
    {
        match index.field(field.as_str()) {
            Some(number) => {
                let text = path.as_str();
                if text.is_empty() || text.get_char(0) != '/' {
                    Err(Error::ConversionFailure)
                } else {
                    Ok(leaf(facet_query(number, text), number))
                }
            },
            None => Err(Error::FieldNotFound),
        }
    }

    /// The boolean OR of the queries: each is a clause that may match. The
    /// queries themselves stay usable.
    pub fn disjunction(queries: &Vec<Query>) -> (made: Result<Query, Error>)
        ensures
            made is Ok,
            made->Ok_0@ == QueryView::Boolean(uniform_clauses(Occur::Should, queries@)),
    {
        Ok(uniform(Occur::Should, queries))
    }

    /// The boolean AND of the queries: each is a clause that has to match. The
    /// queries themselves stay usable.
    pub fn conjunction(queries: &Vec<Query>) -> (made: Result<Query, Error>)
        ensures
            made is Ok,
            made->Ok_0@ == QueryView::Boolean(uniform_clauses(Occur::Must, queries@)),
    {
        Ok(uniform(Occur::Must, queries))
    }

    /// The negation of the query: every document but those that it matches.
    /// The engine takes no bare negation, so this is a conjunction with the
    /// query that matches everything.
    pub fn negation(&self) -> (negated: Query)
        ensures
            negated@ == negation_shape(self@),
    {
        proof {
            use_type_invariant(self);
        }
        let mut clauses: Vec<Clause> = Vec::new();
        clauses.push(Clause { occur: Occur::Must, query: all_query() });
        clauses.push(Clause { occur: Occur::MustNot, query: clone_query(&self.engine) });
        proof {
            let shapes = seq![(Occur::Must, QueryView::All), (Occur::MustNot, self@)];
            assert(clause_shapes(clauses@) =~= shapes);
            reveal_with_fuel(clauses_bound, 3);
            reveal_with_fuel(clauses_needs, 3);
            assert(clauses_bound(shapes) == field_bound(self@));
            assert(clauses_needs(shapes) =~= range_needs(self@));
        }
        Query {
            engine: boolean_query(clauses),
            fields: self.fields,
            needs: copy_needs(&self.needs),
        }
    }

    /// The query with its score multiplied by a factor, which is given by the
    /// bits of the engine's 32-bit score.
    pub fn boost(&self, score: u32) -> (boosted: Query)
        ensures
            boosted@ == (QueryView::Boost { query: Box::new(self@), factor: score }),
    {
        proof {
            use_type_invariant(self);
        }
        Query {
            engine: boost_query(clone_query(&self.engine), score),
            fields: self.fields,
            needs: copy_needs(&self.needs),
        }
    }
}

} // verus!
