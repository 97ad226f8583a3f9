//! Mathematical models of what the engine holds. Contracts speak of these.

use vstd::prelude::*;
use crate::helpers::Language;

verus! {

/// The kind of a field, as a caller declares it.
#[derive(Clone, Copy, Debug, PartialEq, Eq, Structural)]
pub enum FieldKind {
    /// Tokenized text with positions.
    Text,
    /// An exact, untokenized term.
    String,
    /// A signed 64-bit integer.
    Integer,
    /// A double, held as its order-preserving 64-bit code.
    Double,
    /// A timestamp, in nanoseconds since the Unix epoch.
    Date,
    /// A hierarchical path such as `/a/b`.
    Facet,
}

/// The type of value that the engine keeps for a field.
#[derive(Clone, Copy, Debug, PartialEq, Eq, Structural)]
pub enum ValueType {
    /// Text, tokenized or exact.
    Str,
    /// A signed 64-bit integer.
    I64,
    /// A double.
    F64,
    /// A timestamp.
    Date,
    /// A facet path.
    Facet,
    /// A type that this library never declares.
    Other,
}

/// The type of value of a field of each kind.
pub open spec fn value_type_of(kind: FieldKind) -> ValueType {
    match kind {
        FieldKind::Text => ValueType::Str,
        FieldKind::String => ValueType::Str,
        FieldKind::Integer => ValueType::I64,
        FieldKind::Double => ValueType::F64,
        FieldKind::Date => ValueType::Date,
        FieldKind::Facet => ValueType::Facet,
    }
}

/// One field of a schema.
pub struct FieldSpec {
    /// The field's name.
    pub name: Seq<char>,
    /// The field's kind.
    pub kind: FieldKind,
    /// For a text field, the name under which its tokenizer is registered.
    pub tokenizer: Option<Seq<char>>,
    /// Whether the value can be read back from a search hit.
    pub stored: bool,
}

/// A text field bound to the tokenizer registered under `tokenizer`.
pub open spec fn text_field(name: Seq<char>, tokenizer: Seq<char>) -> FieldSpec {
    FieldSpec { name, kind: FieldKind::Text, tokenizer: Some(tokenizer), stored: false }
}

/// An exact string field whose value is stored.
pub open spec fn stored_string_field(name: Seq<char>) -> FieldSpec {
    FieldSpec { name, kind: FieldKind::String, tokenizer: None, stored: true }
}

/// A field of a kind other than text, not stored.
pub open spec fn plain_field(name: Seq<char>, kind: FieldKind) -> FieldSpec {
    FieldSpec { name, kind, tokenizer: None, stored: false }
}

/// Whether some field has this name.
pub open spec fn has_field(fields: Seq<FieldSpec>, name: Seq<char>) -> bool {
    exists|i: int| 0 <= i < fields.len() && (#[trigger] fields[i]).name == name
}

/// The number of the field of a name, where the schema has one.
pub open spec fn field_number(fields: Seq<FieldSpec>, name: Seq<char>) -> Option<u32> {
    if has_field(fields, name) {
        Some((choose|i: int| 0 <= i < fields.len() && (#[trigger] fields[i]).name == name) as u32)
    } else {
        None
    }
}

/// Whether no two fields share a name.
pub open spec fn names_distinct(fields: Seq<FieldSpec>) -> bool {
    forall|i: int, j: int|
        0 <= i < j < fields.len() ==> (#[trigger] fields[i]).name != (#[trigger] fields[j]).name
}

/// A name that the engine accepts for a field: not empty, and not starting
/// with a hyphen.
pub open spec fn valid_field_name(name: Seq<char>) -> bool {
    name.len() > 0 && name[0] != '-'
}

/// A facet path that the engine accepts: one that starts with a slash.
pub open spec fn valid_facet_path(path: Seq<char>) -> bool {
    path.len() > 0 && path[0] == '/'
}

/// The largest number that the engine accepts for a field in a document.
pub const MAX_FIELD: u32 = 0xFFFF;

/// A typed value of a document or of a query bound.
pub enum ValueView {
    /// Text, for text and string fields.
    Text(Seq<char>),
    /// A signed integer.
    Integer(i64),
    /// A double, as its order-preserving code.
    Double(u64),
    /// A timestamp in nanoseconds since the Unix epoch.
    Date(i64),
    /// A facet path, as the engine encodes it.
    Facet(Seq<char>),
}

/// One value of a document: the field's number and the value.
pub struct Posting {
    /// The number of the field in the schema.
    pub field: u32,
    /// The value.
    pub value: ValueView,
}

/// An operation handed to a writer and not yet committed.
pub enum WriteOp {
    /// Delete every document that holds `text` in `field`.
    Delete { field: u32, text: Seq<char> },
    /// Add a document with these values, in this order.
    Add(Seq<Posting>),
}

/// One stage of a tokenizer pipeline.
pub enum Stage {
    /// Split on characters that are not alphanumeric.
    SimpleSplit,
    /// Drop the tokens whose length reaches the limit. The engine counts the
    /// bytes of a token's UTF-8 text, not its characters: a token of fewer
    /// characters than the limit is dropped all the same once its bytes reach
    /// the limit.
    RemoveLong(usize),
    /// Lower-case each token.
    LowerCase,
    /// Reduce each token to its stem.
    Stem(Language),
    /// Emit the n-grams of `min` to `max` characters.
    Ngram { min: usize, max: usize, prefix_only: bool },
}

/// A token: its text and the byte offsets in the input that it came from.
pub struct TokenView {
    /// The token's text, after every stage.
    pub text: Seq<char>,
    /// The byte offset of the token's first character.
    pub from: int,
    /// The byte offset just behind the token's last character.
    pub to: int,
}

/// Whether a reader has been reloaded since the last commit through its index.
#[derive(Clone, Copy, Debug, PartialEq, Eq, Structural)]
pub enum ReaderState {
    /// Not reloaded since the index was opened or last committed to.
    Stale,
    /// Reloaded, and nothing committed since.
    Fresh,
}

/// How a clause of a boolean query takes part in matching.
#[derive(Clone, Copy, Debug, PartialEq, Eq, Structural)]
pub enum Occur {
    /// The clause may match.
    Should,
    /// The clause has to match.
    Must,
    /// The clause must not match.
    MustNot,
}

/// The shape of a query.
pub enum QueryView {
    /// Matches every document.
    All,
    /// Matches no document.
    Empty,
    /// Matches the exact term.
    Term { field: u32, text: Seq<char> },
    /// Matches terms within `max_edits` edits, a transposition counting as one.
    FuzzyTerm { field: u32, text: Seq<char>, max_edits: u8 },
    /// Matches the terms next to each other, in this order.
    Phrase { field: u32, terms: Seq<Seq<char>> },
    /// Matches terms that the pattern accepts as a whole.
    Regex { field: u32, pattern: Seq<char> },
    /// Matches values between the two bounds, both included.
    Range { field: u32, lower: ValueView, upper: ValueView },
    /// Matches the exact facet path, given as the engine encodes it.
    Facet { field: u32, path: Seq<char> },
    /// A boolean combination of clauses.
    Boolean(Seq<(Occur, QueryView)>),
    /// The inner query, its score multiplied by the 32-bit factor of these bits.
    Boost { query: Box<QueryView>, factor: u32 },
}

/// The least number above every field number that a query names; zero for a
/// query that names no field.
pub open spec fn field_bound(query: QueryView) -> nat
    decreases query,
{
    match query {
        QueryView::All => 0,
        QueryView::Empty => 0,
        QueryView::Term { field, .. } => (field + 1) as nat,
        QueryView::FuzzyTerm { field, .. } => (field + 1) as nat,
        QueryView::Phrase { field, .. } => (field + 1) as nat,
        QueryView::Regex { field, .. } => (field + 1) as nat,
        QueryView::Range { field, .. } => (field + 1) as nat,
        QueryView::Facet { field, .. } => (field + 1) as nat,
        QueryView::Boolean(clauses) => clauses_bound(clauses),
        QueryView::Boost { query, .. } => field_bound(*query),
    }
}

/// The least number above every field number that the clauses name.
pub open spec fn clauses_bound(clauses: Seq<(Occur, QueryView)>) -> nat
    decreases clauses,
{
    if clauses.len() == 0 {
        0
    } else {
        let earlier = clauses_bound(clauses.drop_last());
        let last = field_bound(clauses.last().1);
        if earlier >= last {
            earlier
        } else {
            last
        }
    }
}

/// The type of a value.
pub open spec fn type_of_value(value: ValueView) -> ValueType {
    match value {
        ValueView::Text(_) => ValueType::Str,
        ValueView::Integer(_) => ValueType::I64,
        ValueView::Double(_) => ValueType::F64,
        ValueView::Date(_) => ValueType::Date,
        ValueView::Facet(_) => ValueType::Facet,
    }
}

/// What the ranges of a query need of a schema: for each bound of each range,
/// the field's number and the type of value that the field has to hold.
pub open spec fn range_needs(query: QueryView) -> Seq<(u32, ValueType)>
    decreases query,
{
    match query {
        QueryView::Range { field, lower, upper } => seq![
            (field, type_of_value(lower)),
            (field, type_of_value(upper)),
        ],
        QueryView::Boolean(clauses) => clauses_needs(clauses),
        QueryView::Boost { query, .. } => range_needs(*query),
        _ => Seq::empty(),
    }
}

/// What the ranges of the clauses need of a schema, clause after clause.
pub open spec fn clauses_needs(clauses: Seq<(Occur, QueryView)>) -> Seq<(u32, ValueType)>
    decreases clauses,
{
    if clauses.len() == 0 {
        Seq::empty()
    } else {
        clauses_needs(clauses.drop_last()) + range_needs(clauses.last().1)
    }
}

/// Whether a schema has each needed field with the needed type of value.
pub open spec fn needs_met(needs: Seq<(u32, ValueType)>, fields: Seq<FieldSpec>) -> bool {
    forall|i: int|
        0 <= i < needs.len() ==> (#[trigger] needs[i]).0 < fields.len() && value_type_of(
            fields[needs[i].0 as int].kind,
        ) == needs[i].1
}

/// Whether the engine can run a query on an index of these fields: the schema
/// has every field that the query names, and every range is over a field of
/// the type of its bounds.
pub open spec fn runs_on(query: QueryView, fields: Seq<FieldSpec>) -> bool {
    field_bound(query) <= fields.len() && needs_met(range_needs(query), fields)
}

/// Every field that a range of the clauses needs is below the clauses' bound.
pub proof fn lemma_clauses_needs_below_bound(clauses: Seq<(Occur, QueryView)>)
    ensures
        forall|i: int|
            0 <= i < clauses_needs(clauses).len() ==> (#[trigger] clauses_needs(clauses)[i]).0
                < clauses_bound(clauses),
    decreases clauses,
{
    if clauses.len() > 0 {
        lemma_clauses_needs_below_bound(clauses.drop_last());
        lemma_needs_below_bound(clauses.last().1);
        let earlier = clauses_needs(clauses.drop_last());
        let last = range_needs(clauses.last().1);
        assert forall|i: int| 0 <= i < clauses_needs(clauses).len() implies (
        #[trigger] clauses_needs(clauses)[i]).0 < clauses_bound(clauses) by {
            if i < earlier.len() {
                assert(clauses_needs(clauses)[i] == earlier[i]);
            } else {
                assert(clauses_needs(clauses)[i] == last[i - earlier.len()]);
            }
        }
    }
}

/// Every field that a range of a query needs is below the query's bound.
pub proof fn lemma_needs_below_bound(query: QueryView)
    ensures
        forall|i: int|
            0 <= i < range_needs(query).len() ==> (#[trigger] range_needs(query)[i]).0
                < field_bound(query),
    decreases query,
{
    match query {
        QueryView::Boolean(clauses) => {
            lemma_clauses_needs_below_bound(clauses);
            assert(range_needs(query) == clauses_needs(clauses));
        },
        QueryView::Boost { query: inner, .. } => {
            lemma_needs_below_bound(*inner);
            assert(range_needs(query) == range_needs(*inner));
        },
        QueryView::Range { field, lower, upper } => {
            let needs = range_needs(query);
            assert forall|i: int| 0 <= i < needs.len() implies (#[trigger] needs[i]).0
                < field_bound(query) by {
                assert(needs[i].0 == field);
            }
        },
        _ => {},
    }
}

/// A number found for a name is that of a field of this name.
pub proof fn lemma_field_named(fields: Seq<FieldSpec>, name: Seq<char>)
    requires
        fields.len() <= MAX_FIELD + 1,
        field_number(fields, name) is Some,
    ensures
        field_number(fields, name)->Some_0 < fields.len(),
        fields[field_number(fields, name)->Some_0 as int].name == name,
{
}

/// Among distinct names, a field is found by its name at its own number.
pub proof fn lemma_field_number(fields: Seq<FieldSpec>, i: int)
    requires
        names_distinct(fields),
        0 <= i < fields.len() <= MAX_FIELD + 1,
    ensures
        field_number(fields, fields[i].name) == Some(i as u32),
{
    let name = fields[i].name;
    let found = choose|k: int| 0 <= k < fields.len() && (#[trigger] fields[k]).name == name;
    if found < i {
        assert(fields[found].name != fields[i].name);
    } else if i < found {
        assert(fields[i].name != fields[found].name);
    }
}

} // verus!
