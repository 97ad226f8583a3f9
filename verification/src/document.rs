//! The document mapper: per-field input to the values of one document.

use vstd::prelude::*;
use vstd::string::*;
use crate::dates::{date_nanos, parse_date};
use crate::engine::document::{
    add_date, add_double, add_facet, add_integer, add_text, document_postings, facet_encoding,
    new_document,
};
use crate::error::Error;
use crate::index::Index;
use crate::model::{field_number, valid_facet_path, FieldSpec, Posting, ValueView};
use crate::schema::id_name;
use crate::tokenizer::texts_view;
use tantivy::TantivyDocument;

verus! {

/// What the texts of a group of fields are read as.
#[derive(Clone, Copy, Debug, PartialEq, Eq, Structural)]
pub enum TextRole {
    /// Text as it is, for text and string fields.
    Text,
    /// An RFC 3339 timestamp.
    Date,
    /// A facet path.
    Facet,
}

/// The value that a text of a role stands for, or the error that refuses it.
pub open spec fn textual_value(role: TextRole, text: Seq<char>) -> Result<ValueView, Error> {
    match role {
        TextRole::Text => Ok(ValueView::Text(text)),
        TextRole::Date => match date_nanos(text) {
            Ok(nanos) => Ok(ValueView::Date(nanos)),
            Err(error) => Err(error),
        },
        TextRole::Facet => if valid_facet_path(text) {
            Ok(ValueView::Facet(facet_encoding(text)))
        } else {
            Err(Error::ConversionFailure)
        },
    }
}

/// One field's input in its general form: the field's name and, for each of
/// its values in order, the value or the error that refuses it.
pub type Entry = (Seq<char>, Seq<Result<ValueView, Error>>);

/// A group of text-valued fields in general form.
pub open spec fn textual_entries(role: TextRole, entries: Seq<(Seq<char>, Seq<Seq<char>>)>) -> Seq<
    Entry,
> {
    entries.map_values(
        |entry: (Seq<char>, Seq<Seq<char>>)|
            (entry.0, entry.1.map_values(|text: Seq<char>| textual_value(role, text))),
    )
}

/// A group of integer fields in general form.
pub open spec fn integer_entries(entries: Seq<(Seq<char>, Seq<i64>)>) -> Seq<Entry> {
    entries.map_values(
        |entry: (Seq<char>, Seq<i64>)|
            (
                entry.0,
                entry.1.map_values(|value: i64| Ok::<ValueView, Error>(ValueView::Integer(value))),
            ),
    )
}

/// A group of double fields in general form, each double by its code.
pub open spec fn double_entries(entries: Seq<(Seq<char>, Seq<u64>)>) -> Seq<Entry> {
    entries.map_values(
        |entry: (Seq<char>, Seq<u64>)|
            (
                entry.0,
                entry.1.map_values(|code: u64| Ok::<ValueView, Error>(ValueView::Double(code))),
            ),
    )
}

/// The postings of one field's values, in order, or the first error among them.
pub open spec fn collect_values(field: u32, values: Seq<Result<ValueView, Error>>) -> Result<
    Seq<Posting>,
    Error,
>
    decreases values.len(),
{
    if values.len() == 0 {
        Ok(Seq::empty())
    } else {
        match collect_values(field, values.drop_last()) {
            Err(error) => Err(error),
            Ok(postings) => match values.last() {
                Err(error) => Err(error),
                Ok(value) => Ok(postings.push(Posting { field, value })),
            },
        }
    }
}

/// The field that a name of a group stands for. The schema has to hold the
/// name, and the name must not be `id`: a document has one `id`, its own.
pub open spec fn value_field(fields: Seq<FieldSpec>, name: Seq<char>) -> Result<u32, Error> {
    match field_number(fields, name) {
        None => Err(Error::FieldNotFound),
        Some(field) => if name == id_name() {
            Err(Error::ConversionFailure)
        } else {
            Ok(field)
        },
    }
}

/// The postings of a group of fields, field after field, or the first error:
/// a name that stands for no field, or a value that is refused.
pub open spec fn collect_entries(fields: Seq<FieldSpec>, entries: Seq<Entry>) -> Result<
    Seq<Posting>,
    Error,
>
    decreases entries.len(),
{
    if entries.len() == 0 {
        Ok(Seq::empty())
    } else {
        match collect_entries(fields, entries.drop_last()) {
            Err(error) => Err(error),
            Ok(postings) => match value_field(fields, entries.last().0) {
                Err(error) => Err(error),
                Ok(field) => match collect_values(field, entries.last().1) {
                    Err(error) => Err(error),
                    Ok(values) => Ok(postings + values),
                },
            },
        }
    }
}

/// The postings of two parts one after the other, or the first error.
pub open spec fn followed_by(
    first: Result<Seq<Posting>, Error>,
    second: Result<Seq<Posting>, Error>,
) -> Result<Seq<Posting>, Error> {
    match first {
        Err(error) => Err(error),
        Ok(head) => match second {
            Err(error) => Err(error),
            Ok(tail) => Ok(head + tail),
        },
    }
}

/// The input of one document: its `id` and the six groups of fields.
pub struct DocumentInput {
    pub id: Seq<char>,
    pub text: Seq<(Seq<char>, Seq<Seq<char>>)>,
    pub string: Seq<(Seq<char>, Seq<Seq<char>>)>,
    pub integer: Seq<(Seq<char>, Seq<i64>)>,
    pub double: Seq<(Seq<char>, Seq<u64>)>,
    pub date: Seq<(Seq<char>, Seq<Seq<char>>)>,
    pub facet: Seq<(Seq<char>, Seq<Seq<char>>)>,
}

/// The postings of a document: the `id` first, then the text, string, integer,
/// double, date and facet values, each field's values in input order; or the
/// first error met in that order.
pub open spec fn mapped_document(fields: Seq<FieldSpec>, input: DocumentInput) -> Result<
    Seq<Posting>,
    Error,
> {
    match field_number(fields, id_name()) {
        None => Err(Error::FieldNotFound),
        Some(id_field) => {
            let id = Ok::<Seq<Posting>, Error>(
                seq![Posting { field: id_field, value: ValueView::Text(input.id) }],
            );
            let text = collect_entries(fields, textual_entries(TextRole::Text, input.text));
            let string = collect_entries(fields, textual_entries(TextRole::Text, input.string));
            let integer = collect_entries(fields, integer_entries(input.integer));
            let double = collect_entries(fields, double_entries(input.double));
            let date = collect_entries(fields, textual_entries(TextRole::Date, input.date));
            let facet = collect_entries(fields, textual_entries(TextRole::Facet, input.facet));
            followed_by(
                followed_by(
                    followed_by(
                        followed_by(followed_by(followed_by(id, text), string), integer),
                        double,
                    ),
                    date,
                ),
                facet,
            )
        },
    }
}

proof fn lemma_values_of_field(field: u32, values: Seq<Result<ValueView, Error>>)
    requires
        collect_values(field, values) is Ok,
    ensures
        forall|i: int|
            0 <= i < collect_values(field, values)->Ok_0.len() ==> (#[trigger] collect_values(
                field,
                values,
            )->Ok_0[i]).field == field,
    decreases values.len(),
{
    if values.len() > 0 {
        lemma_values_of_field(field, values.drop_last());
    }
}

proof fn lemma_entries_spare_id(fields: Seq<FieldSpec>, entries: Seq<Entry>)
    requires
        fields.len() <= crate::model::MAX_FIELD + 1,
        field_number(fields, id_name()) is Some,
        collect_entries(fields, entries) is Ok,
    ensures
        forall|i: int|
            0 <= i < collect_entries(fields, entries)->Ok_0.len() ==> (#[trigger] collect_entries(
                fields,
                entries,
            )->Ok_0[i]).field != field_number(fields, id_name())->Some_0,
    decreases entries.len(),
{
    if entries.len() > 0 {
        let name = entries.last().0;
        let field = value_field(fields, name)->Ok_0;
        let earlier = collect_entries(fields, entries.drop_last())->Ok_0;
        let last = collect_values(field, entries.last().1)->Ok_0;
        lemma_entries_spare_id(fields, entries.drop_last());
        lemma_values_of_field(field, entries.last().1);
        crate::model::lemma_field_named(fields, name);
        crate::model::lemma_field_named(fields, id_name());
        assert forall|i: int| 0 <= i < (earlier + last).len() implies (#[trigger] (earlier
            + last)[i]).field != field_number(fields, id_name())->Some_0 by {
            if i < earlier.len() {
                assert((earlier + last)[i] == earlier[i]);
            } else {
                assert((earlier + last)[i] == last[i - earlier.len()]);
            }
        }
    }
}

/// A mapped document holds exactly one `id`: it is the first posting, and no
/// other posting is of the `id` field.
pub proof fn lemma_document_has_one_id(fields: Seq<FieldSpec>, input: DocumentInput)
    requires
        fields.len() <= crate::model::MAX_FIELD + 1,
        mapped_document(fields, input) is Ok,
    ensures
        ({
            let postings = mapped_document(fields, input)->Ok_0;
            let id_field = field_number(fields, id_name())->Some_0;
            &&& postings.len() > 0
            &&& postings[0] == Posting { field: id_field, value: ValueView::Text(input.id) }
            &&& forall|i: int| 0 < i < postings.len() ==> (#[trigger] postings[i]).field != id_field
        }),
{
    let id_field = field_number(fields, id_name())->Some_0;
    let id = seq![Posting { field: id_field, value: ValueView::Text(input.id) }];
    let text = textual_entries(TextRole::Text, input.text);
    let string = textual_entries(TextRole::Text, input.string);
    let integer = integer_entries(input.integer);
    let double = double_entries(input.double);
    let date = textual_entries(TextRole::Date, input.date);
    let facet = textual_entries(TextRole::Facet, input.facet);
    lemma_entries_spare_id(fields, text);
    lemma_entries_spare_id(fields, string);
    lemma_entries_spare_id(fields, integer);
    lemma_entries_spare_id(fields, double);
    lemma_entries_spare_id(fields, date);
    lemma_entries_spare_id(fields, facet);
    let rest = collect_entries(fields, text)->Ok_0 + collect_entries(fields, string)->Ok_0
        + collect_entries(fields, integer)->Ok_0 + collect_entries(fields, double)->Ok_0
        + collect_entries(fields, date)->Ok_0 + collect_entries(fields, facet)->Ok_0;
    let postings = mapped_document(fields, input)->Ok_0;
    assert(postings =~= id + rest);
    assert forall|i: int| 0 < i < postings.len() implies (#[trigger] postings[i]).field
        != id_field by {
        assert(postings[i] == rest[i - 1]);
    }
}

/// The names and texts of a group of text-valued fields.
pub open spec fn named_texts(entries: Seq<(String, Vec<String>)>) -> Seq<
    (Seq<char>, Seq<Seq<char>>),
> {
    entries.map_values(|entry: (String, Vec<String>)| (entry.0@, texts_view(entry.1@)))
}

/// The names and integers of a group of integer fields.
pub open spec fn named_integers(entries: Seq<(String, Vec<i64>)>) -> Seq<(Seq<char>, Seq<i64>)> {
    entries.map_values(|entry: (String, Vec<i64>)| (entry.0@, entry.1@))
}

/// The names and codes of a group of double fields.
pub open spec fn named_codes(entries: Seq<(String, Vec<u64>)>) -> Seq<(Seq<char>, Seq<u64>)> {
    entries.map_values(|entry: (String, Vec<u64>)| (entry.0@, entry.1@))
}

proof fn lemma_values_error(field: u32, values: Seq<Result<ValueView, Error>>, k: int)
    requires
        0 <= k <= values.len(),
        collect_values(field, values.take(k)) is Err,
    ensures
        collect_values(field, values) == collect_values(field, values.take(k)),
    decreases values.len() - k,
{
    if k < values.len() {
        assert(values.take(k + 1).drop_last() =~= values.take(k));
        lemma_values_error(field, values, k + 1);
    } else {
        assert(values.take(k) =~= values);
    }
}

proof fn lemma_entries_error(fields: Seq<FieldSpec>, entries: Seq<Entry>, k: int)
    requires
        0 <= k <= entries.len(),
        collect_entries(fields, entries.take(k)) is Err,
    ensures
        collect_entries(fields, entries) == collect_entries(fields, entries.take(k)),
    decreases entries.len() - k,
{
    if k < entries.len() {
        assert(entries.take(k + 1).drop_last() =~= entries.take(k));
        lemma_entries_error(fields, entries, k + 1);
    } else {
        assert(entries.take(k) =~= entries);
    }
}

proof fn lemma_values_step(field: u32, values: Seq<Result<ValueView, Error>>, k: int)
    requires
        0 <= k < values.len(),
    ensures
        collect_values(field, values.take(k + 1)) == match collect_values(field, values.take(k)) {
            Err(error) => Err(error),
            Ok(postings) => match values[k] {
                Err(error) => Err(error),
                Ok(value) => Ok(postings.push(Posting { field, value })),
            },
        },
{
    assert(values.take(k + 1).drop_last() =~= values.take(k));
}

proof fn lemma_entries_step(fields: Seq<FieldSpec>, entries: Seq<Entry>, k: int)
    requires
        0 <= k < entries.len(),
    ensures
        collect_entries(fields, entries.take(k + 1)) == match collect_entries(
            fields,
            entries.take(k),
        ) {
            Err(error) => Err(error),
            Ok(postings) => match value_field(fields, entries[k].0) {
                Err(error) => Err(error),
                Ok(field) => match collect_values(field, entries[k].1) {
                    Err(error) => Err(error),
                    Ok(values) => Ok(postings + values),
                },
            },
        },
{
    assert(entries.take(k + 1).drop_last() =~= entries.take(k));
}

fn value_field_of(index: &Index, name: &str) -> (found: Result<u32, Error>)
    ensures
        found == value_field(index.fields(), name@),
        found is Ok ==> found->Ok_0 <= crate::model::MAX_FIELD,
{
    match index.field(name) {
        None => Err(Error::FieldNotFound),
        Some(field) => match index.field("id") {
            Some(id_field) => if field == id_field {
                Err(Error::ConversionFailure)
            } else {
                Ok(field)
            },
            None => Ok(field),
        },
    }
}

fn add_texts(
    document: &mut TantivyDocument,
    field: u32,
    texts: &Vec<String>,
    role: TextRole,
) -> (added: Result<(), Error>)
    requires
        field <= crate::model::MAX_FIELD,
    ensures
        match collect_values(
            field,
            texts_view(texts@).map_values(|text: Seq<char>| textual_value(role, text)),
        ) {
            Ok(postings) => added is Ok && document_postings(*final(document))
                == document_postings(*old(document)) + postings,
            Err(error) => added == Err::<(), Error>(error),
        },
{
    let ghost base = document_postings(*document);
    let ghost values = texts_view(texts@).map_values(|text: Seq<char>| textual_value(role, text));
    let ghost mut done: Seq<Posting> = Seq::empty();
    let mut j: usize = 0;
    proof {
        assert(base + done =~= base);
    }
    while j < texts.len()
        invariant
            j <= texts.len(),
            field <= crate::model::MAX_FIELD,
            values == texts_view(texts@).map_values(|text: Seq<char>| textual_value(role, text)),
            collect_values(field, values.take(j as int)) == Ok::<Seq<Posting>, Error>(done),
            document_postings(*document) == base + done,
        decreases texts.len() - j,
    {
        let text = texts[j].as_str();
        proof {
            lemma_values_step(field, values, j as int);
        }
        let ghost before = document_postings(*document);
        match role {
            TextRole::Text => add_text(document, field, text),
            TextRole::Date => match parse_date(text) {
                Ok(nanos) => add_date(document, field, nanos),
                Err(error) => {
                    proof {
                        lemma_values_error(field, values, j + 1);
                    }
                    return Err(error);
                },
            },
            TextRole::Facet => {
                if text.is_empty() || text.get_char(0) != '/' {
                    proof {
                        lemma_values_error(field, values, j + 1);
                    }
                    return Err(Error::ConversionFailure);
                }
                add_facet(document, field, text)
            },
        }
        proof {
            let value = values[j as int]->Ok_0;
            assert(document_postings(*document) == before.push(Posting { field, value }));
            done = done.push(Posting { field, value });
        }
        j += 1;
    }
    proof {
        assert(values.take(texts@.len() as int) =~= values);
    }
    Ok(())
}

fn add_textual_group(
    index: &Index,
    document: &mut TantivyDocument,
    entries: &Vec<(String, Vec<String>)>,
    role: TextRole,
) -> (added: Result<(), Error>)
    ensures
        match collect_entries(index.fields(), textual_entries(role, named_texts(entries@))) {
            Ok(postings) => added is Ok && document_postings(*final(document))
                == document_postings(*old(document)) + postings,
            Err(error) => added == Err::<(), Error>(error),
        },
{
    let ghost base = document_postings(*document);
    let ghost general = textual_entries(role, named_texts(entries@));
    let ghost mut done: Seq<Posting> = Seq::empty();
    let mut i: usize = 0;
    proof {
        assert(base + done =~= base);
    }
    while i < entries.len()
        invariant
            i <= entries.len(),
            general == textual_entries(role, named_texts(entries@)),
            collect_entries(index.fields(), general.take(i as int)) == Ok::<Seq<Posting>, Error>(
                done,
            ),
            document_postings(*document) == base + done,
        decreases entries.len() - i,
    {
        proof {
            lemma_entries_step(index.fields(), general, i as int);
        }
        let field = match value_field_of(index, entries[i].0.as_str()) {
            Ok(field) => field,
            Err(error) => {
                proof {
                    lemma_entries_error(index.fields(), general, i + 1);
                }
                return Err(error);
            },
        };
        let ghost before = document_postings(*document);
        match add_texts(document, field, &entries[i].1, role) {
            Ok(_) => {},
            Err(error) => {
                proof {
                    lemma_entries_error(index.fields(), general, i + 1);
                }
                return Err(error);
            },
        }
        proof {
            let values = collect_values(field, general[i as int].1)->Ok_0;
            assert(document_postings(*document) == before + values);
            done = done + values;
        }
        i += 1;
    }
    proof {
        assert(general.take(entries@.len() as int) =~= general);
    }
    Ok(())
}

fn add_integers(document: &mut TantivyDocument, field: u32, values: &Vec<i64>)
    requires
        field <= crate::model::MAX_FIELD,
    ensures
        collect_values(
            field,
            values@.map_values(|value: i64| Ok::<ValueView, Error>(ValueView::Integer(value))),
        ) is Ok,
        document_postings(*final(document)) == document_postings(*old(document)) + collect_values(
            field,
            values@.map_values(|value: i64| Ok::<ValueView, Error>(ValueView::Integer(value))),
        )->Ok_0,
{
    let ghost base = document_postings(*document);
    let ghost general = values@.map_values(
        |value: i64| Ok::<ValueView, Error>(ValueView::Integer(value)),
    );
    let ghost mut done: Seq<Posting> = Seq::empty();
    let mut j: usize = 0;
    proof {
        assert(base + done =~= base);
    }
    while j < values.len()
        invariant
            j <= values.len(),
            field <= crate::model::MAX_FIELD,
            general == values@.map_values(
                |value: i64| Ok::<ValueView, Error>(ValueView::Integer(value)),
            ),
            collect_values(field, general.take(j as int)) == Ok::<Seq<Posting>, Error>(done),
            document_postings(*document) == base + done,
        decreases values.len() - j,
    {
        proof {
            lemma_values_step(field, general, j as int);
        }
        add_integer(document, field, values[j]);
        proof {
            let posting = Posting { field, value: ValueView::Integer(values@[j as int]) };
            done = done.push(posting);
        }
        j += 1;
    }
    proof {
        assert(general.take(values@.len() as int) =~= general);
    }
}

fn add_doubles(document: &mut TantivyDocument, field: u32, codes: &Vec<u64>)
    requires
        field <= crate::model::MAX_FIELD,
    ensures
        collect_values(
            field,
            codes@.map_values(|code: u64| Ok::<ValueView, Error>(ValueView::Double(code))),
        ) is Ok,
        document_postings(*final(document)) == document_postings(*old(document)) + collect_values(
            field,
            codes@.map_values(|code: u64| Ok::<ValueView, Error>(ValueView::Double(code))),
        )->Ok_0,
{
    let ghost base = document_postings(*document);
    let ghost general = codes@.map_values(
        |code: u64| Ok::<ValueView, Error>(ValueView::Double(code)),
    );
    let ghost mut done: Seq<Posting> = Seq::empty();
    let mut j: usize = 0;
    proof {
        assert(base + done =~= base);
    }
    while j < codes.len()
        invariant
            j <= codes.len(),
            field <= crate::model::MAX_FIELD,
            general == codes@.map_values(
                |code: u64| Ok::<ValueView, Error>(ValueView::Double(code)),
            ),
            collect_values(field, general.take(j as int)) == Ok::<Seq<Posting>, Error>(done),
            document_postings(*document) == base + done,
        decreases codes.len() - j,
    {
        proof {
            lemma_values_step(field, general, j as int);
        }
        add_double(document, field, codes[j]);
        proof {
            let posting = Posting { field, value: ValueView::Double(codes@[j as int]) };
            done = done.push(posting);
        }
        j += 1;
    }
    proof {
        assert(general.take(codes@.len() as int) =~= general);
    }
}

fn add_integer_group(
    index: &Index,
    document: &mut TantivyDocument,
    entries: &Vec<(String, Vec<i64>)>,
) -> (added: Result<(), Error>)
    ensures
        match collect_entries(index.fields(), integer_entries(named_integers(entries@))) {
            Ok(postings) => added is Ok && document_postings(*final(document))
                == document_postings(*old(document)) + postings,
            Err(error) => added == Err::<(), Error>(error),
        },
{
    let ghost base = document_postings(*document);
    let ghost general = integer_entries(named_integers(entries@));
    let ghost mut done: Seq<Posting> = Seq::empty();
    let mut i: usize = 0;
    proof {
        assert(base + done =~= base);
    }
    while i < entries.len()
        invariant
            i <= entries.len(),
            general == integer_entries(named_integers(entries@)),
            collect_entries(index.fields(), general.take(i as int)) == Ok::<Seq<Posting>, Error>(
                done,
            ),
            document_postings(*document) == base + done,
        decreases entries.len() - i,
    {
        proof {
            lemma_entries_step(index.fields(), general, i as int);
        }
        let field = match value_field_of(index, entries[i].0.as_str()) {
            Ok(field) => field,
            Err(error) => {
                proof {
                    lemma_entries_error(index.fields(), general, i + 1);
                }
                return Err(error);
            },
        };
        let ghost before = document_postings(*document);
        add_integers(document, field, &entries[i].1);
        proof {
            let values = collect_values(field, general[i as int].1)->Ok_0;
            assert(document_postings(*document) == before + values);
            done = done + values;
        }
        i += 1;
    }
    proof {
        assert(general.take(entries@.len() as int) =~= general);
    }
    Ok(())
}

fn add_double_group(
    index: &Index,
    document: &mut TantivyDocument,
    entries: &Vec<(String, Vec<u64>)>,
) -> (added: Result<(), Error>)
    ensures
        match collect_entries(index.fields(), double_entries(named_codes(entries@))) {
            Ok(postings) => added is Ok && document_postings(*final(document))
                == document_postings(*old(document)) + postings,
            Err(error) => added == Err::<(), Error>(error),
        },
{
    let ghost base = document_postings(*document);
    let ghost general = double_entries(named_codes(entries@));
    let ghost mut done: Seq<Posting> = Seq::empty();
    let mut i: usize = 0;
    proof {
        assert(base + done =~= base);
    }
    while i < entries.len()
        invariant
            i <= entries.len(),
            general == double_entries(named_codes(entries@)),
            collect_entries(index.fields(), general.take(i as int)) == Ok::<Seq<Posting>, Error>(
                done,
            ),
            document_postings(*document) == base + done,
        decreases entries.len() - i,
    {
        proof {
            lemma_entries_step(index.fields(), general, i as int);
        }
        let field = match value_field_of(index, entries[i].0.as_str()) {
            Ok(field) => field,
            Err(error) => {
                proof {
                    lemma_entries_error(index.fields(), general, i + 1);
                }
                return Err(error);
            },
        };
        let ghost before = document_postings(*document);
        add_doubles(document, field, &entries[i].1);
        proof {
            let values = collect_values(field, general[i as int].1)->Ok_0;
            assert(document_postings(*document) == before + values);
            done = done + values;
        }
        i += 1;
    }
    proof {
        assert(general.take(entries@.len() as int) =~= general);
    }
    Ok(())
}

/// The input of a document whose fields hold their values as sequences.
pub open spec fn input_of(
    id: Seq<char>,
    text_fields: Seq<(String, Vec<String>)>,
    string_fields: Seq<(String, Vec<String>)>,
    integer_fields: Seq<(String, Vec<i64>)>,
    double_fields: Seq<(String, Vec<u64>)>,
    date_fields: Seq<(String, Vec<String>)>,
    facet_fields: Seq<(String, Vec<String>)>,
) -> DocumentInput {
    DocumentInput {
        id,
        text: named_texts(text_fields),
        string: named_texts(string_fields),
        integer: named_integers(integer_fields),
        double: named_codes(double_fields),
        date: named_texts(date_fields),
        facet: named_texts(facet_fields),
    }
}

impl Index {
    /// Maps the input of one document to the engine's document: the `id`
    /// first, then every value of every field, group after group. A field
    /// name that the schema does not hold, a date that is no RFC 3339
    /// timestamp and a facet that is no path each refuse the whole document.
    pub fn map_document(
        &self,
        id: &str,
        text_fields: &Vec<(String, Vec<String>)>,
        string_fields: &Vec<(String, Vec<String>)>,
        integer_fields: &Vec<(String, Vec<i64>)>,
        double_fields: &Vec<(String, Vec<u64>)>,
        date_fields: &Vec<(String, Vec<String>)>,
        facet_fields: &Vec<(String, Vec<String>)>,
    ) -> (mapped: Result<TantivyDocument, Error>)
        ensures
            match mapped_document(
                self.fields(),
                input_of(
                    id@,
                    text_fields@,
                    string_fields@,
                    integer_fields@,
                    double_fields@,
                    date_fields@,
                    facet_fields@,
                ),
            ) {
                Ok(postings) => mapped is Ok && document_postings(mapped->Ok_0) == postings,
                Err(error) => mapped is Err && mapped->Err_0 == error,
            },
    {
        let id_field = match self.field("id") {
            Some(field) => field,
            None => {
                return Err(Error::FieldNotFound);
            },
        };
        let mut document = new_document();
        add_text(&mut document, id_field, id);
        proof {
            assert(document_postings(document) =~= seq![
                Posting { field: id_field, value: ValueView::Text(id@) },
            ]);
        }
        match add_textual_group(self, &mut document, text_fields, TextRole::Text) {
            Ok(_) => {},
            Err(error) => {
                return Err(error);
            },
        }
        match add_textual_group(self, &mut document, string_fields, TextRole::Text) {
            Ok(_) => {},
            Err(error) => {
                return Err(error);
            },
        }
        match add_integer_group(self, &mut document, integer_fields) {
            Ok(_) => {},
            Err(error) => {
                return Err(error);
            },
        }
        match add_double_group(self, &mut document, double_fields) {
            Ok(_) => {},
            Err(error) => {
                return Err(error);
            },
        }
        match add_textual_group(self, &mut document, date_fields, TextRole::Date) {
            Ok(_) => {},
            Err(error) => {
                return Err(error);
            },
        }
        match add_textual_group(self, &mut document, facet_fields, TextRole::Facet) {
            Ok(_) => {},
            Err(error) => {
                return Err(error);
            },
        }
        Ok(document)
    }
}

} // verus!
