//! The engine's index: storage, the writer, and the reader with its snapshot.

use vstd::prelude::*;
use crate::engine::analysis::analyzer_stages;
use crate::engine::document::document_postings;
use crate::engine::queries::{query_shape, EngineQuery};
use crate::engine::schema::schema_fields;
use crate::model::{runs_on, FieldSpec, QueryView, Stage, WriteOp, MAX_FIELD};
use tantivy::schema::{Field, Schema};
use tantivy::Index as EngineIndex;
use tantivy::tokenizer::TextAnalyzer;
use tantivy::{DocAddress, IndexReader, TantivyDocument, TantivyError};

verus! {

/// The engine's index: a schema over a storage.
#[verifier::external_type_specification]
#[verifier::external_body]
pub struct ExIndex(EngineIndex);

/// The engine's reader, which holds the snapshot that searches run against.
#[verifier::external_type_specification]
#[verifier::external_body]
pub struct ExIndexReader(IndexReader);

/// The engine's error.
#[verifier::external_type_specification]
#[verifier::external_body]
pub struct ExTantivyError(TantivyError);

/// The engine's writer. Its type is generic over a trait of the engine, so it
/// is held here.
#[verifier::external_body]
pub struct Writer {
    inner: tantivy::IndexWriter,
}

/// Where an index lives: the path of its directory, or `None` for an index in
/// memory.
pub uninterp spec fn index_location(index: EngineIndex) -> Option<Seq<char>>;

/// The memory budget in bytes that a writer was opened with.
pub uninterp spec fn writer_budget(writer: Writer) -> usize;

/// The fields of the schema that an index was made with.
pub uninterp spec fn index_schema(index: EngineIndex) -> Seq<FieldSpec>;

/// The fields of the index that a writer writes to.
pub uninterp spec fn writer_schema(writer: Writer) -> Seq<FieldSpec>;

/// The fields of the index that a reader reads.
pub uninterp spec fn reader_schema(reader: IndexReader) -> Seq<FieldSpec>;

/// The pipelines registered on an index through this library, by name.
pub uninterp spec fn registered_tokenizers(index: EngineIndex) -> Map<Seq<char>, Seq<Stage>>;

/// The operations handed to a writer since it was opened or last committed,
/// in the order of the calls.
pub uninterp spec fn staged_ops(writer: Writer) -> Seq<WriteOp>;

/// The number of documents in the snapshot of a reader, those deleted not
/// counted.
pub uninterp spec fn snapshot_size(reader: IndexReader) -> u64;

/// The address of a document in a snapshot: its segment and its number there.
pub type Address = (u32, u32);

/// Whether the snapshot of a reader has a document at an address.
pub uninterp spec fn in_snapshot(reader: IndexReader, address: Address) -> bool;

/// The addresses of the documents of a reader's snapshot that a search for a
/// query returns: at most `limit`, best score first.
pub uninterp spec fn snapshot_hits(reader: IndexReader, query: QueryView, limit: usize) -> Seq<
    Address,
>;

/// The first value of a field that the document at an address of a reader's
/// snapshot has stored, where it is a text.
pub uninterp spec fn snapshot_text(reader: IndexReader, address: Address, field: u32) -> Option<
    Seq<char>,
>;

/// The text that is there, as a sequence of characters.
pub open spec fn text_view(text: Option<String>) -> Option<Seq<char>> {
    match text {
        Some(text) => Some(text@),
        None => None,
    }
}

/// The largest number of hits that the engine can be asked for: it reserves
/// room for twice as many before it searches.
pub open spec fn max_hits() -> int {
    (usize::MAX / 32) as int
}

/// `Index::create_in_ram`: a new index in memory, of the schema's fields.
#[verifier::external_body]
pub(crate) fn create_in_ram(schema: Schema) -> (index: EngineIndex)
    ensures
        index_schema(index) == schema_fields(schema),
        index_location(index) == None::<Seq<char>>,
{
    EngineIndex::create_in_ram(schema)
}

/// `MmapDirectory::open` and `Index::open_or_create`: the index of the
/// directory at the path, made if the directory holds none. An index that is there is
/// opened only if it has the same schema.
#[verifier::external_body]
pub(crate) fn open_or_create(path: &str, schema: Schema) -> (opened: Result<
    EngineIndex,
    TantivyError,
>)
    ensures
        opened is Ok ==> index_schema(opened->Ok_0) == schema_fields(schema),
        opened is Ok ==> index_location(opened->Ok_0) == Some(path@),
{
    let directory = tantivy::directory::MmapDirectory::open(path)?;
    EngineIndex::open_or_create(directory, schema)
}

/// `TokenizerManager::register` on the index's tokenizers: the pipeline stands
/// under the name, in place of an earlier one of that name.
#[verifier::external_body]
pub(crate) fn register_tokenizer(index: &mut EngineIndex, name: &str, analyzer: TextAnalyzer)
    ensures
        registered_tokenizers(*final(index)) == registered_tokenizers(*old(index)).insert(
            name@,
            analyzer_stages(analyzer),
        ),
        index_schema(*final(index)) == index_schema(*old(index)),
        index_location(*final(index)) == index_location(*old(index)),
{
    index.tokenizers().register(name, analyzer);
}

/// `Index::reader_builder` with `ReloadPolicy::Manual`: a reader that moves to
/// a later commit only when told to.
#[verifier::external_body]
pub(crate) fn manual_reader(index: &EngineIndex) -> (reader: Result<IndexReader, TantivyError>)
    ensures
        reader is Ok ==> reader_schema(reader->Ok_0) == index_schema(*index),
{
    index.reader_builder().reload_policy(tantivy::ReloadPolicy::Manual).try_into()
}

/// `Index::writer` with a memory budget in bytes: a writer of that budget, to
/// which nothing has been handed yet.
#[verifier::external_body]
pub(crate) fn open_writer(index: &EngineIndex, budget: usize) -> (opened: Result<
    Writer,
    TantivyError,
>)
    ensures
        opened is Ok ==> staged_ops(opened->Ok_0) == Seq::<WriteOp>::empty(),
        opened is Ok ==> writer_schema(opened->Ok_0) == index_schema(*index),
        opened is Ok ==> writer_budget(opened->Ok_0) == budget,
{
    Ok(Writer { inner: index.writer(budget)? })
}

/// `IndexWriter::delete_term` on the text term of a field. The engine looks
/// the field up in the schema, and panics on a number that the schema lacks.
#[verifier::external_body]
pub(crate) fn stage_delete(writer: &mut Writer, field: u32, text: &str)
    requires
        field < writer_schema(*old(writer)).len(),
    ensures
        staged_ops(*final(writer)) == staged_ops(*old(writer)).push(
            WriteOp::Delete { field, text: text@ },
        ),
        writer_schema(*final(writer)) == writer_schema(*old(writer)),
        writer_budget(*final(writer)) == writer_budget(*old(writer)),
{
    writer.inner.delete_term(tantivy::Term::from_field_text(Field::from_field_id(field), text));
}

/// `IndexWriter::add_document`: on success the document is handed over, on
/// failure nothing is.
#[verifier::external_body]
pub(crate) fn stage_add(writer: &mut Writer, document: TantivyDocument) -> (added: Result<
    (),
    TantivyError,
>)
    ensures
        added is Ok ==> staged_ops(*final(writer)) == staged_ops(*old(writer)).push(
            WriteOp::Add(document_postings(document)),
        ),
        added is Err ==> staged_ops(*final(writer)) == staged_ops(*old(writer)),
        writer_schema(*final(writer)) == writer_schema(*old(writer)),
        writer_budget(*final(writer)) == writer_budget(*old(writer)),
{
    writer.inner.add_document(document).map(|_| ())
}

/// `IndexWriter::commit`: on success nothing is left to commit.
#[verifier::external_body]
pub(crate) fn commit_writer(writer: &mut Writer) -> (committed: Result<(), TantivyError>)
    ensures
        committed is Ok ==> staged_ops(*final(writer)) == Seq::<WriteOp>::empty(),
        writer_schema(*final(writer)) == writer_schema(*old(writer)),
        writer_budget(*final(writer)) == writer_budget(*old(writer)),
{
    writer.inner.commit().map(|_| ())
}

/// `IndexReader::reload`: the reader takes a new snapshot, that of the latest
/// commit, and on failure keeps the one it has. The engine reports a failure
/// as an error.
#[verifier::external_body]
pub(crate) fn reload_reader(reader: &mut IndexReader) -> (reloaded: Result<(), TantivyError>)
    ensures
        reader_schema(*final(reader)) == reader_schema(*old(reader)),
        reloaded is Err ==> *final(reader) == *old(reader),
    no_unwind
{
    reader.reload()
}

/// `IndexReader::searcher`, then `Searcher::num_docs`: the number of documents
/// in the reader's snapshot.
#[verifier::external_body]
pub(crate) fn count_documents(reader: &IndexReader) -> (count: u64)
    ensures
        count == snapshot_size(*reader),
{
    reader.searcher().num_docs()
}

/// `IndexReader::searcher`, then `Searcher::search` with `TopDocs::with_limit`:
/// the hits of the reader's snapshot, at most `limit`, best score first.
/// The collector panics on a limit of zero, and the engine on a query that
/// names a field which the schema lacks or asks a range of a field of another
/// type than its bounds.
#[verifier::external_body]
pub(crate) fn top_docs(reader: &IndexReader, query: &EngineQuery, limit: usize) -> (found: Result<
    Vec<Address>,
    TantivyError,
>)
    requires
        1 <= limit <= max_hits(),
        runs_on(query_shape(*query), reader_schema(*reader)),
    ensures
        found is Ok ==> found->Ok_0@ == snapshot_hits(*reader, query_shape(*query), limit),
        found is Ok ==> found->Ok_0@.len() <= limit,
        found is Ok ==> forall|i: int|
            0 <= i < found->Ok_0@.len() ==> in_snapshot(*reader, #[trigger] found->Ok_0@[i]),
{
    let collector = tantivy::collector::TopDocs::with_limit(limit);
    let hits = reader.searcher().search(&*query.inner, &collector)?;
    Ok(hits.into_iter().map(|hit| (hit.1.segment_ord, hit.1.doc_id)).collect())
}

/// `IndexReader::searcher`, then `Searcher::doc`, `TantivyDocument::get_first`
/// and `Value::as_str`: the first value of a field in the document stored at
/// an address of the reader's snapshot, where it is a text.
#[verifier::external_body]
pub(crate) fn stored_text(reader: &IndexReader, address: Address, field: u32) -> (text: Result<
    Option<String>,
    TantivyError,
>)
    requires
        in_snapshot(*reader, address),
        field <= MAX_FIELD,
    ensures
        text is Ok ==> text_view(text->Ok_0) == snapshot_text(*reader, address, field),
{
    let address = DocAddress::new(address.0, address.1);
    let document: TantivyDocument = reader.searcher().doc(address)?;
    let value = document.get_first(Field::from_field_id(field));
    Ok(value.and_then(|value| tantivy::schema::Value::as_str(&value).map(String::from)))
}

} // verus!
