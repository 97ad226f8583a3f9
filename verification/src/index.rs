//! The index: its schema, its storage, at most one writer and a reader that
//! moves to a later commit only on `reload`.

use vstd::prelude::*;
use crate::engine::schema::{
    clone_schema, count_fields, field_value_type, get_field, schema_fields,
};
use crate::document::{
    lemma_document_has_one_id, mapped_document, named_codes, named_integers, named_texts,
    DocumentInput,
};
use crate::engine::document::document_postings;
use crate::engine::storage::{
    commit_writer, count_documents, create_in_ram, in_snapshot, index_location, index_schema, manual_reader,
    max_hits, open_or_create, open_writer, reader_schema, register_tokenizer,
    registered_tokenizers, reload_reader, snapshot_hits, snapshot_size, snapshot_text, stage_add,
    stage_delete,
    staged_ops, stored_text, text_view, top_docs, writer_budget, writer_schema, Address, Writer,
};
use crate::helpers::{hash_to_multivalue_map, keys_distinct, MultiValue};
use crate::error::Error;
use crate::model::{
    field_bound, field_number, lemma_field_number, lemma_needs_below_bound, needs_met,
    range_needs, runs_on, stored_string_field, value_type_of, FieldSpec, Posting, QueryView,
    ReaderState, Stage, ValueType, WriteOp, MAX_FIELD,
};
use crate::query::Query;
use crate::staging::{delete_op, has_one_id, upsert_ops, ID_FIELD};
use crate::schema::{
    acceptable, default_name, define_schema, id_name, lemma_layout_buildable, schema_layout,
    tokenizer_names,
};
use crate::tokenizer::{texts_view, Tokenizer};
use tantivy::schema::Schema;
use tantivy::Index as EngineIndex;
use tantivy::{IndexReader, TantivyDocument};

verus! {

/// The pipeline that the last registration under a name stands for.
pub open spec fn bound_stages(entries: Seq<(Seq<char>, Seq<Stage>)>, name: Seq<char>) -> Option<
    Seq<Stage>,
>
    decreases entries.len(),
{
    if entries.len() == 0 {
        None
    } else if entries.last().0 == name {
        Some(entries.last().1)
    } else {
        bound_stages(entries.drop_last(), name)
    }
}

/// The registrations of an index, in order: the default tokenizer under
/// `default`, then each field tokenizer under its field's name.
pub open spec fn registrations(
    default_tokenizer: Seq<Stage>,
    field_tokenizers: Seq<(String, Tokenizer)>,
) -> Seq<(Seq<char>, Seq<Stage>)> {
    seq![(default_name(), default_tokenizer)] + field_tokenizers.map_values(
        |entry: (String, Tokenizer)| (entry.0@, entry.1@),
    )
}

/// Whether every registered name stands for the pipeline of its last
/// registration.
pub open spec fn holds_registrations(
    tokenizers: Map<Seq<char>, Seq<Stage>>,
    entries: Seq<(Seq<char>, Seq<Stage>)>,
) -> bool {
    forall|name: Seq<char>|
        (#[trigger] bound_stages(entries, name)) is Some ==> tokenizers.contains_key(name)
            && tokenizers[name] == bound_stages(entries, name)->Some_0
}

/// Whether the fields are those of an index: acceptable to a schema, and the
/// stored `id` string first.
pub open spec fn index_fields(fields: Seq<FieldSpec>) -> bool {
    &&& acceptable(fields)
    &&& fields.len() > 0
    &&& fields[0] == stored_string_field(id_name())
}

/// Where a caller asks for an index: the path given, or `None` for memory.
pub open spec fn path_view(path: Option<String>) -> Option<Seq<char>> {
    match path {
        Some(location) => Some(location@),
        None => None,
    }
}

/// A memory budget that fits the machine's address range.
pub open spec fn budget_in_range(overall_memory: i64) -> bool {
    0 <= overall_memory <= usize::MAX
}

/// The operations handed to the writer of a slot and not yet committed.
pub open spec fn staged_in(slot: Option<Writer>) -> Seq<WriteOp> {
    match slot {
        Some(writer) => staged_ops(writer),
        None => Seq::empty(),
    }
}

/// Whether the writer of a slot, if there is one, writes to an index of these
/// fields.
pub open spec fn slot_fits(slot: Option<Writer>, fields: Seq<FieldSpec>) -> bool {
    match slot {
        Some(writer) => writer_schema(writer) == fields,
        None => true,
    }
}

/// The memory budget of the writer of a slot.
pub open spec fn slot_budget(slot: Option<Writer>) -> Option<usize> {
    match slot {
        Some(writer) => Some(writer_budget(writer)),
        None => None,
    }
}

/// The fields of the index that the writer of a slot writes to.
pub open spec fn slot_schema(slot: Option<Writer>) -> Option<Seq<FieldSpec>> {
    match slot {
        Some(writer) => Some(writer_schema(writer)),
        None => None,
    }
}

fn commit_slot(slot: &mut Option<Writer>) -> (committed: Result<(), Error>)
    ensures
        slot_schema(*final(slot)) == slot_schema(*old(slot)),
        slot_budget(*final(slot)) == slot_budget(*old(slot)),
        *old(slot) is None ==> committed == Err::<(), Error>(Error::NoWriterAvailable) && *final(slot)
            == *old(slot),
        *old(slot) is Some ==> match committed {
            Ok(_) => staged_in(*final(slot)) == Seq::<WriteOp>::empty(),
            Err(error) => error == Error::StorageFailure,
        },
{
    match slot {
        None => Err(Error::NoWriterAvailable),
        Some(writer) => match commit_writer(writer) {
            Ok(_) => Ok(()),
            Err(_) => Err(Error::StorageFailure),
        },
    }
}

fn delete_in_slot(slot: &mut Option<Writer>, field: u32, id: &str) -> (deleted: Result<(), Error>)
    requires
        *old(slot) is Some ==> field < slot_schema(*old(slot))->Some_0.len(),
    ensures
        slot_schema(*final(slot)) == slot_schema(*old(slot)),
        slot_budget(*final(slot)) == slot_budget(*old(slot)),
        *old(slot) is None ==> deleted == Err::<(), Error>(Error::NoWriterAvailable) && *final(slot)
            == *old(slot),
        *old(slot) is Some ==> deleted is Ok && staged_in(*final(slot)) == staged_in(
            *old(slot),
        ).push(WriteOp::Delete { field, text: id@ }),
{
    match slot {
        None => Err(Error::NoWriterAvailable),
        Some(writer) => {
            stage_delete(writer, field, id);
            Ok(())
        },
    }
}

fn upsert_in_slot(
    slot: &mut Option<Writer>,
    field: u32,
    id: &str,
    document: TantivyDocument,
) -> (added: Result<(), Error>)
    requires
        *old(slot) is Some,
        field < slot_schema(*old(slot))->Some_0.len(),
    ensures
        slot_schema(*final(slot)) == slot_schema(*old(slot)),
        slot_budget(*final(slot)) == slot_budget(*old(slot)),
        match added {
            Ok(_) => staged_in(*final(slot)) == staged_in(*old(slot)).push(
                WriteOp::Delete { field, text: id@ },
            ).push(WriteOp::Add(document_postings(document))),
            Err(error) => error == Error::StorageFailure && staged_in(*final(slot)) == staged_in(
                *old(slot),
            ).push(WriteOp::Delete { field, text: id@ }),
        },
{
    match slot {
        None => vstd::pervasive::unreached(),
        Some(writer) => {
            stage_delete(writer, field, id);
            match stage_add(writer, document) {
                Ok(_) => Ok(()),
                Err(_) => Err(Error::StorageFailure),
            }
        },
    }
}

/// The names and texts of a group of fields whose input is one value or several.
pub open spec fn multi_texts(entries: Seq<(String, MultiValue<String>)>) -> Seq<
    (Seq<char>, Seq<Seq<char>>),
> {
    entries.map_values(
        |entry: (String, MultiValue<String>)| (entry.0@, texts_view(entry.1.values())),
    )
}

/// The names and integers of a group of fields whose input is one value or several.
pub open spec fn multi_integers(entries: Seq<(String, MultiValue<i64>)>) -> Seq<
    (Seq<char>, Seq<i64>),
> {
    entries.map_values(|entry: (String, MultiValue<i64>)| (entry.0@, entry.1.values()))
}

/// The names and codes of a group of fields whose input is one value or several.
pub open spec fn multi_codes(entries: Seq<(String, MultiValue<u64>)>) -> Seq<
    (Seq<char>, Seq<u64>),
> {
    entries.map_values(|entry: (String, MultiValue<u64>)| (entry.0@, entry.1.values()))
}

/// The postings of a document as a caller submits it: each group has to be a
/// mapping, and then the mapper decides.
pub open spec fn submitted_document(
    fields: Seq<FieldSpec>,
    id: Seq<char>,
    text_fields: Seq<(String, MultiValue<String>)>,
    string_fields: Seq<(String, MultiValue<String>)>,
    integer_fields: Seq<(String, MultiValue<i64>)>,
    double_fields: Seq<(String, MultiValue<u64>)>,
    date_fields: Seq<(String, MultiValue<String>)>,
    facet_fields: Seq<(String, MultiValue<String>)>,
) -> Result<Seq<Posting>, Error> {
    if keys_distinct(text_fields) && keys_distinct(string_fields) && keys_distinct(integer_fields)
        && keys_distinct(double_fields) && keys_distinct(date_fields) && keys_distinct(
        facet_fields,
    ) {
        mapped_document(
            fields,
            DocumentInput {
                id,
                text: multi_texts(text_fields),
                string: multi_texts(string_fields),
                integer: multi_integers(integer_fields),
                double: multi_codes(double_fields),
                date: multi_texts(date_fields),
                facet: multi_texts(facet_fields),
            },
        )
    } else {
        Err(Error::ConversionFailure)
    }
}

/// The texts that are there, in order.
pub open spec fn present(found: Seq<Option<String>>) -> Seq<String>
    decreases found.len(),
{
    if found.len() == 0 {
        Seq::empty()
    } else {
        match found.last() {
            Some(text) => present(found.drop_last()).push(text),
            None => present(found.drop_last()),
        }
    }
}

/// There are at most as many texts as there are places for one.
pub proof fn lemma_present_len(found: Seq<Option<String>>)
    ensures
        present(found).len() <= found.len(),
    decreases found.len(),
{
    if found.len() > 0 {
        lemma_present_len(found.drop_last());
    }
}

/// Keeps the texts that are there, in order, and skips the places without one.
pub fn present_texts(found: &Vec<Option<String>>) -> (texts: Vec<String>)
    ensures
        texts@ == present(found@),
{
    let mut texts: Vec<String> = Vec::new();
    let mut i: usize = 0;
    proof {
        assert(found@.take(0) =~= Seq::<Option<String>>::empty());
    }
    while i < found.len()
        invariant
            i <= found.len(),
            texts@ == present(found@.take(i as int)),
        decreases found.len() - i,
    {
        proof {
            assert(found@.take(i + 1).drop_last() =~= found@.take(i as int));
        }
        match &found[i] {
            Some(text) => {
                texts.push(text.clone());
            },
            None => {},
        }
        i += 1;
    }
    proof {
        assert(found@.take(found@.len() as int) =~= found@);
    }
    texts
}

/// The `id` of the documents at the addresses, in order; a document that has
/// no text stored as its `id` is passed over.
pub open spec fn ids_at(reader: IndexReader, hits: Seq<Address>) -> Seq<Seq<char>>
    decreases hits.len(),
{
    if hits.len() == 0 {
        Seq::empty()
    } else {
        match snapshot_text(reader, hits.last(), ID_FIELD) {
            Some(id) => ids_at(reader, hits.drop_last()).push(id),
            None => ids_at(reader, hits.drop_last()),
        }
    }
}

/// What a search returns for a query on a reader's snapshot: the `id` of each
/// of the snapshot's hits, best score first.
pub open spec fn found_in(reader: IndexReader, query: QueryView, limit: i64) -> Seq<Seq<char>> {
    if asked_of(reader, limit) == 0 {
        Seq::empty()
    } else {
        ids_at(reader, snapshot_hits(reader, query, asked_of(reader, limit)))
    }
}

/// The number of hits that a search asks of the engine: the limit, but no
/// more than the snapshot has documents, nor than the engine can reserve room
/// for.
pub open spec fn asked_of(reader: IndexReader, limit: i64) -> usize {
    if limit <= 0 {
        0
    } else {
        let least = if limit <= snapshot_size(reader) {
            limit as int
        } else {
            snapshot_size(reader) as int
        };
        if least <= max_hits() {
            least as usize
        } else {
            max_hits() as usize
        }
    }
}

proof fn lemma_present_ids(reader: IndexReader, hits: Seq<Address>, found: Seq<Option<String>>)
    requires
        found.len() == hits.len(),
        forall|k: int|
            0 <= k < hits.len() ==> text_view(#[trigger] found[k]) == snapshot_text(
                reader,
                hits[k],
                ID_FIELD,
            ),
    ensures
        texts_view(present(found)) == ids_at(reader, hits),
    decreases hits.len(),
{
    if hits.len() > 0 {
        lemma_present_ids(reader, hits.drop_last(), found.drop_last());
        assert(text_view(found.last()) == snapshot_text(reader, hits.last(), ID_FIELD));
        let earlier = present(found.drop_last());
        match found.last() {
            Some(text) => {
                assert(texts_view(earlier.push(text)) =~= texts_view(earlier).push(text@));
            },
            None => {},
        }
    } else {
        assert(texts_view(present(found)) =~= Seq::<Seq<char>>::empty());
    }
}

/// A limit that a search can be asked with: one that is not below zero.
pub open spec fn limit_in_range(limit: i64) -> bool {
    0 <= limit
}

/// An index over the engine's storage.
pub struct Index {
    schema: Schema,
    index: EngineIndex,
    index_writer: Option<Writer>,
    index_reader: IndexReader,
    reader_state: ReaderState,
}

impl Index {
    #[verifier::type_invariant]
    spec fn well_formed(&self) -> bool {
        &&& index_fields(schema_fields(self.schema))
        &&& index_schema(self.index) == schema_fields(self.schema)
        &&& reader_schema(self.index_reader) == schema_fields(self.schema)
        &&& slot_fits(self.index_writer, schema_fields(self.schema))
    }

    /// The fields of the index's schema, in the order of their numbers.
    pub closed spec fn fields(&self) -> Seq<FieldSpec> {
        schema_fields(self.schema)
    }

    /// Whether a writer is active.
    pub closed spec fn has_writer(&self) -> bool {
        self.index_writer is Some
    }

    /// The operations handed to the active writer and not yet committed.
    pub closed spec fn staged(&self) -> Seq<WriteOp> {
        staged_in(self.index_writer)
    }

    /// The pipelines registered on the index, by name.
    pub closed spec fn tokenizers(&self) -> Map<Seq<char>, Seq<Stage>> {
        registered_tokenizers(self.index)
    }

    /// Where the index lives: the path of its directory, or `None` for an
    /// index in memory.
    pub closed spec fn location(&self) -> Option<Seq<char>> {
        index_location(self.index)
    }

    /// The memory budget in bytes of the active writer, if there is one.
    pub closed spec fn writer_budget(&self) -> Option<usize> {
        slot_budget(self.index_writer)
    }

    /// Without a writer nothing is staged, and there is no budget.
    pub proof fn lemma_no_writer_nothing_staged(self)
        requires
            !self.has_writer(),
        ensures
            self.staged() == Seq::<WriteOp>::empty(),
            self.writer_budget() == None::<usize>,
    {
    }

    /// The reader, whose snapshot searches run against.
    pub closed spec fn reader(&self) -> IndexReader {
        self.index_reader
    }

    /// What a search for a query returns where the engine does not fail.
    pub open spec fn visible(&self, query: QueryView, limit: i64) -> Seq<Seq<char>> {
        found_in(self.reader(), query, limit)
    }

    /// Whether the reader has been reloaded since the last commit.
    pub closed spec fn snapshot_state(&self) -> ReaderState {
        self.reader_state
    }

    /// Whether a writer is active.
    pub fn writer_active(&self) -> (active: bool)
        ensures
            active == self.has_writer(),
    {
        self.index_writer.is_some()
    }

    /// Whether the reader has been reloaded since the last commit: a stale
    /// reader shows searches the snapshot of an earlier reload.
    pub fn reader_state(&self) -> (state: ReaderState)
        ensures
            state == self.snapshot_state(),
    {
        self.reader_state
    }

    /// The schema of the index.
    pub fn schema(&self) -> (schema: &Schema)
        ensures
            schema_fields(*schema) == self.fields(),
    {
        &self.schema
    }

    /// The number of the field of a name, or `None` where the schema has no
    /// such field.
    pub fn field(&self, name: &str) -> (found: Option<u32>)
        ensures
            found == field_number(self.fields(), name@),
            found is Some ==> found->Some_0 < self.fields().len(),
            found is Some ==> self.fields()[found->Some_0 as int].name == name@,
            found is Some ==> found->Some_0 <= MAX_FIELD,
    {
        proof {
            use_type_invariant(self);
        }
        let found = get_field(&self.schema, name);
        proof {
            if let Some(field) = found {
                lemma_field_number(schema_fields(self.schema), field as int);
            }
        }
        found
    }

    /// The type of value of a field of the schema, or `None` for a number
    /// that the schema lacks.
    pub fn value_type(&self, field: u32) -> (value_type: Option<ValueType>)
        ensures
            value_type == if field < self.fields().len() {
                Some(value_type_of(self.fields()[field as int].kind))
            } else {
                None
            },
    {
        if field as usize >= count_fields(&self.schema) {
            return None;
        }
        Some(field_value_type(&self.schema, field))
    }

    /// Opens the index of a directory, or makes one there, or makes one in
    /// memory where no path is given. The schema is defined from the field
    /// lists; the default tokenizer is registered under `default` and each
    /// field tokenizer under its field's name. The reader is manual. Field
    /// names that no schema can hold are refused; whether the storage opens is
    /// up to the engine.
    pub fn new(
        path: Option<String>,
        default_tokenizer: &Tokenizer,
        field_tokenizers: &Vec<(String, Tokenizer)>,
        text_fields: Vec<String>,
        string_fields: Vec<String>,
        integer_fields: Vec<String>,
        double_fields: Vec<String>,
        date_fields: Vec<String>,
        facet_fields: Vec<String>,
    ) -> (opened: Result<Index, Error>)
        ensures
            ({
                let layout = schema_layout(
                    tokenizer_names(field_tokenizers@),
                    texts_view(text_fields@),
                    texts_view(string_fields@),
                    texts_view(integer_fields@),
                    texts_view(double_fields@),
                    texts_view(date_fields@),
                    texts_view(facet_fields@),
                );
                match opened {
                    Ok(index) => {
                        &&& acceptable(layout)
                        &&& index.fields() == layout
                        &&& index.location() == path_view(path)
                        &&& !index.has_writer()
                        &&& index.staged() == Seq::<WriteOp>::empty()
                        &&& index.writer_budget() == None::<usize>
                        &&& index.snapshot_state() == ReaderState::Stale
                        &&& holds_registrations(
                            index.tokenizers(),
                            registrations(default_tokenizer@, field_tokenizers@),
                        )
                    },
                    Err(error) => if acceptable(layout) {
                        error == Error::StorageFailure
                    } else {
                        error == Error::ConversionFailure
                    },
                }
            }),
    {
        let schema = match define_schema(
            field_tokenizers,
            &text_fields,
            &string_fields,
            &integer_fields,
            &double_fields,
            &date_fields,
            &facet_fields,
        ) {
            Ok(schema) => schema,
            Err(error) => {
                return Err(error);
            },
        };
        proof {
            lemma_layout_buildable(
                tokenizer_names(field_tokenizers@),
                texts_view(text_fields@),
                texts_view(string_fields@),
                texts_view(integer_fields@),
                texts_view(double_fields@),
                texts_view(date_fields@),
                texts_view(facet_fields@),
            );
        }
        let ghost place = path_view(path);
        let opened = match path {
            Some(location) => open_or_create(location.as_str(), clone_schema(&schema)),
            None => Ok(create_in_ram(clone_schema(&schema))),
        };
        let mut index = match opened {
            Ok(index) => index,
            Err(_) => {
                return Err(Error::StorageFailure);
            },
        };
        let ghost entries = registrations(default_tokenizer@, field_tokenizers@);
        register_tokenizer(&mut index, "default", default_tokenizer.get_analyzer());
        proof {
            assert forall|name: Seq<char>|
                (#[trigger] bound_stages(entries.take(1), name)) is Some implies registered_tokenizers(
                index,
            ).contains_key(name) && registered_tokenizers(index)[name] == bound_stages(
                entries.take(1),
                name,
            )->Some_0 by {
                reveal_with_fuel(bound_stages, 2);
            }
        }
        let mut i: usize = 0;
        while i < field_tokenizers.len()
            invariant
                i <= field_tokenizers.len(),
                entries == registrations(default_tokenizer@, field_tokenizers@),
                holds_registrations(registered_tokenizers(index), entries.take(i + 1)),
                index_schema(index) == schema_fields(schema),
                index_location(index) == place,
            decreases field_tokenizers.len() - i,
        {
            let name = field_tokenizers[i].0.as_str();
            let analyzer = field_tokenizers[i].1.get_analyzer();
            register_tokenizer(&mut index, name, analyzer);
            proof {
                let grown = entries.take(i + 2);
                assert(grown.drop_last() =~= entries.take(i + 1));
                assert forall|other: Seq<char>|
                    (#[trigger] bound_stages(grown, other)) is Some implies registered_tokenizers(
                    index,
                ).contains_key(other) && registered_tokenizers(index)[other] == bound_stages(
                    grown,
                    other,
                )->Some_0 by {
                    if other != name@ {
                        assert(bound_stages(grown, other) == bound_stages(entries.take(i + 1), other));
                    }
                }
            }
            i += 1;
        }
        proof {
            assert(entries.take(field_tokenizers@.len() as int + 1) =~= entries);
        }
        let index_reader = match manual_reader(&index) {
            Ok(reader) => reader,
            Err(_) => {
                return Err(Error::StorageFailure);
            },
        };
        Ok(
            Index {
                schema,
                index,
                index_writer: None,
                index_reader,
                reader_state: ReaderState::Stale,
            },
        )
    }

    /// Opens a writer with the given memory budget in bytes. A second writer
    /// is refused while one is active, and so is a budget outside the
    /// machine's address range; whether the writer opens is then up to the
    /// engine. A refusal and a failure leave the index as it was.
    pub fn acquire_index_writer(&mut self, overall_memory: i64) -> (acquired: Result<(), Error>)
        ensures
            final(self).fields() == old(self).fields(),
            final(self).tokenizers() == old(self).tokenizers(),
            final(self).location() == old(self).location(),
            final(self).snapshot_state() == old(self).snapshot_state(),
            final(self).reader() == old(self).reader(),
            old(self).has_writer() ==> acquired == Err::<(), Error>(Error::WriterAlreadyActive)
                && *final(self) == *old(self),
            !old(self).has_writer() && !budget_in_range(overall_memory) ==> acquired == Err::<
                (),
                Error,
            >(Error::ConversionFailure) && *final(self) == *old(self),
            !old(self).has_writer() && budget_in_range(overall_memory) ==> match acquired {
                Ok(_) => {
                    &&& final(self).has_writer()
                    &&& final(self).staged() == Seq::<WriteOp>::empty()
                    &&& final(self).writer_budget() == Some(overall_memory as usize)
                },
                Err(error) => error == Error::StorageFailure && *final(self) == *old(self),
            },
    {
        if self.index_writer.is_some() {
            return Err(Error::WriterAlreadyActive);
        }
        if overall_memory < 0 || overall_memory as u64 > usize::MAX as u64 {
            return Err(Error::ConversionFailure);
        }
        match open_writer(&self.index, overall_memory as usize) {
            Ok(writer) => {
                proof {
                    use_type_invariant(&*self);
                }
                self.index_writer = Some(writer);
                Ok(())
            },
            Err(_) => Err(Error::StorageFailure),
        }
    }

    /// Gives up the writer, and with it whatever was not committed.
    pub fn release_index_writer(&mut self) -> (released: Result<(), Error>)
        ensures
            final(self).fields() == old(self).fields(),
            final(self).tokenizers() == old(self).tokenizers(),
            final(self).location() == old(self).location(),
            final(self).snapshot_state() == old(self).snapshot_state(),
            final(self).reader() == old(self).reader(),
            !final(self).has_writer(),
            final(self).staged() == Seq::<WriteOp>::empty(),
            final(self).writer_budget() == None::<usize>,
            released is Ok <==> old(self).has_writer(),
            released is Err ==> released->Err_0 == Error::NoWriterAvailable && *final(self) == *old(
                self,
            ),
    {
        if self.index_writer.is_none() {
            return Err(Error::NoWriterAvailable);
        }
        proof {
            use_type_invariant(&*self);
        }
        self.index_writer = None;
        Ok(())
    }

    /// Commits what was handed to the writer as one unit. The writer stays.
    /// The reader is not touched and is stale from then on: searches see the
    /// commit only after a `reload`.
    pub fn commit(&mut self) -> (committed: Result<(), Error>)
        ensures
            final(self).fields() == old(self).fields(),
            final(self).tokenizers() == old(self).tokenizers(),
            final(self).location() == old(self).location(),
            final(self).writer_budget() == old(self).writer_budget(),
            final(self).has_writer() == old(self).has_writer(),
            final(self).reader() == old(self).reader(),
            !old(self).has_writer() ==> committed == Err::<(), Error>(Error::NoWriterAvailable)
                && *final(self) == *old(self),
            old(self).has_writer() ==> match committed {
                Ok(_) => {
                    &&& final(self).staged() == Seq::<WriteOp>::empty()
                    &&& final(self).snapshot_state() == ReaderState::Stale
                },
                Err(error) => {
                    &&& error == Error::StorageFailure
                    &&& final(self).snapshot_state() == old(self).snapshot_state()
                },
            },
    {
        proof {
            use_type_invariant(&*self);
        }
        let mut slot: Option<Writer> = None;
        std::mem::swap(&mut self.index_writer, &mut slot);
        let committed = commit_slot(&mut slot);
        std::mem::swap(&mut self.index_writer, &mut slot);
        if committed.is_ok() {
            self.reader_state = ReaderState::Stale;
        }
        committed
    }

    /// Moves the reader to the latest commit, which makes it fresh; until then
    /// searches see the snapshot of the reload before. Whether it succeeds is
    /// up to the engine. The writer and what it holds are not touched.
    pub fn reload(&mut self) -> (reloaded: Result<(), Error>)
        ensures
            final(self).fields() == old(self).fields(),
            final(self).tokenizers() == old(self).tokenizers(),
            final(self).location() == old(self).location(),
            final(self).writer_budget() == old(self).writer_budget(),
            final(self).has_writer() == old(self).has_writer(),
            final(self).staged() == old(self).staged(),
            match reloaded {
                Ok(_) => final(self).snapshot_state() == ReaderState::Fresh,
                Err(error) => error == Error::StorageFailure && *final(self) == *old(self),
            },
    {
        proof {
            use_type_invariant(&*self);
        }
        match reload_reader(&mut self.index_reader) {
            Ok(_) => {
                self.reader_state = ReaderState::Fresh;
                Ok(())
            },
            Err(_) => Err(Error::StorageFailure),
        }
    }

    /// Hands the writer the deletion of every document with this `id`. The
    /// document need not exist.
    pub fn delete_document(&mut self, id: String) -> (deleted: Result<(), Error>)
        ensures
            final(self).fields() == old(self).fields(),
            final(self).tokenizers() == old(self).tokenizers(),
            final(self).location() == old(self).location(),
            final(self).writer_budget() == old(self).writer_budget(),
            final(self).snapshot_state() == old(self).snapshot_state(),
            final(self).reader() == old(self).reader(),
            final(self).has_writer() == old(self).has_writer(),
            !old(self).has_writer() ==> deleted == Err::<(), Error>(Error::NoWriterAvailable)
                && *final(self) == *old(self),
            old(self).has_writer() ==> deleted is Ok && final(self).staged() == old(
                self,
            ).staged().push(delete_op(id@)),
    {
        proof {
            use_type_invariant(&*self);
        }
        let id_field = match get_field(&self.schema, "id") {
            Some(field) => field,
            None => {
                proof {
                    assert(schema_fields(self.schema)[0].name == "id"@);
                }
                vstd::pervasive::unreached()
            },
        };
        proof {
            lemma_field_number(schema_fields(self.schema), 0);
            lemma_field_number(schema_fields(self.schema), id_field as int);
        }
        let mut slot: Option<Writer> = None;
        std::mem::swap(&mut self.index_writer, &mut slot);
        let deleted = delete_in_slot(&mut slot, id_field, id.as_str());
        std::mem::swap(&mut self.index_writer, &mut slot);
        deleted
    }

    /// Maps the input to a document and hands the writer first the deletion of
    /// every document with this `id`, then the document: an upsert by `id`.
    /// Input that is no mapping, and input that the mapper refuses, leaves the
    /// writer as it was.
    pub fn add_document(
        &mut self,
        id: String,
        text_fields: Vec<(String, MultiValue<String>)>,
        string_fields: Vec<(String, MultiValue<String>)>,
        integer_fields: Vec<(String, MultiValue<i64>)>,
        double_fields: Vec<(String, MultiValue<u64>)>,
        date_fields: Vec<(String, MultiValue<String>)>,
        facet_fields: Vec<(String, MultiValue<String>)>,
    ) -> (added: Result<(), Error>)
        ensures
            final(self).fields() == old(self).fields(),
            final(self).tokenizers() == old(self).tokenizers(),
            final(self).location() == old(self).location(),
            final(self).writer_budget() == old(self).writer_budget(),
            final(self).snapshot_state() == old(self).snapshot_state(),
            final(self).reader() == old(self).reader(),
            final(self).has_writer() == old(self).has_writer(),
            !old(self).has_writer() ==> added == Err::<(), Error>(Error::NoWriterAvailable)
                && *final(self) == *old(self),
            old(self).has_writer() ==> match submitted_document(
                old(self).fields(),
                id@,
                text_fields@,
                string_fields@,
                integer_fields@,
                double_fields@,
                date_fields@,
                facet_fields@,
            ) {
                Err(error) => added == Err::<(), Error>(error) && *final(self) == *old(self),
                Ok(postings) => has_one_id(postings, id@) && match added {
                    Ok(_) => final(self).staged() == old(self).staged() + upsert_ops(
                        id@,
                        postings,
                    ),
                    Err(error) => error == Error::StorageFailure && final(self).staged() == old(
                        self,
                    ).staged().push(delete_op(id@)),
                },
            },
    {
        proof {
            use_type_invariant(&*self);
        }
        if self.index_writer.is_none() {
            return Err(Error::NoWriterAvailable);
        }
        let ghost given = DocumentInput {
            id: id@,
            text: multi_texts(text_fields@),
            string: multi_texts(string_fields@),
            integer: multi_integers(integer_fields@),
            double: multi_codes(double_fields@),
            date: multi_texts(date_fields@),
            facet: multi_texts(facet_fields@),
        };
        let text_map = match hash_to_multivalue_map(text_fields) {
            Ok(map) => map,
            Err(error) => {
                return Err(error);
            },
        };
        let string_map = match hash_to_multivalue_map(string_fields) {
            Ok(map) => map,
            Err(error) => {
                return Err(error);
            },
        };
        let integer_map = match hash_to_multivalue_map(integer_fields) {
            Ok(map) => map,
            Err(error) => {
                return Err(error);
            },
        };
        let double_map = match hash_to_multivalue_map(double_fields) {
            Ok(map) => map,
            Err(error) => {
                return Err(error);
            },
        };
        let date_map = match hash_to_multivalue_map(date_fields) {
            Ok(map) => map,
            Err(error) => {
                return Err(error);
            },
        };
        let facet_map = match hash_to_multivalue_map(facet_fields) {
            Ok(map) => map,
            Err(error) => {
                return Err(error);
            },
        };
        proof {
            assert(named_texts(text_map@) =~= given.text);
            assert(named_texts(string_map@) =~= given.string);
            assert(named_integers(integer_map@) =~= given.integer);
            assert(named_codes(double_map@) =~= given.double);
            assert(named_texts(date_map@) =~= given.date);
            assert(named_texts(facet_map@) =~= given.facet);
        }
        let document = match self.map_document(
            id.as_str(),
            &text_map,
            &string_map,
            &integer_map,
            &double_map,
            &date_map,
            &facet_map,
        ) {
            Ok(document) => document,
            Err(error) => {
                return Err(error);
            },
        };
        let id_field = match get_field(&self.schema, "id") {
            Some(field) => field,
            None => {
                proof {
                    assert(schema_fields(self.schema)[0].name == "id"@);
                }
                vstd::pervasive::unreached()
            },
        };
        proof {
            lemma_field_number(schema_fields(self.schema), 0);
            lemma_field_number(schema_fields(self.schema), id_field as int);
            lemma_document_has_one_id(schema_fields(self.schema), given);
            assert(old(self).staged().push(delete_op(id@)).push(
                WriteOp::Add(document_postings(document)),
            ) =~= old(self).staged() + upsert_ops(id@, document_postings(document)));
        }
        let mut slot: Option<Writer> = None;
        std::mem::swap(&mut self.index_writer, &mut slot);
        let added = upsert_in_slot(&mut slot, id_field, id.as_str(), document);
        std::mem::swap(&mut self.index_writer, &mut slot);
        added
    }

    /// Runs a query against the reader's snapshot and returns the `id` of up
    /// to `limit` matching documents, best score first. A negative limit is
    /// refused. So is a query made for another schema: one that names a field
    /// which this schema lacks, or that asks a range of a field of another
    /// type than its bounds. A limit of zero finds nothing. The engine is
    /// asked for no more hits than the snapshot has documents. The ids are
    /// those of the hits of the reader's snapshot, in the engine's order;
    /// what matches is up to the engine.
    pub fn search(&self, query: &Query, limit: i64) -> (found: Result<Vec<String>, Error>)
        ensures
            !limit_in_range(limit) ==> found is Err && found->Err_0 == Error::ConversionFailure,
            limit_in_range(limit) && field_bound(query@) > self.fields().len() ==> found is Err
                && found->Err_0 == Error::FieldNotFound,
            limit_in_range(limit) && field_bound(query@) <= self.fields().len() && !runs_on(
                query@,
                self.fields(),
            ) ==> found is Err && found->Err_0 == Error::UnsupportedRangeField,
            limit_in_range(limit) && runs_on(query@, self.fields()) ==> match found {
                Ok(ids) => texts_view(ids@) == self.visible(query@, limit) && ids@.len() <= limit,
                Err(error) => limit > 0 && error == Error::StorageFailure,
            },
    {
        proof {
            use_type_invariant(self);
        }
        if limit < 0 {
            return Err(Error::ConversionFailure);
        }
        if query.field_bound() as usize > count_fields(&self.schema) {
            return Err(Error::FieldNotFound);
        }
        let needs = query.range_needs();
        let mut k: usize = 0;
        while k < needs.len()
            invariant
                k <= needs.len(),
                needs@ == range_needs(query@),
                field_bound(query@) <= schema_fields(self.schema).len(),
                limit_in_range(limit),
                needs_met(needs@.take(k as int), schema_fields(self.schema)),
            decreases needs.len() - k,
        {
            let need = needs[k];
            proof {
                lemma_needs_below_bound(query@);
            }
            if field_value_type(&self.schema, need.0) != need.1 {
                return Err(Error::UnsupportedRangeField);
            }
            proof {
                let met = needs@.take(k as int);
                let more = needs@.take(k + 1);
                assert forall|i: int| 0 <= i < more.len() implies (#[trigger] more[i]).0
                    < schema_fields(self.schema).len() && value_type_of(
                    schema_fields(self.schema)[more[i].0 as int].kind,
                ) == more[i].1 by {
                    if i < k {
                        assert(more[i] == met[i]);
                    }
                }
            }
            k += 1;
        }
        proof {
            assert(needs@.take(needs@.len() as int) =~= needs@);
        }
        let size = count_documents(&self.index_reader);
        let room = (usize::MAX / 32) as u64;
        let mut wanted: u64 = limit as u64;
        if size < wanted {
            wanted = size;
        }
        if room < wanted {
            wanted = room;
        }
        if wanted == 0 {
            let none: Vec<String> = Vec::new();
            proof {
                assert(texts_view(none@) =~= Seq::<Seq<char>>::empty());
            }
            return Ok(none);
        }
        let id_field = match get_field(&self.schema, "id") {
            Some(field) => field,
            None => {
                proof {
                    assert(schema_fields(self.schema)[0].name == "id"@);
                }
                vstd::pervasive::unreached()
            },
        };
        proof {
            lemma_field_number(schema_fields(self.schema), 0);
            lemma_field_number(schema_fields(self.schema), id_field as int);
        }
        let hits = match top_docs(&self.index_reader, query.get_query(), wanted as usize) {
            Ok(hits) => hits,
            Err(_) => {
                return Err(Error::StorageFailure);
            },
        };
        let mut found: Vec<Option<String>> = Vec::new();
        let mut i: usize = 0;
        while i < hits.len()
            invariant
                i <= hits.len(),
                found@.len() == i,
                0 < wanted <= limit,
                wanted == asked_of(self.index_reader, limit),
                hits@.len() <= wanted,
                runs_on(query@, schema_fields(self.schema)),
                id_field == ID_FIELD,
                hits@ == snapshot_hits(self.index_reader, query@, wanted as usize),
                forall|k: int|
                    0 <= k < hits@.len() ==> in_snapshot(self.index_reader, #[trigger] hits@[k]),
                forall|k: int|
                    0 <= k < i ==> text_view(#[trigger] found@[k]) == snapshot_text(
                        self.index_reader,
                        hits@[k],
                        ID_FIELD,
                    ),
            decreases hits.len() - i,
        {
            match stored_text(&self.index_reader, hits[i], id_field) {
                Ok(text) => found.push(text),
                Err(_) => {
                    return Err(Error::StorageFailure);
                },
            }
            i += 1;
        }
        proof {
            lemma_present_len(found@);
            lemma_present_ids(self.index_reader, hits@, found@);
        }
        Ok(present_texts(&found))
    }

    /// A search sees the snapshot of the last reload alone: as long as the
    /// reader is the same, whatever was staged, committed, acquired or
    /// released in between, it returns the same.
    pub proof fn lemma_search_sees_snapshot(self, later: Index, query: QueryView, limit: i64)
        requires
            later.reader() == self.reader(),
        ensures
            later.visible(query, limit) == self.visible(query, limit),
    {
    }
}

} // verus!
