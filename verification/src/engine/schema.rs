//! Schemas of the engine: an ordered list of named fields.

use vstd::prelude::*;
use crate::model::{
    has_field, plain_field, stored_string_field, text_field, valid_field_name, value_type_of,
    FieldKind, FieldSpec, ValueType,
};
use tantivy::schema::{Schema, SchemaBuilder};

verus! {

/// The engine's schema builder.
#[verifier::external_type_specification]
#[verifier::external_body]
pub struct ExSchemaBuilder(SchemaBuilder);

/// The engine's schema.
#[verifier::external_type_specification]
#[verifier::external_body]
pub struct ExSchema(Schema);

/// The fields added to a builder so far, in the order of their numbers.
pub uninterp spec fn builder_fields(builder: SchemaBuilder) -> Seq<FieldSpec>;

/// The fields of a schema, in the order of their numbers.
pub uninterp spec fn schema_fields(schema: Schema) -> Seq<FieldSpec>;

/// Whether a builder takes a field of this name: the engine panics on an
/// invalid name and on one that the builder holds already.
pub open spec fn can_add(builder: SchemaBuilder, name: Seq<char>) -> bool {
    valid_field_name(name) && !has_field(builder_fields(builder), name)
}

/// `Schema::builder`: a builder without fields.
#[verifier::external_body]
pub(crate) fn schema_builder() -> (builder: SchemaBuilder)
    ensures
        builder_fields(builder) == Seq::<FieldSpec>::empty(),
{
    Schema::builder()
}

/// `SchemaBuilder::add_text_field` with positions and frequencies and with the
/// named tokenizer: the field is added behind the others.
#[verifier::external_body]
pub(crate) fn add_text_field(builder: &mut SchemaBuilder, name: &str, tokenizer: &str)
    requires
        can_add(*old(builder), name@),
    ensures
        builder_fields(*final(builder)) == builder_fields(*old(builder)).push(
            text_field(name@, tokenizer@),
        ),
{
    let indexing = tantivy::schema::TextFieldIndexing::default()
        .set_tokenizer(tokenizer)
        .set_index_option(tantivy::schema::IndexRecordOption::WithFreqsAndPositions);
    let options = tantivy::schema::TextOptions::default().set_indexing_options(indexing);
    builder.add_text_field(name, options);
}

/// `SchemaBuilder::add_text_field` with `STRING | STORED`.
#[verifier::external_body]
pub(crate) fn add_stored_string_field(builder: &mut SchemaBuilder, name: &str)
    requires
        can_add(*old(builder), name@),
    ensures
        builder_fields(*final(builder)) == builder_fields(*old(builder)).push(
            stored_string_field(name@),
        ),
{
    builder.add_text_field(name, tantivy::schema::STRING | tantivy::schema::STORED);
}

/// `SchemaBuilder::add_text_field` with `STRING`.
#[verifier::external_body]
pub(crate) fn add_string_field(builder: &mut SchemaBuilder, name: &str)
    requires
        can_add(*old(builder), name@),
    ensures
        builder_fields(*final(builder)) == builder_fields(*old(builder)).push(
            plain_field(name@, FieldKind::String),
        ),
{
    builder.add_text_field(name, tantivy::schema::STRING);
}

/// `SchemaBuilder::add_i64_field` with `FAST | INDEXED`.
#[verifier::external_body]
pub(crate) fn add_integer_field(builder: &mut SchemaBuilder, name: &str)
    requires
        can_add(*old(builder), name@),
    ensures
        builder_fields(*final(builder)) == builder_fields(*old(builder)).push(
            plain_field(name@, FieldKind::Integer),
        ),
{
    builder.add_i64_field(name, tantivy::schema::FAST | tantivy::schema::INDEXED);
}

/// `SchemaBuilder::add_f64_field` with `FAST | INDEXED`.
#[verifier::external_body]
pub(crate) fn add_double_field(builder: &mut SchemaBuilder, name: &str)
    requires
        can_add(*old(builder), name@),
    ensures
        builder_fields(*final(builder)) == builder_fields(*old(builder)).push(
            plain_field(name@, FieldKind::Double),
        ),
{
    builder.add_f64_field(name, tantivy::schema::FAST | tantivy::schema::INDEXED);
}

/// `SchemaBuilder::add_date_field` with `FAST | INDEXED`.
#[verifier::external_body]
pub(crate) fn add_date_field(builder: &mut SchemaBuilder, name: &str)
    requires
        can_add(*old(builder), name@),
    ensures
        builder_fields(*final(builder)) == builder_fields(*old(builder)).push(
            plain_field(name@, FieldKind::Date),
        ),
{
    builder.add_date_field(name, tantivy::schema::FAST | tantivy::schema::INDEXED);
}

/// `SchemaBuilder::add_facet_field` with the default options.
#[verifier::external_body]
pub(crate) fn add_facet_field(builder: &mut SchemaBuilder, name: &str)
    requires
        can_add(*old(builder), name@),
    ensures
        builder_fields(*final(builder)) == builder_fields(*old(builder)).push(
            plain_field(name@, FieldKind::Facet),
        ),
{
    builder.add_facet_field(name, tantivy::schema::FacetOptions::default());
}

/// `SchemaBuilder::build`: the schema of the builder's fields.
#[verifier::external_body]
pub(crate) fn build_schema(builder: SchemaBuilder) -> (schema: Schema)
    ensures
        schema_fields(schema) == builder_fields(builder),
{
    builder.build()
}

/// `Schema::clone`: a schema of the same fields.
#[verifier::external_body]
pub(crate) fn clone_schema(schema: &Schema) -> (copy: Schema)
    ensures
        schema_fields(copy) == schema_fields(*schema),
{
    schema.clone()
}

/// `Schema::num_fields`: the number of fields of the schema.
#[verifier::external_body]
pub(crate) fn count_fields(schema: &Schema) -> (count: usize)
    ensures
        count == schema_fields(*schema).len(),
{
    schema.num_fields()
}

/// `Schema::get_field`: the number of the field of this name, or `None` where
/// the schema has no such field.
#[verifier::external_body]
pub(crate) fn get_field(schema: &Schema, name: &str) -> (found: Option<u32>)
    ensures
        match found {
            Some(field) => field < schema_fields(*schema).len() && schema_fields(
                *schema,
            )[field as int].name == name@,
            None => !has_field(schema_fields(*schema), name@),
        },
{
    schema.get_field(name).ok().map(|field| field.field_id())
}

/// `Schema::get_field_entry` and `FieldEntry::field_type`: the type of value of
/// a field of the schema.
#[verifier::external_body]
pub(crate) fn field_value_type(schema: &Schema, field: u32) -> (value_type: ValueType)
    requires
        field < schema_fields(*schema).len(),
    ensures
        value_type == value_type_of(schema_fields(*schema)[field as int].kind),
{
    let entry = schema.get_field_entry(tantivy::schema::Field::from_field_id(field));
    match entry.field_type() {
        tantivy::schema::FieldType::Str(_) => ValueType::Str,
        tantivy::schema::FieldType::I64(_) => ValueType::I64,
        tantivy::schema::FieldType::F64(_) => ValueType::F64,
        tantivy::schema::FieldType::Date(_) => ValueType::Date,
        tantivy::schema::FieldType::Facet(_) => ValueType::Facet,
        _ => ValueType::Other,
    }
}

} // verus!
