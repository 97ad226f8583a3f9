//! Schema definition: the reserved `id` field, then the declared fields by kind.

use vstd::prelude::*;
use vstd::string::*;
use crate::engine::schema::{
    add_date_field, add_double_field, add_facet_field, add_integer_field,
    add_stored_string_field, add_string_field, add_text_field, build_schema, builder_fields,
    schema_builder, schema_fields,
};
use crate::error::Error;
use crate::model::{
    has_field, names_distinct, plain_field, stored_string_field, text_field, valid_field_name,
    FieldKind, FieldSpec, MAX_FIELD,
};
use crate::tokenizer::{texts_view, Tokenizer};
use tantivy::schema::Schema;

verus! {

/// The declaration of one field.
pub struct FieldDef {
    /// The field's name.
    pub name: String,
    /// The field's kind.
    pub kind: FieldKind,
    /// For a text field, the name of its tokenizer.
    pub tokenizer: Option<String>,
    /// Whether the value is stored.
    pub stored: bool,
}

impl View for FieldDef {
    type V = FieldSpec;

    open spec fn view(&self) -> FieldSpec {
        FieldSpec {
            name: self.name@,
            kind: self.kind,
            tokenizer: match self.tokenizer {
                Some(name) => Some(name@),
                None => None,
            },
            stored: self.stored,
        }
    }
}

/// The views of a list of declarations.
pub open spec fn fields_view(fields: Seq<FieldDef>) -> Seq<FieldSpec> {
    fields.map_values(|field: FieldDef| field@)
}

/// The name of the reserved identifier field.
pub open spec fn id_name() -> Seq<char> {
    "id"@
}

/// The name under which the default tokenizer is registered.
pub open spec fn default_name() -> Seq<char> {
    "default"@
}

/// The names under which field tokenizers are given.
pub open spec fn tokenizer_names(field_tokenizers: Seq<(String, Tokenizer)>) -> Seq<Seq<char>> {
    field_tokenizers.map_values(|entry: (String, Tokenizer)| entry.0@)
}

/// The tokenizer of a text field: the one given under the field's own name, or
/// the default.
pub open spec fn tokenizer_for(field: Seq<char>, bound: Seq<Seq<char>>) -> Seq<char> {
    if bound.contains(field) {
        field
    } else {
        default_name()
    }
}

/// The declarations of text fields.
pub open spec fn text_specs(names: Seq<Seq<char>>, bound: Seq<Seq<char>>) -> Seq<FieldSpec> {
    names.map_values(|name: Seq<char>| text_field(name, tokenizer_for(name, bound)))
}

/// The declarations of fields of a kind other than text.
pub open spec fn plain_specs(names: Seq<Seq<char>>, kind: FieldKind) -> Seq<FieldSpec> {
    names.map_values(|name: Seq<char>| plain_field(name, kind))
}

/// The fields of a schema in the order of their numbers: `id` first, then the
/// text, string, integer, double, date and facet fields, each list in its order.
pub open spec fn schema_layout(
    bound: Seq<Seq<char>>,
    text: Seq<Seq<char>>,
    string: Seq<Seq<char>>,
    integer: Seq<Seq<char>>,
    double: Seq<Seq<char>>,
    date: Seq<Seq<char>>,
    facet: Seq<Seq<char>>,
) -> Seq<FieldSpec> {
    seq![stored_string_field(id_name())] + text_specs(text, bound) + plain_specs(
        string,
        FieldKind::String,
    ) + plain_specs(integer, FieldKind::Integer) + plain_specs(double, FieldKind::Double)
        + plain_specs(date, FieldKind::Date) + plain_specs(facet, FieldKind::Facet)
}

/// Whether a declaration has one of the forms that a schema is built from.
pub open spec fn buildable(field: FieldSpec) -> bool {
    match field.kind {
        FieldKind::Text => field.tokenizer is Some && !field.stored,
        FieldKind::String => field.tokenizer is None,
        _ => field.tokenizer is None && !field.stored,
    }
}

/// Whether a schema can hold these fields: not more than the engine numbers,
/// every name valid, no name twice.
pub open spec fn acceptable(fields: Seq<FieldSpec>) -> bool {
    &&& fields.len() <= MAX_FIELD + 1
    &&& forall|i: int| 0 <= i < fields.len() ==> valid_field_name((#[trigger] fields[i]).name)
    &&& names_distinct(fields)
}

fn is_bound(name: &String, field_tokenizers: &Vec<(String, Tokenizer)>) -> (bound: bool)
    ensures
        bound == tokenizer_names(field_tokenizers@).contains(name@),
{
    let ghost names = tokenizer_names(field_tokenizers@);
    let mut i: usize = 0;
    while i < field_tokenizers.len()
        invariant
            i <= field_tokenizers.len(),
            names == tokenizer_names(field_tokenizers@),
            forall|k: int| 0 <= k < i ==> names[k] != name@,
        decreases field_tokenizers.len() - i,
    {
        proof {
            assert(names[i as int] == field_tokenizers@[i as int].0@);
        }
        if field_tokenizers[i].0 == *name {
            proof {
                assert(names[i as int] == name@);
            }
            return true;
        }
        i += 1;
    }
    false
}

fn append_text(
    plan: &mut Vec<FieldDef>,
    names: &Vec<String>,
    field_tokenizers: &Vec<(String, Tokenizer)>,
)
    ensures
        fields_view(final(plan)@) == fields_view(old(plan)@) + text_specs(
            texts_view(names@),
            tokenizer_names(field_tokenizers@),
        ),
{
    let ghost start = fields_view(plan@);
    let ghost added = text_specs(texts_view(names@), tokenizer_names(field_tokenizers@));
    let mut i: usize = 0;
    proof {
        assert(fields_view(plan@) =~= start + added.take(0));
    }
    while i < names.len()
        invariant
            i <= names.len(),
            added == text_specs(texts_view(names@), tokenizer_names(field_tokenizers@)),
            fields_view(plan@) == start + added.take(i as int),
        decreases names.len() - i,
    {
        let name = names[i].clone();
        let tokenizer = if is_bound(&names[i], field_tokenizers) {
            names[i].clone()
        } else {
            "default".to_string()
        };
        let ghost before = plan@;
        let field = FieldDef { name, kind: FieldKind::Text, tokenizer: Some(tokenizer), stored: false };
        plan.push(field);
        proof {
            assert(fields_view(plan@) =~= fields_view(before).push(field@));
        }
        i += 1;
    }
    proof {
        assert(added.take(names@.len() as int) =~= added);
    }
}

fn append_plain(plan: &mut Vec<FieldDef>, names: &Vec<String>, kind: FieldKind)
    ensures
        fields_view(final(plan)@) == fields_view(old(plan)@) + plain_specs(texts_view(names@), kind),
{
    let ghost start = fields_view(plan@);
    let ghost added = plain_specs(texts_view(names@), kind);
    let mut i: usize = 0;
    proof {
        assert(fields_view(plan@) =~= start + added.take(0));
    }
    while i < names.len()
        invariant
            i <= names.len(),
            added == plain_specs(texts_view(names@), kind),
            fields_view(plan@) == start + added.take(i as int),
        decreases names.len() - i,
    {
        let name = names[i].clone();
        let ghost before = plan@;
        let field = FieldDef { name, kind, tokenizer: None, stored: false };
        plan.push(field);
        proof {
            assert(fields_view(plan@) =~= fields_view(before).push(field@));
        }
        i += 1;
    }
    proof {
        assert(added.take(names@.len() as int) =~= added);
    }
}

/// Lays out the fields of a schema: the stored `id` string first, then the
/// declared fields by kind. A text field is bound to the tokenizer given under
/// its own name, or to the default tokenizer.
pub fn plan_schema(
    field_tokenizers: &Vec<(String, Tokenizer)>,
    text_fields: &Vec<String>,
    string_fields: &Vec<String>,
    integer_fields: &Vec<String>,
    double_fields: &Vec<String>,
    date_fields: &Vec<String>,
    facet_fields: &Vec<String>,
) -> (plan: Vec<FieldDef>)
    ensures
        fields_view(plan@) == schema_layout(
            tokenizer_names(field_tokenizers@),
            texts_view(text_fields@),
            texts_view(string_fields@),
            texts_view(integer_fields@),
            texts_view(double_fields@),
            texts_view(date_fields@),
            texts_view(facet_fields@),
        ),
{
    let mut plan: Vec<FieldDef> = Vec::new();
    let id = FieldDef { name: "id".to_string(), kind: FieldKind::String, tokenizer: None, stored: true };
    plan.push(id);
    proof {
        assert(fields_view(plan@) =~= seq![stored_string_field(id_name())]);
    }
    append_text(&mut plan, text_fields, field_tokenizers);
    append_plain(&mut plan, string_fields, FieldKind::String);
    append_plain(&mut plan, integer_fields, FieldKind::Integer);
    append_plain(&mut plan, double_fields, FieldKind::Double);
    append_plain(&mut plan, date_fields, FieldKind::Date);
    append_plain(&mut plan, facet_fields, FieldKind::Facet);
    plan
}

/// Every field of a layout has a form that a schema is built from.
pub proof fn lemma_layout_buildable(
    bound: Seq<Seq<char>>,
    text: Seq<Seq<char>>,
    string: Seq<Seq<char>>,
    integer: Seq<Seq<char>>,
    double: Seq<Seq<char>>,
    date: Seq<Seq<char>>,
    facet: Seq<Seq<char>>,
)
    ensures
        forall|i: int|
            0 <= i < schema_layout(bound, text, string, integer, double, date, facet).len()
                ==> buildable(
                #[trigger] schema_layout(bound, text, string, integer, double, date, facet)[i],
            ),
        schema_layout(bound, text, string, integer, double, date, facet).len() > 0,
        schema_layout(bound, text, string, integer, double, date, facet)[0] == stored_string_field(
            id_name(),
        ),
{
}

fn name_is_valid(name: &str) -> (valid: bool)
    ensures
        valid == valid_field_name(name@),
{
    !name.is_empty() && name.get_char(0) != '-'
}

/// Whether a schema can hold the planned fields.
pub fn check_plan(plan: &Vec<FieldDef>) -> (ok: bool)
    ensures
        ok == acceptable(fields_view(plan@)),
{
    let ghost fields = fields_view(plan@);
    if plan.len() > 0x10000 {
        return false;
    }
    let mut i: usize = 0;
    while i < plan.len()
        invariant
            i <= plan.len(),
            fields == fields_view(plan@),
            forall|k: int| 0 <= k < i ==> valid_field_name((#[trigger] fields[k]).name),
            forall|k: int, l: int| 0 <= k < l < i ==> (#[trigger] fields[k]).name != (
            #[trigger] fields[l]).name,
        decreases plan.len() - i,
    {
        proof {
            assert(fields[i as int] == plan@[i as int]@);
        }
        if !name_is_valid(plan[i].name.as_str()) {
            return false;
        }
        let mut j: usize = 0;
        while j < i
            invariant
                j <= i < plan.len(),
                fields == fields_view(plan@),
                forall|k: int| 0 <= k < j ==> (#[trigger] fields[k]).name != fields[i as int].name,
            decreases i - j,
        {
            proof {
                assert(fields[i as int] == plan@[i as int]@);
            }
            if plan[j].name == plan[i].name {
                proof {
                    assert(fields[j as int].name == fields[i as int].name);
                }
                return false;
            }
            j += 1;
        }
        i += 1;
    }
    true
}

proof fn lemma_fresh_name(fields: Seq<FieldSpec>, i: int)
    requires
        names_distinct(fields),
        0 <= i < fields.len(),
    ensures
        !has_field(fields.take(i), fields[i].name),
{
    let earlier = fields.take(i);
    assert forall|k: int| 0 <= k < earlier.len() implies (#[trigger] earlier[k]).name
        != fields[i].name by {
        assert(earlier[k] == fields[k]);
    }
}

fn build_plan(plan: &Vec<FieldDef>) -> (schema: Schema)
    requires
        acceptable(fields_view(plan@)),
        forall|i: int| 0 <= i < plan@.len() ==> buildable(#[trigger] fields_view(plan@)[i]),
    ensures
        schema_fields(schema) == fields_view(plan@),
{
    let ghost fields = fields_view(plan@);
    let mut builder = schema_builder();
    let mut i: usize = 0;
    proof {
        assert(fields.take(0) =~= Seq::<FieldSpec>::empty());
    }
    while i < plan.len()
        invariant
            i <= plan.len(),
            fields == fields_view(plan@),
            acceptable(fields),
            forall|k: int| 0 <= k < plan@.len() ==> buildable(#[trigger] fields[k]),
            builder_fields(builder) == fields.take(i as int),
        decreases plan.len() - i,
    {
        let field = &plan[i];
        let name = field.name.as_str();
        proof {
            lemma_fresh_name(fields, i as int);
        }
        match field.kind {
            FieldKind::Text => match &field.tokenizer {
                Some(tokenizer) => add_text_field(&mut builder, name, tokenizer.as_str()),
                None => vstd::pervasive::unreached(),
            },
            FieldKind::String => if field.stored {
                add_stored_string_field(&mut builder, name)
            } else {
                add_string_field(&mut builder, name)
            },
            FieldKind::Integer => add_integer_field(&mut builder, name),
            FieldKind::Double => add_double_field(&mut builder, name),
            FieldKind::Date => add_date_field(&mut builder, name),
            FieldKind::Facet => add_facet_field(&mut builder, name),
        }
        i += 1;
    }
    proof {
        assert(fields.take(plan@.len() as int) =~= fields);
    }
    build_schema(builder)
}

/// Defines a schema: the reserved `id` field, then the text, string, integer,
/// double, date and facet fields. The names have to be valid and distinct, `id`
/// among them; otherwise the definition is refused.
pub fn define_schema(
    field_tokenizers: &Vec<(String, Tokenizer)>,
    text_fields: &Vec<String>,
    string_fields: &Vec<String>,
    integer_fields: &Vec<String>,
    double_fields: &Vec<String>,
    date_fields: &Vec<String>,
    facet_fields: &Vec<String>,
) -> (defined: Result<Schema, Error>)
    ensures
        ({
            let layout = schema_layout(
                tokenizer_names(field_tokenizers@),
                texts_view(text_fields@),
                texts_view(string_fields@),
                texts_view(integer_fields@),
                texts_view(double_fields@),
                texts_view(date_fields@),
                texts_view(facet_fields@),
            );
            if acceptable(layout) {
                defined is Ok && schema_fields(defined->Ok_0) == layout
            } else {
                defined is Err && defined->Err_0 == Error::ConversionFailure
            }
        }),
{
    let plan = plan_schema(
        field_tokenizers,
        text_fields,
        string_fields,
        integer_fields,
        double_fields,
        date_fields,
        facet_fields,
    );
    proof {
        lemma_layout_buildable(
            tokenizer_names(field_tokenizers@),
            texts_view(text_fields@),
            texts_view(string_fields@),
            texts_view(integer_fields@),
            texts_view(double_fields@),
            texts_view(date_fields@),
            texts_view(facet_fields@),
        );
    }
    if check_plan(&plan) {
        Ok(build_plan(&plan))
    } else {
        Err(Error::ConversionFailure)
    }
}

} // verus!
