use tantiny::error::Error;
use tantiny::helpers::MultiValue;
use tantiny::index::Index;
use tantiny::model::{FieldKind, ValueType};
use tantiny::schema::{check_plan, define_schema, plan_schema, FieldDef};
use tantiny::tokenizer::Tokenizer;

fn names(items: &[&str]) -> Vec<String> {
    items.iter().map(|s| s.to_string()).collect()
}

fn describe(field: &FieldDef) -> (String, FieldKind, Option<String>, bool) {
    (field.name.clone(), field.kind, field.tokenizer.clone(), field.stored)
}

#[test]
fn plan_starts_with_stored_id() {
    let plan = plan_schema(&vec![], &vec![], &vec![], &vec![], &vec![], &vec![], &vec![]);
    assert_eq!(plan.len(), 1);
    assert_eq!(describe(&plan[0]), ("id".to_string(), FieldKind::String, None, true));
}

#[test]
fn plan_lists_fields_by_kind_in_order() {
    let bound = vec![("body".to_string(), Tokenizer::new_simple().unwrap())];
    let plan = plan_schema(
        &bound,
        &names(&["title", "body"]),
        &names(&["author"]),
        &names(&["year", "pages"]),
        &names(&["rating"]),
        &names(&["published"]),
        &names(&["shelf"]),
    );
    let described: Vec<_> = plan.iter().map(describe).collect();
    let plain = |name: &str, kind: FieldKind| (name.to_string(), kind, None, false);
    assert_eq!(
        described,
        vec![
            ("id".to_string(), FieldKind::String, None, true),
            ("title".to_string(), FieldKind::Text, Some("default".to_string()), false),
            ("body".to_string(), FieldKind::Text, Some("body".to_string()), false),
            plain("author", FieldKind::String),
            plain("year", FieldKind::Integer),
            plain("pages", FieldKind::Integer),
            plain("rating", FieldKind::Double),
            plain("published", FieldKind::Date),
            plain("shelf", FieldKind::Facet),
        ]
    );
}

#[test]
fn tokenizer_given_for_another_kind_of_field_binds_nothing() {
    let bound = vec![("author".to_string(), Tokenizer::new_simple().unwrap())];
    let plan = plan_schema(&bound, &names(&["title"]), &names(&["author"]), &vec![], &vec![], &vec![], &vec![]);
    assert_eq!(plan[1].tokenizer, Some("default".to_string()));
    assert_eq!(plan[2].tokenizer, None);
}

#[test]
fn check_plan_accepts_valid_distinct_names() {
    let plan = |text: &[&str]| plan_schema(&vec![], &names(text), &vec![], &vec![], &vec![], &vec![], &vec![]);
    assert!(check_plan(&plan(&[])));
    assert!(check_plan(&plan(&["title", "body", "t-itle", "Title"])));
    assert!(!check_plan(&plan(&["title", "body", "title"])));
    assert!(!check_plan(&plan(&["id"])));
    assert!(!check_plan(&plan(&[""])));
    assert!(!check_plan(&plan(&["-"])));
    assert!(!check_plan(&plan(&["-title"])));
}

#[test]
fn defined_schema_has_the_planned_fields() {
    let schema = define_schema(
        &vec![],
        &names(&["title"]),
        &names(&["author"]),
        &names(&["year"]),
        &names(&["rating"]),
        &names(&["published"]),
        &names(&["shelf"]),
    )
    .unwrap();
    let found: Vec<String> = schema.fields().map(|(_, entry)| entry.name().to_string()).collect();
    assert_eq!(found, vec!["id", "title", "author", "year", "rating", "published", "shelf"]);
    let id = schema.get_field_entry(schema.get_field("id").unwrap());
    assert!(id.is_stored());
    assert!(id.is_indexed());
    let title = schema.get_field_entry(schema.get_field("title").unwrap());
    assert!(!title.is_stored());
    let year = schema.get_field_entry(schema.get_field("year").unwrap());
    assert!(year.is_fast());
    assert!(year.is_indexed());
}

#[test]
fn schema_definition_refuses_bad_names() {
    let define = |text: &[&str], facet: &[&str]| {
        define_schema(&vec![], &names(text), &vec![], &vec![], &vec![], &vec![], &names(facet)).err()
    };
    assert_eq!(define(&["a"], &["b"]), None);
    assert_eq!(define(&["a"], &["a"]), Some(Error::ConversionFailure));
    assert_eq!(define(&[], &["id"]), Some(Error::ConversionFailure));
    assert_eq!(define(&["-a"], &[]), Some(Error::ConversionFailure));
}

#[test]
fn index_reports_value_types() {
    let tokenizer = Tokenizer::new_simple().unwrap();
    let index = Index::new(
        None,
        &tokenizer,
        &vec![],
        names(&["title"]),
        names(&["author"]),
        names(&["year"]),
        names(&["rating"]),
        names(&["published"]),
        names(&["shelf"]),
    )
    .unwrap();
    assert_eq!(index.value_type(0), Some(ValueType::Str));
    assert_eq!(index.value_type(1), Some(ValueType::Str));
    assert_eq!(index.value_type(2), Some(ValueType::Str));
    assert_eq!(index.value_type(3), Some(ValueType::I64));
    assert_eq!(index.value_type(4), Some(ValueType::F64));
    assert_eq!(index.value_type(5), Some(ValueType::Date));
    assert_eq!(index.value_type(6), Some(ValueType::Facet));
    assert_eq!(index.value_type(7), None);
    assert_eq!(index.schema().num_fields(), 7);
}

#[test]
fn multi_value_becomes_sequence() {
    assert_eq!(MultiValue::Scalar(5).into_values(), vec![5]);
    assert_eq!(MultiValue::List(vec![3, 4]).into_values(), vec![3, 4]);
    assert_eq!(MultiValue::<i64>::List(vec![]).into_values(), Vec::<i64>::new());
}

#[test]
fn error_messages_name_the_kind() {
    assert_eq!(Error::FieldNotFound.message(), "Field not found");
    assert_eq!(Error::NoWriterAvailable.message(), "No index writer available");
    assert_eq!(Error::WriterAlreadyActive.message(), "An index writer is already active");
    assert_eq!(Error::InvalidDateFormat.message(), "Invalid date format");
    assert_eq!(Error::InvalidRegex.message(), "Invalid regex");
    assert_eq!(Error::UnsupportedRangeField.message(), "Field is not supported by range query");
    assert_eq!(Error::UnsupportedLanguage.message(), "Language is not supported");
    assert_eq!(Error::ConversionFailure.message(), "Conversion failed");
    assert_eq!(Error::StorageFailure.message(), "Storage failure");
}
