use tantiny::error::Error;
use tantiny::helpers::{hash_to_multivalue_map, MultiValue};
use tantiny::index::{present_texts, Index};
use tantiny::model::ReaderState;
use tantiny::query::Query;
use tantiny::tokenizer::Tokenizer;

const BUDGET: i64 = 50_000_000;

fn names(items: &[&str]) -> Vec<String> {
    items.iter().map(|s| s.to_string()).collect()
}

fn library() -> Index {
    let default_tokenizer = Tokenizer::new_simple().unwrap();
    let field_tokenizers = vec![("summary".to_string(), Tokenizer::new_stemmer("en".to_string()).unwrap())];
    Index::new(
        None,
        &default_tokenizer,
        &field_tokenizers,
        names(&["title", "summary"]),
        names(&["author"]),
        names(&["year"]),
        names(&["rating"]),
        names(&["published"]),
        names(&["shelf"]),
    )
    .unwrap()
}

fn one(name: &str, value: &str) -> Vec<(String, MultiValue<String>)> {
    vec![(name.to_string(), MultiValue::Scalar(value.to_string()))]
}

fn add_titled(index: &mut Index, id: &str, title: &str) -> Result<(), Error> {
    index.add_document(id.to_string(), one("title", title), vec![], vec![], vec![], vec![], vec![])
}

fn ids_for(index: &Index, field: &str, term: &str) -> Vec<String> {
    let query = Query::new_term(index, field.to_string(), term.to_string()).ok().unwrap();
    index.search(&query, 10).unwrap()
}

#[test]
fn upsert_keeps_only_the_last_version() {
    let mut index = library();
    index.acquire_index_writer(BUDGET).unwrap();
    add_titled(&mut index, "X", "first edition").unwrap();
    add_titled(&mut index, "X", "second printing").unwrap();
    index.commit().unwrap();
    index.reload().unwrap();
    assert_eq!(ids_for(&index, "title", "printing"), vec!["X"]);
    assert_eq!(ids_for(&index, "title", "edition"), Vec::<String>::new());
}

#[test]
fn upsert_across_commits_replaces_document() {
    let mut index = library();
    index.acquire_index_writer(BUDGET).unwrap();
    add_titled(&mut index, "X", "first edition").unwrap();
    index.commit().unwrap();
    add_titled(&mut index, "X", "second printing").unwrap();
    index.commit().unwrap();
    index.reload().unwrap();
    assert_eq!(ids_for(&index, "title", "printing"), vec!["X"]);
    assert_eq!(ids_for(&index, "title", "edition"), Vec::<String>::new());
    assert_eq!(index.search(&Query::new_all(), 10).unwrap(), vec!["X"]);
}

#[test]
fn delete_then_commit_removes_document() {
    let mut index = library();
    index.acquire_index_writer(BUDGET).unwrap();
    add_titled(&mut index, "A", "alpha").unwrap();
    index.commit().unwrap();
    index.reload().unwrap();
    assert_eq!(ids_for(&index, "title", "alpha"), vec!["A"]);
    index.delete_document("A".to_string()).unwrap();
    index.commit().unwrap();
    index.reload().unwrap();
    assert_eq!(ids_for(&index, "title", "alpha"), Vec::<String>::new());
}

#[test]
fn delete_of_missing_document_succeeds() {
    let mut index = library();
    index.acquire_index_writer(BUDGET).unwrap();
    assert_eq!(index.delete_document("nobody".to_string()), Ok(()));
    assert_eq!(index.commit(), Ok(()));
}

#[test]
fn reload_gates_visibility() {
    let mut index = library();
    index.acquire_index_writer(BUDGET).unwrap();
    add_titled(&mut index, "A", "alpha").unwrap();
    index.commit().unwrap();
    assert_eq!(ids_for(&index, "title", "alpha"), Vec::<String>::new());
    index.reload().unwrap();
    assert_eq!(ids_for(&index, "title", "alpha"), vec!["A"]);
    add_titled(&mut index, "B", "alpha").unwrap();
    index.delete_document("A".to_string()).unwrap();
    index.commit().unwrap();
    assert_eq!(ids_for(&index, "title", "alpha"), vec!["A"]);
    index.reload().unwrap();
    assert_eq!(ids_for(&index, "title", "alpha"), vec!["B"]);
}

#[test]
fn uncommitted_documents_are_not_visible() {
    let mut index = library();
    index.acquire_index_writer(BUDGET).unwrap();
    add_titled(&mut index, "A", "alpha").unwrap();
    index.reload().unwrap();
    assert_eq!(ids_for(&index, "title", "alpha"), Vec::<String>::new());
}

#[test]
fn second_writer_is_refused() {
    let mut index = library();
    assert!(!index.writer_active());
    assert_eq!(index.acquire_index_writer(BUDGET), Ok(()));
    assert!(index.writer_active());
    assert_eq!(index.acquire_index_writer(BUDGET), Err(Error::WriterAlreadyActive));
    assert_eq!(index.release_index_writer(), Ok(()));
    assert_eq!(index.acquire_index_writer(BUDGET), Ok(()));
}

#[test]
fn operations_without_writer_are_refused() {
    let mut index = library();
    assert_eq!(index.release_index_writer(), Err(Error::NoWriterAvailable));
    assert_eq!(index.commit(), Err(Error::NoWriterAvailable));
    assert_eq!(index.delete_document("A".to_string()), Err(Error::NoWriterAvailable));
    assert_eq!(add_titled(&mut index, "A", "alpha"), Err(Error::NoWriterAvailable));
}

#[test]
fn release_abandons_staged_documents() {
    let mut index = library();
    index.acquire_index_writer(BUDGET).unwrap();
    add_titled(&mut index, "A", "alpha").unwrap();
    index.release_index_writer().unwrap();
    index.acquire_index_writer(BUDGET).unwrap();
    index.commit().unwrap();
    index.reload().unwrap();
    assert_eq!(ids_for(&index, "title", "alpha"), Vec::<String>::new());
}

#[test]
fn writer_budget_has_to_be_in_range() {
    let mut index = library();
    assert_eq!(index.acquire_index_writer(-1), Err(Error::ConversionFailure));
    assert_eq!(index.acquire_index_writer(1), Err(Error::StorageFailure));
    assert_eq!(index.acquire_index_writer(BUDGET), Ok(()));
}

#[test]
fn unknown_field_refuses_whole_document() {
    let mut index = library();
    index.acquire_index_writer(BUDGET).unwrap();
    let added = index.add_document(
        "A".to_string(),
        one("title", "alpha"),
        one("publisher", "nobody"),
        vec![],
        vec![],
        vec![],
        vec![],
    );
    assert_eq!(added, Err(Error::FieldNotFound));
    index.commit().unwrap();
    index.reload().unwrap();
    assert_eq!(index.search(&Query::new_all(), 10).unwrap(), Vec::<String>::new());
}

#[test]
fn invalid_date_refuses_whole_document() {
    let mut index = library();
    index.acquire_index_writer(BUDGET).unwrap();
    let added = index.add_document(
        "A".to_string(),
        one("title", "alpha"),
        vec![],
        vec![],
        vec![],
        one("published", "yesterday"),
        vec![],
    );
    assert_eq!(added, Err(Error::InvalidDateFormat));
    let added = index.add_document(
        "A".to_string(),
        vec![],
        vec![],
        vec![],
        vec![],
        one("published", "2024-02-30T00:00:00Z"),
        vec![],
    );
    assert_eq!(added, Err(Error::InvalidDateFormat));
    index.commit().unwrap();
    index.reload().unwrap();
    assert_eq!(index.search(&Query::new_all(), 10).unwrap(), Vec::<String>::new());
}

#[test]
fn date_outside_64_bit_nanoseconds_is_refused() {
    let mut index = library();
    index.acquire_index_writer(BUDGET).unwrap();
    let added = index.add_document(
        "A".to_string(),
        vec![],
        vec![],
        vec![],
        vec![],
        one("published", "2500-01-01T00:00:00Z"),
        vec![],
    );
    assert_eq!(added, Err(Error::InvalidDateFormat));
}

#[test]
fn facet_has_to_be_a_path() {
    let mut index = library();
    index.acquire_index_writer(BUDGET).unwrap();
    let added =
        index.add_document("A".to_string(), vec![], vec![], vec![], vec![], vec![], one("shelf", "fiction"));
    assert_eq!(added, Err(Error::ConversionFailure));
    let added =
        index.add_document("A".to_string(), vec![], vec![], vec![], vec![], vec![], one("shelf", ""));
    assert_eq!(added, Err(Error::ConversionFailure));
    let added = index.add_document(
        "A".to_string(),
        vec![],
        vec![],
        vec![],
        vec![],
        vec![],
        one("shelf", "/fiction/crime"),
    );
    assert_eq!(added, Ok(()));
}

#[test]
fn first_error_in_group_order_is_reported() {
    let mut index = library();
    index.acquire_index_writer(BUDGET).unwrap();
    let added = index.add_document(
        "A".to_string(),
        vec![],
        vec![],
        vec![],
        vec![],
        one("published", "not a date"),
        one("nowhere", "/a"),
    );
    assert_eq!(added, Err(Error::InvalidDateFormat));
    let added = index.add_document(
        "A".to_string(),
        one("nowhere", "text"),
        vec![],
        vec![],
        vec![],
        one("published", "not a date"),
        vec![],
    );
    assert_eq!(added, Err(Error::FieldNotFound));
}

#[test]
fn every_kind_of_value_is_indexed() {
    let mut index = library();
    index.acquire_index_writer(BUDGET).unwrap();
    index
        .add_document(
            "A".to_string(),
            one("title", "The Long Goodbye"),
            one("author", "Raymond Chandler"),
            vec![("year".to_string(), MultiValue::Scalar(1953))],
            vec![("rating".to_string(), MultiValue::Scalar(tantivy::f64_to_u64(4.5)))],
            one("published", "1953-11-01T00:00:00Z"),
            one("shelf", "/fiction/crime"),
        )
        .unwrap();
    index.commit().unwrap();
    index.reload().unwrap();
    assert_eq!(ids_for(&index, "title", "goodbye"), vec!["A"]);
    assert_eq!(ids_for(&index, "author", "Raymond Chandler"), vec!["A"]);
    assert_eq!(ids_for(&index, "author", "raymond"), Vec::<String>::new());
    assert_eq!(ids_for(&index, "id", "A"), vec!["A"]);
}

#[test]
fn multiple_values_add_one_posting_each() {
    let mut index = library();
    index.acquire_index_writer(BUDGET).unwrap();
    index
        .add_document(
            "A".to_string(),
            vec![],
            vec![(
                "author".to_string(),
                MultiValue::List(vec!["Ilf".to_string(), "Petrov".to_string()]),
            )],
            vec![],
            vec![],
            vec![],
            vec![],
        )
        .unwrap();
    index.commit().unwrap();
    index.reload().unwrap();
    assert_eq!(ids_for(&index, "author", "Ilf"), vec!["A"]);
    assert_eq!(ids_for(&index, "author", "Petrov"), vec!["A"]);
}

#[test]
fn field_tokenizer_is_bound_by_field_name() {
    let mut index = library();
    index.acquire_index_writer(BUDGET).unwrap();
    index
        .add_document(
            "A".to_string(),
            vec![
                ("title".to_string(), MultiValue::Scalar("Running".to_string())),
                ("summary".to_string(), MultiValue::Scalar("Running".to_string())),
            ],
            vec![],
            vec![],
            vec![],
            vec![],
            vec![],
        )
        .unwrap();
    index.commit().unwrap();
    index.reload().unwrap();
    assert_eq!(ids_for(&index, "summary", "run"), vec!["A"]);
    assert_eq!(ids_for(&index, "title", "run"), Vec::<String>::new());
    assert_eq!(ids_for(&index, "title", "running"), vec!["A"]);
}

#[test]
fn fields_are_numbered_in_declaration_order() {
    let index = library();
    assert_eq!(index.field("id"), Some(0));
    assert_eq!(index.field("title"), Some(1));
    assert_eq!(index.field("summary"), Some(2));
    assert_eq!(index.field("author"), Some(3));
    assert_eq!(index.field("year"), Some(4));
    assert_eq!(index.field("rating"), Some(5));
    assert_eq!(index.field("published"), Some(6));
    assert_eq!(index.field("shelf"), Some(7));
    assert_eq!(index.field("missing"), None);
}

#[test]
fn field_names_have_to_be_valid_and_distinct() {
    let tokenizer = Tokenizer::new_simple().unwrap();
    let open = |text: &[&str], string: &[&str]| {
        Index::new(None, &tokenizer, &vec![], names(text), names(string), vec![], vec![], vec![], vec![])
            .err()
    };
    assert_eq!(open(&["title"], &["author"]), None);
    assert_eq!(open(&["title", "title"], &[]), Some(Error::ConversionFailure));
    assert_eq!(open(&["title"], &["title"]), Some(Error::ConversionFailure));
    assert_eq!(open(&["id"], &[]), Some(Error::ConversionFailure));
    assert_eq!(open(&[""], &[]), Some(Error::ConversionFailure));
    assert_eq!(open(&["-title"], &[]), Some(Error::ConversionFailure));
}

#[test]
fn missing_directory_is_a_storage_failure() {
    let tokenizer = Tokenizer::new_simple().unwrap();
    let opened = Index::new(
        Some("/nonexistent/tantiny/index".to_string()),
        &tokenizer,
        &vec![],
        names(&["title"]),
        vec![],
        vec![],
        vec![],
        vec![],
        vec![],
    );
    assert_eq!(opened.err(), Some(Error::StorageFailure));
}

#[test]
fn search_limit_bounds_the_result() {
    let mut index = library();
    index.acquire_index_writer(BUDGET).unwrap();
    add_titled(&mut index, "A", "alpha").unwrap();
    add_titled(&mut index, "B", "alpha").unwrap();
    add_titled(&mut index, "C", "alpha").unwrap();
    index.commit().unwrap();
    index.reload().unwrap();
    let query = Query::new_term(&index, "title".to_string(), "alpha".to_string()).ok().unwrap();
    assert_eq!(index.search(&query, 2).unwrap().len(), 2);
    assert_eq!(index.search(&query, 3).unwrap().len(), 3);
    assert_eq!(index.search(&query, 100).unwrap().len(), 3);
    assert_eq!(index.search(&query, 0), Ok(vec![]));
    assert_eq!(index.search(&query, -1), Err(Error::ConversionFailure));
    assert_eq!(index.search(&query, i64::MAX).unwrap().len(), 3);
    assert_eq!(index.search(&query, i64::MIN), Err(Error::ConversionFailure));
}

#[test]
fn search_orders_by_descending_score() {
    let mut index = library();
    index.acquire_index_writer(BUDGET).unwrap();
    add_titled(&mut index, "once", "alpha beta gamma delta").unwrap();
    add_titled(&mut index, "thrice", "alpha alpha alpha").unwrap();
    index.commit().unwrap();
    index.reload().unwrap();
    assert_eq!(ids_for(&index, "title", "alpha"), vec!["thrice", "once"]);
}

#[test]
fn multivalue_map_keeps_order() {
    let map = hash_to_multivalue_map(vec![
        ("b".to_string(), MultiValue::List(vec![3, 1, 2])),
        ("a".to_string(), MultiValue::Scalar(7)),
        ("c".to_string(), MultiValue::List(vec![])),
    ]);
    assert_eq!(
        map,
        Ok(vec![
            ("b".to_string(), vec![3, 1, 2]),
            ("a".to_string(), vec![7]),
            ("c".to_string(), vec![])
        ])
    );
    assert_eq!(hash_to_multivalue_map(Vec::<(String, MultiValue<i64>)>::new()), Ok(vec![]));
}

#[test]
fn multivalue_map_refuses_repeated_keys() {
    let map = hash_to_multivalue_map(vec![
        ("a".to_string(), MultiValue::Scalar(1)),
        ("b".to_string(), MultiValue::Scalar(2)),
        ("a".to_string(), MultiValue::Scalar(3)),
    ]);
    assert_eq!(map, Err(Error::ConversionFailure));
}

#[test]
fn repeated_field_refuses_whole_document() {
    let mut index = library();
    index.acquire_index_writer(BUDGET).unwrap();
    let twice = vec![
        ("title".to_string(), MultiValue::Scalar("alpha".to_string())),
        ("title".to_string(), MultiValue::Scalar("beta".to_string())),
    ];
    let added = index.add_document("A".to_string(), twice, vec![], vec![], vec![], vec![], vec![]);
    assert_eq!(added, Err(Error::ConversionFailure));
    let added = index.add_document(
        "A".to_string(),
        one("title", "alpha"),
        one("title", "beta"),
        vec![],
        vec![],
        vec![],
        vec![],
    );
    assert_eq!(added, Ok(()));
    index.commit().unwrap();
    index.reload().unwrap();
    assert_eq!(ids_for(&index, "title", "alpha"), vec!["A"]);
    assert_eq!(ids_for(&index, "title", "beta"), vec!["A"]);
}

#[test]
fn present_texts_skips_gaps() {
    let found = vec![Some("a".to_string()), None, Some("b".to_string()), None];
    assert_eq!(present_texts(&found), vec!["a", "b"]);
    assert_eq!(present_texts(&vec![None, None]), Vec::<String>::new());
}

#[test]
fn directory_index_survives_reopening() {
    let directory = tempfile::tempdir().unwrap();
    let path = directory.path().to_str().unwrap().to_string();
    let tokenizer = Tokenizer::new_simple().unwrap();
    let open = |text: &[&str]| {
        Index::new(
            Some(path.clone()),
            &tokenizer,
            &vec![],
            names(text),
            vec![],
            vec![],
            vec![],
            vec![],
            vec![],
        )
    };
    {
        let mut index = open(&["title"]).unwrap();
        index.acquire_index_writer(BUDGET).unwrap();
        add_titled(&mut index, "A", "alpha").unwrap();
        index.commit().unwrap();
        index.release_index_writer().unwrap();
    }
    let index = open(&["title"]).unwrap();
    assert_eq!(ids_for(&index, "title", "alpha"), vec!["A"]);
    assert_eq!(open(&["title", "body"]).err(), Some(Error::StorageFailure));
}

#[test]
fn id_is_not_a_field_of_values() {
    let mut index = library();
    index.acquire_index_writer(BUDGET).unwrap();
    let added =
        index.add_document("A".to_string(), vec![], one("id", "B"), vec![], vec![], vec![], vec![]);
    assert_eq!(added, Err(Error::ConversionFailure));
    let added =
        index.add_document("A".to_string(), one("id", "B"), vec![], vec![], vec![], vec![], vec![]);
    assert_eq!(added, Err(Error::ConversionFailure));
    index.commit().unwrap();
    index.reload().unwrap();
    assert_eq!(index.search(&Query::new_all(), 10).unwrap(), Vec::<String>::new());
}

#[test]
fn mapped_document_lists_id_first() {
    let index = library();
    let document = index
        .map_document(
            "A",
            &vec![("title".to_string(), vec!["one".to_string(), "two".to_string()])],
            &vec![],
            &vec![("year".to_string(), vec![1999, 2001])],
            &vec![],
            &vec![("published".to_string(), vec!["1970-01-01T00:00:01Z".to_string()])],
            &vec![("shelf".to_string(), vec!["/a/b".to_string()])],
        )
        .unwrap();
    let shown: Vec<(u32, String)> = document
        .field_values()
        .map(|(field, value)| (field.field_id(), format!("{:?}", tantivy::schema::OwnedValue::from(value))))
        .collect();
    assert_eq!(shown.len(), 7);
    assert_eq!(shown[0], (0, "Str(\"A\")".to_string()));
    assert_eq!(shown[1], (1, "Str(\"one\")".to_string()));
    assert_eq!(shown[2], (1, "Str(\"two\")".to_string()));
    assert_eq!(shown[3], (4, "I64(1999)".to_string()));
    assert_eq!(shown[4], (4, "I64(2001)".to_string()));
    assert_eq!(shown[5].0, 6);
    assert_eq!(shown[6].0, 7);
    assert!(shown[5].1.starts_with("Date("));
    assert!(shown[6].1.starts_with("Facet("));
}

#[test]
fn reader_is_stale_until_reloaded() {
    let mut index = library();
    assert_eq!(index.reader_state(), ReaderState::Stale);
    index.reload().unwrap();
    assert_eq!(index.reader_state(), ReaderState::Fresh);
    index.acquire_index_writer(BUDGET).unwrap();
    add_titled(&mut index, "A", "alpha").unwrap();
    index.delete_document("B".to_string()).unwrap();
    assert_eq!(index.reader_state(), ReaderState::Fresh);
    index.commit().unwrap();
    assert_eq!(index.reader_state(), ReaderState::Stale);
    index.release_index_writer().unwrap();
    assert_eq!(index.commit(), Err(Error::NoWriterAvailable));
    assert_eq!(index.reader_state(), ReaderState::Stale);
    index.reload().unwrap();
    assert_eq!(index.reader_state(), ReaderState::Fresh);
    index.reload().unwrap();
    assert_eq!(index.reader_state(), ReaderState::Fresh);
}

#[test]
fn staged_deletion_is_not_visible_before_commit() {
    let mut index = library();
    index.acquire_index_writer(BUDGET).unwrap();
    add_titled(&mut index, "A", "alpha").unwrap();
    index.commit().unwrap();
    index.reload().unwrap();
    assert_eq!(ids_for(&index, "title", "alpha"), vec!["A"]);
    assert_eq!(index.delete_document("A".to_string()), Ok(()));
    assert_eq!(ids_for(&index, "title", "alpha"), vec!["A"]);
    index.reload().unwrap();
    assert_eq!(ids_for(&index, "title", "alpha"), vec!["A"]);
    index.release_index_writer().unwrap();
    index.reload().unwrap();
    assert_eq!(ids_for(&index, "title", "alpha"), vec!["A"]);
}

#[test]
fn search_is_the_same_until_the_next_reload() {
    let mut index = library();
    index.acquire_index_writer(BUDGET).unwrap();
    add_titled(&mut index, "A", "alpha beta").unwrap();
    add_titled(&mut index, "B", "alpha").unwrap();
    index.commit().unwrap();
    index.reload().unwrap();
    let query = Query::new_term(&index, "title".to_string(), "alpha".to_string()).ok().unwrap();
    let seen = index.search(&query, 10).unwrap();
    assert_eq!(seen.len(), 2);
    add_titled(&mut index, "C", "alpha").unwrap();
    index.delete_document("A".to_string()).unwrap();
    assert_eq!(index.search(&query, 10).unwrap(), seen);
    index.commit().unwrap();
    assert_eq!(index.search(&query, 10).unwrap(), seen);
    index.release_index_writer().unwrap();
    index.acquire_index_writer(BUDGET).unwrap();
    assert_eq!(index.search(&query, 10).unwrap(), seen);
    index.reload().unwrap();
    let mut after = index.search(&query, 10).unwrap();
    after.sort();
    assert_eq!(after, vec!["B", "C"]);
}

#[test]
fn search_of_an_empty_index_finds_nothing() {
    let mut index = library();
    assert_eq!(index.search(&Query::new_all(), 10), Ok(vec![]));
    assert_eq!(index.search(&Query::new_all(), i64::MAX), Ok(vec![]));
    index.reload().unwrap();
    assert_eq!(index.search(&Query::new_all(), 1), Ok(vec![]));
}

#[test]
fn search_counts_only_documents_that_are_left() {
    let mut index = library();
    index.acquire_index_writer(BUDGET).unwrap();
    add_titled(&mut index, "A", "alpha").unwrap();
    add_titled(&mut index, "B", "alpha").unwrap();
    add_titled(&mut index, "C", "beta").unwrap();
    index.commit().unwrap();
    index.delete_document("A".to_string()).unwrap();
    index.commit().unwrap();
    index.reload().unwrap();
    let mut all = index.search(&Query::new_all(), i64::MAX).unwrap();
    all.sort();
    assert_eq!(all, vec!["B", "C"]);
    assert_eq!(index.search(&Query::new_all(), 1).unwrap().len(), 1);
    assert_eq!(ids_for(&index, "title", "alpha"), vec!["B"]);
}
