use std::sync::Arc;

use arrow::array::{
    ArrayRef, BooleanArray, Int32Array, LargeStringArray, RecordBatch, StringArray,
};
use arrow::datatypes::Schema;
use datafusion_table_providers_quack::batch::{
    collect_texts, string_column, string_column_if_any, Column, ResultBatch,
};

fn batch(columns: Vec<ArrayRef>) -> ResultBatch {
    let names = ["a", "b"];
    ResultBatch {
        inner: RecordBatch::try_from_iter(names.into_iter().zip(columns)).expect("columns"),
    }
}

fn texts(values: Vec<Option<&str>>) -> ArrayRef {
    Arc::new(StringArray::from(values))
}

fn owned(values: &[&str]) -> Vec<String> {
    values.iter().map(|value| (*value).to_string()).collect()
}

#[test]
fn the_first_column_is_read_without_its_nulls() {
    let batches = vec![
        batch(vec![
            texts(vec![Some("a"), None, Some("")]),
            texts(vec![Some("x"), Some("y"), Some("z")]),
        ]),
        batch(vec![texts(vec![None])]),
        batch(vec![texts(vec![])]),
        batch(vec![texts(vec![Some("b"), Some("a")])]),
    ];
    assert_eq!(
        string_column("SELECT a", &batches),
        Ok(owned(&["a", "", "b", "a"]))
    );
}

#[test]
fn where_a_result_is_cut_does_not_matter() {
    let whole = vec![batch(vec![texts(vec![Some("a"), None, Some("b")])])];
    for cut in 0..=3 {
        let values = [Some("a"), None, Some("b")];
        let parts = vec![
            batch(vec![texts(values[..cut].to_vec())]),
            batch(vec![texts(values[cut..].to_vec())]),
        ];
        assert_eq!(string_column("q", &parts), string_column("q", &whole));
    }
}

#[test]
fn another_type_is_refused_by_name() {
    let other: [(ArrayRef, &str); 3] = [
        (Arc::new(Int32Array::from(vec![1])), "Int32"),
        (Arc::new(BooleanArray::from(vec![true])), "Boolean"),
        (Arc::new(LargeStringArray::from(vec!["a"])), "LargeUtf8"),
    ];
    for (column, name) in other {
        assert_eq!(
            string_column("SELECT 'a'", &vec![batch(vec![column])]),
            Err(format!(
                "expected a VARCHAR column from 'SELECT 'a'', got {name}"
            ))
        );
    }
}

#[test]
fn the_first_column_of_another_type_is_the_one_named() {
    let columns = vec![
        Column::Text(vec![Some("a".to_string())]),
        Column::Other("Int32".to_string()),
        Column::Other("Boolean".to_string()),
    ];
    assert_eq!(
        collect_texts("q", &columns),
        Err("expected a VARCHAR column from 'q', got Int32".to_string())
    );
    let columns = vec![
        Column::Text(vec![Some("a".to_string()), None]),
        Column::Text(vec![Some("b".to_string())]),
    ];
    assert_eq!(collect_texts("q", &columns), Ok(owned(&["a", "b"])));
}

#[test]
fn a_batch_without_columns_is_seen() {
    let empty = || ResultBatch {
        inner: RecordBatch::new_empty(Arc::new(Schema::empty())),
    };
    assert!(!empty().has_columns());
    let full = batch(vec![texts(vec![Some("a")])]);
    assert!(full.has_columns());
    assert_eq!(string_column_if_any("q", &vec![full, empty()]), None);
    assert_eq!(string_column_if_any("q", &vec![]), Some(Ok(vec![])));
    let full = batch(vec![texts(vec![Some("a")])]);
    assert_eq!(
        string_column_if_any("q", &vec![full]),
        Some(Ok(owned(&["a"])))
    );
}
