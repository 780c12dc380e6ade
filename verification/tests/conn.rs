use std::sync::Arc;

use arrow::array::{ArrayRef, Int32Array, RecordBatch, StringArray};
use datafusion_table_providers_quack::batch::ResultBatch;
use datafusion_table_providers_quack::conn::{
    affected_rows, column_reply, is_undefined_table, quote_literal, schema_sql, schemas_reply,
    schemas_sql, tables_reply, tables_sql, ColumnFailure, Error, QueryFailure, Value,
};
use datafusion_table_providers_quack::table_reference::TableReference;
use quack_protocol::QuackError;

#[test]
fn literals_are_escaped() {
    assert_eq!(quote_literal("main"), "'main'");
    assert_eq!(quote_literal("o'clock"), "'o''clock'");
}

#[test]
fn missing_table_is_detected_from_server_message() {
    // As DuckDB phrases it, and as the Quack server forwards it (no prefix).
    let missing = QueryFailure::Server(
        "Catalog Error: Table with name nope does not exist!\nDid you mean \"pg_type\"?".into(),
    );
    assert!(is_undefined_table(&missing));
    let forwarded = QueryFailure::Server(
        "Table with name nope does not exist!\nDid you mean \"pg_type\"?\n\nLINE 1: SELECT * FROM nope LIMIT 0".into(),
    );
    assert!(is_undefined_table(&forwarded));

    let other = QueryFailure::Server("Binder Error: column \"x\" not found".into());
    assert!(!is_undefined_table(&other));

    let transport = QueryFailure::Protocol("Catalog Error: does not exist".into());
    assert!(!is_undefined_table(&transport));
}

#[test]
fn both_halves_of_the_message_are_needed() {
    let server = |message: &str| is_undefined_table(&QueryFailure::Server(message.to_string()));
    assert!(server("Catalog Error: does not exist"));
    assert!(server("does not exist: Table with name x"));
    assert!(!server("Catalog Error: Table with name x"));
    assert!(!server("Schema x does not exist"));
    assert!(!server("catalog error: does not exist"));
    assert!(!server(""));
    let text = "Table with name x does not exist!".to_string();
    assert!(!is_undefined_table(&QueryFailure::UnsupportedType(text.clone())));
    assert!(!is_undefined_table(&QueryFailure::Http(text.clone())));
    assert!(!is_undefined_table(&QueryFailure::Url(text.clone())));
    assert!(!is_undefined_table(&QueryFailure::Utf8(text)));
}

#[test]
fn literals_of_awkward_texts_read_back() {
    assert_eq!(quote_literal(""), "''");
    assert_eq!(quote_literal("'"), "''''");
    assert_eq!(quote_literal("''; DROP"), "'''''; DROP'");
    for text in ["", "a", "'", "''", "a'b''c", "\u{e9}'\n", "'; --"] {
        let literal = quote_literal(text);
        assert_eq!(literal, format!("'{}'", text.replace('\'', "''")));
        let inner = &literal[1..literal.len() - 1];
        assert_eq!(inner.replace("''", "'"), text);
    }
    assert_ne!(quote_literal("'"), quote_literal("''"));
}

#[test]
fn listing_statements_are_those_of_the_information_schema() {
    assert_eq!(
        tables_sql("main"),
        "SELECT table_name FROM information_schema.tables WHERE table_schema = 'main' ORDER BY table_name"
    );
    assert_eq!(
        tables_sql("o'clock"),
        "SELECT table_name FROM information_schema.tables WHERE table_schema = 'o''clock' ORDER BY table_name"
    );
    assert_eq!(
        schemas_sql(),
        "SELECT schema_name FROM information_schema.schemata \
         WHERE schema_name NOT IN ('information_schema', 'pg_catalog') \
         ORDER BY schema_name"
    );
}

#[test]
fn schema_statement_quotes_the_reference() {
    let bare = TableReference::Bare {
        table: "users".to_string(),
    };
    assert_eq!(schema_sql(&bare), "SELECT * FROM users LIMIT 0");
    let odd = TableReference::Full {
        catalog: "db".to_string(),
        schema: "My Schema".to_string(),
        table: "a\"b".to_string(),
    };
    assert_eq!(
        schema_sql(&odd),
        "SELECT * FROM db.\"My Schema\".\"a\"\"b\" LIMIT 0"
    );
}

#[test]
fn a_single_count_is_the_number_of_rows() {
    assert_eq!(affected_rows(&vec![Value::Int(3)]), 3);
    assert_eq!(affected_rows(&vec![Value::Int(0)]), 0);
    assert_eq!(affected_rows(&vec![Value::Int(-1)]), 0);
    assert_eq!(affected_rows(&vec![Value::Int(i64::MIN)]), 0);
    assert_eq!(affected_rows(&vec![Value::Int(i64::MAX)]), i64::MAX as u64);
    assert_eq!(affected_rows(&vec![Value::UInt(u64::MAX)]), u64::MAX);
    assert_eq!(affected_rows(&vec![Value::Other]), 0);
    assert_eq!(affected_rows(&vec![]), 0);
    assert_eq!(affected_rows(&vec![Value::UInt(1), Value::UInt(2)]), 0);
}

#[test]
fn failures_are_worded_as_the_client_words_them() {
    let text = || "what happened".to_string();
    assert_eq!(
        QueryFailure::Protocol(text()).message(),
        QuackError::Protocol(text()).to_string()
    );
    assert_eq!(
        QueryFailure::Server(text()).message(),
        QuackError::Server(text()).to_string()
    );
    assert_eq!(
        QueryFailure::UnsupportedType(text()).message(),
        QuackError::UnsupportedType(text()).to_string()
    );
    let utf8 = String::from_utf8(vec![0xff]).expect_err("not text");
    assert_eq!(
        QueryFailure::Utf8(utf8.to_string()).message(),
        QuackError::Utf8(utf8).to_string()
    );
    assert_eq!(
        QueryFailure::Http(text()).message(),
        "http error: what happened"
    );
    assert_eq!(
        QueryFailure::Url(text()).message(),
        "url parse error: what happened"
    );
}

fn batch(column: ArrayRef) -> ResultBatch {
    ResultBatch {
        inner: RecordBatch::try_from_iter([("name", column)]).expect("one column"),
    }
}

#[test]
fn a_listing_is_the_first_column_or_a_failure() {
    let names = batch(Arc::new(StringArray::from(vec![
        Some("orders"),
        None,
        Some("users"),
    ])));
    assert_eq!(
        column_reply("SELECT 1", Ok(vec![names])),
        Some(Ok(vec!["orders".to_string(), "users".to_string()]))
    );
    let numbers = batch(Arc::new(Int32Array::from(vec![1])));
    assert_eq!(
        column_reply("SELECT 1", Ok(vec![numbers])),
        Some(Err(ColumnFailure::NotText(
            "expected a VARCHAR column from 'SELECT 1', got Int32".to_string()
        )))
    );
    let failure = || QueryFailure::Server("no".to_string());
    assert_eq!(
        column_reply("SELECT 1", Err(failure())),
        Some(Err(ColumnFailure::Query(failure())))
    );
    assert_eq!(column_reply("SELECT 1", Ok(vec![])), Some(Ok(vec![])));
}

#[test]
fn a_failed_listing_says_what_was_listed() {
    let failure = || ColumnFailure::NotText("no".to_string());
    assert_eq!(
        tables_reply(Err(failure())),
        Err(Error::UnableToGetTables { source: failure() })
    );
    assert_eq!(
        schemas_reply(Err(failure())),
        Err(Error::UnableToGetSchemas { source: failure() })
    );
    let names = || vec!["main".to_string()];
    assert_eq!(tables_reply(Ok(names())), Ok(names()));
    assert_eq!(schemas_reply(Ok(names())), Ok(names()));
}
