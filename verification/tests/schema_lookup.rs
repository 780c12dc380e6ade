use datafusion_table_providers_quack::conn::{Error, QueryFailure};
use datafusion_table_providers_quack::schema_lookup::{Action, Event, SchemaLookup, Step};
use datafusion_table_providers_quack::table_reference::TableReference;

fn lookup() -> SchemaLookup {
    SchemaLookup::new(TableReference::Partial {
        schema: "main".to_string(),
        table: "My Users".to_string(),
    })
}

fn failure(text: &str) -> QueryFailure {
    QueryFailure::Server(text.to_string())
}

#[test]
fn a_lookup_reads_the_whole_result() {
    let mut lookup = lookup();
    assert_eq!(lookup.sql(), "SELECT * FROM main.\"My Users\" LIMIT 0");
    assert_eq!(lookup.step(), Step::Preparing);
    assert_eq!(lookup.advance(Event::Prepared), Action::OpenResult);
    assert_eq!(lookup.step(), Step::Opening);
    assert_eq!(lookup.advance(Event::Opened), Action::ReadBatch);
    assert_eq!(lookup.step(), Step::Draining);
    assert_eq!(lookup.advance(Event::BatchRead), Action::ReadBatch);
    assert_eq!(lookup.advance(Event::BatchRead), Action::ReadBatch);
    assert_eq!(lookup.step(), Step::Draining);
    assert_eq!(lookup.advance(Event::Exhausted), Action::ReturnSchema);
    assert_eq!(lookup.step(), Step::Finished);
}

#[test]
fn a_missing_table_is_undefined() {
    let mut lookup = lookup();
    let missing = || failure("Table with name My Users does not exist!");
    assert_eq!(
        lookup.advance(Event::PrepareFailed(missing())),
        Action::Fail(Error::UndefinedTable {
            table_name: "main.My Users".to_string(),
            source: missing(),
        })
    );
    assert_eq!(lookup.step(), Step::Finished);
}

#[test]
fn any_other_failure_to_prepare_is_not() {
    let mut lookup = lookup();
    assert_eq!(
        lookup.advance(Event::PrepareFailed(failure("Parser Error"))),
        Action::Fail(Error::UnableToGetSchema {
            source: failure("Parser Error"),
        })
    );
    assert_eq!(lookup.step(), Step::Finished);
}

#[test]
fn a_failure_after_preparing_never_means_a_missing_table() {
    let missing = || failure("Table with name t does not exist!");
    let mut opening = lookup();
    opening.advance(Event::Prepared);
    assert_eq!(
        opening.advance(Event::OpenFailed(missing())),
        Action::Fail(Error::UnableToGetSchema { source: missing() })
    );
    assert_eq!(opening.step(), Step::Finished);
    let mut draining = lookup();
    draining.advance(Event::Prepared);
    draining.advance(Event::Opened);
    assert_eq!(
        draining.advance(Event::BatchFailed(missing())),
        Action::Fail(Error::UnableToGetSchema { source: missing() })
    );
    assert_eq!(draining.step(), Step::Finished);
}
