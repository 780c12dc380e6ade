//! What a connection asks of a Quack server, and what it makes of the replies.

#[allow(unused_imports)]
use crate::batch::{
    column_texts, first_column, first_columns, have_columns, law_result_is_read_or_refused,
    texts_or_message,
};
use crate::batch::{string_column_if_any, ResultBatch};
use crate::table_reference::TableReference;
#[allow(unused_imports)]
use crate::table_reference::{law_reference_reads_back, quoted_reference, read_reference};
use crate::text::{contains, double};
#[allow(unused_imports)]
use crate::text::{
    doubled, law_doubled_text_reads_back, law_standing_text_is_found, occurs_at, occurs_in,
    read_quoted,
};
use quack_protocol::QuackPool;
use vstd::prelude::*;

verus! {

/// The pool of server sessions, carried through as it is.
#[verifier::external_type_specification]
#[verifier::external_body]
pub struct ExQuackPool(QuackPool);

/// Another handle on the same pool: `QuackPool::clone`.
///
/// The contract says that nothing tells the two handles apart.
#[verifier::external_body]
pub(crate) fn share(pool: &QuackPool) -> (handle: QuackPool)
    ensures
        handle == *pool,
{
    pool.clone()
}

/// A connection handle over a shared pool of server sessions.
///
/// Each query leases one of the pool's sessions for exactly as long as its
/// result stream is alive.
pub struct QuackConnection {
    pool: QuackPool,
}

impl QuackConnection {
    /// The pool that the handle stands over.
    pub closed spec fn spec_pool(&self) -> QuackPool {
        self.pool
    }

    /// A handle over `pool`.
    pub fn new(pool: QuackPool) -> (connection: Self)
        ensures
            connection.spec_pool() == pool,
    {
        QuackConnection { pool }
    }

    /// The pool that the handle stands over.
    pub fn pool(&self) -> (pool: &QuackPool)
        ensures
            *pool == self.spec_pool(),
    {
        &self.pool
    }
}

impl Clone for QuackConnection {
    /// Another handle over the same pool.
    fn clone(&self) -> (copy: Self)
        ensures
            copy.spec_pool() == self.spec_pool(),
    {
        QuackConnection { pool: share(&self.pool) }
    }
}

/// Why a query, or the connection it ran on, failed.
#[derive(Debug, PartialEq, Eq)]
pub enum QueryFailure {
    /// The server's reply was not understood.
    Protocol(String),
    /// The server refused the request; the text is its message.
    Server(String),
    /// The reply holds a type that has no counterpart here.
    UnsupportedType(String),
    /// The transport failed.
    Http(String),
    /// The server's address could not be read.
    Url(String),
    /// The reply holds bytes that are not text.
    Utf8(String),
}

impl QueryFailure {
    /// What precedes the failure's own text in its message.
    pub open spec fn label(self) -> Seq<char> {
        match self {
            QueryFailure::Protocol(_) => "quack protocol error: "@,
            QueryFailure::Server(_) => "quack server error: "@,
            QueryFailure::UnsupportedType(_) => "unsupported quack type: "@,
            QueryFailure::Http(_) => "http error: "@,
            QueryFailure::Url(_) => "url parse error: "@,
            QueryFailure::Utf8(_) => "utf-8 error: "@,
        }
    }

    /// The failure's own text.
    pub open spec fn text(self) -> Seq<char> {
        match self {
            QueryFailure::Protocol(text) => text@,
            QueryFailure::Server(text) => text@,
            QueryFailure::UnsupportedType(text) => text@,
            QueryFailure::Http(text) => text@,
            QueryFailure::Url(text) => text@,
            QueryFailure::Utf8(text) => text@,
        }
    }

    /// The failure in words.
    pub fn message(&self) -> (message: String)
        ensures
            message@ == self.label() + self.text(),
    {
        let (label, text) = match self {
            QueryFailure::Protocol(text) => ("quack protocol error: ", text),
            QueryFailure::Server(text) => ("quack server error: ", text),
            QueryFailure::UnsupportedType(text) => ("unsupported quack type: ", text),
            QueryFailure::Http(text) => ("http error: ", text),
            QueryFailure::Url(text) => ("url parse error: ", text),
            QueryFailure::Utf8(text) => ("utf-8 error: ", text),
        };
        let mut message = label.to_owned();
        message.append(text.as_str());
        message
    }
}

/// Why the texts in a result's first column could not be had.
#[derive(Debug, PartialEq, Eq)]
pub enum ColumnFailure {
    /// The query failed.
    Query(QueryFailure),
    /// The column holds something other than text; the text says what.
    NotText(String),
}

/// Why a connection could not answer.
#[allow(inconsistent_fields)]
#[derive(Debug, PartialEq, Eq)]
pub enum Error {
    /// The table does not exist on the server.
    UndefinedTable { table_name: String, source: QueryFailure },
    /// The schema of a table could not be read.
    UnableToGetSchema { source: QueryFailure },
    /// The schemas of the server could not be listed.
    UnableToGetSchemas { source: ColumnFailure },
    /// The tables of a schema could not be listed.
    UnableToGetTables { source: ColumnFailure },
}

/// `value` as a single-quoted literal, with the quotation marks in it doubled.
pub open spec fn quoted_literal(value: Seq<char>) -> Seq<char> {
    seq!['\''] + doubled(value, '\'').push('\'')
}

/// Renders `value` as a single-quoted DuckDB string literal.
pub fn quote_literal(value: &str) -> (literal: String)
    ensures
        literal@ == quoted_literal(value@),
{
    let mut literal = String::new();
    literal.push('\'');
    literal.append(double(value, '\'').as_str());
    literal.push('\'');
    assert(literal@ == quoted_literal(value@));
    literal
}

/// The literal of a text reads back as that text, and ends where the literal
/// ends, in any statement that does not go on with another quotation mark.
pub proof fn law_literal_reads_back(value: Seq<char>, rest: Seq<char>)
    requires
        rest.len() == 0 || rest[0] != '\'',
    ensures
        (quoted_literal(value) + rest)[0] == '\'',
        read_quoted((quoted_literal(value) + rest).drop_first(), '\'') == Some((value, rest)),
{
    law_doubled_text_reads_back(value, '\'', rest);
    assert((quoted_literal(value) + rest).drop_first() == doubled(value, '\'').push('\'') + rest);
}

/// Different texts have different literals.
pub proof fn law_literals_are_distinct(a: Seq<char>, b: Seq<char>)
    requires
        quoted_literal(a) == quoted_literal(b),
    ensures
        a == b,
{
    let nothing = Seq::<char>::empty();
    law_literal_reads_back(a, nothing);
    law_literal_reads_back(b, nothing);
}

/// The statement that lists the tables of `schema`.
pub open spec fn tables_statement(schema: Seq<char>) -> Seq<char> {
    "SELECT table_name FROM information_schema.tables WHERE table_schema = "@ + quoted_literal(
        schema,
    ) + " ORDER BY table_name"@
}

/// The statement that lists the tables of `schema`.
pub fn tables_sql(schema: &str) -> (sql: String)
    ensures
        sql@ == tables_statement(schema@),
{
    let mut sql = "SELECT table_name FROM information_schema.tables WHERE table_schema = ".to_owned();
    sql.append(quote_literal(schema).as_str());
    sql.append(" ORDER BY table_name");
    sql
}

/// In the statement that lists tables, the name of the schema is one literal and
/// nothing else, whatever characters it holds.
pub proof fn law_schema_name_stays_in_its_literal(schema: Seq<char>)
    ensures
        ({
            let start =
                "SELECT table_name FROM information_schema.tables WHERE table_schema = "@.len() as int;
            let tail = tables_statement(schema).skip(start);
            &&& tail[0] == '\''
            &&& read_quoted(tail.drop_first(), '\'') == Some((schema, " ORDER BY table_name"@))
        }),
{
    let head = "SELECT table_name FROM information_schema.tables WHERE table_schema = "@;
    let rest = " ORDER BY table_name"@;
    reveal_strlit(" ORDER BY table_name");
    law_literal_reads_back(schema, rest);
    assert(tables_statement(schema).skip(head.len() as int) == quoted_literal(schema) + rest);
}

/// The statement that lists the server's own schemas, without those of the
/// system.
pub fn schemas_sql() -> (sql: String)
    ensures
        sql@
            == "SELECT schema_name FROM information_schema.schemata WHERE schema_name NOT IN ('information_schema', 'pg_catalog') ORDER BY schema_name"@,
{
    "SELECT schema_name FROM information_schema.schemata WHERE schema_name NOT IN ('information_schema', 'pg_catalog') ORDER BY schema_name".to_owned()
}

/// The statement from whose columns a table's schema is read.
pub open spec fn schema_statement(table: Seq<Seq<char>>) -> Seq<char> {
    "SELECT * FROM "@ + quoted_reference(table) + " LIMIT 0"@
}

/// The statement from whose columns a table's schema is read.
pub fn schema_sql(table: &TableReference) -> (sql: String)
    ensures
        sql@ == schema_statement(table@),
{
    let mut sql = "SELECT * FROM ".to_owned();
    sql.append(table.to_quoted_text().as_str());
    sql.append(" LIMIT 0");
    sql
}

/// In the statement that a schema is read from, the table's reference is that
/// reference and nothing else, whatever characters its parts hold.
pub proof fn law_reference_stays_in_its_place(table: Seq<Seq<char>>)
    requires
        table.len() > 0,
    ensures
        read_reference(schema_statement(table).skip("SELECT * FROM "@.len() as int)) == Some(
            (table, " LIMIT 0"@),
        ),
{
    let head = "SELECT * FROM "@;
    let rest = " LIMIT 0"@;
    reveal_strlit(" LIMIT 0");
    law_reference_reads_back(table, rest);
    assert(schema_statement(table).skip(head.len() as int) == quoted_reference(table) + rest);
}

/// Whether `r` is what becomes of the query `sql`: the texts in the first column
/// of its result, or why they could not be had.
pub open spec fn is_column_reply(
    sql: Seq<char>,
    outcome: Result<Vec<ResultBatch>, QueryFailure>,
    r: Result<Vec<String>, ColumnFailure>,
) -> bool {
    match outcome {
        Err(failure) => r == Err::<Vec<String>, ColumnFailure>(ColumnFailure::Query(failure)),
        Ok(batches) => match r {
            Ok(texts) => texts_or_message(sql, first_columns(batches@), Ok(texts)),
            Err(ColumnFailure::NotText(message)) => texts_or_message(
                sql,
                first_columns(batches@),
                Err(message),
            ),
            Err(ColumnFailure::Query(_)) => false,
        },
    }
}

/// What becomes of the query `sql`: the texts in the first column of its result,
/// without the `NULL`s, or why they could not be had. Nothing, where some part of
/// the result has no column.
pub fn column_reply(sql: &str, outcome: Result<Vec<ResultBatch>, QueryFailure>) -> (r: Option<
    Result<Vec<String>, ColumnFailure>,
>)
    ensures
        r is None <==> outcome is Ok && !have_columns(outcome->Ok_0@),
        r is Some ==> is_column_reply(sql@, outcome, r->0),
{
    match outcome {
        Err(failure) => Some(Err(ColumnFailure::Query(failure))),
        Ok(batches) => match string_column_if_any(sql, &batches) {
            None => None,
            Some(Ok(texts)) => Some(Ok(texts)),
            Some(Err(message)) => Some(Err(ColumnFailure::NotText(message))),
        },
    }
}

/// The reply to a listing of tables, from the texts in the first column of its
/// result.
pub fn tables_reply(names: Result<Vec<String>, ColumnFailure>) -> (reply: Result<
    Vec<String>,
    Error,
>)
    ensures
        reply == (match names {
            Ok(names) => Ok(names),
            Err(source) => Err(Error::UnableToGetTables { source }),
        }),
{
    match names {
        Ok(names) => Ok(names),
        Err(source) => Err(Error::UnableToGetTables { source }),
    }
}

/// The reply to a listing of schemas, from the texts in the first column of its
/// result.
pub fn schemas_reply(names: Result<Vec<String>, ColumnFailure>) -> (reply: Result<
    Vec<String>,
    Error,
>)
    ensures
        reply == (match names {
            Ok(names) => Ok(names),
            Err(source) => Err(Error::UnableToGetSchemas { source }),
        }),
{
    match names {
        Ok(names) => Ok(names),
        Err(source) => Err(Error::UnableToGetSchemas { source }),
    }
}

/// A value in the first column of a statement's result, as far as counting rows
/// needs it.
#[derive(Debug, Clone, Copy, PartialEq, Eq)]
pub enum Value {
    /// A signed integer.
    Int(i64),
    /// An unsigned integer.
    UInt(u64),
    /// Anything else.
    Other,
}

/// The number of rows that a statement changed.
///
/// A statement that changes rows is answered with a single count; any other
/// answer, or a negative count, stands for none.
pub open spec fn changed_rows(values: Seq<Value>) -> int {
    if values.len() != 1 {
        0
    } else {
        match values[0] {
            Value::Int(n) => if n >= 0 {
                n as int
            } else {
                0
            },
            Value::UInt(n) => n as int,
            Value::Other => 0,
        }
    }
}

/// The number of rows that a statement changed, from the first column of its
/// result.
pub fn affected_rows(values: &Vec<Value>) -> (n: u64)
    ensures
        n == changed_rows(values@),
{
    if values.len() != 1 {
        return 0;
    }
    match values[0] {
        Value::Int(n) => if n >= 0 {
            n as u64
        } else {
            0
        },
        Value::UInt(n) => n,
        Value::Other => 0,
    }
}

/// Whether a server's message says that a table does not exist.
///
/// DuckDB says `Catalog Error: Table with name x does not exist!`; the server
/// forwards it without what precedes the colon.
pub open spec fn says_table_is_missing(message: Seq<char>) -> bool {
    &&& occurs_in(message, "does not exist"@)
    &&& occurs_in(message, "Table with name"@) || occurs_in(message, "Catalog Error"@)
}

/// Whether a failure means that the table does not exist on the server.
pub open spec fn means_undefined_table(failure: QueryFailure) -> bool {
    match failure {
        QueryFailure::Server(message) => says_table_is_missing(message@),
        _ => false,
    }
}

/// Whether a failure to prepare a query means that the table does not exist on
/// the server.
pub fn is_undefined_table(failure: &QueryFailure) -> (yes: bool)
    ensures
        yes == means_undefined_table(*failure),
{
    match failure {
        QueryFailure::Server(message) => {
            contains(message.as_str(), "does not exist") && (contains(
                message.as_str(),
                "Table with name",
            ) || contains(message.as_str(), "Catalog Error"))
        },
        _ => false,
    }
}

/// What stands in a text stands in every longer text around it.
proof fn lemma_occurs_in_longer(
    text: Seq<char>,
    needle: Seq<char>,
    before: Seq<char>,
    after: Seq<char>,
)
    requires
        occurs_in(text, needle),
    ensures
        occurs_in(before + text + after, needle),
{
    let at = choose|at: int| occurs_at(text, needle, at);
    let long = before + text + after;
    let there = before.len() + at;
    assert(long.subrange(there, there + needle.len()) == text.subrange(at, at + needle.len()));
    assert(occurs_at(long, needle, there));
}

/// A message that says a table is missing still says so with other text before
/// or after it: with or without the prefix of the error's class, and with the
/// hints that follow.
pub proof fn law_missing_table_is_seen_in_context(
    message: Seq<char>,
    before: Seq<char>,
    after: Seq<char>,
)
    requires
        says_table_is_missing(message),
    ensures
        says_table_is_missing(before + message + after),
{
    lemma_occurs_in_longer(message, "does not exist"@, before, after);
    if occurs_in(message, "Table with name"@) {
        lemma_occurs_in_longer(message, "Table with name"@, before, after);
    } else {
        lemma_occurs_in_longer(message, "Catalog Error"@, before, after);
    }
}

/// A literal is the text with its quotation marks doubled, between two quotation
/// marks.
pub proof fn law_literal_stands_between_marks(value: Seq<char>)
    ensures
        quoted_literal(value) == "'"@ + doubled(value, '\'') + "'"@,
{
    reveal_strlit("'");
}

/// The statement that lists tables asks the information schema for the names of
/// the tables in that schema, in order.
pub proof fn law_tables_are_listed_by_schema(schema: Seq<char>)
    ensures
        tables_statement(schema).take(70)
            == "SELECT table_name FROM information_schema.tables WHERE table_schema = "@,
        tables_statement(schema).skip(70) == quoted_literal(schema) + " ORDER BY table_name"@,
{
    let head = "SELECT table_name FROM information_schema.tables WHERE table_schema = "@;
    reveal_strlit("SELECT table_name FROM information_schema.tables WHERE table_schema = ");
    assert(head.len() == 70);
    assert(tables_statement(schema).take(70) == head);
    assert(tables_statement(schema).skip(70) == quoted_literal(schema) + " ORDER BY table_name"@);
}

/// The statement that a schema is read from selects every column of the table, and
/// no row.
pub proof fn law_schema_is_read_from_every_column(table: Seq<Seq<char>>)
    ensures
        schema_statement(table).take(14) == "SELECT * FROM "@,
        schema_statement(table).skip(14) == quoted_reference(table) + " LIMIT 0"@,
{
    let head = "SELECT * FROM "@;
    reveal_strlit("SELECT * FROM ");
    assert(head.len() == 14);
    assert(schema_statement(table).take(14) == head);
    assert(schema_statement(table).skip(14) == quoted_reference(table) + " LIMIT 0"@);
}

/// A single count is reported as it is; a negative one, or one value of any other
/// kind, as none.
pub proof fn law_single_count_is_reported(signed: i64, unsigned: u64)
    ensures
        signed >= 0 ==> changed_rows(seq![Value::Int(signed)]) == signed,
        signed < 0 ==> changed_rows(seq![Value::Int(signed)]) == 0,
        changed_rows(seq![Value::UInt(unsigned)]) == unsigned,
        changed_rows(seq![Value::Other]) == 0,
{
}

/// Where there is no value, or more than one, no row is reported.
pub proof fn law_other_replies_count_nothing(values: Seq<Value>)
    requires
        values.len() != 1,
    ensures
        changed_rows(values) == 0,
{
}

/// A failure's message is its own text behind the words for its kind.
pub proof fn law_failure_is_worded_by_kind(text: String)
    ensures
        QueryFailure::Protocol(text).label() + QueryFailure::Protocol(text).text()
            == "quack protocol error: "@ + text@,
        QueryFailure::Server(text).label() + QueryFailure::Server(text).text()
            == "quack server error: "@ + text@,
        QueryFailure::UnsupportedType(text).label() + QueryFailure::UnsupportedType(text).text()
            == "unsupported quack type: "@ + text@,
        QueryFailure::Http(text).label() + QueryFailure::Http(text).text() == "http error: "@
            + text@,
        QueryFailure::Url(text).label() + QueryFailure::Url(text).text() == "url parse error: "@
            + text@,
        QueryFailure::Utf8(text).label() + QueryFailure::Utf8(text).text() == "utf-8 error: "@
            + text@,
{
}

/// A message of the server says that a table is missing wherever `does not exist`
/// stands in it together with `Table with name` or `Catalog Error`, in either
/// order and with any text around and between them.
pub proof fn law_missing_table_is_recognised(
    before: Seq<char>,
    between: Seq<char>,
    after: Seq<char>,
)
    ensures
        says_table_is_missing(
            before + "Table with name"@ + between + "does not exist"@ + after,
        ),
        says_table_is_missing(
            before + "does not exist"@ + between + "Table with name"@ + after,
        ),
        says_table_is_missing(before + "Catalog Error"@ + between + "does not exist"@ + after),
        says_table_is_missing(before + "does not exist"@ + between + "Catalog Error"@ + after),
{
    lemma_both_occur(before, "Table with name"@, between, "does not exist"@, after);
    lemma_both_occur(before, "does not exist"@, between, "Table with name"@, after);
    lemma_both_occur(before, "Catalog Error"@, between, "does not exist"@, after);
    lemma_both_occur(before, "does not exist"@, between, "Catalog Error"@, after);
}

proof fn lemma_both_occur(
    before: Seq<char>,
    first: Seq<char>,
    between: Seq<char>,
    second: Seq<char>,
    after: Seq<char>,
)
    ensures
        occurs_in(before + first + between + second + after, first),
        occurs_in(before + first + between + second + after, second),
{
    let text = before + first + between + second + after;
    law_standing_text_is_found(before, first, between + second + after);
    assert(text == before + first + (between + second + after));
    law_standing_text_is_found(before + first + between, second, after);
}

/// A message of the server says that a table is missing exactly where it holds both
/// halves of such a message.
pub proof fn law_missing_table_needs_both_halves(message: Seq<char>)
    ensures
        says_table_is_missing(message) <==> occurs_in(message, "does not exist"@) && (occurs_in(
            message,
            "Table with name"@,
        ) || occurs_in(message, "Catalog Error"@)),
{
}

/// The server's own messages alone decide whether a table is missing: each that
/// says so does, and no failure of another kind.
pub proof fn law_only_the_server_knows_its_tables(text: String)
    ensures
        means_undefined_table(QueryFailure::Server(text)) <==> says_table_is_missing(text@),
        !means_undefined_table(QueryFailure::Protocol(text)),
        !means_undefined_table(QueryFailure::UnsupportedType(text)),
        !means_undefined_table(QueryFailure::Http(text)),
        !means_undefined_table(QueryFailure::Url(text)),
        !means_undefined_table(QueryFailure::Utf8(text)),
{
}

/// A query that failed is answered with its failure, one whose columns are all text
/// with their texts, and any other with a message that holds the statement and the
/// type of the first column that is not text.
pub proof fn law_listing_is_the_whole_column(
    sql: Seq<char>,
    outcome: Result<Vec<ResultBatch>, QueryFailure>,
    at: int,
    r: Result<Vec<String>, ColumnFailure>,
)
    requires
        is_column_reply(sql, outcome, r),
        outcome matches Ok(batches) ==> 0 <= at <= batches@.len() && (forall|i: int|
            0 <= i < at ==> first_column(#[trigger] batches@[i]) is Text) && (at < batches@.len()
            ==> first_column(batches@[at]) is Other),
    ensures
        outcome matches Err(failure) ==> r == Err::<Vec<String>, ColumnFailure>(
            ColumnFailure::Query(failure),
        ),
        outcome is Ok && at == outcome->Ok_0@.len() ==> r is Ok && r->Ok_0.deep_view()
            == column_texts(
            outcome->Ok_0@.map_values(|batch: ResultBatch| first_column(batch)),
        ),
        outcome is Ok && at < outcome->Ok_0@.len() ==> r is Err && r->Err_0 is NotText
            && r->Err_0->NotText_0@ == "expected a VARCHAR column from '"@ + sql + "', got "@
            + first_column(outcome->Ok_0@[at])->Other_0,
{
    if let Ok(batches) = outcome {
        let columns = batches@.map_values(|batch: ResultBatch| first_column(batch));
        assert(first_columns(batches@) == columns);
        assert forall|i: int| 0 <= i < at implies (#[trigger] columns[i]) is Text by {
            assert(first_column(batches@[i]) is Text);
        }
        let read: Result<Vec<String>, String> = match r {
            Ok(texts) => Ok(texts),
            Err(ColumnFailure::NotText(message)) => Err(message),
            Err(ColumnFailure::Query(_)) => arbitrary(),
        };
        law_result_is_read_or_refused(sql, columns, at, read);
    }
}

} // verus!
