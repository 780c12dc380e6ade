//! Tables on a DuckDB server that speaks the Quack remote protocol.
//!
//! The crate holds what such tables are made from, proved: how the parameters of
//! a connection pool are read ([`pool`]), which statements a connection sends and
//! what it makes of the replies ([`conn`], [`batch`], [`schema_lookup`]), and how
//! a `CREATE EXTERNAL TABLE` statement names a server and a table (this module).
//! The sessions themselves, which are asynchronous, are driven from outside.

use crate::pool::{QuackConnectionPool, QuackPoolConfig};
#[allow(unused_imports)]
use crate::pool::{config_of, first_error};
use crate::secrets::SecretMap;
use crate::table_reference::TableReference;
#[allow(unused_imports)]
use crate::table_reference::{
    is_full_reference, lemma_quoted_reference_is_visible, parsed_reference, quoted_reference,
};
#[allow(unused_imports)]
use crate::text::{after_prefix, lemma_visible_text_is_kept, trimmed};
use crate::text::{strip_prefix, trim};
use datafusion_sql::unparser::dialect::{Dialect, DuckDBDialect};
use std::sync::Arc;
use vstd::prelude::*;

pub mod batch;
pub mod conn;
pub mod duration;
pub mod pool;
pub mod schema_lookup;
pub mod secrets;
pub mod table_reference;
pub mod text;

/// The client crate, so that callers can match versions and reach the raw pool.
pub use quack_protocol;

verus! {

/// Why a table could not be provided.
#[allow(inconsistent_fields)]
#[derive(Debug, PartialEq, Eq)]
pub enum Error {
    /// The connection pool could not be opened.
    UnableToCreateConnectionPool { source: pool::Error },
    /// The table's provider could not be made; the text says why.
    UnableToCreateTableProvider { source: String },
    /// The table could not be made part of whole queries that run on the server;
    /// the text says why.
    UnableToCreateFederatedTableProvider { source: String },
}

impl Error {
    /// The error in words.
    pub open spec fn spec_message(self) -> Seq<char> {
        match self {
            Error::UnableToCreateConnectionPool { source } => {
                "Unable to create Quack connection pool: "@ + source@.message()
            },
            Error::UnableToCreateTableProvider { source } => {
                "Unable to create table provider: "@ + source@
            },
            Error::UnableToCreateFederatedTableProvider { source } => {
                "Unable to create federated table provider: "@ + source@
            },
        }
    }

    /// The error in words.
    pub fn message(&self) -> (message: String)
        ensures
            message@ == self.spec_message(),
    {
        match self {
            Error::UnableToCreateConnectionPool { source } => {
                let mut message = "Unable to create Quack connection pool: ".to_owned();
                message.append(source.message().as_str());
                message
            },
            Error::UnableToCreateTableProvider { source } => {
                let mut message = "Unable to create table provider: ".to_owned();
                message.append(source.as_str());
                message
            },
            Error::UnableToCreateFederatedTableProvider { source } => {
                let mut message = "Unable to create federated table provider: ".to_owned();
                message.append(source.as_str());
                message
            },
        }
    }
}

/// The dialect in which expressions are written as SQL, carried through as it is.
#[verifier::external_type_specification]
#[verifier::external_body]
pub struct ExDuckDBDialect(DuckDBDialect);

/// The functions that a dialect writes in a way of its user's own.
pub uninterp spec fn overridden_functions(dialect: DuckDBDialect) -> Set<Seq<char>>;

/// The dialect of DuckDB: `DuckDBDialect::new`.
///
/// The contract says that no function is overridden in it. How it writes the
/// functions themselves is not stated.
#[verifier::external_body]
fn new_dialect() -> (dialect: DuckDBDialect)
    ensures
        overridden_functions(dialect) == Set::<Seq<char>>::empty(),
{
    DuckDBDialect::new()
}

/// The dialect of every statement that is sent to a server, which speaks DuckDB's
/// SQL: that of DuckDB, with no function overridden.
pub fn dialect() -> (dialect: Arc<DuckDBDialect>)
    ensures
        overridden_functions(*dialect) == Set::<Seq<char>>::empty(),
{
    Arc::new(new_dialect())
}

/// The mark that a dialect puts around an identifier: `identifier_quote_style` of
/// `DuckDBDialect`.
///
/// The contract says that it is the double quotation mark, for every identifier.
#[verifier::external_body]
fn quote_style(dialect: &DuckDBDialect, identifier: &str) -> (mark: Option<char>)
    ensures
        mark == Some('"'),
{
    dialect.identifier_quote_style(identifier)
}

/// The mark that stands around an identifier in every statement that is sent to a
/// server: the double quotation mark, as in DuckDB.
pub fn identifier_quote_style(identifier: &str) -> (mark: Option<char>)
    ensures
        mark == Some('"'),
{
    quote_style(&dialect(), identifier)
}

/// Creates read-only providers for the tables that a connection pool reaches.
pub struct QuackTableFactory {
    pool: Arc<QuackConnectionPool>,
}

impl QuackTableFactory {
    /// The pool that the tables are reached through.
    pub closed spec fn spec_pool(&self) -> QuackConnectionPool {
        *self.pool
    }

    /// A factory over `pool`.
    pub fn new(pool: Arc<QuackConnectionPool>) -> (factory: Self)
        ensures
            factory.spec_pool() == *pool,
    {
        QuackTableFactory { pool }
    }

    /// The pool that the tables are reached through.
    pub fn pool(&self) -> (pool: &QuackConnectionPool)
        ensures
            *pool == self.spec_pool(),
    {
        &self.pool
    }
}

/// What a `CREATE EXTERNAL TABLE` statement says of the table.
pub struct CreateExternalTable {
    /// The name that the table is to have.
    pub name: TableReference,
    /// What follows `LOCATION`.
    pub location: String,
    /// The keys and values that follow `OPTIONS`, in the order in which they
    /// are walked.
    pub options: Vec<(String, String)>,
}

/// The keys and values of the options.
pub open spec fn option_texts(options: Seq<(String, String)>) -> Seq<(Seq<char>, Seq<char>)> {
    options.map_values(|option: (String, String)| (option.0@, option.1@))
}

/// An option's key without its namespace: `quack.`, or `format.`, under which
/// keys without a namespace are filed.
pub open spec fn unprefixed(key: Seq<char>) -> Seq<char> {
    match after_prefix(key, "quack."@) {
        Some(rest) => rest,
        None => match after_prefix(key, "format."@) {
            Some(rest) => rest,
            None => key,
        },
    }
}

/// The parameters that options stand for. Where two keys differ only in their
/// namespace, the value that is walked later stands.
pub open spec fn params_of(options: Seq<(Seq<char>, Seq<char>)>) -> Map<Seq<char>, Seq<char>>
    decreases options.len(),
{
    if options.len() == 0 {
        Map::empty()
    } else {
        params_of(options.drop_last()).insert(unprefixed(options.last().0), options.last().1)
    }
}

/// An option's key without its namespace.
fn unprefixed_key(key: &str) -> (rest: &str)
    ensures
        rest@ == unprefixed(key@),
{
    match strip_prefix(key, "quack.") {
        Some(rest) => rest,
        None => match strip_prefix(key, "format.") {
            Some(rest) => rest,
            None => key,
        },
    }
}

/// The parameters of a pool that the options of a statement stand for: each value
/// under its key without the namespace.
pub fn pool_params(options: &Vec<(String, String)>) -> (params: SecretMap)
    ensures
        params@ == params_of(option_texts(options@)),
{
    let mut params = SecretMap::new();
    let ghost texts = option_texts(options@);
    for i in 0..options.len()
        invariant
            texts == option_texts(options@),
            params@ == params_of(texts.take(i as int)),
    {
        let (key, value) = &options[i];
        params.insert(unprefixed_key(key.as_str()).to_owned(), value.as_str().to_owned());
        proof {
            assert(texts.take(i + 1).drop_last() == texts.take(i as int));
        }
    }
    proof {
        assert(texts.take(texts.len() as int) == texts);
    }
    params
}

/// The remote table that a statement refers to: the one that `LOCATION` names, or
/// the one with the table's own name where `LOCATION` is blank.
pub fn remote_table_reference(cmd: &CreateExternalTable) -> (reference: TableReference)
    ensures
        trimmed(cmd.location@).len() == 0 ==> reference@ == cmd.name@,
        trimmed(cmd.location@).len() > 0 ==> reference@ == parsed_reference(cmd.location@),
        forall|parts: Seq<Seq<char>>|
            is_full_reference(parts) && cmd.location@ == #[trigger] quoted_reference(parts)
                ==> reference@ == parts,
{
    proof {
        assert forall|parts: Seq<Seq<char>>|
            is_full_reference(parts) && cmd.location@ == #[trigger] quoted_reference(
                parts,
            ) implies trimmed(cmd.location@).len() > 0 by {
            law_written_location_is_not_blank(parts);
        }
    }
    if trim(cmd.location.as_str()).is_empty() {
        cmd.name.clone()
    } else {
        TableReference::parse(cmd.location.as_str())
    }
}

/// Provides the tables that `CREATE EXTERNAL TABLE` statements name.
///
/// ```sql
/// CREATE EXTERNAL TABLE users
///   STORED AS quack
///   LOCATION 'main.users'
///   OPTIONS ('quack.uri' 'quack:127.0.0.1:9494', 'quack.auth_token' 'super_secret');
/// ```
///
/// `LOCATION` names the remote table; when it is empty the DataFusion table name
/// is used. Options are the keys of [`QuackPoolConfig::from_params`] under the
/// `quack.` namespace (unprefixed keys, which DataFusion files under `format.`,
/// are accepted too). Every statement opens a pool of its own; a
/// [`QuackTableFactory`] shares one pool among many tables.
#[derive(Debug)]
pub struct QuackTableProviderFactory {}

impl QuackTableProviderFactory {
    /// A factory.
    pub fn new() -> (factory: Self)
        ensures
            factory == (QuackTableProviderFactory {  }),
    {
        QuackTableProviderFactory {  }
    }

    /// What a statement asks for: the pool to open, and the table to reach
    /// through it.
    pub fn plan(&self, cmd: &CreateExternalTable) -> (r: Result<
        (QuackPoolConfig, TableReference),
        pool::Error,
    >)
        ensures
            match first_error(params_of(option_texts(cmd.options@))) {
                Some(error) => r is Err && r->Err_0@ == error,
                None => r is Ok && r->Ok_0.0@ == config_of(params_of(option_texts(cmd.options@))),
            },
            r is Ok && trimmed(cmd.location@).len() == 0 ==> r->Ok_0.1@ == cmd.name@,
            r is Ok && trimmed(cmd.location@).len() > 0 ==> r->Ok_0.1@ == parsed_reference(
                cmd.location@,
            ),
            r is Ok ==> forall|parts: Seq<Seq<char>>|
                is_full_reference(parts) && cmd.location@ == #[trigger] quoted_reference(parts)
                    ==> r->Ok_0.1@ == parts,
    {
        match QuackPoolConfig::from_params(&pool_params(&cmd.options)) {
            Ok(config) => Ok((config, remote_table_reference(cmd))),
            Err(error) => Err(error),
        }
    }
}

impl Default for QuackTableProviderFactory {
    fn default() -> (factory: Self)
        ensures
            factory == (QuackTableProviderFactory {  }),
    {
        QuackTableProviderFactory::new()
    }
}

/// A key names the same parameter in either namespace, and without one.
pub proof fn law_namespaces_name_the_same_parameter(key: Seq<char>)
    ensures
        unprefixed("quack."@ + key) == key,
        unprefixed("format."@ + key) == key,
        after_prefix(key, "quack."@) is None && after_prefix(key, "format."@) is None ==> unprefixed(
            key,
        ) == key,
{
    reveal_strlit("quack.");
    reveal_strlit("format.");
    let (quack, format) = ("quack."@ + key, "format."@ + key);
    assert(quack.take("quack."@.len() as int) == "quack."@);
    assert(quack.skip("quack."@.len() as int) == key);
    assert(format.take("format."@.len() as int) == "format."@);
    assert(format.skip("format."@.len() as int) == key);
    assert(format[0] == 'f' && "quack."@[0] == 'q');
    if after_prefix(format, "quack."@) is Some {
        assert(format.take("quack."@.len() as int)[0] == format[0]);
    }
}

/// Whether no two options name the same parameter.
pub open spec fn names_differ(options: Seq<(Seq<char>, Seq<char>)>) -> bool {
    forall|i: int, j: int|
        0 <= i < j < options.len() ==> unprefixed((#[trigger] options[i]).0) != unprefixed(
            (#[trigger] options[j]).0,
        )
}

/// An option's value stands under the option's name, unless a later option has
/// the same name.
pub proof fn law_option_becomes_a_parameter(options: Seq<(Seq<char>, Seq<char>)>, at: int)
    requires
        0 <= at < options.len(),
        forall|j: int|
            at < j < options.len() ==> unprefixed((#[trigger] options[j]).0) != unprefixed(
                options[at].0,
            ),
    ensures
        params_of(options).contains_key(unprefixed(options[at].0)),
        params_of(options)[unprefixed(options[at].0)] == options[at].1,
    decreases options.len(),
{
    let before = options.drop_last();
    if at < before.len() {
        assert(before[at] == options[at]);
        assert forall|j: int| at < j < before.len() implies unprefixed((#[trigger] before[j]).0)
            != unprefixed(before[at].0) by {
            assert(before[j] == options[j]);
        }
        law_option_becomes_a_parameter(before, at);
        assert(options[options.len() - 1] == options.last());
    }
}

/// Every parameter is the value of an option with its name.
pub proof fn law_parameters_come_from_options(
    options: Seq<(Seq<char>, Seq<char>)>,
    key: Seq<char>,
) -> (at: int)
    requires
        params_of(options).contains_key(key),
    ensures
        0 <= at < options.len(),
        unprefixed(options[at].0) == key,
        options[at].1 == params_of(options)[key],
    decreases options.len(),
{
    if unprefixed(options.last().0) == key {
        options.len() - 1
    } else {
        law_parameters_come_from_options(options.drop_last(), key)
    }
}

/// Options that name different parameters give as many parameters as there are
/// options.
pub proof fn law_no_option_is_lost(options: Seq<(Seq<char>, Seq<char>)>)
    requires
        names_differ(options),
    ensures
        params_of(options).dom().finite(),
        params_of(options).len() == options.len(),
    decreases options.len(),
{
    if options.len() > 0 {
        let before = options.drop_last();
        let key = unprefixed(options.last().0);
        law_no_option_is_lost(before);
        if params_of(before).contains_key(key) {
            let at = law_parameters_come_from_options(before, key);
            assert(options[at] == before[at] && options[options.len() - 1] == options.last());
        }
    }
}

/// Options that name different parameters give the same parameters in whatever
/// order they are walked.
pub proof fn law_order_of_options_does_not_matter(
    a: Seq<(Seq<char>, Seq<char>)>,
    b: Seq<(Seq<char>, Seq<char>)>,
)
    requires
        names_differ(a),
        names_differ(b),
        a.to_set() == b.to_set(),
    ensures
        params_of(a) == params_of(b),
{
    assert forall|key: Seq<char>| #[trigger] params_of(a).contains_key(key) implies params_of(
        b,
    ).contains_key(key) && params_of(b)[key] == params_of(a)[key] by {
        lemma_parameter_is_in_both(a, b, key);
    }
    assert forall|key: Seq<char>| #[trigger] params_of(b).contains_key(key) implies params_of(
        a,
    ).contains_key(key) by {
        lemma_parameter_is_in_both(b, a, key);
    }
    assert(params_of(a) =~= params_of(b));
}

proof fn lemma_parameter_is_in_both(
    a: Seq<(Seq<char>, Seq<char>)>,
    b: Seq<(Seq<char>, Seq<char>)>,
    key: Seq<char>,
)
    requires
        names_differ(b),
        a.to_set() == b.to_set(),
        params_of(a).contains_key(key),
    ensures
        params_of(b).contains_key(key),
        params_of(b)[key] == params_of(a)[key],
{
    let i = law_parameters_come_from_options(a, key);
    assert(a.to_set().contains(a[i]));
    assert(b.contains(a[i]));
    let j = choose|j: int| 0 <= j < b.len() && b[j] == a[i];
    law_option_becomes_a_parameter(b, j);
}

/// A location that is a reference, as it stands in a statement, is not blank: the
/// remote table is read from it, whatever the table's own name is.
pub proof fn law_written_location_is_not_blank(parts: Seq<Seq<char>>)
    requires
        is_full_reference(parts),
    ensures
        trimmed(quoted_reference(parts)).len() > 0,
{
    lemma_quoted_reference_is_visible(parts);
    lemma_visible_text_is_kept(quoted_reference(parts));
}

/// The options of a statement are taken with their keys and values, in the order in
/// which they are walked.
pub proof fn law_options_are_taken_as_they_are(options: Seq<(String, String)>)
    ensures
        option_texts(options).len() == options.len(),
        forall|i: int|
            0 <= i < options.len() ==> #[trigger] option_texts(options)[i] == (
                options[i].0@,
                options[i].1@,
            ),
{
}

/// An error is worded with the error or the text that it holds.
pub proof fn law_error_is_worded_with_its_source(source: pool::Error, text: String)
    ensures
        (Error::UnableToCreateConnectionPool { source }).spec_message()
            == "Unable to create Quack connection pool: "@ + source@.message(),
        (Error::UnableToCreateTableProvider { source: text }).spec_message()
            == "Unable to create table provider: "@ + text@,
        (Error::UnableToCreateFederatedTableProvider { source: text }).spec_message()
            == "Unable to create federated table provider: "@ + text@,
{
}

} // verus!
