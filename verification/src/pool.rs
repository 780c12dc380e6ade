//! The parameters of a connection pool, and the pool itself.

use crate::conn::{share, QuackConnection, QueryFailure};
use crate::duration::duration_text;
#[allow(unused_imports)]
use crate::duration::{duration_debug, duration_nanos, seconds};
use crate::secrets::SecretMap;
#[allow(unused_imports)]
use crate::text::{
    decimal_text, law_number_text_reads_back, law_trimming_is_idempotent, lemma_number_text_is_trimmed,
    lowered, trimmed, unsigned, unsigned_up_to,
};
use crate::text::{
    number_text, parse_u64, parse_usize, same_text, to_ascii_lowercase, trim,
};
use quack_protocol::{QuackClientOptions, QuackPool, DEFAULT_MAX_CONNECTIONS};
use std::time::Duration;
use vstd::prelude::*;

verus! {

/// Why a pool could not be opened.
#[derive(Debug, PartialEq, Eq)]
pub enum Error {
    /// The server could not be reached, or refused the connection.
    ConnectionError { uri: String, source: QueryFailure },
    /// A required parameter is missing or empty.
    MissingParameter { param: String },
    /// A parameter's value cannot be used.
    InvalidParameter { param: String, reason: String },
}

/// What an `Error` says.
pub enum ErrorView {
    ConnectionError { uri: Seq<char>, source: QueryFailure },
    MissingParameter { param: Seq<char> },
    InvalidParameter { param: Seq<char>, reason: Seq<char> },
}

impl View for Error {
    type V = ErrorView;

    open spec fn view(&self) -> ErrorView {
        match self {
            Error::ConnectionError { uri, source } => ErrorView::ConnectionError {
                uri: uri@,
                source: *source,
            },
            Error::MissingParameter { param } => ErrorView::MissingParameter { param: param@ },
            Error::InvalidParameter { param, reason } => ErrorView::InvalidParameter {
                param: param@,
                reason: reason@,
            },
        }
    }
}

impl ErrorView {
    /// The error in words.
    pub open spec fn message(self) -> Seq<char> {
        match self {
            ErrorView::ConnectionError { uri, source } => {
                "Unable to connect to Quack server '"@ + uri + "': "@ + (source.label()
                    + source.text())
            },
            ErrorView::MissingParameter { param } => "Missing required parameter: "@ + param,
            ErrorView::InvalidParameter { param, reason } => {
                "Invalid value for parameter '"@ + param + "': "@ + reason
            },
        }
    }
}

impl Error {
    /// The error in words.
    pub fn message(&self) -> (message: String)
        ensures
            message@ == self@.message(),
    {
        match self {
            Error::ConnectionError { uri, source } => {
                let mut message = "Unable to connect to Quack server '".to_owned();
                message.append(uri.as_str());
                message.append("': ");
                message.append(source.message().as_str());
                message
            },
            Error::MissingParameter { param } => {
                let mut message = "Missing required parameter: ".to_owned();
                message.append(param.as_str());
                message
            },
            Error::InvalidParameter { param, reason } => {
                let mut message = "Invalid value for parameter '".to_owned();
                message.append(param.as_str());
                message.append("': ");
                message.append(reason.as_str());
                message
            },
        }
    }
}

/// What each session is opened with: the options of `QuackClientOptions`.
pub struct ClientOptions {
    /// The token that is sent to the server.
    pub auth_token: Option<String>,
    /// The version of DuckDB that the client claims.
    pub client_duckdb_version: Option<String>,
    /// The platform that the client claims.
    pub client_platform: Option<String>,
    /// The lowest version of the protocol to agree to.
    pub min_supported_quack_version: Option<u64>,
    /// The highest version of the protocol to agree to.
    pub max_supported_quack_version: Option<u64>,
    /// The name that the client goes by.
    pub client_id: Option<String>,
    /// The time after which a session lapses without a heartbeat.
    pub heartbeat_timeout: Option<Duration>,
    /// Whether to use TLS, where that is not left to the scheme of the address.
    pub ssl: Option<bool>,
    /// The fingerprint of the one certificate that is trusted.
    pub ssl_fingerprint: Option<String>,
    /// The time that a request may take.
    pub timeout: Option<Duration>,
    /// Names and values of the headers that go with every request.
    pub headers: Vec<(String, String)>,
}

/// What the pool is opened with.
pub struct PoolOptions {
    /// The number of sessions that the pool may hold open at once.
    pub max_connections: usize,
}

/// Everything needed to open a pool.
pub struct QuackPoolConfig {
    pub uri: String,
    pub client_options: ClientOptions,
    pub pool_options: PoolOptions,
}

/// What a `QuackPoolConfig` holds.
pub struct ConfigView {
    pub uri: Seq<char>,
    pub auth_token: Option<Seq<char>>,
    pub client_duckdb_version: Option<Seq<char>>,
    pub client_platform: Option<Seq<char>>,
    pub min_supported_quack_version: Option<u64>,
    pub max_supported_quack_version: Option<u64>,
    pub client_id: Option<Seq<char>>,
    /// In nanoseconds.
    pub heartbeat_timeout: Option<nat>,
    pub ssl: Option<bool>,
    pub ssl_fingerprint: Option<Seq<char>>,
    /// In nanoseconds.
    pub timeout: Option<nat>,
    pub headers: Seq<(Seq<char>, Seq<char>)>,
    pub max_connections: nat,
}

/// The length of a span of time, where there is one, in nanoseconds.
pub open spec fn optional_nanos(duration: Option<Duration>) -> Option<nat> {
    match duration {
        Some(duration) => Some(duration_nanos(duration)),
        None => None,
    }
}

impl View for QuackPoolConfig {
    type V = ConfigView;

    open spec fn view(&self) -> ConfigView {
        ConfigView {
            uri: self.uri@,
            auth_token: self.client_options.auth_token.deep_view(),
            client_duckdb_version: self.client_options.client_duckdb_version.deep_view(),
            client_platform: self.client_options.client_platform.deep_view(),
            min_supported_quack_version: self.client_options.min_supported_quack_version,
            max_supported_quack_version: self.client_options.max_supported_quack_version,
            client_id: self.client_options.client_id.deep_view(),
            heartbeat_timeout: optional_nanos(self.client_options.heartbeat_timeout),
            ssl: self.client_options.ssl,
            ssl_fingerprint: self.client_options.ssl_fingerprint.deep_view(),
            timeout: optional_nanos(self.client_options.timeout),
            headers: self.client_options.headers.deep_view(),
            max_connections: self.pool_options.max_connections as nat,
        }
    }
}

/// The client's own options: `QuackClientOptions::default`.
///
/// The contract says that a request may take three hundred seconds, that a session
/// lapses after sixty without a heartbeat, and that nothing else is set.
#[verifier::external_body]
fn default_client_options() -> (options: ClientOptions)
    ensures
        options.auth_token is None,
        options.client_duckdb_version is None,
        options.client_platform is None,
        options.min_supported_quack_version is None,
        options.max_supported_quack_version is None,
        options.client_id is None,
        optional_nanos(options.heartbeat_timeout) == Some(seconds(60)),
        options.ssl is None,
        options.ssl_fingerprint is None,
        optional_nanos(options.timeout) == Some(seconds(300)),
        options.headers@.len() == 0,
{
    let options = QuackClientOptions::default();
    ClientOptions {
        auth_token: options.auth_token,
        client_duckdb_version: options.client_duckdb_version,
        client_platform: options.client_platform,
        min_supported_quack_version: options.min_supported_quack_version,
        max_supported_quack_version: options.max_supported_quack_version,
        client_id: options.client_id,
        heartbeat_timeout: options.heartbeat_timeout,
        ssl: options.ssl,
        ssl_fingerprint: options.ssl_fingerprint,
        timeout: options.timeout,
        headers: options.headers,
    }
}

/// The size of a pool for which none is chosen: `DEFAULT_MAX_CONNECTIONS`.
///
/// The contract says that it is four.
#[verifier::external_body]
fn default_max_connections() -> (n: usize)
    ensures
        n == 4,
{
    DEFAULT_MAX_CONNECTIONS
}

/// The value of a parameter, without the white space around it.
pub open spec fn parameter(params: Map<Seq<char>, Seq<char>>, key: Seq<char>) -> Option<Seq<char>> {
    if params.contains_key(key) {
        Some(trimmed(params[key]))
    } else {
        None
    }
}

/// The truth value that a text spells, in upper or lower case.
pub open spec fn truth(value: Seq<char>) -> Option<bool> {
    let word = lowered(value);
    if word == "true"@ || word == "1"@ || word == "yes"@ || word == "on"@ {
        Some(true)
    } else if word == "false"@ || word == "0"@ || word == "no"@ || word == "off"@ {
        Some(false)
    } else {
        None
    }
}

/// What is said of a value that spells no truth value.
pub open spec fn not_a_truth(param: Seq<char>, value: Seq<char>) -> ErrorView {
    ErrorView::InvalidParameter {
        param,
        reason: "expected true or false, got '"@ + lowered(value) + "'"@,
    }
}

/// The size that a pool is given by `value`: a number, at least one, that fits
/// the machine.
pub open spec fn pool_size(value: Seq<char>) -> Option<nat> {
    match unsigned_up_to(value, usize::MAX as nat) {
        Some(n) => if n >= 1 {
            Some(n)
        } else {
            None
        },
        None => None,
    }
}

/// The first thing that is wrong with the parameters: the address first, then
/// TLS, the time limit and the size of the pool.
pub open spec fn first_error(params: Map<Seq<char>, Seq<char>>) -> Option<ErrorView> {
    let uri = parameter(params, "uri"@);
    let ssl = parameter(params, "ssl"@);
    let timeout = parameter(params, "timeout"@);
    let size = parameter(params, "max_connections"@);
    if uri is None || uri->0.len() == 0 {
        Some(ErrorView::MissingParameter { param: "uri"@ })
    } else if ssl is Some && truth(ssl->0) is None {
        Some(not_a_truth("ssl"@, ssl->0))
    } else if timeout is Some && unsigned_up_to(timeout->0, u64::MAX as nat) is None {
        Some(
            ErrorView::InvalidParameter {
                param: "timeout"@,
                reason: "expected a number of seconds, got '"@ + timeout->0 + "'"@,
            },
        )
    } else if size is Some && pool_size(size->0) is None {
        Some(
            ErrorView::InvalidParameter {
                param: "max_connections"@,
                reason: "expected an integer >= 1, got '"@ + size->0 + "'"@,
            },
        )
    } else {
        None
    }
}

/// What the parameters ask for, where nothing is wrong with them. The options that
/// no parameter speaks of are the client's own.
pub open spec fn config_of(params: Map<Seq<char>, Seq<char>>) -> ConfigView {
    let token = parameter(params, "auth_token"@);
    ConfigView {
        uri: parameter(params, "uri"@)->0,
        auth_token: if token is Some && token->0.len() > 0 {
            token
        } else {
            None
        },
        ssl: match parameter(params, "ssl"@) {
            Some(value) => truth(value),
            None => None,
        },
        timeout: match parameter(params, "timeout"@) {
            Some(value) => Some(seconds(unsigned_up_to(value, u64::MAX as nat)->0)),
            None => Some(seconds(300)),
        },
        client_duckdb_version: None,
        client_platform: None,
        min_supported_quack_version: None,
        max_supported_quack_version: None,
        client_id: None,
        heartbeat_timeout: Some(seconds(60)),
        ssl_fingerprint: None,
        headers: Seq::empty(),
        max_connections: match parameter(params, "max_connections"@) {
            Some(value) => pool_size(value)->0,
            None => 4,
        },
    }
}

/// The value of a parameter, without the white space around it.
fn get_parameter(params: &SecretMap, key: &str) -> (value: Option<String>)
    ensures
        value.deep_view() == parameter(params@, key@),
{
    match params.get(key) {
        Some(value) => Some(trim(value).to_owned()),
        None => None,
    }
}

/// An error for a value that cannot be used: `expectation`, then the value
/// between single quotation marks.
fn invalid_parameter(param: &str, expectation: &str, value: &str) -> (error: Error)
    ensures
        error@ == (ErrorView::InvalidParameter {
            param: param@,
            reason: expectation@ + value@ + "'"@,
        }),
{
    let mut reason = expectation.to_owned();
    reason.append(value);
    reason.append("'");
    Error::InvalidParameter { param: param.to_owned(), reason }
}

/// The truth value that `value` spells, in upper or lower case.
pub fn parse_bool(param: &str, value: &str) -> (r: Result<bool, Error>)
    ensures
        match truth(value@) {
            Some(yes) => r == Ok::<bool, Error>(yes),
            None => r is Err && r->Err_0@ == not_a_truth(param@, value@),
        },
{
    let lower = to_ascii_lowercase(value);
    let word = lower.as_str();
    if same_text(word, "true") || same_text(word, "1") || same_text(word, "yes") || same_text(
        word,
        "on",
    ) {
        Ok(true)
    } else if same_text(word, "false") || same_text(word, "0") || same_text(word, "no")
        || same_text(word, "off") {
        Ok(false)
    } else {
        Err(invalid_parameter(param, "expected true or false, got '", word))
    }
}

impl QuackPoolConfig {
    /// Reads the parameters of a pool.
    ///
    /// | key               | meaning                                                           |
    /// |-------------------|-------------------------------------------------------------------|
    /// | `uri`             | required; `host:port`, `quack:host:port` or `http(s)://host:port` |
    /// | `auth_token`      | token sent with every request                                     |
    /// | `max_connections` | sessions the pool may hold open at once (default 4)               |
    /// | `ssl`             | `true`/`false`; overrides what the address's scheme implies       |
    /// | `timeout`         | time limit of a request, in seconds                               |
    pub fn from_params(params: &SecretMap) -> (r: Result<Self, Error>)
        ensures
            match first_error(params@) {
                Some(error) => r is Err && r->Err_0@ == error,
                None => r is Ok && r->Ok_0@ == config_of(params@),
            },
    {
        let uri = match get_parameter(params, "uri") {
            Some(uri) => if uri.as_str().is_empty() {
                return Err(Error::MissingParameter { param: "uri".to_owned() });
            } else {
                uri
            },
            None => {
                return Err(Error::MissingParameter { param: "uri".to_owned() });
            },
        };

        let mut client_options = default_client_options();
        assert(client_options.headers.deep_view() == Seq::<(Seq<char>, Seq<char>)>::empty());
        match get_parameter(params, "auth_token") {
            Some(token) => if !token.as_str().is_empty() {
                client_options.auth_token = Some(token);
            },
            None => {},
        }

        match get_parameter(params, "ssl") {
            Some(value) => match parse_bool("ssl", value.as_str()) {
                Ok(ssl) => {
                    client_options.ssl = Some(ssl);
                },
                Err(error) => {
                    return Err(error);
                },
            },
            None => {},
        }

        match get_parameter(params, "timeout") {
            Some(value) => match parse_u64(value.as_str()) {
                Some(secs) => {
                    client_options.timeout = Some(Duration::from_secs(secs));
                },
                None => {
                    return Err(
                        invalid_parameter(
                            "timeout",
                            "expected a number of seconds, got '",
                            value.as_str(),
                        ),
                    );
                },
            },
            None => {},
        }

        let max_connections: usize = match get_parameter(params, "max_connections") {
            Some(value) => match parse_usize(value.as_str()) {
                Some(n) if n >= 1 => n,
                _ => {
                    return Err(
                        invalid_parameter(
                            "max_connections",
                            "expected an integer >= 1, got '",
                            value.as_str(),
                        ),
                    );
                },
            },
            None => default_max_connections(),
        };

        Ok(QuackPoolConfig { uri, client_options, pool_options: PoolOptions { max_connections } })
    }
}

/// The text `None`, or `Some` with `text` between round brackets.
pub open spec fn optional_text(text: Option<Seq<char>>) -> Seq<char> {
    match text {
        Some(text) => "Some("@ + text + ")"@,
        None => "None"@,
    }
}

fn option_text(text: Option<String>) -> (r: String)
    ensures
        r@ == optional_text(text.deep_view()),
{
    match text {
        Some(text) => {
            let mut r = "Some(".to_owned();
            r.append(text.as_str());
            r.append(")");
            r
        },
        None => "None".to_owned(),
    }
}

/// What the debug format of std makes of a text: the text between double
/// quotation marks, with escapes.
pub uninterp spec fn debug_text(text: Seq<char>) -> Seq<char>;

/// Whether nothing in a text is escaped in logs: the printable characters of
/// ASCII, without the double quotation mark and the backslash.
pub open spec fn is_unescaped(text: Seq<char>) -> bool {
    forall|i: int|
        0 <= i < text.len() ==> ' ' <= #[trigger] text[i] <= '~' && text[i] != '"' && text[i]
            != '\\'
}

/// A text between double quotation marks.
pub open spec fn between_marks(text: Seq<char>) -> Seq<char> {
    seq!['"'] + text.push('"')
}

/// Writes a text in the debug format: `format!` with `{:?}` on a `str`.
///
/// The contract says that the result is determined by the text, and that a text
/// in which nothing is escaped stands as it is between double quotation marks. Of
/// other texts it leaves to std which characters are escaped, and how.
#[verifier::external_body]
fn debug_of(text: &str) -> (r: String)
    ensures
        r@ == debug_text(text@),
        is_unescaped(text@) ==> r@ == between_marks(text@),
{
    format!("{:?}", text)
}

/// How a configuration is written in logs, given how its address is. Whether there
/// is a token is shown; the token is not.
pub open spec fn config_text(shown_uri: Seq<char>, config: ConfigView) -> Seq<char> {
    "QuackPoolConfig { uri: "@ + shown_uri + ", auth_token: "@ + optional_text(
        if config.auth_token is Some {
            Some("\"<redacted>\""@)
        } else {
            None
        },
    ) + ", ssl: "@ + optional_text(
        match config.ssl {
            Some(true) => Some("true"@),
            Some(false) => Some("false"@),
            None => None,
        },
    ) + ", timeout: "@ + optional_text(
        match config.timeout {
            Some(nanos) => Some(duration_debug(nanos)),
            None => None,
        },
    ) + ", max_connections: "@ + decimal_text(config.max_connections) + " }"@
}

impl QuackPoolConfig {
    /// How the configuration is written in logs. Whether there is a token is
    /// shown; the token is not.
    pub fn debug_string(&self) -> (text: String)
        ensures
            text@ == config_text(debug_text(self@.uri), self@),
            is_unescaped(self@.uri) ==> text@ == config_text(between_marks(self@.uri), self@),
    {
        let token = match &self.client_options.auth_token {
            Some(_) => Some("\"<redacted>\"".to_owned()),
            None => None,
        };
        let ssl = match self.client_options.ssl {
            Some(true) => Some("true".to_owned()),
            Some(false) => Some("false".to_owned()),
            None => None,
        };
        let timeout = match &self.client_options.timeout {
            Some(timeout) => Some(duration_text(timeout)),
            None => None,
        };
        let mut text = "QuackPoolConfig { uri: ".to_owned();
        text.append(debug_of(self.uri.as_str()).as_str());
        text.append(", auth_token: ");
        text.append(option_text(token).as_str());
        text.append(", ssl: ");
        text.append(option_text(ssl).as_str());
        text.append(", timeout: ");
        text.append(option_text(timeout).as_str());
        text.append(", max_connections: ");
        text.append(number_text(self.pool_options.max_connections as u64).as_str());
        text.append(" }");
        text
    }
}

/// Whether tables may be joined on the server, and with which others.
#[derive(Debug, PartialEq, Eq)]
pub enum JoinPushDown {
    /// Never.
    Disallow,
    /// With every table that has the same context.
    AllowedFor(String),
}

/// The context that tables behind one address share.
pub open spec fn join_context(uri: Seq<char>) -> Seq<char> {
    "uri="@ + uri
}

impl JoinPushDown {
    /// The context within which tables may be joined, where they may.
    pub open spec fn context(self) -> Option<Seq<char>> {
        match self {
            JoinPushDown::Disallow => None,
            JoinPushDown::AllowedFor(context) => Some(context@),
        }
    }

    /// That of tables on the server at `uri`: they may be joined with tables from
    /// pools with the same address.
    pub fn for_uri(uri: &str) -> (r: Self)
        ensures
            r.context() == Some(join_context(uri@)),
    {
        let mut context = "uri=".to_owned();
        context.append(uri);
        JoinPushDown::AllowedFor(context)
    }

    /// A copy.
    fn copy(&self) -> (copy: Self)
        ensures
            copy.context() == self.context(),
    {
        match self {
            JoinPushDown::Disallow => JoinPushDown::Disallow,
            JoinPushDown::AllowedFor(context) => JoinPushDown::AllowedFor(
                context.as_str().to_owned(),
            ),
        }
    }

    /// How the value is written in logs.
    fn debug_string(&self) -> (text: String)
        ensures
            text@ == join_text(shown_context(self.context())),
            self.context() matches Some(context) && is_unescaped(context) ==> text@ == join_text(
                Some(between_marks(self.context()->0)),
            ),
    {
        match self {
            JoinPushDown::Disallow => "Disallow".to_owned(),
            JoinPushDown::AllowedFor(context) => {
                let mut text = "AllowedFor(".to_owned();
                text.append(debug_of(context.as_str()).as_str());
                text.append(")");
                text
            },
        }
    }
}

/// A join context in the debug format of std.
pub open spec fn shown_context(context: Option<Seq<char>>) -> Option<Seq<char>> {
    match context {
        Some(context) => Some(debug_text(context)),
        None => None,
    }
}

/// How it is written in logs whether tables may be joined, given how the context
/// is, where they may.
pub open spec fn join_text(shown: Option<Seq<char>>) -> Seq<char> {
    match shown {
        Some(shown) => "AllowedFor("@ + shown + ")"@,
        None => "Disallow"@,
    }
}

/// How a pool is written in logs, given how its join context is.
pub open spec fn pool_text(max_connections: nat, shown: Option<Seq<char>>) -> Seq<char> {
    "QuackConnectionPool { max_connections: "@ + decimal_text(max_connections)
        + ", join_push_down: "@ + join_text(shown) + " }"@
}

/// How a pool of at most `max_connections` sessions is written in logs.
pub fn pool_debug_string(max_connections: usize, join_push_down: &JoinPushDown) -> (text: String)
    ensures
        text@ == pool_text(max_connections as nat, shown_context(join_push_down.context())),
        join_push_down.context() matches Some(context) && is_unescaped(context) ==> text@
            == pool_text(
            max_connections as nat,
            Some(between_marks(join_push_down.context()->0)),
        ),
{
    let mut text = "QuackConnectionPool { max_connections: ".to_owned();
    text.append(number_text(max_connections as u64).as_str());
    text.append(", join_push_down: ");
    text.append(join_push_down.debug_string().as_str());
    text.append(" }");
    text
}

/// The number of sessions that a pool was opened for.
pub uninterp spec fn session_limit(pool: QuackPool) -> nat;

/// The number of sessions that a pool may hold open at once:
/// `QuackPool::max_connections`.
///
/// The contract says that it is the limit that the pool was opened with, which
/// nothing changes afterwards.
#[verifier::external_body]
fn max_connections_of(pool: &QuackPool) -> (n: usize)
    ensures
        n == session_limit(*pool),
{
    pool.max_connections()
}

/// A pool of server sessions, shared by every connection that it hands out.
///
/// The pool leases one session to each query, so that handing out a connection
/// costs nothing and each concurrent scan runs on a session of its own.
pub struct QuackConnectionPool {
    pool: QuackPool,
    join_push_down: JoinPushDown,
}

impl QuackConnectionPool {
    /// The pool of sessions.
    pub closed spec fn spec_pool(&self) -> QuackPool {
        self.pool
    }

    /// The context within which its tables may be joined on the server.
    pub closed spec fn spec_context(&self) -> Option<Seq<char>> {
        self.join_push_down.context()
    }

    /// Wraps an open pool. `uri` only feeds the join context: tables from pools
    /// with the same address may be joined on the server.
    pub fn from_quack_pool(pool: QuackPool, uri: &str) -> (r: Self)
        ensures
            r.spec_pool() == pool,
            r.spec_context() == Some(join_context(uri@)),
    {
        QuackConnectionPool { pool, join_push_down: JoinPushDown::for_uri(uri) }
    }

    /// What becomes of the attempt to open a pool on the server at `uri`.
    pub fn from_connect(uri: &str, outcome: Result<QuackPool, QueryFailure>) -> (r: Result<
        Self,
        Error,
    >)
        ensures
            match outcome {
                Ok(pool) => r is Ok && r->Ok_0.spec_pool() == pool && r->Ok_0.spec_context()
                    == Some(join_context(uri@)),
                Err(failure) => r is Err && r->Err_0@ == (ErrorView::ConnectionError {
                    uri: uri@,
                    source: failure,
                }),
            },
    {
        match outcome {
            Ok(pool) => Ok(Self::from_quack_pool(pool, uri)),
            Err(source) => Err(Error::ConnectionError { uri: uri.to_owned(), source }),
        }
    }

    /// The pool of sessions, for statements that change data or need a session
    /// of their own.
    pub fn pool(&self) -> (pool: QuackPool)
        ensures
            pool == self.spec_pool(),
    {
        share(&self.pool)
    }

    /// A connection over the pool.
    pub fn connection(&self) -> (connection: QuackConnection)
        ensures
            connection.spec_pool() == self.spec_pool(),
    {
        QuackConnection::new(self.pool())
    }

    /// Whether its tables may be joined on the server, and with which others.
    pub fn join_push_down(&self) -> (r: JoinPushDown)
        ensures
            r.context() == self.spec_context(),
    {
        self.join_push_down.copy()
    }

    /// How the pool is written in logs.
    pub fn debug_string(&self) -> (text: String)
        ensures
            text@ == pool_text(
                session_limit(self.spec_pool()),
                shown_context(self.spec_context()),
            ),
            self.spec_context() matches Some(context) && is_unescaped(context) ==> text@
                == pool_text(
                session_limit(self.spec_pool()),
                Some(between_marks(self.spec_context()->0)),
            ),
    {
        pool_debug_string(max_connections_of(&self.pool), &self.join_push_down)
    }
}

impl Clone for QuackConnectionPool {
    /// Another handle on the same pool.
    fn clone(&self) -> (copy: Self)
        ensures
            copy.spec_pool() == self.spec_pool(),
            copy.spec_context() == self.spec_context(),
    {
        QuackConnectionPool { pool: self.pool(), join_push_down: self.join_push_down() }
    }
}

/// The five keys that a pool reads.
pub open spec fn is_pool_key(key: Seq<char>) -> bool {
    key == "uri"@ || key == "auth_token"@ || key == "ssl"@ || key == "timeout"@ || key
        == "max_connections"@
}

/// The keys of a pool differ from one another.
proof fn lemma_keys_differ()
    ensures
        "uri"@ != "auth_token"@,
        "uri"@ != "ssl"@,
        "uri"@ != "timeout"@,
        "uri"@ != "max_connections"@,
        "auth_token"@ != "ssl"@,
        "auth_token"@ != "timeout"@,
        "auth_token"@ != "max_connections"@,
        "ssl"@ != "timeout"@,
        "ssl"@ != "max_connections"@,
        "timeout"@ != "max_connections"@,
{
    reveal_strlit("uri");
    reveal_strlit("auth_token");
    reveal_strlit("ssl");
    reveal_strlit("timeout");
    reveal_strlit("max_connections");
    assert("uri"@.len() == 3 && "ssl"@.len() == 3 && "uri"@[0] != "ssl"@[0]);
    assert("auth_token"@.len() == 10 && "timeout"@.len() == 7);
    assert("max_connections"@.len() == 15);
}

/// Parameters under other keys change nothing.
pub proof fn law_other_keys_are_ignored(
    params: Map<Seq<char>, Seq<char>>,
    key: Seq<char>,
    value: Seq<char>,
)
    requires
        !is_pool_key(key),
    ensures
        first_error(params.insert(key, value)) == first_error(params),
        config_of(params.insert(key, value)) == config_of(params),
{
}

/// White space around a value changes nothing.
pub proof fn law_space_around_values_is_ignored(
    params: Map<Seq<char>, Seq<char>>,
    key: Seq<char>,
    value: Seq<char>,
)
    ensures
        first_error(params.insert(key, value)) == first_error(params.insert(key, trimmed(value))),
        config_of(params.insert(key, value)) == config_of(params.insert(key, trimmed(value))),
{
    law_trimming_is_idempotent(value);
    let (a, b) = (params.insert(key, value), params.insert(key, trimmed(value)));
    assert forall|k: Seq<char>| #[trigger] parameter(a, k) == parameter(b, k) by {}
}

/// A configuration that is read names a server, allows at least one session and
/// holds no empty token.
pub proof fn law_configuration_is_usable(params: Map<Seq<char>, Seq<char>>)
    requires
        first_error(params) is None,
    ensures
        config_of(params).uri.len() > 0,
        1 <= config_of(params).max_connections <= usize::MAX,
        config_of(params).auth_token is Some ==> config_of(params).auth_token->0.len() > 0,
{
}

/// What is left out is chosen: the client's own options (no token, TLS as the
/// address says, three hundred seconds for a request), and four sessions.
pub proof fn law_defaults_apply(uri: Seq<char>)
    requires
        trimmed(uri).len() > 0,
    ensures
        first_error(Map::<Seq<char>, Seq<char>>::empty().insert("uri"@, uri)) is None,
        config_of(Map::<Seq<char>, Seq<char>>::empty().insert("uri"@, uri)) == (ConfigView {
            uri: trimmed(uri),
            auth_token: None,
            client_duckdb_version: None,
            client_platform: None,
            min_supported_quack_version: None,
            max_supported_quack_version: None,
            client_id: None,
            heartbeat_timeout: Some(seconds(60)),
            ssl: None,
            ssl_fingerprint: None,
            timeout: Some(seconds(300)),
            headers: Seq::empty(),
            max_connections: 4,
        }),
{
    lemma_keys_differ();
}

/// A token is never refused, and nothing but the token depends on it.
pub proof fn law_any_token_is_accepted(params: Map<Seq<char>, Seq<char>>, token: Seq<char>)
    ensures
        first_error(params.insert("auth_token"@, token)) == first_error(params),
        config_of(params.insert("auth_token"@, token)) == (ConfigView {
            auth_token: if trimmed(token).len() > 0 {
                Some(trimmed(token))
            } else {
                None
            },
            ..config_of(params)
        }),
{
    lemma_keys_differ();
}

/// A blank token is the same as no token.
pub proof fn law_blank_token_means_none(params: Map<Seq<char>, Seq<char>>, token: Seq<char>)
    requires
        trimmed(token).len() == 0,
    ensures
        first_error(params.insert("auth_token"@, token)) == first_error(
            params.remove("auth_token"@),
        ),
        config_of(params.insert("auth_token"@, token)) == config_of(params.remove("auth_token"@)),
{
    lemma_keys_differ();
}

/// Every number of seconds that fits is taken as it is written.
pub proof fn law_every_timeout_is_accepted(params: Map<Seq<char>, Seq<char>>, secs: nat)
    requires
        secs <= u64::MAX,
        first_error(params.remove("timeout"@)) is None,
    ensures
        first_error(params.insert("timeout"@, decimal_text(secs))) is None,
        config_of(params.insert("timeout"@, decimal_text(secs))) == (ConfigView {
            timeout: Some(seconds(secs)),
            ..config_of(params)
        }),
{
    lemma_keys_differ();
    lemma_number_text_is_trimmed(secs);
    law_number_text_reads_back(secs);
}

/// Every number of sessions that fits, but none at all, is taken as it is written.
pub proof fn law_every_pool_size_is_accepted(params: Map<Seq<char>, Seq<char>>, size: nat)
    requires
        size <= usize::MAX,
        first_error(params.remove("max_connections"@)) is None,
    ensures
        first_error(params.insert("max_connections"@, decimal_text(size))) is None <==> size >= 1,
        size >= 1 ==> config_of(params.insert("max_connections"@, decimal_text(size))) == (
        ConfigView { max_connections: size, ..config_of(params) }),
{
    lemma_keys_differ();
    lemma_number_text_is_trimmed(size);
    law_number_text_reads_back(size);
}

/// A truth value is read the same in upper and lower case.
pub proof fn law_truth_has_no_case(a: Seq<char>, b: Seq<char>)
    requires
        lowered(a) == lowered(b),
    ensures
        truth(a) == truth(b),
{
}

/// What is written of a configuration in logs does not depend on its token, only
/// on whether there is one.
pub proof fn law_token_is_not_shown(shown_uri: Seq<char>, config: ConfigView, token: Seq<char>)
    requires
        config.auth_token is Some,
    ensures
        config_text(shown_uri, ConfigView { auth_token: Some(token), ..config }) == config_text(
            shown_uri,
            config,
        ),
{
}

/// Two pools share a join context exactly where they have the same address.
pub proof fn law_context_tells_servers_apart(a: Seq<char>, b: Seq<char>)
    ensures
        join_context(a) == join_context(b) <==> a == b,
{
    reveal_strlit("uri=");
    if join_context(a) == join_context(b) {
        assert(join_context(a).skip(4) == a);
        assert(join_context(b).skip(4) == b);
    }
}

/// Maps that agree on the five keys of a pool give the same configuration or the
/// same error.
pub proof fn law_only_the_pool_keys_are_read(
    a: Map<Seq<char>, Seq<char>>,
    b: Map<Seq<char>, Seq<char>>,
)
    requires
        forall|key: Seq<char>|
            key == "uri"@ || key == "auth_token"@ || key == "ssl"@ || key == "timeout"@ || key
                == "max_connections"@ ==> (#[trigger] a.contains_key(key) <==> b.contains_key(key))
                && (a.contains_key(key) ==> a[key] == b[key]),
    ensures
        first_error(a) == first_error(b),
        config_of(a) == config_of(b),
{
    assert(a.contains_key("uri"@) <==> b.contains_key("uri"@));
    assert(a.contains_key("auth_token"@) <==> b.contains_key("auth_token"@));
    assert(a.contains_key("ssl"@) <==> b.contains_key("ssl"@));
    assert(a.contains_key("timeout"@) <==> b.contains_key("timeout"@));
    assert(a.contains_key("max_connections"@) <==> b.contains_key("max_connections"@));
}

/// Without an address the parameters are refused for that, whatever else they hold.
pub proof fn law_missing_address_is_refused(params: Map<Seq<char>, Seq<char>>)
    requires
        !params.contains_key("uri"@) || trimmed(params["uri"@]).len() == 0,
    ensures
        first_error(params) == Some(ErrorView::MissingParameter { param: "uri"@ }),
{
}

/// The address is taken as it is written, and nothing but the address depends on it:
/// another address changes no other option, and causes or hides no error.
pub proof fn law_address_is_taken_as_written(
    params: Map<Seq<char>, Seq<char>>,
    uri: Seq<char>,
    other: Seq<char>,
)
    requires
        trimmed(uri).len() > 0,
        trimmed(other).len() > 0,
    ensures
        config_of(params.insert("uri"@, uri)) == (ConfigView {
            uri: trimmed(uri),
            ..config_of(params)
        }),
        first_error(params.insert("uri"@, uri)) == first_error(params.insert("uri"@, other)),
        first_error(params.insert("uri"@, uri)) != Some(
            ErrorView::MissingParameter { param: "uri"@ },
        ),
{
    lemma_keys_differ();
}

/// A truth value for TLS is taken as it is spelled, whatever the address and the
/// other parameters say, and nothing but TLS depends on it.
pub proof fn law_tls_is_taken_as_spelled(
    params: Map<Seq<char>, Seq<char>>,
    value: Seq<char>,
    yes: bool,
)
    requires
        truth(trimmed(value)) == Some(yes),
    ensures
        first_error(params.insert("ssl"@, value)) == first_error(params.remove("ssl"@)),
        config_of(params.insert("ssl"@, value)) == (ConfigView {
            ssl: Some(yes),
            ..config_of(params)
        }),
{
    lemma_keys_differ();
}

/// A value for TLS that spells no truth value is refused, with the value in lower
/// case, wherever there is an address.
pub proof fn law_other_words_for_tls_are_refused(
    params: Map<Seq<char>, Seq<char>>,
    value: Seq<char>,
)
    requires
        truth(trimmed(value)) is None,
        params.contains_key("uri"@) && trimmed(params["uri"@]).len() > 0,
    ensures
        first_error(params.insert("ssl"@, value)) == Some(
            ErrorView::InvalidParameter {
                param: "ssl"@,
                reason: "expected true or false, got '"@ + lowered(trimmed(value)) + "'"@,
            },
        ),
{
    lemma_keys_differ();
}

/// Exactly the words `true`, `1`, `yes`, `on` and `false`, `0`, `no`, `off` spell
/// truth values, in upper or lower case.
pub proof fn law_truth_is_spelled_by_eight_words(value: Seq<char>)
    ensures
        truth(value) == Some(true) <==> lowered(value) == "true"@ || lowered(value) == "1"@
            || lowered(value) == "yes"@ || lowered(value) == "on"@,
        truth(value) == Some(false) <==> lowered(value) == "false"@ || lowered(value) == "0"@
            || lowered(value) == "no"@ || lowered(value) == "off"@,
{
    reveal_strlit("true");
    reveal_strlit("1");
    reveal_strlit("yes");
    reveal_strlit("on");
    reveal_strlit("false");
    reveal_strlit("0");
    reveal_strlit("no");
    reveal_strlit("off");
    assert("true"@.len() == 4 && "1"@.len() == 1 && "yes"@.len() == 3 && "on"@.len() == 2);
    assert("false"@.len() == 5 && "0"@.len() == 1 && "no"@.len() == 2 && "off"@.len() == 3);
    assert("1"@[0] != "0"@[0] && "yes"@[0] != "off"@[0] && "on"@[0] != "no"@[0]);
}

/// A number of seconds is the time that a request may take, however it is written,
/// and nothing else depends on it.
pub proof fn law_time_limit_is_taken_as_written(
    params: Map<Seq<char>, Seq<char>>,
    value: Seq<char>,
    secs: nat,
)
    requires
        unsigned(trimmed(value)) == Some(secs),
        secs <= u64::MAX,
    ensures
        first_error(params.insert("timeout"@, value)) == first_error(params.remove("timeout"@)),
        config_of(params.insert("timeout"@, value)) == (ConfigView {
            timeout: Some(secs * 1_000_000_000),
            ..config_of(params)
        }),
{
    lemma_keys_differ();
}

/// A time limit that is no number of seconds, or too large a one, is refused, with
/// the value, where the address and TLS are in order.
pub proof fn law_other_time_limits_are_refused(
    params: Map<Seq<char>, Seq<char>>,
    value: Seq<char>,
)
    requires
        unsigned(trimmed(value)) is None || unsigned(trimmed(value))->0 > u64::MAX,
        params.contains_key("uri"@) && trimmed(params["uri"@]).len() > 0,
        params.contains_key("ssl"@) ==> truth(trimmed(params["ssl"@])) is Some,
    ensures
        first_error(params.insert("timeout"@, value)) == Some(
            ErrorView::InvalidParameter {
                param: "timeout"@,
                reason: "expected a number of seconds, got '"@ + trimmed(value) + "'"@,
            },
        ),
{
    lemma_keys_differ();
}

/// A number of sessions, at least one, is the size of the pool, however it is
/// written, and nothing else depends on it.
pub proof fn law_pool_size_is_taken_as_written(
    params: Map<Seq<char>, Seq<char>>,
    value: Seq<char>,
    size: nat,
)
    requires
        unsigned(trimmed(value)) == Some(size),
        1 <= size <= usize::MAX,
    ensures
        first_error(params.insert("max_connections"@, value)) == first_error(
            params.remove("max_connections"@),
        ),
        config_of(params.insert("max_connections"@, value)) == (ConfigView {
            max_connections: size,
            ..config_of(params)
        }),
{
    lemma_keys_differ();
}

/// A pool size that is no number, zero or too large a number is refused, with the
/// value, where everything else is in order.
pub proof fn law_other_pool_sizes_are_refused(
    params: Map<Seq<char>, Seq<char>>,
    value: Seq<char>,
)
    requires
        unsigned(trimmed(value)) is None || unsigned(trimmed(value))->0 == 0 || unsigned(
            trimmed(value),
        )->0 > usize::MAX,
        first_error(params.remove("max_connections"@)) is None,
    ensures
        first_error(params.insert("max_connections"@, value)) == Some(
            ErrorView::InvalidParameter {
                param: "max_connections"@,
                reason: "expected an integer >= 1, got '"@ + trimmed(value) + "'"@,
            },
        ),
{
    lemma_keys_differ();
}

/// An address alone is enough, and each parameter that is left out leaves its option
/// as the client has it, whatever the others are.
pub proof fn law_absent_parameters_leave_defaults(params: Map<Seq<char>, Seq<char>>)
    ensures
        config_of(params.remove("auth_token"@)) == (ConfigView {
            auth_token: None,
            ..config_of(params)
        }),
        config_of(params.remove("ssl"@)) == (ConfigView { ssl: None, ..config_of(params) }),
        config_of(params.remove("timeout"@)) == (ConfigView {
            timeout: Some(300_000_000_000),
            ..config_of(params)
        }),
        config_of(params.remove("max_connections"@)) == (ConfigView {
            max_connections: 4,
            ..config_of(params)
        }),
        params.contains_key("uri"@) && trimmed(params["uri"@]).len() > 0 ==> first_error(
            params.remove("ssl"@).remove("timeout"@).remove("max_connections"@),
        ) is None,
{
    lemma_keys_differ();
}

/// No parameter touches the client's other options.
pub proof fn law_other_options_are_the_clients(params: Map<Seq<char>, Seq<char>>)
    ensures
        config_of(params).client_duckdb_version is None,
        config_of(params).client_platform is None,
        config_of(params).min_supported_quack_version is None,
        config_of(params).max_supported_quack_version is None,
        config_of(params).client_id is None,
        config_of(params).heartbeat_timeout == Some(60_000_000_000nat),
        config_of(params).ssl_fingerprint is None,
        config_of(params).headers.len() == 0,
{
}

/// What a configuration shows is what its fields hold.
pub proof fn law_configuration_is_seen_as_it_is(config: QuackPoolConfig)
    ensures
        config@.uri == config.uri@,
        config@.auth_token == config.client_options.auth_token.deep_view(),
        config@.client_duckdb_version == config.client_options.client_duckdb_version.deep_view(),
        config@.client_platform == config.client_options.client_platform.deep_view(),
        config@.min_supported_quack_version == config.client_options.min_supported_quack_version,
        config@.max_supported_quack_version == config.client_options.max_supported_quack_version,
        config@.client_id == config.client_options.client_id.deep_view(),
        config@.ssl == config.client_options.ssl,
        config@.ssl_fingerprint == config.client_options.ssl_fingerprint.deep_view(),
        config@.headers == config.client_options.headers.deep_view(),
        config@.max_connections == config.pool_options.max_connections,
        match config.client_options.heartbeat_timeout {
            Some(duration) => config@.heartbeat_timeout == Some(duration_nanos(duration)),
            None => config@.heartbeat_timeout is None,
        },
        match config.client_options.timeout {
            Some(duration) => config@.timeout == Some(duration_nanos(duration)),
            None => config@.timeout is None,
        },
{
}

/// An error shows what it holds, and is worded with all of it.
pub proof fn law_error_is_worded_with_its_parts(
    uri: String,
    source: QueryFailure,
    param: String,
    reason: String,
)
    ensures
        (Error::ConnectionError { uri, source })@ == (ErrorView::ConnectionError {
            uri: uri@,
            source,
        }),
        (Error::MissingParameter { param })@ == (ErrorView::MissingParameter { param: param@ }),
        (Error::InvalidParameter { param, reason })@ == (ErrorView::InvalidParameter {
            param: param@,
            reason: reason@,
        }),
        (Error::ConnectionError { uri, source })@.message()
            == "Unable to connect to Quack server '"@ + uri@ + "': "@ + (source.label()
            + source.text()),
        (Error::MissingParameter { param })@.message() == "Missing required parameter: "@ + param@,
        (Error::InvalidParameter { param, reason })@.message()
            == "Invalid value for parameter '"@ + param@ + "': "@ + reason@,
{
}

/// The join context of an address is that address, and is shown as it is held.
pub proof fn law_context_holds_the_address(uri: Seq<char>, context: String)
    ensures
        join_context(uri).take(4) == "uri="@,
        join_context(uri).skip(4) == uri,
        JoinPushDown::AllowedFor(context).context() == Some(context@),
        JoinPushDown::Disallow.context() is None,
{
    reveal_strlit("uri=");
    assert("uri="@.len() == 4);
    assert(join_context(uri).take(4) == "uri="@);
    assert(join_context(uri).skip(4) == uri);
}

/// What is written of a pool in logs is its limit and its join context.
pub proof fn law_pool_is_written_with_its_limit(limit: nat, shown: Seq<char>, context: Seq<char>)
    ensures
        pool_text(limit, Some(shown)) == "QuackConnectionPool { max_connections: "@ + decimal_text(
            limit,
        ) + ", join_push_down: AllowedFor("@ + shown + ") }"@,
        pool_text(limit, None) == "QuackConnectionPool { max_connections: "@ + decimal_text(limit)
            + ", join_push_down: Disallow }"@,
        shown_context(Some(context)) == Some(debug_text(context)),
        shown_context(None) is None,
{
    reveal_strlit(", join_push_down: AllowedFor(");
    reveal_strlit(", join_push_down: Disallow }");
    reveal_strlit(", join_push_down: ");
    reveal_strlit("AllowedFor(");
    reveal_strlit("Disallow");
    reveal_strlit(")");
    reveal_strlit(" }");
    reveal_strlit(") }");
    assert(", join_push_down: AllowedFor("@ == ", join_push_down: "@ + "AllowedFor("@);
    assert(", join_push_down: Disallow }"@ == ", join_push_down: "@ + "Disallow"@ + " }"@);
    assert(") }"@ == ")"@ + " }"@);
    let head = "QuackConnectionPool { max_connections: "@ + decimal_text(limit);
    assert(pool_text(limit, Some(shown)) == head + ", join_push_down: AllowedFor("@ + shown
        + ") }"@);
    assert(pool_text(limit, None) == head + ", join_push_down: Disallow }"@);
}

/// What is written of a configuration in logs holds its address, whether there is a
/// token, and the three options that parameters set, each in its place.
pub proof fn law_configuration_is_written_field_by_field(shown_uri: Seq<char>, config: ConfigView)
    ensures
        config_text(shown_uri, config) == "QuackPoolConfig { uri: "@ + shown_uri
            + ", auth_token: "@ + (if config.auth_token is Some {
            "Some(\"<redacted>\")"@
        } else {
            "None"@
        }) + ", ssl: "@ + (if config.ssl == Some(true) {
            "Some(true)"@
        } else if config.ssl == Some(false) {
            "Some(false)"@
        } else {
            "None"@
        }) + ", timeout: "@ + (if config.timeout is Some {
            "Some("@ + duration_debug(config.timeout->0) + ")"@
        } else {
            "None"@
        }) + ", max_connections: "@ + decimal_text(config.max_connections) + " }"@,
{
    reveal_strlit("Some(");
    reveal_strlit(")");
    reveal_strlit("true");
    reveal_strlit("false");
    reveal_strlit("\"<redacted>\"");
    reveal_strlit("Some(true)");
    reveal_strlit("Some(false)");
    reveal_strlit("Some(\"<redacted>\")");
    assert("Some("@ + "true"@ + ")"@ == "Some(true)"@);
    assert("Some("@ + "false"@ + ")"@ == "Some(false)"@);
    assert("Some("@ + "\"<redacted>\""@ + ")"@ == "Some(\"<redacted>\")"@);
}

/// A value that spells no truth value is refused under the name of its parameter,
/// with the value in lower case.
pub proof fn law_refused_truth_names_its_parameter(param: Seq<char>, value: Seq<char>)
    ensures
        not_a_truth(param, value) == (ErrorView::InvalidParameter {
            param,
            reason: "expected true or false, got '"@ + lowered(value) + "'"@,
        }),
{
}

/// Text of the printable characters of ASCII, but for the double quotation mark and
/// the backslash, is not escaped, and stands between two double quotation marks.
pub proof fn law_plain_text_is_not_escaped(text: Seq<char>)
    ensures
        is_unescaped(text) <==> forall|i: int|
            0 <= i < text.len() ==> 32 <= #[trigger] text[i] as int <= 126 && text[i] != '"'
                && text[i] != '\\',
        between_marks(text) == seq!['"'] + text + seq!['"'],
{
    if is_unescaped(text) {
        assert forall|i: int| 0 <= i < text.len() implies 32 <= #[trigger] text[i] as int <= 126
            && text[i] != '"' && text[i] != '\\' by {}
    }
    assert(between_marks(text) == seq!['"'] + text + seq!['"']);
}

} // verus!
