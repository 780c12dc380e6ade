use datafusion_sql::unparser::dialect::Dialect;
use datafusion_table_providers_quack::pool;
use datafusion_table_providers_quack::table_reference::TableReference;
use datafusion_table_providers_quack::{
    dialect, identifier_quote_style, pool_params, remote_table_reference, CreateExternalTable,
    Error, QuackTableProviderFactory,
};

fn create_cmd(name: &str, location: &str) -> CreateExternalTable {
    CreateExternalTable {
        name: TableReference::parse(name),
        location: location.to_string(),
        options: vec![],
    }
}

fn options(pairs: &[(&str, &str)]) -> Vec<(String, String)> {
    pairs
        .iter()
        .map(|(key, value)| ((*key).to_string(), (*value).to_string()))
        .collect()
}

fn bare(table: &str) -> TableReference {
    TableReference::Bare {
        table: table.to_string(),
    }
}

fn partial(schema: &str, table: &str) -> TableReference {
    TableReference::Partial {
        schema: schema.to_string(),
        table: table.to_string(),
    }
}

#[test]
fn location_names_the_remote_table() {
    let cmd = create_cmd("local_name", "main.remote_table");
    assert_eq!(
        remote_table_reference(&cmd),
        partial("main", "remote_table")
    );
}

#[test]
fn empty_location_falls_back_to_table_name() {
    let cmd = create_cmd("users", "  ");
    assert_eq!(remote_table_reference(&cmd), bare("users"));
}

#[test]
fn option_keys_are_unprefixed() {
    let options = options(&[
        ("quack.uri", "localhost:9494"),
        ("format.auth_token", "token"),
        ("max_connections", "2"),
    ]);
    let params = pool_params(&options);
    assert_eq!(params.get("uri"), Some("localhost:9494"));
    assert_eq!(params.get("auth_token"), Some("token"));
    assert_eq!(params.get("max_connections"), Some("2"));
    assert_eq!(params.len(), 3);
}

#[test]
fn dialect_quotes_identifiers_like_duckdb() {
    assert_eq!(dialect().identifier_quote_style("x"), Some('"'));
}

#[test]
fn a_qualified_name_is_used_where_there_is_no_location() {
    let cmd = create_cmd("lake.main.users", "\t\n");
    assert_eq!(
        remote_table_reference(&cmd),
        TableReference::Full {
            catalog: "lake".to_string(),
            schema: "main".to_string(),
            table: "users".to_string(),
        }
    );
    assert_eq!(
        remote_table_reference(&create_cmd("main.users", "")),
        partial("main", "users")
    );
}

fn named(name: TableReference, location: &str) -> CreateExternalTable {
    CreateExternalTable {
        name,
        location: location.to_string(),
        options: options(&[("quack.uri", "localhost")]),
    }
}

#[test]
fn the_own_name_is_used_as_it_is() {
    for location in ["", "  ", "\n"] {
        for name in ["Users", "my.table", "a\"b", "1 x", "", "\"q\""] {
            let cmd = named(bare(name), location);
            assert_eq!(remote_table_reference(&cmd), bare(name));
            let (_, table) = QuackTableProviderFactory::new()
                .plan(&cmd)
                .expect("a valid statement");
            assert_eq!(table, bare(name));
        }
        let cmd = named(partial("My Schema", "my.table"), location);
        assert_eq!(
            remote_table_reference(&cmd),
            partial("My Schema", "my.table")
        );
    }
}

#[test]
fn a_written_location_is_the_table_whatever_the_name_is() {
    for reference in [bare("Users"), partial("My Schema", "a\"b"), bare("my.table")] {
        let cmd = named(bare("Other"), &reference.to_quoted_text());
        assert_eq!(remote_table_reference(&cmd), reference);
        let (_, table) = QuackTableProviderFactory::new()
            .plan(&cmd)
            .expect("a valid statement");
        assert_eq!(table, reference);
    }
}

#[test]
fn identifiers_stand_between_double_quotation_marks() {
    for identifier in ["x", "", "My Table", "a\"b", "select"] {
        assert_eq!(identifier_quote_style(identifier), Some('"'));
    }
}

#[test]
fn a_location_is_read_as_it_stands() {
    assert_eq!(
        remote_table_reference(&create_cmd("t", "Main.Users")),
        partial("main", "users")
    );
    assert_eq!(
        remote_table_reference(&create_cmd("t", "main.\"Users\"")),
        partial("main", "Users")
    );
}

#[test]
fn only_one_namespace_is_taken_off() {
    let params = pool_params(&options(&[
        ("quack.format.a", "1"),
        ("format.quack.b", "2"),
        ("Quack.c", "3"),
        ("quackd", "4"),
        ("quack.", "5"),
    ]));
    assert_eq!(params.get("format.a"), Some("1"));
    assert_eq!(params.get("quack.b"), Some("2"));
    assert_eq!(params.get("Quack.c"), Some("3"));
    assert_eq!(params.get("quackd"), Some("4"));
    assert_eq!(params.get(""), Some("5"));
    assert_eq!(params.get("a"), None);
    assert_eq!(params.len(), 5);
}

#[test]
fn the_option_that_is_walked_last_stands() {
    let params = pool_params(&options(&[("quack.uri", "a"), ("uri", "b")]));
    assert_eq!(params.get("uri"), Some("b"));
    assert_eq!(params.len(), 1);
    let params = pool_params(&options(&[("uri", "b"), ("quack.uri", "a")]));
    assert_eq!(params.get("uri"), Some("a"));
}

#[test]
fn the_order_of_options_does_not_matter() {
    let pairs = [("quack.uri", "a"), ("format.ssl", "on"), ("timeout", "1")];
    for order in [[0, 1, 2], [2, 1, 0], [1, 2, 0]] {
        let params = pool_params(&options(&order.map(|i: usize| pairs[i])));
        assert_eq!(params.get("uri"), Some("a"));
        assert_eq!(params.get("ssl"), Some("on"));
        assert_eq!(params.get("timeout"), Some("1"));
        assert_eq!(params.len(), 3);
    }
}

#[test]
fn no_options_give_no_parameters() {
    let params = pool_params(&vec![]);
    assert_eq!(params.len(), 0);
    assert_eq!(params.get("uri"), None);
}

#[test]
fn a_statement_names_a_pool_and_a_table() {
    let mut cmd = create_cmd("users", "main.users");
    cmd.options = options(&[
        ("quack.uri", "quack:127.0.0.1:9494"),
        ("quack.auth_token", "super_secret"),
    ]);
    let (config, table) = QuackTableProviderFactory::new()
        .plan(&cmd)
        .expect("a valid statement");
    assert_eq!(config.uri, "quack:127.0.0.1:9494");
    assert_eq!(
        config.client_options.auth_token.as_deref(),
        Some("super_secret")
    );
    assert_eq!(table, partial("main", "users"));
}

#[test]
fn a_statement_without_a_server_is_refused() {
    let err = QuackTableProviderFactory::default()
        .plan(&create_cmd("users", "main.users"))
        .err()
        .expect("no address");
    assert_eq!(err.message(), "Missing required parameter: uri");
    assert_eq!(
        Error::UnableToCreateConnectionPool { source: err }.message(),
        "Unable to create Quack connection pool: Missing required parameter: uri"
    );
}

#[test]
fn every_error_has_its_words() {
    let source = pool::Error::InvalidParameter {
        param: "ssl".to_string(),
        reason: "no".to_string(),
    };
    assert_eq!(
        Error::UnableToCreateConnectionPool { source }.message(),
        "Unable to create Quack connection pool: Invalid value for parameter 'ssl': no"
    );
    assert_eq!(
        Error::UnableToCreateTableProvider {
            source: "no schema".to_string()
        }
        .message(),
        "Unable to create table provider: no schema"
    );
    assert_eq!(
        Error::UnableToCreateFederatedTableProvider {
            source: "no".to_string()
        }
        .message(),
        "Unable to create federated table provider: no"
    );
}
