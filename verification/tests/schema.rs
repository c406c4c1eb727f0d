use momoka_core::database::error::DatabaseError;
use momoka_core::database::manticore::{
    insert_version_statement, is_missing_table_error, sanitize_param, set_version_statement,
    update_version_statement,
};
use momoka_core::database::sync::{parse_version, Synchronizer};
use momoka_core::graphql::error::{ClientFault, GraphQLError};
use momoka_core::parse::{parse_u64, render_u64};

fn simple_statements(step: &Synchronizer) -> Vec<String> {
    match step {
        Synchronizer::Simple(qs) => qs.clone(),
        other => panic!("expected a flat step, got {:?}", other),
    }
}

#[test]
fn scylla_catalog_has_master_and_two_increments() {
    let catalog = momoka_core::database::scylla::schema::synchronizers();
    assert_eq!(catalog.len(), 3);
    let master = simple_statements(&catalog[0]);
    assert_eq!(master.len(), 8);
    assert_eq!(
        master[0],
        "CREATE TABLE sync_data (field TEXT PRIMARY KEY, value TEXT);"
    );
    let v1 = simple_statements(&catalog[1]);
    assert_eq!(
        v1,
        vec!["CREATE TABLE sync_data (field TEXT PRIMARY KEY, value TEXT);".to_string()]
    );
    let v2 = simple_statements(&catalog[2]);
    assert_eq!(v2.len(), 7);
    assert_eq!(&master[1..], v2.as_slice());
}

#[test]
fn manticore_catalog_has_master_and_one_increment() {
    let catalog = momoka_core::database::manticore::schema::synchronizers();
    assert_eq!(catalog.len(), 2);
    let master = simple_statements(&catalog[0]);
    assert_eq!(
        master,
        vec!["CREATE TABLE sync_data (field TEXT, value TEXT attribute)".to_string()]
    );
    assert_eq!(simple_statements(&catalog[1]), master);
}

#[test]
fn sanitize_param_escapes_quotes_and_backslashes() {
    assert_eq!(sanitize_param(r#"a\b"#), r#"a\\b"#);
    assert_eq!(sanitize_param("it's"), r#"it\'s"#);
    assert_eq!(sanitize_param(r#"say "hi""#), r#"say \"hi\""#);
    assert_eq!(sanitize_param("plain"), "plain");
    assert_eq!(sanitize_param(""), "");
    assert_eq!(sanitize_param(r#"\'"#), r#"\\\'"#);
}

#[test]
fn missing_table_wording_is_recognized() {
    assert!(is_missing_table_error(
        "MySqlError { ERROR 1064 (42000): unknown local table(s) 'sync_data' in search request }"
    ));
    assert!(!is_missing_table_error("syntax error near WHERE"));
    assert!(!is_missing_table_error(""));
}

#[test]
fn version_statements_use_the_decimal_form() {
    assert_eq!(
        insert_version_statement(3),
        "INSERT INTO sync_data (field, value) VALUES ('schema_version', '3')"
    );
    assert_eq!(
        update_version_statement(12),
        "UPDATE sync_data SET value = '12' WHERE MATCH('@field schema_version')"
    );
    assert_eq!(set_version_statement(None, 7), insert_version_statement(7));
    assert_eq!(
        set_version_statement(Some(6), 7),
        update_version_statement(7)
    );
}

#[test]
fn version_values_parse_and_render_in_decimal() {
    assert_eq!(parse_version("0").unwrap(), 0);
    assert_eq!(parse_version("41").unwrap(), 41);
    let err = parse_version("4x").unwrap_err();
    assert_eq!(
        err,
        DatabaseError::SchemaState("invalid schema version: 4x".to_string())
    );
    assert_eq!(render_u64(0), "0");
    assert_eq!(render_u64(10), "10");
    assert_eq!(render_u64(18446744073709551615), "18446744073709551615");
    assert_eq!(parse_u64(&render_u64(90210)).unwrap(), 90210);
    assert_eq!(parse_u64("007").unwrap(), 7);
    assert_eq!(parse_u64("-1"), None);
    assert_eq!(parse_u64(""), None);
    assert_eq!(parse_u64("+"), None);
}

#[test]
fn database_errors_name_their_class() {
    assert_eq!(
        DatabaseError::Protocol("boom".to_string()).name(),
        "protocol error"
    );
    assert_eq!(
        DatabaseError::Connection("down".to_string()).name(),
        "connection error"
    );
    assert_eq!(
        DatabaseError::SchemaState("bad".to_string()).name(),
        "schema state error"
    );
    assert_eq!(
        DatabaseError::Configuration("odd".to_string()).name(),
        "configuration error"
    );
}

#[test]
fn query_layer_roots_answer() {
    assert!(momoka_core::graphql::query::Query::health_check());
    assert!(momoka_core::graphql::mutation::Mutation::empty());
}

#[test]
fn graphql_errors_name_their_class() {
    assert_eq!(
        GraphQLError::ClientFault(ClientFault::MustNotEmpty()).name(),
        "client fault - must not empty"
    );
    assert_eq!(
        GraphQLError::ClientFault(ClientFault::InvalidInteger("x".to_string())).name(),
        "client fault - invalid integer"
    );
    assert_eq!(ClientFault::MustNotEmpty().name(), "must not empty");
}
