use datafusion_pg_catalog::router::{dispatch_query, parse_search_path, Route, Session, TablePath};

fn table(catalog: &str, schema: &str, table: &str) -> TablePath {
    TablePath {
        catalog: catalog.to_string(),
        schema: schema.to_string(),
        table: table.to_string(),
    }
}

fn session(tables: Vec<TablePath>, functions: Vec<&str>, search_path: Option<&str>) -> Session {
    Session {
        default_catalog: "datafusion".to_string(),
        default_schema: "public".to_string(),
        search_path: search_path.map(str::to_string),
        tables,
        functions: functions.into_iter().map(str::to_string).collect(),
    }
}

#[test]
fn test_dispatch_user_table_calls_handler() {
    let s = session(vec![table("crm", "crm", "users")], vec![], None);
    assert_eq!(dispatch_query(&s, "SELECT * FROM users").unwrap(), Route::Handler);
}

#[test]
fn test_dispatch_catalog_query_internal() {
    let s = session(vec![table("datafusion", "pg_catalog", "pg_class")], vec![], None);
    assert_eq!(
        dispatch_query(&s, "SELECT * FROM pg_catalog.pg_class").unwrap(),
        Route::Catalog("SELECT * FROM pg_catalog.pg_class".to_string())
    );
}

#[test]
fn test_dispatch_unqualified_catalog_query_internal() {
    let s = session(vec![table("datafusion", "pg_catalog", "pg_class")], vec![], None);
    assert_eq!(
        dispatch_query(&s, "SELECT * FROM pg_class").unwrap(),
        Route::Catalog("SELECT * FROM pg_catalog.pg_class".to_string())
    );
}

#[test]
fn test_dispatch_user_table_precedence() {
    let s = session(
        vec![
            table("datafusion", "pg_catalog", "pg_class"),
            table("datafusion", "crm", "pg_class"),
        ],
        vec![],
        Some("crm, pg_catalog"),
    );
    assert_eq!(dispatch_query(&s, "SELECT * FROM pg_class").unwrap(), Route::Handler);
}

#[test]
fn test_dispatch_with_params_passes_to_handler() {
    let s = session(vec![table("crm", "crm", "users")], vec![], None);
    assert_eq!(
        dispatch_query(&s, "SELECT * FROM users WHERE id=$1").unwrap(),
        Route::Handler
    );
}

#[test]
fn test_dispatch_catalog_function_internal() {
    let s = session(vec![], vec!["pg_catalog.version"], None);
    assert_eq!(
        dispatch_query(&s, "SELECT pg_catalog.version()").unwrap(),
        Route::Catalog("SELECT pg_catalog.version()".to_string())
    );
}

#[test]
fn test_dispatch_unqualified_catalog_function_internal() {
    let s = session(vec![], vec!["pg_catalog.version"], None);
    assert_eq!(
        dispatch_query(&s, "SELECT version()").unwrap(),
        Route::Catalog("SELECT version()".to_string())
    );
}

#[test]
fn test_dispatch_in_main() {
    let s = session(vec![], vec![], None);
    assert_eq!(dispatch_query(&s, "SELECT 1").unwrap(), Route::Handler);
}

#[test]
fn unparsable_text_is_an_error() {
    let s = session(vec![], vec![], None);
    let error = dispatch_query(&s, "SELEC 1").unwrap_err();
    assert!(format!("{error:?}").contains("failed to parse SQL: "), "{error:?}");
}

#[test]
fn catalog_is_always_on_the_path() {
    assert_eq!(parse_search_path("crm"), vec!["pg_catalog", "crm"]);
    assert_eq!(parse_search_path(" \"Crm\" , ,PG_CATALOG"), vec!["Crm", "PG_CATALOG"]);
    assert_eq!(parse_search_path(""), vec!["pg_catalog"]);
}

#[test]
fn tables_in_joins_and_subqueries_are_seen() {
    let s = session(vec![table("datafusion", "pg_catalog", "pg_class")], vec![], None);
    for sql in [
        "SELECT 1 FROM a JOIN pg_class ON true",
        "SELECT 1 FROM (SELECT 1 FROM pg_class) AS t",
        "WITH c AS (SELECT 1 FROM pg_class) SELECT * FROM c",
    ] {
        assert!(
            matches!(dispatch_query(&s, sql).unwrap(), Route::Catalog(_)),
            "{sql}"
        );
    }
}

#[test]
fn catalog_tables_are_seen_in_expressions() {
    let s = session(vec![table("datafusion", "pg_catalog", "pg_class")], vec![], None);
    for (sql, text) in [
        (
            "SELECT 1 WHERE EXISTS (SELECT 1 FROM pg_catalog.pg_class)",
            "SELECT 1 WHERE EXISTS (SELECT 1 FROM pg_catalog.pg_class)",
        ),
        (
            "SELECT (SELECT count(*) FROM pg_class)",
            "SELECT (SELECT count(*) FROM pg_catalog.pg_class)",
        ),
        (
            "SELECT 1 FROM users WHERE id IN (SELECT oid FROM pg_class)",
            "SELECT 1 FROM users WHERE id IN (SELECT oid FROM pg_catalog.pg_class)",
        ),
    ] {
        assert_eq!(dispatch_query(&s, sql).unwrap(), Route::Catalog(text.to_string()));
    }
    assert_eq!(
        dispatch_query(&s, "SELECT 1 WHERE EXISTS (SELECT 1 FROM users)").unwrap(),
        Route::Handler
    );
    // A table that is being made is no table of the catalog, whatever its name.
    assert_eq!(dispatch_query(&s, "CREATE TABLE pg_class (a INT)").unwrap(), Route::Handler);
    assert_eq!(
        dispatch_query(&s, "CREATE TABLE pg_class AS SELECT oid FROM pg_class").unwrap(),
        Route::Catalog("CREATE TABLE pg_class AS SELECT oid FROM pg_catalog.pg_class".to_string())
    );
}
