use datafusion_pg_catalog::catalog::defs::CatalogTable;
use datafusion_pg_catalog::catalog::row::{CellValue, Row};
use datafusion_pg_catalog::catalog::source::build_rows_for;
use datafusion_pg_catalog::sqlite::{
    djb2, list_columns, read_line, relation_oid, reltype_oid, sqlite_type_to_oid, statement_status,
    table_info_query, Line, SqliteCatalogSource, SqliteTable, TableInfo, DB_OID, SCHEMA_OID,
};

fn info(name: &str, decl_type: &str, notnull: i64) -> TableInfo {
    TableInfo {
        name: name.to_string(),
        decl_type: decl_type.to_string(),
        notnull,
    }
}

fn source() -> SqliteCatalogSource {
    SqliteCatalogSource {
        tables: vec![SqliteTable {
            name: "users".to_string(),
            columns: vec![info("id", "integer", 1), info("name", "TEXT", 0)],
        }],
    }
}

fn values<'a>(rows: &'a Vec<Row>, column: &str) -> Vec<&'a CellValue> {
    rows.iter().map(|r| r.get(column).unwrap()).collect()
}

#[test]
fn names_decide_the_oids() {
    assert_eq!(djb2(""), 5381);
    assert_eq!(djb2("a"), 177670);
    assert_eq!(djb2("users"), 277151607);
    assert_eq!(relation_oid("users"), 21607);
    assert_eq!(reltype_oid("users"), 31607);
    assert_ne!(relation_oid("users"), reltype_oid("users"));
}

#[test]
fn declared_types_are_integers_or_texts() {
    assert_eq!(sqlite_type_to_oid("integer"), 23);
    assert_eq!(sqlite_type_to_oid("BIGINT"), 23);
    assert_eq!(sqlite_type_to_oid("varchar(20)"), 25);
    assert_eq!(sqlite_type_to_oid(""), 25);
    let columns = list_columns(&vec![info("a", "INT", 0), info("b", "REAL", 1)]);
    assert_eq!((columns[0].type_oid, columns[0].nullable), (23, true));
    assert_eq!((columns[1].type_oid, columns[1].nullable), (25, false));
}

#[test]
fn tables_are_shown_in_the_catalog() {
    let databases = build_rows_for(CatalogTable::PgDatabase, &source()).unwrap();
    assert_eq!(values(&databases, "datname"), vec![&CellValue::Text("appdb".to_string())]);
    assert_eq!(values(&databases, "oid"), vec![&CellValue::Int(DB_OID as i64)]);
    let schemas = build_rows_for(CatalogTable::PgNamespace, &source()).unwrap();
    assert_eq!(values(&schemas, "oid"), vec![&CellValue::Int(SCHEMA_OID as i64)]);
    let classes = build_rows_for(CatalogTable::PgClass, &source()).unwrap();
    assert_eq!(values(&classes, "relname"), vec![&CellValue::Text("users".to_string())]);
    assert_eq!(values(&classes, "relnatts"), vec![&CellValue::Int(2)]);
    let attributes = build_rows_for(CatalogTable::PgAttribute, &source()).unwrap();
    assert_eq!(
        values(&attributes, "attnotnull"),
        vec![&CellValue::Bool(true), &CellValue::Bool(false)]
    );
}

#[test]
fn quotes_in_table_names_are_doubled() {
    assert_eq!(table_info_query("a\"b"), "PRAGMA table_info(\"a\"\"b\")");
}

#[test]
fn statements_report_what_they_changed() {
    assert_eq!(statement_status("  insert into t values (1)", 1), "OK (1 row(s) affected)");
    assert_eq!(statement_status("DELETE\tFROM t", 12), "OK (12 row(s) affected)");
    assert_eq!(statement_status("CREATE TABLE t (a INT)", 1), "OK");
    assert_eq!(statement_status("", 0), "OK");
}

#[test]
fn lines_of_the_prompt() {
    assert_eq!(read_line("  ; "), Line::Empty);
    assert_eq!(read_line("\\q"), Line::Quit);
    assert_eq!(read_line("QUIT;"), Line::Quit);
    assert_eq!(read_line("exit"), Line::Quit);
    assert_eq!(read_line(" SELECT 1 ;; "), Line::Statement("SELECT 1".to_string()));
}
