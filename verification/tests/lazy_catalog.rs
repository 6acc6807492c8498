use datafusion_pg_catalog::catalog::defs::{
    CatalogTable, ColumnSpec, ConfigSettingDef, ConstraintDef, DatabaseDef, ForeignKeyAction,
    ForeignKeyMatch, IndexDef, LazyCatalogOptions, LazyDatabaseRow, RelationDef, RelationKind,
    SchemaDef,
};
use datafusion_pg_catalog::catalog::merge::{
    keep_builtin_rows, served_rows, user_keys, KeyCell, ServedRow,
};
use datafusion_pg_catalog::catalog::registry::{
    add_schema_to_registry, ensure_database_registry, remove_schema_from_registry,
    take_schemas_from_registry, SchemaRegistry,
};
use datafusion_pg_catalog::catalog::row::{CellValue, Row};
use datafusion_pg_catalog::catalog::source::{
    build_rows_for, DatabaseOnlySource, LazyCatalogSource, SourceError,
};

/// Two databases, each with a schema `public`, and one table in the second of them.
struct Source {
    broken: bool,
}

impl LazyCatalogSource for Source {
    fn databases(&self) -> Result<Vec<DatabaseDef>, SourceError> {
        Ok(vec![LazyDatabaseRow::new(100, "a", 10), LazyDatabaseRow::new(200, "b", 10)])
    }

    fn schemas(&self, database: &str) -> Result<Vec<SchemaDef>, SourceError> {
        Ok(vec![SchemaDef::new(if database == "a" { 101 } else { 201 }, "public")])
    }

    fn relations(&self, database: &str, _schema: &str) -> Result<Vec<RelationDef>, SourceError> {
        if self.broken {
            return Err(SourceError { message: "gone".to_string() });
        }
        Ok(if database == "b" { vec![RelationDef::table(202, 203, "t")] } else { vec![] })
    }

    fn columns(&self, _: &str, _: &str, relation: &str) -> Result<Vec<ColumnSpec>, SourceError> {
        assert_eq!(relation, "t");
        Ok(vec![
            ColumnSpec::new("id", 23, false),
            ColumnSpec::new("note", 25, true).with_default(),
        ])
    }

    fn indexes(&self, database: &str, _: &str) -> Result<Vec<IndexDef>, SourceError> {
        Ok(if database == "b" { vec![IndexDef::new(204, "t_pkey", 202, vec![1])] } else { vec![] })
    }

    fn config(&self) -> Result<Vec<ConfigSettingDef>, SourceError> {
        Ok(vec![ConfigSettingDef { name: "BINDIR".to_string(), setting: "/bin".to_string() }])
    }
}

fn texts(rows: &[Row], column: &str) -> Vec<String> {
    rows.iter()
        .map(|r| match r.get(column) {
            Some(CellValue::Text(s)) => s.clone(),
            other => panic!("no text in {column}: {other:?}"),
        })
        .collect()
}

fn ints(rows: &[Row], column: &str) -> Vec<i64> {
    rows.iter()
        .map(|r| match r.get(column) {
            Some(CellValue::Int(n)) => *n,
            other => panic!("no number in {column}: {other:?}"),
        })
        .collect()
}

fn rows_for(table: CatalogTable) -> Vec<Row> {
    build_rows_for(table, &Source { broken: false }).unwrap()
}

#[test]
fn every_table_has_the_rows_of_the_source() {
    assert_eq!(texts(&rows_for(CatalogTable::PgDatabase), "datname"), ["a", "b"]);
    assert_eq!(ints(&rows_for(CatalogTable::PgNamespace), "oid"), [101, 201]);
    let classes = rows_for(CatalogTable::PgClass);
    assert_eq!(texts(&classes, "relname"), ["t", "t_pkey"]);
    assert_eq!(texts(&classes, "relkind"), ["r", "i"]);
    assert_eq!(ints(&classes, "relnamespace"), [201, 201]);
    assert_eq!(ints(&classes[..1], "relnatts"), [2]);
    assert_eq!(ints(&classes, "relam"), [2, 403]);
    let types = rows_for(CatalogTable::PgType);
    assert_eq!(ints(&types, "oid"), [203]);
    assert_eq!(ints(&types, "typrelid"), [202]);
    let attributes = rows_for(CatalogTable::PgAttribute);
    assert_eq!(texts(&attributes, "attname"), ["id", "note"]);
    assert_eq!(ints(&attributes, "attnum"), [1, 2]);
    assert_eq!(ints(&rows_for(CatalogTable::PgIndex), "indrelid"), [202]);
    assert_eq!(rows_for(CatalogTable::PgConstraint).len(), 0);
    assert_eq!(ints(&rows_for(CatalogTable::PgAttrdef), "adnum"), [2]);
    assert_eq!(texts(&rows_for(CatalogTable::PgConfig), "setting"), ["/bin"]);
    assert_eq!(rows_for(CatalogTable::PgSettings).len(), 0);
    let tables = rows_for(CatalogTable::InformationSchemaTables);
    assert_eq!(texts(&tables, "table_catalog"), ["b"]);
    assert_eq!(texts(&tables, "table_type"), ["BASE TABLE"]);
    let columns = rows_for(CatalogTable::InformationSchemaColumns);
    assert_eq!(texts(&columns, "data_type"), ["integer", "text"]);
    assert_eq!(texts(&columns, "is_nullable"), ["NO", "YES"]);
    assert_eq!(ints(&columns, "ordinal_position"), [1, 2]);
    let schemata = rows_for(CatalogTable::InformationSchemaSchemata);
    assert_eq!(texts(&schemata, "catalog_name"), ["a", "b"]);
}

#[test]
fn errors_of_the_source_are_handed_on() {
    let broken = Source { broken: true };
    let error = build_rows_for(CatalogTable::PgClass, &broken).unwrap_err();
    assert_eq!(error.message, "gone");
    // What the broken part has nothing to do with is still there.
    assert_eq!(build_rows_for(CatalogTable::PgDatabase, &broken).unwrap().len(), 2);
}

#[test]
fn a_source_of_databases_has_nothing_else() {
    let source = DatabaseOnlySource {
        rows: vec![LazyDatabaseRow::new(1, "only", 10)],
    };
    let rows = build_rows_for(CatalogTable::PgDatabase, &source).unwrap();
    assert_eq!(texts(&rows, "datname"), ["only"]);
    assert_eq!(build_rows_for(CatalogTable::PgNamespace, &source).unwrap().len(), 0);
    assert_eq!(build_rows_for(CatalogTable::PgClass, &source).unwrap().len(), 0);
}

#[test]
fn user_rows_win_over_builtin_rows() {
    let rows = rows_for(CatalogTable::PgDatabase);
    let keys = user_keys(CatalogTable::PgDatabase, &rows).unwrap();
    assert_eq!(keys, vec![vec!["a".to_string()], vec!["b".to_string()]]);
    let builtin = vec![
        vec![KeyCell::Text("b".to_string())],
        vec![KeyCell::Text("postgres".to_string())],
        vec![KeyCell::Null],
        vec![KeyCell::Other],
    ];
    assert_eq!(keep_builtin_rows(&keys, &builtin), vec![false, true, true, true]);
    assert_eq!(
        served_rows(CatalogTable::PgDatabase, &rows, &builtin).unwrap(),
        vec![
            ServedRow::Builtin(1),
            ServedRow::Builtin(2),
            ServedRow::Builtin(3),
            ServedRow::User(0),
            ServedRow::User(1),
        ]
    );
    // Numbers match as numbers do.
    let oids = user_keys(CatalogTable::PgNamespace, &rows_for(CatalogTable::PgNamespace)).unwrap();
    let builtin = vec![vec![KeyCell::Int(201)], vec![KeyCell::Int(11)]];
    assert_eq!(keep_builtin_rows(&oids, &builtin), vec![false, true]);
}

#[test]
fn two_user_rows_of_one_key_are_refused() {
    let mut rows = rows_for(CatalogTable::PgClass);
    rows.push(rows[0].copy());
    let duplicate = user_keys(CatalogTable::PgClass, &rows).unwrap_err();
    assert_eq!(
        duplicate.message(),
        "lazy catalog source returned a duplicate pg_class entry for (relnamespace, relname) = [\"201\", \"t\"]"
    );
}

#[test]
fn lists_are_keys_too() {
    let mut row = Row::new();
    row.insert(
        "name",
        CellValue::TextList(vec!["a\"".to_string(), "b".to_string()]),
    );
    let mut numbers = Row::new();
    numbers.insert("name", CellValue::IntList(vec![1, -2]));
    let keys = user_keys(CatalogTable::PgConfig, &vec![row, numbers, Row::new()]).unwrap();
    assert_eq!(keys[0], vec!["[\"a\\\"\",\"b\"]".to_string()]);
    assert_eq!(keys[1], vec!["[1,-2]".to_string()]);
    assert_eq!(keys[2], vec!["\u{0}NULL\u{0}".to_string()]);
}

#[test]
fn kinds_have_their_codes() {
    assert_eq!(RelationKind::Table.relkind(), "r");
    assert_eq!(RelationKind::View.relkind(), "v");
    assert_eq!(RelationKind::MaterializedView.relkind(), "m");
    assert_eq!(RelationKind::MaterializedView.table_type(), "MATERIALIZED VIEW");
    assert_eq!(ForeignKeyAction::NoAction.code(), "a");
    assert_eq!(ForeignKeyAction::Cascade.code(), "c");
    assert_eq!(ForeignKeyMatch::Simple.code(), "s");
    let p = ConstraintDef::primary_key(1, "p", 2, 3, vec![1], 4);
    assert_eq!(p.kind.contype(), "p");
    let u = ConstraintDef::unique(1, "u", 2, 3, vec![1], 4);
    assert_eq!(u.kind.contype(), "u");
}

#[test]
fn mismatched_keys_say_what_is_wrong() {
    let error = ConstraintDef::foreign_key(1, "fk", 10, 20, vec![1, 2], 30, vec![1], 0).unwrap_err();
    assert_eq!(
        error.message(),
        "foreign key 'fk' has 2 key column(s) but 1 referenced column(s); they are positionally matched and must be equal in number"
    );
}

#[test]
fn options_name_tables() {
    assert_eq!(LazyCatalogOptions::all().tables.len(), 10);
    assert_eq!(LazyCatalogOptions::default().tables.len(), 10);
    let some = LazyCatalogOptions::with_tables(vec![CatalogTable::PgClass]);
    assert_eq!(some.tables, vec![CatalogTable::PgClass]);
    assert_eq!(CatalogTable::PgAttrdef.location(), ("pg_catalog", "pg_attrdef"));
    assert_eq!(CatalogTable::PgAttrdef.key_columns(), vec!["adrelid", "adnum"]);
}

#[test]
fn schemas_are_registered_under_their_database() {
    let mut registry = SchemaRegistry::new();
    ensure_database_registry(&mut registry, "d");
    assert_eq!(registry.schemas("d"), Some(vec![]));
    add_schema_to_registry(&mut registry, "d", "s");
    add_schema_to_registry(&mut registry, "d", "t");
    add_schema_to_registry(&mut registry, "d", "s");
    assert_eq!(registry.schemas("d"), Some(vec!["s".to_string(), "t".to_string()]));
    remove_schema_from_registry(&mut registry, "d", "s");
    assert_eq!(registry.schemas("d"), Some(vec!["t".to_string()]));
    assert_eq!(take_schemas_from_registry(&mut registry, "d"), vec!["t".to_string()]);
    assert_eq!(registry.schemas("d"), None);
    assert_eq!(take_schemas_from_registry(&mut registry, "d").len(), 0);
}
