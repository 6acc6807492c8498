use datafusion_pg_catalog::catalog::defs::{
    CatalogTable, ConstraintDef, ConstraintKind, RelationKind, SchemaDef,
};
use datafusion_pg_catalog::catalog::operations::{
    column_specs_from_defs, register_schema, register_user_constraint, register_user_database,
    register_user_index, register_user_tables, register_user_view, ColumnDef, NamedColumn,
    NewConstraint, NewIndex,
};
use datafusion_pg_catalog::catalog::registration::{
    oid_after_highest, Catalog, Change, Lookup, FIRST_USER_OID,
};
use datafusion_pg_catalog::catalog::registry::{
    add_schema_to_registry, ensure_database_registry, remove_schema_from_registry, SchemaRegistry,
};
use datafusion_pg_catalog::catalog::row::{CellValue, Row};
use datafusion_pg_catalog::catalog::rows::build_pg_namespace_row;
use datafusion_pg_catalog::catalog::unregister::{
    unregister_database, unregister_schema, unregister_tables,
};

fn single_column_map(name: &str, col_type: &str, nullable: bool, has_default: bool) -> Vec<NamedColumn> {
    vec![NamedColumn {
        name: name.to_string(),
        def: ColumnDef {
            col_type: col_type.to_string(),
            nullable,
            has_default,
        },
    }]
}

fn text(s: &str) -> CellValue {
    CellValue::Text(s.to_string())
}

fn rows<'a>(catalog: &'a Catalog, table: CatalogTable) -> Vec<&'a Row> {
    catalog
        .entries
        .iter()
        .filter(|e| e.table == table)
        .map(|e| &e.row)
        .collect()
}

fn rows_where<'a>(
    catalog: &'a Catalog,
    table: CatalogTable,
    cells: &[(&str, CellValue)],
) -> Vec<&'a Row> {
    rows(catalog, table)
        .into_iter()
        .filter(|r| cells.iter().all(|(c, v)| r.get(c) == Some(v)))
        .collect()
}

fn oid_of_table(catalog: &Catalog, name: &str) -> i64 {
    match rows_where(catalog, CatalogTable::PgClass, &[("relname", text(name))])[0].get("oid") {
        Some(CellValue::Int(n)) => *n,
        other => panic!("no oid: {other:?}"),
    }
}

fn start() -> (Catalog, SchemaRegistry) {
    (Catalog::new(), SchemaRegistry::new())
}

fn constraint(
    name: &str,
    table: &str,
    kind: ConstraintKind,
    key: Vec<i32>,
    referenced: Option<&str>,
    referenced_key: Vec<i32>,
) -> NewConstraint {
    NewConstraint {
        name: name.to_string(),
        table: table.to_string(),
        kind,
        key_attnums: key,
        referenced_table: referenced.map(str::to_string),
        referenced_key_attnums: referenced_key,
    }
}

#[test]
fn test_register_user_view_creates_view_relation() {
    let (mut catalog, mut registry) = start();
    let (schema_oid, _) = register_schema(&mut catalog, &mut registry, "pgtry", "myschema").unwrap();
    let id = single_column_map("id", "int", false, false);
    register_user_view(&mut catalog, schema_oid, "active_users", &vec![id]).unwrap();

    let class = rows_where(
        &catalog,
        CatalogTable::PgClass,
        &[
            ("relname", text("active_users")),
            ("relkind", text("v")),
            ("relnamespace", CellValue::Int(schema_oid as i64)),
        ],
    );
    assert_eq!(class.len(), 1, "view must be a relkind 'v' pg_class row");
    let kind = RelationKind::View;
    assert_eq!(class[0].get("relkind"), Some(&text(kind.relkind())));
    assert_eq!(kind.table_type(), "VIEW", "the view must be reported as a VIEW");
    let oid = oid_of_table(&catalog, "active_users");
    let attributes = rows_where(
        &catalog,
        CatalogTable::PgAttribute,
        &[("attrelid", CellValue::Int(oid)), ("attname", text("id"))],
    );
    assert_eq!(attributes.len(), 1, "view column must be in pg_attribute");
}

#[test]
fn test_register_user_tables_dynamic() {
    let (mut catalog, mut registry) = start();
    let (schema_oid, _) = register_schema(&mut catalog, &mut registry, "pgtry", "myschema").unwrap();
    let id = single_column_map("id", "int", true, false);
    let name = single_column_map("name", "text", true, false);
    register_user_tables(&mut catalog, schema_oid, "contacts", &vec![id, name]).unwrap();

    let class = rows_where(&catalog, CatalogTable::PgClass, &[("relname", text("contacts"))]);
    assert_eq!(class.len(), 1);
    let schema = rows_where(
        &catalog,
        CatalogTable::PgNamespace,
        &[("oid", class[0].get("relnamespace").unwrap().copy())],
    );
    assert_eq!(schema[0].get("nspname"), Some(&text("myschema")));
    let oid = oid_of_table(&catalog, "contacts");
    let attributes = rows_where(
        &catalog,
        CatalogTable::PgAttribute,
        &[("attrelid", CellValue::Int(oid))],
    );
    assert_eq!(attributes.len(), 2);
}

#[test]
fn test_register_user_tables_resolves_schema_by_oid_not_name() {
    let (mut catalog, _) = start();
    for oid in [71001, 71002] {
        let row = build_pg_namespace_row(&SchemaDef::new(oid, "dupschema"));
        catalog.apply(&Change::Insert(CatalogTable::PgNamespace, row));
    }
    let id = single_column_map("id", "int", false, false);
    register_user_tables(&mut catalog, 71002, "widget", &vec![id]).unwrap();
    let requested = rows_where(
        &catalog,
        CatalogTable::PgClass,
        &[("relname", text("widget")), ("relnamespace", CellValue::Int(71002))],
    );
    assert_eq!(requested.len(), 1, "table must be registered under the OID passed (71002)");
    let other = rows_where(
        &catalog,
        CatalogTable::PgClass,
        &[("relname", text("widget")), ("relnamespace", CellValue::Int(71001))],
    );
    assert_eq!(other.len(), 0);
}

#[test]
fn test_register_user_index_dynamic() {
    let (mut catalog, mut registry) = start();
    let (schema_oid, _) = register_schema(&mut catalog, &mut registry, "pgtry", "myschema").unwrap();
    let id = single_column_map("id", "int", false, false);
    register_user_tables(&mut catalog, schema_oid, "contacts", &vec![id]).unwrap();
    let index = NewIndex {
        name: "contacts_pkey".to_string(),
        table: "contacts".to_string(),
        key_attnums: vec![1],
        is_unique: true,
        is_primary: true,
    };
    register_user_index(&mut catalog, schema_oid, &index).unwrap();

    let class = rows_where(&catalog, CatalogTable::PgClass, &[("relname", text("contacts_pkey"))]);
    assert_eq!(class.len(), 1, "index needs a pg_class row");
    assert_eq!(class[0].get("relkind"), Some(&text("i")));
    assert_eq!(class[0].get("relnatts"), Some(&CellValue::Int(1)));
    assert_eq!(class[0].get("relfilenode"), class[0].get("oid"));
    assert_eq!(class[0].get("relpages"), Some(&CellValue::Int(0)));
    let table_oid = oid_of_table(&catalog, "contacts");
    let found = rows_where(
        &catalog,
        CatalogTable::PgIndex,
        &[
            ("indexrelid", class[0].get("oid").unwrap().copy()),
            ("indrelid", CellValue::Int(table_oid)),
            ("indisunique", CellValue::Bool(true)),
            ("indisprimary", CellValue::Bool(true)),
        ],
    );
    assert_eq!(found.len(), 1);
    assert_eq!(found[0].get("indkey"), Some(&CellValue::IntList(vec![1])));

    // A second index of that name is none.
    let changes = register_user_index(&mut catalog, schema_oid, &index).unwrap();
    assert_eq!(changes.len(), 0);
    // An index of a table that is not there is an error.
    let stray = NewIndex {
        name: "stray".to_string(),
        table: "nowhere".to_string(),
        key_attnums: vec![1],
        is_unique: false,
        is_primary: false,
    };
    let error = register_user_index(&mut catalog, schema_oid, &stray).unwrap_err();
    assert_eq!(
        error.message,
        format!("table 'nowhere' not found in schema oid {schema_oid} while registering index 'stray'")
    );
}

#[test]
fn test_foreign_key_rejects_mismatched_attnum_counts() {
    assert!(
        ConstraintDef::foreign_key(1, "fk", 10, 20, vec![1, 2], 30, vec![1], 0).is_err(),
        "2 key columns vs 1 referenced column must be rejected"
    );
    assert!(
        ConstraintDef::foreign_key(1, "fk", 10, 20, vec![1], 30, vec![1, 2], 0).is_err(),
        "1 key column vs 2 referenced columns must be rejected"
    );
    assert!(
        ConstraintDef::foreign_key(1, "fk", 10, 20, vec![1, 2], 30, vec![3, 4], 0).is_ok(),
        "equal-length pairings are accepted"
    );
}

#[test]
fn test_register_user_constraint_dynamic() {
    let (mut catalog, mut registry) = start();
    let (schema_oid, _) = register_schema(&mut catalog, &mut registry, "pgtry", "myschema").unwrap();
    let users = vec![
        single_column_map("id", "int", false, false),
        single_column_map("email", "text", false, false),
    ];
    register_user_tables(&mut catalog, schema_oid, "users", &users).unwrap();
    let orders = vec![
        single_column_map("id", "int", false, false),
        single_column_map("user_id", "int", false, false),
    ];
    register_user_tables(&mut catalog, schema_oid, "orders", &orders).unwrap();
    let primary = constraint("users_pkey", "users", ConstraintKind::PrimaryKey, vec![1], None, vec![]);
    register_user_constraint(&mut catalog, schema_oid, &primary).unwrap();
    let unique = constraint("users_email_key", "users", ConstraintKind::Unique, vec![2], None, vec![]);
    register_user_constraint(&mut catalog, schema_oid, &unique).unwrap();
    let foreign = constraint(
        "orders_user_id_fkey",
        "orders",
        ConstraintKind::ForeignKey,
        vec![2],
        Some("users"),
        vec![1],
    );
    register_user_constraint(&mut catalog, schema_oid, &foreign).unwrap();

    let users_oid = oid_of_table(&catalog, "users");
    let p = rows_where(
        &catalog,
        CatalogTable::PgConstraint,
        &[
            ("conname", text("users_pkey")),
            ("conrelid", CellValue::Int(users_oid)),
            ("contype", text("p")),
            ("conkey", CellValue::IntList(vec![1])),
        ],
    );
    assert_eq!(p.len(), 1, "primary key row must be present");
    let u = rows_where(
        &catalog,
        CatalogTable::PgConstraint,
        &[
            ("conname", text("users_email_key")),
            ("contype", text("u")),
            ("conkey", CellValue::IntList(vec![2])),
        ],
    );
    assert_eq!(u.len(), 1, "unique constraint row must be present");
    let f = rows_where(
        &catalog,
        CatalogTable::PgConstraint,
        &[
            ("conname", text("orders_user_id_fkey")),
            ("contype", text("f")),
            ("confrelid", CellValue::Int(users_oid)),
            ("confkey", CellValue::IntList(vec![1])),
            ("confupdtype", text("a")),
            ("confdeltype", text("a")),
        ],
    );
    assert_eq!(f.len(), 1, "foreign key row must reference users");

    register_user_constraint(&mut catalog, schema_oid, &primary).unwrap();
    let again = rows_where(&catalog, CatalogTable::PgConstraint, &[("conname", text("users_pkey"))]);
    assert_eq!(again.len(), 1, "constraint registration is idempotent");
}

#[test]
fn mismatched_foreign_key_is_refused() {
    let (mut catalog, mut registry) = start();
    let (schema_oid, _) = register_schema(&mut catalog, &mut registry, "pgtry", "s").unwrap();
    let columns = vec![single_column_map("id", "int", false, false)];
    register_user_tables(&mut catalog, schema_oid, "a", &columns).unwrap();
    register_user_tables(&mut catalog, schema_oid, "b", &columns).unwrap();
    let before = catalog.entries.len();
    let bad = constraint("fk", "a", ConstraintKind::ForeignKey, vec![1], Some("b"), vec![1, 2]);
    let error = register_user_constraint(&mut catalog, schema_oid, &bad).unwrap_err();
    assert_eq!(
        error.message,
        "foreign key 'fk' has 1 key column(s) but 2 referenced column(s); they are positionally matched and must be equal in number"
    );
    assert_eq!(catalog.entries.len(), before);
}

#[test]
fn test_register_user_columns_fidelity_and_attrdef() {
    let (mut catalog, mut registry) = start();
    let (schema_oid, _) = register_schema(&mut catalog, &mut registry, "pgtry", "myschema").unwrap();
    let columns = vec![
        single_column_map("id", "int", false, false),
        single_column_map("label", "text", true, false),
        single_column_map("created", "bigint", false, true),
    ];
    register_user_tables(&mut catalog, schema_oid, "widgets", &columns).unwrap();
    let oid = CellValue::Int(oid_of_table(&catalog, "widgets"));

    let class = rows_where(
        &catalog,
        CatalogTable::PgClass,
        &[
            ("relname", text("widgets")),
            ("relnatts", CellValue::Int(3)),
            ("relam", CellValue::Int(2)),
        ],
    );
    assert_eq!(class.len(), 1, "pg_class relnatts/relam must be filled");
    let int = rows_where(
        &catalog,
        CatalogTable::PgAttribute,
        &[
            ("attrelid", oid.copy()),
            ("attname", text("id")),
            ("attlen", CellValue::Int(4)),
            ("attbyval", CellValue::Bool(true)),
            ("attalign", text("i")),
        ],
    );
    assert_eq!(int.len(), 1, "int4 storage attributes must be derived");
    let label = rows_where(
        &catalog,
        CatalogTable::PgAttribute,
        &[
            ("attrelid", oid.copy()),
            ("attname", text("label")),
            ("attlen", CellValue::Int(-1)),
            ("attbyval", CellValue::Bool(false)),
            ("attstorage", text("x")),
            ("attcollation", CellValue::Int(100)),
        ],
    );
    assert_eq!(label.len(), 1, "text storage attributes must be derived");
    let created = rows_where(
        &catalog,
        CatalogTable::PgAttribute,
        &[
            ("attrelid", oid.copy()),
            ("attname", text("created")),
            ("atthasdef", CellValue::Bool(true)),
        ],
    );
    assert_eq!(created.len(), 1, "defaulted column must set atthasdef");
    let default = rows_where(
        &catalog,
        CatalogTable::PgAttrdef,
        &[("adrelid", oid.copy()), ("adnum", CellValue::Int(3))],
    );
    assert_eq!(default.len(), 1, "defaulted column must get a pg_attrdef row");
    let none = rows_where(
        &catalog,
        CatalogTable::PgAttrdef,
        &[("adrelid", oid.copy()), ("adnum", CellValue::Int(1))],
    );
    assert_eq!(none.len(), 0, "a column with no default has no pg_attrdef row");
}

#[test]
fn test_register_user_tables_idempotent() {
    let (mut catalog, mut registry) = start();
    let (schema_oid, _) = register_schema(&mut catalog, &mut registry, "pgtry", "myschema").unwrap();
    let columns = vec![
        single_column_map("id", "int", true, false),
        single_column_map("name", "text", true, false),
    ];
    register_user_tables(&mut catalog, schema_oid, "contacts", &columns).unwrap();
    let again = register_user_tables(&mut catalog, schema_oid, "contacts", &columns).unwrap();
    assert_eq!(again.len(), 0);
    assert_eq!(
        rows_where(&catalog, CatalogTable::PgClass, &[("relname", text("contacts"))]).len(),
        1
    );
    let oid = oid_of_table(&catalog, "contacts");
    assert_eq!(
        rows_where(&catalog, CatalogTable::PgAttribute, &[("attrelid", CellValue::Int(oid))]).len(),
        2
    );
}

#[test]
fn test_register_schema() {
    let (mut catalog, mut registry) = start();
    let (oid, _) = register_schema(&mut catalog, &mut registry, "pgtry", "custom").unwrap();
    assert_eq!(
        rows_where(&catalog, CatalogTable::PgNamespace, &[("nspname", text("custom"))]).len(),
        1
    );
    assert_eq!(oid, FIRST_USER_OID);
    let (same, changes) = register_schema(&mut catalog, &mut registry, "pgtry", "custom").unwrap();
    assert_eq!(same, oid);
    assert_eq!(changes.len(), 0);
    assert_eq!(registry.schemas("pgtry"), Some(vec!["custom".to_string()]));
}

#[test]
fn test_register_user_database() {
    let (mut catalog, mut registry) = start();
    register_user_database(&mut catalog, &mut registry, "crm").unwrap();
    assert_eq!(
        rows_where(&catalog, CatalogTable::PgDatabase, &[("datname", text("crm"))]).len(),
        1
    );
    let changes = register_user_database(&mut catalog, &mut registry, "crm").unwrap();
    assert_eq!(changes.len(), 0);
}

#[test]
fn test_unregister_tables_removes_metadata() {
    let (mut catalog, mut registry) = start();
    let (schema_oid, _) = register_schema(&mut catalog, &mut registry, "pgtry", "myschema").unwrap();
    let before = catalog.entries.len();
    let id = single_column_map("id", "int", false, false);
    register_user_tables(&mut catalog, schema_oid, "contacts", &vec![id]).unwrap();
    let done = unregister_tables(&mut catalog, &mut registry, "pgtry", "myschema", "contacts");
    assert!(done.error.is_none());
    assert_eq!(rows(&catalog, CatalogTable::PgClass).len(), 0);
    assert_eq!(rows(&catalog, CatalogTable::PgAttribute).len(), 0);
    assert_eq!(rows(&catalog, CatalogTable::PgType).len(), 0);
    assert_eq!(catalog.entries.len(), before);
}

#[test]
fn test_unregister_tables_removes_attrdef_and_constraint_rows() {
    let (mut catalog, mut registry) = start();
    let (schema_oid, _) = register_schema(&mut catalog, &mut registry, "pgtry", "myschema").unwrap();
    let id = single_column_map("id", "int", false, false);
    let note = single_column_map("note", "text", true, true);
    register_user_tables(&mut catalog, schema_oid, "contacts", &vec![id, note]).unwrap();
    let primary =
        constraint("contacts_pkey", "contacts", ConstraintKind::PrimaryKey, vec![1], None, vec![]);
    register_user_constraint(&mut catalog, schema_oid, &primary).unwrap();
    assert_eq!(rows(&catalog, CatalogTable::PgAttrdef).len(), 1);
    assert_eq!(rows(&catalog, CatalogTable::PgConstraint).len(), 1);

    unregister_tables(&mut catalog, &mut registry, "pgtry", "myschema", "contacts");
    assert_eq!(rows(&catalog, CatalogTable::PgAttrdef).len(), 0);
    assert_eq!(rows(&catalog, CatalogTable::PgConstraint).len(), 0);
}

#[test]
fn test_unregister_schema_removes_tables() {
    let (mut catalog, mut registry) = start();
    let (schema_oid, _) = register_schema(&mut catalog, &mut registry, "pgtry", "myschema").unwrap();
    let id = single_column_map("id", "int", false, false);
    register_user_tables(&mut catalog, schema_oid, "contacts", &vec![id]).unwrap();
    let done = unregister_schema(&mut catalog, &mut registry, "pgtry", "myschema");
    assert!(done.error.is_none());
    assert_eq!(rows(&catalog, CatalogTable::PgNamespace).len(), 0);
    assert_eq!(rows(&catalog, CatalogTable::PgClass).len(), 0);
    assert_eq!(registry.schemas("pgtry"), None);
}

#[test]
fn test_unregister_database_removes_children() {
    let (mut catalog, mut registry) = start();
    register_user_database(&mut catalog, &mut registry, "crm").unwrap();
    let (schema_oid, _) = register_schema(&mut catalog, &mut registry, "crm", "crm_schema").unwrap();
    let id = single_column_map("id", "int", false, false);
    register_user_tables(&mut catalog, schema_oid, "contacts", &vec![id]).unwrap();
    register_user_database(&mut catalog, &mut registry, "other").unwrap();
    register_schema(&mut catalog, &mut registry, "other", "kept").unwrap();

    let done = unregister_database(&mut catalog, &mut registry, "crm");
    assert!(done.error.is_none());
    assert_eq!(
        rows_where(&catalog, CatalogTable::PgDatabase, &[("datname", text("crm"))]).len(),
        0
    );
    assert_eq!(
        rows_where(&catalog, CatalogTable::PgNamespace, &[("nspname", text("crm_schema"))]).len(),
        0
    );
    assert_eq!(rows(&catalog, CatalogTable::PgClass).len(), 0);
    assert_eq!(rows(&catalog, CatalogTable::PgNamespace).len(), 1);
    assert_eq!(registry.schemas("crm"), None);
    assert_eq!(registry.schemas("other"), Some(vec!["kept".to_string()]));
}

#[test]
fn unknown_schema_is_refused() {
    let (mut catalog, _) = start();
    let id = single_column_map("id", "int", false, false);
    let error = register_user_tables(&mut catalog, 7, "t", &vec![id]).unwrap_err();
    assert_eq!(error.message, "schema oid 7 not found while registering relation 't'");
    assert_eq!(catalog.entries.len(), 0);
}

#[test]
fn oids_go_on_behind_the_highest() {
    let (mut catalog, mut registry) = start();
    assert_eq!(catalog.next_catalog_oid().unwrap(), 16384);
    let (schema_oid, _) = register_schema(&mut catalog, &mut registry, "d", "s").unwrap();
    let columns = vec![single_column_map("n", "int", true, true)];
    register_user_tables(&mut catalog, schema_oid, "t", &columns).unwrap();
    // The table, its row type and its default took the three OIDs behind the schema.
    assert_eq!(oid_of_table(&catalog, "t"), 16385);
    assert_eq!(
        rows(&catalog, CatalogTable::PgAttrdef)[0].get("oid"),
        Some(&CellValue::Int(16387))
    );
    assert_eq!(catalog.next_catalog_oid().unwrap(), 16388);
    assert_eq!(catalog.get_table_oid(schema_oid, "t").unwrap(), Some(16385));
    assert!(catalog.find(&Lookup::Relation(schema_oid, "u")).is_none());
}

#[test]
fn oid_out_of_range_is_an_error() {
    assert_eq!(oid_after_highest(None).unwrap(), 16384);
    assert_eq!(oid_after_highest(Some(20000)).unwrap(), 20001);
    let error = oid_after_highest(Some(3_000_000_000)).unwrap_err();
    assert_eq!(
        error.message,
        "highest catalog oid 3000000000 does not fit the int4 oid columns this catalog uses"
    );
}

#[test]
fn oids_run_out() {
    assert_eq!(oid_after_highest(Some(2147483646)).unwrap(), i32::MAX);
    assert_eq!(
        oid_after_highest(Some(2147483647)).unwrap_err().message,
        "highest catalog oid 2147483647 leaves no int4 oid for another object"
    );
    assert_eq!(
        oid_after_highest(Some(2147483648)).unwrap_err().message,
        "highest catalog oid 2147483648 does not fit the int4 oid columns this catalog uses"
    );
    assert_eq!(oid_after_highest(None).unwrap(), 16384);

    // The relation and its row type take the last two, and nothing is left for a default.
    let (mut catalog, _) = start();
    let row = build_pg_namespace_row(&SchemaDef::new(2147483645, "s"));
    catalog.apply(&Change::Insert(CatalogTable::PgNamespace, row));
    let id = single_column_map("id", "int", false, true);
    let before = catalog.entries.len();
    let error = register_user_tables(&mut catalog, 2147483645, "t", &vec![id]).unwrap_err();
    assert_eq!(
        error.message,
        "highest catalog oid 2147483647 leaves no int4 oid for another object"
    );
    assert_eq!(catalog.entries.len(), before);
    let id = single_column_map("id", "int", false, false);
    register_user_tables(&mut catalog, 2147483645, "t", &vec![id]).unwrap();
    // The relation is there now, so it needs no room; for another one there is none.
    let again = single_column_map("id", "int", false, false);
    assert_eq!(register_user_view(&mut catalog, 2147483645, "t", &vec![again]).unwrap().len(), 0);
    let other = single_column_map("id", "int", false, false);
    assert_eq!(
        register_user_tables(&mut catalog, 2147483645, "u", &vec![other]).unwrap_err().message,
        "highest catalog oid 2147483647 leaves no int4 oid for another object"
    );
    assert!(catalog.next_catalog_oid().is_err());
}

#[test]
fn rows_without_an_oid_stay() {
    let (mut catalog, mut registry) = start();
    let (schema_oid, _) = register_schema(&mut catalog, &mut registry, "d", "s").unwrap();
    let mut stray = Row::new();
    stray.insert("typname", text("stray"));
    catalog.apply(&Change::Insert(CatalogTable::PgType, stray));
    let id = single_column_map("id", "int", false, false);
    register_user_tables(&mut catalog, schema_oid, "t", &vec![id]).unwrap();
    assert_eq!(rows(&catalog, CatalogTable::PgType).len(), 2);
    unregister_tables(&mut catalog, &mut registry, "d", "s", "t");
    assert_eq!(rows(&catalog, CatalogTable::PgType).len(), 1);
}

#[test]
fn the_first_name_of_a_description_counts() {
    let mut both = single_column_map("b", "int", false, false);
    both.extend(single_column_map("a", "text", true, false));
    let specs = column_specs_from_defs(&vec![both, vec![]]);
    assert_eq!(specs.len(), 1);
    assert_eq!(specs[0].name, "a");
    assert!(specs[0].nullable);
}

#[test]
fn a_shared_schema_stays() {
    let (mut catalog, mut registry) = start();
    register_user_database(&mut catalog, &mut registry, "a").unwrap();
    register_user_database(&mut catalog, &mut registry, "b").unwrap();
    let (first, _) = register_schema(&mut catalog, &mut registry, "a", "s").unwrap();
    let (second, _) = register_schema(&mut catalog, &mut registry, "b", "s").unwrap();
    assert_eq!(first, second);
    register_schema(&mut catalog, &mut registry, "a", "own").unwrap();
    let id = single_column_map("id", "int", false, true);
    register_user_tables(&mut catalog, second, "t", &vec![id]).unwrap();

    let done = unregister_database(&mut catalog, &mut registry, "a");
    assert!(done.error.is_none());
    let named = |column: &'static str, name: &str, table| {
        rows_where(&catalog, table, &[(column, text(name))]).len()
    };
    assert_eq!(named("datname", "a", CatalogTable::PgDatabase), 0);
    assert_eq!(named("datname", "b", CatalogTable::PgDatabase), 1);
    assert_eq!(named("nspname", "own", CatalogTable::PgNamespace), 0);
    assert_eq!(named("nspname", "s", CatalogTable::PgNamespace), 1);
    assert_eq!(named("relname", "t", CatalogTable::PgClass), 1);
    assert_eq!(rows(&catalog, CatalogTable::PgAttribute).len(), 1);
    assert_eq!(rows(&catalog, CatalogTable::PgAttrdef).len(), 1);
    assert_eq!(registry.schemas("a"), None);
    assert_eq!(registry.schemas("b"), Some(vec!["s".to_string()]));

    // Nobody else has it now.
    unregister_database(&mut catalog, &mut registry, "b");
    assert_eq!(rows(&catalog, CatalogTable::PgNamespace).len(), 0);
    assert_eq!(rows(&catalog, CatalogTable::PgClass).len(), 0);
}

#[test]
fn unknown_schemas_change_no_registry() {
    let (_, mut registry) = start();
    ensure_database_registry(&mut registry, "d");
    remove_schema_from_registry(&mut registry, "d", "s");
    assert_eq!(registry.schemas("d"), Some(vec![]));
    add_schema_to_registry(&mut registry, "d", "s");
    remove_schema_from_registry(&mut registry, "other", "s");
    remove_schema_from_registry(&mut registry, "d", "t");
    assert_eq!(registry.schemas("d"), Some(vec!["s".to_string()]));
    assert!(registry.has_schema("s"));
    remove_schema_from_registry(&mut registry, "d", "s");
    assert_eq!(registry.schemas("d"), None);
    assert!(!registry.has_schema("s"));
}
