//! What holds of the tables of the catalog: how their rows are told apart, found, put in, taken
//! out and served.
use super::cells::{
    attrdef_row_describes_default, attribute_describes_column, class_row_describes_index,
    class_row_describes_relation, config_row_describes_setting, constraint_row_describes_constraint,
    database_row_describes_database, index_row_describes_index, namespace_row_describes_schema,
    schemata_row_describes_schema, settings_row_describes_parameter, tables_row_describes_relation,
    type_row_describes_relation,
};
use super::defs::{
    key_columns_of, location_of, CatalogTable, ColumnView, ConfigSettingDef, ConstraintView,
    DatabaseDef, IndexView, RelationKind, RelationView, SchemaView, SettingDef,
};
use super::laws::{filter_is_contained, rows_put};
use super::merge::{
    builtin_key, builtin_text, kept, kept_rows, key_text, row_key, served, KeyCell, ServedRow,
};
use super::operations::{
    constraint_plan, database_plan, default_numbers, first_by_name, index_plan, referenced_oid,
    relation_plan, schema_plan, user_constraint, user_index, NamedColumn, NewConstraint, NewIndex,
};
use super::registration::{
    changed, found, found_from, highest_oid, next_oid, oid_of, other_name, other_oid, table_oid_of,
    taken_oid, CatalogView, ChangeView, LookupView,
};
use super::registry::{schemas_of, texts_other_than, with_schema, without_schema, RegistryView};
use super::row::{cell_at, CellView, RowView};
use super::rows::{
    info_schemata_row, info_tables_row, pg_attrdef_row, pg_attribute_row, pg_class_row,
    pg_config_row, pg_constraint_row, pg_database_row, pg_index_row, pg_namespace_row,
    pg_settings_row, pg_type_row,
};
use crate::sorted::{before, before_is_strict, before_is_transitive};
use crate::text::signed_is_read_back;
use vstd::prelude::*;

verus! {

// --- where the tables stand -------------------------------------------------------------------

/// Every catalog table stands in its schema, under its name.
pub proof fn tables_have_their_places()
    ensures
        location_of(CatalogTable::PgDatabase) == ("pg_catalog"@, "pg_database"@),
        location_of(CatalogTable::PgNamespace) == ("pg_catalog"@, "pg_namespace"@),
        location_of(CatalogTable::PgClass) == ("pg_catalog"@, "pg_class"@),
        location_of(CatalogTable::PgType) == ("pg_catalog"@, "pg_type"@),
        location_of(CatalogTable::PgAttribute) == ("pg_catalog"@, "pg_attribute"@),
        location_of(CatalogTable::PgIndex) == ("pg_catalog"@, "pg_index"@),
        location_of(CatalogTable::PgConstraint) == ("pg_catalog"@, "pg_constraint"@),
        location_of(CatalogTable::PgAttrdef) == ("pg_catalog"@, "pg_attrdef"@),
        location_of(CatalogTable::PgConfig) == ("pg_catalog"@, "pg_config"@),
        location_of(CatalogTable::PgSettings) == ("pg_catalog"@, "pg_settings"@),
        location_of(CatalogTable::InformationSchemaTables) == ("information_schema"@, "tables"@),
        location_of(CatalogTable::InformationSchemaColumns) == ("information_schema"@, "columns"@),
        location_of(CatalogTable::InformationSchemaSchemata) == (
            "information_schema"@,
            "schemata"@,
        ),
{
}

// --- keys -------------------------------------------------------------------------------------

/// What tells a row of a table apart.
pub open spec fn key_of(table: CatalogTable, row: RowView) -> Seq<Seq<char>> {
    row_key(row, key_columns_of(table))
}

proof fn numbers_differ_in_keys(a: i64, b: i64)
    ensures
        key_text(CellView::Int(a)) == key_text(CellView::Int(b)) <==> a == b,
{
    signed_is_read_back(a as int);
    signed_is_read_back(b as int);
}

/// Two rows of `pg_class` are of one relation exactly if they have one schema and one name.
pub proof fn relations_are_known_by_schema_and_name(
    a: RelationView,
    b: RelationView,
    s: i32,
    t: i32,
    m: i32,
    n: i32,
)
    ensures
        key_of(CatalogTable::PgClass, pg_class_row(a, s, m)) == key_of(
            CatalogTable::PgClass,
            pg_class_row(b, t, n),
        ) <==> s == t && a.name == b.name,
{
    class_row_describes_relation(a, s, m);
    class_row_describes_relation(b, t, n);
    let k = key_of(CatalogTable::PgClass, pg_class_row(a, s, m));
    let l = key_of(CatalogTable::PgClass, pg_class_row(b, t, n));
    numbers_differ_in_keys(s as i64, t as i64);
    assert(k[0] == l[0] || k != l);
    assert(k[1] == l[1] || k != l);
    if s == t && a.name == b.name {
        assert(k =~= l);
    }
}

/// Two rows of `pg_type` are of one type exactly if they have one schema and one name.
pub proof fn types_are_known_by_schema_and_name(
    a: RelationView,
    b: RelationView,
    s: i32,
    t: i32,
)
    ensures
        key_of(CatalogTable::PgType, pg_type_row(a, s)) == key_of(
            CatalogTable::PgType,
            pg_type_row(b, t),
        ) <==> s == t && a.name == b.name,
{
    type_row_describes_relation(a, s);
    type_row_describes_relation(b, t);
    let k = key_of(CatalogTable::PgType, pg_type_row(a, s));
    let l = key_of(CatalogTable::PgType, pg_type_row(b, t));
    numbers_differ_in_keys(s as i64, t as i64);
    assert(k[0] == l[0] || k != l);
    assert(k[1] == l[1] || k != l);
    if s == t && a.name == b.name {
        assert(k =~= l);
    }
}

/// Two rows of `pg_attribute` are of one column exactly if they have one relation and one name.
pub proof fn columns_are_known_by_relation_and_name(
    r: i32,
    q: i32,
    a: ColumnView,
    b: ColumnView,
    m: i32,
    n: i32,
)
    ensures
        key_of(CatalogTable::PgAttribute, pg_attribute_row(r, a, m)) == key_of(
            CatalogTable::PgAttribute,
            pg_attribute_row(q, b, n),
        ) <==> r == q && a.name == b.name,
{
    attribute_describes_column(r, a, m);
    attribute_describes_column(q, b, n);
    let k = key_of(CatalogTable::PgAttribute, pg_attribute_row(r, a, m));
    let l = key_of(CatalogTable::PgAttribute, pg_attribute_row(q, b, n));
    numbers_differ_in_keys(r as i64, q as i64);
    assert(k[0] == l[0] || k != l);
    assert(k[1] == l[1] || k != l);
    if r == q && a.name == b.name {
        assert(k =~= l);
    }
}

/// Two rows of `pg_attrdef` are of one default exactly if they have one relation and one number.
pub proof fn defaults_are_known_by_relation_and_number(
    o: i32,
    p: i32,
    r: i32,
    q: i32,
    m: i32,
    n: i32,
)
    ensures
        key_of(CatalogTable::PgAttrdef, pg_attrdef_row(o, r, m)) == key_of(
            CatalogTable::PgAttrdef,
            pg_attrdef_row(p, q, n),
        ) <==> r == q && m == n,
{
    attrdef_row_describes_default(o, r, m);
    attrdef_row_describes_default(p, q, n);
    let k = key_of(CatalogTable::PgAttrdef, pg_attrdef_row(o, r, m));
    let l = key_of(CatalogTable::PgAttrdef, pg_attrdef_row(p, q, n));
    numbers_differ_in_keys(r as i64, q as i64);
    numbers_differ_in_keys(m as i64, n as i64);
    assert(k[0] == l[0] || k != l);
    assert(k[1] == l[1] || k != l);
    if r == q && m == n {
        assert(k =~= l);
    }
}

/// Two rows of `pg_namespace` are of one schema exactly if they have one OID, whatever the names.
pub proof fn schemas_are_known_by_oid(
    a: SchemaView,
    b: SchemaView,
)
    ensures
        key_of(CatalogTable::PgNamespace, pg_namespace_row(a)) == key_of(
            CatalogTable::PgNamespace,
            pg_namespace_row(b),
        ) <==> a.oid == b.oid,
{
    namespace_row_describes_schema(a);
    namespace_row_describes_schema(b);
    let k = key_of(CatalogTable::PgNamespace, pg_namespace_row(a));
    let l = key_of(CatalogTable::PgNamespace, pg_namespace_row(b));
    numbers_differ_in_keys(a.oid as i64, b.oid as i64);
    assert(k[0] == l[0] || k != l);
    if a.oid == b.oid {
        assert(k =~= l);
    }
}

/// Two rows of `pg_database` are of one database exactly if they have one name.
pub proof fn databases_are_known_by_name(
    a: DatabaseDef,
    b: DatabaseDef,
)
    ensures
        key_of(CatalogTable::PgDatabase, pg_database_row(a)) == key_of(
            CatalogTable::PgDatabase,
            pg_database_row(b),
        ) <==> a.datname@ == b.datname@,
{
    database_row_describes_database(a);
    database_row_describes_database(b);
    let k = key_of(CatalogTable::PgDatabase, pg_database_row(a));
    let l = key_of(CatalogTable::PgDatabase, pg_database_row(b));
    assert(k[0] == l[0] || k != l);
    if a.datname@ == b.datname@ {
        assert(k =~= l);
    }
}

/// Two rows of `pg_index` are of one index exactly if they have one OID.
pub proof fn indexes_are_known_by_oid(
    a: IndexView,
    b: IndexView,
)
    ensures
        key_of(CatalogTable::PgIndex, pg_index_row(a)) == key_of(
            CatalogTable::PgIndex,
            pg_index_row(b),
        ) <==> a.index_oid == b.index_oid,
{
    index_row_describes_index(a);
    index_row_describes_index(b);
    let k = key_of(CatalogTable::PgIndex, pg_index_row(a));
    let l = key_of(CatalogTable::PgIndex, pg_index_row(b));
    numbers_differ_in_keys(a.index_oid as i64, b.index_oid as i64);
    assert(k[0] == l[0] || k != l);
    if a.index_oid == b.index_oid {
        assert(k =~= l);
    }
}

/// Two rows of `pg_constraint` are of one constraint exactly if they have one OID.
pub proof fn constraints_are_known_by_oid(
    a: ConstraintView,
    b: ConstraintView,
)
    ensures
        key_of(CatalogTable::PgConstraint, pg_constraint_row(a)) == key_of(
            CatalogTable::PgConstraint,
            pg_constraint_row(b),
        ) <==> a.oid == b.oid,
{
    constraint_row_describes_constraint(a);
    constraint_row_describes_constraint(b);
    let k = key_of(CatalogTable::PgConstraint, pg_constraint_row(a));
    let l = key_of(CatalogTable::PgConstraint, pg_constraint_row(b));
    numbers_differ_in_keys(a.oid as i64, b.oid as i64);
    assert(k[0] == l[0] || k != l);
    if a.oid == b.oid {
        assert(k =~= l);
    }
}

/// Two rows of `pg_settings` are of one parameter exactly if they have one name.
pub proof fn settings_are_known_by_name(
    a: SettingDef,
    b: SettingDef,
)
    ensures
        key_of(CatalogTable::PgSettings, pg_settings_row(a)) == key_of(
            CatalogTable::PgSettings,
            pg_settings_row(b),
        ) <==> a.name@ == b.name@,
{
    settings_row_describes_parameter(a);
    settings_row_describes_parameter(b);
    let k = key_of(CatalogTable::PgSettings, pg_settings_row(a));
    let l = key_of(CatalogTable::PgSettings, pg_settings_row(b));
    assert(k[0] == l[0] || k != l);
    if a.name@ == b.name@ {
        assert(k =~= l);
    }
}

/// Two rows of `pg_config` are of one setting exactly if they have one name.
pub proof fn build_settings_are_known_by_name(
    a: ConfigSettingDef,
    b: ConfigSettingDef,
)
    ensures
        key_of(CatalogTable::PgConfig, pg_config_row(a)) == key_of(
            CatalogTable::PgConfig,
            pg_config_row(b),
        ) <==> a.name@ == b.name@,
{
    config_row_describes_setting(a);
    config_row_describes_setting(b);
    let k = key_of(CatalogTable::PgConfig, pg_config_row(a));
    let l = key_of(CatalogTable::PgConfig, pg_config_row(b));
    assert(k[0] == l[0] || k != l);
    if a.name@ == b.name@ {
        assert(k =~= l);
    }
}

/// Two rows of `information_schema.tables` are of one table exactly if they have one catalog, one
/// schema and one name.
pub proof fn listed_tables_are_known_by_their_full_names(
    c: Seq<char>,
    d: Seq<char>,
    s: Seq<char>,
    t: Seq<char>,
    a: RelationView,
    b: RelationView,
)
    ensures
        key_of(CatalogTable::InformationSchemaTables, info_tables_row(c, s, a)) == key_of(
            CatalogTable::InformationSchemaTables,
            info_tables_row(d, t, b),
        ) <==> c == d && s == t && a.name == b.name,
{
    tables_row_describes_relation(c, s, a);
    tables_row_describes_relation(d, t, b);
    let k = key_of(CatalogTable::InformationSchemaTables, info_tables_row(c, s, a));
    let l = key_of(CatalogTable::InformationSchemaTables, info_tables_row(d, t, b));
    assert(k[0] == l[0] || k != l);
    assert(k[1] == l[1] || k != l);
    assert(k[2] == l[2] || k != l);
    if c == d && s == t && a.name == b.name {
        assert(k =~= l);
    }
}

/// Two rows of `information_schema.schemata` are of one schema exactly if they have one catalog and
/// one name.
pub proof fn listed_schemas_are_known_by_their_full_names(
    c: Seq<char>,
    d: Seq<char>,
    a: SchemaView,
    b: SchemaView,
)
    ensures
        key_of(CatalogTable::InformationSchemaSchemata, info_schemata_row(c, a)) == key_of(
            CatalogTable::InformationSchemaSchemata,
            info_schemata_row(d, b),
        ) <==> c == d && a.name == b.name,
{
    schemata_row_describes_schema(c, a);
    schemata_row_describes_schema(d, b);
    let k = key_of(CatalogTable::InformationSchemaSchemata, info_schemata_row(c, a));
    let l = key_of(CatalogTable::InformationSchemaSchemata, info_schemata_row(d, b));
    assert(k[0] == l[0] || k != l);
    assert(k[1] == l[1] || k != l);
    if c == d && a.name == b.name {
        assert(k =~= l);
    }
}

// --- finding rows -------------------------------------------------------------------------------

/// Whether a row is that of a database, a schema, a relation or a constraint that is looked up: by
/// its name, and by the OID of the schema or of the relation that it belongs to.
pub open spec fn answers(l: LookupView, e: (CatalogTable, RowView)) -> bool {
    match l {
        LookupView::Database(name) => e.0 is PgDatabase && cell_at(e.1, "datname"@)
            == CellView::Text(name),
        LookupView::Schema(name) => e.0 is PgNamespace && cell_at(e.1, "nspname"@)
            == CellView::Text(name),
        LookupView::SchemaOid(oid) => e.0 is PgNamespace && cell_at(e.1, "oid"@) == CellView::Int(
            oid as i64,
        ) && cell_at(e.1, "nspname"@) is Text,
        LookupView::Relation(schema, name) => e.0 is PgClass && cell_at(e.1, "relname"@)
            == CellView::Text(name) && cell_at(e.1, "relnamespace"@)
                == CellView::Int(schema as i64),
        LookupView::Constraint(relation, name) => e.0 is PgConstraint && cell_at(e.1, "conname"@)
            == CellView::Text(name) && cell_at(e.1, "conrelid"@) == CellView::Int(relation as i64),
    }
}

proof fn found_from_answers(cat: CatalogView, l: LookupView, i: nat) -> (j: int)
    ensures
        found_from(cat, l, i) is Some ==> i <= j < cat.len() && answers(l, cat[j]) && found_from(
            cat,
            l,
            i,
        ) == Some(cat[j].1) && forall|k: int| i <= k < j ==> !answers(l, #[trigger] cat[k]),
        found_from(cat, l, i) is None ==> forall|k: int|
            i <= k < cat.len() ==> !answers(l, #[trigger] cat[k]),
    decreases cat.len() - i,
{
    if i >= cat.len() || answers(l, cat[i as int]) {
        i as int
    } else {
        found_from_answers(cat, l, i + 1)
    }
}

/// What is found is the first row that answers; nothing is found exactly if no row does.
pub proof fn first_answer_is_found(cat: CatalogView, l: LookupView) -> (j: int)
    ensures
        found(cat, l) is Some ==> 0 <= j < cat.len() && answers(l, cat[j]) && found(cat, l) == Some(
            cat[j].1,
        ) && forall|k: int| 0 <= k < j ==> !answers(l, #[trigger] cat[k]),
        found(cat, l) is None ==> forall|k: int|
            0 <= k < cat.len() ==> !answers(l, #[trigger] cat[k]),
{
    found_from_answers(cat, l, 0)
}

// --- numbers -------------------------------------------------------------------------------------

/// Whether a row has a number of its own: the rows of relations, types, schemas, databases,
/// defaults and constraints have one.
pub open spec fn has_number(e: (CatalogTable, RowView), n: i64) -> bool {
    (e.0 is PgClass || e.0 is PgType || e.0 is PgNamespace || e.0 is PgDatabase || e.0 is PgAttrdef
        || e.0 is PgConstraint) && cell_at(e.1, "oid"@) == CellView::Int(n)
}

proof fn highest_is_had(cat: CatalogView)
    ensures
        highest_oid(cat) matches Some(h) ==> exists|i: int|
            0 <= i < cat.len() && has_number(#[trigger] cat[i], h),
        forall|i: int, n: i64|
            0 <= i < cat.len() && #[trigger] has_number(cat[i], n) ==> highest_oid(cat) is Some && n
                <= highest_oid(cat)->0,
    decreases cat.len(),
{
    if cat.len() > 0 {
        let rest = cat.drop_last();
        highest_is_had(rest);
        let last = cat[cat.len() - 1];
        assert(cat.last() == last);
        if highest_oid(cat) is Some {
            let h = highest_oid(cat)->0;
            if taken_oid(last) == Some(h) {
                assert(has_number(last, h));
            } else {
                let i = choose|i: int| 0 <= i < rest.len() && has_number(#[trigger] rest[i], h);
                assert(rest[i] == cat[i]);
            }
        }
        assert forall|i: int, n: i64|
            0 <= i < cat.len() && #[trigger] has_number(cat[i], n) implies highest_oid(cat) is Some
            && n <= highest_oid(cat)->0 by {
            if i < rest.len() {
                assert(rest[i] == cat[i]);
                assert(has_number(rest[i], n));
            } else {
                assert(taken_oid(last) == Some(n));
            }
        }
    }
}

/// The next OID is the least number from 16384 on that is higher than every number in the catalog;
/// there is none exactly if a number has no four bytes or is the last one.
pub proof fn next_number_is_the_least_free_one(cat: CatalogView)
    ensures
        next_oid(cat) matches Ok(n) ==> n >= 16384 && (forall|i: int, m: i64|
            0 <= i < cat.len() && #[trigger] has_number(cat[i], m) ==> m < n) && (n > 16384
            ==> exists|i: int| 0 <= i < cat.len() && has_number(#[trigger] cat[i], (n - 1) as i64)),
        (forall|i: int, m: i64|
            0 <= i < cat.len() && #[trigger] has_number(cat[i], m) ==> 0 <= m < 2147483647)
            ==> next_oid(cat) is Ok,
        next_oid(cat) is Err ==> exists|i: int, m: i64|
            0 <= i < cat.len() && #[trigger] has_number(cat[i], m) && (m >= 2147483647 || m
                < -2147483648),
{
    highest_is_had(cat);
    if highest_oid(cat) is Some {
        let h = highest_oid(cat)->0;
        let i = choose|i: int| 0 <= i < cat.len() && has_number(#[trigger] cat[i], h);
        assert(has_number(cat[i], h));
    }
}

// --- changes -------------------------------------------------------------------------------------

/// A change that takes rows out by an OID takes exactly those of its table that have the OID in
/// its column.
pub proof fn rows_of_an_oid_go(
    cat: CatalogView,
    table: CatalogTable,
    column: Seq<char>,
    oid: i32,
    e: (CatalogTable, RowView),
)
    ensures
        changed(cat, ChangeView::DeleteOid(table, column, oid)).contains(e) <==> cat.contains(e)
            && !(e.0 == table && cell_at(e.1, column) == CellView::Int(oid as i64)),
{
    filter_is_contained(cat, other_oid(table, column, oid), e);
}

/// A change that takes rows out by a name takes exactly those of its table that have the name in
/// its column.
pub proof fn rows_of_a_name_go(
    cat: CatalogView,
    table: CatalogTable,
    column: Seq<char>,
    name: Seq<char>,
    e: (CatalogTable, RowView),
)
    ensures
        changed(cat, ChangeView::DeleteName(table, column, name)).contains(e) <==> cat.contains(e)
            && !(e.0 == table && cell_at(e.1, column) == CellView::Text(name)),
{
    filter_is_contained(cat, other_name(table, column, name), e);
}

/// A change that puts a row in adds it to its table and keeps every row that was there.
pub proof fn new_row_is_there(
    cat: CatalogView,
    table: CatalogTable,
    row: RowView,
    e: (CatalogTable, RowView),
)
    ensures
        changed(cat, ChangeView::Insert(table, row)).contains(e) <==> cat.contains(e) || e == (
            table,
            row,
        ),
{
    let after = changed(cat, ChangeView::Insert(table, row));
    assert(after[cat.len() as int] == (table, row));
    if cat.contains(e) {
        let i = choose|i: int| 0 <= i < cat.len() && cat[i] == e;
        assert(after[i] == e);
    }
}

// --- registering ---------------------------------------------------------------------------------

/// A new database gets a row with the next OID and its name, open to connections, in UTF-8 and
/// with the locale `C`.
pub proof fn new_database_is_described(cat: CatalogView, name: Seq<char>)
    requires
        found(cat, LookupView::Database(name)) is None,
        next_oid(cat) is Ok,
    ensures
        ({
            let rows = rows_put(database_plan(cat, name)->Ok_0);
            let row = rows[0].1;
            &&& database_plan(cat, name) is Ok
            &&& rows.len() == 1
            &&& rows[0].0 is PgDatabase
            &&& cell_at(row, "oid"@) == CellView::Int(next_oid(cat)->Ok_0 as i64)
            &&& cell_at(row, "datname"@) == CellView::Text(name)
            &&& cell_at(row, "datdba"@) == CellView::Int(10)
            &&& cell_at(row, "encoding"@) == CellView::Int(6)
            &&& cell_at(row, "datcollate"@) == CellView::Text("C"@)
            &&& cell_at(row, "datctype"@) == CellView::Text("C"@)
            &&& cell_at(row, "datistemplate"@) == CellView::Bool(false)
            &&& cell_at(row, "datallowconn"@) == CellView::Bool(true)
            &&& cell_at(row, "datconnlimit"@) == CellView::Int(-1i64)
            &&& cell_at(row, "datfrozenxid"@) == CellView::Int(726)
            &&& cell_at(row, "datminmxid"@) == CellView::Int(1)
            &&& cell_at(row, "dattablespace"@) == CellView::Int(1663)
            &&& cell_at(row, "datacl"@) == CellView::TextList(
                seq!["=Tc/dbuser"@, "dbuser=CTc/dbuser"@],
            )
        }),
{
    reveal_strlit("datdba");
    reveal_strlit("encoding");
    reveal_strlit("datcollate");
    reveal_strlit("datctype");
    reveal_strlit("datistemplate");
    reveal_strlit("datallowconn");
    reveal_strlit("datconnlimit");
    reveal_strlit("datfrozenxid");
    reveal_strlit("datminmxid");
    reveal_strlit("dattablespace");
    reveal_strlit("datacl");
    reveal_strlit("datname");
    reveal_strlit("oid");
    assert("datdba"@.len() == 6);
    assert("encoding"@.len() == 8);
    assert("datcollate"@.len() == 10);
    assert("datctype"@.len() == 8);
    assert("datistemplate"@.len() == 13);
    assert("datallowconn"@.len() == 12);
    assert("datconnlimit"@.len() == 12);
    assert("datfrozenxid"@.len() == 12);
    assert("datminmxid"@.len() == 10);
    assert("dattablespace"@.len() == 13);
    assert("datacl"@.len() == 6);
    assert("datname"@.len() == 7);
    assert("oid"@.len() == 3);
    assert("datdba"@[3] == 'd');
    assert("datacl"@[3] == 'a');
    assert("encoding"@[0] == 'e');
    assert("datctype"@[0] == 'd');
    assert("datcollate"@[3] == 'c');
    assert("datminmxid"@[3] == 'm');
    assert("datistemplate"@[3] == 'i');
    assert("dattablespace"@[3] == 't');
    assert("datallowconn"@[3] == 'a');
    assert("datconnlimit"@[3] == 'c');
    assert("datfrozenxid"@[3] == 'f');
}

/// A new schema gets a row with the next OID, which is handed back, and its name.
pub proof fn new_schema_is_described(cat: CatalogView, name: Seq<char>)
    requires
        found(cat, LookupView::Schema(name)) is None,
        next_oid(cat) is Ok,
    ensures
        ({
            let (oid, changes) = schema_plan(cat, name)->Ok_0;
            let rows = rows_put(changes);
            &&& schema_plan(cat, name) is Ok
            &&& Ok::<i32, Seq<char>>(oid) == next_oid(cat)
            &&& rows.len() == 1
            &&& rows[0].0 is PgNamespace
            &&& cell_at(rows[0].1, "oid"@) == CellView::Int(oid as i64)
            &&& cell_at(rows[0].1, "nspname"@) == CellView::Text(name)
        }),
{
    let oid = next_oid(cat)->Ok_0;
    namespace_row_describes_schema(SchemaView { oid, name, owner_oid: None });
}

/// A new index of a table gets two rows: one of `pg_class` with the next OID and its name, in the
/// schema of the table, and one of `pg_index` that ties that OID to the table and its columns.
pub proof fn new_index_is_described(
    cat: CatalogView,
    schema_oid: i32,
    new: NewIndex,
    table_oid: i32,
)
    requires
        table_oid_of(cat, schema_oid, new.table@) == Ok::<Option<i32>, Seq<char>>(Some(table_oid)),
        table_oid_of(cat, schema_oid, new.name@) == Ok::<Option<i32>, Seq<char>>(None),
        next_oid(cat) is Ok,
    ensures
        ({
            let oid = next_oid(cat)->Ok_0;
            let rows = rows_put(index_plan(cat, schema_oid, new)->Ok_0);
            &&& index_plan(cat, schema_oid, new) is Ok
            &&& rows.len() == 2
            &&& rows[0].0 is PgClass
            &&& cell_at(rows[0].1, "oid"@) == CellView::Int(oid as i64)
            &&& cell_at(rows[0].1, "relname"@) == CellView::Text(new.name@)
            &&& cell_at(rows[0].1, "relnamespace"@) == CellView::Int(schema_oid as i64)
            &&& cell_at(rows[0].1, "relkind"@) == CellView::Text("i"@)
            &&& rows[1].0 is PgIndex
            &&& cell_at(rows[1].1, "indexrelid"@) == CellView::Int(oid as i64)
            &&& cell_at(rows[1].1, "indrelid"@) == CellView::Int(table_oid as i64)
            &&& cell_at(rows[1].1, "indkey"@) == CellView::IntList(new.key_attnums@)
            &&& cell_at(rows[1].1, "indisunique"@) == CellView::Bool(new.is_unique)
            &&& cell_at(rows[1].1, "indisprimary"@) == CellView::Bool(new.is_primary)
        }),
{
    let index = user_index(next_oid(cat)->Ok_0, table_oid, new);
    class_row_describes_index(index, schema_oid);
    index_row_describes_index(index);
}

/// An index of a table that is not there is refused, and one whose name a relation of the schema
/// has changes nothing.
pub proof fn other_indexes_are_not_put_in(cat: CatalogView, schema_oid: i32, new: NewIndex)
    ensures
        table_oid_of(cat, schema_oid, new.table@) == Ok::<Option<i32>, Seq<char>>(None)
            ==> index_plan(cat, schema_oid, new) is Err,
        ({
            let table = table_oid_of(cat, schema_oid, new.table@);
            let same = table_oid_of(cat, schema_oid, new.name@);
            table is Ok && table->Ok_0 is Some && same is Ok && same->Ok_0 is Some
        }) ==> index_plan(cat, schema_oid, new) == Ok::<Seq<ChangeView>, Seq<char>>(Seq::empty()),
{
}

/// A new constraint of a table gets a row with the next OID, its name, its kind and its columns,
/// and a foreign key one with the table and the columns that it refers to.
pub proof fn new_constraint_is_described(
    cat: CatalogView,
    schema_oid: i32,
    new: NewConstraint,
    table_oid: i32,
)
    requires
        table_oid_of(cat, schema_oid, new.table@) == Ok::<Option<i32>, Seq<char>>(Some(table_oid)),
        found(cat, LookupView::Constraint(table_oid, new.name@)) is None,
        constraint_plan(cat, schema_oid, new) is Ok,
    ensures
        ({
            let rows = rows_put(constraint_plan(cat, schema_oid, new)->Ok_0);
            let row = rows[0].1;
            let referenced = new.referenced_table;
            &&& next_oid(cat) is Ok
            &&& rows.len() == 1
            &&& rows[0].0 is PgConstraint
            &&& cell_at(row, "oid"@) == CellView::Int(next_oid(cat)->Ok_0 as i64)
            &&& cell_at(row, "conname"@) == CellView::Text(new.name@)
            &&& cell_at(row, "connamespace"@) == CellView::Int(schema_oid as i64)
            &&& cell_at(row, "conrelid"@) == CellView::Int(table_oid as i64)
            &&& cell_at(row, "conkey"@) == CellView::IntList(new.key_attnums@)
            &&& new.kind is PrimaryKey ==> cell_at(row, "contype"@) == CellView::Text("p"@)
            &&& new.kind is Unique ==> cell_at(row, "contype"@) == CellView::Text("u"@)
            &&& new.kind is ForeignKey ==> cell_at(row, "contype"@) == CellView::Text("f"@)
            &&& new.kind is ForeignKey ==> referenced is Some && (exists|oid: i32|
                table_oid_of(cat, schema_oid, referenced->0@) == Ok::<Option<i32>, Seq<char>>(
                    Some(oid),
                ) && cell_at(row, "confrelid"@) == CellView::Int(oid as i64)) && cell_at(
                row,
                "confkey"@,
            ) == CellView::IntList(new.referenced_key_attnums@) && new.key_attnums@.len()
                == new.referenced_key_attnums@.len()
            &&& !(new.kind is ForeignKey) ==> cell_at(row, "confrelid"@) == CellView::Int(0)
                && cell_at(row, "confkey"@) == CellView::Null
        }),
{
    let referenced = referenced_oid(cat, schema_oid, new)->Ok_0;
    let def = user_constraint(next_oid(cat)->Ok_0, schema_oid, table_oid, new, referenced);
    constraint_row_describes_constraint(def);
    if new.kind is ForeignKey {
        let oid = referenced->0;
        assert(table_oid_of(cat, schema_oid, new.referenced_table->0@) == Ok::<
            Option<i32>,
            Seq<char>,
        >(Some(oid)));
    }
}

/// A constraint of a table that is not there is refused, one whose name the table has for another
/// changes nothing, and a foreign key is refused that names no table, names one that is not there,
/// or has another number of columns than it refers to.
pub proof fn other_constraints_are_not_put_in(
    cat: CatalogView,
    schema_oid: i32,
    new: NewConstraint,
)
    ensures
        ({
            let at = |name: Seq<char>| table_oid_of(cat, schema_oid, name);
            let table = at(new.table@);
            let none = Ok::<Option<i32>, Seq<char>>(None);
            let plan = constraint_plan(cat, schema_oid, new);
            let known = table is Ok && table->Ok_0 is Some && found(
                cat,
                LookupView::Constraint(table->Ok_0->0, new.name@),
            ) is Some;
            &&& table == none ==> plan is Err
            &&& known ==> plan == Ok::<Seq<ChangeView>, Seq<char>>(Seq::empty())
            &&& !known && new.kind is ForeignKey && (new.referenced_table is None || at(
                new.referenced_table->0@,
            ) == none || new.key_attnums@.len() != new.referenced_key_attnums@.len())
                ==> plan is Err
        }),
{
}

/// The numbers of the columns with defaults are the places, from one on, of the columns that have
/// one, each once and in order.
pub proof fn defaults_are_numbered_by_their_columns(columns: Seq<ColumnView>, n: nat)
    requires
        n <= columns.len() <= i32::MAX,
    ensures
        ({
            let numbers = default_numbers(columns, n);
            &&& forall|k: int|
                0 <= k < numbers.len() ==> 1 <= #[trigger] numbers[k] <= n && columns[numbers[k]
                    - 1].has_default
            &&& forall|i: int|
                0 <= i < n && (#[trigger] columns[i]).has_default
                    ==> numbers.contains((i + 1) as i32)
            &&& forall|j: int, k: int|
                0 <= j < k < numbers.len() ==> #[trigger] numbers[j] < #[trigger] numbers[k]
        }),
    decreases n,
{
    if n > 0 {
        defaults_are_numbered_by_their_columns(columns, (n - 1) as nat);
        let done = default_numbers(columns, (n - 1) as nat);
        let numbers = default_numbers(columns, n);
        if columns[n - 1].has_default {
            assert(numbers[done.len() as int] == n);
            assert forall|i: int|
                0 <= i < n && (#[trigger] columns[i]).has_default implies numbers.contains(
                (i + 1) as i32,
            ) by {
                if i < n - 1 {
                    let k = choose|k: int| 0 <= k < done.len() && done[k] == (i + 1) as i32;
                    assert(numbers[k] == (i + 1) as i32);
                }
            }
        }
    }
}

/// Of several names in one description, none comes before the one that counts.
pub proof fn first_name_counts(columns: Seq<NamedColumn>, i: int)
    requires
        0 <= i < columns.len(),
    ensures
        columns.contains(first_by_name(columns)),
        !before(columns[i].name@, first_by_name(columns).name@),
    decreases columns.len(),
{
    before_is_strict(columns[i].name@, columns[i].name@);
    if columns.len() > 1 {
        let rest = columns.drop_last();
        let first = first_by_name(rest);
        first_name_counts(rest, if i < rest.len() { i } else { 0 });
        let k = choose|k: int| 0 <= k < rest.len() && rest[k] == first;
        assert(columns[k] == first);
        let last = columns[columns.len() - 1];
        assert(columns.last() == last);
        before_is_strict(first.name@, last.name@);
        if i < rest.len() {
            assert(rest[i] == columns[i]);
            if before(columns[i].name@, last.name@) && before(last.name@, first.name@) {
                before_is_transitive(columns[i].name@, last.name@, first.name@);
            }
        }
    } else {
        assert(columns[0] == first_by_name(columns));
    }
}

// --- the registry --------------------------------------------------------------------------------

/// A schema that is forgotten is not one of its database any more; its other schemas stay, and so
/// do those of every other database.
pub proof fn forgotten_schema_is_gone(
    r: RegistryView,
    database: Seq<char>,
    schema: Seq<char>,
    d: Seq<char>,
    s: Seq<char>,
)
    ensures
        schemas_of(without_schema(r, database, schema), d).contains(s) <==> schemas_of(
            r,
            d,
        ).contains(s) && !(d == database && s == schema),
{
    let old = schemas_of(r, database);
    let rest = old.filter(texts_other_than(schema));
    text_filter_is_contained(old, schema, s);
    if rest.len() == 0 {
        assert(!rest.contains(s));
    }
}

/// A schema that is added is one of its database; nothing else changes.
pub proof fn added_schema_is_there(
    r: RegistryView,
    database: Seq<char>,
    schema: Seq<char>,
    d: Seq<char>,
    s: Seq<char>,
)
    ensures
        schemas_of(with_schema(r, database, schema), d).contains(s) <==> schemas_of(r, d).contains(
            s,
        ) || d == database && s == schema,
{
    let old = schemas_of(r, database);
    let new = old.push(schema);
    assert(new[old.len() as int] == schema);
    if old.contains(s) {
        let i = choose|i: int| 0 <= i < old.len() && old[i] == s;
        assert(new[i] == s);
    }
    if new.contains(s) && s != schema {
        let i = choose|i: int| 0 <= i < new.len() && new[i] == s;
        assert(old[i] == s);
    }
}

proof fn text_filter_is_contained(old: Seq<Seq<char>>, schema: Seq<char>, s: Seq<char>)
    ensures
        old.filter(texts_other_than(schema)).contains(s) <==> old.contains(s) && s != schema,
    decreases old.len(),
{
    reveal(Seq::filter);
    if old.len() > 0 {
        let front = old.drop_last();
        let last = old[old.len() - 1];
        assert(old.last() == last);
        text_filter_is_contained(front, schema, s);
        let done = front.filter(texts_other_than(schema));
        if old.contains(s) {
            let i = choose|i: int| 0 <= i < old.len() && old[i] == s;
            if i < front.len() {
                assert(front[i] == s);
            }
        }
        if front.contains(s) {
            let i = choose|i: int| 0 <= i < front.len() && front[i] == s;
            assert(old[i] == s);
        }
        if last != schema {
            let all = done.push(last);
            assert(all[done.len() as int] == last);
            if done.contains(s) {
                let i = choose|i: int| 0 <= i < done.len() && done[i] == s;
                assert(all[i] == s);
            }
            if all.contains(s) && s != last {
                let i = choose|i: int| 0 <= i < all.len() && all[i] == s;
                assert(done[i] == s);
            }
        }
    }
}

// --- served rows ---------------------------------------------------------------------------------

proof fn kept_rows_are_served(stay: Seq<bool>, n: nat, b: usize)
    requires
        n <= stay.len() <= usize::MAX,
    ensures
        kept_rows(stay, n).contains(ServedRow::Builtin(b)) <==> b < n && stay[b as int],
        forall|k: int| 0 <= k < kept_rows(stay, n).len()
            ==> (#[trigger] kept_rows(stay, n)[k]) is Builtin,
    decreases n,
{
    if n > 0 {
        kept_rows_are_served(stay, (n - 1) as nat, b);
        let done = kept_rows(stay, (n - 1) as nat);
        let row = ServedRow::Builtin((n - 1) as usize);
        if stay[n - 1] {
            let all = done.push(row);
            assert(all[done.len() as int] == row);
            if done.contains(ServedRow::Builtin(b)) {
                let i = choose|i: int| 0 <= i < done.len() && done[i] == ServedRow::Builtin(b);
                assert(all[i] == ServedRow::Builtin(b));
            }
            if all.contains(ServedRow::Builtin(b)) && b != n - 1 {
                let i = choose|i: int| 0 <= i < all.len() && all[i] == ServedRow::Builtin(b);
                assert(done[i] == ServedRow::Builtin(b));
            }
        }
    }
}

/// A table serves every user row, and exactly those built-in rows whose key no user row has.
pub proof fn user_rows_hide_builtin_rows(
    keys: Seq<Seq<Seq<char>>>,
    builtin: Seq<Vec<KeyCell>>,
    u: usize,
    b: usize,
)
    requires
        keys.len() <= usize::MAX,
        builtin.len() <= usize::MAX,
    ensures
        served(keys, builtin).contains(ServedRow::User(u)) <==> u < keys.len(),
        served(keys, builtin).contains(ServedRow::Builtin(b)) <==> b < builtin.len()
            && !keys.contains(builtin_key(builtin[b as int]@)),
{
    let first = kept_rows(kept(keys, builtin), builtin.len());
    let second = Seq::new(keys.len(), |i: int| ServedRow::User(i as usize));
    let all = served(keys, builtin);
    kept_rows_are_served(kept(keys, builtin), builtin.len(), b);
    if u < keys.len() {
        assert(all[first.len() + u] == ServedRow::User(u));
    }
    if all.contains(ServedRow::User(u)) {
        let i = choose|i: int| 0 <= i < all.len() && all[i] == ServedRow::User(u);
        if i < first.len() {
            assert(first[i] is Builtin);
        } else {
            assert(second[i - first.len()] == ServedRow::User(u));
        }
    }
    if first.contains(ServedRow::Builtin(b)) {
        let i = choose|i: int| 0 <= i < first.len() && first[i] == ServedRow::Builtin(b);
        assert(all[i] == ServedRow::Builtin(b));
    }
    if all.contains(ServedRow::Builtin(b)) {
        let i = choose|i: int| 0 <= i < all.len() && all[i] == ServedRow::Builtin(b);
        if i < first.len() {
            assert(first[i] == ServedRow::Builtin(b));
        } else {
            assert(second[i - first.len()] is User);
        }
    }
}

/// A built-in row has the key of a user row exactly if its numbers and texts are the same: a number
/// in a key is told from every other.
pub proof fn builtin_keys_are_read_alike(n: i64, m: i64, s: Seq<char>, t: String)
    ensures
        builtin_text(KeyCell::Int(n)) == key_text(CellView::Int(m)) <==> n == m,
        builtin_text(KeyCell::Text(t)) == key_text(CellView::Text(s)) <==> s == t@,
        builtin_text(KeyCell::Null) == key_text(CellView::Null),
{
    numbers_differ_in_keys(n, m);
}

// --- refusals ------------------------------------------------------------------------------------

/// A relation whose name the schema has changes nothing, and one of a schema that is not there is
/// refused.
pub proof fn other_relations_are_not_put_in(
    cat: CatalogView,
    schema_oid: i32,
    name: Seq<char>,
    kind: RelationKind,
    columns: Seq<ColumnView>,
)
    ensures
        ({
            let plan = relation_plan(cat, schema_oid, name, kind, columns);
            let known = found(cat, LookupView::Relation(schema_oid, name)) is Some;
            &&& known ==> plan == Ok::<Seq<ChangeView>, Seq<char>>(Seq::empty())
            &&& !known && found(cat, LookupView::SchemaOid(schema_oid)) is None ==> plan is Err
            &&& !known && next_oid(cat) is Err ==> plan is Err
            &&& !known && columns.len() > 2147483647 ==> plan is Err
        }),
{
}

/// The OID of what was looked up is the number in its row; a row without one, and one with a number
/// that has no four bytes, is an error.
pub proof fn oids_are_read(kind: Seq<char>, row: RowView, n: i64)
    ensures
        cell_at(row, "oid"@) == CellView::Int(n) && -2147483648 <= n <= 2147483647 ==> oid_of(
            kind,
            Some(row),
        ) == Ok::<Option<i32>, Seq<char>>(Some(n as i32)),
        cell_at(row, "oid"@) == CellView::Int(n) && (n < -2147483648 || n > 2147483647) ==> oid_of(
            kind,
            Some(row),
        ) is Err,
        !(cell_at(row, "oid"@) is Int) ==> oid_of(kind, Some(row)) is Err,
        oid_of(kind, None) == Ok::<Option<i32>, Seq<char>>(None),
{
}

} // verus!
