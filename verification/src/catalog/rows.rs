//! Rows for user objects.
use super::defs::{
    action_code, columns_view, contype_of, match_code, relkind_of, table_type_of, ColumnSpec,
    ColumnView, ConfigSettingDef, ConstraintDef, ConstraintKind, ConstraintView, DatabaseDef,
    IndexDef, IndexView, RelationDef, RelationView, SchemaDef, SchemaView, SettingDef,
};
use super::row::{
    copy_ints, copy_texts, no_rows, push_row, rows_view, CellValue, CellView, Row, RowView,
};
use super::types::{
    column_collation, column_type_storage, oid_to_type_names, type_collation, type_names,
    type_storage,
};
use crate::text::{signed, signed_text, views};
use vstd::prelude::*;

verus! {

/// The access method of tables.
pub const HEAP_ACCESS_METHOD_OID: i32 = 2;

/// The access method of indexes.
pub const BTREE_ACCESS_METHOD_OID: i32 = 403;

/// The role that owns objects of no other owner.
pub const DEFAULT_OWNER_ROLE_OID: i32 = 10;

/// Where the OIDs of `pg_attrdef` rows begin that are numbered on the fly; nothing reads
/// them.
pub const SYNTHETIC_ATTRDEF_OID_BASE: i32 = 900000;

/// A text, or another one where it is missing.
fn text_or(s: &Option<String>, default: &str) -> (r: CellValue)
    ensures
        r@ == CellView::Text(
            match *s {
                Some(x) => x@,
                None => default@,
            },
        ),
{
    match s {
        Some(x) => CellValue::Text(x.clone()),
        None => CellValue::of_text(default),
    }
}

/// One character, as a text.
fn char_or_null(c: Option<char>) -> (r: CellValue)
    ensures
        r@ == match c {
            Some(x) => CellView::Text(seq![x]),
            None => CellView::Null,
        },
{
    match c {
        Some(x) => {
            let mut s = String::new();
            s.push(x);
            assert(s@ =~= seq![x]);
            CellValue::Text(s)
        },
        None => CellValue::Null,
    }
}

fn list_or_null(v: &Option<Vec<String>>) -> (r: CellValue)
    ensures
        r@ == match *v {
            Some(x) => CellView::TextList(views(x@)),
            None => CellView::Null,
        },
{
    match v {
        Some(x) => CellValue::TextList(copy_texts(x)),
        None => CellValue::Null,
    }
}

/// A number of columns, or the number of one, as a number of four bytes; the highest bits are
/// cut off.
pub open spec fn count_of(n: nat) -> i32 {
    n as i32
}

pub fn to_count(n: usize) -> (r: i32)
    ensures
        r == count_of(n as nat),
{
    #[verifier::truncate]
    (n as i32)
}

/// The row of a setting in `pg_config`.
pub open spec fn pg_config_row(def: ConfigSettingDef) -> RowView {
    Map::empty()
        .insert("name"@, CellView::Text(def.name@))
        .insert("setting"@, CellView::Text(def.setting@))
}

pub fn build_pg_config_row(def: &ConfigSettingDef) -> (r: Row)
    ensures
        r@ == pg_config_row(*def),
{
    let mut row = Row::new();
    row.insert("name", CellValue::Text(def.name.clone()));
    row.insert("setting", CellValue::Text(def.setting.clone()));
    row
}

/// The row of a parameter in `pg_settings`; what describes the parameter is null.
pub open spec fn pg_settings_row(def: SettingDef) -> RowView {
    Map::empty()
        .insert("name"@, CellView::Text(def.name@))
        .insert("setting"@, CellView::Text(def.setting@))
}

pub fn build_pg_settings_row(def: &SettingDef) -> (r: Row)
    ensures
        r@ == pg_settings_row(*def),
{
    let mut row = Row::new();
    row.insert("name", CellValue::Text(def.name.clone()));
    row.insert("setting", CellValue::Text(def.setting.clone()));
    row
}

/// The row of a database in `pg_database`, with the values that PostgreSQL has by default
/// where they are not set.
pub open spec fn pg_database_row(def: DatabaseDef) -> RowView {
    Map::empty()
        .insert("datdba"@, CellView::Int(def.datdba as i64))
        .insert(
            "encoding"@,
            CellView::Int(match def.encoding { Some(n) => n as i64, None => 6i64 }),
        )
        .insert(
            "datlocprovider"@,
            match def.datlocprovider { Some(c) => CellView::Text(seq![c]), None => CellView::Null },
        )
        .insert(
            "datistemplate"@,
            CellView::Bool(match def.datistemplate { Some(b) => b, None => false }),
        )
        .insert(
            "datallowconn"@,
            CellView::Bool(match def.datallowconn { Some(b) => b, None => true }),
        )
        .insert(
            "dathasloginevt"@,
            CellView::Bool(match def.dathasloginevt { Some(b) => b, None => false }),
        )
        .insert(
            "datconnlimit"@,
            CellView::Int(match def.datconnlimit { Some(n) => n as i64, None => -1i64 }),
        )
        .insert(
            "datfrozenxid"@,
            CellView::Text(match def.datfrozenxid { Some(s) => s@, None => "726"@ }),
        )
        .insert("datminmxid"@, CellView::Text(match def.datminmxid { Some(s) => s@, None => "1"@ }))
        .insert(
            "dattablespace"@,
            CellView::Int(match def.dattablespace { Some(n) => n as i64, None => 1663i64 }),
        )
        .insert("datcollate"@, CellView::Text(match def.datcollate { Some(s) => s@, None => "C"@ }))
        .insert("datctype"@, CellView::Text(match def.datctype { Some(s) => s@, None => "C"@ }))
        .insert(
            "datlocale"@,
            match def.datlocale { Some(s) => CellView::Text(s@), None => CellView::Null },
        )
        .insert(
            "daticurules"@,
            match def.daticurules { Some(s) => CellView::Text(s@), None => CellView::Null },
        )
        .insert(
            "datcollversion"@,
            match def.datcollversion { Some(s) => CellView::Text(s@), None => CellView::Null },
        )
        .insert(
            "datacl"@,
            match def.datacl { Some(v) => CellView::TextList(views(v@)), None => CellView::Null },
        )
        .insert("datname"@, CellView::Text(def.datname@))
        .insert("oid"@, CellView::Int(def.oid as i64))
}

pub fn build_pg_database_row(def: &DatabaseDef) -> (r: Row)
    ensures
        r@ == pg_database_row(*def),
{
    let mut row = Row::new();
    row.insert("datdba", CellValue::of_int(def.datdba));
    row.insert("encoding", CellValue::of_int(match def.encoding { Some(n) => n, None => 6 }));
    row.insert("datlocprovider", char_or_null(def.datlocprovider));
    row.insert(
        "datistemplate",
        CellValue::Bool(match def.datistemplate { Some(b) => b, None => false }),
    );
    row.insert(
        "datallowconn",
        CellValue::Bool(match def.datallowconn { Some(b) => b, None => true }),
    );
    row.insert(
        "dathasloginevt",
        CellValue::Bool(match def.dathasloginevt { Some(b) => b, None => false }),
    );
    row.insert(
        "datconnlimit",
        CellValue::of_int(match def.datconnlimit { Some(n) => n, None => -1 }),
    );
    row.insert("datfrozenxid", text_or(&def.datfrozenxid, "726"));
    row.insert("datminmxid", text_or(&def.datminmxid, "1"));
    row.insert(
        "dattablespace",
        CellValue::of_int(match def.dattablespace { Some(n) => n, None => 1663 }),
    );
    row.insert("datcollate", text_or(&def.datcollate, "C"));
    row.insert("datctype", text_or(&def.datctype, "C"));
    row.insert("datlocale", CellValue::text_or_null(&def.datlocale));
    row.insert("daticurules", CellValue::text_or_null(&def.daticurules));
    row.insert("datcollversion", CellValue::text_or_null(&def.datcollversion));
    row.insert("datacl", list_or_null(&def.datacl));
    row.insert("datname", CellValue::Text(def.datname.clone()));
    row.insert("oid", CellValue::of_int(def.oid));
    row
}

/// The row of a schema in `pg_namespace`.
pub open spec fn pg_namespace_row(def: SchemaView) -> RowView {
    Map::empty()
        .insert(
            "nspowner"@,
            CellView::Int(
                match def.owner_oid { Some(n) => n as i64, None => DEFAULT_OWNER_ROLE_OID as i64 },
            ),
        )
        .insert("nspacl"@, CellView::Null)
        .insert("nspname"@, CellView::Text(def.name))
        .insert("oid"@, CellView::Int(def.oid as i64))
}

pub fn build_pg_namespace_row(def: &SchemaDef) -> (r: Row)
    ensures
        r@ == pg_namespace_row(def@),
{
    let mut row = Row::new();
    row.insert(
        "nspowner",
        CellValue::of_int(match def.owner_oid { Some(n) => n, None => DEFAULT_OWNER_ROLE_OID }),
    );
    row.insert("nspacl", CellValue::Null);
    row.insert("nspname", CellValue::Text(def.name.clone()));
    row.insert("oid", CellValue::of_int(def.oid));
    row
}

/// The row of a relation in `pg_class`: of the schema with the OID `namespace_oid`, with
/// `natts` columns. The owner is null where relations have none.
pub open spec fn pg_class_row(def: RelationView, namespace_oid: i32, natts: i32) -> RowView {
    let named = Map::empty()
        .insert("reltype"@, CellView::Int(def.reltype_oid as i64))
        .insert("relkind"@, CellView::Text(relkind_of(def.kind)))
        .insert("relam"@, CellView::Int(HEAP_ACCESS_METHOD_OID as i64))
        .insert("reltuples"@, CellView::RealZero)
        .insert("relispartition"@, CellView::Bool(false));
    let owned = match def.owner_oid {
        Some(owner) => named.insert("relowner"@, CellView::Int(owner as i64)),
        None => named,
    };
    owned
        .insert("relhasindex"@, CellView::Bool(def.has_index))
        .insert("relhasrules"@, CellView::Bool(def.has_rules))
        .insert("relhastriggers"@, CellView::Bool(def.has_triggers))
        .insert("relrowsecurity"@, CellView::Bool(def.row_security))
        .insert("relispopulated"@, CellView::Bool(true))
        .insert("relpersistence"@, CellView::Text("p"@))
        .insert("relreplident"@, CellView::Text("d"@))
        .insert("relnatts"@, CellView::Int(natts as i64))
        .insert("relchecks"@, CellView::Int(0))
        .insert("relhassubclass"@, CellView::Bool(false))
        .insert("relfilenode"@, CellView::Int(def.oid as i64))
        .insert("reltablespace"@, CellView::Int(0))
        .insert("relpages"@, CellView::Int(0))
        .insert("relallvisible"@, CellView::Int(0))
        .insert("reltoastrelid"@, CellView::Int(0))
        .insert("relfrozenxid"@, CellView::Int(0))
        .insert("relminmxid"@, CellView::Int(0))
        .insert("relnamespace"@, CellView::Int(namespace_oid as i64))
        .insert("relname"@, CellView::Text(def.name))
        .insert("oid"@, CellView::Int(def.oid as i64))
}

pub fn build_pg_class_row(def: &RelationDef, namespace_oid: i32, natts: i32) -> (r: Row)
    ensures
        r@ == pg_class_row(def@, namespace_oid, natts),
{
    let mut row = Row::new();
    row.insert("reltype", CellValue::of_int(def.reltype_oid));
    row.insert("relkind", CellValue::of_text(def.kind.relkind()));
    row.insert("relam", CellValue::of_int(HEAP_ACCESS_METHOD_OID));
    row.insert("reltuples", CellValue::RealZero);
    row.insert("relispartition", CellValue::Bool(false));
    if let Some(owner) = def.owner_oid {
        row.insert("relowner", CellValue::of_int(owner));
    }
    row.insert("relhasindex", CellValue::Bool(def.has_index));
    row.insert("relhasrules", CellValue::Bool(def.has_rules));
    row.insert("relhastriggers", CellValue::Bool(def.has_triggers));
    row.insert("relrowsecurity", CellValue::Bool(def.row_security));
    row.insert("relispopulated", CellValue::Bool(true));
    row.insert("relpersistence", CellValue::of_text("p"));
    row.insert("relreplident", CellValue::of_text("d"));
    row.insert("relnatts", CellValue::of_int(natts));
    row.insert("relchecks", CellValue::Int(0));
    row.insert("relhassubclass", CellValue::Bool(false));
    row.insert("relfilenode", CellValue::of_int(def.oid));
    row.insert("reltablespace", CellValue::Int(0));
    row.insert("relpages", CellValue::Int(0));
    row.insert("relallvisible", CellValue::Int(0));
    row.insert("reltoastrelid", CellValue::Int(0));
    row.insert("relfrozenxid", CellValue::Int(0));
    row.insert("relminmxid", CellValue::Int(0));
    row.insert("relnamespace", CellValue::of_int(namespace_oid));
    row.insert("relname", CellValue::Text(def.name.clone()));
    row.insert("oid", CellValue::of_int(def.oid));
    row
}

/// The row of an index in `pg_class`: with the columns that the row of a relation has, the
/// owner apart. An index has no row type.
pub open spec fn index_pg_class_row(def: IndexView, namespace_oid: i32) -> RowView {
    Map::empty()
        .insert("reltype"@, CellView::Int(0))
        .insert("relkind"@, CellView::Text("i"@))
        .insert("relam"@, CellView::Int(BTREE_ACCESS_METHOD_OID as i64))
        .insert("reltuples"@, CellView::RealZero)
        .insert("relispartition"@, CellView::Bool(false))
        .insert("relhasindex"@, CellView::Bool(false))
        .insert("relhasrules"@, CellView::Bool(false))
        .insert("relhastriggers"@, CellView::Bool(false))
        .insert("relrowsecurity"@, CellView::Bool(false))
        .insert("relispopulated"@, CellView::Bool(true))
        .insert("relpersistence"@, CellView::Text("p"@))
        .insert("relreplident"@, CellView::Text("n"@))
        .insert("relnatts"@, CellView::Int(count_of(def.key_attnums.len()) as i64))
        .insert("relchecks"@, CellView::Int(0))
        .insert("relhassubclass"@, CellView::Bool(false))
        .insert("relfilenode"@, CellView::Int(def.index_oid as i64))
        .insert("reltablespace"@, CellView::Int(0))
        .insert("relpages"@, CellView::Int(0))
        .insert("relallvisible"@, CellView::Int(0))
        .insert("reltoastrelid"@, CellView::Int(0))
        .insert("relfrozenxid"@, CellView::Int(0))
        .insert("relminmxid"@, CellView::Int(0))
        .insert("relnamespace"@, CellView::Int(namespace_oid as i64))
        .insert("relname"@, CellView::Text(def.index_name))
        .insert("oid"@, CellView::Int(def.index_oid as i64))
}

pub fn build_index_pg_class_row(def: &IndexDef, namespace_oid: i32) -> (r: Row)
    ensures
        r@ == index_pg_class_row(def@, namespace_oid),
{
    let mut row = Row::new();
    row.insert("reltype", CellValue::Int(0));
    row.insert("relkind", CellValue::of_text("i"));
    row.insert("relam", CellValue::of_int(BTREE_ACCESS_METHOD_OID));
    row.insert("reltuples", CellValue::RealZero);
    row.insert("relispartition", CellValue::Bool(false));
    row.insert("relhasindex", CellValue::Bool(false));
    row.insert("relhasrules", CellValue::Bool(false));
    row.insert("relhastriggers", CellValue::Bool(false));
    row.insert("relrowsecurity", CellValue::Bool(false));
    row.insert("relispopulated", CellValue::Bool(true));
    row.insert("relpersistence", CellValue::of_text("p"));
    row.insert("relreplident", CellValue::of_text("n"));
    row.insert("relnatts", CellValue::of_int(to_count(def.key_attnums.len())));
    row.insert("relchecks", CellValue::Int(0));
    row.insert("relhassubclass", CellValue::Bool(false));
    row.insert("relfilenode", CellValue::of_int(def.index_oid));
    row.insert("reltablespace", CellValue::Int(0));
    row.insert("relpages", CellValue::Int(0));
    row.insert("relallvisible", CellValue::Int(0));
    row.insert("reltoastrelid", CellValue::Int(0));
    row.insert("relfrozenxid", CellValue::Int(0));
    row.insert("relminmxid", CellValue::Int(0));
    row.insert("relnamespace", CellValue::of_int(namespace_oid));
    row.insert("relname", CellValue::Text(def.index_name.clone()));
    row.insert("oid", CellValue::of_int(def.index_oid));
    row
}

/// The row of an index in `pg_index`: of a plain index on columns.
pub open spec fn pg_index_row(def: IndexView) -> RowView {
    Map::empty()
        .insert("indexrelid"@, CellView::Int(def.index_oid as i64))
        .insert("indrelid"@, CellView::Int(def.table_oid as i64))
        .insert("indnatts"@, CellView::Int(count_of(def.key_attnums.len()) as i64))
        .insert("indnkeyatts"@, CellView::Int(count_of(def.key_attnums.len()) as i64))
        .insert("indisunique"@, CellView::Bool(def.is_unique))
        .insert("indnullsnotdistinct"@, CellView::Bool(false))
        .insert("indisprimary"@, CellView::Bool(def.is_primary))
        .insert("indisexclusion"@, CellView::Bool(false))
        .insert("indimmediate"@, CellView::Bool(true))
        .insert("indisclustered"@, CellView::Bool(false))
        .insert("indisvalid"@, CellView::Bool(true))
        .insert("indcheckxmin"@, CellView::Bool(false))
        .insert("indisready"@, CellView::Bool(true))
        .insert("indislive"@, CellView::Bool(true))
        .insert("indisreplident"@, CellView::Bool(false))
        .insert("indkey"@, CellView::IntList(def.key_attnums))
}

pub fn build_pg_index_row(def: &IndexDef) -> (r: Row)
    ensures
        r@ == pg_index_row(def@),
{
    let mut row = Row::new();
    row.insert("indexrelid", CellValue::of_int(def.index_oid));
    row.insert("indrelid", CellValue::of_int(def.table_oid));
    row.insert("indnatts", CellValue::of_int(to_count(def.key_attnums.len())));
    row.insert("indnkeyatts", CellValue::of_int(to_count(def.key_attnums.len())));
    row.insert("indisunique", CellValue::Bool(def.is_unique));
    row.insert("indnullsnotdistinct", CellValue::Bool(false));
    row.insert("indisprimary", CellValue::Bool(def.is_primary));
    row.insert("indisexclusion", CellValue::Bool(false));
    row.insert("indimmediate", CellValue::Bool(true));
    row.insert("indisclustered", CellValue::Bool(false));
    row.insert("indisvalid", CellValue::Bool(true));
    row.insert("indcheckxmin", CellValue::Bool(false));
    row.insert("indisready", CellValue::Bool(true));
    row.insert("indislive", CellValue::Bool(true));
    row.insert("indisreplident", CellValue::Bool(false));
    row.insert("indkey", CellValue::IntList(copy_ints(&def.key_attnums)));
    row
}

/// The row of a constraint in `pg_constraint`. What only a foreign key has is zero, null or
/// blank for other constraints.
pub open spec fn pg_constraint_row(def: ConstraintView) -> RowView {
    let own = Map::empty()
        .insert("connamespace"@, CellView::Int(def.namespace_oid as i64))
        .insert("contype"@, CellView::Text(contype_of(def.kind)))
        .insert("condeferrable"@, CellView::Bool(false))
        .insert("condeferred"@, CellView::Bool(false))
        .insert("convalidated"@, CellView::Bool(true))
        .insert("contypid"@, CellView::Int(0))
        .insert("conindid"@, CellView::Int(def.index_oid as i64))
        .insert("conparentid"@, CellView::Int(0))
        .insert("conkey"@, CellView::IntList(def.key_attnums))
        .insert("conislocal"@, CellView::Bool(true))
        .insert("coninhcount"@, CellView::Int(0))
        .insert("connoinherit"@, CellView::Bool(false));
    let full = if def.kind == ConstraintKind::ForeignKey {
        own
            .insert("confrelid"@, CellView::Int(def.referenced_table_oid as i64))
            .insert("confkey"@, CellView::IntList(def.referenced_key_attnums))
            .insert("confupdtype"@, CellView::Text(action_code(def.on_update)))
            .insert("confdeltype"@, CellView::Text(action_code(def.on_delete)))
            .insert("confmatchtype"@, CellView::Text(match_code(def.match_type)))
    } else {
        own
            .insert("confrelid"@, CellView::Int(0))
            .insert("confkey"@, CellView::Null)
            .insert("confupdtype"@, CellView::Text(" "@))
            .insert("confdeltype"@, CellView::Text(" "@))
            .insert("confmatchtype"@, CellView::Text(" "@))
    };
    full
        .insert("conrelid"@, CellView::Int(def.table_oid as i64))
        .insert("conname"@, CellView::Text(def.name))
        .insert("oid"@, CellView::Int(def.oid as i64))
}

pub fn build_pg_constraint_row(def: &ConstraintDef) -> (r: Row)
    ensures
        r@ == pg_constraint_row(def@),
{
    let mut row = Row::new();
    row.insert("connamespace", CellValue::of_int(def.namespace_oid));
    row.insert("contype", CellValue::of_text(def.kind.contype()));
    row.insert("condeferrable", CellValue::Bool(false));
    row.insert("condeferred", CellValue::Bool(false));
    row.insert("convalidated", CellValue::Bool(true));
    row.insert("contypid", CellValue::Int(0));
    row.insert("conindid", CellValue::of_int(def.index_oid));
    row.insert("conparentid", CellValue::Int(0));
    row.insert("conkey", CellValue::IntList(copy_ints(&def.key_attnums)));
    row.insert("conislocal", CellValue::Bool(true));
    row.insert("coninhcount", CellValue::Int(0));
    row.insert("connoinherit", CellValue::Bool(false));
    if def.kind == ConstraintKind::ForeignKey {
        row.insert("confrelid", CellValue::of_int(def.referenced_table_oid));
        row.insert("confkey", CellValue::IntList(copy_ints(&def.referenced_key_attnums)));
        row.insert("confupdtype", CellValue::of_text(def.on_update.code()));
        row.insert("confdeltype", CellValue::of_text(def.on_delete.code()));
        row.insert("confmatchtype", CellValue::of_text(def.match_type.code()));
    } else {
        row.insert("confrelid", CellValue::Int(0));
        row.insert("confkey", CellValue::Null);
        row.insert("confupdtype", CellValue::of_text(" "));
        row.insert("confdeltype", CellValue::of_text(" "));
        row.insert("confmatchtype", CellValue::of_text(" "));
    }
    row.insert("conrelid", CellValue::of_int(def.table_oid));
    row.insert("conname", CellValue::Text(def.name.clone()));
    row.insert("oid", CellValue::of_int(def.oid));
    row
}

/// The row of the row type of a relation in `pg_type`.
pub open spec fn pg_type_row(def: RelationView, namespace_oid: i32) -> RowView {
    Map::empty()
        .insert("typname"@, CellView::Text(def.name))
        .insert("typnamespace"@, CellView::Int(namespace_oid as i64))
        .insert("typlen"@, CellView::Int(-1i64))
        .insert("typtype"@, CellView::Text("c"@))
        .insert("typcategory"@, CellView::Text("C"@))
        .insert("typbyval"@, CellView::Bool(false))
        .insert("typalign"@, CellView::Text("d"@))
        .insert("typstorage"@, CellView::Text("x"@))
        .insert("typisdefined"@, CellView::Bool(true))
        .insert("typispreferred"@, CellView::Bool(false))
        .insert("typnotnull"@, CellView::Bool(false))
        .insert("typelem"@, CellView::Int(0))
        .insert("typarray"@, CellView::Int(0))
        .insert("typbasetype"@, CellView::Int(0))
        .insert("typtypmod"@, CellView::Int(-1i64))
        .insert("typndims"@, CellView::Int(0))
        .insert("typinput"@, CellView::Text("record_in"@))
        .insert("typoutput"@, CellView::Text("record_out"@))
        .insert("typreceive"@, CellView::Text("record_recv"@))
        .insert("typsend"@, CellView::Text("record_send"@))
        .insert("typdelim"@, CellView::Text(","@))
        .insert("typrelid"@, CellView::Int(def.oid as i64))
        .insert("oid"@, CellView::Int(def.reltype_oid as i64))
}

pub fn build_pg_type_rowtype_row(def: &RelationDef, namespace_oid: i32) -> (r: Row)
    ensures
        r@ == pg_type_row(def@, namespace_oid),
{
    let mut row = Row::new();
    row.insert("typname", CellValue::Text(def.name.clone()));
    row.insert("typnamespace", CellValue::of_int(namespace_oid));
    row.insert("typlen", CellValue::Int(-1));
    row.insert("typtype", CellValue::of_text("c"));
    row.insert("typcategory", CellValue::of_text("C"));
    row.insert("typbyval", CellValue::Bool(false));
    row.insert("typalign", CellValue::of_text("d"));
    row.insert("typstorage", CellValue::of_text("x"));
    row.insert("typisdefined", CellValue::Bool(true));
    row.insert("typispreferred", CellValue::Bool(false));
    row.insert("typnotnull", CellValue::Bool(false));
    row.insert("typelem", CellValue::Int(0));
    row.insert("typarray", CellValue::Int(0));
    row.insert("typbasetype", CellValue::Int(0));
    row.insert("typtypmod", CellValue::Int(-1));
    row.insert("typndims", CellValue::Int(0));
    row.insert("typinput", CellValue::of_text("record_in"));
    row.insert("typoutput", CellValue::of_text("record_out"));
    row.insert("typreceive", CellValue::of_text("record_recv"));
    row.insert("typsend", CellValue::of_text("record_send"));
    row.insert("typdelim", CellValue::of_text(","));
    row.insert("typrelid", CellValue::of_int(def.oid));
    row.insert("oid", CellValue::of_int(def.reltype_oid));
    row
}

/// The row of a column in `pg_attribute`: of the relation with the OID `attrelid`, with the
/// number `attnum`.
pub open spec fn pg_attribute_row(attrelid: i32, col: ColumnView, attnum: i32) -> RowView {
    Map::empty()
        .insert("attname"@, CellView::Text(col.name))
        .insert("atttypid"@, CellView::Int(col.type_oid as i64))
        .insert("attnum"@, CellView::Int(attnum as i64))
        .insert("atttypmod"@, CellView::Int(-1i64))
        .insert("attnotnull"@, CellView::Bool(!col.nullable))
        .insert("atthasdef"@, CellView::Bool(col.has_default))
        .insert("attisdropped"@, CellView::Bool(false))
        .insert("attlen"@, CellView::Int(type_storage(col.type_oid).0 as i64))
        .insert("attbyval"@, CellView::Bool(type_storage(col.type_oid).1))
        .insert("attalign"@, CellView::Text(type_storage(col.type_oid).2))
        .insert("attstorage"@, CellView::Text(type_storage(col.type_oid).3))
        .insert("attcollation"@, CellView::Int(type_collation(col.type_oid) as i64))
        .insert("attndims"@, CellView::Int(0))
        .insert("attcacheoff"@, CellView::Int(-1i64))
        .insert("attislocal"@, CellView::Bool(true))
        .insert("attinhcount"@, CellView::Int(0))
        .insert("attstattarget"@, CellView::Int(-1i64))
        .insert("attidentity"@, CellView::Text(""@))
        .insert("attgenerated"@, CellView::Text(""@))
        .insert("attcompression"@, CellView::Text(""@))
        .insert("atthasmissing"@, CellView::Bool(false))
        .insert("attrelid"@, CellView::Int(attrelid as i64))
}

fn build_pg_attribute_row(attrelid: i32, col: &ColumnSpec, attnum: i32) -> (r: Row)
    ensures
        r@ == pg_attribute_row(attrelid, col@, attnum),
{
    let storage = column_type_storage(col.type_oid);
    let mut row = Row::new();
    row.insert("attname", CellValue::Text(col.name.clone()));
    row.insert("atttypid", CellValue::of_int(col.type_oid));
    row.insert("attnum", CellValue::of_int(attnum));
    row.insert("atttypmod", CellValue::Int(-1));
    row.insert("attnotnull", CellValue::Bool(!col.nullable));
    row.insert("atthasdef", CellValue::Bool(col.has_default));
    row.insert("attisdropped", CellValue::Bool(false));
    row.insert("attlen", CellValue::of_int(storage.length));
    row.insert("attbyval", CellValue::Bool(storage.by_value));
    row.insert("attalign", CellValue::of_text(storage.align));
    row.insert("attstorage", CellValue::of_text(storage.storage));
    row.insert("attcollation", CellValue::of_int(column_collation(col.type_oid)));
    row.insert("attndims", CellValue::Int(0));
    row.insert("attcacheoff", CellValue::Int(-1));
    row.insert("attislocal", CellValue::Bool(true));
    row.insert("attinhcount", CellValue::Int(0));
    row.insert("attstattarget", CellValue::Int(-1));
    row.insert("attidentity", CellValue::of_text(""));
    row.insert("attgenerated", CellValue::of_text(""));
    row.insert("attcompression", CellValue::of_text(""));
    row.insert("atthasmissing", CellValue::Bool(false));
    row.insert("attrelid", CellValue::of_int(attrelid));
    row
}

/// The rows of the columns of a relation in `pg_attribute`, numbered from one on.
pub open spec fn pg_attribute_rows(attrelid: i32, columns: Seq<ColumnView>) -> Seq<RowView> {
    Seq::new(
        columns.len(),
        |i: int| pg_attribute_row(attrelid, columns[i], count_of((i + 1) as nat)),
    )
}

pub fn build_pg_attribute_rows(attrelid: i32, columns: &Vec<ColumnSpec>) -> (r: Vec<Row>)
    ensures
        rows_view(r@) == pg_attribute_rows(attrelid, columns_view(columns@)),
{
    let ghost goal = pg_attribute_rows(attrelid, columns_view(columns@));
    let mut rows = no_rows();
    let mut i: usize = 0;
    assert(goal.take(0) =~= Seq::empty());
    while i < columns.len()
        invariant
            i <= columns@.len(),
            goal == pg_attribute_rows(attrelid, columns_view(columns@)),
            rows_view(rows@) == goal.take(i as int),
        decreases columns@.len() - i,
    {
        push_row(&mut rows, build_pg_attribute_row(attrelid, &columns[i], to_count(i + 1)));
        i = i + 1;
        assert(goal.take(i as int) =~= goal.take(i - 1).push(goal[i - 1]));
    }
    assert(goal.take(i as int) =~= goal);
    rows
}

/// The row of `pg_attrdef` that says that a column has a default.
pub open spec fn pg_attrdef_row(oid: i32, adrelid: i32, adnum: i32) -> RowView {
    Map::empty()
        .insert("adnum"@, CellView::Int(adnum as i64))
        .insert("adbin"@, CellView::Null)
        .insert("adrelid"@, CellView::Int(adrelid as i64))
        .insert("oid"@, CellView::Int(oid as i64))
}

pub fn build_pg_attrdef_row(oid: i32, adrelid: i32, adnum: i32) -> (r: Row)
    ensures
        r@ == pg_attrdef_row(oid, adrelid, adnum),
{
    let mut row = Row::new();
    row.insert("adnum", CellValue::of_int(adnum));
    row.insert("adbin", CellValue::Null);
    row.insert("adrelid", CellValue::of_int(adrelid));
    row.insert("oid", CellValue::of_int(oid));
    row
}

/// The row of a relation in `information_schema.tables`.
pub open spec fn info_tables_row(
    catalog: Seq<char>,
    schema: Seq<char>,
    def: RelationView,
) -> RowView {
    Map::empty()
        .insert("table_catalog"@, CellView::Text(catalog))
        .insert("table_schema"@, CellView::Text(schema))
        .insert("table_name"@, CellView::Text(def.name))
        .insert("table_type"@, CellView::Text(table_type_of(def.kind)))
        .insert("is_insertable_into"@, CellView::Text("YES"@))
        .insert("is_typed"@, CellView::Text("NO"@))
}

pub fn build_info_tables_row(catalog: &str, schema: &str, def: &RelationDef) -> (r: Row)
    ensures
        r@ == info_tables_row(catalog@, schema@, def@),
{
    let mut row = Row::new();
    row.insert("table_catalog", CellValue::of_text(catalog));
    row.insert("table_schema", CellValue::of_text(schema));
    row.insert("table_name", CellValue::Text(def.name.clone()));
    row.insert("table_type", CellValue::of_text(def.kind.table_type()));
    row.insert("is_insertable_into", CellValue::of_text("YES"));
    row.insert("is_typed", CellValue::of_text("NO"));
    row
}

/// The row of a column in `information_schema.columns`.
pub open spec fn info_columns_row(
    catalog: Seq<char>,
    schema: Seq<char>,
    relation: Seq<char>,
    col: ColumnView,
    ordinal: i32,
) -> RowView {
    Map::empty()
        .insert("table_catalog"@, CellView::Text(catalog))
        .insert("table_schema"@, CellView::Text(schema))
        .insert("table_name"@, CellView::Text(relation))
        .insert("column_name"@, CellView::Text(col.name))
        .insert("ordinal_position"@, CellView::Int(ordinal as i64))
        .insert("is_nullable"@, CellView::Text(if col.nullable { "YES"@ } else { "NO"@ }))
        .insert("data_type"@, CellView::Text(type_names(col.type_oid).0))
        .insert("udt_catalog"@, CellView::Text(catalog))
        .insert("udt_schema"@, CellView::Text("pg_catalog"@))
        .insert("udt_name"@, CellView::Text(type_names(col.type_oid).1))
        .insert("dtd_identifier"@, CellView::Text(signed(ordinal as int)))
        .insert("is_self_referencing"@, CellView::Text("NO"@))
        .insert("is_identity"@, CellView::Text("NO"@))
        .insert("is_generated"@, CellView::Text("NEVER"@))
        .insert("is_updatable"@, CellView::Text("YES"@))
}

fn build_info_columns_row(
    catalog: &str,
    schema: &str,
    relation: &str,
    col: &ColumnSpec,
    ordinal: i32,
) -> (r: Row)
    ensures
        r@ == info_columns_row(catalog@, schema@, relation@, col@, ordinal),
{
    let names = oid_to_type_names(col.type_oid);
    let mut row = Row::new();
    row.insert("table_catalog", CellValue::of_text(catalog));
    row.insert("table_schema", CellValue::of_text(schema));
    row.insert("table_name", CellValue::of_text(relation));
    row.insert("column_name", CellValue::Text(col.name.clone()));
    row.insert("ordinal_position", CellValue::of_int(ordinal));
    row.insert("is_nullable", CellValue::of_text(if col.nullable { "YES" } else { "NO" }));
    row.insert("data_type", CellValue::Text(names.0));
    row.insert("udt_catalog", CellValue::of_text(catalog));
    row.insert("udt_schema", CellValue::of_text("pg_catalog"));
    row.insert("udt_name", CellValue::Text(names.1));
    row.insert("dtd_identifier", CellValue::Text(signed_text(ordinal as i64)));
    row.insert("is_self_referencing", CellValue::of_text("NO"));
    row.insert("is_identity", CellValue::of_text("NO"));
    row.insert("is_generated", CellValue::of_text("NEVER"));
    row.insert("is_updatable", CellValue::of_text("YES"));
    row
}

/// The rows of the columns of a relation in `information_schema.columns`, numbered from one
/// on.
pub open spec fn info_columns_rows(
    catalog: Seq<char>,
    schema: Seq<char>,
    relation: Seq<char>,
    columns: Seq<ColumnView>,
) -> Seq<RowView> {
    Seq::new(
        columns.len(),
        |i: int| info_columns_row(catalog, schema, relation, columns[i], count_of((i + 1) as nat)),
    )
}

pub fn build_info_columns_rows(
    catalog: &str,
    schema: &str,
    relation: &str,
    columns: &Vec<ColumnSpec>,
) -> (r: Vec<Row>)
    ensures
        rows_view(r@) == info_columns_rows(catalog@, schema@, relation@, columns_view(columns@)),
{
    let ghost goal = info_columns_rows(catalog@, schema@, relation@, columns_view(columns@));
    let mut rows = no_rows();
    let mut i: usize = 0;
    assert(goal.take(0) =~= Seq::empty());
    while i < columns.len()
        invariant
            i <= columns@.len(),
            goal == info_columns_rows(catalog@, schema@, relation@, columns_view(columns@)),
            rows_view(rows@) == goal.take(i as int),
        decreases columns@.len() - i,
    {
        push_row(
            &mut rows,
            build_info_columns_row(catalog, schema, relation, &columns[i], to_count(i + 1)),
        );
        i = i + 1;
        assert(goal.take(i as int) =~= goal.take(i - 1).push(goal[i - 1]));
    }
    assert(goal.take(i as int) =~= goal);
    rows
}

/// The row of a schema in `information_schema.schemata`.
pub open spec fn info_schemata_row(catalog: Seq<char>, def: SchemaView) -> RowView {
    Map::empty()
        .insert("catalog_name"@, CellView::Text(catalog))
        .insert("schema_name"@, CellView::Text(def.name))
        .insert("schema_owner"@, CellView::Null)
}

pub fn build_info_schemata_row(catalog: &str, def: &SchemaDef) -> (r: Row)
    ensures
        r@ == info_schemata_row(catalog@, def@),
{
    let mut row = Row::new();
    row.insert("catalog_name", CellValue::of_text(catalog));
    row.insert("schema_name", CellValue::Text(def.name.clone()));
    row.insert("schema_owner", CellValue::Null);
    row
}

} // verus!
