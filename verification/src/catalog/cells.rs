//! What the rows of the catalog say of what they describe, cell by cell.
use super::defs::{
    ColumnView, ConfigSettingDef, ConstraintView, DatabaseDef, IndexView, RelationView, SchemaView,
    SettingDef,
};
use super::row::{cell_at, CellView};
use super::rows::{
    index_pg_class_row, info_columns_row, info_columns_rows, info_schemata_row, info_tables_row,
    pg_attrdef_row, pg_attribute_row, pg_attribute_rows, pg_class_row, pg_config_row,
    pg_constraint_row, pg_database_row, pg_index_row, pg_namespace_row, pg_settings_row,
    pg_type_row,
};
use crate::text::views;
use vstd::prelude::*;

verus! {

/// The row of a column in `pg_attribute` has its name, the OID of its type and its number, says
/// `NOT NULL` exactly of a column that is not nullable, and whether there is a default.
pub proof fn attribute_describes_column(relid: i32, col: ColumnView, attnum: i32)
    ensures
        cell_at(pg_attribute_row(relid, col, attnum), "attname"@) == CellView::Text(col.name),
        cell_at(pg_attribute_row(relid, col, attnum), "atttypid"@)
            == CellView::Int(col.type_oid as i64),
        cell_at(pg_attribute_row(relid, col, attnum), "attnum"@) == CellView::Int(attnum as i64),
        cell_at(pg_attribute_row(relid, col, attnum), "attnotnull"@)
            == CellView::Bool(!col.nullable),
        cell_at(pg_attribute_row(relid, col, attnum), "atthasdef"@)
            == CellView::Bool(col.has_default),
        cell_at(pg_attribute_row(relid, col, attnum), "attisdropped"@) == CellView::Bool(false),
        cell_at(pg_attribute_row(relid, col, attnum), "attrelid"@) == CellView::Int(relid as i64),
        cell_at(pg_attribute_row(relid, col, attnum), "atttypmod"@) == CellView::Int(-1i64),
        cell_at(pg_attribute_row(relid, col, attnum), "attndims"@) == CellView::Int(0),
        cell_at(pg_attribute_row(relid, col, attnum), "attcacheoff"@) == CellView::Int(-1i64),
        cell_at(pg_attribute_row(relid, col, attnum), "attislocal"@) == CellView::Bool(true),
        cell_at(pg_attribute_row(relid, col, attnum), "attinhcount"@) == CellView::Int(0),
        cell_at(pg_attribute_row(relid, col, attnum), "attstattarget"@) == CellView::Int(-1i64),
        cell_at(pg_attribute_row(relid, col, attnum), "attidentity"@) == CellView::Text(""@),
        cell_at(pg_attribute_row(relid, col, attnum), "attgenerated"@) == CellView::Text(""@),
        cell_at(pg_attribute_row(relid, col, attnum), "attcompression"@) == CellView::Text(""@),
        cell_at(pg_attribute_row(relid, col, attnum), "atthasmissing"@) == CellView::Bool(false),
{
    reveal_strlit("attname");
    reveal_strlit("atttypid");
    reveal_strlit("attnum");
    reveal_strlit("atttypmod");
    reveal_strlit("attnotnull");
    reveal_strlit("atthasdef");
    reveal_strlit("attisdropped");
    reveal_strlit("attlen");
    reveal_strlit("attbyval");
    reveal_strlit("attalign");
    reveal_strlit("attstorage");
    reveal_strlit("attcollation");
    reveal_strlit("attndims");
    reveal_strlit("attcacheoff");
    reveal_strlit("attislocal");
    reveal_strlit("attinhcount");
    reveal_strlit("attstattarget");
    reveal_strlit("attidentity");
    reveal_strlit("attgenerated");
    reveal_strlit("attcompression");
    reveal_strlit("atthasmissing");
    reveal_strlit("attrelid");
    assert("attname"@.len() == 7);
    assert("atttypid"@.len() == 8);
    assert("attnum"@.len() == 6);
    assert("atttypmod"@.len() == 9);
    assert("attnotnull"@.len() == 10);
    assert("atthasdef"@.len() == 9);
    assert("attisdropped"@.len() == 12);
    assert("attlen"@.len() == 6);
    assert("attbyval"@.len() == 8);
    assert("attalign"@.len() == 8);
    assert("attstorage"@.len() == 10);
    assert("attcollation"@.len() == 12);
    assert("attndims"@.len() == 8);
    assert("attcacheoff"@.len() == 11);
    assert("attislocal"@.len() == 10);
    assert("attinhcount"@.len() == 11);
    assert("attstattarget"@.len() == 13);
    assert("attidentity"@.len() == 11);
    assert("attgenerated"@.len() == 12);
    assert("attcompression"@.len() == 14);
    assert("atthasmissing"@.len() == 13);
    assert("attrelid"@.len() == 8);
    assert("atttypid"@[3] == 't');
    assert("attbyval"@[3] == 'b');
    assert("attalign"@[3] == 'a');
    assert("attndims"@[3] == 'n');
    assert("attrelid"@[3] == 'r');
    assert("attnum"@[3] == 'n');
    assert("attlen"@[3] == 'l');
    assert("atttypmod"@[3] == 't');
    assert("atthasdef"@[3] == 'h');
    assert("attnotnull"@[3] == 'n');
    assert("attstorage"@[3] == 's');
    assert("attislocal"@[3] == 'i');
    assert("attisdropped"@[3] == 'i');
    assert("attcollation"@[3] == 'c');
    assert("attgenerated"@[3] == 'g');
    assert("attcacheoff"@[3] == 'c');
    assert("attinhcount"@[3] == 'i');
    assert("attidentity"@[3] == 'i');
    assert("attinhcount"@[4] == 'n');
    assert("attidentity"@[4] == 'd');
    assert("attstattarget"@[3] == 's');
    assert("atthasmissing"@[3] == 'h');
}

/// Whether values of a type all have one length: truth values, `"char"`, numbers, OIDs, dates and
/// instants.
pub open spec fn is_of_fixed_length(type_oid: i32) -> bool {
    ||| type_oid == 16 || type_oid == 18
    ||| type_oid == 20 || type_oid == 21 || type_oid == 23 || type_oid == 26
    ||| type_oid == 700 || type_oid == 701
    ||| type_oid == 1082 || type_oid == 1114 || type_oid == 1184
}

/// The row of a column says how its type is stored: values of a fixed length are passed by value
/// and stored plainly, aligned by that length, all others are of variable length, and texts have
/// the default collation.
pub proof fn attribute_describes_storage(relid: i32, col: ColumnView, attnum: i32)
    ensures
        col.type_oid == 16
            ==> cell_at(pg_attribute_row(relid, col, attnum), "attlen"@) == CellView::Int(1),
        col.type_oid == 16
            ==> cell_at(pg_attribute_row(relid, col, attnum), "attalign"@) == CellView::Text("c"@),
        col.type_oid == 18
            ==> cell_at(pg_attribute_row(relid, col, attnum), "attlen"@) == CellView::Int(1),
        col.type_oid == 18
            ==> cell_at(pg_attribute_row(relid, col, attnum), "attalign"@) == CellView::Text("c"@),
        col.type_oid == 21
            ==> cell_at(pg_attribute_row(relid, col, attnum), "attlen"@) == CellView::Int(2),
        col.type_oid == 21
            ==> cell_at(pg_attribute_row(relid, col, attnum), "attalign"@) == CellView::Text("s"@),
        col.type_oid == 23
            ==> cell_at(pg_attribute_row(relid, col, attnum), "attlen"@) == CellView::Int(4),
        col.type_oid == 23
            ==> cell_at(pg_attribute_row(relid, col, attnum), "attalign"@) == CellView::Text("i"@),
        col.type_oid == 26
            ==> cell_at(pg_attribute_row(relid, col, attnum), "attlen"@) == CellView::Int(4),
        col.type_oid == 26
            ==> cell_at(pg_attribute_row(relid, col, attnum), "attalign"@) == CellView::Text("i"@),
        col.type_oid == 700
            ==> cell_at(pg_attribute_row(relid, col, attnum), "attlen"@) == CellView::Int(4),
        col.type_oid == 700
            ==> cell_at(pg_attribute_row(relid, col, attnum), "attalign"@) == CellView::Text("i"@),
        col.type_oid == 1082
            ==> cell_at(pg_attribute_row(relid, col, attnum), "attlen"@) == CellView::Int(4),
        col.type_oid == 1082
            ==> cell_at(pg_attribute_row(relid, col, attnum), "attalign"@) == CellView::Text("i"@),
        col.type_oid == 20
            ==> cell_at(pg_attribute_row(relid, col, attnum), "attlen"@) == CellView::Int(8),
        col.type_oid == 20
            ==> cell_at(pg_attribute_row(relid, col, attnum), "attalign"@) == CellView::Text("d"@),
        col.type_oid == 701
            ==> cell_at(pg_attribute_row(relid, col, attnum), "attlen"@) == CellView::Int(8),
        col.type_oid == 701
            ==> cell_at(pg_attribute_row(relid, col, attnum), "attalign"@) == CellView::Text("d"@),
        col.type_oid == 1114
            ==> cell_at(pg_attribute_row(relid, col, attnum), "attlen"@) == CellView::Int(8),
        col.type_oid == 1114
            ==> cell_at(pg_attribute_row(relid, col, attnum), "attalign"@) == CellView::Text("d"@),
        col.type_oid == 1184
            ==> cell_at(pg_attribute_row(relid, col, attnum), "attlen"@) == CellView::Int(8),
        col.type_oid == 1184
            ==> cell_at(pg_attribute_row(relid, col, attnum), "attalign"@) == CellView::Text("d"@),
        cell_at(pg_attribute_row(relid, col, attnum), "attbyval"@)
            == CellView::Bool(is_of_fixed_length(col.type_oid)),
        cell_at(pg_attribute_row(relid, col, attnum), "attstorage"@)
            == CellView::Text(if is_of_fixed_length(col.type_oid) {
            "p"@
        } else if col.type_oid == 1700 {
            "m"@
        } else {
            "x"@
        }),
        !is_of_fixed_length(col.type_oid)
            ==> cell_at(pg_attribute_row(relid, col, attnum), "attlen"@) == CellView::Int(-1i64),
        !is_of_fixed_length(col.type_oid)
            ==> cell_at(pg_attribute_row(relid, col, attnum), "attalign"@) == CellView::Text("i"@),
        col.type_oid == 25 || col.type_oid == 1042 || col.type_oid == 1043
            ==> cell_at(pg_attribute_row(relid, col, attnum), "attcollation"@)
                == CellView::Int(100),
        col.type_oid != 25 && col.type_oid != 1042 && col.type_oid != 1043
            ==> cell_at(pg_attribute_row(relid, col, attnum), "attcollation"@) == CellView::Int(0),
{
    reveal_strlit("attname");
    reveal_strlit("atttypid");
    reveal_strlit("attnum");
    reveal_strlit("atttypmod");
    reveal_strlit("attnotnull");
    reveal_strlit("atthasdef");
    reveal_strlit("attisdropped");
    reveal_strlit("attlen");
    reveal_strlit("attbyval");
    reveal_strlit("attalign");
    reveal_strlit("attstorage");
    reveal_strlit("attcollation");
    reveal_strlit("attndims");
    reveal_strlit("attcacheoff");
    reveal_strlit("attislocal");
    reveal_strlit("attinhcount");
    reveal_strlit("attstattarget");
    reveal_strlit("attidentity");
    reveal_strlit("attgenerated");
    reveal_strlit("attcompression");
    reveal_strlit("atthasmissing");
    reveal_strlit("attrelid");
    assert("attname"@.len() == 7);
    assert("atttypid"@.len() == 8);
    assert("attnum"@.len() == 6);
    assert("atttypmod"@.len() == 9);
    assert("attnotnull"@.len() == 10);
    assert("atthasdef"@.len() == 9);
    assert("attisdropped"@.len() == 12);
    assert("attlen"@.len() == 6);
    assert("attbyval"@.len() == 8);
    assert("attalign"@.len() == 8);
    assert("attstorage"@.len() == 10);
    assert("attcollation"@.len() == 12);
    assert("attndims"@.len() == 8);
    assert("attcacheoff"@.len() == 11);
    assert("attislocal"@.len() == 10);
    assert("attinhcount"@.len() == 11);
    assert("attstattarget"@.len() == 13);
    assert("attidentity"@.len() == 11);
    assert("attgenerated"@.len() == 12);
    assert("attcompression"@.len() == 14);
    assert("atthasmissing"@.len() == 13);
    assert("attrelid"@.len() == 8);
    assert("atttypid"@[3] == 't');
    assert("attbyval"@[3] == 'b');
    assert("attalign"@[3] == 'a');
    assert("attndims"@[3] == 'n');
    assert("attrelid"@[3] == 'r');
    assert("attnum"@[3] == 'n');
    assert("attlen"@[3] == 'l');
    assert("atttypmod"@[3] == 't');
    assert("atthasdef"@[3] == 'h');
    assert("attnotnull"@[3] == 'n');
    assert("attstorage"@[3] == 's');
    assert("attislocal"@[3] == 'i');
    assert("attisdropped"@[3] == 'i');
    assert("attcollation"@[3] == 'c');
    assert("attgenerated"@[3] == 'g');
    assert("attcacheoff"@[3] == 'c');
    assert("attinhcount"@[3] == 'i');
    assert("attidentity"@[3] == 'i');
    assert("attinhcount"@[4] == 'n');
    assert("attidentity"@[4] == 'd');
    assert("attstattarget"@[3] == 's');
    assert("atthasmissing"@[3] == 'h');
}

/// The columns of a relation have a row each in `pg_attribute`, in order and numbered from one,
/// with their own names and types.
pub proof fn attributes_describe_columns(relid: i32, columns: Seq<ColumnView>, i: int)
    requires
        0 <= i < columns.len() <= i32::MAX,
    ensures
        pg_attribute_rows(relid, columns).len() == columns.len(),
        cell_at(pg_attribute_rows(relid, columns)[i], "attrelid"@) == CellView::Int(relid as i64),
        cell_at(pg_attribute_rows(relid, columns)[i], "attnum"@) == CellView::Int((i + 1) as i64),
        cell_at(pg_attribute_rows(relid, columns)[i], "attname"@) == CellView::Text(
            columns[i].name,
        ),
        cell_at(pg_attribute_rows(relid, columns)[i], "atttypid"@) == CellView::Int(
            columns[i].type_oid as i64,
        ),
        cell_at(pg_attribute_rows(relid, columns)[i], "attnotnull"@) == CellView::Bool(
            !columns[i].nullable,
        ),
        cell_at(pg_attribute_rows(relid, columns)[i], "atthasdef"@) == CellView::Bool(
            columns[i].has_default,
        ),
{
    attribute_describes_column(relid, columns[i], (i + 1) as i32);
}

/// The row of a relation in `pg_class` has its name, its OID, its schema, its row type, its kind
/// and the number of its columns, and says what it has.
pub proof fn class_row_describes_relation(def: RelationView, schema_oid: i32, natts: i32)
    ensures
        cell_at(pg_class_row(def, schema_oid, natts), "oid"@) == CellView::Int(def.oid as i64),
        cell_at(pg_class_row(def, schema_oid, natts), "relname"@) == CellView::Text(def.name),
        cell_at(pg_class_row(def, schema_oid, natts), "relnamespace"@)
            == CellView::Int(schema_oid as i64),
        cell_at(pg_class_row(def, schema_oid, natts), "reltype"@)
            == CellView::Int(def.reltype_oid as i64),
        cell_at(pg_class_row(def, schema_oid, natts), "relnatts"@) == CellView::Int(natts as i64),
        cell_at(pg_class_row(def, schema_oid, natts), "relfilenode"@)
            == CellView::Int(def.oid as i64),
        def.kind is Table
            ==> cell_at(pg_class_row(def, schema_oid, natts), "relkind"@) == CellView::Text("r"@),
        def.kind is View
            ==> cell_at(pg_class_row(def, schema_oid, natts), "relkind"@) == CellView::Text("v"@),
        def.kind is MaterializedView
            ==> cell_at(pg_class_row(def, schema_oid, natts), "relkind"@) == CellView::Text("m"@),
        cell_at(pg_class_row(def, schema_oid, natts), "relam"@) == CellView::Int(2),
        def.owner_oid is Some ==> cell_at(pg_class_row(def, schema_oid, natts), "relowner"@)
            == CellView::Int(def.owner_oid->0 as i64),
        def.owner_oid is None
            ==> cell_at(pg_class_row(def, schema_oid, natts), "relowner"@) == CellView::Null,
        cell_at(pg_class_row(def, schema_oid, natts), "relhasindex"@)
            == CellView::Bool(def.has_index),
        cell_at(pg_class_row(def, schema_oid, natts), "relhasrules"@)
            == CellView::Bool(def.has_rules),
        cell_at(pg_class_row(def, schema_oid, natts), "relhastriggers"@)
            == CellView::Bool(def.has_triggers),
        cell_at(pg_class_row(def, schema_oid, natts), "relrowsecurity"@)
            == CellView::Bool(def.row_security),
        cell_at(pg_class_row(def, schema_oid, natts), "relreplident"@) == CellView::Text("d"@),
        cell_at(pg_class_row(def, schema_oid, natts), "relispartition"@) == CellView::Bool(false),
        cell_at(pg_class_row(def, schema_oid, natts), "relispopulated"@) == CellView::Bool(true),
        cell_at(pg_class_row(def, schema_oid, natts), "relpersistence"@) == CellView::Text("p"@),
        cell_at(pg_class_row(def, schema_oid, natts), "relchecks"@) == CellView::Int(0),
        cell_at(pg_class_row(def, schema_oid, natts), "relhassubclass"@) == CellView::Bool(false),
        cell_at(pg_class_row(def, schema_oid, natts), "reltablespace"@) == CellView::Int(0),
        cell_at(pg_class_row(def, schema_oid, natts), "relpages"@) == CellView::Int(0),
        cell_at(pg_class_row(def, schema_oid, natts), "relallvisible"@) == CellView::Int(0),
        cell_at(pg_class_row(def, schema_oid, natts), "reltoastrelid"@) == CellView::Int(0),
        cell_at(pg_class_row(def, schema_oid, natts), "relfrozenxid"@) == CellView::Int(0),
        cell_at(pg_class_row(def, schema_oid, natts), "relminmxid"@) == CellView::Int(0),
        cell_at(pg_class_row(def, schema_oid, natts), "reltuples"@) == CellView::RealZero,
{
    reveal_strlit("reltype");
    reveal_strlit("relkind");
    reveal_strlit("relam");
    reveal_strlit("reltuples");
    reveal_strlit("relispartition");
    reveal_strlit("relowner");
    reveal_strlit("relhasindex");
    reveal_strlit("relhasrules");
    reveal_strlit("relhastriggers");
    reveal_strlit("relrowsecurity");
    reveal_strlit("relispopulated");
    reveal_strlit("relpersistence");
    reveal_strlit("relreplident");
    reveal_strlit("relnatts");
    reveal_strlit("relchecks");
    reveal_strlit("relhassubclass");
    reveal_strlit("relfilenode");
    reveal_strlit("reltablespace");
    reveal_strlit("relpages");
    reveal_strlit("relallvisible");
    reveal_strlit("reltoastrelid");
    reveal_strlit("relfrozenxid");
    reveal_strlit("relminmxid");
    reveal_strlit("relnamespace");
    reveal_strlit("relname");
    reveal_strlit("oid");
    assert("reltype"@.len() == 7);
    assert("relkind"@.len() == 7);
    assert("relam"@.len() == 5);
    assert("reltuples"@.len() == 9);
    assert("relispartition"@.len() == 14);
    assert("relowner"@.len() == 8);
    assert("relhasindex"@.len() == 11);
    assert("relhasrules"@.len() == 11);
    assert("relhastriggers"@.len() == 14);
    assert("relrowsecurity"@.len() == 14);
    assert("relispopulated"@.len() == 14);
    assert("relpersistence"@.len() == 14);
    assert("relreplident"@.len() == 12);
    assert("relnatts"@.len() == 8);
    assert("relchecks"@.len() == 9);
    assert("relhassubclass"@.len() == 14);
    assert("relfilenode"@.len() == 11);
    assert("reltablespace"@.len() == 13);
    assert("relpages"@.len() == 8);
    assert("relallvisible"@.len() == 13);
    assert("reltoastrelid"@.len() == 13);
    assert("relfrozenxid"@.len() == 12);
    assert("relminmxid"@.len() == 10);
    assert("relnamespace"@.len() == 12);
    assert("relname"@.len() == 7);
    assert("oid"@.len() == 3);
    assert("reltype"@[3] == 't');
    assert("relkind"@[3] == 'k');
    assert("relname"@[3] == 'n');
    assert("reltuples"@[3] == 't');
    assert("relchecks"@[3] == 'c');
    assert("relispartition"@[3] == 'i');
    assert("relhastriggers"@[3] == 'h');
    assert("relrowsecurity"@[3] == 'r');
    assert("relispartition"@[6] == 'a');
    assert("relispopulated"@[6] == 'o');
    assert("relpersistence"@[3] == 'p');
    assert("relhassubclass"@[3] == 'h');
    assert("relowner"@[3] == 'o');
    assert("relnatts"@[3] == 'n');
    assert("relpages"@[3] == 'p');
    assert("relhasindex"@[6] == 'i');
    assert("relhasrules"@[6] == 'r');
    assert("relhasindex"@[3] == 'h');
    assert("relfilenode"@[3] == 'f');
    assert("relhasrules"@[3] == 'h');
    assert("relispopulated"@[3] == 'i');
    assert("relhastriggers"@[6] == 't');
    assert("relhassubclass"@[6] == 's');
    assert("relreplident"@[3] == 'r');
    assert("relfrozenxid"@[3] == 'f');
    assert("relnamespace"@[3] == 'n');
    assert("reltablespace"@[3] == 't');
    assert("relallvisible"@[3] == 'a');
    assert("reltablespace"@[4] == 'a');
    assert("reltoastrelid"@[4] == 'o');
    assert("reltoastrelid"@[3] == 't');
}

/// The row of an index in `pg_class` has its name, its OID, its schema and the number of its
/// columns; it is of the kind `i`, and has no row type.
pub proof fn class_row_describes_index(def: IndexView, schema_oid: i32)
    ensures
        cell_at(index_pg_class_row(def, schema_oid), "oid"@) == CellView::Int(def.index_oid as i64),
        cell_at(index_pg_class_row(def, schema_oid), "relname"@) == CellView::Text(def.index_name),
        cell_at(index_pg_class_row(def, schema_oid), "relnamespace"@)
            == CellView::Int(schema_oid as i64),
        cell_at(index_pg_class_row(def, schema_oid), "reltype"@) == CellView::Int(0),
        def.key_attnums.len() <= i32::MAX
            ==> cell_at(index_pg_class_row(def, schema_oid), "relnatts"@)
                == CellView::Int(def.key_attnums.len() as i64),
        cell_at(index_pg_class_row(def, schema_oid), "relfilenode"@)
            == CellView::Int(def.index_oid as i64),
        cell_at(index_pg_class_row(def, schema_oid), "relkind"@) == CellView::Text("i"@),
        cell_at(index_pg_class_row(def, schema_oid), "relam"@) == CellView::Int(403),
        cell_at(index_pg_class_row(def, schema_oid), "relowner"@) == CellView::Null,
        cell_at(index_pg_class_row(def, schema_oid), "relhasindex"@) == CellView::Bool(false),
        cell_at(index_pg_class_row(def, schema_oid), "relhasrules"@) == CellView::Bool(false),
        cell_at(index_pg_class_row(def, schema_oid), "relhastriggers"@) == CellView::Bool(false),
        cell_at(index_pg_class_row(def, schema_oid), "relrowsecurity"@) == CellView::Bool(false),
        cell_at(index_pg_class_row(def, schema_oid), "relreplident"@) == CellView::Text("n"@),
        cell_at(index_pg_class_row(def, schema_oid), "relispartition"@) == CellView::Bool(false),
        cell_at(index_pg_class_row(def, schema_oid), "relispopulated"@) == CellView::Bool(true),
        cell_at(index_pg_class_row(def, schema_oid), "relpersistence"@) == CellView::Text("p"@),
        cell_at(index_pg_class_row(def, schema_oid), "relchecks"@) == CellView::Int(0),
        cell_at(index_pg_class_row(def, schema_oid), "relhassubclass"@) == CellView::Bool(false),
        cell_at(index_pg_class_row(def, schema_oid), "reltablespace"@) == CellView::Int(0),
        cell_at(index_pg_class_row(def, schema_oid), "relpages"@) == CellView::Int(0),
        cell_at(index_pg_class_row(def, schema_oid), "relallvisible"@) == CellView::Int(0),
        cell_at(index_pg_class_row(def, schema_oid), "reltoastrelid"@) == CellView::Int(0),
        cell_at(index_pg_class_row(def, schema_oid), "relfrozenxid"@) == CellView::Int(0),
        cell_at(index_pg_class_row(def, schema_oid), "relminmxid"@) == CellView::Int(0),
        cell_at(index_pg_class_row(def, schema_oid), "reltuples"@) == CellView::RealZero,
{
    reveal_strlit("reltype");
    reveal_strlit("relkind");
    reveal_strlit("relam");
    reveal_strlit("reltuples");
    reveal_strlit("relispartition");
    reveal_strlit("relowner");
    reveal_strlit("relhasindex");
    reveal_strlit("relhasrules");
    reveal_strlit("relhastriggers");
    reveal_strlit("relrowsecurity");
    reveal_strlit("relispopulated");
    reveal_strlit("relpersistence");
    reveal_strlit("relreplident");
    reveal_strlit("relnatts");
    reveal_strlit("relchecks");
    reveal_strlit("relhassubclass");
    reveal_strlit("relfilenode");
    reveal_strlit("reltablespace");
    reveal_strlit("relpages");
    reveal_strlit("relallvisible");
    reveal_strlit("reltoastrelid");
    reveal_strlit("relfrozenxid");
    reveal_strlit("relminmxid");
    reveal_strlit("relnamespace");
    reveal_strlit("relname");
    reveal_strlit("oid");
    assert("reltype"@.len() == 7);
    assert("relkind"@.len() == 7);
    assert("relam"@.len() == 5);
    assert("reltuples"@.len() == 9);
    assert("relispartition"@.len() == 14);
    assert("relowner"@.len() == 8);
    assert("relhasindex"@.len() == 11);
    assert("relhasrules"@.len() == 11);
    assert("relhastriggers"@.len() == 14);
    assert("relrowsecurity"@.len() == 14);
    assert("relispopulated"@.len() == 14);
    assert("relpersistence"@.len() == 14);
    assert("relreplident"@.len() == 12);
    assert("relnatts"@.len() == 8);
    assert("relchecks"@.len() == 9);
    assert("relhassubclass"@.len() == 14);
    assert("relfilenode"@.len() == 11);
    assert("reltablespace"@.len() == 13);
    assert("relpages"@.len() == 8);
    assert("relallvisible"@.len() == 13);
    assert("reltoastrelid"@.len() == 13);
    assert("relfrozenxid"@.len() == 12);
    assert("relminmxid"@.len() == 10);
    assert("relnamespace"@.len() == 12);
    assert("relname"@.len() == 7);
    assert("oid"@.len() == 3);
    assert("reltype"@[3] == 't');
    assert("relkind"@[3] == 'k');
    assert("relname"@[3] == 'n');
    assert("reltuples"@[3] == 't');
    assert("relchecks"@[3] == 'c');
    assert("relispartition"@[3] == 'i');
    assert("relhastriggers"@[3] == 'h');
    assert("relrowsecurity"@[3] == 'r');
    assert("relispartition"@[6] == 'a');
    assert("relispopulated"@[6] == 'o');
    assert("relpersistence"@[3] == 'p');
    assert("relhassubclass"@[3] == 'h');
    assert("relowner"@[3] == 'o');
    assert("relnatts"@[3] == 'n');
    assert("relpages"@[3] == 'p');
    assert("relhasindex"@[6] == 'i');
    assert("relhasrules"@[6] == 'r');
    assert("relhasindex"@[3] == 'h');
    assert("relfilenode"@[3] == 'f');
    assert("relhasrules"@[3] == 'h');
    assert("relispopulated"@[3] == 'i');
    assert("relhastriggers"@[6] == 't');
    assert("relhassubclass"@[6] == 's');
    assert("relreplident"@[3] == 'r');
    assert("relfrozenxid"@[3] == 'f');
    assert("relnamespace"@[3] == 'n');
    assert("reltablespace"@[3] == 't');
    assert("relallvisible"@[3] == 'a');
    assert("reltablespace"@[4] == 'a');
    assert("reltoastrelid"@[4] == 'o');
    assert("reltoastrelid"@[3] == 't');
}

/// The row of an index in `pg_index` has its own OID, that of its table and the numbers of its
/// columns, and says whether it is unique and primary. It is valid, ready and live.
pub proof fn index_row_describes_index(def: IndexView)
    ensures
        cell_at(pg_index_row(def), "indexrelid"@) == CellView::Int(def.index_oid as i64),
        cell_at(pg_index_row(def), "indrelid"@) == CellView::Int(def.table_oid as i64),
        def.key_attnums.len() <= i32::MAX ==> cell_at(pg_index_row(def), "indnatts"@)
            == CellView::Int(def.key_attnums.len() as i64),
        def.key_attnums.len() <= i32::MAX ==> cell_at(pg_index_row(def), "indnkeyatts"@)
            == CellView::Int(def.key_attnums.len() as i64),
        cell_at(pg_index_row(def), "indkey"@) == CellView::IntList(def.key_attnums),
        cell_at(pg_index_row(def), "indisunique"@) == CellView::Bool(def.is_unique),
        cell_at(pg_index_row(def), "indisprimary"@) == CellView::Bool(def.is_primary),
        cell_at(pg_index_row(def), "indimmediate"@) == CellView::Bool(true),
        cell_at(pg_index_row(def), "indisvalid"@) == CellView::Bool(true),
        cell_at(pg_index_row(def), "indisready"@) == CellView::Bool(true),
        cell_at(pg_index_row(def), "indislive"@) == CellView::Bool(true),
        cell_at(pg_index_row(def), "indnullsnotdistinct"@) == CellView::Bool(false),
        cell_at(pg_index_row(def), "indisexclusion"@) == CellView::Bool(false),
        cell_at(pg_index_row(def), "indisclustered"@) == CellView::Bool(false),
        cell_at(pg_index_row(def), "indcheckxmin"@) == CellView::Bool(false),
        cell_at(pg_index_row(def), "indisreplident"@) == CellView::Bool(false),
{
    reveal_strlit("indexrelid");
    reveal_strlit("indrelid");
    reveal_strlit("indnatts");
    reveal_strlit("indnkeyatts");
    reveal_strlit("indisunique");
    reveal_strlit("indnullsnotdistinct");
    reveal_strlit("indisprimary");
    reveal_strlit("indisexclusion");
    reveal_strlit("indimmediate");
    reveal_strlit("indisclustered");
    reveal_strlit("indisvalid");
    reveal_strlit("indcheckxmin");
    reveal_strlit("indisready");
    reveal_strlit("indislive");
    reveal_strlit("indisreplident");
    reveal_strlit("indkey");
    assert("indexrelid"@.len() == 10);
    assert("indrelid"@.len() == 8);
    assert("indnatts"@.len() == 8);
    assert("indnkeyatts"@.len() == 11);
    assert("indisunique"@.len() == 11);
    assert("indnullsnotdistinct"@.len() == 19);
    assert("indisprimary"@.len() == 12);
    assert("indisexclusion"@.len() == 14);
    assert("indimmediate"@.len() == 12);
    assert("indisclustered"@.len() == 14);
    assert("indisvalid"@.len() == 10);
    assert("indcheckxmin"@.len() == 12);
    assert("indisready"@.len() == 10);
    assert("indislive"@.len() == 9);
    assert("indisreplident"@.len() == 14);
    assert("indkey"@.len() == 6);
    assert("indexrelid"@[3] == 'e');
    assert("indisvalid"@[3] == 'i');
    assert("indisready"@[3] == 'i');
    assert("indrelid"@[3] == 'r');
    assert("indnatts"@[3] == 'n');
    assert("indnkeyatts"@[3] == 'n');
    assert("indisunique"@[3] == 'i');
    assert("indisprimary"@[4] == 's');
    assert("indimmediate"@[4] == 'm');
    assert("indisprimary"@[3] == 'i');
    assert("indcheckxmin"@[3] == 'c');
    assert("indisexclusion"@[5] == 'e');
    assert("indisclustered"@[5] == 'c');
    assert("indisreplident"@[5] == 'r');
    assert("indimmediate"@[3] == 'i');
    assert("indisvalid"@[5] == 'v');
    assert("indisready"@[5] == 'r');
}

/// The row of a constraint in `pg_constraint` has its name, its kind, its table and the numbers of
/// its columns. That of a foreign key has the table and the columns that it refers to, and what
/// happens when these change; that of another constraint has none of this.
pub proof fn constraint_row_describes_constraint(def: ConstraintView)
    ensures
        cell_at(pg_constraint_row(def), "oid"@) == CellView::Int(def.oid as i64),
        cell_at(pg_constraint_row(def), "conname"@) == CellView::Text(def.name),
        cell_at(pg_constraint_row(def), "connamespace"@) == CellView::Int(def.namespace_oid as i64),
        cell_at(pg_constraint_row(def), "conrelid"@) == CellView::Int(def.table_oid as i64),
        cell_at(pg_constraint_row(def), "conindid"@) == CellView::Int(def.index_oid as i64),
        cell_at(pg_constraint_row(def), "conkey"@) == CellView::IntList(def.key_attnums),
        def.kind is PrimaryKey
            ==> cell_at(pg_constraint_row(def), "contype"@) == CellView::Text("p"@),
        def.kind is Unique ==> cell_at(pg_constraint_row(def), "contype"@) == CellView::Text("u"@),
        def.kind is ForeignKey
            ==> cell_at(pg_constraint_row(def), "contype"@) == CellView::Text("f"@),
        cell_at(pg_constraint_row(def), "condeferrable"@) == CellView::Bool(false),
        cell_at(pg_constraint_row(def), "condeferred"@) == CellView::Bool(false),
        cell_at(pg_constraint_row(def), "convalidated"@) == CellView::Bool(true),
        cell_at(pg_constraint_row(def), "contypid"@) == CellView::Int(0),
        cell_at(pg_constraint_row(def), "conparentid"@) == CellView::Int(0),
        cell_at(pg_constraint_row(def), "conislocal"@) == CellView::Bool(true),
        cell_at(pg_constraint_row(def), "coninhcount"@) == CellView::Int(0),
        cell_at(pg_constraint_row(def), "connoinherit"@) == CellView::Bool(false),
        def.kind is ForeignKey ==> cell_at(pg_constraint_row(def), "confrelid"@)
            == CellView::Int(def.referenced_table_oid as i64),
        def.kind is ForeignKey ==> cell_at(pg_constraint_row(def), "confkey"@)
            == CellView::IntList(def.referenced_key_attnums),
        def.kind is ForeignKey && def.on_update is NoAction
            ==> cell_at(pg_constraint_row(def), "confupdtype"@) == CellView::Text("a"@),
        def.kind is ForeignKey && def.on_delete is NoAction
            ==> cell_at(pg_constraint_row(def), "confdeltype"@) == CellView::Text("a"@),
        def.kind is ForeignKey && def.on_update is Restrict
            ==> cell_at(pg_constraint_row(def), "confupdtype"@) == CellView::Text("r"@),
        def.kind is ForeignKey && def.on_delete is Restrict
            ==> cell_at(pg_constraint_row(def), "confdeltype"@) == CellView::Text("r"@),
        def.kind is ForeignKey && def.on_update is Cascade
            ==> cell_at(pg_constraint_row(def), "confupdtype"@) == CellView::Text("c"@),
        def.kind is ForeignKey && def.on_delete is Cascade
            ==> cell_at(pg_constraint_row(def), "confdeltype"@) == CellView::Text("c"@),
        def.kind is ForeignKey && def.on_update is SetNull
            ==> cell_at(pg_constraint_row(def), "confupdtype"@) == CellView::Text("n"@),
        def.kind is ForeignKey && def.on_delete is SetNull
            ==> cell_at(pg_constraint_row(def), "confdeltype"@) == CellView::Text("n"@),
        def.kind is ForeignKey && def.on_update is SetDefault
            ==> cell_at(pg_constraint_row(def), "confupdtype"@) == CellView::Text("d"@),
        def.kind is ForeignKey && def.on_delete is SetDefault
            ==> cell_at(pg_constraint_row(def), "confdeltype"@) == CellView::Text("d"@),
        def.kind is ForeignKey && def.match_type is Full
            ==> cell_at(pg_constraint_row(def), "confmatchtype"@) == CellView::Text("f"@),
        def.kind is ForeignKey && def.match_type is Partial
            ==> cell_at(pg_constraint_row(def), "confmatchtype"@) == CellView::Text("p"@),
        def.kind is ForeignKey && def.match_type is Simple
            ==> cell_at(pg_constraint_row(def), "confmatchtype"@) == CellView::Text("s"@),
        !(def.kind is ForeignKey)
            ==> cell_at(pg_constraint_row(def), "confrelid"@) == CellView::Int(0),
        !(def.kind is ForeignKey) ==> cell_at(pg_constraint_row(def), "confkey"@) == CellView::Null,
        !(def.kind is ForeignKey)
            ==> cell_at(pg_constraint_row(def), "confupdtype"@) == CellView::Text(" "@),
        !(def.kind is ForeignKey)
            ==> cell_at(pg_constraint_row(def), "confdeltype"@) == CellView::Text(" "@),
        !(def.kind is ForeignKey)
            ==> cell_at(pg_constraint_row(def), "confmatchtype"@) == CellView::Text(" "@),
{
    reveal_strlit("connamespace");
    reveal_strlit("contype");
    reveal_strlit("condeferrable");
    reveal_strlit("condeferred");
    reveal_strlit("convalidated");
    reveal_strlit("contypid");
    reveal_strlit("conindid");
    reveal_strlit("conparentid");
    reveal_strlit("conkey");
    reveal_strlit("conislocal");
    reveal_strlit("coninhcount");
    reveal_strlit("connoinherit");
    reveal_strlit("confrelid");
    reveal_strlit("confkey");
    reveal_strlit("confupdtype");
    reveal_strlit("confdeltype");
    reveal_strlit("confmatchtype");
    reveal_strlit("conrelid");
    reveal_strlit("conname");
    reveal_strlit("oid");
    assert("connamespace"@.len() == 12);
    assert("contype"@.len() == 7);
    assert("condeferrable"@.len() == 13);
    assert("condeferred"@.len() == 11);
    assert("convalidated"@.len() == 12);
    assert("contypid"@.len() == 8);
    assert("conindid"@.len() == 8);
    assert("conparentid"@.len() == 11);
    assert("conkey"@.len() == 6);
    assert("conislocal"@.len() == 10);
    assert("coninhcount"@.len() == 11);
    assert("connoinherit"@.len() == 12);
    assert("confrelid"@.len() == 9);
    assert("confkey"@.len() == 7);
    assert("confupdtype"@.len() == 11);
    assert("confdeltype"@.len() == 11);
    assert("confmatchtype"@.len() == 13);
    assert("conrelid"@.len() == 8);
    assert("conname"@.len() == 7);
    assert("oid"@.len() == 3);
    assert("connamespace"@[3] == 'n');
    assert("convalidated"@[3] == 'v');
    assert("connamespace"@[4] == 'a');
    assert("connoinherit"@[4] == 'o');
    assert("contype"@[3] == 't');
    assert("confkey"@[3] == 'f');
    assert("conname"@[3] == 'n');
    assert("condeferrable"@[3] == 'd');
    assert("confmatchtype"@[3] == 'f');
    assert("condeferred"@[3] == 'd');
    assert("conparentid"@[3] == 'p');
    assert("coninhcount"@[3] == 'i');
    assert("confupdtype"@[3] == 'f');
    assert("confdeltype"@[3] == 'f');
    assert("connoinherit"@[3] == 'n');
    assert("contypid"@[3] == 't');
    assert("conindid"@[3] == 'i');
    assert("conrelid"@[3] == 'r');
    assert("confupdtype"@[4] == 'u');
    assert("confdeltype"@[4] == 'd');
}

/// The row of the row type of a relation in `pg_type` has the name and the schema of the relation,
/// refers to it, and is of a composite type.
pub proof fn type_row_describes_relation(def: RelationView, schema_oid: i32)
    ensures
        cell_at(pg_type_row(def, schema_oid), "oid"@) == CellView::Int(def.reltype_oid as i64),
        cell_at(pg_type_row(def, schema_oid), "typname"@) == CellView::Text(def.name),
        cell_at(pg_type_row(def, schema_oid), "typnamespace"@) == CellView::Int(schema_oid as i64),
        cell_at(pg_type_row(def, schema_oid), "typrelid"@) == CellView::Int(def.oid as i64),
        cell_at(pg_type_row(def, schema_oid), "typtype"@) == CellView::Text("c"@),
        cell_at(pg_type_row(def, schema_oid), "typcategory"@) == CellView::Text("C"@),
        cell_at(pg_type_row(def, schema_oid), "typlen"@) == CellView::Int(-1i64),
        cell_at(pg_type_row(def, schema_oid), "typbyval"@) == CellView::Bool(false),
        cell_at(pg_type_row(def, schema_oid), "typalign"@) == CellView::Text("d"@),
        cell_at(pg_type_row(def, schema_oid), "typstorage"@) == CellView::Text("x"@),
        cell_at(pg_type_row(def, schema_oid), "typisdefined"@) == CellView::Bool(true),
        cell_at(pg_type_row(def, schema_oid), "typispreferred"@) == CellView::Bool(false),
        cell_at(pg_type_row(def, schema_oid), "typnotnull"@) == CellView::Bool(false),
        cell_at(pg_type_row(def, schema_oid), "typelem"@) == CellView::Int(0),
        cell_at(pg_type_row(def, schema_oid), "typarray"@) == CellView::Int(0),
        cell_at(pg_type_row(def, schema_oid), "typbasetype"@) == CellView::Int(0),
        cell_at(pg_type_row(def, schema_oid), "typtypmod"@) == CellView::Int(-1i64),
        cell_at(pg_type_row(def, schema_oid), "typndims"@) == CellView::Int(0),
        cell_at(pg_type_row(def, schema_oid), "typinput"@) == CellView::Text("record_in"@),
        cell_at(pg_type_row(def, schema_oid), "typoutput"@) == CellView::Text("record_out"@),
        cell_at(pg_type_row(def, schema_oid), "typreceive"@) == CellView::Text("record_recv"@),
        cell_at(pg_type_row(def, schema_oid), "typsend"@) == CellView::Text("record_send"@),
        cell_at(pg_type_row(def, schema_oid), "typdelim"@) == CellView::Text(","@),
{
    reveal_strlit("typname");
    reveal_strlit("typnamespace");
    reveal_strlit("typlen");
    reveal_strlit("typtype");
    reveal_strlit("typcategory");
    reveal_strlit("typbyval");
    reveal_strlit("typalign");
    reveal_strlit("typstorage");
    reveal_strlit("typisdefined");
    reveal_strlit("typispreferred");
    reveal_strlit("typnotnull");
    reveal_strlit("typelem");
    reveal_strlit("typarray");
    reveal_strlit("typbasetype");
    reveal_strlit("typtypmod");
    reveal_strlit("typndims");
    reveal_strlit("typinput");
    reveal_strlit("typoutput");
    reveal_strlit("typreceive");
    reveal_strlit("typsend");
    reveal_strlit("typdelim");
    reveal_strlit("typrelid");
    reveal_strlit("oid");
    assert("typname"@.len() == 7);
    assert("typnamespace"@.len() == 12);
    assert("typlen"@.len() == 6);
    assert("typtype"@.len() == 7);
    assert("typcategory"@.len() == 11);
    assert("typbyval"@.len() == 8);
    assert("typalign"@.len() == 8);
    assert("typstorage"@.len() == 10);
    assert("typisdefined"@.len() == 12);
    assert("typispreferred"@.len() == 14);
    assert("typnotnull"@.len() == 10);
    assert("typelem"@.len() == 7);
    assert("typarray"@.len() == 8);
    assert("typbasetype"@.len() == 11);
    assert("typtypmod"@.len() == 9);
    assert("typndims"@.len() == 8);
    assert("typinput"@.len() == 8);
    assert("typoutput"@.len() == 9);
    assert("typreceive"@.len() == 10);
    assert("typsend"@.len() == 7);
    assert("typdelim"@.len() == 8);
    assert("typrelid"@.len() == 8);
    assert("oid"@.len() == 3);
    assert("typname"@[3] == 'n');
    assert("typtype"@[3] == 't');
    assert("typelem"@[3] == 'e');
    assert("typsend"@[3] == 's');
    assert("typnamespace"@[3] == 'n');
    assert("typisdefined"@[3] == 'i');
    assert("typcategory"@[3] == 'c');
    assert("typbasetype"@[3] == 'b');
    assert("typbyval"@[3] == 'b');
    assert("typalign"@[3] == 'a');
    assert("typarray"@[3] == 'a');
    assert("typndims"@[3] == 'n');
    assert("typinput"@[3] == 'i');
    assert("typdelim"@[3] == 'd');
    assert("typrelid"@[3] == 'r');
    assert("typalign"@[4] == 'l');
    assert("typarray"@[4] == 'r');
    assert("typstorage"@[3] == 's');
    assert("typnotnull"@[3] == 'n');
    assert("typreceive"@[3] == 'r');
    assert("typtypmod"@[3] == 't');
    assert("typoutput"@[3] == 'o');
}

/// The row of a default in `pg_attrdef` has its own OID, its relation and the number of its column.
pub proof fn attrdef_row_describes_default(oid: i32, relid: i32, attnum: i32)
    ensures
        cell_at(pg_attrdef_row(oid, relid, attnum), "oid"@) == CellView::Int(oid as i64),
        cell_at(pg_attrdef_row(oid, relid, attnum), "adrelid"@) == CellView::Int(relid as i64),
        cell_at(pg_attrdef_row(oid, relid, attnum), "adnum"@) == CellView::Int(attnum as i64),
        cell_at(pg_attrdef_row(oid, relid, attnum), "adbin"@) == CellView::Null,
{
    reveal_strlit("adnum");
    reveal_strlit("adbin");
    reveal_strlit("adrelid");
    reveal_strlit("oid");
    assert("adnum"@.len() == 5);
    assert("adbin"@.len() == 5);
    assert("adrelid"@.len() == 7);
    assert("oid"@.len() == 3);
    assert("adnum"@[2] == 'n');
    assert("adbin"@[2] == 'b');
}

/// The row of a schema in `pg_namespace` has its name, its OID and its owner, role 10 if it has
/// none.
pub proof fn namespace_row_describes_schema(def: SchemaView)
    ensures
        cell_at(pg_namespace_row(def), "oid"@) == CellView::Int(def.oid as i64),
        cell_at(pg_namespace_row(def), "nspname"@) == CellView::Text(def.name),
        cell_at(pg_namespace_row(def), "nspacl"@) == CellView::Null,
        def.owner_oid is Some ==> cell_at(pg_namespace_row(def), "nspowner"@)
            == CellView::Int(def.owner_oid->0 as i64),
        def.owner_oid is None ==> cell_at(pg_namespace_row(def), "nspowner"@) == CellView::Int(10),
{
    reveal_strlit("nspowner");
    reveal_strlit("nspacl");
    reveal_strlit("nspname");
    reveal_strlit("oid");
    assert("nspowner"@.len() == 8);
    assert("nspacl"@.len() == 6);
    assert("nspname"@.len() == 7);
    assert("oid"@.len() == 3);
}

/// The row of a database in `pg_database` has its name, its OID, its owner and what is set of it;
/// what is not set is as PostgreSQL has it by default.
pub proof fn database_row_describes_database(def: DatabaseDef)
    ensures
        cell_at(pg_database_row(def), "oid"@) == CellView::Int(def.oid as i64),
        cell_at(pg_database_row(def), "datname"@) == CellView::Text(def.datname@),
        cell_at(pg_database_row(def), "datdba"@) == CellView::Int(def.datdba as i64),
        def.encoding is Some ==> cell_at(pg_database_row(def), "encoding"@)
            == CellView::Int(def.encoding->0 as i64),
        def.encoding is None ==> cell_at(pg_database_row(def), "encoding"@) == CellView::Int(6),
        def.datistemplate is Some ==> cell_at(pg_database_row(def), "datistemplate"@)
            == CellView::Bool(def.datistemplate->0),
        def.datistemplate is None
            ==> cell_at(pg_database_row(def), "datistemplate"@) == CellView::Bool(false),
        def.datallowconn is Some ==> cell_at(pg_database_row(def), "datallowconn"@)
            == CellView::Bool(def.datallowconn->0),
        def.datallowconn is None
            ==> cell_at(pg_database_row(def), "datallowconn"@) == CellView::Bool(true),
        def.dathasloginevt is Some ==> cell_at(pg_database_row(def), "dathasloginevt"@)
            == CellView::Bool(def.dathasloginevt->0),
        def.dathasloginevt is None
            ==> cell_at(pg_database_row(def), "dathasloginevt"@) == CellView::Bool(false),
        def.datconnlimit is Some ==> cell_at(pg_database_row(def), "datconnlimit"@)
            == CellView::Int(def.datconnlimit->0 as i64),
        def.datconnlimit is None
            ==> cell_at(pg_database_row(def), "datconnlimit"@) == CellView::Int(-1i64),
        def.datfrozenxid is Some ==> cell_at(pg_database_row(def), "datfrozenxid"@)
            == CellView::Text(def.datfrozenxid->0@),
        def.datfrozenxid is None
            ==> cell_at(pg_database_row(def), "datfrozenxid"@) == CellView::Text("726"@),
        def.datminmxid is Some
            ==> cell_at(pg_database_row(def), "datminmxid"@) == CellView::Text(def.datminmxid->0@),
        def.datminmxid is None
            ==> cell_at(pg_database_row(def), "datminmxid"@) == CellView::Text("1"@),
        def.dattablespace is Some ==> cell_at(pg_database_row(def), "dattablespace"@)
            == CellView::Int(def.dattablespace->0 as i64),
        def.dattablespace is None
            ==> cell_at(pg_database_row(def), "dattablespace"@) == CellView::Int(1663),
        def.datcollate is Some
            ==> cell_at(pg_database_row(def), "datcollate"@) == CellView::Text(def.datcollate->0@),
        def.datcollate is None
            ==> cell_at(pg_database_row(def), "datcollate"@) == CellView::Text("C"@),
        def.datctype is Some
            ==> cell_at(pg_database_row(def), "datctype"@) == CellView::Text(def.datctype->0@),
        def.datctype is None ==> cell_at(pg_database_row(def), "datctype"@) == CellView::Text("C"@),
        def.datlocale is Some
            ==> cell_at(pg_database_row(def), "datlocale"@) == CellView::Text(def.datlocale->0@),
        def.datlocale is None ==> cell_at(pg_database_row(def), "datlocale"@) == CellView::Null,
        def.daticurules is Some ==> cell_at(pg_database_row(def), "daticurules"@)
            == CellView::Text(def.daticurules->0@),
        def.daticurules is None ==> cell_at(pg_database_row(def), "daticurules"@) == CellView::Null,
        def.datcollversion is Some ==> cell_at(pg_database_row(def), "datcollversion"@)
            == CellView::Text(def.datcollversion->0@),
        def.datcollversion is None
            ==> cell_at(pg_database_row(def), "datcollversion"@) == CellView::Null,
        def.datacl is Some ==> cell_at(pg_database_row(def), "datacl"@)
            == CellView::TextList(views(def.datacl->0@)),
        def.datacl is None ==> cell_at(pg_database_row(def), "datacl"@) == CellView::Null,
        def.datlocprovider is Some ==> cell_at(pg_database_row(def), "datlocprovider"@)
            == CellView::Text(seq![def.datlocprovider->0]),
        def.datlocprovider is None
            ==> cell_at(pg_database_row(def), "datlocprovider"@) == CellView::Null,
{
    reveal_strlit("datdba");
    reveal_strlit("encoding");
    reveal_strlit("datlocprovider");
    reveal_strlit("datistemplate");
    reveal_strlit("datallowconn");
    reveal_strlit("dathasloginevt");
    reveal_strlit("datconnlimit");
    reveal_strlit("datfrozenxid");
    reveal_strlit("datminmxid");
    reveal_strlit("dattablespace");
    reveal_strlit("datcollate");
    reveal_strlit("datctype");
    reveal_strlit("datlocale");
    reveal_strlit("daticurules");
    reveal_strlit("datcollversion");
    reveal_strlit("datacl");
    reveal_strlit("datname");
    reveal_strlit("oid");
    assert("datdba"@.len() == 6);
    assert("encoding"@.len() == 8);
    assert("datlocprovider"@.len() == 14);
    assert("datistemplate"@.len() == 13);
    assert("datallowconn"@.len() == 12);
    assert("dathasloginevt"@.len() == 14);
    assert("datconnlimit"@.len() == 12);
    assert("datfrozenxid"@.len() == 12);
    assert("datminmxid"@.len() == 10);
    assert("dattablespace"@.len() == 13);
    assert("datcollate"@.len() == 10);
    assert("datctype"@.len() == 8);
    assert("datlocale"@.len() == 9);
    assert("daticurules"@.len() == 11);
    assert("datcollversion"@.len() == 14);
    assert("datacl"@.len() == 6);
    assert("datname"@.len() == 7);
    assert("oid"@.len() == 3);
    assert("datdba"@[3] == 'd');
    assert("datacl"@[3] == 'a');
    assert("encoding"@[0] == 'e');
    assert("datctype"@[0] == 'd');
    assert("datlocprovider"@[3] == 'l');
    assert("dathasloginevt"@[3] == 'h');
    assert("datcollversion"@[3] == 'c');
    assert("datistemplate"@[3] == 'i');
    assert("dattablespace"@[3] == 't');
    assert("datallowconn"@[3] == 'a');
    assert("datconnlimit"@[3] == 'c');
    assert("datfrozenxid"@[3] == 'f');
    assert("datminmxid"@[3] == 'm');
    assert("datcollate"@[3] == 'c');
}

/// The row of a relation in `information_schema.tables` has its name, its schema and its database,
/// and its kind in words.
pub proof fn tables_row_describes_relation(catalog: Seq<char>, schema: Seq<char>, def: RelationView)
    ensures
        cell_at(info_tables_row(catalog, schema, def), "table_catalog"@) == CellView::Text(catalog),
        cell_at(info_tables_row(catalog, schema, def), "table_schema"@) == CellView::Text(schema),
        cell_at(info_tables_row(catalog, schema, def), "table_name"@) == CellView::Text(def.name),
        def.kind is Table ==> cell_at(info_tables_row(catalog, schema, def), "table_type"@)
            == CellView::Text("BASE TABLE"@),
        def.kind is View ==> cell_at(info_tables_row(catalog, schema, def), "table_type"@)
            == CellView::Text("VIEW"@),
        def.kind is MaterializedView
            ==> cell_at(info_tables_row(catalog, schema, def), "table_type"@)
                == CellView::Text("MATERIALIZED VIEW"@),
        cell_at(info_tables_row(catalog, schema, def), "is_insertable_into"@)
            == CellView::Text("YES"@),
        cell_at(info_tables_row(catalog, schema, def), "is_typed"@) == CellView::Text("NO"@),
{
    reveal_strlit("table_catalog");
    reveal_strlit("table_schema");
    reveal_strlit("table_name");
    reveal_strlit("table_type");
    reveal_strlit("is_insertable_into");
    reveal_strlit("is_typed");
    assert("table_catalog"@.len() == 13);
    assert("table_schema"@.len() == 12);
    assert("table_name"@.len() == 10);
    assert("table_type"@.len() == 10);
    assert("is_insertable_into"@.len() == 18);
    assert("is_typed"@.len() == 8);
    assert("table_name"@[6] == 'n');
    assert("table_type"@[6] == 't');
}

/// The row of a column in `information_schema.columns` has its name, its table and its number, says
/// `YES` exactly of a column that is nullable, and names its type both ways.
pub proof fn columns_row_describes_column(
    catalog: Seq<char>,
    schema: Seq<char>,
    relation: Seq<char>,
    col: ColumnView,
    ordinal: i32,
)
    ensures
        cell_at(info_columns_row(catalog, schema, relation, col, ordinal), "table_catalog"@)
            == CellView::Text(catalog),
        cell_at(info_columns_row(catalog, schema, relation, col, ordinal), "table_schema"@)
            == CellView::Text(schema),
        cell_at(info_columns_row(catalog, schema, relation, col, ordinal), "table_name"@)
            == CellView::Text(relation),
        cell_at(info_columns_row(catalog, schema, relation, col, ordinal), "column_name"@)
            == CellView::Text(col.name),
        cell_at(info_columns_row(catalog, schema, relation, col, ordinal), "ordinal_position"@)
            == CellView::Int(ordinal as i64),
        col.nullable
            ==> cell_at(info_columns_row(catalog, schema, relation, col, ordinal), "is_nullable"@)
                == CellView::Text("YES"@),
        !col.nullable
            ==> cell_at(info_columns_row(catalog, schema, relation, col, ordinal), "is_nullable"@)
                == CellView::Text("NO"@),
        cell_at(info_columns_row(catalog, schema, relation, col, ordinal), "udt_catalog"@)
            == CellView::Text(catalog),
        cell_at(info_columns_row(catalog, schema, relation, col, ordinal), "udt_schema"@)
            == CellView::Text("pg_catalog"@),
        col.type_oid == 23
            ==> cell_at(info_columns_row(catalog, schema, relation, col, ordinal), "data_type"@)
                == CellView::Text("integer"@),
        col.type_oid == 23
            ==> cell_at(info_columns_row(catalog, schema, relation, col, ordinal), "udt_name"@)
                == CellView::Text("int4"@),
        col.type_oid == 20
            ==> cell_at(info_columns_row(catalog, schema, relation, col, ordinal), "data_type"@)
                == CellView::Text("bigint"@),
        col.type_oid == 20
            ==> cell_at(info_columns_row(catalog, schema, relation, col, ordinal), "udt_name"@)
                == CellView::Text("int8"@),
        col.type_oid == 16
            ==> cell_at(info_columns_row(catalog, schema, relation, col, ordinal), "data_type"@)
                == CellView::Text("boolean"@),
        col.type_oid == 16
            ==> cell_at(info_columns_row(catalog, schema, relation, col, ordinal), "udt_name"@)
                == CellView::Text("bool"@),
        col.type_oid == 1043
            ==> cell_at(info_columns_row(catalog, schema, relation, col, ordinal), "data_type"@)
                == CellView::Text("character varying"@),
        col.type_oid == 1043
            ==> cell_at(info_columns_row(catalog, schema, relation, col, ordinal), "udt_name"@)
                == CellView::Text("varchar"@),
        col.type_oid == 25
            ==> cell_at(info_columns_row(catalog, schema, relation, col, ordinal), "data_type"@)
                == CellView::Text("text"@),
        col.type_oid == 25
            ==> cell_at(info_columns_row(catalog, schema, relation, col, ordinal), "udt_name"@)
                == CellView::Text("text"@),
        cell_at(info_columns_row(catalog, schema, relation, col, ordinal), "is_self_referencing"@)
            == CellView::Text("NO"@),
        cell_at(info_columns_row(catalog, schema, relation, col, ordinal), "is_identity"@)
            == CellView::Text("NO"@),
        cell_at(info_columns_row(catalog, schema, relation, col, ordinal), "is_generated"@)
            == CellView::Text("NEVER"@),
        cell_at(info_columns_row(catalog, schema, relation, col, ordinal), "is_updatable"@)
            == CellView::Text("YES"@),
{
    reveal_strlit("table_catalog");
    reveal_strlit("table_schema");
    reveal_strlit("table_name");
    reveal_strlit("column_name");
    reveal_strlit("ordinal_position");
    reveal_strlit("is_nullable");
    reveal_strlit("data_type");
    reveal_strlit("udt_catalog");
    reveal_strlit("udt_schema");
    reveal_strlit("udt_name");
    reveal_strlit("dtd_identifier");
    reveal_strlit("is_self_referencing");
    reveal_strlit("is_identity");
    reveal_strlit("is_generated");
    reveal_strlit("is_updatable");
    assert("table_catalog"@.len() == 13);
    assert("table_schema"@.len() == 12);
    assert("table_name"@.len() == 10);
    assert("column_name"@.len() == 11);
    assert("ordinal_position"@.len() == 16);
    assert("is_nullable"@.len() == 11);
    assert("data_type"@.len() == 9);
    assert("udt_catalog"@.len() == 11);
    assert("udt_schema"@.len() == 10);
    assert("udt_name"@.len() == 8);
    assert("dtd_identifier"@.len() == 14);
    assert("is_self_referencing"@.len() == 19);
    assert("is_identity"@.len() == 11);
    assert("is_generated"@.len() == 12);
    assert("is_updatable"@.len() == 12);
    assert("table_schema"@[0] == 't');
    assert("is_generated"@[0] == 'i');
    assert("is_updatable"@[0] == 'i');
    assert("table_name"@[0] == 't');
    assert("udt_schema"@[0] == 'u');
    assert("column_name"@[0] == 'c');
    assert("is_nullable"@[0] == 'i');
    assert("udt_catalog"@[0] == 'u');
    assert("is_identity"@[0] == 'i');
    assert("is_nullable"@[3] == 'n');
    assert("is_identity"@[3] == 'i');
    assert("is_generated"@[3] == 'g');
    assert("is_updatable"@[3] == 'u');
}

/// The columns of a relation have a row each in `information_schema.columns`, in order and
/// numbered from one.
pub proof fn columns_rows_describe_columns(
    catalog: Seq<char>,
    schema: Seq<char>,
    relation: Seq<char>,
    columns: Seq<ColumnView>,
    i: int,
)
    requires
        0 <= i < columns.len() <= i32::MAX,
    ensures
        info_columns_rows(catalog, schema, relation, columns).len() == columns.len(),
        cell_at(
            info_columns_rows(catalog, schema, relation, columns)[i],
            "ordinal_position"@,
        ) == CellView::Int((i + 1) as i64),
        cell_at(
            info_columns_rows(catalog, schema, relation, columns)[i],
            "column_name"@,
        ) == CellView::Text(columns[i].name),
        cell_at(
            info_columns_rows(catalog, schema, relation, columns)[i],
            "is_nullable"@,
        ) == CellView::Text(
            if columns[i].nullable {
                "YES"@
            } else {
                "NO"@
            },
        ),
{
    columns_row_describes_column(catalog, schema, relation, columns[i], (i + 1) as i32);
}

/// The row of a schema in `information_schema.schemata` has its name and its database.
pub proof fn schemata_row_describes_schema(catalog: Seq<char>, def: SchemaView)
    ensures
        cell_at(info_schemata_row(catalog, def), "catalog_name"@) == CellView::Text(catalog),
        cell_at(info_schemata_row(catalog, def), "schema_name"@) == CellView::Text(def.name),
        cell_at(info_schemata_row(catalog, def), "schema_owner"@) == CellView::Null,
{
    reveal_strlit("catalog_name");
    reveal_strlit("schema_name");
    reveal_strlit("schema_owner");
    assert("catalog_name"@.len() == 12);
    assert("schema_name"@.len() == 11);
    assert("schema_owner"@.len() == 12);
    assert("catalog_name"@[0] == 'c');
    assert("schema_owner"@[0] == 's');
}

/// The row of a setting in `pg_config` has its name and its value.
pub proof fn config_row_describes_setting(def: ConfigSettingDef)
    ensures
        cell_at(pg_config_row(def), "name"@) == CellView::Text(def.name@),
        cell_at(pg_config_row(def), "setting"@) == CellView::Text(def.setting@),
{
    reveal_strlit("name");
    reveal_strlit("setting");
    assert("name"@.len() == 4);
    assert("setting"@.len() == 7);
}

/// The row of a parameter in `pg_settings` has its name and its value.
pub proof fn settings_row_describes_parameter(def: SettingDef)
    ensures
        cell_at(pg_settings_row(def), "name"@) == CellView::Text(def.name@),
        cell_at(pg_settings_row(def), "setting"@) == CellView::Text(def.setting@),
{
    reveal_strlit("name");
    reveal_strlit("setting");
    assert("name"@.len() == 4);
    assert("setting"@.len() == 7);
}

} // verus!
