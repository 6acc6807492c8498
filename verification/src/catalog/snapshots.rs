//! What holds of the rows that are served from a source.
use super::cells::{
    attrdef_row_describes_default, attribute_describes_column, class_row_describes_index,
    class_row_describes_relation, columns_row_describes_column, config_row_describes_setting,
    constraint_row_describes_constraint, database_row_describes_database, index_row_describes_index,
    namespace_row_describes_schema, schemata_row_describes_schema, settings_row_describes_parameter,
    tables_row_describes_relation, type_row_describes_relation,
};
use super::defs::{columns_view, CatalogTable, SchemaDef};
use super::row::{cell_at, CellView, RowView};
use super::rows::{
    count_of, index_pg_class_row, info_columns_rows, info_schemata_row, info_tables_row,
    pg_attribute_rows, pg_class_row, pg_constraint_row, pg_database_row, pg_index_row,
    pg_namespace_row, pg_type_row,
};
use super::source::{
    attrdef_oid, database_defaults, databases_rows, index_rows, relation_rows, relations_rows,
    rows_for, schema_rows, schemas_rows, DatabaseNode, RelationNode, SchemaNode, Snapshot,
};
use vstd::prelude::*;

verus! {

// --- rows and what they come from -------------------------------------------------------------

/// Whether a table has its rows from the databases of a source: all but those of settings and of
/// defaults.
pub open spec fn is_of_databases(table: CatalogTable) -> bool {
    !(table is PgConfig) && !(table is PgSettings) && !(table is PgAttrdef)
}

/// Whether a snapshot has a schema at a place: the schema `k` of the database `d`.
pub open spec fn has_schema(s: Snapshot, d: int, k: int) -> bool {
    0 <= d < s.databases@.len() && 0 <= k < s.databases@[d].schemas@.len()
}

/// Whether a snapshot has a relation at a place: the relation `r` of that schema.
pub open spec fn has_relation(s: Snapshot, d: int, k: int, r: int) -> bool {
    has_schema(s, d, k) && 0 <= r < s.databases@[d].schemas@[k].relations@.len()
}

proof fn relations_have_rows(
    table: CatalogTable,
    database: Seq<char>,
    schema: SchemaDef,
    rels: Seq<RelationNode>,
    n: nat,
    row: RowView,
)
    requires
        n <= rels.len(),
    ensures
        relations_rows(table, database, schema, rels, n).contains(row) <==> exists|r: int|
            0 <= r < n && #[trigger] relation_rows(table, database, schema, rels[r]).contains(row),
    decreases n,
{
    if n > 0 {
        relations_have_rows(table, database, schema, rels, (n - 1) as nat, row);
        sum_has(
            relations_rows(table, database, schema, rels, (n - 1) as nat),
            relation_rows(table, database, schema, rels[n - 1]),
            row,
        );
        if relation_rows(table, database, schema, rels[n - 1]).contains(row) {
            assert(exists|r: int|
                0 <= r < n && #[trigger] relation_rows(table, database, schema, rels[r]).contains(
                    row,
                ));
        }
    }
}

proof fn sum_has(a: Seq<RowView>, b: Seq<RowView>, row: RowView)
    ensures
        (a + b).contains(row) <==> a.contains(row) || b.contains(row),
{
    let all = a + b;
    if a.contains(row) {
        let i = choose|i: int| 0 <= i < a.len() && a[i] == row;
        assert(all[i] == row);
    }
    if b.contains(row) {
        let i = choose|i: int| 0 <= i < b.len() && b[i] == row;
        assert(all[a.len() + i] == row);
    }
    if all.contains(row) {
        let i = choose|i: int| 0 <= i < all.len() && all[i] == row;
        if i < a.len() {
            assert(a[i] == row);
        } else {
            assert(b[i - a.len()] == row);
        }
    }
}

proof fn schemas_have_rows(
    table: CatalogTable,
    database: Seq<char>,
    schemas: Seq<SchemaNode>,
    n: nat,
    row: RowView,
)
    requires
        n <= schemas.len(),
    ensures
        schemas_rows(table, database, schemas, n).contains(row) <==> exists|k: int|
            0 <= k < n && #[trigger] schema_rows(table, database, schemas[k]).contains(row),
    decreases n,
{
    if n > 0 {
        schemas_have_rows(table, database, schemas, (n - 1) as nat, row);
        sum_has(
            schemas_rows(table, database, schemas, (n - 1) as nat),
            schema_rows(table, database, schemas[n - 1]),
            row,
        );
        if schema_rows(table, database, schemas[n - 1]).contains(row) {
            assert(exists|k: int|
                0 <= k < n && #[trigger] schema_rows(table, database, schemas[k]).contains(row));
        }
    }
}

/// Whether a row is one of the database `d`: its own in `pg_database`, or one of its schemas.
spec fn is_row_of(table: CatalogTable, dbs: Seq<DatabaseNode>, d: int, row: RowView) -> bool {
    ||| table is PgDatabase && row == pg_database_row(dbs[d].def)
    ||| exists|k: int|
        0 <= k < dbs[d].schemas@.len() && #[trigger] schema_rows(
            table,
            dbs[d].def.datname@,
            dbs[d].schemas@[k],
        ).contains(row)
}

proof fn databases_have_rows(
    table: CatalogTable,
    dbs: Seq<DatabaseNode>,
    n: nat,
    row: RowView,
)
    requires
        n <= dbs.len(),
    ensures
        databases_rows(table, dbs, n).contains(row) <==> exists|d: int|
            0 <= d < n && #[trigger] is_row_of(table, dbs, d, row),
    decreases n,
{
    if n > 0 {
        databases_have_rows(table, dbs, (n - 1) as nat, row);
        let db = dbs[n - 1];
        let own = if table == CatalogTable::PgDatabase {
            seq![pg_database_row(db.def)]
        } else {
            Seq::empty()
        };
        let before = databases_rows(table, dbs, (n - 1) as nat);
        let within = schemas_rows(table, db.def.datname@, db.schemas@, db.schemas@.len());
        sum_has(before, own, row);
        sum_has(before + own, within, row);
        schemas_have_rows(table, db.def.datname@, db.schemas@, db.schemas@.len(), row);
        if table == CatalogTable::PgDatabase && row == pg_database_row(db.def) {
            assert(own[0] == row);
        }
        assert((own.contains(row) || within.contains(row)) == is_row_of(table, dbs, n - 1, row));
        if is_row_of(table, dbs, n - 1, row) {
            assert(exists|d: int| 0 <= d < n && #[trigger] is_row_of(table, dbs, d, row));
        }
    }
}

proof fn schema_row_is_served(table: CatalogTable, s: Snapshot, d: int, k: int, row: RowView)
    requires
        is_of_databases(table),
        has_schema(s, d, k),
        schema_rows(
            table,
            s.databases@[d].def.datname@,
            s.databases@[d].schemas@[k],
        ).contains(row),
    ensures
        rows_for(table, s).contains(row),
{
    databases_have_rows(table, s.databases@, s.databases@.len(), row);
    assert(is_row_of(table, s.databases@, d, row));
}

proof fn relation_row_is_served(
    table: CatalogTable,
    s: Snapshot,
    d: int,
    k: int,
    r: int,
    row: RowView,
)
    requires
        is_of_databases(table),
        has_relation(s, d, k, r),
        relation_rows(
            table,
            s.databases@[d].def.datname@,
            s.databases@[d].schemas@[k].def,
            s.databases@[d].schemas@[k].relations@[r],
        ).contains(row),
    ensures
        rows_for(table, s).contains(row),
{
    let db = s.databases@[d];
    let schema = db.schemas@[k];
    let rels = schema.relations@;
    relations_have_rows(table, db.def.datname@, schema.def, rels, rels.len(), row);
    schema_parts(table, db.def.datname@, schema, row);
    schema_row_is_served(table, s, d, k, row);
}

proof fn schema_parts(table: CatalogTable, database: Seq<char>, schema: SchemaNode, row: RowView)
    ensures
        relations_rows(
            table,
            database,
            schema.def,
            schema.relations@,
            schema.relations@.len(),
        ).contains(row) ==> schema_rows(table, database, schema).contains(row),
        index_rows(table, schema.def, schema.indexes@).contains(row) ==> schema_rows(
            table,
            database,
            schema,
        ).contains(row),
        table is PgNamespace && row == pg_namespace_row(schema.def@) ==> schema_rows(
            table,
            database,
            schema,
        ).contains(row),
        table is InformationSchemaSchemata && row == info_schemata_row(database, schema.def@)
            ==> schema_rows(table, database, schema).contains(row),
        table is PgConstraint && (exists|i: int|
            0 <= i < schema.constraints@.len() && row == pg_constraint_row(
                #[trigger] schema.constraints@[i]@,
            )) ==> schema_rows(table, database, schema).contains(row),
        schema_rows(table, database, schema).contains(row) ==> ({
            ||| relations_rows(
                table,
                database,
                schema.def,
                schema.relations@,
                schema.relations@.len(),
            ).contains(row)
            ||| index_rows(table, schema.def, schema.indexes@).contains(row)
            ||| table is PgNamespace && row == pg_namespace_row(schema.def@)
            ||| table is InformationSchemaSchemata && row == info_schemata_row(
                database,
                schema.def@,
            )
            ||| table is PgConstraint && exists|i: int|
                0 <= i < schema.constraints@.len() && row == pg_constraint_row(
                    #[trigger] schema.constraints@[i]@,
                )
        }),
{
    let own = match table {
        CatalogTable::PgNamespace => seq![pg_namespace_row(schema.def@)],
        CatalogTable::InformationSchemaSchemata => seq![info_schemata_row(database, schema.def@)],
        CatalogTable::PgConstraint => Seq::new(
            schema.constraints@.len(),
            |i: int| pg_constraint_row(schema.constraints@[i]@),
        ),
        _ => Seq::empty(),
    };
    let rels = relations_rows(
        table,
        database,
        schema.def,
        schema.relations@,
        schema.relations@.len(),
    );
    sum_has(own, rels, row);
    sum_has(own + rels, index_rows(table, schema.def, schema.indexes@), row);
    if table is PgNamespace {
        assert(own[0] == pg_namespace_row(schema.def@));
    }
    if table is InformationSchemaSchemata {
        assert(own[0] == info_schemata_row(database, schema.def@));
    }
    if table is PgConstraint {
        assert forall|i: int| 0 <= i < schema.constraints@.len() implies own.contains(
            pg_constraint_row(#[trigger] schema.constraints@[i]@),
        ) by {
            assert(own[i] == pg_constraint_row(schema.constraints@[i]@));
        }
        if own.contains(row) {
            let i = choose|i: int| 0 <= i < own.len() && own[i] == row;
            assert(row == pg_constraint_row(schema.constraints@[i]@));
        }
    }
}

// --- what is served ---------------------------------------------------------------------------

/// Whether a row of `pg_attribute` describes a column of a relation.
pub open spec fn tells_column(
    row: RowView,
    relid: i32,
    number: int,
    name: Seq<char>,
    type_oid: i32,
    nullable: bool,
) -> bool {
    &&& cell_at(row, "attrelid"@) == CellView::Int(relid as i64)
    &&& cell_at(row, "attnum"@) == CellView::Int(number as i64)
    &&& cell_at(row, "attname"@) == CellView::Text(name)
    &&& cell_at(row, "atttypid"@) == CellView::Int(type_oid as i64)
    &&& cell_at(row, "attnotnull"@) == CellView::Bool(!nullable)
}

/// Every column of every relation of a source is served in `pg_attribute`, under its name, its
/// number and its type, and with `NOT NULL` exactly if it is not nullable; and in
/// `information_schema.columns`.
pub proof fn every_column_is_served(s: Snapshot, d: int, k: int, r: int, c: int) -> (rows: (
    RowView,
    RowView,
))
    requires
        has_relation(s, d, k, r),
        0 <= c < s.databases@[d].schemas@[k].relations@[r].columns@.len() <= i32::MAX,
    ensures
        ({
            let db = s.databases@[d];
            let schema = db.schemas@[k];
            let rel = schema.relations@[r];
            let col = rel.columns@[c];
            &&& rows_for(CatalogTable::PgAttribute, s).contains(rows.0)
            &&& tells_column(
                rows.0,
                rel.def.oid,
                c + 1,
                col.name@,
                col.type_oid,
                col.nullable,
            )
            &&& cell_at(rows.0, "atthasdef"@) == CellView::Bool(col.has_default)
            &&& rows_for(CatalogTable::InformationSchemaColumns, s).contains(rows.1)
            &&& cell_at(rows.1, "table_catalog"@) == CellView::Text(db.def.datname@)
            &&& cell_at(rows.1, "table_schema"@) == CellView::Text(schema.def.name@)
            &&& cell_at(rows.1, "table_name"@) == CellView::Text(rel.def.name@)
            &&& cell_at(rows.1, "column_name"@) == CellView::Text(col.name@)
            &&& cell_at(rows.1, "ordinal_position"@) == CellView::Int((c + 1) as i64)
            &&& cell_at(rows.1, "is_nullable"@) == CellView::Text(
                if col.nullable {
                    "YES"@
                } else {
                    "NO"@
                },
            )
        }),
{
    let db = s.databases@[d];
    let schema = db.schemas@[k];
    let rel = schema.relations@[r];
    let columns = columns_view(rel.columns@);
    assert(columns[c] == rel.columns@[c]@);
    let rows = pg_attribute_rows(rel.def.oid, columns);
    let info = info_columns_rows(db.def.datname@, schema.def.name@, rel.def.name@, columns);
    attribute_describes_column(rel.def.oid, columns[c], (c + 1) as i32);
    columns_row_describes_column(
        db.def.datname@,
        schema.def.name@,
        rel.def.name@,
        columns[c],
        (c + 1) as i32,
    );
    assert(rows.contains(rows[c]));
    assert(info.contains(info[c]));
    relation_row_is_served(CatalogTable::PgAttribute, s, d, k, r, rows[c]);
    relation_row_is_served(CatalogTable::InformationSchemaColumns, s, d, k, r, info[c]);
    (rows[c], info[c])
}

/// Every relation of a source is served in `pg_class`, in its schema, with its kind and the
/// number of its columns, with a row type in `pg_type`, and in `information_schema.tables`.
pub proof fn every_relation_is_served(s: Snapshot, d: int, k: int, r: int) -> (rows: (
    RowView,
    RowView,
    RowView,
))
    requires
        has_relation(s, d, k, r),
        s.databases@[d].schemas@[k].relations@[r].columns@.len() <= i32::MAX,
    ensures
        ({
            let db = s.databases@[d];
            let schema = db.schemas@[k];
            let rel = schema.relations@[r];
            &&& rows_for(CatalogTable::PgClass, s).contains(rows.0)
            &&& cell_at(rows.0, "oid"@) == CellView::Int(rel.def.oid as i64)
            &&& cell_at(rows.0, "relname"@) == CellView::Text(rel.def.name@)
            &&& cell_at(rows.0, "relnamespace"@) == CellView::Int(schema.def.oid as i64)
            &&& cell_at(rows.0, "relnatts"@) == CellView::Int(rel.columns@.len() as i64)
            &&& rel.def.kind is Table ==> cell_at(rows.0, "relkind"@) == CellView::Text("r"@)
            &&& rel.def.kind is View ==> cell_at(rows.0, "relkind"@) == CellView::Text("v"@)
            &&& rel.def.kind is MaterializedView ==> cell_at(rows.0, "relkind"@)
                == CellView::Text("m"@)
            &&& rows_for(CatalogTable::PgType, s).contains(rows.1)
            &&& cell_at(rows.1, "oid"@) == CellView::Int(rel.def.reltype_oid as i64)
            &&& cell_at(rows.1, "typrelid"@) == CellView::Int(rel.def.oid as i64)
            &&& cell_at(rows.1, "typname"@) == CellView::Text(rel.def.name@)
            &&& cell_at(rows.1, "typnamespace"@) == CellView::Int(schema.def.oid as i64)
            &&& rows_for(CatalogTable::InformationSchemaTables, s).contains(rows.2)
            &&& cell_at(rows.2, "table_catalog"@) == CellView::Text(db.def.datname@)
            &&& cell_at(rows.2, "table_schema"@) == CellView::Text(schema.def.name@)
            &&& cell_at(rows.2, "table_name"@) == CellView::Text(rel.def.name@)
            &&& rel.def.kind is View ==> cell_at(rows.2, "table_type"@) == CellView::Text("VIEW"@)
            &&& rel.def.kind is Table ==> cell_at(rows.2, "table_type"@) == CellView::Text(
                "BASE TABLE"@,
            )
        }),
{
    let db = s.databases@[d];
    let schema = db.schemas@[k];
    let rel = schema.relations@[r];
    let natts = rel.columns@.len() as i32;
    let class = pg_class_row(rel.def@, schema.def.oid, natts);
    let own_type = pg_type_row(rel.def@, schema.def.oid);
    let info = info_tables_row(db.def.datname@, schema.def.name@, rel.def@);
    class_row_describes_relation(rel.def@, schema.def.oid, natts);
    type_row_describes_relation(rel.def@, schema.def.oid);
    tables_row_describes_relation(db.def.datname@, schema.def.name@, rel.def@);
    assert(seq![class][0] == class);
    assert(seq![own_type][0] == own_type);
    assert(seq![info][0] == info);
    relation_row_is_served(CatalogTable::PgClass, s, d, k, r, class);
    relation_row_is_served(CatalogTable::PgType, s, d, k, r, own_type);
    relation_row_is_served(CatalogTable::InformationSchemaTables, s, d, k, r, info);
    (class, own_type, info)
}

/// Every schema of a source is served in `pg_namespace` and in `information_schema.schemata`, and
/// every database in `pg_database`.
pub proof fn every_schema_is_served(s: Snapshot, d: int, k: int) -> (rows: (RowView, RowView))
    requires
        has_schema(s, d, k),
    ensures
        ({
            let db = s.databases@[d];
            let schema = db.schemas@[k];
            &&& rows_for(CatalogTable::PgNamespace, s).contains(rows.0)
            &&& cell_at(rows.0, "oid"@) == CellView::Int(schema.def.oid as i64)
            &&& cell_at(rows.0, "nspname"@) == CellView::Text(schema.def.name@)
            &&& rows_for(CatalogTable::InformationSchemaSchemata, s).contains(rows.1)
            &&& cell_at(rows.1, "schema_name"@) == CellView::Text(schema.def.name@)
            &&& cell_at(rows.1, "catalog_name"@) == CellView::Text(db.def.datname@)
        }),
{
    let db = s.databases@[d];
    let schema = db.schemas@[k];
    let row = pg_namespace_row(schema.def@);
    let info = info_schemata_row(db.def.datname@, schema.def@);
    namespace_row_describes_schema(schema.def@);
    schemata_row_describes_schema(db.def.datname@, schema.def@);
    schema_parts(CatalogTable::PgNamespace, db.def.datname@, schema, row);
    schema_parts(CatalogTable::InformationSchemaSchemata, db.def.datname@, schema, info);
    schema_row_is_served(CatalogTable::PgNamespace, s, d, k, row);
    schema_row_is_served(CatalogTable::InformationSchemaSchemata, s, d, k, info);
    (row, info)
}

/// Every database of a source is served in `pg_database`.
pub proof fn every_database_is_served(s: Snapshot, d: int) -> (row: RowView)
    requires
        0 <= d < s.databases@.len(),
    ensures
        rows_for(CatalogTable::PgDatabase, s).contains(row),
        cell_at(row, "oid"@) == CellView::Int(s.databases@[d].def.oid as i64),
        cell_at(row, "datname"@) == CellView::Text(s.databases@[d].def.datname@),
        cell_at(row, "datdba"@) == CellView::Int(s.databases@[d].def.datdba as i64),
{
    let row = pg_database_row(s.databases@[d].def);
    database_row_describes_database(s.databases@[d].def);
    databases_have_rows(CatalogTable::PgDatabase, s.databases@, s.databases@.len(), row);
    assert(is_row_of(CatalogTable::PgDatabase, s.databases@, d, row));
    row
}

/// Every index of a source is served in `pg_class` and in `pg_index`.
pub proof fn every_index_is_served(s: Snapshot, d: int, k: int, i: int) -> (rows: (
    RowView,
    RowView,
))
    requires
        has_schema(s, d, k),
        0 <= i < s.databases@[d].schemas@[k].indexes@.len(),
    ensures
        ({
            let schema = s.databases@[d].schemas@[k];
            let def = schema.indexes@[i]@;
            &&& rows_for(CatalogTable::PgClass, s).contains(rows.0)
            &&& cell_at(rows.0, "oid"@) == CellView::Int(def.index_oid as i64)
            &&& cell_at(rows.0, "relname"@) == CellView::Text(def.index_name)
            &&& cell_at(rows.0, "relnamespace"@) == CellView::Int(schema.def.oid as i64)
            &&& cell_at(rows.0, "relkind"@) == CellView::Text("i"@)
            &&& rows_for(CatalogTable::PgIndex, s).contains(rows.1)
            &&& cell_at(rows.1, "indexrelid"@) == CellView::Int(def.index_oid as i64)
            &&& cell_at(rows.1, "indrelid"@) == CellView::Int(def.table_oid as i64)
            &&& cell_at(rows.1, "indkey"@) == CellView::IntList(def.key_attnums)
            &&& cell_at(rows.1, "indisunique"@) == CellView::Bool(def.is_unique)
            &&& cell_at(rows.1, "indisprimary"@) == CellView::Bool(def.is_primary)
        }),
{
    let db = s.databases@[d];
    let schema = db.schemas@[k];
    let def = schema.indexes@[i]@;
    let class = index_pg_class_row(def, schema.def.oid);
    let row = pg_index_row(def);
    class_row_describes_index(def, schema.def.oid);
    index_row_describes_index(def);
    assert(index_rows(CatalogTable::PgClass, schema.def, schema.indexes@)[i] == class);
    assert(index_rows(CatalogTable::PgIndex, schema.def, schema.indexes@)[i] == row);
    schema_parts(CatalogTable::PgClass, db.def.datname@, schema, class);
    schema_parts(CatalogTable::PgIndex, db.def.datname@, schema, row);
    schema_row_is_served(CatalogTable::PgClass, s, d, k, class);
    schema_row_is_served(CatalogTable::PgIndex, s, d, k, row);
    (class, row)
}

/// Every constraint of a source is served in `pg_constraint`.
pub proof fn every_constraint_is_served(s: Snapshot, d: int, k: int, i: int) -> (row: RowView)
    requires
        has_schema(s, d, k),
        0 <= i < s.databases@[d].schemas@[k].constraints@.len(),
    ensures
        ({
            let def = s.databases@[d].schemas@[k].constraints@[i]@;
            &&& rows_for(CatalogTable::PgConstraint, s).contains(row)
            &&& cell_at(row, "oid"@) == CellView::Int(def.oid as i64)
            &&& cell_at(row, "conname"@) == CellView::Text(def.name)
            &&& cell_at(row, "conrelid"@) == CellView::Int(def.table_oid as i64)
            &&& cell_at(row, "conkey"@) == CellView::IntList(def.key_attnums)
            &&& def.kind is PrimaryKey ==> cell_at(row, "contype"@) == CellView::Text("p"@)
            &&& def.kind is Unique ==> cell_at(row, "contype"@) == CellView::Text("u"@)
            &&& def.kind is ForeignKey ==> cell_at(row, "contype"@) == CellView::Text("f"@)
                && cell_at(row, "confrelid"@) == CellView::Int(def.referenced_table_oid as i64)
        }),
{
    let db = s.databases@[d];
    let schema = db.schemas@[k];
    let def = schema.constraints@[i]@;
    let row = pg_constraint_row(def);
    constraint_row_describes_constraint(def);
    assert(row == pg_constraint_row(schema.constraints@[i]@));
    schema_parts(CatalogTable::PgConstraint, db.def.datname@, schema, row);
    schema_row_is_served(CatalogTable::PgConstraint, s, d, k, row);
    row
}

/// Every setting of a source is served in its table, and nothing else is, in order.
pub proof fn every_setting_is_served(s: Snapshot, i: int, j: int)
    requires
        0 <= i < s.config@.len(),
        0 <= j < s.settings@.len(),
    ensures
        rows_for(CatalogTable::PgConfig, s).len() == s.config@.len(),
        cell_at(rows_for(CatalogTable::PgConfig, s)[i], "name"@) == CellView::Text(
            s.config@[i].name@,
        ),
        cell_at(rows_for(CatalogTable::PgConfig, s)[i], "setting"@) == CellView::Text(
            s.config@[i].setting@,
        ),
        rows_for(CatalogTable::PgSettings, s).len() == s.settings@.len(),
        cell_at(rows_for(CatalogTable::PgSettings, s)[j], "name"@) == CellView::Text(
            s.settings@[j].name@,
        ),
        cell_at(rows_for(CatalogTable::PgSettings, s)[j], "setting"@) == CellView::Text(
            s.settings@[j].setting@,
        ),
{
    config_row_describes_setting(s.config@[i]);
    settings_row_describes_parameter(s.settings@[j]);
}

/// Nothing but the relations and the indexes of a source is served in `pg_class`.
pub proof fn only_relations_are_served(s: Snapshot, row: RowView)
    requires
        rows_for(CatalogTable::PgClass, s).contains(row),
    ensures
        exists|d: int, k: int, i: int|
            #![trigger s.databases@[d].schemas@[k].relations@[i]]
            #![trigger s.databases@[d].schemas@[k].indexes@[i]]
            has_schema(s, d, k) && ({
                ||| has_relation(s, d, k, i) && cell_at(row, "oid"@) == CellView::Int(
                    s.databases@[d].schemas@[k].relations@[i].def.oid as i64,
                )
                ||| 0 <= i < s.databases@[d].schemas@[k].indexes@.len() && cell_at(row, "oid"@)
                    == CellView::Int(s.databases@[d].schemas@[k].indexes@[i]@.index_oid as i64)
            }),
{
    let table = CatalogTable::PgClass;
    databases_have_rows(table, s.databases@, s.databases@.len(), row);
    let d = choose|d: int|
        0 <= d < s.databases@.len() && #[trigger] is_row_of(table, s.databases@, d, row);
    let db = s.databases@[d];
    let k = choose|k: int|
        0 <= k < db.schemas@.len() && #[trigger] schema_rows(
            table,
            db.def.datname@,
            db.schemas@[k],
        ).contains(row);
    let schema = db.schemas@[k];
    schema_parts(table, db.def.datname@, schema, row);
    let rels = schema.relations@;
    relations_have_rows(table, db.def.datname@, schema.def, rels, rels.len(), row);
    if index_rows(table, schema.def, schema.indexes@).contains(row) {
        let all = index_rows(table, schema.def, schema.indexes@);
        let i = choose|i: int| 0 <= i < all.len() && all[i] == row;
        class_row_describes_index(schema.indexes@[i]@, schema.def.oid);
        assert(has_schema(s, d, k) && 0 <= i < s.databases@[d].schemas@[k].indexes@.len());
    } else {
        let r = choose|r: int|
            0 <= r < rels.len() && #[trigger] relation_rows(
                table,
                db.def.datname@,
                schema.def,
                rels[r],
            ).contains(row);
        let rel = rels[r];
        let natts = count_of(rel.columns@.len());
        class_row_describes_relation(rel.def@, schema.def.oid, natts);
        assert(has_relation(s, d, k, r));
        assert(s.databases@[d].schemas@[k].relations@[r] == rel);
    }
}

/// The defaults of a snapshot are numbered one by one from 900000 on, and each row has the relation
/// and
/// the number of its column.
pub proof fn defaults_are_numbered(s: Snapshot, k: int)
    requires
        0 <= k < rows_for(CatalogTable::PgAttrdef, s).len(),
        k < 1000000,
    ensures
        ({
            let row = rows_for(CatalogTable::PgAttrdef, s)[k];
            let d = database_defaults(s.databases@, s.databases@.len())[k];
            &&& cell_at(row, "oid"@) == CellView::Int((900000 + k) as i64)
            &&& cell_at(row, "adrelid"@) == CellView::Int(d.0 as i64)
            &&& cell_at(row, "adnum"@) == CellView::Int(d.1 as i64)
        }),
{
    let d = database_defaults(s.databases@, s.databases@.len())[k];
    attrdef_row_describes_default(attrdef_oid(k as nat), d.0, d.1);
}

} // verus!
