//! Sources of user objects, and the rows that come of what they describe.
use super::defs::{
    columns_view, CatalogTable, ColumnSpec, ConfigSettingDef, ConstraintDef, DatabaseDef, IndexDef,
    LazyDatabaseRow, RelationDef, SchemaDef, SettingDef,
};
use super::row::{no_rows, push_row, rows_view, Row, RowView};
use super::rows::{
    build_index_pg_class_row, build_info_columns_rows, build_info_schemata_row,
    build_info_tables_row, build_pg_attrdef_row, build_pg_attribute_rows, build_pg_class_row,
    build_pg_config_row, build_pg_constraint_row, build_pg_database_row, build_pg_index_row,
    build_pg_namespace_row, build_pg_settings_row, build_pg_type_rowtype_row, count_of,
    index_pg_class_row, info_columns_rows, info_schemata_row, info_tables_row, pg_attrdef_row,
    pg_attribute_rows, pg_class_row, pg_config_row, pg_constraint_row, pg_database_row,
    pg_index_row, pg_namespace_row, pg_settings_row, pg_type_row, to_count,
    SYNTHETIC_ATTRDEF_OID_BASE,
};
use vstd::prelude::*;

verus! {

/// Why a source could not answer.
#[derive(Debug)]
pub struct SourceError {
    pub message: String,
}

/// Where user objects come from. A source describes its own objects only; the built-in ones
/// are added to them. It is asked again for every scan, and answers with everything that it
/// has at that moment or with an error.
pub trait LazyCatalogSource {
    fn databases(&self) -> (r: Result<Vec<DatabaseDef>, SourceError>);

    /// The schemas of a database.
    fn schemas(&self, database: &str) -> (r: Result<Vec<SchemaDef>, SourceError>);

    /// The relations of a schema.
    fn relations(&self, database: &str, schema: &str) -> (r: Result<Vec<RelationDef>, SourceError>);

    /// The columns of a relation, in order.
    fn columns(&self, database: &str, schema: &str, relation: &str) -> (r: Result<
        Vec<ColumnSpec>,
        SourceError,
    >);

    /// The indexes of a schema; none unless the source says otherwise.
    fn indexes(&self, database: &str, schema: &str) -> (r: Result<Vec<IndexDef>, SourceError>)
        default_ensures
            r is Ok && r->Ok_0@.len() == 0,
    {
        Ok(Vec::new())
    }

    /// The constraints of a schema; none unless the source says otherwise.
    fn constraints(&self, database: &str, schema: &str) -> (r: Result<
        Vec<ConstraintDef>,
        SourceError,
    >)
        default_ensures
            r is Ok && r->Ok_0@.len() == 0,
    {
        Ok(Vec::new())
    }

    /// The settings of `pg_config` that replace built-in ones; none unless the source says
    /// otherwise.
    fn config(&self) -> (r: Result<Vec<ConfigSettingDef>, SourceError>)
        default_ensures
            r is Ok && r->Ok_0@.len() == 0,
    {
        Ok(Vec::new())
    }

    /// The parameters of `pg_settings` that replace built-in ones; none unless the source says
    /// otherwise.
    fn settings(&self) -> (r: Result<Vec<SettingDef>, SourceError>)
        default_ensures
            r is Ok && r->Ok_0@.len() == 0,
    {
        Ok(Vec::new())
    }
}

/// A source of databases alone.
#[derive(Debug)]
pub struct DatabaseOnlySource {
    pub rows: Vec<LazyDatabaseRow>,
}

fn copy_database(d: &LazyDatabaseRow) -> (r: LazyDatabaseRow)
    ensures
        pg_database_row(r) == pg_database_row(*d),
        r.datname@ == d.datname@,
{
    let datacl = match &d.datacl {
        Some(v) => Some(super::row::copy_texts(v)),
        None => None,
    };
    LazyDatabaseRow {
        oid: d.oid,
        datname: d.datname.clone(),
        datdba: d.datdba,
        encoding: d.encoding,
        datlocprovider: d.datlocprovider,
        datistemplate: d.datistemplate,
        datallowconn: d.datallowconn,
        dathasloginevt: d.dathasloginevt,
        datconnlimit: d.datconnlimit,
        datfrozenxid: copy_text(&d.datfrozenxid),
        datminmxid: copy_text(&d.datminmxid),
        dattablespace: d.dattablespace,
        datcollate: copy_text(&d.datcollate),
        datctype: copy_text(&d.datctype),
        datlocale: copy_text(&d.datlocale),
        daticurules: copy_text(&d.daticurules),
        datcollversion: copy_text(&d.datcollversion),
        datacl,
    }
}

fn copy_text(s: &Option<String>) -> (r: Option<String>)
    ensures
        r == *s,
{
    match s {
        Some(x) => Some(x.clone()),
        None => None,
    }
}

/// The rows of databases in `pg_database`.
pub open spec fn database_rows(defs: Seq<DatabaseDef>) -> Seq<RowView> {
    Seq::new(defs.len(), |i: int| pg_database_row(defs[i]))
}

impl LazyCatalogSource for DatabaseOnlySource {
    fn databases(&self) -> (r: Result<Vec<DatabaseDef>, SourceError>)
        ensures
            r is Ok && database_rows(r->Ok_0@) == database_rows(self.rows@),
    {
        let mut out: Vec<DatabaseDef> = Vec::new();
        let mut i: usize = 0;
        while i < self.rows.len()
            invariant
                i <= self.rows@.len(),
                out@.len() == i,
                forall|j: int|
                    0 <= j < i ==> pg_database_row(#[trigger] out@[j]) == pg_database_row(
                        self.rows@[j],
                    ),
            decreases self.rows@.len() - i,
        {
            out.push(copy_database(&self.rows[i]));
            i = i + 1;
        }
        assert(database_rows(out@) =~= database_rows(self.rows@));
        Ok(out)
    }

    fn schemas(&self, database: &str) -> (r: Result<Vec<SchemaDef>, SourceError>)
        ensures
            r is Ok && r->Ok_0@.len() == 0,
    {
        Ok(Vec::new())
    }

    fn relations(&self, database: &str, schema: &str) -> (r: Result<Vec<RelationDef>, SourceError>)
        ensures
            r is Ok && r->Ok_0@.len() == 0,
    {
        Ok(Vec::new())
    }

    fn columns(&self, database: &str, schema: &str, relation: &str) -> (r: Result<
        Vec<ColumnSpec>,
        SourceError,
    >)
        ensures
            r is Ok && r->Ok_0@.len() == 0,
    {
        Ok(Vec::new())
    }
}

// --- what a source answered -------------------------------------------------------------------

/// A relation and its columns.
#[derive(Debug)]
pub struct RelationNode {
    pub def: RelationDef,
    pub columns: Vec<ColumnSpec>,
}

/// A schema and what is in it.
#[derive(Debug)]
pub struct SchemaNode {
    pub def: SchemaDef,
    pub relations: Vec<RelationNode>,
    pub indexes: Vec<IndexDef>,
    pub constraints: Vec<ConstraintDef>,
}

/// A database and its schemas.
#[derive(Debug)]
pub struct DatabaseNode {
    pub def: DatabaseDef,
    pub schemas: Vec<SchemaNode>,
}

/// What a source answered for one scan. What the scan does not need is left empty.
#[derive(Debug)]
pub struct Snapshot {
    pub databases: Vec<DatabaseNode>,
    pub config: Vec<ConfigSettingDef>,
    pub settings: Vec<SettingDef>,
}

// --- the rows of a snapshot -------------------------------------------------------------------

/// The rows of a relation in a catalog table.
pub open spec fn relation_rows(
    table: CatalogTable,
    database: Seq<char>,
    schema: SchemaDef,
    rel: RelationNode,
) -> Seq<RowView> {
    match table {
        CatalogTable::PgClass => seq![
            pg_class_row(rel.def@, schema.oid, count_of(rel.columns@.len())),
        ],
        CatalogTable::PgType => seq![pg_type_row(rel.def@, schema.oid)],
        CatalogTable::PgAttribute => pg_attribute_rows(rel.def.oid, columns_view(rel.columns@)),
        CatalogTable::InformationSchemaTables => seq![
            info_tables_row(database, schema.name@, rel.def@),
        ],
        CatalogTable::InformationSchemaColumns => info_columns_rows(
            database,
            schema.name@,
            rel.def.name@,
            columns_view(rel.columns@),
        ),
        _ => Seq::empty(),
    }
}

/// The rows of the first `n` relations in a catalog table.
pub open spec fn relations_rows(
    table: CatalogTable,
    database: Seq<char>,
    schema: SchemaDef,
    rels: Seq<RelationNode>,
    n: nat,
) -> Seq<RowView>
    decreases n,
{
    if n == 0 {
        Seq::empty()
    } else {
        relations_rows(table, database, schema, rels, (n - 1) as nat) + relation_rows(
            table,
            database,
            schema,
            rels[n - 1],
        )
    }
}

/// The rows of the indexes of a schema in a catalog table.
pub open spec fn index_rows(table: CatalogTable, schema: SchemaDef, indexes: Seq<IndexDef>) -> Seq<
    RowView,
> {
    match table {
        CatalogTable::PgClass => Seq::new(
            indexes.len(),
            |i: int| index_pg_class_row(indexes[i]@, schema.oid),
        ),
        CatalogTable::PgIndex => Seq::new(indexes.len(), |i: int| pg_index_row(indexes[i]@)),
        _ => Seq::empty(),
    }
}

/// The rows of a schema, and of what is in it, in a catalog table: of its relations before
/// those of its indexes.
pub open spec fn schema_rows(table: CatalogTable, database: Seq<char>, schema: SchemaNode) -> Seq<
    RowView,
> {
    let own = match table {
        CatalogTable::PgNamespace => seq![pg_namespace_row(schema.def@)],
        CatalogTable::InformationSchemaSchemata => seq![info_schemata_row(database, schema.def@)],
        CatalogTable::PgConstraint => Seq::new(
            schema.constraints@.len(),
            |i: int| pg_constraint_row(schema.constraints@[i]@),
        ),
        _ => Seq::empty(),
    };
    own + relations_rows(
        table,
        database,
        schema.def,
        schema.relations@,
        schema.relations@.len(),
    ) + index_rows(table, schema.def, schema.indexes@)
}

/// The rows of the first `n` schemas of a database in a catalog table.
pub open spec fn schemas_rows(
    table: CatalogTable,
    database: Seq<char>,
    schemas: Seq<SchemaNode>,
    n: nat,
) -> Seq<RowView>
    decreases n,
{
    if n == 0 {
        Seq::empty()
    } else {
        schemas_rows(table, database, schemas, (n - 1) as nat) + schema_rows(
            table,
            database,
            schemas[n - 1],
        )
    }
}

/// The rows of the first `n` databases, and of what is in them, in a catalog table.
pub open spec fn databases_rows(table: CatalogTable, dbs: Seq<DatabaseNode>, n: nat) -> Seq<
    RowView,
>
    decreases n,
{
    if n == 0 {
        Seq::empty()
    } else {
        let db = dbs[n - 1];
        let own = if table == CatalogTable::PgDatabase {
            seq![pg_database_row(db.def)]
        } else {
            Seq::empty()
        };
        databases_rows(table, dbs, (n - 1) as nat) + own + schemas_rows(
            table,
            db.def.datname@,
            db.schemas@,
            db.schemas@.len(),
        )
    }
}

/// A column with a default: the OID of its relation, and its number.
pub type DefaultColumn = (i32, i32);

/// The columns with defaults among the first `n` columns of a relation.
pub open spec fn column_defaults(relid: i32, columns: Seq<ColumnSpec>, n: nat) -> Seq<
    DefaultColumn,
>
    decreases n,
{
    if n == 0 {
        Seq::empty()
    } else {
        let done = column_defaults(relid, columns, (n - 1) as nat);
        if columns[n - 1].has_default {
            done.push((relid, count_of(n)))
        } else {
            done
        }
    }
}

/// The columns with defaults of the first `n` relations.
pub open spec fn relation_defaults(rels: Seq<RelationNode>, n: nat) -> Seq<DefaultColumn>
    decreases n,
{
    if n == 0 {
        Seq::empty()
    } else {
        let rel = rels[n - 1];
        relation_defaults(rels, (n - 1) as nat) + column_defaults(
            rel.def.oid,
            rel.columns@,
            rel.columns@.len(),
        )
    }
}

/// The columns with defaults in the first `n` schemas.
pub open spec fn schema_defaults(schemas: Seq<SchemaNode>, n: nat) -> Seq<DefaultColumn>
    decreases n,
{
    if n == 0 {
        Seq::empty()
    } else {
        let rels = schemas[n - 1].relations@;
        schema_defaults(schemas, (n - 1) as nat) + relation_defaults(rels, rels.len())
    }
}

/// The columns with defaults in the first `n` databases.
pub open spec fn database_defaults(dbs: Seq<DatabaseNode>, n: nat) -> Seq<DefaultColumn>
    decreases n,
{
    if n == 0 {
        Seq::empty()
    } else {
        let schemas = dbs[n - 1].schemas@;
        database_defaults(dbs, (n - 1) as nat) + schema_defaults(schemas, schemas.len())
    }
}

/// The OID of the `k`-th row of `pg_attrdef`, as a number of four bytes.
pub open spec fn attrdef_oid(k: nat) -> i32 {
    (SYNTHETIC_ATTRDEF_OID_BASE + k) as i32
}

/// The rows of `pg_attrdef` for columns with defaults, numbered one by one.
pub open spec fn attrdef_rows(defaults: Seq<DefaultColumn>) -> Seq<RowView> {
    Seq::new(
        defaults.len(),
        |k: int| pg_attrdef_row(attrdef_oid(k as nat), defaults[k].0, defaults[k].1),
    )
}

/// The rows of a snapshot in a catalog table.
pub open spec fn rows_for(table: CatalogTable, s: Snapshot) -> Seq<RowView> {
    match table {
        CatalogTable::PgConfig => Seq::new(
            s.config@.len(),
            |i: int| pg_config_row(s.config@[i]),
        ),
        CatalogTable::PgSettings => Seq::new(
            s.settings@.len(),
            |i: int| pg_settings_row(s.settings@[i]),
        ),
        CatalogTable::PgAttrdef => attrdef_rows(
            database_defaults(s.databases@, s.databases@.len()),
        ),
        _ => databases_rows(table, s.databases@, s.databases@.len()),
    }
}

fn append_rows(rows: &mut Vec<Row>, more: Vec<Row>)
    ensures
        rows_view(final(rows)@) == rows_view(old(rows)@) + rows_view(more@),
{
    let ghost before = rows_view(rows@);
    let ghost added = rows_view(more@);
    let mut rest = more;
    rows.append(&mut rest);
    assert(rows_view(rows@) =~= before + added);
}

fn add_relation_rows(
    table: CatalogTable,
    database: &str,
    schema: &SchemaDef,
    rel: &RelationNode,
    rows: &mut Vec<Row>,
)
    ensures
        rows_view(final(rows)@) == rows_view(old(rows)@) + relation_rows(
            table,
            database@,
            *schema,
            *rel,
        ),
{
    let ghost before = rows_view(rows@);
    match table {
        CatalogTable::PgClass => {
            let natts = to_count(rel.columns.len());
            push_row(rows, build_pg_class_row(&rel.def, schema.oid, natts));
        },
        CatalogTable::PgType => push_row(rows, build_pg_type_rowtype_row(&rel.def, schema.oid)),
        CatalogTable::PgAttribute => append_rows(
            rows,
            build_pg_attribute_rows(rel.def.oid, &rel.columns),
        ),
        CatalogTable::InformationSchemaTables => push_row(
            rows,
            build_info_tables_row(database, schema.name.as_str(), &rel.def),
        ),
        CatalogTable::InformationSchemaColumns => append_rows(
            rows,
            build_info_columns_rows(
                database,
                schema.name.as_str(),
                rel.def.name.as_str(),
                &rel.columns,
            ),
        ),
        _ => {},
    }
    assert(rows_view(rows@) =~= before + relation_rows(table, database@, *schema, *rel));
}

fn add_index_rows(
    table: CatalogTable,
    schema: &SchemaDef,
    indexes: &Vec<IndexDef>,
    rows: &mut Vec<Row>,
)
    ensures
        rows_view(final(rows)@) == rows_view(old(rows)@) + index_rows(table, *schema, indexes@),
{
    let ghost before = rows_view(rows@);
    let ghost goal = index_rows(table, *schema, indexes@);
    if table != CatalogTable::PgClass && table != CatalogTable::PgIndex {
        assert(before + goal =~= before);
        return;
    }
    let mut i: usize = 0;
    assert(before + goal.take(0) =~= before);
    while i < indexes.len()
        invariant
            i <= indexes@.len(),
            table == CatalogTable::PgClass || table == CatalogTable::PgIndex,
            goal == index_rows(table, *schema, indexes@),
            rows_view(rows@) == before + goal.take(i as int),
        decreases indexes@.len() - i,
    {
        let row = if table == CatalogTable::PgClass {
            build_index_pg_class_row(&indexes[i], schema.oid)
        } else {
            build_pg_index_row(&indexes[i])
        };
        assert(row@ == goal[i as int]);
        push_row(rows, row);
        i = i + 1;
        assert(before + goal.take(i as int) =~= (before + goal.take(i - 1)).push(goal[i - 1]));
    }
    assert(goal.take(i as int) =~= goal);
}

fn add_constraint_rows(constraints: &Vec<ConstraintDef>, rows: &mut Vec<Row>)
    ensures
        rows_view(final(rows)@) == rows_view(old(rows)@) + Seq::new(
            constraints@.len(),
            |i: int| pg_constraint_row(constraints@[i]@),
        ),
{
    let ghost before = rows_view(rows@);
    let ghost goal = Seq::new(constraints@.len(), |i: int| pg_constraint_row(constraints@[i]@));
    let mut i: usize = 0;
    assert(before + goal.take(0) =~= before);
    while i < constraints.len()
        invariant
            i <= constraints@.len(),
            goal == Seq::new(constraints@.len(), |i: int| pg_constraint_row(constraints@[i]@)),
            rows_view(rows@) == before + goal.take(i as int),
        decreases constraints@.len() - i,
    {
        push_row(rows, build_pg_constraint_row(&constraints[i]));
        i = i + 1;
        assert(before + goal.take(i as int) =~= (before + goal.take(i - 1)).push(goal[i - 1]));
    }
    assert(goal.take(i as int) =~= goal);
}

fn add_schema_rows(
    table: CatalogTable,
    database: &str,
    schema: &SchemaNode,
    rows: &mut Vec<Row>,
)
    ensures
        rows_view(final(rows)@) == rows_view(old(rows)@) + schema_rows(table, database@, *schema),
{
    let ghost before = rows_view(rows@);
    match table {
        CatalogTable::PgNamespace => push_row(rows, build_pg_namespace_row(&schema.def)),
        CatalogTable::InformationSchemaSchemata => push_row(
            rows,
            build_info_schemata_row(database, &schema.def),
        ),
        CatalogTable::PgConstraint => add_constraint_rows(&schema.constraints, rows),
        _ => {},
    }
    let ghost own = rows_view(rows@);
    let ghost rels = schema.relations@;
    let mut i: usize = 0;
    assert(own + relations_rows(table, database@, schema.def, rels, 0) =~= own);
    while i < schema.relations.len()
        invariant
            i <= schema.relations@.len(),
            rels == schema.relations@,
            rows_view(rows@) == own + relations_rows(
                table,
                database@,
                schema.def,
                rels,
                i as nat,
            ),
        decreases schema.relations@.len() - i,
    {
        add_relation_rows(table, database, &schema.def, &schema.relations[i], rows);
        i = i + 1;
        assert(rows_view(rows@) =~= own + relations_rows(
            table,
            database@,
            schema.def,
            rels,
            i as nat,
        ));
    }
    add_index_rows(table, &schema.def, &schema.indexes, rows);
    assert(rows_view(rows@) =~= before + schema_rows(table, database@, *schema));
}

fn add_database_rows(table: CatalogTable, db: &DatabaseNode, rows: &mut Vec<Row>)
    ensures
        ({
            let own = if table == CatalogTable::PgDatabase {
                seq![pg_database_row(db.def)]
            } else {
                Seq::empty()
            };
            rows_view(final(rows)@) == rows_view(old(rows)@) + own + schemas_rows(
                table,
                db.def.datname@,
                db.schemas@,
                db.schemas@.len(),
            )
        }),
{
    let ghost before = rows_view(rows@);
    if table == CatalogTable::PgDatabase {
        push_row(rows, build_pg_database_row(&db.def));
        assert(rows_view(rows@) =~= before + seq![pg_database_row(db.def)]);
    } else {
        assert(before + Seq::<RowView>::empty() =~= before);
    }
    let ghost own = rows_view(rows@);
    let ghost name = db.def.datname@;
    let mut i: usize = 0;
    assert(own + schemas_rows(table, name, db.schemas@, 0) =~= own);
    while i < db.schemas.len()
        invariant
            i <= db.schemas@.len(),
            name == db.def.datname@,
            rows_view(rows@) == own + schemas_rows(table, name, db.schemas@, i as nat),
        decreases db.schemas@.len() - i,
    {
        add_schema_rows(table, db.def.datname.as_str(), &db.schemas[i], rows);
        i = i + 1;
        assert(rows_view(rows@) =~= own + schemas_rows(table, name, db.schemas@, i as nat));
    }
}

fn add_column_defaults(rel: &RelationNode, out: &mut Vec<DefaultColumn>)
    ensures
        final(out)@ == old(out)@ + column_defaults(rel.def.oid, rel.columns@, rel.columns@.len()),
{
    let ghost before = out@;
    let mut i: usize = 0;
    assert(before + column_defaults(rel.def.oid, rel.columns@, 0) =~= before);
    while i < rel.columns.len()
        invariant
            i <= rel.columns@.len(),
            out@ == before + column_defaults(rel.def.oid, rel.columns@, i as nat),
        decreases rel.columns@.len() - i,
    {
        if rel.columns[i].has_default {
            out.push((rel.def.oid, to_count(i + 1)));
        }
        i = i + 1;
        assert(out@ =~= before + column_defaults(rel.def.oid, rel.columns@, i as nat));
    }
}

fn add_schema_defaults(schema: &SchemaNode, out: &mut Vec<DefaultColumn>)
    ensures
        final(out)@ == old(out)@ + relation_defaults(schema.relations@, schema.relations@.len()),
{
    let ghost before = out@;
    let mut i: usize = 0;
    assert(before + relation_defaults(schema.relations@, 0) =~= before);
    while i < schema.relations.len()
        invariant
            i <= schema.relations@.len(),
            out@ == before + relation_defaults(schema.relations@, i as nat),
        decreases schema.relations@.len() - i,
    {
        add_column_defaults(&schema.relations[i], out);
        i = i + 1;
        assert(out@ =~= before + relation_defaults(schema.relations@, i as nat));
    }
}

fn collect_defaults(dbs: &Vec<DatabaseNode>) -> (r: Vec<DefaultColumn>)
    ensures
        r@ == database_defaults(dbs@, dbs@.len()),
{
    let mut out: Vec<DefaultColumn> = Vec::new();
    let mut i: usize = 0;
    while i < dbs.len()
        invariant
            i <= dbs@.len(),
            out@ == database_defaults(dbs@, i as nat),
        decreases dbs@.len() - i,
    {
        let ghost before = out@;
        let schemas = &dbs[i].schemas;
        let mut j: usize = 0;
        assert(before + schema_defaults(schemas@, 0) =~= before);
        while j < schemas.len()
            invariant
                j <= schemas@.len(),
                out@ == before + schema_defaults(schemas@, j as nat),
            decreases schemas@.len() - j,
        {
            add_schema_defaults(&schemas[j], &mut out);
            j = j + 1;
            assert(out@ =~= before + schema_defaults(schemas@, j as nat));
        }
        i = i + 1;
    }
    out
}

fn build_attrdef_rows(defaults: &Vec<DefaultColumn>) -> (r: Vec<Row>)
    ensures
        rows_view(r@) == attrdef_rows(defaults@),
{
    let ghost goal = attrdef_rows(defaults@);
    let mut rows = no_rows();
    let mut k: usize = 0;
    assert(goal.take(0) =~= Seq::empty());
    while k < defaults.len()
        invariant
            k <= defaults@.len(),
            goal == attrdef_rows(defaults@),
            rows_view(rows@) == goal.take(k as int),
        decreases defaults@.len() - k,
    {
        let (relid, attnum) = defaults[k];
        let oid = number_attrdef(k);
        push_row(&mut rows, build_pg_attrdef_row(oid, relid, attnum));
        k = k + 1;
        assert(goal.take(k as int) =~= goal.take(k - 1).push(goal[k - 1]));
    }
    assert(goal.take(k as int) =~= goal);
    rows
}

fn number_attrdef(k: usize) -> (r: i32)
    ensures
        r == attrdef_oid(k as nat),
{
    let n: u128 = 900000u128 + k as u128;
    #[verifier::truncate]
    (n as i32)
}

/// The rows of a snapshot in a catalog table.
pub fn rows_of_snapshot(table: CatalogTable, s: &Snapshot) -> (r: Vec<Row>)
    ensures
        rows_view(r@) == rows_for(table, *s),
{
    let ghost goal = rows_for(table, *s);
    let mut rows = no_rows();
    if table == CatalogTable::PgConfig {
        let mut i: usize = 0;
        assert(goal.take(0) =~= Seq::empty());
        while i < s.config.len()
            invariant
                i <= s.config@.len(),
                table == CatalogTable::PgConfig,
                goal == rows_for(table, *s),
                rows_view(rows@) == goal.take(i as int),
            decreases s.config@.len() - i,
        {
            push_row(&mut rows, build_pg_config_row(&s.config[i]));
            i = i + 1;
            assert(goal.take(i as int) =~= goal.take(i - 1).push(goal[i - 1]));
        }
        assert(goal.take(i as int) =~= goal);
        return rows;
    }
    if table == CatalogTable::PgSettings {
        let mut i: usize = 0;
        assert(goal.take(0) =~= Seq::empty());
        while i < s.settings.len()
            invariant
                i <= s.settings@.len(),
                table == CatalogTable::PgSettings,
                goal == rows_for(table, *s),
                rows_view(rows@) == goal.take(i as int),
            decreases s.settings@.len() - i,
        {
            push_row(&mut rows, build_pg_settings_row(&s.settings[i]));
            i = i + 1;
            assert(goal.take(i as int) =~= goal.take(i - 1).push(goal[i - 1]));
        }
        assert(goal.take(i as int) =~= goal);
        return rows;
    }
    if table == CatalogTable::PgAttrdef {
        return build_attrdef_rows(&collect_defaults(&s.databases));
    }
    let mut i: usize = 0;
    while i < s.databases.len()
        invariant
            i <= s.databases@.len(),
            rows_view(rows@) == databases_rows(table, s.databases@, i as nat),
        decreases s.databases@.len() - i,
    {
        add_database_rows(table, &s.databases[i], &mut rows);
        i = i + 1;
    }
    rows
}

// --- asking a source --------------------------------------------------------------------------

/// Whether the source may have answered `v` when it was asked for its databases.
pub open spec fn answered_databases<S: LazyCatalogSource>(source: &S, v: Seq<DatabaseDef>) -> bool {
    exists|r: Result<Vec<DatabaseDef>, SourceError>|
        #[trigger] call_ensures(S::databases, (source,), r) && r is Ok && r->Ok_0@ == v
}

/// Whether the source may have answered `v` when it was asked for the schemas of a
/// database.
pub open spec fn answered_schemas<S: LazyCatalogSource>(
    source: &S,
    database_name: Seq<char>,
    v: Seq<SchemaDef>,
) -> bool {
    exists|database: &str, r: Result<Vec<SchemaDef>, SourceError>|
        database@ == database_name
            && #[trigger] call_ensures(S::schemas, (source, database), r)
            && r is Ok
            && r->Ok_0@ == v
}

/// Whether the source may have answered `v` when it was asked for the relations of
/// a schema.
pub open spec fn answered_relations<S: LazyCatalogSource>(
    source: &S,
    database_name: Seq<char>,
    schema_name: Seq<char>,
    v: Seq<RelationDef>,
) -> bool {
    exists|database: &str, schema: &str, r: Result<Vec<RelationDef>, SourceError>|
        database@ == database_name
            && schema@ == schema_name
            && #[trigger] call_ensures(S::relations, (source, database, schema), r)
            && r is Ok
            && r->Ok_0@ == v
}

/// Whether the source may have answered `v` when it was asked for the columns of a
/// relation.
pub open spec fn answered_columns<S: LazyCatalogSource>(
    source: &S,
    database_name: Seq<char>,
    schema_name: Seq<char>,
    relation_name: Seq<char>,
    v: Seq<ColumnSpec>,
) -> bool {
    exists|database: &str, schema: &str, relation: &str, r: Result<Vec<ColumnSpec>, SourceError>|
        database@ == database_name
            && schema@ == schema_name
            && relation@ == relation_name
            && #[trigger] call_ensures(S::columns, (source, database, schema, relation), r)
            && r is Ok
            && r->Ok_0@ == v
}

/// Whether the source may have answered `v` when it was asked for the indexes of a
/// schema.
pub open spec fn answered_indexes<S: LazyCatalogSource>(
    source: &S,
    database_name: Seq<char>,
    schema_name: Seq<char>,
    v: Seq<IndexDef>,
) -> bool {
    exists|database: &str, schema: &str, r: Result<Vec<IndexDef>, SourceError>|
        database@ == database_name
            && schema@ == schema_name
            && #[trigger] call_ensures(S::indexes, (source, database, schema), r)
            && r is Ok
            && r->Ok_0@ == v
}

/// Whether the source may have answered `v` when it was asked for the constraints
/// of a schema.
pub open spec fn answered_constraints<S: LazyCatalogSource>(
    source: &S,
    database_name: Seq<char>,
    schema_name: Seq<char>,
    v: Seq<ConstraintDef>,
) -> bool {
    exists|database: &str, schema: &str, r: Result<Vec<ConstraintDef>, SourceError>|
        database@ == database_name
            && schema@ == schema_name
            && #[trigger] call_ensures(S::constraints, (source, database, schema), r)
            && r is Ok
            && r->Ok_0@ == v
}

/// Whether the source may have answered `v` when it was asked for the settings of
/// `pg_config`.
pub open spec fn answered_config<S: LazyCatalogSource>(
    source: &S,
    v: Seq<ConfigSettingDef>,
) -> bool {
    exists|r: Result<Vec<ConfigSettingDef>, SourceError>|
        #[trigger] call_ensures(S::config, (source,), r) && r is Ok && r->Ok_0@ == v
}

/// Whether the source may have answered `v` when it was asked for the parameters of
/// `pg_settings`.
pub open spec fn answered_settings<S: LazyCatalogSource>(source: &S, v: Seq<SettingDef>) -> bool {
    exists|r: Result<Vec<SettingDef>, SourceError>|
        #[trigger] call_ensures(S::settings, (source,), r) && r is Ok && r->Ok_0@ == v
}

/// Whether the source may have answered with the error `e` when it was asked for its databases.
pub open spec fn refused_databases<S: LazyCatalogSource>(
    source: &S,
    e: SourceError,
) -> bool {
    exists|r: Result<Vec<DatabaseDef>, SourceError>|
        #[trigger] call_ensures(S::databases, (source,), r)
            && r == Err::<Vec<DatabaseDef>, SourceError>(e)
}

/// Whether the source may have answered with the error `e` when it was asked for the schemas
/// of a database.
pub open spec fn refused_schemas<S: LazyCatalogSource>(
    source: &S,
    database_name: Seq<char>,
    e: SourceError,
) -> bool {
    exists|database: &str, r: Result<Vec<SchemaDef>, SourceError>|
        database@ == database_name
            && #[trigger] call_ensures(S::schemas, (source, database), r)
            && r == Err::<Vec<SchemaDef>, SourceError>(e)
}

/// Whether the source may have answered with the error `e` when it was asked for the
/// relations of a schema.
pub open spec fn refused_relations<S: LazyCatalogSource>(
    source: &S,
    database_name: Seq<char>,
    schema_name: Seq<char>,
    e: SourceError,
) -> bool {
    exists|database: &str, schema: &str, r: Result<Vec<RelationDef>, SourceError>|
        database@ == database_name
            && schema@ == schema_name
            && #[trigger] call_ensures(S::relations, (source, database, schema), r)
            && r == Err::<Vec<RelationDef>, SourceError>(e)
}

/// Whether the source may have answered with the error `e` when it was asked for the columns
/// of a relation.
pub open spec fn refused_columns<S: LazyCatalogSource>(
    source: &S,
    database_name: Seq<char>,
    schema_name: Seq<char>,
    relation_name: Seq<char>,
    e: SourceError,
) -> bool {
    exists|database: &str, schema: &str, relation: &str, r: Result<Vec<ColumnSpec>, SourceError>|
        database@ == database_name
            && schema@ == schema_name
            && relation@ == relation_name
            && #[trigger] call_ensures(S::columns, (source, database, schema, relation), r)
            && r == Err::<Vec<ColumnSpec>, SourceError>(e)
}

/// Whether the source may have answered with the error `e` when it was asked for the indexes
/// of a schema.
pub open spec fn refused_indexes<S: LazyCatalogSource>(
    source: &S,
    database_name: Seq<char>,
    schema_name: Seq<char>,
    e: SourceError,
) -> bool {
    exists|database: &str, schema: &str, r: Result<Vec<IndexDef>, SourceError>|
        database@ == database_name
            && schema@ == schema_name
            && #[trigger] call_ensures(S::indexes, (source, database, schema), r)
            && r == Err::<Vec<IndexDef>, SourceError>(e)
}

/// Whether the source may have answered with the error `e` when it was asked for the
/// constraints of a schema.
pub open spec fn refused_constraints<S: LazyCatalogSource>(
    source: &S,
    database_name: Seq<char>,
    schema_name: Seq<char>,
    e: SourceError,
) -> bool {
    exists|database: &str, schema: &str, r: Result<Vec<ConstraintDef>, SourceError>|
        database@ == database_name
            && schema@ == schema_name
            && #[trigger] call_ensures(S::constraints, (source, database, schema), r)
            && r == Err::<Vec<ConstraintDef>, SourceError>(e)
}

/// Whether the source may have answered with the error `e` when it was asked for the settings
/// of `pg_config`.
pub open spec fn refused_config<S: LazyCatalogSource>(
    source: &S,
    e: SourceError,
) -> bool {
    exists|r: Result<Vec<ConfigSettingDef>, SourceError>|
        #[trigger] call_ensures(S::config, (source,), r)
            && r == Err::<Vec<ConfigSettingDef>, SourceError>(e)
}

/// Whether the source may have answered with the error `e` when it was asked for the
/// parameters of `pg_settings`.
pub open spec fn refused_settings<S: LazyCatalogSource>(
    source: &S,
    e: SourceError,
) -> bool {
    exists|r: Result<Vec<SettingDef>, SourceError>|
        #[trigger] call_ensures(S::settings, (source,), r)
            && r == Err::<Vec<SettingDef>, SourceError>(e)
}

/// Whether the schemas of the databases are needed for a table.
pub open spec fn needs_schemas(table: CatalogTable) -> bool {
    table != CatalogTable::PgDatabase
}

/// Whether the relations of the schemas are needed for a table.
pub open spec fn needs_relations(table: CatalogTable) -> bool {
    table == CatalogTable::PgClass || table == CatalogTable::PgAttrdef || table
        == CatalogTable::PgType || table == CatalogTable::PgAttribute || table
        == CatalogTable::InformationSchemaTables || table == CatalogTable::InformationSchemaColumns
}

/// Whether the columns of the relations are needed for a table.
pub open spec fn needs_columns(table: CatalogTable) -> bool {
    table == CatalogTable::PgClass || table == CatalogTable::PgAttrdef || table
        == CatalogTable::PgAttribute || table == CatalogTable::InformationSchemaColumns
}

/// Whether the indexes of the schemas are needed for a table.
pub open spec fn needs_indexes(table: CatalogTable) -> bool {
    table == CatalogTable::PgClass || table == CatalogTable::PgIndex
}

/// Whether a relation holds what the source answered of it.
pub open spec fn relation_answered<S: LazyCatalogSource>(
    table: CatalogTable,
    source: &S,
    database: Seq<char>,
    schema: Seq<char>,
    rel: RelationNode,
) -> bool {
    if needs_columns(table) {
        answered_columns(source, database, schema, rel.def.name@, rel.columns@)
    } else {
        rel.columns@.len() == 0
    }
}

/// The relations of a schema, without their columns.
pub open spec fn relation_defs(rels: Seq<RelationNode>) -> Seq<RelationDef> {
    Seq::new(rels.len(), |i: int| rels[i].def)
}

/// Whether a schema holds what the source answered of it.
pub open spec fn schema_answered<S: LazyCatalogSource>(
    table: CatalogTable,
    source: &S,
    database: Seq<char>,
    schema: SchemaNode,
) -> bool {
    let name = schema.def.name@;
    &&& if needs_relations(table) {
        answered_relations(source, database, name, relation_defs(schema.relations@))
    } else {
        schema.relations@.len() == 0
    }
    &&& forall|i: int|
        0 <= i < schema.relations@.len() ==> relation_answered(
            table,
            source,
            database,
            name,
            #[trigger] schema.relations@[i],
        )
    &&& if needs_indexes(table) {
        answered_indexes(source, database, name, schema.indexes@)
    } else {
        schema.indexes@.len() == 0
    }
    &&& if table == CatalogTable::PgConstraint {
        answered_constraints(source, database, name, schema.constraints@)
    } else {
        schema.constraints@.len() == 0
    }
}

/// The schemas of a database, without what is in them.
pub open spec fn schema_defs(schemas: Seq<SchemaNode>) -> Seq<SchemaDef> {
    Seq::new(schemas.len(), |i: int| schemas[i].def)
}

/// Whether a database holds what the source answered of it.
pub open spec fn database_answered<S: LazyCatalogSource>(
    table: CatalogTable,
    source: &S,
    db: DatabaseNode,
) -> bool {
    &&& if needs_schemas(table) {
        answered_schemas(source, db.def.datname@, schema_defs(db.schemas@))
    } else {
        db.schemas@.len() == 0
    }
    &&& forall|i: int|
        0 <= i < db.schemas@.len() ==> schema_answered(
            table,
            source,
            db.def.datname@,
            #[trigger] db.schemas@[i],
        )
}

/// The databases, without what is in them.
pub open spec fn database_defs(dbs: Seq<DatabaseNode>) -> Seq<DatabaseDef> {
    Seq::new(dbs.len(), |i: int| dbs[i].def)
}

/// Whether a snapshot holds what the source answered, as far as a table needs it.
pub open spec fn answered<S: LazyCatalogSource>(
    table: CatalogTable,
    source: &S,
    s: Snapshot,
) -> bool {
    match table {
        CatalogTable::PgConfig => answered_config(source, s.config@),
        CatalogTable::PgSettings => answered_settings(source, s.settings@),
        _ => {
            &&& answered_databases(source, database_defs(s.databases@))
            &&& forall|i: int|
                0 <= i < s.databases@.len() ==> database_answered(
                    table,
                    source,
                    #[trigger] s.databases@[i],
                )
        },
    }
}

/// Whether the relations `done` hold what the source answered of the first of `defs`, one by
/// one.
pub open spec fn relations_done<S: LazyCatalogSource>(
    table: CatalogTable,
    source: &S,
    database: Seq<char>,
    schema: Seq<char>,
    defs: Seq<RelationDef>,
    done: Seq<RelationNode>,
) -> bool {
    &&& done.len() <= defs.len()
    &&& forall|i: int|
        0 <= i < done.len() ==> (#[trigger] done[i]).def == defs[i] && relation_answered(
            table,
            source,
            database,
            schema,
            done[i],
        )
}

/// Whether the relations of a schema hold what the source answered of them.
pub open spec fn relations_answered<S: LazyCatalogSource>(
    table: CatalogTable,
    source: &S,
    database: Seq<char>,
    schema: Seq<char>,
    rels: Seq<RelationNode>,
) -> bool {
    let defs = relation_defs(rels);
    &&& answered_relations(source, database, schema, defs)
    &&& relations_done(table, source, database, schema, defs, rels)
}

/// Whether `e` ended the questions on the relations of a schema: the source answered so when it
/// was asked for the relations, or for the columns of one of them once it had answered for
/// those before it.
pub open spec fn relations_ended<S: LazyCatalogSource>(
    table: CatalogTable,
    source: &S,
    database: Seq<char>,
    schema: Seq<char>,
    e: SourceError,
) -> bool {
    ||| refused_relations(source, database, schema, e)
    ||| exists|defs: Seq<RelationDef>, done: Seq<RelationNode>|
            answered_relations(source, database, schema, defs)
                && #[trigger] relations_done(table, source, database, schema, defs, done)
                && done.len() < defs.len()
                && needs_columns(table)
                && refused_columns(source, database, schema, defs[done.len() as int].name@, e)
}

/// Whether `e` ended the questions on a schema: those on its relations, then on its indexes,
/// then on its constraints, as far as the table needs them.
pub open spec fn schema_ended<S: LazyCatalogSource>(
    table: CatalogTable,
    source: &S,
    database: Seq<char>,
    schema: Seq<char>,
    e: SourceError,
) -> bool {
    ||| needs_relations(table) && relations_ended(table, source, database, schema, e)
    ||| {
        &&& needs_relations(table) ==> exists|rels: Seq<RelationNode>|
            #[trigger] relations_answered(table, source, database, schema, rels)
        &&& needs_indexes(table)
        &&& refused_indexes(source, database, schema, e)
    }
    ||| table == CatalogTable::PgConstraint && refused_constraints(source, database, schema, e)
}

/// Whether the schemas `done` hold what the source answered of the first of `defs`, one by one.
pub open spec fn schemas_done<S: LazyCatalogSource>(
    table: CatalogTable,
    source: &S,
    database: Seq<char>,
    defs: Seq<SchemaDef>,
    done: Seq<SchemaNode>,
) -> bool {
    &&& done.len() <= defs.len()
    &&& forall|i: int|
        0 <= i < done.len() ==> (#[trigger] done[i]).def == defs[i] && schema_answered(
            table,
            source,
            database,
            done[i],
        )
}

/// Whether `e` ended the questions on a database: the source answered so when it was asked for
/// the schemas, or on one of them once it had answered on those before it.
pub open spec fn database_ended<S: LazyCatalogSource>(
    table: CatalogTable,
    source: &S,
    database: Seq<char>,
    e: SourceError,
) -> bool {
    &&& needs_schemas(table)
    &&& {
        ||| refused_schemas(source, database, e)
        ||| exists|defs: Seq<SchemaDef>, done: Seq<SchemaNode>|
                answered_schemas(source, database, defs)
                    && #[trigger] schemas_done(table, source, database, defs, done)
                    && done.len() < defs.len()
                    && schema_ended(table, source, database, defs[done.len() as int].name@, e)
    }
}

/// Whether the databases `done` hold what the source answered of the first of `defs`, one by
/// one.
pub open spec fn databases_done<S: LazyCatalogSource>(
    table: CatalogTable,
    source: &S,
    defs: Seq<DatabaseDef>,
    done: Seq<DatabaseNode>,
) -> bool {
    &&& done.len() <= defs.len()
    &&& forall|i: int|
        0 <= i < done.len() ==> (#[trigger] done[i]).def == defs[i] && database_answered(
            table,
            source,
            done[i],
        )
}

/// Whether `e` ended the questions that a table needs: it is what the source answered to one of
/// them, and the source answered all those before it. The questions are asked database by
/// database, in each schema by schema, and in each relation by relation; those for `pg_config`
/// and `pg_settings` are one each.
pub open spec fn refused_on<S: LazyCatalogSource>(
    table: CatalogTable,
    source: &S,
    e: SourceError,
) -> bool {
    match table {
        CatalogTable::PgConfig => refused_config(source, e),
        CatalogTable::PgSettings => refused_settings(source, e),
        _ => {
            ||| refused_databases(source, e)
            ||| exists|defs: Seq<DatabaseDef>, done: Seq<DatabaseNode>|
                    answered_databases(source, defs)
                        && #[trigger] databases_done(table, source, defs, done)
                        && done.len() < defs.len()
                        && database_ended(table, source, defs[done.len() as int].datname@, e)
        },
    }
}

fn fetch_relation<S: LazyCatalogSource>(
    table: CatalogTable,
    source: &S,
    database: &str,
    schema: &str,
    def: RelationDef,
) -> (r: Result<RelationNode, SourceError>)
    ensures
        match r {
            Ok(rel) => rel.def == def && relation_answered(table, source, database@, schema@, rel),
            Err(e) => needs_columns(table) && refused_columns(
                source,
                database@,
                schema@,
                def.name@,
                e,
            ),
        },
{
    let mut columns: Vec<ColumnSpec> = Vec::new();
    if table == CatalogTable::PgClass || table == CatalogTable::PgAttrdef || table
        == CatalogTable::PgAttribute || table == CatalogTable::InformationSchemaColumns {
        let relation = def.name.as_str();
        let answer = source.columns(database, schema, relation);
        assert(call_ensures(S::columns, (source, database, schema, relation), answer));
        match answer {
            Ok(v) => columns = v,
            Err(e) => return Err(e),
        }
    }
    Ok(RelationNode { def, columns })
}

fn fetch_relations<S: LazyCatalogSource>(
    table: CatalogTable,
    source: &S,
    database: &str,
    schema: &str,
) -> (r: Result<Vec<RelationNode>, SourceError>)
    ensures
        match r {
            Ok(rels) => relations_answered(table, source, database@, schema@, rels@),
            Err(e) => relations_ended(table, source, database@, schema@, e),
        },
{
    let answer = source.relations(database, schema);
    assert(call_ensures(S::relations, (source, database, schema), answer));
    let defs = match answer {
        Ok(v) => v,
        Err(e) => return Err(e),
    };
    let ghost all = defs@;
    assert(answered_relations(source, database@, schema@, all));
    let mut out: Vec<RelationNode> = Vec::new();
    for def in it: defs
        invariant
            it.seq() == all,
            answered_relations(source, database@, schema@, all),
            out@.len() == it.index(),
            forall|i: int| 0 <= i < out@.len() ==> (#[trigger] out@[i]).def == all[i],
            forall|i: int|
                0 <= i < out@.len() ==> relation_answered(
                    table,
                    source,
                    database@,
                    schema@,
                    #[trigger] out@[i],
                ),
    {
        match fetch_relation(table, source, database, schema, def) {
            Ok(rel) => out.push(rel),
            Err(e) => {
                assert(relations_done(table, source, database@, schema@, all, out@));
                return Err(e);
            },
        }
    }
    assert(relation_defs(out@) =~= all);
    Ok(out)
}

fn fetch_schema<S: LazyCatalogSource>(
    table: CatalogTable,
    source: &S,
    database: &str,
    def: SchemaDef,
) -> (r: Result<SchemaNode, SourceError>)
    ensures
        match r {
            Ok(schema) => schema.def == def && schema_answered(table, source, database@, schema),
            Err(e) => schema_ended(table, source, database@, def.name@, e),
        },
{
    let mut relations: Vec<RelationNode> = Vec::new();
    let mut indexes: Vec<IndexDef> = Vec::new();
    let mut constraints: Vec<ConstraintDef> = Vec::new();
    let name = def.name.as_str();
    if table == CatalogTable::PgClass || table == CatalogTable::PgAttrdef || table
        == CatalogTable::PgType || table == CatalogTable::PgAttribute || table
        == CatalogTable::InformationSchemaTables || table
        == CatalogTable::InformationSchemaColumns {
        match fetch_relations(table, source, database, name) {
            Ok(v) => relations = v,
            Err(e) => return Err(e),
        }
    }
    if table == CatalogTable::PgClass || table == CatalogTable::PgIndex {
        let answer = source.indexes(database, name);
        assert(call_ensures(S::indexes, (source, database, name), answer));
        match answer {
            Ok(v) => indexes = v,
            Err(e) => return Err(e),
        }
    }
    if table == CatalogTable::PgConstraint {
        let answer = source.constraints(database, name);
        assert(call_ensures(S::constraints, (source, database, name), answer));
        match answer {
            Ok(v) => constraints = v,
            Err(e) => return Err(e),
        }
    }
    Ok(SchemaNode { def, relations, indexes, constraints })
}

fn fetch_database<S: LazyCatalogSource>(table: CatalogTable, source: &S, def: DatabaseDef) -> (r:
    Result<DatabaseNode, SourceError>)
    ensures
        match r {
            Ok(db) => db.def == def && database_answered(table, source, db),
            Err(e) => database_ended(table, source, def.datname@, e),
        },
{
    let mut out: Vec<SchemaNode> = Vec::new();
    if table == CatalogTable::PgDatabase {
        return Ok(DatabaseNode { def, schemas: out });
    }
    let name = def.datname.as_str();
    let answer = source.schemas(name);
    assert(call_ensures(S::schemas, (source, name), answer));
    let defs = match answer {
        Ok(v) => v,
        Err(e) => return Err(e),
    };
    let ghost all = defs@;
    assert(answered_schemas(source, def.datname@, all));
    for schema in it: defs
        invariant
            it.seq() == all,
            answered_schemas(source, def.datname@, all),
            needs_schemas(table),
            name@ == def.datname@,
            out@.len() == it.index(),
            forall|i: int| 0 <= i < out@.len() ==> (#[trigger] out@[i]).def == all[i],
            forall|i: int|
                0 <= i < out@.len() ==> schema_answered(
                    table,
                    source,
                    def.datname@,
                    #[trigger] out@[i],
                ),
    {
        match fetch_schema(table, source, name, schema) {
            Ok(node) => out.push(node),
            Err(e) => {
                assert(schemas_done(table, source, def.datname@, all, out@));
                return Err(e);
            },
        }
    }
    assert(schema_defs(out@) =~= all);
    Ok(DatabaseNode { def, schemas: out })
}

/// Asks the source for what a table needs, and for nothing else. The first error that it
/// answers with is handed on.
pub fn fetch_snapshot<S: LazyCatalogSource>(table: CatalogTable, source: &S) -> (r: Result<
    Snapshot,
    SourceError,
>)
    ensures
        match r {
            Ok(s) => answered(table, source, s),
            Err(e) => refused_on(table, source, e),
        },
{
    let mut s = Snapshot { databases: Vec::new(), config: Vec::new(), settings: Vec::new() };
    if table == CatalogTable::PgConfig {
        let answer = source.config();
        assert(call_ensures(S::config, (source,), answer));
        match answer {
            Ok(v) => s.config = v,
            Err(e) => return Err(e),
        }
        return Ok(s);
    }
    if table == CatalogTable::PgSettings {
        let answer = source.settings();
        assert(call_ensures(S::settings, (source,), answer));
        match answer {
            Ok(v) => s.settings = v,
            Err(e) => return Err(e),
        }
        return Ok(s);
    }
    let answer = source.databases();
    assert(call_ensures(S::databases, (source,), answer));
    let defs = match answer {
        Ok(v) => v,
        Err(e) => return Err(e),
    };
    let ghost all = defs@;
    assert(answered_databases(source, all));
    let mut out: Vec<DatabaseNode> = Vec::new();
    for def in it: defs
        invariant
            it.seq() == all,
            table != CatalogTable::PgConfig && table != CatalogTable::PgSettings,
            answered_databases(source, all),
            out@.len() == it.index(),
            forall|i: int| 0 <= i < out@.len() ==> (#[trigger] out@[i]).def == all[i],
            forall|i: int|
                0 <= i < out@.len() ==> database_answered(table, source, #[trigger] out@[i]),
    {
        match fetch_database(table, source, def) {
            Ok(db) => out.push(db),
            Err(e) => {
                assert(databases_done(table, source, all, out@));
                return Err(e);
            },
        }
    }
    assert(database_defs(out@) =~= all);
    s.databases = out;
    Ok(s)
}

/// The rows of user objects in a catalog table: those of what the source answers when it is
/// asked for everything that the table needs. The first error that it answers with is handed
/// on.
pub fn build_rows_for<S: LazyCatalogSource>(table: CatalogTable, source: &S) -> (r: Result<
    Vec<Row>,
    SourceError,
>)
    ensures
        match r {
            Ok(rows) => exists|s: Snapshot|
                answered(table, source, s) && rows_view(rows@) == #[trigger] rows_for(table, s),
            Err(e) => refused_on(table, source, e),
        },
{
    match fetch_snapshot(table, source) {
        Ok(s) => {
            let rows = rows_of_snapshot(table, &s);
            assert(rows_view(rows@) == rows_for(table, s));
            Ok(rows)
        },
        Err(e) => Err(e),
    }
}

} // verus!
