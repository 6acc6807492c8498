//! Registering and unregistering user objects.
use super::defs::{
    columns_view, CatalogTable, ColumnSpec, ColumnView, ConstraintDef, ConstraintKind,
    ConstraintView, ForeignKeyAction, ForeignKeyMatch, IndexDef, IndexView, RelationDef,
    RelationKind, RelationView, SchemaDef, SchemaView,
};
use super::registration::{
    all_changed, changes_of, found, mk_no_oid_left, next_oid, no_oid_left, schema_oid_of,
    table_oid_of, Catalog, CatalogError, CatalogView, Change, ChangeView, Lookup, LookupView,
};
use super::registry::{
    add_schema_to_registry, ensure_database_registry, with_database, with_schema, SchemaRegistry,
};
use super::row::{rows_view, CellValue, CellView, Row, RowView};
use super::rows::{
    build_index_pg_class_row, build_pg_attrdef_row, build_pg_attribute_rows, build_pg_class_row,
    build_pg_constraint_row, build_pg_index_row, build_pg_namespace_row, build_pg_type_rowtype_row,
    index_pg_class_row, pg_attrdef_row, pg_attribute_rows, pg_class_row, pg_constraint_row,
    pg_index_row, pg_namespace_row, pg_type_row, DEFAULT_OWNER_ROLE_OID,
};
use super::types::{map_type_to_oid, type_oid};
use crate::sorted::{before, before_is_strict, order_texts, Order};
use crate::text::{lowercased, signed, signed_text, views};
use vstd::prelude::*;

verus! {

/// What an operation is to do: the changes that it makes, or why it fails.
pub type Plan = Result<Seq<ChangeView>, Seq<char>>;

/// Whether an operation did what it was to do: it handed back the changes and made them, or
/// it failed and made none.
pub open spec fn carried_out(
    plan: Plan,
    before: CatalogView,
    after: CatalogView,
    r: Result<Vec<Change>, CatalogError>,
) -> bool {
    match r {
        Ok(v) => plan == Ok::<Seq<ChangeView>, Seq<char>>(changes_of(v@)) && after == all_changed(
            before,
            changes_of(v@),
        ),
        Err(e) => plan == Err::<Seq<ChangeView>, Seq<char>>(e.message@) && after == before,
    }
}

/// The change that puts a row into a table.
pub open spec fn inserted(table: CatalogTable, rows: Seq<RowView>) -> Seq<ChangeView> {
    Seq::new(rows.len(), |i: int| ChangeView::Insert(table, rows[i]))
}

fn no_changes() -> (r: Vec<Change>)
    ensures
        changes_of(r@) == Seq::<ChangeView>::empty(),
{
    let v: Vec<Change> = Vec::new();
    assert(changes_of(v@) =~= Seq::empty());
    v
}

fn push_change(v: &mut Vec<Change>, c: Change)
    ensures
        changes_of(final(v)@) == changes_of(old(v)@).push(c@),
{
    let ghost before = changes_of(v@);
    v.push(c);
    assert(changes_of(v@) =~= before.push(c@));
}

// --- databases and schemas ----------------------------------------------------------------------

/// The row of a database that is registered by its name.
pub open spec fn user_database_row(oid: i32, name: Seq<char>) -> RowView {
    Map::empty()
        .insert("datdba"@, CellView::Int(DEFAULT_OWNER_ROLE_OID as i64))
        .insert("encoding"@, CellView::Int(6))
        .insert("datcollate"@, CellView::Text("C"@))
        .insert("datctype"@, CellView::Text("C"@))
        .insert("datistemplate"@, CellView::Bool(false))
        .insert("datallowconn"@, CellView::Bool(true))
        .insert("datconnlimit"@, CellView::Int(-1i64))
        .insert("datfrozenxid"@, CellView::Int(726))
        .insert("datminmxid"@, CellView::Int(1))
        .insert("dattablespace"@, CellView::Int(1663))
        .insert("datacl"@, CellView::TextList(seq!["=Tc/dbuser"@, "dbuser=CTc/dbuser"@]))
        .insert("datname"@, CellView::Text(name))
        .insert("oid"@, CellView::Int(oid as i64))
}

fn build_user_database_row(oid: i32, name: &str) -> (r: Row)
    ensures
        r@ == user_database_row(oid, name@),
{
    let mut acl: Vec<String> = Vec::new();
    acl.push("=Tc/dbuser".to_owned());
    acl.push("dbuser=CTc/dbuser".to_owned());
    assert(views(acl@) =~= seq!["=Tc/dbuser"@, "dbuser=CTc/dbuser"@]);
    let mut row = Row::new();
    row.insert("datdba", CellValue::of_int(DEFAULT_OWNER_ROLE_OID));
    row.insert("encoding", CellValue::Int(6));
    row.insert("datcollate", CellValue::of_text("C"));
    row.insert("datctype", CellValue::of_text("C"));
    row.insert("datistemplate", CellValue::Bool(false));
    row.insert("datallowconn", CellValue::Bool(true));
    row.insert("datconnlimit", CellValue::Int(-1));
    row.insert("datfrozenxid", CellValue::Int(726));
    row.insert("datminmxid", CellValue::Int(1));
    row.insert("dattablespace", CellValue::Int(1663));
    row.insert("datacl", CellValue::TextList(acl));
    row.insert("datname", CellValue::of_text(name));
    row.insert("oid", CellValue::of_int(oid));
    row
}

/// What registering a database changes: nothing, if there is one of that name.
pub open spec fn database_plan(cat: CatalogView, name: Seq<char>) -> Plan {
    if found(cat, LookupView::Database(name)) is Some {
        Ok(Seq::empty())
    } else {
        match next_oid(cat) {
            Ok(oid) => Ok(
                seq![ChangeView::Insert(CatalogTable::PgDatabase, user_database_row(oid, name))],
            ),
            Err(e) => Err(e),
        }
    }
}

/// Registers a database. A database of that name stays as it is.
pub fn register_user_database(
    catalog: &mut Catalog,
    registry: &mut SchemaRegistry,
    database_name: &str,
) -> (r: Result<Vec<Change>, CatalogError>)
    ensures
        carried_out(
            database_plan(old(catalog)@, database_name@),
            old(catalog)@,
            final(catalog)@,
            r,
        ),
        final(registry)@ == with_database(old(registry)@, database_name@),
{
    ensure_database_registry(registry, database_name);
    let mut changes = no_changes();
    if catalog.find(&Lookup::Database(database_name)).is_none() {
        let oid = match catalog.next_catalog_oid() {
            Ok(n) => n,
            Err(e) => return Err(e),
        };
        let row = build_user_database_row(oid, database_name);
        push_change(&mut changes, Change::Insert(CatalogTable::PgDatabase, row));
        assert(changes_of(changes@) =~= database_plan(catalog@, database_name@)->Ok_0);
    }
    catalog.apply_all(&changes);
    Ok(changes)
}

/// The row of a schema that is registered by its name.
pub open spec fn user_schema_row(oid: i32, name: Seq<char>) -> RowView {
    pg_namespace_row(SchemaView { oid, name, owner_oid: None })
}

/// The OID of a schema, and what registering it changes: nothing, if there is one of that
/// name.
pub open spec fn schema_plan(cat: CatalogView, name: Seq<char>) -> Result<
    (i32, Seq<ChangeView>),
    Seq<char>,
> {
    match schema_oid_of(cat, name) {
        Ok(Some(oid)) => Ok((oid, Seq::empty())),
        Ok(None) => match next_oid(cat) {
            Ok(oid) => Ok(
                (
                    oid,
                    seq![ChangeView::Insert(CatalogTable::PgNamespace, user_schema_row(oid, name))],
                ),
            ),
            Err(e) => Err(e),
        },
        Err(e) => Err(e),
    }
}

/// Registers a schema of a database, and hands back its OID. A schema of that name stays as
/// it is, with the OID that it has.
pub fn register_schema(
    catalog: &mut Catalog,
    registry: &mut SchemaRegistry,
    database_name: &str,
    schema_name: &str,
) -> (r: Result<(i32, Vec<Change>), CatalogError>)
    ensures
        match r {
            Ok((oid, v)) => {
                &&& schema_plan(old(catalog)@, schema_name@) == Ok::<
                    (i32, Seq<ChangeView>),
                    Seq<char>,
                >((oid, changes_of(v@)))
                &&& final(catalog)@ == all_changed(old(catalog)@, changes_of(v@))
                &&& final(registry)@ == with_schema(
                    old(registry)@,
                    database_name@,
                    schema_name@,
                )
            },
            Err(e) => {
                &&& schema_plan(old(catalog)@, schema_name@) == Err::<
                    (i32, Seq<ChangeView>),
                    Seq<char>,
                >(e.message@)
                &&& final(catalog)@ == old(catalog)@
                &&& final(registry)@ == old(registry)@
            },
        },
{
    let mut changes = no_changes();
    let oid = match catalog.get_schema_oid(schema_name) {
        Ok(Some(oid)) => oid,
        Ok(None) => {
            let oid = match catalog.next_catalog_oid() {
                Ok(n) => n,
                Err(e) => return Err(e),
            };
            let row = build_pg_namespace_row(&SchemaDef::new(oid, schema_name));
            push_change(&mut changes, Change::Insert(CatalogTable::PgNamespace, row));
            assert(changes_of(changes@) =~= schema_plan(catalog@, schema_name@)->Ok_0.1);
            oid
        },
        Err(e) => return Err(e),
    };
    catalog.apply_all(&changes);
    add_schema_to_registry(registry, database_name, schema_name);
    Ok((oid, changes))
}

// --- relations --------------------------------------------------------------------------------

/// A column of a user relation, as the application describes it.
#[derive(Clone, Debug)]
pub struct ColumnDef {
    /// The declared type, such as `int` or `varchar(64)`.
    pub col_type: String,
    pub nullable: bool,
    pub has_default: bool,
}

/// A column of a user relation under its name.
#[derive(Debug)]
pub struct NamedColumn {
    pub name: String,
    pub def: ColumnDef,
}

/// The column that a description gives.
pub open spec fn described(c: NamedColumn) -> ColumnView {
    ColumnView {
        name: c.name@,
        type_oid: type_oid(lowercased(c.def.col_type@)),
        nullable: c.def.nullable,
        has_default: c.def.has_default,
    }
}

/// The one of some columns whose name comes first; of those with one name, the last.
pub open spec fn first_by_name(columns: Seq<NamedColumn>) -> NamedColumn
    recommends
        columns.len() > 0,
    decreases columns.len(),
{
    if columns.len() <= 1 {
        columns[0]
    } else {
        let first = first_by_name(columns.drop_last());
        if before(first.name@, columns.last().name@) {
            first
        } else {
            columns.last()
        }
    }
}

/// Which of some columns [`first_by_name`] is.
fn find_first_by_name(columns: &Vec<NamedColumn>) -> (r: usize)
    requires
        columns@.len() > 0,
    ensures
        r < columns@.len(),
        columns@[r as int] == first_by_name(columns@),
{
    let ghost all = columns@;
    let mut first: usize = 0;
    let mut i: usize = 1;
    while i < columns.len()
        invariant
            1 <= i <= columns@.len(),
            first < i,
            all == columns@,
            columns@[first as int] == first_by_name(all.take(i as int)),
        decreases columns@.len() - i,
    {
        assert(all.take(i + 1).drop_last() =~= all.take(i as int));
        assert(all.take(i + 1).last() == all[i as int]);
        proof {
            before_is_strict(all[first as int].name@, all[i as int].name@);
        }
        match order_texts(columns[first].name.as_str(), columns[i].name.as_str()) {
            Order::Before => {},
            _ => first = i,
        }
        i = i + 1;
    }
    assert(all.take(i as int) =~= all);
    first
}

/// The columns that the first `n` descriptions give. Each describes one column, by its name; of
/// several names the first one counts, and a description without any is skipped.
pub open spec fn described_columns(columns: Seq<Vec<NamedColumn>>, n: nat) -> Seq<ColumnView>
    decreases n,
{
    if n == 0 {
        Seq::empty()
    } else {
        let done = described_columns(columns, (n - 1) as nat);
        if columns[n - 1]@.len() == 0 {
            done
        } else {
            done.push(described(first_by_name(columns[n - 1]@)))
        }
    }
}

/// The columns that the descriptions give.
pub fn column_specs_from_defs(columns: &Vec<Vec<NamedColumn>>) -> (r: Vec<ColumnSpec>)
    ensures
        columns_view(r@) == described_columns(columns@, columns@.len()),
{
    let mut out: Vec<ColumnSpec> = Vec::new();
    let mut i: usize = 0;
    assert(columns_view(out@) =~= Seq::empty());
    while i < columns.len()
        invariant
            i <= columns@.len(),
            columns_view(out@) == described_columns(columns@, i as nat),
        decreases columns@.len() - i,
    {
        if columns[i].len() > 0 {
            let c = &columns[i][find_first_by_name(&columns[i])];
            let spec = ColumnSpec::new(
                c.name.as_str(),
                map_type_to_oid(c.def.col_type.as_str()),
                c.def.nullable,
            );
            let spec = if c.def.has_default {
                spec.with_default()
            } else {
                spec
            };
            let ghost before = columns_view(out@);
            out.push(spec);
            assert(spec@ == described(first_by_name(columns@[i as int]@)));
            assert(columns_view(out@) =~= before.push(spec@));
        }
        i = i + 1;
    }
    out
}

/// A relation that is registered by its name.
pub open spec fn user_relation(oid: i32, name: Seq<char>, kind: RelationKind) -> RelationView {
    RelationView {
        oid,
        reltype_oid: (oid + 1) as i32,
        name,
        kind,
        owner_oid: None,
        has_index: false,
        has_rules: false,
        has_triggers: false,
        row_security: false,
    }
}

/// The numbers of the columns with defaults among the first `n`.
pub open spec fn default_numbers(columns: Seq<ColumnView>, n: nat) -> Seq<i32>
    decreases n,
{
    if n == 0 {
        Seq::empty()
    } else {
        let done = default_numbers(columns, (n - 1) as nat);
        if columns[n - 1].has_default {
            done.push(n as i32)
        } else {
            done
        }
    }
}

/// The OID of the `k`-th default of the relation with the OID `oid`: the relation and its row
/// type come first.
pub open spec fn default_oid(oid: i32, k: nat) -> i32 {
    (oid + 2 + k) as i32
}

/// The rows of the defaults of a relation.
pub open spec fn default_rows(oid: i32, numbers: Seq<i32>) -> Seq<RowView> {
    Seq::new(
        numbers.len(),
        |k: int| pg_attrdef_row(default_oid(oid, k as nat), oid, numbers[k]),
    )
}

/// What registering a new relation changes: it puts in the rows of the relation, of its row
/// type, of its columns and of their defaults.
pub open spec fn relation_changes(
    oid: i32,
    schema_oid: i32,
    name: Seq<char>,
    kind: RelationKind,
    columns: Seq<ColumnView>,
) -> Seq<ChangeView> {
    let rel = user_relation(oid, name, kind);
    Seq::empty().push(
        ChangeView::Insert(
            CatalogTable::PgClass,
            pg_class_row(rel, schema_oid, columns.len() as i32),
        ),
    ).push(ChangeView::Insert(CatalogTable::PgType, pg_type_row(rel, schema_oid))) + inserted(
        CatalogTable::PgAttribute,
        pg_attribute_rows(oid, columns),
    ) + inserted(
        CatalogTable::PgAttrdef,
        default_rows(oid, default_numbers(columns, columns.len())),
    )
}

/// What registering a relation changes: nothing, if the schema has one of that name.
pub open spec fn relation_plan(
    cat: CatalogView,
    schema_oid: i32,
    name: Seq<char>,
    kind: RelationKind,
    columns: Seq<ColumnView>,
) -> Plan {
    if found(cat, LookupView::Relation(schema_oid, name)) is Some {
        Ok(Seq::empty())
    } else if found(cat, LookupView::SchemaOid(schema_oid)) is None {
        Err(
            "schema oid "@ + signed(schema_oid as int) + " not found while registering relation '"@
                + name + "'"@,
        )
    } else {
        match next_oid(cat) {
            Ok(oid) => if columns.len() > i32::MAX {
                Err(
                    "relation '"@ + name + "' was registered with "@ + signed(columns.len() as int)
                        + " columns, more than the int4 pg_class.relnatts column can hold"@,
                )
            } else if oid + 1 + default_numbers(columns, columns.len()).len() > i32::MAX {
                Err(no_oid_left())
            } else {
                Ok(relation_changes(oid, schema_oid, name, kind, columns))
            },
            Err(e) => Err(e),
        }
    }
}

fn insert_rows(table: CatalogTable, rows: Vec<Row>, changes: &mut Vec<Change>)
    ensures
        changes_of(final(changes)@) == changes_of(old(changes)@) + inserted(
            table,
            rows_view(rows@),
        ),
{
    let ghost before = changes_of(changes@);
    let ghost all = rows_view(rows@);
    let ghost goal = inserted(table, all);
    let ghost given = rows@;
    assert(before + goal.take(0) =~= before);
    for row in it: rows
        invariant
            it.seq() == given,
            all == rows_view(given),
            goal == inserted(table, all),
            changes_of(changes@) == before + goal.take(it.index() as int),
    {
        let ghost i = it.index() as int;
        assert(all[i] == row@);
        push_change(changes, Change::Insert(table, row));
        assert(before + goal.take(i + 1) =~= (before + goal.take(i)).push(goal[i]));
    }
    assert(goal.take(goal.len() as int) =~= goal);
}

fn collect_default_numbers(columns: &Vec<ColumnSpec>) -> (r: Vec<i32>)
    requires
        columns@.len() <= i32::MAX,
    ensures
        r@ == default_numbers(columns_view(columns@), columns@.len()),
{
    let ghost all = columns_view(columns@);
    let mut out: Vec<i32> = Vec::new();
    let mut i: usize = 0;
    while i < columns.len()
        invariant
            i <= columns@.len(),
            columns@.len() <= i32::MAX,
            all == columns_view(columns@),
            out@ == default_numbers(all, i as nat),
        decreases columns@.len() - i,
    {
        assert(all[i as int] == columns@[i as int]@);
        i = i + 1;
        if columns[i - 1].has_default {
            out.push(i as i32);
        }
    }
    out
}

fn build_default_rows(oid: i32, numbers: &Vec<i32>) -> (r: Vec<Row>)
    requires
        0 <= oid,
        oid + 1 + numbers@.len() <= i32::MAX,
    ensures
        rows_view(r@) == default_rows(oid, numbers@),
{
    let ghost goal = default_rows(oid, numbers@);
    let mut rows = super::row::no_rows();
    let mut k: usize = 0;
    assert(goal.take(0) =~= Seq::empty());
    while k < numbers.len()
        invariant
            k <= numbers@.len(),
            0 <= oid,
            oid + 1 + numbers@.len() <= i32::MAX,
            goal == default_rows(oid, numbers@),
            rows_view(rows@) == goal.take(k as int),
        decreases numbers@.len() - k,
    {
        super::row::push_row(
            &mut rows,
            build_pg_attrdef_row(oid + 2 + k as i32, oid, numbers[k]),
        );
        k = k + 1;
        assert(goal.take(k as int) =~= goal.take(k - 1).push(goal[k - 1]));
    }
    assert(goal.take(k as int) =~= goal);
    rows
}

fn build_relation_changes(
    oid: i32,
    schema_oid: i32,
    name: &str,
    kind: RelationKind,
    columns: &Vec<ColumnSpec>,
    numbers: &Vec<i32>,
) -> (r: Vec<Change>)
    requires
        0 <= oid < i32::MAX,
        columns@.len() <= i32::MAX,
        numbers@ == default_numbers(columns_view(columns@), columns@.len()),
        oid + 1 + numbers@.len() <= i32::MAX,
    ensures
        changes_of(r@) == relation_changes(oid, schema_oid, name@, kind, columns_view(columns@)),
{
    let rel = RelationDef {
        oid,
        reltype_oid: oid + 1,
        name: name.to_owned(),
        kind,
        owner_oid: None,
        has_index: false,
        has_rules: false,
        has_triggers: false,
        row_security: false,
    };
    assert(rel@ == user_relation(oid, name@, kind));
    let mut changes = no_changes();
    let class_row = build_pg_class_row(&rel, schema_oid, columns.len() as i32);
    push_change(&mut changes, Change::Insert(CatalogTable::PgClass, class_row));
    let type_row = build_pg_type_rowtype_row(&rel, schema_oid);
    push_change(&mut changes, Change::Insert(CatalogTable::PgType, type_row));
    insert_rows(
        CatalogTable::PgAttribute,
        build_pg_attribute_rows(oid, columns),
        &mut changes,
    );
    insert_rows(CatalogTable::PgAttrdef, build_default_rows(oid, numbers), &mut changes);
    changes
}

fn register_user_relation(
    catalog: &mut Catalog,
    schema_oid: i32,
    relation_name: &str,
    kind: RelationKind,
    columns: &Vec<Vec<NamedColumn>>,
) -> (r: Result<Vec<Change>, CatalogError>)
    ensures
        carried_out(
            relation_plan(
                old(catalog)@,
                schema_oid,
                relation_name@,
                kind,
                described_columns(columns@, columns@.len()),
            ),
            old(catalog)@,
            final(catalog)@,
            r,
        ),
{
    if catalog.find(&Lookup::Relation(schema_oid, relation_name)).is_some() {
        return Ok(no_changes());
    }
    if catalog.find(&Lookup::SchemaOid(schema_oid)).is_none() {
        let mut message = "schema oid ".to_owned();
        message.append(signed_text(schema_oid as i64).as_str());
        message.append(" not found while registering relation '");
        message.append(relation_name);
        message.append("'");
        return Err(CatalogError { message });
    }
    let oid = match catalog.next_catalog_oid() {
        Ok(n) => n,
        Err(e) => return Err(e),
    };
    let specs = column_specs_from_defs(columns);
    let count: usize = specs.len();
    assert(columns_view(specs@).len() == specs@.len());
    if count as u128 > 2147483647u128 {
        let mut message = "relation '".to_owned();
        message.append(relation_name);
        message.append("' was registered with ");
        message.append(crate::text::decimal_text(count as u64).as_str());
        message.append(" columns, more than the int4 pg_class.relnatts column can hold");
        return Err(CatalogError { message });
    }
    let numbers = collect_default_numbers(&specs);
    if oid as i128 + 1 + numbers.len() as i128 > 2147483647i128 {
        return Err(mk_no_oid_left());
    }
    let changes = build_relation_changes(oid, schema_oid, relation_name, kind, &specs, &numbers);
    catalog.apply_all(&changes);
    Ok(changes)
}

/// Registers a table in the schema with the OID `schema_oid`. A relation of that name in that
/// schema stays as it is.
pub fn register_user_tables(
    catalog: &mut Catalog,
    schema_oid: i32,
    table_name: &str,
    columns: &Vec<Vec<NamedColumn>>,
) -> (r: Result<Vec<Change>, CatalogError>)
    ensures
        carried_out(
            relation_plan(
                old(catalog)@,
                schema_oid,
                table_name@,
                RelationKind::Table,
                described_columns(columns@, columns@.len()),
            ),
            old(catalog)@,
            final(catalog)@,
            r,
        ),
{
    register_user_relation(catalog, schema_oid, table_name, RelationKind::Table, columns)
}

/// Registers a view in the schema with the OID `schema_oid`. A relation of that name in that
/// schema stays as it is.
pub fn register_user_view(
    catalog: &mut Catalog,
    schema_oid: i32,
    view_name: &str,
    columns: &Vec<Vec<NamedColumn>>,
) -> (r: Result<Vec<Change>, CatalogError>)
    ensures
        carried_out(
            relation_plan(
                old(catalog)@,
                schema_oid,
                view_name@,
                RelationKind::View,
                described_columns(columns@, columns@.len()),
            ),
            old(catalog)@,
            final(catalog)@,
            r,
        ),
{
    register_user_relation(catalog, schema_oid, view_name, RelationKind::View, columns)
}

// --- indexes and constraints --------------------------------------------------------------------

/// An index that is to be registered.
#[derive(Debug)]
pub struct NewIndex {
    pub name: String,
    pub table: String,
    pub key_attnums: Vec<i32>,
    pub is_unique: bool,
    pub is_primary: bool,
}

/// An index that is registered for the table with the OID `table_oid`.
pub open spec fn user_index(oid: i32, table_oid: i32, new: NewIndex) -> IndexView {
    IndexView {
        index_oid: oid,
        index_name: new.name@,
        table_oid,
        key_attnums: new.key_attnums@,
        is_unique: new.is_unique,
        is_primary: new.is_primary,
    }
}

/// That a table is not in a schema, while `what` is registered.
pub open spec fn no_table(
    table: Seq<char>,
    schema_oid: i32,
    what: Seq<char>,
    name: Seq<char>,
) -> Seq<char> {
    "table '"@ + table + "' not found in schema oid "@ + signed(schema_oid as int)
        + " while registering "@ + what + " '"@ + name + "'"@
}

fn mk_no_table(table: &str, schema_oid: i32, what: &str, name: &str) -> (r: CatalogError)
    ensures
        r.message@ == no_table(table@, schema_oid, what@, name@),
{
    let mut message = "table '".to_owned();
    message.append(table);
    message.append("' not found in schema oid ");
    message.append(signed_text(schema_oid as i64).as_str());
    message.append(" while registering ");
    message.append(what);
    message.append(" '");
    message.append(name);
    message.append("'");
    CatalogError { message }
}

/// What registering an index changes: nothing, if the schema has a relation of its name.
pub open spec fn index_plan(cat: CatalogView, schema_oid: i32, new: NewIndex) -> Plan {
    match table_oid_of(cat, schema_oid, new.table@) {
        Ok(Some(table_oid)) => match table_oid_of(cat, schema_oid, new.name@) {
            Ok(Some(_)) => Ok(Seq::empty()),
            Ok(None) => match next_oid(cat) {
                Ok(oid) => {
                    let index = user_index(oid, table_oid, new);
                    Ok(
                        Seq::empty().push(
                            ChangeView::Insert(
                                CatalogTable::PgClass,
                                index_pg_class_row(index, schema_oid),
                            ),
                        ).push(ChangeView::Insert(CatalogTable::PgIndex, pg_index_row(index))),
                    )
                },
                Err(e) => Err(e),
            },
            Err(e) => Err(e),
        },
        Ok(None) => Err(no_table(new.table@, schema_oid, "index"@, new.name@)),
        Err(e) => Err(e),
    }
}

/// Registers an index of a table in the schema with the OID `schema_oid`. A relation of its
/// name in that schema stays as it is.
pub fn register_user_index(catalog: &mut Catalog, schema_oid: i32, new: &NewIndex) -> (r: Result<
    Vec<Change>,
    CatalogError,
>)
    ensures
        carried_out(
            index_plan(old(catalog)@, schema_oid, *new),
            old(catalog)@,
            final(catalog)@,
            r,
        ),
{
    let table_oid = match catalog.get_table_oid(schema_oid, new.table.as_str()) {
        Ok(Some(oid)) => oid,
        Ok(None) => return Err(
            mk_no_table(new.table.as_str(), schema_oid, "index", new.name.as_str()),
        ),
        Err(e) => return Err(e),
    };
    match catalog.get_table_oid(schema_oid, new.name.as_str()) {
        Ok(Some(_)) => return Ok(no_changes()),
        Ok(None) => {},
        Err(e) => return Err(e),
    }
    let oid = match catalog.next_catalog_oid() {
        Ok(n) => n,
        Err(e) => return Err(e),
    };
    let index = IndexDef {
        index_oid: oid,
        index_name: new.name.clone(),
        table_oid,
        key_attnums: super::row::copy_ints(&new.key_attnums),
        is_unique: new.is_unique,
        is_primary: new.is_primary,
    };
    assert(index@ == user_index(oid, table_oid, *new));
    let mut changes = no_changes();
    let class_row = build_index_pg_class_row(&index, schema_oid);
    push_change(&mut changes, Change::Insert(CatalogTable::PgClass, class_row));
    push_change(&mut changes, Change::Insert(CatalogTable::PgIndex, build_pg_index_row(&index)));
    catalog.apply_all(&changes);
    Ok(changes)
}

/// A constraint that is to be registered.
#[derive(Debug)]
pub struct NewConstraint {
    pub name: String,
    pub table: String,
    pub kind: ConstraintKind,
    pub key_attnums: Vec<i32>,
    /// The table that a foreign key refers to, in the same schema.
    pub referenced_table: Option<String>,
    pub referenced_key_attnums: Vec<i32>,
}

/// A constraint that is registered for the table with the OID `table_oid`.
pub open spec fn user_constraint(
    oid: i32,
    schema_oid: i32,
    table_oid: i32,
    new: NewConstraint,
    referenced: Option<i32>,
) -> ConstraintView {
    ConstraintView {
        oid,
        name: new.name@,
        kind: new.kind,
        namespace_oid: schema_oid,
        table_oid,
        key_attnums: new.key_attnums@,
        index_oid: 0,
        referenced_table_oid: match referenced {
            Some(n) => n,
            None => 0,
        },
        referenced_key_attnums: match referenced {
            Some(_) => new.referenced_key_attnums@,
            None => Seq::empty(),
        },
        on_update: ForeignKeyAction::NoAction,
        on_delete: ForeignKeyAction::NoAction,
        match_type: ForeignKeyMatch::Simple,
    }
}

/// That a foreign key has another number of columns than it refers to.
pub open spec fn key_mismatch(name: Seq<char>, columns: nat, referenced: nat) -> Seq<char> {
    "foreign key '"@ + name + "' has "@ + signed(columns as int) + " key column(s) but "@ + signed(
        referenced as int,
    ) + " referenced column(s); they are positionally matched and must be equal in number"@
}

impl super::defs::KeyMismatch {
    /// What is said of it.
    pub fn message(&self) -> (r: String)
        ensures
            r@ == key_mismatch(self.name@, self.columns as nat, self.referenced as nat),
    {
        let mut message = "foreign key '".to_owned();
        message.append(self.name.as_str());
        message.append("' has ");
        message.append(crate::text::decimal_text(self.columns as u64).as_str());
        message.append(" key column(s) but ");
        message.append(crate::text::decimal_text(self.referenced as u64).as_str());
        message.append(
            " referenced column(s); they are positionally matched and must be equal in number",
        );
        message
    }
}

/// The OID of the table that a new constraint refers to: none unless it is a foreign key.
pub open spec fn referenced_oid(cat: CatalogView, schema_oid: i32, new: NewConstraint) -> Result<
    Option<i32>,
    Seq<char>,
> {
    if new.kind != ConstraintKind::ForeignKey {
        Ok(None)
    } else {
        match new.referenced_table {
            Some(table) => match table_oid_of(cat, schema_oid, table@) {
                Ok(Some(oid)) => if new.key_attnums@.len() != new.referenced_key_attnums@.len() {
                    Err(
                        key_mismatch(
                            new.name@,
                            new.key_attnums@.len(),
                            new.referenced_key_attnums@.len(),
                        ),
                    )
                } else {
                    Ok(Some(oid))
                },
                Ok(None) => Err(
                    "referenced table '"@ + table@ + "' not found in schema oid "@ + signed(
                        schema_oid as int,
                    ) + " while registering foreign key '"@ + new.name@ + "'"@,
                ),
                Err(e) => Err(e),
            },
            None => Err("foreign key '"@ + new.name@ + "' requires a referenced table name"@),
        }
    }
}

/// What registering a constraint changes: nothing, if the table has one of its name.
pub open spec fn constraint_plan(cat: CatalogView, schema_oid: i32, new: NewConstraint) -> Plan {
    match table_oid_of(cat, schema_oid, new.table@) {
        Ok(Some(table_oid)) => if found(
            cat,
            LookupView::Constraint(table_oid, new.name@),
        ) is Some {
            Ok(Seq::empty())
        } else {
            match next_oid(cat) {
                Ok(oid) => match referenced_oid(cat, schema_oid, new) {
                    Ok(referenced) => Ok(
                        seq![
                            ChangeView::Insert(
                                CatalogTable::PgConstraint,
                                pg_constraint_row(
                                    user_constraint(oid, schema_oid, table_oid, new, referenced),
                                ),
                            ),
                        ],
                    ),
                    Err(e) => Err(e),
                },
                Err(e) => Err(e),
            }
        },
        Ok(None) => Err(no_table(new.table@, schema_oid, "constraint"@, new.name@)),
        Err(e) => Err(e),
    }
}

fn find_referenced(catalog: &Catalog, schema_oid: i32, new: &NewConstraint) -> (r: Result<
    i32,
    CatalogError,
>)
    requires
        new.kind == ConstraintKind::ForeignKey,
    ensures
        match r {
            Ok(oid) => match new.referenced_table {
                Some(table) => table_oid_of(catalog@, schema_oid, table@) == Ok::<
                    Option<i32>,
                    Seq<char>,
                >(Some(oid)),
                None => false,
            },
            Err(e) => referenced_oid(catalog@, schema_oid, *new) == Err::<
                Option<i32>,
                Seq<char>,
            >(e.message@),
        },
{
    match &new.referenced_table {
        Some(table) => match catalog.get_table_oid(schema_oid, table.as_str()) {
            Ok(Some(oid)) => Ok(oid),
            Ok(None) => {
                let mut message = "referenced table '".to_owned();
                message.append(table.as_str());
                message.append("' not found in schema oid ");
                message.append(signed_text(schema_oid as i64).as_str());
                message.append(" while registering foreign key '");
                message.append(new.name.as_str());
                message.append("'");
                Err(CatalogError { message })
            },
            Err(e) => Err(e),
        },
        None => {
            let mut message = "foreign key '".to_owned();
            message.append(new.name.as_str());
            message.append("' requires a referenced table name");
            Err(CatalogError { message })
        },
    }
}

fn build_constraint(
    catalog: &Catalog,
    oid: i32,
    schema_oid: i32,
    table_oid: i32,
    new: &NewConstraint,
) -> (r: Result<ConstraintDef, CatalogError>)
    ensures
        match r {
            Ok(c) => match referenced_oid(catalog@, schema_oid, *new) {
                Ok(referenced) => c@ == user_constraint(
                    oid,
                    schema_oid,
                    table_oid,
                    *new,
                    referenced,
                ),
                Err(_) => false,
            },
            Err(e) => referenced_oid(catalog@, schema_oid, *new) == Err::<
                Option<i32>,
                Seq<char>,
            >(e.message@),
        },
{
    let name = new.name.as_str();
    let keys = super::row::copy_ints(&new.key_attnums);
    match new.kind {
        ConstraintKind::ForeignKey => {
            let referenced = match find_referenced(catalog, schema_oid, new) {
                Ok(oid) => oid,
                Err(e) => return Err(e),
            };
            let referenced_keys = super::row::copy_ints(&new.referenced_key_attnums);
            match ConstraintDef::foreign_key(
                oid,
                name,
                schema_oid,
                table_oid,
                keys,
                referenced,
                referenced_keys,
                0,
            ) {
                Ok(c) => Ok(c),
                Err(e) => Err(CatalogError { message: e.message() }),
            }
        },
        ConstraintKind::PrimaryKey => {
            let c = ConstraintDef::primary_key(oid, name, schema_oid, table_oid, keys, 0);
            assert(c@.referenced_key_attnums =~= Seq::empty());
            Ok(c)
        },
        ConstraintKind::Unique => {
            let c = ConstraintDef::unique(oid, name, schema_oid, table_oid, keys, 0);
            assert(c@.referenced_key_attnums =~= Seq::empty());
            Ok(c)
        },
    }
}

/// Registers a constraint of a table in the schema with the OID `schema_oid`. A constraint of
/// that name on that table stays as it is.
pub fn register_user_constraint(
    catalog: &mut Catalog,
    schema_oid: i32,
    new: &NewConstraint,
) -> (r: Result<Vec<Change>, CatalogError>)
    ensures
        carried_out(
            constraint_plan(old(catalog)@, schema_oid, *new),
            old(catalog)@,
            final(catalog)@,
            r,
        ),
{
    let table_oid = match catalog.get_table_oid(schema_oid, new.table.as_str()) {
        Ok(Some(oid)) => oid,
        Ok(None) => return Err(
            mk_no_table(new.table.as_str(), schema_oid, "constraint", new.name.as_str()),
        ),
        Err(e) => return Err(e),
    };
    if catalog.find(&Lookup::Constraint(table_oid, new.name.as_str())).is_some() {
        return Ok(no_changes());
    }
    let oid = match catalog.next_catalog_oid() {
        Ok(n) => n,
        Err(e) => return Err(e),
    };
    let constraint = match build_constraint(catalog, oid, schema_oid, table_oid, new) {
        Ok(c) => c,
        Err(e) => return Err(e),
    };
    let mut changes = no_changes();
    push_change(
        &mut changes,
        Change::Insert(CatalogTable::PgConstraint, build_pg_constraint_row(&constraint)),
    );
    assert(changes_of(changes@) =~= constraint_plan(catalog@, schema_oid, *new)->Ok_0);
    catalog.apply_all(&changes);
    Ok(changes)
}

} // verus!
