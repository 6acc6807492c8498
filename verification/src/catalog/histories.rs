//! What holds of several registrations in a row.
use super::cells::attribute_describes_column;
use super::defs::{relkind_of, CatalogTable, ColumnView, RelationKind, RelationView};
use super::laws::{
    database_is_registered_once, describes, filter_is_contained, found_is_there,
    found_stays, index_oid_is_first, inserts_add_rows, numbered_alone, numbered_apart, one_change,
    only_inserts, other_databases_keep_schemas, relation_changes_insert,
    relation_is_registered_once, relation_keys, rows_put, schema_is_registered_once,
    schema_oid_is_first, within,
};
use super::operations::{
    constraint_plan, database_plan, default_numbers, default_rows, described, described_columns,
    first_by_name, index_plan, relation_changes, relation_plan, schema_plan, user_relation,
    NamedColumn, NewConstraint, NewIndex,
};
use super::registration::{
    all_changed, found, found_if_there, has_int, has_text, is_sought, next_oid, next_oid_is_unused,
    other_name, other_oid, schema_oid_of, table_oid_of, CatalogView, ChangeView, LookupView,
};
use super::registry::{schemas_of, with_database, with_schema, RegistryView};
use super::row::{cell_at, CellView, RowView};
use super::rows::{count_of, pg_attribute_row, pg_attribute_rows, pg_class_row, pg_type_row};
use super::types::types_have_their_oids;
use super::unregister::{
    database_removed, nothing_removed, own_schemas, relation_names, schema_removed, schemas_removed,
    table_removal, table_removed, tables_removed, Removal,
};
use crate::text::{lowercased, starts_with};
use vstd::prelude::*;

verus! {

// --- OIDs stay apart --------------------------------------------------------------------------

/// Whether a table holds schemas or relations.
spec fn is_counted(table: CatalogTable) -> bool {
    table == CatalogTable::PgClass || table == CatalogTable::PgNamespace
}

/// Whether, of rows that are to be added to a catalog, at most the first is a schema or a
/// relation, and that one has the next OID.
spec fn one_is_new(cat: CatalogView, more: CatalogView) -> bool {
    &&& forall|i: int| 0 < i < more.len() ==> !is_counted((#[trigger] more[i]).0)
    &&& more.len() > 0 && is_counted(more[0].0) ==> next_oid(cat) is Ok && cell_at(
        more[0].1,
        "oid"@,
    ) == CellView::Int(next_oid(cat)->Ok_0 as i64)
}

proof fn new_rows_are_apart(cat: CatalogView, more: CatalogView, schema_oid: i32)
    requires
        numbered_alone(cat, schema_oid),
        one_is_new(cat, more),
    ensures
        numbered_alone(cat + more, schema_oid),
{
    let all = cat + more;
    assert forall|e: (CatalogTable, RowView)| #[trigger] all.contains(e) && is_counted(e.0)
        && !cat.contains(e) implies more.len() > 0 && e == more[0] by {
        let i = choose|i: int| 0 <= i < all.len() && all[i] == e;
        if i < cat.len() {
            assert(cat[i] == e);
        } else {
            assert(more[i - cat.len()] == e);
        }
    }
    assert forall|e: (CatalogTable, RowView)| #[trigger] cat.contains(e) && is_counted(e.0)
        && more.len() > 0 && is_counted(more[0].0) implies cell_at(e.1, "oid"@) != cell_at(
        more[0].1,
        "oid"@,
    ) by {
        let i = choose|i: int| 0 <= i < cat.len() && cat[i] == e;
        if cell_at(e.1, "oid"@) is Int {
            next_oid_is_unused(cat, i);
        }
    }
}

proof fn plan_keeps_alone(cat: CatalogView, changes: Seq<ChangeView>, schema_oid: i32)
    requires
        numbered_alone(cat, schema_oid),
        only_inserts(changes),
        one_is_new(cat, rows_put(changes)),
    ensures
        numbered_alone(all_changed(cat, changes), schema_oid),
{
    inserts_add_rows(cat, changes);
    new_rows_are_apart(cat, rows_put(changes), schema_oid);
}

proof fn schema_keeps_alone(cat: CatalogView, name: Seq<char>, schema_oid: i32)
    requires
        numbered_alone(cat, schema_oid),
        schema_plan(cat, name) is Ok,
    ensures
        numbered_alone(all_changed(cat, schema_plan(cat, name)->Ok_0.1), schema_oid),
{
    schema_oid_is_first(cat, name);
    plan_keeps_alone(cat, schema_plan(cat, name)->Ok_0.1, schema_oid);
}

proof fn relation_keeps_alone(
    cat: CatalogView,
    target: i32,
    name: Seq<char>,
    kind: RelationKind,
    columns: Seq<ColumnView>,
    schema_oid: i32,
)
    requires
        numbered_alone(cat, schema_oid),
        relation_plan(cat, target, name, kind, columns) is Ok,
    ensures
        numbered_alone(
            all_changed(cat, relation_plan(cat, target, name, kind, columns)->Ok_0),
            schema_oid,
        ),
{
    let changes = relation_plan(cat, target, name, kind, columns)->Ok_0;
    relation_is_one_new(cat, target, name, kind, columns);
    plan_keeps_alone(cat, changes, schema_oid);
}

/// Registering leaves the OIDs of schemas and relations apart: what is registered gets an OID
/// that none of them has.
pub proof fn registering_keeps_numbers_apart(
    cat: CatalogView,
    target: i32,
    name: Seq<char>,
    kind: RelationKind,
    columns: Seq<ColumnView>,
    index: NewIndex,
    constraint: NewConstraint,
)
    requires
        numbered_apart(cat),
    ensures
        database_plan(cat, name) matches Ok(changes) ==> numbered_apart(all_changed(cat, changes)),
        schema_plan(cat, name) matches Ok(p) ==> numbered_apart(all_changed(cat, p.1)),
        relation_plan(cat, target, name, kind, columns) matches Ok(changes) ==> numbered_apart(
            all_changed(cat, changes),
        ),
        index_plan(cat, target, index) matches Ok(changes) ==> numbered_apart(
            all_changed(cat, changes),
        ),
        constraint_plan(cat, target, constraint) matches Ok(changes) ==> numbered_apart(
            all_changed(cat, changes),
        ),
{
    if let Ok(changes) = database_plan(cat, name) {
        assert forall|o: i32| #[trigger] numbered_alone(all_changed(cat, changes), o) by {
            assert(numbered_alone(cat, o));
            plan_keeps_alone(cat, changes, o);
        }
    }
    if let Ok(p) = schema_plan(cat, name) {
        assert forall|o: i32| #[trigger] numbered_alone(all_changed(cat, p.1), o) by {
            assert(numbered_alone(cat, o));
            schema_keeps_alone(cat, name, o);
        }
    }
    if let Ok(changes) = relation_plan(cat, target, name, kind, columns) {
        assert forall|o: i32| #[trigger] numbered_alone(all_changed(cat, changes), o) by {
            assert(numbered_alone(cat, o));
            relation_keeps_alone(cat, target, name, kind, columns, o);
        }
    }
    if let Ok(changes) = index_plan(cat, target, index) {
        assert forall|o: i32| #[trigger] numbered_alone(all_changed(cat, changes), o) by {
            assert(numbered_alone(cat, o));
            index_oid_is_first(cat, target, index);
            plan_keeps_alone(cat, changes, o);
        }
    }
    if let Ok(changes) = constraint_plan(cat, target, constraint) {
        assert forall|o: i32| #[trigger] numbered_alone(all_changed(cat, changes), o) by {
            assert(numbered_alone(cat, o));
            plan_keeps_alone(cat, changes, o);
        }
    }
}

// --- rows only leave --------------------------------------------------------------------------

proof fn deletions_stay_within(cat: CatalogView, changes: Seq<ChangeView>)
    requires
        forall|i: int| 0 <= i < changes.len() ==> !((#[trigger] changes[i]) is Insert),
    ensures
        within(all_changed(cat, changes), cat),
    decreases changes.len(),
{
    if changes.len() > 0 {
        let rest = changes.drop_last();
        assert forall|i: int| 0 <= i < rest.len() implies !((#[trigger] rest[i]) is Insert) by {
            assert(rest[i] == changes[i]);
        }
        deletions_stay_within(cat, rest);
        let before = all_changed(cat, rest);
        assert(!(changes[changes.len() - 1] is Insert));
        let keep = match changes.last() {
            ChangeView::DeleteOid(table, column, oid) => other_oid(table, column, oid),
            ChangeView::DeleteName(table, column, name) => other_name(table, column, name),
            ChangeView::Insert(_, _) => |e: (CatalogTable, RowView)| true,
        };
        assert(all_changed(cat, changes) == before.filter(keep));
        assert forall|e: (CatalogTable, RowView)| #[trigger]
            all_changed(cat, changes).contains(e) implies cat.contains(e) by {
            filter_is_contained(before, keep, e);
        }
    }
}

/// Whether one catalog has only rows of another, and all of its databases.
spec fn thinned(a: CatalogView, b: CatalogView) -> bool {
    &&& within(a, b)
    &&& forall|e: (CatalogTable, RowView)| #[trigger]
        b.contains(e) && e.0 == CatalogTable::PgDatabase ==> a.contains(e)
}

proof fn deletions_spare_databases(
    cat: CatalogView,
    changes: Seq<ChangeView>,
    e: (CatalogTable, RowView),
)
    requires
        forall|i: int|
            0 <= i < changes.len() ==> (#[trigger] changes[i]) is DeleteOid
                && changes[i]->DeleteOid_0 != CatalogTable::PgDatabase,
        cat.contains(e),
        e.0 == CatalogTable::PgDatabase,
    ensures
        all_changed(cat, changes).contains(e),
    decreases changes.len(),
{
    if changes.len() > 0 {
        let rest = changes.drop_last();
        assert forall|i: int| 0 <= i < rest.len() implies (#[trigger] rest[i]) is DeleteOid
            && rest[i]->DeleteOid_0 != CatalogTable::PgDatabase by {
            assert(rest[i] == changes[i]);
        }
        deletions_spare_databases(cat, rest, e);
        assert(changes[changes.len() - 1] is DeleteOid);
        let last = changes.last();
        filter_is_contained(
            all_changed(cat, rest),
            other_oid(last->DeleteOid_0, last->DeleteOid_1, last->DeleteOid_2),
            e,
        );
    }
}

proof fn deletions_thin(cat: CatalogView, changes: Seq<ChangeView>)
    requires
        forall|i: int|
            0 <= i < changes.len() ==> (#[trigger] changes[i]) is DeleteOid
                && changes[i]->DeleteOid_0 != CatalogTable::PgDatabase,
    ensures
        thinned(all_changed(cat, changes), cat),
{
    deletions_stay_within(cat, changes);
    assert forall|e: (CatalogTable, RowView)| #[trigger]
        cat.contains(e) && e.0 == CatalogTable::PgDatabase implies all_changed(
        cat,
        changes,
    ).contains(e) by {
        deletions_spare_databases(cat, changes, e);
    }
}

proof fn table_stays_within(done: Removal, schema: Seq<char>, table: Seq<char>)
    ensures
        thinned(table_removed(done, schema, table).catalog, done.catalog),
{
    if let Ok(Some(o)) = schema_oid_of(done.catalog, schema) {
        if let Ok(Some(oid)) = table_oid_of(done.catalog, o, table) {
            deletions_thin(done.catalog, table_removal(oid));
        }
    }
}

proof fn tables_stay_within(done: Removal, schema: Seq<char>, names: Seq<Seq<char>>, n: nat)
    ensures
        thinned(tables_removed(done, schema, names, n).catalog, done.catalog),
    decreases n,
{
    if n > 0 {
        tables_stay_within(done, schema, names, (n - 1) as nat);
        table_stays_within(
            tables_removed(done, schema, names, (n - 1) as nat),
            schema,
            names[n - 1],
        );
    }
}

proof fn schema_stays_within(done: Removal, schema: Seq<char>)
    ensures
        thinned(schema_removed(done, schema).catalog, done.catalog),
{
    if let Ok(Some(o)) = schema_oid_of(done.catalog, schema) {
        let names = relation_names(done.catalog, o, done.catalog.len());
        tables_stay_within(done, schema, names, names.len());
        let emptied = tables_removed(done, schema, names, names.len());
        deletions_thin(
            emptied.catalog,
            seq![ChangeView::DeleteOid(CatalogTable::PgNamespace, "oid"@, o)],
        );
    }
}

proof fn schemas_stay_within(done: Removal, schemas: Seq<Seq<char>>, n: nat)
    ensures
        thinned(schemas_removed(done, schemas, n).catalog, done.catalog),
    decreases n,
{
    if n > 0 {
        schemas_stay_within(done, schemas, (n - 1) as nat);
        schema_stays_within(schemas_removed(done, schemas, (n - 1) as nat), schemas[n - 1]);
    }
}

/// Unregistering only takes rows away.
pub proof fn unregistering_adds_nothing(cat: CatalogView, r: RegistryView, database: Seq<char>)
    ensures
        within(database_removed(cat, r, database).0.catalog, cat),
{
    let schemas = own_schemas(r, database);
    schemas_stay_within(nothing_removed(cat), schemas, schemas.len());
    let emptied = schemas_removed(nothing_removed(cat), schemas, schemas.len());
    deletions_stay_within(
        emptied.catalog,
        seq![ChangeView::DeleteName(CatalogTable::PgDatabase, "datname"@, database)],
    );
}

/// Unregistering a table, a schema or a database leaves the OIDs of schemas and relations apart.
pub proof fn unregistering_keeps_numbers_apart(
    cat: CatalogView,
    r: RegistryView,
    database: Seq<char>,
    schema: Seq<char>,
    table: Seq<char>,
)
    requires
        numbered_apart(cat),
    ensures
        numbered_apart(table_removed(nothing_removed(cat), schema, table).catalog),
        numbered_apart(schema_removed(nothing_removed(cat), schema).catalog),
        numbered_apart(database_removed(cat, r, database).0.catalog),
{
    table_stays_within(nothing_removed(cat), schema, table);
    schema_stays_within(nothing_removed(cat), schema);
    unregistering_adds_nothing(cat, r, database);
    let a = table_removed(nothing_removed(cat), schema, table).catalog;
    let b = schema_removed(nothing_removed(cat), schema).catalog;
    let c = database_removed(cat, r, database).0.catalog;
    assert forall|o: i32| #[trigger] numbered_alone(a, o) by {
        assert(numbered_alone(cat, o));
    }
    assert forall|o: i32| #[trigger] numbered_alone(b, o) by {
        assert(numbered_alone(cat, o));
    }
    assert forall|o: i32| #[trigger] numbered_alone(c, o) by {
        assert(numbered_alone(cat, o));
    }
}

// --- nothing stands in the way ----------------------------------------------------------------

/// Whether every schema and every relation has an OID.
pub open spec fn has_oids(cat: CatalogView) -> bool {
    forall|e: (CatalogTable, RowView)| #[trigger]
        cat.contains(e) && (e.0 == CatalogTable::PgClass || e.0 == CatalogTable::PgNamespace) ==> (
        cell_at(e.1, "oid"@) matches CellView::Int(n) && i32::MIN <= n <= i32::MAX)
}

proof fn oids_are_read(cat: CatalogView, schema: Seq<char>, schema_oid: i32, table: Seq<char>)
    requires
        has_oids(cat),
    ensures
        schema_oid_of(cat, schema) is Ok,
        table_oid_of(cat, schema_oid, table) is Ok,
{
    if found(cat, LookupView::Schema(schema)) is Some {
        found_is_there(cat, LookupView::Schema(schema), 0);
    }
    if found(cat, LookupView::Relation(schema_oid, table)) is Some {
        found_is_there(cat, LookupView::Relation(schema_oid, table), 0);
    }
}

proof fn table_is_removed(done: Removal, schema: Seq<char>, table: Seq<char>)
    requires
        has_oids(done.catalog),
        done.error is None,
    ensures
        table_removed(done, schema, table).error is None,
{
    oids_are_read(done.catalog, schema, 0, table);
    if let Ok(Some(o)) = schema_oid_of(done.catalog, schema) {
        oids_are_read(done.catalog, schema, o, table);
    }
}

proof fn tables_are_removed(done: Removal, schema: Seq<char>, names: Seq<Seq<char>>, n: nat)
    requires
        has_oids(done.catalog),
        done.error is None,
    ensures
        tables_removed(done, schema, names, n).error is None,
    decreases n,
{
    if n > 0 {
        let so_far = tables_removed(done, schema, names, (n - 1) as nat);
        tables_are_removed(done, schema, names, (n - 1) as nat);
        tables_stay_within(done, schema, names, (n - 1) as nat);
        table_is_removed(so_far, schema, names[n - 1]);
    }
}

proof fn schemas_are_removed(done: Removal, schemas: Seq<Seq<char>>, n: nat)
    requires
        has_oids(done.catalog),
        done.error is None,
    ensures
        schemas_removed(done, schemas, n).error is None,
    decreases n,
{
    if n > 0 {
        let so_far = schemas_removed(done, schemas, (n - 1) as nat);
        schemas_are_removed(done, schemas, (n - 1) as nat);
        schemas_stay_within(done, schemas, (n - 1) as nat);
        let schema = schemas[n - 1];
        oids_are_read(so_far.catalog, schema, 0, schema);
        if let Ok(Some(o)) = schema_oid_of(so_far.catalog, schema) {
            let names = relation_names(so_far.catalog, o, so_far.catalog.len());
            tables_are_removed(so_far, schema, names, names.len());
        }
    }
}

/// Where every schema and every relation has an OID, a database is unregistered to the end.
pub proof fn unregistering_comes_to_an_end(cat: CatalogView, r: RegistryView, database: Seq<char>)
    requires
        has_oids(cat),
    ensures
        database_removed(cat, r, database).0.error is None,
{
    let schemas = own_schemas(r, database);
    schemas_are_removed(nothing_removed(cat), schemas, schemas.len());
}

// --- a schema of two databases ----------------------------------------------------------------

/// The catalog and the registry after the databases `a` and `b` were registered, each of them with
/// the schema `schema`, and then the table `table` in that schema, and the OID of the schema; none
/// if one of these steps fails.
pub open spec fn shared_schema(
    cat: CatalogView,
    r: RegistryView,
    a: Seq<char>,
    b: Seq<char>,
    schema: Seq<char>,
    table: Seq<char>,
    columns: Seq<ColumnView>,
) -> Option<(CatalogView, RegistryView, i32)> {
    match database_plan(cat, a) {
        Ok(first) => {
            let cat1 = all_changed(cat, first);
            match database_plan(cat1, b) {
                Ok(second) => {
                    let cat2 = all_changed(cat1, second);
                    let known = with_database(with_database(r, a), b);
                    match schema_plan(cat2, schema) {
                        Ok((_, third)) => {
                            let cat3 = all_changed(cat2, third);
                            match schema_plan(cat3, schema) {
                                Ok((oid, fourth)) => {
                                    let cat4 = all_changed(cat3, fourth);
                                    match relation_plan(
                                        cat4,
                                        oid,
                                        table,
                                        RelationKind::Table,
                                        columns,
                                    ) {
                                        Ok(fifth) => Some(
                                            (
                                                all_changed(cat4, fifth),
                                                with_schema(
                                                    with_schema(known, a, schema),
                                                    b,
                                                    schema,
                                                ),
                                                oid,
                                            ),
                                        ),
                                        Err(_) => None,
                                    }
                                },
                                Err(_) => None,
                            }
                        },
                        Err(_) => None,
                    }
                },
                Err(_) => None,
            }
        },
        Err(_) => None,
    }
}

proof fn more_rows_have_oids(cat: CatalogView, changes: Seq<ChangeView>)
    requires
        has_oids(cat),
        only_inserts(changes),
        one_is_new(cat, rows_put(changes)),
    ensures
        has_oids(all_changed(cat, changes)),
{
    inserts_add_rows(cat, changes);
    let more = rows_put(changes);
    let all = cat + more;
    assert forall|e: (CatalogTable, RowView)| #[trigger]
        all.contains(e) && is_counted(e.0) implies (cell_at(e.1, "oid"@) matches CellView::Int(n)
        && i32::MIN <= n <= i32::MAX) by {
        let i = choose|i: int| 0 <= i < all.len() && all[i] == e;
        if i < cat.len() {
            assert(cat[i] == e);
            assert(cat.contains(e));
        } else {
            assert(more[i - cat.len()] == e);
        }
    }
}

proof fn relation_is_one_new(
    cat: CatalogView,
    target: i32,
    name: Seq<char>,
    kind: RelationKind,
    columns: Seq<ColumnView>,
)
    requires
        relation_plan(cat, target, name, kind, columns) is Ok,
    ensures
        only_inserts(relation_plan(cat, target, name, kind, columns)->Ok_0),
        one_is_new(cat, rows_put(relation_plan(cat, target, name, kind, columns)->Ok_0)),
{
    let changes = relation_plan(cat, target, name, kind, columns)->Ok_0;
    if changes.len() > 0 {
        let oid = next_oid(cat)->Ok_0;
        assert(changes == relation_changes(oid, target, name, kind, columns));
        relation_changes_insert(oid, target, name, kind, columns);
        relation_keys(oid, target, name, kind, columns);
        let rows = rows_put(changes);
        assert forall|i: int| 0 < i < rows.len() implies !is_counted((#[trigger] rows[i]).0) by {}
    }
}

/// A schema that two databases registered survives the end of one of them, with the table that
/// was registered in it: unregistering `a` succeeds and takes its row away, and leaves the row of
/// `b`, the row of the schema, and every row that describes a relation in the schema.
pub proof fn shared_schema_survives(
    cat: CatalogView,
    r: RegistryView,
    a: Seq<char>,
    b: Seq<char>,
    schema: Seq<char>,
    table: Seq<char>,
    columns: Seq<ColumnView>,
)
    requires
        a != b,
        has_oids(cat),
        shared_schema(cat, r, a, b, schema, table, columns) is Some,
        ({
            let (_, _, oid) = shared_schema(cat, r, a, b, schema, table, columns)->0;
            numbered_alone(cat, oid)
        }),
    ensures
        ({
            let (before, registry, oid) = shared_schema(cat, r, a, b, schema, table, columns)->0;
            let removal = database_removed(before, registry, a).0;
            &&& removal.error is None
            &&& found(removal.catalog, LookupView::Database(a)) is None
            &&& found(removal.catalog, LookupView::Database(b)) is Some
            &&& found(before, LookupView::Relation(oid, table)) is Some
            &&& schema_oid_of(before, schema) == Ok::<Option<i32>, Seq<char>>(Some(oid))
            &&& forall|e: (CatalogTable, RowView)| #[trigger]
                before.contains(e) && describes(before, oid, e) ==> removal.catalog.contains(e)
        }),
{
    let (before, registry, oid) = shared_schema(cat, r, a, b, schema, table, columns)->0;
    let first = database_plan(cat, a)->Ok_0;
    let cat1 = all_changed(cat, first);
    let second = database_plan(cat1, b)->Ok_0;
    let cat2 = all_changed(cat1, second);
    let third = schema_plan(cat2, schema)->Ok_0.1;
    let cat3 = all_changed(cat2, third);
    let fourth = schema_plan(cat3, schema)->Ok_0.1;
    let cat4 = all_changed(cat3, fourth);
    let fifth = relation_plan(cat4, oid, table, RelationKind::Table, columns)->Ok_0;
    assert(before == all_changed(cat4, fifth));
    // OIDs.
    plan_keeps_alone(cat, first, oid);
    plan_keeps_alone(cat1, second, oid);
    schema_keeps_alone(cat2, schema, oid);
    schema_keeps_alone(cat3, schema, oid);
    relation_keeps_alone(cat4, oid, table, RelationKind::Table, columns, oid);
    more_rows_have_oids(cat, first);
    more_rows_have_oids(cat1, second);
    schema_oid_is_first(cat2, schema);
    schema_oid_is_first(cat3, schema);
    more_rows_have_oids(cat2, third);
    more_rows_have_oids(cat3, fourth);
    relation_is_one_new(cat4, oid, table, RelationKind::Table, columns);
    more_rows_have_oids(cat4, fifth);
    unregistering_comes_to_an_end(before, registry, a);
    // What was registered is there.
    database_is_registered_once(cat, a);
    database_is_registered_once(cat1, b);
    schema_is_registered_once(cat3, schema);
    inserts_add_rows(cat1, second);
    inserts_add_rows(cat2, third);
    inserts_add_rows(cat3, fourth);
    inserts_add_rows(cat4, fifth);
    found_stays(cat1, rows_put(second), LookupView::Database(a), 0);
    found_stays(cat2, rows_put(third), LookupView::Database(a), 0);
    found_stays(cat2, rows_put(third), LookupView::Database(b), 0);
    found_stays(cat3, rows_put(fourth), LookupView::Database(a), 0);
    found_stays(cat3, rows_put(fourth), LookupView::Database(b), 0);
    found_stays(cat4, rows_put(fifth), LookupView::Database(a), 0);
    found_stays(cat4, rows_put(fifth), LookupView::Database(b), 0);
    found_stays(cat4, rows_put(fifth), LookupView::Schema(schema), 0);
    assert(schema_oid_of(before, schema) == Ok::<Option<i32>, Seq<char>>(Some(oid)));
    relation_is_registered_once(
        cat4,
        oid,
        table,
        RelationKind::Table,
        columns,
        RelationKind::Table,
        columns,
    );
    // What stays.
    let removal = database_removed(before, registry, a).0;
    let listed = schemas_of(registry, b);
    assert(listed.contains(schema)) by {
        let known = with_schema(with_database(with_database(r, a), b), a, schema);
        let old = schemas_of(known, b);
        if !old.contains(schema) {
            assert(old.push(schema)[old.len() as int] == schema);
        }
    }
    assert forall|e: (CatalogTable, RowView)| #[trigger]
        before.contains(e) && describes(before, oid, e) implies removal.catalog.contains(e) by {
        other_databases_keep_schemas(before, registry, a, b, schema, oid, e);
    }
    // The rows of the databases.
    let schemas = own_schemas(registry, a);
    let emptied = schemas_removed(nothing_removed(before), schemas, schemas.len());
    let gone = ChangeView::DeleteName(CatalogTable::PgDatabase, "datname"@, a);
    let keep = other_name(CatalogTable::PgDatabase, "datname"@, a);
    schemas_stay_within(nothing_removed(before), schemas, schemas.len());
    one_change(emptied.catalog, gone);
    assert(removal.catalog == emptied.catalog.filter(keep));
    found_is_there(before, LookupView::Database(b), 0);
    let row = choose|e: (CatalogTable, RowView)| #[trigger]
        before.contains(e) && is_sought(LookupView::Database(b), e) && e.1 == found(
            before,
            LookupView::Database(b),
        )->0;
    filter_is_contained(emptied.catalog, keep, row);
    let i = choose|i: int| 0 <= i < removal.catalog.len() && removal.catalog[i] == row;
    found_if_there(removal.catalog, LookupView::Database(b), 0);
    assert(is_sought(LookupView::Database(b), removal.catalog[i]));
    if found(removal.catalog, LookupView::Database(a)) is Some {
        found_is_there(removal.catalog, LookupView::Database(a), 0);
        let left = choose|e: (CatalogTable, RowView)| #[trigger]
            removal.catalog.contains(e) && is_sought(LookupView::Database(a), e) && e.1 == found(
                removal.catalog,
                LookupView::Database(a),
            )->0;
        filter_is_contained(emptied.catalog, keep, left);
    }
}

// --- a new relation ---------------------------------------------------------------------------

/// The descriptions that name a column.
pub open spec fn naming(descriptions: Seq<Vec<NamedColumn>>) -> Seq<Vec<NamedColumn>> {
    descriptions.filter(|d: Vec<NamedColumn>| d@.len() > 0)
}

proof fn descriptions_give_columns(descriptions: Seq<Vec<NamedColumn>>, n: nat)
    requires
        n <= descriptions.len(),
    ensures
        ({
            let columns = described_columns(descriptions, n);
            let given = naming(descriptions.take(n as int));
            &&& columns.len() == given.len()
            &&& forall|i: int|
                0 <= i < columns.len() ==> #[trigger] columns[i] == described(
                    first_by_name(given[i]@),
                )
        }),
    decreases n,
{
    reveal(Seq::filter);
    if n > 0 {
        descriptions_give_columns(descriptions, (n - 1) as nat);
        let first = descriptions.take(n as int);
        assert(first.drop_last() =~= descriptions.take(n - 1));
        assert(first.last() == descriptions[n - 1]);
    }
}

proof fn class_cells(def: RelationView, schema_oid: i32, natts: i32)
    ensures
        cell_at(pg_class_row(def, schema_oid, natts), "relkind"@) == CellView::Text(
            relkind_of(def.kind),
        ),
        cell_at(pg_class_row(def, schema_oid, natts), "relnatts"@) == CellView::Int(natts as i64),
{
    reveal_strlit("reltype");
    reveal_strlit("relkind");
    reveal_strlit("relam");
    reveal_strlit("reltuples");
    reveal_strlit("relispartition");
    reveal_strlit("relowner");
    reveal_strlit("relhasindex");
    reveal_strlit("relhasrules");
    reveal_strlit("relhastriggers");
    reveal_strlit("relrowsecurity");
    reveal_strlit("relispopulated");
    reveal_strlit("relpersistence");
    reveal_strlit("relreplident");
    reveal_strlit("relnatts");
    reveal_strlit("relchecks");
    reveal_strlit("relhassubclass");
    reveal_strlit("relfilenode");
    reveal_strlit("reltablespace");
    reveal_strlit("relpages");
    reveal_strlit("relallvisible");
    reveal_strlit("reltoastrelid");
    reveal_strlit("relfrozenxid");
    reveal_strlit("relminmxid");
    reveal_strlit("relnamespace");
    reveal_strlit("relname");
    reveal_strlit("oid");
    let kind = "relkind"@;
    let natts_name = "relnatts"@;
    assert(kind.len() == 7);
    assert("relowner"@.len() == 8);
    assert(natts_name.len() == 8);
    assert(kind[3] == 'k');
    assert("relname"@[3] == 'n');
    assert(natts_name[3] == 'n');
    assert("relpages"@[3] == 'p');
}

/// A relation that was not there is described in full. Each description that names a column gives
/// one, in order. The catalog grows by the row of the relation, with its kind, its schema and the
/// number of its columns, by that of its row type, whose OID is the next one after that of the
/// relation, by one for each column, numbered from one, and by one for each default. Registering
/// it again then changes nothing.
pub proof fn new_relation_is_described(
    cat: CatalogView,
    schema_oid: i32,
    name: Seq<char>,
    kind: RelationKind,
    descriptions: Seq<Vec<NamedColumn>>,
)
    requires
        relation_plan(
            cat,
            schema_oid,
            name,
            kind,
            described_columns(descriptions, descriptions.len()),
        ) is Ok,
        found(cat, LookupView::Relation(schema_oid, name)) is None,
    ensures
        ({
            let oid = next_oid(cat)->Ok_0;
            let given = naming(descriptions);
            let columns = described_columns(descriptions, descriptions.len());
            let numbers = default_numbers(columns, columns.len());
            let after = all_changed(cat, relation_plan(cat, schema_oid, name, kind, columns)->Ok_0);
            let rows = after.skip(cat.len() as int);
            &&& columns.len() == given.len()
            &&& forall|i: int|
                0 <= i < columns.len() ==> #[trigger] columns[i] == described(
                    first_by_name(given[i]@),
                )
            &&& after.take(cat.len() as int) == cat
            &&& rows.len() == 2 + columns.len() + numbers.len()
            &&& rows[0].0 == CatalogTable::PgClass
            &&& has_int(rows[0].1, "oid"@, oid)
            &&& has_text(rows[0].1, "relname"@, name)
            &&& has_int(rows[0].1, "relnamespace"@, schema_oid)
            &&& has_text(rows[0].1, "relkind"@, relkind_of(kind))
            &&& cell_at(rows[0].1, "relnatts"@) == CellView::Int(columns.len() as i64)
            &&& rows[1].0 == CatalogTable::PgType
            &&& has_int(rows[1].1, "typrelid"@, oid)
            &&& cell_at(rows[1].1, "oid"@) == CellView::Int((oid + 1) as i64)
            &&& forall|i: int|
                0 <= i < columns.len() ==> (#[trigger] rows[2 + i]).0 == CatalogTable::PgAttribute
                    && has_int(rows[2 + i].1, "attrelid"@, oid) && cell_at(
                    rows[2 + i].1,
                    "attnum"@,
                ) == CellView::Int((i + 1) as i64) && has_text(
                    rows[2 + i].1,
                    "attname"@,
                    columns[i].name,
                ) && has_int(rows[2 + i].1, "atttypid"@, columns[i].type_oid) && cell_at(
                    rows[2 + i].1,
                    "attnotnull"@,
                ) == CellView::Bool(!columns[i].nullable)
            &&& forall|k: int|
                0 <= k < numbers.len() ==> (#[trigger] rows[2 + columns.len() + k]).0
                    == CatalogTable::PgAttrdef && has_int(
                    rows[2 + columns.len() + k].1,
                    "adrelid"@,
                    oid,
                ) && has_int(rows[2 + columns.len() + k].1, "adnum"@, numbers[k])
            &&& relation_plan(after, schema_oid, name, kind, columns) == Ok::<
                Seq<ChangeView>,
                Seq<char>,
            >(Seq::empty())
        }),
{
    let oid = next_oid(cat)->Ok_0;
    let columns = described_columns(descriptions, descriptions.len());
    descriptions_give_columns(descriptions, descriptions.len());
    assert(descriptions.take(descriptions.len() as int) =~= descriptions);
    let numbers = default_numbers(columns, columns.len());
    let changes = relation_changes(oid, schema_oid, name, kind, columns);
    let after = all_changed(cat, changes);
    let rows = rows_put(changes);
    let def = user_relation(oid, name, kind);
    relation_changes_insert(oid, schema_oid, name, kind, columns);
    inserts_add_rows(cat, changes);
    assert(after.take(cat.len() as int) =~= cat);
    assert(after.skip(cat.len() as int) =~= rows);
    relation_keys(oid, schema_oid, name, kind, columns);
    class_cells(def, schema_oid, columns.len() as i32);
    assert(rows[1] == (CatalogTable::PgType, pg_type_row(def, schema_oid)));
    assert forall|i: int| 0 <= i < columns.len() implies (#[trigger] rows[2 + i]).0
        == CatalogTable::PgAttribute && has_int(rows[2 + i].1, "attrelid"@, oid) && cell_at(
        rows[2 + i].1,
        "attnum"@,
    ) == CellView::Int((i + 1) as i64) && has_text(rows[2 + i].1, "attname"@, columns[i].name)
        && has_int(rows[2 + i].1, "atttypid"@, columns[i].type_oid) && cell_at(
        rows[2 + i].1,
        "attnotnull"@,
    ) == CellView::Bool(!columns[i].nullable) by {
        attribute_describes_column(oid, columns[i], count_of((i + 1) as nat));
        assert(rows[2 + i] == (CatalogTable::PgAttribute, pg_attribute_rows(oid, columns)[i]));
    }
    assert forall|k: int| 0 <= k < numbers.len() implies (#[trigger] rows[2 + columns.len() + k]).0
        == CatalogTable::PgAttrdef && has_int(
        rows[2 + columns.len() + k].1,
        "adrelid"@,
        oid,
    ) && has_int(rows[2 + columns.len() + k].1, "adnum"@, numbers[k]) by {
        reveal_strlit("adnum");
        reveal_strlit("adbin");
        reveal_strlit("adrelid");
        reveal_strlit("oid");
        assert("adnum"@[2] == 'n' && "adbin"@[2] == 'b');
        assert(rows[2 + columns.len() + k] == (
            CatalogTable::PgAttrdef,
            default_rows(oid, numbers)[k],
        ));
    }
    relation_is_registered_once(cat, schema_oid, name, kind, columns, kind, columns);
}

/// What a description says of a column is what its row in `pg_attribute` says: its name, `NOT
/// NULL` exactly if it is not nullable, and the OID of its type, 23 for `int`, 20 for `bigint`, 16
/// for `boolean`, 1043 for `varchar` of any length and 25 for anything else.
pub proof fn descriptions_are_kept(relid: i32, c: NamedColumn, attnum: i32)
    ensures
        ({
            let row = pg_attribute_row(relid, described(c), attnum);
            let declared = lowercased(c.def.col_type@);
            &&& cell_at(row, "attname"@) == CellView::Text(c.name@)
            &&& cell_at(row, "attnotnull"@) == CellView::Bool(!c.def.nullable)
            &&& cell_at(row, "atthasdef"@) == CellView::Bool(c.def.has_default)
            &&& declared == "int"@ || declared == "integer"@ || declared == "int4"@ ==> cell_at(
                row,
                "atttypid"@,
            ) == CellView::Int(23)
            &&& declared == "bigint"@ || declared == "int8"@ ==> cell_at(row, "atttypid"@)
                == CellView::Int(20)
            &&& declared == "bool"@ || declared == "boolean"@ ==> cell_at(row, "atttypid"@)
                == CellView::Int(16)
            &&& starts_with(declared, "varchar"@) || starts_with(declared, "character varying"@)
                ==> cell_at(row, "atttypid"@) == CellView::Int(1043)
            &&& declared == "text"@ ==> cell_at(row, "atttypid"@) == CellView::Int(25)
        }),
{
    attribute_describes_column(relid, described(c), attnum);
    types_have_their_oids(lowercased(c.def.col_type@));
}

} // verus!
