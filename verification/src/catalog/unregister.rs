//! Unregistering user objects.
use super::defs::CatalogTable;
use super::registration::{
    all_changed, changes_of, found, has_int, schema_oid_of, table_oid_of, Catalog, CatalogError,
    CatalogView, Change, ChangeView, Lookup, LookupView,
};
use super::registry::{
    ensure_database_registry, registered, remove_schema_from_registry, schemas_of,
    take_schemas_from_registry, with_database, without_schema, RegistryView, SchemaRegistry,
};
use super::row::{cell_at, CellValue, CellView};
use crate::text::views;
use vstd::prelude::*;

verus! {

/// How far a removal got: the catalog as it is left, the changes that were made, and why it
/// stopped, if it did before its end.
pub struct Removal {
    pub catalog: CatalogView,
    pub changes: Seq<ChangeView>,
    pub error: Option<Seq<char>>,
}

/// What was done, and whether it was done to the end.
#[derive(Debug)]
pub struct Removed {
    pub changes: Vec<Change>,
    pub error: Option<CatalogError>,
}

/// Whether what was done is the removal.
pub open spec fn removed_as(r: Removal, after: CatalogView, done: Removed) -> bool {
    &&& after == r.catalog
    &&& changes_of(done.changes@) == r.changes
    &&& match done.error {
        Some(e) => r.error == Some(e.message@),
        None => r.error is None,
    }
}

/// The removal before anything was done.
pub open spec fn nothing_removed(cat: CatalogView) -> Removal {
    Removal { catalog: cat, changes: Seq::empty(), error: None }
}

impl Removal {
    /// The removal after more changes.
    pub open spec fn and_then(self, more: Seq<ChangeView>) -> Removal {
        Removal {
            catalog: all_changed(self.catalog, more),
            changes: self.changes + more,
            error: None,
        }
    }

    /// The removal that stopped here.
    pub open spec fn stopped(self, why: Seq<char>) -> Removal {
        Removal { error: Some(why), ..self }
    }
}

// --- tables -------------------------------------------------------------------------------------

/// The changes that take a table out of the catalog: its columns, its row type, the table
/// itself, the defaults of its columns and its constraints.
pub open spec fn table_removal(oid: i32) -> Seq<ChangeView> {
    Seq::empty()
        .push(ChangeView::DeleteOid(CatalogTable::PgAttribute, "attrelid"@, oid))
        .push(ChangeView::DeleteOid(CatalogTable::PgType, "typrelid"@, oid))
        .push(ChangeView::DeleteOid(CatalogTable::PgClass, "oid"@, oid))
        .push(ChangeView::DeleteOid(CatalogTable::PgAttrdef, "adrelid"@, oid))
        .push(ChangeView::DeleteOid(CatalogTable::PgConstraint, "conrelid"@, oid))
}

fn build_table_removal(oid: i32) -> (r: Vec<Change>)
    ensures
        changes_of(r@) == table_removal(oid),
{
    let mut v: Vec<Change> = Vec::new();
    v.push(Change::DeleteOid(CatalogTable::PgAttribute, "attrelid", oid));
    v.push(Change::DeleteOid(CatalogTable::PgType, "typrelid", oid));
    v.push(Change::DeleteOid(CatalogTable::PgClass, "oid", oid));
    v.push(Change::DeleteOid(CatalogTable::PgAttrdef, "adrelid", oid));
    v.push(Change::DeleteOid(CatalogTable::PgConstraint, "conrelid", oid));
    assert(changes_of(v@) =~= table_removal(oid));
    v
}

/// What unregistering a table does, after what was done before: nothing, if there is no such
/// schema or no such table in it.
pub open spec fn table_removed(done: Removal, schema: Seq<char>, table: Seq<char>) -> Removal {
    match schema_oid_of(done.catalog, schema) {
        Ok(Some(schema_oid)) => match table_oid_of(done.catalog, schema_oid, table) {
            Ok(Some(oid)) => done.and_then(table_removal(oid)),
            Ok(None) => done,
            Err(e) => done.stopped(e),
        },
        Ok(None) => done,
        Err(e) => done.stopped(e),
    }
}

fn append_all(done: &mut Removed, more: Vec<Change>)
    ensures
        changes_of(final(done).changes@) == changes_of(old(done).changes@) + changes_of(more@),
        final(done).error == old(done).error,
{
    let ghost before = changes_of(done.changes@);
    let ghost added = changes_of(more@);
    let mut rest = more;
    done.changes.append(&mut rest);
    assert(changes_of(done.changes@) =~= before + added);
}

fn remove_table(
    catalog: &mut Catalog,
    schema_name: &str,
    table_name: &str,
    done: &mut Removed,
    Ghost(before): Ghost<Removal>,
)
    requires
        removed_as(before, old(catalog)@, *old(done)),
        before.error is None,
    ensures
        removed_as(
            table_removed(before, schema_name@, table_name@),
            final(catalog)@,
            *final(done),
        ),
{
    match catalog.get_schema_oid(schema_name) {
        Ok(Some(schema_oid)) => match catalog.get_table_oid(schema_oid, table_name) {
            Ok(Some(oid)) => {
                let changes = build_table_removal(oid);
                catalog.apply_all(&changes);
                append_all(done, changes);
            },
            Ok(None) => {},
            Err(e) => {
                done.error = Some(e);
            },
        },
        Ok(None) => {},
        Err(e) => {
            done.error = Some(e);
        },
    }
}

fn none_done() -> (r: Removed)
    ensures
        changes_of(r.changes@) == Seq::<ChangeView>::empty(),
        r.error is None,
{
    let r = Removed { changes: Vec::new(), error: None };
    assert(changes_of(r.changes@) =~= Seq::empty());
    r
}

/// Takes a table out of the catalog, with everything that describes it. A table that was never
/// registered is no error.
pub fn unregister_tables(
    catalog: &mut Catalog,
    registry: &mut SchemaRegistry,
    database_name: &str,
    schema_name: &str,
    table_name: &str,
) -> (r: Removed)
    ensures
        removed_as(
            table_removed(nothing_removed(old(catalog)@), schema_name@, table_name@),
            final(catalog)@,
            r,
        ),
        final(registry)@ == with_database(old(registry)@, database_name@),
{
    ensure_database_registry(registry, database_name);
    let mut done = none_done();
    let ghost before = nothing_removed(catalog@);
    remove_table(catalog, schema_name, table_name, &mut done, Ghost(before));
    done
}

// --- schemas ------------------------------------------------------------------------------------

/// The names of the relations among the first `n` rows that are in a schema.
pub open spec fn relation_names(cat: CatalogView, schema_oid: i32, n: nat) -> Seq<Seq<char>>
    decreases n,
{
    if n == 0 {
        Seq::empty()
    } else {
        let names = relation_names(cat, schema_oid, (n - 1) as nat);
        let e = cat[n - 1];
        if e.0 == CatalogTable::PgClass && has_int(e.1, "relnamespace"@, schema_oid) {
            match cell_at(e.1, "relname"@) {
                CellView::Text(s) => names.push(s),
                _ => names,
            }
        } else {
            names
        }
    }
}

fn list_relation_names(catalog: &Catalog, schema_oid: i32) -> (r: Vec<String>)
    ensures
        views(r@) == relation_names(catalog@, schema_oid, catalog@.len()),
{
    let mut names: Vec<String> = Vec::new();
    let mut i: usize = 0;
    assert(views(names@) =~= Seq::empty());
    while i < catalog.entries.len()
        invariant
            i <= catalog.entries@.len(),
            views(names@) == relation_names(catalog@, schema_oid, i as nat),
        decreases catalog.entries@.len() - i,
    {
        let e = &catalog.entries[i];
        assert(catalog@[i as int] == (e.table, e.row@));
        let ghost before = views(names@);
        if e.table == CatalogTable::PgClass {
            let here = match e.row.get("relnamespace") {
                Some(CellValue::Int(n)) => *n == schema_oid as i64,
                _ => false,
            };
            if here {
                if let Some(CellValue::Text(s)) = e.row.get("relname") {
                    names.push(s.clone());
                    assert(views(names@) =~= before.push(s@));
                }
            }
        }
        i = i + 1;
    }
    names
}

/// The tables of the first `n` names taken out of a schema, one after the other, up to the
/// first failure.
pub open spec fn tables_removed(
    done: Removal,
    schema: Seq<char>,
    names: Seq<Seq<char>>,
    n: nat,
) -> Removal
    decreases n,
{
    if n == 0 {
        done
    } else {
        let so_far = tables_removed(done, schema, names, (n - 1) as nat);
        if so_far.error is Some {
            so_far
        } else {
            table_removed(so_far, schema, names[n - 1])
        }
    }
}

/// What unregistering a schema does, after what was done before: its relations go first, so
/// that none is left in a schema that is gone.
pub open spec fn schema_removed(done: Removal, schema: Seq<char>) -> Removal {
    match schema_oid_of(done.catalog, schema) {
        Ok(Some(oid)) => {
            let names = relation_names(done.catalog, oid, done.catalog.len());
            let emptied = tables_removed(done, schema, names, names.len());
            if emptied.error is Some {
                emptied
            } else {
                emptied.and_then(
                    seq![ChangeView::DeleteOid(CatalogTable::PgNamespace, "oid"@, oid)],
                )
            }
        },
        Ok(None) => done,
        Err(e) => done.stopped(e),
    }
}

/// The registry after a schema was unregistered.
pub open spec fn schema_forgotten(
    r: RegistryView,
    outcome: Removal,
    database: Seq<char>,
    schema: Seq<char>,
) -> RegistryView {
    let known = with_database(r, database);
    if outcome.error is Some {
        known
    } else {
        without_schema(known, database, schema)
    }
}

fn remove_schema(
    catalog: &mut Catalog,
    schema_name: &str,
    done: &mut Removed,
    Ghost(before): Ghost<Removal>,
)
    requires
        removed_as(before, old(catalog)@, *old(done)),
        before.error is None,
    ensures
        removed_as(schema_removed(before, schema_name@), final(catalog)@, *final(done)),
{
    let oid = match catalog.get_schema_oid(schema_name) {
        Ok(Some(oid)) => oid,
        Ok(None) => return,
        Err(e) => {
            done.error = Some(e);
            return;
        },
    };
    let names = list_relation_names(catalog, oid);
    let ghost all = views(names@);
    let mut i: usize = 0;
    while i < names.len() && done.error.is_none()
        invariant
            i <= names@.len(),
            all == views(names@),
            removed_as(
                tables_removed(before, schema_name@, all, i as nat),
                catalog@,
                *done,
            ),
            forall|k: nat|
                i <= k <= all.len() && done.error is Some ==> #[trigger] tables_removed(
                    before,
                    schema_name@,
                    all,
                    k,
                ) == tables_removed(before, schema_name@, all, i as nat),
        decreases names@.len() - i,
    {
        assert(all[i as int] == names@[i as int]@);
        let ghost so_far = tables_removed(before, schema_name@, all, i as nat);
        remove_table(catalog, schema_name, names[i].as_str(), done, Ghost(so_far));
        i = i + 1;
        proof {
            if done.error is Some {
                stopped_stays(before, schema_name@, all, i as nat);
            }
        }
    }
    assert(all.len() == names@.len());
    if done.error.is_some() {
        assert(tables_removed(before, schema_name@, all, all.len()) == tables_removed(
            before,
            schema_name@,
            all,
            i as nat,
        ));
        return;
    }
    let mut last: Vec<Change> = Vec::new();
    last.push(Change::DeleteOid(CatalogTable::PgNamespace, "oid", oid));
    assert(changes_of(last@) =~= seq![
        ChangeView::DeleteOid(CatalogTable::PgNamespace, "oid"@, oid),
    ]);
    catalog.apply_all(&last);
    append_all(done, last);
}

proof fn stopped_stays(done: Removal, schema: Seq<char>, names: Seq<Seq<char>>, i: nat)
    requires
        tables_removed(done, schema, names, i).error is Some,
    ensures
        forall|k: nat|
            i <= k ==> #[trigger] tables_removed(done, schema, names, k) == tables_removed(
                done,
                schema,
                names,
                i,
            ),
{
    assert forall|k: nat| i <= k implies #[trigger] tables_removed(done, schema, names, k)
        == tables_removed(done, schema, names, i) by {
        stopped_stays_at(done, schema, names, i, k);
    }
}

proof fn stopped_stays_at(done: Removal, schema: Seq<char>, names: Seq<Seq<char>>, i: nat, k: nat)
    requires
        tables_removed(done, schema, names, i).error is Some,
        i <= k,
    ensures
        tables_removed(done, schema, names, k) == tables_removed(done, schema, names, i),
    decreases k,
{
    if i < k {
        stopped_stays_at(done, schema, names, i, (k - 1) as nat);
    }
}

/// Takes a schema out of the catalog, with every relation in it, and forgets that the database
/// had it. A schema that was never registered is no error.
pub fn unregister_schema(
    catalog: &mut Catalog,
    registry: &mut SchemaRegistry,
    database_name: &str,
    schema_name: &str,
) -> (r: Removed)
    ensures
        removed_as(
            schema_removed(nothing_removed(old(catalog)@), schema_name@),
            final(catalog)@,
            r,
        ),
        final(registry)@ == schema_forgotten(
            old(registry)@,
            schema_removed(nothing_removed(old(catalog)@), schema_name@),
            database_name@,
            schema_name@,
        ),
{
    ensure_database_registry(registry, database_name);
    let mut done = none_done();
    let ghost before = nothing_removed(catalog@);
    remove_schema(catalog, schema_name, &mut done, Ghost(before));
    if done.error.is_none() {
        remove_schema_from_registry(registry, database_name, schema_name);
    }
    done
}

// --- databases ----------------------------------------------------------------------------------

/// The schemas that a database registered and that no other database has registered.
pub open spec fn own_schemas(r: RegistryView, database: Seq<char>) -> Seq<Seq<char>> {
    schemas_of(r, database).filter(|s: Seq<char>| !registered(r.remove(database), s))
}

/// The first `n` schemas taken out of the catalog, one after the other, up to the first
/// failure.
pub open spec fn schemas_removed(done: Removal, schemas: Seq<Seq<char>>, n: nat) -> Removal
    decreases n,
{
    if n == 0 {
        done
    } else {
        let so_far = schemas_removed(done, schemas, (n - 1) as nat);
        if so_far.error is Some {
            so_far
        } else {
            schema_removed(so_far, schemas[n - 1])
        }
    }
}

/// What unregistering a database does: the schemas that it alone registered go first, and no
/// others. A database without a row is just forgotten.
pub open spec fn database_removed(cat: CatalogView, r: RegistryView, database: Seq<char>) -> (
    Removal,
    RegistryView,
) {
    let forgotten = r.remove(database);
    if found(cat, LookupView::Database(database)) is None {
        (nothing_removed(cat), forgotten)
    } else {
        let schemas = own_schemas(r, database);
        let emptied = schemas_removed(nothing_removed(cat), schemas, schemas.len());
        if emptied.error is Some {
            (emptied, with_database(forgotten, database))
        } else {
            (
                emptied.and_then(
                    seq![ChangeView::DeleteName(CatalogTable::PgDatabase, "datname"@, database)],
                ),
                forgotten,
            )
        }
    }
}

proof fn stopped_schemas_stay(done: Removal, schemas: Seq<Seq<char>>, i: nat, k: nat)
    requires
        schemas_removed(done, schemas, i).error is Some,
        i <= k,
    ensures
        schemas_removed(done, schemas, k) == schemas_removed(done, schemas, i),
    decreases k,
{
    if i < k {
        stopped_schemas_stay(done, schemas, i, (k - 1) as nat);
    }
}

/// Forgets a database, and hands back the schemas that no other database has.
fn take_own_schemas(registry: &mut SchemaRegistry, database_name: &str) -> (r: Vec<String>)
    ensures
        views(r@) == own_schemas(old(registry)@, database_name@),
        final(registry)@ == old(registry)@.remove(database_name@),
{
    let ghost before = registry@;
    let ghost keep = |s: Seq<char>| !registered(before.remove(database_name@), s);
    let schemas = take_schemas_from_registry(registry, database_name);
    let ghost all = views(schemas@);
    let mut own: Vec<String> = Vec::new();
    let mut i: usize = 0;
    proof {
        reveal(Seq::filter);
    }
    assert(all.take(0) =~= Seq::empty());
    assert(views(own@) =~= Seq::empty());
    while i < schemas.len()
        invariant
            i <= schemas@.len(),
            all == views(schemas@),
            registry@ == before.remove(database_name@),
            keep == (|s: Seq<char>| !registered(before.remove(database_name@), s)),
            views(own@) == all.take(i as int).filter(keep),
        decreases schemas@.len() - i,
    {
        proof {
            reveal(Seq::filter);
        }
        assert(all.take(i + 1).drop_last() =~= all.take(i as int));
        assert(all.take(i + 1).last() == schemas@[i as int]@);
        let ghost so_far = views(own@);
        if !registry.has_schema(schemas[i].as_str()) {
            own.push(schemas[i].clone());
            assert(views(own@) =~= so_far.push(schemas@[i as int]@));
        }
        i = i + 1;
    }
    assert(all.take(i as int) =~= all);
    own
}

/// Takes a database out of the catalog, with every schema that it registered; one that another
/// database has registered too stays. A database that was never registered is no error.
pub fn unregister_database(
    catalog: &mut Catalog,
    registry: &mut SchemaRegistry,
    database_name: &str,
) -> (r: Removed)
    ensures
        removed_as(
            database_removed(old(catalog)@, old(registry)@, database_name@).0,
            final(catalog)@,
            r,
        ),
        final(registry)@ == database_removed(old(catalog)@, old(registry)@, database_name@).1,
{
    let mut done = none_done();
    let ghost before = nothing_removed(catalog@);
    let known = catalog.find(&Lookup::Database(database_name)).is_some();
    let schemas = take_own_schemas(registry, database_name);
    if !known {
        return done;
    }
    let ghost all = views(schemas@);
    assert(all.len() == schemas@.len());
    let mut i: usize = 0;
    while i < schemas.len() && done.error.is_none()
        invariant
            i <= schemas@.len(),
            all == views(schemas@),
            removed_as(schemas_removed(before, all, i as nat), catalog@, done),
        decreases schemas@.len() - i,
    {
        assert(all[i as int] == schemas@[i as int]@);
        let ghost so_far = schemas_removed(before, all, i as nat);
        remove_schema(catalog, schemas[i].as_str(), &mut done, Ghost(so_far));
        i = i + 1;
    }
    if done.error.is_some() {
        proof {
            stopped_schemas_stay(before, all, i as nat, all.len());
        }
        ensure_database_registry(registry, database_name);
        return done;
    }
    let mut last: Vec<Change> = Vec::new();
    last.push(
        Change::DeleteName(CatalogTable::PgDatabase, "datname", database_name.to_owned()),
    );
    assert(changes_of(last@) =~= seq![
        ChangeView::DeleteName(CatalogTable::PgDatabase, "datname"@, database_name@),
    ]);
    catalog.apply_all(&last);
    append_all(&mut done, last);
    done
}

} // verus!
