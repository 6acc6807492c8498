//! What holds of registering and unregistering as a whole.
use super::defs::{
    columns_view, CatalogTable, ColumnSpec, ColumnView, IndexView, RelationKind, RelationView,
    SchemaDef,
};
use super::operations::{
    database_plan, default_numbers, default_oid, default_rows, index_plan, relation_changes,
    relation_plan, schema_plan, user_relation, user_schema_row, NewIndex,
};
use super::registration::{
    all_changed, changed, found, found_from, has_int, has_text, is_sought, next_oid, other_name,
    other_oid, schema_oid_of, table_oid_of, CatalogView, ChangeView, LookupView,
};
use super::source::{
    attrdef_oid, attrdef_rows, column_defaults, database_defaults, databases_rows, index_rows,
    relation_defaults, relation_rows as rows_of_relation, relations_rows, rows_for, schema_defaults,
    schema_rows, schemas_rows, DatabaseNode, DefaultColumn, RelationNode, SchemaNode, Snapshot,
};
use super::registry::{registered, schemas_of, RegistryView};
use super::row::{cell_at, CellView, RowView};
use super::rows::{
    count_of, index_pg_class_row, pg_attrdef_row, pg_attribute_row, pg_attribute_rows,
    pg_class_row, pg_type_row,
};
use super::unregister::{
    database_removed, nothing_removed, own_schemas, relation_names, schema_removed, schemas_removed,
    table_removal, table_removed, tables_removed, Removal,
};
use vstd::prelude::*;

verus! {

// --- keys -------------------------------------------------------------------------------------

pub(crate) proof fn names_of_keys()
    ensures
        "oid"@ != "datname"@,
        "oid"@ != "nspname"@,
        "oid"@ != "relname"@,
        "oid"@ != "relnamespace"@,
        "relname"@ != "relnamespace"@,
        "oid"@ != "typrelid"@,
        "oid"@ != "adrelid"@,
{
    reveal_strlit("oid");
    reveal_strlit("datname");
    reveal_strlit("nspname");
    reveal_strlit("relname");
    reveal_strlit("relnamespace");
    reveal_strlit("typrelid");
    reveal_strlit("adrelid");
    assert("oid"@.len() == 3);
    assert("datname"@.len() == 7);
    assert("nspname"@.len() == 7);
    assert("relname"@.len() == 7);
    assert("relnamespace"@.len() == 12);
    assert("typrelid"@.len() == 8);
    assert("adrelid"@.len() == 7);
}

/// The keys of the rows that describe a relation: its own OID, its name and its schema, and
/// its OID in the rows of its row type, of its columns and of their defaults.
pub proof fn relation_keys(
    oid: i32,
    schema_oid: i32,
    name: Seq<char>,
    kind: RelationKind,
    columns: Seq<ColumnView>,
)
    ensures
        has_int(
            pg_class_row(user_relation(oid, name, kind), schema_oid, columns.len() as i32),
            "oid"@,
            oid,
        ),
        has_text(
            pg_class_row(user_relation(oid, name, kind), schema_oid, columns.len() as i32),
            "relname"@,
            name,
        ),
        has_int(
            pg_class_row(user_relation(oid, name, kind), schema_oid, columns.len() as i32),
            "relnamespace"@,
            schema_oid,
        ),
        has_int(pg_type_row(user_relation(oid, name, kind), schema_oid), "typrelid"@, oid),
        forall|i: int|
            0 <= i < columns.len() ==> has_int(
                #[trigger] pg_attribute_rows(oid, columns)[i],
                "attrelid"@,
                oid,
            ),
        forall|numbers: Seq<i32>, i: int|
            0 <= i < numbers.len() ==> has_int(
                #[trigger] default_rows(oid, numbers)[i],
                "adrelid"@,
                oid,
            ),
{
    names_of_keys();
}

// --- growing catalogs -------------------------------------------------------------------------

/// What is found stays found when rows are added; where nothing was found, the search goes on
/// in the added rows.
pub proof fn found_stays(cat: CatalogView, more: CatalogView, l: LookupView, i: nat)
    requires
        i <= cat.len(),
    ensures
        found_from(cat, l, i) is Some ==> found_from(cat + more, l, i) == found_from(cat, l, i),
        found_from(cat, l, i) is None ==> found_from(cat + more, l, i) == found_from(
            cat + more,
            l,
            cat.len(),
        ),
    decreases cat.len() - i,
{
    if i < cat.len() {
        assert((cat + more)[i as int] == cat[i as int]);
        if !is_sought(l, cat[i as int]) {
            found_stays(cat, more, l, i + 1);
        }
    }
}

pub(crate) proof fn first_added_is_found(cat: CatalogView, more: CatalogView, l: LookupView)
    requires
        found(cat, l) is None,
        more.len() > 0,
        is_sought(l, more[0]),
    ensures
        found(cat + more, l) == Some(more[0].1),
{
    found_stays(cat, more, l, 0);
    assert((cat + more)[cat.len() as int] == more[0]);
}

/// Whether the changes only put rows in.
pub open spec fn only_inserts(changes: Seq<ChangeView>) -> bool {
    forall|i: int| 0 <= i < changes.len() ==> (#[trigger] changes[i]) is Insert
}

/// The rows that changes put in.
pub open spec fn rows_put(changes: Seq<ChangeView>) -> CatalogView {
    Seq::new(changes.len(), |i: int| (changes[i]->Insert_0, changes[i]->Insert_1))
}

/// Changes that only put rows in add them at the end, in their order.
pub proof fn inserts_add_rows(cat: CatalogView, changes: Seq<ChangeView>)
    requires
        only_inserts(changes),
    ensures
        all_changed(cat, changes) == cat + rows_put(changes),
    decreases changes.len(),
{
    if changes.len() == 0 {
        assert(cat + rows_put(changes) =~= cat);
    } else {
        let rest = changes.drop_last();
        assert forall|i: int| 0 <= i < rest.len() implies (#[trigger] rest[i]) is Insert by {
            assert(rest[i] == changes[i]);
        }
        inserts_add_rows(cat, rest);
        assert(changes[changes.len() - 1] is Insert);
        assert(cat + rows_put(changes) =~= (cat + rows_put(rest)).push(
            (changes.last()->Insert_0, changes.last()->Insert_1),
        ));
    }
}

// --- registering twice ------------------------------------------------------------------------

/// A database that was registered is found, and registering it again changes nothing.
pub proof fn database_is_registered_once(cat: CatalogView, name: Seq<char>)
    requires
        database_plan(cat, name) is Ok,
    ensures
        found(
            all_changed(cat, database_plan(cat, name)->Ok_0),
            LookupView::Database(name),
        ) is Some,
        database_plan(all_changed(cat, database_plan(cat, name)->Ok_0), name) == Ok::<
            Seq<ChangeView>,
            Seq<char>,
        >(Seq::empty()),
{
    let changes = database_plan(cat, name)->Ok_0;
    let l = LookupView::Database(name);
    names_of_keys();
    if found(cat, l) is None {
        inserts_add_rows(cat, changes);
        first_added_is_found(cat, rows_put(changes), l);
    } else {
        assert(all_changed(cat, changes) == cat);
    }
}

/// A schema that was registered is found under the OID that was handed back, and registering
/// it again changes nothing and hands back the same OID.
pub proof fn schema_is_registered_once(cat: CatalogView, name: Seq<char>)
    requires
        schema_plan(cat, name) is Ok,
    ensures
        schema_oid_of(all_changed(cat, schema_plan(cat, name)->Ok_0.1), name) == Ok::<
            Option<i32>,
            Seq<char>,
        >(Some(schema_plan(cat, name)->Ok_0.0)),
        schema_plan(all_changed(cat, schema_plan(cat, name)->Ok_0.1), name) == Ok::<
            (i32, Seq<ChangeView>),
            Seq<char>,
        >((schema_plan(cat, name)->Ok_0.0, Seq::empty())),
{
    let (oid, changes) = schema_plan(cat, name)->Ok_0;
    let l = LookupView::Schema(name);
    names_of_keys();
    if found(cat, l) is None {
        inserts_add_rows(cat, changes);
        first_added_is_found(cat, rows_put(changes), l);
        assert(cell_at(user_schema_row(oid, name), "oid"@) == CellView::Int(oid as i64));
    } else {
        assert(all_changed(cat, changes) == cat);
    }
}

/// The rows that describe a new relation.
pub open spec fn relation_rows(
    oid: i32,
    schema_oid: i32,
    name: Seq<char>,
    kind: RelationKind,
    columns: Seq<ColumnView>,
) -> CatalogView {
    rows_put(relation_changes(oid, schema_oid, name, kind, columns))
}

pub(crate) proof fn relation_changes_insert(
    oid: i32,
    schema_oid: i32,
    name: Seq<char>,
    kind: RelationKind,
    columns: Seq<ColumnView>,
)
    ensures
        only_inserts(relation_changes(oid, schema_oid, name, kind, columns)),
        relation_rows(oid, schema_oid, name, kind, columns).len() > 0,
        relation_rows(oid, schema_oid, name, kind, columns)[0] == (
            CatalogTable::PgClass,
            pg_class_row(user_relation(oid, name, kind), schema_oid, columns.len() as i32),
        ),
{
}

/// A relation that was registered is found in its schema under a new OID, and registering one
/// of its name there again changes nothing.
pub proof fn relation_is_registered_once(
    cat: CatalogView,
    schema_oid: i32,
    name: Seq<char>,
    kind: RelationKind,
    columns: Seq<ColumnView>,
    other_kind: RelationKind,
    other_columns: Seq<ColumnView>,
)
    requires
        relation_plan(cat, schema_oid, name, kind, columns) is Ok,
    ensures
        relation_plan(
            all_changed(cat, relation_plan(cat, schema_oid, name, kind, columns)->Ok_0),
            schema_oid,
            name,
            other_kind,
            other_columns,
        ) == Ok::<Seq<ChangeView>, Seq<char>>(Seq::empty()),
        found(cat, LookupView::Relation(schema_oid, name)) is None ==> table_oid_of(
            all_changed(cat, relation_plan(cat, schema_oid, name, kind, columns)->Ok_0),
            schema_oid,
            name,
        ) == Ok::<Option<i32>, Seq<char>>(Some(next_oid(cat)->Ok_0)),
{
    let changes = relation_plan(cat, schema_oid, name, kind, columns)->Ok_0;
    let l = LookupView::Relation(schema_oid, name);
    if found(cat, l) is None {
        let oid = next_oid(cat)->Ok_0;
        relation_changes_insert(oid, schema_oid, name, kind, columns);
        relation_keys(oid, schema_oid, name, kind, columns);
        inserts_add_rows(cat, changes);
        first_added_is_found(cat, rows_put(changes), l);
    } else {
        assert(all_changed(cat, changes) == cat);
    }
}

/// The only row that registering a schema puts in has the next OID.
pub(crate) proof fn schema_oid_is_first(cat: CatalogView, name: Seq<char>)
    requires
        schema_plan(cat, name) is Ok,
    ensures
        only_inserts(schema_plan(cat, name)->Ok_0.1),
        rows_put(schema_plan(cat, name)->Ok_0.1).len() <= 1,
        rows_put(schema_plan(cat, name)->Ok_0.1).len() > 0 ==> next_oid(cat) is Ok && cell_at(
            rows_put(schema_plan(cat, name)->Ok_0.1)[0].1,
            "oid"@,
        ) == CellView::Int(next_oid(cat)->Ok_0 as i64),
{
}

/// The first row that registering an index puts in has the next OID.
pub(crate) proof fn index_oid_is_first(cat: CatalogView, schema_oid: i32, new: NewIndex)
    requires
        index_plan(cat, schema_oid, new) is Ok,
    ensures
        only_inserts(index_plan(cat, schema_oid, new)->Ok_0),
        rows_put(index_plan(cat, schema_oid, new)->Ok_0).len() > 0 ==> next_oid(cat) is Ok
            && cell_at(
            rows_put(index_plan(cat, schema_oid, new)->Ok_0)[0].1,
            "oid"@,
        ) == CellView::Int(next_oid(cat)->Ok_0 as i64),
{
}

// --- unregistering ----------------------------------------------------------------------------

/// Whether a row has nothing to do with the table that has the OID `oid`.
pub open spec fn apart_from(oid: i32, e: (CatalogTable, RowView)) -> bool {
    &&& other_oid(CatalogTable::PgAttribute, "attrelid"@, oid)(e)
    &&& other_oid(CatalogTable::PgType, "typrelid"@, oid)(e)
    &&& other_oid(CatalogTable::PgClass, "oid"@, oid)(e)
    &&& other_oid(CatalogTable::PgAttrdef, "adrelid"@, oid)(e)
    &&& other_oid(CatalogTable::PgConstraint, "conrelid"@, oid)(e)
}

proof fn removal_filters(cat: CatalogView, oid: i32)
    ensures
        all_changed(cat, table_removal(oid)) == cat.filter(
            other_oid(CatalogTable::PgAttribute, "attrelid"@, oid),
        ).filter(other_oid(CatalogTable::PgType, "typrelid"@, oid)).filter(
            other_oid(CatalogTable::PgClass, "oid"@, oid),
        ).filter(other_oid(CatalogTable::PgAttrdef, "adrelid"@, oid)).filter(
            other_oid(CatalogTable::PgConstraint, "conrelid"@, oid),
        ),
{
    let r = table_removal(oid);
    let r4 = r.drop_last();
    let r3 = r4.drop_last();
    let r2 = r3.drop_last();
    let r1 = r2.drop_last();
    assert(r1.drop_last() =~= Seq::empty());
    assert(all_changed(cat, r1.drop_last()) == cat);
    assert(r1.last() == ChangeView::DeleteOid(CatalogTable::PgAttribute, "attrelid"@, oid));
    assert(r2.last() == ChangeView::DeleteOid(CatalogTable::PgType, "typrelid"@, oid));
    assert(r3.last() == ChangeView::DeleteOid(CatalogTable::PgClass, "oid"@, oid));
    assert(r4.last() == ChangeView::DeleteOid(CatalogTable::PgAttrdef, "adrelid"@, oid));
    assert(r.last() == ChangeView::DeleteOid(CatalogTable::PgConstraint, "conrelid"@, oid));
    assert(all_changed(cat, r1) == changed(cat, r1.last()));
    assert(all_changed(cat, r2) == changed(all_changed(cat, r1), r2.last()));
    assert(all_changed(cat, r3) == changed(all_changed(cat, r2), r3.last()));
    assert(all_changed(cat, r4) == changed(all_changed(cat, r3), r4.last()));
    assert(all_changed(cat, r) == changed(all_changed(cat, r4), r.last()));
}

proof fn filter_comes_from(
    cat: CatalogView,
    keep: spec_fn((CatalogTable, RowView)) -> bool,
    i: int,
)
    requires
        0 <= i < cat.filter(keep).len(),
    ensures
        keep(cat.filter(keep)[i]),
        cat.contains(cat.filter(keep)[i]),
    decreases cat.len(),
{
    reveal(Seq::filter);
    if cat.len() > 0 {
        let rest = cat.drop_last();
        let out = cat.filter(keep);
        if i < rest.filter(keep).len() {
            assert(out[i] == rest.filter(keep)[i]);
            filter_comes_from(rest, keep, i);
            let k = choose|k: int| 0 <= k < rest.len() && rest[k] == out[i];
            assert(cat[k] == out[i]);
        } else {
            assert(out[i] == cat.last());
            assert(cat[cat.len() - 1] == out[i]);
        }
    }
}

pub(crate) proof fn filter_is_contained(
    cat: CatalogView,
    keep: spec_fn((CatalogTable, RowView)) -> bool,
    e: (CatalogTable, RowView),
)
    ensures
        cat.filter(keep).contains(e) <==> cat.contains(e) && keep(e),
{
    if cat.filter(keep).contains(e) {
        let i = choose|i: int| 0 <= i < cat.filter(keep).len() && cat.filter(keep)[i] == e;
        filter_comes_from(cat, keep, i);
    }
    if cat.contains(e) && keep(e) {
        let i = choose|i: int| 0 <= i < cat.len() && cat[i] == e;
        cat.lemma_filter_contains(keep, i);
    }
}

/// When a table is taken out, exactly the rows stay that have nothing to do with it: none of
/// its columns, of their defaults, of its constraints, of its row type and of itself is left.
pub proof fn removed_table_is_gone(cat: CatalogView, oid: i32, e: (CatalogTable, RowView))
    ensures
        all_changed(cat, table_removal(oid)).contains(e) <==> cat.contains(e) && apart_from(oid, e),
{
    let p1 = other_oid(CatalogTable::PgAttribute, "attrelid"@, oid);
    let p2 = other_oid(CatalogTable::PgType, "typrelid"@, oid);
    let p3 = other_oid(CatalogTable::PgClass, "oid"@, oid);
    let p4 = other_oid(CatalogTable::PgAttrdef, "adrelid"@, oid);
    let p5 = other_oid(CatalogTable::PgConstraint, "conrelid"@, oid);
    removal_filters(cat, oid);
    filter_is_contained(cat, p1, e);
    filter_is_contained(cat.filter(p1), p2, e);
    filter_is_contained(cat.filter(p1).filter(p2), p3, e);
    filter_is_contained(cat.filter(p1).filter(p2).filter(p3), p4, e);
    filter_is_contained(cat.filter(p1).filter(p2).filter(p3).filter(p4), p5, e);
}

proof fn filter_keeps_all(cat: CatalogView, keep: spec_fn((CatalogTable, RowView)) -> bool)
    requires
        forall|i: int| 0 <= i < cat.len() ==> keep(#[trigger] cat[i]),
    ensures
        cat.filter(keep) == cat,
    decreases cat.len(),
{
    reveal(Seq::filter);
    if cat.len() > 0 {
        let rest = cat.drop_last();
        assert forall|i: int| 0 <= i < rest.len() implies keep(#[trigger] rest[i]) by {
            assert(rest[i] == cat[i]);
        }
        filter_keeps_all(rest, keep);
        assert(keep(cat[cat.len() - 1]));
        assert(rest.push(cat.last()) =~= cat);
    }
}

proof fn removal_in_parts(cat: CatalogView, more: CatalogView, oid: i32)
    requires
        forall|i: int| 0 <= i < cat.len() ==> apart_from(oid, #[trigger] cat[i]),
    ensures
        all_changed(cat + more, table_removal(oid)) == cat + all_changed(more, table_removal(oid)),
{
    let p1 = other_oid(CatalogTable::PgAttribute, "attrelid"@, oid);
    let p2 = other_oid(CatalogTable::PgType, "typrelid"@, oid);
    let p3 = other_oid(CatalogTable::PgClass, "oid"@, oid);
    let p4 = other_oid(CatalogTable::PgAttrdef, "adrelid"@, oid);
    let p5 = other_oid(CatalogTable::PgConstraint, "conrelid"@, oid);
    removal_filters(cat + more, oid);
    removal_filters(more, oid);
    filter_keeps_all(cat, p1);
    filter_keeps_all(cat, p2);
    filter_keeps_all(cat, p3);
    filter_keeps_all(cat, p4);
    filter_keeps_all(cat, p5);
    let m1 = more.filter(p1);
    let m2 = m1.filter(p2);
    let m3 = m2.filter(p3);
    let m4 = m3.filter(p4);
    Seq::filter_distributes_over_add(cat, more, p1);
    Seq::filter_distributes_over_add(cat, m1, p2);
    Seq::filter_distributes_over_add(cat, m2, p3);
    Seq::filter_distributes_over_add(cat, m3, p4);
    Seq::filter_distributes_over_add(cat, m4, p5);
}

/// Unregistering a table that was just registered leaves the catalog as it was, row by row, if
/// no row spoke of its OID before.
pub proof fn unregistering_undoes_registering(
    cat: CatalogView,
    schema_oid: i32,
    name: Seq<char>,
    kind: RelationKind,
    columns: Seq<ColumnView>,
)
    requires
        relation_plan(cat, schema_oid, name, kind, columns) is Ok,
        found(cat, LookupView::Relation(schema_oid, name)) is None,
        forall|i: int|
            0 <= i < cat.len() ==> apart_from(next_oid(cat)->Ok_0, #[trigger] cat[i]),
    ensures
        all_changed(
            all_changed(cat, relation_plan(cat, schema_oid, name, kind, columns)->Ok_0),
            table_removal(next_oid(cat)->Ok_0),
        ) == cat,
{
    let oid = next_oid(cat)->Ok_0;
    let changes = relation_plan(cat, schema_oid, name, kind, columns)->Ok_0;
    let more = rows_put(changes);
    relation_changes_insert(oid, schema_oid, name, kind, columns);
    relation_keys(oid, schema_oid, name, kind, columns);
    inserts_add_rows(cat, changes);
    removal_in_parts(cat, more, oid);
    let left = all_changed(more, table_removal(oid));
    if left.len() > 0 {
        let e = left[0];
        assert(left.contains(e));
        removed_table_is_gone(more, oid, e);
        let i = choose|i: int| 0 <= i < more.len() && more[i] == e;
        relation_row_is_removed(oid, schema_oid, name, kind, columns, i);
    }
    assert(cat + left =~= cat);
}

proof fn relation_row_is_removed(
    oid: i32,
    schema_oid: i32,
    name: Seq<char>,
    kind: RelationKind,
    columns: Seq<ColumnView>,
    i: int,
)
    requires
        0 <= i < relation_rows(oid, schema_oid, name, kind, columns).len(),
    ensures
        !apart_from(oid, relation_rows(oid, schema_oid, name, kind, columns)[i]),
{
    relation_keys(oid, schema_oid, name, kind, columns);
    let rel = user_relation(oid, name, kind);
    let attributes = pg_attribute_rows(oid, columns);
    let numbers = default_numbers(columns, columns.len());
    let defaults = default_rows(oid, numbers);
    let rows = relation_rows(oid, schema_oid, name, kind, columns);
    if i == 0 {
        assert(rows[i].0 == CatalogTable::PgClass && has_int(rows[i].1, "oid"@, oid));
    } else if i == 1 {
        assert(rows[i] == (CatalogTable::PgType, pg_type_row(rel, schema_oid)));
    } else if i < 2 + attributes.len() {
        assert(rows[i] == (CatalogTable::PgAttribute, attributes[i - 2]));
    } else {
        let k = i - 2 - attributes.len();
        assert(rows[i] == (CatalogTable::PgAttrdef, defaults[k]));
    }
}

// --- databases that share schemas -------------------------------------------------------------

/// Whether a row has in a column the OID of a relation of the schema with the OID `schema_oid`.
pub open spec fn has_relation(
    cat: CatalogView,
    schema_oid: i32,
    row: RowView,
    column: Seq<char>,
) -> bool {
    exists|c: (CatalogTable, RowView)| #[trigger]
        cat.contains(c) && c.0 == CatalogTable::PgClass && has_int(
            c.1,
            "relnamespace"@,
            schema_oid,
        ) && cell_at(c.1, "oid"@) == cell_at(row, column) && cell_at(row, column) is Int
}

/// Whether a row describes the schema with the OID `schema_oid`, or a relation in it: the
/// relation itself, its row type, its columns, their defaults or its constraints.
pub open spec fn describes(
    cat: CatalogView,
    schema_oid: i32,
    e: (CatalogTable, RowView),
) -> bool {
    match e.0 {
        CatalogTable::PgNamespace => has_int(e.1, "oid"@, schema_oid),
        CatalogTable::PgClass => has_int(e.1, "relnamespace"@, schema_oid) && cell_at(
            e.1,
            "oid"@,
        ) is Int,
        CatalogTable::PgType => has_relation(cat, schema_oid, e.1, "typrelid"@),
        CatalogTable::PgAttribute => has_relation(cat, schema_oid, e.1, "attrelid"@),
        CatalogTable::PgAttrdef => has_relation(cat, schema_oid, e.1, "adrelid"@),
        CatalogTable::PgConstraint => has_relation(cat, schema_oid, e.1, "conrelid"@),
        _ => false,
    }
}

/// Whether no relation of the schema with the OID `schema_oid` has its OID in common with one of
/// another schema, and no schema of another name has that OID.
pub open spec fn numbered_alone(cat: CatalogView, schema_oid: i32) -> bool {
    forall|e: (CatalogTable, RowView), f: (CatalogTable, RowView)| #[trigger]
        cat.contains(e) && #[trigger] cat.contains(f) && e.0 == f.0 && cell_at(e.1, "oid"@)
            == cell_at(f.1, "oid"@) ==> {
            &&& e.0 == CatalogTable::PgClass && has_int(e.1, "relnamespace"@, schema_oid)
                ==> has_int(f.1, "relnamespace"@, schema_oid)
            &&& e.0 == CatalogTable::PgNamespace && has_int(e.1, "oid"@, schema_oid) ==> cell_at(
                e.1,
                "nspname"@,
            ) == cell_at(f.1, "nspname"@)
        }
}

/// Whether an OID says which schema a relation is in, and which name a schema has.
pub open spec fn numbered_apart(cat: CatalogView) -> bool {
    forall|schema_oid: i32| #[trigger] numbered_alone(cat, schema_oid)
}

/// Whether every row of one catalog is in another.
pub open spec fn within(a: CatalogView, b: CatalogView) -> bool {
    forall|e: (CatalogTable, RowView)| #[trigger] a.contains(e) ==> b.contains(e)
}

pub(crate) proof fn found_is_there(cat: CatalogView, l: LookupView, i: nat)
    requires
        found_from(cat, l, i) is Some,
    ensures
        exists|e: (CatalogTable, RowView)| #[trigger]
            cat.contains(e) && is_sought(l, e) && e.1 == found_from(cat, l, i)->0,
    decreases cat.len() - i,
{
    if is_sought(l, cat[i as int]) {
        assert(cat.contains(cat[i as int]));
    } else {
        found_is_there(cat, l, i + 1);
    }
}

proof fn table_removal_spares(
    cat: CatalogView,
    done: Removal,
    schema_oid: i32,
    other: i32,
    oid: i32,
    e: (CatalogTable, RowView),
)
    requires
        numbered_alone(cat, schema_oid),
        within(done.catalog, cat),
        cat.contains(e),
        describes(cat, schema_oid, e),
        other != schema_oid,
        exists|c: (CatalogTable, RowView)| #[trigger]
            cat.contains(c) && c.0 == CatalogTable::PgClass && has_int(c.1, "relnamespace"@, other)
                && has_int(c.1, "oid"@, oid),
    ensures
        apart_from(oid, e),
{
    let c = choose|c: (CatalogTable, RowView)| #[trigger]
        cat.contains(c) && c.0 == CatalogTable::PgClass && has_int(c.1, "relnamespace"@, other)
            && has_int(c.1, "oid"@, oid);
    let column = match e.0 {
        CatalogTable::PgType => "typrelid"@,
        CatalogTable::PgAttribute => "attrelid"@,
        CatalogTable::PgAttrdef => "adrelid"@,
        _ => "conrelid"@,
    };
    if e.0 == CatalogTable::PgClass {
        assert(cat.contains(e) && cat.contains(c));
    } else if e.0 != CatalogTable::PgNamespace {
        let d = choose|d: (CatalogTable, RowView)| #[trigger]
            cat.contains(d) && d.0 == CatalogTable::PgClass && has_int(
                d.1,
                "relnamespace"@,
                schema_oid,
            ) && cell_at(d.1, "oid"@) == cell_at(e.1, column) && cell_at(e.1, column) is Int;
        assert(cat.contains(d) && cat.contains(c));
    }
}

/// What stays so while other schemas go: rows only leave, and one row is still there.
pub open spec fn spared(cat: CatalogView, done: Removal, e: (CatalogTable, RowView)) -> bool {
    within(done.catalog, cat) && done.catalog.contains(e)
}

proof fn table_spares(
    cat: CatalogView,
    done: Removal,
    schema_oid: i32,
    schema: Seq<char>,
    table: Seq<char>,
    e: (CatalogTable, RowView),
)
    requires
        numbered_alone(cat, schema_oid),
        cat.contains(e),
        describes(cat, schema_oid, e),
        spared(cat, done, e),
        match schema_oid_of(done.catalog, schema) {
            Ok(Some(o)) => o != schema_oid,
            _ => true,
        },
    ensures
        spared(cat, table_removed(done, schema, table), e),
{
    if let Ok(Some(o)) = schema_oid_of(done.catalog, schema) {
        if let Ok(Some(oid)) = table_oid_of(done.catalog, o, table) {
            let l = LookupView::Relation(o, table);
            found_is_there(done.catalog, l, 0);
            let c = choose|c: (CatalogTable, RowView)| #[trigger]
                done.catalog.contains(c) && is_sought(l, c) && c.1 == found(done.catalog, l)->0;
            assert(cat.contains(c));
            table_removal_spares(cat, done, schema_oid, o, oid, e);
            removed_table_is_gone(done.catalog, oid, e);
            let after = all_changed(done.catalog, table_removal(oid));
            assert forall|f: (CatalogTable, RowView)| #[trigger] after.contains(f) implies
                cat.contains(f) by {
                removed_table_is_gone(done.catalog, oid, f);
            }
        }
    }
}

proof fn other_schema_has_other_oid(
    cat: CatalogView,
    now: CatalogView,
    schema_oid: i32,
    name: Seq<char>,
    schema: Seq<char>,
)
    requires
        numbered_alone(cat, schema_oid),
        within(now, cat),
        schema_oid_of(cat, name) == Ok::<Option<i32>, Seq<char>>(Some(schema_oid)),
        schema != name,
    ensures
        match schema_oid_of(now, schema) {
            Ok(Some(o)) => o != schema_oid,
            _ => true,
        },
{
    if schema_oid_of(now, schema) == Ok::<Option<i32>, Seq<char>>(Some(schema_oid)) {
        found_is_there(cat, LookupView::Schema(name), 0);
        found_is_there(now, LookupView::Schema(schema), 0);
        let a = choose|a: (CatalogTable, RowView)| #[trigger]
            cat.contains(a) && is_sought(LookupView::Schema(name), a) && a.1 == found(
                cat,
                LookupView::Schema(name),
            )->0;
        let b = choose|b: (CatalogTable, RowView)| #[trigger]
            now.contains(b) && is_sought(LookupView::Schema(schema), b) && b.1 == found(
                now,
                LookupView::Schema(schema),
            )->0;
        assert(cat.contains(a) && cat.contains(b));
    }
}

proof fn tables_spare(
    cat: CatalogView,
    done: Removal,
    schema_oid: i32,
    name: Seq<char>,
    schema: Seq<char>,
    names: Seq<Seq<char>>,
    n: nat,
    e: (CatalogTable, RowView),
)
    requires
        numbered_alone(cat, schema_oid),
        schema_oid_of(cat, name) == Ok::<Option<i32>, Seq<char>>(Some(schema_oid)),
        schema != name,
        cat.contains(e),
        describes(cat, schema_oid, e),
        spared(cat, done, e),
    ensures
        spared(cat, tables_removed(done, schema, names, n), e),
    decreases n,
{
    if n > 0 {
        tables_spare(cat, done, schema_oid, name, schema, names, (n - 1) as nat, e);
        let so_far = tables_removed(done, schema, names, (n - 1) as nat);
        other_schema_has_other_oid(cat, so_far.catalog, schema_oid, name, schema);
        table_spares(cat, so_far, schema_oid, schema, names[n - 1], e);
    }
}

proof fn schema_spares(
    cat: CatalogView,
    done: Removal,
    schema_oid: i32,
    name: Seq<char>,
    schema: Seq<char>,
    e: (CatalogTable, RowView),
)
    requires
        numbered_alone(cat, schema_oid),
        schema_oid_of(cat, name) == Ok::<Option<i32>, Seq<char>>(Some(schema_oid)),
        schema != name,
        cat.contains(e),
        describes(cat, schema_oid, e),
        spared(cat, done, e),
    ensures
        spared(cat, schema_removed(done, schema), e),
{
    other_schema_has_other_oid(cat, done.catalog, schema_oid, name, schema);
    if let Ok(Some(o)) = schema_oid_of(done.catalog, schema) {
        let names = relation_names(done.catalog, o, done.catalog.len());
        tables_spare(cat, done, schema_oid, name, schema, names, names.len(), e);
        let emptied = tables_removed(done, schema, names, names.len());
        let gone = ChangeView::DeleteOid(CatalogTable::PgNamespace, "oid"@, o);
        let keep = other_oid(CatalogTable::PgNamespace, "oid"@, o);
        one_change(emptied.catalog, gone);
        filter_is_contained(emptied.catalog, keep, e);
        assert forall|f: (CatalogTable, RowView)| #[trigger]
            emptied.catalog.filter(keep).contains(f) implies cat.contains(f) by {
            filter_is_contained(emptied.catalog, keep, f);
        }
    }
}

pub(crate) proof fn one_change(cat: CatalogView, c: ChangeView)
    ensures
        all_changed(cat, seq![c]) == changed(cat, c),
{
    assert(seq![c].drop_last() =~= Seq::empty());
    assert(all_changed(cat, seq![c].drop_last()) == cat);
}

pub(crate) proof fn schemas_spare(
    cat: CatalogView,
    done: Removal,
    schema_oid: i32,
    name: Seq<char>,
    schemas: Seq<Seq<char>>,
    n: nat,
    e: (CatalogTable, RowView),
)
    requires
        numbered_alone(cat, schema_oid),
        schema_oid_of(cat, name) == Ok::<Option<i32>, Seq<char>>(Some(schema_oid)),
        n <= schemas.len(),
        !schemas.contains(name),
        cat.contains(e),
        describes(cat, schema_oid, e),
        spared(cat, done, e),
    ensures
        spared(cat, schemas_removed(done, schemas, n), e),
    decreases n,
{
    if n > 0 {
        schemas_spare(cat, done, schema_oid, name, schemas, (n - 1) as nat, e);
        let so_far = schemas_removed(done, schemas, (n - 1) as nat);
        assert(schemas.contains(schemas[n - 1]));
        schema_spares(cat, so_far, schema_oid, name, schemas[n - 1], e);
    }
}

/// Unregistering a database leaves the other databases what they have: a schema that another
/// database has registered too stays, with its row and with every row that describes a relation
/// in it. No OID of that schema or of its relations may be one of another schema as well.
pub proof fn other_databases_keep_schemas(
    cat: CatalogView,
    r: RegistryView,
    database: Seq<char>,
    other: Seq<char>,
    schema: Seq<char>,
    schema_oid: i32,
    e: (CatalogTable, RowView),
)
    requires
        numbered_alone(cat, schema_oid),
        other != database,
        schemas_of(r, other).contains(schema),
        schema_oid_of(cat, schema) == Ok::<Option<i32>, Seq<char>>(Some(schema_oid)),
        cat.contains(e),
        describes(cat, schema_oid, e),
    ensures
        database_removed(cat, r, database).0.catalog.contains(e),
{
    if found(cat, LookupView::Database(database)) is Some {
        let schemas = own_schemas(r, database);
        assert(!schemas.contains(schema)) by {
            if schemas.contains(schema) {
                let keep = |s: Seq<char>| !registered(r.remove(database), s);
                let i = choose|i: int| 0 <= i < schemas.len() && schemas[i] == schema;
                schemas_of(r, database).lemma_filter_pred(keep, i);
                assert(r.remove(database)[other].contains(schema));
            }
        }
        let done = nothing_removed(cat);
        schemas_spare(cat, done, schema_oid, schema, schemas, schemas.len(), e);
        let emptied = schemas_removed(done, schemas, schemas.len());
        let gone = ChangeView::DeleteName(CatalogTable::PgDatabase, "datname"@, database);
        one_change(emptied.catalog, gone);
        filter_is_contained(
            emptied.catalog,
            other_name(CatalogTable::PgDatabase, "datname"@, database),
            e,
        );
    }
}

/// Unregistering a database does not change what the registry says of the others. One that was
/// unregistered to the end is not known any more.
pub proof fn other_databases_stay_registered(
    cat: CatalogView,
    r: RegistryView,
    database: Seq<char>,
    other: Seq<char>,
)
    requires
        other != database,
    ensures
        schemas_of(database_removed(cat, r, database).1, other) == schemas_of(r, other),
        schemas_of(database_removed(cat, r, database).1, database) == Seq::<Seq<char>>::empty(),
        database_removed(cat, r, database).0.error is None ==> database_removed(cat, r, database).1
            == r.remove(database),
{
}

// --- rows that belong together ----------------------------------------------------------------

/// Whether some row of `to` has in its column `oid` what `row` has in `column`.
pub open spec fn leads_to(row: RowView, column: Seq<char>, to: Seq<RowView>) -> bool {
    exists|j: int| 0 <= j < to.len() && cell_at(#[trigger] to[j], "oid"@) == cell_at(row, column)
}

/// Whether every row leads to one of `to`.
pub open spec fn all_lead_to(rows: Seq<RowView>, column: Seq<char>, to: Seq<RowView>) -> bool {
    forall|i: int| 0 <= i < rows.len() ==> leads_to(#[trigger] rows[i], column, to)
}

proof fn leads_further(
    rows: Seq<RowView>,
    column: Seq<char>,
    before: Seq<RowView>,
    to: Seq<RowView>,
    after: Seq<RowView>,
)
    requires
        all_lead_to(rows, column, to),
    ensures
        all_lead_to(rows, column, before + to + after),
{
    let all = before + to + after;
    assert forall|i: int| 0 <= i < rows.len() implies leads_to(#[trigger] rows[i], column, all) by {
        let j = choose|j: int|
            0 <= j < to.len() && cell_at(#[trigger] to[j], "oid"@) == cell_at(rows[i], column);
        assert(all[before.len() + j] == to[j]);
    }
}

proof fn sums_lead(
    a: Seq<RowView>,
    b: Seq<RowView>,
    column: Seq<char>,
    to: Seq<RowView>,
    more: Seq<RowView>,
)
    requires
        all_lead_to(a, column, to),
        all_lead_to(b, column, more),
    ensures
        all_lead_to(a + b, column, to + more),
{
    leads_further(a, column, Seq::empty(), to, more);
    leads_further(b, column, to, more, Seq::empty());
    assert(Seq::<RowView>::empty() + to + more =~= to + more);
    assert(to + more + Seq::<RowView>::empty() =~= to + more);
    assert forall|i: int| 0 <= i < (a + b).len() implies leads_to(
        #[trigger] (a + b)[i],
        column,
        to + more,
    ) by {
        if i < a.len() {
            assert((a + b)[i] == a[i]);
        } else {
            assert((a + b)[i] == b[i - a.len()]);
        }
    }
}

/// The tables whose rows name a relation, and the column that names it.
pub open spec fn relation_column(table: CatalogTable) -> Seq<char> {
    if table == CatalogTable::PgAttribute {
        "attrelid"@
    } else {
        "typrelid"@
    }
}

proof fn relations_lead(
    table: CatalogTable,
    database: Seq<char>,
    schema: SchemaDef,
    rels: Seq<RelationNode>,
    n: nat,
)
    requires
        table == CatalogTable::PgAttribute || table == CatalogTable::PgType,
        n <= rels.len(),
    ensures
        all_lead_to(
            relations_rows(table, database, schema, rels, n),
            relation_column(table),
            relations_rows(CatalogTable::PgClass, database, schema, rels, n),
        ),
    decreases n,
{
    if n > 0 {
        relations_lead(table, database, schema, rels, (n - 1) as nat);
        let rel = rels[n - 1];
        let own = rows_of_relation(table, database, schema, rel);
        let class = rows_of_relation(CatalogTable::PgClass, database, schema, rel);
        names_of_keys();
        assert forall|i: int| 0 <= i < own.len() implies leads_to(
            #[trigger] own[i],
            relation_column(table),
            class,
        ) by {
            assert(cell_at(class[0], "oid"@) == CellView::Int(rel.def.oid as i64));
        }
        sums_lead(
            relations_rows(table, database, schema, rels, (n - 1) as nat),
            own,
            relation_column(table),
            relations_rows(CatalogTable::PgClass, database, schema, rels, (n - 1) as nat),
            class,
        );
    }
}

proof fn schemas_lead(
    table: CatalogTable,
    database: Seq<char>,
    schemas: Seq<SchemaNode>,
    n: nat,
)
    requires
        table == CatalogTable::PgAttribute || table == CatalogTable::PgType,
        n <= schemas.len(),
    ensures
        all_lead_to(
            schemas_rows(table, database, schemas, n),
            relation_column(table),
            schemas_rows(CatalogTable::PgClass, database, schemas, n),
        ),
    decreases n,
{
    if n > 0 {
        schemas_lead(table, database, schemas, (n - 1) as nat);
        let schema = schemas[n - 1];
        let rels = schema.relations@;
        relations_lead(table, database, schema.def, rels, rels.len());
        let own = relations_rows(table, database, schema.def, rels, rels.len());
        let class = relations_rows(CatalogTable::PgClass, database, schema.def, rels, rels.len());
        leads_further(
            own,
            relation_column(table),
            Seq::empty(),
            class,
            index_rows(CatalogTable::PgClass, schema.def, schema.indexes@),
        );
        assert(schema_rows(table, database, schema) =~= own);
        sums_lead(
            schemas_rows(table, database, schemas, (n - 1) as nat),
            own,
            relation_column(table),
            schemas_rows(CatalogTable::PgClass, database, schemas, (n - 1) as nat),
            schema_rows(CatalogTable::PgClass, database, schema),
        );
    }
}

proof fn databases_lead(table: CatalogTable, dbs: Seq<DatabaseNode>, n: nat)
    requires
        table == CatalogTable::PgAttribute || table == CatalogTable::PgType,
        n <= dbs.len(),
    ensures
        all_lead_to(
            databases_rows(table, dbs, n),
            relation_column(table),
            databases_rows(CatalogTable::PgClass, dbs, n),
        ),
    decreases n,
{
    if n > 0 {
        databases_lead(table, dbs, (n - 1) as nat);
        let db = dbs[n - 1];
        let schemas = db.schemas@;
        schemas_lead(table, db.def.datname@, schemas, schemas.len());
        let done = databases_rows(table, dbs, (n - 1) as nat);
        let class = databases_rows(CatalogTable::PgClass, dbs, (n - 1) as nat);
        assert(done + Seq::<RowView>::empty() =~= done);
        assert(class + Seq::<RowView>::empty() =~= class);
        sums_lead(
            done,
            schemas_rows(table, db.def.datname@, schemas, schemas.len()),
            relation_column(table),
            class,
            schemas_rows(CatalogTable::PgClass, db.def.datname@, schemas, schemas.len()),
        );
    }
}

/// Every column and every row type that a source shows belongs to a relation that it shows: the
/// row of `pg_attribute` or `pg_type` has the OID of a row of `pg_class`, so that joins between
/// them find their rows.
pub proof fn columns_belong_to_relations(table: CatalogTable, s: Snapshot)
    requires
        table == CatalogTable::PgAttribute || table == CatalogTable::PgType,
    ensures
        all_lead_to(
            rows_for(table, s),
            relation_column(table),
            rows_for(CatalogTable::PgClass, s),
        ),
{
    databases_lead(table, s.databases@, s.databases@.len());
}

// --- columns with defaults --------------------------------------------------------------------

/// The rows of `pg_attribute` that say that a column has a default.
pub open spec fn says_default() -> spec_fn(RowView) -> bool {
    |row: RowView| cell_at(row, "atthasdef"@) == CellView::Bool(true)
}

/// The columns that rows of `pg_attribute` say have a default: relation and number, in order.
pub open spec fn columns_with_defaults(rows: Seq<RowView>) -> Seq<(CellView, CellView)> {
    let those = rows.filter(says_default());
    Seq::new(
        those.len(),
        |i: int| (cell_at(those[i], "attrelid"@), cell_at(those[i], "attnum"@)),
    )
}

/// The columns that rows of `pg_attrdef` are about: relation and number, in order.
pub open spec fn columns_of_defaults(rows: Seq<RowView>) -> Seq<(CellView, CellView)> {
    Seq::new(
        rows.len(),
        |i: int| (cell_at(rows[i], "adrelid"@), cell_at(rows[i], "adnum"@)),
    )
}

/// Relation and number of columns, as cells.
spec fn as_cells(defaults: Seq<DefaultColumn>) -> Seq<(CellView, CellView)> {
    Seq::new(
        defaults.len(),
        |i: int| (CellView::Int(defaults[i].0 as i64), CellView::Int(defaults[i].1 as i64)),
    )
}

proof fn defaults_in_parts(a: Seq<RowView>, b: Seq<RowView>)
    ensures
        columns_with_defaults(a + b) == columns_with_defaults(a) + columns_with_defaults(b),
{
    Seq::filter_distributes_over_add(a, b, says_default());
    assert(columns_with_defaults(a + b) =~= columns_with_defaults(a) + columns_with_defaults(b));
}

proof fn cells_in_parts(a: Seq<DefaultColumn>, b: Seq<DefaultColumn>)
    ensures
        as_cells(a + b) == as_cells(a) + as_cells(b),
{
    assert(as_cells(a + b) =~= as_cells(a) + as_cells(b));
}

pub(crate) proof fn attribute_keys(relid: i32, col: ColumnView, attnum: i32)
    ensures
        cell_at(pg_attribute_row(relid, col, attnum), "attrelid"@) == CellView::Int(relid as i64),
        cell_at(pg_attribute_row(relid, col, attnum), "attnum"@) == CellView::Int(attnum as i64),
        cell_at(pg_attribute_row(relid, col, attnum), "atthasdef"@) == CellView::Bool(
            col.has_default,
        ),
{
    reveal_strlit("attrelid");
    reveal_strlit("attnum");
    reveal_strlit("atthasdef");
    reveal_strlit("atttypmod");
    reveal_strlit("attnotnull");
    reveal_strlit("attisdropped");
    reveal_strlit("attlen");
    reveal_strlit("attbyval");
    reveal_strlit("attalign");
    reveal_strlit("attstorage");
    reveal_strlit("attcollation");
    reveal_strlit("attndims");
    reveal_strlit("attcacheoff");
    reveal_strlit("attislocal");
    reveal_strlit("attinhcount");
    reveal_strlit("attstattarget");
    reveal_strlit("attidentity");
    reveal_strlit("attgenerated");
    reveal_strlit("attcompression");
    reveal_strlit("atthasmissing");
    assert("attnum"@.len() == 6);
    assert("atthasdef"@.len() == 9);
    assert("atttypmod"@.len() == 9);
    assert("attnotnull"@.len() == 10);
    assert("attisdropped"@.len() == 12);
    assert("attlen"@.len() == 6);
    assert("attbyval"@.len() == 8);
    assert("attalign"@.len() == 8);
    assert("attstorage"@.len() == 10);
    assert("attcollation"@.len() == 12);
    assert("attndims"@.len() == 8);
    assert("attcacheoff"@.len() == 11);
    assert("attislocal"@.len() == 10);
    assert("attinhcount"@.len() == 11);
    assert("attstattarget"@.len() == 13);
    assert("attidentity"@.len() == 11);
    assert("attgenerated"@.len() == 12);
    assert("attcompression"@.len() == 14);
    assert("atthasmissing"@.len() == 13);
    assert("attrelid"@.len() == 8);
    assert("attnum"@[3] == 'n');
    assert("attlen"@[3] == 'l');
}

proof fn attrdef_keys(oid: i32, relid: i32, adnum: i32)
    ensures
        cell_at(pg_attrdef_row(oid, relid, adnum), "adrelid"@) == CellView::Int(relid as i64),
        cell_at(pg_attrdef_row(oid, relid, adnum), "adnum"@) == CellView::Int(adnum as i64),
{
    reveal_strlit("adrelid");
    reveal_strlit("adnum");
    reveal_strlit("adbin");
    reveal_strlit("oid");
    assert("adrelid"@.len() == 7);
    assert("adnum"@.len() == 5);
    assert("oid"@.len() == 3);
    assert("adnum"@[2] == 'n');
    assert("adbin"@[2] == 'b');
}

proof fn relation_defaults_match(relid: i32, columns: Seq<ColumnView>, n: nat)
    requires
        n <= columns.len(),
    ensures
        columns_with_defaults(pg_attribute_rows(relid, columns).take(n as int)) == Seq::new(
            default_numbers(columns, n).len(),
            |k: int|
                (
                    CellView::Int(relid as i64),
                    CellView::Int(default_numbers(columns, n)[k] as i64),
                ),
        ),
    decreases n,
{
    reveal(Seq::filter);
    let rows = pg_attribute_rows(relid, columns);
    if n == 0 {
        assert(rows.take(0) =~= Seq::empty());
        assert(columns_with_defaults(rows.take(0)) =~= Seq::empty());
    } else {
        relation_defaults_match(relid, columns, (n - 1) as nat);
        attribute_keys(relid, columns[n - 1], count_of(n));
        assert(rows.take(n as int) =~= rows.take(n - 1) + seq![rows[n - 1]]);
        defaults_in_parts(rows.take(n - 1), seq![rows[n - 1]]);
        let one = seq![rows[n - 1]];
        assert(one.drop_last() =~= Seq::empty());
        assert(one.drop_last().filter(says_default()) =~= Seq::empty());
        if columns[n - 1].has_default {
            assert(one.filter(says_default()) =~= one);
        } else {
            assert(one.filter(says_default()) =~= Seq::empty());
        }
        assert(columns_with_defaults(rows.take(n as int)) =~= Seq::new(
            default_numbers(columns, n).len(),
            |k: int|
                (
                    CellView::Int(relid as i64),
                    CellView::Int(default_numbers(columns, n)[k] as i64),
                ),
        ));
    }
}

proof fn column_defaults_are_numbers(relid: i32, columns: Seq<ColumnSpec>, n: nat)
    requires
        n <= columns.len(),
    ensures
        column_defaults(relid, columns, n) == Seq::new(
            default_numbers(columns_view(columns), n).len(),
            |k: int| (relid, default_numbers(columns_view(columns), n)[k]),
        ),
    decreases n,
{
    if n > 0 {
        column_defaults_are_numbers(relid, columns, (n - 1) as nat);
        assert(columns_view(columns)[n - 1] == columns[n - 1]@);
    }
    assert(column_defaults(relid, columns, n) =~= Seq::new(
        default_numbers(columns_view(columns), n).len(),
        |k: int| (relid, default_numbers(columns_view(columns), n)[k]),
    ));
}

proof fn relations_defaults_match(
    database: Seq<char>,
    schema: SchemaDef,
    rels: Seq<RelationNode>,
    n: nat,
)
    requires
        n <= rels.len(),
    ensures
        columns_with_defaults(
            relations_rows(CatalogTable::PgAttribute, database, schema, rels, n),
        ) == as_cells(relation_defaults(rels, n)),
    decreases n,
{
    if n == 0 {
        no_defaults();
    } else {
        relations_defaults_match(database, schema, rels, (n - 1) as nat);
        let rel = rels[n - 1];
        let columns = columns_view(rel.columns@);
        let rows = pg_attribute_rows(rel.def.oid, columns);
        relation_defaults_match(rel.def.oid, columns, columns.len());
        assert(rows.take(columns.len() as int) =~= rows);
        column_defaults_are_numbers(rel.def.oid, rel.columns@, rel.columns@.len());
        let own = column_defaults(rel.def.oid, rel.columns@, rel.columns@.len());
        assert(as_cells(own) =~= columns_with_defaults(rows));
        cells_in_parts(relation_defaults(rels, (n - 1) as nat), own);
        defaults_in_parts(
            relations_rows(CatalogTable::PgAttribute, database, schema, rels, (n - 1) as nat),
            rows,
        );
    }
}

proof fn no_defaults()
    ensures
        columns_with_defaults(Seq::empty()) == as_cells(Seq::empty()),
{
    reveal(Seq::filter);
    assert(columns_with_defaults(Seq::empty()) =~= as_cells(Seq::empty()));
}

proof fn schemas_defaults_match(database: Seq<char>, schemas: Seq<SchemaNode>, n: nat)
    requires
        n <= schemas.len(),
    ensures
        columns_with_defaults(schemas_rows(CatalogTable::PgAttribute, database, schemas, n))
            == as_cells(schema_defaults(schemas, n)),
    decreases n,
{
    if n == 0 {
        no_defaults();
    } else {
        schemas_defaults_match(database, schemas, (n - 1) as nat);
        let schema = schemas[n - 1];
        let rels = schema.relations@;
        relations_defaults_match(database, schema.def, rels, rels.len());
        let rows = schema_rows(CatalogTable::PgAttribute, database, schema);
        assert(rows =~= relations_rows(
            CatalogTable::PgAttribute,
            database,
            schema.def,
            rels,
            rels.len(),
        ));
        cells_in_parts(
            schema_defaults(schemas, (n - 1) as nat),
            relation_defaults(rels, rels.len()),
        );
        defaults_in_parts(
            schemas_rows(CatalogTable::PgAttribute, database, schemas, (n - 1) as nat),
            rows,
        );
    }
}

proof fn databases_defaults_match(dbs: Seq<DatabaseNode>, n: nat)
    requires
        n <= dbs.len(),
    ensures
        columns_with_defaults(databases_rows(CatalogTable::PgAttribute, dbs, n)) == as_cells(
            database_defaults(dbs, n),
        ),
    decreases n,
{
    if n == 0 {
        no_defaults();
    } else {
        databases_defaults_match(dbs, (n - 1) as nat);
        let db = dbs[n - 1];
        let schemas = db.schemas@;
        schemas_defaults_match(db.def.datname@, schemas, schemas.len());
        let done = databases_rows(CatalogTable::PgAttribute, dbs, (n - 1) as nat);
        assert(done + Seq::<RowView>::empty() =~= done);
        cells_in_parts(
            database_defaults(dbs, (n - 1) as nat),
            schema_defaults(schemas, schemas.len()),
        );
        defaults_in_parts(
            done,
            schemas_rows(CatalogTable::PgAttribute, db.def.datname@, schemas, schemas.len()),
        );
    }
}

/// The rows of `pg_attrdef` that a source shows are about exactly the columns whose row in
/// `pg_attribute` says that they have a default, in the same order.
pub proof fn defaults_match_columns(s: Snapshot)
    ensures
        columns_of_defaults(rows_for(CatalogTable::PgAttrdef, s)) == columns_with_defaults(
            rows_for(CatalogTable::PgAttribute, s),
        ),
{
    let defaults = database_defaults(s.databases@, s.databases@.len());
    databases_defaults_match(s.databases@, s.databases@.len());
    let rows = attrdef_rows(defaults);
    assert forall|k: int| 0 <= k < rows.len() implies #[trigger] columns_of_defaults(rows)[k]
        == as_cells(defaults)[k] by {
        attrdef_keys(attrdef_oid(k as nat), defaults[k].0, defaults[k].1);
    }
    assert(columns_of_defaults(rows) =~= as_cells(defaults));
}

/// The same holds of a relation that is registered: the rows of `pg_attrdef` that go in with it
/// are about exactly the columns whose row in `pg_attribute` says that they have a default.
pub proof fn registered_defaults_match_columns(oid: i32, columns: Seq<ColumnView>)
    ensures
        columns_of_defaults(default_rows(oid, default_numbers(columns, columns.len())))
            == columns_with_defaults(pg_attribute_rows(oid, columns)),
{
    let numbers = default_numbers(columns, columns.len());
    let rows = default_rows(oid, numbers);
    relation_defaults_match(oid, columns, columns.len());
    assert(pg_attribute_rows(oid, columns).take(columns.len() as int) =~= pg_attribute_rows(
        oid,
        columns,
    ));
    assert forall|k: int| 0 <= k < rows.len() implies #[trigger] columns_of_defaults(rows)[k] == (
        CellView::Int(oid as i64),
        CellView::Int(numbers[k] as i64),
    ) by {
        attrdef_keys(default_oid(oid, k as nat), oid, numbers[k]);
    }
    assert(columns_of_defaults(rows) =~= columns_with_defaults(pg_attribute_rows(oid, columns)));
}

/// The row of an index in `pg_class` fills every column that the row of a table fills, the owner
/// apart.
pub proof fn indexes_fill_the_columns_of_tables(
    index: IndexView,
    def: RelationView,
    namespace_oid: i32,
    natts: i32,
    column: Seq<char>,
)
    requires
        pg_class_row(def, namespace_oid, natts).contains_key(column),
        column != "relowner"@,
    ensures
        index_pg_class_row(index, namespace_oid).contains_key(column),
        index_pg_class_row(index, namespace_oid)[column] != CellView::Null,
{
}

} // verus!
