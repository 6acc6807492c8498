//! What holds of rewritten names, sort keys, groupings and object ids.
use super::alias::explicit_alias;
use super::ast::{
    aliased_item, bigint_type, cast, column, ident, name1, number_expr, relation_name, table_alias,
    unnamed_arg,
};
use super::calling::call_fields_differ;
use super::casting::{
    alike, argument_is, arguments, call_parts, called, cast_parts, is_qualified, is_type,
    is_unqualified, literal, named_type, names_ignore_case, part_is_spelled, spells, Casting,
};
use super::clauses::{
    has_wildcard, is_wildcard, output_from, output_name, put_out_as, set_in_catalog, sort_key,
    sort_keys, sorted_by_number,
};
use super::columns::{fresh_item, next_free, title};
use super::cte::outer_alias;
use super::group_by::{
    any_argument, any_columns, any_grouped, column_of, group_key, group_keys, grouped_columns,
};
use super::laws::{other_field_stays, set_field_is_read};
use super::meaning::field_is_found;
use super::parse::type_string;
use super::pipeline::{stage_order, Rewrite};
use super::regproc::{
    is_regproc, is_regproc_name, is_text_literal, literal_resolved, oid_resolved, proc_oid,
    regproc_comparison, REGPROC_COLUMN_NAMES,
};
use super::tables::{
    alias_of, extension_source, in_catalog, named_factor, requalified, subquery_alias,
    unqualified_call, unqualified_relation, Aliases, NamingView,
};
use super::tree::{expr_node, variant, Syntax};
use super::walk::ProgressView;
use crate::text::{
    case_is_ignored, decimal, decimal_is_read_back, lowercased, numbered, same_ignoring_case,
    spelled,
};
use vstd::prelude::*;

verus! {

proof fn fields_differ()
    ensures
        "expr"@ != "options"@ && "variable"@ != "values"@ && "body"@ != "order_by"@ && "name"@
            != "alias"@ && "explicit"@ != "name"@ && "left"@ != "right"@ && "left"@ != "op"@
            && "right"@ != "op"@ && "name"@ != "args"@ && "group_by"@ != "from"@ && "Cast"@
            != "Function"@ && "Cast"@ != "Identifier"@ && "Cast"@ != "CompoundIdentifier"@
            && "Function"@ != "Identifier"@ && "Function"@ != "CompoundIdentifier"@ && "Identifier"@
            != "CompoundIdentifier"@ && "Regclass"@ != "Text"@ && "group_by"@ != "projection"@
            && "UnnamedExpr"@ != "ExprWithAlias"@ && "expr"@ != "alias"@,
{
    reveal_strlit("expr");
    reveal_strlit("options");
    reveal_strlit("variable");
    reveal_strlit("values");
    reveal_strlit("body");
    reveal_strlit("order_by");
    reveal_strlit("name");
    reveal_strlit("alias");
    reveal_strlit("explicit");
    reveal_strlit("left");
    reveal_strlit("right");
    reveal_strlit("op");
    reveal_strlit("args");
    reveal_strlit("group_by");
    reveal_strlit("from");
    reveal_strlit("Cast");
    reveal_strlit("Function");
    reveal_strlit("Identifier");
    reveal_strlit("CompoundIdentifier");
    reveal_strlit("Regclass");
    reveal_strlit("Text");
    reveal_strlit("projection");
    reveal_strlit("UnnamedExpr");
    reveal_strlit("ExprWithAlias");
    assert("expr"@.len() == 4);
    assert("options"@.len() == 7);
    assert("variable"@.len() == 8);
    assert("values"@.len() == 6);
    assert("body"@.len() == 4);
    assert("order_by"@.len() == 8);
    assert("name"@.len() == 4);
    assert("alias"@.len() == 5);
    assert("explicit"@.len() == 8);
    assert("left"@.len() == 4);
    assert("right"@.len() == 5);
    assert("op"@.len() == 2);
    assert("args"@.len() == 4);
    assert("group_by"@.len() == 8);
    assert("from"@.len() == 4);
    assert("Cast"@.len() == 4);
    assert("Function"@.len() == 8);
    assert("Identifier"@.len() == 10);
    assert("CompoundIdentifier"@.len() == 18);
    assert("Regclass"@.len() == 8);
    assert("Text"@.len() == 4);
    assert("projection"@.len() == 10);
    assert("UnnamedExpr"@.len() == 11);
    assert("ExprWithAlias"@.len() == 13);
    assert("expr"@[0] == 'e');
    assert("body"@[0] == 'b');
    assert("name"@[0] == 'n');
    assert("left"@[0] == 'l');
    assert("args"@[0] == 'a');
    assert("from"@[0] == 'f');
    assert("Cast"@[0] == 'C');
    assert("Text"@[0] == 'T');
    assert("variable"@[0] == 'v');
    assert("order_by"@[0] == 'o');
    assert("explicit"@[0] == 'e');
    assert("group_by"@[0] == 'g');
    assert("Function"@[0] == 'F');
    assert("Regclass"@[0] == 'R');
    assert("alias"@[0] == 'a');
    assert("right"@[0] == 'r');
    assert("Identifier"@[0] == 'I');
    assert("projection"@[0] == 'p');
}

// --- SET -----------------------------------------------------------------------------------------

/// `SET v = ..` sets `pg_catalog.v`, to the same values; a variable that has a schema keeps it.
pub proof fn variables_stand_in_the_catalog(set: Syntax)
    requires
        set.payload("SingleAssignment"@) is Some,
        set.payload("SingleAssignment"@)->0.at("variable"@) != Syntax::Null,
    ensures
        ({
            let a = set.payload("SingleAssignment"@)->0;
            let out = set_in_catalog(set).payload("SingleAssignment"@);
            let parts = out->0.at("variable"@).items();
            let old = a.at("variable"@).items();
            &&& out is Some
            &&& out->0.at("values"@) == a.at("values"@)
            &&& old.len() == 1 ==> parts.len() == 2 && spells(parts[0], "pg_catalog"@) && parts[1]
                == old[0]
            &&& old.len() != 1 ==> out->0.at("variable"@) == a.at("variable"@)
        }),
{
    fields_differ();
    part_is_spelled("pg_catalog"@);
    let a = set.payload("SingleAssignment"@)->0;
    let v = in_catalog(a.at("variable"@));
    set_field_is_read(a, "variable"@, v);
    other_field_stays(a, "variable"@, v, "values"@, v);
    assert(set_in_catalog(set).payload("SingleAssignment"@) == Some(a.with("variable"@, v)));
}

// --- sort keys -----------------------------------------------------------------------------------

/// Whether a select item is put out under `name`: that is its alias, or the last part of the column
/// that it is.
pub open spec fn shown_as(item: Syntax, name: Seq<char>) -> bool {
    let named = |id: Syntax| match id.at("value"@) {
        Syntax::Text(s) => alike(s, name),
        _ => false,
    };
    if let Some(a) = item.payload("ExprWithAlias"@) {
        named(a.at("alias"@))
    } else if let Some(e) = item.payload("UnnamedExpr"@) {
        if let Some(id) = e.inner().payload("Identifier"@) {
            named(id)
        } else if let Some(path) = e.inner().payload("CompoundIdentifier"@) {
            path.items().len() > 0 && named(path.items().last())
        } else {
            false
        }
    } else {
        false
    }
}

proof fn output_is_shown(items: Seq<Syntax>, i: int, name: Seq<char>)
    ensures
        put_out_as(items, i, name) == shown_as(items[i], name),
{
    if let Some(s) = output_name(items[i]) {
        case_is_ignored(s, name);
    }
}

proof fn first_output(items: Seq<Syntax>, i: nat, name: Seq<char>)
    ensures
        match output_from(items, i, name) {
            Some(n) => i <= n < items.len() && shown_as(items[n as int], name) && forall|j: int|
                i <= j < n ==> !shown_as(#[trigger] items[j], name),
            None => forall|j: int| i <= j < items.len() ==> !shown_as(#[trigger] items[j], name),
        },
    decreases items.len() - i,
{
    if i < items.len() {
        output_is_shown(items, i as int, name);
        if !put_out_as(items, i as int, name) {
            first_output(items, i + 1, name);
        }
    }
}

/// The digits of the number that a sort key is.
pub open spec fn key_number(key: Syntax) -> Syntax {
    literal(key.at("expr"@).inner()).payload("Number"@)->0.item(0)
}

/// A sort key that names a select item becomes the number of the first item that is put out under
/// the name, and sorts in the same direction; any other key stays.
pub proof fn sort_keys_are_numbered(items: Seq<Syntax>, key: Syntax, name: Seq<char>, i: int)
    requires
        key.at("expr"@).inner().payload("Identifier"@) is Some,
        key.at("expr"@).inner().payload("Identifier"@)->0.at("value"@) == Syntax::Text(name),
        0 <= i <= items.len(),
        forall|j: int| 0 <= j < i ==> !shown_as(#[trigger] items[j], name),
        i < items.len() ==> shown_as(items[i], name),
    ensures
        i < items.len() ==> key_number(sort_key(items, key)) is Text && spelled(
            key_number(sort_key(items, key))->Text_0,
        ) == i + 1 && sort_key(items, key).at("options"@) == key.at("options"@),
        i == items.len() ==> sort_key(items, key) == key,
{
    fields_differ();
    first_output(items, 0, name);
    let found = output_from(items, 0, name);
    if i < items.len() {
        assert(found == Some(i as nat)) by {
            if found is Some {
                let n = found->0;
                if n < i {
                    assert(!shown_as(items[n as int], name));
                }
            }
        }
        decimal_is_read_back((i + 1) as nat);
        let x = number_expr(decimal((i + 1) as nat));
        field_is_found(x.payload("Value"@)->0->Record_0, 0);
        set_field_is_read(key, "expr"@, expr_node(x));
        other_field_stays(key, "expr"@, expr_node(x), "options"@, x);
        let n = literal(x);
        assert(n.payload("Number"@)->0.item(0) == Syntax::Text(decimal((i + 1) as nat)));
    } else {
        assert(found is None) by {
            if found is Some {
                assert(!shown_as(items[found->0 as int], name));
            }
        }
    }
}

/// A sort key that is no plain name stays.
pub proof fn other_sort_keys_stay(items: Seq<Syntax>, key: Syntax)
    requires
        key.at("expr"@).inner().payload("Identifier"@) is None,
    ensures
        sort_key(items, key) == key,
{
}

/// A query that selects `*` is sorted as it was; any other keeps its body, and each of its sort
/// keys
/// in its place.
pub proof fn queries_keep_their_sort_keys(t: Syntax, i: int)
    requires
        t.at("body"@).payload("Select"@) is Some,
        t.at("order_by"@).at("kind"@).payload("Expressions"@) is Some,
        0 <= i < t.at("order_by"@).at("kind"@).payload("Expressions"@)->0.items().len(),
    ensures
        ({
            let items = t.at("body"@).payload("Select"@)->0.at("projection"@).items();
            let old = t.at("order_by"@).at("kind"@).payload("Expressions"@)->0.items();
            let new = sorted_by_number(t).at("order_by"@).at("kind"@).payload("Expressions"@);
            let star = exists|k: int|
                0 <= k < items.len() && ((#[trigger] items[k]).payload("Wildcard"@) is Some
                    || items[k].payload("QualifiedWildcard"@) is Some);
            &&& star ==> sorted_by_number(t) == t
            &&& !star ==> sorted_by_number(t).at("body"@) == t.at("body"@) && new is Some
                && new->0.items().len() == old.len() && new->0.items()[i] == sort_key(items, old[i])
        }),
{
    fields_differ();
    let items = t.at("body"@).payload("Select"@)->0.at("projection"@).items();
    let keys = t.at("order_by"@).at("kind"@).payload("Expressions"@)->0;
    if exists|k: int|
        0 <= k < items.len() && ((#[trigger] items[k]).payload("Wildcard"@) is Some
            || items[k].payload("QualifiedWildcard"@) is Some) {
        let k = choose|k: int|
            0 <= k < items.len() && ((#[trigger] items[k]).payload("Wildcard"@) is Some
                || items[k].payload("QualifiedWildcard"@) is Some);
        assert(is_wildcard(items[k]));
    } else {
        assert(!has_wildcard(items));
    }
    let order_by = t.at("order_by"@);
    let kind = variant("Expressions"@, Syntax::List(sort_keys(items, keys.items())));
    let new = order_by.with("kind"@, kind);
    set_field_is_read(t, "order_by"@, new);
    other_field_stays(t, "order_by"@, new, "body"@, new);
    set_field_is_read(order_by, "kind"@, kind);
    assert(kind.payload("Expressions"@) == Some(Syntax::List(sort_keys(items, keys.items()))));
}

// --- names of columns ----------------------------------------------------------------------------

/// A column is named by the last part of its own name, a cast to `regclass` or to a type of one
/// name
/// by that type, and anything that is no cast, call or column `?column?`.
pub proof fn columns_are_named_by_what_they_are(e: Syntax)
    ensures
        e.payload("Identifier"@) is Some
            ==> (e.payload("Identifier"@)->0.at("value"@) matches Syntax::Text(
            s,
        ) ==> title(e) == Some(s)),
        e.payload("CompoundIdentifier"@) is Some && e.payload(
            "CompoundIdentifier"@,
        )->0.items().len() > 0 ==> (e.payload("CompoundIdentifier"@)->0.items().last().at(
            "value"@,
        ) matches Syntax::Text(s) ==> title(e) == Some(s)),
        cast_parts(e) is Some && cast_parts(e)->0.ty == Syntax::Text("Regclass"@) ==> title(e)
            == Some("regclass"@),
        cast_parts(e) is Some && named_type(cast_parts(e)->0.ty) is Some && named_type(
            cast_parts(e)->0.ty,
        )->0.len() == 1
            ==> (named_type(cast_parts(e)->0.ty)->0[0].payload("Identifier"@) matches Some(
            id,
        ) ==> (id.at("value"@) matches Syntax::Text(s) ==> title(e) == Some(s))),
        e.payload("Cast"@) is None && e.payload("Function"@) is None && e.payload("Identifier"@)
            is None && e.payload("CompoundIdentifier"@) is None ==> title(e) == Some("?column?"@),
{
    fields_differ();
    if let Some(path) = e.payload("CompoundIdentifier"@) {
        if path.items().len() > 0 {
            assert(path.item(path.items().len() - 1) == path.items().last());
        }
    }
}

/// A select item that gets a fresh name keeps its expression, and the name that is noted for it is
/// the one that it would be put out under.
pub proof fn fresh_items_keep_their_expressions(
    taken: Seq<(Seq<char>, Seq<char>)>,
    st: ProgressView,
    item: Syntax,
)
    requires
        item.payload("UnnamedExpr"@) is Some,
        item.payload("UnnamedExpr"@)->0.inner().payload("Wildcard"@) is None,
        item.payload("UnnamedExpr"@)->0.inner().payload("QualifiedWildcard"@) is None,
        title(item.payload("UnnamedExpr"@)->0.inner()) is Some,
    ensures
        ({
            let e = item.payload("UnnamedExpr"@)->0.inner();
            let (st1, out) = fresh_item(taken, st, item);
            let a = out.payload("ExprWithAlias"@);
            &&& a is Some
            &&& a->0.at("expr"@).inner() == e
            &&& a->0.at("alias"@).at("value"@)
                == Syntax::Text(numbered("alias_"@, st1.count as nat))
            &&& st1.names.last() == (numbered("alias_"@, st1.count as nat), title(e)->0)
            &&& st1.count == next_free(taken, st.count)
        }),
{
    fields_differ();
    let e = item.payload("UnnamedExpr"@)->0.inner();
    let alias = numbered("alias_"@, next_free(taken, st.count) as nat);
    let r = aliased_item(e, alias).payload("ExprWithAlias"@)->0;
    field_is_found(r->Record_0, 0);
    field_is_found(r->Record_0, 1);
    field_is_found(ident(alias)->Record_0, 0);
}

// --- GROUP BY ------------------------------------------------------------------------------------

proof fn all_are_seen(keys: Seq<Seq<char>>, cols: Seq<Syntax>, n: nat)
    requires
        n <= cols.len(),
    ensures
        ({
            let g = grouped_columns(keys, cols, n);
            &&& forall|i: int| 0 <= i < n ==> g.seen.contains(group_key(#[trigger] cols[i]))
            &&& g.seen.len() == keys.len() + g.added.len()
            &&& forall|i: int| 0 <= i < keys.len() ==> g.seen[i] == keys[i]
            &&& forall|i: int|
                0 <= i < g.added.len() ==> g.seen[keys.len() + i] == group_key(
                    (#[trigger] g.added[i]).inner(),
                ) && cols.contains(g.added[i].inner())
        }),
    decreases n,
{
    if n > 0 {
        all_are_seen(keys, cols, (n - 1) as nat);
        let before = grouped_columns(keys, cols, (n - 1) as nat);
        let g = grouped_columns(keys, cols, n);
        let key = group_key(cols[n - 1]);
        if !before.seen.contains(key) {
            assert(g.seen[before.seen.len() as int] == key);
            assert forall|i: int| 0 <= i < n implies g.seen.contains(
                group_key(#[trigger] cols[i]),
            ) by {
                if i < n - 1 {
                    let k = choose|k: int|
                        0 <= k < before.seen.len() && before.seen[k] == group_key(cols[i]);
                    assert(g.seen[k] == group_key(cols[i]));
                }
            }
            assert forall|i: int| 0 <= i < g.added.len() implies g.seen[keys.len() + i]
                == group_key((#[trigger] g.added[i]).inner()) && cols.contains(
                g.added[i].inner(),
            ) by {
                if i < before.added.len() {
                    assert(g.added[i] == before.added[i]);
                } else {
                    assert(cols[n - 1] == g.added[i].inner());
                }
            }
        }
    }
}

/// A query that is grouped is then also grouped by every column that its select items compare with
/// `ANY`: what it was grouped by stays in front, nothing but such columns is added, and none is
/// missing.
pub proof fn compared_columns_are_grouped_by(q: Syntax, c: Syntax)
    requires
        q.at("body"@).payload("Select"@) is Some,
        q.at("body"@).payload("Select"@)->0.at("group_by"@).payload("Expressions"@) is Some,
        q.at("body"@).payload("Select"@)->0.at("group_by"@).payload("Expressions"@)->0.item(
            0,
        ).items().len() > 0,
        any_columns(q.at("body"@).payload("Select"@)->0.at("projection"@)).contains(c),
    ensures
        ({
            let select = q.at("body"@).payload("Select"@)->0;
            let cols = any_columns(select.at("projection"@));
            let old = select.at("group_by"@).payload("Expressions"@)->0.item(0).items();
            let out = if any_grouped(q) is Some { any_grouped(q)->0 } else { q };
            let select1 = out.at("body"@).payload("Select"@)->0;
            let new = select1.at("group_by"@).payload("Expressions"@)->0.item(0).items();
            &&& group_keys(new).contains(group_key(c))
            &&& new.len() >= old.len()
            &&& forall|i: int| 0 <= i < old.len() ==> new[i] == old[i]
            &&& forall|i: int|
                old.len() <= i < new.len() ==> cols.contains((#[trigger] new[i]).inner())
            &&& select1.at("projection"@) == select.at("projection"@)
        }),
{
    fields_differ();
    let select = q.at("body"@).payload("Select"@)->0;
    let cols = any_columns(select.at("projection"@));
    let g = select.at("group_by"@).payload("Expressions"@)->0;
    let old = g.item(0).items();
    let added = grouped_columns(group_keys(old), cols, cols.len()).added;
    let seen = grouped_columns(group_keys(old), cols, cols.len()).seen;
    all_are_seen(group_keys(old), cols, cols.len());
    let i = choose|i: int| 0 <= i < cols.len() && cols[i] == c;
    assert(seen.contains(group_key(cols[i])));
    let new = old + added;
    assert(group_keys(new) =~= seen) by {
        assert(group_keys(new).len() == seen.len());
        assert forall|k: int| 0 <= k < new.len() implies #[trigger] group_keys(new)[k]
            == seen[k] by {
            if k < old.len() {
                assert(new[k] == old[k]);
                assert(group_keys(old)[k] == seen[k]);
            } else {
                assert(new[k] == added[k - old.len()]);
                assert(seen[group_keys(old).len() + (k - old.len())] == group_key(
                    added[k - old.len()].inner(),
                ));
            }
        }
    }
    if added.len() == 0 {
        assert(new =~= old);
    }
    let list = variant("Expressions"@, Syntax::List(seq![Syntax::List(new), g.item(1)]));
    let select1 = select.with("group_by"@, list);
    let body = variant("Select"@, select1);
    set_field_is_read(select, "group_by"@, list);
    other_field_stays(select, "group_by"@, list, "projection"@, list);
    set_field_is_read(q, "body"@, body);
    assert(body.payload("Select"@) == Some(select1));
    assert(list.payload("Expressions"@)->0.item(0).items() == new);
    assert forall|k: int| old.len() <= k < new.len() implies cols.contains(
        (#[trigger] new[k]).inner(),
    ) by {
        assert(new[k] == added[k - old.len()]);
    }
}

// --- object ids ----------------------------------------------------------------------------------

/// The columns of the catalog that hold functions, by their names.
pub proof fn function_columns_are_known()
    ensures
        is_regproc_name("aggcombinefn"@),
        is_regproc_name("aggdeserialfn"@),
        is_regproc_name("aggfinalfn"@),
        is_regproc_name("aggfnoid"@),
        is_regproc_name("aggmfinalfn"@),
        is_regproc_name("aggminvtransfn"@),
        is_regproc_name("aggmtransfn"@),
        is_regproc_name("aggserialfn"@),
        is_regproc_name("aggtransfn"@),
        is_regproc_name("amhandler"@),
        is_regproc_name("amproc"@),
        is_regproc_name("conproc"@),
        is_regproc_name("oprcode"@),
        is_regproc_name("oprjoin"@),
        is_regproc_name("oprrest"@),
        is_regproc_name("prosupport"@),
        is_regproc_name("prsend"@),
        is_regproc_name("prsheadline"@),
        is_regproc_name("prslextype"@),
        is_regproc_name("prsstart"@),
        is_regproc_name("prstoken"@),
        is_regproc_name("rngcanonical"@),
        is_regproc_name("rngsubdiff"@),
        is_regproc_name("tmplinit"@),
        is_regproc_name("tmpllexize"@),
        is_regproc_name("trffromsql"@),
        is_regproc_name("trftosql"@),
        is_regproc_name("typanalyze"@),
        is_regproc_name("typinput"@),
        is_regproc_name("typmodin"@),
        is_regproc_name("typmodout"@),
        is_regproc_name("typoutput"@),
        is_regproc_name("typreceive"@),
        is_regproc_name("typsend"@),
        is_regproc_name("typsubscript"@),
{
    assert(same_ignoring_case(REGPROC_COLUMN_NAMES@[0]@, "aggcombinefn"@));
    assert(same_ignoring_case(REGPROC_COLUMN_NAMES@[1]@, "aggdeserialfn"@));
    assert(same_ignoring_case(REGPROC_COLUMN_NAMES@[2]@, "aggfinalfn"@));
    assert(same_ignoring_case(REGPROC_COLUMN_NAMES@[3]@, "aggfnoid"@));
    assert(same_ignoring_case(REGPROC_COLUMN_NAMES@[4]@, "aggmfinalfn"@));
    assert(same_ignoring_case(REGPROC_COLUMN_NAMES@[5]@, "aggminvtransfn"@));
    assert(same_ignoring_case(REGPROC_COLUMN_NAMES@[6]@, "aggmtransfn"@));
    assert(same_ignoring_case(REGPROC_COLUMN_NAMES@[7]@, "aggserialfn"@));
    assert(same_ignoring_case(REGPROC_COLUMN_NAMES@[8]@, "aggtransfn"@));
    assert(same_ignoring_case(REGPROC_COLUMN_NAMES@[9]@, "amhandler"@));
    assert(same_ignoring_case(REGPROC_COLUMN_NAMES@[10]@, "amproc"@));
    assert(same_ignoring_case(REGPROC_COLUMN_NAMES@[11]@, "conproc"@));
    assert(same_ignoring_case(REGPROC_COLUMN_NAMES@[12]@, "oprcode"@));
    assert(same_ignoring_case(REGPROC_COLUMN_NAMES@[13]@, "oprjoin"@));
    assert(same_ignoring_case(REGPROC_COLUMN_NAMES@[14]@, "oprrest"@));
    assert(same_ignoring_case(REGPROC_COLUMN_NAMES@[15]@, "prosupport"@));
    assert(same_ignoring_case(REGPROC_COLUMN_NAMES@[16]@, "prsend"@));
    assert(same_ignoring_case(REGPROC_COLUMN_NAMES@[17]@, "prsheadline"@));
    assert(same_ignoring_case(REGPROC_COLUMN_NAMES@[18]@, "prslextype"@));
    assert(same_ignoring_case(REGPROC_COLUMN_NAMES@[19]@, "prsstart"@));
    assert(same_ignoring_case(REGPROC_COLUMN_NAMES@[20]@, "prstoken"@));
    assert(same_ignoring_case(REGPROC_COLUMN_NAMES@[21]@, "rngcanonical"@));
    assert(same_ignoring_case(REGPROC_COLUMN_NAMES@[22]@, "rngsubdiff"@));
    assert(same_ignoring_case(REGPROC_COLUMN_NAMES@[23]@, "tmplinit"@));
    assert(same_ignoring_case(REGPROC_COLUMN_NAMES@[24]@, "tmpllexize"@));
    assert(same_ignoring_case(REGPROC_COLUMN_NAMES@[25]@, "trffromsql"@));
    assert(same_ignoring_case(REGPROC_COLUMN_NAMES@[26]@, "trftosql"@));
    assert(same_ignoring_case(REGPROC_COLUMN_NAMES@[27]@, "typanalyze"@));
    assert(same_ignoring_case(REGPROC_COLUMN_NAMES@[28]@, "typinput"@));
    assert(same_ignoring_case(REGPROC_COLUMN_NAMES@[29]@, "typmodin"@));
    assert(same_ignoring_case(REGPROC_COLUMN_NAMES@[30]@, "typmodout"@));
    assert(same_ignoring_case(REGPROC_COLUMN_NAMES@[31]@, "typoutput"@));
    assert(same_ignoring_case(REGPROC_COLUMN_NAMES@[32]@, "typreceive"@));
    assert(same_ignoring_case(REGPROC_COLUMN_NAMES@[33]@, "typsend"@));
    assert(same_ignoring_case(REGPROC_COLUMN_NAMES@[34]@, "typsubscript"@));
}

/// Whether an expression is a number or a placeholder.
pub open spec fn is_given_number(e: Syntax) -> bool {
    literal(e).payload("Number"@) is Some || literal(e).payload("Placeholder"@) is Some
}

/// A cast to `oid` becomes what gives the OID of the value: a cast to `BIGINT` of a number or a
/// placeholder, `pg_proc_oid` of a column that holds functions, and `oid` of anything else. Any
/// other expression stays.
pub proof fn oids_are_looked_up(e: Syntax)
    ensures
        ({
            let Casting { value: x, ty } = cast_parts(e)->0;
            let out = oid_resolved(e);
            let to_oid = cast_parts(e) is Some && is_type(ty, "oid"@);
            &&& to_oid && is_given_number(x) ==> cast_parts(out) is Some && cast_parts(out)->0.value
                == x && cast_parts(out)->0.ty.payload("BigInt"@) is Some
            &&& to_oid && !is_given_number(x) && is_regproc(x) ==> is_unqualified(
                called(out),
                "pg_proc_oid"@,
            ) && arguments(out).len() == 1 && argument_is(arguments(out)[0], x)
            &&& to_oid && !is_given_number(x) && !is_regproc(x) ==> is_unqualified(
                called(out),
                "oid"@,
            ) && arguments(out).len() == 1 && argument_is(arguments(out)[0], x)
            &&& !to_oid ==> out == e
        }),
{
    call_fields_differ();
    part_is_spelled("pg_proc_oid"@);
    part_is_spelled("oid"@);
    if let Some(c) = e.payload("Cast"@) {
        let x = c.at("expr"@).inner();
        if let Some(p) = c.at("data_type"@).payload("Custom"@) {
            names_ignore_case(p.item(0), "pg_catalog"@, "oid"@);
        }
        call_parts(name1("pg_proc_oid"@), seq![unnamed_arg(x)]);
        call_parts(name1("oid"@), seq![unnamed_arg(x)]);
        let out = cast("DoubleColon"@, x, bigint_type());
        field_is_found(out.payload("Cast"@)->0->Record_0, 1);
        field_is_found(out.payload("Cast"@)->0->Record_0, 2);
    }
}

/// Whether `e` is a call of `pg_proc_oid` with the argument `x`.
pub open spec fn is_proc_oid(e: Syntax, x: Syntax) -> bool {
    is_unqualified(called(e), "pg_proc_oid"@) && arguments(e).len() == 1 && argument_is(
        arguments(e)[0],
        x,
    )
}

proof fn proc_oid_is_called(x: Syntax)
    ensures
        is_proc_oid(proc_oid(x), x),
{
    part_is_spelled("pg_proc_oid"@);
    call_parts(name1("pg_proc_oid"@), seq![unnamed_arg(x)]);
}

/// Where a column that holds functions is compared with something else by `=` or `<>`, the OID of
/// the column is compared, with the OID of the function that a text names; the operator and the
/// sides stay. Any other comparison stays.
pub proof fn functions_are_compared_by_oid(e: Syntax)
    requires
        e.payload("BinaryOp"@) is Some,
        e.payload("BinaryOp"@)->0.at("left"@) is Expr,
        e.payload("BinaryOp"@)->0.at("right"@) is Expr,
    ensures
        ({
            let b = e.payload("BinaryOp"@)->0;
            let (l, r) = (b.at("left"@).inner(), b.at("right"@).inner());
            let out = regproc_comparison(e).payload("BinaryOp"@)->0;
            let (l1, r1) = (out.at("left"@).inner(), out.at("right"@).inner());
            let text = |x: Syntax| is_text_literal(x);
            let compares = b.at("op"@) == Syntax::Text("Eq"@) || b.at("op"@) == Syntax::Text(
                "NotEq"@,
            );
            &&& compares && is_regproc(l) && !is_regproc(r) ==> out.at("op"@) == b.at("op"@)
                && is_proc_oid(l1, l) && (text(r) ==> is_proc_oid(r1, r)) && (!text(r) ==> r1 == r)
            &&& compares && !is_regproc(l) && is_regproc(r) ==> out.at("op"@) == b.at("op"@)
                && is_proc_oid(r1, r) && (text(l) ==> is_proc_oid(l1, l)) && (!text(l) ==> l1 == l)
            &&& !compares || is_regproc(l) == is_regproc(r) ==> regproc_comparison(e) == e
        }),
{
    fields_differ();
    let b = e.payload("BinaryOp"@)->0;
    let (l, r) = (b.at("left"@).inner(), b.at("right"@).inner());
    proc_oid_is_called(l);
    proc_oid_is_called(r);
    let l1 = if is_regproc(l) { proc_oid(l) } else { literal_resolved(l) };
    let r1 = if is_regproc(r) { proc_oid(r) } else { literal_resolved(r) };
    let one = b.with("left"@, expr_node(l1));
    let two = one.with("right"@, expr_node(r1));
    set_field_is_read(b, "left"@, expr_node(l1));
    other_field_stays(b, "left"@, expr_node(l1), "right"@, l);
    other_field_stays(b, "left"@, expr_node(l1), "op"@, l);
    set_field_is_read(one, "right"@, expr_node(r1));
    other_field_stays(one, "right"@, expr_node(r1), "left"@, l);
    other_field_stays(one, "right"@, expr_node(r1), "op"@, l);
    assert(variant("BinaryOp"@, two).payload("BinaryOp"@) == Some(two));
}

// --- tables --------------------------------------------------------------------------------------

/// A table that is called like the function of extension versions, with arguments, becomes a table
/// of `available_extension_versions` with the same arguments; any other node stays.
pub proof fn extension_versions_have_their_source(t: Syntax)
    ensures
        ({
            let f = t.payload("Table"@);
            let name = relation_name(f->0.at("name"@)).items();
            let called = f is Some && f->0.at("args"@) != Syntax::Null && (is_unqualified(
                name,
                "pg_available_extension_versions"@,
            ) || is_qualified(name, "pg_catalog"@, "pg_available_extension_versions"@));
            let out = extension_source(t).payload("Table"@);
            &&& called && f->0.at("name"@) != Syntax::Null ==> out is Some && out->0.at("args"@)
                == f->0.at("args"@) && out->0.at("name"@) is Relation && is_unqualified(
                relation_name(out->0.at("name"@)).items(),
                "available_extension_versions"@,
            )
            &&& !called ==> extension_source(t) == t
        }),
{
    fields_differ();
    part_is_spelled("available_extension_versions"@);
    if let Some(f) = t.payload("Table"@) {
        names_ignore_case(
            relation_name(f.at("name"@)),
            "pg_catalog"@,
            "pg_available_extension_versions"@,
        );
        let new = Syntax::Relation(Box::new(name1("available_extension_versions"@)));
        set_field_is_read(f, "name"@, new);
        other_field_stays(f, "name"@, new, "args"@, new);
        let out = variant("Table"@, f.with("name"@, new));
        assert(out.payload("Table"@) == Some(f.with("name"@, new)));
    }
}

/// Whether a name is one of a table function of `pg_catalog` that is known without its schema.
pub open spec fn is_known_function(parts: Seq<Syntax>) -> bool {
    is_qualified(parts, "pg_catalog"@, "pg_get_keywords"@) || is_qualified(
        parts,
        "pg_catalog"@,
        "pg_postmaster_start_time"@,
    ) || is_qualified(parts, "pg_catalog"@, "generate_series"@)
}

/// A known table function is called by the last part of its name, with the same arguments, and
/// named
/// by it as a relation; any other name stays.
pub proof fn known_functions_lose_their_schema(st: ProgressView, e: Syntax, name: Syntax)
    requires
        e.payload("Function"@) is Some,
        e.payload("Function"@)->0.at("name"@) == name,
    ensures
        is_known_function(name.items()) ==> called(unqualified_call(st, e).1) == seq![
            name.items()[1],
        ] && arguments(unqualified_call(st, e).1) == arguments(e),
        !is_known_function(name.items()) ==> unqualified_call(st, e) == (st, e),
        is_known_function(name.items()) ==> unqualified_relation(
            st,
            Syntax::Relation(Box::new(name)),
        ).1 == Syntax::Relation(Box::new(Syntax::List(seq![name.items()[1]]))),
        !is_known_function(name.items()) ==> unqualified_relation(
            st,
            Syntax::Relation(Box::new(name)),
        ) == (st, Syntax::Relation(Box::new(name))),
{
    fields_differ();
    names_ignore_case(name, "pg_catalog"@, "pg_get_keywords"@);
    names_ignore_case(name, "pg_catalog"@, "pg_postmaster_start_time"@);
    names_ignore_case(name, "pg_catalog"@, "generate_series"@);
    let f = e.payload("Function"@)->0;
    let new = Syntax::List(seq![name.item(1)]);
    set_field_is_read(f, "name"@, new);
    other_field_stays(f, "name"@, new, "args"@, new);
    let out = variant("Function"@, f.with("name"@, new));
    assert(out.payload("Function"@) == Some(f.with("name"@, new)));
}

/// A table in a subquery stands in `pg_catalog` unless it has a schema, and one without an alias
/// gets
/// the next one, under which its columns are then named.
pub proof fn tables_of_subqueries_are_named(st: NamingView, tf: Syntax)
    requires
        tf.payload("Table"@) is Some,
        tf.payload("Table"@)->0.at("name"@) is Relation,
        st.count < u64::MAX,
    ensures
        ({
            let t = tf.payload("Table"@)->0;
            let old = relation_name(t.at("name"@)).items();
            let (st1, tf1) = named_factor(st, tf);
            let t1 = tf1.payload("Table"@);
            let new = relation_name(t1->0.at("name"@)).items();
            &&& t1 is Some
            &&& t1->0.at("name"@) is Relation
            &&& old.len() == 1 ==> new.len() == 2 && spells(new[0], "pg_catalog"@) && new[1]
                == old[0]
            &&& old.len() != 1 ==> new == old
            &&& t.at("alias"@) != Syntax::Null ==> t1->0.at("alias"@) == t.at("alias"@) && st1 == st
            &&& t.at("alias"@) == Syntax::Null ==> st1.count == st.count + 1
        }),
{
    fields_differ();
    part_is_spelled("pg_catalog"@);
    let t = tf.payload("Table"@)->0;
    let name = relation_name(t.at("name"@));
    let new = Syntax::Relation(Box::new(in_catalog(name)));
    let placed = t.with("name"@, new);
    set_field_is_read(t, "name"@, new);
    other_field_stays(t, "name"@, new, "alias"@, new);
    let alias = table_alias(subquery_alias(st.count), true);
    other_field_stays(placed, "alias"@, alias, "name"@, new);
    assert(variant("Table"@, placed).payload("Table"@) == Some(placed));
    let both = placed.with("alias"@, alias);
    assert(variant("Table"@, both).payload("Table"@) == Some(both));
}

/// An alias that is made explicit keeps its name.
pub proof fn explicit_aliases_keep_their_names(alias: Syntax)
    requires
        alias.at("explicit"@) != Syntax::Null,
    ensures
        explicit_alias(alias).at("explicit"@) == Syntax::Bool(true),
        explicit_alias(alias).at("name"@) == alias.at("name"@),
{
    fields_differ();
    set_field_is_read(alias, "explicit"@, Syntax::Bool(true));
    other_field_stays(alias, "explicit"@, Syntax::Bool(true), "name"@, alias);
}

// --- the order of the rewrites -------------------------------------------------------------------

/// How many rewrites come before one.
pub open spec fn rewrites_before(x: Rewrite) -> int {
    match x {
        Rewrite::SetCommand => 0,
        Rewrite::TimeZoneUtc => 1,
        Rewrite::Regclass => 2,
        Rewrite::RegtypeCast => 3,
        Rewrite::RegoperatorCast => 4,
        Rewrite::RegprocedureCast => 5,
        Rewrite::RegprocCast => 6,
        Rewrite::RegoperCast => 7,
        Rewrite::RegprocComparisons => 8,
        Rewrite::OidCast => 9,
        Rewrite::RedundantOidCasts => 10,
        Rewrite::OidArrayCast => 11,
        Rewrite::XidCast => 12,
        Rewrite::CharCast => 13,
        Rewrite::NameCast => 14,
        Rewrite::TextBackedCasts => 15,
        Rewrite::InformationSchemaCasts => 16,
        Rewrite::QualifiedText => 17,
        Rewrite::QualifiedTypes => 18,
        Rewrite::ArrayAggCast => 19,
        Rewrite::CustomOperator => 20,
        Rewrite::DefaultCollation => 21,
        Rewrite::BraceArrayLiteral => 22,
        Rewrite::ArrayUpper => 23,
        Rewrite::CompositeArguments => 24,
        Rewrite::AvailableUpdates => 25,
        Rewrite::ArraySubquery => 26,
        Rewrite::TupleEquality => 27,
        Rewrite::BooleanSubquery => 28,
        Rewrite::ExistsToCount => 29,
        Rewrite::TupleInSubquery => 30,
        Rewrite::QualifiedTableFunctions => 31,
        Rewrite::ExtensionVersions => 32,
        Rewrite::SubqueryTables => 33,
        Rewrite::SetReturningFunctions => 34,
        Rewrite::LateralAggregate => 35,
        Rewrite::OrderByNames => 36,
        Rewrite::DuplicateColumns => 37,
    }
}

/// Every rewrite has its place in the order in which they are applied.
pub proof fn rewrites_have_their_places(x: Rewrite)
    ensures
        0 <= rewrites_before(x) < stage_order().len(),
        stage_order()[rewrites_before(x)] == x,
        stage_order().len() == 38,
{
}

// --- more of names -------------------------------------------------------------------------------

/// A cast to a type that has no name of its own is named by the type as it is printed, in small
/// letters.
pub proof fn casts_are_named_by_their_type(e: Syntax)
    requires
        cast_parts(e) is Some,
        cast_parts(e)->0.ty != Syntax::Text("Regclass"@),
        named_type(cast_parts(e)->0.ty) is None,
    ensures
        type_string(cast_parts(e)->0.ty) matches Some(s) ==> title(e) == Some(lowercased(s)),
        type_string(cast_parts(e)->0.ty) is None ==> title(e) is None,
{
}

/// What `= ANY(..)` compares with is what stands in the brackets, and what `LIKE ANY` does is its
/// pattern; a comparison with `SOME`, and any other expression, has no such thing.
pub proof fn any_compares_with_its_argument(e: Syntax)
    ensures
        e.payload("AnyOp"@) matches Some(a) ==> (a.at("is_some"@) == Syntax::Bool(false)
            ==> any_argument(e) == Some(a.at("right"@).inner())),
        e.payload("AnyOp"@) matches Some(a) ==> (a.at("is_some"@) == Syntax::Bool(true)
            ==> any_argument(e) is None),
        e.payload("Like"@) matches Some(l) ==> (l.at("any"@) == Syntax::Bool(true) ==> any_argument(
            e,
        ) == Some(l.at("pattern"@).inner())),
        e.payload("ILike"@) matches Some(l) ==> (l.at("any"@) == Syntax::Bool(true)
            ==> any_argument(e) == Some(l.at("pattern"@).inner())),
        e.payload("AnyOp"@) is None && e.payload("Like"@) is None && e.payload("ILike"@) is None
            ==> any_argument(e) is None,
{
    reveal_strlit("AnyOp");
    reveal_strlit("Like");
    reveal_strlit("ILike");
    assert("AnyOp"@.len() == 5);
    assert("Like"@.len() == 4);
    assert("ILike"@.len() == 5);
    assert("AnyOp"@[0] == 'A');
    assert("ILike"@[0] == 'I');
    assert("AnyOp"@[0] == 'A' && "ILike"@[0] == 'I');
}

/// A column is found under parentheses and casts.
pub proof fn columns_are_found_under_casts(e: Syntax)
    ensures
        e.payload("Identifier"@) is Some || e.payload("CompoundIdentifier"@) is Some
            ==> column_of(e)
            == Some(e),
        e.payload("Nested"@) matches Some(x) ==> (x is Expr ==> column_of(e) == column_of(
            x.inner(),
        )),
        e.payload("Cast"@) matches Some(c) ==> (c.at("expr"@) is Expr ==> column_of(e) == column_of(
            c.at("expr"@).inner(),
        )),
        e.payload("Function"@) is Some || e.payload("Value"@) is Some || e.payload("Subquery"@)
            is Some ==> column_of(e) is None,
{
    reveal_strlit("Identifier");
    reveal_strlit("CompoundIdentifier");
    reveal_strlit("Nested");
    reveal_strlit("Cast");
    reveal_strlit("Function");
    reveal_strlit("Value");
    reveal_strlit("Subquery");
    assert("Identifier"@.len() == 10);
    assert("CompoundIdentifier"@.len() == 18);
    assert("Nested"@.len() == 6);
    assert("Cast"@.len() == 4);
    assert("Function"@.len() == 8);
    assert("Value"@.len() == 5);
    assert("Subquery"@.len() == 8);
    assert("Function"@[0] == 'F');
    assert("Subquery"@[0] == 'S');
}

/// The name that a query knows its first table by is the alias of the table or of the subquery, and
/// else the first part of the name of the table.
pub proof fn first_table_is_known_by_its_alias(select: Syntax)
    ensures
        ({
            let relation = select.at("from"@).item(0).at("relation"@);
            let table = relation.payload("Table"@);
            let derived = relation.payload("Derived"@);
            let parts = relation_name(table->0.at("name"@)).items();
            let first = parts[0].payload("Identifier"@);
            &&& table is Some && table->0.at("alias"@) != Syntax::Null ==> outer_alias(select)
                == table->0.at("alias"@).at("name"@)
            &&& derived is Some && derived->0.at("alias"@) != Syntax::Null ==> outer_alias(select)
                == derived->0.at("alias"@).at("name"@)
            &&& table is Some && table->0.at("alias"@) == Syntax::Null && parts.len() > 0
                && first is Some ==> outer_alias(select) == first->0
        }),
{
    reveal_strlit("Table");
    reveal_strlit("Derived");
    assert("Table"@.len() == 5);
    assert("Derived"@.len() == 7);
}

/// A column of a table that has been given an alias is named by the alias, where it was named by
/// the
/// table; any other column stays.
pub proof fn columns_follow_their_table(tables: Aliases, e: Syntax, k: int)
    requires
        e.payload("CompoundIdentifier"@) is Some,
        e.payload("CompoundIdentifier"@)->0.items().len() == 2,
        e.payload("CompoundIdentifier"@)->0.items()[0].at("value"@) is Text,
        0 <= k <= tables.len(),
        ({
            let table = e.payload("CompoundIdentifier"@)->0.items()[0].at("value"@)->Text_0;
            &&& forall|j: int| 0 <= j < k ==> !alike((#[trigger] tables[j]).0, table)
            &&& k < tables.len() ==> alike(tables[k].0, table)
        }),
    ensures
        ({
            let path = e.payload("CompoundIdentifier"@)->0.items();
            let out = requalified(tables, e).payload("CompoundIdentifier"@);
            &&& k < tables.len()
                ==> out is Some && out->0.items().len() == 2 && out->0.items()[0].at(
                "value"@,
            ) == Syntax::Text(tables[k].1) && out->0.items()[1] == path[1]
            &&& k == tables.len() ==> requalified(tables, e) == e
        }),
{
    let path = e.payload("CompoundIdentifier"@)->0;
    let table = path.items()[0].at("value"@)->Text_0;
    assert(path.item(0) == path.items()[0] && path.item(1) == path.items()[1]);
    alias_is_found(tables, table, k);
    if k < tables.len() {
        field_is_found(ident(tables[k].1)->Record_0, 0);
    }
}

proof fn alias_is_found(tables: Aliases, table: Seq<char>, k: int)
    requires
        0 <= k <= tables.len(),
        forall|j: int| 0 <= j < k ==> !alike((#[trigger] tables[j]).0, table),
        k < tables.len() ==> alike(tables[k].0, table),
    ensures
        alias_of(tables, table) == if k < tables.len() {
            Some(tables[k].1)
        } else {
            None
        },
    decreases k,
{
    if tables.len() > 0 {
        case_is_ignored(tables[0].0, table);
        if k > 0 {
            let rest = tables.skip(1);
            assert(!alike(tables[0].0, table));
            assert forall|j: int| 0 <= j < k - 1 implies !alike((#[trigger] rest[j]).0, table) by {
                assert(rest[j] == tables[j + 1]);
            }
            alias_is_found(rest, table, k - 1);
        }
    }
}

/// The aliases of tables in subqueries are numbered, so that no two are the same.
pub proof fn subquery_aliases_are_numbered(n: u64)
    ensures
        ({
            let s = subquery_alias(n);
            &&& s.len() > 6
            &&& s.take(4) == "subq"@
            &&& spelled(s.subrange(4, s.len() - 2)) == n
            &&& s.skip(s.len() - 2) == "_t"@
        }),
{
    reveal_strlit("subq");
    reveal_strlit("_t");
    assert("subq"@.len() == 4 && "_t"@.len() == 2);
    decimal_is_read_back(n as nat);
    let s = subquery_alias(n);
    assert(s.take(4) =~= "subq"@);
    assert(s.subrange(4, s.len() - 2) =~= decimal(n as nat));
    assert(s.skip(s.len() - 2) =~= "_t"@);
}

} // verus!
