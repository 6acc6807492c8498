//! What holds of rewrites that reach into the parts of a query.
use super::alias::{
    explicit_alias, explicit_body, explicit_ctes, explicit_factor, explicit_from,
    explicit_join_list, explicit_joins, explicit_query,
};
use super::ast::{relation_name, table_alias};
use super::joined::has_field;
use super::lateral::{
    body_decorrelated, from_decorrelated, query_decorrelated, relation_decorrelated,
};
use super::laws::{lookup_of_other, lookup_of_replaced, other_field_stays, set_field_is_read};
use super::srf::{
    body_unnested, ctes_unnested, joins_unnested, query_unnested, relation_unnested, table_unnested,
};
use super::tables::{
    in_catalog, named_factor, named_from, named_joins, named_query, subquery_alias, tables_named,
    NamingView,
};
use super::tree::{variant, Syntax};
use super::walk::ProgressView;
use vstd::prelude::*;

verus! {

proof fn fields_differ()
    ensures
        "with"@ != "body"@ && "query"@ != "alias"@ && "left"@ != "right"@ && "left"@ != "op"@
            && "right"@ != "op"@ && "left"@ != "set_quantifier"@ && "right"@ != "set_quantifier"@
            && "relation"@ != "joins"@ && "subquery"@ != "alias"@ && "table_with_joins"@ != "alias"@
            && "explicit"@ != "name"@ && "name"@ != "alias"@ && "Table"@ != "Derived"@ && "Table"@
            != "NestedJoin"@ && "Derived"@ != "NestedJoin"@ && "Select"@ != "Query"@ && "Select"@
            != "SetOperation"@ && "Query"@ != "SetOperation"@ && "join_operator"@ != "relation"@,
{
    reveal_strlit("with");
    reveal_strlit("body");
    reveal_strlit("query");
    reveal_strlit("alias");
    reveal_strlit("left");
    reveal_strlit("right");
    reveal_strlit("op");
    reveal_strlit("set_quantifier");
    reveal_strlit("relation");
    reveal_strlit("joins");
    reveal_strlit("subquery");
    reveal_strlit("table_with_joins");
    reveal_strlit("explicit");
    reveal_strlit("name");
    reveal_strlit("Table");
    reveal_strlit("Derived");
    reveal_strlit("NestedJoin");
    reveal_strlit("Select");
    reveal_strlit("Query");
    reveal_strlit("SetOperation");
    reveal_strlit("join_operator");
    assert("with"@.len() == 4);
    assert("body"@.len() == 4);
    assert("query"@.len() == 5);
    assert("alias"@.len() == 5);
    assert("left"@.len() == 4);
    assert("right"@.len() == 5);
    assert("op"@.len() == 2);
    assert("set_quantifier"@.len() == 14);
    assert("relation"@.len() == 8);
    assert("joins"@.len() == 5);
    assert("subquery"@.len() == 8);
    assert("table_with_joins"@.len() == 16);
    assert("explicit"@.len() == 8);
    assert("name"@.len() == 4);
    assert("Table"@.len() == 5);
    assert("Derived"@.len() == 7);
    assert("NestedJoin"@.len() == 10);
    assert("Select"@.len() == 6);
    assert("Query"@.len() == 5);
    assert("SetOperation"@.len() == 12);
    assert("join_operator"@.len() == 13);
    assert("with"@[0] == 'w');
    assert("body"@[0] == 'b');
    assert("left"@[0] == 'l');
    assert("name"@[0] == 'n');
    assert("query"@[0] == 'q');
    assert("alias"@[0] == 'a');
    assert("right"@[0] == 'r');
    assert("joins"@[0] == 'j');
    assert("Table"@[0] == 'T');
    assert("Query"@[0] == 'Q');
    assert("relation"@[0] == 'r');
    assert("subquery"@[0] == 's');
    assert("explicit"@[0] == 'e');
}

// --- explicit aliases --------------------------------------------------------------------------

/// Aliases are made explicit in every common table expression of a query, and in its body.
pub proof fn aliases_reach_every_query(q: Syntax, i: int)
    requires
        q.at("body"@) != Syntax::Null,
        q.at("with"@) != Syntax::Null,
        q.at("with"@).at("cte_tables"@) is List,
        0 <= i < q.at("with"@).at("cte_tables"@).items().len(),
        q.at("with"@).at("cte_tables"@).items()[i].at("query"@) != Syntax::Null,
    ensures
        ({
            let old = q.at("with"@).at("cte_tables"@).items();
            let new = explicit_query(q).at("with"@).at("cte_tables"@).items();
            &&& new.len() == old.len()
            &&& new[i].at("query"@) == explicit_query(old[i].at("query"@))
            &&& new[i].at("alias"@) == old[i].at("alias"@)
            &&& explicit_query(q).at("body"@) == explicit_body(q.at("body"@))
        }),
{
    fields_differ();
    let with = q.at("with"@);
    let old = with.at("cte_tables"@).items();
    let list = Syntax::List(explicit_ctes(old));
    let with1 = with.with("cte_tables"@, list);
    let one = q.with("with"@, with1);
    let body = explicit_body(q.at("body"@));
    set_field_is_read(with, "cte_tables"@, list);
    set_field_is_read(q, "with"@, with1);
    other_field_stays(q, "with"@, with1, "body"@, body);
    set_field_is_read(one, "body"@, body);
    other_field_stays(one, "body"@, body, "with"@, body);
    let query = explicit_query(old[i].at("query"@));
    set_field_is_read(old[i], "query"@, query);
    other_field_stays(old[i], "query"@, query, "alias"@, query);
    assert(explicit_query(q) == one.with("body"@, body));
    assert(explicit_ctes(old)[i] == old[i].with("query"@, query));
}

/// Aliases are made explicit on both sides of a set operation, which keeps its kind, and in a query
/// in
/// parentheses.
pub proof fn aliases_reach_both_sides(se: Syntax)
    ensures
        ({
            let op = se.payload("SetOperation"@);
            let out = explicit_body(se).payload("SetOperation"@);
            op is Some && op->0.at("left"@) != Syntax::Null && op->0.at("right"@) != Syntax::Null
                ==> out is Some && out->0.at("left"@) == explicit_body(op->0.at("left"@))
                    && out->0.at(
                "right"@,
            ) == explicit_body(op->0.at("right"@)) && out->0.at("op"@) == op->0.at("op"@)
                && out->0.at(
                "set_quantifier"@,
            ) == op->0.at("set_quantifier"@)
        }),
        se.payload("Query"@) matches Some(q)
            ==> explicit_body(se).payload("Query"@) == Some(explicit_query(q)),
{
    fields_differ();
    if let Some(op) = se.payload("SetOperation"@) {
        let l = explicit_body(op.at("left"@));
        let r = explicit_body(op.at("right"@));
        let one = op.with("left"@, l);
        let two = one.with("right"@, r);
        set_field_is_read(op, "left"@, l);
        other_field_stays(op, "left"@, l, "right"@, l);
        other_field_stays(op, "left"@, l, "op"@, l);
        other_field_stays(op, "left"@, l, "set_quantifier"@, l);
        set_field_is_read(one, "right"@, r);
        other_field_stays(one, "right"@, r, "left"@, l);
        other_field_stays(one, "right"@, r, "op"@, l);
        other_field_stays(one, "right"@, r, "set_quantifier"@, l);
        assert(variant("SetOperation"@, two).payload("SetOperation"@) == Some(two));
    }
}

/// Whether an alias, where there is one, is written with `AS` and has the name that it had.
pub open spec fn is_made_explicit(old: Syntax, new: Syntax) -> bool {
    old.at("explicit"@) != Syntax::Null ==> new.at("explicit"@) == Syntax::Bool(true) && new.at(
        "name"@,
    ) == old.at("name"@)
}

proof fn alias_is_explicit(alias: Syntax)
    ensures
        is_made_explicit(alias, explicit_alias(alias)),
        alias == Syntax::Null ==> explicit_alias(alias) == Syntax::Null,
{
    fields_differ();
    set_field_is_read(alias, "explicit"@, Syntax::Bool(true));
    other_field_stays(alias, "explicit"@, Syntax::Bool(true), "name"@, alias);
}

/// The alias of a table is made explicit, and so are that of a subquery and those in it, and those
/// of
/// joins in parentheses.
pub proof fn aliases_reach_every_table(tf: Syntax)
    ensures
        tf.payload("Table"@) matches Some(t) ==> (t.at("alias"@) != Syntax::Null ==> (
        explicit_factor(tf).payload("Table"@) matches Some(u) && is_made_explicit(
            t.at("alias"@),
            u.at("alias"@),
        ) && u.at("name"@) == t.at("name"@))),
        tf.payload("Derived"@) matches Some(t) ==> (t.at("alias"@) != Syntax::Null && t.at(
            "subquery"@,
        ) != Syntax::Null ==> (explicit_factor(tf).payload("Derived"@) matches Some(u)
            && is_made_explicit(t.at("alias"@), u.at("alias"@)) && u.at("subquery"@)
            == explicit_query(t.at("subquery"@)))),
        tf.payload("NestedJoin"@) matches Some(t) ==> (t.at("table_with_joins"@) != Syntax::Null
            ==> (explicit_factor(tf).payload("NestedJoin"@) matches Some(u) && u.at(
            "table_with_joins"@,
        ) == explicit_joins(t.at("table_with_joins"@)))),
{
    fields_differ();
    if let Some(t) = tf.payload("Table"@) {
        let a = explicit_alias(t.at("alias"@));
        alias_is_explicit(t.at("alias"@));
        set_field_is_read(t, "alias"@, a);
        other_field_stays(t, "alias"@, a, "name"@, a);
        assert(explicit_factor(tf).payload("Table"@) == Some(t.with("alias"@, a)));
    } else if let Some(t) = tf.payload("Derived"@) {
        if t.at("subquery"@) != Syntax::Null {
            let a = explicit_alias(t.at("alias"@));
            let q = explicit_query(t.at("subquery"@));
            let one = t.with("subquery"@, q);
            alias_is_explicit(t.at("alias"@));
            set_field_is_read(t, "subquery"@, q);
            other_field_stays(t, "subquery"@, q, "alias"@, a);
            set_field_is_read(one, "alias"@, a);
            other_field_stays(one, "alias"@, a, "subquery"@, a);
            assert(explicit_factor(tf).payload("Derived"@) == Some(one.with("alias"@, a)));
        }
    } else if let Some(t) = tf.payload("NestedJoin"@) {
        if t.at("table_with_joins"@) != Syntax::Null {
            let a = explicit_alias(t.at("alias"@));
            let j = explicit_joins(t.at("table_with_joins"@));
            let one = t.with("table_with_joins"@, j);
            set_field_is_read(t, "table_with_joins"@, j);
            other_field_stays(one, "alias"@, a, "table_with_joins"@, a);
            assert(explicit_factor(tf).payload("NestedJoin"@) == Some(one.with("alias"@, a)));
        }
    }
}

/// Aliases are made explicit in the first table of a `FROM` item and in that of each of its joins,
/// which stay joined as they were; every item of a `FROM` clause is reached.
pub proof fn aliases_reach_every_join(select: Syntax, k: int, i: int)
    requires
        select.at("from"@) is List,
        0 <= k < select.at("from"@).items().len(),
        select.at("from"@).items()[k].at("relation"@) != Syntax::Null,
        select.at("from"@).items()[k].at("joins"@) is List,
        0 <= i < select.at("from"@).items()[k].at("joins"@).items().len(),
        select.at("from"@).items()[k].at("joins"@).items()[i].at("relation"@) != Syntax::Null,
    ensures
        ({
            let old = select.at("from"@).items()[k];
            let out = explicit_body(variant("Select"@, select)).payload("Select"@);
            let new = out->0.at("from"@).items()[k];
            &&& out is Some
            &&& out->0.at("from"@).items().len() == select.at("from"@).items().len()
            &&& new.at("relation"@) == explicit_factor(old.at("relation"@))
            &&& new.at("joins"@).items().len() == old.at("joins"@).items().len()
            &&& new.at("joins"@).items()[i].at("relation"@) == explicit_factor(
                old.at("joins"@).items()[i].at("relation"@),
            )
            &&& new.at("joins"@).items()[i].at("join_operator"@) == old.at("joins"@).items()[i].at(
                "join_operator"@,
            )
        }),
{
    fields_differ();
    let from = select.at("from"@).items();
    let list = Syntax::List(explicit_from(from));
    set_field_is_read(select, "from"@, list);
    let body = variant("Select"@, select);
    assert(body.payload("Select"@) == Some(select));
    let out = select.with("from"@, list);
    assert(variant("Select"@, out).payload("Select"@) == Some(out));
    let old = from[k];
    assert(explicit_from(from)[k] == explicit_joins(old));
    let joins = old.at("joins"@).items();
    let tf = explicit_factor(old.at("relation"@));
    let one = old.with("relation"@, tf);
    let new_joins = Syntax::List(explicit_join_list(joins));
    set_field_is_read(old, "relation"@, tf);
    other_field_stays(old, "relation"@, tf, "joins"@, tf);
    set_field_is_read(one, "joins"@, new_joins);
    other_field_stays(one, "joins"@, new_joins, "relation"@, tf);
    let j = joins[i];
    let jt = explicit_factor(j.at("relation"@));
    set_field_is_read(j, "relation"@, jt);
    other_field_stays(j, "relation"@, jt, "join_operator"@, jt);
    assert(explicit_join_list(joins)[i] == j.with("relation"@, jt));
}

// --- set-returning functions -------------------------------------------------------------------

/// Set-returning functions are unnested in every common table expression of a query, and in its
/// body.
pub proof fn unnestings_reach_every_query(q: Syntax, i: int)
    requires
        q.at("body"@) != Syntax::Null,
        q.at("with"@) != Syntax::Null,
        q.at("with"@).at("cte_tables"@) is List,
        0 <= i < q.at("with"@).at("cte_tables"@).items().len(),
        q.at("with"@).at("cte_tables"@).items()[i].at("query"@) != Syntax::Null,
    ensures
        ({
            let old = q.at("with"@).at("cte_tables"@).items();
            let new = query_unnested(q).at("with"@).at("cte_tables"@).items();
            &&& new.len() == old.len()
            &&& new[i].at("query"@) == query_unnested(old[i].at("query"@))
            &&& new[i].at("alias"@) == old[i].at("alias"@)
            &&& query_unnested(q).at("body"@) == body_unnested(q.at("body"@))
        }),
{
    fields_differ();
    let with = q.at("with"@);
    let old = with.at("cte_tables"@).items();
    let list = Syntax::List(ctes_unnested(old));
    let with1 = with.with("cte_tables"@, list);
    let one = q.with("with"@, with1);
    let body = body_unnested(q.at("body"@));
    set_field_is_read(with, "cte_tables"@, list);
    set_field_is_read(q, "with"@, with1);
    other_field_stays(q, "with"@, with1, "body"@, body);
    set_field_is_read(one, "body"@, body);
    other_field_stays(one, "body"@, body, "with"@, body);
    let query = query_unnested(old[i].at("query"@));
    set_field_is_read(old[i], "query"@, query);
    other_field_stays(old[i], "query"@, query, "alias"@, query);
    assert(query_unnested(q) == one.with("body"@, body));
    assert(ctes_unnested(old)[i] == old[i].with("query"@, query));
}

/// Set-returning functions are unnested on both sides of a set operation, which keeps its kind, and
/// in a query in
/// parentheses.
pub proof fn unnestings_reach_both_sides(se: Syntax)
    ensures
        ({
            let op = se.payload("SetOperation"@);
            let out = body_unnested(se).payload("SetOperation"@);
            op is Some && op->0.at("left"@) != Syntax::Null && op->0.at("right"@) != Syntax::Null
                ==> out is Some && out->0.at("left"@) == body_unnested(op->0.at("left"@))
                    && out->0.at(
                "right"@,
            ) == body_unnested(op->0.at("right"@)) && out->0.at("op"@) == op->0.at("op"@)
                && out->0.at(
                "set_quantifier"@,
            ) == op->0.at("set_quantifier"@)
        }),
        se.payload("Query"@) matches Some(q)
            ==> body_unnested(se).payload("Query"@) == Some(query_unnested(q)),
{
    fields_differ();
    if let Some(op) = se.payload("SetOperation"@) {
        let l = body_unnested(op.at("left"@));
        let r = body_unnested(op.at("right"@));
        let one = op.with("left"@, l);
        let two = one.with("right"@, r);
        set_field_is_read(op, "left"@, l);
        other_field_stays(op, "left"@, l, "right"@, l);
        other_field_stays(op, "left"@, l, "op"@, l);
        other_field_stays(op, "left"@, l, "set_quantifier"@, l);
        set_field_is_read(one, "right"@, r);
        other_field_stays(one, "right"@, r, "left"@, l);
        other_field_stays(one, "right"@, r, "op"@, l);
        other_field_stays(one, "right"@, r, "set_quantifier"@, l);
        assert(variant("SetOperation"@, two).payload("SetOperation"@) == Some(two));
    }
}

/// Set-returning functions are unnested in the subqueries of a `FROM` item: in that of its first
/// table
/// and in those of its joins, which stay joined as they were.
pub proof fn unnestings_reach_every_join(twj: Syntax, i: int)
    requires
        twj.at("relation"@).payload("Derived"@) is Some,
        twj.at("relation"@).payload("Derived"@)->0.at("subquery"@) != Syntax::Null,
        twj.at("joins"@) is List,
        0 <= i < twj.at("joins"@).items().len(),
        twj.at("joins"@).items()[i].at("relation"@).payload("Derived"@) is Some,
        twj.at("joins"@).items()[i].at("relation"@).payload("Derived"@)->0.at("subquery"@)
            != Syntax::Null,
    ensures
        ({
            let out = table_unnested(twj);
            let d = twj.at("relation"@).payload("Derived"@)->0;
            let d1 = out.at("relation"@).payload("Derived"@);
            let j = twj.at("joins"@).items()[i];
            let j1 = out.at("joins"@).items()[i];
            let e = j.at("relation"@).payload("Derived"@)->0;
            let e1 = j1.at("relation"@).payload("Derived"@);
            &&& d1 is Some
            &&& d1->0.at("subquery"@) == query_unnested(d.at("subquery"@))
            &&& d1->0.at("alias"@) == d.at("alias"@)
            &&& out.at("joins"@).items().len() == twj.at("joins"@).items().len()
            &&& e1 is Some
            &&& e1->0.at("subquery"@) == query_unnested(e.at("subquery"@))
            &&& e1->0.at("alias"@) == e.at("alias"@)
            &&& j1.at("join_operator"@) == j.at("join_operator"@)
        }),
{
    fields_differ();
    let joins = twj.at("joins"@).items();
    subquery_is_unnested(twj);
    subquery_is_unnested(joins[i]);
    let one = relation_unnested(twj);
    let list = Syntax::List(joins_unnested(joins));
    set_field_is_read(one, "joins"@, list);
    other_field_stays(one, "joins"@, list, "relation"@, list);
    assert(joins_unnested(joins)[i] == relation_unnested(joins[i]));
}

proof fn subquery_is_unnested(node: Syntax)
    requires
        node.at("relation"@).payload("Derived"@) is Some,
        node.at("relation"@).payload("Derived"@)->0.at("subquery"@) != Syntax::Null,
    ensures
        ({
            let d = node.at("relation"@).payload("Derived"@)->0;
            let out = relation_unnested(node);
            let d1 = out.at("relation"@).payload("Derived"@);
            &&& d1 is Some
            &&& d1->0.at("subquery"@) == query_unnested(d.at("subquery"@))
            &&& d1->0.at("alias"@) == d.at("alias"@)
            &&& out.at("joins"@) == node.at("joins"@)
            &&& out.at("join_operator"@) == node.at("join_operator"@)
        }),
{
    fields_differ();
    let d = node.at("relation"@).payload("Derived"@)->0;
    let q = query_unnested(d.at("subquery"@));
    let d1 = d.with("subquery"@, q);
    let tf = variant("Derived"@, d1);
    assert(tf.payload("Derived"@) == Some(d1));
    set_field_is_read(d, "subquery"@, q);
    other_field_stays(d, "subquery"@, q, "alias"@, q);
    set_field_is_read(node, "relation"@, tf);
    other_field_stays(node, "relation"@, tf, "joins"@, tf);
    other_field_stays(node, "relation"@, tf, "join_operator"@, tf);
}

// --- tables of subqueries ----------------------------------------------------------------------

/// Whether a table factor, if it is a plain table, has a name of more than one part and an alias.
pub open spec fn is_named(tf: Syntax) -> bool {
    tf.payload("Table"@) matches Some(t) ==> t.at("alias"@) != Syntax::Null && relation_name(
        t.at("name"@),
    ).items().len() != 1
}

/// Whether a table factor is a node that has a place for a name and for an alias.
pub open spec fn can_be_named(tf: Syntax) -> bool {
    tf.payload("Table"@) matches Some(t) ==> t.at("name"@) is Relation && has_field(t, "alias"@)
}

proof fn factor_is_named(st: NamingView, tf: Syntax)
    requires
        can_be_named(tf),
    ensures
        is_named(named_factor(st, tf).1),
{
    fields_differ();
    if let Some(t) = tf.payload("Table"@) {
        let name = relation_name(t.at("name"@));
        let new = Syntax::Relation(Box::new(in_catalog(name)));
        let placed = t.with("name"@, new);
        set_field_is_read(t, "name"@, new);
        other_field_stays(t, "name"@, new, "alias"@, new);
        lookup_of_other(t->Record_0, "name"@, new, "alias"@);
        let alias = table_alias(subquery_alias(st.count), true);
        lookup_of_replaced(placed->Record_0, "alias"@, alias);
        other_field_stays(placed, "alias"@, alias, "name"@, new);
        assert(variant("Table"@, placed).payload("Table"@) == Some(placed));
        let both = placed.with("alias"@, alias);
        assert(variant("Table"@, both).payload("Table"@) == Some(both));
    }
}

proof fn joins_are_named(st: NamingView, joins: Seq<Syntax>, n: nat, i: int)
    requires
        0 <= i < n <= joins.len(),
        can_be_named(joins[i].at("relation"@)),
        joins[i].at("relation"@) != Syntax::Null,
    ensures
        named_joins(st, joins, n).1.len() == n,
        is_named(named_joins(st, joins, n).1[i].at("relation"@)),
        named_joins(st, joins, n).1[i].at("join_operator"@) == joins[i].at("join_operator"@),
    decreases n,
{
    named_joins_len(st, joins, n);
    named_joins_len(st, joins, (n - 1) as nat);
    let (st1, done) = named_joins(st, joins, (n - 1) as nat);
    if i == n - 1 {
        fields_differ();
        let j = joins[i];
        let tf = named_factor(st1, j.at("relation"@)).1;
        factor_is_named(st1, j.at("relation"@));
        set_field_is_read(j, "relation"@, tf);
        other_field_stays(j, "relation"@, tf, "join_operator"@, tf);
    } else {
        joins_are_named(st, joins, (n - 1) as nat, i);
    }
}

proof fn named_joins_len(st: NamingView, joins: Seq<Syntax>, n: nat)
    ensures
        named_joins(st, joins, n).1.len() == n,
    decreases n,
{
    if n > 0 {
        named_joins_len(st, joins, (n - 1) as nat);
    }
}

proof fn named_from_len(st: NamingView, from: Seq<Syntax>, n: nat)
    ensures
        named_from(st, from, n).1.len() == n,
    decreases n,
{
    if n > 0 {
        named_from_len(st, from, (n - 1) as nat);
    }
}

/// Every table of the `FROM` clause of a subquery gets a schema and an alias, be it the first of
/// its
/// item or joined to it; a table that is joined stays joined as it was.
pub proof fn every_table_of_a_subquery_is_named(
    st: NamingView,
    from: Seq<Syntax>,
    n: nat,
    k: int,
    i: int,
)
    requires
        0 <= k < n <= from.len(),
        from[k].at("relation"@) != Syntax::Null,
        can_be_named(from[k].at("relation"@)),
        from[k].at("joins"@) is List,
        0 <= i < from[k].at("joins"@).items().len() ==> from[k].at("joins"@).items()[i].at(
            "relation"@,
        ) != Syntax::Null && can_be_named(from[k].at("joins"@).items()[i].at("relation"@)),
    ensures
        ({
            let out = named_from(st, from, n).1;
            let joins = from[k].at("joins"@).items();
            let joins1 = out[k].at("joins"@).items();
            &&& out.len() == n
            &&& is_named(out[k].at("relation"@))
            &&& joins1.len() == joins.len()
            &&& 0 <= i < joins.len() ==> is_named(joins1[i].at("relation"@)) && joins1[i].at(
                "join_operator"@,
            ) == joins[i].at("join_operator"@)
        }),
    decreases n,
{
    named_from_len(st, from, n);
    named_from_len(st, from, (n - 1) as nat);
    let (st1, done) = named_from(st, from, (n - 1) as nat);
    if k < n - 1 {
        every_table_of_a_subquery_is_named(st, from, (n - 1) as nat, k, i);
    } else {
        fields_differ();
        let twj = from[k];
        let (st2, tf) = named_factor(st1, twj.at("relation"@));
        factor_is_named(st1, twj.at("relation"@));
        let joins = twj.at("joins"@).items();
        named_joins_len(st2, joins, joins.len());
        if 0 <= i < joins.len() {
            joins_are_named(st2, joins, joins.len(), i);
        }
        let list = Syntax::List(named_joins(st2, joins, joins.len()).1);
        let one = twj.with("relation"@, tf);
        set_field_is_read(twj, "relation"@, tf);
        other_field_stays(twj, "relation"@, tf, "joins"@, tf);
        set_field_is_read(one, "joins"@, list);
        other_field_stays(one, "joins"@, list, "relation"@, tf);
    }
}

/// The tables of a scalar subquery, of `EXISTS` and of `IN` are named; `EXISTS` and `IN` stay
/// negated
/// as they were, and `IN` compares what it compared.
pub proof fn tables_are_named_in_every_subquery(st: ProgressView, e: Syntax)
    ensures
        e.payload("Subquery"@) matches Some(q) ==> tables_named(st, e).1.payload("Subquery"@)
            == Some(named_query(st.count, q).1),
        e.payload("Exists"@) matches Some(x) ==> (x.at("subquery"@) != Syntax::Null ==> (
        tables_named(st, e).1.payload("Exists"@) matches Some(y) && y.at("subquery"@)
            == named_query(st.count, x.at("subquery"@)).1 && y.at("negated"@) == x.at("negated"@))),
        e.payload("InSubquery"@) matches Some(x) ==> (x.at("subquery"@) != Syntax::Null ==> (
        tables_named(st, e).1.payload("InSubquery"@) matches Some(y) && y.at("subquery"@)
            == named_query(st.count, x.at("subquery"@)).1 && y.at("negated"@) == x.at("negated"@)
            && y.at("expr"@) == x.at("expr"@))),
{
    reveal_strlit("Subquery");
    reveal_strlit("Exists");
    reveal_strlit("InSubquery");
    reveal_strlit("subquery");
    reveal_strlit("negated");
    reveal_strlit("expr");
    assert("Subquery"@.len() == 8);
    assert("Exists"@.len() == 6);
    assert("InSubquery"@.len() == 10);
    assert("subquery"@.len() == 8);
    assert("negated"@.len() == 7);
    assert("expr"@.len() == 4);
    assert("Subquery"@[0] == 'S');
    assert("subquery"@[0] == 's');
    if let Some(x) = e.payload("Exists"@) {
        let q = named_query(st.count, x.at("subquery"@)).1;
        set_field_is_read(x, "subquery"@, q);
        other_field_stays(x, "subquery"@, q, "negated"@, q);
        let y = x.with("subquery"@, q);
        assert(variant("Exists"@, y).payload("Exists"@) == Some(y));
    } else if let Some(x) = e.payload("InSubquery"@) {
        let q = named_query(st.count, x.at("subquery"@)).1;
        set_field_is_read(x, "subquery"@, q);
        other_field_stays(x, "subquery"@, q, "negated"@, q);
        other_field_stays(x, "subquery"@, q, "expr"@, q);
        let y = x.with("subquery"@, q);
        assert(variant("InSubquery"@, y).payload("InSubquery"@) == Some(y));
    }
}

// --- lateral joins -----------------------------------------------------------------------------

/// Lateral joins are taken apart in a subquery of a `FROM` clause, on both sides of a set operation
/// and in a query in parentheses.
pub proof fn lateral_joins_are_found_throughout(n: u64, node: Syntax, se: Syntax)
    ensures
        node.at("relation"@).payload("Derived"@) matches Some(d) ==> (d.at("subquery"@)
            != Syntax::Null ==> (relation_decorrelated(n, node).1.at("relation"@).payload(
            "Derived"@,
        ) matches Some(d1) && d1.at("subquery"@) == query_decorrelated(n, d.at("subquery"@)).1
            && d1.at("alias"@) == d.at("alias"@))),
        se.payload("Query"@) matches Some(q) ==> body_decorrelated(n, se).1.payload("Query"@)
            == Some(query_decorrelated(n, q).1),
        se.payload("SetOperation"@) matches Some(op) ==> (op.at("left"@) != Syntax::Null && op.at(
            "right"@,
        ) != Syntax::Null ==> (body_decorrelated(n, se).1.payload("SetOperation"@) matches Some(out)
            && out.at("left"@) == body_decorrelated(n, op.at("left"@)).1 && out.at("right"@)
            == body_decorrelated(body_decorrelated(n, op.at("left"@)).0, op.at("right"@)).1
            && out.at("op"@) == op.at("op"@))),
{
    fields_differ();
    if let Some(d) = node.at("relation"@).payload("Derived"@) {
        if d.at("subquery"@) != Syntax::Null {
            let q = query_decorrelated(n, d.at("subquery"@)).1;
            let d1 = d.with("subquery"@, q);
            let tf = variant("Derived"@, d1);
            assert(tf.payload("Derived"@) == Some(d1));
            set_field_is_read(d, "subquery"@, q);
            other_field_stays(d, "subquery"@, q, "alias"@, q);
            set_field_is_read(node, "relation"@, tf);
        }
    }
    if let Some(op) = se.payload("SetOperation"@) {
        let (n1, l) = body_decorrelated(n, op.at("left"@));
        let r = body_decorrelated(n1, op.at("right"@)).1;
        let one = op.with("left"@, l);
        let two = one.with("right"@, r);
        set_field_is_read(op, "left"@, l);
        other_field_stays(op, "left"@, l, "right"@, l);
        other_field_stays(op, "left"@, l, "op"@, l);
        set_field_is_read(one, "right"@, r);
        other_field_stays(one, "right"@, r, "left"@, l);
        other_field_stays(one, "right"@, r, "op"@, l);
        assert(variant("SetOperation"@, two).payload("SetOperation"@) == Some(two));
    }
}

/// Lateral joins are taken apart in the body of a query, and in that of a `SELECT` in every item of
/// its
/// `FROM` clause.
pub proof fn lateral_joins_are_found_in_bodies(n: u64, q: Syntax, select: Syntax)
    ensures
        q.at("with"@) == Syntax::Null && q.at("body"@) != Syntax::Null ==> query_decorrelated(
            n,
            q,
        ).1.at("body"@) == body_decorrelated(n, q.at("body"@)).1,
        select.at("from"@) is List ==> (body_decorrelated(
            n,
            variant("Select"@, select),
        ).1.payload("Select"@) matches Some(out) && out.at("from"@).items() == from_decorrelated(
            n,
            select.at("from"@).items(),
            select.at("from"@).items().len(),
        ).1),
{
    fields_differ();
    let body = body_decorrelated(n, q.at("body"@)).1;
    set_field_is_read(q, "body"@, body);
    let from = select.at("from"@).items();
    let list = Syntax::List(from_decorrelated(n, from, from.len()).1);
    set_field_is_read(select, "from"@, list);
    let se = variant("Select"@, select);
    assert(se.payload("Select"@) == Some(select));
    let out = select.with("from"@, list);
    assert(variant("Select"@, out).payload("Select"@) == Some(out));
}

} // verus!
