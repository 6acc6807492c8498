//! What holds of lateral joins that have been taken apart.
use super::ast::{
    aliased_item, binary, holds_together, ident, is_body_alone, is_plain_select, item_expr, nested,
    operand,
};
use super::casting::alike;
use super::joined::has_field;
use super::lateral::{
    column_fits, columns_fit, decorrelated, from_decorrelated, grouped_select, has_aggregate,
    is_aggregate_name, join_kind, joins_decorrelated, lateral_shape, relation_decorrelated,
    selects_aggregates, table_decorrelated, table_qualifier, with_condition,
};
use super::laws::{lookup_of_other, lookup_of_replaced, other_field_stays, set_field_is_read};
use super::meaning::{binary_parts, operators_differ, World};
use super::tree::{expr_node, variant, Syntax};
use crate::text::{case_is_ignored, lowercased, numbered};
use vstd::prelude::*;

verus! {

proof fn names_differ()
    ensures
        "Left"@ != "LeftOuter"@,
        "relation"@ != "join_operator"@ && "joins"@ != "relation"@,
        "lateral"@ != "subquery"@ && "lateral"@ != "alias"@ && "subquery"@ != "alias"@,
        "projection"@ != "group_by"@ && "projection"@ != "selection"@ && "group_by"@
            != "selection"@,
        "from"@ != "projection"@ && "from"@ != "group_by"@ && "from"@ != "selection"@,
        "Nested"@ != "CompoundIdentifier"@ && "Nested"@ != "BinaryOp"@,
{
    reveal_strlit("Left");
    reveal_strlit("LeftOuter");
    reveal_strlit("relation");
    reveal_strlit("join_operator");
    reveal_strlit("joins");
    reveal_strlit("lateral");
    reveal_strlit("subquery");
    reveal_strlit("alias");
    reveal_strlit("projection");
    reveal_strlit("group_by");
    reveal_strlit("selection");
    reveal_strlit("from");
    reveal_strlit("Nested");
    reveal_strlit("CompoundIdentifier");
    reveal_strlit("BinaryOp");
    assert("Left"@.len() == 4 && "LeftOuter"@.len() == 9);
    assert("relation"@.len() == 8 && "join_operator"@.len() == 13 && "joins"@.len() == 5);
    assert("lateral"@.len() == 7 && "subquery"@.len() == 8 && "alias"@.len() == 5);
    assert("projection"@.len() == 10 && "group_by"@.len() == 8 && "selection"@.len() == 9);
    assert("from"@.len() == 4);
    assert("Nested"@.len() == 6 && "CompoundIdentifier"@.len() == 18 && "BinaryOp"@.len() == 8);
}

/// Whether two join operators are of one kind: the same variant, whichever that is.
pub open spec fn same_kind(a: Syntax, b: Syntax) -> bool {
    forall|tag: Seq<char>| #[trigger] a.payload(tag) is Some <==> b.payload(tag) is Some
}

/// A join keeps its kind when it is taken apart: a left join is still the left join that it was,
/// and no row of the outer query is lost. Only its condition is another.
pub proof fn joins_keep_their_kind(n: u64, join: Syntax)
    ensures
        same_kind(join.at("join_operator"@), decorrelated(n, join).1.at("join_operator"@)),
        decorrelated(n, join).1 != join ==> join.at("join_operator"@).payload("Left"@) is Some
            || join.at("join_operator"@).payload("LeftOuter"@) is Some,
{
    names_differ();
    if let Some(shape) = lateral_shape(join) {
        let out = decorrelated(n, join).1;
        let op = join.at("join_operator"@);
        let made = out.at("join_operator"@);
        let relation = choose|r: Syntax, c: Syntax|
            out == (#[trigger] join.with("relation"@, r)).with(
                "join_operator"@,
                #[trigger] with_condition(op, c),
            );
        let one = join.with("relation"@, relation.0);
        let cond = with_condition(op, relation.1);
        other_field_stays(join, "relation"@, relation.0, "join_operator"@, cond);
        set_field_is_read(one, "join_operator"@, cond);
        assert(made == cond);
        let kind = join_kind(op)->0;
        assert(op.payload(kind) is Some);
        assert forall|tag: Seq<char>| #[trigger] op.payload(tag) is Some <==> made.payload(
            tag,
        ) is Some by {
            assert(made.payload(tag) is Some <==> tag == kind);
        }
    }
}

/// A lateral join is taken apart only if it is `LEFT JOIN LATERAL (SELECT .. FROM t WHERE key =
/// outer) name ON true`, with nothing else in the subquery: no `GROUP BY`, `HAVING` or `DISTINCT`,
/// no `WITH`, `ORDER BY` or `LIMIT`, one table, and no column names behind the alias.
pub proof fn only_plain_aggregates_are_taken_apart(n: u64, join: Syntax)
    requires
        decorrelated(n, join).1 != join,
    ensures
        ({
            let d = join.at("relation"@).payload("Derived"@);
            let q = d->0.at("subquery"@);
            let select = q.at("body"@).payload("Select"@);
            &&& d is Some
            &&& select is Some
            &&& d->0.at("lateral"@) == Syntax::Bool(true)
            &&& d->0.at("alias"@).at("columns"@).items().len() == 0
            &&& q.at("with"@) == Syntax::Null
            &&& q.at("order_by"@) == Syntax::Null
            &&& q.at("limit_clause"@) == Syntax::Null
            &&& q.at("fetch"@) == Syntax::Null
            &&& select->0.at("distinct"@) == Syntax::Null
            &&& select->0.at("having"@) == Syntax::Null
            &&& select->0.at("qualify"@) == Syntax::Null
            &&& select->0.at("from"@).items().len() == 1
            &&& select->0.at("from"@).items()[0].at("joins"@).items().len() == 0
            &&& select->0.at("projection"@).items().len() > 0
            &&& select->0.at("selection"@).inner().payload("BinaryOp"@) matches Some(b) && b.at(
                "op"@,
            ) == Syntax::Text("Eq"@)
        }),
{
}

/// The functions whose value is NULL where there are no rows are `sum`, `avg`, `min`, `max` and
/// `array_agg`, in any case; `count` is not one of them.
pub proof fn count_is_no_null_aggregate(name: Seq<char>)
    ensures
        is_aggregate_name(name) <==> lowercased(name) == "sum"@ || lowercased(name) == "avg"@
            || lowercased(name) == "min"@ || lowercased(name) == "max"@ || lowercased(name)
            == "array_agg"@,
        lowercased(name) == "count"@ ==> !is_aggregate_name(name),
{
    reveal_strlit("count");
    reveal_strlit("sum");
    reveal_strlit("avg");
    reveal_strlit("min");
    reveal_strlit("max");
    reveal_strlit("array_agg");
    assert("count"@.len() == 5 && "sum"@.len() == 3 && "avg"@.len() == 3);
    assert("min"@.len() == 3 && "max"@.len() == 3 && "array_agg"@.len() == 9);
}

/// A lateral join that is taken apart joins with the groups of its table by their key: the
/// subquery is no longer lateral, selects the key under a name of its own before what it selected,
/// from what it selected it, without its condition, and groups by nothing but the key. The
/// condition of the join holds of a group exactly if the condition of the subquery holds of the
/// key of the group.
pub proof fn groups_are_joined_by_their_key(n: u64, join: Syntax)
    requires
        decorrelated(n, join).1 != join,
        has_field(
            join.at("relation"@).payload("Derived"@)->0.at("subquery"@).at("body"@).payload(
                "Select"@,
            )->0,
            "group_by"@,
        ),
    ensures
        ({
            let d = join.at("relation"@).payload("Derived"@)->0;
            let select = d.at("subquery"@).at("body"@).payload("Select"@)->0;
            let b = select.at("selection"@).inner().payload("BinaryOp"@)->0;
            let out = decorrelated(n, join).1;
            let d1 = out.at("relation"@).payload("Derived"@)->0;
            let select1 = d1.at("subquery"@).at("body"@).payload("Select"@)->0;
            let alias = numbered("__decorr_key_"@, n as nat);
            let key = select1.at("group_by"@).payload("Expressions"@)->0.item(0).item(0).inner();
            let op = out.at("join_operator"@);
            let on = if op.payload("Left"@) is Some {
                op.payload("Left"@)->0.payload("On"@)
            } else {
                op.payload("LeftOuter"@)->0.payload("On"@)
            };
            &&& d1.at("lateral"@) == Syntax::Bool(false)
            &&& d1.at("alias"@) == d.at("alias"@)
            &&& select1.at("from"@) == select.at("from"@)
            &&& select1.at("selection"@) == Syntax::Null
            &&& select1.at("projection"@).items().len() == select.at("projection"@).items().len()
                + 1
            &&& forall|i: int|
                0 <= i < select.at("projection"@).items().len() ==> select1.at(
                    "projection"@,
                ).items()[i + 1] == #[trigger] select.at("projection"@).items()[i]
            &&& select1.at("projection"@).items()[0] == aliased_item(key, alias)
            &&& select1.at("group_by"@).payload("Expressions"@)->0.item(0).items().len() == 1
            &&& key == b.at("left"@).inner() || key == b.at("right"@).inner()
            &&& on is Some
            &&& forall|w: World|
                w.column_value(seq![d.at("alias"@).at("name"@), ident(alias)]) == w.value_of(key)
                    ==> (#[trigger] w.holds(on->0.inner()) <==> w.holds(
                    select.at("selection"@).inner(),
                ))
        }),
{
    names_differ();
    operators_differ();
    let shape = lateral_shape(join)->0;
    let d = join.at("relation"@).payload("Derived"@)->0;
    let q = d.at("subquery"@);
    let select = q.at("body"@).payload("Select"@)->0;
    let selection = select.at("selection"@).inner();
    let b = selection.payload("BinaryOp"@)->0;
    let alias = numbered("__decorr_key_"@, n as nat);
    let grouped = grouped_select(select, shape.key, alias);
    let body = variant("Select"@, grouped);
    let q1 = q.with("body"@, body);
    set_field_is_read(q, "body"@, body);
    assert(body.payload("Select"@) == Some(grouped));
    let made = variant(
        "Derived"@,
        d.with("lateral"@, Syntax::Bool(false)).with("subquery"@, q1),
    );
    let d0 = d.with("lateral"@, Syntax::Bool(false));
    let d1 = d0.with("subquery"@, q1);
    set_field_is_read(d, "lateral"@, Syntax::Bool(false));
    other_field_stays(d, "lateral"@, Syntax::Bool(false), "subquery"@, q1);
    other_field_stays(d, "lateral"@, Syntax::Bool(false), "alias"@, q1);
    set_field_is_read(d0, "subquery"@, q1);
    other_field_stays(d0, "subquery"@, q1, "lateral"@, q1);
    other_field_stays(d0, "subquery"@, q1, "alias"@, q1);
    assert(made.payload("Derived"@) == Some(d1));
    let name = shape.name;
    let column = variant("CompoundIdentifier"@, Syntax::List(seq![name, ident(alias)]));
    let condition = binary(column, Syntax::Text("Eq"@), operand(shape.outer));
    let op = join.at("join_operator"@);
    let cond = with_condition(op, condition);
    let one = join.with("relation"@, made);
    set_field_is_read(join, "relation"@, made);
    other_field_stays(join, "relation"@, made, "join_operator"@, cond);
    set_field_is_read(one, "join_operator"@, cond);
    other_field_stays(one, "join_operator"@, cond, "relation"@, cond);
    grouped_parts(select, shape.key, alias);
    let on = expr_node(condition);
    let kind = join_kind(op)->0;
    let tail = variant("On"@, on);
    assert(cond == variant(kind, tail));
    assert(cond.payload(kind) == Some(tail));
    assert(tail.payload("On"@) == Some(on));
    binary_parts(column, Syntax::Text("Eq"@), operand(shape.outer));
    assert(selection.payload("Nested"@) is None);
    assert forall|w: World|
        w.column_value(seq![name, ident(alias)]) == w.value_of(shape.key) implies (
    #[trigger] w.holds(condition) <==> w.holds(selection)) by {
        operand_has_the_value(w, shape.outer);
        assert(column.payload("Nested"@) is None);
        assert(column.payload("CompoundIdentifier"@) == Some(
            Syntax::List(seq![name, ident(alias)]),
        ));
        assert(w.value_of(column) == w.column_value(seq![name, ident(alias)]));
    }
}

proof fn operand_has_the_value(w: World, e: Syntax)
    ensures
        w.value_of(operand(e)) == w.value_of(e),
{
    if !holds_together(e) {
        assert(nested(e).payload("Nested"@) == Some(expr_node(e)));
    }
}

proof fn grouped_parts(select: Syntax, key: Syntax, alias: Seq<char>)
    requires
        select.at("projection"@) is List,
        select.at("selection"@) != Syntax::Null,
        has_field(select, "group_by"@),
    ensures
        ({
            let out = grouped_select(select, key, alias);
            let g = out.at("group_by"@).payload("Expressions"@);
            &&& out.at("from"@) == select.at("from"@)
            &&& out.at("selection"@) == Syntax::Null
            &&& out.at("projection"@) == Syntax::List(
                seq![aliased_item(key, alias)] + select.at("projection"@).items(),
            )
            &&& g is Some
            &&& g->0.item(0).items().len() == 1
            &&& g->0.item(0).item(0) == expr_node(key)
        }),
{
    names_differ();
    let items = Syntax::List(seq![aliased_item(key, alias)] + select.at("projection"@).items());
    let lists = Syntax::List(
        seq![Syntax::List(seq![expr_node(key)]), Syntax::List(Seq::empty())],
    );
    let g = variant("Expressions"@, lists);
    let one = select.with("projection"@, items);
    let two = one.with("group_by"@, g);
    let null = Syntax::Null;
    set_field_is_read(select, "projection"@, items);
    other_field_stays(select, "projection"@, items, "from"@, null);
    other_field_stays(select, "projection"@, items, "selection"@, null);
    other_field_stays(one, "group_by"@, g, "from"@, null);
    other_field_stays(one, "group_by"@, g, "projection"@, null);
    other_field_stays(one, "group_by"@, g, "selection"@, null);
    let fields = select->Record_0;
    lookup_of_other(fields, "projection"@, items, "group_by"@);
    lookup_of_replaced(one->Record_0, "group_by"@, g);
    assert(two.at("group_by"@) == g);
    set_field_is_read(two, "selection"@, null);
    other_field_stays(two, "selection"@, null, "from"@, null);
    other_field_stays(two, "selection"@, null, "projection"@, null);
    other_field_stays(two, "selection"@, null, "group_by"@, null);
    assert(g.payload("Expressions"@) == Some(lists));
    assert(lists.items()[0] == Syntax::List(seq![expr_node(key)]));
    assert(lists.item(0).items()[0] == expr_node(key));
}

// --- every join of a query --------------------------------------------------------------------

proof fn walk_keeps_operator(n: u64, node: Syntax)
    ensures
        relation_decorrelated(n, node).1.at("join_operator"@) == node.at("join_operator"@),
        relation_decorrelated(n, node).1.at("joins"@) == node.at("joins"@),
{
    names_differ();
    let out = relation_decorrelated(n, node).1;
    if out != node {
        let d = node.at("relation"@).payload("Derived"@)->0;
        let r = choose|r: Syntax| out == #[trigger] node.with("relation"@, r);
        other_field_stays(node, "relation"@, r, "join_operator"@, r);
        other_field_stays(node, "relation"@, r, "joins"@, r);
    }
}

/// However deep lateral joins are taken apart, every join of a list stays in its place and keeps
/// its kind.
pub proof fn every_join_keeps_its_kind(n: u64, s: Seq<Syntax>, k: nat)
    requires
        k <= s.len(),
    ensures
        joins_decorrelated(n, s, k).1.len() == k,
        forall|i: int|
            0 <= i < k ==> same_kind(
                s[i].at("join_operator"@),
                (#[trigger] joins_decorrelated(n, s, k).1[i]).at("join_operator"@),
            ),
    decreases k,
{
    if k > 0 {
        every_join_keeps_its_kind(n, s, (k - 1) as nat);
        let n1 = joins_decorrelated(n, s, (k - 1) as nat).0;
        let (n2, node) = relation_decorrelated(n1, s[k - 1]);
        walk_keeps_operator(n1, s[k - 1]);
        joins_keep_their_kind(n2, node);
    }
}

/// A table of a `FROM` clause has as many joins as it had, each of the kind that it was.
pub proof fn tables_keep_their_joins(n: u64, twj: Syntax, i: int)
    requires
        twj.at("joins"@) is List,
        0 <= i < twj.at("joins"@).items().len(),
    ensures
        table_decorrelated(n, twj).1.at("joins"@).items().len() == twj.at("joins"@).items().len(),
        same_kind(
            twj.at("joins"@).items()[i].at("join_operator"@),
            table_decorrelated(n, twj).1.at("joins"@).items()[i].at("join_operator"@),
        ),
{
    let (n1, first) = relation_decorrelated(n, twj);
    let joins = twj.at("joins"@).items();
    walk_keeps_operator(n, twj);
    every_join_keeps_its_kind(n1, joins, joins.len());
    set_field_is_read(
        first,
        "joins"@,
        Syntax::List(joins_decorrelated(n1, joins, joins.len()).1),
    );
}

/// A `FROM` clause keeps its tables, in order.
pub proof fn from_keeps_its_tables(n: u64, s: Seq<Syntax>, k: nat)
    requires
        k <= s.len(),
    ensures
        from_decorrelated(n, s, k).1.len() == k,
    decreases k,
{
    if k > 0 {
        from_keeps_its_tables(n, s, (k - 1) as nat);
    }
}

/// A left join of a lateral aggregate is taken apart, be it written `LEFT JOIN` or
/// `LEFT OUTER JOIN`: one of a plain table under an alias, whose column is compared with one of
/// another table, and which selects aggregates of its own columns.
pub proof fn lateral_aggregates_are_taken_apart(
    n: u64,
    join: Syntax,
    own: Seq<char>,
    other: Seq<char>,
    condition: Syntax,
)
    requires
        ({
            let d = join.at("relation"@).payload("Derived"@)->0;
            let q = d.at("subquery"@);
            let select = q.at("body"@).payload("Select"@)->0;
            let table = select.at("from"@).item(0).at("relation"@).payload("Table"@)->0;
            let on = variant("On"@, expr_node(condition));
            let b = select.at("selection"@).inner().payload("BinaryOp"@)->0;
            let l = b.at("left"@).inner().payload("CompoundIdentifier"@)->0.items();
            let r = b.at("right"@).inner().payload("CompoundIdentifier"@)->0.items();
            &&& join.at("relation"@).payload("Derived"@) is Some
            &&& join.at("join_operator"@) == variant("Left"@, on) || join.at("join_operator"@)
                == variant("LeftOuter"@, on)
            &&& condition.payload("Value"@) is Some
            &&& condition.payload("Value"@)->0.at("value"@).payload("Boolean"@) == Some(
                Syntax::Bool(true),
            )
            &&& d.at("lateral"@) == Syntax::Bool(true)
            &&& d.at("alias"@) != Syntax::Null
            &&& d.at("alias"@).at("name"@).at("value"@) is Text
            &&& d.at("alias"@).at("columns"@).items().len() == 0
            &&& q.at("body"@).payload("Select"@) is Some
            &&& is_body_alone(q)
            &&& is_plain_select(select)
            &&& select.at("from"@).items().len() == 1
            &&& select.at("from"@).item(0).at("joins"@).items().len() == 0
            &&& select.at("from"@).item(0).at("relation"@).payload("Table"@) is Some
            &&& table.at("args"@) == Syntax::Null
            &&& table.at("alias"@) != Syntax::Null
            &&& table.at("alias"@).at("name"@).at("value"@) == Syntax::Text(own)
            &&& select.at("selection"@).inner().payload("BinaryOp"@) is Some
            &&& b.at("op"@) == Syntax::Text("Eq"@)
            &&& b.at("left"@).inner().payload("CompoundIdentifier"@) is Some
            &&& l.len() == 2
            &&& l[0].at("value"@) == Syntax::Text(own)
            &&& b.at("right"@) is Expr
            &&& b.at("right"@).inner() == variant("CompoundIdentifier"@, Syntax::List(r))
            &&& r.len() == 2
            &&& r[0].at("value"@) == Syntax::Text(other)
            &&& !alike(other, own)
            &&& columns_fit(Syntax::List(r), own, false)
            &&& selects_aggregates(select.at("projection"@).items())
            &&& columns_fit(select.at("projection"@), own, true)
        }),
    ensures
        ({
            let d = decorrelated(n, join).1.at("relation"@).payload("Derived"@);
            d is Some && d->0.at("lateral"@) == Syntax::Bool(false)
        }),
{
    names_differ();
    reveal_strlit("Identifier");
    reveal_strlit("CompoundIdentifier");
    assert("Identifier"@.len() == 10);
    assert("CompoundIdentifier"@.len() == 18);
    let d = join.at("relation"@).payload("Derived"@)->0;
    let q = d.at("subquery"@);
    let select = q.at("body"@).payload("Select"@)->0;
    let b = select.at("selection"@).inner().payload("BinaryOp"@)->0;
    let op = join.at("join_operator"@);
    assert(variant("On"@, expr_node(condition)).payload("On"@) == Some(expr_node(condition)));
    let r = b.at("right"@).inner().payload("CompoundIdentifier"@)->0;
    case_is_ignored(other, own);
    let right = b.at("right"@).inner();
    assert(r.item(r.items().len() - 2) == r.items()[0]);
    assert(columns_fit(b.at("right"@), own, false)) by {
        reveal_with_fuel(columns_fit, 3);
        assert(right.payload("Identifier"@) is None);
        assert(column_fits(right, own, false));
        assert(columns_fit(right, own, false)) by {
            assert forall|i: int| 0 <= i < right->Record_0.len() implies columns_fit(
                (#[trigger] right->Record_0[i]).1,
                own,
                false,
            ) by {
                assert(right->Record_0[i].1 == Syntax::List(r.items()));
            }
        }
    }
    assert(lateral_shape(join) is Some);
    let shape = lateral_shape(join)->0;
    let alias = numbered("__decorr_key_"@, n as nat);
    let grouped = q.with("body"@, variant("Select"@, grouped_select(select, shape.key, alias)));
    let d1 = d.with("lateral"@, Syntax::Bool(false));
    let d2 = d1.with("subquery"@, grouped);
    set_field_is_read(d, "lateral"@, Syntax::Bool(false));
    other_field_stays(d1, "subquery"@, grouped, "lateral"@, d);
    let factor = variant("Derived"@, d2);
    assert(factor.payload("Derived"@) == Some(d2));
    let join1 = join.with("relation"@, factor);
    set_field_is_read(join, "relation"@, factor);
    let on1 = decorrelated(n, join).1.at("join_operator"@);
    let condition1 = binary(
        variant("CompoundIdentifier"@, Syntax::List(seq![shape.name, ident(alias)])),
        Syntax::Text("Eq"@),
        operand(shape.outer),
    );
    other_field_stays(
        join1,
        "join_operator"@,
        with_condition(join.at("join_operator"@), condition1),
        "relation"@,
        d,
    );
}

/// What is joined by is a column of the table, and what it is compared with has none of its
/// columns.
pub proof fn keys_are_columns_of_the_table(n: u64, join: Syntax)
    requires
        decorrelated(n, join).1 != join,
    ensures
        ({
            let d = join.at("relation"@).payload("Derived"@)->0;
            let select = d.at("subquery"@).at("body"@).payload("Select"@)->0;
            let table = table_qualifier(select.at("from"@).item(0).at("relation"@));
            let b = select.at("selection"@).inner().payload("BinaryOp"@)->0;
            let of_table = |e: Syntax|
                e.payload("CompoundIdentifier"@) matches Some(p) && p.items().len() == 2
                    && p.items()[0].at("value"@) == Syntax::Text(table->0);
            &&& table is Some
            &&& of_table(b.at("left"@).inner()) && columns_fit(b.at("right"@), table->0, false)
                || of_table(b.at("right"@).inner()) && columns_fit(b.at("left"@), table->0, false)
            &&& forall|i: int|
                0 <= i < select.at("projection"@).items().len() ==> item_expr(
                    #[trigger] select.at("projection"@).items()[i],
                ) is Some && has_aggregate(item_expr(select.at("projection"@).items()[i])->0)
        }),
{
    assert(lateral_shape(join) is Some);
}

/// An aggregate that is NULL without rows stays so in parentheses, under a cast, and as an operand
/// of
/// a calculation; it does not under any other operator.
pub proof fn calculations_keep_null(e: Syntax)
    ensures
        e.payload("BinaryOp"@) matches Some(b) ==> (has_aggregate(e)
            ==> b.at("op"@) == Syntax::Text(
            "Plus"@,
        ) || b.at("op"@) == Syntax::Text("Minus"@) || b.at("op"@) == Syntax::Text("Multiply"@)
            || b.at("op"@) == Syntax::Text("Divide"@) || b.at("op"@) == Syntax::Text("Modulo"@)
            || b.at("op"@) == Syntax::Text("StringConcat"@)),
        e.payload("Case"@) is Some ==> !has_aggregate(e),
        e.payload("Function"@) matches Some(f) ==> (has_aggregate(e) ==> f.at("over"@)
            == Syntax::Null),
{
    reveal_strlit("BinaryOp");
    reveal_strlit("Case");
    reveal_strlit("Function");
    reveal_strlit("Cast");
    reveal_strlit("Nested");
    reveal_strlit("UnaryOp");
    assert("BinaryOp"@.len() == 8);
    assert("Case"@.len() == 4);
    assert("Function"@.len() == 8);
    assert("Cast"@.len() == 4);
    assert("Nested"@.len() == 6);
    assert("UnaryOp"@.len() == 7);
    assert("BinaryOp"@[0] == 'B');
    assert("Function"@[0] == 'F');
    assert("Case"@[3] == 'e');
    assert("Cast"@[3] == 't');
}

} // verus!
