//! What holds of rewritten predicates.
use super::ast::{
    binary, exists_expr, held, item_expr, last_part_text, nested, number_expr, operand,
    operands_held, query_select, unnamed_item, with_select,
};
use super::calls::{pairwise_equal, tuples_compared};
use super::cte::aggregates;
use super::joined::has_field;
use super::laws::{lookup_of_other, lookup_of_replaced, other_field_stays, set_field_is_read};
use super::meaning::{binary_parts, compares, field_is_found, operators_differ, World};
use super::subqueries::{
    boolean_subquery_as_exists, conjoined, count_star, exists_as_count, matched, own_condition,
    select_count, select_one_where, selection_node, tuple_in_as_exists,
};
use super::tree::{expr_node, variant, Syntax};
use crate::text::lowercased;
use vstd::prelude::*;

verus! {

proof fn names_differ()
    ensures
        "projection"@ != "selection"@ && "projection"@ != "from"@ && "selection"@ != "from"@,
        "projection"@ != "distinct"@ && "selection"@ != "distinct"@ && "from"@ != "distinct"@,
        "subquery"@ != "negated"@,
        "Nested"@ != "BinaryOp"@ && "Nested"@ != "Exists"@ && "left"@ != "right"@ && "left"@
            != "op"@ && "right"@ != "op"@,
{
    reveal_strlit("projection");
    reveal_strlit("selection");
    reveal_strlit("from");
    reveal_strlit("distinct");
    reveal_strlit("subquery");
    reveal_strlit("negated");
    reveal_strlit("Nested");
    reveal_strlit("BinaryOp");
    reveal_strlit("Exists");
    reveal_strlit("left");
    reveal_strlit("right");
    reveal_strlit("op");
    assert("projection"@.len() == 10 && "selection"@.len() == 9 && "from"@.len() == 4);
    assert("distinct"@.len() == 8 && "subquery"@.len() == 8 && "negated"@.len() == 7);
    assert("Nested"@.len() == 6 && "BinaryOp"@.len() == 8 && "Exists"@.len() == 6);
    assert("Nested"@[0] == 'N' && "Exists"@[0] == 'E');
    assert("left"@.len() == 4 && "right"@.len() == 5 && "op"@.len() == 2);
}

// --- parentheses ------------------------------------------------------------------------------

/// Parentheses change neither a value nor whether a condition holds.
pub proof fn parentheses_change_nothing(w: World, e: Syntax)
    ensures
        w.value_of(nested(e)) == w.value_of(e),
        w.holds(nested(e)) == w.holds(e),
        w.value_of(operand(e)) == w.value_of(e),
{
    assert(nested(e).payload("Nested"@) == Some(expr_node(e)));
}

/// A comparison whose operands have been held together means what it meant.
pub proof fn held_comparisons_mean_the_same(w: World, e: Syntax)
    requires
        e.payload("BinaryOp"@) matches Some(b) && b.at("left"@) is Expr && b.at("right"@) is Expr
            && (b.at("op"@) matches Syntax::Text(op) && compares(op)),
    ensures
        w.holds(operands_held(e)) == w.holds(e),
{
    names_differ();
    operators_differ();
    let b = e.payload("BinaryOp"@)->0;
    let l = b.at("left"@);
    let r = b.at("right"@);
    parentheses_change_nothing(w, l.inner());
    parentheses_change_nothing(w, r.inner());
    let one = b.with("left"@, held(l));
    let two = one.with("right"@, held(r));
    set_field_is_read(b, "left"@, held(l));
    other_field_stays(b, "left"@, held(l), "right"@, r);
    other_field_stays(b, "left"@, held(l), "op"@, r);
    set_field_is_read(one, "right"@, held(r));
    other_field_stays(one, "right"@, held(r), "left"@, r);
    other_field_stays(one, "right"@, held(r), "op"@, r);
    let out = variant("BinaryOp"@, two);
    assert(operands_held(e) == out);
    assert(out.payload("BinaryOp"@) == Some(two));
    assert(out.payload("Nested"@) is None);
    assert(e.payload("Nested"@) is None);
}

// --- tuples -----------------------------------------------------------------------------------

/// Whether the first `n` elements of two tuples have the same values, one by one.
pub open spec fn all_equal(w: World, l: Seq<Syntax>, r: Seq<Syntax>, n: nat) -> bool {
    forall|i: int|
        0 <= i < n ==> w.value_of((#[trigger] l[i]).inner()) == w.value_of(r[i].inner())
}

proof fn pairs_are_equal(w: World, l: Seq<Syntax>, r: Seq<Syntax>, n: nat)
    requires
        0 < n <= l.len(),
        n <= r.len(),
    ensures
        w.holds(pairwise_equal(l, r, n)) <==> all_equal(w, l, r, n),
    decreases n,
{
    operators_differ();
    let a = l[n - 1].inner();
    let b = r[n - 1].inner();
    let pair = binary(operand(a), Syntax::Text("Eq"@), operand(b));
    binary_parts(operand(a), Syntax::Text("Eq"@), operand(b));
    parentheses_change_nothing(w, a);
    parentheses_change_nothing(w, b);
    assert(w.holds(pair) == (w.value_of(a) == w.value_of(b)));
    if n > 1 {
        pairs_are_equal(w, l, r, (n - 1) as nat);
        let before = pairwise_equal(l, r, (n - 1) as nat);
        binary_parts(before, Syntax::Text("And"@), pair);
        assert(w.holds(pairwise_equal(l, r, n)) == (w.holds(before) && w.holds(pair)));
    }
}

/// `(a, b) = (c, d)` becomes a condition that holds exactly if each element of the one tuple has
/// the value of that of the other.
pub proof fn tuples_are_equal_element_by_element(w: World, e: Syntax)
    requires
        e.payload("BinaryOp"@) matches Some(b) && b.at("op"@) == Syntax::Text("Eq"@) && (b.at(
            "left"@,
        ).inner().payload("Tuple"@) matches Some(l) && (b.at("right"@).inner().payload(
            "Tuple"@,
        ) matches Some(r) && l.items().len() == r.items().len() > 0)),
    ensures
        ({
            let b = e.payload("BinaryOp"@)->0;
            let l = b.at("left"@).inner().payload("Tuple"@)->0.items();
            let r = b.at("right"@).inner().payload("Tuple"@)->0.items();
            w.holds(tuples_compared(e)) <==> all_equal(w, l, r, l.len())
        }),
{
    let b = e.payload("BinaryOp"@)->0;
    let l = b.at("left"@).inner().payload("Tuple"@)->0.items();
    let r = b.at("right"@).inner().payload("Tuple"@)->0.items();
    pairs_are_equal(w, l, r, l.len());
}

/// Whether the first `n` selected expressions have the values of the elements of a tuple.
pub open spec fn all_match(w: World, items: Seq<Syntax>, elems: Seq<Syntax>, n: nat) -> bool {
    forall|i: int|
        0 <= i < n ==> w.value_of(item_expr(#[trigger] items[i])->0) == w.value_of(elems[i].inner())
}

proof fn matches_are_conditions(
    w: World,
    c: Syntax,
    items: Seq<Syntax>,
    elems: Seq<Syntax>,
    n: nat,
)
    requires
        n <= items.len(),
        n <= elems.len(),
    ensures
        matched(c, items, elems, n) == Syntax::Null <==> c == Syntax::Null && n == 0,
        matched(c, items, elems, n) != Syntax::Null ==> (w.holds(matched(c, items, elems, n)) <==> (
        c == Syntax::Null || w.holds(c)) && all_match(w, items, elems, n)),
    decreases n,
{
    operators_differ();
    if n > 0 {
        matches_are_conditions(w, c, items, elems, (n - 1) as nat);
        let before = matched(c, items, elems, (n - 1) as nat);
        let p = item_expr(items[n - 1])->0;
        let a = elems[n - 1].inner();
        let pair = binary(operand(p), Syntax::Text("Eq"@), operand(a));
        binary_parts(operand(p), Syntax::Text("Eq"@), operand(a));
        parentheses_change_nothing(w, p);
        parentheses_change_nothing(w, a);
        assert(w.holds(pair) == (w.value_of(p) == w.value_of(a)));
        if before != Syntax::Null {
            binary_parts(before, Syntax::Text("And"@), pair);
            assert(w.holds(matched(c, items, elems, n)) == (w.holds(before) && w.holds(pair)));
        }
    }
}

proof fn exists_parts(q: Syntax, negated: Syntax)
    ensures
        exists_expr(q, negated).payload("Exists"@) is Some,
        exists_expr(q, negated).payload("Exists"@)->0.at("subquery"@) == q,
        exists_expr(q, negated).payload("Exists"@)->0.at("negated"@) == negated,
{
    names_differ();
    let x = exists_expr(q, negated).payload("Exists"@)->0;
    field_is_found(x->Record_0, 0);
    field_is_found(x->Record_0, 1);
}

proof fn select_is_put(q: Syntax, select: Syntax)
    requires
        query_select(q) is Some,
    ensures
        query_select(with_select(q, select)) == Some(select),
{
    let body = variant("Select"@, select);
    set_field_is_read(q, "body"@, body);
    assert(body.payload("Select"@) == Some(select));
}

/// `(a, b) IN (SELECT p, q ..)` becomes `EXISTS` of the rows of the subquery, from where they
/// were selected, that its condition holds of and whose selected values are those of the tuple,
/// one by one; `NOT IN` becomes `NOT EXISTS`.
pub proof fn tuple_in_looks_for_matching_rows(e: Syntax)
    requires
        tuple_in_as_exists(e) != e,
        e.payload("InSubquery"@) matches Some(x) && (query_select(x.at("subquery"@)) matches Some(
            select,
        ) && has_field(select, "selection"@) && has_field(select, "projection"@)),
    ensures
        ({
            let x = e.payload("InSubquery"@)->0;
            let elems = x.at("expr"@).inner().payload("Tuple"@)->0.items();
            let select = query_select(x.at("subquery"@))->0;
            let items = select.at("projection"@).items();
            let out = tuple_in_as_exists(e).payload("Exists"@);
            let select1 = query_select(out->0.at("subquery"@));
            &&& out is Some
            &&& out->0.at("negated"@) == x.at("negated"@)
            &&& select1 is Some
            &&& select1->0.at("from"@) == select.at("from"@)
            &&& select1->0.at("selection"@) is Expr
            &&& elems.len() == items.len()
            &&& forall|w: World|
                (#[trigger] w.holds(select1->0.at("selection"@).inner())) <==> (select.at(
                    "selection"@,
                ).inner() == Syntax::Null || w.holds(select.at("selection"@).inner())) && all_match(
                    w,
                    items,
                    elems,
                    items.len(),
                )
        }),
{
    names_differ();
    let x = e.payload("InSubquery"@)->0;
    let q = x.at("subquery"@);
    let elems = x.at("expr"@).inner().payload("Tuple"@)->0.items();
    let select = query_select(q)->0;
    let items = select.at("projection"@).items();
    let own = own_condition(select.at("selection"@));
    let c = matched(own, items, elems, items.len());
    let node = selection_node(c);
    let one = Syntax::List(seq![unnamed_item(number_expr("1"@))]);
    let first = select.with("selection"@, node);
    let second = first.with("projection"@, one);
    select_is_put(q, second);
    exists_parts(with_select(q, second), x.at("negated"@));
    lookup_of_replaced(select->Record_0, "selection"@, node);
    assert(first.at("selection"@) == node);
    other_field_stays(first, "projection"@, one, "selection"@, one);
    other_field_stays(select, "selection"@, node, "from"@, one);
    other_field_stays(first, "projection"@, one, "from"@, one);
    let any = World { column: |p| 0, value: |e| 0, truth: |e| true };
    matches_are_conditions(any, own, items, elems, items.len());
    assert forall|w: World|
        (#[trigger] w.holds(second.at("selection"@).inner())) <==> (select.at("selection"@).inner()
            == Syntax::Null || w.holds(select.at("selection"@).inner())) && all_match(
            w,
            items,
            elems,
            items.len(),
        ) by {
        matches_are_conditions(w, own, items, elems, items.len());
        parentheses_change_nothing(w, select.at("selection"@).inner());
    }
}

// --- boolean subqueries -----------------------------------------------------------------------

/// `(SELECT a = b FROM t WHERE c)` becomes `EXISTS`, not negated, of the rows of `t` of which both
/// `c` and `a = b` hold.
pub proof fn boolean_subqueries_look_for_rows(e: Syntax)
    requires
        boolean_subquery_as_exists(e) != e,
        e.payload("Subquery"@) matches Some(q) && (query_select(q) matches Some(select)
            && has_field(select, "selection"@)),
    ensures
        ({
            let q = e.payload("Subquery"@)->0;
            let select = query_select(q)->0;
            let pred = item_expr(select.at("projection"@).items()[0]);
            let out = boolean_subquery_as_exists(e).payload("Exists"@);
            let select1 = query_select(out->0.at("subquery"@));
            &&& out is Some
            &&& out->0.at("negated"@) == Syntax::Bool(false)
            &&& pred is Some
            &&& select1 is Some
            &&& select1->0.at("from"@) == select.at("from"@)
            &&& forall|w: World|
                (#[trigger] w.holds(select1->0.at("selection"@).inner())) <==> (select.at(
                    "selection"@,
                ) == Syntax::Null || w.holds(select.at("selection"@).inner())) && w.holds(pred->0)
        }),
{
    names_differ();
    operators_differ();
    let q = e.payload("Subquery"@)->0;
    let select = query_select(q)->0;
    let pred = item_expr(select.at("projection"@).items()[0])->0;
    let one = Syntax::List(seq![unnamed_item(number_expr("1"@))]);
    let c = conjoined(select.at("selection"@), pred);
    let node = expr_node(c);
    let first = select.with("projection"@, one);
    let second = first.with("selection"@, node);
    assert(second == select_one_where(select, pred));
    select_is_put(q, second);
    exists_parts(with_select(q, second), Syntax::Bool(false));
    lookup_of_other(select->Record_0, "projection"@, one, "selection"@);
    lookup_of_replaced(first->Record_0, "selection"@, node);
    other_field_stays(select, "projection"@, one, "from"@, one);
    other_field_stays(first, "selection"@, node, "from"@, one);
    assert forall|w: World|
        (#[trigger] w.holds(second.at("selection"@).inner())) <==> (select.at("selection"@)
            == Syntax::Null || w.holds(select.at("selection"@).inner())) && w.holds(pred) by {
        let old = select.at("selection"@).inner();
        parentheses_change_nothing(w, old);
        parentheses_change_nothing(w, pred);
        binary_parts(nested(old), Syntax::Text("And"@), nested(pred));
    }
}

// --- EXISTS -----------------------------------------------------------------------------------

/// `EXISTS (SELECT ..)` becomes a comparison of the number of the rows of the same subquery with
/// zero that holds exactly if there are some, and `NOT EXISTS` one that holds exactly if there
/// are none.
pub proof fn exists_compares_the_count(w: World, e: Syntax, count: nat)
    requires
        exists_as_count(e) != e,
        e.payload("Exists"@) matches Some(x) && (query_select(x.at("subquery"@)) matches Some(
            select,
        ) && has_field(select, "projection"@)),
        exists_as_count(e).payload("BinaryOp"@) matches Some(b)
            ==> w.value_of(b.at("left"@).inner())
            == count,
        w.value_of(number_expr("0"@)) == 0,
    ensures
        ({
            let x = e.payload("Exists"@)->0;
            let select = query_select(x.at("subquery"@))->0;
            let b = exists_as_count(e).payload("BinaryOp"@);
            let counted = b->0.at("left"@).inner().payload("Subquery"@);
            let select1 = query_select(counted->0);
            &&& b is Some
            &&& counted is Some
            &&& select1 is Some
            &&& select1->0.at("from"@) == select.at("from"@)
            &&& select1->0.at("selection"@) == select.at("selection"@)
            &&& select1->0.at("projection"@) == Syntax::List(seq![unnamed_item(count_star())])
            &&& x.at("negated"@) == Syntax::Bool(true) ==> (w.holds(exists_as_count(e)) <==> count
                == 0)
            &&& x.at("negated"@) == Syntax::Bool(false) ==> (w.holds(exists_as_count(e)) <==> count
                > 0)
        }),
{
    names_differ();
    operators_differ();
    let x = e.payload("Exists"@)->0;
    let q = x.at("subquery"@);
    let select = query_select(q)->0;
    let items = Syntax::List(seq![unnamed_item(count_star())]);
    let first = select.with("projection"@, items);
    let second = first.with("distinct"@, Syntax::Null);
    assert(second == select_count(select));
    select_is_put(q, second);
    let scalar = variant("Subquery"@, with_select(q, second));
    assert(scalar.payload("Subquery"@) == Some(with_select(q, second)));
    lookup_of_replaced(select->Record_0, "projection"@, items);
    other_field_stays(first, "distinct"@, Syntax::Null, "projection"@, items);
    other_field_stays(select, "projection"@, items, "from"@, items);
    other_field_stays(first, "distinct"@, Syntax::Null, "from"@, items);
    other_field_stays(select, "projection"@, items, "selection"@, items);
    other_field_stays(first, "distinct"@, Syntax::Null, "selection"@, items);
    binary_parts(scalar, Syntax::Text("Eq"@), number_expr("0"@));
    binary_parts(scalar, Syntax::Text("Gt"@), number_expr("0"@));
}

// --- which predicates are rewritten --------------------------------------------------------------

/// Whether a `SELECT` has no `GROUP BY`.
pub open spec fn is_ungrouped(select: Syntax) -> bool {
    select.at("group_by"@).payload("Expressions"@) is Some && select.at("group_by"@).payload(
        "Expressions"@,
    )->0.item(0).items().len() == 0
}

/// Whether an expression compares two values by `=`, `<>`, `<`, `<=`, `>` or `>=`.
pub open spec fn compares_values(e: Syntax) -> bool {
    e.payload("BinaryOp"@) matches Some(b) && (b.at("op"@) matches Syntax::Text(op) && compares(op))
}

/// A subquery becomes an `EXISTS` exactly if it selects one comparison row by row: without
/// `GROUP BY`, `HAVING` or `DISTINCT`, and not of aggregates. Any other expression stays.
pub proof fn only_comparisons_look_for_rows(e: Syntax)
    ensures
        ({
            let q = e.payload("Subquery"@);
            let select = q->0.at("body"@).payload("Select"@);
            let items = select->0.at("projection"@).items();
            let selected = item_expr(items[0]);
            let rewritten = q is Some && select is Some && items.len() == 1 && select->0.at(
                "having"@,
            ) == Syntax::Null && select->0.at("distinct"@) == Syntax::Null && is_ungrouped(
                select->0,
            ) && selected is Some && compares_values(selected->0) && !aggregates(selected->0);
            &&& rewritten ==> boolean_subquery_as_exists(e).payload("Exists"@) is Some
            &&& !rewritten ==> boolean_subquery_as_exists(e) == e
        }),
{
    operators_differ();
}

/// Whether a query may leave none of the rows that it has: it is cut off by anything but a `LIMIT`
/// of a number other than zero.
pub open spec fn is_cut_off(q: Syntax) -> bool {
    let l = q.at("limit_clause"@).payload("LimitOffset"@);
    let digits = l->0.at("limit"@).inner().payload("Value"@)->0.at("value"@).payload("Number"@);
    ||| q.at("fetch"@) != Syntax::Null
    ||| q.at("limit_clause"@) != Syntax::Null && !(l is Some && l->0.at("offset"@) == Syntax::Null
        && l->0.at("limit_by"@).items().len() == 0 && l->0.at("limit"@).inner().payload("Value"@)
        is Some && digits is Some && digits->0.item(0) != Syntax::Text("0"@))
}

/// `EXISTS` of a `SELECT` becomes a count exactly if that has the rows that it selects from:
/// without
/// `GROUP BY` or `HAVING`, not of aggregates, and not cut off. Any other `EXISTS` stays.
pub proof fn only_plain_rows_are_counted(e: Syntax)
    requires
        e.payload("Exists"@) is Some,
    ensures
        ({
            let q = e.payload("Exists"@)->0.at("subquery"@);
            let select = q.at("body"@).payload("Select"@);
            let rewritten = select is Some && select->0.at("having"@) == Syntax::Null
                && is_ungrouped(select->0) && !aggregates(select->0.at("projection"@))
                && !is_cut_off(q);
            &&& rewritten ==> exists_as_count(e).payload("BinaryOp"@) is Some
            &&& !rewritten ==> exists_as_count(e) == e
        }),
{
    let q = e.payload("Exists"@)->0.at("subquery"@);
    let select = q.at("body"@).payload("Select"@);
    if select is Some {
        let scalar = variant("Subquery"@, with_select(q, select_count(select->0)));
        binary_parts(scalar, Syntax::Text("Eq"@), number_expr("0"@));
        binary_parts(scalar, Syntax::Text("Gt"@), number_expr("0"@));
    }
}

/// `IN` of a tuple becomes `EXISTS` exactly if the subquery selects as many expressions as the
/// tuple
/// has elements, more than one, of each of its rows: without grouping, aggregates, `DISTINCT`,
/// `HAVING`, `QUALIFY` or a limit. Any other expression stays.
pub proof fn only_tuples_of_rows_are_matched(e: Syntax)
    ensures
        ({
            let x = e.payload("InSubquery"@);
            let q = x->0.at("subquery"@);
            let tuple = x->0.at("expr"@).inner().payload("Tuple"@);
            let select = q.at("body"@).payload("Select"@);
            let items = select->0.at("projection"@).items();
            let rewritten = x is Some && tuple is Some && select is Some && tuple->0.items().len()
                > 1 && items.len() == tuple->0.items().len() && (forall|i: int|
                0 <= i < items.len() ==> item_expr(#[trigger] items[i]) is Some) && is_ungrouped(
                select->0,
            ) && select->0.at("distinct"@) == Syntax::Null && select->0.at("having"@)
                == Syntax::Null && select->0.at("qualify"@) == Syntax::Null && !aggregates(
                select->0.at("projection"@),
            ) && q.at("limit_clause"@) == Syntax::Null && q.at("fetch"@) == Syntax::Null;
            &&& rewritten ==> tuple_in_as_exists(e).payload("Exists"@) is Some
            &&& !rewritten ==> tuple_in_as_exists(e) == e
        }),
{
}

/// A call of an aggregate function aggregates, wherever it stands in a list of select items, and
/// `count` and its like are such functions however they are written.
pub proof fn aggregate_calls_aggregate(items: Seq<Syntax>, i: int, f: Syntax)
    requires
        0 <= i < items.len(),
        items[i] == unnamed_item(variant("Function"@, f)),
        f.at("over"@) == Syntax::Null,
        last_part_text(f.at("name"@)) is Some,
        ({
            let l = lowercased(last_part_text(f.at("name"@))->0);
            l == "sum"@ || l == "count"@ || l == "avg"@ || l == "min"@ || l == "max"@ || l
                == "array_agg"@ || l == "string_agg"@ || l == "bool_and"@ || l == "bool_or"@
        }),
    ensures
        aggregates(Syntax::List(items)),
{
    names_differ();
    reveal_strlit("Function");
    reveal_strlit("UnnamedExpr");
    reveal_strlit("Subquery");
    assert("Function"@.len() == 8 && "UnnamedExpr"@.len() == 11 && "Subquery"@.len() == 8);
    assert("Function"@[0] == 'F' && "Subquery"@[0] == 'S');
    reveal_strlit("Exists");
    assert("Exists"@.len() == 6);
    let call = variant("Function"@, f);
    assert(call.payload("Function"@) == Some(f));
    assert(call.payload("Subquery"@) is None && call.payload("Exists"@) is None);
    assert(aggregates(call));
    assert(aggregates(expr_node(call)));
    let item = unnamed_item(call);
    assert(item->Record_0[0].1 == expr_node(call));
    assert(item.payload("Subquery"@) is None && item.payload("Exists"@) is None);
    assert(aggregates(item));
    let list = Syntax::List(items);
    assert(list->List_0[i] == item);
    assert(exists|k: int| 0 <= k < list->List_0.len() && aggregates(#[trigger] list->List_0[k]));
}

} // verus!
