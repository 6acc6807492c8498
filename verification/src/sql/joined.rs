//! What holds of scalar subqueries that have become joined common table expressions.
use super::ast::{ident, item_expr, name_part, query_select, value_expr};
use super::cte::{
    and_sides, column_at, conjunction, conjuncts, corr_preds, correlated, cte, cte_name, flipped,
    grouped_by, is_lifted, is_outer_only, is_pred, join_conditions, joined_from, joined_on,
    left_join, lifted_clauses, lifted_items, lifted_query, lifted_subquery, local_conjuncts,
    outer_alias, outer_conjuncts, path_of, plain_table, same_ident, same_path, scalar_item, scalars,
    sides_are_smaller, value_item, with_col, with_cte, with_keys, CorrView, ScalarView,
};
use super::laws::{
    lifted_item, lookup_of_other, lookup_of_replaced, other_field_stays, scalars_are_in_order,
    set_field_is_read,
};
use super::meaning::{
    binary_parts, compared, compares, conjunction_holds, conjuncts_hold_together, field_is_found,
    operators_differ, spelling, World,
};
use super::tree::{expr_node, lookup, variant, Syntax};
use crate::text::numbered;
use vstd::prelude::*;

verus! {

// --- comparisons ------------------------------------------------------------------------------

proof fn tags_differ()
    ensures
        "BinaryOp"@ != "Nested"@,
        "CompoundIdentifier"@ != "Nested"@,
        "BinaryOp"@ != "CompoundIdentifier"@,
        "Value"@ != "Nested"@ && "Value"@ != "BinaryOp"@,
{
    reveal_strlit("BinaryOp");
    reveal_strlit("Nested");
    reveal_strlit("CompoundIdentifier");
    reveal_strlit("Value");
    assert("BinaryOp"@.len() == 8);
    assert("Nested"@.len() == 6);
    assert("CompoundIdentifier"@.len() == 18);
    assert("Value"@.len() == 5);
}

proof fn same_paths_spell_the_same(p: Seq<Syntax>, q: Seq<Syntax>)
    requires
        same_path(p, q),
    ensures
        spelling(p) == spelling(q),
{
    assert forall|i: int| 0 <= i < p.len() implies spelling(p)[i] == spelling(q)[i] by {
        assert(same_ident(p[i], q[i]));
    }
    assert(spelling(p) =~= spelling(q));
}

/// A correlated comparison holds exactly if its outer column compares with its inner column as
/// its operator says, whichever side they stand on.
proof fn comparison_holds(w: World, e: Syntax, p: CorrView)
    requires
        is_pred(e, p),
        compares(p.op),
        p.outer.len() > 0,
        p.inner.len() > 0,
    ensures
        w.holds(e) == compared(p.op, w.column_value(p.outer), w.column_value(p.inner)),
{
    tags_differ();
    operators_differ();
    let b = e.payload("BinaryOp"@)->0;
    let l = path_of(b.at("left"@).inner());
    let r = path_of(b.at("right"@).inner());
    assert(e.payload("Nested"@) is None);
    if b.at("op"@).is_text(p.op) && same_path(l, p.outer) && same_path(r, p.inner) {
        same_paths_spell_the_same(l, p.outer);
        same_paths_spell_the_same(r, p.inner);
        assert(w.value_of(b.at("left"@).inner()) == w.column_value(l));
        assert(w.value_of(b.at("right"@).inner()) == w.column_value(r));
    } else {
        same_paths_spell_the_same(r, p.outer);
        same_paths_spell_the_same(l, p.inner);
        assert(w.value_of(b.at("left"@).inner()) == w.column_value(l));
        assert(w.value_of(b.at("right"@).inner()) == w.column_value(r));
        assert(compares(flipped(p.op)));
    }
}

proof fn correlated_is_pred(e: Syntax, outer: Syntax)
    requires
        correlated(e, outer) is Some,
    ensures
        is_pred(e, correlated(e, outer)->0),
        compares(correlated(e, outer)->0.op),
        correlated(e, outer)->0.outer.len() > 0,
        correlated(e, outer)->0.inner.len() > 0,
        same_ident(correlated(e, outer)->0.outer[0], outer),
        !same_ident(correlated(e, outer)->0.inner[0], outer),
{
    operators_differ();
    let p = correlated(e, outer)->0;
    let b = e.payload("BinaryOp"@)->0;
    let l = path_of(b.at("left"@).inner());
    let r = path_of(b.at("right"@).inner());
    assert(same_path(l, l));
    assert(same_path(r, r));
    let op = b.at("op"@)->Text_0;
    assert(flipped(flipped(op)) == op);
}

proof fn preds_are_conjuncts(e: Syntax, outer: Syntax)
    ensures
        forall|k: int|
            0 <= k < corr_preds(e, outer).len() ==> exists|i: int|
                0 <= i < conjuncts(e).len() && correlated(#[trigger] conjuncts(e)[i], outer)
                    == Some(
                    #[trigger] corr_preds(e, outer)[k],
                ),
        forall|i: int|
            0 <= i < conjuncts(e).len() && correlated(#[trigger] conjuncts(e)[i], outer) is Some
                ==> corr_preds(e, outer).contains(correlated(conjuncts(e)[i], outer)->0),
    decreases e,
{
    sides_are_smaller(e);
    let s = conjuncts(e);
    let preds = corr_preds(e, outer);
    match and_sides(e) {
        Some((l, r)) => {
            preds_are_conjuncts(l, outer);
            preds_are_conjuncts(r, outer);
            let a = conjuncts(l);
            let b = conjuncts(r);
            let pa = corr_preds(l, outer);
            let pb = corr_preds(r, outer);
            assert(s == a + b);
            assert(preds == pa + pb);
            assert forall|k: int| 0 <= k < preds.len() implies exists|i: int|
                0 <= i < s.len() && correlated(#[trigger] s[i], outer) == Some(
                    #[trigger] preds[k],
                ) by {
                if k < pa.len() {
                    assert(preds[k] == pa[k]);
                    let i = choose|i: int|
                        0 <= i < a.len() && correlated(#[trigger] a[i], outer) == Some(pa[k]);
                    assert(s[i] == a[i]);
                } else {
                    assert(preds[k] == pb[k - pa.len()]);
                    let i = choose|i: int|
                        0 <= i < b.len() && correlated(#[trigger] b[i], outer) == Some(
                            pb[k - pa.len()],
                        );
                    assert(s[a.len() + i] == b[i]);
                }
            }
            assert forall|i: int|
                0 <= i < s.len() && correlated(#[trigger] s[i], outer) is Some implies
                preds.contains(correlated(s[i], outer)->0) by {
                let p = correlated(s[i], outer)->0;
                if i < a.len() {
                    assert(s[i] == a[i]);
                    let k = choose|k: int| 0 <= k < pa.len() && pa[k] == p;
                    assert(preds[k] == p);
                } else {
                    assert(s[i] == b[i - a.len()]);
                    let k = choose|k: int| 0 <= k < pb.len() && pb[k] == p;
                    assert(preds[pa.len() + k] == p);
                }
            }
        },
        None => {
            assert(s =~= seq![e]);
            assert(s[0] == e);
            if let Some(p) = correlated(e, outer) {
                assert(preds =~= seq![p]);
                assert(preds[0] == p);
            }
        },
    }
}

// --- where conjuncts go -----------------------------------------------------------------------

proof fn local_ones(s: Seq<Syntax>, n: nat, preds: Seq<CorrView>, outer: Syntax)
    requires
        n <= s.len(),
    ensures
        forall|c: Syntax| #[trigger]
            local_conjuncts(s, n, preds, outer).contains(c) <==> (exists|i: int|
                0 <= i < n && #[trigger] s[i] == c) && !is_lifted(c, preds) && !is_outer_only(
                c,
                outer,
            ),
    decreases n,
{
    let all = local_conjuncts(s, n, preds, outer);
    if n > 0 {
        local_ones(s, (n - 1) as nat, preds, outer);
        let done = local_conjuncts(s, (n - 1) as nat, preds, outer);
        let last = s[n - 1];
        assert forall|c: Syntax| #[trigger] all.contains(c) <==> (exists|i: int|
            0 <= i < n && #[trigger] s[i] == c) && !is_lifted(c, preds) && !is_outer_only(
            c,
            outer,
        ) by {
            if done.contains(c) {
                let k = choose|k: int| 0 <= k < done.len() && done[k] == c;
                assert(all[k] == c);
            }
            if all.contains(c) {
                let k = choose|k: int| 0 <= k < all.len() && all[k] == c;
                if k < done.len() {
                    assert(done[k] == c);
                    assert(done.contains(c));
                } else {
                    assert(s[n - 1] == c);
                }
            }
            if (exists|i: int| 0 <= i < n && #[trigger] s[i] == c) && !is_lifted(c, preds)
                && !is_outer_only(c, outer) {
                let i = choose|i: int| 0 <= i < n && #[trigger] s[i] == c;
                if i < n - 1 {
                    assert(done.contains(c));
                } else {
                    assert(all[done.len() as int] == c);
                }
            }
        }
    }
}

proof fn outer_ones(s: Seq<Syntax>, n: nat, outer: Syntax)
    requires
        n <= s.len(),
    ensures
        forall|c: Syntax| #[trigger]
            outer_conjuncts(s, n, outer).contains(c) <==> (exists|i: int|
                0 <= i < n && #[trigger] s[i] == c) && is_outer_only(c, outer),
    decreases n,
{
    let all = outer_conjuncts(s, n, outer);
    if n > 0 {
        outer_ones(s, (n - 1) as nat, outer);
        let done = outer_conjuncts(s, (n - 1) as nat, outer);
        assert forall|c: Syntax| #[trigger] all.contains(c) <==> (exists|i: int|
            0 <= i < n && #[trigger] s[i] == c) && is_outer_only(c, outer) by {
            if done.contains(c) {
                let k = choose|k: int| 0 <= k < done.len() && done[k] == c;
                assert(all[k] == c);
            }
            if all.contains(c) {
                let k = choose|k: int| 0 <= k < all.len() && all[k] == c;
                if k < done.len() {
                    assert(done[k] == c);
                    assert(done.contains(c));
                } else {
                    assert(s[n - 1] == c);
                }
            }
            if (exists|i: int| 0 <= i < n && #[trigger] s[i] == c) && is_outer_only(c, outer) {
                let i = choose|i: int| 0 <= i < n && #[trigger] s[i] == c;
                if i < n - 1 {
                    assert(done.contains(c));
                } else {
                    assert(all[done.len() as int] == c);
                }
            }
        }
    }
}

/// Whether the table `name` has the values of the column that a comparison reads from another
/// table than `outer`.
pub open spec fn reads_side(w: World, name: Seq<char>, outer: Syntax, side: Syntax) -> bool {
    side.inner().payload("CompoundIdentifier"@) matches Some(path) ==> path.items().len() > 0
        && !same_ident(path.items()[0], outer) ==> w.column_value(
        path.items().update(0, ident(name)),
    ) == w.column_value(path.items())
}

/// Whether the table `name` has the values of the inner columns that the conjuncts of `e`
/// compare.
pub open spec fn reads_columns(w: World, name: Seq<char>, outer: Syntax, e: Syntax) -> bool {
    forall|i: int|
        0 <= i < conjuncts(e).len() ==> (((#[trigger] conjuncts(e)[i]).payload(
            "BinaryOp"@,
        ) matches Some(b) ==> reads_side(w, name, outer, b.at("left"@)) && reads_side(
            w,
            name,
            outer,
            b.at("right"@),
        )))
}

proof fn joined_condition_holds(w: World, name: Seq<char>, outer: Syntax, c: Syntax)
    requires
        correlated(c, outer) is Some,
        c.payload("BinaryOp"@) matches Some(b) && reads_side(w, name, outer, b.at("left"@))
            && reads_side(w, name, outer, b.at("right"@)),
    ensures
        w.holds(joined_on(name, correlated(c, outer)->0)) == w.holds(c),
{
    tags_differ();
    operators_differ();
    let p = correlated(c, outer)->0;
    correlated_is_pred(c, outer);
    comparison_holds(w, c, p);
    let read = p.inner.update(0, ident(name));
    binary_parts(column_at(p.outer), Syntax::Text(p.op), column_at(read));
    let e = joined_on(name, p);
    assert(column_at(p.outer).payload("CompoundIdentifier"@) == Some(Syntax::List(p.outer)));
    assert(column_at(read).payload("CompoundIdentifier"@) == Some(Syntax::List(read)));
    assert(column_at(p.outer).payload("Nested"@) is None);
    assert(column_at(read).payload("Nested"@) is None);
    assert(w.value_of(column_at(p.outer)) == w.column_value(p.outer));
    assert(w.value_of(column_at(read)) == w.column_value(read));
    assert(w.column_value(read) == w.column_value(p.inner));
    assert(w.holds(e) == compared(p.op, w.column_value(p.outer), w.column_value(read)));
}

/// The conditions of the join and those left in the subquery hold together exactly if the
/// condition of the subquery does.
proof fn conditions_are_shared_out(
    w: World,
    name: Seq<char>,
    outer: Syntax,
    x: ScalarView,
    e: Syntax,
)
    requires
        x.preds == corr_preds(e, outer),
        x.outer_only == outer_conjuncts(conjuncts(e), conjuncts(e).len(), outer),
        reads_columns(w, name, outer, e),
    ensures
        w.all_hold(join_conditions(name, x)) && w.all_hold(
            local_conjuncts(conjuncts(e), conjuncts(e).len(), x.preds, outer),
        ) <==> w.holds(e),
{
    let s = conjuncts(e);
    let local = local_conjuncts(s, s.len(), x.preds, outer);
    let on = join_conditions(name, x);
    let n = x.preds.len();
    conjuncts_hold_together(w, e);
    preds_are_conjuncts(e, outer);
    local_ones(s, s.len(), x.preds, outer);
    outer_ones(s, s.len(), outer);
    if w.holds(e) {
        assert forall|k: int| 0 <= k < on.len() implies w.holds(#[trigger] on[k]) by {
            if k < n {
                let i = choose|i: int|
                    0 <= i < s.len() && correlated(#[trigger] s[i], outer) == Some(x.preds[k]);
                correlated_is_pred(s[i], outer);
                joined_condition_holds(w, name, outer, s[i]);
                assert(on[k] == joined_on(name, x.preds[k]));
            } else {
                assert(on[k] == x.outer_only[k - n]);
                assert(x.outer_only.contains(on[k]));
                let i = choose|i: int| 0 <= i < s.len() && #[trigger] s[i] == on[k];
                assert(w.holds(s[i]));
            }
        }
        assert forall|k: int| 0 <= k < local.len() implies w.holds(#[trigger] local[k]) by {
            assert(local.contains(local[k]));
            let i = choose|i: int| 0 <= i < s.len() && #[trigger] s[i] == local[k];
            assert(w.holds(s[i]));
        }
    }
    if w.all_hold(on) && w.all_hold(local) {
        assert forall|i: int| 0 <= i < s.len() implies w.holds(#[trigger] s[i]) by {
            let c = s[i];
            if is_lifted(c, x.preds) {
                let k = choose|k: int| 0 <= k < n && is_pred(c, #[trigger] x.preds[k]);
                let p = x.preds[k];
                let j = choose|j: int|
                    0 <= j < s.len() && correlated(#[trigger] s[j], outer) == Some(p);
                correlated_is_pred(s[j], outer);
                joined_condition_holds(w, name, outer, s[j]);
                comparison_holds(w, s[j], p);
                comparison_holds(w, c, p);
                assert(on[k] == joined_on(name, p));
                assert(w.holds(on[k]));
            } else if is_outer_only(c, outer) {
                assert(x.outer_only.contains(c));
                let k = choose|k: int| 0 <= k < x.outer_only.len() && x.outer_only[k] == c;
                assert(on[n + k] == c);
                assert(w.holds(on[n + k]));
            } else {
                assert(local.contains(c));
                let k = choose|k: int| 0 <= k < local.len() && local[k] == c;
                assert(w.holds(local[k]));
            }
        }
    }
}

// --- the clauses of the query -----------------------------------------------------------------

/// The condition of a join, if it is a left join.
pub open spec fn left_join_condition(join: Syntax) -> Option<Syntax> {
    let op = join.at("join_operator"@);
    match (op.payload("Left"@), op.payload("LeftOuter"@)) {
        (Some(c), _) => match c.payload("On"@) {
            Some(e) => Some(e.inner()),
            None => None,
        },
        (_, Some(c)) => match c.payload("On"@) {
            Some(e) => Some(e.inner()),
            None => None,
        },
        _ => None,
    }
}

/// Whether a join joins the table `name`, without an alias.
pub open spec fn joins_table(join: Syntax, name: Seq<char>) -> bool {
    join.at("relation"@).payload("Table"@) matches Some(t) && t.at("name"@) == Syntax::Relation(
        Box::new(Syntax::List(seq![name_part(name)])),
    ) && t.at("alias"@) == Syntax::Null && t.at("args"@) == Syntax::Null
}

proof fn left_join_parts(w: World, name: Seq<char>, x: ScalarView)
    ensures
        joins_table(left_join(name, x), name),
        left_join_condition(left_join(name, x)) is Some,
        w.holds(left_join_condition(left_join(name, x))->0) <==> w.all_hold(
            join_conditions(name, x),
        ),
{
    tags_differ();
    reveal_strlit("relation");
    reveal_strlit("global");
    reveal_strlit("join_operator");
    reveal_strlit("Left");
    reveal_strlit("LeftOuter");
    reveal_strlit("name");
    reveal_strlit("alias");
    reveal_strlit("args");
    reveal_strlit("value");
    reveal_strlit("span");
    assert("relation"@.len() == 8);
    assert("global"@.len() == 6);
    assert("join_operator"@.len() == 13);
    assert("Left"@.len() == 4);
    assert("LeftOuter"@.len() == 9);
    assert("name"@.len() == 4 && "name"@[0] == 'n');
    assert("args"@.len() == 4 && "args"@[0] == 'a');
    assert("alias"@.len() == 5);
    let join = left_join(name, x);
    let fields = join->Record_0;
    field_is_found(fields, 0);
    field_is_found(fields, 1);
    field_is_found(fields, 2);
    let t = plain_table(name).payload("Table"@)->0;
    field_is_found(t->Record_0, 0);
    field_is_found(t->Record_0, 1);
    field_is_found(t->Record_0, 2);
    let on = join_conditions(name, x);
    conjunction_holds(w, on);
    let op = join.at("join_operator"@);
    match conjunction(on) {
        Some(e) => {
            let c = variant("On"@, expr_node(e));
            assert(op.payload("LeftOuter"@) == Some(c));
            assert(op.payload("Left"@) is None);
            assert(c.payload("On"@) == Some(expr_node(e)));
        },
        None => {
            let v = value_expr(variant("Boolean"@, Syntax::Bool(true)));
            let c = variant("On"@, expr_node(v));
            assert(op.payload("Left"@) == Some(c));
            assert(c.payload("On"@) == Some(expr_node(v)));
            let inner = v.payload("Value"@)->0;
            field_is_found(inner->Record_0, 0);
            assert(inner.at("value"@).payload("Boolean"@) == Some(Syntax::Bool(true)));
            assert(v.payload("Nested"@) is None);
            assert(v.payload("BinaryOp"@) is None);
            assert(w.holds(v));
        },
    }
}

proof fn list_field_is_set(r: Syntax, name: Seq<char>, v: Syntax)
    requires
        r.at(name) is List,
    ensures
        r.with(name, v).at(name) == v,
{
    set_field_is_read(r, name, v);
}

proof fn joins_are_added(
    clause: Syntax,
    from: Seq<Syntax>,
    s: Seq<ScalarView>,
    n: nat,
    outer: Syntax,
)
    requires
        n <= s.len(),
        from.len() > 0,
        from[0].at("joins"@) is List,
    ensures
        ({
            let f = lifted_clauses(clause, from, s, n, outer).1;
            let joins = f[0].at("joins"@).items();
            let before = from[0].at("joins"@).items();
            &&& f.len() == from.len()
            &&& f[0].at("joins"@) is List
            &&& f[0].at("relation"@) == from[0].at("relation"@)
            &&& forall|j: int| 0 < j < f.len() ==> #[trigger] f[j] == from[j]
            &&& joins.len() == before.len() + n
            &&& forall|j: int| 0 <= j < before.len() ==> #[trigger] joins[j] == before[j]
            &&& forall|k: int|
                0 <= k < n ==> #[trigger] joins[before.len() + k] == left_join(
                    cte_name((k + 1) as nat),
                    s[k],
                )
        }),
    decreases n,
{
    if n > 0 {
        joins_are_added(clause, from, s, (n - 1) as nat, outer);
        let f = lifted_clauses(clause, from, s, (n - 1) as nat, outer).1;
        let joins = f[0].at("joins"@).items();
        let before = from[0].at("joins"@).items();
        let more = Syntax::List(joins.push(left_join(cte_name(n), s[n - 1])));
        list_field_is_set(f[0], "joins"@, more);
        reveal_strlit("joins");
        reveal_strlit("relation");
        assert("joins"@.len() == 5 && "relation"@.len() == 8);
        other_field_stays(f[0], "joins"@, more, "relation"@, Syntax::Null);
        let out = lifted_clauses(clause, from, s, n, outer).1;
        assert(out == joined_from(f, cte_name(n), s[n - 1]));
        assert(out[0].at("joins"@) == more);
        assert forall|k: int| 0 <= k < n implies #[trigger] out[0].at("joins"@).items()[before.len()
            + k] == left_join(cte_name((k + 1) as nat), s[k]) by {
            if k < n - 1 {
                assert(more.items()[before.len() + k] == joins[before.len() + k]);
            }
        }
        assert forall|j: int| 0 < j < out.len() implies #[trigger] out[j] == from[j] by {
            assert(f[j] == from[j]);
        }
    }
}

/// The common table expressions of a clause `WITH`; none where there is no clause.
pub open spec fn tables_of(clause: Syntax) -> Seq<Syntax> {
    clause.at("cte_tables"@).items()
}

proof fn tables_are_added(
    clause: Syntax,
    from: Seq<Syntax>,
    s: Seq<ScalarView>,
    n: nat,
    outer: Syntax,
)
    requires
        n <= s.len(),
        clause == Syntax::Null || clause.at("cte_tables"@) is List,
    ensures
        ({
            let c = lifted_clauses(clause, from, s, n, outer).0;
            let before = tables_of(clause);
            &&& n == 0 ==> c == clause
            &&& c == Syntax::Null || c.at("cte_tables"@) is List
            &&& tables_of(c).len() == before.len() + n
            &&& forall|j: int| 0 <= j < before.len() ==> #[trigger] tables_of(c)[j] == before[j]
            &&& forall|k: int|
                0 <= k < n ==> #[trigger] tables_of(c)[before.len() + k] == cte(
                    cte_name((k + 1) as nat),
                    lifted_subquery(s[k], outer),
                )
        }),
    decreases n,
{
    if n > 0 {
        tables_are_added(clause, from, s, (n - 1) as nat, outer);
        let c = lifted_clauses(clause, from, s, (n - 1) as nat, outer).0;
        let before = tables_of(clause);
        let one = cte(cte_name(n), lifted_subquery(s[n - 1], outer));
        let out = lifted_clauses(clause, from, s, n, outer).0;
        assert(out == with_cte(c, one));
        reveal_strlit("with_token");
        reveal_strlit("recursive");
        reveal_strlit("cte_tables");
        assert("with_token"@.len() == 10 && "with_token"@[0] == 'w');
        assert("recursive"@.len() == 9);
        assert("cte_tables"@.len() == 10 && "cte_tables"@[0] == 'c');
        if c == Syntax::Null {
            assert(tables_of(c) =~= Seq::empty());
            field_is_found(out->Record_0, 2);
            assert(tables_of(out) =~= seq![one]);
        } else {
            list_field_is_set(c, "cte_tables"@, Syntax::List(tables_of(c).push(one)));
            assert(tables_of(out) =~= tables_of(c).push(one));
        }
        assert forall|k: int| 0 <= k < n implies #[trigger] tables_of(out)[before.len() + k] == cte(
            cte_name((k + 1) as nat),
            lifted_subquery(s[k], outer),
        ) by {
            if k < n - 1 {
                assert(tables_of(out)[before.len() + k] == tables_of(c)[before.len() + k]);
            }
        }
        assert forall|j: int| 0 <= j < before.len() implies #[trigger] tables_of(out)[j]
            == before[j] by {
            assert(tables_of(out)[j] == tables_of(c)[j]);
        }
    }
}

// --- the whole query --------------------------------------------------------------------------

/// Whether a record has a field.
pub open spec fn has_field(r: Syntax, name: Seq<char>) -> bool {
    r matches Syntax::Record(fields) && lookup(fields, name) is Some
}

/// The scalar subquery over a plain `SELECT` that a select item is.
pub open spec fn scalar_of(item: Syntax) -> Option<Syntax> {
    match item_expr(item) {
        Some(e) => match e.payload("Subquery"@) {
            Some(q) => if query_select(q) is Some {
                Some(q)
            } else {
                None
            },
            None => None,
        },
        None => None,
    }
}

/// Whether a query has the fields that the parser gives every query over a `SELECT`.
pub open spec fn is_whole(q: Syntax) -> bool {
    &&& query_select(q) matches Some(select) && select.at("from"@) is List && select.at(
        "projection"@,
    ) is List
    &&& has_field(q, "with"@)
    &&& q.at("with"@) == Syntax::Null || q.at("with"@).at("cte_tables"@) is List
    &&& query_select(q)->0.at("from"@).items().len() > 0 ==> query_select(q)->0.at(
        "from"@,
    ).items()[0].at("joins"@) is List
}

proof fn lifted_parts(q: Syntax)
    requires
        is_whole(q),
    ensures
        ({
            let select = query_select(q)->0;
            let outer = outer_alias(select);
            let items = select.at("projection"@).items();
            let s = scalars(items, items.len(), outer);
            let (clause, from) = lifted_clauses(
                q.at("with"@),
                select.at("from"@).items(),
                s,
                s.len(),
                outer,
            );
            let out = lifted_query(q).0;
            &&& query_select(out) is Some
            &&& query_select(out)->0.at("from"@) == Syntax::List(from)
            &&& query_select(out)->0.at("projection"@) == Syntax::List(
                lifted_items(items, s, s.len()),
            )
            &&& query_select(out)->0.at("selection"@) == select.at("selection"@)
            &&& query_select(out)->0.at("group_by"@) == select.at("group_by"@)
            &&& out.at("with"@) == clause
        }),
{
    let select = query_select(q)->0;
    let outer = outer_alias(select);
    let items = select.at("projection"@).items();
    let s = scalars(items, items.len(), outer);
    let (clause, from) = lifted_clauses(
        q.at("with"@),
        select.at("from"@).items(),
        s,
        s.len(),
        outer,
    );
    reveal_strlit("from");
    reveal_strlit("projection");
    reveal_strlit("selection");
    reveal_strlit("group_by");
    reveal_strlit("body");
    reveal_strlit("with");
    assert("from"@.len() == 4 && "projection"@.len() == 10 && "selection"@.len() == 9);
    assert("group_by"@.len() == 8);
    assert("body"@.len() == 4 && "body"@[0] == 'b');
    assert("with"@.len() == 4 && "with"@[0] == 'w');
    let f = Syntax::List(from);
    let p = Syntax::List(lifted_items(items, s, s.len()));
    let one = select.with("from"@, f);
    let two = one.with("projection"@, p);
    list_field_is_set(select, "from"@, f);
    other_field_stays(select, "from"@, f, "projection"@, p);
    other_field_stays(select, "from"@, f, "selection"@, p);
    other_field_stays(select, "from"@, f, "group_by"@, p);
    list_field_is_set(one, "projection"@, p);
    other_field_stays(one, "projection"@, p, "from"@, p);
    other_field_stays(one, "projection"@, p, "selection"@, p);
    other_field_stays(one, "projection"@, p, "group_by"@, p);
    let body = variant("Select"@, two);
    let q1 = q.with("body"@, body);
    set_field_is_read(q, "body"@, body);
    assert(q1.at("body"@) == body);
    assert(body.payload("Select"@) == Some(two));
    let out = q1.with("with"@, clause);
    other_field_stays(q1, "with"@, clause, "body"@, p);
    let fields = q->Record_0;
    lookup_of_other(fields, "body"@, body, "with"@);
    lookup_of_replaced(q1->Record_0, "with"@, clause);
    assert(out.at("with"@) == clause);
}

/// Whether a condition, if there is one, holds.
pub open spec fn holds_if_any(w: World, selection: Syntax) -> bool {
    selection == Syntax::Null || w.holds(selection.inner())
}

proof fn table_parts(name: Seq<char>, query: Syntax)
    ensures
        cte(name, query).at("alias"@).at("name"@) == ident(name),
        cte(name, query).at("query"@) == query,
{
    reveal_strlit("alias");
    reveal_strlit("query");
    reveal_strlit("explicit");
    reveal_strlit("name");
    assert("alias"@.len() == 5 && "alias"@[0] == 'a');
    assert("query"@.len() == 5 && "query"@[0] == 'q');
    assert("explicit"@.len() == 8 && "name"@.len() == 4);
    let table = cte(name, query);
    field_is_found(table->Record_0, 0);
    field_is_found(table->Record_0, 1);
    field_is_found(table.at("alias"@)->Record_0, 1);
}

proof fn value_parts(k: nat, x: ScalarView)
    ensures
        value_item(k, x).payload("ExprWithAlias"@) is Some,
        value_item(k, x).payload("ExprWithAlias"@)->0.at("expr"@) == expr_node(
            variant(
                "CompoundIdentifier"@,
                Syntax::List(seq![ident(cte_name(k)), ident("col"@)]),
            ),
        ),
        x.alias != Syntax::Null ==> value_item(k, x).payload("ExprWithAlias"@)->0.at("alias"@)
            == x.alias,
{
    reveal_strlit("expr");
    reveal_strlit("alias");
    assert("expr"@.len() == 4 && "alias"@.len() == 5);
    let value = value_item(k, x).payload("ExprWithAlias"@)->0;
    field_is_found(value->Record_0, 0);
    field_is_found(value->Record_0, 1);
}

proof fn scalar_is_placed(q: Syntax, i: int) -> (j: int)
    requires
        is_whole(q),
        query_select(q)->0.at("from"@).items().len() > 0,
        0 <= i < query_select(q)->0.at("projection"@).items().len(),
        scalar_of(query_select(q)->0.at("projection"@).items()[i]) is Some,
    ensures
        ({
            let select = query_select(q)->0;
            let outer = outer_alias(select);
            let items = select.at("projection"@).items();
            let x = scalar_item(i as nat, items[i], outer);
            let name = cte_name((j + 1) as nat);
            let out = lifted_query(q).0;
            let select1 = query_select(out)->0;
            let before = select.at("from"@).items()[0].at("joins"@).items().len();
            let joins = select1.at("from"@).items()[0].at("joins"@).items();
            let tables = tables_of(out.at("with"@));
            &&& j >= 0
            &&& x is Some
            &&& query_select(out) is Some
            &&& select1.at("projection"@).items().len() == items.len()
            &&& select1.at("projection"@).items()[i] == value_item((j + 1) as nat, x->0)
            &&& before + j < joins.len()
            &&& joins[before + j] == left_join(name, x->0)
            &&& tables_of(q.at("with"@)).len() + j < tables.len()
            &&& tables[tables_of(q.at("with"@)).len() + j] == cte(
                name,
                lifted_subquery(x->0, outer),
            )
        }),
{
    let select = query_select(q)->0;
    let outer = outer_alias(select);
    let items = select.at("projection"@).items();
    let from = select.at("from"@).items();
    let s = scalars(items, items.len(), outer);
    lifted_parts(q);
    scalars_are_in_order(items, items.len(), outer);
    assert(scalar_item(i as nat, items[i], outer) is Some);
    let j = choose|j: int| 0 <= j < s.len() && (#[trigger] s[j]).index == i;
    lifted_item(items, s, s.len(), j);
    joins_are_added(q.at("with"@), from, s, s.len(), outer);
    tables_are_added(q.at("with"@), from, s, s.len(), outer);
    assert(s[j].index as int == i);
    j
}

proof fn condition_is_shared_out(w: World, name: Seq<char>, x: ScalarView, outer: Syntax)
    requires
        query_select(x.subquery) is Some,
        has_field(query_select(x.subquery)->0, "selection"@),
        ({
            let selection = query_select(x.subquery)->0.at("selection"@);
            let e = selection.inner();
            if selection == Syntax::Null {
                x.preds.len() == 0 && x.outer_only.len() == 0
            } else {
                &&& x.preds == corr_preds(e, outer)
                &&& x.outer_only == outer_conjuncts(conjuncts(e), conjuncts(e).len(), outer)
                &&& reads_columns(w, name, outer, e)
            }
        }),
    ensures
        w.holds(left_join_condition(left_join(name, x))->0) && holds_if_any(
            w,
            query_select(lifted_subquery(x, outer))->0.at("selection"@),
        ) <==> holds_if_any(w, query_select(x.subquery)->0.at("selection"@)),
{
    let selection = query_select(x.subquery)->0.at("selection"@);
    left_join_parts(w, name, x);
    lifted_selection(x, outer);
    if selection == Syntax::Null {
        assert(join_conditions(name, x) =~= Seq::empty());
    } else {
        let e = selection.inner();
        conditions_are_shared_out(w, name, outer, x, e);
        let local = local_conjuncts(conjuncts(e), conjuncts(e).len(), x.preds, outer);
        conjunction_holds(w, local);
    }
}

/// Every scalar subquery of a `SELECT` list is read from a common table expression of its own
/// that is joined to the first table by a left join, so that no row is lost. For every row of the
/// outer query, a row of that table is joined exactly if the condition of the subquery holds of
/// it: the condition of the join and that left in the subquery hold together exactly if the
/// condition of the subquery does, where the joined table has the values of the columns that the
/// subquery compares. The column keeps its name.
pub proof fn scalars_are_joined(q: Syntax, i: int) -> (k: nat)
    requires
        is_whole(q),
        query_select(q)->0.at("from"@).items().len() > 0,
        0 <= i < query_select(q)->0.at("projection"@).items().len(),
        scalar_of(query_select(q)->0.at("projection"@).items()[i]) is Some,
    ensures
        ({
            let select = query_select(q)->0;
            let item = select.at("projection"@).items()[i];
            let sub = scalar_of(item)->0;
            let name = numbered("__cte"@, k);
            let out = lifted_query(q).0;
            let select1 = query_select(out)->0;
            let before = select.at("from"@).items()[0].at("joins"@).items().len();
            let joins = select1.at("from"@).items()[0].at("joins"@).items();
            let tables = tables_of(out.at("with"@));
            let join = joins[before + k - 1];
            let table = tables[tables_of(q.at("with"@)).len() + k - 1];
            let value = select1.at("projection"@).items()[i].payload("ExprWithAlias"@);
            let where_before = query_select(sub)->0.at("selection"@);
            let where_after = query_select(table.at("query"@))->0.at("selection"@);
            &&& k > 0
            &&& query_select(out) is Some
            &&& select1.at("projection"@).items().len() == select.at("projection"@).items().len()
            &&& before + k - 1 < joins.len()
            &&& tables_of(q.at("with"@)).len() + k - 1 < tables.len()
            &&& joins_table(join, name)
            &&& left_join_condition(join) is Some
            &&& table.at("alias"@).at("name"@) == ident(name)
            &&& value is Some
            &&& value->0.at("expr"@) == expr_node(
                variant("CompoundIdentifier"@, Syntax::List(seq![ident(name), ident("col"@)])),
            )
            &&& item.payload("ExprWithAlias"@) is Some && item.payload("ExprWithAlias"@)->0.at(
                "alias"@,
            ) != Syntax::Null ==> value->0.at("alias"@) == item.payload("ExprWithAlias"@)->0.at(
                "alias"@,
            )
            &&& has_field(query_select(sub)->0, "selection"@) ==> forall|w: World|
                where_before == Syntax::Null || reads_columns(
                    w,
                    name,
                    outer_alias(select),
                    where_before.inner(),
                ) ==> (#[trigger] w.holds(left_join_condition(join)->0) && holds_if_any(
                    w,
                    where_after,
                ) <==> holds_if_any(w, where_before))
        }),
{
    let select = query_select(q)->0;
    let outer = outer_alias(select);
    let item = select.at("projection"@).items()[i];
    let x = scalar_item(i as nat, item, outer)->0;
    let j = scalar_is_placed(q, i);
    let k = (j + 1) as nat;
    let name = cte_name(k);
    table_parts(name, lifted_subquery(x, outer));
    value_parts(k, x);
    let any = World { column: |p| 0, value: |e| 0, truth: |e| true };
    left_join_parts(any, name, x);
    let join = left_join(name, x);
    let where_before = query_select(x.subquery)->0.at("selection"@);
    let where_after = query_select(lifted_subquery(x, outer))->0.at("selection"@);
    if has_field(query_select(x.subquery)->0, "selection"@) {
        assert forall|w: World|
            where_before == Syntax::Null || reads_columns(
                w,
                name,
                outer,
                where_before.inner(),
            ) implies (#[trigger] w.holds(left_join_condition(join)->0) && holds_if_any(
            w,
            where_after,
        ) <==> holds_if_any(w, where_before)) by {
            condition_is_shared_out(w, name, x, outer);
        }
    }
    k
}

proof fn lifted_selection(x: ScalarView, outer: Syntax)
    requires
        query_select(x.subquery) is Some,
    ensures
        query_select(lifted_subquery(x, outer)) is Some,
        has_field(query_select(x.subquery)->0, "selection"@) ==> query_select(
            lifted_subquery(x, outer),
        )->0.at("selection"@) == ({
            let selection = query_select(x.subquery)->0.at("selection"@);
            let s = conjuncts(selection.inner());
            if selection == Syntax::Null {
                Syntax::Null
            } else {
                match conjunction(local_conjuncts(s, s.len(), x.preds, outer)) {
                    Some(e) => expr_node(e),
                    None => Syntax::Null,
                }
            }
        }),
        query_select(lifted_subquery(x, outer))->0.at("from"@) == query_select(x.subquery)->0.at(
            "from"@,
        ),
        query_select(lifted_subquery(x, outer))->0.at("having"@) == query_select(x.subquery)->0.at(
            "having"@,
        ),
{
    let select = query_select(x.subquery)->0;
    let out = query_select(lifted_subquery(x, outer));
    let selection = select.at("selection"@);
    let s = conjuncts(selection.inner());
    let kept = if selection == Syntax::Null {
        Syntax::Null
    } else {
        match conjunction(local_conjuncts(s, s.len(), x.preds, outer)) {
            Some(e) => expr_node(e),
            None => Syntax::Null,
        }
    };
    let items = Syntax::List(
        with_keys(
            with_col(select.at("projection"@).items()),
            x.preds,
            x.preds.len(),
        ),
    );
    let g = grouped_by(select, x.preds);
    reveal_strlit("from");
    reveal_strlit("having");
    reveal_strlit("projection");
    reveal_strlit("selection");
    reveal_strlit("group_by");
    assert("from"@.len() == 4 && "projection"@.len() == 10 && "selection"@.len() == 9);
    assert("group_by"@.len() == 8 && "having"@.len() == 6);
    let one = select.with("selection"@, kept);
    let two = one.with("projection"@, items);
    let three = two.with("group_by"@, g);
    let body = variant("Select"@, three);
    set_field_is_read(x.subquery, "body"@, body);
    assert(body.payload("Select"@) == Some(three));
    other_field_stays(select, "selection"@, kept, "from"@, g);
    other_field_stays(one, "projection"@, items, "from"@, g);
    other_field_stays(two, "group_by"@, g, "from"@, g);
    other_field_stays(select, "selection"@, kept, "having"@, g);
    other_field_stays(one, "projection"@, items, "having"@, g);
    other_field_stays(two, "group_by"@, g, "having"@, g);
    other_field_stays(one, "projection"@, items, "selection"@, g);
    other_field_stays(two, "group_by"@, g, "selection"@, g);
    if has_field(select, "selection"@) {
        lookup_of_replaced(select->Record_0, "selection"@, kept);
    }
}

} // verus!
