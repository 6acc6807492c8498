//! Rewrites of subqueries in predicates.
use super::ast::{
    binary, call, exists_expr, get_item_expr, get_query_select, hold_operands, is_plain_select,
    is_ungrouped, item_expr, mk_binary, mk_call, mk_exists, mk_name1, mk_nested, mk_number_expr,
    mk_operand, mk_unnamed_item, name1, nested, number_expr, operand, operands_held, plain_select,
    put_select, query_select, ungrouped, unnamed_item, with_select,
};
use super::cte::{aggregates, has_aggregates};
use super::parse::{outcome, SqlError};
use super::rewrite::{rewrite_text, rewritten_text, Layout};
use super::tree::{expr_node, variant, Syntax, Tree};
use super::walk::{Pass, Progress, ProgressView, Rule};
use vstd::prelude::*;

verus! {

// --- boolean subqueries --------------------------------------------------------

/// Whether `e` is a comparison.
pub open spec fn is_comparison(e: Syntax) -> bool {
    match e.payload("BinaryOp"@) {
        Some(b) => {
            ||| b.at("op"@).is_text("Eq"@)
            ||| b.at("op"@).is_text("NotEq"@)
            ||| b.at("op"@).is_text("Lt"@)
            ||| b.at("op"@).is_text("LtEq"@)
            ||| b.at("op"@).is_text("Gt"@)
            ||| b.at("op"@).is_text("GtEq"@)
        },
        None => false,
    }
}

fn is_boolean_comparison(e: &Tree) -> (r: bool)
    ensures
        r == is_comparison(e@),
{
    match e.payload("BinaryOp") {
        Some(b) => {
            let op = b.at("op");
            op.is_text("Eq") || op.is_text("NotEq") || op.is_text("Lt") || op.is_text("LtEq")
                || op.is_text("Gt") || op.is_text("GtEq")
        },
        None => false,
    }
}

/// The comparison that a plain `SELECT` of one comparison selects. One of aggregates is none: no
/// row has it.
pub open spec fn projected_comparison(select: Syntax) -> Option<Syntax> {
    let projection = select.at("projection"@);
    if projection.items().len() != 1 || select.at("having"@) != Syntax::Null || select.at(
        "distinct"@,
    ) != Syntax::Null || !ungrouped(select) {
        None
    } else {
        match item_expr(projection.item(0)) {
            Some(e) => if is_comparison(e) && !aggregates(e) {
                Some(e)
            } else {
                None
            },
            None => None,
        }
    }
}

fn get_projected_comparison(select: &Tree) -> (r: Option<&Tree>)
    ensures
        match r {
            Some(t) => projected_comparison(select@) == Some(t@),
            None => projected_comparison(select@) is None,
        },
{
    let projection = select.at("projection");
    if projection.len() != 1 || !select.at("having").is_null() || !select.at("distinct").is_null()
        || !is_ungrouped(select) {
        return None;
    }
    if let Some(e) = get_item_expr(projection.item(0)) {
        if is_boolean_comparison(e) && !has_aggregates(e) {
            return Some(e);
        }
    }
    None
}

/// The condition of a `WHERE` clause, if there is one, together with `pred`.
pub open spec fn conjoined(selection: Syntax, pred: Syntax) -> Syntax {
    if selection == Syntax::Null {
        pred
    } else {
        binary(nested(selection.inner()), Syntax::Text("And"@), nested(pred))
    }
}

/// The `SELECT` of `1` from the rows of `select` for which `pred` holds.
pub open spec fn select_one_where(select: Syntax, pred: Syntax) -> Syntax {
    select.with("projection"@, Syntax::List(seq![unnamed_item(number_expr("1"@))])).with(
        "selection"@,
        expr_node(conjoined(select.at("selection"@), pred)),
    )
}

/// `EXISTS (SELECT 1 FROM t WHERE (c) AND (a = b))` for the subquery
/// `(SELECT a = b FROM t WHERE c)`; any other expression as it is.
pub open spec fn boolean_subquery_as_exists(e: Syntax) -> Syntax {
    match e.payload("Subquery"@) {
        Some(q) => match query_select(q) {
            Some(select) => match projected_comparison(select) {
                Some(pred) => exists_expr(
                    with_select(q, select_one_where(select, pred)),
                    Syntax::Bool(false),
                ),
                None => e,
            },
            None => e,
        },
        None => e,
    }
}

/// Scalar subqueries that select one comparison become `EXISTS`.
pub struct BooleanSubqueries;

/// [`boolean_subquery_as_exists`] as a rule.
pub open spec fn boolean_subquery_rule() -> Rule {
    |st: ProgressView, e: Syntax| (st, boolean_subquery_as_exists(e))
}

impl Pass for BooleanSubqueries {
    open spec fn rule(&self) -> Rule {
        boolean_subquery_rule()
    }

    fn apply(&self, st: &mut Progress, e: Tree) -> (r: Tree) {
        if let Some(q) = e.payload("Subquery") {
            if let Some(select) = get_query_select(q) {
                if let Some(pred) = get_projected_comparison(select) {
                    let old = select.at("selection");
                    let condition = if old.is_null() {
                        pred.copy()
                    } else {
                        mk_binary(mk_nested(old.inner().copy()), "And", mk_nested(pred.copy()))
                    };
                    let one = Tree::list1(mk_unnamed_item(mk_number_expr("1")));
                    let changed = select.with("projection", one).with(
                        "selection",
                        Tree::expr(condition),
                    );
                    return mk_exists(put_select(q, changed), Tree::Bool(false));
                }
            }
        }
        e
    }
}

/// A scalar subquery that selects one comparison, `(SELECT a = b FROM t WHERE c)`,
/// becomes `EXISTS (SELECT 1 FROM t WHERE (c) AND (a = b))`, which can be planned when
/// it is correlated. A `SELECT` with `DISTINCT`, `GROUP BY` or `HAVING` is left alone, and one
/// of aggregates too.
pub fn rewrite_boolean_scalar_subquery_to_exists(sql: &str) -> (r: Result<String, SqlError>)
    ensures
        outcome(r) == rewritten_text(boolean_subquery_rule(), Layout::Spaces, sql@),
{
    rewrite_text(&BooleanSubqueries, Layout::Spaces, sql)
}

// --- EXISTS ----------------------------------------------------------------------

/// The call `count(*)`.
pub open spec fn count_star() -> Syntax {
    call(name1("count"@), seq![variant("Unnamed"@, Syntax::Text("Wildcard"@))])
}

fn mk_count_star() -> (r: Tree)
    ensures
        r@ == count_star(),
{
    mk_call(
        mk_name1("count"),
        Tree::list1(Tree::variant("Unnamed", Tree::of_text("Wildcard"))),
    )
}

/// The `SELECT` that counts the rows of `select`.
pub open spec fn select_count(select: Syntax) -> Syntax {
    select.with("projection"@, Syntax::List(seq![unnamed_item(count_star())])).with(
        "distinct"@,
        Syntax::Null,
    )
}

/// Whether a query cuts off some of its rows in a way that may leave none of them: by anything
/// but a `LIMIT` of a number that is not zero.
pub open spec fn may_leave_none(q: Syntax) -> bool {
    ||| q.at("fetch"@) != Syntax::Null
    ||| q.at("limit_clause"@) != Syntax::Null && match q.at("limit_clause"@).payload(
        "LimitOffset"@,
    ) {
        Some(l) => {
            ||| l.at("offset"@) != Syntax::Null
            ||| l.at("limit_by"@).items().len() > 0
            ||| match l.at("limit"@).inner().payload("Value"@) {
                Some(v) => match v.at("value"@).payload("Number"@) {
                    Some(n) => n.item(0).is_text("0"@),
                    None => true,
                },
                None => true,
            }
        },
        None => true,
    }
}

fn can_leave_none(q: &Tree) -> (r: bool)
    ensures
        r == may_leave_none(q@),
{
    if !q.at("fetch").is_null() {
        return true;
    }
    let clause = q.at("limit_clause");
    if clause.is_null() {
        return false;
    }
    match clause.payload("LimitOffset") {
        Some(l) => !l.at("offset").is_null() || l.at("limit_by").len() > 0 || match l.at(
            "limit",
        ).inner().payload("Value") {
            Some(v) => match v.at("value").payload("Number") {
                Some(n) => n.item(0).is_text("0"),
                None => true,
            },
            None => true,
        },
        None => true,
    }
}

/// Whether `count(*)` in the place of what `select` selects tells if the query `q` has rows: it
/// neither groups nor aggregates, and leaves some of its rows if it has any.
pub open spec fn is_counted(q: Syntax, select: Syntax) -> bool {
    &&& select.at("having"@) == Syntax::Null
    &&& ungrouped(select)
    &&& !aggregates(select.at("projection"@))
    &&& !may_leave_none(q)
}

/// `(SELECT count(*) ..) > 0` for `EXISTS (SELECT ..)`, and `= 0` for `NOT EXISTS`, if
/// the count says whether there are rows. Any other expression stays, with such
/// comparisons in parentheses where they are operands.
pub open spec fn exists_as_count(e: Syntax) -> Syntax {
    match e.payload("Exists"@) {
        Some(x) => match query_select(x.at("subquery"@)) {
            Some(select) => if is_counted(x.at("subquery"@), select) {
                binary(
                    variant("Subquery"@, with_select(x.at("subquery"@), select_count(select))),
                    Syntax::Text(
                        if x.at("negated"@) == Syntax::Bool(true) {
                            "Eq"@
                        } else {
                            "Gt"@
                        },
                    ),
                    number_expr("0"@),
                )
            } else {
                e
            },
            None => e,
        },
        None => operands_held(e),
    }
}

/// `EXISTS` becomes a comparison of a count with zero.
pub struct ExistsAsCount;

/// [`exists_as_count`] as a rule.
pub open spec fn exists_rule() -> Rule {
    |st: ProgressView, e: Syntax| (st, exists_as_count(e))
}

impl Pass for ExistsAsCount {
    open spec fn rule(&self) -> Rule {
        exists_rule()
    }

    fn apply(&self, st: &mut Progress, e: Tree) -> (r: Tree) {
        if let Some(x) = e.payload("Exists") {
            let q = x.at("subquery");
            if let Some(select) = get_query_select(q) {
                if select.at("having").is_null() && is_ungrouped(select) && !has_aggregates(
                    select.at("projection"),
                ) && !can_leave_none(q) {
                    let count = Tree::list1(mk_unnamed_item(mk_count_star()));
                    let counted = select.with("projection", count).with("distinct", Tree::Null);
                    let op = match x.at("negated") {
                        Tree::Bool(b) => if *b {
                            "Eq"
                        } else {
                            "Gt"
                        },
                        _ => "Gt",
                    };
                    let scalar = Tree::variant("Subquery", put_select(q, counted));
                    return mk_binary(scalar, op, mk_number_expr("0"));
                }
            }
            return e;
        }
        hold_operands(e)
    }
}

/// `EXISTS (SELECT ..)` becomes `(SELECT count(*) ..) > 0`, and `NOT EXISTS` becomes
/// `= 0`, which can be planned wherever an expression can stand. As an operand it stands in
/// parentheses. A `SELECT` with `GROUP BY` or `HAVING`, one of aggregates, and one whose rows are
/// cut off by `OFFSET` or the like, is left alone: there the count says something else.
pub fn rewrite_exists_to_count(sql: &str) -> (r: Result<String, SqlError>)
    ensures
        outcome(r) == rewritten_text(exists_rule(), Layout::Spaces, sql@),
{
    rewrite_text(&ExistsAsCount, Layout::Spaces, sql)
}

// --- row constructors with IN --------------------------------------------------------

/// Whether every item selects an expression.
pub open spec fn all_plain(items: Seq<Syntax>) -> bool {
    forall|i: int| 0 <= i < items.len() ==> item_expr(#[trigger] items[i]) is Some
}

/// The condition that a query has already, in parentheses; `Null` stands for none.
pub open spec fn own_condition(selection: Syntax) -> Syntax {
    if selection.inner() == Syntax::Null {
        Syntax::Null
    } else {
        nested(selection.inner())
    }
}

/// The condition `c` with `p = a` added for each of the first `n` pairs of a selected
/// expression `p` and a tuple element `a`; `Null` stands for no condition.
pub open spec fn matched(c: Syntax, items: Seq<Syntax>, elems: Seq<Syntax>, n: nat) -> Syntax
    decreases n,
{
    if n == 0 {
        c
    } else {
        let before = matched(c, items, elems, (n - 1) as nat);
        let equality = binary(
            operand(item_expr(items[n - 1])->0),
            Syntax::Text("Eq"@),
            operand(elems[n - 1].inner()),
        );
        if before == Syntax::Null {
            equality
        } else {
            binary(before, Syntax::Text("And"@), equality)
        }
    }
}

/// A condition as the field `selection` holds it.
pub open spec fn selection_node(c: Syntax) -> Syntax {
    if c == Syntax::Null {
        Syntax::Null
    } else {
        expr_node(c)
    }
}

/// Whether a query selects something of each of its rows: it neither groups nor aggregates, and
/// takes all rows, each as often as it is there.
pub open spec fn selects_each_row(q: Syntax, select: Syntax) -> bool {
    &&& is_plain_select(select)
    &&& !aggregates(select.at("projection"@))
    &&& q.at("limit_clause"@) == Syntax::Null
    &&& q.at("fetch"@) == Syntax::Null
}

fn takes_each_row(q: &Tree, select: &Tree) -> (r: bool)
    ensures
        r == selects_each_row(q@, select@),
{
    plain_select(select) && !has_aggregates(select.at("projection")) && q.at(
        "limit_clause",
    ).is_null() && q.at("fetch").is_null()
}

/// `EXISTS (SELECT 1 FROM t WHERE (c) AND p = a AND q = b)` for
/// `(a, b) IN (SELECT p, q FROM t WHERE c)`, and `NOT EXISTS` for `NOT IN`; any other
/// expression as it is.
pub open spec fn tuple_in_as_exists(e: Syntax) -> Syntax {
    match e.payload("InSubquery"@) {
        Some(x) => match (
            x.at("expr"@).inner().payload("Tuple"@),
            query_select(x.at("subquery"@)),
        ) {
            (Some(tuple), Some(select)) => {
                let elems = tuple.items();
                let items = select.at("projection"@).items();
                if elems.len() > 1 && items.len() == elems.len() && all_plain(items)
                    && selects_each_row(x.at("subquery"@), select) {
                    let condition = matched(
                        own_condition(select.at("selection"@)),
                        items,
                        elems,
                        items.len(),
                    );
                    exists_expr(
                        with_select(
                            x.at("subquery"@),
                            select.with("selection"@, selection_node(condition)).with(
                                "projection"@,
                                Syntax::List(seq![unnamed_item(number_expr("1"@))]),
                            ),
                        ),
                        x.at("negated"@),
                    )
                } else {
                    e
                }
            },
            _ => e,
        },
        None => e,
    }
}

fn plain_items(projection: &Tree) -> (r: bool)
    ensures
        r == all_plain(projection@.items()),
{
    let n: usize = projection.len();
    let mut i: usize = 0;
    while i < n
        invariant
            i <= n,
            n == projection@.items().len(),
            forall|j: int| 0 <= j < i ==> item_expr(#[trigger] projection@.items()[j]) is Some,
        decreases n - i,
    {
        if get_item_expr(projection.item(i)).is_none() {
            assert(item_expr(projection@.items()[i as int]) is None);
            return false;
        }
        i = i + 1;
    }
    true
}

fn match_columns(selection: &Tree, projection: &Tree, elems: &Tree) -> (r: Tree)
    requires
        all_plain(projection@.items()),
        projection@.items().len() == elems@.items().len(),
    ensures
        r@ == matched(
            selection@,
            projection@.items(),
            elems@.items(),
            projection@.items().len(),
        ),
{
    let n: usize = projection.len();
    let mut condition = selection.copy();
    let mut i: usize = 0;
    while i < n
        invariant
            i <= n,
            n == projection@.items().len(),
            n == elems@.items().len(),
            all_plain(projection@.items()),
            condition@ == matched(selection@, projection@.items(), elems@.items(), i as nat),
        decreases n - i,
    {
        let item = projection.item(i);
        assert(item_expr(projection@.items()[i as int]) is Some);
        if let Some(p) = get_item_expr(item) {
            let equality = mk_binary(mk_operand(p), "Eq", mk_operand(elems.item(i).inner()));
            condition = if condition.is_null() {
                equality
            } else {
                mk_binary(condition, "And", equality)
            };
        }
        i = i + 1;
    }
    condition
}

/// `IN` of a row constructor and a subquery becomes `EXISTS`.
pub struct TupleIn;

/// [`tuple_in_as_exists`] as a rule.
pub open spec fn tuple_in_rule() -> Rule {
    |st: ProgressView, e: Syntax| (st, tuple_in_as_exists(e))
}

impl Pass for TupleIn {
    open spec fn rule(&self) -> Rule {
        tuple_in_rule()
    }

    fn apply(&self, st: &mut Progress, e: Tree) -> (r: Tree) {
        if let Some(x) = e.payload("InSubquery") {
            let q = x.at("subquery");
            if let Some(tuple) = x.at("expr").inner().payload("Tuple") {
                if let Some(select) = get_query_select(q) {
                    let projection = select.at("projection");
                    if tuple.len() > 1 && projection.len() == tuple.len() && plain_items(
                        projection,
                    ) && takes_each_row(q, select) {
                        let own = select.at("selection").inner();
                        let own = if own.is_null() {
                            Tree::Null
                        } else {
                            mk_nested(own.copy())
                        };
                        let condition = match_columns(&own, projection, tuple);
                        let selection = if condition.is_null() {
                            Tree::Null
                        } else {
                            Tree::expr(condition)
                        };
                        let one = Tree::list1(mk_unnamed_item(mk_number_expr("1")));
                        let changed = select.with("selection", selection).with("projection", one);
                        return mk_exists(put_select(q, changed), x.at("negated").copy());
                    }
                }
            }
        }
        e
    }
}

/// `(a, b) IN (SELECT p, q FROM t WHERE c)` becomes
/// `EXISTS (SELECT 1 FROM t WHERE (c) AND p = a AND q = b)`, and `NOT IN` becomes
/// `NOT EXISTS`. `IN` with one column is left alone, and so is a subquery that groups, aggregates
/// or picks among its rows otherwise than by its `WHERE`.
pub fn rewrite_tuple_in_subquery_to_exists(sql: &str) -> (r: Result<String, SqlError>)
    ensures
        outcome(r) == rewritten_text(tuple_in_rule(), Layout::Spaces, sql@),
{
    rewrite_text(&TupleIn, Layout::Spaces, sql)
}

} // verus!
