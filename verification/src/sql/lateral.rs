//! Correlated aggregates in lateral joins, as grouped joins.
use super::ast::{
    aliased_item, binary, body_alone, get_ident_text, get_item_expr, get_last_part_text,
    get_relation_name, ident, ident_text, is_body_alone, is_plain_select, item_expr, last_part_text,
    mk_aliased_item, mk_binary, mk_ident, mk_operand, operand, plain_select, relation_name,
};
use super::parse::{outcome, parse, print, printed, statements_of, SqlDialect, SqlError, SqlFault};
use super::tree::{
    at_is_smaller, expr_node, field_is_smaller, fields_of, inner_is_smaller, item_is_smaller,
    list_field_is_smaller, list_of, list_view, no_items, payload_is_smaller, push_item, record_view,
    variant, Syntax, Tree,
};
use crate::text::{
    eq_ignoring_case, lowercased, numbered, numbered_text, same, same_ignoring_case, to_lowercase,
};
use vstd::prelude::*;

verus! {

// --- the shape ---------------------------------------------------------------------

/// The kind of a left join that `ON` belongs to. An inner join is not one of them: a lateral
/// aggregate always has a row to join with, and a grouped one has not.
pub open spec fn join_kind(op: Syntax) -> Option<Seq<char>> {
    if op.payload("Left"@) is Some {
        Some("Left"@)
    } else if op.payload("LeftOuter"@) is Some {
        Some("LeftOuter"@)
    } else {
        None
    }
}

fn get_join_kind(op: &Tree) -> (r: Option<&'static str>)
    ensures
        match r {
            Some(s) => join_kind(op@) == Some(s@),
            None => join_kind(op@) is None,
        },
{
    if op.payload("Left").is_some() {
        Some("Left")
    } else if op.payload("LeftOuter").is_some() {
        Some("LeftOuter")
    } else {
        None
    }
}

/// Whether a join is a left join with `ON true`.
pub open spec fn is_on_true(op: Syntax) -> bool {
    match join_kind(op) {
        Some(kind) => match op.payload(kind)->0.payload("On"@) {
            Some(e) => match e.inner().payload("Value"@) {
                Some(v) => v.at("value"@).payload("Boolean"@) == Some(Syntax::Bool(true)),
                None => false,
            },
            None => false,
        },
        None => false,
    }
}

fn on_true(op: &Tree) -> (r: bool)
    ensures
        r == is_on_true(op@),
{
    if let Some(kind) = get_join_kind(op) {
        if let Some(c) = op.payload(kind) {
            if let Some(e) = c.payload("On") {
                if let Some(v) = e.inner().payload("Value") {
                    if let Some(b) = v.at("value").payload("Boolean") {
                        return match b {
                            Tree::Bool(x) => *x,
                            _ => false,
                        };
                    }
                }
            }
        }
    }
    false
}

/// The name that a plain table is referred to by: its alias, or else its own name.
pub open spec fn table_qualifier(tf: Syntax) -> Option<Seq<char>> {
    match tf.payload("Table"@) {
        Some(t) => if t.at("args"@) != Syntax::Null {
            None
        } else if t.at("alias"@) != Syntax::Null {
            ident_text(t.at("alias"@).at("name"@))
        } else {
            last_part_text(relation_name(t.at("name"@)))
        },
        None => None,
    }
}

fn get_table_qualifier(tf: &Tree) -> (r: Option<&String>)
    ensures
        match r {
            Some(s) => table_qualifier(tf@) == Some(s@),
            None => table_qualifier(tf@) is None,
        },
{
    match tf.payload("Table") {
        Some(t) => if !t.at("args").is_null() {
            None
        } else if !t.at("alias").is_null() {
            get_ident_text(t.at("alias").at("name"))
        } else {
            get_last_part_text(get_relation_name(t.at("name")))
        },
        None => None,
    }
}

/// Whether `e` is a column of the table `qualifier`.
pub open spec fn is_column_of(e: Syntax, qualifier: Seq<char>) -> bool {
    match e.payload("CompoundIdentifier"@) {
        Some(parts) => parts.items().len() == 2 && ident_text(parts.items()[0]) == Some(qualifier),
        None => false,
    }
}

fn column_of(e: &Tree, qualifier: &str) -> (r: bool)
    ensures
        r == is_column_of(e@, qualifier@),
{
    if let Some(parts) = e.payload("CompoundIdentifier") {
        if parts.len() == 2 {
            if let Some(s) = get_ident_text(parts.item(0)) {
                return same(s.as_str(), qualifier);
            }
        }
    }
    false
}

/// Whether an expression, if it is a column, is one of the table `qualifier`, or, if not `own`, one
/// of another table. A column without a table may be one of `qualifier`.
pub open spec fn column_fits(e: Syntax, qualifier: Seq<char>, own: bool) -> bool {
    match (e.payload("Identifier"@), e.payload("CompoundIdentifier"@)) {
        (Some(_), _) => own,
        (_, Some(parts)) => {
            let n = parts.items().len();
            match ident_text(parts.item(n - 2)) {
                Some(table) => if own {
                    table == qualifier
                } else {
                    !same_ignoring_case(table, qualifier)
                },
                None => false,
            }
        },
        _ => true,
    }
}

fn fits(e: &Tree, qualifier: &str, own: bool) -> (r: bool)
    ensures
        r == column_fits(e@, qualifier@, own),
{
    if e.payload("Identifier").is_some() {
        return own;
    }
    if let Some(parts) = e.payload("CompoundIdentifier") {
        let n: usize = parts.len();
        if n < 2 {
            assert(parts@.item(n - 2) == Syntax::Null);
            assert(ident_text(Syntax::Null) is None);
            return false;
        }
        return match get_ident_text(parts.item(n - 2)) {
            Some(table) => if own {
                same(table.as_str(), qualifier)
            } else {
                !eq_ignoring_case(table.as_str(), qualifier)
            },
            None => false,
        };
    }
    true
}

/// Whether every column in a tree is one of the table `qualifier`, or, if not `own`, one of other
/// tables.
pub open spec fn columns_fit(t: Syntax, qualifier: Seq<char>, own: bool) -> bool
    decreases t,
{
    match t {
        Syntax::List(s) => forall|i: int|
            0 <= i < s.len() ==> columns_fit(#[trigger] s[i], qualifier, own),
        Syntax::Record(f) => forall|i: int|
            0 <= i < f.len() ==> columns_fit((#[trigger] f[i]).1, qualifier, own),
        Syntax::Expr(b) => column_fits(*b, qualifier, own) && columns_fit(*b, qualifier, own),
        Syntax::Statement(b) => columns_fit(*b, qualifier, own),
        Syntax::Relation(b) => columns_fit(*b, qualifier, own),
        _ => true,
    }
}

fn all_fit(t: &Tree, qualifier: &str, own: bool) -> (r: bool)
    ensures
        r == columns_fit(t@, qualifier@, own),
    decreases t,
{
    match t {
        Tree::List(v) => {
            proof {
                list_view(*v);
            }
            let ghost all = list_of(v@);
            let mut i: usize = 0;
            while i < v.len()
                invariant
                    i <= v@.len(),
                    *t == Tree::List(*v),
                    t@ == Syntax::List(all),
                    all == list_of(v@),
                    forall|j: int|
                        0 <= j < i ==> columns_fit(#[trigger] all[j], qualifier@, own),
                decreases v@.len() - i,
            {
                proof {
                    item_is_smaller(*t, i as int);
                }
                if !all_fit(&v[i], qualifier, own) {
                    assert(!columns_fit(t@->List_0[i as int], qualifier@, own));
                    return false;
                }
                i = i + 1;
            }
            true
        },
        Tree::Record(v) => {
            proof {
                record_view(*v);
            }
            let ghost all = fields_of(v@);
            let mut i: usize = 0;
            while i < v.len()
                invariant
                    i <= v@.len(),
                    *t == Tree::Record(*v),
                    t@ == Syntax::Record(all),
                    all == fields_of(v@),
                    forall|j: int|
                        0 <= j < i ==> columns_fit((#[trigger] all[j]).1, qualifier@, own),
                decreases v@.len() - i,
            {
                proof {
                    field_is_smaller(*t, i as int);
                }
                if !all_fit(&v[i].value, qualifier, own) {
                    assert(!columns_fit(t@->Record_0[i as int].1, qualifier@, own));
                    return false;
                }
                i = i + 1;
            }
            true
        },
        Tree::Expr(b) => fits(b, qualifier, own) && all_fit(b, qualifier, own),
        Tree::Statement(b) => all_fit(b, qualifier, own),
        Tree::Relation(b) => all_fit(b, qualifier, own),
        _ => true,
    }
}

/// Whether `s` names an aggregate function that is NULL without rows; `count` is none of them.
pub open spec fn is_aggregate_name(s: Seq<char>) -> bool {
    let l = lowercased(s);
    l == "sum"@ || l == "avg"@ || l == "min"@ || l == "max"@ || l == "array_agg"@
}

fn names_aggregate(s: &str) -> (r: bool)
    ensures
        r == is_aggregate_name(s@),
{
    let lower = to_lowercase(s);
    let l = lower.as_str();
    same(l, "sum") || same(l, "avg") || same(l, "min") || same(l, "max") || same(l, "array_agg")
}

/// Whether an operator is NULL where one of its sides is.
pub open spec fn is_strict(op: Syntax) -> bool {
    op.is_text("Plus"@) || op.is_text("Minus"@) || op.is_text("Multiply"@) || op.is_text(
        "Divide"@,
    ) || op.is_text("Modulo"@) || op.is_text("StringConcat"@)
}

fn strict(op: &Tree) -> (r: bool)
    ensures
        r == is_strict(op@),
{
    op.is_text("Plus") || op.is_text("Minus") || op.is_text("Multiply") || op.is_text("Divide")
        || op.is_text("Modulo") || op.is_text("StringConcat")
}

/// Whether `e` is made of an aggregate by casts, parentheses and operators, so that it is NULL
/// without rows.
pub open spec fn has_aggregate(e: Syntax) -> bool
    decreases e,
{
    proof {
        payload_is_smaller(e, "Cast"@);
        payload_is_smaller(e, "Nested"@);
        payload_is_smaller(e, "UnaryOp"@);
        payload_is_smaller(e, "BinaryOp"@);
        at_is_smaller(e.payload("Cast"@)->0, "expr"@);
        inner_is_smaller(e.payload("Cast"@)->0.at("expr"@));
        inner_is_smaller(e.payload("Nested"@)->0);
        at_is_smaller(e.payload("UnaryOp"@)->0, "expr"@);
        inner_is_smaller(e.payload("UnaryOp"@)->0.at("expr"@));
        at_is_smaller(e.payload("BinaryOp"@)->0, "left"@);
        inner_is_smaller(e.payload("BinaryOp"@)->0.at("left"@));
        at_is_smaller(e.payload("BinaryOp"@)->0, "right"@);
        inner_is_smaller(e.payload("BinaryOp"@)->0.at("right"@));
    }
    if e.payload("Function"@) is Some {
        let f = e.payload("Function"@)->0;
        match last_part_text(f.at("name"@)) {
            Some(s) => is_aggregate_name(s) && f.at("over"@) == Syntax::Null,
            None => false,
        }
    } else if e.payload("Cast"@) is Some {
        let x = e.payload("Cast"@)->0.at("expr"@);
        x != Syntax::Null && has_aggregate(x.inner())
    } else if e.payload("Nested"@) is Some {
        has_aggregate(e.payload("Nested"@)->0.inner())
    } else if e.payload("UnaryOp"@) is Some {
        let x = e.payload("UnaryOp"@)->0.at("expr"@);
        x != Syntax::Null && has_aggregate(x.inner())
    } else if e.payload("BinaryOp"@) is Some {
        let l = e.payload("BinaryOp"@)->0.at("left"@);
        let r = e.payload("BinaryOp"@)->0.at("right"@);
        is_strict(e.payload("BinaryOp"@)->0.at("op"@)) && (l != Syntax::Null && has_aggregate(
            l.inner(),
        ) || r != Syntax::Null && has_aggregate(r.inner()))
    } else {
        false
    }
}

fn contains_aggregate(e: &Tree) -> (r: bool)
    ensures
        r == has_aggregate(e@),
    decreases e@,
{
    proof {
        payload_is_smaller(e@, "Cast"@);
        payload_is_smaller(e@, "Nested"@);
        payload_is_smaller(e@, "UnaryOp"@);
        payload_is_smaller(e@, "BinaryOp"@);
        at_is_smaller(e@.payload("Cast"@)->0, "expr"@);
        inner_is_smaller(e@.payload("Cast"@)->0.at("expr"@));
        inner_is_smaller(e@.payload("Nested"@)->0);
        at_is_smaller(e@.payload("UnaryOp"@)->0, "expr"@);
        inner_is_smaller(e@.payload("UnaryOp"@)->0.at("expr"@));
        at_is_smaller(e@.payload("BinaryOp"@)->0, "left"@);
        inner_is_smaller(e@.payload("BinaryOp"@)->0.at("left"@));
        at_is_smaller(e@.payload("BinaryOp"@)->0, "right"@);
        inner_is_smaller(e@.payload("BinaryOp"@)->0.at("right"@));
    }
    if let Some(f) = e.payload("Function") {
        return match get_last_part_text(f.at("name")) {
            Some(s) => names_aggregate(s.as_str()) && f.at("over").is_null(),
            None => false,
        };
    }
    if let Some(c) = e.payload("Cast") {
        return !c.at("expr").is_null() && contains_aggregate(c.at("expr").inner());
    }
    if let Some(n) = e.payload("Nested") {
        return contains_aggregate(n.inner());
    }
    if let Some(u) = e.payload("UnaryOp") {
        return !u.at("expr").is_null() && contains_aggregate(u.at("expr").inner());
    }
    if let Some(b) = e.payload("BinaryOp") {
        let left = b.at("left");
        let right = b.at("right");
        return strict(b.at("op")) && ((!left.is_null() && contains_aggregate(left.inner()))
            || (!right.is_null() && contains_aggregate(right.inner())));
    }
    false
}

/// Whether every select item is an aggregate that is NULL without rows.
pub open spec fn selects_aggregates(items: Seq<Syntax>) -> bool {
    &&& items.len() > 0
    &&& forall|i: int|
        0 <= i < items.len() ==> item_expr(#[trigger] items[i]) is Some && has_aggregate(
            item_expr(items[i])->0,
        )
}

fn all_aggregates(projection: &Tree) -> (r: bool)
    ensures
        r == selects_aggregates(projection@.items()),
{
    let n: usize = projection.len();
    let ghost items = projection@.items();
    let mut i: usize = 0;
    while i < n
        invariant
            i <= n,
            n == items.len(),
            items == projection@.items(),
            forall|j: int|
                0 <= j < i ==> item_expr(#[trigger] items[j]) is Some && has_aggregate(
                    item_expr(items[j])->0,
                ),
        decreases n - i,
    {
        let here = match get_item_expr(projection.item(i)) {
            Some(e) => contains_aggregate(e),
            None => false,
        };
        if !here {
            assert(!(item_expr(items[i as int]) is Some && has_aggregate(
                item_expr(items[i as int])->0,
            )));
            return false;
        }
        i = i + 1;
    }
    n > 0
}

/// The key of the inner table and the expression of other tables that it is compared with, in
/// the condition `key = outer` or `outer = key`.
pub open spec fn correlation(selection: Syntax, qualifier: Seq<char>) -> Option<(Syntax, Syntax)> {
    match selection.inner().payload("BinaryOp"@) {
        Some(b) => {
            let left = b.at("left"@).inner();
            let right = b.at("right"@).inner();
            if !b.at("op"@).is_text("Eq"@) {
                None
            } else if is_column_of(left, qualifier) && columns_fit(
                b.at("right"@),
                qualifier,
                false,
            ) {
                Some((left, right))
            } else if columns_fit(b.at("left"@), qualifier, false) && is_column_of(
                right,
                qualifier,
            ) {
                Some((right, left))
            } else {
                None
            }
        },
        None => None,
    }
}

fn get_correlation<'a>(selection: &'a Tree, qualifier: &str) -> (r: Option<(&'a Tree, &'a Tree)>)
    ensures
        match r {
            Some(p) => correlation(selection@, qualifier@) == Some((p.0@, p.1@)),
            None => correlation(selection@, qualifier@) is None,
        },
{
    if let Some(b) = selection.inner().payload("BinaryOp") {
        let left = b.at("left").inner();
        let right = b.at("right").inner();
        if b.at("op").is_text("Eq") {
            if column_of(left, qualifier) && all_fit(b.at("right"), qualifier, false) {
                return Some((left, right));
            }
            if all_fit(b.at("left"), qualifier, false) && column_of(right, qualifier) {
                return Some((right, left));
            }
        }
    }
    None
}

/// What is needed to take a lateral join apart: the key of the inner table, the outer
/// expression that it is compared with, and the name of the derived table.
pub struct Shape {
    pub key: Syntax,
    pub outer: Syntax,
    pub name: Syntax,
}

/// The shape of `LEFT JOIN LATERAL (SELECT aggregates FROM t WHERE t.key = outer) name ON true`,
/// if `join` is that.
pub open spec fn lateral_shape(join: Syntax) -> Option<Shape> {
    match join.at("relation"@).payload("Derived"@) {
        Some(d) => {
            let q = d.at("subquery"@);
            match (q.at("body"@).payload("Select"@), ident_text(d.at("alias"@).at("name"@))) {
                (Some(select), Some(_)) => {
                    let from = select.at("from"@);
                    match table_qualifier(from.item(0).at("relation"@)) {
                        Some(qualifier) => match correlation(
                            select.at("selection"@),
                            qualifier,
                        ) {
                            Some((key, outer)) => if d.at("lateral"@) == Syntax::Bool(true) && d.at(
                                "alias"@,
                            ) != Syntax::Null && d.at("alias"@).at("columns"@).items().len() == 0
                                && is_on_true(join.at("join_operator"@)) && is_body_alone(q)
                                && is_plain_select(select) && from.items().len() == 1
                                && from.item(0).at("joins"@).items().len() == 0
                                && selects_aggregates(select.at("projection"@).items())
                                && columns_fit(select.at("projection"@), qualifier, true) {
                                Some(Shape { key, outer, name: d.at("alias"@).at("name"@) })
                            } else {
                                None
                            },
                            None => None,
                        },
                        None => None,
                    }
                },
                _ => None,
            }
        },
        None => None,
    }
}

// --- taking a join apart ----------------------------------------------------------

/// The number after `n`.
pub open spec fn after(n: u64) -> u64 {
    if n < u64::MAX {
        (n + 1) as u64
    } else {
        n
    }
}

/// The grouped `SELECT` of the key and the aggregates.
pub open spec fn grouped_select(select: Syntax, key: Syntax, alias: Seq<char>) -> Syntax {
    select.with(
        "projection"@,
        Syntax::List(seq![aliased_item(key, alias)] + select.at("projection"@).items()),
    ).with(
        "group_by"@,
        variant(
            "Expressions"@,
            Syntax::List(
                seq![Syntax::List(seq![expr_node(key)]), Syntax::List(Seq::empty())],
            ),
        ),
    ).with("selection"@, Syntax::Null)
}

/// The join operator with the condition `e`.
pub open spec fn with_condition(op: Syntax, e: Syntax) -> Syntax {
    match join_kind(op) {
        Some(kind) => variant(kind, variant("On"@, expr_node(e))),
        None => op,
    }
}

/// A lateral join of the shape above as a join with a grouped subquery, where the key is
/// selected as `__decorr_key_n`; any other join as it is.
pub open spec fn decorrelated(n: u64, join: Syntax) -> (u64, Syntax) {
    match lateral_shape(join) {
        Some(shape) => {
            let d = join.at("relation"@).payload("Derived"@)->0;
            let q = d.at("subquery"@);
            let select = q.at("body"@).payload("Select"@)->0;
            let alias = numbered("__decorr_key_"@, n as nat);
            let grouped = q.with(
                "body"@,
                variant("Select"@, grouped_select(select, shape.key, alias)),
            );
            let condition = binary(
                variant(
                    "CompoundIdentifier"@,
                    Syntax::List(seq![shape.name, ident(alias)]),
                ),
                Syntax::Text("Eq"@),
                operand(shape.outer),
            );
            (
                after(n),
                join.with(
                    "relation"@,
                    variant(
                        "Derived"@,
                        d.with("lateral"@, Syntax::Bool(false)).with("subquery"@, grouped),
                    ),
                ).with("join_operator"@, with_condition(join.at("join_operator"@), condition)),
            )
        },
        None => (n, join),
    }
}

fn is_true(t: &Tree) -> (r: bool)
    ensures
        r == (t@ == Syntax::Bool(true)),
{
    match t {
        Tree::Bool(b) => *b,
        _ => false,
    }
}

/// Takes a lateral join of the shape above apart; leaves any other join alone.
fn decorrelate_join(join: &Tree, counter: &mut u64) -> (r: Tree)
    ensures
        (*final(counter), r@) == decorrelated(*old(counter), join@),
{
    let derived = match join.at("relation").payload("Derived") {
        Some(d) => d,
        None => return join.copy(),
    };
    let q = derived.at("subquery");
    let select = match q.at("body").payload("Select") {
        Some(s) => s,
        None => return join.copy(),
    };
    let name = derived.at("alias").at("name");
    if get_ident_text(name).is_none() {
        return join.copy();
    }
    let from = select.at("from");
    let qualifier = match get_table_qualifier(from.item(0).at("relation")) {
        Some(s) => s,
        None => return join.copy(),
    };
    let (key, outer) = match get_correlation(select.at("selection"), qualifier.as_str()) {
        Some(p) => p,
        None => return join.copy(),
    };
    let op = join.at("join_operator");
    let projection = select.at("projection");
    if !is_true(derived.at("lateral")) || derived.at("alias").is_null() || derived.at("alias").at(
        "columns",
    ).len() != 0 || !on_true(op) || !body_alone(q) || !plain_select(select) || from.len() != 1
        || from.item(0).at("joins").len() != 0 || !all_aggregates(projection) || !all_fit(
        projection,
        qualifier.as_str(),
        true,
    ) {
        return join.copy();
    }
    let alias = numbered_text("__decorr_key_", *counter);
    if *counter < u64::MAX {
        *counter = *counter + 1;
    }
    let mut items = no_items();
    push_item(&mut items, mk_aliased_item(key.copy(), alias.as_str()));
    let ghost first = aliased_item(key@, alias@);
    let n: usize = projection.len();
    let mut i: usize = 0;
    assert(list_of(items@) =~= seq![first] + projection@.items().take(0));
    while i < n
        invariant
            i <= n,
            n == projection@.items().len(),
            list_of(items@) == seq![first] + projection@.items().take(i as int),
        decreases n - i,
    {
        push_item(&mut items, projection.item(i).copy());
        i = i + 1;
        assert(seq![first] + projection@.items().take(i as int) =~= (seq![first]
            + projection@.items().take(i - 1)).push(projection@.items()[i - 1]));
    }
    assert(projection@.items().take(i as int) =~= projection@.items());
    let groups = Tree::list2(Tree::list1(Tree::expr(key.copy())), Tree::empty_list());
    let grouped = select.with("projection", Tree::list(items)).with(
        "group_by",
        Tree::variant("Expressions", groups),
    ).with("selection", Tree::Null);
    let subquery = q.with("body", Tree::variant("Select", grouped));
    let relation = derived.with("lateral", Tree::Bool(false)).with("subquery", subquery);
    let column = Tree::variant(
        "CompoundIdentifier",
        Tree::list2(name.copy(), mk_ident(alias.as_str())),
    );
    let condition = mk_binary(column, "Eq", mk_operand(outer));
    let operator = match get_join_kind(op) {
        Some(kind) => Tree::variant(kind, Tree::variant("On", Tree::expr(condition))),
        None => op.copy(),
    };
    join.with("relation", Tree::variant("Derived", relation)).with("join_operator", operator)
}

// --- whole queries ---------------------------------------------------------------

/// A node with the lateral joins in the subquery in its field `relation`, if that is a
/// derived table, taken apart.
pub open spec fn relation_decorrelated(n: u64, node: Syntax) -> (u64, Syntax)
    decreases node, 0nat,
{
    proof {
        at_is_smaller(node, "relation"@);
        payload_is_smaller(node.at("relation"@), "Derived"@);
        at_is_smaller(node.at("relation"@).payload("Derived"@)->0, "subquery"@);
    }
    match node.at("relation"@).payload("Derived"@) {
        Some(d) => if node.at("relation"@) == Syntax::Null || d.at("subquery"@) == Syntax::Null {
            (n, node)
        } else {
            let (n1, q) = query_decorrelated(n, d.at("subquery"@));
            (n1, node.with("relation"@, variant("Derived"@, d.with("subquery"@, q))))
        },
        None => (n, node),
    }
}

/// The first `k` joins with their lateral joins taken apart.
pub open spec fn joins_decorrelated(n: u64, s: Seq<Syntax>, k: nat) -> (u64, Seq<Syntax>)
    decreases s, k,
{
    if k == 0 || k > s.len() {
        (n, Seq::empty())
    } else {
        let (n1, done) = joins_decorrelated(n, s, (k - 1) as nat);
        let (n2, walked) = relation_decorrelated(n1, s[k - 1]);
        let (n3, last) = decorrelated(n2, walked);
        (n3, done.push(last))
    }
}

/// A table of a `FROM` clause with its lateral joins taken apart.
pub open spec fn table_decorrelated(n: u64, twj: Syntax) -> (u64, Syntax)
    decreases twj, 1nat,
{
    proof {
        at_is_smaller(twj, "joins"@);
    }
    let (n1, first) = relation_decorrelated(n, twj);
    match twj.at("joins"@) {
        Syntax::List(joins) => {
            let (n2, out) = joins_decorrelated(n1, joins, joins.len());
            (n2, first.with("joins"@, Syntax::List(out)))
        },
        _ => (n1, first),
    }
}

/// The first `k` tables of a `FROM` clause with their lateral joins taken apart.
pub open spec fn from_decorrelated(n: u64, s: Seq<Syntax>, k: nat) -> (u64, Seq<Syntax>)
    decreases s, k,
{
    if k == 0 || k > s.len() {
        (n, Seq::empty())
    } else {
        let (n1, done) = from_decorrelated(n, s, (k - 1) as nat);
        let (n2, last) = table_decorrelated(n1, s[k - 1]);
        (n2, done.push(last))
    }
}

/// The body of a query with its lateral joins taken apart.
pub open spec fn body_decorrelated(n: u64, se: Syntax) -> (u64, Syntax)
    decreases se, 0nat,
{
    proof {
        payload_is_smaller(se, "Select"@);
        payload_is_smaller(se, "Query"@);
        payload_is_smaller(se, "SetOperation"@);
        at_is_smaller(se.payload("Select"@)->0, "from"@);
        at_is_smaller(se.payload("SetOperation"@)->0, "left"@);
        at_is_smaller(se.payload("SetOperation"@)->0, "right"@);
    }
    match se.payload("Select"@) {
        Some(select) => match select.at("from"@) {
            Syntax::List(from) => {
                let (n1, out) = from_decorrelated(n, from, from.len());
                (n1, variant("Select"@, select.with("from"@, Syntax::List(out))))
            },
            _ => (n, se),
        },
        None => match se.payload("Query"@) {
            Some(q) => {
                let (n1, out) = query_decorrelated(n, q);
                (n1, variant("Query"@, out))
            },
            None => match se.payload("SetOperation"@) {
                Some(op) => if op.at("left"@) == Syntax::Null || op.at("right"@) == Syntax::Null {
                    (n, se)
                } else {
                    let (n1, left) = body_decorrelated(n, op.at("left"@));
                    let (n2, right) = body_decorrelated(n1, op.at("right"@));
                    (
                        n2,
                        variant(
                            "SetOperation"@,
                            op.with("left"@, left).with("right"@, right),
                        ),
                    )
                },
                None => (n, se),
            },
        },
    }
}

/// The first `k` common table expressions with their lateral joins taken apart.
pub open spec fn ctes_decorrelated(n: u64, s: Seq<Syntax>, k: nat) -> (u64, Seq<Syntax>)
    decreases s, k,
{
    if k == 0 || k > s.len() {
        (n, Seq::empty())
    } else {
        let (n1, done) = ctes_decorrelated(n, s, (k - 1) as nat);
        let (n2, last) = cte_decorrelated(n1, s[k - 1]);
        (n2, done.push(last))
    }
}

/// A common table expression with its lateral joins taken apart.
pub open spec fn cte_decorrelated(n: u64, cte: Syntax) -> (u64, Syntax)
    decreases cte, 0nat,
{
    proof {
        at_is_smaller(cte, "query"@);
    }
    if cte.at("query"@) == Syntax::Null {
        (n, cte)
    } else {
        let (n1, q) = query_decorrelated(n, cte.at("query"@));
        (n1, cte.with("query"@, q))
    }
}

/// A query with its lateral joins taken apart.
pub open spec fn query_decorrelated(n: u64, q: Syntax) -> (u64, Syntax)
    decreases q, 0nat,
{
    proof {
        at_is_smaller(q, "with"@);
        at_is_smaller(q.at("with"@), "cte_tables"@);
        at_is_smaller(q, "body"@);
    }
    let with = q.at("with"@);
    let (n1, q1) = match with.at("cte_tables"@) {
        Syntax::List(ctes) => if with == Syntax::Null {
            (n, q)
        } else {
            let (n1, out) = ctes_decorrelated(n, ctes, ctes.len());
            (n1, q.with("with"@, with.with("cte_tables"@, Syntax::List(out))))
        },
        _ => (n, q),
    };
    if q.at("body"@) == Syntax::Null {
        (n1, q1)
    } else {
        let (n2, body) = body_decorrelated(n1, q.at("body"@));
        (n2, q1.with("body"@, body))
    }
}

/// A statement with its lateral joins taken apart, if it is a query.
pub open spec fn statement_decorrelated(n: u64, t: Syntax) -> (u64, Syntax) {
    match t {
        Syntax::Statement(s) => match s.payload("Query"@) {
            Some(q) => {
                let (n1, out) = query_decorrelated(n, q);
                (n1, Syntax::Statement(Box::new(variant("Query"@, out))))
            },
            None => (n, t),
        },
        _ => (n, t),
    }
}

/// The first `k` statements with their lateral joins taken apart.
pub open spec fn statements_decorrelated(n: u64, s: Seq<Syntax>, k: nat) -> (u64, Seq<Syntax>)
    decreases k,
{
    if k == 0 || k > s.len() {
        (n, Seq::empty())
    } else {
        let (n1, done) = statements_decorrelated(n, s, (k - 1) as nat);
        let (n2, last) = statement_decorrelated(n1, s[k - 1]);
        (n2, done.push(last))
    }
}

fn decorrelate_relation(node: &Tree, counter: &mut u64) -> (r: Tree)
    ensures
        (*final(counter), r@) == relation_decorrelated(*old(counter), node@),
    decreases node@, 0nat,
{
    proof {
        at_is_smaller(node@, "relation"@);
        payload_is_smaller(node@.at("relation"@), "Derived"@);
        at_is_smaller(node@.at("relation"@).payload("Derived"@)->0, "subquery"@);
    }
    let relation = node.at("relation");
    if let Some(d) = relation.payload("Derived") {
        let subquery = d.at("subquery");
        if !relation.is_null() && !subquery.is_null() {
            let q = decorrelate_query(subquery, counter);
            return node.with("relation", Tree::variant("Derived", d.with("subquery", q)));
        }
    }
    node.copy()
}

fn decorrelate_table(twj: &Tree, counter: &mut u64) -> (r: Tree)
    ensures
        (*final(counter), r@) == table_decorrelated(*old(counter), twj@),
    decreases twj@, 1nat,
{
    proof {
        at_is_smaller(twj@, "joins"@);
    }
    let first = decorrelate_relation(twj, counter);
    match twj.at("joins") {
        Tree::List(joins) => {
            let ghost s = list_of(joins@);
            let ghost n1 = *counter;
            proof {
                list_view(*joins);
                list_field_is_smaller(twj@, "joins"@);
                assert(twj@.at("joins"@) == Syntax::List(s));
            }
            let mut out = no_items();
            let mut i: usize = 0;
            while i < joins.len()
                invariant
                    i <= joins@.len(),
                    s == list_of(joins@),
                    decreases_to!(twj@ => s),
                    (*counter, list_of(out@)) == joins_decorrelated(n1, s, i as nat),
                decreases joins@.len() - i,
            {
                assert(decreases_to!(s => s[i as int]));
                let walked = decorrelate_relation(&joins[i], counter);
                push_item(&mut out, decorrelate_join(&walked, counter));
                i = i + 1;
            }
            first.with("joins", Tree::list(out))
        },
        _ => first,
    }
}

fn decorrelate_body(se: &Tree, counter: &mut u64) -> (r: Tree)
    ensures
        (*final(counter), r@) == body_decorrelated(*old(counter), se@),
    decreases se@, 0nat,
{
    proof {
        payload_is_smaller(se@, "Select"@);
        payload_is_smaller(se@, "Query"@);
        payload_is_smaller(se@, "SetOperation"@);
        at_is_smaller(se@.payload("Select"@)->0, "from"@);
        at_is_smaller(se@.payload("SetOperation"@)->0, "left"@);
        at_is_smaller(se@.payload("SetOperation"@)->0, "right"@);
    }
    if let Some(select) = se.payload("Select") {
        return match select.at("from") {
            Tree::List(from) => {
                let ghost s = list_of(from@);
                let ghost n = *counter;
                proof {
                    list_view(*from);
                    list_field_is_smaller(select@, "from"@);
                    assert(select@.at("from"@) == Syntax::List(s));
                    assert(decreases_to!(se@ => select@));
                }
                let mut out = no_items();
                let mut i: usize = 0;
                while i < from.len()
                    invariant
                        i <= from@.len(),
                        s == list_of(from@),
                        decreases_to!(se@ => s),
                        (*counter, list_of(out@)) == from_decorrelated(n, s, i as nat),
                    decreases from@.len() - i,
                {
                    assert(decreases_to!(s => s[i as int]));
                    push_item(&mut out, decorrelate_table(&from[i], counter));
                    i = i + 1;
                }
                Tree::variant("Select", select.with("from", Tree::list(out)))
            },
            _ => se.copy(),
        };
    }
    if let Some(q) = se.payload("Query") {
        return Tree::variant("Query", decorrelate_query(q, counter));
    }
    if let Some(op) = se.payload("SetOperation") {
        let left = op.at("left");
        let right = op.at("right");
        if left.is_null() || right.is_null() {
            return se.copy();
        }
        let changed = op.with("left", decorrelate_body(left, counter));
        return Tree::variant(
            "SetOperation",
            changed.with("right", decorrelate_body(right, counter)),
        );
    }
    se.copy()
}

fn decorrelate_cte(cte: &Tree, counter: &mut u64) -> (r: Tree)
    ensures
        (*final(counter), r@) == cte_decorrelated(*old(counter), cte@),
    decreases cte@, 0nat,
{
    proof {
        at_is_smaller(cte@, "query"@);
    }
    let query = cte.at("query");
    if query.is_null() {
        cte.copy()
    } else {
        cte.with("query", decorrelate_query(query, counter))
    }
}

fn decorrelate_query(q: &Tree, counter: &mut u64) -> (r: Tree)
    ensures
        (*final(counter), r@) == query_decorrelated(*old(counter), q@),
    decreases q@, 0nat,
{
    proof {
        at_is_smaller(q@, "with"@);
        at_is_smaller(q@.at("with"@), "cte_tables"@);
        at_is_smaller(q@, "body"@);
    }
    let with = q.at("with");
    let ghost n = *counter;
    let ctes = match with.at("cte_tables") {
        Tree::List(ctes) => {
            let ghost s = list_of(ctes@);
            proof {
                list_view(*ctes);
                list_field_is_smaller(with@, "cte_tables"@);
                assert(with@.at("cte_tables"@) == Syntax::List(s));
                assert(decreases_to!(q@ => with@));
            }
            let mut out = no_items();
            let mut i: usize = 0;
            while i < ctes.len()
                invariant
                    i <= ctes@.len(),
                    s == list_of(ctes@),
                    decreases_to!(q@ => s),
                    (*counter, list_of(out@)) == ctes_decorrelated(n, s, i as nat),
                decreases ctes@.len() - i,
            {
                assert(decreases_to!(s => s[i as int]));
                push_item(&mut out, decorrelate_cte(&ctes[i], counter));
                i = i + 1;
            }
            q.with("with", with.with("cte_tables", Tree::list(out)))
        },
        _ => q.copy(),
    };
    let body = q.at("body");
    if body.is_null() {
        ctes
    } else {
        ctes.with("body", decorrelate_body(body, counter))
    }
}

/// The statements with their lateral joins taken apart.
pub open spec fn lateral_decorrelated(t: Syntax) -> Syntax {
    Syntax::List(statements_decorrelated(0, t.items(), t.items().len()).1)
}

/// Takes the lateral joins of the statements that are queries apart.
pub fn decorrelate_statements(t: &Tree) -> (r: Tree)
    ensures
        r@ == lateral_decorrelated(t@),
{
    let n: usize = t.len();
    let mut counter: u64 = 0;
    let mut out = no_items();
    let mut i: usize = 0;
    while i < n
        invariant
            i <= n,
            n == t@.items().len(),
            (counter, list_of(out@)) == statements_decorrelated(0, t@.items(), i as nat),
        decreases n - i,
    {
        let statement = t.item(i);
        let item = match statement {
            Tree::Statement(b) => match b.payload("Query") {
                Some(q) => Tree::Statement(
                    Box::new(Tree::variant("Query", decorrelate_query(q, &mut counter))),
                ),
                None => statement.copy(),
            },
            _ => statement.copy(),
        };
        push_item(&mut out, item);
        i = i + 1;
    }
    Tree::list(out)
}

/// The text with its lateral joins taken apart.
pub open spec fn lateral_text(sql: Seq<char>) -> Result<Seq<char>, SqlFault> {
    match statements_of(SqlDialect::Postgres, sql) {
        Ok(t) => printed(lateral_decorrelated(t), "; "@),
        Err(e) => Err(e),
    }
}

/// `LEFT JOIN LATERAL (SELECT aggregates FROM t WHERE t.key = outer) name ON true` becomes
/// `LEFT JOIN (SELECT t.key AS k, aggregates FROM t GROUP BY t.key) name ON name.k = outer`,
/// which is the same join and can be planned: where no row of `t` matches, both have NULL in
/// every column. Any other join is left alone, one with `count` among the aggregates too.
pub fn decorrelate_lateral_aggregate(sql: &str) -> (r: Result<String, SqlError>)
    ensures
        outcome(r) == lateral_text(sql@),
{
    match parse(SqlDialect::Postgres, sql) {
        Ok(t) => print(&decorrelate_statements(&t), "; "),
        Err(e) => Err(e),
    }
}

} // verus!
