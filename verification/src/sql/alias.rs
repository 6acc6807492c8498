//! Table aliases, written with `AS`.
use super::tree::{
    at_is_smaller, list_field_is_smaller, list_of, list_view, no_items, payload_is_smaller,
    push_item, variant, Syntax, Tree,
};
use vstd::prelude::*;

verus! {

/// An alias, if there is one, with `AS`.
pub open spec fn explicit_alias(alias: Syntax) -> Syntax {
    alias.with("explicit"@, Syntax::Bool(true))
}

/// A table factor with `AS` before its alias and before the aliases inside it.
pub open spec fn explicit_factor(tf: Syntax) -> Syntax
    decreases tf,
{
    proof {
        payload_is_smaller(tf, "Derived"@);
        payload_is_smaller(tf, "NestedJoin"@);
        at_is_smaller(tf.payload("Derived"@)->0, "subquery"@);
        at_is_smaller(tf.payload("NestedJoin"@)->0, "table_with_joins"@);
    }
    match tf.payload("Table"@) {
        Some(t) => variant("Table"@, t.with("alias"@, explicit_alias(t.at("alias"@)))),
        None => match tf.payload("Derived"@) {
            Some(t) => if t.at("subquery"@) == Syntax::Null {
                tf
            } else {
                variant(
                    "Derived"@,
                    t.with("subquery"@, explicit_query(t.at("subquery"@))).with(
                        "alias"@,
                        explicit_alias(t.at("alias"@)),
                    ),
                )
            },
            None => match tf.payload("NestedJoin"@) {
                Some(t) => if t.at("table_with_joins"@) == Syntax::Null {
                    tf
                } else {
                    variant(
                        "NestedJoin"@,
                        t.with(
                            "table_with_joins"@,
                            explicit_joins(t.at("table_with_joins"@)),
                        ).with("alias"@, explicit_alias(t.at("alias"@))),
                    )
                },
                None => tf,
            },
        },
    }
}

/// A node with `AS` before the aliases of the table factor in its field
/// `relation`.
pub open spec fn explicit_relation(node: Syntax) -> Syntax
    decreases node,
{
    proof {
        at_is_smaller(node, "relation"@);
    }
    if node.at("relation"@) == Syntax::Null {
        node
    } else {
        node.with("relation"@, explicit_factor(node.at("relation"@)))
    }
}

/// Joins with `AS` before their aliases.
pub open spec fn explicit_join_list(s: Seq<Syntax>) -> Seq<Syntax>
    decreases s,
{
    Seq::new(
        s.len(),
        |i: int|
            if 0 <= i < s.len() {
                explicit_relation(s[i])
            } else {
                Syntax::Null
            },
    )
}

/// A table factor and its joins with `AS` before their aliases.
pub open spec fn explicit_joins(twj: Syntax) -> Syntax
    decreases twj,
{
    proof {
        at_is_smaller(twj, "relation"@);
        at_is_smaller(twj, "joins"@);
    }
    match twj.at("joins"@) {
        Syntax::List(joins) => {
            let first = if twj.at("relation"@) == Syntax::Null {
                twj
            } else {
                twj.with("relation"@, explicit_factor(twj.at("relation"@)))
            };
            first.with("joins"@, Syntax::List(explicit_join_list(joins)))
        },
        _ => twj,
    }
}

/// The tables of a `FROM` clause with `AS` before their aliases.
pub open spec fn explicit_from(s: Seq<Syntax>) -> Seq<Syntax>
    decreases s,
{
    Seq::new(
        s.len(),
        |i: int|
            if 0 <= i < s.len() {
                explicit_joins(s[i])
            } else {
                Syntax::Null
            },
    )
}

/// The body of a query with `AS` before the aliases in its `FROM` clauses.
pub open spec fn explicit_body(se: Syntax) -> Syntax
    decreases se,
{
    proof {
        payload_is_smaller(se, "Select"@);
        payload_is_smaller(se, "Query"@);
        payload_is_smaller(se, "SetOperation"@);
        at_is_smaller(se.payload("Select"@)->0, "from"@);
        at_is_smaller(se.payload("SetOperation"@)->0, "left"@);
        at_is_smaller(se.payload("SetOperation"@)->0, "right"@);
    }
    match se.payload("Select"@) {
        Some(select) => match select.at("from"@) {
            Syntax::List(from) => variant(
                "Select"@,
                select.with("from"@, Syntax::List(explicit_from(from))),
            ),
            _ => se,
        },
        None => match se.payload("Query"@) {
            Some(q) => variant("Query"@, explicit_query(q)),
            None => match se.payload("SetOperation"@) {
                Some(op) => if op.at("left"@) == Syntax::Null || op.at("right"@) == Syntax::Null {
                    se
                } else {
                    variant(
                        "SetOperation"@,
                        op.with("left"@, explicit_body(op.at("left"@))).with(
                            "right"@,
                            explicit_body(op.at("right"@)),
                        ),
                    )
                },
                None => se,
            },
        },
    }
}

/// Common table expressions with `AS` before the aliases in their queries; their
/// own names are left alone.
pub open spec fn explicit_ctes(s: Seq<Syntax>) -> Seq<Syntax>
    decreases s,
{
    Seq::new(
        s.len(),
        |i: int|
            if 0 <= i < s.len() {
                explicit_cte(s[i])
            } else {
                Syntax::Null
            },
    )
}

/// A common table expression with `AS` before the aliases in its query.
pub open spec fn explicit_cte(cte: Syntax) -> Syntax
    decreases cte,
{
    proof {
        at_is_smaller(cte, "query"@);
    }
    if cte.at("query"@) == Syntax::Null {
        cte
    } else {
        cte.with("query"@, explicit_query(cte.at("query"@)))
    }
}

/// A query with `AS` before the aliases in its `FROM` clauses.
pub open spec fn explicit_query(q: Syntax) -> Syntax
    decreases q,
{
    proof {
        at_is_smaller(q, "with"@);
        at_is_smaller(q.at("with"@), "cte_tables"@);
        at_is_smaller(q, "body"@);
    }
    let with = q.at("with"@);
    let ctes = match with.at("cte_tables"@) {
        Syntax::List(ctes) => if with == Syntax::Null {
            q
        } else {
            q.with("with"@, with.with("cte_tables"@, Syntax::List(explicit_ctes(ctes))))
        },
        _ => q,
    };
    if q.at("body"@) == Syntax::Null {
        ctes
    } else {
        ctes.with("body"@, explicit_body(q.at("body"@)))
    }
}

/// A statement with `AS` before the aliases in its `FROM` clauses, if it is a
/// query.
pub open spec fn explicit_statement(t: Syntax) -> Syntax {
    match t {
        Syntax::Statement(s) => match s.payload("Query"@) {
            Some(q) => Syntax::Statement(Box::new(variant("Query"@, explicit_query(q)))),
            None => t,
        },
        _ => t,
    }
}

/// The statements with `AS` before every alias of a `FROM` clause.
pub open spec fn explicit_aliases(t: Syntax) -> Syntax {
    match t {
        Syntax::List(s) => Syntax::List(
            Seq::new(s.len(), |i: int| explicit_statement(s[i])),
        ),
        _ => t,
    }
}

// --- the same, on trees ------------------------------------------------------

fn force_alias(alias: &Tree) -> (r: Tree)
    ensures
        r@ == explicit_alias(alias@),
{
    alias.with("explicit", Tree::Bool(true))
}

fn force_factor(tf: &Tree) -> (r: Tree)
    ensures
        r@ == explicit_factor(tf@),
    decreases tf@,
{
    proof {
        payload_is_smaller(tf@, "Derived"@);
        payload_is_smaller(tf@, "NestedJoin"@);
        at_is_smaller(tf@.payload("Derived"@)->0, "subquery"@);
        at_is_smaller(tf@.payload("NestedJoin"@)->0, "table_with_joins"@);
    }
    if let Some(t) = tf.payload("Table") {
        return Tree::variant("Table", t.with("alias", force_alias(t.at("alias"))));
    }
    if let Some(t) = tf.payload("Derived") {
        let subquery = t.at("subquery");
        if subquery.is_null() {
            return tf.copy();
        }
        let changed = t.with("subquery", force_query(subquery));
        return Tree::variant("Derived", changed.with("alias", force_alias(t.at("alias"))));
    }
    if let Some(t) = tf.payload("NestedJoin") {
        let joins = t.at("table_with_joins");
        if joins.is_null() {
            return tf.copy();
        }
        let changed = t.with("table_with_joins", force_joins(joins));
        return Tree::variant("NestedJoin", changed.with("alias", force_alias(t.at("alias"))));
    }
    tf.copy()
}

fn force_relation(node: &Tree) -> (r: Tree)
    ensures
        r@ == explicit_relation(node@),
    decreases node@,
{
    proof {
        at_is_smaller(node@, "relation"@);
    }
    let relation = node.at("relation");
    if relation.is_null() {
        node.copy()
    } else {
        node.with("relation", force_factor(relation))
    }
}

fn force_joins(twj: &Tree) -> (r: Tree)
    ensures
        r@ == explicit_joins(twj@),
    decreases twj@,
{
    proof {
        at_is_smaller(twj@, "relation"@);
        at_is_smaller(twj@, "joins"@);
    }
    let relation = twj.at("relation");
    match twj.at("joins") {
        Tree::List(joins) => {
            let first = if relation.is_null() {
                twj.copy()
            } else {
                twj.with("relation", force_factor(relation))
            };
            let ghost s = list_of(joins@);
            proof {
                list_view(*joins);
                list_field_is_smaller(twj@, "joins"@);
                assert(twj@.at("joins"@) == Syntax::List(s));
            }
            let mut out = no_items();
            let mut i: usize = 0;
            while i < joins.len()
                invariant
                    i <= joins@.len(),
                    s == list_of(joins@),
                    decreases_to!(twj@ => s),
                    list_of(out@) == explicit_join_list(s).take(i as int),
                decreases joins@.len() - i,
            {
                assert(decreases_to!(s => s[i as int]));
                let item = force_relation(&joins[i]);
                push_item(&mut out, item);
                i = i + 1;
                assert(explicit_join_list(s).take(i as int) =~= explicit_join_list(s).take(
                    i - 1,
                ).push(item@));
            }
            assert(explicit_join_list(s).take(i as int) =~= explicit_join_list(s));
            first.with("joins", Tree::list(out))
        },
        _ => twj.copy(),
    }
}

fn force_body(se: &Tree) -> (r: Tree)
    ensures
        r@ == explicit_body(se@),
    decreases se@,
{
    proof {
        payload_is_smaller(se@, "Select"@);
        payload_is_smaller(se@, "Query"@);
        payload_is_smaller(se@, "SetOperation"@);
        at_is_smaller(se@.payload("Select"@)->0, "from"@);
        at_is_smaller(se@.payload("SetOperation"@)->0, "left"@);
        at_is_smaller(se@.payload("SetOperation"@)->0, "right"@);
    }
    if let Some(select) = se.payload("Select") {
        return match select.at("from") {
            Tree::List(from) => {
                let ghost s = list_of(from@);
                proof {
                    list_view(*from);
                    list_field_is_smaller(select@, "from"@);
                    assert(select@.at("from"@) == Syntax::List(s));
                    assert(decreases_to!(se@ => select@));
                }
                let mut out = no_items();
                let mut i: usize = 0;
                while i < from.len()
                    invariant
                        i <= from@.len(),
                        s == list_of(from@),
                        decreases_to!(se@ => s),
                        list_of(out@) == explicit_from(s).take(i as int),
                    decreases from@.len() - i,
                {
                    assert(decreases_to!(s => s[i as int]));
                    let item = force_joins(&from[i]);
                    push_item(&mut out, item);
                    i = i + 1;
                    assert(explicit_from(s).take(i as int) =~= explicit_from(s).take(i - 1).push(
                        item@,
                    ));
                }
                assert(explicit_from(s).take(i as int) =~= explicit_from(s));
                Tree::variant("Select", select.with("from", Tree::list(out)))
            },
            _ => se.copy(),
        };
    }
    if let Some(q) = se.payload("Query") {
        return Tree::variant("Query", force_query(q));
    }
    if let Some(op) = se.payload("SetOperation") {
        let left = op.at("left");
        let right = op.at("right");
        if left.is_null() || right.is_null() {
            return se.copy();
        }
        let changed = op.with("left", force_body(left));
        return Tree::variant("SetOperation", changed.with("right", force_body(right)));
    }
    se.copy()
}

fn force_cte(cte: &Tree) -> (r: Tree)
    ensures
        r@ == explicit_cte(cte@),
    decreases cte@,
{
    proof {
        at_is_smaller(cte@, "query"@);
    }
    let query = cte.at("query");
    if query.is_null() {
        cte.copy()
    } else {
        cte.with("query", force_query(query))
    }
}

fn force_query(q: &Tree) -> (r: Tree)
    ensures
        r@ == explicit_query(q@),
    decreases q@,
{
    proof {
        at_is_smaller(q@, "with"@);
        at_is_smaller(q@.at("with"@), "cte_tables"@);
        at_is_smaller(q@, "body"@);
    }
    let with = q.at("with");
    let ctes = match with.at("cte_tables") {
        Tree::List(ctes) => {
            let ghost s = list_of(ctes@);
            proof {
                list_view(*ctes);
                list_field_is_smaller(with@, "cte_tables"@);
                assert(with@.at("cte_tables"@) == Syntax::List(s));
                assert(decreases_to!(q@ => with@));
            }
            let mut out = no_items();
            let mut i: usize = 0;
            while i < ctes.len()
                invariant
                    i <= ctes@.len(),
                    s == list_of(ctes@),
                    decreases_to!(q@ => s),
                    list_of(out@) == explicit_ctes(s).take(i as int),
                decreases ctes@.len() - i,
            {
                assert(decreases_to!(s => s[i as int]));
                let item = force_cte(&ctes[i]);
                push_item(&mut out, item);
                i = i + 1;
                assert(explicit_ctes(s).take(i as int) =~= explicit_ctes(s).take(i - 1).push(
                    item@,
                ));
            }
            assert(explicit_ctes(s).take(i as int) =~= explicit_ctes(s));
            q.with("with", with.with("cte_tables", Tree::list(out)))
        },
        _ => q.copy(),
    };
    let body = q.at("body");
    if body.is_null() {
        ctes
    } else {
        ctes.with("body", force_body(body))
    }
}

/// The statements with `AS` before every alias of a `FROM` clause.
pub fn force_explicit_aliases(t: &Tree) -> (r: Tree)
    ensures
        r@ == explicit_aliases(t@),
{
    match t {
        Tree::List(v) => {
            let ghost s = list_of(v@);
            let ghost goal = Seq::new(s.len(), |i: int| explicit_statement(s[i]));
            proof {
                list_view(*v);
            }
            let mut out = no_items();
            let mut i: usize = 0;
            while i < v.len()
                invariant
                    i <= v@.len(),
                    s == list_of(v@),
                    goal == Seq::new(s.len(), |i: int| explicit_statement(s[i])),
                    list_of(out@) == goal.take(i as int),
                decreases v@.len() - i,
            {
                let item = match &v[i] {
                    Tree::Statement(b) => match b.payload("Query") {
                        Some(q) => Tree::Statement(
                            Box::new(Tree::variant("Query", force_query(q))),
                        ),
                        None => v[i].copy(),
                    },
                    _ => v[i].copy(),
                };
                push_item(&mut out, item);
                i = i + 1;
                assert(item@ == explicit_statement(s[i - 1]));
                assert(goal.take(i as int) =~= goal.take(i - 1).push(item@));
            }
            assert(goal.take(i as int) =~= goal);
            Tree::list(out)
        },
        _ => t.copy(),
    }
}

} // verus!
