//! `GROUP BY` and the columns in `= ANY(..)`.
use super::parse::{expr_string, parse, print, print_expr, printed, statements_of, SqlDialect};
use super::tree::{
    at_is_smaller, expr_node, field_is_smaller, fields_of, item_is_smaller, list_of, list_view,
    no_items, payload_is_smaller, push_item, record_view, variant, Syntax, Tree,
};
use super::walk::{nodes_walked, start, start_view, walk_nodes, Pass, Progress, ProgressView, Rule};
use crate::text::{contains, lowercased, to_lowercase, views};
use vstd::prelude::*;

verus! {

/// The column that an expression is, if it is one, be it in parentheses or cast.
pub open spec fn column_of(e: Syntax) -> Option<Syntax>
    decreases e,
{
    proof {
        payload_is_smaller(e, "Nested"@);
        payload_is_smaller(e, "Cast"@);
        if e.payload("Cast"@) is Some {
            at_is_smaller(e.payload("Cast"@)->0, "expr"@);
        }
    }
    if e.payload("Identifier"@) is Some || e.payload("CompoundIdentifier"@) is Some {
        Some(e)
    } else {
        match e.payload("Nested"@) {
            Some(Syntax::Expr(x)) => column_of(*x),
            _ => match e.payload("Cast"@) {
                Some(c) => match c.at("expr"@) {
                    Syntax::Expr(x) => column_of(*x),
                    _ => None,
                },
                None => None,
            },
        }
    }
}

fn get_column(e: &Tree) -> (r: Option<&Tree>)
    ensures
        match r {
            Some(t) => column_of(e@) == Some(t@),
            None => column_of(e@) is None,
        },
    decreases e@,
{
    proof {
        payload_is_smaller(e@, "Nested"@);
        payload_is_smaller(e@, "Cast"@);
        if e@.payload("Cast"@) is Some {
            at_is_smaller(e@.payload("Cast"@)->0, "expr"@);
        }
    }
    if e.payload("Identifier").is_some() || e.payload("CompoundIdentifier").is_some() {
        return Some(e);
    }
    if let Some(n) = e.payload("Nested") {
        if let Tree::Expr(x) = n {
            return get_column(x);
        }
    }
    if let Some(c) = e.payload("Cast") {
        if let Tree::Expr(x) = c.at("expr") {
            return get_column(x);
        }
    }
    None
}

/// What an expression compares with `ANY(..)`, by an operator or by `LIKE`.
pub open spec fn any_argument(e: Syntax) -> Option<Syntax> {
    match (e.payload("AnyOp"@), e.payload("Like"@), e.payload("ILike"@)) {
        (Some(a), _, _) => if a.at("is_some"@) == Syntax::Bool(true) {
            None
        } else {
            Some(a.at("right"@).inner())
        },
        (_, Some(l), _) => if l.at("any"@) == Syntax::Bool(true) {
            Some(l.at("pattern"@).inner())
        } else {
            None
        },
        (_, _, Some(l)) => if l.at("any"@) == Syntax::Bool(true) {
            Some(l.at("pattern"@).inner())
        } else {
            None
        },
        _ => None,
    }
}

fn is_true(t: &Tree) -> (r: bool)
    ensures
        r == (t@ == Syntax::Bool(true)),
{
    match t {
        Tree::Bool(b) => *b,
        _ => false,
    }
}

fn get_any_argument(e: &Tree) -> (r: Option<&Tree>)
    ensures
        match r {
            Some(t) => any_argument(e@) == Some(t@),
            None => any_argument(e@) is None,
        },
{
    if let Some(a) = e.payload("AnyOp") {
        if is_true(a.at("is_some")) {
            return None;
        }
        return Some(a.at("right").inner());
    }
    if let Some(l) = e.payload("Like") {
        if is_true(l.at("any")) {
            return Some(l.at("pattern").inner());
        }
        return None;
    }
    if let Some(l) = e.payload("ILike") {
        if is_true(l.at("any")) {
            return Some(l.at("pattern").inner());
        }
    }
    None
}

/// The column in the `ANY(..)` of an expression, as a list of at most one. A literal, a call and
/// a subquery are no columns to group by.
pub open spec fn any_column(e: Syntax) -> Seq<Syntax> {
    match any_argument(e) {
        Some(a) => match column_of(a) {
            Some(c) => seq![c],
            None => Seq::empty(),
        },
        None => Seq::empty(),
    }
}

/// The columns in every `ANY(..)` in a tree, outside of subqueries.
pub open spec fn any_columns(t: Syntax) -> Seq<Syntax>
    decreases t, 0nat,
{
    match t {
        Syntax::List(s) => columns_of_items(s, s.len()),
        Syntax::Record(f) => if t.payload("Subquery"@) is Some || t.payload("Exists"@) is Some
            || t.payload("InSubquery"@) is Some {
            Seq::empty()
        } else {
            any_column(t) + columns_of_fields(f, f.len())
        },
        Syntax::Expr(b) => any_columns(*b),
        Syntax::Statement(b) => any_columns(*b),
        Syntax::Relation(b) => any_columns(*b),
        _ => Seq::empty(),
    }
}

/// The columns in every `ANY(..)` in the first `n` items of a list.
pub open spec fn columns_of_items(s: Seq<Syntax>, n: nat) -> Seq<Syntax>
    decreases s, n,
{
    if n == 0 || n > s.len() {
        Seq::empty()
    } else {
        columns_of_items(s, (n - 1) as nat) + any_columns(s[n - 1])
    }
}

/// The columns in every `ANY(..)` in the first `n` fields of a record.
pub open spec fn columns_of_fields(f: Seq<(Seq<char>, Syntax)>, n: nat) -> Seq<Syntax>
    decreases f, n,
{
    if n == 0 || n > f.len() {
        Seq::empty()
    } else {
        columns_of_fields(f, (n - 1) as nat) + any_columns(f[n - 1].1)
    }
}

fn push_any_columns(t: &Tree, out: &mut Vec<Tree>)
    ensures
        list_of(final(out)@) == list_of(old(out)@) + any_columns(t@),
    decreases t,
{
    let ghost start = list_of(out@);
    match t {
        Tree::List(v) => {
            proof {
                list_view(*v);
            }
            let ghost all = list_of(v@);
            let mut i: usize = 0;
            assert(list_of(out@) =~= start + columns_of_items(all, 0));
            while i < v.len()
                invariant
                    i <= v@.len(),
                    *t == Tree::List(*v),
                    all == list_of(v@),
                    list_of(out@) == start + columns_of_items(all, i as nat),
                decreases v@.len() - i,
            {
                proof {
                    item_is_smaller(*t, i as int);
                }
                push_any_columns(&v[i], out);
                i = i + 1;
                assert(all[i - 1] == v@[i - 1]@);
                assert(list_of(out@) =~= start + columns_of_items(all, i as nat));
            }
        },
        Tree::Record(v) => {
            proof {
                record_view(*v);
            }
            let ghost all = fields_of(v@);
            if t.payload("Subquery").is_some() || t.payload("Exists").is_some() || t.payload(
                "InSubquery",
            ).is_some() {
                assert(list_of(out@) =~= start + any_columns(t@));
                return ;
            }
            let ghost own = any_column(t@);
            if let Some(a) = get_any_argument(t) {
                if let Some(c) = get_column(a) {
                    push_item(out, c.copy());
                }
            }
            assert(list_of(out@) =~= start + own + columns_of_fields(all, 0));
            let mut i: usize = 0;
            while i < v.len()
                invariant
                    i <= v@.len(),
                    *t == Tree::Record(*v),
                    all == fields_of(v@),
                    list_of(out@) == start + own + columns_of_fields(all, i as nat),
                decreases v@.len() - i,
            {
                proof {
                    field_is_smaller(*t, i as int);
                }
                push_any_columns(&v[i].value, out);
                i = i + 1;
                assert(all[i - 1].1 == v@[i - 1].value@);
                assert(list_of(out@) =~= start + own + columns_of_fields(all, i as nat));
            }
            assert(list_of(out@) =~= start + any_columns(t@));
        },
        Tree::Expr(b) => push_any_columns(b, out),
        Tree::Statement(b) => push_any_columns(b, out),
        Tree::Relation(b) => push_any_columns(b, out),
        _ => {
            assert(list_of(out@) =~= start + any_columns(t@));
        },
    }
}

/// The text of an expression in small letters, by which it is known in a `GROUP BY`.
pub open spec fn group_key(e: Syntax) -> Seq<char> {
    match expr_string(e) {
        Some(s) => lowercased(s),
        None => Seq::empty(),
    }
}

/// The texts of the expressions of a `GROUP BY`.
pub open spec fn group_keys(s: Seq<Syntax>) -> Seq<Seq<char>> {
    Seq::new(s.len(), |i: int| group_key(s[i].inner()))
}

fn get_group_keys(exprs: &Tree) -> (r: Vec<String>)
    ensures
        views(r@) == group_keys(exprs@.items()),
{
    let n: usize = exprs.len();
    let ghost goal = group_keys(exprs@.items());
    let mut out: Vec<String> = Vec::new();
    let mut i: usize = 0;
    assert(views(out@) =~= goal.take(0));
    while i < n
        invariant
            i <= n,
            n == exprs@.items().len(),
            goal == group_keys(exprs@.items()),
            views(out@) == goal.take(i as int),
        decreases n - i,
    {
        let key = match print_expr(exprs.item(i).inner()) {
            Some(s) => to_lowercase(s.as_str()),
            None => String::new(),
        };
        let ghost before = views(out@);
        assert(key@ =~= goal[i as int]);
        out.push(key);
        assert(views(out@) =~= before.push(key@));
        i = i + 1;
        assert(goal.take(i as int) =~= goal.take(i - 1).push(goal[i - 1]));
    }
    assert(goal.take(i as int) =~= goal);
    out
}

/// What is known while a `GROUP BY` grows: the texts of its expressions, and the columns
/// that were added.
pub struct Grouping {
    pub seen: Seq<Seq<char>>,
    pub added: Seq<Syntax>,
}

/// The grouping after the first `n` of the columns `cols` were added where they were missing.
pub open spec fn grouped_columns(keys: Seq<Seq<char>>, cols: Seq<Syntax>, n: nat) -> Grouping
    decreases n,
{
    if n == 0 {
        Grouping { seen: keys, added: Seq::empty() }
    } else {
        let g = grouped_columns(keys, cols, (n - 1) as nat);
        let key = group_key(cols[n - 1]);
        if g.seen.contains(key) {
            g
        } else {
            Grouping { seen: g.seen.push(key), added: g.added.push(expr_node(cols[n - 1])) }
        }
    }
}

fn missing_columns(keys: Vec<String>, items: &Tree) -> (r: Vec<Tree>)
    ensures
        list_of(r@) == grouped_columns(
            views(keys@),
            any_columns(items@),
            any_columns(items@).len(),
        ).added,
{
    let mut cols = no_items();
    push_any_columns(items, &mut cols);
    assert(list_of(cols@) =~= any_columns(items@));
    let ghost s = any_columns(items@);
    let ghost keys0 = views(keys@);
    let mut seen = keys;
    let mut out = no_items();
    let mut i: usize = 0;
    while i < cols.len()
        invariant
            i <= cols@.len(),
            s == list_of(cols@),
            views(seen@) == grouped_columns(keys0, s, i as nat).seen,
            list_of(out@) == grouped_columns(keys0, s, i as nat).added,
        decreases cols@.len() - i,
    {
        let key = match print_expr(&cols[i]) {
            Some(text) => to_lowercase(text.as_str()),
            None => String::new(),
        };
        assert(s[i as int] == cols@[i as int]@);
        assert(key@ =~= group_key(s[i as int]));
        if !contains(&seen, key.as_str()) {
            push_item(&mut out, Tree::expr(cols[i].copy()));
            let ghost before = views(seen@);
            seen.push(key);
            assert(views(seen@) =~= before.push(key@));
        }
        i = i + 1;
    }
    out
}

/// A query with the columns in `ANY(..)` of its select items in its `GROUP BY`, and whether
/// that changes it. A query without a `GROUP BY` stays as it is.
pub open spec fn any_grouped(q: Syntax) -> Option<Syntax> {
    match q.at("body"@).payload("Select"@) {
        Some(select) => match select.at("group_by"@).payload("Expressions"@) {
            Some(g) => {
                let exprs = g.item(0).items();
                let cols = any_columns(select.at("projection"@));
                let added = grouped_columns(group_keys(exprs), cols, cols.len()).added;
                if exprs.len() == 0 || added.len() == 0 {
                    None
                } else {
                    Some(
                        q.with(
                            "body"@,
                            variant(
                                "Select"@,
                                select.with(
                                    "group_by"@,
                                    variant(
                                        "Expressions"@,
                                        Syntax::List(seq![Syntax::List(exprs + added), g.item(1)]),
                                    ),
                                ),
                            ),
                        ),
                    )
                }
            },
            None => None,
        },
        None => None,
    }
}

fn group_any(q: &Tree) -> (r: Option<Tree>)
    ensures
        match r {
            Some(t) => any_grouped(q@) == Some(t@),
            None => any_grouped(q@) is None,
        },
{
    if let Some(select) = q.at("body").payload("Select") {
        if let Some(g) = select.at("group_by").payload("Expressions") {
            if g.len() < 1 {
                return None;
            }
            let exprs = g.item(0);
            let n: usize = exprs.len();
            if n == 0 {
                return None;
            }
            let added = missing_columns(get_group_keys(exprs), select.at("projection"));
            if added.len() == 0 {
                return None;
            }
            let ghost all = exprs@.items() + list_of(added@);
            let mut out = no_items();
            let mut i: usize = 0;
            while i < n
                invariant
                    i <= n,
                    n == exprs@.items().len(),
                    all == exprs@.items() + list_of(added@),
                    list_of(out@) == all.take(i as int),
                decreases n - i,
            {
                push_item(&mut out, exprs.item(i).copy());
                i = i + 1;
                assert(all.take(i as int) =~= all.take(i - 1).push(all[i - 1]));
            }
            let mut j: usize = 0;
            while j < added.len()
                invariant
                    j <= added@.len(),
                    n == exprs@.items().len(),
                    all == exprs@.items() + list_of(added@),
                    list_of(out@) == all.take(n + j),
                decreases added@.len() - j,
            {
                push_item(&mut out, added[j].copy());
                j = j + 1;
                assert(all[n + j - 1] == added@[j - 1]@);
                assert(all.take(n + j) =~= all.take(n + j - 1).push(all[n + j - 1]));
            }
            assert(all.take(n + j) =~= all);
            let modifiers = if g.len() > 1 {
                g.item(1).copy()
            } else {
                Tree::Null
            };
            let group_by = Tree::variant(
                "Expressions",
                Tree::list2(Tree::list(out), modifiers),
            );
            let body = Tree::variant("Select", select.with("group_by", group_by));
            return Some(q.with("body", body));
        }
    }
    None
}

/// A query statement with the columns in `ANY(..)` in its `GROUP BY`; any other node as it
/// is.
pub open spec fn any_grouped_statement(st: ProgressView, t: Syntax) -> (ProgressView, Syntax) {
    match t {
        Syntax::Statement(s) => match s.payload("Query"@) {
            Some(q) => match any_grouped(q) {
                Some(out) => (st.mark(), Syntax::Statement(Box::new(variant("Query"@, out)))),
                None => (st, t),
            },
            None => (st, t),
        },
        _ => (st, t),
    }
}

/// [`any_grouped_statement`] as a rule.
pub open spec fn any_rule() -> Rule {
    |st: ProgressView, t: Syntax| any_grouped_statement(st, t)
}

/// The columns in `ANY(..)` are grouped by.
pub struct GroupAny;

impl Pass for GroupAny {
    open spec fn rule(&self) -> Rule {
        any_rule()
    }

    fn apply(&self, st: &mut Progress, e: Tree) -> (r: Tree) {
        if let Tree::Statement(s) = &e {
            if let Some(q) = s.payload("Query") {
                if let Some(out) = group_any(q) {
                    st.mark();
                    return Tree::Statement(Box::new(Tree::variant("Query", out)));
                }
            }
        }
        e
    }
}

/// The text with the columns in `ANY(..)` in its `GROUP BY` clauses; the text itself if that
/// changes nothing, or if it cannot be parsed or printed.
pub open spec fn any_grouped_text(sql: Seq<char>) -> Seq<char> {
    match statements_of(SqlDialect::Postgres, sql) {
        Ok(t) => {
            let (st, out) = nodes_walked(any_rule(), start_view(), t);
            if !st.changed {
                sql
            } else {
                match printed(out, "; "@) {
                    Ok(s) => s,
                    Err(_) => sql,
                }
            }
        },
        Err(_) => sql,
    }
}

/// Adds the columns that the select items of a query refer to in `= ANY(..)` to its
/// `GROUP BY` clause. A query that has none, or that needs none of them, is handed back as
/// it is, and so is a text that is no SQL.
pub fn rewrite_group_by_for_any(sql: &str) -> (r: String)
    ensures
        r@ == any_grouped_text(sql@),
{
    match parse(SqlDialect::Postgres, sql) {
        Ok(t) => {
            let mut st = start();
            let out = walk_nodes(&GroupAny, &mut st, &t);
            if !st.changed {
                return sql.to_owned();
            }
            match print(&out, "; ") {
                Ok(s) => s,
                Err(_) => sql.to_owned(),
            }
        },
        Err(_) => sql.to_owned(),
    }
}

/// A query without a `GROUP BY` never gains one.
pub proof fn ungrouped_queries_stay(q: Syntax)
    requires
        match q.at("body"@).payload("Select"@) {
            Some(select) => match select.at("group_by"@).payload("Expressions"@) {
                Some(g) => g.item(0).items().len() == 0,
                None => true,
            },
            None => true,
        },
    ensures
        any_grouped(q) is None,
{
}

/// A column that is grouped by already is not added, and none is added twice.
pub proof fn columns_are_added_once(keys: Seq<Seq<char>>, cols: Seq<Syntax>, n: nat)
    requires
        keys.no_duplicates(),
        n <= cols.len(),
    ensures
        grouped_columns(keys, cols, n).seen.no_duplicates(),
        grouped_columns(keys, cols, n).seen.len() == keys.len() + grouped_columns(
            keys,
            cols,
            n,
        ).added.len(),
        keys.is_prefix_of(grouped_columns(keys, cols, n).seen),
    decreases n,
{
    if n > 0 {
        columns_are_added_once(keys, cols, (n - 1) as nat);
        let g = grouped_columns(keys, cols, (n - 1) as nat);
        let h = grouped_columns(keys, cols, n);
        if h.seen != g.seen {
            let key = h.seen.last();
            assert(h.seen =~= g.seen.push(key));
            assert(!g.seen.contains(key));
            assert forall|i: int, j: int|
                0 <= i < j < h.seen.len() implies h.seen[i] != h.seen[j] by {
                if j == g.seen.len() {
                    assert(g.seen.contains(g.seen[i]));
                }
            }
        }
    }
}

/// Every column in an `ANY(..)` of the select items ends up among the expressions grouped by.
pub proof fn any_columns_are_grouped_by(keys: Seq<Seq<char>>, cols: Seq<Syntax>, n: nat, i: int)
    requires
        0 <= i < n <= cols.len(),
    ensures
        grouped_columns(keys, cols, n).seen.contains(group_key(cols[i])),
    decreases n,
{
    let g = grouped_columns(keys, cols, (n - 1) as nat);
    let h = grouped_columns(keys, cols, n);
    if i < n - 1 {
        any_columns_are_grouped_by(keys, cols, (n - 1) as nat, i);
        let k = choose|k: int| 0 <= k < g.seen.len() && g.seen[k] == group_key(cols[i]);
        assert(h.seen[k] == g.seen[k]);
    } else if !g.seen.contains(group_key(cols[i])) {
        assert(h.seen[g.seen.len() as int] == group_key(cols[i]));
    }
}

} // verus!
