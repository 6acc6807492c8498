//! The names of the columns that a query puts out.
use super::ast::{
    aliased_item, custom_type, get_custom_type, get_ident_text, get_item_expr, get_last_part_text,
    ident_text, item_expr, label, labelled_item, last_part_text, mk_aliased_item, mk_label,
    mk_labelled_item,
};
use super::clauses::{output_column_name, output_name};
use super::parse::{
    name_string, outcome, parse, print, print_name, print_type, printed, statements_of, type_string,
    SqlDialect, SqlError, SqlFault,
};
use super::tree::{
    at_is_smaller, list_field_is_smaller, list_of, list_view, no_items, payload_is_smaller,
    push_item, variant, Syntax, Tree,
};
use super::walk::{nodes_walked, start, start_view, walk_nodes, Pass, Progress, ProgressView, Rule};
use crate::text::{
    contains, decimal, decimal_text, find_pair, lowercased, numbered, numbered_text, paired_with,
    pairs_of, same, to_lowercase, views,
};
use vstd::prelude::*;

verus! {

// --- fresh names for the columns of a query ----------------------------------------------

/// Whether an expression is `*` or `table.*`.
pub open spec fn is_star(e: Syntax) -> bool {
    e.payload("Wildcard"@) is Some || e.payload("QualifiedWildcard"@) is Some
}

/// The name of a column that is a cast to the type `ty`.
pub open spec fn cast_title(ty: Syntax) -> Option<Seq<char>> {
    if ty.is_text("Regclass"@) {
        Some("regclass"@)
    } else if custom_type(ty) is Some && custom_type(ty)->0.items().len() == 1 {
        Some(
            match last_part_text(custom_type(ty)->0) {
                Some(s) => s,
                None => "?column?"@,
            },
        )
    } else {
        match type_string(ty) {
            Some(s) => Some(lowercased(s)),
            None => None,
        }
    }
}

fn get_cast_title(ty: &Tree) -> (r: Option<String>)
    ensures
        match r {
            Some(s) => cast_title(ty@) == Some(s@),
            None => cast_title(ty@) is None,
        },
{
    if ty.is_text("Regclass") {
        return Some("regclass".to_owned());
    }
    if let Some(obj) = get_custom_type(ty) {
        if obj.len() == 1 {
            return match get_last_part_text(obj) {
                Some(s) => Some(s.clone()),
                None => Some("?column?".to_owned()),
            };
        }
    }
    match print_type(ty) {
        Some(s) => Some(to_lowercase(s.as_str())),
        None => None,
    }
}

/// The name of a column that is the expression `e`: the type of a cast, the function of a
/// call, the name of a column, and `?column?` for anything else. `None` if the type or the
/// function cannot be printed.
pub open spec fn title(e: Syntax) -> Option<Seq<char>> {
    if let Some(c) = e.payload("Cast"@) {
        cast_title(c.at("data_type"@))
    } else if let Some(f) = e.payload("Function"@) {
        name_string(f.at("name"@))
    } else if let Some(parts) = e.payload("CompoundIdentifier"@) {
        Some(
            match ident_text(parts.item(parts.items().len() - 1)) {
                Some(s) => s,
                None => "?column?"@,
            },
        )
    } else if let Some(id) = e.payload("Identifier"@) {
        Some(
            match ident_text(id) {
                Some(s) => s,
                None => "?column?"@,
            },
        )
    } else {
        Some("?column?"@)
    }
}

fn text_or_unnamed(s: Option<&String>) -> (r: String)
    ensures
        r@ == match s {
            Some(x) => x@,
            None => "?column?"@,
        },
{
    match s {
        Some(x) => x.clone(),
        None => "?column?".to_owned(),
    }
}

fn get_title(e: &Tree) -> (r: Option<String>)
    ensures
        match r {
            Some(s) => title(e@) == Some(s@),
            None => title(e@) is None,
        },
{
    if let Some(c) = e.payload("Cast") {
        return get_cast_title(c.at("data_type"));
    }
    if let Some(f) = e.payload("Function") {
        return print_name(f.at("name"));
    }
    if let Some(parts) = e.payload("CompoundIdentifier") {
        let n: usize = parts.len();
        if n > 0 {
            return Some(text_or_unnamed(get_ident_text(parts.item(n - 1))));
        }
        return Some(text_or_unnamed(get_ident_text(&Tree::Null)));
    }
    if let Some(id) = e.payload("Identifier") {
        return Some(text_or_unnamed(get_ident_text(id)));
    }
    Some("?column?".to_owned())
}

/// The progress that has noted the alias of a select item, as it is and in lower case, if it
/// has one.
pub open spec fn noted_item(st: ProgressView, item: Syntax) -> ProgressView {
    match item.payload("ExprWithAlias"@) {
        Some(a) => match ident_text(a.at("alias"@)) {
            Some(alias) => st.record(alias, alias).record(lowercased(alias), alias),
            None => st,
        },
        None => st,
    }
}

/// The progress that has noted the aliases of the first `n` select items.
pub open spec fn noted_items(st: ProgressView, s: Seq<Syntax>, n: nat) -> ProgressView
    decreases n,
{
    if n == 0 {
        st
    } else {
        noted_item(noted_items(st, s, (n - 1) as nat), s[n - 1])
    }
}

fn note_items(st: &mut Progress, items: &Tree)
    ensures
        final(st)@ == noted_items(old(st)@, items@.items(), items@.items().len()),
{
    let n: usize = items.len();
    let ghost s = items@.items();
    let ghost st0 = st@;
    let mut i: usize = 0;
    while i < n
        invariant
            i <= n,
            n == s.len(),
            s == items@.items(),
            st@ == noted_items(st0, s, i as nat),
        decreases n - i,
    {
        if let Some(a) = items.item(i).payload("ExprWithAlias") {
            if let Some(alias) = get_ident_text(a.at("alias")) {
                st.record(alias.clone(), alias.clone());
                st.record(to_lowercase(alias.as_str()), alias.clone());
            }
        }
        i = i + 1;
    }
}

/// The progress that has noted the aliases of a query's body: of a `SELECT`, of both sides of a
/// set operation, or of a query in parentheses.
pub open spec fn noted_body(st: ProgressView, e: Syntax) -> ProgressView
    decreases e,
{
    proof {
        payload_is_smaller(e, "SetOperation"@);
        at_is_smaller(e.payload("SetOperation"@)->0, "left"@);
        at_is_smaller(e.payload("SetOperation"@)->0, "right"@);
        payload_is_smaller(e, "Query"@);
        at_is_smaller(e.payload("Query"@)->0, "body"@);
    }
    if let Some(select) = e.payload("Select"@) {
        let s = select.at("projection"@).items();
        noted_items(st, s, s.len())
    } else if let Some(op) = e.payload("SetOperation"@) {
        if op.at("left"@) == Syntax::Null || op.at("right"@) == Syntax::Null {
            st
        } else {
            noted_body(noted_body(st, op.at("left"@)), op.at("right"@))
        }
    } else if let Some(q) = e.payload("Query"@) {
        if q.at("body"@) == Syntax::Null {
            st
        } else {
            noted_body(st, q.at("body"@))
        }
    } else {
        st
    }
}

fn note_body(st: &mut Progress, e: &Tree)
    ensures
        final(st)@ == noted_body(old(st)@, e@),
    decreases e@,
{
    proof {
        payload_is_smaller(e@, "SetOperation"@);
        at_is_smaller(e@.payload("SetOperation"@)->0, "left"@);
        at_is_smaller(e@.payload("SetOperation"@)->0, "right"@);
        payload_is_smaller(e@, "Query"@);
        at_is_smaller(e@.payload("Query"@)->0, "body"@);
    }
    if let Some(select) = e.payload("Select") {
        note_items(st, select.at("projection"));
    } else if let Some(op) = e.payload("SetOperation") {
        let left = op.at("left");
        let right = op.at("right");
        if !left.is_null() && !right.is_null() {
            note_body(st, left);
            note_body(st, right);
        }
    } else if let Some(q) = e.payload("Query") {
        if !q.at("body").is_null() {
            note_body(st, q.at("body"));
        }
    }
}

/// The aliases of query statements are noted; nothing is rewritten.
pub open spec fn note_rule() -> Rule {
    |st: ProgressView, t: Syntax|
        match t {
            Syntax::Statement(s) => match s.payload("Query"@) {
                Some(q) => (noted_body(st, q.at("body"@)), t),
                None => (st, t),
            },
            _ => (st, t),
        }
}

/// The aliases of queries are noted.
pub struct NotedAliases;

impl Pass for NotedAliases {
    open spec fn rule(&self) -> Rule {
        note_rule()
    }

    fn apply(&self, st: &mut Progress, e: Tree) -> (r: Tree) {
        if let Tree::Statement(s) = &e {
            if let Some(q) = s.payload("Query") {
                note_body(st, q.at("body"));
            }
        }
        e
    }
}

/// The names that the queries of a text give their columns themselves.
pub open spec fn taken_names(t: Syntax) -> Seq<(Seq<char>, Seq<char>)> {
    nodes_walked(note_rule(), start_view(), t).0.names
}

/// The first number after `count` whose fresh name is not taken.
pub open spec fn next_free(taken: Seq<(Seq<char>, Seq<char>)>, count: u64) -> u64
    decreases u64::MAX - count,
{
    if count == u64::MAX {
        count
    } else {
        let n = (count + 1) as u64;
        if paired_with(taken, numbered("alias_"@, n as nat)) is None {
            n
        } else {
            next_free(taken, n)
        }
    }
}

fn find_next_free(taken: &Vec<(String, String)>, count: u64) -> (r: u64)
    ensures
        r == next_free(pairs_of(taken@), count),
{
    let mut n: u64 = count;
    while n < u64::MAX
        invariant
            next_free(pairs_of(taken@), count) == next_free(pairs_of(taken@), n),
        decreases u64::MAX - n,
    {
        n = n + 1;
        if find_pair(taken, numbered_text("alias_", n).as_str()).is_none() {
            return n;
        }
    }
    n
}

/// A select item under a fresh name, if it has none.
pub open spec fn fresh_item(
    taken: Seq<(Seq<char>, Seq<char>)>,
    st: ProgressView,
    item: Syntax,
) -> (ProgressView, Syntax) {
    match item.payload("UnnamedExpr"@) {
        Some(e) => if is_star(e.inner()) {
            (st, item)
        } else {
            let st1 = st.advance(next_free(taken, st.count));
            let alias = numbered("alias_"@, st1.count as nat);
            match title(e.inner()) {
                Some(name) => (st1.record(alias, name), aliased_item(e.inner(), alias)),
                None => (st1.give_up("unprintable"@), item),
            }
        },
        None => (st, item),
    }
}

fn mk_fresh_item(taken: &Vec<(String, String)>, st: &mut Progress, item: &Tree) -> (r: Tree)
    ensures
        (final(st)@, r@) == fresh_item(pairs_of(taken@), old(st)@, item@),
{
    if let Some(e) = item.payload("UnnamedExpr") {
        let e = e.inner();
        if e.payload("Wildcard").is_none() && e.payload("QualifiedWildcard").is_none() {
            let n: u64 = find_next_free(taken, st.count);
            st.advance(n);
            let alias = numbered_text("alias_", st.count);
            match get_title(e) {
                Some(name) => {
                    let fresh = mk_aliased_item(e.copy(), alias.as_str());
                    st.record(alias, name);
                    return fresh;
                },
                None => st.give_up("unprintable"),
            }
        }
    }
    item.copy()
}

/// The first `n` select items under fresh names.
pub open spec fn fresh_items(
    taken: Seq<(Seq<char>, Seq<char>)>,
    st: ProgressView,
    s: Seq<Syntax>,
    n: nat,
) -> (ProgressView, Seq<Syntax>)
    decreases n,
{
    if n == 0 {
        (st, Seq::empty())
    } else {
        let (st1, done) = fresh_items(taken, st, s, (n - 1) as nat);
        let (st2, item) = fresh_item(taken, st1, s[n - 1]);
        (st2, done.push(item))
    }
}

fn alias_projection(taken: &Vec<(String, String)>, st: &mut Progress, items: &Tree) -> (r: Tree)
    ensures
        ({
            let s = items@.items();
            let (st1, out) = fresh_items(pairs_of(taken@), old(st)@, s, s.len());
            final(st)@ == st1 && r@ == Syntax::List(out)
        }),
{
    let n: usize = items.len();
    let ghost s = items@.items();
    let ghost st0 = st@;
    let mut out = no_items();
    let mut i: usize = 0;
    while i < n
        invariant
            i <= n,
            n == s.len(),
            s == items@.items(),
            (st@, list_of(out@)) == fresh_items(pairs_of(taken@), st0, s, i as nat),
        decreases n - i,
    {
        let item = mk_fresh_item(taken, st, items.item(i));
        push_item(&mut out, item);
        i = i + 1;
    }
    Tree::list(out)
}

/// The body of a query with fresh names for its columns: of a `SELECT`, or of both sides of
/// a set operation. Subqueries keep their names, since the query around them uses these.
pub open spec fn fresh_body(
    taken: Seq<(Seq<char>, Seq<char>)>,
    st: ProgressView,
    e: Syntax,
) -> (ProgressView, Syntax)
    decreases e,
{
    proof {
        payload_is_smaller(e, "SetOperation"@);
        at_is_smaller(e.payload("SetOperation"@)->0, "left"@);
        at_is_smaller(e.payload("SetOperation"@)->0, "right"@);
    }
    match e.payload("Select"@) {
        Some(select) => {
            let s = select.at("projection"@).items();
            let (st1, out) = fresh_items(taken, st, s, s.len());
            (st1, variant("Select"@, select.with("projection"@, Syntax::List(out))))
        },
        None => match e.payload("SetOperation"@) {
            Some(op) => if op.at("left"@) == Syntax::Null || op.at("right"@) == Syntax::Null {
                (st, e)
            } else {
                let (st1, left) = fresh_body(taken, st, op.at("left"@));
                let (st2, right) = fresh_body(taken, st1, op.at("right"@));
                (st2, variant("SetOperation"@, op.with("left"@, left).with("right"@, right)))
            },
            None => (st, e),
        },
    }
}

fn alias_columns(taken: &Vec<(String, String)>, st: &mut Progress, e: &Tree) -> (r: Tree)
    ensures
        (final(st)@, r@) == fresh_body(pairs_of(taken@), old(st)@, e@),
    decreases e@,
{
    proof {
        payload_is_smaller(e@, "SetOperation"@);
        at_is_smaller(e@.payload("SetOperation"@)->0, "left"@);
        at_is_smaller(e@.payload("SetOperation"@)->0, "right"@);
    }
    if let Some(select) = e.payload("Select") {
        let items = alias_projection(taken, st, select.at("projection"));
        return Tree::variant("Select", select.with("projection", items));
    }
    if let Some(op) = e.payload("SetOperation") {
        let left = op.at("left");
        let right = op.at("right");
        if left.is_null() || right.is_null() {
            return e.copy();
        }
        let l = alias_columns(taken, st, left);
        let r = alias_columns(taken, st, right);
        return Tree::variant("SetOperation", op.with("left", l).with("right", r));
    }
    e.copy()
}

/// A query statement with fresh names for its columns; any other node as it is.
pub open spec fn fresh_statement(
    taken: Seq<(Seq<char>, Seq<char>)>,
    st: ProgressView,
    t: Syntax,
) -> (ProgressView, Syntax) {
    match t {
        Syntax::Statement(s) => match s.payload("Query"@) {
            Some(q) => {
                let (st1, body) = fresh_body(taken, st, q.at("body"@));
                (st1, Syntax::Statement(Box::new(variant("Query"@, q.with("body"@, body)))))
            },
            None => (st, t),
        },
        _ => (st, t),
    }
}

/// [`fresh_statement`] as a rule.
pub open spec fn fresh_rule(taken: Seq<(Seq<char>, Seq<char>)>) -> Rule {
    |st: ProgressView, t: Syntax| fresh_statement(taken, st, t)
}

/// The columns of a query get fresh names, other than those that are taken.
pub struct FreshColumns<'a> {
    pub taken: &'a Vec<(String, String)>,
}

impl<'a> Pass for FreshColumns<'a> {
    open spec fn rule(&self) -> Rule {
        fresh_rule(pairs_of(self.taken@))
    }

    fn apply(&self, st: &mut Progress, e: Tree) -> (r: Tree) {
        if let Tree::Statement(s) = &e {
            if let Some(q) = s.payload("Query") {
                let body = alias_columns(self.taken, st, q.at("body"));
                return Tree::Statement(Box::new(Tree::variant("Query", q.with("body", body))));
            }
        }
        e
    }
}

/// The text with fresh names for its columns, and the names that they stand for.
pub open spec fn fresh_text(sql: Seq<char>) -> Result<
    (Seq<char>, Seq<(Seq<char>, Seq<char>)>),
    SqlFault,
> {
    match statements_of(SqlDialect::Postgres, sql) {
        Ok(t) => {
            let (st, out) = nodes_walked(fresh_rule(taken_names(t)), start_view(), t);
            if st.fault is Some {
                Err(SqlFault::Unprintable)
            } else {
                match printed(out, " "@) {
                    Ok(s) => Ok((s, st.names)),
                    Err(e) => Err(e),
                }
            }
        },
        Err(e) => Err(e),
    }
}

/// Gives each column of a query without a name the fresh name `alias_1`, `alias_2` and so
/// on, other than the names that columns have already, and hands back these with the names
/// that the columns have otherwise, so that two columns of one name can be told apart.
pub fn alias_unnamed_columns(sql: &str) -> (r: Result<(String, Vec<(String, String)>), SqlError>)
    ensures
        match r {
            Ok((s, names)) => fresh_text(sql@) == Ok::<
                (Seq<char>, Seq<(Seq<char>, Seq<char>)>),
                SqlFault,
            >((s@, pairs_of(names@))),
            Err(e) => fresh_text(sql@) == Err::<
                (Seq<char>, Seq<(Seq<char>, Seq<char>)>),
                SqlFault,
            >(e@),
        },
{
    match parse(SqlDialect::Postgres, sql) {
        Ok(t) => {
            let mut noted = start();
            let _ = walk_nodes(&NotedAliases, &mut noted, &t);
            let mut st = start();
            let out = walk_nodes(&FreshColumns { taken: &noted.names }, &mut st, &t);
            if st.fault.is_some() {
                return Err(SqlError::Unprintable);
            }
            match print(&out, " ") {
                Ok(s) => Ok((s, st.names)),
                Err(e) => Err(e),
            }
        },
        Err(e) => Err(e),
    }
}

// --- the names back -------------------------------------------------------------------------

/// A select item under the name that its alias stands for, if it is one of the fresh names. A
/// name that cannot stand without quotes gets them, as `?column?` does.
pub open spec fn restored_item(names: Seq<(Seq<char>, Seq<char>)>, item: Syntax) -> Syntax {
    match item.payload("ExprWithAlias"@) {
        Some(a) => match ident_text(a.at("alias"@)) {
            Some(alias) => match paired_with(names, alias) {
                Some(name) => variant("ExprWithAlias"@, a.with("alias"@, label(name))),
                None => item,
            },
            None => item,
        },
        None => item,
    }
}

/// The select items under the names that their aliases stand for.
pub open spec fn restored_items(names: Seq<(Seq<char>, Seq<char>)>, s: Seq<Syntax>) -> Seq<
    Syntax,
> {
    Seq::new(s.len(), |i: int| restored_item(names, s[i]))
}

fn restore_items(names: &Vec<(String, String)>, items: &Tree) -> (r: Tree)
    ensures
        r@ == Syntax::List(restored_items(pairs_of(names@), items@.items())),
{
    let n: usize = items.len();
    let ghost goal = restored_items(pairs_of(names@), items@.items());
    let mut out = no_items();
    let mut i: usize = 0;
    while i < n
        invariant
            i <= n,
            n == items@.items().len(),
            goal == restored_items(pairs_of(names@), items@.items()),
            list_of(out@) == goal.take(i as int),
        decreases n - i,
    {
        let item = items.item(i);
        let mut restored = item.copy();
        if let Some(a) = item.payload("ExprWithAlias") {
            if let Some(alias) = get_ident_text(a.at("alias")) {
                if let Some(name) = find_pair(names, alias.as_str()) {
                    restored = Tree::variant(
                        "ExprWithAlias",
                        a.with("alias", mk_label(name.as_str())),
                    );
                }
            }
        }
        push_item(&mut out, restored);
        i = i + 1;
        assert(goal.take(i as int) =~= goal.take(i - 1).push(goal[i - 1]));
    }
    assert(goal.take(i as int) =~= goal);
    Tree::list(out)
}

/// The body of a query under the names that its aliases stand for: of a `SELECT`, of both
/// sides of a set operation, or of a query in parentheses.
pub open spec fn restored_body(names: Seq<(Seq<char>, Seq<char>)>, e: Syntax) -> Syntax
    decreases e,
{
    proof {
        payload_is_smaller(e, "SetOperation"@);
        at_is_smaller(e.payload("SetOperation"@)->0, "left"@);
        at_is_smaller(e.payload("SetOperation"@)->0, "right"@);
        payload_is_smaller(e, "Query"@);
        at_is_smaller(e.payload("Query"@)->0, "body"@);
    }
    if let Some(select) = e.payload("Select"@) {
        variant(
            "Select"@,
            select.with(
                "projection"@,
                Syntax::List(restored_items(names, select.at("projection"@).items())),
            ),
        )
    } else if let Some(op) = e.payload("SetOperation"@) {
        if op.at("left"@) == Syntax::Null || op.at("right"@) == Syntax::Null {
            e
        } else {
            variant(
                "SetOperation"@,
                op.with("left"@, restored_body(names, op.at("left"@))).with(
                    "right"@,
                    restored_body(names, op.at("right"@)),
                ),
            )
        }
    } else if let Some(q) = e.payload("Query"@) {
        if q.at("body"@) == Syntax::Null {
            e
        } else {
            variant("Query"@, q.with("body"@, restored_body(names, q.at("body"@))))
        }
    } else {
        e
    }
}

fn restore_body(names: &Vec<(String, String)>, e: &Tree) -> (r: Tree)
    ensures
        r@ == restored_body(pairs_of(names@), e@),
    decreases e@,
{
    proof {
        payload_is_smaller(e@, "SetOperation"@);
        at_is_smaller(e@.payload("SetOperation"@)->0, "left"@);
        at_is_smaller(e@.payload("SetOperation"@)->0, "right"@);
        payload_is_smaller(e@, "Query"@);
        at_is_smaller(e@.payload("Query"@)->0, "body"@);
    }
    if let Some(select) = e.payload("Select") {
        let items = restore_items(names, select.at("projection"));
        return Tree::variant("Select", select.with("projection", items));
    }
    if let Some(op) = e.payload("SetOperation") {
        let left = op.at("left");
        let right = op.at("right");
        if left.is_null() || right.is_null() {
            return e.copy();
        }
        let l = restore_body(names, left);
        let r = restore_body(names, right);
        return Tree::variant("SetOperation", op.with("left", l).with("right", r));
    }
    if let Some(q) = e.payload("Query") {
        let body = q.at("body");
        if body.is_null() {
            return e.copy();
        }
        return Tree::variant("Query", q.with("body", restore_body(names, body)));
    }
    e.copy()
}

/// A query statement under the names that its aliases stand for; any other node as it is.
pub open spec fn restored_statement(names: Seq<(Seq<char>, Seq<char>)>, t: Syntax) -> Syntax {
    match t {
        Syntax::Statement(s) => match s.payload("Query"@) {
            Some(q) => Syntax::Statement(
                Box::new(
                    variant("Query"@, q.with("body"@, restored_body(names, q.at("body"@)))),
                ),
            ),
            None => t,
        },
        _ => t,
    }
}

/// [`restored_statement`] as a rule.
pub open spec fn restore_rule(names: Seq<(Seq<char>, Seq<char>)>) -> Rule {
    |st: ProgressView, t: Syntax| (st, restored_statement(names, t))
}

/// The columns of a query get their names back.
pub struct RestoredColumns<'a> {
    pub names: &'a Vec<(String, String)>,
}

impl<'a> Pass for RestoredColumns<'a> {
    open spec fn rule(&self) -> Rule {
        restore_rule(pairs_of(self.names@))
    }

    fn apply(&self, st: &mut Progress, e: Tree) -> (r: Tree) {
        if let Tree::Statement(s) = &e {
            if let Some(q) = s.payload("Query") {
                let body = restore_body(self.names, q.at("body"));
                return Tree::Statement(Box::new(Tree::variant("Query", q.with("body", body))));
            }
        }
        e
    }
}

/// The text with its nodes rewritten by the rule `f`, a space between the statements.
pub open spec fn spaced_text(f: Rule, sql: Seq<char>) -> Result<Seq<char>, SqlFault> {
    match statements_of(SqlDialect::Postgres, sql) {
        Ok(t) => printed(nodes_walked(f, start_view(), t).1, " "@),
        Err(e) => Err(e),
    }
}

fn rewrite_spaced<P: Pass>(p: &P, sql: &str) -> (r: Result<String, SqlError>)
    ensures
        outcome(r) == spaced_text(p.rule(), sql@),
{
    match parse(SqlDialect::Postgres, sql) {
        Ok(t) => {
            let mut st = start();
            print(&walk_nodes(p, &mut st, &t), " ")
        },
        Err(e) => Err(e),
    }
}

/// Puts the names back that [`alias_unnamed_columns`] replaced: a view keeps the names that
/// its columns have in its query, and its readers should not see the fresh ones.
pub fn restore_aliased_column_names(sql: &str, alias_map: &Vec<(String, String)>) -> (r: Result<
    String,
    SqlError,
>)
    ensures
        outcome(r) == spaced_text(restore_rule(pairs_of(alias_map@)), sql@),
{
    rewrite_spaced(&RestoredColumns { names: alias_map }, sql)
}

// --- columns of one name in subqueries -----------------------------------------------------

/// How many of the first `n` select items are put out under `name`.
pub open spec fn times_put_out(s: Seq<Syntax>, n: nat, name: Seq<char>) -> nat
    decreases n,
{
    if n == 0 {
        0
    } else {
        times_put_out(s, (n - 1) as nat, name) + if output_name(s[n - 1]) == Some(name) {
            1nat
        } else {
            0nat
        }
    }
}

/// The names that the first `n` select items are put out under.
pub open spec fn output_names(s: Seq<Syntax>, n: nat) -> Seq<Seq<char>>
    decreases n,
{
    if n == 0 {
        Seq::empty()
    } else {
        let done = output_names(s, (n - 1) as nat);
        match output_name(s[n - 1]) {
            Some(name) => done.push(name),
            None => done,
        }
    }
}

/// A name with a number behind it.
pub open spec fn name_and_number(name: Seq<char>, k: nat) -> Seq<char> {
    name + "_"@ + decimal(k)
}

/// The first number from `k` on with which the name is not taken.
pub open spec fn free_number(taken: Seq<Seq<char>>, name: Seq<char>, k: u64) -> u64
    decreases u64::MAX - k,
{
    if k == u64::MAX || !taken.contains(name_and_number(name, k as nat)) {
        k
    } else {
        free_number(taken, name, (k + 1) as u64)
    }
}

/// The select item at `i`, where `done` is what was made of those before it. If it is the
/// `k`-th that is put out under `name` and not the first, it gets the name `name_k`, or the
/// first one after it that no other column has.
pub open spec fn told_apart(s: Seq<Syntax>, done: Seq<Syntax>, i: int) -> Syntax {
    match output_name(s[i]) {
        Some(name) => {
            let k = times_put_out(s, (i + 1) as nat, name);
            if k > 1 && item_expr(s[i]) is Some {
                let taken = output_names(s, s.len()) + output_names(done, done.len());
                let n = free_number(taken, name, k as u64);
                labelled_item(item_expr(s[i])->0, name_and_number(name, n as nat))
            } else {
                s[i]
            }
        },
        None => s[i],
    }
}

/// The first `n` select items with no two columns of one name.
pub open spec fn items_told_apart(s: Seq<Syntax>, n: nat) -> Seq<Syntax>
    decreases n,
{
    if n == 0 {
        Seq::empty()
    } else {
        let done = items_told_apart(s, (n - 1) as nat);
        done.push(told_apart(s, done, n - 1))
    }
}

/// The select items with no two columns of one name.
pub open spec fn all_told_apart(s: Seq<Syntax>) -> Seq<Syntax> {
    items_told_apart(s, s.len())
}

fn list_output_names(items: &Tree) -> (r: Vec<String>)
    ensures
        views(r@) == output_names(items@.items(), items@.items().len()),
{
    let n: usize = items.len();
    let mut out: Vec<String> = Vec::new();
    let mut i: usize = 0;
    assert(views(out@) =~= Seq::empty());
    while i < n
        invariant
            i <= n,
            n == items@.items().len(),
            views(out@) == output_names(items@.items(), i as nat),
        decreases n - i,
    {
        let ghost before = views(out@);
        if let Some(name) = output_column_name(items.item(i)) {
            out.push(name.clone());
            assert(views(out@) =~= before.push(name@));
        }
        i = i + 1;
    }
    out
}

fn mk_name_and_number(name: &str, k: u64) -> (r: String)
    ensures
        r@ == name_and_number(name@, k as nat),
{
    let mut out = name.to_owned();
    out.append("_");
    out.append(decimal_text(k).as_str());
    out
}

fn find_free_number(taken: &Vec<String>, name: &str, k: u64) -> (r: u64)
    ensures
        r == free_number(views(taken@), name@, k),
{
    let mut n: u64 = k;
    while n < u64::MAX
        invariant
            free_number(views(taken@), name@, k) == free_number(views(taken@), name@, n),
        decreases u64::MAX - n,
    {
        if !contains(taken, mk_name_and_number(name, n).as_str()) {
            return n;
        }
        n = n + 1;
    }
    n
}

fn count_put_out(items: &Tree, n: usize, name: &str) -> (r: usize)
    requires
        n <= items@.items().len(),
    ensures
        r as nat == times_put_out(items@.items(), n as nat, name@),
        r <= n,
{
    let mut count: usize = 0;
    let mut i: usize = 0;
    while i < n
        invariant
            i <= n,
            n <= items@.items().len(),
            count <= i,
            count as nat == times_put_out(items@.items(), i as nat, name@),
        decreases n - i,
    {
        if let Some(s) = output_column_name(items.item(i)) {
            if same(s.as_str(), name) {
                count = count + 1;
            }
        }
        i = i + 1;
    }
    count
}

fn dedup_projection(items: &Tree) -> (r: Tree)
    ensures
        r@ == Syntax::List(all_told_apart(items@.items())),
{
    let n: usize = items.len();
    let ghost s = items@.items();
    let mut taken = list_output_names(items);
    let ghost own = views(taken@);
    let mut out = no_items();
    let mut i: usize = 0;
    assert(own + Seq::<Seq<char>>::empty() =~= own);
    while i < n
        invariant
            i <= n,
            n == s.len(),
            s == items@.items(),
            own == output_names(s, s.len()),
            list_of(out@) == items_told_apart(s, i as nat),
            list_of(out@).len() == i,
            views(taken@) == own + output_names(list_of(out@), i as nat),
        decreases n - i,
    {
        let item = items.item(i);
        let ghost done = list_of(out@);
        let mut apart = item.copy();
        if let Some(name) = output_column_name(item) {
            let k = count_put_out(items, i + 1, name.as_str());
            if k > 1 {
                if let Some(e) = get_item_expr(item) {
                    let free: u64 = find_free_number(&taken, name.as_str(), k as u64);
                    let alias = mk_name_and_number(name.as_str(), free);
                    apart = mk_labelled_item(e.copy(), alias.as_str());
                }
            }
        }
        assert(apart@ == told_apart(s, done, i as int));
        let ghost before = views(taken@);
        if let Some(name) = output_column_name(&apart) {
            taken.push(name.clone());
            assert(views(taken@) =~= before.push(name@));
        }
        push_item(&mut out, apart);
        proof {
            names_of_more(done, apart@, i as nat);
            let now = done.push(apart@);
            assert(now[i as int] == apart@);
            assert(own + output_names(now, (i + 1) as nat) =~= views(taken@));
        }
        i = i + 1;
    }
    Tree::list(out)
}

proof fn names_of_more(s: Seq<Syntax>, item: Syntax, n: nat)
    requires
        n <= s.len(),
    ensures
        output_names(s.push(item), n) == output_names(s, n),
    decreases n,
{
    if n > 0 {
        names_of_more(s, item, (n - 1) as nat);
        assert(s.push(item)[n - 1] == s[n - 1]);
    }
}

/// A node whose table factor, if it is a subquery, has no two columns of one name.
pub open spec fn apart_relation(node: Syntax) -> Syntax
    decreases node,
{
    proof {
        at_is_smaller(node, "relation"@);
        payload_is_smaller(node.at("relation"@), "Derived"@);
        at_is_smaller(node.at("relation"@).payload("Derived"@)->0, "subquery"@);
    }
    match node.at("relation"@).payload("Derived"@) {
        Some(d) => if d.at("subquery"@) == Syntax::Null {
            node
        } else {
            node.with(
                "relation"@,
                variant("Derived"@, d.with("subquery"@, apart_query(true, d.at("subquery"@)))),
            )
        },
        None => node,
    }
}

/// Joins whose subqueries have no two columns of one name.
pub open spec fn apart_joins(s: Seq<Syntax>) -> Seq<Syntax>
    decreases s,
{
    Seq::new(
        s.len(),
        |i: int|
            if 0 <= i < s.len() {
                apart_relation(s[i])
            } else {
                Syntax::Null
            },
    )
}

/// A table factor and its joins, whose subqueries have no two columns of one name.
pub open spec fn apart_table(twj: Syntax) -> Syntax
    decreases twj,
{
    proof {
        list_field_is_smaller(twj, "joins"@);
        at_is_smaller(twj, "relation"@);
        payload_is_smaller(twj.at("relation"@), "Derived"@);
        at_is_smaller(twj.at("relation"@).payload("Derived"@)->0, "subquery"@);
    }
    let first = match twj.at("relation"@).payload("Derived"@) {
        Some(d) => if d.at("subquery"@) == Syntax::Null {
            twj
        } else {
            twj.with(
                "relation"@,
                variant("Derived"@, d.with("subquery"@, apart_query(true, d.at("subquery"@)))),
            )
        },
        None => twj,
    };
    match twj.at("joins"@) {
        Syntax::List(joins) => first.with("joins"@, Syntax::List(apart_joins(joins))),
        _ => first,
    }
}

/// The items of a `FROM` clause, whose subqueries have no two columns of one name.
pub open spec fn apart_from(s: Seq<Syntax>) -> Seq<Syntax>
    decreases s,
{
    Seq::new(
        s.len(),
        |i: int|
            if 0 <= i < s.len() {
                apart_table(s[i])
            } else {
                Syntax::Null
            },
    )
}

/// The body of a query whose subqueries have no two columns of one name, and that has none
/// itself if it is `inner`.
pub open spec fn apart_body(inner: bool, e: Syntax) -> Syntax
    decreases e,
{
    proof {
        payload_is_smaller(e, "Select"@);
        payload_is_smaller(e, "Query"@);
        payload_is_smaller(e, "SetOperation"@);
        list_field_is_smaller(e.payload("Select"@)->0, "from"@);
        at_is_smaller(e.payload("SetOperation"@)->0, "left"@);
        at_is_smaller(e.payload("SetOperation"@)->0, "right"@);
    }
    if let Some(select) = e.payload("Select"@) {
        let own = if inner {
            select.with(
                "projection"@,
                Syntax::List(all_told_apart(select.at("projection"@).items())),
            )
        } else {
            select
        };
        match select.at("from"@) {
            Syntax::List(from) => variant(
                "Select"@,
                own.with("from"@, Syntax::List(apart_from(from))),
            ),
            _ => variant("Select"@, own),
        }
    } else if let Some(op) = e.payload("SetOperation"@) {
        if op.at("left"@) == Syntax::Null || op.at("right"@) == Syntax::Null {
            e
        } else {
            variant(
                "SetOperation"@,
                op.with("left"@, apart_body(inner, op.at("left"@))).with(
                    "right"@,
                    apart_body(inner, op.at("right"@)),
                ),
            )
        }
    } else if let Some(q) = e.payload("Query"@) {
        variant("Query"@, apart_query(true, q))
    } else {
        e
    }
}

/// A common table expression whose query has no two columns of one name.
pub open spec fn apart_cte(cte: Syntax) -> Syntax
    decreases cte,
{
    proof {
        at_is_smaller(cte, "query"@);
    }
    if cte.at("query"@) == Syntax::Null {
        cte
    } else {
        cte.with("query"@, apart_query(true, cte.at("query"@)))
    }
}

/// Common table expressions whose queries have no two columns of one name.
pub open spec fn apart_ctes(s: Seq<Syntax>) -> Seq<Syntax>
    decreases s,
{
    Seq::new(
        s.len(),
        |i: int|
            if 0 <= i < s.len() {
                apart_cte(s[i])
            } else {
                Syntax::Null
            },
    )
}

/// A query whose subqueries have no two columns of one name, and that has none itself if it
/// is `inner`.
pub open spec fn apart_query(inner: bool, q: Syntax) -> Syntax
    decreases q,
{
    proof {
        at_is_smaller(q, "body"@);
        at_is_smaller(q, "with"@);
        list_field_is_smaller(q.at("with"@), "cte_tables"@);
    }
    let own = if q.at("body"@) == Syntax::Null {
        q
    } else {
        q.with("body"@, apart_body(inner, q.at("body"@)))
    };
    match q.at("with"@).at("cte_tables"@) {
        Syntax::List(ctes) => if q.at("with"@) == Syntax::Null {
            own
        } else {
            own.with(
                "with"@,
                q.at("with"@).with("cte_tables"@, Syntax::List(apart_ctes(ctes))),
            )
        },
        _ => own,
    }
}

fn dedup_relation(node: &Tree) -> (r: Tree)
    ensures
        r@ == apart_relation(node@),
    decreases node@,
{
    proof {
        at_is_smaller(node@, "relation"@);
        payload_is_smaller(node@.at("relation"@), "Derived"@);
        at_is_smaller(node@.at("relation"@).payload("Derived"@)->0, "subquery"@);
    }
    if let Some(d) = node.at("relation").payload("Derived") {
        let q = d.at("subquery");
        if !q.is_null() {
            let derived = Tree::variant("Derived", d.with("subquery", dedup_query(true, q)));
            return node.with("relation", derived);
        }
    }
    node.copy()
}

fn dedup_table(twj: &Tree) -> (r: Tree)
    ensures
        r@ == apart_table(twj@),
    decreases twj@,
{
    proof {
        list_field_is_smaller(twj@, "joins"@);
        at_is_smaller(twj@, "relation"@);
        payload_is_smaller(twj@.at("relation"@), "Derived"@);
        at_is_smaller(twj@.at("relation"@).payload("Derived"@)->0, "subquery"@);
    }
    let mut first = twj.copy();
    if let Some(d) = twj.at("relation").payload("Derived") {
        let q = d.at("subquery");
        if !q.is_null() {
            let derived = Tree::variant("Derived", d.with("subquery", dedup_query(true, q)));
            first = twj.with("relation", derived);
        }
    }
    match twj.at("joins") {
        Tree::List(joins) => {
            let ghost s = list_of(joins@);
            proof {
                list_view(*joins);
                assert(twj@.at("joins"@) == Syntax::List(s));
            }
            let mut out = no_items();
            let mut i: usize = 0;
            while i < joins.len()
                invariant
                    i <= joins@.len(),
                    s == list_of(joins@),
                    decreases_to!(twj@ => s),
                    list_of(out@) == apart_joins(s).take(i as int),
                decreases joins@.len() - i,
            {
                assert(decreases_to!(s => s[i as int]));
                let item = dedup_relation(&joins[i]);
                push_item(&mut out, item);
                i = i + 1;
                assert(apart_joins(s).take(i as int) =~= apart_joins(s).take(i - 1).push(item@));
            }
            assert(apart_joins(s).take(i as int) =~= apart_joins(s));
            first.with("joins", Tree::list(out))
        },
        _ => first,
    }
}

fn dedup_body(inner: bool, e: &Tree) -> (r: Tree)
    ensures
        r@ == apart_body(inner, e@),
    decreases e@,
{
    proof {
        payload_is_smaller(e@, "Select"@);
        payload_is_smaller(e@, "Query"@);
        payload_is_smaller(e@, "SetOperation"@);
        list_field_is_smaller(e@.payload("Select"@)->0, "from"@);
        at_is_smaller(e@.payload("SetOperation"@)->0, "left"@);
        at_is_smaller(e@.payload("SetOperation"@)->0, "right"@);
    }
    if let Some(select) = e.payload("Select") {
        let own = if inner {
            select.with("projection", dedup_projection(select.at("projection")))
        } else {
            select.copy()
        };
        return match select.at("from") {
            Tree::List(from) => {
                let ghost s = list_of(from@);
                proof {
                    list_view(*from);
                    assert(select@.at("from"@) == Syntax::List(s));
                    assert(decreases_to!(e@ => select@));
                }
                let mut out = no_items();
                let mut i: usize = 0;
                while i < from.len()
                    invariant
                        i <= from@.len(),
                        s == list_of(from@),
                        decreases_to!(e@ => s),
                        list_of(out@) == apart_from(s).take(i as int),
                    decreases from@.len() - i,
                {
                    assert(decreases_to!(s => s[i as int]));
                    let item = dedup_table(&from[i]);
                    push_item(&mut out, item);
                    i = i + 1;
                    assert(apart_from(s).take(i as int) =~= apart_from(s).take(i - 1).push(item@));
                }
                assert(apart_from(s).take(i as int) =~= apart_from(s));
                Tree::variant("Select", own.with("from", Tree::list(out)))
            },
            _ => Tree::variant("Select", own),
        };
    }
    if let Some(op) = e.payload("SetOperation") {
        let left = op.at("left");
        let right = op.at("right");
        if left.is_null() || right.is_null() {
            return e.copy();
        }
        let l = dedup_body(inner, left);
        let r = dedup_body(inner, right);
        return Tree::variant("SetOperation", op.with("left", l).with("right", r));
    }
    if let Some(q) = e.payload("Query") {
        return Tree::variant("Query", dedup_query(true, q));
    }
    e.copy()
}

fn dedup_cte(cte: &Tree) -> (r: Tree)
    ensures
        r@ == apart_cte(cte@),
    decreases cte@,
{
    proof {
        at_is_smaller(cte@, "query"@);
    }
    let q = cte.at("query");
    if q.is_null() {
        cte.copy()
    } else {
        cte.with("query", dedup_query(true, q))
    }
}

fn dedup_query(inner: bool, q: &Tree) -> (r: Tree)
    ensures
        r@ == apart_query(inner, q@),
    decreases q@,
{
    proof {
        at_is_smaller(q@, "body"@);
        at_is_smaller(q@, "with"@);
        list_field_is_smaller(q@.at("with"@), "cte_tables"@);
    }
    let body = q.at("body");
    let own = if body.is_null() {
        q.copy()
    } else {
        q.with("body", dedup_body(inner, body))
    };
    let with = q.at("with");
    if with.is_null() {
        return own;
    }
    match with.at("cte_tables") {
        Tree::List(ctes) => {
            let ghost s = list_of(ctes@);
            proof {
                list_view(*ctes);
                assert(with@.at("cte_tables"@) == Syntax::List(s));
                assert(decreases_to!(q@ => with@));
            }
            let mut out = no_items();
            let mut i: usize = 0;
            while i < ctes.len()
                invariant
                    i <= ctes@.len(),
                    s == list_of(ctes@),
                    decreases_to!(q@ => s),
                    list_of(out@) == apart_ctes(s).take(i as int),
                decreases ctes@.len() - i,
            {
                assert(decreases_to!(s => s[i as int]));
                let item = dedup_cte(&ctes[i]);
                push_item(&mut out, item);
                i = i + 1;
                assert(apart_ctes(s).take(i as int) =~= apart_ctes(s).take(i - 1).push(item@));
            }
            assert(apart_ctes(s).take(i as int) =~= apart_ctes(s));
            own.with("with", with.with("cte_tables", Tree::list(out)))
        },
        _ => own,
    }
}

/// A query statement whose subqueries have no two columns of one name; any other node as it
/// is.
pub open spec fn apart_statement(t: Syntax) -> Syntax {
    match t {
        Syntax::Statement(s) => match s.payload("Query"@) {
            Some(q) => Syntax::Statement(Box::new(variant("Query"@, apart_query(false, q)))),
            None => t,
        },
        _ => t,
    }
}

/// [`apart_statement`] as a rule.
pub open spec fn apart_rule() -> Rule {
    |st: ProgressView, t: Syntax| (st, apart_statement(t))
}

/// Columns of one name in subqueries are told apart.
pub struct ColumnsApart;

impl Pass for ColumnsApart {
    open spec fn rule(&self) -> Rule {
        apart_rule()
    }

    fn apply(&self, st: &mut Progress, e: Tree) -> (r: Tree) {
        if let Tree::Statement(s) = &e {
            if let Some(q) = s.payload("Query") {
                let apart = Tree::variant("Query", dedup_query(false, q));
                return Tree::Statement(Box::new(apart));
            }
        }
        e
    }
}

/// Columns of one name in a subquery are told apart: the second `c` is put out as `c_2`, the
/// third as `c_3` and so on. The columns of the query itself keep their names, which the
/// client sees.
pub fn disambiguate_duplicate_columns(sql: &str) -> (r: Result<String, SqlError>)
    ensures
        outcome(r) == spaced_text(apart_rule(), sql@),
{
    rewrite_spaced(&ColumnsApart, sql)
}

} // verus!
