//! Rewrites of the tables that a query reads.
use super::ast::{
    get_ident_text, get_last_part_text, get_query_select, get_relation_name, ident, ident_text,
    is_pg_catalog_name, last_part_text, mk_ident, mk_name1, mk_name_part, mk_table_alias, name1,
    name_part, object_name_is, object_name_matches, pg_catalog_name_is, put_select, query_select,
    relation_name, table_alias, with_select,
};
use super::parse::{outcome, parse, print, printed, statements_of, SqlDialect, SqlError, SqlFault};
use super::rewrite::{nodes_text, rewrite_nodes_text, rewrite_text, rewritten_text, Layout};
use super::tree::{list_of, no_items, push_item, variant, Syntax, Tree};
use super::walk::{
    nodes_walked, start, start_view, statements_walked, walk, walk_nodes, walk_statements, walked,
    Pass, Progress, ProgressView, Rule,
};
use crate::text::{eq_ignoring_case, numbered, numbered_text, pairs_of, same_ignoring_case};
use vstd::prelude::*;

verus! {

// --- aliases for the tables of subqueries ------------------------------------------

/// The tables that have been given an alias: the name of each and its alias.
pub type Aliases = Seq<(Seq<char>, Seq<char>)>;

/// The alias of the first table that is called `name`, in any case.
pub open spec fn alias_of(tables: Aliases, name: Seq<char>) -> Option<Seq<char>>
    decreases tables.len(),
{
    if tables.len() == 0 {
        None
    } else if same_ignoring_case(tables[0].0, name) {
        Some(tables[0].1)
    } else {
        alias_of(tables.skip(1), name)
    }
}

fn find_alias<'a>(tables: &'a Vec<(String, String)>, name: &str) -> (r: Option<&'a String>)
    ensures
        match r {
            Some(s) => alias_of(pairs_of(tables@), name@) == Some(s@),
            None => alias_of(pairs_of(tables@), name@) is None,
        },
{
    let ghost all = pairs_of(tables@);
    let mut i: usize = 0;
    assert(all.skip(0) =~= all);
    while i < tables.len()
        invariant
            i <= tables@.len(),
            all == pairs_of(tables@),
            alias_of(all, name@) == alias_of(all.skip(i as int), name@),
        decreases tables@.len() - i,
    {
        assert(all.skip(i as int)[0] == all[i as int]);
        assert(all.skip(i as int).skip(1) =~= all.skip(i + 1));
        if eq_ignoring_case(tables[i].0.as_str(), name) {
            return Some(&tables[i].1);
        }
        i = i + 1;
    }
    None
}

/// The column `alias.c` for `table.c`, if the table has been given an alias; any other
/// expression as it is.
pub open spec fn requalified(tables: Aliases, e: Syntax) -> Syntax {
    match e.payload("CompoundIdentifier"@) {
        Some(parts) => match ident_text(parts.item(0)) {
            Some(name) => match alias_of(tables, name) {
                Some(alias) => if parts.items().len() == 2 {
                    variant(
                        "CompoundIdentifier"@,
                        Syntax::List(seq![ident(alias), parts.item(1)]),
                    )
                } else {
                    e
                },
                None => e,
            },
            None => e,
        },
        None => e,
    }
}

/// [`requalified`] as a rule.
pub open spec fn requalify_rule(tables: Aliases) -> Rule {
    |st: ProgressView, e: Syntax| (st, requalified(tables, e))
}

/// Columns of the tables that have been given an alias are named by it.
pub struct Requalify<'a> {
    pub tables: &'a Vec<(String, String)>,
}

impl<'a> Pass for Requalify<'a> {
    open spec fn rule(&self) -> Rule {
        requalify_rule(pairs_of(self.tables@))
    }

    fn apply(&self, st: &mut Progress, e: Tree) -> (r: Tree) {
        if let Some(parts) = e.payload("CompoundIdentifier") {
            if parts.len() == 2 {
                if let Some(name) = get_ident_text(parts.item(0)) {
                    if let Some(alias) = find_alias(self.tables, name.as_str()) {
                        return Tree::variant(
                            "CompoundIdentifier",
                            Tree::list2(mk_ident(alias.as_str()), parts.item(1).copy()),
                        );
                    }
                }
            }
        }
        e
    }
}

/// What giving aliases has come to: how many were given, and to which tables of the query.
pub struct Naming {
    pub count: u64,
    pub tables: Vec<(String, String)>,
}

/// What a [`Naming`] says.
pub struct NamingView {
    pub count: u64,
    pub tables: Aliases,
}

impl View for Naming {
    type V = NamingView;

    open spec fn view(&self) -> NamingView {
        NamingView { count: self.count, tables: pairs_of(self.tables@) }
    }
}

/// The alias with the number `n`.
pub open spec fn subquery_alias(n: u64) -> Seq<char> {
    numbered("subq"@, n as nat) + "_t"@
}

fn mk_subquery_alias(n: u64) -> (r: String)
    ensures
        r@ == subquery_alias(n),
{
    let mut s = numbered_text("subq", n);
    s.append("_t");
    s
}

impl NamingView {
    /// After one more alias, for a table called `name`.
    pub open spec fn given(self, name: Option<Seq<char>>) -> NamingView {
        NamingView {
            count: if self.count < u64::MAX {
                (self.count + 1) as u64
            } else {
                self.count
            },
            tables: match name {
                Some(s) => self.tables.push((s, subquery_alias(self.count))),
                None => self.tables,
            },
        }
    }
}

impl Naming {
    fn give(&mut self, name: Option<String>)
        ensures
            final(self)@ == old(self)@.given(
                match name {
                    Some(s) => Some(s@),
                    None => None,
                },
            ),
    {
        let ghost before = pairs_of(self.tables@);
        if let Some(s) = name {
            let alias = mk_subquery_alias(self.count);
            let ghost pair = (s@, alias@);
            self.tables.push((s, alias));
            assert(pairs_of(self.tables@) =~= before.push(pair));
        }
        if self.count < u64::MAX {
            self.count = self.count + 1;
        }
    }
}

/// The relation `name`, in `pg_catalog` if it has no schema.
pub open spec fn in_catalog(name: Syntax) -> Syntax {
    if name.items().len() == 1 {
        Syntax::List(seq![name_part("pg_catalog"@), name.items()[0]])
    } else {
        name
    }
}

pub fn mk_in_catalog(name: &Tree) -> (r: Tree)
    ensures
        r@ == in_catalog(name@),
{
    if name.len() == 1 {
        Tree::list2(mk_name_part("pg_catalog"), name.item(0).copy())
    } else {
        name.copy()
    }
}

/// A plain table in `pg_catalog` unless it has a schema, and with an alias.
pub open spec fn named_factor(st: NamingView, tf: Syntax) -> (NamingView, Syntax) {
    match tf.payload("Table"@) {
        Some(t) => {
            let name = relation_name(t.at("name"@));
            let placed = t.with("name"@, Syntax::Relation(Box::new(in_catalog(name))));
            if t.at("alias"@) == Syntax::Null {
                let alias = table_alias(subquery_alias(st.count), true);
                (st.given(last_part_text(name)), variant("Table"@, placed.with("alias"@, alias)))
            } else {
                (st, variant("Table"@, placed))
            }
        },
        None => (st, tf),
    }
}

fn name_factor(st: &mut Naming, tf: &Tree) -> (r: Tree)
    ensures
        (final(st)@, r@) == named_factor(old(st)@, tf@),
{
    match tf.payload("Table") {
        Some(t) => {
            let name = get_relation_name(t.at("name"));
            let placed = t.with("name", Tree::Relation(Box::new(mk_in_catalog(name))));
            if t.at("alias").is_null() {
                let alias = mk_table_alias(mk_subquery_alias(st.count).as_str(), true);
                st.give(
                    match get_last_part_text(name) {
                        Some(s) => Some(s.clone()),
                        None => None,
                    },
                );
                Tree::variant("Table", placed.with("alias", alias))
            } else {
                Tree::variant("Table", placed)
            }
        },
        None => tf.copy(),
    }
}

/// The first `n` joins with their tables named.
pub open spec fn named_joins(st: NamingView, joins: Seq<Syntax>, n: nat) -> (
    NamingView,
    Seq<Syntax>,
)
    decreases n,
{
    if n == 0 {
        (st, Seq::empty())
    } else {
        let (st1, done) = named_joins(st, joins, (n - 1) as nat);
        let (st2, tf) = named_factor(st1, joins[n - 1].at("relation"@));
        (st2, done.push(joins[n - 1].with("relation"@, tf)))
    }
}

fn name_joins(st: &mut Naming, joins: &Tree) -> (r: Tree)
    ensures
        ({
            let s = joins@.items();
            let (st1, out) = named_joins(old(st)@, s, s.len());
            final(st)@ == st1 && r@ == Syntax::List(out)
        }),
{
    let n: usize = joins.len();
    let ghost st0 = st@;
    let ghost s = joins@.items();
    let mut out = no_items();
    let mut i: usize = 0;
    while i < n
        invariant
            i <= n,
            n == s.len(),
            s == joins@.items(),
            (st@, list_of(out@)) == named_joins(st0, s, i as nat),
        decreases n - i,
    {
        let join = joins.item(i);
        let tf = name_factor(st, join.at("relation"));
        push_item(&mut out, join.with("relation", tf));
        i = i + 1;
    }
    Tree::list(out)
}

/// The first `n` items of a `FROM` clause with their tables named.
pub open spec fn named_from(st: NamingView, from: Seq<Syntax>, n: nat) -> (
    NamingView,
    Seq<Syntax>,
)
    decreases n,
{
    if n == 0 {
        (st, Seq::empty())
    } else {
        let (st1, done) = named_from(st, from, (n - 1) as nat);
        let twj = from[n - 1];
        let (st2, tf) = named_factor(st1, twj.at("relation"@));
        let joins = twj.at("joins"@).items();
        let (st3, out) = named_joins(st2, joins, joins.len());
        (st3, done.push(twj.with("relation"@, tf).with("joins"@, Syntax::List(out))))
    }
}

fn name_from(st: &mut Naming, from: &Tree) -> (r: Tree)
    ensures
        ({
            let s = from@.items();
            let (st1, out) = named_from(old(st)@, s, s.len());
            final(st)@ == st1 && r@ == Syntax::List(out)
        }),
{
    let n: usize = from.len();
    let ghost st0 = st@;
    let ghost s = from@.items();
    let mut out = no_items();
    let mut i: usize = 0;
    while i < n
        invariant
            i <= n,
            n == s.len(),
            s == from@.items(),
            (st@, list_of(out@)) == named_from(st0, s, i as nat),
        decreases n - i,
    {
        let twj = from.item(i);
        let tf = name_factor(st, twj.at("relation"));
        let joins = name_joins(st, twj.at("joins"));
        push_item(&mut out, twj.with("relation", tf).with("joins", joins));
        i = i + 1;
    }
    Tree::list(out)
}

/// A query whose tables are in `pg_catalog` unless they have a schema, and have an alias
/// each; columns that were named by such a table are named by its alias. The aliases are
/// numbered from `n` on. A query that is not a plain `SELECT` stays as it is.
pub open spec fn named_query(n: u64, q: Syntax) -> (u64, Syntax) {
    match query_select(q) {
        Some(select) => {
            let s = select.at("from"@).items();
            let (st, from) = named_from(NamingView { count: n, tables: Seq::empty() }, s, s.len());
            let named = with_select(q, select.with("from"@, Syntax::List(from)));
            if st.tables.len() == 0 {
                (st.count, named)
            } else {
                (st.count, walked(requalify_rule(st.tables), start_view(), named).1)
            }
        },
        None => (n, q),
    }
}

fn name_query(n: u64, q: &Tree) -> (r: (u64, Tree))
    ensures
        (r.0, r.1@) == named_query(n, q@),
{
    if let Some(select) = get_query_select(q) {
        let mut st = Naming { count: n, tables: Vec::new() };
        assert(pairs_of(st.tables@) =~= Seq::empty());
        let from = name_from(&mut st, select.at("from"));
        let named = put_select(q, select.with("from", from));
        if st.tables.len() == 0 {
            return (st.count, named);
        }
        let mut progress = start();
        let out = walk(&Requalify { tables: &st.tables }, &mut progress, &named);
        return (st.count, out);
    }
    (n, q.copy())
}

/// The progress after the fresh names up to `n` have been handed out.
pub open spec fn counted(st: ProgressView, n: u64) -> ProgressView {
    ProgressView { count: n, ..st }
}

/// A scalar subquery, `EXISTS` or `IN` with the tables of the subquery named as
/// [`named_query`] says; any other expression as it is.
pub open spec fn tables_named(st: ProgressView, e: Syntax) -> (ProgressView, Syntax) {
    if let Some(q) = e.payload("Subquery"@) {
        let (n, out) = named_query(st.count, q);
        (counted(st, n), variant("Subquery"@, out))
    } else if let Some(x) = e.payload("Exists"@) {
        let (n, out) = named_query(st.count, x.at("subquery"@));
        (counted(st, n), variant("Exists"@, x.with("subquery"@, out)))
    } else if let Some(x) = e.payload("InSubquery"@) {
        let (n, out) = named_query(st.count, x.at("subquery"@));
        (counted(st, n), variant("InSubquery"@, x.with("subquery"@, out)))
    } else {
        (st, e)
    }
}

/// [`tables_named`] as a rule.
pub open spec fn table_names_rule() -> Rule {
    |st: ProgressView, e: Syntax| tables_named(st, e)
}

/// The tables of subqueries are given a schema and an alias.
pub struct SubqueryTables;

impl Pass for SubqueryTables {
    open spec fn rule(&self) -> Rule {
        table_names_rule()
    }

    fn apply(&self, st: &mut Progress, e: Tree) -> (r: Tree) {
        if let Some(q) = e.payload("Subquery") {
            let (n, out) = name_query(st.count, q);
            st.count = n;
            return Tree::variant("Subquery", out);
        }
        if let Some(x) = e.payload("Exists") {
            let (n, out) = name_query(st.count, x.at("subquery"));
            st.count = n;
            return Tree::variant("Exists", x.with("subquery", out));
        }
        if let Some(x) = e.payload("InSubquery") {
            let (n, out) = name_query(st.count, x.at("subquery"));
            st.count = n;
            return Tree::variant("InSubquery", x.with("subquery", out));
        }
        e
    }
}

/// Tables in scalar subqueries, `EXISTS` and `IN` are put in `pg_catalog` unless they have a
/// schema, and are given aliases, so that their columns can be told apart from those of the
/// query around them.
pub fn alias_subquery_tables(sql: &str) -> (r: Result<String, SqlError>)
    ensures
        outcome(r) == rewritten_text(table_names_rule(), Layout::Semicolons, sql@),
{
    rewrite_text(&SubqueryTables, Layout::Semicolons, sql)
}

// --- table functions -------------------------------------------------------------------

/// Whether `name` is a table function that is known without its schema.
pub open spec fn is_catalog_udtf(name: Syntax) -> bool {
    pg_catalog_name_is(name, "pg_get_keywords"@) || pg_catalog_name_is(
        name,
        "pg_postmaster_start_time"@,
    ) || pg_catalog_name_is(name, "generate_series"@)
}

fn catalog_udtf(name: &Tree) -> (r: bool)
    ensures
        r == is_catalog_udtf(name@),
{
    is_pg_catalog_name(name, "pg_get_keywords") || is_pg_catalog_name(
        name,
        "pg_postmaster_start_time",
    ) || is_pg_catalog_name(name, "generate_series")
}

/// The name of a table function without its schema.
pub open spec fn without_schema(name: Syntax) -> Syntax {
    Syntax::List(seq![name.item(1)])
}

/// A call of a known table function without its schema; any other expression as it is.
pub open spec fn unqualified_call(st: ProgressView, e: Syntax) -> (ProgressView, Syntax) {
    match e.payload("Function"@) {
        Some(f) => if is_catalog_udtf(f.at("name"@)) {
            (
                st.mark(),
                variant("Function"@, f.with("name"@, without_schema(f.at("name"@)))),
            )
        } else {
            (st, e)
        },
        None => (st, e),
    }
}

/// [`unqualified_call`] as a rule.
pub open spec fn unqualified_call_rule() -> Rule {
    |st: ProgressView, e: Syntax| unqualified_call(st, e)
}

/// Calls of known table functions lose their schema.
pub struct UnqualifiedCalls;

impl Pass for UnqualifiedCalls {
    open spec fn rule(&self) -> Rule {
        unqualified_call_rule()
    }

    fn apply(&self, st: &mut Progress, e: Tree) -> (r: Tree) {
        if let Some(f) = e.payload("Function") {
            let name = f.at("name");
            if catalog_udtf(name) {
                st.mark();
                let bare = Tree::list1(name.item(1).copy());
                return Tree::variant("Function", f.with("name", bare));
            }
        }
        e
    }
}

/// The name of a known table function without its schema; any other node as it is.
pub open spec fn unqualified_relation(st: ProgressView, t: Syntax) -> (ProgressView, Syntax) {
    match t {
        Syntax::Relation(name) => if is_catalog_udtf(*name) {
            (st.mark(), Syntax::Relation(Box::new(without_schema(*name))))
        } else {
            (st, t)
        },
        _ => (st, t),
    }
}

/// [`unqualified_relation`] as a rule.
pub open spec fn unqualified_relation_rule() -> Rule {
    |st: ProgressView, t: Syntax| unqualified_relation(st, t)
}

/// Known table functions in `FROM` clauses lose their schema.
pub struct UnqualifiedRelations;

impl Pass for UnqualifiedRelations {
    open spec fn rule(&self) -> Rule {
        unqualified_relation_rule()
    }

    fn apply(&self, st: &mut Progress, e: Tree) -> (r: Tree) {
        if let Tree::Relation(name) = &e {
            if catalog_udtf(name) {
                st.mark();
                return Tree::Relation(Box::new(Tree::list1(name.item(1).copy())));
            }
        }
        e
    }
}

/// The text with known table functions named without their schema, or the text itself if
/// it has none.
pub open spec fn udtfs_unqualified(sql: Seq<char>) -> Result<Seq<char>, SqlFault> {
    match statements_of(SqlDialect::Postgres, sql) {
        Ok(t) => {
            let (st1, t1) = statements_walked(unqualified_call_rule(), start_view(), t);
            let (st2, t2) = nodes_walked(unqualified_relation_rule(), st1, t1);
            if st2.changed {
                printed(t2, "; "@)
            } else {
                Ok(sql)
            }
        },
        Err(e) => Err(e),
    }
}

/// `pg_catalog.` is dropped before the table functions `pg_get_keywords`,
/// `pg_postmaster_start_time` and `generate_series`. A text without them is handed back as
/// it is.
pub fn rewrite_schema_qualified_udtfs(sql: &str) -> (r: Result<String, SqlError>)
    ensures
        outcome(r) == udtfs_unqualified(sql@),
{
    match parse(SqlDialect::Postgres, sql) {
        Ok(t) => {
            let mut st = start();
            let t1 = walk_statements(&UnqualifiedCalls, &mut st, &t);
            let t2 = walk_nodes(&UnqualifiedRelations, &mut st, &t1);
            if st.changed {
                print(&t2, "; ")
            } else {
                Ok(sql.to_owned())
            }
        },
        Err(e) => Err(e),
    }
}

/// The table function `available_extension_versions(..)` for
/// `pg_available_extension_versions(..)`; any other node as it is.
pub open spec fn extension_source(t: Syntax) -> Syntax {
    match t.payload("Table"@) {
        Some(f) => if f.at("args"@) != Syntax::Null && object_name_is(
            relation_name(f.at("name"@)),
            "pg_available_extension_versions"@,
        ) {
            variant(
                "Table"@,
                f.with(
                    "name"@,
                    Syntax::Relation(Box::new(name1("available_extension_versions"@))),
                ),
            )
        } else {
            t
        },
        None => t,
    }
}

/// [`extension_source`] as a rule.
pub open spec fn extension_source_rule() -> Rule {
    |st: ProgressView, t: Syntax| (st, extension_source(t))
}

/// The table function `pg_available_extension_versions` is called by its own name.
pub struct ExtensionSource;

impl Pass for ExtensionSource {
    open spec fn rule(&self) -> Rule {
        extension_source_rule()
    }

    fn apply(&self, st: &mut Progress, e: Tree) -> (r: Tree) {
        if let Some(f) = e.payload("Table") {
            if !f.at("args").is_null() && object_name_matches(
                get_relation_name(f.at("name")),
                "pg_available_extension_versions",
            ) {
                let name = Tree::Relation(Box::new(mk_name1("available_extension_versions")));
                return Tree::variant("Table", f.with("name", name));
            }
        }
        e
    }
}

/// Calls of the table function `pg_available_extension_versions` go to
/// `available_extension_versions`, the name it has beside the view of the same name. The
/// view itself, which takes no arguments, keeps its name.
pub fn rewrite_available_extension_versions_source(sql: &str) -> (r: Result<String, SqlError>)
    ensures
        outcome(r) == nodes_text(extension_source_rule(), sql@),
{
    rewrite_nodes_text(&ExtensionSource, sql)
}

} // verus!
