//! Rewriting whole SQL texts, expression by expression.

use super::alias::{explicit_aliases, force_explicit_aliases};
use super::parse::{outcome, parse, print, printed, statements_of, SqlDialect, SqlError, SqlFault};
use super::tree::{Syntax, Tree};
use super::walk::{
    nodes_walked, start, start_view, statements_walked, walk_nodes, walk_statements, Pass, Rule,
};
use vstd::prelude::*;

verus! {

/// The statements with every expression rewritten by the rule `f`.
pub open spec fn rewritten(f: Rule, t: Syntax) -> Syntax {
    statements_walked(f, start_view(), t).1
}

/// The statements with every expression rewritten by `p`.
pub fn rewrite_tree<P: Pass>(p: &P, t: &Tree) -> (r: Tree)
    ensures
        r@ == rewritten(p.rule(), t@),
{
    let mut st = start();
    walk_statements(p, &mut st, t)
}

/// How the statements of a rewritten text are put together.
#[derive(Clone, Copy, Debug, PartialEq, Eq, Structural)]
pub enum Layout {
    /// With `"; "` between them.
    Semicolons,
    /// With a space between them.
    Spaces,
}

pub open spec fn separator(layout: Layout) -> Seq<char> {
    match layout {
        Layout::Semicolons => "; "@,
        Layout::Spaces => " "@,
    }
}

pub fn separator_text(layout: Layout) -> (r: &'static str)
    ensures
        r@ == separator(layout),
{
    match layout {
        Layout::Semicolons => "; ",
        Layout::Spaces => " ",
    }
}

/// The text with every expression rewritten by the rule `f`.
pub open spec fn rewritten_text(f: Rule, layout: Layout, sql: Seq<char>) -> Result<
    Seq<char>,
    SqlFault,
> {
    match statements_of(SqlDialect::Postgres, sql) {
        Ok(t) => printed(rewritten(f, t), separator(layout)),
        Err(e) => Err(e),
    }
}

/// Parses `sql`, rewrites every expression by `p`, and prints the statements.
pub fn rewrite_text<P: Pass>(p: &P, layout: Layout, sql: &str) -> (r: Result<String, SqlError>)
    ensures
        outcome(r) == rewritten_text(p.rule(), layout, sql@),
{
    match parse(SqlDialect::Postgres, sql) {
        Ok(t) => print(&rewrite_tree(p, &t), separator_text(layout)),
        Err(e) => Err(e),
    }
}

/// The text with every expression rewritten by the rule `f` and `AS` before table aliases.
pub open spec fn rewritten_text_explicit(
    f: Rule,
    layout: Layout,
    sql: Seq<char>,
) -> Result<Seq<char>, SqlFault> {
    match statements_of(SqlDialect::Postgres, sql) {
        Ok(t) => printed(explicit_aliases(rewritten(f, t)), separator(layout)),
        Err(e) => Err(e),
    }
}

/// As [`rewrite_text`], with `AS` before table aliases.
pub fn rewrite_text_explicit<P: Pass>(p: &P, layout: Layout, sql: &str) -> (r: Result<
    String,
    SqlError,
>)
    ensures
        outcome(r) == rewritten_text_explicit(p.rule(), layout, sql@),
{
    match parse(SqlDialect::Postgres, sql) {
        Ok(t) => print(
            &force_explicit_aliases(&rewrite_tree(p, &t)),
            separator_text(layout),
        ),
        Err(e) => Err(e),
    }
}

/// The text with every expression rewritten by the rule `f`, or the text itself if the
/// rule changes nothing. Where the rule gives up, its reason.
pub open spec fn changed_text(f: Rule, explicit: bool, sql: Seq<char>) -> Result<
    Seq<char>,
    SqlFault,
> {
    match statements_of(SqlDialect::Postgres, sql) {
        Ok(t) => {
            let (st, out) = statements_walked(f, start_view(), t);
            match st.fault {
                Some(why) => Err(SqlFault::Plan(why)),
                None => if !st.changed {
                    Ok(sql)
                } else if explicit {
                    printed(explicit_aliases(out), "; "@)
                } else {
                    printed(out, "; "@)
                },
            }
        },
        Err(e) => Err(e),
    }
}

/// Parses `sql`, rewrites every expression by `p`, and prints the statements, with `AS`
/// before table aliases if `explicit`; hands `sql` back if nothing was rewritten.
pub fn change_text<P: Pass>(p: &P, explicit: bool, sql: &str) -> (r: Result<String, SqlError>)
    ensures
        outcome(r) == changed_text(p.rule(), explicit, sql@),
{
    match parse(SqlDialect::Postgres, sql) {
        Ok(t) => {
            let mut st = start();
            let out = walk_statements(p, &mut st, &t);
            match st.fault {
                Some(why) => Err(SqlError::Plan(why)),
                None => if !st.changed {
                    Ok(sql.to_owned())
                } else if explicit {
                    print(&force_explicit_aliases(&out), "; ")
                } else {
                    print(&out, "; ")
                },
            }
        },
        Err(e) => Err(e),
    }
}

/// The statements with every record, statement and relation rewritten by the rule `f`.
pub open spec fn nodes_rewritten(f: Rule, t: Syntax) -> Syntax {
    nodes_walked(f, start_view(), t).1
}

/// The statements with every record, statement and relation rewritten by `p`.
pub fn rewrite_nodes<P: Pass>(p: &P, t: &Tree) -> (r: Tree)
    ensures
        r@ == nodes_rewritten(p.rule(), t@),
{
    let mut st = start();
    walk_nodes(p, &mut st, t)
}

/// The text with every record, statement and relation rewritten by the rule `f`.
pub open spec fn nodes_text(f: Rule, sql: Seq<char>) -> Result<Seq<char>, SqlFault> {
    match statements_of(SqlDialect::Postgres, sql) {
        Ok(t) => printed(nodes_rewritten(f, t), "; "@),
        Err(e) => Err(e),
    }
}

/// Parses `sql`, rewrites every record, statement and relation by `p`, and prints the
/// statements.
pub fn rewrite_nodes_text<P: Pass>(p: &P, sql: &str) -> (r: Result<String, SqlError>)
    ensures
        outcome(r) == nodes_text(p.rule(), sql@),
{
    match parse(SqlDialect::Postgres, sql) {
        Ok(t) => print(&rewrite_nodes(p, &t), "; "),
        Err(e) => Err(e),
    }
}

} // verus!
