//! Rewrites of whole clauses: `SET` and `ORDER BY`.
use super::ast::{
    get_ident_text, get_query_select, ident_text, mk_number_expr, number_expr, query_select,
};
use super::parse::{outcome, SqlError};
use super::rewrite::{nodes_text, rewrite_nodes_text};
use super::tables::{in_catalog, mk_in_catalog};
use super::tree::{expr_node, list_of, no_items, push_item, variant, Syntax, Tree};
use super::walk::{Pass, Progress, ProgressView, Rule};
use crate::text::{decimal, decimal_text, eq_ignoring_case, same_ignoring_case};
use vstd::prelude::*;

verus! {

// --- SET ---------------------------------------------------------------------------------

/// The names in `s`, in `pg_catalog` where they have no schema.
pub open spec fn names_in_catalog(s: Seq<Syntax>) -> Seq<Syntax> {
    Seq::new(s.len(), |i: int| in_catalog(s[i]))
}

fn mk_names_in_catalog(names: &Tree) -> (r: Tree)
    ensures
        r@ == Syntax::List(names_in_catalog(names@.items())),
{
    let n: usize = names.len();
    let ghost goal = names_in_catalog(names@.items());
    let mut out = no_items();
    let mut i: usize = 0;
    while i < n
        invariant
            i <= n,
            n == names@.items().len(),
            goal == names_in_catalog(names@.items()),
            list_of(out@) == goal.take(i as int),
        decreases n - i,
    {
        push_item(&mut out, mk_in_catalog(names.item(i)));
        i = i + 1;
        assert(goal.take(i as int) =~= goal.take(i - 1).push(goal[i - 1]));
    }
    assert(goal.take(i as int) =~= goal);
    Tree::list(out)
}

/// The assignments in `s`, to variables in `pg_catalog` where they have no schema.
pub open spec fn assignments_in_catalog(s: Seq<Syntax>) -> Seq<Syntax> {
    Seq::new(s.len(), |i: int| s[i].with("name"@, in_catalog(s[i].at("name"@))))
}

fn mk_assignments_in_catalog(assignments: &Tree) -> (r: Tree)
    ensures
        r@ == Syntax::List(assignments_in_catalog(assignments@.items())),
{
    let n: usize = assignments.len();
    let ghost goal = assignments_in_catalog(assignments@.items());
    let mut out = no_items();
    let mut i: usize = 0;
    while i < n
        invariant
            i <= n,
            n == assignments@.items().len(),
            goal == assignments_in_catalog(assignments@.items()),
            list_of(out@) == goal.take(i as int),
        decreases n - i,
    {
        let a = assignments.item(i);
        push_item(&mut out, a.with("name", mk_in_catalog(a.at("name"))));
        i = i + 1;
        assert(goal.take(i as int) =~= goal.take(i - 1).push(goal[i - 1]));
    }
    assert(goal.take(i as int) =~= goal);
    Tree::list(out)
}

/// A `SET` command, to variables in `pg_catalog` where they have no schema.
pub open spec fn set_in_catalog(set: Syntax) -> Syntax {
    if let Some(a) = set.payload("SingleAssignment"@) {
        variant("SingleAssignment"@, a.with("variable"@, in_catalog(a.at("variable"@))))
    } else if let Some(a) = set.payload("ParenthesizedAssignments"@) {
        variant(
            "ParenthesizedAssignments"@,
            a.with("variables"@, Syntax::List(names_in_catalog(a.at("variables"@).items()))),
        )
    } else if let Some(a) = set.payload("MultipleAssignments"@) {
        variant(
            "MultipleAssignments"@,
            a.with(
                "assignments"@,
                Syntax::List(assignments_in_catalog(a.at("assignments"@).items())),
            ),
        )
    } else {
        set
    }
}

fn mk_set_in_catalog(set: &Tree) -> (r: Tree)
    ensures
        r@ == set_in_catalog(set@),
{
    if let Some(a) = set.payload("SingleAssignment") {
        let name = mk_in_catalog(a.at("variable"));
        return Tree::variant("SingleAssignment", a.with("variable", name));
    }
    if let Some(a) = set.payload("ParenthesizedAssignments") {
        let names = mk_names_in_catalog(a.at("variables"));
        return Tree::variant("ParenthesizedAssignments", a.with("variables", names));
    }
    if let Some(a) = set.payload("MultipleAssignments") {
        let assignments = mk_assignments_in_catalog(a.at("assignments"));
        return Tree::variant("MultipleAssignments", a.with("assignments", assignments));
    }
    set.copy()
}

/// A `SET` statement as [`set_in_catalog`] says; any other node as it is.
pub open spec fn set_statement(t: Syntax) -> Syntax {
    match t {
        Syntax::Statement(s) => match s.payload("Set"@) {
            Some(set) => Syntax::Statement(Box::new(variant("Set"@, set_in_catalog(set)))),
            None => t,
        },
        _ => t,
    }
}

/// [`set_statement`] as a rule.
pub open spec fn set_rule() -> Rule {
    |st: ProgressView, t: Syntax| (st, set_statement(t))
}

/// `SET` commands set variables in `pg_catalog`.
pub struct SetInCatalog;

impl Pass for SetInCatalog {
    open spec fn rule(&self) -> Rule {
        set_rule()
    }

    fn apply(&self, st: &mut Progress, e: Tree) -> (r: Tree) {
        if let Tree::Statement(s) = &e {
            if let Some(set) = s.payload("Set") {
                return Tree::Statement(Box::new(Tree::variant("Set", mk_set_in_catalog(set))));
            }
        }
        e
    }
}

/// Variables of `SET` commands are put in `pg_catalog` unless they have a schema.
pub fn replace_set_command_with_namespace(sql: &str) -> (r: Result<String, SqlError>)
    ensures
        outcome(r) == nodes_text(set_rule(), sql@),
{
    rewrite_nodes_text(&SetInCatalog, sql)
}

// --- ORDER BY ------------------------------------------------------------------------------

/// The name that a select item is put out under, if it has one: its alias, or the name of
/// the column that it is.
pub open spec fn output_name(item: Syntax) -> Option<Seq<char>> {
    match item.payload("ExprWithAlias"@) {
        Some(a) => ident_text(a.at("alias"@)),
        None => match item.payload("UnnamedExpr"@) {
            Some(e) => match e.inner().payload("Identifier"@) {
                Some(id) => ident_text(id),
                None => match e.inner().payload("CompoundIdentifier"@) {
                    Some(parts) => if parts.items().len() > 0 {
                        ident_text(parts.items()[parts.items().len() - 1])
                    } else {
                        None
                    },
                    None => None,
                },
            },
            None => None,
        },
    }
}

pub fn output_column_name(item: &Tree) -> (r: Option<&String>)
    ensures
        match r {
            Some(s) => output_name(item@) == Some(s@),
            None => output_name(item@) is None,
        },
{
    if let Some(a) = item.payload("ExprWithAlias") {
        return get_ident_text(a.at("alias"));
    }
    if let Some(e) = item.payload("UnnamedExpr") {
        if let Some(id) = e.inner().payload("Identifier") {
            return get_ident_text(id);
        }
        if let Some(parts) = e.inner().payload("CompoundIdentifier") {
            let n: usize = parts.len();
            if n > 0 {
                return get_ident_text(parts.item(n - 1));
            }
        }
    }
    None
}

/// Whether the select item at `i` is put out under `name`, in any case.
pub open spec fn put_out_as(items: Seq<Syntax>, i: int, name: Seq<char>) -> bool {
    match output_name(items[i]) {
        Some(s) => same_ignoring_case(s, name),
        None => false,
    }
}

/// Whether `i` is the first select item that is put out under `name`.
pub open spec fn is_first_output(items: Seq<Syntax>, i: int, name: Seq<char>) -> bool {
    0 <= i < items.len() && put_out_as(items, i, name) && forall|j: int|
        0 <= j < i ==> !#[trigger] put_out_as(items, j, name)
}

/// The first select item at or after `i` that is put out under `name`.
pub open spec fn output_from(items: Seq<Syntax>, i: nat, name: Seq<char>) -> Option<nat>
    decreases items.len() - i,
{
    if i >= items.len() {
        None
    } else if put_out_as(items, i as int, name) {
        Some(i)
    } else {
        output_from(items, i + 1, name)
    }
}

fn output_number(items: &Tree, name: &str) -> (r: Option<usize>)
    ensures
        match r {
            Some(k) => k > 0 && output_from(items@.items(), 0, name@) == Some((k - 1) as nat),
            None => output_from(items@.items(), 0, name@) is None,
        },
{
    let n: usize = items.len();
    let mut i: usize = 0;
    while i < n
        invariant
            i <= n,
            n == items@.items().len(),
            output_from(items@.items(), 0, name@) == output_from(items@.items(), i as nat, name@),
        decreases n - i,
    {
        if let Some(s) = output_column_name(items.item(i)) {
            if eq_ignoring_case(s.as_str(), name) {
                return Some(i + 1);
            }
        }
        i = i + 1;
    }
    None
}

/// The number that is found is that of the first item that is put out under the name, and
/// one is found if any item is put out under it.
pub proof fn output_is_first(items: Seq<Syntax>, name: Seq<char>)
    ensures
        match output_from(items, 0, name) {
            Some(i) => is_first_output(items, i as int, name),
            None => forall|j: int| 0 <= j < items.len() ==> !#[trigger] put_out_as(items, j, name),
        },
{
    output_is_first_from(items, 0, name);
}

proof fn output_is_first_from(items: Seq<Syntax>, i: nat, name: Seq<char>)
    requires
        forall|j: int| 0 <= j < i && j < items.len() ==> !#[trigger] put_out_as(items, j, name),
    ensures
        match output_from(items, i, name) {
            Some(k) => is_first_output(items, k as int, name),
            None => forall|j: int| 0 <= j < items.len() ==> !#[trigger] put_out_as(items, j, name),
        },
    decreases items.len() - i,
{
    if i < items.len() && !put_out_as(items, i as int, name) {
        output_is_first_from(items, i + 1, name);
    }
}

/// A sort key that is the number of the select item it names; any other key as it is.
pub open spec fn sort_key(items: Seq<Syntax>, key: Syntax) -> Syntax {
    match key.at("expr"@).inner().payload("Identifier"@) {
        Some(id) => match ident_text(id) {
            Some(name) => match output_from(items, 0, name) {
                Some(i) => key.with("expr"@, expr_node(number_expr(decimal(i + 1)))),
                None => key,
            },
            None => key,
        },
        None => key,
    }
}

/// The sort keys, by number where they name a select item.
pub open spec fn sort_keys(items: Seq<Syntax>, keys: Seq<Syntax>) -> Seq<Syntax> {
    Seq::new(keys.len(), |i: int| sort_key(items, keys[i]))
}

fn mk_sort_key(items: &Tree, key: &Tree) -> (r: Tree)
    ensures
        r@ == sort_key(items@.items(), key@),
{
    if let Some(id) = key.at("expr").inner().payload("Identifier") {
        if let Some(name) = get_ident_text(id) {
            if let Some(k) = output_number(items, name.as_str()) {
                let digits = decimal_text(k as u64);
                return key.with("expr", Tree::expr(mk_number_expr(digits.as_str())));
            }
        }
    }
    key.copy()
}

fn mk_sort_keys(items: &Tree, keys: &Tree) -> (r: Tree)
    ensures
        r@ == Syntax::List(sort_keys(items@.items(), keys@.items())),
{
    let n: usize = keys.len();
    let ghost goal = sort_keys(items@.items(), keys@.items());
    let mut out = no_items();
    let mut i: usize = 0;
    while i < n
        invariant
            i <= n,
            n == keys@.items().len(),
            goal == sort_keys(items@.items(), keys@.items()),
            list_of(out@) == goal.take(i as int),
        decreases n - i,
    {
        push_item(&mut out, mk_sort_key(items, keys.item(i)));
        i = i + 1;
        assert(goal.take(i as int) =~= goal.take(i - 1).push(goal[i - 1]));
    }
    assert(goal.take(i as int) =~= goal);
    Tree::list(out)
}

/// Whether a select item is `*` or `table.*`.
pub open spec fn is_wildcard(item: Syntax) -> bool {
    item.payload("Wildcard"@) is Some || item.payload("QualifiedWildcard"@) is Some
}

/// Whether some select item is `*` or `table.*`.
pub open spec fn has_wildcard(items: Seq<Syntax>) -> bool {
    exists|i: int| 0 <= i < items.len() && is_wildcard(#[trigger] items[i])
}

fn any_wildcard(items: &Tree) -> (r: bool)
    ensures
        r == has_wildcard(items@.items()),
{
    let n: usize = items.len();
    let ghost s = items@.items();
    let mut i: usize = 0;
    while i < n
        invariant
            i <= n,
            n == s.len(),
            s == items@.items(),
            forall|j: int| 0 <= j < i ==> !is_wildcard(#[trigger] s[j]),
        decreases n - i,
    {
        let item = items.item(i);
        if item.payload("Wildcard").is_some() || item.payload("QualifiedWildcard").is_some() {
            assert(is_wildcard(s[i as int]));
            return true;
        }
        i = i + 1;
    }
    false
}

/// A plain `SELECT` without wildcards, sorted by the numbers of the select items that its
/// sort keys name; any other node as it is.
pub open spec fn sorted_by_number(t: Syntax) -> Syntax {
    match (query_select(t), t.at("order_by"@).at("kind"@).payload("Expressions"@)) {
        (Some(select), Some(keys)) => {
            let items = select.at("projection"@).items();
            if has_wildcard(items) {
                t
            } else {
                let order_by = t.at("order_by"@);
                t.with(
                    "order_by"@,
                    order_by.with(
                        "kind"@,
                        variant("Expressions"@, Syntax::List(sort_keys(items, keys.items()))),
                    ),
                )
            }
        },
        _ => t,
    }
}

/// [`sorted_by_number`] as a rule.
pub open spec fn sort_rule() -> Rule {
    |st: ProgressView, t: Syntax| (st, sorted_by_number(t))
}

/// Queries are sorted by the numbers of their select items.
pub struct SortByNumber;

impl Pass for SortByNumber {
    open spec fn rule(&self) -> Rule {
        sort_rule()
    }

    fn apply(&self, st: &mut Progress, e: Tree) -> (r: Tree) {
        if let Some(select) = get_query_select(&e) {
            let order_by = e.at("order_by");
            if let Some(keys) = order_by.at("kind").payload("Expressions") {
                let items = select.at("projection");
                if !any_wildcard(items) {
                    let kind = Tree::variant("Expressions", mk_sort_keys(items, keys));
                    return e.with("order_by", order_by.with("kind", kind));
                }
            }
        }
        e
    }
}

/// A bare name in `ORDER BY` that is put out by the `SELECT` list becomes the number of that
/// select item. PostgreSQL looks such a name up among the output columns first, and a number
/// says the same without being ambiguous. A qualified name stays, and so does a query whose
/// `SELECT` list has a wildcard.
pub fn resolve_order_by_names_to_output_positions(sql: &str) -> (r: Result<String, SqlError>)
    ensures
        outcome(r) == nodes_text(sort_rule(), sql@),
{
    rewrite_nodes_text(&SortByNumber, sql)
}

} // verus!
