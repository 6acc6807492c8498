//! Rewrites of calls, operators and literals.
use super::ast::{
    arg_expr, bigint_type, binary, body_alone, call1, cast, get_arg_expr, get_ident_text,
    get_last_part_text, get_query_select, get_string_literal, hold_operands, ident, ident_is,
    ident_spells, ident_text, is_body_alone, is_pg_catalog_name, is_plain_select, last_part_is,
    last_part_spells, last_part_text, mk_binary, mk_call1, mk_cast, mk_ident, mk_name1, mk_name2,
    mk_nested, mk_null_expr, mk_operand, mk_string_expr, mk_unnamed_arg, name1, name2, nested,
    null_expr, operand, operands_held, pg_catalog_name_is, plain_select, query_select, string_expr,
    string_literal, text_type, unnamed_arg,
};
use super::parse::{outcome, SqlError};
use super::rewrite::{
    change_text, changed_text, rewrite_text, rewrite_text_explicit, rewritten_text,
    rewritten_text_explicit, Layout,
};
use super::tree::{expr_node, list_of, no_fields, no_items, push_item, put, variant, Syntax, Tree};
use super::walk::{Pass, Progress, ProgressView, Rule};
use crate::text::{
    chars, eq_ignoring_case, is_space, lowercased, same, same_ignoring_case, slice_text, space,
    split, split_text, to_lowercase, trim, trimmed, views, Trim,
};
use vstd::prelude::*;

verus! {

// --- operators -------------------------------------------------------------------

/// The parts of `OPERATOR(..)`.
pub open spec fn operator_parts(op: Syntax) -> Seq<Syntax> {
    match op.payload("PGCustomBinaryOperator"@) {
        Some(p) => p.items(),
        None => Seq::empty(),
    }
}

/// Whether an operator is `OPERATOR(pg_catalog.~)`.
pub open spec fn is_pg_match(op: Syntax) -> bool {
    let parts = operator_parts(op);
    parts.len() == 2 && match parts[0] {
        Syntax::Text(schema) => same_ignoring_case(schema, "pg_catalog"@),
        _ => false,
    } && parts[1].is_text("~"@)
}

fn pg_match(op: &Tree) -> (r: bool)
    ensures
        r == is_pg_match(op@),
{
    if let Some(p) = op.payload("PGCustomBinaryOperator") {
        if p.len() == 2 {
            if let Some(schema) = p.item(0).text() {
                return eq_ignoring_case(schema.as_str(), "pg_catalog") && p.item(1).is_text("~");
            }
        }
    }
    false
}

/// Whether `e` is `a ~ b` outside parentheses.
pub open spec fn is_plain_match(e: Syntax) -> bool {
    match e.payload("BinaryOp"@) {
        Some(b) => b.at("op"@).is_text("PGRegexMatch"@),
        None => false,
    }
}

fn plainly_matches(e: &Tree) -> (r: bool)
    ensures
        r == is_plain_match(e@),
{
    match e.payload("BinaryOp") {
        Some(b) => b.at("op").is_text("PGRegexMatch"),
        None => false,
    }
}

/// A node that holds an operand, with parentheses round `a ~ b`.
pub open spec fn match_held(node: Syntax) -> Syntax {
    if node is Expr && is_plain_match(node.inner()) {
        expr_node(nested(node.inner()))
    } else {
        node
    }
}

fn hold_match(node: &Tree) -> (r: Tree)
    ensures
        r@ == match_held(node@),
{
    if let Tree::Expr(e) = node {
        if plainly_matches(e) {
            return Tree::expr(mk_nested(e.copy()));
        }
    }
    node.copy()
}

/// `a ~ b` for `a OPERATOR(pg_catalog.~) b`. `~` does not bind as tightly, so it stands in
/// parentheses where it is an operand, but for `AND` and `OR`. Any other expression as it is.
pub open spec fn plain_match(e: Syntax) -> Syntax {
    match e.payload("BinaryOp"@) {
        Some(b) => if is_pg_match(b.at("op"@)) {
            variant("BinaryOp"@, b.with("op"@, Syntax::Text("PGRegexMatch"@)))
        } else if b.at("op"@).is_text("And"@) || b.at("op"@).is_text("Or"@) {
            e
        } else {
            variant(
                "BinaryOp"@,
                b.with("left"@, match_held(b.at("left"@))).with(
                    "right"@,
                    match_held(b.at("right"@)),
                ),
            )
        },
        None => e,
    }
}

/// `OPERATOR(pg_catalog.~)` becomes `~`.
pub struct PgOperators;

/// [`plain_match`] as a rule.
pub open spec fn pg_operator_rule() -> Rule {
    |st: ProgressView, e: Syntax| (st, plain_match(e))
}

impl Pass for PgOperators {
    open spec fn rule(&self) -> Rule {
        pg_operator_rule()
    }

    fn apply(&self, st: &mut Progress, e: Tree) -> (r: Tree) {
        if let Some(b) = e.payload("BinaryOp") {
            if pg_match(b.at("op")) {
                return Tree::variant("BinaryOp", b.with("op", Tree::of_text("PGRegexMatch")));
            }
            if !b.at("op").is_text("And") && !b.at("op").is_text("Or") {
                let left = hold_match(b.at("left"));
                let right = hold_match(b.at("right"));
                return Tree::variant("BinaryOp", b.with("left", left).with("right", right));
            }
        }
        e
    }
}

/// `OPERATOR(pg_catalog.~)` becomes `~`, in parentheses where it is an operand.
pub fn rewrite_pg_custom_operator(sql: &str) -> (r: Result<String, SqlError>)
    ensures
        outcome(r) == rewritten_text_explicit(pg_operator_rule(), Layout::Spaces, sql@),
{
    rewrite_text_explicit(&PgOperators, Layout::Spaces, sql)
}

/// The operand of `COLLATE pg_catalog.default`; any other expression as it is.
pub open spec fn default_collation_dropped(e: Syntax) -> Syntax {
    match e.payload("Collate"@) {
        Some(c) => if pg_catalog_name_is(c.at("collation"@), "default"@) {
            c.at("expr"@).inner()
        } else {
            e
        },
        None => e,
    }
}

/// `COLLATE pg_catalog.default` is dropped.
pub struct DefaultCollation;

/// [`default_collation_dropped`] as a rule.
pub open spec fn collation_rule() -> Rule {
    |st: ProgressView, e: Syntax| (st, default_collation_dropped(e))
}

impl Pass for DefaultCollation {
    open spec fn rule(&self) -> Rule {
        collation_rule()
    }

    fn apply(&self, st: &mut Progress, e: Tree) -> (r: Tree) {
        if let Some(c) = e.payload("Collate") {
            if is_pg_catalog_name(c.at("collation"), "default") {
                return c.at("expr").inner().copy();
            }
        }
        e
    }
}

/// `COLLATE pg_catalog.default` is dropped: it says nothing.
pub fn strip_default_collate(sql: &str) -> (r: Result<String, SqlError>)
    ensures
        outcome(r) == rewritten_text_explicit(collation_rule(), Layout::Semicolons, sql@),
{
    rewrite_text_explicit(&DefaultCollation, Layout::Semicolons, sql)
}

/// The equality of the first `n` pairs of elements, `n` being at least one.
pub open spec fn pairwise_equal(l: Seq<Syntax>, r: Seq<Syntax>, n: nat) -> Syntax
    decreases n,
{
    let pair = binary(operand(l[n - 1].inner()), Syntax::Text("Eq"@), operand(r[n - 1].inner()));
    if n <= 1 {
        pair
    } else {
        binary(pairwise_equal(l, r, (n - 1) as nat), Syntax::Text("And"@), pair)
    }
}

/// `a = c AND b = d` for `(a, b) = (c, d)`. Any other expression stays, with such a condition in
/// parentheses where it is an operand.
pub open spec fn tuples_compared(e: Syntax) -> Syntax {
    match e.payload("BinaryOp"@) {
        Some(b) => match (
            b.at("left"@).inner().payload("Tuple"@),
            b.at("right"@).inner().payload("Tuple"@),
        ) {
            (Some(l), Some(r)) => if b.at("op"@).is_text("Eq"@) && l.items().len()
                == r.items().len() && l.items().len() > 0 {
                pairwise_equal(l.items(), r.items(), l.items().len())
            } else {
                operands_held(e)
            },
            _ => operands_held(e),
        },
        None => operands_held(e),
    }
}

fn mk_pairwise_equal(l: &Tree, r: &Tree) -> (out: Tree)
    requires
        l@.items().len() == r@.items().len(),
        l@.items().len() > 0,
    ensures
        out@ == pairwise_equal(l@.items(), r@.items(), l@.items().len()),
{
    let n: usize = l.len();
    let mut all = mk_binary(mk_operand(l.item(0).inner()), "Eq", mk_operand(r.item(0).inner()));
    let mut i: usize = 1;
    while i < n
        invariant
            1 <= i <= n,
            n == l@.items().len(),
            n == r@.items().len(),
            all@ == pairwise_equal(l@.items(), r@.items(), i as nat),
        decreases n - i,
    {
        let pair = mk_binary(mk_operand(l.item(i).inner()), "Eq", mk_operand(r.item(i).inner()));
        all = mk_binary(all, "And", pair);
        i = i + 1;
    }
    all
}

/// Equality of tuples becomes equality of their elements.
pub struct TupleEquality;

/// [`tuples_compared`] as a rule.
pub open spec fn tuple_equality_rule() -> Rule {
    |st: ProgressView, e: Syntax| (st, tuples_compared(e))
}

impl Pass for TupleEquality {
    open spec fn rule(&self) -> Rule {
        tuple_equality_rule()
    }

    fn apply(&self, st: &mut Progress, e: Tree) -> (r: Tree) {
        if let Some(b) = e.payload("BinaryOp") {
            if let Some(l) = b.at("left").inner().payload("Tuple") {
                if let Some(r) = b.at("right").inner().payload("Tuple") {
                    if b.at("op").is_text("Eq") && l.len() == r.len() && l.len() > 0 {
                        return mk_pairwise_equal(l, r);
                    }
                }
            }
        }
        hold_operands(e)
    }
}

/// `(a, b) = (c, d)` becomes `a = c AND b = d`, in parentheses where it is an operand.
pub fn rewrite_tuple_equality(sql: &str) -> (r: Result<String, SqlError>)
    ensures
        outcome(r) == rewritten_text(tuple_equality_rule(), Layout::Semicolons, sql@),
{
    rewrite_text(&TupleEquality, Layout::Semicolons, sql)
}

// --- calls -------------------------------------------------------------------------

/// `CAST(array_length(..) AS BIGINT)` for `array_upper(..)`; any other expression as it is.
pub open spec fn array_upper_as_length(e: Syntax) -> Syntax {
    match e.payload("Function"@) {
        Some(f) => if last_part_is(f.at("name"@), "array_upper"@) {
            cast(
                "Cast"@,
                variant("Function"@, f.with("name"@, name1("array_length"@))),
                bigint_type(),
            )
        } else {
            e
        },
        None => e,
    }
}

/// `array_upper` becomes `array_length`.
pub struct ArrayUpper;

/// [`array_upper_as_length`] as a rule.
pub open spec fn array_upper_rule() -> Rule {
    |st: ProgressView, e: Syntax| (st, array_upper_as_length(e))
}

impl Pass for ArrayUpper {
    open spec fn rule(&self) -> Rule {
        array_upper_rule()
    }

    fn apply(&self, st: &mut Progress, e: Tree) -> (r: Tree) {
        if let Some(f) = e.payload("Function") {
            if last_part_spells(f.at("name"), "array_upper") {
                let renamed = Tree::variant("Function", f.with("name", mk_name1("array_length")));
                return mk_cast("Cast", renamed, Tree::variant("BigInt", Tree::Null));
            }
        }
        e
    }
}

/// `array_upper(a, d)` becomes `CAST(array_length(a, d) AS BIGINT)`: for arrays that start
/// at one the two are the same, and the length is unsigned.
pub fn rewrite_array_upper_to_array_length(sql: &str) -> (r: Result<String, SqlError>)
    ensures
        outcome(r) == rewritten_text(array_upper_rule(), Layout::Spaces, sql@),
{
    rewrite_text(&ArrayUpper, Layout::Spaces, sql)
}

/// The qualifier in the argument `qualifier.*`.
pub open spec fn wildcard_qualifier(arg: Syntax) -> Option<Seq<char>> {
    match arg.payload("Unnamed"@) {
        Some(a) => match a.payload("QualifiedWildcard"@) {
            Some(obj) => last_part_text(obj),
            None => None,
        },
        None => None,
    }
}

fn get_wildcard_qualifier(arg: &Tree) -> (r: Option<&String>)
    ensures
        match r {
            Some(s) => wildcard_qualifier(arg@) == Some(s@),
            None => wildcard_qualifier(arg@) is None,
        },
{
    match arg.payload("Unnamed") {
        Some(a) => match a.payload("QualifiedWildcard") {
            Some(obj) => get_last_part_text(obj),
            None => None,
        },
        None => None,
    }
}

/// The argument `qualifier.column`.
pub open spec fn column_arg(qualifier: Seq<char>, column: Seq<char>) -> Syntax {
    unnamed_arg(
        variant(
            "CompoundIdentifier"@,
            Syntax::List(seq![ident(qualifier), ident(column)]),
        ),
    )
}

fn mk_column_arg(qualifier: &str, column: &str) -> (r: Tree)
    ensures
        r@ == column_arg(qualifier@, column@),
{
    mk_unnamed_arg(
        Tree::variant("CompoundIdentifier", Tree::list2(mk_ident(qualifier), mk_ident(column))),
    )
}

/// The columns that stand for the two rows that a function of a domain's base type takes:
/// one of the attribute and two of the type.
pub open spec fn truetype_columns(name: Syntax) -> Option<(Seq<char>, Seq<char>, Seq<char>)> {
    if last_part_is(name, "_pg_truetypid"@) {
        Some(("atttypid"@, "typtype"@, "typbasetype"@))
    } else if last_part_is(name, "_pg_truetypmod"@) {
        Some(("atttypmod"@, "typtype"@, "typtypmod"@))
    } else {
        None
    }
}

fn get_truetype_columns(name: &Tree) -> (r: Option<(&'static str, &'static str, &'static str)>)
    ensures
        match r {
            Some(c) => truetype_columns(name@) == Some((c.0@, c.1@, c.2@)),
            None => truetype_columns(name@) is None,
        },
{
    if last_part_spells(name, "_pg_truetypid") {
        Some(("atttypid", "typtype", "typbasetype"))
    } else if last_part_spells(name, "_pg_truetypmod") {
        Some(("atttypmod", "typtype", "typtypmod"))
    } else {
        None
    }
}

/// `_pg_truetypid(a.atttypid, t.typtype, t.typbasetype)` for `_pg_truetypid(a.*, t.*)`, and
/// likewise for `_pg_truetypmod`; any other expression as it is.
pub open spec fn rows_as_columns(e: Syntax) -> Syntax {
    match e.payload("Function"@) {
        Some(f) => match (truetype_columns(f.at("name"@)), f.at("args"@).payload("List"@)) {
            (Some((c0, c1, c2)), Some(list)) => {
                let args = list.at("args"@);
                match (wildcard_qualifier(args.item(0)), wildcard_qualifier(args.item(1))) {
                    (Some(a), Some(t)) => if args.items().len() == 2 {
                        variant(
                            "Function"@,
                            f.with(
                                "args"@,
                                variant(
                                    "List"@,
                                    list.with(
                                        "args"@,
                                        Syntax::List(
                                            Seq::empty().push(column_arg(a, c0)).push(
                                                column_arg(t, c1),
                                            ).push(column_arg(t, c2)),
                                        ),
                                    ),
                                ),
                            ),
                        )
                    } else {
                        e
                    },
                    _ => e,
                }
            },
            _ => e,
        },
        None => e,
    }
}

/// Rows that are passed to `_pg_truetypid` and `_pg_truetypmod` become columns.
pub struct TruetypeArgs;

/// [`rows_as_columns`] as a rule.
pub open spec fn truetype_rule() -> Rule {
    |st: ProgressView, e: Syntax| (st, rows_as_columns(e))
}

impl Pass for TruetypeArgs {
    open spec fn rule(&self) -> Rule {
        truetype_rule()
    }

    fn apply(&self, st: &mut Progress, e: Tree) -> (r: Tree) {
        if let Some(f) = e.payload("Function") {
            if let Some((c0, c1, c2)) = get_truetype_columns(f.at("name")) {
                if let Some(list) = f.at("args").payload("List") {
                    let args = list.at("args");
                    if args.len() == 2 {
                        if let Some(a) = get_wildcard_qualifier(args.item(0)) {
                            if let Some(t) = get_wildcard_qualifier(args.item(1)) {
                                let mut columns = no_items();
                                push_item(&mut columns, mk_column_arg(a.as_str(), c0));
                                push_item(&mut columns, mk_column_arg(t.as_str(), c1));
                                push_item(&mut columns, mk_column_arg(t.as_str(), c2));
                                let list = list.with("args", Tree::list(columns));
                                return Tree::variant(
                                    "Function",
                                    f.with("args", Tree::variant("List", list)),
                                );
                            }
                        }
                    }
                }
            }
        }
        e
    }
}

/// `_pg_truetypid(a.*, t.*)` becomes `_pg_truetypid(a.atttypid, t.typtype, t.typbasetype)`,
/// and `_pg_truetypmod(a.*, t.*)` becomes
/// `_pg_truetypmod(a.atttypmod, t.typtype, t.typtypmod)`: a whole row cannot be passed.
pub fn rewrite_pg_truetypid_composite_args(sql: &str) -> (r: Result<String, SqlError>)
    ensures
        outcome(r) == rewritten_text(truetype_rule(), Layout::Spaces, sql@),
{
    rewrite_text(&TruetypeArgs, Layout::Spaces, sql)
}

// --- ARRAY(..) ----------------------------------------------------------------------

/// Whether a call is written `array(..)`.
pub open spec fn is_array_call(f: Syntax) -> bool {
    match last_part_text(f.at("name"@)) {
        Some(s) => lowercased(s) == "array"@,
        None => false,
    }
}

fn array_call(f: &Tree) -> (r: bool)
    ensures
        r == is_array_call(f@),
{
    match get_last_part_text(f.at("name")) {
        Some(s) => same(to_lowercase(s.as_str()).as_str(), "array"),
        None => false,
    }
}

/// The identifier that a select item without a name selects.
pub open spec fn item_column(item: Syntax) -> Option<Seq<char>> {
    match item.payload("UnnamedExpr"@) {
        Some(e) => match e.inner().payload("Identifier"@) {
            Some(id) => ident_text(id),
            None => None,
        },
        None => None,
    }
}

fn get_item_column(item: &Tree) -> (r: Option<&String>)
    ensures
        match r {
            Some(s) => item_column(item@) == Some(s@),
            None => item_column(item@) is None,
        },
{
    match item.payload("UnnamedExpr") {
        Some(e) => match e.inner().payload("Identifier") {
            Some(id) => get_ident_text(id),
            None => None,
        },
        None => None,
    }
}

/// Whether a `SELECT` reads from a single `UNNEST(..)`.
pub open spec fn from_unnest(select: Syntax) -> bool {
    let from = select.at("from"@);
    from.items().len() == 1 && from.item(0).at("relation"@).payload("UNNEST"@) is Some
}

fn reads_unnest(select: &Tree) -> (r: bool)
    ensures
        r == from_unnest(select@),
{
    let from = select.at("from");
    from.len() == 1 && from.item(0).at("relation").payload("UNNEST").is_some()
}

/// Whether `e` is the column `name`, in any case.
pub open spec fn is_column(e: Syntax, name: Seq<char>) -> bool {
    match e.payload("Identifier"@) {
        Some(id) => ident_is(id, name),
        None => false,
    }
}

fn is_bare_column(e: &Tree, name: &str) -> (r: bool)
    ensures
        r == is_column(e@, name@),
{
    match e.payload("Identifier") {
        Some(id) => ident_spells(id, name),
        None => false,
    }
}

/// Whether a query is `SELECT unnest FROM UNNEST(..) WHERE unnest > extversion`.
pub open spec fn selects_updates(q: Syntax) -> bool {
    match query_select(q) {
        Some(select) => {
            let items = select.at("projection"@);
            &&& from_unnest(select)
            &&& items.items().len() == 1
            &&& match items.item(0).payload("UnnamedExpr"@) {
                Some(e) => is_column(e.inner(), "unnest"@),
                None => false,
            }
            &&& match select.at("selection"@).inner().payload("BinaryOp"@) {
                Some(b) => b.at("op"@).is_text("Gt"@) && is_column(b.at("left"@).inner(), "unnest"@)
                    && is_column(b.at("right"@).inner(), "extversion"@),
                None => false,
            }
        },
        None => false,
    }
}

fn is_updates_query(q: &Tree) -> (r: bool)
    ensures
        r == selects_updates(q@),
{
    if let Some(select) = get_query_select(q) {
        let items = select.at("projection");
        if reads_unnest(select) && items.len() == 1 {
            if let Some(e) = items.item(0).payload("UnnamedExpr") {
                if is_bare_column(e.inner(), "unnest") {
                    if let Some(b) = select.at("selection").inner().payload("BinaryOp") {
                        return b.at("op").is_text("Gt") && is_bare_column(
                            b.at("left").inner(),
                            "unnest",
                        ) && is_bare_column(b.at("right").inner(), "extversion");
                    }
                }
            }
        }
    }
    false
}

/// Whether `e` is `ARRAY(SELECT unnest FROM UNNEST(..) WHERE unnest > extversion)`.
pub open spec fn is_available_updates(e: Syntax) -> bool {
    match e.payload("Function"@) {
        Some(f) => is_array_call(f) && match f.at("args"@).payload("Subquery"@) {
            Some(q) => selects_updates(q),
            None => false,
        },
        None => false,
    }
}

/// The list of the newer versions of an extension becomes `NULL`.
pub struct AvailableUpdates;

/// `NULL` for the list of newer versions of an extension; any other expression as it is.
pub open spec fn available_updates_rule() -> Rule {
    |st: ProgressView, e: Syntax| if is_available_updates(e) {
        (st.mark(), null_expr())
    } else {
        (st, e)
    }
}

impl Pass for AvailableUpdates {
    open spec fn rule(&self) -> Rule {
        available_updates_rule()
    }

    fn apply(&self, st: &mut Progress, e: Tree) -> (r: Tree) {
        if let Some(f) = e.payload("Function") {
            if array_call(f) {
                if let Some(q) = f.at("args").payload("Subquery") {
                    if is_updates_query(q) {
                        st.mark();
                        return mk_null_expr();
                    }
                }
            }
        }
        e
    }
}

/// `ARRAY(SELECT unnest FROM UNNEST(..) WHERE unnest > extversion)`, the list of the newer
/// versions of an extension, becomes `NULL`: it cannot be planned. A text without it is
/// handed back as it is.
pub fn rewrite_available_updates(sql: &str) -> (r: Result<String, SqlError>)
    ensures
        outcome(r) == changed_text(available_updates_rule(), false, sql@),
{
    change_text(&AvailableUpdates, false, sql)
}

/// The operand of `ARRAY(..)`, or why it has none.
pub open spec fn array_operand(f: Syntax) -> Result<Syntax, Seq<char>> {
    match f.at("args"@).payload("List"@) {
        Some(list) => if list.at("args"@).items().len() != 1 {
            Err("ARRAY() must have exactly one argument"@)
        } else {
            match arg_expr(list.at("args"@).item(0)) {
                Some(e) => Ok(e),
                None => Err("ARRAY() argument must be an expression"@),
            }
        },
        None => match f.at("args"@).payload("Subquery"@) {
            Some(q) => Ok(variant("Subquery"@, q)),
            None => Err("ARRAY() with unsupported argument form"@),
        },
    }
}

fn get_array_operand(f: &Tree) -> (r: Result<Tree, &'static str>)
    ensures
        match r {
            Ok(t) => array_operand(f@) == Ok::<Syntax, Seq<char>>(t@),
            Err(s) => array_operand(f@) == Err::<Syntax, Seq<char>>(s@),
        },
{
    if let Some(list) = f.at("args").payload("List") {
        if list.at("args").len() != 1 {
            return Err("ARRAY() must have exactly one argument");
        }
        return match get_arg_expr(list.at("args").item(0)) {
            Some(e) => Ok(e.copy()),
            None => Err("ARRAY() argument must be an expression"),
        };
    }
    match f.at("args").payload("Subquery") {
        Some(q) => Ok(Tree::variant("Subquery", q.copy())),
        None => Err("ARRAY() with unsupported argument form"),
    }
}

/// Whether `e` is the literal `NULL`.
pub open spec fn is_null_literal(e: Syntax) -> bool {
    match e.payload("Value"@) {
        Some(v) => v.at("value"@).is_text("Null"@),
        None => false,
    }
}

fn null_literal(e: &Tree) -> (r: bool)
    ensures
        r == is_null_literal(e@),
{
    match e.payload("Value") {
        Some(v) => v.at("value").is_text("Null"),
        None => false,
    }
}

/// Whether a select item is `NULL` or a cast of `NULL`.
pub open spec fn selects_null(item: Syntax) -> bool {
    match item.payload("UnnamedExpr"@) {
        Some(e) => is_null_literal(e.inner()) || match e.inner().payload("Cast"@) {
            Some(c) => is_null_literal(c.at("expr"@).inner()),
            None => false,
        },
        None => false,
    }
}

fn item_is_null(item: &Tree) -> (r: bool)
    ensures
        r == selects_null(item@),
{
    match item.payload("UnnamedExpr") {
        Some(e) => null_literal(e.inner()) || (match e.inner().payload("Cast") {
            Some(c) => null_literal(c.at("expr").inner()),
            None => false,
        }),
        None => false,
    }
}

/// Whether a select item without a name is the column `unnest`.
pub open spec fn selects_unnest(item: Syntax) -> bool {
    match item_column(item) {
        Some(s) => lowercased(s) == "unnest"@,
        None => false,
    }
}

fn item_is_unnest(item: &Tree) -> (r: bool)
    ensures
        r == selects_unnest(item@),
{
    match get_item_column(item) {
        Some(s) => same(to_lowercase(s.as_str()).as_str(), "unnest"),
        None => false,
    }
}

/// What a subquery `(SELECT unnest FROM UNNEST(a))` or `(SELECT NULL FROM UNNEST(a))` makes
/// an array of: `a` itself, or `NULL`.
pub open spec fn unnest_shortcut(e: Syntax) -> Option<Syntax> {
    match e.payload("Subquery"@) {
        Some(q) => match query_select(q) {
            Some(select) => {
                let items = select.at("projection"@);
                let arrays = select.at("from"@).item(0).at("relation"@).payload("UNNEST"@)->0.at(
                    "array_exprs"@,
                );
                if !from_unnest(select) || items.items().len() != 1 || select.at("selection"@)
                    != Syntax::Null || select.at("from"@).item(0).at(
                    "joins"@,
                ).items().len() != 0 || !is_body_alone(q) || !is_plain_select(select) {
                    None
                } else if selects_unnest(items.item(0)) {
                    if arrays.items().len() == 1 {
                        Some(operand(arrays.item(0).inner()))
                    } else {
                        None
                    }
                } else if selects_null(items.item(0)) {
                    Some(cast("Cast"@, null_expr(), text_type()))
                } else {
                    None
                }
            },
            None => None,
        },
        None => None,
    }
}

fn get_unnest_shortcut(e: &Tree) -> (r: Option<Tree>)
    ensures
        match r {
            Some(t) => unnest_shortcut(e@) == Some(t@),
            None => unnest_shortcut(e@) is None,
        },
{
    if let Some(q) = e.payload("Subquery") {
        if let Some(select) = get_query_select(q) {
            let items = select.at("projection");
            let from = select.at("from");
            if from.len() == 1 && items.len() == 1 && select.at("selection").is_null()
                && from.item(0).at("joins").len() == 0 && body_alone(q) && plain_select(select) {
                if let Some(u) = from.item(0).at("relation").payload("UNNEST") {
                    let arrays = u.at("array_exprs");
                    if item_is_unnest(items.item(0)) {
                        if arrays.len() == 1 {
                            return Some(mk_operand(arrays.item(0).inner()));
                        }
                    } else if item_is_null(items.item(0)) {
                        return Some(mk_cast("Cast", mk_null_expr(), Tree::of_text("Text")));
                    }
                }
            }
        }
    }
    None
}

/// `operand` in parentheses, unless it has them.
pub open spec fn parenthesized(operand: Syntax) -> Syntax {
    if operand.payload("Subquery"@) is Some || operand.payload("Nested"@) is Some {
        operand
    } else {
        nested(operand)
    }
}

/// `pg_catalog.pg_get_array((operand))`.
pub open spec fn get_array_call(operand: Syntax) -> Syntax {
    call1(name2("pg_catalog"@, "pg_get_array"@), parenthesized(operand))
}

/// What becomes of `ARRAY(..)`: the array that is unnested, `NULL`, or a call of
/// `pg_catalog.pg_get_array`; a call with another argument list is refused.
pub open spec fn array_rewritten(st: ProgressView, e: Syntax) -> (ProgressView, Syntax) {
    match e.payload("Function"@) {
        Some(f) => if is_array_call(f) {
            match array_operand(f) {
                Ok(operand) => match unnest_shortcut(operand) {
                    Some(t) => (st.mark(), t),
                    None => (st.mark(), get_array_call(operand)),
                },
                Err(why) => (st.give_up(why), e),
            }
        } else {
            (st, e)
        },
        None => (st, e),
    }
}

/// `ARRAY(subquery)` becomes a call of `pg_catalog.pg_get_array`.
pub struct ArraySubqueries;

/// [`array_rewritten`] as a rule.
pub open spec fn array_rule() -> Rule {
    |st: ProgressView, e: Syntax| array_rewritten(st, e)
}

impl Pass for ArraySubqueries {
    open spec fn rule(&self) -> Rule {
        array_rule()
    }

    fn apply(&self, st: &mut Progress, e: Tree) -> (r: Tree) {
        if let Some(f) = e.payload("Function") {
            if array_call(f) {
                return match get_array_operand(f) {
                    Ok(operand) => {
                        st.mark();
                        match get_unnest_shortcut(&operand) {
                            Some(t) => t,
                            None => {
                                let bare = operand.payload("Subquery").is_none()
                                    && operand.payload("Nested").is_none();
                                let argument = if bare {
                                    mk_nested(operand)
                                } else {
                                    operand
                                };
                                mk_call1(mk_name2("pg_catalog", "pg_get_array"), argument)
                            },
                        }
                    },
                    Err(why) => {
                        st.give_up(why);
                        e
                    },
                };
            }
        }
        e
    }
}

/// `ARRAY(subquery)` becomes `pg_catalog.pg_get_array((subquery))`. The array itself stands
/// for `ARRAY(SELECT unnest FROM UNNEST(array))`. A call with another argument list is
/// refused, and a text without such calls is handed back as it is.
pub fn rewrite_array_subquery(sql: &str) -> (r: Result<String, SqlError>)
    ensures
        outcome(r) == changed_text(array_rule(), false, sql@),
{
    change_text(&ArraySubqueries, false, sql)
}

// --- literals -------------------------------------------------------------------------

/// The time zone literal of `AT TIME ZONE`, if it is `utc` but not in capitals.
pub open spec fn is_lower_utc(e: Syntax) -> bool {
    match e.payload("AtTimeZone"@) {
        Some(a) => match string_literal(a.at("time_zone"@).inner()) {
            Some(s) => same_ignoring_case(s, "utc"@) && s != "UTC"@,
            None => false,
        },
        None => false,
    }
}

/// `e` with the time zone literal `UTC`; the position of the literal is kept.
pub open spec fn with_utc(e: Syntax) -> Syntax {
    let a = e.payload("AtTimeZone"@)->0;
    let v = a.at("time_zone"@).inner().payload("Value"@)->0;
    variant(
        "AtTimeZone"@,
        a.with(
            "time_zone"@,
            expr_node(
                variant(
                    "Value"@,
                    v.with("value"@, variant("SingleQuotedString"@, Syntax::Text("UTC"@))),
                ),
            ),
        ),
    )
}

/// `AT TIME ZONE 'utc'` becomes `AT TIME ZONE 'UTC'`.
pub struct UtcTimeZone;

/// `AT TIME ZONE 'UTC'` for any other spelling of `utc`; any other expression as it is.
pub open spec fn utc_rule() -> Rule {
    |st: ProgressView, e: Syntax| if is_lower_utc(e) {
        (st.mark(), with_utc(e))
    } else {
        (st, e)
    }
}

impl Pass for UtcTimeZone {
    open spec fn rule(&self) -> Rule {
        utc_rule()
    }

    fn apply(&self, st: &mut Progress, e: Tree) -> (r: Tree) {
        if let Some(a) = e.payload("AtTimeZone") {
            let zone = a.at("time_zone").inner();
            if let Some(s) = get_string_literal(zone) {
                if eq_ignoring_case(s.as_str(), "utc") && !same(s.as_str(), "UTC") {
                    if let Some(v) = zone.payload("Value") {
                        st.mark();
                        let utc = Tree::variant("SingleQuotedString", Tree::of_text("UTC"));
                        let literal = Tree::variant("Value", v.with("value", utc));
                        return Tree::variant(
                            "AtTimeZone",
                            a.with("time_zone", Tree::expr(literal)),
                        );
                    }
                }
            }
        }
        e
    }
}

/// The time zone `utc` is written in capitals after `AT TIME ZONE`. A text where it is, or
/// without it, is handed back as it is.
pub fn rewrite_time_zone_utc(sql: &str) -> (r: Result<String, SqlError>)
    ensures
        outcome(r) == changed_text(utc_rule(), false, sql@),
{
    change_text(&UtcTimeZone, false, sql)
}

/// Whether a text is in curly braces.
pub open spec fn is_braced(s: Seq<char>) -> bool {
    s.len() >= 2 && s[0] == '{' && s[s.len() - 1] == '}'
}

/// Where the reader of an array in curly braces stands.
#[derive(Clone, Copy, Debug, PartialEq, Eq, Structural)]
pub enum Place {
    /// Behind an opening brace.
    Opened,
    /// Behind a comma.
    Awaiting,
    /// In an element without quotes.
    Plain,
    /// In an element in quotes.
    Quoted,
    /// Behind an element in quotes or in braces.
    Done,
    /// Behind what no array has.
    Lost,
}

/// Where the reader stands, in how many braces within the outer ones, and whether a backslash
/// takes the next character as it is.
pub struct Reading {
    pub place: Place,
    pub depth: nat,
    pub escaped: bool,
}

/// The reading after the character `c` at a place.
pub open spec fn read_on(r: Reading, c: char) -> Reading {
    let at = |place: Place| Reading { place, depth: r.depth, escaped: false };
    let closed = if r.depth > 0 {
        Reading { place: Place::Done, depth: (r.depth - 1) as nat, escaped: false }
    } else {
        at(Place::Lost)
    };
    if r.escaped {
        at(r.place)
    } else {
        match r.place {
            Place::Lost => r,
            Place::Quoted => if c == '\\' {
                Reading { place: Place::Quoted, depth: r.depth, escaped: true }
            } else if c == '"' {
                at(Place::Done)
            } else {
                r
            },
            Place::Done => if c == ',' {
                at(Place::Awaiting)
            } else if c == '}' {
                closed
            } else if is_space(c) {
                r
            } else {
                at(Place::Lost)
            },
            Place::Plain => if c == '\\' {
                Reading { place: Place::Plain, depth: r.depth, escaped: true }
            } else if c == ',' {
                at(Place::Awaiting)
            } else if c == '}' {
                closed
            } else if c == '"' || c == '{' {
                at(Place::Lost)
            } else {
                r
            },
            _ => if c == '\\' {
                Reading { place: Place::Plain, depth: r.depth, escaped: true }
            } else if c == '"' {
                at(Place::Quoted)
            } else if c == '{' {
                Reading { place: Place::Opened, depth: r.depth + 1, escaped: false }
            } else if c == '}' && r.place == Place::Opened {
                closed
            } else if c == '}' || c == ',' {
                at(Place::Lost)
            } else if is_space(c) {
                r
            } else {
                at(Place::Plain)
            },
        }
    }
}

/// The reading after the first `n` characters of what is in the braces.
pub open spec fn read_until(s: Seq<char>, n: nat) -> Reading
    decreases n,
{
    if n == 0 {
        Reading { place: Place::Opened, depth: 0, escaped: false }
    } else {
        read_on(read_until(s, (n - 1) as nat), s[n - 1])
    }
}

/// Whether a text in curly braces is no array: a quoted element is not closed or something
/// stands beside it, an element is missing, or braces do not match.
pub open spec fn is_malformed(s: Seq<char>) -> bool {
    let inside = s.subrange(1, s.len() - 1);
    let r = read_until(inside, inside.len());
    ||| r.escaped
    ||| r.depth > 0
    ||| r.place == Place::Awaiting
    ||| r.place == Place::Quoted
    ||| r.place == Place::Lost
}

fn malformed(s: &str) -> (r: bool)
    requires
        is_braced(s@),
    ensures
        r == is_malformed(s@),
{
    let v = chars(s);
    let n: usize = v.len() - 2;
    let ghost inside = s@.subrange(1, s@.len() - 1);
    let mut place = Place::Opened;
    let mut depth: usize = 0;
    let mut escaped = false;
    let mut i: usize = 0;
    while i < n
        invariant
            i <= n,
            n + 2 == v@.len(),
            v@ == s@,
            inside == s@.subrange(1, s@.len() - 1),
            n == inside.len(),
            depth <= i,
            read_until(inside, i as nat) == (Reading { place, depth: depth as nat, escaped }),
        decreases n - i,
    {
        let c = v[i + 1];
        assert(inside[i as int] == c);
        let waits = place == Place::Opened || place == Place::Awaiting;
        if escaped {
            escaped = false;
        } else if place == Place::Lost {
        } else if place == Place::Quoted {
            if c == '\\' {
                escaped = true;
            } else if c == '"' {
                place = Place::Done;
            }
        } else if c == '\\' && place != Place::Done {
            place = Place::Plain;
            escaped = true;
        } else if c == ',' {
            place = if waits {
                Place::Lost
            } else {
                Place::Awaiting
            };
        } else if c == '}' {
            if place == Place::Awaiting || depth == 0 {
                place = Place::Lost;
            } else {
                place = Place::Done;
                depth = depth - 1;
            }
        } else if waits {
            if c == '"' {
                place = Place::Quoted;
            } else if c == '{' {
                place = Place::Opened;
                depth = depth + 1;
            } else if !space(c) {
                place = Place::Plain;
            }
        } else if place == Place::Plain {
            if c == '"' || c == '{' {
                place = Place::Lost;
            }
        } else if !space(c) {
            place = Place::Lost;
        }
        i = i + 1;
    }
    escaped || depth > 0 || place == Place::Awaiting || place == Place::Quoted || place
        == Place::Lost
}

/// That a literal is no array.
pub open spec fn malformed_literal(s: Seq<char>) -> Seq<char> {
    "malformed array literal: "@ + s
}

fn mk_malformed_literal(s: &str) -> (r: String)
    ensures
        r@ == malformed_literal(s@),
{
    let mut out = "malformed array literal: ".to_owned();
    out.append(s);
    out
}

/// One element of an array in curly braces: without the quotes around it, and then without
/// white space.
pub open spec fn brace_element(s: Seq<char>) -> Syntax {
    expr_node(string_expr(trimmed(Trim::Space, trimmed(Trim::DoubleQuotes, s))))
}

/// The elements of an array in curly braces.
pub open spec fn brace_elements(s: Seq<char>) -> Seq<Syntax> {
    let pieces = split(s.subrange(1, s.len() - 1), ',');
    Seq::new(pieces.len(), |i: int| brace_element(pieces[i]))
}

/// `ARRAY['a', 'b']` for the literal `'{a,b}'`.
pub open spec fn brace_array(s: Seq<char>) -> Syntax {
    variant(
        "Array"@,
        Syntax::Record(
            Seq::empty().push(("elem"@, Syntax::List(brace_elements(s)))).push(
                ("named"@, Syntax::Bool(false)),
            ),
        ),
    )
}

fn mk_brace_array(s: &str) -> (r: Tree)
    requires
        is_braced(s@),
    ensures
        r@ == brace_array(s@),
{
    let v = chars(s);
    let n: usize = v.len();
    let inside = slice_text(&v, 1, n - 1);
    let pieces = split_text(inside.as_str(), ',');
    let ghost goal = brace_elements(s@);
    let mut out = no_items();
    let mut i: usize = 0;
    assert(views(pieces@).len() == pieces@.len());
    while i < pieces.len()
        invariant
            i <= pieces@.len(),
            goal == brace_elements(s@),
            views(pieces@) == split(s@.subrange(1, s@.len() - 1), ','),
            goal.len() == pieces@.len(),
            list_of(out@) == goal.take(i as int),
        decreases pieces@.len() - i,
    {
        let bare = trim(Trim::Space, trim(Trim::DoubleQuotes, pieces[i].as_str()).as_str());
        let item = Tree::expr(mk_string_expr(bare.as_str()));
        assert(views(pieces@)[i as int] == pieces@[i as int]@);
        push_item(&mut out, item);
        i = i + 1;
        assert(goal.take(i as int) =~= goal.take(i - 1).push(item@));
    }
    assert(goal.take(i as int) =~= goal);
    let f = put(no_fields(), "elem", Tree::list(out));
    Tree::variant("Array", Tree::record(put(f, "named", Tree::Bool(false))))
}

fn braced(s: &str) -> (r: bool)
    ensures
        r == is_braced(s@),
{
    let v = chars(s);
    let n: usize = v.len();
    n >= 2 && v[0] == '{' && v[n - 1] == '}'
}

/// An array for a literal in curly braces; any other expression as it is. A literal that is no
/// array is given up on.
pub open spec fn braces_rewritten(st: ProgressView, e: Syntax) -> (ProgressView, Syntax) {
    match string_literal(e) {
        Some(s) => if is_braced(s) && is_malformed(s) {
            (st.give_up(malformed_literal(s)), e)
        } else if is_braced(s) {
            (st.mark(), brace_array(s))
        } else {
            (st, e)
        },
        None => (st, e),
    }
}

/// Literals in curly braces become arrays.
pub struct BraceArrays;

/// [`braces_rewritten`] as a rule.
pub open spec fn brace_rule() -> Rule {
    |st: ProgressView, e: Syntax| braces_rewritten(st, e)
}

impl Pass for BraceArrays {
    open spec fn rule(&self) -> Rule {
        brace_rule()
    }

    fn apply(&self, st: &mut Progress, e: Tree) -> (r: Tree) {
        if let Some(s) = get_string_literal(&e) {
            if braced(s.as_str()) {
                if malformed(s.as_str()) {
                    st.give_up(mk_malformed_literal(s.as_str()).as_str());
                    return e;
                }
                st.mark();
                return mk_brace_array(s.as_str());
            }
        }
        e
    }
}

/// The literal `'{a,b}'` becomes `ARRAY['a', 'b']`. A text without such literals is handed
/// back as it is, and one with a malformed literal is an error.
pub fn rewrite_brace_array_literal(sql: &str) -> (r: Result<String, SqlError>)
    ensures
        outcome(r) == changed_text(brace_rule(), true, sql@),
{
    change_text(&BraceArrays, true, sql)
}

} // verus!
