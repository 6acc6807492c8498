//! Columns that hold a function's name where PostgreSQL holds its object id.
use super::ast::{
    bigint_type, call1, cast, custom_type, get_custom_type, get_ident_text, ident_text, mk_call1,
    mk_cast, mk_name1, name1, object_name_is, object_name_matches,
};
use super::casts::{is_value_of, value_has_kind};
use super::parse::{outcome, SqlError};
use super::rewrite::{rewrite_text, rewritten_text, Layout};
use super::tree::{
    at_is_smaller, expr_node, inner_is_smaller, payload_is_smaller, variant, Syntax, Tree,
};
use super::walk::{Pass, Progress, ProgressView, Rule};
use crate::text::{eq_ignoring_case, same_ignoring_case};
use vstd::prelude::*;

verus! {

/// The catalog columns that PostgreSQL declares as `regproc`. The catalog holds the
/// name of the function in them.
pub const REGPROC_COLUMN_NAMES: [&'static str; 35] = [
    "aggcombinefn",
    "aggdeserialfn",
    "aggfinalfn",
    "aggfnoid",
    "aggmfinalfn",
    "aggminvtransfn",
    "aggmtransfn",
    "aggserialfn",
    "aggtransfn",
    "amhandler",
    "amproc",
    "conproc",
    "oprcode",
    "oprjoin",
    "oprrest",
    "prosupport",
    "prsend",
    "prsheadline",
    "prslextype",
    "prsstart",
    "prstoken",
    "rngcanonical",
    "rngsubdiff",
    "tmplinit",
    "tmpllexize",
    "trffromsql",
    "trftosql",
    "typanalyze",
    "typinput",
    "typmodin",
    "typmodout",
    "typoutput",
    "typreceive",
    "typsend",
    "typsubscript",
];

/// Whether `s` is the name of a `regproc` column, in any case.
pub open spec fn is_regproc_name(s: Seq<char>) -> bool {
    exists|i: int|
        0 <= i < 35 && same_ignoring_case((#[trigger] REGPROC_COLUMN_NAMES@[i])@, s)
}

/// The identifier that a column reference ends in.
pub open spec fn column_ident(e: Syntax) -> Option<Syntax> {
    match e.payload("Identifier"@) {
        Some(id) => Some(id),
        None => match e.payload("CompoundIdentifier"@) {
            Some(parts) => if parts.items().len() > 0 {
                Some(parts.items()[parts.items().len() - 1])
            } else {
                None
            },
            None => None,
        },
    }
}

pub fn get_column_ident(e: &Tree) -> (r: Option<&Tree>)
    ensures
        match r {
            Some(t) => column_ident(e@) == Some(t@),
            None => column_ident(e@) is None,
        },
{
    if let Some(id) = e.payload("Identifier") {
        return Some(id);
    }
    if let Some(parts) = e.payload("CompoundIdentifier") {
        let n: usize = parts.len();
        if n > 0 {
            return Some(parts.item(n - 1));
        }
    }
    None
}

/// Whether `e` reads a `regproc` column, bare or qualified.
pub open spec fn is_regproc(e: Syntax) -> bool {
    match column_ident(e) {
        Some(id) => match ident_text(id) {
            Some(s) => is_regproc_name(s),
            None => false,
        },
        None => false,
    }
}

fn known_regproc_name(s: &str) -> (r: bool)
    ensures
        r == is_regproc_name(s@),
{
    let mut i: usize = 0;
    while i < 35
        invariant
            i <= 35,
            forall|j: int|
                0 <= j < i ==> !same_ignoring_case((#[trigger] REGPROC_COLUMN_NAMES@[j])@, s@),
        decreases 35 - i,
    {
        if eq_ignoring_case(REGPROC_COLUMN_NAMES[i], s) {
            assert(same_ignoring_case(REGPROC_COLUMN_NAMES@[i as int]@, s@));
            return true;
        }
        i = i + 1;
    }
    false
}

/// Whether `e` reads a `regproc` column, bare or qualified.
fn is_regproc_column(e: &Tree) -> (r: bool)
    ensures
        r == is_regproc(e@),
{
    match get_column_ident(e) {
        Some(id) => match get_ident_text(id) {
            Some(s) => known_regproc_name(s.as_str()),
            None => false,
        },
        None => false,
    }
}

/// Whether `e` is a text literal, also under casts.
pub open spec fn is_text_literal(e: Syntax) -> bool
    decreases e,
{
    proof {
        payload_is_smaller(e, "Cast"@);
        at_is_smaller(e.payload("Cast"@)->0, "expr"@);
        inner_is_smaller(e.payload("Cast"@)->0.at("expr"@));
    }
    ||| is_value_of(e, "SingleQuotedString"@)
    ||| is_value_of(e, "DoubleQuotedString"@)
    ||| match e.payload("Cast"@) {
        Some(c) => c.at("expr"@) != Syntax::Null && is_text_literal(c.at("expr"@).inner()),
        None => false,
    }
}

fn text_literal(e: &Tree) -> (r: bool)
    ensures
        r == is_text_literal(e@),
    decreases e@,
{
    proof {
        payload_is_smaller(e@, "Cast"@);
        at_is_smaller(e@.payload("Cast"@)->0, "expr"@);
        inner_is_smaller(e@.payload("Cast"@)->0.at("expr"@));
    }
    if value_has_kind(e, "SingleQuotedString") || value_has_kind(e, "DoubleQuotedString") {
        return true;
    }
    match e.payload("Cast") {
        Some(c) => !c.at("expr").is_null() && text_literal(c.at("expr").inner()),
        None => false,
    }
}

/// The call `pg_proc_oid(e)`, which gives the object id of the function named `e`.
pub open spec fn proc_oid(e: Syntax) -> Syntax {
    call1(name1("pg_proc_oid"@), e)
}

fn mk_proc_oid(e: &Tree) -> (r: Tree)
    ensures
        r@ == proc_oid(e@),
{
    mk_call1(mk_name1("pg_proc_oid"), e.copy())
}

/// A cast to `oid` as what gives the object id: a cast of a number or a placeholder
/// to `BIGINT`, `pg_proc_oid` of a `regproc` column, and `oid` of anything else. Any
/// other expression as it is.
pub open spec fn oid_resolved(e: Syntax) -> Syntax {
    match e.payload("Cast"@) {
        Some(c) => {
            let inner = c.at("expr"@).inner();
            match custom_type(c.at("data_type"@)) {
                Some(obj) => if !object_name_is(obj, "oid"@) {
                    e
                } else if is_value_of(inner, "Number"@) || is_value_of(inner, "Placeholder"@) {
                    cast("DoubleColon"@, inner, bigint_type())
                } else if is_regproc(inner) {
                    proc_oid(inner)
                } else {
                    call1(name1("oid"@), inner)
                },
                None => e,
            }
        },
        None => e,
    }
}

/// Casts to `oid` become what gives the object id.
pub struct OidCasts;

/// [`oid_resolved`] as a rule.
pub open spec fn oid_rule() -> Rule {
    |st: ProgressView, e: Syntax| (st, oid_resolved(e))
}

impl Pass for OidCasts {
    open spec fn rule(&self) -> Rule {
        oid_rule()
    }

    fn apply(&self, st: &mut Progress, e: Tree) -> (r: Tree) {
        if let Some(c) = e.payload("Cast") {
            let inner = c.at("expr").inner();
            if let Some(obj) = get_custom_type(c.at("data_type")) {
                if object_name_matches(obj, "oid") {
                    return if value_has_kind(inner, "Number") || value_has_kind(
                        inner,
                        "Placeholder",
                    ) {
                        mk_cast("DoubleColon", inner.copy(), Tree::variant("BigInt", Tree::Null))
                    } else if is_regproc_column(inner) {
                        mk_proc_oid(inner)
                    } else {
                        mk_call1(mk_name1("oid"), inner.copy())
                    };
                }
            }
        }
        e
    }
}

/// Casts to `oid` become casts of numbers and placeholders to `BIGINT`, and calls that
/// look the name up for everything else: `pg_proc_oid` for the columns that hold a
/// function name, `oid` for the rest.
pub fn rewrite_oid_cast(sql: &str) -> (r: Result<String, SqlError>)
    ensures
        outcome(r) == rewritten_text(oid_rule(), Layout::Semicolons, sql@),
{
    rewrite_text(&OidCasts, Layout::Semicolons, sql)
}

/// One side of a comparison with a `regproc` column: a text literal is resolved.
pub open spec fn literal_resolved(e: Syntax) -> Syntax {
    if is_text_literal(e) {
        proc_oid(e)
    } else {
        e
    }
}

/// `=` or `<>` between a `regproc` column and something else as a comparison of object
/// ids; a comparison of two `regproc` columns, and any other expression, as it is.
pub open spec fn regproc_comparison(e: Syntax) -> Syntax {
    match e.payload("BinaryOp"@) {
        Some(b) => {
            let left = b.at("left"@).inner();
            let right = b.at("right"@).inner();
            if !b.at("op"@).is_text("Eq"@) && !b.at("op"@).is_text("NotEq"@) {
                e
            } else if is_regproc(left) == is_regproc(right) {
                e
            } else if is_regproc(left) {
                variant(
                    "BinaryOp"@,
                    b.with("left"@, expr_node(proc_oid(left))).with(
                        "right"@,
                        expr_node(literal_resolved(right)),
                    ),
                )
            } else {
                variant(
                    "BinaryOp"@,
                    b.with("left"@, expr_node(literal_resolved(left))).with(
                        "right"@,
                        expr_node(proc_oid(right)),
                    ),
                )
            }
        },
        None => e,
    }
}

fn resolve_literal(e: &Tree) -> (r: Tree)
    ensures
        r@ == literal_resolved(e@),
{
    if text_literal(e) {
        mk_proc_oid(e)
    } else {
        e.copy()
    }
}

/// Comparisons of `regproc` columns become comparisons of object ids.
pub struct RegprocComparisons;

/// [`regproc_comparison`] as a rule.
pub open spec fn regproc_rule() -> Rule {
    |st: ProgressView, e: Syntax| (st, regproc_comparison(e))
}

impl Pass for RegprocComparisons {
    open spec fn rule(&self) -> Rule {
        regproc_rule()
    }

    fn apply(&self, st: &mut Progress, e: Tree) -> (r: Tree) {
        if let Some(b) = e.payload("BinaryOp") {
            let left = b.at("left").inner();
            let right = b.at("right").inner();
            if b.at("op").is_text("Eq") || b.at("op").is_text("NotEq") {
                let on_left = is_regproc_column(left);
                let on_right = is_regproc_column(right);
                if on_left && !on_right {
                    let changed = b.with("left", Tree::expr(mk_proc_oid(left)));
                    return Tree::variant(
                        "BinaryOp",
                        changed.with("right", Tree::expr(resolve_literal(right))),
                    );
                }
                if on_right && !on_left {
                    let changed = b.with("left", Tree::expr(resolve_literal(left)));
                    return Tree::variant(
                        "BinaryOp",
                        changed.with("right", Tree::expr(mk_proc_oid(right))),
                    );
                }
            }
        }
        e
    }
}

/// Comparisons of `regproc` columns become comparisons of object ids, by way of
/// `pg_proc_oid`; a function name that is written as a literal is resolved in the same
/// way. Two `regproc` columns are compared by name.
pub fn resolve_regproc_columns_to_oids_in_comparisons(sql: &str) -> (r: Result<String, SqlError>)
    ensures
        outcome(r) == rewritten_text(regproc_rule(), Layout::Semicolons, sql@),
{
    rewrite_text(&RegprocComparisons, Layout::Semicolons, sql)
}

} // verus!
