//! Rewrites of casts to types that the query engine does not know.
use super::ast::{
    bigint_type, call, call1, char_type, custom_type, get_arg_expr, get_custom_type,
    get_string_literal, is_pg_catalog_name, last_part_is, last_part_spells, mk_call, mk_call1,
    mk_name1, mk_name2, mk_null_expr, mk_operand, mk_string_expr, mk_unnamed_arg, name1, name2,
    name_prints_as, name_shows, null_expr, object_name_is, object_name_matches, operand, part_is,
    part_spells, pg_catalog_name_is, string_expr, string_literal, text_type, unnamed_arg,
};
use super::ast::arg_expr;
use super::parse::{outcome, SqlError};
use super::rewrite::{
    rewrite_text, rewrite_text_explicit, rewritten_text, rewritten_text_explicit, Layout,
};
use super::tree::{variant, Syntax, Tree};
use super::walk::{Pass, Progress, ProgressView, Rule};
use vstd::prelude::*;

verus! {

// --- casts to one named type -------------------------------------------------

/// Casts to the unknown type `ty_name` become casts to `target`.
pub struct CustomCast {
    pub ty_name: String,
    pub target: Tree,
}

/// The cast `e` with the type that `target` says, if it is a cast to the unknown
/// type `ty_name`.
pub open spec fn recast(e: Syntax, ty_name: Seq<char>, target: Syntax) -> Syntax {
    match e.payload("Cast"@) {
        Some(c) => match custom_type(c.at("data_type"@)) {
            Some(obj) => if object_name_is(obj, ty_name) {
                variant("Cast"@, c.with("data_type"@, target))
            } else {
                e
            },
            None => e,
        },
        None => e,
    }
}

/// [`recast`] as a rule.
pub open spec fn recast_rule(ty_name: Seq<char>, target: Syntax) -> Rule {
    |st: ProgressView, e: Syntax| (st, recast(e, ty_name, target))
}

impl Pass for CustomCast {
    open spec fn rule(&self) -> Rule {
        recast_rule(self.ty_name@, self.target@)
    }

    fn apply(&self, st: &mut Progress, e: Tree) -> (r: Tree) {
        if let Some(c) = e.payload("Cast") {
            if let Some(obj) = get_custom_type(c.at("data_type")) {
                if object_name_matches(obj, self.ty_name.as_str()) {
                    return Tree::variant("Cast", c.with("data_type", self.target.copy()));
                }
            }
        }
        e
    }
}

/// Rewrites every cast to the unknown type `ty_name`, bare or in `pg_catalog`, into
/// a cast to `target`; other casts are left alone.
pub fn rewrite_custom_type_cast_target(sql: &str, ty_name: &str, target: Tree) -> (r: Result<
    String,
    SqlError,
>)
    ensures
        outcome(r) == rewritten_text(
            recast_rule(ty_name@, target@),
            Layout::Semicolons,
            sql@,
        ),
{
    let p = CustomCast { ty_name: ty_name.to_owned(), target };
    rewrite_text(&p, Layout::Semicolons, sql)
}


/// Casts to `regtype` become casts to `TEXT`.
pub fn rewrite_regtype_cast(sql: &str) -> (r: Result<String, SqlError>)
    ensures
        outcome(r) == rewritten_text(
            recast_rule("regtype"@, text_type()),
            Layout::Semicolons,
            sql@,
        ),
{
    rewrite_custom_type_cast_target(sql, "regtype", Tree::of_text("Text"))
}

/// Casts to `pg_catalog.char` become casts to `CHAR`.
pub fn rewrite_char_cast(sql: &str) -> (r: Result<String, SqlError>)
    ensures
        outcome(r) == rewritten_text(
            recast_rule("char"@, char_type()),
            Layout::Semicolons,
            sql@,
        ),
{
    rewrite_custom_type_cast_target(sql, "char", Tree::variant("Char", Tree::Null))
}

/// Casts to `xid` become casts to `BIGINT`: transaction ids are 64-bit integers in
/// the catalog.
pub fn rewrite_xid_cast(sql: &str) -> (r: Result<String, SqlError>)
    ensures
        outcome(r) == rewritten_text(
            recast_rule("xid"@, bigint_type()),
            Layout::Semicolons,
            sql@,
        ),
{
    rewrite_custom_type_cast_target(sql, "xid", Tree::variant("BigInt", Tree::Null))
}

/// Casts to `name` become casts to `TEXT`.
pub fn rewrite_name_cast(sql: &str) -> (r: Result<String, SqlError>)
    ensures
        outcome(r) == rewritten_text(
            recast_rule("name"@, text_type()),
            Layout::Semicolons,
            sql@,
        ),
{
    rewrite_custom_type_cast_target(sql, "name", Tree::of_text("Text"))
}

/// Casts to `regoperator` become casts to `TEXT`.
pub fn rewrite_regoperator_cast(sql: &str) -> (r: Result<String, SqlError>)
    ensures
        outcome(r) == rewritten_text(
            recast_rule("regoperator"@, text_type()),
            Layout::Semicolons,
            sql@,
        ),
{
    rewrite_custom_type_cast_target(sql, "regoperator", Tree::of_text("Text"))
}

/// Casts to `regprocedure` become casts to `TEXT`.
pub fn rewrite_regprocedure_cast(sql: &str) -> (r: Result<String, SqlError>)
    ensures
        outcome(r) == rewritten_text(
            recast_rule("regprocedure"@, text_type()),
            Layout::Semicolons,
            sql@,
        ),
{
    rewrite_custom_type_cast_target(sql, "regprocedure", Tree::of_text("Text"))
}

/// Casts to `regproc` become casts to `TEXT`.
pub fn rewrite_regproc_cast(sql: &str) -> (r: Result<String, SqlError>)
    ensures
        outcome(r) == rewritten_text(
            recast_rule("regproc"@, text_type()),
            Layout::Semicolons,
            sql@,
        ),
{
    rewrite_custom_type_cast_target(sql, "regproc", Tree::of_text("Text"))
}

// --- regoper -----------------------------------------------------------------

/// `NULL` for a cast to `regoper`; any other expression as it is.
pub open spec fn without_regoper(e: Syntax) -> Syntax {
    match e.payload("Cast"@) {
        Some(c) => match custom_type(c.at("data_type"@)) {
            Some(obj) => if object_name_is(obj, "regoper"@) {
                null_expr()
            } else {
                e
            },
            None => e,
        },
        None => e,
    }
}

/// Casts to `regoper` become `NULL`.
pub struct RegoperCasts;

/// [`without_regoper`] as a rule.
pub open spec fn regoper_rule() -> Rule {
    |st: ProgressView, e: Syntax| (st, without_regoper(e))
}

impl Pass for RegoperCasts {
    open spec fn rule(&self) -> Rule {
        regoper_rule()
    }

    fn apply(&self, st: &mut Progress, e: Tree) -> (r: Tree) {
        if let Some(c) = e.payload("Cast") {
            if let Some(obj) = get_custom_type(c.at("data_type")) {
                if object_name_matches(obj, "regoper") {
                    return mk_null_expr();
                }
            }
        }
        e
    }
}

/// Casts to `regoper` become `NULL`: the one column that is cast to it holds nothing
/// else.
pub fn rewrite_regoper_cast(sql: &str) -> (r: Result<String, SqlError>)
    ensures
        outcome(r) == rewritten_text(regoper_rule(), Layout::Semicolons, sql@),
{
    rewrite_text(&RegoperCasts, Layout::Semicolons, sql)
}

// --- regclass ------------------------------------------------------------------

/// The call `oid('s')`.
pub open spec fn oid_of(s: Seq<char>) -> Syntax {
    call1(name1("oid"@), string_expr(s))
}

fn mk_oid_of(s: &str) -> (r: Tree)
    ensures
        r@ == oid_of(s@),
{
    mk_call1(mk_name1("oid"), mk_string_expr(s))
}

/// Whether a type is the unknown type `oid`, without a schema.
pub open spec fn is_bare_oid(ty: Syntax) -> bool {
    match custom_type(ty) {
        Some(obj) => obj.items().len() == 1 && part_is(obj.items()[0], "oid"@),
        None => false,
    }
}

fn is_bare_oid_type(ty: &Tree) -> (r: bool)
    ensures
        r == is_bare_oid(ty@),
{
    match get_custom_type(ty) {
        Some(obj) => obj.len() == 1 && part_spells(obj.item(0), "oid"),
        None => false,
    }
}

/// The text whose relation a `regclass` expression stands for: the literal that is
/// cast to `regclass`, or the literal in a call of `regclass` or `oid`.
pub open spec fn relation_literal(e: Syntax) -> Option<Seq<char>> {
    match e.payload("Cast"@) {
        Some(c) => if c.at("data_type"@).is_text("Regclass"@) {
            string_literal(c.at("expr"@).inner())
        } else {
            None
        },
        None => match e.payload("Function"@) {
            Some(f) => if name_prints_as(f.at("name"@), "regclass"@) || name_prints_as(
                f.at("name"@),
                "oid"@,
            ) {
                match f.at("args"@).payload("List"@) {
                    Some(list) => match arg_expr(list.at("args"@).item(0)) {
                        Some(a) => string_literal(a),
                        None => None,
                    },
                    None => None,
                }
            } else {
                None
            },
            None => None,
        },
    }
}

fn get_relation_literal(e: &Tree) -> (r: Option<&String>)
    ensures
        match r {
            Some(s) => relation_literal(e@) == Some(s@),
            None => relation_literal(e@) is None,
        },
{
    if let Some(c) = e.payload("Cast") {
        return if c.at("data_type").is_text("Regclass") {
            get_string_literal(c.at("expr").inner())
        } else {
            None
        };
    }
    if let Some(f) = e.payload("Function") {
        if name_shows(f.at("name"), "regclass") || name_shows(f.at("name"), "oid") {
            if let Some(list) = f.at("args").payload("List") {
                if let Some(a) = get_arg_expr(list.at("args").item(0)) {
                    return get_string_literal(a);
                }
            }
        }
    }
    None
}

/// `oid('text')` for `'text'::regclass` and for `'text'::regclass::oid`; any other
/// expression as it is.
pub open spec fn regclass_resolved(e: Syntax) -> Syntax {
    match e.payload("Cast"@) {
        Some(c) => if is_bare_oid(c.at("data_type"@)) {
            match relation_literal(c.at("expr"@).inner()) {
                Some(s) => oid_of(s),
                None => e,
            }
        } else if c.at("data_type"@).is_text("Regclass"@) {
            match string_literal(c.at("expr"@).inner()) {
                Some(s) => oid_of(s),
                None => e,
            }
        } else {
            e
        },
        None => e,
    }
}

/// Casts of literals to `regclass`, and from there to `oid`, become calls of `oid`.
pub struct RegclassCasts;

/// [`regclass_resolved`] as a rule.
pub open spec fn regclass_rule() -> Rule {
    |st: ProgressView, e: Syntax| (st, regclass_resolved(e))
}

impl Pass for RegclassCasts {
    open spec fn rule(&self) -> Rule {
        regclass_rule()
    }

    fn apply(&self, st: &mut Progress, e: Tree) -> (r: Tree) {
        if let Some(c) = e.payload("Cast") {
            if is_bare_oid_type(c.at("data_type")) {
                if let Some(s) = get_relation_literal(c.at("expr").inner()) {
                    return mk_oid_of(s.as_str());
                }
            } else if c.at("data_type").is_text("Regclass") {
                if let Some(s) = get_string_literal(c.at("expr").inner()) {
                    return mk_oid_of(s.as_str());
                }
            }
        }
        e
    }
}

/// Casts of literals to `regclass`, and from there to `oid`, become calls of `oid`,
/// which looks the relation up: a literal is cast to `regclass` to be compared with
/// an object id.
pub fn replace_regclass(sql: &str) -> (r: Result<String, SqlError>)
    ensures
        outcome(r) == rewritten_text_explicit(regclass_rule(), Layout::Spaces, sql@),
{
    rewrite_text_explicit(&RegclassCasts, Layout::Spaces, sql)
}

// --- array_agg -----------------------------------------------------------------

/// `pg_catalog.array_to_string(array_agg(..), ',')` for `array_agg(..)::varchar`;
/// any other expression as it is.
pub open spec fn array_agg_as_text(e: Syntax) -> Syntax {
    match e.payload("Cast"@) {
        Some(c) => {
            let inner = c.at("expr"@).inner();
            match (c.at("data_type"@).payload("Varchar"@), inner.payload("Function"@)) {
                (Some(_), Some(f)) => if last_part_is(f.at("name"@), "array_agg"@) {
                    call(
                        name2("pg_catalog"@, "array_to_string"@),
                        seq![unnamed_arg(inner), unnamed_arg(string_expr(","@))],
                    )
                } else {
                    e
                },
                _ => e,
            }
        },
        None => e,
    }
}

/// Casts of `array_agg(..)` to `varchar` become calls of `array_to_string`.
pub struct ArrayAggCasts;

/// [`array_agg_as_text`] as a rule.
pub open spec fn array_agg_rule() -> Rule {
    |st: ProgressView, e: Syntax| (st, array_agg_as_text(e))
}

impl Pass for ArrayAggCasts {
    open spec fn rule(&self) -> Rule {
        array_agg_rule()
    }

    fn apply(&self, st: &mut Progress, e: Tree) -> (r: Tree) {
        if let Some(c) = e.payload("Cast") {
            let inner = c.at("expr").inner();
            if let Some(_) = c.at("data_type").payload("Varchar") {
                if let Some(f) = inner.payload("Function") {
                    if last_part_spells(f.at("name"), "array_agg") {
                        let args = Tree::list2(
                            mk_unnamed_arg(inner.copy()),
                            mk_unnamed_arg(mk_string_expr(",")),
                        );
                        return mk_call(mk_name2("pg_catalog", "array_to_string"), args);
                    }
                }
            }
        }
        e
    }
}

/// `array_agg(..)::varchar` becomes `pg_catalog.array_to_string(array_agg(..), ',')`,
/// so that no list has to be cast to text.
pub fn rewrite_array_agg_varchar_cast(sql: &str) -> (r: Result<String, SqlError>)
    ensures
        outcome(r) == rewritten_text(array_agg_rule(), Layout::Spaces, sql@),
{
    rewrite_text(&ArrayAggCasts, Layout::Spaces, sql)
}

// --- types in pg_catalog --------------------------------------------------------

/// A cast to `pg_catalog.text` as a cast to `TEXT`; any other expression as it is.
pub open spec fn pg_text_unqualified(e: Syntax) -> Syntax {
    match e.payload("Cast"@) {
        Some(c) => match custom_type(c.at("data_type"@)) {
            Some(obj) => if pg_catalog_name_is(obj, "text"@) {
                variant("Cast"@, c.with("data_type"@, text_type()))
            } else {
                e
            },
            None => e,
        },
        None => e,
    }
}

/// Casts to `pg_catalog.text` become casts to `TEXT`.
pub struct PgTextCasts;

/// [`pg_text_unqualified`] as a rule.
pub open spec fn pg_text_rule() -> Rule {
    |st: ProgressView, e: Syntax| (st, pg_text_unqualified(e))
}

impl Pass for PgTextCasts {
    open spec fn rule(&self) -> Rule {
        pg_text_rule()
    }

    fn apply(&self, st: &mut Progress, e: Tree) -> (r: Tree) {
        if let Some(c) = e.payload("Cast") {
            if let Some(obj) = get_custom_type(c.at("data_type")) {
                if is_pg_catalog_name(obj, "text") {
                    return Tree::variant("Cast", c.with("data_type", Tree::of_text("Text")));
                }
            }
        }
        e
    }
}

/// Casts to `pg_catalog.text` become casts to `TEXT`.
pub fn rewrite_schema_qualified_text(sql: &str) -> (r: Result<String, SqlError>)
    ensures
        outcome(r) == rewritten_text(pg_text_rule(), Layout::Spaces, sql@),
{
    rewrite_text(&PgTextCasts, Layout::Spaces, sql)
}

/// Whether an object name is one of the types of `pg_catalog` that are read as text.
pub open spec fn is_textual_pg_type(obj: Syntax) -> bool {
    ||| pg_catalog_name_is(obj, "text"@)
    ||| pg_catalog_name_is(obj, "regtype"@)
    ||| pg_catalog_name_is(obj, "regnamespace"@)
    ||| pg_catalog_name_is(obj, "regclass"@)
}

/// A cast to `pg_catalog.text`, `regtype`, `regnamespace` or `regclass` as a cast to
/// `TEXT`; any other expression as it is.
pub open spec fn pg_types_as_text(e: Syntax) -> Syntax {
    match e.payload("Cast"@) {
        Some(c) => match custom_type(c.at("data_type"@)) {
            Some(obj) => if is_textual_pg_type(obj) {
                variant("Cast"@, c.with("data_type"@, text_type()))
            } else {
                e
            },
            None => e,
        },
        None => e,
    }
}

/// Casts to the textual types of `pg_catalog` become casts to `TEXT`.
pub struct PgTypeCasts;

/// [`pg_types_as_text`] as a rule.
pub open spec fn pg_types_rule() -> Rule {
    |st: ProgressView, e: Syntax| (st, pg_types_as_text(e))
}

impl Pass for PgTypeCasts {
    open spec fn rule(&self) -> Rule {
        pg_types_rule()
    }

    fn apply(&self, st: &mut Progress, e: Tree) -> (r: Tree) {
        if let Some(c) = e.payload("Cast") {
            if let Some(obj) = get_custom_type(c.at("data_type")) {
                if is_pg_catalog_name(obj, "text") || is_pg_catalog_name(obj, "regtype")
                    || is_pg_catalog_name(obj, "regnamespace") || is_pg_catalog_name(
                    obj,
                    "regclass",
                ) {
                    return Tree::variant("Cast", c.with("data_type", Tree::of_text("Text")));
                }
            }
        }
        e
    }
}

/// Casts to `pg_catalog.text`, `regtype`, `regnamespace` and `regclass` become casts
/// to `TEXT`.
pub fn rewrite_schema_qualified_custom_types(sql: &str) -> (r: Result<String, SqlError>)
    ensures
        outcome(r) == rewritten_text(pg_types_rule(), Layout::Spaces, sql@),
{
    rewrite_text(&PgTypeCasts, Layout::Spaces, sql)
}

/// The type that a domain of `information_schema` stands for.
pub open spec fn domain_type(obj: Syntax) -> Option<Syntax> {
    let parts = obj.items();
    if parts.len() != 2 || !part_is(parts[0], "information_schema"@) {
        None
    } else if part_is(parts[1], "sql_identifier"@) || part_is(parts[1], "character_data"@)
        || part_is(parts[1], "yes_or_no"@) {
        Some(text_type())
    } else if part_is(parts[1], "cardinal_number"@) {
        Some(variant("Integer"@, Syntax::Null))
    } else if part_is(parts[1], "time_stamp"@) {
        Some(variant("Timestamp"@, Syntax::List(seq![Syntax::Null, Syntax::Text("None"@)])))
    } else {
        None
    }
}

fn get_domain_type(obj: &Tree) -> (r: Option<Tree>)
    ensures
        match r {
            Some(t) => domain_type(obj@) == Some(t@),
            None => domain_type(obj@) is None,
        },
{
    if obj.len() != 2 || !part_spells(obj.item(0), "information_schema") {
        return None;
    }
    let ty = obj.item(1);
    if part_spells(ty, "sql_identifier") || part_spells(ty, "character_data") || part_spells(
        ty,
        "yes_or_no",
    ) {
        Some(Tree::of_text("Text"))
    } else if part_spells(ty, "cardinal_number") {
        Some(Tree::variant("Integer", Tree::Null))
    } else if part_spells(ty, "time_stamp") {
        Some(Tree::variant("Timestamp", Tree::list2(Tree::Null, Tree::of_text("None"))))
    } else {
        None
    }
}

/// Whether a type is `varchar` or `character varying` without a length.
pub open spec fn is_unbounded_varchar(ty: Syntax) -> bool {
    ||| ty.payload("CharacterVarying"@) == Some(Syntax::Null)
    ||| ty.payload("Varchar"@) == Some(Syntax::Null)
}

fn is_unbounded_varchar_type(ty: &Tree) -> (r: bool)
    ensures
        r == is_unbounded_varchar(ty@),
{
    let a = match ty.payload("CharacterVarying") {
        Some(t) => t.is_null(),
        None => false,
    };
    let b = match ty.payload("Varchar") {
        Some(t) => t.is_null(),
        None => false,
    };
    a || b
}

/// A cast to a domain of `information_schema` as a cast to its base type, and one to
/// `varchar` without a length as a cast to `TEXT`; any other expression as it is.
pub open spec fn domains_as_base_types(e: Syntax) -> Syntax {
    match e.payload("Cast"@) {
        Some(c) => match custom_type(c.at("data_type"@)) {
            Some(obj) => match domain_type(obj) {
                Some(t) => variant("Cast"@, c.with("data_type"@, t)),
                None => e,
            },
            None => if is_unbounded_varchar(c.at("data_type"@)) {
                variant("Cast"@, c.with("data_type"@, text_type()))
            } else {
                e
            },
        },
        None => e,
    }
}

/// Casts to the domains of `information_schema` become casts to their base types.
pub struct DomainCasts;

/// [`domains_as_base_types`] as a rule.
pub open spec fn domain_rule() -> Rule {
    |st: ProgressView, e: Syntax| (st, domains_as_base_types(e))
}

impl Pass for DomainCasts {
    open spec fn rule(&self) -> Rule {
        domain_rule()
    }

    fn apply(&self, st: &mut Progress, e: Tree) -> (r: Tree) {
        if let Some(c) = e.payload("Cast") {
            let ty = c.at("data_type");
            if let Some(obj) = get_custom_type(ty) {
                if let Some(t) = get_domain_type(obj) {
                    return Tree::variant("Cast", c.with("data_type", t));
                }
            } else if is_unbounded_varchar_type(ty) {
                return Tree::variant("Cast", c.with("data_type", Tree::of_text("Text")));
            }
        }
        e
    }
}

/// Casts to the domains of `information_schema` become casts to the types that the
/// domains wrap, and casts to `varchar` without a length become casts to `TEXT`.
pub fn rewrite_information_schema_casts(sql: &str) -> (r: Result<String, SqlError>)
    ensures
        outcome(r) == rewritten_text(domain_rule(), Layout::Spaces, sql@),
{
    rewrite_text(&DomainCasts, Layout::Spaces, sql)
}

// --- casts that keep the value ----------------------------------------------------

/// Whether an expression is a literal of the kind `kind`.
pub open spec fn is_value_of(e: Syntax, kind: Seq<char>) -> bool {
    match e.payload("Value"@) {
        Some(v) => v.at("value"@).payload(kind) is Some,
        None => false,
    }
}

pub fn value_has_kind(e: &Tree, kind: &str) -> (r: bool)
    ensures
        r == is_value_of(e@, kind@),
{
    match e.payload("Value") {
        Some(v) => v.at("value").payload(kind).is_some(),
        None => false,
    }
}

/// Whether a cast of `inner` to `ty` keeps the value: one of anything but a string
/// literal to `regclass`, and one of anything but a literal to `oid`.
pub open spec fn is_redundant(ty: Syntax, inner: Syntax) -> bool {
    if ty.is_text("Regclass"@) {
        !is_value_of(inner, "SingleQuotedString"@)
    } else {
        is_bare_oid(ty) && !is_value_of(inner, "SingleQuotedString"@) && !is_value_of(
            inner,
            "Number"@,
        )
    }
}

/// The operand of a redundant cast, as an operand; any other expression as it is.
pub open spec fn redundant_cast_dropped(e: Syntax) -> Syntax {
    match e.payload("Cast"@) {
        Some(c) => if is_redundant(c.at("data_type"@), c.at("expr"@).inner()) {
            operand(c.at("expr"@).inner())
        } else {
            e
        },
        None => e,
    }
}

/// Casts to `regclass` and `oid` that keep the value are dropped.
pub struct RedundantCasts;

/// [`redundant_cast_dropped`] as a rule.
pub open spec fn redundant_rule() -> Rule {
    |st: ProgressView, e: Syntax| (st, redundant_cast_dropped(e))
}

impl Pass for RedundantCasts {
    open spec fn rule(&self) -> Rule {
        redundant_rule()
    }

    fn apply(&self, st: &mut Progress, e: Tree) -> (r: Tree) {
        if let Some(c) = e.payload("Cast") {
            let ty = c.at("data_type");
            let inner = c.at("expr").inner();
            let redundant = if ty.is_text("Regclass") {
                !value_has_kind(inner, "SingleQuotedString")
            } else {
                is_bare_oid_type(ty) && !value_has_kind(inner, "SingleQuotedString")
                    && !value_has_kind(inner, "Number")
            };
            if redundant {
                return mk_operand(inner);
            }
        }
        e
    }
}

/// Casts to `regclass` and `oid` that keep the value are dropped. A string literal is
/// no such operand, as it needs a lookup, nor is a number cast to `oid`.
pub fn drop_redundant_oid_and_regclass_casts(sql: &str) -> (r: Result<String, SqlError>)
    ensures
        outcome(r) == rewritten_text(redundant_rule(), Layout::Spaces, sql@),
{
    rewrite_text(&RedundantCasts, Layout::Spaces, sql)
}

/// The element type of an array type that is written with brackets.
pub open spec fn bracket_element(ty: Syntax) -> Option<Syntax> {
    match ty.payload("Array"@) {
        Some(a) => match a.payload("SquareBracket"@) {
            Some(s) => Some(s.item(0)),
            None => a.payload("AngleBracket"@),
        },
        None => None,
    }
}

fn get_bracket_element(ty: &Tree) -> (r: Option<&Tree>)
    ensures
        match r {
            Some(t) => bracket_element(ty@) == Some(t@),
            None => bracket_element(ty@) is None,
        },
{
    match ty.payload("Array") {
        Some(a) => match a.payload("SquareBracket") {
            Some(s) => Some(s.item(0)),
            None => a.payload("AngleBracket"),
        },
        None => None,
    }
}

/// The operand of a cast to `oid[]`, as an operand; any other expression as it is.
pub open spec fn oid_array_cast_dropped(e: Syntax) -> Syntax {
    match e.payload("Cast"@) {
        Some(c) => match bracket_element(c.at("data_type"@)) {
            Some(t) => if is_bare_oid(t) {
                operand(c.at("expr"@).inner())
            } else {
                e
            },
            None => e,
        },
        None => e,
    }
}

/// Casts to `oid[]` are dropped.
pub struct OidArrayCasts;

/// [`oid_array_cast_dropped`] as a rule.
pub open spec fn oid_array_rule() -> Rule {
    |st: ProgressView, e: Syntax| (st, oid_array_cast_dropped(e))
}

impl Pass for OidArrayCasts {
    open spec fn rule(&self) -> Rule {
        oid_array_rule()
    }

    fn apply(&self, st: &mut Progress, e: Tree) -> (r: Tree) {
        if let Some(c) = e.payload("Cast") {
            if let Some(t) = get_bracket_element(c.at("data_type")) {
                if is_bare_oid_type(t) {
                    return mk_operand(c.at("expr").inner());
                }
            }
        }
        e
    }
}

/// Casts to `oid[]` are dropped: the columns they are applied to hold integer arrays
/// already.
pub fn drop_oid_array_cast(sql: &str) -> (r: Result<String, SqlError>)
    ensures
        outcome(r) == rewritten_text(oid_array_rule(), Layout::Spaces, sql@),
{
    rewrite_text(&OidArrayCasts, Layout::Spaces, sql)
}

/// The element type of an array type.
pub open spec fn array_element(ty: Syntax) -> Option<Syntax> {
    match bracket_element(ty) {
        Some(t) => Some(t),
        None => match ty.payload("Array"@) {
            Some(a) => a.payload("Parenthesis"@),
            None => None,
        },
    }
}

fn get_array_element(ty: &Tree) -> (r: Option<&Tree>)
    ensures
        match r {
            Some(t) => array_element(ty@) == Some(t@),
            None => array_element(ty@) is None,
        },
{
    match get_bracket_element(ty) {
        Some(t) => Some(t),
        None => match ty.payload("Array") {
            Some(a) => a.payload("Parenthesis"),
            None => None,
        },
    }
}

/// Whether a type is the unknown type `ty_name`.
pub open spec fn is_custom(ty: Syntax, ty_name: Seq<char>) -> bool {
    match custom_type(ty) {
        Some(obj) => object_name_is(obj, ty_name),
        None => false,
    }
}

fn is_custom_type(ty: &Tree, ty_name: &str) -> (r: bool)
    ensures
        r == is_custom(ty@, ty_name@),
{
    match get_custom_type(ty) {
        Some(obj) => object_name_matches(obj, ty_name),
        None => false,
    }
}

/// `TEXT[]`.
pub open spec fn text_array_type() -> Syntax {
    variant("Array"@, variant("SquareBracket"@, Syntax::List(seq![text_type(), Syntax::Null])))
}

/// A cast to `anyarray` as a cast to `TEXT`, and one to `name[]` as a cast to
/// `TEXT[]`; any other expression as it is.
pub open spec fn text_backed_types_as_text(e: Syntax) -> Syntax {
    match e.payload("Cast"@) {
        Some(c) => {
            let ty = c.at("data_type"@);
            if is_custom(ty, "anyarray"@) {
                variant("Cast"@, c.with("data_type"@, text_type()))
            } else {
                match array_element(ty) {
                    Some(t) => if is_custom(t, "name"@) {
                        variant("Cast"@, c.with("data_type"@, text_array_type()))
                    } else {
                        e
                    },
                    None => e,
                }
            }
        },
        None => e,
    }
}

/// Casts to types that are stored as text become casts to text.
pub struct TextBackedCasts;

/// [`text_backed_types_as_text`] as a rule.
pub open spec fn text_backed_rule() -> Rule {
    |st: ProgressView, e: Syntax| (st, text_backed_types_as_text(e))
}

impl Pass for TextBackedCasts {
    open spec fn rule(&self) -> Rule {
        text_backed_rule()
    }

    fn apply(&self, st: &mut Progress, e: Tree) -> (r: Tree) {
        if let Some(c) = e.payload("Cast") {
            let ty = c.at("data_type");
            if is_custom_type(ty, "anyarray") {
                return Tree::variant("Cast", c.with("data_type", Tree::of_text("Text")));
            }
            if let Some(t) = get_array_element(ty) {
                if is_custom_type(t, "name") {
                    let text = Tree::list2(Tree::of_text("Text"), Tree::Null);
                    let array = Tree::variant("Array", Tree::variant("SquareBracket", text));
                    return Tree::variant("Cast", c.with("data_type", array));
                }
            }
        }
        e
    }
}

/// Casts to `anyarray` become casts to `TEXT`, and casts to `name[]` become casts to
/// `TEXT[]`, as the catalog stores values of these types. `oid[]` is left alone.
pub fn rewrite_text_backed_type_casts(sql: &str) -> (r: Result<String, SqlError>)
    ensures
        outcome(r) == rewritten_text(text_backed_rule(), Layout::Semicolons, sql@),
{
    rewrite_text(&TextBackedCasts, Layout::Semicolons, sql)
}

} // verus!
