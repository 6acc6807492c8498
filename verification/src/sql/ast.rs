//! The nodes of SQL syntax that the rewrites recognize and build.
use super::tree::{expr_node, no_fields, put, record_view, variant, Syntax, Tree};
use crate::text::{chars, eq_ignoring_case, same, same_ignoring_case};
use vstd::prelude::*;

verus! {

// --- positions -------------------------------------------------------------

/// The position before all text.
pub open spec fn nowhere() -> Syntax {
    Syntax::Record(
        Seq::empty().push(("line"@, Syntax::Number("0"@))).push(("column"@, Syntax::Number("0"@))),
    )
}

/// The span of a node that stands in no text.
pub open spec fn empty_span() -> Syntax {
    Syntax::Record(Seq::empty().push(("start"@, nowhere())).push(("end"@, nowhere())))
}

fn mk_nowhere() -> (r: Tree)
    ensures
        r@ == nowhere(),
{
    let f = put(no_fields(), "line", Tree::Number("0".to_owned()));
    Tree::record(put(f, "column", Tree::Number("0".to_owned())))
}

pub fn mk_empty_span() -> (r: Tree)
    ensures
        r@ == empty_span(),
{
    let f = put(no_fields(), "start", mk_nowhere());
    Tree::record(put(f, "end", mk_nowhere()))
}

// --- names -----------------------------------------------------------------

/// An unquoted identifier.
pub open spec fn ident(value: Seq<char>) -> Syntax {
    Syntax::Record(
        Seq::empty()
            .push(("value"@, Syntax::Text(value)))
            .push(("quote_style"@, Syntax::Null))
            .push(("span"@, empty_span())),
    )
}

pub fn mk_ident(value: &str) -> (r: Tree)
    ensures
        r@ == ident(value@),
{
    let f = put(no_fields(), "value", Tree::of_text(value));
    let f = put(f, "quote_style", Tree::Null);
    Tree::record(put(f, "span", mk_empty_span()))
}

/// Whether a name without quotes can start with a character: with a letter, an underscore or
/// anything beyond ASCII.
pub open spec fn is_bare_start(c: char) -> bool {
    'a' <= c <= 'z' || 'A' <= c <= 'Z' || c == '_' || c > '\x7f'
}

/// Whether a character can stand in a name without quotes: digits and `$` can too.
pub open spec fn is_bare_part(c: char) -> bool {
    is_bare_start(c) || '0' <= c <= '9' || c == '$'
}

/// Whether a name can stand without quotes.
pub open spec fn is_bare(name: Seq<char>) -> bool {
    &&& name.len() > 0
    &&& is_bare_start(name[0])
    &&& forall|i: int| 0 <= i < name.len() ==> is_bare_part(#[trigger] name[i])
}

fn bare_start(c: char) -> (r: bool)
    ensures
        r == is_bare_start(c),
{
    ('a' <= c && c <= 'z') || ('A' <= c && c <= 'Z') || c == '_' || c > '\x7f'
}

fn stands_bare(name: &str) -> (r: bool)
    ensures
        r == is_bare(name@),
{
    let all = chars(name);
    if all.len() == 0 || !bare_start(all[0]) {
        return false;
    }
    let mut i: usize = 0;
    while i < all.len()
        invariant
            i <= all@.len(),
            all@ == name@,
            forall|j: int| 0 <= j < i ==> is_bare_part(#[trigger] name@[j]),
        decreases all@.len() - i,
    {
        let c = all[i];
        if !bare_start(c) && !('0' <= c && c <= '9') && c != '$' {
            assert(!is_bare_part(name@[i as int]));
            return false;
        }
        i = i + 1;
    }
    true
}

/// The identifier `name`, in quotes if it cannot stand without them.
pub open spec fn label(name: Seq<char>) -> Syntax {
    if is_bare(name) {
        ident(name)
    } else {
        ident(name).with("quote_style"@, Syntax::Text("\""@))
    }
}

pub fn mk_label(name: &str) -> (r: Tree)
    ensures
        r@ == label(name@),
{
    let id = mk_ident(name);
    if stands_bare(name) {
        id
    } else {
        id.with("quote_style", Tree::of_text("\""))
    }
}

/// One part of an object name.
pub open spec fn name_part(value: Seq<char>) -> Syntax {
    variant("Identifier"@, ident(value))
}

pub fn mk_name_part(value: &str) -> (r: Tree)
    ensures
        r@ == name_part(value@),
{
    Tree::variant("Identifier", mk_ident(value))
}

/// An object name of one part.
pub open spec fn name1(a: Seq<char>) -> Syntax {
    Syntax::List(seq![name_part(a)])
}

pub fn mk_name1(a: &str) -> (r: Tree)
    ensures
        r@ == name1(a@),
{
    Tree::list1(mk_name_part(a))
}

/// An object name of two parts.
pub open spec fn name2(a: Seq<char>, b: Seq<char>) -> Syntax {
    Syntax::List(seq![name_part(a), name_part(b)])
}

pub fn mk_name2(a: &str, b: &str) -> (r: Tree)
    ensures
        r@ == name2(a@, b@),
{
    Tree::list2(mk_name_part(a), mk_name_part(b))
}

/// The characters of an identifier.
pub open spec fn ident_text(id: Syntax) -> Option<Seq<char>> {
    match id.at("value"@) {
        Syntax::Text(s) => Some(s),
        _ => None,
    }
}

pub fn get_ident_text(id: &Tree) -> (r: Option<&String>)
    ensures
        match r {
            Some(s) => ident_text(id@) == Some(s@),
            None => ident_text(id@) is None,
        },
{
    id.at("value").text()
}

/// Whether an identifier spells `s`, in any case.
pub open spec fn ident_is(id: Syntax, s: Seq<char>) -> bool {
    match ident_text(id) {
        Some(v) => same_ignoring_case(v, s),
        None => false,
    }
}

pub fn ident_spells(id: &Tree, s: &str) -> (r: bool)
    ensures
        r == ident_is(id@, s@),
{
    match get_ident_text(id) {
        Some(v) => eq_ignoring_case(v.as_str(), s),
        None => false,
    }
}

/// Whether a part of an object name is an identifier that spells `s`, in any case.
pub open spec fn part_is(part: Syntax, s: Seq<char>) -> bool {
    match part.payload("Identifier"@) {
        Some(id) => ident_is(id, s),
        None => false,
    }
}

pub fn part_spells(part: &Tree, s: &str) -> (r: bool)
    ensures
        r == part_is(part@, s@),
{
    match part.payload("Identifier") {
        Some(id) => ident_spells(id, s),
        None => false,
    }
}

/// Whether an object name is `ty_name` or `pg_catalog.ty_name`, in any case.
pub open spec fn object_name_is(obj: Syntax, ty_name: Seq<char>) -> bool {
    let parts = obj.items();
    ||| parts.len() == 1 && part_is(parts[0], ty_name)
    ||| parts.len() == 2 && part_is(parts[0], "pg_catalog"@) && part_is(parts[1], ty_name)
}

/// Whether an object name is `ty_name` or `pg_catalog.ty_name`, in any case,
/// as PostgreSQL resolves an unquoted name.
pub fn object_name_matches(obj: &Tree, ty_name: &str) -> (r: bool)
    ensures
        r == object_name_is(obj@, ty_name@),
{
    let n: usize = obj.len();
    if n == 1 {
        part_spells(obj.item(0), ty_name)
    } else if n == 2 {
        part_spells(obj.item(0), "pg_catalog") && part_spells(obj.item(1), ty_name)
    } else {
        false
    }
}

/// Whether an object name is exactly `pg_catalog.ty_name`, in any case.
pub open spec fn pg_catalog_name_is(obj: Syntax, ty_name: Seq<char>) -> bool {
    let parts = obj.items();
    parts.len() == 2 && part_is(parts[0], "pg_catalog"@) && part_is(parts[1], ty_name)
}

pub fn is_pg_catalog_name(obj: &Tree, ty_name: &str) -> (r: bool)
    ensures
        r == pg_catalog_name_is(obj@, ty_name@),
{
    obj.len() == 2 && part_spells(obj.item(0), "pg_catalog") && part_spells(obj.item(1), ty_name)
}

/// Whether the last part of an object name is an identifier that spells `s`, in
/// any case.
pub open spec fn last_part_is(obj: Syntax, s: Seq<char>) -> bool {
    let parts = obj.items();
    parts.len() > 0 && part_is(parts[parts.len() - 1], s)
}

pub fn last_part_spells(obj: &Tree, s: &str) -> (r: bool)
    ensures
        r == last_part_is(obj@, s@),
{
    let n: usize = obj.len();
    n > 0 && part_spells(obj.item(n - 1), s)
}

/// Whether an object name prints as `s`, in any case, for an `s` of identifier
/// characters: one unquoted identifier that spells `s`.
pub open spec fn name_prints_as(obj: Syntax, s: Seq<char>) -> bool {
    let parts = obj.items();
    &&& parts.len() == 1
    &&& match parts[0].payload("Identifier"@) {
        Some(id) => id.at("quote_style"@) == Syntax::Null && ident_is(id, s),
        None => false,
    }
}

pub fn name_shows(obj: &Tree, s: &str) -> (r: bool)
    ensures
        r == name_prints_as(obj@, s@),
{
    if obj.len() == 1 {
        match obj.item(0).payload("Identifier") {
            Some(id) => id.at("quote_style").is_null() && ident_spells(id, s),
            None => false,
        }
    } else {
        false
    }
}

// --- types -----------------------------------------------------------------

/// The name of a type that the grammar does not know.
pub open spec fn custom_type(ty: Syntax) -> Option<Syntax> {
    match ty.payload("Custom"@) {
        Some(p) => Some(p.item(0)),
        None => None,
    }
}

pub fn get_custom_type(ty: &Tree) -> (r: Option<&Tree>)
    ensures
        match r {
            Some(t) => custom_type(ty@) == Some(t@),
            None => custom_type(ty@) is None,
        },
{
    match ty.payload("Custom") {
        Some(p) => Some(p.item(0)),
        None => None,
    }
}

/// `TEXT`.
pub open spec fn text_type() -> Syntax {
    Syntax::Text("Text"@)
}

/// `BIGINT`.
pub open spec fn bigint_type() -> Syntax {
    variant("BigInt"@, Syntax::Null)
}

/// `CHAR`.
pub open spec fn char_type() -> Syntax {
    variant("Char"@, Syntax::Null)
}

// --- expressions -------------------------------------------------------------

/// A literal value.
pub open spec fn value_expr(value: Syntax) -> Syntax {
    variant(
        "Value"@,
        Syntax::Record(Seq::empty().push(("value"@, value)).push(("span"@, empty_span()))),
    )
}

pub fn mk_value_expr(value: Tree) -> (r: Tree)
    ensures
        r@ == value_expr(value@),
{
    let f = put(no_fields(), "value", value);
    Tree::variant("Value", Tree::record(put(f, "span", mk_empty_span())))
}

/// The literal `'s'`.
pub open spec fn string_expr(s: Seq<char>) -> Syntax {
    value_expr(variant("SingleQuotedString"@, Syntax::Text(s)))
}

pub fn mk_string_expr(s: &str) -> (r: Tree)
    ensures
        r@ == string_expr(s@),
{
    mk_value_expr(Tree::variant("SingleQuotedString", Tree::of_text(s)))
}

/// The number literal that is written `digits`.
pub open spec fn number_expr(digits: Seq<char>) -> Syntax {
    value_expr(
        variant("Number"@, Syntax::List(seq![Syntax::Text(digits), Syntax::Bool(false)])),
    )
}

pub fn mk_number_expr(digits: &str) -> (r: Tree)
    ensures
        r@ == number_expr(digits@),
{
    mk_value_expr(
        Tree::variant("Number", Tree::list2(Tree::of_text(digits), Tree::Bool(false))),
    )
}

/// The literal `NULL`.
pub open spec fn null_expr() -> Syntax {
    value_expr(Syntax::Text("Null"@))
}

pub fn mk_null_expr() -> (r: Tree)
    ensures
        r@ == null_expr(),
{
    mk_value_expr(Tree::of_text("Null"))
}

/// The characters of a literal in single quotes.
pub open spec fn string_literal(e: Syntax) -> Option<Seq<char>> {
    match e.payload("Value"@) {
        Some(v) => match v.at("value"@).payload("SingleQuotedString"@) {
            Some(Syntax::Text(s)) => Some(s),
            _ => None,
        },
        None => None,
    }
}

pub fn get_string_literal(e: &Tree) -> (r: Option<&String>)
    ensures
        match r {
            Some(s) => string_literal(e@) == Some(s@),
            None => string_literal(e@) is None,
        },
{
    match e.payload("Value") {
        Some(v) => match v.at("value").payload("SingleQuotedString") {
            Some(t) => t.text(),
            None => None,
        },
        None => None,
    }
}

/// An argument without a name.
pub open spec fn unnamed_arg(e: Syntax) -> Syntax {
    variant("Unnamed"@, variant("Expr"@, expr_node(e)))
}

pub fn mk_unnamed_arg(e: Tree) -> (r: Tree)
    ensures
        r@ == unnamed_arg(e@),
{
    Tree::variant("Unnamed", Tree::variant("Expr", Tree::expr(e)))
}

/// The expression of an argument without a name.
pub open spec fn arg_expr(arg: Syntax) -> Option<Syntax> {
    match arg.payload("Unnamed"@) {
        Some(a) => match a.payload("Expr"@) {
            Some(e) => Some(e.inner()),
            None => None,
        },
        None => None,
    }
}

pub fn get_arg_expr(arg: &Tree) -> (r: Option<&Tree>)
    ensures
        match r {
            Some(t) => arg_expr(arg@) == Some(t@),
            None => arg_expr(arg@) is None,
        },
{
    match arg.payload("Unnamed") {
        Some(a) => match a.payload("Expr") {
            Some(e) => Some(e.inner()),
            None => None,
        },
        None => None,
    }
}

/// The argument list of a call.
pub open spec fn arg_list(args: Seq<Syntax>) -> Syntax {
    variant(
        "List"@,
        Syntax::Record(
            Seq::empty()
                .push(("duplicate_treatment"@, Syntax::Null))
                .push(("args"@, Syntax::List(args)))
                .push(("clauses"@, Syntax::List(Seq::empty()))),
        ),
    )
}

/// The call of the function `name` with the arguments `args`.
pub open spec fn call(name: Syntax, args: Seq<Syntax>) -> Syntax {
    variant(
        "Function"@,
        Syntax::Record(
            Seq::empty()
                .push(("name"@, name))
                .push(("uses_odbc_syntax"@, Syntax::Bool(false)))
                .push(("parameters"@, Syntax::Text("None"@)))
                .push(("args"@, arg_list(args)))
                .push(("filter"@, Syntax::Null))
                .push(("null_treatment"@, Syntax::Null))
                .push(("over"@, Syntax::Null))
                .push(("within_group"@, Syntax::List(Seq::empty()))),
        ),
    )
}

pub fn mk_call(name: Tree, args: Tree) -> (r: Tree)
    requires
        args@ is List,
    ensures
        r@ == call(name@, args@.items()),
{
    let l = put(no_fields(), "duplicate_treatment", Tree::Null);
    let l = put(l, "args", args);
    let l = put(l, "clauses", Tree::empty_list());
    let f = put(no_fields(), "name", name);
    let f = put(f, "uses_odbc_syntax", Tree::Bool(false));
    let f = put(f, "parameters", Tree::of_text("None"));
    let f = put(f, "args", Tree::variant("List", Tree::record(l)));
    let f = put(f, "filter", Tree::Null);
    let f = put(f, "null_treatment", Tree::Null);
    let f = put(f, "over", Tree::Null);
    let f = put(f, "within_group", Tree::empty_list());
    assert(args@ == Syntax::List(args@.items()));
    Tree::variant("Function", Tree::record(f))
}

/// The call of `name` with one argument.
pub open spec fn call1(name: Syntax, e: Syntax) -> Syntax {
    call(name, seq![unnamed_arg(e)])
}

pub fn mk_call1(name: Tree, e: Tree) -> (r: Tree)
    ensures
        r@ == call1(name@, e@),
{
    mk_call(name, Tree::list1(mk_unnamed_arg(e)))
}

/// `left op right`.
pub open spec fn binary(left: Syntax, op: Syntax, right: Syntax) -> Syntax {
    variant(
        "BinaryOp"@,
        Syntax::Record(
            Seq::empty()
                .push(("left"@, expr_node(left)))
                .push(("op"@, op))
                .push(("right"@, expr_node(right))),
        ),
    )
}

pub fn mk_binary(left: Tree, op: &str, right: Tree) -> (r: Tree)
    ensures
        r@ == binary(left@, Syntax::Text(op@), right@),
{
    let f = put(no_fields(), "left", Tree::expr(left));
    let f = put(f, "op", Tree::of_text(op));
    Tree::variant("BinaryOp", Tree::record(put(f, "right", Tree::expr(right))))
}

/// `(e)`.
pub open spec fn nested(e: Syntax) -> Syntax {
    variant("Nested"@, expr_node(e))
}

pub fn mk_nested(e: Tree) -> (r: Tree)
    ensures
        r@ == nested(e@),
{
    Tree::variant("Nested", Tree::expr(e))
}

/// `NOT e`.
pub open spec fn negation(e: Syntax) -> Syntax {
    variant(
        "UnaryOp"@,
        Syntax::Record(
            Seq::empty().push(("op"@, Syntax::Text("Not"@))).push(("expr"@, expr_node(e))),
        ),
    )
}

pub fn mk_negation(e: Tree) -> (r: Tree)
    ensures
        r@ == negation(e@),
{
    let f = put(no_fields(), "op", Tree::of_text("Not"));
    Tree::variant("UnaryOp", Tree::record(put(f, "expr", Tree::expr(e))))
}

// --- parentheses ----------------------------------------------------------------------

/// Whether no operator can take an expression apart: a column, a literal, a call, a cast, or what
/// has its own beginning and end.
pub open spec fn holds_together(e: Syntax) -> bool {
    ||| e.payload("Identifier"@) is Some
    ||| e.payload("CompoundIdentifier"@) is Some
    ||| e.payload("CompoundFieldAccess"@) is Some
    ||| e.payload("Value"@) is Some
    ||| e.payload("Function"@) is Some
    ||| e.payload("Cast"@) is Some
    ||| e.payload("Subquery"@) is Some
    ||| e.payload("Nested"@) is Some
    ||| e.payload("Tuple"@) is Some
    ||| e.payload("Array"@) is Some
    ||| e.payload("Case"@) is Some
    ||| e.payload("Extract"@) is Some
    ||| e.payload("Substring"@) is Some
    ||| e.payload("Trim"@) is Some
}

/// An expression as an operand: in parentheses, unless it holds together without them.
pub open spec fn operand(e: Syntax) -> Syntax {
    if holds_together(e) {
        e
    } else {
        nested(e)
    }
}

pub fn mk_operand(e: &Tree) -> (r: Tree)
    ensures
        r@ == operand(e@),
{
    let together = e.payload("Identifier").is_some()
        || e.payload("CompoundIdentifier").is_some()
        || e.payload("CompoundFieldAccess").is_some()
        || e.payload("Value").is_some()
        || e.payload("Function").is_some()
        || e.payload("Cast").is_some()
        || e.payload("Subquery").is_some()
        || e.payload("Nested").is_some()
        || e.payload("Tuple").is_some()
        || e.payload("Array").is_some()
        || e.payload("Case").is_some()
        || e.payload("Extract").is_some()
        || e.payload("Substring").is_some()
        || e.payload("Trim").is_some();
    if together {
        e.copy()
    } else {
        mk_nested(e.copy())
    }
}

/// Whether `e` is an `AND` outside parentheses.
pub open spec fn is_conjunction(e: Syntax) -> bool {
    match e.payload("BinaryOp"@) {
        Some(b) => b.at("op"@).is_text("And"@),
        None => false,
    }
}

/// Whether `e` compares a subquery outside parentheses, by `=` or `>`.
pub open spec fn compares_subquery(e: Syntax) -> bool {
    match e.payload("BinaryOp"@) {
        Some(b) => (b.at("op"@).is_text("Eq"@) || b.at("op"@).is_text("Gt"@)) && b.at(
            "left"@,
        ).inner().payload("Subquery"@) is Some,
        None => false,
    }
}

/// A node that holds an operand, with parentheses round an `AND` and round the comparison of a
/// subquery.
pub open spec fn held(operand: Syntax) -> Syntax {
    if is_conjunction(operand.inner()) || compares_subquery(operand.inner()) {
        expr_node(nested(operand.inner()))
    } else {
        operand
    }
}

/// An expression whose operands are held together where its operator would take them apart: in
/// a comparison or a calculation, under `NOT`, before `::` and before `IS`.
pub open spec fn operands_held(e: Syntax) -> Syntax {
    match (e.payload("BinaryOp"@), e.payload("UnaryOp"@), e.payload("Cast"@)) {
        (Some(b), _, _) => if b.at("op"@).is_text("And"@) || b.at("op"@).is_text("Or"@) {
            e
        } else {
            variant(
                "BinaryOp"@,
                b.with("left"@, held(b.at("left"@))).with("right"@, held(b.at("right"@))),
            )
        },
        (_, Some(u), _) => if is_conjunction(u.at("expr"@).inner()) {
            variant("UnaryOp"@, u.with("expr"@, held(u.at("expr"@))))
        } else {
            e
        },
        (_, _, Some(c)) => if c.at("kind"@).is_text("DoubleColon"@) {
            variant("Cast"@, c.with("expr"@, held(c.at("expr"@))))
        } else {
            e
        },
        _ => match e {
            Syntax::Record(fields) => if fields.len() == 1 && fields[0].0 != "Nested"@
                && fields[0].1 is Expr && is_conjunction(fields[0].1.inner()) {
                variant(fields[0].0, held(fields[0].1))
            } else {
                e
            },
            _ => e,
        },
    }
}

fn is_and(e: &Tree) -> (r: bool)
    ensures
        r == is_conjunction(e@),
{
    match e.payload("BinaryOp") {
        Some(b) => b.at("op").is_text("And"),
        None => false,
    }
}

fn hold(operand: &Tree) -> (r: Tree)
    ensures
        r@ == held(operand@),
{
    let e = operand.inner();
    let apart = match e.payload("BinaryOp") {
        Some(b) => b.at("op").is_text("And") || ((b.at("op").is_text("Eq") || b.at("op").is_text(
            "Gt",
        )) && b.at("left").inner().payload("Subquery").is_some()),
        None => false,
    };
    if apart {
        Tree::expr(mk_nested(e.copy()))
    } else {
        operand.copy()
    }
}

pub fn hold_operands(e: Tree) -> (r: Tree)
    ensures
        r@ == operands_held(e@),
{
    if let Some(b) = e.payload("BinaryOp") {
        if b.at("op").is_text("And") || b.at("op").is_text("Or") {
            return e;
        }
        let whole = b.with("left", hold(b.at("left"))).with("right", hold(b.at("right")));
        return Tree::variant("BinaryOp", whole);
    }
    if let Some(u) = e.payload("UnaryOp") {
        if is_and(u.at("expr").inner()) {
            return Tree::variant("UnaryOp", u.with("expr", hold(u.at("expr"))));
        }
        return e;
    }
    if let Some(c) = e.payload("Cast") {
        if c.at("kind").is_text("DoubleColon") {
            return Tree::variant("Cast", c.with("expr", hold(c.at("expr"))));
        }
        return e;
    }
    if let Tree::Record(fields) = &e {
        proof {
            record_view(*fields);
        }
        if fields.len() == 1 {
            let f = &fields[0];
            if let Tree::Expr(_) = &f.value {
                if !same(f.name.as_str(), "Nested") && is_and(f.value.inner()) {
                    return Tree::variant(f.name.as_str(), hold(&f.value));
                }
            }
        }
    }
    e
}

/// A cast of `e` to `ty`, written as `kind` says.
pub open spec fn cast(kind: Seq<char>, e: Syntax, ty: Syntax) -> Syntax {
    variant(
        "Cast"@,
        Syntax::Record(
            Seq::empty()
                .push(("kind"@, Syntax::Text(kind)))
                .push(("expr"@, expr_node(e)))
                .push(("data_type"@, ty))
                .push(("array"@, Syntax::Bool(false)))
                .push(("format"@, Syntax::Null)),
        ),
    )
}

pub fn mk_cast(kind: &str, e: Tree, ty: Tree) -> (r: Tree)
    ensures
        r@ == cast(kind@, e@, ty@),
{
    let f = put(no_fields(), "kind", Tree::of_text(kind));
    let f = put(f, "expr", Tree::expr(e));
    let f = put(f, "data_type", ty);
    let f = put(f, "array", Tree::Bool(false));
    Tree::variant("Cast", Tree::record(put(f, "format", Tree::Null)))
}

/// `EXISTS (query)` or `NOT EXISTS (query)`.
pub open spec fn exists_expr(query: Syntax, negated: Syntax) -> Syntax {
    variant(
        "Exists"@,
        Syntax::Record(Seq::empty().push(("subquery"@, query)).push(("negated"@, negated))),
    )
}

pub fn mk_exists(query: Tree, negated: Tree) -> (r: Tree)
    ensures
        r@ == exists_expr(query@, negated@),
{
    let f = put(no_fields(), "subquery", query);
    Tree::variant("Exists", Tree::record(put(f, "negated", negated)))
}

/// A selected expression without a name.
pub open spec fn unnamed_item(e: Syntax) -> Syntax {
    variant("UnnamedExpr"@, expr_node(e))
}

pub fn mk_unnamed_item(e: Tree) -> (r: Tree)
    ensures
        r@ == unnamed_item(e@),
{
    Tree::variant("UnnamedExpr", Tree::expr(e))
}

/// The expression that a select item selects, under a name or without one.
pub open spec fn item_expr(item: Syntax) -> Option<Syntax> {
    match item.payload("UnnamedExpr"@) {
        Some(e) => Some(e.inner()),
        None => match item.payload("ExprWithAlias"@) {
            Some(a) => Some(a.at("expr"@).inner()),
            None => None,
        },
    }
}

pub fn get_item_expr(item: &Tree) -> (r: Option<&Tree>)
    ensures
        match r {
            Some(t) => item_expr(item@) == Some(t@),
            None => item_expr(item@) is None,
        },
{
    match item.payload("UnnamedExpr") {
        Some(e) => Some(e.inner()),
        None => match item.payload("ExprWithAlias") {
            Some(a) => Some(a.at("expr").inner()),
            None => None,
        },
    }
}

/// The `SELECT` that is the body of a query.
pub open spec fn query_select(q: Syntax) -> Option<Syntax> {
    q.at("body"@).payload("Select"@)
}

pub fn get_query_select(q: &Tree) -> (r: Option<&Tree>)
    ensures
        match r {
            Some(t) => query_select(q@) == Some(t@),
            None => query_select(q@) is None,
        },
{
    q.at("body").payload("Select")
}

/// Whether a query is its body alone.
pub open spec fn is_body_alone(q: Syntax) -> bool {
    &&& q.at("with"@) == Syntax::Null
    &&& q.at("order_by"@) == Syntax::Null
    &&& q.at("limit_clause"@) == Syntax::Null
    &&& q.at("fetch"@) == Syntax::Null
}

pub fn body_alone(q: &Tree) -> (r: bool)
    ensures
        r == is_body_alone(q@),
{
    q.at("with").is_null() && q.at("order_by").is_null() && q.at("limit_clause").is_null() && q.at(
        "fetch",
    ).is_null()
}

/// Whether a `SELECT` neither groups nor picks among its rows, but by its `WHERE`.
pub open spec fn is_plain_select(select: Syntax) -> bool {
    &&& ungrouped(select)
    &&& select.at("distinct"@) == Syntax::Null
    &&& select.at("having"@) == Syntax::Null
    &&& select.at("qualify"@) == Syntax::Null
}

pub fn plain_select(select: &Tree) -> (r: bool)
    ensures
        r == is_plain_select(select@),
{
    is_ungrouped(select) && select.at("distinct").is_null() && select.at("having").is_null()
        && select.at("qualify").is_null()
}

/// The query with `select` as its body.
pub open spec fn with_select(q: Syntax, select: Syntax) -> Syntax {
    q.with("body"@, variant("Select"@, select))
}

pub fn put_select(q: &Tree, select: Tree) -> (r: Tree)
    ensures
        r@ == with_select(q@, select@),
{
    q.with("body", Tree::variant("Select", select))
}

/// Whether a `SELECT` has an empty `GROUP BY` list.
pub open spec fn ungrouped(select: Syntax) -> bool {
    match select.at("group_by"@).payload("Expressions"@) {
        Some(g) => g.item(0).items().len() == 0,
        None => false,
    }
}

pub fn is_ungrouped(select: &Tree) -> (r: bool)
    ensures
        r == ungrouped(select@),
{
    match select.at("group_by").payload("Expressions") {
        Some(g) => g.item(0).len() == 0,
        None => false,
    }
}

/// The characters of the last part of an object name, if it is an identifier.
pub open spec fn last_part_text(obj: Syntax) -> Option<Seq<char>> {
    let parts = obj.items();
    if parts.len() == 0 {
        None
    } else {
        match parts[parts.len() - 1].payload("Identifier"@) {
            Some(id) => ident_text(id),
            None => None,
        }
    }
}

pub fn get_last_part_text(obj: &Tree) -> (r: Option<&String>)
    ensures
        match r {
            Some(s) => last_part_text(obj@) == Some(s@),
            None => last_part_text(obj@) is None,
        },
{
    let n: usize = obj.len();
    if n == 0 {
        return None;
    }
    match obj.item(n - 1).payload("Identifier") {
        Some(id) => get_ident_text(id),
        None => None,
    }
}

/// The name in a relation node.
pub open spec fn relation_name(t: Syntax) -> Syntax {
    match t {
        Syntax::Relation(b) => *b,
        _ => t,
    }
}

pub fn get_relation_name(t: &Tree) -> (r: &Tree)
    ensures
        r@ == relation_name(t@),
{
    match t {
        Tree::Relation(b) => b,
        _ => t,
    }
}

/// A select item that selects `e` instead, under the name it has.
pub open spec fn with_item_expr(item: Syntax, e: Syntax) -> Syntax {
    match item.payload("UnnamedExpr"@) {
        Some(_) => unnamed_item(e),
        None => match item.payload("ExprWithAlias"@) {
            Some(a) => variant("ExprWithAlias"@, a.with("expr"@, expr_node(e))),
            None => item,
        },
    }
}

pub fn put_item_expr(item: &Tree, e: Tree) -> (r: Tree)
    ensures
        r@ == with_item_expr(item@, e@),
{
    if let Some(_) = item.payload("UnnamedExpr") {
        return mk_unnamed_item(e);
    }
    if let Some(a) = item.payload("ExprWithAlias") {
        return Tree::variant("ExprWithAlias", a.with("expr", Tree::expr(e)));
    }
    item.copy()
}

/// A selected expression with a name.
pub open spec fn aliased_item(e: Syntax, alias: Seq<char>) -> Syntax {
    variant(
        "ExprWithAlias"@,
        Syntax::Record(Seq::empty().push(("expr"@, expr_node(e))).push(("alias"@, ident(alias)))),
    )
}

pub fn mk_aliased_item(e: Tree, alias: &str) -> (r: Tree)
    ensures
        r@ == aliased_item(e@, alias@),
{
    let f = put(no_fields(), "expr", Tree::expr(e));
    Tree::variant("ExprWithAlias", Tree::record(put(f, "alias", mk_ident(alias))))
}

/// A selected expression under `name`, whatever characters that has.
pub open spec fn labelled_item(e: Syntax, name: Seq<char>) -> Syntax {
    variant(
        "ExprWithAlias"@,
        Syntax::Record(Seq::empty().push(("expr"@, expr_node(e))).push(("alias"@, label(name)))),
    )
}

pub fn mk_labelled_item(e: Tree, name: &str) -> (r: Tree)
    ensures
        r@ == labelled_item(e@, name@),
{
    let f = put(no_fields(), "expr", Tree::expr(e));
    Tree::variant("ExprWithAlias", Tree::record(put(f, "alias", mk_label(name))))
}

/// A reference to the column `name`.
pub open spec fn column(name: Seq<char>) -> Syntax {
    variant("Identifier"@, ident(name))
}

pub fn mk_column(name: &str) -> (r: Tree)
    ensures
        r@ == column(name@),
{
    Tree::variant("Identifier", mk_ident(name))
}

/// The token that stands for no text.
pub open spec fn token(t: Syntax) -> Syntax {
    Syntax::Record(Seq::empty().push(("token"@, t)).push(("span"@, empty_span())))
}

pub fn mk_token(t: &str) -> (r: Tree)
    ensures
        r@ == token(Syntax::Text(t@)),
{
    let f = put(no_fields(), "token", Tree::of_text(t));
    Tree::record(put(f, "span", mk_empty_span()))
}

/// The select item `*`.
pub open spec fn wildcard_item() -> Syntax {
    variant(
        "Wildcard"@,
        Syntax::Record(
            Seq::empty().push(("wildcard_token"@, token(Syntax::Text("Mul"@)))).push(
                ("opt_ilike"@, Syntax::Null),
            ).push(("opt_exclude"@, Syntax::Null)).push(("opt_except"@, Syntax::Null)).push(
                ("opt_replace"@, Syntax::Null),
            ).push(("opt_rename"@, Syntax::Null)).push(("opt_alias"@, Syntax::Null)),
        ),
    )
}

pub fn mk_wildcard_item() -> (r: Tree)
    ensures
        r@ == wildcard_item(),
{
    let f = put(no_fields(), "wildcard_token", mk_token("Mul"));
    let f = put(f, "opt_ilike", Tree::Null);
    let f = put(f, "opt_exclude", Tree::Null);
    let f = put(f, "opt_except", Tree::Null);
    let f = put(f, "opt_replace", Tree::Null);
    let f = put(f, "opt_rename", Tree::Null);
    let f = put(f, "opt_alias", Tree::Null);
    Tree::variant("Wildcard", Tree::record(f))
}

/// An empty `GROUP BY`.
pub open spec fn no_grouping() -> Syntax {
    variant(
        "Expressions"@,
        Syntax::List(seq![Syntax::List(Seq::empty()), Syntax::List(Seq::empty())]),
    )
}

pub fn mk_no_grouping() -> (r: Tree)
    ensures
        r@ == no_grouping(),
{
    Tree::variant("Expressions", Tree::list2(Tree::empty_list(), Tree::empty_list()))
}

/// The query that is just `body`.
pub open spec fn plain_query(body: Syntax) -> Syntax {
    Syntax::Record(
        Seq::empty().push(("with"@, Syntax::Null)).push(("body"@, body)).push(
            ("order_by"@, Syntax::Null),
        ).push(("limit_clause"@, Syntax::Null)).push(("fetch"@, Syntax::Null)).push(
            ("locks"@, Syntax::List(Seq::empty())),
        ).push(("for_clause"@, Syntax::Null)).push(("settings"@, Syntax::Null)).push(
            ("format_clause"@, Syntax::Null),
        ).push(("pipe_operators"@, Syntax::List(Seq::empty()))),
    )
}

pub fn mk_plain_query(body: Tree) -> (r: Tree)
    ensures
        r@ == plain_query(body@),
{
    let f = put(no_fields(), "with", Tree::Null);
    let f = put(f, "body", body);
    let f = put(f, "order_by", Tree::Null);
    let f = put(f, "limit_clause", Tree::Null);
    let f = put(f, "fetch", Tree::Null);
    let f = put(f, "locks", Tree::empty_list());
    let f = put(f, "for_clause", Tree::Null);
    let f = put(f, "settings", Tree::Null);
    let f = put(f, "format_clause", Tree::Null);
    let f = put(f, "pipe_operators", Tree::empty_list());
    Tree::record(f)
}

/// The table alias `name`, with `AS` if `explicit`.
pub open spec fn table_alias(name: Seq<char>, explicit: bool) -> Syntax {
    Syntax::Record(
        Seq::empty().push(("explicit"@, Syntax::Bool(explicit))).push(("name"@, ident(name))).push(
            ("columns"@, Syntax::List(Seq::empty())),
        ).push(("at"@, Syntax::Null)),
    )
}

pub fn mk_table_alias(name: &str, explicit: bool) -> (r: Tree)
    ensures
        r@ == table_alias(name@, explicit),
{
    let f = put(no_fields(), "explicit", Tree::Bool(explicit));
    let f = put(f, "name", mk_ident(name));
    let f = put(f, "columns", Tree::empty_list());
    Tree::record(put(f, "at", Tree::Null))
}

/// The table factor `(query) AS alias`.
pub open spec fn derived_table(query: Syntax, alias: Syntax) -> Syntax {
    variant(
        "Derived"@,
        Syntax::Record(
            Seq::empty().push(("lateral"@, Syntax::Bool(false))).push(("subquery"@, query)).push(
                ("alias"@, alias),
            ).push(("sample"@, Syntax::Null)),
        ),
    )
}

pub fn mk_derived_table(query: Tree, alias: Tree) -> (r: Tree)
    ensures
        r@ == derived_table(query@, alias@),
{
    let f = put(no_fields(), "lateral", Tree::Bool(false));
    let f = put(f, "subquery", query);
    let f = put(f, "alias", alias);
    Tree::variant("Derived", Tree::record(put(f, "sample", Tree::Null)))
}

/// A table factor without joins.
pub open spec fn no_joins(factor: Syntax) -> Syntax {
    Syntax::Record(
        Seq::empty().push(("relation"@, factor)).push(("joins"@, Syntax::List(Seq::empty()))),
    )
}

pub fn mk_no_joins(factor: Tree) -> (r: Tree)
    ensures
        r@ == no_joins(factor@),
{
    let f = put(no_fields(), "relation", factor);
    Tree::record(put(f, "joins", Tree::empty_list()))
}

} // verus!
