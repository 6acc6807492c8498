//! What holds of rewritten casts.
use super::ast::{
    call, ident, name1, name2, name_part, null_expr, part_is, string_expr, unnamed_arg,
};
use super::casts::{
    array_agg_as_text, domain_type, domains_as_base_types, oid_array_cast_dropped, oid_of,
    pg_text_unqualified, pg_types_as_text, recast, redundant_cast_dropped, regclass_resolved,
    text_array_type, text_backed_types_as_text, without_regoper,
};
use super::laws::{other_field_stays, set_field_is_read};
use super::meaning::{field_is_found, World};
use super::predicates::parentheses_change_nothing;
use super::tree::{expr_node, variant, Syntax};
use crate::text::{case_is_ignored, same_letter};
use vstd::prelude::*;

verus! {

pub(crate) proof fn tags_differ()
    ensures
        "expr"@ != "data_type"@ && "Cast"@ != "Function"@ && "name"@ != "args"@ && "Custom"@
            != "Varchar"@ && "Custom"@ != "CharacterVarying"@ && "Custom"@ != "Array"@,
        "SingleQuotedString"@ != "Number"@ && "Text"@ != "Regclass"@ && "Text"@ != "Null"@,
        "value"@ != "quote_style"@ && "value"@ != "span"@ && "quote_style"@ != "span"@,
        "Cast"@ != "Value"@ && "Function"@ != "Value"@,
{
    reveal_strlit("expr");
    reveal_strlit("data_type");
    reveal_strlit("Cast");
    reveal_strlit("Function");
    reveal_strlit("Value");
    reveal_strlit("Regclass");
    reveal_strlit("name");
    reveal_strlit("args");
    reveal_strlit("Custom");
    reveal_strlit("Array");
    reveal_strlit("value");
    reveal_strlit("SingleQuotedString");
    reveal_strlit("Identifier");
    reveal_strlit("Number");
    reveal_strlit("List");
    reveal_strlit("Unnamed");
    reveal_strlit("Expr");
    reveal_strlit("Text");
    reveal_strlit("Null");
    reveal_strlit("Varchar");
    reveal_strlit("CharacterVarying");
    reveal_strlit("span");
    reveal_strlit("quote_style");
    reveal_strlit("kind");
    assert("expr"@.len() == 4);
    assert("data_type"@.len() == 9);
    assert("Cast"@.len() == 4);
    assert("Function"@.len() == 8);
    assert("Value"@.len() == 5);
    assert("Regclass"@.len() == 8);
    assert("name"@.len() == 4);
    assert("args"@.len() == 4);
    assert("Custom"@.len() == 6);
    assert("Array"@.len() == 5);
    assert("value"@.len() == 5);
    assert("SingleQuotedString"@.len() == 18);
    assert("Identifier"@.len() == 10);
    assert("Number"@.len() == 6);
    assert("List"@.len() == 4);
    assert("Unnamed"@.len() == 7);
    assert("Expr"@.len() == 4);
    assert("Text"@.len() == 4);
    assert("Null"@.len() == 4);
    assert("Varchar"@.len() == 7);
    assert("CharacterVarying"@.len() == 16);
    assert("span"@.len() == 4);
    assert("quote_style"@.len() == 11);
    assert("kind"@.len() == 4);
    assert("expr"@[0] == 'e');
    assert("Cast"@[0] == 'C');
    assert("name"@[0] == 'n');
    assert("args"@[0] == 'a');
    assert("List"@[0] == 'L');
    assert("Expr"@[0] == 'E');
    assert("Text"@[0] == 'T');
    assert("Null"@[0] == 'N');
    assert("span"@[0] == 's');
    assert("kind"@[0] == 'k');
    assert("Function"@[0] == 'F');
    assert("Regclass"@[0] == 'R');
    assert("Value"@[0] == 'V');
    assert("Array"@[0] == 'A');
    assert("value"@[0] == 'v');
    assert("Custom"@[0] == 'C');
    assert("Number"@[0] == 'N');
    assert("Unnamed"@[0] == 'U');
    assert("Varchar"@[0] == 'V');
}

// --- what stands in an expression ------------------------------------------------------------

/// Two texts are the same but for the case of ASCII letters.
pub open spec fn alike(a: Seq<char>, b: Seq<char>) -> bool {
    a.len() == b.len() && forall|i: int| 0 <= i < a.len() ==> same_letter(#[trigger] a[i], b[i])
}

/// Whether a part of a name is an identifier that spells `s`.
pub open spec fn spells(part: Syntax, s: Seq<char>) -> bool {
    match part.payload("Identifier"@) {
        Some(id) => match id.at("value"@) {
            Syntax::Text(t) => alike(t, s),
            _ => false,
        },
        None => false,
    }
}

/// Whether a name is `schema.name`.
pub open spec fn is_qualified(parts: Seq<Syntax>, schema: Seq<char>, name: Seq<char>) -> bool {
    parts.len() == 2 && spells(parts[0], schema) && spells(parts[1], name)
}

/// Whether a name is `name` alone.
pub open spec fn is_unqualified(parts: Seq<Syntax>, name: Seq<char>) -> bool {
    parts.len() == 1 && spells(parts[0], name)
}

/// The parts of the name of a type that the grammar does not know.
pub open spec fn named_type(ty: Syntax) -> Option<Seq<Syntax>> {
    match ty.payload("Custom"@) {
        Some(c) => Some(c.item(0).items()),
        None => None,
    }
}

/// Whether a type is `name` or `pg_catalog.name`.
pub open spec fn is_type(ty: Syntax, name: Seq<char>) -> bool {
    named_type(ty) is Some && (is_unqualified(named_type(ty)->0, name) || is_qualified(
        named_type(ty)->0,
        "pg_catalog"@,
        name,
    ))
}

/// Whether a type is `schema.name`.
pub open spec fn is_type_of(ty: Syntax, schema: Seq<char>, name: Seq<char>) -> bool {
    named_type(ty) is Some && is_qualified(named_type(ty)->0, schema, name)
}

/// Whether a type is `name`, without a schema.
pub open spec fn is_bare_type(ty: Syntax, name: Seq<char>) -> bool {
    named_type(ty) is Some && is_unqualified(named_type(ty)->0, name)
}

/// The value that is cast and the type that it is cast to.
pub struct Casting {
    pub value: Syntax,
    pub ty: Syntax,
}

/// The value and the type of a cast.
pub open spec fn cast_parts(e: Syntax) -> Option<Casting> {
    match e.payload("Cast"@) {
        Some(c) => Some(Casting { value: c.at("expr"@).inner(), ty: c.at("data_type"@) }),
        None => None,
    }
}

/// That the value `value` is cast to the type `ty`.
pub open spec fn casts(value: Syntax, ty: Syntax) -> Option<Casting> {
    Some(Casting { value, ty })
}

/// The literal value of an expression.
pub open spec fn literal(e: Syntax) -> Syntax {
    match e.payload("Value"@) {
        Some(v) => v.at("value"@),
        None => Syntax::Null,
    }
}

/// Whether an expression is the literal `'s'`.
pub open spec fn is_string(e: Syntax, s: Seq<char>) -> bool {
    literal(e).payload("SingleQuotedString"@) == Some(Syntax::Text(s))
}

/// Whether an expression is a literal in single quotes.
pub open spec fn is_some_string(e: Syntax) -> bool {
    literal(e).payload("SingleQuotedString"@) is Some
}

/// The parts of the name of the function that is called.
pub open spec fn called(e: Syntax) -> Seq<Syntax> {
    match e.payload("Function"@) {
        Some(f) => f.at("name"@).items(),
        None => Seq::empty(),
    }
}

/// The arguments that a function is called with.
pub open spec fn arguments(e: Syntax) -> Seq<Syntax> {
    match e.payload("Function"@) {
        Some(f) => match f.at("args"@).payload("List"@) {
            Some(list) => list.at("args"@).items(),
            None => Seq::empty(),
        },
        None => Seq::empty(),
    }
}

/// Whether an argument is the expression `e`.
pub open spec fn argument_is(arg: Syntax, e: Syntax) -> bool {
    match arg.payload("Unnamed"@) {
        Some(a) => a.payload("Expr"@) == Some(expr_node(e)),
        None => false,
    }
}

/// Whether `e` calls a function whose name ends in `name`.
pub open spec fn calls_last(e: Syntax, name: Seq<char>) -> bool {
    called(e).len() > 0 && spells(called(e).last(), name)
}

pub(crate) proof fn spelling_ignores_case(part: Syntax, s: Seq<char>)
    ensures
        spells(part, s) == part_is(part, s),
{
    if let Some(id) = part.payload("Identifier"@) {
        if let Syntax::Text(t) = id.at("value"@) {
            case_is_ignored(t, s);
        }
    }
}

pub(crate) proof fn names_ignore_case(obj: Syntax, schema: Seq<char>, name: Seq<char>)
    ensures
        obj.items().len() > 0 ==> spells(obj.items()[0], schema) == part_is(
            obj.items()[0],
            schema,
        ) && spells(obj.items()[0], name) == part_is(obj.items()[0], name),
        obj.items().len() > 1 ==> spells(obj.items()[1], name) == part_is(
            obj.items()[1],
            name,
        ),
        obj.items().len() > 0 ==> spells(obj.items().last(), name) == part_is(
            obj.items().last(),
            name,
        ),
{
    if obj.items().len() > 0 {
        spelling_ignores_case(obj.items()[0], schema);
        spelling_ignores_case(obj.items()[0], name);
        spelling_ignores_case(obj.items().last(), name);
    }
    if obj.items().len() > 1 {
        spelling_ignores_case(obj.items()[1], name);
    }
}

proof fn type_is_replaced(e: Syntax, ty: Syntax)
    requires
        e.payload("Cast"@) is Some,
        e.payload("Cast"@)->0.at("data_type"@) != Syntax::Null,
    ensures
        cast_parts(variant("Cast"@, e.payload("Cast"@)->0.with("data_type"@, ty)))
            == casts(e.payload("Cast"@)->0.at("expr"@).inner(), ty),
{
    tags_differ();
    let c = e.payload("Cast"@)->0;
    set_field_is_read(c, "data_type"@, ty);
    other_field_stays(c, "data_type"@, ty, "expr"@, ty);
    assert(variant("Cast"@, c.with("data_type"@, ty)).payload("Cast"@) == Some(
        c.with("data_type"@, ty),
    ));
}

// --- casts to a type of another name ---------------------------------------------------------

/// A cast to `name` or `pg_catalog.name` becomes one of the same value to the type `target`; any
/// other expression stays.
pub proof fn casts_are_redirected(e: Syntax, name: Seq<char>, target: Syntax)
    ensures
        cast_parts(e) is Some && is_type(cast_parts(e)->0.ty, name) ==> cast_parts(
            recast(e, name, target),
        ) == casts(cast_parts(e)->0.value, target),
        !(cast_parts(e) is Some && is_type(cast_parts(e)->0.ty, name)) ==> recast(e, name, target)
            == e,
{
    if let Some(c) = e.payload("Cast"@) {
        if let Some(p) = c.at("data_type"@).payload("Custom"@) {
            names_ignore_case(p.item(0), "pg_catalog"@, name);
            type_is_replaced(e, target);
        }
    }
}

/// A cast to `regoper` becomes the literal `NULL`; any other expression stays.
pub proof fn operators_are_null(e: Syntax)
    ensures
        cast_parts(e) is Some && is_type(cast_parts(e)->0.ty, "regoper"@) ==> literal(
            without_regoper(e),
        ) == Syntax::Text("Null"@),
        !(cast_parts(e) is Some && is_type(cast_parts(e)->0.ty, "regoper"@)) ==> without_regoper(e)
            == e,
{
    null_is_a_literal();
    if let Some(c) = e.payload("Cast"@) {
        if let Some(p) = c.at("data_type"@).payload("Custom"@) {
            names_ignore_case(p.item(0), "pg_catalog"@, "regoper"@);
        }
    }
}

pub(crate) proof fn null_is_a_literal()
    ensures
        literal(null_expr()) == Syntax::Text("Null"@),
{
    field_is_found(null_expr().payload("Value"@)->0->Record_0, 0);
}

pub(crate) proof fn string_is_a_literal(s: Seq<char>)
    ensures
        is_string(string_expr(s), s),
{
    let v = string_expr(s).payload("Value"@)->0;
    field_is_found(v->Record_0, 0);
    assert(variant("SingleQuotedString"@, Syntax::Text(s)).payload("SingleQuotedString"@) == Some(
        Syntax::Text(s),
    ));
}

/// The parts of a call that is written out.
pub(crate) proof fn call_parts(name: Syntax, args: Seq<Syntax>)
    ensures
        called(call(name, args)) == name.items(),
        arguments(call(name, args)) == args,
{
    reveal_strlit("name");
    reveal_strlit("uses_odbc_syntax");
    reveal_strlit("parameters");
    reveal_strlit("args");
    reveal_strlit("duplicate_treatment");
    assert("name"@.len() == 4);
    assert("uses_odbc_syntax"@.len() == 16);
    assert("parameters"@.len() == 10);
    assert("args"@.len() == 4);
    assert("duplicate_treatment"@.len() == 19);
    assert("name"@[0] == 'n');
    assert("args"@[0] == 'a');
    let f = call(name, args).payload("Function"@)->0;
    field_is_found(f->Record_0, 0);
    field_is_found(f->Record_0, 3);
    let list = f.at("args"@).payload("List"@)->0;
    field_is_found(list->Record_0, 1);
}

/// The parts of a name that is written out.
pub(crate) proof fn part_is_spelled(s: Seq<char>)
    ensures
        spells(name_part(s), s),
{
    let id = ident(s);
    field_is_found(id->Record_0, 0);
    assert(name_part(s).payload("Identifier"@) == Some(id));
}

/// `'s'::regclass` and `'s'::regclass::oid` become a call of `oid` with the argument `'s'` alone.
pub proof fn relations_are_looked_up(e: Syntax, s: Seq<char>)
    requires
        cast_parts(e) is Some,
        ({
            let Casting { value: x, ty } = cast_parts(e)->0;
            ||| ty == Syntax::Text("Regclass"@) && is_string(x, s)
            ||| is_bare_type(ty, "oid"@) && cast_parts(x) is Some && cast_parts(x)->0.ty
                == Syntax::Text("Regclass"@) && is_string(cast_parts(x)->0.value, s)
        }),
    ensures
        is_unqualified(called(regclass_resolved(e)), "oid"@),
        arguments(regclass_resolved(e)).len() == 1,
        argument_is(arguments(regclass_resolved(e))[0], string_expr(s)),
        is_string(string_expr(s), s),
{
    tags_differ();
    string_is_a_literal(s);
    part_is_spelled("oid"@);
    let c = e.payload("Cast"@)->0;
    if let Some(p) = c.at("data_type"@).payload("Custom"@) {
        names_ignore_case(p.item(0), "pg_catalog"@, "oid"@);
    }
    call_parts(name1("oid"@), seq![unnamed_arg(string_expr(s))]);
    assert(regclass_resolved(e) == oid_of(s));
}

/// A cast of anything but a literal to `regclass`, and of anything but such a lookup to `oid`,
/// stays.
pub proof fn other_casts_are_not_looked_up(e: Syntax)
    requires
        cast_parts(e) is Some ==> ({
            let Casting { value: x, ty } = cast_parts(e)->0;
            &&& ty != Syntax::Text("Regclass"@) || !is_some_string(x)
            &&& !is_bare_type(ty, "oid"@)
        }),
    ensures
        regclass_resolved(e) == e,
{
    tags_differ();
    if let Some(c) = e.payload("Cast"@) {
        if let Some(p) = c.at("data_type"@).payload("Custom"@) {
            names_ignore_case(p.item(0), "pg_catalog"@, "oid"@);
        }
    }
}

/// `array_agg(..)::varchar` becomes `pg_catalog.array_to_string(array_agg(..), ',')`.
pub proof fn arrays_are_joined_by_commas(e: Syntax)
    requires
        cast_parts(e) is Some,
        cast_parts(e)->0.ty.payload("Varchar"@) is Some,
        calls_last(cast_parts(e)->0.value, "array_agg"@),
    ensures
        is_qualified(called(array_agg_as_text(e)), "pg_catalog"@, "array_to_string"@),
        arguments(array_agg_as_text(e)).len() == 2,
        argument_is(arguments(array_agg_as_text(e))[0], cast_parts(e)->0.value),
        argument_is(arguments(array_agg_as_text(e))[1], string_expr(","@)),
        is_string(string_expr(","@), ","@),
{
    string_is_a_literal(","@);
    part_is_spelled("pg_catalog"@);
    part_is_spelled("array_to_string"@);
    let x = cast_parts(e)->0.value;
    names_ignore_case(x.payload("Function"@)->0.at("name"@), "pg_catalog"@, "array_agg"@);
    call_parts(
        name2("pg_catalog"@, "array_to_string"@),
        seq![unnamed_arg(x), unnamed_arg(string_expr(","@))],
    );
}

/// Anything but a cast of `array_agg(..)` to `varchar` stays.
pub proof fn other_casts_are_not_joined(e: Syntax)
    requires
        cast_parts(e) is Some ==> cast_parts(e)->0.ty.payload("Varchar"@) is None || !calls_last(
            cast_parts(e)->0.value,
            "array_agg"@,
        ),
    ensures
        array_agg_as_text(e) == e,
{
    if let Some(c) = e.payload("Cast"@) {
        if let Some(f) = c.at("expr"@).inner().payload("Function"@) {
            names_ignore_case(f.at("name"@), "pg_catalog"@, "array_agg"@);
        }
    }
}

// --- types that are read as text ----------------------------------------------------------------

/// A cast to `pg_catalog.text` becomes one of the same value to `TEXT`; any other expression stays.
pub proof fn qualified_text_is_text(e: Syntax)
    ensures
        cast_parts(e) is Some && is_type_of(cast_parts(e)->0.ty, "pg_catalog"@, "text"@)
            ==> cast_parts(pg_text_unqualified(e))
                == casts(cast_parts(e)->0.value, Syntax::Text("Text"@)),
        !(cast_parts(e) is Some && is_type_of(cast_parts(e)->0.ty, "pg_catalog"@, "text"@))
            ==> pg_text_unqualified(e) == e,
{
    if let Some(c) = e.payload("Cast"@) {
        if let Some(p) = c.at("data_type"@).payload("Custom"@) {
            names_ignore_case(p.item(0), "pg_catalog"@, "text"@);
            type_is_replaced(e, Syntax::Text("Text"@));
        }
    }
}

/// Whether a type of `pg_catalog` is read as text.
pub open spec fn reads_as_text(ty: Syntax) -> bool {
    ||| is_type_of(ty, "pg_catalog"@, "text"@)
    ||| is_type_of(ty, "pg_catalog"@, "regtype"@)
    ||| is_type_of(ty, "pg_catalog"@, "regnamespace"@)
    ||| is_type_of(ty, "pg_catalog"@, "regclass"@)
}

/// A cast to `pg_catalog.text`, `.regtype`, `.regnamespace` or `.regclass` becomes one of the
/// same value to `TEXT`; any other expression stays.
pub proof fn catalog_types_are_text(e: Syntax)
    ensures
        cast_parts(e) is Some && reads_as_text(cast_parts(e)->0.ty) ==> cast_parts(
            pg_types_as_text(e),
        ) == casts(cast_parts(e)->0.value, Syntax::Text("Text"@)),
        !(cast_parts(e) is Some && reads_as_text(cast_parts(e)->0.ty)) ==> pg_types_as_text(e) == e,
{
    if let Some(c) = e.payload("Cast"@) {
        if let Some(p) = c.at("data_type"@).payload("Custom"@) {
            names_ignore_case(p.item(0), "pg_catalog"@, "text"@);
            names_ignore_case(p.item(0), "pg_catalog"@, "regtype"@);
            names_ignore_case(p.item(0), "pg_catalog"@, "regnamespace"@);
            names_ignore_case(p.item(0), "pg_catalog"@, "regclass"@);
            type_is_replaced(e, Syntax::Text("Text"@));
        }
    }
}

/// Whether a type is the domain `name` of `information_schema`.
pub open spec fn is_domain(ty: Syntax, name: Seq<char>) -> bool {
    is_type_of(ty, "information_schema"@, name)
}

/// Whether a type is `varchar` without a length.
pub open spec fn is_varchar(ty: Syntax) -> bool {
    ty == variant("Varchar"@, Syntax::Null) || ty == variant("CharacterVarying"@, Syntax::Null)
}

/// A cast to a domain of `information_schema` becomes one of the same value to the type of the
/// domain: text for identifiers, characters and answers, whole numbers and points of time for the
/// others; one to `varchar` without a length becomes one to text.
pub proof fn domains_have_their_types(e: Syntax)
    requires
        cast_parts(e) is Some,
    ensures
        ({
            let Casting { value: x, ty } = cast_parts(e)->0;
            let out = cast_parts(domains_as_base_types(e));
            &&& is_domain(ty, "sql_identifier"@) ==> out == casts(x, Syntax::Text("Text"@))
            &&& is_domain(ty, "character_data"@) ==> out == casts(x, Syntax::Text("Text"@))
            &&& is_domain(ty, "yes_or_no"@) ==> out == casts(x, Syntax::Text("Text"@))
            &&& is_domain(ty, "cardinal_number"@)
                ==> out == casts(x, variant("Integer"@, Syntax::Null))
            &&& is_domain(ty, "time_stamp"@) ==> out is Some && out->0.value == x
                && out->0.ty.payload("Timestamp"@) is Some
            &&& is_varchar(ty) ==> out == casts(x, Syntax::Text("Text"@))
        }),
{
    tags_differ();
    domain_names_differ();
    let c = e.payload("Cast"@)->0;
    let ty = c.at("data_type"@);
    if let Some(p) = ty.payload("Custom"@) {
        names_ignore_case(p.item(0), "information_schema"@, "sql_identifier"@);
        names_ignore_case(p.item(0), "information_schema"@, "character_data"@);
        names_ignore_case(p.item(0), "information_schema"@, "yes_or_no"@);
        names_ignore_case(p.item(0), "information_schema"@, "cardinal_number"@);
        names_ignore_case(p.item(0), "information_schema"@, "time_stamp"@);
        if domain_type(p.item(0)) is Some {
            type_is_replaced(e, domain_type(p.item(0))->0);
        }
        if is_domain(ty, "cardinal_number"@) || is_domain(ty, "time_stamp"@) {
            let part = p.item(0).items()[1];
            let t = part.payload("Identifier"@)->0.at("value"@)->Text_0;
            domain_is_alone(t);
        }
    } else if is_varchar(ty) {
        type_is_replaced(e, Syntax::Text("Text"@));
        assert(ty.payload("Varchar"@) == Some(Syntax::Null) || ty.payload("CharacterVarying"@)
            == Some(Syntax::Null));
    }
}

proof fn domain_is_alone(t: Seq<char>)
    ensures
        alike(t, "cardinal_number"@) || alike(t, "time_stamp"@) ==> !alike(t, "sql_identifier"@)
            && !alike(t, "character_data"@) && !alike(t, "yes_or_no"@),
        !(alike(t, "cardinal_number"@) && alike(t, "time_stamp"@)),
{
    domain_names_differ();
}

proof fn domain_names_differ()
    ensures
        "sql_identifier"@.len() == 14 && "character_data"@.len() == 14 && "yes_or_no"@.len() == 9,
        "cardinal_number"@.len() == 15 && "time_stamp"@.len() == 10,
{
    reveal_strlit("sql_identifier");
    reveal_strlit("character_data");
    reveal_strlit("yes_or_no");
    reveal_strlit("cardinal_number");
    reveal_strlit("time_stamp");
}

/// A cast to `anyarray` becomes one of the same value to text, and a cast to an array of `name`
/// one to an array of text.
pub proof fn name_arrays_are_text_arrays(e: Syntax)
    requires
        cast_parts(e) is Some,
    ensures
        ({
            let Casting { value: x, ty } = cast_parts(e)->0;
            let out = cast_parts(text_backed_types_as_text(e));
            let element = ty.payload("Array"@)->0.payload("SquareBracket"@)->0.item(0);
            let text = out->0.ty.payload("Array"@)->0.payload("SquareBracket"@);
            &&& is_type(ty, "anyarray"@) ==> out == casts(x, Syntax::Text("Text"@))
            &&& ty.payload("Array"@) is Some && ty.payload("Array"@)->0.payload("SquareBracket"@)
                is Some && is_type(element, "name"@)
                    ==> out is Some && out->0.value == x && text is Some
                && text->0.item(0) == Syntax::Text("Text"@)
        }),
{
    tags_differ();
    let c = e.payload("Cast"@)->0;
    let ty = c.at("data_type"@);
    if let Some(p) = ty.payload("Custom"@) {
        names_ignore_case(p.item(0), "pg_catalog"@, "anyarray"@);
        type_is_replaced(e, Syntax::Text("Text"@));
    } else if let Some(a) = ty.payload("Array"@) {
        let element = a.payload("SquareBracket"@)->0.item(0);
        if let Some(p) = element.payload("Custom"@) {
            names_ignore_case(p.item(0), "pg_catalog"@, "name"@);
        }
        type_is_replaced(e, text_array_type());
        let text = text_array_type();
        assert(text.payload("Array"@)->0.payload("SquareBracket"@) is Some);
    }
}

// --- casts that keep the value -------------------------------------------------------------------

/// A cast of anything but a string to `regclass`, and of anything but a string or a number to
/// `oid`, is dropped, and the value stays; any other expression stays as it is.
pub proof fn redundant_casts_keep_the_value(w: World, e: Syntax)
    ensures
        ({
            let Casting { value: x, ty } = cast_parts(e)->0;
            let redundant = cast_parts(e) is Some && (ty == Syntax::Text("Regclass"@)
                && !is_some_string(x) || is_bare_type(ty, "oid"@) && !is_some_string(x)
                && literal(x).payload("Number"@) is None);
            &&& redundant ==> w.value_of(redundant_cast_dropped(e)) == w.value_of(x)
            &&& !redundant ==> redundant_cast_dropped(e) == e
        }),
{
    tags_differ();
    if let Some(c) = e.payload("Cast"@) {
        parentheses_change_nothing(w, c.at("expr"@).inner());
        if let Some(p) = c.at("data_type"@).payload("Custom"@) {
            names_ignore_case(p.item(0), "pg_catalog"@, "oid"@);
        }
    }
}

/// A cast to `oid[]` is dropped, and the value stays.
pub proof fn oid_arrays_keep_the_value(w: World, e: Syntax)
    requires
        cast_parts(e) is Some,
        cast_parts(e)->0.ty.payload("Array"@) is Some,
        cast_parts(e)->0.ty.payload("Array"@)->0.payload("SquareBracket"@) is Some,
        is_bare_type(
            cast_parts(e)->0.ty.payload("Array"@)->0.payload("SquareBracket"@)->0.item(0),
            "oid"@,
        ),
    ensures
        w.value_of(oid_array_cast_dropped(e)) == w.value_of(cast_parts(e)->0.value),
{
    let c = e.payload("Cast"@)->0;
    parentheses_change_nothing(w, c.at("expr"@).inner());
    let t = c.at("data_type"@).payload("Array"@)->0.payload("SquareBracket"@)->0.item(0);
    names_ignore_case(t.payload("Custom"@)->0.item(0), "pg_catalog"@, "oid"@);
}

/// A cast to anything but an array of `oid` stays.
pub proof fn other_arrays_stay(e: Syntax)
    requires
        cast_parts(e) is Some ==> cast_parts(e)->0.ty.payload("Array"@) is None,
    ensures
        oid_array_cast_dropped(e) == e,
{
}

} // verus!
