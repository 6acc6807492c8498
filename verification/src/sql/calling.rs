//! What holds of rewritten calls and literals.
use super::ast::{
    cast, column, ident, name1, name2, null_expr, string_literal, text_type, unnamed_arg,
};
use super::calls::{
    array_operand, array_rewritten, array_upper_as_length, available_updates_rule, brace_array,
    braces_rewritten, column_arg, default_collation_dropped, get_array_call, is_array_call,
    is_available_updates, is_malformed, is_pg_match, match_held, parenthesized, plain_match,
    read_until, rows_as_columns, truetype_columns, utc_rule, wildcard_qualifier, Place,
};
use super::casting::{
    alike, argument_is, arguments, call_parts, called, calls_last, cast_parts, is_qualified,
    is_string, is_unqualified, literal, names_ignore_case, null_is_a_literal, part_is_spelled,
    string_is_a_literal,
};
use super::laws::{other_field_stays, set_field_is_read};
use super::meaning::{field_is_found, World};
use super::predicates::parentheses_change_nothing;
use super::tree::{expr_node, variant, Syntax};
use super::walk::ProgressView;
use crate::text::{
    ascii, case_is_ignored, ends_are_trimmed, is_space, joined, lower, pieces_are_found,
    same_letter, split, Trim,
};
use vstd::prelude::*;

verus! {

pub(crate) proof fn call_fields_differ()
    ensures
        "left"@ != "right"@ && "left"@ != "op"@ && "right"@ != "op"@ && "name"@ != "args"@,
        "timestamp"@ != "time_zone"@ && "kind"@ != "expr"@ && "kind"@ != "data_type"@ && "expr"@
            != "data_type"@ && "value"@ != "span"@ && "Function"@ != "Cast"@,
        "elem"@ != "named"@ && "List"@ != "Subquery"@ && "Nested"@ != "Subquery"@ && "Nested"@
            != "Value"@ && "Nested"@ != "Cast"@,
{
    reveal_strlit("left");
    reveal_strlit("right");
    reveal_strlit("op");
    reveal_strlit("name");
    reveal_strlit("args");
    reveal_strlit("timestamp");
    reveal_strlit("time_zone");
    reveal_strlit("kind");
    reveal_strlit("expr");
    reveal_strlit("data_type");
    reveal_strlit("value");
    reveal_strlit("span");
    reveal_strlit("Function");
    reveal_strlit("Cast");
    reveal_strlit("elem");
    reveal_strlit("named");
    reveal_strlit("List");
    reveal_strlit("Subquery");
    reveal_strlit("Nested");
    reveal_strlit("Value");
    assert("left"@.len() == 4);
    assert("right"@.len() == 5);
    assert("op"@.len() == 2);
    assert("name"@.len() == 4);
    assert("args"@.len() == 4);
    assert("timestamp"@.len() == 9);
    assert("time_zone"@.len() == 9);
    assert("kind"@.len() == 4);
    assert("expr"@.len() == 4);
    assert("data_type"@.len() == 9);
    assert("value"@.len() == 5);
    assert("span"@.len() == 4);
    assert("Function"@.len() == 8);
    assert("Cast"@.len() == 4);
    assert("elem"@.len() == 4);
    assert("named"@.len() == 5);
    assert("List"@.len() == 4);
    assert("Subquery"@.len() == 8);
    assert("Nested"@.len() == 6);
    assert("Value"@.len() == 5);
    assert("left"@[0] == 'l');
    assert("name"@[0] == 'n');
    assert("args"@[0] == 'a');
    assert("kind"@[0] == 'k');
    assert("expr"@[0] == 'e');
    assert("span"@[0] == 's');
    assert("Cast"@[0] == 'C');
    assert("elem"@[0] == 'e');
    assert("List"@[0] == 'L');
    assert("right"@[0] == 'r');
    assert("value"@[0] == 'v');
    assert("named"@[0] == 'n');
    assert("Value"@[0] == 'V');
    assert("timestamp"@[4] == 's');
    assert("time_zone"@[4] == '_');
    assert("timestamp"@[0] == 't');
    assert("data_type"@[0] == 'd');
    assert("time_zone"@[0] == 't');
    assert("expr"@[1] == 'x');
    assert("elem"@[1] == 'l');
    assert("Function"@[0] == 'F');
    assert("Subquery"@[0] == 'S');
}

// --- operators and collations ----------------------------------------------------------------

/// Whether an operator is written `OPERATOR(pg_catalog.~)`.
pub open spec fn is_written_match(op: Syntax) -> bool {
    match op.payload("PGCustomBinaryOperator"@) {
        Some(p) => p.items().len() == 2 && p.items()[1] == Syntax::Text("~"@)
            && match p.items()[0] {
            Syntax::Text(schema) => alike(schema, "pg_catalog"@),
            _ => false,
        },
        None => false,
    }
}

/// `a OPERATOR(pg_catalog.~) b` becomes the match of `a` against `b`; any other operator keeps
/// its place between operands of the same values.
pub proof fn operators_keep_their_operands(w: World, e: Syntax)
    requires
        e.payload("BinaryOp"@) is Some,
        e.payload("BinaryOp"@)->0.at("left"@) is Expr,
        e.payload("BinaryOp"@)->0.at("right"@) is Expr,
        e.payload("BinaryOp"@)->0.at("op"@) != Syntax::Null,
    ensures
        ({
            let b = e.payload("BinaryOp"@)->0;
            let out = plain_match(e).payload("BinaryOp"@);
            &&& out is Some
            &&& w.value_of(out->0.at("left"@).inner()) == w.value_of(b.at("left"@).inner())
            &&& w.value_of(out->0.at("right"@).inner()) == w.value_of(b.at("right"@).inner())
            &&& is_written_match(b.at("op"@)) ==> out->0.at("op"@) == Syntax::Text("PGRegexMatch"@)
            &&& !is_written_match(b.at("op"@)) ==> out->0.at("op"@) == b.at("op"@)
        }),
{
    call_fields_differ();
    let b = e.payload("BinaryOp"@)->0;
    let op = b.at("op"@);
    if let Some(p) = op.payload("PGCustomBinaryOperator"@) {
        if p.items().len() == 2 {
            if let Syntax::Text(schema) = p.items()[0] {
                case_is_ignored(schema, "pg_catalog"@);
            }
        }
    }
    assert(is_pg_match(op) == is_written_match(op));
    let l = b.at("left"@);
    let r = b.at("right"@);
    parentheses_change_nothing(w, l.inner());
    parentheses_change_nothing(w, r.inner());
    if is_pg_match(op) {
        let t = Syntax::Text("PGRegexMatch"@);
        set_field_is_read(b, "op"@, t);
        other_field_stays(b, "op"@, t, "left"@, t);
        other_field_stays(b, "op"@, t, "right"@, t);
        assert(plain_match(e).payload("BinaryOp"@) == Some(b.with("op"@, t)));
    } else if op != Syntax::Text("And"@) && op != Syntax::Text("Or"@) {
        let one = b.with("left"@, match_held(l));
        let two = one.with("right"@, match_held(r));
        set_field_is_read(b, "left"@, match_held(l));
        other_field_stays(b, "left"@, match_held(l), "right"@, r);
        other_field_stays(b, "left"@, match_held(l), "op"@, r);
        set_field_is_read(one, "right"@, match_held(r));
        other_field_stays(one, "right"@, match_held(r), "left"@, r);
        other_field_stays(one, "right"@, match_held(r), "op"@, r);
        assert(plain_match(e).payload("BinaryOp"@) == Some(two));
    }
}

/// `a COLLATE pg_catalog.default` becomes `a`; any other expression stays.
pub proof fn default_collations_go(e: Syntax)
    ensures
        ({
            let c = e.payload("Collate"@);
            let default = c is Some && is_qualified(
                c->0.at("collation"@).items(),
                "pg_catalog"@,
                "default"@,
            );
            &&& default ==> default_collation_dropped(e) == c->0.at("expr"@).inner()
            &&& !default ==> default_collation_dropped(e) == e
        }),
{
    if let Some(c) = e.payload("Collate"@) {
        names_ignore_case(c.at("collation"@), "pg_catalog"@, "default"@);
    }
}

// --- calls -------------------------------------------------------------------------------------

/// `array_upper(..)` becomes `array_length(..)` of the same arguments, cast to `BIGINT`; any other
/// expression stays.
pub proof fn upper_bounds_are_lengths(e: Syntax)
    ensures
        calls_last(e, "array_upper"@) ==> ({
            let out = cast_parts(array_upper_as_length(e));
            &&& out is Some
            &&& out->0.ty.payload("BigInt"@) is Some
            &&& is_unqualified(called(out->0.value), "array_length"@)
            &&& arguments(out->0.value) == arguments(e)
        }),
        !calls_last(e, "array_upper"@) ==> array_upper_as_length(e) == e,
{
    call_fields_differ();
    if let Some(f) = e.payload("Function"@) {
        names_ignore_case(f.at("name"@), "pg_catalog"@, "array_upper"@);
        let name = name1("array_length"@);
        part_is_spelled("array_length"@);
        set_field_is_read(f, "name"@, name);
        other_field_stays(f, "name"@, name, "args"@, name);
        let inner = variant("Function"@, f.with("name"@, name));
        assert(inner.payload("Function"@) == Some(f.with("name"@, name)));
        if calls_last(e, "array_upper"@) {
            let out = array_upper_as_length(e);
            let c = out.payload("Cast"@)->0;
            field_is_found(c->Record_0, 1);
            field_is_found(c->Record_0, 2);
        }
    }
}

/// The texts of the name of a column that is an argument.
pub open spec fn column_texts(arg: Syntax) -> Seq<Syntax> {
    let path = arg.payload("Unnamed"@)->0.payload("Expr"@)->0.inner().payload(
        "CompoundIdentifier"@,
    )->0.items();
    Seq::new(path.len(), |i: int| path[i].at("value"@))
}

/// The name of the last part of `..*` as an argument.
pub open spec fn row_of(arg: Syntax, name: Seq<char>) -> bool {
    let path = arg.payload("Unnamed"@)->0.payload("QualifiedWildcard"@)->0.items();
    &&& arg.payload("Unnamed"@) is Some
    &&& arg.payload("Unnamed"@)->0.payload("QualifiedWildcard"@) is Some
    &&& path.len() > 0
    &&& path.last().payload("Identifier"@) is Some
    &&& path.last().payload("Identifier"@)->0.at("value"@) == Syntax::Text(name)
}

/// Whether an argument is the column `table.name`.
pub open spec fn is_column_of(arg: Syntax, table: Seq<char>, name: Seq<char>) -> bool {
    column_texts(arg) == seq![Syntax::Text(table), Syntax::Text(name)]
}

proof fn column_is_written(table: Seq<char>, name: Seq<char>)
    ensures
        is_column_of(column_arg(table, name), table, name),
{
    field_is_found(ident(table)->Record_0, 0);
    field_is_found(ident(name)->Record_0, 0);
    let arg = column_arg(table, name);
    let x = variant("CompoundIdentifier"@, Syntax::List(seq![ident(table), ident(name)]));
    assert(x.payload("CompoundIdentifier"@)->0.items() =~= seq![ident(table), ident(name)]);
    assert(arg.payload("Unnamed"@)->0.payload("Expr"@)->0.inner() == x);
    assert(column_texts(arg) =~= seq![Syntax::Text(table), Syntax::Text(name)]);
}

/// `_pg_truetypid(a.*, t.*)` becomes a call of the same function with `a.atttypid`, `t.typtype`
/// and `t.typbasetype`, and `_pg_truetypmod(a.*, t.*)` one with `a.atttypmod`, `t.typtype` and
/// `t.typtypmod`.
pub proof fn rows_become_their_columns(e: Syntax, a: Seq<char>, t: Seq<char>)
    requires
        calls_last(e, "_pg_truetypid"@) || calls_last(e, "_pg_truetypmod"@),
        arguments(e).len() == 2,
        row_of(arguments(e)[0], a),
        row_of(arguments(e)[1], t),
    ensures
        called(rows_as_columns(e)) == called(e),
        arguments(rows_as_columns(e)).len() == 3,
        calls_last(e, "_pg_truetypid"@) ==> is_column_of(
            arguments(rows_as_columns(e))[0],
            a,
            "atttypid"@,
        ) && is_column_of(arguments(rows_as_columns(e))[1], t, "typtype"@) && is_column_of(
            arguments(rows_as_columns(e))[2],
            t,
            "typbasetype"@,
        ),
        calls_last(e, "_pg_truetypmod"@) ==> is_column_of(
            arguments(rows_as_columns(e))[0],
            a,
            "atttypmod"@,
        ) && is_column_of(arguments(rows_as_columns(e))[1], t, "typtype"@) && is_column_of(
            arguments(rows_as_columns(e))[2],
            t,
            "typtypmod"@,
        ),
{
    call_fields_differ();
    reveal_strlit("_pg_truetypid");
    reveal_strlit("_pg_truetypmod");
    assert("_pg_truetypid"@.len() == 13 && "_pg_truetypmod"@.len() == 14);
    let f = e.payload("Function"@)->0;
    let name = f.at("name"@);
    names_ignore_case(name, "pg_catalog"@, "_pg_truetypid"@);
    names_ignore_case(name, "pg_catalog"@, "_pg_truetypmod"@);
    let list = f.at("args"@).payload("List"@)->0;
    let args = list.at("args"@);
    assert(wildcard_qualifier(args.item(0)) == Some(a));
    assert(wildcard_qualifier(args.item(1)) == Some(t));
    column_is_written(a, "atttypid"@);
    column_is_written(a, "atttypmod"@);
    column_is_written(t, "typtype"@);
    column_is_written(t, "typbasetype"@);
    column_is_written(t, "typtypmod"@);
    let (c0, c1, c2) = truetype_columns(name)->0;
    let new = Syntax::List(
        Seq::empty().push(column_arg(a, c0)).push(
            column_arg(t, c1),
        ).push(column_arg(t, c2)),
    );
    let list1 = variant("List"@, list.with("args"@, new));
    set_field_is_read(list, "args"@, new);
    set_field_is_read(f, "args"@, list1);
    other_field_stays(f, "args"@, list1, "name"@, list1);
    assert(rows_as_columns(e).payload("Function"@) == Some(f.with("args"@, list1)));
    assert(list1.payload("List"@) == Some(list.with("args"@, new)));
}

/// A call of another function stays, and so does one without two such arguments.
pub proof fn other_rows_stay(e: Syntax)
    requires
        !calls_last(e, "_pg_truetypid"@) && !calls_last(e, "_pg_truetypmod"@) || arguments(e).len()
            != 2,
    ensures
        rows_as_columns(e) == e,
{
    if let Some(f) = e.payload("Function"@) {
        names_ignore_case(f.at("name"@), "pg_catalog"@, "_pg_truetypid"@);
        names_ignore_case(f.at("name"@), "pg_catalog"@, "_pg_truetypmod"@);
    }
}

/// Whether `e` is the column `name`.
pub open spec fn is_plain_column(e: Syntax, name: Seq<char>) -> bool {
    match e.payload("Identifier"@) {
        Some(id) => match id.at("value"@) {
            Syntax::Text(s) => alike(s, name),
            _ => false,
        },
        None => false,
    }
}

/// What is rewritten as the list of newer versions is an array of what a subquery selects from
/// `UNNEST(..)` under the condition that it is greater than the column `extversion`; it becomes
/// `NULL`, and anything else stays.
pub proof fn newer_versions_are_null(w: World, st: ProgressView, e: Syntax)
    ensures
        available_updates_rule()(st, e).1 != e ==> ({
            let q = e.payload("Function"@)->0.at("args"@).payload("Subquery"@);
            let select = q->0.at("body"@).payload("Select"@)->0;
            let b = select.at("selection"@).inner().payload("BinaryOp"@)->0;
            &&& literal(available_updates_rule()(st, e).1) == Syntax::Text("Null"@)
            &&& q is Some
            &&& select.at("from"@).items().len() == 1
            &&& select.at("from"@).items()[0].at("relation"@).payload("UNNEST"@) is Some
            &&& select.at("projection"@).items().len() == 1
            &&& is_plain_column(b.at("left"@).inner(), "unnest"@)
            &&& is_plain_column(b.at("right"@).inner(), "extversion"@)
            &&& b.at("op"@) == Syntax::Text("Gt"@)
        }),
{
    null_is_a_literal();
    let q = e.payload("Function"@)->0.at("args"@).payload("Subquery"@)->0;
    let b = q.at("body"@).payload("Select"@)->0.at("selection"@).inner().payload("BinaryOp"@)->0;
    if is_available_updates(e) {
        let l = b.at("left"@).inner().payload("Identifier"@)->0.at("value"@)->Text_0;
        let r = b.at("right"@).inner().payload("Identifier"@)->0.at("value"@)->Text_0;
        case_is_ignored(l, "unnest"@);
        case_is_ignored(r, "extversion"@);
    }
}

/// `a AT TIME ZONE 'utc'` becomes `a AT TIME ZONE 'UTC'`, however `utc` is written; any other
/// expression stays.
pub proof fn utc_is_in_capitals(st: ProgressView, e: Syntax)
    ensures
        ({
            let a = e.payload("AtTimeZone"@);
            let zone = literal(a->0.at("time_zone"@).inner()).payload("SingleQuotedString"@);
            let out = utc_rule()(st, e).1.payload("AtTimeZone"@);
            let utc = a is Some && (zone matches Some(Syntax::Text(s)) && alike(s, "utc"@));
            &&& utc ==> out is Some && out->0.at("timestamp"@) == a->0.at("timestamp"@)
                && is_string(out->0.at("time_zone"@).inner(), "UTC"@)
            &&& !utc ==> utc_rule()(st, e).1 == e
        }),
{
    call_fields_differ();
    if let Some(a) = e.payload("AtTimeZone"@) {
        if let Some(s) = string_literal(a.at("time_zone"@).inner()) {
            case_is_ignored(s, "utc"@);
            let v = a.at("time_zone"@).inner().payload("Value"@)->0;
            let new = variant("SingleQuotedString"@, Syntax::Text("UTC"@));
            let zone = expr_node(variant("Value"@, v.with("value"@, new)));
            set_field_is_read(v, "value"@, new);
            set_field_is_read(a, "time_zone"@, zone);
            other_field_stays(a, "time_zone"@, zone, "timestamp"@, zone);
            assert(new.payload("SingleQuotedString"@) == Some(Syntax::Text("UTC"@)));
            assert(variant("Value"@, v.with("value"@, new)).payload("Value"@) == Some(
                v.with("value"@, new),
            ));
            let out = variant("AtTimeZone"@, a.with("time_zone"@, zone));
            assert(out.payload("AtTimeZone"@) == Some(a.with("time_zone"@, zone)));
        }
    }
}

// --- arrays of subqueries --------------------------------------------------------------------

/// Whether `e` is written `array(..)`.
pub open spec fn makes_array(e: Syntax) -> bool {
    calls_last(e, "array"@)
}

proof fn array_calls_are_known(e: Syntax)
    requires
        makes_array(e),
    ensures
        is_array_call(e.payload("Function"@)->0),
{
    reveal_strlit("array");
    assert("array"@.len() == 5);
    assert("array"@[0] == 'a' && "array"@[1] == 'r' && "array"@[2] == 'r' && "array"@[3] == 'a'
        && "array"@[4] == 'y');
    let parts = e.payload("Function"@)->0.at("name"@).items();
    let s = parts.last().payload("Identifier"@)->0.at("value"@)->Text_0;
    assert(ascii(s)) by {
        assert forall|i: int| 0 <= i < s.len() implies (#[trigger] s[i] as u32) < 128 by {
            assert(same_letter(s[i], "array"@[i]));
        }
    }
    case_is_ignored(s, "array"@);
    assert(lower("array"@) =~= "array"@);
}

/// `ARRAY(SELECT ..)` becomes a call of `pg_catalog.pg_get_array` with the subquery, unless the
/// subquery selects `unnest` from `UNNEST(a)` alone, which makes `a`, or `NULL` from it, which
/// makes `NULL`.
pub proof fn arrays_of_rows_are_called_for(w: World, st: ProgressView, e: Syntax)
    requires
        makes_array(e),
        e.payload("Function"@)->0.at("args"@).payload("Subquery"@) is Some,
    ensures
        ({
            let q = e.payload("Function"@)->0.at("args"@).payload("Subquery"@)->0;
            let select = q.at("body"@).payload("Select"@)->0;
            let table = select.at("from"@).item(0).at("relation"@).payload("UNNEST"@);
            let arrays = table->0.at("array_exprs"@).items();
            let item = select.at("projection"@).item(0).payload("UnnamedExpr"@)->0.inner();
            let out = array_rewritten(st, e).1;
            let alone = q.at("body"@).payload("Select"@) is Some && table is Some && select.at(
                "from"@,
            ).items().len() == 1 && select.at("projection"@).items().len() == 1 && select.at(
                "selection"@,
            ) == Syntax::Null;
            &&& array_rewritten(st, e).0.fault == st.fault
            &&& {
                ||| is_qualified(called(out), "pg_catalog"@, "pg_get_array"@)
                    && arguments(out).len()
                    == 1 && argument_is(arguments(out)[0], variant("Subquery"@, q))
                ||| alone && arrays.len() == 1 && w.value_of(out) == w.value_of(arrays[0].inner())
                    && item.payload("Identifier"@) is Some
                ||| alone && cast_parts(out) is Some && literal(cast_parts(out)->0.value)
                    == Syntax::Text("Null"@) && (literal(item) == Syntax::Text("Null"@) || literal(
                    item.payload("Cast"@)->0.at("expr"@).inner(),
                ) == Syntax::Text("Null"@))
            }
        }),
{
    call_fields_differ();
    array_calls_are_known(e);
    let f = e.payload("Function"@)->0;
    let q = f.at("args"@).payload("Subquery"@)->0;
    let x = variant("Subquery"@, q);
    assert(x.payload("Subquery"@) == Some(q));
    assert(array_operand(f) == Ok::<Syntax, Seq<char>>(x));
    part_is_spelled("pg_catalog"@);
    part_is_spelled("pg_get_array"@);
    call_parts(name2("pg_catalog"@, "pg_get_array"@), seq![unnamed_arg(x)]);
    null_is_a_literal();
    let select = q.at("body"@).payload("Select"@)->0;
    let arrays = select.at("from"@).item(0).at("relation"@).payload("UNNEST"@)->0.at(
        "array_exprs"@,
    );
    parentheses_change_nothing(w, arrays.item(0).inner());
    let null = cast("Cast"@, null_expr(), text_type());
    let c = null.payload("Cast"@)->0;
    field_is_found(c->Record_0, 1);
    field_is_found(c->Record_0, 2);
}

/// `ARRAY(a)` with one argument that is no subquery becomes a call of `pg_catalog.pg_get_array`
/// with that value; with another number of arguments it is refused.
pub proof fn arrays_have_one_argument(w: World, st: ProgressView, e: Syntax)
    requires
        makes_array(e),
        e.payload("Function"@)->0.at("args"@).payload("List"@) is Some,
    ensures
        ({
            let out = array_rewritten(st, e).1;
            let a = arguments(e)[0].payload("Unnamed"@)->0.payload("Expr"@)->0.inner();
            let b = arguments(out)[0].payload("Unnamed"@)->0.payload("Expr"@)->0.inner();
            &&& arguments(e).len() != 1 ==> array_rewritten(st, e).0.fault is Some
            &&& arguments(e).len() == 1 && argument_is(arguments(e)[0], a) && a.payload("Subquery"@)
                is None ==> array_rewritten(st, e).0.fault == st.fault && is_qualified(
                called(out),
                "pg_catalog"@,
                "pg_get_array"@,
            ) && arguments(out).len() == 1 && argument_is(arguments(out)[0], b) && w.value_of(b)
                == w.value_of(a)
        }),
{
    call_fields_differ();
    array_calls_are_known(e);
    let a = arguments(e)[0].payload("Unnamed"@)->0.payload("Expr"@)->0.inner();
    part_is_spelled("pg_catalog"@);
    part_is_spelled("pg_get_array"@);
    call_parts(
        name2("pg_catalog"@, "pg_get_array"@),
        seq![unnamed_arg(parenthesized(a))],
    );
    parentheses_change_nothing(w, a);
    if arguments(e).len() == 1 && argument_is(arguments(e)[0], a)
        && a.payload("Subquery"@) is None {
        let f = e.payload("Function"@)->0;
        assert(array_operand(f) == Ok::<Syntax, Seq<char>>(a));
        assert(array_rewritten(st, e).1 == get_array_call(a));
        let arg = unnamed_arg(parenthesized(a));
        assert(arguments(array_rewritten(st, e).1) == seq![arg]);
        assert(arg.payload("Unnamed"@)->0.payload("Expr"@) == Some(expr_node(parenthesized(a))));
    }
}

// --- arrays in braces ------------------------------------------------------------------------

/// Whether a character stands for itself in an element without quotes.
pub open spec fn is_plain_char(c: char) -> bool {
    c != ',' && c != '"' && c != '{' && c != '}' && c != '\\' && !is_space(c)
}

/// Whether an element can be written without quotes.
pub open spec fn is_plain_element(s: Seq<char>) -> bool {
    s.len() > 0 && forall|i: int| 0 <= i < s.len() ==> is_plain_char(#[trigger] s[i])
}

/// Whether a text is a list of plain elements with commas between them.
pub open spec fn is_plain_list(t: Seq<char>) -> bool {
    &&& t.len() > 0
    &&& t[0] != ','
    &&& t.last() != ','
    &&& forall|i: int| 0 <= i < t.len() ==> is_plain_char(#[trigger] t[i]) || t[i] == ','
    &&& forall|i: int| 0 < i < t.len() ==> !(#[trigger] t[i] == ',' && t[i - 1] == ',')
}

proof fn elements_make_a_list(parts: Seq<Seq<char>>)
    requires
        parts.len() > 0,
        forall|i: int| 0 <= i < parts.len() ==> is_plain_element(#[trigger] parts[i]),
    ensures
        is_plain_list(joined(parts, seq![','])),
    decreases parts.len(),
{
    let last = parts.last();
    assert(last == parts[parts.len() - 1]);
    if parts.len() > 1 {
        let front = parts.drop_last();
        assert forall|i: int| 0 <= i < front.len() implies is_plain_element(
            #[trigger] front[i],
        ) by {
            assert(front[i] == parts[i]);
        }
        elements_make_a_list(front);
        let s = joined(front, seq![',']);
        let t = joined(parts, seq![',']);
        assert(t == s + seq![','] + last);
        assert(t[0] == s[0]);
        assert(t.last() == last.last() && last.last() == last[last.len() - 1]);
        assert forall|i: int| 0 <= i < t.len() implies is_plain_char(#[trigger] t[i]) || t[i]
            == ',' by {
            if i < s.len() {
                assert(t[i] == s[i]);
            } else if i > s.len() {
                assert(t[i] == last[i - s.len() - 1]);
            }
        }
        assert forall|i: int| 0 < i < t.len() implies !(#[trigger] t[i] == ',' && t[i - 1]
            == ',') by {
            if i < s.len() {
                assert(t[i] == s[i] && t[i - 1] == s[i - 1]);
            } else if i == s.len() {
                assert(t[i - 1] == s.last());
            } else {
                assert(t[i] == last[i - s.len() - 1]);
            }
        }
    } else {
        let t = joined(parts, seq![',']);
        assert(t == parts[0]);
        assert(t.last() == t[t.len() - 1]);
    }
}

proof fn plain_lists_are_read(t: Seq<char>, n: nat)
    requires
        is_plain_list(t),
        n <= t.len(),
    ensures
        read_until(t, n).depth == 0,
        !read_until(t, n).escaped,
        read_until(t, n).place == (if n == 0 {
            Place::Opened
        } else if t[n - 1] == ',' {
            Place::Awaiting
        } else {
            Place::Plain
        }),
    decreases n,
{
    if n > 0 {
        plain_lists_are_read(t, (n - 1) as nat);
        assert(is_plain_char(t[n - 1]) || t[n - 1] == ',');
    }
}

/// The literal `'{a,b}'` becomes an array of the literals `'a'` and `'b'`: one for every element,
/// in order, where the elements stand without quotes.
pub proof fn braces_hold_their_elements(st: ProgressView, e: Syntax, parts: Seq<Seq<char>>)
    requires
        parts.len() > 0,
        forall|i: int| 0 <= i < parts.len() ==> is_plain_element(#[trigger] parts[i]),
        is_string(e, seq!['{'] + joined(parts, seq![',']) + seq!['}']),
    ensures
        ({
            let elements = braces_rewritten(st, e).1.payload("Array"@)->0.at("elem"@).items();
            &&& braces_rewritten(st, e).1.payload("Array"@) is Some
            &&& elements.len() == parts.len()
            &&& forall|i: int|
                0 <= i < parts.len() ==> is_string((#[trigger] elements[i]).inner(), parts[i])
        }),
{
    call_fields_differ();
    elements_make_a_list(parts);
    let t = joined(parts, seq![',']);
    let s = seq!['{'] + t + seq!['}'];
    assert(s.subrange(1, s.len() - 1) =~= t);
    assert(s[0] == '{' && s[s.len() - 1] == '}');
    plain_lists_are_read(t, t.len());
    assert(t.last() == t[t.len() - 1]);
    assert(!is_malformed(s));
    assert forall|i: int| 0 <= i < parts.len() implies !(#[trigger] parts[i]).contains(',') by {
        assert forall|j: int| 0 <= j < parts[i].len() implies parts[i][j] != ',' by {
            assert(is_plain_char(parts[i][j]));
        }
    }
    pieces_are_found(parts, ',');
    let out = brace_array(s);
    assert(string_literal(e) == Some(s));
    assert(braces_rewritten(st, e).1 == out);
    let r = out.payload("Array"@)->0;
    field_is_found(r->Record_0, 0);
    assert forall|i: int| 0 <= i < parts.len() implies is_string(
        (#[trigger] r.at("elem"@).items()[i]).inner(),
        parts[i],
    ) by {
        let p = parts[i];
        assert(is_plain_char(p[0]) && is_plain_char(p[p.len() - 1]));
        assert(p.last() == p[p.len() - 1]);
        let none = Seq::<char>::empty();
        assert(none + p + none =~= p);
        ends_are_trimmed(Trim::DoubleQuotes, none, p, none);
        ends_are_trimmed(Trim::Space, none, p, none);
        string_is_a_literal(p);
        assert(split(t, ',')[i] == p);
    }
}

/// A literal that does not stand in braces stays, and so does anything but a literal.
pub proof fn other_literals_stay(st: ProgressView, e: Syntax, s: Seq<char>)
    requires
        literal(e).payload("SingleQuotedString"@) is None || is_string(e, s) && !(s.len() >= 2
            && s[0] == '{' && s.last() == '}'),
    ensures
        braces_rewritten(st, e) == (st, e),
{
}

} // verus!
