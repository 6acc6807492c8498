//! What holds of the rewrites as a whole.
use super::ast::{
    aliased_item, custom_type, empty_span, ident, ident_text, item_expr, label, labelled_item,
    nested, null_expr, object_name_is, pg_catalog_name_is, text_type,
};
use super::calls::{
    collation_rule, is_pg_match, is_plain_match, match_held, operator_parts, pg_operator_rule,
    plain_match,
};
use super::casts::{
    bracket_element, is_bare_oid, is_textual_pg_type, oid_array_rule, pg_types_as_text,
    pg_types_rule, recast, recast_rule, regoper_rule, without_regoper,
};
use super::clauses::output_name;
use super::columns::{
    all_told_apart, free_number, fresh_body, fresh_item, fresh_items, is_star, items_told_apart,
    name_and_number, next_free, noted_body, noted_items, output_names, restored_body, restored_item,
    restored_items, times_put_out, title, told_apart,
};
use super::cte::{column_at, cte_name, lifted_items, scalar_item, scalars, value_item, ScalarView};
use super::parse::{printed, statements_of, SqlDialect};
use super::rewrite::{rewritten, rewritten_text, separator, Layout};
use super::tree::{at_is_smaller, expr_node, lookup, payload_is_smaller, replaced, variant, Syntax};
use super::walk::{
    start_view, statements_in_fields, statements_in_items, statements_walked, walk_fields,
    walk_items, walked, ProgressView, Rule,
};
use crate::text::{decimal, digit, lowercased, numbered, paired_with};
use vstd::prelude::*;

verus! {

// --- what is left alone -------------------------------------------------------------------------

/// Whether `p` holds of every expression in `t`.
pub open spec fn everywhere(p: spec_fn(Syntax) -> bool, t: Syntax) -> bool
    decreases t, 0nat,
{
    match t {
        Syntax::List(s) => everywhere_in_items(p, s, s.len()),
        Syntax::Record(s) => everywhere_in_fields(p, s, s.len()),
        Syntax::Expr(b) => everywhere(p, *b) && p(*b),
        Syntax::Statement(b) => everywhere(p, *b),
        Syntax::Relation(b) => everywhere(p, *b),
        _ => true,
    }
}

/// Whether `p` holds of every expression in the first `n` items.
pub open spec fn everywhere_in_items(p: spec_fn(Syntax) -> bool, s: Seq<Syntax>, n: nat) -> bool
    decreases s, n,
{
    if n == 0 || n > s.len() {
        true
    } else {
        everywhere_in_items(p, s, (n - 1) as nat) && everywhere(p, s[n - 1])
    }
}

/// Whether `p` holds of every expression in the first `n` fields.
pub open spec fn everywhere_in_fields(
    p: spec_fn(Syntax) -> bool,
    s: Seq<(Seq<char>, Syntax)>,
    n: nat,
) -> bool
    decreases s, n,
{
    if n == 0 || n > s.len() {
        true
    } else {
        proof {
            assert(decreases_to!(s => s[n - 1]));
            assert(decreases_to!(s[n - 1] => s[n - 1].1));
        }
        everywhere_in_fields(p, s, (n - 1) as nat) && everywhere(p, s[n - 1].1)
    }
}

/// The expressions that a rule leaves as they are.
pub open spec fn left_alone(f: Rule) -> spec_fn(Syntax) -> bool {
    |e: Syntax| forall|st: ProgressView| #[trigger] f(st, e) == (st, e)
}

proof fn quiet_items(f: Rule, st: ProgressView, s: Seq<Syntax>, n: nat)
    requires
        n <= s.len(),
        everywhere_in_items(left_alone(f), s, n),
    ensures
        walk_items(f, st, s, n) == (st, s.take(n as int)),
    decreases s, n,
{
    if n > 0 {
        quiet_items(f, st, s, (n - 1) as nat);
        what_no_rule_matches_stays(f, st, s[n - 1]);
        assert(s.take(n - 1).push(s[n - 1]) =~= s.take(n as int));
    } else {
        assert(s.take(0) =~= Seq::empty());
    }
}

proof fn quiet_fields(f: Rule, st: ProgressView, s: Seq<(Seq<char>, Syntax)>, n: nat)
    requires
        n <= s.len(),
        everywhere_in_fields(left_alone(f), s, n),
    ensures
        walk_fields(f, st, s, n) == (st, s.take(n as int)),
    decreases s, n,
{
    if n > 0 {
        assert(decreases_to!(s => s[n - 1]));
        assert(decreases_to!(s[n - 1] => s[n - 1].1));
        quiet_fields(f, st, s, (n - 1) as nat);
        what_no_rule_matches_stays(f, st, s[n - 1].1);
        assert(s.take(n - 1).push(s[n - 1]) =~= s.take(n as int));
    } else {
        assert(s.take(0) =~= Seq::empty());
    }
}

/// A tree in which a rule leaves every expression as it is stays as it is: a rewrite changes
/// nothing but the expressions that its rule is about.
pub proof fn what_no_rule_matches_stays(f: Rule, st: ProgressView, t: Syntax)
    requires
        everywhere(left_alone(f), t),
    ensures
        walked(f, st, t) == (st, t),
    decreases t, 0nat,
{
    match t {
        Syntax::List(s) => {
            quiet_items(f, st, s, s.len());
            assert(s.take(s.len() as int) =~= s);
        },
        Syntax::Record(s) => {
            quiet_fields(f, st, s, s.len());
            assert(s.take(s.len() as int) =~= s);
        },
        Syntax::Expr(b) => {
            what_no_rule_matches_stays(f, st, *b);
            assert(left_alone(f)(*b));
            assert(f(st, *b) == (st, *b));
        },
        Syntax::Statement(b) => {
            what_no_rule_matches_stays(f, st, *b);
        },
        Syntax::Relation(b) => {
            what_no_rule_matches_stays(f, st, *b);
        },
        _ => {},
    }
}

proof fn quiet_statements_in_items(f: Rule, st: ProgressView, s: Seq<Syntax>, n: nat)
    requires
        n <= s.len(),
        everywhere_in_items(left_alone(f), s, n),
    ensures
        statements_in_items(f, st, s, n) == (st, s.take(n as int)),
    decreases s, n,
{
    if n > 0 {
        quiet_statements_in_items(f, st, s, (n - 1) as nat);
        quiet_statements(f, st, s[n - 1]);
        assert(s.take(n - 1).push(s[n - 1]) =~= s.take(n as int));
    } else {
        assert(s.take(0) =~= Seq::empty());
    }
}

proof fn quiet_statements_in_fields(f: Rule, st: ProgressView, s: Seq<(Seq<char>, Syntax)>, n: nat)
    requires
        n <= s.len(),
        everywhere_in_fields(left_alone(f), s, n),
    ensures
        statements_in_fields(f, st, s, n) == (st, s.take(n as int)),
    decreases s, n,
{
    if n > 0 {
        assert(decreases_to!(s => s[n - 1]));
        assert(decreases_to!(s[n - 1] => s[n - 1].1));
        quiet_statements_in_fields(f, st, s, (n - 1) as nat);
        quiet_statements(f, st, s[n - 1].1);
        assert(s.take(n - 1).push(s[n - 1]) =~= s.take(n as int));
    } else {
        assert(s.take(0) =~= Seq::empty());
    }
}

proof fn quiet_statements(f: Rule, st: ProgressView, t: Syntax)
    requires
        everywhere(left_alone(f), t),
    ensures
        statements_walked(f, st, t) == (st, t),
    decreases t, 0nat,
{
    match t {
        Syntax::List(s) => {
            quiet_statements_in_items(f, st, s, s.len());
            assert(s.take(s.len() as int) =~= s);
        },
        Syntax::Record(s) => {
            quiet_statements_in_fields(f, st, s, s.len());
            assert(s.take(s.len() as int) =~= s);
        },
        Syntax::Expr(b) => quiet_statements(f, st, *b),
        Syntax::Statement(b) => {
            quiet_statements(f, st, *b);
            what_no_rule_matches_stays(f, st, *b);
        },
        Syntax::Relation(b) => quiet_statements(f, st, *b),
        _ => {},
    }
}

/// A text in which a rule leaves every expression as it is comes back as its statements are
/// printed.
pub proof fn text_without_matches_is_reprinted(f: Rule, layout: Layout, sql: Seq<char>)
    requires
        statements_of(SqlDialect::Postgres, sql) matches Ok(t) ==> everywhere(left_alone(f), t),
    ensures
        rewritten_text(f, layout, sql) == (match statements_of(SqlDialect::Postgres, sql) {
            Ok(t) => printed(t, separator(layout)),
            Err(e) => Err(e),
        }),
{
    if let Ok(t) = statements_of(SqlDialect::Postgres, sql) {
        quiet_statements(f, start_view(), t);
    }
}

// --- what is rewritten --------------------------------------------------------------------------

/// Whether a rule gives expressions of which `p` holds, and keeps it for their parts.
pub open spec fn establishes(f: Rule, p: spec_fn(Syntax) -> bool) -> bool {
    forall|st: ProgressView, e: Syntax|
        everywhere(p, e) ==> p((#[trigger] f(st, e)).1) && everywhere(p, f(st, e).1) && f(
            st,
            e,
        ).0.fault == st.fault
}

proof fn establish_in_items(
    f: Rule,
    p: spec_fn(Syntax) -> bool,
    st: ProgressView,
    s: Seq<Syntax>,
    n: nat,
)
    requires
        establishes(f, p),
        st.fault is None,
        n <= s.len(),
    ensures
        ({
            let (st1, out) = walk_items(f, st, s, n);
            st1.fault is None && out.len() == n && everywhere_in_items(p, out, n)
        }),
    decreases s, n,
{
    if n > 0 {
        let (st1, done) = walk_items(f, st, s, (n - 1) as nat);
        establish_in_items(f, p, st, s, (n - 1) as nat);
        rewritten_everywhere(f, p, st1, s[n - 1]);
        let last = walked(f, st1, s[n - 1]).1;
        items_of_prefix(p, done, last, (n - 1) as nat);
        assert(done.push(last)[n - 1] == last);
    }
}

proof fn items_of_prefix(p: spec_fn(Syntax) -> bool, s: Seq<Syntax>, last: Syntax, n: nat)
    requires
        n <= s.len(),
    ensures
        everywhere_in_items(p, s.push(last), n) == everywhere_in_items(p, s, n),
    decreases n,
{
    if n > 0 {
        items_of_prefix(p, s, last, (n - 1) as nat);
        assert(s.push(last)[n - 1] == s[n - 1]);
    }
}

proof fn fields_of_prefix(
    p: spec_fn(Syntax) -> bool,
    s: Seq<(Seq<char>, Syntax)>,
    last: (Seq<char>, Syntax),
    n: nat,
)
    requires
        n <= s.len(),
    ensures
        everywhere_in_fields(p, s.push(last), n) == everywhere_in_fields(p, s, n),
    decreases n,
{
    if n > 0 {
        fields_of_prefix(p, s, last, (n - 1) as nat);
        assert(s.push(last)[n - 1] == s[n - 1]);
    }
}

proof fn establish_in_fields(
    f: Rule,
    p: spec_fn(Syntax) -> bool,
    st: ProgressView,
    s: Seq<(Seq<char>, Syntax)>,
    n: nat,
)
    requires
        establishes(f, p),
        st.fault is None,
        n <= s.len(),
    ensures
        ({
            let (st1, out) = walk_fields(f, st, s, n);
            st1.fault is None && out.len() == n && everywhere_in_fields(p, out, n)
        }),
    decreases s, n,
{
    if n > 0 {
        assert(decreases_to!(s => s[n - 1]));
        assert(decreases_to!(s[n - 1] => s[n - 1].1));
        let (st1, done) = walk_fields(f, st, s, (n - 1) as nat);
        establish_in_fields(f, p, st, s, (n - 1) as nat);
        rewritten_everywhere(f, p, st1, s[n - 1].1);
        let last = (s[n - 1].0, walked(f, st1, s[n - 1].1).1);
        fields_of_prefix(p, done, last, (n - 1) as nat);
        assert(done.push(last)[n - 1] == last);
    }
}

/// What a rule establishes for one expression, a rewrite establishes for every expression of a
/// tree: none is passed over, however deep it stands.
pub proof fn rewritten_everywhere(
    f: Rule,
    p: spec_fn(Syntax) -> bool,
    st: ProgressView,
    t: Syntax,
)
    requires
        establishes(f, p),
        st.fault is None,
    ensures
        walked(f, st, t).0.fault is None,
        everywhere(p, walked(f, st, t).1),
    decreases t, 0nat,
{
    match t {
        Syntax::List(s) => establish_in_items(f, p, st, s, s.len()),
        Syntax::Record(s) => establish_in_fields(f, p, st, s, s.len()),
        Syntax::Expr(b) => {
            rewritten_everywhere(f, p, st, *b);
            let (st1, e) = walked(f, st, *b);
            assert(p(f(st1, e).1));
        },
        Syntax::Statement(b) => rewritten_everywhere(f, p, st, *b),
        Syntax::Relation(b) => rewritten_everywhere(f, p, st, *b),
        _ => {},
    }
}

proof fn no_fault_in_items(
    f: Rule,
    p: spec_fn(Syntax) -> bool,
    st: ProgressView,
    s: Seq<Syntax>,
    n: nat,
)
    requires
        establishes(f, p),
        st.fault is None,
        n <= s.len(),
    ensures
        statements_in_items(f, st, s, n).0.fault is None,
    decreases s, n,
{
    if n > 0 {
        no_fault_in_items(f, p, st, s, (n - 1) as nat);
        no_fault(f, p, statements_in_items(f, st, s, (n - 1) as nat).0, s[n - 1]);
    }
}

proof fn no_fault_in_fields(
    f: Rule,
    p: spec_fn(Syntax) -> bool,
    st: ProgressView,
    s: Seq<(Seq<char>, Syntax)>,
    n: nat,
)
    requires
        establishes(f, p),
        st.fault is None,
        n <= s.len(),
    ensures
        statements_in_fields(f, st, s, n).0.fault is None,
    decreases s, n,
{
    if n > 0 {
        assert(decreases_to!(s => s[n - 1]));
        assert(decreases_to!(s[n - 1] => s[n - 1].1));
        no_fault_in_fields(f, p, st, s, (n - 1) as nat);
        no_fault(f, p, statements_in_fields(f, st, s, (n - 1) as nat).0, s[n - 1].1);
    }
}

proof fn no_fault(f: Rule, p: spec_fn(Syntax) -> bool, st: ProgressView, t: Syntax)
    requires
        establishes(f, p),
        st.fault is None,
    ensures
        statements_walked(f, st, t).0.fault is None,
    decreases t, 0nat,
{
    match t {
        Syntax::List(s) => no_fault_in_items(f, p, st, s, s.len()),
        Syntax::Record(s) => no_fault_in_fields(f, p, st, s, s.len()),
        Syntax::Expr(b) => no_fault(f, p, st, *b),
        Syntax::Statement(b) => {
            no_fault(f, p, st, *b);
            let (st1, e) = statements_walked(f, st, *b);
            rewritten_everywhere(f, p, st1, e);
        },
        Syntax::Relation(b) => no_fault(f, p, st, *b),
        _ => {},
    }
}

/// What a rule establishes for one expression, a rewrite establishes for every expression of
/// every statement.
pub proof fn rewritten_in_every_statement(
    f: Rule,
    p: spec_fn(Syntax) -> bool,
    s: Seq<Syntax>,
    n: nat,
)
    requires
        establishes(f, p),
        n <= s.len(),
        forall|i: int| 0 <= i < s.len() ==> (#[trigger] s[i]) is Statement,
    ensures
        statements_in_items(f, start_view(), s, n).0.fault is None,
        statements_in_items(f, start_view(), s, n).1.len() == n,
        everywhere_in_items(p, statements_in_items(f, start_view(), s, n).1, n),
    decreases n,
{
    if n > 0 {
        rewritten_in_every_statement(f, p, s, (n - 1) as nat);
        let (st1, done) = statements_in_items(f, start_view(), s, (n - 1) as nat);
        let (st2, last) = statements_walked(f, st1, s[n - 1]);
        assert(s[n - 1] is Statement);
        let b = s[n - 1]->Statement_0;
        no_fault(f, p, st1, s[n - 1]);
        no_fault(f, p, st1, *b);
        let (st3, e) = statements_walked(f, st1, *b);
        rewritten_everywhere(f, p, st3, e);
        assert(everywhere(p, last));
        items_of_prefix(p, done, last, (n - 1) as nat);
        assert(done.push(last)[n - 1] == last);
    }
}

/// The expressions that are not casts to the unknown type `ty_name`.
pub open spec fn no_cast_to(ty_name: Seq<char>) -> spec_fn(Syntax) -> bool {
    |e: Syntax|
        match e.payload("Cast"@) {
            Some(c) => match custom_type(c.at("data_type"@)) {
                Some(obj) => !object_name_is(obj, ty_name),
                None => true,
            },
            None => true,
        }
}

proof fn fields_hold(
    p: spec_fn(Syntax) -> bool,
    s: Seq<(Seq<char>, Syntax)>,
    n: nat,
    i: int,
)
    requires
        everywhere_in_fields(p, s, n),
        0 <= i < n <= s.len(),
    ensures
        everywhere(p, s[i].1),
    decreases n,
{
    if i < n - 1 {
        fields_hold(p, s, (n - 1) as nat, i);
    }
}

proof fn replacing_keeps(
    p: spec_fn(Syntax) -> bool,
    s: Seq<(Seq<char>, Syntax)>,
    name: Seq<char>,
    value: Syntax,
    n: nat,
)
    requires
        n <= s.len(),
        everywhere_in_fields(p, s, n),
        everywhere(p, value),
    ensures
        everywhere_in_fields(p, replaced(s, name, value), n),
    decreases n,
{
    if n > 0 {
        replacing_keeps(p, s, name, value, (n - 1) as nat);
    }
}

proof fn looked_up_stays(s: Seq<(Seq<char>, Syntax)>, name: Seq<char>, value: Syntax)
    ensures
        lookup(replaced(s, name, value), name) == (match lookup(s, name) {
            Some(_) => Some(value),
            None => None,
        }),
    decreases s.len(),
{
    if s.len() > 0 {
        looked_up_stays(s.skip(1), name, value);
        assert(replaced(s, name, value).skip(1) =~= replaced(s.skip(1), name, value));
    }
}

proof fn variant_holds(p: spec_fn(Syntax) -> bool, tag: Seq<char>, data: Syntax)
    requires
        everywhere(p, data),
    ensures
        everywhere(p, variant(tag, data)),
        variant(tag, data).payload(tag) == Some(data),
{
    let one = variant(tag, data)->Record_0;
    assert(one =~= seq![(tag, data)]);
    assert(one[0].1 == data);
    assert(everywhere_in_fields(p, one, 0));
    assert(everywhere_in_fields(p, one, 1));
}

proof fn payload_holds(p: spec_fn(Syntax) -> bool, e: Syntax, tag: Seq<char>)
    requires
        everywhere(p, e),
        e.payload(tag) is Some,
    ensures
        everywhere(p, e.payload(tag)->0),
{
    let fields = e->Record_0;
    fields_hold(p, fields, fields.len(), 0);
}

proof fn variant_field_set(
    p: spec_fn(Syntax) -> bool,
    e: Syntax,
    tag: Seq<char>,
    name: Seq<char>,
    value: Syntax,
)
    requires
        everywhere(p, e),
        everywhere(p, value),
        e.payload(tag) is Some,
    ensures
        everywhere(p, variant(tag, e.payload(tag)->0.with(name, value))),
        variant(tag, e.payload(tag)->0.with(name, value)).payload(tag) == Some(
            e.payload(tag)->0.with(name, value),
        ),
        e.payload(tag)->0.at(name) != Syntax::Null ==> e.payload(tag)->0.with(name, value).at(name)
            == value,
        e.payload(tag)->0.at(name) == Syntax::Null ==> e.payload(tag)->0.with(name, value).at(name)
            == value || e.payload(tag)->0.with(name, value).at(name) == Syntax::Null,
{
    let c = e.payload(tag)->0;
    payload_holds(p, e, tag);
    if let Syntax::Record(inner) = c {
        replacing_keeps(p, inner, name, value, inner.len());
        looked_up_stays(inner, name, value);
    }
    variant_holds(p, tag, c.with(name, value));
}

/// After a rewrite of the casts to `ty_name` no cast to it is left in a list of statements,
/// wherever it stood, if the type that they are cast to instead is another one.
pub proof fn no_cast_is_left(ty_name: Seq<char>, target: Syntax, t: Syntax)
    requires
        custom_type(target) is None,
        everywhere(no_cast_to(ty_name), target),
        t is List,
        forall|i: int| 0 <= i < t.items().len() ==> (#[trigger] t.items()[i]) is Statement,
    ensures
        everywhere(no_cast_to(ty_name), rewritten(recast_rule(ty_name, target), t)),
{
    let f = recast_rule(ty_name, target);
    let p = no_cast_to(ty_name);
    assert forall|st: ProgressView, e: Syntax| everywhere(p, e) implies p((#[trigger] f(st, e)).1)
        && everywhere(p, f(st, e).1) && f(st, e).0.fault == st.fault by {
        let out = recast(e, ty_name, target);
        if let Some(c) = e.payload("Cast"@) {
            if let Some(obj) = custom_type(c.at("data_type"@)) {
                if object_name_is(obj, ty_name) {
                    variant_field_set(p, e, "Cast"@, "data_type"@, target);
                }
            }
        }
    }
    rewritten_in_every_statement(f, p, t.items(), t.items().len());
}

/// The expressions that are not casts to one of the textual types of `pg_catalog`.
pub open spec fn no_textual_pg_cast() -> spec_fn(Syntax) -> bool {
    |e: Syntax|
        match e.payload("Cast"@) {
            Some(c) => match custom_type(c.at("data_type"@)) {
                Some(obj) => !is_textual_pg_type(obj),
                None => true,
            },
            None => true,
        }
}

/// After their rewrite no cast to `pg_catalog.text`, `regtype`, `regnamespace` or `regclass` is
/// left in a list of statements.
pub proof fn no_textual_pg_cast_is_left(t: Syntax)
    requires
        t is List,
        forall|i: int| 0 <= i < t.items().len() ==> (#[trigger] t.items()[i]) is Statement,
    ensures
        everywhere(no_textual_pg_cast(), rewritten(pg_types_rule(), t)),
{
    let f = pg_types_rule();
    let p = no_textual_pg_cast();
    assert forall|st: ProgressView, e: Syntax| everywhere(p, e) implies p((#[trigger] f(st, e)).1)
        && everywhere(p, f(st, e).1) && f(st, e).0.fault == st.fault by {
        let out = pg_types_as_text(e);
        if let Some(c) = e.payload("Cast"@) {
            if let Some(obj) = custom_type(c.at("data_type"@)) {
                if is_textual_pg_type(obj) {
                    variant_field_set(p, e, "Cast"@, "data_type"@, text_type());
                }
            }
        }
    }
    rewritten_in_every_statement(f, p, t.items(), t.items().len());
}

/// The expressions that are not casts to `regoper`.
pub open spec fn no_regoper_cast() -> spec_fn(Syntax) -> bool {
    no_cast_to("regoper"@)
}

/// After their rewrite no cast to `regoper` is left in a list of statements.
pub proof fn no_regoper_cast_is_left(t: Syntax)
    requires
        t is List,
        forall|i: int| 0 <= i < t.items().len() ==> (#[trigger] t.items()[i]) is Statement,
    ensures
        everywhere(no_regoper_cast(), rewritten(regoper_rule(), t)),
{
    let f = regoper_rule();
    let p = no_regoper_cast();
    reveal_strlit("Cast");
    reveal_strlit("Value");
    assert("Cast"@.len() == 4);
    assert("Value"@.len() == 5);
    let value = Syntax::Text("Null"@);
    span_holds(p);
    pair_holds(p, ("value"@, value), ("span"@, empty_span()));
    variant_holds(
        p,
        "Value"@,
        Syntax::Record(Seq::empty().push(("value"@, value)).push(("span"@, empty_span()))),
    );
    assert(everywhere(p, null_expr()));
    assert(null_expr().payload("Cast"@) is None);
    assert forall|st: ProgressView, e: Syntax| everywhere(p, e) implies p((#[trigger] f(st, e)).1)
        && everywhere(p, f(st, e).1) && f(st, e).0.fault == st.fault by {
        let out = without_regoper(e);
        assert(out == e || out == null_expr());
    }
    rewritten_in_every_statement(f, p, t.items(), t.items().len());
}

proof fn pair_holds(
    p: spec_fn(Syntax) -> bool,
    a: (Seq<char>, Syntax),
    b: (Seq<char>, Syntax),
)
    requires
        everywhere(p, a.1),
        everywhere(p, b.1),
    ensures
        everywhere(p, Syntax::Record(Seq::empty().push(a).push(b))),
{
    let s = Seq::<(Seq<char>, Syntax)>::empty().push(a).push(b);
    assert(s[0] == a && s[1] == b);
    assert(everywhere_in_fields(p, s, 0));
    assert(everywhere_in_fields(p, s, 1));
    assert(everywhere_in_fields(p, s, 2));
}

proof fn span_holds(p: spec_fn(Syntax) -> bool)
    ensures
        everywhere(p, empty_span()),
{
    let zero = Syntax::Number("0"@);
    pair_holds(p, ("line"@, zero), ("column"@, zero));
    let at = Syntax::Record(Seq::empty().push(("line"@, zero)).push(("column"@, zero)));
    pair_holds(p, ("start"@, at), ("end"@, at));
}

/// The expressions that are not `a OPERATOR(pg_catalog.~) b`.
pub open spec fn no_pg_match() -> spec_fn(Syntax) -> bool {
    |e: Syntax|
        match e.payload("BinaryOp"@) {
            Some(b) => !is_pg_match(b.at("op"@)),
            None => true,
        }
}

proof fn match_is_held(p: spec_fn(Syntax) -> bool, e: Syntax, name: Seq<char>)
    requires
        everywhere(p, e),
        e.payload("BinaryOp"@) is Some,
        forall|x: Syntax| x.payload("BinaryOp"@) is None ==> #[trigger] p(x),
    ensures
        everywhere(p, match_held(e.payload("BinaryOp"@)->0.at(name))),
{
    let node = e.payload("BinaryOp"@)->0.at(name);
    operand_holds(p, e, "BinaryOp"@, name);
    if node is Expr && is_plain_match(node.inner()) {
        nested_holds(p, node.inner());
        reveal_strlit("Nested");
        reveal_strlit("BinaryOp");
        assert("Nested"@.len() == 6);
        assert("BinaryOp"@.len() == 8);
        assert(nested(node.inner()).payload("BinaryOp"@) is None);
    }
}

/// After its rewrite no `OPERATOR(pg_catalog.~)` is left in a list of statements.
pub proof fn no_pg_match_is_left(t: Syntax)
    requires
        t is List,
        forall|i: int| 0 <= i < t.items().len() ==> (#[trigger] t.items()[i]) is Statement,
    ensures
        everywhere(no_pg_match(), rewritten(pg_operator_rule(), t)),
{
    let f = pg_operator_rule();
    let p = no_pg_match();
    reveal_strlit("op");
    reveal_strlit("left");
    reveal_strlit("right");
    assert("op"@.len() == 2);
    assert("left"@.len() == 4);
    assert("right"@.len() == 5);
    assert forall|st: ProgressView, e: Syntax| everywhere(p, e) implies p((#[trigger] f(st, e)).1)
        && everywhere(p, f(st, e).1) && f(st, e).0.fault == st.fault by {
        let out = plain_match(e);
        if let Some(b) = e.payload("BinaryOp"@) {
            if is_pg_match(b.at("op"@)) {
                variant_field_set(p, e, "BinaryOp"@, "op"@, Syntax::Text("PGRegexMatch"@));
                assert(operator_parts(Syntax::Text("PGRegexMatch"@)).len() == 0);
            } else if out != e {
                match_is_held(p, e, "left"@);
                match_is_held(p, e, "right"@);
                let left = match_held(b.at("left"@));
                variant_field_set(p, e, "BinaryOp"@, "left"@, left);
                let e1 = variant("BinaryOp"@, b.with("left"@, left));
                let right = match_held(b.at("right"@));
                variant_field_set(p, e1, "BinaryOp"@, "right"@, right);
                let b1 = b.with("left"@, left);
                other_field_stays(b, "left"@, left, "op"@, Syntax::Null);
                other_field_stays(b1, "right"@, right, "op"@, Syntax::Null);
                assert(out.payload("BinaryOp"@) == Some(b1.with("right"@, right)));
            }
        }
    }
    rewritten_in_every_statement(f, p, t.items(), t.items().len());
}

// --- operators that are dropped -----------------------------------------------------------------

/// The expressions of which the operand of `tag`, if that is what they are, is an expression.
pub open spec fn has_operand(tag: Seq<char>) -> spec_fn(Syntax) -> bool {
    |e: Syntax| e.payload(tag) matches Some(c) ==> c.at("expr"@) is Expr
}

/// The expressions of [`has_operand`] that are no `hit`.
pub open spec fn unhit(tag: Seq<char>, hit: spec_fn(Syntax) -> bool) -> spec_fn(Syntax) -> bool {
    |e: Syntax| (has_operand(tag))(e) && !hit(e)
}

/// Whether a rule puts the operand of `tag`, with or without parentheses, in the place of a
/// `hit`, and does nothing else.
pub open spec fn drops(f: Rule, tag: Seq<char>, hit: spec_fn(Syntax) -> bool) -> bool {
    &&& tag != "Nested"@
    &&& forall|st: ProgressView, e: Syntax|
        {
            &&& (#[trigger] f(st, e)).0 == st
            &&& !hit(e) ==> f(st, e).1 == e
            &&& hit(e) ==> e.payload(tag) is Some && {
                ||| f(st, e).1 == e.payload(tag)->0.at("expr"@).inner()
                ||| f(st, e).1 == nested(e.payload(tag)->0.at("expr"@).inner())
            }
        }
}

proof fn nested_holds(p: spec_fn(Syntax) -> bool, e: Syntax)
    requires
        p(e),
        everywhere(p, e),
    ensures
        everywhere(p, nested(e)),
{
    let s = seq![("Nested"@, expr_node(e))];
    assert(nested(e) == Syntax::Record(s));
    assert(s[0].1 == expr_node(e));
    assert(everywhere(p, s[0].1));
    assert(everywhere_in_fields(p, s, 0));
    assert(everywhere_in_fields(p, s, 1));
}

/// Whether two lists of fields have the same names, and expressions in the same places.
pub open spec fn same_shape(a: Seq<(Seq<char>, Syntax)>, b: Seq<(Seq<char>, Syntax)>) -> bool {
    &&& a.len() == b.len()
    &&& forall|i: int|
        #![trigger a[i]]
        #![trigger b[i]]
        0 <= i < a.len() ==> a[i].0 == b[i].0 && (a[i].1 is Expr) == (b[i].1 is Expr)
}

proof fn same_field_is_expr(
    a: Seq<(Seq<char>, Syntax)>,
    b: Seq<(Seq<char>, Syntax)>,
    name: Seq<char>,
)
    requires
        same_shape(a, b),
    ensures
        Syntax::Record(a).at(name) is Expr == Syntax::Record(b).at(name) is Expr,
    decreases a.len(),
{
    if a.len() > 0 {
        assert(a[0].0 == b[0].0);
        if a[0].0 != name {
            assert forall|i: int| 0 <= i < a.skip(1).len() implies (#[trigger] a.skip(1)[i]).0
                == b.skip(1)[i].0 && (a.skip(1)[i].1 is Expr) == (b.skip(1)[i].1 is Expr) by {
                assert(a.skip(1)[i] == a[i + 1]);
                assert(b.skip(1)[i] == b[i + 1]);
            }
            assert(same_shape(a.skip(1), b.skip(1)));
            same_field_is_expr(a.skip(1), b.skip(1), name);
        }
    }
}

proof fn shape_grows(
    a: Seq<(Seq<char>, Syntax)>,
    b: Seq<(Seq<char>, Syntax)>,
    x: (Seq<char>, Syntax),
    y: (Seq<char>, Syntax),
)
    requires
        same_shape(a, b),
        x.0 == y.0,
        (x.1 is Expr) == (y.1 is Expr),
    ensures
        same_shape(a.push(x), b.push(y)),
{
    assert forall|i: int| 0 <= i < a.push(x).len() implies (#[trigger] a.push(x)[i]).0 == b.push(
        y,
    )[i].0 && (a.push(x)[i].1 is Expr) == (b.push(y)[i].1 is Expr) by {
        if i < a.len() {
            assert(a.push(x)[i] == a[i]);
            assert(b.push(y)[i] == b[i]);
        }
    }
}

proof fn walk_keeps_shape(f: Rule, st: ProgressView, s: Seq<(Seq<char>, Syntax)>, n: nat)
    requires
        n <= s.len(),
    ensures
        same_shape(walk_fields(f, st, s, n).1, s.take(n as int)),
        same_shape(statements_in_fields(f, st, s, n).1, s.take(n as int)),
    decreases n,
{
    if n > 0 {
        walk_keeps_shape(f, st, s, (n - 1) as nat);
        let (st1, done) = walk_fields(f, st, s, (n - 1) as nat);
        let (st2, kept) = statements_in_fields(f, st, s, (n - 1) as nat);
        let before = s.take(n - 1);
        let last = s[n - 1];
        assert(s.take(n as int) =~= before.push(last));
        shape_grows(done, before, (last.0, walked(f, st1, last.1).1), last);
        shape_grows(kept, before, (last.0, statements_walked(f, st2, last.1).1), last);
    }
}

proof fn operand_stays(f: Rule, st: ProgressView, e: Syntax, tag: Seq<char>)
    requires
        (has_operand(tag))(e),
    ensures
        (has_operand(tag))(walked(f, st, e).1),
        (has_operand(tag))(statements_walked(f, st, e).1),
{
    if let Syntax::Record(s) = e {
        if s.len() == 1 {
            assert(walk_fields(f, st, s, 0).1 =~= Seq::empty());
            assert(statements_in_fields(f, st, s, 0).1 =~= Seq::empty());
            let w = walked(f, st, s[0].1).1;
            let v = statements_walked(f, st, s[0].1).1;
            assert(walk_fields(f, st, s, 1).1 =~= seq![(s[0].0, w)]);
            assert(statements_in_fields(f, st, s, 1).1 =~= seq![(s[0].0, v)]);
            if let Syntax::Record(c) = s[0].1 {
                walk_keeps_shape(f, st, c, c.len());
                assert(c.take(c.len() as int) =~= c);
                same_field_is_expr(walk_fields(f, st, c, c.len()).1, c, "expr"@);
                same_field_is_expr(statements_in_fields(f, st, c, c.len()).1, c, "expr"@);
            }
        } else {
            walk_keeps_shape(f, st, s, s.len());
        }
    }
}

proof fn weaker_in_items(tag: Seq<char>, hit: spec_fn(Syntax) -> bool, s: Seq<Syntax>, n: nat)
    requires
        everywhere_in_items(unhit(tag, hit), s, n),
    ensures
        everywhere_in_items(has_operand(tag), s, n),
    decreases s, n,
{
    if n > 0 && n <= s.len() {
        weaker_in_items(tag, hit, s, (n - 1) as nat);
        weaker_everywhere(tag, hit, s[n - 1]);
    }
}

proof fn weaker_in_fields(
    tag: Seq<char>,
    hit: spec_fn(Syntax) -> bool,
    s: Seq<(Seq<char>, Syntax)>,
    n: nat,
)
    requires
        everywhere_in_fields(unhit(tag, hit), s, n),
    ensures
        everywhere_in_fields(has_operand(tag), s, n),
    decreases s, n,
{
    if n > 0 && n <= s.len() {
        assert(decreases_to!(s => s[n - 1]));
        assert(decreases_to!(s[n - 1] => s[n - 1].1));
        weaker_in_fields(tag, hit, s, (n - 1) as nat);
        weaker_everywhere(tag, hit, s[n - 1].1);
    }
}

proof fn weaker_everywhere(tag: Seq<char>, hit: spec_fn(Syntax) -> bool, t: Syntax)
    requires
        everywhere(unhit(tag, hit), t),
    ensures
        everywhere(has_operand(tag), t),
    decreases t, 0nat,
{
    match t {
        Syntax::List(s) => weaker_in_items(tag, hit, s, s.len()),
        Syntax::Record(s) => weaker_in_fields(tag, hit, s, s.len()),
        Syntax::Expr(b) => {
            assert((unhit(tag, hit))(*b));
            weaker_everywhere(tag, hit, *b);
        },
        Syntax::Statement(b) => weaker_everywhere(tag, hit, *b),
        Syntax::Relation(b) => weaker_everywhere(tag, hit, *b),
        _ => {},
    }
}

proof fn operand_holds(p: spec_fn(Syntax) -> bool, e: Syntax, tag: Seq<char>, name: Seq<char>)
    requires
        everywhere(p, e),
        e.payload(tag) is Some,
    ensures
        everywhere(p, e.payload(tag)->0.at(name)),
{
    payload_holds(p, e, tag);
    if e.payload(tag)->0.at(name) != Syntax::Null {
        let fields = e.payload(tag)->0->Record_0;
        assert(fields.skip(0) =~= fields);
        looked_up_holds(p, fields, fields.len(), name, 0);
    }
}

proof fn looked_up_holds(
    p: spec_fn(Syntax) -> bool,
    s: Seq<(Seq<char>, Syntax)>,
    n: nat,
    name: Seq<char>,
    from: nat,
)
    requires
        n == s.len(),
        from <= n,
        everywhere_in_fields(p, s, n),
        lookup(s.skip(from as int), name) is Some,
    ensures
        everywhere(p, lookup(s.skip(from as int), name)->0),
    decreases n - from,
{
    let rest = s.skip(from as int);
    assert(rest.len() > 0);
    assert(rest[0] == s[from as int]);
    if rest[0].0 == name {
        fields_hold(p, s, n, from as int);
    } else {
        assert(rest.skip(1) =~= s.skip((from + 1) as int));
        looked_up_holds(p, s, n, name, from + 1);
    }
}

proof fn dropped_in_items(
    f: Rule,
    tag: Seq<char>,
    hit: spec_fn(Syntax) -> bool,
    st: ProgressView,
    s: Seq<Syntax>,
    n: nat,
)
    requires
        drops(f, tag, hit),
        st.fault is None,
        n <= s.len(),
        everywhere_in_items(has_operand(tag), s, n),
    ensures
        walk_items(f, st, s, n).0 == st,
        walk_items(f, st, s, n).1.len() == n,
        everywhere_in_items(unhit(tag, hit), walk_items(f, st, s, n).1, n),
    decreases s, n,
{
    if n > 0 {
        let done = walk_items(f, st, s, (n - 1) as nat).1;
        dropped_in_items(f, tag, hit, st, s, (n - 1) as nat);
        dropped_everywhere(f, tag, hit, st, s[n - 1]);
        let last = walked(f, st, s[n - 1]).1;
        items_of_prefix(unhit(tag, hit), done, last, (n - 1) as nat);
        assert(done.push(last)[n - 1] == last);
    }
}

proof fn dropped_in_fields(
    f: Rule,
    tag: Seq<char>,
    hit: spec_fn(Syntax) -> bool,
    st: ProgressView,
    s: Seq<(Seq<char>, Syntax)>,
    n: nat,
)
    requires
        drops(f, tag, hit),
        st.fault is None,
        n <= s.len(),
        everywhere_in_fields(has_operand(tag), s, n),
    ensures
        walk_fields(f, st, s, n).0 == st,
        walk_fields(f, st, s, n).1.len() == n,
        everywhere_in_fields(unhit(tag, hit), walk_fields(f, st, s, n).1, n),
    decreases s, n,
{
    if n > 0 {
        assert(decreases_to!(s => s[n - 1]));
        assert(decreases_to!(s[n - 1] => s[n - 1].1));
        let done = walk_fields(f, st, s, (n - 1) as nat).1;
        dropped_in_fields(f, tag, hit, st, s, (n - 1) as nat);
        dropped_everywhere(f, tag, hit, st, s[n - 1].1);
        let last = (s[n - 1].0, walked(f, st, s[n - 1].1).1);
        fields_of_prefix(unhit(tag, hit), done, last, (n - 1) as nat);
        assert(done.push(last)[n - 1] == last);
    }
}

/// A rule that puts operands in the place of operators leaves none of these in a tree, however
/// deep they stand in each other.
pub proof fn dropped_everywhere(
    f: Rule,
    tag: Seq<char>,
    hit: spec_fn(Syntax) -> bool,
    st: ProgressView,
    t: Syntax,
)
    requires
        drops(f, tag, hit),
        st.fault is None,
        everywhere(has_operand(tag), t),
    ensures
        walked(f, st, t).0 == st,
        everywhere(unhit(tag, hit), walked(f, st, t).1),
    decreases t, 0nat,
{
    let p = unhit(tag, hit);
    match t {
        Syntax::List(s) => dropped_in_items(f, tag, hit, st, s, s.len()),
        Syntax::Record(s) => dropped_in_fields(f, tag, hit, st, s, s.len()),
        Syntax::Expr(b) => {
            assert((has_operand(tag))(*b));
            dropped_everywhere(f, tag, hit, st, *b);
            operand_stays(f, st, *b, tag);
            let e = walked(f, st, *b).1;
            assert(f(st, e).0 == st);
            if hit(e) {
                operand_holds(p, e, tag, "expr"@);
                let inner = e.payload(tag)->0.at("expr"@).inner();
                nested_holds(p, inner);
                assert(nested(inner).payload(tag) is None);
                assert(!hit(nested(inner))) by {
                    assert(f(st, nested(inner)).0 == st);
                }
            }
        },
        Syntax::Statement(b) => dropped_everywhere(f, tag, hit, st, *b),
        Syntax::Relation(b) => dropped_everywhere(f, tag, hit, st, *b),
        _ => {},
    }
}

proof fn operands_kept_in_items(
    f: Rule,
    tag: Seq<char>,
    hit: spec_fn(Syntax) -> bool,
    st: ProgressView,
    s: Seq<Syntax>,
    n: nat,
)
    requires
        drops(f, tag, hit),
        st.fault is None,
        n <= s.len(),
        everywhere_in_items(has_operand(tag), s, n),
    ensures
        statements_in_items(f, st, s, n).0 == st,
        statements_in_items(f, st, s, n).1.len() == n,
        everywhere_in_items(has_operand(tag), statements_in_items(f, st, s, n).1, n),
    decreases s, n,
{
    if n > 0 {
        let done = statements_in_items(f, st, s, (n - 1) as nat).1;
        operands_kept_in_items(f, tag, hit, st, s, (n - 1) as nat);
        operands_kept(f, tag, hit, st, s[n - 1]);
        let last = statements_walked(f, st, s[n - 1]).1;
        items_of_prefix(has_operand(tag), done, last, (n - 1) as nat);
        assert(done.push(last)[n - 1] == last);
    }
}

proof fn operands_kept_in_fields(
    f: Rule,
    tag: Seq<char>,
    hit: spec_fn(Syntax) -> bool,
    st: ProgressView,
    s: Seq<(Seq<char>, Syntax)>,
    n: nat,
)
    requires
        drops(f, tag, hit),
        st.fault is None,
        n <= s.len(),
        everywhere_in_fields(has_operand(tag), s, n),
    ensures
        statements_in_fields(f, st, s, n).0 == st,
        statements_in_fields(f, st, s, n).1.len() == n,
        everywhere_in_fields(has_operand(tag), statements_in_fields(f, st, s, n).1, n),
    decreases s, n,
{
    if n > 0 {
        assert(decreases_to!(s => s[n - 1]));
        assert(decreases_to!(s[n - 1] => s[n - 1].1));
        let done = statements_in_fields(f, st, s, (n - 1) as nat).1;
        operands_kept_in_fields(f, tag, hit, st, s, (n - 1) as nat);
        operands_kept(f, tag, hit, st, s[n - 1].1);
        let last = (s[n - 1].0, statements_walked(f, st, s[n - 1].1).1);
        fields_of_prefix(has_operand(tag), done, last, (n - 1) as nat);
        assert(done.push(last)[n - 1] == last);
    }
}

proof fn operands_kept(
    f: Rule,
    tag: Seq<char>,
    hit: spec_fn(Syntax) -> bool,
    st: ProgressView,
    t: Syntax,
)
    requires
        drops(f, tag, hit),
        st.fault is None,
        everywhere(has_operand(tag), t),
    ensures
        statements_walked(f, st, t).0 == st,
        everywhere(has_operand(tag), statements_walked(f, st, t).1),
        t is Statement ==> everywhere(unhit(tag, hit), statements_walked(f, st, t).1),
    decreases t, 0nat,
{
    match t {
        Syntax::List(s) => operands_kept_in_items(f, tag, hit, st, s, s.len()),
        Syntax::Record(s) => operands_kept_in_fields(f, tag, hit, st, s, s.len()),
        Syntax::Expr(b) => {
            assert((has_operand(tag))(*b));
            operands_kept(f, tag, hit, st, *b);
            operand_stays(f, st, *b, tag);
        },
        Syntax::Statement(b) => {
            operands_kept(f, tag, hit, st, *b);
            let e = statements_walked(f, st, *b).1;
            dropped_everywhere(f, tag, hit, st, e);
            weaker_everywhere(tag, hit, walked(f, st, e).1);
        },
        Syntax::Relation(b) => operands_kept(f, tag, hit, st, *b),
        _ => {},
    }
}

proof fn dropped_in_statements(
    f: Rule,
    tag: Seq<char>,
    hit: spec_fn(Syntax) -> bool,
    s: Seq<Syntax>,
    n: nat,
)
    requires
        drops(f, tag, hit),
        n <= s.len(),
        everywhere_in_items(has_operand(tag), s, n),
        forall|i: int| 0 <= i < s.len() ==> (#[trigger] s[i]) is Statement,
    ensures
        statements_in_items(f, start_view(), s, n).0 == start_view(),
        statements_in_items(f, start_view(), s, n).1.len() == n,
        everywhere_in_items(unhit(tag, hit), statements_in_items(f, start_view(), s, n).1, n),
    decreases n,
{
    if n > 0 {
        dropped_in_statements(f, tag, hit, s, (n - 1) as nat);
        let done = statements_in_items(f, start_view(), s, (n - 1) as nat).1;
        operands_kept(f, tag, hit, start_view(), s[n - 1]);
        let last = statements_walked(f, start_view(), s[n - 1]).1;
        items_of_prefix(unhit(tag, hit), done, last, (n - 1) as nat);
        assert(done.push(last)[n - 1] == last);
    }
}

/// The expressions `a COLLATE pg_catalog.default`.
pub open spec fn is_default_collation() -> spec_fn(Syntax) -> bool {
    |e: Syntax|
        e.payload("Collate"@) matches Some(c) && pg_catalog_name_is(
            c.at("collation"@),
            "default"@,
        )
}

/// After their rewrite no `COLLATE pg_catalog.default` is left in a list of statements.
pub proof fn no_default_collation_is_left(t: Syntax)
    requires
        t is List,
        forall|i: int| 0 <= i < t.items().len() ==> (#[trigger] t.items()[i]) is Statement,
        everywhere(has_operand("Collate"@), t),
    ensures
        everywhere(unhit("Collate"@, is_default_collation()), rewritten(collation_rule(), t)),
{
    reveal_strlit("Collate");
    reveal_strlit("Nested");
    assert("Collate"@.len() == 7 && "Nested"@.len() == 6);
    let s = t.items();
    dropped_in_statements(collation_rule(), "Collate"@, is_default_collation(), s, s.len());
}

/// The casts to `oid[]`.
pub open spec fn is_oid_array_cast() -> spec_fn(Syntax) -> bool {
    |e: Syntax|
        e.payload("Cast"@) matches Some(c) && bracket_element(c.at("data_type"@)) matches Some(ty)
            && is_bare_oid(ty)
}

/// After their rewrite no cast to `oid[]` is left in a list of statements.
pub proof fn no_oid_array_cast_is_left(t: Syntax)
    requires
        t is List,
        forall|i: int| 0 <= i < t.items().len() ==> (#[trigger] t.items()[i]) is Statement,
        everywhere(has_operand("Cast"@), t),
    ensures
        everywhere(unhit("Cast"@, is_oid_array_cast()), rewritten(oid_array_rule(), t)),
{
    reveal_strlit("Cast");
    reveal_strlit("Nested");
    assert("Cast"@.len() == 4 && "Nested"@.len() == 6);
    let s = t.items();
    dropped_in_statements(oid_array_rule(), "Cast"@, is_oid_array_cast(), s, s.len());
}

// --- fresh names --------------------------------------------------------------------------------

proof fn digits_differ(a: nat, b: nat)
    requires
        a < 10,
        b < 10,
        digit(a) == digit(b),
    ensures
        a == b,
{
}

proof fn decimals_differ(a: nat, b: nat)
    requires
        decimal(a) == decimal(b),
    ensures
        a == b,
    decreases a,
{
    if a < 10 && b < 10 {
        assert(decimal(a) == seq![digit(a)]);
        assert(decimal(b) == seq![digit(b)]);
        assert(decimal(a)[0] == digit(a));
        assert(decimal(b)[0] == digit(b));
        digits_differ(a, b);
    } else if a >= 10 && b >= 10 {
        assert(decimal(a).drop_last() =~= decimal(a / 10));
        assert(decimal(b).drop_last() =~= decimal(b / 10));
        assert(decimal(a).last() == digit(a % 10));
        assert(decimal(b).last() == digit(b % 10));
        decimals_differ(a / 10, b / 10);
        digits_differ(a % 10, b % 10);
    } else if a < 10 {
        decimal_is_not_empty(b / 10);
        assert(decimal(a).len() == 1);
        assert(decimal(b).len() > 1);
    } else {
        decimal_is_not_empty(a / 10);
        assert(decimal(a).len() > 1);
        assert(decimal(b).len() == 1);
    }
}

proof fn decimal_is_not_empty(n: nat)
    ensures
        decimal(n).len() > 0,
    decreases n,
{
}

/// Fresh names with different numbers are different.
pub proof fn numbered_names_differ(prefix: Seq<char>, a: nat, b: nat)
    requires
        a != b,
    ensures
        numbered(prefix, a) != numbered(prefix, b),
{
    if numbered(prefix, a) == numbered(prefix, b) {
        let n = prefix.len() as int;
        assert(numbered(prefix, a).skip(n) =~= decimal(a));
        assert(numbered(prefix, b).skip(n) =~= decimal(b));
        decimals_differ(a, b);
    }
}

/// What holds of the fresh names that have been handed out: they are numbered up to the count,
/// and none of them is taken.
pub open spec fn names_are_fresh(taken: Seq<(Seq<char>, Seq<char>)>, st: ProgressView) -> bool {
    forall|j: int|
        0 <= j < st.names.len() ==> paired_with(taken, (#[trigger] st.names[j]).0) is None
            && exists|c: nat|
            1 <= c <= st.count && st.names[j].0 == #[trigger] numbered("alias_"@, c)
}

proof fn next_number_is_free(taken: Seq<(Seq<char>, Seq<char>)>, count: u64)
    requires
        next_free(taken, count) < u64::MAX,
    ensures
        count < next_free(taken, count),
        paired_with(taken, numbered("alias_"@, next_free(taken, count) as nat)) is None,
    decreases u64::MAX - count,
{
    if paired_with(taken, numbered("alias_"@, (count + 1) as nat)) is Some {
        next_number_is_free(taken, (count + 1) as u64);
    }
}

proof fn numbers_do_not_shrink(taken: Seq<(Seq<char>, Seq<char>)>, count: u64)
    ensures
        count <= next_free(taken, count),
    decreases u64::MAX - count,
{
    if count < u64::MAX && paired_with(taken, numbered("alias_"@, (count + 1) as nat)) is Some {
        numbers_do_not_shrink(taken, (count + 1) as u64);
    }
}

proof fn pair_stands_last(names: Seq<(Seq<char>, Seq<char>)>, key: Seq<char>, name: Seq<char>)
    requires
        forall|j: int| 0 <= j < names.len() ==> (#[trigger] names[j]).0 != key,
    ensures
        paired_with(names.push((key, name)), key) == Some(name),
    decreases names.len(),
{
    let all = names.push((key, name));
    if names.len() > 0 {
        assert(all[0] == names[0]);
        assert(all.skip(1) =~= names.skip(1).push((key, name)));
        assert forall|j: int| 0 <= j < names.skip(1).len() implies (#[trigger] names.skip(1)[j]).0
            != key by {
            assert(names.skip(1)[j] == names[j + 1]);
        }
        pair_stands_last(names.skip(1), key, name);
    }
}

proof fn pair_stays(
    names: Seq<(Seq<char>, Seq<char>)>,
    more: (Seq<char>, Seq<char>),
    key: Seq<char>,
)
    requires
        paired_with(names, key) is Some,
    ensures
        paired_with(names.push(more), key) == paired_with(names, key),
    decreases names.len(),
{
    let all = names.push(more);
    assert(all[0] == names[0]);
    if names[0].0 != key {
        assert(all.skip(1) =~= names.skip(1).push(more));
        pair_stays(names.skip(1), more, key);
    }
}

proof fn pair_is_there(names: Seq<(Seq<char>, Seq<char>)>, key: Seq<char>)
    requires
        paired_with(names, key) is Some,
    ensures
        exists|j: int| 0 <= j < names.len() && (#[trigger] names[j]).0 == key,
    decreases names.len(),
{
    if names[0].0 != key {
        pair_is_there(names.skip(1), key);
        let j = choose|j: int| 0 <= j < names.len() - 1 && (#[trigger] names.skip(1)[j]).0 == key;
        assert(names[j + 1].0 == key);
    }
}

/// Whether every name that is paired in `a` is paired with the same in `b`.
pub open spec fn pairs_last(
    a: Seq<(Seq<char>, Seq<char>)>,
    b: Seq<(Seq<char>, Seq<char>)>,
) -> bool {
    forall|key: Seq<char>|
        paired_with(a, key) is Some ==> #[trigger] paired_with(b, key) == paired_with(a, key)
}

/// Whether a select item gets a fresh name.
pub open spec fn is_unnamed(item: Syntax) -> bool {
    item.payload("UnnamedExpr"@) is Some && !is_star(item.payload("UnnamedExpr"@)->0.inner())
}

/// Whether the alias of a select item, if it has one, is among the taken names.
pub open spec fn item_noted(taken: Seq<(Seq<char>, Seq<char>)>, item: Syntax) -> bool {
    match item.payload("ExprWithAlias"@) {
        Some(a) => match ident_text(a.at("alias"@)) {
            Some(alias) => paired_with(taken, alias) is Some,
            None => true,
        },
        None => true,
    }
}

/// Whether the aliases of select items are among the taken names.
pub open spec fn items_noted(taken: Seq<(Seq<char>, Seq<char>)>, s: Seq<Syntax>) -> bool {
    forall|i: int| 0 <= i < s.len() ==> item_noted(taken, #[trigger] s[i])
}

/// Whether the aliases of a query's body are among the taken names.
pub open spec fn body_noted(taken: Seq<(Seq<char>, Seq<char>)>, e: Syntax) -> bool
    decreases e,
{
    proof {
        payload_is_smaller(e, "SetOperation"@);
        at_is_smaller(e.payload("SetOperation"@)->0, "left"@);
        at_is_smaller(e.payload("SetOperation"@)->0, "right"@);
        payload_is_smaller(e, "Query"@);
        at_is_smaller(e.payload("Query"@)->0, "body"@);
    }
    if let Some(select) = e.payload("Select"@) {
        items_noted(taken, select.at("projection"@).items())
    } else if let Some(op) = e.payload("SetOperation"@) {
        if op.at("left"@) == Syntax::Null || op.at("right"@) == Syntax::Null {
            true
        } else {
            body_noted(taken, op.at("left"@)) && body_noted(taken, op.at("right"@))
        }
    } else if let Some(q) = e.payload("Query"@) {
        if q.at("body"@) == Syntax::Null {
            true
        } else {
            body_noted(taken, q.at("body"@))
        }
    } else {
        true
    }
}

/// Whether `out` is the select item `item` under a fresh name after `low` that is paired with
/// its title, or the item itself if it is not to have one.
spec fn named_item(low: u64, st: ProgressView, item: Syntax, out: Syntax) -> bool {
    if is_unnamed(item) {
        let e = item.payload("UnnamedExpr"@)->0.inner();
        title(e) is Some && exists|c: nat|
            {
                &&& low < c <= st.count
                &&& out == aliased_item(e, #[trigger] numbered("alias_"@, c))
                &&& paired_with(st.names, numbered("alias_"@, c)) == title(e)
            }
    } else {
        out == item
    }
}

proof fn fresh_items_are_paired(
    taken: Seq<(Seq<char>, Seq<char>)>,
    st: ProgressView,
    s: Seq<Syntax>,
    n: nat,
)
    requires
        n <= s.len(),
        names_are_fresh(taken, st),
        fresh_items(taken, st, s, n).0.fault is None,
        fresh_items(taken, st, s, n).0.count < u64::MAX,
    ensures
        ({
            let (st1, out) = fresh_items(taken, st, s, n);
            &&& out.len() == n
            &&& names_are_fresh(taken, st1)
            &&& pairs_last(st.names, st1.names)
            &&& st.fault is None
            &&& st.count <= st1.count
            &&& forall|i: int|
                0 <= i < n ==> named_item(st.count, st1, s[i], #[trigger] out[i])
        }),
    decreases n,
{
    if n > 0 {
        let (st1, done) = fresh_items(taken, st, s, (n - 1) as nat);
        let (st2, item) = fresh_item(taken, st1, s[n - 1]);
        numbers_do_not_shrink(taken, st1.count);
        fresh_items_are_paired(taken, st, s, (n - 1) as nat);
        let out = done.push(item);
        if is_unnamed(s[n - 1]) {
            let e = s[n - 1].payload("UnnamedExpr"@)->0.inner();
            next_number_is_free(taken, st1.count);
            let c = next_free(taken, st1.count) as nat;
            let alias = numbered("alias_"@, c);
            let name = title(e)->0;
            assert(st2.names == st1.names.push((alias, name)));
            assert forall|j: int| 0 <= j < st1.names.len() implies (#[trigger] st1.names[j]).0
                != alias by {
                let d = choose|d: nat|
                    1 <= d <= st1.count && st1.names[j].0 == #[trigger] numbered("alias_"@, d);
                numbered_names_differ("alias_"@, d, c);
            }
            pair_stands_last(st1.names, alias, name);
            assert forall|key: Seq<char>| paired_with(st1.names, key) is Some implies
                #[trigger] paired_with(st2.names, key) == paired_with(st1.names, key) by {
                pair_stays(st1.names, (alias, name), key);
            }
            assert forall|j: int| 0 <= j < st2.names.len() implies paired_with(
                taken,
                (#[trigger] st2.names[j]).0,
            ) is None && exists|d: nat|
                1 <= d <= st2.count && st2.names[j].0 == #[trigger] numbered("alias_"@, d) by {
                if j < st1.names.len() {
                    assert(st2.names[j] == st1.names[j]);
                    let d = choose|d: nat|
                        1 <= d <= st1.count && st1.names[j].0 == #[trigger] numbered("alias_"@, d);
                    assert(1 <= d <= st2.count && st2.names[j].0 == numbered("alias_"@, d));
                } else {
                    assert(st2.names[j].0 == numbered("alias_"@, c));
                }
            }
            assert forall|i: int| 0 <= i < n implies named_item(
                st.count,
                st2,
                s[i],
                #[trigger] out[i],
            ) by {
                if i < n - 1 {
                    assert(out[i] == done[i]);
                    assert(named_item(st.count, st1, s[i], done[i]));
                    if is_unnamed(s[i]) {
                        let ei = s[i].payload("UnnamedExpr"@)->0.inner();
                        let d = choose|d: nat|
                            {
                                &&& st.count < d <= st1.count
                                &&& done[i] == aliased_item(ei, #[trigger] numbered("alias_"@, d))
                                &&& paired_with(st1.names, numbered("alias_"@, d)) == title(ei)
                            };
                        assert(paired_with(st2.names, numbered("alias_"@, d)) == title(ei));
                        assert(st.count < d <= st2.count);
                    }
                } else {
                    assert(out[i] == aliased_item(e, numbered("alias_"@, c)));
                    assert(st.count < c <= st2.count);
                }
            }
        } else {
            assert(st2 == st1);
            assert forall|i: int| 0 <= i < n implies named_item(
                st.count,
                st2,
                s[i],
                #[trigger] out[i],
            ) by {
                if i < n - 1 {
                    assert(out[i] == done[i]);
                }
            }
        }
    }
}

proof fn alias_of_item(
    e: Syntax,
    alias: Seq<char>,
    name: Seq<char>,
    names: Seq<(Seq<char>, Seq<char>)>,
)
    requires
        paired_with(names, alias) == Some(name),
    ensures
        restored_item(names, aliased_item(e, alias)) == labelled_item(e, name),
{
    reveal_strlit("expr");
    reveal_strlit("alias");
    assert("expr"@.len() == 4);
    assert("alias"@.len() == 5);
    let fields = Seq::<(Seq<char>, Syntax)>::empty().push(("expr"@, expr_node(e))).push(
        ("alias"@, ident(alias)),
    );
    let a = Syntax::Record(fields);
    let item = aliased_item(e, alias);
    assert(item.payload("ExprWithAlias"@) == Some(a));
    assert(fields.skip(1)[0] == fields[1]);
    assert(lookup(fields, "alias"@) == lookup(fields.skip(1), "alias"@));
    assert(a.at("alias"@) == ident(alias));
    assert(ident_text(ident(alias)) == Some(alias));
    let back = replaced(fields, "alias"@, label(name));
    assert(back =~= Seq::<(Seq<char>, Syntax)>::empty().push(("expr"@, expr_node(e))).push(
        ("alias"@, label(name)),
    ));
}

/// A select item under the name that a client sees: one without a name gets its title.
pub open spec fn titled_item(item: Syntax) -> Syntax {
    if is_unnamed(item) {
        let e = item.payload("UnnamedExpr"@)->0.inner();
        match title(e) {
            Some(name) => labelled_item(e, name),
            None => item,
        }
    } else {
        item
    }
}

/// The select items under the names that a client sees.
pub open spec fn titled_items(s: Seq<Syntax>) -> Seq<Syntax> {
    Seq::new(s.len(), |i: int| titled_item(s[i]))
}

/// The body of a query under the names that a client sees: of a `SELECT`, or of both sides of a
/// set operation. No name is to be put back in a query in parentheses.
pub open spec fn titled_body(e: Syntax) -> Syntax
    decreases e,
{
    proof {
        payload_is_smaller(e, "SetOperation"@);
        at_is_smaller(e.payload("SetOperation"@)->0, "left"@);
        at_is_smaller(e.payload("SetOperation"@)->0, "right"@);
    }
    if let Some(select) = e.payload("Select"@) {
        variant(
            "Select"@,
            select.with(
                "projection"@,
                Syntax::List(titled_items(select.at("projection"@).items())),
            ),
        )
    } else if let Some(op) = e.payload("SetOperation"@) {
        if op.at("left"@) == Syntax::Null || op.at("right"@) == Syntax::Null {
            e
        } else {
            variant(
                "SetOperation"@,
                op.with("left"@, titled_body(op.at("left"@))).with(
                    "right"@,
                    titled_body(op.at("right"@)),
                ),
            )
        }
    } else {
        restored_body(Seq::empty(), e)
    }
}

proof fn taken_name_is_not_fresh(
    taken: Seq<(Seq<char>, Seq<char>)>,
    st: ProgressView,
    alias: Seq<char>,
)
    requires
        names_are_fresh(taken, st),
        paired_with(taken, alias) is Some,
    ensures
        paired_with(st.names, alias) is None,
{
    if paired_with(st.names, alias) is Some {
        pair_is_there(st.names, alias);
    }
}

proof fn noted_items_stay(taken: Seq<(Seq<char>, Seq<char>)>, st: ProgressView, s: Seq<Syntax>)
    requires
        names_are_fresh(taken, st),
        items_noted(taken, s),
    ensures
        restored_items(st.names, s) == s,
        restored_items(Seq::empty(), s) == s,
{
    assert forall|i: int| 0 <= i < s.len() implies #[trigger] restored_item(st.names, s[i])
        == s[i] by {
        if let Some(a) = s[i].payload("ExprWithAlias"@) {
            if let Some(alias) = ident_text(a.at("alias"@)) {
                assert(item_noted(taken, s[i]));
                taken_name_is_not_fresh(taken, st, alias);
            }
        }
    }
    assert(restored_items(st.names, s) =~= s);
    assert(restored_items(Seq::empty(), s) =~= s);
}

proof fn noted_body_stays(taken: Seq<(Seq<char>, Seq<char>)>, st: ProgressView, e: Syntax)
    requires
        names_are_fresh(taken, st),
        body_noted(taken, e),
    ensures
        restored_body(st.names, e) == restored_body(Seq::empty(), e),
    decreases e,
{
    payload_is_smaller(e, "SetOperation"@);
    at_is_smaller(e.payload("SetOperation"@)->0, "left"@);
    at_is_smaller(e.payload("SetOperation"@)->0, "right"@);
    payload_is_smaller(e, "Query"@);
    at_is_smaller(e.payload("Query"@)->0, "body"@);
    if let Some(select) = e.payload("Select"@) {
        noted_items_stay(taken, st, select.at("projection"@).items());
    } else if let Some(op) = e.payload("SetOperation"@) {
        if op.at("left"@) != Syntax::Null && op.at("right"@) != Syntax::Null {
            noted_body_stays(taken, st, op.at("left"@));
            noted_body_stays(taken, st, op.at("right"@));
        }
    } else if let Some(q) = e.payload("Query"@) {
        if q.at("body"@) != Syntax::Null {
            noted_body_stays(taken, st, q.at("body"@));
        }
    }
}

/// Naming the items of a select list and putting the names back leaves each item without a
/// name under the name that it has for a client, and every item with an alias as it was,
/// whatever was named before them and after them.
proof fn restoring_gives_items_back(
    taken: Seq<(Seq<char>, Seq<char>)>,
    st: ProgressView,
    s: Seq<Syntax>,
    end: ProgressView,
)
    requires
        names_are_fresh(taken, st),
        items_noted(taken, s),
        fresh_items(taken, st, s, s.len()).0.fault is None,
        fresh_items(taken, st, s, s.len()).0.count < u64::MAX,
        names_are_fresh(taken, end),
        pairs_last(fresh_items(taken, st, s, s.len()).0.names, end.names),
    ensures
        restored_items(end.names, fresh_items(taken, st, s, s.len()).1) == titled_items(s),
{
    let (st1, out) = fresh_items(taken, st, s, s.len());
    fresh_items_are_paired(taken, st, s, s.len());
    assert forall|i: int| 0 <= i < s.len() implies #[trigger] restored_item(end.names, out[i])
        == titled_item(s[i]) by {
        if is_unnamed(s[i]) {
            let e = s[i].payload("UnnamedExpr"@)->0.inner();
            assert(named_item(st.count, st1, s[i], out[i]));
            let c = choose|c: nat|
                {
                    &&& st.count < c <= st1.count
                    &&& out[i] == aliased_item(e, #[trigger] numbered("alias_"@, c))
                    &&& paired_with(st1.names, numbered("alias_"@, c)) == title(e)
                };
            assert(paired_with(end.names, numbered("alias_"@, c)) == title(e));
            alias_of_item(e, numbered("alias_"@, c), title(e)->0, end.names);
        } else {
            assert(out[i] == s[i]);
            noted_items_stay(taken, end, s);
            assert(restored_items(end.names, s)[i] == s[i]);
        }
    }
    assert(restored_items(end.names, out) =~= titled_items(s));
}

pub(crate) proof fn lookup_of_replaced(fields: Seq<(Seq<char>, Syntax)>, name: Seq<char>, v: Syntax)
    ensures
        lookup(replaced(fields, name, v), name) == (match lookup(fields, name) {
            Some(_) => Some(v),
            None => None,
        }),
    decreases fields.len(),
{
    if fields.len() > 0 {
        let out = replaced(fields, name, v);
        assert(out.skip(1) =~= replaced(fields.skip(1), name, v));
        lookup_of_replaced(fields.skip(1), name, v);
    }
}

pub(crate) proof fn lookup_of_other(
    fields: Seq<(Seq<char>, Syntax)>,
    name: Seq<char>,
    v: Syntax,
    other: Seq<char>,
)
    requires
        other != name,
    ensures
        lookup(replaced(fields, name, v), other) == lookup(fields, other),
    decreases fields.len(),
{
    if fields.len() > 0 {
        let out = replaced(fields, name, v);
        assert(out.skip(1) =~= replaced(fields.skip(1), name, v));
        lookup_of_other(fields.skip(1), name, v, other);
    }
}

pub(crate) proof fn set_field_is_read(r: Syntax, name: Seq<char>, v: Syntax)
    ensures
        r.at(name) != Syntax::Null ==> r.with(name, v).at(name) == v,
        r.with(name, v).at(name) == v || r.with(name, v).at(name) == Syntax::Null && r.at(name)
            == Syntax::Null,
        forall|w: Syntax| #[trigger] r.with(name, v).with(name, w) == r.with(name, w),
{
    if let Syntax::Record(fields) = r {
        lookup_of_replaced(fields, name, v);
        assert forall|w: Syntax| #[trigger] r.with(name, v).with(name, w) == r.with(name, w) by {
            assert(replaced(replaced(fields, name, v), name, w) =~= replaced(fields, name, w));
        }
    }
}

pub(crate) proof fn other_field_stays(
    r: Syntax,
    name: Seq<char>,
    v: Syntax,
    other: Seq<char>,
    w: Syntax,
)
    requires
        other != name,
    ensures
        r.with(name, v).at(other) == r.at(other),
        r.with(name, v).with(other, w) == r.with(other, w).with(name, v),
{
    if let Syntax::Record(fields) = r {
        lookup_of_other(fields, name, v, other);
        assert(replaced(replaced(fields, name, v), other, w) =~= replaced(
            replaced(fields, other, w),
            name,
            v,
        ));
    }
}

pub(crate) proof fn fresh_body_keeps_on(
    taken: Seq<(Seq<char>, Seq<char>)>,
    st: ProgressView,
    e: Syntax,
)
    requires
        names_are_fresh(taken, st),
        fresh_body(taken, st, e).0.fault is None,
        fresh_body(taken, st, e).0.count < u64::MAX,
    ensures
        names_are_fresh(taken, fresh_body(taken, st, e).0),
        pairs_last(st.names, fresh_body(taken, st, e).0.names),
        st.fault is None,
        st.count <= fresh_body(taken, st, e).0.count,
    decreases e,
{
    payload_is_smaller(e, "SetOperation"@);
    at_is_smaller(e.payload("SetOperation"@)->0, "left"@);
    at_is_smaller(e.payload("SetOperation"@)->0, "right"@);
    if let Some(select) = e.payload("Select"@) {
        let s = select.at("projection"@).items();
        fresh_items_are_paired(taken, st, s, s.len());
    } else if let Some(op) = e.payload("SetOperation"@) {
        if op.at("left"@) != Syntax::Null && op.at("right"@) != Syntax::Null {
            let (st1, left) = fresh_body(taken, st, op.at("left"@));
            fresh_body_stops(taken, st, op.at("left"@));
            fresh_body_stops(taken, st1, op.at("right"@));
            fresh_body_keeps_on(taken, st, op.at("left"@));
            fresh_body_keeps_on(taken, st1, op.at("right"@));
        }
    }
}

proof fn fresh_items_stop(
    taken: Seq<(Seq<char>, Seq<char>)>,
    st: ProgressView,
    s: Seq<Syntax>,
    n: nat,
)
    ensures
        st.fault is Some ==> fresh_items(taken, st, s, n).0.fault is Some,
        st.count <= fresh_items(taken, st, s, n).0.count,
    decreases n,
{
    if n > 0 {
        fresh_items_stop(taken, st, s, (n - 1) as nat);
        numbers_do_not_shrink(taken, fresh_items(taken, st, s, (n - 1) as nat).0.count);
    }
}

pub(crate) proof fn fresh_body_stops(
    taken: Seq<(Seq<char>, Seq<char>)>,
    st: ProgressView,
    e: Syntax,
)
    ensures
        st.fault is Some ==> fresh_body(taken, st, e).0.fault is Some,
        st.count <= fresh_body(taken, st, e).0.count,
        e != Syntax::Null ==> fresh_body(taken, st, e).1 != Syntax::Null,
    decreases e,
{
    payload_is_smaller(e, "SetOperation"@);
    at_is_smaller(e.payload("SetOperation"@)->0, "left"@);
    at_is_smaller(e.payload("SetOperation"@)->0, "right"@);
    if let Some(select) = e.payload("Select"@) {
        let s = select.at("projection"@).items();
        fresh_items_stop(taken, st, s, s.len());
    } else if let Some(op) = e.payload("SetOperation"@) {
        if op.at("left"@) != Syntax::Null && op.at("right"@) != Syntax::Null {
            fresh_body_stops(taken, st, op.at("left"@));
            fresh_body_stops(taken, fresh_body(taken, st, op.at("left"@)).0, op.at("right"@));
        }
    }
}

proof fn tags_differ()
    ensures
        "Select"@ != "SetOperation"@,
        "left"@ != "right"@,
{
    reveal_strlit("Select");
    reveal_strlit("SetOperation");
    reveal_strlit("left");
    reveal_strlit("right");
    assert("Select"@.len() == 6);
    assert("SetOperation"@.len() == 12);
    assert("left"@.len() == 4);
    assert("right"@.len() == 5);
}

pub(crate) proof fn restoring_gives_body_back(
    taken: Seq<(Seq<char>, Seq<char>)>,
    st: ProgressView,
    e: Syntax,
    end: ProgressView,
)
    requires
        names_are_fresh(taken, st),
        body_noted(taken, e),
        fresh_body(taken, st, e).0.fault is None,
        fresh_body(taken, st, e).0.count < u64::MAX,
        names_are_fresh(taken, end),
        pairs_last(fresh_body(taken, st, e).0.names, end.names),
    ensures
        restored_body(end.names, fresh_body(taken, st, e).1) == titled_body(e),
    decreases e,
{
    payload_is_smaller(e, "SetOperation"@);
    at_is_smaller(e.payload("SetOperation"@)->0, "left"@);
    at_is_smaller(e.payload("SetOperation"@)->0, "right"@);
    tags_differ();
    let (st1, out) = fresh_body(taken, st, e);
    if let Some(select) = e.payload("Select"@) {
        let s = select.at("projection"@).items();
        let items = fresh_items(taken, st, s, s.len()).1;
        restoring_gives_items_back(taken, st, s, end);
        fresh_items_are_paired(taken, st, s, s.len());
        let select1 = select.with("projection"@, Syntax::List(items));
        set_field_is_read(select, "projection"@, Syntax::List(items));
        assert(out.payload("Select"@) == Some(select1));
        if select1.at("projection"@) == Syntax::Null {
            assert(items =~= Seq::empty());
            assert(restored_items(end.names, Seq::empty()) =~= titled_items(s));
        }
    } else if let Some(op) = e.payload("SetOperation"@) {
        if op.at("left"@) != Syntax::Null && op.at("right"@) != Syntax::Null {
            let (st2, left) = fresh_body(taken, st, op.at("left"@));
            let right = fresh_body(taken, st2, op.at("right"@)).1;
            fresh_body_stops(taken, st, op.at("left"@));
            fresh_body_stops(taken, st2, op.at("right"@));
            fresh_body_keeps_on(taken, st, op.at("left"@));
            fresh_body_keeps_on(taken, st2, op.at("right"@));
            restoring_gives_body_back(taken, st, op.at("left"@), end);
            restoring_gives_body_back(taken, st2, op.at("right"@), end);
            let op1 = op.with("left"@, left);
            let op2 = op1.with("right"@, right);
            set_field_is_read(op, "left"@, left);
            other_field_stays(op, "left"@, left, "right"@, right);
            set_field_is_read(op1, "right"@, right);
            other_field_stays(op1, "right"@, right, "left"@, left);
            assert(op2.at("left"@) == left && op2.at("right"@) == right);
            assert(out.payload("SetOperation"@) == Some(op2));
            assert(out.payload("Select"@) is None);
            let l = restored_body(end.names, left);
            let r = restored_body(end.names, right);
            other_field_stays(op1, "right"@, right, "left"@, l);
            assert(op2.with("left"@, l) == op1.with("left"@, l).with("right"@, right));
            assert(op1.with("left"@, l) == op.with("left"@, l));
            set_field_is_read(op.with("left"@, l), "right"@, right);
        } else {
            assert(out == e);
        }
    } else {
        noted_body_stays(taken, end, e);
    }
}

/// Naming the columns of a whole query and putting the names back leaves every column without a
/// name under the name that a client sees, on both sides of a set operation, and every other
/// column as it was. This holds as long as the aliases of the query are known as taken and
/// numbers do not run out.
pub proof fn restoring_gives_names_back(taken: Seq<(Seq<char>, Seq<char>)>, e: Syntax)
    requires
        body_noted(taken, e),
        fresh_body(taken, start_view(), e).0.fault is None,
        fresh_body(taken, start_view(), e).0.count < u64::MAX,
    ensures
        ({
            let (st, out) = fresh_body(taken, start_view(), e);
            restored_body(st.names, out) == titled_body(e)
        }),
{
    fresh_body_keeps_on(taken, start_view(), e);
    let st = fresh_body(taken, start_view(), e).0;
    restoring_gives_body_back(taken, start_view(), e, st);
}

proof fn noted_items_are_taken(st: ProgressView, s: Seq<Syntax>, n: nat)
    requires
        n <= s.len(),
    ensures
        pairs_kept(st.names, noted_items(st, s, n).names),
        forall|i: int| 0 <= i < n ==> item_noted(noted_items(st, s, n).names, #[trigger] s[i]),
    decreases n,
{
    if n > 0 {
        noted_items_are_taken(st, s, (n - 1) as nat);
        let st1 = noted_items(st, s, (n - 1) as nat);
        let st2 = noted_items(st, s, n);
        if let Some(a) = s[n - 1].payload("ExprWithAlias"@) {
            if let Some(alias) = ident_text(a.at("alias"@)) {
                let more = st1.names.push((alias, alias));
                pair_was_put(st1.names, alias, alias);
                pair_stays(more, (lowercased(alias), alias), alias);
                assert forall|key: Seq<char>| paired_with(st1.names, key) is Some implies
                    #[trigger] paired_with(st2.names, key) is Some by {
                    pair_stays(st1.names, (alias, alias), key);
                    pair_stays(more, (lowercased(alias), alias), key);
                }
            }
        }
    }
}

/// Whether every name that is paired in `a` is paired in `b`.
pub open spec fn pairs_kept(
    a: Seq<(Seq<char>, Seq<char>)>,
    b: Seq<(Seq<char>, Seq<char>)>,
) -> bool {
    forall|key: Seq<char>| paired_with(a, key) is Some ==> #[trigger] paired_with(b, key) is Some
}

proof fn pair_was_put(names: Seq<(Seq<char>, Seq<char>)>, key: Seq<char>, name: Seq<char>)
    ensures
        paired_with(names.push((key, name)), key) is Some,
    decreases names.len(),
{
    let all = names.push((key, name));
    if names.len() > 0 {
        assert(all[0] == names[0]);
        assert(all.skip(1) =~= names.skip(1).push((key, name)));
        pair_was_put(names.skip(1), key, name);
    }
}

pub(crate) proof fn noted_in_more(
    a: Seq<(Seq<char>, Seq<char>)>,
    b: Seq<(Seq<char>, Seq<char>)>,
    e: Syntax,
)
    requires
        body_noted(a, e),
        pairs_kept(a, b),
    ensures
        body_noted(b, e),
    decreases e,
{
    payload_is_smaller(e, "SetOperation"@);
    at_is_smaller(e.payload("SetOperation"@)->0, "left"@);
    at_is_smaller(e.payload("SetOperation"@)->0, "right"@);
    payload_is_smaller(e, "Query"@);
    at_is_smaller(e.payload("Query"@)->0, "body"@);
    if let Some(select) = e.payload("Select"@) {
        let s = select.at("projection"@).items();
        assert forall|i: int| 0 <= i < s.len() implies item_noted(b, #[trigger] s[i]) by {
            assert(item_noted(a, s[i]));
        }
    } else if let Some(op) = e.payload("SetOperation"@) {
        if op.at("left"@) != Syntax::Null && op.at("right"@) != Syntax::Null {
            noted_in_more(a, b, op.at("left"@));
            noted_in_more(a, b, op.at("right"@));
        }
    } else if let Some(q) = e.payload("Query"@) {
        if q.at("body"@) != Syntax::Null {
            noted_in_more(a, b, q.at("body"@));
        }
    }
}

/// Once the aliases of a query's body have been noted they are known as taken, and so is what
/// was noted before.
pub proof fn noted_names_are_taken(st: ProgressView, e: Syntax)
    ensures
        body_noted(noted_body(st, e).names, e),
        forall|key: Seq<char>|
            paired_with(st.names, key) is Some ==> #[trigger] paired_with(
                noted_body(st, e).names,
                key,
            ) is Some,
    decreases e,
{
    payload_is_smaller(e, "SetOperation"@);
    at_is_smaller(e.payload("SetOperation"@)->0, "left"@);
    at_is_smaller(e.payload("SetOperation"@)->0, "right"@);
    payload_is_smaller(e, "Query"@);
    at_is_smaller(e.payload("Query"@)->0, "body"@);
    if let Some(select) = e.payload("Select"@) {
        let s = select.at("projection"@).items();
        noted_items_are_taken(st, s, s.len());
        let taken = noted_items(st, s, s.len()).names;
        assert(items_noted(taken, s));
    } else if let Some(op) = e.payload("SetOperation"@) {
        if op.at("left"@) != Syntax::Null && op.at("right"@) != Syntax::Null {
            let st1 = noted_body(st, op.at("left"@));
            let st2 = noted_body(st1, op.at("right"@));
            noted_names_are_taken(st, op.at("left"@));
            noted_names_are_taken(st1, op.at("right"@));
            noted_in_more(st1.names, st2.names, op.at("left"@));
        }
    } else if let Some(q) = e.payload("Query"@) {
        if q.at("body"@) != Syntax::Null {
            noted_names_are_taken(st, q.at("body"@));
        }
    }
}

proof fn alias_is_put_out(e: Syntax, alias: Seq<char>)
    ensures
        output_name(aliased_item(e, alias)) == Some(alias),
{
    reveal_strlit("expr");
    reveal_strlit("alias");
    assert("expr"@.len() != "alias"@.len());
    let fields = Seq::<(Seq<char>, Syntax)>::empty().push(("expr"@, expr_node(e))).push(
        ("alias"@, ident(alias)),
    );
    let a = Syntax::Record(fields);
    assert(aliased_item(e, alias).payload("ExprWithAlias"@) == Some(a));
    assert(fields.skip(1)[0] == fields[1]);
    assert(lookup(fields, "alias"@) == lookup(fields.skip(1), "alias"@));
    assert(a.at("alias"@) == ident(alias));
}

proof fn label_is_put_out(e: Syntax, name: Seq<char>)
    ensures
        output_name(labelled_item(e, name)) == Some(name),
{
    reveal_strlit("expr");
    reveal_strlit("alias");
    reveal_strlit("value");
    reveal_strlit("quote_style");
    assert("expr"@.len() != "alias"@.len());
    assert("value"@.len() != "quote_style"@.len());
    let fields = Seq::<(Seq<char>, Syntax)>::empty().push(("expr"@, expr_node(e))).push(
        ("alias"@, label(name)),
    );
    let a = Syntax::Record(fields);
    assert(labelled_item(e, name).payload("ExprWithAlias"@) == Some(a));
    assert(fields.skip(1)[0] == fields[1]);
    assert(lookup(fields, "alias"@) == lookup(fields.skip(1), "alias"@));
    assert(a.at("alias"@) == label(name));
    assert(label(name).at("value"@) == Syntax::Text(name));
}

proof fn fresh_items_in_parts(
    taken: Seq<(Seq<char>, Seq<char>)>,
    st: ProgressView,
    s: Seq<Syntax>,
    i: nat,
    n: nat,
)
    requires
        i <= n,
    ensures
        fresh_items(taken, st, s, n).1.len() == n,
        fresh_items(taken, st, s, i).0.count <= fresh_items(taken, st, s, n).0.count,
        fresh_items(taken, st, s, n).0.fault is None
            ==> fresh_items(taken, st, s, i).0.fault is None,
        forall|k: int|
            0 <= k < i ==> #[trigger] fresh_items(taken, st, s, n).1[k] == fresh_items(
                taken,
                st,
                s,
                i,
            ).1[k],
    decreases n,
{
    if i < n {
        fresh_items_in_parts(taken, st, s, i, (n - 1) as nat);
        numbers_do_not_shrink(taken, fresh_items(taken, st, s, (n - 1) as nat).0.count);
    } else if n > 0 {
        fresh_items_in_parts(taken, st, s, (n - 1) as nat, (n - 1) as nat);
    }
}

proof fn fresh_item_is_numbered(
    taken: Seq<(Seq<char>, Seq<char>)>,
    st: ProgressView,
    s: Seq<Syntax>,
    i: int,
)
    requires
        0 <= i < s.len(),
        is_unnamed(s[i]),
        fresh_items(taken, st, s, s.len()).0.fault is None,
        fresh_items(taken, st, s, s.len()).0.count < u64::MAX,
    ensures
        ({
            let before = fresh_items(taken, st, s, i as nat).0.count;
            let after = fresh_items(taken, st, s, (i + 1) as nat).0.count;
            &&& before < after
            &&& paired_with(taken, numbered("alias_"@, after as nat)) is None
            &&& output_name(fresh_items(taken, st, s, s.len()).1[i]) == Some(
                numbered("alias_"@, after as nat),
            )
        }),
{
    let m = (i + 1) as nat;
    fresh_items_in_parts(taken, st, s, m, s.len());
    fresh_items_in_parts(taken, st, s, i as nat, m);
    let before = fresh_items(taken, st, s, i as nat).0;
    next_number_is_free(taken, before.count);
    let e = s[i].payload("UnnamedExpr"@)->0.inner();
    assert(title(e) is Some);
    alias_is_put_out(e, numbered("alias_"@, next_free(taken, before.count) as nat));
    assert(fresh_items(taken, st, s, m).1[i] == fresh_item(taken, before, s[i]).1);
}

/// No two columns of a list get the same fresh name, whatever was named before them, and none
/// gets a name that is taken; so each is different from every alias that the list has, once
/// these are known as taken. This holds as long as numbers do not run out.
pub proof fn fresh_names_differ(
    taken: Seq<(Seq<char>, Seq<char>)>,
    st: ProgressView,
    s: Seq<Syntax>,
    i: int,
    j: int,
)
    requires
        0 <= i < s.len(),
        0 <= j < s.len(),
        i != j,
        is_unnamed(s[i]),
        items_noted(taken, s),
        fresh_items(taken, st, s, s.len()).0.fault is None,
        fresh_items(taken, st, s, s.len()).0.count < u64::MAX,
    ensures
        ({
            let out = fresh_items(taken, st, s, s.len()).1;
            &&& output_name(out[i]) is Some
            &&& paired_with(taken, output_name(out[i])->0) is None
            &&& is_unnamed(s[j]) ==> output_name(out[j]) != output_name(out[i])
            &&& match s[j].payload("ExprWithAlias"@) {
                Some(a) => ident_text(a.at("alias"@)) != output_name(out[i]),
                None => true,
            }
        }),
{
    fresh_item_is_numbered(taken, st, s, i);
    if is_unnamed(s[j]) {
        fresh_item_is_numbered(taken, st, s, j);
        let low = if i < j {
            i
        } else {
            j
        };
        let high = if i < j {
            j
        } else {
            i
        };
        fresh_items_in_parts(taken, st, s, (low + 1) as nat, high as nat);
        numbered_names_differ(
            "alias_"@,
            fresh_items(taken, st, s, (i + 1) as nat).0.count as nat,
            fresh_items(taken, st, s, (j + 1) as nat).0.count as nat,
        );
    }
    assert(item_noted(taken, s[j]));
}

// --- columns of one name ------------------------------------------------------------------------

proof fn put_out_more_often(s: Seq<Syntax>, a: nat, b: nat, name: Seq<char>)
    requires
        a <= b <= s.len(),
    ensures
        times_put_out(s, a, name) <= times_put_out(s, b, name),
    decreases b,
{
    if a < b {
        put_out_more_often(s, a, (b - 1) as nat, name);
    }
}

proof fn numbers_tell_apart(name: Seq<char>, j: nat, k: nat)
    requires
        j != k,
    ensures
        name_and_number(name, j) != name_and_number(name, k),
{
    if name_and_number(name, j) == name_and_number(name, k) {
        let n = (name + "_"@).len() as int;
        assert(name_and_number(name, j).skip(n) =~= decimal(j));
        assert(name_and_number(name, k).skip(n) =~= decimal(k));
        decimals_differ(j, k);
    }
}

/// No more numbers can be taken in a row than there are names.
proof fn taken_numbers_are_few(taken: Seq<Seq<char>>, name: Seq<char>, k: nat, m: nat)
    requires
        forall|j: nat|
            k <= j < k + m ==> taken.contains(#[trigger] name_and_number(name, j)),
    ensures
        m <= taken.len(),
    decreases m,
{
    if m > 0 {
        let last = (k + m - 1) as nat;
        assert(taken.contains(name_and_number(name, last)));
        let p = choose|p: int|
            0 <= p < taken.len() && taken[p] == name_and_number(name, last);
        let rest = taken.remove(p);
        assert forall|j: nat| k <= j < k + (m - 1) implies rest.contains(
            #[trigger] name_and_number(name, j),
        ) by {
            numbers_tell_apart(name, j, last);
            let q = choose|q: int|
                0 <= q < taken.len() && taken[q] == name_and_number(name, j);
            if q < p {
                assert(rest[q] == taken[q]);
            } else {
                assert(rest[q - 1] == taken[q]);
            }
        }
        taken_numbers_are_few(rest, name, k, (m - 1) as nat);
    }
}

proof fn skipped_numbers_are_taken(taken: Seq<Seq<char>>, name: Seq<char>, k: u64)
    ensures
        k <= free_number(taken, name, k),
        free_number(taken, name, k) < u64::MAX ==> !taken.contains(
            name_and_number(name, free_number(taken, name, k) as nat),
        ),
        forall|j: nat|
            k <= j < free_number(taken, name, k) ==> taken.contains(
                #[trigger] name_and_number(name, j),
            ),
    decreases u64::MAX - k,
{
    if k < u64::MAX && taken.contains(name_and_number(name, k as nat)) {
        skipped_numbers_are_taken(taken, name, (k + 1) as u64);
    }
}

proof fn number_is_free(taken: Seq<Seq<char>>, name: Seq<char>, k: u64)
    requires
        k + taken.len() < u64::MAX,
    ensures
        !taken.contains(name_and_number(name, free_number(taken, name, k) as nat)),
{
    skipped_numbers_are_taken(taken, name, k);
    let n = free_number(taken, name, k);
    if n == u64::MAX {
        taken_numbers_are_few(taken, name, k as nat, (n - k) as nat);
    }
}

proof fn put_out_at_most(s: Seq<Syntax>, n: nat, name: Seq<char>)
    ensures
        times_put_out(s, n, name) <= n,
        output_names(s, n).len() <= n,
    decreases n,
{
    if n > 0 {
        put_out_at_most(s, (n - 1) as nat, name);
    }
}

proof fn name_is_listed(s: Seq<Syntax>, n: nat, i: int)
    requires
        0 <= i < n <= s.len(),
        output_name(s[i]) is Some,
    ensures
        output_names(s, n).contains(output_name(s[i])->0),
    decreases n,
{
    let all = output_names(s, n);
    if i == n - 1 {
        assert(all[all.len() - 1] == output_name(s[i])->0);
    } else {
        name_is_listed(s, (n - 1) as nat, i);
        let done = output_names(s, (n - 1) as nat);
        let p = choose|p: int| 0 <= p < done.len() && done[p] == output_name(s[i])->0;
        assert(all[p] == done[p]);
    }
}

proof fn told_apart_so_far(s: Seq<Syntax>, n: nat, i: int)
    requires
        n <= s.len(),
    ensures
        items_told_apart(s, n).len() == n,
        0 <= i < n ==> items_told_apart(s, n)[i] == told_apart(
            s,
            items_told_apart(s, i as nat),
            i,
        ),
    decreases n,
{
    if n > 0 {
        told_apart_so_far(s, (n - 1) as nat, i);
    }
}

/// Whether the item at `i` is put out under a name that an item before it has.
pub open spec fn is_repeated(s: Seq<Syntax>, i: int) -> bool {
    output_name(s[i]) is Some && times_put_out(s, (i + 1) as nat, output_name(s[i])->0) > 1
}

proof fn repeated_is_renamed(s: Seq<Syntax>, i: int)
    requires
        0 <= i < s.len(),
        s.len() < 0x4000_0000_0000_0000,
        is_repeated(s, i),
    ensures
        ({
            let done = items_told_apart(s, i as nat);
            let out = output_name(all_told_apart(s)[i]);
            &&& out is Some
            &&& !output_names(s, s.len()).contains(out->0)
            &&& !output_names(done, done.len()).contains(out->0)
        }),
{
    let name = output_name(s[i])->0;
    let k = times_put_out(s, (i + 1) as nat, name);
    let done = items_told_apart(s, i as nat);
    told_apart_so_far(s, s.len(), i);
    told_apart_so_far(s, i as nat, 0);
    put_out_at_most(s, (i + 1) as nat, name);
    put_out_at_most(s, s.len(), name);
    put_out_at_most(done, done.len(), name);
    let own = output_names(s, s.len());
    let given = output_names(done, done.len());
    let taken = own + given;
    let n = free_number(taken, name, k as u64);
    number_is_free(taken, name, k as u64);
    let alias = name_and_number(name, n as nat);
    assert(item_expr(s[i]) is Some);
    label_is_put_out(item_expr(s[i])->0, alias);
    if own.contains(alias) {
        let p = choose|p: int| 0 <= p < own.len() && own[p] == alias;
        assert(taken[p] == alias);
    }
    if given.contains(alias) {
        let p = choose|p: int| 0 <= p < given.len() && given[p] == alias;
        assert(taken[own.len() + p] == alias);
    }
}

/// The first column of each name keeps it.
pub proof fn first_columns_keep_names(s: Seq<Syntax>, i: int)
    requires
        0 <= i < s.len(),
        !is_repeated(s, i),
    ensures
        all_told_apart(s)[i] == s[i],
{
    told_apart_so_far(s, s.len(), i);
}

/// Columns of one name are told apart: no two columns of a subquery are put out under the same
/// name.
pub proof fn columns_are_told_apart(s: Seq<Syntax>, i: int, j: int)
    requires
        0 <= i < j < s.len(),
        s.len() < 0x4000_0000_0000_0000,
        output_name(s[i]) is Some,
        output_name(s[j]) is Some,
    ensures
        output_name(all_told_apart(s)[i]) is Some,
        output_name(all_told_apart(s)[j]) is Some,
        output_name(all_told_apart(s)[i]) != output_name(all_told_apart(s)[j]),
{
    let out = all_told_apart(s);
    let a = output_name(s[i])->0;
    let b = output_name(s[j])->0;
    if is_repeated(s, i) {
        repeated_is_renamed(s, i);
    } else {
        first_columns_keep_names(s, i);
    }
    if is_repeated(s, j) {
        repeated_is_renamed(s, j);
        let done = items_told_apart(s, j as nat);
        told_apart_so_far(s, j as nat, i);
        told_apart_so_far(s, s.len(), i);
        assert(done[i] == out[i]);
        name_is_listed(done, done.len(), i);
    } else {
        first_columns_keep_names(s, j);
        if is_repeated(s, i) {
            name_is_listed(s, s.len(), j);
        } else if a == b {
            put_out_more_often(s, (i + 1) as nat, j as nat, a);
        }
    }
}

// --- common table expressions -------------------------------------------------------------------

/// The items of a select list that are not scalar subqueries stay as they are when those are
/// lifted.
pub proof fn other_columns_stay(items: Seq<Syntax>, s: Seq<ScalarView>, n: nat, i: int)
    requires
        n <= s.len(),
        forall|k: int| 0 <= k < s.len() ==> (#[trigger] s[k]).index < items.len(),
        0 <= i < items.len(),
        forall|k: int| 0 <= k < n ==> (#[trigger] s[k]).index != i,
    ensures
        lifted_items(items, s, n).len() == items.len(),
        lifted_items(items, s, n)[i] == items[i],
    decreases n,
{
    if n > 0 {
        other_columns_stay(items, s, (n - 1) as nat, i);
        assert(s[n - 1].index != i);
    }
}

pub(crate) proof fn scalars_are_in_order(items: Seq<Syntax>, n: nat, outer: Syntax)
    requires
        n <= items.len(),
    ensures
        forall|k: int|
            0 <= k < scalars(items, n, outer).len() ==> (#[trigger] scalars(
                items,
                n,
                outer,
            )[k]).index < n,
        forall|j: int, k: int|
            #![trigger scalars(items, n, outer)[j], scalars(items, n, outer)[k]]
            0 <= j < k < scalars(items, n, outer).len() ==> scalars(items, n, outer)[j].index
                < scalars(items, n, outer)[k].index,
        forall|i: int|
            0 <= i < n && scalar_item(i as nat, #[trigger] items[i], outer) is Some ==> exists|
                k: int,
            |
                0 <= k < scalars(items, n, outer).len() && (#[trigger] scalars(
                    items,
                    n,
                    outer,
                )[k]).index == i,
        forall|k: int|
            0 <= k < scalars(items, n, outer).len() ==> scalar_item(
                (#[trigger] scalars(items, n, outer)[k]).index,
                items[scalars(items, n, outer)[k].index as int],
                outer,
            ) == Some(scalars(items, n, outer)[k]),
    decreases n,
{
    if n > 0 {
        scalars_are_in_order(items, (n - 1) as nat, outer);
        let done = scalars(items, (n - 1) as nat, outer);
        let all = scalars(items, n, outer);
        assert forall|i: int|
            0 <= i < n && scalar_item(
                i as nat,
                #[trigger] items[i],
                outer,
            ) is Some implies exists|k: int|
            0 <= k < all.len() && (#[trigger] all[k]).index == i by {
            if i < n - 1 {
                let k = choose|k: int| 0 <= k < done.len() && (#[trigger] done[k]).index == i;
                assert(all[k] == done[k]);
            } else {
                assert(all[all.len() - 1].index == i);
            }
        }
    }
}

pub(crate) proof fn lifted_item(items: Seq<Syntax>, s: Seq<ScalarView>, n: nat, k: int)
    requires
        0 <= k < n <= s.len(),
        forall|j: int| 0 <= j < s.len() ==> (#[trigger] s[j]).index < items.len(),
        forall|i: int, j: int|
            #![trigger s[i], s[j]]
            0 <= i < j < s.len() ==> s[i].index < s[j].index,
    ensures
        lifted_items(items, s, n).len() == items.len(),
        lifted_items(items, s, n)[s[k].index as int] == value_item((k + 1) as nat, s[k]),
    decreases n,
{
    if n > 1 && k < n - 1 {
        lifted_item(items, s, (n - 1) as nat, k);
        assert(s[k].index < s[n - 1].index);
    } else {
        lifted_len(items, s, (n - 1) as nat);
    }
}

proof fn lifted_len(items: Seq<Syntax>, s: Seq<ScalarView>, n: nat)
    requires
        n <= s.len(),
        forall|j: int| 0 <= j < s.len() ==> (#[trigger] s[j]).index < items.len(),
    ensures
        lifted_items(items, s, n).len() == items.len(),
    decreases n,
{
    if n > 0 {
        lifted_len(items, s, (n - 1) as nat);
    }
}

proof fn value_item_is_no_scalar(k: nat, x: ScalarView, i: nat, outer: Syntax)
    ensures
        scalar_item(i, value_item(k, x), outer) is None,
{
    reveal_strlit("ExprWithAlias");
    reveal_strlit("UnnamedExpr");
    reveal_strlit("CompoundIdentifier");
    reveal_strlit("Subquery");
    assert("ExprWithAlias"@.len() != "UnnamedExpr"@.len());
    assert("CompoundIdentifier"@.len() != "Subquery"@.len());
    let e = column_at(seq![ident(cte_name(k)), ident("col"@)]);
    let a = value_item(k, x).payload("ExprWithAlias"@)->0;
    assert(a->Record_0[0] == ("expr"@, expr_node(e)));
    assert(a.at("expr"@) == expr_node(e));
}

/// After scalar subqueries have been lifted out of a select list, none over a plain `SELECT` is
/// left in it.
pub proof fn no_scalar_is_left(items: Seq<Syntax>, outer: Syntax, i: int)
    requires
        0 <= i < items.len(),
    ensures
        ({
            let s = scalars(items, items.len(), outer);
            let out = lifted_items(items, s, s.len());
            out.len() == items.len() && scalar_item(i as nat, out[i], outer) is None
        }),
{
    let s = scalars(items, items.len(), outer);
    scalars_are_in_order(items, items.len(), outer);
    if exists|k: int| 0 <= k < s.len() && (#[trigger] s[k]).index == i {
        let k = choose|k: int| 0 <= k < s.len() && (#[trigger] s[k]).index == i;
        lifted_item(items, s, s.len(), k);
        value_item_is_no_scalar((k + 1) as nat, s[k], i as nat, outer);
    } else {
        other_columns_stay(items, s, s.len(), i);
    }
}

} // verus!
