//! What becomes of a text whose columns were named afresh and then got their names back.
use super::ast::{aliased_item, empty_span, ident, nowhere};
use super::columns::{
    fresh_body, fresh_item, fresh_items, fresh_rule, fresh_statement, fresh_text, next_free,
    note_rule, restore_rule, restored_statement, spaced_text, taken_names,
};
use super::laws::{
    body_noted, fresh_body_keeps_on, fresh_body_stops, names_are_fresh, noted_in_more,
    noted_names_are_taken, pairs_kept, pairs_last, restoring_gives_body_back, set_field_is_read,
    titled_body,
};
use super::parse::{printed, statements_of, SqlDialect, SqlFault};
use super::tree::{at_is_smaller, expr_node, lookup, payload_is_smaller, replaced, variant, Syntax};
use super::walk::{
    nodes_in_fields, nodes_in_items, nodes_walked, start_view, ProgressView, Rule,
};
use crate::text::numbered;
use vstd::prelude::*;

verus! {

// --- statements that hold no others -------------------------------------------------------------

/// Whether there is no statement in `t`.
pub open spec fn without_statements(t: Syntax) -> bool
    decreases t, 0nat,
{
    match t {
        Syntax::List(s) => items_without(s, s.len()),
        Syntax::Record(s) => fields_without(s, s.len()),
        Syntax::Expr(b) => without_statements(*b),
        Syntax::Statement(_) => false,
        Syntax::Relation(b) => without_statements(*b),
        _ => true,
    }
}

/// Whether there is no statement in the first `n` items.
pub open spec fn items_without(s: Seq<Syntax>, n: nat) -> bool
    decreases s, n,
{
    if n == 0 || n > s.len() {
        true
    } else {
        items_without(s, (n - 1) as nat) && without_statements(s[n - 1])
    }
}

/// Whether there is no statement in the first `n` fields.
pub open spec fn fields_without(s: Seq<(Seq<char>, Syntax)>, n: nat) -> bool
    decreases s, n,
{
    if n == 0 || n > s.len() {
        true
    } else {
        proof {
            assert(decreases_to!(s => s[n - 1]));
            assert(decreases_to!(s[n - 1] => s[n - 1].1));
        }
        fields_without(s, (n - 1) as nat) && without_statements(s[n - 1].1)
    }
}

/// Whether `t` is a list of statements of which none holds another.
pub open spec fn are_flat(t: Syntax) -> bool {
    &&& t is List
    &&& forall|i: int|
        0 <= i < t.items().len() ==> (#[trigger] t.items()[i]) is Statement && without_statements(
            *t.items()[i]->Statement_0,
        )
}

proof fn each_item(s: Seq<Syntax>, n: nat)
    requires
        n <= s.len(),
    ensures
        items_without(s, n) <==> forall|i: int|
            0 <= i < n ==> without_statements(#[trigger] s[i]),
    decreases n,
{
    if n > 0 {
        each_item(s, (n - 1) as nat);
    }
}

proof fn each_field(s: Seq<(Seq<char>, Syntax)>, n: nat)
    requires
        n <= s.len(),
    ensures
        fields_without(s, n) <==> forall|i: int|
            0 <= i < n ==> without_statements((#[trigger] s[i]).1),
    decreases n,
{
    if n > 0 {
        each_field(s, (n - 1) as nat);
    }
}

proof fn found_field(s: Seq<(Seq<char>, Syntax)>, name: Seq<char>)
    requires
        forall|i: int| 0 <= i < s.len() ==> without_statements((#[trigger] s[i]).1),
    ensures
        lookup(s, name) is Some ==> without_statements(lookup(s, name)->0),
    decreases s.len(),
{
    if s.len() > 0 && s[0].0 != name {
        assert forall|i: int| 0 <= i < s.skip(1).len() implies without_statements(
            (#[trigger] s.skip(1)[i]).1,
        ) by {
            assert(s.skip(1)[i] == s[i + 1]);
        }
        found_field(s.skip(1), name);
    }
}

proof fn parts_hold_none(t: Syntax, name: Seq<char>)
    requires
        without_statements(t),
    ensures
        without_statements(t.at(name)),
        t.payload(name) is Some ==> without_statements(t.payload(name)->0),
        forall|i: int| 0 <= i < t.items().len() ==> without_statements(#[trigger] t.items()[i]),
        without_statements(t.inner()),
{
    if let Syntax::Record(s) = t {
        each_field(s, s.len());
        found_field(s, name);
    }
    if let Syntax::List(s) = t {
        each_item(s, s.len());
    }
}

proof fn set_field_holds_none(t: Syntax, name: Seq<char>, v: Syntax)
    requires
        without_statements(t),
        without_statements(v),
    ensures
        without_statements(t.with(name, v)),
{
    if let Syntax::Record(s) = t {
        each_field(s, s.len());
        let out = replaced(s, name, v);
        each_field(out, out.len());
    }
}

proof fn variant_holds_none(tag: Seq<char>, v: Syntax)
    requires
        without_statements(v),
    ensures
        without_statements(variant(tag, v)),
{
    let s = seq![(tag, v)];
    each_field(s, 1);
}

// --- walks over them ----------------------------------------------------------------------------

/// Whether a rule leaves everything but statements as it is.
spec fn is_of_statements(f: Rule) -> bool {
    forall|st: ProgressView, t: Syntax| !(t is Statement) ==> #[trigger] f(st, t) == (st, t)
}

proof fn items_stay(f: Rule, st: ProgressView, s: Seq<Syntax>, n: nat)
    requires
        is_of_statements(f),
        n <= s.len(),
        items_without(s, n),
    ensures
        nodes_in_items(f, st, s, n) == (st, s.take(n as int)),
    decreases s, n,
{
    if n > 0 {
        items_stay(f, st, s, (n - 1) as nat);
        parts_stay(f, st, s[n - 1]);
        assert(s.take(n - 1).push(s[n - 1]) =~= s.take(n as int));
    } else {
        assert(s.take(0) =~= Seq::empty());
    }
}

proof fn fields_stay(f: Rule, st: ProgressView, s: Seq<(Seq<char>, Syntax)>, n: nat)
    requires
        is_of_statements(f),
        n <= s.len(),
        fields_without(s, n),
    ensures
        nodes_in_fields(f, st, s, n) == (st, s.take(n as int)),
    decreases s, n,
{
    if n > 0 {
        assert(decreases_to!(s => s[n - 1]));
        assert(decreases_to!(s[n - 1] => s[n - 1].1));
        fields_stay(f, st, s, (n - 1) as nat);
        parts_stay(f, st, s[n - 1].1);
        assert(s.take(n - 1).push(s[n - 1]) =~= s.take(n as int));
    } else {
        assert(s.take(0) =~= Seq::empty());
    }
}

proof fn parts_stay(f: Rule, st: ProgressView, t: Syntax)
    requires
        is_of_statements(f),
        without_statements(t),
    ensures
        nodes_walked(f, st, t) == (st, t),
    decreases t, 0nat,
{
    match t {
        Syntax::List(s) => {
            items_stay(f, st, s, s.len());
            assert(s.take(s.len() as int) =~= s);
        },
        Syntax::Record(s) => {
            fields_stay(f, st, s, s.len());
            assert(s.take(s.len() as int) =~= s);
        },
        Syntax::Expr(b) => parts_stay(f, st, *b),
        Syntax::Relation(b) => parts_stay(f, st, *b),
        _ => {},
    }
}

/// The progress after a rule was applied to the first `n` statements, and what it made of them.
spec fn applied(f: Rule, st: ProgressView, s: Seq<Syntax>, n: nat) -> (ProgressView, Seq<Syntax>)
    decreases n,
{
    if n == 0 {
        (st, Seq::empty())
    } else {
        let (st1, done) = applied(f, st, s, (n - 1) as nat);
        let (st2, last) = f(st1, s[n - 1]);
        (st2, done.push(last))
    }
}

proof fn statements_are_walked(f: Rule, st: ProgressView, t: Syntax, n: nat)
    requires
        is_of_statements(f),
        are_flat(t),
        n <= t.items().len(),
    ensures
        nodes_in_items(f, st, t.items(), n) == applied(f, st, t.items(), n),
        applied(f, st, t.items(), n).1.len() == n,
    decreases n,
{
    if n > 0 {
        let s = t.items();
        statements_are_walked(f, st, t, (n - 1) as nat);
        assert(s[n - 1] is Statement);
        let st1 = applied(f, st, s, (n - 1) as nat).0;
        parts_stay(f, st1, *s[n - 1]->Statement_0);
        assert(nodes_walked(f, st1, s[n - 1]) == f(st1, s[n - 1]));
    }
}

// --- fresh names --------------------------------------------------------------------------------

proof fn ident_holds_none(name: Seq<char>)
    ensures
        without_statements(ident(name)),
{
    let place = nowhere();
    each_field(place->Record_0, place->Record_0.len());
    assert(without_statements(place));
    let span = empty_span();
    each_field(span->Record_0, span->Record_0.len());
    assert(without_statements(span));
    let id = ident(name);
    each_field(id->Record_0, id->Record_0.len());
}

proof fn fresh_items_hold_none(
    taken: Seq<(Seq<char>, Seq<char>)>,
    st: ProgressView,
    s: Seq<Syntax>,
    n: nat,
)
    requires
        n <= s.len(),
        forall|i: int| 0 <= i < s.len() ==> without_statements(#[trigger] s[i]),
    ensures
        without_statements(Syntax::List(fresh_items(taken, st, s, n).1)),
    decreases n,
{
    let out = fresh_items(taken, st, s, n).1;
    if n > 0 {
        fresh_items_hold_none(taken, st, s, (n - 1) as nat);
        let (st1, done) = fresh_items(taken, st, s, (n - 1) as nat);
        let item = s[n - 1];
        if let Some(e) = item.payload("UnnamedExpr"@) {
            parts_hold_none(item, "UnnamedExpr"@);
            parts_hold_none(e, ""@);
            let alias = numbered(
                "alias_"@,
                st1.advance(next_free(taken, st1.count)).count as nat,
            );
            let fields = Seq::empty().push(("expr"@, expr_node(e.inner()))).push(
                ("alias"@, ident(alias)),
            );
            ident_holds_none(alias);
            each_field(fields, 2);
            variant_holds_none("ExprWithAlias"@, Syntax::Record(fields));
            assert(without_statements(aliased_item(e.inner(), alias)));
        }
        assert(without_statements(fresh_item(taken, st1, item).1));
        each_item(done, done.len());
    }
    each_item(out, out.len());
}

proof fn fresh_body_holds_none(taken: Seq<(Seq<char>, Seq<char>)>, st: ProgressView, e: Syntax)
    requires
        without_statements(e),
    ensures
        without_statements(fresh_body(taken, st, e).1),
    decreases e,
{
    payload_is_smaller(e, "SetOperation"@);
    at_is_smaller(e.payload("SetOperation"@)->0, "left"@);
    at_is_smaller(e.payload("SetOperation"@)->0, "right"@);
    parts_hold_none(e, "Select"@);
    parts_hold_none(e, "SetOperation"@);
    if let Some(select) = e.payload("Select"@) {
        parts_hold_none(select, "projection"@);
        parts_hold_none(select.at("projection"@), ""@);
        let s = select.at("projection"@).items();
        fresh_items_hold_none(taken, st, s, s.len());
        let items = Syntax::List(fresh_items(taken, st, s, s.len()).1);
        set_field_holds_none(select, "projection"@, items);
        variant_holds_none("Select"@, select.with("projection"@, items));
    } else if let Some(op) = e.payload("SetOperation"@) {
        if op.at("left"@) != Syntax::Null && op.at("right"@) != Syntax::Null {
            parts_hold_none(op, "left"@);
            parts_hold_none(op, "right"@);
            fresh_body_holds_none(taken, st, op.at("left"@));
            let (st1, left) = fresh_body(taken, st, op.at("left"@));
            fresh_body_holds_none(taken, st1, op.at("right"@));
            let right = fresh_body(taken, st1, op.at("right"@)).1;
            set_field_holds_none(op, "left"@, left);
            set_field_holds_none(op.with("left"@, left), "right"@, right);
            variant_holds_none("SetOperation"@, op.with("left"@, left).with("right"@, right));
        }
    }
}

proof fn fresh_statements_are_flat(taken: Seq<(Seq<char>, Seq<char>)>, t: Syntax, n: nat)
    requires
        are_flat(t),
        n <= t.items().len(),
    ensures
        are_flat(Syntax::List(applied(fresh_rule(taken), start_view(), t.items(), n).1)),
    decreases n,
{
    if n > 0 {
        fresh_statements_are_flat(taken, t, (n - 1) as nat);
        let s = t.items();
        let (st1, done) = applied(fresh_rule(taken), start_view(), s, (n - 1) as nat);
        assert(s[n - 1] is Statement);
        let b = *s[n - 1]->Statement_0;
        if let Some(q) = b.payload("Query"@) {
            parts_hold_none(b, "Query"@);
            parts_hold_none(q, "body"@);
            fresh_body_holds_none(taken, st1, q.at("body"@));
            let body = fresh_body(taken, st1, q.at("body"@)).1;
            set_field_holds_none(q, "body"@, body);
            variant_holds_none("Query"@, q.with("body"@, body));
        }
        let out = applied(fresh_rule(taken), start_view(), s, n).1;
        assert forall|i: int| 0 <= i < out.len() implies (#[trigger] out[i]) is Statement
            && without_statements(*out[i]->Statement_0) by {
            if i < done.len() {
                assert(Syntax::List(done).items()[i] is Statement);
            }
        }
    }
}

/// Whether the aliases of a query statement are among the taken names.
spec fn statement_noted(taken: Seq<(Seq<char>, Seq<char>)>, t: Syntax) -> bool {
    match t {
        Syntax::Statement(b) => match b.payload("Query"@) {
            Some(q) => body_noted(taken, q.at("body"@)),
            None => true,
        },
        _ => true,
    }
}

proof fn statements_are_noted(s: Seq<Syntax>, n: nat)
    requires
        n <= s.len(),
    ensures
        forall|i: int|
            0 <= i < n ==> statement_noted(
                applied(note_rule(), start_view(), s, n).0.names,
                #[trigger] s[i],
            ),
    decreases n,
{
    if n > 0 {
        statements_are_noted(s, (n - 1) as nat);
        let st1 = applied(note_rule(), start_view(), s, (n - 1) as nat).0;
        let st2 = applied(note_rule(), start_view(), s, n).0;
        if let Syntax::Statement(b) = s[n - 1] {
            if let Some(q) = b.payload("Query"@) {
                noted_names_are_taken(st1, q.at("body"@));
            }
        }
        assert(pairs_kept(st1.names, st2.names));
        assert forall|i: int| 0 <= i < n implies statement_noted(st2.names, #[trigger] s[i]) by {
            if i < n - 1 {
                assert(statement_noted(st1.names, s[i]));
                if let Syntax::Statement(b) = s[i] {
                    if let Some(q) = b.payload("Query"@) {
                        noted_in_more(st1.names, st2.names, q.at("body"@));
                    }
                }
            }
        }
    }
}

proof fn names_stay_fresh(taken: Seq<(Seq<char>, Seq<char>)>, s: Seq<Syntax>, n: nat)
    requires
        n <= s.len(),
        applied(fresh_rule(taken), start_view(), s, n).0.fault is None,
        applied(fresh_rule(taken), start_view(), s, n).0.count < u64::MAX,
    ensures
        names_are_fresh(taken, applied(fresh_rule(taken), start_view(), s, n).0),
        n > 0 ==> ({
            let st1 = applied(fresh_rule(taken), start_view(), s, (n - 1) as nat).0;
            let st2 = applied(fresh_rule(taken), start_view(), s, n).0;
            &&& st1.fault is None
            &&& st1.count < u64::MAX
            &&& names_are_fresh(taken, st1)
            &&& pairs_last(st1.names, st2.names)
        }),
    decreases n,
{
    if n > 0 {
        let st1 = applied(fresh_rule(taken), start_view(), s, (n - 1) as nat).0;
        let st2 = applied(fresh_rule(taken), start_view(), s, n).0;
        assert(st2 == fresh_statement(taken, st1, s[n - 1]).0);
        if let Syntax::Statement(b) = s[n - 1] {
            if let Some(q) = b.payload("Query"@) {
                fresh_body_stops(taken, st1, q.at("body"@));
            }
        }
        names_stay_fresh(taken, s, (n - 1) as nat);
        if let Syntax::Statement(b) = s[n - 1] {
            if let Some(q) = b.payload("Query"@) {
                fresh_body_keeps_on(taken, st1, q.at("body"@));
            }
        }
    }
}

// --- the names back -----------------------------------------------------------------------------

/// A query statement under the names that a client sees; any other as it is.
pub open spec fn titled_statement(t: Syntax) -> Syntax {
    match t {
        Syntax::Statement(s) => match s.payload("Query"@) {
            Some(q) => Syntax::Statement(
                Box::new(variant("Query"@, q.with("body"@, titled_body(q.at("body"@))))),
            ),
            None => t,
        },
        _ => t,
    }
}

/// Statements under the names that a client sees.
pub open spec fn titled_statements(s: Seq<Syntax>) -> Seq<Syntax> {
    Seq::new(s.len(), |i: int| titled_statement(s[i]))
}

proof fn statement_is_given_back(
    taken: Seq<(Seq<char>, Seq<char>)>,
    st: ProgressView,
    t: Syntax,
    end: ProgressView,
)
    requires
        names_are_fresh(taken, st),
        statement_noted(taken, t),
        fresh_statement(taken, st, t).0.fault is None,
        fresh_statement(taken, st, t).0.count < u64::MAX,
        names_are_fresh(taken, end),
        pairs_last(fresh_statement(taken, st, t).0.names, end.names),
    ensures
        restored_statement(end.names, fresh_statement(taken, st, t).1) == titled_statement(t),
{
    if let Syntax::Statement(b) = t {
        if let Some(q) = b.payload("Query"@) {
            let body = fresh_body(taken, st, q.at("body"@)).1;
            restoring_gives_body_back(taken, st, q.at("body"@), end);
            set_field_is_read(q, "body"@, body);
            let q1 = q.with("body"@, body);
            assert(variant("Query"@, q1).payload("Query"@) == Some(q1));
            assert(q1.at("body"@) == body);
        }
    }
}

proof fn statements_are_given_back(
    taken: Seq<(Seq<char>, Seq<char>)>,
    s: Seq<Syntax>,
    n: nat,
    end: ProgressView,
)
    requires
        n <= s.len(),
        forall|i: int| 0 <= i < s.len() ==> statement_noted(taken, #[trigger] s[i]),
        applied(fresh_rule(taken), start_view(), s, n).0.fault is None,
        applied(fresh_rule(taken), start_view(), s, n).0.count < u64::MAX,
        names_are_fresh(taken, end),
        pairs_last(applied(fresh_rule(taken), start_view(), s, n).0.names, end.names),
    ensures
        applied(fresh_rule(taken), start_view(), s, n).1.len() == n,
        forall|i: int|
            0 <= i < n ==> restored_statement(
                end.names,
                #[trigger] applied(fresh_rule(taken), start_view(), s, n).1[i],
            ) == titled_statement(s[i]),
    decreases n,
{
    if n > 0 {
        names_stay_fresh(taken, s, n);
        let (st1, done) = applied(fresh_rule(taken), start_view(), s, (n - 1) as nat);
        statements_are_given_back(taken, s, (n - 1) as nat, end);
        statement_is_given_back(taken, st1, s[n - 1], end);
    }
}

proof fn restored_one_by_one(names: Seq<(Seq<char>, Seq<char>)>, s: Seq<Syntax>, n: nat)
    requires
        n <= s.len(),
    ensures
        applied(restore_rule(names), start_view(), s, n).1.len() == n,
        forall|i: int|
            0 <= i < n ==> #[trigger] applied(restore_rule(names), start_view(), s, n).1[i]
                == restored_statement(names, s[i]),
    decreases n,
{
    if n > 0 {
        restored_one_by_one(names, s, (n - 1) as nat);
    }
}

/// Whether the text of some statements is read as these statements.
pub open spec fn is_read_back(t: Syntax) -> bool {
    printed(t, " "@) matches Ok(text) ==> statements_of(SqlDialect::Postgres, text) == Ok::<
        Syntax,
        SqlFault,
    >(t)
}

/// A text whose columns were named afresh, and which then got their names back, is the text of
/// its statements under the names that a client sees: a column without a name has the name that
/// it has in a result, and every other column is as it was. This holds of statements that hold
/// no others, where the text under the fresh names is read as it was written, and as long as
/// numbers do not run out.
pub proof fn names_are_put_back_in_the_text(
    sql: Seq<char>,
    text: Seq<char>,
    names: Seq<(Seq<char>, Seq<char>)>,
)
    requires
        fresh_text(sql) == Ok::<(Seq<char>, Seq<(Seq<char>, Seq<char>)>), SqlFault>((text, names)),
        ({
            let t = statements_of(SqlDialect::Postgres, sql)->Ok_0;
            let (st, fresh) = nodes_walked(fresh_rule(taken_names(t)), start_view(), t);
            are_flat(t) && is_read_back(fresh) && st.count < u64::MAX
        }),
    ensures
        ({
            let t = statements_of(SqlDialect::Postgres, sql)->Ok_0;
            spaced_text(restore_rule(names), text) == printed(
                Syntax::List(titled_statements(t.items())),
                " "@,
            )
        }),
{
    let t = statements_of(SqlDialect::Postgres, sql)->Ok_0;
    let s = t.items();
    let n = s.len();
    let taken = taken_names(t);
    assert(is_of_statements(note_rule()));
    assert(is_of_statements(fresh_rule(taken)));
    assert(is_of_statements(restore_rule(names)));
    statements_are_walked(note_rule(), start_view(), t, n);
    statements_are_walked(fresh_rule(taken), start_view(), t, n);
    statements_are_noted(s, n);
    let (end, out) = applied(fresh_rule(taken), start_view(), s, n);
    let fresh = Syntax::List(out);
    assert(nodes_walked(fresh_rule(taken), start_view(), t) == (end, fresh));
    names_stay_fresh(taken, s, n);
    statements_are_given_back(taken, s, n, end);
    fresh_statements_are_flat(taken, t, n);
    statements_are_walked(restore_rule(names), start_view(), fresh, n);
    restored_one_by_one(names, out, n);
    assert(applied(restore_rule(names), start_view(), out, n).1 =~= titled_statements(s));
}

} // verus!
