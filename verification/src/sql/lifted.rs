//! What holds of subqueries that have been lifted: into common table expressions, and into
//! functions.
use super::ast::{aliased_item, call, ident, ident_text, name1, negation, unnamed_item};
use super::casting::{argument_is, arguments, call_parts, called, is_unqualified, part_is_spelled};
use super::cte::{
    aggregates, column_at, grouped_by, groups_by, is_column_at, item_is_column, same_ident,
    same_path, selects_column, with_col, with_group_keys, with_keys, CorrView,
};
use super::lifting::{
    argument_number, column_args, columns_of, filled, function_name, leading_digits, numbered,
    place_from, subquery_of, transformed, FunctionView,
};
use super::meaning::{field_is_found, spelling};
use super::tree::{expr_node, variant, Syntax};
use crate::text::{decimal, decimal_is_read_back, spelled};
use vstd::prelude::*;

verus! {

// --- common table expressions --------------------------------------------------------------------

/// Whether an expression is the column that is spelled `path`.
pub open spec fn is_spelled(e: Syntax, path: Seq<Syntax>) -> bool {
    e.payload("CompoundIdentifier"@) matches Some(p) && spelling(p.items()) == spelling(path)
}

proof fn same_paths_are_spelled_alike(p: Seq<Syntax>, q: Seq<Syntax>)
    ensures
        same_path(p, q) <==> spelling(p) == spelling(q),
{
    if same_path(p, q) {
        assert(spelling(p) =~= spelling(q));
    }
    if spelling(p) == spelling(q) {
        assert(spelling(p).len() == p.len() && spelling(q).len() == q.len());
        assert forall|i: int| 0 <= i < p.len() implies same_ident(
            #[trigger] p[i],
            q[i],
        ) by {
            assert(spelling(p)[i] == spelling(q)[i]);
        }
    }
}

proof fn selected_columns_stay(items: Seq<Syntax>, preds: Seq<CorrView>, n: nat, j: int)
    requires
        0 <= j < n <= preds.len(),
    ensures
        ({
            let out = with_keys(items, preds, n);
            &&& selects_column(out, preds[j].inner)
            &&& out.len() >= items.len()
            &&& forall|i: int| 0 <= i < items.len() ==> out[i] == items[i]
        }),
    decreases n,
{
    let done = with_keys(items, preds, (n - 1) as nat);
    let out = with_keys(items, preds, n);
    if n > 1 {
        selected_columns_stay(items, preds, (n - 1) as nat, if j < n - 1 { j } else { 0 });
    }
    let p = preds[n - 1].inner;
    if !selects_column(done, p) {
        assert(out[done.len() as int] == unnamed_item(column_at(p)));
        let e = unnamed_item(column_at(p));
        assert(e.payload("UnnamedExpr"@) == Some(expr_node(column_at(p))));
        assert(column_at(p).payload("CompoundIdentifier"@) == Some(Syntax::List(p)));
        same_paths_are_spelled_alike(p, p);
        assert(item_is_column(out[done.len() as int], p));
    }
    if j < n - 1 {
        let i = choose|i: int|
            0 <= i < done.len() && item_is_column(#[trigger] done[i], preds[j].inner);
        assert(out[i] == done[i]);
    }
}

/// What is joined on is selected: each inner column of a comparison is one of the columns that the
/// lifted subquery selects, behind those that it selected before.
pub proof fn compared_columns_are_selected(items: Seq<Syntax>, preds: Seq<CorrView>, j: int) -> (i:
    int)
    requires
        0 <= j < preds.len(),
    ensures
        ({
            let out = with_keys(items, preds, preds.len());
            &&& 0 <= i < out.len()
            &&& out[i].payload("UnnamedExpr"@) is Some
            &&& is_spelled(out[i].payload("UnnamedExpr"@)->0.inner(), preds[j].inner)
            &&& out.len() >= items.len()
            &&& forall|k: int| 0 <= k < items.len() ==> out[k] == items[k]
        }),
{
    selected_columns_stay(items, preds, preds.len(), j);
    let out = with_keys(items, preds, preds.len());
    let i = choose|i: int| 0 <= i < out.len() && item_is_column(#[trigger] out[i], preds[j].inner);
    same_paths_are_spelled_alike(
        out[i].payload("UnnamedExpr"@)->0.inner().payload("CompoundIdentifier"@)->0.items(),
        preds[j].inner,
    );
    i
}

/// The value of a lifted subquery is its first column, under the name `col` if it had none; the
/// other columns stay.
pub proof fn first_column_is_the_value(items: Seq<Syntax>)
    requires
        items.len() > 0,
        items[0].payload("UnnamedExpr"@) is Some,
    ensures
        ({
            let out = with_col(items);
            let a = out[0].payload("ExprWithAlias"@);
            &&& out.len() == items.len()
            &&& a is Some
            &&& a->0.at("alias"@).at("value"@) == Syntax::Text("col"@)
            &&& a->0.at("expr"@).inner() == items[0].payload("UnnamedExpr"@)->0.inner()
            &&& forall|i: int| 0 < i < items.len() ==> out[i] == items[i]
        }),
{
    reveal_strlit("expr");
    reveal_strlit("alias");
    assert("expr"@.len() == 4);
    assert("alias"@.len() == 5);
    let e = items[0].payload("UnnamedExpr"@)->0.inner();
    let r = aliased_item(e, "col"@).payload("ExprWithAlias"@)->0;
    field_is_found(r->Record_0, 0);
    field_is_found(r->Record_0, 1);
    field_is_found(ident("col"@)->Record_0, 0);
}

proof fn group_keys_stay(exprs: Seq<Syntax>, preds: Seq<CorrView>, n: nat, j: int)
    requires
        0 <= j < n <= preds.len(),
    ensures
        ({
            let out = with_group_keys(exprs, preds, n);
            &&& groups_by(out, preds[j].inner)
            &&& out.len() >= exprs.len()
            &&& forall|i: int| 0 <= i < exprs.len() ==> out[i] == exprs[i]
        }),
    decreases n,
{
    let done = with_group_keys(exprs, preds, (n - 1) as nat);
    let out = with_group_keys(exprs, preds, n);
    if n > 1 {
        group_keys_stay(exprs, preds, (n - 1) as nat, if j < n - 1 { j } else { 0 });
    }
    let p = preds[n - 1].inner;
    if !groups_by(done, p) {
        assert(out[done.len() as int] == expr_node(column_at(p)));
        assert(column_at(p).payload("CompoundIdentifier"@) == Some(Syntax::List(p)));
        same_paths_are_spelled_alike(p, p);
        assert(is_column_at(out[done.len() as int], p));
    }
    if j < n - 1 {
        let i = choose|i: int|
            0 <= i < done.len() && is_column_at(#[trigger] done[i], preds[j].inner);
        assert(out[i] == done[i]);
    }
}

/// A lifted subquery that aggregates or groups its rows is grouped by every column that it is
/// joined
/// on, behind what it was grouped by; one that does not, and one that is not joined on any, is
/// grouped as it was.
pub proof fn aggregates_are_grouped_by_their_keys(select: Syntax, preds: Seq<CorrView>, j: int)
    requires
        select.at("group_by"@).payload("Expressions"@) is Some,
    ensures
        ({
            let old = select.at("group_by"@).payload("Expressions"@)->0.item(0).items();
            let new = grouped_by(select, preds).payload("Expressions"@)->0.item(0).items();
            let grouped = aggregates(select.at("projection"@)) || old.len() > 0;
            &&& grouped && 0 <= j < preds.len() ==> (exists|i: int|
                0 <= i < new.len() && is_spelled((#[trigger] new[i]).inner(), preds[j].inner))
                && new.len() >= old.len() && (forall|i: int|
                0 <= i < old.len() ==> new[i] == old[i])
            &&& !grouped || preds.len() == 0 ==> grouped_by(select, preds) == select.at("group_by"@)
        }),
{
    let e = select.at("group_by"@).payload("Expressions"@)->0;
    let old = e.item(0).items();
    if (aggregates(select.at("projection"@)) || old.len() > 0) && 0 <= j < preds.len() {
        group_keys_stay(old, preds, preds.len(), j);
        let new = with_group_keys(old, preds, preds.len());
        let list = Syntax::List(seq![Syntax::List(new), e.item(1)]);
        assert(grouped_by(select, preds).payload("Expressions"@) == Some(list));
        assert(list.item(0).items() == new);
        let i = choose|i: int|
            0 <= i < new.len() && is_column_at(#[trigger] new[i], preds[j].inner);
        same_paths_are_spelled_alike(
            new[i].inner().payload("CompoundIdentifier"@)->0.items(),
            preds[j].inner,
        );
        assert(is_spelled(new[i].inner(), preds[j].inner));
    }
}

// --- functions -----------------------------------------------------------------------------------

/// Whether `e` calls the function `name` with the columns, in order.
pub open spec fn calls_with(e: Syntax, name: Seq<char>, columns: Seq<Syntax>) -> bool {
    &&& is_unqualified(called(e), name)
    &&& arguments(e).len() == columns.len()
    &&& forall|i: int|
        0 <= i < columns.len() ==> argument_is(
            #[trigger] arguments(e)[i],
            variant("Identifier"@, columns[i]),
        )
}

/// A subquery that refers to columns becomes a call, with these columns, of one more function,
/// which
/// knows them in the same order; `NOT EXISTS` becomes one under `NOT`. Without columns nothing
/// changes.
pub proof fn subqueries_become_calls(functions: Seq<FunctionView>, e: Syntax)
    requires
        transformed(functions, e) is Ok,
    ensures
        ({
            let (fs, out) = transformed(functions, e)->Ok_0;
            let q = if e.payload("Subquery"@) is Some {
                e.payload("Subquery"@)->0
            } else {
                e.payload("Exists"@)->0.at("subquery"@)
            };
            let lifted = (e.payload("Subquery"@) is Some || e.payload("Exists"@) is Some)
                && columns_of(Seq::empty(), q).len() > 0;
            let negated = e.payload("Exists"@) is Some && e.payload("Exists"@)->0.at("negated"@)
                == Syntax::Bool(true);
            let f = fs.last();
            let under = out.payload("UnaryOp"@);
            &&& lifted ==> fs.len() == functions.len() + 1 && fs.drop_last() == functions
                && f.columns == columns_of(Seq::empty(), q)
            &&& lifted && !negated ==> calls_with(out, f.name, f.columns)
            &&& lifted && negated ==> under is Some && under->0.at("op"@) == Syntax::Text("Not"@)
                && calls_with(under->0.at("expr"@).inner(), f.name, f.columns)
            &&& !lifted ==> fs == functions && out == e
        }),
{
    reveal_strlit("Subquery");
    reveal_strlit("Exists");
    reveal_strlit("op");
    reveal_strlit("expr");
    assert("Subquery"@.len() == 8);
    assert("Exists"@.len() == 6);
    assert("op"@.len() == 2);
    assert("expr"@.len() == 4);
    if let Some((q, tested)) = subquery_of(e) {
        let columns = columns_of(Seq::empty(), q);
        let name = function_name(functions.len());
        let value = call(name1(name), column_args(columns));
        call_parts(name1(name), column_args(columns));
        part_is_spelled(name);
        assert(calls_with(value, name, columns));
        let under = negation(value).payload("UnaryOp"@)->0;
        field_is_found(under->Record_0, 0);
        field_is_found(under->Record_0, 1);
        if columns.len() > 0 {
            let f = transformed(functions, e)->Ok_0.0.last();
            assert(functions.push(f).drop_last() =~= functions);
        }
    }
}

/// The functions have names of their own: the number behind the name is how many there were before.
pub proof fn functions_are_numbered(n: nat)
    ensures
        spelled(function_name(n).skip(6)) == n,
        function_name(n).take(6) == "__subq"@,
{
    reveal_strlit("__subq");
    assert("__subq"@.len() == 6);
    decimal_is_read_back(n);
    assert(function_name(n).skip(6) =~= decimal(n));
    assert(function_name(n).take(6) =~= "__subq"@);
}

proof fn first_place(columns: Seq<Syntax>, name: Option<Seq<char>>, i: nat, n: nat)
    requires
        i <= n < columns.len(),
        ident_text(columns[n as int]) == name,
        forall|j: int| i <= j < n ==> ident_text(#[trigger] columns[j]) != name,
    ensures
        place_from(columns, name, i) == Some(n),
    decreases n - i,
{
    if i < n {
        first_place(columns, name, i + 1, n);
    }
}

/// A reference to a column becomes a placeholder with the number, from one on, of the first column
/// of
/// its name.
pub proof fn columns_become_placeholders(columns: Seq<Syntax>, e: Syntax, n: nat)
    requires
        e.payload("Identifier"@) is Some,
        n < columns.len(),
        ident_text(columns[n as int]) == ident_text(e.payload("Identifier"@)->0),
        forall|j: int|
            0 <= j < n ==> ident_text(#[trigger] columns[j]) != ident_text(
                e.payload("Identifier"@)->0,
            ),
    ensures
        ({
            let text = numbered(columns, e).payload("Identifier"@)->0.at("value"@)->Text_0;
            &&& numbered(columns, e).payload("Identifier"@) is Some
            &&& numbered(columns, e).payload("Identifier"@)->0.at("value"@) is Text
            &&& text[0] == '$'
            &&& spelled(text.skip(1)) == n + 1
        }),
{
    first_place(columns, ident_text(e.payload("Identifier"@)->0), 0, n);
    reveal_strlit("$");
    assert("$"@.len() == 1 && "$"@[0] == '$');
    decimal_is_read_back(n + 1);
    let text = "$"@ + decimal(n + 1);
    assert(text.skip(1) =~= decimal(n + 1));
    field_is_found(ident(text)->Record_0, 0);
}

proof fn digits_lead(digits: Seq<char>, rest: Seq<char>)
    requires
        forall|i: int| 0 <= i < digits.len() ==> '0' <= #[trigger] digits[i] <= '9',
        rest.len() > 0 ==> !('0' <= rest[0] <= '9'),
    ensures
        leading_digits(digits + rest) == digits.len(),
    decreases digits.len(),
{
    let s = digits + rest;
    if digits.len() == 0 {
        assert(s =~= rest);
    } else {
        assert(s[0] == digits[0]);
        assert(s.skip(1) =~= digits.skip(1) + rest);
        digits_lead(digits.skip(1), rest);
    }
}

proof fn argument_is_found(args: Seq<Seq<char>>, k: nat, n: nat)
    requires
        0 < k <= n <= args.len(),
    ensures
        argument_number(args, decimal(k), n) == Some(k),
    decreases n,
{
    decimal_is_read_back(k);
    decimal_is_read_back(n);
    if k < n {
        argument_is_found(args, k, (n - 1) as nat);
    }
}

/// A placeholder is filled with the argument of its number, counted from one, and what stands
/// before
/// and behind it stays.
pub proof fn placeholders_are_filled(
    before: Seq<char>,
    k: nat,
    rest: Seq<char>,
    args: Seq<Seq<char>>,
)
    requires
        !before.contains('$'),
        0 < k <= args.len(),
        rest.len() > 0 ==> !('0' <= rest[0] <= '9'),
    ensures
        filled(before + seq!['$'] + decimal(k) + rest, args) == before + args[k - 1] + filled(
            rest,
            args,
        ),
    decreases before.len(),
{
    let t = before + seq!['$'] + decimal(k) + rest;
    if before.len() == 0 {
        decimal_is_read_back(k);
        assert(t[0] == '$');
        assert(t.skip(1) =~= decimal(k) + rest);
        digits_lead(decimal(k), rest);
        let n = leading_digits(t.skip(1));
        assert(n == decimal(k).len());
        assert(t.skip(1).take(n as int) =~= decimal(k));
        argument_is_found(args, k, args.len());
        assert(t.skip((n + 1) as int) =~= rest);
        assert(before + args[k - 1] =~= args[k - 1]);
    } else {
        let front = before.skip(1);
        assert(before[0] != '$');
        assert forall|i: int| 0 <= i < front.len() implies front[i] != '$' by {
            assert(before[i + 1] == front[i]);
        }
        placeholders_are_filled(front, k, rest, args);
        assert(t[0] == before[0]);
        assert(t.skip(1) =~= front + seq!['$'] + decimal(k) + rest);
        assert(seq![before[0]] + front =~= before);
        assert(seq![before[0]] + (front + args[k - 1] + filled(rest, args)) =~= before + args[k - 1]
            + filled(rest, args));
    }
}

/// A template without placeholders stays.
pub proof fn other_templates_stay(template: Seq<char>, args: Seq<Seq<char>>)
    requires
        !template.contains('$'),
    ensures
        filled(template, args) == template,
    decreases template.len(),
{
    if template.len() > 0 {
        let rest = template.skip(1);
        assert(template[0] != '$');
        assert forall|i: int| 0 <= i < rest.len() implies rest[i] != '$' by {
            assert(template[i + 1] == rest[i]);
        }
        other_templates_stay(rest, args);
        assert(seq![template[0]] + rest =~= template);
    } else {
        assert(template =~= Seq::empty());
    }
}

} // verus!
