//! Correlated subqueries as functions of the columns that they refer to.
use super::ast::{
    call, column, get_ident_text, ident_text, mk_call, mk_column, mk_name1, mk_negation,
    mk_unnamed_arg, mk_unnamed_item, name1, negation, unnamed_arg, unnamed_item,
};
use super::parse::{outcome, parse, print, printed, statements_of, SqlDialect, SqlError, SqlFault};
use super::tree::{
    expr_node, field_is_smaller, fields_of, item_is_smaller, list_of, list_view, no_items,
    push_item, record_view, variant, Syntax, Tree,
};
use super::walk::{start, start_view, walk, walked, Pass, Progress, ProgressView, Rule};
use crate::text::{chars, decimal, decimal_text, same, slice_text, views};
use vstd::prelude::*;

verus! {

// --- columns ----------------------------------------------------------------------------------

/// The identifier of a reference to a column without a qualifier.
pub open spec fn bare_column(e: Syntax) -> Option<Syntax> {
    match e.payload("Identifier"@) {
        Some(id) => Some(id),
        None => match e.payload("CompoundIdentifier"@) {
            Some(parts) => if parts.items().len() == 1 {
                Some(parts.items()[0])
            } else {
                None
            },
            None => None,
        },
    }
}

fn get_bare_column(e: &Tree) -> (r: Option<&Tree>)
    ensures
        match r {
            Some(id) => bare_column(e@) == Some(id@),
            None => bare_column(e@) is None,
        },
{
    match e.payload("Identifier") {
        Some(id) => Some(id),
        None => match e.payload("CompoundIdentifier") {
            Some(parts) => if parts.len() == 1 {
                Some(parts.item(0))
            } else {
                None
            },
            None => None,
        },
    }
}

/// Where the identifier with the text `name` first stands in `columns`, at or after `i`.
pub open spec fn place_from(columns: Seq<Syntax>, name: Option<Seq<char>>, i: nat) -> Option<nat>
    decreases columns.len() - i,
{
    if i >= columns.len() {
        None
    } else if ident_text(columns[i as int]) == name {
        Some(i)
    } else {
        place_from(columns, name, i + 1)
    }
}

fn same_name(a: Option<&String>, b: Option<&String>) -> (r: bool)
    ensures
        r == (match (a, b) {
            (Some(x), Some(y)) => x@ == y@,
            (None, None) => true,
            _ => false,
        }),
{
    match (a, b) {
        (Some(x), Some(y)) => same(x.as_str(), y.as_str()),
        (None, None) => true,
        _ => false,
    }
}

fn find_place(columns: &Vec<Tree>, id: &Tree) -> (r: Option<usize>)
    ensures
        match r {
            Some(i) => place_from(list_of(columns@), ident_text(id@), 0) == Some(i as nat) && i
                < columns@.len(),
            None => place_from(list_of(columns@), ident_text(id@), 0) is None,
        },
{
    let ghost all = list_of(columns@);
    let mut i: usize = 0;
    while i < columns.len()
        invariant
            i <= columns@.len(),
            all == list_of(columns@),
            place_from(all, ident_text(id@), 0) == place_from(all, ident_text(id@), i as nat),
        decreases columns@.len() - i,
    {
        assert(all[i as int] == columns@[i as int]@);
        if same_name(get_ident_text(&columns[i]), get_ident_text(id)) {
            return Some(i);
        }
        i = i + 1;
    }
    None
}

/// The identifiers with `id` behind them, if they have none of its text.
pub open spec fn with_column(columns: Seq<Syntax>, id: Syntax) -> Seq<Syntax> {
    if place_from(columns, ident_text(id), 0) is Some {
        columns
    } else {
        columns.push(id)
    }
}

/// The columns of the first `n` items, behind those in `found`.
pub open spec fn columns_of_items(found: Seq<Syntax>, s: Seq<Syntax>, n: nat) -> Seq<Syntax>
    decreases s, n,
{
    if n == 0 || n > s.len() {
        found
    } else {
        columns_of(columns_of_items(found, s, (n - 1) as nat), s[n - 1])
    }
}

/// The columns of the first `n` fields, behind those in `found`.
pub open spec fn columns_of_fields(found: Seq<Syntax>, s: Seq<(Seq<char>, Syntax)>, n: nat) -> Seq<
    Syntax,
>
    decreases s, n,
{
    if n == 0 || n > s.len() {
        found
    } else {
        columns_of(columns_of_fields(found, s, (n - 1) as nat), s[n - 1].1)
    }
}

/// The columns that the expressions of a tree refer to without a qualifier, behind those in
/// `found`: one of each name, in the order of the text.
pub open spec fn columns_of(found: Seq<Syntax>, t: Syntax) -> Seq<Syntax>
    decreases t, 0nat,
{
    match t {
        Syntax::List(s) => columns_of_items(found, s, s.len()),
        Syntax::Record(s) => columns_of_fields(found, s, s.len()),
        Syntax::Expr(b) => match bare_column(*b) {
            Some(id) => with_column(columns_of(found, *b), id),
            None => columns_of(found, *b),
        },
        Syntax::Statement(b) => columns_of(found, *b),
        Syntax::Relation(b) => columns_of(found, *b),
        _ => found,
    }
}

fn collect_columns(t: &Tree, found: &mut Vec<Tree>)
    ensures
        list_of(final(found)@) == columns_of(list_of(old(found)@), t@),
    decreases t,
{
    let ghost before = list_of(found@);
    match t {
        Tree::List(v) => {
            proof {
                list_view(*v);
            }
            let mut i: usize = 0;
            while i < v.len()
                invariant
                    i <= v@.len(),
                    *t == Tree::List(*v),
                    list_of(found@) == columns_of_items(before, list_of(v@), i as nat),
                decreases v@.len() - i,
            {
                proof {
                    item_is_smaller(*t, i as int);
                }
                collect_columns(&v[i], found);
                i = i + 1;
            }
        },
        Tree::Record(v) => {
            proof {
                record_view(*v);
            }
            let mut i: usize = 0;
            while i < v.len()
                invariant
                    i <= v@.len(),
                    *t == Tree::Record(*v),
                    list_of(found@) == columns_of_fields(before, fields_of(v@), i as nat),
                decreases v@.len() - i,
            {
                proof {
                    field_is_smaller(*t, i as int);
                }
                collect_columns(&v[i].value, found);
                i = i + 1;
            }
        },
        Tree::Expr(b) => {
            collect_columns(b, found);
            if let Some(id) = get_bare_column(b) {
                if find_place(found, id).is_none() {
                    push_item(found, id.copy());
                }
            }
        },
        Tree::Statement(b) => collect_columns(b, found),
        Tree::Relation(b) => collect_columns(b, found),
        _ => {},
    }
}

/// The placeholder for the column number `i`, counted from 0.
pub open spec fn placeholder(i: nat) -> Syntax {
    column("$"@ + decimal(i + 1))
}

/// A reference to one of `columns` as its placeholder.
pub open spec fn numbered(columns: Seq<Syntax>, e: Syntax) -> Syntax {
    match bare_column(e) {
        Some(id) => match place_from(columns, ident_text(id), 0) {
            Some(i) => placeholder(i),
            None => e,
        },
        None => e,
    }
}

pub open spec fn numbering_rule(columns: Seq<Syntax>) -> Rule {
    |st: ProgressView, e: Syntax| (st, numbered(columns, e))
}

struct Numbering<'a> {
    columns: &'a Vec<Tree>,
}

impl<'a> Pass for Numbering<'a> {
    closed spec fn rule(&self) -> Rule {
        numbering_rule(list_of(self.columns@))
    }

    fn apply(&self, st: &mut Progress, e: Tree) -> (r: Tree) {
        if let Some(id) = get_bare_column(&e) {
            if let Some(i) = find_place(self.columns, id) {
                let n: usize = self.columns.len();
                assert(i < n);
                let mut name = "$".to_owned();
                name.append(decimal_text((i + 1) as u64).as_str());
                return mk_column(name.as_str());
            }
        }
        e
    }
}

/// The columns that a query refers to without a qualifier, and the query with the placeholder
/// `$n` in place of each reference to the `n`th of them.
pub fn find_correlated_columns(q: &Tree) -> (r: (Vec<Tree>, Tree))
    ensures
        list_of(r.0@) == columns_of(Seq::empty(), q@),
        r.1@ == walked(numbering_rule(list_of(r.0@)), start_view(), q@).1,
{
    let mut columns = no_items();
    collect_columns(q, &mut columns);
    let mut st = start();
    let out = walk(&Numbering { columns: &columns }, &mut st, q);
    (columns, out)
}

// --- functions --------------------------------------------------------------------------------

/// The arguments that hand `columns` over.
pub open spec fn column_args(columns: Seq<Syntax>) -> Seq<Syntax> {
    Seq::new(columns.len(), |i: int| unnamed_arg(variant("Identifier"@, columns[i])))
}

/// The call of the function `name` on `columns`.
pub fn replace_with_fn_call(name: &str, columns: &Vec<Tree>) -> (r: Tree)
    ensures
        r@ == call(name1(name@), column_args(list_of(columns@))),
{
    let ghost all = column_args(list_of(columns@));
    let mut args = no_items();
    let mut i: usize = 0;
    while i < columns.len()
        invariant
            i <= columns@.len(),
            all == column_args(list_of(columns@)),
            list_of(args@) == all.take(i as int),
        decreases columns@.len() - i,
    {
        push_item(&mut args, mk_unnamed_arg(Tree::variant("Identifier", columns[i].copy())));
        i = i + 1;
        assert(all.take(i as int) =~= all.take(i - 1).push(all[i - 1]));
    }
    assert(all.take(i as int) =~= all);
    mk_call(mk_name1(name), Tree::list(args))
}

/// A function that stands for a correlated subquery.
#[derive(Debug)]
pub struct SubqueryFunction {
    pub name: String,
    /// The query that computes its value, with the placeholders `$1`, `$2` and so on for its
    /// arguments.
    pub template: String,
    pub columns: Vec<Tree>,
}

/// What a [`SubqueryFunction`] says.
pub struct FunctionView {
    pub name: Seq<char>,
    pub template: Seq<char>,
    pub columns: Seq<Syntax>,
}

impl View for SubqueryFunction {
    type V = FunctionView;

    open spec fn view(&self) -> FunctionView {
        FunctionView {
            name: self.name@,
            template: self.template@,
            columns: list_of(self.columns@),
        }
    }
}

pub open spec fn functions_view(v: Seq<SubqueryFunction>) -> Seq<FunctionView> {
    Seq::new(v.len(), |i: int| v[i]@)
}

/// The name of the `n`th function.
pub open spec fn function_name(n: nat) -> Seq<char> {
    "__subq"@ + decimal(n)
}

/// The subquery of an expression, and whether only its having rows matters.
pub open spec fn subquery_of(e: Syntax) -> Option<(Syntax, bool)> {
    match e.payload("Subquery"@) {
        Some(q) => Some((q, false)),
        None => match e.payload("Exists"@) {
            Some(x) => Some((x.at("subquery"@), true)),
            None => None,
        },
    }
}

fn get_subquery(e: &Tree) -> (r: Option<(&Tree, bool)>)
    ensures
        match r {
            Some((q, tested)) => subquery_of(e@) == Some((q@, tested)),
            None => subquery_of(e@) is None,
        },
{
    match e.payload("Subquery") {
        Some(q) => Some((q, false)),
        None => match e.payload("Exists") {
            Some(x) => Some((x.at("subquery"), true)),
            None => None,
        },
    }
}

/// The text of a query.
pub open spec fn query_text(q: Syntax) -> Result<Seq<char>, SqlFault> {
    printed(Syntax::List(seq![Syntax::Statement(Box::new(variant("Query"@, q)))]), ""@)
}

/// The query that computes a subquery's value.
pub open spec fn template_of(q: Syntax, tested: bool) -> Result<Seq<char>, SqlFault> {
    match query_text(q) {
        Ok(text) => Ok(
            if tested {
                "SELECT EXISTS ("@ + text + ")"@
            } else {
                text
            },
        ),
        Err(e) => Err(e),
    }
}

fn template_text(q: Tree, tested: bool) -> (r: Result<String, SqlError>)
    ensures
        outcome(r) == template_of(q@, tested),
{
    let statement = Tree::Statement(Box::new(Tree::variant("Query", q)));
    match print(&Tree::list1(statement), "") {
        Ok(text) => if tested {
            let mut out = "SELECT EXISTS (".to_owned();
            out.append(text.as_str());
            out.append(")");
            Ok(out)
        } else {
            Ok(text)
        },
        Err(e) => Err(e),
    }
}

/// Whether an expression is `NOT EXISTS (..)`.
pub open spec fn is_negated(e: Syntax) -> bool {
    match e.payload("Exists"@) {
        Some(x) => x.at("negated"@) == Syntax::Bool(true),
        None => false,
    }
}

fn has_negation(e: &Tree) -> (r: bool)
    ensures
        r == is_negated(e@),
{
    match e.payload("Exists") {
        Some(x) => match x.at("negated") {
            Tree::Bool(b) => *b,
            _ => false,
        },
        None => false,
    }
}

/// The call that stands for the subquery of `e`: under `NOT` for `NOT EXISTS`.
pub open spec fn call_in_place(e: Syntax, name: Seq<char>, columns: Seq<Syntax>) -> Syntax {
    let value = call(name1(name), column_args(columns));
    if is_negated(e) {
        negation(value)
    } else {
        value
    }
}

/// An expression with the functions that it is transformed by so far: a subquery that refers
/// to columns becomes the call of one more function.
pub open spec fn transformed(functions: Seq<FunctionView>, e: Syntax) -> Result<
    (Seq<FunctionView>, Syntax),
    SqlFault,
> {
    match subquery_of(e) {
        Some((q, tested)) => {
            let columns = columns_of(Seq::empty(), q);
            let name = function_name(functions.len());
            if columns.len() == 0 {
                Ok((functions, e))
            } else {
                match template_of(walked(numbering_rule(columns), start_view(), q).1, tested) {
                    Ok(template) => Ok(
                        (
                            functions.push(FunctionView { name, template, columns }),
                            call_in_place(e, name, columns),
                        ),
                    ),
                    Err(e) => Err(e),
                }
            }
        },
        None => Ok((functions, e)),
    }
}

/// What the result of a transformation says.
pub open spec fn transformation(functions: Seq<FunctionView>, r: Result<Tree, SqlError>) -> Result<
    (Seq<FunctionView>, Syntax),
    SqlFault,
> {
    match r {
        Ok(t) => Ok((functions, t@)),
        Err(e) => Err(e@),
    }
}

/// The expression `e` with a correlated subquery made the call of a function, which is put
/// behind `functions`.
pub fn transform_expr(e: &Tree, functions: &mut Vec<SubqueryFunction>) -> (r: Result<
    Tree,
    SqlError,
>)
    ensures
        transformation(functions_view(final(functions)@), r) == transformed(
            functions_view(old(functions)@),
            e@,
        ),
{
    let ghost before = functions_view(functions@);
    if let Some((q, tested)) = get_subquery(e) {
        let (columns, out) = find_correlated_columns(q);
        if columns.len() > 0 {
            let mut name = "__subq".to_owned();
            name.append(decimal_text(functions.len() as u64).as_str());
            return match template_text(out, tested) {
                Ok(template) => {
                    let value = replace_with_fn_call(name.as_str(), &columns);
                    let replacement = if has_negation(e) {
                        mk_negation(value)
                    } else {
                        value
                    };
                    let function = SubqueryFunction { name, template, columns };
                    let ghost shown = function@;
                    functions.push(function);
                    assert(functions_view(functions@) =~= before.push(shown));
                    Ok(replacement)
                },
                Err(e) => Err(e),
            };
        }
        assert(list_of(columns@).len() == 0);
    }
    Ok(e.copy())
}

/// The first `n` select items, transformed.
pub open spec fn items_transformed(
    functions: Seq<FunctionView>,
    items: Seq<Syntax>,
    n: nat,
) -> Result<(Seq<FunctionView>, Seq<Syntax>), SqlFault>
    decreases n,
{
    if n == 0 || n > items.len() {
        Ok((functions, Seq::empty()))
    } else {
        match items_transformed(functions, items, (n - 1) as nat) {
            Ok((fs, done)) => match items[n - 1].payload("UnnamedExpr"@) {
                Some(e) => match transformed(fs, e.inner()) {
                    Ok((gs, t)) => Ok((gs, done.push(unnamed_item(t)))),
                    Err(e) => Err(e),
                },
                None => Ok((fs, done.push(items[n - 1]))),
            },
            Err(e) => Err(e),
        }
    }
}

/// The condition of a `SELECT`, transformed.
pub open spec fn condition_transformed(functions: Seq<FunctionView>, condition: Syntax) -> Result<
    (Seq<FunctionView>, Syntax),
    SqlFault,
> {
    if condition == Syntax::Null {
        Ok((functions, condition))
    } else {
        match transformed(functions, condition.inner()) {
            Ok((fs, t)) => Ok((fs, expr_node(t))),
            Err(e) => Err(e),
        }
    }
}

/// The body of a query, transformed: where it is a `SELECT`, the expressions that it selects
/// without a name, and its condition.
pub open spec fn body_transformed(functions: Seq<FunctionView>, body: Syntax) -> Result<
    (Seq<FunctionView>, Syntax),
    SqlFault,
> {
    match body.payload("Select"@) {
        Some(s) => {
            let items = s.at("projection"@).items();
            match items_transformed(functions, items, items.len()) {
                Ok((fs, done)) => match condition_transformed(fs, s.at("selection"@)) {
                    Ok((gs, condition)) => Ok(
                        (
                            gs,
                            variant(
                                "Select"@,
                                s.with("projection"@, Syntax::List(done)).with(
                                    "selection"@,
                                    condition,
                                ),
                            ),
                        ),
                    ),
                    Err(e) => Err(e),
                },
                Err(e) => Err(e),
            }
        },
        None => Ok((functions, body)),
    }
}

proof fn items_fail_on(functions: Seq<FunctionView>, items: Seq<Syntax>, i: nat, n: nat)
    requires
        i <= n <= items.len(),
        items_transformed(functions, items, i) is Err,
    ensures
        items_transformed(functions, items, n) == items_transformed(functions, items, i),
    decreases n,
{
    if i < n {
        items_fail_on(functions, items, i, (n - 1) as nat);
    }
}

/// The body of a query with the correlated subqueries in it made calls of functions, which are
/// put behind `functions`.
pub fn transform_setexpr(body: &Tree, functions: &mut Vec<SubqueryFunction>) -> (r: Result<
    Tree,
    SqlError,
>)
    ensures
        match r {
            Ok(t) => body_transformed(functions_view(old(functions)@), body@) == Ok::<
                (Seq<FunctionView>, Syntax),
                SqlFault,
            >((functions_view(final(functions)@), t@)),
            Err(e) => body_transformed(functions_view(old(functions)@), body@) == Err::<
                (Seq<FunctionView>, Syntax),
                SqlFault,
            >(e@),
        },
{
    let ghost before = functions_view(functions@);
    let s = match body.payload("Select") {
        Some(s) => s,
        None => return Ok(body.copy()),
    };
    let projection = s.at("projection");
    let ghost items = projection@.items();
    let n: usize = projection.len();
    let mut done = no_items();
    let mut i: usize = 0;
    while i < n
        invariant
            i <= n,
            n == items.len(),
            items == projection@.items(),
            body@.payload("Select"@) == Some(s@),
            items == s@.at("projection"@).items(),
            before == functions_view(old(functions)@),
            items_transformed(before, items, i as nat) == Ok::<
                (Seq<FunctionView>, Seq<Syntax>),
                SqlFault,
            >((functions_view(functions@), list_of(done@))),
        decreases n - i,
    {
        let item = projection.item(i);
        match item.payload("UnnamedExpr") {
            Some(e) => match transform_expr(e.inner(), functions) {
                Ok(t) => push_item(&mut done, mk_unnamed_item(t)),
                Err(e) => {
                    proof {
                        assert(items_transformed(before, items, (i + 1) as nat) is Err);
                        items_fail_on(before, items, (i + 1) as nat, n as nat);
                    }
                    return Err(e);
                },
            },
            None => push_item(&mut done, item.copy()),
        }
        i = i + 1;
    }
    let condition = s.at("selection");
    let selection = if condition.is_null() {
        Tree::Null
    } else {
        match transform_expr(condition.inner(), functions) {
            Ok(t) => Tree::expr(t),
            Err(e) => return Err(e),
        }
    };
    Ok(
        Tree::variant(
            "Select",
            s.with("projection", Tree::list(done)).with("selection", selection),
        ),
    )
}

// --- templates --------------------------------------------------------------------------------

/// How many digits stand at the beginning of `s`.
pub open spec fn leading_digits(s: Seq<char>) -> nat
    decreases s.len(),
{
    if s.len() == 0 || !('0' <= s[0] <= '9') {
        0
    } else {
        1 + leading_digits(s.skip(1))
    }
}

/// The number of the argument that is written with `digits`, if it is the number of one of `args`.
pub open spec fn argument_number(args: Seq<Seq<char>>, digits: Seq<char>, n: nat) -> Option<nat>
    decreases n,
{
    if n == 0 || n > args.len() {
        None
    } else if digits == decimal(n) {
        Some(n)
    } else {
        argument_number(args, digits, (n - 1) as nat)
    }
}

/// A template with its arguments in place of its placeholders: the text of the first for `$1`, of
/// the second for `$2` and so on. A number without an argument stays.
pub open spec fn filled(template: Seq<char>, args: Seq<Seq<char>>) -> Seq<char>
    decreases template.len(),
{
    if template.len() == 0 {
        Seq::empty()
    } else {
        let n = leading_digits(template.skip(1));
        match argument_number(args, template.skip(1).take(n as int), args.len()) {
            Some(k) => if template[0] == '$' && n < template.len() {
                args[k - 1] + filled(template.skip((n + 1) as int), args)
            } else {
                seq![template[0]] + filled(template.skip(1), args)
            },
            None => seq![template[0]] + filled(template.skip(1), args),
        }
    }
}

fn count_digits(v: &Vec<char>, from: usize) -> (n: usize)
    requires
        from <= v@.len(),
    ensures
        n == leading_digits(v@.skip(from as int)),
        from + n <= v@.len(),
{
    let length: usize = v.len();
    let mut n: usize = 0;
    while n < length - from && '0' <= v[from + n] && v[from + n] <= '9'
        invariant
            from + n <= length,
            length == v@.len(),
            leading_digits(v@.skip(from as int)) == n + leading_digits(v@.skip(from + n)),
        decreases v@.len() - from - n,
    {
        assert(v@.skip(from + n).skip(1) =~= v@.skip(from + n + 1));
        n = n + 1;
    }
    n
}

fn find_argument(args: &Vec<String>, digits: &str) -> (r: Option<usize>)
    ensures
        match r {
            Some(k) => argument_number(views(args@), digits@, args@.len()) == Some(k as nat) && 1
                <= k <= args@.len(),
            None => argument_number(views(args@), digits@, args@.len()) is None,
        },
{
    let mut k: usize = args.len();
    while k > 0
        invariant
            k <= args@.len(),
            argument_number(views(args@), digits@, args@.len()) == argument_number(
                views(args@),
                digits@,
                k as nat,
            ),
        decreases k,
    {
        if same(digits, decimal_text(k as u64).as_str()) {
            return Some(k);
        }
        k = k - 1;
    }
    None
}

/// The query of a [`SubqueryFunction`] for given arguments: its template with the text of the
/// `n`th argument in place of `$n`.
pub fn filled_template(template: &str, args: &Vec<String>) -> (r: String)
    ensures
        r@ == filled(template@, views(args@)),
{
    let v = chars(template);
    let mut out = String::new();
    let mut i: usize = 0;
    assert(v@.skip(0) =~= v@);
    assert(out@ + filled(v@, views(args@)) =~= filled(v@, views(args@)));
    while i < v.len()
        invariant
            i <= v@.len(),
            v@ == template@,
            out@ + filled(v@.skip(i as int), views(args@)) == filled(v@, views(args@)),
        decreases v@.len() - i,
    {
        let ghost rest = v@.skip(i as int);
        let ghost before = out@;
        let n: usize = count_digits(&v, i + 1);
        let digits = slice_text(&v, i + 1, i + 1 + n);
        assert(rest.skip(1) =~= v@.skip(i + 1));
        assert(digits@ =~= rest.skip(1).take(n as int));
        assert(rest.skip(n + 1) =~= v@.skip(i + 1 + n));
        match find_argument(args, digits.as_str()) {
            Some(k) => if v[i] == '$' {
                out.append(args[k - 1].as_str());
                assert(views(args@)[k - 1] == args@[k - 1]@);
                i = i + 1 + n;
            } else {
                out.push(v[i]);
                i = i + 1;
            },
            None => {
                out.push(v[i]);
                i = i + 1;
            },
        }
        assert(out@ + filled(v@.skip(i as int), views(args@)) =~= before + filled(
            rest,
            views(args@),
        ));
    }
    assert(v@.skip(i as int) =~= Seq::empty());
    assert(out@ + Seq::<char>::empty() =~= out@);
    out
}

// --- texts ------------------------------------------------------------------------------------

/// The statements of a text as they are printed, with `; ` between them.
pub open spec fn reprinted(sql: Seq<char>) -> Result<Seq<char>, SqlFault> {
    match statements_of(SqlDialect::Postgres, sql) {
        Ok(t) => printed(t, "; "@),
        Err(e) => Err(e),
    }
}

/// Prints the statements of `sql` with their subqueries as they are: without functions that
/// are registered beforehand, a correlated test stays with the engine.
pub fn rewrite_exists_subquery(sql: &str) -> (r: Result<String, SqlError>)
    ensures
        outcome(r) == reprinted(sql@),
{
    match parse(SqlDialect::Postgres, sql) {
        Ok(t) => print(&t, "; "),
        Err(e) => Err(e),
    }
}

// --- laws -------------------------------------------------------------------------------------

/// Whether no two identifiers of a list have one text.
pub open spec fn names_apart(columns: Seq<Syntax>) -> bool {
    forall|i: int, j: int|
        0 <= i < j < columns.len() ==> ident_text(#[trigger] columns[i]) != ident_text(
            #[trigger] columns[j],
        )
}

proof fn no_place(columns: Seq<Syntax>, name: Option<Seq<char>>, from: nat, i: int)
    requires
        place_from(columns, name, from) is None,
        from <= i < columns.len(),
    ensures
        ident_text(columns[i]) != name,
    decreases columns.len() - from,
{
    if from < i {
        no_place(columns, name, from + 1, i);
    }
}

proof fn apart_in_items(found: Seq<Syntax>, s: Seq<Syntax>, n: nat)
    requires
        names_apart(found),
    ensures
        names_apart(columns_of_items(found, s, n)),
    decreases s, n,
{
    if n > 0 && n <= s.len() {
        apart_in_items(found, s, (n - 1) as nat);
        columns_are_apart(columns_of_items(found, s, (n - 1) as nat), s[n - 1]);
    }
}

proof fn apart_in_fields(found: Seq<Syntax>, s: Seq<(Seq<char>, Syntax)>, n: nat)
    requires
        names_apart(found),
    ensures
        names_apart(columns_of_fields(found, s, n)),
    decreases s, n,
{
    if n > 0 && n <= s.len() {
        apart_in_fields(found, s, (n - 1) as nat);
        columns_are_apart(columns_of_fields(found, s, (n - 1) as nat), s[n - 1].1);
    }
}

/// A function has one argument for each column that its query refers to, however often it
/// does.
pub proof fn columns_are_apart(found: Seq<Syntax>, t: Syntax)
    requires
        names_apart(found),
    ensures
        names_apart(columns_of(found, t)),
    decreases t, 0nat,
{
    match t {
        Syntax::List(s) => apart_in_items(found, s, s.len()),
        Syntax::Record(s) => apart_in_fields(found, s, s.len()),
        Syntax::Expr(b) => {
            columns_are_apart(found, *b);
            let inner = columns_of(found, *b);
            if let Some(id) = bare_column(*b) {
                if place_from(inner, ident_text(id), 0) is None {
                    assert forall|i: int, j: int|
                        0 <= i < j < inner.push(id).len() implies ident_text(
                        #[trigger] inner.push(id)[i],
                    ) != ident_text(#[trigger] inner.push(id)[j]) by {
                        if j == inner.len() {
                            no_place(inner, ident_text(id), 0, i);
                        }
                    }
                }
            }
        },
        Syntax::Statement(b) => columns_are_apart(found, *b),
        Syntax::Relation(b) => columns_are_apart(found, *b),
        _ => {},
    }
}

} // verus!
