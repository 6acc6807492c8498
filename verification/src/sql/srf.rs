//! Set-returning functions in a select list, by way of `unnest`.
use super::ast::{
    aliased_item, call1, column, derived_table, get_ident_text, get_item_expr, get_last_part_text,
    get_relation_name, ident, ident_text, item_expr, last_part_text, mk_aliased_item, mk_call1,
    mk_column, mk_derived_table, mk_ident, mk_name1, mk_no_grouping, mk_no_joins, mk_plain_query,
    mk_string_expr, mk_table_alias, mk_wildcard_item, name1, no_grouping, no_joins, plain_query,
    put_item_expr, relation_name, string_expr, table_alias, wildcard_item, with_item_expr,
};
use super::parse::{
    expr_string, outcome, parse, print, print_expr, printed, statements_of, SqlDialect, SqlError,
    SqlFault,
};
use super::rewrite::{rewrite_text, rewritten_text, Layout};
use super::tree::{
    at_is_smaller, expr_node, field_is_smaller, fields_of, item_is_smaller, list_field_is_smaller,
    list_of, list_view, no_fields, no_items, payload_is_smaller, push_item, put, record_view,
    variant, Syntax, Tree,
};
use super::walk::{start, start_view, walk, walked, Pass, Progress, ProgressView, Rule};
use crate::text::{lowercased, same, to_lowercase};
use vstd::prelude::*;

verus! {

// --- recognizing the calls -------------------------------------------------------

/// Whether `s` names a set-returning function that is modelled as a function that
/// returns a list of structs.
pub open spec fn is_projection_srf(s: Seq<char>) -> bool {
    let l = lowercased(s);
    l == "aclexplode"@ || l == "_pg_expandarray"@ || l == "pg_options_to_table"@
}

fn names_projection_srf(s: &str) -> (r: bool)
    ensures
        r == is_projection_srf(s@),
{
    let l = to_lowercase(s);
    same(l.as_str(), "aclexplode") || same(l.as_str(), "_pg_expandarray") || same(
        l.as_str(),
        "pg_options_to_table",
    )
}

/// Whether `e` calls such a function.
pub open spec fn is_srf_call(e: Syntax) -> bool {
    match e.payload("Function"@) {
        Some(f) => match last_part_text(f.at("name"@)) {
            Some(s) => is_projection_srf(s) && f.at("args"@).payload("List"@) is Some,
            None => false,
        },
        None => false,
    }
}

fn is_bare_srf(e: &Tree) -> (r: bool)
    ensures
        r == is_srf_call(e@),
{
    match e.payload("Function") {
        Some(f) => match get_last_part_text(f.at("name")) {
            Some(s) => names_projection_srf(s.as_str()) && f.at("args").payload("List").is_some(),
            None => false,
        },
        None => false,
    }
}

/// The call in `(srf(args)).field`.
pub open spec fn srf_in_access(e: Syntax) -> Option<Syntax> {
    match e.payload("CompoundFieldAccess"@) {
        Some(c) => {
            let chain = c.at("access_chain"@);
            if chain.items().len() == 1 && chain.item(0).payload("Dot"@) is Some {
                match c.at("root"@).inner().payload("Nested"@) {
                    Some(n) => if is_srf_call(n.inner()) {
                        Some(n.inner())
                    } else {
                        None
                    },
                    None => None,
                }
            } else {
                None
            }
        },
        None => None,
    }
}

/// The call in `(srf(args)).field`.
fn srf_field_access(e: &Tree) -> (r: Option<&Tree>)
    ensures
        match r {
            Some(t) => srf_in_access(e@) == Some(t@),
            None => srf_in_access(e@) is None,
        },
{
    if let Some(c) = e.payload("CompoundFieldAccess") {
        let chain = c.at("access_chain");
        if chain.len() == 1 && chain.item(0).payload("Dot").is_some() {
            if let Some(n) = c.at("root").inner().payload("Nested") {
                if is_bare_srf(n.inner()) {
                    return Some(n.inner());
                }
            }
        }
    }
    None
}

/// The calls in the accesses `(srf(args)).field` of the first `n` items, in the order in
/// which the items are visited.
pub open spec fn accesses_in_items(s: Seq<Syntax>, n: nat) -> Seq<Syntax>
    decreases s, n,
{
    if n == 0 || n > s.len() {
        Seq::empty()
    } else {
        accesses_in_items(s, (n - 1) as nat) + accesses(s[n - 1])
    }
}

/// The calls in the accesses `(srf(args)).field` of the first `n` fields.
pub open spec fn accesses_in_fields(s: Seq<(Seq<char>, Syntax)>, n: nat) -> Seq<Syntax>
    decreases s, n,
{
    if n == 0 || n > s.len() {
        Seq::empty()
    } else {
        accesses_in_fields(s, (n - 1) as nat) + accesses(s[n - 1].1)
    }
}

/// The calls in the accesses `(srf(args)).field` of a tree, innermost first.
pub open spec fn accesses(t: Syntax) -> Seq<Syntax>
    decreases t, 0nat,
{
    match t {
        Syntax::List(s) => accesses_in_items(s, s.len()),
        Syntax::Record(s) => accesses_in_fields(s, s.len()),
        Syntax::Expr(b) => match srf_in_access(*b) {
            Some(c) => accesses(*b).push(c),
            None => accesses(*b),
        },
        Syntax::Statement(b) => accesses(*b),
        Syntax::Relation(b) => accesses(*b),
        _ => Seq::empty(),
    }
}

fn collect_accesses(t: &Tree, out: &mut Vec<Tree>)
    ensures
        list_of(final(out)@) == list_of(old(out)@) + accesses(t@),
    decreases t,
{
    let ghost before = list_of(out@);
    match t {
        Tree::List(v) => {
            proof {
                list_view(*v);
            }
            let mut i: usize = 0;
            assert(before + Seq::empty() =~= before);
            while i < v.len()
                invariant
                    i <= v@.len(),
                    *t == Tree::List(*v),
                    list_of(out@) == before + accesses_in_items(list_of(v@), i as nat),
                decreases v@.len() - i,
            {
                proof {
                    item_is_smaller(*t, i as int);
                }
                let ghost done = accesses_in_items(list_of(v@), i as nat);
                collect_accesses(&v[i], out);
                i = i + 1;
                assert((before + done) + accesses(v@[i - 1]@) =~= before + (done + accesses(
                    v@[i - 1]@,
                )));
            }
        },
        Tree::Record(v) => {
            proof {
                record_view(*v);
            }
            let mut i: usize = 0;
            assert(before + Seq::empty() =~= before);
            while i < v.len()
                invariant
                    i <= v@.len(),
                    *t == Tree::Record(*v),
                    list_of(out@) == before + accesses_in_fields(fields_of(v@), i as nat),
                decreases v@.len() - i,
            {
                proof {
                    field_is_smaller(*t, i as int);
                }
                let ghost done = accesses_in_fields(fields_of(v@), i as nat);
                collect_accesses(&v[i].value, out);
                i = i + 1;
                assert((before + done) + accesses(v@[i - 1].value@) =~= before + (done + accesses(
                    v@[i - 1].value@,
                )));
            }
        },
        Tree::Expr(b) => {
            collect_accesses(b, out);
            if let Some(c) = srf_field_access(b) {
                push_item(out, c.copy());
                assert((before + accesses(b@)).push(c@) =~= before + accesses(b@).push(c@));
            }
        },
        Tree::Statement(b) => collect_accesses(b, out),
        Tree::Relation(b) => collect_accesses(b, out),
        _ => {
            assert(before + Seq::empty() =~= before);
        },
    }
}

/// The calls in the accesses `(srf(args)).field` of the first `n` select items.
pub open spec fn projection_accesses(items: Seq<Syntax>, n: nat) -> Seq<Syntax>
    decreases n,
{
    if n == 0 || n > items.len() {
        Seq::empty()
    } else {
        let before = projection_accesses(items, (n - 1) as nat);
        match item_expr(items[n - 1]) {
            Some(e) => before + accesses(expr_node(e)),
            None => before,
        }
    }
}

fn collect_projection_accesses(projection: &Tree) -> (r: Vec<Tree>)
    ensures
        list_of(r@) == projection_accesses(
            projection@.items(),
            projection@.items().len(),
        ),
{
    let n: usize = projection.len();
    let mut out = no_items();
    let mut i: usize = 0;
    while i < n
        invariant
            i <= n,
            n == projection@.items().len(),
            list_of(out@) == projection_accesses(projection@.items(), i as nat),
        decreases n - i,
    {
        if let Some(e) = get_item_expr(projection.item(i)) {
            let node = Tree::expr(e.copy());
            collect_accesses(&node, &mut out);
        }
        i = i + 1;
    }
    out
}

/// The calls that the first `n` select items select whole.
pub open spec fn whole_calls(items: Seq<Syntax>, n: nat) -> Seq<Syntax>
    decreases n,
{
    if n == 0 || n > items.len() {
        Seq::empty()
    } else {
        let before = whole_calls(items, (n - 1) as nat);
        match item_expr(items[n - 1]) {
            Some(e) => if is_srf_call(e) {
                before.push(e)
            } else {
                before
            },
            None => before,
        }
    }
}

fn add_whole_calls(projection: &Tree, out: &mut Vec<Tree>)
    ensures
        list_of(final(out)@) == list_of(old(out)@) + whole_calls(
            projection@.items(),
            projection@.items().len(),
        ),
{
    let n: usize = projection.len();
    let ghost first = list_of(out@);
    let ghost items = projection@.items();
    let mut i: usize = 0;
    assert(first + whole_calls(items, 0) =~= first);
    while i < n
        invariant
            i <= n,
            n == items.len(),
            items == projection@.items(),
            list_of(out@) == first + whole_calls(items, i as nat),
        decreases n - i,
    {
        if let Some(e) = get_item_expr(projection.item(i)) {
            if is_bare_srf(e) {
                push_item(out, e.copy());
            }
        }
        i = i + 1;
        assert(list_of(out@) =~= first + whole_calls(items, i as nat));
    }
}

/// Whether all the calls are written alike.
pub open spec fn one_call(calls: Seq<Syntax>) -> bool {
    forall|i: int|
        0 <= i < calls.len() ==> expr_string(#[trigger] calls[i]) == expr_string(calls[0])
}

/// Whether two expressions are written alike.
fn same_expr_text(a: &Tree, b: &Tree) -> (r: bool)
    ensures
        r == (expr_string(a@) == expr_string(b@)),
{
    match (print_expr(a), print_expr(b)) {
        (Some(s), Some(t)) => s == t,
        (None, None) => true,
        _ => false,
    }
}

fn is_one_call(calls: &Vec<Tree>) -> (r: bool)
    ensures
        r == one_call(list_of(calls@)),
{
    let ghost s = list_of(calls@);
    let mut i: usize = 0;
    while i < calls.len()
        invariant
            i <= calls@.len(),
            s == list_of(calls@),
            forall|j: int| 0 <= j < i ==> expr_string(#[trigger] s[j]) == expr_string(s[0]),
        decreases calls@.len() - i,
    {
        if !same_expr_text(&calls[i], &calls[0]) {
            assert(expr_string(s[i as int]) != expr_string(s[0]));
            return false;
        }
        i = i + 1;
    }
    true
}

// --- calls that are selected whole ----------------------------------------------

/// `unnest(e)`.
pub open spec fn unnest(e: Syntax) -> Syntax {
    call1(name1("unnest"@), e)
}

fn mk_unnest(e: Tree) -> (r: Tree)
    ensures
        r@ == unnest(e@),
{
    mk_call1(mk_name1("unnest"), e)
}

/// A select item with its call, if it selects one whole, in `unnest`.
pub open spec fn unnested_item(item: Syntax) -> Syntax {
    match item_expr(item) {
        Some(e) => if is_srf_call(e) {
            with_item_expr(item, unnest(e))
        } else {
            item
        },
        None => item,
    }
}

/// The select items with the calls that are selected whole in `unnest`.
pub open spec fn unnested_items(items: Seq<Syntax>) -> Seq<Syntax> {
    Seq::new(items.len(), |i: int| unnested_item(items[i]))
}

fn unnest_items(projection: &Tree) -> (r: Tree)
    ensures
        r@ == Syntax::List(unnested_items(projection@.items())),
{
    let n: usize = projection.len();
    let ghost goal = unnested_items(projection@.items());
    let mut out = no_items();
    let mut i: usize = 0;
    while i < n
        invariant
            i <= n,
            n == projection@.items().len(),
            goal == unnested_items(projection@.items()),
            list_of(out@) == goal.take(i as int),
        decreases n - i,
    {
        let item = projection.item(i);
        let changed = match get_item_expr(item) {
            Some(e) => if is_bare_srf(e) {
                put_item_expr(item, mk_unnest(e.copy()))
            } else {
                item.copy()
            },
            None => item.copy(),
        };
        push_item(&mut out, changed);
        i = i + 1;
        assert(goal.take(i as int) =~= goal.take(i - 1).push(changed@));
    }
    assert(goal.take(i as int) =~= goal);
    Tree::list(out)
}

// --- calls whose fields are selected ----------------------------------------------

/// `root['field']`.
pub open spec fn bracket_access(root: Seq<char>, field: Seq<char>) -> Syntax {
    variant(
        "CompoundFieldAccess"@,
        Syntax::Record(
            Seq::empty().push(("root"@, expr_node(column(root)))).push(
                ("access_chain"@, Syntax::List(seq![subscript(field)])),
            ),
        ),
    )
}

/// The access `['field']`.
pub open spec fn subscript(field: Seq<char>) -> Syntax {
    variant("Subscript"@, variant("Index"@, Syntax::Record(
        seq![("index"@, expr_node(string_expr(field)))],
    )))
}

fn mk_subscript(field: &str) -> (r: Tree)
    ensures
        r@ == subscript(field@),
{
    let f = put(no_fields(), "index", Tree::expr(mk_string_expr(field)));
    Tree::variant("Subscript", Tree::variant("Index", Tree::record(f)))
}

fn mk_bracket_access(root: &str, field: &str) -> (r: Tree)
    ensures
        r@ == bracket_access(root@, field@),
{
    let f = put(no_fields(), "root", Tree::expr(mk_column(root)));
    let f = put(f, "access_chain", Tree::list1(mk_subscript(field)));
    Tree::variant("CompoundFieldAccess", Tree::record(f))
}

/// The field in `(root).field`, where the access is a name.
pub open spec fn accessed_field(access: Syntax) -> Option<Seq<char>> {
    match access.payload("Dot"@) {
        Some(d) => match d.inner().payload("Identifier"@) {
            Some(id) => ident_text(id),
            None => None,
        },
        None => None,
    }
}

fn get_accessed_field(access: &Tree) -> (r: Option<&String>)
    ensures
        match r {
            Some(s) => accessed_field(access@) == Some(s@),
            None => accessed_field(access@) is None,
        },
{
    match access.payload("Dot") {
        Some(d) => match d.inner().payload("Identifier") {
            Some(id) => get_ident_text(id),
            None => None,
        },
        None => None,
    }
}

/// `__srf_unnest['field']` for `(srf(x)).field`, where `srf(x)` is written like `srf`;
/// any other expression as it is.
pub open spec fn access_unnested(srf: Syntax, e: Syntax) -> Syntax {
    match srf_in_access(e) {
        Some(c) => if expr_string(c) == expr_string(srf) {
            match accessed_field(e.payload("CompoundFieldAccess"@)->0.at("access_chain"@).item(0)) {
                Some(field) => bracket_access("__srf_unnest"@, field),
                None => e,
            }
        } else {
            e
        },
        None => e,
    }
}

/// [`access_unnested`] as a rule.
pub open spec fn access_rule(srf: Syntax) -> Rule {
    |st: ProgressView, e: Syntax| (st, access_unnested(srf, e))
}

/// Accesses to the fields of the call `srf` become accesses to `__srf_unnest`.
pub struct SrfAccesses {
    pub srf: Tree,
}

impl Pass for SrfAccesses {
    open spec fn rule(&self) -> Rule {
        access_rule(self.srf@)
    }

    fn apply(&self, st: &mut Progress, e: Tree) -> (r: Tree) {
        if let Some(c) = srf_field_access(&e) {
            if same_expr_text(c, &self.srf) {
                if let Some(x) = e.payload("CompoundFieldAccess") {
                    if let Some(field) = get_accessed_field(x.at("access_chain").item(0)) {
                        return mk_bracket_access("__srf_unnest", field.as_str());
                    }
                }
            }
        }
        e
    }
}

/// A select item with the call `srf` and its fields read from `__srf_unnest`.
pub open spec fn read_unnested(srf: Syntax, item: Syntax) -> Syntax {
    match item_expr(item) {
        Some(e) => if is_srf_call(e) && expr_string(e) == expr_string(srf) {
            with_item_expr(item, column("__srf_unnest"@))
        } else {
            with_item_expr(
                item,
                walked(access_rule(srf), start_view(), expr_node(e)).1.inner(),
            )
        },
        None => item,
    }
}

fn mk_read_unnested(srf: &Tree, item: &Tree) -> (r: Tree)
    ensures
        r@ == read_unnested(srf@, item@),
{
    match get_item_expr(item) {
        Some(e) => if is_bare_srf(e) && same_expr_text(e, srf) {
            put_item_expr(item, mk_column("__srf_unnest"))
        } else {
            let pass = SrfAccesses { srf: srf.copy() };
            let mut st = start();
            let node = walk(&pass, &mut st, &Tree::expr(e.copy()));
            put_item_expr(item, node.inner().copy())
        },
        None => item.copy(),
    }
}

// --- the tables behind the select list ----------------------------------------------

/// The name by which a table of a `FROM` clause qualifies its columns.
pub open spec fn qualifier(tf: Syntax) -> Seq<Seq<char>> {
    match tf.payload("Table"@) {
        Some(t) => if t.at("alias"@) != Syntax::Null {
            match ident_text(t.at("alias"@).at("name"@)) {
                Some(s) => seq![lowercased(s)],
                None => Seq::empty(),
            }
        } else {
            match last_part_text(relation_name(t.at("name"@))) {
                Some(s) => seq![lowercased(s)],
                None => Seq::empty(),
            }
        },
        None => Seq::empty(),
    }
}

/// The qualifiers of the tables of the first `n` joins.
pub open spec fn join_qualifiers(joins: Seq<Syntax>, n: nat) -> Seq<Seq<char>>
    decreases n,
{
    if n == 0 || n > joins.len() {
        Seq::empty()
    } else {
        join_qualifiers(joins, (n - 1) as nat) + qualifier(joins[n - 1].at("relation"@))
    }
}

/// The qualifiers of the tables of the first `n` items of a `FROM` clause.
pub open spec fn from_qualifiers(from: Seq<Syntax>, n: nat) -> Seq<Seq<char>>
    decreases n,
{
    if n == 0 || n > from.len() {
        Seq::empty()
    } else {
        let joins = from[n - 1].at("joins"@).items();
        from_qualifiers(from, (n - 1) as nat) + qualifier(from[n - 1].at("relation"@))
            + join_qualifiers(joins, joins.len())
    }
}

fn add_qualifier(tf: &Tree, out: &mut Vec<String>)
    ensures
        crate::text::views(final(out)@) == crate::text::views(old(out)@) + qualifier(tf@),
{
    let ghost before = crate::text::views(out@);
    let name = match tf.payload("Table") {
        Some(t) => if !t.at("alias").is_null() {
            get_ident_text(t.at("alias").at("name"))
        } else {
            get_last_part_text(get_relation_name(t.at("name")))
        },
        None => None,
    };
    if let Some(s) = name {
        let l = to_lowercase(s.as_str());
        out.push(l);
        assert(crate::text::views(out@) =~= before + seq![l@]);
    } else {
        assert(crate::text::views(out@) =~= before + Seq::empty());
    }
}

fn collect_qualifiers(from: &Tree) -> (r: Vec<String>)
    ensures
        crate::text::views(r@) == from_qualifiers(from@.items(), from@.items().len()),
{
    let n: usize = from.len();
    let mut out: Vec<String> = Vec::new();
    assert(crate::text::views(out@) =~= Seq::empty());
    let mut i: usize = 0;
    while i < n
        invariant
            i <= n,
            n == from@.items().len(),
            crate::text::views(out@) == from_qualifiers(from@.items(), i as nat),
        decreases n - i,
    {
        let item = from.item(i);
        add_qualifier(item.at("relation"), &mut out);
        let joins = item.at("joins");
        let m: usize = joins.len();
        let ghost before = crate::text::views(out@);
        let mut j: usize = 0;
        assert(before + Seq::empty() =~= before);
        while j < m
            invariant
                j <= m,
                m == joins@.items().len(),
                crate::text::views(out@) == before + join_qualifiers(
                    joins@.items(),
                    j as nat,
                ),
            decreases m - j,
        {
            let ghost done = join_qualifiers(joins@.items(), j as nat);
            let join = joins.item(j);
            add_qualifier(join.at("relation"), &mut out);
            j = j + 1;
            assert((before + done) + qualifier(join@.at("relation"@)) =~= before + (done
                + qualifier(join@.at("relation"@))));
        }
        i = i + 1;
    }
    out
}

/// `__srf_src.column` for a column of one of the tables `qualifiers`; any other
/// expression as it is.
pub open spec fn requalified(qualifiers: Seq<Seq<char>>, e: Syntax) -> Syntax {
    match e.payload("CompoundIdentifier"@) {
        Some(parts) => if parts.items().len() == 2 {
            match ident_text(parts.items()[0]) {
                Some(s) => if qualifiers.contains(lowercased(s)) {
                    variant(
                        "CompoundIdentifier"@,
                        Syntax::List(seq![ident("__srf_src"@), parts.items()[1]]),
                    )
                } else {
                    e
                },
                None => e,
            }
        } else {
            e
        },
        None => e,
    }
}

/// [`requalified`] as a rule.
pub open spec fn requalify_rule(qualifiers: Seq<Seq<char>>) -> Rule {
    |st: ProgressView, e: Syntax| (st, requalified(qualifiers, e))
}

/// Columns of the tables `qualifiers` become columns of `__srf_src`.
pub struct Requalify {
    pub qualifiers: Vec<String>,
}

impl Pass for Requalify {
    open spec fn rule(&self) -> Rule {
        requalify_rule(crate::text::views(self.qualifiers@))
    }

    fn apply(&self, st: &mut Progress, e: Tree) -> (r: Tree) {
        if let Some(parts) = e.payload("CompoundIdentifier") {
            if parts.len() == 2 {
                if let Some(s) = get_ident_text(parts.item(0)) {
                    let l = to_lowercase(s.as_str());
                    if crate::text::contains(&self.qualifiers, l.as_str()) {
                        return Tree::variant(
                            "CompoundIdentifier",
                            Tree::list2(mk_ident("__srf_src"), parts.item(1).copy()),
                        );
                    }
                }
            }
        }
        e
    }
}

/// A select item with the columns of the tables `qualifiers` read from `__srf_src`.
pub open spec fn requalified_item(qualifiers: Seq<Seq<char>>, item: Syntax) -> Syntax {
    match item_expr(item) {
        Some(e) => with_item_expr(
            item,
            walked(requalify_rule(qualifiers), start_view(), expr_node(e)).1.inner(),
        ),
        None => item,
    }
}

fn requalify_item(pass: &Requalify, item: &Tree) -> (r: Tree)
    ensures
        r@ == requalified_item(crate::text::views(pass.qualifiers@), item@),
{
    match get_item_expr(item) {
        Some(e) => {
            let mut st = start();
            let node = walk(pass, &mut st, &Tree::expr(e.copy()));
            put_item_expr(item, node.inner().copy())
        },
        None => item.copy(),
    }
}

/// The select items that read the call `srf` and the tables `qualifiers` from the
/// derived table.
pub open spec fn outer_items(
    srf: Syntax,
    qualifiers: Seq<Seq<char>>,
    items: Seq<Syntax>,
) -> Seq<Syntax> {
    Seq::new(
        items.len(),
        |i: int|
            if qualifiers.len() == 0 {
                read_unnested(srf, items[i])
            } else {
                requalified_item(qualifiers, read_unnested(srf, items[i]))
            },
    )
}

fn mk_outer_items(srf: &Tree, pass: &Requalify, projection: &Tree) -> (r: Tree)
    ensures
        r@ == Syntax::List(
            outer_items(srf@, crate::text::views(pass.qualifiers@), projection@.items()),
        ),
{
    let n: usize = projection.len();
    let ghost goal = outer_items(
        srf@,
        crate::text::views(pass.qualifiers@),
        projection@.items(),
    );
    let mut out = no_items();
    let mut i: usize = 0;
    while i < n
        invariant
            i <= n,
            n == projection@.items().len(),
            goal == outer_items(
                srf@,
                crate::text::views(pass.qualifiers@),
                projection@.items(),
            ),
            list_of(out@) == goal.take(i as int),
        decreases n - i,
    {
        let item = mk_read_unnested(srf, projection.item(i));
        let changed = if pass.qualifiers.len() == 0 {
            item
        } else {
            requalify_item(pass, &item)
        };
        push_item(&mut out, changed);
        i = i + 1;
        assert(goal.take(i as int) =~= goal.take(i - 1).push(changed@));
    }
    assert(goal.take(i as int) =~= goal);
    Tree::list(out)
}

/// The `SELECT` of all columns and the elements of the call `srf`, from the rows of
/// `select`.
pub open spec fn unnesting_select(select: Syntax, srf: Syntax) -> Syntax {
    select.with(
        "projection"@,
        Syntax::List(seq![wildcard_item(), aliased_item(unnest(srf), "__srf_unnest"@)]),
    ).with("group_by"@, no_grouping()).with("having"@, Syntax::Null).with(
        "distinct"@,
        Syntax::Null,
    ).with("sort_by"@, Syntax::List(Seq::empty())).with("qualify"@, Syntax::Null)
}

/// `SELECT .. FROM (SELECT *, unnest(srf) AS __srf_unnest FROM ..) AS __srf_src`, for a
/// `SELECT` of fields of the call `srf`.
pub open spec fn select_from_unnested(select: Syntax, srf: Syntax) -> Syntax {
    let items = select.at("projection"@).items();
    let from = select.at("from"@).items();
    let inner = plain_query(variant("Select"@, unnesting_select(select, srf)));
    select.with(
        "projection"@,
        Syntax::List(outer_items(srf, from_qualifiers(from, from.len()), items)),
    ).with(
        "from"@,
        Syntax::List(seq![no_joins(derived_table(inner, table_alias("__srf_src"@, true)))]),
    ).with("selection"@, Syntax::Null)
}

/// A `SELECT` with its set-returning function unnested: a call that is selected whole in
/// place, and a call whose fields are selected in a derived table. A `SELECT` of several calls
/// is left alone.
pub open spec fn select_unnested(select: Syntax) -> Syntax {
    let items = select.at("projection"@).items();
    let calls = projection_accesses(items, items.len());
    if !one_call(calls + whole_calls(items, items.len())) {
        select
    } else if calls.len() == 0 {
        select.with("projection"@, Syntax::List(unnested_items(items)))
    } else {
        select_from_unnested(select, calls[0])
    }
}

/// Unnests the set-returning functions of one `SELECT`.
pub fn rewrite_select(select: &Tree) -> (r: Tree)
    ensures
        r@ == select_unnested(select@),
{
    let projection = select.at("projection");
    let mut calls = collect_projection_accesses(projection);
    let ghost accessed = list_of(calls@);
    let accesses: usize = calls.len();
    assert(accessed.len() == accesses);
    add_whole_calls(projection, &mut calls);
    if !is_one_call(&calls) {
        return select.copy();
    }
    if accesses == 0 {
        return select.with("projection", unnest_items(projection));
    }
    assert(list_of(calls@).len() == calls@.len());
    assert(list_of(calls@)[0] == accessed[0]);
    let srf = &calls[0];
    let unnest_item = mk_aliased_item(mk_unnest(srf.copy()), "__srf_unnest");
    let inner = select.with("projection", Tree::list2(mk_wildcard_item(), unnest_item)).with(
        "group_by",
        mk_no_grouping(),
    ).with("having", Tree::Null).with("distinct", Tree::Null).with(
        "sort_by",
        Tree::empty_list(),
    ).with("qualify", Tree::Null);
    let query = mk_plain_query(Tree::variant("Select", inner));
    let source = mk_no_joins(mk_derived_table(query, mk_table_alias("__srf_src", true)));
    let pass = Requalify { qualifiers: collect_qualifiers(select.at("from")) };
    select.with("projection", mk_outer_items(srf, &pass, projection)).with(
        "from",
        Tree::list1(source),
    ).with("selection", Tree::Null)
}

// --- whole queries ---------------------------------------------------------------

/// A node with the set-returning functions of the subquery in its field `relation`, if
/// that is a derived table, unnested.
pub open spec fn relation_unnested(node: Syntax) -> Syntax
    decreases node, 0nat,
{
    proof {
        at_is_smaller(node, "relation"@);
        payload_is_smaller(node.at("relation"@), "Derived"@);
        at_is_smaller(node.at("relation"@).payload("Derived"@)->0, "subquery"@);
    }
    match node.at("relation"@).payload("Derived"@) {
        Some(d) => if node.at("relation"@) == Syntax::Null || d.at("subquery"@) == Syntax::Null {
            node
        } else {
            node.with(
                "relation"@,
                variant("Derived"@, d.with("subquery"@, query_unnested(d.at("subquery"@)))),
            )
        },
        None => node,
    }
}

/// Joins with the set-returning functions of their subqueries unnested.
pub open spec fn joins_unnested(s: Seq<Syntax>) -> Seq<Syntax>
    decreases s, 0nat,
{
    Seq::new(
        s.len(),
        |i: int|
            if 0 <= i < s.len() {
                relation_unnested(s[i])
            } else {
                Syntax::Null
            },
    )
}

/// A table of a `FROM` clause and its joins with the set-returning functions of their
/// subqueries unnested.
pub open spec fn table_unnested(twj: Syntax) -> Syntax
    decreases twj, 1nat,
{
    proof {
        at_is_smaller(twj, "joins"@);
    }
    match twj.at("joins"@) {
        Syntax::List(joins) => relation_unnested(twj).with(
            "joins"@,
            Syntax::List(joins_unnested(joins)),
        ),
        _ => relation_unnested(twj),
    }
}

/// The tables of a `FROM` clause with the set-returning functions of their subqueries
/// unnested.
pub open spec fn from_unnested(s: Seq<Syntax>) -> Seq<Syntax>
    decreases s, 0nat,
{
    Seq::new(
        s.len(),
        |i: int|
            if 0 <= i < s.len() {
                table_unnested(s[i])
            } else {
                Syntax::Null
            },
    )
}

/// The body of a query with its set-returning functions unnested: those of the
/// subqueries in its `FROM` clause first.
pub open spec fn body_unnested(se: Syntax) -> Syntax
    decreases se, 0nat,
{
    proof {
        payload_is_smaller(se, "Select"@);
        payload_is_smaller(se, "Query"@);
        payload_is_smaller(se, "SetOperation"@);
        at_is_smaller(se.payload("Select"@)->0, "from"@);
        at_is_smaller(se.payload("SetOperation"@)->0, "left"@);
        at_is_smaller(se.payload("SetOperation"@)->0, "right"@);
    }
    match se.payload("Select"@) {
        Some(select) => match select.at("from"@) {
            Syntax::List(from) => variant(
                "Select"@,
                select_unnested(select.with("from"@, Syntax::List(from_unnested(from)))),
            ),
            _ => variant("Select"@, select_unnested(select)),
        },
        None => match se.payload("Query"@) {
            Some(q) => variant("Query"@, query_unnested(q)),
            None => match se.payload("SetOperation"@) {
                Some(op) => if op.at("left"@) == Syntax::Null || op.at("right"@) == Syntax::Null {
                    se
                } else {
                    variant(
                        "SetOperation"@,
                        op.with("left"@, body_unnested(op.at("left"@))).with(
                            "right"@,
                            body_unnested(op.at("right"@)),
                        ),
                    )
                },
                None => se,
            },
        },
    }
}

/// A common table expression with the set-returning functions of its query unnested.
pub open spec fn cte_unnested(cte: Syntax) -> Syntax
    decreases cte, 0nat,
{
    proof {
        at_is_smaller(cte, "query"@);
    }
    if cte.at("query"@) == Syntax::Null {
        cte
    } else {
        cte.with("query"@, query_unnested(cte.at("query"@)))
    }
}

/// Common table expressions with the set-returning functions of their queries unnested.
pub open spec fn ctes_unnested(s: Seq<Syntax>) -> Seq<Syntax>
    decreases s, 0nat,
{
    Seq::new(
        s.len(),
        |i: int|
            if 0 <= i < s.len() {
                cte_unnested(s[i])
            } else {
                Syntax::Null
            },
    )
}

/// A query with its set-returning functions unnested.
pub open spec fn query_unnested(q: Syntax) -> Syntax
    decreases q, 0nat,
{
    proof {
        at_is_smaller(q, "with"@);
        at_is_smaller(q.at("with"@), "cte_tables"@);
        at_is_smaller(q, "body"@);
    }
    let with = q.at("with"@);
    let ctes = match with.at("cte_tables"@) {
        Syntax::List(ctes) => if with == Syntax::Null {
            q
        } else {
            q.with("with"@, with.with("cte_tables"@, Syntax::List(ctes_unnested(ctes))))
        },
        _ => q,
    };
    if q.at("body"@) == Syntax::Null {
        ctes
    } else {
        ctes.with("body"@, body_unnested(q.at("body"@)))
    }
}

/// A statement with its set-returning functions unnested, if it is a query.
pub open spec fn statement_unnested(t: Syntax) -> Syntax {
    match t {
        Syntax::Statement(s) => match s.payload("Query"@) {
            Some(q) => Syntax::Statement(Box::new(variant("Query"@, query_unnested(q)))),
            None => t,
        },
        _ => t,
    }
}

/// The statements with their set-returning functions unnested.
pub open spec fn statements_unnested(t: Syntax) -> Syntax {
    Syntax::List(Seq::new(t.items().len(), |i: int| statement_unnested(t.items()[i])))
}

fn unnest_relation(node: &Tree) -> (r: Tree)
    ensures
        r@ == relation_unnested(node@),
    decreases node@, 0nat,
{
    proof {
        at_is_smaller(node@, "relation"@);
        payload_is_smaller(node@.at("relation"@), "Derived"@);
        at_is_smaller(node@.at("relation"@).payload("Derived"@)->0, "subquery"@);
    }
    let relation = node.at("relation");
    if let Some(d) = relation.payload("Derived") {
        let subquery = d.at("subquery");
        if !relation.is_null() && !subquery.is_null() {
            return node.with(
                "relation",
                Tree::variant("Derived", d.with("subquery", unnest_query(subquery))),
            );
        }
    }
    node.copy()
}

fn unnest_table(twj: &Tree) -> (r: Tree)
    ensures
        r@ == table_unnested(twj@),
    decreases twj@, 1nat,
{
    proof {
        at_is_smaller(twj@, "joins"@);
    }
    let first = unnest_relation(twj);
    match twj.at("joins") {
        Tree::List(joins) => {
            let ghost s = list_of(joins@);
            proof {
                list_view(*joins);
                list_field_is_smaller(twj@, "joins"@);
                assert(twj@.at("joins"@) == Syntax::List(s));
            }
            let mut out = no_items();
            let mut i: usize = 0;
            while i < joins.len()
                invariant
                    i <= joins@.len(),
                    s == list_of(joins@),
                    decreases_to!(twj@ => s),
                    list_of(out@) == joins_unnested(s).take(i as int),
                decreases joins@.len() - i,
            {
                assert(decreases_to!(s => s[i as int]));
                let item = unnest_relation(&joins[i]);
                push_item(&mut out, item);
                i = i + 1;
                assert(joins_unnested(s).take(i as int) =~= joins_unnested(s).take(i - 1).push(
                    item@,
                ));
            }
            assert(joins_unnested(s).take(i as int) =~= joins_unnested(s));
            first.with("joins", Tree::list(out))
        },
        _ => first,
    }
}

fn unnest_body(se: &Tree) -> (r: Tree)
    ensures
        r@ == body_unnested(se@),
    decreases se@, 0nat,
{
    proof {
        payload_is_smaller(se@, "Select"@);
        payload_is_smaller(se@, "Query"@);
        payload_is_smaller(se@, "SetOperation"@);
        at_is_smaller(se@.payload("Select"@)->0, "from"@);
        at_is_smaller(se@.payload("SetOperation"@)->0, "left"@);
        at_is_smaller(se@.payload("SetOperation"@)->0, "right"@);
    }
    if let Some(select) = se.payload("Select") {
        return match select.at("from") {
            Tree::List(from) => {
                let ghost s = list_of(from@);
                proof {
                    list_view(*from);
                    list_field_is_smaller(select@, "from"@);
                    assert(select@.at("from"@) == Syntax::List(s));
                    assert(decreases_to!(se@ => select@));
                }
                let mut out = no_items();
                let mut i: usize = 0;
                while i < from.len()
                    invariant
                        i <= from@.len(),
                        s == list_of(from@),
                        decreases_to!(se@ => s),
                        list_of(out@) == from_unnested(s).take(i as int),
                    decreases from@.len() - i,
                {
                    assert(decreases_to!(s => s[i as int]));
                    let item = unnest_table(&from[i]);
                    push_item(&mut out, item);
                    i = i + 1;
                    assert(from_unnested(s).take(i as int) =~= from_unnested(s).take(i - 1).push(
                        item@,
                    ));
                }
                assert(from_unnested(s).take(i as int) =~= from_unnested(s));
                Tree::variant("Select", rewrite_select(&select.with("from", Tree::list(out))))
            },
            _ => Tree::variant("Select", rewrite_select(select)),
        };
    }
    if let Some(q) = se.payload("Query") {
        return Tree::variant("Query", unnest_query(q));
    }
    if let Some(op) = se.payload("SetOperation") {
        let left = op.at("left");
        let right = op.at("right");
        if left.is_null() || right.is_null() {
            return se.copy();
        }
        let changed = op.with("left", unnest_body(left));
        return Tree::variant("SetOperation", changed.with("right", unnest_body(right)));
    }
    se.copy()
}

fn unnest_cte(cte: &Tree) -> (r: Tree)
    ensures
        r@ == cte_unnested(cte@),
    decreases cte@, 0nat,
{
    proof {
        at_is_smaller(cte@, "query"@);
    }
    let query = cte.at("query");
    if query.is_null() {
        cte.copy()
    } else {
        cte.with("query", unnest_query(query))
    }
}

fn unnest_query(q: &Tree) -> (r: Tree)
    ensures
        r@ == query_unnested(q@),
    decreases q@, 0nat,
{
    proof {
        at_is_smaller(q@, "with"@);
        at_is_smaller(q@.at("with"@), "cte_tables"@);
        at_is_smaller(q@, "body"@);
    }
    let with = q.at("with");
    let ctes = match with.at("cte_tables") {
        Tree::List(ctes) => {
            let ghost s = list_of(ctes@);
            proof {
                list_view(*ctes);
                list_field_is_smaller(with@, "cte_tables"@);
                assert(with@.at("cte_tables"@) == Syntax::List(s));
                assert(decreases_to!(q@ => with@));
            }
            let mut out = no_items();
            let mut i: usize = 0;
            while i < ctes.len()
                invariant
                    i <= ctes@.len(),
                    s == list_of(ctes@),
                    decreases_to!(q@ => s),
                    list_of(out@) == ctes_unnested(s).take(i as int),
                decreases ctes@.len() - i,
            {
                assert(decreases_to!(s => s[i as int]));
                let item = unnest_cte(&ctes[i]);
                push_item(&mut out, item);
                i = i + 1;
                assert(ctes_unnested(s).take(i as int) =~= ctes_unnested(s).take(i - 1).push(
                    item@,
                ));
            }
            assert(ctes_unnested(s).take(i as int) =~= ctes_unnested(s));
            q.with("with", with.with("cte_tables", Tree::list(out)))
        },
        _ => q.copy(),
    };
    let body = q.at("body");
    if body.is_null() {
        ctes
    } else {
        ctes.with("body", unnest_body(body))
    }
}

/// Unnests the set-returning functions of the statements that are queries.
pub fn unnest_statements(t: &Tree) -> (r: Tree)
    ensures
        r@ == statements_unnested(t@),
{
    let n: usize = t.len();
    let ghost goal = Seq::new(t@.items().len(), |i: int| statement_unnested(t@.items()[i]));
    let mut out = no_items();
    let mut i: usize = 0;
    while i < n
        invariant
            i <= n,
            n == t@.items().len(),
            goal == Seq::new(t@.items().len(), |i: int| statement_unnested(t@.items()[i])),
            list_of(out@) == goal.take(i as int),
        decreases n - i,
    {
        let statement = t.item(i);
        let item = match statement {
            Tree::Statement(b) => match b.payload("Query") {
                Some(q) => Tree::Statement(Box::new(Tree::variant("Query", unnest_query(q)))),
                None => statement.copy(),
            },
            _ => statement.copy(),
        };
        push_item(&mut out, item);
        i = i + 1;
        assert(item@ == statement_unnested(t@.items()[i - 1]));
        assert(goal.take(i as int) =~= goal.take(i - 1).push(item@));
    }
    assert(goal.take(i as int) =~= goal);
    Tree::list(out)
}

// --- fields of composite values -----------------------------------------------------

/// An access by name as an access by subscript.
pub open spec fn access_as_subscript(access: Syntax) -> Syntax {
    match accessed_field(access) {
        Some(field) => subscript(field),
        None => access,
    }
}

/// `(e)['field']` for `(e).field`, and `f(..)['field']` for `f(..).field`; any other
/// expression as it is.
pub open spec fn fields_as_subscripts(e: Syntax) -> Syntax {
    match e.payload("CompoundFieldAccess"@) {
        Some(c) => {
            let root = c.at("root"@).inner();
            let chain = c.at("access_chain"@).items();
            if root.payload("Nested"@) is Some || root.payload("Function"@) is Some {
                variant(
                    "CompoundFieldAccess"@,
                    c.with(
                        "access_chain"@,
                        Syntax::List(
                            Seq::new(chain.len(), |i: int| access_as_subscript(chain[i])),
                        ),
                    ),
                )
            } else {
                e
            }
        },
        None => e,
    }
}

/// Fields of composite values are accessed by subscript.
pub struct FieldSubscripts;

/// [`fields_as_subscripts`] as a rule.
pub open spec fn subscript_rule() -> Rule {
    |st: ProgressView, e: Syntax| (st, fields_as_subscripts(e))
}

impl Pass for FieldSubscripts {
    open spec fn rule(&self) -> Rule {
        subscript_rule()
    }

    fn apply(&self, st: &mut Progress, e: Tree) -> (r: Tree) {
        if let Some(c) = e.payload("CompoundFieldAccess") {
            let root = c.at("root").inner();
            if root.payload("Nested").is_some() || root.payload("Function").is_some() {
                let chain = c.at("access_chain");
                let n: usize = chain.len();
                let ghost s = chain@.items();
                let ghost goal = Seq::new(s.len(), |i: int| access_as_subscript(s[i]));
                let mut out = no_items();
                let mut i: usize = 0;
                while i < n
                    invariant
                        i <= n,
                        n == s.len(),
                        s == chain@.items(),
                        goal == Seq::new(s.len(), |i: int| access_as_subscript(s[i])),
                        list_of(out@) == goal.take(i as int),
                    decreases n - i,
                {
                    let access = chain.item(i);
                    let item = match get_accessed_field(access) {
                        Some(field) => mk_subscript(field.as_str()),
                        None => access.copy(),
                    };
                    push_item(&mut out, item);
                    i = i + 1;
                    assert(goal.take(i as int) =~= goal.take(i - 1).push(item@));
                }
                assert(goal.take(i as int) =~= goal);
                return Tree::variant(
                    "CompoundFieldAccess",
                    c.with("access_chain", Tree::list(out)),
                );
            }
        }
        e
    }
}

/// Accesses `(e).field` become accesses `(e)['field']`, where `e` is in parentheses or is
/// a call; `t.column[1]` is left alone, as there the name is one of a column.
pub fn convert_dot_field_to_subscript(sql: &str) -> (r: Result<String, SqlError>)
    ensures
        outcome(r) == rewritten_text(subscript_rule(), Layout::Spaces, sql@),
{
    rewrite_text(&FieldSubscripts, Layout::Spaces, sql)
}

/// Whether `e` accesses what a set-returning function returns.
pub open spec fn reads_srf(e: Syntax) -> bool {
    match e.payload("CompoundFieldAccess"@) {
        Some(c) => {
            let root = c.at("root"@).inner();
            match root.payload("Nested"@) {
                Some(n) => is_srf_call(n.inner()),
                None => is_srf_call(root),
            }
        },
        None => false,
    }
}

/// [`fields_as_subscripts`], where the access is not to what a set-returning function returns:
/// such a one belongs to a `SELECT` that is left alone.
pub open spec fn composites_as_subscripts(e: Syntax) -> Syntax {
    if reads_srf(e) {
        e
    } else {
        fields_as_subscripts(e)
    }
}

/// [`composites_as_subscripts`] as a rule.
pub open spec fn composite_rule() -> Rule {
    |st: ProgressView, e: Syntax| (st, composites_as_subscripts(e))
}

/// Fields of composite values other than those of set-returning functions are accessed by
/// subscript.
pub struct CompositeSubscripts;

impl Pass for CompositeSubscripts {
    open spec fn rule(&self) -> Rule {
        composite_rule()
    }

    fn apply(&self, st: &mut Progress, e: Tree) -> (r: Tree) {
        if let Some(c) = e.payload("CompoundFieldAccess") {
            let root = c.at("root").inner();
            let called = match root.payload("Nested") {
                Some(n) => is_bare_srf(n.inner()),
                None => is_bare_srf(root),
            };
            if called {
                return e;
            }
        }
        FieldSubscripts.apply(st, e)
    }
}

/// The text with its set-returning functions unnested and the fields of composite values
/// accessed by subscript.
pub open spec fn srf_text(sql: Seq<char>) -> Result<Seq<char>, SqlFault> {
    match statements_of(SqlDialect::Postgres, sql) {
        Ok(t) => match printed(statements_unnested(t), " "@) {
            Ok(text) => rewritten_text(composite_rule(), Layout::Spaces, text),
            Err(e) => Err(e),
        },
        Err(e) => Err(e),
    }
}

/// `SELECT (srf(x)).a, other FROM t WHERE w` becomes
/// `SELECT __srf_unnest['a'], other FROM (SELECT *, unnest(srf(x)) AS __srf_unnest FROM t
/// WHERE w) AS __srf_src`, and `srf(x) AS y` becomes `unnest(srf(x)) AS y`. A `SELECT` of two
/// different calls is left alone.
pub fn rewrite_srf_to_unnest(sql: &str) -> (r: Result<String, SqlError>)
    ensures
        outcome(r) == srf_text(sql@),
{
    match parse(SqlDialect::Postgres, sql) {
        Ok(t) => match print(&unnest_statements(&t), " ") {
            Ok(text) => rewrite_text(&CompositeSubscripts, Layout::Spaces, text.as_str()),
            Err(e) => Err(e),
        },
        Err(e) => Err(e),
    }
}

} // verus!
