//! Scalar subqueries of a `SELECT` list, as common table expressions that are joined.
use super::ast::{
    aliased_item, binary, get_ident_text, get_item_expr, get_last_part_text, get_query_select,
    get_relation_name, ident, ident_text, item_expr, last_part_text, mk_aliased_item, mk_binary,
    mk_ident, mk_name1, mk_no_joins, mk_table_alias, mk_token, mk_unnamed_item, mk_value_expr,
    name1, no_joins, put_select, query_select, relation_name, table_alias, token, unnamed_item,
    value_expr, with_select,
};
use super::parse::{parse, print, printed, statements_of, SqlDialect, SqlError, SqlFault};
use super::tree::{
    at_is_smaller, expr_node, field_is_smaller, fields_of, inner_is_smaller, item_is_smaller,
    list_field_is_smaller, list_of, list_view, no_fields, no_items, payload_is_smaller, push_item,
    put, record_view, variant, Syntax, Tree,
};
use crate::text::{lowercased, numbered, numbered_text, same, to_lowercase};
use vstd::prelude::*;

verus! {

// --- the parts of an expression -------------------------------------------------------

/// The expression that a node holds, if it is an expression node.
pub open spec fn held(t: Syntax) -> Seq<Syntax> {
    match t {
        Syntax::Expr(b) => seq![*b],
        _ => Seq::empty(),
    }
}

/// The conditions and results of the first `n` branches of a `CASE`.
pub open spec fn branches(s: Seq<Syntax>, n: nat) -> Seq<Syntax>
    decreases n,
{
    if n == 0 {
        Seq::empty()
    } else {
        branches(s, (n - 1) as nat) + held(s[n - 1].at("condition"@)) + held(
            s[n - 1].at("result"@),
        )
    }
}

/// The operands of an operator, of a cast, of parentheses or of a `CASE`, in order; other
/// expressions have none.
pub open spec fn operands(e: Syntax) -> Seq<Syntax> {
    if let Some(b) = e.payload("BinaryOp"@) {
        held(b.at("left"@)) + held(b.at("right"@))
    } else if let Some(u) = e.payload("UnaryOp"@) {
        held(u.at("expr"@))
    } else if let Some(n) = e.payload("Nested"@) {
        held(n)
    } else if let Some(c) = e.payload("Cast"@) {
        held(c.at("expr"@))
    } else if let Some(c) = e.payload("Case"@) {
        let s = c.at("conditions"@).items();
        held(c.at("operand"@)) + branches(s, s.len()) + held(c.at("else_result"@))
    } else {
        Seq::empty()
    }
}

proof fn field_held_is_smaller(t: Syntax, name: Seq<char>)
    ensures
        held(t.at(name)).len() > 0 ==> decreases_to!(t => held(t.at(name))[0]),
{
    at_is_smaller(t, name);
    inner_is_smaller(t.at(name));
}

proof fn branches_are_smaller(e: Syntax, s: Seq<Syntax>, n: nat)
    requires
        n <= s.len(),
        forall|j: int| 0 <= j < s.len() ==> decreases_to!(e => #[trigger] s[j]),
    ensures
        forall|k: int|
            0 <= k < branches(s, n).len() ==> decreases_to!(e => #[trigger] branches(s, n)[k]),
    decreases n,
{
    if n > 0 {
        branches_are_smaller(e, s, (n - 1) as nat);
        let done = branches(s, (n - 1) as nat);
        let c = held(s[n - 1].at("condition"@));
        let r = held(s[n - 1].at("result"@));
        field_held_is_smaller(s[n - 1], "condition"@);
        field_held_is_smaller(s[n - 1], "result"@);
        assert forall|k: int| 0 <= k < branches(s, n).len() implies decreases_to!(
            e => #[trigger] branches(s, n)[k]
        ) by {
            if k < done.len() {
                assert(branches(s, n)[k] == done[k]);
            } else if k < done.len() + c.len() {
                assert(branches(s, n)[k] == c[0]);
            } else {
                assert(branches(s, n)[k] == r[0]);
            }
        }
    }
}

/// Operands are smaller than the expression.
pub proof fn operands_are_smaller(e: Syntax)
    ensures
        forall|k: int| 0 <= k < operands(e).len() ==> decreases_to!(e => #[trigger] operands(e)[k]),
{
    payload_is_smaller(e, "BinaryOp"@);
    payload_is_smaller(e, "UnaryOp"@);
    payload_is_smaller(e, "Nested"@);
    payload_is_smaller(e, "Cast"@);
    payload_is_smaller(e, "Case"@);
    if let Some(b) = e.payload("BinaryOp"@) {
        field_held_is_smaller(b, "left"@);
        field_held_is_smaller(b, "right"@);
    } else if let Some(u) = e.payload("UnaryOp"@) {
        field_held_is_smaller(u, "expr"@);
    } else if let Some(n) = e.payload("Nested"@) {
        inner_is_smaller(n);
    } else if let Some(c) = e.payload("Cast"@) {
        field_held_is_smaller(c, "expr"@);
    } else if let Some(c) = e.payload("Case"@) {
        let s = c.at("conditions"@).items();
        let o = held(c.at("operand"@));
        let b = branches(s, s.len());
        let x = held(c.at("else_result"@));
        field_held_is_smaller(c, "operand"@);
        field_held_is_smaller(c, "else_result"@);
        list_field_is_smaller(c, "conditions"@);
        assert forall|j: int| 0 <= j < s.len() implies decreases_to!(e => #[trigger] s[j]) by {
            assert(decreases_to!(s => s[j]));
        }
        branches_are_smaller(e, s, s.len());
        assert forall|k: int| 0 <= k < operands(e).len() implies decreases_to!(
            e => #[trigger] operands(e)[k]
        ) by {
            if k < o.len() {
                assert(operands(e)[k] == o[0]);
            } else if k < o.len() + b.len() {
                assert(operands(e)[k] == b[k - o.len()]);
            } else {
                assert(operands(e)[k] == x[0]);
            }
        }
    }
}

/// What a list of references says.
pub open spec fn refs_of(v: Seq<&Tree>) -> Seq<Syntax> {
    Seq::new(v.len(), |i: int| v[i]@)
}

fn push_held<'a>(out: &mut Vec<&'a Tree>, t: &'a Tree)
    ensures
        refs_of(final(out)@) == refs_of(old(out)@) + held(t@),
{
    let ghost before = refs_of(out@);
    if let Tree::Expr(b) = t {
        out.push(b);
        assert(refs_of(out@) =~= before.push(t@.inner()));
        assert(before.push(t@.inner()) =~= before + held(t@));
    } else {
        assert(before + held(t@) =~= before);
    }
}

fn push_branches<'a>(out: &mut Vec<&'a Tree>, conditions: &'a Tree)
    ensures
        refs_of(final(out)@) == refs_of(old(out)@) + branches(
            conditions@.items(),
            conditions@.items().len(),
        ),
{
    let n: usize = conditions.len();
    let ghost s = conditions@.items();
    let ghost before = refs_of(out@);
    let mut i: usize = 0;
    assert(before + branches(s, 0) =~= before);
    while i < n
        invariant
            i <= n,
            n == s.len(),
            s == conditions@.items(),
            refs_of(out@) == before + branches(s, i as nat),
        decreases n - i,
    {
        let branch = conditions.item(i);
        push_held(out, branch.at("condition"));
        push_held(out, branch.at("result"));
        i = i + 1;
        assert(refs_of(out@) =~= before + branches(s, i as nat));
    }
}

fn get_operands(e: &Tree) -> (r: Vec<&Tree>)
    ensures
        refs_of(r@) == operands(e@),
{
    let mut out: Vec<&Tree> = Vec::new();
    assert(refs_of(out@) =~= Seq::empty());
    if let Some(b) = e.payload("BinaryOp") {
        push_held(&mut out, b.at("left"));
        push_held(&mut out, b.at("right"));
    } else if let Some(u) = e.payload("UnaryOp") {
        push_held(&mut out, u.at("expr"));
    } else if let Some(n) = e.payload("Nested") {
        push_held(&mut out, n);
    } else if let Some(c) = e.payload("Cast") {
        push_held(&mut out, c.at("expr"));
    } else if let Some(c) = e.payload("Case") {
        push_held(&mut out, c.at("operand"));
        push_branches(&mut out, c.at("conditions"));
        push_held(&mut out, c.at("else_result"));
    }
    assert(refs_of(out@) =~= operands(e@));
    out
}

// --- identifiers and paths --------------------------------------------------------------

/// The quote of an identifier, if it has one.
pub open spec fn ident_quote(id: Syntax) -> Option<Seq<char>> {
    match id.at("quote_style"@) {
        Syntax::Text(s) => Some(s),
        _ => None,
    }
}

/// Whether two identifiers are the same, wherever they stand.
pub open spec fn same_ident(a: Syntax, b: Syntax) -> bool {
    ident_text(a) == ident_text(b) && ident_quote(a) == ident_quote(b)
}

fn same_text(a: Option<&String>, b: Option<&String>) -> (r: bool)
    ensures
        r == match (a, b) {
            (Some(x), Some(y)) => x@ == y@,
            (None, None) => true,
            _ => false,
        },
{
    match (a, b) {
        (Some(x), Some(y)) => same(x.as_str(), y.as_str()),
        (None, None) => true,
        _ => false,
    }
}

fn is_same_ident(a: &Tree, b: &Tree) -> (r: bool)
    ensures
        r == same_ident(a@, b@),
{
    same_text(get_ident_text(a), get_ident_text(b)) && same_text(
        a.at("quote_style").text(),
        b.at("quote_style").text(),
    )
}

/// The identifiers of a qualified column name; none for any other expression.
pub open spec fn path_of(e: Syntax) -> Seq<Syntax> {
    match e.payload("CompoundIdentifier"@) {
        Some(parts) => parts.items(),
        None => Seq::empty(),
    }
}

fn as_path(e: &Tree) -> (r: Tree)
    ensures
        r@.items() == path_of(e@),
{
    match e.payload("CompoundIdentifier") {
        Some(parts) => parts.copy(),
        None => Tree::empty_list(),
    }
}

/// Whether two paths are the same.
pub open spec fn same_path(p: Seq<Syntax>, q: Seq<Syntax>) -> bool {
    p.len() == q.len() && forall|i: int| 0 <= i < p.len() ==> same_ident(#[trigger] p[i], q[i])
}

fn is_same_path(p: &Tree, q: &Tree) -> (r: bool)
    ensures
        r == same_path(p@.items(), q@.items()),
{
    let n: usize = p.len();
    if n != q.len() {
        return false;
    }
    let ghost a = p@.items();
    let ghost b = q@.items();
    let mut i: usize = 0;
    while i < n
        invariant
            i <= n,
            n == a.len(),
            n == b.len(),
            a == p@.items(),
            b == q@.items(),
            forall|j: int| 0 <= j < i ==> same_ident(#[trigger] a[j], b[j]),
        decreases n - i,
    {
        if !is_same_ident(p.item(i), q.item(i)) {
            assert(!same_ident(a[i as int], b[i as int]));
            return false;
        }
        i = i + 1;
    }
    true
}

/// Whether a path begins with `id`.
pub open spec fn begins_with(p: Seq<Syntax>, id: Syntax) -> bool {
    p.len() > 0 && same_ident(p[0], id)
}

fn path_begins_with(p: &Tree, id: &Tree) -> (r: bool)
    ensures
        r == begins_with(p@.items(), id@),
{
    p.len() > 0 && is_same_ident(p.item(0), id)
}

/// The qualified column names in the first `n` operands of `e`.
pub open spec fn paths_in_operands(e: Syntax, n: nat) -> Seq<Seq<Syntax>>
    decreases e, n,
{
    proof {
        operands_are_smaller(e);
    }
    if n == 0 || n > operands(e).len() {
        Seq::empty()
    } else {
        paths_in_operands(e, (n - 1) as nat) + paths_in(operands(e)[n - 1])
    }
}

/// The qualified column names in `e`.
pub open spec fn paths_in(e: Syntax) -> Seq<Seq<Syntax>>
    decreases e, operands(e).len() + 1,
{
    if e.payload("CompoundIdentifier"@) is Some {
        seq![path_of(e)]
    } else {
        paths_in_operands(e, operands(e).len())
    }
}

/// Whether some path begins with `id`.
pub open spec fn some_begins(paths: Seq<Seq<Syntax>>, id: Syntax) -> bool {
    exists|i: int| 0 <= i < paths.len() && begins_with(#[trigger] paths[i], id)
}

/// Whether every path begins with `id`.
pub open spec fn all_begin(paths: Seq<Seq<Syntax>>, id: Syntax) -> bool {
    forall|i: int| 0 <= i < paths.len() ==> begins_with(#[trigger] paths[i], id)
}

proof fn begins_of_sum(a: Seq<Seq<Syntax>>, b: Seq<Seq<Syntax>>, id: Syntax)
    ensures
        some_begins(a + b, id) == (some_begins(a, id) || some_begins(b, id)),
        all_begin(a + b, id) == (all_begin(a, id) && all_begin(b, id)),
{
    let s = a + b;
    assert forall|i: int| 0 <= i < a.len() implies #[trigger] s[i] == a[i] by {}
    assert forall|i: int| 0 <= i < b.len() implies #[trigger] b[i] == s[a.len() + i] by {}
    if some_begins(a, id) {
        let i = choose|i: int| 0 <= i < a.len() && begins_with(#[trigger] a[i], id);
        assert(begins_with(s[i], id));
    }
    if some_begins(b, id) {
        let i = choose|i: int| 0 <= i < b.len() && begins_with(#[trigger] b[i], id);
        assert(begins_with(s[a.len() + i], id));
    }
    if some_begins(s, id) {
        let i = choose|i: int| 0 <= i < s.len() && begins_with(#[trigger] s[i], id);
        if i < a.len() {
            assert(begins_with(a[i], id));
        } else {
            assert(begins_with(b[i - a.len()], id));
        }
    }
    if all_begin(s, id) {
        assert forall|i: int| 0 <= i < a.len() implies begins_with(#[trigger] a[i], id) by {
            assert(begins_with(s[i], id));
        }
        assert forall|i: int| 0 <= i < b.len() implies begins_with(#[trigger] b[i], id) by {
            assert(begins_with(s[a.len() + i], id));
        }
    }
    if all_begin(a, id) && all_begin(b, id) {
        assert forall|i: int| 0 <= i < s.len() implies begins_with(#[trigger] s[i], id) by {
            if i < a.len() {
                assert(begins_with(a[i], id));
            } else {
                assert(begins_with(b[i - a.len()], id));
            }
        }
    }
}

/// Whether some, and whether every, qualified column name in `e` begins with `id`.
fn scan_paths(e: &Tree, id: &Tree) -> (r: (bool, bool))
    ensures
        r.0 == some_begins(paths_in(e@), id@),
        r.1 == all_begin(paths_in(e@), id@),
    decreases e@,
{
    if let Some(parts) = e.payload("CompoundIdentifier") {
        let r = path_begins_with(parts, id);
        assert(paths_in(e@)[0] == path_of(e@));
        assert(r ==> begins_with(paths_in(e@)[0], id@));
        return (r, r);
    }
    proof {
        operands_are_smaller(e@);
    }
    let parts = get_operands(e);
    let mut some = false;
    let mut all = true;
    let mut i: usize = 0;
    while i < parts.len()
        invariant
            i <= parts@.len(),
            refs_of(parts@) == operands(e@),
            forall|k: int|
                0 <= k < operands(e@).len() ==> decreases_to!(e@ => #[trigger] operands(e@)[k]),
            some == some_begins(paths_in_operands(e@, i as nat), id@),
            all == all_begin(paths_in_operands(e@, i as nat), id@),
        decreases parts@.len() - i,
    {
        assert(refs_of(parts@)[i as int] == parts@[i as int]@);
        assert(decreases_to!(e@ => operands(e@)[i as int]));
        let (s, a) = scan_paths(parts[i], id);
        proof {
            begins_of_sum(
                paths_in_operands(e@, i as nat),
                paths_in(operands(e@)[i as int]),
                id@,
            );
        }
        some = some || s;
        all = all && a;
        i = i + 1;
    }
    assert(refs_of(parts@).len() == parts@.len());
    (some, all)
}

/// Whether `e` has qualified column names, all of them of the table `outer`.
pub open spec fn is_outer_only(e: Syntax, outer: Syntax) -> bool {
    some_begins(paths_in(e), outer) && all_begin(paths_in(e), outer)
}

fn outer_only(e: &Tree, outer: &Tree) -> (r: bool)
    ensures
        r == is_outer_only(e@, outer@),
{
    let (some, all) = scan_paths(e, outer);
    some && all
}

// --- conjunctions -----------------------------------------------------------------------

/// The two sides of an `AND`.
pub open spec fn and_sides(e: Syntax) -> Option<(Syntax, Syntax)> {
    match e.payload("BinaryOp"@) {
        Some(b) => if b.at("op"@).is_text("And"@) && b.at("left"@) is Expr && b.at(
            "right"@,
        ) is Expr {
            Some((b.at("left"@).inner(), b.at("right"@).inner()))
        } else {
            None
        },
        None => None,
    }
}

/// The sides of an `AND` are smaller than the whole.
pub proof fn sides_are_smaller(e: Syntax)
    ensures
        match and_sides(e) {
            Some((l, r)) => decreases_to!(e => l) && decreases_to!(e => r),
            None => true,
        },
{
    payload_is_smaller(e, "BinaryOp"@);
    if let Some(b) = e.payload("BinaryOp"@) {
        field_held_is_smaller(b, "left"@);
        field_held_is_smaller(b, "right"@);
    }
}

fn get_and_sides(e: &Tree) -> (r: Option<(&Tree, &Tree)>)
    ensures
        match r {
            Some(p) => and_sides(e@) == Some((p.0@, p.1@)),
            None => and_sides(e@) is None,
        },
{
    if let Some(b) = e.payload("BinaryOp") {
        if b.at("op").is_text("And") {
            if let Tree::Expr(l) = b.at("left") {
                if let Tree::Expr(r) = b.at("right") {
                    return Some((l, r));
                }
            }
        }
    }
    None
}

/// The conjuncts of `e`: `[a, b, c]` of `a AND b AND c`.
pub open spec fn conjuncts(e: Syntax) -> Seq<Syntax>
    decreases e,
{
    proof {
        sides_are_smaller(e);
    }
    match and_sides(e) {
        Some((l, r)) => conjuncts(l) + conjuncts(r),
        None => seq![e],
    }
}

fn split_and(e: &Tree, out: &mut Vec<Tree>)
    ensures
        list_of(final(out)@) == list_of(old(out)@) + conjuncts(e@),
    decreases e@,
{
    proof {
        sides_are_smaller(e@);
    }
    let ghost before = list_of(out@);
    match get_and_sides(e) {
        Some((l, r)) => {
            split_and(l, out);
            split_and(r, out);
            assert(list_of(out@) =~= before + conjuncts(e@));
        },
        None => {
            push_item(out, e.copy());
            assert(list_of(out@) =~= before + conjuncts(e@));
        },
    }
}

/// The conjunction of `parts`, from the left; none for no parts.
pub open spec fn conjunction(parts: Seq<Syntax>) -> Option<Syntax>
    decreases parts.len(),
{
    if parts.len() == 0 {
        None
    } else {
        match conjunction(parts.drop_last()) {
            Some(left) => Some(binary(left, Syntax::Text("And"@), parts.last())),
            None => Some(parts.last()),
        }
    }
}

fn build_and(parts: &Vec<Tree>) -> (r: Option<Tree>)
    ensures
        match r {
            Some(t) => conjunction(list_of(parts@)) == Some(t@),
            None => conjunction(list_of(parts@)) is None,
        },
{
    let ghost all = list_of(parts@);
    let mut out: Option<Tree> = None;
    let mut i: usize = 0;
    while i < parts.len()
        invariant
            i <= parts@.len(),
            all == list_of(parts@),
            match out {
                Some(t) => conjunction(all.take(i as int)) == Some(t@),
                None => conjunction(all.take(i as int)) is None,
            },
        decreases parts@.len() - i,
    {
        assert(all.take(i + 1).drop_last() =~= all.take(i as int));
        assert(all.take(i + 1).last() == parts@[i as int]@);
        out = match out {
            Some(left) => Some(mk_binary(left, "And", parts[i].copy())),
            None => Some(parts[i].copy()),
        };
        i = i + 1;
    }
    assert(all.take(i as int) =~= all);
    out
}

// --- correlated comparisons --------------------------------------------------------------

/// A comparison of a column of the outer query with one of the subquery.
pub struct CorrPred {
    pub outer: Tree,
    pub inner: Tree,
    pub op: String,
}

/// What a [`CorrPred`] says.
pub struct CorrView {
    pub outer: Seq<Syntax>,
    pub inner: Seq<Syntax>,
    pub op: Seq<char>,
}

impl View for CorrPred {
    type V = CorrView;

    open spec fn view(&self) -> CorrView {
        CorrView { outer: self.outer@.items(), inner: self.inner@.items(), op: self.op@ }
    }
}

pub open spec fn preds_of(v: Seq<CorrPred>) -> Seq<CorrView> {
    Seq::new(v.len(), |i: int| v[i]@)
}

/// Whether an operator compares: `=`, `<>`, `<`, `<=`, `>` or `>=`.
pub open spec fn is_comparison(op: Seq<char>) -> bool {
    op == "Eq"@ || op == "NotEq"@ || op == "Lt"@ || op == "LtEq"@ || op == "Gt"@ || op == "GtEq"@
}

fn comparison(op: &str) -> (r: bool)
    ensures
        r == is_comparison(op@),
{
    same(op, "Eq") || same(op, "NotEq") || same(op, "Lt") || same(op, "LtEq") || same(op, "Gt")
        || same(op, "GtEq")
}

/// The comparison the other way round.
pub open spec fn flipped(op: Seq<char>) -> Seq<char> {
    if op == "Lt"@ {
        "Gt"@
    } else if op == "LtEq"@ {
        "GtEq"@
    } else if op == "Gt"@ {
        "Lt"@
    } else if op == "GtEq"@ {
        "LtEq"@
    } else {
        op
    }
}

fn flip(op: &str) -> (r: String)
    ensures
        r@ == flipped(op@),
{
    if same(op, "Lt") {
        "Gt".to_owned()
    } else if same(op, "LtEq") {
        "GtEq".to_owned()
    } else if same(op, "Gt") {
        "Lt".to_owned()
    } else if same(op, "GtEq") {
        "LtEq".to_owned()
    } else {
        op.to_owned()
    }
}

/// The comparison that `e` is, of a column of `outer` with a column of another table. The column
/// of `outer` is on its left side.
pub open spec fn correlated(e: Syntax, outer: Syntax) -> Option<CorrView> {
    match e.payload("BinaryOp"@) {
        Some(b) => match b.at("op"@) {
            Syntax::Text(op) => {
                let l = path_of(b.at("left"@).inner());
                let r = path_of(b.at("right"@).inner());
                if !is_comparison(op) || l.len() == 0 || r.len() == 0 {
                    None
                } else if same_ident(l[0], outer) && !same_ident(r[0], outer) {
                    Some(CorrView { outer: l, inner: r, op })
                } else if same_ident(r[0], outer) && !same_ident(l[0], outer) {
                    Some(CorrView { outer: r, inner: l, op: flipped(op) })
                } else {
                    None
                }
            },
            _ => None,
        },
        None => None,
    }
}

fn get_correlated(e: &Tree, outer: &Tree) -> (r: Option<CorrPred>)
    ensures
        match r {
            Some(p) => correlated(e@, outer@) == Some(p@),
            None => correlated(e@, outer@) is None,
        },
{
    if let Some(b) = e.payload("BinaryOp") {
        if let Some(op) = b.at("op").text() {
            let l = as_path(b.at("left").inner());
            let r = as_path(b.at("right").inner());
            if comparison(op.as_str()) && l.len() > 0 && r.len() > 0 {
                let on_left = is_same_ident(l.item(0), outer);
                let on_right = is_same_ident(r.item(0), outer);
                if on_left && !on_right {
                    return Some(CorrPred { outer: l, inner: r, op: op.clone() });
                }
                if on_right && !on_left {
                    return Some(CorrPred { outer: r, inner: l, op: flip(op.as_str()) });
                }
            }
        }
    }
    None
}

/// The correlated comparisons among the conjuncts of `e`.
pub open spec fn corr_preds(e: Syntax, outer: Syntax) -> Seq<CorrView>
    decreases e,
{
    proof {
        sides_are_smaller(e);
    }
    match and_sides(e) {
        Some((l, r)) => corr_preds(l, outer) + corr_preds(r, outer),
        None => match correlated(e, outer) {
            Some(p) => seq![p],
            None => Seq::empty(),
        },
    }
}

fn collect_corr_preds(e: &Tree, outer: &Tree, out: &mut Vec<CorrPred>)
    ensures
        preds_of(final(out)@) == preds_of(old(out)@) + corr_preds(e@, outer@),
    decreases e@,
{
    proof {
        sides_are_smaller(e@);
    }
    let ghost before = preds_of(out@);
    match get_and_sides(e) {
        Some((l, r)) => {
            collect_corr_preds(l, outer, out);
            collect_corr_preds(r, outer, out);
            assert(preds_of(out@) =~= before + corr_preds(e@, outer@));
        },
        None => {
            if let Some(p) = get_correlated(e, outer) {
                out.push(p);
                assert(preds_of(out@) =~= before + corr_preds(e@, outer@));
            } else {
                assert(before + corr_preds(e@, outer@) =~= before);
            }
        },
    }
}

/// Whether `e` is the comparison `p`, either way round.
pub open spec fn is_pred(e: Syntax, p: CorrView) -> bool {
    match e.payload("BinaryOp"@) {
        Some(b) => {
            let l = path_of(b.at("left"@).inner());
            let r = path_of(b.at("right"@).inner());
            ||| b.at("op"@).is_text(p.op) && same_path(l, p.outer) && same_path(r, p.inner)
            ||| b.at("op"@).is_text(flipped(p.op)) && same_path(r, p.outer) && same_path(l, p.inner)
        },
        None => false,
    }
}

fn is_same_pred(e: &Tree, p: &CorrPred) -> (r: bool)
    ensures
        r == is_pred(e@, p@),
{
    if let Some(b) = e.payload("BinaryOp") {
        let l = as_path(b.at("left").inner());
        let r = as_path(b.at("right").inner());
        let op = b.at("op");
        return (op.is_text(p.op.as_str()) && is_same_path(&l, &p.outer) && is_same_path(
            &r,
            &p.inner,
        )) || (op.is_text(flip(p.op.as_str()).as_str()) && is_same_path(&r, &p.outer)
            && is_same_path(&l, &p.inner));
    }
    false
}

/// Whether `e` is one of the comparisons.
pub open spec fn is_lifted(e: Syntax, preds: Seq<CorrView>) -> bool {
    exists|i: int| 0 <= i < preds.len() && is_pred(e, #[trigger] preds[i])
}

fn lifted(e: &Tree, preds: &Vec<CorrPred>) -> (r: bool)
    ensures
        r == is_lifted(e@, preds_of(preds@)),
{
    let ghost all = preds_of(preds@);
    let mut i: usize = 0;
    while i < preds.len()
        invariant
            i <= preds@.len(),
            all == preds_of(preds@),
            forall|j: int| 0 <= j < i ==> !is_pred(e@, #[trigger] all[j]),
        decreases preds@.len() - i,
    {
        if is_same_pred(e, &preds[i]) {
            assert(is_pred(e@, all[i as int]));
            return true;
        }
        i = i + 1;
    }
    false
}

/// The conjuncts among the first `n` that are neither correlated comparisons nor about the
/// outer query alone.
pub open spec fn local_conjuncts(
    s: Seq<Syntax>,
    n: nat,
    preds: Seq<CorrView>,
    outer: Syntax,
) -> Seq<Syntax>
    decreases n,
{
    if n == 0 {
        Seq::empty()
    } else {
        let done = local_conjuncts(s, (n - 1) as nat, preds, outer);
        if is_lifted(s[n - 1], preds) || is_outer_only(s[n - 1], outer) {
            done
        } else {
            done.push(s[n - 1])
        }
    }
}

/// The conjuncts among the first `n` that are about the outer query alone.
pub open spec fn outer_conjuncts(s: Seq<Syntax>, n: nat, outer: Syntax) -> Seq<Syntax>
    decreases n,
{
    if n == 0 {
        Seq::empty()
    } else {
        let done = outer_conjuncts(s, (n - 1) as nat, outer);
        if is_outer_only(s[n - 1], outer) {
            done.push(s[n - 1])
        } else {
            done
        }
    }
}

// --- what is to be rewritten ----------------------------------------------------------------

/// A scalar subquery of the `SELECT` list.
pub struct Scalar {
    /// Where it stands.
    pub index: usize,
    /// The name that its column has in the `SELECT` list; `Null` for none.
    pub alias: Tree,
    pub subquery: Tree,
    pub preds: Vec<CorrPred>,
    pub outer_only: Vec<Tree>,
}

/// What a [`Scalar`] says.
pub struct ScalarView {
    pub index: nat,
    pub alias: Syntax,
    pub subquery: Syntax,
    pub preds: Seq<CorrView>,
    pub outer_only: Seq<Syntax>,
}

impl View for Scalar {
    type V = ScalarView;

    open spec fn view(&self) -> ScalarView {
        ScalarView {
            index: self.index as nat,
            alias: self.alias@,
            subquery: self.subquery@,
            preds: preds_of(self.preds@),
            outer_only: list_of(self.outer_only@),
        }
    }
}

pub open spec fn scalars_of(v: Seq<Scalar>) -> Seq<ScalarView> {
    Seq::new(v.len(), |i: int| v[i]@)
}

/// The alias of a select item; `Null` where it has none.
pub open spec fn item_alias(item: Syntax) -> Syntax {
    match item.payload("ExprWithAlias"@) {
        Some(a) => a.at("alias"@),
        None => Syntax::Null,
    }
}

/// The scalar subquery that the select item at `index` is, if it is one over a plain
/// `SELECT`.
pub open spec fn scalar_item(index: nat, item: Syntax, outer: Syntax) -> Option<ScalarView> {
    match item_expr(item) {
        Some(e) => match e.payload("Subquery"@) {
            Some(q) => match query_select(q) {
                Some(select) => {
                    let selection = select.at("selection"@);
                    let s = conjuncts(selection.inner());
                    Some(
                        ScalarView {
                            index,
                            alias: item_alias(item),
                            subquery: q,
                            preds: if selection == Syntax::Null {
                                Seq::empty()
                            } else {
                                corr_preds(selection.inner(), outer)
                            },
                            outer_only: if selection == Syntax::Null {
                                Seq::empty()
                            } else {
                                outer_conjuncts(s, s.len(), outer)
                            },
                        },
                    )
                },
                None => None,
            },
            None => None,
        },
        None => None,
    }
}

fn collect_outer_only(selection: &Tree, outer: &Tree) -> (r: Vec<Tree>)
    ensures
        ({
            let s = conjuncts(selection@);
            list_of(r@) == outer_conjuncts(s, s.len(), outer@)
        }),
{
    let mut parts = no_items();
    split_and(selection, &mut parts);
    let ghost s = conjuncts(selection@);
    assert(list_of(parts@) =~= s);
    let mut out = no_items();
    let mut i: usize = 0;
    while i < parts.len()
        invariant
            i <= parts@.len(),
            list_of(parts@) == s,
            list_of(out@) == outer_conjuncts(s, i as nat, outer@),
        decreases parts@.len() - i,
    {
        assert(s[i as int] == parts@[i as int]@);
        if outer_only(&parts[i], outer) {
            push_item(&mut out, parts[i].copy());
        }
        i = i + 1;
    }
    assert(s.len() == parts@.len());
    out
}

fn analyse_scalar(index: usize, item: &Tree, outer: &Tree) -> (r: Option<Scalar>)
    ensures
        match r {
            Some(s) => scalar_item(index as nat, item@, outer@) == Some(s@),
            None => scalar_item(index as nat, item@, outer@) is None,
        },
{
    if let Some(e) = get_item_expr(item) {
        if let Some(q) = e.payload("Subquery") {
            if let Some(select) = get_query_select(q) {
                let selection = select.at("selection");
                let mut preds: Vec<CorrPred> = Vec::new();
                let mut only = no_items();
                assert(preds_of(preds@) =~= Seq::empty());
                if !selection.is_null() {
                    only = collect_outer_only(selection.inner(), outer);
                    collect_corr_preds(selection.inner(), outer, &mut preds);
                    assert(preds_of(preds@) =~= corr_preds(selection@.inner(), outer@));
                }
                let alias = match item.payload("ExprWithAlias") {
                    Some(a) => a.at("alias").copy(),
                    None => Tree::Null,
                };
                return Some(Scalar { index, alias, subquery: q.copy(), preds, outer_only: only });
            }
        }
    }
    None
}

/// The scalar subqueries among the first `n` select items.
pub open spec fn scalars(items: Seq<Syntax>, n: nat, outer: Syntax) -> Seq<ScalarView>
    decreases n,
{
    if n == 0 {
        Seq::empty()
    } else {
        let done = scalars(items, (n - 1) as nat, outer);
        match scalar_item((n - 1) as nat, items[n - 1], outer) {
            Some(s) => done.push(s),
            None => done,
        }
    }
}

/// Scalar subqueries stand where they were found, and there are no more of them than items.
pub proof fn scalars_stand_in_items(items: Seq<Syntax>, n: nat, outer: Syntax)
    requires
        n <= items.len(),
    ensures
        scalars(items, n, outer).len() <= n,
        forall|k: int|
            0 <= k < scalars(items, n, outer).len() ==> (#[trigger] scalars(
                items,
                n,
                outer,
            )[k]).index < n,
    decreases n,
{
    if n > 0 {
        scalars_stand_in_items(items, (n - 1) as nat, outer);
    }
}

fn collect_scalars(items: &Tree, outer: &Tree) -> (r: Vec<Scalar>)
    ensures
        scalars_of(r@) == scalars(items@.items(), items@.items().len(), outer@),
{
    let n: usize = items.len();
    let ghost s = items@.items();
    let mut out: Vec<Scalar> = Vec::new();
    let mut i: usize = 0;
    assert(scalars_of(out@) =~= Seq::empty());
    while i < n
        invariant
            i <= n,
            n == s.len(),
            s == items@.items(),
            scalars_of(out@) == scalars(s, i as nat, outer@),
        decreases n - i,
    {
        let ghost before = scalars_of(out@);
        if let Some(x) = analyse_scalar(i, items.item(i), outer) {
            out.push(x);
            assert(scalars_of(out@) =~= before.push(x@));
        }
        i = i + 1;
    }
    out
}

// --- the common table expression -----------------------------------------------------------

/// The name of the `k`-th common table expression, from one on.
pub open spec fn cte_name(k: nat) -> Seq<char> {
    numbered("__cte"@, k)
}

/// The column with the path `p`.
pub open spec fn column_at(p: Seq<Syntax>) -> Syntax {
    variant("CompoundIdentifier"@, Syntax::List(p))
}

/// Whether a select item is the column with the path `p`, without an alias.
pub open spec fn item_is_column(item: Syntax, p: Seq<Syntax>) -> bool {
    match item.payload("UnnamedExpr"@) {
        Some(e) => match e.inner().payload("CompoundIdentifier"@) {
            Some(parts) => same_path(parts.items(), p),
            None => false,
        },
        None => false,
    }
}

/// Whether the column with the path `p` is selected.
pub open spec fn selects_column(items: Seq<Syntax>, p: Seq<Syntax>) -> bool {
    exists|i: int| 0 <= i < items.len() && item_is_column(#[trigger] items[i], p)
}

fn is_selected(items: &Vec<Tree>, p: &Tree) -> (r: bool)
    ensures
        r == selects_column(list_of(items@), p@.items()),
{
    let ghost s = list_of(items@);
    let mut i: usize = 0;
    while i < items.len()
        invariant
            i <= items@.len(),
            s == list_of(items@),
            forall|j: int| 0 <= j < i ==> !item_is_column(#[trigger] s[j], p@.items()),
        decreases items@.len() - i,
    {
        assert(s[i as int] == items@[i as int]@);
        if let Some(e) = items[i].payload("UnnamedExpr") {
            if let Some(parts) = e.inner().payload("CompoundIdentifier") {
                if is_same_path(parts, p) {
                    assert(item_is_column(s[i as int], p@.items()));
                    return true;
                }
            }
        }
        i = i + 1;
    }
    false
}

/// The select items, with the inner columns of the first `n` comparisons added where they
/// are missing.
pub open spec fn with_keys(items: Seq<Syntax>, preds: Seq<CorrView>, n: nat) -> Seq<Syntax>
    decreases n,
{
    if n == 0 {
        items
    } else {
        let done = with_keys(items, preds, (n - 1) as nat);
        let p = preds[n - 1].inner;
        if selects_column(done, p) {
            done
        } else {
            done.push(unnamed_item(column_at(p)))
        }
    }
}

/// The select items with the first one named `col`, unless it has a name.
pub open spec fn with_col(items: Seq<Syntax>) -> Seq<Syntax> {
    if items.len() > 0 && items[0].payload("UnnamedExpr"@) is Some {
        items.update(0, aliased_item(items[0].payload("UnnamedExpr"@)->0.inner(), "col"@))
    } else {
        items
    }
}

fn as_column(p: &Tree) -> (r: Tree)
    ensures
        r@ == column_at(p@.items()),
{
    let n: usize = p.len();
    let ghost s = p@.items();
    let mut out = no_items();
    let mut i: usize = 0;
    assert(s.take(0) =~= Seq::empty());
    while i < n
        invariant
            i <= n,
            n == s.len(),
            s == p@.items(),
            list_of(out@) == s.take(i as int),
        decreases n - i,
    {
        push_item(&mut out, p.item(i).copy());
        i = i + 1;
        assert(s.take(i as int) =~= s.take(i - 1).push(s[i - 1]));
    }
    assert(s.take(i as int) =~= s);
    Tree::variant("CompoundIdentifier", Tree::list(out))
}

/// Whether `s` names an aggregate function.
pub open spec fn is_aggregate_name(s: Seq<char>) -> bool {
    let l = lowercased(s);
    l == "sum"@ || l == "count"@ || l == "avg"@ || l == "min"@ || l == "max"@ || l == "array_agg"@
        || l == "string_agg"@ || l == "bool_and"@ || l == "bool_or"@
}

/// Whether a call is that of an aggregate function.
pub open spec fn is_aggregate_call(f: Syntax) -> bool {
    match last_part_text(f.at("name"@)) {
        Some(s) => is_aggregate_name(s) && f.at("over"@) == Syntax::Null,
        None => false,
    }
}

/// Whether an aggregate function is called in `t`, outside of subqueries.
pub open spec fn aggregates(t: Syntax) -> bool
    decreases t,
{
    match t {
        Syntax::List(s) => exists|i: int| 0 <= i < s.len() && aggregates(#[trigger] s[i]),
        Syntax::Record(f) => {
            &&& t.payload("Subquery"@) is None && t.payload("Exists"@) is None
            &&& {
                ||| t.payload("Function"@) is Some && is_aggregate_call(t.payload("Function"@)->0)
                ||| exists|i: int| 0 <= i < f.len() && aggregates((#[trigger] f[i]).1)
            }
        },
        Syntax::Expr(b) => aggregates(*b),
        Syntax::Statement(b) => aggregates(*b),
        Syntax::Relation(b) => aggregates(*b),
        _ => false,
    }
}

fn names_aggregate(s: &str) -> (r: bool)
    ensures
        r == is_aggregate_name(s@),
{
    let lower = to_lowercase(s);
    let l = lower.as_str();
    same(l, "sum") || same(l, "count") || same(l, "avg") || same(l, "min") || same(l, "max")
        || same(l, "array_agg") || same(l, "string_agg") || same(
            l,
            "bool_and",
        ) || same(l, "bool_or")
}

fn calls_aggregate(f: &Tree) -> (r: bool)
    ensures
        r == is_aggregate_call(f@),
{
    match get_last_part_text(f.at("name")) {
        Some(s) => names_aggregate(s.as_str()) && f.at("over").is_null(),
        None => false,
    }
}

pub fn has_aggregates(t: &Tree) -> (r: bool)
    ensures
        r == aggregates(t@),
    decreases t,
{
    match t {
        Tree::List(v) => {
            proof {
                list_view(*v);
            }
            let mut i: usize = 0;
            while i < v.len()
                invariant
                    i <= v@.len(),
                    *t == Tree::List(*v),
                    t@ == Syntax::List(list_of(v@)),
                    forall|j: int| 0 <= j < i ==> !aggregates(#[trigger] list_of(v@)[j]),
                decreases v@.len() - i,
            {
                proof {
                    item_is_smaller(*t, i as int);
                }
                if has_aggregates(&v[i]) {
                    assert(aggregates(t@->List_0[i as int]));
                    return true;
                }
                i = i + 1;
            }
            false
        },
        Tree::Record(v) => {
            proof {
                record_view(*v);
            }
            if t.payload("Subquery").is_some() || t.payload("Exists").is_some() {
                return false;
            }
            if let Some(f) = t.payload("Function") {
                if calls_aggregate(f) {
                    return true;
                }
            }
            let mut i: usize = 0;
            while i < v.len()
                invariant
                    i <= v@.len(),
                    *t == Tree::Record(*v),
                    t@ == Syntax::Record(fields_of(v@)),
                    t@.payload("Subquery"@) is None && t@.payload("Exists"@) is None,
                    !(t@.payload("Function"@) is Some && is_aggregate_call(
                        t@.payload("Function"@)->0,
                    )),
                    forall|j: int| 0 <= j < i ==> !aggregates((#[trigger] fields_of(v@)[j]).1),
                decreases v@.len() - i,
            {
                proof {
                    field_is_smaller(*t, i as int);
                }
                if has_aggregates(&v[i].value) {
                    assert(aggregates(fields_of(v@)[i as int].1));
                    return true;
                }
                i = i + 1;
            }
            false
        },
        Tree::Expr(b) => has_aggregates(b),
        Tree::Statement(b) => has_aggregates(b),
        Tree::Relation(b) => has_aggregates(b),
        _ => false,
    }
}

/// Whether the column with the path `p` is one of the expressions.
pub open spec fn groups_by(exprs: Seq<Syntax>, p: Seq<Syntax>) -> bool {
    exists|i: int| 0 <= i < exprs.len() && is_column_at(#[trigger] exprs[i], p)
}

/// Whether an expression is the column with the path `p`.
pub open spec fn is_column_at(e: Syntax, p: Seq<Syntax>) -> bool {
    match e.inner().payload("CompoundIdentifier"@) {
        Some(parts) => same_path(parts.items(), p),
        None => false,
    }
}

/// The expressions of a `GROUP BY`, with the inner columns of the first `n` comparisons added
/// where they are missing.
pub open spec fn with_group_keys(exprs: Seq<Syntax>, preds: Seq<CorrView>, n: nat) -> Seq<Syntax>
    decreases n,
{
    if n == 0 {
        exprs
    } else {
        let done = with_group_keys(exprs, preds, (n - 1) as nat);
        let p = preds[n - 1].inner;
        if groups_by(done, p) {
            done
        } else {
            done.push(expr_node(column_at(p)))
        }
    }
}

/// The clause `GROUP BY` of a subquery that is joined on the inner columns of `preds`: a value
/// for each of their combinations, where the subquery puts rows together. A subquery that does
/// not is not grouped.
pub open spec fn grouped_by(select: Syntax, preds: Seq<CorrView>) -> Syntax {
    let g = select.at("group_by"@);
    match g.payload("Expressions"@) {
        Some(e) => if preds.len() > 0 && (aggregates(select.at("projection"@)) || e.item(
            0,
        ).items().len() > 0) {
            variant(
                "Expressions"@,
                Syntax::List(
                    seq![
                        Syntax::List(with_group_keys(e.item(0).items(), preds, preds.len())),
                        e.item(1),
                    ],
                ),
            )
        } else {
            g
        },
        None => g,
    }
}

fn is_grouped_by(exprs: &Vec<Tree>, p: &Tree) -> (r: bool)
    ensures
        r == groups_by(list_of(exprs@), p@.items()),
{
    let ghost s = list_of(exprs@);
    let mut i: usize = 0;
    while i < exprs.len()
        invariant
            i <= exprs@.len(),
            s == list_of(exprs@),
            forall|j: int| 0 <= j < i ==> !is_column_at(#[trigger] s[j], p@.items()),
        decreases exprs@.len() - i,
    {
        assert(s[i as int] == exprs@[i as int]@);
        if let Some(parts) = exprs[i].inner().payload("CompoundIdentifier") {
            if is_same_path(parts, p) {
                assert(is_column_at(s[i as int], p@.items()));
                return true;
            }
        }
        i = i + 1;
    }
    false
}

fn group_keys(exprs: &Tree, preds: &Vec<CorrPred>) -> (r: Tree)
    ensures
        r@ == Syntax::List(
            with_group_keys(exprs@.items(), preds_of(preds@), preds_of(preds@).len()),
        ),
{
    let n: usize = exprs.len();
    let ghost own = exprs@.items();
    let mut out = no_items();
    let mut i: usize = 0;
    assert(own.take(0) =~= Seq::empty());
    while i < n
        invariant
            i <= n,
            n == own.len(),
            own == exprs@.items(),
            list_of(out@) == own.take(i as int),
        decreases n - i,
    {
        push_item(&mut out, exprs.item(i).copy());
        i = i + 1;
        assert(own.take(i as int) =~= own.take(i - 1).push(own[i - 1]));
    }
    assert(own.take(i as int) =~= own);
    let ghost all = preds_of(preds@);
    let mut k: usize = 0;
    while k < preds.len()
        invariant
            k <= preds@.len(),
            all == preds_of(preds@),
            list_of(out@) == with_group_keys(own, all, k as nat),
        decreases preds@.len() - k,
    {
        assert(all[k as int] == preds@[k as int]@);
        if !is_grouped_by(&out, &preds[k].inner) {
            push_item(&mut out, Tree::expr(as_column(&preds[k].inner)));
        }
        k = k + 1;
    }
    assert(all.len() == preds@.len());
    Tree::list(out)
}

fn group_subquery(select: &Tree, preds: &Vec<CorrPred>) -> (r: Tree)
    ensures
        r@ == grouped_by(select@, preds_of(preds@)),
{
    let g = select.at("group_by");
    if let Some(e) = g.payload("Expressions") {
        if preds.len() > 0 && (has_aggregates(select.at("projection")) || e.item(0).len() > 0) {
            let keys = group_keys(e.item(0), preds);
            return Tree::variant("Expressions", Tree::list2(keys, e.item(1).copy()));
        }
    }
    g.copy()
}

/// The subquery without its correlated conditions, with its value named `col`, with the columns
/// that it is joined on, and grouped by these where it puts rows together.
pub open spec fn lifted_subquery(x: ScalarView, outer: Syntax) -> Syntax {
    let select = query_select(x.subquery)->0;
    let selection = select.at("selection"@);
    let s = conjuncts(selection.inner());
    let kept = if selection == Syntax::Null {
        Syntax::Null
    } else {
        match conjunction(local_conjuncts(s, s.len(), x.preds, outer)) {
            Some(e) => expr_node(e),
            None => Syntax::Null,
        }
    };
    let items = with_keys(with_col(select.at("projection"@).items()), x.preds, x.preds.len());
    with_select(
        x.subquery,
        select.with("selection"@, kept).with("projection"@, Syntax::List(items)).with(
            "group_by"@,
            grouped_by(select, x.preds),
        ),
    )
}

fn local_condition(selection: &Tree, preds: &Vec<CorrPred>, outer: &Tree) -> (r: Tree)
    ensures
        ({
            let s = conjuncts(selection@.inner());
            r@ == if selection@ == Syntax::Null {
                Syntax::Null
            } else {
                match conjunction(local_conjuncts(s, s.len(), preds_of(preds@), outer@)) {
                    Some(e) => expr_node(e),
                    None => Syntax::Null,
                }
            }
        }),
{
    if selection.is_null() {
        return Tree::Null;
    }
    let mut parts = no_items();
    split_and(selection.inner(), &mut parts);
    let ghost s = conjuncts(selection@.inner());
    assert(list_of(parts@) =~= s);
    let mut kept = no_items();
    let mut i: usize = 0;
    while i < parts.len()
        invariant
            i <= parts@.len(),
            list_of(parts@) == s,
            list_of(kept@) == local_conjuncts(s, i as nat, preds_of(preds@), outer@),
        decreases parts@.len() - i,
    {
        assert(s[i as int] == parts@[i as int]@);
        if !lifted(&parts[i], preds) && !outer_only(&parts[i], outer) {
            push_item(&mut kept, parts[i].copy());
        }
        i = i + 1;
    }
    assert(s.len() == parts@.len());
    match build_and(&kept) {
        Some(e) => Tree::expr(e),
        None => Tree::Null,
    }
}

fn name_col(items: &Tree) -> (r: Vec<Tree>)
    ensures
        list_of(r@) == with_col(items@.items()),
{
    let n: usize = items.len();
    let ghost s = items@.items();
    let mut out = no_items();
    let mut i: usize = 0;
    while i < n
        invariant
            i <= n,
            n == s.len(),
            s == items@.items(),
            list_of(out@) == with_col(s).take(i as int),
        decreases n - i,
    {
        let item = items.item(i);
        let mut copy = item.copy();
        if i == 0 {
            if let Some(e) = item.payload("UnnamedExpr") {
                copy = mk_aliased_item(e.inner().copy(), "col");
            }
        }
        push_item(&mut out, copy);
        i = i + 1;
        assert(with_col(s).take(i as int) =~= with_col(s).take(i - 1).push(with_col(s)[i - 1]));
    }
    assert(with_col(s).take(i as int) =~= with_col(s));
    out
}

fn add_keys(items: &mut Vec<Tree>, preds: &Vec<CorrPred>)
    ensures
        list_of(final(items)@) == with_keys(
            list_of(old(items)@),
            preds_of(preds@),
            preds_of(preds@).len(),
        ),
{
    let ghost before = list_of(items@);
    let ghost all = preds_of(preds@);
    let mut i: usize = 0;
    while i < preds.len()
        invariant
            i <= preds@.len(),
            all == preds_of(preds@),
            list_of(items@) == with_keys(before, all, i as nat),
        decreases preds@.len() - i,
    {
        assert(all[i as int] == preds@[i as int]@);
        if !is_selected(items, &preds[i].inner) {
            push_item(items, mk_unnamed_item(as_column(&preds[i].inner)));
        }
        i = i + 1;
    }
    assert(all.len() == preds@.len());
}

fn lift_subquery(x: &Scalar, outer: &Tree) -> (r: Tree)
    requires
        query_select(x.subquery@) is Some,
    ensures
        r@ == lifted_subquery(x@, outer@),
{
    if let Some(select) = get_query_select(&x.subquery) {
        let kept = local_condition(select.at("selection"), &x.preds, outer);
        let mut items = name_col(select.at("projection"));
        add_keys(&mut items, &x.preds);
        return put_select(
            &x.subquery,
            select.with("selection", kept).with("projection", Tree::list(items)).with(
                "group_by",
                group_subquery(select, &x.preds),
            ),
        );
    }
    x.subquery.copy()
}

/// The common table expression `name AS (query)`.
pub open spec fn cte(name: Seq<char>, query: Syntax) -> Syntax {
    Syntax::Record(
        Seq::empty().push(("alias"@, table_alias(name, false))).push(("query"@, query)).push(
            ("from"@, Syntax::Null),
        ).push(("materialized"@, Syntax::Null)).push(
            ("closing_paren_token"@, token(Syntax::Text("RParen"@))),
        ),
    )
}

fn mk_cte(name: &str, query: Tree) -> (r: Tree)
    ensures
        r@ == cte(name@, query@),
{
    let f = put(no_fields(), "alias", mk_table_alias(name, false));
    let f = put(f, "query", query);
    let f = put(f, "from", Tree::Null);
    let f = put(f, "materialized", Tree::Null);
    Tree::record(put(f, "closing_paren_token", mk_token("RParen")))
}

/// The clause `WITH` with the common table expressions `ctes`.
pub open spec fn with_clause(ctes: Seq<Syntax>) -> Syntax {
    Syntax::Record(
        Seq::empty().push(("with_token"@, token(Syntax::Text("EOF"@)))).push(
            ("recursive"@, Syntax::Bool(false)),
        ).push(("cte_tables"@, Syntax::List(ctes))),
    )
}

/// The clause `WITH` with one more common table expression.
pub open spec fn with_cte(clause: Syntax, c: Syntax) -> Syntax {
    if clause == Syntax::Null {
        with_clause(seq![c])
    } else {
        clause.with("cte_tables"@, Syntax::List(clause.at("cte_tables"@).items().push(c)))
    }
}

/// A copy of the items of a list, with one more.
fn appended(list: &Tree, item: Tree) -> (r: Tree)
    ensures
        r@ == Syntax::List(list@.items().push(item@)),
{
    let n: usize = list.len();
    let ghost s = list@.items();
    let mut out = no_items();
    let mut i: usize = 0;
    assert(s.take(0) =~= Seq::empty());
    while i < n
        invariant
            i <= n,
            n == s.len(),
            s == list@.items(),
            list_of(out@) == s.take(i as int),
        decreases n - i,
    {
        push_item(&mut out, list.item(i).copy());
        i = i + 1;
        assert(s.take(i as int) =~= s.take(i - 1).push(s[i - 1]));
    }
    assert(s.take(i as int) =~= s);
    push_item(&mut out, item);
    Tree::list(out)
}

fn add_cte(clause: &Tree, c: Tree) -> (r: Tree)
    ensures
        r@ == with_cte(clause@, c@),
{
    if clause.is_null() {
        let f = put(no_fields(), "with_token", mk_token("EOF"));
        let f = put(f, "recursive", Tree::Bool(false));
        return Tree::record(put(f, "cte_tables", Tree::list1(c)));
    }
    let ctes = appended(clause.at("cte_tables"), c);
    clause.with("cte_tables", ctes)
}

// --- the join -----------------------------------------------------------------------------

/// The table `name`, as a table factor.
pub open spec fn plain_table(name: Seq<char>) -> Syntax {
    variant(
        "Table"@,
        Syntax::Record(
            Seq::empty().push(("name"@, Syntax::Relation(Box::new(name1(name))))).push(
                ("alias"@, Syntax::Null),
            ).push(("args"@, Syntax::Null)).push(("with_hints"@, Syntax::List(Seq::empty()))).push(
                ("version"@, Syntax::Null),
            ).push(("with_ordinality"@, Syntax::Bool(false))).push(
                ("partitions"@, Syntax::List(Seq::empty())),
            ).push(("json_path"@, Syntax::Null)).push(("sample"@, Syntax::Null)).push(
                ("index_hints"@, Syntax::List(Seq::empty())),
            ),
        ),
    )
}

fn mk_plain_table(name: &str) -> (r: Tree)
    ensures
        r@ == plain_table(name@),
{
    let f = put(no_fields(), "name", Tree::Relation(Box::new(mk_name1(name))));
    let f = put(f, "alias", Tree::Null);
    let f = put(f, "args", Tree::Null);
    let f = put(f, "with_hints", Tree::empty_list());
    let f = put(f, "version", Tree::Null);
    let f = put(f, "with_ordinality", Tree::Bool(false));
    let f = put(f, "partitions", Tree::empty_list());
    let f = put(f, "json_path", Tree::Null);
    let f = put(f, "sample", Tree::Null);
    let f = put(f, "index_hints", Tree::empty_list());
    Tree::variant("Table", Tree::record(f))
}

/// The comparison `p`, with the inner column read from the table `name`.
pub open spec fn joined_on(name: Seq<char>, p: CorrView) -> Syntax {
    binary(
        column_at(p.outer),
        Syntax::Text(p.op),
        column_at(
            if p.inner.len() > 0 {
                p.inner.update(0, ident(name))
            } else {
                p.inner
            },
        ),
    )
}

/// The conditions that the table `name` is joined on.
pub open spec fn join_conditions(name: Seq<char>, x: ScalarView) -> Seq<Syntax> {
    Seq::new(x.preds.len(), |i: int| joined_on(name, x.preds[i])) + x.outer_only
}

/// The left join with the table `name` on the conditions of `x`; on `true` if it has none.
pub open spec fn left_join(name: Seq<char>, x: ScalarView) -> Syntax {
    Syntax::Record(
        Seq::empty().push(("relation"@, plain_table(name))).push(
            ("global"@, Syntax::Bool(false)),
        ).push(
            (
                "join_operator"@,
                match conjunction(join_conditions(name, x)) {
                    Some(e) => variant("LeftOuter"@, variant("On"@, expr_node(e))),
                    None => variant(
                        "Left"@,
                        variant(
                            "On"@,
                            expr_node(value_expr(variant("Boolean"@, Syntax::Bool(true)))),
                        ),
                    ),
                },
            ),
        ),
    )
}

fn rename_first(p: &Tree, name: &str) -> (r: Tree)
    ensures
        r@ == column_at(
            if p@.items().len() > 0 {
                p@.items().update(0, ident(name@))
            } else {
                p@.items()
            },
        ),
{
    let n: usize = p.len();
    let ghost s = if p@.items().len() > 0 {
        p@.items().update(0, ident(name@))
    } else {
        p@.items()
    };
    let mut out = no_items();
    let mut i: usize = 0;
    assert(s.take(0) =~= Seq::empty());
    while i < n
        invariant
            i <= n,
            n == p@.items().len(),
            s.len() == n,
            n > 0 ==> s == p@.items().update(0, ident(name@)),
            list_of(out@) == s.take(i as int),
        decreases n - i,
    {
        if i == 0 {
            push_item(&mut out, mk_ident(name));
        } else {
            push_item(&mut out, p.item(i).copy());
        }
        i = i + 1;
        assert(s.take(i as int) =~= s.take(i - 1).push(s[i - 1]));
    }
    assert(s.take(i as int) =~= s);
    Tree::variant("CompoundIdentifier", Tree::list(out))
}

fn mk_join_conditions(name: &str, x: &Scalar) -> (r: Vec<Tree>)
    ensures
        list_of(r@) == join_conditions(name@, x@),
{
    let ghost goal = join_conditions(name@, x@);
    let ghost k = x@.preds.len();
    let mut out = no_items();
    let mut i: usize = 0;
    assert(goal.take(0) =~= Seq::empty());
    while i < x.preds.len()
        invariant
            i <= x.preds@.len(),
            goal == join_conditions(name@, x@),
            k == x@.preds.len(),
            k == x.preds@.len(),
            list_of(out@) == goal.take(i as int),
        decreases x.preds@.len() - i,
    {
        let p = &x.preds[i];
        let condition = mk_binary(
            as_column(&p.outer),
            p.op.as_str(),
            rename_first(&p.inner, name),
        );
        assert(x@.preds[i as int] == p@);
        assert(goal[i as int] == condition@);
        push_item(&mut out, condition);
        i = i + 1;
        assert(goal.take(i as int) =~= goal.take(i - 1).push(goal[i - 1]));
    }
    let mut j: usize = 0;
    while j < x.outer_only.len()
        invariant
            j <= x.outer_only@.len(),
            goal == join_conditions(name@, x@),
            k == x@.preds.len(),
            list_of(out@) == goal.take(k + j),
        decreases x.outer_only@.len() - j,
    {
        assert(goal[k + j] == x.outer_only@[j as int]@);
        push_item(&mut out, x.outer_only[j].copy());
        j = j + 1;
        assert(goal.take(k + j) =~= goal.take(k + j - 1).push(goal[k + j - 1]));
    }
    assert(goal.take(k + j) =~= goal);
    out
}

fn build_left_join(name: &str, x: &Scalar) -> (r: Tree)
    ensures
        r@ == left_join(name@, x@),
{
    let conditions = mk_join_conditions(name, x);
    let operator = match build_and(&conditions) {
        Some(e) => Tree::variant("LeftOuter", Tree::variant("On", Tree::expr(e))),
        None => {
            let yes = mk_value_expr(Tree::variant("Boolean", Tree::Bool(true)));
            Tree::variant("Left", Tree::variant("On", Tree::expr(yes)))
        },
    };
    let f = put(no_fields(), "relation", mk_plain_table(name));
    let f = put(f, "global", Tree::Bool(false));
    Tree::record(put(f, "join_operator", operator))
}

/// The `FROM` clause with the table `name` joined to its first item; the table alone if it
/// is empty.
pub open spec fn joined_from(from: Seq<Syntax>, name: Seq<char>, x: ScalarView) -> Seq<Syntax> {
    if from.len() == 0 {
        seq![no_joins(plain_table(name))]
    } else {
        from.update(
            0,
            from[0].with(
                "joins"@,
                Syntax::List(from[0].at("joins"@).items().push(left_join(name, x))),
            ),
        )
    }
}

fn add_join(from: &Tree, name: &str, x: &Scalar) -> (r: Tree)
    ensures
        r@ == Syntax::List(joined_from(from@.items(), name@, x@)),
{
    let n: usize = from.len();
    if n == 0 {
        return Tree::list1(mk_no_joins(mk_plain_table(name)));
    }
    let ghost goal = joined_from(from@.items(), name@, x@);
    let first = from.item(0);
    let joins = appended(first.at("joins"), build_left_join(name, x));
    let mut out = no_items();
    push_item(&mut out, first.with("joins", joins));
    let mut i: usize = 1;
    assert(goal.take(1) =~= list_of(out@));
    while i < n
        invariant
            1 <= i <= n,
            n == from@.items().len(),
            goal == joined_from(from@.items(), name@, x@),
            list_of(out@) == goal.take(i as int),
        decreases n - i,
    {
        push_item(&mut out, from.item(i).copy());
        i = i + 1;
        assert(goal.take(i as int) =~= goal.take(i - 1).push(goal[i - 1]));
    }
    assert(goal.take(i as int) =~= goal);
    Tree::list(out)
}

// --- the whole query ------------------------------------------------------------------------

/// The identifier that the columns of the outer query are named by: the alias or else the
/// first part of the name of its first table, and `_outer` where it has none.
pub open spec fn outer_alias(select: Syntax) -> Syntax {
    let relation = select.at("from"@).item(0).at("relation"@);
    let table = relation.payload("Table"@);
    let derived = relation.payload("Derived"@);
    if table is Some && table->0.at("alias"@) != Syntax::Null {
        table->0.at("alias"@).at("name"@)
    } else if derived is Some && derived->0.at("alias"@) != Syntax::Null {
        derived->0.at("alias"@).at("name"@)
    } else if table is Some {
        match relation_name(table->0.at("name"@)).item(0).payload("Identifier"@) {
            Some(id) => id,
            None => ident("_outer"@),
        }
    } else {
        ident("_outer"@)
    }
}

fn get_outer_alias(select: &Tree) -> (r: Tree)
    ensures
        r@ == outer_alias(select@),
{
    let from = select.at("from");
    if from.len() > 0 {
        let relation = from.item(0).at("relation");
        if let Some(t) = relation.payload("Table") {
            if !t.at("alias").is_null() {
                return t.at("alias").at("name").copy();
            }
        }
        if let Some(d) = relation.payload("Derived") {
            if !d.at("alias").is_null() {
                return d.at("alias").at("name").copy();
            }
        }
        if let Some(t) = relation.payload("Table") {
            let name = get_relation_name(t.at("name"));
            if name.len() > 0 {
                if let Some(id) = name.item(0).payload("Identifier") {
                    return id.copy();
                }
            }
        }
    }
    mk_ident("_outer")
}

/// The `WITH` and the `FROM` clause after the first `n` scalar subqueries have become common
/// table expressions.
pub open spec fn lifted_clauses(
    clause: Syntax,
    from: Seq<Syntax>,
    s: Seq<ScalarView>,
    n: nat,
    outer: Syntax,
) -> (Syntax, Seq<Syntax>)
    decreases n,
{
    if n == 0 {
        (clause, from)
    } else {
        let (c, f) = lifted_clauses(clause, from, s, (n - 1) as nat, outer);
        let x = s[n - 1];
        (
            with_cte(c, cte(cte_name(n), lifted_subquery(x, outer))),
            joined_from(f, cte_name(n), x),
        )
    }
}

/// The select item that reads the `k`-th common table expression.
pub open spec fn value_item(k: nat, x: ScalarView) -> Syntax {
    variant(
        "ExprWithAlias"@,
        Syntax::Record(
            Seq::empty().push(
                ("expr"@, expr_node(column_at(seq![ident(cte_name(k)), ident("col"@)]))),
            ).push(
                (
                    "alias"@,
                    if x.alias == Syntax::Null {
                        ident(numbered("subq"@, k))
                    } else {
                        x.alias
                    },
                ),
            ),
        ),
    )
}

/// The select items, with the first `n` scalar subqueries read from their common table
/// expressions.
pub open spec fn lifted_items(items: Seq<Syntax>, s: Seq<ScalarView>, n: nat) -> Seq<Syntax>
    decreases n,
{
    if n == 0 {
        items
    } else {
        lifted_items(items, s, (n - 1) as nat).update(
            s[n - 1].index as int,
            value_item(n, s[n - 1]),
        )
    }
}

/// A query without scalar subqueries in its `SELECT` list, and how many there were.
pub open spec fn lifted_query(q: Syntax) -> (Syntax, nat) {
    match query_select(q) {
        Some(select) => {
            let outer = outer_alias(select);
            let items = select.at("projection"@).items();
            let s = scalars(items, items.len(), outer);
            let (clause, from) = lifted_clauses(
                q.at("with"@),
                select.at("from"@).items(),
                s,
                s.len(),
                outer,
            );
            (
                with_select(
                    q,
                    select.with("from"@, Syntax::List(from)).with(
                        "projection"@,
                        Syntax::List(lifted_items(items, s, s.len())),
                    ),
                ).with("with"@, clause),
                s.len(),
            )
        },
        None => (q, 0),
    }
}

fn mk_value_item(k: u64, x: &Scalar) -> (r: Tree)
    ensures
        r@ == value_item(k as nat, x@),
{
    let name = numbered_text("__cte", k);
    let path = Tree::list2(mk_ident(name.as_str()), mk_ident("col"));
    let alias = if x.alias.is_null() {
        mk_ident(numbered_text("subq", k).as_str())
    } else {
        x.alias.copy()
    };
    let f = put(no_fields(), "expr", Tree::expr(Tree::variant("CompoundIdentifier", path)));
    Tree::variant("ExprWithAlias", Tree::record(put(f, "alias", alias)))
}

fn copy_items(list: &Tree) -> (r: Vec<Tree>)
    ensures
        list_of(r@) == list@.items(),
{
    let n: usize = list.len();
    let ghost s = list@.items();
    let mut out = no_items();
    let mut i: usize = 0;
    assert(s.take(0) =~= Seq::empty());
    while i < n
        invariant
            i <= n,
            n == s.len(),
            s == list@.items(),
            list_of(out@) == s.take(i as int),
        decreases n - i,
    {
        push_item(&mut out, list.item(i).copy());
        i = i + 1;
        assert(s.take(i as int) =~= s.take(i - 1).push(s[i - 1]));
    }
    assert(s.take(i as int) =~= s);
    out
}

proof fn lifted_items_len(items: Seq<Syntax>, s: Seq<ScalarView>, n: nat)
    requires
        n <= s.len(),
        forall|k: int| 0 <= k < s.len() ==> (#[trigger] s[k]).index < items.len(),
    ensures
        lifted_items(items, s, n).len() == items.len(),
    decreases n,
{
    if n > 0 {
        lifted_items_len(items, s, (n - 1) as nat);
        assert(s[n - 1].index < items.len());
    }
}

proof fn scalars_are_selects(items: Seq<Syntax>, n: nat, outer: Syntax)
    ensures
        forall|k: int|
            0 <= k < scalars(items, n, outer).len() ==> query_select(
                (#[trigger] scalars(items, n, outer)[k]).subquery,
            ) is Some,
    decreases n,
{
    if n > 0 {
        scalars_are_selects(items, (n - 1) as nat, outer);
    }
}

fn visit_query(q: &Tree) -> (r: (Tree, usize))
    ensures
        (r.0@, r.1 as nat) == lifted_query(q@),
{
    if let Some(select) = get_query_select(q) {
        let outer = get_outer_alias(select);
        let projection = select.at("projection");
        let ghost items = projection@.items();
        let found = collect_scalars(projection, &outer);
        let ghost s = scalars_of(found@);
        proof {
            scalars_stand_in_items(items, items.len(), outer@);
            scalars_are_selects(items, items.len(), outer@);
        }
        let ghost from0 = select@.at("from"@).items();
        let mut clause = q.at("with").copy();
        let mut from = Tree::list(copy_items(select.at("from")));
        let mut out = copy_items(projection);
        let mut i: usize = 0;
        while i < found.len()
            invariant
                i <= found@.len(),
                s == scalars_of(found@),
                s == scalars(items, items.len(), outer@),
                forall|k: int| 0 <= k < s.len() ==> (#[trigger] s[k]).index < items.len(),
                forall|k: int|
                    0 <= k < s.len() ==> query_select((#[trigger] s[k]).subquery) is Some,
                from@ == Syntax::List(from@.items()),
                (clause@, from@.items()) == lifted_clauses(
                    q@.at("with"@),
                    from0,
                    s,
                    i as nat,
                    outer@,
                ),
                list_of(out@) == lifted_items(items, s, i as nat),
            decreases found@.len() - i,
        {
            let x = &found[i];
            assert(s[i as int] == x@);
            proof {
                lifted_items_len(items, s, i as nat);
            }
            let ghost before = list_of(out@);
            let k = i as u64 + 1;
            let name = numbered_text("__cte", k);
            clause = add_cte(&clause, mk_cte(name.as_str(), lift_subquery(x, &outer)));
            from = add_join(&from, name.as_str(), x);
            let item = mk_value_item(k, x);
            assert(before.len() == out@.len());
            out.set(x.index, item);
            assert(list_of(out@) =~= before.update(x.index as int, item@));
            i = i + 1;
        }
        let select = select.with("from", from).with("projection", Tree::list(out));
        return (put_select(q, select).with("with", clause), found.len());
    }
    (q.copy(), 0)
}

// --- texts ------------------------------------------------------------------------------------

/// A rewritten query, and how many scalar subqueries it had.
#[derive(Debug, Clone, PartialEq, Eq)]
pub struct RewriteOutcome {
    pub sql: String,
    pub converted: usize,
}

/// The last statement of a text.
pub open spec fn last_statement(sql: Seq<char>) -> Result<Syntax, SqlFault> {
    match statements_of(SqlDialect::Generic, sql) {
        Ok(t) => if t.items().len() == 0 {
            Err(SqlFault::Plan("Empty SQL string"@))
        } else {
            Ok(t.items()[t.items().len() - 1])
        },
        Err(SqlFault::Parse(why)) => Err(SqlFault::Plan("SQL parse error: "@ + why)),
        Err(e) => Err(e),
    }
}

/// The syntax tree of the last statement of `sql`.
pub fn parse_sql(sql: &str) -> (r: Result<Tree, SqlError>)
    ensures
        match r {
            Ok(t) => last_statement(sql@) == Ok::<Syntax, SqlFault>(t@),
            Err(e) => last_statement(sql@) == Err::<Syntax, SqlFault>(e@),
        },
{
    match parse(SqlDialect::Generic, sql) {
        Ok(t) => {
            let n: usize = t.len();
            if n == 0 {
                return Err(SqlError::Plan("Empty SQL string".to_owned()));
            }
            Ok(t.item(n - 1).copy())
        },
        Err(SqlError::Parse(why)) => {
            let mut text = "SQL parse error: ".to_owned();
            text.append(why.as_str());
            Err(SqlError::Plan(text))
        },
        Err(e) => Err(e),
    }
}

/// What [`rewrite`] makes of a text: its last statement, rewritten, and how many scalar
/// subqueries that had.
pub open spec fn lifted_text(sql: Seq<char>) -> Result<(Seq<char>, nat), SqlFault> {
    match last_statement(sql) {
        Ok(last) => {
            let (out, n) = lifted_statement(last);
            match printed(Syntax::List(seq![out]), ""@) {
                Ok(s) => Ok((s, n)),
                Err(e) => Err(e),
            }
        },
        Err(e) => Err(e),
    }
}

/// A statement without scalar subqueries in its `SELECT` list, and how many there were.
pub open spec fn lifted_statement(t: Syntax) -> (Syntax, nat) {
    match t {
        Syntax::Statement(s) => match s.payload("Query"@) {
            Some(q) => {
                let (out, n) = lifted_query(q);
                (Syntax::Statement(Box::new(variant("Query"@, out))), n)
            },
            None => (t, 0),
        },
        _ => (t, 0),
    }
}

/// The statement without scalar subqueries in its `SELECT` list, and how many there were.
pub fn visit_statement(t: &Tree) -> (r: (Tree, usize))
    ensures
        (r.0@, r.1 as nat) == lifted_statement(t@),
{
    if let Tree::Statement(s) = t {
        if let Some(q) = s.payload("Query") {
            let (out, n) = visit_query(q);
            return (Tree::Statement(Box::new(Tree::variant("Query", out))), n);
        }
    }
    (t.copy(), 0)
}

/// Turns the scalar subqueries in the `SELECT` list of the last statement of `sql` into
/// common table expressions that are joined to the first table: `SELECT (SELECT max(b) FROM
/// t2 WHERE t2.id = t1.id) FROM t1` becomes `WITH __cte1 AS (SELECT max(b) AS col, t2.id FROM
/// t2 GROUP BY t2.id) SELECT __cte1.col AS subq1 FROM t1 LEFT OUTER JOIN __cte1 ON t1.id =
/// __cte1.id`.
pub fn rewrite(sql: &str) -> (r: Result<RewriteOutcome, SqlError>)
    ensures
        match r {
            Ok(o) => lifted_text(sql@) == Ok::<(Seq<char>, nat), SqlFault>(
                (o.sql@, o.converted as nat),
            ),
            Err(e) => lifted_text(sql@) == Err::<(Seq<char>, nat), SqlFault>(e@),
        },
{
    match parse_sql(sql) {
        Ok(last) => {
            let (out, converted) = visit_statement(&last);
            match print(&Tree::list1(out), "") {
                Ok(sql) => Ok(RewriteOutcome { sql, converted }),
                Err(e) => Err(e),
            }
        },
        Err(e) => Err(e),
    }
}

/// [`rewrite`] for a text that can be rewritten.
pub fn rewrite_subquery_as_cte(sql: &str) -> (r: String)
    requires
        lifted_text(sql@) is Ok,
    ensures
        lifted_text(sql@)->Ok_0.0 == r@,
{
    match rewrite(sql) {
        Ok(o) => o.sql,
        Err(_) => String::new(),
    }
}

/// [`rewrite_subquery_as_cte`] for any text; `None` where it cannot be rewritten.
pub fn try_rewrite_subquery_as_cte(sql: &str) -> (r: Option<String>)
    ensures
        match r {
            Some(s) => lifted_text(sql@) is Ok && lifted_text(sql@)->Ok_0.0 == s@,
            None => lifted_text(sql@) is Err,
        },
{
    match rewrite(sql) {
        Ok(_) => Some(rewrite_subquery_as_cte(sql)),
        Err(_) => None,
    }
}

// --- finding scalar subqueries ----------------------------------------------------------------

/// The subqueries and `EXISTS` tests in the first `n` operands of `e`.
pub open spec fn subqueries_in_operands(e: Syntax, n: nat) -> Seq<Syntax>
    decreases e, n,
{
    proof {
        operands_are_smaller(e);
    }
    if n == 0 || n > operands(e).len() {
        Seq::empty()
    } else {
        subqueries_in_operands(e, (n - 1) as nat) + subqueries_in(operands(e)[n - 1])
    }
}

/// The subqueries and `EXISTS` tests that `e` is made of, from left to right.
pub open spec fn subqueries_in(e: Syntax) -> Seq<Syntax>
    decreases e, operands(e).len() + 1,
{
    if e.payload("Subquery"@) is Some || e.payload("Exists"@) is Some {
        seq![e]
    } else {
        subqueries_in_operands(e, operands(e).len())
    }
}

/// Adds the subqueries in `e` to `out`.
fn find_in_expr(e: &Tree, out: &mut Vec<Tree>)
    ensures
        list_of(final(out)@) == list_of(old(out)@) + subqueries_in(e@),
    decreases e@,
{
    if e.payload("Subquery").is_some() || e.payload("Exists").is_some() {
        push_item(out, e.copy());
        assert(list_of(out@) =~= list_of(old(out)@) + seq![e@]);
        return;
    }
    proof {
        operands_are_smaller(e@);
    }
    let parts = get_operands(e);
    let mut i: usize = 0;
    while i < parts.len()
        invariant
            i <= parts@.len(),
            refs_of(parts@) == operands(e@),
            forall|k: int|
                0 <= k < operands(e@).len() ==> decreases_to!(e@ => #[trigger] operands(e@)[k]),
            list_of(out@) == list_of(old(out)@) + subqueries_in_operands(e@, i as nat),
        decreases parts@.len() - i,
    {
        assert(refs_of(parts@)[i as int] == parts@[i as int]@);
        assert(decreases_to!(e@ => operands(e@)[i as int]));
        find_in_expr(parts[i], out);
        i = i + 1;
        assert(list_of(out@) =~= list_of(old(out)@) + subqueries_in_operands(e@, i as nat));
    }
    assert(refs_of(parts@).len() == parts@.len());
}

/// The subqueries in the first `n` items of a `SELECT` list.
pub open spec fn subqueries_in_items(items: Seq<Syntax>, n: nat) -> Seq<Syntax>
    decreases n,
{
    if n == 0 {
        Seq::empty()
    } else {
        subqueries_in_items(items, (n - 1) as nat) + match item_expr(items[n - 1]) {
            Some(e) => subqueries_in(e),
            None => Seq::empty(),
        }
    }
}

/// The subqueries in the `SELECT` list of a statement; none where it is not a plain `SELECT`.
pub open spec fn subqueries_of_statement(t: Syntax) -> Seq<Syntax> {
    match t {
        Syntax::Statement(s) => match s.payload("Query"@) {
            Some(q) => match query_select(q) {
                Some(select) => {
                    let items = select.at("projection"@).items();
                    subqueries_in_items(items, items.len())
                },
                None => Seq::empty(),
            },
            None => Seq::empty(),
        },
        _ => Seq::empty(),
    }
}

/// The scalar subqueries of a statement.
pub struct ScalarFinder {
    pub scalars: Vec<Tree>,
}

impl ScalarFinder {
    /// Collects the subqueries and `EXISTS` tests that stand in the `SELECT` list of `stmt`.
    pub fn find(stmt: &Tree) -> (r: Self)
        ensures
            list_of(r.scalars@) == subqueries_of_statement(stmt@),
    {
        let mut scalars = no_items();
        if let Tree::Statement(s) = stmt {
            if let Some(q) = s.payload("Query") {
                if let Some(select) = get_query_select(q) {
                    let projection = select.at("projection");
                    let ghost items = projection@.items();
                    let mut i: usize = 0;
                    while i < projection.len()
                        invariant
                            items == projection@.items(),
                            i <= items.len(),
                            list_of(scalars@) == subqueries_in_items(items, i as nat),
                        decreases items.len() - i,
                    {
                        if let Some(e) = get_item_expr(projection.item(i)) {
                            find_in_expr(e, &mut scalars);
                        } else {
                            assert(list_of(scalars@) + Seq::<Syntax>::empty() =~= list_of(
                                scalars@,
                            ));
                        }
                        i = i + 1;
                    }
                }
            }
        }
        ScalarFinder { scalars }
    }
}

} // verus!
