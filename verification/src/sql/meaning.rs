//! What conditions mean, and what the rewrites of joins make of them.
use super::ast::{binary, ident_text};
use super::cte::{and_sides, conjunction, conjuncts, ident_quote, sides_are_smaller};
use super::tree::{at_is_smaller, expr_node, inner_is_smaller, lookup, payload_is_smaller, Syntax};
use vstd::prelude::*;

verus! {

// --- records ----------------------------------------------------------------------------------

/// A field that no field before it shares its name with is the one that is found.
pub(crate) proof fn field_is_found(fields: Seq<(Seq<char>, Syntax)>, i: int)
    requires
        0 <= i < fields.len(),
        forall|j: int| 0 <= j < i ==> (#[trigger] fields[j]).0 != fields[i].0,
    ensures
        lookup(fields, fields[i].0) == Some(fields[i].1),
        Syntax::Record(fields).at(fields[i].0) == fields[i].1,
    decreases i,
{
    if i > 0 {
        let rest = fields.skip(1);
        assert(fields[0].0 != fields[i].0);
        assert(rest[i - 1] == fields[i]);
        assert forall|j: int| 0 <= j < i - 1 implies (#[trigger] rest[j]).0 != rest[i - 1].0 by {
            assert(rest[j] == fields[j + 1]);
        }
        field_is_found(rest, i - 1);
    }
}

/// The parts of `left op right`.
pub(crate) proof fn binary_parts(left: Syntax, op: Syntax, right: Syntax)
    ensures
        binary(left, op, right).payload("BinaryOp"@) is Some,
        binary(left, op, right).payload("BinaryOp"@)->0.at("left"@) == expr_node(left),
        binary(left, op, right).payload("BinaryOp"@)->0.at("op"@) == op,
        binary(left, op, right).payload("BinaryOp"@)->0.at("right"@) == expr_node(right),
        binary(left, op, right).payload("Nested"@) is None,
{
    reveal_strlit("left");
    reveal_strlit("op");
    reveal_strlit("right");
    reveal_strlit("BinaryOp");
    reveal_strlit("Nested");
    assert("left"@.len() == 4);
    assert("op"@.len() == 2);
    assert("right"@.len() == 5);
    assert("BinaryOp"@.len() == 8);
    assert("Nested"@.len() == 6);
    let fields = Seq::<(Seq<char>, Syntax)>::empty().push(("left"@, expr_node(left))).push(
        ("op"@, op),
    ).push(("right"@, expr_node(right)));
    field_is_found(fields, 0);
    field_is_found(fields, 1);
    field_is_found(fields, 2);
}

// --- what conditions mean ---------------------------------------------------------------------

/// What expressions are taken to be: a column by the texts and the quotes of its name, any other
/// value by itself, and any other condition by itself.
pub struct World {
    pub column: spec_fn(Seq<(Option<Seq<char>>, Option<Seq<char>>)>) -> int,
    pub value: spec_fn(Syntax) -> int,
    pub truth: spec_fn(Syntax) -> bool,
}

/// The texts and the quotes of a name.
pub open spec fn spelling(path: Seq<Syntax>) -> Seq<(Option<Seq<char>>, Option<Seq<char>>)> {
    Seq::new(path.len(), |i: int| (ident_text(path[i]), ident_quote(path[i])))
}

impl World {
    /// The value of a column with a qualified name.
    pub open spec fn column_value(self, path: Seq<Syntax>) -> int {
        (self.column)(spelling(path))
    }

    /// The value of an expression; parentheses do not change it.
    pub open spec fn value_of(self, e: Syntax) -> int
        decreases e,
    {
        proof {
            payload_is_smaller(e, "Nested"@);
            inner_is_smaller(e.payload("Nested"@)->0);
        }
        match (e.payload("Nested"@), e.payload("CompoundIdentifier"@)) {
            (Some(x), _) => if x is Expr {
                self.value_of(x.inner())
            } else {
                (self.value)(e)
            },
            (_, Some(path)) => self.column_value(path.items()),
            _ => (self.value)(e),
        }
    }

    /// Whether a condition holds: `a AND b` if both do, `a OR b` if one does, a comparison if the
    /// values compare so, and the literal `true`.
    pub open spec fn holds(self, e: Syntax) -> bool
        decreases e,
    {
        proof {
            payload_is_smaller(e, "Nested"@);
            inner_is_smaller(e.payload("Nested"@)->0);
            payload_is_smaller(e, "BinaryOp"@);
            at_is_smaller(e.payload("BinaryOp"@)->0, "left"@);
            at_is_smaller(e.payload("BinaryOp"@)->0, "right"@);
            inner_is_smaller(e.payload("BinaryOp"@)->0.at("left"@));
            inner_is_smaller(e.payload("BinaryOp"@)->0.at("right"@));
        }
        if let Some(x) = e.payload("Nested"@) {
            if x is Expr {
                self.holds(x.inner())
            } else {
                (self.truth)(e)
            }
        } else if let Some(b) = e.payload("BinaryOp"@) {
            let l = b.at("left"@);
            let r = b.at("right"@);
            match b.at("op"@) {
                Syntax::Text(op) => if op == "And"@ && l is Expr && r is Expr {
                    self.holds(l.inner()) && self.holds(r.inner())
                } else if op == "Or"@ && l is Expr && r is Expr {
                    self.holds(l.inner()) || self.holds(r.inner())
                } else if compares(op) {
                    compared(op, self.value_of(l.inner()), self.value_of(r.inner()))
                } else {
                    (self.truth)(e)
                },
                _ => (self.truth)(e),
            }
        } else if let Some(v) = e.payload("Value"@) {
            if v.at("value"@).payload("Boolean"@) == Some(Syntax::Bool(true)) {
                true
            } else {
                (self.truth)(e)
            }
        } else {
            (self.truth)(e)
        }
    }

    /// Whether all of some conditions hold.
    pub open spec fn all_hold(self, s: Seq<Syntax>) -> bool {
        forall|i: int| 0 <= i < s.len() ==> self.holds(#[trigger] s[i])
    }
}

/// Whether an operator compares two values.
pub open spec fn compares(op: Seq<char>) -> bool {
    op == "Eq"@ || op == "NotEq"@ || op == "Lt"@ || op == "LtEq"@ || op == "Gt"@ || op == "GtEq"@
}

/// Whether two values compare as an operator says: `=`, `<>`, `<`, `<=`, `>` or `>=`.
pub open spec fn compared(op: Seq<char>, a: int, b: int) -> bool {
    &&& op == "Eq"@ ==> a == b
    &&& op == "NotEq"@ ==> a != b
    &&& op == "Lt"@ ==> a < b
    &&& op == "LtEq"@ ==> a <= b
    &&& op == "Gt"@ ==> a > b
    &&& op == "GtEq"@ ==> a >= b
}

/// The operators are different texts.
pub(crate) proof fn operators_differ()
    ensures
        "Eq"@ != "NotEq"@ && "Eq"@ != "Lt"@ && "Eq"@ != "LtEq"@ && "Eq"@ != "Gt"@ && "Eq"@
            != "GtEq"@,
        "NotEq"@ != "Lt"@ && "NotEq"@ != "LtEq"@ && "NotEq"@ != "Gt"@ && "NotEq"@ != "GtEq"@,
        "Lt"@ != "LtEq"@ && "Lt"@ != "Gt"@ && "Lt"@ != "GtEq"@,
        "LtEq"@ != "Gt"@ && "LtEq"@ != "GtEq"@ && "Gt"@ != "GtEq"@,
        !compares("And"@) && !compares("Or"@) && "And"@ != "Or"@,
{
    reveal_strlit("Eq");
    reveal_strlit("NotEq");
    reveal_strlit("Lt");
    reveal_strlit("LtEq");
    reveal_strlit("Gt");
    reveal_strlit("GtEq");
    reveal_strlit("And");
    reveal_strlit("Or");
    assert("Eq"@.len() == 2 && "Lt"@.len() == 2 && "Gt"@.len() == 2 && "Or"@.len() == 2);
    assert("NotEq"@.len() == 5 && "LtEq"@.len() == 4 && "GtEq"@.len() == 4 && "And"@.len() == 3);
    assert("Eq"@[0] == 'E' && "Lt"@[0] == 'L' && "Gt"@[0] == 'G' && "Or"@[0] == 'O');
    assert("LtEq"@[0] == 'L' && "GtEq"@[0] == 'G');
}

// --- conjunctions -----------------------------------------------------------------------------

/// A condition holds exactly if each of its conjuncts does.
pub proof fn conjuncts_hold_together(w: World, e: Syntax)
    ensures
        w.holds(e) <==> w.all_hold(conjuncts(e)),
    decreases e,
{
    sides_are_smaller(e);
    operators_differ();
    match and_sides(e) {
        Some((l, r)) => {
            conjuncts_hold_together(w, l);
            conjuncts_hold_together(w, r);
            let a = conjuncts(l);
            let b = conjuncts(r);
            let all = conjuncts(e);
            assert(all == a + b);
            reveal_strlit("BinaryOp");
            reveal_strlit("Nested");
            assert("BinaryOp"@.len() == 8 && "Nested"@.len() == 6);
            assert(w.holds(e) == (w.holds(l) && w.holds(r)));
            if w.all_hold(a) && w.all_hold(b) {
                assert forall|i: int| 0 <= i < all.len() implies w.holds(#[trigger] all[i]) by {
                    if i < a.len() {
                        assert(all[i] == a[i]);
                    } else {
                        assert(all[i] == b[i - a.len()]);
                    }
                }
            }
            if w.all_hold(all) {
                assert forall|i: int| 0 <= i < a.len() implies w.holds(#[trigger] a[i]) by {
                    assert(all[i] == a[i]);
                }
                assert forall|i: int| 0 <= i < b.len() implies w.holds(#[trigger] b[i]) by {
                    assert(all[a.len() + i] == b[i]);
                }
            }
        },
        None => {
            assert(conjuncts(e) =~= seq![e]);
            assert(conjuncts(e)[0] == e);
        },
    }
}

/// A conjunction holds exactly if each of its parts does; none has no parts.
pub proof fn conjunction_holds(w: World, parts: Seq<Syntax>)
    ensures
        conjunction(parts) is None <==> parts.len() == 0,
        conjunction(parts) is Some ==> (w.holds(conjunction(parts)->0) <==> w.all_hold(parts)),
    decreases parts.len(),
{
    operators_differ();
    if parts.len() > 0 {
        let before = parts.drop_last();
        conjunction_holds(w, before);
        if let Some(left) = conjunction(before) {
            binary_parts(left, Syntax::Text("And"@), parts.last());
            let whole = conjunction(parts)->0;
            assert(w.holds(whole) == (w.holds(left) && w.holds(parts.last())));
        }
        if w.all_hold(parts) {
            assert forall|i: int| 0 <= i < before.len() implies w.holds(#[trigger] before[i]) by {
                assert(before[i] == parts[i]);
            }
            assert(w.holds(parts[parts.len() - 1]));
        }
        if w.all_hold(before) && w.holds(parts.last()) {
            assert forall|i: int| 0 <= i < parts.len() implies w.holds(#[trigger] parts[i]) by {
                if i < before.len() {
                    assert(parts[i] == before[i]);
                }
            }
        }
    }
}

} // verus!
