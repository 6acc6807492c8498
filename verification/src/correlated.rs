//! Plan rules: which calls are unwrapped, which tests become joins, and which row a scalar
//! subquery takes its value from.
use crate::text::same;
use vstd::prelude::*;

verus! {

/// The rule that unwraps `pg_get_one(x)` to `x`. The wrapper marks a subquery that has one
/// value; in a finished plan it would only stand in the way of other rules.
#[derive(Debug)]
pub struct StripPgGetOne;

impl StripPgGetOne {
    /// Whether a call of the function `name` with `args` arguments is replaced by its argument.
    pub fn unwraps(&self, name: &str, args: usize) -> (r: bool)
        ensures
            r == (name@ == "pg_get_one"@ && args == 1),
    {
        same(name, "pg_get_one") && args == 1
    }
}

/// The uppermost step of a plan, as far as [`ExistsIneqSemiJoin`] reads it.
#[derive(Clone, Copy, Debug, PartialEq, Eq, Structural)]
pub enum PlanStep {
    /// The rows of a plan that meet a condition.
    Filter,
    Other,
}

/// The condition of a step, as far as [`ExistsIneqSemiJoin`] reads it.
#[derive(Clone, Copy, Debug, PartialEq, Eq, Structural)]
pub enum Condition {
    /// `EXISTS` of a plan with this uppermost step.
    Exists(PlanStep),
    Other,
}

/// The rule that makes `EXISTS (SELECT .. WHERE c)` in a filter a left semi join on `c`, which
/// needs no equality between the two sides.
#[derive(Debug)]
pub struct ExistsIneqSemiJoin;

impl ExistsIneqSemiJoin {
    /// Whether a step with this condition becomes the semi join of its input with the input of
    /// the subquery's filter, on that filter's condition.
    pub fn joins(&self, step: PlanStep, condition: Condition) -> (r: bool)
        ensures
            r == (step is Filter && condition == Condition::Exists(PlanStep::Filter)),
    {
        step == PlanStep::Filter && condition == Condition::Exists(PlanStep::Filter)
    }
}

/// The first row of a part of a subquery's result: its keys, and what the remaining condition
/// says of it; `None` where there is no such condition.
#[derive(Debug)]
pub struct Candidate {
    /// How many rows the part has.
    pub rows: usize,
    pub keys: Vec<Option<i32>>,
    pub residual: Option<bool>,
}

/// Whether the keys of two rows agree; NULL agrees with nothing.
pub open spec fn keys_agree(left: Seq<Option<i32>>, right: Seq<Option<i32>>) -> bool {
    forall|k: int| 0 <= k < left.len() ==> (#[trigger] left[k]) is Some && left[k] == right[k]
}

/// Whether the value for a row with the keys `left` is taken from `c`.
pub open spec fn supplies(left: Seq<Option<i32>>, c: Candidate) -> bool {
    c.rows > 0 && keys_agree(left, c.keys@) && c.residual != Some(false)
}

/// The first candidate that supplies the value, from `i` on.
pub open spec fn supplier_from(left: Seq<Option<i32>>, parts: Seq<Candidate>, i: nat) -> Option<nat>
    decreases parts.len() - i,
{
    if i >= parts.len() {
        None
    } else if supplies(left, parts[i as int]) {
        Some(i)
    } else {
        supplier_from(left, parts, i + 1)
    }
}

fn agree(left: &Vec<Option<i32>>, right: &Vec<Option<i32>>) -> (r: bool)
    requires
        left@.len() == right@.len(),
    ensures
        r == keys_agree(left@, right@),
{
    let mut k: usize = 0;
    while k < left.len()
        invariant
            k <= left@.len(),
            left@.len() == right@.len(),
            forall|j: int| 0 <= j < k ==> (#[trigger] left@[j]) is Some && left@[j] == right@[j],
        decreases left@.len() - k,
    {
        let equal = match (left[k], right[k]) {
            (Some(a), Some(b)) => a == b,
            _ => false,
        };
        if !equal {
            assert(!(left@[k as int] is Some && left@[k as int] == right@[k as int]));
            return false;
        }
        k = k + 1;
    }
    true
}

/// The number of the part that the scalar value of a row with the keys `left` is taken from;
/// `None` where the value is NULL.
pub fn find_supplier(left: &Vec<Option<i32>>, parts: &Vec<Candidate>) -> (r: Option<usize>)
    requires
        forall|i: int|
            0 <= i < parts@.len() ==> (#[trigger] parts@[i]).keys@.len() == left@.len(),
    ensures
        match r {
            Some(i) => supplier_from(left@, parts@, 0) == Some(i as nat),
            None => supplier_from(left@, parts@, 0) is None,
        },
{
    let mut i: usize = 0;
    while i < parts.len()
        invariant
            i <= parts@.len(),
            forall|k: int|
                0 <= k < parts@.len() ==> (#[trigger] parts@[k]).keys@.len() == left@.len(),
            supplier_from(left@, parts@, 0) == supplier_from(left@, parts@, i as nat),
        decreases parts@.len() - i,
    {
        let c = &parts[i];
        let refused = match c.residual {
            Some(b) => !b,
            None => false,
        };
        if c.rows > 0 && agree(left, &c.keys) && !refused {
            return Some(i);
        }
        i = i + 1;
    }
    None
}

/// The number of the part that a row takes its value from, for each row.
pub open spec fn suppliers(rows: Seq<Vec<Option<i32>>>, parts: Seq<Candidate>) -> Seq<Option<nat>> {
    Seq::new(rows.len(), |i: int| supplier_from(rows[i]@, parts, 0))
}

/// What numbers that may be absent say.
pub open spec fn numbers(v: Seq<Option<usize>>) -> Seq<Option<nat>> {
    Seq::new(
        v.len(),
        |i: int|
            match v[i] {
                Some(n) => Some(n as nat),
                None => None,
            },
    )
}

/// For each row of keys, the number of the part that its scalar value is taken from; `None`
/// where the value is NULL.
pub fn find_suppliers(rows: &Vec<Vec<Option<i32>>>, parts: &Vec<Candidate>) -> (r: Vec<
    Option<usize>,
>)
    requires
        forall|i: int, k: int|
            0 <= i < parts@.len() && 0 <= k < rows@.len() ==> (#[trigger] parts@[i]).keys@.len()
                == (#[trigger] rows@[k])@.len(),
    ensures
        numbers(r@) == suppliers(rows@, parts@),
{
    let ghost all = suppliers(rows@, parts@);
    let mut out: Vec<Option<usize>> = Vec::new();
    let mut i: usize = 0;
    while i < rows.len()
        invariant
            i <= rows@.len(),
            all == suppliers(rows@, parts@),
            numbers(out@) == all.take(i as int),
            forall|i: int, k: int|
                0 <= i < parts@.len() && 0 <= k < rows@.len() ==> (
                #[trigger] parts@[i]).keys@.len() == (#[trigger] rows@[k])@.len(),
        decreases rows@.len() - i,
    {
        let ghost before = numbers(out@);
        let n = find_supplier(&rows[i], parts);
        out.push(n);
        assert(numbers(out@) =~= before.push(all[i as int]));
        assert(all.take(i + 1) =~= all.take(i as int).push(all[i as int]));
        i = i + 1;
    }
    assert(all.take(i as int) =~= all);
    out
}

// --- laws -------------------------------------------------------------------------------------

/// A row with a NULL key takes its value from nowhere, whatever the subquery has.
pub proof fn null_keys_match_nothing(
    left: Seq<Option<i32>>,
    parts: Seq<Candidate>,
    from: nat,
    k: int,
)
    requires
        0 <= k < left.len(),
        left[k] is None,
    ensures
        supplier_from(left, parts, from) is None,
    decreases parts.len() - from,
{
    if from < parts.len() {
        assert(!(left[k] is Some));
        null_keys_match_nothing(left, parts, from + 1, k);
    }
}

/// Whether the first row of a part is the one that a row with the keys `left` looks for: there is
/// one, each of its keys is the number that `left` has, and the remaining condition is not false.
pub open spec fn is_looked_for(left: Seq<Option<i32>>, c: Candidate) -> bool {
    &&& c.rows > 0
    &&& forall|k: int|
        0 <= k < left.len() ==> (#[trigger] left[k]) is Some && c.keys@[k] is Some && left[k]->0
            == c.keys@[k]->0
    &&& match c.residual {
        Some(holds) => holds,
        None => true,
    }
}

/// A row takes its value from the first part whose first row it looks for, and from nowhere exactly
/// if there is none.
pub proof fn first_match_supplies(left: Seq<Option<i32>>, parts: Seq<Candidate>, from: nat)
    ensures
        match supplier_from(left, parts, from) {
            Some(n) => from <= n < parts.len() && is_looked_for(left, parts[n as int]) && forall|
                j: int,
            |
                from <= j < n ==> !is_looked_for(left, #[trigger] parts[j]),
            None => forall|j: int|
                from <= j < parts.len() ==> !is_looked_for(left, #[trigger] parts[j]),
        },
    decreases parts.len() - from,
{
    if from < parts.len() {
        let c = parts[from as int];
        if is_looked_for(left, c) {
            assert(keys_agree(left, c.keys@));
        }
        if supplies(left, c) {
            assert(is_looked_for(left, c));
        } else {
            assert(!is_looked_for(left, c));
            first_match_supplies(left, parts, from + 1);
            assert forall|j: int|
                from <= j < parts.len() && (supplier_from(left, parts, from) matches Some(n) ==> j
                    < n) implies !is_looked_for(left, #[trigger] parts[j]) by {
                if j > from {
                    assert(from + 1 <= j);
                }
            }
        }
    }
}

} // verus!
