//! Lists that are sorted by a text key and hold each key once.
use crate::text::chars;
use vstd::prelude::*;

verus! {

/// Whether `a` comes before `b` in the order of their characters.
pub open spec fn before(a: Seq<char>, b: Seq<char>) -> bool
    decreases a.len(),
{
    if b.len() == 0 {
        false
    } else if a.len() == 0 {
        true
    } else if a[0] == b[0] {
        before(a.skip(1), b.skip(1))
    } else {
        a[0] < b[0]
    }
}

/// Which of two texts comes first, or whether they are the same.
#[derive(Clone, Copy, Debug, PartialEq, Eq, Structural)]
pub enum Order {
    Before,
    Same,
    After,
}

/// How `a` stands to `b`.
pub open spec fn order(a: Seq<char>, b: Seq<char>) -> Order {
    if a == b {
        Order::Same
    } else if before(a, b) {
        Order::Before
    } else {
        Order::After
    }
}

pub fn order_texts(a: &str, b: &str) -> (r: Order)
    ensures
        r == order(a@, b@),
{
    let x = chars(a);
    let y = chars(b);
    let mut i: usize = 0;
    assert(x@.skip(0) =~= x@);
    assert(y@.skip(0) =~= y@);
    while i < x.len() && i < y.len() && x[i] == y[i]
        invariant
            x@ == a@,
            y@ == b@,
            i <= x@.len(),
            i <= y@.len(),
            forall|k: int| 0 <= k < i ==> x@[k] == y@[k],
            before(a@, b@) == before(x@.skip(i as int), y@.skip(i as int)),
        decreases x@.len() - i,
    {
        let ghost p = x@.skip(i as int);
        let ghost q = y@.skip(i as int);
        assert(p[0] == x@[i as int] && q[0] == y@[i as int]);
        assert(p.skip(1) =~= x@.skip(i + 1));
        assert(q.skip(1) =~= y@.skip(i + 1));
        i = i + 1;
    }
    let ghost p = x@.skip(i as int);
    let ghost q = y@.skip(i as int);
    if i == x.len() && i == y.len() {
        assert(a@ =~= b@);
        return Order::Same;
    }
    if i == y.len() {
        assert(a@.len() != b@.len());
        return Order::After;
    }
    if i == x.len() {
        assert(a@.len() != b@.len());
        return Order::Before;
    }
    assert(p[0] == x@[i as int] && q[0] == y@[i as int]);
    assert(a@[i as int] != b@[i as int]);
    if x[i] < y[i] {
        Order::Before
    } else {
        Order::After
    }
}

pub proof fn before_is_strict(a: Seq<char>, b: Seq<char>)
    ensures
        !(before(a, b) && before(b, a)),
        a != b ==> before(a, b) || before(b, a),
        a == b ==> !before(a, b),
    decreases a.len(),
{
    if a.len() > 0 && b.len() > 0 && a[0] == b[0] {
        before_is_strict(a.skip(1), b.skip(1));
        if a.skip(1) == b.skip(1) {
            assert(a =~= seq![a[0]] + a.skip(1));
            assert(b =~= seq![b[0]] + b.skip(1));
        }
    } else if a.len() == 0 && b.len() == 0 {
        assert(a =~= b);
    }
}

pub proof fn before_is_transitive(a: Seq<char>, b: Seq<char>, c: Seq<char>)
    requires
        before(a, b),
        before(b, c),
    ensures
        before(a, c),
    decreases a.len(),
{
    if a.len() > 0 && b.len() > 0 && c.len() > 0 && a[0] == b[0] && b[0] == c[0] {
        before_is_transitive(a.skip(1), b.skip(1), c.skip(1));
    }
}

/// How many of the first entries have a key before `key`.
pub open spec fn place<V>(s: Seq<(Seq<char>, V)>, key: Seq<char>) -> nat
    decreases s.len(),
{
    if s.len() > 0 && before(s[0].0, key) {
        1 + place(s.skip(1), key)
    } else {
        0
    }
}

/// The list with the entry `key`, in its place; an entry that has this key is replaced.
pub open spec fn inserted<V>(s: Seq<(Seq<char>, V)>, key: Seq<char>, value: V) -> Seq<
    (Seq<char>, V),
> {
    let p = place(s, key) as int;
    if p < s.len() && s[p].0 == key {
        s.update(p, (key, value))
    } else {
        s.take(p) + seq![(key, value)] + s.skip(p)
    }
}

/// Whether the keys stand in their order, none of them twice.
pub open spec fn sorted<V>(s: Seq<(Seq<char>, V)>) -> bool {
    forall|i: int, j: int| 0 <= i < j < s.len() ==> before(#[trigger] s[i].0, #[trigger] s[j].0)
}

/// What a sorted list says of each key.
pub open spec fn entry_of<V>(s: Seq<(Seq<char>, V)>, key: Seq<char>) -> Option<V> {
    if exists|i: int| 0 <= i < s.len() && #[trigger] s[i].0 == key {
        Some(s[choose|i: int| 0 <= i < s.len() && #[trigger] s[i].0 == key].1)
    } else {
        None
    }
}

proof fn place_divides<V>(s: Seq<(Seq<char>, V)>, key: Seq<char>)
    requires
        sorted(s),
    ensures
        place(s, key) <= s.len(),
        forall|i: int| 0 <= i < place(s, key) ==> before(#[trigger] s[i].0, key),
        forall|i: int| place(s, key) <= i < s.len() ==> !before(#[trigger] s[i].0, key),
    decreases s.len(),
{
    if s.len() > 0 {
        let tail = s.skip(1);
        if before(s[0].0, key) {
            place_divides(tail, key);
            assert forall|i: int| 0 <= i < place(s, key) implies before(#[trigger] s[i].0, key) by {
                if i > 0 {
                    assert(tail[i - 1] == s[i]);
                }
            }
            assert forall|i: int| place(s, key) <= i < s.len() implies !before(
                #[trigger] s[i].0,
                key,
            ) by {
                assert(tail[i - 1] == s[i]);
            }
        } else {
            assert forall|i: int| 0 <= i < s.len() implies !before(#[trigger] s[i].0, key) by {
                if i > 0 && before(s[i].0, key) {
                    before_is_transitive(s[0].0, s[i].0, key);
                }
            }
        }
    }
}

/// Inserting keeps a list sorted.
pub proof fn inserting_keeps_order<V>(s: Seq<(Seq<char>, V)>, key: Seq<char>, value: V)
    requires
        sorted(s),
    ensures
        sorted(inserted(s, key, value)),
{
    place_divides(s, key);
    let p = place(s, key) as int;
    let t = inserted(s, key, value);
    assert forall|i: int, j: int| 0 <= i < j < t.len() implies before(
        #[trigger] t[i].0,
        #[trigger] t[j].0,
    ) by {
        if p < s.len() && s[p].0 == key {
            assert(t[i].0 == s[i].0 && t[j].0 == s[j].0);
        } else {
            if j < p {
                assert(t[i] == s[i] && t[j] == s[j]);
            } else if j == p {
                assert(t[i] == s[i]);
            } else {
                assert(t[j] == s[j - 1]);
                if i < p {
                    assert(t[i] == s[i]);
                } else if i > p {
                    assert(t[i] == s[i - 1]);
                } else {
                    before_is_strict(s[p].0, key);
                    before_is_strict(s[j - 1].0, key);
                    if s[j - 1].0 == key {
                        assert(before(s[p].0, s[j - 1].0));
                    }
                }
            }
        }
    }
}

/// After an insertion the key has the value that was inserted, and every other key has what it
/// had.
pub proof fn inserted_value_is_found<V>(
    s: Seq<(Seq<char>, V)>,
    key: Seq<char>,
    value: V,
    other: Seq<char>,
)
    requires
        sorted(s),
    ensures
        entry_of(inserted(s, key, value), key) == Some(value),
        other != key ==> entry_of(inserted(s, key, value), other) == entry_of(s, other),
{
    place_divides(s, key);
    inserting_keeps_order(s, key, value);
    let p = place(s, key) as int;
    let t = inserted(s, key, value);
    assert(t[p] == (key, value));
    keys_stand_once(t, key, p);
    if other != key {
        if exists|i: int| 0 <= i < s.len() && #[trigger] s[i].0 == other {
            let i = choose|i: int| 0 <= i < s.len() && #[trigger] s[i].0 == other;
            keys_stand_once(s, other, i);
            if p < s.len() && s[p].0 == key {
                assert(t[i] == s[i]);
                keys_stand_once(t, other, i);
            } else if i < p {
                assert(t[i] == s[i]);
                keys_stand_once(t, other, i);
            } else {
                assert(t[i + 1] == s[i]);
                keys_stand_once(t, other, i + 1);
            }
        } else if exists|i: int| 0 <= i < t.len() && #[trigger] t[i].0 == other {
            let i = choose|i: int| 0 <= i < t.len() && #[trigger] t[i].0 == other;
            if i < p || (p < s.len() && s[p].0 == key) {
                assert(s[i].0 == other);
            } else {
                assert(s[i - 1].0 == other);
            }
        }
    }
}

proof fn keys_stand_once<V>(s: Seq<(Seq<char>, V)>, key: Seq<char>, i: int)
    requires
        sorted(s),
        0 <= i < s.len(),
        s[i].0 == key,
    ensures
        entry_of(s, key) == Some(s[i].1),
{
    let k = choose|k: int| 0 <= k < s.len() && #[trigger] s[k].0 == key;
    before_is_strict(key, key);
    if k < i {
        assert(before(s[k].0, s[i].0));
    } else if i < k {
        assert(before(s[i].0, s[k].0));
    }
}

/// The keys of a list and the views of its values.
pub open spec fn entries_of<T: View>(v: Seq<(String, T)>) -> Seq<(Seq<char>, T::V)> {
    Seq::new(v.len(), |i: int| (v[i].0@, v[i].1@))
}

/// Puts `value` in the place of `key`; an entry that has this key is replaced.
pub fn insert_sorted<T: View>(v: &mut Vec<(String, T)>, key: String, value: T)
    requires
        sorted(entries_of(old(v)@)),
    ensures
        entries_of(final(v)@) == inserted(entries_of(old(v)@), key@, value@),
        sorted(entries_of(final(v)@)),
{
    let ghost s = entries_of(v@);
    let ghost k = key@;
    let mut i: usize = 0;
    assert(s.skip(0) =~= s);
    proof {
        place_divides(s, k);
        inserting_keeps_order(s, k, value@);
    }
    while i < v.len()
        invariant
            i <= v@.len(),
            v@ == old(v)@,
            s == entries_of(v@),
            k == key@,
            s == entries_of(old(v)@),
            place(s, k) == i + place(s.skip(i as int), k),
            place(s, k) <= s.len(),
            sorted(inserted(s, k, value@)),
        decreases v@.len() - i,
    {
        let ghost rest = s.skip(i as int);
        assert(rest[0] == s[i as int]);
        assert(rest.skip(1) =~= s.skip(i + 1));
        proof {
            before_is_strict(s[i as int].0, k);
        }
        match order_texts(v[i].0.as_str(), key.as_str()) {
            Order::Before => {
                i = i + 1;
            },
            Order::Same => {
                let ghost e = (k, value@);
                v.set(i, (key, value));
                assert(entries_of(v@) =~= s.update(i as int, e));
                return;
            },
            Order::After => {
                let ghost e = (k, value@);
                v.insert(i, (key, value));
                assert(entries_of(v@) =~= s.take(i as int) + seq![e] + s.skip(i as int));
                return;
            },
        }
    }
    let ghost e = (k, value@);
    v.push((key, value));
    assert(entries_of(v@) =~= s.take(i as int) + seq![e] + s.skip(i as int));
}

} // verus!
