//! Visiting every expression of a statement, innermost first.
use super::tree::{
    field_is_smaller, fields_of, item_is_smaller, list_of, list_view, record_view, Field, Syntax,
    Tree,
};
use crate::text::pairs_of;
use vstd::prelude::*;

verus! {

/// What a pass carries from one expression to the next.
pub struct Progress {
    /// How many fresh names have been handed out.
    pub count: u64,
    /// Whether any expression was rewritten.
    pub changed: bool,
    /// Why the pass gave up, if it did.
    pub fault: Option<String>,
    /// The names that were replaced: each fresh name with the name that it stands for.
    pub names: Vec<(String, String)>,
}

/// What a [`Progress`] says.
pub struct ProgressView {
    pub count: u64,
    pub changed: bool,
    pub fault: Option<Seq<char>>,
    pub names: Seq<(Seq<char>, Seq<char>)>,
}

impl View for Progress {
    type V = ProgressView;

    open spec fn view(&self) -> ProgressView {
        ProgressView {
            count: self.count,
            changed: self.changed,
            fault: match self.fault {
                Some(s) => Some(s@),
                None => None,
            },
            names: pairs_of(self.names@),
        }
    }
}

/// Before the first expression.
pub open spec fn start_view() -> ProgressView {
    ProgressView { count: 0, changed: false, fault: None, names: Seq::empty() }
}

pub fn start() -> (r: Progress)
    ensures
        r@ == start_view(),
{
    let r = Progress { count: 0, changed: false, fault: None, names: Vec::new() };
    assert(r@.names =~= Seq::empty());
    r
}

impl ProgressView {
    /// The same progress, with something rewritten.
    pub open spec fn mark(self) -> ProgressView {
        ProgressView { changed: true, ..self }
    }

    /// The same progress, given up for the reason `why`.
    pub open spec fn give_up(self, why: Seq<char>) -> ProgressView {
        ProgressView { fault: Some(why), ..self }
    }

    /// The same progress, with the fresh name `fresh` for `name`.
    pub open spec fn record(self, fresh: Seq<char>, name: Seq<char>) -> ProgressView {
        ProgressView { names: self.names.push((fresh, name)), ..self }
    }

    /// The progress after one more fresh name.
    pub open spec fn next(self) -> ProgressView {
        ProgressView {
            count: if self.count < u64::MAX {
                (self.count + 1) as u64
            } else {
                self.count
            },
            ..self
        }
    }

    /// The progress after the fresh name with the number `n`.
    pub open spec fn advance(self, n: u64) -> ProgressView {
        ProgressView { count: n, ..self }
    }
}

impl Progress {
    pub fn advance(&mut self, n: u64)
        ensures
            final(self)@ == old(self)@.advance(n),
    {
        self.count = n;
    }

    pub fn mark(&mut self)
        ensures
            final(self)@ == old(self)@.mark(),
    {
        self.changed = true;
    }

    pub fn give_up(&mut self, why: &str)
        ensures
            final(self)@ == old(self)@.give_up(why@),
    {
        self.fault = Some(why.to_owned());
    }

    pub fn record(&mut self, fresh: String, name: String)
        ensures
            final(self)@ == old(self)@.record(fresh@, name@),
    {
        let ghost before = pairs_of(self.names@);
        self.names.push((fresh, name));
        assert(pairs_of(self.names@) =~= before.push((fresh@, name@)));
    }

    pub fn next(&mut self)
        ensures
            final(self)@ == old(self)@.next(),
    {
        if self.count < u64::MAX {
            self.count = self.count + 1;
        }
    }
}

/// What a rewrite makes of an expression whose parts have been rewritten already.
pub type Rule = spec_fn(ProgressView, Syntax) -> (ProgressView, Syntax);

/// A rewrite of single expressions.
pub trait Pass {
    /// The rule that the rewrite follows.
    spec fn rule(&self) -> Rule;

    /// Rewrites the expression `e`, whose parts have been rewritten already.
    fn apply(&self, st: &mut Progress, e: Tree) -> (r: Tree)
        ensures
            (final(st)@, r@) == (self.rule())(old(st)@, e@),
    ;
}

/// The first `n` items of `s` with every expression in them rewritten.
pub open spec fn walk_items(f: Rule, st: ProgressView, s: Seq<Syntax>, n: nat) -> (
    ProgressView,
    Seq<Syntax>,
)
    decreases s, n,
{
    if n == 0 || n > s.len() {
        (st, Seq::empty())
    } else {
        let (st1, done) = walk_items(f, st, s, (n - 1) as nat);
        let (st2, last) = walked(f, st1, s[n - 1]);
        (st2, done.push(last))
    }
}

/// The first `n` fields of `s` with every expression in them rewritten.
pub open spec fn walk_fields(f: Rule,
    st: ProgressView,
    s: Seq<(Seq<char>, Syntax)>,
    n: nat,
) -> (ProgressView, Seq<(Seq<char>, Syntax)>)
    decreases s, n,
{
    if n == 0 || n > s.len() {
        (st, Seq::empty())
    } else {
        let (st1, done) = walk_fields(f, st, s, (n - 1) as nat);
        let (st2, last) = walked(f, st1, s[n - 1].1);
        (st2, done.push((s[n - 1].0, last)))
    }
}

/// `t` with every expression in it rewritten: parts before the whole, and in the
/// order of the text. Once the pass has given up, nothing more is rewritten.
pub open spec fn walked(f: Rule, st: ProgressView, t: Syntax) -> (ProgressView, Syntax)
    decreases t, 0nat,
{
    match t {
        Syntax::List(s) => {
            let (st1, out) = walk_items(f, st, s, s.len());
            (st1, Syntax::List(out))
        },
        Syntax::Record(s) => {
            let (st1, out) = walk_fields(f, st, s, s.len());
            (st1, Syntax::Record(out))
        },
        Syntax::Expr(b) => {
            let (st1, e) = walked(f, st, *b);
            if st1.fault is Some {
                (st1, Syntax::Expr(Box::new(e)))
            } else {
                let (st2, e2) = f(st1, e);
                (st2, Syntax::Expr(Box::new(e2)))
            }
        },
        Syntax::Statement(b) => {
            let (st1, e) = walked(f, st, *b);
            (st1, Syntax::Statement(Box::new(e)))
        },
        Syntax::Relation(b) => {
            let (st1, e) = walked(f, st, *b);
            (st1, Syntax::Relation(Box::new(e)))
        },
        _ => (st, t),
    }
}

/// `t` with every expression in it rewritten.
pub fn walk<P: Pass>(p: &P, st: &mut Progress, t: &Tree) -> (r: Tree)
    ensures
        (final(st)@, r@) == walked(p.rule(), old(st)@, t@),
    decreases t,
{
    match t {
        Tree::List(v) => {
            let ghost st0 = st@;
            let mut out: Vec<Tree> = Vec::new();
            let mut i: usize = 0;
            assert(list_of(out@) =~= Seq::empty());
            while i < v.len()
                invariant
                    i <= v@.len(),
                    *t == Tree::List(*v),
                    (st@, list_of(out@)) == walk_items(p.rule(), st0, list_of(v@), i as nat),
                decreases v@.len() - i,
            {
                proof {
                    item_is_smaller(*t, i as int);
                }
                let ghost done = list_of(out@);
                let item = walk(p, st, &v[i]);
                out.push(item);
                i = i + 1;
                assert(list_of(out@) =~= done.push(item@));
            }
            proof {
                list_view(out);
                list_view(*v);
            }
            Tree::List(out)
        },
        Tree::Record(v) => {
            let ghost st0 = st@;
            let mut out: Vec<Field> = Vec::new();
            let mut i: usize = 0;
            assert(fields_of(out@) =~= Seq::empty());
            while i < v.len()
                invariant
                    i <= v@.len(),
                    *t == Tree::Record(*v),
                    (st@, fields_of(out@)) == walk_fields(p.rule(), st0, fields_of(v@), i as nat),
                decreases v@.len() - i,
            {
                proof {
                    field_is_smaller(*t, i as int);
                }
                let ghost done = fields_of(out@);
                let value = walk(p, st, &v[i].value);
                let name = v[i].name.clone();
                out.push(Field { name, value });
                i = i + 1;
                assert(fields_of(out@) =~= done.push((name@, value@)));
            }
            proof {
                record_view(out);
                record_view(*v);
            }
            Tree::Record(out)
        },
        Tree::Expr(b) => {
            let e = walk(p, st, b);
            if st.fault.is_some() {
                Tree::Expr(Box::new(e))
            } else {
                Tree::Expr(Box::new(p.apply(st, e)))
            }
        },
        Tree::Statement(b) => Tree::Statement(Box::new(walk(p, st, b))),
        Tree::Relation(b) => Tree::Relation(Box::new(walk(p, st, b))),
        _ => t.copy(),
    }
}

/// The first `n` items of `s` with every statement in them rewritten.
pub open spec fn statements_in_items(f: Rule,
    st: ProgressView,
    s: Seq<Syntax>,
    n: nat,
) -> (ProgressView, Seq<Syntax>)
    decreases s, n,
{
    if n == 0 || n > s.len() {
        (st, Seq::empty())
    } else {
        let (st1, done) = statements_in_items(f, st, s, (n - 1) as nat);
        let (st2, last) = statements_walked(f, st1, s[n - 1]);
        (st2, done.push(last))
    }
}

/// The first `n` fields of `s` with every statement in them rewritten.
pub open spec fn statements_in_fields(f: Rule,
    st: ProgressView,
    s: Seq<(Seq<char>, Syntax)>,
    n: nat,
) -> (ProgressView, Seq<(Seq<char>, Syntax)>)
    decreases s, n,
{
    if n == 0 || n > s.len() {
        (st, Seq::empty())
    } else {
        let (st1, done) = statements_in_fields(f, st, s, (n - 1) as nat);
        let (st2, last) = statements_walked(f, st1, s[n - 1].1);
        (st2, done.push((s[n - 1].0, last)))
    }
}

/// `t` with every statement in it rewritten, nested statements first: in each
/// statement every expression is visited.
pub open spec fn statements_walked(f: Rule, st: ProgressView, t: Syntax) -> (
    ProgressView,
    Syntax,
)
    decreases t, 0nat,
{
    match t {
        Syntax::List(s) => {
            let (st1, out) = statements_in_items(f, st, s, s.len());
            (st1, Syntax::List(out))
        },
        Syntax::Record(s) => {
            let (st1, out) = statements_in_fields(f, st, s, s.len());
            (st1, Syntax::Record(out))
        },
        Syntax::Expr(b) => {
            let (st1, e) = statements_walked(f, st, *b);
            (st1, Syntax::Expr(Box::new(e)))
        },
        Syntax::Statement(b) => {
            let (st1, e) = statements_walked(f, st, *b);
            let (st2, e2) = walked(f, st1, e);
            (st2, Syntax::Statement(Box::new(e2)))
        },
        Syntax::Relation(b) => {
            let (st1, e) = statements_walked(f, st, *b);
            (st1, Syntax::Relation(Box::new(e)))
        },
        _ => (st, t),
    }
}

/// `t` with every statement in it rewritten.
pub fn walk_statements<P: Pass>(p: &P, st: &mut Progress, t: &Tree) -> (r: Tree)
    ensures
        (final(st)@, r@) == statements_walked(p.rule(), old(st)@, t@),
    decreases t,
{
    match t {
        Tree::List(v) => {
            let ghost st0 = st@;
            let mut out: Vec<Tree> = Vec::new();
            let mut i: usize = 0;
            assert(list_of(out@) =~= Seq::empty());
            while i < v.len()
                invariant
                    i <= v@.len(),
                    *t == Tree::List(*v),
                    (st@, list_of(out@)) == statements_in_items(
                        p.rule(),
                        st0,
                        list_of(v@),
                        i as nat,
                    ),
                decreases v@.len() - i,
            {
                proof {
                    item_is_smaller(*t, i as int);
                }
                let ghost done = list_of(out@);
                let item = walk_statements(p, st, &v[i]);
                out.push(item);
                i = i + 1;
                assert(list_of(out@) =~= done.push(item@));
            }
            proof {
                list_view(out);
                list_view(*v);
            }
            Tree::List(out)
        },
        Tree::Record(v) => {
            let ghost st0 = st@;
            let mut out: Vec<Field> = Vec::new();
            let mut i: usize = 0;
            assert(fields_of(out@) =~= Seq::empty());
            while i < v.len()
                invariant
                    i <= v@.len(),
                    *t == Tree::Record(*v),
                    (st@, fields_of(out@)) == statements_in_fields(
                        p.rule(),
                        st0,
                        fields_of(v@),
                        i as nat,
                    ),
                decreases v@.len() - i,
            {
                proof {
                    field_is_smaller(*t, i as int);
                }
                let ghost done = fields_of(out@);
                let value = walk_statements(p, st, &v[i].value);
                let name = v[i].name.clone();
                out.push(Field { name, value });
                i = i + 1;
                assert(fields_of(out@) =~= done.push((name@, value@)));
            }
            proof {
                record_view(out);
                record_view(*v);
            }
            Tree::Record(out)
        },
        Tree::Expr(b) => Tree::Expr(Box::new(walk_statements(p, st, b))),
        Tree::Statement(b) => {
            let e = walk_statements(p, st, b);
            Tree::Statement(Box::new(walk(p, st, &e)))
        },
        Tree::Relation(b) => Tree::Relation(Box::new(walk_statements(p, st, b))),
        _ => t.copy(),
    }
}

// --- every record, statement and relation ------------------------------------------

/// The first `n` items of `s` with every node in them rewritten.
pub open spec fn nodes_in_items(f: Rule, st: ProgressView, s: Seq<Syntax>, n: nat) -> (
    ProgressView,
    Seq<Syntax>,
)
    decreases s, n,
{
    if n == 0 || n > s.len() {
        (st, Seq::empty())
    } else {
        let (st1, done) = nodes_in_items(f, st, s, (n - 1) as nat);
        let (st2, last) = nodes_walked(f, st1, s[n - 1]);
        (st2, done.push(last))
    }
}

/// The first `n` fields of `s` with every node in them rewritten.
pub open spec fn nodes_in_fields(
    f: Rule,
    st: ProgressView,
    s: Seq<(Seq<char>, Syntax)>,
    n: nat,
) -> (ProgressView, Seq<(Seq<char>, Syntax)>)
    decreases s, n,
{
    if n == 0 || n > s.len() {
        (st, Seq::empty())
    } else {
        let (st1, done) = nodes_in_fields(f, st, s, (n - 1) as nat);
        let (st2, last) = nodes_walked(f, st1, s[n - 1].1);
        (st2, done.push((s[n - 1].0, last)))
    }
}

/// `t` with every record, statement node and relation node in it rewritten: parts before
/// the whole, and in the order of the text.
pub open spec fn nodes_walked(f: Rule, st: ProgressView, t: Syntax) -> (ProgressView, Syntax)
    decreases t, 0nat,
{
    match t {
        Syntax::List(s) => {
            let (st1, out) = nodes_in_items(f, st, s, s.len());
            (st1, Syntax::List(out))
        },
        Syntax::Record(s) => {
            let (st1, out) = nodes_in_fields(f, st, s, s.len());
            f(st1, Syntax::Record(out))
        },
        Syntax::Expr(b) => {
            let (st1, e) = nodes_walked(f, st, *b);
            (st1, Syntax::Expr(Box::new(e)))
        },
        Syntax::Statement(b) => {
            let (st1, e) = nodes_walked(f, st, *b);
            f(st1, Syntax::Statement(Box::new(e)))
        },
        Syntax::Relation(b) => {
            let (st1, e) = nodes_walked(f, st, *b);
            f(st1, Syntax::Relation(Box::new(e)))
        },
        _ => (st, t),
    }
}

/// `t` with every record, statement node and relation node in it rewritten.
pub fn walk_nodes<P: Pass>(p: &P, st: &mut Progress, t: &Tree) -> (r: Tree)
    ensures
        (final(st)@, r@) == nodes_walked(p.rule(), old(st)@, t@),
    decreases t,
{
    match t {
        Tree::List(v) => {
            let ghost st0 = st@;
            let mut out: Vec<Tree> = Vec::new();
            let mut i: usize = 0;
            assert(list_of(out@) =~= Seq::empty());
            while i < v.len()
                invariant
                    i <= v@.len(),
                    *t == Tree::List(*v),
                    (st@, list_of(out@)) == nodes_in_items(
                        p.rule(),
                        st0,
                        list_of(v@),
                        i as nat,
                    ),
                decreases v@.len() - i,
            {
                proof {
                    item_is_smaller(*t, i as int);
                }
                let ghost done = list_of(out@);
                let item = walk_nodes(p, st, &v[i]);
                out.push(item);
                i = i + 1;
                assert(list_of(out@) =~= done.push(item@));
            }
            proof {
                list_view(out);
                list_view(*v);
            }
            Tree::List(out)
        },
        Tree::Record(v) => {
            let ghost st0 = st@;
            let mut out: Vec<Field> = Vec::new();
            let mut i: usize = 0;
            assert(fields_of(out@) =~= Seq::empty());
            while i < v.len()
                invariant
                    i <= v@.len(),
                    *t == Tree::Record(*v),
                    (st@, fields_of(out@)) == nodes_in_fields(
                        p.rule(),
                        st0,
                        fields_of(v@),
                        i as nat,
                    ),
                decreases v@.len() - i,
            {
                proof {
                    field_is_smaller(*t, i as int);
                }
                let ghost done = fields_of(out@);
                let value = walk_nodes(p, st, &v[i].value);
                let name = v[i].name.clone();
                out.push(Field { name, value });
                i = i + 1;
                assert(fields_of(out@) =~= done.push((name@, value@)));
            }
            proof {
                record_view(out);
                record_view(*v);
            }
            p.apply(st, Tree::Record(out))
        },
        Tree::Expr(b) => Tree::Expr(Box::new(walk_nodes(p, st, b))),
        Tree::Statement(b) => {
            let inner = walk_nodes(p, st, b);
            p.apply(st, Tree::Statement(Box::new(inner)))
        },
        Tree::Relation(b) => {
            let inner = walk_nodes(p, st, b);
            p.apply(st, Tree::Relation(Box::new(inner)))
        },
        _ => t.copy(),
    }
}

} // verus!
