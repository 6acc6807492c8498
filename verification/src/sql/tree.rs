//! Syntax trees of SQL statements.
//!
//! A tree has the shape that the parser's abstract syntax has when it is
//! serialized: a struct is a record of its fields, an enum variant without data
//! is its name, and a variant with data is a record with one field, named after
//! the variant. Expressions and statements stand in nodes of their own, so that a
//! rewrite finds them wherever they occur.
use vstd::prelude::*;

verus! {

/// A syntax tree.
#[derive(Debug)]
pub enum Tree {
    Null,
    Bool(bool),
    /// An integer, in decimal.
    Number(String),
    Text(String),
    List(Vec<Tree>),
    Record(Vec<Field>),
    /// An expression.
    Expr(Box<Tree>),
    /// A statement.
    Statement(Box<Tree>),
    /// The name of a relation, where the grammar refers to one.
    Relation(Box<Tree>),
}

/// One field of a record.
#[derive(Debug)]
pub struct Field {
    pub name: String,
    pub value: Tree,
}

/// What a [`Tree`] says.
pub enum Syntax {
    Null,
    Bool(bool),
    Number(Seq<char>),
    Text(Seq<char>),
    List(Seq<Syntax>),
    Record(Seq<(Seq<char>, Syntax)>),
    Expr(Box<Syntax>),
    Statement(Box<Syntax>),
    Relation(Box<Syntax>),
}

pub open spec fn syntax_of(t: Tree) -> Syntax
    decreases t,
{
    match t {
        Tree::Null => Syntax::Null,
        Tree::Bool(b) => Syntax::Bool(b),
        Tree::Number(s) => Syntax::Number(s@),
        Tree::Text(s) => Syntax::Text(s@),
        Tree::List(v) => Syntax::List(
            Seq::new(
                v@.len(),
                |i: int|
                    if 0 <= i < v@.len() {
                        syntax_of(v@[i])
                    } else {
                        Syntax::Null
                    },
            ),
        ),
        Tree::Record(v) => Syntax::Record(
            Seq::new(
                v@.len(),
                |i: int|
                    if 0 <= i < v@.len() {
                        (v@[i].name@, syntax_of(v@[i].value))
                    } else {
                        (Seq::empty(), Syntax::Null)
                    },
            ),
        ),
        Tree::Expr(b) => Syntax::Expr(Box::new(syntax_of(*b))),
        Tree::Statement(b) => Syntax::Statement(Box::new(syntax_of(*b))),
        Tree::Relation(b) => Syntax::Relation(Box::new(syntax_of(*b))),
    }
}

impl View for Tree {
    type V = Syntax;

    open spec fn view(&self) -> Syntax {
        syntax_of(*self)
    }
}

/// What the fields of a record say.
pub open spec fn fields_of(v: Seq<Field>) -> Seq<(Seq<char>, Syntax)> {
    Seq::new(v.len(), |i: int| (v[i].name@, v[i].value@))
}

/// What the trees of a list say.
pub open spec fn list_of(v: Seq<Tree>) -> Seq<Syntax> {
    Seq::new(v.len(), |i: int| v[i]@)
}

pub proof fn list_view(v: Vec<Tree>)
    ensures
        Tree::List(v)@ == Syntax::List(list_of(v@)),
{
    assert(Tree::List(v)@->List_0 =~= list_of(v@));
}

pub proof fn record_view(v: Vec<Field>)
    ensures
        Tree::Record(v)@ == Syntax::Record(fields_of(v@)),
{
    assert(Tree::Record(v)@->Record_0 =~= fields_of(v@));
}

pub proof fn item_is_smaller(t: Tree, i: int)
    requires
        t is List,
        0 <= i < t->List_0@.len(),
    ensures
        decreases_to!(t => t->List_0@[i]),
{
    assert(decreases_to!(t => t->List_0));
    assert(decreases_to!(t->List_0 => t->List_0@));
    assert(decreases_to!(t->List_0@ => t->List_0@[i]));
}

pub proof fn field_is_smaller(t: Tree, i: int)
    requires
        t is Record,
        0 <= i < t->Record_0@.len(),
    ensures
        decreases_to!(t => t->Record_0@[i].value),
{
    assert(decreases_to!(t => t->Record_0));
    assert(decreases_to!(t->Record_0 => t->Record_0@));
    assert(decreases_to!(t->Record_0@ => t->Record_0@[i]));
    assert(decreases_to!(t->Record_0@[i] => t->Record_0@[i].value));
}

impl Tree {
    /// A copy of the tree.
    pub fn copy(&self) -> (r: Tree)
        ensures
            r@ == self@,
        decreases self,
    {
        match self {
            Tree::Null => Tree::Null,
            Tree::Bool(b) => Tree::Bool(*b),
            Tree::Number(s) => Tree::Number(s.clone()),
            Tree::Text(s) => Tree::Text(s.clone()),
            Tree::List(v) => {
                let mut out: Vec<Tree> = Vec::new();
                let mut i: usize = 0;
                while i < v.len()
                    invariant
                        i <= v@.len(),
                        out@.len() == i,
                        *self == Tree::List(*v),
                        forall|j: int| 0 <= j < i ==> (#[trigger] out@[j])@ == v@[j]@,
                    decreases v@.len() - i,
                {
                    proof {
                        item_is_smaller(*self, i as int);
                    }
                    out.push(v[i].copy());
                    i = i + 1;
                }
                proof {
                    list_view(out);
                    list_view(*v);
                    assert(list_of(out@) =~= list_of(v@));
                }
                Tree::List(out)
            },
            Tree::Record(v) => {
                let mut out: Vec<Field> = Vec::new();
                let mut i: usize = 0;
                while i < v.len()
                    invariant
                        i <= v@.len(),
                        out@.len() == i,
                        *self == Tree::Record(*v),
                        forall|j: int|
                            0 <= j < i ==> (#[trigger] out@[j]).name@ == v@[j].name@
                                && out@[j].value@ == v@[j].value@,
                    decreases v@.len() - i,
                {
                    proof {
                        field_is_smaller(*self, i as int);
                    }
                    out.push(Field { name: v[i].name.clone(), value: v[i].value.copy() });
                    i = i + 1;
                }
                proof {
                    record_view(out);
                    record_view(*v);
                    assert(fields_of(out@) =~= fields_of(v@));
                }
                Tree::Record(out)
            },
            Tree::Expr(b) => Tree::Expr(Box::new(b.copy())),
            Tree::Statement(b) => Tree::Statement(Box::new(b.copy())),
            Tree::Relation(b) => Tree::Relation(Box::new(b.copy())),
        }
    }
}

/// The value of the first field called `name`, if there is one.
pub open spec fn lookup(fields: Seq<(Seq<char>, Syntax)>, name: Seq<char>) -> Option<Syntax>
    decreases fields.len(),
{
    if fields.len() == 0 {
        None
    } else if fields[0].0 == name {
        Some(fields[0].1)
    } else {
        lookup(fields.skip(1), name)
    }
}

/// The fields with every field called `name` set to `value`.
pub open spec fn replaced(
    fields: Seq<(Seq<char>, Syntax)>,
    name: Seq<char>,
    value: Syntax,
) -> Seq<(Seq<char>, Syntax)> {
    Seq::new(
        fields.len(),
        |i: int|
            if fields[i].0 == name {
                (name, value)
            } else {
                fields[i]
            },
    )
}

impl Syntax {
    /// The field `name` of a record; `Null` where there is no such field.
    pub open spec fn at(self, name: Seq<char>) -> Syntax {
        match self {
            Syntax::Record(fields) => match lookup(fields, name) {
                Some(v) => v,
                None => Syntax::Null,
            },
            _ => Syntax::Null,
        }
    }

    /// The data of the enum variant `tag`, if the node is that variant with data.
    pub open spec fn payload(self, tag: Seq<char>) -> Option<Syntax> {
        match self {
            Syntax::Record(fields) => if fields.len() == 1 && fields[0].0 == tag {
                Some(fields[0].1)
            } else {
                None
            },
            _ => None,
        }
    }

    /// The record with the field `name` set to `value`.
    pub open spec fn with(self, name: Seq<char>, value: Syntax) -> Syntax {
        match self {
            Syntax::Record(fields) => Syntax::Record(replaced(fields, name, value)),
            _ => self,
        }
    }

    /// The items of a list; none for any other node.
    pub open spec fn items(self) -> Seq<Syntax> {
        match self {
            Syntax::List(s) => s,
            _ => Seq::empty(),
        }
    }

    /// The expression that an expression node holds.
    pub open spec fn inner(self) -> Syntax {
        match self {
            Syntax::Expr(b) => *b,
            _ => self,
        }
    }

    /// Whether the node is the text `s`; an enum variant without data is its name.
    pub open spec fn is_text(self, s: Seq<char>) -> bool {
        self == Syntax::Text(s)
    }

    /// The item `i` of a list; `Null` where there is none.
    pub open spec fn item(self, i: int) -> Syntax {
        if 0 <= i < self.items().len() {
            self.items()[i]
        } else {
            Syntax::Null
        }
    }
}

/// The enum variant `tag` with data.
pub open spec fn variant(tag: Seq<char>, data: Syntax) -> Syntax {
    Syntax::Record(seq![(tag, data)])
}

/// An expression node.
pub open spec fn expr_node(e: Syntax) -> Syntax {
    Syntax::Expr(Box::new(e))
}

proof fn lookup_skips(fields: Seq<(Seq<char>, Syntax)>, name: Seq<char>, i: int)
    requires
        0 <= i < fields.len(),
        fields[i].0 != name,
    ensures
        lookup(fields.skip(i), name) == lookup(fields.skip(i + 1), name),
{
    assert(fields.skip(i)[0] == fields[i]);
    assert(fields.skip(i).skip(1) =~= fields.skip(i + 1));
}

impl Tree {
    /// The field `name` of a record; `Null` where there is no such field.
    pub fn at(&self, name: &str) -> (r: &Tree)
        ensures
            r@ == self@.at(name@),
    {
        match self {
            Tree::Record(v) => {
                let ghost fields = fields_of(v@);
                proof {
                    record_view(*v);
                    assert(fields.skip(0) =~= fields);
                }
                let mut i: usize = 0;
                while i < v.len()
                    invariant
                        i <= v@.len(),
                        fields == fields_of(v@),
                        *self == Tree::Record(*v),
                        self@ == Syntax::Record(fields),
                        lookup(fields, name@) == lookup(fields.skip(i as int), name@),
                    decreases v@.len() - i,
                {
                    if crate::text::same(v[i].name.as_str(), name) {
                        assert(fields.skip(i as int)[0] == fields[i as int]);
                        return &v[i].value;
                    }
                    proof {
                        lookup_skips(fields, name@, i as int);
                    }
                    i = i + 1;
                }
                &Tree::Null
            },
            _ => &Tree::Null,
        }
    }

    /// The data of the enum variant `tag`, if the node is that variant with data.
    pub fn payload(&self, tag: &str) -> (r: Option<&Tree>)
        ensures
            match r {
                Some(t) => self@.payload(tag@) == Some(t@),
                None => self@.payload(tag@) is None,
            },
    {
        match self {
            Tree::Record(v) => {
                proof {
                    record_view(*v);
                }
                if v.len() == 1 && crate::text::same(v[0].name.as_str(), tag) {
                    Some(&v[0].value)
                } else {
                    None
                }
            },
            _ => None,
        }
    }

    /// The record with the field `name` set to `value`.
    pub fn with(&self, name: &str, value: Tree) -> (r: Tree)
        ensures
            r@ == self@.with(name@, value@),
    {
        match self {
            Tree::Record(v) => {
                let mut out: Vec<Field> = Vec::new();
                let mut i: usize = 0;
                while i < v.len()
                    invariant
                        i <= v@.len(),
                        out@.len() == i,
                        forall|j: int|
                            0 <= j < i ==> ((#[trigger] out@[j]).name@, out@[j].value@) == replaced(
                                fields_of(v@),
                                name@,
                                value@,
                            )[j],
                    decreases v@.len() - i,
                {
                    if crate::text::same(v[i].name.as_str(), name) {
                        out.push(Field { name: name.to_owned(), value: value.copy() });
                    } else {
                        out.push(Field { name: v[i].name.clone(), value: v[i].value.copy() });
                    }
                    i = i + 1;
                }
                proof {
                    record_view(*v);
                    record_view(out);
                    assert(fields_of(out@) =~= replaced(fields_of(v@), name@, value@));
                }
                Tree::Record(out)
            },
            _ => self.copy(),
        }
    }

    /// How many items a list has.
    pub fn len(&self) -> (r: usize)
        ensures
            r == self@.items().len(),
    {
        match self {
            Tree::List(v) => {
                proof {
                    list_view(*v);
                }
                v.len()
            },
            _ => 0,
        }
    }

    /// The item `i` of a list; `Null` where there is none.
    pub fn item(&self, i: usize) -> (r: &Tree)
        ensures
            r@ == self@.item(i as int),
    {
        match self {
            Tree::List(v) => {
                proof {
                    list_view(*v);
                }
                if i < v.len() {
                    &v[i]
                } else {
                    &Tree::Null
                }
            },
            _ => &Tree::Null,
        }
    }

    /// The expression that an expression node holds.
    pub fn inner(&self) -> (r: &Tree)
        ensures
            r@ == self@.inner(),
    {
        match self {
            Tree::Expr(b) => b,
            _ => self,
        }
    }

    /// Whether the node is the text `s`.
    pub fn is_text(&self, s: &str) -> (r: bool)
        ensures
            r == self@.is_text(s@),
    {
        match self {
            Tree::Text(t) => crate::text::same(t.as_str(), s),
            _ => false,
        }
    }

    pub fn is_null(&self) -> (r: bool)
        ensures
            r == (self@ == Syntax::Null),
    {
        match self {
            Tree::Null => true,
            _ => false,
        }
    }

    /// The text of a text node.
    pub fn text(&self) -> (r: Option<&String>)
        ensures
            match r {
                Some(s) => self@ == Syntax::Text(s@),
                None => !(self@ is Text),
            },
    {
        match self {
            Tree::Text(t) => Some(t),
            _ => None,
        }
    }

    /// A text node.
    pub fn of_text(s: &str) -> (r: Tree)
        ensures
            r@ == Syntax::Text(s@),
    {
        Tree::Text(s.to_owned())
    }

    /// The enum variant `tag` with data.
    pub fn variant(tag: &str, data: Tree) -> (r: Tree)
        ensures
            r@ == variant(tag@, data@),
    {
        let mut v: Vec<Field> = Vec::new();
        v.push(Field { name: tag.to_owned(), value: data });
        proof {
            record_view(v);
            assert(fields_of(v@) =~= seq![(tag@, data@)]);
        }
        Tree::Record(v)
    }

    /// An expression node.
    pub fn expr(e: Tree) -> (r: Tree)
        ensures
            r@ == expr_node(e@),
    {
        Tree::Expr(Box::new(e))
    }

    /// A list of the given trees.
    pub fn list(v: Vec<Tree>) -> (r: Tree)
        ensures
            r@ == Syntax::List(list_of(v@)),
    {
        proof {
            list_view(v);
        }
        Tree::List(v)
    }

    /// An empty list.
    pub fn empty_list() -> (r: Tree)
        ensures
            r@ == Syntax::List(Seq::empty()),
    {
        let v: Vec<Tree> = Vec::new();
        proof {
            list_view(v);
            assert(list_of(v@) =~= Seq::empty());
        }
        Tree::List(v)
    }

    /// A list of one tree.
    pub fn list1(a: Tree) -> (r: Tree)
        ensures
            r@ == Syntax::List(seq![a@]),
    {
        let mut v: Vec<Tree> = Vec::new();
        v.push(a);
        proof {
            list_view(v);
            assert(list_of(v@) =~= seq![a@]);
        }
        Tree::List(v)
    }

    /// A list of two trees.
    pub fn list2(a: Tree, b: Tree) -> (r: Tree)
        ensures
            r@ == Syntax::List(seq![a@, b@]),
    {
        let mut v: Vec<Tree> = Vec::new();
        v.push(a);
        v.push(b);
        proof {
            list_view(v);
            assert(list_of(v@) =~= seq![a@, b@]);
        }
        Tree::List(v)
    }

    /// A record of the given fields.
    pub fn record(v: Vec<Field>) -> (r: Tree)
        ensures
            r@ == Syntax::Record(fields_of(v@)),
    {
        proof {
            record_view(v);
        }
        Tree::Record(v)
    }
}

/// No fields.
pub fn no_fields() -> (r: Vec<Field>)
    ensures
        fields_of(r@) == Seq::<(Seq<char>, Syntax)>::empty(),
{
    let v: Vec<Field> = Vec::new();
    assert(fields_of(v@) =~= Seq::empty());
    v
}

/// The fields with one more.
pub fn put(fields: Vec<Field>, name: &str, value: Tree) -> (r: Vec<Field>)
    ensures
        fields_of(r@) == fields_of(fields@).push((name@, value@)),
{
    let mut v = fields;
    let ghost before = v@;
    v.push(Field { name: name.to_owned(), value });
    assert(fields_of(v@) =~= fields_of(before).push((name@, value@)));
    v
}

/// A list with one more item.
pub fn push_item(items: &mut Vec<Tree>, item: Tree)
    ensures
        list_of(final(items)@) == list_of(old(items)@).push(item@),
{
    let ghost before = items@;
    items.push(item);
    assert(list_of(items@) =~= list_of(before).push(item@));
}

/// No items.
pub fn no_items() -> (r: Vec<Tree>)
    ensures
        list_of(r@) == Seq::<Syntax>::empty(),
{
    let v: Vec<Tree> = Vec::new();
    assert(list_of(v@) =~= Seq::empty());
    v
}

// --- parts are smaller than the whole -------------------------------------

proof fn lookup_is_smaller(fields: Seq<(Seq<char>, Syntax)>, from: int, name: Seq<char>)
    requires
        0 <= from <= fields.len(),
        lookup(fields.skip(from), name) is Some,
    ensures
        exists|i: int|
            from <= i < fields.len() && (#[trigger] fields[i]).1 == lookup(
                fields.skip(from),
                name,
            )->0,
    decreases fields.len() - from,
{
    let rest = fields.skip(from);
    if rest[0].0 == name {
        assert(fields[from].1 == lookup(rest, name)->0);
    } else {
        lookup_skips(fields, name, from);
        lookup_is_smaller(fields, from + 1, name);
    }
}

/// A field of a record is smaller than the record.
pub proof fn at_is_smaller(t: Syntax, name: Seq<char>)
    ensures
        t.at(name) != Syntax::Null ==> decreases_to!(t => t.at(name)),
{
    if t.at(name) != Syntax::Null {
        let fields = t->Record_0;
        assert(fields.skip(0) =~= fields);
        lookup_is_smaller(fields, 0, name);
        let i = choose|i: int|
            0 <= i < fields.len() && (#[trigger] fields[i]).1 == lookup(fields, name)->0;
        assert(decreases_to!(t => fields));
        assert(decreases_to!(fields => fields[i]));
        assert(decreases_to!(fields[i] => fields[i].1));
    }
}

/// The data of a variant is smaller than the variant.
pub proof fn payload_is_smaller(t: Syntax, tag: Seq<char>)
    ensures
        t.payload(tag) is Some ==> decreases_to!(t => t.payload(tag)->0),
{
    if t.payload(tag) is Some {
        let fields = t->Record_0;
        assert(decreases_to!(t => fields));
        assert(decreases_to!(fields => fields[0]));
        assert(decreases_to!(fields[0] => fields[0].1));
    }
}

/// The expression in an expression node is smaller than the node.
pub proof fn inner_is_smaller(t: Syntax)
    ensures
        t is Expr ==> decreases_to!(t => t.inner()),
{
}

/// The items of a list in a field are smaller than the record.
pub proof fn list_field_is_smaller(t: Syntax, name: Seq<char>)
    ensures
        t.at(name) is List ==> decreases_to!(t => t.at(name)->List_0),
{
    at_is_smaller(t, name);
    if t.at(name) is List {
        assert(decreases_to!(t.at(name) => t.at(name)->List_0));
    }
}

} // verus!
