//! JSON values.
use crate::sorted::entries_of;
use vstd::prelude::*;

verus! {

/// A JSON value. A number is kept as the digits that write it.
#[derive(Debug, PartialEq, Eq)]
pub enum Json {
    Null,
    Bool(bool),
    Number(String),
    Text(String),
    List(Vec<Json>),
    Object(Vec<(String, Json)>),
}

/// What a [`Json`] value says.
pub enum JsonView {
    Null,
    Bool(bool),
    Number(Seq<char>),
    Text(Seq<char>),
    List(Seq<JsonView>),
    Object(Seq<(Seq<char>, JsonView)>),
}

pub open spec fn json_of(t: Json) -> JsonView
    decreases t,
{
    match t {
        Json::Null => JsonView::Null,
        Json::Bool(b) => JsonView::Bool(b),
        Json::Number(s) => JsonView::Number(s@),
        Json::Text(s) => JsonView::Text(s@),
        Json::List(v) => JsonView::List(
            Seq::new(
                v@.len(),
                |i: int|
                    if 0 <= i < v@.len() {
                        json_of(v@[i])
                    } else {
                        JsonView::Null
                    },
            ),
        ),
        Json::Object(v) => JsonView::Object(
            Seq::new(
                v@.len(),
                |i: int|
                    if 0 <= i < v@.len() {
                        (v@[i].0@, json_of(v@[i].1))
                    } else {
                        (Seq::empty(), JsonView::Null)
                    },
            ),
        ),
    }
}

impl View for Json {
    type V = JsonView;

    open spec fn view(&self) -> JsonView {
        json_of(*self)
    }
}

/// What the values of a list say.
pub open spec fn values_of(v: Seq<Json>) -> Seq<JsonView> {
    Seq::new(v.len(), |i: int| v[i]@)
}

pub proof fn json_list_view(v: Vec<Json>)
    ensures
        Json::List(v)@ == JsonView::List(values_of(v@)),
{
    assert(Json::List(v)@->List_0 =~= values_of(v@));
}

pub proof fn json_object_view(v: Vec<(String, Json)>)
    ensures
        Json::Object(v)@ == JsonView::Object(entries_of(v@)),
{
    assert(Json::Object(v)@->Object_0 =~= entries_of(v@));
}

pub proof fn json_item_is_smaller(t: Json, i: int)
    requires
        t is List,
        0 <= i < t->List_0@.len(),
    ensures
        decreases_to!(t => t->List_0@[i]),
{
    assert(decreases_to!(t => t->List_0));
    assert(decreases_to!(t->List_0 => t->List_0@));
    assert(decreases_to!(t->List_0@ => t->List_0@[i]));
}

pub proof fn json_entry_is_smaller(t: Json, i: int)
    requires
        t is Object,
        0 <= i < t->Object_0@.len(),
    ensures
        decreases_to!(t => t->Object_0@[i].1),
{
    assert(decreases_to!(t => t->Object_0));
    assert(decreases_to!(t->Object_0 => t->Object_0@));
    assert(decreases_to!(t->Object_0@ => t->Object_0@[i]));
    assert(decreases_to!(t->Object_0@[i] => t->Object_0@[i].1));
}

impl Json {
    /// A copy of the value.
    pub fn copy(&self) -> (r: Json)
        ensures
            r@ == self@,
        decreases self,
    {
        match self {
            Json::Null => Json::Null,
            Json::Bool(b) => Json::Bool(*b),
            Json::Number(s) => Json::Number(s.clone()),
            Json::Text(s) => Json::Text(s.clone()),
            Json::List(v) => {
                let mut out: Vec<Json> = Vec::new();
                let mut i: usize = 0;
                while i < v.len()
                    invariant
                        i <= v@.len(),
                        out@.len() == i,
                        *self == Json::List(*v),
                        forall|j: int| 0 <= j < i ==> (#[trigger] out@[j])@ == v@[j]@,
                    decreases v@.len() - i,
                {
                    proof {
                        json_item_is_smaller(*self, i as int);
                    }
                    out.push(v[i].copy());
                    i = i + 1;
                }
                proof {
                    json_list_view(out);
                    json_list_view(*v);
                    assert(values_of(out@) =~= values_of(v@));
                }
                Json::List(out)
            },
            Json::Object(v) => {
                let mut out: Vec<(String, Json)> = Vec::new();
                let mut i: usize = 0;
                while i < v.len()
                    invariant
                        i <= v@.len(),
                        out@.len() == i,
                        *self == Json::Object(*v),
                        forall|j: int|
                            0 <= j < i ==> (#[trigger] out@[j]).0@ == v@[j].0@ && out@[j].1@
                                == v@[j].1@,
                    decreases v@.len() - i,
                {
                    proof {
                        json_entry_is_smaller(*self, i as int);
                    }
                    out.push((v[i].0.clone(), v[i].1.copy()));
                    i = i + 1;
                }
                proof {
                    json_object_view(out);
                    json_object_view(*v);
                    assert(entries_of(out@) =~= entries_of(v@));
                }
                Json::Object(out)
            },
        }
    }
}

} // verus!
