//! The record of which tables and columns were read.
use crate::server::json::{json_list_view, json_object_view, values_of, Json, JsonView};
use crate::sorted::{entries_of, insert_sorted, inserted, sorted};
use crate::text::views;
use vstd::prelude::*;

verus! {

/// One read of a catalog table.
#[derive(Debug)]
pub struct ScanTrace {
    pub table: String,
    /// The columns of the table, in its order.
    pub column_names: Vec<String>,
    /// The numbers of the columns that were asked for; `None` for all of them.
    pub projection: Option<Vec<usize>>,
    /// The filters that were offered, as they are written.
    pub filters: Vec<String>,
    /// The columns of the table and their types, in the order of their names.
    pub column_types: Vec<(String, String)>,
}

/// The first `n` columns of a table, in the order of their names.
pub open spec fn by_name(fields: Seq<(Seq<char>, Seq<char>)>, n: nat) -> Seq<(Seq<char>, Seq<char>)>
    decreases n,
{
    if n == 0 {
        Seq::empty()
    } else {
        inserted(by_name(fields, (n - 1) as nat), fields[n - 1].0, fields[n - 1].1)
    }
}

/// The names of the columns of a table.
pub open spec fn names_of(fields: Seq<(Seq<char>, Seq<char>)>) -> Seq<Seq<char>> {
    Seq::new(fields.len(), |i: int| fields[i].0)
}

impl ScanTrace {
    /// Whether the columns and their types stand in the order of their names.
    pub open spec fn well_formed(self) -> bool {
        sorted(entries_of(self.column_types@))
    }

    /// The record of a read of `table`, whose columns and types are `fields`.
    pub fn new(
        table: String,
        projection: Option<Vec<usize>>,
        filters: Vec<String>,
        fields: &Vec<(String, String)>,
    ) -> (r: ScanTrace)
        ensures
            r.table == table,
            r.projection == projection,
            r.filters == filters,
            views(r.column_names@) == names_of(entries_of(fields@)),
            entries_of(r.column_types@) == by_name(entries_of(fields@), fields@.len()),
            r.well_formed(),
    {
        let ghost all = entries_of(fields@);
        let mut column_types: Vec<(String, String)> = Vec::new();
        let mut column_names: Vec<String> = Vec::new();
        let mut i: usize = 0;
        assert(entries_of(column_types@) =~= Seq::empty());
        while i < fields.len()
            invariant
                i <= fields@.len(),
                all == entries_of(fields@),
                entries_of(column_types@) == by_name(all, i as nat),
                sorted(entries_of(column_types@)),
                column_names@.len() == i,
                forall|k: int| 0 <= k < i ==> (#[trigger] column_names@[k])@ == all[k].0,
            decreases fields@.len() - i,
        {
            assert(all[i as int] == (fields@[i as int].0@, fields@[i as int].1@));
            insert_sorted(&mut column_types, fields[i].0.clone(), fields[i].1.clone());
            column_names.push(fields[i].0.clone());
            i = i + 1;
        }
        assert(views(column_names@) =~= names_of(all));
        ScanTrace { table, column_names, projection, filters, column_types }
    }

    /// The names of the columns that were asked for: those that have the numbers of the
    /// projection in the table, or all of them.
    pub open spec fn columns_read(self) -> Seq<Seq<char>> {
        match self.projection {
            Some(p) => Seq::new(p@.len(), |i: int| self.column_names@[p@[i] as int]@),
            None => Seq::new(self.column_names@.len(), |i: int| self.column_names@[i]@),
        }
    }

    /// Whether the projection speaks of columns that there are.
    pub open spec fn in_range(self) -> bool {
        match self.projection {
            Some(p) => forall|i: int|
                0 <= i < p@.len() ==> (#[trigger] p@[i]) < self.column_names@.len(),
            None => true,
        }
    }

    /// The names of the columns that were asked for; `None` where the projection speaks of a
    /// column that there is not.
    pub fn columns(&self) -> (r: Option<Vec<String>>)
        ensures
            match r {
                Some(v) => self.in_range() && views(v@) == self.columns_read(),
                None => !self.in_range(),
            },
    {
        let mut out: Vec<String> = Vec::new();
        let ghost all = self.columns_read();
        let mut i: usize = 0;
        match &self.projection {
            Some(p) => {
                while i < p.len()
                    invariant
                        i <= p@.len(),
                        self.projection == Some(*p),
                        all == self.columns_read(),
                        forall|k: int| 0 <= k < i ==> (#[trigger] p@[k]) < self.column_names@.len(),
                        views(out@) == all.take(i as int),
                    decreases p@.len() - i,
                {
                    let n: usize = p[i];
                    if n >= self.column_names.len() {
                        assert(!(p@[i as int] < self.column_names@.len()));
                        return None;
                    }
                    let ghost before = views(out@);
                    let name = self.column_names[n].clone();
                    let ghost shown = name@;
                    out.push(name);
                    assert(views(out@) =~= before.push(shown));
                    assert(all.take(i + 1) =~= all.take(i as int).push(all[i as int]));
                    i = i + 1;
                }
            },
            None => {
                while i < self.column_names.len()
                    invariant
                        i <= self.column_names@.len(),
                        self.projection is None,
                        all == self.columns_read(),
                        views(out@) == all.take(i as int),
                    decreases self.column_names@.len() - i,
                {
                    let ghost before = views(out@);
                    let name = self.column_names[i].clone();
                    let ghost shown = name@;
                    out.push(name);
                    assert(views(out@) =~= before.push(shown));
                    assert(all.take(i + 1) =~= all.take(i as int).push(all[i as int]));
                    i = i + 1;
                }
            },
        }
        assert(all.take(i as int) =~= all);
        Some(out)
    }

    /// The record as it is reported: the table, the columns that were asked for, the filters,
    /// and the types of all columns.
    pub open spec fn reported(self) -> JsonView {
        JsonView::Object(
            Seq::empty().push(("table"@, JsonView::Text(self.table@))).push(
                ("columns"@, text_list(self.columns_read())),
            ).push(("filters"@, text_list(views(self.filters@)))).push(
                ("types"@, text_object(entries_of(self.column_types@))),
            ),
        )
    }

    /// The record as it is reported; `None` where the projection speaks of a column that there
    /// is not.
    pub fn report(&self) -> (r: Option<Json>)
        ensures
            match r {
                Some(v) => self.in_range() && v@ == self.reported(),
                None => !self.in_range(),
            },
    {
        match self.columns() {
            Some(columns) => {
                let mut out: Vec<(String, Json)> = Vec::new();
                out.push(("table".to_owned(), Json::Text(self.table.clone())));
                out.push(("columns".to_owned(), texts_to_json(&columns)));
                out.push(("filters".to_owned(), texts_to_json(&self.filters)));
                out.push(("types".to_owned(), entries_to_json(&self.column_types)));
                proof {
                    json_object_view(out);
                    assert(entries_of(out@) =~= self.reported()->Object_0);
                }
                Some(Json::Object(out))
            },
            None => None,
        }
    }
}

/// Texts as a list.
pub open spec fn text_list(texts: Seq<Seq<char>>) -> JsonView {
    JsonView::List(Seq::new(texts.len(), |i: int| JsonView::Text(texts[i])))
}

/// Texts with names as an object.
pub open spec fn text_object(entries: Seq<(Seq<char>, Seq<char>)>) -> JsonView {
    JsonView::Object(Seq::new(entries.len(), |i: int| (entries[i].0, JsonView::Text(entries[i].1))))
}

fn texts_to_json(texts: &Vec<String>) -> (r: Json)
    ensures
        r@ == text_list(views(texts@)),
{
    let mut out: Vec<Json> = Vec::new();
    let mut i: usize = 0;
    while i < texts.len()
        invariant
            i <= texts@.len(),
            out@.len() == i,
            forall|k: int| 0 <= k < i ==> (#[trigger] out@[k])@ == JsonView::Text(texts@[k]@),
        decreases texts@.len() - i,
    {
        out.push(Json::Text(texts[i].clone()));
        i = i + 1;
    }
    proof {
        json_list_view(out);
        assert(values_of(out@) =~= text_list(views(texts@))->List_0);
    }
    Json::List(out)
}

fn entries_to_json(entries: &Vec<(String, String)>) -> (r: Json)
    ensures
        r@ == text_object(entries_of(entries@)),
{
    let mut out: Vec<(String, Json)> = Vec::new();
    let mut i: usize = 0;
    while i < entries.len()
        invariant
            i <= entries@.len(),
            out@.len() == i,
            forall|k: int|
                0 <= k < i ==> (#[trigger] out@[k]).0@ == entries@[k].0@ && out@[k].1@
                    == JsonView::Text(entries@[k].1@),
        decreases entries@.len() - i,
    {
        out.push((entries[i].0.clone(), Json::Text(entries[i].1.clone())));
        i = i + 1;
    }
    proof {
        json_object_view(out);
        assert(entries_of(out@) =~= text_object(entries_of(entries@))->Object_0);
    }
    Json::Object(out)
}

/// What is reported of a scan: its table, the columns that it reads, in the order of the projection
/// or all of them, its filters, and the types of the columns of the table.
pub proof fn scans_are_reported(scan: ScanTrace, i: int)
    ensures
        ({
            let r = scan.reported();
            let entries = r->Object_0;
            &&& r is Object
            &&& entries.len() == 4
            &&& entries[0] == ("table"@, JsonView::Text(scan.table@))
            &&& entries[1].0 == "columns"@ && entries[1].1 is List
            &&& entries[2].0 == "filters"@ && entries[2].1 is List
            &&& entries[3].0 == "types"@ && entries[3].1 is Object
            &&& 0 <= i < scan.filters@.len() ==> entries[2].1->List_0[i] == JsonView::Text(
                scan.filters@[i]@,
            )
            &&& scan.projection is None && 0 <= i < scan.column_names@.len()
                ==> entries[1].1->List_0[i]
                == JsonView::Text(scan.column_names@[i]@)
            &&& scan.projection is Some && 0 <= i < scan.projection->0@.len()
                ==> entries[1].1->List_0[i] == JsonView::Text(
                scan.column_names@[scan.projection->0@[i] as int]@,
            )
        }),
{
}

} // verus!
