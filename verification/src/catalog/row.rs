//! Rows of catalog tables.
use crate::text::{same, views};
use vstd::prelude::*;

verus! {

/// A value in a row of a catalog table.
#[derive(Debug, PartialEq, Eq)]
pub enum CellValue {
    Null,
    Bool(bool),
    Int(i64),
    /// The number zero in a column of floating-point numbers.
    RealZero,
    Text(String),
    IntList(Vec<i32>),
    TextList(Vec<String>),
}

/// What a [`CellValue`] says.
pub enum CellView {
    Null,
    Bool(bool),
    Int(i64),
    RealZero,
    Text(Seq<char>),
    IntList(Seq<i32>),
    TextList(Seq<Seq<char>>),
}

impl View for CellValue {
    type V = CellView;

    open spec fn view(&self) -> CellView {
        match *self {
            CellValue::Null => CellView::Null,
            CellValue::Bool(b) => CellView::Bool(b),
            CellValue::Int(n) => CellView::Int(n),
            CellValue::RealZero => CellView::RealZero,
            CellValue::Text(s) => CellView::Text(s@),
            CellValue::IntList(v) => CellView::IntList(v@),
            CellValue::TextList(v) => CellView::TextList(views(v@)),
        }
    }
}

/// Copies of a list of texts.
pub fn copy_texts(v: &Vec<String>) -> (r: Vec<String>)
    ensures
        views(r@) == views(v@),
{
    let mut out: Vec<String> = Vec::new();
    let mut i: usize = 0;
    while i < v.len()
        invariant
            i <= v@.len(),
            out@.len() == i,
            forall|j: int| 0 <= j < i ==> (#[trigger] out@[j])@ == v@[j]@,
        decreases v@.len() - i,
    {
        out.push(v[i].clone());
        i = i + 1;
    }
    assert(views(out@) =~= views(v@));
    out
}

/// Copies of a list of numbers.
pub fn copy_ints(v: &Vec<i32>) -> (r: Vec<i32>)
    ensures
        r@ == v@,
{
    let mut out: Vec<i32> = Vec::new();
    let mut i: usize = 0;
    while i < v.len()
        invariant
            i <= v@.len(),
            out@ == v@.take(i as int),
        decreases v@.len() - i,
    {
        out.push(v[i]);
        i = i + 1;
        assert(v@.take(i as int) =~= v@.take(i - 1).push(v@[i - 1]));
    }
    assert(v@.take(i as int) =~= v@);
    out
}

impl CellValue {
    pub fn copy(&self) -> (r: CellValue)
        ensures
            r@ == self@,
    {
        match self {
            CellValue::Null => CellValue::Null,
            CellValue::Bool(b) => CellValue::Bool(*b),
            CellValue::Int(n) => CellValue::Int(*n),
            CellValue::RealZero => CellValue::RealZero,
            CellValue::Text(s) => CellValue::Text(s.clone()),
            CellValue::IntList(v) => CellValue::IntList(copy_ints(v)),
            CellValue::TextList(v) => CellValue::TextList(copy_texts(v)),
        }
    }

    /// The value of a column that may be missing.
    pub fn text_or_null(s: &Option<String>) -> (r: CellValue)
        ensures
            r@ == match *s {
                Some(x) => CellView::Text(x@),
                None => CellView::Null,
            },
    {
        match s {
            Some(x) => CellValue::Text(x.clone()),
            None => CellValue::Null,
        }
    }

    /// The text `s`.
    pub fn of_text(s: &str) -> (r: CellValue)
        ensures
            r@ == CellView::Text(s@),
    {
        CellValue::Text(s.to_owned())
    }

    /// The number `n`.
    pub fn of_int(n: i32) -> (r: CellValue)
        ensures
            r@ == CellView::Int(n as i64),
    {
        CellValue::Int(n as i64)
    }
}

/// A value under the name of its column.
#[derive(Debug, PartialEq, Eq)]
pub struct Cell {
    pub name: String,
    pub value: CellValue,
}

/// What a row says: its values by the names of their columns. Other columns are null.
pub type RowView = Map<Seq<char>, CellView>;

/// What the cells of a row say; the last cell of a name counts.
pub open spec fn cells_view(cells: Seq<Cell>) -> RowView
    decreases cells.len(),
{
    if cells.len() == 0 {
        Map::empty()
    } else {
        cells_view(cells.drop_last()).insert(cells.last().name@, cells.last().value@)
    }
}

/// A row of a catalog table.
#[derive(Debug, PartialEq, Eq)]
pub struct Row {
    pub cells: Vec<Cell>,
}

impl View for Row {
    type V = RowView;

    open spec fn view(&self) -> RowView {
        cells_view(self.cells@)
    }
}

/// What a list of rows says.
pub open spec fn rows_view(v: Seq<Row>) -> Seq<RowView> {
    Seq::new(v.len(), |i: int| v[i]@)
}

/// The value of a row in a column.
pub open spec fn cell_at(row: RowView, name: Seq<char>) -> CellView {
    if row.dom().contains(name) {
        row[name]
    } else {
        CellView::Null
    }
}

impl Row {
    /// The row without values.
    pub fn new() -> (r: Row)
        ensures
            r@ == Map::<Seq<char>, CellView>::empty(),
    {
        Row { cells: Vec::new() }
    }

    /// Sets the value in a column.
    pub fn insert(&mut self, name: &str, value: CellValue)
        ensures
            final(self)@ == old(self)@.insert(name@, value@),
    {
        let ghost before = self.cells@;
        self.cells.push(Cell { name: name.to_owned(), value });
        assert(self.cells@.drop_last() =~= before);
    }

    /// The value in a column, if the row has one.
    pub fn get(&self, name: &str) -> (r: Option<&CellValue>)
        ensures
            match r {
                Some(v) => self@.dom().contains(name@) && self@[name@] == v@,
                None => !self@.dom().contains(name@),
            },
    {
        let ghost all = self.cells@;
        let mut n: usize = self.cells.len();
        assert(all.take(n as int) =~= all);
        while n > 0
            invariant
                n <= all.len(),
                all == self.cells@,
                self@.dom().contains(name@) == cells_view(all.take(n as int)).dom().contains(name@),
                self@.dom().contains(name@) ==> self@[name@] == cells_view(
                    all.take(n as int),
                )[name@],
            decreases n,
        {
            assert(all.take(n as int).drop_last() =~= all.take(n - 1));
            assert(all.take(n as int).last() == all[n - 1]);
            if same(self.cells[n - 1].name.as_str(), name) {
                return Some(&self.cells[n - 1].value);
            }
            n = n - 1;
        }
        None
    }

    /// A copy of the row.
    pub fn copy(&self) -> (r: Row)
        ensures
            r@ == self@,
    {
        let ghost all = self.cells@;
        let mut out = Row::new();
        let mut i: usize = 0;
        assert(all.take(0) =~= Seq::empty());
        while i < self.cells.len()
            invariant
                i <= all.len(),
                all == self.cells@,
                out@ == cells_view(all.take(i as int)),
            decreases all.len() - i,
        {
            assert(all.take(i + 1).drop_last() =~= all.take(i as int));
            assert(all.take(i + 1).last() == all[i as int]);
            out.insert(self.cells[i].name.as_str(), self.cells[i].value.copy());
            i = i + 1;
        }
        assert(all.take(i as int) =~= all);
        out
    }
}

/// Puts a row behind the others.
pub fn push_row(rows: &mut Vec<Row>, row: Row)
    ensures
        rows_view(final(rows)@) == rows_view(old(rows)@).push(row@),
{
    let ghost before = rows_view(rows@);
    rows.push(row);
    assert(rows_view(rows@) =~= before.push(row@));
}

/// No rows.
pub fn no_rows() -> (r: Vec<Row>)
    ensures
        rows_view(r@) == Seq::<RowView>::empty(),
{
    let v: Vec<Row> = Vec::new();
    assert(rows_view(v@) =~= Seq::empty());
    v
}

} // verus!
