//! The values of a result: as they go over the wire, and as they are recorded.
use super::capture::{parameters_of, rows_of, CapturedQuery, CapturedView};
use super::json::{json_list_view, values_of, Json, JsonView};
use crate::bytes::{
    big_endian, big_endian_signed, copy_bytes, decode_text, read_big_endian, read_big_endian_signed,
};
use crate::datatype::{
    arrow_to_pg_type, holds_text, is_text, pg_type_of, DataType, PgType, TimeUnit,
};
use crate::sorted::{entries_of, insert_sorted, inserted, sorted};
use crate::text::{decimal, decimal_text, signed, signed_text, views};
use vstd::arithmetic::div_mod::{lemma_fundamental_div_mod, lemma_fundamental_div_mod_converse};
use vstd::prelude::*;
use vstd::utf8::{decode_utf8, valid_utf8};

verus! {

// --- results ----------------------------------------------------------------------------------

/// A floating-point number: its bits, and how JSON writes it. A number that is not finite has
/// no JSON form.
#[derive(Debug)]
pub struct Real {
    pub bits: u64,
    pub json: Option<String>,
}

/// One value of a column.
#[derive(Debug)]
pub enum Datum {
    Null,
    Bool(bool),
    Int32(i32),
    Int64(i64),
    Real(Real),
    Text(String),
    /// The texts of a list; `None` for an element that is NULL.
    Texts(Vec<Option<String>>),
    /// An instant, in units since 1970.
    Instant(i64),
    /// A value of a type that has no form of its own here.
    Opaque,
}

/// What a [`Datum`] says.
pub enum DatumView {
    Null,
    Bool(bool),
    Int32(i32),
    Int64(i64),
    Real(u64, Option<Seq<char>>),
    Text(Seq<char>),
    Texts(Seq<Option<Seq<char>>>),
    Instant(i64),
    Opaque,
}

/// What a text that may be absent says.
pub open spec fn maybe(s: Option<String>) -> Option<Seq<char>> {
    match s {
        Some(x) => Some(x@),
        None => None,
    }
}

/// What a list of such texts says.
pub open spec fn maybe_texts(v: Seq<Option<String>>) -> Seq<Option<Seq<char>>> {
    Seq::new(v.len(), |i: int| maybe(v[i]))
}

impl View for Datum {
    type V = DatumView;

    open spec fn view(&self) -> DatumView {
        match *self {
            Datum::Null => DatumView::Null,
            Datum::Bool(b) => DatumView::Bool(b),
            Datum::Int32(n) => DatumView::Int32(n),
            Datum::Int64(n) => DatumView::Int64(n),
            Datum::Real(r) => DatumView::Real(r.bits, maybe(r.json)),
            Datum::Text(s) => DatumView::Text(s@),
            Datum::Texts(v) => DatumView::Texts(maybe_texts(v@)),
            Datum::Instant(n) => DatumView::Instant(n),
            Datum::Opaque => DatumView::Opaque,
        }
    }
}

/// Whether a value can stand in a column of a type.
pub open spec fn fits(t: DataType, v: DatumView) -> bool {
    v is Null || match t {
        DataType::Utf8 | DataType::Utf8View | DataType::LargeUtf8 => v is Text,
        DataType::Int32 => v is Int32,
        DataType::Int64 => v is Int64,
        DataType::Boolean => v is Bool,
        DataType::Float32 | DataType::Float64 => v is Real,
        DataType::Timestamp(_) => v is Instant,
        DataType::List(inner) => is_text(*inner) ==> v is Texts,
        _ => true,
    }
}

/// Whether a value that fits its column has a form on the wire: an instant in whole seconds
/// has none.
pub open spec fn has_layout(t: DataType, v: DatumView) -> bool {
    v is Null || t != DataType::Timestamp(TimeUnit::Second)
}

/// A column of a result. `shown` is how its type is written for a reader.
#[derive(Debug)]
pub struct Column {
    pub name: String,
    pub data_type: DataType,
    pub shown: String,
    pub values: Vec<Datum>,
}

/// What a [`Column`] says.
pub struct ColumnView {
    pub name: Seq<char>,
    pub data_type: DataType,
    pub shown: Seq<char>,
    pub values: Seq<DatumView>,
}

pub open spec fn value_views(v: Seq<Datum>) -> Seq<DatumView> {
    Seq::new(v.len(), |i: int| v[i]@)
}

impl View for Column {
    type V = ColumnView;

    open spec fn view(&self) -> ColumnView {
        ColumnView {
            name: self.name@,
            data_type: self.data_type,
            shown: self.shown@,
            values: value_views(self.values@),
        }
    }
}

pub open spec fn column_views(v: Seq<Column>) -> Seq<ColumnView> {
    Seq::new(v.len(), |i: int| v[i]@)
}

/// A part of a result: its columns, each with a value for every row.
#[derive(Debug)]
pub struct Batch {
    pub rows: usize,
    pub columns: Vec<Column>,
}

/// What a [`Batch`] says.
pub struct BatchView {
    pub rows: nat,
    pub columns: Seq<ColumnView>,
}

impl View for Batch {
    type V = BatchView;

    open spec fn view(&self) -> BatchView {
        BatchView { rows: self.rows as nat, columns: column_views(self.columns@) }
    }
}

impl BatchView {
    /// Whether every column has a value for every row, of the column's type.
    pub open spec fn well_formed(self) -> bool {
        forall|c: int|
            0 <= c < self.columns.len() ==> {
                &&& (#[trigger] self.columns[c]).values.len() == self.rows
                &&& forall|r: int|
                    0 <= r < self.rows ==> fits(
                        self.columns[c].data_type,
                        #[trigger] self.columns[c].values[r],
                    )
            }
    }

    /// Whether, beyond that, every value has a form on the wire.
    pub open spec fn sendable(self) -> bool {
        &&& self.well_formed()
        &&& forall|c: int, r: int|
            0 <= c < self.columns.len() && 0 <= r < self.rows ==> has_layout(
                self.columns[c].data_type,
                #[trigger] self.columns[c].values[r],
            )
    }
}

impl Batch {
    /// Whether the batch can be read; see [`BatchView::well_formed`].
    pub fn is_well_formed(&self) -> (r: bool)
        ensures
            r == self@.well_formed(),
    {
        let mut c: usize = 0;
        while c < self.columns.len()
            invariant
                c <= self.columns@.len(),
                forall|k: int|
                    0 <= k < c ==> {
                        &&& (#[trigger] self@.columns[k]).values.len() == self@.rows
                        &&& forall|r: int|
                            0 <= r < self@.rows ==> fits(
                                self@.columns[k].data_type,
                                #[trigger] self@.columns[k].values[r],
                            )
                    },
            decreases self.columns@.len() - c,
        {
            let column = &self.columns[c];
            assert(self@.columns[c as int] == column@);
            if column.values.len() != self.rows {
                return false;
            }
            let mut r: usize = 0;
            while r < self.rows
                invariant
                    r <= self.rows,
                    column.values@.len() == self.rows,
                    c < self.columns@.len(),
                    self@.columns[c as int] == column@,
                    forall|k: int|
                        0 <= k < r ==> fits(column@.data_type, #[trigger] column@.values[k]),
                decreases self.rows - r,
            {
                if !can_hold(&column.data_type, &column.values[r]) {
                    assert(!fits(
                        self@.columns[c as int].data_type,
                        self@.columns[c as int].values[r as int],
                    ));
                    return false;
                }
                r = r + 1;
            }
            c = c + 1;
        }
        true
    }

    /// Whether the batch can be sent; see [`BatchView::sendable`].
    pub fn is_sendable(&self) -> (r: bool)
        ensures
            r == self@.sendable(),
    {
        if !self.is_well_formed() {
            return false;
        }
        let mut c: usize = 0;
        while c < self.columns.len()
            invariant
                c <= self.columns@.len(),
                self@.well_formed(),
                forall|k: int, r: int|
                    0 <= k < c && 0 <= r < self@.rows ==> has_layout(
                        self@.columns[k].data_type,
                        #[trigger] self@.columns[k].values[r],
                    ),
            decreases self.columns@.len() - c,
        {
            let column = &self.columns[c];
            assert(self@.columns[c as int] == column@);
            let seconds = match &column.data_type {
                DataType::Timestamp(unit) => *unit == TimeUnit::Second,
                _ => false,
            };
            let mut r: usize = 0;
            while r < self.rows
                invariant
                    r <= self.rows,
                    column.values@.len() == self.rows,
                    c < self.columns@.len(),
                    self@.columns[c as int] == column@,
                    seconds == (column@.data_type == DataType::Timestamp(TimeUnit::Second)),
                    forall|k: int|
                        0 <= k < r ==> has_layout(column@.data_type, #[trigger] column@.values[k]),
                decreases self.rows - r,
            {
                if seconds && !matches!(column.values[r], Datum::Null) {
                    assert(!has_layout(
                        self@.columns[c as int].data_type,
                        self@.columns[c as int].values[r as int],
                    ));
                    return false;
                }
                r = r + 1;
            }
            c = c + 1;
        }
        true
    }
}

fn can_hold(t: &DataType, v: &Datum) -> (r: bool)
    ensures
        r == fits(*t, v@),
{
    if let Datum::Null = v {
        return true;
    }
    match t {
        DataType::Utf8 | DataType::Utf8View | DataType::LargeUtf8 => matches!(v, Datum::Text(_)),
        DataType::Int32 => matches!(v, Datum::Int32(_)),
        DataType::Int64 => matches!(v, Datum::Int64(_)),
        DataType::Boolean => matches!(v, Datum::Bool(_)),
        DataType::Float32 | DataType::Float64 => matches!(v, Datum::Real(_)),
        DataType::Timestamp(_) => matches!(v, Datum::Instant(_)),
        DataType::List(inner) => !holds_text(inner) || matches!(v, Datum::Texts(_)),
        _ => true,
    }
}

/// The name and the PostgreSQL type that a column is announced with.
#[derive(Debug, PartialEq, Eq)]
pub struct FieldInfo {
    pub name: String,
    pub datatype: PgType,
}

/// What a list of announced columns says.
pub open spec fn fields_of(v: Seq<FieldInfo>) -> Seq<(Seq<char>, PgType)> {
    Seq::new(v.len(), |i: int| (v[i].name@, v[i].datatype))
}

/// How the columns of a result are announced.
pub open spec fn announced(columns: Seq<ColumnView>) -> Seq<(Seq<char>, PgType)> {
    Seq::new(columns.len(), |i: int| (columns[i].name, pg_type_of(columns[i].data_type)))
}

/// Announces every column of `batch`, in order.
pub fn batch_to_field_info(batch: &Batch) -> (r: Vec<FieldInfo>)
    ensures
        fields_of(r@) == announced(batch@.columns),
{
    let mut out: Vec<FieldInfo> = Vec::new();
    let ghost all = announced(batch@.columns);
    let mut i: usize = 0;
    while i < batch.columns.len()
        invariant
            i <= batch.columns@.len(),
            all == announced(batch@.columns),
            fields_of(out@) == all.take(i as int),
        decreases batch.columns@.len() - i,
    {
        let ghost before = fields_of(out@);
        let column = &batch.columns[i];
        assert(batch@.columns[i as int] == column@);
        let field = FieldInfo {
            name: column.name.clone(),
            datatype: arrow_to_pg_type(&column.data_type),
        };
        let ghost shown = (field.name@, field.datatype);
        out.push(field);
        assert(fields_of(out@) =~= before.push(shown));
        assert(all.take(i + 1) =~= all.take(i as int).push(all[i as int]));
        i = i + 1;
    }
    assert(all.take(i as int) =~= all);
    out
}

// --- recorded rows ----------------------------------------------------------------------------

/// The JSON form of a text that may be absent.
pub open spec fn maybe_json(s: Option<Seq<char>>) -> JsonView {
    match s {
        Some(x) => JsonView::Text(x),
        None => JsonView::Null,
    }
}

/// How a value is recorded; what has no recorded form is `null`.
pub open spec fn recorded(t: DataType, v: DatumView) -> JsonView {
    match v {
        DatumView::Text(s) if is_text(t) => JsonView::Text(s),
        DatumView::Int32(n) if t is Int32 => JsonView::Number(signed(n as int)),
        DatumView::Int64(n) if t is Int64 => JsonView::Number(signed(n as int)),
        DatumView::Bool(b) if t is Boolean => JsonView::Bool(b),
        DatumView::Real(_, Some(s)) if t is Float32 || t is Float64 => JsonView::Number(s),
        DatumView::Texts(items) if t is List && *t->List_0 is Utf8 => JsonView::List(
            Seq::new(items.len(), |i: int| maybe_json(items[i])),
        ),
        _ => JsonView::Null,
    }
}

fn texts_json(items: &Vec<Option<String>>) -> (r: Json)
    ensures
        r@ == JsonView::List(
            Seq::new(maybe_texts(items@).len(), |i: int| maybe_json(maybe_texts(items@)[i])),
        ),
{
    let mut out: Vec<Json> = Vec::new();
    let ghost texts = maybe_texts(items@);
    let ghost all = Seq::new(texts.len(), |i: int| maybe_json(texts[i]));
    let mut i: usize = 0;
    while i < items.len()
        invariant
            i <= items@.len(),
            texts == maybe_texts(items@),
            all == Seq::new(texts.len(), |i: int| maybe_json(texts[i])),
            values_of(out@) == all.take(i as int),
        decreases items@.len() - i,
    {
        let ghost before = values_of(out@);
        let v = match &items[i] {
            Some(s) => Json::Text(s.clone()),
            None => Json::Null,
        };
        assert(v@ == all[i as int]);
        let ghost shown = v@;
        out.push(v);
        assert(values_of(out@) =~= before.push(shown));
        assert(all.take(i + 1) =~= all.take(i as int).push(all[i as int]));
        i = i + 1;
    }
    assert(all.take(i as int) =~= all);
    proof {
        json_list_view(out);
    }
    Json::List(out)
}

fn to_json(t: &DataType, v: &Datum) -> (r: Json)
    ensures
        r@ == recorded(*t, v@),
{
    match v {
        Datum::Text(s) => if holds_text(t) {
            Json::Text(s.clone())
        } else {
            Json::Null
        },
        Datum::Int32(n) => if let DataType::Int32 = t {
            Json::Number(signed_text(*n as i64))
        } else {
            Json::Null
        },
        Datum::Int64(n) => if let DataType::Int64 = t {
            Json::Number(signed_text(*n))
        } else {
            Json::Null
        },
        Datum::Bool(b) => if let DataType::Boolean = t {
            Json::Bool(*b)
        } else {
            Json::Null
        },
        Datum::Real(n) => {
            if matches!(t, DataType::Float32 | DataType::Float64) {
                if let Some(s) = &n.json {
                    return Json::Number(s.clone());
                }
            }
            Json::Null
        },
        Datum::Texts(items) => {
            if let DataType::List(inner) = t {
                if let DataType::Utf8 = **inner {
                    return texts_json(items);
                }
            }
            Json::Null
        },
        _ => Json::Null,
    }
}

/// The first `n` columns of row `r`, by name: of columns with one name the last one counts.
pub open spec fn row_entries(columns: Seq<ColumnView>, n: nat, r: int) -> Seq<(Seq<char>, JsonView)>
    decreases n,
{
    if n == 0 {
        Seq::empty()
    } else {
        inserted(
            row_entries(columns, (n - 1) as nat, r),
            columns[n - 1].name,
            recorded(columns[n - 1].data_type, columns[n - 1].values[r]),
        )
    }
}

/// The rows of a batch, by column name.
pub open spec fn recorded_rows(b: BatchView) -> Seq<Seq<(Seq<char>, JsonView)>> {
    Seq::new(b.rows, |r: int| row_entries(b.columns, b.columns.len(), r))
}

pub open spec fn batch_views(v: Seq<Batch>) -> Seq<BatchView> {
    Seq::new(v.len(), |i: int| v[i]@)
}

/// The rows of the first `n` batches.
pub open spec fn all_recorded_rows(batches: Seq<BatchView>, n: nat) -> Seq<
    Seq<(Seq<char>, JsonView)>,
>
    decreases n,
{
    if n == 0 {
        Seq::empty()
    } else {
        all_recorded_rows(batches, (n - 1) as nat) + recorded_rows(batches[n - 1])
    }
}

fn row_to_json(batch: &Batch, r: usize) -> (row: Vec<(String, Json)>)
    requires
        batch@.well_formed(),
        r < batch.rows,
    ensures
        entries_of(row@) == row_entries(batch@.columns, batch@.columns.len(), r as int),
        sorted(entries_of(row@)),
{
    let mut row: Vec<(String, Json)> = Vec::new();
    let ghost columns = batch@.columns;
    let mut c: usize = 0;
    assert(entries_of(row@) =~= Seq::empty());
    while c < batch.columns.len()
        invariant
            c <= batch.columns@.len(),
            batch@.well_formed(),
            r < batch.rows,
            columns == batch@.columns,
            entries_of(row@) == row_entries(columns, c as nat, r as int),
            sorted(entries_of(row@)),
        decreases batch.columns@.len() - c,
    {
        let column = &batch.columns[c];
        assert(columns[c as int] == column@);
        let value = to_json(&column.data_type, &column.values[r]);
        insert_sorted(&mut row, column.name.clone(), value);
        c = c + 1;
    }
    row
}

/// Every row of `batches`, as it is recorded: its values by column name, in the order of the
/// names.
pub fn batches_to_json_rows(batches: &Vec<Batch>) -> (rows: Vec<Vec<(String, Json)>>)
    requires
        forall|i: int| 0 <= i < batches@.len() ==> (#[trigger] batches@[i])@.well_formed(),
    ensures
        rows_of(rows@) == all_recorded_rows(batch_views(batches@), batches@.len()),
        forall|i: int| 0 <= i < rows@.len() ==> sorted(#[trigger] rows_of(rows@)[i]),
{
    let mut rows: Vec<Vec<(String, Json)>> = Vec::new();
    let ghost all = batch_views(batches@);
    let mut i: usize = 0;
    assert(rows_of(rows@) =~= Seq::empty());
    while i < batches.len()
        invariant
            i <= batches@.len(),
            all == batch_views(batches@),
            forall|k: int| 0 <= k < batches@.len() ==> (#[trigger] batches@[k])@.well_formed(),
            rows_of(rows@) == all_recorded_rows(all, i as nat),
            forall|k: int| 0 <= k < rows@.len() ==> sorted(#[trigger] rows_of(rows@)[k]),
        decreases batches@.len() - i,
    {
        let batch = &batches[i];
        assert(all[i as int] == batch@);
        let ghost before = rows_of(rows@);
        let ghost new = recorded_rows(batch@);
        let mut r: usize = 0;
        assert(before + new.take(0) =~= before);
        while r < batch.rows
            invariant
                r <= batch.rows,
                batch@.well_formed(),
                new == recorded_rows(batch@),
                rows_of(rows@) == before + new.take(r as int),
                forall|k: int| 0 <= k < rows@.len() ==> sorted(#[trigger] rows_of(rows@)[k]),
            decreases batch.rows - r,
        {
            let ghost so_far = rows_of(rows@);
            let row = row_to_json(batch, r);
            let ghost shown = entries_of(row@);
            assert(new[r as int] == shown);
            rows.push(row);
            assert(rows_of(rows@) =~= so_far.push(shown));
            assert(new.take(r + 1) =~= new.take(r as int).push(shown));
            assert(rows_of(rows@) =~= before + new.take(r + 1));
            r = r + 1;
        }
        assert(new.take(r as int) =~= new);
        i = i + 1;
    }
    rows
}

// --- values on the wire -----------------------------------------------------------------------

/// A value as the wire encoder takes it; `None` is NULL. A floating-point number is given by
/// its bits.
#[derive(Debug, PartialEq, Eq)]
pub enum WireValue {
    Text(Option<String>),
    Bool(Option<bool>),
    Int4(Option<i32>),
    Int8(Option<i64>),
    Float4(Option<u64>),
    Float8(Option<u64>),
    TextArray(Option<Vec<String>>),
}

/// What a [`WireValue`] says.
pub enum WireView {
    Text(Option<Seq<char>>),
    Bool(Option<bool>),
    Int4(Option<i32>),
    Int8(Option<i64>),
    Float4(Option<u64>),
    Float8(Option<u64>),
    TextArray(Option<Seq<Seq<char>>>),
}

impl View for WireValue {
    type V = WireView;

    open spec fn view(&self) -> WireView {
        match *self {
            WireValue::Text(s) => WireView::Text(maybe(s)),
            WireValue::Bool(x) => WireView::Bool(x),
            WireValue::Int4(x) => WireView::Int4(x),
            WireValue::Int8(x) => WireView::Int8(x),
            WireValue::Float4(x) => WireView::Float4(x),
            WireValue::Float8(x) => WireView::Float8(x),
            WireValue::TextArray(v) => WireView::TextArray(
                match v {
                    Some(x) => Some(views(x@)),
                    None => None,
                },
            ),
        }
    }
}

/// How many units a second has.
pub open spec fn per_second(unit: TimeUnit) -> int {
    match unit {
        TimeUnit::Second => 1,
        TimeUnit::Millisecond => 1_000,
        TimeUnit::Microsecond => 1_000_000,
        TimeUnit::Nanosecond => 1_000_000_000,
    }
}

/// How many nanoseconds a unit has.
pub open spec fn nanoseconds(unit: TimeUnit) -> int {
    match unit {
        TimeUnit::Second => 1_000_000_000,
        TimeUnit::Millisecond => 1_000_000,
        TimeUnit::Microsecond => 1_000,
        TimeUnit::Nanosecond => 1,
    }
}

/// The layout of an instant, down to its unit.
pub open spec fn instant_format(unit: TimeUnit) -> Seq<char> {
    match unit {
        TimeUnit::Second => "%Y-%m-%d %H:%M:%S"@,
        TimeUnit::Millisecond => "%Y-%m-%d %H:%M:%S%.3f"@,
        TimeUnit::Microsecond => "%Y-%m-%d %H:%M:%S%.6f"@,
        TimeUnit::Nanosecond => "%Y-%m-%d %H:%M:%S%.9f"@,
    }
}

/// `chrono::DateTime::from_timestamp` and its `format`: the text of the instant `seconds` and
/// `nanos` after the beginning of 1970 in UTC; none where the calendar does not reach it.
pub uninterp spec fn instant_text(seconds: i64, nanos: u32, format: Seq<char>) -> Option<Seq<char>>;

/// `chrono::DateTime::from_timestamp`, formatted: the result is what [`instant_text`] names.
#[verifier::external_body]
fn format_instant(seconds: i64, nanos: u32, format: &str) -> (r: Option<String>)
    requires
        exists|unit: TimeUnit| format@ == instant_format(unit),
    ensures
        maybe(r) == instant_text(seconds, nanos, format@),
{
    chrono::DateTime::from_timestamp(seconds, nanos).map(|ts| ts.format(format).to_string())
}

/// The text of an instant that is counted in `unit`s. The part below a second counts forward
/// before 1970 too.
pub open spec fn shown_instant(unit: TimeUnit, n: i64) -> Option<Seq<char>> {
    let per = per_second(unit);
    instant_text(
        (n as int / per) as i64,
        (n as int % per * nanoseconds(unit)) as u32,
        instant_format(unit),
    )
}

/// How many times `per` fits into `n`, rounded down, and what is left.
fn floor_parts(n: i64, per: i64) -> (r: (i64, i64))
    requires
        1 < per,
    ensures
        r.0 == n as int / per as int,
        r.1 == n as int % per as int,
        0 <= r.1 < per,
{
    if n >= 0 {
        (n / per, n % per)
    } else {
        let m: i64 = -(n + 1);
        let q: i64 = m / per;
        let rest: i64 = m % per;
        proof {
            lemma_fundamental_div_mod(m as int, per as int);
            assert(n == (-q - 1) * per + (per - 1 - rest)) by (nonlinear_arith)
                requires
                    n == -m - 1,
                    m == per * q + rest,
            ;
            lemma_fundamental_div_mod_converse(n as int, per as int, -q - 1, per - 1 - rest);
            assert(q <= m) by (nonlinear_arith)
                requires
                    m == per * q + rest,
                    1 < per,
                    0 <= q,
                    0 <= rest,
            ;
        }
        (-q - 1, per - 1 - rest)
    }
}

/// The text of an instant, as PostgreSQL writes a `timestamp`. Results do not count in whole
/// seconds.
pub fn format_timestamp(unit: TimeUnit, n: i64) -> (r: Option<String>)
    requires
        unit != TimeUnit::Second,
    ensures
        maybe(r) == shown_instant(unit, n),
{
    let (per, nanos, format): (i64, i64, &str) = match unit {
        TimeUnit::Second | TimeUnit::Millisecond => (1_000, 1_000_000, "%Y-%m-%d %H:%M:%S%.3f"),
        TimeUnit::Microsecond => (1_000_000, 1_000, "%Y-%m-%d %H:%M:%S%.6f"),
        TimeUnit::Nanosecond => (1_000_000_000, 1, "%Y-%m-%d %H:%M:%S%.9f"),
    };
    let (seconds, rest) = floor_parts(n, per);
    assert(0 <= rest * nanos < 1_000_000_000) by (nonlinear_arith)
        requires
            0 <= rest < per,
            per * nanos == 1_000_000_000,
            0 < nanos,
    ;
    assert(format@ == instant_format(unit));
    format_instant(seconds, (rest * nanos) as u32, format)
}

/// The elements of a list of texts: an element that is NULL reads `NULL`.
pub open spec fn listed(items: Seq<Option<Seq<char>>>) -> Seq<Seq<char>> {
    Seq::new(
        items.len(),
        |i: int|
            match items[i] {
                Some(s) => s,
                None => "NULL"@,
            },
    )
}

fn stringify_string_array(items: &Vec<Option<String>>) -> (r: Vec<String>)
    ensures
        views(r@) == listed(maybe_texts(items@)),
{
    let mut out: Vec<String> = Vec::new();
    let ghost all = listed(maybe_texts(items@));
    let mut i: usize = 0;
    while i < items.len()
        invariant
            i <= items@.len(),
            all == listed(maybe_texts(items@)),
            views(out@) == all.take(i as int),
        decreases items@.len() - i,
    {
        let ghost before = views(out@);
        let s: String = match &items[i] {
            Some(s) => s.clone(),
            None => "NULL".to_owned(),
        };
        let ghost shown = s@;
        assert(shown == all[i as int]);
        out.push(s);
        assert(views(out@) =~= before.push(shown));
        assert(all.take(i + 1) =~= all.take(i as int).push(all[i as int]));
        i = i + 1;
    }
    assert(all.take(i as int) =~= all);
    out
}

/// How a value of a column is sent. A type without a form of its own is sent as the text
/// `[unsupported TYPE]`.
pub open spec fn sent(column: ColumnView, v: DatumView) -> WireView {
    match column.data_type {
        DataType::Utf8 | DataType::Utf8View | DataType::LargeUtf8 => WireView::Text(
            match v {
                DatumView::Text(s) => Some(s),
                _ => None,
            },
        ),
        DataType::Int32 => WireView::Int4(
            match v {
                DatumView::Int32(n) => Some(n),
                _ => None,
            },
        ),
        DataType::Int64 => WireView::Int8(
            match v {
                DatumView::Int64(n) => Some(n),
                _ => None,
            },
        ),
        DataType::Float32 => WireView::Float4(
            match v {
                DatumView::Real(bits, _) => Some(bits),
                _ => None,
            },
        ),
        DataType::Float64 => WireView::Float8(
            match v {
                DatumView::Real(bits, _) => Some(bits),
                _ => None,
            },
        ),
        DataType::Timestamp(unit) => WireView::Text(
            match v {
                DatumView::Instant(n) => shown_instant(unit, n),
                _ => None,
            },
        ),
        DataType::Boolean => WireView::Bool(
            match v {
                DatumView::Bool(b) => Some(b),
                _ => None,
            },
        ),
        DataType::List(inner) if is_text(*inner) => WireView::TextArray(
            match v {
                DatumView::Texts(items) => Some(listed(items)),
                _ => None,
            },
        ),
        _ => WireView::Text(
            match v {
                DatumView::Null => None,
                _ => Some("[unsupported "@ + column.shown + "]"@),
            },
        ),
    }
}

/// The value of `column` in row `r`, as it is sent.
pub fn encode_column_value(column: &Column, r: usize) -> (w: WireValue)
    requires
        r < column.values@.len(),
        fits(column.data_type, column.values@[r as int]@),
        has_layout(column.data_type, column.values@[r as int]@),
    ensures
        w@ == sent(column@, column@.values[r as int]),
{
    let v = &column.values[r];
    match &column.data_type {
        DataType::Utf8 | DataType::Utf8View | DataType::LargeUtf8 => WireValue::Text(
            if let Datum::Text(s) = v {
                Some(s.clone())
            } else {
                None
            },
        ),
        DataType::Int32 => WireValue::Int4(
            if let Datum::Int32(n) = v {
                Some(*n)
            } else {
                None
            },
        ),
        DataType::Int64 => WireValue::Int8(
            if let Datum::Int64(n) = v {
                Some(*n)
            } else {
                None
            },
        ),
        DataType::Float32 => WireValue::Float4(
            if let Datum::Real(n) = v {
                Some(n.bits)
            } else {
                None
            },
        ),
        DataType::Float64 => WireValue::Float8(
            if let Datum::Real(n) = v {
                Some(n.bits)
            } else {
                None
            },
        ),
        DataType::Timestamp(unit) => WireValue::Text(
            if let Datum::Instant(n) = v {
                format_timestamp(*unit, *n)
            } else {
                None
            },
        ),
        DataType::Boolean => WireValue::Bool(
            if let Datum::Bool(b) = v {
                Some(*b)
            } else {
                None
            },
        ),
        t => {
            if let DataType::List(inner) = t {
                if holds_text(inner) {
                    return WireValue::TextArray(
                        if let Datum::Texts(items) = v {
                            Some(stringify_string_array(items))
                        } else {
                            None
                        },
                    );
                }
            }
            if let Datum::Null = v {
                return WireValue::Text(None);
            }
            let mut s = "[unsupported ".to_owned();
            s.append(column.shown.as_str());
            s.append("]");
            WireValue::Text(Some(s))
        },
    }
}

pub open spec fn wire_views(v: Seq<WireValue>) -> Seq<WireView> {
    Seq::new(v.len(), |i: int| v[i]@)
}

/// What a list of rows of values says.
pub open spec fn wire_rows(v: Seq<Vec<WireValue>>) -> Seq<Seq<WireView>> {
    Seq::new(v.len(), |i: int| wire_views(v[i]@))
}

/// Row `r`, as it is sent.
pub open spec fn sent_row(b: BatchView, r: int) -> Seq<WireView> {
    Seq::new(b.columns.len(), |c: int| sent(b.columns[c], b.columns[c].values[r]))
}

/// Every row, as it is sent.
pub open spec fn sent_rows(b: BatchView) -> Seq<Seq<WireView>> {
    Seq::new(b.rows, |r: int| sent_row(b, r))
}

fn row_values(batch: &Batch, r: usize) -> (row: Vec<WireValue>)
    requires
        batch@.sendable(),
        r < batch.rows,
    ensures
        wire_views(row@) == sent_row(batch@, r as int),
{
    let mut row: Vec<WireValue> = Vec::new();
    let ghost all = sent_row(batch@, r as int);
    let mut c: usize = 0;
    while c < batch.columns.len()
        invariant
            c <= batch.columns@.len(),
            batch@.sendable(),
            r < batch.rows,
            all == sent_row(batch@, r as int),
            wire_views(row@) == all.take(c as int),
        decreases batch.columns@.len() - c,
    {
        let ghost before = wire_views(row@);
        let column = &batch.columns[c];
        assert(batch@.columns[c as int] == column@);
        assert(column@.values[r as int] == column.values@[r as int]@);
        let w = encode_column_value(column, r);
        let ghost shown = w@;
        row.push(w);
        assert(wire_views(row@) =~= before.push(shown));
        assert(all.take(c + 1) =~= all.take(c as int).push(all[c as int]));
        c = c + 1;
    }
    assert(all.take(c as int) =~= all);
    row
}

/// The rows of `batch`, as they are sent.
pub fn batch_to_rows(batch: &Batch) -> (rows: Vec<Vec<WireValue>>)
    requires
        batch@.sendable(),
    ensures
        wire_rows(rows@) == sent_rows(batch@),
{
    let mut rows: Vec<Vec<WireValue>> = Vec::new();
    let ghost all = sent_rows(batch@);
    let mut r: usize = 0;
    while r < batch.rows
        invariant
            r <= batch.rows,
            batch@.sendable(),
            all == sent_rows(batch@),
            wire_rows(rows@) == all.take(r as int),
        decreases batch.rows - r,
    {
        let ghost before = wire_rows(rows@);
        let row = row_values(batch, r);
        let ghost shown = wire_views(row@);
        rows.push(row);
        assert(wire_rows(rows@) =~= before.push(shown));
        assert(all.take(r + 1) =~= all.take(r as int).push(all[r as int]));
        r = r + 1;
    }
    assert(all.take(r as int) =~= all);
    rows
}

// --- parameters -------------------------------------------------------------------------------

/// The types of parameters; one that the client left open is unknown.
pub open spec fn concrete(types: Seq<Option<PgType>>) -> Seq<PgType> {
    Seq::new(
        types.len(),
        |i: int|
            match types[i] {
                Some(t) => t,
                None => PgType::Unknown,
            },
    )
}

pub fn concrete_param_types(types: &Vec<Option<PgType>>) -> (r: Vec<PgType>)
    ensures
        r@ == concrete(types@),
{
    let mut out: Vec<PgType> = Vec::new();
    let mut i: usize = 0;
    while i < types.len()
        invariant
            i <= types@.len(),
            out@ == concrete(types@).take(i as int),
        decreases types@.len() - i,
    {
        let t: PgType = match types[i] {
            Some(t) => t,
            None => PgType::Unknown,
        };
        out.push(t);
        i = i + 1;
        assert(out@ =~= concrete(types@).take(i as int));
    }
    assert(concrete(types@).take(i as int) =~= concrete(types@));
    out
}

/// Whether a type's values are texts.
pub open spec fn is_text_parameter(t: PgType) -> bool {
    t is Varchar || t is Text || t is Bpchar || t is Name || t is Unknown
}

/// Whether the bytes of a parameter are a value of its type.
pub open spec fn well_sent(bytes: Option<Seq<u8>>, t: PgType) -> bool {
    match bytes {
        None => true,
        Some(s) => match t {
            PgType::Int2 => s.len() == 2,
            PgType::Int4 => s.len() == 4,
            PgType::Int8 => s.len() == 8,
            PgType::Oid => s.len() == 4,
            _ => is_text_parameter(t) ==> valid_utf8(s),
        },
    }
}

/// The value of a parameter, as it is recorded; none for NULL and for a type without a
/// recorded form.
pub open spec fn decoded(bytes: Option<Seq<u8>>, t: PgType) -> Option<JsonView> {
    match bytes {
        None => None,
        Some(s) => match t {
            PgType::Int2 | PgType::Int4 | PgType::Int8 => Some(
                JsonView::Number(signed(big_endian_signed(s))),
            ),
            PgType::Oid => Some(JsonView::Number(decimal(big_endian(s)))),
            _ => if is_text_parameter(t) {
                Some(JsonView::Text(decode_utf8(s)))
            } else {
                None
            },
        },
    }
}

/// The bytes of parameters.
pub open spec fn payloads(v: Seq<Option<Vec<u8>>>) -> Seq<Option<Seq<u8>>> {
    Seq::new(
        v.len(),
        |i: int|
            match v[i] {
                Some(b) => Some(b@),
                None => None,
            },
    )
}

/// How many parameters have a type.
pub open spec fn typed_count(p: Seq<Option<Seq<u8>>>, types: Seq<PgType>) -> nat {
    if p.len() <= types.len() {
        p.len()
    } else {
        types.len()
    }
}

/// Whether the bytes of every parameter are a value of its type.
pub open spec fn all_well_sent(p: Seq<Option<Seq<u8>>>, types: Seq<PgType>) -> bool {
    forall|i: int| 0 <= i < typed_count(p, types) ==> well_sent(#[trigger] p[i], types[i])
}

/// The parameters, as they are recorded.
pub open spec fn decoded_all(p: Seq<Option<Seq<u8>>>, types: Seq<PgType>) -> Seq<Option<JsonView>> {
    Seq::new(typed_count(p, types), |i: int| decoded(p[i], types[i]))
}

fn is_text_type(t: PgType) -> (r: bool)
    ensures
        r == is_text_parameter(t),
{
    matches!(t, PgType::Varchar | PgType::Text | PgType::Bpchar | PgType::Name | PgType::Unknown)
}

fn is_well_sent(param: &Option<Vec<u8>>, t: PgType) -> (r: bool)
    ensures
        r == well_sent(
            match *param {
                Some(b) => Some(b@),
                None => None,
            },
            t,
        ),
{
    match param {
        None => true,
        Some(b) => match t {
            PgType::Int2 => b.len() == 2,
            PgType::Int4 => b.len() == 4,
            PgType::Int8 => b.len() == 8,
            PgType::Oid => b.len() == 4,
            _ => {
                assert(b@.subrange(0, b@.len() as int) =~= b@);
                !is_text_type(t) || decode_text(copy_bytes(b, 0, b.len())).is_some()
            },
        },
    }
}

/// Whether [`decode_parameters`] can read the parameters.
pub fn parameters_match(params: &Vec<Option<Vec<u8>>>, types: &Vec<PgType>) -> (r: bool)
    ensures
        r == all_well_sent(payloads(params@), types@),
{
    let ghost p = payloads(params@);
    let mut i: usize = 0;
    while i < params.len() && i < types.len()
        invariant
            p == payloads(params@),
            i <= params@.len(),
            i <= types@.len(),
            forall|k: int| 0 <= k < i ==> well_sent(#[trigger] p[k], types@[k]),
        decreases params@.len() - i,
    {
        if !is_well_sent(&params[i], types[i]) {
            assert(!well_sent(p[i as int], types@[i as int]));
            return false;
        }
        i = i + 1;
    }
    true
}

fn decode_parameter(param: &Option<Vec<u8>>, t: PgType) -> (r: Option<Json>)
    requires
        well_sent(
            match *param {
                Some(b) => Some(b@),
                None => None,
            },
            t,
        ),
    ensures
        (match r {
            Some(v) => Some(v@),
            None => None,
        }) == decoded(
            match *param {
                Some(b) => Some(b@),
                None => None,
            },
            t,
        ),
{
    match param {
        None => None,
        Some(b) => match t {
            PgType::Int2 | PgType::Int4 | PgType::Int8 => Some(
                Json::Number(signed_text(read_big_endian_signed(b.as_slice()))),
            ),
            PgType::Oid => Some(Json::Number(decimal_text(read_big_endian(b.as_slice())))),
            _ => {
                if !is_text_type(t) {
                    return None;
                }
                assert(b@.subrange(0, b@.len() as int) =~= b@);
                match decode_text(copy_bytes(b, 0, b.len())) {
                    Some(s) => Some(Json::Text(s)),
                    None => None,
                }
            },
        },
    }
}

/// The bound parameters of a statement, as they are recorded. A parameter without a type is
/// left out.
pub fn decode_parameters(params: &Vec<Option<Vec<u8>>>, types: &Vec<PgType>) -> (r: Vec<
    Option<Json>,
>)
    requires
        all_well_sent(payloads(params@), types@),
    ensures
        parameters_of(r@) == decoded_all(payloads(params@), types@),
{
    let ghost p = payloads(params@);
    let ghost all = decoded_all(p, types@);
    let mut out: Vec<Option<Json>> = Vec::new();
    let mut i: usize = 0;
    while i < params.len() && i < types.len()
        invariant
            p == payloads(params@),
            all == decoded_all(p, types@),
            i <= params@.len(),
            i <= types@.len(),
            all_well_sent(p, types@),
            parameters_of(out@) == all.take(i as int),
        decreases params@.len() - i,
    {
        let ghost before = parameters_of(out@);
        assert(well_sent(p[i as int], types@[i as int]));
        let v = decode_parameter(&params[i], types[i]);
        out.push(v);
        assert(parameters_of(out@) =~= before.push(all[i as int]));
        assert(all.take(i + 1) =~= all.take(i as int).push(all[i as int]));
        i = i + 1;
    }
    assert(all.take(i as int) =~= all);
    out
}

// --- captured queries -------------------------------------------------------------------------

/// The record of a query that failed with `error`.
pub fn failed_query(
    query: &str,
    params: &Vec<Option<Vec<u8>>>,
    declared: &Vec<Option<PgType>>,
    error: &str,
) -> (r: CapturedQuery)
    requires
        all_well_sent(payloads(params@), concrete(declared@)),
    ensures
        r@ == (CapturedView {
            query: query@,
            parameters: decoded_all(payloads(params@), concrete(declared@)),
            result: Seq::empty(),
            success: false,
            error_details: Some(error@),
        }),
{
    let types = concrete_param_types(declared);
    let result: Vec<Vec<(String, Json)>> = Vec::new();
    assert(rows_of(result@) =~= Seq::empty());
    CapturedQuery {
        query: query.to_owned(),
        parameters: decode_parameters(params, &types),
        result,
        success: false,
        error_details: Some(error.to_owned()),
    }
}

/// The record of a query that was answered with `batches`.
pub fn successful_query(
    query: &str,
    params: &Vec<Option<Vec<u8>>>,
    declared: &Vec<Option<PgType>>,
    batches: &Vec<Batch>,
) -> (r: CapturedQuery)
    requires
        all_well_sent(payloads(params@), concrete(declared@)),
        forall|i: int| 0 <= i < batches@.len() ==> (#[trigger] batches@[i])@.well_formed(),
    ensures
        r@ == (CapturedView {
            query: query@,
            parameters: decoded_all(payloads(params@), concrete(declared@)),
            result: all_recorded_rows(batch_views(batches@), batches@.len()),
            success: true,
            error_details: None,
        }),
{
    let types = concrete_param_types(declared);
    CapturedQuery {
        query: query.to_owned(),
        parameters: decode_parameters(params, &types),
        result: batches_to_json_rows(batches),
        success: true,
        error_details: None,
    }
}

// --- results of statements --------------------------------------------------------------------

/// The parameters and the columns that a prepared statement is described with once it has been
/// run: those of the first part of its result, and none where it has no result.
pub open spec fn described_results(results: Seq<BatchView>, declared: Seq<Option<PgType>>) -> (
    Seq<PgType>,
    Seq<(Seq<char>, PgType)>,
) {
    if results.len() == 0 {
        (Seq::empty(), Seq::empty())
    } else {
        (concrete(declared), announced(results[0].columns))
    }
}

/// Describes a prepared statement by the result of running it.
pub fn describe_results(results: &Vec<Batch>, declared: &Vec<Option<PgType>>) -> (r: (
    Vec<PgType>,
    Vec<FieldInfo>,
))
    ensures
        (r.0@, fields_of(r.1@)) == described_results(batch_views(results@), declared@),
{
    if results.len() == 0 {
        let types: Vec<PgType> = Vec::new();
        let fields: Vec<FieldInfo> = Vec::new();
        assert(types@ =~= Seq::empty());
        assert(fields_of(fields@) =~= Seq::empty());
        return (types, fields);
    }
    assert(batch_views(results@)[0] == results@[0]@);
    (concrete_param_types(declared), batch_to_field_info(&results[0]))
}

/// The users that the server itself keeps.
pub open spec fn demo_users() -> BatchView {
    BatchView {
        rows: 2,
        columns: seq![
            ColumnView {
                name: "id"@,
                data_type: DataType::Int32,
                shown: "Int32"@,
                values: seq![DatumView::Int32(1), DatumView::Int32(2)],
            },
        ].push(
            ColumnView {
                name: "name"@,
                data_type: DataType::Utf8,
                shown: "Utf8"@,
                values: seq![DatumView::Text("Alice"@)].push(DatumView::Text("Bob"@)),
            },
        ),
    }
}

/// The users that the server itself keeps.
pub fn demo_users_batch() -> (r: Batch)
    ensures
        r@ == demo_users(),
        r@.sendable(),
{
    let mut ids: Vec<Datum> = Vec::new();
    ids.push(Datum::Int32(1));
    ids.push(Datum::Int32(2));
    let mut names: Vec<Datum> = Vec::new();
    names.push(Datum::Text("Alice".to_owned()));
    names.push(Datum::Text("Bob".to_owned()));
    let id = Column {
        name: "id".to_owned(),
        data_type: DataType::Int32,
        shown: "Int32".to_owned(),
        values: ids,
    };
    let name = Column {
        name: "name".to_owned(),
        data_type: DataType::Utf8,
        shown: "Utf8".to_owned(),
        values: names,
    };
    assert(id@.values =~= demo_users().columns[0].values);
    assert(name@.values =~= demo_users().columns[1].values);
    let mut columns: Vec<Column> = Vec::new();
    columns.push(id);
    columns.push(name);
    assert(column_views(columns@) =~= demo_users().columns);
    Batch { rows: 2, columns }
}

/// The texts of rows as columns: a column for each of `names`.
pub open spec fn text_columns(names: Seq<Seq<char>>, rows: Seq<Vec<String>>) -> Seq<ColumnView> {
    Seq::new(
        names.len(),
        |c: int|
            ColumnView {
                name: names[c],
                data_type: DataType::Utf8,
                shown: "Utf8"@,
                values: Seq::new(rows.len(), |r: int| DatumView::Text(rows[r]@[c]@)),
            },
    )
}

fn text_column(name: &str, rows: &Vec<Vec<String>>, c: usize) -> (r: Column)
    requires
        forall|i: int| 0 <= i < rows@.len() ==> c < (#[trigger] rows@[i])@.len(),
    ensures
        r@.name == name@,
        r@.data_type == DataType::Utf8,
        r@.shown == "Utf8"@,
        r@.values =~= Seq::new(rows@.len(), |i: int| DatumView::Text(rows@[i]@[c as int]@)),
{
    let mut values: Vec<Datum> = Vec::new();
    let mut i: usize = 0;
    while i < rows.len()
        invariant
            i <= rows@.len(),
            values@.len() == i,
            forall|k: int| 0 <= k < rows@.len() ==> c < (#[trigger] rows@[k])@.len(),
            forall|k: int|
                0 <= k < i ==> (#[trigger] values@[k])@ == DatumView::Text(rows@[k]@[c as int]@),
        decreases rows@.len() - i,
    {
        values.push(Datum::Text(rows[i][c].clone()));
        i = i + 1;
    }
    Column {
        name: name.to_owned(),
        data_type: DataType::Utf8,
        shown: "Utf8".to_owned(),
        values,
    }
}

/// The result that has the texts `rows` under the columns `names`.
pub fn text_batch(names: &Vec<String>, rows: &Vec<Vec<String>>) -> (r: Batch)
    requires
        forall|i: int| 0 <= i < rows@.len() ==> (#[trigger] rows@[i])@.len() == names@.len(),
    ensures
        r@ == (BatchView { rows: rows@.len(), columns: text_columns(views(names@), rows@) }),
        r@.sendable(),
{
    let ghost all = text_columns(views(names@), rows@);
    let mut columns: Vec<Column> = Vec::new();
    let mut c: usize = 0;
    while c < names.len()
        invariant
            c <= names@.len(),
            all == text_columns(views(names@), rows@),
            forall|i: int| 0 <= i < rows@.len() ==> (#[trigger] rows@[i])@.len() == names@.len(),
            column_views(columns@) == all.take(c as int),
        decreases names@.len() - c,
    {
        let ghost before = column_views(columns@);
        let column = text_column(names[c].as_str(), rows, c);
        let ghost shown = column@;
        assert(shown.values =~= all[c as int].values);
        assert(shown == all[c as int]);
        columns.push(column);
        assert(column_views(columns@) =~= before.push(shown));
        assert(all.take(c + 1) =~= all.take(c as int).push(all[c as int]));
        c = c + 1;
    }
    assert(all.take(c as int) =~= all);
    Batch { rows: rows.len(), columns }
}

} // verus!
