//! What holds of values on their way to a client and into the record.
use super::json::JsonView;
use super::statements::{
    described, extended_answer, reported, shown_variable, simple_answer, AnswerView, ErrorView,
    OptsView,
};
use super::values::{
    all_recorded_rows, announced, decoded, decoded_all, described_results, instant_text, recorded,
    recorded_rows, row_entries, sent, sent_row, sent_rows, shown_instant, text_columns, well_sent,
    BatchView, ColumnView, DatumView, WireView,
};
use crate::bytes::{big_endian, big_endian_signed, big_endian_top, power256, powers};
use crate::datatype::{pg_type_of, DataType, PgType, TimeUnit};
use crate::sorted::{entry_of, inserted_value_is_found, inserting_keeps_order, sorted};
use crate::text::{
    decimal_is_read_back, find_part, first_part_is_found, holds_at, index_from, lowercased,
    signed_is_read_back, spelled, spelled_signed, starts_with,
};
use vstd::arithmetic::div_mod::{lemma_mod_breakdown, lemma_small_mod};
use vstd::prelude::*;
use vstd::utf8::{encode_utf8, encode_utf8_decode_utf8, valid_utf8};

verus! {

// --- values on the wire -----------------------------------------------------------------------

/// What a client takes a value for.
pub open spec fn received(w: WireView) -> DatumView {
    match w {
        WireView::Text(Some(s)) => DatumView::Text(s),
        WireView::Bool(Some(b)) => DatumView::Bool(b),
        WireView::Int4(Some(n)) => DatumView::Int32(n),
        WireView::Int8(Some(n)) => DatumView::Int64(n),
        WireView::Float4(Some(bits)) => DatumView::Real(bits, None),
        WireView::Float8(Some(bits)) => DatumView::Real(bits, None),
        WireView::TextArray(Some(v)) => DatumView::Texts(Seq::new(v.len(), |i: int| Some(v[i]))),
        _ => DatumView::Null,
    }
}

/// Whether a type has a form of its own on the wire, from which every value is read back.
pub open spec fn has_own_form(t: DataType) -> bool {
    ||| t is Utf8 || t is Utf8View || t is LargeUtf8
    ||| t is Int32 || t is Int64
    ||| t is Float32 || t is Float64
    ||| t is Boolean
}

/// Whether a value is one of a type with a form of its own, or NULL.
pub open spec fn is_of(t: DataType, v: DatumView) -> bool {
    ||| v is Null
    ||| (t is Utf8 || t is Utf8View || t is LargeUtf8) && v is Text
    ||| t is Int32 && v is Int32
    ||| t is Int64 && v is Int64
    ||| (t is Float32 || t is Float64) && v is Real
    ||| t is Boolean && v is Bool
}

/// Whether two values are the same for a client, to whom the JSON form of a number is not sent.
pub open spec fn same_value(a: DatumView, b: DatumView) -> bool {
    a == b || (a is Real && b is Real && a->Real_0 == b->Real_0)
}

/// A client reads back every value of a type with a form of its own: a text, a number and a
/// truth value are received as what they are, and NULL as NULL.
pub proof fn values_are_read_back(column: ColumnView, v: DatumView)
    requires
        has_own_form(column.data_type),
        is_of(column.data_type, v),
    ensures
        same_value(received(sent(column, v)), v),
{
}

/// Different values of such a type are sent as different values.
pub proof fn different_values_differ_on_the_wire(column: ColumnView, v: DatumView, u: DatumView)
    requires
        has_own_form(column.data_type),
        is_of(column.data_type, v),
        is_of(column.data_type, u),
        !same_value(v, u),
    ensures
        sent(column, v) != sent(column, u),
{
    values_are_read_back(column, v);
    values_are_read_back(column, u);
}

/// Whether a value on the wire is NULL.
pub open spec fn is_null(w: WireView) -> bool {
    match w {
        WireView::Text(s) => s is None,
        WireView::Bool(x) => x is None,
        WireView::Int4(x) => x is None,
        WireView::Int8(x) => x is None,
        WireView::Float4(x) => x is None,
        WireView::Float8(x) => x is None,
        WireView::TextArray(x) => x is None,
    }
}

/// NULL is sent as NULL, whatever the type of the column.
pub proof fn null_is_sent_as_null(column: ColumnView)
    ensures
        is_null(sent(column, DatumView::Null)),
{
}

/// A list of texts is received element by element; an element that is NULL reads `NULL`.
pub proof fn lists_are_read_back(column: ColumnView, items: Seq<Option<Seq<char>>>)
    requires
        column.data_type matches DataType::List(inner) && (*inner is Utf8 || *inner is Utf8View
            || *inner is LargeUtf8),
    ensures
        sent(column, DatumView::Texts(items)) matches WireView::TextArray(Some(v)) && v.len()
            == items.len() && (forall|i: int|
            0 <= i < v.len() ==> #[trigger] v[i] == (match items[i] {
                Some(s) => s,
                None => "NULL"@,
            })),
{
}

/// Any other value is sent as a text that names the type it has none of its own for.
pub proof fn other_values_are_named(column: ColumnView, v: DatumView)
    requires
        column.data_type is Int16 || column.data_type is Binary || column.data_type is Other,
        !(v is Null),
    ensures
        sent(column, v) == WireView::Text(Some("[unsupported "@ + column.shown + "]"@)),
{
}

/// A value is sent in the form of the type that its column is announced with.
pub proof fn values_have_the_announced_type(columns: Seq<ColumnView>, c: int, v: DatumView)
    requires
        0 <= c < columns.len(),
    ensures
        announced(columns).len() == columns.len(),
        announced(columns)[c].0 == columns[c].name,
        announced(columns)[c].1 is Bool <==> columns[c].data_type is Boolean,
        announced(columns)[c].1 is Bool ==> sent(columns[c], v) is Bool,
        announced(columns)[c].1 is Int4 ==> sent(columns[c], v) is Int4,
        announced(columns)[c].1 is Int8 ==> sent(columns[c], v) is Int8,
        announced(columns)[c].1 is Float4 ==> sent(columns[c], v) is Float4,
        announced(columns)[c].1 is Float8 ==> sent(columns[c], v) is Float8,
        announced(columns)[c].1 is Text ==> sent(columns[c], v) is Text,
        announced(columns)[c].1 is Timestamp ==> sent(columns[c], v) is Text,
        sent(columns[c], v) is Bool ==> announced(columns)[c].1 is Bool,
        sent(columns[c], v) is Int4 ==> announced(columns)[c].1 is Int4,
        sent(columns[c], v) is Int8 ==> announced(columns)[c].1 is Int8,
        sent(columns[c], v) is Float4 ==> announced(columns)[c].1 is Float4,
        sent(columns[c], v) is Float8 ==> announced(columns)[c].1 is Float8,
        sent(columns[c], v) is TextArray ==> announced(columns)[c].1 is TextArray,
{
}

/// Every row is sent, in order, and each has a value for every column, in order: a client that
/// looks at row `r` and column `c` finds what stands there in the result.
pub proof fn every_cell_is_sent(b: BatchView, r: int, c: int)
    requires
        0 <= r < b.rows,
        0 <= c < b.columns.len(),
        has_own_form(b.columns[c].data_type),
        is_of(b.columns[c].data_type, b.columns[c].values[r]),
    ensures
        sent_rows(b).len() == b.rows,
        sent_rows(b)[r].len() == b.columns.len(),
        same_value(received(sent_rows(b)[r][c]), b.columns[c].values[r]),
{
    assert(sent_rows(b)[r] == sent_row(b, r));
    values_are_read_back(b.columns[c], b.columns[c].values[r]);
}

/// An instant is shown by the seconds and the nanoseconds that it is after the beginning of 1970,
/// with as many digits below a second as its unit has.
pub proof fn instants_are_counted_in_their_unit(unit: TimeUnit, n: i64) -> (parts: (i64, u32))
    ensures
        0 <= parts.1 < 1_000_000_000,
        unit is Millisecond ==> parts.0 * 1_000 + parts.1 / 1_000_000u32 == n && parts.1
            % 1_000_000u32 == 0,
        unit is Microsecond ==> parts.0 * 1_000_000 + parts.1 / 1_000u32 == n && parts.1
            % 1_000u32 == 0,
        unit is Nanosecond ==> parts.0 * 1_000_000_000 + parts.1 == n,
        unit is Second ==> parts.0 == n && parts.1 == 0,
        unit is Second ==> shown_instant(unit, n) == instant_text(
            parts.0,
            parts.1,
            "%Y-%m-%d %H:%M:%S"@,
        ),
        unit is Millisecond ==> shown_instant(unit, n) == instant_text(
            parts.0,
            parts.1,
            "%Y-%m-%d %H:%M:%S%.3f"@,
        ),
        unit is Microsecond ==> shown_instant(unit, n) == instant_text(
            parts.0,
            parts.1,
            "%Y-%m-%d %H:%M:%S%.6f"@,
        ),
        unit is Nanosecond ==> shown_instant(unit, n) == instant_text(
            parts.0,
            parts.1,
            "%Y-%m-%d %H:%M:%S%.9f"@,
        ),
{
    let m = n as int;
    match unit {
        TimeUnit::Second => {
            assert(n as int / 1 == n && n as int % 1 == 0);
            (n, 0)
        },
        TimeUnit::Millisecond => ((m / 1_000) as i64, (m % 1_000 * 1_000_000) as u32),
        TimeUnit::Microsecond => ((m / 1_000_000) as i64, (m % 1_000_000 * 1_000) as u32),
        TimeUnit::Nanosecond => ((m / 1_000_000_000) as i64, (m % 1_000_000_000) as u32),
    }
}

// --- the record -------------------------------------------------------------------------------

/// What a reader of the record takes a value for.
pub open spec fn is_recorded_as(v: DatumView, j: JsonView) -> bool {
    match v {
        DatumView::Null => j is Null,
        DatumView::Bool(b) => j == JsonView::Bool(b),
        DatumView::Int32(n) => j matches JsonView::Number(s) && spelled_signed(s) == n,
        DatumView::Int64(n) => j matches JsonView::Number(s) && spelled_signed(s) == n,
        DatumView::Text(s) => j == JsonView::Text(s),
        DatumView::Real(_, Some(s)) => j == JsonView::Number(s),
        _ => j is Null,
    }
}

/// Every value of a type with a form of its own is recorded as what it is; a number that JSON
/// has no form for, and NULL, are recorded as `null`.
pub proof fn values_are_recorded(t: DataType, v: DatumView)
    requires
        has_own_form(t),
        is_of(t, v),
    ensures
        is_recorded_as(v, recorded(t, v)),
{
    if let DatumView::Int32(n) = v {
        signed_is_read_back(n as int);
    }
    if let DatumView::Int64(n) = v {
        signed_is_read_back(n as int);
    }
}

/// A list of texts is recorded element by element.
pub proof fn lists_are_recorded(inner: DataType, items: Seq<Option<Seq<char>>>)
    requires
        inner is Utf8,
    ensures
        recorded(DataType::List(Box::new(inner)), DatumView::Texts(items)) matches JsonView::List(
            v,
        ) && v.len() == items.len() && (forall|i: int|
            0 <= i < v.len() ==> #[trigger] v[i] == (match items[i] {
                Some(s) => JsonView::Text(s),
                None => JsonView::Null,
            })),
{
}

// --- parameters -------------------------------------------------------------------------------

/// The bytes of a number, the most significant first.
pub open spec fn number_bytes(n: int, width: nat) -> Seq<u8>
    decreases width,
{
    if width == 0 {
        Seq::empty()
    } else {
        number_bytes(n / 256, (width - 1) as nat).push((n % 256) as u8)
    }
}

proof fn spelled_by_bytes(n: int, width: nat)
    requires
        0 <= n,
    ensures
        number_bytes(n, width).len() == width,
        big_endian(number_bytes(n, width)) == n % (power256(width) as int),
    decreases width,
{
    if width > 0 {
        spelled_by_bytes(n / 256, (width - 1) as nat);
        let s = number_bytes(n, width);
        assert(s.drop_last() =~= number_bytes(n / 256, (width - 1) as nat));
        let p = power256((width - 1) as nat) as int;
        powers_are_positive((width - 1) as nat);
        lemma_mod_breakdown(n, 256, p);
    }
}

proof fn powers_are_positive(n: nat)
    ensures
        power256(n) > 0,
    decreases n,
{
    if n > 0 {
        powers_are_positive((n - 1) as nat);
    }
}

/// A number of `width` bytes as a client sends it, in two's complement.
pub open spec fn sent_number(n: int, width: nat) -> Seq<u8> {
    number_bytes(
        if n < 0 {
            n + power256(width)
        } else {
            n
        },
        width,
    )
}

/// A number that a client sends as a parameter is recorded as that number: of two, four or eight
/// bytes with a sign, and an OID without one.
pub proof fn number_parameters_are_read_back(n: int)
    ensures
        -0x8000 <= n < 0x8000 ==> (decoded(Some(sent_number(n, 2)), PgType::Int2) matches Some(
            JsonView::Number(s),
        ) && spelled_signed(s) == n),
        -0x8000_0000 <= n < 0x8000_0000 ==> (decoded(
            Some(sent_number(n, 4)),
            PgType::Int4,
        ) matches Some(JsonView::Number(s)) && spelled_signed(s) == n),
        -0x8000_0000_0000_0000 <= n < 0x8000_0000_0000_0000 ==> (decoded(
            Some(sent_number(n, 8)),
            PgType::Int8,
        ) matches Some(JsonView::Number(s)) && spelled_signed(s) == n),
        0 <= n < 0x1_0000_0000 ==> (decoded(Some(sent_number(n, 4)), PgType::Oid) matches Some(
            JsonView::Number(s),
        ) && spelled(s) == n),
{
    signed_is_read_back(n);
    powers();
    if -0x8000 <= n < 0x8000 {
        two_complement_is_read_back(n, 2);
    }
    if -0x8000_0000 <= n < 0x8000_0000 {
        two_complement_is_read_back(n, 4);
    }
    if -0x8000_0000_0000_0000 <= n < 0x8000_0000_0000_0000 {
        two_complement_is_read_back(n, 8);
    }
    if 0 <= n < 0x1_0000_0000 {
        spelled_by_bytes(n, 4);
        decimal_is_read_back(n as nat);
    }
}

proof fn two_complement_is_read_back(n: int, width: nat)
    requires
        width > 0,
        -power256(width) <= 2 * n < power256(width),
    ensures
        big_endian_signed(sent_number(n, width)) == n,
{
    let p = power256(width) as int;
    let m = if n < 0 {
        n + p
    } else {
        n
    };
    spelled_by_bytes(m, width);
    let s = number_bytes(m, width);
    lemma_small_mod(m as nat, p as nat);
    big_endian_top(s);
}

/// A text that a client sends as a parameter is recorded as that text, and NULL as nothing.
pub proof fn text_parameters_are_read_back(s: Seq<char>, t: PgType)
    requires
        t is Text || t is Varchar || t is Bpchar || t is Name || t is Unknown,
    ensures
        decoded(Some(encode_utf8(s)), t) == Some(JsonView::Text(s)),
        decoded(None, t) is None,
{
    encode_utf8_decode_utf8(s);
}

/// A statement is described by the first part of its result: a type for every parameter, that of
/// the client where it gave one, and a field for every column.
pub proof fn statements_are_described(
    results: Seq<BatchView>,
    declared: Seq<Option<PgType>>,
    i: int,
    c: int,
)
    requires
        results.len() > 0,
    ensures
        described_results(results, declared).0.len() == declared.len(),
        described_results(results, declared).1.len() == results[0].columns.len(),
        0 <= i < declared.len() ==> described_results(results, declared).0[i] == (
        match declared[i] {
            Some(t) => t,
            None => PgType::Unknown,
        }),
        0 <= c < results[0].columns.len() ==> described_results(results, declared).1[c].0
            == results[0].columns[c].name,
{
}

// --- statements that the server answers itself --------------------------------------------------

/// An error that names an unknown function is reported as such to the client, with the code of an
/// undefined function; any other error is an internal one.
pub proof fn unknown_functions_are_named(before: Seq<char>, name: Seq<char>, after: Seq<char>)
    requires
        !name.contains('\''),
        forall|j: int|
            0 <= j < before.len() ==> !#[trigger] holds_at(
                before + "Invalid function '"@ + name + "'"@ + after,
                "Invalid function '"@,
                j,
            ),
    ensures
        reported(before + "Invalid function '"@ + name + "'"@ + after) == (ErrorView::User {
            severity: "ERROR"@,
            code: "42883"@,
            message: "function "@ + name + "() does not exist"@,
        }),
{
    let marker = "Invalid function '"@;
    let text = before + marker + name + "'"@ + after;
    reveal_strlit("Invalid function '");
    reveal_strlit("'");
    assert(marker.len() == 18);
    assert("'"@.len() == 1 && "'"@[0] == '\'');
    assert(text.subrange(before.len() as int, (before.len() + marker.len()) as int) =~= marker);
    assert(holds_at(text, marker, before.len() as int));
    first_part_is_found(text, marker);
    let at = find_part(text, marker)->0;
    if at < before.len() {
        assert(holds_at(text, marker, at as int));
    } else if at > before.len() {
        assert(!holds_at(text, marker, before.len() as int));
    }
    let rest = text.skip((at + marker.len()) as int);
    assert(rest =~= name + "'"@ + after);
    quote_is_found(rest, name.len(), 0);
    assert(rest.take(name.len() as int) =~= name);
}

proof fn quote_is_found(s: Seq<char>, n: nat, i: nat)
    requires
        i <= n < s.len(),
        s[n as int] == '\'',
        forall|j: int| 0 <= j < n ==> #[trigger] s[j] != '\'',
    ensures
        index_from(s, '\'', i) == Some(n),
    decreases n - i,
{
    if i < n {
        assert(s[i as int] != '\'');
        quote_is_found(s, n, i + 1);
    }
}

/// An error that does not speak of an unknown function is passed on as it is.
pub proof fn other_errors_are_passed_on(text: Seq<char>)
    requires
        forall|j: int| 0 <= j ==> !#[trigger] holds_at(text, "Invalid function '"@, j),
    ensures
        reported(text) == ErrorView::Internal(text),
{
    first_part_is_found(text, "Invalid function '"@);
}

proof fn beginnings_differ(low: Seq<char>)
    ensures
        starts_with(low, "begin"@) ==> low.len() >= 5 && low[0] == 'b',
        starts_with(low, "commit"@) ==> low.len() >= 6 && low[0] == 'c',
        starts_with(low, "rollback"@) ==> low.len() >= 8 && low[0] == 'r',
        starts_with(low, "discard all"@) ==> low.len() >= 11 && low[0] == 'd',
        low == "show transaction isolation level"@ ==> low.len() == 32 && low[0] == 's',
        starts_with(low, "show "@) ==> low[0] == 's',
{
    reveal_strlit("begin");
    reveal_strlit("commit");
    reveal_strlit("rollback");
    reveal_strlit("discard all");
    reveal_strlit("show transaction isolation level");
    reveal_strlit("show ");
    assert("begin"@.len() == 5);
    assert("commit"@.len() == 6);
    assert("rollback"@.len() == 8);
    assert("discard all"@.len() == 11);
    assert("show transaction isolation level"@.len() == 32);
    assert("show "@.len() == 5);
    assert("begin"@[0] == 'b');
    assert("show "@[0] == 's');
    assert("begin"@[0] == 'b' && "commit"@[0] == 'c' && "rollback"@[0] == 'r' && "discard all"@[0]
        == 'd' && "show transaction isolation level"@[0] == 's' && "show "@[0] == 's');
    if low.len() > 0 {
        assert(starts_with(low, "begin"@) ==> low[0] == low.take(5)[0]);
        assert(starts_with(low, "commit"@) ==> low[0] == low.take(6)[0]);
        assert(starts_with(low, "rollback"@) ==> low[0] == low.take(8)[0]);
        assert(starts_with(low, "discard all"@) ==> low[0] == low.take(11)[0]);
        assert(starts_with(low, "show "@) ==> low[0] == low.take(5)[0]);
    }
}

proof fn text_starts(head: Seq<char>, rest: Seq<char>)
    ensures
        starts_with(head + rest, head),
{
    assert((head + rest).take(head.len() as int) =~= head);
}

/// Statements that begin, end or undo a transaction are acknowledged by their name, whatever
/// follows
/// it, and so is `DISCARD ALL`.
pub proof fn transactions_are_acknowledged(
    opts: Option<OptsView>,
    sql: Seq<char>,
    rest: Seq<char>,
)
    ensures
        simple_answer(opts, sql, "begin"@ + rest) == Some(AnswerView::Done("BEGIN"@)),
        simple_answer(opts, sql, "commit"@ + rest) == Some(AnswerView::Done("COMMIT"@)),
        simple_answer(opts, sql, "rollback"@ + rest) == Some(AnswerView::Done("ROLLBACK"@)),
        simple_answer(opts, sql, "discard all"@ + rest) == Some(AnswerView::Done("DISCARD ALL"@)),
        sql.len() > 0 ==> extended_answer(opts, sql, "discard all"@ + rest) == Some(
            AnswerView::Done("DISCARD ALL"@),
        ),
{
    text_starts("begin"@, rest);
    text_starts("commit"@, rest);
    text_starts("rollback"@, rest);
    text_starts("discard all"@, rest);
    beginnings_differ("begin"@ + rest);
    beginnings_differ("commit"@ + rest);
    beginnings_differ("rollback"@ + rest);
    beginnings_differ("discard all"@ + rest);
}

/// Every client is told that the isolation level is `read committed`, in either protocol.
pub proof fn isolation_is_read_committed(opts: Option<OptsView>, sql: Seq<char>)
    requires
        sql.len() > 0,
    ensures
        ({
            let low = "show transaction isolation level"@;
            let row = AnswerView::Row {
                column: "transaction_isolation"@,
                value: "read committed"@,
            };
            &&& simple_answer(opts, sql, low) == Some(row)
            &&& extended_answer(opts, sql, low) == Some(row)
            &&& described(sql, low) == Some(seq!["transaction_isolation"@])
        }),
{
    beginnings_differ("show transaction isolation level"@);
    assert("show transaction isolation level"@[0] == 's') by {
        reveal_strlit("show transaction isolation level");
    }
}

/// `SHOW` of a setting that the server keeps is answered with the value that the client has set,
/// under the name of the setting; of any other setting it is not answered here.
pub proof fn own_settings_are_shown(opts: OptsView, sql: Seq<char>, low: Seq<char>, var: Seq<char>)
    requires
        shown_variable(sql) == Some(var),
        sql.len() > 0,
        low.len() > 5 && low[0] == 's',
        low != "show transaction isolation level"@,
    ensures
        ({
            let name = lowercased(var);
            let answer = simple_answer(Some(opts), sql, low);
            let row = |value: Seq<char>| Some(AnswerView::Row { column: name, value });
            &&& answer == extended_answer(Some(opts), sql, low)
            &&& name == "application_name"@ ==> answer == row(opts.application_name)
            &&& name == "datestyle"@ ==> answer == row(opts.datestyle)
            &&& name == "search_path"@ ==> answer == row(opts.search_path)
            &&& name != "application_name"@ && name != "datestyle"@ && name != "search_path"@
                ==> answer is None
        }),
{
    beginnings_differ(low);
    reveal_strlit("application_name");
    reveal_strlit("datestyle");
    reveal_strlit("search_path");
    assert("application_name"@.len() == 16);
    assert("datestyle"@.len() == 9);
    assert("search_path"@.len() == 11);
}

/// The empty statement and `DISCARD ALL` are described without columns, and any `SHOW` with a name
/// and a setting.
pub proof fn own_statements_are_described(sql: Seq<char>, low: Seq<char>, rest: Seq<char>)
    ensures
        sql.len() == 0 ==> described(sql, low) == Some(Seq::<Seq<char>>::empty()),
        described(sql, "discard all"@ + rest) == Some(Seq::<Seq<char>>::empty()),
        sql.len() > 0 && "show "@ + rest != "show transaction isolation level"@ ==> described(
            sql,
            "show "@ + rest,
        ) == Some(seq!["name"@, "setting"@]),
{
    text_starts("discard all"@, rest);
    text_starts("show "@, rest);
    reveal_strlit("show ");
    assert(("show "@ + rest)[0] == 's');
    beginnings_differ("show "@ + rest);
    assert(seq!["name"@].push("setting"@) =~= seq!["name"@, "setting"@]);
}

// --- rows in the record --------------------------------------------------------------------------

proof fn entries_are_recorded(columns: Seq<ColumnView>, n: nat, r: int, c: int)
    requires
        n <= columns.len(),
        forall|i: int, j: int|
            0 <= i < j < columns.len() ==> (#[trigger] columns[i]).name != (
            #[trigger] columns[j]).name,
    ensures
        sorted(row_entries(columns, n, r)),
        0 <= c < n ==> entry_of(row_entries(columns, n, r), columns[c].name) == Some(
            recorded(columns[c].data_type, columns[c].values[r]),
        ),
    decreases n,
{
    if n > 0 {
        entries_are_recorded(columns, (n - 1) as nat, r, c);
        let done = row_entries(columns, (n - 1) as nat, r);
        let last = columns[n - 1];
        let value = recorded(last.data_type, last.values[r]);
        inserting_keeps_order(done, last.name, value);
        if 0 <= c < n {
            inserted_value_is_found(done, last.name, value, columns[c].name);
        }
    }
}

/// Every row of a batch is recorded, and every cell of it under the name of its column, where the
/// columns have names of their own.
pub proof fn every_cell_is_recorded(b: BatchView, r: int, c: int)
    requires
        0 <= r < b.rows,
        0 <= c < b.columns.len(),
        forall|i: int, j: int|
            0 <= i < j < b.columns.len() ==> (#[trigger] b.columns[i]).name != (
            #[trigger] b.columns[j]).name,
    ensures
        recorded_rows(b).len() == b.rows,
        entry_of(recorded_rows(b)[r], b.columns[c].name) == Some(
            recorded(b.columns[c].data_type, b.columns[c].values[r]),
        ),
{
    entries_are_recorded(b.columns, b.columns.len(), r, c);
}

/// The rows of every batch are recorded, behind those of the batches before it.
pub proof fn every_batch_is_recorded(batches: Seq<BatchView>, n: nat, i: int) -> (after: Seq<
    Seq<(Seq<char>, JsonView)>,
>)
    requires
        0 <= i < n <= batches.len(),
    ensures
        all_recorded_rows(batches, n) == all_recorded_rows(batches, i as nat) + recorded_rows(
            batches[i],
        ) + after,
    decreases n,
{
    if i == n - 1 {
        let after = Seq::<Seq<(Seq<char>, JsonView)>>::empty();
        assert(all_recorded_rows(batches, n) + after =~= all_recorded_rows(batches, n));
        after
    } else {
        let rest = every_batch_is_recorded(batches, (n - 1) as nat, i);
        let after = rest + recorded_rows(batches[n - 1]);
        let first = all_recorded_rows(batches, i as nat) + recorded_rows(batches[i]);
        assert(all_recorded_rows(batches, n) =~= first + rest + recorded_rows(batches[n - 1]));
        assert(first + rest + recorded_rows(batches[n - 1]) =~= first + after);
        after
    }
}

/// A number is well sent in as many bytes as its type has, and a text in valid UTF-8.
pub proof fn parameters_have_the_width_of_their_type(s: Seq<u8>)
    ensures
        well_sent(Some(s), PgType::Int2) <==> s.len() == 2,
        well_sent(Some(s), PgType::Int4) <==> s.len() == 4,
        well_sent(Some(s), PgType::Int8) <==> s.len() == 8,
        well_sent(Some(s), PgType::Oid) <==> s.len() == 4,
        well_sent(Some(s), PgType::Text) <==> valid_utf8(s),
        well_sent(Some(s), PgType::Varchar) <==> valid_utf8(s),
        well_sent(Some(s), PgType::Unknown) <==> valid_utf8(s),
        well_sent(None, PgType::Int4),
        decoded(None, PgType::Int4) is None,
{
}

/// Each parameter is recorded in its place, by the type that was declared for it, as long as there
/// are types.
pub proof fn parameters_keep_their_places(
    p: Seq<Option<Seq<u8>>>,
    types: Seq<PgType>,
    i: int,
)
    requires
        0 <= i < p.len(),
        i < types.len(),
    ensures
        i < decoded_all(p, types).len(),
        decoded_all(p, types)[i] == decoded(p[i], types[i]),
        p.len() <= types.len() ==> decoded_all(p, types).len() == p.len(),
{
}

/// The cells of rows of texts stand in the columns of their places.
pub proof fn rows_of_texts_keep_their_cells(
    names: Seq<Seq<char>>,
    rows: Seq<Vec<String>>,
    r: int,
    c: int,
)
    requires
        0 <= r < rows.len(),
        0 <= c < names.len(),
    ensures
        text_columns(names, rows).len() == names.len(),
        text_columns(names, rows)[c].name == names[c],
        text_columns(names, rows)[c].values.len() == rows.len(),
        text_columns(names, rows)[c].values[r] == DatumView::Text(rows[r]@[c]@),
        pg_type_of(text_columns(names, rows)[c].data_type) is Text,
{
}

/// An instant is sent as its text, in the unit that its column counts in, and NULL as NULL.
pub proof fn instants_are_sent_as_texts(column: ColumnView, unit: TimeUnit, n: i64)
    requires
        column.data_type == DataType::Timestamp(unit),
    ensures
        sent(column, DatumView::Instant(n)) == WireView::Text(shown_instant(unit, n)),
        sent(column, DatumView::Null) == WireView::Text(None),
{
}

/// The empty statement is acknowledged as such in either protocol, and a statement that is none of
/// those that the server answers itself is a query.
pub proof fn other_statements_are_queries(opts: Option<OptsView>, sql: Seq<char>, low: Seq<char>)
    requires
        shown_variable(sql) is None,
    ensures
        low.len() == 0 ==> simple_answer(opts, sql, low) == Some(AnswerView::Done(""@)),
        sql.len() == 0 ==> extended_answer(opts, sql, low) == Some(AnswerView::Done(""@)),
        low.len() > 0 && low[0] != 'b' && low[0] != 'c' && low[0] != 'r' && low[0] != 'd' && low[0]
            != 's' ==> simple_answer(opts, sql, low) is None && (sql.len() > 0 ==> extended_answer(
            opts,
            sql,
            low,
        ) is None && described(sql, low) is None),
{
    beginnings_differ(low);
    reveal_strlit("show transaction isolation level");
    assert("show transaction isolation level"@.len() == 32);
}

} // verus!
