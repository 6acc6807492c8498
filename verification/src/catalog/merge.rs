//! User rows beside the built-in rows of a catalog table.
use super::defs::{key_columns_of, location_of, str_views, CatalogTable};
use super::row::{rows_view, CellValue, CellView, Row, RowView};
use crate::text::{joined, same, signed, signed_text, views};
use vstd::prelude::*;

verus! {

/// What stands for a missing value in a key; no name is spelled like that.
pub const NULL_KEY: &'static str = "\u{0}NULL\u{0}";

/// What stands in a key for a value that is neither a number nor a text.
pub const UNMATCHABLE_KEY: &'static str = "\u{0}UNMATCHABLE\u{0}";

/// What `serde_json::to_string` makes of a list of texts.
pub uninterp spec fn json_texts(v: Seq<Seq<char>>) -> Seq<char>;

/// `serde_json::to_string` of a list of texts, as [`json_texts`] names it; a list of texts
/// can always be written.
#[verifier::external_body]
fn write_texts(v: &Vec<String>) -> (r: String)
    ensures
        r@ == json_texts(views(v@)),
{
    serde_json::to_string(v).unwrap_or_default()
}

/// The first `n` numbers, with commas between them.
pub open spec fn comma_separated(v: Seq<i32>, n: nat) -> Seq<char>
    decreases n,
{
    if n == 0 {
        Seq::empty()
    } else if n == 1 {
        signed(v[0] as int)
    } else {
        comma_separated(v, (n - 1) as nat) + ","@ + signed(v[n - 1] as int)
    }
}

fn write_ints(v: &Vec<i32>) -> (r: String)
    ensures
        r@ == "["@ + comma_separated(v@, v@.len()) + "]"@,
{
    let mut s = String::new();
    let mut i: usize = 0;
    while i < v.len()
        invariant
            i <= v@.len(),
            s@ == comma_separated(v@, i as nat),
        decreases v@.len() - i,
    {
        if i > 0 {
            s.append(",");
        }
        s.append(signed_text(v[i] as i64).as_str());
        i = i + 1;
        if i == 1 {
            assert(s@ =~= signed(v@[0] as int));
        }
    }
    let mut out = "[".to_owned();
    out.append(s.as_str());
    out.append("]");
    out
}

/// A value in a key.
pub open spec fn key_text(cell: CellView) -> Seq<char> {
    match cell {
        CellView::Null => NULL_KEY@,
        CellView::Bool(b) => if b {
            "true"@
        } else {
            "false"@
        },
        CellView::Int(n) => signed(n as int),
        CellView::RealZero => "0.0"@,
        CellView::Text(s) => s,
        CellView::IntList(v) => "["@ + comma_separated(v, v.len()) + "]"@,
        CellView::TextList(v) => json_texts(v),
    }
}

fn cell_key(cell: &CellValue) -> (r: String)
    ensures
        r@ == key_text(cell@),
{
    match cell {
        CellValue::Null => NULL_KEY.to_owned(),
        CellValue::Bool(b) => if *b {
            "true".to_owned()
        } else {
            "false".to_owned()
        },
        CellValue::Int(n) => signed_text(*n),
        CellValue::RealZero => "0.0".to_owned(),
        CellValue::Text(s) => s.clone(),
        CellValue::IntList(v) => write_ints(v),
        CellValue::TextList(v) => write_texts(v),
    }
}

/// What tells the rows of a table apart, in one row: its values in the key columns.
pub open spec fn row_key(row: RowView, columns: Seq<Seq<char>>) -> Seq<Seq<char>> {
    Seq::new(
        columns.len(),
        |i: int|
            key_text(
                if row.dom().contains(columns[i]) {
                    row[columns[i]]
                } else {
                    CellView::Null
                },
            ),
    )
}

fn user_row_key(row: &Row, columns: &Vec<&'static str>) -> (r: Vec<String>)
    ensures
        views(r@) == row_key(row@, str_views(columns@)),
{
    let ghost goal = row_key(row@, str_views(columns@));
    let mut out: Vec<String> = Vec::new();
    let mut i: usize = 0;
    assert(views(out@) =~= goal.take(0));
    while i < columns.len()
        invariant
            i <= columns@.len(),
            goal == row_key(row@, str_views(columns@)),
            views(out@) == goal.take(i as int),
        decreases columns@.len() - i,
    {
        assert(str_views(columns@)[i as int] == columns@[i as int]@);
        let text = match row.get(columns[i]) {
            Some(v) => cell_key(v),
            None => NULL_KEY.to_owned(),
        };
        let ghost before = views(out@);
        out.push(text);
        assert(views(out@) =~= before.push(text@));
        i = i + 1;
        assert(goal.take(i as int) =~= goal.take(i - 1).push(goal[i - 1]));
    }
    assert(goal.take(i as int) =~= goal);
    out
}

/// A value in a key column of a built-in row.
#[derive(Debug)]
pub enum KeyCell {
    Null,
    Int(i64),
    Text(String),
    /// A value of another type.
    Other,
}

/// What a [`KeyCell`] says in a key.
pub open spec fn builtin_text(cell: KeyCell) -> Seq<char> {
    match cell {
        KeyCell::Null => NULL_KEY@,
        KeyCell::Int(n) => signed(n as int),
        KeyCell::Text(s) => s@,
        KeyCell::Other => UNMATCHABLE_KEY@,
    }
}

/// The key of a built-in row.
pub open spec fn builtin_key(cells: Seq<KeyCell>) -> Seq<Seq<char>> {
    Seq::new(cells.len(), |i: int| builtin_text(cells[i]))
}

fn build_builtin_key(cells: &Vec<KeyCell>) -> (r: Vec<String>)
    ensures
        views(r@) == builtin_key(cells@),
{
    let ghost goal = builtin_key(cells@);
    let mut out: Vec<String> = Vec::new();
    let mut i: usize = 0;
    assert(views(out@) =~= goal.take(0));
    while i < cells.len()
        invariant
            i <= cells@.len(),
            goal == builtin_key(cells@),
            views(out@) == goal.take(i as int),
        decreases cells@.len() - i,
    {
        let text = match &cells[i] {
            KeyCell::Null => NULL_KEY.to_owned(),
            KeyCell::Int(n) => signed_text(*n),
            KeyCell::Text(s) => s.clone(),
            KeyCell::Other => UNMATCHABLE_KEY.to_owned(),
        };
        let ghost before = views(out@);
        out.push(text);
        assert(views(out@) =~= before.push(text@));
        i = i + 1;
        assert(goal.take(i as int) =~= goal.take(i - 1).push(goal[i - 1]));
    }
    assert(goal.take(i as int) =~= goal);
    out
}

/// Keys.
pub open spec fn keys_view(v: Seq<Vec<String>>) -> Seq<Seq<Seq<char>>> {
    Seq::new(v.len(), |i: int| views(v[i]@))
}

fn same_key(a: &Vec<String>, b: &Vec<String>) -> (r: bool)
    ensures
        r == (views(a@) == views(b@)),
{
    let n: usize = a.len();
    assert(views(a@).len() == a@.len() && views(b@).len() == b@.len());
    if n != b.len() {
        return false;
    }
    let mut i: usize = 0;
    while i < n
        invariant
            i <= n,
            n == a@.len(),
            n == b@.len(),
            forall|j: int| 0 <= j < i ==> (#[trigger] a@[j])@ == b@[j]@,
        decreases n - i,
    {
        if !same(a[i].as_str(), b[i].as_str()) {
            assert(views(a@)[i as int] != views(b@)[i as int]);
            return false;
        }
        i = i + 1;
    }
    assert(views(a@) =~= views(b@));
    true
}

fn has_key(keys: &Vec<Vec<String>>, key: &Vec<String>) -> (r: bool)
    ensures
        r == keys_view(keys@).contains(views(key@)),
{
    let ghost all = keys_view(keys@);
    let mut i: usize = 0;
    while i < keys.len()
        invariant
            i <= keys@.len(),
            all == keys_view(keys@),
            forall|j: int| 0 <= j < i ==> #[trigger] all[j] != views(key@),
        decreases keys@.len() - i,
    {
        if same_key(&keys[i], key) {
            assert(all[i as int] == views(key@));
            return true;
        }
        i = i + 1;
    }
    false
}

/// The keys of user rows.
pub open spec fn row_keys(table: CatalogTable, rows: Seq<RowView>) -> Seq<Seq<Seq<char>>> {
    Seq::new(rows.len(), |i: int| row_key(rows[i], key_columns_of(table)))
}

/// Whether the row `j` is the first whose key an earlier row has.
pub open spec fn is_first_repeat(keys: Seq<Seq<Seq<char>>>, j: int) -> bool {
    0 <= j < keys.len() && keys.take(j).contains(keys[j]) && keys.take(j).no_duplicates()
}

/// Two user rows of one key.
#[derive(Debug)]
pub struct DuplicateEntry {
    pub table: CatalogTable,
    pub key: Vec<String>,
}

/// The keys of the user rows of a table, which have to be different: a source that describes
/// one object twice is in error.
pub fn user_keys(table: CatalogTable, rows: &Vec<Row>) -> (r: Result<
    Vec<Vec<String>>,
    DuplicateEntry,
>)
    ensures
        match r {
            Ok(keys) => keys_view(keys@) == row_keys(table, rows_view(rows@)) && row_keys(
                table,
                rows_view(rows@),
            ).no_duplicates(),
            Err(e) => e.table == table && exists|j: int|
                #[trigger] is_first_repeat(row_keys(table, rows_view(rows@)), j) && views(e.key@)
                    == row_keys(table, rows_view(rows@))[j],
        },
{
    let columns = table.key_columns();
    let ghost all = row_keys(table, rows_view(rows@));
    let mut keys: Vec<Vec<String>> = Vec::new();
    let mut i: usize = 0;
    assert(keys_view(keys@) =~= all.take(0));
    while i < rows.len()
        invariant
            i <= rows@.len(),
            str_views(columns@) == key_columns_of(table),
            all == row_keys(table, rows_view(rows@)),
            all.len() == rows@.len(),
            keys_view(keys@) == all.take(i as int),
            all.take(i as int).no_duplicates(),
        decreases rows@.len() - i,
    {
        let key = user_row_key(&rows[i], &columns);
        assert(rows_view(rows@)[i as int] == rows@[i as int]@);
        assert(all[i as int] == views(key@));
        if has_key(&keys, &key) {
            assert(is_first_repeat(all, i as int));
            return Err(DuplicateEntry { table, key });
        }
        let ghost before = keys_view(keys@);
        keys.push(key);
        assert(keys_view(keys@) =~= before.push(views(key@)));
        i = i + 1;
        assert(all.take(i as int) =~= all.take(i - 1).push(all[i - 1]));
        assert(all.take(i as int).no_duplicates()) by {
            let now = all.take(i as int);
            let was = all.take(i - 1);
            assert forall|a: int, b: int| 0 <= a < now.len() && 0 <= b < now.len() && a
                != b implies now[a] != now[b] by {
                if a < i - 1 && b < i - 1 {
                    assert(now[a] == was[a] && now[b] == was[b]);
                } else if a < i - 1 {
                    assert(now[a] == was[a]);
                    assert(was.contains(was[a]));
                } else {
                    assert(now[b] == was[b]);
                    assert(was.contains(was[b]));
                }
            }
        }
    }
    assert(all.take(i as int) =~= all);
    Ok(keys)
}

/// Which built-in rows stay beside the user rows: those whose key no user row has.
pub open spec fn kept(keys: Seq<Seq<Seq<char>>>, builtin: Seq<Vec<KeyCell>>) -> Seq<bool> {
    Seq::new(builtin.len(), |i: int| !keys.contains(builtin_key(builtin[i]@)))
}

/// Which built-in rows stay beside the user rows.
pub fn keep_builtin_rows(keys: &Vec<Vec<String>>, builtin: &Vec<Vec<KeyCell>>) -> (r: Vec<bool>)
    ensures
        r@ == kept(keys_view(keys@), builtin@),
{
    let ghost goal = kept(keys_view(keys@), builtin@);
    let mut out: Vec<bool> = Vec::new();
    let mut i: usize = 0;
    assert(goal.take(0) =~= Seq::empty());
    while i < builtin.len()
        invariant
            i <= builtin@.len(),
            goal == kept(keys_view(keys@), builtin@),
            out@ == goal.take(i as int),
        decreases builtin@.len() - i,
    {
        let key = build_builtin_key(&builtin[i]);
        out.push(!has_key(keys, &key));
        i = i + 1;
        assert(goal.take(i as int) =~= goal.take(i - 1).push(goal[i - 1]));
    }
    assert(goal.take(i as int) =~= goal);
    out
}

/// A user row always wins: no built-in row of its key stays, and every built-in row of
/// another key does.
pub proof fn user_rows_win(
    table: CatalogTable,
    rows: Seq<RowView>,
    builtin: Seq<Vec<KeyCell>>,
    b: int,
)
    requires
        0 <= b < builtin.len(),
    ensures
        (exists|i: int|
            0 <= i < rows.len() && #[trigger] row_keys(table, rows)[i] == builtin_key(
                builtin[b]@,
            )) <==> !kept(row_keys(table, rows), builtin)[b],
{
    let keys = row_keys(table, rows);
    if keys.contains(builtin_key(builtin[b]@)) {
        let i = choose|i: int| 0 <= i < keys.len() && keys[i] == builtin_key(builtin[b]@);
        assert(row_keys(table, rows)[i] == builtin_key(builtin[b]@));
    }
}

/// Where a row that is served comes from: which of the built-in rows it is, or which of the
/// user rows.
#[derive(Clone, Copy, Debug, PartialEq, Eq)]
pub enum ServedRow {
    Builtin(usize),
    User(usize),
}

/// Those of the first `n` built-in rows that stay, in order.
pub open spec fn kept_rows(kept: Seq<bool>, n: nat) -> Seq<ServedRow>
    decreases n,
{
    if n == 0 {
        Seq::empty()
    } else {
        let done = kept_rows(kept, (n - 1) as nat);
        if kept[n - 1] {
            done.push(ServedRow::Builtin((n - 1) as usize))
        } else {
            done
        }
    }
}

/// The rows that a table serves: the built-in rows that no user row has the key of, then the
/// user rows, each in their order.
pub open spec fn served(keys: Seq<Seq<Seq<char>>>, builtin: Seq<Vec<KeyCell>>) -> Seq<ServedRow> {
    kept_rows(kept(keys, builtin), builtin.len()) + Seq::new(
        keys.len(),
        |i: int| ServedRow::User(i as usize),
    )
}

/// The rows that a table serves, where the built-in rows have the keys `builtin`. A source that
/// describes one object twice is in error.
pub fn served_rows(table: CatalogTable, rows: &Vec<Row>, builtin: &Vec<Vec<KeyCell>>) -> (r: Result<
    Vec<ServedRow>,
    DuplicateEntry,
>)
    ensures
        match r {
            Ok(v) => v@ == served(row_keys(table, rows_view(rows@)), builtin@) && row_keys(
                table,
                rows_view(rows@),
            ).no_duplicates(),
            Err(e) => e.table == table && exists|j: int|
                #[trigger] is_first_repeat(row_keys(table, rows_view(rows@)), j) && views(e.key@)
                    == row_keys(table, rows_view(rows@))[j],
        },
{
    let keys = match user_keys(table, rows) {
        Ok(keys) => keys,
        Err(e) => return Err(e),
    };
    let keep = keep_builtin_rows(&keys, builtin);
    let ghost stay = keep@;
    let mut out: Vec<ServedRow> = Vec::new();
    let mut i: usize = 0;
    while i < keep.len()
        invariant
            i <= keep@.len(),
            stay == keep@,
            out@ == kept_rows(stay, i as nat),
        decreases keep@.len() - i,
    {
        if keep[i] {
            out.push(ServedRow::Builtin(i));
        }
        i = i + 1;
    }
    let ghost first = out@;
    let mut j: usize = 0;
    assert(keys_view(keys@).len() == keys@.len());
    while j < keys.len()
        invariant
            j <= keys@.len(),
            out@ == first + Seq::new(j as nat, |k: int| ServedRow::User(k as usize)),
        decreases keys@.len() - j,
    {
        out.push(ServedRow::User(j));
        j = j + 1;
        assert(out@ =~= first + Seq::new(j as nat, |k: int| ServedRow::User(k as usize)));
    }
    assert(out@ =~= served(keys_view(keys@), builtin@));
    Ok(out)
}

/// `["a", "b"]`: what `Debug` makes of a list of texts.
pub uninterp spec fn debug_texts(v: Seq<Seq<char>>) -> Seq<char>;

/// `Debug` of a list of texts, as [`debug_texts`] names it.
#[verifier::external_body]
fn show_texts(v: &Vec<String>) -> (r: String)
    ensures
        r@ == debug_texts(views(v@)),
{
    format!("{:?}", v)
}

fn join_columns(columns: &Vec<&'static str>) -> (r: String)
    ensures
        r@ == joined(str_views(columns@), ", "@),
{
    let mut v: Vec<String> = Vec::new();
    let mut i: usize = 0;
    while i < columns.len()
        invariant
            i <= columns@.len(),
            v@.len() == i,
            forall|j: int| 0 <= j < i ==> (#[trigger] v@[j])@ == columns@[j]@,
        decreases columns@.len() - i,
    {
        v.push(columns[i].to_owned());
        i = i + 1;
    }
    assert(views(v@) =~= str_views(columns@));
    crate::text::join(&v, ", ")
}

/// What is said of two user rows of one key, where the key is written `key`.
pub open spec fn duplicate_message(table: CatalogTable, key: Seq<char>) -> Seq<char> {
    "lazy catalog source returned a duplicate "@ + location_of(table).1 + " entry for ("@ + joined(
        key_columns_of(table),
        ", "@,
    ) + ") = "@ + key
}

/// What is said of two user rows of `table` with one key, where the key is written `key`.
pub fn duplicate_text(table: CatalogTable, key: &str) -> (r: String)
    ensures
        r@ == duplicate_message(table, key@),
{
    let mut s = "lazy catalog source returned a duplicate ".to_owned();
    s.append(table.location().1);
    s.append(" entry for (");
    s.append(join_columns(&table.key_columns()).as_str());
    s.append(") = ");
    s.append(key);
    s
}

impl DuplicateEntry {
    /// What is said of two user rows of one key.
    pub fn message(&self) -> (r: String)
        ensures
            r@ == duplicate_message(self.table, debug_texts(views(self.key@))),
    {
        duplicate_text(self.table, show_texts(&self.key).as_str())
    }
}

} // verus!
