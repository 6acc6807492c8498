//! The file that a set of catalog tables is kept in.
//!
//! The file begins with [`MAGIC`] and the number of tables. Each table follows with the names
//! of its catalog, its schema and itself, and its contents, which are kept as they come.
use crate::bytes::{
    bytes_lead_back, copy_bytes, decode_text, little_bytes, little_endian, power256, powers,
    read_little_endian, write_little_endian,
};
use crate::text::same;
use vstd::prelude::*;
use vstd::utf8::{
    decode_utf8, encode_utf8, encode_utf8_decode_utf8, encode_utf8_valid_utf8, valid_utf8,
};

verus! {

/// The first bytes of a catalog file: `PGCAT`, and the version of the layout.
pub const MAGIC: [u8; 7] = [80, 71, 67, 65, 84, 0, 1];

/// One table of a catalog file.
#[derive(Debug, PartialEq, Eq)]
pub struct StoredTable {
    pub catalog: String,
    pub schema: String,
    pub table: String,
    pub contents: Vec<u8>,
}

/// What a [`StoredTable`] says.
#[verifier::ext_equal]
pub struct StoredView {
    pub catalog: Seq<char>,
    pub schema: Seq<char>,
    pub table: Seq<char>,
    pub contents: Seq<u8>,
}

impl View for StoredTable {
    type V = StoredView;

    open spec fn view(&self) -> StoredView {
        StoredView {
            catalog: self.catalog@,
            schema: self.schema@,
            table: self.table@,
            contents: self.contents@,
        }
    }
}

/// What a list of stored tables says.
pub open spec fn stored(v: Seq<StoredTable>) -> Seq<StoredView> {
    Seq::new(v.len(), |i: int| v[i]@)
}

/// A name in a catalog file: how many bytes it has, in one byte, and its bytes.
pub open spec fn name_bytes(s: Seq<char>) -> Seq<u8> {
    little_bytes(encode_utf8(s).len(), 1) + encode_utf8(s)
}

/// One table in a catalog file.
pub open spec fn table_bytes(t: StoredView) -> Seq<u8> {
    name_bytes(t.catalog) + (name_bytes(t.schema) + (name_bytes(t.table) + (little_bytes(
        t.contents.len(),
        8,
    ) + t.contents)))
}

/// The first `n` tables in a catalog file.
pub open spec fn tables_bytes(tables: Seq<StoredView>, n: nat) -> Seq<u8>
    decreases n,
{
    if n == 0 {
        Seq::empty()
    } else {
        tables_bytes(tables, (n - 1) as nat) + table_bytes(tables[n - 1])
    }
}

/// A catalog file.
pub open spec fn file_bytes(tables: Seq<StoredView>) -> Seq<u8> {
    MAGIC@ + (little_bytes(tables.len(), 4) + tables_bytes(tables, tables.len()))
}

fn write_name(out: &mut Vec<u8>, s: &str)
    ensures
        final(out)@ == old(out)@ + name_bytes(s@),
{
    let bytes = s.as_bytes();
    let ghost before = out@;
    let mut head = write_little_endian(bytes.len() as u64, 1);
    out.append(&mut head);
    out.extend_from_slice(bytes);
    assert(out@ =~= before + name_bytes(s@));
}

/// The file that keeps `tables`, in their order. The length of a name is kept modulo 256.
pub fn write_binary(tables: &Vec<StoredTable>) -> (r: Vec<u8>)
    ensures
        r@ == file_bytes(stored(tables@)),
{
    let ghost all = stored(tables@);
    let mut out: Vec<u8> = Vec::new();
    out.extend_from_slice(&MAGIC);
    let mut head = write_little_endian(tables.len() as u64, 4);
    out.append(&mut head);
    let ghost start = out@;
    assert(start =~= MAGIC@ + little_bytes(all.len(), 4));
    let mut i: usize = 0;
    assert(start + Seq::<u8>::empty() =~= start);
    while i < tables.len()
        invariant
            i <= tables@.len(),
            all == stored(tables@),
            out@ == start + tables_bytes(all, i as nat),
        decreases tables@.len() - i,
    {
        let t = &tables[i];
        let ghost before = out@;
        assert(all[i as int] == t@);
        write_name(&mut out, t.catalog.as_str());
        write_name(&mut out, t.schema.as_str());
        write_name(&mut out, t.table.as_str());
        let mut size = write_little_endian(t.contents.len() as u64, 8);
        out.append(&mut size);
        out.extend_from_slice(t.contents.as_slice());
        assert(out@ =~= before + table_bytes(t@));
        i = i + 1;
        assert(out@ =~= start + tables_bytes(all, i as nat));
    }
    assert(out@ =~= file_bytes(all));
    out
}

/// Whether a table has this place.
pub open spec fn stands_at(
    t: StoredView,
    catalog: Seq<char>,
    schema: Seq<char>,
    table: Seq<char>,
) -> bool {
    t.catalog == catalog && t.schema == schema && t.table == table
}

/// The last of the first `n` tables that has this place: of tables in one place the last one
/// counts.
pub open spec fn last_stored(
    tables: Seq<StoredView>,
    n: nat,
    catalog: Seq<char>,
    schema: Seq<char>,
    table: Seq<char>,
) -> Option<nat>
    decreases n,
{
    if n == 0 || n > tables.len() {
        None
    } else if stands_at(tables[n - 1], catalog, schema, table) {
        Some((n - 1) as nat)
    } else {
        last_stored(tables, (n - 1) as nat, catalog, schema, table)
    }
}

/// The table of a file that counts for its place.
pub fn find_stored<'a>(
    tables: &'a Vec<StoredTable>,
    catalog: &str,
    schema: &str,
    table: &str,
) -> (r: Option<&'a StoredTable>)
    ensures
        match r {
            Some(t) => {
                let n = last_stored(stored(tables@), tables@.len(), catalog@, schema@, table@);
                n is Some && *t == tables@[n->0 as int]
            },
            None => last_stored(
                stored(tables@),
                tables@.len(),
                catalog@,
                schema@,
                table@,
            ) is None,
        },
{
    let ghost all = stored(tables@);
    let mut n: usize = tables.len();
    while n > 0
        invariant
            n <= tables@.len(),
            all == stored(tables@),
            last_stored(all, tables@.len(), catalog@, schema@, table@) == last_stored(
                all,
                n as nat,
                catalog@,
                schema@,
                table@,
            ),
        decreases n,
    {
        let t = &tables[n - 1];
        assert(all[n - 1] == t@);
        if same(t.catalog.as_str(), catalog) && same(t.schema.as_str(), schema) && same(
            t.table.as_str(),
            table,
        ) {
            return Some(t);
        }
        n = n - 1;
    }
    None
}

/// Why a catalog file cannot be read.
#[derive(Clone, Copy, Debug, PartialEq, Eq, Structural)]
pub enum BinaryError {
    /// The file does not begin with [`MAGIC`].
    Magic,
    /// The file ends before what it announces.
    Truncated,
    /// A name is not UTF-8.
    Name,
}

/// The name that stands at the beginning of `s`, and the bytes after it.
pub open spec fn read_name(s: Seq<u8>) -> Result<(Seq<char>, Seq<u8>), BinaryError> {
    if s.len() == 0 || s.len() - 1 < s[0] as int {
        Err(BinaryError::Truncated)
    } else {
        let n = s[0] as int;
        let bytes = s.subrange(1, 1 + n);
        if valid_utf8(bytes) {
            Ok((decode_utf8(bytes), s.skip(1 + n)))
        } else {
            Err(BinaryError::Name)
        }
    }
}

/// The contents that stand at the beginning of `s`, and the bytes after them.
pub open spec fn read_contents(s: Seq<u8>) -> Result<(Seq<u8>, Seq<u8>), BinaryError> {
    if s.len() < 8 || s.len() - 8 < little_endian(s.subrange(0, 8)) {
        Err(BinaryError::Truncated)
    } else {
        let n = little_endian(s.subrange(0, 8)) as int;
        Ok((s.subrange(8, 8 + n), s.skip(8 + n)))
    }
}

/// The table that stands at the beginning of `s`, and the bytes after it.
pub open spec fn read_table(s: Seq<u8>) -> Result<(StoredView, Seq<u8>), BinaryError> {
    match read_name(s) {
        Err(e) => Err(e),
        Ok((catalog, s)) => match read_name(s) {
            Err(e) => Err(e),
            Ok((schema, s)) => match read_name(s) {
                Err(e) => Err(e),
                Ok((table, s)) => match read_contents(s) {
                    Err(e) => Err(e),
                    Ok((contents, s)) => Ok(
                        (StoredView { catalog, schema, table, contents }, s),
                    ),
                },
            },
        },
    }
}

/// The `n` tables that stand at the beginning of `s`.
pub open spec fn read_tables(s: Seq<u8>, n: nat) -> Result<Seq<StoredView>, BinaryError>
    decreases n,
{
    if n == 0 {
        Ok(Seq::empty())
    } else {
        match read_table(s) {
            Err(e) => Err(e),
            Ok((t, rest)) => match read_tables(rest, (n - 1) as nat) {
                Err(e) => Err(e),
                Ok(more) => Ok(seq![t] + more),
            },
        }
    }
}

/// What a catalog file says.
pub open spec fn read_file(s: Seq<u8>) -> Result<Seq<StoredView>, BinaryError> {
    if s.len() < 7 {
        Err(BinaryError::Truncated)
    } else if s.take(7) != MAGIC@ {
        Err(BinaryError::Magic)
    } else if s.len() < 11 {
        Err(BinaryError::Truncated)
    } else {
        read_tables(s.skip(11), little_endian(s.subrange(7, 11)))
    }
}

fn take_name(s: &Vec<u8>, at: usize) -> (r: Result<(String, usize), BinaryError>)
    requires
        at <= s@.len(),
    ensures
        match r {
            Ok((name, next)) => next <= s@.len() && read_name(s@.skip(at as int)) == Ok::<
                (Seq<char>, Seq<u8>),
                BinaryError,
            >((name@, s@.skip(next as int))),
            Err(e) => read_name(s@.skip(at as int)) == Err::<(Seq<char>, Seq<u8>), BinaryError>(e),
        },
{
    let ghost rest = s@.skip(at as int);
    if at >= s.len() {
        return Err(BinaryError::Truncated);
    }
    assert(rest[0] == s@[at as int]);
    let n: usize = s[at] as usize;
    if s.len() - at - 1 < n {
        return Err(BinaryError::Truncated);
    }
    let next: usize = at + 1 + n;
    let bytes = copy_bytes(s, at + 1, next);
    assert(bytes@ =~= rest.subrange(1, 1 + n));
    assert(rest.skip(1 + n) =~= s@.skip(next as int));
    match decode_text(bytes) {
        Some(name) => Ok((name, next)),
        None => Err(BinaryError::Name),
    }
}

fn take_contents(s: &Vec<u8>, at: usize) -> (r: Result<(Vec<u8>, usize), BinaryError>)
    requires
        at <= s@.len(),
    ensures
        match r {
            Ok((contents, next)) => next <= s@.len() && read_contents(s@.skip(at as int)) == Ok::<
                (Seq<u8>, Seq<u8>),
                BinaryError,
            >((contents@, s@.skip(next as int))),
            Err(e) => read_contents(s@.skip(at as int)) == Err::<(Seq<u8>, Seq<u8>), BinaryError>(
                e,
            ),
        },
{
    let ghost rest = s@.skip(at as int);
    if s.len() - at < 8 {
        return Err(BinaryError::Truncated);
    }
    let n: u64 = read_little_endian(s, at, at + 8);
    assert(s@.subrange(at as int, at + 8) =~= rest.subrange(0, 8));
    if ((s.len() - at - 8) as u64) < n {
        return Err(BinaryError::Truncated);
    }
    let next: usize = at + 8 + n as usize;
    let contents = copy_bytes(s, at + 8, next);
    assert(contents@ =~= rest.subrange(8, 8 + n));
    assert(rest.skip(8 + n) =~= s@.skip(next as int));
    Ok((contents, next))
}

fn take_table(s: &Vec<u8>, at: usize) -> (r: Result<(StoredTable, usize), BinaryError>)
    requires
        at <= s@.len(),
    ensures
        match r {
            Ok((t, next)) => next <= s@.len() && read_table(s@.skip(at as int)) == Ok::<
                (StoredView, Seq<u8>),
                BinaryError,
            >((t@, s@.skip(next as int))),
            Err(e) => read_table(s@.skip(at as int)) == Err::<(StoredView, Seq<u8>), BinaryError>(
                e,
            ),
        },
{
    let (catalog, at) = match take_name(s, at) {
        Ok(x) => x,
        Err(e) => {
            return Err(e);
        },
    };
    let (schema, at) = match take_name(s, at) {
        Ok(x) => x,
        Err(e) => {
            return Err(e);
        },
    };
    let (table, at) = match take_name(s, at) {
        Ok(x) => x,
        Err(e) => {
            return Err(e);
        },
    };
    let (contents, at) = match take_contents(s, at) {
        Ok(x) => x,
        Err(e) => {
            return Err(e);
        },
    };
    Ok((StoredTable { catalog, schema, table, contents }, at))
}

/// The tables that are read so far, and what the rest of the file holds.
pub open spec fn then_read(
    done: Seq<StoredView>,
    rest: Result<Seq<StoredView>, BinaryError>,
) -> Result<Seq<StoredView>, BinaryError> {
    match rest {
        Ok(more) => Ok(done + more),
        Err(e) => Err(e),
    }
}

/// The tables that a catalog file keeps, in its order.
pub fn read_binary(s: &Vec<u8>) -> (r: Result<Vec<StoredTable>, BinaryError>)
    ensures
        match r {
            Ok(tables) => read_file(s@) == Ok::<Seq<StoredView>, BinaryError>(stored(tables@)),
            Err(e) => read_file(s@) == Err::<Seq<StoredView>, BinaryError>(e),
        },
{
    if s.len() < 7 {
        return Err(BinaryError::Truncated);
    }
    let mut i: usize = 0;
    while i < 7
        invariant
            i <= 7 <= s@.len(),
            forall|k: int| 0 <= k < i ==> s@[k] == #[trigger] MAGIC@[k],
        decreases 7 - i,
    {
        if s[i] != MAGIC[i] {
            assert(s@.take(7)[i as int] != MAGIC@[i as int]);
            return Err(BinaryError::Magic);
        }
        i = i + 1;
    }
    assert(s@.take(7) =~= MAGIC@);
    if s.len() < 11 {
        return Err(BinaryError::Truncated);
    }
    let n: u64 = read_little_endian(s, 7, 11);
    let mut out: Vec<StoredTable> = Vec::new();
    let mut at: usize = 11;
    let mut left: u64 = n;
    assert(stored(out@) =~= Seq::empty());
    proof {
        let rest = read_tables(s@.skip(11), n as nat);
        if let Ok(more) = rest {
            assert(stored(out@) + more =~= more);
        }
    }
    while left > 0
        invariant
            at <= s@.len(),
            read_file(s@) == then_read(stored(out@), read_tables(s@.skip(at as int), left as nat)),
        decreases left,
    {
        match take_table(s, at) {
            Ok((t, next)) => {
                let ghost done = stored(out@);
                let ghost rest = read_tables(s@.skip(next as int), (left - 1) as nat);
                let ghost v = t@;
                out.push(t);
                at = next;
                left = left - 1;
                proof {
                    assert(stored(out@) =~= done.push(v));
                    if let Ok(more) = rest {
                        assert(done + (seq![v] + more) =~= stored(out@) + more);
                    }
                }
            },
            Err(e) => {
                return Err(e);
            },
        }
    }
    assert(stored(out@) + Seq::<StoredView>::empty() =~= stored(out@));
    Ok(out)
}

// --- reading back ----------------------------------------------------------------------------

/// A table whose names are short enough for a catalog file.
pub open spec fn fits(t: StoredView) -> bool {
    &&& encode_utf8(t.catalog).len() < 256
    &&& encode_utf8(t.schema).len() < 256
    &&& encode_utf8(t.table).len() < 256
    &&& t.contents.len() < power256(8)
}

proof fn name_leads_back(s: Seq<char>, rest: Seq<u8>)
    requires
        encode_utf8(s).len() < 256,
    ensures
        read_name(name_bytes(s) + rest) == Ok::<(Seq<char>, Seq<u8>), BinaryError>((s, rest)),
{
    let bytes = encode_utf8(s);
    let all = name_bytes(s) + rest;
    powers();
    bytes_lead_back(bytes.len(), 1);
    encode_utf8_valid_utf8(s);
    encode_utf8_decode_utf8(s);
    assert(little_bytes(bytes.len(), 1) =~= seq![bytes.len() as u8]) by {
        reveal_with_fuel(little_bytes, 2);
    }
    assert(all[0] == bytes.len() as u8);
    assert(all.subrange(1, 1 + bytes.len() as int) =~= bytes);
    assert(all.skip(1 + bytes.len() as int) =~= rest);
}

proof fn contents_lead_back(c: Seq<u8>, rest: Seq<u8>)
    requires
        c.len() < power256(8),
    ensures
        read_contents(little_bytes(c.len(), 8) + c + rest) == Ok::<
            (Seq<u8>, Seq<u8>),
            BinaryError,
        >((c, rest)),
{
    let head = little_bytes(c.len(), 8);
    let all = head + c + rest;
    bytes_lead_back(c.len(), 8);
    assert(all.subrange(0, 8) =~= head);
    assert(all.subrange(8, 8 + c.len() as int) =~= c);
    assert(all.skip(8 + c.len() as int) =~= rest);
}

proof fn table_leads_back(t: StoredView, rest: Seq<u8>)
    requires
        fits(t),
    ensures
        read_table(table_bytes(t) + rest) == Ok::<(StoredView, Seq<u8>), BinaryError>((t, rest)),
{
    let d = little_bytes(t.contents.len(), 8) + t.contents;
    let c = name_bytes(t.table) + d;
    let b = name_bytes(t.schema) + c;
    assert(table_bytes(t) + rest =~= name_bytes(t.catalog) + (b + rest));
    name_leads_back(t.catalog, b + rest);
    assert(b + rest =~= name_bytes(t.schema) + (c + rest));
    name_leads_back(t.schema, c + rest);
    assert(c + rest =~= name_bytes(t.table) + (d + rest));
    name_leads_back(t.table, d + rest);
    contents_lead_back(t.contents, rest);
}

proof fn tables_go_on(s: Seq<u8>, t: StoredView, rest: Seq<u8>, more: Seq<StoredView>)
    requires
        read_table(s) == Ok::<(StoredView, Seq<u8>), BinaryError>((t, rest)),
        read_tables(rest, more.len()) == Ok::<Seq<StoredView>, BinaryError>(more),
    ensures
        read_tables(s, more.len() + 1) == Ok::<Seq<StoredView>, BinaryError>(seq![t] + more),
{
}

proof fn tables_lead_back(tables: Seq<StoredView>)
    requires
        forall|i: int| 0 <= i < tables.len() ==> fits(#[trigger] tables[i]),
    ensures
        read_tables(tables_bytes(tables, tables.len()), tables.len()) == Ok::<
            Seq<StoredView>,
            BinaryError,
        >(tables),
    decreases tables.len(),
{
    if tables.len() > 0 {
        let tail = tables.skip(1);
        assert forall|i: int| 0 <= i < tail.len() implies fits(#[trigger] tail[i]) by {
            assert(tail[i] == tables[i + 1]);
        }
        let rest = tables_bytes(tail, tail.len());
        tables_lead_back(tail);
        first_table_stands_first(tables, tables.len());
        table_leads_back(tables[0], rest);
        tables_go_on(table_bytes(tables[0]) + rest, tables[0], rest, tail);
        assert(seq![tables[0]] + tail =~= tables);
    } else {
        assert(tables =~= Seq::empty());
    }
}

proof fn first_table_stands_first(tables: Seq<StoredView>, n: nat)
    requires
        0 < n <= tables.len(),
    ensures
        tables_bytes(tables, n) == table_bytes(tables[0]) + tables_bytes(
            tables.skip(1),
            (n - 1) as nat,
        ),
    decreases n,
{
    let tail = tables.skip(1);
    if n == 1 {
        assert(tables_bytes(tables, 0) =~= Seq::empty());
        assert(tables_bytes(tail, 0) =~= Seq::empty());
        assert(tables_bytes(tables, 1) =~= table_bytes(tables[0]) + tables_bytes(tail, 0));
    } else {
        first_table_stands_first(tables, (n - 1) as nat);
        assert(tail[n - 2] == tables[n - 1]);
        assert(tables_bytes(tables, n) =~= table_bytes(tables[0]) + tables_bytes(
            tail,
            (n - 1) as nat,
        ));
    }
}

/// Reading a file gives back the tables that were written to it, in their order, as long as
/// no name has more than 255 bytes and there are fewer than 2^32 tables.
pub proof fn written_tables_are_read_back(tables: Seq<StoredView>)
    requires
        tables.len() < power256(4),
        forall|i: int| 0 <= i < tables.len() ==> fits(#[trigger] tables[i]),
    ensures
        read_file(file_bytes(tables)) == Ok::<Seq<StoredView>, BinaryError>(tables),
{
    let head = little_bytes(tables.len(), 4);
    let body = tables_bytes(tables, tables.len());
    let s = file_bytes(tables);
    bytes_lead_back(tables.len(), 4);
    assert(MAGIC@.len() == 7);
    assert(s.take(7) =~= MAGIC@);
    assert(s.subrange(7, 11) =~= head);
    assert(s.skip(11) =~= body);
    tables_lead_back(tables);
}

/// A catalog file begins with the letters `PGCAT`, a zero and the version, and with the number of
/// its tables in four bytes, the lowest first.
pub proof fn files_begin_with_their_form(tables: Seq<StoredView>)
    requires
        tables.len() < 0x1_0000_0000,
    ensures
        ({
            let s = file_bytes(tables);
            &&& s.len() >= 11
            &&& s[0] == 80 && s[1] == 71 && s[2] == 67 && s[3] == 65 && s[4] == 84 && s[5] == 0
                && s[6] == 1
            &&& tables.len() == s[7] + 256 * s[8] + 65536 * s[9] + 16777216 * s[10]
        }),
{
    powers();
    bytes_lead_back(tables.len(), 4);
    let count = little_bytes(tables.len(), 4);
    let s = file_bytes(tables);
    assert(s.subrange(7, 11) =~= count);
    let c1 = count.skip(1);
    let c2 = c1.skip(1);
    let c3 = c2.skip(1);
    assert(c3.skip(1) =~= Seq::empty());
    assert(little_endian(c3.skip(1)) == 0);
    assert(little_endian(c3) == count[3]);
    assert(little_endian(c2) == count[2] + 256 * little_endian(c3));
    assert(little_endian(c1) == count[1] + 256 * little_endian(c2));
    assert(little_endian(count) == count[0] + 256 * little_endian(c1));
}

/// Each name of a table stands behind one byte with its length, the catalog before the schema and
/// the schema before the table, and the contents come last.
pub proof fn tables_have_their_form(t: StoredView)
    requires
        fits(t),
    ensures
        ({
            let s = table_bytes(t);
            let (a, b, c) = (encode_utf8(t.catalog), encode_utf8(t.schema), encode_utf8(t.table));
            let i: int = 1 + a.len() as int;
            let j: int = i + 1 + b.len();
            let k: int = j + 1 + c.len();
            &&& s.len() == k + 8 + t.contents.len()
            &&& s[0] == a.len() && s.subrange(1, i) == a
            &&& s[i] == b.len() && s.subrange(i + 1, j) == b
            &&& s[j] == c.len() && s.subrange(j + 1, k) == c
            &&& s.skip(k + 8) == t.contents
        }),
{
    let (a, b, c) = (encode_utf8(t.catalog), encode_utf8(t.schema), encode_utf8(t.table));
    one_byte(a.len());
    one_byte(b.len());
    one_byte(c.len());
    bytes_lead_back(t.contents.len(), 8);
    let s = table_bytes(t);
    let i: int = 1 + a.len() as int;
    let j: int = i + 1 + b.len();
    let k: int = j + 1 + c.len();
    assert(s.subrange(1, i) =~= a);
    assert(s.subrange(i + 1, j) =~= b);
    assert(s.subrange(j + 1, k) =~= c);
    assert(s.skip(k + 8) =~= t.contents);
}

proof fn one_byte(n: nat)
    requires
        n < 256,
    ensures
        little_bytes(n, 1).len() == 1,
        little_bytes(n, 1)[0] == n,
{
    powers();
    bytes_lead_back(n, 1);
    let s = little_bytes(n, 1);
    assert(s.skip(1) =~= Seq::empty());
    assert(little_endian(s.skip(1)) == 0);
}

/// Of tables in one place the last one counts.
pub proof fn last_table_counts(
    tables: Seq<StoredView>,
    n: nat,
    catalog: Seq<char>,
    schema: Seq<char>,
    table: Seq<char>,
)
    requires
        n <= tables.len(),
    ensures
        ({
            let there = |t: StoredView|
                t.catalog == catalog && t.schema == schema && t.table == table;
            match last_stored(tables, n, catalog, schema, table) {
                Some(i) => i < n && there(tables[i as int]) && forall|j: int|
                    i < j < n ==> !there(#[trigger] tables[j]),
                None => forall|j: int| 0 <= j < n ==> !there(#[trigger] tables[j]),
            }
        }),
    decreases n,
{
    if n > 0 && !stands_at(tables[n - 1], catalog, schema, table) {
        last_table_counts(tables, (n - 1) as nat, catalog, schema, table);
    }
}

} // verus!
