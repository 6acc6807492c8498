//! Putting user objects into the catalog, and taking them out of it.
//!
//! The functions here decide; what they decide is a list of [`Change`]s, which are made to
//! the catalog at hand and can be made to any store that holds the same rows.
use super::defs::CatalogTable;
use super::row::{cell_at, CellValue, CellView, Row, RowView};
use crate::text::{same, signed, signed_text};
use vstd::prelude::*;

verus! {

/// The first OID of a user object; those before it are taken by built-in objects.
pub const FIRST_USER_OID: i32 = 16384;

// --- the catalog ------------------------------------------------------------------------------

/// A row, and the table that it stands in.
#[derive(Debug)]
pub struct Entry {
    pub table: CatalogTable,
    pub row: Row,
}

/// The rows of the catalog tables, in the order in which they were put in.
#[derive(Debug)]
pub struct Catalog {
    pub entries: Vec<Entry>,
}

/// What a [`Catalog`] says.
pub type CatalogView = Seq<(CatalogTable, RowView)>;

/// What a list of entries says.
pub open spec fn entries_of(v: Seq<Entry>) -> CatalogView {
    Seq::new(v.len(), |i: int| (v[i].table, v[i].row@))
}

impl View for Catalog {
    type V = CatalogView;

    open spec fn view(&self) -> CatalogView {
        entries_of(self.entries@)
    }
}

/// A change of the catalog.
#[derive(Debug)]
pub enum Change {
    /// A row is put into a table.
    Insert(CatalogTable, Row),
    /// The rows of a table leave it that have this OID in a column.
    DeleteOid(CatalogTable, &'static str, i32),
    /// The rows of a table leave it that have this name in a column.
    DeleteName(CatalogTable, &'static str, String),
}

/// What a [`Change`] says.
pub enum ChangeView {
    Insert(CatalogTable, RowView),
    DeleteOid(CatalogTable, Seq<char>, i32),
    DeleteName(CatalogTable, Seq<char>, Seq<char>),
}

impl View for Change {
    type V = ChangeView;

    open spec fn view(&self) -> ChangeView {
        match *self {
            Change::Insert(table, row) => ChangeView::Insert(table, row@),
            Change::DeleteOid(table, column, oid) => ChangeView::DeleteOid(table, column@, oid),
            Change::DeleteName(table, column, name) => ChangeView::DeleteName(
                table,
                column@,
                name@,
            ),
        }
    }
}

/// What a list of changes says.
pub open spec fn changes_of(v: Seq<Change>) -> Seq<ChangeView> {
    Seq::new(v.len(), |i: int| v[i]@)
}

/// The rows that stay when those with an OID in a column leave a table. A row without one stays.
pub open spec fn other_oid(table: CatalogTable, column: Seq<char>, oid: i32) -> spec_fn(
    (CatalogTable, RowView),
) -> bool {
    |e: (CatalogTable, RowView)|
        e.0 != table || match cell_at(e.1, column) {
            CellView::Int(n) => n != oid as i64,
            _ => true,
        }
}

/// The rows that stay when those with a name in a column leave a table. A row without one stays.
pub open spec fn other_name(table: CatalogTable, column: Seq<char>, name: Seq<char>) -> spec_fn(
    (CatalogTable, RowView),
) -> bool {
    |e: (CatalogTable, RowView)|
        e.0 != table || match cell_at(e.1, column) {
            CellView::Text(s) => s != name,
            _ => true,
        }
}

/// The catalog after one change.
pub open spec fn changed(cat: CatalogView, c: ChangeView) -> CatalogView {
    match c {
        ChangeView::Insert(table, row) => cat.push((table, row)),
        ChangeView::DeleteOid(table, column, oid) => cat.filter(other_oid(table, column, oid)),
        ChangeView::DeleteName(table, column, name) => cat.filter(other_name(table, column, name)),
    }
}

/// The catalog after the changes, one by one.
pub open spec fn all_changed(cat: CatalogView, changes: Seq<ChangeView>) -> CatalogView
    decreases changes.len(),
{
    if changes.len() == 0 {
        cat
    } else {
        changed(all_changed(cat, changes.drop_last()), changes.last())
    }
}

/// Changes in two parts.
pub proof fn changes_in_parts(cat: CatalogView, a: Seq<ChangeView>, b: Seq<ChangeView>)
    ensures
        all_changed(cat, a + b) == all_changed(all_changed(cat, a), b),
    decreases b.len(),
{
    if b.len() == 0 {
        assert(a + b =~= a);
    } else {
        assert((a + b).drop_last() =~= a + b.drop_last());
        assert((a + b).last() == b.last());
        changes_in_parts(cat, a, b.drop_last());
    }
}

/// Whether the row `e` stays in the catalog when `c` is made.
pub fn stays(c: &Change, e: &Entry) -> (r: bool)
    ensures
        match c@ {
            ChangeView::DeleteOid(table, column, oid) => r == other_oid(table, column, oid)(
                (e.table, e.row@),
            ),
            ChangeView::DeleteName(table, column, name) => r == other_name(table, column, name)(
                (e.table, e.row@),
            ),
            ChangeView::Insert(_, _) => r,
        },
{
    match c {
        Change::Insert(_, _) => true,
        Change::DeleteOid(table, column, oid) => e.table != *table || (match e.row.get(column) {
            Some(CellValue::Int(n)) => *n != *oid as i64,
            _ => true,
        }),
        Change::DeleteName(table, column, name) => e.table != *table || (match e.row.get(column) {
            Some(CellValue::Text(s)) => !same(s.as_str(), name.as_str()),
            _ => true,
        }),
    }
}

impl Catalog {
    /// The catalog without rows.
    pub fn new() -> (r: Catalog)
        ensures
            r@ == Seq::<(CatalogTable, RowView)>::empty(),
    {
        let r = Catalog { entries: Vec::new() };
        assert(r@ =~= Seq::empty());
        r
    }

    fn retain(&mut self, c: &Change, Ghost(keep): Ghost<spec_fn((CatalogTable, RowView)) -> bool>)
        requires
            forall|e: Entry|
                keep((e.table, #[trigger] e.row@)) == match c@ {
                    ChangeView::DeleteOid(table, column, oid) => other_oid(table, column, oid)(
                        (e.table, e.row@),
                    ),
                    ChangeView::DeleteName(table, column, name) => other_name(
                        table,
                        column,
                        name,
                    )((e.table, e.row@)),
                    ChangeView::Insert(_, _) => true,
                },
        ensures
            final(self)@ == old(self)@.filter(keep),
    {
        let ghost all = self.entries@;
        let ghost view = self@;
        let mut entries: Vec<Entry> = Vec::new();
        std::mem::swap(&mut entries, &mut self.entries);
        let mut out: Vec<Entry> = Vec::new();
        proof {
            reveal(Seq::filter);
        }
        assert(view.take(0) =~= Seq::empty());
        assert(entries_of(out@) =~= Seq::empty());
        for e in it: entries
            invariant
                it.seq() == all,
                view == entries_of(all),
                forall|e: Entry|
                    keep((e.table, #[trigger] e.row@)) == match c@ {
                        ChangeView::DeleteOid(table, column, oid) => other_oid(
                            table,
                            column,
                            oid,
                        )((e.table, e.row@)),
                        ChangeView::DeleteName(table, column, name) => other_name(
                            table,
                            column,
                            name,
                        )((e.table, e.row@)),
                        ChangeView::Insert(_, _) => true,
                    },
                entries_of(out@) == view.take(it.index() as int).filter(keep),
        {
            let ghost i = it.index() as int;
            let ghost before = entries_of(out@);
            proof {
                reveal(Seq::filter);
            }
            assert(view.take(i + 1).drop_last() =~= view.take(i));
            assert(view.take(i + 1).last() == (e.table, e.row@));
            if stays(c, &e) {
                out.push(e);
                assert(entries_of(out@) =~= before.push((e.table, e.row@)));
            }
        }
        assert(view.take(all.len() as int) =~= view);
        self.entries = out;
    }

    /// Makes a change.
    pub fn apply(&mut self, c: &Change)
        ensures
            final(self)@ == changed(old(self)@, c@),
    {
        match c {
            Change::Insert(table, row) => {
                let ghost before = self@;
                self.entries.push(Entry { table: *table, row: row.copy() });
                assert(self@ =~= before.push((*table, row@)));
            },
            Change::DeleteOid(table, column, oid) => self.retain(
                c,
                Ghost(other_oid(*table, column@, *oid)),
            ),
            Change::DeleteName(table, column, name) => self.retain(
                c,
                Ghost(other_name(*table, column@, name@)),
            ),
        }
    }

    /// Makes the changes, one by one.
    pub fn apply_all(&mut self, changes: &Vec<Change>)
        ensures
            final(self)@ == all_changed(old(self)@, changes_of(changes@)),
    {
        let ghost before = self@;
        let ghost all = changes_of(changes@);
        let mut i: usize = 0;
        assert(all.take(0) =~= Seq::empty());
        while i < changes.len()
            invariant
                i <= changes@.len(),
                all == changes_of(changes@),
                self@ == all_changed(before, all.take(i as int)),
            decreases changes@.len() - i,
        {
            self.apply(&changes[i]);
            i = i + 1;
            assert(all.take(i as int).drop_last() =~= all.take(i - 1));
            assert(all.take(i as int).last() == changes@[i - 1]@);
        }
        assert(all.take(i as int) =~= all);
    }
}

// --- looking things up --------------------------------------------------------------------------

/// What is looked up in the catalog.
pub enum Lookup<'a> {
    Database(&'a str),
    Schema(&'a str),
    SchemaOid(i32),
    /// A relation, by the OID of its schema and its name.
    Relation(i32, &'a str),
    /// A constraint, by the OID of its table and its name.
    Constraint(i32, &'a str),
}

/// What a [`Lookup`] says.
pub enum LookupView {
    Database(Seq<char>),
    Schema(Seq<char>),
    SchemaOid(i32),
    Relation(i32, Seq<char>),
    Constraint(i32, Seq<char>),
}

impl<'a> View for Lookup<'a> {
    type V = LookupView;

    open spec fn view(&self) -> LookupView {
        match *self {
            Lookup::Database(s) => LookupView::Database(s@),
            Lookup::Schema(s) => LookupView::Schema(s@),
            Lookup::SchemaOid(n) => LookupView::SchemaOid(n),
            Lookup::Relation(n, s) => LookupView::Relation(n, s@),
            Lookup::Constraint(n, s) => LookupView::Constraint(n, s@),
        }
    }
}

/// Whether a row has a text in a column.
pub open spec fn has_text(row: RowView, column: Seq<char>, s: Seq<char>) -> bool {
    cell_at(row, column) == CellView::Text(s)
}

/// Whether a row has a number in a column.
pub open spec fn has_int(row: RowView, column: Seq<char>, n: i32) -> bool {
    cell_at(row, column) == CellView::Int(n as i64)
}

/// Whether a row is what is looked up.
pub open spec fn is_sought(l: LookupView, e: (CatalogTable, RowView)) -> bool {
    match l {
        LookupView::Database(s) => e.0 == CatalogTable::PgDatabase && has_text(e.1, "datname"@, s),
        LookupView::Schema(s) => e.0 == CatalogTable::PgNamespace && has_text(e.1, "nspname"@, s),
        LookupView::SchemaOid(n) => e.0 == CatalogTable::PgNamespace && has_int(e.1, "oid"@, n)
            && cell_at(e.1, "nspname"@) is Text,
        LookupView::Relation(n, s) => e.0 == CatalogTable::PgClass && has_text(e.1, "relname"@, s)
            && has_int(e.1, "relnamespace"@, n),
        LookupView::Constraint(n, s) => e.0 == CatalogTable::PgConstraint && has_text(
            e.1,
            "conname"@,
            s,
        ) && has_int(e.1, "conrelid"@, n),
    }
}

fn row_has_text(row: &Row, column: &str, s: &str) -> (r: bool)
    ensures
        r == has_text(row@, column@, s@),
{
    match row.get(column) {
        Some(CellValue::Text(t)) => same(t.as_str(), s),
        _ => false,
    }
}

fn row_has_int(row: &Row, column: &str, n: i32) -> (r: bool)
    ensures
        r == has_int(row@, column@, n),
{
    match row.get(column) {
        Some(CellValue::Int(m)) => *m == n as i64,
        _ => false,
    }
}

fn sought(l: &Lookup, e: &Entry) -> (r: bool)
    ensures
        r == is_sought(l@, (e.table, e.row@)),
{
    match l {
        Lookup::Database(s) => e.table == CatalogTable::PgDatabase && row_has_text(
            &e.row,
            "datname",
            s,
        ),
        Lookup::Schema(s) => e.table == CatalogTable::PgNamespace && row_has_text(
            &e.row,
            "nspname",
            s,
        ),
        Lookup::SchemaOid(n) => e.table == CatalogTable::PgNamespace && row_has_int(
            &e.row,
            "oid",
            *n,
        ) && (match e.row.get("nspname") {
            Some(CellValue::Text(_)) => true,
            _ => false,
        }),
        Lookup::Relation(n, s) => e.table == CatalogTable::PgClass && row_has_text(
            &e.row,
            "relname",
            s,
        ) && row_has_int(&e.row, "relnamespace", *n),
        Lookup::Constraint(n, s) => e.table == CatalogTable::PgConstraint && row_has_text(
            &e.row,
            "conname",
            s,
        ) && row_has_int(&e.row, "conrelid", *n),
    }
}

/// The first row at or after `i` that is looked up.
pub open spec fn found_from(cat: CatalogView, l: LookupView, i: nat) -> Option<RowView>
    decreases cat.len() - i,
{
    if i >= cat.len() {
        None
    } else if is_sought(l, cat[i as int]) {
        Some(cat[i as int].1)
    } else {
        found_from(cat, l, i + 1)
    }
}

/// The first row that is looked up.
pub open spec fn found(cat: CatalogView, l: LookupView) -> Option<RowView> {
    found_from(cat, l, 0)
}

/// Something is found if, and only if, some row is what is looked up.
pub proof fn found_if_there(cat: CatalogView, l: LookupView, i: nat)
    ensures
        found_from(cat, l, i) is Some <==> exists|k: int|
            i <= k < cat.len() && is_sought(l, #[trigger] cat[k]),
    decreases cat.len() - i,
{
    if i < cat.len() {
        if is_sought(l, cat[i as int]) {
            assert(is_sought(l, cat[i as int]));
        } else {
            found_if_there(cat, l, i + 1);
        }
    }
}

impl Catalog {
    pub fn find(&self, l: &Lookup) -> (r: Option<&Row>)
        ensures
            match r {
                Some(row) => found(self@, l@) == Some(row@),
                None => found(self@, l@) is None,
            },
    {
        let mut i: usize = 0;
        while i < self.entries.len()
            invariant
                i <= self.entries@.len(),
                found(self@, l@) == found_from(self@, l@, i as nat),
            decreases self.entries@.len() - i,
        {
            assert(self@[i as int] == (
                self.entries@[i as int].table,
                self.entries@[i as int].row@,
            ));
            if sought(l, &self.entries[i]) {
                return Some(&self.entries[i].row);
            }
            i = i + 1;
        }
        None
    }
}

/// Why an operation on the catalog failed.
#[derive(Debug)]
pub struct CatalogError {
    pub message: String,
}

/// The OID of a row that was looked up, if there is one. An OID has four bytes.
pub open spec fn oid_of(kind: Seq<char>, row: Option<RowView>) -> Result<Option<i32>, Seq<char>> {
    match row {
        Some(r) => match cell_at(r, "oid"@) {
            CellView::Int(n) => if i32::MIN <= n <= i32::MAX {
                Ok(Some(n as i32))
            } else {
                Err(
                    kind + " oid "@ + signed(n as int)
                        + " does not fit the int4 oid columns this catalog uses"@,
                )
            },
            _ => Err("unexpected "@ + kind + " oid type"@),
        },
        None => Ok(None),
    }
}

fn get_oid(kind: &str, row: Option<&Row>) -> (r: Result<Option<i32>, CatalogError>)
    ensures
        match r {
            Ok(x) => oid_of(
                kind@,
                match row {
                    Some(y) => Some(y@),
                    None => None,
                },
            ) == Ok::<Option<i32>, Seq<char>>(x),
            Err(e) => oid_of(
                kind@,
                match row {
                    Some(y) => Some(y@),
                    None => None,
                },
            ) == Err::<Option<i32>, Seq<char>>(e.message@),
        },
{
    match row {
        Some(y) => {
            if let Some(CellValue::Int(n)) = y.get("oid") {
                let n: i64 = *n;
                if -2147483648i64 <= n && n <= 2147483647i64 {
                    return Ok(Some(n as i32));
                }
                let mut message = kind.to_owned();
                message.append(" oid ");
                message.append(signed_text(n).as_str());
                message.append(" does not fit the int4 oid columns this catalog uses");
                return Err(CatalogError { message });
            }
            let mut message = "unexpected ".to_owned();
            message.append(kind);
            message.append(" oid type");
            Err(CatalogError { message })
        },
        None => Ok(None),
    }
}

/// The OID of a schema, by its name.
pub open spec fn schema_oid_of(cat: CatalogView, name: Seq<char>) -> Result<
    Option<i32>,
    Seq<char>,
> {
    oid_of("schema"@, found(cat, LookupView::Schema(name)))
}

/// The OID of a table, by its name and the OID of its schema.
pub open spec fn table_oid_of(cat: CatalogView, schema_oid: i32, name: Seq<char>) -> Result<
    Option<i32>,
    Seq<char>,
> {
    oid_of("table"@, found(cat, LookupView::Relation(schema_oid, name)))
}

impl Catalog {
    pub fn get_schema_oid(&self, name: &str) -> (r: Result<Option<i32>, CatalogError>)
        ensures
            match r {
                Ok(x) => schema_oid_of(self@, name@) == Ok::<Option<i32>, Seq<char>>(x),
                Err(e) => schema_oid_of(self@, name@) == Err::<Option<i32>, Seq<char>>(e.message@),
            },
    {
        get_oid("schema", self.find(&Lookup::Schema(name)))
    }

    pub fn get_table_oid(&self, schema_oid: i32, name: &str) -> (r: Result<
        Option<i32>,
        CatalogError,
    >)
        ensures
            match r {
                Ok(x) => table_oid_of(self@, schema_oid, name@) == Ok::<Option<i32>, Seq<char>>(x),
                Err(e) => table_oid_of(self@, schema_oid, name@) == Err::<
                    Option<i32>,
                    Seq<char>,
                >(e.message@),
            },
    {
        get_oid("table", self.find(&Lookup::Relation(schema_oid, name)))
    }
}

// --- fresh OIDs -------------------------------------------------------------------------------

/// Whether the objects of a table are numbered by OIDs of their own.
pub open spec fn is_numbered(table: CatalogTable) -> bool {
    table == CatalogTable::PgClass || table == CatalogTable::PgType || table
        == CatalogTable::PgNamespace || table == CatalogTable::PgDatabase || table
        == CatalogTable::PgAttrdef || table == CatalogTable::PgConstraint
}

/// The OID that a row of the catalog takes, if it takes one.
pub open spec fn taken_oid(e: (CatalogTable, RowView)) -> Option<i64> {
    if is_numbered(e.0) {
        match cell_at(e.1, "oid"@) {
            CellView::Int(n) => Some(n),
            _ => None,
        }
    } else {
        None
    }
}

/// The higher of two OIDs, where there are any.
pub open spec fn higher(a: Option<i64>, b: Option<i64>) -> Option<i64> {
    match (a, b) {
        (Some(x), Some(y)) => if x >= y {
            a
        } else {
            b
        },
        (Some(_), None) => a,
        _ => b,
    }
}

/// The highest OID among the rows of the catalog.
pub open spec fn highest_oid(cat: CatalogView) -> Option<i64>
    decreases cat.len(),
{
    if cat.len() == 0 {
        None
    } else {
        higher(highest_oid(cat.drop_last()), taken_oid(cat.last()))
    }
}

/// That the highest OID is the last one that there is.
pub open spec fn no_oid_left() -> Seq<char> {
    "highest catalog oid 2147483647 leaves no int4 oid for another object"@
}

/// The error that says so.
pub fn mk_no_oid_left() -> (r: CatalogError)
    ensures
        r.message@ == no_oid_left(),
{
    CatalogError {
        message: "highest catalog oid 2147483647 leaves no int4 oid for another object".to_owned(),
    }
}

/// The next OID after the highest one; at least that of the first user object.
pub open spec fn oid_after(highest: Option<i64>) -> Result<i32, Seq<char>> {
    let h = match highest {
        Some(n) => n,
        None => 0,
    };
    if h < i32::MIN || h > i32::MAX {
        Err(
            "highest catalog oid "@ + signed(h as int)
                + " does not fit the int4 oid columns this catalog uses"@,
        )
    } else if h == i32::MAX {
        Err(no_oid_left())
    } else if h + 1 > FIRST_USER_OID {
        Ok((h + 1) as i32)
    } else {
        Ok(FIRST_USER_OID)
    }
}

/// The next unused OID of the catalog.
pub open spec fn next_oid(cat: CatalogView) -> Result<i32, Seq<char>> {
    oid_after(highest_oid(cat))
}

/// Every OID in the catalog is below the next one.
pub proof fn next_oid_is_unused(cat: CatalogView, i: int)
    requires
        next_oid(cat) is Ok,
        0 <= i < cat.len(),
        taken_oid(cat[i]) is Some,
    ensures
        taken_oid(cat[i])->0 < next_oid(cat)->Ok_0,
{
    highest_oid_bounds(cat, i);
}

proof fn highest_oid_bounds(cat: CatalogView, i: int)
    requires
        0 <= i < cat.len(),
        taken_oid(cat[i]) is Some,
    ensures
        highest_oid(cat) is Some,
        taken_oid(cat[i])->0 <= highest_oid(cat)->0,
    decreases cat.len(),
{
    if i < cat.len() - 1 {
        highest_oid_bounds(cat.drop_last(), i);
    }
}

fn is_numbered_table(table: CatalogTable) -> (r: bool)
    ensures
        r == is_numbered(table),
{
    table == CatalogTable::PgClass || table == CatalogTable::PgType || table
        == CatalogTable::PgNamespace || table == CatalogTable::PgDatabase || table
        == CatalogTable::PgAttrdef || table == CatalogTable::PgConstraint
}

/// The next OID after the highest one that the catalog holds, if it holds any. A number that
/// is no OID is an error, and so is the last OID: numbering could not go on behind it.
pub fn oid_after_highest(highest: Option<i64>) -> (r: Result<i32, CatalogError>)
    ensures
        match r {
            Ok(n) => oid_after(highest) == Ok::<i32, Seq<char>>(n),
            Err(e) => oid_after(highest) == Err::<i32, Seq<char>>(e.message@),
        },
{
    let h: i64 = match highest {
        Some(n) => n,
        None => 0,
    };
    if h < -2147483648i64 || h > 2147483647i64 {
        let mut message = "highest catalog oid ".to_owned();
        message.append(signed_text(h).as_str());
        message.append(" does not fit the int4 oid columns this catalog uses");
        return Err(CatalogError { message });
    }
    if h == 2147483647i64 {
        Err(mk_no_oid_left())
    } else if h + 1 > FIRST_USER_OID as i64 {
        Ok((h + 1) as i32)
    } else {
        Ok(FIRST_USER_OID)
    }
}

impl Catalog {
    fn find_highest_oid(&self) -> (r: Option<i64>)
        ensures
            r == highest_oid(self@),
    {
        let mut best: Option<i64> = None;
        let mut i: usize = 0;
        assert(self@.take(0) =~= Seq::empty());
        while i < self.entries.len()
            invariant
                i <= self.entries@.len(),
                best == highest_oid(self@.take(i as int)),
            decreases self.entries@.len() - i,
        {
            let e = &self.entries[i];
            let mut own: Option<i64> = None;
            if is_numbered_table(e.table) {
                if let Some(CellValue::Int(n)) = e.row.get("oid") {
                    own = Some(*n);
                }
            }
            assert(self@.take(i + 1).drop_last() =~= self@.take(i as int));
            assert(self@.take(i + 1).last() == (e.table, e.row@));
            assert(own == taken_oid((e.table, e.row@)));
            best = match (best, own) {
                (Some(x), Some(y)) => if x >= y {
                    Some(x)
                } else {
                    Some(y)
                },
                (Some(x), None) => Some(x),
                (None, y) => y,
            };
            i = i + 1;
        }
        assert(self@.take(i as int) =~= self@);
        best
    }

    /// The next unused OID. Numbering starts at [`FIRST_USER_OID`] and goes on behind the
    /// highest OID of any table, so no two objects of whatever kind get the same one.
    pub fn next_catalog_oid(&self) -> (r: Result<i32, CatalogError>)
        ensures
            match r {
                Ok(n) => next_oid(self@) == Ok::<i32, Seq<char>>(n),
                Err(e) => next_oid(self@) == Err::<i32, Seq<char>>(e.message@),
            },
    {
        oid_after_highest(self.find_highest_oid())
    }
}

} // verus!
