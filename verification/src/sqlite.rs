//! A catalog that shows the tables of a SQLite database.
use crate::catalog::defs::{
    columns_view, ColumnSpec, ColumnView, DatabaseDef, LazyDatabaseRow, RelationDef, RelationKind,
    RelationView, SchemaDef,
};
use crate::catalog::source::{LazyCatalogSource, SourceError};
use crate::text::{
    chars, decimal, decimal_is_read_back, decimal_text, ends_are_trimmed, eq_ignoring_case,
    find_part, find_text, first_part_is_found, is_space, same, same_ignoring_case, slice_text,
    space, spelled, holds_at, to_uppercase, trim, trimmed, uppercased, Trim,
};
use vstd::prelude::*;
use vstd::utf8::encode_utf8;

verus! {

/// The database that the catalog shows.
pub const DB_NAME: &'static str = "appdb";

/// The OID of [`DB_NAME`].
pub const DB_OID: i32 = 16384;

/// The schema that the tables stand in.
pub const SCHEMA_NAME: &'static str = "public";

/// The OID of [`SCHEMA_NAME`].
pub const SCHEMA_OID: i32 = 16385;

/// The hash of a run of bytes: each byte is added to 33 times what was before, modulo 2^32.
pub open spec fn hash_of(s: Seq<u8>) -> nat
    decreases s.len(),
{
    if s.len() == 0 {
        5381
    } else {
        (hash_of(s.drop_last()) * 33 + s.last() as nat) % 0x1_0000_0000
    }
}

/// A hash of a name that is the same on every call and on every machine.
pub fn djb2(s: &str) -> (r: u32)
    ensures
        r == hash_of(encode_utf8(s@)),
{
    let bytes = s.as_bytes();
    let mut hash: u32 = 5381;
    let mut i: usize = 0;
    assert(bytes@.take(0) =~= Seq::empty());
    while i < bytes.len()
        invariant
            i <= bytes@.len(),
            hash == hash_of(bytes@.take(i as int)),
        decreases bytes@.len() - i,
    {
        let ghost next = bytes@.take(i + 1);
        assert(next.drop_last() =~= bytes@.take(i as int));
        assert(next.last() == bytes@[i as int]);
        let sum: u64 = hash as u64 * 33 + bytes[i] as u64;
        hash = (sum % 0x1_0000_0000) as u32;
        i = i + 1;
    }
    assert(bytes@.take(i as int) =~= bytes@);
    hash
}

/// The OID of a table, which its name decides.
pub open spec fn table_oid(name: Seq<char>) -> int {
    20000 + (hash_of(encode_utf8(name)) % 5000) as int
}

/// The OID of the type of a table's rows, which its name decides.
pub open spec fn row_type_oid(name: Seq<char>) -> int {
    30000 + (hash_of(encode_utf8(name)) % 5000) as int
}

/// The OID of the table `name`.
pub fn relation_oid(name: &str) -> (r: i32)
    ensures
        r == table_oid(name@),
        20000 <= r < 25000,
{
    let rest: u32 = djb2(name) % 5000;
    20000 + rest as i32
}

/// The OID of the type of the rows of the table `name`.
pub fn reltype_oid(name: &str) -> (r: i32)
    ensures
        r == row_type_oid(name@),
        30000 <= r < 35000,
{
    let rest: u32 = djb2(name) % 5000;
    30000 + rest as i32
}

/// The PostgreSQL type of a column with this declared type, in capitals: `int4` where the
/// declaration speaks of an integer, and `text` elsewhere.
pub open spec fn type_oid(declared: Seq<char>) -> i32 {
    if find_part(declared, "INT"@) is Some {
        23
    } else {
        25
    }
}

/// The OID of the PostgreSQL type of a column that SQLite declares as `decl_type`.
pub fn sqlite_type_to_oid(decl_type: &str) -> (r: i32)
    ensures
        r == type_oid(uppercased(decl_type@)),
{
    let t = to_uppercase(decl_type);
    if find_text(&chars(t.as_str()), &chars("INT")).is_some() {
        23
    } else {
        25
    }
}

/// A column as `PRAGMA table_info` gives it.
#[derive(Debug)]
pub struct TableInfo {
    pub name: String,
    pub decl_type: String,
    pub notnull: i64,
}

/// The columns of a table.
pub open spec fn column_specs(info: Seq<TableInfo>) -> Seq<ColumnView> {
    Seq::new(
        info.len(),
        |i: int|
            ColumnView {
                name: info[i].name@,
                type_oid: type_oid(uppercased(info[i].decl_type@)),
                nullable: info[i].notnull == 0,
                has_default: false,
            },
    )
}

/// The columns of a table, from what `PRAGMA table_info` gives.
pub fn list_columns(info: &Vec<TableInfo>) -> (r: Vec<ColumnSpec>)
    ensures
        columns_view(r@) == column_specs(info@),
{
    let ghost all = column_specs(info@);
    let mut out: Vec<ColumnSpec> = Vec::new();
    let mut i: usize = 0;
    while i < info.len()
        invariant
            i <= info@.len(),
            all == column_specs(info@),
            columns_view(out@) == all.take(i as int),
        decreases info@.len() - i,
    {
        let ghost before = columns_view(out@);
        let c = &info[i];
        let spec_of = ColumnSpec::new(
            c.name.as_str(),
            sqlite_type_to_oid(c.decl_type.as_str()),
            c.notnull == 0,
        );
        let ghost shown = spec_of@;
        out.push(spec_of);
        assert(columns_view(out@) =~= before.push(shown));
        assert(all.take(i + 1) =~= all.take(i as int).push(all[i as int]));
        i = i + 1;
    }
    assert(all.take(i as int) =~= all);
    out
}

/// A table of a SQLite database.
#[derive(Debug)]
pub struct SqliteTable {
    pub name: String,
    pub columns: Vec<TableInfo>,
}

/// The tables of a SQLite database, in the order of their names.
#[derive(Debug)]
pub struct SqliteCatalogSource {
    pub tables: Vec<SqliteTable>,
}

/// What a list of relations says.
pub open spec fn relation_views(v: Seq<RelationDef>) -> Seq<RelationView> {
    Seq::new(v.len(), |i: int| v[i]@)
}

/// The relations that the tables are shown as.
pub open spec fn shown_relations(tables: Seq<SqliteTable>) -> Seq<RelationView> {
    Seq::new(
        tables.len(),
        |i: int|
            RelationView {
                oid: table_oid(tables[i].name@) as i32,
                reltype_oid: row_type_oid(tables[i].name@) as i32,
                name: tables[i].name@,
                kind: RelationKind::Table,
                owner_oid: None,
                has_index: false,
                has_rules: false,
                has_triggers: false,
                row_security: false,
            },
    )
}

/// The columns of the first table that is called `name`; none where there is no such table.
pub open spec fn shown_columns(tables: Seq<SqliteTable>, name: Seq<char>) -> Seq<ColumnView>
    decreases tables.len(),
{
    if tables.len() == 0 {
        Seq::empty()
    } else if tables[0].name@ == name {
        column_specs(tables[0].columns@)
    } else {
        shown_columns(tables.skip(1), name)
    }
}

fn relations_of(tables: &Vec<SqliteTable>) -> (r: Vec<RelationDef>)
    ensures
        relation_views(r@) == shown_relations(tables@),
{
    let ghost all = shown_relations(tables@);
    let mut out: Vec<RelationDef> = Vec::new();
    let mut i: usize = 0;
    while i < tables.len()
        invariant
            i <= tables@.len(),
            all == shown_relations(tables@),
            relation_views(out@) == all.take(i as int),
        decreases tables@.len() - i,
    {
        let ghost before = relation_views(out@);
        let name = tables[i].name.as_str();
        let relation = RelationDef::table(relation_oid(name), reltype_oid(name), name);
        let ghost shown = relation@;
        out.push(relation);
        assert(relation_views(out@) =~= before.push(shown));
        assert(all.take(i + 1) =~= all.take(i as int).push(all[i as int]));
        i = i + 1;
    }
    assert(all.take(i as int) =~= all);
    out
}

fn columns_of(tables: &Vec<SqliteTable>, name: &str) -> (r: Vec<ColumnSpec>)
    ensures
        columns_view(r@) == shown_columns(tables@, name@),
{
    let mut i: usize = 0;
    assert(tables@.skip(0) =~= tables@);
    while i < tables.len()
        invariant
            i <= tables@.len(),
            shown_columns(tables@, name@) == shown_columns(tables@.skip(i as int), name@),
        decreases tables@.len() - i,
    {
        assert(tables@.skip(i as int)[0] == tables@[i as int]);
        assert(tables@.skip(i as int).skip(1) =~= tables@.skip(i + 1));
        if same(tables[i].name.as_str(), name) {
            return list_columns(&tables[i].columns);
        }
        i = i + 1;
    }
    let out: Vec<ColumnSpec> = Vec::new();
    assert(columns_view(out@) =~= Seq::empty());
    out
}

impl LazyCatalogSource for SqliteCatalogSource {
    /// The one database [`DB_NAME`].
    fn databases(&self) -> (r: Result<Vec<DatabaseDef>, SourceError>)
        ensures
            r is Ok,
            r->Ok_0@.len() == 1,
            r->Ok_0@[0].oid == DB_OID,
            r->Ok_0@[0].datname@ == DB_NAME@,
            r->Ok_0@[0].datdba == 10,
            r->Ok_0@[0].is_plain(),
    {
        let row = LazyDatabaseRow::new(DB_OID, DB_NAME, 10);
        let mut out: Vec<DatabaseDef> = Vec::new();
        out.push(row);
        Ok(out)
    }

    /// The one schema [`SCHEMA_NAME`].
    fn schemas(&self, database: &str) -> (r: Result<Vec<SchemaDef>, SourceError>)
        ensures
            r is Ok,
            database@ == DB_NAME@ ==> r->Ok_0@.len() == 1 && r->Ok_0@[0].oid == SCHEMA_OID
                && r->Ok_0@[0].name@ == SCHEMA_NAME@ && r->Ok_0@[0].owner_oid is None,
            database@ != DB_NAME@ ==> r->Ok_0@.len() == 0,
    {
        let mut out: Vec<SchemaDef> = Vec::new();
        if same(database, DB_NAME) {
            out.push(SchemaDef::new(SCHEMA_OID, SCHEMA_NAME));
        }
        Ok(out)
    }

    fn relations(&self, database: &str, schema: &str) -> (r: Result<Vec<RelationDef>, SourceError>)
        ensures
            r is Ok,
            relation_views(r->Ok_0@) == if database@ == DB_NAME@ && schema@ == SCHEMA_NAME@ {
                shown_relations(self.tables@)
            } else {
                Seq::empty()
            },
    {
        if same(database, DB_NAME) && same(schema, SCHEMA_NAME) {
            return Ok(relations_of(&self.tables));
        }
        let out: Vec<RelationDef> = Vec::new();
        assert(relation_views(out@) =~= Seq::empty());
        Ok(out)
    }

    fn columns(&self, database: &str, schema: &str, relation: &str) -> (r: Result<
        Vec<ColumnSpec>,
        SourceError,
    >)
        ensures
            r is Ok,
            columns_view(r->Ok_0@) == if database@ == DB_NAME@ && schema@ == SCHEMA_NAME@ {
                shown_columns(self.tables@, relation@)
            } else {
                Seq::empty()
            },
    {
        if same(database, DB_NAME) && same(schema, SCHEMA_NAME) {
            return Ok(columns_of(&self.tables, relation));
        }
        let out: Vec<ColumnSpec> = Vec::new();
        assert(columns_view(out@) =~= Seq::empty());
        Ok(out)
    }
}

/// A text with each quote doubled.
pub open spec fn doubled(s: Seq<char>) -> Seq<char>
    decreases s.len(),
{
    if s.len() == 0 {
        Seq::empty()
    } else if s.last() == '"' {
        doubled(s.drop_last()).push('"').push('"')
    } else {
        doubled(s.drop_last()).push(s.last())
    }
}

/// The statement that lists the columns of a table.
pub fn table_info_query(table: &str) -> (r: String)
    ensures
        r@ == "PRAGMA table_info(\""@ + doubled(table@) + "\")"@,
{
    let v = chars(table);
    let mut name = String::new();
    let mut i: usize = 0;
    assert(v@.take(0) =~= Seq::empty());
    while i < v.len()
        invariant
            i <= v@.len(),
            v@ == table@,
            name@ == doubled(v@.take(i as int)),
        decreases v@.len() - i,
    {
        assert(v@.take(i + 1).drop_last() =~= v@.take(i as int));
        assert(v@.take(i + 1).last() == v@[i as int]);
        name.push(v[i]);
        if v[i] == '"' {
            name.push('"');
        }
        i = i + 1;
    }
    assert(v@.take(i as int) =~= v@);
    let mut out = "PRAGMA table_info(\"".to_owned();
    out.append(name.as_str());
    out.append("\")");
    out
}

/// The first word of a text: what stands after leading space, up to the next space.
pub open spec fn first_word(s: Seq<char>) -> Seq<char>
    decreases s.len(),
{
    if s.len() > 0 && is_space(s[0]) {
        first_word(s.skip(1))
    } else {
        up_to_space(s)
    }
}

/// What stands before the first space.
pub open spec fn up_to_space(s: Seq<char>) -> Seq<char>
    decreases s.len(),
{
    if s.len() == 0 || is_space(s[0]) {
        Seq::empty()
    } else {
        seq![s[0]] + up_to_space(s.skip(1))
    }
}

/// What is reported of a statement that has no rows and begins with `verb`, in capitals: for
/// one that changes rows, how many it changed.
pub open spec fn status(verb: Seq<char>, affected: u64) -> Seq<char> {
    if verb == "INSERT"@ || verb == "UPDATE"@ || verb == "DELETE"@ {
        "OK ("@ + decimal(affected as nat) + " row(s) affected)"@
    } else {
        "OK"@
    }
}

fn take_first_word(query: &str) -> (r: String)
    ensures
        r@ == first_word(query@),
{
    let v = chars(query);
    let mut i: usize = 0;
    assert(v@.skip(0) =~= v@);
    while i < v.len() && space(v[i])
        invariant
            i <= v@.len(),
            v@ == query@,
            first_word(query@) == first_word(v@.skip(i as int)),
        decreases v@.len() - i,
    {
        assert(v@.skip(i as int)[0] == v@[i as int]);
        assert(v@.skip(i as int).skip(1) =~= v@.skip(i + 1));
        i = i + 1;
    }
    proof {
        if i < v@.len() {
            assert(v@.skip(i as int)[0] == v@[i as int]);
        }
    }
    let mut out = String::new();
    assert(out@ + up_to_space(v@.skip(i as int)) =~= up_to_space(v@.skip(i as int)));
    while i < v.len() && !space(v[i])
        invariant
            i <= v@.len(),
            v@ == query@,
            first_word(query@) == out@ + up_to_space(v@.skip(i as int)),
        decreases v@.len() - i,
    {
        let ghost rest = v@.skip(i as int);
        assert(rest[0] == v@[i as int]);
        assert(rest.skip(1) =~= v@.skip(i + 1));
        assert(out@ + (seq![rest[0]] + up_to_space(v@.skip(i + 1))) =~= out@.push(rest[0])
            + up_to_space(v@.skip(i + 1)));
        out.push(v[i]);
        i = i + 1;
    }
    proof {
        if i < v@.len() {
            assert(v@.skip(i as int)[0] == v@[i as int]);
        }
        assert(out@ + Seq::<char>::empty() =~= out@);
    }
    out
}

/// What is reported of a statement without rows that changed `affected` rows.
pub fn statement_status(query: &str, affected: u64) -> (r: String)
    ensures
        r@ == status(uppercased(first_word(query@)), affected),
{
    let word = take_first_word(query);
    let verb = to_uppercase(word.as_str());
    let v = verb.as_str();
    if same(v, "INSERT") || same(v, "UPDATE") || same(v, "DELETE") {
        let mut out = "OK (".to_owned();
        out.append(decimal_text(affected).as_str());
        out.append(" row(s) affected)");
        out
    } else {
        "OK".to_owned()
    }
}

/// A text without the semicolons at its end.
pub open spec fn without_semicolons(s: Seq<char>) -> Seq<char>
    decreases s.len(),
{
    if s.len() > 0 && s.last() == ';' {
        without_semicolons(s.drop_last())
    } else {
        s
    }
}

/// What a line of the prompt asks for.
#[derive(Debug, PartialEq, Eq)]
pub enum Line {
    Empty,
    Quit,
    Statement(String),
}

/// The statement of a line, without what ends it.
pub open spec fn line_statement(line: Seq<char>) -> Seq<char> {
    trimmed(Trim::Space, without_semicolons(trimmed(Trim::Space, line)))
}

/// Whether a line asks to leave the prompt.
pub open spec fn is_quit(statement: Seq<char>) -> bool {
    statement == "\\q"@ || same_ignoring_case(statement, "quit"@) || same_ignoring_case(
        statement,
        "exit"@,
    )
}

/// Reads a line of the prompt.
pub fn read_line(line: &str) -> (r: Line)
    ensures
        match r {
            Line::Empty => line_statement(line@).len() == 0,
            Line::Quit => line_statement(line@).len() > 0 && is_quit(line_statement(line@)),
            Line::Statement(s) => {
                &&& s@ == line_statement(line@)
                &&& s@.len() > 0
                &&& !is_quit(s@)
            },
        },
{
    let outer = trim(Trim::Space, line);
    let v = chars(outer.as_str());
    let mut n: usize = v.len();
    assert(v@.take(n as int) =~= v@);
    while n > 0 && v[n - 1] == ';'
        invariant
            n <= v@.len(),
            v@ == outer@,
            without_semicolons(outer@) == without_semicolons(v@.take(n as int)),
        decreases n,
    {
        assert(v@.take(n as int).drop_last() =~= v@.take(n - 1));
        n = n - 1;
    }
    let inner = slice_text(&v, 0, n);
    assert(inner@ =~= v@.take(n as int));
    assert(without_semicolons(inner@) == inner@);
    let statement = trim(Trim::Space, inner.as_str());
    let s = statement.as_str();
    if chars(s).len() == 0 {
        return Line::Empty;
    }
    if same(s, "\\q") || eq_ignoring_case(s, "quit") || eq_ignoring_case(s, "exit") {
        return Line::Quit;
    }
    Line::Statement(statement)
}

/// The OIDs of tables, of row types, and of the database and its schema are apart from each
/// other.
pub proof fn oids_are_apart(a: Seq<char>, b: Seq<char>)
    ensures
        table_oid(a) != row_type_oid(b),
        table_oid(a) != DB_OID,
        table_oid(a) != SCHEMA_OID,
        row_type_oid(a) != DB_OID,
        row_type_oid(a) != SCHEMA_OID,
{
}

/// The OID of a table is one of five thousand from 20000 on, and that of its row type is as far
/// from
/// 30000.
pub proof fn oids_go_together(name: Seq<char>)
    ensures
        20000 <= table_oid(name) < 25000,
        row_type_oid(name) - 30000 == table_oid(name) - 20000,
{
}

/// One byte more makes the hash 33 times what it was, and the byte, modulo 2^32; nothing has the
/// hash 5381.
pub proof fn hashes_go_on(s: Seq<u8>, b: u8)
    ensures
        hash_of(Seq::empty()) == 5381,
        hash_of(s.push(b)) == (33 * hash_of(s) + b) % 4294967296,
{
    assert(s.push(b).drop_last() =~= s);
}

/// A column whose declared type speaks of an integer, in any case, is shown as `int4`, and any
/// other
/// as `text`; it keeps its name, and it is nullable exactly if it was not declared otherwise.
pub proof fn columns_are_shown_as_declared(info: Seq<TableInfo>, i: int)
    requires
        0 <= i < info.len(),
    ensures
        column_specs(info).len() == info.len(),
        column_specs(info)[i].name == info[i].name@,
        column_specs(info)[i].nullable <==> info[i].notnull == 0,
        !column_specs(info)[i].has_default,
        (exists|k: int| #[trigger] holds_at(uppercased(info[i].decl_type@), "INT"@, k))
            ==> column_specs(info)[i].type_oid == 23,
        (forall|k: int| !#[trigger] holds_at(uppercased(info[i].decl_type@), "INT"@, k))
            ==> column_specs(info)[i].type_oid == 25,
{
    let declared = uppercased(info[i].decl_type@);
    first_part_is_found(declared, "INT"@);
}

/// Every table is shown as a table under its name, with the OIDs that the name decides.
pub proof fn tables_are_shown(tables: Seq<SqliteTable>, i: int)
    requires
        0 <= i < tables.len(),
    ensures
        shown_relations(tables).len() == tables.len(),
        shown_relations(tables)[i].name == tables[i].name@,
        shown_relations(tables)[i].kind is Table,
        shown_relations(tables)[i].oid == table_oid(tables[i].name@),
        shown_relations(tables)[i].reltype_oid == row_type_oid(tables[i].name@),
{
}

/// The columns that are shown of a table are those of the first table of its name, and none if
/// there
/// is no such table.
pub proof fn columns_of_the_first_table_are_shown(tables: Seq<SqliteTable>, name: Seq<char>, i: int)
    requires
        0 <= i <= tables.len(),
        forall|j: int| 0 <= j < i ==> (#[trigger] tables[j]).name@ != name,
        i < tables.len() ==> tables[i].name@ == name,
    ensures
        shown_columns(tables, name) == if i < tables.len() {
            column_specs(tables[i].columns@)
        } else {
            Seq::empty()
        },
    decreases i,
{
    if i > 0 {
        let rest = tables.skip(1);
        assert(tables[0].name@ != name);
        assert forall|j: int| 0 <= j < i - 1 implies (#[trigger] rest[j]).name@ != name by {
            assert(rest[j] == tables[j + 1]);
        }
        columns_of_the_first_table_are_shown(rest, name, i - 1);
    }
}

/// What a text with doubled quotes says.
pub open spec fn undoubled(s: Seq<char>) -> Seq<char>
    decreases s.len(),
{
    if s.len() == 0 {
        Seq::empty()
    } else if s.len() >= 2 && s.last() == '"' && s[s.len() - 2] == '"' {
        undoubled(s.drop_last().drop_last()).push('"')
    } else {
        undoubled(s.drop_last()).push(s.last())
    }
}

/// A text whose quotes are doubled is read back.
pub proof fn doubled_quotes_are_read_back(s: Seq<char>)
    ensures
        undoubled(doubled(s)) == s,
    decreases s.len(),
{
    if s.len() > 0 {
        let front = s.drop_last();
        doubled_quotes_are_read_back(front);
        let d = doubled(front);
        if s.last() == '"' {
            let t = d.push('"').push('"');
            assert(t.drop_last().drop_last() =~= d);
            assert(front.push('"') =~= s);
        } else {
            assert(d.push(s.last()).drop_last() =~= d);
            assert(front.push(s.last()) =~= s);
        }
    } else {
        assert(doubled(s) =~= Seq::empty());
        assert(s =~= Seq::empty());
    }
}

proof fn word_ends_at_space(word: Seq<char>, after: Seq<char>)
    requires
        forall|i: int| 0 <= i < word.len() ==> !is_space(#[trigger] word[i]),
        after.len() > 0 ==> is_space(after[0]),
    ensures
        up_to_space(word + after) == word,
    decreases word.len(),
{
    let s = word + after;
    if word.len() == 0 {
        assert(s =~= after);
        assert(word =~= Seq::empty());
    } else {
        assert(s[0] == word[0]);
        assert(s.skip(1) =~= word.skip(1) + after);
        word_ends_at_space(word.skip(1), after);
        assert(seq![word[0]] + word.skip(1) =~= word);
    }
}

/// The first word of a text is what stands between the space before it and the space behind it.
pub proof fn first_word_is_found(before: Seq<char>, word: Seq<char>, after: Seq<char>)
    requires
        forall|i: int| 0 <= i < before.len() ==> is_space(#[trigger] before[i]),
        word.len() > 0,
        forall|i: int| 0 <= i < word.len() ==> !is_space(#[trigger] word[i]),
        after.len() > 0 ==> is_space(after[0]),
    ensures
        first_word(before + word + after) == word,
    decreases before.len(),
{
    let s = before + word + after;
    if before.len() == 0 {
        assert(s =~= word + after);
        assert(s[0] == word[0]);
        word_ends_at_space(word, after);
    } else {
        assert(s[0] == before[0]);
        assert(s.skip(1) =~= before.skip(1) + word + after);
        first_word_is_found(before.skip(1), word, after);
    }
}

/// A statement that changes rows is reported with their number, and any other without one.
pub proof fn changes_are_counted(verb: Seq<char>, affected: u64)
    ensures
        verb == "INSERT"@ || verb == "UPDATE"@ || verb == "DELETE"@ ==> ({
            let s = status(verb, affected);
            let digits = s.subrange(4, s.len() - 17);
            &&& spelled(digits) == affected
            &&& s == "OK ("@ + digits + " row(s) affected)"@
        }),
        verb != "INSERT"@ && verb != "UPDATE"@ && verb != "DELETE"@ ==> status(verb, affected)
            == "OK"@,
{
    decimal_is_read_back(affected as nat);
    reveal_strlit("OK (");
    reveal_strlit(" row(s) affected)");
    assert("OK ("@.len() == 4);
    assert(" row(s) affected)"@.len() == 17);
    let s = "OK ("@ + decimal(affected as nat) + " row(s) affected)"@;
    assert(s.subrange(4, s.len() - 17) =~= decimal(affected as nat));
}

proof fn semicolons_go(s: Seq<char>, n: nat)
    requires
        s.len() > 0 ==> s.last() != ';',
    ensures
        without_semicolons(s + Seq::new(n, |i: int| ';')) == s,
    decreases n,
{
    let t = s + Seq::new(n, |i: int| ';');
    if n == 0 {
        assert(t =~= s);
    } else {
        let fewer = Seq::new((n - 1) as nat, |i: int| ';');
        assert(t.last() == ';');
        assert(t.drop_last() =~= s + fewer);
        semicolons_go(s, (n - 1) as nat);
    }
}

/// The statement of a line is what stands on it, without the semicolons behind it and the space
/// around it.
pub proof fn statement_is_read(before: Seq<char>, s: Seq<char>, n: nat, after: Seq<char>)
    requires
        forall|i: int| 0 <= i < before.len() ==> is_space(#[trigger] before[i]),
        forall|i: int| 0 <= i < after.len() ==> is_space(#[trigger] after[i]),
        s.len() > 0,
        !is_space(s[0]),
        !is_space(s.last()),
        s.last() != ';',
    ensures
        line_statement(before + s + Seq::new(n, |i: int| ';') + after) == s,
{
    let t = s + Seq::new(n, |i: int| ';');
    assert(t[0] == s[0]);
    assert(t.last() == s.last() || t.last() == ';');
    assert(before + s + Seq::new(n, |i: int| ';') + after =~= before + t + after);
    ends_are_trimmed(Trim::Space, before, t, after);
    semicolons_go(s, n);
    let none = Seq::<char>::empty();
    assert(none + s + none =~= s);
    ends_are_trimmed(Trim::Space, none, s, none);
}

/// The catalog shows the database `appdb` and, in it, the schema `public`, under the first two OIDs
/// of
/// user objects.
pub proof fn database_and_schema_are_named()
    ensures
        DB_NAME@ == "appdb"@,
        DB_OID == 16384,
        SCHEMA_NAME@ == "public"@,
        SCHEMA_OID == 16385,
{
}

} // verus!
