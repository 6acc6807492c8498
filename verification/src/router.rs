//! Which statements read the catalog.
//!
//! Statements that touch `pg_catalog` or `information_schema` are answered here; all others
//! go to the handler of the application.
use crate::sql::ast::{get_ident_text, ident_text, mk_name_part, name_part};
use crate::sql::parse::{parse, print, printed, statements_of, SqlDialect, SqlError, SqlFault};
use crate::sql::tree::{variant, Syntax, Tree};
use crate::sql::walk::{
    nodes_in_fields, nodes_in_items, nodes_walked, start, start_view, walk, walk_nodes, walked,
    Pass, Progress, ProgressView, Rule,
};
use crate::text::{
    contains, eq_ignoring_case, same, same_ignoring_case, split, split_text, trim, trimmed, views,
    Trim,
};
use vstd::prelude::*;

verus! {

// --- the search path ------------------------------------------------------------------------

/// The schemas among the first `n` pieces of a search path: without white space and quotes,
/// and without empty pieces.
pub open spec fn path_pieces(s: Seq<Seq<char>>, n: nat) -> Seq<Seq<char>>
    decreases n,
{
    if n == 0 {
        Seq::empty()
    } else {
        let done = path_pieces(s, (n - 1) as nat);
        let piece = trimmed(Trim::Space, s[n - 1]);
        if piece.len() == 0 {
            done
        } else {
            done.push(trimmed(Trim::DoubleQuotes, piece))
        }
    }
}

/// Whether `pg_catalog` is among the schemas, in any case.
pub open spec fn lists_catalog(s: Seq<Seq<char>>) -> bool {
    exists|i: int| 0 <= i < s.len() && same_ignoring_case(#[trigger] s[i], "pg_catalog"@)
}

/// The schemas of a search path: those that it lists, after `pg_catalog` unless it lists that
/// too.
pub open spec fn search_path(path: Seq<char>) -> Seq<Seq<char>> {
    let pieces = split(path, ',');
    let listed = path_pieces(pieces, pieces.len());
    if lists_catalog(listed) {
        listed
    } else {
        seq!["pg_catalog"@] + listed
    }
}

/// The schemas of a search path.
pub fn parse_search_path(path: &str) -> (r: Vec<String>)
    ensures
        views(r@) == search_path(path@),
{
    let pieces = split_text(path, ',');
    let ghost s = views(pieces@);
    assert(s.len() == pieces@.len());
    let mut listed: Vec<String> = Vec::new();
    let mut found = false;
    let mut i: usize = 0;
    assert(views(listed@) =~= Seq::empty());
    while i < pieces.len()
        invariant
            i <= pieces@.len(),
            s == views(pieces@),
            views(listed@) == path_pieces(s, i as nat),
            found == lists_catalog(views(listed@)),
        decreases pieces@.len() - i,
    {
        assert(s[i as int] == pieces@[i as int]@);
        let piece = trim(Trim::Space, pieces[i].as_str());
        if !piece.as_str().is_empty() {
            let name = trim(Trim::DoubleQuotes, piece.as_str());
            let ghost before = views(listed@);
            let here = eq_ignoring_case(name.as_str(), "pg_catalog");
            listed.push(name);
            let ghost after = views(listed@);
            assert(after =~= before.push(name@));
            proof {
                if found {
                    let k = choose|k: int|
                        0 <= k < before.len() && same_ignoring_case(
                            #[trigger] before[k],
                            "pg_catalog"@,
                        );
                    assert(after[k] == before[k]);
                }
                if here {
                    assert(same_ignoring_case(after[before.len() as int], "pg_catalog"@));
                }
                if lists_catalog(after) && !here {
                    let k = choose|k: int|
                        0 <= k < after.len() && same_ignoring_case(
                            #[trigger] after[k],
                            "pg_catalog"@,
                        );
                    assert(before[k] == after[k]);
                }
            }
            found = found || here;
        }
        i = i + 1;
    }
    if found {
        return listed;
    }
    let ghost rest = views(listed@);
    listed.insert(0, "pg_catalog".to_owned());
    assert(views(listed@) =~= seq!["pg_catalog"@] + rest);
    listed
}

// --- what the session knows ------------------------------------------------------------------

/// A table, by its catalog, its schema and its name.
#[derive(Debug)]
pub struct TablePath {
    pub catalog: String,
    pub schema: String,
    pub table: String,
}

/// What a [`TablePath`] says.
pub struct TablePathView {
    pub catalog: Seq<char>,
    pub schema: Seq<char>,
    pub table: Seq<char>,
}

impl View for TablePath {
    type V = TablePathView;

    open spec fn view(&self) -> TablePathView {
        TablePathView { catalog: self.catalog@, schema: self.schema@, table: self.table@ }
    }
}

/// What a session knows of its tables and functions.
#[derive(Debug)]
pub struct Session {
    pub default_catalog: String,
    pub default_schema: String,
    /// The search path that the client set, if it did.
    pub search_path: Option<String>,
    pub tables: Vec<TablePath>,
    /// The functions of every kind, each by its schema, a dot and its name.
    pub functions: Vec<String>,
}

/// What a [`Session`] says.
pub struct SessionView {
    pub default_catalog: Seq<char>,
    pub default_schema: Seq<char>,
    pub search_path: Option<Seq<char>>,
    pub tables: Seq<TablePathView>,
    pub functions: Seq<Seq<char>>,
}

impl View for Session {
    type V = SessionView;

    open spec fn view(&self) -> SessionView {
        SessionView {
            default_catalog: self.default_catalog@,
            default_schema: self.default_schema@,
            search_path: match self.search_path {
                Some(s) => Some(s@),
                None => None,
            },
            tables: Seq::new(self.tables@.len(), |i: int| self.tables@[i]@),
            functions: views(self.functions@),
        }
    }
}

impl SessionView {
    /// Whether there is a table of that name.
    pub open spec fn has_table(
        self,
        catalog: Seq<char>,
        schema: Seq<char>,
        table: Seq<char>,
    ) -> bool {
        exists|i: int|
            0 <= i < self.tables.len() && #[trigger] self.tables[i] == (TablePathView {
                catalog,
                schema,
                table,
            })
    }

    /// The schemas that a bare name is looked up in, in order.
    pub open spec fn path(self) -> Seq<Seq<char>> {
        match self.search_path {
            Some(s) => crate::router::search_path(s),
            None => seq!["pg_catalog"@, self.default_schema],
        }
    }

    /// The schema that an entry of the search path stands for.
    pub open spec fn entry_schema(self, entry: Seq<char>) -> Seq<char> {
        if entry == "$user"@ {
            self.default_schema
        } else {
            entry
        }
    }

    /// The first schema of `path`, from the entry `i` on, that has the table.
    pub open spec fn schema_with(self, path: Seq<Seq<char>>, i: nat, table: Seq<char>) -> Option<
        Seq<char>,
    >
        decreases path.len() - i,
    {
        if i >= path.len() {
            None
        } else if self.has_table(
            self.default_catalog,
            self.entry_schema(path[i as int]),
            table,
        ) {
            Some(self.entry_schema(path[i as int]))
        } else {
            self.schema_with(path, i + 1, table)
        }
    }

    /// The schema of the table with these name parts, if there is such a table: the first on
    /// the search path for a bare name.
    pub open spec fn schema_of(self, parts: Seq<Seq<char>>) -> Option<Seq<char>> {
        if parts.len() == 0 {
            None
        } else if parts.len() == 1 {
            self.schema_with(self.path(), 0, parts[0])
        } else if parts.len() == 2 {
            if self.has_table(self.default_catalog, parts[0], parts[1]) {
                Some(parts[0])
            } else {
                None
            }
        } else if self.has_table(parts[0], parts[1], parts[2]) {
            Some(parts[1])
        } else {
            None
        }
    }

    /// Whether there is a function of that schema and name.
    pub open spec fn has_function(self, schema: Seq<char>, name: Seq<char>) -> bool {
        self.functions.contains(schema + "."@ + name)
    }

    /// Whether the function with these name parts is one of the catalog.
    pub open spec fn is_catalog_function(self, parts: Seq<Seq<char>>) -> bool {
        if parts.len() == 1 {
            self.has_function("pg_catalog"@, parts[0]) || self.has_function(
                "information_schema"@,
                parts[0],
            )
        } else if parts.len() == 2 {
            is_catalog_schema(parts[0]) && self.has_function(parts[0], parts[1])
        } else if parts.len() == 3 {
            is_catalog_schema(parts[1]) && self.has_function(parts[1], parts[2])
        } else {
            false
        }
    }
}

/// Whether `schema` is `pg_catalog` or `information_schema`, in any case.
pub open spec fn is_catalog_schema(schema: Seq<char>) -> bool {
    same_ignoring_case(schema, "pg_catalog"@) || same_ignoring_case(schema, "information_schema"@)
}

fn schema_is_catalog(schema: &str) -> (r: bool)
    ensures
        r == is_catalog_schema(schema@),
{
    eq_ignoring_case(schema, "pg_catalog") || eq_ignoring_case(schema, "information_schema")
}

/// The identifiers among the first `n` parts of a name.
pub open spec fn ident_parts(s: Seq<Syntax>, n: nat) -> Seq<Seq<char>>
    decreases n,
{
    if n == 0 {
        Seq::empty()
    } else {
        let done = ident_parts(s, (n - 1) as nat);
        match s[n - 1].payload("Identifier"@) {
            Some(id) => match ident_text(id) {
                Some(text) => done.push(text),
                None => done,
            },
            None => done,
        }
    }
}

/// The identifiers of a name.
pub open spec fn name_parts(name: Syntax) -> Seq<Seq<char>> {
    ident_parts(name.items(), name.items().len())
}

fn get_name_parts(name: &Tree) -> (r: Vec<String>)
    ensures
        views(r@) == name_parts(name@),
{
    let n: usize = name.len();
    let ghost s = name@.items();
    let mut out: Vec<String> = Vec::new();
    let mut i: usize = 0;
    assert(views(out@) =~= Seq::empty());
    while i < n
        invariant
            i <= n,
            n == s.len(),
            s == name@.items(),
            views(out@) == ident_parts(s, i as nat),
        decreases n - i,
    {
        if let Some(id) = name.item(i).payload("Identifier") {
            if let Some(text) = get_ident_text(id) {
                let ghost before = views(out@);
                out.push(text.clone());
                assert(views(out@) =~= before.push(text@));
            }
        }
        i = i + 1;
    }
    out
}

impl Session {
    fn table_exists(&self, catalog: &str, schema: &str, table: &str) -> (r: bool)
        ensures
            r == self@.has_table(catalog@, schema@, table@),
    {
        let ghost want = TablePathView { catalog: catalog@, schema: schema@, table: table@ };
        let mut i: usize = 0;
        while i < self.tables.len()
            invariant
                i <= self.tables@.len(),
                want == (TablePathView { catalog: catalog@, schema: schema@, table: table@ }),
                forall|j: int| 0 <= j < i ==> #[trigger] self@.tables[j] != want,
            decreases self.tables@.len() - i,
        {
            let t = &self.tables[i];
            assert(self@.tables[i as int] == t@);
            if same(t.catalog.as_str(), catalog) && same(t.schema.as_str(), schema) && same(
                t.table.as_str(),
                table,
            ) {
                assert(self@.tables[i as int] == want);
                return true;
            }
            i = i + 1;
        }
        false
    }

    fn path(&self) -> (r: Vec<String>)
        ensures
            views(r@) == self@.path(),
    {
        match &self.search_path {
            Some(s) => parse_search_path(s.as_str()),
            None => {
                let mut v: Vec<String> = Vec::new();
                v.push("pg_catalog".to_owned());
                v.push(self.default_schema.clone());
                assert(views(v@) =~= seq!["pg_catalog"@, self@.default_schema]);
                v
            },
        }
    }

    fn schema_on_path(&self, table: &str) -> (r: Option<String>)
        ensures
            match r {
                Some(s) => self@.schema_with(self@.path(), 0, table@) == Some(s@),
                None => self@.schema_with(self@.path(), 0, table@) is None,
            },
    {
        let path = self.path();
        let ghost p = views(path@);
        let mut i: usize = 0;
        while i < path.len()
            invariant
                i <= path@.len(),
                p == views(path@),
                p == self@.path(),
                self@.schema_with(p, 0, table@) == self@.schema_with(p, i as nat, table@),
            decreases path@.len() - i,
        {
            assert(p[i as int] == path@[i as int]@);
            let schema = if same(path[i].as_str(), "$user") {
                self.default_schema.clone()
            } else {
                path[i].clone()
            };
            if self.table_exists(self.default_catalog.as_str(), schema.as_str(), table) {
                return Some(schema);
            }
            i = i + 1;
        }
        assert(p.len() == path@.len());
        None
    }

    /// The schema of the table `name`, if there is such a table.
    pub fn resolve_schema(&self, name: &Tree) -> (r: Option<String>)
        ensures
            match r {
                Some(s) => self@.schema_of(name_parts(name@)) == Some(s@),
                None => self@.schema_of(name_parts(name@)) is None,
            },
    {
        let parts = get_name_parts(name);
        let ghost p = views(parts@);
        let n: usize = parts.len();
        assert(p.len() == n);
        if n == 0 {
            None
        } else if n == 1 {
            assert(p[0] == parts@[0]@);
            self.schema_on_path(parts[0].as_str())
        } else if n == 2 {
            assert(p[0] == parts@[0]@ && p[1] == parts@[1]@);
            if self.table_exists(
                self.default_catalog.as_str(),
                parts[0].as_str(),
                parts[1].as_str(),
            ) {
                Some(parts[0].clone())
            } else {
                None
            }
        } else {
            assert(p[0] == parts@[0]@ && p[1] == parts@[1]@ && p[2] == parts@[2]@);
            if self.table_exists(parts[0].as_str(), parts[1].as_str(), parts[2].as_str()) {
                Some(parts[1].clone())
            } else {
                None
            }
        }
    }

    fn function_registered(&self, schema: &str, name: &str) -> (r: bool)
        ensures
            r == self@.has_function(schema@, name@),
    {
        let mut full = schema.to_owned();
        full.append(".");
        full.append(name);
        contains(&self.functions, full.as_str())
    }

    fn function_is_catalog(&self, name: &Tree) -> (r: bool)
        ensures
            r == self@.is_catalog_function(name_parts(name@)),
    {
        let parts = get_name_parts(name);
        let ghost p = views(parts@);
        let n: usize = parts.len();
        assert(p.len() == n);
        if n == 1 {
            assert(p[0] == parts@[0]@);
            self.function_registered("pg_catalog", parts[0].as_str()) || self.function_registered(
                "information_schema",
                parts[0].as_str(),
            )
        } else if n == 2 {
            assert(p[0] == parts@[0]@ && p[1] == parts@[1]@);
            schema_is_catalog(parts[0].as_str()) && self.function_registered(
                parts[0].as_str(),
                parts[1].as_str(),
            )
        } else if n == 3 {
            assert(p[1] == parts@[1]@ && p[2] == parts@[2]@);
            schema_is_catalog(parts[1].as_str()) && self.function_registered(
                parts[1].as_str(),
                parts[2].as_str(),
            )
        } else {
            false
        }
    }
}

// --- catalog tables -------------------------------------------------------------------------

/// Whether `name` is a table of the catalog.
pub open spec fn is_catalog_table(s: SessionView, name: Syntax) -> bool {
    match s.schema_of(name_parts(name)) {
        Some(schema) => is_catalog_schema(schema),
        None => false,
    }
}

/// A name that refers to no table, as the name of a table that is being made.
pub open spec fn unreferred(name: Syntax) -> Syntax {
    match name {
        Syntax::Relation(b) => *b,
        _ => name,
    }
}

/// A statement that makes a table, with a name that refers to none; any other as it is.
pub open spec fn made_table_unreferred(e: Syntax) -> Syntax {
    match (e.payload("CreateTable"@), e.payload("CreateVirtualTable"@)) {
        (Some(c), _) => variant("CreateTable"@, c.with("name"@, unreferred(c.at("name"@)))),
        (_, Some(c)) => variant(
            "CreateVirtualTable"@,
            c.with("name"@, unreferred(c.at("name"@))),
        ),
        _ => e,
    }
}

/// [`made_table_unreferred`] of each statement, as a rule.
pub open spec fn made_table_rule() -> Rule {
    |st: ProgressView, t: Syntax|
        (
            st,
            match t {
                Syntax::Statement(e) => Syntax::Statement(Box::new(made_table_unreferred(*e))),
                _ => t,
            },
        )
}

/// The names of tables that are being made refer to none.
pub struct MadeTables;

impl Pass for MadeTables {
    open spec fn rule(&self) -> Rule {
        made_table_rule()
    }

    fn apply(&self, st: &mut Progress, e: Tree) -> (r: Tree) {
        if let Tree::Statement(statement) = &e {
            if let Some(c) = statement.payload("CreateTable") {
                let made = c.with("name", mk_unreferred(c.at("name")));
                return Tree::Statement(Box::new(Tree::variant("CreateTable", made)));
            }
            if let Some(c) = statement.payload("CreateVirtualTable") {
                let made = c.with("name", mk_unreferred(c.at("name")));
                return Tree::Statement(Box::new(Tree::variant("CreateVirtualTable", made)));
            }
        }
        e
    }
}

fn mk_unreferred(name: &Tree) -> (r: Tree)
    ensures
        r@ == unreferred(name@),
{
    match name {
        Tree::Relation(b) => b.copy(),
        _ => name.copy(),
    }
}

/// Statements in which only the names that refer to a table are marked as such: the name of a
/// table that is being made is none of them.
pub open spec fn referring(t: Syntax) -> Syntax {
    nodes_walked(made_table_rule(), start_view(), t).1
}

fn mk_referring(t: &Tree) -> (r: Tree)
    ensures
        r@ == referring(t@),
{
    let mut st = start();
    walk_nodes(&MadeTables, &mut st, t)
}

/// Notes whether a node is the name of a table of the catalog.
pub open spec fn table_noted(s: SessionView, st: ProgressView, t: Syntax) -> (
    ProgressView,
    Syntax,
) {
    match t {
        Syntax::Relation(name) => if is_catalog_table(s, *name) {
            (st.mark(), t)
        } else {
            (st, t)
        },
        _ => (st, t),
    }
}

/// [`table_noted`] as a rule.
pub open spec fn table_noted_rule(s: SessionView) -> Rule {
    |st: ProgressView, t: Syntax| table_noted(s, st, t)
}

/// Looks for tables of the catalog.
pub struct FindTables<'a> {
    pub session: &'a Session,
}

impl<'a> Pass for FindTables<'a> {
    open spec fn rule(&self) -> Rule {
        table_noted_rule(self.session@)
    }

    fn apply(&self, st: &mut Progress, e: Tree) -> (r: Tree) {
        if let Tree::Relation(name) = &e {
            if let Some(schema) = self.session.resolve_schema(name) {
                if schema_is_catalog(schema.as_str()) {
                    st.mark();
                }
            }
        }
        e
    }
}

/// Notes whether an expression calls a function of the catalog.
pub open spec fn call_noted(s: SessionView, st: ProgressView, e: Syntax) -> (
    ProgressView,
    Syntax,
) {
    match e.payload("Function"@) {
        Some(f) => if s.is_catalog_function(name_parts(f.at("name"@))) {
            (st.mark(), e)
        } else {
            (st, e)
        },
        None => (st, e),
    }
}

/// [`call_noted`] as a rule.
pub open spec fn call_noted_rule(s: SessionView) -> Rule {
    |st: ProgressView, e: Syntax| call_noted(s, st, e)
}

/// Looks for calls of functions of the catalog.
pub struct FindCalls<'a> {
    pub session: &'a Session,
}

impl<'a> Pass for FindCalls<'a> {
    open spec fn rule(&self) -> Rule {
        call_noted_rule(self.session@)
    }

    fn apply(&self, st: &mut Progress, e: Tree) -> (r: Tree) {
        if let Some(f) = e.payload("Function") {
            if self.session.function_is_catalog(f.at("name")) {
                st.mark();
            }
        }
        e
    }
}

/// Whether a statement names a table of the catalog, wherever that is: in its own clauses, in
/// common table expressions, or in subqueries of any expression. The name of a table that it
/// makes is not meant.
pub open spec fn names_catalog(s: SessionView, t: Syntax) -> bool {
    nodes_walked(table_noted_rule(s), start_view(), referring(t)).0.changed
}

/// Whether a statement names a table of the catalog or calls a function of it.
pub open spec fn touches_catalog(s: SessionView, t: Syntax) -> bool {
    names_catalog(s, t) || walked(call_noted_rule(s), start_view(), t).0.changed
}

/// Whether the statement `t` touches the catalog; see [`touches_catalog`].
pub fn statement_has_catalog(session: &Session, t: &Tree) -> (r: bool)
    ensures
        r == touches_catalog(session@, t@),
{
    let mut st = start();
    let _ = walk_nodes(&FindTables { session }, &mut st, &mk_referring(t));
    if st.changed {
        return true;
    }
    let mut st = start();
    let _ = walk(&FindCalls { session }, &mut st, t);
    st.changed
}

/// The statements of a text, or why there are none.
pub open spec fn routed_statements(sql: Seq<char>) -> Result<Syntax, SqlFault> {
    match statements_of(SqlDialect::Postgres, sql) {
        Ok(t) => Ok(t),
        Err(SqlFault::Parse(why)) => Err(SqlFault::Plan("failed to parse SQL: "@ + why)),
        Err(e) => Err(e),
    }
}

fn parse_routed(sql: &str) -> (r: Result<Tree, SqlError>)
    ensures
        match r {
            Ok(t) => routed_statements(sql@) == Ok::<Syntax, SqlFault>(t@),
            Err(e) => routed_statements(sql@) == Err::<Syntax, SqlFault>(e@),
        },
{
    match parse(SqlDialect::Postgres, sql) {
        Ok(t) => Ok(t),
        Err(SqlError::Parse(why)) => {
            let mut text = "failed to parse SQL: ".to_owned();
            text.append(why.as_str());
            Err(SqlError::Plan(text))
        },
        Err(e) => Err(e),
    }
}

/// Whether some statement touches the catalog.
pub open spec fn any_touches(s: SessionView, t: Syntax) -> bool {
    exists|i: int| 0 <= i < t.items().len() && touches_catalog(s, #[trigger] t.items()[i])
}

/// Whether some statement of `t` touches the catalog.
pub fn any_statement_touches(session: &Session, t: &Tree) -> (r: bool)
    ensures
        r == any_touches(session@, t@),
{
    let n: usize = t.len();
    let ghost s = t@.items();
    let mut i: usize = 0;
    while i < n
        invariant
            i <= n,
            n == s.len(),
            s == t@.items(),
            forall|j: int| 0 <= j < i ==> !touches_catalog(session@, #[trigger] s[j]),
        decreases n - i,
    {
        if statement_has_catalog(session, t.item(i)) {
            assert(touches_catalog(session@, s[i as int]));
            return true;
        }
        i = i + 1;
    }
    false
}

/// Whether a text touches the catalog.
pub fn is_catalog_query(session: &Session, sql: &str) -> (r: Result<bool, SqlError>)
    ensures
        match r {
            Ok(b) => routed_statements(sql@) is Ok && b == any_touches(
                session@,
                routed_statements(sql@)->Ok_0,
            ),
            Err(e) => routed_statements(sql@) == Err::<Syntax, SqlFault>(e@),
        },
{
    match parse_routed(sql) {
        Ok(t) => Ok(any_statement_touches(session, &t)),
        Err(e) => Err(e),
    }
}

// --- qualified names ---------------------------------------------------------------------------

/// The name with the schema before it, if it is a bare name.
pub open spec fn with_schema(name: Syntax, schema: Seq<char>) -> Syntax {
    if name.items().len() == 1 {
        Syntax::List(seq![name_part(schema), name.items()[0]])
    } else {
        name
    }
}

/// The name of a table of the catalog with its schema; any other name as it is.
pub open spec fn qualified(s: SessionView, name: Syntax) -> Syntax {
    match s.schema_of(name_parts(name)) {
        Some(schema) => if is_catalog_schema(schema) {
            with_schema(name, schema)
        } else {
            name
        },
        None => name,
    }
}

/// The name of a table with its schema, if it is one of the catalog; any other node as it is.
pub open spec fn qualified_node(s: SessionView, t: Syntax) -> Syntax {
    match t {
        Syntax::Relation(name) => Syntax::Relation(Box::new(qualified(s, *name))),
        _ => t,
    }
}

/// [`qualified_node`] as a rule.
pub open spec fn qualify_rule(s: SessionView) -> Rule {
    |st: ProgressView, t: Syntax| (st, qualified_node(s, t))
}

/// Names of tables of the catalog get their schema.
pub struct Qualify<'a> {
    pub session: &'a Session,
}

impl<'a> Pass for Qualify<'a> {
    open spec fn rule(&self) -> Rule {
        qualify_rule(self.session@)
    }

    fn apply(&self, st: &mut Progress, e: Tree) -> (r: Tree) {
        if let Tree::Relation(name) = &e {
            if let Some(schema) = self.session.resolve_schema(name) {
                if schema_is_catalog(schema.as_str()) && name.len() == 1 {
                    let long = Tree::list2(mk_name_part(schema.as_str()), name.item(0).copy());
                    return Tree::Relation(Box::new(long));
                }
            }
        }
        e
    }
}

/// The statements with the names of the tables of the catalog qualified.
pub open spec fn qualified_statements(s: SessionView, t: Syntax) -> Syntax {
    nodes_walked(qualify_rule(s), start_view(), referring(t)).1
}

/// The statements with the names of the tables of the catalog qualified.
pub fn qualify_statements(session: &Session, t: &Tree) -> (r: Tree)
    ensures
        r@ == qualified_statements(session@, t@),
{
    let mut st = start();
    walk_nodes(&Qualify { session }, &mut st, &mk_referring(t))
}

/// The text with the names of the tables of the catalog qualified.
pub fn qualify_catalog_tables(session: &Session, sql: &str) -> (r: Result<String, SqlError>)
    ensures
        match routed_statements(sql@) {
            Ok(t) => match r {
                Ok(s) => printed(qualified_statements(session@, t), "; "@) == Ok::<
                    Seq<char>,
                    SqlFault,
                >(s@),
                Err(e) => printed(qualified_statements(session@, t), "; "@) == Err::<
                    Seq<char>,
                    SqlFault,
                >(e@),
            },
            Err(why) => r is Err && r->Err_0@ == why,
        },
{
    match parse_routed(sql) {
        Ok(t) => print(&qualify_statements(session, &t), "; "),
        Err(e) => Err(e),
    }
}

// --- where a statement goes ----------------------------------------------------------------------

/// Where a text is to be executed.
#[derive(Debug, PartialEq, Eq)]
pub enum Route {
    /// Here, with the tables of the catalog qualified.
    Catalog(String),
    /// By the handler of the application, as it is.
    Handler,
}

/// What a [`Route`] says.
pub enum RouteView {
    Catalog(Seq<char>),
    Handler,
}

impl View for Route {
    type V = RouteView;

    open spec fn view(&self) -> RouteView {
        match *self {
            Route::Catalog(s) => RouteView::Catalog(s@),
            Route::Handler => RouteView::Handler,
        }
    }
}

/// The route of a text: a text that touches the catalog is executed here.
pub open spec fn route(s: SessionView, sql: Seq<char>) -> Result<RouteView, SqlFault> {
    match routed_statements(sql) {
        Ok(t) => if any_touches(s, t) {
            match printed(qualified_statements(s, t), "; "@) {
                Ok(text) => Ok(RouteView::Catalog(text)),
                Err(e) => Err(e),
            }
        } else {
            Ok(RouteView::Handler)
        },
        Err(e) => Err(e),
    }
}

/// Decides where `sql` is to be executed: a text that names a table of the catalog or calls a
/// function of it here, any other by the handler of the application.
pub fn dispatch_query(session: &Session, sql: &str) -> (r: Result<Route, SqlError>)
    ensures
        match r {
            Ok(x) => route(session@, sql@) == Ok::<RouteView, SqlFault>(x@),
            Err(e) => route(session@, sql@) == Err::<RouteView, SqlFault>(e@),
        },
{
    match is_catalog_query(session, sql) {
        Ok(true) => match qualify_catalog_tables(session, sql) {
            Ok(text) => Ok(Route::Catalog(text)),
            Err(e) => Err(e),
        },
        Ok(false) => Ok(Route::Handler),
        Err(e) => Err(e),
    }
}

// --- laws -----------------------------------------------------------------------------------

/// `pg_catalog` is on every search path, whatever the client set.
pub proof fn catalog_is_on_every_path(s: SessionView)
    ensures
        lists_catalog(s.path()),
{
    match s.search_path {
        Some(path) => {
            let pieces = split(path, ',');
            let listed = path_pieces(pieces, pieces.len());
            if !lists_catalog(listed) {
                assert(same_ignoring_case(search_path(path)[0], "pg_catalog"@));
            }
        },
        None => {
            assert(same_ignoring_case(s.path()[0], "pg_catalog"@));
        },
    }
}

/// A bare name stands for the table in the first schema of the search path that has one of that
/// name: a user's table goes before one of the catalog that comes later on the path.
pub proof fn first_schema_wins(
    s: SessionView,
    path: Seq<Seq<char>>,
    i: nat,
    k: nat,
    table: Seq<char>,
)
    requires
        i <= k < path.len(),
        s.has_table(s.default_catalog, s.entry_schema(path[k as int]), table),
        forall|j: int|
            i <= j < k ==> !s.has_table(
                s.default_catalog,
                s.entry_schema(#[trigger] path[j]),
                table,
            ),
    ensures
        s.schema_with(path, i, table) == Some(s.entry_schema(path[k as int])),
    decreases k - i,
{
    if i < k {
        assert(!s.has_table(s.default_catalog, s.entry_schema(path[i as int]), table));
        first_schema_wins(s, path, i + 1, k, table);
    }
}

/// Where the client set no search path, the catalog goes before the default schema.
pub proof fn catalog_goes_first(s: SessionView, table: Seq<char>)
    requires
        s.search_path is None,
        s.has_table(s.default_catalog, "pg_catalog"@, table),
    ensures
        s.schema_of(seq![table]) == Some("pg_catalog"@),
{
    reveal_strlit("pg_catalog");
    reveal_strlit("$user");
    assert("pg_catalog"@.len() == 10);
    assert("$user"@.len() == 5);
    assert(s.path()[0] == "pg_catalog"@);
    first_schema_wins(s, s.path(), 0, 0, table);
}

/// A text that touches neither a table nor a function of the catalog goes to the handler, and
/// one that does never does.
pub proof fn only_catalog_texts_stay(s: SessionView, sql: Seq<char>)
    requires
        routed_statements(sql) is Ok,
    ensures
        route(s, sql) == Ok::<RouteView, SqlFault>(RouteView::Handler) <==> !any_touches(
            s,
            routed_statements(sql)->Ok_0,
        ),
{
}

/// Whether a node is, or holds anywhere, the name of a table of the catalog.
pub open spec fn mentions_catalog(s: SessionView, t: Syntax) -> bool
    decreases t,
{
    match t {
        Syntax::List(v) => exists|i: int| 0 <= i < v.len() && mentions_catalog(s, #[trigger] v[i]),
        Syntax::Record(f) => exists|i: int|
            0 <= i < f.len() && mentions_catalog(s, (#[trigger] f[i]).1),
        Syntax::Expr(b) => mentions_catalog(s, *b),
        Syntax::Statement(b) => mentions_catalog(s, *b),
        Syntax::Relation(b) => is_catalog_table(s, *b) || mentions_catalog(s, *b),
        _ => false,
    }
}

/// The progress `st`, marked if `found`.
spec fn marked_if(found: bool, st: ProgressView) -> ProgressView {
    if found {
        st.mark()
    } else {
        st
    }
}

proof fn items_are_noted(s: SessionView, st: ProgressView, v: Seq<Syntax>, n: nat)
    requires
        n <= v.len(),
    ensures
        nodes_in_items(table_noted_rule(s), st, v, n) == (
            marked_if(exists|i: int| 0 <= i < n && mentions_catalog(s, #[trigger] v[i]), st),
            v.take(n as int),
        ),
    decreases v, n,
{
    if n > 0 {
        items_are_noted(s, st, v, (n - 1) as nat);
        let st1 = nodes_in_items(table_noted_rule(s), st, v, (n - 1) as nat).0;
        nodes_are_noted(s, st1, v[n - 1]);
        assert(v.take(n as int) =~= v.take(n - 1).push(v[n - 1]));
        if mentions_catalog(s, v[n - 1]) {
            assert(exists|i: int| 0 <= i < n && mentions_catalog(s, #[trigger] v[i]));
        }
    } else {
        assert(v.take(0) =~= Seq::empty());
    }
}

proof fn fields_are_noted(s: SessionView, st: ProgressView, f: Seq<(Seq<char>, Syntax)>, n: nat)
    requires
        n <= f.len(),
    ensures
        nodes_in_fields(table_noted_rule(s), st, f, n) == (
            marked_if(exists|i: int| 0 <= i < n && mentions_catalog(s, (#[trigger] f[i]).1), st),
            f.take(n as int),
        ),
    decreases f, n,
{
    if n > 0 {
        fields_are_noted(s, st, f, (n - 1) as nat);
        let st1 = nodes_in_fields(table_noted_rule(s), st, f, (n - 1) as nat).0;
        nodes_are_noted(s, st1, f[n - 1].1);
        assert(f.take(n as int) =~= f.take(n - 1).push(f[n - 1]));
        if mentions_catalog(s, f[n - 1].1) {
            assert(exists|i: int| 0 <= i < n && mentions_catalog(s, (#[trigger] f[i]).1));
        }
    } else {
        assert(f.take(0) =~= Seq::empty());
    }
}

proof fn nodes_are_noted(s: SessionView, st: ProgressView, t: Syntax)
    ensures
        nodes_walked(table_noted_rule(s), st, t) == (marked_if(mentions_catalog(s, t), st), t),
    decreases t, 0nat,
{
    match t {
        Syntax::List(v) => {
            items_are_noted(s, st, v, v.len());
            assert(v.take(v.len() as int) =~= v);
        },
        Syntax::Record(f) => {
            fields_are_noted(s, st, f, f.len());
            assert(f.take(f.len() as int) =~= f);
        },
        Syntax::Expr(b) => nodes_are_noted(s, st, *b),
        Syntax::Statement(b) => nodes_are_noted(s, st, *b),
        Syntax::Relation(b) => nodes_are_noted(s, st, *b),
        _ => {},
    }
}

/// A statement that refers to a table of the catalog anywhere touches the catalog.
pub proof fn catalog_names_are_found(s: SessionView, t: Syntax)
    ensures
        names_catalog(s, t) == mentions_catalog(s, referring(t)),
        mentions_catalog(s, referring(t)) ==> touches_catalog(s, t),
{
    nodes_are_noted(s, start_view(), referring(t));
}

} // verus!
