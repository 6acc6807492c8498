//! What holds of where texts are executed.
use crate::router::{
    any_touches, call_noted_rule, catalog_names_are_found, ident_parts, is_catalog_schema,
    is_catalog_table, lists_catalog, made_table_rule, mentions_catalog, name_parts, path_pieces,
    qualified, referring, route, routed_statements, search_path, touches_catalog, RouteView,
    SessionView, TablePathView,
};
use crate::sql::ast::{ident, ident_text, name_part};
use crate::sql::casting::alike;
use crate::sql::parse::SqlFault;
use crate::sql::tree::Syntax;
use crate::sql::walk::{
    nodes_in_fields, nodes_in_items, nodes_walked, start_view, walk_fields, walk_items, walked,
    ProgressView,
};
use crate::text::{
    case_is_ignored, ends_are_trimmed, is_space, joined, pieces_are_found, same_ignoring_case,
    same_letter, trimmed, Trim,
};
use vstd::prelude::*;

verus! {

// --- names ------------------------------------------------------------------------------------

/// Whether a text is `word`, in any case.
pub open spec fn reads(s: Seq<char>, word: Seq<char>) -> bool {
    s.len() == word.len() && forall|i: int|
        0 <= i < s.len() ==> same_letter(#[trigger] s[i], word[i])
}

/// Whether a schema is one that clients ask about the server: `pg_catalog` or
/// `information_schema`.
pub open spec fn describes_server(schema: Seq<char>) -> bool {
    reads(schema, "pg_catalog"@) || reads(schema, "information_schema"@)
}

/// Whether a name is written with these parts.
pub open spec fn is_written(name: Syntax, parts: Seq<Seq<char>>) -> bool {
    &&& name.items().len() == parts.len()
    &&& forall|i: int|
        0 <= i < parts.len() ==> ((#[trigger] name.items()[i]).payload("Identifier"@) matches Some(
            id,
        ) && ident_text(id) == Some(parts[i]))
}

/// Whether a session has a table.
pub open spec fn knows(
    s: SessionView,
    catalog: Seq<char>,
    schema: Seq<char>,
    table: Seq<char>,
) -> bool {
    s.tables.contains(TablePathView { catalog, schema, table })
}

/// The schema that an entry of a search path means: `$user` is the default one.
pub open spec fn meant(s: SessionView, entry: Seq<char>) -> Seq<char> {
    if entry == "$user"@ {
        s.default_schema
    } else {
        entry
    }
}

/// Whether a name with these parts stands for a table of the schema: as it is written, or for a
/// bare name by the first entry of the search path whose schema has such a table.
pub open spec fn stands_in(s: SessionView, parts: Seq<Seq<char>>, schema: Seq<char>) -> bool {
    ||| parts.len() == 1 && exists|k: int|
        0 <= k < s.path().len() && meant(s, #[trigger] s.path()[k]) == schema && knows(
            s,
            s.default_catalog,
            schema,
            parts[0],
        ) && forall|j: int|
            0 <= j < k ==> !knows(s, s.default_catalog, meant(s, #[trigger] s.path()[j]), parts[0])
    ||| parts.len() == 2 && parts[0] == schema && knows(s, s.default_catalog, parts[0], parts[1])
    ||| parts.len() >= 3 && parts[1] == schema && knows(s, parts[0], parts[1], parts[2])
}

proof fn parts_are_read(name: Syntax, parts: Seq<Seq<char>>, n: nat)
    requires
        is_written(name, parts),
        n <= parts.len(),
    ensures
        ident_parts(name.items(), n) == parts.take(n as int),
    decreases n,
{
    if n > 0 {
        parts_are_read(name, parts, (n - 1) as nat);
        assert(name.items()[n - 1].payload("Identifier"@) is Some);
        assert(parts.take(n as int) =~= parts.take(n - 1).push(parts[n - 1]));
    } else {
        assert(parts.take(0) =~= Seq::empty());
    }
}

proof fn tables_are_there(s: SessionView, catalog: Seq<char>, schema: Seq<char>, table: Seq<char>)
    ensures
        s.has_table(catalog, schema, table) == knows(s, catalog, schema, table),
{
}

proof fn bare_name_is_found(s: SessionView, table: Seq<char>, i: nat, k: nat)
    requires
        i <= k < s.path().len(),
        knows(s, s.default_catalog, meant(s, s.path()[k as int]), table),
        forall|j: int|
            i <= j < k ==> !knows(s, s.default_catalog, meant(s, #[trigger] s.path()[j]), table),
    ensures
        s.schema_with(s.path(), i, table) == Some(meant(s, s.path()[k as int])),
    decreases k - i,
{
    tables_are_there(s, s.default_catalog, meant(s, s.path()[i as int]), table);
    if i < k {
        bare_name_is_found(s, table, i + 1, k);
    }
}

proof fn bare_name_stands_somewhere(s: SessionView, table: Seq<char>, i: nat)
    requires
        i <= s.path().len(),
        forall|j: int|
            0 <= j < i ==> !knows(s, s.default_catalog, meant(s, #[trigger] s.path()[j]), table),
        s.schema_with(s.path(), i, table) is Some,
    ensures
        stands_in(s, seq![table], s.schema_with(s.path(), i, table)->0),
    decreases s.path().len() - i,
{
    let here = meant(s, s.path()[i as int]);
    tables_are_there(s, s.default_catalog, here, table);
    if knows(s, s.default_catalog, here, table) {
        assert(seq![table][0] == table);
        assert(meant(s, s.path()[i as int]) == here);
    } else {
        bare_name_stands_somewhere(s, table, i + 1);
    }
}

/// A name is resolved to the schema that it stands in, and to none if it stands in none.
pub proof fn names_are_resolved(s: SessionView, parts: Seq<Seq<char>>, schema: Seq<char>)
    ensures
        stands_in(s, parts, schema) <==> s.schema_of(parts) == Some(schema),
{
    if parts.len() == 1 {
        assert(parts =~= seq![parts[0]]);
        if stands_in(s, parts, schema) {
            let k = choose|k: int|
                0 <= k < s.path().len() && meant(s, #[trigger] s.path()[k]) == schema && knows(
                    s,
                    s.default_catalog,
                    schema,
                    parts[0],
                ) && forall|j: int|
                    0 <= j < k ==> !knows(
                        s,
                        s.default_catalog,
                        meant(s, #[trigger] s.path()[j]),
                        parts[0],
                    );
            bare_name_is_found(s, parts[0], 0, k as nat);
        }
        if s.schema_of(parts) == Some(schema) {
            bare_name_stands_somewhere(s, parts[0], 0);
        }
    } else if parts.len() == 2 {
        tables_are_there(s, s.default_catalog, parts[0], parts[1]);
    } else if parts.len() >= 3 {
        tables_are_there(s, parts[0], parts[1], parts[2]);
    }
}

proof fn schemas_of_the_catalog(schema: Seq<char>)
    ensures
        is_catalog_schema(schema) <==> describes_server(schema),
{
    case_is_ignored(schema, "pg_catalog"@);
    case_is_ignored(schema, "information_schema"@);
}

// --- references -------------------------------------------------------------------------------

/// Whether the name `name` of a table stands anywhere in `t`.
pub open spec fn refers_to(t: Syntax, name: Syntax) -> bool
    decreases t,
{
    match t {
        Syntax::List(v) => exists|i: int| 0 <= i < v.len() && refers_to(#[trigger] v[i], name),
        Syntax::Record(f) => exists|i: int| 0 <= i < f.len()
            && refers_to((#[trigger] f[i]).1, name),
        Syntax::Expr(b) => refers_to(*b, name),
        Syntax::Statement(b) => refers_to(*b, name),
        Syntax::Relation(b) => *b == name || refers_to(*b, name),
        _ => false,
    }
}

proof fn reference_is_mentioned(s: SessionView, t: Syntax, name: Syntax)
    requires
        refers_to(t, name),
        is_catalog_table(s, name),
    ensures
        mentions_catalog(s, t),
    decreases t,
{
    match t {
        Syntax::List(v) => {
            let i = choose|i: int| 0 <= i < v.len() && refers_to(#[trigger] v[i], name);
            reference_is_mentioned(s, v[i], name);
        },
        Syntax::Record(f) => {
            let i = choose|i: int| 0 <= i < f.len() && refers_to((#[trigger] f[i]).1, name);
            assert(decreases_to!(f => f[i]));
            assert(decreases_to!(f[i] => f[i].1));
            reference_is_mentioned(s, f[i].1, name);
        },
        Syntax::Expr(b) => reference_is_mentioned(s, *b, name),
        Syntax::Statement(b) => reference_is_mentioned(s, *b, name),
        Syntax::Relation(b) => {
            if *b != name {
                reference_is_mentioned(s, *b, name);
            }
        },
        _ => {},
    }
}

proof fn mention_is_referred(s: SessionView, t: Syntax) -> (name: Syntax)
    requires
        mentions_catalog(s, t),
    ensures
        refers_to(t, name),
        is_catalog_table(s, name),
    decreases t,
{
    match t {
        Syntax::List(v) => {
            let i = choose|i: int| 0 <= i < v.len() && mentions_catalog(s, #[trigger] v[i]);
            mention_is_referred(s, v[i])
        },
        Syntax::Record(f) => {
            let i = choose|i: int| 0 <= i < f.len() && mentions_catalog(s, (#[trigger] f[i]).1);
            assert(decreases_to!(f => f[i]));
            assert(decreases_to!(f[i] => f[i].1));
            mention_is_referred(s, f[i].1)
        },
        Syntax::Expr(b) => mention_is_referred(s, *b),
        Syntax::Statement(b) => mention_is_referred(s, *b),
        Syntax::Relation(b) => if is_catalog_table(s, *b) {
            *b
        } else {
            mention_is_referred(s, *b)
        },
        _ => t,
    }
}

/// Whether no statement in `t` makes a table.
pub open spec fn makes_no_table(t: Syntax) -> bool
    decreases t,
{
    match t {
        Syntax::List(v) => forall|i: int| 0 <= i < v.len() ==> makes_no_table(#[trigger] v[i]),
        Syntax::Record(f) => forall|i: int|
            0 <= i < f.len() ==> makes_no_table((#[trigger] f[i]).1),
        Syntax::Expr(b) => makes_no_table(*b),
        Syntax::Statement(b) => b.payload("CreateTable"@) is None && b.payload(
            "CreateVirtualTable"@,
        ) is None && makes_no_table(*b),
        Syntax::Relation(b) => makes_no_table(*b),
        _ => true,
    }
}

proof fn items_keep_references(st: ProgressView, v: Seq<Syntax>, n: nat)
    requires
        n <= v.len(),
        forall|i: int| 0 <= i < v.len() ==> makes_no_table(#[trigger] v[i]),
    ensures
        nodes_in_items(made_table_rule(), st, v, n) == (st, v.take(n as int)),
    decreases v, n,
{
    if n > 0 {
        items_keep_references(st, v, (n - 1) as nat);
        references_are_kept(st, v[n - 1]);
        assert(v.take(n as int) =~= v.take(n - 1).push(v[n - 1]));
    } else {
        assert(v.take(0) =~= Seq::empty());
    }
}

proof fn fields_keep_references(st: ProgressView, f: Seq<(Seq<char>, Syntax)>, n: nat)
    requires
        n <= f.len(),
        forall|i: int| 0 <= i < f.len() ==> makes_no_table((#[trigger] f[i]).1),
    ensures
        nodes_in_fields(made_table_rule(), st, f, n) == (st, f.take(n as int)),
    decreases f, n,
{
    if n > 0 {
        assert(decreases_to!(f => f[n - 1]));
        assert(decreases_to!(f[n - 1] => f[n - 1].1));
        fields_keep_references(st, f, (n - 1) as nat);
        references_are_kept(st, f[n - 1].1);
        assert(f.take(n as int) =~= f.take(n - 1).push(f[n - 1]));
    } else {
        assert(f.take(0) =~= Seq::empty());
    }
}

proof fn references_are_kept(st: ProgressView, t: Syntax)
    requires
        makes_no_table(t),
    ensures
        nodes_walked(made_table_rule(), st, t) == (st, t),
    decreases t, 0nat,
{
    match t {
        Syntax::List(v) => {
            items_keep_references(st, v, v.len());
            assert(v.take(v.len() as int) =~= v);
        },
        Syntax::Record(f) => {
            fields_keep_references(st, f, f.len());
            assert(f.take(f.len() as int) =~= f);
        },
        Syntax::Expr(b) => references_are_kept(st, *b),
        Syntax::Statement(b) => references_are_kept(st, *b),
        Syntax::Relation(b) => references_are_kept(st, *b),
        _ => {},
    }
}

/// In statements that make no table every name refers to one.
pub proof fn every_name_refers(t: Syntax)
    requires
        makes_no_table(t),
    ensures
        referring(t) == t,
{
    references_are_kept(start_view(), t);
}

/// A statement that names a table of `pg_catalog` or of `information_schema`, in any case and
/// anywhere, touches the catalog.
pub proof fn server_tables_touch_the_catalog(
    s: SessionView,
    t: Syntax,
    name: Syntax,
    parts: Seq<Seq<char>>,
    schema: Seq<char>,
)
    requires
        makes_no_table(t),
        refers_to(t, name),
        is_written(name, parts),
        stands_in(s, parts, schema),
        reads(schema, "pg_catalog"@) || reads(schema, "information_schema"@),
    ensures
        touches_catalog(s, t),
{
    every_name_refers(t);
    parts_are_read(name, parts, parts.len());
    assert(parts.take(parts.len() as int) =~= parts);
    names_are_resolved(s, parts, schema);
    schemas_of_the_catalog(schema);
    reference_is_mentioned(s, t, name);
    catalog_names_are_found(s, t);
}

/// A text with such a statement is never left to the handler of the application.
pub proof fn server_tables_are_read_here(
    s: SessionView,
    sql: Seq<char>,
    i: int,
    name: Syntax,
    parts: Seq<Seq<char>>,
    schema: Seq<char>,
)
    requires
        routed_statements(sql) is Ok,
        0 <= i < routed_statements(sql)->Ok_0.items().len(),
        makes_no_table(routed_statements(sql)->Ok_0.items()[i]),
        refers_to(routed_statements(sql)->Ok_0.items()[i], name),
        is_written(name, parts),
        stands_in(s, parts, schema),
        reads(schema, "pg_catalog"@) || reads(schema, "information_schema"@),
    ensures
        route(s, sql) != Ok::<RouteView, SqlFault>(RouteView::Handler),
{
    let t = routed_statements(sql)->Ok_0;
    server_tables_touch_the_catalog(s, t.items()[i], name, parts, schema);
    assert(any_touches(s, t));
}

// --- calls ------------------------------------------------------------------------------------

/// Whether a function with these name parts is one that tells of the server: `pg_catalog.f` or
/// `information_schema.f`, if there is such a function; a bare name may be either.
pub open spec fn tells_of_server(s: SessionView, parts: Seq<Seq<char>>) -> bool {
    ||| parts.len() == 1 && (s.functions.contains("pg_catalog"@ + "."@ + parts[0])
        || s.functions.contains("information_schema"@ + "."@ + parts[0]))
    ||| parts.len() == 2 && describes_server(parts[0]) && s.functions.contains(
        parts[0] + "."@ + parts[1],
    )
    ||| parts.len() == 3 && describes_server(parts[1]) && s.functions.contains(
        parts[1] + "."@ + parts[2],
    )
}

/// Whether the function `f` is called anywhere in `t`.
pub open spec fn calls(t: Syntax, f: Syntax) -> bool
    decreases t,
{
    match t {
        Syntax::List(v) => exists|i: int| 0 <= i < v.len() && calls(#[trigger] v[i], f),
        Syntax::Record(r) => exists|i: int| 0 <= i < r.len() && calls((#[trigger] r[i]).1, f),
        Syntax::Expr(b) => b.payload("Function"@) == Some(f) || calls(*b, f),
        Syntax::Statement(b) => calls(*b, f),
        Syntax::Relation(b) => calls(*b, f),
        _ => false,
    }
}

/// Whether a function of the catalog is called anywhere in `t`.
spec fn calls_catalog(s: SessionView, t: Syntax) -> bool {
    exists|f: Syntax| #[trigger] calls(t, f) && s.is_catalog_function(name_parts(f.at("name"@)))
}

spec fn with_mark(found: bool, st: ProgressView) -> ProgressView {
    if found {
        st.mark()
    } else {
        st
    }
}

proof fn calls_in_items(s: SessionView, st: ProgressView, v: Seq<Syntax>, n: nat)
    requires
        n <= v.len(),
        st.fault is None,
    ensures
        walk_items(call_noted_rule(s), st, v, n) == (
            with_mark(exists|i: int| 0 <= i < n && calls_catalog(s, #[trigger] v[i]), st),
            v.take(n as int),
        ),
    decreases v, n,
{
    if n > 0 {
        calls_in_items(s, st, v, (n - 1) as nat);
        let st1 = walk_items(call_noted_rule(s), st, v, (n - 1) as nat).0;
        calls_are_noted(s, st1, v[n - 1]);
        assert(v.take(n as int) =~= v.take(n - 1).push(v[n - 1]));
        if calls_catalog(s, v[n - 1]) {
            assert(exists|i: int| 0 <= i < n && calls_catalog(s, #[trigger] v[i]));
        }
    } else {
        assert(v.take(0) =~= Seq::empty());
    }
}

proof fn calls_in_fields(s: SessionView, st: ProgressView, r: Seq<(Seq<char>, Syntax)>, n: nat)
    requires
        n <= r.len(),
        st.fault is None,
    ensures
        walk_fields(call_noted_rule(s), st, r, n) == (
            with_mark(exists|i: int| 0 <= i < n && calls_catalog(s, (#[trigger] r[i]).1), st),
            r.take(n as int),
        ),
    decreases r, n,
{
    if n > 0 {
        assert(decreases_to!(r => r[n - 1]));
        assert(decreases_to!(r[n - 1] => r[n - 1].1));
        calls_in_fields(s, st, r, (n - 1) as nat);
        let st1 = walk_fields(call_noted_rule(s), st, r, (n - 1) as nat).0;
        calls_are_noted(s, st1, r[n - 1].1);
        assert(r.take(n as int) =~= r.take(n - 1).push(r[n - 1]));
        if calls_catalog(s, r[n - 1].1) {
            assert(exists|i: int| 0 <= i < n && calls_catalog(s, (#[trigger] r[i]).1));
        }
    } else {
        assert(r.take(0) =~= Seq::empty());
    }
}

proof fn calls_are_noted(s: SessionView, st: ProgressView, t: Syntax)
    requires
        st.fault is None,
    ensures
        walked(call_noted_rule(s), st, t) == (with_mark(calls_catalog(s, t), st), t),
    decreases t, 0nat,
{
    match t {
        Syntax::List(v) => {
            calls_in_items(s, st, v, v.len());
            assert(v.take(v.len() as int) =~= v);
            let found = exists|i: int| 0 <= i < v.len() && calls_catalog(s, #[trigger] v[i]);
            if found {
                let i = choose|i: int| 0 <= i < v.len() && calls_catalog(s, #[trigger] v[i]);
                let f = choose|f: Syntax| #[trigger]
                    calls(v[i], f) && s.is_catalog_function(name_parts(f.at("name"@)));
                assert(calls(t, f));
            }
            if calls_catalog(s, t) {
                let f = choose|f: Syntax| #[trigger]
                    calls(t, f) && s.is_catalog_function(name_parts(f.at("name"@)));
                let i = choose|i: int| 0 <= i < v.len() && calls(#[trigger] v[i], f);
                assert(calls_catalog(s, v[i]));
            }
        },
        Syntax::Record(r) => {
            calls_in_fields(s, st, r, r.len());
            assert(r.take(r.len() as int) =~= r);
            let found = exists|i: int| 0 <= i < r.len() && calls_catalog(s, (#[trigger] r[i]).1);
            if found {
                let i = choose|i: int| 0 <= i < r.len() && calls_catalog(s, (#[trigger] r[i]).1);
                let f = choose|f: Syntax| #[trigger]
                    calls(r[i].1, f) && s.is_catalog_function(name_parts(f.at("name"@)));
                assert(calls(t, f));
            }
            if calls_catalog(s, t) {
                let f = choose|f: Syntax| #[trigger]
                    calls(t, f) && s.is_catalog_function(name_parts(f.at("name"@)));
                let i = choose|i: int| 0 <= i < r.len() && calls((#[trigger] r[i]).1, f);
                assert(calls_catalog(s, r[i].1));
            }
        },
        Syntax::Expr(b) => {
            calls_are_noted(s, st, *b);
            part_calls(s, t, *b);
            if let Some(f) = b.payload("Function"@) {
                assert(calls(t, f));
            }
        },
        Syntax::Statement(b) => {
            calls_are_noted(s, st, *b);
            part_calls(s, t, *b);
        },
        Syntax::Relation(b) => {
            calls_are_noted(s, st, *b);
            part_calls(s, t, *b);
        },
        _ => {},
    }
}

proof fn part_calls(s: SessionView, t: Syntax, part: Syntax)
    requires
        t == Syntax::Expr(Box::new(part)) || t == Syntax::Statement(Box::new(part)) || t
            == Syntax::Relation(Box::new(part)),
    ensures
        calls_catalog(s, part) ==> calls_catalog(s, t),
        calls_catalog(s, t) ==> calls_catalog(s, part) || (t is Expr && part.payload(
            "Function"@,
        ) is Some && s.is_catalog_function(name_parts(part.payload("Function"@)->0.at("name"@)))),
{
    if calls_catalog(s, part) {
        let f = choose|f: Syntax| #[trigger]
            calls(part, f) && s.is_catalog_function(name_parts(f.at("name"@)));
        assert(calls(t, f));
    }
    if calls_catalog(s, t) {
        let f = choose|f: Syntax| #[trigger]
            calls(t, f) && s.is_catalog_function(name_parts(f.at("name"@)));
        if calls(part, f) {
            assert(calls_catalog(s, part));
        }
    }
}

proof fn functions_of_the_catalog(s: SessionView, parts: Seq<Seq<char>>)
    ensures
        s.is_catalog_function(parts) <==> tells_of_server(s, parts),
{
    if parts.len() == 2 {
        schemas_of_the_catalog(parts[0]);
    }
    if parts.len() == 3 {
        schemas_of_the_catalog(parts[1]);
    }
}

/// A statement that calls a function of `pg_catalog` or of `information_schema`, anywhere,
/// touches the catalog.
pub proof fn server_functions_touch_the_catalog(
    s: SessionView,
    t: Syntax,
    f: Syntax,
    parts: Seq<Seq<char>>,
)
    requires
        calls(t, f),
        is_written(f.at("name"@), parts),
        tells_of_server(s, parts),
    ensures
        touches_catalog(s, t),
{
    parts_are_read(f.at("name"@), parts, parts.len());
    assert(parts.take(parts.len() as int) =~= parts);
    functions_of_the_catalog(s, parts);
    assert(calls_catalog(s, t));
    calls_are_noted(s, start_view(), t);
}

/// A statement in which no name stands for a table of these schemas, and which calls none of
/// their functions, does not touch the catalog.
pub proof fn other_statements_do_not_touch_the_catalog(s: SessionView, t: Syntax)
    requires
        makes_no_table(t),
        forall|name: Syntax, schema: Seq<char>|
            #![trigger refers_to(t, name), stands_in(s, name_parts(name), schema)]
            refers_to(t, name) && stands_in(s, name_parts(name), schema) ==> !describes_server(
                schema,
            ),
        forall|f: Syntax| #[trigger]
            calls(t, f) ==> !tells_of_server(s, name_parts(f.at("name"@))),
    ensures
        !touches_catalog(s, t),
{
    every_name_refers(t);
    catalog_names_are_found(s, t);
    if mentions_catalog(s, t) {
        let name = mention_is_referred(s, t);
        let schema = s.schema_of(name_parts(name))->0;
        names_are_resolved(s, name_parts(name), schema);
        schemas_of_the_catalog(schema);
        assert(stands_in(s, name_parts(name), schema));
    }
    calls_are_noted(s, start_view(), t);
    if calls_catalog(s, t) {
        let f = choose|f: Syntax| #[trigger]
            calls(t, f) && s.is_catalog_function(name_parts(f.at("name"@)));
        functions_of_the_catalog(s, name_parts(f.at("name"@)));
    }
}

// --- qualified names --------------------------------------------------------------------------

/// A bare name of a table of the catalog gets the schema that it stands in, and no other name is
/// changed; so every name stands for the table that it stood for.
pub proof fn qualified_names_mean_the_same(
    s: SessionView,
    name: Syntax,
    parts: Seq<Seq<char>>,
    schema: Seq<char>,
)
    requires
        is_written(name, parts),
        stands_in(s, parts, schema),
    ensures
        parts.len() == 1 && describes_server(schema) ==> is_written(
            qualified(s, name),
            seq![schema, parts[0]],
        ) && stands_in(s, seq![schema, parts[0]], schema),
        parts.len() != 1 || !describes_server(schema) ==> qualified(s, name) == name,
{
    parts_are_read(name, parts, parts.len());
    assert(parts.take(parts.len() as int) =~= parts);
    names_are_resolved(s, parts, schema);
    schemas_of_the_catalog(schema);
    if parts.len() == 1 && describes_server(schema) {
        let long = qualified(s, name);
        assert(long.items() =~= seq![name_part(schema), name.items()[0]]);
        assert(name.items()[0].payload("Identifier"@) is Some);
        reveal_strlit("value");
        let id = ident(schema);
        assert(id.at("value"@) == Syntax::Text(schema));
        assert(name_part(schema).payload("Identifier"@) == Some(id));
        assert(seq![schema, parts[0]][0] == schema && seq![schema, parts[0]][1] == parts[0]);
    }
}

/// A name that stands for no table is not changed.
pub proof fn unknown_names_stay(s: SessionView, name: Syntax)
    requires
        forall|schema: Seq<char>| !(#[trigger] stands_in(s, name_parts(name), schema)),
    ensures
        qualified(s, name) == name,
{
    if let Some(schema) = s.schema_of(name_parts(name)) {
        names_are_resolved(s, name_parts(name), schema);
        assert(!stands_in(s, name_parts(name), schema));
    }
}

// --- search paths -----------------------------------------------------------------------------

/// A schema as it is written in a search path: with space around it, and in quotes or without.
pub struct PathEntry {
    pub before: Seq<char>,
    pub quotes: nat,
    pub schema: Seq<char>,
    pub after: Seq<char>,
}

impl PathEntry {
    /// The text of the entry.
    pub open spec fn text(self) -> Seq<char> {
        let quotes = Seq::new(self.quotes, |i: int| '"');
        self.before + (quotes + self.schema + quotes) + self.after
    }

    /// Whether the entry is a schema with nothing but space and quotes around it.
    pub open spec fn is_written(self) -> bool {
        &&& forall|i: int| 0 <= i < self.before.len() ==> is_space(#[trigger] self.before[i])
        &&& forall|i: int| 0 <= i < self.after.len() ==> is_space(#[trigger] self.after[i])
        &&& self.schema.len() > 0
        &&& forall|i: int|
            0 <= i < self.schema.len() ==> #[trigger] self.schema[i] != ',' && self.schema[i] != '"'
        &&& !is_space(self.schema[0])
        &&& !is_space(self.schema.last())
    }
}

proof fn entry_is_read(e: PathEntry)
    requires
        e.is_written(),
    ensures
        !e.text().contains(','),
        trimmed(Trim::Space, e.text()).len() > 0,
        trimmed(Trim::DoubleQuotes, trimmed(Trim::Space, e.text())) == e.schema,
{
    let quotes = Seq::new(e.quotes, |i: int| '"');
    let inner = quotes + e.schema + quotes;
    assert(e.schema.last() == e.schema[e.schema.len() - 1]);
    assert(inner[0] == '"' || inner[0] == e.schema[0]);
    assert(inner.last() == '"' || inner.last() == e.schema.last());
    ends_are_trimmed(Trim::Space, e.before, inner, e.after);
    ends_are_trimmed(Trim::DoubleQuotes, quotes, e.schema, quotes);
    let t = e.text();
    assert forall|i: int| 0 <= i < t.len() implies t[i] != ',' by {
        let a = e.before.len() as int;
        let b = a + inner.len();
        if i < a {
            assert(t[i] == e.before[i]);
        } else if i < b {
            assert(t[i] == inner[i - a]);
        } else {
            assert(t[i] == e.after[i - b]);
        }
    }
}

proof fn entries_are_read(entries: Seq<PathEntry>, pieces: Seq<Seq<char>>, n: nat)
    requires
        n <= entries.len() == pieces.len(),
        forall|i: int| 0 <= i < entries.len() ==> (#[trigger] entries[i]).is_written(),
        forall|i: int| 0 <= i < entries.len() ==> #[trigger] pieces[i] == entries[i].text(),
    ensures
        path_pieces(pieces, n) == Seq::new(n, |i: int| entries[i].schema),
    decreases n,
{
    if n > 0 {
        entries_are_read(entries, pieces, (n - 1) as nat);
        entry_is_read(entries[n - 1]);
        assert(pieces[n - 1] == entries[n - 1].text());
    }
    assert(path_pieces(pieces, n) =~= Seq::new(n, |i: int| entries[i].schema));
}

/// The schemas of a search path are those that it lists, in order and without the space and the
/// quotes around them, after `pg_catalog` unless that is one of them.
pub proof fn search_paths_are_read(entries: Seq<PathEntry>)
    requires
        entries.len() > 0,
        forall|i: int| 0 <= i < entries.len() ==> (#[trigger] entries[i]).is_written(),
    ensures
        ({
            let text = joined(Seq::new(entries.len(), |i: int| entries[i].text()), seq![',']);
            let schemas = Seq::new(entries.len(), |i: int| entries[i].schema);
            let listed = exists|i: int|
                0 <= i < entries.len() && alike((#[trigger] entries[i]).schema, "pg_catalog"@);
            search_path(text) == if listed {
                schemas
            } else {
                seq!["pg_catalog"@] + schemas
            }
        }),
{
    let pieces = Seq::new(entries.len(), |i: int| entries[i].text());
    let schemas = Seq::new(entries.len(), |i: int| entries[i].schema);
    assert forall|i: int| 0 <= i < pieces.len() implies !(#[trigger] pieces[i]).contains(',') by {
        entry_is_read(entries[i]);
    }
    pieces_are_found(pieces, ',');
    entries_are_read(entries, pieces, entries.len());
    assert forall|i: int| 0 <= i < entries.len() implies alike(
        (#[trigger] entries[i]).schema,
        "pg_catalog"@,
    ) == same_ignoring_case(schemas[i], "pg_catalog"@) by {
        case_is_ignored(schemas[i], "pg_catalog"@);
    }
    if lists_catalog(schemas) {
        let i = choose|i: int|
            0 <= i < schemas.len() && same_ignoring_case(#[trigger] schemas[i], "pg_catalog"@);
        assert(alike(entries[i].schema, "pg_catalog"@));
    }
}

// --- entries of the search path ------------------------------------------------------------------

/// `$user` on the search path stands for the schema of the session, and any other entry for itself;
/// without a search path the catalog comes before the schema of the session.
pub proof fn user_entry_is_the_schema_of_the_session(s: SessionView, entry: Seq<char>)
    ensures
        s.entry_schema("$user"@) == s.default_schema,
        entry != "$user"@ ==> s.entry_schema(entry) == entry,
        s.search_path is None ==> s.path().len() == 2 && s.path()[0] == "pg_catalog"@ && s.path()[1]
            == s.default_schema,
        s.search_path matches Some(text) ==> s.path() == search_path(text),
{
}

} // verus!
