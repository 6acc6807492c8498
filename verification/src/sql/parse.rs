//! From SQL text to syntax trees and back.
//!
//! Parsing and printing are the work of the `sqlparser` crate. Its abstract
//! syntax is taken over by way of its serialized form, with `serde_json`.
use super::tree::{
    field_is_smaller, fields_of, item_is_smaller, list_of, list_view, record_view, Field, Syntax,
    Tree,
};
use crate::text::{
    chars, find_text_from, join, joined, part_from, same, to_uppercase, uppercased,
};
use sqlparser::ast::{
    visit_expressions_mut, visit_relations_mut, visit_statements_mut, Expr, Ident, ObjectName,
    ObjectNamePart, Statement, Value as SqlValue,
};
use sqlparser::dialect::{GenericDialect, PostgreSqlDialect};
use sqlparser::parser::Parser;
use std::ops::ControlFlow;
use vstd::prelude::*;

verus! {

/// The abstract syntax of one statement, as the parser gives it.
#[verifier::external_type_specification]
#[verifier::external_body]
pub struct ExStatement(sqlparser::ast::Statement);

/// A serialized value.
#[verifier::external_type_specification]
#[verifier::external_body]
pub struct ExJsonValue(serde_json::Value);

/// The grammars that SQL text is read by.
#[derive(Clone, Copy, Debug, PartialEq, Eq, Structural)]
pub enum SqlDialect {
    Postgres,
    Generic,
}

/// Why a rewrite has no result.
#[derive(Clone, Debug)]
pub enum SqlError {
    /// The text does not parse; the parser's message.
    Parse(String),
    /// The statement is not one that can be planned; the reason.
    Plan(String),
    /// The rewritten tree is not the tree of a statement.
    Unprintable,
}

/// What a [`SqlError`] says.
pub enum SqlFault {
    Parse(Seq<char>),
    Plan(Seq<char>),
    Unprintable,
}

impl View for SqlError {
    type V = SqlFault;

    open spec fn view(&self) -> SqlFault {
        match *self {
            SqlError::Parse(s) => SqlFault::Parse(s@),
            SqlError::Plan(s) => SqlFault::Plan(s@),
            SqlError::Unprintable => SqlFault::Unprintable,
        }
    }
}

/// What the result of a rewrite says.
pub open spec fn outcome(r: Result<String, SqlError>) -> Result<Seq<char>, SqlFault> {
    match r {
        Ok(s) => Ok(s@),
        Err(e) => Err(e@),
    }
}

/// What `Parser::parse_sql` makes of a text in a dialect: the serialized list of
/// its statements, or the message of the error. Every expression `e` stands as a
/// named expression with an empty name, every statement as a prepared statement
/// with an empty name, and every relation name has an empty identifier before it.
pub uninterp spec fn parsed_statements(dialect: SqlDialect, sql: Seq<char>) -> Result<
    Syntax,
    Seq<char>,
>;

/// The text of a statement, by its `Display`; `None` for a tree that is not the
/// serialized form of a statement.
pub uninterp spec fn printed_statement(t: Syntax) -> Option<Seq<char>>;

/// The text of an expression, by its `Display`; `None` for a tree that is not the
/// serialized form of an expression.
pub uninterp spec fn printed_expr(t: Syntax) -> Option<Seq<char>>;

/// The text of a data type, by its `Display`; `None` for a tree that is not the serialized
/// form of a data type.
pub uninterp spec fn printed_type(t: Syntax) -> Option<Seq<char>>;

/// The text of an object name, by its `Display`; `None` for a tree that is not the
/// serialized form of an object name.
pub uninterp spec fn printed_name(t: Syntax) -> Option<Seq<char>>;

/// Puts each expression into a named expression, each statement into a prepared
/// statement and an empty identifier before each relation name, by
/// `visit_expressions_mut`, `visit_statements_mut` and `visit_relations_mut`.
#[verifier::external_body]
fn mark(statements: &mut Vec<Statement>) {
    let _ = visit_expressions_mut(statements, |e: &mut Expr| {
        let expr = Box::new(std::mem::replace(e, Expr::Value(SqlValue::Null.into())));
        *e = Expr::Named { expr, name: Ident::new("") };
        ControlFlow::<()>::Continue(())
    });
    let _ = visit_relations_mut(statements, |r: &mut ObjectName| {
        r.0.insert(0, ObjectNamePart::Identifier(Ident::new("")));
        ControlFlow::<()>::Continue(())
    });
    let _ = visit_statements_mut(statements, |s: &mut Statement| {
        let statement = Box::new(s.clone());
        *s = Statement::Prepare { name: Ident::new(""), data_types: vec![], statement };
        ControlFlow::<()>::Continue(())
    });
}

/// The tree of a serialized value, node for node.
#[verifier::external_body]
fn tree_of(value: serde_json::Value) -> Tree {
    match value {
        serde_json::Value::Null => Tree::Null,
        serde_json::Value::Bool(b) => Tree::Bool(b),
        serde_json::Value::Number(n) => Tree::Number(n.to_string()),
        serde_json::Value::String(s) => Tree::Text(s),
        serde_json::Value::Array(items) => Tree::List(items.into_iter().map(tree_of).collect()),
        serde_json::Value::Object(fields) => Tree::Record(
            fields.into_iter().map(|(name, v)| Field { name, value: tree_of(v) }).collect(),
        ),
    }
}

/// The serialized value of a tree, node for node.
#[verifier::external_body]
fn value_of(tree: &Tree) -> serde_json::Value {
    match tree {
        Tree::Null => serde_json::Value::Null,
        Tree::Bool(b) => serde_json::Value::Bool(*b),
        Tree::Number(n) => n.parse::<serde_json::Number>().ok().into(),
        Tree::Text(s) => serde_json::Value::String(s.clone()),
        Tree::List(items) => serde_json::Value::Array(items.iter().map(value_of).collect()),
        Tree::Record(fields) => serde_json::Value::Object(
            fields.iter().map(|f| (f.name.clone(), value_of(&f.value))).collect(),
        ),
        Tree::Expr(t) | Tree::Statement(t) | Tree::Relation(t) => value_of(t),
    }
}

/// Whether the first `n` of `words` stand in `s` in their order, each behind the one before it.
pub open spec fn words_follow(s: Seq<char>, words: Seq<Seq<char>>, n: nat) -> bool {
    end_of_words(s, words, n) is Some
}

/// Where the first `n` of `words` end in `s`, if they stand there in their order.
pub open spec fn end_of_words(s: Seq<char>, words: Seq<Seq<char>>, n: nat) -> Option<nat>
    decreases n,
{
    if n == 0 {
        Some(0)
    } else {
        match end_of_words(s, words, (n - 1) as nat) {
            Some(end) => match part_from(s, words[n - 1], end) {
                Some(i) => Some(i + words[n - 1].len()),
                None => None,
            },
            None => None,
        }
    }
}

/// The words of the statement on which the parser can stop.
pub open spec fn flush_words() -> Seq<Seq<char>> {
    seq!["FLUSH"@, "RELAY"@, "LOGS"@, "FOR"@, "CHANNEL"@]
}

/// Whether the parser may panic on a text: in the generic dialect it does where the words
/// `FLUSH RELAY LOGS FOR CHANNEL` have no name behind them. Keywords are known by their
/// upper-case form.
pub open spec fn parser_stops(dialect: SqlDialect, sql: Seq<char>) -> bool {
    dialect == SqlDialect::Generic && words_follow(uppercased(sql), flush_words(), 5)
}

/// `Parser::parse_sql` of the `sqlparser` crate: the statements of `sql` as
/// [`parsed_statements`] names them. It can panic on a text for which [`parser_stops`] holds.
#[verifier::external_body]
fn parse_marked(dialect: SqlDialect, sql: &str) -> (r: Result<Tree, String>)
    requires
        !parser_stops(dialect, sql@),
    ensures
        match r {
            Ok(t) => parsed_statements(dialect, sql@) == Ok::<Syntax, Seq<char>>(t@),
            Err(e) => parsed_statements(dialect, sql@) == Err::<Syntax, Seq<char>>(e@),
        },
{
    let parsed = match dialect {
        SqlDialect::Postgres => Parser::parse_sql(&PostgreSqlDialect {}, sql),
        SqlDialect::Generic => Parser::parse_sql(&GenericDialect {}, sql),
    };
    let mut statements = parsed.map_err(|e| e.to_string())?;
    mark(&mut statements);
    let value = serde_json::to_value(statements).map_err(|e| e.to_string())?;
    Ok(tree_of(value))
}

/// `Display` of `sqlparser`'s `Statement`, as [`printed_statement`] names it. It
/// panics on trees that are not [`displayable`].
#[verifier::external_body]
fn statement_text(t: &Tree) -> (r: Option<String>)
    requires
        displayable(t@),
    ensures
        match r {
            Some(s) => printed_statement(t@) == Some(s@),
            None => printed_statement(t@) is None,
        },
{
    let statement = serde_json::from_value::<sqlparser::ast::Statement>(value_of(t)).ok()?;
    Some(statement.to_string())
}

/// `Display` of `sqlparser`'s `Expr`, as [`printed_expr`] names it. It panics on
/// trees that are not [`displayable`].
#[verifier::external_body]
fn expr_text(t: &Tree) -> (r: Option<String>)
    requires
        displayable(t@),
    ensures
        match r {
            Some(s) => printed_expr(t@) == Some(s@),
            None => printed_expr(t@) is None,
        },
{
    let expr = serde_json::from_value::<sqlparser::ast::Expr>(value_of(t)).ok()?;
    Some(expr.to_string())
}

/// `Display` of `sqlparser`'s `DataType`, as [`printed_type`] names it. It panics on
/// trees that are not [`displayable`].
#[verifier::external_body]
fn type_text(t: &Tree) -> (r: Option<String>)
    requires
        displayable(t@),
    ensures
        match r {
            Some(s) => printed_type(t@) == Some(s@),
            None => printed_type(t@) is None,
        },
{
    let ty = serde_json::from_value::<sqlparser::ast::DataType>(value_of(t)).ok()?;
    Some(ty.to_string())
}

/// `Display` of `sqlparser`'s `ObjectName`, as [`printed_name`] names it. It panics on
/// trees that are not [`displayable`].
#[verifier::external_body]
fn name_text(t: &Tree) -> (r: Option<String>)
    requires
        displayable(t@),
    ensures
        match r {
            Some(s) => printed_name(t@) == Some(s@),
            None => printed_name(t@) is None,
        },
{
    let name = serde_json::from_value::<sqlparser::ast::ObjectName>(value_of(t)).ok()?;
    Some(name.to_string())
}

// --- trees that can be printed -------------------------------------------

/// The tree without the expression, statement and relation nodes around it, which
/// its serialized form does not have.
pub open spec fn bare(t: Syntax) -> Syntax
    decreases t,
{
    match t {
        Syntax::Expr(b) => bare(*b),
        Syntax::Statement(b) => bare(*b),
        Syntax::Relation(b) => bare(*b),
        _ => t,
    }
}

/// Whether no two fields have one name.
pub open spec fn names_differ(f: Seq<(Seq<char>, Syntax)>) -> bool {
    forall|i: int, j: int| 0 <= i < j < f.len() ==> (#[trigger] f[i]).0 != (#[trigger] f[j]).0
}

/// Whether a text is a quote character that an identifier can be printed with.
pub open spec fn is_quote(s: Seq<char>) -> bool {
    s == "\""@ || s == "`"@ || s == "["@ || s == "'"@
}

/// Whether the quote character of a record, if it has one, is one that it can be
/// printed with; a word token cannot be printed in single quotes.
pub open spec fn quote_ok(r: Syntax) -> bool {
    match bare(r.at("quote_style"@)) {
        Syntax::Text(q) => is_quote(q) && (q == "'"@ ==> r.at("keyword"@) == Syntax::Null),
        _ => true,
    }
}

/// Whether a record is no interval of seconds with both precisions and an end.
pub open spec fn interval_ok(r: Syntax) -> bool {
    let leading = bare(r.at("leading_field"@));
    ||| !(leading.is_text("Second"@) || leading.payload("Second"@) is Some)
    ||| r.at("leading_precision"@) == Syntax::Null
    ||| r.at("fractional_seconds_precision"@) == Syntax::Null
    ||| r.at("last_field"@) == Syntax::Null
}

/// Whether a record is none of the variants that print by their fields, written as
/// a list of the fields' values.
pub open spec fn fields_named(r: Syntax) -> bool {
    forall|tag: Seq<char>| #[trigger]
        r.payload(tag) is Some && (tag == "Interval"@ || tag == "Word"@ || tag == "LimitOffset"@)
            ==> !(bare(r.payload(tag)->0) is List)
}

/// Whether a record is no limit clause with `BY` and without `LIMIT`.
pub open spec fn limit_ok(r: Syntax) -> bool {
    match r.payload("LimitOffset"@) {
        Some(p) => {
            let limit = bare(bare(p).at("limit"@));
            bare(bare(p).at("limit_by"@)).items().len() == 0 || limit is Record || limit is Text
        },
        None => true,
    }
}

/// Whether a tree is a `TABLE` query body without the table's name.
pub open spec fn nameless_table(t: Syntax) -> bool {
    match bare(t).payload("Table"@) {
        Some(p) => !(bare(bare(p).at("table_name"@)) is Text),
        None => false,
    }
}

/// Whether a field may hold a query's body.
pub open spec fn holds_body(name: Seq<char>) -> bool {
    name == "body"@ || name == "left"@ || name == "right"@
}

/// Whether a list is an identifier in list form (its text, its quote character and
/// its place) with a quote character that it cannot be printed with.
pub open spec fn misquoted(s: Seq<Syntax>) -> bool {
    &&& s.len() == 3
    &&& bare(s[0]) is Text
    &&& match bare(s[1]) {
        Syntax::Text(q) => q.len() == 1 && !is_quote(q),
        _ => false,
    }
    &&& bare(s[2]) is Record || bare(s[2]) is List
}

/// Whether a tree holds nothing that printing refuses. Printing goes by the
/// serialized form, in which a struct may be a record of its fields or a list of
/// their values, and an enum variant without data may be its name or a record with
/// that one name.
pub open spec fn displayable(t: Syntax) -> bool
    decreases t,
{
    match t {
        Syntax::List(s) => {
            &&& !misquoted(s)
            &&& forall|i: int|
                0 <= i < s.len() ==> !nameless_table(#[trigger] s[i]) && displayable(s[i])
        },
        Syntax::Record(f) => {
            &&& names_differ(f)
            &&& quote_ok(t)
            &&& interval_ok(t)
            &&& fields_named(t)
            &&& limit_ok(t)
            &&& forall|i: int|
                0 <= i < f.len() ==> !(holds_body((#[trigger] f[i]).0) && nameless_table(f[i].1))
                    && displayable(f[i].1)
        },
        Syntax::Expr(b) => displayable(*b),
        Syntax::Statement(b) => displayable(*b),
        Syntax::Relation(b) => displayable(*b),
        _ => true,
    }
}

/// The tree without the expression, statement and relation nodes around it.
fn strip(t: &Tree) -> (r: &Tree)
    ensures
        r@ == bare(t@),
    decreases t,
{
    match t {
        Tree::Expr(b) => strip(b),
        Tree::Statement(b) => strip(b),
        Tree::Relation(b) => strip(b),
        _ => t,
    }
}

fn is_quote_text(s: &str) -> (r: bool)
    ensures
        r == is_quote(s@),
{
    same(s, "\"") || same(s, "`") || same(s, "[") || same(s, "'")
}

fn have_names_apart(v: &Vec<Field>) -> (r: bool)
    ensures
        r == names_differ(fields_of(v@)),
{
    let ghost f = fields_of(v@);
    let mut i: usize = 0;
    while i < v.len()
        invariant
            i <= v@.len(),
            f == fields_of(v@),
            forall|a: int, b: int|
                0 <= a < i && a < b < f.len() ==> (#[trigger] f[a]).0 != (#[trigger] f[b]).0,
        decreases v@.len() - i,
    {
        let mut j: usize = i + 1;
        while j < v.len()
            invariant
                i < j <= v@.len(),
                f == fields_of(v@),
                forall|b: int| i < b < j ==> f[i as int].0 != (#[trigger] f[b]).0,
            decreases v@.len() - j,
        {
            if same(v[i].name.as_str(), v[j].name.as_str()) {
                assert(f[i as int].0 == f[j as int].0);
                return false;
            }
            j = j + 1;
        }
        i = i + 1;
    }
    true
}

/// Whether a tree is a `TABLE` query body without the table's name.
fn is_nameless_table(t: &Tree) -> (r: bool)
    ensures
        r == nameless_table(t@),
{
    match strip(t).payload("Table") {
        Some(p) => strip(strip(p).at("table_name")).text().is_none(),
        None => false,
    }
}

fn may_hold_body(name: &str) -> (r: bool)
    ensures
        r == holds_body(name@),
{
    same(name, "body") || same(name, "left") || same(name, "right")
}

fn is_list(t: &Tree) -> (r: bool)
    ensures
        r == (t@ is List),
{
    match t {
        Tree::List(_) => true,
        _ => false,
    }
}

fn is_record(t: &Tree) -> (r: bool)
    ensures
        r == (t@ is Record),
{
    match t {
        Tree::Record(_) => true,
        _ => false,
    }
}

/// Whether a record's own fields can be printed.
fn has_printable_fields(t: &Tree) -> (r: bool)
    ensures
        r == (quote_ok(t@) && interval_ok(t@) && fields_named(t@) && limit_ok(t@)),
{
    let quoted = match strip(t.at("quote_style")).text() {
        Some(q) => is_quote_text(q.as_str()) && (!same(q.as_str(), "'") || t.at(
            "keyword",
        ).is_null()),
        None => true,
    };
    let leading = strip(t.at("leading_field"));
    let seconds = leading.is_text("Second") || leading.payload("Second").is_some();
    let interval = !seconds || t.at("leading_precision").is_null() || t.at(
        "fractional_seconds_precision",
    ).is_null() || t.at("last_field").is_null();
    let listed = (match t.payload("Interval") {
        Some(p) => is_list(strip(p)),
        None => false,
    }) || (match t.payload("Word") {
        Some(p) => is_list(strip(p)),
        None => false,
    }) || (match t.payload("LimitOffset") {
        Some(p) => is_list(strip(p)),
        None => false,
    });
    let limit = match t.payload("LimitOffset") {
        Some(p) => {
            let limit = strip(strip(p).at("limit"));
            strip(strip(p).at("limit_by")).len() == 0 || is_record(limit) || limit.text().is_some()
        },
        None => true,
    };
    assert(listed == !fields_named(t@)) by {
        if listed {
            assert(t@.payload("Interval"@) is Some || t@.payload("Word"@) is Some || t@.payload(
                "LimitOffset"@,
            ) is Some);
        }
    }
    quoted && interval && !listed && limit
}

/// Whether a tree holds nothing that printing refuses.
fn is_displayable(t: &Tree) -> (r: bool)
    ensures
        r == displayable(t@),
    decreases t,
{
    match t {
        Tree::List(v) => {
            proof {
                list_view(*v);
            }
            let ident = v.len() == 3 && strip(&v[0]).text().is_some() && (match strip(
                &v[1],
            ).text() {
                Some(q) => q.as_str().unicode_len() == 1 && !is_quote_text(q.as_str()),
                None => false,
            }) && (is_record(strip(&v[2])) || is_list(strip(&v[2])));
            assert(ident == misquoted(list_of(v@)));
            if ident {
                return false;
            }
            let mut i: usize = 0;
            while i < v.len()
                invariant
                    i <= v@.len(),
                    *t == Tree::List(*v),
                    t@ == Syntax::List(list_of(v@)),
                    !misquoted(list_of(v@)),
                    forall|j: int|
                        0 <= j < i ==> !nameless_table(#[trigger] list_of(v@)[j]) && displayable(
                            list_of(v@)[j],
                        ),
                decreases v@.len() - i,
            {
                proof {
                    item_is_smaller(*t, i as int);
                }
                if is_nameless_table(&v[i]) || !is_displayable(&v[i]) {
                    assert(t@->List_0[i as int] == v@[i as int]@);
                    return false;
                }
                i = i + 1;
            }
            true
        },
        Tree::Record(v) => {
            proof {
                record_view(*v);
            }
            if !has_printable_fields(t) || !have_names_apart(v) {
                return false;
            }
            let mut i: usize = 0;
            while i < v.len()
                invariant
                    i <= v@.len(),
                    *t == Tree::Record(*v),
                    t@ == Syntax::Record(fields_of(v@)),
                    names_differ(fields_of(v@)),
                    quote_ok(t@) && interval_ok(t@) && fields_named(t@) && limit_ok(t@),
                    forall|j: int|
                        0 <= j < i ==> !(holds_body((#[trigger] fields_of(v@)[j]).0)
                            && nameless_table(fields_of(v@)[j].1)) && displayable(
                            fields_of(v@)[j].1,
                        ),
                decreases v@.len() - i,
            {
                proof {
                    field_is_smaller(*t, i as int);
                }
                let bad = may_hold_body(v[i].name.as_str()) && is_nameless_table(&v[i].value);
                if bad || !is_displayable(&v[i].value) {
                    assert(t@->Record_0[i as int] == (
                        v@[i as int].name@,
                        v@[i as int].value@,
                    ));
                    return false;
                }
                i = i + 1;
            }
            true
        },
        Tree::Expr(b) => is_displayable(b),
        Tree::Statement(b) => is_displayable(b),
        Tree::Relation(b) => is_displayable(b),
        _ => true,
    }
}

// --- finding the marked nodes --------------------------------------------

/// The identifier that marks a node: empty and unquoted.
pub open spec fn is_mark(ident: Syntax) -> bool {
    ident.at("value"@).is_text(""@) && ident.at("quote_style"@) == Syntax::Null
}

/// Whether a list is a relation name with the marking identifier before it.
pub open spec fn marked_relation(s: Seq<Syntax>) -> bool {
    &&& s.len() > 0
    &&& match s[0].payload("Identifier"@) {
        Some(id) => is_mark(id),
        None => false,
    }
}

/// The fields of the variant that a marked node is, or none.
pub open spec fn marked_fields(f: Seq<(Seq<char>, Syntax)>, tag: Seq<char>) -> Seq<
    (Seq<char>, Syntax),
> {
    if f.len() == 1 && f[0].0 == tag {
        match f[0].1 {
            Syntax::Record(g) => g,
            _ => Seq::empty(),
        }
    } else {
        Seq::empty()
    }
}

/// The items with the marked nodes made expression, statement and relation nodes.
pub open spec fn unmarked_items(s: Seq<Syntax>) -> Seq<Syntax>
    decreases s,
{
    Seq::new(
        s.len(),
        |i: int|
            if 0 <= i < s.len() {
                unmarked(s[i])
            } else {
                Syntax::Null
            },
    )
}

/// The tree with the marked nodes made expression, statement and relation nodes.
pub open spec fn unmarked(t: Syntax) -> Syntax
    decreases t,
{
    match t {
        Syntax::Record(f) => {
            let named = marked_fields(f, "Named"@);
            let prepared = marked_fields(f, "Prepare"@);
            if named.len() == 2 && is_mark(named[1].1) {
                Syntax::Expr(Box::new(unmarked(named[0].1)))
            } else if prepared.len() == 3 && is_mark(prepared[0].1) {
                Syntax::Statement(Box::new(unmarked(prepared[2].1)))
            } else {
                Syntax::Record(
                    Seq::new(
                        f.len(),
                        |i: int|
                            if 0 <= i < f.len() {
                                (f[i].0, unmarked(f[i].1))
                            } else {
                                (Seq::empty(), Syntax::Null)
                            },
                    ),
                )
            }
        },
        Syntax::List(s) => {
            if marked_relation(s) {
                Syntax::Relation(Box::new(Syntax::List(unmarked_items(s).skip(1))))
            } else {
                Syntax::List(unmarked_items(s))
            }
        },
        _ => t,
    }
}

fn is_mark_ident(t: &Tree) -> (r: bool)
    ensures
        r == is_mark(t@),
{
    t.at("value").is_text("") && t.at("quote_style").is_null()
}

/// The tree with the marked nodes made expression, statement and relation nodes.
fn unmark(t: &Tree) -> (r: Tree)
    ensures
        r@ == unmarked(t@),
    decreases t,
{
    match t {
        Tree::Record(v) => {
            proof {
                record_view(*v);
            }
            if v.len() == 1 {
                proof {
                    field_is_smaller(*t, 0);
                }
                if let Tree::Record(g) = &v[0].value {
                    proof {
                        record_view(*g);
                        assert(fields_of(v@)[0].1 == Syntax::Record(fields_of(g@)));
                    }
                    let named = same(v[0].name.as_str(), "Named");
                    if named && g.len() == 2 && is_mark_ident(&g[1].value) {
                        proof {
                            field_is_smaller(v@[0].value, 0);
                        }
                        return Tree::Expr(Box::new(unmark(&g[0].value)));
                    }
                    let prepared = same(v[0].name.as_str(), "Prepare");
                    if prepared && g.len() == 3 && is_mark_ident(&g[0].value) {
                        proof {
                            reveal_strlit("Named");
                            reveal_strlit("Prepare");
                            assert("Named"@.len() != "Prepare"@.len());
                            field_is_smaller(v@[0].value, 2);
                        }
                        return Tree::Statement(Box::new(unmark(&g[2].value)));
                    }
                }
            }
            let mut out: Vec<Field> = Vec::new();
            let mut i: usize = 0;
            while i < v.len()
                invariant
                    i <= v@.len(),
                    out@.len() == i,
                    *t == Tree::Record(*v),
                    forall|j: int|
                        0 <= j < i ==> (#[trigger] out@[j]).name@ == v@[j].name@
                            && out@[j].value@ == unmarked(v@[j].value@),
                decreases v@.len() - i,
            {
                proof {
                    field_is_smaller(*t, i as int);
                }
                out.push(Field { name: v[i].name.clone(), value: unmark(&v[i].value) });
                i = i + 1;
            }
            let r = Tree::Record(out);
            proof {
                record_view(out);
                assert(unmarked(t@) is Record);
                assert(fields_of(out@) =~= unmarked(t@)->Record_0);
            }
            r
        },
        Tree::List(v) => {
            proof {
                list_view(*v);
            }
            let relation = v.len() > 0 && (match v[0].payload("Identifier") {
                Some(id) => is_mark_ident(id),
                None => false,
            });
            let skip: usize = if relation {
                1
            } else {
                0
            };
            assert(list_of(v@).len() == v@.len());
            assert(v@.len() > 0 ==> list_of(v@)[0] == v@[0]@);
            assert(relation == marked_relation(list_of(v@)));
            let ghost items = unmarked_items(list_of(v@));
            let mut out: Vec<Tree> = Vec::new();
            let mut i: usize = skip;
            while i < v.len()
                invariant
                    skip <= i <= v@.len(),
                    out@.len() == i - skip,
                    items.len() == v@.len(),
                    *t == Tree::List(*v),
                    forall|j: int| 0 <= j < v@.len() ==> items[j] == unmarked(v@[j]@),
                    forall|j: int|
                        0 <= j < out@.len() ==> (#[trigger] out@[j])@ == items[j + skip],
                decreases v@.len() - i,
            {
                proof {
                    item_is_smaller(*t, i as int);
                }
                out.push(unmark(&v[i]));
                i = i + 1;
            }
            proof {
                list_view(out);
                if relation {
                    assert(list_of(out@) =~= items.skip(1));
                } else {
                    assert(list_of(out@) =~= items);
                }
            }
            if relation {
                Tree::Relation(Box::new(Tree::List(out)))
            } else {
                Tree::List(out)
            }
        },
        _ => {
            assert(unmarked(t@) == t@) by {
                match t@ {
                    Syntax::Record(f) => {},
                    Syntax::List(f) => {},
                    _ => {},
                }
            }
            t.copy()
        },
    }
}

// --- whole texts ----------------------------------------------------------

/// The message for a text that is not handed to the parser.
pub open spec fn flush_message() -> Seq<char> {
    "FLUSH RELAY LOGS FOR CHANNEL is not supported"@
}

/// The tree of the statements of a text, or the error that the text gives.
pub open spec fn statements_of(dialect: SqlDialect, sql: Seq<char>) -> Result<Syntax, SqlFault> {
    if parser_stops(dialect, sql) {
        Err(SqlFault::Parse(flush_message()))
    } else {
        match parsed_statements(dialect, sql) {
            Ok(t) => Ok(unmarked(t)),
            Err(e) => Err(SqlFault::Parse(e)),
        }
    }
}

fn stops_parser(dialect: SqlDialect, sql: &str) -> (r: bool)
    ensures
        r == parser_stops(dialect, sql@),
{
    match dialect {
        SqlDialect::Postgres => false,
        SqlDialect::Generic => {
            let upper = chars(to_uppercase(sql).as_str());
            let words = vec!["FLUSH", "RELAY", "LOGS", "FOR", "CHANNEL"];
            let ghost all = flush_words();
            let length: usize = upper.len();
            let mut end: usize = 0;
            let mut i: usize = 0;
            while i < 5
                invariant
                    i <= 5,
                    words@.len() == 5,
                    all == flush_words(),
                    forall|j: int| 0 <= j < 5 ==> (#[trigger] words@[j])@ == all[j],
                    upper@ == uppercased(sql@),
                    end_of_words(upper@, all, i as nat) == Some(end as nat),
                    end <= upper@.len(),
                    length == upper@.len(),
                decreases 5 - i,
            {
                let word = chars(words[i]);
                match find_text_from(&upper, &word, end) {
                    Some(at) => {
                        end = at + word.len();
                    },
                    None => {
                        proof {
                            no_end_of_words(upper@, all, (i + 1) as nat, 5);
                        }
                        return false;
                    },
                }
                i = i + 1;
            }
            true
        },
    }
}

proof fn no_end_of_words(s: Seq<char>, words: Seq<Seq<char>>, i: nat, n: nat)
    requires
        i <= n,
        end_of_words(s, words, i) is None,
    ensures
        end_of_words(s, words, n) is None,
    decreases n,
{
    if i < n {
        no_end_of_words(s, words, i, (n - 1) as nat);
    }
}

/// Parses `sql` into the list of its statements.
pub fn parse(dialect: SqlDialect, sql: &str) -> (r: Result<Tree, SqlError>)
    ensures
        match r {
            Ok(t) => statements_of(dialect, sql@) == Ok::<Syntax, SqlFault>(t@),
            Err(e) => statements_of(dialect, sql@) == Err::<Syntax, SqlFault>(e@),
        },
{
    if stops_parser(dialect, sql) {
        return Err(SqlError::Parse("FLUSH RELAY LOGS FOR CHANNEL is not supported".to_owned()));
    }
    match parse_marked(dialect, sql) {
        Ok(t) => Ok(unmark(&t)),
        Err(e) => Err(SqlError::Parse(e)),
    }
}

/// The text of one statement, where the tree has one.
pub open spec fn statement_string(t: Syntax) -> Option<Seq<char>> {
    if displayable(t) {
        printed_statement(t)
    } else {
        None
    }
}

/// The text of one expression, where the tree has one.
pub open spec fn expr_string(t: Syntax) -> Option<Seq<char>> {
    if displayable(t) {
        printed_expr(t)
    } else {
        None
    }
}

/// The text of one expression, where the tree has one.
pub fn print_expr(t: &Tree) -> (r: Option<String>)
    ensures
        match r {
            Some(s) => expr_string(t@) == Some(s@),
            None => expr_string(t@) is None,
        },
{
    if is_displayable(t) {
        expr_text(t)
    } else {
        None
    }
}

/// The text of a data type, if it can be printed.
pub open spec fn type_string(t: Syntax) -> Option<Seq<char>> {
    if displayable(t) {
        printed_type(t)
    } else {
        None
    }
}

/// The text of a data type, if it can be printed.
pub fn print_type(t: &Tree) -> (r: Option<String>)
    ensures
        match r {
            Some(s) => type_string(t@) == Some(s@),
            None => type_string(t@) is None,
        },
{
    if is_displayable(t) {
        type_text(t)
    } else {
        None
    }
}

/// The text of an object name, if it can be printed.
pub open spec fn name_string(t: Syntax) -> Option<Seq<char>> {
    if displayable(t) {
        printed_name(t)
    } else {
        None
    }
}

/// The text of an object name, if it can be printed.
pub fn print_name(t: &Tree) -> (r: Option<String>)
    ensures
        match r {
            Some(s) => name_string(t@) == Some(s@),
            None => name_string(t@) is None,
        },
{
    if is_displayable(t) {
        name_text(t)
    } else {
        None
    }
}

/// The texts of the first `n` statements, where each of them has one.
pub open spec fn statement_strings(s: Seq<Syntax>, n: nat) -> Option<Seq<Seq<char>>>
    decreases n,
{
    if n == 0 || n > s.len() {
        Some(Seq::empty())
    } else {
        match (statement_strings(s, (n - 1) as nat), statement_string(s[n - 1])) {
            (Some(done), Some(last)) => Some(done.push(last)),
            _ => None,
        }
    }
}

/// The text of a list of statements, with `sep` between them.
pub open spec fn printed(t: Syntax, sep: Seq<char>) -> Result<Seq<char>, SqlFault> {
    match statement_strings(t.items(), t.items().len()) {
        Some(texts) => Ok(joined(texts, sep)),
        None => Err(SqlFault::Unprintable),
    }
}

proof fn unprintable_prefix(s: Seq<Syntax>, i: nat, n: nat)
    requires
        i <= n <= s.len(),
        statement_strings(s, i) is None,
    ensures
        statement_strings(s, n) is None,
    decreases n,
{
    if i < n {
        unprintable_prefix(s, i, (n - 1) as nat);
    }
}

/// Prints a list of statements, with `sep` between them.
pub fn print(t: &Tree, sep: &str) -> (r: Result<String, SqlError>)
    ensures
        outcome(r) == printed(t@, sep@),
{
    let n: usize = t.len();
    let mut texts: Vec<String> = Vec::new();
    let mut i: usize = 0;
    assert(crate::text::views(texts@) =~= Seq::empty());
    while i < n
        invariant
            i <= n,
            n == t@.items().len(),
            statement_strings(t@.items(), i as nat) == Some(crate::text::views(texts@)),
        decreases n - i,
    {
        let item = t.item(i);
        let ghost done = crate::text::views(texts@);
        let text = if is_displayable(item) {
            statement_text(item)
        } else {
            None
        };
        match text {
            Some(s) => {
                texts.push(s);
                assert(crate::text::views(texts@) =~= done.push(s@));
            },
            None => {
                proof {
                    assert(statement_strings(t@.items(), (i + 1) as nat) is None);
                    unprintable_prefix(t@.items(), (i + 1) as nat, n as nat);
                }
                return Err(SqlError::Unprintable);
            },
        }
        i = i + 1;
    }
    Ok(join(&texts, sep))
}

} // verus!
