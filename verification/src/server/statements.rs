//! The statements that a server answers itself, and what it reports of errors.
use crate::sql::ast::{get_ident_text, ident_text};
use crate::sql::parse::{parse, statements_of, SqlDialect};
use crate::sql::tree::{Syntax, Tree};
use crate::text::{
    chars, find_part, find_text, index_from, lowercased, same, slice_text, starts_with,
    text_starts_with, to_lowercase, trim, trimmed, Trim,
};
use vstd::prelude::*;

verus! {

// --- errors -----------------------------------------------------------------------------------

/// The name that a planning error says is not a function: what stands between quotes after
/// `Invalid function`.
pub open spec fn unknown_function(text: Seq<char>) -> Option<Seq<char>> {
    let marker = "Invalid function '"@;
    match find_part(text, marker) {
        Some(at) => {
            let rest = text.skip((at + marker.len()) as int);
            match index_from(rest, '\'', 0) {
                Some(end) => Some(rest.take(end as int)),
                None => None,
            }
        },
        None => None,
    }
}

/// The function that a planning error says does not exist.
pub fn unknown_function_name(text: &str) -> (r: Option<String>)
    ensures
        match r {
            Some(s) => unknown_function(text@) == Some(s@),
            None => unknown_function(text@) is None,
        },
{
    let v = chars(text);
    let n: usize = v.len();
    let marker = chars("Invalid function '");
    match find_text(&v, &marker) {
        Some(at) => {
            let start: usize = at + marker.len();
            let ghost rest = v@.skip(start as int);
            let mut i: usize = start;
            while i < n
                invariant
                    start <= i <= n,
                    n == v@.len(),
                    v@ == text@,
                    rest == v@.skip(start as int),
                    index_from(rest, '\'', 0) == index_from(rest, '\'', (i - start) as nat),
                    unknown_function(text@) == (match index_from(rest, '\'', 0) {
                        Some(end) => Some(rest.take(end as int)),
                        None => None,
                    }),
                decreases v@.len() - i,
            {
                assert(rest[i - start] == v@[i as int]);
                if v[i] == '\'' {
                    assert(rest.take(i - start) =~= v@.subrange(start as int, i as int));
                    return Some(slice_text(&v, start, i));
                }
                i = i + 1;
            }
            None
        },
        None => None,
    }
}

/// What a client is told of a failed query.
#[derive(Debug, PartialEq, Eq)]
pub enum ErrorReport {
    /// The query calls a function that does not exist.
    User { severity: String, code: String, message: String },
    /// The engine's own message is passed on.
    Internal(String),
}

/// What an [`ErrorReport`] says.
pub enum ErrorView {
    User { severity: Seq<char>, code: Seq<char>, message: Seq<char> },
    Internal(Seq<char>),
}

impl View for ErrorReport {
    type V = ErrorView;

    open spec fn view(&self) -> ErrorView {
        match *self {
            ErrorReport::User { severity, code, message } => ErrorView::User {
                severity: severity@,
                code: code@,
                message: message@,
            },
            ErrorReport::Internal(s) => ErrorView::Internal(s@),
        }
    }
}

/// What a client is told of an error with this text.
pub open spec fn reported(text: Seq<char>) -> ErrorView {
    match unknown_function(text) {
        Some(name) => ErrorView::User {
            severity: "ERROR"@,
            code: "42883"@,
            message: "function "@ + name + "() does not exist"@,
        },
        None => ErrorView::Internal(text),
    }
}

/// What a client is told of an error: a call of a function that does not exist has the
/// SQLSTATE that PostgreSQL gives it, so that clients can key on it.
pub fn error_report(text: &str) -> (r: ErrorReport)
    ensures
        r@ == reported(text@),
{
    match unknown_function_name(text) {
        Some(name) => {
            let mut message = "function ".to_owned();
            message.append(name.as_str());
            message.append("() does not exist");
            ErrorReport::User {
                severity: "ERROR".to_owned(),
                code: "42883".to_owned(),
                message,
            }
        },
        None => ErrorReport::Internal(text.to_owned()),
    }
}

// --- statements -------------------------------------------------------------------------------

/// The settings of a client that the server keeps itself.
#[derive(Debug)]
pub struct ClientOpts {
    pub application_name: String,
    pub datestyle: String,
    pub search_path: String,
}

/// What [`ClientOpts`] say.
pub struct OptsView {
    pub application_name: Seq<char>,
    pub datestyle: Seq<char>,
    pub search_path: Seq<char>,
}

impl View for ClientOpts {
    type V = OptsView;

    open spec fn view(&self) -> OptsView {
        OptsView {
            application_name: self.application_name@,
            datestyle: self.datestyle@,
            search_path: self.search_path@,
        }
    }
}

/// What settings that may be absent say.
pub open spec fn opts_view(opts: Option<ClientOpts>) -> Option<OptsView> {
    match opts {
        Some(o) => Some(o@),
        None => None,
    }
}

/// The value of a setting that the server keeps itself.
pub open spec fn setting(opts: Option<OptsView>, name: Seq<char>) -> Option<Seq<char>> {
    match opts {
        Some(o) => if name == "application_name"@ {
            Some(o.application_name)
        } else if name == "datestyle"@ {
            Some(o.datestyle)
        } else if name == "search_path"@ {
            Some(o.search_path)
        } else {
            None
        },
        None => None,
    }
}

fn find_setting<'a>(opts: &'a Option<ClientOpts>, name: &str) -> (r: Option<&'a String>)
    ensures
        match r {
            Some(s) => setting(opts_view(*opts), name@) == Some(s@),
            None => setting(opts_view(*opts), name@) is None,
        },
{
    match opts {
        Some(o) => if same(name, "application_name") {
            Some(&o.application_name)
        } else if same(name, "datestyle") {
            Some(&o.datestyle)
        } else if same(name, "search_path") {
            Some(&o.search_path)
        } else {
            None
        },
        None => None,
    }
}

/// The setting that statements show, if they are one statement `SHOW name`.
pub open spec fn variable_of(t: Syntax) -> Option<Seq<char>> {
    if t.items().len() != 1 {
        None
    } else {
        match t.items()[0] {
            Syntax::Statement(s) => match s.payload("ShowVariable"@) {
                Some(show) => if show.at("variable"@).items().len() == 1 {
                    ident_text(show.at("variable"@).items()[0])
                } else {
                    None
                },
                None => None,
            },
            _ => None,
        }
    }
}

/// The setting that the statements `t` show, if they are one statement `SHOW name`.
pub fn find_shown_variable(t: &Tree) -> (r: Option<String>)
    ensures
        match r {
            Some(s) => variable_of(t@) == Some(s@),
            None => variable_of(t@) is None,
        },
{
    if t.len() != 1 {
        return None;
    }
    if let Tree::Statement(s) = t.item(0) {
        if let Some(show) = s.payload("ShowVariable") {
            let names = show.at("variable");
            if names.len() == 1 {
                return match get_ident_text(names.item(0)) {
                    Some(text) => Some(text.clone()),
                    None => None,
                };
            }
        }
    }
    None
}

/// The setting that a text shows, if it is one statement `SHOW name`.
pub open spec fn shown_variable(sql: Seq<char>) -> Option<Seq<char>> {
    match statements_of(SqlDialect::Postgres, sql) {
        Ok(t) => variable_of(t),
        Err(_) => None,
    }
}

/// The setting that `sql` shows, if it is one statement `SHOW name`.
pub fn parse_show_variable_name(sql: &str) -> (r: Option<String>)
    ensures
        match r {
            Some(s) => shown_variable(sql@) == Some(s@),
            None => shown_variable(sql@) is None,
        },
{
    match parse(SqlDialect::Postgres, sql) {
        Ok(t) => find_shown_variable(&t),
        Err(_) => None,
    }
}

/// The answer of a server to a statement that it answers itself.
#[derive(Debug, PartialEq, Eq)]
pub enum Answer {
    /// The statement is done; the tag that says so.
    Done(String),
    /// One row with one text.
    Row { column: String, value: String },
}

/// What an [`Answer`] says.
pub enum AnswerView {
    Done(Seq<char>),
    Row { column: Seq<char>, value: Seq<char> },
}

impl View for Answer {
    type V = AnswerView;

    open spec fn view(&self) -> AnswerView {
        match *self {
            Answer::Done(tag) => AnswerView::Done(tag@),
            Answer::Row { column, value } => AnswerView::Row { column: column@, value: value@ },
        }
    }
}

/// What an answer that may be absent says.
pub open spec fn answer_view(a: Option<Answer>) -> Option<AnswerView> {
    match a {
        Some(x) => Some(x@),
        None => None,
    }
}

/// A statement as a client sent it, without the space around it, and the same in small
/// letters.
#[derive(Debug, PartialEq, Eq)]
pub struct SentStatement {
    pub text: String,
    pub low: String,
}

/// Reads a statement as a client sent it.
pub fn read_statement(query: &str) -> (r: SentStatement)
    ensures
        r.text@ == trimmed(Trim::Space, query@),
        r.low@ == lowercased(r.text@),
{
    let text = trim(Trim::Space, query);
    let low = to_lowercase(text.as_str());
    SentStatement { text, low }
}

/// The statement that asks for the isolation level.
pub open spec fn is_isolation_probe(low: Seq<char>) -> bool {
    low == "show transaction isolation level"@
}

/// The isolation level that clients are told.
pub open spec fn isolation_row() -> AnswerView {
    AnswerView::Row { column: "transaction_isolation"@, value: "read committed"@ }
}

/// The answer to `SHOW` of a setting, whose name is in small letters; none where the server
/// does not keep the setting.
pub open spec fn setting_row(opts: Option<OptsView>, name: Seq<char>) -> Option<AnswerView> {
    match setting(opts, name) {
        Some(value) => Some(AnswerView::Row { column: name, value }),
        None => None,
    }
}

/// The answer to a statement `SHOW name` of a setting that the server keeps.
pub open spec fn shown_setting(opts: Option<OptsView>, sql: Seq<char>) -> Option<AnswerView> {
    match shown_variable(sql) {
        Some(var) => setting_row(opts, lowercased(var)),
        None => None,
    }
}

/// The answer to the statement `sql` of the simple protocol, which is `low` in small letters:
/// transaction control, `DISCARD ALL`, the probe for the isolation level, a `SHOW` of a setting
/// that the server keeps, and the empty statement. Other statements are queries.
pub open spec fn simple_answer(opts: Option<OptsView>, sql: Seq<char>, low: Seq<char>) -> Option<
    AnswerView,
> {
    if starts_with(low, "begin"@) {
        Some(AnswerView::Done("BEGIN"@))
    } else if starts_with(low, "commit"@) {
        Some(AnswerView::Done("COMMIT"@))
    } else if starts_with(low, "rollback"@) {
        Some(AnswerView::Done("ROLLBACK"@))
    } else if starts_with(low, "discard all"@) {
        Some(AnswerView::Done("DISCARD ALL"@))
    } else if is_isolation_probe(low) {
        Some(isolation_row())
    } else if shown_variable(sql) is Some {
        shown_setting(opts, sql)
    } else if low.len() == 0 {
        Some(AnswerView::Done(""@))
    } else {
        None
    }
}

/// The answer to the statement `sql` of the extended protocol, which is `low` in small letters:
/// the empty statement, `DISCARD ALL`, the probe for the isolation level, and a `SHOW` of a
/// setting that the server keeps.
pub open spec fn extended_answer(opts: Option<OptsView>, sql: Seq<char>, low: Seq<char>) -> Option<
    AnswerView,
> {
    if sql.len() == 0 {
        Some(AnswerView::Done(""@))
    } else if starts_with(low, "discard all"@) {
        Some(AnswerView::Done("DISCARD ALL"@))
    } else if is_isolation_probe(low) {
        Some(isolation_row())
    } else {
        shown_setting(opts, sql)
    }
}

/// Answers the probe for the isolation level.
pub fn transaction_isolation_response() -> (r: Answer)
    ensures
        r@ == isolation_row(),
{
    Answer::Row {
        column: "transaction_isolation".to_owned(),
        value: "read committed".to_owned(),
    }
}

/// Answers `SHOW` of the setting `name`, a name in small letters; `None` where the server does
/// not keep the setting.
pub fn show_variable_response(opts: &Option<ClientOpts>, name: &str) -> (r: Option<Answer>)
    ensures
        answer_view(r) == setting_row(opts_view(*opts), name@),
{
    match find_setting(opts, name) {
        Some(value) => Some(Answer::Row { column: name.to_owned(), value: value.clone() }),
        None => None,
    }
}

fn show_response(opts: &Option<ClientOpts>, sql: &str) -> (r: Option<Answer>)
    ensures
        answer_view(r) == shown_setting(opts_view(*opts), sql@),
{
    match parse_show_variable_name(sql) {
        Some(var) => {
            let name = to_lowercase(var.as_str());
            show_variable_response(opts, name.as_str())
        },
        None => None,
    }
}

/// Answers the statement `sql` of the simple protocol, which is `low` in small letters; `None`
/// where it is a query to be planned.
pub fn simple_query_builtin_response(opts: &Option<ClientOpts>, sql: &str, low: &str) -> (r: Option<
    Answer,
>)
    ensures
        answer_view(r) == simple_answer(opts_view(*opts), sql@, low@),
{
    if text_starts_with(low, "begin") {
        Some(Answer::Done("BEGIN".to_owned()))
    } else if text_starts_with(low, "commit") {
        Some(Answer::Done("COMMIT".to_owned()))
    } else if text_starts_with(low, "rollback") {
        Some(Answer::Done("ROLLBACK".to_owned()))
    } else if text_starts_with(low, "discard all") {
        Some(Answer::Done("DISCARD ALL".to_owned()))
    } else if same(low, "show transaction isolation level") {
        Some(transaction_isolation_response())
    } else if parse_show_variable_name(sql).is_some() {
        show_response(opts, sql)
    } else if chars(low).len() == 0 {
        assert(""@ =~= Seq::empty()) by {
            reveal_strlit("");
        }
        Some(Answer::Done("".to_owned()))
    } else {
        None
    }
}

/// Answers the statement `sql` of the extended protocol, which is `low` in small letters;
/// `None` where it is a query to be planned.
pub fn extended_query_builtin_response(opts: &Option<ClientOpts>, sql: &str, low: &str) -> (r:
    Option<Answer>)
    ensures
        answer_view(r) == extended_answer(opts_view(*opts), sql@, low@),
{
    if chars(sql).len() == 0 {
        Some(Answer::Done("".to_owned()))
    } else if text_starts_with(low, "discard all") {
        Some(Answer::Done("DISCARD ALL".to_owned()))
    } else if same(low, "show transaction isolation level") {
        Some(transaction_isolation_response())
    } else {
        show_response(opts, sql)
    }
}

/// The columns, all of them texts, that the statement `sql` is described with without being
/// run, where it is `low` in small letters: none for the empty statement and `DISCARD ALL`, one
/// for the isolation level, and the two of every other `SHOW`.
pub open spec fn described(sql: Seq<char>, low: Seq<char>) -> Option<Seq<Seq<char>>> {
    if sql.len() == 0 || starts_with(low, "discard all"@) {
        Some(Seq::empty())
    } else if is_isolation_probe(low) {
        Some(seq!["transaction_isolation"@])
    } else if starts_with(low, "show "@) {
        Some(seq!["name"@].push("setting"@))
    } else {
        None
    }
}

/// The columns of the statement `sql`, which is `low` in small letters, where it is described
/// without being run; `None` where it has to be run.
pub fn describe_builtin(sql: &str, low: &str) -> (r: Option<Vec<&'static str>>)
    ensures
        match r {
            Some(v) => described(sql@, low@) == Some(v@.map_values(|s: &'static str| s@)),
            None => described(sql@, low@) is None,
        },
{
    let mut out: Vec<&'static str> = Vec::new();
    if chars(sql).len() == 0 || text_starts_with(low, "discard all") {
        assert(out@.map_values(|s: &'static str| s@) =~= Seq::empty());
        return Some(out);
    }
    if same(low, "show transaction isolation level") {
        out.push("transaction_isolation");
        assert(out@.map_values(|s: &'static str| s@) =~= seq!["transaction_isolation"@]);
        return Some(out);
    }
    if text_starts_with(low, "show ") {
        out.push("name");
        out.push("setting");
        assert(out@.map_values(|s: &'static str| s@) =~= seq!["name"@].push("setting"@));
        return Some(out);
    }
    None
}

/// Whether a query of the simple protocol, in small letters, is answered with the tag `SET` in
/// place of the rows that it has.
pub fn is_set_statement(low: &str) -> (r: bool)
    ensures
        r == starts_with(low@, "set"@),
{
    text_starts_with(low, "set")
}

/// Whether a query, in small letters, reads the table of users that the server itself keeps.
pub fn reads_demo_users(low: &str) -> (r: bool)
    ensures
        r == (find_part(low@, "from users"@) is Some),
{
    find_text(&chars(low), &chars("from users")).is_some()
}

// --- laws -------------------------------------------------------------------------------------

/// A statement that is neither empty nor transaction control, and that the extended protocol
/// answers, has the same answer in the simple protocol.
pub proof fn protocols_agree(opts: Option<OptsView>, sql: Seq<char>, low: Seq<char>)
    requires
        extended_answer(opts, sql, low) is Some,
        sql.len() > 0,
        !starts_with(low, "begin"@),
        !starts_with(low, "commit"@),
        !starts_with(low, "rollback"@),
    ensures
        simple_answer(opts, sql, low) == extended_answer(opts, sql, low),
{
}

} // verus!
