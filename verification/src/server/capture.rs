//! The record of the queries that a server has answered, as a YAML text.
use super::json::{
    json_entry_is_smaller, json_item_is_smaller, json_list_view, json_object_view, values_of, Json,
    JsonView,
};
use crate::sorted::entries_of;
use crate::text::chars;
use vstd::prelude::*;

verus! {

// --- values -----------------------------------------------------------------------------------

/// A character inside quotes. A quote and a backslash have a backslash before them, and the end
/// of a line is written as a letter, so that a text stays on its line.
pub open spec fn escaped_char(c: char) -> Seq<char> {
    if c == '"' || c == '\\' {
        seq!['\\', c]
    } else if c == '\n' {
        seq!['\\', 'n']
    } else if c == '\r' {
        seq!['\\', 'r']
    } else {
        seq![c]
    }
}

/// A text inside quotes.
pub open spec fn escaped(s: Seq<char>) -> Seq<char>
    decreases s.len(),
{
    if s.len() == 0 {
        Seq::empty()
    } else {
        escaped(s.drop_last()) + escaped_char(s.last())
    }
}

/// What a reader makes of a text inside quotes.
pub open spec fn unescaped(t: Seq<char>) -> Seq<char>
    decreases t.len(),
{
    if t.len() == 0 {
        Seq::empty()
    } else if t[0] == '\\' && t.len() > 1 {
        let c = if t[1] == 'n' {
            '\n'
        } else if t[1] == 'r' {
            '\r'
        } else {
            t[1]
        };
        seq![c] + unescaped(t.skip(2))
    } else {
        seq![t[0]] + unescaped(t.skip(1))
    }
}

fn push_escaped(out: &mut String, s: &str)
    ensures
        final(out)@ == old(out)@ + escaped(s@),
{
    let v = chars(s);
    let mut i: usize = 0;
    assert(v@.take(0) =~= Seq::empty());
    assert(out@ + Seq::<char>::empty() =~= out@);
    while i < v.len()
        invariant
            i <= v@.len(),
            v@ == s@,
            out@ == old(out)@ + escaped(v@.take(i as int)),
        decreases v@.len() - i,
    {
        let ghost next = v@.take(i + 1);
        assert(next.drop_last() =~= v@.take(i as int));
        assert(next.last() == v@[i as int]);
        let c = v[i];
        if c == '"' || c == '\\' {
            out.push('\\');
            out.push(c);
        } else if c == '\n' {
            out.push('\\');
            out.push('n');
        } else if c == '\r' {
            out.push('\\');
            out.push('r');
        } else {
            out.push(c);
        }
        i = i + 1;
        assert(out@ =~= old(out)@ + escaped(next));
    }
    assert(v@.take(i as int) =~= v@);
}

/// The YAML text of a value. The entries of a list and of an object stand on lines of their
/// own, after `pad`.
pub open spec fn yaml(v: JsonView, pad: Seq<char>) -> Seq<char>
    decreases v, 0nat,
{
    match v {
        JsonView::Null => "null"@,
        JsonView::Bool(b) => if b {
            "true"@
        } else {
            "false"@
        },
        JsonView::Number(n) => n,
        JsonView::Text(s) => "\""@ + escaped(s) + "\""@,
        JsonView::List(items) => if items.len() == 0 {
            "[]"@
        } else {
            yaml_items(items, items.len(), pad)
        },
        JsonView::Object(entries) => if entries.len() == 0 {
            "{}"@
        } else {
            yaml_entries(entries, entries.len(), pad)
        },
    }
}

/// The first `n` items of a list, each on a line of its own.
pub open spec fn yaml_items(items: Seq<JsonView>, n: nat, pad: Seq<char>) -> Seq<char>
    decreases items, n,
{
    if n == 0 || n > items.len() {
        Seq::empty()
    } else {
        yaml_items(items, (n - 1) as nat, pad) + "\n"@ + pad + "- "@ + yaml(
            items[n - 1],
            pad + "  "@,
        )
    }
}

/// The first `n` entries of an object, each on a line of its own.
pub open spec fn yaml_entries(entries: Seq<(Seq<char>, JsonView)>, n: nat, pad: Seq<char>) -> Seq<
    char,
>
    decreases entries, n,
{
    if n == 0 || n > entries.len() {
        Seq::empty()
    } else {
        proof {
            assert(decreases_to!(entries => entries[n - 1]));
            assert(decreases_to!(entries[n - 1] => entries[n - 1].1));
        }
        yaml_entries(entries, (n - 1) as nat, pad) + "\n"@ + pad + entries[n - 1].0 + ": "@ + yaml(
            entries[n - 1].1,
            pad + "  "@,
        )
    }
}

/// Adds the YAML text of `v` to `out`.
pub fn encode_yaml_value(v: &Json, pad: &str, out: &mut String)
    ensures
        final(out)@ == old(out)@ + yaml(v@, pad@),
    decreases v,
{
    match v {
        Json::Null => out.append("null"),
        Json::Bool(b) => if *b {
            out.append("true");
        } else {
            out.append("false");
        },
        Json::Number(n) => out.append(n.as_str()),
        Json::Text(s) => {
            out.append("\"");
            push_escaped(out, s.as_str());
            out.append("\"");
            assert(out@ =~= old(out)@ + yaml(v@, pad@));
        },
        Json::List(items) => {
            proof {
                json_list_view(*items);
            }
            let ghost all = values_of(items@);
            if items.len() == 0 {
                out.append("[]");
            } else {
                let mut deeper = pad.to_owned();
                deeper.append("  ");
                let mut i: usize = 0;
                assert(out@ + Seq::<char>::empty() =~= out@);
                while i < items.len()
                    invariant
                        i <= items@.len(),
                        *v == Json::List(*items),
                        all == values_of(items@),
                        deeper@ == pad@ + "  "@,
                        out@ == old(out)@ + yaml_items(all, i as nat, pad@),
                    decreases items@.len() - i,
                {
                    proof {
                        json_item_is_smaller(*v, i as int);
                    }
                    out.append("\n");
                    out.append(pad);
                    out.append("- ");
                    encode_yaml_value(&items[i], deeper.as_str(), out);
                    assert(all[i as int] == items@[i as int]@);
                    i = i + 1;
                    assert(out@ =~= old(out)@ + yaml_items(all, i as nat, pad@));
                }
            }
        },
        Json::Object(entries) => {
            proof {
                json_object_view(*entries);
            }
            let ghost all = entries_of(entries@);
            if entries.len() == 0 {
                out.append("{}");
            } else {
                let mut deeper = pad.to_owned();
                deeper.append("  ");
                let mut i: usize = 0;
                assert(out@ + Seq::<char>::empty() =~= out@);
                while i < entries.len()
                    invariant
                        i <= entries@.len(),
                        *v == Json::Object(*entries),
                        all == entries_of(entries@),
                        deeper@ == pad@ + "  "@,
                        out@ == old(out)@ + yaml_entries(all, i as nat, pad@),
                    decreases entries@.len() - i,
                {
                    proof {
                        json_entry_is_smaller(*v, i as int);
                    }
                    out.append("\n");
                    out.append(pad);
                    out.append(entries[i].0.as_str());
                    out.append(": ");
                    encode_yaml_value(&entries[i].1, deeper.as_str(), out);
                    assert(all[i as int] == (entries@[i as int].0@, entries@[i as int].1@));
                    i = i + 1;
                    assert(out@ =~= old(out)@ + yaml_entries(all, i as nat, pad@));
                }
            }
        },
    }
}

// --- queries ----------------------------------------------------------------------------------

/// One query that was answered.
#[derive(Debug)]
pub struct CapturedQuery {
    /// The text that the client sent.
    pub query: String,
    /// The bound parameters; `None` for NULL, and for a type that is not recorded.
    pub parameters: Vec<Option<Json>>,
    /// The rows that were sent back, each sorted by column name.
    pub result: Vec<Vec<(String, Json)>>,
    pub success: bool,
    /// What the client was told, where the query failed.
    pub error_details: Option<String>,
}

/// What a [`CapturedQuery`] says.
#[verifier::ext_equal]
pub struct CapturedView {
    pub query: Seq<char>,
    pub parameters: Seq<Option<JsonView>>,
    pub result: Seq<Seq<(Seq<char>, JsonView)>>,
    pub success: bool,
    pub error_details: Option<Seq<char>>,
}

/// What a list of parameters says.
pub open spec fn parameters_of(v: Seq<Option<Json>>) -> Seq<Option<JsonView>> {
    Seq::new(
        v.len(),
        |i: int|
            match v[i] {
                Some(x) => Some(x@),
                None => None,
            },
    )
}

/// What a list of rows says.
pub open spec fn rows_of(v: Seq<Vec<(String, Json)>>) -> Seq<Seq<(Seq<char>, JsonView)>> {
    Seq::new(v.len(), |i: int| entries_of(v[i]@))
}

impl View for CapturedQuery {
    type V = CapturedView;

    open spec fn view(&self) -> CapturedView {
        CapturedView {
            query: self.query@,
            parameters: parameters_of(self.parameters@),
            result: rows_of(self.result@),
            success: self.success,
            error_details: match self.error_details {
                Some(s) => Some(s@),
                None => None,
            },
        }
    }
}

/// What a list of captured queries says.
pub open spec fn captured(v: Seq<CapturedQuery>) -> Seq<CapturedView> {
    Seq::new(v.len(), |i: int| v[i]@)
}

/// The parameters as a JSON list: `null` stands for an absent one.
pub open spec fn parameters_value(p: Seq<Option<JsonView>>) -> JsonView {
    JsonView::List(
        Seq::new(
            p.len(),
            |i: int|
                match p[i] {
                    Some(x) => x,
                    None => JsonView::Null,
                },
        ),
    )
}

/// The rows as a JSON list of objects.
pub open spec fn rows_value(r: Seq<Seq<(Seq<char>, JsonView)>>) -> JsonView {
    JsonView::List(Seq::new(r.len(), |i: int| JsonView::Object(r[i])))
}

/// An optional text as a JSON value.
pub open spec fn optional_value(s: Option<Seq<char>>) -> JsonView {
    match s {
        Some(x) => JsonView::Text(x),
        None => JsonView::Null,
    }
}

/// The YAML text of one query, the first entry of the list or a later one.
pub open spec fn query_text(q: CapturedView) -> Seq<char> {
    "- query: "@ + yaml(JsonView::Text(q.query), "  "@) + "\n  parameters: "@ + yaml(
        parameters_value(q.parameters),
        "  "@,
    ) + "\n  result: "@ + yaml(rows_value(q.result), "  "@) + "\n  success: "@ + yaml(
        JsonView::Bool(q.success),
        "  "@,
    ) + "\n  error_details: "@ + yaml(optional_value(q.error_details), "  "@) + "\n"@
}

/// The YAML text of the first `n` queries, with an empty line between two of them.
pub open spec fn capture_text(entries: Seq<CapturedView>, n: nat) -> Seq<char>
    decreases n,
{
    if n == 0 {
        Seq::empty()
    } else {
        capture_text(entries, (n - 1) as nat) + if n == 1 {
            Seq::empty()
        } else {
            "\n"@
        } + query_text(entries[n - 1])
    }
}

fn parameters_json(p: &Vec<Option<Json>>) -> (r: Json)
    ensures
        r@ == parameters_value(parameters_of(p@)),
{
    let mut out: Vec<Json> = Vec::new();
    let ghost all = parameters_value(parameters_of(p@))->List_0;
    let mut i: usize = 0;
    while i < p.len()
        invariant
            i <= p@.len(),
            all == parameters_value(parameters_of(p@))->List_0,
            values_of(out@) == all.take(i as int),
        decreases p@.len() - i,
    {
        let ghost before = values_of(out@);
        let v = match &p[i] {
            Some(x) => x.copy(),
            None => Json::Null,
        };
        assert(v@ == all[i as int]);
        let ghost shown = v@;
        out.push(v);
        assert(values_of(out@) =~= before.push(shown));
        assert(all.take(i + 1) =~= all.take(i as int).push(all[i as int]));
        i = i + 1;
    }
    assert(all.take(i as int) =~= all);
    proof {
        json_list_view(out);
    }
    Json::List(out)
}

fn row_json(row: &Vec<(String, Json)>) -> (r: Json)
    ensures
        r@ == JsonView::Object(entries_of(row@)),
{
    let mut out: Vec<(String, Json)> = Vec::new();
    let ghost all = entries_of(row@);
    let mut i: usize = 0;
    while i < row.len()
        invariant
            i <= row@.len(),
            all == entries_of(row@),
            entries_of(out@) == all.take(i as int),
        decreases row@.len() - i,
    {
        let ghost before = entries_of(out@);
        let entry = (row[i].0.clone(), row[i].1.copy());
        let ghost shown = (entry.0@, entry.1@);
        out.push(entry);
        assert(entries_of(out@) =~= before.push(shown));
        assert(all.take(i + 1) =~= all.take(i as int).push(all[i as int]));
        i = i + 1;
    }
    assert(all.take(i as int) =~= all);
    proof {
        json_object_view(out);
    }
    Json::Object(out)
}

fn rows_json(rows: &Vec<Vec<(String, Json)>>) -> (r: Json)
    ensures
        r@ == rows_value(rows_of(rows@)),
{
    let mut out: Vec<Json> = Vec::new();
    let ghost all = rows_value(rows_of(rows@))->List_0;
    let mut i: usize = 0;
    while i < rows.len()
        invariant
            i <= rows@.len(),
            all == rows_value(rows_of(rows@))->List_0,
            values_of(out@) == all.take(i as int),
        decreases rows@.len() - i,
    {
        let ghost before = values_of(out@);
        let v = row_json(&rows[i]);
        assert(rows_of(rows@)[i as int] == entries_of(rows@[i as int]@));
        assert(v@ == all[i as int]);
        let ghost shown = v@;
        out.push(v);
        assert(values_of(out@) =~= before.push(shown));
        assert(all.take(i + 1) =~= all.take(i as int).push(all[i as int]));
        i = i + 1;
    }
    assert(all.take(i as int) =~= all);
    proof {
        json_list_view(out);
    }
    Json::List(out)
}

fn push_query(out: &mut String, q: &CapturedQuery)
    ensures
        final(out)@ == old(out)@ + query_text(q@),
{
    out.append("- query: ");
    encode_yaml_value(&Json::Text(q.query.clone()), "  ", out);
    out.append("\n  parameters: ");
    encode_yaml_value(&parameters_json(&q.parameters), "  ", out);
    out.append("\n  result: ");
    encode_yaml_value(&rows_json(&q.result), "  ", out);
    out.append("\n  success: ");
    encode_yaml_value(&Json::Bool(q.success), "  ", out);
    out.append("\n  error_details: ");
    let details = match &q.error_details {
        Some(s) => Json::Text(s.clone()),
        None => Json::Null,
    };
    encode_yaml_value(&details, "  ", out);
    out.append("\n");
    assert(out@ =~= old(out)@ + query_text(q@));
}

/// The queries that were answered, and the file that they are written to.
#[derive(Debug)]
pub struct CaptureStore {
    pub path: String,
    pub entries: Vec<CapturedQuery>,
}

impl CaptureStore {
    /// A store without queries, for the file `path`.
    pub fn new(path: String) -> (r: Self)
        ensures
            r.path@ == path@,
            captured(r.entries@) == Seq::<CapturedView>::empty(),
    {
        let entries: Vec<CapturedQuery> = Vec::new();
        assert(captured(entries@) =~= Seq::empty());
        CaptureStore { path, entries }
    }

    /// The text of the file.
    pub fn rendered(&self) -> (r: String)
        ensures
            r@ == capture_text(captured(self.entries@), self.entries@.len()),
    {
        let ghost all = captured(self.entries@);
        let mut out = String::new();
        let mut i: usize = 0;
        while i < self.entries.len()
            invariant
                i <= self.entries@.len(),
                all == captured(self.entries@),
                out@ == capture_text(all, i as nat),
            decreases self.entries@.len() - i,
        {
            if i > 0 {
                out.append("\n");
            } else {
                assert(out@ + Seq::<char>::empty() =~= out@);
            }
            assert(all[i as int] == self.entries@[i as int]@);
            push_query(&mut out, &self.entries[i]);
            i = i + 1;
        }
        out
    }

    /// Records `entry` as the last query; the result is the new text of the file.
    pub fn append(&mut self, entry: CapturedQuery) -> (r: String)
        ensures
            final(self).path == old(self).path,
            captured(final(self).entries@) == captured(old(self).entries@).push(entry@),
            r@ == capture_text(captured(final(self).entries@), final(self).entries@.len()),
    {
        let ghost before = captured(self.entries@);
        let ghost e = entry@;
        self.entries.push(entry);
        assert(captured(self.entries@) =~= before.push(e));
        self.rendered()
    }
}

/// The text of a file grows at its end: what stands in it of earlier queries stays.
pub proof fn capture_grows(entries: Seq<CapturedView>, n: nat, entry: CapturedView)
    requires
        n <= entries.len(),
    ensures
        capture_text(entries.push(entry), n) == capture_text(entries, n),
    decreases n,
{
    if n > 0 {
        capture_grows(entries, (n - 1) as nat, entry);
        assert(entries.push(entry)[n - 1] == entries[n - 1]);
    }
}

/// A text stays on its line, whatever it holds.
pub proof fn texts_stay_on_their_line(s: Seq<char>)
    ensures
        !escaped(s).contains('\n'),
        !escaped(s).contains('\r'),
    decreases s.len(),
{
    if s.len() > 0 {
        texts_stay_on_their_line(s.drop_last());
        let before = escaped(s.drop_last());
        let c = escaped_char(s.last());
        assert forall|k: int| 0 <= k < escaped(s).len() implies escaped(s)[k] != '\n'
            && escaped(s)[k] != '\r' by {
            if k < before.len() {
                assert(before.contains(before[k]));
            } else {
                assert(escaped(s)[k] == c[k - before.len()]);
            }
        }
    }
}

proof fn escaped_from_the_front(s: Seq<char>)
    requires
        s.len() > 0,
    ensures
        escaped(s) == escaped_char(s[0]) + escaped(s.skip(1)),
    decreases s.len(),
{
    if s.len() == 1 {
        assert(s.drop_last() =~= Seq::empty());
        assert(s.skip(1) =~= Seq::empty());
        assert(escaped(s) =~= escaped_char(s[0]) + escaped(s.skip(1)));
    } else {
        escaped_from_the_front(s.drop_last());
        assert(s.drop_last().skip(1) =~= s.skip(1).drop_last());
        assert(escaped(s) =~= escaped_char(s[0]) + escaped(s.skip(1)));
    }
}

/// A reader gets a text back as it was recorded.
pub proof fn texts_are_read_back(s: Seq<char>)
    ensures
        unescaped(escaped(s)) == s,
    decreases s.len(),
{
    if s.len() > 0 {
        escaped_from_the_front(s);
        texts_are_read_back(s.skip(1));
        let c = escaped_char(s[0]);
        assert(escaped(s).skip(c.len() as int) =~= escaped(s.skip(1)));
        assert(escaped(s)[0] == c[0]);
        assert(c.len() == 2 ==> escaped(s)[1] == c[1]);
        assert(seq![s[0]] + s.skip(1) =~= s);
    }
}

/// Values without parts are written as they are: `null`, `true` and `false`, the digits of a
/// number,
/// and a text in quotes; an empty list and an empty object have brackets and braces.
pub proof fn plain_values_are_written(pad: Seq<char>, n: Seq<char>, s: Seq<char>)
    ensures
        yaml(JsonView::Null, pad) == "null"@,
        yaml(JsonView::Bool(true), pad) == "true"@,
        yaml(JsonView::Bool(false), pad) == "false"@,
        yaml(JsonView::Number(n), pad) == n,
        ({
            let t = yaml(JsonView::Text(s), pad);
            t.len() >= 2 && t[0] == '"' && t.last() == '"' && unescaped(
                t.subrange(1, t.len() - 1),
            ) == s
        }),
        yaml(JsonView::List(Seq::empty()), pad) == "[]"@,
        yaml(JsonView::Object(Seq::empty()), pad) == "{}"@,
{
    texts_are_read_back(s);
    reveal_strlit("\"");
    let t = yaml(JsonView::Text(s), pad);
    assert("\""@.len() == 1 && "\""@[0] == '"');
    assert(t.subrange(1, t.len() - 1) =~= escaped(s));
}

/// Every item of a list stands on a line of its own, behind a hyphen and further to the right than
/// the list; the items before it come before it, and the others after it.
pub proof fn items_have_their_lines(items: Seq<JsonView>, n: nat, i: int, pad: Seq<char>) -> (after:
    Seq<char>)
    requires
        0 <= i < n <= items.len(),
    ensures
        yaml_items(items, n, pad) == yaml_items(items, i as nat, pad) + "\n"@ + pad + "- "@ + yaml(
            items[i],
            pad + "  "@,
        ) + after,
    decreases n,
{
    if i == n - 1 {
        let after = Seq::<char>::empty();
        assert(yaml_items(items, n, pad) + after =~= yaml_items(items, n, pad));
        after
    } else {
        let rest = items_have_their_lines(items, (n - 1) as nat, i, pad);
        let last = "\n"@ + pad + "- "@ + yaml(items[n - 1], pad + "  "@);
        let after = rest + last;
        let first = yaml_items(items, i as nat, pad) + "\n"@ + pad + "- "@ + yaml(
            items[i],
            pad + "  "@,
        );
        assert(yaml_items(items, n, pad) =~= first + rest + last);
        assert(first + rest + last =~= first + after);
        after
    }
}

/// Every entry of an object stands on a line of its own, its name before a colon and its value
/// behind it; the entries before it come before it, and the others after it.
pub proof fn entries_have_their_lines(
    entries: Seq<(Seq<char>, JsonView)>,
    n: nat,
    i: int,
    pad: Seq<char>,
) -> (after: Seq<char>)
    requires
        0 <= i < n <= entries.len(),
    ensures
        yaml_entries(entries, n, pad) == yaml_entries(entries, i as nat, pad) + "\n"@ + pad
            + entries[i].0 + ": "@ + yaml(entries[i].1, pad + "  "@) + after,
    decreases n,
{
    if i == n - 1 {
        let after = Seq::<char>::empty();
        assert(yaml_entries(entries, n, pad) + after =~= yaml_entries(entries, n, pad));
        after
    } else {
        let rest = entries_have_their_lines(entries, (n - 1) as nat, i, pad);
        let last = "\n"@ + pad + entries[n - 1].0 + ": "@ + yaml(entries[n - 1].1, pad + "  "@);
        let after = rest + last;
        let first = yaml_entries(entries, i as nat, pad) + "\n"@ + pad + entries[i].0 + ": "@
            + yaml(
            entries[i].1,
            pad + "  "@,
        );
        assert(yaml_entries(entries, n, pad) =~= first + rest + last);
        assert(first + rest + last =~= first + after);
        after
    }
}

/// A query is recorded in full: its text, its parameters, its rows, whether it succeeded, and what
/// went
/// wrong, each behind its label.
pub proof fn queries_are_recorded_in_full(q: CapturedView) -> (parts: (
    Seq<char>,
    Seq<char>,
    Seq<char>,
    Seq<char>,
    Seq<char>,
))
    ensures
        query_text(q) == "- query: "@ + parts.0 + "\n  parameters: "@ + parts.1 + "\n  result: "@
            + parts.2 + "\n  success: "@ + parts.3 + "\n  error_details: "@ + parts.4 + "\n"@,
        parts.0 == "\""@ + escaped(q.query) + "\""@,
        q.parameters.len() == 0 ==> parts.1 == "[]"@,
        q.result.len() == 0 ==> parts.2 == "[]"@,
        q.success ==> parts.3 == "true"@,
        !q.success ==> parts.3 == "false"@,
        q.error_details is None ==> parts.4 == "null"@,
        q.error_details matches Some(why) ==> parts.4 == "\""@ + escaped(why) + "\""@,
        forall|i: int|
            0 <= i < q.parameters.len() && (#[trigger] q.parameters[i]) is None
                ==> parameters_value(
                q.parameters,
            )->List_0[i] is Null,
        q.parameters.len() > 0 ==> parts.1 == yaml(parameters_value(q.parameters), "  "@),
        q.result.len() > 0 ==> parts.2 == yaml(rows_value(q.result), "  "@),
{
    (
        yaml(JsonView::Text(q.query), "  "@),
        yaml(parameters_value(q.parameters), "  "@),
        yaml(rows_value(q.result), "  "@),
        yaml(JsonView::Bool(q.success), "  "@),
        yaml(optional_value(q.error_details), "  "@),
    )
}

} // verus!
