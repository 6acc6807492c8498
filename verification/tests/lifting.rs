use datafusion_pg_catalog::sql::lifting::{
    filled_template, find_correlated_columns, replace_with_fn_call, rewrite_exists_subquery, transform_setexpr,
    SubqueryFunction,
};
use datafusion_pg_catalog::sql::parse::{parse, print, print_expr, SqlDialect, SqlError};
use datafusion_pg_catalog::sql::tree::{Field, Tree};

fn query(sql: &str) -> Tree {
    let statements = parse(SqlDialect::Postgres, sql).unwrap();
    match statements.item(0) {
        Tree::Statement(s) => s.payload("Query").unwrap().copy(),
        other => panic!("no statement: {other:?}"),
    }
}

fn transformed(sql: &str) -> (String, Vec<SubqueryFunction>) {
    let q = query(sql);
    let mut functions = Vec::new();
    let body = transform_setexpr(q.at("body"), &mut functions).unwrap();
    let statement = Tree::variant("Query", q.with("body", body));
    (print(&Tree::list1(statement), "").unwrap(), functions)
}

#[test]
fn correlated_subqueries_become_functions() {
    let (text, functions) = transformed(
        "SELECT (SELECT max(b) FROM t WHERE a = \"C\" AND b > a), 1 FROM u WHERE EXISTS (SELECT 1 FROM v WHERE x = u.y)",
    );
    assert_eq!(text, "SELECT __subq0(b, a, \"C\"), 1 FROM u WHERE __subq1(x)");
    assert_eq!(functions.len(), 2);
    assert_eq!(functions[0].name, "__subq0");
    assert_eq!(functions[0].template, "SELECT max($1) FROM t WHERE $2 = $3 AND $1 > $2");
    assert_eq!(functions[0].columns.len(), 3);
    assert_eq!(
        functions[1].template,
        "SELECT EXISTS (SELECT 1 FROM v WHERE $1 = u.y)"
    );
}

#[test]
fn negated_exists_becomes_a_negated_call() {
    let (text, functions) = transformed(
        "SELECT 1 FROM u WHERE NOT EXISTS (SELECT 1 FROM v WHERE x = u.y)",
    );
    assert_eq!(text, "SELECT 1 FROM u WHERE NOT __subq0(x)");
    assert_eq!(functions.len(), 1);
    assert_eq!(functions[0].template, "SELECT EXISTS (SELECT 1 FROM v WHERE $1 = u.y)");
}

#[test]
fn subqueries_without_columns_stay() {
    let sql = "SELECT (SELECT max(t.b) FROM t), (SELECT a) AS n FROM u";
    let (text, functions) = transformed(sql);
    assert_eq!(text, sql);
    assert_eq!(functions.len(), 0);
}

#[test]
fn one_column_has_one_placeholder() {
    let (columns, numbered) = find_correlated_columns(&query("SELECT a, b, a FROM t"));
    assert_eq!(columns.len(), 2);
    let statement = Tree::variant("Query", numbered);
    assert_eq!(print(&Tree::list1(statement), "").unwrap(), "SELECT $1, $2, $1 FROM t");
    let call = replace_with_fn_call("f", &columns);
    assert_eq!(print_expr(&call).unwrap(), "f(a, b)");
}

#[test]
fn texts_are_reprinted() {
    assert_eq!(
        rewrite_exists_subquery("select 1 where exists (select a from t); select 2").unwrap(),
        "SELECT 1 WHERE EXISTS (SELECT a FROM t); SELECT 2"
    );
    assert!(matches!(
        rewrite_exists_subquery("select ("),
        Err(SqlError::Parse(_))
    ));
}

fn record(fields: Vec<(&str, Tree)>) -> Tree {
    Tree::Record(
        fields
            .into_iter()
            .map(|(name, value)| Field { name: name.to_string(), value })
            .collect(),
    )
}

/// The tree with the nodes replaced that `f` gives something for.
fn mapped(t: &Tree, f: &dyn Fn(&Tree) -> Option<Tree>) -> Tree {
    if let Some(out) = f(t) {
        return out;
    }
    match t {
        Tree::List(v) => Tree::List(v.iter().map(|x| mapped(x, f)).collect()),
        Tree::Record(v) => Tree::Record(
            v.iter()
                .map(|x| Field { name: x.name.clone(), value: mapped(&x.value, f) })
                .collect(),
        ),
        Tree::Expr(b) => Tree::Expr(Box::new(mapped(b, f))),
        Tree::Statement(b) => Tree::Statement(Box::new(mapped(b, f))),
        Tree::Relation(b) => Tree::Relation(Box::new(mapped(b, f))),
        other => other.copy(),
    }
}

/// `SELECT "a"`, with another quote character.
fn quoted(quote: &str) -> Tree {
    mapped(&parse(SqlDialect::Postgres, "SELECT \"a\"").unwrap(), &|t| {
        t.at("quote_style").is_text("\"").then(|| t.with("quote_style", Tree::of_text(quote)))
    })
}

/// The tree with the identifiers as lists of what is in their fields.
fn idents_as_lists(t: &Tree) -> Tree {
    mapped(t, &|t| match t {
        Tree::Record(v) if v.len() == 3 && v[1].name == "quote_style" && v[2].name == "span" => {
            Some(Tree::List(v.iter().map(|f| f.value.copy()).collect()))
        }
        _ => None,
    })
}

fn unprintable(t: &Tree) -> bool {
    matches!(print(t, ""), Err(SqlError::Unprintable))
}

#[test]
fn identifiers_are_printed_with_quotes_that_there_are() {
    assert_eq!(print(&quoted("`"), "").unwrap(), "SELECT `a`");
    assert!(unprintable(&quoted("?")));
    assert_eq!(print(&idents_as_lists(&quoted("`")), "").unwrap(), "SELECT `a`");
    assert!(unprintable(&idents_as_lists(&quoted("?"))));
    // A quote character inside of an expression node.
    let hidden = mapped(&quoted("?"), &|t| t.is_text("?").then(|| Tree::expr(t.copy())));
    assert!(unprintable(&hidden));
    // A field that stands twice.
    let twice = record(vec![
        ("value", Tree::of_text("a")),
        ("quote_style", Tree::Null),
        ("quote_style", Tree::of_text("?")),
        ("span", Tree::Null),
    ]);
    assert_eq!(print_expr(&Tree::variant("Identifier", twice)), None);
}

#[test]
fn queries_are_printed_with_all_that_they_need() {
    let parsed = |sql: &str| parse(SqlDialect::Generic, sql).unwrap();
    for sql in [
        "SELECT 1 UNION TABLE t",
        "SELECT 1 UNION TABLE s.t",
        "SELECT a FROM t LIMIT 1 OFFSET 2",
        "SELECT INTERVAL '5' SECOND (5, 4)",
        "SELECT x::foo(1, 2, 3)",
    ] {
        assert_eq!(print(&parsed(sql), "").unwrap(), sql);
    }
    // The name of the table is missing.
    let named = record(vec![("table_name", Tree::of_text("t")), ("schema_name", Tree::Null)]);
    let nameless = record(vec![("table_name", Tree::Null), ("schema_name", Tree::Null)]);
    let listed = Tree::List(vec![Tree::Null, Tree::Null]);
    let put = |field: &str, table: &Tree| {
        mapped(&parsed("SELECT 1 UNION SELECT 2"), &|t| {
            let there = !t.at(field).is_null();
            there.then(|| t.with(field, Tree::variant("Table", table.copy())))
        })
    };
    assert_eq!(print(&put("body", &named), "").unwrap(), "TABLE t");
    assert_eq!(print(&put("right", &named), "").unwrap(), "SELECT 1 UNION TABLE t");
    for field in ["body", "left", "right"] {
        assert!(unprintable(&put(field, &nameless)), "{field}");
        assert!(unprintable(&put(field, &listed)), "{field}");
    }
    // `BY` without `LIMIT`.
    let by = mapped(&parsed("SELECT a FROM t LIMIT 1"), &|t| {
        let clause = t.payload("LimitOffset")?;
        let key = clause.at("limit").copy();
        let bare = clause.with("limit", Tree::Null).with("limit_by", Tree::List(vec![key]));
        Some(Tree::variant("LimitOffset", bare))
    });
    assert!(unprintable(&by));
    // Both precisions and an end.
    let interval = mapped(&parsed("SELECT INTERVAL '5' SECOND (5, 4)"), &|t| {
        let seconds = t.at("leading_field").is_text("Second");
        seconds.then(|| t.with("last_field", Tree::of_text("Second")))
    });
    assert!(unprintable(&interval));
}

#[test]
fn the_parser_is_kept_from_stopping() {
    for sql in [
        "FLUSH RELAY LOGS FOR CHANNEL",
        "flush relay logs for channel;",
        "SELECT 1; Flu\u{17f}h relay /* all */ logs FOR channel 1",
    ] {
        match parse(SqlDialect::Generic, sql) {
            Err(SqlError::Parse(message)) => {
                assert_eq!(message, "FLUSH RELAY LOGS FOR CHANNEL is not supported")
            }
            other => panic!("{sql}: {other:?}"),
        }
        assert!(parse(SqlDialect::Postgres, sql).is_err());
    }
    assert!(parse(SqlDialect::Generic, "FLUSH RELAY LOGS").is_ok());
    assert!(parse(SqlDialect::Generic, "SELECT relay FROM logs").is_ok());
}

#[test]
fn templates_are_filled() {
    let args: Vec<String> = (1..=10).map(|n| format!("v{n}")).collect();
    assert_eq!(
        filled_template("SELECT $1, $10, $2$3, $11, $01, $, $x", &args),
        "SELECT v1, v10, v2v3, $11, $01, $, $x"
    );
    // What an argument holds is no placeholder.
    let nested = vec!["$2".to_string(), "b".to_string()];
    assert_eq!(filled_template("$1 = $2", &nested), "$2 = b");
    assert_eq!(filled_template("SELECT 1", &vec![]), "SELECT 1");
}
