use datafusion_pg_catalog::sql::columns::{
    alias_unnamed_columns,
    disambiguate_duplicate_columns,
    restore_aliased_column_names,
};

/// A derived table projecting the same name twice gets its second occurrence
/// aliased, while the outer projection keeps its client-facing names.
#[test]
fn test_disambiguate_duplicate_columns_in_derived_table() {
    // Two `nspname`s in a derived table -> the second becomes `nspname_2`,
    // so DataFusion doesn't hit its name-mismatch assertion. The outer
    // (depth 0) projection is left alone.
    let sql = "SELECT a, b FROM (SELECT nr.nspname, nc.nspname FROM x nr, y nc) t(a, b)";
    let out = disambiguate_duplicate_columns(sql).unwrap();
    assert!(
        out.contains("nc.nspname AS nspname_2"),
        "second nspname aliased: {out}"
    );
    assert_eq!(
        out.matches("nspname").count(),
        3,
        "only the dup is renamed: {out}"
    );
}

/// A nested projection whose names are already unique is passed through
/// unchanged, so no query pays for aliases it does not need.
#[test]
fn test_disambiguate_leaves_unique_columns_untouched() {
    let sql = "SELECT x FROM (SELECT a.p, b.q FROM a, b) t";
    let out = disambiguate_duplicate_columns(sql).unwrap();
    assert!(
        !out.contains("_2"),
        "no aliasing when names are unique: {out}"
    );
}

/// Build the alias map `alias_unnamed_columns` is expected to produce, mapping
/// `alias_1`, `alias_2`, ... to the given original column names in order.
fn alias_maps(nums: &[&str]) -> Vec<(String, String)> {
    let mut map = Vec::new();
    for (i, &val) in nums.iter().enumerate() {
        let key = format!("alias_{}", i + 1);
        map.push((key, val.to_string()));
    }
    map
}

/// One `alias_unnamed_columns` expectation: the input SQL, the substrings the
/// rewritten SQL must contain, and the alias map the rewrite must return.
type AliasCase = (&'static str, Vec<&'static str>, Vec<(String, String)>);

/// The cases exercised by `test_alias_unnamed_columns`, kept next to the test
/// but out of its body so each new case does not grow the test itself.
fn alias_unnamed_columns_cases() -> Vec<AliasCase> {
    vec![
        (
            "SELECT t.id FROM foo",
            vec!["SELECT t.id AS alias_1", "FROM foo"],
            alias_maps(&["id"]),
        ),
        (
            "SELECT t.id AS f FROM foo",
            vec!["SELECT t.id AS f FROM foo"], // Should stay the same
            alias_maps(&[]),                   // empty alias
        ),
        (
            "SELECT t.* FROM foo",
            vec!["SELECT t.* FROM foo"], // No aliasing needed
            alias_maps(&[]),             // empty alias
        ),
        (
            "SELECT t.id, t.* FROM foo",
            vec!["SELECT t.id AS alias_1, t.* FROM foo"], // Only t.id gets alias
            alias_maps(&["id"]),
        ),
        (
            "SELECT 1 FROM foo",
            vec!["SELECT 1 AS alias_1", "FROM foo"], // literal should also get alias
            alias_maps(&["?column?"]), // postgresql also returns ?column? in this case
        ),
        (
            "SELECT 1, 1 FROM foo",
            vec!["SELECT 1 AS alias_1, 1 AS alias_2 FROM foo"], // literal should also get alias
            alias_maps(&["?column?", "?column?"]), // postgresql also returns ?column? in this case
        ),
        (
            "SELECT t.id + 1 FROM foo",
            vec!["SELECT t.id + 1 AS", "FROM foo"], // expressions get alias
            alias_maps(&["?column?"]),
        ),
        (
            "WITH cte AS (SELECT t.a FROM t) SELECT * FROM cte",
            vec!["SELECT t.a FROM t", "SELECT * FROM cte"],
            alias_maps(&[]),
        ),
        (
            "select * from (SELECT t.a FROM t)",
            vec!["SELECT t.a FROM t"],
            alias_maps(&[]),
        ),
        (
            "select * from (SELECT t.a, t.b FROM t) T1",
            vec!["SELECT t.a, t.b FROM t"],
            alias_maps(&[]),
        ),
        (
            "select 'pg_constraint'::regclass::oid",
            vec!["SELECT 'pg_constraint'::REGCLASS::oid AS alias_1"],
            alias_maps(&["oid"]),
        ),
        (
            "select '1'::int4;",
            vec!["SELECT '1'::INT4 AS alias_1"],
            alias_maps(&["int4"]),
        ),
        (
            "select '1'::int8;",
            vec!["SELECT '1'::INT8 AS alias_1"],
            alias_maps(&["int8"]),
        ),
        (
            "select '1'::varchar;",
            vec!["SELECT '1'::VARCHAR AS alias_1"],
            alias_maps(&["varchar"]),
        ),
        (
            "select '1'::varchar(120);",
            vec!["SELECT '1'::VARCHAR(120) AS alias_1"],
            alias_maps(&["varchar(120)"]),
        ),
        (
            "select 'pg_constraint'::regclass",
            vec!["SELECT 'pg_constraint'::REGCLASS AS alias_1"],
            alias_maps(&["regclass"]),
        ),
        (
            "select substr('foo', 1, 2)",
            vec!["SELECT SUBSTR('foo', 1, 2) AS "],
            alias_maps(&["?column?"]),
        ),
    ]
}

/// Every projected expression that carries no explicit alias is renamed to a
/// unique `alias_N`, and the returned map reports the name `PostgreSQL` would
/// have given it. Wildcards and already-aliased columns are left alone.
#[test]
fn test_alias_unnamed_columns() {
    for (input, expected_substrings, expected_alias_map) in alias_unnamed_columns_cases() {
        let (transformed, aliases) = alias_unnamed_columns(input).unwrap();
        for expected in expected_substrings {
            assert!(
                transformed.contains(expected),
                "Expected substring not found:\ninput: {input}\nexpected: {expected}\nactual: {transformed}"
            );
            assert_eq!(
                aliases, expected_alias_map,
                "alias maps failed input: {input} expected {expected_alias_map:?} actual {aliases:?}"
            );
        }
    }
}

/// Aliasing then restoring round-trips back to the original column names, so a
/// view created from the rewritten SQL exposes the names clients expect.
#[test]
fn test_restore_aliased_column_names_recovers_real_names() {
    // A qualified ref and an unqualified ref both lose their name to alias_N;
    // restoring gives the real PostgreSQL names a view must expose.
    let (aliased, map) = alias_unnamed_columns("SELECT a.rolname, usename FROM t").unwrap();
    assert!(aliased.contains("AS alias_1") && aliased.contains("AS alias_2"));
    let restored = restore_aliased_column_names(&aliased, &map).unwrap();
    assert!(
        restored.contains("AS rolname") && restored.contains("AS usename"),
        "real names restored: {restored}"
    );
    assert!(
        !restored.contains("alias_"),
        "no alias_N remains: {restored}"
    );
}

/// A column the query already named with `AS` never gets an `alias_N`, so
/// restoring must leave that name exactly as written.
#[test]
fn test_restore_leaves_explicit_aliases_untouched() {
    // A column the body already named with AS is never aliased, so restore is a
    // no-op for it.
    let (aliased, map) = alias_unnamed_columns("SELECT '*'::text AS passwd FROM t").unwrap();
    let restored = restore_aliased_column_names(&aliased, &map).unwrap();
    assert!(
        restored.contains("AS passwd"),
        "explicit alias kept: {restored}"
    );
    assert!(!restored.contains("alias_"), "no alias_N: {restored}");
}

#[test]
fn every_repeated_column_gets_a_name_of_its_own() {
    let out = disambiguate_duplicate_columns(
        "SELECT 1 FROM (SELECT a.n, b.n, c.n, c.m FROM a, b, c) AS t",
    )
    .unwrap();
    assert_eq!(
        out,
        "SELECT 1 FROM (SELECT a.n, b.n AS n_2, c.n AS n_3, c.m FROM a, b, c) AS t"
    );
}

#[test]
fn given_names_are_not_taken() {
    let apart = |inner: &str| {
        disambiguate_duplicate_columns(&format!("SELECT 1 FROM (SELECT {inner} FROM a, b) AS t"))
            .unwrap()
    };
    assert_eq!(
        apart("a.n, b.n, b.n_2"),
        "SELECT 1 FROM (SELECT a.n, b.n AS n_3, b.n_2 FROM a, b) AS t"
    );
    assert_eq!(
        apart("a.n, b.n_2, b.n, a.n"),
        "SELECT 1 FROM (SELECT a.n, b.n_2, b.n AS n_3, a.n AS n_4 FROM a, b) AS t"
    );
}

#[test]
fn fresh_names_are_not_taken() {
    let (out, names) = alias_unnamed_columns("SELECT a AS alias_1, b FROM t").unwrap();
    assert_eq!(out, "SELECT a AS alias_1, b AS alias_2 FROM t");
    assert_eq!(names, vec![("alias_2".to_string(), "b".to_string())]);
    let (out, _) = alias_unnamed_columns("SELECT b, c, a AS ALIAS_2 FROM t").unwrap();
    assert_eq!(out, "SELECT b AS alias_1, c AS alias_3, a AS ALIAS_2 FROM t");

    // The whole query gets its names back, and aliases stay.
    let sql = "SELECT a, b AS alias_2 FROM t UNION SELECT c AS alias_1, d FROM u";
    let (out, names) = alias_unnamed_columns(sql).unwrap();
    assert_eq!(
        out,
        "SELECT a AS alias_3, b AS alias_2 FROM t UNION SELECT c AS alias_1, d AS alias_4 FROM u"
    );
    assert_eq!(
        restore_aliased_column_names(&out, &names).unwrap(),
        "SELECT a AS a, b AS alias_2 FROM t UNION SELECT c AS alias_1, d AS d FROM u"
    );
}

#[test]
fn both_sides_of_a_union_get_fresh_names() {
    let (out, names) = alias_unnamed_columns("SELECT a, b FROM t UNION SELECT a, b FROM u").unwrap();
    assert_eq!(
        out,
        "SELECT a AS alias_1, b AS alias_2 FROM t UNION SELECT a AS alias_3, b AS alias_4 FROM u"
    );
    assert_eq!(names.len(), 4);
}

#[test]
fn names_are_put_back_in_several_statements() {
    let sql = "SELECT a.x, y AS alias_1 FROM a; DELETE FROM b; SELECT count(*) FROM c UNION SELECT z FROM d";
    let (aliased, names) = alias_unnamed_columns(sql).unwrap();
    assert_eq!(
        aliased,
        "SELECT a.x AS alias_2, y AS alias_1 FROM a DELETE FROM b \
         SELECT count(*) AS alias_3 FROM c UNION SELECT z AS alias_4 FROM d"
    );
    let one = "SELECT a.x, count(*), y AS alias_1 FROM a UNION SELECT z, 1, 2 FROM d";
    let (aliased_one, names_of_one) = alias_unnamed_columns(one).unwrap();
    assert_eq!(names.len(), 3);
    assert_eq!(
        restore_aliased_column_names(&aliased_one, &names_of_one).unwrap(),
        "SELECT a.x AS x, count(*) AS count, y AS alias_1 FROM a \
         UNION SELECT z AS z, 1 AS \"?column?\", 2 AS \"?column?\" FROM d"
    );
}

#[test]
fn names_that_need_quotes_get_them() {
    let sql = "SELECT 1, \"a b\", Mixed FROM t";
    let (aliased, names) = alias_unnamed_columns(sql).unwrap();
    assert_eq!(aliased, "SELECT 1 AS alias_1, \"a b\" AS alias_2, Mixed AS alias_3 FROM t");
    let restored = restore_aliased_column_names(&aliased, &names).unwrap();
    assert_eq!(
        restored,
        "SELECT 1 AS \"?column?\", \"a b\" AS \"a b\", Mixed AS Mixed FROM t"
    );
    // What was put back can be read again.
    assert_eq!(restore_aliased_column_names(&restored, &vec![]).unwrap(), restored);
    assert_eq!(
        disambiguate_duplicate_columns("SELECT 1 FROM (SELECT \"a b\", u.\"a b\" FROM t, u) AS v")
            .unwrap(),
        "SELECT 1 FROM (SELECT \"a b\", u.\"a b\" AS \"a b_2\" FROM t, u) AS v"
    );
}
