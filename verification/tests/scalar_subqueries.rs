use datafusion_pg_catalog::sql::cte::{parse_sql, rewrite, ScalarFinder};

#[test]
fn rewrite_noop_roundtrip() {
    let original = "SELECT 1";
    let outcome  = rewrite(original).unwrap();
    assert_eq!(outcome.sql, original);
    assert_eq!(outcome.converted, 0);
}

#[test]
fn visitor_finds_two_scalars() {
    let sql = r#"
        SELECT
          a,
          (SELECT max(b) FROM t2) AS s1,
          (SELECT count(*) FROM t3 WHERE t3.x = t1.x) AS s2
        FROM t1"#;
    let stmt   = parse_sql(sql).unwrap();
    let finder = ScalarFinder::find(&stmt);
    assert_eq!(finder.scalars.len(), 2);
}

#[test]
fn rewrite_does_not_panic() {
    let sql = r#"
        SELECT
          a,
          (SELECT max(b) FROM t2) AS s1
        FROM t1"#;
    let out = rewrite(sql).unwrap();
    assert!(!out.sql.is_empty());
}

#[test]
fn rewrite_single_scalar_to_cte() {
    let sql = "SELECT (SELECT 1) AS x";
    let out = rewrite(sql).unwrap();
    assert_eq!(out.converted, 1);
    assert!(out.sql.contains("WITH"));
    assert!(out.sql.contains("__cte1"));
    assert!(out.sql.contains("SELECT 1"));
}

#[test]
fn rewrite_preserves_other_columns() {
    let sql = "SELECT a, (SELECT 2) AS two FROM t";
    let out = rewrite(sql).unwrap();
    // make sure original top-level columns still there
    assert!(out.sql.starts_with("WITH"));
    assert!(out.sql.contains("SELECT a, __cte1.col")); // rough check
}

#[test]
fn scalar_becomes_join() {
    let q = "SELECT (SELECT 1) FROM t";
    let out = rewrite(q).unwrap();
    assert_eq!(out.converted, 1);
    assert!(out.sql.contains("WITH"));
    assert!(out.sql.contains("JOIN"));
}

#[test]
fn cte_is_injected() {
    let q = "SELECT (SELECT 42)";
    let out = rewrite(q).unwrap();
    assert_eq!(out.converted, 1);
    assert!(out.sql.starts_with("WITH"));
    assert!(out.sql.contains("__cte1"));
}


#[test]
fn rewrite_equality_join() {
    let q = "SELECT (SELECT max(b) FROM t2 WHERE t2.id = t1.id) FROM t1";
    let out = rewrite(q).unwrap();
    assert!(out.sql.contains("LEFT OUTER JOIN __cte1"));
    assert!(out.sql.contains("t1.id = __cte1.id"));
}

#[test]
fn rewrite_inequality_join() {
    let q = "
        SELECT (SELECT min(b.val)
                FROM   t2
                WHERE  t2.id  = t1.id
                AND  t2.val <> t1.val)
        FROM t1";
    let out = rewrite(q).unwrap();

    assert!(
            out.sql.contains("t1.val <> __cte1.val")
            || out.sql.contains("__cte1.val <> t1.val"),
            "inequality predicate not found in JOIN"
        );
}


#[test]
fn keeps_explicit_alias() {
    let q = "SELECT (SELECT 1) AS answer";
    let out = rewrite(q).unwrap();
    assert!(out.sql.contains("answer"));      // alias survived
}

#[test]
fn synthesises_alias_when_missing() {
    let q = "SELECT (SELECT 1)";
    let out = rewrite(q).unwrap();
    assert!(out.sql.contains("subq1"));       // our synthetic alias
}

#[test]
fn cte_strips_correlated_filters() {
    let q = "SELECT (SELECT 1 FROM t2 WHERE t2.id = t1.id AND t2.flag = 'Y') FROM t1";
    let out = rewrite(q).unwrap();

    let sql = out.sql;

    // 1) CTE body must *not* reference the outer table
    assert!(
        !sql.contains("t2.id = t1.id"),
        "outer predicate leaked into CTE"
    );

    // 2) join ON-clause must contain the lifted predicate
    assert!(
        sql.contains("t1.id = __cte1.id"),
        "lifted predicate missing from JOIN"
    );

    // 3) the non-correlated filter must still be inside the CTE
    assert!(
        sql.contains("flag = 'Y'"),
        "local filter should stay inside CTE"
    );
}


#[test]
fn outer_only_predicate_removed() {
    let q = "SELECT (SELECT 1 FROM t2 WHERE t1.flag) FROM t1";
    let out = rewrite(q).unwrap();

    assert!(
        !out.sql.contains("FROM t2 WHERE t1.flag"),
        "predicate left in CTE"
    );
    assert!(
        out.sql.contains("ON t1.flag"),
        "predicate not copied to JOIN"
    );
}

#[test]
fn cte_projects_join_key() {
    let q = "
        SELECT (SELECT count(*)          -- scalar sub-query
                FROM   t2
                WHERE  t2.id = t1.id)    -- correlated predicate
        FROM t1";

    let out = rewrite(q).unwrap();
    let sql = out.sql;

    // 1) the inner column appears in the CTE SELECT-list
    assert!(
        sql.contains("SELECT t2.id") || sql.contains(", t2.id"),
        "join key t2.id not projected by CTE"
    );

    // 2) the ON-clause uses the projected column
    assert!(
        sql.contains("t1.id = __cte1.id"),
        "join predicate not rewritten with CTE column"
    );
}

#[test]
fn cte_projects_multiple_keys() {
    let q = "
        SELECT (SELECT 1
                FROM   t2
                WHERE  t2.x = t1.x
                AND    t2.y <> t1.y)     -- two different columns
        FROM t1";

    let out = rewrite(q).unwrap();
    let sql = out.sql;

    // Both columns must be selected by the CTE
    for col in ["t2.x", "t2.y"] {
        assert!(
            sql.contains(col),
            "{col} not projected by CTE"
        );
    }

    // And appear (rewritten) inside the JOIN
    assert!(sql.contains("t1.x = __cte1.x"),  "x predicate missing");
    assert!(
        sql.contains("t1.y <> __cte1.y") || sql.contains("__cte1.y <> t1.y"),
        "y predicate missing"
    );
}

// ---- full pg_catalog style query --------------------------------------------------
// Ensures
//   * scalar value is exposed as __cte1.col
//   * every join-key column is projected by its CTE
#[test]
fn pg_catalog_query_ok() {
    let q = r#"
        SELECT a.attname,
               pg_catalog.format_type(a.atttypid, a.atttypmod),
               (SELECT pg_catalog.pg_get_expr(d.adbin, d.adrelid, true)
                FROM pg_catalog.pg_attrdef d
                WHERE d.adrelid = a.attrelid
                  AND d.adnum   = a.attnum
                  AND a.atthasdef),
               a.attnotnull,
               (SELECT c.collname
                FROM pg_catalog.pg_collation c,
                     pg_catalog.pg_type      t
                WHERE c.oid = a.attcollation
                  AND t.oid = a.atttypid
                  AND a.attcollation <> t.typcollation) AS attcollation,
               a.attidentity,
               a.attgenerated
        FROM pg_catalog.pg_attribute a
        WHERE a.attrelid = '50010'
          AND a.attnum  > 0
          AND NOT a.attisdropped;
    "#;

    let sql = rewrite(q).unwrap().sql;

    // scalar exposed
    assert!(sql.contains("__cte1.col"), "scalar alias 'col' missing");

    // join-key columns projected by CTEs
    for k in ["d.adrelid", "d.adnum", "c.oid", "t.oid", "t.typcollation"] {
        assert!(
            sql.contains(k),
            "{k} not projected inside CTE"
        );
    }
}

#[test]
fn aggregates_are_grouped_by_their_keys() {
    let out = rewrite("SELECT (SELECT max(b) FROM t2 WHERE t2.id = t1.id) FROM t1").unwrap();
    assert_eq!(out.converted, 1);
    assert!(
        out.sql.contains("WITH __cte1 AS (SELECT max(b) AS col, t2.id FROM t2 GROUP BY t2.id)"),
        "{}",
        out.sql
    );
    assert!(
        out.sql.contains("FROM t1 LEFT OUTER JOIN __cte1 ON t1.id = __cte1.id"),
        "{}",
        out.sql
    );
    // One group for each key, once.
    let out = rewrite(
        "SELECT (SELECT coalesce(max(b), 0) FROM t2 WHERE t2.id = t1.id AND t2.id <> t1.k AND t2.v = t1.v) FROM t1",
    )
    .unwrap();
    assert!(out.sql.contains("GROUP BY t2.id, t2.v)"), "{}", out.sql);
    // Rows that are not put together are not grouped.
    let out = rewrite("SELECT (SELECT b FROM t2 WHERE t2.id = t1.id) FROM t1").unwrap();
    assert!(!out.sql.contains("GROUP BY"), "{}", out.sql);
    let out = rewrite("SELECT (SELECT max(b) FROM t2) FROM t1").unwrap();
    assert!(!out.sql.contains("GROUP BY"), "{}", out.sql);
}

#[test]
fn comparisons_keep_their_sides() {
    let on = |condition: &str| {
        let sql = format!("SELECT (SELECT max(b) FROM t2 WHERE {condition}) FROM t1");
        let out = rewrite(&sql).unwrap().sql;
        out.split(" ON ").nth(1).unwrap().to_string()
    };
    assert_eq!(on("t2.v < t1.v"), "t1.v > __cte1.v");
    assert_eq!(on("t2.v <= t1.v"), "t1.v >= __cte1.v");
    assert_eq!(on("t2.v > t1.v"), "t1.v < __cte1.v");
    assert_eq!(on("t2.v >= t1.v"), "t1.v <= __cte1.v");
    assert_eq!(on("t1.v < t2.v"), "t1.v < __cte1.v");
    assert_eq!(on("t2.v <> t1.v"), "t1.v <> __cte1.v");
}
