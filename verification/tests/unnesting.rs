use datafusion_pg_catalog::sql::casts::rewrite_regtype_cast;
use datafusion_pg_catalog::sql::cte::try_rewrite_subquery_as_cte;
use datafusion_pg_catalog::sql::parse::SqlError;
use datafusion_pg_catalog::sql::srf::{convert_dot_field_to_subscript, rewrite_srf_to_unnest};

#[test]
fn set_returning_functions_are_unnested() {
    assert_eq!(
        rewrite_srf_to_unnest(
            "SELECT (aclexplode(x)).a, (aclexplode(x)).b, other FROM t WHERE w"
        )
        .unwrap(),
        "SELECT __srf_unnest['a'], __srf_unnest['b'], other FROM (SELECT *, unnest(aclexplode(x)) AS __srf_unnest FROM t WHERE w) AS __srf_src"
    );
}

#[test]
fn two_functions_in_one_select_stay() {
    let sql = "SELECT (aclexplode(x)).a, (aclexplode(y)).b FROM t";
    assert_eq!(rewrite_srf_to_unnest(sql).unwrap(), sql);
    let sql = "SELECT aclexplode(x) AS a, aclexplode(y) AS b FROM t";
    assert_eq!(rewrite_srf_to_unnest(sql).unwrap(), sql);
    let sql = "SELECT (aclexplode(x)).a, aclexplode(y) AS b FROM t";
    assert_eq!(rewrite_srf_to_unnest(sql).unwrap(), sql);
    assert_eq!(
        rewrite_srf_to_unnest("SELECT aclexplode(x) AS a, aclexplode(x) AS b FROM t").unwrap(),
        "SELECT unnest(aclexplode(x)) AS a, unnest(aclexplode(x)) AS b FROM t"
    );
}

#[test]
fn union_branches_are_unnested_one_by_one() {
    let sql = "SELECT (aclexplode(x)).a FROM t UNION ALL SELECT (aclexplode(y)).a FROM u";
    let out = rewrite_srf_to_unnest(sql).unwrap();
    assert_eq!(out.matches("AS __srf_src").count(), 2, "{out}");
}

#[test]
fn fields_become_subscripts() {
    let out = convert_dot_field_to_subscript("SELECT (a.b).c FROM t").unwrap();
    assert!(out.contains("['c']"), "{out}");
}

#[test]
fn texts_without_matches_are_reprinted() {
    assert_eq!(rewrite_regtype_cast("select  1 as a").unwrap(), "SELECT 1 AS a");
    assert!(matches!(rewrite_regtype_cast("selec 1"), Err(SqlError::Parse(_))));
}

#[test]
fn what_cannot_be_lifted_is_none() {
    assert_eq!(
        try_rewrite_subquery_as_cte("SELECT 1"),
        Some("SELECT 1".to_string())
    );
    assert_eq!(try_rewrite_subquery_as_cte("SELEC 1"), None);
}
