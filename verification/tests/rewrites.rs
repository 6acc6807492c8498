use datafusion_pg_catalog::sql::calls::{
    rewrite_array_subquery,
    rewrite_array_upper_to_array_length,
    rewrite_available_updates,
    rewrite_brace_array_literal,
    rewrite_pg_custom_operator,
    rewrite_pg_truetypid_composite_args,
    rewrite_time_zone_utc,
    rewrite_tuple_equality,
    strip_default_collate,
};
use datafusion_pg_catalog::sql::casts::{
    drop_oid_array_cast,
    drop_redundant_oid_and_regclass_casts,
    replace_regclass,
    rewrite_array_agg_varchar_cast,
    rewrite_char_cast,
    rewrite_information_schema_casts,
    rewrite_name_cast,
    rewrite_regoper_cast,
    rewrite_regoperator_cast,
    rewrite_regproc_cast,
    rewrite_regprocedure_cast,
    rewrite_regtype_cast,
    rewrite_schema_qualified_custom_types,
    rewrite_schema_qualified_text,
    rewrite_text_backed_type_casts,
    rewrite_xid_cast,
};
use datafusion_pg_catalog::sql::clauses::{
    replace_set_command_with_namespace,
    resolve_order_by_names_to_output_positions,
};
use datafusion_pg_catalog::sql::lateral::decorrelate_lateral_aggregate;
use datafusion_pg_catalog::sql::parse::SqlError;
use datafusion_pg_catalog::sql::pipeline::{plannable, run_stages, stages, Rewrite};
use datafusion_pg_catalog::sql::regproc::{
    resolve_regproc_columns_to_oids_in_comparisons,
    rewrite_oid_cast,
};
use datafusion_pg_catalog::sql::subqueries::{
    rewrite_boolean_scalar_subquery_to_exists,
    rewrite_exists_to_count,
    rewrite_tuple_in_subquery_to_exists,
};
use datafusion_pg_catalog::sql::tables::{
    alias_subquery_tables,
    rewrite_available_extension_versions_source,
    rewrite_schema_qualified_udtfs,
};

#[test]
fn test_rewrite_regtype_cast() {
    let cases = vec![
        ("SELECT x::regtype", "SELECT x::TEXT"),
        ("SELECT x::pg_catalog.regtype", "SELECT x::TEXT"),
        ("SELECT y::pg_catalog.regtype::text", "SELECT y::TEXT::TEXT"),
    ];
    for (input, expected) in cases {
        assert_eq!(rewrite_regtype_cast(input).unwrap(), expected);
    }
}

#[test]
fn test_rewrite_array_agg_varchar_cast() {
    let input =
        "SELECT array_agg(inhparent::bigint ORDER BY inhseqno)::varchar FROM pg_catalog.pg_inherits";
    let expected = "SELECT pg_catalog.array_to_string(array_agg(inhparent::BIGINT ORDER BY inhseqno), ',') FROM pg_catalog.pg_inherits";
    assert_eq!(rewrite_array_agg_varchar_cast(input).unwrap(), expected);

    let untouched = "SELECT array_agg(inhparent)::text FROM pg_catalog.pg_inherits";
    assert_eq!(
        rewrite_array_agg_varchar_cast(untouched).unwrap(),
        "SELECT array_agg(inhparent)::TEXT FROM pg_catalog.pg_inherits"
    );
}

#[test]
fn test_rewrite_pg_custom_types() {
    let cases = vec![
        // literal keeps ::
        ("SELECT 'a'::pg_catalog.text", "SELECT 'a'::TEXT"),
        // simple identifier keeps ::
        ("SELECT x::pg_catalog.regtype", "SELECT x::TEXT"),
        ("SELECT x::pg_catalog.regclass", "SELECT x::TEXT"),
        // an explicit CAST stays CAST
        (
            "SELECT CAST(y AS pg_catalog.regtype)",
            "SELECT CAST(y AS TEXT)",
        ),
    ];

    for (input, expected) in cases {
        assert_eq!(
            rewrite_schema_qualified_custom_types(input).unwrap(),
            expected,
            "Failed for input: {}",
            input
        );
    }
}

#[test]
fn test_regclass_with_oid() {
    let cases = vec![
        (
            "SELECT 'pg_constraint'::regclass::oid",
            "SELECT oid('pg_constraint')",
        ),
        (
            "WITH c AS (SELECT 'pg_class'::regclass::oid) SELECT * FROM c",
            "WITH c AS (SELECT oid('pg_class')) SELECT * FROM c",
        ),
        (
            "SELECT t.*, 'pg_namespace'::regclass::oid FROM x t",
            "SELECT t.*, oid('pg_namespace') FROM x AS t",
        ),
    ];

    for (input, expected) in cases {
        let transformed = replace_regclass(input).unwrap();
        assert_eq!(transformed, expected, "Failed for input: {}", input);
    }
}

#[test]
fn test_rewrite_schema_qualified_text() {
    let cases = vec![
        ("SELECT 'a'::pg_catalog.text", "SELECT 'a'::TEXT"),
        (
            "SELECT CAST('x' AS pg_catalog.text)",
            "SELECT CAST('x' AS TEXT)",
        ),
        (
            "WITH q AS (SELECT 'b'::pg_catalog.text) SELECT * FROM q",
            "WITH q AS (SELECT 'b'::TEXT) SELECT * FROM q",
        ),
    ];
    for (input, expected) in cases {
        assert_eq!(rewrite_schema_qualified_text(input).unwrap(), expected);
    }
}

#[test]
fn test_drop_redundant_oid_and_regclass_casts() {
    // Non-literal `::regclass` / `::oid` casts are dropped (value preserved).
    let r = drop_redundant_oid_and_regclass_casts("SELECT c.oid::regclass").unwrap();
    assert!(
        !r.to_lowercase().contains("regclass"),
        "regclass dropped: {r}"
    );
    assert!(r.contains("c.oid"), "{r}");

    let o = drop_redundant_oid_and_regclass_casts("SELECT proargtypes::oid").unwrap();
    assert!(
        o.contains("proargtypes") && !o.to_lowercase().contains("::oid"),
        "{o}"
    );

    // String-literal regclass and numeric ::oid are left for the dedicated
    // passes (OID lookup / BIGINT mapping).
    let lit = drop_redundant_oid_and_regclass_casts("SELECT 'pg_class'::regclass").unwrap();
    assert!(
        lit.to_lowercase().contains("regclass"),
        "literal kept: {lit}"
    );
    let num = drop_redundant_oid_and_regclass_casts("SELECT 0::oid").unwrap();
    assert!(
        num.to_lowercase().contains("::oid") || num.contains("oid"),
        "num kept: {num}"
    );
}

#[test]
fn test_drop_oid_array_cast() {
    // `proargtypes::oid[]` (element_types/parameters) drops its cast - the
    // column is already an integer array, so the bare expression remains.
    let out = drop_oid_array_cast("SELECT proargtypes::oid[]").unwrap();
    assert!(out.contains("proargtypes"), "{out}");
    assert!(!out.to_lowercase().contains("oid["), "oid[] gone: {out}");
    assert!(!out.to_uppercase().contains("::"), "cast dropped: {out}");

    // Scalar `::oid` and unrelated array casts are untouched.
    let scalar = drop_oid_array_cast("SELECT x::oid").unwrap();
    assert!(
        scalar.to_lowercase().contains("oid"),
        "scalar oid kept: {scalar}"
    );
}

#[test]
fn test_rewrite_pg_truetypid_composite_args() {
    // The whole-row wildcard args expand into the columns each function reads,
    // preserving the call-site aliases.
    let id = rewrite_pg_truetypid_composite_args(
        "SELECT information_schema._pg_truetypid(a.*, t.*) FROM pg_attribute a, pg_type t",
    ).unwrap();
    assert!(id.contains("a.atttypid"), "{id}");
    assert!(id.contains("t.typtype"), "{id}");
    assert!(id.contains("t.typbasetype"), "{id}");
    assert!(!id.contains(".*"), "wildcards gone: {id}");

    let md = rewrite_pg_truetypid_composite_args(
        "SELECT information_schema._pg_truetypmod(att.*, ty.*) FROM pg_attribute att, pg_type ty",
    ).unwrap();
    assert!(md.contains("att.atttypmod"), "{md}");
    assert!(md.contains("ty.typtype"), "{md}");
    assert!(md.contains("ty.typtypmod"), "{md}");

    // Unrelated functions and already-scalar calls are untouched.
    let other = rewrite_pg_truetypid_composite_args("SELECT some_func(a.*, t.*)").unwrap();
    assert!(other.contains("a.*") && other.contains("t.*"), "{other}");
}

#[test]
fn test_rewrite_information_schema_casts() {
    // Each information_schema domain cast becomes its base type.
    let cases = vec![
        ("SELECT x::information_schema.sql_identifier", "TEXT"),
        ("SELECT x::information_schema.character_data", "TEXT"),
        ("SELECT x::information_schema.yes_or_no", "TEXT"),
        ("SELECT x::information_schema.cardinal_number", "INTEGER"),
        ("SELECT x::information_schema.time_stamp", "TIMESTAMP"),
        (
            "SELECT CAST(c.relname AS information_schema.sql_identifier)",
            "TEXT",
        ),
    ];
    for (input, base) in cases {
        let out = rewrite_information_schema_casts(input).unwrap();
        assert!(
            !out.to_lowercase().contains("information_schema"),
            "domain type should be gone, got: {out}"
        );
        assert!(
            out.to_uppercase().contains(base),
            "expected base type {base} in: {out}"
        );
    }

    // Casts to other schemas are left untouched.
    let untouched = rewrite_information_schema_casts("SELECT 'a'::pg_catalog.text").unwrap();
    assert!(untouched.to_lowercase().contains("pg_catalog.text"));

    // Bare `character varying` (unbounded varchar) -> TEXT.
    let cv = rewrite_information_schema_casts("SELECT NULL::character varying").unwrap();
    assert!(
        cv.to_uppercase().contains("TEXT") && !cv.to_uppercase().contains("CHARACTER VARYING"),
        "character varying should become TEXT: {cv}"
    );
    // Length-qualified varchar is left as-is (DataFusion plans it).
    let vl = rewrite_information_schema_casts("SELECT NULL::varchar(10)").unwrap();
    assert!(vl.to_lowercase().contains("varchar(10)"), "got {vl}");
}

#[test]
fn test_rewrite_tuple_in_subquery_to_exists() {
    // Multi-column IN -> correlated EXISTS, with one equality per column,
    // preserving the subquery's own WHERE.
    let out = rewrite_tuple_in_subquery_to_exists(
        "SELECT a FROM t1 WHERE (a, b) IN (SELECT s.x, s.y FROM s WHERE s.k = 1)",
    ).unwrap();
    let lo = out.to_lowercase();
    assert!(lo.contains("exists"), "expected EXISTS: {out}");
    assert!(!lo.contains(" in ("), "the IN should be gone: {out}");
    assert!(
        lo.contains("s.x = a") && lo.contains("s.y = b"),
        "per-column equalities: {out}"
    );
    assert!(
        lo.contains("s.k = 1"),
        "subquery's own WHERE preserved: {out}"
    );

    // NOT IN -> NOT EXISTS.
    let neg = rewrite_tuple_in_subquery_to_exists(
        "SELECT a FROM t1 WHERE (a, b) NOT IN (SELECT s.x, s.y FROM s)",
    ).unwrap();
    assert!(
        neg.to_lowercase().contains("not exists"),
        "expected NOT EXISTS: {neg}"
    );

    // Single-column IN is left for DataFusion (it handles that natively).
    let single =
        rewrite_tuple_in_subquery_to_exists("SELECT a FROM t1 WHERE a IN (SELECT x FROM s)").unwrap();
    assert!(
        single.to_lowercase().contains(" in (") && !single.to_lowercase().contains("exists"),
        "single-column IN untouched: {single}"
    );
}

#[test]
fn test_rewrite_exists_to_count() {
    // EXISTS in a CASE position -> (SELECT count(*) ...) > 0
    let out = rewrite_exists_to_count(
        "SELECT CASE WHEN EXISTS (SELECT 1 FROM t2 WHERE t2.id = t1.id) THEN 1 ELSE 0 END FROM t1",
    ).unwrap();
    let lo = out.to_lowercase();
    assert!(!lo.contains("exists"), "EXISTS should be gone: {out}");
    assert!(lo.contains("count(*)"), "expected count(*): {out}");
    assert!(lo.contains("> 0"), "expected > 0 comparison: {out}");

    // NOT EXISTS -> = 0
    let neg = rewrite_exists_to_count(
        "SELECT id FROM t1 WHERE NOT EXISTS (SELECT 1 FROM t2 WHERE t2.id = t1.id)",
    ).unwrap();
    let nlo = neg.to_lowercase();
    assert!(!nlo.contains("exists"), "NOT EXISTS should be gone: {neg}");
    assert!(nlo.contains("= 0"), "expected = 0 comparison: {neg}");

    // A subquery with GROUP BY is left untouched (count(*) not equivalent).
    let grouped =
        rewrite_exists_to_count("SELECT 1 WHERE EXISTS (SELECT 1 FROM t GROUP BY x)").unwrap();
    assert!(
        grouped.to_lowercase().contains("exists"),
        "grouped EXISTS must be left as-is: {grouped}"
    );
}

#[test]
fn test_rewrite_boolean_scalar_subquery_to_exists() {
    // getTypeInfo's predicate: a boolean scalar subquery becomes EXISTS with
    // the projected comparison folded into the WHERE.
    let out = rewrite_boolean_scalar_subquery_to_exists(
        "SELECT t.typname FROM pg_type t WHERE t.typrelid = 0 \
         OR (SELECT c.relkind = 'c' FROM pg_class c WHERE c.oid = t.typrelid)",
    ).unwrap();
    let lo = out.to_lowercase();
    assert!(lo.contains("exists"), "expected EXISTS: {out}");
    assert!(
        lo.contains("c.relkind = 'c'"),
        "comparison should be folded into the body: {out}"
    );
    assert!(
        lo.contains("c.oid = t.typrelid"),
        "original correlation must be kept: {out}"
    );

    // Chained with rewrite_exists_to_count, the whole thing becomes a
    // count(*) > 0 scalar DataFusion can plan.
    let counted = rewrite_exists_to_count(&out).unwrap();
    let clo = counted.to_lowercase();
    assert!(!clo.contains("exists"), "EXISTS should be reduced: {counted}");
    assert!(clo.contains("count(*)"), "expected count(*): {counted}");

    // A scalar subquery that projects a data value (not a comparison) is
    // left untouched.
    let untouched = rewrite_boolean_scalar_subquery_to_exists(
        "SELECT (SELECT c.relname FROM pg_class c WHERE c.oid = t.typrelid) FROM pg_type t",
    ).unwrap();
    assert!(
        !untouched.to_lowercase().contains("exists"),
        "value subquery must be left as-is: {untouched}"
    );
}

#[test]
fn test_rewrite_array_upper_to_array_length() {
    let out = rewrite_array_upper_to_array_length(
        "SELECT generate_series(1, array_upper(current_schemas(false), 1))",
    ).unwrap();
    let lo = out.to_lowercase();
    assert!(!lo.contains("array_upper"), "array_upper should be gone: {out}");
    assert!(lo.contains("array_length"), "expected array_length: {out}");
    // A schema-qualified call is renamed too.
    let qualified =
        rewrite_array_upper_to_array_length("SELECT pg_catalog.array_upper(a, 1)").unwrap();
    assert!(qualified.to_lowercase().contains("array_length"), "{qualified}");
}

#[test]
fn test_rewrite_pg_custom_operator() {
    let cases = vec![
        ("SELECT 'b' OPERATOR(pg_catalog.~) 'a'", "SELECT 'b' ~ 'a'"),
        (
            "SELECT c.relname OPERATOR(pg_catalog.~) '^(t)$' FROM pg_class c",
            "SELECT c.relname ~ '^(t)$' FROM pg_class AS c",
        ),
    ];
    for (input, expected) in cases {
        let transformed = rewrite_pg_custom_operator(input).unwrap();
        assert_eq!(transformed, expected);
    }
}

#[test]
fn test_strip_default_collate() {
    let cases = vec![
        (
            "SELECT 'a' COLLATE pg_catalog.default",
            "SELECT 'a'",
        ),
        (
            "SELECT * FROM t WHERE c COLLATE pg_catalog.default = 'x'",
            "SELECT * FROM t WHERE c = 'x'",
        ),
        (
            "WITH x AS (SELECT 'foo' COLLATE pg_catalog.default) SELECT * FROM x",
            "WITH x AS (SELECT 'foo') SELECT * FROM x",
        ),
        (
            "SELECT c.relname OPERATOR(pg_catalog.~) '^(t)$' COLLATE pg_catalog.default FROM pg_class c",
            "SELECT c.relname OPERATOR(pg_catalog.~) '^(t)$' FROM pg_class AS c",
        ),
    ];

    for (input, expected) in cases {
        let transformed = strip_default_collate(input).unwrap();
        assert_eq!(transformed, expected, "Failed for input: {}", input);
    }
}

#[test]
fn test_rewrite_time_zone_utc() {
    let input = "SELECT pg_postmaster_start_time() AT TIME ZONE 'utc'";
    let expected = "SELECT pg_postmaster_start_time() AT TIME ZONE 'UTC'";
    assert_eq!(rewrite_time_zone_utc(input).unwrap(), expected);

    let unchanged = "SELECT pg_postmaster_start_time() AT TIME ZONE 'UTC'";
    assert_eq!(rewrite_time_zone_utc(unchanged).unwrap(), unchanged);
}

#[test]
fn test_various_sql_cases() {
    let cases = vec![
        (
            "SELECT 'pg_namespace'::regclass FROM foo LIMIT 10",
            "SELECT oid('pg_namespace') FROM foo LIMIT 10",
        ),
        (
            "WITH cte AS (SELECT 'pg_class'::regclass) SELECT * FROM cte",
            "WITH cte AS (SELECT oid('pg_class')) SELECT * FROM cte",
        ),
        (
            "SELECT t.*, 'pg_class'::regclass FROM table1 t JOIN table2 ON true",
            "SELECT t.*, oid('pg_class') FROM table1 AS t JOIN table2 ON true",
        ),
        (
            "SELECT * FROM (SELECT 'pg_class'::regclass) sub",
            "SELECT * FROM (SELECT oid('pg_class')) AS sub",
        ),
    ];

    for (input, expected) in cases {
        let transformed = replace_regclass(input).unwrap();
        assert_eq!(transformed, expected, "Failed for input: {}", input);
    }
}

#[test]
fn test_set_show_query_rewrite() {
    assert_eq!(
        replace_set_command_with_namespace("SET application_name = 'x'").unwrap(),
        "SET pg_catalog.application_name = 'x'"
    );
    assert_eq!(
        replace_set_command_with_namespace("SELECT foo FROM bar").unwrap(),
        "SELECT foo FROM bar"
    );

    assert_eq!(
        replace_set_command_with_namespace("SET LOCAL work_mem TO '4MB'").unwrap(),
        "SET LOCAL pg_catalog.work_mem = '4MB'"
    );
}

#[test]
fn test_rewrite_array_subquery() {
    /* basic happy-path */
    let in_sql = "SELECT array(SELECT rolname FROM pg_catalog.pg_roles ORDER BY 1)";
    let expect =
        "SELECT pg_catalog.pg_get_array((SELECT rolname FROM pg_catalog.pg_roles ORDER BY 1))";
    let out_sql = rewrite_array_subquery(in_sql).unwrap();
    assert_eq!(out_sql, expect);

    let in_sql = "select 1";
    let out_sql = rewrite_array_subquery(in_sql).unwrap();
    assert_eq!(in_sql, out_sql);

    /* ARRAY with more than one arg - rejected */
    let bad_sql = "SELECT array(x, y)";
    assert!(rewrite_array_subquery(bad_sql).is_err());

    /* array literal is *not* touched */
    let lit_sql = "SELECT ARRAY[1,2,3]";
    let out_sql = rewrite_array_subquery(lit_sql).unwrap();
    assert_eq!(lit_sql, out_sql);
}

#[test]
fn test_rewrite_brace_array_literal() {
    let in_sql = "SELECT pol.polroles = '{0}' FROM pg_catalog.pg_policy pol";
    let expect = "SELECT pol.polroles = ['0'] FROM pg_catalog.pg_policy AS pol";
    assert_eq!(rewrite_brace_array_literal(in_sql).unwrap(), expect);

    // nothing to do -> echoes input
    let plain = "SELECT 1";
    assert_eq!(rewrite_brace_array_literal(plain).unwrap(), plain);
}

#[test]
fn test_rewrite_regoper_cast() {
    let input = "SELECT conexclop::regoper::text FROM pg_catalog.pg_constraint";
    let expected = "SELECT NULL::TEXT FROM pg_catalog.pg_constraint";
    assert_eq!(rewrite_regoper_cast(input).unwrap(), expected);

    let input = "SELECT conexclop::pg_catalog.regoper::varchar FROM pg_catalog.pg_constraint";
    let expected = "SELECT NULL::VARCHAR FROM pg_catalog.pg_constraint";
    assert_eq!(rewrite_regoper_cast(input).unwrap(), expected);

    let input = "SELECT conexclop::regoper FROM pg_catalog.pg_constraint";
    let expected = "SELECT NULL FROM pg_catalog.pg_constraint";
    assert_eq!(rewrite_regoper_cast(input).unwrap(), expected);
}

#[test]
fn test_rewrite_char_cast() {
    let cases = vec![
        ("SELECT 'c'::\"char\"", "SELECT 'c'::CHAR"),
        ("SELECT CAST('a' AS \"char\")", "SELECT CAST('a' AS CHAR)"),
        ("SELECT x::pg_catalog.\"char\"", "SELECT x::CHAR"),
    ];

    for (input, expected) in cases {
        assert_eq!(rewrite_char_cast(input).unwrap(), expected);
    }
}

#[test]
fn test_rewrite_xid_cast() {
    let cases = vec![
        ("SELECT x::xid", "SELECT x::BIGINT"),
        ("SELECT x::pg_catalog.xid::text", "SELECT x::BIGINT::TEXT"),
    ];

    for (input, expected) in cases {
        assert_eq!(rewrite_xid_cast(input).unwrap(), expected);
    }
}

#[test]
fn test_rewrite_name_cast() {
    let cases = vec![
        ("SELECT '_RETURN'::name", "SELECT '_RETURN'::TEXT"),
        (
            "SELECT CAST('foo' AS pg_catalog.name)",
            "SELECT CAST('foo' AS TEXT)",
        ),
    ];

    for (input, expected) in cases {
        assert_eq!(rewrite_name_cast(input).unwrap(), expected);
    }
}

#[test]
fn test_rewrite_available_updates() {
    let input =
        "SELECT array(select unnest from unnest(available_versions) where unnest > extversion)";
    let expected = "SELECT NULL";
    assert_eq!(rewrite_available_updates(input).unwrap(), expected);
}

#[test]
fn test_rewrite_regoperator_cast() {
    let cases = vec![
        ("SELECT x::regoperator", "SELECT x::TEXT"),
        (
            "SELECT x::pg_catalog.regoperator::varchar",
            "SELECT x::TEXT::VARCHAR",
        ),
    ];

    for (input, expected) in cases {
        assert_eq!(rewrite_regoperator_cast(input).unwrap(), expected);
    }
}

#[test]
fn test_rewrite_regprocedure_cast() {
    let cases = vec![
        ("SELECT x::regprocedure", "SELECT x::TEXT"),
        (
            "SELECT x::pg_catalog.regprocedure::varchar",
            "SELECT x::TEXT::VARCHAR",
        ),
    ];

    for (input, expected) in cases {
        assert_eq!(rewrite_regprocedure_cast(input).unwrap(), expected);
    }
}

#[test]
fn test_rewrite_regproc_cast() {
    let cases = vec![
        ("SELECT x::regproc", "SELECT x::TEXT"),
        (
            "SELECT x::pg_catalog.regproc::varchar",
            "SELECT x::TEXT::VARCHAR",
        ),
    ];

    for (input, expected) in cases {
        assert_eq!(rewrite_regproc_cast(input).unwrap(), expected);
    }
}

#[test]
fn test_resolve_regproc_columns_to_oids_in_comparisons() {
    let cases = vec![
        // The Npgsql type-loading join: the OID side stays, the name side is resolved.
        (
            "SELECT 1 FROM pg_type a JOIN pg_proc ON pg_proc.oid = a.typreceive",
            "SELECT 1 FROM pg_type a JOIN pg_proc ON pg_proc.oid = pg_proc_oid(a.typreceive)",
        ),
        // ... whichever side the client writes it on.
        (
            "SELECT 1 FROM pg_type a JOIN pg_proc p ON a.typoutput = p.oid",
            "SELECT 1 FROM pg_type a JOIN pg_proc p ON pg_proc_oid(a.typoutput) = p.oid",
        ),
        // A function name written as a literal resolves too, so a schema-qualified
        // spelling still matches the bare name the catalog stores.
        (
            "SELECT typinput = 'pg_catalog.array_in' FROM pg_type",
            "SELECT pg_proc_oid(typinput) = pg_proc_oid('pg_catalog.array_in') FROM pg_type",
        ),
        (
            "SELECT typreceive <> 0 FROM pg_type",
            "SELECT pg_proc_oid(typreceive) <> 0 FROM pg_type",
        ),
        // Two regproc columns already hold comparable names.
        (
            "SELECT 1 FROM pg_type WHERE typinput = typoutput",
            "SELECT 1 FROM pg_type WHERE typinput = typoutput",
        ),
        // Columns that are not regproc, and non-equality operators, are untouched.
        (
            "SELECT 1 FROM pg_type a JOIN pg_class c ON c.oid = a.typrelid",
            "SELECT 1 FROM pg_type a JOIN pg_class c ON c.oid = a.typrelid",
        ),
        (
            "SELECT 1 FROM pg_type WHERE typreceive < 'b'",
            "SELECT 1 FROM pg_type WHERE typreceive < 'b'",
        ),
    ];

    for (input, expected) in cases {
        assert_eq!(
            resolve_regproc_columns_to_oids_in_comparisons(input).unwrap(),
            expected
        );
    }
}

#[test]
fn test_resolve_order_by_names_to_output_positions() {
    let cases = vec![
        // Npgsql's enum query: `oid` is the selected pg_type.oid, but pg_enum has an
        // `oid` too, so the name has to become the position to stay unambiguous.
        (
            "SELECT pg_type.oid, enumlabel FROM pg_enum JOIN pg_type ON pg_type.oid = enumtypid ORDER BY oid, enumsortorder",
            "SELECT pg_type.oid, enumlabel FROM pg_enum JOIN pg_type ON pg_type.oid = enumtypid ORDER BY 1, enumsortorder",
        ),
        // An alias is an output column name as well, and sort options survive.
        (
            "SELECT relname AS name FROM pg_class ORDER BY name DESC",
            "SELECT relname AS name FROM pg_class ORDER BY 1 DESC",
        ),
        // A qualified name means the input column in PostgreSQL, so it stays.
        (
            "SELECT pg_type.oid FROM pg_type ORDER BY pg_type.oid",
            "SELECT pg_type.oid FROM pg_type ORDER BY pg_type.oid",
        ),
        // A name that is not in the SELECT list stays; it can only be an input column.
        (
            "SELECT typname FROM pg_type ORDER BY oid",
            "SELECT typname FROM pg_type ORDER BY oid",
        ),
        // Positions after a wildcard are unknown before expansion, so nothing moves.
        (
            "SELECT *, typname FROM pg_type ORDER BY typname",
            "SELECT *, typname FROM pg_type ORDER BY typname",
        ),
        // The ORDER BY of a subquery reads that subquery's own SELECT list.
        (
            "SELECT * FROM (SELECT pg_type.oid FROM pg_enum JOIN pg_type ON true ORDER BY oid) t",
            "SELECT * FROM (SELECT pg_type.oid FROM pg_enum JOIN pg_type ON true ORDER BY 1) t",
        ),
    ];

    for (input, expected) in cases {
        assert_eq!(
            resolve_order_by_names_to_output_positions(input).unwrap(),
            expected
        );
    }
}

#[test]
fn test_rewrite_oid_cast_on_regproc_column() {
    // A regproc column holds a function name, so `::oid` resolves it in pg_proc;
    // every other name is a relation name and resolves in pg_class.
    assert_eq!(
        rewrite_oid_cast("SELECT amhandler::oid FROM pg_am").unwrap(),
        "SELECT pg_proc_oid(amhandler) FROM pg_am"
    );
    assert_eq!(
        rewrite_oid_cast("SELECT a.typinput::oid FROM pg_type a").unwrap(),
        "SELECT pg_proc_oid(a.typinput) FROM pg_type a"
    );
    assert_eq!(
        rewrite_oid_cast("SELECT relname::oid FROM pg_class").unwrap(),
        "SELECT oid(relname) FROM pg_class"
    );
}

#[test]
fn test_rewrite_schema_qualified_udtfs() {
    let input = "SELECT * FROM pg_catalog.pg_get_keywords()";
    let expected = "SELECT * FROM pg_get_keywords()";
    assert_eq!(rewrite_schema_qualified_udtfs(input).unwrap(), expected);

    let plain = "SELECT 1";
    assert_eq!(rewrite_schema_qualified_udtfs(plain).unwrap(), plain);
}

#[test]
fn test_rewrite_tuple_equality() {
    let input = "SELECT * FROM t JOIN u ON (t.a, t.b) = (u.c, u.d)";
    let expected = "SELECT * FROM t JOIN u ON t.a = u.c AND t.b = u.d";
    assert_eq!(rewrite_tuple_equality(input).unwrap(), expected);

    // unchanged if no tuples
    let plain = "SELECT 1";
    assert_eq!(rewrite_tuple_equality(plain).unwrap(), plain);
}

#[test]
fn test_alias_subquery_tables() {
    let sql =
        "SELECT (SELECT count(*) FROM pg_trigger WHERE tgrelid = rel.oid) FROM pg_class rel";
    let out = alias_subquery_tables(sql).unwrap();
    assert!(out.contains("FROM pg_catalog.pg_trigger AS subq0_t"));
    // The outer correlated reference `rel.oid` must NOT be re-aliased.
    assert!(
        out.contains("rel.oid"),
        "outer ref must be preserved: {out}"
    );
}

#[test]
fn test_alias_subquery_tables_requalifies_self_refs() {
    // When the subquery refers to its OWN table by name (`pg_database.datname`),
    // aliasing the table to `subq0_t` must re-qualify those refs too - otherwise
    // they no longer resolve. (Regression: the information_schema `collations`,
    // `usage_privileges`, etc. views hit exactly this.)
    let sql = "SELECT 1 WHERE x = (SELECT pg_database.encoding FROM pg_database \
               WHERE pg_database.datname = 'd')";
    let out = alias_subquery_tables(sql).unwrap();
    assert!(
        out.contains("FROM pg_catalog.pg_database AS subq0_t"),
        "{out}"
    );
    // Both the projected and the WHERE self-references are re-qualified.
    assert!(out.contains("subq0_t.encoding"), "projection ref: {out}");
    assert!(out.contains("subq0_t.datname"), "where ref: {out}");
    assert!(
        !out.contains("pg_database.datname"),
        "stale self-ref left behind: {out}"
    );
}

#[test]
fn test_alias_subquery_tables_handles_exists() {
    // Tables inside EXISTS (and IN) subqueries must also be qualified to
    // pg_catalog and aliased - the `views` information_schema view relies on
    // this for its `EXISTS (SELECT 1 FROM pg_trigger ...)`.
    let sql =
        "SELECT 1 WHERE EXISTS (SELECT 1 FROM pg_trigger WHERE pg_trigger.tgrelid = c.oid)";
    let out = alias_subquery_tables(sql).unwrap();
    assert!(
        out.contains("FROM pg_catalog.pg_trigger AS subq0_t"),
        "{out}"
    );
    assert!(
        out.contains("subq0_t.tgrelid"),
        "self-ref requalified: {out}"
    );
    assert!(
        out.contains("c.oid"),
        "outer correlated ref preserved: {out}"
    );
}

#[test]
fn test_decorrelate_lateral_aggregate() {
    let out = decorrelate_lateral_aggregate(
        "SELECT c.relname, i.n FROM pg_class c \
         LEFT JOIN LATERAL (SELECT sum(pg_index.x) AS n FROM pg_index \
         WHERE pg_index.indrelid = c.oid) i ON true",
    ).unwrap();
    let lo = out.to_lowercase();
    assert!(!lo.contains("lateral"), "LATERAL removed: {out}");
    assert!(lo.contains("group by"), "GROUP BY added: {out}");
    assert!(
        lo.contains("__decorr_key_0") && lo.contains("= c.oid"),
        "equi-join on the decorrelated key: {out}"
    );
}

#[test]
fn test_decorrelate_lateral_aggregate_leaves_non_aggregate_lateral() {
    // A LATERAL without an aggregate is not a grouping candidate; leave it untouched.
    let sql = "SELECT c.relname, i.x FROM pg_class c \
         LEFT JOIN LATERAL (SELECT pg_index.x FROM pg_index \
         WHERE pg_index.indrelid = c.oid) i ON true";
    let out = decorrelate_lateral_aggregate(sql).unwrap();
    assert!(out.to_lowercase().contains("lateral"), "untouched: {out}");
}

#[test]
fn test_rewrite_available_extension_versions_source() {
    // The function-call form (in FROM, with args) is renamed to the internal name...
    let called = rewrite_available_extension_versions_source(
        "SELECT * FROM pg_available_extension_versions() e(name)",
    ).unwrap();
    assert!(
        called
            .to_lowercase()
            .contains("available_extension_versions()"),
        "{called}"
    );
    assert!(
        !called
            .to_lowercase()
            .contains("pg_available_extension_versions"),
        "call renamed: {called}"
    );
    // ...but a bare reference to the view of that name is left untouched.
    let view = rewrite_available_extension_versions_source(
        "SELECT count(*) FROM pg_catalog.pg_available_extension_versions",
    ).unwrap();
    assert!(
        view.to_lowercase()
            .contains("pg_available_extension_versions"),
        "view reference preserved: {view}"
    );
}

#[test]
fn test_rewrite_text_backed_type_casts() {
    // `anyarray` becomes scalar `text`; `name[]` becomes `text[]`.
    let out = rewrite_text_backed_type_casts(
        "SELECT NULL::anyarray AS a, '{x}'::name[] AS b, x::pg_catalog.anyarray AS c",
    ).unwrap();
    let up = out.to_uppercase();
    assert!(!up.contains("ANYARRAY"), "anyarray rewritten away: {out}");
    assert!(!up.contains("NAME[]"), "name[] rewritten away: {out}");
    assert!(
        up.contains("::TEXT[]") || up.contains("TEXT[]"),
        "name[] -> text[]: {out}"
    );
}

#[test]
fn test_rewrite_text_backed_type_casts_leaves_oid_array() {
    // `oid[]` is the job of drop_oid_array_cast; this rewrite must not touch it.
    let out = rewrite_text_backed_type_casts("SELECT proargtypes::oid[]").unwrap();
    assert!(
        out.to_lowercase().contains("oid"),
        "oid[] left intact: {out}"
    );
}

#[test]
fn dropped_operators_are_dropped_in_each_other() {
    assert_eq!(
        strip_default_collate(
            "SELECT (a COLLATE pg_catalog.default) COLLATE pg_catalog.default FROM t"
        )
        .unwrap(),
        "SELECT (a) FROM t"
    );
    assert_eq!(
        drop_oid_array_cast("SELECT x::oid[]::oid[] FROM t").unwrap(),
        "SELECT x FROM t"
    );
}

#[test]
fn operands_are_held_together() {
    assert_eq!(
        rewrite_exists_to_count("SELECT EXISTS (SELECT 1 FROM t)::TEXT").unwrap(),
        "SELECT ((SELECT count(*) FROM t) > 0)::TEXT"
    );
    assert_eq!(
        rewrite_exists_to_count(
            "SELECT EXISTS (SELECT 1 FROM t) = NOT EXISTS (SELECT 1 FROM u) AND a = b"
        )
        .unwrap(),
        "SELECT ((SELECT count(*) FROM t) > 0) = ((SELECT count(*) FROM u) = 0) AND a = b"
    );
    assert_eq!(
        rewrite_tuple_equality("SELECT 1 FROM t WHERE NOT (a, b) = (c, d)").unwrap(),
        "SELECT 1 FROM t WHERE NOT (a = c AND b = d)"
    );
    assert_eq!(
        rewrite_tuple_equality("SELECT 1 FROM t WHERE (a, b) = (c, d) IS TRUE").unwrap(),
        "SELECT 1 FROM t WHERE (a = c AND b = d) IS TRUE"
    );
    assert_eq!(
        rewrite_tuple_equality("SELECT 1 FROM t WHERE (a OR e, b + 1) = (c, d) OR f").unwrap(),
        "SELECT 1 FROM t WHERE (a OR e) = c AND (b + 1) = d OR f"
    );
    assert_eq!(
        rewrite_tuple_equality("SELECT 1 FROM t WHERE (a, b) = (c IS NULL, d)").unwrap(),
        "SELECT 1 FROM t WHERE a = (c IS NULL) AND b = d"
    );
    assert_eq!(
        drop_redundant_oid_and_regclass_casts("SELECT CAST(a + b AS oid) * 2, c.oid::regclass").unwrap(),
        "SELECT (a + b) * 2, c.oid"
    );
    assert_eq!(
        drop_oid_array_cast("SELECT CAST(a || b AS oid[])[1], c::oid[]").unwrap(),
        "SELECT (a || b)[1], c"
    );
}

#[test]
fn subqueries_of_aggregates_stay() {
    for sql in [
        "SELECT EXISTS (SELECT max(x) FROM t)",
        "SELECT EXISTS (SELECT 1 FROM t OFFSET 2)",
        "SELECT EXISTS (SELECT 1 FROM t LIMIT 0)",
    ] {
        assert_eq!(rewrite_exists_to_count(sql).unwrap(), sql);
    }
    assert_eq!(
        rewrite_exists_to_count("SELECT EXISTS (SELECT 1 FROM t LIMIT 1)").unwrap(),
        "SELECT (SELECT count(*) FROM t LIMIT 1) > 0"
    );
    for sql in [
        "SELECT 1 FROM t WHERE (a, b) IN (SELECT max(s.x), s.y FROM s GROUP BY s.y)",
        "SELECT 1 FROM t WHERE (a, b) IN (SELECT max(s.x), min(s.y) FROM s)",
        "SELECT 1 FROM t WHERE (a, b) IN (SELECT DISTINCT s.x, s.y FROM s)",
        "SELECT 1 FROM t WHERE (a, b) IN (SELECT s.x, s.y FROM s LIMIT 1)",
    ] {
        assert_eq!(rewrite_tuple_in_subquery_to_exists(sql).unwrap(), sql);
    }
    let limited = rewrite_array_subquery("SELECT ARRAY(SELECT unnest FROM UNNEST(a) LIMIT 1)").unwrap();
    assert!(limited.contains("pg_get_array"), "{limited}");
    let distinct = rewrite_array_subquery("SELECT ARRAY(SELECT DISTINCT unnest FROM UNNEST(a))").unwrap();
    assert!(distinct.contains("pg_get_array"), "{distinct}");
    let counted = "SELECT (SELECT count(*) > 0 FROM t)";
    assert_eq!(rewrite_boolean_scalar_subquery_to_exists(counted).unwrap(), counted);
}

#[test]
fn tuples_keep_the_condition_of_their_subquery() {
    assert_eq!(
        rewrite_tuple_in_subquery_to_exists(
            "SELECT a FROM t1 WHERE (a, b) IN (SELECT s.x, s.y FROM s WHERE s.k = 1 OR s.k = 2)"
        )
        .unwrap(),
        "SELECT a FROM t1 WHERE EXISTS (SELECT 1 FROM s WHERE (s.k = 1 OR s.k = 2) AND s.x = a AND s.y = b)"
    );
    assert_eq!(
        rewrite_tuple_in_subquery_to_exists(
            "SELECT a FROM t1 WHERE (a OR c, b) IN (SELECT s.x, s.y FROM s)"
        )
        .unwrap(),
        "SELECT a FROM t1 WHERE EXISTS (SELECT 1 FROM s WHERE s.x = (a OR c) AND s.y = b)"
    );
}

#[test]
fn malformed_array_literals_are_refused() {
    for bad in [
        "SELECT '{\"a}'",
        "SELECT '{a}}'",
        "SELECT '{{a}'",
        "SELECT '{1,,2}'",
        "SELECT '{1,}'",
        "SELECT '{a\"b\"c}'",
        "SELECT '{\"a\"b}'",
        "SELECT '{\"a\\\"}'",
        "SELECT '{a\\}'",
        "SELECT '{a{b}}'",
    ] {
        match rewrite_brace_array_literal(bad) {
            Err(SqlError::Plan(why)) => assert!(why.starts_with("malformed array literal: "), "{why}"),
            other => panic!("{bad}: {other:?}"),
        }
    }
    assert_eq!(
        rewrite_brace_array_literal("SELECT '{\"a\",\"b\"}'").unwrap(),
        "SELECT ['a', 'b']"
    );
    for good in ["SELECT '{\"a\\\"b\"}'", "SELECT '{ \"a\" , b c }'", "SELECT '{{1,2},{3,4}}'", "SELECT '{}'"] {
        assert!(rewrite_brace_array_literal(good).is_ok(), "{good}");
    }
}

#[test]
fn lateral_aggregates_that_count_stay() {
    for sql in [
        "SELECT c.relname, i.n FROM pg_class AS c LEFT JOIN LATERAL (SELECT count(pg_index.x) AS n FROM pg_index WHERE pg_index.indrelid = c.oid) AS i ON true",
        "SELECT c.relname, i.n FROM pg_class AS c LEFT JOIN LATERAL (SELECT sum(pg_index.x) AS n, 1 AS one FROM pg_index WHERE pg_index.indrelid = c.oid) AS i ON true",
        "SELECT c.relname, i.n FROM pg_class AS c INNER JOIN LATERAL (SELECT sum(pg_index.x) AS n FROM pg_index WHERE pg_index.indrelid = c.oid) AS i ON true",
        "SELECT c.relname, i.n FROM pg_class AS c LEFT JOIN LATERAL (SELECT sum(pg_index.x) AS n FROM pg_index WHERE pg_index.indrelid = c.oid LIMIT 0) AS i ON true",
        "SELECT i.n FROM c LEFT JOIN LATERAL (SELECT sum(t.x) FROM t WHERE t.k = c.k) AS i (n) ON true",
        "SELECT i.n FROM c LEFT JOIN LATERAL (SELECT sum(t.x) AS n FROM t WHERE t.k = c.k + t.j) AS i ON true",
        "SELECT i.n FROM c LEFT JOIN LATERAL (SELECT sum(t.x) AS n FROM t WHERE j = t.k) AS i ON true",
        "SELECT i.n FROM c LEFT JOIN LATERAL (SELECT sum(t.x + c.y) AS n FROM t WHERE t.k = c.k) AS i ON true",
        "SELECT i.n FROM c LEFT JOIN LATERAL (SELECT sum(t.x) AS n FROM t WHERE t.k = c.k HAVING sum(t.x) > 1) AS i ON true",
    ] {
        let out = decorrelate_lateral_aggregate(sql).unwrap();
        assert!(out.contains("LATERAL") && !out.contains("GROUP BY"), "{out}");
    }
    let out = decorrelate_lateral_aggregate(
        "SELECT i.n FROM c LEFT JOIN LATERAL (SELECT -sum(t.x)::BIGINT + 1 AS n FROM t WHERE t.k = c.k) AS i ON true",
    )
    .unwrap();
    assert!(out.contains("GROUP BY t.k"), "{out}");
}

#[test]
fn rewrites_run_in_their_order() {
    let order = stages();
    let place = |x: Rewrite| order.iter().position(|y| *y == x).unwrap();
    assert!(place(Rewrite::BooleanSubquery) < place(Rewrite::ExistsToCount));
    assert!(place(Rewrite::ExistsToCount) < place(Rewrite::TupleInSubquery));

    let plan = plannable(
        "SELECT c.oid::regclass, relname AS n FROM pg_class c WHERE EXISTS (SELECT 1 FROM u) AND (a, b) IN (SELECT x, y FROM s)",
    )
    .unwrap();
    assert!(plan.text.contains("(SELECT count(*) FROM pg_catalog.u "), "{}", plan.text);
    assert!(plan.text.contains("EXISTS (SELECT 1 FROM pg_catalog.s "), "{}", plan.text);
    assert_eq!(plan.names.len(), 1);
    assert_eq!(plan.names[0].0, "alias_1");
    assert_eq!(plan.shown_name("alias_1"), plan.names[0].1);
    assert_eq!(plan.shown_name("n"), "n");
    assert!(matches!(plannable("SELEC 1"), Err(SqlError::Parse(_))));
    assert!(matches!(plannable("SELECT '{\"a}'"), Err(SqlError::Plan(_))));
    assert_eq!(
        run_stages(&vec![Rewrite::XidCast, Rewrite::NameCast], "SELECT a::xid, b::name").unwrap(),
        "SELECT a::BIGINT, b::TEXT"
    );
}

#[test]
fn lateral_keys_are_compared_with_whole_expressions() {
    assert_eq!(
        decorrelate_lateral_aggregate(
            "SELECT 1 FROM c LEFT JOIN LATERAL (SELECT sum(t.x) AS n FROM t \
             WHERE c.a IS NULL = t.k) AS \"I\" ON true"
        )
        .unwrap(),
        "SELECT 1 FROM c LEFT JOIN (SELECT t.k AS __decorr_key_0, sum(t.x) AS n FROM t \
         GROUP BY t.k) AS \"I\" ON \"I\".__decorr_key_0 = (c.a IS NULL)"
    );
}

#[test]
fn matches_are_held_together_as_operands() {
    for (sql, expected) in [
        (
            "SELECT x = a OPERATOR(pg_catalog.~) b FROM t",
            "SELECT x = (a ~ b) FROM t",
        ),
        (
            "SELECT 1 FROM t WHERE NOT a OPERATOR(pg_catalog.~) b AND c OR d ~ e",
            "SELECT 1 FROM t WHERE NOT a ~ b AND c OR d ~ e",
        ),
    ] {
        assert_eq!(rewrite_pg_custom_operator(sql).unwrap(), expected);
    }
}
