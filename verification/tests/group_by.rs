use datafusion_pg_catalog::sql::group_by::rewrite_group_by_for_any;

/// A column used only inside `= ANY(...)` is appended to an existing
/// GROUP BY.
#[test]
fn test_adds_column_in_any_to_group_by() {
    let input = "SELECT a, 'x' = ANY(b) FROM t GROUP BY a";
    let output = rewrite_group_by_for_any(input);
    assert_eq!(output, "SELECT a, 'x' = ANY(b) FROM t GROUP BY a, b");
}

/// A column already listed in GROUP BY is not duplicated, and the SQL is
/// returned verbatim rather than reprinted.
#[test]
fn test_noop_if_already_in_group_by() {
    let input = "SELECT a, 'x' = ANY(b) FROM t GROUP BY a, b";
    let output = rewrite_group_by_for_any(input);
    assert_eq!(output, input);
}

/// An ungrouped query never gains a GROUP BY clause.
#[test]
fn test_noop_when_no_group_by() {
    // A query with no GROUP BY must not gain one from `= ANY(...)`.
    let input = "SELECT a, 'x' = ANY(b) FROM t";
    let output = rewrite_group_by_for_any(input);
    assert!(
        !output.to_uppercase().contains("GROUP BY"),
        "no GROUP BY fabricated: {output}"
    );
}

/// An array literal argument to `ANY(...)` is never added to GROUP BY.
#[test]
fn test_noop_on_array_literal_any_arg() {
    // `= ANY(ARRAY[...])` has no column to group on (the `columns` view case).
    let input = "SELECT a, x = ANY(ARRAY['a', 'd']) FROM t GROUP BY a";
    let output = rewrite_group_by_for_any(input);
    assert_eq!(
        output, "SELECT a, x = ANY(ARRAY['a', 'd']) FROM t GROUP BY a",
        "array-literal ANY arg not added to GROUP BY"
    );
}

/// Statements that are not queries pass through untouched.
#[test]
fn test_noop_on_non_query() {
    let input = "CREATE TABLE x (a INT)";
    let output = rewrite_group_by_for_any(input);
    assert_eq!(output, input);
}

/// A qualified column such as `t.b` is added as a compound identifier, so
/// the printed GROUP BY keeps the table qualifier.
#[test]
fn test_compound_identifier_in_any() {
    let input = "SELECT a, 'x' = ANY(t.b) FROM t GROUP BY a";
    let output = rewrite_group_by_for_any(input);
    assert_eq!(output, "SELECT a, 'x' = ANY(t.b) FROM t GROUP BY a, t.b");
}

/// Only what `ANY` is applied to is grouped by, and all of it.
#[test]
fn columns_of_any_are_found_in_the_tree() {
    let grouped = rewrite_group_by_for_any;
    assert_eq!(
        grouped("SELECT 'x' = ANY(b::TEXT[]) OR 'y' = ANY((t.c)) FROM t GROUP BY a"),
        "SELECT 'x' = ANY(b::TEXT[]) OR 'y' = ANY((t.c)) FROM t GROUP BY a, b, t.c"
    );
    for sql in [
        "SELECT company(b) FROM t GROUP BY a",
        "SELECT 'ANY(b)' FROM t GROUP BY a",
        "SELECT a = ANY(current_schemas(false)) FROM t GROUP BY a",
        "SELECT a = ANY(SELECT b FROM u) FROM t GROUP BY a",
        "SELECT (SELECT 'x' = ANY(b) FROM u) FROM t GROUP BY a",
        "SELECT a = ANY('{a,d}') FROM t GROUP BY a",
    ] {
        assert_eq!(grouped(sql), sql);
    }
}
