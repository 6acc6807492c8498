use datafusion_pg_catalog::args::parse_args;
use datafusion_pg_catalog::correlated::{
    find_supplier, find_suppliers, Candidate, Condition, ExistsIneqSemiJoin, PlanStep, StripPgGetOne,
};
use datafusion_pg_catalog::resolvers::{
    clear_pg_get_statisticsobjdef_expressions_resolver,
    clear_pg_indexam_progress_phasename_resolver, resolve_by_oid, resolve_for_server,
    resolve_phase_names, resolve_rows, resolve_statistics_expressions,
    set_pg_get_statisticsobjdef_expressions_resolver, set_pg_indexam_progress_phasename_resolver,
    ResolverSlot, VISIBILITY_BY_OID,
};
use datafusion_pg_catalog::scans::ScanTrace;
use datafusion_pg_catalog::server::json::Json;

fn line(args: &[&str]) -> Vec<String> {
    args.iter().map(|s| s.to_string()).collect()
}

#[test]
fn command_lines_have_defaults() {
    let args = parse_args(&line(&["server", "data/pg_schema", "--capture"])).unwrap();
    assert_eq!(args.schema_path, "data/pg_schema");
    assert_eq!(args.default_catalog, "datafusion");
    assert_eq!(args.default_schema, "public");
    assert_eq!(args.address, "127.0.0.1:5433");
    assert_eq!(args.capture, None);
    assert_eq!(parse_args(&line(&["server", "data/pg_schema"])), None);
}

#[test]
fn flags_override_defaults() {
    let args = parse_args(&line(&[
        "server",
        "x",
        "--host",
        "0.0.0.0",
        "--port",
        "5444",
        "--default-catalog",
        "pgtry",
        "--default-schema",
        "s",
        "--capture",
        "c.yaml",
        "--port",
        "1",
    ]))
    .unwrap();
    assert_eq!(args.address, "0.0.0.0:5444");
    assert_eq!(args.default_catalog, "pgtry");
    assert_eq!(args.default_schema, "s");
    assert_eq!(args.capture, Some("c.yaml".to_string()));
}

#[test]
fn wrappers_are_stripped() {
    assert!(StripPgGetOne.unwraps("pg_get_one", 1));
    assert!(!StripPgGetOne.unwraps("pg_get_one", 2));
    assert!(!StripPgGetOne.unwraps("max", 1));
}

#[test]
fn filtered_subqueries_become_joins() {
    let rule = ExistsIneqSemiJoin;
    assert!(rule.joins(PlanStep::Filter, Condition::Exists(PlanStep::Filter)));
    assert!(!rule.joins(PlanStep::Filter, Condition::Exists(PlanStep::Other)));
    assert!(!rule.joins(PlanStep::Filter, Condition::Other));
    assert!(!rule.joins(PlanStep::Other, Condition::Exists(PlanStep::Filter)));
}

fn candidate(rows: usize, keys: Vec<Option<i32>>, residual: Option<bool>) -> Candidate {
    Candidate { rows, keys, residual }
}

#[test]
fn the_first_matching_part_supplies_the_value() {
    let parts = vec![
        candidate(0, vec![Some(1)], None),
        candidate(1, vec![Some(2)], None),
        candidate(1, vec![Some(1)], Some(false)),
        candidate(1, vec![Some(1)], Some(true)),
        candidate(1, vec![Some(1)], None),
    ];
    assert_eq!(find_supplier(&vec![Some(1)], &parts), Some(3));
    assert_eq!(find_supplier(&vec![Some(3)], &parts), None);
    assert_eq!(find_supplier(&vec![None], &vec![candidate(1, vec![None], None)]), None);
    let rows = vec![vec![Some(2)], vec![None], vec![Some(1)]];
    assert_eq!(find_suppliers(&rows, &parts), vec![Some(1), None, Some(3)]);
}

#[test]
fn without_a_resolver_the_default_is_answered() {
    let mut slot: ResolverSlot<fn(i64) -> Option<bool>> = ResolverSlot::new();
    let oids = vec![Some(1), None];
    assert_eq!(resolve_by_oid(&oids, &slot, Some(true)), vec![Some(true), None]);
    slot.set(|oid| Some(oid > 1));
    assert_eq!(resolve_by_oid(&oids, &slot, Some(true)), vec![Some(false), None]);
    slot.clear();
    assert_eq!(resolve_by_oid(&oids, &slot, None), vec![None, None]);
}

#[test]
fn one_answer_serves_every_row() {
    let mut slot: ResolverSlot<fn() -> Option<i64>> = ResolverSlot::new();
    assert_eq!(resolve_for_server(2, &slot, None), vec![None, None]);
    slot.set(|| Some(7));
    assert_eq!(resolve_for_server(2, &slot, None), vec![Some(7), Some(7)]);
}

#[test]
fn rows_are_listed_by_their_resolver() {
    let mut slot: ResolverSlot<fn() -> Vec<&'static str>> = ResolverSlot::new();
    assert!(resolve_rows(&slot).is_empty());
    slot.set(|| vec!["relation", "tuple"]);
    assert_eq!(resolve_rows(&slot), vec!["relation", "tuple"]);
    slot.clear();
    assert!(resolve_rows(&slot).is_empty());
}

#[test]
fn phases_are_named_by_their_resolver() {
    let mut slot: ResolverSlot<fn(i64, i64) -> Option<String>> = ResolverSlot::new();
    let methods = vec![Some(403), None, Some(403)];
    let phases = vec![Some(1), Some(1), None];
    assert_eq!(resolve_phase_names(&methods, &phases, &slot), vec![None, None, None]);
    set_pg_indexam_progress_phasename_resolver(&mut slot, |m, p| Some(format!("{m}/{p}")));
    assert_eq!(
        resolve_phase_names(&methods, &phases, &slot),
        vec![Some("403/1".to_string()), None, None]
    );
    let fewer = vec![Some(2)];
    assert_eq!(
        resolve_phase_names(&methods, &fewer, &slot),
        vec![Some("403/2".to_string())]
    );
    clear_pg_indexam_progress_phasename_resolver(&mut slot);
    assert!(slot.get().is_none());
}

#[test]
fn expressions_are_listed_by_their_resolver() {
    let mut slot: ResolverSlot<fn(i64) -> Option<Vec<String>>> = ResolverSlot::new();
    assert_eq!(resolve_statistics_expressions(&vec![Some(1)], &slot), vec![None]);
    set_pg_get_statisticsobjdef_expressions_resolver(&mut slot, |oid| {
        Some(vec![format!("lower(c{oid})")])
    });
    assert_eq!(
        resolve_statistics_expressions(&vec![Some(1), None], &slot),
        vec![Some(vec!["lower(c1)".to_string()]), None]
    );
    clear_pg_get_statisticsobjdef_expressions_resolver(&mut slot);
    assert!(slot.get().is_none());
    assert_eq!(VISIBILITY_BY_OID[0], "pg_table_is_visible");
}

fn fields() -> Vec<(String, String)> {
    vec![
        ("relname".to_string(), "Utf8".to_string()),
        ("oid".to_string(), "Int32".to_string()),
    ]
}

#[test]
fn scans_name_the_columns_they_read() {
    let all = ScanTrace::new("pg_class".to_string(), None, vec![], &fields());
    assert_eq!(all.columns(), Some(vec!["relname".to_string(), "oid".to_string()]));
    let one = ScanTrace::new(
        "pg_class".to_string(),
        Some(vec![1]),
        vec!["oid = 1".to_string()],
        &fields(),
    );
    assert_eq!(one.columns(), Some(vec!["oid".to_string()]));
    assert_eq!(one.filters, vec!["oid = 1".to_string()]);
    let text = |s: &str| Json::Text(s.to_string());
    assert_eq!(
        one.report(),
        Some(Json::Object(vec![
            ("table".to_string(), text("pg_class")),
            ("columns".to_string(), Json::List(vec![text("oid")])),
            ("filters".to_string(), Json::List(vec![text("oid = 1")])),
            (
                "types".to_string(),
                Json::Object(vec![
                    ("oid".to_string(), text("Int32")),
                    ("relname".to_string(), text("Utf8")),
                ])
            ),
        ]))
    );
    let none = ScanTrace::new("pg_class".to_string(), Some(vec![2]), vec![], &fields());
    assert_eq!(none.columns(), None);
    assert_eq!(none.report(), None);
}
