use rustcmdpev::explain::Explain;
use rustcmdpev::plan::Plan;
use rustcmdpev::process_all;

fn node(node_type: &str, total_cost: i64, actual_total_time: i64, actual_rows: u64, loops: u64) -> Plan {
    let mut p = Plan::default();
    p.node_type = node_type.to_string();
    p.total_cost = total_cost;
    p.actual_total_time = actual_total_time;
    p.actual_rows = actual_rows;
    p.actual_loops = loops;
    p
}

fn document(plan: Plan, planning_time: i64, execution_time: i64) -> Explain {
    let mut e = Explain::default();
    e.plan = plan;
    e.planning_time = planning_time;
    e.execution_time = execution_time;
    e
}

/// The three-level tree of the one-join document: a hash join over a
/// sequential scan and a hash of a sequential scan.  Costs are hundredths,
/// times thousandths of a millisecond.
fn one_join_document() -> Explain {
    let mut root = node("Hash Join", 2510, 2166, 231, 1);
    root.startup_cost = 1112;
    root.join_type = "Inner".to_string();
    root.plan_rows = 231;
    root.plan_width = 1639;
    root.actual_startup_time = 1230;
    root.hash_condition = "(swimmers.coach_id = coaches.id)".to_string();
    root.shared_hit_blocks = 6;
    root.shared_read_blocks = 12;
    root.output = vec![
        "coaches.id".to_string(),
        "coaches.first_name".to_string(),
        "coaches.last_name".to_string(),
        "coaches.email".to_string(),
        "coaches.inserted_at".to_string(),
        "coaches.updated_at".to_string(),
        "swimmers.id".to_string(),
        "swimmers.first_name".to_string(),
        "swimmers.last_name".to_string(),
        "swimmers.email".to_string(),
        "swimmers.coach_id".to_string(),
        "swimmers.inserted_at".to_string(),
        "swimmers.updated_at".to_string(),
    ];

    let mut scan = node("Seq Scan", 1331, 1147, 231, 1);
    scan.parent_relationship = "Outer".to_string();
    scan.relation_name = "swimmers".to_string();
    scan.schema = "public".to_string();
    scan.alias = "swimmers".to_string();
    scan.plan_rows = 231;
    scan.plan_width = 67;
    scan.actual_startup_time = 278;
    scan.shared_read_blocks = 11;
    scan.output = vec![
        "swimmers.id".to_string(),
        "swimmers.first_name".to_string(),
        "swimmers.last_name".to_string(),
        "swimmers.email".to_string(),
        "swimmers.coach_id".to_string(),
        "swimmers.inserted_at".to_string(),
        "swimmers.updated_at".to_string(),
    ];

    let mut hash = node("Hash", 1050, 583, 11, 1);
    hash.parent_relationship = "Inner".to_string();
    hash.startup_cost = 1050;
    hash.plan_rows = 50;
    hash.plan_width = 1572;
    hash.actual_startup_time = 583;
    hash.shared_read_blocks = 1;
    hash.output = vec![
        "coaches.id".to_string(),
        "coaches.first_name".to_string(),
        "coaches.last_name".to_string(),
        "coaches.email".to_string(),
        "coaches.inserted_at".to_string(),
        "coaches.updated_at".to_string(),
    ];

    let mut inner_scan = node("Seq Scan", 1050, 260, 11, 1);
    inner_scan.parent_relationship = "Outer".to_string();
    inner_scan.relation_name = "coaches".to_string();
    inner_scan.schema = "public".to_string();
    inner_scan.alias = "coaches".to_string();
    inner_scan.plan_rows = 50;
    inner_scan.plan_width = 1572;
    inner_scan.actual_startup_time = 258;
    inner_scan.shared_read_blocks = 1;
    inner_scan.output = vec![
        "coaches.id".to_string(),
        "coaches.first_name".to_string(),
        "coaches.last_name".to_string(),
        "coaches.email".to_string(),
        "coaches.inserted_at".to_string(),
        "coaches.updated_at".to_string(),
    ];

    hash.plans = vec![inner_scan];
    root.plans = vec![scan, hash];
    document(root, 8116, 2776)
}

#[test]
fn test_explain_with_one_join() {
    let explain = one_join_document();
    let (explain, lines) = rustcmdpev::analyze_and_render(explain, 60);
    assert!(lines.is_ok());
    assert_eq!(explain.total_cost as f64 / 100.0, 25.1);
    assert_eq!(explain.max_cost as f64 / 100.0, 13.31);
    assert_eq!(explain.max_rows, 231);
    assert_eq!(explain.max_duration as f64 / 1000.0, 1.147);
    assert_eq!(explain.execution_time as f64 / 1000.0, 2.776);
    assert_eq!(explain.planning_time as f64 / 1000.0, 8.116);
    assert_eq!(explain.plan.alias, "");
    assert_eq!(explain.plan.node_type, "Hash Join");
    assert_eq!(explain.plan.plan_rows, 231);
    assert_eq!(explain.plan.plan_width, 1639);
    assert_eq!(explain.plan.relation_name, "");
}

#[test]
fn test_with_missing_node_type_plan_field() {
    let mut plan = Plan::default();
    plan.alias = "c0".to_string();
    let explain = document(plan, 0, 0);
    let (explain, lines) = rustcmdpev::analyze_and_render(explain, 60);
    assert!(lines.is_ok());
    assert_eq!(explain.total_cost as f64, 0.0);
}

#[test]
fn exclusive_metrics_of_one_join() {
    let explain = process_all(one_join_document());
    let root = &explain.plan;
    assert_eq!(root.actual_cost, 129);
    assert_eq!(root.actual_duration, 436);
    let scan = &root.plans[0];
    assert_eq!(scan.actual_cost, 1331);
    assert_eq!(scan.actual_duration, 1147);
    let hash = &root.plans[1];
    assert_eq!(hash.actual_cost, 0);
    assert_eq!(hash.actual_duration, 323);
    let inner_scan = &hash.plans[0];
    assert_eq!(inner_scan.actual_cost, 1050);
    assert_eq!(inner_scan.actual_duration, 260);
}

#[test]
fn outlier_flags_of_one_join() {
    let explain = process_all(one_join_document());
    let root = &explain.plan;
    let scan = &root.plans[0];
    let hash = &root.plans[1];
    assert!(!root.costliest && !root.slowest);
    assert!(scan.costliest && scan.slowest);
    // Both the root and the outer scan saw 231 rows: ties are all flagged.
    assert!(root.largest && scan.largest);
    assert!(!hash.costliest && !hash.largest && !hash.slowest);
}

#[test]
fn single_leaf_without_actual_rows() {
    let mut plan = node("Seq Scan", 1050, 0, 0, 0);
    plan.plan_rows = 50;
    let explain = process_all(document(plan, 0, 0));
    assert_eq!(explain.total_cost as f64 / 100.0, 10.5);
    assert_eq!(explain.max_cost as f64 / 100.0, 10.5);
    assert_eq!(explain.max_rows, 0);
    assert_eq!(explain.max_duration as f64, 0.0);
}

#[test]
fn exclusive_cost_clamps_to_zero() {
    let mut parent = node("Nested Loop", 100, 50, 1, 1);
    parent.plans = vec![node("Seq Scan", 500, 40, 1, 1)];
    let explain = process_all(document(parent, 0, 0));
    assert_eq!(explain.plan.actual_cost, 0);
    // The clamped cost, not a negative one, feeds the running total.
    assert_eq!(explain.total_cost, 500);
    // The duration is not clamped: the subtraction stands as computed.
    assert_eq!(explain.plan.actual_duration, 10);
}

#[test]
fn cte_scan_child_is_not_subtracted() {
    let mut with_cte = node("Nested Loop", 1000, 900, 1, 1);
    with_cte.plans = vec![node("CTE Scan", 400, 300, 1, 1)];
    let explain = process_all(document(with_cte, 0, 0));
    assert_eq!(explain.plan.actual_cost, 1000);
    assert_eq!(explain.plan.actual_duration, 900);

    let mut plain = node("Nested Loop", 1000, 900, 1, 1);
    plain.plans = vec![node("Seq Scan", 400, 300, 1, 1)];
    let explain = process_all(document(plain, 0, 0));
    assert_eq!(explain.plan.actual_cost, 600);
    assert_eq!(explain.plan.actual_duration, 600);
}

#[test]
fn total_cost_is_sum_of_exclusive_costs() {
    let mut root = node("Sort", 3000, 500, 5, 1);
    let mut mid = node("Aggregate", 2000, 400, 5, 1);
    mid.plans = vec![node("Seq Scan", 700, 100, 9, 1), node("Seq Scan", 800, 150, 4, 1)];
    root.plans = vec![mid];
    let explain = process_all(document(root, 0, 0));
    // Exclusive costs: 3000-2000, 2000-700-800, 700, 800.
    assert_eq!(explain.total_cost, 1000 + 500 + 700 + 800);
    // The maxima are the true maxima over all four nodes.
    assert_eq!(explain.max_cost, 1000);
    assert_eq!(explain.max_rows, 9);
    assert_eq!(explain.max_duration, 150);
}

#[test]
fn duration_scales_with_loop_count() {
    let mut root = node("Nested Loop", 300, 100, 8, 1);
    root.plans = vec![node("Index Scan", 100, 20, 2, 4)];
    let explain = process_all(document(root, 0, 0));
    // The child's per-loop exclusive time is scaled by its four loops.
    assert_eq!(explain.plan.plans[0].actual_duration, 80);
    // The parent subtracts the child's reported per-loop time once.
    assert_eq!(explain.plan.actual_duration, 80);
}

#[test]
fn annotator_is_not_idempotent() {
    let mut plan = node("Seq Scan", 1050, 0, 0, 0);
    plan.plan_rows = 50;
    let once = process_all(document(plan, 0, 0));
    let first_total = once.total_cost;
    let twice = process_all(once);
    assert_eq!(first_total, 1050);
    assert_eq!(twice.total_cost, 2 * first_total);
    assert_ne!(twice.total_cost, first_total);
}

#[test]
fn analyzable_document_bounds() {
    let explain = one_join_document();
    assert!(rustcmdpev::is_analyzable_document(&explain));

    let mut negative = one_join_document();
    negative.plan.total_cost = -1;
    assert!(!rustcmdpev::is_analyzable_document(&negative));

    let mut looping = one_join_document();
    looping.plan.actual_loops = 2_000_000;
    assert!(!rustcmdpev::is_analyzable_document(&looping));

    let mut heavy = one_join_document();
    heavy.plan.total_cost = 2_000_000_000_000;
    assert!(!rustcmdpev::is_analyzable_document(&heavy));
}
