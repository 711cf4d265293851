use rustcmdpev::RenderError;
use rustcmdpev::colors::Line;
use rustcmdpev::colors::color_format;
use rustcmdpev::colors::paint_line;
use rustcmdpev::descriptions::description_of;
use rustcmdpev::explain::Explain;
use rustcmdpev::plan::Plan;
use rustcmdpev::wrap::fill_text;

fn paint_all(lines: &Vec<Line>) -> Vec<String> {
    let mut out: Vec<String> = Vec::new();
    for l in lines {
        out.push(paint_line(l));
    }
    out
}

#[test]
fn description_table_lookup() {
    assert_eq!(
        description_of("Hash Join"),
        "Joins to record sets by hashing one of them (using a Hash Scan)."
    );
    assert_eq!(
        description_of("Limit"),
        "Returns a specified number of rows from a record set."
    );
    assert_eq!(description_of(""), "");
    assert_eq!(description_of("Mystery Node"), "");
}

#[test]
fn wrapping_splits_long_text() {
    assert_eq!(fill_text("a b c d", 3), "a b\nc d");
    assert_eq!(fill_text("", 40), "");
}

#[test]
fn styling_wraps_and_keeps_the_text() {
    colored::control::set_override(true);
    let styled = color_format("marker".to_string(), "bold");
    assert!(styled.contains("marker"));
    assert!(styled.len() > "marker".len());
    colored::control::set_override(false);
    let plain = color_format("marker".to_string(), "bold");
    assert_eq!(plain, "marker");
}

#[test]
fn minimal_document_renders_without_a_node_type() {
    colored::control::set_override(false);
    let mut plan = Plan::default();
    plan.alias = "c0".to_string();
    let mut explain = Explain::default();
    explain.plan = plan;
    let (explain, lines) = rustcmdpev::analyze_and_render(explain, 60);
    assert_eq!(explain.total_cost, 0);
    let painted = paint_all(&lines.expect("a minimal document renders"));
    assert_eq!(
        painted,
        vec![
            "○ Total Cost 0".to_string(),
            "○ Planning Time: 0.00 ms".to_string(),
            "○ Execution Time: 0.00 ms".to_string(),
            "┬".to_string(),
            "│".to_string(),
            "├─⌠   slowest   costliest   largest ".to_string(),
            "│ │ ".to_string(),
            "│ │ ○ Duration: 0.00 ms NaN%".to_string(),
            "│ │ ○ Cost: 0 NaN%".to_string(),
            "│ │ ○ Rows: 0".to_string(),
        ]
    );
}

#[test]
fn one_node_document_renders_every_block() {
    colored::control::set_override(false);
    let mut plan = Plan::default();
    plan.node_type = "Limit".to_string();
    plan.total_cost = 1050;
    plan.actual_total_time = 2166;
    plan.actual_rows = 9;
    plan.actual_loops = 1;
    plan.plan_rows = 900;
    plan.filter = "(id > 4)".to_string();
    plan.rows_removed_by_filter = 3;
    plan.output = vec!["id".to_string(), "name".to_string()];
    let mut explain = Explain::default();
    explain.plan = plan;
    explain.execution_time = 2776;
    let (_, lines) = rustcmdpev::analyze_and_render(explain, 60);
    let painted = paint_all(&lines.expect("one node renders"));
    assert_eq!(
        painted,
        vec![
            "○ Total Cost 10.5".to_string(),
            "○ Planning Time: 0.00 ms".to_string(),
            "○ Execution Time: 2.78 ms".to_string(),
            "┬".to_string(),
            "│".to_string(),
            "├─⌠ Limit  slowest   costliest   largest   bad estimate ".to_string(),
            "│ │ Returns a specified number of rows from a record set.".to_string(),
            "│ │ ○ Duration: 2.17 ms 78.0%".to_string(),
            "│ │ ○ Cost: 10.5 100.0%".to_string(),
            "│ │ ○ Rows: 9".to_string(),
            "│ │   filter (id > 4) [-3 rows]".to_string(),
            "│ │   rows Overestimated by 100.00x".to_string(),
            "│ ⌡► id + name".to_string(),
        ]
    );
}

#[test]
fn too_deep_for_the_width_is_an_error() {
    let mut plan = Plan::default();
    plan.total_cost = 100;
    let mut explain = Explain::default();
    explain.plan = plan;
    let (_, lines) = rustcmdpev::analyze_and_render(explain, 3);
    assert_eq!(lines.unwrap_err(), RenderError::DepthExhausted);
}

#[test]
fn nested_children_grow_the_prefix() {
    colored::control::set_override(false);
    let mut root = Plan::default();
    root.node_type = "X".to_string();
    root.total_cost = 300;
    let mut left = Plan::default();
    left.node_type = "Y".to_string();
    left.total_cost = 100;
    let mut grandchild = Plan::default();
    grandchild.node_type = "W".to_string();
    grandchild.total_cost = 40;
    left.plans = vec![grandchild];
    let mut right = Plan::default();
    right.node_type = "Z".to_string();
    right.total_cost = 80;
    root.plans = vec![left, right];
    let mut explain = Explain::default();
    explain.plan = root;
    let (_, lines) = rustcmdpev::analyze_and_render(explain, 60);
    let painted = paint_all(&lines.expect("nested render"));
    // Two children: the root takes the closing joint and a blank indent.
    assert!(painted.iter().any(|l| l.starts_with("└─⌠ X")));
    // A non-last single-child node keeps the continuing joint and bar.
    assert!(painted.iter().any(|l| l.starts_with("  ├─⌠ Y")));
    assert!(painted.iter().any(|l| l.starts_with("  │ └─⌠ W")));
    assert!(painted.iter().any(|l| l.starts_with("  └─⌠ Z")));
}
