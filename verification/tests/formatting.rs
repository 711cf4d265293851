use rustcmdpev::calculate_planner_estimate;
use rustcmdpev::colors::Style;
use rustcmdpev::format::duration_to_string;
use rustcmdpev::format::format_details;
use rustcmdpev::format::format_percent;
use rustcmdpev::format::format_tags;
use rustcmdpev::format::get_terminator;
use rustcmdpev::plan::Factor;
use rustcmdpev::plan::Plan;
use rustcmdpev::text::cost_to_string;
use rustcmdpev::text::i64_to_string;
use rustcmdpev::text::u64_to_string;

fn with_rows(plan_rows: u64, actual_rows: u64) -> Plan {
    let mut p = Plan::default();
    p.plan_rows = plan_rows;
    p.actual_rows = actual_rows;
    p
}

#[test]
fn estimate_equal_rows_has_no_error() {
    let p = calculate_planner_estimate(with_rows(231, 231));
    assert_eq!(p.planner_row_estimate_direction, "");
    assert!(p.planner_row_estimate_factor.is_zero());
}

#[test]
fn estimate_underestimated_rows() {
    let p = calculate_planner_estimate(with_rows(10, 45));
    assert_eq!(p.planner_row_estimate_direction, "Under");
    assert_eq!(p.planner_row_estimate_factor, Factor { num: 45, den: 10 });
}

#[test]
fn estimate_overestimated_rows() {
    let p = calculate_planner_estimate(with_rows(50, 11));
    assert_eq!(p.planner_row_estimate_direction, "Over");
    assert_eq!(p.planner_row_estimate_factor, Factor { num: 50, den: 11 });
}

#[test]
fn estimate_zero_planned_rows_reports_over_by_zero() {
    // The documented oddity: zero planned rows with observed rows flips to
    // an over-estimate of zero, because the guarded ratio came out zero.
    let p = calculate_planner_estimate(with_rows(0, 7));
    assert_eq!(p.planner_row_estimate_direction, "Over");
    assert_eq!(p.planner_row_estimate_factor, Factor { num: 0, den: 7 });
    assert!(p.planner_row_estimate_factor.is_zero());
}

#[test]
fn estimate_zero_actual_rows_reports_over_by_zero() {
    let p = calculate_planner_estimate(with_rows(9, 0));
    assert_eq!(p.planner_row_estimate_direction, "Over");
    assert!(p.planner_row_estimate_factor.is_zero());
}

#[test]
fn cost_display_drops_trailing_zeros() {
    assert_eq!(cost_to_string(2510), "25.1");
    assert_eq!(cost_to_string(1000), "10");
    assert_eq!(cost_to_string(1234), "12.34");
    assert_eq!(cost_to_string(5), "0.05");
    assert_eq!(cost_to_string(0), "0");
}

#[test]
fn plain_number_display() {
    assert_eq!(u64_to_string(0), "0");
    assert_eq!(u64_to_string(1639), "1639");
    assert_eq!(i64_to_string(-57), "-57");
}

#[test]
fn duration_display_picks_unit_and_style() {
    let ms = duration_to_string(2166);
    assert_eq!(ms.text, "2.17 ms");
    assert_eq!(ms.style, Style::Good);

    let warm = duration_to_string(216_600);
    assert_eq!(warm.text, "216.60 ms");
    assert_eq!(warm.style, Style::Warning);

    // The seconds figure keeps the deliberate halved divisor.
    let secs = duration_to_string(2_166_000);
    assert_eq!(secs.text, "1.08 s");
    assert_eq!(secs.style, Style::Critical);

    let mins = duration_to_string(120_000_000);
    assert_eq!(mins.text, "2.00 m");
    assert_eq!(mins.style, Style::Critical);

    let negative = duration_to_string(-250);
    assert_eq!(negative.text, "-0.25 ms");
    assert_eq!(negative.style, Style::Good);
}

#[test]
fn percent_display() {
    assert_eq!(format_percent(2166, 2776), "78.0%");
    assert_eq!(format_percent(1050, 1050), "100.0%");
    assert_eq!(format_percent(0, 0), "NaN%");
    assert_eq!(format_percent(5, 0), "inf%");
    assert_eq!(format_percent(-5, 0), "-inf%");
    assert_eq!(format_percent(-500, 1000), "-50.0%");
}

#[test]
fn details_joins_direction_and_strategy() {
    let mut p = Plan::default();
    assert_eq!(format_details(&p), "");
    p.scan_direction = "Forward".to_string();
    assert_eq!(format_details(&p), "Forward");
    p.strategy = "Sorted".to_string();
    assert_eq!(format_details(&p), "Forward, Sorted");
    p.scan_direction = String::new();
    assert_eq!(format_details(&p), "Sorted");
}

#[test]
fn tags_come_in_fixed_order() {
    let mut p = Plan::default();
    assert_eq!(format_tags(&p), "");
    p.slowest = true;
    p.largest = true;
    assert_eq!(format_tags(&p), " slowest   largest ");
    p.costliest = true;
    p.planner_row_estimate_factor = Factor { num: 450, den: 3 };
    assert_eq!(format_tags(&p), " slowest   costliest   largest   bad estimate ");
    // A factor just under a hundredfold carries no bad-estimate tag.
    p.planner_row_estimate_factor = Factor { num: 299, den: 3 };
    assert_eq!(format_tags(&p), " slowest   costliest   largest ");
}

#[test]
fn terminator_depends_on_index_and_children() {
    let mut leaf = Plan::default();
    assert_eq!(get_terminator(0, &leaf), "⌡► ");
    assert_eq!(get_terminator(3, &leaf), "   ");
    leaf.plans = vec![Plan::default()];
    assert_eq!(get_terminator(0, &leaf), "├►  ");
    assert_eq!(get_terminator(2, &leaf), "│  ");
}
