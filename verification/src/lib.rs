use vstd::prelude::*;

pub mod colors;
pub mod descriptions;
pub mod explain;
pub mod format;
pub mod laws;
pub mod plan;
pub mod text;
pub mod wrap;

pub use crate::colors::color_format;

use crate::colors::Line;
use crate::colors::Span;
use crate::colors::Style;
use crate::colors::line_view;
use crate::colors::lines_view;
use crate::colors::span;
use crate::descriptions::description_of;
use crate::descriptions::spec_description;
use crate::explain::Explain;
use crate::explain::doc_after_node;
use crate::explain::doc_stats;
use crate::format::duration_to_string;
use crate::format::factor_to_string;
use crate::format::format_details;
pub use crate::format::format_percent;
use crate::format::format_tags;
use crate::format::get_terminator;
use crate::format::spec_details;
use crate::format::spec_duration_style;
use crate::format::spec_duration_text;
use crate::format::spec_factor_str;
use crate::format::spec_percent;
use crate::format::spec_tags;
use crate::format::spec_terminator;
use crate::text::cost_to_string;
use crate::text::join_strings;
use crate::text::spec_cost_str;
use crate::text::spec_digits;
use crate::text::spec_join;
use crate::text::spec_split_nl;
use crate::text::split_lines;
use crate::text::u64_to_string;
use crate::text::views_of_strings;
use crate::wrap::fill_text;
use crate::wrap::wrap_of;
use crate::plan::Factor;
use crate::plan::Plan;
use crate::plan::excl_cost;
use crate::plan::excl_duration;
use crate::plan::excl_duration_base;
use crate::plan::non_cte_cost;
use crate::plan::non_cte_time;
use crate::plan::node_inputs_ok;
use crate::plan::same_but_actuals;
use crate::plan::same_but_estimate;

verus! {

/// Direction of the planner's row-estimate error for a node with `plan_rows`
/// planned and `actual_rows` observed rows: empty when they agree, `Under`
/// when the planner undershot, `Over` otherwise (also when `plan_rows` is
/// zero, where the guarded ratio comes out zero and flips the direction).
pub open spec fn spec_direction(plan_rows: u64, actual_rows: u64) -> Seq<char> {
    if plan_rows == actual_rows {
        Seq::<char>::empty()
    } else if plan_rows != 0 && actual_rows > plan_rows {
        "Under"@
    } else {
        "Over"@
    }
}

/// The row-estimate error factor as an exact ratio: actual over planned when
/// the planner undershot, planned over actual when it overshot, zero when the
/// counts agree or the needed denominator is zero.
pub open spec fn spec_factor(plan_rows: u64, actual_rows: u64) -> Factor {
    if plan_rows == actual_rows {
        Factor { num: 0, den: 1 }
    } else if plan_rows != 0 && actual_rows > plan_rows {
        Factor { num: actual_rows, den: plan_rows }
    } else if actual_rows != 0 {
        Factor { num: plan_rows, den: actual_rows }
    } else {
        Factor { num: 0, den: 1 }
    }
}

/// Estimate Classifier: computes, from the node's own planned and actual row
/// counts alone, the planner's row-estimate error factor and direction.
pub fn calculate_planner_estimate(plan: Plan) -> (new_plan: Plan)
    ensures
        same_but_estimate(plan, new_plan),
        new_plan.planner_row_estimate_direction@ == spec_direction(
            plan.plan_rows,
            plan.actual_rows,
        ),
        new_plan.planner_row_estimate_factor == spec_factor(plan.plan_rows, plan.actual_rows),
{
    let mut new_plan: Plan = plan;
    new_plan.planner_row_estimate_factor = Factor::zero();

    if new_plan.plan_rows == new_plan.actual_rows {
        new_plan.planner_row_estimate_direction = String::new();
        return new_plan;
    }
    new_plan.planner_row_estimate_direction = String::from_str("Under");
    if new_plan.plan_rows != 0 {
        new_plan.planner_row_estimate_factor = Factor {
            num: new_plan.actual_rows,
            den: new_plan.plan_rows,
        };
    }
    // An exact ratio num/den (with den > 0) is below one exactly when num < den.
    if new_plan.planner_row_estimate_factor.num < new_plan.planner_row_estimate_factor.den {
        new_plan.planner_row_estimate_factor = Factor::zero();
        new_plan.planner_row_estimate_direction = String::from_str("Over");
        if new_plan.actual_rows != 0 {
            new_plan.planner_row_estimate_factor = Factor {
                num: new_plan.plan_rows,
                den: new_plan.actual_rows,
            };
        }
    }
    new_plan
}

/// Exclusive-Metrics Annotator, per-node step: turns the node's cumulative
/// cost and time into self-only figures by subtracting every non-CTE child's
/// cumulative figures, clamps the cost at zero, adds it to the document's
/// running total, and scales the duration by the loop count.
pub fn calculate_actuals(explain: Explain, plan: Plan) -> (r: (Explain, Plan))
    requires
        crate::plan::analyzable(plan),
        0 <= explain.total_cost,
        explain.total_cost + crate::plan::subtree_cost(plan) <= i64::MAX,
    ensures
        same_but_actuals(plan, r.1),
        r.1.actual_cost == excl_cost(plan),
        r.1.actual_duration == excl_duration(plan),
        r.0 == (Explain { total_cost: r.0.total_cost, ..explain }),
        r.0.total_cost == explain.total_cost + excl_cost(plan),
{
    let ghost s = plan.plans@;
    proof {
        crate::plan::lemma_seq_inputs_ok_all(s);
        crate::plan::lemma_non_cte_le_subtree(s);
        crate::plan::lemma_seq_subtree_nonneg(s);
        crate::plan::lemma_non_cte_nonneg(s);
        assert(s.take(0) =~= Seq::<Plan>::empty());
    }
    let mut new_plan: Plan = plan;
    let mut new_explain: Explain = explain;
    new_plan.actual_duration = new_plan.actual_total_time;
    new_plan.actual_cost = new_plan.total_cost;
    let n = new_plan.plans.len();
    let mut i: usize = 0;
    while i < n
        invariant
            i <= n,
            n == s.len(),
            same_but_actuals(plan, new_plan),
            new_plan.plans@ == s,
            crate::plan::analyzable(plan),
            new_plan.actual_cost == plan.total_cost - non_cte_cost(s.take(i as int)),
            new_plan.actual_duration == plan.actual_total_time - non_cte_time(s.take(i as int)),
            0 <= non_cte_cost(s.take(i as int)) <= non_cte_cost(s),
            0 <= non_cte_time(s.take(i as int)) <= non_cte_time(s),
            non_cte_cost(s) <= crate::plan::seq_subtree_cost(s),
            non_cte_time(s) <= crate::plan::seq_subtree_time(s),
            forall|j: int| 0 <= j < s.len() ==> node_inputs_ok(#[trigger] s[j]),
            new_explain == explain,
        decreases n - i,
    {
        proof {
            crate::plan::lemma_non_cte_split(s, i as int);
            crate::plan::lemma_non_cte_split(s, i + 1);
            assert(s.skip(i as int).drop_first() =~= s.skip(i + 1));
            assert(s.skip(i as int)[0] == s[i as int]);
            assert forall|j: int| 0 <= j < s.skip(i + 1).len() implies node_inputs_ok(
                #[trigger] s.skip(i + 1)[j],
            ) by {
                assert(s.skip(i + 1)[j] == s[j + i + 1]);
            }
            crate::plan::lemma_non_cte_nonneg(s.skip(i + 1));
        }
        let child: &Plan = &new_plan.plans[i];
        if !crate::plan::is_cte_scan(child) {
            new_plan.actual_duration = new_plan.actual_duration - child.actual_total_time;
            new_plan.actual_cost = new_plan.actual_cost - child.total_cost;
        }
        i = i + 1;
    }
    proof {
        assert(s.take(n as int) =~= s);
    }
    if new_plan.actual_cost < 0 {
        new_plan.actual_cost = 0;
    }
    new_explain.total_cost = new_explain.total_cost + new_plan.actual_cost;
    proof {
        assert(-crate::plan::MAX_TIME_SUM <= new_plan.actual_duration
            <= crate::plan::MAX_TIME_SUM);
        assert(
            new_plan.actual_duration * new_plan.actual_loops
                <= crate::plan::MAX_TIME_SUM * crate::plan::MAX_LOOPS
        ) by (nonlinear_arith)
            requires
                -crate::plan::MAX_TIME_SUM <= new_plan.actual_duration
                    <= crate::plan::MAX_TIME_SUM,
                0 <= new_plan.actual_loops <= crate::plan::MAX_LOOPS,
        ;
        assert(
            -(crate::plan::MAX_TIME_SUM * crate::plan::MAX_LOOPS) <= new_plan.actual_duration
                * new_plan.actual_loops
        ) by (nonlinear_arith)
            requires
                -crate::plan::MAX_TIME_SUM <= new_plan.actual_duration
                    <= crate::plan::MAX_TIME_SUM,
                0 <= new_plan.actual_loops <= crate::plan::MAX_LOOPS,
        ;
    }
    new_plan.actual_duration = new_plan.actual_duration * (new_plan.actual_loops as i64);
    (new_explain, new_plan)
}

/// Tree-wide maximum tracking: raises the document's three maxima to the
/// node's exclusive row count, cost and duration where those exceed them.
pub fn calculate_maximums(explain: Explain, plan: &Plan) -> (r: Explain)
    ensures
        r == (Explain {
            max_rows: r.max_rows,
            max_cost: r.max_cost,
            max_duration: r.max_duration,
            ..explain
        }),
        r.max_rows == vstd::math::max(explain.max_rows as int, plan.actual_rows as int),
        r.max_cost == vstd::math::max(explain.max_cost as int, plan.actual_cost as int),
        r.max_duration == vstd::math::max(
            explain.max_duration as int,
            plan.actual_duration as int,
        ),
{
    let mut new_explain: Explain = explain;
    if new_explain.max_rows < plan.actual_rows {
        new_explain.max_rows = plan.actual_rows;
    }
    if new_explain.max_cost < plan.actual_cost {
        new_explain.max_cost = plan.actual_cost;
    }
    if new_explain.max_duration < plan.actual_duration {
        new_explain.max_duration = plan.actual_duration;
    }
    new_explain
}

/// `new` is `orig` after the combined estimate-classifier and annotator
/// visit of the node itself, children untouched.
pub open spec fn pass1_node(orig: Plan, new: Plan) -> bool {
    &&& pass1_fields(orig, new)
    &&& new.plans == orig.plans
}

/// The field part of the single-node annotation: estimate direction and
/// factor from the node's own row counts, exclusive cost and duration from
/// the node's cumulative figures minus its non-CTE children's.
pub open spec fn pass1_fields(orig: Plan, new: Plan) -> bool {
    &&& new == (Plan {
        actual_cost: new.actual_cost,
        actual_duration: new.actual_duration,
        planner_row_estimate_direction: new.planner_row_estimate_direction,
        planner_row_estimate_factor: new.planner_row_estimate_factor,
        plans: new.plans,
        ..orig
    })
    &&& new.actual_cost == excl_cost(orig)
    &&& new.actual_duration == excl_duration(orig)
    &&& new.planner_row_estimate_direction@ == spec_direction(orig.plan_rows, orig.actual_rows)
    &&& new.planner_row_estimate_factor == spec_factor(orig.plan_rows, orig.actual_rows)
}

/// `new` is `orig` after the first analysis pass over the whole subtree.
pub open spec fn pass1_tree(orig: Plan, new: Plan) -> bool
    decreases orig,
{
    &&& pass1_fields(orig, new)
    &&& new.plans@.len() == orig.plans@.len()
    &&& forall|i: int|
        0 <= i < orig.plans@.len() ==> pass1_tree(orig.plans@[i], #[trigger] new.plans@[i])
}

/// `new` is `orig` with the three outlier flags set against the document's
/// final maxima, at every node of the subtree.  The metrics are exact
/// integers, finer than the small tolerance the comparison allows, so the
/// tolerance collapses to exact equality.
pub open spec fn outliers_marked(e: Explain, orig: Plan, new: Plan) -> bool
    decreases orig,
{
    &&& crate::plan::same_but_flags_children(orig, new)
    &&& new.costliest == (orig.actual_cost == e.max_cost)
    &&& new.largest == (orig.actual_rows == e.max_rows)
    &&& new.slowest == (orig.actual_duration == e.max_duration)
    &&& new.plans@.len() == orig.plans@.len()
    &&& forall|i: int|
        0 <= i < orig.plans@.len() ==> outliers_marked(e, orig.plans@[i], #[trigger] new.plans@[i])
}

/// `new` is `orig` after both analysis passes: annotated, and flagged
/// against the final document `d`.
pub open spec fn processed_tree(orig: Plan, new: Plan, d: Explain) -> bool
    decreases orig,
{
    &&& new == (Plan {
        actual_cost: new.actual_cost,
        actual_duration: new.actual_duration,
        planner_row_estimate_direction: new.planner_row_estimate_direction,
        planner_row_estimate_factor: new.planner_row_estimate_factor,
        costliest: new.costliest,
        largest: new.largest,
        slowest: new.slowest,
        plans: new.plans,
        ..orig
    })
    &&& new.actual_cost == excl_cost(orig)
    &&& new.actual_duration == excl_duration(orig)
    &&& new.planner_row_estimate_direction@ == spec_direction(orig.plan_rows, orig.actual_rows)
    &&& new.planner_row_estimate_factor == spec_factor(orig.plan_rows, orig.actual_rows)
    &&& new.costliest == (excl_cost(orig) == d.max_cost)
    &&& new.largest == (orig.actual_rows == d.max_rows)
    &&& new.slowest == (excl_duration(orig) == d.max_duration)
    &&& new.plans@.len() == orig.plans@.len()
    &&& forall|i: int|
        0 <= i < orig.plans@.len() ==> processed_tree(orig.plans@[i], #[trigger] new.plans@[i], d)
}

/// The outlier marking only reads the document's three maxima.
proof fn lemma_outliers_marked_same_maxima(e1: Explain, e2: Explain, orig: Plan, new: Plan)
    requires
        outliers_marked(e1, orig, new),
        e2.max_rows == e1.max_rows,
        e2.max_cost == e1.max_cost,
        e2.max_duration == e1.max_duration,
    ensures
        outliers_marked(e2, orig, new),
    decreases orig,
{
    assert forall|i: int| 0 <= i < orig.plans@.len() implies outliers_marked(
        e2,
        orig.plans@[i],
        #[trigger] new.plans@[i],
    ) by {
        lemma_outliers_marked_same_maxima(e1, e2, orig.plans@[i], new.plans@[i]);
    }
}

/// The two passes in sequence give a fully processed tree.
proof fn lemma_pass1_then_outliers(orig: Plan, mid: Plan, new: Plan, d: Explain)
    requires
        pass1_tree(orig, mid),
        outliers_marked(d, mid, new),
    ensures
        processed_tree(orig, new, d),
    decreases orig,
{
    assert forall|i: int| 0 <= i < orig.plans@.len() implies processed_tree(
        orig.plans@[i],
        #[trigger] new.plans@[i],
        d,
    ) by {
        lemma_pass1_then_outliers(orig.plans@[i], mid.plans@[i], new.plans@[i], d);
    }
}

/// Outlier Classifier: marks, at every node of the subtree, whether the
/// node's exclusive metrics reach the document-wide maxima.  Run only after
/// the annotator has seen the whole tree, so that the maxima are final.
pub fn calculate_outlier_nodes(explain: &Explain, plan: Plan) -> (new_plan: Plan)
    ensures
        outliers_marked(*explain, plan, new_plan),
    decreases plan,
{
    let mut new_plan: Plan = plan;
    new_plan.costliest = new_plan.actual_cost == explain.max_cost;
    new_plan.largest = new_plan.actual_rows == explain.max_rows;
    new_plan.slowest = new_plan.actual_duration == explain.max_duration;
    let mut remaining: Vec<Plan> = Vec::new();
    core::mem::swap(&mut remaining, &mut new_plan.plans);
    let mut done: Vec<Plan> = Vec::new();
    let n = remaining.len();
    let mut i: usize = 0;
    while i < n
        invariant
            i <= n,
            n == plan.plans@.len(),
            remaining@ =~= plan.plans@.skip(i as int),
            done@.len() == i,
            forall|j: int|
                0 <= j < i ==> outliers_marked(*explain, plan.plans@[j], #[trigger] done@[j]),
        decreases n - i,
    {
        let child: Plan = remaining.remove(0);
        proof {
            assert(child == plan.plans@[i as int]);
            assert(remaining@ =~= plan.plans@.skip(i + 1));
        }
        let marked: Plan = calculate_outlier_nodes(explain, child);
        done.push(marked);
        i = i + 1;
    }
    new_plan.plans = done;
    new_plan
}

/// First-pass visit of the root node alone: estimate classification,
/// exclusive metrics, total-cost accumulation and maxima.
fn process_explain(explain: Explain) -> (r: Explain)
    requires
        crate::plan::analyzable(explain.plan),
        0 <= explain.total_cost,
        explain.total_cost + crate::plan::subtree_cost(explain.plan) <= i64::MAX,
    ensures
        r == (Explain {
            plan: r.plan,
            total_cost: r.total_cost,
            max_rows: r.max_rows,
            max_cost: r.max_cost,
            max_duration: r.max_duration,
            ..explain
        }),
        pass1_node(explain.plan, r.plan),
        doc_stats(r) == doc_after_node(doc_stats(explain), explain.plan),
        explain.total_cost <= r.total_cost,
        r.total_cost <= explain.total_cost + crate::plan::subtree_cost(explain.plan),
{
    proof {
        crate::plan::lemma_seq_inputs_ok_all(explain.plan.plans@);
        crate::plan::lemma_non_cte_nonneg(explain.plan.plans@);
        crate::plan::lemma_seq_subtree_nonneg(explain.plan.plans@);
    }
    let mut new_explain: Explain = explain;
    let mut root: Plan = Plan::default();
    core::mem::swap(&mut root, &mut new_explain.plan);
    let root: Plan = calculate_planner_estimate(root);
    let (e1, root): (Explain, Plan) = calculate_actuals(new_explain, root);
    let mut new_explain: Explain = calculate_maximums(e1, &root);
    new_explain.plan = root;
    new_explain
}

/// First-pass walk of a list of sibling subtrees, in order: each node is
/// visited before its children, siblings left to right, threading the
/// document accumulators through the whole walk.
fn process_child_plans(explain: Explain, plans: Vec<Plan>) -> (r: (Explain, Vec<Plan>))
    requires
        crate::plan::seq_inputs_ok(plans@),
        crate::plan::seq_subtree_cost(plans@) <= crate::plan::MAX_COST_SUM,
        crate::plan::seq_subtree_time(plans@) <= crate::plan::MAX_TIME_SUM,
        0 <= explain.total_cost,
        explain.total_cost + crate::plan::seq_subtree_cost(plans@) <= i64::MAX,
    ensures
        r.0 == (Explain {
            total_cost: r.0.total_cost,
            max_rows: r.0.max_rows,
            max_cost: r.0.max_cost,
            max_duration: r.0.max_duration,
            ..explain
        }),
        doc_stats(r.0) == crate::explain::doc_after_seq(doc_stats(explain), plans@),
        r.1@.len() == plans@.len(),
        forall|i: int|
            0 <= i < plans@.len() ==> pass1_tree(plans@[i], #[trigger] r.1@[i]),
        explain.total_cost <= r.0.total_cost,
        r.0.total_cost <= explain.total_cost + crate::plan::seq_subtree_cost(plans@),
    decreases plans@,
{
    let mut plans: Vec<Plan> = plans;
    if plans.len() == 0 {
        return (explain, plans);
    }
    let ghost s = plans@;
    proof {
        crate::plan::lemma_seq_subtree_nonneg(s);
        crate::plan::lemma_seq_subtree_nonneg(s.drop_first());
        crate::plan::lemma_seq_subtree_nonneg(s[0].plans@);
        crate::plan::lemma_seq_inputs_ok_all(s[0].plans@);
        crate::plan::lemma_non_cte_nonneg(s[0].plans@);
    }
    let child0: Plan = plans.remove(0);
    proof {
        assert(child0 == s[0]);
        assert(plans@ =~= s.drop_first());
    }
    let child1: Plan = calculate_planner_estimate(child0);
    proof {
        assert(excl_cost(child1) == excl_cost(s[0]));
        assert(excl_duration(child1) == excl_duration(s[0]));
    }
    let (e1, child2): (Explain, Plan) = calculate_actuals(explain, child1);
    let e2: Explain = calculate_maximums(e1, &child2);
    proof {
        assert(doc_stats(e2) == doc_after_node(doc_stats(explain), s[0]));
    }
    let mut child: Plan = child2;
    let mut e3: Explain = e2;
    if !child.plans.is_empty() {
        let mut grandchildren: Vec<Plan> = Vec::new();
        core::mem::swap(&mut grandchildren, &mut child.plans);
        proof {
            assert(grandchildren@ == s[0].plans@);
        }
        let (e, ps): (Explain, Vec<Plan>) = process_child_plans(e3, grandchildren);
        child.plans = ps;
        e3 = e;
    }
    proof {
        assert(doc_stats(e3) == crate::explain::doc_after_seq(
            doc_after_node(doc_stats(explain), s[0]),
            s[0].plans@,
        ));
    }
    let (e4, mut rest): (Explain, Vec<Plan>) = process_child_plans(e3, plans);
    let ghost rest_view = rest@;
    let mut out: Vec<Plan> = Vec::new();
    out.push(child);
    out.append(&mut rest);
    proof {
        assert(pass1_tree(s[0], out@[0]));
        assert forall|i: int| 0 <= i < s.len() implies pass1_tree(s[i], #[trigger] out@[i]) by {
            if i > 0 {
                assert(out@[i] == rest_view[i - 1]);
                assert(s[i] == s.drop_first()[i - 1]);
            }
        }
        assert(doc_stats(e4) == crate::explain::doc_after_seq(doc_stats(explain), s));
    }
    (e4, out)
}

/// The whole two-phase analysis: one pre-order annotator pass that fills the
/// exclusive metrics, the estimate classification and the document
/// accumulators, then one pass that flags the outliers against the final
/// maxima.
pub fn process_all(explain: Explain) -> (r: Explain)
    requires
        crate::plan::analyzable(explain.plan),
        0 <= explain.total_cost,
        explain.total_cost + crate::plan::subtree_cost(explain.plan) <= i64::MAX,
    ensures
        r == (Explain {
            plan: r.plan,
            total_cost: r.total_cost,
            max_rows: r.max_rows,
            max_cost: r.max_cost,
            max_duration: r.max_duration,
            ..explain
        }),
        doc_stats(r) == crate::explain::doc_after_tree(doc_stats(explain), explain.plan),
        processed_tree(explain.plan, r.plan, r),
{
    let ghost orig = explain.plan;
    proof {
        crate::plan::lemma_seq_subtree_nonneg(orig.plans@);
        crate::plan::lemma_seq_inputs_ok_all(orig.plans@);
        crate::plan::lemma_non_cte_nonneg(orig.plans@);
        assert(excl_cost(orig) <= orig.total_cost);
    }
    let mut new_explain: Explain = process_explain(explain);
    if !new_explain.plan.plans.is_empty() {
        let mut children: Vec<Plan> = Vec::new();
        core::mem::swap(&mut children, &mut new_explain.plan.plans);
        proof {
            assert(children@ == orig.plans@);
        }
        let (e, ps): (Explain, Vec<Plan>) = process_child_plans(new_explain, children);
        let mut e: Explain = e;
        e.plan.plans = ps;
        new_explain = e;
    }
    proof {
        assert(pass1_tree(orig, new_explain.plan));
        assert(doc_stats(new_explain) == crate::explain::doc_after_tree(
            doc_stats(explain),
            orig,
        ));
    }
    let mut final_explain: Explain = new_explain;
    let mut annotated: Plan = Plan::default();
    core::mem::swap(&mut annotated, &mut final_explain.plan);
    let ghost mid = annotated;
    let ghost gutted = final_explain;
    let outlier_plan: Plan = calculate_outlier_nodes(&final_explain, annotated);
    final_explain.plan = outlier_plan;
    proof {
        lemma_outliers_marked_same_maxima(gutted, final_explain, mid, final_explain.plan);
        lemma_pass1_then_outliers(orig, mid, final_explain.plan, final_explain);
    }
    final_explain
}

/// The renderer's failure: the box-drawing prefix has outgrown the display
/// width, which happens exactly when the tree nests too deep for it.
#[derive(Debug, Clone, Copy, PartialEq, Eq, Structural)]
pub enum RenderError {
    DepthExhausted,
}

/// One rendered line, abstractly: its text pieces with their styles.
pub type LineModel = Seq<(Seq<char>, Style)>;

/// The machine bounds the renderer asks of every node: a positive factor
/// denominator (any classified node has one) and exclusive metrics inside
/// the range the fixed-point formatters take.
pub open spec fn renderable_node(p: Plan) -> bool {
    &&& p.planner_row_estimate_factor.den > 0
    &&& 0 <= p.actual_cost <= 9000000000000000000
    &&& -9000000000000000000 <= p.actual_duration <= 9000000000000000000
}

pub open spec fn renderable(p: Plan) -> bool
    decreases p,
{
    &&& renderable_node(p)
    &&& forall|i: int| 0 <= i < p.plans@.len() ==> renderable(#[trigger] p.plans@[i])
}

/// Whether every node of a sibling list, indented from `prefix_len`
/// columns, still leaves room inside the display width.
pub open spec fn seq_fits(s: Seq<Plan>, prefix_len: int, width: int) -> bool
    decreases s,
{
    if s.len() == 0 {
        true
    } else {
        &&& prefix_len + 4 <= width
        &&& seq_fits(s[0].plans@, prefix_len + 2, width)
        &&& seq_fits(s.drop_first(), prefix_len, width)
    }
}

pub open spec fn fits_width(p: Plan, prefix_len: int, width: int) -> bool {
    prefix_len + 4 <= width && seq_fits(p.plans@, prefix_len + 2, width)
}

/// What a node's children add to the indentation prefix: blank past a
/// closing joint, a vertical bar past a continuing one.
pub open spec fn child_prefix_ext(p: Plan, last: bool) -> Seq<char> {
    if p.plans@.len() > 1 || last {
        "  "@
    } else {
        "│ "@
    }
}

/// The output-expression block: the expressions joined, wrapped, split,
/// each line behind a terminator glyph that depends on the line index and
/// on whether the node has children.
pub open spec fn output_lines(p: Plan, source_prefix: Seq<char>, cols: int) -> Seq<LineModel> {
    let pieces = spec_split_nl(wrap_of(spec_join(views_of_strings(p.output@), " + "@), cols));
    Seq::new(
        pieces.len(),
        |i: int|
            seq![
                (source_prefix, Style::Prefix),
                (spec_terminator(i, p.plans@.len() > 0) + pieces[i], Style::Output),
            ],
    )
}

/// The connector line and the header line of one node.
pub open spec fn header_lines(p: Plan, prefix: Seq<char>, last: bool) -> Seq<LineModel> {
    let joint = if p.plans@.len() > 1 || last {
        "└"@
    } else {
        "├"@
    };
    seq![
        seq![(prefix, Style::Prefix), ("│"@, Style::Prefix)],
        seq![
            (prefix, Style::Prefix),
            (joint + "─⌠"@, Style::Prefix),
            (" "@, Style::Plain),
            (p.node_type@, Style::Bold),
            (spec_details(p), Style::Muted),
            (" "@, Style::Plain),
            (spec_tags(p), Style::Tag),
        ],
    ]
}

/// The node-type description, wrapped to the column budget, one line each.
pub open spec fn desc_lines(p: Plan, current_prefix: Seq<char>, cols: int) -> Seq<LineModel> {
    spec_split_nl(wrap_of(spec_description(p.node_type@), cols)).map_values(
        |t: Seq<char>| seq![(current_prefix, Style::Prefix), (t, Style::Muted)],
    )
}

/// The duration, cost and rows lines, with their shares of the document
/// totals.
pub open spec fn metric_lines(e: Explain, p: Plan, current_prefix: Seq<char>) -> Seq<LineModel> {
    seq![
        seq![
            (current_prefix, Style::Prefix),
            ("○ Duration: "@, Style::Plain),
            (
                spec_duration_text(p.actual_duration as int),
                spec_duration_style(p.actual_duration as int),
            ),
            (" "@, Style::Plain),
            (spec_percent(p.actual_duration as int, e.execution_time as int), Style::Plain),
        ],
        seq![
            (current_prefix, Style::Prefix),
            ("○ Cost: "@, Style::Plain),
            (spec_cost_str(p.actual_cost as int), Style::Plain),
            (" "@, Style::Plain),
            (spec_percent(p.actual_cost as int, e.total_cost as int), Style::Plain),
        ],
        seq![
            (current_prefix, Style::Prefix),
            ("○ Rows: "@, Style::Plain),
            (spec_digits(p.actual_rows as int), Style::Plain),
        ],
    ]
}

/// The conditional detail lines, in fixed order: join type, relation, index name and condition, filter, hash
/// condition, CTE name, and the row-estimate line when the factor is not
/// zero.
pub open spec fn detail_lines(p: Plan, detail_prefix: Seq<char>) -> Seq<LineModel> {
    detail_lines_a(p, detail_prefix) + detail_lines_b(p, detail_prefix)
}

pub open spec fn detail_lines_a(p: Plan, detail_prefix: Seq<char>) -> Seq<LineModel> {
    (if p.join_type@.len() > 0 {
        seq![
            seq![
                (detail_prefix, Style::Prefix),
                ("join"@, Style::Muted),
                (" "@, Style::Plain),
                (p.join_type@, Style::Muted),
            ],
        ]
    } else {
        Seq::<LineModel>::empty()
    }) + (if p.relation_name@.len() > 0 {
        seq![
            seq![
                (detail_prefix, Style::Prefix),
                ("on"@, Style::Muted),
                (" "@, Style::Plain),
                (p.schema@, Style::Muted),
                (" "@, Style::Plain),
                (p.relation_name@, Style::Muted),
            ],
        ]
    } else {
        Seq::<LineModel>::empty()
    }) + (if p.index_name@.len() > 0 {
        seq![
            seq![
                (detail_prefix, Style::Prefix),
                ("using"@, Style::Muted),
                (" "@, Style::Plain),
                (p.index_name@, Style::Plain),
            ],
        ]
    } else {
        Seq::<LineModel>::empty()
    }) + (if p.index_condition@.len() > 0 {
        seq![
            seq![
                (detail_prefix, Style::Prefix),
                ("condition"@, Style::Muted),
                (" "@, Style::Plain),
                (p.index_condition@, Style::Plain),
            ],
        ]
    } else {
        Seq::<LineModel>::empty()
    })
}

pub open spec fn detail_lines_b(p: Plan, detail_prefix: Seq<char>) -> Seq<LineModel> {
    (if p.filter@.len() > 0 {
        seq![
            seq![
                (detail_prefix, Style::Prefix),
                ("filter"@, Style::Muted),
                (" "@, Style::Plain),
                (p.filter@, Style::Plain),
                (" [-"@, Style::Plain),
                (spec_digits(p.rows_removed_by_filter as int), Style::Muted),
                (" rows]"@, Style::Plain),
            ],
        ]
    } else {
        Seq::<LineModel>::empty()
    }) + (if p.hash_condition@.len() > 0 {
        seq![
            seq![
                (detail_prefix, Style::Prefix),
                ("on"@, Style::Muted),
                (" "@, Style::Plain),
                (p.hash_condition@, Style::Plain),
            ],
        ]
    } else {
        Seq::<LineModel>::empty()
    }) + (if p.cte_name@.len() > 0 {
        seq![
            seq![
                (detail_prefix, Style::Prefix),
                ("CTE "@, Style::Plain),
                (p.cte_name@, Style::Plain),
            ],
        ]
    } else {
        Seq::<LineModel>::empty()
    }) + (if p.planner_row_estimate_factor.num != 0 {
        seq![
            seq![
                (detail_prefix, Style::Prefix),
                ("rows"@, Style::Muted),
                (" "@, Style::Plain),
                (p.planner_row_estimate_direction@, Style::Plain),
                ("estimated "@, Style::Plain),
                ("by"@, Style::Muted),
                (" "@, Style::Plain),
                (spec_factor_str(p.planner_row_estimate_factor), Style::Plain),
            ],
        ]
    } else {
        Seq::<LineModel>::empty()
    })
}

/// The output block, or nothing when the node lists no output expressions.
pub open spec fn output_block(p: Plan, source_prefix: Seq<char>, cols: int) -> Seq<LineModel> {
    if p.output@.len() > 0 {
        output_lines(p, source_prefix, cols)
    } else {
        Seq::<LineModel>::empty()
    }
}

/// The block of lines one node contributes, children aside: connector and
/// header, wrapped description, the three metric lines, the conditional
/// detail lines, and the output block.
pub open spec fn node_own_lines(
    e: Explain,
    p: Plan,
    prefix: Seq<char>,
    last: bool,
    width: int,
) -> Seq<LineModel> {
    let source_prefix = prefix + child_prefix_ext(p, last);
    let current_prefix = source_prefix + "│ "@;
    let cols = width - current_prefix.len();
    let detail_prefix = current_prefix + "  "@;
    header_lines(p, prefix, last) + desc_lines(p, current_prefix, cols) + metric_lines(
        e,
        p,
        current_prefix,
    ) + detail_lines(p, detail_prefix) + output_block(p, source_prefix, cols)
}

/// The lines of a whole sibling list: each node's own block, then its
/// children's lines behind the grown prefix, then the later siblings.
pub open spec fn render_children(e: Explain, s: Seq<Plan>, prefix: Seq<char>, width: int) -> Seq<
    LineModel,
>
    decreases s,
{
    if s.len() == 0 {
        Seq::<LineModel>::empty()
    } else {
        node_own_lines(e, s[0], prefix, s.len() == 1, width) + render_children(
            e,
            s[0].plans@,
            prefix + child_prefix_ext(s[0], s.len() == 1),
            width,
        ) + render_children(e, s.drop_first(), prefix, width)
    }
}

/// The lines of a whole subtree.
pub open spec fn render_tree(e: Explain, p: Plan, prefix: Seq<char>, last: bool, width: int) -> Seq<
    LineModel,
> {
    node_own_lines(e, p, prefix, last, width) + render_children(
        e,
        p.plans@,
        prefix + child_prefix_ext(p, last),
        width,
    )
}

fn build_header(plan: &Plan, prefix: &String, last_child: bool) -> (r: Vec<Line>)
    requires
        plan.planner_row_estimate_factor.den > 0,
    ensures
        lines_view(r@) == header_lines(*plan, prefix@, last_child),
{
    let many_or_last: bool = plan.plans.len() > 1 || last_child;
    let joint: &str = if many_or_last {
        "└"
    } else {
        "├"
    };
    let mut out: Vec<Line> = Vec::new();
    let mut sp: Vec<Span> = Vec::new();
    sp.push(span(prefix.clone(), Style::Prefix));
    sp.push(span("│".to_owned(), Style::Prefix));
    let l: Line = Line { spans: sp };
    proof {
        assert(line_view(l) =~~= header_lines(*plan, prefix@, last_child)[0]);
    }
    out.push(l);
    let mut sp: Vec<Span> = Vec::new();
    sp.push(span(prefix.clone(), Style::Prefix));
    sp.push(span(joint.to_owned().concat("─⌠"), Style::Prefix));
    sp.push(span(" ".to_owned(), Style::Plain));
    sp.push(span(plan.node_type.clone(), Style::Bold));
    sp.push(span(format_details(plan), Style::Muted));
    sp.push(span(" ".to_owned(), Style::Plain));
    sp.push(span(format_tags(plan), Style::Tag));
    let l: Line = Line { spans: sp };
    proof {
        assert(line_view(l) =~~= header_lines(*plan, prefix@, last_child)[1]);
    }
    out.push(l);
    proof {
        assert(lines_view(out@) =~~= header_lines(*plan, prefix@, last_child));
    }
    out
}

fn build_desc(plan: &Plan, current_prefix: &String, cols: usize) -> (r: Vec<Line>)
    ensures
        lines_view(r@) == desc_lines(*plan, current_prefix@, cols as int),
{
    let desc: &'static str = description_of(plan.node_type.as_str());
    let wrapped: String = fill_text(desc, cols);
    let pieces: Vec<String> = split_lines(wrapped.as_str());
    let ghost seg = desc_lines(*plan, current_prefix@, cols as int);
    let mut out: Vec<Line> = Vec::new();
    let np: usize = pieces.len();
    let mut i: usize = 0;
    proof {
        assert(seg.take(0) =~= Seq::<LineModel>::empty());
        assert(lines_view(out@) =~~= seg.take(0));
    }
    while i < np
        invariant
            i <= np,
            np == pieces@.len(),
            np == seg.len(),
            views_of_strings(pieces@) == spec_split_nl(
                wrap_of(spec_description(plan.node_type@), cols as int),
            ),
            seg == desc_lines(*plan, current_prefix@, cols as int),
            lines_view(out@) == seg.take(i as int),
        decreases np - i,
    {
        let mut sp: Vec<Span> = Vec::new();
        sp.push(span(current_prefix.clone(), Style::Prefix));
        sp.push(span(pieces[i].clone(), Style::Muted));
        let l: Line = Line { spans: sp };
        proof {
            assert(views_of_strings(pieces@)[i as int] == pieces@[i as int]@);
            assert(line_view(l) =~~= seg[i as int]);
            assert(seg.take(i + 1) =~= seg.take(i as int).push(seg[i as int]));
        }
        out.push(l);
        proof {
            assert(lines_view(out@) =~~= seg.take(i + 1));
        }
        i = i + 1;
    }
    proof {
        assert(seg.take(np as int) =~= seg);
    }
    out
}

fn build_metrics(explain: &Explain, plan: &Plan, current_prefix: &String) -> (r: Vec<Line>)
    requires
        renderable_node(*plan),
        explain.execution_time >= 0,
        explain.total_cost >= 0,
    ensures
        lines_view(r@) == metric_lines(*explain, *plan, current_prefix@),
{
    let mut out: Vec<Line> = Vec::new();
    let dur_span: Span = duration_to_string(plan.actual_duration);
    let mut sp: Vec<Span> = Vec::new();
    sp.push(span(current_prefix.clone(), Style::Prefix));
    sp.push(span("○ Duration: ".to_owned(), Style::Plain));
    sp.push(dur_span);
    sp.push(span(" ".to_owned(), Style::Plain));
    sp.push(span(format_percent(plan.actual_duration, explain.execution_time), Style::Plain));
    let l: Line = Line { spans: sp };
    proof {
        assert(line_view(l) =~~= metric_lines(*explain, *plan, current_prefix@)[0]);
    }
    out.push(l);
    let mut sp: Vec<Span> = Vec::new();
    sp.push(span(current_prefix.clone(), Style::Prefix));
    sp.push(span("○ Cost: ".to_owned(), Style::Plain));
    sp.push(span(cost_to_string(plan.actual_cost), Style::Plain));
    sp.push(span(" ".to_owned(), Style::Plain));
    sp.push(span(format_percent(plan.actual_cost, explain.total_cost), Style::Plain));
    let l: Line = Line { spans: sp };
    proof {
        assert(line_view(l) =~~= metric_lines(*explain, *plan, current_prefix@)[1]);
    }
    out.push(l);
    let mut sp: Vec<Span> = Vec::new();
    sp.push(span(current_prefix.clone(), Style::Prefix));
    sp.push(span("○ Rows: ".to_owned(), Style::Plain));
    sp.push(span(u64_to_string(plan.actual_rows), Style::Plain));
    let l: Line = Line { spans: sp };
    proof {
        assert(line_view(l) =~~= metric_lines(*explain, *plan, current_prefix@)[2]);
    }
    out.push(l);
    proof {
        assert(lines_view(out@) =~~= metric_lines(*explain, *plan, current_prefix@));
    }
    out
}

fn build_details_a(plan: &Plan, detail_prefix: &String) -> (r: Vec<Line>)
    ensures
        lines_view(r@) == detail_lines_a(*plan, detail_prefix@),
{
    let mut out: Vec<Line> = Vec::new();
    if !plan.join_type.as_str().is_empty() {
        let mut sp: Vec<Span> = Vec::new();
        sp.push(span(detail_prefix.clone(), Style::Prefix));
        sp.push(span("join".to_owned(), Style::Muted));
        sp.push(span(" ".to_owned(), Style::Plain));
        sp.push(span(plan.join_type.clone(), Style::Muted));
        out.push(Line { spans: sp });
    }
    let ghost g1 = (if plan.join_type@.len() > 0 {
        seq![
            seq![
                (detail_prefix@, Style::Prefix),
                ("join"@, Style::Muted),
                (" "@, Style::Plain),
                (plan.join_type@, Style::Muted),
            ],
        ]
    } else {
        Seq::<LineModel>::empty()
    });
    proof {
        assert(lines_view(out@) =~~= g1);
    }
    if !plan.relation_name.as_str().is_empty() {
        let mut sp: Vec<Span> = Vec::new();
        sp.push(span(detail_prefix.clone(), Style::Prefix));
        sp.push(span("on".to_owned(), Style::Muted));
        sp.push(span(" ".to_owned(), Style::Plain));
        sp.push(span(plan.schema.clone(), Style::Muted));
        sp.push(span(" ".to_owned(), Style::Plain));
        sp.push(span(plan.relation_name.clone(), Style::Muted));
        out.push(Line { spans: sp });
    }
    let ghost g2 = g1 + (if plan.relation_name@.len() > 0 {
        seq![
            seq![
                (detail_prefix@, Style::Prefix),
                ("on"@, Style::Muted),
                (" "@, Style::Plain),
                (plan.schema@, Style::Muted),
                (" "@, Style::Plain),
                (plan.relation_name@, Style::Muted),
            ],
        ]
    } else {
        Seq::<LineModel>::empty()
    });
    proof {
        assert(lines_view(out@) =~~= g2);
    }
    if !plan.index_name.as_str().is_empty() {
        let mut sp: Vec<Span> = Vec::new();
        sp.push(span(detail_prefix.clone(), Style::Prefix));
        sp.push(span("using".to_owned(), Style::Muted));
        sp.push(span(" ".to_owned(), Style::Plain));
        sp.push(span(plan.index_name.clone(), Style::Plain));
        out.push(Line { spans: sp });
    }
    let ghost g3 = g2 + (if plan.index_name@.len() > 0 {
        seq![
            seq![
                (detail_prefix@, Style::Prefix),
                ("using"@, Style::Muted),
                (" "@, Style::Plain),
                (plan.index_name@, Style::Plain),
            ],
        ]
    } else {
        Seq::<LineModel>::empty()
    });
    proof {
        assert(lines_view(out@) =~~= g3);
    }
    if !plan.index_condition.as_str().is_empty() {
        let mut sp: Vec<Span> = Vec::new();
        sp.push(span(detail_prefix.clone(), Style::Prefix));
        sp.push(span("condition".to_owned(), Style::Muted));
        sp.push(span(" ".to_owned(), Style::Plain));
        sp.push(span(plan.index_condition.clone(), Style::Plain));
        out.push(Line { spans: sp });
    }
    let ghost g4 = g3 + (if plan.index_condition@.len() > 0 {
        seq![
            seq![
                (detail_prefix@, Style::Prefix),
                ("condition"@, Style::Muted),
                (" "@, Style::Plain),
                (plan.index_condition@, Style::Plain),
            ],
        ]
    } else {
        Seq::<LineModel>::empty()
    });
    proof {
        assert(lines_view(out@) =~~= g4);
        assert(g4 =~~= detail_lines_a(*plan, detail_prefix@));
    }
    out
}

fn build_details_b(plan: &Plan, detail_prefix: &String) -> (r: Vec<Line>)
    requires
        plan.planner_row_estimate_factor.den > 0,
    ensures
        lines_view(r@) == detail_lines_b(*plan, detail_prefix@),
{
    let mut out: Vec<Line> = Vec::new();
    if !plan.filter.as_str().is_empty() {
        let mut sp: Vec<Span> = Vec::new();
        sp.push(span(detail_prefix.clone(), Style::Prefix));
        sp.push(span("filter".to_owned(), Style::Muted));
        sp.push(span(" ".to_owned(), Style::Plain));
        sp.push(span(plan.filter.clone(), Style::Plain));
        sp.push(span(" [-".to_owned(), Style::Plain));
        sp.push(span(u64_to_string(plan.rows_removed_by_filter), Style::Muted));
        sp.push(span(" rows]".to_owned(), Style::Plain));
        out.push(Line { spans: sp });
    }
    let ghost g5 = (if plan.filter@.len() > 0 {
        seq![
            seq![
                (detail_prefix@, Style::Prefix),
                ("filter"@, Style::Muted),
                (" "@, Style::Plain),
                (plan.filter@, Style::Plain),
                (" [-"@, Style::Plain),
                (spec_digits(plan.rows_removed_by_filter as int), Style::Muted),
                (" rows]"@, Style::Plain),
            ],
        ]
    } else {
        Seq::<LineModel>::empty()
    });
    proof {
        assert(lines_view(out@) =~~= g5);
    }
    if !plan.hash_condition.as_str().is_empty() {
        let mut sp: Vec<Span> = Vec::new();
        sp.push(span(detail_prefix.clone(), Style::Prefix));
        sp.push(span("on".to_owned(), Style::Muted));
        sp.push(span(" ".to_owned(), Style::Plain));
        sp.push(span(plan.hash_condition.clone(), Style::Plain));
        out.push(Line { spans: sp });
    }
    let ghost g6 = g5 + (if plan.hash_condition@.len() > 0 {
        seq![
            seq![
                (detail_prefix@, Style::Prefix),
                ("on"@, Style::Muted),
                (" "@, Style::Plain),
                (plan.hash_condition@, Style::Plain),
            ],
        ]
    } else {
        Seq::<LineModel>::empty()
    });
    proof {
        assert(lines_view(out@) =~~= g6);
    }
    if !plan.cte_name.as_str().is_empty() {
        let mut sp: Vec<Span> = Vec::new();
        sp.push(span(detail_prefix.clone(), Style::Prefix));
        sp.push(span("CTE ".to_owned(), Style::Plain));
        sp.push(span(plan.cte_name.clone(), Style::Plain));
        out.push(Line { spans: sp });
    }
    let ghost g7 = g6 + (if plan.cte_name@.len() > 0 {
        seq![
            seq![
                (detail_prefix@, Style::Prefix),
                ("CTE "@, Style::Plain),
                (plan.cte_name@, Style::Plain),
            ],
        ]
    } else {
        Seq::<LineModel>::empty()
    });
    proof {
        assert(lines_view(out@) =~~= g7);
    }
    if !plan.planner_row_estimate_factor.is_zero() {
        let mut sp: Vec<Span> = Vec::new();
        sp.push(span(detail_prefix.clone(), Style::Prefix));
        sp.push(span("rows".to_owned(), Style::Muted));
        sp.push(span(" ".to_owned(), Style::Plain));
        sp.push(span(plan.planner_row_estimate_direction.clone(), Style::Plain));
        sp.push(span("estimated ".to_owned(), Style::Plain));
        sp.push(span("by".to_owned(), Style::Muted));
        sp.push(span(" ".to_owned(), Style::Plain));
        sp.push(span(factor_to_string(&plan.planner_row_estimate_factor), Style::Plain));
        out.push(Line { spans: sp });
    }
    let ghost g8 = g7 + (if plan.planner_row_estimate_factor.num != 0 {
        seq![
            seq![
                (detail_prefix@, Style::Prefix),
                ("rows"@, Style::Muted),
                (" "@, Style::Plain),
                (plan.planner_row_estimate_direction@, Style::Plain),
                ("estimated "@, Style::Plain),
                ("by"@, Style::Muted),
                (" "@, Style::Plain),
                (spec_factor_str(plan.planner_row_estimate_factor), Style::Plain),
            ],
        ]
    } else {
        Seq::<LineModel>::empty()
    });
    proof {
        assert(lines_view(out@) =~~= g8);
        assert(g8 =~~= detail_lines_b(*plan, detail_prefix@));
    }
    out
}

fn build_output(plan: &Plan, source_prefix: &String, cols: usize) -> (r: Vec<Line>)
    ensures
        lines_view(r@) == output_block(*plan, source_prefix@, cols as int),
{
    let mut out: Vec<Line> = Vec::new();
    if plan.output.is_empty() {
        proof {
            assert(lines_view(out@) =~~= output_block(*plan, source_prefix@, cols as int));
        }
        return out;
    }
    let joined: String = join_strings(&plan.output, " + ");
    let wrapped_out: String = fill_text(joined.as_str(), cols);
    let opieces: Vec<String> = split_lines(wrapped_out.as_str());
    let ghost seg = output_lines(*plan, source_prefix@, cols as int);
    let no: usize = opieces.len();
    let mut k: usize = 0;
    proof {
        assert(seg.len() == no);
        assert(seg.take(0) =~= Seq::<LineModel>::empty());
        assert(lines_view(out@) =~~= seg.take(0));
    }
    while k < no
        invariant
            k <= no,
            no == opieces@.len(),
            no == seg.len(),
            views_of_strings(opieces@) == spec_split_nl(
                wrap_of(spec_join(views_of_strings(plan.output@), " + "@), cols as int),
            ),
            seg == output_lines(*plan, source_prefix@, cols as int),
            lines_view(out@) == seg.take(k as int),
        decreases no - k,
    {
        let mut sp: Vec<Span> = Vec::new();
        sp.push(span(source_prefix.clone(), Style::Prefix));
        sp.push(span(get_terminator(k, plan).concat(opieces[k].as_str()), Style::Output));
        let l: Line = Line { spans: sp };
        proof {
            assert(views_of_strings(opieces@)[k as int] == opieces@[k as int]@);
            assert(line_view(l) =~~= seg[k as int]);
            assert(seg.take(k + 1) =~= seg.take(k as int).push(seg[k as int]));
        }
        out.push(l);
        proof {
            assert(lines_view(out@) =~~= seg.take(k + 1));
        }
        k = k + 1;
    }
    proof {
        assert(seg.take(no as int) =~= seg);
        assert(lines_view(out@) =~~= output_block(*plan, source_prefix@, cols as int));
    }
    out
}

/// Tree Renderer, one subtree: the node's block followed by its children's,
/// in order.  Fails exactly when the indentation prefix no longer fits the
/// display width, which bounds the nesting depth the width can show.
pub fn write_plan(
    explain: &Explain,
    plan: &Plan,
    prefix: String,
    depth: i32,
    width: usize,
    last_child: bool,
) -> (r: Result<Vec<Line>, RenderError>)
    requires
        renderable(*plan),
        explain.execution_time >= 0,
        explain.total_cost >= 0,
    ensures
        match r {
            Ok(lines) => fits_width(*plan, prefix@.len() as int, width as int) && lines_view(
                lines@,
            ) == render_tree(*explain, *plan, prefix@, last_child, width as int),
            Err(err) => !fits_width(*plan, prefix@.len() as int, width as int) && err
                == RenderError::DepthExhausted,
        },
    decreases *plan,
{
    let plen: usize = prefix.unicode_len();
    if width < 4 || plen > width - 4 {
        return Err(RenderError::DepthExhausted);
    }
    proof {
        reveal_strlit("  ");
        reveal_strlit("│ ");
    }
    let many_or_last: bool = plan.plans.len() > 1 || last_child;
    let mut source_prefix: String = prefix.clone();
    source_prefix.append(if many_or_last {
        "  "
    } else {
        "│ "
    });
    let mut current_prefix: String = source_prefix.clone();
    current_prefix.append("│ ");
    proof {
        assert(source_prefix@ == prefix@ + child_prefix_ext(*plan, last_child));
        assert(current_prefix@.len() == plen + 4);
    }
    let cols: usize = width - plen - 4;
    let mut detail_prefix: String = current_prefix.clone();
    detail_prefix.append("  ");

    let mut out: Vec<Line> = build_header(plan, &prefix, last_child);
    let ghost h = lines_view(out@);

    let mut seg: Vec<Line> = build_desc(plan, &current_prefix, cols);
    let ghost sd = seg@;
    out.append(&mut seg);
    proof {
        assert(lines_view(out@) =~~= h + lines_view(sd));
    }
    let ghost h2 = h + lines_view(sd);

    let mut seg: Vec<Line> = build_metrics(explain, plan, &current_prefix);
    let ghost sm = seg@;
    out.append(&mut seg);
    proof {
        assert(lines_view(out@) =~~= h2 + lines_view(sm));
    }
    let ghost h3 = h2 + lines_view(sm);

    let mut seg: Vec<Line> = build_details_a(plan, &detail_prefix);
    let ghost sda = seg@;
    out.append(&mut seg);
    proof {
        assert(lines_view(out@) =~~= h3 + lines_view(sda));
    }
    let ghost h3a = h3 + lines_view(sda);

    let mut seg: Vec<Line> = build_details_b(plan, &detail_prefix);
    let ghost sdb = seg@;
    out.append(&mut seg);
    proof {
        assert(lines_view(out@) =~~= h3a + lines_view(sdb));
    }
    let ghost h4 = h3a + lines_view(sdb);

    let mut seg: Vec<Line> = build_output(plan, &source_prefix, cols);
    let ghost so = seg@;
    out.append(&mut seg);
    proof {
        assert(lines_view(out@) =~~= h4 + lines_view(so));
        assert(lines_view(out@) =~~= node_own_lines(
            *explain,
            *plan,
            prefix@,
            last_child,
            width as int,
        ));
    }

    let next_depth: i32 = if depth < i32::MAX {
        depth + 1
    } else {
        depth
    };
    proof {
        assert(plan.plans@.skip(0) =~= plan.plans@);
        assert(decreases_to!(*plan => plan.plans@));
    }
    let sub: Result<Vec<Line>, RenderError> = write_children(
        explain,
        &plan.plans,
        0,
        &source_prefix,
        next_depth,
        width,
    );
    match sub {
        Ok(mut child_lines) => {
            let ghost base = lines_view(out@);
            let ghost cl = child_lines@;
            out.append(&mut child_lines);
            proof {
                assert(lines_view(out@) =~~= base + lines_view(cl));
                assert(lines_view(out@) =~~= render_tree(
                    *explain,
                    *plan,
                    prefix@,
                    last_child,
                    width as int,
                ));
            }
            Ok(out)
        },
        Err(err) => Err(err),
    }
}

/// The siblings of a list from an index on, rendered in order; the last
/// gets the closing joint.
fn write_children(
    explain: &Explain,
    children: &Vec<Plan>,
    from: usize,
    prefix: &String,
    depth: i32,
    width: usize,
) -> (r: Result<Vec<Line>, RenderError>)
    requires
        from <= children@.len(),
        forall|i: int| 0 <= i < children@.len() ==> renderable(#[trigger] children@[i]),
        explain.execution_time >= 0,
        explain.total_cost >= 0,
    ensures
        match r {
            Ok(lines) => seq_fits(children@.skip(from as int), prefix@.len() as int, width as int)
                && lines_view(lines@) == render_children(
                *explain,
                children@.skip(from as int),
                prefix@,
                width as int,
            ),
            Err(err) => !seq_fits(children@.skip(from as int), prefix@.len() as int, width as int)
                && err == RenderError::DepthExhausted,
        },
    decreases children@.skip(from as int),
{
    let n: usize = children.len();
    if from == n {
        proof {
            assert(children@.skip(from as int) =~= Seq::<Plan>::empty());
        }
        return Ok(Vec::new());
    }
    let ghost s = children@.skip(from as int);
    proof {
        assert(s[0] == children@[from as int]);
        assert(s.drop_first() =~= children@.skip(from + 1));
        assert((s.len() == 1) == (from + 1 == n));
        assert(decreases_to!(s => s[0]));
    }
    let head: Result<Vec<Line>, RenderError> = write_plan(
        explain,
        &children[from],
        prefix.clone(),
        depth,
        width,
        from + 1 == n,
    );
    let mut out: Vec<Line> = match head {
        Ok(lines) => lines,
        Err(err) => {
            return Err(err);
        },
    };
    proof {
        assert(children@.skip(from + 1) =~= s.subrange(1, s.len() as int));
        assert(decreases_to!(s => s.subrange(1, s.len() as int)));
    }
    let rest: Result<Vec<Line>, RenderError> = write_children(
        explain,
        children,
        from + 1,
        prefix,
        depth,
        width,
    );
    match rest {
        Ok(mut rest_lines) => {
            let ghost hl = lines_view(out@);
            let ghost rl = rest_lines@;
            out.append(&mut rest_lines);
            proof {
                assert(lines_view(out@) =~~= hl + lines_view(rl));
                assert(lines_view(out@) =~~= render_children(*explain, s, prefix@, width as int));
            }
            Ok(out)
        },
        Err(err) => Err(err),
    }
}


/// The document header lines followed by the whole tree: total cost, the two engine times, a top connector, then
/// the root subtree with an empty prefix.
pub open spec fn render_explain(e: Explain, width: int) -> Seq<LineModel> {
    seq![
        seq![("○ Total Cost "@, Style::Plain), (spec_cost_str(e.total_cost as int), Style::Plain)],
        seq![
            ("○ Planning Time: "@, Style::Plain),
            (
                spec_duration_text(e.planning_time as int),
                spec_duration_style(e.planning_time as int),
            ),
        ],
        seq![
            ("○ Execution Time: "@, Style::Plain),
            (
                spec_duration_text(e.execution_time as int),
                spec_duration_style(e.execution_time as int),
            ),
        ],
        seq![("┬"@, Style::Output)],
    ] + render_tree(e, e.plan, Seq::<char>::empty(), e.plan.plans@.len() == 1, width)
}

/// Renders a whole analyzed document: the summary header, then the tree.
pub fn write_explain(explain: &Explain, width: usize) -> (r: Result<Vec<Line>, RenderError>)
    requires
        renderable(explain.plan),
        0 <= explain.total_cost <= 9000000000000000000,
        0 <= explain.planning_time <= 9000000000000000000,
        0 <= explain.execution_time <= 9000000000000000000,
    ensures
        match r {
            Ok(lines) => fits_width(explain.plan, 0, width as int) && lines_view(lines@)
                == render_explain(*explain, width as int),
            Err(err) => !fits_width(explain.plan, 0, width as int) && err
                == RenderError::DepthExhausted,
        },
{
    let mut out: Vec<Line> = Vec::new();

    let mut sp: Vec<Span> = Vec::new();
    sp.push(span("○ Total Cost ".to_owned(), Style::Plain));
    sp.push(span(cost_to_string(explain.total_cost), Style::Plain));
    let l: Line = Line { spans: sp };
    proof {
        assert(line_view(l) =~~= render_explain(*explain, width as int)[0]);
    }
    out.push(l);

    let mut sp: Vec<Span> = Vec::new();
    sp.push(span("○ Planning Time: ".to_owned(), Style::Plain));
    sp.push(duration_to_string(explain.planning_time));
    let l: Line = Line { spans: sp };
    proof {
        assert(line_view(l) =~~= render_explain(*explain, width as int)[1]);
    }
    out.push(l);

    let mut sp: Vec<Span> = Vec::new();
    sp.push(span("○ Execution Time: ".to_owned(), Style::Plain));
    sp.push(duration_to_string(explain.execution_time));
    let l: Line = Line { spans: sp };
    proof {
        assert(line_view(l) =~~= render_explain(*explain, width as int)[2]);
    }
    out.push(l);

    let mut sp: Vec<Span> = Vec::new();
    sp.push(span("┬".to_owned(), Style::Output));
    let l: Line = Line { spans: sp };
    proof {
        assert(line_view(l) =~~= render_explain(*explain, width as int)[3]);
    }
    out.push(l);

    let ghost head = lines_view(out@);
    let last: bool = explain.plan.plans.len() == 1;
    let tree: Result<Vec<Line>, RenderError> = write_plan(
        explain,
        &explain.plan,
        String::new(),
        0,
        width,
        last,
    );
    match tree {
        Ok(mut tree_lines) => {
            let ghost tl = tree_lines@;
            out.append(&mut tree_lines);
            proof {
                assert(lines_view(out@) =~~= head + lines_view(tl));
                assert(lines_view(out@) =~~= render_explain(*explain, width as int));
            }
            Ok(out)
        },
        Err(err) => Err(err),
    }
}

/// An analyzable document that came out of the two analysis passes is
/// within the renderer's machine bounds at every node.
pub proof fn lemma_processed_renderable(orig: Plan, new: Plan, d: Explain)
    requires
        processed_tree(orig, new, d),
        crate::plan::analyzable(orig),
    ensures
        renderable(new),
    decreases orig,
{
    crate::plan::lemma_seq_inputs_ok_all(orig.plans@);
    crate::plan::lemma_non_cte_nonneg(orig.plans@);
    crate::plan::lemma_non_cte_le_subtree(orig.plans@);
    crate::plan::lemma_seq_subtree_nonneg(orig.plans@);
    assert(0 <= excl_cost(orig) <= crate::plan::MAX_COST_SUM);
    assert(-crate::plan::MAX_TIME_SUM <= excl_duration_base(orig) <= crate::plan::MAX_TIME_SUM);
    assert(
        excl_duration_base(orig) * orig.actual_loops <= crate::plan::MAX_TIME_SUM
            * crate::plan::MAX_LOOPS
    ) by (nonlinear_arith)
        requires
            -crate::plan::MAX_TIME_SUM <= excl_duration_base(orig) <= crate::plan::MAX_TIME_SUM,
            0 <= orig.actual_loops <= crate::plan::MAX_LOOPS,
    ;
    assert(
        -(crate::plan::MAX_TIME_SUM * crate::plan::MAX_LOOPS) <= excl_duration_base(orig)
            * orig.actual_loops
    ) by (nonlinear_arith)
        requires
            -crate::plan::MAX_TIME_SUM <= excl_duration_base(orig) <= crate::plan::MAX_TIME_SUM,
            0 <= orig.actual_loops <= crate::plan::MAX_LOOPS,
    ;
    assert(renderable_node(new));
    assert forall|i: int| 0 <= i < new.plans@.len() implies renderable(
        #[trigger] new.plans@[i],
    ) by {
        crate::plan::lemma_seq_subtree_index(orig.plans@, i);
        lemma_processed_renderable(orig.plans@[i], new.plans@[i], d);
    }
}

/// Whether a document is inside the machine bounds of the whole pipeline:
/// the tree's, and the document-level fields'.
pub fn is_analyzable_document(e: &Explain) -> (b: bool)
    ensures
        b == (crate::plan::analyzable(e.plan) && crate::explain::explain_inputs_ok(*e)),
{
    crate::plan::is_analyzable(&e.plan) && e.planning_time >= 0 && e.planning_time
        <= crate::plan::MAX_TIME_SUM && e.execution_time >= 0 && e.execution_time
        <= crate::plan::MAX_TIME_SUM && e.total_cost >= 0 && e.total_cost
        <= crate::plan::MAX_COST_SUM && e.max_cost >= 0 && e.max_duration >= 0
}

/// The computing core of one whole invocation: both analysis passes, then
/// the renderer.  Decoding the input and printing the lines
/// stay with the caller.
pub fn analyze_and_render(explain: Explain, width: usize) -> (r: (
    Explain,
    Result<Vec<Line>, RenderError>,
))
    requires
        crate::plan::analyzable(explain.plan),
        crate::explain::explain_inputs_ok(explain),
    ensures
        r.0 == (Explain {
            plan: r.0.plan,
            total_cost: r.0.total_cost,
            max_rows: r.0.max_rows,
            max_cost: r.0.max_cost,
            max_duration: r.0.max_duration,
            ..explain
        }),
        doc_stats(r.0) == crate::explain::doc_after_tree(doc_stats(explain), explain.plan),
        processed_tree(explain.plan, r.0.plan, r.0),
        match r.1 {
            Ok(lines) => fits_width(r.0.plan, 0, width as int) && lines_view(lines@)
                == render_explain(r.0, width as int),
            Err(err) => !fits_width(r.0.plan, 0, width as int) && err
                == RenderError::DepthExhausted,
        },
{
    let processed: Explain = process_all(explain);
    proof {
        lemma_processed_renderable(explain.plan, processed.plan, processed);
        crate::laws::lemma_total_cost_is_sum_of_exclusive(doc_stats(explain), explain.plan);
        crate::laws::lemma_sum_excl_le_subtree(explain.plan);
    }
    let lines: Result<Vec<Line>, RenderError> = write_explain(&processed, width);
    (processed, lines)
}

} // verus!
