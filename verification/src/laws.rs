use vstd::prelude::*;
use crate::explain::DocStats;
use crate::explain::Explain;
use crate::explain::doc_after_node;
use crate::explain::doc_after_seq;
use crate::explain::doc_after_tree;
use crate::plan::Plan;
use crate::plan::excl_cost;
use crate::plan::excl_duration;
use crate::plan::node_inputs_ok;
use crate::plan::non_cte_cost;
use crate::plan::non_cte_time;
use crate::plan::seq_inputs_ok;
use crate::plan::spec_is_cte_scan;
use crate::plan::tree_inputs_ok;
use crate::processed_tree;

verus! {

/// Every node of a subtree, in pre-order: the node itself, then the nodes of
/// each child subtree, left to right.
pub open spec fn nodes_of_seq(s: Seq<Plan>) -> Seq<Plan>
    decreases s,
{
    if s.len() == 0 {
        Seq::<Plan>::empty()
    } else {
        seq![s[0]] + nodes_of_seq(s[0].plans@) + nodes_of_seq(s.drop_first())
    }
}

pub open spec fn nodes_of_tree(p: Plan) -> Seq<Plan> {
    seq![p] + nodes_of_seq(p.plans@)
}

/// Sum of the exclusive costs of a flat list of nodes.
pub open spec fn sum_excl_over(ns: Seq<Plan>) -> int
    decreases ns,
{
    if ns.len() == 0 {
        0
    } else {
        excl_cost(ns[0]) + sum_excl_over(ns.drop_first())
    }
}

/// Maximum exclusive cost over a non-empty flat list of nodes.
pub open spec fn max_cost_over(ns: Seq<Plan>) -> int
    decreases ns,
{
    if ns.len() <= 1 {
        excl_cost(ns[0])
    } else {
        vstd::math::max(excl_cost(ns[0]), max_cost_over(ns.drop_first()))
    }
}

/// Maximum actual row count over a non-empty flat list of nodes.
pub open spec fn max_rows_over(ns: Seq<Plan>) -> int
    decreases ns,
{
    if ns.len() <= 1 {
        ns[0].actual_rows as int
    } else {
        vstd::math::max(ns[0].actual_rows as int, max_rows_over(ns.drop_first()))
    }
}

/// Maximum exclusive duration over a non-empty flat list of nodes.
pub open spec fn max_duration_over(ns: Seq<Plan>) -> int
    decreases ns,
{
    if ns.len() <= 1 {
        excl_duration(ns[0])
    } else {
        vstd::math::max(excl_duration(ns[0]), max_duration_over(ns.drop_first()))
    }
}

proof fn lemma_sum_excl_concat(a: Seq<Plan>, b: Seq<Plan>)
    ensures
        sum_excl_over(a + b) == sum_excl_over(a) + sum_excl_over(b),
    decreases a,
{
    if a.len() == 0 {
        assert(a + b =~= b);
    } else {
        lemma_sum_excl_concat(a.drop_first(), b);
        assert((a + b).drop_first() =~= a.drop_first() + b);
        assert((a + b)[0] == a[0]);
    }
}

proof fn lemma_max_concat(a: Seq<Plan>, b: Seq<Plan>)
    requires
        a.len() > 0,
        b.len() > 0,
    ensures
        max_cost_over(a + b) == vstd::math::max(max_cost_over(a), max_cost_over(b)),
        max_rows_over(a + b) == vstd::math::max(max_rows_over(a), max_rows_over(b)),
        max_duration_over(a + b) == vstd::math::max(max_duration_over(a), max_duration_over(b)),
    decreases a,
{
    if a.len() == 1 {
        assert((a + b).drop_first() =~= b);
        assert((a + b)[0] == a[0]);
    } else {
        lemma_max_concat(a.drop_first(), b);
        assert((a + b).drop_first() =~= a.drop_first() + b);
        assert((a + b)[0] == a[0]);
    }
}

/// The document accumulators after a walk, characterized against the flat
/// list of visited nodes: the running total gains every node's exclusive
/// cost, and each maximum is the old value joined with the list-wide
/// maximum of the corresponding metric.
proof fn lemma_doc_after_seq_char(d: DocStats, s: Seq<Plan>)
    ensures
        doc_after_seq(d, s).total_cost == d.total_cost + sum_excl_over(nodes_of_seq(s)),
        s.len() > 0 ==> doc_after_seq(d, s).max_cost == vstd::math::max(
            d.max_cost,
            max_cost_over(nodes_of_seq(s)),
        ),
        s.len() > 0 ==> doc_after_seq(d, s).max_rows == vstd::math::max(
            d.max_rows,
            max_rows_over(nodes_of_seq(s)),
        ),
        s.len() > 0 ==> doc_after_seq(d, s).max_duration == vstd::math::max(
            d.max_duration,
            max_duration_over(nodes_of_seq(s)),
        ),
    decreases s,
{
    if s.len() > 0 {
        let d1 = doc_after_node(d, s[0]);
        let a = nodes_of_seq(s[0].plans@);
        let b = nodes_of_seq(s.drop_first());
        lemma_doc_after_seq_char(d1, s[0].plans@);
        lemma_doc_after_seq_char(doc_after_seq(d1, s[0].plans@), s.drop_first());
        lemma_sum_excl_concat(seq![s[0]], a);
        lemma_sum_excl_concat(seq![s[0]] + a, b);
        assert(sum_excl_over(seq![s[0]]) == excl_cost(s[0])) by {
            assert(seq![s[0]].len() == 1);
            assert(seq![s[0]][0] == s[0]);
            assert(seq![s[0]].drop_first() =~= Seq::<Plan>::empty());
            assert(sum_excl_over(Seq::<Plan>::empty()) == 0);
        }
        if a.len() > 0 {
            lemma_max_concat(seq![s[0]], a);
        }
        if b.len() > 0 {
            lemma_max_concat(seq![s[0]] + a, b);
        }
        if s[0].plans@.len() > 0 {
            assert(a.len() > 0);
        }
        if s.drop_first().len() > 0 {
            assert(b.len() > 0);
        }
    }
}

/// Walking a whole tree, characterized the same way.
proof fn lemma_doc_after_tree_char(d: DocStats, p: Plan)
    ensures
        doc_after_tree(d, p).total_cost == d.total_cost + sum_excl_over(nodes_of_tree(p)),
        doc_after_tree(d, p).max_cost == vstd::math::max(
            d.max_cost,
            max_cost_over(nodes_of_tree(p)),
        ),
        doc_after_tree(d, p).max_rows == vstd::math::max(
            d.max_rows,
            max_rows_over(nodes_of_tree(p)),
        ),
        doc_after_tree(d, p).max_duration == vstd::math::max(
            d.max_duration,
            max_duration_over(nodes_of_tree(p)),
        ),
{
    let d1 = doc_after_node(d, p);
    let a = nodes_of_seq(p.plans@);
    lemma_doc_after_seq_char(d1, p.plans@);
    lemma_sum_excl_concat(seq![p], a);
    assert(sum_excl_over(seq![p]) == excl_cost(p)) by {
        assert(seq![p].len() == 1);
        assert(seq![p][0] == p);
        assert(seq![p].drop_first() =~= Seq::<Plan>::empty());
        assert(sum_excl_over(Seq::<Plan>::empty()) == 0);
    }
    if a.len() > 0 {
        lemma_max_concat(seq![p], a);
    }
    if p.plans@.len() > 0 {
        assert(a.len() > 0);
    }
}

/// The running exclusive-cost total accumulated onto a document by the
/// annotator equals the sum, over every node of the tree, of that node's
/// exclusive cost, on top of whatever the accumulator held before.
pub proof fn lemma_total_cost_is_sum_of_exclusive(d: DocStats, p: Plan)
    ensures
        doc_after_tree(d, p).total_cost == d.total_cost + sum_excl_over(nodes_of_tree(p)),
{
    lemma_doc_after_tree_char(d, p);
}

proof fn lemma_seq_sum_excl_le(s: Seq<Plan>)
    requires
        seq_inputs_ok(s),
    ensures
        0 <= sum_excl_over(nodes_of_seq(s)),
        sum_excl_over(nodes_of_seq(s)) <= crate::plan::seq_subtree_cost(s),
    decreases s,
{
    if s.len() > 0 {
        let a = nodes_of_seq(s[0].plans@);
        let b = nodes_of_seq(s.drop_first());
        lemma_seq_sum_excl_le(s[0].plans@);
        lemma_seq_sum_excl_le(s.drop_first());
        lemma_sum_excl_concat(seq![s[0]], a);
        lemma_sum_excl_concat(seq![s[0]] + a, b);
        assert(sum_excl_over(seq![s[0]]) == excl_cost(s[0])) by {
            assert(seq![s[0]].len() == 1);
            assert(seq![s[0]][0] == s[0]);
            assert(seq![s[0]].drop_first() =~= Seq::<Plan>::empty());
            assert(sum_excl_over(Seq::<Plan>::empty()) == 0);
        }
        crate::plan::lemma_seq_inputs_ok_all(s[0].plans@);
        crate::plan::lemma_non_cte_nonneg(s[0].plans@);
        assert(excl_cost(s[0]) <= s[0].total_cost);
    }
}

/// The sum of all exclusive costs never exceeds the sum of the cumulative
/// costs that fed it.
pub proof fn lemma_sum_excl_le_subtree(p: Plan)
    requires
        tree_inputs_ok(p),
    ensures
        0 <= sum_excl_over(nodes_of_tree(p)),
        sum_excl_over(nodes_of_tree(p)) <= crate::plan::subtree_cost(p),
{
    let a = nodes_of_seq(p.plans@);
    lemma_seq_sum_excl_le(p.plans@);
    lemma_sum_excl_concat(seq![p], a);
    assert(sum_excl_over(seq![p]) == excl_cost(p)) by {
        assert(seq![p].len() == 1);
        assert(seq![p][0] == p);
        assert(seq![p].drop_first() =~= Seq::<Plan>::empty());
        assert(sum_excl_over(Seq::<Plan>::empty()) == 0);
    }
    crate::plan::lemma_seq_inputs_ok_all(p.plans@);
    crate::plan::lemma_non_cte_nonneg(p.plans@);
    assert(excl_cost(p) <= p.total_cost);
}

/// After the annotator's walk, each document maximum is the join of its
/// starting value with the true maximum of the corresponding exclusive
/// metric over every node of the tree, recomputed independently over the
/// flattened node list.
pub proof fn lemma_maxima_join_true_maxima(d: DocStats, p: Plan)
    ensures
        doc_after_tree(d, p).max_cost == vstd::math::max(
            d.max_cost,
            max_cost_over(nodes_of_tree(p)),
        ),
        doc_after_tree(d, p).max_rows == vstd::math::max(
            d.max_rows,
            max_rows_over(nodes_of_tree(p)),
        ),
        doc_after_tree(d, p).max_duration == vstd::math::max(
            d.max_duration,
            max_duration_over(nodes_of_tree(p)),
        ),
{
    lemma_doc_after_tree_char(d, p);
}

proof fn lemma_max_cost_rows_over_nonneg(ns: Seq<Plan>)
    requires
        ns.len() > 0,
    ensures
        max_cost_over(ns) >= 0,
        max_rows_over(ns) >= 0,
    decreases ns,
{
    if ns.len() > 1 {
        lemma_max_cost_rows_over_nonneg(ns.drop_first());
    }
}

proof fn lemma_max_duration_over_ge(ns: Seq<Plan>, i: int)
    requires
        0 <= i < ns.len(),
    ensures
        max_duration_over(ns) >= excl_duration(ns[i]),
    decreases i,
{
    if i > 0 {
        lemma_max_duration_over_ge(ns.drop_first(), i - 1);
        assert(ns.drop_first()[i - 1] == ns[i]);
    }
}

proof fn lemma_leaf_duration_nonneg(p: Plan)
    requires
        node_inputs_ok(p),
        p.plans@.len() == 0,
    ensures
        excl_duration(p) >= 0,
{
    assert(crate::plan::excl_duration_base(p) == p.actual_total_time);
    assert(crate::plan::excl_duration_base(p) * p.actual_loops >= 0) by (nonlinear_arith)
        requires
            crate::plan::excl_duration_base(p) >= 0,
            p.actual_loops >= 0,
    ;
}

proof fn lemma_seq_max_duration_nonneg(s: Seq<Plan>)
    requires
        s.len() > 0,
        seq_inputs_ok(s),
    ensures
        max_duration_over(nodes_of_seq(s)) >= 0,
    decreases s,
{
    let a = nodes_of_seq(s[0].plans@);
    let b = nodes_of_seq(s.drop_first());
    if s[0].plans@.len() == 0 {
        lemma_leaf_duration_nonneg(s[0]);
        assert(nodes_of_seq(s)[0] == s[0]);
        lemma_max_duration_over_ge(nodes_of_seq(s), 0);
    } else {
        lemma_seq_max_duration_nonneg(s[0].plans@);
        lemma_max_concat(seq![s[0]], a);
        if b.len() > 0 {
            lemma_max_concat(seq![s[0]] + a, b);
        }
    }
}

/// Every tree has a node with non-negative exclusive duration (its deepest
/// leaves), so the duration maximum accumulated from zero is never pinned
/// at an artificial zero.
pub proof fn lemma_tree_max_duration_nonneg(p: Plan)
    requires
        tree_inputs_ok(p),
    ensures
        max_duration_over(nodes_of_tree(p)) >= 0,
{
    let a = nodes_of_seq(p.plans@);
    if p.plans@.len() == 0 {
        lemma_leaf_duration_nonneg(p);
        assert(nodes_of_tree(p)[0] == p);
        lemma_max_duration_over_ge(nodes_of_tree(p), 0);
    } else {
        lemma_seq_max_duration_nonneg(p.plans@);
        lemma_max_concat(seq![p], a);
    }
}

/// A document whose accumulators start at zero ends the annotator's walk
/// with each maximum equal to the true maximum of the corresponding
/// exclusive metric over all nodes, the root included.
pub proof fn lemma_final_maxima_are_true_maxima(d: DocStats, p: Plan)
    requires
        tree_inputs_ok(p),
        d.max_rows == 0,
        d.max_cost == 0,
        d.max_duration == 0,
    ensures
        doc_after_tree(d, p).max_cost == max_cost_over(nodes_of_tree(p)),
        doc_after_tree(d, p).max_rows == max_rows_over(nodes_of_tree(p)),
        doc_after_tree(d, p).max_duration == max_duration_over(nodes_of_tree(p)),
{
    lemma_doc_after_tree_char(d, p);
    lemma_max_cost_rows_over_nonneg(nodes_of_tree(p));
    lemma_tree_max_duration_nonneg(p);
}

/// Exclusive cost is non-negative at every node of a subtree.
pub open spec fn all_excl_costs_nonneg(p: Plan) -> bool
    decreases p,
{
    &&& p.actual_cost >= 0
    &&& forall|i: int|
        0 <= i < p.plans@.len() ==> all_excl_costs_nonneg(#[trigger] p.plans@[i])
}

/// After the annotator runs, every node's exclusive cost is non-negative:
/// the subtraction of child costs is clamped at zero.
pub proof fn lemma_exclusive_costs_nonneg(orig: Plan, new: Plan, d: Explain)
    requires
        crate::processed_tree(orig, new, d),
    ensures
        all_excl_costs_nonneg(new),
    decreases orig,
{
    assert forall|i: int| 0 <= i < new.plans@.len() implies all_excl_costs_nonneg(
        #[trigger] new.plans@[i],
    ) by {
        lemma_exclusive_costs_nonneg(orig.plans@[i], new.plans@[i], d);
    }
}

proof fn lemma_non_cte_remove_cte(s: Seq<Plan>, i: int)
    requires
        0 <= i < s.len(),
        spec_is_cte_scan(s[i]),
    ensures
        non_cte_cost(s.remove(i)) == non_cte_cost(s),
        non_cte_time(s.remove(i)) == non_cte_time(s),
    decreases i,
{
    if i == 0 {
        assert(s.remove(0) =~= s.drop_first());
    } else {
        lemma_non_cte_remove_cte(s.drop_first(), i - 1);
        assert(s.remove(i)[0] == s[0]);
        assert(s.remove(i).drop_first() =~= s.drop_first().remove(i - 1));
        assert(s.drop_first()[i - 1] == s[i]);
    }
}

/// A CTE-Scan child contributes nothing to its parent's exclusive-metric
/// subtraction: a parent with such a child has the same exclusive cost and
/// duration as the same parent with that child removed.
pub proof fn lemma_cte_scan_child_excluded(with_child: Plan, without_child: Plan, i: int)
    requires
        0 <= i < with_child.plans@.len(),
        spec_is_cte_scan(with_child.plans@[i]),
        without_child.total_cost == with_child.total_cost,
        without_child.actual_total_time == with_child.actual_total_time,
        without_child.actual_loops == with_child.actual_loops,
        without_child.plans@ == with_child.plans@.remove(i),
    ensures
        excl_cost(without_child) == excl_cost(with_child),
        excl_duration(without_child) == excl_duration(with_child),
{
    lemma_non_cte_remove_cte(with_child.plans@, i);
}

/// `b` is `a` with only derived fields (exclusive metrics, estimate fields,
/// outlier flags) changed, at every node.
pub open spec fn same_inputs(a: Plan, b: Plan) -> bool
    decreases a,
{
    &&& b == (Plan {
        actual_cost: b.actual_cost,
        actual_duration: b.actual_duration,
        planner_row_estimate_direction: b.planner_row_estimate_direction,
        planner_row_estimate_factor: b.planner_row_estimate_factor,
        costliest: b.costliest,
        largest: b.largest,
        slowest: b.slowest,
        plans: b.plans,
        ..a
    })
    &&& b.plans@.len() == a.plans@.len()
    &&& forall|i: int| 0 <= i < a.plans@.len() ==> same_inputs(a.plans@[i], #[trigger] b.plans@[i])
}

/// Both analysis passes leave every engine-reported input field unchanged.
pub proof fn lemma_processed_same_inputs(orig: Plan, new: Plan, d: Explain)
    requires
        crate::processed_tree(orig, new, d),
    ensures
        same_inputs(orig, new),
    decreases orig,
{
    assert forall|i: int| 0 <= i < orig.plans@.len() implies same_inputs(
        orig.plans@[i],
        #[trigger] new.plans@[i],
    ) by {
        lemma_processed_same_inputs(orig.plans@[i], new.plans@[i], d);
    }
}

proof fn lemma_same_inputs_non_cte(sa: Seq<Plan>, sb: Seq<Plan>)
    requires
        sb.len() == sa.len(),
        forall|i: int| 0 <= i < sa.len() ==> same_inputs(sa[i], #[trigger] sb[i]),
    ensures
        non_cte_cost(sb) == non_cte_cost(sa),
        non_cte_time(sb) == non_cte_time(sa),
    decreases sa,
{
    if sa.len() > 0 {
        assert(same_inputs(sa[0], sb[0]));
        assert forall|i: int| 0 <= i < sa.drop_first().len() implies same_inputs(
            sa.drop_first()[i],
            #[trigger] sb.drop_first()[i],
        ) by {
            assert(sa.drop_first()[i] == sa[i + 1]);
            assert(sb.drop_first()[i] == sb[i + 1]);
        }
        lemma_same_inputs_non_cte(sa.drop_first(), sb.drop_first());
    }
}

proof fn lemma_same_inputs_doc_seq(d: DocStats, sa: Seq<Plan>, sb: Seq<Plan>)
    requires
        sb.len() == sa.len(),
        forall|i: int| 0 <= i < sa.len() ==> same_inputs(sa[i], #[trigger] sb[i]),
    ensures
        doc_after_seq(d, sb) == doc_after_seq(d, sa),
    decreases sa,
{
    if sa.len() > 0 {
        assert(same_inputs(sa[0], sb[0]));
        lemma_same_inputs_non_cte(sa[0].plans@, sb[0].plans@);
        assert(excl_cost(sb[0]) == excl_cost(sa[0]));
        assert(excl_duration(sb[0]) == excl_duration(sa[0]));
        assert(doc_after_node(d, sb[0]) == doc_after_node(d, sa[0]));
        lemma_same_inputs_doc_seq(doc_after_node(d, sa[0]), sa[0].plans@, sb[0].plans@);
        assert forall|i: int| 0 <= i < sa.drop_first().len() implies same_inputs(
            sa.drop_first()[i],
            #[trigger] sb.drop_first()[i],
        ) by {
            assert(sa.drop_first()[i] == sa[i + 1]);
            assert(sb.drop_first()[i] == sb[i + 1]);
        }
        lemma_same_inputs_doc_seq(
            doc_after_seq(doc_after_node(d, sa[0]), sa[0].plans@),
            sa.drop_first(),
            sb.drop_first(),
        );
    }
}

/// A tree with the same inputs drives the document accumulators to the same
/// place.
pub proof fn lemma_same_inputs_doc_tree(d: DocStats, a: Plan, b: Plan)
    requires
        same_inputs(a, b),
    ensures
        doc_after_tree(d, b) == doc_after_tree(d, a),
{
    lemma_same_inputs_non_cte(a.plans@, b.plans@);
    lemma_same_inputs_doc_seq(doc_after_node(d, a), a.plans@, b.plans@);
}

/// Running the annotator a second time over an already annotated document
/// is not idempotent: the running total-cost accumulator starts from the
/// first run's total and doubles.  (A tree whose every node has zero
/// exclusive cost is the one family of inputs where the two runs agree, so
/// it is excluded here.)
pub proof fn lemma_annotator_not_idempotent(e0: Explain, e1: Explain, e2: Explain)
    requires
        crate::explain::doc_stats(e1) == doc_after_tree(crate::explain::doc_stats(e0), e0.plan),
        crate::processed_tree(e0.plan, e1.plan, e1),
        crate::explain::doc_stats(e2) == doc_after_tree(crate::explain::doc_stats(e1), e1.plan),
        e0.total_cost == 0,
        sum_excl_over(nodes_of_tree(e0.plan)) > 0,
    ensures
        e1.total_cost == sum_excl_over(nodes_of_tree(e0.plan)),
        e2.total_cost == 2 * sum_excl_over(nodes_of_tree(e0.plan)),
        e2.total_cost != e1.total_cost,
{
    lemma_total_cost_is_sum_of_exclusive(crate::explain::doc_stats(e0), e0.plan);
    lemma_processed_same_inputs(e0.plan, e1.plan, e1);
    lemma_same_inputs_doc_tree(crate::explain::doc_stats(e1), e0.plan, e1.plan);
    lemma_total_cost_is_sum_of_exclusive(crate::explain::doc_stats(e1), e0.plan);
}

} // verus!
