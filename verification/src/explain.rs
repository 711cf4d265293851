use vstd::prelude::*;
use crate::plan::Plan;
use crate::plan::excl_cost;
use crate::plan::excl_duration;
use crate::plan::MAX_TIME_SUM;
use crate::plan::MAX_COST_SUM;

verus! {

/// The root aggregate: the plan tree plus the document-wide accumulators
/// that the annotator fills in (running exclusive-cost total and the three
/// tree-wide maxima).
///
/// Costs are hundredths of a cost unit, times thousandths of a millisecond.
#[derive(Debug)]
pub struct Explain {
    pub plan: Plan,
    pub planning_time: i64,
    pub execution_time: i64,
    pub total_cost: i64,
    pub max_rows: u64,
    pub max_cost: i64,
    pub max_duration: i64,
}

/// The document-wide accumulators of an `Explain`, as mathematical integers.
pub struct DocStats {
    pub total_cost: int,
    pub max_rows: int,
    pub max_cost: int,
    pub max_duration: int,
}

pub open spec fn doc_stats(e: Explain) -> DocStats {
    DocStats {
        total_cost: e.total_cost as int,
        max_rows: e.max_rows as int,
        max_cost: e.max_cost as int,
        max_duration: e.max_duration as int,
    }
}

/// What one annotator visit of one node does to the accumulators: add the
/// node's exclusive cost to the running total and raise the three maxima.
pub open spec fn doc_after_node(d: DocStats, p: Plan) -> DocStats {
    DocStats {
        total_cost: d.total_cost + excl_cost(p),
        max_rows: vstd::math::max(d.max_rows, p.actual_rows as int),
        max_cost: vstd::math::max(d.max_cost, excl_cost(p)),
        max_duration: vstd::math::max(d.max_duration, excl_duration(p)),
    }
}

/// The accumulators after the annotator's pre-order, left-to-right walk of a
/// whole list of sibling subtrees.
pub open spec fn doc_after_seq(d: DocStats, s: Seq<Plan>) -> DocStats
    decreases s,
{
    if s.len() == 0 {
        d
    } else {
        doc_after_seq(doc_after_seq(doc_after_node(d, s[0]), s[0].plans@), s.drop_first())
    }
}

/// The accumulators after the annotator's walk of a whole tree.
pub open spec fn doc_after_tree(d: DocStats, p: Plan) -> DocStats {
    doc_after_seq(doc_after_node(d, p), p.plans@)
}

impl Default for Explain {
    /// A document with a default plan and all accumulators at zero.
    fn default() -> (r: Explain)
        ensures
            crate::plan::is_default_plan(r.plan),
            r.planning_time == 0,
            r.execution_time == 0,
            r.total_cost == 0,
            r.max_rows == 0,
            r.max_cost == 0,
            r.max_duration == 0,
    {
        Explain {
            plan: Plan::default(),
            planning_time: 0,
            execution_time: 0,
            total_cost: 0,
            max_rows: 0,
            max_cost: 0,
            max_duration: 0,
        }
    }
}

/// Machine bounds on the document-level inputs of the analysis.
pub open spec fn explain_inputs_ok(e: Explain) -> bool {
    &&& 0 <= e.planning_time <= MAX_TIME_SUM
    &&& 0 <= e.execution_time <= MAX_TIME_SUM
    &&& 0 <= e.total_cost <= MAX_COST_SUM
    &&& 0 <= e.max_cost
    &&& 0 <= e.max_duration
}

} // verus!
