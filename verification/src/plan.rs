use vstd::prelude::*;

verus! {

/// One node of a query execution plan, as reported by the database engine.
///
/// Monetary-style metrics (costs) are held in hundredths of a cost unit and
/// time metrics in thousandths of a millisecond, so that the analysis is
/// exact integer arithmetic.  The engine-reported fields are inputs; the
/// fields `actual_cost`, `actual_duration`, the estimate fields and the three
/// outlier flags are derived by the analysis passes.
#[derive(Debug)]
pub struct Plan {
    /// Derived: exclusive (self-only) cost, in hundredths of a cost unit.
    pub actual_cost: i64,
    /// Derived: exclusive (self-only) duration, in thousandths of a millisecond.
    pub actual_duration: i64,
    pub actual_loops: u64,
    pub actual_rows: u64,
    /// Thousandths of a millisecond.
    pub actual_startup_time: i64,
    /// Cumulative (subtree-inclusive) time, in thousandths of a millisecond.
    pub actual_total_time: i64,
    pub alias: String,
    pub costliest: bool,
    pub cte_name: String,
    pub filter: String,
    pub group_key: Vec<String>,
    pub hash_condition: String,
    pub heap_fetches: u64,
    pub index_condition: String,
    pub index_name: String,
    /// Thousandths of a millisecond.
    pub io_read_time: i64,
    /// Thousandths of a millisecond.
    pub io_write_time: i64,
    pub join_type: String,
    pub largest: bool,
    pub local_dirtied_blocks: u64,
    pub local_hit_blocks: u64,
    pub local_read_blocks: u64,
    pub local_written_blocks: u64,
    pub node_type: String,
    pub output: Vec<String>,
    pub parent_relationship: String,
    pub planner_row_estimate_direction: String,
    pub planner_row_estimate_factor: Factor,
    pub plan_rows: u64,
    pub plan_width: u64,
    pub relation_name: String,
    pub rows_removed_by_filter: u64,
    pub rows_removed_by_index_recheck: u64,
    pub scan_direction: String,
    pub schema: String,
    pub shared_dirtied_blocks: u64,
    pub shared_hit_blocks: u64,
    pub shared_read_blocks: u64,
    pub shared_written_blocks: u64,
    pub slowest: bool,
    /// Hundredths of a cost unit.
    pub startup_cost: i64,
    pub strategy: String,
    pub temp_read_blocks: u64,
    pub temp_written_blocks: u64,
    /// Cumulative (subtree-inclusive) cost, in hundredths of a cost unit.
    pub total_cost: i64,
    pub plans: Vec<Plan>,
}

/// The planner's row-estimate error factor, kept as an exact ratio.
/// A zero factor is represented with `num == 0`; `den` is always positive.
#[derive(Debug, Clone, Copy, PartialEq, Eq, Structural)]
pub struct Factor {
    pub num: u64,
    pub den: u64,
}

impl Factor {
    /// The factor that stands for "no estimate error".
    pub fn zero() -> (r: Factor)
        ensures
            r == (Factor { num: 0, den: 1 }),
    {
        Factor { num: 0, den: 1 }
    }

    pub open spec fn spec_is_zero(self) -> bool {
        self.num == 0
    }

    /// Whether the factor stands for "no estimate error".
    pub fn is_zero(&self) -> (r: bool)
        ensures
            r == self.spec_is_zero(),
    {
        self.num == 0
    }

    pub open spec fn spec_at_least(self, bound: u64) -> bool {
        self.num >= bound * self.den
    }

    /// Whether the factor's value is at least `bound`.
    pub fn at_least(&self, bound: u64) -> (r: bool)
        requires
            self.den > 0,
        ensures
            r == self.spec_at_least(bound),
    {
        proof {
            assert((bound as u128) * (self.den as u128) < u128::MAX) by (nonlinear_arith)
                requires
                    bound <= u64::MAX && self.den <= u64::MAX,
            ;
        }
        (self.num as u128) >= (bound as u128) * (self.den as u128)
    }
}

/// A `Plan` whose every field holds its zero value: absent input fields
/// default to this, by the decoding contract.
pub open spec fn is_default_plan(p: Plan) -> bool {
    &&& p.actual_cost == 0
    &&& p.actual_duration == 0
    &&& p.actual_loops == 0
    &&& p.actual_rows == 0
    &&& p.actual_startup_time == 0
    &&& p.actual_total_time == 0
    &&& p.alias@ == Seq::<char>::empty()
    &&& p.costliest == false
    &&& p.cte_name@ == Seq::<char>::empty()
    &&& p.filter@ == Seq::<char>::empty()
    &&& p.group_key@ == Seq::<String>::empty()
    &&& p.hash_condition@ == Seq::<char>::empty()
    &&& p.heap_fetches == 0
    &&& p.index_condition@ == Seq::<char>::empty()
    &&& p.index_name@ == Seq::<char>::empty()
    &&& p.io_read_time == 0
    &&& p.io_write_time == 0
    &&& p.join_type@ == Seq::<char>::empty()
    &&& p.largest == false
    &&& p.local_dirtied_blocks == 0
    &&& p.local_hit_blocks == 0
    &&& p.local_read_blocks == 0
    &&& p.local_written_blocks == 0
    &&& p.node_type@ == Seq::<char>::empty()
    &&& p.output@ == Seq::<String>::empty()
    &&& p.parent_relationship@ == Seq::<char>::empty()
    &&& p.planner_row_estimate_direction@ == Seq::<char>::empty()
    &&& p.planner_row_estimate_factor == (Factor { num: 0, den: 1 })
    &&& p.plan_rows == 0
    &&& p.plan_width == 0
    &&& p.relation_name@ == Seq::<char>::empty()
    &&& p.rows_removed_by_filter == 0
    &&& p.rows_removed_by_index_recheck == 0
    &&& p.scan_direction@ == Seq::<char>::empty()
    &&& p.schema@ == Seq::<char>::empty()
    &&& p.shared_dirtied_blocks == 0
    &&& p.shared_hit_blocks == 0
    &&& p.shared_read_blocks == 0
    &&& p.shared_written_blocks == 0
    &&& p.slowest == false
    &&& p.startup_cost == 0
    &&& p.strategy@ == Seq::<char>::empty()
    &&& p.temp_read_blocks == 0
    &&& p.temp_written_blocks == 0
    &&& p.total_cost == 0
    &&& p.plans@ == Seq::<Plan>::empty()
}

impl Default for Plan {
    /// The all-zero node that absent input fields decode to.
    fn default() -> (r: Plan)
        ensures
            is_default_plan(r),
    {
        Plan {
            actual_cost: 0,
            actual_duration: 0,
            actual_loops: 0,
            actual_rows: 0,
            actual_startup_time: 0,
            actual_total_time: 0,
            alias: String::new(),
            costliest: false,
            cte_name: String::new(),
            filter: String::new(),
            group_key: Vec::new(),
            hash_condition: String::new(),
            heap_fetches: 0,
            index_condition: String::new(),
            index_name: String::new(),
            io_read_time: 0,
            io_write_time: 0,
            join_type: String::new(),
            largest: false,
            local_dirtied_blocks: 0,
            local_hit_blocks: 0,
            local_read_blocks: 0,
            local_written_blocks: 0,
            node_type: String::new(),
            output: Vec::new(),
            parent_relationship: String::new(),
            planner_row_estimate_direction: String::new(),
            planner_row_estimate_factor: Factor { num: 0, den: 1 },
            plan_rows: 0,
            plan_width: 0,
            relation_name: String::new(),
            rows_removed_by_filter: 0,
            rows_removed_by_index_recheck: 0,
            scan_direction: String::new(),
            schema: String::new(),
            shared_dirtied_blocks: 0,
            shared_hit_blocks: 0,
            shared_read_blocks: 0,
            shared_written_blocks: 0,
            slowest: false,
            startup_cost: 0,
            strategy: String::new(),
            temp_read_blocks: 0,
            temp_written_blocks: 0,
            total_cost: 0,
            plans: Vec::new(),
        }
    }
}

/// The plan-node type whose cumulative figures the engine reports
/// independently, so they are never subtracted from a parent.
pub open spec fn spec_is_cte_scan(p: Plan) -> bool {
    p.node_type@ == "CTE Scan"@
}

/// Whether a node reads from a materialized common table expression.
pub fn is_cte_scan(p: &Plan) -> (r: bool)
    ensures
        r == spec_is_cte_scan(*p),
{
    crate::text::str_eq(p.node_type.as_str(), "CTE Scan")
}

/// Sum of `total_cost` over the children of a node that are not CTE scans:
/// exactly what the annotator subtracts from the node's cumulative cost.
pub open spec fn non_cte_cost(s: Seq<Plan>) -> int
    decreases s.len(),
{
    if s.len() == 0 {
        0
    } else {
        (if spec_is_cte_scan(s[0]) {
            0
        } else {
            s[0].total_cost as int
        }) + non_cte_cost(s.drop_first())
    }
}

/// Sum of `actual_total_time` over the children of a node that are not CTE
/// scans.
pub open spec fn non_cte_time(s: Seq<Plan>) -> int
    decreases s.len(),
{
    if s.len() == 0 {
        0
    } else {
        (if spec_is_cte_scan(s[0]) {
            0
        } else {
            s[0].actual_total_time as int
        }) + non_cte_time(s.drop_first())
    }
}

/// Exclusive cost of a node: its cumulative cost minus the cumulative costs
/// of its non-CTE children, clamped at zero.
pub open spec fn excl_cost(p: Plan) -> int {
    vstd::math::max(0, p.total_cost - non_cte_cost(p.plans@))
}

/// Exclusive duration of a node before scaling by the loop count.
pub open spec fn excl_duration_base(p: Plan) -> int {
    p.actual_total_time - non_cte_time(p.plans@)
}

/// Exclusive duration of a node: the per-loop exclusive time scaled by the
/// number of loops.
pub open spec fn excl_duration(p: Plan) -> int {
    excl_duration_base(p) * p.actual_loops
}

/// Bound on the per-node loop count that the analysis accepts; keeps the
/// duration scaling inside `i64`.
pub const MAX_LOOPS: u64 = 1000000;

/// Bound on the sum of all cumulative costs in a tree (hundredths).
pub const MAX_COST_SUM: i64 = 1000000000000;

/// Bound on the sum of all cumulative times in a tree (thousandths of a ms).
pub const MAX_TIME_SUM: i64 = 1000000000000;

/// Machine bounds on one node's engine-reported inputs.
pub open spec fn node_inputs_ok(p: Plan) -> bool {
    &&& 0 <= p.startup_cost
    &&& 0 <= p.total_cost
    &&& 0 <= p.actual_startup_time
    &&& 0 <= p.actual_total_time
    &&& p.actual_loops <= MAX_LOOPS
}

pub open spec fn seq_inputs_ok(s: Seq<Plan>) -> bool
    decreases s,
{
    if s.len() == 0 {
        true
    } else {
        node_inputs_ok(s[0]) && seq_inputs_ok(s[0].plans@) && seq_inputs_ok(s.drop_first())
    }
}

/// Machine bounds on every node of a tree.
pub open spec fn tree_inputs_ok(p: Plan) -> bool {
    node_inputs_ok(p) && seq_inputs_ok(p.plans@)
}

pub open spec fn seq_subtree_cost(s: Seq<Plan>) -> int
    decreases s,
{
    if s.len() == 0 {
        0
    } else {
        s[0].total_cost + seq_subtree_cost(s[0].plans@) + seq_subtree_cost(s.drop_first())
    }
}

/// Sum of the cumulative costs of every node in a subtree.
pub open spec fn subtree_cost(p: Plan) -> int {
    p.total_cost + seq_subtree_cost(p.plans@)
}

pub open spec fn seq_subtree_time(s: Seq<Plan>) -> int
    decreases s,
{
    if s.len() == 0 {
        0
    } else {
        s[0].actual_total_time + seq_subtree_time(s[0].plans@) + seq_subtree_time(s.drop_first())
    }
}

/// Sum of the cumulative times of every node in a subtree.
pub open spec fn subtree_time(p: Plan) -> int {
    p.actual_total_time + seq_subtree_time(p.plans@)
}

pub proof fn lemma_seq_inputs_ok_all(s: Seq<Plan>)
    requires
        seq_inputs_ok(s),
    ensures
        forall|i: int| 0 <= i < s.len() ==> node_inputs_ok(#[trigger] s[i]),
        forall|i: int| 0 <= i < s.len() ==> seq_inputs_ok(#[trigger] s[i].plans@),
    decreases s,
{
    if s.len() > 0 {
        lemma_seq_inputs_ok_all(s.drop_first());
        assert forall|i: int| 0 <= i < s.len() implies node_inputs_ok(#[trigger] s[i]) by {
            if i > 0 {
                assert(s.drop_first()[i - 1] == s[i]);
            }
        }
        assert forall|i: int| 0 <= i < s.len() implies seq_inputs_ok(#[trigger] s[i].plans@) by {
            if i > 0 {
                assert(s.drop_first()[i - 1] == s[i]);
            }
        }
    }
}

pub proof fn lemma_non_cte_nonneg(s: Seq<Plan>)
    requires
        forall|i: int| 0 <= i < s.len() ==> node_inputs_ok(#[trigger] s[i]),
    ensures
        0 <= non_cte_cost(s),
        0 <= non_cte_time(s),
    decreases s,
{
    if s.len() > 0 {
        assert forall|i: int| 0 <= i < s.drop_first().len() implies node_inputs_ok(
            #[trigger] s.drop_first()[i],
        ) by {
            assert(s.drop_first()[i] == s[i + 1]);
        }
        lemma_non_cte_nonneg(s.drop_first());
    }
}

/// The non-CTE sums split at any index into a prefix part and a suffix part.
pub proof fn lemma_non_cte_split(s: Seq<Plan>, i: int)
    requires
        0 <= i <= s.len(),
    ensures
        non_cte_cost(s) == non_cte_cost(s.take(i)) + non_cte_cost(s.skip(i)),
        non_cte_time(s) == non_cte_time(s.take(i)) + non_cte_time(s.skip(i)),
    decreases i,
{
    if i == 0 {
        assert(s.take(0) =~= Seq::<Plan>::empty());
        assert(s.skip(0) =~= s);
    } else {
        lemma_non_cte_split(s.drop_first(), i - 1);
        assert(s.take(i).drop_first() =~= s.drop_first().take(i - 1));
        assert(s.skip(i) =~= s.drop_first().skip(i - 1));
        assert(s.take(i)[0] == s[0]);
    }
}

pub proof fn lemma_seq_subtree_nonneg(s: Seq<Plan>)
    requires
        seq_inputs_ok(s),
    ensures
        0 <= seq_subtree_cost(s),
        0 <= seq_subtree_time(s),
    decreases s,
{
    if s.len() > 0 {
        lemma_seq_subtree_nonneg(s[0].plans@);
        lemma_seq_subtree_nonneg(s.drop_first());
    }
}

/// What the annotator subtracts for a node is at most the combined
/// cumulative weight of the node's child subtrees.
pub proof fn lemma_non_cte_le_subtree(s: Seq<Plan>)
    requires
        seq_inputs_ok(s),
    ensures
        non_cte_cost(s) <= seq_subtree_cost(s),
        non_cte_time(s) <= seq_subtree_time(s),
    decreases s,
{
    if s.len() > 0 {
        lemma_seq_subtree_nonneg(s[0].plans@);
        lemma_non_cte_le_subtree(s.drop_first());
    }
}

pub proof fn lemma_seq_inputs_ok_skip(s: Seq<Plan>, i: int)
    requires
        seq_inputs_ok(s),
        0 <= i <= s.len(),
    ensures
        seq_inputs_ok(s.skip(i)),
    decreases i,
{
    if i == 0 {
        assert(s.skip(0) =~= s);
    } else {
        lemma_seq_inputs_ok_skip(s.drop_first(), i - 1);
        assert(s.skip(i) =~= s.drop_first().skip(i - 1));
    }
}

/// The subtree sums split at any index into a prefix part and a suffix
/// part.
pub proof fn lemma_seq_subtree_split(s: Seq<Plan>, i: int)
    requires
        0 <= i <= s.len(),
    ensures
        seq_subtree_cost(s) == seq_subtree_cost(s.take(i)) + seq_subtree_cost(s.skip(i)),
        seq_subtree_time(s) == seq_subtree_time(s.take(i)) + seq_subtree_time(s.skip(i)),
    decreases i,
{
    if i == 0 {
        assert(s.take(0) =~= Seq::<Plan>::empty());
        assert(s.skip(0) =~= s);
    } else {
        lemma_seq_subtree_split(s.drop_first(), i - 1);
        assert(s.take(i).drop_first() =~= s.drop_first().take(i - 1));
        assert(s.skip(i) =~= s.drop_first().skip(i - 1));
        assert(s.take(i)[0] == s[0]);
        assert(s.take(i)[0].plans@ == s[0].plans@);
    }
}

/// Each element's subtree weighs no more than the whole sibling list.
pub proof fn lemma_seq_subtree_index(s: Seq<Plan>, i: int)
    requires
        seq_inputs_ok(s),
        0 <= i < s.len(),
    ensures
        tree_inputs_ok(s[i]),
        subtree_cost(s[i]) <= seq_subtree_cost(s),
        subtree_time(s[i]) <= seq_subtree_time(s),
    decreases i,
{
    if i == 0 {
        lemma_seq_subtree_nonneg(s.drop_first());
    } else {
        lemma_seq_subtree_index(s.drop_first(), i - 1);
        assert(s.drop_first()[i - 1] == s[i]);
        lemma_seq_subtree_nonneg(s[0].plans@);
    }
}

/// The whole precondition of the analysis: machine bounds per node and on
/// the tree-wide sums.
pub open spec fn analyzable(p: Plan) -> bool {
    &&& tree_inputs_ok(p)
    &&& subtree_cost(p) <= MAX_COST_SUM
    &&& subtree_time(p) <= MAX_TIME_SUM
}

pub proof fn lemma_seq_inputs_ok_concat(a: Seq<Plan>, b: Seq<Plan>)
    ensures
        seq_inputs_ok(a + b) == (seq_inputs_ok(a) && seq_inputs_ok(b)),
    decreases a,
{
    if a.len() == 0 {
        assert(a + b =~= b);
    } else {
        lemma_seq_inputs_ok_concat(a.drop_first(), b);
        assert((a + b).drop_first() =~= a.drop_first() + b);
        assert((a + b)[0] == a[0]);
    }
}

/// Walks a tree and either hands back its exact subtree sums, or reports
/// that the tree lies outside the analysis bounds.
fn check_tree(p: &Plan) -> (r: Option<(i64, i64)>)
    ensures
        match r {
            Some(sums) => analyzable(*p) && sums.0 == subtree_cost(*p) && sums.1 == subtree_time(
                *p,
            ),
            None => !analyzable(*p),
        },
    decreases *p,
{
    let node_ok: bool = p.startup_cost >= 0 && p.total_cost >= 0 && p.actual_startup_time >= 0
        && p.actual_total_time >= 0 && p.actual_loops <= MAX_LOOPS;
    if !node_ok {
        return None;
    }
    let ghost s = p.plans@;
    let n: usize = p.plans.len();
    let mut cost_sum: i64 = 0;
    let mut time_sum: i64 = 0;
    let mut i: usize = 0;
    proof {
        assert(s.take(0) =~= Seq::<Plan>::empty());
    }
    while i < n
        invariant
            i <= n,
            n == s.len(),
            s == p.plans@,
            node_inputs_ok(*p),
            seq_inputs_ok(s.take(i as int)),
            cost_sum == seq_subtree_cost(s.take(i as int)),
            time_sum == seq_subtree_time(s.take(i as int)),
            0 <= cost_sum <= MAX_COST_SUM,
            0 <= time_sum <= MAX_TIME_SUM,
        decreases n - i,
    {
        let child: &Plan = &p.plans[i];
        let checked: Option<(i64, i64)> = check_tree(child);
        match checked {
            None => {
                proof {
                    if analyzable(*p) {
                        lemma_seq_inputs_ok_all(s);
                        lemma_seq_subtree_index(s, i as int);
                        lemma_seq_subtree_nonneg(s);
                        assert(analyzable(s[i as int]));
                    }
                }
                return None;
            },
            Some(sums) => {
                let (cc, ct): (i64, i64) = sums;
                proof {
                    lemma_seq_subtree_nonneg(s[i as int].plans@);
                }
                if cc > MAX_COST_SUM - cost_sum || ct > MAX_TIME_SUM - time_sum {
                    proof {
                        if analyzable(*p) {
                            lemma_non_cte_split(s, i as int);
                            lemma_seq_subtree_split(s, i as int);
                            lemma_seq_inputs_ok_skip(s, i + 1);
                            lemma_seq_subtree_nonneg(s.skip(i + 1));
                            assert(s.skip(i as int)[0] == s[i as int]);
                            assert(s.skip(i as int).drop_first() =~= s.skip(i + 1));
                            assert(seq_subtree_cost(s.skip(i as int)) == subtree_cost(
                                s[i as int],
                            ) + seq_subtree_cost(s.skip(i + 1)));
                            assert(seq_subtree_time(s.skip(i as int)) == subtree_time(
                                s[i as int],
                            ) + seq_subtree_time(s.skip(i + 1)));
                        }
                    }
                    return None;
                }
                cost_sum = cost_sum + cc;
                time_sum = time_sum + ct;
                proof {
                    assert(s.take(i + 1) =~= s.take(i as int) + seq![s[i as int]]);
                    lemma_seq_inputs_ok_concat(s.take(i as int), seq![s[i as int]]);
                    assert(seq![s[i as int]].drop_first() =~= Seq::<Plan>::empty());
                    assert(seq![s[i as int]][0] == s[i as int]);
                    assert(seq_inputs_ok(Seq::<Plan>::empty()));
                    assert(seq_inputs_ok(seq![s[i as int]]));
                    assert(seq_inputs_ok(s.take(i + 1)));
                    assert(seq_subtree_cost(Seq::<Plan>::empty()) == 0);
                    assert(seq_subtree_time(Seq::<Plan>::empty()) == 0);
                    assert(seq_subtree_cost(seq![s[i as int]]) == subtree_cost(s[i as int]));
                    assert(seq_subtree_time(seq![s[i as int]]) == subtree_time(s[i as int]));
                    lemma_seq_subtree_split(s.take(i + 1), i as int);
                    assert(s.take(i + 1).take(i as int) =~= s.take(i as int));
                    assert(s.take(i + 1).skip(i as int) =~= seq![s[i as int]]);
                    assert(cost_sum == seq_subtree_cost(s.take(i + 1)));
                    assert(time_sum == seq_subtree_time(s.take(i + 1)));
                }
            },
        }
        i = i + 1;
    }
    proof {
        assert(s.take(n as int) =~= s);
    }
    if p.total_cost > MAX_COST_SUM - cost_sum || p.actual_total_time > MAX_TIME_SUM - time_sum {
        return None;
    }
    Some((p.total_cost + cost_sum, p.actual_total_time + time_sum))
}

/// Whether the tree is inside the machine bounds the analysis asks for.
pub fn is_analyzable(p: &Plan) -> (b: bool)
    ensures
        b == analyzable(*p),
{
    let checked: Option<(i64, i64)> = check_tree(p);
    match checked {
        Some(_) => true,
        None => false,
    }
}

/// `b` is `a` with only the estimate fields possibly changed.
pub open spec fn same_but_estimate(a: Plan, b: Plan) -> bool {
    b == (Plan {
        planner_row_estimate_direction: b.planner_row_estimate_direction,
        planner_row_estimate_factor: b.planner_row_estimate_factor,
        ..a
    })
}

/// `b` is `a` with only the exclusive-metric fields possibly changed.
pub open spec fn same_but_actuals(a: Plan, b: Plan) -> bool {
    b == (Plan { actual_cost: b.actual_cost, actual_duration: b.actual_duration, ..a })
}

/// `b` is `a` with only the outlier flags and the children possibly changed.
pub open spec fn same_but_flags_children(a: Plan, b: Plan) -> bool {
    b == (Plan {
        costliest: b.costliest,
        largest: b.largest,
        slowest: b.slowest,
        plans: b.plans,
        ..a
    })
}

} // verus!
