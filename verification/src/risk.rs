//! Pre-trade risk limits and the historical value-at-risk estimate.

use vstd::prelude::*;
use vstd::relations::{sorted_by, total_ordering};
use vstd::seq_lib::{to_multiset_build, to_multiset_insert};
use vstd::seq_lib::lemma_sorted_unique;

verus! {

/// Ascending order on scaled returns.
pub open spec fn ascending() -> spec_fn(i64, i64) -> bool {
    |a: i64, b: i64| a <= b
}

/// The ascending rearrangement of a return series.
pub open spec fn sorted_returns(s: Seq<i64>) -> Seq<i64> {
    s.sort_by(ascending())
}

/// Index of the empirical 5th percentile in an ascending series of `len`
/// samples: the floor of `len * 0.05`.
pub open spec fn var_index(len: nat) -> int {
    len as int / 20
}

/// Below this sample count the estimator reports no risk figure at all.
pub const MIN_VAR_SAMPLE: usize = 30;

proof fn lemma_ascending_total()
    ensures
        total_ordering(ascending()),
{
    let le = ascending();
    assert forall|x: i64| #[trigger] le(x, x) by {}
    assert forall|x: i64, y: i64| #[trigger] le(x, y) && #[trigger] le(y, x) implies x == y by {}
    assert forall|x: i64, y: i64, z: i64| #[trigger] le(x, y) && #[trigger] le(y, z) implies le(
        x,
        z,
    ) by {}
    assert forall|x: i64, y: i64| #[trigger] le(x, y) || #[trigger] le(y, x) by {}
}

/// Sorts a return series ascending; the result is exactly the sorted
/// rearrangement of the input.
fn sort_ascending(v: &Vec<i64>) -> (out: Vec<i64>)
    ensures
        out@ == sorted_returns(v@),
        out@.len() == v@.len(),
{
    let n = v.len();
    let mut out: Vec<i64> = Vec::new();
    let mut i: usize = 0;
    proof {
        assert(v@.subrange(0, 0) =~= Seq::<i64>::empty());
    }
    while i < n
        invariant
            n == v@.len(),
            i <= n,
            out@.len() == i,
            sorted_by(out@, ascending()),
            out@.to_multiset() == v@.subrange(0, i as int).to_multiset(),
        decreases n - i,
    {
        let x = v[i];
        let mut j: usize = out.len();
        while j > 0 && out[j - 1] > x
            invariant
                j <= out@.len(),
                forall|k: int| j <= k < out@.len() ==> out@[k] > x,
            decreases j,
        {
            j -= 1;
        }
        let ghost pre = out@;
        out.insert(j, x);
        proof {
            let le = ascending();
            assert(out@ == pre.insert(j as int, x));
            assert forall|p: int, q: int| 0 <= p < q < out@.len() implies #[trigger] le(
                out@[p],
                out@[q],
            ) by {
                if q < j as int {
                    assert(le(pre[p], pre[q]));
                } else if p > j as int {
                    assert(le(pre[p - 1], pre[q - 1]));
                } else if p < j as int && q == j as int {
                    assert(out@[p] == pre[p]);
                    assert(j as int - 1 < pre.len());
                    if p < j as int - 1 {
                        assert(le(pre[p], pre[j as int - 1]));
                    }
                    assert(pre[j as int - 1] <= x);
                } else if p == j as int {
                    assert(out@[p] == x);
                    assert(out@[q] == pre[q - 1]);
                    assert(pre[q - 1] > x);
                } else if p < j as int && q > j as int {
                    assert(out@[p] == pre[p]);
                    assert(out@[q] == pre[q - 1]);
                    assert(pre[q - 1] > x);
                    assert(pre[p] <= x || le(pre[p], pre[q - 1]));
                    if j as int <= p {
                    } else {
                        if p <= j as int - 1 && j as int - 1 <= pre.len() {
                            if p < j as int - 1 {
                                assert(le(pre[p], pre[j as int - 1]));
                            }
                            assert(pre[j as int - 1] <= x);
                        }
                    }
                }
            }
            assert(sorted_by(out@, ascending()));
            assert(v@.subrange(0, i as int + 1) =~= v@.subrange(0, i as int).push(v@[i as int]));
            to_multiset_insert(pre, j as int, x);
            to_multiset_build(v@.subrange(0, i as int), v@[i as int]);
            assert(out@.to_multiset() =~= v@.subrange(0, i as int + 1).to_multiset());
        }
        i += 1;
    }
    proof {
        assert(v@.subrange(0, n as int) =~= v@);
        lemma_ascending_total();
        v@.lemma_sort_by_ensures(ascending());
        lemma_sorted_unique(out@, v@.sort_by(ascending()), ascending());
        assert(out@ =~= sorted_returns(v@));
    }
    out
}

/// Pre-trade limit checks and the value-at-risk estimator.
///
/// The limits are fixed at construction and read-only afterwards; both
/// checks are pure functions of their inputs, so concurrent callers need
/// no synchronization around this type.
pub struct RiskEngine {
    max_position: i64,
    max_drawdown_bp: i64,
}

impl RiskEngine {
    /// Largest net exposure, long or short, a trade may leave behind.
    pub closed spec fn spec_max_position(&self) -> int {
        self.max_position as int
    }

    /// Maximum tolerated drawdown, in basis points.
    pub closed spec fn spec_max_drawdown_bp(&self) -> int {
        self.max_drawdown_bp as int
    }

    /// The default limits: at most 1000 shares of net exposure and a 5%
    /// (500 basis point) drawdown tolerance.
    pub fn new() -> (gate: RiskEngine)
        ensures
            gate.spec_max_position() == 1000,
            gate.spec_max_drawdown_bp() == 500,
    {
        RiskEngine { max_position: 1000, max_drawdown_bp: 500 }
    }

    /// Approves a proposed quantity unless it would leave the net
    /// exposure beyond the position limit: approved exactly when
    /// `|current_pos + proposed_qty| <= max_position`.
    ///
    /// Pure function of its inputs; no state is read besides the fixed
    /// limits and none is written.
    pub fn check_pre_trade(&self, _symbol: &str, proposed_qty: i64, current_pos: i64) -> (approved:
        bool)
        ensures
            approved <==> -self.spec_max_position() <= current_pos + proposed_qty
                <= self.spec_max_position(),
    {
        let next: i128 = current_pos as i128 + proposed_qty as i128;
        let limit: i128 = self.max_position as i128;
        -limit <= next && next <= limit
    }

    /// Historical-simulation 95% value-at-risk over a series of scaled
    /// returns.
    ///
    /// With fewer than `MIN_VAR_SAMPLE` samples the estimator reports `0`
    /// exactly (a defined fallback, not an error). Otherwise it reports
    /// the element of the ascending rearrangement at the index
    /// `floor(len * 0.05)`, the empirical 5th-percentile return; the
    /// index is clamped so the lookup can never leave the series.
    pub fn calculate_var(&self, series: &Vec<i64>) -> (var: i64)
        ensures
            series@.len() < MIN_VAR_SAMPLE ==> var == 0,
            series@.len() >= MIN_VAR_SAMPLE ==> var == sorted_returns(series@)[var_index(
                series@.len(),
            )],
    {
        if series.len() < MIN_VAR_SAMPLE {
            return 0;
        }
        let sorted = sort_ascending(series);
        let idx: usize = series.len() / 20;
        if idx < sorted.len() {
            sorted[idx]
        } else {
            0
        }
    }
}

} // verus!
