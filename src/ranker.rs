//! Scoring and ranking of finished backtest reports.

use vstd::prelude::*;
use crate::analytics::{PerformanceReport, Ratio, RATIO_LIMIT};
use crate::fixed::{tdiv, tdiv_exec};

verus! {

/// Reports with fewer trades than this are left out of a ranking.
pub const MINIMUM_TRADES_THRESHOLD: u32 = 30;

/// The cap applied to the profit factor and the Sharpe ratio (5).
pub const METRIC_CAP: i128 = 500_000_000;

/// `x` capped at 5.
pub open spec fn capped(x: int) -> int {
    if x > METRIC_CAP {
        METRIC_CAP as int
    } else {
        x
    }
}

/// A ratio capped at 5; an unbounded one counts as 5.
pub open spec fn capped_ratio(r: Ratio) -> int {
    match r {
        Ratio::Finite(x) => capped(x as int),
        Ratio::Infinite => METRIC_CAP as int,
    }
}

/// `x` held within `±RATIO_LIMIT`, the range a score is computed over.
pub open spec fn bounded_metric(x: int) -> int {
    if x > RATIO_LIMIT {
        RATIO_LIMIT as int
    } else if x < -RATIO_LIMIT {
        -RATIO_LIMIT
    } else {
        x
    }
}

/// The score of a report, higher being better:
/// `40·min(pf, 5) + 30·min(sharpe, 5) − 35·(max_dd% / 100) + 15·calmar`,
/// each metric first held within `±RATIO_LIMIT` (10^22 whole units).
pub open spec fn score(r: PerformanceReport) -> int {
    40 * bounded_metric(capped_ratio(r.profit_factor)) + 30 * bounded_metric(capped(r.sharpe_ratio as int)) - tdiv(
        35 * bounded_metric(r.max_drawdown_percentage as int),
        100,
    ) + 15 * bounded_metric(r.calmar_ratio as int)
}

fn bound_metric(x: i128) -> (r: i128)
    ensures
        r == bounded_metric(x as int),
{
    if x > RATIO_LIMIT {
        RATIO_LIMIT
    } else if x < -RATIO_LIMIT {
        -RATIO_LIMIT
    } else {
        x
    }
}

/// The score of `report`.
pub fn calculate_score(report: &PerformanceReport) -> (s: i128)
    ensures
        s == score(*report),
{
    let pf: i128 = bound_metric(match report.profit_factor {
        Ratio::Finite(x) => if x > METRIC_CAP {
            METRIC_CAP
        } else {
            x
        },
        Ratio::Infinite => METRIC_CAP,
    });
    let sharpe: i128 = bound_metric(if report.sharpe_ratio > METRIC_CAP {
        METRIC_CAP
    } else {
        report.sharpe_ratio
    });
    let ddp = bound_metric(report.max_drawdown_percentage);
    let calmar = bound_metric(report.calmar_ratio);
    let dd = tdiv_exec(35 * ddp, 100);
    assert(-35 * RATIO_LIMIT <= dd <= 35 * RATIO_LIMIT) by (nonlinear_arith)
        requires
            dd == tdiv(35 * ddp, 100),
            -RATIO_LIMIT <= ddp <= RATIO_LIMIT,
    {
        let a = 35 * ddp;
        if a >= 0 {
            assert(a / 100 <= a) by (nonlinear_arith) requires a >= 0;
            assert(a / 100 >= 0) by (nonlinear_arith) requires a >= 0;
        } else {
            assert((-a) / 100 <= -a) by (nonlinear_arith) requires -a >= 0;
            assert((-a) / 100 >= 0) by (nonlinear_arith) requires -a >= 0;
        }
    }
    40 * pf + 30 * sharpe - dd + 15 * calmar
}

/// A report's place in a ranking: its score and its index in the input.
#[derive(Clone, Copy, Debug, PartialEq, Eq, Structural)]
pub struct RankedReport {
    pub score: i128,
    pub index: usize,
}

/// A report takes part in a ranking.
pub open spec fn qualifies(r: PerformanceReport) -> bool {
    r.total_trades >= MINIMUM_TRADES_THRESHOLD
}

/// `out` orders entries by score, highest first, and entries of equal
/// score by their index in the input.
pub open spec fn ranked_order(out: Seq<RankedReport>) -> bool {
    forall|j: int, k: int|
        0 <= j < k < out.len() ==> out[j].score > out[k].score || (out[j].score == out[k].score
            && out[j].index < out[k].index)
}

/// `out` ranks exactly the qualifying reports among the first `n` of `rs`,
/// each once, with its score.
pub open spec fn ranks_exactly(out: Seq<RankedReport>, rs: Seq<PerformanceReport>, n: int) -> bool {
    &&& forall|k: int| 0 <= k < out.len() ==> {
        let e = #[trigger] out[k];
        &&& 0 <= e.index < n
        &&& qualifies(rs[e.index as int])
        &&& e.score == score(rs[e.index as int])
    }
    &&& forall|i: int| 0 <= i < n && qualifies(rs[i]) ==> exists|k: int| 0 <= k < out.len() && #[trigger] out[k].index == i
    &&& forall|j: int, k: int| 0 <= j < k < out.len() ==> out[j].index != out[k].index
}

/// Inserting the entry of report `i` where the scores fall below its own
/// keeps a ranking of the first `i` reports exact and ordered for `i + 1`.
proof fn lemma_insert_ranked(before: Seq<RankedReport>, pos: int, e: RankedReport, rs: Seq<PerformanceReport>, i: int)
    requires
        0 <= i < rs.len(),
        0 <= pos <= before.len(),
        ranks_exactly(before, rs, i),
        ranked_order(before),
        e.index == i,
        qualifies(rs[i]),
        e.score == score(rs[i]),
        forall|k: int| 0 <= k < pos ==> (#[trigger] before[k]).score >= e.score,
        forall|k: int| pos <= k < before.len() ==> (#[trigger] before[k]).score < e.score,
    ensures
        ranks_exactly(before.insert(pos, e), rs, i + 1),
        ranked_order(before.insert(pos, e)),
{
    let a = before.insert(pos, e);
    assert forall|k: int| 0 <= k < a.len() implies {
        let x = #[trigger] a[k];
        &&& 0 <= x.index < i + 1
        &&& qualifies(rs[x.index as int])
        &&& x.score == score(rs[x.index as int])
    } by {
        if k < pos {
            assert(a[k] == before[k]);
        } else if k > pos {
            assert(a[k] == before[k - 1]);
        }
    }
    assert forall|t: int| 0 <= t < i + 1 && qualifies(rs[t]) implies exists|k: int|
        0 <= k < a.len() && #[trigger] a[k].index == t by {
        if t == i {
            assert(a[pos].index == t);
        } else {
            let k0 = choose|k: int| 0 <= k < before.len() && #[trigger] before[k].index == t;
            if k0 < pos {
                assert(a[k0] == before[k0]);
            } else {
                assert(a[k0 + 1] == before[k0]);
            }
        }
    }
    assert forall|j: int, k: int| 0 <= j < k < a.len() implies a[j].index != a[k].index by {
        if j < pos && k < pos {
            assert(a[j] == before[j] && a[k] == before[k]);
        } else if j < pos && k == pos {
            assert(a[j] == before[j]);
        } else if j < pos && k > pos {
            assert(a[j] == before[j] && a[k] == before[k - 1]);
        } else if j == pos {
            assert(a[k] == before[k - 1]);
        } else {
            assert(a[j] == before[j - 1] && a[k] == before[k - 1]);
        }
    }
    assert forall|j: int, k: int| 0 <= j < k < a.len() implies a[j].score > a[k].score || (a[j].score
        == a[k].score && a[j].index < a[k].index) by {
        if j < pos && k < pos {
            assert(a[j] == before[j] && a[k] == before[k]);
        } else if j < pos && k == pos {
            assert(a[j] == before[j]);
        } else if j < pos && k > pos {
            assert(a[j] == before[j] && a[k] == before[k - 1]);
        } else if j == pos {
            assert(a[k] == before[k - 1]);
        } else {
            assert(a[j] == before[j - 1] && a[k] == before[k - 1]);
        }
    }
}

/// A report that does not qualify leaves a ranking exact for one more report.
proof fn lemma_skip_ranked(out: Seq<RankedReport>, rs: Seq<PerformanceReport>, i: int)
    requires
        0 <= i < rs.len(),
        ranks_exactly(out, rs, i),
        !qualifies(rs[i]),
    ensures
        ranks_exactly(out, rs, i + 1),
{
}

/// Ranks the reports with at least `MINIMUM_TRADES_THRESHOLD` trades by
/// score, highest first; equal scores keep their input order.
pub fn analyze_and_rank_results(reports: &[PerformanceReport]) -> (out: Vec<RankedReport>)
    ensures
        ranks_exactly(out@, reports@, reports@.len() as int),
        ranked_order(out@),
{
    let mut out: Vec<RankedReport> = Vec::new();
    let mut i: usize = 0;
    while i < reports.len()
        invariant
            i <= reports@.len(),
            ranks_exactly(out@, reports@, i as int),
            ranked_order(out@),
        decreases reports@.len() - i,
    {
        let r = &reports[i];
        if r.total_trades >= MINIMUM_TRADES_THRESHOLD {
            let s = calculate_score(r);
            let mut pos: usize = 0;
            while pos < out.len() && out[pos].score >= s
                invariant
                    pos <= out@.len(),
                    forall|k: int| 0 <= k < pos ==> (#[trigger] out@[k]).score >= s,
                decreases out@.len() - pos,
            {
                pos = pos + 1;
            }
            let e = RankedReport { score: s, index: i };
            let ghost before = out@;
            proof {
                assert forall|k: int| pos <= k < before.len() implies (#[trigger] before[k]).score < s by {
                    if pos < before.len() {
                        assert(before[pos as int].score < s);
                        if k > pos {
                            assert(before[pos as int].score > before[k].score || before[pos as int].score
                                == before[k].score);
                        }
                    }
                }
            }
            out.insert(pos, e);
            proof {
                lemma_insert_ranked(before, pos as int, e, reports@, i as int);
            }
        } else {
            proof {
                lemma_skip_ranked(out@, reports@, i as int);
            }
        }
        i = i + 1;
    }
    out
}

} // verus!
