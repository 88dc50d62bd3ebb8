use vstd::prelude::*;
use vstd::relations::sorted_by;

use crate::quantile::{
    f64_from_order_key, key_leq, nearest_rank, nearest_rank_index, order_key,
    quantile, sort_order_keys, sorted_keys, lemma_key_round_trip,
};

verus! {

/// Percentile levels reported for every distribution.
pub const LOW_PERCENT: u64 = 10;
pub const MID_PERCENT: u64 = 50;
pub const HIGH_PERCENT: u64 = 90;

/// The 10th, 50th and 90th percentiles of a set of `f64` values, each held as
/// its bit pattern.
#[derive(Clone, Copy, Debug, PartialEq, Eq, Structural)]
pub struct QuantileSummary {
    pub p10: u64,
    pub p50: u64,
    pub p90: u64,
}

/// The values of all paths at year `y`; a path too short to have one gives
/// `0.0`.
pub open spec fn column(paths: Seq<Vec<u64>>, y: int) -> Seq<u64> {
    Seq::new(paths.len(), |i: int| if 0 <= y < paths[i]@.len() { paths[i]@[y] } else { 0 })
}

/// The last value of each path; an empty path gives `0.0`.
pub open spec fn final_values(paths: Seq<Vec<u64>>) -> Seq<u64> {
    Seq::new(
        paths.len(),
        |i: int| if paths[i]@.len() > 0 { paths[i]@.last() } else { 0 },
    )
}

/// The three reported percentiles of `values`.
pub open spec fn summary_of(values: Seq<u64>) -> QuantileSummary {
    QuantileSummary {
        p10: quantile(values, LOW_PERCENT as nat),
        p50: quantile(values, MID_PERCENT as nat),
        p90: quantile(values, HIGH_PERCENT as nat),
    }
}

/// The three reported percentiles of `values`, from one sort.
pub fn summarize(values: &Vec<u64>) -> (r: QuantileSummary)
    ensures
        r == summary_of(values@),
{
    if values.len() == 0 {
        return QuantileSummary { p10: 0, p50: 0, p90: 0 };
    }
    let sorted = sort_order_keys(values);
    let n = values.len();
    QuantileSummary {
        p10: f64_from_order_key(sorted[nearest_rank_index(n, LOW_PERCENT)]),
        p50: f64_from_order_key(sorted[nearest_rank_index(n, MID_PERCENT)]),
        p90: f64_from_order_key(sorted[nearest_rank_index(n, HIGH_PERCENT)]),
    }
}

/// The values of all paths at year `y`.
pub fn year_column(paths: &Vec<Vec<u64>>, y: usize) -> (r: Vec<u64>)
    ensures
        r@ == column(paths@, y as int),
{
    let mut out: Vec<u64> = Vec::new();
    let mut i: usize = 0;
    while i < paths.len()
        invariant
            i <= paths.len(),
            out@ =~= column(paths@, y as int).subrange(0, i as int),
        decreases paths.len() - i,
    {
        let v: u64 = if y < paths[i].len() { paths[i][y] } else { 0 };
        out.push(v);
        i += 1;
    }
    assert(out@ =~= column(paths@, y as int));
    out
}

/// The last value of each path.
pub fn final_asset_values(paths: &Vec<Vec<u64>>) -> (r: Vec<u64>)
    ensures
        r@ == final_values(paths@),
{
    let mut out: Vec<u64> = Vec::new();
    let mut i: usize = 0;
    while i < paths.len()
        invariant
            i <= paths.len(),
            out@ =~= final_values(paths@).subrange(0, i as int),
        decreases paths.len() - i,
    {
        let len = paths[i].len();
        let v: u64 = if len > 0 { paths[i][len - 1] } else { 0 };
        out.push(v);
        i += 1;
    }
    assert(out@ =~= final_values(paths@));
    out
}

/// The percentile curves over `total_year_points` years: for each year, the
/// 10th, 50th and 90th percentile of the paths' values at that year.
pub fn aggregate_asset_curves(paths: &Vec<Vec<u64>>, total_year_points: usize) -> (r: (
    Vec<u64>,
    Vec<u64>,
    Vec<u64>,
))
    ensures
        r.0@.len() == total_year_points,
        r.1@.len() == total_year_points,
        r.2@.len() == total_year_points,
        forall|y: int|
            0 <= y < total_year_points ==> {
                &&& #[trigger] r.0@[y] == quantile(column(paths@, y), LOW_PERCENT as nat)
                &&& r.1@[y] == quantile(column(paths@, y), MID_PERCENT as nat)
                &&& r.2@[y] == quantile(column(paths@, y), HIGH_PERCENT as nat)
            },
        forall|y: int|
            0 <= y < total_year_points ==> order_key(#[trigger] r.0@[y]) <= order_key(r.1@[y])
                && order_key(r.1@[y]) <= order_key(r.2@[y]),
{
    let mut p10: Vec<u64> = Vec::new();
    let mut p50: Vec<u64> = Vec::new();
    let mut p90: Vec<u64> = Vec::new();
    let mut year: usize = 0;
    while year < total_year_points
        invariant
            year <= total_year_points,
            p10@.len() == year,
            p50@.len() == year,
            p90@.len() == year,
            forall|y: int|
                0 <= y < year ==> {
                    &&& #[trigger] p10@[y] == quantile(column(paths@, y), LOW_PERCENT as nat)
                    &&& p50@[y] == quantile(column(paths@, y), MID_PERCENT as nat)
                    &&& p90@[y] == quantile(column(paths@, y), HIGH_PERCENT as nat)
                },
        decreases total_year_points - year,
    {
        let values = year_column(paths, year);
        let s = summarize(&values);
        p10.push(s.p10);
        p50.push(s.p50);
        p90.push(s.p90);
        year += 1;
    }
    assert forall|y: int| 0 <= y < total_year_points implies order_key(#[trigger] p10@[y])
        <= order_key(p50@[y]) && order_key(p50@[y]) <= order_key(p90@[y]) by {
        lemma_summary_ordered(column(paths@, y));
    }
    (p10, p50, p90)
}

/// A lower percentile never lies above a higher one in the total order of
/// the values.
pub proof fn lemma_quantiles_ordered(values: Seq<u64>, p: nat, q: nat)
    requires
        p <= q,
    ensures
        order_key(quantile(values, p)) <= order_key(quantile(values, q)),
{
    if values.len() > 0 {
        let n = values.len();
        let m = (n - 1) as nat;
        assert(m * p <= m * q) by (nonlinear_arith)
            requires
                p <= q,
        ;
        vstd::arithmetic::div_mod::lemma_div_is_ordered((m * p + 50) as int, (m * q + 50) as int, 100);
        let keys = values.map_values(|b: u64| order_key(b));
        crate::quantile::lemma_key_leq_total();
        keys.lemma_sort_by_ensures(key_leq());
        vstd::seq_lib::to_multiset_len(keys);
        vstd::seq_lib::to_multiset_len(keys.sort_by(key_leq()));
        let s = sorted_keys(values);
        let i = nearest_rank(n, p) as int;
        let j = nearest_rank(n, q) as int;
        assert(sorted_by(s, key_leq()));
        if i < j {
            assert(key_leq()(s[i], s[j]));
        }
        lemma_key_round_trip(s[i]);
        lemma_key_round_trip(s[j]);
    }
}

/// In every summary, `p10 <= p50 <= p90` in the total order of the values.
pub proof fn lemma_summary_ordered(values: Seq<u64>)
    ensures
        order_key(summary_of(values).p10) <= order_key(summary_of(values).p50),
        order_key(summary_of(values).p50) <= order_key(summary_of(values).p90),
{
    lemma_quantiles_ordered(values, LOW_PERCENT as nat, MID_PERCENT as nat);
    lemma_quantiles_ordered(values, MID_PERCENT as nat, HIGH_PERCENT as nat);
}

/// When every value is the same, every percentile is that value.
pub proof fn lemma_constant_values_quantile(values: Seq<u64>, v: u64, p: nat)
    requires
        values.len() > 0,
        forall|i: int| 0 <= i < values.len() ==> #[trigger] values[i] == v,
    ensures
        quantile(values, p) == v,
{
    let n = values.len();
    let keys = values.map_values(|b: u64| order_key(b));
    crate::quantile::lemma_key_leq_total();
    keys.lemma_sort_by_ensures(key_leq());
    vstd::seq_lib::to_multiset_len(keys);
    vstd::seq_lib::to_multiset_len(keys.sort_by(key_leq()));
    let s = sorted_keys(values);
    let i = nearest_rank(n, p) as int;
    assert(s.contains(s[i]));
    assert(keys.contains(s[i]));
    lemma_key_round_trip(v);
}

/// Paths that are all the same curve give equal 10th, 50th and 90th
/// percentiles at every year: the value of that curve.
pub proof fn lemma_identical_paths_collapse(paths: Seq<Vec<u64>>, y: int)
    requires
        paths.len() > 0,
        forall|i: int| 0 <= i < paths.len() ==> (#[trigger] paths[i])@ == paths[0]@,
    ensures
        summary_of(column(paths, y)).p10 == column(paths, y)[0],
        summary_of(column(paths, y)).p50 == column(paths, y)[0],
        summary_of(column(paths, y)).p90 == column(paths, y)[0],
{
    let c = column(paths, y);
    assert forall|i: int| 0 <= i < c.len() implies #[trigger] c[i] == c[0] by {
        assert(paths[i]@ == paths[0]@);
    }
    lemma_constant_values_quantile(c, c[0], LOW_PERCENT as nat);
    lemma_constant_values_quantile(c, c[0], MID_PERCENT as nat);
    lemma_constant_values_quantile(c, c[0], HIGH_PERCENT as nat);
}

} // verus!
