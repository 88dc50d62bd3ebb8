use vstd::prelude::*;

verus! {

/// How many paths failed in year `y`.
pub open spec fn failures_in_year(f: Seq<Option<usize>>, y: usize) -> nat
    decreases f.len(),
{
    if f.len() == 0 {
        0
    } else {
        failures_in_year(f.drop_last(), y) + if f.last() == Some(y) {
            1nat
        } else {
            0nat
        }
    }
}

/// How many paths failed at all.
pub open spec fn failed_paths(f: Seq<Option<usize>>) -> nat
    decreases f.len(),
{
    if f.len() == 0 {
        0
    } else {
        failed_paths(f.drop_last()) + if f.last().is_some() {
            1nat
        } else {
            0nat
        }
    }
}

/// How many paths stayed solvent through the horizon.
pub open spec fn solvent_paths(f: Seq<Option<usize>>) -> nat
    decreases f.len(),
{
    if f.len() == 0 {
        0
    } else {
        solvent_paths(f.drop_last()) + if f.last().is_none() {
            1nat
        } else {
            0nat
        }
    }
}

/// The sum of the counts of a histogram.
pub open spec fn total_count(h: Seq<(usize, usize)>) -> nat
    decreases h.len(),
{
    if h.len() == 0 {
        0
    } else {
        total_count(h.drop_last()) + h.last().1 as nat
    }
}

/// `h` is the failure-year histogram of `f`: one entry per year in which at
/// least one path failed, in ascending order of year, each with the number of
/// paths that failed in that year.
pub open spec fn is_failure_histogram(h: Seq<(usize, usize)>, f: Seq<Option<usize>>) -> bool {
    &&& forall|j: int, k: int| 0 <= j < k < h.len() ==> #[trigger] h[j].0 < #[trigger] h[k].0
    &&& forall|j: int|
        0 <= j < h.len() ==> #[trigger] h[j].1 as nat == failures_in_year(f, h[j].0)
    &&& forall|y: usize|
        #[trigger] failures_in_year(f, y) > 0 ==> exists|j: int| 0 <= j < h.len() && h[j].0 == y
}

proof fn lemma_total_count_update(h: Seq<(usize, usize)>, j: int, e: (usize, usize))
    requires
        0 <= j < h.len(),
    ensures
        total_count(h.update(j, e)) == total_count(h) - h[j].1 + e.1,
    decreases h.len(),
{
    if j < h.len() - 1 {
        assert(h.update(j, e).drop_last() =~= h.drop_last().update(j, e));
        lemma_total_count_update(h.drop_last(), j, e);
    } else {
        assert(h.update(j, e).drop_last() =~= h.drop_last());
    }
}

proof fn lemma_total_count_insert(h: Seq<(usize, usize)>, j: int, e: (usize, usize))
    requires
        0 <= j <= h.len(),
    ensures
        total_count(h.insert(j, e)) == total_count(h) + e.1,
    decreases h.len(),
{
    if j < h.len() {
        assert(h.insert(j, e).drop_last() =~= h.drop_last().insert(j, e));
        lemma_total_count_insert(h.drop_last(), j, e);
    } else {
        assert(h.insert(j, e).drop_last() =~= h);
    }
}

proof fn lemma_failed_paths_bounded(f: Seq<Option<usize>>)
    ensures
        failed_paths(f) <= f.len(),
        failed_paths(f) + solvent_paths(f) == f.len(),
    decreases f.len(),
{
    if f.len() > 0 {
        lemma_failed_paths_bounded(f.drop_last());
    }
}

proof fn lemma_year_count_bounded(f: Seq<Option<usize>>, y: usize)
    ensures
        failures_in_year(f, y) <= f.len(),
    decreases f.len(),
{
    if f.len() > 0 {
        lemma_year_count_bounded(f.drop_last(), y);
    }
}

/// The number of paths that stayed solvent.
pub fn count_solvent(f: &Vec<Option<usize>>) -> (r: usize)
    ensures
        r == solvent_paths(f@),
{
    let mut n: usize = 0;
    let mut i: usize = 0;
    while i < f.len()
        invariant
            i <= f.len(),
            n == solvent_paths(f@.subrange(0, i as int)),
        decreases f.len() - i,
    {
        let ghost pre = f@.subrange(0, i as int);
        assert(f@.subrange(0, i + 1).drop_last() =~= pre);
        proof {
            lemma_failed_paths_bounded(pre);
        }
        if f[i].is_none() {
            n += 1;
        }
        i += 1;
    }
    assert(f@.subrange(0, f.len() as int) =~= f@);
    n
}

/// The failure-year histogram of `f`, ordered by year. Every entry has a
/// positive count, and the counts add up to the number of failed paths.
pub fn failure_year_distribution(f: &Vec<Option<usize>>) -> (r: Vec<(usize, usize)>)
    ensures
        is_failure_histogram(r@, f@),
        forall|j: int| 0 <= j < r@.len() ==> #[trigger] r@[j].1 > 0,
        total_count(r@) == failed_paths(f@),
{
    let mut h: Vec<(usize, usize)> = Vec::new();
    let mut i: usize = 0;
    while i < f.len()
        invariant
            i <= f.len(),
            is_failure_histogram(h@, f@.subrange(0, i as int)),
            forall|j: int| 0 <= j < h@.len() ==> #[trigger] h@[j].1 > 0 && h@[j].1 <= i,
            total_count(h@) == failed_paths(f@.subrange(0, i as int)),
        decreases f.len() - i,
    {
        let ghost pre = f@.subrange(0, i as int);
        let ghost post = f@.subrange(0, i + 1);
        let ghost old_h = h@;
        assert(post.drop_last() =~= pre);
        assert(post.last() == f@[i as int]);
        match f[i] {
            None => {
                assert forall|y: usize|
                    #[trigger] failures_in_year(post, y) == failures_in_year(pre, y) by {}
            },
            Some(y) => {
                assert forall|z: usize| z != y implies #[trigger] failures_in_year(post, z)
                    == failures_in_year(pre, z) by {}
                assert(failures_in_year(post, y) == failures_in_year(pre, y) + 1);
                let mut j: usize = 0;
                while j < h.len() && h[j].0 < y
                    invariant
                        j <= h.len(),
                        h@ == old_h,
                        forall|k: int| 0 <= k < j ==> #[trigger] h@[k].0 < y,
                    decreases h.len() - j,
                {
                    j += 1;
                }
                if j < h.len() && h[j].0 == y {
                    let c = h[j].1;
                    h.set(j, (y, c + 1));
                    proof {
                        lemma_total_count_update(old_h, j as int, (y, (c + 1) as usize));
                        assert forall|k: int| 0 <= k < h@.len() && k != j implies #[trigger] h@[k].0
                            != y by {
                            if k < j {
                                assert(old_h[k].0 < old_h[j as int].0);
                            } else {
                                assert(old_h[j as int].0 < old_h[k].0);
                            }
                        }
                        assert forall|z: usize| #[trigger]
                            failures_in_year(post, z) > 0 implies exists|k: int|
                            0 <= k < h@.len() && h@[k].0 == z by {
                            if z == y {
                                assert(h@[j as int].0 == z);
                            } else {
                                let k = choose|k: int| 0 <= k < old_h.len() && old_h[k].0 == z;
                                assert(h@[k].0 == z);
                            }
                        }
                    }
                } else {
                    proof {
                        if failures_in_year(pre, y) > 0 {
                            let k = choose|k: int| 0 <= k < old_h.len() && old_h[k].0 == y;
                            if k >= j {
                                assert(old_h[j as int].0 <= old_h[k].0);
                            }
                        }
                    }
                    h.insert(j, (y, 1));
                    proof {
                        lemma_total_count_insert(old_h, j as int, (y, 1usize));
                        assert forall|a: int, b: int| 0 <= a < b < h@.len() implies #[trigger] h@[a].0
                            < #[trigger] h@[b].0 by {
                            if b == j {
                            } else if a == j {
                                assert(old_h[j as int].0 <= old_h[b - 1].0);
                            } else if a < j && b > j {
                                assert(h@[b] == old_h[b - 1]);
                            } else if a > j {
                                assert(old_h[a - 1].0 < old_h[b - 1].0);
                            } else {
                                assert(old_h[a].0 < old_h[b].0);
                            }
                        }
                        assert forall|k: int| 0 <= k < h@.len() implies #[trigger] h@[k].1 as nat
                            == failures_in_year(post, h@[k].0) by {
                            if k < j {
                                assert(h@[k] == old_h[k]);
                            } else if k > j {
                                assert(h@[k] == old_h[k - 1]);
                                assert(old_h[j as int].0 <= old_h[k - 1].0);
                            }
                        }
                        assert forall|z: usize| #[trigger]
                            failures_in_year(post, z) > 0 implies exists|k: int|
                            0 <= k < h@.len() && h@[k].0 == z by {
                            if z == y {
                                assert(h@[j as int].0 == z);
                            } else {
                                let k = choose|k: int| 0 <= k < old_h.len() && old_h[k].0 == z;
                                if k < j {
                                    assert(h@[k].0 == z);
                                } else {
                                    assert(h@[k + 1].0 == z);
                                }
                            }
                        }
                    }
                }
            },
        }
        i += 1;
    }
    assert(f@.subrange(0, f.len() as int) =~= f@);
    h
}

/// The solvent paths are at most all paths, and with the failed ones they are
/// all paths: the success rate `solvent / paths` lies in [0, 1].
pub proof fn lemma_solvent_share(f: Seq<Option<usize>>)
    ensures
        solvent_paths(f) <= f.len(),
        solvent_paths(f) + failed_paths(f) == f.len(),
{
    lemma_failed_paths_bounded(f);
}

} // verus!
