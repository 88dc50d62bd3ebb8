use vstd::prelude::*;
use vstd::relations::{sorted_by, total_ordering};

verus! {

/// The sign bit of an `f64` bit pattern.
pub const SIGN_BIT: u64 = 0x8000_0000_0000_0000;

/// Maps the bit pattern of an `f64` to a `u64` whose unsigned order is the
/// IEEE 754 total order of the values: negative values below positive ones,
/// `-0.0` just below `+0.0`, and numeric order among values that are not NaN.
pub open spec fn order_key(b: u64) -> u64 {
    if b < SIGN_BIT {
        (b + SIGN_BIT) as u64
    } else {
        (u64::MAX - b) as u64
    }
}

/// The bit pattern whose order key is `k`.
pub open spec fn key_bits(k: u64) -> u64 {
    if k >= SIGN_BIT {
        (k - SIGN_BIT) as u64
    } else {
        (u64::MAX - k) as u64
    }
}

/// Ascending order on keys.
pub open spec fn key_leq() -> spec_fn(u64, u64) -> bool {
    |a: u64, b: u64| a <= b
}

/// The order keys of `values`, sorted ascending.
pub open spec fn sorted_keys(values: Seq<u64>) -> Seq<u64> {
    values.map_values(|b: u64| order_key(b)).sort_by(key_leq())
}

/// The nearest rank `round((n - 1) * percent / 100)`, halves rounded up,
/// clamped to the last index.
pub open spec fn nearest_rank(n: nat, percent: nat) -> nat {
    if n == 0 {
        0
    } else {
        let r = (((n - 1) * percent + 50) / 100) as nat;
        if r > n - 1 {
            (n - 1) as nat
        } else {
            r
        }
    }
}

/// The nearest-rank `percent`-th percentile of `f64` values given by their
/// bit patterns, ordered by the total order; `0.0` for no values.
pub open spec fn quantile(values: Seq<u64>, percent: nat) -> u64 {
    if values.len() == 0 {
        0
    } else {
        key_bits(sorted_keys(values)[nearest_rank(values.len(), percent) as int])
    }
}

pub proof fn lemma_key_round_trip(b: u64)
    ensures
        key_bits(order_key(b)) == b,
        order_key(key_bits(b)) == b,
{
}

pub proof fn lemma_key_leq_total()
    ensures
        total_ordering(key_leq()),
{
}

/// Relies on `slice::sort_unstable`: the slice ends up in ascending order and
/// holds the same elements.
#[verifier::external_body]
fn sort_ascending(v: &mut Vec<u64>)
    ensures
        sorted_by(final(v)@, key_leq()),
        final(v)@.to_multiset() == old(v)@.to_multiset(),
{
    v.sort_unstable();
}

/// The order key of one bit pattern.
pub fn f64_order_key(b: u64) -> (r: u64)
    ensures
        r == order_key(b),
{
    if b < SIGN_BIT {
        b + SIGN_BIT
    } else {
        u64::MAX - b
    }
}

/// The bit pattern of one order key.
pub fn f64_from_order_key(k: u64) -> (r: u64)
    ensures
        r == key_bits(k),
{
    if k >= SIGN_BIT {
        k - SIGN_BIT
    } else {
        u64::MAX - k
    }
}

/// The order keys of `values`, sorted ascending.
pub fn sort_order_keys(values: &Vec<u64>) -> (r: Vec<u64>)
    ensures
        r@ == sorted_keys(values@),
        r@.len() == values@.len(),
{
    let mut keys: Vec<u64> = Vec::new();
    let mut i: usize = 0;
    while i < values.len()
        invariant
            i <= values.len(),
            keys@ =~= values@.subrange(0, i as int).map_values(|b: u64| order_key(b)),
        decreases values.len() - i,
    {
        keys.push(f64_order_key(values[i]));
        i += 1;
    }
    assert(values@.subrange(0, values.len() as int) =~= values@);
    let ghost unsorted = keys@;
    sort_ascending(&mut keys);
    proof {
        lemma_key_leq_total();
        unsorted.lemma_sort_by_ensures(key_leq());
        vstd::seq_lib::lemma_sorted_unique(keys@, unsorted.sort_by(key_leq()), key_leq());
        vstd::seq_lib::to_multiset_len(unsorted);
        vstd::seq_lib::to_multiset_len(keys@);
    }
    keys
}

/// The nearest rank for `n > 0` values.
pub fn nearest_rank_index(n: usize, percent: u64) -> (r: usize)
    requires
        n > 0,
    ensures
        r == nearest_rank(n as nat, percent as nat),
        r < n,
{
    let last: u128 = (n - 1) as u128;
    assert(last * (percent as u128) < 0xffff_ffff_ffff_ffff_0000_0000_0000_0000u128) by (nonlinear_arith)
        requires
            last < 0x1_0000_0000_0000_0000,
            percent < 0x1_0000_0000_0000_0000,
    ;
    let r: u128 = (last * (percent as u128) + 50) / 100;
    if r > last {
        n - 1
    } else {
        r as usize
    }
}

/// The nearest-rank `percent`-th percentile of the `f64` values whose bit
/// patterns are `values`, in their total order; the bits of `0.0` when
/// `values` is empty.
pub fn compute_quantile(values: &Vec<u64>, percent: u64) -> (r: u64)
    ensures
        r == quantile(values@, percent as nat),
{
    if values.len() == 0 {
        return 0;
    }
    let sorted = sort_order_keys(values);
    let rank = nearest_rank_index(values.len(), percent);
    f64_from_order_key(sorted[rank])
}

} // verus!
