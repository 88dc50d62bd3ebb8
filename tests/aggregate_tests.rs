use sim_core::aggregate::{
    aggregate_asset_curves, final_asset_values, summarize, year_column,
};
use sim_core::quantile::{compute_quantile, f64_from_order_key, f64_order_key, nearest_rank_index};

fn bits(v: &[f64]) -> Vec<u64> {
    v.iter().map(|x| x.to_bits()).collect()
}

fn val(b: u64) -> f64 {
    f64::from_bits(b)
}

#[test]
fn order_key_follows_numeric_order() {
    let xs: [f64; 7] = [-1.0e9, -2.5, -0.0, 0.0, 1.0e-300, 3.0, 7.5e12];
    for w in xs.windows(2) {
        assert!(f64_order_key(w[0].to_bits()) < f64_order_key(w[1].to_bits()));
    }
    for x in xs {
        assert_eq!(f64_from_order_key(f64_order_key(x.to_bits())), x.to_bits());
    }
}

#[test]
fn nearest_rank_rounds_halves_up() {
    assert_eq!(nearest_rank_index(1, 90), 0);
    assert_eq!(nearest_rank_index(4, 10), 0);
    assert_eq!(nearest_rank_index(4, 50), 2);
    assert_eq!(nearest_rank_index(4, 90), 3);
    assert_eq!(nearest_rank_index(6, 10), 1);
    assert_eq!(nearest_rank_index(11, 50), 5);
    assert_eq!(nearest_rank_index(11, 250), 10);
}

#[test]
fn quantile_of_empty_is_zero() {
    assert_eq!(compute_quantile(&Vec::new(), 50), 0.0f64.to_bits());
}

#[test]
fn quantile_picks_sorted_element() {
    let v = bits(&[5.0, 1.0, 4.0, 2.0, 3.0]);
    assert_eq!(val(compute_quantile(&v, 10)), 1.0);
    assert_eq!(val(compute_quantile(&v, 50)), 3.0);
    assert_eq!(val(compute_quantile(&v, 90)), 5.0);
    let s = summarize(&v);
    assert_eq!((val(s.p10), val(s.p50), val(s.p90)), (1.0, 3.0, 5.0));
}

#[test]
fn quantiles_are_ordered() {
    let v = bits(&[345011.2, 584095.3, 478756.7, 410000.0, -3.0, 0.0]);
    let s = summarize(&v);
    assert!(val(s.p10) <= val(s.p50));
    assert!(val(s.p50) <= val(s.p90));
    assert_eq!(val(s.p10), 0.0);
    assert_eq!(val(s.p90), 584095.3);
}

#[test]
fn identical_values_collapse_quantiles() {
    let v = bits(&[995790.0475456002; 7]);
    let s = summarize(&v);
    assert_eq!(s.p10, s.p50);
    assert_eq!(s.p50, s.p90);
    assert_eq!(val(s.p50), 995790.0475456002);
}

#[test]
fn short_paths_contribute_zero() {
    let paths = vec![bits(&[10.0, 20.0, 30.0]), bits(&[10.0])];
    assert_eq!(year_column(&paths, 2), bits(&[30.0, 0.0]));
    assert_eq!(final_asset_values(&paths), bits(&[30.0, 10.0]));
    assert_eq!(final_asset_values(&vec![Vec::new()]), bits(&[0.0]));
}

#[test]
fn curves_have_one_point_per_year() {
    let paths = vec![
        bits(&[100.0, 90.0, 80.0]),
        bits(&[100.0, 110.0, 120.0]),
        bits(&[100.0, 100.0, 100.0]),
    ];
    let (p10, p50, p90) = aggregate_asset_curves(&paths, 3);
    assert_eq!(p10, bits(&[100.0, 90.0, 80.0]));
    assert_eq!(p50, bits(&[100.0, 100.0, 100.0]));
    assert_eq!(p90, bits(&[100.0, 110.0, 120.0]));
    let (a, b, c) = aggregate_asset_curves(&paths, 0);
    assert!(a.is_empty() && b.is_empty() && c.is_empty());
}
