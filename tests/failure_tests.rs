use sim_core::failures::{count_solvent, failure_year_distribution};

#[test]
fn all_solvent_gives_empty_histogram() {
    let f = vec![None, None, None, None];
    assert_eq!(count_solvent(&f), 4);
    assert!(failure_year_distribution(&f).is_empty());
}

#[test]
fn histogram_counts_each_failed_path_once() {
    let f = vec![Some(3), None, Some(1), Some(3), None, Some(7), Some(3)];
    assert_eq!(count_solvent(&f), 2);
    let h = failure_year_distribution(&f);
    assert_eq!(h, vec![(1, 1), (3, 3), (7, 1)]);
    let total: usize = h.iter().map(|e| e.1).sum();
    assert_eq!(total, f.len() - count_solvent(&f));
}

#[test]
fn all_failed_in_one_year() {
    let f = vec![Some(2), Some(2)];
    assert_eq!(count_solvent(&f), 0);
    assert_eq!(failure_year_distribution(&f), vec![(2, 2)]);
}
