use lib::stats::{
    median_mean, median_mean_text, percentile_summary, percentiles_line, percentiles_u32,
    sort_i32, sort_u32, Percentiles,
};

/// The mean's text the way the reports print it: two decimals.
fn mean_text(sum: i128, n: usize) -> String {
    format!("{:.2}", sum as f64 / n as f64)
}

/// The whole summary line of a sample, as the probe prints it.
fn summary(v: Vec<u32>) -> String {
    let p = percentiles_u32(v);
    let mean = match &p {
        Some(q) => mean_text(q.sum, q.n),
        None => String::new(),
    };
    percentiles_line(&p, &mean)
}

#[test]
fn percentiles_u32_reports_min_and_max_at_the_ends_of_a_sorted_sample() {
    let s = summary(vec![5, 1, 3, 2, 4]);
    assert!(s.contains("min=1"));
    assert!(s.contains("max=5"));
    assert!(s.contains("n=5"));
}

#[test]
fn percentiles_u32_reports_n_a_for_an_empty_sample_rather_than_dividing_by_zero() {
    assert_eq!(summary(vec![]), "n/a (no samples)");
}

#[test]
fn percentiles_u32_gives_the_whole_line() {
    assert_eq!(summary(vec![5, 1, 3, 2, 4]), "min=1 p25=2 median=3 p75=4 max=5 mean=3.00 n=5");
}

#[test]
fn percentiles_round_their_positions_half_away_from_zero() {
    // Six elements: last index 5, so p25 sits at round(1.25) = 1, the median
    // at round(2.5) = 3 and p75 at round(3.75) = 4.
    let p = percentiles_u32(vec![60, 10, 50, 20, 40, 30]).unwrap();
    assert_eq!((p.min, p.p25, p.median, p.p75, p.max), (10, 20, 40, 50, 60));
    assert_eq!(p.sum, 210);
    assert_eq!(p.n, 6);
}

#[test]
fn percentiles_of_one_element_are_all_that_element() {
    let p = percentiles_u32(vec![7]).unwrap();
    assert_eq!((p.min, p.p25, p.median, p.p75, p.max, p.n), (7, 7, 7, 7, 7, 1));
}

#[test]
fn percentiles_keep_the_exact_sum_of_large_values() {
    let p = percentiles_u32(vec![u32::MAX, u32::MAX, u32::MAX]).unwrap();
    assert_eq!(p.sum, 3 * u32::MAX as i128);
}

#[test]
fn percentile_summary_reads_a_sorted_sample_in_place() {
    let p = percentile_summary(&[-3, 0, 2, 9]);
    assert_eq!((p.min, p.p25, p.median, p.p75, p.max, p.sum, p.n), (-3, 0, 2, 2, 9, 8, 4));
    assert_eq!(p.line(&mean_text(p.sum, p.n)), "min=-3 p25=0 median=2 p75=2 max=9 mean=2.00 n=4");
}

#[test]
fn line_splices_the_mean_text_in_unchanged() {
    let p = Percentiles { min: 1, p25: 2, median: 3, p75: 4, max: 5, sum: 15, n: 5 };
    assert_eq!(p.line("x"), "min=1 p25=2 median=3 p75=4 max=5 mean=x n=5");
}

#[test]
fn median_mean_takes_the_lower_middle_of_an_even_sample() {
    let m = median_mean(&[4, 1, 3, 2]).unwrap();
    assert_eq!((m.median, m.sum, m.n), (2, 10, 4));
    let mean = mean_text(m.sum, m.n);
    assert_eq!(median_mean_text(&Some(m), &mean), "median=2 mean=2.50 n=4");
}

#[test]
fn median_mean_is_n_a_for_an_empty_sample() {
    let m = median_mean(&[]);
    assert!(m.is_none());
    assert_eq!(median_mean_text(&m, "ignored"), "n/a (n=0)");
}

#[test]
fn sorting_orders_ascending_and_keeps_duplicates() {
    let mut v = vec![3u32, 1, 3, 0, 2];
    sort_u32(&mut v);
    assert_eq!(v, vec![0, 1, 2, 3, 3]);
    let mut w = vec![5i32, -1, 0, -7, 5];
    sort_i32(&mut w);
    assert_eq!(w, vec![-7, -1, 0, 5, 5]);
}

#[test]
fn percentiles_of_a_shuffled_sample_come_out_in_ascending_order() {
    let p = percentiles_u32(vec![90, 7, 7, 300, 12, 0, 45, 45, 1000, 3, 18]).unwrap();
    assert!(p.min <= p.p25 && p.p25 <= p.median && p.median <= p.p75 && p.p75 <= p.max);
    assert_eq!((p.min, p.p25, p.median, p.p75, p.max), (0, 7, 18, 90, 1000));
}

#[test]
fn percentiles_do_not_depend_on_sample_order() {
    let a = lib::stats::percentiles_u32(vec![5, 1, 4, 2, 3]).unwrap();
    let b = lib::stats::percentiles_u32(vec![1, 2, 3, 4, 5]).unwrap();
    let fields = |p: &lib::stats::Percentiles| (p.min, p.p25, p.median, p.p75, p.max, p.sum, p.n);
    assert_eq!(fields(&a), fields(&b));
    assert_eq!(fields(&b), (1, 2, 3, 4, 5, 15, 5));
}
