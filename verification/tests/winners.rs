use lib::winners::{extract_now_value, fmt_rate, lowconf, RateStat};

#[test]
fn extract_now_value_reads_the_running_total() {
    let line = "Orange: scores: 3 culture (now 45), 2 science (now 17)";
    assert_eq!(extract_now_value(line, "culture (now "), Some(45));
    assert_eq!(extract_now_value(line, "science (now "), Some(17));
}

#[test]
fn extract_now_value_trims_and_accepts_a_sign() {
    assert_eq!(extract_now_value("x culture (now  -3 ) y", "culture (now "), Some(-3));
    assert_eq!(extract_now_value("culture (now +12)", "culture (now "), Some(12));
}

#[test]
fn extract_now_value_is_none_without_the_label_the_bracket_or_a_number() {
    assert_eq!(extract_now_value("science (now 4)", "culture (now "), None);
    assert_eq!(extract_now_value("culture (now 4", "culture (now "), None);
    assert_eq!(extract_now_value("culture (now four)", "culture (now "), None);
    assert_eq!(extract_now_value("culture (now 99999999999)", "culture (now "), None);
}

#[test]
fn rate_stat_counts_chances_and_hits() {
    let mut r = RateStat::default();
    r.add(true);
    r.add(false);
    r.add(true);
    assert_eq!((r.n, r.hits), (3, 2));
}

#[test]
fn fmt_rate_is_n_a_without_chances_and_shows_the_size_otherwise() {
    assert_eq!(fmt_rate(&RateStat::default(), "ignored"), "n/a (n=0)");
    let r = RateStat { n: 4, hits: 1 };
    let pct = format!("{:.1}", r.hits as f64 / r.n as f64 * 100.0);
    assert_eq!(fmt_rate(&r, &pct), "25.0% (n=4)");
}

#[test]
fn lowconf_flags_fewer_than_thirty_samples() {
    assert_eq!(lowconf(29), " [LOW CONFIDENCE, n<30]");
    assert_eq!(lowconf(30), "");
    assert_eq!(lowconf(0), " [LOW CONFIDENCE, n<30]");
}

#[test]
fn extract_now_value_trims_unicode_spaces_too() {
    let line = "Purple scores 3 culture (now \u{a0}12\u{3000})";
    assert_eq!(extract_now_value(line, "culture (now "), Some(12));
}
