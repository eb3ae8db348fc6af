use lib::args::{parse_num, parse_signed_num};

#[test]
fn parse_num_reads_a_number_within_the_type() {
    assert_eq!(parse_num("42", "--games", u64::MAX), Ok(42));
    assert_eq!(parse_num("+7", "--seed", u64::MAX), Ok(7));
    assert_eq!(parse_num("255", "--players", 255), Ok(255));
}

#[test]
fn parse_num_rejects_what_is_not_a_number_of_the_type() {
    assert_eq!(parse_num("256", "--players", 255), Err("--players: \"256\" is not a number".to_string()));
    assert_eq!(parse_num("-1", "--games", u64::MAX), Err("--games: \"-1\" is not a number".to_string()));
    assert_eq!(parse_num("", "--seed", u64::MAX), Err("--seed: \"\" is not a number".to_string()));
    assert_eq!(parse_num(" 1", "--seed", u64::MAX), Err("--seed: \" 1\" is not a number".to_string()));
}

#[test]
fn parse_signed_num_reads_negatives_and_the_extremes() {
    assert_eq!(parse_signed_num("-4000", "--max-nodes"), Ok(-4000));
    assert_eq!(parse_signed_num("-9223372036854775808", "--max-nodes"), Ok(i64::MIN));
    assert_eq!(parse_signed_num("9223372036854775807", "--max-nodes"), Ok(i64::MAX));
    assert_eq!(
        parse_signed_num("9223372036854775808", "--max-nodes"),
        Err("--max-nodes: \"9223372036854775808\" is not a number".to_string())
    );
}
