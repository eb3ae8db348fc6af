use lib::seating::{game_id, rotated_spec};

#[test]
fn rotation_gives_every_kind_every_seat() {
    assert_eq!(rotated_spec("a,b", 0), "a,b");
    assert_eq!(rotated_spec("a,b", 1), "b,a");
    assert_eq!(rotated_spec("a,b,c", 2), "c,a,b");
    assert_eq!(rotated_spec("a,b,c", 3), "a,b,c");
}

#[test]
fn rotation_over_n_games_seats_every_kind_in_seat_zero_once() {
    let spec = "plan,weighted,greedy";
    let firsts: Vec<String> =
        (0..3).map(|g| rotated_spec(spec, g).split(',').next().unwrap().to_string()).collect();
    assert_eq!(firsts, vec!["plan", "weighted", "greedy"]);
}

#[test]
fn rotation_keeps_empty_kinds_and_a_single_kind() {
    assert_eq!(rotated_spec("a,,b", 1), ",b,a");
    assert_eq!(rotated_spec("solo", 5), "solo");
    assert_eq!(rotated_spec("", 2), "");
}

#[test]
fn game_id_separates_player_counts() {
    assert_eq!(game_id(3, 42), 30_000_042);
    assert_eq!(game_id(2, 12_345_678), 22_345_678);
    assert_eq!(game_id(255, 9_999_999), 2_559_999_999);
}

#[test]
fn rotating_twice_is_rotating_by_the_sum() {
    let spec = "a,b,c,d";
    for x in 0..6 {
        for y in 0..6 {
            assert_eq!(rotated_spec(&rotated_spec(spec, x), y), rotated_spec(spec, x + y));
        }
    }
}

#[test]
fn every_kind_plays_every_seat_equally_often_over_whole_cycles() {
    let spec = "a,b,c";
    for seat in 0..3 {
        for kind in ["a", "b", "c"] {
            let n = (0..6).filter(|&g| rotated_spec(spec, g).split(',').nth(seat).unwrap() == kind).count();
            assert_eq!(n, 2);
        }
    }
}
