use albert_train::clock::{clock_at, minutes_at, timestamp, timestamp_of};
use albert_train::fusion::fibonacci_fusion_layers;

#[test]
fn clock_shows_time_of_day() {
    assert_eq!(clock_at(0), "00:00:00");
    assert_eq!(clock_at(86_399), "23:59:59");
    assert_eq!(clock_at(86_400), "00:00:00");
    assert_eq!(clock_at(1_700_000_000), "22:13:20");
}

#[test]
fn a_clock_before_the_epoch_shows_midnight() {
    assert_eq!(timestamp_of(None), "00:00:00");
    assert_eq!(timestamp_of(Some(45_296)), "12:34:56");
}

#[test]
fn minutes_may_pass_an_hour() {
    assert_eq!(minutes_at(5), "00:05");
    assert_eq!(minutes_at(3_661), "61:01");
    assert_eq!(minutes_at(360_000), "6000:00");
}

#[test]
fn timestamp_has_the_shape_of_a_clock() {
    let t = timestamp();
    let parts: Vec<&str> = t.split(':').collect();
    assert_eq!(parts.len(), 3);
    assert!(parts.iter().all(|p| p.len() == 2 && p.parse::<u32>().is_ok()));
    assert_ne!(t, "");
}

#[test]
fn fusion_layers_are_fibonacci_numbers_below_the_depth() {
    assert_eq!(fibonacci_fusion_layers(0), Vec::<usize>::new());
    assert_eq!(fibonacci_fusion_layers(2), Vec::<usize>::new());
    assert_eq!(fibonacci_fusion_layers(3), vec![2]);
    assert_eq!(fibonacci_fusion_layers(25), vec![2, 3, 5, 8, 13, 21]);
}

#[test]
fn fusion_layers_reach_the_end_of_the_range() {
    let all = fibonacci_fusion_layers(usize::MAX);
    for w in all.windows(3) {
        assert_eq!(w[2], w[0] + w[1]);
    }
    let n = all.len();
    assert!(all[n - 1].checked_add(all[n - 2]).is_none());
}
