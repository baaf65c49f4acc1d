use obs_websocket::message_id::decimal_text;
use obs_websocket::MessageCounter;

#[test]
fn decimal_text_of_small_numbers() {
    assert_eq!(decimal_text(0), "0");
    assert_eq!(decimal_text(7), "7");
    assert_eq!(decimal_text(9), "9");
    assert_eq!(decimal_text(10), "10");
    assert_eq!(decimal_text(42), "42");
    assert_eq!(decimal_text(100), "100");
    assert_eq!(decimal_text(1234567890), "1234567890");
}

#[test]
fn decimal_text_of_the_largest_number() {
    assert_eq!(decimal_text(usize::MAX), usize::MAX.to_string());
}

#[test]
fn decimal_text_agrees_with_the_standard_library() {
    let mut n: usize = 1;
    while n < usize::MAX / 7 {
        assert_eq!(decimal_text(n), n.to_string());
        assert_eq!(decimal_text(n - 1), (n - 1).to_string());
        n *= 7;
    }
}

#[test]
fn the_first_id_is_one() {
    let mut counter = MessageCounter::new();
    assert_eq!(counter.message_id(), "1");
}

#[test]
fn ids_count_up() {
    let mut counter = MessageCounter::new();
    assert_eq!(counter.message_id(), "1");
    assert_eq!(counter.message_id(), "2");
    assert_eq!(counter.message_id(), "3");
}

#[test]
fn ids_are_never_zero_and_never_repeat_in_a_short_run() {
    let mut counter = MessageCounter::new();
    let mut seen: Vec<String> = Vec::new();
    for _ in 0..1000 {
        let id = counter.message_id();
        assert_ne!(id, "0");
        assert!(!seen.contains(&id));
        seen.push(id);
    }
    assert_eq!(seen[999], "1000");
}

#[test]
fn two_counters_do_not_share_their_state() {
    let mut one = MessageCounter::new();
    let mut other = MessageCounter::new();
    assert_eq!(one.message_id(), "1");
    assert_eq!(one.message_id(), "2");
    assert_eq!(other.message_id(), "1");
}

#[test]
fn the_counter_wraps_to_one_after_the_largest_id() {
    let mut counter = MessageCounter::starting_after(usize::MAX - 1);
    assert_eq!(counter.message_id(), usize::MAX.to_string());
    assert_eq!(counter.message_id(), "1");
    assert_eq!(counter.message_id(), "2");
}

#[test]
fn a_counter_at_the_largest_id_goes_on_with_one() {
    let mut counter = MessageCounter::starting_after(usize::MAX);
    assert_eq!(counter.message_id(), "1");
}

#[test]
fn a_counter_goes_on_after_a_given_id() {
    let mut counter = MessageCounter::starting_after(41);
    assert_eq!(counter.message_id(), "42");
    let mut counter = MessageCounter::starting_after(0);
    assert_eq!(counter.message_id(), "1");
}
