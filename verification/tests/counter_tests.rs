use wifi_list::counter::{Counter, CounterEvent, LabelTarget};

#[test]
fn fresh_counter_shows_zero() {
    let c = Counter::new();
    assert_eq!(c.count, 0);
}

#[test]
fn increase_raises_count_and_targets_decrease_button() {
    let mut c = Counter::new();
    let update = c.step(CounterEvent::Increase);
    assert_eq!(c.count, 1);
    assert_eq!(update.count, 1);
    assert!(matches!(update.target, LabelTarget::DecreaseButton));
}

#[test]
fn decrease_lowers_count_and_targets_increase_button() {
    let mut c = Counter::new();
    let update = c.step(CounterEvent::Decrease);
    assert_eq!(c.count, -1);
    assert_eq!(update.count, -1);
    assert!(matches!(update.target, LabelTarget::IncreaseButton));
}

#[test]
fn clicks_accumulate_on_the_shared_count() {
    let mut c = Counter::new();
    c.step(CounterEvent::Increase);
    c.step(CounterEvent::Increase);
    c.step(CounterEvent::Decrease);
    let update = c.step(CounterEvent::Increase);
    assert_eq!(update.count, 2);
}
