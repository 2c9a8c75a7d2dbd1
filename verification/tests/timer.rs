use uploader::rtt::{Timer, ALARM_INTERRUPT, PRESCALER};

#[test]
fn new_timer_knows_nothing() {
    let timer = Timer::new();
    assert_eq!(timer.value(), 0);
    assert_eq!(timer.alarm(), 0);
    assert_eq!(timer.mode(), 0);
}

#[test]
fn alarm_is_set_after_the_last_reading() {
    let mut timer = Timer::new();
    timer.update(1000);
    timer.set_alarm(200);
    assert_eq!(timer.alarm(), 1200);
    assert_eq!(timer.value(), 1000);
    assert_eq!(timer.mode(), 0);
}

#[test]
fn alarm_wraps_with_the_counter() {
    let mut timer = Timer::new();
    timer.update(0xFFFF_FFF0);
    timer.set_alarm(0x20);
    assert_eq!(timer.alarm(), 0x10);
    timer.update(u32::MAX);
    timer.set_alarm(1);
    assert_eq!(timer.alarm(), 0);
    timer.set_alarm(u32::MAX);
    assert_eq!(timer.alarm(), u32::MAX - 1);
}

#[test]
fn sleep_sets_the_mode_and_lasts_until_the_counter_arrives() {
    let mut timer = Timer::new();
    timer.update(5000);
    let until = timer.sleep_ms(200);
    assert_eq!(until, 5200);
    assert_eq!(timer.mode(), 0x0001_0020);
    assert_eq!(timer.mode(), ALARM_INTERRUPT | PRESCALER);
    assert!(timer.sleeping(until));
    timer.update(5199);
    assert!(timer.sleeping(until));
    timer.update(5200);
    assert!(!timer.sleeping(until));
    timer.update(5201);
    assert!(!timer.sleeping(until));
}

#[test]
fn sleep_of_zero_is_over_at_once() {
    let mut timer = Timer::new();
    timer.update(77);
    let until = timer.sleep_ms(0);
    assert_eq!(until, 77);
    assert!(!timer.sleeping(until));
}

#[test]
fn sleep_across_the_wrap_is_over_at_once() {
    let mut timer = Timer::new();
    timer.update(0xFFFF_FF00);
    let until = timer.sleep_ms(0x200);
    assert_eq!(until, 0x100);
    assert!(!timer.sleeping(until));
}
