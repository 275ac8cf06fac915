use water_reminder::schedule::{AppState, IntervalError, DEFAULT_INTERVAL_SECS};
use water_reminder::settings::{encode_interval, interval_from_saved, load_interval};

#[test]
fn new_state_has_default_interval() {
    let s = AppState::new(0);
    assert_eq!(s.get_settings(), 3600);
    assert_eq!(DEFAULT_INTERVAL_SECS, 3600);
    assert_eq!(s.last_shown(), 0);
}

#[test]
fn set_then_get_returns_value() {
    let mut s = AppState::new(0);
    for i in [1u64, 5, 60, 3600, 86400, u64::MAX] {
        assert_eq!(s.set_interval(i), Ok(()));
        assert_eq!(s.get_settings(), i);
    }
}

#[test]
fn update_then_get_returns_value() {
    let mut s = AppState::new(0);
    assert_eq!(s.update_settings(42), Ok("42".to_string()));
    assert_eq!(s.get_settings(), 42);
}

#[test]
fn zero_interval_is_refused() {
    let mut s = AppState::new(7);
    assert_eq!(s.set_interval(0), Err(IntervalError::Zero));
    assert_eq!(s.get_settings(), 3600);
    assert_eq!(s.update_settings(0), Err(IntervalError::Zero));
    assert_eq!(s.get_settings(), 3600);
    assert_eq!(s.last_shown(), 7);
}

#[test]
fn default_schedule_scenario() {
    let mut s = AppState::new(0);
    for t in 1..3600u64 {
        assert!(!s.tick(t), "fired early at {}", t);
    }
    assert!(s.tick(3600));
    assert_eq!(s.last_shown(), 3600);
    for t in 3601..=3605u64 {
        assert!(!s.tick(t));
    }
    assert_eq!(s.update_settings(5), Ok("5".to_string()));
    // six seconds have elapsed since the last reminder: the next tick fires
    assert!(s.tick(3606));
    assert_eq!(s.last_shown(), 3606);
    for t in 3607..3611u64 {
        assert!(!s.tick(t));
    }
    assert!(s.tick(3611));
}

#[test]
fn fire_resets_and_does_not_refire() {
    let mut s = AppState::new(100);
    assert!(s.set_interval(10).is_ok());
    assert!(s.tick(115));
    assert_eq!(s.last_shown(), 115);
    assert!(!s.tick(116));
    assert!(!s.tick(124));
    assert!(s.tick(125));
}

#[test]
fn interval_of_one_fires_every_tick() {
    let mut s = AppState::new(0);
    assert!(s.set_interval(1).is_ok());
    for t in 1..10u64 {
        assert!(s.tick(t));
    }
}

#[test]
fn shortened_interval_fires_on_next_tick() {
    let mut s = AppState::new(0);
    for t in 1..=100u64 {
        assert!(!s.tick(t));
    }
    assert!(s.set_interval(30).is_ok());
    assert_eq!(s.last_shown(), 0);
    assert!(s.tick(101));
    assert_eq!(s.last_shown(), 101);
}

#[test]
fn clock_before_baseline_never_fires() {
    let mut s = AppState::new(1000);
    assert!(s.set_interval(1).is_ok());
    assert!(!s.tick(0));
    assert!(!s.tick(999));
    assert_eq!(s.last_shown(), 1000);
}

#[test]
fn encode_writes_decimal_digits() {
    assert_eq!(encode_interval(3600), "3600");
    assert_eq!(encode_interval(0), "0");
    assert_eq!(encode_interval(7), "7");
    assert_eq!(encode_interval(u64::MAX), "18446744073709551615");
}

#[test]
fn saved_interval_survives_restart() {
    for n in [1u64, 5, 90, 3600, 7200, u64::MAX] {
        let text = encode_interval(n);
        assert_eq!(load_interval(Some(&text)), n);
        let s = AppState::restore(12, Some(&text));
        assert_eq!(s.get_settings(), n);
        assert_eq!(s.last_shown(), 12);
    }
}

#[test]
fn update_settings_text_restores_interval() {
    let mut s = AppState::new(0);
    let text = s.update_settings(900).unwrap();
    let restarted = AppState::restore(0, Some(&text));
    assert_eq!(restarted.get_settings(), 900);
}

#[test]
fn missing_settings_give_default() {
    assert_eq!(load_interval(None), 3600);
    assert_eq!(AppState::restore(0, None).get_settings(), 3600);
}

#[test]
fn corrupt_settings_give_default() {
    for text in ["", "abc", "-5", "1.5", "12x", "\"60\"", "{}", "007", "18446744073709551616", "-0", "1e3", "12 3", "+7"] {
        assert_eq!(load_interval(Some(text)), 3600, "text {:?}", text);
    }
    assert_eq!(load_interval(Some("0")), 3600);
}

#[test]
fn json_whitespace_is_accepted() {
    assert_eq!(load_interval(Some(" 120\n")), 120);
    assert_eq!(load_interval(Some("\t\r 18446744073709551615 ")), u64::MAX);
}

#[test]
fn saved_value_mapping() {
    assert_eq!(interval_from_saved(None), 3600);
    assert_eq!(interval_from_saved(Some(0)), 3600);
    assert_eq!(interval_from_saved(Some(1)), 1);
    assert_eq!(interval_from_saved(Some(45)), 45);
}
