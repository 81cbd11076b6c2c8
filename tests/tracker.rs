use f58mqtt::tracker::{
    classify, led_state, DeviceState, DeviceStateManager, LedObservation, LedState, Level,
    PowerLevel,
};

#[test]
fn all_leds_low_is_off() {
    let mut m = DeviceStateManager::new();
    m.update_all(Level::Low, Level::Low, Level::Low, 100);
    assert_eq!(m.state(1000), DeviceState::Off);
    assert_eq!(m.state(1500), DeviceState::Off);
}

#[test]
fn first_led_blinking_is_heating_low() {
    let mut m = DeviceStateManager::new();
    let mut level = Level::High;
    let mut t: u64 = 1000;
    while t <= 10_000 {
        m.update_all(level, Level::Low, Level::Low, t);
        assert_eq!(m.state(t), DeviceState::Heating(PowerLevel::Low));
        assert_eq!(m.state(t + 399), DeviceState::Heating(PowerLevel::Low));
        level = if level == Level::High { Level::Low } else { Level::High };
        t += 400;
    }
}

#[test]
fn steady_levels_give_on_states() {
    let mut m = DeviceStateManager::new();
    m.update_all(Level::High, Level::Low, Level::Low, 10);
    assert_eq!(m.state(911), DeviceState::On(PowerLevel::Low));
    m.update_all(Level::High, Level::High, Level::Low, 2000);
    assert_eq!(m.state(2901), DeviceState::On(PowerLevel::Medium));
    m.update_all(Level::High, Level::High, Level::High, 3000);
    assert_eq!(m.state(3901), DeviceState::On(PowerLevel::High));
}

#[test]
fn blink_window_boundary() {
    let obs = LedObservation { since: 100, level: Level::High };
    assert_eq!(led_state(&obs, 1000), LedState::Blinking);
    assert_eq!(led_state(&obs, 1001), LedState::On);
    let low = LedObservation { since: 100, level: Level::Low };
    assert_eq!(led_state(&low, 1001), LedState::Off);
    assert_eq!(led_state(&low, 50), LedState::Blinking);
}

#[test]
fn heating_patterns_and_unknown() {
    assert_eq!(
        classify(LedState::On, LedState::Blinking, LedState::Off),
        DeviceState::Heating(PowerLevel::Medium)
    );
    assert_eq!(
        classify(LedState::On, LedState::On, LedState::Blinking),
        DeviceState::Heating(PowerLevel::High)
    );
    assert_eq!(
        classify(LedState::Blinking, LedState::Blinking, LedState::Blinking),
        DeviceState::Unknown
    );
    assert_eq!(classify(LedState::Off, LedState::On, LedState::Off), DeviceState::Unknown);
}

#[test]
fn same_level_is_not_a_change() {
    let mut m = DeviceStateManager::new();
    m.update(PowerLevel::Low, Level::High, 100);
    let before = m;
    m.update(PowerLevel::Low, Level::High, 5000);
    assert_eq!(m, before);
    assert_eq!(m.low, LedObservation { since: 100, level: Level::High });
    assert_eq!(m.state(5000), DeviceState::On(PowerLevel::Low));
}

#[test]
fn state_names() {
    assert_eq!(DeviceState::Off.as_bytes(), "off");
    assert_eq!(DeviceState::Unknown.as_bytes(), "unknown");
    assert_eq!(DeviceState::Heating(PowerLevel::Low).as_bytes(), "heating_low");
    assert_eq!(DeviceState::Heating(PowerLevel::Medium).as_bytes(), "heating_medium");
    assert_eq!(DeviceState::Heating(PowerLevel::High).as_bytes(), "heating_high");
    assert_eq!(DeviceState::On(PowerLevel::Low).as_bytes(), "on_low");
    assert_eq!(DeviceState::On(PowerLevel::Medium).as_bytes(), "on_medium");
    assert_eq!(DeviceState::On(PowerLevel::High).as_bytes(), "on_high");
}

#[test]
fn earlier_history_is_forgotten() {
    let mut a = DeviceStateManager::new();
    let mut b = DeviceStateManager::new();
    a.update(PowerLevel::Low, Level::High, 10);
    a.update(PowerLevel::Low, Level::Low, 20);
    b.update(PowerLevel::Medium, Level::High, 700);
    b.update(PowerLevel::Medium, Level::Low, 800);
    assert_ne!(a, b);
    for m in [&mut a, &mut b] {
        m.update_all(Level::High, Level::High, Level::Low, 5000);
        m.update_all(Level::High, Level::High, Level::High, 5400);
        m.update_all(Level::High, Level::High, Level::Low, 5800);
    }
    assert_eq!(a, b);
    for now in [5800, 6000, 6701, 9000] {
        assert_eq!(a.state(now), b.state(now));
    }
    assert_eq!(a.state(6000), DeviceState::Heating(PowerLevel::High));
    assert_eq!(a.state(6701), DeviceState::On(PowerLevel::Medium));
}
