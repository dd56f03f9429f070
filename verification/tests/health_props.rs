use shaft_core::health::Health;

#[test]
fn clamp_floors_at_zero() {
    // health = 1, delta = -5: the result is 0.
    let h = Health { value: 1, max: 10 };
    assert_eq!(h.clamp(1 - 5), 0);
}

#[test]
fn clamp_caps_at_max() {
    // health = 9, delta = +5, max = 10: the result is 10.
    let h = Health { value: 9, max: 10 };
    assert_eq!(h.clamp(9 + 5), 10);
}

#[test]
fn clamp_passes_values_in_range_through() {
    let h = Health { value: 4, max: 10 };
    assert_eq!(h.clamp(7), 7);
    assert_eq!(h.clamp(0), 0);
    assert_eq!(h.clamp(10), 10);
}

#[test]
fn player_health_starts_full() {
    let h = Health::new_player_health();
    assert_eq!(h.value, 10);
    assert_eq!(h.max, 10);
}

#[test]
fn gain_and_lose_stay_in_range() {
    let mut h = Health { value: 10, max: 10 };
    h.gain_one();
    assert_eq!(h.value, 10);
    h.lose_one();
    assert_eq!(h.value, 9);
    let mut z = Health { value: 0, max: 10 };
    z.lose_one();
    assert_eq!(z.value, 0);
    z.gain_one();
    assert_eq!(z.value, 1);
}
