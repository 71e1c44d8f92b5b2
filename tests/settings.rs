use raytracer::settings::{sampling_setting, MAX_DEPTH, SAMPLES_PER_PIXEL};

#[test]
fn defaults() {
    assert_eq!(SAMPLES_PER_PIXEL, 50);
    assert_eq!(MAX_DEPTH, 40);
    assert_eq!(sampling_setting(None, SAMPLES_PER_PIXEL), 50);
}

#[test]
fn decimal_setting_is_read() {
    assert_eq!(sampling_setting(Some("12"), 50), 12);
    assert_eq!(sampling_setting(Some("+7"), 50), 7);
    assert_eq!(sampling_setting(Some("0"), 50), 0);
    assert_eq!(sampling_setting(Some("007"), 50), 7);
}

#[test]
fn malformed_setting_falls_back() {
    assert_eq!(sampling_setting(Some(""), 40), 40);
    assert_eq!(sampling_setting(Some("+"), 40), 40);
    assert_eq!(sampling_setting(Some("-3"), 40), 40);
    assert_eq!(sampling_setting(Some(" 4"), 40), 40);
    assert_eq!(sampling_setting(Some("1x"), 40), 40);
    assert_eq!(sampling_setting(Some("1_000"), 40), 40);
}

#[test]
fn overflowing_setting_falls_back() {
    assert_eq!(sampling_setting(Some("99999999999999999999999999"), 40), 40);
    let max = format!("{}", usize::MAX);
    assert_eq!(sampling_setting(Some(&max), 40), usize::MAX);
}
