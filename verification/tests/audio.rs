use noma::audio::match_device;

/// The real device names from a machine that hit this bug: the default was
/// a sleeping headset while the Yeti was the live mic.
fn devices() -> Vec<String> {
    [
        "Microphone (Razer Ripsaw HD)",
        "Microphone (2- Arctis Nova Pro Wireless)",
        "Microphone (Yeti Classic)",
        "Microphone (Razer Ripsaw HD HDMI )",
    ]
    .iter()
    .map(|name| name.to_string())
    .collect()
}

#[test]
fn a_short_substring_is_enough_to_pick_a_mic() {
    assert_eq!(match_device(&devices(), "yeti"), Some(2));
    assert_eq!(match_device(&devices(), "Arctis"), Some(1));
}

#[test]
fn matching_ignores_case_and_surrounding_space() {
    assert_eq!(match_device(&devices(), "  YETI  "), Some(2));
}

#[test]
fn an_exact_name_beats_a_longer_device_containing_it() {
    // "Razer Ripsaw HD" is a substring of "Razer Ripsaw HD HDMI".
    let names = vec![
        "Microphone (Razer Ripsaw HD HDMI )".to_string(),
        "Microphone (Razer Ripsaw HD)".to_string(),
    ];
    assert_eq!(match_device(&names, "Microphone (Razer Ripsaw HD)"), Some(1));
    // Without an exact match, first substring hit wins.
    assert_eq!(match_device(&names, "ripsaw"), Some(0));
}

#[test]
fn no_preference_matches_nothing() {
    assert_eq!(match_device(&devices(), ""), None);
    assert_eq!(match_device(&devices(), "   "), None);
    assert_eq!(match_device(&devices(), "webcam"), None);
}

#[test]
fn no_devices_match_nothing() {
    assert_eq!(match_device(&[], "yeti"), None);
}

#[test]
fn a_name_longer_than_every_device_matches_nothing() {
    assert_eq!(
        match_device(&devices(), "Microphone (Yeti Classic) and more"),
        None
    );
}
