use noma::hotkey::PttKey;
use noma::config::PasteMode;
use noma::hotkey::{KeyState, PttEvent, PTT_KEY_NAME};
use noma::inject::{delivery_for, deliver, Delivery};

#[test]
fn empty_text_touches_nothing() {
    // No clipboard, no synthetic keys, no error: there is nothing to send.
    assert!(deliver("", Delivery::Paste).is_none());
    assert!(deliver("", Delivery::Type).is_none());
}

#[test]
fn paste_is_the_default() {
    assert_eq!(Delivery::default(), Delivery::Paste);
}

#[test]
fn text_goes_the_chosen_way() {
    assert_eq!(deliver("hi", Delivery::Type), Some(Delivery::Type));
    assert_eq!(delivery_for(PasteMode::Paste), Delivery::Paste);
    assert_eq!(delivery_for(PasteMode::Type), Delivery::Type);
}

#[test]
fn auto_repeat_presses_only_once() {
    let mut key = KeyState::new();
    assert_eq!(key.on_message(true, false), Some(PttEvent::Pressed));
    assert_eq!(key.on_message(true, false), None);
    assert_eq!(key.on_message(true, false), None);
    assert_eq!(key.on_message(false, true), Some(PttEvent::Released));
    assert_eq!(key.on_message(false, true), None);
    assert_eq!(key.on_message(false, false), None);
    assert_eq!(key.on_message(true, false), Some(PttEvent::Pressed));
    assert_eq!(PTT_KEY_NAME, "Right Ctrl");
}

#[test]
fn a_release_without_a_press_is_ignored() {
    let mut key = KeyState::new();
    assert_eq!(key.on_message(false, true), None);
    assert_eq!(key.on_message(true, false), Some(PttEvent::Pressed));
}

#[test]
fn the_hotkey_setting_names_one_of_five_keys() {
    assert_eq!(PttKey::from_setting("right-ctrl"), Some(PttKey::RightCtrl));
    assert_eq!(PttKey::from_setting("right-alt"), Some(PttKey::RightAlt));
    assert_eq!(PttKey::from_setting("right-shift"), Some(PttKey::RightShift));
    assert_eq!(PttKey::from_setting("caps-lock"), Some(PttKey::CapsLock));
    assert_eq!(PttKey::from_setting("f13"), Some(PttKey::F13));
    assert_eq!(PttKey::from_setting("left-ctrl"), None);
    assert_eq!(PttKey::default().name(), PTT_KEY_NAME);
    assert_eq!(PttKey::CapsLock.name(), "Caps Lock");
}
