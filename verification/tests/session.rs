use noma::session::partial_wait;
use noma::hud::Phase;
use noma::session::{SessionAction, SessionEvent, SessionState};

fn pressed(ready: bool) -> SessionEvent {
    SessionEvent::Pressed {
        engine_ready: ready,
        status: "Downloading model 12%".to_string(),
    }
}

#[test]
fn a_dictation_runs_from_key_down_to_pasted_text() {
    let mut s = SessionState::new(true);
    assert_eq!(s.step(pressed(true)), SessionAction::StartCapture);
    assert_eq!(s.step(SessionEvent::CaptureStarted), SessionAction::StartPartials);
    assert!(s.capturing);
    assert_eq!(s.phase, Phase::Listening);
    assert_eq!(
        s.step(SessionEvent::Partial {
            text: "hello".to_string()
        }),
        SessionAction::Nothing
    );
    assert_eq!(s.partial, "hello");
    assert_eq!(s.step(SessionEvent::Released), SessionAction::StopCapture);
    assert!(!s.capturing);
    let stopped = SessionEvent::Stopped {
        silent: false,
        tap: false,
        device: "Yeti".to_string(),
    };
    assert_eq!(s.step(stopped), SessionAction::Transcribe);
    assert!(s.busy);
    assert_eq!(s.phase, Phase::Transcribing);
    // A press during the decode is ignored.
    assert_eq!(s.step(pressed(true)), SessionAction::Nothing);
    let decoded = SessionEvent::Decoded {
        raw: "um hello there".to_string(),
        text: "Hello there".to_string(),
    };
    assert_eq!(
        s.step(decoded),
        SessionAction::Deliver("Hello there".to_string())
    );
    assert_eq!(
        s.step(SessionEvent::Delivered),
        SessionAction::Record {
            raw: "um hello there".to_string(),
            text: "Hello there".to_string()
        }
    );
    assert_eq!(s.phase, Phase::Idle);
    assert!(!s.busy);
    assert_eq!(s.last, "Hello there");
    assert_eq!(s.partial, "");
}

#[test]
fn a_press_before_the_engine_is_ready_says_why() {
    let mut s = SessionState::new(false);
    assert_eq!(s.step(pressed(false)), SessionAction::Nothing);
    assert_eq!(s.phase, Phase::Error("Downloading model 12%".to_string()));
    assert!(!s.capturing);
}

#[test]
fn without_partials_nothing_extra_is_started() {
    let mut s = SessionState::new(false);
    assert_eq!(s.step(SessionEvent::CaptureStarted), SessionAction::Nothing);
}

#[test]
fn a_release_without_a_capture_does_nothing() {
    let mut s = SessionState::new(true);
    let before = s.clone();
    assert_eq!(s.step(SessionEvent::Released), SessionAction::Nothing);
    assert_eq!(s, before);
}

#[test]
fn microphone_failures_are_shown() {
    let mut s = SessionState::new(true);
    s.step(SessionEvent::CaptureFailed {
        error: "no device".to_string(),
    });
    assert_eq!(s.phase, Phase::Error("mic: no device".to_string()));
    s.step(SessionEvent::StopFailed {
        error: "gone".to_string(),
    });
    assert_eq!(s.phase, Phase::Error("mic stop: gone".to_string()));
}

#[test]
fn silence_is_not_transcribed() {
    let mut s = SessionState::new(true);
    s.step(SessionEvent::CaptureStarted);
    s.step(SessionEvent::Released);
    let tap = SessionEvent::Stopped {
        silent: true,
        tap: true,
        device: "Yeti".to_string(),
    };
    assert_eq!(s.step(tap), SessionAction::Nothing);
    assert_eq!(s.phase, Phase::Idle);
    let hold = SessionEvent::Stopped {
        silent: true,
        tap: false,
        device: "Yeti".to_string(),
    };
    assert_eq!(s.step(hold), SessionAction::Nothing);
    assert_eq!(s.phase, Phase::Error("No sound from Yeti".to_string()));
    assert!(!s.busy);
}

#[test]
fn an_empty_decode_goes_back_to_idle() {
    let mut s = SessionState::new(true);
    s.step(SessionEvent::Stopped {
        silent: false,
        tap: false,
        device: String::new(),
    });
    let decoded = SessionEvent::Decoded {
        raw: "um".to_string(),
        text: String::new(),
    };
    assert_eq!(s.step(decoded), SessionAction::Nothing);
    assert_eq!(s.phase, Phase::Idle);
    assert!(!s.busy);
}

#[test]
fn text_that_did_not_land_is_still_recorded() {
    let mut s = SessionState::new(true);
    s.step(SessionEvent::Stopped {
        silent: false,
        tap: false,
        device: String::new(),
    });
    s.step(SessionEvent::Decoded {
        raw: "hi".to_string(),
        text: "Hi".to_string(),
    });
    let failed = SessionEvent::DeliveryFailed {
        error: "clipboard busy".to_string(),
    };
    assert_eq!(
        s.step(failed),
        SessionAction::Record {
            raw: "hi".to_string(),
            text: "Hi".to_string()
        }
    );
    assert_eq!(s.phase, Phase::Error("paste: clipboard busy".to_string()));
    assert_eq!(s.last, "");
    assert!(!s.busy);
}

#[test]
fn a_failed_decode_shows_the_error() {
    let mut s = SessionState::new(true);
    s.step(SessionEvent::Stopped {
        silent: false,
        tap: false,
        device: String::new(),
    });
    s.step(SessionEvent::DecodeFailed {
        error: "engine gone".to_string(),
    });
    assert_eq!(s.phase, Phase::Error("engine gone".to_string()));
    assert!(!s.busy);
}

#[test]
fn a_late_partial_is_dropped() {
    let mut s = SessionState::new(true);
    s.step(SessionEvent::CaptureStarted);
    s.step(SessionEvent::Released);
    let before = s.clone();
    s.step(SessionEvent::Partial {
        text: "too late".to_string(),
    });
    assert_eq!(s, before);
}

#[test]
fn partials_never_decode_more_than_they_wait() {
    assert_eq!(partial_wait(700_000_000, 150_000_000), 700_000_000);
    assert_eq!(partial_wait(700_000_000, 900_000_000), 900_000_000);
    assert_eq!(partial_wait(200_000_000, 200_000_000), 200_000_000);
}
