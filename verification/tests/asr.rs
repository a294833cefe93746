use std::path::PathBuf;

use noma::asr::{FakeEngine, ParakeetConfig, SlotState, Transcript, TARGET_SAMPLE_RATE};
use noma::model::ModelPaths;

#[test]
fn fake_engine_includes_duration() {
    let clip_seconds = 16_000.0f32 / TARGET_SAMPLE_RATE as f32;
    let transcript = FakeEngine::transcript_for(&format!("{clip_seconds:.1}"));
    assert_eq!(transcript.text, "Hello from Noma (1.0s)");
}

#[test]
fn blank_transcripts_are_recognisable() {
    assert!(Transcript::new("   ").is_empty());
    assert!(!Transcript::new("hello").is_empty());
    assert!(Transcript::new("").is_empty());
    assert!(Transcript::new("\u{2003}\n").is_empty());
}

fn missing_paths() -> ModelPaths {
    ModelPaths {
        encoder: PathBuf::from("/nope/encoder.int8.onnx"),
        decoder: PathBuf::from("/nope/decoder.int8.onnx"),
        joiner: PathBuf::from("/nope/joiner.int8.onnx"),
        tokens: PathBuf::from("/nope/tokens.txt"),
        model_type: "nemo_transducer".to_string(),
    }
}

#[test]
fn thread_count_never_drops_below_one() {
    let config = ParakeetConfig::new(missing_paths(), "cpu", 0);
    assert_eq!(config.threads, 1);
    let config = ParakeetConfig::new(missing_paths(), "cuda", 6);
    assert_eq!(config.threads, 6);
    assert_eq!(config.provider, "cuda");
    assert_eq!(config.paths, missing_paths());
    assert_eq!(config.clone().paths.tokens, PathBuf::from("/nope/tokens.txt"));
    assert_eq!(config.label(), "Parakeet on cuda");
}

#[test]
fn a_loading_slot_refuses_with_its_own_message() {
    let slot = SlotState::loading("Downloading model 12%");
    assert!(!slot.is_ready());
    assert_eq!(slot.message(), "Downloading model 12%");
}

#[test]
fn progress_updates_the_message_and_the_bar() {
    let mut slot = SlotState::loading("starting");
    slot.set_progress("Downloading model 50%");
    assert_eq!(
        slot,
        SlotState::Loading {
            message: "Downloading model 50%".into()
        }
    );
}

#[test]
fn installing_makes_it_decode() {
    let mut slot = SlotState::loading("starting");
    slot.install("fake");
    assert!(slot.is_ready());
    assert_eq!(slot, SlotState::Ready { label: "fake".into() });
    assert_eq!(slot.message(), "fake");
}

#[test]
fn failure_is_reported_to_the_caller() {
    let mut slot = SlotState::loading("starting");
    slot.fail("no network");
    assert_eq!(
        slot,
        SlotState::Failed {
            reason: "no network".into()
        }
    );
    assert_eq!(slot.message(), "no network");
}

#[test]
fn a_late_failure_cannot_unseat_a_working_engine() {
    let mut slot = SlotState::ready("fake");
    slot.fail("too late");
    slot.set_progress("also too late");
    assert!(slot.is_ready());
    assert_eq!(slot.message(), "fake");
}

#[test]
fn progress_after_a_failure_resumes_loading() {
    let mut slot = SlotState::loading("starting");
    slot.fail("no network");
    slot.set_progress("retrying");
    assert_eq!(slot, SlotState::Loading { message: "retrying".into() });
}
