//! Speech to text: what a decode hands back, how the recognizer is
//! configured, and the state of an engine that may not be loaded yet.

use vstd::prelude::*;

use crate::chars::{all_ws, chars_of, is_blank, string_of};
use crate::model::ModelPaths;

verus! {

/// The sample rate every engine here works at.
pub const TARGET_SAMPLE_RATE: u32 = 16000;

#[derive(Clone, Debug, Default, PartialEq, Eq)]
pub struct Transcript {
    pub text: String,
}

impl Transcript {
    pub fn new(text: &str) -> (r: Transcript)
        ensures
            r.text@ == text@,
    {
        Transcript { text: string_of(&chars_of(text)) }
    }

    /// Nothing but whitespace was decoded.
    pub fn is_empty(&self) -> (r: bool)
        ensures
            r == all_ws(self.text@),
    {
        is_blank(&chars_of(self.text.as_str()))
    }
}

/// Stands in for a real engine: echoes how long the key was held.
pub struct FakeEngine;

impl FakeEngine {
    /// The transcript the stand-in engine gives for a clip lasting `seconds`
    /// (already written out, to one decimal).
    pub fn transcript_for(seconds: &str) -> (r: Transcript)
        ensures
            r.text@ == "Hello from Noma ("@ + seconds@ + "s)"@,
    {
        let mut text = String::from_str("Hello from Noma (");
        text.append(seconds);
        text.append("s)");
        Transcript { text }
    }
}

#[derive(Clone, Debug)]
pub struct ParakeetConfig {
    pub paths: ModelPaths,
    /// ONNX Runtime execution provider: "cpu", "cuda", or "directml".
    pub provider: String,
    pub threads: i32,
}

impl ParakeetConfig {
    /// A configuration that always asks for at least one thread.
    pub fn new(paths: ModelPaths, provider: &str, threads: i32) -> (r: ParakeetConfig)
        ensures
            r.paths == paths,
            r.provider@ == provider@,
            r.threads == if threads >= 1 {
                threads
            } else {
                1
            },
    {
        ParakeetConfig {
            paths,
            provider: string_of(&chars_of(provider)),
            threads: if threads >= 1 {
                threads
            } else {
                1
            },
        }
    }
}

impl ParakeetConfig {
    /// What the recognizer this configures is called in the UI, e.g.
    /// "Parakeet on cpu".
    pub fn label(&self) -> (r: String)
        ensures
            r@ == "Parakeet on "@ + self.provider@,
    {
        let mut label = String::from_str("Parakeet on ");
        label.append(self.provider.as_str());
        label
    }
}

/// Where an engine that may not exist yet stands.
///
/// The first run spends minutes downloading the model while the HUD, the tray
/// and the hotkey are live; they hold one of these, which can answer "not
/// yet" without any of them knowing about downloads.
#[derive(Clone, Debug, PartialEq, Eq)]
pub enum SlotState {
    /// Still getting ready, with a line to show.
    Loading { message: String },
    /// Ready to decode, with the engine's label, e.g. "Parakeet on cpu".
    Ready { label: String },
    /// Gave up, with the reason.
    Failed { reason: String },
}

impl SlotState {
    /// A slot that is not ready yet, showing `message`.
    pub fn loading(message: &str) -> (r: SlotState)
        ensures
            r matches SlotState::Loading { message: m } && m@ == message@,
    {
        SlotState::Loading { message: string_of(&chars_of(message)) }
    }

    /// A slot that already holds an engine.
    pub fn ready(label: &str) -> (r: SlotState)
        ensures
            r matches SlotState::Ready { label: l } && l@ == label@,
    {
        SlotState::Ready { label: string_of(&chars_of(label)) }
    }

    /// Update what is shown while loading. Ignored once an engine is in; a
    /// failed slot goes back to loading.
    pub fn set_progress(&mut self, message: &str)
        ensures
            *old(self) is Ready ==> *final(self) == *old(self),
            !(*old(self) is Ready) ==> (*final(self) matches SlotState::Loading { message: m } && m@
                == message@),
    {
        if !self.is_ready() {
            *self = SlotState::Loading { message: string_of(&chars_of(message)) };
        }
    }

    /// Hand over the engine. From here on decoding works.
    pub fn install(&mut self, label: &str)
        ensures
            *final(self) matches SlotState::Ready { label: l } && l@ == label@,
    {
        *self = SlotState::Ready { label: string_of(&chars_of(label)) };
    }

    /// Record that the engine will never arrive, and why. A late failure
    /// cannot unseat a working engine.
    pub fn fail(&mut self, reason: &str)
        ensures
            *old(self) is Ready ==> *final(self) == *old(self),
            !(*old(self) is Ready) ==> (*final(self) matches SlotState::Failed { reason: m } && m@
                == reason@),
    {
        if !self.is_ready() {
            *self = SlotState::Failed { reason: string_of(&chars_of(reason)) };
        }
    }

    pub fn is_ready(&self) -> (r: bool)
        ensures
            r == (*self is Ready),
    {
        match self {
            SlotState::Ready { .. } => true,
            _ => false,
        }
    }

    /// The line to put in front of the user: the loading message, the
    /// engine's label, or the reason it failed.
    pub fn message(&self) -> (r: String)
        ensures
            r@ == match *self {
                SlotState::Loading { message } => message@,
                SlotState::Ready { label } => label@,
                SlotState::Failed { reason } => reason@,
            },
    {
        match self {
            SlotState::Loading { message } => string_of(&chars_of(message.as_str())),
            SlotState::Ready { label } => string_of(&chars_of(label.as_str())),
            SlotState::Failed { reason } => string_of(&chars_of(reason.as_str())),
        }
    }
}

} // verus!
