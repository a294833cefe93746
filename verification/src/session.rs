//! The dictation loop's decisions: key down, record, decode, deliver.
//!
//! The loop itself runs in the application, which owns the recorder, the
//! engine, the clipboard and the threads. It tells a [`SessionState`] what
//! just happened and carries out the action it gets back, so every decision
//! the loop makes is taken here.

use vstd::prelude::*;

use crate::hud::{is_silence_phase, silence_phase, Phase};

verus! {

/// Something that happened to a dictation.
#[derive(Clone, Debug, PartialEq, Eq)]
pub enum SessionEvent {
    /// The talk key went down. `status` is the engine's status line.
    Pressed { engine_ready: bool, status: String },
    /// The recorder started capturing.
    CaptureStarted,
    /// The recorder could not start; `error` says why.
    CaptureFailed { error: String },
    /// The talk key came up.
    Released,
    /// The recorder could not hand back what it captured.
    StopFailed { error: String },
    /// The recorder stopped. `silent` is a clip too short or too quiet to be
    /// speech, `tap` one shorter than a deliberate hold, and `device` the
    /// microphone it came from.
    Stopped { silent: bool, tap: bool, device: String },
    /// The engine decoded `raw`, which the text stage turned into `text`.
    Decoded { raw: String, text: String },
    /// The engine failed.
    DecodeFailed { error: String },
    /// The text reached the focused window.
    Delivered,
    /// The text could not be delivered.
    DeliveryFailed { error: String },
    /// A partial decode of what has been said so far.
    Partial { text: String },
}

/// What the loop does next.
#[derive(Clone, Debug, PartialEq, Eq)]
pub enum SessionAction {
    Nothing,
    /// Start the recorder.
    StartCapture,
    /// Start decoding what has been said so far, over and over, until the
    /// key comes up.
    StartPartials,
    /// Stop the recorder and hand over the clip.
    StopCapture,
    /// Decode the clip.
    Transcribe,
    /// Give `text` to the focused window.
    Deliver(String),
    /// Add a dictation to the history.
    Record { raw: String, text: String },
}

/// Where a dictation stands, and what the display shows of it.
#[derive(Clone, Debug, PartialEq, Eq)]
pub struct SessionState {
    /// Whether partial decodes run while the key is held.
    pub partials: bool,
    /// True between key down and key up.
    pub capturing: bool,
    /// True while a final decode and its delivery are in flight; a press is
    /// ignored meanwhile.
    pub busy: bool,
    pub phase: Phase,
    /// The latest partial decode, while the key is held.
    pub partial: String,
    /// The last text delivered.
    pub last: String,
    /// A decoded dictation waiting for its delivery: what was heard, and
    /// the text made of it.
    pub pending: Option<(String, String)>,
}

/// `phase` is an error that reads `prefix` followed by `detail`.
pub open spec fn error_reads(phase: Phase, prefix: Seq<char>, detail: Seq<char>) -> bool {
    phase matches Phase::Error(m) && m@ == prefix + detail
}

/// `s` is `t` with only `phase`, `partial` and `busy` free to differ.
pub open spec fn same_but_display(s: SessionState, t: SessionState) -> bool {
    &&& s.partials == t.partials
    &&& s.capturing == t.capturing
    &&& s.last == t.last
    &&& s.pending == t.pending
}

fn joined(prefix: &str, detail: &str) -> (r: String)
    ensures
        r@ == prefix@ + detail@,
{
    let mut m = String::from_str(prefix);
    m.append(detail);
    m
}

/// `s` goes to `t` on `event`, and `a` is what the loop does about it.
pub open spec fn steps_to(s: SessionState, event: SessionEvent, t: SessionState, a: SessionAction) -> bool {
    &&& t.partials == s.partials
    &&& match event {
        SessionEvent::Pressed { engine_ready, status } => if s.busy {
            // A second press during a decode is ignored.
            t == s && a == SessionAction::Nothing
        } else if !engine_ready {
            // Say so up front rather than recording into a void.
            same_but_display(t, s) && t.busy == s.busy && t.partial == s.partial
                && error_reads(t.phase, Seq::empty(), status@) && a == SessionAction::Nothing
        } else {
            t == s && a == SessionAction::StartCapture
        },
        SessionEvent::CaptureStarted => {
            &&& t.capturing
            &&& t.busy == s.busy
            &&& t.phase == Phase::Listening
            &&& t.partial@.len() == 0
            &&& t.last == s.last
            &&& t.pending == s.pending
            &&& a == if s.partials {
                SessionAction::StartPartials
            } else {
                SessionAction::Nothing
            }
        },
        SessionEvent::CaptureFailed { error } => {
            &&& same_but_display(t, s)
            &&& t.busy == s.busy
            &&& t.partial == s.partial
            &&& error_reads(t.phase, "mic: "@, error@)
            &&& a == SessionAction::Nothing
        },
        SessionEvent::Released => if !s.capturing {
            // Nothing was being captured: nothing to stop.
            t == s && a == SessionAction::Nothing
        } else {
            &&& !t.capturing
            &&& t.busy == s.busy
            &&& t.phase == s.phase
            &&& t.partial == s.partial
            &&& t.last == s.last
            &&& t.pending == s.pending
            &&& a == SessionAction::StopCapture
        },
        SessionEvent::StopFailed { error } => {
            &&& same_but_display(t, s)
            &&& t.busy == s.busy
            &&& t.partial == s.partial
            &&& error_reads(t.phase, "mic stop: "@, error@)
            &&& a == SessionAction::Nothing
        },
        SessionEvent::Stopped { silent, tap, device } => if silent {
            // A tap, or a hold with nothing said into it.
            &&& same_but_display(t, s)
            &&& t.busy == s.busy
            &&& is_silence_phase(t.phase, tap, device@)
            &&& t.partial@.len() == 0
            &&& a == SessionAction::Nothing
        } else {
            &&& same_but_display(t, s)
            &&& t.busy
            &&& t.phase == Phase::Transcribing
            &&& t.partial == s.partial
            &&& a == SessionAction::Transcribe
        },
        SessionEvent::Decoded { raw, text } => if text@.len() == 0 {
            // Decoded nothing worth sending.
            &&& t.capturing == s.capturing
            &&& t.last == s.last
            &&& t.pending is None
            &&& !t.busy
            &&& t.phase == Phase::Idle
            &&& t.partial@.len() == 0
            &&& a == SessionAction::Nothing
        } else {
            &&& t.capturing == s.capturing
            &&& t.last == s.last
            &&& t.busy == s.busy
            &&& t.phase == s.phase
            &&& t.partial == s.partial
            &&& t.pending matches Some((h, t)) && h@ == raw@ && t@ == text@
            &&& a matches SessionAction::Deliver(t) && t@ == text@
        },
        SessionEvent::DecodeFailed { error } => {
            &&& t.capturing == s.capturing
            &&& t.last == s.last
            &&& t.pending is None
            &&& !t.busy
            &&& error_reads(t.phase, Seq::empty(), error@)
            &&& t.partial@.len() == 0
            &&& a == SessionAction::Nothing
        },
        SessionEvent::Delivered => match s.pending {
            // The text landed: keep it, and show it as the last one.
            Some((raw, text)) => {
                &&& t.capturing == s.capturing
                &&& t.last == text
                &&& t.pending is None
                &&& !t.busy
                &&& t.phase == Phase::Idle
                &&& t.partial@.len() == 0
                &&& a == (SessionAction::Record { raw, text })
            },
            None => t == s && a == SessionAction::Nothing,
        },
        SessionEvent::DeliveryFailed { error } => match s.pending {
            // The text is still worth keeping even if it did not land.
            Some((raw, text)) => {
                &&& t.capturing == s.capturing
                &&& t.last == s.last
                &&& t.pending is None
                &&& !t.busy
                &&& error_reads(t.phase, "paste: "@, error@)
                &&& t.partial@.len() == 0
                &&& a == (SessionAction::Record { raw, text })
            },
            None => t == s && a == SessionAction::Nothing,
        },
        SessionEvent::Partial { text } => if s.capturing {
            &&& same_but_display(t, s)
            &&& t.busy == s.busy
            &&& t.phase == s.phase
            &&& t.partial@ == text@
            &&& a == SessionAction::Nothing
        } else {
            // The key came up mid-decode: the final result owns the
            // text from here.
            t == s && a == SessionAction::Nothing
        },
    }
}

/// How long to wait before the next partial decode, in nanoseconds: the
/// configured floor, or as long as the last pass took if that was longer,
/// so a slow pass never queues up behind itself and decoding never takes
/// more time than waiting.
pub fn partial_wait(floor_ns: u64, last_pass_ns: u64) -> (r: u64)
    ensures
        r == if last_pass_ns > floor_ns {
            last_pass_ns
        } else {
            floor_ns
        },
{
    if last_pass_ns > floor_ns {
        last_pass_ns
    } else {
        floor_ns
    }
}

/// A whole dictation with a ready engine, from key down to delivered text:
/// the recorder is started and stopped, the clip decoded, the processed
/// text delivered and then recorded with what was heard, and the session
/// ends idle, taking presses again, with that text as the last one.
pub proof fn lemma_a_dictation_delivers_and_records_its_text(
    s0: SessionState,
    s1: SessionState,
    s2: SessionState,
    s3: SessionState,
    s4: SessionState,
    s5: SessionState,
    s6: SessionState,
    a1: SessionAction,
    a2: SessionAction,
    a3: SessionAction,
    a4: SessionAction,
    a5: SessionAction,
    a6: SessionAction,
    status: String,
    tap: bool,
    device: String,
    raw: String,
    text: String,
)
    requires
        !s0.busy,
        steps_to(s0, (SessionEvent::Pressed { engine_ready: true, status }), s1, a1),
        steps_to(s1, SessionEvent::CaptureStarted, s2, a2),
        steps_to(s2, SessionEvent::Released, s3, a3),
        steps_to(s3, (SessionEvent::Stopped { silent: false, tap, device }), s4, a4),
        steps_to(s4, (SessionEvent::Decoded { raw, text }), s5, a5),
        steps_to(s5, SessionEvent::Delivered, s6, a6),
        text@.len() > 0,
    ensures
        a1 == SessionAction::StartCapture,
        a3 == SessionAction::StopCapture,
        a4 == SessionAction::Transcribe,
        a5 matches SessionAction::Deliver(t) && t@ == text@,
        a6 matches SessionAction::Record { raw: h, text: t } && h@ == raw@ && t@ == text@,
        s6.phase == Phase::Idle,
        !s6.busy,
        !s6.capturing,
        s6.last@ == text@,
        s6.partial@.len() == 0,
        s6.pending is None,
{
}

/// Text that was decoded is kept in the history whether or not it reached
/// the focused window.
pub proof fn lemma_decoded_text_is_always_recorded(
    s: SessionState,
    t: SessionState,
    u: SessionState,
    a: SessionAction,
    b: SessionAction,
    raw: String,
    text: String,
    outcome: SessionEvent,
)
    requires
        text@.len() > 0,
        outcome == SessionEvent::Delivered || outcome is DeliveryFailed,
        steps_to(s, (SessionEvent::Decoded { raw, text }), t, a),
        steps_to(t, outcome, u, b),
    ensures
        a matches SessionAction::Deliver(d) && d@ == text@,
        b matches SessionAction::Record { raw: h, text: x } && h@ == raw@ && x@ == text@,
        !u.busy,
        u.pending is None,
{
}

/// After the key comes up, a partial decode that finishes late changes
/// nothing: the final result owns the text.
pub proof fn lemma_a_late_partial_changes_nothing(
    s: SessionState,
    t: SessionState,
    u: SessionState,
    a: SessionAction,
    b: SessionAction,
    text: String,
)
    requires
        steps_to(s, SessionEvent::Released, t, a),
        steps_to(t, (SessionEvent::Partial { text }), u, b),
    ensures
        u == t,
        b == SessionAction::Nothing,
{
}

impl SessionState {
    /// An idle session; `partials` from the settings.
    pub fn new(partials: bool) -> (r: SessionState)
        ensures
            r.partials == partials,
            !r.capturing,
            !r.busy,
            r.phase == Phase::Idle,
            r.partial@.len() == 0,
            r.last@.len() == 0,
            r.pending is None,
    {
        SessionState {
            partials,
            capturing: false,
            busy: false,
            phase: Phase::Idle,
            partial: String::new(),
            last: String::new(),
            pending: None,
        }
    }

    /// Take in `event` and say what to do about it: see `steps_to`.
    pub fn step(&mut self, event: SessionEvent) -> (r: SessionAction)
        ensures
            steps_to(*old(self), event, *final(self), r),
    {
        match event {
            SessionEvent::Pressed { engine_ready, status } => {
                if self.busy {
                    SessionAction::Nothing
                } else if !engine_ready {
                    proof {
                        assert(Seq::<char>::empty() + status@ =~= status@);
                    }
                    self.phase = Phase::Error(status);
                    SessionAction::Nothing
                } else {
                    SessionAction::StartCapture
                }
            },
            SessionEvent::CaptureStarted => {
                self.capturing = true;
                self.phase = Phase::Listening;
                self.partial = String::new();
                if self.partials {
                    SessionAction::StartPartials
                } else {
                    SessionAction::Nothing
                }
            },
            SessionEvent::CaptureFailed { error } => {
                self.phase = Phase::Error(joined("mic: ", error.as_str()));
                SessionAction::Nothing
            },
            SessionEvent::Released => {
                if !self.capturing {
                    SessionAction::Nothing
                } else {
                    self.capturing = false;
                    SessionAction::StopCapture
                }
            },
            SessionEvent::StopFailed { error } => {
                self.phase = Phase::Error(joined("mic stop: ", error.as_str()));
                SessionAction::Nothing
            },
            SessionEvent::Stopped { silent, tap, device } => {
                if silent {
                    self.phase = silence_phase(tap, device.as_str());
                    self.partial = String::new();
                    SessionAction::Nothing
                } else {
                    self.busy = true;
                    self.phase = Phase::Transcribing;
                    SessionAction::Transcribe
                }
            },
            SessionEvent::Decoded { raw, text } => {
                if text.as_str().is_empty() {
                    self.pending = None;
                    self.finish(Phase::Idle);
                    SessionAction::Nothing
                } else {
                    let send = text.clone();
                    self.pending = Some((raw, text));
                    SessionAction::Deliver(send)
                }
            },
            SessionEvent::DecodeFailed { error } => {
                proof {
                    assert(Seq::<char>::empty() + error@ =~= error@);
                }
                self.pending = None;
                self.finish(Phase::Error(error));
                SessionAction::Nothing
            },
            SessionEvent::Delivered => {
                match self.pending.take() {
                    Some((raw, text)) => {
                        self.last = text.clone();
                        self.finish(Phase::Idle);
                        SessionAction::Record { raw, text }
                    },
                    None => SessionAction::Nothing,
                }
            },
            SessionEvent::DeliveryFailed { error } => {
                match self.pending.take() {
                    Some((raw, text)) => {
                        self.finish(Phase::Error(joined("paste: ", error.as_str())));
                        SessionAction::Record { raw, text }
                    },
                    None => SessionAction::Nothing,
                }
            },
            SessionEvent::Partial { text } => {
                if self.capturing {
                    self.partial = text;
                }
                SessionAction::Nothing
            },
        }
    }

    /// The end of a dictation: show `phase`, drop the partial text, and take
    /// presses again.
    fn finish(&mut self, phase: Phase)
        ensures
            final(self).phase == phase,
            final(self).partial@.len() == 0,
            !final(self).busy,
            final(self).partials == old(self).partials,
            final(self).capturing == old(self).capturing,
            final(self).last == old(self).last,
            final(self).pending == old(self).pending,
    {
        self.phase = phase;
        self.partial = String::new();
        self.busy = false;
    }
}

} // verus!
