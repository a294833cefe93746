//! Hold-to-talk: turning the talk key's raw keyboard messages into presses
//! and releases.
//!
//! The keyboard hook itself is platform code in the application. A held key
//! auto-repeats its "down" message many times a second; what is decided here
//! is which messages count.

use vstd::prelude::*;

use crate::chars::{chars_of, str_eq_chars};

verus! {

#[derive(Clone, Copy, Debug, PartialEq, Eq)]
pub enum PttEvent {
    Pressed,
    Released,
}

/// Default hold-to-talk key: Right Ctrl.
pub const PTT_KEY_NAME: &'static str = "Right Ctrl";

/// The keys that can be held to talk, as the `hotkey` setting names them.
#[derive(Clone, Copy, Debug, PartialEq, Eq)]
pub enum PttKey {
    RightCtrl,
    RightAlt,
    RightShift,
    CapsLock,
    F13,
}

/// The key a `hotkey` setting names: "right-ctrl", "right-alt",
/// "right-shift", "caps-lock" or "f13"; none for anything else.
pub open spec fn key_for(id: Seq<char>) -> Option<PttKey> {
    if id == "right-ctrl"@ {
        Some(PttKey::RightCtrl)
    } else if id == "right-alt"@ {
        Some(PttKey::RightAlt)
    } else if id == "right-shift"@ {
        Some(PttKey::RightShift)
    } else if id == "caps-lock"@ {
        Some(PttKey::CapsLock)
    } else if id == "f13"@ {
        Some(PttKey::F13)
    } else {
        None
    }
}

impl PttKey {
    /// The key a `hotkey` setting names, if it names one.
    pub fn from_setting(id: &str) -> (r: Option<PttKey>)
        ensures
            r == key_for(id@),
    {
        let v = chars_of(id);
        if str_eq_chars("right-ctrl", &v) {
            Some(PttKey::RightCtrl)
        } else if str_eq_chars("right-alt", &v) {
            Some(PttKey::RightAlt)
        } else if str_eq_chars("right-shift", &v) {
            Some(PttKey::RightShift)
        } else if str_eq_chars("caps-lock", &v) {
            Some(PttKey::CapsLock)
        } else if str_eq_chars("f13", &v) {
            Some(PttKey::F13)
        } else {
            None
        }
    }

    /// How the key is named to people.
    pub fn name(&self) -> (r: &'static str)
        ensures
            r@ == match *self {
                PttKey::RightCtrl => "Right Ctrl"@,
                PttKey::RightAlt => "Right Alt"@,
                PttKey::RightShift => "Right Shift"@,
                PttKey::CapsLock => "Caps Lock"@,
                PttKey::F13 => "F13"@,
            },
    {
        match self {
            PttKey::RightCtrl => "Right Ctrl",
            PttKey::RightAlt => "Right Alt",
            PttKey::RightShift => "Right Shift",
            PttKey::CapsLock => "Caps Lock",
            PttKey::F13 => "F13",
        }
    }
}

impl Default for PttKey {
    fn default() -> (r: PttKey)
        ensures
            r == PttKey::RightCtrl,
    {
        PttKey::RightCtrl
    }
}

/// What one keyboard message for the talk key does, given whether the key is
/// already held: the first "down" presses it, an "up" while held releases
/// it, anything else changes nothing.
pub open spec fn key_step(down: bool, is_down: bool, is_up: bool) -> (bool, Option<PttEvent>) {
    if is_down && !down {
        (true, Some(PttEvent::Pressed))
    } else if is_down {
        (true, None)
    } else if is_up && down {
        (false, Some(PttEvent::Released))
    } else {
        (down, None)
    }
}

/// Whether the talk key is held, as far as the messages seen so far tell.
pub struct KeyState {
    down: bool,
}

impl KeyState {
    pub closed spec fn is_down(&self) -> bool {
        self.down
    }

    /// The key starts out up.
    pub fn new() -> (r: KeyState)
        ensures
            !r.is_down(),
    {
        KeyState { down: false }
    }

    /// Feed one keyboard message for the talk key; returns the event it
    /// causes, if any.
    pub fn on_message(&mut self, is_down: bool, is_up: bool) -> (r: Option<PttEvent>)
        ensures
            (final(self).is_down(), r) == key_step(old(self).is_down(), is_down, is_up),
    {
        if is_down && !self.down {
            self.down = true;
            Some(PttEvent::Pressed)
        } else if is_down {
            None
        } else if is_up && self.down {
            self.down = false;
            Some(PttEvent::Released)
        } else {
            None
        }
    }
}

/// Feeding `msgs` (each a down flag and an up flag) to a key that starts up:
/// whether it ends held, and the events emitted, in order.
pub open spec fn key_run(msgs: Seq<(bool, bool)>) -> (bool, Seq<PttEvent>)
    decreases msgs.len(),
{
    if msgs.len() == 0 {
        (false, Seq::empty())
    } else {
        let (down, events) = key_run(msgs.drop_last());
        let (down2, e) = key_step(down, msgs.last().0, msgs.last().1);
        (
            down2,
            match e {
                Some(ev) => events.push(ev),
                None => events,
            },
        )
    }
}

/// However the messages arrive, presses and releases alternate, starting
/// with a press, and the key is held exactly when the last event was a press.
pub proof fn lemma_events_alternate(msgs: Seq<(bool, bool)>)
    ensures
        forall|i: int|
            0 <= i < key_run(msgs).1.len() ==> #[trigger] key_run(msgs).1[i] == if i % 2 == 0 {
                PttEvent::Pressed
            } else {
                PttEvent::Released
            },
        key_run(msgs).0 == (key_run(msgs).1.len() % 2 == 1),
    decreases msgs.len(),
{
    if msgs.len() > 0 {
        lemma_events_alternate(msgs.drop_last());
        let (down, events) = key_run(msgs.drop_last());
        assert forall|i: int|
            0 <= i < key_run(msgs).1.len() implies #[trigger] key_run(msgs).1[i] == if i % 2 == 0 {
            PttEvent::Pressed
        } else {
            PttEvent::Released
        } by {
            if i < events.len() {
                assert(key_run(msgs).1[i] == events[i]);
            }
        }
    }
}

} // verus!
