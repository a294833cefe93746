//! How transcribed text reaches the focused window.
//!
//! The clipboard and the synthesized keystrokes are the application's; what
//! is decided here is whether anything is sent, and how.

use vstd::prelude::*;

use crate::config::PasteMode;

verus! {

/// How the text should arrive in the focused app.
#[derive(Clone, Copy, Debug, PartialEq, Eq)]
pub enum Delivery {
    /// Clipboard plus Ctrl+V. Instant regardless of length, and correct for
    /// any character the keyboard layout cannot type.
    Paste,
    /// Synthesized keystrokes, for apps that ignore or block paste.
    Type,
}

impl Default for Delivery {
    fn default() -> (r: Delivery)
        ensures
            r == Delivery::Paste,
    {
        Delivery::Paste
    }
}

/// Decide how `text` is given to the focused window: not at all when it is
/// empty (no clipboard, no synthetic keys, no error), otherwise the way `how`
/// says. The clipboard and the keystrokes themselves are the caller's.
pub fn deliver(text: &str, how: Delivery) -> (r: Option<Delivery>)
    ensures
        r == if text@.len() == 0 {
            None
        } else {
            Some(how)
        },
{
    if text.is_empty() {
        None
    } else {
        Some(how)
    }
}

/// The delivery a paste mode from the settings asks for.
pub fn delivery_for(mode: PasteMode) -> (r: Delivery)
    ensures
        r == match mode {
            PasteMode::Paste => Delivery::Paste,
            PasteMode::Type => Delivery::Type,
        },
{
    match mode {
        PasteMode::Paste => Delivery::Paste,
        PasteMode::Type => Delivery::Type,
    }
}

} // verus!
