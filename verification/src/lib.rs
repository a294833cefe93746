use vstd::prelude::*;

pub mod asr;
pub mod audio;
pub mod chars;
pub mod config;
pub mod hotkey;
pub mod hud;
pub mod inject;
pub mod model;
pub mod session;
pub mod text;

verus! {

} // verus!
