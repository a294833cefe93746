//! The heads-up display's decisions: which phase it shows, what a dictation
//! that heard nothing reports, and how the mascot's frames are prepared and
//! picked. Drawing and windowing are the application's.

use vstd::prelude::*;

use crate::chars::{chars_of, string_of};
use crate::hotkey::PTT_KEY_NAME;

verus! {

/// Waveform bars across the pill.
pub const PEAK_BINS: usize = 48;

/// Width and height of a mascot source frame, in pixels.
pub const SRC: usize = 256;

/// Bytes in one RGBA mascot source frame.
pub const FRAME: usize = 262144;

#[derive(Clone, Debug, PartialEq, Eq)]
pub enum Phase {
    Idle,
    Listening,
    Transcribing,
    Error(String),
}

/// What a press of the talk key leads to.
#[derive(Clone, Debug, PartialEq, Eq)]
pub enum PressAction {
    /// A final decode is still running; the press is ignored.
    Ignore,
    /// The engine is not ready; say so rather than recording into a void.
    Refuse(Phase),
    /// Start recording.
    Record,
}

/// Decide what a press does: nothing while busy, an error carrying the
/// engine's status line while it is not ready, otherwise start recording.
pub fn press_action(busy: bool, engine_ready: bool, status_message: &str) -> (r: PressAction)
    ensures
        busy ==> r == PressAction::Ignore,
        !busy && !engine_ready ==> (r matches PressAction::Refuse(Phase::Error(m)) && m@
            == status_message@),
        !busy && engine_ready ==> r == PressAction::Record,
{
    if busy {
        PressAction::Ignore
    } else if !engine_ready {
        PressAction::Refuse(Phase::Error(string_of(&chars_of(status_message))))
    } else {
        PressAction::Record
    }
}

/// `r` is the phase after a release that recorded nothing worth
/// transcribing: idle after a tap, otherwise an error naming the device.
pub open spec fn is_silence_phase(r: Phase, is_tap: bool, device: Seq<char>) -> bool {
    if is_tap {
        r == Phase::Idle
    } else if device.len() == 0 {
        r matches Phase::Error(m) && m@ == "No sound from the microphone"@
    } else {
        r matches Phase::Error(m) && m@ == "No sound from "@ + device
    }
}

/// The phase after a release that recorded nothing worth transcribing.
///
/// A tap of the key is not worth an error. A real hold that recorded silence
/// means something is wrong, and saying nothing would look like a broken app,
/// so the device is named: the usual cause is that it is the wrong one.
pub fn silence_phase(is_tap: bool, device: &str) -> (r: Phase)
    ensures
        is_silence_phase(r, is_tap, device@),
{
    if is_tap {
        Phase::Idle
    } else if device.is_empty() {
        Phase::Error(String::from_str("No sound from the microphone"))
    } else {
        let mut m = String::from_str("No sound from ");
        m.append(device);
        Phase::Error(m)
    }
}

// ---------------------------------------------------------------------------
// The pill
// ---------------------------------------------------------------------------

/// Whether the pill is on screen: whenever there is something to show.
pub fn hud_visible(phase: &Phase) -> (r: bool)
    ensures
        r == !(*phase is Idle),
{
    !matches!(phase, Phase::Idle)
}

/// The pill's heading.
pub fn hud_title(phase: &Phase) -> (r: &'static str)
    ensures
        r@ == match *phase {
            Phase::Listening => "Listening"@,
            Phase::Transcribing => "Transcribing"@,
            Phase::Error(_) => "Error"@,
            Phase::Idle => "Noma"@,
        },
{
    match phase {
        Phase::Listening => "Listening",
        Phase::Transcribing => "Transcribing",
        Phase::Error(_) => "Error",
        Phase::Idle => "Noma",
    }
}

/// The colour the pill's waveform is drawn in, as red, green and blue.
pub fn hud_accent(phase: &Phase) -> (r: (u8, u8, u8))
    ensures
        r == match *phase {
            Phase::Listening => (46u8, 196u8, 184u8),
            Phase::Transcribing => (125u8, 211u8, 252u8),
            Phase::Error(_) => (248u8, 113u8, 113u8),
            Phase::Idle => (148u8, 163u8, 184u8),
        },
{
    match phase {
        Phase::Listening => (46, 196, 184),
        Phase::Transcribing => (125, 211, 252),
        Phase::Error(_) => (248, 113, 113),
        Phase::Idle => (148, 163, 184),
    }
}

/// The pill's second line: the error itself, the key being held, the
/// engine at work, or how to start.
pub fn hud_subtitle(phase: &Phase) -> (r: &str)
    ensures
        r@ == match *phase {
            Phase::Error(m) => m@,
            Phase::Listening => PTT_KEY_NAME@,
            Phase::Transcribing => "local engine"@,
            Phase::Idle => "hold Right Ctrl"@,
        },
{
    match phase {
        Phase::Error(message) => message.as_str(),
        Phase::Listening => PTT_KEY_NAME,
        Phase::Transcribing => "local engine",
        Phase::Idle => "hold Right Ctrl",
    }
}

/// How long "Preview HUD" holds the pill on screen.
pub const PREVIEW_MS: u64 = 3000;

/// How long an error stays on the pill.
pub const ERROR_MS: u64 = 2500;

/// When the pill's preview and its error display run out, in milliseconds
/// of a clock the caller keeps.
#[derive(Clone, Copy, Debug, PartialEq, Eq)]
pub struct HudTimers {
    pub preview_until: Option<u64>,
    pub error_until: Option<u64>,
}

impl HudTimers {
    pub fn new() -> (r: HudTimers)
        ensures
            r.preview_until is None,
            r.error_until is None,
    {
        HudTimers { preview_until: None, error_until: None }
    }

    /// "Preview HUD" from the tray at `now`: hold the pill up for
    /// `PREVIEW_MS`, showing it as listening unless a dictation is under way.
    pub fn preview(&mut self, now: u64, phase: &mut Phase)
        requires
            now + PREVIEW_MS <= u64::MAX,
        ensures
            final(self).preview_until == Some((now + PREVIEW_MS) as u64),
            final(self).error_until == old(self).error_until,
            *final(phase) == match *old(phase) {
                Phase::Idle | Phase::Error(_) => Phase::Listening,
                other => other,
            },
    {
        self.preview_until = Some(now + PREVIEW_MS);
        if matches!(phase, Phase::Idle | Phase::Error(_)) {
            *phase = Phase::Listening;
        }
    }

    /// Let the clock reach `now`. A preview that ran out takes a pill that
    /// still shows it back to idle. An error gets `ERROR_MS` on screen from
    /// the first tick that sees it, and then gives way to idle.
    pub fn tick(&mut self, now: u64, phase: &mut Phase)
        requires
            now + ERROR_MS <= u64::MAX,
        ensures
            ({
                let p1 = match old(self).preview_until {
                    Some(until) => if now >= until && *old(phase) is Listening {
                        Phase::Idle
                    } else {
                        *old(phase)
                    },
                    None => *old(phase),
                };
                let preview1 = match old(self).preview_until {
                    Some(until) => if now >= until {
                        None
                    } else {
                        Some(until)
                    },
                    None => None,
                };
                let error1 = if p1 is Error && old(self).error_until is None {
                    Some((now + ERROR_MS) as u64)
                } else {
                    old(self).error_until
                };
                &&& final(self).preview_until == preview1
                &&& match error1 {
                    Some(until) => if now >= until {
                        &&& final(self).error_until is None
                        &&& *final(phase) == if p1 is Error {
                            Phase::Idle
                        } else {
                            p1
                        }
                    } else {
                        final(self).error_until == error1 && *final(phase) == p1
                    },
                    None => final(self).error_until is None && *final(phase) == p1,
                }
            }),
    {
        if let Some(until) = self.preview_until {
            if now >= until {
                self.preview_until = None;
                if matches!(phase, Phase::Listening) {
                    *phase = Phase::Idle;
                }
            }
        }
        if let Phase::Error(_) = phase {
            if self.error_until.is_none() {
                self.error_until = Some(now + ERROR_MS);
            }
        }
        if let Some(until) = self.error_until {
            if now >= until {
                self.error_until = None;
                if matches!(phase, Phase::Error(_)) {
                    *phase = Phase::Idle;
                }
            }
        }
    }
}

/// Width and height of the tray icon, in pixels.
pub const TRAY_ICON_SIZE: usize = 32;

/// Pixel (`x`, `y`) of the tray icon lies on its disc: within 13 pixels of
/// the icon's centre, measured between pixel centres.
pub open spec fn on_tray_disc(x: int, y: int) -> bool {
    (2 * x - 31) * (2 * x - 31) + (2 * y - 31) * (2 * y - 31) < 676
}

/// Pixel `q` of the tray icon holds the teal of the disc where it lies on
/// it, and transparent black elsewhere.
pub open spec fn tray_pixel(rgba: Seq<u8>, q: int) -> bool {
    let on = on_tray_disc(q % 32, q / 32);
    &&& rgba[4 * q] == (if on { 0x2Eu8 } else { 0u8 })
    &&& rgba[4 * q + 1] == (if on { 0xC4u8 } else { 0u8 })
    &&& rgba[4 * q + 2] == (if on { 0xB8u8 } else { 0u8 })
    &&& rgba[4 * q + 3] == (if on { 255u8 } else { 0u8 })
}

/// The tray icon: a teal disc on a transparent square, as RGBA rows.
pub fn tray_icon_rgba() -> (r: Vec<u8>)
    ensures
        r@.len() == 32 * 32 * 4,
        forall|q: int| 0 <= q < 32 * 32 ==> tray_pixel(r@, q),
{
    let mut rgba = vec![0u8; 4096];
    let mut y: usize = 0;
    while y < 32
        invariant
            rgba@.len() == 4096,
            y <= 32,
            forall|q: int| 0 <= q < y * 32 ==> tray_pixel(rgba@, q),
            forall|i: int| y * 128 <= i < 4096 ==> rgba@[i] == 0u8,
        decreases 32 - y,
    {
        let mut x: usize = 0;
        while x < 32
            invariant
                rgba@.len() == 4096,
                y < 32,
                x <= 32,
                forall|q: int| 0 <= q < y * 32 + x ==> tray_pixel(rgba@, q),
                forall|i: int| (y * 32 + x) * 4 <= i < 4096 ==> rgba@[i] == 0u8,
            decreases 32 - x,
        {
            let dx = 2 * (x as i32) - 31;
            let dy = 2 * (y as i32) - 31;
            let i = (y * 32 + x) * 4;
            let ghost q = (y * 32 + x) as int;
            proof {
                vstd::arithmetic::div_mod::lemma_fundamental_div_mod_converse(
                    q,
                    32,
                    y as int,
                    x as int,
                );
            }
            assert(-31 <= dx <= 31 && -31 <= dy <= 31);
            assert(0 <= dx * dx <= 961 && 0 <= dy * dy <= 961) by (nonlinear_arith)
                requires
                    -31 <= dx <= 31,
                    -31 <= dy <= 31,
            ;
            let ghost before = rgba@;
            if dx * dx + dy * dy < 676 {
                rgba.set(i, 0x2E);
                rgba.set(i + 1, 0xC4);
                rgba.set(i + 2, 0xB8);
                rgba.set(i + 3, 255);
            }
            assert(tray_pixel(rgba@, q));
            assert forall|q2: int| 0 <= q2 < q + 1 implies tray_pixel(rgba@, q2) by {
                if q2 < q {
                    assert(tray_pixel(before, q2));
                }
            }
            x += 1;
        }
        y += 1;
    }
    rgba
}

// ---------------------------------------------------------------------------
// Mascot frames
// ---------------------------------------------------------------------------

/// `v` plus 40, stopping at 255.
pub open spec fn plus40(v: u8) -> int {
    if v as int + 40 > 255 {
        255
    } else {
        v as int + 40
    }
}

/// Leftover chroma green: bright, and well clear of red and blue. The
/// mascot is purple and cyan, so green is safe to punch out.
pub open spec fn is_chroma_green(r: u8, g: u8, b: u8) -> bool {
    g > 160 && g > plus40(r) && g > plus40(b)
}

/// `bytes` with the alpha of every chroma-green pixel set to zero. Bytes
/// after the last whole pixel are left alone.
pub open spec fn punched(bytes: Seq<u8>) -> Seq<u8> {
    Seq::new(
        bytes.len(),
        |i: int|
            if i % 4 == 3 && i < bytes.len() / 4 * 4 && is_chroma_green(
                bytes[i - 3],
                bytes[i - 2],
                bytes[i - 1],
            ) {
                0u8
            } else {
                bytes[i]
            },
    )
}

fn sat_plus40(v: u8) -> (r: u16)
    ensures
        r == plus40(v),
{
    if v > 215 {
        255
    } else {
        v as u16 + 40
    }
}

/// Punch leftover chroma green out of RGBA pixels.
pub fn punch_green(bytes: &mut Vec<u8>)
    ensures
        final(bytes)@ == punched(old(bytes)@),
{
    let ghost orig = bytes@;
    let blen = bytes.len();
    let pixels = bytes.len() / 4;
    let mut p: usize = 0;
    while p < pixels
        invariant
            blen == orig.len(),
            pixels == orig.len() / 4,
            bytes@.len() == orig.len(),
            p <= pixels,
            forall|i: int| 0 <= i < p * 4 ==> #[trigger] bytes@[i] == punched(orig)[i],
            forall|i: int| p * 4 <= i < orig.len() ==> #[trigger] bytes@[i] == orig[i],
        decreases pixels - p,
    {
        assert(p * 4 + 3 < blen);
        let i = p * 4;
        let r = bytes[i];
        let g = bytes[i + 1];
        let b = bytes[i + 2];
        if g > 160 && (g as u16) > sat_plus40(r) && (g as u16) > sat_plus40(b) {
            bytes.set(i + 3, 0);
        }
        assert forall|j: int| 0 <= j < (p + 1) * 4 implies #[trigger] bytes@[j] == punched(orig)[j] by {
            if j >= p * 4 {
                assert(j < orig.len() / 4 * 4);
                assert(j % 4 == 3 ==> j == p * 4 + 3);
            }
        }
        p += 1;
    }
    assert(bytes@ =~= punched(orig));
}

/// The bytes `v[from..to]`.
fn slice_bytes(v: &Vec<u8>, from: usize, to: usize) -> (r: Vec<u8>)
    requires
        from <= to <= v.len(),
    ensures
        r@ == v@.subrange(from as int, to as int),
{
    let mut out: Vec<u8> = Vec::new();
    let mut i = from;
    while i < to
        invariant
            from <= i <= to <= v.len(),
            out@ == v@.subrange(from as int, i as int),
        decreases to - i,
    {
        out.push(v[i]);
        assert(v@.subrange(from as int, i + 1) =~= v@.subrange(from as int, i as int).push(
            v@[i as int],
        ));
        i += 1;
    }
    out
}

/// An animation: one or more RGBA frames.
pub struct Clip {
    frames: Vec<Vec<u8>>,
}

impl Clip {
    #[verifier::type_invariant]
    spec fn inv(self) -> bool {
        self.frames@.len() >= 1
    }

    pub closed spec fn frames_spec(self) -> Seq<Vec<u8>> {
        self.frames@
    }

    /// Cut a file's worth of frames, back to back, into a clip. Too short
    /// for one frame is no clip; whatever trails the last whole frame is
    /// dropped.
    pub fn from_bytes(bytes: Vec<u8>) -> (r: Option<Clip>)
        ensures
            bytes@.len() < FRAME ==> r is None,
            bytes@.len() >= FRAME ==> (r matches Some(c) && c.frames_spec().len() == bytes@.len() as int
                / FRAME as int && forall|i: int|
                0 <= i < c.frames_spec().len() ==> (#[trigger] c.frames_spec()[i])@ == punched(
                    bytes@,
                ).subrange(i * FRAME, (i + 1) * FRAME)),
    {
        let mut bytes = bytes;
        if bytes.len() < FRAME {
            return None;
        }
        let ghost punched_bytes = punched(bytes@);
        punch_green(&mut bytes);
        let blen = bytes.len();
        let count = bytes.len() / FRAME;
        let mut frames: Vec<Vec<u8>> = Vec::new();
        let mut i: usize = 0;
        while i < count
            invariant
                blen == bytes@.len(),
                bytes@ == punched_bytes,
                count == bytes@.len() as int / FRAME as int,
                i <= count,
                frames@.len() == i,
                forall|j: int|
                    0 <= j < i ==> (#[trigger] frames@[j])@ == punched_bytes.subrange(
                        j * FRAME,
                        (j + 1) * FRAME,
                    ),
            decreases count - i,
        {
            assert((i + 1) * FRAME <= count * FRAME) by (nonlinear_arith)
                requires
                    i < count,
            ;
            assert(count * FRAME <= bytes@.len()) by (nonlinear_arith)
                requires
                    count == bytes@.len() as int / FRAME as int,
            ;
            frames.push(slice_bytes(&bytes, i * FRAME, (i + 1) * FRAME));
            i += 1;
        }
        Some(Clip { frames })
    }
}

/// Load a single frame: too short is nothing, anything past one frame is cut.
pub fn frame_from_bytes(bytes: Vec<u8>) -> (r: Option<Vec<u8>>)
    ensures
        bytes@.len() < FRAME ==> r is None,
        bytes@.len() >= FRAME ==> (r matches Some(f) && f@ == punched(bytes@.take(FRAME as int))),
{
    let mut bytes = bytes;
    if bytes.len() < FRAME {
        return None;
    }
    bytes.truncate(FRAME);
    punch_green(&mut bytes);
    Some(bytes)
}

/// Which frame a clip shows at `tick`: the animation loops.
pub open spec fn looped(frames: Seq<Vec<u8>>, tick: int) -> Seq<u8> {
    frames[tick % frames.len() as int]@
}

/// Which frame the poke animation shows at `tick`: it stops on its last frame.
pub open spec fn held(frames: Seq<Vec<u8>>, tick: int) -> Seq<u8> {
    frames[if tick < frames.len() - 1 {
        tick
    } else {
        frames.len() - 1
    }]@
}

/// The pixels to show: the poke animation while one is running, otherwise the
/// clip for the phase (listening, transcribing, or idle for anything else) at
/// `tick`, otherwise the still picture.
pub fn pick_pixels<'a>(
    phase: &Phase,
    poke_tick: Option<usize>,
    tick: usize,
    still: &'a [u8],
    idle: Option<&'a Clip>,
    listen: Option<&'a Clip>,
    transcribe: Option<&'a Clip>,
    poke: Option<&'a Clip>,
) -> (r: &'a [u8])
    ensures
        (poke_tick is Some && poke is Some) ==> r@ == held(
            poke->0.frames_spec(),
            poke_tick->0 as int,
        ),
        !(poke_tick is Some && poke is Some) ==> {
            let clip = match *phase {
                Phase::Listening => listen,
                Phase::Transcribing => transcribe,
                _ => idle,
            };
            &&& clip matches Some(c) ==> r@ == looped(c.frames_spec(), tick as int)
            &&& clip is None ==> r@ == still@
        },
{
    if let Some(started) = poke_tick {
        if let Some(clip) = poke {
            proof {
                use_type_invariant(clip);
            }
            let last = clip.frames.len() - 1;
            let i = if started < last {
                started
            } else {
                last
            };
            return clip.frames[i].as_slice();
        }
    }
    let clip = match phase {
        Phase::Listening => listen,
        Phase::Transcribing => transcribe,
        _ => idle,
    };
    if let Some(clip) = clip {
        proof {
            use_type_invariant(clip);
        }
        let i = tick % clip.frames.len();
        return clip.frames[i].as_slice();
    }
    still
}

/// A frame of transparent black, shown when the still picture is missing.
pub open spec fn blank_frame() -> Seq<u8> {
    Seq::new(FRAME as nat, |i: int| 0u8)
}

/// The still picture a file's bytes give: its first frame with the chroma
/// green punched out, or a blank frame when the file was missing or short.
pub open spec fn still_from(file: Option<Vec<u8>>) -> Seq<u8> {
    match file {
        Some(bytes) => if bytes@.len() >= FRAME {
            punched(bytes@.take(FRAME as int))
        } else {
            blank_frame()
        },
        None => blank_frame(),
    }
}

/// `clip` is what a file's bytes give: nothing when the file was missing or
/// shorter than a frame, otherwise every whole frame in it, punched.
pub open spec fn clip_from(file: Option<Vec<u8>>, clip: Option<Clip>) -> bool {
    match file {
        Some(bytes) => if bytes@.len() >= FRAME {
            clip matches Some(c) && c.frames_spec().len() == bytes@.len() as int / FRAME as int
                && forall|i: int|
                0 <= i < c.frames_spec().len() ==> (#[trigger] c.frames_spec()[i])@ == punched(
                    bytes@,
                ).subrange(i * FRAME, (i + 1) * FRAME)
        } else {
            clip is None
        },
        None => clip is None,
    }
}

/// The mascot's pictures: a still, and a clip for idling, listening,
/// transcribing and being poked, each of which may be missing.
pub struct Mascot {
    still: Vec<u8>,
    idle: Option<Clip>,
    listen: Option<Clip>,
    transcribe: Option<Clip>,
    poke: Option<Clip>,
}

/// How long a poke lasts when there is no poke animation to play out.
pub const POKE_MS: u128 = 700;

impl Mascot {
    pub closed spec fn still_view(self) -> Seq<u8> {
        self.still@
    }

    pub closed spec fn idle_clip(self) -> Option<Clip> {
        self.idle
    }

    pub closed spec fn listen_clip(self) -> Option<Clip> {
        self.listen
    }

    pub closed spec fn transcribe_clip(self) -> Option<Clip> {
        self.transcribe
    }

    pub closed spec fn poke_clip(self) -> Option<Clip> {
        self.poke
    }

    /// The picture shown in `phase` at animation frame `tick`, with the poke
    /// animation at frame `poke_tick` while one is running.
    pub open spec fn frame_shown(self, phase: Phase, poke_tick: Option<usize>, tick: int) -> Seq<
        u8,
    > {
        if poke_tick is Some && self.poke_clip() is Some {
            held(self.poke_clip()->0.frames_spec(), poke_tick->0 as int)
        } else {
            let clip = match phase {
                Phase::Listening => self.listen_clip(),
                Phase::Transcribing => self.transcribe_clip(),
                _ => self.idle_clip(),
            };
            match clip {
                Some(c) => looped(c.frames_spec(), tick),
                None => self.still_view(),
            }
        }
    }

    /// Build the mascot from what its asset files held: the still picture,
    /// then the idle, listening, transcribing and poke animations. `None` is
    /// a file that could not be read.
    pub fn new(
        still: Option<Vec<u8>>,
        idle: Option<Vec<u8>>,
        listen: Option<Vec<u8>>,
        transcribe: Option<Vec<u8>>,
        poke: Option<Vec<u8>>,
    ) -> (r: Mascot)
        ensures
            r.still_view() == still_from(still),
            clip_from(idle, r.idle_clip()),
            clip_from(listen, r.listen_clip()),
            clip_from(transcribe, r.transcribe_clip()),
            clip_from(poke, r.poke_clip()),
    {
        let still_frame = match still {
            Some(bytes) => match frame_from_bytes(bytes) {
                Some(frame) => frame,
                None => {
                    let blank = vec![0u8; FRAME];
                    assert(blank@ =~= blank_frame());
                    blank
                },
            },
            None => {
                let blank = vec![0u8; FRAME];
                assert(blank@ =~= blank_frame());
                blank
            },
        };
        Mascot {
            still: still_frame,
            idle: Self::clip_of(idle),
            listen: Self::clip_of(listen),
            transcribe: Self::clip_of(transcribe),
            poke: Self::clip_of(poke),
        }
    }

    fn clip_of(file: Option<Vec<u8>>) -> (r: Option<Clip>)
        ensures
            clip_from(file, r),
    {
        match file {
            Some(bytes) => Clip::from_bytes(bytes),
            None => None,
        }
    }

    /// The pixels to show now: see `frame_shown`.
    pub fn pixels(&self, phase: &Phase, poke_tick: Option<usize>, tick: usize) -> (r: &[u8])
        ensures
            r@ == self.frame_shown(*phase, poke_tick, tick as int),
    {
        pick_pixels(
            phase,
            poke_tick,
            tick,
            self.still.as_slice(),
            self.idle.as_ref(),
            self.listen.as_ref(),
            self.transcribe.as_ref(),
            self.poke.as_ref(),
        )
    }

    /// Whether a poke that has reached animation frame `frame`, `elapsed_ms`
    /// after it began, is over: when the poke animation has played out, or,
    /// with no poke animation, once `POKE_MS` have passed.
    pub fn poke_finished(&self, frame: usize, elapsed_ms: u128) -> (r: bool)
        ensures
            r == match self.poke_clip() {
                Some(c) => frame >= c.frames_spec().len(),
                None => elapsed_ms > POKE_MS,
            },
    {
        match &self.poke {
            Some(clip) => frame >= clip.frames.len(),
            None => elapsed_ms > POKE_MS,
        }
    }
}

/// The mascot window follows the mouse while it is dragged; a click that
/// did not move it is a poke.
///
/// The window system's messages and the cursor position are the caller's;
/// positions are in screen pixels.
#[derive(Clone, Copy, Debug, PartialEq, Eq)]
pub struct MascotDrag {
    /// The left button went down on the mascot and has not come up.
    pub dragging: bool,
    /// The mascot moved during this drag.
    pub moved: bool,
    /// The window's corner, relative to the cursor that grabbed it.
    pub dx: i32,
    pub dy: i32,
    /// A poke waiting to be played.
    pub poke: bool,
}

/// `v + d` fits in an `i32`.
pub open spec fn fits(v: i32, d: i32) -> bool {
    i32::MIN <= v + d <= i32::MAX
}

impl MascotDrag {
    pub fn new() -> (r: MascotDrag)
        ensures
            !r.dragging,
            !r.moved,
            !r.poke,
    {
        MascotDrag { dragging: false, moved: false, dx: 0, dy: 0, poke: false }
    }

    /// The left button went down at `cursor` on the window whose top-left
    /// corner is at `corner`: start dragging, keeping the grip.
    pub fn grab(&mut self, cursor: (i32, i32), corner: (i32, i32))
        requires
            i32::MIN <= corner.0 - cursor.0 <= i32::MAX,
            i32::MIN <= corner.1 - cursor.1 <= i32::MAX,
        ensures
            final(self).dragging,
            !final(self).moved,
            final(self).dx == corner.0 - cursor.0,
            final(self).dy == corner.1 - cursor.1,
            final(self).poke == old(self).poke,
    {
        self.dragging = true;
        self.moved = false;
        self.dx = corner.0 - cursor.0;
        self.dy = corner.1 - cursor.1;
    }

    /// The cursor is at `cursor` with the button still down: where the
    /// window goes, if it is being dragged.
    pub fn follow(&mut self, cursor: (i32, i32)) -> (r: Option<(i32, i32)>)
        requires
            old(self).dragging ==> fits(cursor.0, old(self).dx) && fits(cursor.1, old(self).dy),
        ensures
            old(self).dragging ==> {
                &&& r == Some(((cursor.0 + old(self).dx) as i32, (cursor.1 + old(self).dy) as i32))
                &&& *final(self) == MascotDrag { moved: true, ..*old(self) }
            },
            !old(self).dragging ==> r is None && *final(self) == *old(self),
    {
        if self.dragging {
            self.moved = true;
            Some((cursor.0 + self.dx, cursor.1 + self.dy))
        } else {
            None
        }
    }

    /// The button was found up: the drag is over, and if the mascot never
    /// moved it was a poke.
    pub fn release(&mut self)
        ensures
            old(self).dragging ==> {
                &&& !final(self).dragging
                &&& !final(self).moved
                &&& final(self).poke == (old(self).poke || !old(self).moved)
                &&& final(self).dx == old(self).dx
                &&& final(self).dy == old(self).dy
            },
            !old(self).dragging ==> *final(self) == *old(self),
    {
        if self.dragging {
            self.dragging = false;
            if !self.moved {
                self.poke = true;
            }
            self.moved = false;
        }
    }

    /// Whether a poke is waiting; taking it clears it.
    pub fn take_poke(&mut self) -> (r: bool)
        ensures
            r == old(self).poke,
            !final(self).poke,
            final(self).dragging == old(self).dragging,
            final(self).moved == old(self).moved,
            final(self).dx == old(self).dx,
            final(self).dy == old(self).dy,
    {
        let poke = self.poke;
        self.poke = false;
        poke
    }
}

/// `c` scaled by alpha `a`, as 0-255 integers.
pub open spec fn premul(c: u8, a: u8) -> u8 {
    ((c as int * a as int) / 255) as u8
}

/// Where in a source frame the output pixel `q` of a `w` by `h` image is
/// sampled from: the nearest source pixel, scaling down or up.
pub open spec fn source_index(q: int, w: int, h: int) -> int {
    let x = q % w;
    let y = q / w;
    ((y * 256 / h) * 256 + x * 256 / w) * 4
}

/// Output pixel `q` holds the sampled source pixel, premultiplied by its
/// alpha, in blue-green-red-alpha order.
pub open spec fn pixel_written(src: Seq<u8>, dst: Seq<u8>, w: int, h: int, q: int) -> bool {
    let si = source_index(q, w, h);
    let a = src[si + 3];
    &&& dst[4 * q] == premul(src[si + 2], a)
    &&& dst[4 * q + 1] == premul(src[si + 1], a)
    &&& dst[4 * q + 2] == premul(src[si], a)
    &&& dst[4 * q + 3] == a
}

/// Scale a 256 by 256 RGBA frame to `w` by `h` premultiplied BGRA, the form
/// a layered window takes.
pub fn scale_premultiply(src: &[u8], dst: &mut Vec<u8>, w: usize, h: usize)
    requires
        src@.len() >= FRAME,
        w * 256 <= usize::MAX,
        h * 256 <= usize::MAX,
        w * h * 4 <= old(dst)@.len(),
    ensures
        final(dst)@.len() == old(dst)@.len(),
        forall|q: int| 0 <= q < w * h ==> pixel_written(src@, final(dst)@, w as int, h as int, q),
        forall|i: int| w * h * 4 <= i < old(dst)@.len() ==> #[trigger] final(dst)@[i] == old(
            dst,
        )@[i],
{
    let ghost orig = dst@;
    let dlen = dst.len();
    let mut y: usize = 0;
    while y < h
        invariant
            dlen == orig.len(),
            src@.len() >= FRAME,
            w * 256 <= usize::MAX,
            h * 256 <= usize::MAX,
            w * h * 4 <= orig.len(),
            dst@.len() == orig.len(),
            y <= h,
            forall|q: int| 0 <= q < y * w ==> pixel_written(src@, dst@, w as int, h as int, q),
            forall|i: int| y * w * 4 <= i < orig.len() ==> #[trigger] dst@[i] == orig[i],
        decreases h - y,
    {
        let mut x: usize = 0;
        while x < w
            invariant
                dlen == orig.len(),
                src@.len() >= FRAME,
                w * 256 <= usize::MAX,
                h * 256 <= usize::MAX,
                w * h * 4 <= orig.len(),
                dst@.len() == orig.len(),
                y < h,
                x <= w,
                forall|q: int|
                    0 <= q < y * w + x ==> pixel_written(src@, dst@, w as int, h as int, q),
                forall|i: int| (y * w + x) * 4 <= i < orig.len() ==> #[trigger] dst@[i] == orig[i],
            decreases w - x,
        {
            assert(x * 256 < w * 256) by (nonlinear_arith)
                requires
                    x < w,
            ;
            assert(y * 256 < h * 256) by (nonlinear_arith)
                requires
                    y < h,
            ;
            let sx = x * SRC / w;
            let sy = y * SRC / h;
            assert(sx < 256) by (nonlinear_arith)
                requires
                    sx == (x * 256) as int / w as int,
                    x < w,
                    w >= 1,
            ;
            assert(sy < 256) by (nonlinear_arith)
                requires
                    sy == (y * 256) as int / h as int,
                    y < h,
                    h >= 1,
            ;
            assert(y * w + x < w * h) by (nonlinear_arith)
                requires
                    y < h,
                    x < w,
            ;
            let si = (sy * SRC + sx) * 4;
            let di = (y * w + x) * 4;
            let r = src[si] as u16;
            let g = src[si + 1] as u16;
            let b = src[si + 2] as u16;
            let a = src[si + 3] as u16;
            assert(b * a <= 65025 && g * a <= 65025 && r * a <= 65025) by (nonlinear_arith)
                requires
                    b <= 255,
                    g <= 255,
                    r <= 255,
                    a <= 255,
            ;
            let ghost q = (y * w + x) as int;
            let ghost before = dst@;
            proof {
                vstd::arithmetic::div_mod::lemma_fundamental_div_mod_converse(
                    q,
                    w as int,
                    y as int,
                    x as int,
                );
                assert(si == source_index(q, w as int, h as int));
            }
            dst.set(di, (b * a / 255) as u8);
            dst.set(di + 1, (g * a / 255) as u8);
            dst.set(di + 2, (r * a / 255) as u8);
            dst.set(di + 3, a as u8);
            assert(pixel_written(src@, dst@, w as int, h as int, q));
            assert forall|q2: int| 0 <= q2 < q + 1 implies pixel_written(src@, dst@, w as int, h as int, q2) by {
                if q2 < q {
                    assert(pixel_written(src@, before, w as int, h as int, q2));
                }
            }
            x += 1;
        }
        assert(y * w + w == (y + 1) * w) by (nonlinear_arith);
        y += 1;
    }
    assert(h * w == w * h) by (nonlinear_arith);
}

} // verus!
