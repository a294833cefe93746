//! What Noma remembers between runs: the settings, and the recent dictations.
//!
//! Reading and writing the files is the application's business; what lives
//! here is what the settings mean and how the history is kept in order.

use vstd::prelude::*;

use crate::chars::{all_ws, chars_of, is_blank, string_of, trim, trim_chars};
use crate::text::TextSettings;

verus! {

/// Which ONNX Runtime backend sherpa-onnx should use.
#[derive(Clone, Copy, Debug, PartialEq, Eq)]
pub enum Provider {
    /// Works everywhere; the recognizer decodes far faster than real time on it.
    Cpu,
    /// Needs a sherpa-onnx build with CUDA and a matching CUDA runtime.
    Cuda,
    /// Windows-only GPU path, needs a sherpa-onnx build with DirectML.
    DirectMl,
}

impl Default for Provider {
    fn default() -> (r: Provider)
        ensures
            r == Provider::Cpu,
    {
        Provider::Cpu
    }
}

impl Provider {
    /// The string sherpa-onnx expects.
    pub fn as_sherpa(&self) -> (r: &'static str)
        ensures
            r@ == match *self {
                Provider::Cpu => "cpu"@,
                Provider::Cuda => "cuda"@,
                Provider::DirectMl => "directml"@,
            },
    {
        match self {
            Provider::Cpu => "cpu",
            Provider::Cuda => "cuda",
            Provider::DirectMl => "directml",
        }
    }
}

/// What lands in the focused app.
#[derive(Clone, Copy, Debug, PartialEq, Eq)]
pub enum PasteMode {
    /// Clipboard plus Ctrl+V. Fast, and correct for any character.
    Paste,
    /// Synthesize keystrokes. Slower, but works where paste is blocked.
    Type,
}

impl Default for PasteMode {
    fn default() -> (r: PasteMode)
        ensures
            r == PasteMode::Paste,
    {
        PasteMode::Paste
    }
}

/// The settings file, as far as the library reads it. The HUD's opacity is a
/// float and is kept beside these by the application.
#[derive(Clone, Debug)]
pub struct Settings {
    /// Id of a model from `model::catalog`.
    pub model: String,
    pub provider: Provider,
    /// ONNX threads. Half the physical cores is a good starting point.
    pub threads: i32,
    /// Id of the hold-to-talk key.
    pub hotkey: String,
    /// Which microphone to record from, matched as a case-insensitive
    /// substring of the device name ("yeti" finds "Microphone (Yeti Classic)").
    /// Empty means whatever the system has set as the default input.
    pub microphone: String,
    pub paste_mode: PasteMode,
    /// Decode while the key is held and show the text as it arrives.
    pub partials: bool,
    /// Floor on how often a partial decode may start, in milliseconds.
    pub partial_interval_ms: u64,
    /// How many past dictations to keep. Zero disables history entirely.
    pub history_limit: usize,
    pub text: TextSettings,
}

/// Half the cores, between one and eight, so dictating does not stall what is
/// being dictated into; four when the core count is unknown.
pub open spec fn threads_for(available: Option<usize>) -> i32 {
    match available {
        Some(n) => if n / 2 < 1 {
            1
        } else if n / 2 > 8 {
            8
        } else {
            (n / 2) as i32
        },
        None => 4,
    }
}

/// Half the cores, between one and eight; four when the count is unknown.
pub fn default_threads(available: Option<usize>) -> (r: i32)
    ensures
        r == threads_for(available),
        1 <= r <= 8,
{
    match available {
        Some(n) => {
            let half = n / 2;
            if half < 1 {
                1
            } else if half > 8 {
                8
            } else {
                half as i32
            }
        },
        None => 4,
    }
}

/// The configured microphone, or none to follow the system default.
pub open spec fn microphone_choice(raw: Seq<char>) -> Option<Seq<char>> {
    if trim(raw).len() == 0 {
        None
    } else {
        Some(trim(raw))
    }
}

impl Settings {
    /// The settings a first run writes, with `threads` decoding threads.
    pub fn default_with_threads(threads: i32) -> (r: Settings)
        ensures
            r.model@ == "sherpa-onnx-nemo-parakeet-tdt-0.6b-v3-int8"@,
            r.provider == Provider::Cpu,
            r.threads == threads,
            r.hotkey@ == "right-ctrl"@,
            r.microphone@.len() == 0,
            r.paste_mode == PasteMode::Paste,
            r.partials,
            r.partial_interval_ms == 700,
            r.history_limit == 200,
            r.text.enabled,
            r.text.spoken_commands,
            r.text.remove_fillers,
            r.text.replacements@.len() == 0,
            r.text.capitalize_sentences,
            !r.text.ensure_final_punctuation,
    {
        Settings {
            model: String::from_str("sherpa-onnx-nemo-parakeet-tdt-0.6b-v3-int8"),
            provider: Provider::Cpu,
            threads,
            hotkey: String::from_str("right-ctrl"),
            microphone: String::new(),
            paste_mode: PasteMode::Paste,
            partials: true,
            partial_interval_ms: 700,
            history_limit: 200,
            text: TextSettings::default(),
        }
    }

    /// The configured microphone, trimmed, or none to follow the system
    /// default.
    pub fn microphone(&self) -> (r: Option<String>)
        ensures
            r is None <==> microphone_choice(self.microphone@) is None,
            r matches Some(m) ==> Some(m@) == microphone_choice(self.microphone@),
    {
        let want = trim_chars(&chars_of(self.microphone.as_str()));
        if want.len() == 0 {
            None
        } else {
            Some(string_of(&want))
        }
    }

    /// Partial decodes never start closer together than this many
    /// milliseconds: the configured interval, but at least 200.
    pub fn partial_interval(&self) -> (r: u64)
        ensures
            r == if self.partial_interval_ms >= 200 {
                self.partial_interval_ms
            } else {
                200
            },
    {
        if self.partial_interval_ms >= 200 {
            self.partial_interval_ms
        } else {
            200
        }
    }
}

// ---------------------------------------------------------------------------
// History
// ---------------------------------------------------------------------------

/// The decimal digit for `d`.
pub open spec fn digit(d: nat) -> char {
    if d == 0 {
        '0'
    } else if d == 1 {
        '1'
    } else if d == 2 {
        '2'
    } else if d == 3 {
        '3'
    } else if d == 4 {
        '4'
    } else if d == 5 {
        '5'
    } else if d == 6 {
        '6'
    } else if d == 7 {
        '7'
    } else if d == 8 {
        '8'
    } else {
        '9'
    }
}

/// `n` written in decimal, without leading zeros.
pub open spec fn decimal(n: nat) -> Seq<char>
    decreases n,
{
    if n < 10 {
        seq![digit(n)]
    } else {
        decimal(n / 10).push(digit(n % 10))
    }
}

fn digit_char(d: u64) -> (r: char)
    requires
        d < 10,
    ensures
        r == digit(d as nat),
{
    if d == 0 {
        '0'
    } else if d == 1 {
        '1'
    } else if d == 2 {
        '2'
    } else if d == 3 {
        '3'
    } else if d == 4 {
        '4'
    } else if d == 5 {
        '5'
    } else if d == 6 {
        '6'
    } else if d == 7 {
        '7'
    } else if d == 8 {
        '8'
    } else {
        '9'
    }
}

/// `n` written in decimal.
pub fn decimal_chars(n: u64) -> (r: Vec<char>)
    ensures
        r@ == decimal(n as nat),
    decreases n,
{
    if n < 10 {
        let mut v: Vec<char> = Vec::new();
        v.push(digit_char(n));
        assert(v@ =~= seq![digit(n as nat)]);
        v
    } else {
        let mut v = decimal_chars(n / 10);
        v.push(digit_char(n % 10));
        v
    }
}

/// How long ago something happened, the way a person would say it.
pub open spec fn age_text(elapsed: nat) -> Seq<char> {
    if elapsed < 60 {
        "just now"@
    } else if elapsed < 3600 {
        decimal(elapsed / 60) + " min ago"@
    } else if elapsed < 86400 {
        decimal(elapsed / 3600) + " h ago"@
    } else if elapsed < 172800 {
        "yesterday"@
    } else {
        decimal(elapsed / 86400) + " d ago"@
    }
}

#[verifier::external_type_specification]
#[verifier::external_body]
pub struct ExSystemTime(std::time::SystemTime);

#[verifier::external_type_specification]
#[verifier::external_body]
pub struct ExSystemTimeError(std::time::SystemTimeError);

/// Calls `SystemTime::now`: the clock's reading, of which nothing is
/// promised.
#[verifier::external_body]
fn clock_now() -> std::time::SystemTime {
    std::time::SystemTime::now()
}

/// Calls `SystemTime::duration_since` with the Unix epoch: how long after
/// the epoch `t` is, or an error when `t` is earlier. Nothing is stated of
/// the duration, which the library never looks inside.
#[verifier::external_body]
fn since_epoch(t: &std::time::SystemTime) -> std::result::Result<
    core::time::Duration,
    std::time::SystemTimeError,
> {
    t.duration_since(std::time::UNIX_EPOCH)
}

/// Calls `Duration::as_secs`: the whole seconds in `d`. A duration is opaque
/// to the library, so the count is not stated.
#[verifier::external_body]
fn whole_secs(d: &core::time::Duration) -> u64 {
    d.as_secs()
}

/// The whole seconds since the Unix epoch by the system clock; 0 when the
/// clock reads earlier than that. Depends on the clock, so nothing is
/// promised of the value.
pub fn now_secs() -> u64 {
    match since_epoch(&clock_now()) {
        Ok(elapsed) => whole_secs(&elapsed),
        Err(_) => 0,
    }
}

// ---------------------------------------------------------------------------
// The history file
// ---------------------------------------------------------------------------

/// `line` without the carriage return that ends it, if any.
pub open spec fn without_cr(line: Seq<char>) -> Seq<char> {
    if line.len() > 0 && line.last() == '\r' {
        line.drop_last()
    } else {
        line
    }
}

/// The lines of `s`, when `cur` has been read of the first one already, the
/// way `str::lines` splits them: at each newline, a carriage return before
/// it dropped, and a last line without a newline kept unless it is empty.
pub open spec fn lines_after(s: Seq<char>, cur: Seq<char>) -> Seq<Seq<char>>
    decreases s.len(),
{
    if s.len() == 0 {
        if cur.len() == 0 {
            Seq::empty()
        } else {
            seq![cur]
        }
    } else if s[0] == '\n' {
        seq![without_cr(cur)] + lines_after(s.drop_first(), Seq::empty())
    } else {
        lines_after(s.drop_first(), cur.push(s[0]))
    }
}

/// The lines of `s`.
pub open spec fn file_lines(s: Seq<char>) -> Seq<Seq<char>> {
    lines_after(s, Seq::empty())
}

/// The lines that hold more than whitespace, in order.
pub open spec fn filled(lines: Seq<Seq<char>>) -> Seq<Seq<char>>
    decreases lines.len(),
{
    if lines.len() == 0 {
        Seq::empty()
    } else if all_ws(lines.last()) {
        filled(lines.drop_last())
    } else {
        filled(lines.drop_last()).push(lines.last())
    }
}

/// The views of `v`'s strings.
pub open spec fn views(v: Seq<String>) -> Seq<Seq<char>> {
    v.map_values(|l: String| l@)
}

fn without_cr_chars(line: Vec<char>) -> (r: Vec<char>)
    ensures
        r@ == without_cr(line@),
{
    let mut line = line;
    if line.len() > 0 && line[line.len() - 1] == '\r' {
        line.pop();
    }
    line
}

/// The history file's records: its lines that hold more than whitespace,
/// oldest first, one dictation each. A blank line is no record.
pub fn history_lines(text: &str) -> (r: Vec<String>)
    ensures
        views(r@) == filled(file_lines(text@)),
{
    let chars = chars_of(text);
    let mut lines: Vec<Vec<char>> = Vec::new();
    let mut cur: Vec<char> = Vec::new();
    let mut i: usize = 0;
    assert(chars@.skip(0) =~= chars@);
    assert(lines@.map_values(|l: Vec<char>| l@) + file_lines(text@) =~= file_lines(text@));
    while i < chars.len()
        invariant
            chars@ == text@,
            i <= chars@.len(),
            lines@.map_values(|l: Vec<char>| l@) + lines_after(chars@.skip(i as int), cur@)
                == file_lines(text@),
        decreases chars.len() - i,
    {
        let c = chars[i];
        let ghost rest = chars@.skip(i as int);
        let ghost before = lines@.map_values(|l: Vec<char>| l@);
        assert(rest[0] == c);
        assert(rest.drop_first() =~= chars@.skip(i + 1));
        if c == '\n' {
            let done = without_cr_chars(cur);
            lines.push(done);
            cur = Vec::new();
            assert(lines@.map_values(|l: Vec<char>| l@) =~= before.push(lines@.last()@));
            assert(before + (seq![lines@.last()@] + lines_after(chars@.skip(i + 1), cur@))
                =~= lines@.map_values(|l: Vec<char>| l@) + lines_after(
                chars@.skip(i + 1),
                cur@,
            ));
        } else {
            cur.push(c);
        }
        i += 1;
    }
    assert(chars@.skip(i as int).len() == 0);
    if cur.len() > 0 {
        let ghost before = lines@.map_values(|l: Vec<char>| l@);
        lines.push(cur);
        assert(lines@.map_values(|l: Vec<char>| l@) =~= before + seq![lines@.last()@]);
    } else {
        assert(lines@.map_values(|l: Vec<char>| l@) + Seq::<Seq<char>>::empty() =~= lines@.map_values(
            |l: Vec<char>| l@,
        ));
    }
    let ghost all = lines@.map_values(|l: Vec<char>| l@);
    let mut out: Vec<String> = Vec::new();
    let mut j: usize = 0;
    while j < lines.len()
        invariant
            all == lines@.map_values(|l: Vec<char>| l@),
            all == file_lines(text@),
            j <= lines@.len(),
            views(out@) == filled(all.take(j as int)),
        decreases lines.len() - j,
    {
        assert(all.take(j + 1).drop_last() =~= all.take(j as int));
        assert(all.take(j + 1).last() == lines@[j as int]@);
        if !is_blank(&lines[j]) {
            let ghost before = out@;
            out.push(string_of(&lines[j]));
            assert(views(out@) =~= views(before).push(lines@[j as int]@));
        }
        j += 1;
    }
    assert(all.take(lines.len() as int) =~= all);
    out
}

/// `lines` written one after another, each ended by a newline.
pub open spec fn line_text(lines: Seq<Seq<char>>) -> Seq<char>
    decreases lines.len(),
{
    if lines.len() == 0 {
        Seq::empty()
    } else {
        line_text(lines.drop_last()) + lines.last().push('\n')
    }
}

/// The history file holding `lines`, each ended by a newline.
pub fn history_text(lines: &Vec<String>) -> (r: String)
    ensures
        r@ == line_text(views(lines@)),
{
    let mut out = String::new();
    let mut i: usize = 0;
    while i < lines.len()
        invariant
            i <= lines@.len(),
            out@ == line_text(views(lines@).take(i as int)),
        decreases lines.len() - i,
    {
        let ghost before = out@;
        out.append(lines[i].as_str());
        out.append("\n");
        proof {
            reveal_strlit("\n");
            let vs = views(lines@);
            assert(vs.take(i + 1).drop_last() =~= vs.take(i as int));
            assert(before + lines@[i as int]@ + "\n"@ =~= before + vs.take(i + 1).last().push('\n'));
        }
        i += 1;
    }
    assert(views(lines@).take(lines.len() as int) =~= views(lines@));
    out
}

/// `line` holds no newline.
pub open spec fn no_newline(line: Seq<char>) -> bool {
    forall|i: int| 0 <= i < line.len() ==> #[trigger] line[i] != '\n'
}

/// `line` can stand alone as a record of the history file: one line, not
/// ended by a carriage return, and not blank. A record is a line of JSON,
/// which never holds a raw newline or carriage return.
pub open spec fn is_record(line: Seq<char>) -> bool {
    &&& no_newline(line)
    &&& !(line.len() > 0 && line.last() == '\r')
    &&& !all_ws(line)
}

proof fn lemma_lines_across_a_partial_line(p: Seq<char>, rest: Seq<char>, cur: Seq<char>)
    requires
        no_newline(p),
    ensures
        lines_after(p + rest, cur) == lines_after(rest, cur + p),
    decreases p.len(),
{
    if p.len() == 0 {
        assert(p + rest =~= rest);
        assert(cur + p =~= cur);
    } else {
        assert((p + rest)[0] == p[0]);
        assert((p + rest).drop_first() =~= p.drop_first() + rest);
        assert(no_newline(p.drop_first())) by {
            assert forall|i: int| 0 <= i < p.drop_first().len() implies #[trigger] p.drop_first()[i]
                != '\n' by {
                assert(p.drop_first()[i] == p[i + 1]);
            }
        }
        assert(p[0] != '\n') by {
            assert(p[0] == p[0]);
        }
        lemma_lines_across_a_partial_line(p.drop_first(), rest, cur.push(p[0]));
        assert(cur.push(p[0]) + p.drop_first() =~= cur + p);
    }
}

proof fn lemma_lines_after_a_newline(t: Seq<char>, x: Seq<char>, cur: Seq<char>)
    requires
        t.len() > 0,
        t.last() == '\n',
    ensures
        lines_after(t + x, cur) == lines_after(t, cur) + lines_after(x, Seq::empty()),
    decreases t.len(),
{
    assert((t + x)[0] == t[0]);
    assert((t + x).drop_first() =~= t.drop_first() + x);
    if t[0] == '\n' {
        if t.len() == 1 {
            assert(t.drop_first() + x =~= x);
            assert(lines_after(t.drop_first(), Seq::empty()) == Seq::<Seq<char>>::empty());
            assert(seq![without_cr(cur)] + Seq::<Seq<char>>::empty() =~= seq![without_cr(cur)]);
        } else {
            assert(t.drop_first().last() == t.last());
            lemma_lines_after_a_newline(t.drop_first(), x, Seq::empty());
            assert(seq![without_cr(cur)] + (lines_after(t.drop_first(), Seq::empty())
                + lines_after(x, Seq::empty())) =~= (seq![without_cr(cur)] + lines_after(
                t.drop_first(),
                Seq::empty(),
            )) + lines_after(x, Seq::empty()));
        }
    } else {
        assert(t.len() > 1);
        assert(t.drop_first().last() == t.last());
        lemma_lines_after_a_newline(t.drop_first(), x, cur.push(t[0]));
    }
}

proof fn lemma_line_text_shape(lines: Seq<Seq<char>>)
    ensures
        line_text(lines).len() == 0 || line_text(lines).last() == '\n',
        lines.len() == 0 <==> line_text(lines).len() == 0,
    decreases lines.len(),
{
    if lines.len() > 0 {
        lemma_line_text_shape(lines.drop_last());
    }
}

proof fn lemma_one_record_line(line: Seq<char>)
    requires
        no_newline(line),
    ensures
        file_lines(line.push('\n')) == seq![without_cr(line)],
{
    let nl: Seq<char> = seq!['\n'];
    assert(line.push('\n') =~= line + nl);
    lemma_lines_across_a_partial_line(line, nl, Seq::empty());
    assert(Seq::<char>::empty() + line =~= line);
    assert(nl[0] == '\n');
    assert(nl.len() == 1);
    assert(nl.drop_first() =~= Seq::<char>::empty());
    assert(lines_after(Seq::<char>::empty(), Seq::empty()) == Seq::<Seq<char>>::empty());
    assert(lines_after(nl, line) == seq![without_cr(line)] + lines_after(
        nl.drop_first(),
        Seq::empty(),
    ));
    assert(seq![without_cr(line)] + Seq::<Seq<char>>::empty() =~= seq![without_cr(line)]);
}

/// Appending a record and its newline to a history file that ends with a
/// newline adds exactly that record to what the file reads back as.
pub proof fn lemma_appending_a_record_adds_it(text: Seq<char>, line: Seq<char>)
    requires
        text.len() == 0 || text.last() == '\n',
        is_record(line),
    ensures
        filled(file_lines(text + line.push('\n'))) == filled(file_lines(text)).push(line),
{
    lemma_one_record_line(line);
    assert(without_cr(line) == line);
    if text.len() == 0 {
        assert(text + line.push('\n') =~= line.push('\n'));
        assert(file_lines(text) == Seq::<Seq<char>>::empty());
        assert(seq![line].drop_last() =~= Seq::<Seq<char>>::empty());
        assert(filled(seq![line]) == filled(Seq::<Seq<char>>::empty()).push(line));
    } else {
        lemma_lines_after_a_newline(text, line.push('\n'), Seq::empty());
        let all = file_lines(text) + seq![line];
        assert(all.drop_last() =~= file_lines(text));
        assert(all.last() == line);
    }
}

/// A history file written out record by record, each ended by a newline,
/// reads back as exactly those records, in order: compacting the file loses
/// nothing.
pub proof fn lemma_history_text_reads_back(lines: Seq<Seq<char>>)
    requires
        forall|i: int| 0 <= i < lines.len() ==> is_record(#[trigger] lines[i]),
    ensures
        filled(file_lines(line_text(lines))) == lines,
    decreases lines.len(),
{
    if lines.len() > 0 {
        let init = lines.drop_last();
        assert forall|i: int| 0 <= i < init.len() implies is_record(#[trigger] init[i]) by {
            assert(init[i] == lines[i]);
        }
        lemma_history_text_reads_back(init);
        lemma_line_text_shape(init);
        assert(is_record(lines[lines.len() - 1]));
        lemma_appending_a_record_adds_it(line_text(init), lines.last());
        assert(init.push(lines.last()) =~= lines);
    }
}

/// One dictation.
#[derive(Clone, Debug, PartialEq)]
pub struct Entry {
    /// Unix seconds. Stored as a number so the record never depends on a timezone.
    pub at: u64,
    /// How long the key was held, in seconds, as the bits of an `f32`.
    pub seconds_bits: u32,
    /// Exactly what the model decoded, before any cleanup.
    pub raw: String,
    /// What was actually pasted.
    pub text: String,
}

impl Entry {
    /// A dictation made now.
    pub fn new(seconds_bits: u32, raw: &str, text: &str) -> (r: Entry)
        ensures
            r.seconds_bits == seconds_bits,
            r.raw@ == raw@,
            r.text@ == text@,
    {
        Entry {
            at: now_secs(),
            seconds_bits,
            raw: string_of(&chars_of(raw)),
            text: string_of(&chars_of(text)),
        }
    }

    /// "just now", "5 min ago", "3 h ago", "yesterday", "4 d ago". A clock
    /// that went backwards reads as just now.
    pub fn age(&self, now: u64) -> (r: String)
        ensures
            r@ == age_text(if now >= self.at {
                (now - self.at) as nat
            } else {
                0
            }),
    {
        let elapsed = if now >= self.at {
            now - self.at
        } else {
            0
        };
        if elapsed < 60 {
            String::from_str("just now")
        } else if elapsed < 3600 {
            let mut s = string_of(&decimal_chars(elapsed / 60));
            s.append(" min ago");
            s
        } else if elapsed < 86400 {
            let mut s = string_of(&decimal_chars(elapsed / 3600));
            s.append(" h ago");
            s
        } else if elapsed < 172800 {
            String::from_str("yesterday")
        } else {
            let mut s = string_of(&decimal_chars(elapsed / 86400));
            s.append(" d ago");
            s
        }
    }

    /// True when the cleanup stage changed the model's output.
    pub fn was_edited(&self) -> (r: bool)
        ensures
            r == (trim(self.raw@) != self.text@),
    {
        let raw = trim_chars(&chars_of(self.raw.as_str()));
        let text = chars_of(self.text.as_str());
        !crate::chars::eq_chars(&raw, &text)
    }
}

/// Recent dictations, newest first, never more than the limit.
pub struct History {
    limit: usize,
    entries: Vec<Entry>,
}

/// The newest `limit` of `oldest_first`, newest first.
pub open spec fn kept_newest(oldest_first: Seq<Entry>, limit: nat) -> Seq<Entry> {
    let drop = if oldest_first.len() > limit {
        oldest_first.len() - limit
    } else {
        0
    };
    oldest_first.skip(drop).reverse()
}

/// `entries`, newest first, with `entry` put in front and the oldest
/// dropped beyond `limit`.
pub open spec fn remembered(entries: Seq<Entry>, limit: nat, entry: Entry) -> Seq<Entry> {
    seq![entry].add(entries).take(
        if entries.len() + 1 > limit {
            limit as int
        } else {
            entries.len() + 1 as int
        },
    )
}

/// With history on, remembering a dictation keeps in memory exactly what
/// reading the file back gives once its line has been appended: what was
/// kept of the lines before, with the new entry in front.
pub proof fn lemma_remember_agrees_with_a_reload(lines: Seq<Entry>, limit: nat, entry: Entry)
    requires
        limit > 0,
    ensures
        remembered(kept_newest(lines, limit), limit, entry) == kept_newest(lines.push(entry), limit),
{
    let n = lines.len();
    let d: int = if n > limit { n - limit } else { 0 };
    let d2: int = if n + 1 > limit { n + 1 - limit } else { 0 };
    let kept = lines.skip(d);
    assert(lines.push(entry).skip(d2) =~= lines.skip(d2).push(entry));
    assert(lines.skip(d2).push(entry).reverse() =~= seq![entry].add(lines.skip(d2).reverse()));
    if n + 1 > limit {
        assert(d2 == d + 1);
        assert(lines.skip(d2).reverse() =~= kept.reverse().take(limit - 1));
        assert(seq![entry].add(kept.reverse()).take(limit as int) =~= seq![entry].add(
            kept.reverse().take(limit - 1),
        ));
    } else {
        assert(seq![entry].add(kept.reverse()).take(n + 1 as int) =~= seq![entry].add(kept.reverse()));
    }
}

/// Rewriting the file with what is kept, oldest first, loses nothing: it
/// reads back as the same entries.
pub proof fn lemma_a_compacted_file_reads_back(entries: Seq<Entry>, limit: nat)
    requires
        entries.len() <= limit,
    ensures
        kept_newest(entries.reverse(), limit) == entries,
{
    assert(entries.reverse().skip(0) =~= entries.reverse());
    assert(entries.reverse().reverse() =~= entries);
}

impl History {
    pub closed spec fn limit_spec(&self) -> nat {
        self.limit as nat
    }

    /// The entries, newest first.
    pub closed spec fn entries_spec(&self) -> Seq<Entry> {
        self.entries@
    }

    /// Never more entries than the limit.
    #[verifier::type_invariant]
    spec fn never_over_limit(self) -> bool {
        self.entries@.len() <= self.limit
    }

    /// A history holding what was read back, oldest first: the newest
    /// `limit` of them are kept.
    pub fn from_oldest_first(loaded: Vec<Entry>, limit: usize) -> (r: History)
        ensures
            r.entries_spec().len() <= r.limit_spec(),
            r.limit_spec() == limit,
            r.entries_spec() == kept_newest(loaded@, limit as nat),
    {
        let drop = if loaded.len() > limit {
            loaded.len() - limit
        } else {
            0
        };
        let ghost kept = loaded@.skip(drop as int);
        let mut entries: Vec<Entry> = Vec::new();
        let mut rest = loaded;
        while rest.len() > drop
            invariant
                drop <= rest@.len() <= loaded@.len(),
                rest@ == loaded@.take(rest@.len() as int),
                kept == loaded@.skip(drop as int),
                entries@ == kept.reverse().take(entries@.len() as int),
                entries@.len() + rest@.len() == loaded@.len(),
            decreases rest.len(),
        {
            let ghost before = rest@;
            let e = rest.pop().unwrap();
            proof {
                let k = entries@.len() as int;
                assert(kept.reverse()[k] == kept[kept.len() - 1 - k]);
                assert(kept[kept.len() - 1 - k] == loaded@[rest@.len() as int]);
                assert(e == before.last());
                assert(rest@ =~= loaded@.take(rest@.len() as int));
            }
            entries.push(e);
            assert(entries@ =~= kept.reverse().take(entries@.len() as int));
        }
        assert(entries@ =~= kept.reverse());
        History { limit, entries }
    }

    /// Newest first; never more of them than the limit.
    pub fn entries(&self) -> (r: &[Entry])
        ensures
            r@ == self.entries_spec(),
            r@.len() <= self.limit_spec(),
    {
        proof {
            use_type_invariant(self);
        }
        self.entries.as_slice()
    }

    pub fn is_empty(&self) -> (r: bool)
        ensures
            r == (self.entries_spec().len() == 0),
    {
        self.entries.len() == 0
    }

    pub fn limit(&self) -> (r: usize)
        ensures
            r == self.limit_spec(),
    {
        self.limit
    }

    /// A history limit of zero turns recording off.
    pub fn records(&self) -> (r: bool)
        ensures
            r == (self.limit_spec() != 0),
    {
        self.limit != 0
    }

    /// Put a dictation at the front, dropping the oldest beyond the limit.
    /// With a limit of zero nothing is kept.
    pub fn remember(&mut self, entry: Entry)
        ensures
            final(self).entries_spec().len() <= final(self).limit_spec(),
            final(self).limit_spec() == old(self).limit_spec(),
            old(self).limit_spec() == 0 ==> final(self).entries_spec() == old(
                self,
            ).entries_spec(),
            old(self).limit_spec() != 0 ==> final(self).entries_spec() == remembered(
                old(self).entries_spec(),
                old(self).limit_spec(),
                entry,
            ),
    {
        proof {
            use_type_invariant(&*self);
        }
        if self.limit == 0 {
            return;
        }
        let mut entries: Vec<Entry> = Vec::new();
        std::mem::swap(&mut entries, &mut self.entries);
        let ghost before = entries@;
        entries.insert(0, entry);
        assert(entries@ =~= seq![entry].add(before));
        if entries.len() > self.limit {
            entries.truncate(self.limit);
        } else {
            assert(entries@ =~= entries@.take(entries@.len() as int));
        }
        self.entries = entries;
    }

    /// A file holding more than twice the limit in lines is worth rewriting
    /// with only what is kept.
    pub fn needs_compaction(&self, lines_on_disk: usize) -> (r: bool)
        ensures
            r == (lines_on_disk > self.limit_spec() * 2),
    {
        let cap = if self.limit > usize::MAX / 2 {
            usize::MAX
        } else {
            self.limit * 2
        };
        lines_on_disk > cap
    }

    /// Forget everything in memory.
    pub fn clear(&mut self)
        ensures
            final(self).limit_spec() == old(self).limit_spec(),
            final(self).entries_spec().len() == 0,
    {
        self.entries = Vec::new();
    }
}

} // verus!
