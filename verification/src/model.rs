//! The speech models Noma knows how to fetch, and the bookkeeping of a
//! download in progress.
//!
//! The recognizer's weights are half a gigabyte, so they do not ship with the
//! binary. They come from the official sherpa-onnx model release and are
//! unpacked into the user's local data directory.

use vstd::prelude::*;

use crate::chars::{chars_of, extend_chars, string_of};
use crate::config::{decimal, decimal_chars};

verus! {

/// Where the archives come from: the official sherpa-onnx releases.
pub const RELEASE_URL: &'static str = "https://github.com/k2-fsa/sherpa-onnx/releases/download/asr-models";

/// How often a download reports progress: every half a megabyte is often
/// enough for a smooth bar and rare enough that the HUD is not woken
/// thousands of times.
pub const REPORT_EVERY: u64 = 524288;

#[verifier::external_type_specification]
#[verifier::external_body]
pub struct ExPathBuf(std::path::PathBuf);

#[verifier::external_type_specification]
#[verifier::external_body]
pub struct ExPath(std::path::Path);

/// `PathBuf::clone` copies the path; nothing about the copy is stated here,
/// since the library never looks inside a path.
pub assume_specification[ <std::path::PathBuf as Clone>::clone ](p: &std::path::PathBuf) -> std::path::PathBuf;

/// One downloadable speech model.
#[derive(Clone, Copy, Debug, PartialEq, Eq)]
pub struct ModelSpec {
    /// Stable id used in settings, and the directory name once unpacked.
    pub id: &'static str,
    /// Name for the UI.
    pub label: &'static str,
    /// One line on what it is good for.
    pub summary: &'static str,
    /// Roughly how big the download is, for the progress readout.
    pub download_bytes: u64,
    /// `model_type` sherpa-onnx needs to pick its decoder.
    pub model_type: &'static str,
}

/// Files sherpa-onnx needs to build a recognizer.
#[derive(Clone, Debug, PartialEq, Eq)]
pub struct ModelPaths {
    pub encoder: std::path::PathBuf,
    pub decoder: std::path::PathBuf,
    pub joiner: std::path::PathBuf,
    pub tokens: std::path::PathBuf,
    pub model_type: String,
}

/// What `Path::join` gives for `dir` and a further component `name`. It
/// depends on its arguments alone.
pub uninterp spec fn joined(dir: &std::path::Path, name: Seq<char>) -> std::path::PathBuf;

/// Calls `Path::join`: `dir` with `name` appended as a further component,
/// the path named `joined`.
#[verifier::external_body]
fn join(dir: &std::path::Path, name: &str) -> (r: std::path::PathBuf)
    ensures
        r == joined(dir, name@),
{
    dir.join(name)
}

/// Calls `Path::is_file`: whether a regular file is on disk at `path` right
/// now. That depends on the disk, so nothing is stated of the answer.
#[verifier::external_body]
fn is_file(path: &std::path::PathBuf) -> bool {
    path.is_file()
}

/// The files of a model unpacked into `dir`, under the names every
/// sherpa-onnx NeMo transducer archive uses: `encoder.int8.onnx`,
/// `decoder.int8.onnx`, `joiner.int8.onnx` and `tokens.txt`.
pub fn layout(dir: &std::path::Path, spec: &ModelSpec) -> (r: ModelPaths)
    ensures
        r.encoder == joined(dir, "encoder.int8.onnx"@),
        r.decoder == joined(dir, "decoder.int8.onnx"@),
        r.joiner == joined(dir, "joiner.int8.onnx"@),
        r.tokens == joined(dir, "tokens.txt"@),
        r.model_type@ == spec.model_type@,
{
    ModelPaths {
        encoder: join(dir, "encoder.int8.onnx"),
        decoder: join(dir, "decoder.int8.onnx"),
        joiner: join(dir, "joiner.int8.onnx"),
        tokens: join(dir, "tokens.txt"),
        model_type: String::from_str(spec.model_type),
    }
}

/// A model is installed when every one of its four files is present.
pub fn all_present(encoder: bool, decoder: bool, joiner: bool, tokens: bool) -> (r: bool)
    ensures
        r == (encoder && decoder && joiner && tokens),
{
    encoder && decoder && joiner && tokens
}

impl ModelPaths {
    /// Whether all four files are on disk, asked in the order encoder,
    /// decoder, joiner, tokens, stopping at the first that is missing; the
    /// answers are combined by `all_present`. What the disk answers is not
    /// stated, so neither is the result.
    pub fn files_exist(&self) -> bool {
        // Each file is asked about only while the ones before it are there.
        let encoder = is_file(&self.encoder);
        let decoder = encoder && is_file(&self.decoder);
        let joiner = decoder && is_file(&self.joiner);
        let tokens = joiner && is_file(&self.tokens);
        all_present(encoder, decoder, joiner, tokens)
    }
}

/// Multilingual Parakeet: 25 European languages, punctuation and casing built in.
pub open spec fn parakeet_v3_spec() -> ModelSpec {
    ModelSpec {
        id: "sherpa-onnx-nemo-parakeet-tdt-0.6b-v3-int8",
        label: "Parakeet TDT 0.6B v3 (int8)",
        summary: "25 European languages, punctuated",
        download_bytes: 487170055,
        model_type: "nemo_transducer",
    }
}

/// English-only Parakeet: same size, a little sharper on English.
pub open spec fn parakeet_v2_spec() -> ModelSpec {
    ModelSpec {
        id: "sherpa-onnx-nemo-parakeet-tdt-0.6b-v2-int8",
        label: "Parakeet TDT 0.6B v2 (int8)",
        summary: "English only, punctuated",
        download_bytes: 482468385,
        model_type: "nemo_transducer",
    }
}

/// Every model Noma knows how to fetch, in the order they are offered.
pub open spec fn catalog_spec() -> Seq<ModelSpec> {
    seq![parakeet_v3_spec(), parakeet_v2_spec()]
}

/// Multilingual Parakeet: 25 European languages, punctuation and casing built in.
pub fn parakeet_v3() -> (r: ModelSpec)
    ensures
        r == parakeet_v3_spec(),
{
    ModelSpec {
        id: "sherpa-onnx-nemo-parakeet-tdt-0.6b-v3-int8",
        label: "Parakeet TDT 0.6B v3 (int8)",
        summary: "25 European languages, punctuated",
        download_bytes: 487170055,
        model_type: "nemo_transducer",
    }
}

/// English-only Parakeet: same size, a little sharper on English.
pub fn parakeet_v2() -> (r: ModelSpec)
    ensures
        r == parakeet_v2_spec(),
{
    ModelSpec {
        id: "sherpa-onnx-nemo-parakeet-tdt-0.6b-v2-int8",
        label: "Parakeet TDT 0.6B v2 (int8)",
        summary: "English only, punctuated",
        download_bytes: 482468385,
        model_type: "nemo_transducer",
    }
}

/// Every model Noma knows how to fetch.
pub fn catalog() -> (r: Vec<ModelSpec>)
    ensures
        r@ == catalog_spec(),
{
    let r = vec![parakeet_v3(), parakeet_v2()];
    assert(r@ =~= catalog_spec());
    r
}

/// Among the first `n` models of `cat`, the first whose id reads `id`.
pub open spec fn first_with_id(cat: Seq<ModelSpec>, id: Seq<char>, n: int) -> Option<ModelSpec>
    decreases n,
{
    if n <= 0 {
        None
    } else if first_with_id(cat, id, n - 1) is Some {
        first_with_id(cat, id, n - 1)
    } else if cat[n - 1].id@ == id {
        Some(cat[n - 1])
    } else {
        None
    }
}

proof fn lemma_first_with_id_stays(cat: Seq<ModelSpec>, id: Seq<char>, m: int, n: int)
    requires
        m <= n,
        first_with_id(cat, id, m) is Some,
    ensures
        first_with_id(cat, id, n) == first_with_id(cat, id, m),
    decreases n - m,
{
    if m < n {
        lemma_first_with_id_stays(cat, id, m, n - 1);
    }
}

/// Look up a model by the id stored in settings.
pub fn find(id: &str) -> (r: Option<ModelSpec>)
    ensures
        r == first_with_id(catalog_spec(), id@, catalog_spec().len() as int),
{
    let cat = catalog();
    let want = crate::chars::chars_of(id);
    let mut i: usize = 0;
    while i < cat.len()
        invariant
            cat@ == catalog_spec(),
            want@ == id@,
            i <= cat@.len(),
            first_with_id(cat@, id@, i as int) is None,
        decreases cat.len() - i,
    {
        if crate::chars::str_eq_chars(cat[i].id, &want) {
            proof {
                lemma_first_with_id_stays(cat@, id@, i + 1, cat@.len() as int);
            }
            return Some(cat[i]);
        }
        i += 1;
    }
    None
}

impl ModelSpec {
    /// Where the model's archive is downloaded from.
    pub fn archive_url(&self) -> (r: String)
        ensures
            r@ == RELEASE_URL@ + "/"@ + self.id@ + ".tar.bz2"@,
    {
        let mut url = String::from_str(RELEASE_URL);
        url.append("/");
        url.append(self.id);
        url.append(".tar.bz2");
        url
    }
}

/// What the downloader is doing right now.
#[derive(Clone, Copy, Debug, PartialEq, Eq)]
pub enum Progress {
    /// Bytes received out of the expected total.
    Downloading { received: u64, total: u64 },
    /// Unpacking the archive; no byte count, bzip2 does not give one cheaply.
    Extracting,
}

/// Counts the bytes of a download as they arrive and decides when to report.
///
/// The bytes themselves and the callback live with the reader that wraps
/// this; what is decided here is how much has arrived, when that is worth
/// telling, and what total to tell it against.
#[derive(Clone, Copy, Debug)]
pub struct ProgressReader {
    received: u64,
    total: u64,
    reported: u64,
}

impl ProgressReader {
    pub closed spec fn received(self) -> u64 {
        self.received
    }

    pub closed spec fn total(self) -> u64 {
        self.total
    }

    pub closed spec fn reported(self) -> u64 {
        self.reported
    }

    /// What has been reported never runs ahead of what has arrived.
    #[verifier::type_invariant]
    spec fn reported_so_far(self) -> bool {
        self.reported <= self.received
    }

    /// Start counting a download of `total` bytes. The second value is the
    /// report to make right away: nothing received yet.
    pub fn new(total: u64) -> (r: (ProgressReader, Progress))
        ensures
            r.0.received() == 0,
            r.0.reported() == 0,
            r.0.total() == total,
            r.1 == (Progress::Downloading { received: 0, total }),
    {
        (ProgressReader { received: 0, total, reported: 0 }, Progress::Downloading {
            received: 0,
            total,
        })
    }

    /// The bytes counted so far.
    pub fn received_bytes(&self) -> (r: u64)
        ensures
            r == self.received(),
    {
        self.received
    }

    /// `read` more bytes have arrived; zero means the download has ended.
    ///
    /// Reports at the end and whenever at least `REPORT_EVERY` bytes arrived
    /// since the last report. A report never goes backwards and never shows
    /// more received than the total it is shown against: a server that
    /// under-reports its length has the total raised to what arrived.
    pub fn on_read(&mut self, read: u64) -> (r: Option<Progress>)
        requires
            old(self).received() + read <= u64::MAX,
        ensures
            final(self).reported() <= final(self).received(),
            final(self).received() == old(self).received() + read,
            final(self).total() == old(self).total(),
            (read == 0 || final(self).received() - old(self).reported() >= REPORT_EVERY) ==> {
                &&& final(self).reported() == final(self).received()
                &&& r == Some(
                    Progress::Downloading {
                        received: final(self).received(),
                        total: if old(self).total() >= final(self).received() {
                            old(self).total()
                        } else {
                            final(self).received()
                        },
                    },
                )
            },
            !(read == 0 || final(self).received() - old(self).reported() >= REPORT_EVERY) ==> {
                &&& final(self).reported() == old(self).reported()
                &&& r is None
            },
            r matches Some(Progress::Downloading { received, total }) ==> {
                &&& received <= total
                &&& received >= old(self).reported()
            },
            final(self).reported() >= old(self).reported(),
    {
        proof {
            use_type_invariant(&*self);
        }
        self.received = self.received + read;
        let finished = read == 0;
        if finished || self.received - self.reported >= REPORT_EVERY {
            self.reported = self.received;
            let total = if self.total >= self.received {
                self.total
            } else {
                self.received
            };
            Some(Progress::Downloading { received: self.received, total })
        } else {
            None
        }
    }
}

// ---------------------------------------------------------------------------
// Sizes for people
// ---------------------------------------------------------------------------

/// Bytes in a mebibyte, the "MB" of a download dialog.
pub const MIB: u64 = 1048576;

/// Bytes in a gibibyte, the "GB" of a download dialog.
pub const GIB: u64 = 1073741824;

/// `n / d` rounded to the nearest whole number, a tie going to the even one.
pub open spec fn round_half_even(n: nat, d: nat) -> nat
    recommends
        d > 0,
{
    let q = n / d;
    let r = n % d;
    if 2 * r > d || (2 * r == d && q % 2 == 1) {
        q + 1
    } else {
        q
    }
}

/// Starting from a gap of `d`, the gap between neighbouring doubles around
/// `n`: it doubles for every bit `n` has past the 53 a double keeps.
pub open spec fn gap_from(n: nat, d: nat) -> nat
    decreases 0x1_0000_0000_0000_0000 - d,
{
    if d == 0 || d > 0x8000_0000_0000_0000 || n / d < 0x20_0000_0000_0000 {
        d
    } else {
        gap_from(n, 2 * d)
    }
}

/// The value of the double nearest to `n`: below 2^53 that is `n` itself,
/// above it `n` rounded to a multiple of the gap, a tie going to the even
/// multiple.
pub open spec fn nearest_double(n: nat) -> nat {
    round_half_even(n, gap_from(n, 1)) * gap_from(n, 1)
}

/// A byte count the way a download dialog shows it: whole megabytes below a
/// gigabyte, gigabytes to one decimal from there on. The gigabyte figure is
/// taken from the byte count as a double, rounded half to even.
pub open spec fn human_bytes_text(bytes: nat) -> Seq<char> {
    if bytes >= GIB {
        let tenths = round_half_even(nearest_double(bytes) * 10, GIB as nat);
        decimal(tenths / 10) + "."@ + decimal(tenths % 10) + " GB"@
    } else {
        decimal(round_half_even(bytes, MIB as nat)) + " MB"@
    }
}

fn round_half_even_u128(n: u128, d: u128) -> (r: u128)
    requires
        0 < d < 0x1_0000_0000_0000_0000,
        n < 0x1_0000_0000_0000_0000_0000,
    ensures
        r == round_half_even(n as nat, d as nat),
        r * d <= n + d,
{
    let q = n / d;
    let rem = n % d;
    assert(q * d + rem == n && rem < d) by (nonlinear_arith)
        requires
            d > 0,
            q == n as int / d as int,
            rem == n as int % d as int,
    ;
    if 2 * rem > d || (2 * rem == d && q % 2 == 1) {
        assert((q + 1) * d <= n + d) by (nonlinear_arith)
            requires
                q * d + rem == n,
                rem >= 0,
        ;
        q + 1
    } else {
        q
    }
}

/// Sizes the way a download dialog would show them.
pub fn human_bytes(bytes: u64) -> (r: String)
    ensures
        r@ == human_bytes_text(bytes as nat),
{
    let mut out: Vec<char>;
    if bytes >= GIB {
        let mut gap: u128 = 1;
        while bytes as u128 / gap >= 0x20_0000_0000_0000
            invariant
                1 <= gap <= 4096,
                gap_from(bytes as nat, gap as nat) == gap_from(bytes as nat, 1),
            decreases 8192 - gap,
        {
            let q = bytes as u128 / gap;
            assert(q * gap <= bytes) by (nonlinear_arith)
                requires
                    gap >= 1,
                    q == bytes as int / gap as int,
            ;
            assert(gap < 2048) by (nonlinear_arith)
                requires
                    q >= 0x20_0000_0000_0000,
                    q * gap <= bytes,
                    bytes < 0x1_0000_0000_0000_0000,
                    gap >= 1,
            ;
            gap = gap * 2;
        }
        let units = round_half_even_u128(bytes as u128, gap);
        assert(units * gap <= 0x1_0000_0000_0000_0000 + 4096) by (nonlinear_arith)
            requires
                units * gap <= bytes + gap,
                bytes < 0x1_0000_0000_0000_0000,
                gap <= 4096,
        ;
        let value = units * gap;
        let tenths = round_half_even_u128(value * 10, GIB as u128);
        assert(tenths <= 0x100_0000_0000) by (nonlinear_arith)
            requires
                tenths * 1073741824 <= value * 10 + 1073741824,
                value <= 0x1_0000_0000_0000_0000 + 4096,
        ;
        let t = tenths as u64;
        out = decimal_chars(t / 10);
        extend_chars(&mut out, &chars_of("."));
        extend_chars(&mut out, &decimal_chars(t % 10));
        extend_chars(&mut out, &chars_of(" GB"));
    } else {
        let units = round_half_even_u128(bytes as u128, MIB as u128);
        assert(units <= 1024) by (nonlinear_arith)
            requires
                units * 1048576 <= bytes + 1048576,
                bytes < 1073741824,
        ;
        out = decimal_chars(units as u64);
        extend_chars(&mut out, &chars_of(" MB"));
    }
    string_of(&out)
}

} // verus!
