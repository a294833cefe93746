//! Turns a raw speech-recognition hypothesis into text worth pasting.
//!
//! The recognizer already emits punctuation and casing, so this stage is about
//! the things a speech model cannot know: line breaks the speaker asked for out
//! loud, filler words they did not mean to say, and names the model spells its
//! own way ("no ma" for "Noma").

use vstd::prelude::*;

use crate::chars::{chars_of, eq_chars, extend_chars, split_words, split_ws, string_of, trim, trim_str};
use commands::{command_at, command_piece, command_table, match_command, phrase_words, word_views};
use render::{piece_views, render, rendered, Piece, PieceKind};
use words::{normalize, normalize_chars, trailing, trailing_of};

pub mod commands;
pub mod laws;
pub mod render;
pub mod words;

verus! {

/// A user-defined rewrite, applied after fillers are dropped.
#[derive(Clone, Debug, PartialEq, Eq)]
pub struct Replacement {
    /// Spoken phrase to look for, matched case-insensitively on whole words.
    pub from: String,
    /// Text to write instead.
    pub to: String,
}

#[derive(Clone, Debug, PartialEq, Eq)]
pub struct TextSettings {
    /// Master switch: off means the transcript is pasted exactly as decoded.
    pub enabled: bool,
    /// Turn "new line", "question mark" and the like into the characters they name.
    pub spoken_commands: bool,
    /// Drop hesitation sounds.
    pub remove_fillers: bool,
    /// Words treated as fillers, lowercase and without punctuation.
    pub fillers: Vec<String>,
    /// Custom vocabulary fixes.
    pub replacements: Vec<Replacement>,
    /// Capitalize the first word of the text and of every new sentence.
    pub capitalize_sentences: bool,
    /// Add a final period when the text ends without punctuation.
    pub ensure_final_punctuation: bool,
}

impl Replacement {
    pub fn new(from: &str, to: &str) -> (r: Replacement)
        ensures
            r.from@ == from@,
            r.to@ == to@,
    {
        Replacement { from: from.to_owned(), to: to.to_owned() }
    }
}

impl Default for TextSettings {
    fn default() -> (r: TextSettings)
        ensures
            r.enabled,
            r.spoken_commands,
            r.remove_fillers,
            r.fillers@.len() == default_filler_words().len(),
            forall|i: int| 0 <= i < r.fillers@.len() ==> #[trigger] r.fillers@[i]@ == default_filler_words()[i],
            r.replacements@.len() == 0,
            r.capitalize_sentences,
            !r.ensure_final_punctuation,
    {
        TextSettings {
            enabled: true,
            spoken_commands: true,
            remove_fillers: true,
            fillers: default_fillers(),
            replacements: Vec::new(),
            capitalize_sentences: true,
            ensure_final_punctuation: false,
        }
    }
}

/// Hesitation sounds that are safe to drop: none of them is also a real word.
pub open spec fn default_filler_words() -> Seq<Seq<char>> {
    seq!["um"@, "uh"@, "uhm"@, "erm"@, "eh"@, "mm"@, "hmm"@, "mhm"@]
}

/// Hesitation sounds that are safe to drop: none of them is also a real word.
pub fn default_fillers() -> (r: Vec<String>)
    ensures
        r@.len() == default_filler_words().len(),
        forall|i: int| 0 <= i < r@.len() ==> #[trigger] r@[i]@ == default_filler_words()[i],
{
    let mut r: Vec<String> = Vec::new();
    r.push(String::from_str("um"));
    r.push(String::from_str("uh"));
    r.push(String::from_str("uhm"));
    r.push(String::from_str("erm"));
    r.push(String::from_str("eh"));
    r.push(String::from_str("mm"));
    r.push(String::from_str("hmm"));
    r.push(String::from_str("mhm"));
    r
}

/// `w` is a filler: its normalized form is non-empty and on the list.
pub open spec fn is_filler_spec(w: Seq<char>, fillers: Seq<String>) -> bool {
    normalize(w).len() > 0 && exists|i: int| 0 <= i < fillers.len() && #[trigger] fillers[i]@ == normalize(w)
}

/// The normalized words of `ws`, dropping any that normalize to nothing.
pub open spec fn phrase_of(ws: Seq<Seq<char>>) -> Seq<Seq<char>>
    decreases ws.len(),
{
    if ws.len() == 0 {
        Seq::empty()
    } else {
        let rest = phrase_of(ws.drop_last());
        let n = normalize(ws.last());
        if n.len() == 0 {
            rest
        } else {
            rest.push(n)
        }
    }
}

/// The words a replacement's `from` is matched as.
pub open spec fn replacement_phrase(from: Seq<char>) -> Seq<Seq<char>> {
    phrase_of(split_ws(from))
}

/// The non-empty phrase `p` can be read off `words` at `start`.
pub open spec fn replacement_matches(words: Seq<Seq<char>>, start: int, p: Seq<Seq<char>>) -> bool {
    &&& p.len() > 0
    &&& 0 <= start
    &&& start + p.len() <= words.len()
    &&& forall|j: int| 0 <= j < p.len() ==> normalize(words[start + j]) == #[trigger] p[j]
}

/// Among the first `n` replacements, the one matching at `start` with the
/// longest phrase; on a tie the earlier one.
pub open spec fn best_replacement(
    words: Seq<Seq<char>>,
    start: int,
    reps: Seq<Replacement>,
    n: int,
) -> Option<int>
    decreases n,
{
    if n <= 0 {
        None
    } else {
        let best = best_replacement(words, start, reps, n - 1);
        let p = replacement_phrase(reps[n - 1].from@);
        if replacement_matches(words, start, p) && (best is None || p.len()
            > replacement_phrase(reps[best->0].from@).len()) {
            Some(n - 1)
        } else {
            best
        }
    }
}

/// The replacement spoken at `start`, if any.
pub open spec fn replacement_at(words: Seq<Seq<char>>, start: int, reps: Seq<Replacement>) -> Option<
    int,
> {
    best_replacement(words, start, reps, reps.len() as int)
}

/// How far `i + step` may go: never past the end of `words`.
pub open spec fn next_index(words: Seq<Seq<char>>, i: int, step: int) -> int {
    if step < 1 {
        i + 1
    } else if i + step <= words.len() {
        i + step
    } else {
        words.len() as int
    }
}

/// The pieces the words from `i` on turn into. At each position, in order of
/// precedence: a spoken command (when enabled) becomes its character; a
/// replacement phrase becomes its text, keeping the punctuation of the last
/// word it covers; a filler (when enabled) is dropped, leaving its
/// punctuation behind; anything else stays a word.
pub open spec fn pieces_from(words: Seq<Seq<char>>, i: int, s: TextSettings) -> Seq<
    (PieceKind, Seq<char>),
>
    decreases words.len() - i,
{
    if i < 0 || i >= words.len() {
        Seq::empty()
    } else if s.spoken_commands && command_at(words, i) is Some {
        let k = command_at(words, i)->0;
        let entry = command_table()[k];
        seq![command_piece(entry.1, entry.2)] + pieces_from(
            words,
            next_index(words, i, phrase_words(k).len() as int),
            s,
        )
    } else if replacement_at(words, i, s.replacements@) is Some {
        let r = s.replacements@[replacement_at(words, i, s.replacements@)->0];
        let n = replacement_phrase(r.from@).len() as int;
        seq![(PieceKind::Word, r.to@ + trailing(words[i + n - 1]))] + pieces_from(
            words,
            next_index(words, i, n),
            s,
        )
    } else if s.remove_fillers && is_filler_spec(words[i], s.fillers@) {
        let t = trailing(words[i]);
        (if t.len() > 0 {
            seq![(PieceKind::Punctuation, t)]
        } else {
            Seq::empty()
        }) + pieces_from(words, i + 1, s)
    } else {
        seq![(PieceKind::Word, words[i])] + pieces_from(words, i + 1, s)
    }
}

/// What `process` returns for `raw` under `s`.
pub open spec fn processed(raw: Seq<char>, s: TextSettings) -> Seq<char> {
    if !s.enabled {
        trim(raw)
    } else {
        rendered(
            pieces_from(split_ws(raw), 0, s),
            s.capitalize_sentences,
            s.ensure_final_punctuation,
        )
    }
}

pub proof fn lemma_best_replacement(
    words: Seq<Seq<char>>,
    start: int,
    reps: Seq<Replacement>,
    n: int,
)
    requires
        0 <= n <= reps.len(),
    ensures
        best_replacement(words, start, reps, n) matches Some(k) ==> {
            &&& 0 <= k < n
            &&& replacement_matches(words, start, replacement_phrase(reps[k].from@))
            &&& forall|k2: int|
                0 <= k2 < n && replacement_matches(words, start, replacement_phrase(reps[k2].from@))
                    ==> replacement_phrase(reps[k2].from@).len() <= replacement_phrase(
                    reps[k].from@,
                ).len()
            &&& forall|k2: int|
                0 <= k2 < k && replacement_matches(words, start, replacement_phrase(reps[k2].from@))
                    ==> replacement_phrase(reps[k2].from@).len() < replacement_phrase(
                    reps[k].from@,
                ).len()
        },
        best_replacement(words, start, reps, n) is None ==> forall|k2: int|
            0 <= k2 < n ==> !replacement_matches(words, start, replacement_phrase(reps[k2].from@)),
    decreases n,
{
    if n > 0 {
        lemma_best_replacement(words, start, reps, n - 1);
    }
}

/// The normalized, non-empty words of a replacement phrase.
fn phrase_words_of(from: &str) -> (r: Vec<Vec<char>>)
    ensures
        r@.len() == replacement_phrase(from@).len(),
        forall|j: int| 0 <= j < r@.len() ==> (#[trigger] r@[j])@ == replacement_phrase(from@)[j],
{
    let cs = chars_of(from);
    let ws = split_words(&cs);
    let ghost wv = split_ws(from@);
    let mut out: Vec<Vec<char>> = Vec::new();
    let mut i: usize = 0;
    while i < ws.len()
        invariant
            i <= ws@.len(),
            wv == split_ws(from@),
            ws@.len() == wv.len(),
            forall|j: int| 0 <= j < ws@.len() ==> (#[trigger] ws@[j])@ == wv[j],
            out@.len() == phrase_of(wv.take(i as int)).len(),
            forall|j: int| 0 <= j < out@.len() ==> (#[trigger] out@[j])@ == phrase_of(wv.take(i as int))[j],
        decreases ws.len() - i,
    {
        assert(wv.take(i + 1).drop_last() =~= wv.take(i as int));
        assert(wv.take(i + 1).last() == ws@[i as int]@);
        let n = normalize_chars(&ws[i]);
        if n.len() > 0 {
            out.push(n);
        }
        i += 1;
    }
    assert(wv.take(ws.len() as int) =~= wv);
    out
}

/// Whether `p` can be read off `words` at `start`.
fn phrase_fits(words: &Vec<Vec<char>>, start: usize, p: &Vec<Vec<char>>) -> (r: bool)
    ensures
        r == replacement_matches(word_views(words@), start as int, p@.map_values(|w: Vec<char>| w@)),
{
    let ghost ws = word_views(words@);
    let ghost pv = p@.map_values(|w: Vec<char>| w@);
    if p.len() == 0 || start > words.len() || p.len() > words.len() - start {
        return false;
    }
    let total = words.len();
    let mut j: usize = 0;
    while j < p.len()
        invariant
            total == words@.len(),
            ws == word_views(words@),
            pv == p@.map_values(|w: Vec<char>| w@),
            start + p@.len() <= words@.len(),
            j <= p@.len(),
            forall|jj: int| 0 <= jj < j ==> normalize(ws[start + jj]) == #[trigger] pv[jj],
        decreases p.len() - j,
    {
        let n = normalize_chars(&words[start + j]);
        if !eq_chars(&n, &p[j]) {
            assert(normalize(ws[start + j]) != pv[j as int]);
            return false;
        }
        j += 1;
    }
    true
}

/// Longest-match a replacement phrase starting at `start`. Returns which
/// replacement and how many words it consumed.
fn match_replacement(words: &Vec<Vec<char>>, start: usize, replacements: &Vec<Replacement>) -> (r:
    Option<(usize, usize)>)
    ensures
        r is Some <==> replacement_at(word_views(words@), start as int, replacements@) is Some,
        r matches Some((k, n)) ==> {
            &&& k == replacement_at(word_views(words@), start as int, replacements@)->0
            &&& n == replacement_phrase(replacements@[k as int].from@).len()
        },
{
    let ghost ws = word_views(words@);
    let mut best: Option<(usize, usize)> = None;
    let mut k: usize = 0;
    while k < replacements.len()
        invariant
            ws == word_views(words@),
            k <= replacements@.len(),
            best is Some <==> best_replacement(ws, start as int, replacements@, k as int) is Some,
            best matches Some((b, n)) ==> {
                &&& b == best_replacement(ws, start as int, replacements@, k as int)->0
                &&& n == replacement_phrase(replacements@[b as int].from@).len()
            },
        decreases replacements.len() - k,
    {
        let phrase = phrase_words_of(replacements[k].from.as_str());
        let matched = phrase_fits(words, start, &phrase);
        assert(phrase@.map_values(|w: Vec<char>| w@) =~= replacement_phrase(replacements@[k as int].from@));
        let longer = match best {
            None => true,
            Some((_, n)) => phrase.len() > n,
        };
        if matched && longer {
            best = Some((k, phrase.len()));
        }
        k += 1;
    }
    best
}

/// Whether `word`, once normalized, is one of `fillers`.
fn is_filler(word: &Vec<char>, fillers: &Vec<String>) -> (r: bool)
    ensures
        r == is_filler_spec(word@, fillers@),
{
    let n = normalize_chars(word);
    if n.len() == 0 {
        return false;
    }
    let mut i: usize = 0;
    while i < fillers.len()
        invariant
            n@ == normalize(word@),
            n@.len() > 0,
            i <= fillers@.len(),
            forall|j: int| 0 <= j < i ==> #[trigger] fillers@[j]@ != normalize(word@),
        decreases fillers.len() - i,
    {
        let f = chars_of(fillers[i].as_str());
        if eq_chars(&f, &n) {
            return true;
        }
        i += 1;
    }
    false
}

/// Apply the whole pipeline. Returns the text to paste.
///
/// With `enabled` off the transcript only loses its surrounding whitespace.
/// Otherwise it is split into words, spoken commands, replacements and
/// fillers are applied word by word from the left (see `pieces_from`), and
/// the pieces are joined back into text by `render`.
pub fn process(raw: &str, settings: &TextSettings) -> (r: String)
    ensures
        r@ == processed(raw@, *settings),
        !settings.enabled ==> r@ == trim(raw@),
{
    if !settings.enabled {
        return trim_str(raw);
    }
    let chars = chars_of(raw);
    let words = split_words(&chars);
    let ghost ws = word_views(words@);
    assert(ws =~= split_ws(raw@));
    let mut pieces: Vec<Piece> = Vec::new();
    let mut index: usize = 0;
    while index < words.len()
        invariant
            ws == word_views(words@),
            index <= words@.len(),
            piece_views(pieces@) + pieces_from(ws, index as int, *settings) == pieces_from(
                ws,
                0,
                *settings,
            ),
        decreases words.len() - index,
    {
        let ghost before = piece_views(pieces@);
        let ghost rest = pieces_from(ws, index as int, *settings);
        if settings.spoken_commands {
            if let Some((command, len)) = match_command(&words, index) {
                proof {
                    let k = command_at(ws, index as int)->0;
                    commands::lemma_best_command(ws, index as int, command_table().len() as int);
                }
                pieces.push(command.piece());
                assert(piece_views(pieces@) =~= before.push(pieces@.last()@));
                index += len;
                assert(piece_views(pieces@) + pieces_from(ws, index as int, *settings) =~= before + rest);
                continue;
            }
        }
        if let Some((which, len)) = match_replacement(&words, index, &settings.replacements) {
            proof {
                lemma_best_replacement(ws, index as int, settings.replacements@, settings.replacements@.len() as int);
            }
            let to = chars_of(settings.replacements[which].to.as_str());
            let tail = trailing_of(&words[index + len - 1]);
            let mut text = to;
            extend_chars(&mut text, &tail);
            pieces.push(Piece::Word(string_of(&text)));
            assert(piece_views(pieces@) =~= before.push(pieces@.last()@));
            index += len;
            assert(piece_views(pieces@) + pieces_from(ws, index as int, *settings) =~= before + rest);
            continue;
        }
        if settings.remove_fillers && is_filler(&words[index], &settings.fillers) {
            let tail = trailing_of(&words[index]);
            if tail.len() > 0 {
                pieces.push(Piece::Punctuation(string_of(&tail)));
                assert(piece_views(pieces@) =~= before.push(pieces@.last()@));
            }
            index += 1;
            assert(piece_views(pieces@) + pieces_from(ws, index as int, *settings) =~= before + rest);
            continue;
        }
        let w = string_of(&words[index]);
        pieces.push(Piece::Word(w));
        assert(piece_views(pieces@) =~= before.push(pieces@.last()@));
        index += 1;
        assert(piece_views(pieces@) + pieces_from(ws, index as int, *settings) =~= before + rest);
    }
    assert(piece_views(pieces@) =~= pieces_from(ws, 0, *settings));
    render(pieces.as_slice(), settings)
}

} // verus!
