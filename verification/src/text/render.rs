//! Joins processed pieces back into a string a person would have typed.

use vstd::prelude::*;

use super::TextSettings;
use crate::chars::{
    alnum, alpha, chars_of, extend_chars, is_alphabetic, is_alphanumeric, string_of, upper,
    uppercase,
};

verus! {

/// One unit of processed text.
#[derive(Clone, Debug, PartialEq, Eq)]
pub enum Piece {
    /// A word, still carrying whatever punctuation the model attached to it.
    Word(String),
    /// Punctuation that sticks to the previous word.
    Punctuation(String),
    /// A line break, spoken out loud.
    Break(String),
}

/// Which kind of piece a value is, for talking about pieces in contracts.
#[derive(Clone, Copy, Debug, PartialEq, Eq)]
pub enum PieceKind {
    Word,
    Punctuation,
    Break,
}

impl View for Piece {
    type V = (PieceKind, Seq<char>);

    open spec fn view(&self) -> (PieceKind, Seq<char>) {
        match self {
            Piece::Word(s) => (PieceKind::Word, s@),
            Piece::Punctuation(s) => (PieceKind::Punctuation, s@),
            Piece::Break(s) => (PieceKind::Break, s@),
        }
    }
}

/// The abstract contents of a list of pieces.
pub open spec fn piece_views(ps: Seq<Piece>) -> Seq<(PieceKind, Seq<char>)> {
    ps.map_values(|p: Piece| p@)
}

/// Index of the first alphabetic character of `w`, or `w.len()`.
pub open spec fn first_alpha(w: Seq<char>) -> int
    decreases w.len(),
{
    if w.len() == 0 {
        0
    } else if alpha(w[0]) {
        0
    } else {
        1 + first_alpha(w.drop_first())
    }
}

/// `w` with its first letter uppercased; anything in front of that letter
/// (a quote, a bracket, a digit) is left alone.
pub open spec fn capitalize(w: Seq<char>) -> Seq<char> {
    let i = first_alpha(w);
    if i < w.len() {
        w.take(i) + upper(w[i]) + w.skip(i + 1)
    } else {
        w
    }
}

/// Characters that may close a sentence after its final mark.
pub open spec fn is_closer(c: char) -> bool {
    c == '"' || c == '\'' || c == ')' || c == ']' || c == '}' || c == '»'
}

/// `t` without the closing quotes and brackets at its end.
pub open spec fn trim_closers(t: Seq<char>) -> Seq<char>
    decreases t.len(),
{
    if t.len() > 0 && is_closer(t.last()) {
        trim_closers(t.drop_last())
    } else {
        t
    }
}

/// `t` ends a sentence: its last character, closing quotes and brackets
/// aside, is a full stop, an exclamation mark or a question mark.
pub open spec fn ends_sentence_spec(t: Seq<char>) -> bool {
    let u = trim_closers(t);
    u.len() > 0 && (u.last() == '.' || u.last() == '!' || u.last() == '?')
}

/// `t` ends in a letter or digit, so a full stop would not be doubled.
pub open spec fn wants_period(t: Seq<char>) -> bool {
    t.len() > 0 && alnum(t.last())
}

/// `s` without the plain spaces at its end.
pub open spec fn strip_spaces(s: Seq<char>) -> Seq<char>
    decreases s.len(),
{
    if s.len() > 0 && s.last() == ' ' {
        strip_spaces(s.drop_last())
    } else {
        s
    }
}

/// The text written so far, whether a space is owed before the next word, and
/// whether the next word starts a sentence.
pub type RenderState = (Seq<char>, bool, bool);

/// What one piece does to the text: a word is spaced and maybe capitalized,
/// punctuation hugs the text before it, a break replaces the trailing spaces
/// and starts a new sentence. Punctuation and breaks are dropped while the text
/// is still empty.
pub open spec fn render_step(st: RenderState, p: (PieceKind, Seq<char>), caps: bool) -> RenderState {
    let (out, pending, cap) = st;
    match p.0 {
        PieceKind::Word => (
            out + (if pending {
                seq![' ']
            } else {
                Seq::empty()
            }) + (if cap {
                capitalize(p.1)
            } else {
                p.1
            }),
            true,
            caps && ends_sentence_spec(p.1),
        ),
        PieceKind::Punctuation => {
            if out.len() == 0 {
                st
            } else {
                (out + p.1, true, caps && ends_sentence_spec(p.1))
            }
        },
        PieceKind::Break => {
            if out.len() == 0 {
                st
            } else {
                (strip_spaces(out) + p.1, false, caps)
            }
        },
    }
}

/// The state after reading all of `ps` from the start.
pub open spec fn render_fold(ps: Seq<(PieceKind, Seq<char>)>, caps: bool) -> RenderState
    decreases ps.len(),
{
    if ps.len() == 0 {
        (Seq::empty(), false, caps)
    } else {
        render_step(render_fold(ps.drop_last(), caps), ps.last(), caps)
    }
}

/// The finished text: trailing spaces dropped, and a full stop added when one
/// is wanted and the text ends in a letter or digit.
pub open spec fn rendered(ps: Seq<(PieceKind, Seq<char>)>, caps: bool, final_period: bool) -> Seq<
    char,
> {
    let out = strip_spaces(render_fold(ps, caps).0);
    if final_period && wants_period(out) {
        out.push('.')
    } else {
        out
    }
}

pub proof fn lemma_strip_spaces(s: Seq<char>)
    ensures
        strip_spaces(s).len() == 0 || strip_spaces(s).last() != ' ',
        strip_spaces(s).len() <= s.len(),
        strip_spaces(s) == s.take(strip_spaces(s).len() as int),
    decreases s.len(),
{
    if s.len() > 0 && s.last() == ' ' {
        lemma_strip_spaces(s.drop_last());
        assert(s.drop_last().take(strip_spaces(s).len() as int) =~= s.take(
            strip_spaces(s).len() as int,
        ));
    } else {
        assert(s.take(s.len() as int) =~= s);
    }
}

fn pop_spaces(out: &mut Vec<char>)
    ensures
        final(out)@ == strip_spaces(old(out)@),
{
    while out.len() > 0 && out[out.len() - 1] == ' '
        invariant
            strip_spaces(out@) == strip_spaces(old(out)@),
        decreases out.len(),
    {
        let ghost before = out@;
        out.pop();
        assert(out@ =~= before.drop_last());
    }
}

fn first_alpha_of(w: &Vec<char>) -> (r: usize)
    ensures
        r == first_alpha(w@),
        r <= w.len(),
{
    let mut i: usize = 0;
    assert(w@.skip(0) =~= w@);
    while i < w.len() && !is_alphabetic(w[i])
        invariant
            i <= w.len(),
            i + first_alpha(w@.skip(i as int)) == first_alpha(w@),
        decreases w.len() - i,
    {
        assert(w@.skip(i as int).drop_first() =~= w@.skip(i + 1));
        i += 1;
    }
    if i < w.len() {
        assert(w@.skip(i as int)[0] == w@[i as int]);
    }
    i
}

/// Uppercase the first letter, leaving any leading quote or bracket alone.
pub fn capitalize_chars(w: &Vec<char>) -> (r: Vec<char>)
    ensures
        r@ == capitalize(w@),
{
    let i = first_alpha_of(w);
    if i >= w.len() {
        return w.clone();
    }
    let mut out: Vec<char> = Vec::new();
    let mut j: usize = 0;
    while j < i
        invariant
            j <= i < w.len(),
            out@ == w@.take(j as int),
        decreases i - j,
    {
        out.push(w[j]);
        assert(w@.take(j + 1) =~= w@.take(j as int).push(w@[j as int]));
        j += 1;
    }
    let up = uppercase(w[i]);
    extend_chars(&mut out, &up);
    let mut k = i + 1;
    while k < w.len()
        invariant
            i < k <= w.len(),
            out@ == w@.take(i as int) + upper(w@[i as int]) + w@.subrange(i + 1, k as int),
        decreases w.len() - k,
    {
        out.push(w[k]);
        assert(w@.subrange(i + 1, k + 1) =~= w@.subrange(i + 1, k as int).push(w@[k as int]));
        k += 1;
    }
    assert(w@.subrange(i + 1, w.len() as int) =~= w@.skip(i + 1));
    out
}

/// Uppercase the first letter, leaving any leading quote or bracket alone.
pub fn capitalized(word: &str) -> (r: String)
    ensures
        r@ == capitalize(word@),
{
    let w = chars_of(word);
    let c = capitalize_chars(&w);
    string_of(&c)
}

fn is_closer_char(c: char) -> (r: bool)
    ensures
        r == is_closer(c),
{
    c == '"' || c == '\'' || c == ')' || c == ']' || c == '}' || c == '»'
}

/// True when the text ends a sentence, ignoring closing quotes or brackets.
pub fn ends_sentence_chars(t: &Vec<char>) -> (r: bool)
    ensures
        r == ends_sentence_spec(t@),
{
    let mut end = t.len();
    assert(t@.take(t.len() as int) =~= t@);
    while end > 0 && is_closer_char(t[end - 1])
        invariant
            end <= t.len(),
            trim_closers(t@.take(end as int)) == trim_closers(t@),
        decreases end,
    {
        assert(t@.take(end as int).drop_last() =~= t@.take(end - 1));
        end -= 1;
    }
    if end == 0 {
        return false;
    }
    assert(t@.take(end as int).last() == t@[end - 1]);
    let c = t[end - 1];
    c == '.' || c == '!' || c == '?'
}

/// True when the text ends a sentence, ignoring closing quotes or brackets.
pub fn ends_sentence(text: &str) -> (r: bool)
    ensures
        r == ends_sentence_spec(text@),
{
    let t = chars_of(text);
    ends_sentence_chars(&t)
}

/// True when the text ends in a letter or digit.
pub fn wants_final_period(t: &Vec<char>) -> (r: bool)
    ensures
        r == wants_period(t@),
{
    t.len() > 0 && is_alphanumeric(t[t.len() - 1])
}

/// Join pieces into the text a person would have typed.
///
/// Words are separated by single spaces and capitalized at the start of the
/// text and of every sentence (when `capitalize_sentences` is on);
/// punctuation attaches to the word before it; a break swallows the spaces
/// before it. The result never ends in a space.
pub fn render(pieces: &[Piece], settings: &TextSettings) -> (r: String)
    ensures
        r@ == rendered(
            piece_views(pieces@),
            settings.capitalize_sentences,
            settings.ensure_final_punctuation,
        ),
        r@.len() == 0 || r@.last() != ' ',
{
    let caps = settings.capitalize_sentences;
    let ghost ps = piece_views(pieces@);
    let mut out: Vec<char> = Vec::new();
    let mut pending_space = false;
    let mut capitalize = caps;
    let mut i: usize = 0;
    while i < pieces.len()
        invariant
            i <= pieces.len(),
            ps == piece_views(pieces@),
            caps == settings.capitalize_sentences,
            (out@, pending_space, capitalize) == render_fold(ps.take(i as int), caps),
        decreases pieces.len() - i,
    {
        let ghost before = (out@, pending_space, capitalize);
        assert(ps.take(i + 1).drop_last() =~= ps.take(i as int));
        assert(ps.take(i + 1).last() == pieces@[i as int]@);
        match &pieces[i] {
            Piece::Word(word) => {
                let w = chars_of(word.as_str());
                if pending_space {
                    out.push(' ');
                }
                if capitalize {
                    let c = capitalize_chars(&w);
                    extend_chars(&mut out, &c);
                } else {
                    extend_chars(&mut out, &w);
                }
                pending_space = true;
                capitalize = caps && ends_sentence_chars(&w);
                proof {
                    if before.1 {
                        assert(before.0.push(' ') =~= before.0 + seq![' ']);
                    } else {
                        assert(before.0 =~= before.0 + Seq::<char>::empty());
                    }
                }
            },
            Piece::Punctuation(mark) => {
                if out.len() > 0 {
                    let m = chars_of(mark.as_str());
                    extend_chars(&mut out, &m);
                    pending_space = true;
                    capitalize = caps && ends_sentence_chars(&m);
                }
            },
            Piece::Break(newlines) => {
                if out.len() > 0 {
                    pop_spaces(&mut out);
                    let n = chars_of(newlines.as_str());
                    extend_chars(&mut out, &n);
                    pending_space = false;
                    capitalize = caps;
                }
            },
        }
        i += 1;
    }
    assert(ps.take(pieces.len() as int) =~= ps);
    pop_spaces(&mut out);
    proof {
        lemma_strip_spaces(render_fold(ps, caps).0);
    }
    if settings.ensure_final_punctuation && wants_final_period(&out) {
        out.push('.');
    }
    string_of(&out)
}

} // verus!
