//! What the text pipeline promises as a whole.

use vstd::prelude::*;

use super::commands::{best_command, command_at, command_matches, command_table, phrase_words};
use super::render::{
    capitalize, ends_sentence_spec, lemma_strip_spaces, render_fold, render_step, rendered,
    strip_spaces,
    wants_period, PieceKind,
};
use super::words::{normalize, trailing};
use super::{pieces_from, processed, replacement_at, TextSettings};
use crate::chars::{
    all_ws, has_ws, is_ws, lemma_split_words_shape, split_state, split_ws, trim, trim_end,
    trim_start,
};

verus! {

/// Whitespace-only text has no words.
pub proof fn lemma_all_ws_has_no_words(s: Seq<char>)
    requires
        all_ws(s),
    ensures
        split_ws(s).len() == 0,
        !split_state(s).1,
    decreases s.len(),
{
    if s.len() > 0 {
        assert(all_ws(s.drop_last())) by {
            assert forall|i: int| 0 <= i < s.drop_last().len() implies is_ws(
                #[trigger] s.drop_last()[i],
            ) by {
                assert(s.drop_last()[i] == s[i]);
            }
        }
        lemma_all_ws_has_no_words(s.drop_last());
        assert(is_ws(s[s.len() - 1]));
    }
}

pub proof fn lemma_trim_start_all_ws(s: Seq<char>)
    requires
        all_ws(s),
    ensures
        trim_start(s).len() == 0,
    decreases s.len(),
{
    if s.len() > 0 {
        assert(is_ws(s[0]));
        assert(all_ws(s.drop_first())) by {
            assert forall|i: int| 0 <= i < s.drop_first().len() implies is_ws(
                #[trigger] s.drop_first()[i],
            ) by {
                assert(s.drop_first()[i] == s[i + 1]);
            }
        }
        lemma_trim_start_all_ws(s.drop_first());
    }
}

/// Trimmed text never ends in whitespace.
pub proof fn lemma_trim_end_last(s: Seq<char>)
    ensures
        trim_end(s).len() == 0 || !is_ws(trim_end(s).last()),
    decreases s.len(),
{
    if s.len() > 0 && is_ws(s.last()) {
        lemma_trim_end_last(s.drop_last());
    }
}

/// Text that holds nothing but whitespace comes out empty, whatever the
/// settings.
pub proof fn lemma_blank_input_gives_nothing(raw: Seq<char>, s: TextSettings)
    requires
        all_ws(raw),
    ensures
        processed(raw, s).len() == 0,
{
    if s.enabled {
        lemma_all_ws_has_no_words(raw);
        assert(pieces_from(split_ws(raw), 0, s).len() == 0);
        assert(render_fold(Seq::empty(), s.capitalize_sentences).0.len() == 0);
        assert(pieces_from(split_ws(raw), 0, s) =~= Seq::empty());
    } else {
        lemma_trim_start_all_ws(raw);
    }
}

/// The result never ends in a space: trailing spaces are dropped before the
/// text is handed back.
pub proof fn lemma_never_ends_in_a_space(raw: Seq<char>, s: TextSettings)
    ensures
        processed(raw, s).len() == 0 || processed(raw, s).last() != ' ',
{
    if s.enabled {
        let out = strip_spaces(
            render_fold(pieces_from(split_ws(raw), 0, s), s.capitalize_sentences).0,
        );
        lemma_strip_spaces(
            render_fold(pieces_from(split_ws(raw), 0, s), s.capitalize_sentences).0,
        );
    } else {
        lemma_trim_end_last(trim_start(raw));
    }
}

/// With a final period asked for, the result is empty, ends in a full stop,
/// or ends in something that is not a letter or digit.
pub proof fn lemma_final_period(raw: Seq<char>, s: TextSettings)
    requires
        s.enabled,
        s.ensure_final_punctuation,
    ensures
        processed(raw, s).len() == 0 || processed(raw, s).last() == '.' || !wants_period(
            processed(raw, s),
        ),
{
}

/// Words joined by single spaces.
pub open spec fn join_words(ws: Seq<Seq<char>>) -> Seq<char>
    decreases ws.len(),
{
    if ws.len() == 0 {
        Seq::empty()
    } else if ws.len() == 1 {
        ws[0]
    } else {
        join_words(ws.drop_last()) + seq![' '] + ws.last()
    }
}

/// With every rewriting rule off, each word becomes a word piece.
proof fn lemma_plain_pieces(ws: Seq<Seq<char>>, i: int, s: TextSettings)
    requires
        0 <= i <= ws.len(),
        !s.spoken_commands,
        !s.remove_fillers,
        s.replacements@.len() == 0,
    ensures
        pieces_from(ws, i, s) == ws.skip(i).map_values(|w: Seq<char>| (PieceKind::Word, w)),
    decreases ws.len() - i,
{
    if i < ws.len() {
        assert(replacement_at(ws, i, s.replacements@) is None);
        lemma_plain_pieces(ws, i + 1, s);
        assert(pieces_from(ws, i, s) =~= ws.skip(i).map_values(
            |w: Seq<char>| (PieceKind::Word, w),
        ));
    } else {
        assert(ws.skip(i).map_values(|w: Seq<char>| (PieceKind::Word, w)) =~= Seq::empty());
    }
}

/// Rendering plain words without capitalization joins them with spaces.
proof fn lemma_render_plain_words(ws: Seq<Seq<char>>)
    requires
        forall|i: int| 0 <= i < ws.len() ==> (#[trigger] ws[i]).len() > 0,
    ensures
        render_fold(ws.map_values(|w: Seq<char>| (PieceKind::Word, w)), false) == (
            join_words(ws),
            ws.len() > 0,
            false,
        ),
    decreases ws.len(),
{
    let ps = ws.map_values(|w: Seq<char>| (PieceKind::Word, w));
    if ws.len() > 0 {
        assert(ps.drop_last() =~= ws.drop_last().map_values(|w: Seq<char>| (PieceKind::Word, w)));
        lemma_render_plain_words(ws.drop_last());
        if ws.len() == 1 {
            assert(join_words(ws.drop_last()) =~= Seq::empty());
            assert(Seq::<char>::empty() + Seq::<char>::empty() + ws[0] =~= ws[0]);
        }
    }
}

proof fn lemma_join_last(ws: Seq<Seq<char>>)
    requires
        ws.len() > 0,
        ws.last().len() > 0,
    ensures
        join_words(ws).len() > 0,
        join_words(ws).last() == ws.last().last(),
{
}

/// With every rewriting rule, capitalization and the final period off, the
/// pipeline only normalizes spacing: the result is the transcript's words
/// joined by single spaces.
pub proof fn lemma_plain_settings_join_words(raw: Seq<char>, s: TextSettings)
    requires
        s.enabled,
        !s.spoken_commands,
        !s.remove_fillers,
        s.replacements@.len() == 0,
        !s.capitalize_sentences,
        !s.ensure_final_punctuation,
    ensures
        processed(raw, s) == join_words(split_ws(raw)),
{
    let ws = split_ws(raw);
    lemma_split_words_shape(raw);
    lemma_plain_pieces(ws, 0, s);
    assert(ws.skip(0) =~= ws);
    lemma_render_plain_words(ws);
    let out = join_words(ws);
    if ws.len() > 0 {
        lemma_join_last(ws);
        let w = ws.last();
        assert(!has_ws(w));
        assert(w.last() == w[w.len() - 1]);
        assert(!is_ws(w.last()));
        assert(out.last() != ' ');
    }
    assert(strip_spaces(out) == out);
}


/// With filler removal on, a word whose normalized form (punctuation
/// stripped, lowercased) is one of the fillers is dropped, whatever the case
/// of its letters, and only its trailing punctuation is kept; unless a spoken
/// command or a replacement starts at it.
pub proof fn lemma_a_filler_is_dropped_in_any_case(words: Seq<Seq<char>>, i: int, s: TextSettings)
    requires
        0 <= i < words.len(),
        s.remove_fillers,
        !(s.spoken_commands && command_at(words, i) is Some),
        replacement_at(words, i, s.replacements@) is None,
        normalize(words[i]).len() > 0,
        exists|f: int| 0 <= f < s.fillers@.len() && #[trigger] s.fillers@[f]@ == normalize(words[i]),
    ensures
        pieces_from(words, i, s) == (if trailing(words[i]).len() > 0 {
            seq![(PieceKind::Punctuation, trailing(words[i]))]
        } else {
            Seq::empty()
        }) + pieces_from(words, i + 1, s),
{
}

/// Whether command `k` matches at `start` depends on each word only through
/// its normalized form and its trailing punctuation: changing the case of a
/// word's letters changes nothing.
pub proof fn lemma_a_command_matches_in_any_case(
    a: Seq<Seq<char>>,
    b: Seq<Seq<char>>,
    start: int,
    k: int,
)
    requires
        a.len() == b.len(),
        forall|j: int|
            0 <= j < a.len() ==> normalize(#[trigger] a[j]) == normalize(b[j]) && trailing(a[j])
                == trailing(b[j]),
    ensures
        command_matches(a, start, k) == command_matches(b, start, k),
{
    let p = phrase_words(k);
    if command_matches(a, start, k) {
        assert forall|j: int| 0 <= j < p.len() implies normalize(b[start + j]) == #[trigger] p[j]
            && super::commands::is_clean(b[start + j], j + 1 == p.len()) by {
            assert(normalize(a[start + j]) == normalize(b[start + j]));
            assert(trailing(a[start + j]) == trailing(b[start + j]));
        }
    }
    if command_matches(b, start, k) {
        assert forall|j: int| 0 <= j < p.len() implies normalize(a[start + j]) == #[trigger] p[j]
            && super::commands::is_clean(a[start + j], j + 1 == p.len()) by {
            assert(normalize(a[start + j]) == normalize(b[start + j]));
            assert(trailing(a[start + j]) == trailing(b[start + j]));
        }
    }
}

proof fn lemma_best_command_in_any_case(a: Seq<Seq<char>>, b: Seq<Seq<char>>, start: int, n: int)
    requires
        a.len() == b.len(),
        forall|j: int|
            0 <= j < a.len() ==> normalize(#[trigger] a[j]) == normalize(b[j]) && trailing(a[j])
                == trailing(b[j]),
    ensures
        best_command(a, start, n) == best_command(b, start, n),
    decreases n,
{
    if n > 0 {
        lemma_best_command_in_any_case(a, b, start, n - 1);
        lemma_a_command_matches_in_any_case(a, b, start, n - 1);
    }
}

/// The spoken command found at `start` is the same whatever the case of the
/// words' letters: "New line" is a line break just as "new line" is.
pub proof fn lemma_commands_ignore_case(a: Seq<Seq<char>>, b: Seq<Seq<char>>, start: int)
    requires
        a.len() == b.len(),
        forall|j: int|
            0 <= j < a.len() ==> normalize(#[trigger] a[j]) == normalize(b[j]) && trailing(a[j])
                == trailing(b[j]),
    ensures
        command_at(a, start) == command_at(b, start),
{
    lemma_best_command_in_any_case(a, b, start, command_table().len() as int);
}

/// With capitalization on, a sentence-ending mark that stands as a piece of
/// its own ("question mark" spoken aloud) capitalizes the next word, just as
/// one at the end of a word does: the mark hugs the text, and the word
/// follows after a space with its first letter uppercased.
pub proof fn lemma_a_spoken_sentence_end_capitalizes_the_next_word(
    ps: Seq<(PieceKind, Seq<char>)>,
    mark: Seq<char>,
    word: Seq<char>,
)
    requires
        render_fold(ps, true).0.len() > 0,
        ends_sentence_spec(mark),
    ensures
        render_fold(ps.push((PieceKind::Punctuation, mark)).push((PieceKind::Word, word)), true).0
            == render_fold(ps, true).0 + mark + seq![' '] + capitalize(word),
{
    let with_mark = ps.push((PieceKind::Punctuation, mark));
    let all = with_mark.push((PieceKind::Word, word));
    assert(with_mark.drop_last() =~= ps);
    assert(with_mark.last() == (PieceKind::Punctuation, mark));
    assert(all.drop_last() =~= with_mark);
    assert(all.last() == (PieceKind::Word, word));
    let before = render_fold(ps, true);
    assert(render_fold(with_mark, true) == render_step(before, (PieceKind::Punctuation, mark), true));
    assert(render_fold(with_mark, true) == (before.0 + mark, true, true));
    assert(render_fold(all, true) == render_step(render_fold(with_mark, true), (PieceKind::Word, word), true));
    assert(render_fold(all, true).0 =~= before.0 + mark + seq![' '] + capitalize(word));
}

/// With capitalization on, a word that ends a sentence capitalizes the word
/// after it, which follows after a single space.
pub proof fn lemma_a_sentence_ending_word_capitalizes_the_next(
    ps: Seq<(PieceKind, Seq<char>)>,
    last: Seq<char>,
    word: Seq<char>,
)
    requires
        ends_sentence_spec(last),
    ensures
        render_fold(ps.push((PieceKind::Word, last)).push((PieceKind::Word, word)), true).0
            == render_fold(ps.push((PieceKind::Word, last)), true).0 + seq![' '] + capitalize(word),
{
    let with_last = ps.push((PieceKind::Word, last));
    assert(with_last.drop_last() =~= ps);
    assert(with_last.push((PieceKind::Word, word)).drop_last() =~= with_last);
}

} // verus!
