//! Phrases a speaker can say to place characters no microphone can hear.
//!
//! Only phrases that are hard to say by accident are listed. "period" and
//! "comma" are deliberately absent: the recognizer punctuates on its own, and
//! dictating a sentence that happens to contain the word "period" is far more
//! likely than wanting a bare full stop.

use vstd::prelude::*;

use super::render::{Piece, PieceKind};
use super::words::{normalize, normalize_chars, trailing, trailing_of};
use crate::chars::{chars_of, eq_chars, is_ws, lemma_split_words_shape, split_words, split_ws, string_of};

verus! {

/// What a spoken command places in the text.
#[derive(Clone, Copy, Debug, PartialEq, Eq)]
pub enum Kind {
    /// Sticks to the previous word with no space in front.
    Punctuation,
    /// Ends the line.
    Break,
}

#[derive(Clone, Copy, Debug, PartialEq, Eq)]
pub struct SpokenCommand {
    /// The phrase to say, lowercase, words separated by single spaces.
    pub phrase: &'static str,
    /// What lands in the text.
    pub emits: &'static str,
    pub kind: Kind,
}

impl View for SpokenCommand {
    type V = (Seq<char>, Seq<char>, Kind);

    open spec fn view(&self) -> (Seq<char>, Seq<char>, Kind) {
        (self.phrase@, self.emits@, self.kind)
    }
}

/// Every command, in the order they are tried.
pub open spec fn command_table() -> Seq<(Seq<char>, Seq<char>, Kind)> {
    seq![
        ("new line"@, "\n"@, Kind::Break),
        ("newline"@, "\n"@, Kind::Break),
        ("new paragraph"@, "\n\n"@, Kind::Break),
        ("question mark"@, "?"@, Kind::Punctuation),
        ("exclamation mark"@, "!"@, Kind::Punctuation),
        ("exclamation point"@, "!"@, Kind::Punctuation),
        ("semicolon"@, ";"@, Kind::Punctuation),
        ("ellipsis"@, "..."@, Kind::Punctuation),
    ]
}

/// The piece a command with this text and kind becomes.
pub open spec fn command_piece(emits: Seq<char>, kind: Kind) -> (PieceKind, Seq<char>) {
    match kind {
        Kind::Punctuation => (PieceKind::Punctuation, emits),
        Kind::Break => (PieceKind::Break, emits),
    }
}

impl SpokenCommand {
    pub fn piece(&self) -> (r: Piece)
        ensures
            r@ == command_piece(self.emits@, self.kind),
    {
        let text = string_of(&chars_of(self.emits));
        match self.kind {
            Kind::Punctuation => Piece::Punctuation(text),
            Kind::Break => Piece::Break(text),
        }
    }

    /// How the phrase reads in a settings UI: `"new line" - line break`,
    /// `"new paragraph" - blank line`, or the phrase and what it emits.
    pub fn description(&self) -> (r: String)
        ensures
            r@ == seq!['"'] + self.phrase@ + (if self.emits@ == seq!['\n'] {
                "\" - line break"@
            } else if self.emits@ == seq!['\n', '\n'] {
                "\" - blank line"@
            } else {
                "\" - "@ + self.emits@
            }),
    {
        let emits = chars_of(self.emits);
        let mut line_break: Vec<char> = Vec::new();
        line_break.push('\n');
        let mut blank: Vec<char> = Vec::new();
        blank.push('\n');
        blank.push('\n');
        assert(line_break@ =~= seq!['\n']);
        assert(blank@ =~= seq!['\n', '\n']);
        let mut out = String::from_str("\"");
        proof {
            reveal_strlit("\"");
        }
        out.append(self.phrase);
        if eq_chars(&emits, &line_break) {
            out.append("\" - line break");
        } else if eq_chars(&emits, &blank) {
            out.append("\" - blank line");
        } else {
            out.append("\" - ");
            out.append(self.emits);
        }
        assert(out@ =~= seq!['"'] + self.phrase@ + (if self.emits@ == seq!['\n'] {
            "\" - line break"@
        } else if self.emits@ == seq!['\n', '\n'] {
            "\" - blank line"@
        } else {
            "\" - "@ + self.emits@
        }));
        out
    }
}

/// Every command, for showing in settings or docs.
pub fn spoken_commands() -> (r: Vec<SpokenCommand>)
    ensures
        r@.len() == command_table().len(),
        forall|i: int| 0 <= i < r@.len() ==> (#[trigger] r@[i])@ == command_table()[i],
{
    let r = vec![
        SpokenCommand { phrase: "new line", emits: "\n", kind: Kind::Break },
        SpokenCommand { phrase: "newline", emits: "\n", kind: Kind::Break },
        SpokenCommand { phrase: "new paragraph", emits: "\n\n", kind: Kind::Break },
        SpokenCommand { phrase: "question mark", emits: "?", kind: Kind::Punctuation },
        SpokenCommand { phrase: "exclamation mark", emits: "!", kind: Kind::Punctuation },
        SpokenCommand { phrase: "exclamation point", emits: "!", kind: Kind::Punctuation },
        SpokenCommand { phrase: "semicolon", emits: ";", kind: Kind::Punctuation },
        SpokenCommand { phrase: "ellipsis", emits: "...", kind: Kind::Punctuation },
    ];
    assert(r@.len() == command_table().len());
    r
}

/// The words a command's phrase is made of.
pub open spec fn phrase_words(k: int) -> Seq<Seq<char>> {
    split_ws(command_table()[k].0)
}

/// A word inside a command must be bare; the last word may carry a comma,
/// which is what the recognizer tends to emit around a dictated aside.
pub open spec fn is_clean(w: Seq<char>, is_last: bool) -> bool {
    trailing(w).len() == 0 || (is_last && trailing(w) == seq![','])
}

/// Command `k` can be read off `words` starting at `start`.
pub open spec fn command_matches(words: Seq<Seq<char>>, start: int, k: int) -> bool {
    let p = phrase_words(k);
    &&& 0 <= start
    &&& start + p.len() <= words.len()
    &&& forall|j: int|
        0 <= j < p.len() ==> normalize(words[start + j]) == #[trigger] p[j] && is_clean(
            words[start + j],
            j + 1 == p.len(),
        )
}

/// Among the first `n` commands, the one matching at `start` with the longest
/// phrase; on a tie the earlier one.
pub open spec fn best_command(words: Seq<Seq<char>>, start: int, n: int) -> Option<int>
    decreases n,
{
    if n <= 0 {
        None
    } else {
        let best = best_command(words, start, n - 1);
        if command_matches(words, start, n - 1) && (best is None || phrase_words(n - 1).len()
            > phrase_words(best->0).len()) {
            Some(n - 1)
        } else {
            best
        }
    }
}

/// The command spoken at `start`, if any.
pub open spec fn command_at(words: Seq<Seq<char>>, start: int) -> Option<int> {
    best_command(words, start, command_table().len() as int)
}

/// The abstract contents of a list of words.
pub open spec fn word_views(words: Seq<Vec<char>>) -> Seq<Seq<char>> {
    words.map_values(|w: Vec<char>| w@)
}

/// The command found is one that matches, no matching command has a longer
/// phrase, and every matching command before it has a shorter one; when none
/// is found, no command matches.
pub proof fn lemma_best_command(words: Seq<Seq<char>>, start: int, n: int)
    requires
        0 <= n <= command_table().len(),
    ensures
        best_command(words, start, n) matches Some(k) ==> {
            &&& 0 <= k < n
            &&& command_matches(words, start, k)
            &&& forall|k2: int|
                0 <= k2 < n && command_matches(words, start, k2) ==> phrase_words(k2).len()
                    <= phrase_words(k).len()
            &&& forall|k2: int|
                0 <= k2 < k && command_matches(words, start, k2) ==> phrase_words(k2).len()
                    < phrase_words(k).len()
        },
        best_command(words, start, n) is None ==> forall|k2: int|
            0 <= k2 < n ==> !command_matches(words, start, k2),
    decreases n,
{
    if n > 0 {
        lemma_best_command(words, start, n - 1);
    }
}

/// A sequence with a non-whitespace character splits into at least one word.
pub proof fn lemma_split_nonempty(s: Seq<char>, i: int)
    requires
        0 <= i < s.len(),
        !is_ws(s[i]),
    ensures
        split_ws(s).len() >= 1,
    decreases s.len(),
{
    lemma_split_words_shape(s);
    if !is_ws(s.last()) {
    } else {
        assert(i < s.len() - 1);
        assert(s.drop_last()[i] == s[i]);
        lemma_split_nonempty(s.drop_last(), i);
        assert(split_ws(s) == split_ws(s.drop_last()));
    }
}

/// Every command phrase has at least one word.
pub proof fn lemma_phrases_nonempty()
    ensures
        forall|k: int| 0 <= k < command_table().len() ==> #[trigger] phrase_words(k).len() >= 1,
{
    reveal_strlit("new line");
    reveal_strlit("newline");
    reveal_strlit("new paragraph");
    reveal_strlit("question mark");
    reveal_strlit("exclamation mark");
    reveal_strlit("exclamation point");
    reveal_strlit("semicolon");
    reveal_strlit("ellipsis");
    assert forall|k: int| 0 <= k < command_table().len() implies #[trigger] phrase_words(k).len()
        >= 1 by {
        let p = command_table()[k].0;
        assert(p.len() > 0 && !is_ws(p[0]));
        lemma_split_nonempty(p, 0);
    }
}

/// Whether the words from `start` read as the phrase `p`, each word bare but
/// the last, which may carry a comma.
fn phrase_matches_at(words: &Vec<Vec<char>>, start: usize, p: &Vec<Vec<char>>) -> (r: bool)
    requires
        start + p@.len() <= words@.len(),
    ensures
        r == (forall|j: int|
            0 <= j < p@.len() ==> normalize(words@[start + j]@) == #[trigger] p@[j]@ && is_clean(
                words@[start + j]@,
                j + 1 == p@.len(),
            )),
{
    let total = words.len();
    let mut j: usize = 0;
    while j < p.len()
        invariant
            total == words@.len(),
            start + p@.len() <= words@.len(),
            j <= p@.len(),
            forall|jj: int|
                0 <= jj < j ==> normalize(words@[start + jj]@) == #[trigger] p@[jj]@ && is_clean(
                    words@[start + jj]@,
                    jj + 1 == p@.len(),
                ),
        decreases p.len() - j,
    {
        assert(start + j < words@.len());
        let word = &words[start + j];
        let n = normalize_chars(word);
        if !eq_chars(&n, &p[j]) {
            return false;
        }
        assert(normalize(words@[start + j]@) == p@[j as int]@);
        let tail = trailing_of(word);
        let is_last = j + 1 == p.len();
        let clean = tail.len() == 0 || (is_last && tail.len() == 1 && tail[0] == ',');
        assert(clean == is_clean(word@, is_last)) by {
            if tail@.len() == 1 && tail@[0] == ',' {
                assert(tail@ =~= seq![',']);
            }
        }
        if !clean {
            return false;
        }
        assert forall|jj: int|
            0 <= jj < j + 1 implies normalize(words@[start + jj]@) == #[trigger] p@[jj]@ && is_clean(
                words@[start + jj]@,
                jj + 1 == p@.len(),
            ) by {
            if jj == j {
                assert(word@ == words@[start + jj]@);
                assert(is_clean(words@[start + jj]@, jj + 1 == p@.len()));
            }
        }
        j += 1;
    }
    true
}

/// The command spoken at `start` in `words`, with the number of words it
/// takes up. The longest phrase wins; a tie goes to the earlier command.
pub fn match_command(words: &Vec<Vec<char>>, start: usize) -> (r: Option<(SpokenCommand, usize)>)
    ensures
        r is Some <==> command_at(word_views(words@), start as int) is Some,
        r matches Some((c, n)) ==> {
            let k = command_at(word_views(words@), start as int)->0;
            &&& c@ == command_table()[k]
            &&& n == phrase_words(k).len()
            &&& n >= 1
        },
{
    let ghost ws = word_views(words@);
    let commands = spoken_commands();
    let mut best: Option<(SpokenCommand, usize)> = None;
    let ghost mut best_k: int = 0;
    let mut k: usize = 0;
    proof {
        lemma_phrases_nonempty();
    }
    while k < commands.len()
        invariant
            ws == word_views(words@),
            commands@.len() == command_table().len(),
            forall|i: int| 0 <= i < commands@.len() ==> (#[trigger] commands@[i])@ == command_table()[i],
            forall|i: int| 0 <= i < command_table().len() ==> #[trigger] phrase_words(i).len() >= 1,
            k <= commands@.len(),
            best is Some <==> best_command(ws, start as int, k as int) is Some,
            best matches Some((c, n)) ==> {
                &&& best_command(ws, start as int, k as int) == Some(best_k)
                &&& c@ == command_table()[best_k]
                &&& n == phrase_words(best_k).len()
                &&& n >= 1
            },
        decreases commands.len() - k,
    {
        let command = commands[k];
        let phrase_chars = chars_of(command.phrase);
        let phrase = split_words(&phrase_chars);
        assert(phrase@.len() == phrase_words(k as int).len());
        let fits = start <= words.len() && phrase.len() <= words.len() - start;
        let mut matched = false;
        if fits {
            matched = phrase_matches_at(words, start, &phrase);
        }
        proof {
            assert(forall|j: int| 0 <= j < phrase@.len() ==> (#[trigger] phrase@[j])@ == phrase_words(k as int)[j]);
            assert(forall|j: int| 0 <= j < words@.len() ==> (#[trigger] words@[j])@ == ws[j]);
            if fits {
                assert(ws.len() == words@.len());
                if matched {
                    let p = phrase_words(k as int);
                    assert forall|j: int| 0 <= j < p.len() implies normalize(ws[start + j]) == #[trigger] p[j]
                        && is_clean(ws[start + j], j + 1 == p.len()) by {
                        assert(phrase@[j]@ == p[j]);
                        assert(words@[start + j]@ == ws[start + j]);
                    }
                    assert(command_matches(ws, start as int, k as int));
                } else {
                    if command_matches(ws, start as int, k as int) {
                        assert(forall|j: int|
                            0 <= j < phrase@.len() ==> normalize(words@[start + j]@) == #[trigger] phrase@[j]@ && is_clean(
                                words@[start + j]@,
                                j + 1 == phrase@.len(),
                            )) by {
                            assert forall|j: int| 0 <= j < phrase@.len() implies normalize(words@[start + j]@) == #[trigger] phrase@[j]@ && is_clean(
                                words@[start + j]@,
                                j + 1 == phrase@.len(),
                            ) by {
                                assert(phrase_words(k as int)[j] == phrase@[j]@);
                                assert(words@[start + j]@ == ws[start + j]);
                            }
                        }
                    }
                }
            }
            assert(matched == command_matches(ws, start as int, k as int));
        }
        let longer = match best {
            None => true,
            Some((_, n)) => phrase.len() > n,
        };
        if matched && longer {
            best = Some((command, phrase.len()));
            proof {
                best_k = k as int;
            }
        }
        k += 1;
    }
    best
}

/// Longest command matching at `start`, with the number of words it consumed.
///
/// A command only matches when the spoken words carry no punctuation of their
/// own, so a decoded "new line." stays literal text.
pub fn match_at(words: &[&str], start: usize) -> (r: Option<(SpokenCommand, usize)>)
    ensures
        r is Some <==> command_at(words@.map_values(|w: &str| w@), start as int) is Some,
        r matches Some((c, n)) ==> {
            let k = command_at(words@.map_values(|w: &str| w@), start as int)->0;
            &&& c@ == command_table()[k]
            &&& n == phrase_words(k).len()
        },
{
    let mut ws: Vec<Vec<char>> = Vec::new();
    let mut i: usize = 0;
    while i < words.len()
        invariant
            i <= words@.len(),
            ws@.len() == i,
            forall|j: int| 0 <= j < i ==> (#[trigger] ws@[j])@ == words@[j]@,
        decreases words.len() - i,
    {
        ws.push(chars_of(words[i]));
        i += 1;
    }
    assert(word_views(ws@) =~= words@.map_values(|w: &str| w@));
    match_command(&ws, start)
}

} // verus!
