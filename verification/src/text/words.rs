//! Looking at one decoded word: the punctuation hanging off its end, and the
//! bare lowercase form used to compare it against phrases.

use vstd::prelude::*;

use crate::chars::{alnum, chars_of, is_alphanumeric, lower, lowercase, slice_chars, string_of};

verus! {

/// Index of the first alphanumeric character of `w`, or `w.len()` when there
/// is none.
pub open spec fn lead_end(w: Seq<char>) -> int
    decreases w.len(),
{
    if w.len() == 0 {
        0
    } else if alnum(w[0]) {
        0
    } else {
        1 + lead_end(w.drop_first())
    }
}

/// Index just past the last alphanumeric character of `w`, or 0 when there is
/// none.
pub open spec fn tail_start(w: Seq<char>) -> int
    decreases w.len(),
{
    if w.len() == 0 {
        0
    } else if alnum(w.last()) {
        w.len() as int
    } else {
        tail_start(w.drop_last())
    }
}

/// The punctuation hanging off the end of `w`: everything after its last
/// alphanumeric character, or all of `w` when it has none.
pub open spec fn trailing(w: Seq<char>) -> Seq<char> {
    w.subrange(tail_start(w), w.len() as int)
}

/// `w` with every non-alphanumeric character stripped from both ends.
pub open spec fn strip(w: Seq<char>) -> Seq<char> {
    if lead_end(w) < tail_start(w) {
        w.subrange(lead_end(w), tail_start(w))
    } else {
        Seq::empty()
    }
}

/// The form a word is compared in: stripped of surrounding punctuation, then
/// lowercased.
pub open spec fn normalize(w: Seq<char>) -> Seq<char> {
    lower(strip(w))
}

pub proof fn lemma_tail_start_bounds(w: Seq<char>)
    ensures
        0 <= tail_start(w) <= w.len(),
        forall|j: int| tail_start(w) <= j < w.len() ==> !alnum(#[trigger] w[j]),
        tail_start(w) > 0 ==> alnum(w[tail_start(w) - 1]),
    decreases w.len(),
{
    if w.len() > 0 && !alnum(w.last()) {
        lemma_tail_start_bounds(w.drop_last());
        assert forall|j: int| tail_start(w) <= j < w.len() implies !alnum(#[trigger] w[j]) by {
            if j < w.len() - 1 {
                assert(w[j] == w.drop_last()[j]);
            }
        }
    }
}

pub proof fn lemma_lead_end_bounds(w: Seq<char>)
    ensures
        0 <= lead_end(w) <= w.len(),
        forall|j: int| 0 <= j < lead_end(w) ==> !alnum(#[trigger] w[j]),
        lead_end(w) < w.len() ==> alnum(w[lead_end(w)]),
    decreases w.len(),
{
    if w.len() > 0 && !alnum(w[0]) {
        lemma_lead_end_bounds(w.drop_first());
        assert forall|j: int| 0 <= j < lead_end(w) implies !alnum(#[trigger] w[j]) by {
            if j > 0 {
                assert(w[j] == w.drop_first()[j - 1]);
            }
        }
    }
}

/// Index just past the last alphanumeric character of `w`, or 0.
fn tail_start_of(w: &Vec<char>) -> (r: usize)
    ensures
        r == tail_start(w@),
{
    let mut end = w.len();
    assert(w@.take(w.len() as int) =~= w@);
    while end > 0 && !is_alphanumeric(w[end - 1])
        invariant
            end <= w.len(),
            tail_start(w@.take(end as int)) == tail_start(w@),
        decreases end,
    {
        assert(w@.take(end as int).drop_last() =~= w@.take(end - 1));
        end -= 1;
    }
    if end > 0 {
        assert(w@.take(end as int).last() == w@[end - 1]);
    }
    assert(w@.take(w.len() as int) =~= w@);
    end
}

/// Index of the first alphanumeric character of `w`, or `w.len()`.
fn lead_end_of(w: &Vec<char>) -> (r: usize)
    ensures
        r == lead_end(w@),
{
    let mut start: usize = 0;
    assert(w@.skip(0) =~= w@);
    while start < w.len() && !is_alphanumeric(w[start])
        invariant
            start <= w.len(),
            start + lead_end(w@.skip(start as int)) == lead_end(w@),
        decreases w.len() - start,
    {
        assert(w@.skip(start as int).drop_first() =~= w@.skip(start + 1));
        start += 1;
    }
    if start < w.len() {
        assert(w@.skip(start as int)[0] == w@[start as int]);
    }
    assert(w@.skip(0) =~= w@);
    start
}

/// The punctuation at the end of `w`.
pub fn trailing_of(w: &Vec<char>) -> (r: Vec<char>)
    ensures
        r@ == trailing(w@),
{
    proof {
        lemma_tail_start_bounds(w@);
    }
    let start = tail_start_of(w);
    slice_chars(w, start, w.len())
}

/// The punctuation hanging off the end of a word, if any.
pub fn trailing_punctuation(word: &str) -> (r: &str)
    ensures
        r@ == trailing(word@),
{
    let w = chars_of(word);
    proof {
        lemma_tail_start_bounds(w@);
    }
    let start = tail_start_of(&w);
    word.substring_char(start, w.len())
}

/// Lowercase a word with its surrounding punctuation stripped.
pub fn normalize_chars(w: &Vec<char>) -> (r: Vec<char>)
    ensures
        r@ == normalize(w@),
{
    proof {
        lemma_tail_start_bounds(w@);
        lemma_lead_end_bounds(w@);
    }
    let start = lead_end_of(w);
    let end = tail_start_of(w);
    let bare = if start < end {
        slice_chars(w, start, end)
    } else {
        Vec::new()
    };
    assert(bare@ =~= strip(w@));
    lowercase(&bare)
}

/// Lowercase a word with its surrounding punctuation stripped.
pub fn normalize_word(word: &str) -> (r: String)
    ensures
        r@ == normalize(word@),
{
    let w = chars_of(word);
    let n = normalize_chars(&w);
    string_of(&n)
}

} // verus!
