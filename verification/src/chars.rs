//! Character-level building blocks: whitespace, trimming, splitting into
//! words, and the Unicode classifications that only std can answer.

use vstd::prelude::*;

verus! {

// ---------------------------------------------------------------------------
// Unicode facts that come from std
// ---------------------------------------------------------------------------

/// Whether `c` has the Unicode `Alphabetic` or `Numeric` property, as
/// `char::is_alphanumeric` answers it.
pub uninterp spec fn alnum(c: char) -> bool;

/// Whether `c` has the Unicode `Alphabetic` property, as `char::is_alphabetic`
/// answers it.
pub uninterp spec fn alpha(c: char) -> bool;

/// The full Unicode lowercase mapping of a whole string, as `str::to_lowercase`
/// computes it.
pub uninterp spec fn lower(s: Seq<char>) -> Seq<char>;

/// The full Unicode uppercase mapping of one character, as `char::to_uppercase`
/// yields it.
pub uninterp spec fn upper(c: char) -> Seq<char>;

/// Calls `char::is_alphanumeric`; its answer is the Unicode table lookup
/// named `alnum`.
#[verifier::external_body]
pub fn is_alphanumeric(c: char) -> (r: bool)
    ensures
        r == alnum(c),
{
    c.is_alphanumeric()
}

/// Calls `char::is_alphabetic`; its answer is the Unicode table lookup named
/// `alpha`.
#[verifier::external_body]
pub fn is_alphabetic(c: char) -> (r: bool)
    ensures
        r == alpha(c),
{
    c.is_alphabetic()
}

/// Calls `str::to_lowercase`; the result is the mapping named `lower`.
#[verifier::external_body]
fn to_lowercase(s: &str) -> (r: String)
    ensures
        r@ == lower(s@),
{
    s.to_lowercase()
}

/// Calls `char::to_uppercase` and collects what it yields; the result is the
/// mapping named `upper`.
#[verifier::external_body]
fn to_uppercase(c: char) -> (r: String)
    ensures
        r@ == upper(c),
{
    c.to_uppercase().collect()
}

/// Calls `String::push`, which appends one character.
#[verifier::external_body]
fn push_char(s: &mut String, c: char)
    ensures
        final(s)@ == old(s)@.push(c),
{
    s.push(c);
}

// ---------------------------------------------------------------------------
// Whitespace
// ---------------------------------------------------------------------------

/// The Unicode `White_Space` property, which is what `char::is_whitespace`
/// tests: tab through carriage return, space, next line, no-break space,
/// ogham space mark, the en quad through hair space block, line and
/// paragraph separator, narrow no-break space, medium mathematical space and
/// ideographic space.
pub open spec fn is_ws(c: char) -> bool {
    let u = c as u32;
    ||| 0x09 <= u <= 0x0D
    ||| u == 0x20
    ||| u == 0x85
    ||| u == 0xA0
    ||| u == 0x1680
    ||| 0x2000 <= u <= 0x200A
    ||| u == 0x2028
    ||| u == 0x2029
    ||| u == 0x202F
    ||| u == 0x205F
    ||| u == 0x3000
}

pub fn is_whitespace(c: char) -> (r: bool)
    ensures
        r == is_ws(c),
{
    let u = c as u32;
    (0x09 <= u && u <= 0x0D) || u == 0x20 || u == 0x85 || u == 0xA0 || u == 0x1680 || (0x2000
        <= u && u <= 0x200A) || u == 0x2028 || u == 0x2029 || u == 0x202F || u == 0x205F || u
        == 0x3000
}

/// `s` with its leading whitespace removed.
pub open spec fn trim_start(s: Seq<char>) -> Seq<char>
    decreases s.len(),
{
    if s.len() > 0 && is_ws(s[0]) {
        trim_start(s.drop_first())
    } else {
        s
    }
}

/// `s` with its trailing whitespace removed.
pub open spec fn trim_end(s: Seq<char>) -> Seq<char>
    decreases s.len(),
{
    if s.len() > 0 && is_ws(s.last()) {
        trim_end(s.drop_last())
    } else {
        s
    }
}

/// `s` with whitespace removed from both ends, as `str::trim` does.
pub open spec fn trim(s: Seq<char>) -> Seq<char> {
    trim_end(trim_start(s))
}

/// Every character of `s` is whitespace.
pub open spec fn all_ws(s: Seq<char>) -> bool {
    forall|i: int| 0 <= i < s.len() ==> is_ws(#[trigger] s[i])
}

/// Whether `v` is nothing but whitespace.
pub fn is_blank(v: &Vec<char>) -> (r: bool)
    ensures
        r == all_ws(v@),
{
    let mut i: usize = 0;
    while i < v.len()
        invariant
            i <= v@.len(),
            forall|j: int| 0 <= j < i ==> is_ws(#[trigger] v@[j]),
        decreases v.len() - i,
    {
        if !is_whitespace(v[i]) {
            return false;
        }
        i += 1;
    }
    true
}

/// Reading `s` left to right: the words found so far, and whether the last of
/// them is still open (the previous character was part of it).
pub open spec fn split_state(s: Seq<char>) -> (Seq<Seq<char>>, bool)
    decreases s.len(),
{
    if s.len() == 0 {
        (Seq::empty(), false)
    } else {
        let (words, open) = split_state(s.drop_last());
        let c = s.last();
        if is_ws(c) {
            (words, false)
        } else if open {
            (words.update(words.len() - 1, words.last().push(c)), true)
        } else {
            (words.push(seq![c]), true)
        }
    }
}

/// The maximal runs of non-whitespace characters of `s`, in order, as
/// `str::split_whitespace` yields them.
pub open spec fn split_ws(s: Seq<char>) -> Seq<Seq<char>> {
    split_state(s).0
}

/// Every word that `split_ws` yields is non-empty and holds no whitespace, and
/// a word is open exactly when `s` ends in a non-whitespace character.
pub proof fn lemma_split_words_shape(s: Seq<char>)
    ensures
        forall|i: int|
            0 <= i < split_ws(s).len() ==> (#[trigger] split_ws(s)[i]).len() > 0 && !has_ws(
                split_ws(s)[i],
            ),
        split_state(s).1 <==> (s.len() > 0 && !is_ws(s.last())),
        split_state(s).1 ==> split_ws(s).len() > 0,
    decreases s.len(),
{
    if s.len() > 0 {
        lemma_split_words_shape(s.drop_last());
        let (words, open) = split_state(s.drop_last());
        let c = s.last();
        if is_ws(c) {
            assert(split_state(s) == (words, false));
            assert forall|i: int| 0 <= i < words.len() implies (#[trigger] words[i]).len() > 0
                && !has_ws(words[i]) by {
                assert(words[i] == split_ws(s.drop_last())[i]);
            }
        } else if open {
            let w2 = words.update(words.len() - 1, words.last().push(c));
            assert forall|i: int| 0 <= i < w2.len() implies (#[trigger] w2[i]).len() > 0
                && !has_ws(w2[i]) by {
                if i < w2.len() - 1 {
                    assert(w2[i] == split_ws(s.drop_last())[i]);
                } else {
                    let w = words.last().push(c);
                    assert(w2[i] == w);
                    assert(!has_ws(words.last()));
                    if has_ws(w) {
                        let j = choose|j: int| 0 <= j < w.len() && is_ws(#[trigger] w[j]);
                        if j < words.last().len() {
                            assert(w[j] == words.last()[j]);
                        }
                    }
                }
            }
            assert(split_state(s) == (w2, true));
        } else {
            let w2 = words.push(seq![c]);
            assert(split_state(s) == (w2, true));
            assert forall|i: int| 0 <= i < w2.len() implies (#[trigger] w2[i]).len() > 0
                && !has_ws(w2[i]) by {
                if i < w2.len() - 1 {
                    assert(w2[i] == split_ws(s.drop_last())[i]);
                } else {
                    assert(w2[i] == seq![c]);
                    assert(seq![c][0] == c);
                    assert(seq![c].len() == 1);
                    if has_ws(w2[i]) {
                        let j = choose|j: int| 0 <= j < w2[i].len() && is_ws(#[trigger] w2[i][j]);
                        assert(j == 0);
                    }
                }
            }
        }
    }
}

/// Some character of `s` is whitespace.
pub open spec fn has_ws(s: Seq<char>) -> bool {
    exists|i: int| 0 <= i < s.len() && is_ws(#[trigger] s[i])
}

// ---------------------------------------------------------------------------
// Conversions between strings and character vectors
// ---------------------------------------------------------------------------

/// The characters of `s`, in order.
pub fn chars_of(s: &str) -> (r: Vec<char>)
    ensures
        r@ == s@,
{
    let mut out: Vec<char> = Vec::new();
    for c in it: s.chars()
        invariant
            out@ == it.seq().take(it.index() as int),
            it.seq() == s@,
    {
        out.push(c);
    }
    out
}

/// A string holding exactly `v`.
pub fn string_of(v: &Vec<char>) -> (r: String)
    ensures
        r@ == v@,
{
    let mut out = String::new();
    let mut i: usize = 0;
    while i < v.len()
        invariant
            i <= v.len(),
            out@ == v@.take(i as int),
        decreases v.len() - i,
    {
        push_char(&mut out, v[i]);
        assert(v@.take(i as int).push(v@[i as int]) =~= v@.take(i + 1));
        i += 1;
    }
    assert(v@.take(v.len() as int) =~= v@);
    out
}

/// Append all of `b` to `a`.
pub fn extend_chars(a: &mut Vec<char>, b: &Vec<char>)
    ensures
        final(a)@ == old(a)@ + b@,
{
    let mut i: usize = 0;
    while i < b.len()
        invariant
            i <= b.len(),
            a@ == old(a)@ + b@.take(i as int),
        decreases b.len() - i,
    {
        a.push(b[i]);
        assert(old(a)@ + b@.take(i + 1) =~= (old(a)@ + b@.take(i as int)).push(b@[i as int]));
        i += 1;
    }
    assert(b@.take(b.len() as int) =~= b@);
}

/// The characters `v[from..to]`.
pub fn slice_chars(v: &Vec<char>, from: usize, to: usize) -> (r: Vec<char>)
    requires
        from <= to <= v.len(),
    ensures
        r@ == v@.subrange(from as int, to as int),
{
    let mut out: Vec<char> = Vec::new();
    let mut i = from;
    while i < to
        invariant
            from <= i <= to <= v.len(),
            out@ == v@.subrange(from as int, i as int),
        decreases to - i,
    {
        out.push(v[i]);
        assert(v@.subrange(from as int, i + 1) =~= v@.subrange(from as int, i as int).push(
            v@[i as int],
        ));
        i += 1;
    }
    out
}

/// Whether two character vectors hold the same characters.
pub fn eq_chars(a: &Vec<char>, b: &Vec<char>) -> (r: bool)
    ensures
        r == (a@ == b@),
{
    if a.len() != b.len() {
        return false;
    }
    let mut i: usize = 0;
    while i < a.len()
        invariant
            a.len() == b.len(),
            i <= a.len(),
            forall|j: int| 0 <= j < i ==> a@[j] == b@[j],
        decreases a.len() - i,
    {
        if a[i] != b[i] {
            return false;
        }
        i += 1;
    }
    assert(a@ =~= b@);
    true
}

/// Whether `s` holds exactly the characters of `v`.
pub fn str_eq_chars(s: &str, v: &Vec<char>) -> (r: bool)
    ensures
        r == (s@ == v@),
{
    let cs = chars_of(s);
    eq_chars(&cs, v)
}

/// The lowercase mapping of the characters in `v`.
pub fn lowercase(v: &Vec<char>) -> (r: Vec<char>)
    ensures
        r@ == lower(v@),
{
    let s = string_of(v);
    let l = to_lowercase(s.as_str());
    chars_of(l.as_str())
}

/// The uppercase mapping of `c`.
pub fn uppercase(c: char) -> (r: Vec<char>)
    ensures
        r@ == upper(c),
{
    let s = to_uppercase(c);
    chars_of(s.as_str())
}

// ---------------------------------------------------------------------------
// Trimming and splitting
// ---------------------------------------------------------------------------

pub proof fn lemma_trim_start_suffix(s: Seq<char>)
    ensures
        exists|k: int|
            0 <= k <= s.len() && trim_start(s) == s.subrange(k, s.len() as int) && (forall|j: int|
                0 <= j < k ==> is_ws(#[trigger] s[j])),
    decreases s.len(),
{
    if s.len() > 0 && is_ws(s[0]) {
        lemma_trim_start_suffix(s.drop_first());
        let k = choose|k: int|
            0 <= k <= s.drop_first().len() && trim_start(s.drop_first())
                == s.drop_first().subrange(k, s.drop_first().len() as int) && (forall|j: int|
                0 <= j < k ==> is_ws(#[trigger] s.drop_first()[j]));
        assert(s.drop_first().subrange(k, s.drop_first().len() as int) =~= s.subrange(
            k + 1,
            s.len() as int,
        ));
        assert forall|j: int| 0 <= j < k + 1 implies is_ws(#[trigger] s[j]) by {
            if j > 0 {
                assert(s[j] == s.drop_first()[j - 1]);
            }
        }
    } else {
        assert(s.subrange(0, s.len() as int) =~= s);
    }
}

/// Index of the first non-whitespace character at or after `from`, or
/// `s.len()` when there is none.
pub open spec fn skip_ws_from(s: Seq<char>, from: int) -> int
    decreases s.len() - from,
{
    if from >= s.len() {
        s.len() as int
    } else if is_ws(s[from]) {
        skip_ws_from(s, from + 1)
    } else {
        from
    }
}

proof fn lemma_trim_start_from(s: Seq<char>, from: int)
    requires
        0 <= from <= s.len(),
    ensures
        trim_start(s.subrange(from, s.len() as int)) == s.subrange(
            skip_ws_from(s, from),
            s.len() as int,
        ),
        from <= skip_ws_from(s, from) <= s.len(),
    decreases s.len() - from,
{
    let t = s.subrange(from, s.len() as int);
    if from < s.len() {
        if is_ws(s[from]) {
            assert(t.drop_first() =~= s.subrange(from + 1, s.len() as int));
            lemma_trim_start_from(s, from + 1);
        }
    }
}

/// Index just past the last non-whitespace character before `to`, or 0.
pub open spec fn skip_ws_back(s: Seq<char>, to: int) -> int
    decreases to,
{
    if to <= 0 {
        0
    } else if is_ws(s[to - 1]) {
        skip_ws_back(s, to - 1)
    } else {
        to
    }
}

proof fn lemma_trim_end_to(s: Seq<char>, from: int, to: int)
    requires
        0 <= from <= to <= s.len(),
        from < to ==> !is_ws(s[from]),
    ensures
        trim_end(s.subrange(from, to)) == s.subrange(from, if skip_ws_back(s, to) > from { skip_ws_back(s, to) } else { from }),
        skip_ws_back(s, to) <= to,
        from < to ==> from < skip_ws_back(s, to),
    decreases to - from,
{
    let t = s.subrange(from, to);
    if from < to {
        if is_ws(s[to - 1]) {
            assert(t.drop_last() =~= s.subrange(from, to - 1));
            lemma_trim_end_to(s, from, to - 1);
        }
    } else {
        lemma_skip_back_le(s, to);
    }
}

proof fn lemma_skip_back_le(s: Seq<char>, to: int)
    ensures
        skip_ws_back(s, to) <= if to > 0 { to } else { 0 },
    decreases to,
{
    if to > 0 && is_ws(s[to - 1]) {
        lemma_skip_back_le(s, to - 1);
    }
}

/// `s` with whitespace removed from both ends.
pub fn trim_chars(s: &Vec<char>) -> (r: Vec<char>)
    ensures
        r@ == trim(s@),
{
    let mut start: usize = 0;
    while start < s.len() && is_whitespace(s[start])
        invariant
            start <= s.len(),
            skip_ws_from(s@, start as int) == skip_ws_from(s@, 0),
        decreases s.len() - start,
    {
        start += 1;
    }
    let mut end: usize = s.len();
    while end > start && is_whitespace(s[end - 1])
        invariant
            start <= end <= s.len(),
            skip_ws_back(s@, end as int) == skip_ws_back(s@, s.len() as int),
        decreases end,
    {
        end -= 1;
    }
    proof {
        lemma_trim_start_from(s@, 0);
        assert(s@.subrange(0, s@.len() as int) =~= s@);
        assert(start as int == skip_ws_from(s@, 0));
        lemma_trim_end_to(s@, start as int, s@.len() as int);
        lemma_skip_back_le(s@, end as int);
    }
    slice_chars(s, start, end)
}

/// `s` with whitespace removed from both ends.
pub fn trim_str(s: &str) -> (r: String)
    ensures
        r@ == trim(s@),
{
    let cs = chars_of(s);
    let t = trim_chars(&cs);
    string_of(&t)
}

/// The words of `s`, as `str::split_whitespace` yields them.
pub fn split_words(s: &Vec<char>) -> (r: Vec<Vec<char>>)
    ensures
        r@.len() == split_ws(s@).len(),
        forall|i: int| 0 <= i < r@.len() ==> (#[trigger] r@[i])@ == split_ws(s@)[i],
{
    let mut words: Vec<Vec<char>> = Vec::new();
    let mut open = false;
    let mut i: usize = 0;
    while i < s.len()
        invariant
            i <= s.len(),
            words@.len() == split_state(s@.take(i as int)).0.len(),
            forall|j: int|
                0 <= j < words@.len() ==> (#[trigger] words@[j])@ == split_state(
                    s@.take(i as int),
                ).0[j],
            open == split_state(s@.take(i as int)).1,
        decreases s.len() - i,
    {
        let c = s[i];
        let ghost prev = s@.take(i as int);
        assert(s@.take(i + 1).drop_last() =~= prev);
        assert(s@.take(i + 1).last() == c);
        proof {
            lemma_split_words_shape(prev);
        }
        if is_whitespace(c) {
            open = false;
        } else if open {
            let last = words.len() - 1;
            let mut w = words.remove(last);
            w.push(c);
            words.push(w);
            assert forall|j: int| 0 <= j < words@.len() implies (#[trigger] words@[j])@
                == split_state(s@.take(i + 1)).0[j] by {}
        } else {
            let mut w: Vec<char> = Vec::new();
            w.push(c);
            words.push(w);
            open = true;
            assert forall|j: int| 0 <= j < words@.len() implies (#[trigger] words@[j])@
                == split_state(s@.take(i + 1)).0[j] by {
                if j == words@.len() - 1 {
                    assert(w@ =~= seq![c]);
                }
            }
        }
        assert(open == split_state(s@.take(i + 1)).1);
        i += 1;
    }
    assert(s@.take(s.len() as int) =~= s@);
    words
}

} // verus!
