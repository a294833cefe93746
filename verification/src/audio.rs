//! Choosing which microphone to record from.
//!
//! The capture itself runs on the audio thread against the platform's input
//! devices; what is decided here is which of the listed devices a configured
//! name refers to.

use vstd::prelude::*;

use crate::chars::{chars_of, eq_chars, lower, lowercase, trim, trim_chars};

verus! {

/// `needle` occurs in `hay` as a run of consecutive characters.
pub open spec fn contains_seq(hay: Seq<char>, needle: Seq<char>) -> bool {
    exists|i: int| 0 <= i && i + needle.len() <= hay.len() && #[trigger] hay.subrange(i, i + needle.len()) == needle
}

/// Whether `needle` occurs in `hay`.
pub fn contains_chars(hay: &Vec<char>, needle: &Vec<char>) -> (r: bool)
    ensures
        r == contains_seq(hay@, needle@),
{
    if needle.len() > hay.len() {
        return false;
    }
    let hlen = hay.len();
    let mut i: usize = 0;
    while i <= hay.len() - needle.len()
        invariant
            hlen == hay@.len(),
            needle@.len() <= hay@.len(),
            i <= hay@.len() - needle@.len() + 1,
            forall|k: int| 0 <= k < i ==> #[trigger] hay@.subrange(k, k + needle@.len()) != needle@,
        decreases hay.len() - needle.len() + 1 - i,
    {
        let mut j: usize = 0;
        let mut same = true;
        while j < needle.len()
            invariant
                hlen == hay@.len(),
                needle@.len() <= hay@.len(),
                i + needle@.len() <= hay@.len(),
                j <= needle@.len(),
                same == (forall|m: int| 0 <= m < j ==> hay@[i + m] == needle@[m]),
            decreases needle.len() - j,
        {
            if hay[i + j] != needle[j] {
                same = false;
            }
            j += 1;
        }
        if same {
            assert(hay@.subrange(i as int, i + needle@.len()) =~= needle@);
            return true;
        }
        assert(hay@.subrange(i as int, i + needle@.len()) != needle@) by {
            let m = choose|m: int| 0 <= m < needle@.len() && hay@[i + m] != needle@[m];
            assert(hay@.subrange(i as int, i + needle@.len())[m] == hay@[i + m]);
        }
        i += 1;
    }
    false
}

/// Among the first `n` names, the first whose lowercase form is exactly `w`.
pub open spec fn first_exact(names: Seq<String>, w: Seq<char>, n: int) -> Option<int>
    decreases n,
{
    if n <= 0 {
        None
    } else if first_exact(names, w, n - 1) is Some {
        first_exact(names, w, n - 1)
    } else if lower(names[n - 1]@) == w {
        Some(n - 1)
    } else {
        None
    }
}

/// Among the first `n` names, the first whose lowercase form contains `w`.
pub open spec fn first_containing(names: Seq<String>, w: Seq<char>, n: int) -> Option<int>
    decreases n,
{
    if n <= 0 {
        None
    } else if first_containing(names, w, n - 1) is Some {
        first_containing(names, w, n - 1)
    } else if contains_seq(lower(names[n - 1]@), w) {
        Some(n - 1)
    } else {
        None
    }
}

/// Which device a configured name picks: none for a blank name; otherwise
/// the first whose name equals it ignoring case, or failing that the first
/// whose name contains it ignoring case.
pub open spec fn device_for(names: Seq<String>, want: Seq<char>) -> Option<int> {
    let w = lower(trim(want));
    if w.len() == 0 {
        None
    } else if first_exact(names, w, names.len() as int) is Some {
        first_exact(names, w, names.len() as int)
    } else {
        first_containing(names, w, names.len() as int)
    }
}

proof fn lemma_first_exact_stays(names: Seq<String>, w: Seq<char>, m: int, n: int)
    requires
        m <= n,
        first_exact(names, w, m) is Some,
    ensures
        first_exact(names, w, n) == first_exact(names, w, m),
    decreases n - m,
{
    if m < n {
        lemma_first_exact_stays(names, w, m, n - 1);
    }
}

proof fn lemma_first_containing_stays(names: Seq<String>, w: Seq<char>, m: int, n: int)
    requires
        m <= n,
        first_containing(names, w, m) is Some,
    ensures
        first_containing(names, w, n) == first_containing(names, w, m),
    decreases n - m,
{
    if m < n {
        lemma_first_containing_stays(names, w, m, n - 1);
    }
}

/// What `first_exact` and `first_containing` find: the earliest index with
/// the property, or none when no index has it.
pub proof fn lemma_first_found(names: Seq<String>, w: Seq<char>, n: int)
    requires
        0 <= n <= names.len(),
    ensures
        first_exact(names, w, n) matches Some(i) ==> 0 <= i < n && lower(names[i]@) == w && (
        forall|j: int| 0 <= j < i ==> lower(#[trigger] names[j]@) != w),
        first_exact(names, w, n) is None ==> (forall|j: int|
            0 <= j < n ==> lower(#[trigger] names[j]@) != w),
        first_containing(names, w, n) matches Some(i) ==> 0 <= i < n && contains_seq(
            lower(names[i]@),
            w,
        ) && (forall|j: int| 0 <= j < i ==> !contains_seq(lower(#[trigger] names[j]@), w)),
        first_containing(names, w, n) is None ==> (forall|j: int|
            0 <= j < n ==> !contains_seq(lower(#[trigger] names[j]@), w)),
    decreases n,
{
    if n > 0 {
        lemma_first_found(names, w, n - 1);
    }
}

/// `needle` is found in a text that has it at any position: at the start, in
/// the middle, or at the very end.
pub proof fn lemma_found_at_any_position(before: Seq<char>, needle: Seq<char>, after: Seq<char>)
    ensures
        contains_seq(before + needle + after, needle),
{
    let hay = before + needle + after;
    let i = before.len() as int;
    assert(hay.subrange(i, i + needle.len()) =~= needle);
}

/// A configured name that occurs anywhere in a device's name, ignoring case
/// and the name's surrounding whitespace, picks a device: one whose name is
/// exactly the configured one, or else the first containing it, which is no
/// later than that device.
pub proof fn lemma_a_name_inside_a_device_name_picks_one(
    names: Seq<String>,
    want: Seq<char>,
    j: int,
    before: Seq<char>,
    after: Seq<char>,
)
    requires
        0 <= j < names.len(),
        lower(trim(want)).len() > 0,
        lower(names[j]@) == before + lower(trim(want)) + after,
    ensures
        device_for(names, want) matches Some(i) && 0 <= i < names.len() && (lower(names[i]@)
            == lower(trim(want)) || i <= j),
{
    let w = lower(trim(want));
    lemma_found_at_any_position(before, w, after);
    lemma_first_found(names, w, names.len() as int);
}

/// Index of the first name containing `want`, case-insensitively.
///
/// An exact match always wins, so a specific name cannot be stolen by a
/// device that merely contains it as a substring. A blank `want` matches
/// nothing.
pub fn match_device(names: &[String], want: &str) -> (r: Option<usize>)
    ensures
        r matches Some(i) ==> device_for(names@, want@) == Some(i as int),
        r is None ==> device_for(names@, want@) is None,
{
    let raw = chars_of(want);
    let trimmed = trim_chars(&raw);
    let w = lowercase(&trimmed);
    if w.len() == 0 {
        return None;
    }
    let mut i: usize = 0;
    while i < names.len()
        invariant
            w@ == lower(trim(want@)),
            i <= names@.len(),
            w@.len() > 0,
            first_exact(names@, w@, i as int) is None,
        decreases names.len() - i,
    {
        let n = lowercase(&chars_of(names[i].as_str()));
        if eq_chars(&n, &w) {
            assert(first_exact(names@, w@, i + 1) == Some(i as int));
            proof {
                lemma_first_exact_stays(names@, w@, i + 1, names@.len() as int);
            }
            return Some(i);
        }
        i += 1;
    }
    let mut i: usize = 0;
    while i < names.len()
        invariant
            w@ == lower(trim(want@)),
            i <= names@.len(),
            w@.len() > 0,
            first_exact(names@, w@, names@.len() as int) is None,
            first_containing(names@, w@, i as int) is None,
        decreases names.len() - i,
    {
        let n = lowercase(&chars_of(names[i].as_str()));
        if contains_chars(&n, &w) {
            assert(first_containing(names@, w@, i + 1) == Some(i as int));
            proof {
                lemma_first_containing_stays(names@, w@, i + 1, names@.len() as int);
            }
            return Some(i);
        }
        i += 1;
    }
    None
}

} // verus!
