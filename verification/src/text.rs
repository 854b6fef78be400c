//! Character-sequence utilities shared by the matcher: conversion between
//! `String` and `Vec<char>`, lowercasing, and substring search.
//!
//! All matching logic in this crate is defined over `Seq<char>`, the view
//! of both `&str` and `Vec<char>`.  Case-insensitive comparison rests on
//! `str::to_lowercase`, whose result is named `lower_of` and computed by
//! a trusted wrapper.
use vstd::prelude::*;

verus! {

/// What `str::to_lowercase` returns for a string with these characters.
pub uninterp spec fn lower_of(s: Seq<char>) -> Seq<char>;

/// Relies on `str::to_lowercase`: the lowercased string is a function of
/// the characters alone (Unicode `Lowercase_Mapping`, no locale or other
/// ambient input), and an empty string stays empty.
#[verifier::external_body]
pub fn lowercase(s: &str) -> (r: String)
    ensures
        r@ == lower_of(s@),
        s@.len() == 0 ==> r@.len() == 0,
{
    s.to_lowercase()
}

/// The characters of a string, as a vector.
pub fn chars_vec(s: &str) -> (r: Vec<char>)
    ensures
        r@ == s@,
{
    let n = s.unicode_len();
    let mut r: Vec<char> = Vec::new();
    let mut i: usize = 0;
    while i < n
        invariant
            i <= n,
            n == s@.len(),
            r@ == s@.subrange(0, i as int),
        decreases n - i,
    {
        r.push(s.get_char(i));
        i = i + 1;
        proof {
            assert(r@ =~= s@.subrange(0, i as int));
        }
    }
    proof {
        assert(r@ =~= s@);
    }
    r
}

/// The lowercased characters of a string, as a vector.
pub fn lowercase_chars(s: &str) -> (r: Vec<char>)
    ensures
        r@ == lower_of(s@),
{
    let l = lowercase(s);
    chars_vec(l.as_str())
}

/// The pattern `pat` occurs in `text` at position `i`.
pub open spec fn occurs_at(text: Seq<char>, pat: Seq<char>, i: int) -> bool {
    0 <= i && i + pat.len() <= text.len() && text.subrange(i, i + pat.len()) == pat
}

/// `pat` occurs somewhere in `text`.
pub open spec fn text_contains(text: Seq<char>, pat: Seq<char>) -> bool {
    exists|i: int| occurs_at(text, pat, i)
}

/// Position of the first occurrence of `pat` in `text`, if any.
pub open spec fn spec_find(text: Seq<char>, pat: Seq<char>) -> Option<int>
    decreases text.len(),
{
    if pat.len() > text.len() {
        None
    } else if text.subrange(0, pat.len() as int) == pat {
        Some(0)
    } else if text.len() == 0 {
        // Unreachable: an empty pattern is a subrange of any text.
        None
    } else {
        match spec_find(text.drop_first(), pat) {
            Some(i) => Some(i + 1),
            None => None,
        }
    }
}

/// An occurrence at `i` in `text` is an occurrence at `i - 1` in
/// `text.drop_first()`, for positive `i`.
proof fn lemma_occurs_drop_first(text: Seq<char>, pat: Seq<char>, i: int)
    requires
        1 <= i,
        i + pat.len() <= text.len(),
    ensures
        occurs_at(text, pat, i) == occurs_at(text.drop_first(), pat, i - 1),
{
    assert(text.subrange(i, i + pat.len()) =~= text.drop_first().subrange(
        i - 1,
        i - 1 + pat.len(),
    ));
}

/// `spec_find` returns the first occurrence: the position it returns is an
/// occurrence, every earlier position is not, and `None` means there is no
/// occurrence at all.
pub proof fn lemma_find_first(text: Seq<char>, pat: Seq<char>)
    ensures
        match spec_find(text, pat) {
            Some(i) => occurs_at(text, pat, i) && forall|j: int|
                0 <= j < i ==> !occurs_at(text, pat, j),
            None => forall|j: int| !occurs_at(text, pat, j),
        },
    decreases text.len(),
{
    if pat.len() > text.len() {
        assert(forall|j: int| !occurs_at(text, pat, j));
    } else if text.subrange(0, pat.len() as int) == pat {
    } else if text.len() == 0 {
        assert(text.subrange(0, pat.len() as int) =~= pat);
    } else {
        lemma_find_first(text.drop_first(), pat);
        assert(!occurs_at(text, pat, 0));
        match spec_find(text.drop_first(), pat) {
            Some(i) => {
                lemma_occurs_drop_first(text, pat, i + 1);
                assert forall|j: int| 0 <= j < i + 1 implies !occurs_at(text, pat, j) by {
                    if 1 <= j && j + pat.len() <= text.len() {
                        lemma_occurs_drop_first(text, pat, j);
                    }
                }
            },
            None => {
                assert forall|j: int| !occurs_at(text, pat, j) by {
                    if 1 <= j && j + pat.len() <= text.len() {
                        lemma_occurs_drop_first(text, pat, j);
                    }
                }
            },
        }
    }
}

/// A first occurrence (one with no occurrence before it) is exactly what
/// `spec_find` returns.
pub proof fn lemma_find_of_first_occurrence(text: Seq<char>, pat: Seq<char>, i: int)
    requires
        occurs_at(text, pat, i),
        forall|j: int| 0 <= j < i ==> !occurs_at(text, pat, j),
    ensures
        spec_find(text, pat) == Some(i),
    decreases text.len(),
{
    if i == 0 {
        assert(text.subrange(0, pat.len() as int) == pat);
    } else {
        assert(!occurs_at(text, pat, 0));
        assert(text.subrange(0, pat.len() as int) != pat);
        lemma_occurs_drop_first(text, pat, i);
        assert forall|j: int| 0 <= j < i - 1 implies !occurs_at(text.drop_first(), pat, j) by {
            lemma_occurs_drop_first(text, pat, j + 1);
        }
        lemma_find_of_first_occurrence(text.drop_first(), pat, i - 1);
    }
}

/// Whether `pat` occurs in `text` at position `i`.
pub fn matches_at(text: &Vec<char>, pat: &Vec<char>, i: usize) -> (r: bool)
    requires
        i + pat@.len() <= text@.len(),
    ensures
        r == occurs_at(text@, pat@, i as int),
{
    let tl = text.len();
    let pl = pat.len();
    let mut j: usize = 0;
    while j < pl
        invariant
            j <= pl,
            pl == pat@.len(),
            tl == text@.len(),
            i + pl <= tl,
            forall|k: int| 0 <= k < j ==> text@[i + k] == pat@[k],
        decreases pl - j,
    {
        if text[i + j] != pat[j] {
            proof {
                assert(text@.subrange(i as int, i + pat@.len())[j as int] != pat@[j as int]);
            }
            return false;
        }
        j = j + 1;
    }
    proof {
        assert(text@.subrange(i as int, i + pat@.len()) =~= pat@);
    }
    true
}

/// Position of the first occurrence of `pat` in `text`, if any.
pub fn find_sub(text: &Vec<char>, pat: &Vec<char>) -> (r: Option<usize>)
    ensures
        match r {
            Some(i) => spec_find(text@, pat@) == Some(i as int),
            None => spec_find(text@, pat@) is None,
        },
{
    if pat.len() > text.len() {
        return None;
    }
    let end = text.len() - pat.len();
    let mut i: usize = 0;
    loop
        invariant
            i <= end,
            pat@.len() <= text@.len(),
            end == text@.len() - pat@.len(),
            forall|j: int| 0 <= j < i ==> !occurs_at(text@, pat@, j),
        decreases end - i,
    {
        if matches_at(text, pat, i) {
            proof {
                lemma_find_of_first_occurrence(text@, pat@, i as int);
            }
            return Some(i);
        }
        if i == end {
            proof {
                assert(forall|j: int| !occurs_at(text@, pat@, j));
                lemma_find_first(text@, pat@);
            }
            return None;
        }
        i = i + 1;
    }
}

/// Whether `pat` occurs anywhere in `text`.
pub fn contains_sub(text: &Vec<char>, pat: &Vec<char>) -> (r: bool)
    ensures
        r == text_contains(text@, pat@),
{
    proof {
        lemma_find_first(text@, pat@);
    }
    match find_sub(text, pat) {
        Some(_) => true,
        None => false,
    }
}

/// Copy of the range `from..to` of `v`.
pub fn sub_vec(v: &Vec<char>, from: usize, to: usize) -> (r: Vec<char>)
    requires
        from <= to <= v@.len(),
    ensures
        r@ == v@.subrange(from as int, to as int),
{
    let mut r: Vec<char> = Vec::new();
    let mut i: usize = from;
    while i < to
        invariant
            from <= i <= to <= v@.len(),
            r@ == v@.subrange(from as int, i as int),
        decreases to - i,
    {
        r.push(v[i]);
        i = i + 1;
        proof {
            assert(r@ =~= v@.subrange(from as int, i as int));
        }
    }
    r
}

/// Append the range `from..to` of `src` to `dst`.
pub fn append_range(dst: &mut Vec<char>, src: &Vec<char>, from: usize, to: usize)
    requires
        from <= to <= src@.len(),
    ensures
        final(dst)@ == old(dst)@ + src@.subrange(from as int, to as int),
{
    let mut i: usize = from;
    while i < to
        invariant
            from <= i <= to <= src@.len(),
            dst@ == old(dst)@ + src@.subrange(from as int, i as int),
        decreases to - i,
    {
        dst.push(src[i]);
        i = i + 1;
        proof {
            assert(dst@ =~= old(dst)@ + src@.subrange(from as int, i as int));
        }
    }
}

/// Relies on `String::from_iter` (via `Iterator::collect` on `char`):
/// collecting characters yields the string of exactly those characters,
/// in order.
#[verifier::external_body]
pub fn string_from_chars(v: &Vec<char>) -> (r: String)
    ensures
        r@ == v@,
{
    v.iter().collect()
}

} // verus!
