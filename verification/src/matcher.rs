//! Literal ("glob-lite") pattern matching and replacement on filenames.
//!
//! A literal pattern with exactly one `*` wildcard is split at the wildcard
//! and matched by prefix/suffix containment; a pattern with zero or several
//! wildcards falls back to substring containment with the wildcards
//! stripped.  Replacement locates the first occurrence of the pattern text
//! (lowercased when matching case-insensitively) in the original-case
//! filename and splices in the replacement verbatim, preserving the
//! surrounding characters; only the first occurrence is replaced.
use crate::rx::{
    compile_regex, regex_ci_of, regex_compiles, regex_is_match, regex_matched, regex_pattern_of,
    regex_replace_all, regex_replaced,
};
use crate::text::{
    append_range, chars_vec, contains_sub, find_sub, lemma_find_first, lower_of, lowercase_chars,
    occurs_at, spec_find, string_from_chars, sub_vec, text_contains,
};
use crate::Error;
use vstd::prelude::*;

verus! {

/// Number of `*` characters in a pattern.
pub open spec fn star_count(s: Seq<char>) -> nat
    decreases s.len(),
{
    if s.len() == 0 {
        0
    } else {
        star_count(s.drop_last()) + (if s.last() == '*' {
            1nat
        } else {
            0nat
        })
    }
}

/// The pattern with every `*` character removed.
pub open spec fn strip_stars(s: Seq<char>) -> Seq<char>
    decreases s.len(),
{
    if s.len() == 0 {
        Seq::empty()
    } else if s.last() == '*' {
        strip_stars(s.drop_last())
    } else {
        strip_stars(s.drop_last()).push(s.last())
    }
}

/// Part of a one-wildcard pattern before the first `*`.
pub open spec fn star_prefix(pattern: Seq<char>) -> Seq<char> {
    pattern.subrange(0, spec_find(pattern, seq!['*'])->Some_0)
}

/// Part of a one-wildcard pattern after the first `*`.
pub open spec fn star_suffix(pattern: Seq<char>) -> Seq<char> {
    pattern.subrange(spec_find(pattern, seq!['*'])->Some_0 + 1, pattern.len() as int)
}

/// Literal-mode match test.
///
/// One wildcard: the text must start with the part before the `*` and end
/// with the part after it.  No wildcard, or several: the text must contain
/// the pattern (with any wildcards removed) as a substring.
pub open spec fn spec_simple_match(text: Seq<char>, pattern: Seq<char>) -> bool {
    if star_count(pattern) == 1 {
        star_prefix(pattern).is_prefix_of(text) && star_suffix(pattern).is_suffix_of(text)
    } else if star_count(pattern) > 1 {
        text_contains(text, strip_stars(pattern))
    } else {
        text_contains(text, pattern)
    }
}

/// `text` with the range `at .. at + removed` replaced by `rep`.
pub open spec fn splice(text: Seq<char>, at: int, removed: int, rep: Seq<char>) -> Seq<char> {
    text.subrange(0, at) + rep + text.subrange(at + removed, text.len() as int)
}

/// Literal-mode replacement: the first occurrence of the pattern —
/// located case-sensitively, or on the lowercased text — is replaced by
/// `rep`, splicing into the original-case text; without an occurrence the
/// text is unchanged.  Lowercasing can change a string's length, so a
/// position found in the lowercased text is used only when the pattern's
/// span starting there still lies within the original text; otherwise
/// the text is returned unchanged rather than spliced out of range.
pub open spec fn spec_simple_replace(
    text: Seq<char>,
    pattern: Seq<char>,
    rep: Seq<char>,
    case_sensitive: bool,
) -> Seq<char> {
    let hay = if case_sensitive {
        text
    } else {
        lower_of(text)
    };
    let needle = if case_sensitive {
        pattern
    } else {
        lower_of(pattern)
    };
    match spec_find(hay, needle) {
        Some(p) => if p + pattern.len() <= text.len() {
            splice(text, p, pattern.len() as int, rep)
        } else {
            text
        },
        None => text,
    }
}

/// Literal-mode match test on character vectors.
pub fn simple_match(text: &Vec<char>, pattern: &Vec<char>) -> (r: bool)
    ensures
        r == spec_simple_match(text@, pattern@),
{
    let stars = count_stars(pattern);
    if stars == 1 {
        let star: Vec<char> = vec!['*'];
        proof {
            assert(star@ =~= seq!['*']);
        }
        let pos = match find_sub(pattern, &star) {
            Some(p) => p,
            None => {
                proof {
                    lemma_star_count_find(pattern@);
                }
                return false;  // unreachable: a counted star is an occurrence
            },
        };
        let plen = pattern.len();
        proof {
            lemma_find_first(pattern@, seq!['*']);
            assert(occurs_at(pattern@, seq!['*'], pos as int));
            assert(pos < plen);
        }
        let pre = sub_vec(pattern, 0, pos);
        let suf = sub_vec(pattern, pos + 1, plen);
        starts_with_sub(text, &pre) && ends_with_sub(text, &suf)
    } else if stars > 1 {
        let stripped = strip_stars_exec(pattern);
        contains_sub(text, &stripped)
    } else {
        contains_sub(text, pattern)
    }
}

/// Number of `*` characters in `pattern`.
fn count_stars(pattern: &Vec<char>) -> (r: usize)
    ensures
        r == star_count(pattern@),
{
    let mut c: usize = 0;
    let mut i: usize = 0;
    while i < pattern.len()
        invariant
            i <= pattern@.len(),
            c <= i,
            c == star_count(pattern@.subrange(0, i as int)),
        decreases pattern@.len() - i,
    {
        if pattern[i] == '*' {
            c = c + 1;
        }
        i = i + 1;
        proof {
            assert(pattern@.subrange(0, i as int).drop_last() =~= pattern@.subrange(
                0,
                i as int - 1,
            ));
        }
    }
    proof {
        assert(pattern@.subrange(0, pattern@.len() as int) =~= pattern@);
    }
    c
}

/// A pattern with at least one star has a first `*` occurrence.
proof fn lemma_star_count_find(pattern: Seq<char>)
    requires
        star_count(pattern) > 0,
    ensures
        spec_find(pattern, seq!['*']) is Some,
    decreases pattern.len(),
{
    lemma_find_first(pattern, seq!['*']);
    if spec_find(pattern, seq!['*']) is None {
        lemma_star_count_no_star(pattern);
    }
}

/// Without an occurrence of `*` anywhere, the star count is zero.
proof fn lemma_star_count_no_star(pattern: Seq<char>)
    requires
        forall|j: int| !occurs_at(pattern, seq!['*'], j),
    ensures
        star_count(pattern) == 0,
    decreases pattern.len(),
{
    if pattern.len() > 0 {
        assert forall|j: int| !occurs_at(pattern.drop_last(), seq!['*'], j) by {
            if 0 <= j && j + 1 <= pattern.len() - 1 {
                assert(pattern.drop_last().subrange(j, j + 1) =~= pattern.subrange(j, j + 1));
                assert(!occurs_at(pattern, seq!['*'], j));
            }
        }
        lemma_star_count_no_star(pattern.drop_last());
        if pattern.last() == '*' {
            assert(pattern.subrange(pattern.len() - 1, pattern.len() as int) =~= seq!['*']);
            assert(occurs_at(pattern, seq!['*'], pattern.len() - 1));
        }
    }
}

/// The pattern with every `*` removed.
fn strip_stars_exec(pattern: &Vec<char>) -> (r: Vec<char>)
    ensures
        r@ == strip_stars(pattern@),
{
    let mut r: Vec<char> = Vec::new();
    let mut i: usize = 0;
    while i < pattern.len()
        invariant
            i <= pattern@.len(),
            r@ == strip_stars(pattern@.subrange(0, i as int)),
        decreases pattern@.len() - i,
    {
        if pattern[i] != '*' {
            r.push(pattern[i]);
        }
        i = i + 1;
        proof {
            assert(pattern@.subrange(0, i as int).drop_last() =~= pattern@.subrange(
                0,
                i as int - 1,
            ));
        }
    }
    proof {
        assert(pattern@.subrange(0, pattern@.len() as int) =~= pattern@);
    }
    r
}

/// Whether `pre` is a prefix of `text`.
fn starts_with_sub(text: &Vec<char>, pre: &Vec<char>) -> (r: bool)
    ensures
        r == pre@.is_prefix_of(text@),
{
    if pre.len() > text.len() {
        return false;
    }
    crate::text::matches_at(text, pre, 0)
}

/// Whether `suf` is a suffix of `text`.
fn ends_with_sub(text: &Vec<char>, suf: &Vec<char>) -> (r: bool)
    ensures
        r == suf@.is_suffix_of(text@),
{
    if suf.len() > text.len() {
        return false;
    }
    crate::text::matches_at(text, suf, text.len() - suf.len())
}

/// Literal-mode replacement on character vectors.
pub fn simple_replace(
    text: &Vec<char>,
    pattern: &Vec<char>,
    rep: &Vec<char>,
    case_sensitive: bool,
) -> (r: Vec<char>)
    ensures
        r@ == spec_simple_replace(text@, pattern@, rep@, case_sensitive),
{
    let found = if case_sensitive {
        find_sub(text, pattern)
    } else {
        let ts = string_from_chars(text);
        let ps = string_from_chars(pattern);
        let hay = lowercase_chars(ts.as_str());
        let needle = lowercase_chars(ps.as_str());
        find_sub(&hay, &needle)
    };
    let tlen = text.len();
    let plen = pattern.len();
    match found {
        Some(p) => {
            proof {
                if case_sensitive {
                    lemma_find_first(text@, pattern@);
                    assert(occurs_at(text@, pattern@, p as int));
                }
            }
            if plen <= tlen && p <= tlen - plen {
                let mut r = sub_vec(text, 0, p);
                append_range(&mut r, rep, 0, rep.len());
                append_range(&mut r, text, p + plen, tlen);
                proof {
                    assert(rep@.subrange(0, rep@.len() as int) =~= rep@);
                }
                r
            } else {
                // A position found in the lowercased text that has no room
                // in the original text (lowercasing grew the string before
                // it): leave the text unchanged.
                let r = sub_vec(text, 0, tlen);
                proof {
                    assert(r@ =~= text@);
                }
                r
            }
        },
        None => {
            let r = sub_vec(text, 0, text.len());
            proof {
                assert(r@ =~= text@);
            }
            r
        },
    }
}

/// Compiled matcher configuration: the raw pattern, the optional
/// replacement (its presence selects rename mode over search mode), the
/// compiled regex when regex mode is on, and the case-sensitivity flag.
pub struct Matcher {
    pub pattern: String,
    pub replacement: Option<String>,
    pub regex: Option<regex::Regex>,
    pub case_sensitive: bool,
}

/// Mathematical view of a matcher configuration.
pub ghost struct MatcherV {
    pub pattern: Seq<char>,
    pub replacement: Option<Seq<char>>,
    pub use_regex: bool,
    pub case_sensitive: bool,
}

impl View for Matcher {
    type V = MatcherV;

    open spec fn view(&self) -> MatcherV {
        MatcherV {
            pattern: self.pattern@,
            replacement: match self.replacement {
                Some(r) => Some(r@),
                None => None,
            },
            use_regex: self.regex is Some,
            case_sensitive: self.case_sensitive,
        }
    }
}

impl Matcher {
    /// The compiled regex, when present, was built from this matcher's
    /// pattern with the matching case-insensitivity flag.
    pub open spec fn wf(&self) -> bool {
        match self.regex {
            Some(re) => regex_pattern_of(re) == self.pattern@ && regex_ci_of(re)
                == !self.case_sensitive,
            None => true,
        }
    }
}

/// Result of testing a filename against a matcher: the computed new name
/// when the filename matches (the filename itself in search mode), or
/// nothing.
pub open spec fn spec_check_match(m: MatcherV, filename: Seq<char>) -> Option<Seq<char>> {
    if m.use_regex {
        if regex_matched(m.pattern, !m.case_sensitive, filename) {
            match m.replacement {
                Some(rep) => Some(regex_replaced(m.pattern, !m.case_sensitive, filename, rep)),
                None => Some(filename),
            }
        } else {
            None
        }
    } else {
        let matched = if m.case_sensitive {
            spec_simple_match(filename, m.pattern)
        } else {
            spec_simple_match(lower_of(filename), lower_of(m.pattern))
        };
        if matched {
            match m.replacement {
                Some(rep) => Some(spec_simple_replace(filename, m.pattern, rep, m.case_sensitive)),
                None => Some(filename),
            }
        } else {
            None
        }
    }
}

/// Compile a matcher configuration, failing fast with `InvalidPattern`
/// exactly when regex mode is requested and the pattern does not
/// compile.  This step takes no entries, and the engine examines entries
/// only through functions that take a compiled matcher, so no match is
/// ever produced from a pattern that was rejected here.
pub fn build_matcher(
    pattern: &str,
    replacement: Option<&str>,
    use_regex: bool,
    case_sensitive: bool,
) -> (r: Result<Matcher, Error>)
    ensures
        r is Ok <==> (use_regex ==> regex_compiles(pattern@, !case_sensitive)),
        r is Ok ==> r->Ok_0.wf() && r->Ok_0@ == (MatcherV {
            pattern: pattern@,
            replacement: match replacement {
                Some(s) => Some(s@),
                None => None,
            },
            use_regex: use_regex,
            case_sensitive: case_sensitive,
        }),
        r is Err ==> r->Err_0 == Error::InvalidPattern,
{
    let regex = if use_regex {
        match compile_regex(pattern, !case_sensitive) {
            Some(re) => Some(re),
            None => {
                return Err(Error::InvalidPattern);
            },
        }
    } else {
        None
    };
    let rep = match replacement {
        Some(s) => Some(s.to_owned()),
        None => None,
    };
    Ok(
        Matcher {
            pattern: pattern.to_owned(),
            replacement: rep,
            regex,
            case_sensitive,
        },
    )
}

/// Test one filename against a compiled matcher, returning the computed
/// new name when it matches.
pub fn check_match(m: &Matcher, filename: &str) -> (r: Option<String>)
    requires
        m.wf(),
    ensures
        match r {
            Some(s) => spec_check_match(m@, filename@) == Some(s@),
            None => spec_check_match(m@, filename@) is None,
        },
{
    match &m.regex {
        Some(re) => {
            if regex_is_match(re, filename) {
                match &m.replacement {
                    Some(rep) => Some(regex_replace_all(re, filename, rep.as_str())),
                    None => Some(filename.to_owned()),
                }
            } else {
                None
            }
        },
        None => {
            let fc = chars_vec(filename);
            let pc = chars_vec(m.pattern.as_str());
            let matched = if m.case_sensitive {
                simple_match(&fc, &pc)
            } else {
                let fl = lowercase_chars(filename);
                let pl = lowercase_chars(m.pattern.as_str());
                simple_match(&fl, &pl)
            };
            if matched {
                match &m.replacement {
                    Some(rep) => {
                        let rc = chars_vec(rep.as_str());
                        let out = simple_replace(&fc, &pc, &rc, m.case_sensitive);
                        Some(string_from_chars(&out))
                    },
                    None => Some(filename.to_owned()),
                }
            } else {
                None
            }
        },
    }
}

} // verus!
