//! Glob filtering through the `globset` crate.
//!
//! Compiling a glob, building a set of globs and testing a path against
//! the set are performed by the outside crate, behind trusted wrappers;
//! the loop that assembles the set, and the default pattern used when the
//! caller supplies none, are verified here.
use crate::Error;
use vstd::prelude::*;

verus! {

#[verifier::external_type_specification]
#[verifier::external_body]
pub struct ExGlob(globset::Glob);

#[verifier::external_type_specification]
#[verifier::external_body]
pub struct ExGlobSetBuilder(globset::GlobSetBuilder);

#[verifier::external_type_specification]
#[verifier::external_body]
pub struct ExGlobSet(globset::GlobSet);

/// The pattern a compiled glob was built from.
pub uninterp spec fn glob_pattern_of(g: globset::Glob) -> Seq<char>;

/// Whether a single glob pattern compiles.
pub uninterp spec fn glob_compiles(pattern: Seq<char>) -> bool;

/// The patterns of the globs added to a builder so far, in order.
pub uninterp spec fn builder_globs(b: globset::GlobSetBuilder) -> Seq<Seq<char>>;

/// The patterns a built glob set holds, in order.
pub uninterp spec fn globset_globs(s: globset::GlobSet) -> Seq<Seq<char>>;

/// Whether building a set from globs with these patterns succeeds.
pub uninterp spec fn globset_build_ok(patterns: Seq<Seq<char>>) -> bool;

/// Whether any glob among `patterns` matches `path`.
pub uninterp spec fn globset_matched(patterns: Seq<Seq<char>>, path: Seq<char>) -> bool;

/// Relies on `globset::Glob::new`: whether one glob pattern compiles, and
/// the glob it compiles to, are functions of the pattern text alone.
#[verifier::external_body]
pub fn glob_new(pattern: &str) -> (r: Option<globset::Glob>)
    ensures
        r is Some <==> glob_compiles(pattern@),
        r is Some ==> glob_pattern_of(r->Some_0) == pattern@,
{
    globset::Glob::new(pattern).ok()
}

/// Relies on `globset::GlobSetBuilder::new`: a fresh builder holds no
/// globs.
#[verifier::external_body]
pub fn glob_set_builder_new() -> (r: globset::GlobSetBuilder)
    ensures
        builder_globs(r) == Seq::<Seq<char>>::empty(),
{
    globset::GlobSetBuilder::new()
}

/// Relies on `globset::GlobSetBuilder::add`: appends one glob to the set
/// being built.
#[verifier::external_body]
pub fn glob_set_builder_add(b: &mut globset::GlobSetBuilder, g: globset::Glob)
    ensures
        builder_globs(*final(b)) == builder_globs(*old(b)).push(glob_pattern_of(g)),
{
    b.add(g);
}

/// Relies on `globset::GlobSetBuilder::build`: building is a function of
/// the added globs alone, and a built set holds exactly their patterns.
#[verifier::external_body]
pub fn glob_set_build(b: &globset::GlobSetBuilder) -> (r: Option<globset::GlobSet>)
    ensures
        r is Some <==> globset_build_ok(builder_globs(*b)),
        r is Some ==> globset_globs(r->Some_0) == builder_globs(*b),
{
    b.build().ok()
}

/// Relies on `globset::GlobSet::is_match`: whether any glob in the set
/// matches the path, a function of the set's patterns and the path alone.
#[verifier::external_body]
pub fn glob_set_is_match(s: &globset::GlobSet, path: &str) -> (r: bool)
    ensures
        r == globset_matched(globset_globs(*s), path@),
{
    s.is_match(path)
}

/// Every pattern in the list compiles as a glob.
pub open spec fn all_globs_compile(patterns: Seq<Seq<char>>) -> bool {
    forall|i: int| 0 <= i < patterns.len() ==> glob_compiles(patterns[i])
}

/// The glob patterns actually used: the caller's list, or the match-all
/// pattern when the list is empty.
pub open spec fn effective_globs(patterns: Seq<Seq<char>>) -> Seq<Seq<char>> {
    if patterns.len() == 0 {
        seq!["**/*"@]
    } else {
        patterns
    }
}

/// Compile the caller's glob patterns (or the match-all default) into a
/// glob set, failing fast with `InvalidPattern` when a pattern does not
/// compile.
pub fn build_glob_set(patterns: &Vec<String>) -> (r: Result<globset::GlobSet, Error>)
    ensures
        ({
            let eff = effective_globs(patterns@.map_values(|s: String| s@));
            &&& (r is Ok <==> all_globs_compile(eff) && globset_build_ok(eff))
            &&& (r is Ok ==> globset_globs(r->Ok_0) == eff)
            &&& (r is Err ==> r->Err_0 == Error::InvalidPattern)
        }),
{
    let ghost eff = effective_globs(patterns@.map_values(|s: String| s@));
    let mut b = glob_set_builder_new();
    if patterns.len() == 0 {
        let dflt = "**/*".to_owned();
        match glob_new(dflt.as_str()) {
            Some(g) => {
                glob_set_builder_add(&mut b, g);
                proof {
                    assert(builder_globs(b) =~= eff);
                }
            },
            None => {
                proof {
                    assert(eff[0] == "**/*"@);
                    assert(!glob_compiles(eff[0]));
                }
                return Err(Error::InvalidPattern);
            },
        }
    } else {
        let mut i: usize = 0;
        while i < patterns.len()
            invariant
                i <= patterns@.len(),
                patterns@.len() > 0,
                eff == effective_globs(patterns@.map_values(|s: String| s@)),
                builder_globs(b) == eff.subrange(0, i as int),
                forall|k: int| 0 <= k < i ==> glob_compiles(eff[k]),
            decreases patterns@.len() - i,
        {
            match glob_new(patterns[i].as_str()) {
                Some(g) => {
                    glob_set_builder_add(&mut b, g);
                    proof {
                        assert(builder_globs(b) =~= eff.subrange(0, i as int + 1));
                    }
                },
                None => {
                    proof {
                        assert(eff[i as int] == patterns@.map_values(|s: String| s@)[i as int]);
                        assert(!glob_compiles(eff[i as int]));
                    }
                    return Err(Error::InvalidPattern);
                },
            }
            i = i + 1;
        }
        proof {
            assert(builder_globs(b) =~= eff);
        }
    }
    match glob_set_build(&b) {
        Some(s) => Ok(s),
        None => Err(Error::InvalidPattern),
    }
}

} // verus!
