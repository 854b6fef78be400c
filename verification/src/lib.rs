//! Batch file and directory rename engine.
//!
//! Given a base directory, a match pattern (literal or regex) and optional
//! glob filters, the engine selects matching filesystem entries, computes
//! their renamed forms, and orders the resulting batch of renames so that
//! renaming a directory never invalidates the path of an entry still
//! pending rename beneath it.
//!
//! The crate holds the pure engine: pattern matching, glob filtering,
//! match collection, and rename sequencing.  Walking the tree, printing,
//! prompting, and performing the renames are left to the caller, which
//! hands the engine plain values and applies its decisions.
use vstd::prelude::*;

pub mod apply;
pub mod collect;
pub mod globs;
pub mod laws;
pub mod matcher;
pub mod paths;
pub mod rx;
pub mod sequence;
pub mod text;

use crate::collect::{collect_matches, entry_views, match_views, spec_collect, Entry, Match};
use crate::globs::globset_globs;
use crate::matcher::Matcher;
use crate::sequence::{sort_matches, spec_sort_matches};

verus! {

/// Errors reported by the engine.
///
/// Configuration errors (`InvalidPattern`) abort a run before any match is
/// produced; batch validation errors (`InvalidNewName`,
/// `DestinationCollision`) reject a batch before any rename is attempted.
#[derive(Debug, Clone, Copy, PartialEq, Eq, Structural)]
pub enum Error {
    /// A regex or glob pattern does not compile.
    InvalidPattern,
    /// A computed replacement name contains a path separator.
    InvalidNewName,
    /// Two matches in one batch would be renamed to the same destination.
    DestinationCollision,
}

/// Restricts matching to files only, directories only, or both.
#[derive(Debug, Clone, Copy, PartialEq, Eq, Structural)]
pub enum FileType {
    File,
    Dir,
    Both,
}

/// Whether an entry of the given kind passes the type filter.
pub open spec fn type_allows(ft: FileType, is_dir: bool) -> bool {
    match ft {
        FileType::File => !is_dir,
        FileType::Dir => is_dir,
        FileType::Both => true,
    }
}

/// Executable form of the type filter test.
pub fn type_filter_allows(ft: FileType, is_dir: bool) -> (r: bool)
    ensures
        r == type_allows(ft, is_dir),
{
    match ft {
        FileType::File => !is_dir,
        FileType::Dir => is_dir,
        FileType::Both => true,
    }
}

/// Collect and order the matches for a snapshot of walked entries: keep
/// exactly the entries that pass the glob set, the type filter and the
/// pattern test, then order the batch so that applying the renames in
/// order never moves a still-pending match (files first, shallowest
/// first; then directories, deepest first; stably).
pub fn find_matches(
    matcher: &Matcher,
    globs: &globset::GlobSet,
    ft: FileType,
    entries: &Vec<Entry>,
) -> (r: Vec<Match>)
    requires
        matcher.wf(),
    ensures
        match_views(r@) == spec_sort_matches(
            spec_collect(matcher@, globset_globs(*globs), ft, entry_views(entries@)),
        ),
{
    let collected = collect_matches(matcher, globs, ft, entries);
    sort_matches(collected)
}

} // verus!
