//! Match collection: compose the glob filter, the type filter and the
//! pattern matcher over a snapshot of walked entries.
//!
//! The caller walks the tree (honoring its depth, symlink, hidden-entry
//! and ignore-file policies) and hands the entries over as plain values;
//! collection keeps every entry whose path passes the glob set, whose
//! kind passes the type filter, and whose base filename matches the
//! pattern, in the order the entries were handed in.
use crate::globs::{glob_set_is_match, globset_globs, globset_matched};
use crate::matcher::{check_match, spec_check_match, Matcher, MatcherV};
use crate::paths::{file_name_of, spec_file_name};
use crate::text::{chars_vec, string_from_chars};
use crate::{type_allows, type_filter_allows, FileType};
use vstd::prelude::*;

verus! {

/// One filesystem entry handed in by the tree walker.
pub struct Entry {
    pub path: String,
    pub is_dir: bool,
}

/// Mathematical view of an entry.
pub ghost struct EntryV {
    pub path: Seq<char>,
    pub is_dir: bool,
}

impl View for Entry {
    type V = EntryV;

    open spec fn view(&self) -> EntryV {
        EntryV { path: self.path@, is_dir: self.is_dir }
    }
}

/// One entry selected for reporting or renaming, with its computed new
/// base name and copies of the active pattern and replacement (kept for
/// re-deriving display text without re-matching).
pub struct Match {
    pub path: String,
    pub new_name: String,
    pub is_dir: bool,
    pub pattern: String,
    pub replacement: String,
}

/// Mathematical view of a match record.
pub ghost struct MatchV {
    pub path: Seq<char>,
    pub new_name: Seq<char>,
    pub is_dir: bool,
    pub pattern: Seq<char>,
    pub replacement: Seq<char>,
}

impl View for Match {
    type V = MatchV;

    open spec fn view(&self) -> MatchV {
        MatchV {
            path: self.path@,
            new_name: self.new_name@,
            is_dir: self.is_dir,
            pattern: self.pattern@,
            replacement: self.replacement@,
        }
    }
}

/// Views of a sequence of entries.
pub open spec fn entry_views(s: Seq<Entry>) -> Seq<EntryV> {
    s.map_values(|e: Entry| e@)
}

/// Views of a sequence of match records.
pub open spec fn match_views(s: Seq<Match>) -> Seq<MatchV> {
    s.map_values(|m: Match| m@)
}

/// The filename an entry is matched on: the name its path refers to,
/// or the empty string for a path that names no entry.
pub open spec fn spec_match_name(path: Seq<char>) -> Seq<char> {
    match spec_file_name(path) {
        Some(name) => name,
        None => Seq::empty(),
    }
}

/// The match record produced for one entry, when the entry passes the
/// glob set, the type filter and the pattern test.
pub open spec fn spec_entry_match(
    m: MatcherV,
    globs: Seq<Seq<char>>,
    ft: FileType,
    e: EntryV,
) -> Option<MatchV> {
    if globset_matched(globs, e.path) && type_allows(ft, e.is_dir) {
        match spec_check_match(m, spec_match_name(e.path)) {
            Some(new_name) => Some(
                MatchV {
                    path: e.path,
                    new_name: new_name,
                    is_dir: e.is_dir,
                    pattern: m.pattern,
                    replacement: match m.replacement {
                        Some(r) => r,
                        None => Seq::empty(),
                    },
                },
            ),
            None => None,
        }
    } else {
        None
    }
}

/// The collected matches for a snapshot of entries, in discovery order.
pub open spec fn spec_collect(
    m: MatcherV,
    globs: Seq<Seq<char>>,
    ft: FileType,
    entries: Seq<EntryV>,
) -> Seq<MatchV>
    decreases entries.len(),
{
    if entries.len() == 0 {
        Seq::empty()
    } else {
        let rest = spec_collect(m, globs, ft, entries.drop_last());
        match spec_entry_match(m, globs, ft, entries.last()) {
            Some(mv) => rest.push(mv),
            None => rest,
        }
    }
}

/// Collect the matches among `entries`, in discovery order: exactly the
/// entries that pass the glob set and the type filter and whose base
/// filename matches the pattern, each with its computed new name.
pub fn collect_matches(
    matcher: &Matcher,
    globs: &globset::GlobSet,
    ft: FileType,
    entries: &Vec<Entry>,
) -> (r: Vec<Match>)
    requires
        matcher.wf(),
    ensures
        match_views(r@) == spec_collect(matcher@, globset_globs(*globs), ft, entry_views(entries@)),
{
    let mut out: Vec<Match> = Vec::new();
    let mut i: usize = 0;
    proof {
        assert(entry_views(entries@).subrange(0, 0) =~= Seq::<EntryV>::empty());
        assert(match_views(out@) =~= Seq::<MatchV>::empty());
    }
    while i < entries.len()
        invariant
            i <= entries@.len(),
            matcher.wf(),
            match_views(out@) == spec_collect(
                matcher@,
                globset_globs(*globs),
                ft,
                entry_views(entries@).subrange(0, i as int),
            ),
        decreases entries@.len() - i,
    {
        let e = &entries[i];
        let ghost evs = entry_views(entries@);
        if glob_set_is_match(globs, e.path.as_str()) && type_filter_allows(ft, e.is_dir) {
            let pc = chars_vec(e.path.as_str());
            let base = match file_name_of(&pc) {
                Some(name) => name,
                None => Vec::new(),
            };
            let base_str = string_from_chars(&base);
            match check_match(matcher, base_str.as_str()) {
                Some(new_name) => {
                    let m = Match {
                        path: e.path.clone(),
                        new_name: new_name,
                        is_dir: e.is_dir,
                        pattern: matcher.pattern.clone(),
                        replacement: match &matcher.replacement {
                            Some(r) => r.clone(),
                            None => String::new(),
                        },
                    };
                    proof {
                        assert(m@ == spec_entry_match(
                            matcher@,
                            globset_globs(*globs),
                            ft,
                            evs[i as int],
                        )->Some_0);
                    }
                    out.push(m);
                },
                None => {
                },
            }
        }
        i = i + 1;
        proof {
            assert(evs.subrange(0, i as int).drop_last() =~= evs.subrange(0, i as int - 1));
            assert(evs.subrange(0, i as int).last() == evs[i as int - 1]);
            assert(match_views(out@) =~= spec_collect(
                matcher@,
                globset_globs(*globs),
                ft,
                evs.subrange(0, i as int),
            ));
        }
    }
    proof {
        assert(entry_views(entries@).subrange(0, entries@.len() as int) =~= entry_views(entries@));
    }
    out
}

} // verus!
