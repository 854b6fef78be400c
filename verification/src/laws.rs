//! Engine-wide laws, stated and proved over the specifications that the
//! executable functions' contracts use.
use crate::apply::{spec_dry_run, spec_plan_of};
use crate::collect::{spec_collect, EntryV, MatchV};
use crate::matcher::{spec_simple_replace, splice};
use crate::paths::{is_strict_ancestor, lemma_ancestor_depth};
use crate::sequence::{
    lemma_sort_permutation, lemma_sort_sorted, rename_le, sorted_for_rename, spec_sort_matches,
};
use crate::text::{lemma_find_first, lower_of, occurs_at, spec_find};
use crate::FileType;
use vstd::prelude::*;

verus! {

broadcast use vstd::multiset::group_multiset_axioms;

/// Rendering is order-independent: two batches with the same contents
/// render to the same multiset of before/after pairs, so what the
/// sequencer reorders, a dry run still lists exactly once per match.
pub proof fn lemma_dry_run_permutation(s: Seq<MatchV>, t: Seq<MatchV>)
    requires
        s.to_multiset() == t.to_multiset(),
    ensures
        spec_dry_run(s).to_multiset() == spec_dry_run(t).to_multiset(),
    decreases s.len(),
{
    s.to_multiset_ensures();
    t.to_multiset_ensures();
    if s.len() == 0 {
        assert(t.len() == 0);
        assert(spec_dry_run(s) =~= spec_dry_run(t));
    } else {
        let x = s.last();
        let s0 = s.drop_last();
        s0.to_multiset_ensures();
        assert(s =~= s0.push(x));
        assert(s.to_multiset() =~= s0.to_multiset().insert(x));
        assert(s.contains(x));
        assert(t.to_multiset().count(x) > 0);
        assert(t.contains(x));
        let j = choose|j: int| 0 <= j < t.len() && t[j] == x;
        let t0 = t.remove(j);
        assert(t0.to_multiset() =~= t.to_multiset().remove(x));
        assert(s0.to_multiset() =~= t0.to_multiset());
        lemma_dry_run_permutation(s0, t0);
        assert(spec_dry_run(s) =~= spec_dry_run(s0).push(spec_plan_of(x)));
        assert(spec_dry_run(t0) =~= spec_dry_run(t).remove(j));
        spec_dry_run(s0).to_multiset_ensures();
        spec_dry_run(t).to_multiset_ensures();
        assert(spec_dry_run(t)[j] == spec_plan_of(x));
        assert(spec_dry_run(t).contains(spec_plan_of(x)));
        assert(spec_dry_run(t0).to_multiset() =~= spec_dry_run(t).to_multiset().remove(
            spec_plan_of(x),
        ));
        assert(spec_dry_run(s).to_multiset() =~= spec_dry_run(t).to_multiset());
    }
}

/// Safe-ordering law: in a batch in application order, a match lying
/// strictly beneath a directory match comes strictly before that
/// directory, so renaming the directory can never move a still-pending
/// entry.
pub proof fn lemma_descendant_before_ancestor(s: Seq<MatchV>, anc_i: int, desc_i: int)
    requires
        sorted_for_rename(s),
        0 <= anc_i < s.len(),
        0 <= desc_i < s.len(),
        s[anc_i].is_dir,
        is_strict_ancestor(s[anc_i].path, s[desc_i].path),
    ensures
        desc_i < anc_i,
{
    lemma_ancestor_depth(s[anc_i].path, s[desc_i].path);
    if desc_i >= anc_i {
        if desc_i == anc_i {
            assert(false);
        } else {
            assert(rename_le(s[anc_i], s[desc_i]));
            assert(false);
        }
    }
}

/// Safe-ordering law for the sequencer's own output: the sorted batch
/// places every match lying beneath a directory match strictly before
/// that directory.
pub proof fn lemma_sorted_batch_is_safe(s: Seq<MatchV>, anc_i: int, desc_i: int)
    requires
        0 <= anc_i < spec_sort_matches(s).len(),
        0 <= desc_i < spec_sort_matches(s).len(),
        spec_sort_matches(s)[anc_i].is_dir,
        is_strict_ancestor(spec_sort_matches(s)[anc_i].path, spec_sort_matches(s)[desc_i].path),
    ensures
        desc_i < anc_i,
{
    lemma_sort_sorted(s);
    lemma_descendant_before_ancestor(spec_sort_matches(s), anc_i, desc_i);
}

/// Dry-run completeness law: the dry-run output of a sorted batch lists
/// one before/after pair per collected match — pair `i` holds exactly
/// the `i`-th ordered match's path and new name — and the sorted batch
/// holds exactly the collected matches, each exactly once, whatever
/// order they were collected in.
pub proof fn lemma_dry_run_complete(s: Seq<MatchV>)
    ensures
        spec_dry_run(spec_sort_matches(s)).len() == s.len(),
        forall|i: int|
            0 <= i < s.len() ==> #[trigger] spec_dry_run(spec_sort_matches(s))[i] == spec_plan_of(
                spec_sort_matches(s)[i],
            ),
        spec_sort_matches(s).to_multiset() =~= s.to_multiset(),
        spec_dry_run(spec_sort_matches(s)).to_multiset() =~= spec_dry_run(s).to_multiset(),
{
    lemma_sort_permutation(s);
    lemma_dry_run_permutation(spec_sort_matches(s), s);
}

/// Idempotence law: a search is a function of the matcher, the glob
/// set, the type filter and the snapshot of entries alone, so running
/// it twice against an unchanged tree yields identical match lists.
pub proof fn lemma_search_idempotent(
    m: crate::matcher::MatcherV,
    globs: Seq<Seq<char>>,
    ft: FileType,
    e1: Seq<EntryV>,
    e2: Seq<EntryV>,
)
    requires
        e1 == e2,
    ensures
        spec_sort_matches(spec_collect(m, globs, ft, e1)) == spec_sort_matches(
            spec_collect(m, globs, ft, e2),
        ),
{
}

/// Casing-preservation law: a case-insensitive literal replacement
/// locates the pattern on the lowercased name but splices into the
/// original-case name, so — whenever the located span lies within the
/// name — every character around the replaced range keeps its original
/// casing and the replacement text is inserted verbatim.
pub proof fn lemma_replace_preserves_surrounding(name: Seq<char>, pattern: Seq<char>, rep: Seq<char>)
    ensures
        ({
            let f = spec_find(lower_of(name), lower_of(pattern));
            let r = spec_simple_replace(name, pattern, rep, false);
            f is Some && f->Some_0 + pattern.len() <= name.len() ==> {
                let p = f->Some_0;
                &&& r.len() == name.len() - pattern.len() + rep.len()
                &&& r.subrange(0, p) == name.subrange(0, p)
                &&& r.subrange(p, p + rep.len()) == rep
                &&& r.subrange(p + rep.len(), r.len() as int) == name.subrange(
                    p + pattern.len(),
                    name.len() as int,
                )
            }
        }),
{
    let f = spec_find(lower_of(name), lower_of(pattern));
    if f is Some && f->Some_0 + pattern.len() <= name.len() {
        let p = f->Some_0;
        lemma_find_first(lower_of(name), lower_of(pattern));
        assert(occurs_at(lower_of(name), lower_of(pattern), p));
        let r = spec_simple_replace(name, pattern, rep, false);
        assert(r == splice(name, p, pattern.len() as int, rep));
        assert(r.subrange(0, p) =~= name.subrange(0, p));
        assert(r.subrange(p, p + rep.len()) =~= rep);
        assert(r.subrange(p + rep.len(), r.len() as int) =~= name.subrange(
            p + pattern.len(),
            name.len() as int,
        ));
    }
}

/// Round-trip law for literal replacement, matched case-sensitively:
/// renaming with pattern `a` and replacement `b`, then with pattern `b`
/// and replacement `a`, restores the original name, whenever the first
/// occurrence of `b` in the renamed name is the spliced-in replacement
/// itself (without that proviso an earlier `b` already present in the
/// name would be replaced instead).  Literal replacement splices at the
/// literal pattern text whatever wildcards it holds, so this law covers
/// the single-wildcard and plain substring modes alike.
pub proof fn lemma_literal_round_trip(name: Seq<char>, a: Seq<char>, b: Seq<char>)
    requires
        spec_find(name, a) is Some,
        spec_find(spec_simple_replace(name, a, b, true), b) == Some(spec_find(name, a)->Some_0),
    ensures
        spec_simple_replace(spec_simple_replace(name, a, b, true), b, a, true) == name,
{
    let p = spec_find(name, a)->Some_0;
    lemma_find_first(name, a);
    assert(occurs_at(name, a, p));
    let mid = spec_simple_replace(name, a, b, true);
    assert(p + a.len() <= name.len());
    assert(mid == splice(name, p, a.len() as int, b));
    let back = spec_simple_replace(mid, b, a, true);
    assert(p + b.len() <= mid.len());
    assert(back == splice(mid, p, b.len() as int, a));
    assert(mid.subrange(0, p) =~= name.subrange(0, p));
    assert(mid.subrange(p + b.len(), mid.len() as int) =~= name.subrange(
        p + a.len(),
        name.len() as int,
    ));
    assert(name.subrange(p, p + a.len()) == a);
    assert(back =~= name);
}

/// Round-trip law for literal replacement matched case-insensitively:
/// under the same proviso as the case-sensitive law — the reverse find
/// must hit the spliced position — plus two that case-insensitivity
/// makes necessary: the located spans must lie within their names
/// (lowercasing can change a string's length), and the matched segment
/// of the original name must equal the pattern exactly, since a segment
/// differing only in case is replaced but its casing cannot be restored.
pub proof fn lemma_literal_round_trip_case_insensitive(name: Seq<char>, a: Seq<char>, b: Seq<char>)
    ensures
        ({
            let f = spec_find(lower_of(name), lower_of(a));
            let mid = spec_simple_replace(name, a, b, false);
            (f is Some && {
                let p = f->Some_0;
                &&& p + a.len() <= name.len()
                &&& name.subrange(p, p + a.len()) == a
                &&& spec_find(lower_of(mid), lower_of(b)) == Some(p)
                &&& p + b.len() <= mid.len()
            }) ==> spec_simple_replace(mid, b, a, false) == name
        }),
{
    let f = spec_find(lower_of(name), lower_of(a));
    let mid = spec_simple_replace(name, a, b, false);
    if f is Some {
        let p = f->Some_0;
        if p + a.len() <= name.len() && name.subrange(p, p + a.len()) == a && spec_find(
            lower_of(mid),
            lower_of(b),
        ) == Some(p) && p + b.len() <= mid.len() {
            lemma_find_first(lower_of(name), lower_of(a));
            assert(occurs_at(lower_of(name), lower_of(a), p));
            assert(mid == splice(name, p, a.len() as int, b));
            let back = spec_simple_replace(mid, b, a, false);
            assert(back == splice(mid, p, b.len() as int, a));
            assert(mid.subrange(0, p) =~= name.subrange(0, p));
            assert(mid.subrange(p + b.len(), mid.len() as int) =~= name.subrange(
                p + a.len(),
                name.len() as int,
            ));
            assert(back =~= name);
        }
    }
}

} // verus!
