//! Rename sequencing: order a batch of matches so that applying the
//! renames in order never changes the on-disk location of a match still
//! pending.
//!
//! Files come before directories (renaming a file never moves another
//! entry), and directories are ordered by descending path depth, so that
//! by the time an ancestor directory is renamed, everything beneath it
//! that needed renaming has already been renamed under its pre-rename
//! path.  Files keep their discovery order by depth, shallowest first,
//! and the sort is stable, so a batch has one determined order.
use crate::collect::{match_views, Match, MatchV};
use crate::paths::{path_depth, spec_depth};
use vstd::prelude::*;
use vstd::seq_lib::lemma_multiset_commutative;

verus! {

broadcast use vstd::seq_lib::group_to_multiset_ensures;

/// The application order: files before directories; directories by
/// descending depth; files by ascending depth.
pub open spec fn rename_le(a: MatchV, b: MatchV) -> bool {
    if !a.is_dir && b.is_dir {
        true
    } else if a.is_dir && !b.is_dir {
        false
    } else if a.is_dir {
        spec_depth(b.path) <= spec_depth(a.path)
    } else {
        spec_depth(a.path) <= spec_depth(b.path)
    }
}

/// Stable insertion of `x` into `s`: after every element that may come
/// before it.
pub open spec fn spec_insert_match(s: Seq<MatchV>, x: MatchV) -> Seq<MatchV>
    decreases s.len(),
{
    if s.len() == 0 {
        seq![x]
    } else if rename_le(s[0], x) {
        seq![s[0]] + spec_insert_match(s.drop_first(), x)
    } else {
        seq![x] + s
    }
}

/// Stable insertion sort of a batch under the application order.
pub open spec fn spec_sort_matches(s: Seq<MatchV>) -> Seq<MatchV>
    decreases s.len(),
{
    if s.len() == 0 {
        Seq::empty()
    } else {
        spec_insert_match(spec_sort_matches(s.drop_last()), s.last())
    }
}

/// The batch is in application order.
pub open spec fn sorted_for_rename(s: Seq<MatchV>) -> bool {
    forall|i: int, j: int| 0 <= i < j < s.len() ==> rename_le(s[i], s[j])
}

/// Every element of an insertion result is the inserted element or one
/// of the original elements.
proof fn lemma_insert_elems(s: Seq<MatchV>, x: MatchV)
    ensures
        spec_insert_match(s, x).len() == s.len() + 1,
        forall|k: int|
            0 <= k < spec_insert_match(s, x).len() ==> (spec_insert_match(s, x)[k] == x
                || exists|j: int| 0 <= j < s.len() && s[j] == #[trigger] spec_insert_match(s, x)[k]),
    decreases s.len(),
{
    if s.len() == 0 {
    } else if rename_le(s[0], x) {
        lemma_insert_elems(s.drop_first(), x);
        let t = spec_insert_match(s, x);
        let rest = spec_insert_match(s.drop_first(), x);
        assert forall|k: int|
            0 <= k < t.len() implies (t[k] == x || exists|j: int|
            0 <= j < s.len() && s[j] == #[trigger] t[k]) by {
            if k == 0 {
                assert(t[0] == s[0]);
                assert(s[0] == t[0]);
            } else {
                assert(t[k] == rest[k - 1]);
                if rest[k - 1] != x {
                    let j = choose|j: int| 0 <= j < s.drop_first().len() && s.drop_first()[j]
                        == rest[k - 1];
                    assert(s[j + 1] == t[k]);
                }
            }
        }
    } else {
        let t = spec_insert_match(s, x);
        assert forall|k: int|
            0 <= k < t.len() implies (t[k] == x || exists|j: int|
            0 <= j < s.len() && s[j] == #[trigger] t[k]) by {
            if k > 0 {
                assert(s[k - 1] == t[k]);
            }
        }
    }
}

/// Inserting into a sorted batch keeps it sorted.
proof fn lemma_insert_sorted(s: Seq<MatchV>, x: MatchV)
    requires
        sorted_for_rename(s),
    ensures
        sorted_for_rename(spec_insert_match(s, x)),
    decreases s.len(),
{
    let t = spec_insert_match(s, x);
    if s.len() == 0 {
    } else if rename_le(s[0], x) {
        assert(sorted_for_rename(s.drop_first()));
        lemma_insert_sorted(s.drop_first(), x);
        lemma_insert_elems(s.drop_first(), x);
        let rest = spec_insert_match(s.drop_first(), x);
        assert forall|i: int, j: int| 0 <= i < j < t.len() implies rename_le(t[i], t[j]) by {
            if i == 0 {
                assert(t[j] == rest[j - 1]);
                if rest[j - 1] == x {
                } else {
                    let w = choose|w: int| 0 <= w < s.drop_first().len() && s.drop_first()[w]
                        == rest[j - 1];
                    assert(rename_le(s[0], s[w + 1]));
                }
            } else {
                assert(t[i] == rest[i - 1] && t[j] == rest[j - 1]);
                assert(rename_le(rest[i - 1], rest[j - 1]));
            }
        }
    } else {
        assert(rename_le(x, s[0]));
        assert forall|i: int, j: int| 0 <= i < j < t.len() implies rename_le(t[i], t[j]) by {
            if i == 0 {
                assert(t[j] == s[j - 1]);
                assert(rename_le(x, s[0]));
                if j > 1 {
                    assert(rename_le(s[0], s[j - 1]));
                }
            } else {
                assert(t[i] == s[i - 1] && t[j] == s[j - 1]);
            }
        }
    }
}

/// Insertion adds exactly the inserted element to the batch's contents.
proof fn lemma_insert_multiset(s: Seq<MatchV>, x: MatchV)
    ensures
        spec_insert_match(s, x).to_multiset() =~= s.to_multiset().insert(x),
    decreases s.len(),
{
    if s.len() == 0 {
        assert(seq![x] =~= Seq::<MatchV>::empty().push(x));
    } else if rename_le(s[0], x) {
        lemma_insert_multiset(s.drop_first(), x);
        let rest = spec_insert_match(s.drop_first(), x);
        lemma_multiset_commutative(seq![s[0]], rest);
        lemma_multiset_commutative(seq![s[0]], s.drop_first());
        assert(seq![s[0]] + s.drop_first() =~= s);
        assert(seq![s[0]] =~= Seq::<MatchV>::empty().push(s[0]));
    } else {
        lemma_multiset_commutative(seq![x], s);
        assert(seq![x] =~= Seq::<MatchV>::empty().push(x));
    }
}

/// The sorted batch is in application order.
pub proof fn lemma_sort_sorted(s: Seq<MatchV>)
    ensures
        sorted_for_rename(spec_sort_matches(s)),
    decreases s.len(),
{
    if s.len() > 0 {
        lemma_sort_sorted(s.drop_last());
        lemma_insert_sorted(spec_sort_matches(s.drop_last()), s.last());
    }
}

/// Sorting a batch is a permutation: it keeps exactly the matches that
/// were collected, each exactly once.
pub proof fn lemma_sort_permutation(s: Seq<MatchV>)
    ensures
        spec_sort_matches(s).to_multiset() =~= s.to_multiset(),
        spec_sort_matches(s).len() == s.len(),
    decreases s.len(),
{
    if s.len() > 0 {
        lemma_sort_permutation(s.drop_last());
        lemma_insert_multiset(spec_sort_matches(s.drop_last()), s.last());
        lemma_insert_elems(spec_sort_matches(s.drop_last()), s.last());
        assert(s =~= s.drop_last().push(s.last()));
        assert(s.drop_last().push(s.last()).to_multiset() =~= s.drop_last().to_multiset().insert(
            s.last(),
        ));
    }
}

/// The application order, decided executably.
pub fn rename_le_exec(a: &Match, b: &Match) -> (r: bool)
    ensures
        r == rename_le(a@, b@),
{
    if !a.is_dir && b.is_dir {
        true
    } else if a.is_dir && !b.is_dir {
        false
    } else {
        let da = path_depth(a.path.as_str());
        let db = path_depth(b.path.as_str());
        if a.is_dir {
            db <= da
        } else {
            da <= db
        }
    }
}

/// `spec_insert_match` in terms of the insertion position: the first
/// index whose element may not come before `x`.
proof fn lemma_insert_at(s: Seq<MatchV>, x: MatchV, i: int)
    requires
        0 <= i <= s.len(),
        forall|k: int| 0 <= k < i ==> rename_le(s[k], x),
        i < s.len() ==> !rename_le(s[i], x),
    ensures
        spec_insert_match(s, x) =~= s.subrange(0, i) + seq![x] + s.subrange(i, s.len() as int),
    decreases s.len(),
{
    if s.len() == 0 {
    } else if i == 0 {
        if rename_le(s[0], x) {
            assert(false);
        }
        assert(s.subrange(0, s.len() as int) =~= s);
    } else {
        assert(rename_le(s[0], x));
        assert forall|k: int| 0 <= k < i - 1 implies rename_le(s.drop_first()[k], x) by {
            assert(s.drop_first()[k] == s[k + 1]);
        }
        lemma_insert_at(s.drop_first(), x, i - 1);
        assert(s.drop_first().subrange(0, i - 1) =~= s.subrange(1, i));
        assert(s.drop_first().subrange(i - 1, s.drop_first().len() as int) =~= s.subrange(
            i,
            s.len() as int,
        ));
    }
}

/// Position at which a match is stably inserted: after every element
/// that may come before it.
fn insertion_point(out: &Vec<Match>, x: &Match) -> (r: usize)
    ensures
        r <= out@.len(),
        forall|k: int| 0 <= k < r ==> rename_le(match_views(out@)[k], x@),
        r < out@.len() ==> !rename_le(match_views(out@)[r as int], x@),
{
    let mut i: usize = 0;
    while i < out.len()
        invariant
            i <= out@.len(),
            forall|k: int| 0 <= k < i ==> rename_le(match_views(out@)[k], x@),
        decreases out@.len() - i,
    {
        proof {
            assert(match_views(out@)[i as int] == out@[i as int]@);
        }
        if !rename_le_exec(&out[i], x) {
            return i;
        }
        i = i + 1;
    }
    i
}

/// Insert one match into an already-ordered batch, keeping order and
/// stability.
fn insert_sorted(out: &mut Vec<Match>, x: Match)
    ensures
        match_views(final(out)@) == spec_insert_match(match_views(old(out)@), x@),
{
    let ghost s = match_views(old(out)@);
    let i = insertion_point(out, &x);
    proof {
        lemma_insert_at(s, x@, i as int);
    }
    out.insert(i, x);
    proof {
        assert(match_views(out@) =~= s.subrange(0, i as int) + seq![x@] + s.subrange(
            i as int,
            s.len() as int,
        ));
    }
}

/// Order a collected batch for application: files first (shallowest
/// first, stably), then directories by descending depth (stably among
/// equal depths).
pub fn sort_matches(ms: Vec<Match>) -> (r: Vec<Match>)
    ensures
        match_views(r@) == spec_sort_matches(match_views(ms@)),
{
    let ghost orig = match_views(ms@);
    let mut ms = ms;
    let mut out: Vec<Match> = Vec::new();
    proof {
        assert(orig.subrange(0, 0) =~= Seq::<MatchV>::empty());
        assert(match_views(out@) =~= Seq::<MatchV>::empty());
        assert(match_views(ms@) =~= orig.subrange(0, orig.len() as int));
    }
    while ms.len() > 0
        invariant
            ms@.len() <= orig.len(),
            match_views(ms@) == orig.subrange(
                orig.len() - ms@.len(),
                orig.len() as int,
            ),
            match_views(out@) == spec_sort_matches(
                orig.subrange(0, orig.len() - ms@.len()),
            ),
        decreases ms@.len(),
    {
        let ghost k = orig.len() - ms@.len();
        let ghost prev = ms@;
        let m = ms.remove(0);
        proof {
            assert(m@ == match_views(prev)[0]);
            assert(match_views(prev)[0] == orig.subrange(k as int, orig.len() as int)[0]);
            assert(ms@ =~= prev.drop_first());
            assert forall|idx: int| 0 <= idx < ms@.len() implies match_views(ms@)[idx]
                == orig.subrange(k + 1, orig.len() as int)[idx] by {
                assert(match_views(ms@)[idx] == ms@[idx]@);
                assert(prev[idx + 1]@ == match_views(prev)[idx + 1]);
                assert(match_views(prev)[idx + 1] == orig.subrange(k as int, orig.len() as int)[idx
                    + 1]);
            }
            assert(match_views(ms@) =~= orig.subrange(k + 1, orig.len() as int));
        }
        insert_sorted(&mut out, m);
        proof {
            assert(orig.subrange(0, k + 1).drop_last() =~= orig.subrange(0, k as int));
            assert(orig.subrange(0, k + 1).last() == orig[k as int]);
            assert(orig[k as int] == orig.subrange(k as int, orig.len() as int)[0]);
        }
    }
    proof {
        assert(orig.subrange(0, orig.len() as int) =~= orig);
    }
    out
}

} // verus!
