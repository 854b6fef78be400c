//! Path reasoning on plain strings: base names, hidden-entry test, path
//! depth, the ancestor relation, and destination paths for renames.
//!
//! Paths are modelled as character sequences with `/` as the component
//! separator.  The depth of a path is the number of separators in it; a
//! strict ancestor of a path is a proper prefix ending right before a
//! separator, so a strict ancestor always has strictly smaller depth.
use crate::text::{chars_vec, string_from_chars, sub_vec};
use vstd::prelude::*;

verus! {

/// The final component of a path: the characters after the last `/`
/// (the whole path when it has no separator).
pub open spec fn spec_base_name(path: Seq<char>) -> Seq<char>
    decreases path.len(),
{
    if path.len() == 0 {
        Seq::empty()
    } else if path.last() == '/' {
        Seq::empty()
    } else {
        spec_base_name(path.drop_last()).push(path.last())
    }
}

/// The final component of a path, as a character vector.
pub fn base_name_chars(path: &Vec<char>) -> (r: Vec<char>)
    ensures
        r@ == spec_base_name(path@),
{
    let mut r: Vec<char> = Vec::new();
    let mut i: usize = 0;
    while i < path.len()
        invariant
            i <= path@.len(),
            r@ == spec_base_name(path@.subrange(0, i as int)),
        decreases path@.len() - i,
    {
        if path[i] == '/' {
            r = Vec::new();
        } else {
            r.push(path[i]);
        }
        i = i + 1;
        proof {
            assert(path@.subrange(0, i as int).drop_last() =~= path@.subrange(0, i as int - 1));
        }
    }
    proof {
        assert(path@.subrange(0, path@.len() as int) =~= path@);
    }
    r
}

/// The name of the entry a path refers to, with the semantics of std's
/// `Path::file_name`: trailing separators and trailing `.` components
/// (which rename nothing) are skipped, and a path whose last real
/// component is `..` — or that has no component at all — names no entry.
pub open spec fn spec_file_name(path: Seq<char>) -> Option<Seq<char>>
    decreases path.len(),
{
    if path.len() == 0 {
        None
    } else if path.last() == '/' {
        spec_file_name(path.drop_last())
    } else {
        let base = spec_base_name(path);
        if base == seq!['.'] {
            spec_file_name(path.drop_last())
        } else if base == seq!['.', '.'] {
            None
        } else {
            Some(base)
        }
    }
}

/// The name of the entry a path refers to, as a character vector.
pub fn file_name_of(path: &Vec<char>) -> (r: Option<Vec<char>>)
    ensures
        match r {
            Some(v) => spec_file_name(path@) == Some(v@),
            None => spec_file_name(path@) is None,
        },
{
    let mut end: usize = path.len();
    proof {
        assert(path@.subrange(0, path@.len() as int) =~= path@);
    }
    loop
        invariant
            end <= path@.len(),
            spec_file_name(path@) == spec_file_name(path@.subrange(0, end as int)),
        decreases end,
    {
        if end == 0 {
            proof {
                assert(path@.subrange(0, 0) =~= Seq::<char>::empty());
            }
            return None;
        }
        proof {
            assert(path@.subrange(0, end as int).drop_last() =~= path@.subrange(
                0,
                end as int - 1,
            ));
            assert(path@.subrange(0, end as int).last() == path@[end as int - 1]);
        }
        if path[end - 1] == '/' {
            end = end - 1;
            continue;
        }
        let prefix = sub_vec(path, 0, end);
        let base = base_name_chars(&prefix);
        if base.len() == 1 && base[0] == '.' {
            proof {
                assert(base@ =~= seq!['.']);
            }
            end = end - 1;
            continue;
        }
        if base.len() == 2 && base[0] == '.' && base[1] == '.' {
            proof {
                assert(base@ =~= seq!['.', '.']);
            }
            return None;
        }
        proof {
            assert(base@ != seq!['.']);
            assert(base@ != seq!['.', '.']);
        }
        return Some(base);
    }
}

/// Whether the entry named by `path` is hidden: the name it refers to
/// starts with a dot.  A path referring to no entry (it ends in `..`,
/// or has no component) is not hidden.
pub open spec fn spec_is_hidden(path: Seq<char>) -> bool {
    match spec_file_name(path) {
        Some(name) => name.len() > 0 && name[0] == '.',
        None => false,
    }
}

/// Whether the entry named by `path` is hidden.
pub fn is_hidden(path: &str) -> (r: bool)
    ensures
        r == spec_is_hidden(path@),
{
    let pc = chars_vec(path);
    match file_name_of(&pc) {
        Some(name) => {
            if name.len() == 0 {
                false
            } else {
                name[0] == '.'
            }
        },
        None => false,
    }
}

/// Depth of a path: the number of `/` separators in it.
pub open spec fn spec_depth(path: Seq<char>) -> nat
    decreases path.len(),
{
    if path.len() == 0 {
        0
    } else {
        spec_depth(path.drop_last()) + (if path.last() == '/' {
            1nat
        } else {
            0nat
        })
    }
}

/// Depth of a path, counted over its characters.
pub fn path_depth(path: &str) -> (r: usize)
    ensures
        r == spec_depth(path@),
{
    let pc = chars_vec(path);
    let mut c: usize = 0;
    let mut i: usize = 0;
    while i < pc.len()
        invariant
            i <= pc@.len(),
            c <= i,
            pc@ == path@,
            c == spec_depth(pc@.subrange(0, i as int)),
        decreases pc@.len() - i,
    {
        if pc[i] == '/' {
            c = c + 1;
        }
        i = i + 1;
        proof {
            assert(pc@.subrange(0, i as int).drop_last() =~= pc@.subrange(0, i as int - 1));
        }
    }
    proof {
        assert(pc@.subrange(0, pc@.len() as int) =~= pc@);
    }
    c
}

/// `anc` is a strict ancestor directory of `desc`: a proper prefix of it
/// that ends immediately before a separator.
pub open spec fn is_strict_ancestor(anc: Seq<char>, desc: Seq<char>) -> bool {
    &&& desc.len() > anc.len()
    &&& desc.subrange(0, anc.len() as int) == anc
    &&& desc[anc.len() as int] == '/'
}

/// Depth distributes over concatenation.
proof fn lemma_depth_concat(a: Seq<char>, b: Seq<char>)
    ensures
        spec_depth(a + b) == spec_depth(a) + spec_depth(b),
    decreases b.len(),
{
    if b.len() == 0 {
        assert(a + b =~= a);
    } else {
        assert((a + b).drop_last() =~= a + b.drop_last());
        lemma_depth_concat(a, b.drop_last());
    }
}

/// A sequence starting with a separator has positive depth.
proof fn lemma_depth_pos(s: Seq<char>)
    requires
        s.len() > 0,
        s[0] == '/',
    ensures
        spec_depth(s) >= 1,
    decreases s.len(),
{
    if s.len() > 1 {
        lemma_depth_pos(s.drop_last());
    }
}

/// A strict ancestor lies strictly closer to the root: its depth is
/// strictly smaller than the depth of any of its descendants.
pub proof fn lemma_ancestor_depth(anc: Seq<char>, desc: Seq<char>)
    requires
        is_strict_ancestor(anc, desc),
    ensures
        spec_depth(anc) < spec_depth(desc),
{
    let rest = desc.subrange(anc.len() as int, desc.len() as int);
    assert(desc =~= anc + rest);
    lemma_depth_concat(anc, rest);
    lemma_depth_pos(rest);
}

/// Destination path of a rename: the new name placed in the directory
/// part of the path (everything through the last separator; a path with
/// no separator is replaced by the new name alone).
pub open spec fn spec_destination(path: Seq<char>, new_name: Seq<char>) -> Seq<char>
    decreases path.len(),
{
    if path.len() == 0 {
        new_name
    } else if path.last() == '/' {
        path + new_name
    } else {
        spec_destination(path.drop_last(), new_name)
    }
}

/// Destination path of a rename of `path` to the base name `new_name`.
pub fn destination_path(path: &str, new_name: &str) -> (r: String)
    ensures
        r@ == spec_destination(path@, new_name@),
{
    let pc = chars_vec(path);
    let nc = chars_vec(new_name);
    let mut i: usize = pc.len();
    proof {
        assert(pc@.subrange(0, pc@.len() as int) =~= pc@);
    }
    loop
        invariant
            i <= pc@.len(),
            pc@ == path@,
            nc@ == new_name@,
            spec_destination(path@, new_name@) == spec_destination(
                pc@.subrange(0, i as int),
                nc@,
            ),
        decreases i,
    {
        if i == 0 {
            proof {
                assert(pc@.subrange(0, 0) =~= Seq::<char>::empty());
            }
            return string_from_chars(&nc);
        }
        if pc[i - 1] == '/' {
            let mut out = sub_vec(&pc, 0, i);
            crate::text::append_range(&mut out, &nc, 0, nc.len());
            proof {
                assert(nc@.subrange(0, nc@.len() as int) =~= nc@);
                assert(pc@.subrange(0, i as int).last() == '/');
            }
            return string_from_chars(&out);
        }
        i = i - 1;
        proof {
            assert(pc@.subrange(0, i as int + 1).drop_last() =~= pc@.subrange(0, i as int));
        }
    }
}

} // verus!
