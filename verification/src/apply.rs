//! Applying an ordered batch: dry-run rendering data, batch validation,
//! and the interactive confirmation state machine.
//!
//! The caller performs the renames and reads the keystrokes; this module
//! decides.  A batch is validated before any rename: a new name holding a
//! path separator would escape its directory, and two renames aimed at
//! one destination would collide, so both reject the whole batch.
use crate::collect::{match_views, Match, MatchV};
use crate::paths::{destination_path, spec_destination};
use crate::text::{
    chars_vec, find_sub, lower_of, lowercase_chars, spec_find, string_from_chars, sub_vec,
};
use crate::Error;
use vstd::prelude::*;

verus! {

/// One before/after pair of a dry run: the original path and the
/// computed new base name.
pub struct RenamePlan {
    pub from: String,
    pub to: String,
}

/// Mathematical view of a dry-run pair.
pub ghost struct RenamePlanV {
    pub from: Seq<char>,
    pub to: Seq<char>,
}

impl View for RenamePlan {
    type V = RenamePlanV;

    open spec fn view(&self) -> RenamePlanV {
        RenamePlanV { from: self.from@, to: self.to@ }
    }
}

/// The dry-run pair of one match.
pub open spec fn spec_plan_of(m: MatchV) -> RenamePlanV {
    RenamePlanV { from: m.path, to: m.new_name }
}

/// Views of a sequence of dry-run pairs.
pub open spec fn plan_views(s: Seq<RenamePlan>) -> Seq<RenamePlanV> {
    s.map_values(|p: RenamePlan| p@)
}

/// Dry-run output for a batch, in the batch's order.
pub open spec fn spec_dry_run(s: Seq<MatchV>) -> Seq<RenamePlanV> {
    s.map_values(|m: MatchV| spec_plan_of(m))
}

/// Render the before/after pair of every match, in order, without
/// touching anything.
pub fn dry_run_pairs(ms: &Vec<Match>) -> (r: Vec<RenamePlan>)
    ensures
        plan_views(r@) == spec_dry_run(match_views(ms@)),
{
    let mut out: Vec<RenamePlan> = Vec::new();
    let mut i: usize = 0;
    while i < ms.len()
        invariant
            i <= ms@.len(),
            out@.len() == i,
            forall|k: int| 0 <= k < i ==> out@[k]@ == spec_plan_of(ms@[k]@),
        decreases ms@.len() - i,
    {
        out.push(RenamePlan { from: ms[i].path.clone(), to: ms[i].new_name.clone() });
        i = i + 1;
    }
    proof {
        assert(plan_views(out@) =~= spec_dry_run(match_views(ms@)));
    }
    out
}

/// The name contains a path separator.
pub open spec fn name_has_separator(s: Seq<char>) -> bool {
    exists|i: int| 0 <= i < s.len() && s[i] == '/'
}

/// No computed new name in the batch contains a path separator.
pub open spec fn spec_all_names_valid(s: Seq<MatchV>) -> bool {
    forall|i: int| 0 <= i < s.len() ==> !name_has_separator(s[i].new_name)
}

/// No two matches in the batch share a rename destination.
pub open spec fn spec_destinations_distinct(s: Seq<MatchV>) -> bool {
    forall|i: int, j: int|
        0 <= i < j < s.len() ==> spec_destination(s[i].path, s[i].new_name) != spec_destination(
            s[j].path,
            s[j].new_name,
        )
}

/// Whether the string contains a path separator.
fn has_separator(s: &str) -> (r: bool)
    ensures
        r == name_has_separator(s@),
{
    let c = chars_vec(s);
    let mut i: usize = 0;
    while i < c.len()
        invariant
            i <= c@.len(),
            c@ == s@,
            forall|k: int| 0 <= k < i ==> c@[k] != '/',
        decreases c@.len() - i,
    {
        if c[i] == '/' {
            return true;
        }
        i = i + 1;
    }
    false
}

/// Validate a batch before any rename is attempted: reject it with
/// `InvalidNewName` when a computed name contains a path separator, and
/// otherwise with `DestinationCollision` when two renames aim at the
/// same destination; accept it exactly when neither holds.
pub fn validate_batch(ms: &Vec<Match>) -> (r: Result<(), Error>)
    ensures
        r is Ok <==> spec_all_names_valid(match_views(ms@)) && spec_destinations_distinct(
            match_views(ms@),
        ),
        !spec_all_names_valid(match_views(ms@)) ==> r == Err::<(), Error>(Error::InvalidNewName),
        spec_all_names_valid(match_views(ms@)) && !spec_destinations_distinct(match_views(ms@))
            ==> r == Err::<(), Error>(Error::DestinationCollision),
{
    let ghost vs = match_views(ms@);
    let mut i: usize = 0;
    while i < ms.len()
        invariant
            i <= ms@.len(),
            vs == match_views(ms@),
            forall|k: int| 0 <= k < i ==> !name_has_separator(vs[k].new_name),
        decreases ms@.len() - i,
    {
        if has_separator(ms[i].new_name.as_str()) {
            proof {
                assert(vs[i as int] == ms@[i as int]@);
                assert(name_has_separator(vs[i as int].new_name));
            }
            return Err(Error::InvalidNewName);
        }
        proof {
            assert(vs[i as int] == ms@[i as int]@);
        }
        i = i + 1;
    }
    let mut dests: Vec<String> = Vec::new();
    let mut k: usize = 0;
    while k < ms.len()
        invariant
            k <= ms@.len(),
            vs == match_views(ms@),
            spec_all_names_valid(vs),
            dests@.len() == k,
            forall|w: int|
                0 <= w < k ==> dests@[w]@ == spec_destination(vs[w].path, vs[w].new_name),
        decreases ms@.len() - k,
    {
        proof {
            assert(vs[k as int] == ms@[k as int]@);
        }
        dests.push(destination_path(ms[k].path.as_str(), ms[k].new_name.as_str()));
        k = k + 1;
    }
    let n = dests.len();
    let mut a: usize = 0;
    while a < n
        invariant
            a <= n,
            n == dests@.len() == vs.len(),
            vs == match_views(ms@),
            spec_all_names_valid(vs),
            forall|w: int|
                0 <= w < n ==> dests@[w]@ == spec_destination(vs[w].path, vs[w].new_name),
            forall|w: int, l: int|
                0 <= w < l < n && w < a ==> spec_destination(vs[w].path, vs[w].new_name)
                    != spec_destination(vs[l].path, vs[l].new_name),
        decreases n - a,
    {
        let mut b: usize = a + 1;
        while b < n
            invariant
                a < b <= n,
                n == dests@.len() == vs.len(),
                vs == match_views(ms@),
                spec_all_names_valid(vs),
                forall|w: int|
                    0 <= w < n ==> dests@[w]@ == spec_destination(vs[w].path, vs[w].new_name),
                forall|l: int|
                    a < l < b ==> spec_destination(vs[a as int].path, vs[a as int].new_name)
                        != spec_destination(vs[l].path, vs[l].new_name),
            decreases n - b,
        {
            if dests[a].eq(&dests[b]) {
                proof {
                    assert(spec_destination(vs[a as int].path, vs[a as int].new_name)
                        == spec_destination(vs[b as int].path, vs[b as int].new_name));
                    assert(!spec_destinations_distinct(vs));
                }
                return Err(Error::DestinationCollision);
            }
            b = b + 1;
        }
        a = a + 1;
    }
    Ok(())
}

/// Split `text` at the first occurrence of `pattern` — located on the
/// lowercased text, as the matcher locates it — into the parts before,
/// at, and after the occurrence.  `None` when the pattern does not occur,
/// or when the position found in the lowercased text has no room in the
/// original text (lowercasing can change a string's length).  Rendering
/// and coloring of the parts is the caller's business.
pub fn highlight_parts(text: &str, pattern: &str) -> (r: Option<(String, String, String)>)
    ensures
        match r {
            Some(parts) => {
                let f = spec_find(lower_of(text@), lower_of(pattern@));
                &&& f is Some
                &&& f->Some_0 + pattern@.len() <= text@.len()
                &&& parts.0@ == text@.subrange(0, f->Some_0)
                &&& parts.1@ == text@.subrange(f->Some_0, f->Some_0 + pattern@.len())
                &&& parts.2@ == text@.subrange(f->Some_0 + pattern@.len(), text@.len() as int)
            },
            None => {
                let f = spec_find(lower_of(text@), lower_of(pattern@));
                f is None || f->Some_0 + pattern@.len() > text@.len()
            },
        },
{
    let tc = chars_vec(text);
    let pc = chars_vec(pattern);
    let tl = lowercase_chars(text);
    let pl = lowercase_chars(pattern);
    match find_sub(&tl, &pl) {
        Some(p) => {
            let tlen = tc.len();
            let plen = pc.len();
            if plen <= tlen && p <= tlen - plen {
                let before = sub_vec(&tc, 0, p);
                let at = sub_vec(&tc, p, p + plen);
                let after = sub_vec(&tc, p + plen, tlen);
                Some(
                    (string_from_chars(&before), string_from_chars(&at), string_from_chars(
                        &after,
                    )),
                )
            } else {
                None
            }
        },
        None => None,
    }
}

/// Decision returned by the interactive confirmation source for one
/// prompted match.
#[derive(Debug, Clone, Copy, PartialEq, Eq, Structural)]
pub enum ConfirmResult {
    Yes,
    No,
    All,
    Quit,
}

/// One keystroke, as the decision source reports it.
#[derive(Debug, Clone, Copy, PartialEq, Eq, Structural)]
pub enum Key {
    Char(char),
    Enter,
    Esc,
    CtrlC,
    Other,
}

/// Decision bound to a keystroke: `y`/`Y`/Enter is yes, `n`/`N` no,
/// `a`/`A` all, `q`/`Q`/Esc/Ctrl-C quit; any other key keeps waiting.
pub open spec fn spec_decision_for_key(k: Key) -> Option<ConfirmResult> {
    match k {
        Key::Char(c) => {
            if c == 'y' || c == 'Y' {
                Some(ConfirmResult::Yes)
            } else if c == 'n' || c == 'N' {
                Some(ConfirmResult::No)
            } else if c == 'a' || c == 'A' {
                Some(ConfirmResult::All)
            } else if c == 'q' || c == 'Q' {
                Some(ConfirmResult::Quit)
            } else {
                None
            }
        },
        Key::Enter => Some(ConfirmResult::Yes),
        Key::Esc => Some(ConfirmResult::Quit),
        Key::CtrlC => Some(ConfirmResult::Quit),
        Key::Other => None,
    }
}

/// Decision for one keystroke.
pub fn decision_for_key(k: Key) -> (r: Option<ConfirmResult>)
    ensures
        r == spec_decision_for_key(k),
{
    match k {
        Key::Char(c) => {
            if c == 'y' || c == 'Y' {
                Some(ConfirmResult::Yes)
            } else if c == 'n' || c == 'N' {
                Some(ConfirmResult::No)
            } else if c == 'a' || c == 'A' {
                Some(ConfirmResult::All)
            } else if c == 'q' || c == 'Q' {
                Some(ConfirmResult::Quit)
            } else {
                None
            }
        },
        Key::Enter => Some(ConfirmResult::Yes),
        Key::Esc => Some(ConfirmResult::Quit),
        Key::CtrlC => Some(ConfirmResult::Quit),
        Key::Other => None,
    }
}

/// Confirmation state threaded between successive matches of an
/// interactive run.
#[derive(Debug, Clone, Copy, PartialEq, Eq, Structural)]
pub enum PromptState {
    /// Each remaining match is prompted for.
    Prompting,
    /// An `All` decision was taken: apply every remaining match without
    /// prompting.
    ApplyRemaining,
}

/// What the caller does with the current match.
#[derive(Debug, Clone, Copy, PartialEq, Eq, Structural)]
pub enum BatchAction {
    /// Rename this match.
    Apply,
    /// Skip this match and continue with the next.
    Skip,
    /// Abort, leaving this and all remaining matches untouched.
    Stop,
}

/// Next confirmation state and action for one match: once applying to
/// the remainder, every match is applied unprompted; while prompting,
/// yes applies this one, no skips it, all applies this one and the
/// remainder, quit aborts before this one.
pub open spec fn spec_confirm_step(state: PromptState, decision: ConfirmResult) -> (
    PromptState,
    BatchAction,
) {
    match state {
        PromptState::ApplyRemaining => (PromptState::ApplyRemaining, BatchAction::Apply),
        PromptState::Prompting => match decision {
            ConfirmResult::Yes => (PromptState::Prompting, BatchAction::Apply),
            ConfirmResult::No => (PromptState::Prompting, BatchAction::Skip),
            ConfirmResult::All => (PromptState::ApplyRemaining, BatchAction::Apply),
            ConfirmResult::Quit => (PromptState::Prompting, BatchAction::Stop),
        },
    }
}

/// Next confirmation state and action for one match.
pub fn confirm_step(state: PromptState, decision: ConfirmResult) -> (r: (PromptState, BatchAction))
    ensures
        r == spec_confirm_step(state, decision),
{
    match state {
        PromptState::ApplyRemaining => (PromptState::ApplyRemaining, BatchAction::Apply),
        PromptState::Prompting => match decision {
            ConfirmResult::Yes => (PromptState::Prompting, BatchAction::Apply),
            ConfirmResult::No => (PromptState::Prompting, BatchAction::Skip),
            ConfirmResult::All => (PromptState::ApplyRemaining, BatchAction::Apply),
            ConfirmResult::Quit => (PromptState::Prompting, BatchAction::Stop),
        },
    }
}

} // verus!
