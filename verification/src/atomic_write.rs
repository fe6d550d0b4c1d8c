//! Replacing a file atomically: the contents go to a temporary file beside
//! the target, which is synced and then renamed over the target.
//!
//! The decisions of the procedure live here as a state machine; the caller
//! performs each requested step on the file system and reports whether it
//! succeeded.

use vstd::prelude::*;
use crate::path::{
    file_name, file_name_of, is_component, join, join_path, last_sep, lemma_last_sep_bounds,
    lemma_parent_of_join, lemma_strip_tail_prefix, parent, parent_of, strip_tail, ends_plain,
};
use crate::text::{append_str, decimal, decimal_string, owned, push_char};

verus! {

/// The name of the temporary file for a target named `name`, written by
/// the process `pid`: `.<name>.tmp.<pid>`.
pub open spec fn temp_name(name: Seq<char>, pid: u32) -> Seq<char> {
    seq!['.'] + name + ".tmp."@ + decimal(pid as nat)
}

/// The temporary file used while replacing `path`: it stands in the
/// directory of `path` (the current directory `.` when `path` has none),
/// and its name is built from the name of `path` (`minerva` when it has
/// none).
pub open spec fn temp_path_of(path: Seq<char>, pid: u32) -> Seq<char> {
    let dir = match parent_of(path) {
        Some(p) => p,
        None => "."@,
    };
    let name = match file_name_of(path) {
        Some(n) => n,
        None => "minerva"@,
    };
    join_path(dir, temp_name(name, pid))
}

/// The temporary file used while the process `pid` replaces `path`.
pub fn temp_path(path: &str, pid: u32) -> (t: String)
    ensures
        t@ == temp_path_of(path@, pid),
{
    let dir = match parent(path) {
        Some(p) => p,
        None => owned("."),
    };
    let name = match file_name(path) {
        Some(n) => n,
        None => owned("minerva"),
    };
    let mut t = String::new();
    push_char(&mut t, '.');
    append_str(&mut t, name.as_str());
    append_str(&mut t, ".tmp.");
    let digits = decimal_string(pid as u64);
    append_str(&mut t, digits.as_str());
    assert(t@ =~= temp_name(name@, pid));
    join(dir.as_str(), t.as_str())
}

pub(crate) proof fn lemma_decimal_no_sep(n: nat)
    ensures
        decimal(n).len() > 0,
        forall|i: int| 0 <= i < decimal(n).len() ==> #[trigger] decimal(n)[i] != '/',
    decreases n,
{
    if n >= 10 {
        lemma_decimal_no_sep(n / 10);
        assert forall|i: int| 0 <= i < decimal(n).len() implies #[trigger] decimal(n)[i] != '/' by {
            if i < decimal(n / 10).len() {
                assert(decimal(n)[i] == decimal(n / 10)[i]);
            }
        }
    }
}

/// A file name taken from a path holds no separator.
pub(crate) proof fn lemma_file_name_is_component(path: Seq<char>)
    ensures
        file_name_of(path) matches Some(n) ==> is_component(n),
{
    let t = strip_tail(path);
    lemma_last_sep_bounds(t);
    let name = t.skip(last_sep(t) + 1);
    assert forall|i: int| 0 <= i < name.len() implies #[trigger] name[i] != '/' by {
        assert(name[i] == t[last_sep(t) + 1 + i]);
    }
}

/// What `parent_of` returns is the root, or ends with neither a
/// separator nor a `.` component.
proof fn lemma_parent_shape(path: Seq<char>)
    ensures
        parent_of(path) matches Some(d) ==> (d == seq!['/'] || ends_plain(d)),
{
    let t = strip_tail(path);
    if t.len() > 0 && last_sep(t) >= 0 {
        lemma_strip_tail_prefix(t.take(last_sep(t)));
    }
}

/// The name of the temporary file of `path` is one ordinary component.
proof fn lemma_temp_name_component(path: Seq<char>, pid: u32)
    ensures
        is_component(temp_name(
            match file_name_of(path) {
                Some(n) => n,
                None => "minerva"@,
            },
            pid,
        )),
{
    reveal_strlit(".tmp.");
    reveal_strlit("minerva");
    lemma_file_name_is_component(path);
    lemma_decimal_no_sep(pid as nat);
    let name = match file_name_of(path) {
        Some(n) => n,
        None => "minerva"@,
    };
    let tn = temp_name(name, pid);
    let d = decimal(pid as nat);
    assert forall|i: int| 0 <= i < tn.len() implies #[trigger] tn[i] != '/' by {
        if i == 0 {
        } else if i < 1 + name.len() {
            assert(tn[i] == name[i - 1]);
        } else if i < 1 + name.len() + 5 {
            assert(tn[i] == ".tmp."@[i - 1 - name.len()]);
        } else {
            assert(tn[i] == d[i - 6 - name.len()]);
        }
    }
}

/// The temporary file stays in the directory of the file it replaces.
pub proof fn lemma_temp_path_same_dir(path: Seq<char>, pid: u32)
    requires
        parent_of(path) is Some,
    ensures
        parent_of(temp_path_of(path, pid)) == parent_of(path),
{
    reveal_strlit(".tmp.");
    lemma_temp_name_component(path, pid);
    lemma_parent_shape(path);
    let name = match file_name_of(path) {
        Some(n) => n,
        None => "minerva"@,
    };
    assert(temp_name(name, pid).len() >= 6);
    lemma_parent_of_join(parent_of(path).unwrap(), temp_name(name, pid));
}

/// The final name of the temporary file is its temporary name: a dot,
/// the name of the target, `.tmp.` and the process number.
pub proof fn lemma_temp_path_name(path: Seq<char>, pid: u32)
    ensures
        file_name_of(temp_path_of(path, pid)) == Some(temp_name(
            match file_name_of(path) {
                Some(n) => n,
                None => "minerva"@,
            },
            pid,
        )),
{
    reveal_strlit(".tmp.");
    lemma_temp_name_component(path, pid);
    let name = match file_name_of(path) {
        Some(n) => n,
        None => "minerva"@,
    };
    let tn = temp_name(name, pid);
    assert(tn.len() >= 6);
    crate::path::lemma_file_name_of_join(
        match parent_of(path) {
            Some(p) => p,
            None => "."@,
        },
        tn,
    );
}

// ---------------------------------------------------------------------
// The replacement procedure
// ---------------------------------------------------------------------

/// One step of replacing a file.
#[derive(Debug, Clone, Copy, PartialEq, Eq, Structural)]
pub enum ReplaceStep {
    /// Create the temporary file; it must not exist yet.
    CreateTemp,
    /// Write all of the new contents to it.
    WriteContents,
    /// Flush what was written.
    Flush,
    /// Sync the temporary file to stable storage.
    SyncFile,
    /// Run the caller's hook that follows the sync.
    AfterSync,
    /// Close the temporary file.
    CloseFile,
    /// Run the caller's hook that precedes the rename.
    BeforeRename,
    /// Rename the temporary file over the target.
    Rename,
    /// Sync the directory that holds the target.
    SyncParent,
}

/// What the caller is to do next.
#[derive(Debug, Clone, Copy, PartialEq, Eq, Structural)]
pub enum ReplaceAction {
    /// Perform this step and report whether it succeeded.
    Perform(ReplaceStep),
    /// A step failed: remove the temporary file, ignoring whether that
    /// works, and report that it was attempted.
    RemoveTemp,
    /// The file was replaced.
    Succeed,
    /// The replacement failed with the error of the failed step.
    Fail,
}

/// The number of steps of a replacement.
pub open spec fn step_count() -> nat {
    9
}

/// The steps of a replacement, in order.
pub open spec fn step_at(i: int) -> ReplaceStep {
    if i == 0 {
        ReplaceStep::CreateTemp
    } else if i == 1 {
        ReplaceStep::WriteContents
    } else if i == 2 {
        ReplaceStep::Flush
    } else if i == 3 {
        ReplaceStep::SyncFile
    } else if i == 4 {
        ReplaceStep::AfterSync
    } else if i == 5 {
        ReplaceStep::CloseFile
    } else if i == 6 {
        ReplaceStep::BeforeRename
    } else if i == 7 {
        ReplaceStep::Rename
    } else {
        ReplaceStep::SyncParent
    }
}

/// The progress of a replacement: how many steps succeeded, whether one
/// failed, and whether the temporary file was removed after the failure.
pub struct ReplaceState {
    pub done: nat,
    pub failed: bool,
    pub cleaned: bool,
}

/// The state before the first step.
pub open spec fn initial_state() -> ReplaceState {
    ReplaceState { done: 0, failed: false, cleaned: false }
}

/// What the caller must do in state `s`.
pub open spec fn action_of(s: ReplaceState) -> ReplaceAction {
    if s.failed {
        if s.cleaned {
            ReplaceAction::Fail
        } else {
            ReplaceAction::RemoveTemp
        }
    } else if s.done >= step_count() {
        ReplaceAction::Succeed
    } else {
        ReplaceAction::Perform(step_at(s.done as int))
    }
}

/// The state after the caller reports on the action of `s`: `ok` tells
/// whether a performed step succeeded; it is ignored for the removal of
/// the temporary file.
pub open spec fn next_state(s: ReplaceState, ok: bool) -> ReplaceState {
    match action_of(s) {
        ReplaceAction::Perform(_) => if ok {
            ReplaceState { done: s.done + 1, ..s }
        } else {
            ReplaceState { failed: true, ..s }
        },
        ReplaceAction::RemoveTemp => ReplaceState { cleaned: true, ..s },
        _ => s,
    }
}

/// The actions requested from state `s` when the performed steps report
/// `outcomes` in turn, for at most `fuel` actions.
pub open spec fn drive(s: ReplaceState, outcomes: Seq<bool>, fuel: nat) -> Seq<ReplaceAction>
    decreases fuel,
{
    if fuel == 0 {
        Seq::empty()
    } else {
        match action_of(s) {
            ReplaceAction::Perform(step) => if outcomes.len() == 0 {
                seq![ReplaceAction::Perform(step)]
            } else {
                seq![ReplaceAction::Perform(step)] + drive(
                    next_state(s, outcomes[0]),
                    outcomes.drop_first(),
                    (fuel - 1) as nat,
                )
            },
            ReplaceAction::RemoveTemp => seq![ReplaceAction::RemoveTemp] + drive(
                next_state(s, true),
                outcomes,
                (fuel - 1) as nat,
            ),
            a => seq![a],
        }
    }
}

/// The index of the first failed outcome among the steps, or the number
/// of steps when none failed.
pub open spec fn first_failure(outcomes: Seq<bool>) -> nat
    decreases step_count() - outcomes.len(),
{
    choose_first_failure(outcomes, 0)
}

/// The first index `>= i` of a failed outcome among the steps, or the
/// number of steps.
pub open spec fn choose_first_failure(outcomes: Seq<bool>, i: nat) -> nat
    decreases step_count() - i,
{
    if i >= step_count() {
        step_count()
    } else if !outcomes[i as int] {
        i
    } else {
        choose_first_failure(outcomes, i + 1)
    }
}

/// The progress of one file replacement.
#[derive(Debug, Clone, Copy, PartialEq, Eq)]
pub struct AtomicReplace {
    completed: usize,
    failed: bool,
    cleaned: bool,
}

impl View for AtomicReplace {
    type V = ReplaceState;

    closed spec fn view(&self) -> ReplaceState {
        ReplaceState { done: self.completed as nat, failed: self.failed, cleaned: self.cleaned }
    }
}

impl AtomicReplace {
    /// Starts replacing `path` on behalf of the process `pid`. A path
    /// without a parent directory cannot be replaced (`None`); otherwise
    /// the result holds the initial state and the temporary file to use.
    pub fn begin(path: &str, pid: u32) -> (r: Option<(AtomicReplace, String)>)
        ensures
            r is None <==> parent_of(path@) is None,
            r matches Some((m, t)) ==> m@ == initial_state() && t@ == temp_path_of(path@, pid),
    {
        match parent(path) {
            None => None,
            Some(_) => {
                let t = temp_path(path, pid);
                Some((AtomicReplace { completed: 0, failed: false, cleaned: false }, t))
            },
        }
    }

    /// What the caller is to do now.
    pub fn next_action(&self) -> (a: ReplaceAction)
        ensures
            a == action_of(self@),
    {
        if self.failed {
            if self.cleaned {
                ReplaceAction::Fail
            } else {
                ReplaceAction::RemoveTemp
            }
        } else if self.completed >= 9 {
            ReplaceAction::Succeed
        } else {
            let step = match self.completed {
                0 => ReplaceStep::CreateTemp,
                1 => ReplaceStep::WriteContents,
                2 => ReplaceStep::Flush,
                3 => ReplaceStep::SyncFile,
                4 => ReplaceStep::AfterSync,
                5 => ReplaceStep::CloseFile,
                6 => ReplaceStep::BeforeRename,
                7 => ReplaceStep::Rename,
                _ => ReplaceStep::SyncParent,
            };
            ReplaceAction::Perform(step)
        }
    }

    /// Records the outcome of the action requested last.
    pub fn report(&mut self, ok: bool)
        requires
            action_of(old(self)@) is Perform || action_of(old(self)@) is RemoveTemp,
        ensures
            final(self)@ == next_state(old(self)@, ok),
    {
        if self.failed {
            self.cleaned = true;
        } else if ok {
            self.completed = self.completed + 1;
        } else {
            self.failed = true;
        }
    }
}

proof fn lemma_drive_from(d: nat, outcomes: Seq<bool>)
    requires
        d <= step_count(),
        outcomes.len() == step_count(),
        forall|i: int| 0 <= i < d ==> outcomes[i],
    ensures
        ({
            let s = ReplaceState { done: d, failed: false, cleaned: false };
            let k = choose_first_failure(outcomes, d);
            let t = drive(s, outcomes.skip(d as int), (11 - d) as nat);
            &&& k >= d
            &&& (k == step_count() ==> t == Seq::new((step_count() - d) as nat, |i: int| ReplaceAction::Perform(step_at(d + i)))
                    .push(ReplaceAction::Succeed))
            &&& (k < step_count() ==> t == Seq::new((k + 1 - d) as nat, |i: int| ReplaceAction::Perform(step_at(d + i)))
                    .push(ReplaceAction::RemoveTemp).push(ReplaceAction::Fail))
        }),
    decreases step_count() - d,
{
    let s = ReplaceState { done: d, failed: false, cleaned: false };
    let os = outcomes.skip(d as int);
    if d == step_count() {
        assert(Seq::new(0, |i: int| ReplaceAction::Perform(step_at(d + i))).push(ReplaceAction::Succeed)
            =~= seq![ReplaceAction::Succeed]);
    } else {
        let tail = os.drop_first();
        assert(tail =~= outcomes.skip((d + 1) as int));
        if outcomes[d as int] {
            lemma_drive_from(d + 1, outcomes);
            let k = choose_first_failure(outcomes, d);
            let rest = drive(ReplaceState { done: d + 1, failed: false, cleaned: false }, tail, (11 - d - 1) as nat);
            assert(drive(s, os, (11 - d) as nat) == seq![ReplaceAction::Perform(step_at(d as int))] + rest);
            if k == step_count() {
                assert(seq![ReplaceAction::Perform(step_at(d as int))] + Seq::new((step_count() - d - 1) as nat,
                    |i: int| ReplaceAction::Perform(step_at(d + 1 + i))).push(ReplaceAction::Succeed)
                    =~= Seq::new((step_count() - d) as nat, |i: int| ReplaceAction::Perform(step_at(d + i)))
                    .push(ReplaceAction::Succeed));
            } else {
                assert(seq![ReplaceAction::Perform(step_at(d as int))] + Seq::new((k + 1 - d - 1) as nat,
                    |i: int| ReplaceAction::Perform(step_at(d + 1 + i))).push(ReplaceAction::RemoveTemp).push(
                    ReplaceAction::Fail) =~= Seq::new((k + 1 - d) as nat, |i: int| ReplaceAction::Perform(step_at(d + i)))
                    .push(ReplaceAction::RemoveTemp).push(ReplaceAction::Fail));
            }
        } else {
            let f = ReplaceState { done: d, failed: true, cleaned: false };
            let c = ReplaceState { done: d, failed: true, cleaned: true };
            assert(next_state(s, false) == f);
            assert(drive(c, tail, (11 - d - 2) as nat) == seq![ReplaceAction::Fail]);
            assert(drive(f, tail, (11 - d - 1) as nat) == seq![ReplaceAction::RemoveTemp] + seq![ReplaceAction::Fail]);
            assert(Seq::new(1, |i: int| ReplaceAction::Perform(step_at(d + i))).push(ReplaceAction::RemoveTemp).push(
                ReplaceAction::Fail) =~= seq![ReplaceAction::Perform(step_at(d as int))] + (seq![ReplaceAction::RemoveTemp]
                + seq![ReplaceAction::Fail]));
        }
    }
}

/// A replacement performs its steps in order and stops at the first step
/// that fails. When every step succeeds it ends in success and never
/// removes the temporary file. When a step fails, nothing further is
/// performed: the temporary file is removed and the replacement fails; in
/// particular the rename over the target is requested only when every step
/// before it succeeded, so a failure before it leaves the target as it
/// was.
pub proof fn lemma_replace_trace(outcomes: Seq<bool>)
    requires
        outcomes.len() == step_count(),
    ensures
        ({
            let t = drive(initial_state(), outcomes, 11);
            let k = first_failure(outcomes);
            &&& forall|i: int| 0 <= i < k ==> outcomes[i]
            &&& k < step_count() ==> !outcomes[k as int]
            &&& (k == step_count() ==> t == Seq::new(step_count(), |i: int| ReplaceAction::Perform(step_at(i)))
                    .push(ReplaceAction::Succeed))
            &&& (k < step_count() ==> t == Seq::new(k + 1, |i: int| ReplaceAction::Perform(step_at(i)))
                    .push(ReplaceAction::RemoveTemp).push(ReplaceAction::Fail))
            &&& (t.contains(ReplaceAction::Perform(ReplaceStep::Rename)) <==> k >= 7)
        }),
{
    lemma_drive_from(0, outcomes);
    assert(outcomes.skip(0) =~= outcomes);
    lemma_first_failure(outcomes, 0);
    let t = drive(initial_state(), outcomes, 11);
    let k = first_failure(outcomes);
    if k >= 7 {
        if k == step_count() {
            assert(t[7] == ReplaceAction::Perform(ReplaceStep::Rename));
        } else {
            assert(t[7] == ReplaceAction::Perform(ReplaceStep::Rename));
        }
    } else {
        assert forall|i: int| 0 <= i < t.len() implies t[i] != ReplaceAction::Perform(ReplaceStep::Rename) by {
            if i <= k {
                assert(t[i] == ReplaceAction::Perform(step_at(i)));
            }
        }
    }
}

proof fn lemma_first_failure(outcomes: Seq<bool>, i: nat)
    requires
        outcomes.len() == step_count(),
        i <= step_count(),
        forall|j: int| 0 <= j < i ==> outcomes[j],
    ensures
        i <= choose_first_failure(outcomes, i) <= step_count(),
        forall|j: int| 0 <= j < choose_first_failure(outcomes, i) ==> outcomes[j],
        choose_first_failure(outcomes, i) < step_count() ==> !outcomes[choose_first_failure(outcomes, i) as int],
    decreases step_count() - i,
{
    if i < step_count() && outcomes[i as int] {
        lemma_first_failure(outcomes, i + 1);
    }
}


// ---------------------------------------------------------------------
// What the replacement does to the files
// ---------------------------------------------------------------------

/// The two files a replacement touches: the target and the temporary
/// file, each absent or holding some bytes.
pub struct ReplaceFiles {
    pub target: Option<Seq<u8>>,
    pub temp: Option<Seq<u8>>,
}

/// What performing `step` does to the files, as the file system promises
/// it: creating the temporary file makes it empty; writing fills it with
/// `contents`, or, when the write fails, with the bytes `written` that
/// went out; the rename moves it over the target at once, or does nothing
/// when it fails; every other step, the caller's hooks included, leaves
/// both files alone.
pub open spec fn step_effect(f: ReplaceFiles, step: ReplaceStep, ok: bool, contents: Seq<u8>, written: Seq<u8>) -> ReplaceFiles {
    match step {
        ReplaceStep::CreateTemp => if ok {
            ReplaceFiles { target: f.target, temp: Some(Seq::empty()) }
        } else {
            f
        },
        ReplaceStep::WriteContents => ReplaceFiles {
            target: f.target,
            temp: Some(if ok { contents } else { written }),
        },
        ReplaceStep::Rename => if ok {
            ReplaceFiles { target: f.temp, temp: None }
        } else {
            f
        },
        _ => f,
    }
}

/// The files after the replacement, from step `i` on, when the steps
/// report `outcomes`: each requested step takes effect, and after a
/// failed one the temporary file is removed, if `removed` (the removal's
/// own failure is ignored).
pub open spec fn replay(
    f: ReplaceFiles,
    outcomes: Seq<bool>,
    i: nat,
    contents: Seq<u8>,
    written: Seq<u8>,
    removed: bool,
) -> ReplaceFiles
    decreases step_count() - i,
{
    if i >= step_count() {
        f
    } else {
        let g = step_effect(f, step_at(i as int), outcomes[i as int], contents, written);
        if outcomes[i as int] {
            replay(g, outcomes, i + 1, contents, written, removed)
        } else if removed {
            ReplaceFiles { target: g.target, temp: None }
        } else {
            g
        }
    }
}

proof fn lemma_replay_from(
    f0: ReplaceFiles,
    f: ReplaceFiles,
    outcomes: Seq<bool>,
    i: nat,
    contents: Seq<u8>,
    written: Seq<u8>,
    removed: bool,
)
    requires
        i <= step_count(),
        outcomes.len() == step_count(),
        i <= 7 ==> f.target == f0.target,
        2 <= i <= 7 ==> f.temp == Some(contents),
        i >= 8 ==> f.target == Some(contents) && f.temp is None,
    ensures
        ({
            let g = replay(f, outcomes, i, contents, written, removed);
            &&& (g.target == f0.target || g.target == Some(contents))
            &&& (choose_first_failure(outcomes, i) == step_count() ==> g.target == Some(contents) && g.temp is None)
            &&& (choose_first_failure(outcomes, i) < 8 ==> g.target == f0.target)
        }),
    decreases step_count() - i,
{
    if i < step_count() && outcomes[i as int] {
        let g = step_effect(f, step_at(i as int), true, contents, written);
        lemma_replay_from(f0, g, outcomes, i + 1, contents, written, removed);
    }
}

/// A replacement never leaves the target half-written: whatever the
/// steps report, the target ends up as it was or holding exactly the new
/// contents; it holds them, and the temporary file is gone, when every
/// step succeeded; and it is as it was when a step up to the rename
/// itself failed.
pub proof fn lemma_replace_effects(
    before: ReplaceFiles,
    outcomes: Seq<bool>,
    contents: Seq<u8>,
    written: Seq<u8>,
    removed: bool,
)
    requires
        outcomes.len() == step_count(),
    ensures
        ({
            let after = replay(before, outcomes, 0, contents, written, removed);
            &&& (after.target == before.target || after.target == Some(contents))
            &&& (first_failure(outcomes) == step_count() ==> after.target == Some(contents) && after.temp is None)
            &&& (first_failure(outcomes) < 8 ==> after.target == before.target)
        }),
{
    lemma_replay_from(before, before, outcomes, 0, contents, written, removed);
}

}
