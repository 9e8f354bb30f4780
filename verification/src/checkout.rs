//! Decisions around a branch checkout or merge: which refs to read, what the
//! git results mean, and what the status line then says.
//!
//! The git commands themselves run in the binary; each step here takes
//! their results as plain values.

use vstd::prelude::*;

use crate::branches::{
    local_name_spec, origin_prefix, checkout_name_for_ref, is_origin_remote_ref, GraphCheckoutPlan,
    DIRTY_WORKTREE_STATUS,
};
use crate::text::{has_substr, owned, push_str, starts_with, str_contains, trim, trim_str};

verus! {

/// Result of the git work behind a branch checkout.
#[derive(Clone, Debug, PartialEq, Eq)]
pub enum CheckoutCompute {
    /// The worktree has local changes.
    Dirty,
    /// `git checkout` failed; `clear_picker` closes the branch picker.
    Failed { status: String, clear_picker: bool },
    /// The local branch is out of sync with the selected remote ref: ask first.
    Confirm { local_branch: String, remote_ref: String },
    /// HEAD moved.
    Done { status: String },
}

/// Result of the git work behind a merge into HEAD.
#[derive(Clone, Debug, PartialEq, Eq)]
pub enum MergeCompute {
    Dirty,
    AlreadyUpToDate,
    FastForward,
    MergeCommit,
    Conflict,
    Failed(String),
}

/// Refs whose SHAs decide a checkout of `selected`: the local branch it
/// names, and the remote-tracking ref (the selection itself when it is an
/// `origin/…` name, else `origin/<local>`).
pub open spec fn checkout_refs_spec(selected: Seq<char>) -> (Seq<char>, Seq<char>) {
    let local = local_name_spec(selected);
    (
        "refs/heads/"@ + local,
        if starts_with(selected, origin_prefix()) {
            "refs/remotes/"@ + selected
        } else {
            "refs/remotes/origin/"@ + local
        },
    )
}

/// `(local ref, remote ref)` to read before planning a checkout of `selected`.
pub fn checkout_refs(selected: &str) -> (r: (String, String))
    ensures
        (r.0@, r.1@) == checkout_refs_spec(selected@),
{
    let local = checkout_name_for_ref(selected);
    let mut local_ref = owned("refs/heads/");
    push_str(&mut local_ref, local.as_str());
    let remote_ref = if is_origin_remote_ref(selected) {
        let mut r = owned("refs/remotes/");
        push_str(&mut r, selected);
        r
    } else {
        let mut r = owned("refs/remotes/origin/");
        push_str(&mut r, local.as_str());
        r
    };
    (local_ref, remote_ref)
}

/// Outcome of a confirmed checkout that then fast-forwards to `remote_ref`.
pub open spec fn fast_forward_spec(selected: Seq<char>, remote_ref: Seq<char>, checked_out: bool, fast_forwarded: bool) -> (
    bool,
    Seq<char>,
) {
    if !checked_out {
        (false, "Checkout failed: "@ + selected)
    } else if fast_forwarded {
        (true, "Checked out "@ + selected + " and fast-forwarded to "@ + remote_ref)
    } else {
        (true, "Checked out "@ + selected + "; could not fast-forward to "@ + remote_ref)
    }
}

/// Result of checking out `selected` and fast-forwarding it to `remote_ref`.
/// A failed checkout closes the picker.
pub fn fast_forward_outcome(selected: &str, remote_ref: &str, checked_out: bool, fast_forwarded: bool) -> (r: CheckoutCompute)
    ensures
        ({
            let (done, status) = fast_forward_spec(selected@, remote_ref@, checked_out, fast_forwarded);
            match r {
                CheckoutCompute::Done { status: s } => done && s@ == status,
                CheckoutCompute::Failed { status: s, clear_picker } => !done && s@ == status && clear_picker,
                _ => false,
            }
        }),
{
    if !checked_out {
        let mut s = owned("Checkout failed: ");
        push_str(&mut s, selected);
        return CheckoutCompute::Failed { status: s, clear_picker: true };
    }
    let mut s = owned("Checked out ");
    push_str(&mut s, selected);
    if fast_forwarded {
        push_str(&mut s, " and fast-forwarded to ");
    } else {
        push_str(&mut s, "; could not fast-forward to ");
    }
    push_str(&mut s, remote_ref);
    CheckoutCompute::Done { status: s }
}

/// Result of a planned checkout: a confirm passes through; a checkout
/// reports `Checked out <branch>` or, keeping the picker open, its failure.
pub fn planned_outcome(plan: &GraphCheckoutPlan, checked_out: bool) -> (r: CheckoutCompute)
    ensures
        match *plan {
            GraphCheckoutPlan::ConfirmLocalThenPull { local_branch, remote_ref } => r == CheckoutCompute::Confirm {
                local_branch,
                remote_ref,
            },
            GraphCheckoutPlan::Checkout { branch } => if checked_out {
                r matches CheckoutCompute::Done { status } && status@ == "Checked out "@ + branch@
            } else {
                r matches CheckoutCompute::Failed { status, clear_picker } && status@ == "Checkout failed: "@
                    + branch@ && !clear_picker
            },
        },
{
    match plan {
        GraphCheckoutPlan::ConfirmLocalThenPull { local_branch, remote_ref } => CheckoutCompute::Confirm {
            local_branch: local_branch.clone(),
            remote_ref: remote_ref.clone(),
        },
        GraphCheckoutPlan::Checkout { branch } => {
            if checked_out {
                let mut s = owned("Checked out ");
                push_str(&mut s, branch.as_str());
                CheckoutCompute::Done { status: s }
            } else {
                let mut s = owned("Checkout failed: ");
                push_str(&mut s, branch.as_str());
                CheckoutCompute::Failed { status: s, clear_picker: false }
            }
        },
    }
}

/// What the app does with a checkout result.
#[derive(Clone, Debug, PartialEq, Eq)]
pub struct CheckoutApply {
    /// New status text, if any.
    pub status: Option<String>,
    /// Close the branch picker.
    pub clear_picker: bool,
    /// Open the out-of-sync confirm for `(local branch, remote ref)`.
    pub confirm: Option<(String, String)>,
    /// HEAD moved: reload the snapshot.
    pub reload: bool,
}

/// Apply a checkout result: a dirty tree or a failure reports, a confirm
/// opens, a success closes the picker and reloads.
pub fn apply_checkout_compute(result: &CheckoutCompute) -> (r: CheckoutApply)
    ensures
        match *result {
            CheckoutCompute::Dirty => r.status matches Some(s) && s@ == DIRTY_WORKTREE_STATUS@ && !r.clear_picker
                && r.confirm is None && !r.reload,
            CheckoutCompute::Failed { status, clear_picker } => r.status == Some(status) && r.clear_picker
                == clear_picker && r.confirm is None && !r.reload,
            CheckoutCompute::Confirm { local_branch, remote_ref } => r.status is None && r.clear_picker
                && r.confirm == Some((local_branch, remote_ref)) && !r.reload,
            CheckoutCompute::Done { status } => r.status == Some(status) && r.clear_picker && r.confirm is None
                && r.reload,
        },
{
    match result {
        CheckoutCompute::Dirty => CheckoutApply {
            status: Some(owned(DIRTY_WORKTREE_STATUS)),
            clear_picker: false,
            confirm: None,
            reload: false,
        },
        CheckoutCompute::Failed { status, clear_picker } => CheckoutApply {
            status: Some(status.clone()),
            clear_picker: *clear_picker,
            confirm: None,
            reload: false,
        },
        CheckoutCompute::Confirm { local_branch, remote_ref } => CheckoutApply {
            status: None,
            clear_picker: true,
            confirm: Some((local_branch.clone(), remote_ref.clone())),
            reload: false,
        },
        CheckoutCompute::Done { status } => CheckoutApply {
            status: Some(status.clone()),
            clear_picker: true,
            confirm: None,
            reload: true,
        },
    }
}

/// Status text and reload flag of a merge result.
pub open spec fn merge_spec(label: Seq<char>, result: MergeCompute) -> (Seq<char>, bool) {
    match result {
        MergeCompute::Dirty => (DIRTY_WORKTREE_STATUS@, false),
        MergeCompute::AlreadyUpToDate => ("Already up to date"@, false),
        MergeCompute::FastForward => ("Fast-forwarded to "@ + label, true),
        MergeCompute::MergeCommit => ("Merged "@ + label, true),
        MergeCompute::Conflict => ("Merge conflict \u{2014} resolve in the worktree"@, true),
        MergeCompute::Failed(err) => ("merge failed: "@ + err@, false),
    }
}

/// Apply a merge result: the status line text, and whether HEAD moved
/// (a conflict leaves the merge in progress, so the tree reloads too).
pub fn apply_merge_compute(label: &str, result: &MergeCompute) -> (r: (String, bool))
    ensures
        (r.0@, r.1) == merge_spec(label@, *result),
{
    match result {
        MergeCompute::Dirty => (owned(DIRTY_WORKTREE_STATUS), false),
        MergeCompute::AlreadyUpToDate => (owned("Already up to date"), false),
        MergeCompute::FastForward => {
            let mut s = owned("Fast-forwarded to ");
            push_str(&mut s, label);
            (s, true)
        },
        MergeCompute::MergeCommit => {
            let mut s = owned("Merged ");
            push_str(&mut s, label);
            (s, true)
        },
        MergeCompute::Conflict => (owned("Merge conflict \u{2014} resolve in the worktree"), true),
        MergeCompute::Failed(err) => {
            let mut s = owned("merge failed: ");
            push_str(&mut s, err.as_str());
            (s, false)
        },
    }
}

/// Classify what `git merge` reported on a clean worktree: a clean run
/// that had nothing to do, a fast-forward, or a merge commit; a failed run
/// with conflict markers in its output, or another failure with its
/// trimmed error text.
pub fn merge_result(success: bool, stdout: &str, stderr: &str) -> (r: MergeCompute)
    ensures
        success && has_substr(stdout@, "Already up to date"@) ==> r == MergeCompute::AlreadyUpToDate,
        success && !has_substr(stdout@, "Already up to date"@) && has_substr(stdout@, "Fast-forward"@) ==> r
            == MergeCompute::FastForward,
        success && !has_substr(stdout@, "Already up to date"@) && !has_substr(stdout@, "Fast-forward"@) ==> r
            == MergeCompute::MergeCommit,
        !success && has_substr(stdout@, "CONFLICT"@) ==> r == MergeCompute::Conflict,
        !success && !has_substr(stdout@, "CONFLICT"@) ==> (r matches MergeCompute::Failed(e) && e@ == trim(stderr@)),
{
    if success {
        if str_contains(stdout, "Already up to date") {
            MergeCompute::AlreadyUpToDate
        } else if str_contains(stdout, "Fast-forward") {
            MergeCompute::FastForward
        } else {
            MergeCompute::MergeCommit
        }
    } else if str_contains(stdout, "CONFLICT") {
        MergeCompute::Conflict
    } else {
        MergeCompute::Failed(trim_str(stderr))
    }
}

} // verus!
