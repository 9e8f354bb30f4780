use workspace_status::checkout::merge_result;
use workspace_status::branches::{plan_graph_checkout, GraphCheckoutPlan, DIRTY_WORKTREE_STATUS};
use workspace_status::checkout::{
    apply_checkout_compute, apply_merge_compute, checkout_refs, fast_forward_outcome,
    planned_outcome, CheckoutCompute, MergeCompute,
};

#[test]
fn checkout_reads_local_and_remote_tracking_refs() {
    assert_eq!(
        checkout_refs("origin/feature/x"),
        ("refs/heads/feature/x".to_string(), "refs/remotes/origin/feature/x".to_string())
    );
    assert_eq!(
        checkout_refs("main"),
        ("refs/heads/main".to_string(), "refs/remotes/origin/main".to_string())
    );
}

#[test]
fn fast_forward_checkout_reports_both_outcomes() {
    assert_eq!(
        fast_forward_outcome("main", "origin/main", true, true),
        CheckoutCompute::Done { status: "Checked out main and fast-forwarded to origin/main".into() }
    );
    assert_eq!(
        fast_forward_outcome("main", "origin/main", true, false),
        CheckoutCompute::Done { status: "Checked out main; could not fast-forward to origin/main".into() }
    );
    assert_eq!(
        fast_forward_outcome("main", "origin/main", false, true),
        CheckoutCompute::Failed { status: "Checkout failed: main".into(), clear_picker: true }
    );
}

#[test]
fn planned_checkout_confirms_or_reports() {
    let plan = plan_graph_checkout("origin/topic", true, Some("a"), Some("b"));
    assert_eq!(
        planned_outcome(&plan, true),
        CheckoutCompute::Confirm { local_branch: "topic".into(), remote_ref: "origin/topic".into() }
    );
    let plan = GraphCheckoutPlan::Checkout { branch: "topic".into() };
    assert_eq!(planned_outcome(&plan, true), CheckoutCompute::Done { status: "Checked out topic".into() });
    assert_eq!(
        planned_outcome(&plan, false),
        CheckoutCompute::Failed { status: "Checkout failed: topic".into(), clear_picker: false }
    );
}

#[test]
fn applying_checkout_results() {
    let dirty = apply_checkout_compute(&CheckoutCompute::Dirty);
    assert_eq!(dirty.status.as_deref(), Some(DIRTY_WORKTREE_STATUS));
    assert!(!dirty.clear_picker && !dirty.reload && dirty.confirm.is_none());
    let confirm = apply_checkout_compute(&CheckoutCompute::Confirm {
        local_branch: "topic".into(),
        remote_ref: "origin/topic".into(),
    });
    assert_eq!(confirm.confirm, Some(("topic".to_string(), "origin/topic".to_string())));
    assert!(confirm.clear_picker && !confirm.reload && confirm.status.is_none());
    let done = apply_checkout_compute(&CheckoutCompute::Done { status: "Checked out topic".into() });
    assert!(done.reload && done.clear_picker);
    let failed = apply_checkout_compute(&CheckoutCompute::Failed { status: "x".into(), clear_picker: false });
    assert_eq!(failed.status.as_deref(), Some("x"));
    assert!(!failed.clear_picker && !failed.reload);
}

#[test]
fn merge_results_set_status_and_reload() {
    assert_eq!(apply_merge_compute("topic", &MergeCompute::Dirty), (DIRTY_WORKTREE_STATUS.to_string(), false));
    assert_eq!(
        apply_merge_compute("topic", &MergeCompute::AlreadyUpToDate),
        ("Already up to date".to_string(), false)
    );
    assert_eq!(
        apply_merge_compute("topic", &MergeCompute::FastForward),
        ("Fast-forwarded to topic".to_string(), true)
    );
    assert_eq!(apply_merge_compute("topic", &MergeCompute::MergeCommit), ("Merged topic".to_string(), true));
    assert_eq!(
        apply_merge_compute("topic", &MergeCompute::Conflict),
        ("Merge conflict — resolve in the worktree".to_string(), true)
    );
    assert_eq!(
        apply_merge_compute("topic", &MergeCompute::Failed("boom".into())),
        ("merge failed: boom".to_string(), false)
    );
}

#[test]
fn merge_result_classifies_git_output() {
    assert_eq!(merge_result(true, "Already up to date.\n", ""), MergeCompute::AlreadyUpToDate);
    assert_eq!(merge_result(true, "Updating a..b\nFast-forward\n", ""), MergeCompute::FastForward);
    assert_eq!(merge_result(true, "Merge made by the 'ort' strategy.\n", ""), MergeCompute::MergeCommit);
    assert_eq!(merge_result(false, "CONFLICT (content): Merge conflict in a\n", ""), MergeCompute::Conflict);
    assert_eq!(
        merge_result(false, "", "  merge: topic - not something we can merge\n"),
        MergeCompute::Failed("merge: topic - not something we can merge".into())
    );
}
