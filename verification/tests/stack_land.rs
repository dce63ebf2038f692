//! The landing of a stack prefix under its branch lock.

use std::cell::RefCell;
use std::collections::VecDeque;

use caravan::command::{CommandOutput, CommandRunError, CommandRunner, CommandSpec};
use caravan::github::stack_land::{
    advance, GitHubStackLockedMergeCheckpoint, GitHubStackLockedMergeReceipt,
};
use caravan::github::{
    GitHubMutationAdapter, GitHubStackAsyncMergePlan, GitHubStackBranchLockGeneration,
    GitHubStackEntryGeneration, GitHubStackGeneration, GitHubStackLandCheckpoint,
    GitHubStackLandError, GitHubStackLandPhase, GitHubStackMergeAction,
    GitHubStackMergeCheckpoint, GitHubStackMergeMethod, GitHubStackMergeReceipt,
    GitHubStackMergeRequestIdentity, GitHubStackMergeStatus, GitHubStackTopology,
};
use caravan::model::{BranchSnapshot, CommitOid, PrNumber, PullRequestState, RepositoryId};

struct NeverRuns;

impl CommandRunner for NeverRuns {
    fn run(&self, command: &CommandSpec) -> Result<CommandOutput, CommandRunError> {
        panic!("ordering must be refused before provider access: {command:?}");
    }
}

struct Fake(RefCell<VecDeque<CommandOutput>>);

impl CommandRunner for Fake {
    fn run(&self, _command: &CommandSpec) -> Result<CommandOutput, CommandRunError> {
        Ok(self.0.borrow_mut().pop_front().expect("unexpected command"))
    }
}

fn repository() -> RepositoryId {
    RepositoryId {
        owner: "acme".to_owned(),
        name: "widgets".to_owned(),
    }
}

fn branch(name: &str, oid: &str) -> BranchSnapshot {
    BranchSnapshot {
        repository: repository(),
        name: name.to_owned(),
        oid: CommitOid(oid.to_owned()),
    }
}

fn entry(position: u32, number: u64, base: BranchSnapshot) -> GitHubStackEntryGeneration {
    GitHubStackEntryGeneration {
        position,
        pr: PrNumber(number),
        stack_state: "open".to_owned(),
        pull_request_state: PullRequestState::Open,
        draft: false,
        merged_at: None,
        base,
        head: branch(&format!("head-{number}"), &format!("{number}aaaaaa")),
    }
}

fn plan() -> GitHubStackAsyncMergePlan {
    let base = branch("main", "base000");
    let root = entry(0, 101, base.clone());
    let child = entry(1, 102, root.head.clone());
    let topology = GitHubStackTopology {
        base: base.clone(),
        entries: vec![root.clone(), child.clone()],
    };
    GitHubStackAsyncMergePlan {
        operation_id: "land-op".to_owned(),
        actor: "cara-test".to_owned(),
        before: GitHubStackGeneration {
            id: 5_001,
            number: 42,
            node_id: "S_land".to_owned(),
            open: true,
            created_at: "2026-08-01T09:00:00Z".to_owned(),
            topology,
        },
        selected: vec![root, child],
        merge_method: GitHubStackMergeMethod::Squash,
        merge_action: GitHubStackMergeAction::DirectMerge,
    }
}

fn lock() -> GitHubStackBranchLockGeneration {
    let plan = plan();
    let mut selected_refs = plan
        .selected
        .iter()
        .map(|entry| format!("refs/heads/{}", entry.head.name))
        .collect::<Vec<_>>();
    selected_refs.sort();
    GitHubStackBranchLockGeneration {
        id: 77,
        node_id: "RRS_land".to_owned(),
        name: "cara-stack-merge-lock-land".to_owned(),
        repository: repository(),
        source: repository().slug(),
        source_type: "Repository".to_owned(),
        target: "branch".to_owned(),
        enforcement: "active".to_owned(),
        selected_pull_requests: plan.selected.iter().map(|entry| entry.pr).collect(),
        selected_refs,
        current_user_can_bypass: "never".to_owned(),
        created_at: "2026-08-01T10:00:00Z".to_owned(),
        updated_at: "2026-08-01T10:00:00Z".to_owned(),
    }
}

fn request() -> GitHubStackMergeRequestIdentity {
    let plan = plan();
    GitHubStackMergeRequestIdentity {
        method: "PUT".to_owned(),
        path: format!("repos/{}/stacks/42/merge-async", repository().slug()),
        selected_top: PrNumber(102),
        selected_top_sha: plan
            .selected
            .last()
            .expect("a non-empty selected prefix")
            .head
            .oid
            .clone(),
        ordered_pull_requests: plan.selected.iter().map(|entry| entry.pr).collect(),
        ordered_heads: plan
            .selected
            .iter()
            .map(|entry| entry.head.oid.clone())
            .collect(),
        github_request_id: None,
    }
}

fn merge_checkpoint() -> GitHubStackLockedMergeCheckpoint {
    GitHubStackLockedMergeCheckpoint {
        schema_version: 1,
        repository: repository(),
        merge: GitHubStackMergeCheckpoint {
            schema_version: 1,
            repository: repository(),
            plan: plan(),
            request: request(),
            uuid: "0f2ec4a1-3f9d-4a1a-9f7e-1c2d3e4f5a6b".to_owned(),
            initial_provider_status: "submitted".to_owned(),
            evidence_hash: String::new(),
        },
        branch_lock: lock(),
        evidence_hash: String::new(),
    }
}

fn locked_receipt(status: GitHubStackMergeStatus) -> GitHubStackLockedMergeReceipt {
    GitHubStackLockedMergeReceipt {
        schema_version: 1,
        merge: GitHubStackMergeReceipt {
            schema_version: 1,
            repository: repository(),
            plan: plan(),
            request: request(),
            checkpoint: Some(merge_checkpoint().merge),
            status,
            provider_status: None,
            provider_message: None,
            provider_sha: None,
            observation: None,
            evidence_hash: String::new(),
        },
        branch_lock: lock(),
        branch_lock_verified: true,
        checkpoint: Some(merge_checkpoint()),
        evidence_hash: String::new(),
    }
}

fn begin() -> GitHubStackLandCheckpoint {
    GitHubMutationAdapter::<NeverRuns>::native_stack_land_begin(&repository(), &plan())
}

#[test]
fn a_pending_merge_never_releases_the_complete_group_lock() {
    let submitted = advance(&begin(), &locked_receipt(GitHubStackMergeStatus::Submitted));
    assert_eq!(submitted.phase, GitHubStackLandPhase::Submitted);
    assert!(submitted.outstanding_lock().is_some());

    let pending = advance(&submitted, &locked_receipt(GitHubStackMergeStatus::Pending));
    assert_eq!(pending.phase, GitHubStackLandPhase::Submitted);
    assert!(pending.verify());

    let adapter = GitHubMutationAdapter::new(NeverRuns);
    assert!(matches!(
        adapter.native_stack_land_release(&repository(), &pending),
        Err(GitHubStackLandError::OutOfOrder { .. })
    ));
}

#[test]
fn every_terminal_outcome_including_indeterminate_must_release_its_lock() {
    for status in [
        GitHubStackMergeStatus::Merged,
        GitHubStackMergeStatus::Failed,
        GitHubStackMergeStatus::Indeterminate,
    ] {
        let terminal = advance(&begin(), &locked_receipt(status));
        assert_eq!(terminal.phase, GitHubStackLandPhase::Terminal);
        assert_eq!(terminal.terminal_status, Some(status));
        assert!(
            terminal.outstanding_lock().is_some(),
            "a terminal transaction still owns its ruleset until release"
        );
        assert!(terminal.verify());
    }
}

#[test]
fn submission_and_polling_are_refused_out_of_order_before_provider_access() {
    let adapter = GitHubMutationAdapter::new(NeverRuns);
    let planned = begin();
    assert_eq!(planned.phase, GitHubStackLandPhase::Planned);
    assert!(planned.outstanding_lock().is_none());
    assert!(!planned.provider_atomic);

    assert!(matches!(
        adapter.native_stack_land_submit(&repository(), &planned),
        Err(GitHubStackLandError::OutOfOrder { .. })
    ));
    assert!(matches!(
        adapter.native_stack_land_poll(&repository(), &planned),
        Err(GitHubStackLandError::OutOfOrder { .. })
    ));
    assert!(matches!(
        adapter.native_stack_land_release(&repository(), &planned),
        Err(GitHubStackLandError::OutOfOrder { .. })
    ));
}

#[test]
fn a_tampered_or_foreign_checkpoint_is_rejected_before_provider_access() {
    let adapter = GitHubMutationAdapter::new(NeverRuns);
    let mut tampered = begin();
    tampered.provider_atomic = true;
    assert!(matches!(
        adapter.native_stack_land_lock(&repository(), &tampered),
        Err(GitHubStackLandError::InvalidCheckpoint { .. })
    ));

    let foreign = RepositoryId {
        owner: "other".to_owned(),
        name: "repo".to_owned(),
    };
    assert!(matches!(
        adapter.native_stack_land_lock(&foreign, &begin()),
        Err(GitHubStackLandError::InvalidCheckpoint { .. })
    ));

    let mut lying = begin();
    lying.phase = GitHubStackLandPhase::Terminal;
    assert!(!lying.verify());
}

#[test]
fn completed_steps_are_idempotent_replays_without_provider_writes() {
    let adapter = GitHubMutationAdapter::new(Fake(RefCell::new(VecDeque::new())));
    let terminal = advance(&begin(), &locked_receipt(GitHubStackMergeStatus::Merged));

    let replayed = adapter
        .native_stack_land_lock(&repository(), &terminal)
        .expect("an already-locked transaction replays");
    assert_eq!(replayed, terminal);
    let replayed = adapter
        .native_stack_land_submit(&repository(), &terminal)
        .expect("an already-submitted transaction replays");
    assert_eq!(replayed, terminal);
    let replayed = adapter
        .native_stack_land_poll(&repository(), &terminal)
        .expect("an already-terminal transaction replays");
    assert_eq!(replayed, terminal);
}

fn failing() -> GitHubMutationAdapter<Fake> {
    let refused = CommandOutput {
        code: Some(1),
        stdout: String::new(),
        stderr: "gh: HTTP 500".to_owned(),
    };
    let outputs: VecDeque<CommandOutput> = vec![refused.clone(), refused].into();
    GitHubMutationAdapter::new(Fake(RefCell::new(outputs)))
}

#[test]
fn a_lock_that_cannot_be_taken_stops_the_landing() {
    assert!(matches!(
        failing().native_stack_land_lock(&repository(), &begin()),
        Err(GitHubStackLandError::Lock(_))
    ));
}

#[test]
fn an_unreadable_lock_stops_the_poll() {
    let submitted = advance(&begin(), &locked_receipt(GitHubStackMergeStatus::Submitted));
    assert!(failing()
        .native_stack_land_poll(&repository(), &submitted)
        .is_err());
}
