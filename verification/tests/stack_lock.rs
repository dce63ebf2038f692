//! The branch lock of a stack merge.

use std::cell::RefCell;
use std::collections::VecDeque;

use caravan::command::{
    CommandIntent, CommandOutput, CommandRunError, CommandRunner, CommandSpec,
};
use caravan::github::stack_lock::{
    bind_selected_pull_requests, create_ruleset_command, delete_ruleset_command, expected_lock,
    list_rulesets_command, read_ruleset_command,
};
use caravan::github::{
    GitHubMutationAdapter, GitHubStackBranchLockDisposition, GitHubStackBranchLockError,
    GitHubStackBranchLockGeneration, GitHubStackBranchLockPlan, GitHubStackEntryGeneration,
};
use caravan::model::{BranchSnapshot, CommitOid, PrNumber, PullRequestState, RepositoryId};

fn success(text: impl Into<String>) -> CommandOutput {
    CommandOutput::success(text.into())
}

struct FakeRunner {
    calls: RefCell<VecDeque<(CommandSpec, Result<CommandOutput, CommandRunError>)>>,
}

impl FakeRunner {
    fn new(calls: Vec<(CommandSpec, CommandOutput)>) -> Self {
        Self {
            calls: RefCell::new(calls.into_iter().map(|(c, o)| (c, Ok(o))).collect()),
        }
    }
    fn with_results(calls: Vec<(CommandSpec, Result<CommandOutput, CommandRunError>)>) -> Self {
        Self {
            calls: RefCell::new(calls.into()),
        }
    }
    fn assert_exhausted(&self) {
        assert!(self.calls.borrow().is_empty());
    }
}
impl CommandRunner for FakeRunner {
    fn run(&self, command: &CommandSpec) -> Result<CommandOutput, CommandRunError> {
        let (expected, output) = self
            .calls
            .borrow_mut()
            .pop_front()
            .expect("unexpected command");
        assert_eq!(*command, expected);
        output
    }
}

fn repository() -> RepositoryId {
    RepositoryId {
        owner: "acme".into(),
        name: "widgets".into(),
    }
}
fn branch(name: &str, oid: &str) -> BranchSnapshot {
    BranchSnapshot {
        repository: repository(),
        name: name.into(),
        oid: CommitOid(oid.into()),
    }
}
fn plan() -> GitHubStackBranchLockPlan {
    let base = branch("main", "base");
    let root = GitHubStackEntryGeneration {
        position: 0,
        pr: PrNumber(10),
        stack_state: "open".into(),
        pull_request_state: PullRequestState::Open,
        draft: false,
        merged_at: None,
        base: base.clone(),
        head: branch("root", "aaa"),
    };
    let child = GitHubStackEntryGeneration {
        position: 1,
        pr: PrNumber(11),
        stack_state: "open".into(),
        pull_request_state: PullRequestState::Open,
        draft: false,
        merged_at: None,
        base: root.head.clone(),
        head: branch("child", "bbb"),
    };
    GitHubStackBranchLockPlan {
        operation_id: "op-lock".into(),
        actor: "cara".into(),
        stack_number: 7,
        selected: vec![root, child],
    }
}
fn observed(plan: &GitHubStackBranchLockPlan) -> GitHubStackBranchLockGeneration {
    let mut lock = expected_lock(&repository(), plan).unwrap();
    lock.id = 42;
    lock.node_id = "RRS_node".into();
    lock.created_at = "2026-08-01T10:00:00Z".into();
    lock.updated_at = "2026-08-01T10:00:01Z".into();
    bind_selected_pull_requests(&mut lock, plan);
    lock
}
fn ruleset_text(
    lock: &GitHubStackBranchLockGeneration,
    node_id: &str,
    bypass_actors: &str,
    can_bypass: &str,
    created_at: &str,
    updated_at: &str,
) -> String {
    let id = lock.id;
    let name = &lock.name;
    let source = repository().slug();
    let refs: Vec<String> = lock
        .selected_refs
        .iter()
        .map(|name| format!("\"{name}\""))
        .collect();
    let refs = refs.join(",");
    format!(
        r#"{{"id":{id},"node_id":"{node_id}","name":"{name}","target":"branch","source_type":"Repository","source":"{source}","enforcement":"active","conditions":{{"ref_name":{{"include":[{refs}],"exclude":[]}}}},"rules":[{{"type":"update"}},{{"type":"deletion"}}],"bypass_actors":{bypass_actors},"current_user_can_bypass":"{can_bypass}","created_at":"{created_at}","updated_at":"{updated_at}"}}"#
    )
}

fn ruleset_json(lock: &GitHubStackBranchLockGeneration) -> String {
    ruleset_text(lock, &lock.node_id, "[]", "never", &lock.created_at, &lock.updated_at)
}
fn summary_json(lock: &GitHubStackBranchLockGeneration) -> String {
    format!(r#"[{{"id":{},"name":"{}"}}]"#, lock.id, lock.name)
}
fn success_headers() -> CommandOutput {
    success("HTTP/2 201 Created\nx-github-request-id: LOCK-1\n\n{}")
}
fn not_found() -> CommandOutput {
    CommandOutput {
        code: Some(1),
        stdout: String::new(),
        stderr: "gh: HTTP 404".into(),
    }
}

#[test]
fn acquire_creates_one_atomic_no_bypass_exact_ref_ruleset() {
    let plan = plan();
    let lock = observed(&plan);
    let expected = expected_lock(&repository(), &plan).unwrap();
    let calls = vec![
        (
            list_rulesets_command(&repository()),
            success("[]"),
        ),
        (
            create_ruleset_command(&repository(), &expected),
            success_headers(),
        ),
        (
            list_rulesets_command(&repository()),
            success(summary_json(&lock)),
        ),
        (
            read_ruleset_command(&repository(), lock.id),
            success(ruleset_json(&lock)),
        ),
    ];
    let adapter = GitHubMutationAdapter::new(FakeRunner::new(calls));
    let receipt = adapter
        .native_stack_branch_lock_acquire(&repository(), &plan)
        .unwrap();
    assert_eq!(
        receipt.disposition,
        GitHubStackBranchLockDisposition::Completed
    );
    assert_eq!(receipt.lock, Some(lock));
    assert_eq!(receipt.github_request_id.as_deref(), Some("LOCK-1"));
    assert!(receipt.verify());
    adapter.runner.assert_exhausted();
}

#[test]
fn exact_acquire_retry_is_zero_write() {
    let plan = plan();
    let lock = observed(&plan);
    let calls = vec![
        (
            list_rulesets_command(&repository()),
            success(summary_json(&lock)),
        ),
        (
            read_ruleset_command(&repository(), lock.id),
            success(ruleset_json(&lock)),
        ),
    ];
    let adapter = GitHubMutationAdapter::new(FakeRunner::new(calls));
    let receipt = adapter
        .native_stack_branch_lock_acquire(&repository(), &plan)
        .unwrap();
    assert_eq!(
        receipt.disposition,
        GitHubStackBranchLockDisposition::AlreadySatisfied
    );
    assert_eq!(receipt.lock, Some(lock));
    adapter.runner.assert_exhausted();
}

#[test]
fn same_operation_with_changed_generation_collides_instead_of_relocking() {
    let original = plan();
    let lock = observed(&original);
    let mut changed = original.clone();
    changed.selected[0].head.name = "different-root".to_owned();
    let calls = vec![
        (
            list_rulesets_command(&repository()),
            success(summary_json(&lock)),
        ),
        (
            read_ruleset_command(&repository(), lock.id),
            success(ruleset_json(&lock)),
        ),
    ];
    let adapter = GitHubMutationAdapter::new(FakeRunner::new(calls));

    assert!(matches!(
        adapter.native_stack_branch_lock_acquire(&repository(), &changed),
        Err(GitHubStackBranchLockError::NameCollision { .. })
    ));
    adapter.runner.assert_exhausted();
}

#[test]
fn timeout_recovers_only_after_exact_ruleset_rediscovery() {
    let plan = plan();
    let lock = observed(&plan);
    let expected = expected_lock(&repository(), &plan).unwrap();
    let create = create_ruleset_command(&repository(), &expected);
    let calls = vec![
        (
            list_rulesets_command(&repository()),
            Ok(success("[]")),
        ),
        (
            create.clone(),
            Err(CommandRunError::Timeout {
                command: create,
                process_group_id: Some(1),
                timeout_ms: 30_000,
                stdout: String::new(),
                stderr: String::new(),
            }),
        ),
        (
            list_rulesets_command(&repository()),
            Ok(success(summary_json(&lock))),
        ),
        (
            read_ruleset_command(&repository(), lock.id),
            Ok(success(ruleset_json(&lock))),
        ),
    ];
    let adapter = GitHubMutationAdapter::new(FakeRunner::with_results(calls));
    let receipt = adapter
        .native_stack_branch_lock_acquire(&repository(), &plan)
        .unwrap();
    assert_eq!(
        receipt.disposition,
        GitHubStackBranchLockDisposition::RecoveredAfterAmbiguousResponse
    );
    adapter.runner.assert_exhausted();
}

#[test]
fn release_deletes_only_exact_generation_and_proves_absence() {
    let plan = plan();
    let lock = observed(&plan);
    let calls = vec![
        (
            read_ruleset_command(&repository(), lock.id),
            success(ruleset_json(&lock)),
        ),
        (
            delete_ruleset_command(&repository(), lock.id),
            success("HTTP/2 204 No Content\nx-github-request-id: LOCK-DEL\n\n"),
        ),
        (read_ruleset_command(&repository(), lock.id), not_found()),
        (
            list_rulesets_command(&repository()),
            success("[]"),
        ),
    ];
    let adapter = GitHubMutationAdapter::new(FakeRunner::new(calls));
    let receipt = adapter
        .native_stack_branch_lock_release(&repository(), &plan, &lock)
        .unwrap();
    assert_eq!(
        receipt.disposition,
        GitHubStackBranchLockDisposition::Completed
    );
    assert!(receipt.lock.is_none());
    assert!(receipt.verify());
    adapter.runner.assert_exhausted();
}

#[test]
fn changed_ruleset_is_never_deleted() {
    let plan = plan();
    let lock = observed(&plan);
    let mut changed = lock.clone();
    changed.updated_at = "later".into();
    let adapter = GitHubMutationAdapter::new(FakeRunner::new(vec![(
        read_ruleset_command(&repository(), lock.id),
        success(ruleset_json(&changed)),
    )]));
    assert!(matches!(
        adapter.native_stack_branch_lock_release(&repository(), &plan, &lock),
        Err(GitHubStackBranchLockError::StaleLock { .. })
    ));
    adapter.runner.assert_exhausted();
}

#[test]
fn ruleset_writes_are_fenced_and_reads_remain_read_only() {
    let expected = expected_lock(&repository(), &plan()).unwrap();
    assert_eq!(
        create_ruleset_command(&repository(), &expected).intent(),
        CommandIntent::ProviderWrite
    );
    assert_eq!(
        delete_ruleset_command(&repository(), 42).intent(),
        CommandIntent::ProviderWrite
    );
    assert_eq!(
        list_rulesets_command(&repository()).intent(),
        CommandIntent::Read
    );
    assert_eq!(
        read_ruleset_command(&repository(), 42).intent(),
        CommandIntent::Read
    );
}

#[test]
fn bypass_or_extra_rules_are_rejected() {
    let plan = plan();
    let lock = observed(&plan);
    let json = ruleset_text(&lock, "n", r#"[{"actor_id":1}]"#, "always", "a", "b");
    let adapter = GitHubMutationAdapter::new(FakeRunner::new(vec![
        (
            list_rulesets_command(&repository()),
            success(summary_json(&lock)),
        ),
        (
            read_ruleset_command(&repository(), lock.id),
            success(json),
        ),
    ]));
    assert!(
        matches!(adapter.native_stack_branch_lock_acquire(&repository(), &plan), Err(GitHubStackBranchLockError::InvalidPlan { code, .. }) if code == "github_stack_lock_bypass_detected")
    );
    adapter.runner.assert_exhausted();
}

#[test]
fn a_full_page_without_the_name_is_no_complete_inventory() {
    let row = r#"{"id":1,"name":"other"}"#;
    let page = format!("[{}]", vec![row; 100].join(","));
    let adapter = GitHubMutationAdapter::new(FakeRunner::new(vec![(
        list_rulesets_command(&repository()),
        success(page),
    )]));
    assert!(matches!(
        adapter.native_stack_branch_lock_acquire(&repository(), &plan()),
        Err(GitHubStackBranchLockError::InventoryTruncated)
    ));
    adapter.runner.assert_exhausted();
}

#[test]
fn a_lock_that_was_created_and_is_not_found_fails_its_postcondition() {
    let plan = plan();
    let expected = expected_lock(&repository(), &plan).unwrap();
    let adapter = GitHubMutationAdapter::new(FakeRunner::new(vec![
        (list_rulesets_command(&repository()), success("[]")),
        (
            create_ruleset_command(&repository(), &expected),
            success_headers(),
        ),
        (list_rulesets_command(&repository()), success("[]")),
    ]));
    assert!(matches!(
        adapter.native_stack_branch_lock_acquire(&repository(), &plan),
        Err(GitHubStackBranchLockError::PostconditionFailed { .. })
    ));
    adapter.runner.assert_exhausted();
}

#[test]
fn a_refused_creation_without_a_lock_stays_ambiguous() {
    let plan = plan();
    let expected = expected_lock(&repository(), &plan).unwrap();
    let adapter = GitHubMutationAdapter::new(FakeRunner::new(vec![
        (list_rulesets_command(&repository()), success("[]")),
        (
            create_ruleset_command(&repository(), &expected),
            not_found(),
        ),
        (list_rulesets_command(&repository()), success("[]")),
    ]));
    assert!(matches!(
        adapter.native_stack_branch_lock_acquire(&repository(), &plan),
        Err(GitHubStackBranchLockError::AmbiguousResponse { rediscovery_diagnostic: None, .. })
    ));
    adapter.runner.assert_exhausted();
}

#[test]
fn a_failed_listing_is_a_provider_error() {
    let adapter = GitHubMutationAdapter::new(FakeRunner::new(vec![(
        list_rulesets_command(&repository()),
        not_found(),
    )]));
    assert!(matches!(
        adapter.native_stack_branch_lock_acquire(&repository(), &plan()),
        Err(GitHubStackBranchLockError::Provider(_))
    ));
}

#[test]
fn the_name_of_a_lock_depends_on_its_operation_alone() {
    let one = plan();
    let mut moved = one.clone();
    moved.selected[0].head.oid = CommitOid("moved".to_owned());
    let mut other = one.clone();
    other.operation_id = "op-other".to_owned();
    let name = |plan: &GitHubStackBranchLockPlan| expected_lock(&repository(), plan).unwrap().name;
    assert_eq!(name(&one), name(&moved));
    assert_ne!(name(&one), name(&other));
}
