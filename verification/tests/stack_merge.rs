//! The asynchronous merge of a stack prefix.

use std::cell::RefCell;
use std::collections::VecDeque;

use caravan::command::{
    send, CommandIntent, CommandOutput, CommandRunError, CommandRunner, CommandSpec,
};
use caravan::github::commands::{default_branch_command, pull_request_command};
use caravan::github::stack::{native_stack_base_ref_command, native_stack_read_command};
use caravan::github::stack_merge::{
    merge_request_identity, native_stack_merge_poll_command, native_stack_merge_submit_command,
    stack_merge_api_command, validate_checkpoint, validate_merge_plan, MergeEvent,
    MergeSubmission, STACK_MERGE_SCHEMA_VERSION,
};
use caravan::github::{
    plan_github_stack_ready_prefix, GitHubMutationAdapter, GitHubStackAsyncMergePlan,
    GitHubStackEntryGeneration, GitHubStackGeneration, GitHubStackMergeBlocker,
    GitHubStackMergeCheckpoint, GitHubStackMergeEntryEvidence, GitHubStackMergeError,
    GitHubStackMergeStatus, GitHubStackTopology,
};
use caravan::model::{BranchSnapshot, CommitOid, PrNumber, PullRequestState, RepositoryId};

fn success(text: impl Into<String>) -> CommandOutput {
    CommandOutput::success(text.into())
}

struct FakeRunner {
    calls: RefCell<VecDeque<(CommandSpec, Result<CommandOutput, CommandRunError>)>>,
}

impl FakeRunner {
    fn new(calls: Vec<(CommandSpec, CommandOutput)>) -> Self {
        Self::with_results(
            calls
                .into_iter()
                .map(|(command, output)| (command, Ok(output)))
                .collect(),
        )
    }

    fn with_results(calls: Vec<(CommandSpec, Result<CommandOutput, CommandRunError>)>) -> Self {
        Self {
            calls: RefCell::new(calls.into()),
        }
    }

    fn assert_exhausted(&self) {
        assert!(self.calls.borrow().is_empty(), "not all calls were used");
    }
}

impl CommandRunner for FakeRunner {
    fn run(&self, command: &CommandSpec) -> Result<CommandOutput, CommandRunError> {
        let (expected, result) = self
            .calls
            .borrow_mut()
            .pop_front()
            .expect("unexpected provider command");
        assert_eq!(expected, *command);
        result
    }
}

fn repository() -> RepositoryId {
    RepositoryId {
        owner: "acme".to_owned(),
        name: "widgets".to_owned(),
    }
}

fn branch(name: &str, oid: &str) -> BranchSnapshot {
    BranchSnapshot {
        repository: repository(),
        name: name.to_owned(),
        oid: CommitOid(oid.to_owned()),
    }
}

fn generation() -> GitHubStackGeneration {
    let base = branch("main", "base000");
    let root = GitHubStackEntryGeneration {
        position: 0,
        pr: PrNumber(101),
        stack_state: "open".to_owned(),
        pull_request_state: PullRequestState::Open,
        draft: false,
        merged_at: None,
        base: base.clone(),
        head: branch("root", "aaa111"),
    };
    let child = GitHubStackEntryGeneration {
        position: 1,
        pr: PrNumber(102),
        stack_state: "open".to_owned(),
        pull_request_state: PullRequestState::Open,
        draft: false,
        merged_at: None,
        base: root.head.clone(),
        head: branch("child", "bbb222"),
    };
    GitHubStackGeneration {
        id: 9,
        number: 42,
        node_id: "S_stack".to_owned(),
        open: true,
        created_at: "2026-07-31T10:00:00Z".to_owned(),
        topology: GitHubStackTopology {
            base,
            entries: vec![root, child],
        },
    }
}

fn ready_evidence(stack: &GitHubStackGeneration) -> Vec<GitHubStackMergeEntryEvidence> {
    stack
        .topology
        .entries
        .iter()
        .cloned()
        .map(|generation| GitHubStackMergeEntryEvidence {
            generation,
            blockers: Vec::new(),
        })
        .collect()
}

fn optional(value: &Option<String>) -> String {
    match value {
        Some(text) => format!("\"{text}\""),
        None => "null".to_owned(),
    }
}

fn stack_text(
    id: u64,
    number: u64,
    node_id: &str,
    open: bool,
    created_at: &str,
    topology: &GitHubStackTopology,
) -> String {
    let base = &topology.base.name;
    let rows: Vec<String> = topology
        .entries
        .iter()
        .map(|entry| {
            let pr = entry.pr.0;
            let state = &entry.stack_state;
            let draft = entry.draft;
            let merged_at = optional(&entry.merged_at);
            let head = &entry.head.name;
            let sha = &entry.head.oid.0;
            format!(
                r#"{{"number":{pr},"state":"{state}","draft":{draft},"merged_at":{merged_at},"head":{{"ref":"{head}","sha":"{sha}"}}}}"#
            )
        })
        .collect();
    let rows = rows.join(",");
    format!(
        r#"{{"id":{id},"number":{number},"node_id":"{node_id}","base":{{"ref":"{base}"}},"open":{open},"created_at":"{created_at}","pull_requests":[{rows}]}}"#
    )
}

fn stack_snapshot_json(stack: &GitHubStackGeneration) -> String {
    stack_text(
        stack.id,
        stack.number,
        &stack.node_id,
        stack.open,
        &stack.created_at,
        &stack.topology,
    )
}

fn ref_json(oid: &str) -> String {
    format!(r#"{{"object":{{"sha":"{oid}"}}}}"#)
}

fn pull_request_json(entry: &GitHubStackEntryGeneration) -> String {
    let number = entry.pr.0;
    let state = match entry.pull_request_state {
        PullRequestState::Open => "OPEN",
        PullRequestState::Closed => "CLOSED",
        PullRequestState::Merged => "MERGED",
    };
    let draft = entry.draft;
    let head = &entry.head.name;
    let head_oid = &entry.head.oid.0;
    let base = &entry.base.name;
    let base_oid = &entry.base.oid.0;
    let merged_at = optional(&entry.merged_at);
    format!(
        r#"{{"number":{number},"title":"PR {number}","body":"","state":"{state}","isDraft":{draft},"headRefName":"{head}","headRefOid":"{head_oid}","headRepository":{{"name":"widgets","nameWithOwner":"acme/widgets"}},"headRepositoryOwner":{{"login":"acme"}},"isCrossRepository":false,"baseRefName":"{base}","baseRefOid":"{base_oid}","labels":[],"autoMergeRequest":null,"statusCheckRollup":[],"createdAt":"2026-07-31T09:00:00Z","mergedAt":{merged_at},"url":"https://github.com/acme/widgets/pull/{number}","updatedAt":"2026-07-31T10:00:00Z","mergeStateStatus":"CLEAN"}}"#
    )
}

fn direct_generation_calls(stack: &GitHubStackGeneration) -> Vec<(CommandSpec, CommandOutput)> {
    let mut calls = vec![(
        native_stack_read_command(&repository(), stack.number),
        success(stack_snapshot_json(stack)),
    )];
    calls.push((
        native_stack_base_ref_command(
            &repository(),
            &stack.topology.base.name,
        ),
        success(ref_json(&stack.topology.base.oid.0)),
    ));
    calls.extend(stack.topology.entries.iter().map(|entry| {
        (
            pull_request_command(&repository(), entry.pr.to_text().as_str()),
            success(pull_request_json(entry)),
        )
    }));
    calls
}

fn merge_observation_calls(
    stack_after: &GitHubStackGeneration,
    default_oid: &str,
) -> Vec<(CommandSpec, CommandOutput)> {
    let mut calls = vec![(
        default_branch_command(&repository().slug(), &stack_after.topology.base.name),
        success(ref_json(default_oid)),
    )];
    calls.extend(stack_after.topology.entries.iter().map(|entry| {
        (
            pull_request_command(&repository(), entry.pr.to_text().as_str()),
            success(pull_request_json(entry)),
        )
    }));
    calls.extend(direct_generation_calls(stack_after));
    calls
}

fn direct_plan(stack: &GitHubStackGeneration) -> GitHubStackAsyncMergePlan {
    plan_github_stack_ready_prefix(stack, &ready_evidence(stack))
        .unwrap()
        .direct_squash_plan("op-1", "cara")
        .unwrap()
}

fn checkpoint(plan: GitHubStackAsyncMergePlan) -> GitHubStackMergeCheckpoint {
    let request = merge_request_identity(&repository(), &plan);
    GitHubStackMergeCheckpoint {
        schema_version: STACK_MERGE_SCHEMA_VERSION,
        repository: repository(),
        plan,
        request,
        uuid: "merge-uuid".to_owned(),
        initial_provider_status: "pending".to_owned(),
        evidence_hash: String::new(),
    }
    .seal()
}

fn terminal_stack(
    mut stack: GitHubStackGeneration,
    merged_count: usize,
) -> GitHubStackGeneration {
    for entry in stack.topology.entries.iter_mut().take(merged_count) {
        entry.stack_state = "merged".to_owned();
        entry.pull_request_state = PullRequestState::Merged;
        entry.merged_at = Some("2026-07-31T11:00:00Z".to_owned());
    }
    if merged_count == stack.topology.entries.len() {
        stack.open = false;
    }
    stack
}

#[test]
fn planner_selects_only_the_maximal_contiguous_ready_prefix() {
    let stack = generation();
    let mut evidence = ready_evidence(&stack);
    evidence[1].blockers = vec![
        GitHubStackMergeBlocker::RequiredChecksNotReady,
        GitHubStackMergeBlocker::ForceUnsupported,
    ];

    let selected = plan_github_stack_ready_prefix(&stack, &evidence).unwrap();

    assert_eq!(selected.selected, stack.topology.entries[..1]);
    assert_eq!(
        selected.first_blocked.unwrap().blockers,
        vec![
            GitHubStackMergeBlocker::RequiredChecksNotReady,
            GitHubStackMergeBlocker::ForceUnsupported
        ]
    );
}

#[test]
fn planner_rejects_stale_or_partial_policy_evidence() {
    let stack = generation();
    let evidence = ready_evidence(&stack);
    assert!(matches!(
        plan_github_stack_ready_prefix(&stack, &evidence[..1].to_vec()),
        Err(GitHubStackMergeError::InvalidPlan { code, .. })
            if code == "github_stack_merge_evidence_incomplete"
    ));
    let mut stale = evidence;
    stale[0].generation.head.oid = CommitOid("moved".to_owned());
    assert!(matches!(
        plan_github_stack_ready_prefix(&stack, &stale),
        Err(GitHubStackMergeError::InvalidPlan { code, .. })
            if code == "github_stack_merge_evidence_stale"
    ));
}

#[test]
fn submit_binds_every_head_but_sends_only_documented_top_sha() {
    let stack = generation();
    let prefix = plan_github_stack_ready_prefix(&stack, &ready_evidence(&stack)).unwrap();
    let plan = prefix.direct_squash_plan("op-1", "cara").unwrap();
    let mut calls = direct_generation_calls(&stack);
    calls.push((
        native_stack_merge_submit_command(&repository(), &plan),
        success(
            "HTTP/2 202 Accepted\nx-github-request-id: REQ-7\n\n{\"uuid\":\"merge-uuid\",\"status\":\"pending\",\"details\":{\"message\":\"in progress\"}}",
        ),
    ));
    let adapter = GitHubMutationAdapter::new(FakeRunner::new(calls));

    let receipt = adapter
        .native_stack_merge_submit(&repository(), &plan)
        .unwrap();

    assert_eq!(receipt.status, GitHubStackMergeStatus::Submitted);
    assert_eq!(receipt.request.selected_top, PrNumber(102));
    assert_eq!(
        receipt.request.selected_top_sha,
        CommitOid("bbb222".to_owned())
    );
    assert_eq!(
        receipt.request.ordered_heads,
        vec![
            CommitOid("aaa111".to_owned()),
            CommitOid("bbb222".to_owned())
        ]
    );
    let checkpoint = receipt.checkpoint.as_ref().unwrap();
    assert_eq!(checkpoint.uuid, "merge-uuid");
    assert!(checkpoint.verify());
    assert!(receipt.verify());
    adapter.runner.assert_exhausted();
}

#[test]
fn exact_conflict_response_recovers_existing_uuid_without_another_write() {
    let stack = generation();
    let plan = direct_plan(&stack);
    let mut calls = direct_generation_calls(&stack);
    calls.push((
        native_stack_merge_submit_command(&repository(), &plan),
        CommandOutput {
            code: Some(1),
            stdout: "HTTP/2 409 Conflict\nx-github-request-id: REQ-CONFLICT\n\n{\"status\":\"pending\",\"details\":{\"message\":\"A merge request already exists for this pull request.\",\"uuid\":\"existing-uuid\",\"merge_method\":\"squash\",\"merge_action\":\"direct_merge\",\"expected_head_sha\":\"bbb222\"}}".to_owned(),
            stderr: "gh: HTTP 409".to_owned(),
        },
    ));
    let adapter = GitHubMutationAdapter::new(FakeRunner::new(calls));

    let receipt = adapter
        .native_stack_merge_submit(&repository(), &plan)
        .unwrap();

    assert_eq!(receipt.status, GitHubStackMergeStatus::Submitted);
    assert_eq!(receipt.checkpoint.as_ref().unwrap().uuid, "existing-uuid");
    assert_eq!(
        receipt.request.github_request_id.as_deref(),
        Some("REQ-CONFLICT")
    );
    assert!(receipt.verify());
    adapter.runner.assert_exhausted();
}

#[test]
fn poll_pending_is_one_bounded_get_and_retains_checkpoint() {
    let stack = generation();
    let prefix = plan_github_stack_ready_prefix(&stack, &ready_evidence(&stack)).unwrap();
    let plan = prefix.direct_squash_plan("op-1", "cara").unwrap();
    let request = merge_request_identity(&repository(), &plan);
    let checkpoint = GitHubStackMergeCheckpoint {
        schema_version: STACK_MERGE_SCHEMA_VERSION,
        repository: repository(),
        plan,
        request,
        uuid: "merge-uuid".to_owned(),
        initial_provider_status: "pending".to_owned(),
        evidence_hash: String::new(),
    }
    .seal();
    let runner = FakeRunner::new(vec![(
        native_stack_merge_poll_command(&repository(), &checkpoint),
        success(
            "HTTP/2 200 OK\n\n{\"uuid\":\"merge-uuid\",\"status\":\"pending\"}",
        ),
    )]);
    let adapter = GitHubMutationAdapter::new(runner);

    let receipt = adapter
        .native_stack_merge_poll(&repository(), &checkpoint)
        .unwrap();

    assert_eq!(receipt.status, GitHubStackMergeStatus::Pending);
    assert_eq!(receipt.checkpoint, Some(checkpoint));
    assert!(receipt.verify());
    adapter.runner.assert_exhausted();
}

#[test]
fn lower_entry_movement_before_submit_refuses_without_a_put() {
    let before = generation();
    let plan = direct_plan(&before);
    let mut moved = before.clone();
    moved.topology.entries[0].head.oid = CommitOid("moved111".to_owned());
    moved.topology.entries[1].base.oid = CommitOid("moved111".to_owned());
    let adapter = GitHubMutationAdapter::new(FakeRunner::new(direct_generation_calls(&moved)));

    let result = adapter.native_stack_merge_submit(&repository(), &plan);

    assert!(matches!(
        result,
        Err(GitHubStackMergeError::StaleGeneration { actual: Some(actual), .. })
            if *actual == moved
    ));
    adapter.runner.assert_exhausted();
}

#[test]
fn submit_timeout_without_uuid_is_indeterminate_and_never_retried() {
    let stack = generation();
    let plan = direct_plan(&stack);
    let submit = native_stack_merge_submit_command(&repository(), &plan);
    let mut calls = direct_generation_calls(&stack)
        .into_iter()
        .map(|(command, output)| (command, Ok(output)))
        .collect::<Vec<_>>();
    calls.push((
        submit.clone(),
        Err(CommandRunError::Timeout {
            command: submit,
            process_group_id: Some(44),
            timeout_ms: 30_000,
            stdout: String::new(),
            stderr: String::new(),
        }),
    ));
    calls.extend(
        merge_observation_calls(&stack, "base000")
            .into_iter()
            .map(|(command, output)| (command, Ok(output))),
    );
    let adapter = GitHubMutationAdapter::new(FakeRunner::with_results(calls));

    let receipt = adapter
        .native_stack_merge_submit(&repository(), &plan)
        .unwrap();

    assert_eq!(receipt.status, GitHubStackMergeStatus::Indeterminate);
    assert!(receipt.checkpoint.is_none());
    assert_eq!(receipt.observation.as_ref().unwrap().selected_merged, 0);
    assert!(receipt.verify());
    adapter.runner.assert_exhausted();
}

#[test]
fn failed_poll_proves_no_selected_entry_merged() {
    let stack = generation();
    let checkpoint = checkpoint(direct_plan(&stack));
    let mut calls = vec![(
        native_stack_merge_poll_command(&repository(), &checkpoint),
        success(
            "HTTP/2 200 OK\n\n{\"uuid\":\"merge-uuid\",\"status\":\"failed\",\"details\":{\"message\":\"checks changed\"}}",
        ),
    )];
    calls.extend(merge_observation_calls(&stack, "base000"));
    let adapter = GitHubMutationAdapter::new(FakeRunner::new(calls));

    let receipt = adapter
        .native_stack_merge_poll(&repository(), &checkpoint)
        .unwrap();

    assert_eq!(receipt.status, GitHubStackMergeStatus::Failed);
    assert_eq!(receipt.observation.as_ref().unwrap().selected_merged, 0);
    assert!(receipt.verify());
    adapter.runner.assert_exhausted();
}

#[test]
fn merged_poll_requires_all_selected_entries_and_seals_provider_truth() {
    let before = generation();
    let checkpoint = checkpoint(direct_plan(&before));
    let after = terminal_stack(before, 2);
    let mut calls = vec![(
        native_stack_merge_poll_command(&repository(), &checkpoint),
        success(
            "HTTP/2 200 OK\n\n{\"uuid\":\"merge-uuid\",\"status\":\"merged\",\"details\":{\"sha\":\"merge999\",\"message\":\"merged\"}}",
        ),
    )];
    calls.extend(merge_observation_calls(&after, "merge999"));
    let adapter = GitHubMutationAdapter::new(FakeRunner::new(calls));

    let receipt = adapter
        .native_stack_merge_poll(&repository(), &checkpoint)
        .unwrap();

    assert_eq!(receipt.status, GitHubStackMergeStatus::Merged);
    assert_eq!(receipt.provider_sha, Some(CommitOid("merge999".to_owned())));
    assert_eq!(receipt.observation.as_ref().unwrap().selected_merged, 2);
    assert!(receipt.observation.as_ref().unwrap().remaining_order_exact);
    assert!(receipt.verify());
    adapter.runner.assert_exhausted();
}

#[test]
fn merged_provider_status_with_changed_lower_head_is_indeterminate() {
    let before = generation();
    let checkpoint = checkpoint(direct_plan(&before));
    let mut after = terminal_stack(before, 2);
    after.topology.entries[0].head.oid = CommitOid("rewound-root".to_owned());
    let mut calls = vec![(
        native_stack_merge_poll_command(&repository(), &checkpoint),
        success(
            "HTTP/2 200 OK\n\n{\"uuid\":\"merge-uuid\",\"status\":\"merged\",\"details\":{\"sha\":\"merge999\"}}",
        ),
    )];
    calls.extend(merge_observation_calls(&after, "merge999"));
    let adapter = GitHubMutationAdapter::new(FakeRunner::new(calls));

    let receipt = adapter
        .native_stack_merge_poll(&repository(), &checkpoint)
        .unwrap();

    assert_eq!(receipt.status, GitHubStackMergeStatus::Indeterminate);
    let observation = receipt.observation.as_ref().unwrap();
    assert_eq!(observation.selected_merged, 2);
    assert!(!observation.selected_heads_exact);
    assert_eq!(observation.changed_selected_heads, vec![PrNumber(101)]);
    assert!(receipt.verify());
    adapter.runner.assert_exhausted();
}

#[test]
fn partial_prefix_merge_accepts_retargeted_open_suffix() {
    let before = generation();
    let mut evidence = ready_evidence(&before);
    evidence[1].blockers = vec![GitHubStackMergeBlocker::RequiredChecksNotReady];
    let plan = plan_github_stack_ready_prefix(&before, &evidence)
        .unwrap()
        .direct_squash_plan("op-partial", "cara")
        .unwrap();
    let checkpoint = checkpoint(plan);
    let mut after = terminal_stack(before, 1);
    after.topology.base.oid = CommitOid("merge111".to_owned());
    after.topology.entries[1].base = after.topology.base.clone();
    after.topology.entries[1].head.oid = CommitOid("rebased222".to_owned());
    let mut calls = vec![(
        native_stack_merge_poll_command(&repository(), &checkpoint),
        success(
            "HTTP/2 200 OK\n\n{\"uuid\":\"merge-uuid\",\"status\":\"merged\",\"details\":{\"sha\":\"merge111\"}}",
        ),
    )];
    calls.extend(merge_observation_calls(&after, "merge111"));
    let adapter = GitHubMutationAdapter::new(FakeRunner::new(calls));

    let receipt = adapter
        .native_stack_merge_poll(&repository(), &checkpoint)
        .unwrap();

    assert_eq!(receipt.status, GitHubStackMergeStatus::Merged);
    let observation = receipt.observation.as_ref().unwrap();
    assert_eq!(observation.selected_merged, 1);
    assert!(observation.remaining_order_exact);
    assert_eq!(observation.remaining[0].base, observation.default_branch);
    assert!(receipt.verify());
    adapter.runner.assert_exhausted();
}

#[test]
fn impossible_partial_terminal_result_is_indeterminate() {
    let before = generation();
    let checkpoint = checkpoint(direct_plan(&before));
    let mut after = terminal_stack(before, 1);
    after.topology.base.oid = CommitOid("merge111".to_owned());
    after.topology.entries[1].base = after.topology.base.clone();
    after.topology.entries[1].head.oid = CommitOid("rebased222".to_owned());
    let mut calls = vec![(
        native_stack_merge_poll_command(&repository(), &checkpoint),
        success(
            "HTTP/2 200 OK\n\n{\"uuid\":\"merge-uuid\",\"status\":\"failed\",\"details\":{\"message\":\"partial\"}}",
        ),
    )];
    calls.extend(merge_observation_calls(&after, "merge111"));
    let adapter = GitHubMutationAdapter::new(FakeRunner::new(calls));

    let receipt = adapter
        .native_stack_merge_poll(&repository(), &checkpoint)
        .unwrap();

    assert_eq!(receipt.status, GitHubStackMergeStatus::Indeterminate);
    assert_eq!(receipt.observation.as_ref().unwrap().selected_merged, 1);
    assert!(receipt.verify());
    adapter.runner.assert_exhausted();
}

#[test]
fn stack_merge_tampered_checkpoint_is_rejected_before_provider_access() {
    let stack = generation();
    let mut checkpoint = checkpoint(direct_plan(&stack));
    checkpoint.uuid = "different".to_owned();
    let adapter = GitHubMutationAdapter::new(FakeRunner::new(Vec::new()));

    assert!(matches!(
        adapter.native_stack_merge_poll(&repository(), &checkpoint),
        Err(GitHubStackMergeError::InvalidCheckpoint { .. })
    ));
    adapter.runner.assert_exhausted();
}

#[test]
fn async_stack_put_is_marked_and_poll_get_remains_read_only() {
    let write = stack_merge_api_command("PUT", "repos/o/r/pulls/1/merge-async");
    assert_eq!(write.intent(), CommandIntent::ProviderWrite);
    assert_eq!(write.inferred_write_intent(), Some(write.intent()));
    let read = stack_merge_api_command("GET", "repos/o/r/pulls/1/merge-async/u");
    assert_eq!(read.intent(), CommandIntent::Read);
    assert_eq!(read.inferred_write_intent(), None);
}

#[test]
fn command_surface_never_invokes_local_gh_stack_state() {
    let stack = generation();
    let plan = plan_github_stack_ready_prefix(&stack, &ready_evidence(&stack))
        .unwrap()
        .direct_squash_plan("op", "cara")
        .unwrap();
    let request = merge_request_identity(&repository(), &plan);
    let checkpoint = GitHubStackMergeCheckpoint {
        schema_version: STACK_MERGE_SCHEMA_VERSION,
        repository: repository(),
        plan: plan.clone(),
        request,
        uuid: "uuid".to_owned(),
        initial_provider_status: "pending".to_owned(),
        evidence_hash: String::new(),
    }
    .seal();
    for command in [
        native_stack_merge_submit_command(&repository(), &plan),
        native_stack_merge_poll_command(&repository(), &checkpoint),
    ] {
        assert_eq!(command.program, "gh");
        assert_eq!(command.args.first().map(String::as_str), Some("api"));
        assert!(!command.args.iter().any(|arg| arg == "stack"));
        assert!(
            !command
                .args
                .iter()
                .any(|arg| matches!(arg.as_str(), "sync" | "rebase" | "link"))
        );
    }
}

#[test]
fn a_head_moved_plan_is_refused_before_provider_access() {
    let stack = generation();
    let mut plan = direct_plan(&stack);
    plan.selected[0].head.oid = CommitOid("moved".to_owned());
    let adapter = GitHubMutationAdapter::new(FakeRunner::new(Vec::new()));
    assert!(matches!(
        adapter.native_stack_merge_submit(&repository(), &plan),
        Err(GitHubStackMergeError::InvalidPlan { .. })
    ));
    adapter.runner.assert_exhausted();
}

#[test]
fn an_unavailable_stack_refuses_a_submission() {
    let stack = generation();
    let plan = direct_plan(&stack);
    let adapter = GitHubMutationAdapter::new(FakeRunner::new(vec![(
        native_stack_read_command(&repository(), stack.number),
        success("not-json"),
    )]));
    assert!(matches!(
        adapter.native_stack_merge_submit(&repository(), &plan),
        Err(GitHubStackMergeError::Stack(_))
    ));
    adapter.runner.assert_exhausted();
}

#[test]
fn a_ready_prefix_can_be_submitted_as_planned() {
    let stack = generation();
    let prefix = plan_github_stack_ready_prefix(&stack, &ready_evidence(&stack)).unwrap();
    assert_eq!(prefix.selected, stack.topology.entries);
    assert!(prefix.first_blocked.is_none());
    let plan = prefix.direct_squash_plan("op", "cara").unwrap();
    assert!(validate_merge_plan(&repository(), &plan).is_ok());
    let sealed = checkpoint(plan);
    assert!(validate_checkpoint(&repository(), &sealed).is_ok());
}

#[test]
fn a_failed_poll_after_everything_merged_is_indeterminate() {
    let before = generation();
    let checkpoint = checkpoint(direct_plan(&before));
    let after = terminal_stack(before, 2);
    let mut calls = vec![(
        native_stack_merge_poll_command(&repository(), &checkpoint),
        success(
            "HTTP/2 200 OK\n\n{\"uuid\":\"merge-uuid\",\"status\":\"failed\",\"details\":{\"sha\":\"merge999\"}}",
        ),
    )];
    calls.extend(merge_observation_calls(&after, "later111"));
    let adapter = GitHubMutationAdapter::new(FakeRunner::new(calls));

    let receipt = adapter
        .native_stack_merge_poll(&repository(), &checkpoint)
        .unwrap();

    assert_eq!(receipt.status, GitHubStackMergeStatus::Indeterminate);
    assert_eq!(receipt.observation.as_ref().unwrap().selected_merged, 2);
    assert!(receipt.verify());
    adapter.runner.assert_exhausted();
}

#[test]
fn a_submission_asks_for_its_write_in_one_step_only() {
    let stack = generation();
    let plan = direct_plan(&stack);
    let repository = repository();
    let reply = || {
        let command = native_stack_merge_submit_command(&repository, &plan);
        let runner = FakeRunner::new(vec![(
            command.clone(),
            success("HTTP/2 202 Accepted\n\n{\"uuid\":\"merge-uuid\",\"status\":\"pending\"}"),
        )]);
        MergeEvent::Answered(send(&runner, command))
    };

    let start = MergeSubmission::begin(&repository, &plan);
    assert!(start.request(&repository, &plan).is_none());
    let start = start.step(&repository, &plan, reply());
    assert!(matches!(start, MergeSubmission::Reading));

    let sending = start.step(&repository, &plan, MergeEvent::Read(Ok(Some(stack.clone()))));
    assert_eq!(
        sending.request(&repository, &plan),
        Some(native_stack_merge_submit_command(&repository, &plan))
    );

    let done = sending.step(&repository, &plan, reply());
    assert!(done.request(&repository, &plan).is_none());
    let done = done.step(&repository, &plan, MergeEvent::Read(Ok(Some(stack))));
    assert!(done.request(&repository, &plan).is_none());
    let done = done.step(&repository, &plan, reply());
    match done {
        MergeSubmission::Done { outcome } => {
            assert_eq!(outcome.unwrap().status, GitHubStackMergeStatus::Submitted);
        }
        _ => panic!("the submission is not over"),
    }

    let missing = MergeSubmission::begin(&repository, &plan);
    let refused = missing.step(&repository, &plan, MergeEvent::Read(Ok(None)));
    assert!(refused.request(&repository, &plan).is_none());
    assert!(matches!(
        refused,
        MergeSubmission::Done {
            outcome: Err(GitHubStackMergeError::StaleGeneration { .. })
        }
    ));
}
