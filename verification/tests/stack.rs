//! Native stacks: reads, and the create, add and unstack writes.

use std::cell::RefCell;
use std::collections::VecDeque;

use caravan::command::{
    CommandIntent, CommandOutput, CommandRunError, CommandRunner, CommandSpec,
};
use caravan::github::commands::pull_request_command;
use caravan::github::stack::{
    native_stack_add_command, native_stack_base_ref_command, native_stack_create_command,
    native_stack_list_command, native_stack_read_command, native_stack_unstack_command,
    stack_api_command, STACK_API_VERSION,
};
use caravan::github::{
    GitHubMutationAdapter, GitHubStackAddPlan, GitHubStackCreatePlan, GitHubStackEntryGeneration,
    GitHubStackGeneration, GitHubStackMutationDisposition, GitHubStackMutationError,
    GitHubStackTopology, GitHubStackUnstackPlan,
};
use caravan::model::{BranchSnapshot, CommitOid, PrNumber, PullRequestState, RepositoryId};

fn success(text: impl Into<String>) -> CommandOutput {
    CommandOutput::success(text.into())
}

fn failure(code: i32, text: &str) -> CommandOutput {
    CommandOutput::failure(code, text.to_owned())
}

struct FakeRunner {
    calls: RefCell<VecDeque<(CommandSpec, Result<CommandOutput, CommandRunError>)>>,
}

impl FakeRunner {
    fn new(calls: Vec<(CommandSpec, CommandOutput)>) -> Self {
        Self::with_results(
            calls
                .into_iter()
                .map(|(command, output)| (command, Ok(output)))
                .collect(),
        )
    }

    fn with_results(calls: Vec<(CommandSpec, Result<CommandOutput, CommandRunError>)>) -> Self {
        Self {
            calls: RefCell::new(calls.into()),
        }
    }

    fn assert_exhausted(&self) {
        assert!(self.calls.borrow().is_empty(), "not all calls were used");
    }
}

impl CommandRunner for FakeRunner {
    fn run(&self, command: &CommandSpec) -> Result<CommandOutput, CommandRunError> {
        let (expected, output) = self
            .calls
            .borrow_mut()
            .pop_front()
            .expect("unexpected provider command");
        assert_eq!(expected, *command);
        output
    }
}

fn repository() -> RepositoryId {
    RepositoryId {
        owner: "acme".to_owned(),
        name: "widgets".to_owned(),
    }
}

fn branch(name: &str, oid: &str) -> BranchSnapshot {
    BranchSnapshot {
        repository: repository(),
        name: name.to_owned(),
        oid: CommitOid(oid.to_owned()),
    }
}

fn topology(entry_count: usize) -> GitHubStackTopology {
    let names = ["root", "child", "tail"];
    let oids = ["aaa111", "bbb222", "ccc333"];
    let mut entries: Vec<GitHubStackEntryGeneration> = Vec::new();
    let base = branch("main", "base000");
    for position in 0..entry_count {
        let entry_base = if position == 0 {
            base.clone()
        } else {
            entries[position - 1].head.clone()
        };
        entries.push(GitHubStackEntryGeneration {
            position: u32::try_from(position).unwrap(),
            pr: PrNumber(101 + u64::try_from(position).unwrap()),
            stack_state: "open".to_owned(),
            pull_request_state: PullRequestState::Open,
            draft: false,
            merged_at: None,
            base: entry_base,
            head: branch(names[position], oids[position]),
        });
    }
    GitHubStackTopology { base, entries }
}

fn generation(topology: GitHubStackTopology) -> GitHubStackGeneration {
    GitHubStackGeneration {
        id: 9_876_543,
        number: 42,
        node_id: "S_stack".to_owned(),
        open: true,
        created_at: "2026-07-31T10:00:00Z".to_owned(),
        topology,
    }
}

fn optional(value: &Option<String>) -> String {
    match value {
        Some(text) => format!("\"{text}\""),
        None => "null".to_owned(),
    }
}

fn stack_text(
    id: u64,
    number: u64,
    node_id: &str,
    open: bool,
    created_at: &str,
    topology: &GitHubStackTopology,
) -> String {
    let base = &topology.base.name;
    let rows: Vec<String> = topology
        .entries
        .iter()
        .map(|entry| {
            let pr = entry.pr.0;
            let state = &entry.stack_state;
            let draft = entry.draft;
            let merged_at = optional(&entry.merged_at);
            let head = &entry.head.name;
            let sha = &entry.head.oid.0;
            format!(
                r#"{{"number":{pr},"state":"{state}","draft":{draft},"merged_at":{merged_at},"head":{{"ref":"{head}","sha":"{sha}"}}}}"#
            )
        })
        .collect();
    let rows = rows.join(",");
    format!(
        r#"{{"id":{id},"number":{number},"node_id":"{node_id}","base":{{"ref":"{base}"}},"open":{open},"created_at":"{created_at}","pull_requests":[{rows}]}}"#
    )
}

fn stack_json(topology: &GitHubStackTopology) -> String {
    stack_text(9_876_543, 42, "S_stack", true, "2026-07-31T10:00:00Z", topology)
}

fn inventory_json(topologies: &[GitHubStackTopology]) -> String {
    let rows: Vec<String> = topologies.iter().map(stack_json).collect();
    format!("[{}]", rows.join(","))
}

fn pull_request_json(entry: &GitHubStackEntryGeneration) -> String {
    let number = entry.pr.0;
    let state = match entry.pull_request_state {
        PullRequestState::Open => "OPEN",
        PullRequestState::Closed => "CLOSED",
        PullRequestState::Merged => "MERGED",
    };
    let draft = entry.draft;
    let head = &entry.head.name;
    let head_oid = &entry.head.oid.0;
    let base = &entry.base.name;
    let base_oid = &entry.base.oid.0;
    let merged_at = optional(&entry.merged_at);
    format!(
        r#"{{"number":{number},"title":"PR {number}","body":"","state":"{state}","isDraft":{draft},"headRefName":"{head}","headRefOid":"{head_oid}","headRepository":{{"name":"widgets","nameWithOwner":"acme/widgets"}},"headRepositoryOwner":{{"login":"acme"}},"isCrossRepository":false,"baseRefName":"{base}","baseRefOid":"{base_oid}","labels":[],"autoMergeRequest":null,"statusCheckRollup":[],"createdAt":"2026-07-31T09:00:00Z","mergedAt":{merged_at},"url":"https://github.com/acme/widgets/pull/{number}","updatedAt":"2026-07-31T10:00:00Z","mergeStateStatus":"CLEAN"}}"#
    )
}

fn inventory_call(topologies: &[GitHubStackTopology]) -> (CommandSpec, CommandOutput) {
    (
        native_stack_list_command(&repository()),
        success(inventory_json(topologies)),
    )
}

fn generation_observation_calls(
    topology: &GitHubStackTopology,
) -> Vec<(CommandSpec, CommandOutput)> {
    let mut calls = vec![(
        native_stack_base_ref_command(&repository(), &topology.base.name),
        success(format!(r#"{{"object":{{"sha":"{}"}}}}"#, topology.base.oid.0)),
    )];
    calls.extend(topology.entries.iter().map(|entry| {
        (
            pull_request_command(&repository(), entry.pr.to_text().as_str()),
            success(pull_request_json(entry)),
        )
    }));
    calls
}

fn direct_generation_calls(
    topology: &GitHubStackTopology,
) -> Vec<(CommandSpec, CommandOutput)> {
    let mut calls = vec![(
        native_stack_read_command(&repository(), 42),
        success(stack_json(topology)),
    )];
    calls.extend(generation_observation_calls(topology));
    calls
}

fn fresh_topology_calls(topology: &GitHubStackTopology) -> Vec<(CommandSpec, CommandOutput)> {
    generation_observation_calls(topology)
}

fn success_with_request_id() -> CommandOutput {
    success(
        "HTTP/2 201 Created\nx-github-request-id: REQ-123\ncontent-type: application/json\n\n{}",
    )
}

fn successful_results(
    calls: Vec<(CommandSpec, CommandOutput)>,
) -> Vec<(CommandSpec, Result<CommandOutput, CommandRunError>)> {
    calls
        .into_iter()
        .map(|(command, output)| (command, Ok(output)))
        .collect()
}

#[test]
fn direct_read_binds_stack_base_and_every_pr_base_and_head() {
    let expected = topology(2);
    let runner = FakeRunner::new(direct_generation_calls(&expected));
    let adapter = GitHubMutationAdapter::new(runner);

    let observed = adapter
        .native_stack_generation(&repository(), 42)
        .unwrap()
        .unwrap();

    assert_eq!(observed, generation(expected));
    adapter.runner.assert_exhausted();
}

#[test]
fn create_posts_only_documented_rest_body_and_seals_exact_postcondition() {
    let desired = topology(2);
    let mut calls = vec![inventory_call(&[])];
    calls.extend(fresh_topology_calls(&desired));
    calls.push((
        native_stack_create_command(&repository(), &desired),
        success_with_request_id(),
    ));
    calls.push(inventory_call(std::slice::from_ref(&desired)));
    calls.extend(generation_observation_calls(&desired));
    let runner = FakeRunner::new(calls);
    let adapter = GitHubMutationAdapter::new(runner);
    let plan = GitHubStackCreatePlan {
        operation_id: "op-create".to_owned(),
        actor: "cara".to_owned(),
        desired: desired.clone(),
    };

    let receipt = adapter.native_stack_create(&repository(), &plan).unwrap();

    assert_eq!(
        receipt.disposition,
        GitHubStackMutationDisposition::Completed
    );
    assert_eq!(
        receipt.request.ordered_pull_requests,
        [PrNumber(101), PrNumber(102)]
    );
    assert_eq!(
        receipt.request.github_request_id.as_deref(),
        Some("REQ-123")
    );
    assert_eq!(receipt.after.as_ref().unwrap(), &generation(desired));
    assert!(receipt.verify());
    adapter.runner.assert_exhausted();
}

#[test]
fn create_rediscovery_recovers_an_ambiguous_provider_response() {
    let desired = topology(2);
    let mut calls = vec![inventory_call(&[])];
    calls.extend(fresh_topology_calls(&desired));
    calls.push((
        native_stack_create_command(&repository(), &desired),
        failure(1, "gh: upstream response lost (HTTP 502)"),
    ));
    calls.push(inventory_call(std::slice::from_ref(&desired)));
    calls.extend(generation_observation_calls(&desired));
    let adapter = GitHubMutationAdapter::new(FakeRunner::new(calls));
    let plan = GitHubStackCreatePlan {
        operation_id: "op-create-recover".to_owned(),
        actor: "cara".to_owned(),
        desired,
    };

    let receipt = adapter.native_stack_create(&repository(), &plan).unwrap();

    assert_eq!(
        receipt.disposition,
        GitHubStackMutationDisposition::RecoveredAfterAmbiguousResponse
    );
    assert!(receipt.verify());
    adapter.runner.assert_exhausted();
}

#[test]
fn create_rediscovery_recovers_a_transport_timeout() {
    let desired = topology(2);
    let mut calls = successful_results(vec![inventory_call(&[])]);
    calls.extend(successful_results(fresh_topology_calls(&desired)));
    let command = native_stack_create_command(&repository(), &desired);
    calls.push((
        command.clone(),
        Err(CommandRunError::Timeout {
            command,
            process_group_id: Some(1234),
            timeout_ms: 30_000,
            stdout: String::new(),
            stderr: String::new(),
        }),
    ));
    calls.extend(successful_results(vec![inventory_call(
        std::slice::from_ref(&desired),
    )]));
    calls.extend(successful_results(generation_observation_calls(&desired)));
    let adapter = GitHubMutationAdapter::new(FakeRunner::with_results(calls));
    let plan = GitHubStackCreatePlan {
        operation_id: "op-create-timeout".to_owned(),
        actor: "cara".to_owned(),
        desired,
    };

    let receipt = adapter.native_stack_create(&repository(), &plan).unwrap();

    assert_eq!(
        receipt.disposition,
        GitHubStackMutationDisposition::RecoveredAfterAmbiguousResponse
    );
    assert!(receipt.verify());
    adapter.runner.assert_exhausted();
}

#[test]
fn exact_create_retry_is_zero_write() {
    let desired = topology(2);
    let mut calls = vec![inventory_call(std::slice::from_ref(&desired))];
    calls.extend(generation_observation_calls(&desired));
    let adapter = GitHubMutationAdapter::new(FakeRunner::new(calls));
    let plan = GitHubStackCreatePlan {
        operation_id: "op-create-retry".to_owned(),
        actor: "cara".to_owned(),
        desired,
    };

    let receipt = adapter.native_stack_create(&repository(), &plan).unwrap();

    assert_eq!(
        receipt.disposition,
        GitHubStackMutationDisposition::AlreadySatisfied
    );
    assert_eq!(receipt.before, receipt.after);
    adapter.runner.assert_exhausted();
}

#[test]
fn capability_404_and_rate_failure_are_distinct_and_zero_write() {
    let unavailable = GitHubMutationAdapter::new(FakeRunner::new(vec![(
        native_stack_list_command(&repository()),
        failure(1, "gh: Not Found (HTTP 404)"),
    )]));
    let plan = GitHubStackCreatePlan {
        operation_id: "op".to_owned(),
        actor: "cara".to_owned(),
        desired: topology(2),
    };
    assert!(matches!(
        unavailable.native_stack_create(&repository(), &plan),
        Err(GitHubStackMutationError::Unavailable { .. })
    ));
    unavailable.runner.assert_exhausted();

    let unknown = GitHubMutationAdapter::new(FakeRunner::new(vec![(
        native_stack_list_command(&repository()),
        failure(1, "gh: rate limit exceeded (HTTP 403)"),
    )]));
    assert!(matches!(
        unknown.native_stack_create(&repository(), &plan),
        Err(GitHubStackMutationError::CapabilityUnknown { .. })
    ));
    unknown.runner.assert_exhausted();
}

#[test]
fn add_requires_exact_before_rechecks_lease_and_appends_only_suffix() {
    let before_topology = topology(2);
    let desired = topology(3);
    let before = generation(before_topology.clone());
    let plan = GitHubStackAddPlan {
        operation_id: "op-add".to_owned(),
        actor: "cara".to_owned(),
        before: before.clone(),
        desired: desired.clone(),
    };
    let mut calls = direct_generation_calls(&before_topology);
    calls.extend(fresh_topology_calls(&desired));
    calls.extend(direct_generation_calls(&before_topology));
    calls.push((
        native_stack_add_command(&repository(), &plan),
        success_with_request_id(),
    ));
    calls.extend(direct_generation_calls(&desired));
    let adapter = GitHubMutationAdapter::new(FakeRunner::new(calls));

    let receipt = adapter.native_stack_add(&repository(), &plan).unwrap();

    assert_eq!(
        receipt.disposition,
        GitHubStackMutationDisposition::Completed
    );
    assert_eq!(receipt.before, Some(before));
    assert_eq!(receipt.after, Some(generation(desired)));
    assert_eq!(receipt.request.ordered_pull_requests, [PrNumber(103)]);
    assert!(receipt.verify());
    adapter.runner.assert_exhausted();
}

#[test]
fn exact_add_retry_is_zero_write_on_the_desired_generation() {
    let before_topology = topology(2);
    let desired = topology(3);
    let calls = direct_generation_calls(&desired);
    let adapter = GitHubMutationAdapter::new(FakeRunner::new(calls));
    let plan = GitHubStackAddPlan {
        operation_id: "op-add-retry".to_owned(),
        actor: "cara".to_owned(),
        before: generation(before_topology),
        desired: desired.clone(),
    };

    let receipt = adapter.native_stack_add(&repository(), &plan).unwrap();

    assert_eq!(
        receipt.disposition,
        GitHubStackMutationDisposition::AlreadySatisfied
    );
    assert_eq!(receipt.after, Some(generation(desired)));
    adapter.runner.assert_exhausted();
}

#[test]
fn add_refuses_non_append_plan_before_provider_access() {
    let before_topology = topology(2);
    let mut desired = topology(3);
    desired.entries.swap(0, 1);
    let adapter = GitHubMutationAdapter::new(FakeRunner::new(Vec::new()));
    let error = adapter
        .native_stack_add(
            &repository(),
            &GitHubStackAddPlan {
                operation_id: "op-add-invalid".to_owned(),
                actor: "cara".to_owned(),
                before: generation(before_topology),
                desired,
            },
        )
        .unwrap_err();

    assert!(matches!(
        error,
        GitHubStackMutationError::InvalidPlan { .. }
    ));
    adapter.runner.assert_exhausted();
}

#[test]
fn unstack_recovers_lost_response_only_after_absence_and_capability_proof() {
    let before_topology = topology(2);
    let before = generation(before_topology.clone());
    let plan = GitHubStackUnstackPlan {
        operation_id: "op-unstack".to_owned(),
        actor: "cara".to_owned(),
        before: before.clone(),
        desired_after: None,
    };
    let mut calls = direct_generation_calls(&before_topology);
    calls.push((
        native_stack_unstack_command(&repository(), 42),
        failure(1, "gh: response lost (HTTP 502)"),
    ));
    calls.push((
        native_stack_read_command(&repository(), 42),
        failure(1, "gh: Not Found (HTTP 404)"),
    ));
    calls.push(inventory_call(&[]));
    let adapter = GitHubMutationAdapter::new(FakeRunner::new(calls));

    let receipt = adapter.native_stack_unstack(&repository(), &plan).unwrap();

    assert_eq!(
        receipt.disposition,
        GitHubStackMutationDisposition::RecoveredAfterAmbiguousResponse
    );
    assert_eq!(receipt.before, Some(before));
    assert_eq!(receipt.after, None);
    assert!(receipt.verify());
    adapter.runner.assert_exhausted();
}

#[test]
fn exact_unstack_retry_proves_absence_without_an_unstack_write() {
    let before = generation(topology(2));
    let adapter = GitHubMutationAdapter::new(FakeRunner::new(vec![
        (
            native_stack_read_command(&repository(), 42),
            failure(1, "gh: Not Found (HTTP 404)"),
        ),
        inventory_call(&[]),
    ]));
    let plan = GitHubStackUnstackPlan {
        operation_id: "op-unstack-retry".to_owned(),
        actor: "cara".to_owned(),
        before,
        desired_after: None,
    };

    let receipt = adapter.native_stack_unstack(&repository(), &plan).unwrap();

    assert_eq!(
        receipt.disposition,
        GitHubStackMutationDisposition::AlreadySatisfied
    );
    assert!(receipt.before.is_none());
    assert!(receipt.after.is_none());
    adapter.runner.assert_exhausted();
}

#[test]
fn direct_404_is_not_absence_when_the_capability_probe_is_unavailable() {
    let adapter = GitHubMutationAdapter::new(FakeRunner::new(vec![
        (
            native_stack_read_command(&repository(), 42),
            failure(1, "gh: Not Found (HTTP 404)"),
        ),
        (
            native_stack_list_command(&repository()),
            failure(1, "gh: Not Found (HTTP 404)"),
        ),
    ]));

    assert!(matches!(
        adapter.native_stack_generation(&repository(), 42),
        Err(GitHubStackMutationError::Unavailable { .. })
    ));
    adapter.runner.assert_exhausted();
}

#[test]
fn stack_write_methods_are_marked_and_get_remains_read_only() {
    let write = stack_api_command("POST", "repos/o/r/stacks", true, Vec::new());
    assert_eq!(write.intent(), CommandIntent::ProviderWrite);
    assert_eq!(write.inferred_write_intent(), Some(write.intent()));
    let read = stack_api_command("GET", "repos/o/r/stacks/1", false, Vec::new());
    assert_eq!(read.intent(), CommandIntent::Read);
    assert_eq!(read.inferred_write_intent(), None);
}

#[test]
fn stack_commands_are_rest_only_and_never_invoke_local_gh_stack_state() {
    let desired = topology(2);
    let create = native_stack_create_command(&repository(), &desired);
    let before = generation(desired.clone());
    let mut desired_add = topology(3);
    desired_add.entries[..2].clone_from_slice(&desired.entries);
    let add_plan = GitHubStackAddPlan {
        operation_id: "op".to_owned(),
        actor: "cara".to_owned(),
        before,
        desired: desired_add,
    };
    let commands = [
        create,
        native_stack_add_command(&repository(), &add_plan),
        native_stack_unstack_command(&repository(), 42),
    ];

    for command in commands {
        assert_eq!(command.program, "gh");
        assert_eq!(command.args.first().map(String::as_str), Some("api"));
        assert!(!command.args.iter().any(|argument| argument == "stack"));
        assert!(
            command
                .args
                .iter()
                .any(|argument| argument == STACK_API_VERSION)
        );
    }
}

fn create_plan() -> GitHubStackCreatePlan {
    GitHubStackCreatePlan {
        operation_id: "op".to_owned(),
        actor: "cara".to_owned(),
        desired: topology(2),
    }
}

#[test]
fn a_created_stack_that_is_not_found_fails_its_postcondition() {
    let plan = create_plan();
    let mut calls = vec![inventory_call(&[])];
    calls.extend(fresh_topology_calls(&plan.desired));
    calls.push((
        native_stack_create_command(&repository(), &plan.desired),
        success_with_request_id(),
    ));
    calls.push(inventory_call(&[]));
    let adapter = GitHubMutationAdapter::new(FakeRunner::new(calls));

    assert!(matches!(
        adapter.native_stack_create(&repository(), &plan),
        Err(GitHubStackMutationError::PostconditionFailed { actual: None, .. })
    ));
    adapter.runner.assert_exhausted();
}

#[test]
fn a_lost_response_without_a_stack_stays_ambiguous() {
    let plan = create_plan();
    let mut calls = vec![inventory_call(&[])];
    calls.extend(fresh_topology_calls(&plan.desired));
    calls.push((
        native_stack_create_command(&repository(), &plan.desired),
        failure(1, "gh: response lost (HTTP 502)"),
    ));
    calls.push(inventory_call(&[]));
    let adapter = GitHubMutationAdapter::new(FakeRunner::new(calls));

    assert!(matches!(
        adapter.native_stack_create(&repository(), &plan),
        Err(GitHubStackMutationError::AmbiguousResponse {
            observed: None,
            rediscovery_diagnostic: None,
            diagnostic,
            ..
        }) if diagnostic.contains("HTTP 502")
    ));
    adapter.runner.assert_exhausted();
}

#[test]
fn a_moved_head_refuses_a_creation_without_a_write() {
    let plan = create_plan();
    let mut moved = topology(2);
    moved.entries[1].head.oid = CommitOid("moved".to_owned());
    let mut calls = vec![inventory_call(&[])];
    calls.extend(fresh_topology_calls(&moved));
    let adapter = GitHubMutationAdapter::new(FakeRunner::new(calls));

    assert!(matches!(
        adapter.native_stack_create(&repository(), &plan),
        Err(GitHubStackMutationError::StaleGeneration { .. })
    ));
    adapter.runner.assert_exhausted();
}

#[test]
fn a_stack_that_contradicts_its_pull_requests_is_inconsistent() {
    let shown = topology(2);
    let mut moved = topology(2);
    moved.entries[1].head.oid = CommitOid("moved".to_owned());
    let mut calls = vec![(
        native_stack_read_command(&repository(), 42),
        success(stack_json(&shown)),
    )];
    calls.extend(generation_observation_calls(&moved));
    let adapter = GitHubMutationAdapter::new(FakeRunner::new(calls));

    assert!(matches!(
        adapter.native_stack_generation(&repository(), 42),
        Err(GitHubStackMutationError::InconsistentProviderState { .. })
    ));
}

#[test]
fn a_failed_read_of_the_base_is_a_provider_error() {
    let adapter = GitHubMutationAdapter::new(FakeRunner::new(vec![
        (
            native_stack_read_command(&repository(), 42),
            success(stack_json(&topology(2))),
        ),
        (
            native_stack_base_ref_command(&repository(), "main"),
            failure(1, "gh: HTTP 500"),
        ),
    ]));

    assert!(matches!(
        adapter.native_stack_generation(&repository(), 42),
        Err(GitHubStackMutationError::Provider(_))
    ));
}

#[test]
fn a_full_page_of_stacks_is_no_complete_inventory() {
    let row = stack_json(&topology(2));
    let page = format!("[{}]", vec![row; 100].join(","));
    let adapter = GitHubMutationAdapter::new(FakeRunner::new(vec![(
        native_stack_list_command(&repository()),
        success(page),
    )]));

    assert!(matches!(
        adapter.native_stack_create(&repository(), &create_plan()),
        Err(GitHubStackMutationError::InventoryTruncated)
    ));
}

#[test]
fn an_addition_keeps_every_earlier_entry_and_names_the_suffix() {
    let plan = GitHubStackAddPlan {
        operation_id: "op".to_owned(),
        actor: "cara".to_owned(),
        before: generation(topology(2)),
        desired: topology(3),
    };
    let command = native_stack_add_command(&repository(), &plan);
    assert_eq!(command.stdin.as_deref(), Some(r#"{"pull_requests":[103]}"#));
    let create = native_stack_create_command(&repository(), &topology(2));
    assert_eq!(create.stdin.as_deref(), Some(r#"{"pull_requests":[101,102]}"#));
}

#[test]
fn a_changed_receipt_no_longer_verifies() {
    let plan = create_plan();
    let mut calls = vec![inventory_call(std::slice::from_ref(&plan.desired))];
    calls.extend(generation_observation_calls(&plan.desired));
    let adapter = GitHubMutationAdapter::new(FakeRunner::new(calls));
    let mut receipt = adapter.native_stack_create(&repository(), &plan).unwrap();
    assert!(receipt.verify());
    receipt.actor = "someone".to_owned();
    assert!(!receipt.verify());
}
