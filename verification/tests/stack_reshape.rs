//! The reshape of a stack: eviction and split.

use std::cell::RefCell;
use std::collections::VecDeque;

use caravan::command::{
    CommandIntent, CommandOutput, CommandRunError, CommandRunner, CommandSpec,
};
use caravan::github::stack_reshape::{ACTIVE_LABEL, EVICTED_LABEL, FORCE_LABEL};
use caravan::github::{
    GitHubMutationAdapter, GitHubStackEntryGeneration, GitHubStackGeneration,
    GitHubStackMutationDisposition, GitHubStackReshapeCheckpoint, GitHubStackReshapeError,
    GitHubStackReshapeOperation, GitHubStackReshapePhase, GitHubStackReshapePlan,
    GitHubStackTopology,
};
use caravan::model::{
    BranchSnapshot, CommitOid, LabelSet, OperationId, OperationReceipt, PrNumber, PullRequestState,
    RepositoryId,
};

fn success(text: impl Into<String>) -> CommandOutput {
    CommandOutput::success(text.into())
}

fn labels(names: &[&str]) -> LabelSet {
    let list: Vec<String> = names.iter().map(|name| (*name).to_owned()).collect();
    LabelSet::from_list(&list)
}

struct RecordingRunner {
    outputs: RefCell<VecDeque<Result<CommandOutput, CommandRunError>>>,
    commands: RefCell<Vec<CommandSpec>>,
}

impl RecordingRunner {
    fn new(outputs: Vec<CommandOutput>) -> Self {
        Self {
            outputs: RefCell::new(outputs.into_iter().map(Ok).collect()),
            commands: RefCell::new(Vec::new()),
        }
    }

    fn assert_exhausted(&self) {
        assert!(
            self.outputs.borrow().is_empty(),
            "unused fake provider output"
        );
    }

    fn write_count(&self) -> usize {
        self.commands
            .borrow()
            .iter()
            .filter(|command| command.intent() == CommandIntent::ProviderWrite)
            .count()
    }
}

impl CommandRunner for RecordingRunner {
    fn run(&self, command: &CommandSpec) -> Result<CommandOutput, CommandRunError> {
        self.commands.borrow_mut().push(command.clone());
        self.outputs
            .borrow_mut()
            .pop_front()
            .expect("unexpected provider command")
    }
}

fn repository() -> RepositoryId {
    RepositoryId {
        owner: "acme".to_owned(),
        name: "widgets".to_owned(),
    }
}

fn branch(name: &str, oid: &str) -> BranchSnapshot {
    BranchSnapshot {
        repository: repository(),
        name: name.to_owned(),
        oid: CommitOid(oid.to_owned()),
    }
}

fn entry(
    position: u32,
    number: u64,
    base: BranchSnapshot,
    name: &str,
    oid: &str,
) -> GitHubStackEntryGeneration {
    GitHubStackEntryGeneration {
        position,
        pr: PrNumber(number),
        stack_state: "open".to_owned(),
        pull_request_state: PullRequestState::Open,
        draft: false,
        merged_at: None,
        base,
        head: branch(name, oid),
    }
}

fn before_generation() -> GitHubStackGeneration {
    let base = branch("main", "base000");
    let root = entry(0, 101, base.clone(), "root", "aaa111");
    let child = entry(1, 102, root.head.clone(), "child", "bbb222");
    let tail = entry(2, 103, child.head.clone(), "tail", "ccc333");
    GitHubStackGeneration {
        id: 8_001,
        number: 42,
        node_id: "S_before".to_owned(),
        open: true,
        created_at: "2026-08-01T10:00:00Z".to_owned(),
        topology: GitHubStackTopology {
            base,
            entries: vec![root, child, tail],
        },
    }
}

fn evict_middle_plan() -> GitHubStackReshapePlan {
    let before = before_generation();
    let root = before.topology.entries[0].clone();
    let mut tail = before.topology.entries[2].clone();
    tail.position = 1;
    tail.base = root.head.clone();
    GitHubStackReshapePlan::new(
        repository(),
        "reshape-op",
        "cara-test",
        GitHubStackReshapeOperation::Evict,
        PrNumber(102),
        before.clone(),
        vec![GitHubStackTopology {
            base: before.topology.base,
            entries: vec![root, tail],
        }],
    )
    .unwrap()
}

fn stale_tail_eviction_plan() -> GitHubStackReshapePlan {
    let base = branch(
        "agent/ms-dev-2/cacophony/mqegnry93bttwu43-pr-g2494e4ac3f1f6fef588b7afe7359c20489d85070",
        "b9929b3b0c2bfac4f0e262c31fe9ee56be611cd0",
    );
    let parent = entry(
        0,
        2483,
        base.clone(),
        "agent/ms-dev-3/cacophony/e0371ba58e492e06-pr-g05b782765a958553a3928c2dda8f44556eb0b735",
        "e420e514282f5ee7d7da78776082de1a955cb5a5",
    );
    let stale_parent = branch(
        &parent.head.name,
        "05b782765a958553a3928c2dda8f44556eb0b735",
    );
    let tail = entry(
        1,
        2486,
        stale_parent,
        "agent/ms-dev-3/cacophony/4e1a88065f44732f-pr-g60ac31df852749da6d4dc3f91c286646587f9bbc",
        "60ac31df852749da6d4dc3f91c286646587f9bbc",
    );
    let before = GitHubStackGeneration {
        id: 8_483,
        number: 2_470,
        node_id: "S_pr2483_pr2486".to_owned(),
        open: true,
        created_at: "2026-08-06T08:00:00Z".to_owned(),
        topology: GitHubStackTopology {
            base: base.clone(),
            entries: vec![parent.clone(), tail],
        },
    };
    GitHubStackReshapePlan::new(
        repository(),
        "evict-pr2486-stale-tail",
        "cara-test",
        GitHubStackReshapeOperation::Evict,
        PrNumber(2486),
        before,
        vec![GitHubStackTopology {
            base,
            entries: vec![parent],
        }],
    )
    .expect("tail eviction removes the sole stale base edge")
}

fn split_plan() -> GitHubStackReshapePlan {
    let before = before_generation();
    let first = before.topology.entries[0].clone();
    let mut child = before.topology.entries[1].clone();
    child.position = 0;
    child.base = before.topology.base.clone();
    let mut tail = before.topology.entries[2].clone();
    tail.position = 1;
    tail.base = child.head.clone();
    GitHubStackReshapePlan::new(
        repository(),
        "split-op",
        "cara-test",
        GitHubStackReshapeOperation::Split,
        PrNumber(102),
        before.clone(),
        vec![
            GitHubStackTopology {
                base: before.topology.base.clone(),
                entries: vec![first],
            },
            GitHubStackTopology {
                base: before.topology.base,
                entries: vec![child, tail],
            },
        ],
    )
    .unwrap()
}

fn optional(value: &Option<String>) -> String {
    match value {
        Some(text) => format!("\"{text}\""),
        None => "null".to_owned(),
    }
}

fn stack_text(
    id: u64,
    number: u64,
    node_id: &str,
    open: bool,
    created_at: &str,
    topology: &GitHubStackTopology,
) -> String {
    let base = &topology.base.name;
    let rows: Vec<String> = topology
        .entries
        .iter()
        .map(|entry| {
            let pr = entry.pr.0;
            let state = &entry.stack_state;
            let draft = entry.draft;
            let merged_at = optional(&entry.merged_at);
            let head = &entry.head.name;
            let sha = &entry.head.oid.0;
            format!(
                r#"{{"number":{pr},"state":"{state}","draft":{draft},"merged_at":{merged_at},"head":{{"ref":"{head}","sha":"{sha}"}}}}"#
            )
        })
        .collect();
    let rows = rows.join(",");
    format!(
        r#"{{"id":{id},"number":{number},"node_id":"{node_id}","base":{{"ref":"{base}"}},"open":{open},"created_at":"{created_at}","pull_requests":[{rows}]}}"#
    )
}

fn stack_snapshot(generation: &GitHubStackGeneration) -> String {
    stack_text(
        generation.id,
        generation.number,
        &generation.node_id,
        generation.open,
        &generation.created_at,
        &generation.topology,
    )
}

fn replacement_generation(topology: &GitHubStackTopology) -> GitHubStackGeneration {
    GitHubStackGeneration {
        id: 8_002,
        number: 77,
        node_id: "S_replacement".to_owned(),
        open: true,
        created_at: "2026-08-01T10:05:00Z".to_owned(),
        topology: topology.clone(),
    }
}

fn stack_json(generation: &GitHubStackGeneration) -> CommandOutput {
    success(stack_snapshot(generation))
}

fn inventory_json(generations: &[GitHubStackGeneration]) -> CommandOutput {
    let rows: Vec<String> = generations.iter().map(stack_snapshot).collect();
    success(format!("[{}]", rows.join(",")))
}

fn ref_json(branch: &BranchSnapshot) -> CommandOutput {
    success(format!(r#"{{"object":{{"sha":"{}"}}}}"#, branch.oid.0))
}

fn pr_json(
    number: PrNumber,
    head: &BranchSnapshot,
    base: &BranchSnapshot,
    labels: &LabelSet,
    auto_merge_enabled: bool,
) -> CommandOutput {
    let number = number.0;
    let head_name = &head.name;
    let head_oid = &head.oid.0;
    let base_name = &base.name;
    let base_oid = &base.oid.0;
    let rows: Vec<String> = labels
        .to_list()
        .iter()
        .map(|name| format!(r#"{{"name":"{name}"}}"#))
        .collect();
    let rows = rows.join(",");
    let auto_merge = if auto_merge_enabled {
        r#"{"mergeMethod":"SQUASH","enabledBy":{"login":"cara"}}"#
    } else {
        "null"
    };
    success(format!(
        r#"{{"number":{number},"title":"PR {number}","body":"","state":"OPEN","isDraft":false,"headRefName":"{head_name}","headRefOid":"{head_oid}","headRepository":{{"name":"widgets","nameWithOwner":"acme/widgets"}},"headRepositoryOwner":{{"login":"acme"}},"isCrossRepository":false,"baseRefName":"{base_name}","baseRefOid":"{base_oid}","labels":[{rows}],"autoMergeRequest":{auto_merge},"statusCheckRollup":[],"createdAt":"2026-08-01T09:00:00Z","mergedAt":null,"url":"https://github.com/acme/widgets/pull/{number}","updatedAt":"2026-08-01T10:00:00Z","mergeStateStatus":"CLEAN"}}"#
    ))
}

fn topology_pr_outputs(topology: &GitHubStackTopology) -> Vec<CommandOutput> {
    topology
        .entries
        .iter()
        .map(|entry| {
            pr_json(
                entry.pr,
                &entry.head,
                &entry.base,
                &labels(&[ACTIVE_LABEL]),
                false,
            )
        })
        .collect()
}

fn postcondition_outputs(plan: &GitHubStackReshapePlan) -> Vec<CommandOutput> {
    plan.pr_postconditions
        .iter()
        .map(|expected| {
            pr_json(
                expected.pr,
                &expected.head,
                &expected.base,
                &expected.required_labels,
                expected.auto_merge_enabled,
            )
        })
        .collect()
}

fn observe_outputs(generation: &GitHubStackGeneration) -> Vec<CommandOutput> {
    let mut outputs = vec![ref_json(&generation.topology.base)];
    outputs.extend(topology_pr_outputs(&generation.topology));
    outputs
}

fn existing_receipt(operation: &str) -> OperationReceipt {
    OperationReceipt {
        operation_id: OperationId("cara-reshape-receipt".to_owned()),
        operation: operation.to_owned(),
        completed_steps: Vec::new(),
        changed: true,
    }
}

fn not_found() -> CommandOutput {
    CommandOutput {
        code: Some(1),
        stdout: String::new(),
        stderr: "gh: HTTP 404".to_owned(),
    }
}

#[test]
fn eviction_plan_binds_complete_survivor_chain_and_existing_policy() {
    let plan = evict_middle_plan();
    assert!(plan.verify());
    assert_eq!(
        plan.replacement_chains[0]
            .entries
            .iter()
            .map(|entry| entry.pr)
            .collect::<Vec<_>>(),
        vec![PrNumber(101), PrNumber(103)]
    );
    let evicted = &plan.pr_postconditions[1];
    assert!(evicted.required_labels.contains(EVICTED_LABEL));
    assert!(evicted.forbidden_labels.contains(ACTIVE_LABEL));
    assert!(evicted.forbidden_labels.contains(FORCE_LABEL));
    assert!(!evicted.auto_merge_enabled);
    let tail = &plan.pr_postconditions[2];
    assert_eq!(tail.base, plan.before.topology.entries[0].head);
}

#[test]
fn split_plan_is_exactly_two_chains_and_rejects_queued_generation() {
    let plan = split_plan();
    assert!(plan.verify());
    assert_eq!(
        plan.replacement_chains
            .iter()
            .map(|chain| chain.entries.len())
            .collect::<Vec<_>>(),
        vec![1, 2]
    );

    let mut queued = before_generation();
    queued.topology.entries[1].stack_state = "queued".to_owned();
    assert!(matches!(
        GitHubStackReshapePlan::new(
            repository(),
            "queued-op",
            "cara-test",
            GitHubStackReshapeOperation::Split,
            PrNumber(102),
            queued.clone(),
            vec![
                GitHubStackTopology {
                    base: queued.topology.base.clone(),
                    entries: vec![queued.topology.entries[0].clone()],
                },
                GitHubStackTopology {
                    base: queued.topology.base.clone(),
                    entries: vec![
                        queued.topology.entries[1].clone(),
                        queued.topology.entries[2].clone()
                    ],
                },
            ],
        ),
        Err(GitHubStackReshapeError::InvalidPlan { .. })
    ));
}

#[test]
fn preflight_is_zero_write_and_seals_non_atomic_phase() {
    let plan = evict_middle_plan();
    let mut outputs = vec![
        stack_json(&plan.before),
        ref_json(&plan.before.topology.base),
    ];
    outputs.extend(topology_pr_outputs(&plan.before.topology));
    let adapter = GitHubMutationAdapter::new(RecordingRunner::new(outputs));

    let checkpoint = adapter
        .native_stack_reshape_preflight(&repository(), &plan)
        .unwrap();
    assert_eq!(checkpoint.phase, GitHubStackReshapePhase::Preflighted);
    assert!(!checkpoint.provider_atomic);
    assert!(checkpoint.verify());
    assert_eq!(adapter.runner.write_count(), 0);
    adapter.runner.assert_exhausted();
}

#[test]
fn stale_tail_eviction_preflights_and_unstacks_with_exact_receipts() {
    let plan = stale_tail_eviction_plan();
    assert!(plan.verify());
    assert_eq!(plan.selected_pr, PrNumber(2486));
    assert_eq!(plan.before.topology.entries[0].pr, PrNumber(2483));
    assert_eq!(
        plan.before.topology.entries[0].head.oid.0,
        "e420e514282f5ee7d7da78776082de1a955cb5a5"
    );
    assert_eq!(
        plan.before.topology.entries[1].base.oid.0,
        "05b782765a958553a3928c2dda8f44556eb0b735"
    );

    let mut outputs = vec![stack_json(&plan.before)];
    outputs.extend(observe_outputs(&plan.before));
    outputs.push(stack_json(&plan.before));
    outputs.extend(observe_outputs(&plan.before));
    outputs.push(success("{}"));
    outputs.push(not_found());
    outputs.push(inventory_json(&[]));
    let adapter = GitHubMutationAdapter::new(RecordingRunner::new(outputs));

    let preflight = adapter
        .native_stack_reshape_preflight(&repository(), &plan)
        .expect("exact stale-tail generation preflights without mutation");
    assert_eq!(preflight.phase, GitHubStackReshapePhase::Preflighted);
    assert!(preflight.verify());
    assert_eq!(adapter.runner.write_count(), 0);

    let unstacked = adapter
        .native_stack_reshape_unstack(&repository(), &preflight)
        .expect("whole-Stack removal accepts only the selected stale tail edge");
    assert_eq!(unstacked.phase, GitHubStackReshapePhase::Unstacked);
    let receipt = unstacked
        .unstack_receipt
        .as_ref()
        .expect("durable before/after unstack receipt");
    assert_eq!(receipt.before.as_ref(), Some(&plan.before));
    assert!(receipt.after.is_none());
    assert!(receipt.verify());
    assert!(unstacked.verify());
    assert_eq!(adapter.runner.write_count(), 1);
    adapter.runner.assert_exhausted();
}

#[test]
fn stale_non_tail_base_remains_fail_closed_before_provider_access() {
    let mut before = before_generation();
    before.topology.entries[1].base = branch("root", "prior-root-head");
    let root = before.topology.entries[0].clone();
    let child = before.topology.entries[1].clone();
    let error = GitHubStackReshapePlan::new(
        repository(),
        "reject-stale-middle",
        "cara-test",
        GitHubStackReshapeOperation::Evict,
        PrNumber(103),
        before.clone(),
        vec![GitHubStackTopology {
            base: before.topology.base,
            entries: vec![root, child],
        }],
    )
    .expect_err("only the exact selected tail may carry a stale base");
    assert!(matches!(
        error,
        GitHubStackReshapeError::InvalidPlan { ref code, .. }
            if code == "github_stack_base_chain_invalid"
    ));
}

#[test]
fn crash_recovery_converges_unstack_and_replacement_without_repeat_writes() {
    let plan = evict_middle_plan();
    let replacement = replacement_generation(&plan.replacement_chains[0]);
    let mut outputs = vec![not_found(), inventory_json(&[])];
    outputs.extend(postcondition_outputs(&plan));
    outputs.extend(postcondition_outputs(&plan));
    outputs.push(inventory_json(std::slice::from_ref(&replacement)));
    outputs.extend(observe_outputs(&replacement));
    outputs.extend(postcondition_outputs(&plan));
    outputs.push(inventory_json(std::slice::from_ref(&replacement)));
    outputs.push(stack_json(&replacement));
    outputs.extend(observe_outputs(&replacement));
    let adapter = GitHubMutationAdapter::new(RecordingRunner::new(outputs));

    let preflight = GitHubStackReshapeCheckpoint::preflighted(plan.clone());
    let unstacked = adapter
        .native_stack_reshape_unstack(&repository(), &preflight)
        .unwrap();
    assert_eq!(unstacked.phase, GitHubStackReshapePhase::Unstacked);
    assert!(unstacked.unstack_receipt.as_ref().unwrap().verify());

    let applied = adapter
        .native_stack_reshape_record_existing(
            &repository(),
            &unstacked,
            &existing_receipt("evict"),
        )
        .unwrap();
    let rebuilt = adapter
        .native_stack_reshape_rebuild_next(&repository(), &applied)
        .unwrap();
    assert_eq!(rebuilt.phase, GitHubStackReshapePhase::Rebuilt);
    assert_eq!(rebuilt.replacement_receipts.len(), 1);
    assert_eq!(
        rebuilt.replacement_receipts[0].disposition,
        GitHubStackMutationDisposition::AlreadySatisfied
    );

    let verified = adapter
        .native_stack_reshape_verify_final(&repository(), &rebuilt)
        .unwrap();
    assert_eq!(verified.phase, GitHubStackReshapePhase::Verified);
    assert!(!verified.provider_atomic);
    assert_eq!(verified.final_stacks, vec![replacement]);
    assert!(verified.verify());
    assert_eq!(adapter.runner.write_count(), 0);
    adapter.runner.assert_exhausted();
}

#[test]
fn partial_existing_reshape_refuses_before_replacement_creation() {
    let plan = evict_middle_plan();
    let mut wrong = plan.pr_postconditions[0].clone();
    wrong.base = branch("wrong", "bad000");
    let outputs = vec![
        not_found(),
        inventory_json(&[]),
        pr_json(
            wrong.pr,
            &wrong.head,
            &wrong.base,
            &wrong.required_labels,
            false,
        ),
    ];
    let adapter = GitHubMutationAdapter::new(RecordingRunner::new(outputs));
    let checkpoint = adapter
        .native_stack_reshape_unstack(
            &repository(),
            &GitHubStackReshapeCheckpoint::preflighted(plan),
        )
        .unwrap();

    assert!(matches!(
        adapter.native_stack_reshape_record_existing(
            &repository(),
            &checkpoint,
            &existing_receipt("evict"),
        ),
        Err(GitHubStackReshapeError::ExistingReshapeIncomplete {
            pr: PrNumber(101),
            ..
        })
    ));
    assert_eq!(adapter.runner.write_count(), 0);
    adapter.runner.assert_exhausted();
}

#[test]
fn stack_reshape_tampered_checkpoint_is_rejected_before_provider_access() {
    let plan = evict_middle_plan();
    let mut checkpoint = GitHubStackReshapeCheckpoint::preflighted(plan);
    checkpoint.provider_atomic = true;
    let adapter = GitHubMutationAdapter::new(RecordingRunner::new(Vec::new()));

    assert!(matches!(
        adapter.native_stack_reshape_unstack(&repository(), &checkpoint),
        Err(GitHubStackReshapeError::InvalidCheckpoint { .. })
    ));
    adapter.runner.assert_exhausted();
}

#[test]
fn split_with_singleton_halves_rebuilds_zero_provider_stacks() {
    let before = {
        let full = before_generation();
        GitHubStackGeneration {
            topology: GitHubStackTopology {
                base: full.topology.base.clone(),
                entries: full.topology.entries[..2].to_vec(),
            },
            ..full
        }
    };
    let first = before.topology.entries[0].clone();
    let mut second = before.topology.entries[1].clone();
    second.position = 0;
    second.base = before.topology.base.clone();
    let plan = GitHubStackReshapePlan::new(
        repository(),
        "singleton-split",
        "cara-test",
        GitHubStackReshapeOperation::Split,
        second.pr,
        before.clone(),
        vec![
            GitHubStackTopology {
                base: before.topology.base.clone(),
                entries: vec![first],
            },
            GitHubStackTopology {
                base: before.topology.base,
                entries: vec![second],
            },
        ],
    )
    .unwrap();
    let mut outputs = vec![not_found(), inventory_json(&[])];
    outputs.extend(postcondition_outputs(&plan));
    outputs.extend(postcondition_outputs(&plan));
    outputs.extend(postcondition_outputs(&plan));
    outputs.push(inventory_json(&[]));
    let adapter = GitHubMutationAdapter::new(RecordingRunner::new(outputs));

    let unstacked = adapter
        .native_stack_reshape_unstack(
            &repository(),
            &GitHubStackReshapeCheckpoint::preflighted(plan),
        )
        .unwrap();
    let applied = adapter
        .native_stack_reshape_record_existing(
            &repository(),
            &unstacked,
            &existing_receipt("split"),
        )
        .unwrap();
    let rebuilt = adapter
        .native_stack_reshape_rebuild_next(&repository(), &applied)
        .unwrap();
    assert_eq!(rebuilt.phase, GitHubStackReshapePhase::Rebuilt);
    assert!(rebuilt.replacement_receipts.is_empty());
    let verified = adapter
        .native_stack_reshape_verify_final(&repository(), &rebuilt)
        .unwrap();
    assert!(verified.final_stacks.is_empty());
    assert_eq!(adapter.runner.write_count(), 0);
    adapter.runner.assert_exhausted();
}

#[test]
fn a_moved_stack_refuses_the_preflight() {
    let plan = evict_middle_plan();
    let mut moved = plan.before.clone();
    moved.topology.entries[2].head.oid = CommitOid("moved".to_owned());
    let mut outputs = vec![stack_json(&moved)];
    outputs.extend(observe_outputs(&moved));
    let adapter = GitHubMutationAdapter::new(RecordingRunner::new(outputs));
    assert!(matches!(
        adapter.native_stack_reshape_preflight(&repository(), &plan),
        Err(GitHubStackReshapeError::StaleGeneration { .. })
    ));
    assert_eq!(adapter.runner.write_count(), 0);
    adapter.runner.assert_exhausted();
}

#[test]
fn an_unreadable_stack_refuses_the_preflight() {
    let plan = evict_middle_plan();
    let outputs = vec![success("not-json")];
    let adapter = GitHubMutationAdapter::new(RecordingRunner::new(outputs));
    assert!(matches!(
        adapter.native_stack_reshape_preflight(&repository(), &plan),
        Err(GitHubStackReshapeError::StackMutation(_))
    ));
    adapter.runner.assert_exhausted();
}

#[test]
fn a_plan_names_every_member_once() {
    let plan = split_plan();
    let before: Vec<PrNumber> = plan.before.topology.entries.iter().map(|e| e.pr).collect();
    let after: Vec<PrNumber> = plan
        .replacement_chains
        .iter()
        .flat_map(|chain| chain.entries.iter().map(|e| e.pr))
        .collect();
    assert_eq!(before, after);
    let conditions: Vec<PrNumber> = plan.pr_postconditions.iter().map(|c| c.pr).collect();
    assert_eq!(before, conditions);
}
