//! Discovery of a repository and the mutations of its pull requests.

use std::cell::RefCell;
use std::collections::VecDeque;

use caravan::command::{
    send, After, CommandOutput, CommandRunError, CommandRunner, CommandSpec, Sent,
};
use caravan::github::candidates::{classify_candidate, merge_candidates_command};
use caravan::github::commands::{
    admin_squash_merge_command, auto_merge_command, base_history_command,
    branch_pr_history_command, branch_protection_command, branch_settings_command,
    check_suite_command, check_suites_command, comment_pull_request_command, commit_command,
    compare_commits_command, create_pull_request_command, current_branch_command,
    current_head_oid_command, default_branch_command, edit_pull_request_command,
    failed_runs_command, force_transaction_command, force_transaction_ids_command,
    head_runs_command, issue_comments_command, labeled_pr_command, merge_commit_command,
    open_generation_pr_command, open_pr_command, previous_default_command, pull_request_command,
    rate_limit_command, repository_command, repository_labels_command,
    repository_permission_command, repository_settings_command, rerequest_check_suite_command,
    rerun_failed_command, squash_merge_command, workflow_run_command,
};
use caravan::github::facts::{CommitRelation, MutationKind};
use caravan::github::force::{ForceEvent, ForceGoal, ForceStep};
use caravan::github::one_write::{perform, Granted, WriteEvent, WriteStep};
use caravan::github::pr_operations::{PrComment, PrCreation, PrOperation};
use caravan::github::provider::PullRequestPrecondition;
use caravan::github::raw::{ForceTransactionIdsResponse, PullRequestJson};
use caravan::github::{
    control_label_marker, ControlLabelAudit, CreatePullRequestInput, DiscoveryError,
    DiscoveryOptions, GitHubDiscovery, GitHubMutationAdapter, MutationError,
};
use caravan::json::{Decode, Members};
use caravan::model::{
    AutoMergeState, BranchSnapshot, CheckSnapshot, CheckState, CommitOid, LabelSet,
    MergeCandidateFreshness, MovementOwnership, PrNumber, PullRequestSnapshot, PullRequestState,
    RepositoryId, SyntheticMergeCandidate,
};
use caravan::required_runs::rerequestable_suite;

fn success(text: impl Into<String>) -> CommandOutput {
    CommandOutput::success(text.into())
}

fn failure(code: i32, text: &str) -> CommandOutput {
    CommandOutput::failure(code, text.to_owned())
}

fn gh(args: &[&str]) -> CommandSpec {
    CommandSpec::gh(args.to_vec())
}

fn labels(names: &[&str]) -> LabelSet {
    let list: Vec<String> = names.iter().map(|name| (*name).to_owned()).collect();
    LabelSet::from_list(&list)
}

struct FakeRunner {
    calls: RefCell<VecDeque<(CommandSpec, CommandOutput)>>,
}

impl FakeRunner {
    fn new(calls: Vec<(CommandSpec, CommandOutput)>) -> Self {
        Self {
            calls: RefCell::new(calls.into()),
        }
    }

    fn assert_exhausted(&self) {
        assert!(
            self.calls.borrow().is_empty(),
            "not all fake calls were used"
        );
    }
}

impl CommandRunner for FakeRunner {
    fn run(&self, command: &CommandSpec) -> Result<CommandOutput, CommandRunError> {
        let (expected, output) = self
            .calls
            .borrow_mut()
            .pop_front()
            .expect("unexpected subprocess call");
        assert_eq!(&expected, command);
        Ok(output)
    }
}

fn snapshots(open_prs: &str) -> Vec<PullRequestSnapshot> {
    let value: serde_json::Value = serde_json::from_str(open_prs).unwrap();
    Vec::<PullRequestJson>::decode(&value)
        .unwrap()
        .into_iter()
        .map(|pull| pull.into_snapshot(&repository()).unwrap())
        .collect()
}

fn successful_discovery_calls(open_prs: &str) -> Vec<(CommandSpec, CommandOutput)> {
    let pulls = snapshots(open_prs);
    let mut members: Vec<String> = pulls
        .iter()
        .enumerate()
        .map(|(index, pull)| {
            let number = pull.number.0;
            let base = &pull.base.oid.0;
            let head = &pull.head.oid.0;
            format!(
                r#""c{index}":{{"oid":"merge-{number}","tree":{{"oid":"tree-{number}"}},"parents":{{"nodes":[{{"oid":"{base}"}},{{"oid":"{head}"}}]}}}}"#
            )
        })
        .collect();
    members.push(
        r#""defaultBranchRef":{"target":{"history":{"nodes":[{"oid":"default-sha","committedDate":"2026-07-18T10:00:00Z","author":{"name":"Outside User","user":{"login":"outside"}},"associatedPullRequests":{"nodes":[]}}]}}}"#
            .to_owned(),
    );
    let candidates = format!(
        r#"{{"data":{{"repository":{{{}}}}}}}"#,
        members.join(",")
    );
    vec![
        (
            repository_command(),
            success(r#"{"nameWithOwner":"acme/widgets","defaultBranchRef":{"name":"main"}}"#),
        ),
        (current_branch_command(), success("feature/widget\n")),
        (
            previous_default_command("main"),
            success("previous-default-sha\n"),
        ),
        (
            default_branch_command("acme/widgets", "main"),
            success(r#"{"object":{"sha":"default-sha"}}"#),
        ),
        (open_pr_command("acme/widgets", 1_000), success(open_prs)),
        (
            merge_candidates_command(&repository(), &pulls),
            success(candidates),
        ),
        (
            labeled_pr_command("acme/widgets", "merged", "caravan", 100, true),
            success(merged_pr_json()),
        ),
    ]
}

fn pr_list_json(number: u64, branch: &str, repository: &str, cross_repo: bool) -> String {
    format!(
        r#"[{{"number":{number},"title":"Queue change {number}","state":"OPEN","isDraft":false,"headRefName":"{branch}","headRefOid":"head-{number}","headRepository":{{"name":"widgets","nameWithOwner":"{repository}"}},"headRepositoryOwner":{{"login":"acme"}},"isCrossRepository":{cross_repo},"baseRefName":"main","baseRefOid":"base-{number}","labels":[{{"name":"caravan"}}],"autoMergeRequest":{{"mergeMethod":"SQUASH","enabledAt":"2026-07-17T10:00:00Z","enabledBy":{{"login":"octocat"}}}},"statusCheckRollup":[{{"__typename":"CheckRun","name":"test","context":null,"status":"COMPLETED","conclusion":"SUCCESS","state":null,"workflowName":"CI","detailsUrl":"https://example.test/check","targetUrl":null}}],"createdAt":"2026-07-17T10:00:00Z","mergedAt":null,"url":"https://example.test/pr/{number}","updatedAt":"2026-07-17T11:00:00Z"}}]"#
    )
}

fn merged_pr_json() -> &'static str {
    r#"[{"number":9,"title":"Merged queue change","state":"MERGED","isDraft":false,"headRefName":"old-head","headRefOid":"head-9","headRepository":{"name":"widgets","nameWithOwner":"acme/widgets"},"headRepositoryOwner":{"login":"acme"},"isCrossRepository":false,"baseRefName":"main","baseRefOid":"base-9","labels":[{"name":"caravan"}],"autoMergeRequest":null,"createdAt":"2026-07-17T08:00:00Z","mergedAt":"2026-07-17T09:00:00Z","url":"https://example.test/pr/9","updatedAt":"2026-07-17T09:00:00Z"}]"#
}

fn pr_object_json(number: u64, branch: &str, repository: &str) -> String {
    let list = pr_list_json(number, branch, repository, false);
    list[1..list.len() - 1].to_owned()
}

fn large_open_pr_fixture() -> String {
    let check = r#"{"__typename":"CheckRun","name":"test","context":null,"status":"COMPLETED","conclusion":"SUCCESS","state":null,"workflowName":"CI","detailsUrl":"https://example.test/check","targetUrl":null}"#;
    let pulls: Vec<String> = (101..=130)
        .map(|number| {
            let branch = format!("feature-{number}");
            let mut pull = pr_object_json(number, &branch, "acme/widgets")
                .replace(check, &format!("{check},{check}"));
            if number > 101 {
                let previous = number - 1;
                pull = pull.replace(
                    r#""baseRefName":"main""#,
                    &format!(r#""baseRefName":"feature-{previous}""#),
                );
            }
            pull
        })
        .collect();
    format!("[{}]", pulls.join(","))
}

fn repository() -> RepositoryId {
    RepositoryId {
        owner: "acme".to_owned(),
        name: "widgets".to_owned(),
    }
}

fn precondition(number: u64) -> PullRequestPrecondition {
    PullRequestPrecondition {
        number: PrNumber(number),
        state: PullRequestState::Open,
        head_oid: CommitOid(format!("head-{number}")),
        base_ref: "main".to_owned(),
        base_oid: CommitOid(format!("base-{number}")),
        labels: labels(&["caravan"]),
        checks: vec![CheckSnapshot {
            name: "test".to_owned(),
            state: CheckState::Success,
            provider_state: Some("SUCCESS".to_owned()),
            details_url: Some("https://example.test/check".to_owned()),
            provider_kind: Some("CheckRun".to_owned()),
            workflow_name: Some("CI".to_owned()),
            started_at: None,
            completed_at: None,
            superseded: false,
            ..CheckSnapshot::default()
        }],
        auto_merge: AutoMergeState::squash(),
    }
}

#[test]
fn initialization_identity_never_queries_prs_or_moving_refs() {
    let runner = FakeRunner::new(vec![(
        repository_command(),
        success(
            r#"{"nameWithOwner":"acme/widgets","defaultBranchRef":{"name":"main"}}"#,
        ),
    )]);
    let adapter = GitHubMutationAdapter::new(runner);

    let (repository, default_branch) = adapter.repository_identity().unwrap();

    assert_eq!(repository.slug(), "acme/widgets");
    assert_eq!(default_branch, "main");
    adapter.runner.assert_exhausted();
}

#[test]
fn discovers_canonical_repository_and_pull_request_snapshots() {
    let open_prs = pr_list_json(12, "feature/widget", "acme/widgets", false);
    let runner = FakeRunner::new(successful_discovery_calls(&open_prs));
    let discovery = GitHubDiscovery::new(runner);

    let snapshot = discovery.discover().expect("discovery succeeds");

    assert_eq!(snapshot.repository.slug(), "acme/widgets");
    assert_eq!(snapshot.default_branch.oid, CommitOid("default-sha".into()));
    assert_eq!(snapshot.current_branch.as_deref(), Some("feature/widget"));
    assert_eq!(snapshot.current_pr, Some(PrNumber(12)));
    let open = snapshot
        .pull_requests
        .iter()
        .find(|pull_request| pull_request.number == PrNumber(12))
        .expect("open PR is present");
    assert_eq!(open.head.oid, CommitOid("head-12".into()));
    assert_eq!(open.base.oid, CommitOid("base-12".into()));
    assert_eq!(open.auto_merge, AutoMergeState::squash());
    assert_eq!(open.auto_merge.actor.as_deref(), Some("octocat"));
    assert_eq!(open.created_at.as_deref(), Some("2026-07-17T10:00:00Z"));
    assert_eq!(
        snapshot.previous_default_oid,
        Some(CommitOid("previous-default-sha".into()))
    );
    assert_eq!(
        snapshot.merge_candidates[0].freshness,
        MergeCandidateFreshness::StaleBase,
        "the fixture PR records base-12 while main is default-sha; a superseded base is never fresh"
    );
    assert!(snapshot.merge_candidates[0].stale_base);
    assert_eq!(
        snapshot.merge_candidates[0]
            .compared_base
            .as_ref()
            .map(|base| base.oid.clone()),
        Some(CommitOid("default-sha".into())),
        "receipts expose the live default tip the claim was compared against"
    );
    assert_eq!(
        snapshot.merge_candidates[0].auto_merge.actor.as_deref(),
        Some("octocat")
    );
    assert_eq!(
        snapshot.default_branch_movements[0].ownership,
        MovementOwnership::External
    );
    assert_eq!(open.checks[0].state, CheckState::Success);
    assert_eq!(open.checks[0].provider_state.as_deref(), Some("SUCCESS"));
    let merged = snapshot
        .pull_requests
        .iter()
        .find(|pull_request| pull_request.number == PrNumber(9))
        .expect("merged predecessor is present");
    assert_eq!(merged.state, PullRequestState::Merged);
    assert!(merged.checks.is_empty());
    discovery.runner.assert_exhausted();
}

fn historical_discovery_calls(
    open_prs: &str,
    branch_history: String,
) -> Vec<(CommandSpec, CommandOutput)> {
    let mut calls = successful_discovery_calls(open_prs);
    calls[1] = (
        current_branch_command(),
        success("old-head\n"),
    );
    calls.push((
        branch_pr_history_command("acme/widgets", "old-head", 100),
        success(branch_history),
    ));
    calls
}

#[test]
fn merged_current_branch_resolves_direct_active_successor() {
    let open = pr_list_json(10, "next", "acme/widgets", false)
        .replace("\"baseRefName\":\"main\"", "\"baseRefName\":\"old-head\"");
    let mut calls = historical_discovery_calls(&open, merged_pr_json().to_owned());
    calls.extend([
        (
            current_head_oid_command(),
            success("head-9\n"),
        ),
        (
            default_branch_command("acme/widgets", "old-head"),
            success(r#"{"object":{"sha":"head-9"}}"#),
        ),
    ]);
    let discovery = GitHubDiscovery::new(FakeRunner::new(calls));

    let snapshot = discovery.discover().expect("historical context resolves");

    assert_eq!(snapshot.current_pr, Some(PrNumber(10)));
    assert!(
        snapshot
            .pull_requests
            .iter()
            .any(|pull| pull.number == PrNumber(9))
    );
    discovery.runner.assert_exhausted();
}

#[test]
fn merged_current_branch_resolves_successor_after_child_retarget() {
    let mut calls = historical_discovery_calls(
        &pr_list_json(10, "next", "acme/widgets", false),
        merged_pr_json().to_owned(),
    );
    calls.extend([
        (current_head_oid_command(), success("head-9\n")),
        (
            default_branch_command("acme/widgets", "old-head"),
            success(r#"{"object":{"sha":"head-9"}}"#),
        ),
        (
            base_history_command(&repository(), &vec![PrNumber(9), PrNumber(10)]),
            success(r#"{"data":{"repository":{"p9":{"timelineItems":{"nodes":[]}},"p10":{"timelineItems":{"nodes":[{"previousRefName":"old-head","currentRefName":"main"}]}}}}}"#),
        ),
    ]);
    let discovery = GitHubDiscovery::new(FakeRunner::new(calls));

    let snapshot = discovery.discover().expect("retarget history resolves");

    assert_eq!(snapshot.current_pr, Some(PrNumber(10)));
    discovery.runner.assert_exhausted();
}

#[test]
fn merged_middle_branch_follows_history_to_active_rolling_head() {
    let merged_ten = pr_list_json(10, "next", "acme/widgets", false)
        .replace("\"state\":\"OPEN\"", "\"state\":\"MERGED\"")
        .replace("\"mergedAt\":null", "\"mergedAt\":\"2026-07-17T12:00:00Z\"");
    let merged = format!(
        "[{},{}]",
        &merged_pr_json()[1..merged_pr_json().len() - 1],
        &merged_ten[1..merged_ten.len() - 1]
    );
    let mut calls = historical_discovery_calls(
        &pr_list_json(11, "latest", "acme/widgets", false),
        merged_pr_json().to_owned(),
    );
    calls[6].1 = success(merged);
    calls.extend([
        (
            current_head_oid_command(),
            success("head-9\n"),
        ),
        (
            default_branch_command("acme/widgets", "old-head"),
            success(r#"{"object":{"sha":"head-9"}}"#),
        ),
        (
            base_history_command(&repository(), &vec![PrNumber(9), PrNumber(10), PrNumber(11)]),
            success(r#"{"data":{"repository":{"p9":{"timelineItems":{"nodes":[]}},"p10":{"timelineItems":{"nodes":[{"previousRefName":"old-head","currentRefName":"main"}]}},"p11":{"timelineItems":{"nodes":[{"previousRefName":"next","currentRefName":"main"}]}}}}}"#),
        ),
    ]);
    let discovery = GitHubDiscovery::new(FakeRunner::new(calls));

    let snapshot = discovery.discover().expect("middle history resolves");

    assert_eq!(snapshot.current_pr, Some(PrNumber(11)));
    discovery.runner.assert_exhausted();
}

#[test]
fn merged_current_branch_without_successor_is_explicit_context() {
    let mut calls = historical_discovery_calls("[]", merged_pr_json().to_owned());
    calls.extend([
        (
            current_head_oid_command(),
            success("head-9\n"),
        ),
        (
            default_branch_command("acme/widgets", "old-head"),
            success(r#"{"object":{"sha":"head-9"}}"#),
        ),
        (
            base_history_command(&repository(), &vec![PrNumber(9)]),
            success(
                r#"{"data":{"repository":{"p9":{"timelineItems":{"nodes":[]}}}}}"#,
            ),
        ),
    ]);
    let discovery = GitHubDiscovery::new(FakeRunner::new(calls));

    let snapshot = discovery
        .discover()
        .expect("history is valid without a successor");

    assert_eq!(snapshot.current_pr, None);
    assert_eq!(snapshot.current_branch.as_deref(), Some("old-head"));
    discovery.runner.assert_exhausted();
}

#[test]
fn deleted_historical_branch_fails_closed() {
    let mut calls = historical_discovery_calls("[]", merged_pr_json().to_owned());
    calls.extend([
        (
            current_head_oid_command(),
            success("head-9\n"),
        ),
        (
            default_branch_command("acme/widgets", "old-head"),
            failure(1, "HTTP 404"),
        ),
    ]);
    let discovery = GitHubDiscovery::new(FakeRunner::new(calls));

    let error = discovery.discover().expect_err("deleted branch is unsafe");

    assert!(matches!(
        error,
        DiscoveryError::HistoricalCurrentPullRequest { reason, .. } if reason == "deleted_head"
    ));
    discovery.runner.assert_exhausted();
}

#[test]
fn closed_unmerged_historical_branch_fails_closed() {
    let closed = merged_pr_json()
        .replace("\"state\":\"MERGED\"", "\"state\":\"CLOSED\"")
        .replace("\"mergedAt\":\"2026-07-17T09:00:00Z\"", "\"mergedAt\":null");
    let calls = historical_discovery_calls("[]", closed);
    let discovery = GitHubDiscovery::new(FakeRunner::new(calls));

    let error = discovery
        .discover()
        .expect_err("unmerged closure is unsafe");

    assert!(matches!(
        error,
        DiscoveryError::HistoricalCurrentPullRequest { reason, .. } if reason == "closed_unmerged"
    ));
    discovery.runner.assert_exhausted();
}

#[test]
fn explicit_pr_creation_accepts_one_advanced_unlabelled_merged_branch() {
    let unlabelled =
        merged_pr_json().replace(r#""labels":[{"name":"caravan"}]"#, r#""labels":[]"#);
    let mut calls = historical_discovery_calls("[]", unlabelled);
    calls.extend([
        (
            current_head_oid_command(),
            success("new-head\n"),
        ),
        (
            default_branch_command("acme/widgets", "old-head"),
            success(r#"{"object":{"sha":"new-head"}}"#),
        ),
        (
            CommandSpec::git(vec![
                "merge-base",
                "--is-ancestor",
                "head-9",
                "new-head",
            ]),
            success(""),
        ),
    ]);
    let discovery =
        GitHubDiscovery::new(FakeRunner::new(calls)).with_options(DiscoveryOptions {
            allow_unlabelled_historical_pr_creation: true,
            ..DiscoveryOptions::default()
        });
    let snapshot = discovery
        .discover()
        .expect("advanced historical branch is fresh PR ancestry");
    assert_eq!(snapshot.current_pr, None);
    discovery.runner.assert_exhausted();
}

#[test]
fn unique_exact_open_head_precedes_unlabelled_merged_branch_history() {
    let historical =
        merged_pr_json().replace(r#""labels":[{"name":"caravan"}]"#, r#""labels":[]"#);
    let open = pr_list_json(12, "old-head", "acme/widgets", false)
        .replace(r#""labels":[{"name":"caravan"}]"#, r#""labels":[]"#);
    let history = format!(
        "[{},{}]",
        &historical[1..historical.len() - 1],
        &open[1..open.len() - 1]
    );
    let mut calls = historical_discovery_calls("[]", history);
    calls.extend([
        (
            current_head_oid_command(),
            success("head-12\n"),
        ),
        (
            default_branch_command("acme/widgets", "old-head"),
            success(r#"{"object":{"sha":"head-12"}}"#),
        ),
    ]);
    let discovery = GitHubDiscovery::new(FakeRunner::new(calls));

    let snapshot = discovery
        .discover()
        .expect("one exact open generation wins over old branch text");

    assert_eq!(snapshot.current_pr, Some(PrNumber(12)));
    let current = snapshot
        .pull_requests
        .iter()
        .find(|pull| pull.number == PrNumber(12))
        .expect("exact open PR retained");
    assert_eq!(current.state, PullRequestState::Open);
    discovery.runner.assert_exhausted();
}

#[test]
fn multiple_open_reuses_remain_ambiguous_before_oid_checks() {
    let first = pr_list_json(12, "old-head", "acme/widgets", false);
    let second = pr_list_json(13, "old-head", "acme/widgets", false);
    let history = format!(
        "[{},{}]",
        &first[1..first.len() - 1],
        &second[1..second.len() - 1]
    );
    let calls = historical_discovery_calls("[]", history);
    let discovery = GitHubDiscovery::new(FakeRunner::new(calls));

    let error = discovery
        .discover()
        .expect_err("duplicate open reuse is unsafe");

    assert!(matches!(
        error,
        DiscoveryError::HistoricalCurrentPullRequest { reason, .. } if reason == "open_branch_reuse_ambiguous"
    ));
    discovery.runner.assert_exhausted();
}

#[test]
fn unique_open_reuse_refuses_provider_remote_head_mismatch() {
    let open = pr_list_json(12, "old-head", "acme/widgets", false)
        .replace(r#""labels":[{"name":"caravan"}]"#, r#""labels":[]"#);
    let mut calls = historical_discovery_calls("[]", open);
    calls.extend([
        (
            current_head_oid_command(),
            success("head-12\n"),
        ),
        (
            default_branch_command("acme/widgets", "old-head"),
            success(r#"{"object":{"sha":"different-head"}}"#),
        ),
    ]);
    let discovery = GitHubDiscovery::new(FakeRunner::new(calls));

    let error = discovery
        .discover()
        .expect_err("remote branch movement invalidates reused head identity");

    assert!(matches!(
        error,
        DiscoveryError::HistoricalCurrentPullRequest { reason, .. } if reason == "exact_open_head_mismatch"
    ));
    discovery.runner.assert_exhausted();
}

#[test]
fn exact_open_reuse_refuses_conflicting_historical_membership() {
    let historical = merged_pr_json();
    let open = pr_list_json(12, "old-head", "acme/widgets", false)
        .replace(r#""labels":[{"name":"caravan"}]"#, r#""labels":[]"#);
    let history = format!(
        "[{},{}]",
        &historical[1..historical.len() - 1],
        &open[1..open.len() - 1]
    );
    let mut calls = historical_discovery_calls("[]", history);
    calls.extend([
        (
            current_head_oid_command(),
            success("head-12\n"),
        ),
        (
            default_branch_command("acme/widgets", "old-head"),
            success(r#"{"object":{"sha":"head-12"}}"#),
        ),
    ]);
    let discovery = GitHubDiscovery::new(FakeRunner::new(calls));

    let error = discovery
        .discover()
        .expect_err("retained caravan branch history remains authoritative");

    assert!(matches!(
        error,
        DiscoveryError::HistoricalCurrentPullRequest { reason, .. } if reason == "historical_membership_conflict"
    ));
    discovery.runner.assert_exhausted();
}

#[test]
fn reused_historical_branch_fails_closed_before_oid_checks() {
    let duplicate = format!(
        "[{},{}]",
        &merged_pr_json()[1..merged_pr_json().len() - 1],
        &merged_pr_json()[1..merged_pr_json().len() - 1]
            .replace("\"number\":9", "\"number\":8")
    );
    let calls = historical_discovery_calls("[]", duplicate);
    let discovery = GitHubDiscovery::new(FakeRunner::new(calls));

    let error = discovery.discover().expect_err("branch reuse is ambiguous");

    assert!(matches!(
        error,
        DiscoveryError::HistoricalCurrentPullRequest { reason, .. } if reason == "branch_reuse_ambiguous"
    ));
    discovery.runner.assert_exhausted();
}

#[test]
fn generation_facts_include_recently_merged_labelled_prs() {
    let repository = repository();
    let open_json = pr_list_json(12, "feature/widget", "acme/widgets", false);
    let open_pulls = snapshots(&open_json);
    let runner = FakeRunner::new(vec![
        (
            repository_command(),
            success(
                r#"{"nameWithOwner":"acme/widgets","defaultBranchRef":{"name":"main"}}"#,
            ),
        ),
        (current_branch_command(), failure(1, "")),
        (
            previous_default_command("main"),
            failure(128, "unknown revision"),
        ),
        (
            default_branch_command("acme/widgets", "main"),
            success(r#"{"object":{"sha":"default-sha"}}"#),
        ),
        (
            open_pr_command("acme/widgets", 1_000),
            success(open_json.clone()),
        ),
        (
            merge_candidates_command(&repository, &open_pulls),
            success(r#"{"data":{"repository":{"defaultBranchRef":null}}}"#),
        ),
        (
            labeled_pr_command("acme/widgets", "merged", "caravan", 100, true),
            success(merged_pr_json()),
        ),
    ]);
    let discovery = GitHubDiscovery::new(runner);

    let snapshot = discovery.discover().expect("discovery succeeds");

    let generation_prs = snapshot
        .generation_facts
        .iter()
        .map(|fact| fact.pr)
        .collect::<Vec<_>>();
    assert!(
        generation_prs.contains(&PrNumber(9)),
        "merged labelled PR must contribute a generation fact: {generation_prs:?}"
    );
    assert!(generation_prs.contains(&PrNumber(12)));
    discovery.runner.assert_exhausted();
}

#[test]
fn large_repository_uses_one_open_rollup_and_minimal_history_query() {
    let open_prs = large_open_pr_fixture();
    let mut calls = successful_discovery_calls(&open_prs);
    calls.push((
        branch_pr_history_command("acme/widgets", "feature/widget", 100),
        success("[]"),
    ));
    assert_eq!(
        calls.len(),
        8,
        "non-PR branches add only one bounded history lookup"
    );
    let merged_command = &calls[6].0;
    let projection = merged_command.args.last().unwrap();
    assert!(!projection.contains("statusCheckRollup"));

    let runner = FakeRunner::new(calls);
    let discovery = GitHubDiscovery::new(runner);
    let snapshot = discovery.discover().expect("large discovery succeeds");

    assert_eq!(snapshot.pull_requests.len(), 31);
    assert_eq!(
        snapshot
            .pull_requests
            .iter()
            .filter(|pull_request| pull_request.state == PullRequestState::Open)
            .count(),
        30
    );
    assert!(
        snapshot
            .pull_requests
            .iter()
            .filter(|pr| pr.state == PullRequestState::Open)
            .all(|pr| pr.checks.len() == 2)
    );
    assert!(
        snapshot
            .pull_requests
            .iter()
            .find(|pr| pr.state == PullRequestState::Merged)
            .unwrap()
            .checks
            .is_empty()
    );
    discovery.runner.assert_exhausted();
}

#[test]
fn candidate_freshness_preserves_simultaneous_base_and_head_staleness() {
    let candidate = SyntheticMergeCandidate {
        git_ref: "refs/pull/12/merge".to_owned(),
        oid: CommitOid("merge".to_owned()),
        tree_oid: CommitOid("tree".to_owned()),
        parents: vec![
            CommitOid("old-base".to_owned()),
            CommitOid("old-head".to_owned()),
        ],
    };

    let (freshness, compared_base, stale_base, stale_head, reasons) = classify_candidate(
        Some(&candidate),
        &BranchSnapshot {
            repository: repository(),
            name: "main".to_owned(),
            oid: CommitOid("base".to_owned()),
        },
        &CommitOid("head".to_owned()),
        None,
    );

    assert_eq!(freshness, MergeCandidateFreshness::StaleHead);
    assert_eq!(
        compared_base.map(|base| base.oid),
        Some(CommitOid("base".to_owned()))
    );
    assert!(stale_base);
    assert!(stale_head);
    assert_eq!(reasons.len(), 2);
}

#[test]
fn superseded_default_base_is_never_reported_fresh() {
    let repository = repository();
    let recorded_base = BranchSnapshot {
        repository: repository.clone(),
        name: "main".to_owned(),
        oid: CommitOid("1a09ceec".to_owned()),
    };
    let current_default = BranchSnapshot {
        repository,
        name: "main".to_owned(),
        oid: CommitOid("9d6278a1".to_owned()),
    };
    let candidate = SyntheticMergeCandidate {
        git_ref: "refs/pull/2210/merge".to_owned(),
        oid: CommitOid("merge".to_owned()),
        tree_oid: CommitOid("tree".to_owned()),
        parents: vec![
            CommitOid("1a09ceec".to_owned()),
            CommitOid("head".to_owned()),
        ],
    };

    let (freshness, compared_base, stale_base, stale_head, reasons) = classify_candidate(
        Some(&candidate),
        &recorded_base,
        &CommitOid("head".to_owned()),
        Some(&current_default),
    );

    assert_eq!(freshness, MergeCandidateFreshness::StaleBase);
    assert!(stale_base, "a superseded base can never be reported fresh");
    assert!(!stale_head);
    assert_eq!(
        compared_base.map(|base| base.oid),
        Some(CommitOid("9d6278a1".to_owned())),
        "receipts expose the exact generation the claim was compared against"
    );
    assert!(
        reasons
            .iter()
            .any(|reason| reason.contains("superseded by the current main tip"))
    );

    let fresh_base = BranchSnapshot {
        oid: CommitOid("1a09ceec".to_owned()),
        ..current_default.clone()
    };
    let (freshness, _, stale_base, _, reasons) = classify_candidate(
        Some(&candidate),
        &fresh_base,
        &CommitOid("head".to_owned()),
        Some(&fresh_base),
    );
    assert_eq!(freshness, MergeCandidateFreshness::Fresh);
    assert!(!stale_base);
    assert!(reasons.is_empty());
}

#[test]
fn missing_synthetic_candidate_still_reports_a_superseded_base() {
    let repository = repository();
    let recorded_base = BranchSnapshot {
        repository: repository.clone(),
        name: "main".to_owned(),
        oid: CommitOid("old".to_owned()),
    };
    let current_default = BranchSnapshot {
        repository,
        name: "main".to_owned(),
        oid: CommitOid("new".to_owned()),
    };

    let (freshness, compared_base, stale_base, stale_head, reasons) = classify_candidate(
        None,
        &recorded_base,
        &CommitOid("head".to_owned()),
        Some(&current_default),
    );

    assert_eq!(freshness, MergeCandidateFreshness::Missing);
    assert!(stale_base);
    assert!(!stale_head);
    assert_eq!(
        compared_base.map(|base| base.oid),
        Some(CommitOid("new".to_owned()))
    );
    assert_eq!(reasons.len(), 2);
}

#[test]
fn preserves_unknown_provider_check_values() {
    let open_prs =
        pr_list_json(12, "feature/widget", "acme/widgets", false).replace("SUCCESS", "WOBBLY");
    let runner = FakeRunner::new(successful_discovery_calls(&open_prs));
    let discovery = GitHubDiscovery::new(runner);

    let snapshot = discovery.discover().expect("discovery succeeds");
    let check = &snapshot
        .pull_requests
        .iter()
        .find(|pull_request| pull_request.number == PrNumber(12))
        .expect("open PR is present")
        .checks[0];

    assert_eq!(check.state, CheckState::Unknown);
    assert_eq!(check.provider_state.as_deref(), Some("WOBBLY"));
    discovery.runner.assert_exhausted();
}

#[test]
fn empty_check_conclusion_falls_back_to_nonempty_status() {
    let open_prs = pr_list_json(12, "feature/widget", "acme/widgets", false)
        .replace("\"status\":\"COMPLETED\"", "\"status\":\"QUEUED\"")
        .replace("\"conclusion\":\"SUCCESS\"", "\"conclusion\":\"\"");
    let runner = FakeRunner::new(successful_discovery_calls(&open_prs));
    let discovery = GitHubDiscovery::new(runner);

    let snapshot = discovery.discover().expect("discovery succeeds");
    let check = &snapshot
        .pull_requests
        .iter()
        .find(|pull_request| pull_request.number == PrNumber(12))
        .expect("open PR is present")
        .checks[0];

    assert_eq!(check.state, CheckState::Queued);
    assert_eq!(check.provider_state.as_deref(), Some("QUEUED"));
    discovery.runner.assert_exhausted();
}

#[test]
fn rejects_fork_only_active_caravan_heads() {
    let fork_prs = pr_list_json(14, "fork-feature", "someone/widgets", true);
    let mut calls = successful_discovery_calls(&fork_prs);
    calls.pop(); // merged-history query
    calls.pop(); // lineage/history query; active-head validation stops before it
    let runner = FakeRunner::new(calls);
    let discovery = GitHubDiscovery::new(runner);

    let error = discovery
        .discover()
        .expect_err("fork-only predecessor branches are unsupported");

    assert_eq!(
        error,
        DiscoveryError::ForkOnlyHead {
            pr: 14,
            head_repository: "someone/widgets".to_owned(),
            base_repository: "acme/widgets".to_owned(),
        }
    );
    discovery.runner.assert_exhausted();
}

#[test]
fn detached_head_is_represented_without_a_current_pr_query() {
    let runner = FakeRunner::new(vec![
        (
            repository_command(),
            success(
                r#"{"nameWithOwner":"acme/widgets","defaultBranchRef":{"name":"main"}}"#,
            ),
        ),
        (current_branch_command(), failure(1, "")),
        (
            previous_default_command("main"),
            failure(128, "unknown revision"),
        ),
        (
            default_branch_command("acme/widgets", "main"),
            success(r#"{"object":{"sha":"default-sha"}}"#),
        ),
        (
            open_pr_command("acme/widgets", 1_000),
            success("[]"),
        ),
        (
            merge_candidates_command(&repository(), &Vec::new()),
            success(r#"{"data":{"repository":{"defaultBranchRef":null}}}"#),
        ),
        (
            labeled_pr_command("acme/widgets", "merged", "caravan", 100, true),
            success("[]"),
        ),
    ]);
    let discovery = GitHubDiscovery::new(runner);

    let snapshot = discovery.discover().expect("detached discovery succeeds");

    assert_eq!(snapshot.current_branch, None);
    assert_eq!(snapshot.current_pr, None);
    discovery.runner.assert_exhausted();
}

#[test]
fn stale_precondition_stops_before_provider_mutation() {
    let repository = repository();
    let expected = precondition(12);
    let actual =
        pr_object_json(12, "feature/widget", "acme/widgets").replace("head-12", "changed-head");
    let runner = FakeRunner::new(vec![(
        pull_request_command(&repository, "12"),
        success(actual),
    )]);
    let adapter = GitHubMutationAdapter::new(runner);

    let error = adapter
        .set_base(&repository, &expected, "develop")
        .expect_err("stale PR must not be edited");

    assert!(matches!(
        error,
        MutationError::StalePrecondition { changed_fields, .. }
            if changed_fields == ["head_oid"]
    ));
    adapter.runner.assert_exhausted();
}

#[test]
fn check_only_churn_does_not_stale_unrelated_provider_mutation() {
    let repository = repository();
    let expected = precondition(12);
    let before = pr_object_json(12, "feature/widget", "acme/widgets").replace(
        r#""status":"COMPLETED","conclusion":"SUCCESS""#,
        r#""status":"IN_PROGRESS","conclusion":null"#,
    );
    let after = before
        .replace(r#""baseRefName":"main""#, r#""baseRefName":"develop""#)
        .replace(r#""baseRefOid":"base-12""#, r#""baseRefOid":"develop-oid""#);
    let runner = FakeRunner::new(vec![
        (
            pull_request_command(&repository, "12"),
            success(before.clone()),
        ),
        (
            edit_pull_request_command(&repository, PrNumber(12), "--base", "develop"),
            success("https://example.test/pr/12\n"),
        ),
        (
            pull_request_command(&repository, "12"),
            success(after),
        ),
    ]);
    let adapter = GitHubMutationAdapter::new(runner);

    let receipt = adapter.set_base(&repository, &expected, "develop").unwrap();

    assert_eq!(receipt.kind, MutationKind::SetBase);
    assert_eq!(
        receipt.before.unwrap().checks[0].state,
        CheckState::InProgress
    );
    assert_eq!(receipt.after.base.name, "develop");
    adapter.runner.assert_exhausted();
}

#[test]
fn ci_specific_precondition_still_rejects_check_churn() {
    let repository = repository();
    let expected = precondition(12);
    let before = pr_object_json(12, "feature/widget", "acme/widgets").replace(
        r#""status":"COMPLETED","conclusion":"SUCCESS""#,
        r#""status":"IN_PROGRESS","conclusion":null"#,
    );
    let runner = FakeRunner::new(vec![(
        pull_request_command(&repository, "12"),
        success(before),
    )]);
    let adapter = GitHubMutationAdapter::new(runner);

    let error = adapter
        .verify_precondition_with_checks(&repository, &expected)
        .unwrap_err();

    assert!(matches!(
        error,
        MutationError::StalePrecondition { changed_fields, .. }
            if changed_fields == ["checks"]
    ));
    adapter.runner.assert_exhausted();
}

#[test]
fn base_edit_refetches_exact_before_and_after_facts() {
    let repository = repository();
    let expected = precondition(12);
    let before = pr_object_json(12, "feature/widget", "acme/widgets");
    let after = before
        .replace("\"baseRefName\":\"main\"", "\"baseRefName\":\"develop\"")
        .replace(
            "\"baseRefOid\":\"base-12\"",
            "\"baseRefOid\":\"develop-oid\"",
        );
    let runner = FakeRunner::new(vec![
        (
            pull_request_command(&repository, "12"),
            success(before),
        ),
        (
            edit_pull_request_command(&repository, PrNumber(12), "--base", "develop"),
            success("https://example.test/pr/12\n"),
        ),
        (
            pull_request_command(&repository, "12"),
            success(after),
        ),
    ]);
    let adapter = GitHubMutationAdapter::new(runner);

    let receipt = adapter
        .set_base(&repository, &expected, "develop")
        .expect("base edit succeeds");

    assert_eq!(receipt.kind, MutationKind::SetBase);
    assert_eq!(receipt.before.as_ref().unwrap().base.name, "main");
    assert_eq!(receipt.after.base.name, "develop");
    assert_eq!(receipt.after.base.oid, CommitOid("develop-oid".to_owned()));
    adapter.runner.assert_exhausted();
}

#[test]
fn create_pull_request_uses_fill_and_refetches_returned_url() {
    let repository = repository();
    let input = CreatePullRequestInput {
        head: "feature/widget".to_owned(),
        base: "main".to_owned(),
        draft: true,
    };
    let url = "https://example.test/pr/12";
    let runner = FakeRunner::new(vec![
        (
            create_pull_request_command(&repository, &input.head, &input.base, input.draft),
            success(format!("{url}\n")),
        ),
        (
            pull_request_command(&repository, url),
            success(pr_object_json(12, "feature/widget", "acme/widgets")),
        ),
    ]);
    let adapter = GitHubMutationAdapter::new(runner);

    let receipt = adapter
        .create_pull_request(&repository, &input)
        .expect("PR creation succeeds");

    assert_eq!(receipt.kind, MutationKind::CreatePullRequest);
    assert_eq!(receipt.before, None);
    assert_eq!(receipt.after.number, PrNumber(12));
    assert_eq!(receipt.provider_output.as_deref(), Some(url));
    adapter.runner.assert_exhausted();
}

fn comments_json(body: &str) -> String {
    let body = serde_json::Value::String(body.to_owned());
    format!(r#"[[{{"body":{body}}}]]"#)
}

fn disarmed(pull: &str) -> String {
    pull.replace(
        r#""autoMergeRequest":{"mergeMethod":"SQUASH","enabledAt":"2026-07-17T10:00:00Z","enabledBy":{"login":"octocat"}}"#,
        r#""autoMergeRequest":null"#,
    )
}

fn audit(marker: &str) -> ControlLabelAudit {
    ControlLabelAudit {
        operation: "new".to_owned(),
        marker: marker.to_owned(),
        before_labels: LabelSet::new(),
        after_labels: labels(&["caravan"]),
        actor: "cara test actor".to_owned(),
        reason: "eligible admission".to_owned(),
        reason_source: "deterministic policy".to_owned(),
        compatibility_evidence: "clean".to_owned(),
        clean_squash_evidence: "squash enabled".to_owned(),
        admission_priority_basis: "FIFO".to_owned(),
    }
}

#[test]
fn control_label_markers_dedupe_exact_retries_but_distinguish_same_head_transitions() {
    let before = LabelSet::new();
    let active = labels(&["caravan"]);
    let prioritized = labels(&["caravan", "caravan-priority:high"]);
    let head = CommitOid("same-head".to_owned());

    let first = control_label_marker("new", PrNumber(12), &head, &before, &active);
    let retry = control_label_marker("new", PrNumber(12), &head, &before, &active);
    let second = control_label_marker("new", PrNumber(12), &head, &active, &prioritized);

    assert_eq!(first, retry);
    assert_ne!(first, second);
}

#[test]
fn control_label_comment_posts_marked_durable_reason() {
    let repository = repository();
    let expected = precondition(12);
    let audit = audit("v1:new:12:head-12");
    let pull = pr_object_json(12, "feature/widget", "acme/widgets");
    let runner = FakeRunner::new(vec![
        (
            pull_request_command(&repository, "12"),
            success(pull.clone()),
        ),
        (
            issue_comments_command(&repository, PrNumber(12)),
            success("[[]]"),
        ),
        (
            comment_pull_request_command(&repository, PrNumber(12), &audit.body()),
            success("https://example.test/comment/1"),
        ),
        (
            pull_request_command(&repository, "12"),
            success(pull),
        ),
    ]);
    let adapter = GitHubMutationAdapter::new(runner);

    let receipt = adapter
        .ensure_control_label_comment(&repository, &expected, &audit)
        .unwrap();

    assert_eq!(receipt.kind, MutationKind::Comment);
    assert!(audit.body().contains("Admission priority:** FIFO"));
    adapter.runner.assert_exhausted();
}

#[test]
fn control_label_comment_dedupes_from_github_visible_marker() {
    let repository = repository();
    let expected = precondition(12);
    let audit = audit("v1:new:12:head-12");
    let pull = pr_object_json(12, "feature/widget", "acme/widgets");
    let comments = format!(r#"[[{{"body":"{}"}}]]"#, audit.visible_marker());
    let runner = FakeRunner::new(vec![
        (
            pull_request_command(&repository, "12"),
            success(pull.clone()),
        ),
        (
            issue_comments_command(&repository, PrNumber(12)),
            success(comments),
        ),
        (
            pull_request_command(&repository, "12"),
            success(pull),
        ),
    ]);
    let adapter = GitHubMutationAdapter::new(runner);

    let receipt = adapter
        .ensure_control_label_comment(&repository, &expected, &audit)
        .unwrap();

    assert!(
        receipt
            .provider_output
            .unwrap()
            .starts_with("existing GitHub comment")
    );
    adapter.runner.assert_exhausted();
}

#[test]
fn generic_marked_comment_dedupes_exact_skip_receipt() {
    let repository = repository();
    let expected = precondition(12);
    let pull = pr_object_json(12, "feature/widget", "acme/widgets");
    let marker = "<!-- caravan-auto-join-skip-receipt:abcd -->";
    let comments = comments_json(&format!("{marker}\nexisting receipt"));
    let runner = FakeRunner::new(vec![
        (
            pull_request_command(&repository, "12"),
            success(pull.clone()),
        ),
        (
            issue_comments_command(&repository, PrNumber(12)),
            success(comments),
        ),
        (
            pull_request_command(&repository, "12"),
            success(pull),
        ),
    ]);
    let adapter = GitHubMutationAdapter::new(runner);

    let receipt = adapter
        .ensure_marked_comment(&repository, &expected, marker, "replacement")
        .unwrap();

    assert!(
        receipt
            .provider_output
            .unwrap()
            .starts_with("existing GitHub comment")
    );
    adapter.runner.assert_exhausted();
}

#[test]
fn control_label_comment_dedupes_partial_retry_with_changed_local_before_snapshot() {
    let repository = repository();
    let expected = precondition(12);
    let mut first = audit("");
    first.marker = control_label_marker(
        "new",
        PrNumber(12),
        &expected.head_oid,
        &LabelSet::new(),
        &first.after_labels,
    );
    let mut retry = first.clone();
    retry.before_labels = retry.after_labels.clone();
    retry.marker = control_label_marker(
        "new",
        PrNumber(12),
        &expected.head_oid,
        &retry.before_labels,
        &retry.after_labels,
    );
    assert_ne!(first.marker, retry.marker);
    let comments = comments_json(&first.body());
    let pull = pr_object_json(12, "feature/widget", "acme/widgets");
    let runner = FakeRunner::new(vec![
        (
            pull_request_command(&repository, "12"),
            success(pull.clone()),
        ),
        (
            issue_comments_command(&repository, PrNumber(12)),
            success(comments),
        ),
        (
            pull_request_command(&repository, "12"),
            success(pull),
        ),
    ]);
    let adapter = GitHubMutationAdapter::new(runner);

    let receipt = adapter
        .ensure_control_label_comment(&repository, &expected, &retry)
        .unwrap();

    assert!(
        receipt
            .provider_output
            .unwrap()
            .starts_with("existing GitHub comment")
    );
    adapter.runner.assert_exhausted();
}

#[test]
fn reviewed_force_state_uses_one_graphql_mutation_and_refetches_complete_postcondition() {
    let repository = repository();
    let mutation = force_transaction_command("PR_node", Some("LABEL_node".to_owned()), true, true);
    let rendered = mutation.display();
    assert!(
        rendered.find("forceAutoMerge").unwrap() < rendered.find("forceLabel").unwrap(),
        "safe serial prefix enables holding auto-merge before arming force intent"
    );
    let mut expected = precondition(12);
    expected.auto_merge = AutoMergeState::disabled();
    let armed = pr_object_json(12, "feature/widget", "acme/widgets");
    let before = disarmed(&armed);
    let after = armed.replace(
        r#""labels":[{"name":"caravan"}]"#,
        r#""labels":[{"name":"caravan"},{"name":"caravan-force"}]"#,
    );
    let ids = r#"{"data":{"repository":{"pullRequest":{"id":"PR_node"},"label":{"id":"LABEL_node"}}}}"#;
    let runner = FakeRunner::new(vec![
        (
            pull_request_command(&repository, "12"),
            success(before),
        ),
        (
            force_transaction_ids_command(&repository, PrNumber(12), "caravan-force"),
            success(ids),
        ),
        (
            force_transaction_command("PR_node", Some("LABEL_node".to_owned()), true, true),
            success(r#"{"data":{"forceLabel":{},"forceAutoMerge":{}}}"#),
        ),
        (
            pull_request_command(&repository, "12"),
            success(after),
        ),
    ]);
    let adapter = GitHubMutationAdapter::new(runner);

    let (receipt, performed) = adapter
        .atomic_label_and_squash_auto_merge(&repository, &expected, "caravan-force", true, true)
        .unwrap();

    assert!(performed);
    assert_eq!(receipt.kind, MutationKind::ForceIntentTransaction);
    assert!(receipt.after.has_label("caravan-force"));
    assert_eq!(receipt.after.auto_merge, AutoMergeState::squash());
    adapter.runner.assert_exhausted();
}

#[test]
fn reviewed_force_partial_graphql_result_is_explicit_and_resumable() {
    let repository = repository();
    let mut expected = precondition(12);
    expected.auto_merge = AutoMergeState::disabled();
    let armed = pr_object_json(12, "feature/widget", "acme/widgets");
    let before = disarmed(&armed);
    let partial = armed;
    let ids = r#"{"data":{"repository":{"pullRequest":{"id":"PR_node"},"label":{"id":"LABEL_node"}}}}"#;
    let runner = FakeRunner::new(vec![
        (
            pull_request_command(&repository, "12"),
            success(before),
        ),
        (
            force_transaction_ids_command(&repository, PrNumber(12), "caravan-force"),
            success(ids),
        ),
        (
            force_transaction_command("PR_node", Some("LABEL_node".to_owned()), true, true),
            failure(1, "second mutation field failed"),
        ),
        (
            pull_request_command(&repository, "12"),
            success(partial),
        ),
    ]);
    let adapter = GitHubMutationAdapter::new(runner);

    let error = adapter
        .atomic_label_and_squash_auto_merge(&repository, &expected, "caravan-force", true, true)
        .unwrap_err();

    assert!(matches!(
        error,
        MutationError::AtomicTransactionIncomplete {
            desired_label_present: true,
            desired_squash_auto_merge: true,
            ref after,
            ..
        } if !after.has_label("caravan-force") && after.auto_merge.enabled
    ));
    adapter.runner.assert_exhausted();
}

#[test]
fn generation_facts_parse_provider_body_and_compare_exact_source_commits() {
    let repository = repository();
    let source = "a".repeat(40);
    let generation = format!("agent/example-pr-g{source}");
    let body = format!(
        "Beads: bd-c7440c\n\nCacophony-Generation: `{generation}`\nCacophony-Agent: `agent-a`\nCacophony-Head: `{source}`\nCacophony-Stack-Base: `main`\nCacophony-Stack-State: `root`"
    );
    let body_json = serde_json::Value::String(body.clone());
    let pull = pr_object_json(12, &generation, "acme/widgets")
        .replace("head-12", &"b".repeat(40))
        .replace(
            r#""title":"#,
            &format!(r#""body":{body_json},"title":"#),
        );
    let head = CommitOid("c".repeat(40));
    let runner = FakeRunner::new(vec![
        (
            open_generation_pr_command(&repository.slug(), 1_000),
            success(format!("[{pull}]")),
        ),
        (
            compare_commits_command(&repository, &CommitOid(source.clone()), &head),
            success(r#"{"status":"ahead"}"#),
        ),
    ]);
    let adapter = GitHubMutationAdapter::new(runner);

    let facts = adapter.open_generation_facts(&repository).unwrap();
    assert_eq!(facts.len(), 1);
    assert_eq!(facts[0].head_oid, CommitOid("b".repeat(40)));
    assert_eq!(facts[0].head_ref, generation);
    assert_eq!(facts[0].body, body);
    assert_eq!(
        adapter
            .compare_commits(&repository, &CommitOid(source), &head)
            .unwrap(),
        CommitRelation::Ahead
    );
    adapter.runner.assert_exhausted();
}

#[test]
fn failed_workflow_runs_preserve_provider_state_and_exact_head() {
    let repository = repository();
    let expected = precondition(12);
    let runner = FakeRunner::new(vec![
        (
            pull_request_command(&repository, "12"),
            success(pr_object_json(12, "feature/widget", "acme/widgets")),
        ),
        (
            failed_runs_command(&repository, "head-12"),
            success(
                r#"[{"databaseId":99,"headSha":"head-12","status":"completed","conclusion":"failure","event":"pull_request","name":"CI","workflowName":"CI","url":"https://example.test/run/99"}]"#,
            ),
        ),
    ]);
    let adapter = GitHubMutationAdapter::new(runner);

    let runs = adapter
        .failed_runs_for_pull_request(&repository, &expected)
        .expect("failed runs are discovered");

    assert_eq!(runs.len(), 1);
    assert_eq!(runs[0].database_id, 99);
    assert_eq!(runs[0].status, "completed");
    assert_eq!(runs[0].conclusion, "failure");
    adapter.runner.assert_exhausted();
}

#[test]
fn rerun_failed_run_verifies_run_and_pr_before_mutation() {
    let repository = repository();
    let expected = precondition(12);
    let pull_request = pr_object_json(12, "feature/widget", "acme/widgets");
    let runner = FakeRunner::new(vec![
        (
            workflow_run_command(&repository, 99),
            success(
                r#"{"id":99,"head_sha":"head-12","status":"completed","conclusion":"failure","event":"pull_request","name":"CI","html_url":"https://example.test/run/99","pull_requests":[{"number":12}]}"#,
            ),
        ),
        (
            pull_request_command(&repository, "12"),
            success(pull_request.clone()),
        ),
        (
            rerun_failed_command(&repository, 99),
            success(""),
        ),
        (
            pull_request_command(&repository, "12"),
            success(pull_request),
        ),
    ]);
    let adapter = GitHubMutationAdapter::new(runner);

    let receipt = adapter
        .rerun_failed_run(&repository, &expected, 99)
        .expect("failed run reruns");

    assert_eq!(receipt.kind, MutationKind::RerunChecks);
    assert_eq!(receipt.before.unwrap().number, PrNumber(12));
    assert_eq!(receipt.after.number, PrNumber(12));
    adapter.runner.assert_exhausted();
}

#[test]
fn rerun_failed_run_rejects_another_pull_requests_run() {
    let repository = repository();
    let expected = precondition(12);
    let runner = FakeRunner::new(vec![
        (
            workflow_run_command(&repository, 99),
            success(
                r#"{"id":99,"head_sha":"head-12","status":"completed","conclusion":"failure","event":"pull_request","name":"CI","html_url":"https://example.test/run/99","pull_requests":[{"number":7}]}"#,
            ),
        ),
        (
            pull_request_command(&repository, "12"),
            success(pr_object_json(12, "feature/widget", "acme/widgets")),
        ),
    ]);
    let adapter = GitHubMutationAdapter::new(runner);

    let error = adapter
        .rerun_failed_run(&repository, &expected, 99)
        .expect_err("another PR's run must not rerun");

    assert!(matches!(
        error,
        MutationError::RunPullRequestMismatch {
            run_id: 99,
            expected_pr: PrNumber(12),
            actual_prs,
        } if actual_prs == vec![PrNumber(7)]
    ));
    adapter.runner.assert_exhausted();
}

#[test]
fn branch_required_contexts_merge_legacy_and_typed_declarations() {
    let repository = repository();
    let runner = FakeRunner::new(vec![
        (
            branch_settings_command(&repository, "main"),
            success(r#"{"protected":true}"#),
        ),
        (
            branch_protection_command(&repository, "main"),
            success(
                r#"{"required_status_checks":{"strict":false,"contexts":["Check & Lint"],"checks":[{"context":"Fast Tests (unit)"},{"context":"Check & Lint"}]}}"#,
            ),
        ),
    ]);
    let adapter = GitHubMutationAdapter::new(runner);

    let read = adapter
        .branch_required_contexts(&repository, "main")
        .expect("protection read succeeds");

    assert!(read.protected);
    assert!(read.complete);
    assert_eq!(
        read.contexts,
        vec!["Check & Lint".to_owned(), "Fast Tests (unit)".to_owned()]
    );
    adapter.runner.assert_exhausted();
}

#[test]
fn an_unprotected_branch_is_a_complete_empty_requirement() {
    let repository = repository();
    let runner = FakeRunner::new(vec![(
        branch_settings_command(&repository, "caravan/2210"),
        success(r#"{"protected":false}"#),
    )]);
    let adapter = GitHubMutationAdapter::new(runner);

    let read = adapter
        .branch_required_contexts(&repository, "caravan/2210")
        .expect("an unprotected branch is readable");

    assert!(!read.protected);
    assert!(read.complete);
    assert!(read.contexts.is_empty());
    adapter.runner.assert_exhausted();
}

#[test]
fn an_unreadable_protection_endpoint_is_partial_not_empty() {
    let repository = repository();
    let runner = FakeRunner::new(vec![
        (
            branch_settings_command(&repository, "main"),
            success(r#"{"protected":true}"#),
        ),
        (
            branch_protection_command(&repository, "main"),
            CommandOutput {
                code: Some(1),
                stdout: String::new(),
                stderr: "HTTP 403: Resource not accessible by integration".to_owned(),
            },
        ),
    ]);
    let adapter = GitHubMutationAdapter::new(runner);

    let read = adapter
        .branch_required_contexts(&repository, "main")
        .expect("a refused read degrades instead of failing the tick");

    assert!(read.protected);
    assert!(
        !read.complete,
        "a permission error must never look like an absence of requirements"
    );
    assert!(read.contexts.is_empty());
    adapter.runner.assert_exhausted();
}

#[test]
fn head_run_lineage_preserves_exact_suite_run_and_commit_facts() {
    let repository = repository();
    let expected = precondition(12);
    let runner = FakeRunner::new(vec![
        (
            pull_request_command(&repository, "12"),
            success(pr_object_json(12, "feature/widget", "acme/widgets")),
        ),
        (
            check_suites_command(&repository, "head-12"),
            success(
                r#"{"total_count":1,"check_suites":[{"id":4242,"head_sha":"head-12","status":"completed","conclusion":"cancelled","app":{"slug":"github-actions"}}]}"#,
            ),
        ),
        (
            head_runs_command(&repository, "head-12"),
            success(
                r#"{"total_count":1,"workflow_runs":[{"id":30222268397,"check_suite_id":4242,"name":"CI","head_sha":"head-12","status":"completed","conclusion":null,"event":"pull_request"}]}"#,
            ),
        ),
        (
            commit_command(&repository, "head-12"),
            success(
                r#"{"commit":{"committer":{"date":"2026-07-26T22:03:00Z"}}}"#,
            ),
        ),
    ]);
    let adapter = GitHubMutationAdapter::new(runner);

    let lineage = adapter
        .head_run_lineage(&repository, &expected)
        .expect("lineage read succeeds");

    assert!(lineage.complete);
    assert_eq!(lineage.head_sha, "head-12");
    assert_eq!(lineage.check_suites.len(), 1);
    assert_eq!(lineage.check_suites[0].id, 4242);
    assert_eq!(lineage.check_suites[0].conclusion, "cancelled");
    assert!(lineage.check_suites[0].rerequestable);
    assert_eq!(lineage.workflow_runs[0].run_id, 30_222_268_397);
    assert_eq!(
        lineage.workflow_runs[0].conclusion, "",
        "a null conclusion must stay empty rather than being guessed"
    );
    assert_eq!(
        lineage.head_committed_at.as_deref(),
        Some("2026-07-26T22:03:00Z")
    );
    adapter.runner.assert_exhausted();
}

#[test]
fn a_refused_lineage_sub_read_marks_the_whole_read_partial() {
    let repository = repository();
    let expected = precondition(12);
    let runner = FakeRunner::new(vec![
        (
            pull_request_command(&repository, "12"),
            success(pr_object_json(12, "feature/widget", "acme/widgets")),
        ),
        (
            check_suites_command(&repository, "head-12"),
            CommandOutput {
                code: Some(1),
                stdout: String::new(),
                stderr: "HTTP 502".to_owned(),
            },
        ),
        (
            head_runs_command(&repository, "head-12"),
            success(r#"{"total_count":0,"workflow_runs":[]}"#),
        ),
        (
            commit_command(&repository, "head-12"),
            success(
                r#"{"commit":{"committer":{"date":"2026-07-26T22:03:00Z"}}}"#,
            ),
        ),
    ]);
    let adapter = GitHubMutationAdapter::new(runner);

    let lineage = adapter
        .head_run_lineage(&repository, &expected)
        .expect("a partial read is reported, not fatal");

    assert!(!lineage.complete);
    assert!(lineage.check_suites.is_empty());
    adapter.runner.assert_exhausted();
}

#[test]
fn rerequest_check_suite_refuses_a_superseded_generation() {
    let repository = repository();
    let expected = precondition(12);
    let runner = FakeRunner::new(vec![
        (
            pull_request_command(&repository, "12"),
            success(pr_object_json(12, "feature/widget", "acme/widgets")),
        ),
        (
            check_suite_command(&repository, 4242),
            success(
                r#"{"id":4242,"head_sha":"pre-rebase-generation","status":"completed","conclusion":"cancelled","app":{"slug":"github-actions"}}"#,
            ),
        ),
    ]);
    let adapter = GitHubMutationAdapter::new(runner);

    let error = adapter
        .rerequest_check_suite(&repository, &expected, 4242)
        .expect_err("a foreign generation must never be retriggered");

    assert!(matches!(
        error,
        MutationError::CheckSuiteHeadMismatch {
            check_suite_id: 4242,
            ref expected_head,
            ref actual_head,
        } if expected_head == "head-12" && actual_head == "pre-rebase-generation"
    ));
    adapter.runner.assert_exhausted();
}

#[test]
fn rerequest_check_suite_posts_exactly_once_against_the_unchanged_head() {
    let repository = repository();
    let expected = precondition(12);
    let runner = FakeRunner::new(vec![
        (
            pull_request_command(&repository, "12"),
            success(pr_object_json(12, "feature/widget", "acme/widgets")),
        ),
        (
            check_suite_command(&repository, 4242),
            success(
                r#"{"id":4242,"head_sha":"head-12","status":"completed","conclusion":"cancelled","app":{"slug":"github-actions"}}"#,
            ),
        ),
        (
            rerequest_check_suite_command(&repository, 4242),
            success("{}"),
        ),
        (
            pull_request_command(&repository, "12"),
            success(pr_object_json(12, "feature/widget", "acme/widgets")),
        ),
    ]);
    let adapter = GitHubMutationAdapter::new(runner);

    let receipt = adapter
        .rerequest_check_suite(&repository, &expected, 4242)
        .expect("the unchanged head is retriggerable");

    assert_eq!(receipt.kind, MutationKind::RequestCheckSuite);
    assert_eq!(receipt.after.head.oid, CommitOid("head-12".to_owned()));
    assert_eq!(
        receipt.before.expect("before facts").head.oid,
        receipt.after.head.oid,
        "recovery must never change the head it is recovering"
    );
    adapter.runner.assert_exhausted();
}

#[test]
fn required_run_command_builders_stay_read_scoped_and_exact() {
    let repository = repository();
    assert_eq!(
        check_suites_command(&repository, "head-12"),
        gh(&[
            "api",
            "repos/acme/widgets/commits/head-12/check-suites?per_page=100",
        ])
    );
    assert_eq!(
        head_runs_command(&repository, "head-12"),
        gh(&[
            "api",
            "repos/acme/widgets/actions/runs?head_sha=head-12&per_page=100",
        ])
    );
    assert_eq!(
        rerequest_check_suite_command(&repository, 4242),
        gh(&[
            "api",
            "--method",
            "POST",
            "repos/acme/widgets/check-suites/4242/rerequest",
        ])
    );
}

#[test]
fn live_check_suite_payloads_decode_foreign_apps_and_null_conclusions() {
    let repository = repository();
    let expected = precondition(12);
    let runner = FakeRunner::new(vec![
        (
            pull_request_command(&repository, "12"),
            success(pr_object_json(12, "feature/widget", "acme/widgets")),
        ),
        (
            check_suites_command(&repository, "head-12"),
            success(
                r#"{"total_count":5,"check_suites":[
                    {"id":81895334808,"node_id":"x","head_branch":"agent/x","head_sha":"head-12","status":"queued","conclusion":null,"rerequestable":true,"runs_rerequestable":false,"app":{"id":1210556,"slug":"cursor","name":"Cursor"}},
                    {"id":81895334871,"head_sha":"head-12","status":"queued","conclusion":null,"rerequestable":true,"app":{"slug":"second-app"}},
                    {"id":81895334923,"head_sha":"head-12","status":"queued","conclusion":null,"rerequestable":false,"app":{"slug":"aviator-app"}},
                    {"id":81895339455,"head_sha":"head-12","status":"completed","conclusion":"cancelled","rerequestable":true,"app":{"slug":"github-actions"}},
                    {"id":81895922485,"head_sha":"head-12","status":"in_progress","conclusion":null,"rerequestable":true,"app":{"slug":"github-actions"}}
                ]}"#,
            ),
        ),
        (
            head_runs_command(&repository, "head-12"),
            success(
                r#"{"total_count":2,"workflow_runs":[
                    {"id":30222268397,"check_suite_id":81895922485,"name":"CI","head_sha":"head-12","status":"in_progress","conclusion":null,"event":"pull_request"},
                    {"id":30222037735,"check_suite_id":81895339455,"name":"CI","head_sha":"head-12","status":"completed","conclusion":"cancelled","event":"pull_request"}
                ]}"#,
            ),
        ),
        (
            commit_command(&repository, "head-12"),
            success(
                r#"{"sha":"head-12","commit":{"author":{"date":"2026-07-26T15:27:43Z"},"committer":{"name":"Caravan","date":"2026-07-26T15:27:43Z"}}}"#,
            ),
        ),
    ]);
    let adapter = GitHubMutationAdapter::new(runner);

    let lineage = adapter
        .head_run_lineage(&repository, &expected)
        .expect("the live payload shape decodes");

    assert!(lineage.complete);
    assert_eq!(lineage.check_suites.len(), 5);
    assert_eq!(lineage.workflow_runs.len(), 2);
    assert_eq!(
        lineage.head_committed_at.as_deref(),
        Some("2026-07-26T15:27:43Z"),
        "a rebase can preserve the original commit date"
    );
    assert_eq!(
        rerequestable_suite(Some(&lineage), "head-12"),
        Some(81_895_334_808)
    );
    assert!(
        !lineage.check_suites[2].rerequestable,
        "a suite the provider refuses to rerequest must never be selected"
    );
    adapter.runner.assert_exhausted();
}

#[test]
fn admin_merge_fails_closed_without_admin_permission() {
    let repository = repository();
    let expected = precondition(12);
    let runner = FakeRunner::new(vec![(
        repository_permission_command(&repository),
        success(r#"{"viewerPermission":"WRITE"}"#),
    )]);
    let adapter = GitHubMutationAdapter::new(runner);

    let error = adapter
        .admin_squash_merge(&repository, &expected)
        .expect_err("non-admin merge is rejected");

    assert_eq!(
        error,
        MutationError::PermissionDenied {
            required: "ADMIN".to_owned(),
            actual: "WRITE".to_owned(),
        }
    );
    adapter.runner.assert_exhausted();
}

#[test]
fn mutation_command_builders_keep_user_values_as_separate_arguments() {
    let repository = repository();
    assert_eq!(
        edit_pull_request_command(&repository, PrNumber(12), "--add-label", "caravan queue"),
        gh(&[
            "pr",
            "edit",
            "12",
            "--repo",
            "acme/widgets",
            "--add-label",
            "caravan queue",
        ])
    );
    assert_eq!(
        edit_pull_request_command(
            &repository,
            PrNumber(12),
            "--remove-label",
            "caravan-evicted"
        ),
        gh(&[
            "pr",
            "edit",
            "12",
            "--repo",
            "acme/widgets",
            "--remove-label",
            "caravan-evicted",
        ])
    );
    assert_eq!(
        auto_merge_command(&repository, PrNumber(12), false),
        gh(&[
            "pr",
            "merge",
            "12",
            "--repo",
            "acme/widgets",
            "--auto",
            "--squash",
        ])
    );
    assert_eq!(
        auto_merge_command(&repository, PrNumber(12), true),
        gh(&[
            "pr",
            "merge",
            "12",
            "--repo",
            "acme/widgets",
            "--disable-auto",
        ])
    );
    assert_eq!(
        admin_squash_merge_command(&repository, PrNumber(12)),
        gh(&[
            "pr",
            "merge",
            "12",
            "--repo",
            "acme/widgets",
            "--admin",
            "--squash",
        ])
    );
}

#[test]
fn json_decoder_uses_only_stdout_and_preserves_stderr_on_failure() {
    let valid_command = gh(&["fixture", "valid"]);
    let valid_runner = FakeRunner::new(vec![(
        valid_command.clone(),
        CommandOutput {
            code: Some(0),
            stdout: r#"{"value":7}"#.to_owned(),
            stderr: "\u{1b}[33mwrapper notice\u{1b}[0m\u{1}".to_owned(),
        },
    )]);
    let valid_adapter = GitHubMutationAdapter::new(valid_runner);
    let document: Members<u64> = valid_adapter
        .json(&valid_command)
        .expect("stderr cannot contaminate JSON stdout");
    assert_eq!(document.list, vec![("value".to_owned(), 7)]);
    valid_adapter.runner.assert_exhausted();

    let malformed_command = gh(&["fixture", "malformed"]);
    let malformed_runner = FakeRunner::new(vec![(
        malformed_command.clone(),
        CommandOutput {
            code: Some(0),
            stdout: "{\"value\":\u{1}}".to_owned(),
            stderr: "wrapper diagnostic".to_owned(),
        },
    )]);
    let malformed_adapter = GitHubMutationAdapter::new(malformed_runner);
    let error = malformed_adapter
        .json::<Members<u64>>(&malformed_command)
        .expect_err("control-contaminated stdout must fail closed");
    assert!(matches!(
        error,
        MutationError::Provider(DiscoveryError::InvalidJson {
            evidence,
            ..
        }) if evidence.stdout.contains('\u{1}')
            && evidence.stderr == "wrapper diagnostic"
    ));
    malformed_adapter.runner.assert_exhausted();
}

#[test]
fn json_decoder_reports_nonzero_stderr_without_parsing_stdout() {
    let command = gh(&["fixture", "failed"]);
    let runner = FakeRunner::new(vec![(
        command.clone(),
        CommandOutput {
            code: Some(23),
            stdout: r#"{"would":"parse"}"#.to_owned(),
            stderr: "provider failed".to_owned(),
        },
    )]);
    let adapter = GitHubMutationAdapter::new(runner);

    let error = adapter
        .json::<Members<u64>>(&command)
        .expect_err("nonzero command must fail before JSON decode");

    assert!(matches!(
        error,
        MutationError::Provider(DiscoveryError::CommandFailed {
            code: Some(23),
            stderr,
            ..
        }) if stderr == "provider failed"
    ));
    adapter.runner.assert_exhausted();
}

#[test]
fn exact_branch_head_verification_fails_closed_on_movement() {
    let runner = FakeRunner::new(vec![(
        default_branch_command("acme/widgets", "main"),
        success(r#"{"object":{"sha":"new-main"}}"#),
    )]);
    let adapter = GitHubMutationAdapter::new(runner);

    let error = adapter
        .verify_branch_head(&repository(), "main", &CommitOid("old-main".to_owned()))
        .expect_err("moved branch is stale");

    assert!(matches!(
        error,
        MutationError::BranchHeadMismatch {
            branch,
            expected,
            actual,
        } if branch == "main"
            && expected == CommitOid("old-main".to_owned())
            && actual == CommitOid("new-main".to_owned())
    ));
    adapter.runner.assert_exhausted();
}

#[test]
fn default_branch_policy_preserves_required_check_and_review_evidence() {
    let repository = repository();
    let runner = FakeRunner::new(vec![(
        branch_protection_command(&repository, "main"),
        success(
            r#"{"required_status_checks":{"strict":false,"contexts":["Check & Lint"],"checks":[{"context":"Fast Tests (unit)","app_id":1}]},"required_pull_request_reviews":{"required_approving_review_count":2}}"#,
        ),
    )]);
    let adapter = GitHubMutationAdapter::new(runner);
    let policy = adapter.default_branch_policy(&repository, "main").unwrap();
    assert_eq!(
        policy.required_status_checks,
        ["Check & Lint", "Fast Tests (unit)"]
    );
    assert!(!policy.strict_status_checks);
    assert_eq!(policy.required_approving_review_count, 2);
    assert!(policy.ready());
    adapter.runner.assert_exhausted();
}

#[test]
fn rate_limit_probe_preserves_core_and_graphql_resources() {
    let runner = FakeRunner::new(vec![(
        rate_limit_command(),
        success(
            r#"{"resources":{"core":{"limit":5000,"used":5003,"remaining":0,"reset":1784584831},"graphql":{"limit":5000,"used":1,"remaining":4999,"reset":1784584800},"search":{"limit":30,"used":0,"remaining":30,"reset":1784584800}}}"#,
        ),
    )]);
    let adapter = GitHubMutationAdapter::new(runner);

    let limits = adapter.rate_limits().unwrap();

    assert_eq!(limits.core.limit, 5_000);
    assert_eq!(limits.core.used, 5_003);
    assert_eq!(limits.core.remaining, 0);
    assert_eq!(limits.core.reset_unix_secs, 1_784_584_831);
    assert_eq!(limits.graphql.unwrap().remaining, 4_999);
    adapter.runner.assert_exhausted();
}

#[test]
fn percent_encodes_slashes_in_default_branch_api_path() {
    assert_eq!(
        default_branch_command("acme/widgets", "release/next"),
        gh(&["api", "repos/acme/widgets/git/ref/heads/release%2Fnext",])
    );
}

#[test]
fn ci_dispatch_provider_truncated_lists_never_prove_execution_completeness() {
    let pull = pr_object_json(12, "feature/widget", "acme/widgets").replace(
        r#"{"__typename":"CheckRun","name":"test","context":null,"status":"COMPLETED","conclusion":"SUCCESS","state":null,"workflowName":"CI","detailsUrl":"https://example.test/check","targetUrl":null}"#,
        r#"{"__typename":"CheckRun","name":"gate","workflowName":"CI","status":"COMPLETED","conclusion":"FAILURE","appId":77,"checkSuiteId":4242,"headOid":"head-12","detailsUrl":"https://github.com/acme/widgets/actions/runs/99/job/1"}"#,
    );
    let run = r#"{"id":99,"check_suite_id":4242,"workflow_id":123,"run_attempt":1,"name":"CI","head_sha":"head-12","status":"completed","conclusion":"failure","event":"pull_request","pull_requests":[{"number":12,"head":{"sha":"head-12","ref":"feature/widget"},"base":{"sha":"base-12","ref":"main"}}]}"#;
    let suite = r#"{"id":4242,"head_sha":"head-12","status":"completed","conclusion":"failure","app":{"id":77,"slug":"github-actions"}}"#;
    let snapshot = snapshots(&format!("[{pull}]")).remove(0);
    for truncated_suites in [true, false] {
        let suites = if truncated_suites { 2 } else { 1 };
        let runs = if truncated_suites { 1 } else { 2 };
        let adapter = GitHubMutationAdapter::new(FakeRunner::new(vec![
            (
                pull_request_command(&repository(), "12"),
                success(pull.clone()),
            ),
            (
                check_suites_command(&repository(), "head-12"),
                success(format!(
                    r#"{{"total_count":{suites},"check_suites":[{suite}]}}"#
                )),
            ),
            (
                head_runs_command(&repository(), "head-12"),
                success(format!(
                    r#"{{"total_count":{runs},"workflow_runs":[{run}]}}"#
                )),
            ),
            (
                commit_command(&repository(), "head-12"),
                success(r#"{"commit":{"committer":{"date":"2026-09-23T09:00:00Z"}}}"#),
            ),
        ]));
        assert!(
            !adapter
                .head_run_lineage(&repository(), &PullRequestPrecondition::from(&snapshot))
                .unwrap()
                .complete
        );
        adapter.runner.assert_exhausted();
    }
}

struct Silent;

impl CommandRunner for Silent {
    fn run(&self, command: &CommandSpec) -> Result<CommandOutput, CommandRunError> {
        Err(CommandRunError::Spawn {
            command: command.clone(),
            message: "no such file".to_owned(),
        })
    }
}

fn identity_with(reply: &str) -> MutationError {
    let adapter = GitHubMutationAdapter::new(FakeRunner::new(vec![(
        repository_command(),
        success(reply),
    )]));
    adapter.repository_identity().unwrap_err()
}

#[test]
fn a_repository_is_refused_without_a_name_or_a_default_branch() {
    assert_eq!(
        identity_with(r#"{"nameWithOwner":"acme/widgets","defaultBranchRef":null}"#),
        MutationError::Provider(DiscoveryError::MissingDefaultBranch)
    );
    assert_eq!(
        identity_with(r#"{"nameWithOwner":"widgets","defaultBranchRef":{"name":"main"}}"#),
        MutationError::Provider(DiscoveryError::InvalidRepositorySlug("widgets".to_owned()))
    );
    let text = identity_with(r#"{"nameWithOwner":7}"#).to_text();
    assert!(text.contains("returned invalid JSON"), "{text}");
}

#[test]
fn a_command_that_never_started_is_reported() {
    let error = GitHubMutationAdapter::new(Silent)
        .repository_identity()
        .unwrap_err();
    assert!(matches!(
        error,
        MutationError::Provider(DiscoveryError::Runner(CommandRunError::Spawn { command, .. }))
            if command == repository_command()
    ));
}

#[test]
fn limits_of_zero_are_refused_before_any_command() {
    for (open_limit, merged_limit, name) in [(0, 100, "open_limit"), (1_000, 0, "merged_limit")] {
        let discovery = GitHubDiscovery::new(Silent).with_options(DiscoveryOptions {
            open_limit,
            merged_limit,
            ..DiscoveryOptions::default()
        });
        assert_eq!(
            discovery.discover().unwrap_err(),
            DiscoveryError::InvalidLimit(name.to_owned())
        );
    }
}

#[test]
fn two_open_pull_requests_of_the_current_branch_are_ambiguous() {
    let first = pr_list_json(12, "feature/widget", "acme/widgets", false);
    let second = pr_list_json(13, "feature/widget", "acme/widgets", false);
    let open = format!(
        "[{},{}]",
        &first[1..first.len() - 1],
        &second[1..second.len() - 1]
    );
    let discovery = GitHubDiscovery::new(FakeRunner::new(successful_discovery_calls(&open)));
    assert_eq!(
        discovery.discover().unwrap_err(),
        DiscoveryError::AmbiguousCurrentPullRequest {
            branch: "feature/widget".to_owned(),
            candidates: vec![12, 13],
        }
    );
}

#[test]
fn a_cross_repository_head_needs_its_repository() {
    let pull = pr_object_json(14, "fork-feature", "acme/widgets")
        .replace(r#""isCrossRepository":false"#, r#""isCrossRepository":true"#)
        .replace(
            r#""headRepository":{"name":"widgets","nameWithOwner":"acme/widgets"}"#,
            r#""headRepository":null"#,
        );
    let value: serde_json::Value = serde_json::from_str(&pull).unwrap();
    let error = PullRequestJson::decode(&value)
        .unwrap()
        .into_snapshot(&repository())
        .unwrap_err();
    assert_eq!(error, DiscoveryError::MissingHeadRepository { pr: 14 });
}

#[test]
fn the_moment_of_a_discovery_counts_seconds() {
    let open_prs = pr_list_json(12, "feature/widget", "acme/widgets", false);
    let runner = FakeRunner::new(successful_discovery_calls(&open_prs));
    let snapshot = GitHubDiscovery::new(runner).discover().unwrap();
    let observed_at = &snapshot.merge_candidates[0].observed_at;
    let seconds: u64 = observed_at
        .trim_start_matches(|c: char| !c.is_ascii_digit())
        .trim_end_matches(|c: char| !c.is_ascii_digit())
        .parse()
        .unwrap();
    assert!(seconds > 1_700_000_000, "{observed_at}");
}

#[test]
fn merged_members_that_follow_each_other_are_a_cycle() {
    let first = merged_pr_json().replace(r#""baseRefName":"main""#, r#""baseRefName":"next""#);
    let second = pr_list_json(10, "next", "acme/widgets", false)
        .replace(r#""state":"OPEN""#, r#""state":"MERGED""#)
        .replace(r#""baseRefName":"main""#, r#""baseRefName":"old-head""#);
    let merged = format!(
        "[{},{}]",
        &first[1..first.len() - 1],
        &second[1..second.len() - 1]
    );
    let mut calls = historical_discovery_calls("[]", first);
    calls[6].1 = success(merged);
    calls.extend([
        (current_head_oid_command(), success("head-9\n")),
        (
            default_branch_command("acme/widgets", "old-head"),
            success(r#"{"object":{"sha":"head-9"}}"#),
        ),
    ]);
    let discovery = GitHubDiscovery::new(FakeRunner::new(calls));
    assert!(matches!(
        discovery.discover().unwrap_err(),
        DiscoveryError::HistoricalCurrentPullRequest { reason, candidates, .. }
            if reason == "successor_cycle" && candidates == vec![9]
    ));
    discovery.runner.assert_exhausted();
}

#[test]
fn two_successors_of_a_merged_member_are_ambiguous() {
    let first = pr_list_json(10, "next", "acme/widgets", false)
        .replace(r#""baseRefName":"main""#, r#""baseRefName":"old-head""#);
    let second = pr_list_json(11, "other", "acme/widgets", false)
        .replace(r#""baseRefName":"main""#, r#""baseRefName":"old-head""#);
    let open = format!(
        "[{},{}]",
        &first[1..first.len() - 1],
        &second[1..second.len() - 1]
    );
    let mut calls = historical_discovery_calls(&open, merged_pr_json().to_owned());
    calls.extend([
        (current_head_oid_command(), success("head-9\n")),
        (
            default_branch_command("acme/widgets", "old-head"),
            success(r#"{"object":{"sha":"head-9"}}"#),
        ),
    ]);
    let discovery = GitHubDiscovery::new(FakeRunner::new(calls));
    assert_eq!(
        discovery.discover().unwrap_err(),
        DiscoveryError::HistoricalCurrentPullRequest {
            reason: "ambiguous_successor".to_owned(),
            branch: "old-head".to_owned(),
            candidates: vec![10, 11],
        }
    );
}

#[test]
fn a_merged_branch_without_the_label_needs_permission() {
    let unlabelled = merged_pr_json().replace(r#""labels":[{"name":"caravan"}]"#, r#""labels":[]"#);
    let discovery =
        GitHubDiscovery::new(FakeRunner::new(historical_discovery_calls("[]", unlabelled)));
    assert!(matches!(
        discovery.discover().unwrap_err(),
        DiscoveryError::HistoricalCurrentPullRequest { reason, .. }
            if reason == "missing_caravan_label"
    ));
}

#[test]
fn a_merged_branch_with_a_moved_head_is_stale() {
    let mut calls = historical_discovery_calls("[]", merged_pr_json().to_owned());
    calls.extend([
        (current_head_oid_command(), success("moved\n")),
        (
            default_branch_command("acme/widgets", "old-head"),
            success(r#"{"object":{"sha":"head-9"}}"#),
        ),
    ]);
    let discovery = GitHubDiscovery::new(FakeRunner::new(calls));
    assert!(matches!(
        discovery.discover().unwrap_err(),
        DiscoveryError::HistoricalCurrentPullRequest { reason, .. } if reason == "stale_oid"
    ));
}

#[test]
fn a_creation_without_an_address_is_refused() {
    let repository = repository();
    let input = CreatePullRequestInput {
        head: "feature/widget".to_owned(),
        base: "main".to_owned(),
        draft: false,
    };
    let adapter = GitHubMutationAdapter::new(FakeRunner::new(vec![(
        create_pull_request_command(&repository, &input.head, &input.base, input.draft),
        success("created\n"),
    )]));
    assert!(matches!(
        adapter.create_pull_request(&repository, &input),
        Err(MutationError::MissingCreatedPullRequest { provider_output })
            if provider_output == "created"
    ));
}

fn rerun_with(run: &str) -> MutationError {
    let repository = repository();
    let adapter = GitHubMutationAdapter::new(FakeRunner::new(vec![
        (workflow_run_command(&repository, 99), success(run)),
        (
            pull_request_command(&repository, "12"),
            success(pr_object_json(12, "feature/widget", "acme/widgets")),
        ),
    ]));
    adapter
        .rerun_failed_run(&repository, &precondition(12), 99)
        .unwrap_err()
}

#[test]
fn a_run_of_another_head_or_one_that_passed_is_not_rerun() {
    assert!(matches!(
        rerun_with(r#"{"id":99,"head_sha":"old-head","status":"completed","conclusion":"failure","event":"pull_request","name":"CI","html_url":"https://example.test/run/99","pull_requests":[{"number":12}]}"#),
        MutationError::RunHeadMismatch { run_id: 99, expected_head, actual_head }
            if expected_head == "head-12" && actual_head == "old-head"
    ));
    assert!(matches!(
        rerun_with(r#"{"id":99,"head_sha":"head-12","status":"completed","conclusion":"success","event":"pull_request","name":"CI","html_url":"https://example.test/run/99","pull_requests":[{"number":12}]}"#),
        MutationError::RunNotFailed { run_id: 99, conclusion } if conclusion == "success"
    ));
}

#[test]
fn a_force_transition_needs_its_provider_nodes() {
    let repository = repository();
    let mut expected = precondition(12);
    expected.auto_merge = AutoMergeState::disabled();
    let before = disarmed(&pr_object_json(12, "feature/widget", "acme/widgets"));
    let adapter = GitHubMutationAdapter::new(FakeRunner::new(vec![
        (pull_request_command(&repository, "12"), success(before)),
        (
            force_transaction_ids_command(&repository, PrNumber(12), "caravan-force"),
            success(r#"{"data":{"repository":{"pullRequest":{"id":"PR_node"},"label":null}}}"#),
        ),
    ]));
    assert_eq!(
        adapter
            .atomic_label_and_squash_auto_merge(&repository, &expected, "caravan-force", true, true)
            .unwrap_err(),
        MutationError::MissingProviderResource {
            resource: "label:caravan-force".to_owned(),
        }
    );
}

#[test]
fn the_marker_of_a_label_transition_names_its_operation() {
    let head = CommitOid("head".to_owned());
    let none = LabelSet::new();
    let active = labels(&["caravan"]);
    let marker = control_label_marker("join", PrNumber(12), &head, &none, &active);
    assert_eq!(marker, "v2:join:12:head:2d3e6361726176616e");
    let other = control_label_marker("join", PrNumber(13), &head, &none, &active);
    assert_ne!(marker, other);
}

fn answering(calls: Vec<(CommandSpec, CommandOutput)>) -> GitHubMutationAdapter<FakeRunner> {
    GitHubMutationAdapter::new(FakeRunner::new(calls))
}

#[test]
fn labels_and_auto_merge_are_changed_between_two_reads() {
    let repository = repository();
    let pull = pr_object_json(12, "feature/widget", "acme/widgets");
    let labelled = pull.replace(
        r#""labels":[{"name":"caravan"}]"#,
        r#""labels":[{"name":"caravan"},{"name":"extra"}]"#,
    );
    let around = |command: CommandSpec, after: &str| {
        vec![
            (
                pull_request_command(&repository, "12"),
                success(pull.clone()),
            ),
            (command, success("")),
            (pull_request_command(&repository, "12"), success(after)),
        ]
    };

    let added = answering(around(
        edit_pull_request_command(&repository, PrNumber(12), "--add-label", "extra"),
        &labelled,
    ))
    .add_label(&repository, &precondition(12), "extra")
    .unwrap();
    assert_eq!(added.kind, MutationKind::AddLabel);
    assert!(added.after.has_label("extra"));
    assert!(!added.before.unwrap().has_label("extra"));

    let removed = answering(around(
        edit_pull_request_command(&repository, PrNumber(12), "--remove-label", "extra"),
        &pull,
    ))
    .remove_label(&repository, &precondition(12), "extra")
    .unwrap();
    assert_eq!(removed.kind, MutationKind::RemoveLabel);

    let armed = answering(around(
        auto_merge_command(&repository, PrNumber(12), false),
        &pull,
    ))
    .enable_squash_auto_merge(&repository, &precondition(12))
    .unwrap();
    assert!(armed.after.auto_merge.is_squash());

    let disarmed_pull = disarmed(&pull);
    let off = answering(around(
        auto_merge_command(&repository, PrNumber(12), true),
        &disarmed_pull,
    ))
    .disable_auto_merge(&repository, &precondition(12))
    .unwrap();
    assert!(!off.after.auto_merge.enabled);
}

#[test]
fn settings_of_a_repository_are_read_as_they_stand() {
    let repository = repository();
    for (auto, squash) in [(true, true), (true, false), (false, true), (false, false)] {
        let settings =
            format!(r#"{{"allow_auto_merge":{auto},"allow_squash_merge":{squash}}}"#);
        let adapter = answering(vec![
            (repository_settings_command(&repository), success(settings.clone())),
            (repository_settings_command(&repository), success(settings)),
        ]);
        assert_eq!(
            adapter.repository_allows_auto_merge(&repository).unwrap(),
            auto && squash
        );
        assert_eq!(
            adapter.repository_allows_squash_merge(&repository).unwrap(),
            squash
        );
    }
    assert!(answering(vec![(
        branch_settings_command(&repository, "main"),
        success(r#"{"protected":true}"#)
    )])
    .branch_is_protected(&repository, "main")
    .unwrap());
    assert_eq!(
        answering(vec![(
            default_branch_command("acme/widgets", "main"),
            success(r#"{"object":{"sha":"tip"}}"#)
        )])
        .branch_head_oid(&repository, "main")
        .unwrap(),
        CommitOid("tip".to_owned())
    );
    let names = answering(vec![(
        repository_labels_command(&repository),
        success(r#"[{"name":"b","color":"fff","description":null},{"name":"a","color":"000","description":"x"}]"#)
    )])
    .repository_labels(&repository)
    .unwrap();
    assert_eq!(names, labels(&["a", "b"]));
}

#[test]
fn the_commit_of_a_merge_is_read_where_there_is_one() {
    let repository = repository();
    for (reply, expected) in [
        (r#"{"mergeCommit":{"oid":"merge"}}"#, Some("merge")),
        (r#"{"mergeCommit":{"oid":""}}"#, None),
        (r#"{"mergeCommit":null}"#, None),
    ] {
        let found = answering(vec![(
            merge_commit_command(&repository, PrNumber(12)),
            success(reply),
        )])
        .merge_commit_oid(&repository, PrNumber(12))
        .unwrap();
        assert_eq!(found, expected.map(|oid| CommitOid(oid.to_owned())));
    }
}

#[test]
fn a_squash_fences_the_expected_head() {
    let repository = repository();
    let pull = pr_object_json(12, "feature/widget", "acme/widgets");
    let merged = pull.replace(r#""state":"OPEN""#, r#""state":"MERGED""#);
    let receipt = answering(vec![
        (pull_request_command(&repository, "12"), success(pull)),
        (
            squash_merge_command(&repository, PrNumber(12), &CommitOid("head-12".to_owned())),
            success(""),
        ),
        (pull_request_command(&repository, "12"), success(merged)),
    ])
    .squash_merge(&repository, &precondition(12))
    .unwrap();
    assert_eq!(receipt.kind, MutationKind::SquashMerge);
    assert_eq!(receipt.after.state, PullRequestState::Merged);
    assert_eq!(receipt.before.unwrap().head.oid, CommitOid("head-12".to_owned()));
}

#[test]
fn one_candidate_is_read_against_the_live_default_branch() {
    let pull = snapshots(&pr_list_json(12, "feature/widget", "acme/widgets", false)).remove(0);
    let main = BranchSnapshot {
        repository: repository(),
        name: "main".to_owned(),
        oid: CommitOid("base-12".to_owned()),
    };
    let calls = vec![(
        merge_candidates_command(&repository(), &vec![pull.clone()]),
        success(r#"{"data":{"repository":{"c0":{"oid":"merge-12","tree":{"oid":"tree-12"},"parents":{"nodes":[{"oid":"base-12"},{"oid":"head-12"}]}},"defaultBranchRef":null}}}"#),
    )];
    let discovery = GitHubDiscovery::new(FakeRunner::new(calls));
    let identity = discovery
        .merge_candidate_identity(&repository(), &pull, Some(&main))
        .unwrap();
    assert_eq!(identity.freshness, MergeCandidateFreshness::Fresh);
    assert!(identity.observed_at.starts_with("unix:"));
    discovery.runner.assert_exhausted();
}

#[test]
fn a_successor_that_was_closed_is_refused() {
    let closed = pr_list_json(10, "next", "acme/widgets", false)
        .replace(r#""baseRefName":"main""#, r#""baseRefName":"old-head""#)
        .replace(
            r#""labels":[{"name":"caravan"}]"#,
            r#""labels":[{"name":"caravan"},{"name":"caravan-evicted"}]"#,
        );
    let mut calls = historical_discovery_calls(&closed, merged_pr_json().to_owned());
    calls.extend([
        (current_head_oid_command(), success("head-9\n")),
        (
            default_branch_command("acme/widgets", "old-head"),
            success(r#"{"object":{"sha":"head-9"}}"#),
        ),
    ]);
    let discovery = GitHubDiscovery::new(FakeRunner::new(calls));
    assert!(matches!(
        discovery.discover().unwrap_err(),
        DiscoveryError::HistoricalCurrentPullRequest { reason, .. }
            if reason == "successor_not_active_or_merged"
    ));
}

#[test]
fn an_older_audit_comment_still_explains_its_transition() {
    let repository = repository();
    let expected = precondition(12);
    let first = audit("v1:new:12:head-12");
    let mut second = audit("v1:priority:12:head-12");
    second.operation = "priority".to_owned();
    let bodies = serde_json::Value::from(vec![
        comment_value(first.body()),
        comment_value(second.body()),
    ]);
    let pull = pr_object_json(12, "feature/widget", "acme/widgets");
    let runner = FakeRunner::new(vec![
        (pull_request_command(&repository, "12"), success(pull.clone())),
        (
            issue_comments_command(&repository, PrNumber(12)),
            success(format!("[{bodies}]")),
        ),
        (pull_request_command(&repository, "12"), success(pull)),
    ]);
    let adapter = GitHubMutationAdapter::new(runner);

    let receipt = adapter
        .ensure_control_label_comment(&repository, &expected, &first)
        .unwrap();

    assert_eq!(receipt.kind, MutationKind::Comment);
    assert_eq!(
        receipt.provider_output,
        Some(format!("existing GitHub comment {}", first.visible_marker()))
    );
    adapter.runner.assert_exhausted();
}

fn comment_value(body: String) -> serde_json::Value {
    let mut row = serde_json::Map::new();
    row.insert("body".to_owned(), serde_json::Value::from(body));
    serde_json::Value::Object(row)
}

#[test]
fn a_force_transition_asks_for_its_write_in_one_step_only() {
    let goal = ForceGoal {
        number: PrNumber(12),
        label: "caravan-force".to_owned(),
        desired: true,
        ensure_squash: false,
    };
    let document = pr_object_json(12, "feature/widget", "acme/widgets");
    let value: serde_json::Value = serde_json::from_str(&document).unwrap();
    let before = PullRequestJson::decode(&value)
        .unwrap()
        .into_snapshot(&repository())
        .unwrap();
    let ids = || {
        let text = r#"{"data":{"repository":{"pullRequest":{"id":"PR_node"},"label":{"id":"LABEL_node"}}}}"#;
        let value: serde_json::Value = serde_json::from_str(text).unwrap();
        ForceEvent::Resolved(Ok(ForceTransactionIdsResponse::decode(&value).unwrap()))
    };
    let answer = || ForceEvent::Answered(answered(gh(&["api", "graphql"]), success("{}")));

    let at = ForceStep::Confirming.step(&goal, answer());
    assert!(at.request(&goal).is_none());
    let at = at.step(&goal, ForceEvent::Confirmed(Ok(before.clone())));
    assert!(at.request(&goal).is_none());
    let at = at.step(&goal, ids());
    assert_eq!(
        at.request(&goal),
        Some(force_transaction_command(
            "PR_node",
            Some("LABEL_node".to_owned()),
            true,
            false
        ))
    );
    let at = at.step(&goal, answer());
    assert!(at.request(&goal).is_none());
    let at = at.step(&goal, ids()).step(&goal, answer());
    assert!(matches!(at, ForceStep::ReadingBack { .. }));
    let at = at.step(&goal, ForceEvent::ReadBack(Ok(before)));
    assert!(matches!(
        at,
        ForceStep::Done {
            outcome: Err(MutationError::AtomicTransactionIncomplete { .. })
        }
    ));
}

#[test]
fn markers_tell_every_part_of_a_transition_apart() {
    let none = labels(&[]);
    let active = labels(&["caravan"]);
    let forced = labels(&["caravan", "caravan-force"]);
    let head = CommitOid("head".to_owned());
    let other = CommitOid("other".to_owned());
    let marker = control_label_marker("new", PrNumber(12), &head, &none, &active);
    assert_eq!(
        marker,
        control_label_marker("new", PrNumber(12), &head, &labels(&["docs"]), &active)
    );
    for different in [
        control_label_marker("old", PrNumber(12), &head, &none, &active),
        control_label_marker("new", PrNumber(1), &head, &none, &active),
        control_label_marker("new", PrNumber(12), &other, &none, &active),
        control_label_marker("new", PrNumber(12), &head, &active, &active),
        control_label_marker("new", PrNumber(12), &head, &none, &forced),
    ] {
        assert_ne!(marker, different);
    }
}

fn answered(command: CommandSpec, output: CommandOutput) -> Sent {
    let runner = FakeRunner::new(vec![(command.clone(), output)]);
    let sent = send(&runner, command);
    runner.assert_exhausted();
    sent
}

fn widget(number: u64, title: &str) -> PullRequestSnapshot {
    let document = pr_object_json(number, "feature/widget", "acme/widgets");
    let value: serde_json::Value = serde_json::from_str(&document).unwrap();
    let mut row = PullRequestJson::decode(&value)
        .unwrap()
        .into_snapshot(&repository())
        .unwrap();
    row.title = title.to_owned();
    row
}

#[test]
fn an_operation_asks_for_its_write_in_one_step_only() {
    let command = comment_pull_request_command(&repository(), PrNumber(12), "hello");
    let operation = PrOperation {
        kind: MutationKind::Comment,
        command: command.clone(),
    };
    let answer = || WriteEvent::Answered(answered(command.clone(), success("posted")));
    let before = widget(12, "before");
    let after = widget(12, "after");

    let start = WriteStep::Guarding.step(&operation, answer());
    assert!(matches!(start, WriteStep::Guarding));
    let start = start.step(&operation, WriteEvent::Seen(Ok(before.clone())));
    assert!(matches!(start, WriteStep::Guarding));

    let sending = start.step(&operation, WriteEvent::Guarded(Ok(before.clone())));
    match &sending {
        WriteStep::Sending { command: asked, .. } => assert_eq!(asked, &command),
        _ => panic!("the write is not asked for"),
    }
    let sending = sending.step(&operation, WriteEvent::Seen(Ok(before.clone())));
    assert!(matches!(sending, WriteStep::Sending { .. }));

    let reading = sending.step(&operation, answer());
    assert!(matches!(reading, WriteStep::Reading { .. }));
    let reading = reading.step(&operation, answer());
    assert!(matches!(reading, WriteStep::Reading { .. }));

    let done = reading.step(&operation, WriteEvent::Seen(Ok(after.clone())));
    let done = done.step(&operation, WriteEvent::Seen(Ok(before.clone())));
    match done {
        WriteStep::Done { outcome } => {
            let receipt = outcome.unwrap();
            assert_eq!(receipt.before, Some(before));
            assert_eq!(receipt.after, after);
            assert_eq!(receipt.provider_output, Some("posted".to_owned()));
        }
        _ => panic!("the operation is not over"),
    }
}

#[test]
fn an_operation_that_is_spoken_against_never_writes() {
    let operation = PrOperation {
        kind: MutationKind::Comment,
        command: gh(&["pr", "comment"]),
    };
    let refused = WriteStep::Guarding.step(
        &operation,
        WriteEvent::Guarded(Err(Err(MutationError::Provider(
            DiscoveryError::MissingDefaultBranch,
        )))),
    );
    assert!(matches!(refused, WriteStep::Done { outcome: Err(_) }));
    let still = refused.step(&operation, WriteEvent::Guarded(Ok(widget(12, "late"))));
    assert!(matches!(still, WriteStep::Done { outcome: Err(_) }));

    let runner = FakeRunner::new(vec![]);
    let outcome = perform(
        &runner,
        &operation,
        Err(Err(MutationError::Provider(
            DiscoveryError::MissingDefaultBranch,
        ))),
        |_: &Sent| panic!("nothing is to be read"),
    );
    assert_eq!(
        outcome,
        Err(MutationError::Provider(DiscoveryError::MissingDefaultBranch))
    );
}

#[test]
fn an_operation_reads_after_its_write_was_answered() {
    let command = gh(&["pr", "create"]);
    let operation = PrCreation {
        command: command.clone(),
    };
    let read = pull_request_command(&repository(), "12");
    let runner = FakeRunner::new(vec![
        (
            command.clone(),
            success("https://github.com/acme/widgets/pull/12"),
        ),
        (read.clone(), success("seen")),
    ]);
    let created = perform(&runner, &operation, Ok(Granted), |sent: &Sent| {
        assert_eq!(
            sent.reply(),
            &Ok(success("https://github.com/acme/widgets/pull/12"))
        );
        let later = After { runner: &runner, sent };
        assert_eq!(later.run(&read), Ok(success("seen")));
        Ok(widget(12, "created"))
    })
    .unwrap();
    assert_eq!(created.before, None);
    assert_eq!(created.after.title, "created");
    runner.assert_exhausted();

    let failed = FakeRunner::new(vec![(command, failure(1, "no"))]);
    let outcome = perform(&failed, &operation, Ok(Granted), |_: &Sent| {
        panic!("a failed creation is not read back")
    });
    assert!(outcome.is_err());
    failed.assert_exhausted();
}

#[test]
fn a_comment_without_an_answer_is_known_by_its_marker() {
    let command = comment_pull_request_command(&repository(), PrNumber(12), "hello");
    let operation = PrComment {
        command: command.clone(),
        marker: "marker".to_owned(),
    };
    let runner = FakeRunner::new(vec![(command, success("  "))]);
    let receipt = perform(&runner, &operation, Ok(widget(12, "before")), |_: &Sent| {
        Ok(widget(12, "after"))
    })
    .unwrap();
    assert_eq!(receipt.provider_output, Some("marker".to_owned()));
    assert_eq!(receipt.after.title, "after");
}
