//! Fleet derivation and graph policy.

use std::collections::BTreeSet;

use caravan::error::{AppError, ErrorCategory};
use caravan::graph::{analyze, derive_for_actor, CompatibilityChecker, GraphAnalysis, StopBefore};
use caravan::model::{
    AutoMergeState, BranchSnapshot, Caravan, CheckSnapshot, CheckState, CommitOid,
    CompatibilityOutcome, CompatibilityReport, GraphProblemKind, HeadMergeActor, LabelSet,
    PrNumber, PullRequestSnapshot, PullRequestState, RepositoryId, RepositorySnapshot,
    SquashEquivalenceOutcome, SquashEquivalenceReport,
};

fn labels(names: &[&str]) -> LabelSet {
    let list: Vec<String> = names.iter().map(|name| (*name).to_owned()).collect();
    LabelSet::from_list(&list)
}

struct Clean;

impl CompatibilityChecker for Clean {
    fn check(
        &self,
        candidate: &BranchSnapshot,
        target: &BranchSnapshot,
    ) -> Result<CompatibilityReport, AppError> {
        clean(candidate, target)
    }
}

struct Conflicting;

impl CompatibilityChecker for Conflicting {
    fn check(
        &self,
        candidate: &BranchSnapshot,
        target: &BranchSnapshot,
    ) -> Result<CompatibilityReport, AppError> {
        Ok(CompatibilityReport {
            candidate: candidate.clone(),
            target: target.clone(),
            outcome: CompatibilityOutcome::Conflict,
            conflicting_paths: vec!["src/lib.rs".to_owned()],
            diagnostic: None,
        })
    }
}

struct CountingChecker {
    prepared: std::cell::RefCell<Vec<BranchSnapshot>>,
    reports: std::cell::Cell<usize>,
}
impl CompatibilityChecker for CountingChecker {
    fn prepare(&self, branches: &[BranchSnapshot]) -> Result<(), AppError> {
        *self.prepared.borrow_mut() = branches.to_vec();
        Ok(())
    }

    fn check(
        &self,
        candidate: &BranchSnapshot,
        target: &BranchSnapshot,
    ) -> Result<CompatibilityReport, AppError> {
        self.reports.set(self.reports.get() + 1);
        clean(candidate, target)
    }
}

struct ConflictingChecker {
    queried: std::cell::RefCell<Vec<(String, String)>>,
}
impl CompatibilityChecker for ConflictingChecker {
    fn check(
        &self,
        candidate: &BranchSnapshot,
        target: &BranchSnapshot,
    ) -> Result<CompatibilityReport, AppError> {
        if candidate.name == "two" && target.name == "one" {
            return Ok(CompatibilityReport {
                candidate: candidate.clone(),
                target: target.clone(),
                outcome: CompatibilityOutcome::Conflict,
                conflicting_paths: vec!["app.rs".to_owned()],
                diagnostic: None,
            });
        }
        clean(candidate, target)
    }

    fn squash_equivalence(
        &self,
        candidate: &BranchSnapshot,
        target: &BranchSnapshot,
    ) -> Result<Option<SquashEquivalenceReport>, AppError> {
        self.queried
            .borrow_mut()
            .push((candidate.name.clone(), target.name.clone()));
        Ok(Some(SquashEquivalenceReport {
            schema_version: 1,
            candidate: candidate.clone(),
            target: target.clone(),
            candidate_oid: candidate.oid.clone(),
            target_oid: target.oid.clone(),
            merge_base: None,
            outcome: SquashEquivalenceOutcome::NoEquivalence,
            before: None,
            after: None,
            proven_boundary: None,
            boundary_tree: None,
            target_tree: None,
            commits: Vec::new(),
            represented_paths: Vec::new(),
            represented_paths_truncated: false,
            candidate_commit_count: 0,
            analyzed_prefix_complete: true,
            evaluated_boundaries: 0,
            evaluation_bounded: false,
            reason: "fixture".to_owned(),
            policy: "evidence-only".to_owned(),
        }))
    }
}

fn repository() -> RepositoryId {
    RepositoryId {
        owner: "harryaskham".to_owned(),
        name: "caravan".to_owned(),
    }
}

fn branch(name: &str) -> BranchSnapshot {
    BranchSnapshot {
        repository: repository(),
        name: name.to_owned(),
        oid: CommitOid(format!("{name:0<40}")),
    }
}

fn pull_request(number: u64, head: &str, base: &str) -> PullRequestSnapshot {
    PullRequestSnapshot {
        merge_state_status: None,
        number: PrNumber(number),
        title: format!("PR {number}"),
        url: format!("https://example.invalid/{number}"),
        state: PullRequestState::Open,
        draft: false,
        head: branch(head),
        base: branch(base),
        cross_repository: false,
        labels: labels(&["caravan"]),
        auto_merge: if base == "main" {
            AutoMergeState::squash()
        } else {
            AutoMergeState::disabled()
        },
        checks: Vec::<CheckSnapshot>::new(),
        created_at: Some(format!("2026-01-01T00:00:{number:02}Z")),
        merged_at: None,
        updated_at: None,
    }
}

#[test]
fn a_member_closed_without_merging_is_reported_not_silently_absent() {
    let checker = Clean;
    let dissolved = |analysis: &GraphAnalysis| -> Vec<u64> {
        analysis
            .fleet
            .problems
            .iter()
            .filter(|problem| problem.kind == GraphProblemKind::DissolvedMember)
            .flat_map(|problem| problem.prs.iter().map(|pr| pr.0))
            .collect()
    };

    let sole = {
        let mut pr = pull_request(2287, "member", "main");
        pr.state = PullRequestState::Closed;
        pr
    };
    let analysis = analyze(&snapshot(vec![sole]), &checker).expect("analysis runs");
    assert_eq!(
        dissolved(&analysis),
        vec![2287],
        "a sole closed member leaves nothing to dangle, so the dissolution must be reported directly"
    );
    assert!(
        analysis.healthy(),
        "a dissolution already happened: there is no chain left to protect, so it must not wedge the fleet"
    );

    let head = pull_request(1, "a", "main");
    let middle = {
        let mut pr = pull_request(2, "b", "a");
        pr.state = PullRequestState::Closed;
        pr
    };
    let tail = pull_request(3, "c", "b");
    let analysis =
        analyze(&snapshot(vec![head, middle, tail]), &checker).expect("analysis runs");
    assert_eq!(dissolved(&analysis), vec![2]);
    assert!(
        analysis
            .fleet
            .problems
            .iter()
            .any(|problem| problem.kind == GraphProblemKind::DanglingBase),
        "the orphaned tail must still dangle: that is what stops the fleet"
    );
}

fn snapshot(pull_requests: Vec<PullRequestSnapshot>) -> RepositorySnapshot {
    RepositorySnapshot {
        merge_candidates: Vec::new(),
        merge_candidates_truncated: 0,
        previous_default_oid: None,
        default_branch_movements: Vec::new(),
        repository: repository(),
        default_branch: branch("main"),
        current_branch: None,
        current_pr: None,
        pull_requests,
        generation_facts: Vec::new(),
        observed_at: None,
    }
}

fn clean(
    candidate: &BranchSnapshot,
    target: &BranchSnapshot,
) -> Result<CompatibilityReport, AppError> {
    Ok(CompatibilityReport {
        candidate: candidate.clone(),
        target: target.clone(),
        outcome: CompatibilityOutcome::Clean,
        conflicting_paths: Vec::new(),
        diagnostic: None,
    })
}

#[test]
fn compatibility_prepares_unique_branches_once_then_checks_only_reports() {
    let checker = CountingChecker {
        prepared: std::cell::RefCell::new(Vec::new()),
        reports: std::cell::Cell::new(0),
    };
    analyze(
        &snapshot(vec![
            pull_request(1, "one", "main"),
            pull_request(2, "two", "one"),
            pull_request(3, "three", "two"),
        ]),
        &checker,
    )
    .unwrap();

    let prepared = checker.prepared.borrow();
    assert_eq!(prepared.len(), 4, "default plus three unique active heads");
    assert_eq!(
        checker.reports.get(),
        3,
        "head/default plus two adjacent reports"
    );
}

#[test]
fn derives_multiple_linear_caravans_in_head_order() {
    let analysis = analyze(
        &snapshot(vec![
            pull_request(2, "two", "one"),
            pull_request(3, "three", "main"),
            pull_request(1, "one", "main"),
        ]),
        &Clean,
    )
    .unwrap();
    assert!(analysis.healthy());
    assert_eq!(
        analysis.fleet.caravans,
        vec![
            Caravan::new(vec![PrNumber(1), PrNumber(2)]).unwrap(),
            Caravan::new(vec![PrNumber(3)]).unwrap(),
        ]
    );
    assert_eq!(analysis.compatibility.len(), 5);
}

#[test]
fn conflicting_attachment_records_squash_equivalence_evidence_only_on_conflict() {

    let checker = ConflictingChecker {
        queried: std::cell::RefCell::new(Vec::new()),
    };
    let analysis = analyze(
        &snapshot(vec![
            pull_request(1, "one", "main"),
            pull_request(2, "two", "one"),
        ]),
        &checker,
    )
    .unwrap();

    assert!(!analysis.healthy());
    assert_eq!(
        checker.queried.borrow().as_slice(),
        [("two".to_owned(), "one".to_owned())],
        "evidence is collected exactly once, only for the conflicting pair"
    );
    assert_eq!(analysis.squash_reconciliations.len(), 1);
    let evidence = &analysis.squash_reconciliations[0];
    assert_eq!(evidence.candidate.name, "two");
    assert_eq!(evidence.target.name, "one");
    assert!(evidence.authorized_range_base().is_none());
}

#[test]
fn healthy_fleet_collects_no_squash_equivalence_evidence() {
    let analysis = analyze(
        &snapshot(vec![
            pull_request(1, "one", "main"),
            pull_request(2, "two", "one"),
        ]),
        &Clean,
    )
    .unwrap();

    assert!(analysis.healthy());
    assert!(analysis.squash_reconciliations.is_empty());
}

#[test]
fn detects_branching_cycles_and_active_evicted_labels() {
    let mut first = pull_request(1, "one", "main");
    first.labels.insert("caravan-evicted");
    let analysis = caravan::graph::derive(&snapshot(vec![
        first,
        pull_request(2, "two", "three"),
        pull_request(3, "three", "two"),
        pull_request(4, "four", "parent"),
        pull_request(5, "five", "parent"),
        pull_request(6, "parent", "main"),
    ]));
    let kinds: BTreeSet<_> = analysis
        .fleet
        .problems
        .iter()
        .map(|problem| problem.kind)
        .collect();
    assert!(kinds.contains(&GraphProblemKind::ActiveAndEvicted));
    assert!(kinds.contains(&GraphProblemKind::Cycle));
    assert!(kinds.contains(&GraphProblemKind::Branching));
}

#[test]
fn merged_predecessor_is_a_pending_head_advancement_problem() {
    let mut merged = pull_request(9, "old-head", "main");
    merged.state = PullRequestState::Merged;
    merged.merged_at = Some("2026-07-17T00:00:00Z".to_owned());
    let analysis = caravan::graph::derive(&snapshot(vec![
        merged,
        pull_request(10, "next", "old-head"),
    ]));
    assert_eq!(analysis.fleet.caravans[0].id, PrNumber(10));
    assert!(analysis.fleet.problems.iter().any(|problem| {
        problem.kind == GraphProblemKind::DanglingBase
            && problem.prs == vec![PrNumber(10), PrNumber(9)]
    }));
}

#[test]
fn unqueued_excludes_drafts_and_evicted_prs() {
    let mut ready = pull_request(1, "ready", "main");
    ready.labels.clear();
    let mut draft = pull_request(2, "draft", "main");
    draft.labels.clear();
    draft.draft = true;
    let mut evicted = pull_request(3, "evicted", "main");
    evicted.labels = labels(&["caravan-evicted"]);
    let analysis = caravan::graph::derive(&snapshot(vec![ready, draft, evicted]));
    assert_eq!(analysis.fleet.unqueued, vec![PrNumber(1)]);
}

#[test]
fn a_child_stranded_by_a_closed_member_names_the_member_that_left() {
    let mut departed = pull_request(2287, "first-caravan", "main");
    departed.state = PullRequestState::Closed;
    let analysis = caravan::graph::derive(&snapshot(vec![
        departed,
        pull_request(2288, "stacked-on-it", "first-caravan"),
    ]));

    let problem = analysis
        .fleet
        .problems
        .iter()
        .find(|problem| problem.kind == GraphProblemKind::DanglingBase)
        .expect("a child of a departed member is a dangling base");
    assert_eq!(problem.prs, vec![PrNumber(2288), PrNumber(2287)]);
    assert!(
        problem.message.contains("#2287"),
        "the departed member must be named, got: {}",
        problem.message
    );
    assert!(
        problem.message.contains("closed without merging"),
        "the reason for the strand must be stated, got: {}",
        problem.message
    );
}

#[test]
fn a_child_of_an_unrelated_branch_is_still_an_anonymous_dangling_base() {
    let analysis = caravan::graph::derive(&snapshot(vec![pull_request(11, "next", "someones-branch")]));
    let problem = analysis
        .fleet
        .problems
        .iter()
        .find(|problem| problem.kind == GraphProblemKind::DanglingBase)
        .expect("an unrelated base is still dangling");
    assert_eq!(problem.prs, vec![PrNumber(11)]);
    assert!(problem.message.contains("non-member branch"));
}

#[test]
fn merged_force_head_leaves_no_active_caravan_or_auto_merge_problem() {
    let mut merged = pull_request(2101, "tui-remote-pane", "main");
    merged.state = PullRequestState::Merged;
    merged.auto_merge = AutoMergeState::disabled();
    merged.merged_at = Some("2026-07-25T01:07:18Z".to_owned());
    merged.labels = labels(&["caravan", "caravan-force"]);
    merged.checks = (0..500)
        .map(|index| CheckSnapshot {
            name: format!("check-{index}"),
            state: CheckState::Success,
            provider_state: Some("SUCCESS".to_owned()),
            details_url: Some(format!("https://example.invalid/runs/{index}")),
            provider_kind: None,
            workflow_name: None,
            started_at: None,
            completed_at: None,
            superseded: false,
            ..CheckSnapshot::default()
        })
        .collect();

    let analysis = caravan::graph::derive(&snapshot(vec![merged.clone()]));

    assert!(analysis.fleet.caravans.is_empty());
    assert!(analysis.fleet.unqueued.is_empty());
    assert!(analysis.fleet.problems.is_empty());
    assert!(analysis.healthy());
    let observed = analysis
        .pull_requests
        .iter()
        .find(|row| row.number == PrNumber(2101))
        .expect("the merged row stays observable");
    assert_eq!(observed.state, PullRequestState::Merged);
    assert_eq!(observed.merged_at.as_deref(), Some("2026-07-25T01:07:18Z"));
}

#[test]
fn a_candidate_conflict_is_never_a_fleet_blocking_problem() {
    let checker = Conflicting;
    let mut unqueued = pull_request(2234, "stuck", "main");
    unqueued.labels.clear();

    let analysis = analyze(&snapshot(vec![unqueued]), &checker).expect("advisory, not fatal");

    assert!(
        !analysis
            .fleet
            .problems
            .iter()
            .any(|problem| problem.kind == GraphProblemKind::Incompatible),
        "an unadmitted candidate must never produce a fleet-blocking Incompatible: {:?}",
        analysis.fleet.problems
    );
}

#[test]
fn an_unadmitted_candidate_conflict_is_emitted_as_candidate_scoped() {
    let checker = Conflicting;
    let mut unqueued = pull_request(2245, "stuck", "main");
    unqueued.labels.clear();

    let analysis = analyze(&snapshot(vec![unqueued]), &checker).expect("advisory evidence");

    let emitted: Vec<_> = analysis
        .fleet
        .problems
        .iter()
        .filter(|problem| problem.prs.contains(&PrNumber(2245)))
        .map(|problem| problem.kind)
        .collect();

    assert_eq!(
        emitted,
        vec![GraphProblemKind::CandidateIncompatible],
        "consumers filter on this exact kind; changing it silently breaks them"
    );
    assert!(
        emitted.iter().all(|kind| kind.is_candidate_scoped()),
        "and it must classify as candidate-scoped, or it blocks the fleet"
    );
}

#[test]
fn an_explicitly_skipped_candidate_is_not_reproved_or_reported() {
    let checker = Conflicting;
    let mut skipped = pull_request(2234, "stuck", "main");
    skipped.labels.clear();
    skipped.labels.insert("caravan-join-skipped");

    let analysis = analyze(&snapshot(vec![skipped]), &checker)
        .expect("a skipped candidate is not an execution failure");

    assert!(
        !analysis
            .fleet
            .problems
            .iter()
            .any(|problem| problem.prs.contains(&PrNumber(2234))),
        "an explicitly skipped PR must not be re-reported: {:?}",
        analysis.fleet.problems
    );
}

#[test]
fn a_conflicting_leading_candidate_is_recorded_not_elected() {
    let checker = Conflicting;
    let mut unqueued = pull_request(2117, "stuck", "main");
    unqueued.labels.clear();

    let analysis = analyze(&snapshot(vec![unqueued]), &checker)
        .expect("a conflicting candidate is evidence, not an execution failure");

    assert!(
        analysis.fleet.problems.iter().any(|problem| {
            problem.kind == GraphProblemKind::CandidateIncompatible
                && problem.prs.contains(&PrNumber(2117))
        }),
        "expected the leading candidate conflict to be recorded as candidate-scoped, never as a fleet-blocking Incompatible: {:?}",
        analysis.fleet.problems
    );
}

#[test]
fn reused_branch_name_fails_closed_instead_of_reparenting() {
    let mut merged_parent = pull_request(1, "shared", "main");
    merged_parent.state = PullRequestState::Merged;
    let child = pull_request(2, "child", "shared");
    let mut reuser = pull_request(3, "shared", "main");
    reuser.head.oid = CommitOid("reused-head".to_owned());

    let analysis = caravan::graph::derive(&snapshot(vec![merged_parent, child, reuser]));

    assert!(
        analysis.fleet.problems.iter().any(|problem| {
            problem.kind == GraphProblemKind::ReusedBranchProvenance
                && problem.prs.contains(&PrNumber(2))
        }),
        "expected a reused-branch provenance problem: {:?}",
        analysis.fleet.problems
    );
    assert!(!analysis.healthy());
}

#[test]
fn enforces_auto_merge_only_on_the_head() {
    let mut non_head = pull_request(2, "two", "one");
    non_head.auto_merge = AutoMergeState::squash();
    let analysis = caravan::graph::derive(&snapshot(vec![pull_request(1, "one", "main"), non_head]));
    assert!(analysis.fleet.problems.iter().any(|problem| {
        problem.kind == GraphProblemKind::AutoMergeInvariant && problem.prs == vec![PrNumber(2)]
    }));
}

#[test]
fn the_auto_merge_invariant_is_gated_on_the_configured_merge_actor() {
    assert_eq!(HeadMergeActor::default(), HeadMergeActor::Github);
    let mut disarmed_root = pull_request(1, "one", "main");
    disarmed_root.auto_merge = AutoMergeState::disabled();
    let disarmed = snapshot(vec![disarmed_root, pull_request(2, "two", "one")]);
    assert!(
        derive_for_actor(&disarmed, HeadMergeActor::Caravan)
            .fleet
            .problems
            .is_empty(),
        "a disarmed caravan is healthy when cara owns the merge"
    );
    assert!(
        derive_for_actor(&disarmed, HeadMergeActor::Github)
            .fleet
            .problems
            .iter()
            .any(
                |problem| problem.kind == GraphProblemKind::AutoMergeInvariant
                    && problem.prs == vec![PrNumber(1)]
            ),
        "native delegation still requires the root to be armed"
    );

    let armed = snapshot(vec![
        pull_request(1, "one", "main"),
        pull_request(2, "two", "one"),
    ]);
    assert!(
        derive_for_actor(&armed, HeadMergeActor::Github)
            .fleet
            .problems
            .is_empty(),
        "native delegation is satisfied by an armed root"
    );
    let caravan_problem = derive_for_actor(&armed, HeadMergeActor::Caravan)
        .fleet
        .problems
        .iter()
        .find(|problem| problem.kind == GraphProblemKind::AutoMergeInvariant)
        .cloned()
        .expect("an armed root is a second merge actor");
    assert_eq!(caravan_problem.prs, vec![PrNumber(1)]);
    assert!(
        caravan_problem.message.contains("single merge actor"),
        "{}",
        caravan_problem.message
    );
}

#[test]
fn records_conflicts_as_graph_problems() {
    let checker = Conflicting;
    let analysis = analyze(&snapshot(vec![pull_request(1, "one", "main")]), &checker)
        .expect("conflict is evidence, not execution failure");
    assert!(!analysis.healthy());
    assert!(
        analysis
            .fleet
            .problems
            .iter()
            .any(|problem| problem.kind == GraphProblemKind::Incompatible)
    );
}

#[test]
fn an_empty_live_fleet_still_proves_prior_formation() {
    let mut merged = pull_request(2008, "landed", "main");
    merged.state = PullRequestState::Merged;
    merged.merged_at = Some("2026-07-18T01:38:58Z".to_owned());
    let mut later = pull_request(2234, "landed-later", "main");
    later.state = PullRequestState::Merged;
    later.merged_at = Some("2026-07-28T17:27:45Z".to_owned());

    let analysis = caravan::graph::derive(&snapshot(vec![merged, later]));

    assert!(
        analysis.fleet.caravans.is_empty(),
        "nothing is in flight right now"
    );
    let history = &analysis.fleet.history;
    assert!(history.has_formed_before());
    assert_eq!(history.merged_members_observed, 2);
    assert_eq!(
        history.earliest_merged_at.as_deref(),
        Some("2026-07-18T01:38:58Z")
    );
    assert_eq!(
        history.latest_merged_at.as_deref(),
        Some("2026-07-28T17:27:45Z")
    );
}

#[test]
fn stripped_labels_make_history_unproven_rather_than_empty() {
    let mut stripped = pull_request(2200, "landed", "main");
    stripped.state = PullRequestState::Merged;
    stripped.merged_at = Some("2026-07-30T11:05:54Z".to_owned());
    stripped.labels.clear();

    let analysis = caravan::graph::derive(&snapshot(vec![stripped]));
    let history = &analysis.fleet.history;

    assert_eq!(history.merged_members_observed, 0);
    assert_eq!(history.unlabelled_merged_rows, 1);
    assert!(!history.has_formed_before());
    assert!(
        history.evidence_may_be_stripped(),
        "an unproven history must never render as a proven absence"
    );
}

#[test]
fn a_repository_without_merged_members_claims_no_history() {
    let analysis = caravan::graph::derive(&snapshot(vec![pull_request(1, "open", "main")]));

    assert!(!analysis.fleet.history.has_formed_before());
    assert_eq!(analysis.fleet.history.merged_members_observed, 0);
    assert!(analysis.fleet.history.latest_merged_at.is_none());
}

#[test]
fn caravans_partition_the_active_members() {
    let analysis = caravan::graph::derive(&snapshot(vec![
        pull_request(5, "five", "four"),
        pull_request(4, "four", "main"),
        pull_request(9, "nine", "main"),
        pull_request(7, "seven", "nine"),
    ]));
    let members: Vec<Vec<u64>> = analysis
        .fleet
        .caravans
        .iter()
        .map(|caravan| caravan.members.iter().map(|pr| pr.0).collect())
        .collect();
    assert_eq!(members, vec![vec![4, 5], vec![9, 7]]);
    let heads: Vec<PrNumber> = analysis.fleet.caravans.iter().map(|c| c.id).collect();
    assert_eq!(heads, vec![PrNumber(4), PrNumber(9)]);
}

#[test]
fn a_cycle_is_a_caravan_without_a_head() {
    let analysis = caravan::graph::derive(&snapshot(vec![
        pull_request(2, "two", "three"),
        pull_request(3, "three", "two"),
    ]));
    assert_eq!(analysis.fleet.caravans.len(), 1);
    let missing: Vec<&Vec<PrNumber>> = analysis
        .fleet
        .problems
        .iter()
        .filter(|problem| problem.kind == GraphProblemKind::MissingHead)
        .map(|problem| &problem.prs)
        .collect();
    assert_eq!(missing, vec![&vec![PrNumber(2), PrNumber(3)]]);
}

#[test]
fn a_branching_member_ends_its_caravan() {
    let analysis = caravan::graph::derive(&snapshot(vec![
        pull_request(1, "one", "main"),
        pull_request(2, "two", "one"),
        pull_request(3, "three", "one"),
    ]));
    let members: Vec<Vec<u64>> = analysis
        .fleet
        .caravans
        .iter()
        .map(|caravan| caravan.members.iter().map(|pr| pr.0).collect())
        .collect();
    assert_eq!(members, vec![vec![1], vec![2], vec![3]]);
    assert!(analysis
        .fleet
        .problems
        .iter()
        .any(|problem| problem.kind == GraphProblemKind::Branching
            && problem.prs == vec![PrNumber(1), PrNumber(2), PrNumber(3)]));
}

#[test]
fn a_waiting_pull_request_stands_in_no_caravan() {
    let mut waiting = pull_request(8, "waiting", "main");
    waiting.labels.clear();
    let analysis = caravan::graph::derive(&snapshot(vec![
        waiting,
        pull_request(1, "one", "main"),
    ]));
    assert_eq!(analysis.fleet.unqueued, vec![PrNumber(8)]);
    assert!(analysis.fleet.containing(PrNumber(8)).is_none());
    assert!(analysis.fleet.containing(PrNumber(1)).is_some());
}

#[test]
fn a_problem_within_a_parked_caravan_gates_nothing() {
    let mut parked = pull_request(1, "one", "main");
    parked.labels.insert("caravan-parked");
    parked.auto_merge = AutoMergeState::disabled();
    let analysis = analyze(&snapshot(vec![parked]), &Conflicting).expect("conflict is evidence");
    let problem = analysis
        .fleet
        .problems
        .iter()
        .find(|problem| problem.kind == GraphProblemKind::Incompatible)
        .expect("the conflict is recorded");
    assert!(!analysis.problem_blocks_active_fleet(problem));
    assert!(analysis.healthy());
}

#[test]
fn a_problem_without_a_caravan_gates_the_fleet() {
    let mut other = pull_request(1, "one", "main");
    other.labels.clear();
    let mut twice = other.clone();
    twice.title = "again".to_owned();
    let analysis = caravan::graph::derive(&snapshot(vec![other, twice]));
    assert_eq!(
        analysis.fleet.problems[0].kind,
        GraphProblemKind::DuplicateMember
    );
    assert!(analysis.fleet.caravans.is_empty());
    assert!(!analysis.healthy());
}

#[test]
fn a_candidate_conflict_keeps_a_healthy_fleet_healthy() {
    let mut waiting = pull_request(8, "waiting", "main");
    waiting.labels.clear();
    let quiet = snapshot(vec![waiting]);
    let derived = caravan::graph::derive(&quiet);
    let analysis = analyze(&quiet, &Conflicting).unwrap();
    assert!(derived.healthy() && analysis.healthy());
    assert_eq!(analysis.fleet.problems.len(), 1);
}

#[test]
fn compatibility_proofs_keep_the_derived_fleet() {
    let fleet = snapshot(vec![
        pull_request(1, "one", "main"),
        pull_request(2, "two", "one"),
    ]);
    let derived = caravan::graph::derive(&fleet);
    let analysis = analyze(&fleet, &Conflicting).unwrap();
    assert_eq!(analysis.fleet.caravans, derived.fleet.caravans);
    assert_eq!(analysis.fleet.unqueued, derived.fleet.unqueued);
    assert_eq!(analysis.pull_requests, derived.pull_requests);
    let known = derived.fleet.problems.len();
    assert_eq!(analysis.fleet.problems[..known], derived.fleet.problems[..]);
    assert!(analysis.fleet.problems[known..]
        .iter()
        .all(|problem| problem.kind == GraphProblemKind::Incompatible));
    assert!(analysis.fleet.problems.len() > known);
}

#[test]
fn a_passed_deadline_defers_and_names_every_proof() {
    let fleet = snapshot(vec![
        pull_request(1, "one", "main"),
        pull_request(2, "two", "one"),
    ]);
    let full = caravan::graph::analyze_for_actor_with_progress(
        &fleet,
        &Clean,
        HeadMergeActor::Github,
    )
    .unwrap();
    assert!(full.progress.complete);
    assert_eq!(full.progress.completed_analyses, full.progress.planned_analyses);
    assert!(full.progress.deferred_analyses.is_empty());

    let late = caravan::graph::analyze_for_actor_bounded(
        &fleet,
        &Clean,
        HeadMergeActor::Github,
        std::time::Instant::now(),
    )
    .unwrap();
    assert!(!late.progress.complete);
    assert!(!late.progress.revision_preparation_complete);
    assert_eq!(late.progress.completed_analyses, 0);
    assert_eq!(
        late.progress.deferred_analyses.len() + late.progress.deferred_analyses_truncated,
        full.progress.planned_analyses
    );

    let early = caravan::graph::analyze_for_actor_bounded(
        &fleet,
        &Clean,
        HeadMergeActor::Github,
        std::time::Instant::now() + std::time::Duration::from_secs(600),
    )
    .unwrap();
    assert_eq!(early, full);
}

struct Failing(ErrorCategory);

impl CompatibilityChecker for Failing {
    fn check(
        &self,
        _candidate: &BranchSnapshot,
        _target: &BranchSnapshot,
    ) -> Result<CompatibilityReport, AppError> {
        Err(AppError::new(self.0, "no answer".to_owned()))
    }
}

#[test]
fn a_timeout_defers_only_where_a_deadline_allows_it() {
    let fleet = snapshot(vec![pull_request(1, "one", "main")]);
    let later = std::time::Instant::now() + std::time::Duration::from_secs(600);
    let bounded = caravan::graph::analyze_for_actor_bounded(
        &fleet,
        &Failing(ErrorCategory::Timeout),
        HeadMergeActor::Github,
        later,
    )
    .unwrap();
    assert!(!bounded.progress.complete);
    assert!(bounded.progress.revision_preparation_complete);

    let unbounded = analyze(&fleet, &Failing(ErrorCategory::Timeout)).unwrap_err();
    assert_eq!(unbounded.category, ErrorCategory::Timeout);
    let failure = caravan::graph::analyze_for_actor_bounded(
        &fleet,
        &Failing(ErrorCategory::Failure),
        HeadMergeActor::Github,
        later,
    )
    .unwrap_err();
    assert_eq!(failure.message, "no answer");
}

#[test]
fn an_analysis_stops_exactly_where_it_is_told_to() {
    let fleet = snapshot(vec![
        pull_request(1, "one", "main"),
        pull_request(2, "two", "one"),
    ]);
    let actor = HeadMergeActor::Github;
    let full = caravan::graph::analyze_for_actor_with_progress(&fleet, &Clean, actor).unwrap();
    let planned = full.progress.planned_analyses;
    assert!(planned >= 2);
    let until = |stop| caravan::graph::analyze_for_actor_until(&fleet, &Clean, actor, stop).unwrap();

    assert_eq!(until(None), full);
    assert_eq!(until(Some(StopBefore::Proof(planned))), full);

    let untouched = until(Some(StopBefore::Preparation));
    assert_eq!(
        untouched.analysis,
        caravan::graph::derive_for_actor(&fleet, actor)
    );
    assert!(!untouched.progress.complete);
    assert!(!untouched.progress.revision_preparation_complete);
    assert_eq!(untouched.progress.completed_analyses, 0);
    assert_eq!(untouched.progress.deferred_analyses.len(), planned);

    let one = until(Some(StopBefore::Proof(1)));
    assert!(!one.progress.complete);
    assert!(one.progress.revision_preparation_complete);
    assert_eq!(one.progress.completed_analyses, 1);
    assert_eq!(one.progress.deferred_analyses.len(), planned - 1);
    assert_eq!(one.analysis.compatibility.len(), 1);
}

#[test]
fn the_order_of_rows_changes_nothing() {
    let rows = vec![
        pull_request(1, "one", "main"),
        pull_request(2, "two", "one"),
        pull_request(3, "three", "main"),
        pull_request(4, "four", "gone"),
    ];
    let mut turned = rows.clone();
    turned.reverse();
    let mut mixed = rows.clone();
    mixed.swap(0, 2);
    let actor = HeadMergeActor::Github;
    let expected = derive_for_actor(&snapshot(rows), actor);
    assert_eq!(derive_for_actor(&snapshot(turned), actor), expected);
    assert_eq!(derive_for_actor(&snapshot(mixed), actor), expected);
}

#[derive(Default)]
struct Recording {
    asked: std::cell::RefCell<Vec<String>>,
    conflicts: bool,
    fails_at: Option<usize>,
}

impl Recording {
    fn note(&self, kind: &str, pair: &str) -> Result<(), AppError> {
        let mut asked = self.asked.borrow_mut();
        asked.push(format!("{kind} {pair}"));
        if self.fails_at == Some(asked.len()) {
            return Err(AppError::new(ErrorCategory::Failure, "no answer".to_owned()));
        }
        Ok(())
    }
}

impl CompatibilityChecker for Recording {
    fn prepare(&self, branches: &[BranchSnapshot]) -> Result<(), AppError> {
        let names: Vec<&str> = branches.iter().map(|row| row.name.as_str()).collect();
        self.note("prepare", &names.join("+"))
    }

    fn check(
        &self,
        candidate: &BranchSnapshot,
        target: &BranchSnapshot,
    ) -> Result<CompatibilityReport, AppError> {
        self.note("check", &format!("{}>{}", candidate.name, target.name))?;
        if self.conflicts && candidate.name == "two" {
            return Conflicting.check(candidate, target);
        }
        clean(candidate, target)
    }

    fn squash_equivalence(
        &self,
        candidate: &BranchSnapshot,
        target: &BranchSnapshot,
    ) -> Result<Option<SquashEquivalenceReport>, AppError> {
        self.note("squash", &format!("{}>{}", candidate.name, target.name))?;
        Ok(None)
    }
}

fn two_rows() -> RepositorySnapshot {
    snapshot(vec![
        pull_request(1, "one", "main"),
        pull_request(2, "two", "one"),
    ])
}

#[test]
fn a_past_deadline_asks_the_checker_nothing() {
    let checker = Recording::default();
    let late = caravan::graph::analyze_for_actor_bounded(
        &two_rows(),
        &checker,
        HeadMergeActor::Github,
        std::time::Instant::now(),
    )
    .unwrap();
    assert!(!late.progress.complete);
    assert!(checker.asked.borrow().is_empty());
}

#[test]
fn squash_evidence_is_asked_only_of_the_conflicting_pair() {
    let quiet = Recording::default();
    analyze(&two_rows(), &quiet).unwrap();
    assert!(quiet.asked.borrow().iter().all(|row| !row.starts_with("squash")));

    let checker = Recording {
        conflicts: true,
        ..Recording::default()
    };
    analyze(&two_rows(), &checker).unwrap();
    let asked = checker.asked.borrow();
    let squash: Vec<&String> = asked.iter().filter(|row| row.starts_with("squash")).collect();
    let checks: Vec<&String> = asked
        .iter()
        .filter(|row| row.starts_with("check two>"))
        .collect();
    assert!(!squash.is_empty());
    assert_eq!(squash.len(), checks.len());
    for (row, check) in squash.iter().zip(checks) {
        assert_eq!(row["squash ".len()..], check["check ".len()..]);
    }
}

#[test]
fn nothing_is_asked_after_the_checker_failed() {
    let whole = Recording::default();
    analyze(&two_rows(), &whole).unwrap();
    let total = whole.asked.borrow().len();
    assert!(total >= 3);
    for place in 1..=total {
        let checker = Recording {
            fails_at: Some(place),
            ..Recording::default()
        };
        let error = analyze(&two_rows(), &checker).unwrap_err();
        assert_eq!(error.message, "no answer");
        assert_eq!(checker.asked.borrow().len(), place);
    }
}
