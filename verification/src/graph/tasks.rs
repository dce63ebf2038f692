//! The compatibility proofs that one analysis plans: each caravan head
//! against the default branch, adjacent members, caravans against each other,
//! and the leading candidates outside every caravan.

use vstd::prelude::*;
use vstd::string::*;
use crate::graph::rows;
use crate::graph::rows::find_row;
use crate::graph::{
    CompatibilityAnalysisProgress, CompatibilityAnalysisProgressView, GraphAnalysis,
    GraphAnalysisView,
};
use crate::model;
use crate::model::{
    push_item, BranchSnapshot, BranchSnapshotView, Caravan, CaravanView, Model, PrNumber,
    PullRequestSnapshot, PullRequestSnapshotView,
};

verus! {

/// How many leading candidates are proven against the default branch.
pub const LEADING_CANDIDATE_COMPATIBILITY_BOUND: usize = 3;

/// How many proof names a progress list keeps.
pub const MAX_ANALYSIS_PROGRESS_SAMPLES: usize = 64;

/// One planned proof.
#[derive(Debug)]
pub enum CompatibilityAnalysisTask {
    Fleet {
        description: String,
        candidate: BranchSnapshot,
        target: BranchSnapshot,
        prs: Vec<PrNumber>,
        message: String,
    },
    CumulativeTree { description: String, candidate: BranchSnapshot, target: BranchSnapshot },
    AdmissionCandidate {
        description: String,
        candidate: BranchSnapshot,
        target: BranchSnapshot,
        pr: PrNumber,
    },
}

/// The content of a [`CompatibilityAnalysisTask`].
pub enum TaskView {
    Fleet {
        description: Seq<char>,
        candidate: BranchSnapshotView,
        target: BranchSnapshotView,
        prs: Seq<PrNumber>,
        message: Seq<char>,
    },
    CumulativeTree {
        description: Seq<char>,
        candidate: BranchSnapshotView,
        target: BranchSnapshotView,
    },
    AdmissionCandidate {
        description: Seq<char>,
        candidate: BranchSnapshotView,
        target: BranchSnapshotView,
        pr: PrNumber,
    },
}

impl DeepView for CompatibilityAnalysisTask {
    type V = TaskView;

    open spec fn deep_view(&self) -> TaskView {
        match self {
            CompatibilityAnalysisTask::Fleet { description, candidate, target, prs, message } =>
                TaskView::Fleet {
                    description: description.deep_view(),
                    candidate: candidate.deep_view(),
                    target: target.deep_view(),
                    prs: prs.deep_view(),
                    message: message.deep_view(),
                },
            CompatibilityAnalysisTask::CumulativeTree { description, candidate, target } =>
                TaskView::CumulativeTree {
                    description: description.deep_view(),
                    candidate: candidate.deep_view(),
                    target: target.deep_view(),
                },
            CompatibilityAnalysisTask::AdmissionCandidate { description, candidate, target, pr } =>
                TaskView::AdmissionCandidate {
                    description: description.deep_view(),
                    candidate: candidate.deep_view(),
                    target: target.deep_view(),
                    pr: *pr,
                },
        }
    }
}

impl TaskView {
    /// The name of the proof.
    pub open spec fn name(self) -> Seq<char> {
        match self {
            TaskView::Fleet { description, .. } => description,
            TaskView::CumulativeTree { description, .. } => description,
            TaskView::AdmissionCandidate { description, .. } => description,
        }
    }
}

impl CompatibilityAnalysisTask {
    /// The name of the proof.
    pub fn description(&self) -> (r: String)
        ensures
            r@ == self.deep_view().name(),
    {
        match self {
            CompatibilityAnalysisTask::Fleet { description, .. } => description.dup(),
            CompatibilityAnalysisTask::CumulativeTree { description, .. } => description.dup(),
            CompatibilityAnalysisTask::AdmissionCandidate { description, .. } => description.dup(),
        }
    }
}

fn push_task(tasks: &mut Vec<CompatibilityAnalysisTask>, task: CompatibilityAnalysisTask)
    ensures
        final(tasks).deep_view() == old(tasks).deep_view().push(task.deep_view()),
{
    let ghost value = task;
    tasks.push(task);
    proof {
        model::lemma_push_view(*old(tasks), *tasks, value);
    }
}

// ---------------------------------------------------------------------------
// Progress samples
// ---------------------------------------------------------------------------

/// Kept proof names and how many were left out.
#[verifier::ext_equal]
pub struct SamplesView {
    pub kept: Seq<Seq<char>>,
    pub truncated: usize,
}

/// One more name: kept while there is room, counted otherwise.
pub open spec fn sample_push(samples: SamplesView, sample: Seq<char>) -> SamplesView {
    if samples.kept.len() < MAX_ANALYSIS_PROGRESS_SAMPLES {
        SamplesView { kept: samples.kept.push(sample), truncated: samples.truncated }
    } else {
        SamplesView {
            kept: samples.kept,
            truncated: if samples.truncated == usize::MAX {
                usize::MAX
            } else {
                (samples.truncated + 1) as usize
            },
        }
    }
}

/// Names pushed in order.
pub open spec fn sample_all(samples: SamplesView, names: Seq<Seq<char>>) -> SamplesView
    decreases names.len(),
{
    if names.len() == 0 {
        samples
    } else {
        sample_push(sample_all(samples, names.drop_last()), names.last())
    }
}

/// The names of proofs.
pub open spec fn task_names(tasks: Seq<TaskView>) -> Seq<Seq<char>> {
    Seq::new(tasks.len(), |i: int| tasks[i].name())
}

pub fn push_progress_sample(samples: &mut Vec<String>, truncated: &mut usize, sample: String)
    ensures
        (SamplesView { kept: final(samples).deep_view(), truncated: *final(truncated) })
            == sample_push(
            SamplesView { kept: old(samples).deep_view(), truncated: *old(truncated) },
            sample@,
        ),
{
    if samples.len() < MAX_ANALYSIS_PROGRESS_SAMPLES {
        push_item(samples, sample);
    } else {
        *truncated = truncated.saturating_add(1);
    }
}

/// Progress with the proofs from a position on named as deferred.
pub open spec fn deferred(
    progress: CompatibilityAnalysisProgressView,
    tasks: Seq<TaskView>,
) -> CompatibilityAnalysisProgressView {
    let samples = sample_all(
        SamplesView {
            kept: progress.deferred_analyses,
            truncated: progress.deferred_analyses_truncated,
        },
        task_names(tasks),
    );
    CompatibilityAnalysisProgressView {
        deferred_analyses: samples.kept,
        deferred_analyses_truncated: samples.truncated,
        ..progress
    }
}

/// Names the proofs from a position on as deferred.
pub fn defer_tasks(
    progress: CompatibilityAnalysisProgress,
    tasks: &Vec<CompatibilityAnalysisTask>,
    from: usize,
) -> (r: CompatibilityAnalysisProgress)
    requires
        from <= tasks.len(),
    ensures
        r.deep_view() == deferred(progress.deep_view(), tasks.deep_view().skip(from as int)),
{
    let ghost before = progress.deep_view();
    let ghost names = task_names(tasks.deep_view().skip(from as int));
    let ghost start = SamplesView {
        kept: before.deferred_analyses,
        truncated: before.deferred_analyses_truncated,
    };
    let mut progress = progress;
    let mut kept = progress.deferred_analyses.dup();
    let mut truncated: usize = progress.deferred_analyses_truncated;
    let mut i: usize = from;
    assert(names.take(0) =~= Seq::empty());
    while i < tasks.len()
        invariant
            from <= i <= tasks.len(),
            names == task_names(tasks.deep_view().skip(from as int)),
            (SamplesView { kept: kept.deep_view(), truncated }) == sample_all(
                start,
                names.take(i - from),
            ),
        decreases tasks.len() - i,
    {
        assert(names.take(i - from + 1).drop_last() =~= names.take(i - from));
        assert(names[i - from] == tasks[i as int].deep_view().name());
        push_progress_sample(&mut kept, &mut truncated, tasks[i].description());
        i = i + 1;
    }
    assert(names.take(i - from) =~= names);
    progress.deferred_analyses = kept;
    progress.deferred_analyses_truncated = truncated;
    progress
}

// ---------------------------------------------------------------------------
// Planned proofs
// ---------------------------------------------------------------------------

/// The head branch of a pull request.
pub open spec fn head_of(
    rows: Seq<PullRequestSnapshotView>,
    number: PrNumber,
) -> BranchSnapshotView {
    rows::row_of(rows, number)->0.head
}

fn find_head(rows: &Vec<PullRequestSnapshot>, number: PrNumber) -> (r: BranchSnapshot)
    requires
        rows::row_of(rows.deep_view(), number) is Some,
    ensures
        r.deep_view() == head_of(rows.deep_view(), number),
{
    find_row(rows, number).unwrap().head.dup()
}

/// Whether every member of every caravan has a row.
pub open spec fn members_have_rows(
    caravans: Seq<CaravanView>,
    rows: Seq<PullRequestSnapshotView>,
) -> bool {
    forall|i: int, j: int|
        0 <= i < caravans.len() && 0 <= j < caravans[i].members.len() ==> rows::row_of(
            rows,
            #[trigger] caravans[i].members[j],
        ) is Some
}

/// The proof of two adjacent members.
pub open spec fn adjacent_task(
    rows: Seq<PullRequestSnapshotView>,
    parent: PrNumber,
    child: PrNumber,
) -> TaskView {
    TaskView::Fleet {
        description: "adjacent:pr#"@ + model::pr_text(child) + "->pr#"@ + model::pr_text(parent),
        candidate: head_of(rows, child),
        target: head_of(rows, parent),
        prs: seq![parent, child],
        message: "adjacent caravan PRs are not mechanically compatible"@,
    }
}

/// The proofs of the first adjacent pairs of a chain.
pub open spec fn adjacent_tasks(
    rows: Seq<PullRequestSnapshotView>,
    members: Seq<PrNumber>,
    k: nat,
) -> Seq<TaskView>
    decreases k,
{
    if k == 0 {
        Seq::empty()
    } else {
        adjacent_tasks(rows, members, (k - 1) as nat).push(
            adjacent_task(rows, members[k - 1], members[k as int]),
        )
    }
}

/// The proofs of one caravan: its head against the default branch, the tree
/// that landing it yields, and its adjacent pairs.
pub open spec fn caravan_tasks(
    rows: Seq<PullRequestSnapshotView>,
    default_branch: BranchSnapshotView,
    caravan: CaravanView,
) -> Seq<TaskView> {
    if caravan.members.len() == 0 {
        Seq::empty()
    } else {
        let head = caravan.members[0];
        seq![
            TaskView::Fleet {
                description: "head_to_default:pr#"@ + model::pr_text(head),
                candidate: head_of(rows, head),
                target: default_branch,
                prs: seq![head],
                message: "caravan head does not merge cleanly into the current default branch"@,
            },
            TaskView::CumulativeTree {
                description: "cumulative_tree:pr#"@ + model::pr_text(head),
                candidate: head_of(rows, head),
                target: default_branch,
            },
        ] + adjacent_tasks(rows, caravan.members, (caravan.members.len() - 1) as nat)
    }
}

/// The proofs of caravans, one after the other.
pub open spec fn chain_tasks(
    rows: Seq<PullRequestSnapshotView>,
    default_branch: BranchSnapshotView,
    caravans: Seq<CaravanView>,
) -> Seq<TaskView>
    decreases caravans.len(),
{
    if caravans.len() == 0 {
        Seq::empty()
    } else {
        chain_tasks(rows, default_branch, caravans.drop_last()) + caravan_tasks(
            rows,
            default_branch,
            caravans.last(),
        )
    }
}

/// Whether one caravan is compared with another: neither is parked, both have
/// members, and they are not the same.
pub open spec fn compared(caravans: Seq<CaravanView>, i: int, j: int) -> bool {
    i != j && !caravans[i].parked && !caravans[j].parked && caravans[i].members.len() > 0
        && caravans[j].members.len() > 0
}

/// The proof that one caravan can follow another.
pub open spec fn cross_task(
    rows: Seq<PullRequestSnapshotView>,
    head: PrNumber,
    tail: PrNumber,
) -> TaskView {
    TaskView::Fleet {
        description: "cross_caravan:pr#"@ + model::pr_text(head) + "->pr#"@ + model::pr_text(tail),
        candidate: head_of(rows, head),
        target: head_of(rows, tail),
        prs: seq![head, tail],
        message: "one caravan head cannot be attached after another caravan tail"@,
    }
}

/// The proofs of one caravan after each of the first caravans.
pub open spec fn cross_tasks_of(
    rows: Seq<PullRequestSnapshotView>,
    caravans: Seq<CaravanView>,
    i: int,
    k: nat,
) -> Seq<TaskView>
    decreases k,
{
    if k == 0 {
        Seq::empty()
    } else if compared(caravans, i, k - 1) {
        cross_tasks_of(rows, caravans, i, (k - 1) as nat).push(
            cross_task(rows, caravans[i].members[0], caravans[k - 1].members.last()),
        )
    } else {
        cross_tasks_of(rows, caravans, i, (k - 1) as nat)
    }
}

/// The proofs of the first caravans after every other caravan.
pub open spec fn cross_tasks(
    rows: Seq<PullRequestSnapshotView>,
    caravans: Seq<CaravanView>,
    k: nat,
) -> Seq<TaskView>
    decreases k,
{
    if k == 0 {
        Seq::empty()
    } else {
        cross_tasks(rows, caravans, (k - 1) as nat) + cross_tasks_of(
            rows,
            caravans,
            k - 1,
            caravans.len(),
        )
    }
}

/// The scan of candidates outside every caravan: how many were selected, the
/// planned proofs, and the names of those left out.
#[verifier::ext_equal]
pub struct CandidatesView {
    pub selected: nat,
    pub tasks: Seq<TaskView>,
    pub skipped: Seq<Seq<char>>,
}

/// Why a candidate gets no proof. A selected one counts toward the bound
/// even if it gets none.
pub open spec fn skip_reason(pr: PullRequestSnapshotView, selected: nat) -> Option<Seq<char>> {
    if pr.has_label("caravan-join-skipped"@) {
        Some("generation_bound_skip"@)
    } else if selected >= LEADING_CANDIDATE_COMPATIBILITY_BOUND {
        Some("leading_candidate_bound"@)
    } else if pr.cross_repository {
        Some("cross_repository"@)
    } else if pr.draft {
        Some("draft"@)
    } else {
        None
    }
}

/// The scan after one more candidate.
pub open spec fn scan_candidate(
    before: CandidatesView,
    default_branch: BranchSnapshotView,
    pr: PullRequestSnapshotView,
    number: PrNumber,
) -> CandidatesView {
    let selected = if !pr.has_label("caravan-join-skipped"@) && before.selected
        < LEADING_CANDIDATE_COMPATIBILITY_BOUND {
        before.selected + 1
    } else {
        before.selected
    };
    match skip_reason(pr, before.selected) {
        Some(reason) => CandidatesView {
            selected,
            tasks: before.tasks,
            skipped: before.skipped.push(
                "candidate_to_default:pr#"@ + model::pr_text(number) + ":"@ + reason,
            ),
        },
        None => CandidatesView {
            selected,
            tasks: before.tasks.push(
                TaskView::AdmissionCandidate {
                    description: "candidate_to_default:pr#"@ + model::pr_text(number),
                    candidate: pr.head,
                    target: default_branch,
                    pr: number,
                },
            ),
            skipped: before.skipped,
        },
    }
}

/// The scan of the first candidates.
pub open spec fn scan_candidates(
    rows: Seq<PullRequestSnapshotView>,
    default_branch: BranchSnapshotView,
    unqueued: Seq<PrNumber>,
) -> CandidatesView
    decreases unqueued.len(),
{
    if unqueued.len() == 0 {
        CandidatesView { selected: 0, tasks: Seq::empty(), skipped: Seq::empty() }
    } else {
        let before = scan_candidates(rows, default_branch, unqueued.drop_last());
        match rows::row_of(rows, unqueued.last()) {
            Some(pr) => scan_candidate(before, default_branch, pr, unqueued.last()),
            None => before,
        }
    }
}

/// All planned proofs of an analysis.
pub open spec fn planned_tasks(
    analysis: GraphAnalysisView,
    default_branch: BranchSnapshotView,
) -> Seq<TaskView> {
    let rows = analysis.pull_requests;
    let caravans = analysis.fleet.caravans;
    chain_tasks(rows, default_branch, caravans) + cross_tasks(rows, caravans, caravans.len())
        + scan_candidates(rows, default_branch, analysis.fleet.unqueued).tasks
}

/// The names of the candidates that get no proof.
pub open spec fn skipped_names(
    analysis: GraphAnalysisView,
    default_branch: BranchSnapshotView,
) -> Seq<Seq<char>> {
    scan_candidates(analysis.pull_requests, default_branch, analysis.fleet.unqueued).skipped
}

fn pair(first: PrNumber, second: PrNumber) -> (r: Vec<PrNumber>)
    ensures
        r.deep_view() == seq![first, second],
{
    let out = vec![first, second];
    assert(out.deep_view() =~= seq![first, second]);
    out
}

fn plan_caravan(
    rows: &Vec<PullRequestSnapshot>,
    default_branch: &BranchSnapshot,
    caravan: &Caravan,
) -> (r: Vec<CompatibilityAnalysisTask>)
    requires
        forall|j: int|
            0 <= j < caravan.deep_view().members.len() ==> rows::row_of(
                rows.deep_view(),
                #[trigger] caravan.deep_view().members[j],
            ) is Some,
    ensures
        r.deep_view() == caravan_tasks(
            rows.deep_view(),
            default_branch.deep_view(),
            caravan.deep_view(),
        ),
{
    let ghost all = rows.deep_view();
    let ghost members = caravan.deep_view().members;
    let mut tasks: Vec<CompatibilityAnalysisTask> = Vec::new();
    if caravan.members.len() == 0 {
        assert(tasks.deep_view() =~= Seq::empty());
        return tasks;
    }
    let head = caravan.members[0];
    assert(members[0] == head);
    let head_branch = find_head(rows, head);
    let prs = vec![head];
    assert(prs.deep_view() =~= seq![head]);
    push_task(
        &mut tasks,
        CompatibilityAnalysisTask::Fleet {
            description: "head_to_default:pr#".to_owned().concat(head.to_text().as_str()),
            candidate: head_branch.dup(),
            target: default_branch.dup(),
            prs,
            message:
                "caravan head does not merge cleanly into the current default branch".to_owned(),
        },
    );
    push_task(
        &mut tasks,
        CompatibilityAnalysisTask::CumulativeTree {
            description: "cumulative_tree:pr#".to_owned().concat(head.to_text().as_str()),
            candidate: head_branch,
            target: default_branch.dup(),
        },
    );
    let ghost lead = tasks.deep_view();
    let mut i: usize = 1;
    assert(tasks.deep_view() =~= lead + adjacent_tasks(all, members, 0));
    while i < caravan.members.len()
        invariant
            all == rows.deep_view(),
            members == caravan.deep_view().members,
            forall|j: int|
                0 <= j < members.len() ==> rows::row_of(all, #[trigger] members[j]) is Some,
            1 <= i <= caravan.members.len(),
            tasks.deep_view() == lead + adjacent_tasks(all, members, (i - 1) as nat),
        decreases caravan.members.len() - i,
    {
        let parent = caravan.members[i - 1];
        let child = caravan.members[i];
        assert(members[i - 1] == parent);
        assert(members[i as int] == child);
        push_task(
            &mut tasks,
            CompatibilityAnalysisTask::Fleet {
                description: "adjacent:pr#".to_owned().concat(child.to_text().as_str()).concat(
                    "->pr#",
                ).concat(parent.to_text().as_str()),
                candidate: find_head(rows, child),
                target: find_head(rows, parent),
                prs: pair(parent, child),
                message: "adjacent caravan PRs are not mechanically compatible".to_owned(),
            },
        );
        i = i + 1;
        assert(tasks.deep_view() =~= lead + adjacent_tasks(all, members, (i - 1) as nat));
    }
    assert(tasks.deep_view() =~= caravan_tasks(
        all,
        default_branch.deep_view(),
        caravan.deep_view(),
    ));
    tasks
}

fn plan_cross(
    rows: &Vec<PullRequestSnapshot>,
    caravans: &Vec<Caravan>,
    i: usize,
) -> (r: Vec<CompatibilityAnalysisTask>)
    requires
        i < caravans.len(),
        members_have_rows(caravans.deep_view(), rows.deep_view()),
    ensures
        r.deep_view() == cross_tasks_of(
            rows.deep_view(),
            caravans.deep_view(),
            i as int,
            caravans.deep_view().len(),
        ),
{
    let ghost all = rows.deep_view();
    let ghost views = caravans.deep_view();
    let mut tasks: Vec<CompatibilityAnalysisTask> = Vec::new();
    assert(tasks.deep_view() =~= cross_tasks_of(all, views, i as int, 0));
    let mut k: usize = 0;
    while k < caravans.len()
        invariant
            i < caravans.len(),
            all == rows.deep_view(),
            views == caravans.deep_view(),
            members_have_rows(views, all),
            k <= caravans.len(),
            tasks.deep_view() == cross_tasks_of(all, views, i as int, k as nat),
        decreases caravans.len() - k,
    {
        let caravan = &caravans[i];
        let other = &caravans[k];
        assert(views[i as int] == caravan.deep_view());
        assert(views[k as int] == other.deep_view());
        if i != k && !caravan.parked && !other.parked {
            match (caravan.head(), other.tail()) {
                (Some(head), Some(tail)) => {
                    assert(head == views[i as int].members[0]);
                    assert(tail == views[k as int].members[views[k as int].members.len() - 1]);
                    push_task(
                        &mut tasks,
                        CompatibilityAnalysisTask::Fleet {
                            description: "cross_caravan:pr#".to_owned().concat(
                                head.to_text().as_str(),
                            ).concat("->pr#").concat(tail.to_text().as_str()),
                            candidate: find_head(rows, head),
                            target: find_head(rows, tail),
                            prs: pair(head, tail),
                            message:
                                "one caravan head cannot be attached after another caravan tail".to_owned(),
                        },
                    );
                },
                _ => {},
            }
        }
        k = k + 1;
    }
    tasks
}

/// The planned proofs of an analysis, and the names of the candidates that
/// get none.
pub fn compatibility_tasks(
    analysis: &GraphAnalysis,
    default_branch: &BranchSnapshot,
) -> (r: (Vec<CompatibilityAnalysisTask>, Vec<String>))
    requires
        members_have_rows(
            analysis.deep_view().fleet.caravans,
            analysis.deep_view().pull_requests,
        ),
    ensures
        r.0.deep_view() == planned_tasks(analysis.deep_view(), default_branch.deep_view()),
        r.1.deep_view() == skipped_names(analysis.deep_view(), default_branch.deep_view()),
{
    let ghost view = analysis.deep_view();
    let ghost tip = default_branch.deep_view();
    let ghost all = view.pull_requests;
    let ghost views = view.fleet.caravans;
    let caravans = &analysis.fleet.caravans;
    let rows = &analysis.pull_requests;
    let mut tasks: Vec<CompatibilityAnalysisTask> = Vec::new();
    assert(tasks.deep_view() =~= chain_tasks(all, tip, views.take(0)));
    let mut i: usize = 0;
    while i < caravans.len()
        invariant
            all == rows.deep_view(),
            views == caravans.deep_view(),
            tip == default_branch.deep_view(),
            members_have_rows(views, all),
            i <= caravans.len(),
            tasks.deep_view() == chain_tasks(all, tip, views.take(i as int)),
        decreases caravans.len() - i,
    {
        assert(views.take(i as int + 1).drop_last() =~= views.take(i as int));
        assert(views[i as int] == caravans[i as int].deep_view());
        let mut more = plan_caravan(rows, default_branch, &caravans[i]);
        let ghost tail = more.deep_view();
        let ghost lead = tasks.deep_view();
        tasks.append(&mut more);
        assert(tasks.deep_view() =~= lead + tail);
        i = i + 1;
    }
    assert(views.take(i as int) =~= views);
    let ghost chain_part = tasks.deep_view();
    let mut k: usize = 0;
    assert(tasks.deep_view() =~= chain_part + cross_tasks(all, views, 0));
    while k < caravans.len()
        invariant
            all == rows.deep_view(),
            views == caravans.deep_view(),
            members_have_rows(views, all),
            k <= caravans.len(),
            tasks.deep_view() == chain_part + cross_tasks(all, views, k as nat),
        decreases caravans.len() - k,
    {
        let mut more = plan_cross(rows, caravans, k);
        let ghost tail = more.deep_view();
        let ghost lead = tasks.deep_view();
        tasks.append(&mut more);
        assert(tasks.deep_view() =~= lead + tail);
        k = k + 1;
        assert(tasks.deep_view() =~= chain_part + cross_tasks(all, views, k as nat));
    }
    let ghost cross_part = tasks.deep_view();
    let (mut candidates, skipped) = plan_candidates(rows, default_branch, &analysis.fleet.unqueued);
    let ghost tail = candidates.deep_view();
    tasks.append(&mut candidates);
    assert(tasks.deep_view() =~= cross_part + tail);
    (tasks, skipped)
}

fn plan_candidates(
    rows: &Vec<PullRequestSnapshot>,
    default_branch: &BranchSnapshot,
    unqueued: &Vec<PrNumber>,
) -> (r: (Vec<CompatibilityAnalysisTask>, Vec<String>))
    ensures
        r.0.deep_view() == scan_candidates(
            rows.deep_view(),
            default_branch.deep_view(),
            unqueued.deep_view(),
        ).tasks,
        r.1.deep_view() == scan_candidates(
            rows.deep_view(),
            default_branch.deep_view(),
            unqueued.deep_view(),
        ).skipped,
{
    let ghost all = rows.deep_view();
    let ghost tip = default_branch.deep_view();
    let ghost numbers = unqueued.deep_view();
    let mut tasks: Vec<CompatibilityAnalysisTask> = Vec::new();
    let mut skipped: Vec<String> = Vec::new();
    let mut selected: usize = 0;
    assert(tasks.deep_view() =~= scan_candidates(all, tip, numbers.take(0)).tasks);
    assert(skipped.deep_view() =~= scan_candidates(all, tip, numbers.take(0)).skipped);
    let mut i: usize = 0;
    while i < unqueued.len()
        invariant
            all == rows.deep_view(),
            tip == default_branch.deep_view(),
            numbers == unqueued.deep_view(),
            i <= unqueued.len(),
            selected <= LEADING_CANDIDATE_COMPATIBILITY_BOUND,
            selected == scan_candidates(all, tip, numbers.take(i as int)).selected,
            tasks.deep_view() == scan_candidates(all, tip, numbers.take(i as int)).tasks,
            skipped.deep_view() == scan_candidates(all, tip, numbers.take(i as int)).skipped,
        decreases unqueued.len() - i,
    {
        assert(numbers.take(i as int + 1).drop_last() =~= numbers.take(i as int));
        let number = unqueued[i];
        assert(numbers[i as int] == number);
        if let Some(candidate) = find_row(rows, number) {
            let name = "candidate_to_default:pr#".to_owned().concat(number.to_text().as_str());
            let reason: Option<&str> = if candidate.has_label("caravan-join-skipped") {
                Some("generation_bound_skip")
            } else if selected >= LEADING_CANDIDATE_COMPATIBILITY_BOUND {
                Some("leading_candidate_bound")
            } else {
                selected = selected + 1;
                if candidate.cross_repository {
                    Some("cross_repository")
                } else if candidate.draft {
                    Some("draft")
                } else {
                    None
                }
            };
            match reason {
                Some(text) => {
                    push_item(&mut skipped, name.concat(":").concat(text));
                },
                None => {
                    push_task(
                        &mut tasks,
                        CompatibilityAnalysisTask::AdmissionCandidate {
                            description: name,
                            candidate: candidate.head.dup(),
                            target: default_branch.dup(),
                            pr: number,
                        },
                    );
                },
            }
        }
        i = i + 1;
    }
    assert(numbers.take(i as int) =~= numbers);
    (tasks, skipped)
}

} // verus!
