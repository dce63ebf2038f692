//! One complete read-only pass over a repository.

use std::time::SystemTime;
use vstd::prelude::*;
use vstd::string::*;
use crate::command;
use crate::command::{run, CommandOutput, CommandRunError, CommandRunner, Reply};
use crate::github::candidates;
use crate::github::candidates::{merge_candidate_identities, MERGE_CANDIDATE_LIMIT};
use crate::github::commands;
use crate::github::commands::{
    current_branch_command, default_branch_command, labeled_pr_command, open_pr_command,
    previous_default_command, repository_command,
};
use crate::github::facts::{DiscoveryOptions, DiscoveryOptionsView};
use crate::github::history;
use crate::github::history::list_bare_numbers;
use crate::github::provider;
use crate::github::provider::{fetch, DiscoveryError, DiscoveryErrorView};
use crate::github::raw;
use crate::github::raw::{
    repository_id, GitRefJson, GitRefJsonView, RepositoryJson, RepositoryJsonView,
};
use crate::model::{
    append_items, dup_range, push_item, BranchSnapshot, BranchSnapshotView, CommitOid,
    DefaultBranchMovement, DefaultBranchMovementView, MergeCandidateIdentity,
    MergeCandidateIdentityView, Model, PrNumber, PullRequestGenerationFact,
    PullRequestGenerationFactView, PullRequestSnapshot, PullRequestSnapshotView, RepositoryId,
    RepositoryIdView, RepositorySnapshot, RepositorySnapshotView,
};
use crate::text;
use crate::text::{decimal_text, trim};

verus! {

/// What is known before the merge candidates are read.
#[derive(Debug, PartialEq, Eq)]
pub struct Scene {
    pub repository: RepositoryId,
    pub default_branch: BranchSnapshot,
    pub current_branch: Option<String>,
    pub previous_default_oid: Option<CommitOid>,
    pub open: Vec<PullRequestSnapshot>,
    pub facts: Vec<PullRequestGenerationFact>,
    pub current: Option<PullRequestSnapshot>,
}

/// The content of a [`Scene`].
#[verifier::ext_equal]
pub struct SceneView {
    pub repository: RepositoryIdView,
    pub default_branch: BranchSnapshotView,
    pub current_branch: Option<Seq<char>>,
    pub previous_default_oid: Option<Seq<char>>,
    pub open: Seq<PullRequestSnapshotView>,
    pub facts: Seq<PullRequestGenerationFactView>,
    pub current: Option<PullRequestSnapshotView>,
}

impl DeepView for Scene {
    type V = SceneView;

    open spec fn deep_view(&self) -> SceneView {
        SceneView {
            repository: self.repository.deep_view(),
            default_branch: self.default_branch.deep_view(),
            current_branch: self.current_branch.deep_view(),
            previous_default_oid: self.previous_default_oid.deep_view(),
            open: self.open.deep_view(),
            facts: self.facts.deep_view(),
            current: self.current.deep_view(),
        }
    }
}

impl Clone for Scene {
    fn clone(&self) -> (r: Self)
        ensures
            r.deep_view() == self.deep_view(),
    {
        self.dup()
    }
}

impl Model for Scene {
    fn same(&self, other: &Self) -> (r: bool) {
        self.repository.same(&other.repository)
            && self.default_branch.same(&other.default_branch)
            && self.current_branch.same(&other.current_branch)
            && self.previous_default_oid.same(&other.previous_default_oid)
            && self.open.same(&other.open)
            && self.facts.same(&other.facts)
            && self.current.same(&other.current)
    }

    fn dup(&self) -> (r: Self) {
        Scene {
            repository: self.repository.dup(),
            default_branch: self.default_branch.dup(),
            current_branch: self.current_branch.dup(),
            previous_default_oid: self.previous_default_oid.dup(),
            open: self.open.dup(),
            facts: self.facts.dup(),
            current: self.current.dup(),
        }
    }
}

// ---------------------------------------------------------------------------
// The clock
// ---------------------------------------------------------------------------

/// A moment of the system clock.
#[verifier::external_type_specification]
#[verifier::external_body]
pub struct ExSystemTime(SystemTime);

/// `SystemTime::now` reads the clock. Nothing is said of when it is.
pub assume_specification[ SystemTime::now ]() -> (r: SystemTime)
;

/// `SystemTime::duration_since` the epoch, as far as there is one. Nothing is
/// said of how long it is.
#[verifier::external_body]
fn since_epoch(now: &SystemTime) -> (r: Option<std::time::Duration>) {
    now.duration_since(SystemTime::UNIX_EPOCH).ok()
}

/// `Duration::as_secs` gives the whole seconds. Nothing is said of how many.
pub assume_specification[ std::time::Duration::as_secs ](duration: &std::time::Duration) -> (r: u64)
;

/// The text of a moment: the seconds since the epoch, zero where there are
/// none.
pub open spec fn moment(seconds: Option<u64>) -> Seq<char> {
    match seconds {
        Some(count) => "unix:"@ + text::decimal(count as nat),
        None => "unix:0"@,
    }
}

/// The text of a moment.
pub fn moment_text(seconds: Option<u64>) -> (r: String)
    ensures
        r@ == moment(seconds),
{
    match seconds {
        Some(count) => "unix:".to_owned().concat(decimal_text(count).as_str()),
        None => "unix:0".to_owned(),
    }
}

fn seconds_now() -> (r: Option<u64>) {
    let now = SystemTime::now();
    match since_epoch(&now) {
        Some(duration) => Some(duration.as_secs()),
        None => None,
    }
}

// ---------------------------------------------------------------------------
// Parts of a pass
// ---------------------------------------------------------------------------

/// The current branch, by a reply. A detached head has none.
pub open spec fn branch_by(reply: Reply) -> Result<Option<Seq<char>>, DiscoveryErrorView> {
    match reply {
        Err(error) => Err(DiscoveryErrorView::Runner(error)),
        Ok(output) => if output.code == Some(1i32) {
            Ok(None)
        } else {
            match provider::checked(commands::current_branch(), reply) {
                Err(error) => Err(error),
                Ok(done) => if text::is_blank(done.stdout) {
                    Ok(None)
                } else {
                    Ok(Some(text::trimmed(done.stdout)))
                },
            }
        },
    }
}

/// The current branch, by a reply.
pub fn judge_current_branch(reply: Result<CommandOutput, CommandRunError>) -> (r: Result<
    Option<String>,
    DiscoveryError,
>)
    ensures
        provider::read_view(r) == branch_by(command::reply_view(reply)),
{
    match reply {
        Err(error) => Err(DiscoveryError::Runner(error)),
        Ok(output) => {
            let detached = match output.code {
                Some(code) => code == 1,
                None => false,
            };
            if detached {
                return Ok(None);
            }
            if !output.is_success() {
                return Err(
                    DiscoveryError::CommandFailed {
                        command: current_branch_command(),
                        code: output.code,
                        stderr: trim(output.stderr.as_str()),
                    },
                );
            }
            let branch = trim(output.stdout.as_str());
            if branch.as_str().is_empty() {
                Ok(None)
            } else {
                Ok(Some(branch))
            }
        },
    }
}

/// Where the default branch last was here, by a reply. It may be unknown.
pub open spec fn previous_by(branch: Seq<char>, reply: Reply) -> Result<
    Option<Seq<char>>,
    DiscoveryErrorView,
> {
    match reply {
        Err(error) => Err(DiscoveryErrorView::Runner(error)),
        Ok(output) => if output.code == Some(1i32) || output.code == Some(128i32) {
            Ok(None)
        } else {
            match provider::checked(commands::previous_default(branch), reply) {
                Err(error) => Err(error),
                Ok(done) => if text::is_blank(done.stdout) {
                    Ok(None)
                } else {
                    Ok(Some(text::trimmed(done.stdout)))
                },
            }
        },
    }
}

/// Where the default branch last was here, by a reply.
pub fn judge_previous_default(branch: &str, reply: Result<CommandOutput, CommandRunError>) -> (r:
    Result<Option<CommitOid>, DiscoveryError>)
    ensures
        provider::read_view(r) == previous_by(branch@, command::reply_view(reply)),
{
    match reply {
        Err(error) => Err(DiscoveryError::Runner(error)),
        Ok(output) => {
            let unknown = match output.code {
                Some(code) => code == 1 || code == 128,
                None => false,
            };
            if unknown {
                return Ok(None);
            }
            if !output.is_success() {
                return Err(
                    DiscoveryError::CommandFailed {
                        command: previous_default_command(branch),
                        code: output.code,
                        stderr: trim(output.stderr.as_str()),
                    },
                );
            }
            let oid = trim(output.stdout.as_str());
            if oid.as_str().is_empty() {
                Ok(None)
            } else {
                Ok(Some(CommitOid(oid)))
            }
        },
    }
}

/// The open pull request of the current branch.
pub open spec fn current_among(
    branch: Option<Seq<char>>,
    open: Seq<PullRequestSnapshotView>,
) -> Result<Option<PullRequestSnapshotView>, DiscoveryErrorView> {
    match branch {
        None => Ok(None),
        Some(name) => {
            let matching = history::on_branch(open, name);
            if matching.len() == 0 {
                Ok(None)
            } else if matching.len() == 1 {
                Ok(Some(matching[0]))
            } else {
                Err(
                    DiscoveryErrorView::AmbiguousCurrentPullRequest {
                        branch: name,
                        candidates: history::bare_numbers(matching),
                    },
                )
            }
        },
    }
}

/// The open pull request of the current branch.
pub fn find_current(branch: &Option<String>, open: &Vec<PullRequestSnapshot>) -> (r: Result<
    Option<PullRequestSnapshot>,
    DiscoveryError,
>)
    ensures
        provider::read_view(r) == current_among(branch.deep_view(), open.deep_view()),
{
    match branch {
        None => Ok(None),
        Some(name) => {
            let matching = history::keep_branch(open, name.as_str());
            assert(matching.deep_view().len() == matching.len());
            if matching.len() == 0 {
                return Ok(None);
            }
            if matching.len() == 1 {
                assert(matching.deep_view()[0] == matching[0].deep_view());
                return Ok(Some(matching[0].dup()));
            }
            Err(
                DiscoveryError::AmbiguousCurrentPullRequest {
                    branch: name.dup(),
                    candidates: list_bare_numbers(&matching),
                },
            )
        },
    }
}

/// The pull requests with a label.
pub open spec fn labelled_among(prs: Seq<PullRequestSnapshotView>, label: Seq<char>) -> Seq<
    PullRequestSnapshotView,
>
    decreases prs.len(),
{
    if prs.len() == 0 {
        Seq::empty()
    } else if prs.last().has_label(label) {
        labelled_among(prs.drop_last(), label).push(prs.last())
    } else {
        labelled_among(prs.drop_last(), label)
    }
}

fn keep_labelled(prs: &Vec<PullRequestSnapshot>, label: &str) -> (r: Vec<PullRequestSnapshot>)
    ensures
        r.deep_view() == labelled_among(prs.deep_view(), label@),
{
    let ghost all = prs.deep_view();
    let mut out: Vec<PullRequestSnapshot> = Vec::new();
    let mut i: usize = 0;
    assert(out.deep_view() =~= Seq::<PullRequestSnapshotView>::empty());
    while i < prs.len()
        invariant
            all == prs.deep_view(),
            i <= prs.len(),
            out.deep_view() == labelled_among(all.take(i as int), label@),
        decreases prs.len() - i,
    {
        assert(all.take(i as int + 1).drop_last() =~= all.take(i as int));
        assert(all[i as int] == prs[i as int].deep_view());
        if prs[i].has_label(label) {
            push_item(&mut out, prs[i].dup());
        }
        i = i + 1;
    }
    assert(all.take(i as int) =~= all);
    out
}

/// The refusal of the first member whose head is in another repository.
pub open spec fn fork_refusal(
    repository: RepositoryIdView,
    prs: Seq<PullRequestSnapshotView>,
) -> Option<DiscoveryErrorView>
    decreases prs.len(),
{
    if prs.len() == 0 {
        None
    } else {
        match fork_refusal(repository, prs.drop_last()) {
            Some(error) => Some(error),
            None => if history::is_fork(prs.last(), repository) {
                Some(
                    DiscoveryErrorView::ForkOnlyHead {
                        pr: prs.last().number.0,
                        head_repository: prs.last().head.repository.slug(),
                        base_repository: repository.slug(),
                    },
                )
            } else {
                None
            },
        }
    }
}

/// Whether the head of every member is in the repository.
pub fn validate_active_heads(
    repository: &RepositoryId,
    pull_requests: &Vec<PullRequestSnapshot>,
) -> (r: Result<(), DiscoveryError>)
    ensures
        provider::read_view(r) == match fork_refusal(
            repository.deep_view(),
            pull_requests.deep_view(),
        ) {
            Some(error) => Err(error),
            None => Ok(()),
        },
{
    let ghost all = pull_requests.deep_view();
    let mut i: usize = 0;
    while i < pull_requests.len()
        invariant
            all == pull_requests.deep_view(),
            i <= pull_requests.len(),
            fork_refusal(repository.deep_view(), all.take(i as int)) is None,
        decreases pull_requests.len() - i,
    {
        assert(all.take(i as int + 1).drop_last() =~= all.take(i as int));
        assert(all[i as int] == pull_requests[i as int].deep_view());
        let pr = &pull_requests[i];
        if pr.cross_repository || !pr.head.repository.same(repository) {
            proof {
                lemma_fork_stops(repository.deep_view(), all, i as int + 1);
            }
            return Err(
                DiscoveryError::ForkOnlyHead {
                    pr: pr.number.0,
                    head_repository: pr.head.repository.slug(),
                    base_repository: repository.slug(),
                },
            );
        }
        i = i + 1;
    }
    assert(all.take(i as int) =~= all);
    Ok(())
}

proof fn lemma_fork_stops(
    repository: RepositoryIdView,
    prs: Seq<PullRequestSnapshotView>,
    k: int,
)
    requires
        0 <= k <= prs.len(),
        fork_refusal(repository, prs.take(k)) is Some,
    ensures
        fork_refusal(repository, prs) == fork_refusal(repository, prs.take(k)),
    decreases prs.len(),
{
    if k < prs.len() {
        assert(prs.drop_last().take(k) =~= prs.take(k));
        lemma_fork_stops(repository, prs.drop_last(), k);
    } else {
        assert(prs.take(k) =~= prs);
    }
}

/// Ordered pull requests with one more, unless its number is there.
pub open spec fn joined_by(
    prs: Seq<PullRequestSnapshotView>,
    pr: PullRequestSnapshotView,
) -> Seq<PullRequestSnapshotView>
    decreases prs.len(),
{
    if prs.len() == 0 {
        seq![pr]
    } else if prs.last().number == pr.number {
        prs
    } else if prs.last().number.0 < pr.number.0 {
        prs.push(pr)
    } else {
        joined_by(prs.drop_last(), pr).push(prs.last())
    }
}

/// Ordered pull requests with more, each unless its number is there.
pub open spec fn joined_by_all(
    prs: Seq<PullRequestSnapshotView>,
    more: Seq<PullRequestSnapshotView>,
) -> Seq<PullRequestSnapshotView>
    decreases more.len(),
{
    if more.len() == 0 {
        prs
    } else {
        joined_by(joined_by_all(prs, more.drop_last()), more.last())
    }
}

/// Whether pull requests stand by increasing number, each number once.
pub open spec fn each_once(prs: Seq<PullRequestSnapshotView>) -> bool {
    forall|i: int, j: int|
        0 <= i < j < prs.len() ==> (#[trigger] prs[i]).number.0 < (#[trigger] prs[j]).number.0
}

/// Whether a number stands among pull requests.
pub open spec fn has_number(prs: Seq<PullRequestSnapshotView>, number: PrNumber) -> bool {
    exists|i: int| 0 <= i < prs.len() && (#[trigger] prs[i]).number == number
}

proof fn lemma_joined_from(prs: Seq<PullRequestSnapshotView>, pr: PullRequestSnapshotView)
    ensures
        forall|i: int|
            0 <= i < joined_by(prs, pr).len() ==> prs.contains(#[trigger] joined_by(prs, pr)[i])
                || joined_by(prs, pr)[i] == pr,
    decreases prs.len(),
{
    let all = joined_by(prs, pr);
    let below = prs.drop_last();
    if prs.len() > 0 && prs.last().number.0 > pr.number.0 {
        lemma_joined_from(below, pr);
    }
    assert forall|i: int| 0 <= i < all.len() implies prs.contains(#[trigger] all[i]) || all[i]
        == pr by {
        if prs.len() == 0 {
        } else if prs.last().number.0 <= pr.number.0 {
            if i < prs.len() {
                assert(all[i] == prs[i]);
            }
        } else if i < all.len() - 1 {
            let rest = joined_by(below, pr);
            assert(all[i] == rest[i]);
            if below.contains(rest[i]) {
                let k = choose|k: int| 0 <= k < below.len() && below[k] == rest[i];
                assert(prs[k] == all[i]);
            }
        } else {
            assert(all[i] == prs[prs.len() - 1]);
        }
    }
}

proof fn lemma_joined_keeps(prs: Seq<PullRequestSnapshotView>, pr: PullRequestSnapshotView)
    ensures
        forall|i: int| 0 <= i < prs.len() ==> joined_by(prs, pr).contains(#[trigger] prs[i]),
    decreases prs.len(),
{
    let all = joined_by(prs, pr);
    let below = prs.drop_last();
    if prs.len() > 0 && prs.last().number.0 > pr.number.0 {
        lemma_joined_keeps(below, pr);
    }
    assert forall|i: int| 0 <= i < prs.len() implies all.contains(#[trigger] prs[i]) by {
        if prs.last().number.0 <= pr.number.0 {
            assert(all[i] == prs[i]);
        } else if i < below.len() {
            let rest = joined_by(below, pr);
            assert(below[i] == prs[i]);
            assert(rest.contains(below[i]));
            let k = choose|k: int| 0 <= k < rest.len() && rest[k] == below[i];
            assert(all[k] == prs[i]);
        } else {
            assert(all[all.len() - 1] == prs[i]);
        }
    }
}

/// One more pull request keeps the order and everything that is there, and adds
/// its number. One whose number is there changes nothing.
pub proof fn lemma_joined_by(prs: Seq<PullRequestSnapshotView>, pr: PullRequestSnapshotView)
    requires
        each_once(prs),
    ensures
        each_once(joined_by(prs, pr)),
        has_number(joined_by(prs, pr), pr.number),
        forall|i: int| 0 <= i < prs.len() ==> joined_by(prs, pr).contains(#[trigger] prs[i]),
        has_number(prs, pr.number) ==> joined_by(prs, pr) == prs,
    decreases prs.len(),
{
    lemma_joined_keeps(prs, pr);
    let all = joined_by(prs, pr);
    if prs.len() == 0 {
        assert(all[0] == pr);
    } else if prs.last().number == pr.number {
        assert(all[prs.len() - 1].number == pr.number);
    } else if prs.last().number.0 < pr.number.0 {
        assert(all[prs.len() as int] == pr);
        if has_number(prs, pr.number) {
            let k = choose|k: int| 0 <= k < prs.len() && (#[trigger] prs[k]).number == pr.number;
            assert(prs[k].number.0 <= prs[prs.len() - 1].number.0);
        }
    } else {
        let below = prs.drop_last();
        let rest = joined_by(below, pr);
        assert forall|i: int, j: int| 0 <= i < j < below.len() implies (
        #[trigger] below[i]).number.0 < (#[trigger] below[j]).number.0 by {
            assert(below[i] == prs[i] && below[j] == prs[j]);
        }
        lemma_joined_by(below, pr);
        lemma_joined_from(below, pr);
        assert forall|i: int| 0 <= i < rest.len() implies (#[trigger] rest[i]).number.0
            < prs.last().number.0 by {
            if below.contains(rest[i]) {
                let k = choose|k: int| 0 <= k < below.len() && below[k] == rest[i];
                assert(prs[k] == below[k]);
            }
        }
        assert(each_once(all));
        let at = choose|i: int| 0 <= i < rest.len() && (#[trigger] rest[i]).number == pr.number;
        assert(all[at] == rest[at]);
        if has_number(prs, pr.number) {
            let k = choose|k: int| 0 <= k < prs.len() && (#[trigger] prs[k]).number == pr.number;
            assert(below[k].number == pr.number);
            assert(all =~= prs);
        }
    }
}

/// The pull requests of a pass stand by increasing number, each number once,
/// and every number of any source is among them.
pub proof fn lemma_joined_by_all(
    prs: Seq<PullRequestSnapshotView>,
    more: Seq<PullRequestSnapshotView>,
)
    requires
        each_once(prs),
    ensures
        each_once(joined_by_all(prs, more)),
        forall|i: int|
            0 <= i < prs.len() ==> joined_by_all(prs, more).contains(#[trigger] prs[i]),
        forall|i: int|
            0 <= i < more.len() ==> has_number(
                joined_by_all(prs, more),
                (#[trigger] more[i]).number,
            ),
    decreases more.len(),
{
    if more.len() > 0 {
        let below = joined_by_all(prs, more.drop_last());
        let all = joined_by_all(prs, more);
        lemma_joined_by_all(prs, more.drop_last());
        lemma_joined_by(below, more.last());
        assert forall|i: int| 0 <= i < prs.len() implies all.contains(#[trigger] prs[i]) by {
            let k = choose|k: int| 0 <= k < below.len() && below[k] == prs[i];
            assert(all.contains(below[k]));
        }
        assert forall|i: int| 0 <= i < more.len() implies has_number(
            all,
            (#[trigger] more[i]).number,
        ) by {
            if i < more.len() - 1 {
                assert(more.drop_last()[i] == more[i]);
                let k = choose|k: int|
                    0 <= k < below.len() && (#[trigger] below[k]).number == more[i].number;
                assert(all.contains(below[k]));
                let m = choose|m: int| 0 <= m < all.len() && all[m] == below[k];
                assert(all[m].number == more[i].number);
            }
        }
    } else {
        assert forall|i: int| 0 <= i < prs.len() implies joined_by_all(prs, more).contains(
            #[trigger] prs[i],
        ) by {
            assert(joined_by_all(prs, more)[i] == prs[i]);
        }
    }
}

fn join_one(prs: &Vec<PullRequestSnapshot>, to: usize, pr: &PullRequestSnapshot) -> (r: Vec<
    PullRequestSnapshot,
>)
    requires
        to <= prs.len(),
    ensures
        r.deep_view() == joined_by(prs.deep_view().take(to as int), pr.deep_view()),
    decreases to,
{
    let ghost all = prs.deep_view();
    if to == 0 {
        let mut out: Vec<PullRequestSnapshot> = Vec::new();
        push_item(&mut out, pr.dup());
        assert(out.deep_view() =~= seq![pr.deep_view()]);
        return out;
    }
    let last = &prs[to - 1];
    assert(all.take(to as int).last() == last.deep_view());
    assert(all.take(to as int).drop_last() =~= all.take(to - 1));
    if last.number.0 <= pr.number.0 {
        let mut out = dup_range(prs, 0, to);
        assert(out.deep_view() =~= all.take(to as int));
        if last.number.0 < pr.number.0 {
            push_item(&mut out, pr.dup());
        }
        return out;
    }
    let mut out = join_one(prs, to - 1, pr);
    push_item(&mut out, last.dup());
    out
}

fn join_all(prs: Vec<PullRequestSnapshot>, more: &Vec<PullRequestSnapshot>) -> (r: Vec<
    PullRequestSnapshot,
>)
    ensures
        r.deep_view() == joined_by_all(prs.deep_view(), more.deep_view()),
{
    let ghost start = prs.deep_view();
    let ghost all = more.deep_view();
    let mut out = prs;
    let mut i: usize = 0;
    assert(all.take(0) =~= Seq::<PullRequestSnapshotView>::empty());
    while i < more.len()
        invariant
            all == more.deep_view(),
            i <= more.len(),
            out.deep_view() == joined_by_all(start, all.take(i as int)),
        decreases more.len() - i,
    {
        assert(all.take(i as int + 1).drop_last() =~= all.take(i as int));
        assert(all[i as int] == more[i as int].deep_view());
        let count = out.len();
        assert(out.deep_view().take(count as int) =~= out.deep_view());
        out = join_one(&out, count, &more[i]);
        i = i + 1;
    }
    assert(all.take(i as int) =~= all);
    out
}

// ---------------------------------------------------------------------------
// The pass
// ---------------------------------------------------------------------------

/// Reading the current branch may end so.
pub open spec fn branch_read<R: CommandRunner>(
    runner: R,
    outcome: Result<Option<Seq<char>>, DiscoveryErrorView>,
) -> bool {
    exists|reply: Reply| #[trigger]
        command::ran(runner, commands::current_branch(), reply) && outcome == branch_by(reply)
}

/// Reading where the default branch last was here may end so.
pub open spec fn previous_read<R: CommandRunner>(
    runner: R,
    branch: Seq<char>,
    outcome: Result<Option<Seq<char>>, DiscoveryErrorView>,
) -> bool {
    exists|reply: Reply| #[trigger]
        command::ran(runner, commands::previous_default(branch), reply) && outcome == previous_by(
            branch,
            reply,
        )
}

/// Reading the default branch may end so.
pub open spec fn default_read<R: CommandRunner>(
    runner: R,
    repository: RepositoryIdView,
    name: Seq<char>,
    outcome: Result<BranchSnapshotView, DiscoveryErrorView>,
) -> bool {
    exists|read: Result<GitRefJsonView, DiscoveryErrorView>| #[trigger]
        provider::fetched::<R, GitRefJson>(
            runner,
            commands::default_branch(repository.slug(), name),
            read,
        ) && outcome == match read {
            Err(error) => Err(error),
            Ok(reference) => Ok(
                BranchSnapshotView { repository, name, oid: reference.object.sha },
            ),
        }
}

/// The outcome of a pass.
pub type Pass = Result<RepositorySnapshotView, DiscoveryErrorView>;

/// A pass over a scene, once everything is read.
pub open spec fn snapshot_of(
    scene: SceneView,
    label: Seq<char>,
    candidates: Seq<MergeCandidateIdentityView>,
    movements: Seq<DefaultBranchMovementView>,
    merged_facts: Seq<PullRequestGenerationFactView>,
    current_pr: Option<PrNumber>,
    prs: Seq<PullRequestSnapshotView>,
) -> RepositorySnapshotView {
    RepositorySnapshotView {
        repository: scene.repository,
        default_branch: scene.default_branch,
        merge_candidates: candidates,
        merge_candidates_truncated: beyond(labelled_among(scene.open, label).len()),
        previous_default_oid: scene.previous_default_oid,
        default_branch_movements: movements,
        current_branch: scene.current_branch,
        current_pr,
        pull_requests: prs,
        generation_facts: scene.facts + merged_facts,
        observed_at: None,
    }
}

/// How many members are too many for one query.
pub open spec fn beyond(count: nat) -> usize {
    if count > MERGE_CANDIDATE_LIMIT {
        (count - MERGE_CANDIDATE_LIMIT) as usize
    } else {
        0
    }
}

/// The members that are asked for.
pub open spec fn bounded(members: Seq<PullRequestSnapshotView>) -> Seq<PullRequestSnapshotView> {
    if members.len() > MERGE_CANDIDATE_LIMIT {
        members.take(MERGE_CANDIDATE_LIMIT as int)
    } else {
        members
    }
}

/// Mapping a branch that has no open pull request may end so: the current pull
/// request, and all pull requests.
pub open spec fn past_joined<R: CommandRunner>(
    runner: R,
    options: DiscoveryOptionsView,
    repository: RepositoryIdView,
    branch: Seq<char>,
    prs: Seq<PullRequestSnapshotView>,
    outcome: Result<(Option<PrNumber>, Seq<PullRequestSnapshotView>), DiscoveryErrorView>,
) -> bool {
    exists|past: history::Past| #[trigger]
        history::past_read(
            runner,
            options,
            repository,
            branch,
            prs,
            past,
        ) && outcome == match past {
            Err(error) => Err(error),
            Ok(None) => Ok((None, prs)),
            Ok(Some(pair)) => Ok((pair.1, joined_by(prs, pair.0))),
        }
}

/// Finding the current pull request may end so: its number, and all pull
/// requests.
pub open spec fn current_resolved<R: CommandRunner>(
    runner: R,
    options: DiscoveryOptionsView,
    scene: SceneView,
    prs: Seq<PullRequestSnapshotView>,
    outcome: Result<(Option<PrNumber>, Seq<PullRequestSnapshotView>), DiscoveryErrorView>,
) -> bool {
    match scene.current {
        Some(pr) => outcome == Ok::<_, DiscoveryErrorView>((Some(pr.number), prs)),
        None => match scene.current_branch {
            None => outcome == Ok::<_, DiscoveryErrorView>((None::<PrNumber>, prs)),
            Some(branch) => if branch == scene.default_branch.name {
                outcome == Ok::<_, DiscoveryErrorView>((None::<PrNumber>, prs))
            } else {
                past_joined(runner, options, scene.repository, branch, prs, outcome)
            },
        },
    }
}

/// A pass whose merge candidates and merged members are read may end so.
pub open spec fn pass_closed<R: CommandRunner>(
    runner: R,
    options: DiscoveryOptionsView,
    scene: SceneView,
    candidates: Seq<MergeCandidateIdentityView>,
    movements: Seq<DefaultBranchMovementView>,
    merged: Seq<PullRequestSnapshotView>,
    merged_facts: Seq<PullRequestGenerationFactView>,
    outcome: Pass,
) -> bool {
    let prs = joined_by_all(joined_by_all(Seq::empty(), scene.open), merged);
    exists|
        current: Result<(Option<PrNumber>, Seq<PullRequestSnapshotView>), DiscoveryErrorView>,
    | #[trigger]
        current_resolved(runner, options, scene, prs, current) && outcome == match current {
            Err(error) => Err(error),
            Ok(pair) => Ok(
                snapshot_of(
                    scene,
                    options.label,
                    candidates,
                    movements,
                    merged_facts,
                    pair.0,
                    pair.1,
                ),
            ),
        }
}

/// A pass whose merge candidates are read may end so.
pub open spec fn pass_with_candidates<R: CommandRunner>(
    runner: R,
    options: DiscoveryOptionsView,
    scene: SceneView,
    candidates: Seq<MergeCandidateIdentityView>,
    movements: Seq<DefaultBranchMovementView>,
    outcome: Pass,
) -> bool {
    exists|
        read: Result<
            (Seq<PullRequestSnapshotView>, Seq<PullRequestGenerationFactView>),
            DiscoveryErrorView,
        >,
    | #[trigger]
        history::pulls_read(
            runner,
            commands::labeled_pr(
                scene.repository.slug(),
                "merged"@,
                options.label,
                options.merged_limit,
                true,
            ),
            scene.repository,
            read,
        ) && match read {
            Err(error) => outcome == Err::<RepositorySnapshotView, _>(error),
            Ok(pair) => pass_closed(
                runner,
                options,
                scene,
                candidates,
                movements,
                pair.0,
                pair.1,
                outcome,
            ),
        }
}

/// A pass over a scene may end so.
pub open spec fn pass_over<R: CommandRunner>(
    runner: R,
    options: DiscoveryOptionsView,
    observed_at: Seq<char>,
    scene: SceneView,
    outcome: Pass,
) -> bool {
    exists|
        read: Result<
            (Seq<MergeCandidateIdentityView>, Seq<DefaultBranchMovementView>),
            DiscoveryErrorView,
        >,
    | #[trigger]
        candidates::candidates_read(
            runner,
            scene.repository,
            bounded(labelled_among(scene.open, options.label)),
            observed_at,
            Some(scene.default_branch),
            read,
        ) && match read {
            Err(error) => outcome == Err::<RepositorySnapshotView, _>(error),
            Ok(pair) => pass_with_candidates(
                runner,
                options,
                scene,
                pair.0,
                pair.1,
                outcome,
            ),
        }
}

/// The scene of open pull requests.
pub open spec fn scene_of(
    repository: RepositoryIdView,
    default_branch: BranchSnapshotView,
    current_branch: Option<Seq<char>>,
    previous_default_oid: Option<Seq<char>>,
    label: Seq<char>,
    open: Seq<PullRequestSnapshotView>,
    facts: Seq<PullRequestGenerationFactView>,
) -> Result<SceneView, DiscoveryErrorView> {
    match current_among(current_branch, open) {
        Err(error) => Err(error),
        Ok(current) => match fork_refusal(repository, labelled_among(open, label)) {
            Some(error) => Err(error),
            None => Ok(
                SceneView {
                    repository,
                    default_branch,
                    current_branch,
                    previous_default_oid,
                    open,
                    facts,
                    current,
                },
            ),
        },
    }
}

/// A pass that knows the branches may end so.
pub open spec fn pass_on<R: CommandRunner>(
    runner: R,
    options: DiscoveryOptionsView,
    observed_at: Seq<char>,
    repository: RepositoryIdView,
    default_branch: BranchSnapshotView,
    current_branch: Option<Seq<char>>,
    previous_default_oid: Option<Seq<char>>,
    outcome: Pass,
) -> bool {
    exists|
        read: Result<
            (Seq<PullRequestSnapshotView>, Seq<PullRequestGenerationFactView>),
            DiscoveryErrorView,
        >,
    | #[trigger]
        history::pulls_read(
            runner,
            commands::open_pr(repository.slug(), options.open_limit),
            repository,
            read,
        ) && match read {
            Err(error) => outcome == Err::<RepositorySnapshotView, _>(error),
            Ok(pair) => match scene_of(
                repository,
                default_branch,
                current_branch,
                previous_default_oid,
                options.label,
                pair.0,
                pair.1,
            ) {
                Err(error) => outcome == Err::<RepositorySnapshotView, _>(error),
                Ok(scene) => pass_over(runner, options, observed_at, scene, outcome),
            },
        }
}

/// A pass that knows the current branch and where the default branch was may
/// end so.
pub open spec fn pass_from_default<R: CommandRunner>(
    runner: R,
    options: DiscoveryOptionsView,
    observed_at: Seq<char>,
    repository: RepositoryIdView,
    name: Seq<char>,
    current_branch: Option<Seq<char>>,
    previous_default_oid: Option<Seq<char>>,
    outcome: Pass,
) -> bool {
    exists|read: Result<BranchSnapshotView, DiscoveryErrorView>| #[trigger]
        default_read(runner, repository, name, read) && match read {
            Err(error) => outcome == Err::<RepositorySnapshotView, _>(error),
            Ok(default_branch) => pass_on(
                runner,
                options,
                observed_at,
                repository,
                default_branch,
                current_branch,
                previous_default_oid,
                outcome,
            ),
        }
}

/// A pass that knows the current branch may end so.
pub open spec fn pass_from_branch<R: CommandRunner>(
    runner: R,
    options: DiscoveryOptionsView,
    observed_at: Seq<char>,
    repository: RepositoryIdView,
    name: Seq<char>,
    current_branch: Option<Seq<char>>,
    outcome: Pass,
) -> bool {
    exists|read: Result<Option<Seq<char>>, DiscoveryErrorView>| #[trigger]
        previous_read(runner, name, read) && match read {
            Err(error) => outcome == Err::<RepositorySnapshotView, _>(error),
            Ok(previous) => pass_from_default(
                runner,
                options,
                observed_at,
                repository,
                name,
                current_branch,
                previous,
                outcome,
            ),
        }
}

/// A pass over a repository may end so.
pub open spec fn pass_in<R: CommandRunner>(
    runner: R,
    options: DiscoveryOptionsView,
    observed_at: Seq<char>,
    repository: RepositoryIdView,
    name: Seq<char>,
    outcome: Pass,
) -> bool {
    exists|read: Result<Option<Seq<char>>, DiscoveryErrorView>| #[trigger]
        branch_read(runner, read) && match read {
            Err(error) => outcome == Err::<RepositorySnapshotView, _>(error),
            Ok(current_branch) => pass_from_branch(
                runner,
                options,
                observed_at,
                repository,
                name,
                current_branch,
                outcome,
            ),
        }
}

/// The repository of a document, and the name of its default branch.
pub open spec fn identity_of(
    read: Result<RepositoryJsonView, DiscoveryErrorView>,
) -> Result<(RepositoryIdView, Seq<char>), DiscoveryErrorView> {
    match read {
        Err(error) => Err(error),
        Ok(document) => match document.default_branch_ref {
            None => Err(DiscoveryErrorView::MissingDefaultBranch),
            Some(reference) => match raw::slug_repository(document.name_with_owner) {
                Err(error) => Err(error),
                Ok(repository) => Ok((repository, reference.name)),
            },
        },
    }
}

fn judge_identity(read: Result<RepositoryJson, DiscoveryError>) -> (r: Result<
    (RepositoryId, String),
    DiscoveryError,
>)
    ensures
        provider::read_view(r) == identity_of(provider::read_view(read)),
{
    match read {
        Err(error) => Err(error),
        Ok(document) => match document.default_branch_ref {
            None => Err(DiscoveryError::MissingDefaultBranch),
            Some(reference) => match repository_id(document.name_with_owner.as_str()) {
                Err(error) => Err(error),
                Ok(repository) => Ok((repository, reference.name)),
            },
        },
    }
}

/// A pass may end so.
pub open spec fn pass_sent<R: CommandRunner>(
    runner: R,
    options: DiscoveryOptionsView,
    observed_at: Seq<char>,
    outcome: Pass,
) -> bool {
    exists|read: Result<RepositoryJsonView, DiscoveryErrorView>| #[trigger]
        provider::fetched::<R, RepositoryJson>(runner, commands::repository(), read)
            && match identity_of(read) {
            Err(error) => outcome == Err::<RepositorySnapshotView, _>(error),
            Ok(pair) => pass_in(runner, options, observed_at, pair.0, pair.1, outcome),
        }
}

/// A pass at a moment may end so.
pub open spec fn discovered<R: CommandRunner>(
    runner: R,
    options: DiscoveryOptionsView,
    observed_at: Seq<char>,
    outcome: Pass,
) -> bool {
    if options.open_limit == 0 {
        outcome == Err::<RepositorySnapshotView, _>(
            DiscoveryErrorView::InvalidLimit("open_limit"@),
        )
    } else if options.merged_limit == 0 {
        outcome == Err::<RepositorySnapshotView, _>(
            DiscoveryErrorView::InvalidLimit("merged_limit"@),
        )
    } else {
        pass_sent(runner, options, observed_at, outcome)
    }
}

/// Reads a repository through the runner.
pub struct GitHubDiscovery<R> {
    pub runner: R,
    pub options: DiscoveryOptions,
}

impl<R: CommandRunner> GitHubDiscovery<R> {
    /// Reads with the default label and bounds.
    pub fn new(runner: R) -> (r: Self)
        ensures
            r.runner == runner,
            r.options.deep_view() == (DiscoveryOptionsView {
                label: "caravan"@,
                open_limit: 1000,
                merged_limit: 100,
                allow_unlabelled_historical_pr_creation: false,
            }),
    {
        GitHubDiscovery { runner, options: DiscoveryOptions::default() }
    }

    /// Reads with another label or other bounds.
    pub fn with_options(self, options: DiscoveryOptions) -> (r: Self)
        ensures
            r.runner == self.runner,
            r.options == options,
    {
        GitHubDiscovery { runner: self.runner, options }
    }

    /// The merge candidate of one pull request, at a moment.
    pub fn merge_candidate_identity_at(
        &self,
        repository: &RepositoryId,
        pull_request: &PullRequestSnapshot,
        default_branch: Option<&BranchSnapshot>,
        observed_at: &str,
    ) -> (r: Result<MergeCandidateIdentity, DiscoveryError>)
        requires
            command::reads_allowed(self.runner),
        ensures
            identity_read(
                self.runner,
                repository.deep_view(),
                pull_request.deep_view(),
                default_branch.deep_view(),
                observed_at@,
                provider::read_view(r),
            ),
    {
        let mut asked: Vec<PullRequestSnapshot> = Vec::new();
        push_item(&mut asked, pull_request.dup());
        assert(asked.deep_view() =~= seq![pull_request.deep_view()]);
        let read = merge_candidate_identities(
            &self.runner,
            repository,
            &asked,
            observed_at,
            default_branch,
        );
        assert(candidates::candidates_read(
            self.runner,
            repository.deep_view(),
            seq![pull_request.deep_view()],
            observed_at@,
            default_branch.deep_view(),
            provider::read_view(read),
        ));
        match read {
            Err(error) => Err(error),
            Ok((list, _)) => {
                assert(list.deep_view().len() == 1);
                assert(list.len() == 1);
                assert(list.deep_view()[0] == list[0].deep_view());
                Ok(list[0].dup())
            },
        }
    }

    /// The merge candidate of one pull request, now. The live tip of the
    /// default branch is left out only where it is not known.
    pub fn merge_candidate_identity(
        &self,
        repository: &RepositoryId,
        pull_request: &PullRequestSnapshot,
        default_branch: Option<&BranchSnapshot>,
    ) -> (r: Result<MergeCandidateIdentity, DiscoveryError>)
        requires
            command::reads_allowed(self.runner),
        ensures
            exists|seconds: Option<u64>| #[trigger]
                identity_read(
                    self.runner,
                    repository.deep_view(),
                    pull_request.deep_view(),
                    default_branch.deep_view(),
                    moment(seconds),
                    provider::read_view(r),
                ),
    {
        let seconds = seconds_now();
        let observed_at = moment_text(seconds);
        let r = self.merge_candidate_identity_at(
            repository,
            pull_request,
            default_branch,
            observed_at.as_str(),
        );
        assert(identity_read(
            self.runner,
            repository.deep_view(),
            pull_request.deep_view(),
            default_branch.deep_view(),
            moment(seconds),
            provider::read_view(r),
        ));
        r
    }

    fn current_branch(&self) -> (r: Result<Option<String>, DiscoveryError>)
        requires
            command::reads_allowed(self.runner),
        ensures
            branch_read(self.runner, provider::read_view(r)),
    {
        let reply = run(&self.runner, &current_branch_command());
        assert(command::ran(
            self.runner,
            commands::current_branch(),
            command::reply_view(reply),
        ));
        judge_current_branch(reply)
    }

    fn previous_default_oid(&self, branch: &str) -> (r: Result<Option<CommitOid>, DiscoveryError>)
        requires
            command::reads_allowed(self.runner),
        ensures
            previous_read(self.runner, branch@, provider::read_view(r)),
    {
        let reply = run(&self.runner, &previous_default_command(branch));
        assert(command::ran(
            self.runner,
            commands::previous_default(branch@),
            command::reply_view(reply),
        ));
        judge_previous_default(branch, reply)
    }

    fn read_default(&self, repository: &RepositoryId, name: &str) -> (r: Result<
        BranchSnapshot,
        DiscoveryError,
    >)
        requires
            command::reads_allowed(self.runner),
        ensures
            default_read(
                self.runner,
                repository.deep_view(),
                name@,
                provider::read_view(r),
            ),
    {
        let slug = repository.slug();
        let read = fetch::<R, GitRefJson>(
            &self.runner,
            &default_branch_command(slug.as_str(), name),
        );
        assert(provider::fetched::<R, GitRefJson>(
            self.runner,
            commands::default_branch(repository.deep_view().slug(), name@),
            provider::read_view(read),
        ));
        match read {
            Err(error) => Err(error),
            Ok(reference) => Ok(
                BranchSnapshot {
                    repository: repository.dup(),
                    name: name.to_owned(),
                    oid: CommitOid(reference.object.sha),
                },
            ),
        }
    }

    fn resolve_current_pr(&self, scene: &Scene, pulls: Vec<PullRequestSnapshot>) -> (r: Result<
        (Option<PrNumber>, Vec<PullRequestSnapshot>),
        DiscoveryError,
    >)
        requires
            command::reads_allowed(self.runner),
        ensures
            current_resolved(
                self.runner,
                self.options.deep_view(),
                scene.deep_view(),
                pulls.deep_view(),
                provider::read_view(r),
            ),
    {
        match &scene.current {
            Some(pr) => {
                return Ok((Some(pr.number), pulls));
            },
            None => {},
        }
        let branch = match &scene.current_branch {
            None => {
                return Ok((None, pulls));
            },
            Some(branch) => branch,
        };
        if branch.same(&scene.default_branch.name) {
            return Ok((None, pulls));
        }
        let past = self.resolve_historical_current_pr(&scene.repository, branch.as_str(), &pulls);
        assert(history::past_read(
            self.runner,
            self.options.deep_view(),
            scene.deep_view().repository,
            branch@,
            pulls.deep_view(),
            provider::read_view(past),
        ));
        let r = match past {
            Err(error) => Err(error),
            Ok(None) => Ok((None, pulls)),
            Ok(Some((historical, successor))) => {
                let count = pulls.len();
                assert(pulls.deep_view().take(count as int) =~= pulls.deep_view());
                Ok((successor, join_one(&pulls, count, &historical)))
            },
        };
        assert(past_joined(
            self.runner,
            self.options.deep_view(),
            scene.deep_view().repository,
            branch@,
            pulls.deep_view(),
            provider::read_view(r),
        ));
        r
    }

    fn close_pass(
        &self,
        scene: Scene,
        merge_candidates: Vec<MergeCandidateIdentity>,
        default_branch_movements: Vec<DefaultBranchMovement>,
        merged: Vec<PullRequestSnapshot>,
        merged_facts: Vec<PullRequestGenerationFact>,
    ) -> (r: Result<RepositorySnapshot, DiscoveryError>)
        requires
            command::reads_allowed(self.runner),
        ensures
            pass_closed(
                self.runner,
                self.options.deep_view(),
                scene.deep_view(),
                merge_candidates.deep_view(),
                default_branch_movements.deep_view(),
                merged.deep_view(),
                merged_facts.deep_view(),
                provider::read_view(r),
            ),
    {
        let none: Vec<PullRequestSnapshot> = Vec::new();
        assert(none.deep_view() =~= Seq::empty());
        let pulls = join_all(join_all(none, &scene.open), &merged);
        let ghost prs = joined_by_all(
            joined_by_all(Seq::empty(), scene.deep_view().open),
            merged.deep_view(),
        );
        let current = self.resolve_current_pr(&scene, pulls);
        assert(current_resolved(
            self.runner,
            self.options.deep_view(),
            scene.deep_view(),
            prs,
            provider::read_view(current),
        ));
        match current {
            Err(error) => Err(error),
            Ok((current_pr, pull_requests)) => {
                let members = keep_labelled(&scene.open, self.options.label.as_str()).len();
                assert(members == labelled_among(
                    scene.deep_view().open,
                    self.options.deep_view().label,
                ).len());
                let merge_candidates_truncated: usize = if members > MERGE_CANDIDATE_LIMIT {
                    members - MERGE_CANDIDATE_LIMIT
                } else {
                    0
                };
                let mut generation_facts = scene.facts.dup();
                append_items(&mut generation_facts, merged_facts);
                Ok(
                    RepositorySnapshot {
                        repository: scene.repository,
                        default_branch: scene.default_branch,
                        merge_candidates,
                        merge_candidates_truncated,
                        previous_default_oid: scene.previous_default_oid,
                        default_branch_movements,
                        current_branch: scene.current_branch,
                        current_pr,
                        pull_requests,
                        generation_facts,
                        observed_at: None,
                    },
                )
            },
        }
    }

    fn pass_after_candidates(
        &self,
        scene: Scene,
        merge_candidates: Vec<MergeCandidateIdentity>,
        movements: Vec<DefaultBranchMovement>,
    ) -> (r: Result<RepositorySnapshot, DiscoveryError>)
        requires
            command::reads_allowed(self.runner),
        ensures
            pass_with_candidates(
                self.runner,
                self.options.deep_view(),
                scene.deep_view(),
                merge_candidates.deep_view(),
                movements.deep_view(),
                provider::read_view(r),
            ),
    {
        let slug = scene.repository.slug();
        let read = self.pull_requests_with_generation(
            &labeled_pr_command(
                slug.as_str(),
                "merged",
                self.options.label.as_str(),
                self.options.merged_limit,
                true,
            ),
            &scene.repository,
        );
        assert(history::pulls_read(
            self.runner,
            commands::labeled_pr(
                scene.deep_view().repository.slug(),
                "merged"@,
                self.options.deep_view().label,
                self.options.deep_view().merged_limit,
                true,
            ),
            scene.deep_view().repository,
            provider::read_view(read),
        ));
        match read {
            Err(error) => Err(error),
            Ok((merged, merged_facts)) => self.close_pass(
                scene,
                merge_candidates,
                movements,
                merged,
                merged_facts,
            ),
        }
    }

    fn pass_over_scene(&self, scene: Scene, observed_at: &str) -> (r: Result<
        RepositorySnapshot,
        DiscoveryError,
    >)
        requires
            command::reads_allowed(self.runner),
        ensures
            pass_over(
                self.runner,
                self.options.deep_view(),
                observed_at@,
                scene.deep_view(),
                provider::read_view(r),
            ),
    {
        let members = keep_labelled(&scene.open, self.options.label.as_str());
        assert(members.deep_view().len() == members.len());
        let asked = if members.len() > MERGE_CANDIDATE_LIMIT {
            dup_range(&members, 0, MERGE_CANDIDATE_LIMIT)
        } else {
            members.dup()
        };
        assert(asked.deep_view() =~= bounded(members.deep_view()));
        let read = merge_candidate_identities(
            &self.runner,
            &scene.repository,
            &asked,
            observed_at,
            Some(&scene.default_branch),
        );
        assert(candidates::candidates_read(
            self.runner,
            scene.deep_view().repository,
            bounded(labelled_among(scene.deep_view().open, self.options.deep_view().label)),
            observed_at@,
            Some(scene.deep_view().default_branch),
            provider::read_view(read),
        ));
        match read {
            Err(error) => Err(error),
            Ok((identities, movements)) => self.pass_after_candidates(scene, identities, movements),
        }
    }

    fn pass_on_branches(
        &self,
        repository: RepositoryId,
        default_branch: BranchSnapshot,
        current_branch: Option<String>,
        previous_default_oid: Option<CommitOid>,
        observed_at: &str,
    ) -> (r: Result<RepositorySnapshot, DiscoveryError>)
        requires
            command::reads_allowed(self.runner),
        ensures
            pass_on(
                self.runner,
                self.options.deep_view(),
                observed_at@,
                repository.deep_view(),
                default_branch.deep_view(),
                current_branch.deep_view(),
                previous_default_oid.deep_view(),
                provider::read_view(r),
            ),
    {
        let slug = repository.slug();
        let read = self.pull_requests_with_generation(
            &open_pr_command(slug.as_str(), self.options.open_limit),
            &repository,
        );
        assert(history::pulls_read(
            self.runner,
            commands::open_pr(
                repository.deep_view().slug(),
                self.options.deep_view().open_limit,
            ),
            repository.deep_view(),
            provider::read_view(read),
        ));
        let (open, facts) = match read {
            Err(error) => {
                return Err(error);
            },
            Ok(pair) => pair,
        };
        let current = match find_current(&current_branch, &open) {
            Err(error) => {
                return Err(error);
            },
            Ok(current) => current,
        };
        match validate_active_heads(
            &repository,
            &keep_labelled(&open, self.options.label.as_str()),
        ) {
            Err(error) => {
                return Err(error);
            },
            Ok(_) => {},
        }
        let scene = Scene {
            repository,
            default_branch,
            current_branch,
            previous_default_oid,
            open,
            facts,
            current,
        };
        self.pass_over_scene(scene, observed_at)
    }

    fn pass_in_repository(&self, repository: RepositoryId, name: String, observed_at: &str) -> (r:
        Result<RepositorySnapshot, DiscoveryError>)
        requires
            command::reads_allowed(self.runner),
        ensures
            pass_in(
                self.runner,
                self.options.deep_view(),
                observed_at@,
                repository.deep_view(),
                name@,
                provider::read_view(r),
            ),
    {
        let read = self.current_branch();
        assert(branch_read(self.runner, provider::read_view(read)));
        let current_branch = match read {
            Err(error) => {
                return Err(error);
            },
            Ok(current_branch) => current_branch,
        };
        let known = self.previous_default_oid(name.as_str());
        assert(previous_read(self.runner, name@, provider::read_view(known)));
        let previous_default_oid = match known {
            Err(error) => {
                return Err(error);
            },
            Ok(previous) => previous,
        };
        let live = self.read_default(&repository, name.as_str());
        assert(default_read(
            self.runner,
            repository.deep_view(),
            name@,
            provider::read_view(live),
        ));
        let ghost branch = current_branch.deep_view();
        let ghost previous = previous_default_oid.deep_view();
        let ghost home = repository.deep_view();
        let r = match live {
            Err(error) => Err(error),
            Ok(default_branch) => self.pass_on_branches(
                repository,
                default_branch,
                current_branch,
                previous_default_oid,
                observed_at,
            ),
        };
        assert(pass_from_default(
            self.runner,
            self.options.deep_view(),
            observed_at@,
            home,
            name@,
            branch,
            previous,
            provider::read_view(r),
        ));
        assert(pass_from_branch(
            self.runner,
            self.options.deep_view(),
            observed_at@,
            home,
            name@,
            branch,
            provider::read_view(r),
        ));
        r
    }

    /// One complete read-only pass, at a moment.
    pub fn discover_at(&self, observed_at: &str) -> (r: Result<RepositorySnapshot, DiscoveryError>)
        requires
            command::reads_allowed(self.runner),
        ensures
            discovered(
                self.runner,
                self.options.deep_view(),
                observed_at@,
                provider::read_view(r),
            ),
    {
        if self.options.open_limit == 0 {
            return Err(DiscoveryError::InvalidLimit("open_limit".to_owned()));
        }
        if self.options.merged_limit == 0 {
            return Err(DiscoveryError::InvalidLimit("merged_limit".to_owned()));
        }
        let read = fetch::<R, RepositoryJson>(&self.runner, &repository_command());
        assert(provider::fetched::<R, RepositoryJson>(
            self.runner,
            commands::repository(),
            provider::read_view(read),
        ));
        match judge_identity(read) {
            Err(error) => Err(error),
            Ok((repository, name)) => self.pass_in_repository(repository, name, observed_at),
        }
    }

    /// One complete read-only pass, now.
    pub fn discover(&self) -> (r: Result<RepositorySnapshot, DiscoveryError>)
        requires
            command::reads_allowed(self.runner),
        ensures
            exists|seconds: Option<u64>| #[trigger]
                discovered(
                    self.runner,
                    self.options.deep_view(),
                    moment(seconds),
                    provider::read_view(r),
                ),
    {
        let seconds = seconds_now();
        let observed_at = moment_text(seconds);
        let r = self.discover_at(observed_at.as_str());
        assert(discovered(
            self.runner,
            self.options.deep_view(),
            moment(seconds),
            provider::read_view(r),
        ));
        r
    }
}

/// Reading the merge candidate of one pull request at a moment may end so.
pub open spec fn identity_read<R: CommandRunner>(
    runner: R,
    repository: RepositoryIdView,
    pr: PullRequestSnapshotView,
    default_branch: Option<BranchSnapshotView>,
    observed_at: Seq<char>,
    outcome: Result<MergeCandidateIdentityView, DiscoveryErrorView>,
) -> bool {
    exists|
        read: Result<
            (Seq<MergeCandidateIdentityView>, Seq<DefaultBranchMovementView>),
            DiscoveryErrorView,
        >,
    | #[trigger]
        candidates::candidates_read(
            runner,
            repository,
            seq![pr],
            observed_at,
            default_branch,
            read,
        ) && outcome == match read {
            Err(error) => Err(error),
            Ok(pair) => Ok(pair.0[0]),
        }
}

} // verus!
