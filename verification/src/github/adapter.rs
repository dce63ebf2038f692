//! Optimistic provider primitives, free of policy.

use vstd::prelude::*;
use vstd::string::*;
use crate::command;
use crate::command::{
    After, CommandOutput, CommandOutputView, CommandRunner, CommandSpec, CommandSpecView, Sent,
};
use crate::github::commands;
use crate::github::commands::{
    branch_protection_command, branch_settings_command, compare_commits_command,
    create_repository_label_command, default_branch_command, merge_commit_command,
    open_generation_pr_command, pull_request_command, rate_limit_command,
    repository_command, repository_labels_command, repository_permission_command,
    repository_settings_command,
};
use crate::github::facts;
use crate::github::facts::{
    CommitRelation, DefaultBranchPolicy, DefaultBranchPolicyView, GitHubMutationReceipt,
    GitHubMutationReceiptView, GitHubRateLimits, MutationKind,
};
use crate::github::one_write::perform;
use crate::github::pr_operations;
use crate::github::pr_operations::PrOperation;
use crate::github::provider;
use crate::github::provider::{
    fetch, run_checked, DiscoveryError, DiscoveryErrorView, MutationError, MutationErrorView,
    PullRequestPrecondition, PullRequestPreconditionView,
};
use crate::github::raw;
use crate::github::raw::{
    repository_id, BranchProtectionJson, BranchProtectionJsonView, BranchSettingsJson,
    BranchSettingsJsonView, CommitComparisonJson, CommitComparisonJsonView,
    GenerationPullRequestJson, GenerationPullRequestJsonView, GitRefJson, GitRefJsonView,
    MergeCommitJson, MergeCommitJsonView, PullRequestJson, PullRequestJsonView,
    RateLimitResponseJson, RateLimitResponseJsonView, RepositoryJson, RepositoryJsonView,
    RepositoryLabel, RepositoryLabelView, RepositoryPermissionJson, RepositoryPermissionJsonView,
    RepositorySettingsJson, RepositorySettingsJsonView,
};
use crate::json::Decode;
use crate::model;
use crate::model::{
    push_item, CommitOid, LabelSet, Model, PrNumber, PullRequestGenerationFact,
    PullRequestGenerationFactView, PullRequestSnapshot, PullRequestSnapshotView, RepositoryId,
    RepositoryIdView,
};
use crate::text;
use crate::text::trim;

verus! {

/// Provider primitives over a command runner.
#[derive(Debug)]
pub struct GitHubMutationAdapter<R> {
    pub runner: R,
}

// ---------------------------------------------------------------------------
// Outcomes
// ---------------------------------------------------------------------------

/// A read as the outcome of a primitive.
pub open spec fn lifted<V>(read: Result<V, DiscoveryErrorView>) -> Result<V, MutationErrorView> {
    match read {
        Ok(content) => Ok(content),
        Err(error) => Err(MutationErrorView::Provider(error)),
    }
}

/// The content of an outcome.
pub open spec fn outcome_view<T: DeepView>(outcome: Result<T, MutationError>) -> Result<
    T::V,
    MutationErrorView,
> {
    match outcome {
        Ok(value) => Ok(value.deep_view()),
        Err(error) => Err(error.deep_view()),
    }
}

/// An outcome with its value changed.
pub open spec fn mapped<A, B>(
    outcome: Result<A, MutationErrorView>,
    change: spec_fn(A) -> B,
) -> Result<B, MutationErrorView> {
    match outcome {
        Ok(value) => Ok(change(value)),
        Err(error) => Err(error),
    }
}

/// Reading a document of a type may end so.
pub open spec fn got<R: CommandRunner, T: Decode>(
    runner: R,
    command: CommandSpecView,
    outcome: Result<T::V, MutationErrorView>,
) -> bool {
    exists|read: Result<T::V, DiscoveryErrorView>| #[trigger]
        provider::fetched::<R, T>(runner, command, read) && outcome == lifted(read)
}

/// What is read after a command was sent may be read.
pub proof fn lemma_after_got<R: CommandRunner, T: Decode>(
    runner: R,
    sent: Sent,
    command: CommandSpecView,
    outcome: Result<T::V, MutationErrorView>,
)
    requires
        got::<After<R>, T>(command::after(&runner, &sent), command, outcome),
    ensures
        got::<R, T>(runner, command, outcome),
{
    let later = command::after(&runner, &sent);
    let read = choose|read: Result<T::V, DiscoveryErrorView>| #[trigger]
        provider::fetched::<After<R>, T>(later, command, read) && outcome == lifted(read);
    let reply = choose|reply: command::Reply| #[trigger]
        command::ran(later, command, reply) && read == provider::document(
            command,
            reply,
            |tree: crate::json::Json| T::decoded(tree),
        );
    command::lemma_after_ran(runner, sent, command, reply);
    assert(provider::fetched::<R, T>(runner, command, read));
}

/// Running a command that must end with status zero may end so.
pub open spec fn done<R: CommandRunner>(
    runner: R,
    command: CommandSpecView,
    outcome: Result<CommandOutputView, MutationErrorView>,
) -> bool {
    exists|read: Result<CommandOutputView, DiscoveryErrorView>| #[trigger]
        provider::completed(runner, command, read) && outcome == lifted(read)
}

// ---------------------------------------------------------------------------
// Decisions on what was read
// ---------------------------------------------------------------------------

/// The identity of a repository and the name of its default branch.
pub open spec fn identity_of(document: RepositoryJsonView) -> Result<
    (RepositoryIdView, Seq<char>),
    MutationErrorView,
> {
    match document.default_branch_ref {
        None => Err(MutationErrorView::Provider(DiscoveryErrorView::MissingDefaultBranch)),
        Some(branch) => match raw::slug_repository(document.name_with_owner) {
            Err(error) => Err(MutationErrorView::Provider(error)),
            Ok(repository) => Ok((repository, branch.name)),
        },
    }
}

/// The identity of a repository and the name of its default branch.
pub fn identify(document: RepositoryJson) -> (r: Result<(RepositoryId, String), MutationError>)
    ensures
        outcome_view(r) == identity_of(document.deep_view()),
{
    match document.default_branch_ref {
        None => Err(MutationError::Provider(DiscoveryError::MissingDefaultBranch)),
        Some(branch) => match repository_id(document.name_with_owner.as_str()) {
            Err(error) => Err(MutationError::Provider(error)),
            Ok(repository) => Ok((repository, branch.name)),
        },
    }
}

/// A branch that must stand at a commit.
pub open spec fn held_at(
    branch: Seq<char>,
    expected: Seq<char>,
    reference: GitRefJsonView,
) -> Result<
    (),
    MutationErrorView,
> {
    if reference.object.sha == expected {
        Ok(())
    } else {
        Err(
            MutationErrorView::BranchHeadMismatch {
                branch,
                expected,
                actual: reference.object.sha,
            },
        )
    }
}

/// Whether a branch stands at the commit that it must stand at.
pub fn hold_at(branch: &str, expected: &CommitOid, reference: GitRefJson) -> (r: Result<
    (),
    MutationError,
>)
    ensures
        outcome_view(r) == held_at(branch@, expected.deep_view(), reference.deep_view()),
{
    if reference.object.sha.same(&expected.0) {
        Ok(())
    } else {
        Err(
            MutationError::BranchHeadMismatch {
                branch: branch.to_owned(),
                expected: expected.dup(),
                actual: CommitOid(reference.object.sha),
            },
        )
    }
}

/// The names of required checks that a protection declares, in order of
/// declaration.
pub open spec fn declared_contexts(policy: BranchProtectionJsonView) -> Seq<Seq<char>> {
    match policy.required_status_checks {
        Some(required) => required.contexts + Seq::new(
            required.checks.len(),
            |i: int| required.checks[i].context,
        ),
        None => Seq::empty(),
    }
}

/// The names of required checks that a protection declares.
pub fn contexts_of(policy: &BranchProtectionJson) -> (r: Vec<String>)
    ensures
        r.deep_view() == declared_contexts(policy.deep_view()),
{
    match &policy.required_status_checks {
        Some(required) => {
            let checks = &required.checks;
            let ghost all = checks.deep_view();
            let ghost names = Seq::new(all.len(), |i: int| all[i].context);
            let ghost before = required.contexts.deep_view();
            let mut out = required.contexts.dup();
            let mut i: usize = 0;
            assert(out.deep_view() =~= before + names.take(0));
            while i < checks.len()
                invariant
                    all == checks.deep_view(),
                    names == Seq::new(all.len(), |i: int| all[i].context),
                    i <= checks.len(),
                    out.deep_view() == before + names.take(i as int),
                decreases checks.len() - i,
            {
                assert(all[i as int] == checks[i as int].deep_view());
                push_item(&mut out, checks[i].context.dup());
                assert(out.deep_view() =~= before + names.take(i as int + 1));
                i = i + 1;
            }
            assert(names.take(i as int) =~= names);
            out
        },
        None => {
            let out: Vec<String> = Vec::new();
            assert(out.deep_view() =~= Seq::<Seq<char>>::empty());
            out
        },
    }
}

/// The requirements of a protection.
pub open spec fn policy_of(policy: BranchProtectionJsonView) -> DefaultBranchPolicyView {
    DefaultBranchPolicyView {
        required_status_checks: model::label_set(declared_contexts(policy)),
        strict_status_checks: match policy.required_status_checks {
            Some(required) => required.strict,
            None => false,
        },
        required_approving_review_count: match policy.required_pull_request_reviews {
            Some(reviews) => reviews.required_approving_review_count,
            None => 0,
        },
    }
}

/// The requirements of a protection: each required check once, in order.
pub fn requirements(policy: BranchProtectionJson) -> (r: DefaultBranchPolicy)
    ensures
        r.deep_view() == policy_of(policy.deep_view()),
{
    let names = contexts_of(&policy);
    DefaultBranchPolicy {
        required_status_checks: LabelSet::from_list(&names).to_list(),
        strict_status_checks: match &policy.required_status_checks {
            Some(required) => required.strict,
            None => false,
        },
        required_approving_review_count: match &policy.required_pull_request_reviews {
            Some(reviews) => reviews.required_approving_review_count,
            None => 0,
        },
    }
}

/// The merge commit of a document, where it names one.
pub open spec fn merge_commit_of(document: MergeCommitJsonView) -> Option<Seq<char>> {
    match document.merge_commit {
        Some(commit) => if commit.oid.len() > 0 {
            Some(commit.oid)
        } else {
            None
        },
        None => None,
    }
}

/// The names of labels.
pub open spec fn label_names(rows: Seq<RepositoryLabelView>) -> Seq<Seq<char>> {
    Seq::new(rows.len(), |i: int| rows[i].name)
}

/// The set of the names of labels.
pub fn names_of_labels(rows: &Vec<RepositoryLabel>) -> (r: LabelSet)
    ensures
        r.deep_view() == model::label_set(label_names(rows.deep_view())),
{
    let ghost all = rows.deep_view();
    let mut out: Vec<String> = Vec::new();
    let mut i: usize = 0;
    while i < rows.len()
        invariant
            all == rows.deep_view(),
            i <= rows.len(),
            out.deep_view() == label_names(all).take(i as int),
        decreases rows.len() - i,
    {
        assert(all[i as int] == rows[i as int].deep_view());
        push_item(&mut out, rows[i].name.dup());
        i = i + 1;
        assert(out.deep_view() =~= label_names(all).take(i as int));
    }
    assert(out.deep_view() =~= label_names(all));
    LabelSet::from_list(&out)
}

/// The generation facts of documents.
pub open spec fn generations(rows: Seq<GenerationPullRequestJsonView>) -> Seq<
    PullRequestGenerationFactView,
> {
    Seq::new(rows.len(), |i: int| rows[i].generation_fact())
}

/// The generation facts of documents.
pub fn generation_facts_of(rows: &Vec<GenerationPullRequestJson>) -> (r: Vec<
    PullRequestGenerationFact,
>)
    ensures
        r.deep_view() == generations(rows.deep_view()),
{
    let ghost all = rows.deep_view();
    let mut out: Vec<PullRequestGenerationFact> = Vec::new();
    let mut i: usize = 0;
    while i < rows.len()
        invariant
            all == rows.deep_view(),
            i <= rows.len(),
            out.deep_view() == generations(all).take(i as int),
        decreases rows.len() - i,
    {
        assert(all[i as int] == rows[i as int].deep_view());
        push_item(&mut out, rows[i].generation_fact());
        i = i + 1;
        assert(out.deep_view() =~= generations(all).take(i as int));
    }
    assert(out.deep_view() =~= generations(all));
    out
}

// ---------------------------------------------------------------------------
// Preconditions
// ---------------------------------------------------------------------------

/// The facts of a pull request that a mutation rests on.
pub open spec fn precondition_of(snapshot: PullRequestSnapshotView) -> PullRequestPreconditionView {
    PullRequestPreconditionView {
        number: snapshot.number,
        state: snapshot.state,
        head_oid: snapshot.head.oid,
        base_ref: snapshot.base.name,
        base_oid: snapshot.base.oid,
        labels: snapshot.labels,
        checks: snapshot.checks,
        auto_merge: snapshot.auto_merge,
    }
}

impl PullRequestPrecondition {
    /// The facts of a pull request that a mutation rests on.
    pub fn from(snapshot: &PullRequestSnapshot) -> (r: Self)
        ensures
            r.deep_view() == precondition_of(snapshot.deep_view()),
    {
        PullRequestPrecondition {
            number: snapshot.number,
            state: snapshot.state,
            head_oid: snapshot.head.oid.dup(),
            base_ref: snapshot.base.name.dup(),
            base_oid: snapshot.base.oid.dup(),
            labels: snapshot.labels.dup(),
            checks: snapshot.checks.dup(),
            auto_merge: snapshot.auto_merge.dup(),
        }
    }
}

/// A list with one more name, if the name belongs there.
pub open spec fn noted(names: Seq<Seq<char>>, name: Seq<char>, changed: bool) -> Seq<Seq<char>> {
    if changed {
        names.push(name)
    } else {
        names
    }
}

/// The names of the facts that changed, but for the checks.
pub open spec fn changed_fields(
    expected: PullRequestPreconditionView,
    actual: PullRequestPreconditionView,
) -> Seq<Seq<char>> {
    let c = noted(Seq::empty(), "number"@, expected.number != actual.number);
    let c = noted(c, "state"@, expected.state != actual.state);
    let c = noted(c, "head_oid"@, expected.head_oid != actual.head_oid);
    let c = noted(c, "base_ref"@, expected.base_ref != actual.base_ref);
    let c = noted(c, "base_oid"@, expected.base_oid != actual.base_oid);
    let c = noted(c, "labels"@, expected.labels != actual.labels);
    noted(
        c,
        "auto_merge"@,
        !model::same_setting_view(expected.auto_merge, actual.auto_merge),
    )
}

/// The names of the facts that changed.
pub open spec fn changed_with_checks(
    expected: PullRequestPreconditionView,
    actual: PullRequestPreconditionView,
) -> Seq<Seq<char>> {
    noted(changed_fields(expected, actual), "checks"@, expected.checks != actual.checks)
}

fn note(names: &mut Vec<String>, name: &str, changed: bool)
    ensures
        final(names).deep_view() == noted(old(names).deep_view(), name@, changed),
{
    if changed {
        push_item(names, name.to_owned());
    }
}

/// The names of the facts that changed, but for the checks.
pub fn changed_precondition_fields(
    expected: &PullRequestPrecondition,
    actual: &PullRequestPrecondition,
) -> (r: Vec<String>)
    ensures
        r.deep_view() == changed_fields(expected.deep_view(), actual.deep_view()),
{
    let mut changed: Vec<String> = Vec::new();
    assert(changed.deep_view() =~= Seq::<Seq<char>>::empty());
    note(&mut changed, "number", !expected.number.same(&actual.number));
    note(&mut changed, "state", !expected.state.same(&actual.state));
    note(&mut changed, "head_oid", !expected.head_oid.same(&actual.head_oid));
    note(&mut changed, "base_ref", !expected.base_ref.same(&actual.base_ref));
    note(&mut changed, "base_oid", !expected.base_oid.same(&actual.base_oid));
    note(&mut changed, "labels", !expected.labels.same(&actual.labels));
    note(&mut changed, "auto_merge", !expected.auto_merge.same_setting(&actual.auto_merge));
    changed
}

/// The names of the facts that changed.
pub fn changed_precondition_fields_with_checks(
    expected: &PullRequestPrecondition,
    actual: &PullRequestPrecondition,
) -> (r: Vec<String>)
    ensures
        r.deep_view() == changed_with_checks(expected.deep_view(), actual.deep_view()),
{
    let mut changed = changed_precondition_fields(expected, actual);
    note(&mut changed, "checks", !expected.checks.same(&actual.checks));
    changed
}

/// What a fresh snapshot says of a precondition.
pub open spec fn confirmed(
    expected: PullRequestPreconditionView,
    with_checks: bool,
    snapshot: PullRequestSnapshotView,
) -> Result<PullRequestSnapshotView, MutationErrorView> {
    let actual = precondition_of(snapshot);
    let changed = if with_checks {
        changed_with_checks(expected, actual)
    } else {
        changed_fields(expected, actual)
    };
    if changed.len() == 0 {
        Ok(snapshot)
    } else {
        Err(MutationErrorView::StalePrecondition { expected, actual, changed_fields: changed })
    }
}

/// The fresh snapshot, if it still meets the precondition.
pub fn confirm(
    expected: &PullRequestPrecondition,
    with_checks: bool,
    snapshot: PullRequestSnapshot,
) -> (r: Result<PullRequestSnapshot, MutationError>)
    ensures
        outcome_view(r) == confirmed(expected.deep_view(), with_checks, snapshot.deep_view()),
{
    let actual = PullRequestPrecondition::from(&snapshot);
    let changed_fields = if with_checks {
        changed_precondition_fields_with_checks(expected, &actual)
    } else {
        changed_precondition_fields(expected, &actual)
    };
    if changed_fields.len() == 0 {
        Ok(snapshot)
    } else {
        Err(
            MutationError::StalePrecondition {
                expected: Box::new(expected.dup()),
                actual: Box::new(actual),
                changed_fields,
            },
        )
    }
}

/// A precondition of a snapshot is met by every snapshot with the same
/// authority facts, whatever became of its checks, and by no other.
pub proof fn lemma_check_churn_never_stales(
    expected: PullRequestPreconditionView,
    snapshot: PullRequestSnapshotView,
)
    ensures
        confirmed(expected, false, snapshot) is Ok <==> ({
            let actual = precondition_of(snapshot);
            expected.number == actual.number && expected.state == actual.state && expected.head_oid
                == actual.head_oid && expected.base_ref == actual.base_ref && expected.base_oid
                == actual.base_oid && expected.labels == actual.labels && model::same_setting_view(
                expected.auto_merge,
                actual.auto_merge,
            )
        }),
        confirmed(expected, true, snapshot) is Ok <==> confirmed(expected, false, snapshot) is Ok
            && expected.checks == snapshot.checks,
{
}

/// Reading a pull request may end so.
pub open spec fn refetched<R: CommandRunner>(
    runner: R,
    repository: RepositoryIdView,
    selector: Seq<char>,
    outcome: Result<PullRequestSnapshotView, MutationErrorView>,
) -> bool {
    exists|read: Result<PullRequestJsonView, MutationErrorView>| #[trigger]
        got::<R, PullRequestJson>(runner, commands::pull_request(repository, selector), read)
            && outcome == match read {
            Err(error) => Err(error),
            Ok(document) => lifted(document.snapshot(repository)),
        }
}

/// Reading pull requests one after the other, perhaps not all of them, may give
/// these.
pub open spec fn refetched_each<R: CommandRunner>(
    runner: R,
    repository: RepositoryIdView,
    prs: Seq<PrNumber>,
    reads: Seq<Result<PullRequestSnapshotView, MutationErrorView>>,
) -> bool {
    reads.len() <= prs.len() && forall|i: int|
        0 <= i < reads.len() ==> refetched(
            runner,
            repository,
            model::pr_text(prs[i]),
            #[trigger] reads[i],
        )
}

/// Confirming a precondition may end so.
pub open spec fn verified<R: CommandRunner>(
    runner: R,
    repository: RepositoryIdView,
    expected: PullRequestPreconditionView,
    with_checks: bool,
    outcome: Result<PullRequestSnapshotView, MutationErrorView>,
) -> bool {
    exists|read: Result<PullRequestSnapshotView, MutationErrorView>| #[trigger]
        refetched(runner, repository, model::pr_text(expected.number), read) && outcome
            == match read {
            Err(error) => Err(error),
            Ok(snapshot) => confirmed(expected, with_checks, snapshot),
        }
}

/// The output of a provider command, where there is any.
pub open spec fn shown_output(output: CommandOutputView) -> Option<Seq<char>> {
    let value = text::trimmed(output.stdout);
    if value.len() == 0 {
        None
    } else {
        Some(value)
    }
}

/// The output of a provider command, where there is any.
pub fn trimmed_provider_output(output: &CommandOutput) -> (r: Option<String>)
    ensures
        r.deep_view() == shown_output(output.deep_view()),
{
    let value = trim(output.stdout.as_str());
    if value.as_str().is_empty() {
        None
    } else {
        Some(value)
    }
}

/// Reading a pull request back after an operation may end so.
pub open spec fn read_back<R: CommandRunner>(
    runner: R,
    repository: RepositoryIdView,
    selector: Seq<char>,
    kind: MutationKind,
    before: Option<PullRequestSnapshotView>,
    provider_output: Option<Seq<char>>,
    outcome: Result<GitHubMutationReceiptView, MutationErrorView>,
) -> bool {
    exists|after: Result<PullRequestSnapshotView, MutationErrorView>| #[trigger]
        refetched(runner, repository, selector, after) && outcome == mapped(
            after,
            |snapshot: PullRequestSnapshotView|
                GitHubMutationReceiptView { kind, before, after: snapshot, provider_output },
        )
}

/// Running the command of an operation and reading the pull request back after
/// it may end so.
pub open spec fn carried_out<R: CommandRunner>(
    runner: R,
    repository: RepositoryIdView,
    number: PrNumber,
    kind: MutationKind,
    before: PullRequestSnapshotView,
    command: CommandSpecView,
    outcome: Result<GitHubMutationReceiptView, MutationErrorView>,
) -> bool {
    exists|sent: Sent| #[trigger]
        command::was_sent(runner, command, sent) && match pr_operations::shown_by(
            command,
            sent.answer(),
        ) {
            Err(error) => outcome == Err::<GitHubMutationReceiptView, _>(error),
            Ok(shown) => read_back(
                command::after(&runner, &sent),
                repository,
                model::pr_text(number),
                kind,
                Some(before),
                shown_output(shown),
                outcome,
            ),
        }
}

/// One operation on a pull request whose precondition still holds may end so.
pub open spec fn mutated<R: CommandRunner>(
    runner: R,
    repository: RepositoryIdView,
    expected: PullRequestPreconditionView,
    kind: MutationKind,
    command: CommandSpecView,
    outcome: Result<GitHubMutationReceiptView, MutationErrorView>,
) -> bool {
    exists|before: Result<PullRequestSnapshotView, MutationErrorView>| #[trigger]
        verified(runner, repository, expected, false, before) && match before {
            Err(error) => outcome == Err::<GitHubMutationReceiptView, _>(error),
            Ok(snapshot) => carried_out(
                runner,
                repository,
                expected.number,
                kind,
                snapshot,
                command,
                outcome,
            ),
        }
}

/// What an operation on a pull request may run: the read of that pull request,
/// and the command of the operation once a fresh read met the precondition.
pub open spec fn may_mutate<R: CommandRunner>(
    runner: R,
    repository: RepositoryIdView,
    expected: PullRequestPreconditionView,
    command: CommandSpecView,
) -> bool {
    &&& runner.allows(commands::pull_request(repository, model::pr_text(expected.number)))
    &&& (exists|seen: PullRequestSnapshotView| #[trigger]
        verified(runner, repository, expected, false, Ok(seen))) ==> runner.allows(command)
}

/// Every operation on a pull request is guarded: one that succeeds started from
/// fresh facts that met the precondition, and its receipt names them.
pub proof fn lemma_mutation_is_guarded<R: CommandRunner>(
    runner: R,
    repository: RepositoryIdView,
    expected: PullRequestPreconditionView,
    kind: MutationKind,
    command: CommandSpecView,
    outcome: Result<GitHubMutationReceiptView, MutationErrorView>,
)
    requires
        mutated(runner, repository, expected, kind, command, outcome),
        outcome is Ok,
    ensures
        outcome->Ok_0.kind == kind,
        outcome->Ok_0.before matches Some(before) && confirmed(expected, false, before) is Ok
            && before.head.oid == expected.head_oid && before.number == expected.number,
{
}

impl<R: CommandRunner> GitHubMutationAdapter<R> {
    /// An adapter over a command runner.
    pub fn new(runner: R) -> (r: Self)
        ensures
            r.runner == runner,
    {
        GitHubMutationAdapter { runner }
    }

    /// The adapter after a command was sent.
    pub fn after<'a>(&'a self, sent: &'a Sent) -> (r: GitHubMutationAdapter<After<'a, R>>)
        ensures
            r.runner == command::after(&self.runner, sent),
    {
        GitHubMutationAdapter { runner: After { runner: &self.runner, sent } }
    }

    /// Runs a command that must end with status zero.
    pub fn checked(&self, command: &CommandSpec) -> (r: Result<CommandOutput, MutationError>)
        requires
            self.runner.allows(command.deep_view()),
        ensures
            done(self.runner, command.deep_view(), outcome_view(r)),
    {
        let read = run_checked(&self.runner, command);
        assert(provider::completed(self.runner, command.deep_view(), provider::read_view(read)));
        match read {
            Ok(output) => Ok(output),
            Err(error) => Err(MutationError::Provider(error)),
        }
    }

    /// Reads a document of a type.
    pub fn json<T: Decode>(&self, command: &CommandSpec) -> (r: Result<T, MutationError>)
        requires
            self.runner.allows(command.deep_view()),
        ensures
            got::<R, T>(self.runner, command.deep_view(), outcome_view(r)),
    {
        let read = fetch::<R, T>(&self.runner, command);
        assert(provider::fetched::<R, T>(
            self.runner,
            command.deep_view(),
            provider::read_view(read),
        ));
        match read {
            Ok(content) => Ok(content),
            Err(error) => Err(MutationError::Provider(error)),
        }
    }

    /// The identity of the repository and the name of its default branch,
    /// without any pull request or reference.
    pub fn repository_identity(&self) -> (r: Result<(RepositoryId, String), MutationError>)
        requires
            self.runner.allows(commands::repository()),
        ensures
            exists|read: Result<RepositoryJsonView, MutationErrorView>| #[trigger]
                got::<R, RepositoryJson>(self.runner, commands::repository(), read)
                    && outcome_view(r) == match read {
                    Err(error) => Err(error),
                    Ok(document) => identity_of(document),
                },
    {
        let read = self.json::<RepositoryJson>(&repository_command());
        assert(got::<R, RepositoryJson>(self.runner, commands::repository(), outcome_view(read)));
        match read {
            Err(error) => Err(error),
            Ok(document) => identify(document),
        }
    }

    /// Confirms that a branch still stands at a commit.
    pub fn verify_branch_head(
        &self,
        repository: &RepositoryId,
        branch: &str,
        expected: &CommitOid,
    ) -> (r: Result<(), MutationError>)
        requires
            self.runner.allows(commands::default_branch(repository.deep_view().slug(), branch@)),
        ensures
            exists|read: Result<GitRefJsonView, MutationErrorView>| #[trigger]
                got::<R, GitRefJson>(
                    self.runner,
                    commands::default_branch(repository.deep_view().slug(), branch@),
                    read,
                ) && outcome_view(r) == match read {
                    Err(error) => Err(error),
                    Ok(reference) => held_at(branch@, expected.deep_view(), reference),
                },
    {
        let slug = repository.slug();
        let read = self.json::<GitRefJson>(&default_branch_command(slug.as_str(), branch));
        assert(got::<R, GitRefJson>(
            self.runner,
            commands::default_branch(repository.deep_view().slug(), branch@),
            outcome_view(read),
        ));
        match read {
            Err(error) => Err(error),
            Ok(reference) => hold_at(branch, expected, reference),
        }
    }

    /// Whether the provider reports protection of a branch.
    pub fn branch_is_protected(&self, repository: &RepositoryId, branch: &str) -> (r: Result<
        bool,
        MutationError,
    >)
        requires
            self.runner.allows(commands::branch_settings(repository.deep_view(), branch@)),
        ensures
            exists|read: Result<BranchSettingsJsonView, MutationErrorView>| #[trigger]
                got::<R, BranchSettingsJson>(
                    self.runner,
                    commands::branch_settings(repository.deep_view(), branch@),
                    read,
                ) && outcome_view(r) == mapped(read, |b: BranchSettingsJsonView| b.protected),
    {
        let read = self.json::<BranchSettingsJson>(&branch_settings_command(repository, branch));
        assert(got::<R, BranchSettingsJson>(
            self.runner,
            commands::branch_settings(repository.deep_view(), branch@),
            outcome_view(read),
        ));
        match read {
            Err(error) => Err(error),
            Ok(settings) => Ok(settings.protected),
        }
    }

    /// The required checks and reviews of a protected branch. Where there are
    /// none the policy is empty, which is not ready.
    pub fn default_branch_policy(&self, repository: &RepositoryId, branch: &str) -> (r: Result<
        DefaultBranchPolicy,
        MutationError,
    >)
        requires
            self.runner.allows(commands::branch_protection(repository.deep_view(), branch@)),
        ensures
            exists|read: Result<BranchProtectionJsonView, MutationErrorView>| #[trigger]
                got::<R, BranchProtectionJson>(
                    self.runner,
                    commands::branch_protection(repository.deep_view(), branch@),
                    read,
                ) && outcome_view(r) == mapped(read, |p: BranchProtectionJsonView| policy_of(p)),
    {
        let read = self.json::<BranchProtectionJson>(
            &branch_protection_command(repository, branch),
        );
        assert(got::<R, BranchProtectionJson>(
            self.runner,
            commands::branch_protection(repository.deep_view(), branch@),
            outcome_view(read),
        ));
        match read {
            Err(error) => Err(error),
            Ok(policy) => Ok(requirements(policy)),
        }
    }

    /// Whether the settings of the repository allow auto-merge with a squash.
    pub fn repository_allows_auto_merge(&self, repository: &RepositoryId) -> (r: Result<
        bool,
        MutationError,
    >)
        requires
            self.runner.allows(commands::repository_settings(repository.deep_view())),
        ensures
            exists|read: Result<RepositorySettingsJsonView, MutationErrorView>| #[trigger]
                got::<R, RepositorySettingsJson>(
                    self.runner,
                    commands::repository_settings(repository.deep_view()),
                    read,
                ) && outcome_view(r) == mapped(
                    read,
                    |s: RepositorySettingsJsonView| s.allow_auto_merge && s.allow_squash_merge,
                ),
    {
        let read = self.json::<RepositorySettingsJson>(&repository_settings_command(repository));
        assert(got::<R, RepositorySettingsJson>(
            self.runner,
            commands::repository_settings(repository.deep_view()),
            outcome_view(read),
        ));
        match read {
            Err(error) => Err(error),
            Ok(settings) => Ok(settings.allow_auto_merge && settings.allow_squash_merge),
        }
    }

    /// Whether the settings of the repository allow a squash at all. That is
    /// all that a landing of the caravan's own needs.
    pub fn repository_allows_squash_merge(&self, repository: &RepositoryId) -> (r: Result<
        bool,
        MutationError,
    >)
        requires
            self.runner.allows(commands::repository_settings(repository.deep_view())),
        ensures
            exists|read: Result<RepositorySettingsJsonView, MutationErrorView>| #[trigger]
                got::<R, RepositorySettingsJson>(
                    self.runner,
                    commands::repository_settings(repository.deep_view()),
                    read,
                ) && outcome_view(r) == mapped(
                    read,
                    |s: RepositorySettingsJsonView| s.allow_squash_merge,
                ),
    {
        let read = self.json::<RepositorySettingsJson>(&repository_settings_command(repository));
        assert(got::<R, RepositorySettingsJson>(
            self.runner,
            commands::repository_settings(repository.deep_view()),
            outcome_view(read),
        ));
        match read {
            Err(error) => Err(error),
            Ok(settings) => Ok(settings.allow_squash_merge),
        }
    }

    /// The commit at which a branch stands.
    pub fn branch_head_oid(&self, repository: &RepositoryId, branch: &str) -> (r: Result<
        CommitOid,
        MutationError,
    >)
        requires
            self.runner.allows(commands::default_branch(repository.deep_view().slug(), branch@)),
        ensures
            exists|read: Result<GitRefJsonView, MutationErrorView>| #[trigger]
                got::<R, GitRefJson>(
                    self.runner,
                    commands::default_branch(repository.deep_view().slug(), branch@),
                    read,
                ) && outcome_view(r) == mapped(read, |g: GitRefJsonView| g.object.sha),
    {
        let slug = repository.slug();
        let read = self.json::<GitRefJson>(&default_branch_command(slug.as_str(), branch));
        assert(got::<R, GitRefJson>(
            self.runner,
            commands::default_branch(repository.deep_view().slug(), branch@),
            outcome_view(read),
        ));
        match read {
            Err(error) => Err(error),
            Ok(reference) => Ok(CommitOid(reference.object.sha)),
        }
    }

    /// The merge commit of a merged pull request, where the provider names it.
    pub fn merge_commit_oid(&self, repository: &RepositoryId, number: PrNumber) -> (r: Result<
        Option<CommitOid>,
        MutationError,
    >)
        requires
            self.runner.allows(commands::merge_commit(repository.deep_view(), number)),
        ensures
            exists|read: Result<MergeCommitJsonView, MutationErrorView>| #[trigger]
                got::<R, MergeCommitJson>(
                    self.runner,
                    commands::merge_commit(repository.deep_view(), number),
                    read,
                ) && outcome_view(r) == mapped(
                    read,
                    |m: MergeCommitJsonView| merge_commit_of(m),
                ),
    {
        let read = self.json::<MergeCommitJson>(&merge_commit_command(repository, number));
        assert(got::<R, MergeCommitJson>(
            self.runner,
            commands::merge_commit(repository.deep_view(), number),
            outcome_view(read),
        ));
        match read {
            Err(error) => Err(error),
            Ok(document) => match document.merge_commit {
                Some(commit) => if commit.oid.as_str().is_empty() {
                    Ok(None)
                } else {
                    Ok(Some(CommitOid(commit.oid)))
                },
                None => Ok(None),
            },
        }
    }

    /// The labels of the repository with their metadata.
    pub fn repository_label_definitions(&self, repository: &RepositoryId) -> (r: Result<
        Vec<RepositoryLabel>,
        MutationError,
    >)
        requires
            self.runner.allows(commands::repository_labels(repository.deep_view())),
        ensures
            got::<R, Vec<RepositoryLabel>>(
                self.runner,
                commands::repository_labels(repository.deep_view()),
                outcome_view(r),
            ),
    {
        self.json::<Vec<RepositoryLabel>>(&repository_labels_command(repository))
    }

    /// The names of the labels of the repository.
    pub fn repository_labels(&self, repository: &RepositoryId) -> (r: Result<
        LabelSet,
        MutationError,
    >)
        requires
            self.runner.allows(commands::repository_labels(repository.deep_view())),
        ensures
            exists|read: Result<Seq<RepositoryLabelView>, MutationErrorView>| #[trigger]
                got::<R, Vec<RepositoryLabel>>(
                    self.runner,
                    commands::repository_labels(repository.deep_view()),
                    read,
                ) && outcome_view(r) == mapped(
                    read,
                    |rows: Seq<RepositoryLabelView>| model::label_set(label_names(rows)),
                ),
    {
        let read = self.repository_label_definitions(repository);
        assert(got::<R, Vec<RepositoryLabel>>(
            self.runner,
            commands::repository_labels(repository.deep_view()),
            outcome_view(read),
        ));
        match read {
            Err(error) => Err(error),
            Ok(rows) => Ok(names_of_labels(&rows)),
        }
    }

    /// The permission of the authenticated actor.
    pub fn repository_permission(&self, repository: &RepositoryId) -> (r: Result<
        String,
        MutationError,
    >)
        requires
            self.runner.allows(commands::repository_permission(repository.deep_view())),
        ensures
            permitted(self.runner, repository.deep_view(), outcome_view(r)),
    {
        let read = self.json::<RepositoryPermissionJson>(
            &repository_permission_command(repository),
        );
        assert(got::<R, RepositoryPermissionJson>(
            self.runner,
            commands::repository_permission(repository.deep_view()),
            outcome_view(read),
        ));
        match read {
            Err(error) => Err(error),
            Ok(document) => Ok(document.viewer_permission),
        }
    }

    /// The permission of the authenticated actor, for force evidence.
    pub fn viewer_permission(&self, repository: &RepositoryId) -> (r: Result<String, MutationError>)
        requires
            self.runner.allows(commands::repository_permission(repository.deep_view())),
        ensures
            permitted(self.runner, repository.deep_view(), outcome_view(r)),
    {
        self.repository_permission(repository)
    }

    /// The rate limits of the actor.
    pub fn rate_limits(&self) -> (r: Result<GitHubRateLimits, MutationError>)
        requires
            self.runner.allows(commands::rate_limit()),
        ensures
            exists|read: Result<RateLimitResponseJsonView, MutationErrorView>| #[trigger]
                got::<R, RateLimitResponseJson>(self.runner, commands::rate_limit(), read)
                    && outcome_view(r) == mapped(
                    read,
                    |limits: RateLimitResponseJsonView| limits.limits(),
                ),
    {
        let read = self.json::<RateLimitResponseJson>(&rate_limit_command());
        assert(got::<R, RateLimitResponseJson>(
            self.runner,
            commands::rate_limit(),
            outcome_view(read),
        ));
        match read {
            Err(error) => Err(error),
            Ok(response) => Ok(response.into_limits()),
        }
    }

    /// Creates a label. Callers read the metadata back: a timeout or a label
    /// that someone else created leaves the outcome open.
    pub fn create_repository_label(
        &self,
        repository: &RepositoryId,
        name: &str,
        color: &str,
        description: &str,
    ) -> (r: Result<(), MutationError>)
        requires
            self.runner.allows(
                commands::create_repository_label(
                    repository.deep_view(),
                    name@,
                    color@,
                    description@,
                ),
            ),
        ensures
            exists|read: Result<CommandOutputView, MutationErrorView>| #[trigger]
                done(
                    self.runner,
                    commands::create_repository_label(
                        repository.deep_view(),
                        name@,
                        color@,
                        description@,
                    ),
                    read,
                ) && outcome_view(r) == mapped(read, |o: CommandOutputView| ()),
    {
        let read = self.checked(
            &create_repository_label_command(repository, name, color, description),
        );
        assert(done(
            self.runner,
            commands::create_repository_label(
                repository.deep_view(),
                name@,
                color@,
                description@,
            ),
            outcome_view(read),
        ));
        match read {
            Err(error) => Err(error),
            Ok(_) => Ok(()),
        }
    }

    /// The generation facts of every open pull request.
    pub fn open_generation_facts(&self, repository: &RepositoryId) -> (r: Result<
        Vec<PullRequestGenerationFact>,
        MutationError,
    >)
        requires
            self.runner.allows(commands::open_generation_pr(repository.deep_view().slug(), 1000)),
        ensures
            exists|read: Result<Seq<GenerationPullRequestJsonView>, MutationErrorView>| #[trigger]
                got::<R, Vec<GenerationPullRequestJson>>(
                    self.runner,
                    commands::open_generation_pr(repository.deep_view().slug(), 1000),
                    read,
                ) && outcome_view(r) == mapped(
                    read,
                    |rows: Seq<GenerationPullRequestJsonView>| generations(rows),
                ),
    {
        let slug = repository.slug();
        let read = self.json::<Vec<GenerationPullRequestJson>>(
            &open_generation_pr_command(slug.as_str(), 1000),
        );
        assert(got::<R, Vec<GenerationPullRequestJson>>(
            self.runner,
            commands::open_generation_pr(repository.deep_view().slug(), 1000),
            outcome_view(read),
        ));
        match read {
            Err(error) => Err(error),
            Ok(rows) => Ok(generation_facts_of(&rows)),
        }
    }

    /// How two commits relate.
    pub fn compare_commits(
        &self,
        repository: &RepositoryId,
        base: &CommitOid,
        head: &CommitOid,
    ) -> (r: Result<CommitRelation, MutationError>)
        requires
            self.runner.allows(
                commands::compare_commits(
                    repository.deep_view(),
                    base.deep_view(),
                    head.deep_view(),
                ),
            ),
        ensures
            exists|read: Result<CommitComparisonJsonView, MutationErrorView>| #[trigger]
                got::<R, CommitComparisonJson>(
                    self.runner,
                    commands::compare_commits(
                        repository.deep_view(),
                        base.deep_view(),
                        head.deep_view(),
                    ),
                    read,
                ) && outcome_view(r) == mapped(
                    read,
                    |c: CommitComparisonJsonView| facts::commit_relation(c.status),
                ),
    {
        let read = self.json::<CommitComparisonJson>(
            &compare_commits_command(repository, base, head),
        );
        assert(got::<R, CommitComparisonJson>(
            self.runner,
            commands::compare_commits(repository.deep_view(), base.deep_view(), head.deep_view()),
            outcome_view(read),
        ));
        match read {
            Err(error) => Err(error),
            Ok(comparison) => Ok(CommitRelation::of_status(comparison.status.as_str())),
        }
    }

    /// Reads a pull request by number.
    pub fn refetch_pull_request(&self, repository: &RepositoryId, number: PrNumber) -> (r: Result<
        PullRequestSnapshot,
        MutationError,
    >)
        requires
            self.runner.allows(commands::pull_request(repository.deep_view(), model::pr_text(number))),
        ensures
            refetched(
                self.runner,
                repository.deep_view(),
                model::pr_text(number),
                outcome_view(r),
            ),
    {
        let selector = number.to_text();
        self.refetch_selector(repository, selector.as_str())
    }

    /// Reads a pull request by number, address or branch.
    pub fn refetch_selector(&self, repository: &RepositoryId, selector: &str) -> (r: Result<
        PullRequestSnapshot,
        MutationError,
    >)
        requires
            self.runner.allows(commands::pull_request(repository.deep_view(), selector@)),
        ensures
            refetched(self.runner, repository.deep_view(), selector@, outcome_view(r)),
    {
        let read = self.json::<PullRequestJson>(&pull_request_command(repository, selector));
        assert(got::<R, PullRequestJson>(
            self.runner,
            commands::pull_request(repository.deep_view(), selector@),
            outcome_view(read),
        ));
        match read {
            Err(error) => Err(error),
            Ok(document) => match document.into_snapshot(repository) {
                Ok(snapshot) => Ok(snapshot),
                Err(error) => Err(MutationError::Provider(error)),
            },
        }
    }

    fn verify(
        &self,
        repository: &RepositoryId,
        expected: &PullRequestPrecondition,
        with_checks: bool,
    ) -> (r: Result<PullRequestSnapshot, MutationError>)
        requires
            self.runner.allows(
                commands::pull_request(repository.deep_view(), model::pr_text(expected.deep_view().number)),
            ),
        ensures
            verified(
                self.runner,
                repository.deep_view(),
                expected.deep_view(),
                with_checks,
                outcome_view(r),
            ),
    {
        let read = self.refetch_pull_request(repository, expected.number);
        assert(refetched(
            self.runner,
            repository.deep_view(),
            model::pr_text(expected.deep_view().number),
            outcome_view(read),
        ));
        match read {
            Err(error) => Err(error),
            Ok(snapshot) => confirm(expected, with_checks, snapshot),
        }
    }

    /// Confirms the facts that a mutation rests on. Progress of checks is left
    /// out, so that it stales no operation that has nothing to do with it.
    pub fn verify_precondition(
        &self,
        repository: &RepositoryId,
        expected: &PullRequestPrecondition,
    ) -> (r: Result<PullRequestSnapshot, MutationError>)
        requires
            self.runner.allows(
                commands::pull_request(repository.deep_view(), model::pr_text(expected.deep_view().number)),
            ),
        ensures
            verified(
                self.runner,
                repository.deep_view(),
                expected.deep_view(),
                false,
                outcome_view(r),
            ),
    {
        self.verify(repository, expected, false)
    }

    /// Confirms the facts that a mutation rests on, and the checks.
    pub fn verify_precondition_with_checks(
        &self,
        repository: &RepositoryId,
        expected: &PullRequestPrecondition,
    ) -> (r: Result<PullRequestSnapshot, MutationError>)
        requires
            self.runner.allows(
                commands::pull_request(repository.deep_view(), model::pr_text(expected.deep_view().number)),
            ),
        ensures
            verified(
                self.runner,
                repository.deep_view(),
                expected.deep_view(),
                true,
                outcome_view(r),
            ),
    {
        self.verify(repository, expected, true)
    }

    /// Reads a pull request back after an operation.
    pub fn finish(
        &self,
        repository: &RepositoryId,
        selector: &str,
        kind: MutationKind,
        before: Option<PullRequestSnapshot>,
        provider_output: Option<String>,
    ) -> (r: Result<GitHubMutationReceipt, MutationError>)
        requires
            self.runner.allows(commands::pull_request(repository.deep_view(), selector@)),
        ensures
            read_back(
                self.runner,
                repository.deep_view(),
                selector@,
                kind,
                before.deep_view(),
                provider_output.deep_view(),
                outcome_view(r),
            ),
    {
        let after = self.refetch_selector(repository, selector);
        assert(refetched(self.runner, repository.deep_view(), selector@, outcome_view(after)));
        match after {
            Err(error) => Err(error),
            Ok(after) => Ok(GitHubMutationReceipt { kind, before, after, provider_output }),
        }
    }

    /// Reading a pull request back after a command was sent may end so.
    pub open spec fn seen_back(
        &self,
        repository: &RepositoryId,
        number: PrNumber,
        sent: &Sent,
        seen: &Result<PullRequestSnapshot, MutationError>,
    ) -> bool {
        refetched(
            command::after(&self.runner, sent),
            repository.deep_view(),
            model::pr_text(number),
            outcome_view(*seen),
        )
    }

    /// Reads a pull request back after a command was sent.
    pub fn see_back(&self, repository: &RepositoryId, number: PrNumber, sent: &Sent) -> (r: Result<
        PullRequestSnapshot,
        MutationError,
    >)
        requires
            self.runner.allows(
                commands::pull_request(repository.deep_view(), model::pr_text(number)),
            ),
        ensures
            self.seen_back(repository, number, sent, &r),
    {
        self.after(sent).refetch_pull_request(repository, number)
    }

    /// Runs the command of an operation and reads the pull request back.
    pub fn carry_out(
        &self,
        repository: &RepositoryId,
        number: PrNumber,
        kind: MutationKind,
        before: PullRequestSnapshot,
        command: &CommandSpec,
    ) -> (r: Result<GitHubMutationReceipt, MutationError>)
        requires
            self.runner.allows(command.deep_view()),
            self.runner.allows(commands::pull_request(repository.deep_view(), model::pr_text(number))),
        ensures
            carried_out(
                self.runner,
                repository.deep_view(),
                number,
                kind,
                before.deep_view(),
                command.deep_view(),
                outcome_view(r),
            ),
    {
        let operation = PrOperation { kind, command: command.dup() };
        let see = |sent: &Sent| -> (seen: Result<PullRequestSnapshot, MutationError>)
            requires
                self.runner.allows(
                    commands::pull_request(repository.deep_view(), model::pr_text(number)),
                ),
            ensures
                self.seen_back(repository, number, sent, &seen),
            { self.see_back(repository, number, sent) };
        perform(&self.runner, &operation, Ok(before), see)
    }

    /// One operation on a pull request whose precondition still holds.
    pub fn mutate_pull_request(
        &self,
        repository: &RepositoryId,
        expected: &PullRequestPrecondition,
        kind: MutationKind,
        command: &CommandSpec,
    ) -> (r: Result<GitHubMutationReceipt, MutationError>)
        requires
            may_mutate(
                self.runner,
                repository.deep_view(),
                expected.deep_view(),
                command.deep_view(),
            ),
        ensures
            mutated(
                self.runner,
                repository.deep_view(),
                expected.deep_view(),
                kind,
                command.deep_view(),
                outcome_view(r),
            ),
    {
        let before = self.verify_precondition(repository, expected);
        assert(verified(
            self.runner,
            repository.deep_view(),
            expected.deep_view(),
            false,
            outcome_view(before),
        ));
        match before {
            Err(error) => Err(error),
            Ok(snapshot) => self.carry_out(repository, expected.number, kind, snapshot, command),
        }
    }
}

/// Reading the permission of the actor may end so.
pub open spec fn permitted<R: CommandRunner>(
    runner: R,
    repository: RepositoryIdView,
    outcome: Result<Seq<char>, MutationErrorView>,
) -> bool {
    exists|read: Result<RepositoryPermissionJsonView, MutationErrorView>| #[trigger]
        got::<R, RepositoryPermissionJson>(
            runner,
            commands::repository_permission(repository),
            read,
        ) && outcome == mapped(read, |p: RepositoryPermissionJsonView| p.viewer_permission)
}

} // verus!
