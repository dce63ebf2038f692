//! Native Stacks at the provider.
//!
//! Each operation reads the provider afresh, asks for at most one documented
//! change, and reads again before it returns a sealed receipt.

use vstd::prelude::*;
use vstd::string::*;
use crate::command;
use crate::command::{
    dup_reply, run, CommandOutput, CommandOutputView, CommandRunError, CommandRunner, CommandSpec,
    CommandSpecView, Reply, Sent,
};
use crate::github::adapter;
use crate::github::adapter::GitHubMutationAdapter;
use crate::github::one_write::{perform, Granted, OneWrite};
use crate::github::provider::MutationErrorView;
use crate::github::raw::{GitRefJson, GitRefJsonView};
use crate::github::stack;
use crate::github::stack::{
    add_request, changed_topology_fields, create_request, native_stack_add_command,
    native_stack_base_ref_command, native_stack_create_command, native_stack_list_command,
    native_stack_read_command, native_stack_unstack_command, same_stack_identity, show_debug_code,
    show_state, stale_generation, stale_topology, unstack_request, validate_add_plan,
    validate_create_plan, validate_topology_allowing_stale_tail_base, validate_unstack_plan,
    GitHubStackAddPlan,
    GitHubStackAddPlanView, GitHubStackCreatePlan, GitHubStackCreatePlanView,
    GitHubStackEntryGeneration, GitHubStackEntryGenerationView, GitHubStackGeneration,
    GitHubStackGenerationView, GitHubStackInventory, GitHubStackInventoryView,
    GitHubStackMutationDisposition, GitHubStackMutationError, GitHubStackMutationErrorView,
    GitHubStackMutationOperation, GitHubStackMutationReceipt, GitHubStackMutationReceiptView,
    GitHubStackPullRequest, GitHubStackPullRequestView, GitHubStackReadError,
    GitHubStackReadErrorView, GitHubStackRequestIdentity, GitHubStackRequestIdentityView,
    GitHubStackSnapshot, GitHubStackSnapshotView, GitHubStackTopology, GitHubStackTopologyView,
    GitHubStackUnstackPlan, GitHubStackUnstackPlanView, STACK_LIMIT, STACK_SCHEMA_VERSION,
};
use crate::json;
use crate::json::{parse, Decode};
use crate::model;
use crate::model::{
    push_item, BranchSnapshot, BranchSnapshotView, CommitOid, Model, PrNumber, PullRequestSnapshot,
    PullRequestSnapshotView, PullRequestState, RepositoryId, RepositoryIdView,
};
use crate::text;
use crate::text::{
    decimal_text, diagnostic_excerpt, eq_ignore_case, join, lines, split_once, text_contains, trim,
};

verus! {

// ---------------------------------------------------------------------------
// Inventory
// ---------------------------------------------------------------------------

/// The inventory in a reply.
pub open spec fn inventory_of(reply: Reply) -> Result<
    GitHubStackInventoryView,
    GitHubStackReadErrorView,
> {
    match reply {
        Err(error) => Err(GitHubStackReadErrorView::Runner(error)),
        Ok(output) => if !output.succeeded() {
            if text::holds_text(output.stderr, "HTTP 404"@) {
                Err(
                    GitHubStackReadErrorView::Unavailable {
                        diagnostic: text::trimmed(output.stderr),
                    },
                )
            } else {
                Err(
                    GitHubStackReadErrorView::CommandFailed {
                        code: output.code,
                        stderr: text::trimmed(output.stderr),
                    },
                )
            }
        } else {
            match json::json_read(output.stdout) {
                Err(message) => Err(GitHubStackReadErrorView::InvalidJson { message }),
                Ok(tree) => match <Vec<GitHubStackSnapshot> as Decode>::decoded(tree) {
                    Some(stacks) => Ok(
                        GitHubStackInventoryView {
                            stacks,
                            truncated: stacks.len() >= STACK_LIMIT,
                        },
                    ),
                    None => Err(
                        GitHubStackReadErrorView::InvalidJson {
                            message: "unexpected JSON shape"@,
                        },
                    ),
                },
            }
        },
    }
}

/// The content of an inventory read.
pub open spec fn inventory_view(
    read: Result<GitHubStackInventory, GitHubStackReadError>,
) -> Result<GitHubStackInventoryView, GitHubStackReadErrorView> {
    match read {
        Ok(inventory) => Ok(inventory.deep_view()),
        Err(error) => Err(error.deep_view()),
    }
}

/// The inventory in a reply. Where the resource is not found, the repository
/// has no Stacks at all, which is not an empty inventory.
pub fn judge_inventory(reply: Result<CommandOutput, CommandRunError>) -> (r: Result<
    GitHubStackInventory,
    GitHubStackReadError,
>)
    ensures
        inventory_view(r) == inventory_of(command::reply_view(reply)),
{
    match reply {
        Err(error) => Err(GitHubStackReadError::Runner(error)),
        Ok(output) => if !output.is_success() {
            let stderr = trim(output.stderr.as_str());
            if text_contains(output.stderr.as_str(), "HTTP 404") {
                Err(GitHubStackReadError::Unavailable { diagnostic: stderr })
            } else {
                Err(GitHubStackReadError::CommandFailed { code: output.code, stderr })
            }
        } else {
            match parse(output.stdout.as_str()) {
                Err(message) => Err(GitHubStackReadError::InvalidJson { message }),
                Ok(value) => match <Vec<GitHubStackSnapshot> as Decode>::decode(&value) {
                    Some(stacks) => {
                        let truncated = stacks.len() >= STACK_LIMIT;
                        Ok(GitHubStackInventory { stacks, truncated })
                    },
                    None => Err(
                        GitHubStackReadError::InvalidJson {
                            message: "unexpected JSON shape".to_owned(),
                        },
                    ),
                },
            }
        },
    }
}

/// Reading the inventory may end so.
pub open spec fn inventory_read<R: CommandRunner>(
    runner: R,
    repository: RepositoryIdView,
    outcome: Result<GitHubStackInventoryView, GitHubStackReadErrorView>,
) -> bool {
    exists|reply: Reply| #[trigger]
        command::ran(runner, stack::stack_list(repository), reply) && outcome == inventory_of(reply)
}

/// A failed inventory read as a refusal.
pub open spec fn read_refusal(error: GitHubStackReadErrorView) -> GitHubStackMutationErrorView {
    match error {
        GitHubStackReadErrorView::Unavailable { diagnostic } =>
            GitHubStackMutationErrorView::Unavailable { diagnostic },
        _ => GitHubStackMutationErrorView::CapabilityUnknown { diagnostic: error.message() },
    }
}

/// A failed inventory read as a refusal.
pub fn stack_read_error(error: GitHubStackReadError) -> (r: GitHubStackMutationError)
    ensures
        r.deep_view() == read_refusal(error.deep_view()),
{
    let diagnostic = error.to_text();
    match error {
        GitHubStackReadError::Unavailable { diagnostic } => GitHubStackMutationError::Unavailable {
            diagnostic,
        },
        _ => GitHubStackMutationError::CapabilityUnknown { diagnostic },
    }
}

/// An inventory from which absence can be proved.
pub open spec fn whole_inventory(
    read: Result<GitHubStackInventoryView, GitHubStackReadErrorView>,
) -> Result<GitHubStackInventoryView, GitHubStackMutationErrorView> {
    match read {
        Err(error) => Err(read_refusal(error)),
        Ok(inventory) => if inventory.truncated {
            Err(GitHubStackMutationErrorView::InventoryTruncated)
        } else {
            Ok(inventory)
        },
    }
}

/// Reading an inventory from which absence can be proved may end so.
pub open spec fn whole_inventory_read<R: CommandRunner>(
    runner: R,
    repository: RepositoryIdView,
    outcome: Result<GitHubStackInventoryView, GitHubStackMutationErrorView>,
) -> bool {
    exists|read: Result<GitHubStackInventoryView, GitHubStackReadErrorView>| #[trigger]
        inventory_read(runner, repository, read) && outcome == whole_inventory(read)
}

// ---------------------------------------------------------------------------
// One Stack
// ---------------------------------------------------------------------------

/// What a read of one Stack says, unless the Stack was not found: then an
/// inventory must tell absence from a missing feature.
pub open spec fn direct_read(reply: Reply) -> Option<
    Result<GitHubStackSnapshotView, GitHubStackMutationErrorView>,
> {
    match reply {
        Err(error) => Some(
            Err(
                GitHubStackMutationErrorView::CapabilityUnknown { diagnostic: error.message() },
            ),
        ),
        Ok(output) => if output.succeeded() {
            match json::json_read(output.stdout) {
                Err(message) => Some(
                    Err(
                        GitHubStackMutationErrorView::CapabilityUnknown {
                            diagnostic: "invalid Stack JSON: "@ + message,
                        },
                    ),
                ),
                Ok(tree) => match GitHubStackSnapshot::decoded(tree) {
                    Some(stack) => Some(Ok(stack)),
                    None => Some(
                        Err(
                            GitHubStackMutationErrorView::CapabilityUnknown {
                                diagnostic: "invalid Stack JSON: "@ + "unexpected JSON shape"@,
                            },
                        ),
                    ),
                },
            }
        } else if !text::holds_text(output.stderr, "HTTP 404"@) {
            Some(
                Err(
                    GitHubStackMutationErrorView::CapabilityUnknown {
                        diagnostic: "Stack read exited "@ + stack::debug_code(output.code) + ": "@
                            + text::trimmed(output.stderr),
                    },
                ),
            )
        } else {
            None
        },
    }
}

/// The content of what a read of one Stack says.
pub open spec fn direct_view(
    said: Option<Result<GitHubStackSnapshot, GitHubStackMutationError>>,
) -> Option<Result<GitHubStackSnapshotView, GitHubStackMutationErrorView>> {
    match said {
        Some(outcome) => Some(stack::stack_view(outcome)),
        None => None,
    }
}

/// What a read of one Stack says.
pub fn judge_direct_read(reply: Result<CommandOutput, CommandRunError>) -> (r: Option<
    Result<GitHubStackSnapshot, GitHubStackMutationError>,
>)
    ensures
        direct_view(r) == direct_read(command::reply_view(reply)),
{
    match reply {
        Err(error) => Some(
            Err(
                GitHubStackMutationError::CapabilityUnknown { diagnostic: error.to_text() },
            ),
        ),
        Ok(output) => if output.is_success() {
            let message = match parse(output.stdout.as_str()) {
                Err(message) => message,
                Ok(value) => match GitHubStackSnapshot::decode(&value) {
                    Some(stack) => {
                        return Some(Ok(stack));
                    },
                    None => "unexpected JSON shape".to_owned(),
                },
            };
            Some(
                Err(
                    GitHubStackMutationError::CapabilityUnknown {
                        diagnostic: "invalid Stack JSON: ".to_owned().concat(message.as_str()),
                    },
                ),
            )
        } else if !text_contains(output.stderr.as_str(), "HTTP 404") {
            Some(
                Err(
                    GitHubStackMutationError::CapabilityUnknown {
                        diagnostic: "Stack read exited ".to_owned().concat(
                            show_debug_code(&output.code).as_str(),
                        ).concat(": ").concat(trim(output.stderr.as_str()).as_str()),
                    },
                ),
            )
        } else {
            None
        },
    }
}

/// Whether an inventory lists a Stack.
pub open spec fn inventoried(stacks: Seq<GitHubStackSnapshotView>, number: u64) -> bool {
    exists|i: int| 0 <= i < stacks.len() && (#[trigger] stacks[i]).number == number
}

/// What an inventory says of a Stack that was not found.
pub open spec fn absence(
    number: u64,
    read: Result<GitHubStackInventoryView, GitHubStackReadErrorView>,
) -> Result<Option<GitHubStackSnapshotView>, GitHubStackMutationErrorView> {
    match read {
        Err(error) => Err(read_refusal(error)),
        Ok(inventory) => if inventoried(inventory.stacks, number) {
            Err(
                GitHubStackMutationErrorView::InconsistentProviderState {
                    diagnostic: "Stack #"@ + text::decimal(number as nat)
                        + " returned 404 but remains present in inventory"@,
                },
            )
        } else {
            Ok(None)
        },
    }
}

/// What an inventory says of a Stack that was not found.
pub fn judge_absence(
    number: u64,
    read: Result<GitHubStackInventory, GitHubStackReadError>,
) -> (r: Result<Option<GitHubStackSnapshot>, GitHubStackMutationError>)
    ensures
        stack::stack_view(r) == absence(number, inventory_view(read)),
{
    match read {
        Err(error) => Err(stack_read_error(error)),
        Ok(inventory) => {
            let stacks = &inventory.stacks;
            let ghost all = stacks.deep_view();
            let mut found: bool = false;
            let mut i: usize = 0;
            while i < stacks.len()
                invariant
                    all == stacks.deep_view(),
                    i <= stacks.len(),
                    found == inventoried(all.take(i as int), number),
                decreases stacks.len() - i,
            {
                let ghost seen = all.take(i as int);
                let ghost next = all.take(i as int + 1);
                assert(all[i as int] == stacks[i as int].deep_view());
                if stacks[i].number == number {
                    found = true;
                    assert(next[i as int].number == number);
                } else {
                    assert(inventoried(next, number) == inventoried(seen, number)) by {
                        if inventoried(next, number) {
                            let k = choose|k: int|
                                0 <= k < next.len() && (#[trigger] next[k]).number == number;
                            assert(seen[k].number == number);
                        }
                        if inventoried(seen, number) {
                            let k = choose|k: int|
                                0 <= k < seen.len() && (#[trigger] seen[k]).number == number;
                            assert(next[k].number == number);
                        }
                    }
                }
                i = i + 1;
            }
            assert(all.take(i as int) =~= all);
            if found {
                Err(
                    GitHubStackMutationError::InconsistentProviderState {
                        diagnostic: "Stack #".to_owned().concat(
                            decimal_text(number).as_str(),
                        ).concat(" returned 404 but remains present in inventory"),
                    },
                )
            } else {
                Ok(None)
            }
        },
    }
}

/// Reading one Stack may end so.
pub open spec fn snapshot_read<R: CommandRunner>(
    runner: R,
    repository: RepositoryIdView,
    number: u64,
    outcome: Result<Option<GitHubStackSnapshotView>, GitHubStackMutationErrorView>,
) -> bool {
    exists|reply: Reply| #[trigger]
        command::ran(runner, stack::stack_read(repository, number), reply) && match direct_read(
            reply,
        ) {
            Some(Ok(stack)) => outcome == Ok::<_, GitHubStackMutationErrorView>(Some(stack)),
            Some(Err(error)) => outcome == Err::<Option<GitHubStackSnapshotView>, _>(error),
            None => absence_read(runner, repository, number, outcome),
        }
}

/// Telling absence from a missing feature may end so.
pub open spec fn absence_read<R: CommandRunner>(
    runner: R,
    repository: RepositoryIdView,
    number: u64,
    outcome: Result<Option<GitHubStackSnapshotView>, GitHubStackMutationErrorView>,
) -> bool {
    exists|read: Result<GitHubStackInventoryView, GitHubStackReadErrorView>| #[trigger]
        inventory_read(runner, repository, read) && outcome == absence(number, read)
}

// ---------------------------------------------------------------------------
// Generations
// ---------------------------------------------------------------------------

/// The state of a Stack entry as a state of a pull request, where it is one.
pub open spec fn normalized_state(row: GitHubStackPullRequestView) -> Option<PullRequestState> {
    if row.merged_at is Some || text::same_ignoring_case(row.state, "merged"@) {
        Some(PullRequestState::Merged)
    } else if text::same_ignoring_case(row.state, "open"@) {
        Some(PullRequestState::Open)
    } else if text::same_ignoring_case(row.state, "closed"@) {
        Some(PullRequestState::Closed)
    } else {
        None
    }
}

/// The state of a Stack entry as a state of a pull request.
pub fn normalized_stack_pr_state(row: &GitHubStackPullRequest) -> (r: Option<PullRequestState>)
    ensures
        r == normalized_state(row.deep_view()),
{
    if row.merged_at.is_some() || eq_ignore_case(row.state.as_str(), "merged") {
        Some(PullRequestState::Merged)
    } else if eq_ignore_case(row.state.as_str(), "open") {
        Some(PullRequestState::Open)
    } else if eq_ignore_case(row.state.as_str(), "closed") {
        Some(PullRequestState::Closed)
    } else {
        None
    }
}

/// The entry of a fresh pull request at a position.
pub open spec fn entry_of(
    position: nat,
    stack_state: Seq<char>,
    pr: PullRequestSnapshotView,
) -> Result<GitHubStackEntryGenerationView, GitHubStackMutationErrorView> {
    if position > u32::MAX {
        Err(stack::refused("github_stack_too_large"@, "Stack position exceeds u32"@))
    } else {
        Ok(
            GitHubStackEntryGenerationView {
                position: position as u32,
                pr: pr.number,
                stack_state,
                pull_request_state: pr.state,
                draft: pr.draft,
                merged_at: pr.merged_at,
                base: pr.base,
                head: pr.head,
            },
        )
    }
}

/// The entry of a fresh pull request at a position.
pub fn entry_from_pr(position: usize, stack_state: &str, pr: PullRequestSnapshot) -> (r: Result<
    GitHubStackEntryGeneration,
    GitHubStackMutationError,
>)
    ensures
        stack::stack_view(r) == entry_of(position as nat, stack_state@, pr.deep_view()),
{
    if position as u64 > u32::MAX as u64 {
        return Err(
            GitHubStackMutationError::InvalidPlan {
                code: "github_stack_too_large".to_owned(),
                message: "Stack position exceeds u32".to_owned(),
            },
        );
    }
    Ok(
        GitHubStackEntryGeneration {
            position: position as u32,
            pr: pr.number,
            stack_state: stack_state.to_owned(),
            pull_request_state: pr.state,
            draft: pr.draft,
            merged_at: pr.merged_at,
            base: pr.base,
            head: pr.head,
        },
    )
}

/// The start of a message on an entry.
pub open spec fn entry_label(number: u64, pr: u64) -> Seq<char> {
    "Stack #"@ + text::decimal(number as nat) + " entry PR #"@ + text::decimal(pr as nat)
}

/// The entry of a Stack row and its fresh pull request, if they agree.
pub open spec fn agreed_entry(
    number: u64,
    row: GitHubStackPullRequestView,
    position: nat,
    pr: PullRequestSnapshotView,
) -> Result<GitHubStackEntryGenerationView, GitHubStackMutationErrorView> {
    if pr.head.name != row.head.ref_name || pr.head.oid != row.head.sha {
        Err(
            GitHubStackMutationErrorView::InconsistentProviderState {
                diagnostic: entry_label(number, row.number) + " head "@ + row.head.ref_name + "@"@
                    + row.head.sha + " disagrees with fresh PR head "@ + pr.head.name + "@"@
                    + pr.head.oid,
            },
        )
    } else if pr.draft != row.draft || pr.merged_at != row.merged_at {
        Err(
            GitHubStackMutationErrorView::InconsistentProviderState {
                diagnostic: entry_label(number, row.number)
                    + " draft/merged state disagrees with fresh PR truth"@,
            },
        )
    } else if normalized_state(row) is Some && normalized_state(row)->0 != pr.state {
        Err(
            GitHubStackMutationErrorView::InconsistentProviderState {
                diagnostic: entry_label(number, row.number) + " state `"@ + row.state
                    + "` disagrees with fresh PR state "@ + stack::state_name(pr.state),
            },
        )
    } else {
        entry_of(position, row.state, pr)
    }
}

fn show_entry(number: u64, pr: u64) -> (r: String)
    ensures
        r@ == entry_label(number, pr),
{
    "Stack #".to_owned().concat(decimal_text(number).as_str()).concat(" entry PR #").concat(
        decimal_text(pr).as_str(),
    )
}

/// The entry of a Stack row and its fresh pull request, if they agree.
pub fn agree_entry(
    number: u64,
    row: &GitHubStackPullRequest,
    position: usize,
    pr: PullRequestSnapshot,
) -> (r: Result<GitHubStackEntryGeneration, GitHubStackMutationError>)
    ensures
        stack::stack_view(r) == agreed_entry(
            number,
            row.deep_view(),
            position as nat,
            pr.deep_view(),
        ),
{
    if !pr.head.name.same(&row.head.ref_name) || !pr.head.oid.0.same(&row.head.sha) {
        return Err(
            GitHubStackMutationError::InconsistentProviderState {
                diagnostic: show_entry(number, row.number).concat(" head ").concat(
                    row.head.ref_name.as_str(),
                ).concat("@").concat(row.head.sha.as_str()).concat(
                    " disagrees with fresh PR head ",
                ).concat(pr.head.name.as_str()).concat("@").concat(pr.head.oid.0.as_str()),
            },
        );
    }
    if pr.draft != row.draft || !pr.merged_at.same(&row.merged_at) {
        return Err(
            GitHubStackMutationError::InconsistentProviderState {
                diagnostic: show_entry(number, row.number).concat(
                    " draft/merged state disagrees with fresh PR truth",
                ),
            },
        );
    }
    match normalized_stack_pr_state(row) {
        Some(state) => {
            if !state.same(&pr.state) {
                return Err(
                    GitHubStackMutationError::InconsistentProviderState {
                        diagnostic: show_entry(number, row.number).concat(" state `").concat(
                            row.state.as_str(),
                        ).concat("` disagrees with fresh PR state ").concat(
                            show_state(pr.state).as_str(),
                        ),
                    },
                );
            }
        },
        None => {},
    }
    entry_from_pr(position, row.state.as_str(), pr)
}

/// The branch of a fresh reference.
pub open spec fn fresh_base(
    repository: RepositoryIdView,
    name: Seq<char>,
    reference: GitRefJsonView,
) -> BranchSnapshotView {
    BranchSnapshotView { repository, name, oid: reference.object.sha }
}

/// The pull requests of the rows of a Stack.
pub open spec fn row_prs(rows: Seq<GitHubStackPullRequestView>) -> Seq<PrNumber> {
    Seq::new(rows.len(), |i: int| PrNumber(rows[i].number))
}

/// The entries of the rows of a Stack, from fresh reads of their pull
/// requests, up to the first that fails or does not agree.
pub open spec fn agreed_entries(
    number: u64,
    rows: Seq<GitHubStackPullRequestView>,
    reads: Seq<Result<PullRequestSnapshotView, MutationErrorView>>,
) -> Result<Seq<GitHubStackEntryGenerationView>, GitHubStackMutationErrorView>
    decreases reads.len(),
{
    if reads.len() == 0 {
        Ok(Seq::empty())
    } else {
        match agreed_entries(number, rows, reads.drop_last()) {
            Err(error) => Err(error),
            Ok(below) => match reads.last() {
                Err(error) => Err(GitHubStackMutationErrorView::Provider(error)),
                Ok(pr) => match agreed_entry(number, rows[reads.len() - 1], below.len(), pr) {
                    Err(error) => Err(error),
                    Ok(entry) => Ok(below.push(entry)),
                },
            },
        }
    }
}

/// Reading the entries of a Stack may end so. It succeeds only if every entry
/// was read.
pub open spec fn entries_observed<R: CommandRunner>(
    runner: R,
    repository: RepositoryIdView,
    number: u64,
    rows: Seq<GitHubStackPullRequestView>,
    outcome: Result<Seq<GitHubStackEntryGenerationView>, GitHubStackMutationErrorView>,
) -> bool {
    exists|reads: Seq<Result<PullRequestSnapshotView, MutationErrorView>>| #[trigger]
        adapter::refetched_each(runner, repository, row_prs(rows), reads) && outcome
            == agreed_entries(number, rows, reads) && (outcome is Ok ==> reads.len() == rows.len())
}

/// The generation of a Stack and its observed entries, if they are valid.
pub open spec fn generation_of(
    repository: RepositoryIdView,
    stack: GitHubStackSnapshotView,
    base: BranchSnapshotView,
    entries: Seq<GitHubStackEntryGenerationView>,
    allowed: Option<PrNumber>,
) -> Result<GitHubStackGenerationView, GitHubStackMutationErrorView> {
    let topology = GitHubStackTopologyView { base, entries };
    match stack::topology_refusal(repository, stack::settled(topology, allowed), 1) {
        Some(error) => Err(error),
        None => Ok(
            GitHubStackGenerationView {
                id: stack.id,
                number: stack.number,
                node_id: stack.node_id,
                open: stack.open,
                created_at: stack.created_at,
                topology,
            },
        ),
    }
}

/// Observing a Stack may end so.
pub open spec fn observed<R: CommandRunner>(
    runner: R,
    repository: RepositoryIdView,
    stack: GitHubStackSnapshotView,
    allowed: Option<PrNumber>,
    outcome: Result<GitHubStackGenerationView, GitHubStackMutationErrorView>,
) -> bool {
    exists|read: Result<GitRefJsonView, MutationErrorView>| #[trigger]
        adapter::got::<R, GitRefJson>(
            runner,
            stack::stack_base_ref(repository, stack.base.ref_name),
            read,
        ) && match read {
            Err(error) => outcome == Err::<GitHubStackGenerationView, _>(
                GitHubStackMutationErrorView::Provider(error),
            ),
            Ok(reference) => observed_on(
                runner,
                repository,
                stack,
                fresh_base(repository, stack.base.ref_name, reference),
                allowed,
                outcome,
            ),
        }
}

/// Observing a Stack on its base may end so.
pub open spec fn observed_on<R: CommandRunner>(
    runner: R,
    repository: RepositoryIdView,
    stack: GitHubStackSnapshotView,
    base: BranchSnapshotView,
    allowed: Option<PrNumber>,
    outcome: Result<GitHubStackGenerationView, GitHubStackMutationErrorView>,
) -> bool {
    exists|
        entries: Result<Seq<GitHubStackEntryGenerationView>, GitHubStackMutationErrorView>,
    | #[trigger]
        entries_observed(runner, repository, stack.number, stack.pull_requests, entries) && outcome
            == match entries {
            Err(error) => Err(error),
            Ok(list) => generation_of(repository, stack, base, list, allowed),
        }
}

/// Reading the generation of a Stack by number may end so.
pub open spec fn generation_read<R: CommandRunner>(
    runner: R,
    repository: RepositoryIdView,
    number: u64,
    outcome: Result<Option<GitHubStackGenerationView>, GitHubStackMutationErrorView>,
) -> bool {
    generation_read_allowing(runner, repository, number, None, outcome)
}

/// Reading the generation of a Stack by number, where its tail may stand on an
/// earlier generation of the branch below it, may end so.
pub open spec fn generation_read_allowing<R: CommandRunner>(
    runner: R,
    repository: RepositoryIdView,
    number: u64,
    allowed: Option<PrNumber>,
    outcome: Result<Option<GitHubStackGenerationView>, GitHubStackMutationErrorView>,
) -> bool {
    exists|read: Result<Option<GitHubStackSnapshotView>, GitHubStackMutationErrorView>| #[trigger]
        snapshot_read(runner, repository, number, read) && match read {
            Err(error) => outcome == Err::<Option<GitHubStackGenerationView>, _>(error),
            Ok(None) => outcome == Ok::<_, GitHubStackMutationErrorView>(
                None::<GitHubStackGenerationView>,
            ),
            Ok(Some(stack)) => observed_some(runner, repository, stack, allowed, outcome),
        }
}

/// Observing a Stack that is there may end so.
pub open spec fn observed_some<R: CommandRunner>(
    runner: R,
    repository: RepositoryIdView,
    stack: GitHubStackSnapshotView,
    allowed: Option<PrNumber>,
    outcome: Result<Option<GitHubStackGenerationView>, GitHubStackMutationErrorView>,
) -> bool {
    exists|seen: Result<GitHubStackGenerationView, GitHubStackMutationErrorView>| #[trigger]
        observed(runner, repository, stack, allowed, seen) && outcome == match seen {
            Err(error) => Err(error),
            Ok(generation) => Ok(Some(generation)),
        }
}

/// Every generation that is read is valid.
pub proof fn lemma_read_generation_is_valid<R: CommandRunner>(
    runner: R,
    repository: RepositoryIdView,
    number: u64,
    generation: GitHubStackGenerationView,
)
    requires
        generation_read(runner, repository, number, Ok(Some(generation))),
    ensures
        stack::topology_refusal(repository, generation.topology, 1) is None,
{
}

// ---------------------------------------------------------------------------
// Fresh topologies
// ---------------------------------------------------------------------------

/// Entries from fresh reads of the pull requests of expected entries, up to
/// the first that fails.
pub open spec fn fresh_entries_of(
    rows: Seq<GitHubStackEntryGenerationView>,
    reads: Seq<Result<PullRequestSnapshotView, MutationErrorView>>,
) -> Result<Seq<GitHubStackEntryGenerationView>, GitHubStackMutationErrorView>
    decreases reads.len(),
{
    if reads.len() == 0 {
        Ok(Seq::empty())
    } else {
        match fresh_entries_of(rows, reads.drop_last()) {
            Err(error) => Err(error),
            Ok(below) => match reads.last() {
                Err(error) => Err(GitHubStackMutationErrorView::Provider(error)),
                Ok(pr) => match entry_of(below.len(), rows[reads.len() - 1].stack_state, pr) {
                    Err(error) => Err(error),
                    Ok(entry) => Ok(below.push(entry)),
                },
            },
        }
    }
}

/// Reading the pull requests of entries may end so. It succeeds only if every
/// one was read.
pub open spec fn entries_fresh<R: CommandRunner>(
    runner: R,
    repository: RepositoryIdView,
    rows: Seq<GitHubStackEntryGenerationView>,
    outcome: Result<Seq<GitHubStackEntryGenerationView>, GitHubStackMutationErrorView>,
) -> bool {
    exists|reads: Seq<Result<PullRequestSnapshotView, MutationErrorView>>| #[trigger]
        adapter::refetched_each(runner, repository, stack::entry_prs(rows), reads) && outcome
            == fresh_entries_of(rows, reads) && (outcome is Ok ==> reads.len() == rows.len())
}

/// Whether a topology is still what it was expected to be.
pub open spec fn still(
    expected: GitHubStackTopologyView,
    actual: GitHubStackTopologyView,
) -> Result<(), GitHubStackMutationErrorView> {
    if actual == expected {
        Ok(())
    } else {
        Err(
            GitHubStackMutationErrorView::StaleGeneration {
                expected,
                actual: None,
                changed_fields: stack::changed_topology(expected, actual),
            },
        )
    }
}

/// Confirming a topology may end so.
pub open spec fn topology_fresh<R: CommandRunner>(
    runner: R,
    repository: RepositoryIdView,
    expected: GitHubStackTopologyView,
    outcome: Result<(), GitHubStackMutationErrorView>,
) -> bool {
    exists|read: Result<GitRefJsonView, MutationErrorView>| #[trigger]
        adapter::got::<R, GitRefJson>(
            runner,
            stack::stack_base_ref(repository, expected.base.name),
            read,
        ) && match read {
            Err(error) => outcome == Err::<(), _>(GitHubStackMutationErrorView::Provider(error)),
            Ok(reference) => topology_fresh_on(
                runner,
                repository,
                expected,
                fresh_base(repository, expected.base.name, reference),
                outcome,
            ),
        }
}

/// Confirming a topology on its base may end so.
pub open spec fn topology_fresh_on<R: CommandRunner>(
    runner: R,
    repository: RepositoryIdView,
    expected: GitHubStackTopologyView,
    base: BranchSnapshotView,
    outcome: Result<(), GitHubStackMutationErrorView>,
) -> bool {
    exists|
        entries: Result<Seq<GitHubStackEntryGenerationView>, GitHubStackMutationErrorView>,
    | #[trigger]
        entries_fresh(runner, repository, expected.entries, entries) && outcome == match entries {
            Err(error) => Err(error),
            Ok(list) => still(expected, GitHubStackTopologyView { base, entries: list }),
        }
}

// ---------------------------------------------------------------------------
// Finding a Stack
// ---------------------------------------------------------------------------

/// Whether a Stack holds a pull request of entries.
pub open spec fn touches(
    stack: GitHubStackSnapshotView,
    entries: Seq<GitHubStackEntryGenerationView>,
) -> bool {
    exists|i: int|
        0 <= i < stack.pull_requests.len() && stack::listed(
            entries,
            PrNumber((#[trigger] stack.pull_requests[i]).number),
        )
}

/// The Stacks that hold pull requests of entries.
pub open spec fn touching(
    stacks: Seq<GitHubStackSnapshotView>,
    entries: Seq<GitHubStackEntryGenerationView>,
) -> Seq<GitHubStackSnapshotView>
    decreases stacks.len(),
{
    if stacks.len() == 0 {
        Seq::empty()
    } else if touches(stacks.last(), entries) {
        touching(stacks.drop_last(), entries).push(stacks.last())
    } else {
        touching(stacks.drop_last(), entries)
    }
}

/// The numbers of Stacks as texts.
pub open spec fn stack_numbers(stacks: Seq<GitHubStackSnapshotView>) -> Seq<Seq<char>> {
    Seq::new(stacks.len(), |i: int| text::decimal(stacks[i].number as nat))
}

/// The one Stack that holds pull requests of a topology, if any does.
pub open spec fn only_touching(
    stacks: Seq<GitHubStackSnapshotView>,
    desired: GitHubStackTopologyView,
) -> Result<Option<GitHubStackSnapshotView>, GitHubStackMutationErrorView> {
    let found = touching(stacks, desired.entries);
    if found.len() > 1 {
        Err(
            GitHubStackMutationErrorView::InconsistentProviderState {
                diagnostic: "desired PRs intersect multiple provider Stacks: "@ + text::joined(
                    stack_numbers(found),
                    ", "@,
                ),
            },
        )
    } else if found.len() == 1 {
        Ok(Some(found[0]))
    } else {
        Ok(None)
    }
}

fn lists_pr(entries: &Vec<GitHubStackEntryGeneration>, pr: PrNumber) -> (r: bool)
    ensures
        r == stack::listed(entries.deep_view(), pr),
{
    let ghost all = entries.deep_view();
    let mut i: usize = 0;
    while i < entries.len()
        invariant
            all == entries.deep_view(),
            i <= entries.len(),
            forall|j: int| 0 <= j < i ==> (#[trigger] all[j]).pr != pr,
        decreases entries.len() - i,
    {
        assert(all[i as int] == entries[i as int].deep_view());
        if entries[i].pr.same(&pr) {
            return true;
        }
        i = i + 1;
    }
    false
}

fn stack_touches(stack: &GitHubStackSnapshot, entries: &Vec<GitHubStackEntryGeneration>) -> (r:
    bool)
    ensures
        r == touches(stack.deep_view(), entries.deep_view()),
{
    let rows = &stack.pull_requests;
    let ghost all = rows.deep_view();
    let mut i: usize = 0;
    while i < rows.len()
        invariant
            all == rows.deep_view(),
            all == stack.deep_view().pull_requests,
            i <= rows.len(),
            forall|j: int|
                0 <= j < i ==> !stack::listed(
                    entries.deep_view(),
                    PrNumber((#[trigger] all[j]).number),
                ),
        decreases rows.len() - i,
    {
        assert(all[i as int] == rows[i as int].deep_view());
        if lists_pr(entries, PrNumber(rows[i].number)) {
            return true;
        }
        i = i + 1;
    }
    false
}

fn numbers_of(stacks: &Vec<GitHubStackSnapshot>) -> (r: Vec<String>)
    ensures
        r.deep_view() == stack_numbers(stacks.deep_view()),
{
    let ghost all = stacks.deep_view();
    let mut out: Vec<String> = Vec::new();
    let mut i: usize = 0;
    while i < stacks.len()
        invariant
            all == stacks.deep_view(),
            i <= stacks.len(),
            out.deep_view() == stack_numbers(all).take(i as int),
        decreases stacks.len() - i,
    {
        assert(all[i as int] == stacks[i as int].deep_view());
        push_item(&mut out, decimal_text(stacks[i].number));
        i = i + 1;
        assert(out.deep_view() =~= stack_numbers(all).take(i as int));
    }
    assert(out.deep_view() =~= stack_numbers(all));
    out
}

/// The Stacks that hold pull requests of entries.
pub fn touching_stacks(
    stacks: &Vec<GitHubStackSnapshot>,
    entries: &Vec<GitHubStackEntryGeneration>,
) -> (r: Vec<GitHubStackSnapshot>)
    ensures
        r.deep_view() == touching(stacks.deep_view(), entries.deep_view()),
{
    let ghost all = stacks.deep_view();
    let ghost wanted = entries.deep_view();
    let mut found: Vec<GitHubStackSnapshot> = Vec::new();
    let mut i: usize = 0;
    assert(found.deep_view() =~= touching(all.take(0), wanted));
    while i < stacks.len()
        invariant
            all == stacks.deep_view(),
            wanted == entries.deep_view(),
            i <= stacks.len(),
            found.deep_view() == touching(all.take(i as int), wanted),
        decreases stacks.len() - i,
    {
        assert(all.take(i as int + 1).drop_last() =~= all.take(i as int));
        assert(all[i as int] == stacks[i as int].deep_view());
        if stack_touches(&stacks[i], entries) {
            push_item(&mut found, stacks[i].dup());
        }
        i = i + 1;
    }
    assert(all.take(i as int) =~= all);
    found
}

/// The one Stack that holds pull requests of a topology, if any does.
pub fn find_touching(
    stacks: &Vec<GitHubStackSnapshot>,
    desired: &GitHubStackTopology,
) -> (r: Result<
    Option<GitHubStackSnapshot>,
    GitHubStackMutationError,
>)
    ensures
        stack::stack_view(r) == only_touching(stacks.deep_view(), desired.deep_view()),
{
    let found = touching_stacks(stacks, &desired.entries);
    if found.len() > 1 {
        Err(
            GitHubStackMutationError::InconsistentProviderState {
                diagnostic: "desired PRs intersect multiple provider Stacks: ".to_owned().concat(
                    join(&numbers_of(&found), ", ").as_str(),
                ),
            },
        )
    } else if found.len() == 1 {
        assert(found.deep_view()[0] == found[0].deep_view());
        Ok(Some(found[0].dup()))
    } else {
        Ok(None)
    }
}

/// Finding the generation of a topology in an inventory may end so.
pub open spec fn intersecting<R: CommandRunner>(
    runner: R,
    repository: RepositoryIdView,
    inventory: GitHubStackInventoryView,
    desired: GitHubStackTopologyView,
    outcome: Result<Option<GitHubStackGenerationView>, GitHubStackMutationErrorView>,
) -> bool {
    match only_touching(inventory.stacks, desired) {
        Err(error) => outcome == Err::<Option<GitHubStackGenerationView>, _>(error),
        Ok(None) => outcome == Ok::<_, GitHubStackMutationErrorView>(
            None::<GitHubStackGenerationView>,
        ),
        Ok(Some(stack)) => observed_some(runner, repository, stack, None, outcome),
    }
}

/// Finding the generation of a topology afresh may end so.
pub open spec fn rediscovered<R: CommandRunner>(
    runner: R,
    repository: RepositoryIdView,
    desired: GitHubStackTopologyView,
    outcome: Result<Option<GitHubStackGenerationView>, GitHubStackMutationErrorView>,
) -> bool {
    exists|read: Result<GitHubStackInventoryView, GitHubStackMutationErrorView>| #[trigger]
        whole_inventory_read(runner, repository, read) && match read {
            Err(error) => outcome == Err::<Option<GitHubStackGenerationView>, _>(error),
            Ok(inventory) => intersecting(runner, repository, inventory, desired, outcome),
        }
}

// ---------------------------------------------------------------------------
// Outcomes of a change
// ---------------------------------------------------------------------------

/// What a response says, for a message.
pub open spec fn response_diagnostic(reply: Reply) -> Seq<char> {
    match reply {
        Ok(output) => "provider exited "@ + stack::debug_code(output.code) + ": "@ + (
        if text::is_blank(output.stderr) {
            "no diagnostic"@
        } else {
            text::trimmed(output.stderr)
        }),
        Err(error) => error.message(),
    }
}

/// What a response says, for a message.
pub fn mutation_response_diagnostic(reply: &Result<CommandOutput, CommandRunError>) -> (r: String)
    ensures
        r@ == response_diagnostic(command::reply_view(*reply)),
{
    match reply {
        Ok(output) => {
            let stderr = trim(output.stderr.as_str());
            let said = if stderr.as_str().is_empty() {
                "no diagnostic".to_owned()
            } else {
                stderr
            };
            "provider exited ".to_owned().concat(show_debug_code(&output.code).as_str()).concat(
                ": ",
            ).concat(said.as_str())
        },
        Err(error) => error.to_text(),
    }
}

/// The output of a response, at bounded size.
pub open spec fn bounded_output(output: CommandOutputView) -> Option<Seq<char>> {
    let value = text::trimmed(output.stdout);
    if value.len() == 0 {
        None
    } else {
        Some(text::excerpt(value))
    }
}

/// The output of a response, at bounded size.
pub fn bounded_provider_output(output: &CommandOutput) -> (r: Option<String>)
    ensures
        r.deep_view() == bounded_output(output.deep_view()),
{
    let value = trim(output.stdout.as_str());
    if value.as_str().is_empty() {
        None
    } else {
        Some(diagnostic_excerpt(value.as_str()))
    }
}

/// The request identifier in a header line.
pub open spec fn request_id_in(line: Seq<char>) -> Option<Seq<char>> {
    match text::split_first(line, ":"@) {
        Some((name, value)) => if text::same_ignoring_case(
            text::trimmed(name),
            "x-github-request-id"@,
        ) {
            Some(text::trimmed(value))
        } else {
            None
        },
        None => None,
    }
}

/// The request identifier in the first header line that has one.
pub open spec fn first_request_id(rows: Seq<Seq<char>>) -> Option<Seq<char>>
    decreases rows.len(),
{
    if rows.len() == 0 {
        None
    } else {
        match first_request_id(rows.drop_last()) {
            Some(id) => Some(id),
            None => request_id_in(rows.last()),
        }
    }
}

/// The request identifier of a response.
pub open spec fn request_id(output: CommandOutputView) -> Option<Seq<char>> {
    first_request_id(text::lines_of(output.stdout) + text::lines_of(output.stderr))
}

fn id_in_line(line: &str) -> (r: Option<String>)
    ensures
        r.deep_view() == request_id_in(line@),
{
    match split_once(line, ":") {
        Some((name, value)) => if eq_ignore_case(
            trim(name.as_str()).as_str(),
            "x-github-request-id",
        ) {
            Some(trim(value.as_str()))
        } else {
            None
        },
        None => None,
    }
}

/// The request identifier of a response.
pub fn github_request_id(output: &CommandOutput) -> (r: Option<String>)
    ensures
        r.deep_view() == request_id(output.deep_view()),
{
    let mut rows = lines(output.stdout.as_str());
    let mut more = lines(output.stderr.as_str());
    let ghost all = rows.deep_view() + more.deep_view();
    rows.append(&mut more);
    assert(rows.deep_view() =~= all);
    let mut found: Option<String> = None;
    let mut i: usize = 0;
    while i < rows.len()
        invariant
            all == rows.deep_view(),
            i <= rows.len(),
            found.deep_view() == first_request_id(all.take(i as int)),
        decreases rows.len() - i,
    {
        assert(all.take(i as int + 1).drop_last() =~= all.take(i as int));
        assert(all[i as int] == rows[i as int]@);
        if found.is_none() {
            found = id_in_line(rows[i].as_str());
        }
        i = i + 1;
    }
    assert(all.take(i as int) =~= all);
    found
}

/// The refusal where a response does not tell whether a change was made.
pub open spec fn ambiguous(
    operation: GitHubStackMutationOperation,
    diagnostic: Seq<char>,
    seen: Result<Option<GitHubStackGenerationView>, GitHubStackMutationErrorView>,
) -> GitHubStackMutationErrorView {
    match seen {
        Ok(observed) => GitHubStackMutationErrorView::AmbiguousResponse {
            operation,
            diagnostic,
            rediscovery_diagnostic: None,
            observed,
        },
        Err(error) => GitHubStackMutationErrorView::AmbiguousResponse {
            operation,
            diagnostic,
            rediscovery_diagnostic: Some(error.message()),
            observed: None,
        },
    }
}

/// The refusal where a response does not tell whether a change was made.
pub fn ambiguous_error(
    operation: GitHubStackMutationOperation,
    diagnostic: String,
    seen: Result<Option<GitHubStackGeneration>, GitHubStackMutationError>,
) -> (r: GitHubStackMutationError)
    ensures
        r.deep_view() == ambiguous(operation, diagnostic@, stack::stack_view(seen)),
{
    match seen {
        Ok(observed) => GitHubStackMutationError::AmbiguousResponse {
            operation,
            diagnostic,
            rediscovery_diagnostic: None,
            observed: match observed {
                Some(generation) => Some(Box::new(generation)),
                None => None,
            },
        },
        Err(error) => GitHubStackMutationError::AmbiguousResponse {
            operation,
            diagnostic,
            rediscovery_diagnostic: Some(error.to_text()),
            observed: None,
        },
    }
}

/// A receipt, sealed.
pub open spec fn receipt_of(
    repository: RepositoryIdView,
    operation_id: Seq<char>,
    actor: Seq<char>,
    operation: GitHubStackMutationOperation,
    disposition: GitHubStackMutationDisposition,
    request: GitHubStackRequestIdentityView,
    before: Option<GitHubStackGenerationView>,
    after: Option<GitHubStackGenerationView>,
    provider_output: Option<Seq<char>>,
) -> GitHubStackMutationReceiptView {
    GitHubStackMutationReceiptView {
        schema_version: STACK_SCHEMA_VERSION,
        operation_id,
        operation,
        repository,
        actor,
        disposition,
        request,
        before,
        after,
        provider_output,
        evidence_hash: Seq::empty(),
    }.sealed()
}

/// A receipt, sealed.
pub fn stack_receipt(
    repository: &RepositoryId,
    operation_id: &str,
    actor: &str,
    operation: GitHubStackMutationOperation,
    disposition: GitHubStackMutationDisposition,
    request: GitHubStackRequestIdentity,
    before: Option<GitHubStackGeneration>,
    after: Option<GitHubStackGeneration>,
    provider_output: Option<String>,
) -> (r: GitHubStackMutationReceipt)
    ensures
        r.deep_view() == receipt_of(
            repository.deep_view(),
            operation_id@,
            actor@,
            operation,
            disposition,
            request.deep_view(),
            before.deep_view(),
            after.deep_view(),
            provider_output.deep_view(),
        ),
{
    let receipt = GitHubStackMutationReceipt {
        schema_version: STACK_SCHEMA_VERSION,
        operation_id: operation_id.to_owned(),
        operation,
        repository: repository.dup(),
        actor: actor.to_owned(),
        disposition,
        request,
        before,
        after,
        provider_output,
        evidence_hash: String::new(),
    };
    assert(receipt.deep_view().evidence_hash =~= Seq::empty());
    receipt.seal()
}

/// What is asked for: the Stack with a topology, or no Stack.
pub open spec fn met(
    before: Option<GitHubStackGenerationView>,
    desired: Option<GitHubStackTopologyView>,
    seen: Option<GitHubStackGenerationView>,
) -> bool {
    match desired {
        None => seen is None,
        Some(topology) => match seen {
            None => false,
            Some(generation) => generation.topology == topology && match before {
                Some(known) => stack::same_stack(generation, known),
                None => true,
            },
        },
    }
}

/// Whether what is asked for is there. A Stack that was known before must
/// still be that Stack.
pub fn is_met(
    before: &Option<GitHubStackGeneration>,
    desired: &Option<GitHubStackTopology>,
    seen: &Option<GitHubStackGeneration>,
) -> (r: bool)
    ensures
        r == met(before.deep_view(), desired.deep_view(), seen.deep_view()),
{
    match desired {
        None => seen.is_none(),
        Some(topology) => match seen {
            None => false,
            Some(generation) => generation.topology.same(topology) && match before {
                Some(known) => same_stack_identity(generation, known),
                None => true,
            },
        },
    }
}

/// The outcome of a change, from the response and a fresh read. Only the fresh
/// read decides whether the postcondition holds; the response decides how it
/// came about.
pub open spec fn change_outcome(
    repository: RepositoryIdView,
    operation_id: Seq<char>,
    actor: Seq<char>,
    operation: GitHubStackMutationOperation,
    request: GitHubStackRequestIdentityView,
    before: Option<GitHubStackGenerationView>,
    desired: Option<GitHubStackTopologyView>,
    reply: Reply,
    seen: Result<Option<GitHubStackGenerationView>, GitHubStackMutationErrorView>,
) -> Result<GitHubStackMutationReceiptView, GitHubStackMutationErrorView> {
    let succeeded = reply is Ok && reply->Ok_0.succeeded();
    if seen is Ok && met(before, desired, seen->Ok_0) {
        Ok(
            receipt_of(
                repository,
                operation_id,
                actor,
                operation,
                if succeeded {
                    GitHubStackMutationDisposition::Completed
                } else {
                    GitHubStackMutationDisposition::RecoveredAfterAmbiguousResponse
                },
                GitHubStackRequestIdentityView {
                    github_request_id: match reply {
                        Ok(output) => request_id(output),
                        Err(_) => None,
                    },
                    ..request
                },
                before,
                seen->Ok_0,
                match reply {
                    Ok(output) => bounded_output(output),
                    Err(_) => None,
                },
            ),
        )
    } else if succeeded && seen is Ok {
        Err(
            GitHubStackMutationErrorView::PostconditionFailed {
                operation,
                expected: desired,
                actual: seen->Ok_0,
            },
        )
    } else {
        Err(ambiguous(operation, response_diagnostic(reply), seen))
    }
}

/// The outcome of a change, from the response and a fresh read.
pub fn judge_change(
    repository: &RepositoryId,
    operation_id: &str,
    actor: &str,
    operation: GitHubStackMutationOperation,
    request: GitHubStackRequestIdentity,
    before: Option<GitHubStackGeneration>,
    desired: Option<GitHubStackTopology>,
    reply: Result<CommandOutput, CommandRunError>,
    seen: Result<Option<GitHubStackGeneration>, GitHubStackMutationError>,
) -> (r: Result<GitHubStackMutationReceipt, GitHubStackMutationError>)
    ensures
        stack::stack_view(r) == change_outcome(
            repository.deep_view(),
            operation_id@,
            actor@,
            operation,
            request.deep_view(),
            before.deep_view(),
            desired.deep_view(),
            command::reply_view(reply),
            stack::stack_view(seen),
        ),
{
    let diagnostic = mutation_response_diagnostic(&reply);
    let (succeeded, id, output) = match &reply {
        Ok(output) => (
            output.is_success(),
            github_request_id(output),
            bounded_provider_output(output),
        ),
        Err(_) => (false, None, None),
    };
    match seen {
        Err(error) => Err(ambiguous_error(operation, diagnostic, Err(error))),
        Ok(after) => if is_met(&before, &desired, &after) {
            let request = GitHubStackRequestIdentity {
                method: request.method,
                path: request.path,
                ordered_pull_requests: request.ordered_pull_requests,
                github_request_id: id,
            };
            let disposition = if succeeded {
                GitHubStackMutationDisposition::Completed
            } else {
                GitHubStackMutationDisposition::RecoveredAfterAmbiguousResponse
            };
            Ok(
                stack_receipt(
                    repository,
                    operation_id,
                    actor,
                    operation,
                    disposition,
                    request,
                    before,
                    after,
                    output,
                ),
            )
        } else if succeeded {
            Err(
                GitHubStackMutationError::PostconditionFailed {
                    operation,
                    expected: match desired {
                        Some(topology) => Some(Box::new(topology)),
                        None => None,
                    },
                    actual: match after {
                        Some(generation) => Some(Box::new(generation)),
                        None => None,
                    },
                },
            )
        } else {
            Err(ambiguous_error(operation, diagnostic, Ok(after)))
        },
    }
}

/// A change of a Stack that nothing read speaks against.
pub struct StackChange {
    pub repository: RepositoryId,
    pub operation_id: String,
    pub actor: String,
    pub operation: GitHubStackMutationOperation,
    pub request: GitHubStackRequestIdentity,
    pub before: Option<GitHubStackGeneration>,
    pub desired: Option<GitHubStackTopology>,
    pub command: CommandSpec,
}

impl OneWrite for StackChange {
    type Kept = Granted;

    type Seen = Result<Option<GitHubStackGeneration>, GitHubStackMutationError>;

    type SeenView = Result<Option<GitHubStackGenerationView>, GitHubStackMutationErrorView>;

    type Outcome = Result<GitHubStackMutationReceipt, GitHubStackMutationError>;

    type OutcomeView = Result<GitHubStackMutationReceiptView, GitHubStackMutationErrorView>;

    open spec fn seen_view(seen: Self::Seen) -> Self::SeenView {
        stack::stack_view(seen)
    }

    open spec fn outcome_view(outcome: Self::Outcome) -> Self::OutcomeView {
        stack::stack_view(outcome)
    }

    open spec fn request(&self, kept: ()) -> CommandSpecView {
        self.command.deep_view()
    }

    open spec fn closed(&self, kept: (), reply: Reply) -> Option<Self::OutcomeView> {
        None
    }

    open spec fn concluded(
        &self,
        kept: (),
        reply: Reply,
        seen: Self::SeenView,
    ) -> Self::OutcomeView {
        change_outcome(
            self.repository.deep_view(),
            self.operation_id@,
            self.actor@,
            self.operation,
            self.request.deep_view(),
            self.before.deep_view(),
            self.desired.deep_view(),
            reply,
            seen,
        )
    }

    fn make_request(&self, kept: &Granted) -> (r: CommandSpec) {
        self.command.dup()
    }

    fn close(
        &self,
        kept: &Granted,
        reply: &Result<CommandOutput, CommandRunError>,
    ) -> (r: Option<Self::Outcome>) {
        None
    }

    fn conclude(
        &self,
        kept: Granted,
        reply: &Result<CommandOutput, CommandRunError>,
        seen: Self::Seen,
    ) -> (r: Self::Outcome) {
        judge_change(
            &self.repository,
            self.operation_id.as_str(),
            self.actor.as_str(),
            self.operation,
            self.request.dup(),
            self.before.dup(),
            self.desired.dup(),
            dup_reply(reply),
            seen,
        )
    }
}

// ---------------------------------------------------------------------------
// Operations
// ---------------------------------------------------------------------------

/// A creation whose pull requests stand in a Stack already: done before, or
/// stale.
pub open spec fn existing_outcome(
    repository: RepositoryIdView,
    plan: GitHubStackCreatePlanView,
    existing: GitHubStackGenerationView,
) -> Result<GitHubStackMutationReceiptView, GitHubStackMutationErrorView> {
    if existing.topology == plan.desired {
        Ok(
            receipt_of(
                repository,
                plan.operation_id,
                plan.actor,
                GitHubStackMutationOperation::Create,
                GitHubStackMutationDisposition::AlreadySatisfied,
                stack::create_identity(repository, plan.desired),
                Some(existing),
                Some(existing),
                None,
            ),
        )
    } else {
        Err(stack::stale(plan.desired, Some(existing)))
    }
}

/// A creation whose pull requests stand in a Stack already.
pub fn judge_existing(
    repository: &RepositoryId,
    plan: &GitHubStackCreatePlan,
    existing: GitHubStackGeneration,
) -> (r: Result<GitHubStackMutationReceipt, GitHubStackMutationError>)
    ensures
        stack::stack_view(r) == existing_outcome(
            repository.deep_view(),
            plan.deep_view(),
            existing.deep_view(),
        ),
{
    if existing.topology.same(&plan.desired) {
        Ok(
            stack_receipt(
                repository,
                plan.operation_id.as_str(),
                plan.actor.as_str(),
                GitHubStackMutationOperation::Create,
                GitHubStackMutationDisposition::AlreadySatisfied,
                create_request(repository, &plan.desired),
                Some(existing.dup()),
                Some(existing),
                None,
            ),
        )
    } else {
        Err(stale_topology(&plan.desired, &Some(existing)))
    }
}

/// Asking for a creation may end so. The Stack is read once the request was
/// answered.
pub open spec fn create_sent<R: CommandRunner>(
    runner: R,
    repository: RepositoryIdView,
    plan: GitHubStackCreatePlanView,
    outcome: Result<GitHubStackMutationReceiptView, GitHubStackMutationErrorView>,
) -> bool {
    exists|
        sent: Sent,
        seen: Result<Option<GitHubStackGenerationView>, GitHubStackMutationErrorView>,
    |
        #[trigger] command::was_sent(runner, stack::stack_create(repository, plan.desired), sent)
            && #[trigger] rediscovered(
            command::after(&runner, &sent),
            repository,
            plan.desired,
            seen,
        ) && outcome == change_outcome(
            repository,
            plan.operation_id,
            plan.actor,
            GitHubStackMutationOperation::Create,
            stack::create_identity(repository, plan.desired),
            None,
            Some(plan.desired),
            sent.answer(),
            seen,
        )
}

/// A creation whose pull requests stand in no Stack may end so.
pub open spec fn create_fresh<R: CommandRunner>(
    runner: R,
    repository: RepositoryIdView,
    plan: GitHubStackCreatePlanView,
    outcome: Result<GitHubStackMutationReceiptView, GitHubStackMutationErrorView>,
) -> bool {
    exists|fresh: Result<(), GitHubStackMutationErrorView>| #[trigger]
        topology_fresh(runner, repository, plan.desired, fresh) && match fresh {
            Err(error) => outcome == Err::<GitHubStackMutationReceiptView, _>(error),
            Ok(_) => create_sent(runner, repository, plan, outcome),
        }
}

/// A valid creation may end so.
pub open spec fn create_planned<R: CommandRunner>(
    runner: R,
    repository: RepositoryIdView,
    plan: GitHubStackCreatePlanView,
    outcome: Result<GitHubStackMutationReceiptView, GitHubStackMutationErrorView>,
) -> bool {
    exists|found: Result<Option<GitHubStackGenerationView>, GitHubStackMutationErrorView>| #[trigger]
        rediscovered(runner, repository, plan.desired, found) && match found {
            Err(error) => outcome == Err::<GitHubStackMutationReceiptView, _>(error),
            Ok(Some(existing)) => outcome == existing_outcome(repository, plan, existing),
            Ok(None) => create_fresh(runner, repository, plan, outcome),
        }
}

/// A creation may end so.
pub open spec fn stack_created<R: CommandRunner>(
    runner: R,
    repository: RepositoryIdView,
    plan: GitHubStackCreatePlanView,
    outcome: Result<GitHubStackMutationReceiptView, GitHubStackMutationErrorView>,
) -> bool {
    match stack::create_refusal(repository, plan) {
        Some(error) => outcome == Err::<GitHubStackMutationReceiptView, _>(error),
        None => create_planned(runner, repository, plan, outcome),
    }
}

/// Asking for a change of a known Stack may end so. The Stack is read once the
/// request was answered.
pub open spec fn change_sent<R: CommandRunner>(
    runner: R,
    repository: RepositoryIdView,
    operation_id: Seq<char>,
    actor: Seq<char>,
    operation: GitHubStackMutationOperation,
    before: GitHubStackGenerationView,
    desired: Option<GitHubStackTopologyView>,
    request: GitHubStackRequestIdentityView,
    command: CommandSpecView,
    allowed: Option<PrNumber>,
    outcome: Result<GitHubStackMutationReceiptView, GitHubStackMutationErrorView>,
) -> bool {
    exists|
        sent: Sent,
        seen: Result<Option<GitHubStackGenerationView>, GitHubStackMutationErrorView>,
    |
        #[trigger] command::was_sent(runner, command, sent)
            && #[trigger] generation_read_allowing(
            command::after(&runner, &sent),
            repository,
            before.number,
            allowed,
            seen,
        ) && outcome == change_outcome(
            repository,
            operation_id,
            actor,
            operation,
            request,
            Some(before),
            desired,
            sent.answer(),
            seen,
        )
}

/// An append to the exact Stack, confirmed afresh, may end so.
pub open spec fn add_leased<R: CommandRunner>(
    runner: R,
    repository: RepositoryIdView,
    plan: GitHubStackAddPlanView,
    outcome: Result<GitHubStackMutationReceiptView, GitHubStackMutationErrorView>,
) -> bool {
    exists|lease: Result<Option<GitHubStackGenerationView>, GitHubStackMutationErrorView>| #[trigger]
        generation_read(runner, repository, plan.before.number, lease) && match lease {
            Err(error) => outcome == Err::<GitHubStackMutationReceiptView, _>(error),
            Ok(held) => if held != Some(plan.before) {
                outcome == Err::<GitHubStackMutationReceiptView, _>(
                    stack::stale_exact(plan.before, held),
                )
            } else {
                change_sent(
                    runner,
                    repository,
                    plan.operation_id,
                    plan.actor,
                    GitHubStackMutationOperation::Add,
                    plan.before,
                    Some(plan.desired),
                    stack::add_identity(repository, plan),
                    stack::stack_add(repository, plan),
                    None,
                    outcome,
                )
            },
        }
}

/// An append to the exact Stack may end so.
pub open spec fn add_fresh<R: CommandRunner>(
    runner: R,
    repository: RepositoryIdView,
    plan: GitHubStackAddPlanView,
    outcome: Result<GitHubStackMutationReceiptView, GitHubStackMutationErrorView>,
) -> bool {
    exists|fresh: Result<(), GitHubStackMutationErrorView>| #[trigger]
        topology_fresh(runner, repository, plan.desired, fresh) && match fresh {
            Err(error) => outcome == Err::<GitHubStackMutationReceiptView, _>(error),
            Ok(_) => add_leased(runner, repository, plan, outcome),
        }
}

/// A change that was made before: its receipt names what is there.
pub open spec fn satisfied(
    repository: RepositoryIdView,
    operation_id: Seq<char>,
    actor: Seq<char>,
    operation: GitHubStackMutationOperation,
    request: GitHubStackRequestIdentityView,
    actual: Option<GitHubStackGenerationView>,
) -> GitHubStackMutationReceiptView {
    receipt_of(
        repository,
        operation_id,
        actor,
        operation,
        GitHubStackMutationDisposition::AlreadySatisfied,
        request,
        actual,
        actual,
        None,
    )
}

/// A valid append may end so.
pub open spec fn add_planned<R: CommandRunner>(
    runner: R,
    repository: RepositoryIdView,
    plan: GitHubStackAddPlanView,
    outcome: Result<GitHubStackMutationReceiptView, GitHubStackMutationErrorView>,
) -> bool {
    exists|read: Result<Option<GitHubStackGenerationView>, GitHubStackMutationErrorView>| #[trigger]
        generation_read(runner, repository, plan.before.number, read) && match read {
            Err(error) => outcome == Err::<GitHubStackMutationReceiptView, _>(error),
            Ok(actual) => if met(Some(plan.before), Some(plan.desired), actual) {
                outcome == Ok::<_, GitHubStackMutationErrorView>(
                    satisfied(
                        repository,
                        plan.operation_id,
                        plan.actor,
                        GitHubStackMutationOperation::Add,
                        stack::add_identity(repository, plan),
                        actual,
                    ),
                )
            } else if actual is None {
                outcome == Err::<GitHubStackMutationReceiptView, _>(
                    stack::stale(plan.before.topology, None),
                )
            } else if actual != Some(plan.before) {
                outcome == Err::<GitHubStackMutationReceiptView, _>(
                    stack::stale_exact(plan.before, actual),
                )
            } else {
                add_fresh(runner, repository, plan, outcome)
            },
        }
}

/// An append may end so.
pub open spec fn stack_added<R: CommandRunner>(
    runner: R,
    repository: RepositoryIdView,
    plan: GitHubStackAddPlanView,
    outcome: Result<GitHubStackMutationReceiptView, GitHubStackMutationErrorView>,
) -> bool {
    match stack::add_refusal(repository, plan) {
        Some(error) => outcome == Err::<GitHubStackMutationReceiptView, _>(error),
        None => add_planned(runner, repository, plan, outcome),
    }
}

/// A valid request to take a Stack apart may end so.
pub open spec fn unstack_planned<R: CommandRunner>(
    runner: R,
    repository: RepositoryIdView,
    plan: GitHubStackUnstackPlanView,
    allowed: Option<PrNumber>,
    outcome: Result<GitHubStackMutationReceiptView, GitHubStackMutationErrorView>,
) -> bool {
    exists|read: Result<Option<GitHubStackGenerationView>, GitHubStackMutationErrorView>| #[trigger]
        generation_read_allowing(
            runner,
            repository,
            plan.before.number,
            allowed,
            read,
        ) && match read {
            Err(error) => outcome == Err::<GitHubStackMutationReceiptView, _>(error),
            Ok(actual) => if met(Some(plan.before), plan.desired_after, actual) {
                outcome == Ok::<_, GitHubStackMutationErrorView>(
                    satisfied(
                        repository,
                        plan.operation_id,
                        plan.actor,
                        GitHubStackMutationOperation::Unstack,
                        stack::unstack_identity(repository, plan.before.number),
                        actual,
                    ),
                )
            } else if actual is None {
                outcome == Err::<GitHubStackMutationReceiptView, _>(
                    stack::stale(plan.before.topology, None),
                )
            } else if actual != Some(plan.before) {
                outcome == Err::<GitHubStackMutationReceiptView, _>(
                    stack::stale_exact(plan.before, actual),
                )
            } else {
                change_sent(
                    runner,
                    repository,
                    plan.operation_id,
                    plan.actor,
                    GitHubStackMutationOperation::Unstack,
                    plan.before,
                    plan.desired_after,
                    stack::unstack_identity(repository, plan.before.number),
                    stack::stack_unstack(repository, plan.before.number),
                    allowed,
                    outcome,
                )
            },
        }
}

/// Taking a Stack apart may end so.
pub open spec fn unstacked<R: CommandRunner>(
    runner: R,
    repository: RepositoryIdView,
    plan: GitHubStackUnstackPlanView,
    allowed: Option<PrNumber>,
    outcome: Result<GitHubStackMutationReceiptView, GitHubStackMutationErrorView>,
) -> bool {
    match stack::unstack_refusal(repository, plan, allowed) {
        Some(error) => outcome == Err::<GitHubStackMutationReceiptView, _>(error),
        None => unstack_planned(runner, repository, plan, allowed, outcome),
    }
}

/// The receipt of a creation is intact, and names a Stack with exactly the
/// desired topology.
pub proof fn lemma_created_receipt<R: CommandRunner>(
    runner: R,
    repository: RepositoryIdView,
    plan: GitHubStackCreatePlanView,
    receipt: GitHubStackMutationReceiptView,
)
    requires
        stack_created(runner, repository, plan, Ok(receipt)),
    ensures
        receipt.intact(),
        receipt.after is Some,
        receipt.after->0.topology == plan.desired,
        receipt.operation == GitHubStackMutationOperation::Create,
        receipt.operation_id == plan.operation_id,
        receipt.repository == repository,
        stack::create_refusal(repository, plan) is None,
{
    lemma_receipts_are_intact();
}

/// The receipt of an append is intact, and names the same Stack with exactly
/// the desired topology.
pub proof fn lemma_added_receipt<R: CommandRunner>(
    runner: R,
    repository: RepositoryIdView,
    plan: GitHubStackAddPlanView,
    receipt: GitHubStackMutationReceiptView,
)
    requires
        stack_added(runner, repository, plan, Ok(receipt)),
    ensures
        receipt.intact(),
        receipt.after is Some,
        receipt.after->0.topology == plan.desired,
        stack::same_stack(receipt.after->0, plan.before),
        receipt.operation == GitHubStackMutationOperation::Add,
        stack::add_refusal(repository, plan) is None,
{
    lemma_receipts_are_intact();
}

/// The receipt of taking a Stack apart is intact, and names what was to be
/// left: no Stack, or the same Stack with exactly the desired topology.
pub proof fn lemma_unstacked_receipt<R: CommandRunner>(
    runner: R,
    repository: RepositoryIdView,
    plan: GitHubStackUnstackPlanView,
    allowed: Option<PrNumber>,
    receipt: GitHubStackMutationReceiptView,
)
    requires
        unstacked(runner, repository, plan, allowed, Ok(receipt)),
    ensures
        receipt.intact(),
        met(Some(plan.before), plan.desired_after, receipt.after),
        receipt.operation == GitHubStackMutationOperation::Unstack,
        receipt.operation_id == plan.operation_id,
        receipt.repository == repository,
        stack::unstack_refusal(repository, plan, allowed) is None,
{
    lemma_receipts_are_intact();
}

proof fn lemma_receipts_are_intact()
    ensures
        forall|receipt: GitHubStackMutationReceiptView| (#[trigger] receipt.sealed()).intact(),
{
    assert forall|receipt: GitHubStackMutationReceiptView| (
    #[trigger] receipt.sealed()).intact() by {
        stack::lemma_sealed_receipt_is_intact(receipt);
    }
}

// ---------------------------------------------------------------------------
// What may be run
// ---------------------------------------------------------------------------

/// What the creation of a Stack may run: nothing for a refused plan, else reads,
/// and the creation once no Stack held the pull requests and the topology was
/// fresh.
pub open spec fn may_create_stack<R: CommandRunner>(
    runner: R,
    repository: RepositoryIdView,
    plan: GitHubStackCreatePlanView,
) -> bool {
    stack::create_refusal(repository, plan) is None ==> {
        &&& command::reads_allowed(runner)
        &&& rediscovered(runner, repository, plan.desired, Ok(None)) && topology_fresh(
            runner,
            repository,
            plan.desired,
            Ok(()),
        ) ==> runner.allows(stack::stack_create(repository, plan.desired))
    }
}

/// What an append to a Stack may run: nothing for a refused plan, else reads,
/// and the append once the Stack was read exactly as planned, is not what is
/// desired yet, and the desired topology was fresh.
pub open spec fn may_add_to_stack<R: CommandRunner>(
    runner: R,
    repository: RepositoryIdView,
    plan: GitHubStackAddPlanView,
) -> bool {
    stack::add_refusal(repository, plan) is None ==> {
        &&& command::reads_allowed(runner)
        &&& generation_read(runner, repository, plan.before.number, Ok(Some(plan.before))) && !met(
            Some(plan.before),
            Some(plan.desired),
            Some(plan.before),
        ) && topology_fresh(runner, repository, plan.desired, Ok(())) ==> runner.allows(
            stack::stack_add(repository, plan),
        )
    }
}

/// What taking a Stack apart may run: nothing for a refused plan, else reads,
/// and the request once the Stack was read exactly as planned and is not what
/// is desired yet.
pub open spec fn may_unstack<R: CommandRunner>(
    runner: R,
    repository: RepositoryIdView,
    plan: GitHubStackUnstackPlanView,
    allowed: Option<PrNumber>,
) -> bool {
    stack::unstack_refusal(repository, plan, allowed) is None ==> {
        &&& command::reads_allowed(runner)
        &&& generation_read_allowing(
            runner,
            repository,
            plan.before.number,
            allowed,
            Ok(Some(plan.before)),
        ) && !met(
            Some(plan.before),
            plan.desired_after,
            Some(plan.before),
        ) ==> runner.allows(stack::stack_unstack(repository, plan.before.number))
    }
}

impl<R: CommandRunner> GitHubMutationAdapter<R> {
    /// The Stacks of a repository.
    pub fn native_stack_inventory(&self, repository: &RepositoryId) -> (r: Result<
        GitHubStackInventory,
        GitHubStackReadError,
    >)
        requires
            self.runner.allows(stack::stack_list(repository.deep_view())),
        ensures
            inventory_read(self.runner, repository.deep_view(), inventory_view(r)),
    {
        let reply = run(&self.runner, &native_stack_list_command(repository));
        assert(command::ran(
            self.runner,
            stack::stack_list(repository.deep_view()),
            command::reply_view(reply),
        ));
        judge_inventory(reply)
    }

    fn exact_inventory(&self, repository: &RepositoryId) -> (r: Result<
        GitHubStackInventory,
        GitHubStackMutationError,
    >)
        requires
            self.runner.allows(stack::stack_list(repository.deep_view())),
        ensures
            whole_inventory_read(self.runner, repository.deep_view(), stack::stack_view(r)),
    {
        let read = self.native_stack_inventory(repository);
        assert(inventory_read(self.runner, repository.deep_view(), inventory_view(read)));
        match read {
            Err(error) => Err(stack_read_error(error)),
            Ok(inventory) => if inventory.truncated {
                Err(GitHubStackMutationError::InventoryTruncated)
            } else {
                Ok(inventory)
            },
        }
    }

    fn read_native_stack_snapshot(
        &self,
        repository: &RepositoryId,
        stack_number: u64,
    ) -> (r: Result<
        Option<GitHubStackSnapshot>,
        GitHubStackMutationError,
    >)
        requires
            command::reads_allowed(self.runner),
        ensures
            snapshot_read(
                self.runner,
                repository.deep_view(),
                stack_number,
                stack::stack_view(r),
            ),
    {
        let reply = run(&self.runner, &native_stack_read_command(repository, stack_number));
        assert(command::ran(
            self.runner,
            stack::stack_read(repository.deep_view(), stack_number),
            command::reply_view(reply),
        ));
        match judge_direct_read(reply) {
            Some(Ok(found)) => Ok(Some(found)),
            Some(Err(error)) => Err(error),
            None => {
                let read = self.native_stack_inventory(repository);
                assert(inventory_read(self.runner, repository.deep_view(), inventory_view(read)));
                judge_absence(stack_number, read)
            },
        }
    }

    fn observe_entries(&self, repository: &RepositoryId, stack: &GitHubStackSnapshot) -> (r: Result<
        Vec<GitHubStackEntryGeneration>,
        GitHubStackMutationError,
    >)
        requires
            command::reads_allowed(self.runner),
        ensures
            entries_observed(
                self.runner,
                repository.deep_view(),
                stack.number,
                stack.deep_view().pull_requests,
                stack::stack_view(r),
            ),
    {
        let rows = &stack.pull_requests;
        let ghost all = rows.deep_view();
        let ghost prs = row_prs(all);
        let ghost mut reads: Seq<Result<PullRequestSnapshotView, MutationErrorView>> = Seq::empty();
        let mut entries: Vec<GitHubStackEntryGeneration> = Vec::new();
        let mut i: usize = 0;
        assert(entries.deep_view() =~= Seq::<GitHubStackEntryGenerationView>::empty());
        while i < rows.len()
            invariant
                all == rows.deep_view(),
                all == stack.deep_view().pull_requests,
                prs == row_prs(all),
                i <= rows.len(),
                reads.len() == i,
                entries.deep_view().len() == i,
                command::reads_allowed(self.runner),
                adapter::refetched_each(self.runner, repository.deep_view(), prs, reads),
                agreed_entries(stack.number, all, reads) == Ok::<_, GitHubStackMutationErrorView>(
                    entries.deep_view(),
                ),
            decreases rows.len() - i,
        {
            let row = &rows[i];
            assert(all[i as int] == row.deep_view());
            let ghost before = reads;
            let read = self.refetch_pull_request(repository, PrNumber(row.number));
            proof {
                reads = before.push(adapter::outcome_view(read));
                assert(reads.drop_last() =~= before);
                assert forall|k: int| 0 <= k < reads.len() implies adapter::refetched(
                    self.runner,
                    repository.deep_view(),
                    model::pr_text(prs[k]),
                    #[trigger] reads[k],
                ) by {
                    if k < i {
                        assert(reads[k] == before[k]);
                    }
                }
                assert(adapter::refetched_each(self.runner, repository.deep_view(), prs, reads));
            }
            let pr = match read {
                Err(error) => {
                    return Err(GitHubStackMutationError::Provider(error));
                },
                Ok(pr) => pr,
            };
            match agree_entry(stack.number, row, i, pr) {
                Err(error) => {
                    return Err(error);
                },
                Ok(entry) => {
                    push_item(&mut entries, entry);
                },
            }
            i = i + 1;
        }
        Ok(entries)
    }

    /// The exact generation of a Stack that the provider listed.
    pub fn observe_stack_generation(
        &self,
        repository: &RepositoryId,
        stack: &GitHubStackSnapshot,
        allowed: Option<PrNumber>,
    ) -> (r: Result<GitHubStackGeneration, GitHubStackMutationError>)
        requires
            command::reads_allowed(self.runner),
        ensures
            observed(
                self.runner,
                repository.deep_view(),
                stack.deep_view(),
                allowed,
                stack::stack_view(r),
            ),
    {
        let read = self.json::<GitRefJson>(
            &native_stack_base_ref_command(repository, stack.base.ref_name.as_str()),
        );
        assert(adapter::got::<R, GitRefJson>(
            self.runner,
            stack::stack_base_ref(repository.deep_view(), stack.deep_view().base.ref_name),
            adapter::outcome_view(read),
        ));
        let reference = match read {
            Err(error) => {
                return Err(GitHubStackMutationError::Provider(error));
            },
            Ok(reference) => reference,
        };
        let base = BranchSnapshot {
            repository: repository.dup(),
            name: stack.base.ref_name.dup(),
            oid: CommitOid(reference.object.sha),
        };
        let listed = self.observe_entries(repository, stack);
        assert(entries_observed(
            self.runner,
            repository.deep_view(),
            stack.deep_view().number,
            stack.deep_view().pull_requests,
            stack::stack_view(listed),
        ));
        let entries = match listed {
            Err(error) => {
                return Err(error);
            },
            Ok(entries) => entries,
        };
        let topology = GitHubStackTopology { base, entries };
        match validate_topology_allowing_stale_tail_base(repository, &topology, 1, allowed) {
            Err(error) => Err(error),
            Ok(_) => Ok(
                GitHubStackGeneration {
                    id: stack.id,
                    number: stack.number,
                    node_id: stack.node_id.dup(),
                    open: stack.open,
                    created_at: stack.created_at.dup(),
                    topology,
                },
            ),
        }
    }

    fn observe_some(
        &self,
        repository: &RepositoryId,
        found: &GitHubStackSnapshot,
        allowed: Option<PrNumber>,
    ) -> (r: Result<Option<GitHubStackGeneration>, GitHubStackMutationError>)
        requires
            command::reads_allowed(self.runner),
        ensures
            observed_some(
                self.runner,
                repository.deep_view(),
                found.deep_view(),
                allowed,
                stack::stack_view(r),
            ),
    {
        let seen = self.observe_stack_generation(repository, found, allowed);
        assert(observed(
            self.runner,
            repository.deep_view(),
            found.deep_view(),
            allowed,
            stack::stack_view(seen),
        ));
        match seen {
            Err(error) => Err(error),
            Ok(generation) => Ok(Some(generation)),
        }
    }

    /// The exact generation of a Stack, bound to its identity, its base, and
    /// the base and head of every entry. A Stack that is not found is absent
    /// only if the inventory can be read.
    pub fn native_stack_generation(
        &self,
        repository: &RepositoryId,
        stack_number: u64,
    ) -> (r: Result<
        Option<GitHubStackGeneration>,
        GitHubStackMutationError,
    >)
        requires
            command::reads_allowed(self.runner),
        ensures
            generation_read(
                self.runner,
                repository.deep_view(),
                stack_number,
                stack::stack_view(r),
            ),
    {
        self.native_stack_generation_allowing_stale_tail_base(repository, stack_number, None)
    }

    /// The exact generation of a Stack whose tail, if it is the one pull request
    /// that this is allowed to, may stand on an earlier generation of the branch
    /// below it.
    pub fn native_stack_generation_allowing_stale_tail_base(
        &self,
        repository: &RepositoryId,
        stack_number: u64,
        allowed: Option<PrNumber>,
    ) -> (r: Result<Option<GitHubStackGeneration>, GitHubStackMutationError>)
        requires
            command::reads_allowed(self.runner),
        ensures
            generation_read_allowing(
                self.runner,
                repository.deep_view(),
                stack_number,
                allowed,
                stack::stack_view(r),
            ),
    {
        let read = self.read_native_stack_snapshot(repository, stack_number);
        assert(snapshot_read(
            self.runner,
            repository.deep_view(),
            stack_number,
            stack::stack_view(read),
        ));
        match read {
            Err(error) => Err(error),
            Ok(None) => Ok(None),
            Ok(Some(found)) => self.observe_some(repository, &found, allowed),
        }
    }

    fn fresh_entries(
        &self,
        repository: &RepositoryId,
        expected: &GitHubStackTopology,
    ) -> (r: Result<
        Vec<GitHubStackEntryGeneration>,
        GitHubStackMutationError,
    >)
        requires
            command::reads_allowed(self.runner),
        ensures
            entries_fresh(
                self.runner,
                repository.deep_view(),
                expected.deep_view().entries,
                stack::stack_view(r),
            ),
    {
        let rows = &expected.entries;
        let ghost all = rows.deep_view();
        let ghost prs = stack::entry_prs(all);
        let ghost mut reads: Seq<Result<PullRequestSnapshotView, MutationErrorView>> = Seq::empty();
        let mut entries: Vec<GitHubStackEntryGeneration> = Vec::new();
        let mut i: usize = 0;
        assert(entries.deep_view() =~= Seq::<GitHubStackEntryGenerationView>::empty());
        while i < rows.len()
            invariant
                all == rows.deep_view(),
                all == expected.deep_view().entries,
                prs == stack::entry_prs(all),
                i <= rows.len(),
                reads.len() == i,
                entries.deep_view().len() == i,
                command::reads_allowed(self.runner),
                adapter::refetched_each(self.runner, repository.deep_view(), prs, reads),
                fresh_entries_of(all, reads) == Ok::<_, GitHubStackMutationErrorView>(
                    entries.deep_view(),
                ),
            decreases rows.len() - i,
        {
            let row = &rows[i];
            assert(all[i as int] == row.deep_view());
            let ghost before = reads;
            let read = self.refetch_pull_request(repository, row.pr);
            proof {
                reads = before.push(adapter::outcome_view(read));
                assert(reads.drop_last() =~= before);
                assert forall|k: int| 0 <= k < reads.len() implies adapter::refetched(
                    self.runner,
                    repository.deep_view(),
                    model::pr_text(prs[k]),
                    #[trigger] reads[k],
                ) by {
                    if k < i {
                        assert(reads[k] == before[k]);
                    }
                }
                assert(adapter::refetched_each(self.runner, repository.deep_view(), prs, reads));
            }
            let pr = match read {
                Err(error) => {
                    return Err(GitHubStackMutationError::Provider(error));
                },
                Ok(pr) => pr,
            };
            match entry_from_pr(i, row.stack_state.as_str(), pr) {
                Err(error) => {
                    return Err(error);
                },
                Ok(entry) => {
                    push_item(&mut entries, entry);
                },
            }
            i = i + 1;
        }
        Ok(entries)
    }

    /// Confirms that the base and every pull request of a topology are still
    /// what it says.
    pub fn verify_topology_fresh(
        &self,
        repository: &RepositoryId,
        expected: &GitHubStackTopology,
    ) -> (r: Result<(), GitHubStackMutationError>)
        requires
            command::reads_allowed(self.runner),
        ensures
            topology_fresh(
                self.runner,
                repository.deep_view(),
                expected.deep_view(),
                stack::stack_view(r),
            ),
    {
        let read = self.json::<GitRefJson>(
            &native_stack_base_ref_command(repository, expected.base.name.as_str()),
        );
        assert(adapter::got::<R, GitRefJson>(
            self.runner,
            stack::stack_base_ref(repository.deep_view(), expected.deep_view().base.name),
            adapter::outcome_view(read),
        ));
        let reference = match read {
            Err(error) => {
                return Err(GitHubStackMutationError::Provider(error));
            },
            Ok(reference) => reference,
        };
        let base = BranchSnapshot {
            repository: repository.dup(),
            name: expected.base.name.dup(),
            oid: CommitOid(reference.object.sha),
        };
        let listed = self.fresh_entries(repository, expected);
        assert(entries_fresh(
            self.runner,
            repository.deep_view(),
            expected.deep_view().entries,
            stack::stack_view(listed),
        ));
        let entries = match listed {
            Err(error) => {
                return Err(error);
            },
            Ok(entries) => entries,
        };
        let actual = GitHubStackTopology { base, entries };
        if actual.same(expected) {
            Ok(())
        } else {
            Err(
                GitHubStackMutationError::StaleGeneration {
                    changed_fields: changed_topology_fields(expected, &actual),
                    expected: Box::new(expected.dup()),
                    actual: None,
                },
            )
        }
    }

    fn find_intersecting_generation(
        &self,
        repository: &RepositoryId,
        inventory: &GitHubStackInventory,
        desired: &GitHubStackTopology,
    ) -> (r: Result<Option<GitHubStackGeneration>, GitHubStackMutationError>)
        requires
            command::reads_allowed(self.runner),
        ensures
            intersecting(
                self.runner,
                repository.deep_view(),
                inventory.deep_view(),
                desired.deep_view(),
                stack::stack_view(r),
            ),
    {
        match find_touching(&inventory.stacks, desired) {
            Err(error) => Err(error),
            Ok(None) => Ok(None),
            Ok(Some(found)) => self.observe_some(repository, &found, None),
        }
    }

    /// The generation that holds pull requests of a topology, read afresh.
    pub fn rediscover_topology(
        &self,
        repository: &RepositoryId,
        desired: &GitHubStackTopology,
    ) -> (r:
        Result<Option<GitHubStackGeneration>, GitHubStackMutationError>)
        requires
            command::reads_allowed(self.runner),
        ensures
            rediscovered(
                self.runner,
                repository.deep_view(),
                desired.deep_view(),
                stack::stack_view(r),
            ),
    {
        let read = self.exact_inventory(repository);
        assert(whole_inventory_read(
            self.runner,
            repository.deep_view(),
            stack::stack_view(read),
        ));
        match read {
            Err(error) => Err(error),
            Ok(inventory) => self.find_intersecting_generation(repository, &inventory, desired),
        }
    }

    /// Creates a Stack, or proves that an earlier attempt created it. Whatever
    /// the response is, the Stack is read afresh before the outcome is told.
    #[verifier::rlimit(40)]
    pub fn native_stack_create(
        &self,
        repository: &RepositoryId,
        plan: &GitHubStackCreatePlan,
    ) -> (r:
        Result<GitHubStackMutationReceipt, GitHubStackMutationError>)
        requires
            may_create_stack(self.runner, repository.deep_view(), plan.deep_view()),
        ensures
            stack_created(
                self.runner,
                repository.deep_view(),
                plan.deep_view(),
                stack::stack_view(r),
            ),
    {
        match validate_create_plan(repository, plan) {
            Err(error) => {
                return Err(error);
            },
            Ok(_) => {},
        }
        let found = self.rediscover_topology(repository, &plan.desired);
        assert(rediscovered(
            self.runner,
            repository.deep_view(),
            plan.deep_view().desired,
            stack::stack_view(found),
        ));
        match found {
            Err(error) => {
                return Err(error);
            },
            Ok(Some(existing)) => {
                return judge_existing(repository, plan, existing);
            },
            Ok(None) => {},
        }
        let fresh = self.verify_topology_fresh(repository, &plan.desired);
        assert(topology_fresh(
            self.runner,
            repository.deep_view(),
            plan.deep_view().desired,
            stack::stack_view(fresh),
        ));
        match fresh {
            Err(error) => {
                return Err(error);
            },
            Ok(_) => {},
        }
        self.send_creation(repository, plan)
    }

    /// Asks for a Stack and reads it afresh.
    #[verifier::rlimit(40)]
    fn send_creation(&self, repository: &RepositoryId, plan: &GitHubStackCreatePlan) -> (r: Result<
        GitHubStackMutationReceipt,
        GitHubStackMutationError,
    >)
        requires
            command::reads_allowed(self.runner),
            self.runner.allows(
                stack::stack_create(repository.deep_view(), plan.deep_view().desired),
            ),
        ensures
            create_sent(
                self.runner,
                repository.deep_view(),
                plan.deep_view(),
                stack::stack_view(r),
            ),
    {
        let change = StackChange {
            repository: repository.dup(),
            operation_id: plan.operation_id.dup(),
            actor: plan.actor.dup(),
            operation: GitHubStackMutationOperation::Create,
            request: create_request(repository, &plan.desired),
            before: None,
            desired: Some(plan.desired.dup()),
            command: native_stack_create_command(repository, &plan.desired),
        };
        let desired = &plan.desired;
        let see = |sent: &Sent| -> (seen: Result<
            Option<GitHubStackGeneration>,
            GitHubStackMutationError,
        >)
            requires
                self.may_read(),
            ensures
                self.seen_topology(repository, desired, sent, &seen),
            { self.see_topology(repository, desired, sent) };
        perform(&self.runner, &change, Ok(Granted), see)
    }

    /// Whether every read may be run.
    pub open spec fn may_read(&self) -> bool {
        command::reads_allowed(self.runner)
    }

    /// Reading the Stack of a topology after a request was sent may end so.
    pub open spec fn seen_topology(
        &self,
        repository: &RepositoryId,
        desired: &GitHubStackTopology,
        sent: &Sent,
        seen: &Result<Option<GitHubStackGeneration>, GitHubStackMutationError>,
    ) -> bool {
        rediscovered(
            command::after(&self.runner, sent),
            repository.deep_view(),
            desired.deep_view(),
            stack::stack_view(*seen),
        )
    }

    /// Reads the Stack of a topology after a request was sent.
    fn see_topology(
        &self,
        repository: &RepositoryId,
        desired: &GitHubStackTopology,
        sent: &Sent,
    ) -> (r: Result<Option<GitHubStackGeneration>, GitHubStackMutationError>)
        requires
            command::reads_allowed(self.runner),
        ensures
            self.seen_topology(repository, desired, sent, &r),
    {
        self.after(sent).rediscover_topology(repository, desired)
    }

    /// Reading a Stack after a request was sent may end so.
    pub open spec fn seen_generation(
        &self,
        repository: &RepositoryId,
        number: u64,
        allowed: Option<PrNumber>,
        sent: &Sent,
        seen: &Result<Option<GitHubStackGeneration>, GitHubStackMutationError>,
    ) -> bool {
        generation_read_allowing(
            command::after(&self.runner, sent),
            repository.deep_view(),
            number,
            allowed,
            stack::stack_view(*seen),
        )
    }

    /// Reads a Stack after a request was sent.
    fn see_generation(
        &self,
        repository: &RepositoryId,
        number: u64,
        allowed: Option<PrNumber>,
        sent: &Sent,
    ) -> (r: Result<Option<GitHubStackGeneration>, GitHubStackMutationError>)
        requires
            command::reads_allowed(self.runner),
        ensures
            self.seen_generation(repository, number, allowed, sent, &r),
    {
        self.after(sent).native_stack_generation_allowing_stale_tail_base(
            repository,
            number,
            allowed,
        )
    }

    fn complete_known_stack_mutation(
        &self,
        repository: &RepositoryId,
        operation_id: &str,
        actor: &str,
        operation: GitHubStackMutationOperation,
        before: &GitHubStackGeneration,
        desired_after: Option<GitHubStackTopology>,
        request: GitHubStackRequestIdentity,
        command: &CommandSpec,
        allowed: Option<PrNumber>,
    ) -> (r: Result<GitHubStackMutationReceipt, GitHubStackMutationError>)
        requires
            command::reads_allowed(self.runner),
            self.runner.allows(command.deep_view()),
        ensures
            change_sent(
                self.runner,
                repository.deep_view(),
                operation_id@,
                actor@,
                operation,
                before.deep_view(),
                desired_after.deep_view(),
                request.deep_view(),
                command.deep_view(),
                allowed,
                stack::stack_view(r),
            ),
    {
        let number: u64 = before.number;
        let change = StackChange {
            repository: repository.dup(),
            operation_id: operation_id.to_owned(),
            actor: actor.to_owned(),
            operation,
            request,
            before: Some(before.dup()),
            desired: desired_after,
            command: command.dup(),
        };
        let see = |sent: &Sent| -> (seen: Result<
            Option<GitHubStackGeneration>,
            GitHubStackMutationError,
        >)
            requires
                self.may_read(),
            ensures
                self.seen_generation(repository, number, allowed, sent, &seen),
            { self.see_generation(repository, number, allowed, sent) };
        perform(&self.runner, &change, Ok(Granted), see)
    }

    /// Appends exactly the desired suffix to an exact generation of a Stack.
    pub fn native_stack_add(
        &self,
        repository: &RepositoryId,
        plan: &GitHubStackAddPlan,
    ) -> (r: Result<
        GitHubStackMutationReceipt,
        GitHubStackMutationError,
    >)
        requires
            may_add_to_stack(self.runner, repository.deep_view(), plan.deep_view()),
        ensures
            stack_added(
                self.runner,
                repository.deep_view(),
                plan.deep_view(),
                stack::stack_view(r),
            ),
    {
        match validate_add_plan(repository, plan) {
            Err(error) => {
                return Err(error);
            },
            Ok(_) => {},
        }
        let read = self.native_stack_generation(repository, plan.before.number);
        assert(generation_read(
            self.runner,
            repository.deep_view(),
            plan.deep_view().before.number,
            stack::stack_view(read),
        ));
        let actual = match read {
            Err(error) => {
                return Err(error);
            },
            Ok(actual) => actual,
        };
        let known = Some(plan.before.dup());
        if is_met(&known, &Some(plan.desired.dup()), &actual) {
            return Ok(
                stack_receipt(
                    repository,
                    plan.operation_id.as_str(),
                    plan.actor.as_str(),
                    GitHubStackMutationOperation::Add,
                    GitHubStackMutationDisposition::AlreadySatisfied,
                    add_request(repository, plan),
                    actual.dup(),
                    actual,
                    None,
                ),
            );
        }
        if actual.is_none() {
            return Err(stale_topology(&plan.before.topology, &None));
        }
        if !actual.same(&known) {
            return Err(stale_generation(&plan.before, &actual));
        }
        let fresh = self.verify_topology_fresh(repository, &plan.desired);
        assert(topology_fresh(
            self.runner,
            repository.deep_view(),
            plan.deep_view().desired,
            stack::stack_view(fresh),
        ));
        match fresh {
            Err(error) => {
                return Err(error);
            },
            Ok(_) => {},
        }
        let lease = self.native_stack_generation(repository, plan.before.number);
        assert(generation_read(
            self.runner,
            repository.deep_view(),
            plan.deep_view().before.number,
            stack::stack_view(lease),
        ));
        let held = match lease {
            Err(error) => {
                return Err(error);
            },
            Ok(held) => held,
        };
        if !held.same(&known) {
            return Err(stale_generation(&plan.before, &held));
        }
        self.complete_known_stack_mutation(
            repository,
            plan.operation_id.as_str(),
            plan.actor.as_str(),
            GitHubStackMutationOperation::Add,
            &plan.before,
            Some(plan.desired.dup()),
            add_request(repository, plan),
            &native_stack_add_command(repository, plan),
            None,
        )
    }

    /// Takes an exact generation of a Stack apart. What comes after is not part
    /// of this operation: the receipt tells only what this call proved.
    pub fn native_stack_unstack(
        &self,
        repository: &RepositoryId,
        plan: &GitHubStackUnstackPlan,
    ) -> (r:
        Result<GitHubStackMutationReceipt, GitHubStackMutationError>)
        requires
            may_unstack(self.runner, repository.deep_view(), plan.deep_view(), None),
        ensures
            unstacked(
                self.runner,
                repository.deep_view(),
                plan.deep_view(),
                None,
                stack::stack_view(r),
            ),
    {
        self.native_stack_unstack_allowing_stale_tail_base(repository, plan, None)
    }

    /// Takes an exact generation of a Stack apart whose tail, if it is the one
    /// pull request that this is allowed to, may stand on an earlier generation
    /// of the branch below it.
    pub fn native_stack_unstack_allowing_stale_tail_base(
        &self,
        repository: &RepositoryId,
        plan: &GitHubStackUnstackPlan,
        allowed: Option<PrNumber>,
    ) -> (r: Result<GitHubStackMutationReceipt, GitHubStackMutationError>)
        requires
            may_unstack(self.runner, repository.deep_view(), plan.deep_view(), allowed),
        ensures
            unstacked(
                self.runner,
                repository.deep_view(),
                plan.deep_view(),
                allowed,
                stack::stack_view(r),
            ),
    {
        match validate_unstack_plan(repository, plan, allowed) {
            Err(error) => {
                return Err(error);
            },
            Ok(_) => {},
        }
        let read = self.native_stack_generation_allowing_stale_tail_base(
            repository,
            plan.before.number,
            allowed,
        );
        assert(generation_read_allowing(
            self.runner,
            repository.deep_view(),
            plan.deep_view().before.number,
            allowed,
            stack::stack_view(read),
        ));
        let actual = match read {
            Err(error) => {
                return Err(error);
            },
            Ok(actual) => actual,
        };
        let known = Some(plan.before.dup());
        if is_met(&known, &plan.desired_after, &actual) {
            return Ok(
                stack_receipt(
                    repository,
                    plan.operation_id.as_str(),
                    plan.actor.as_str(),
                    GitHubStackMutationOperation::Unstack,
                    GitHubStackMutationDisposition::AlreadySatisfied,
                    unstack_request(repository, plan.before.number),
                    actual.dup(),
                    actual,
                    None,
                ),
            );
        }
        if actual.is_none() {
            return Err(stale_topology(&plan.before.topology, &None));
        }
        if !actual.same(&known) {
            return Err(stale_generation(&plan.before, &actual));
        }
        self.complete_known_stack_mutation(
            repository,
            plan.operation_id.as_str(),
            plan.actor.as_str(),
            GitHubStackMutationOperation::Unstack,
            &plan.before,
            plan.desired_after.dup(),
            unstack_request(repository, plan.before.number),
            &native_stack_unstack_command(repository, plan.before.number),
            allowed,
        )
    }
}

} // verus!
