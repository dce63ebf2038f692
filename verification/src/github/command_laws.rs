//! What the commands that change a pull request or a run name: the repository,
//! the pull request, and the head or the label that the change is about. Two of
//! them are the same only where all of that is.

use vstd::prelude::*;
use crate::github::commands;
use crate::github::facts;
use crate::model;
use crate::model::{PrNumber, RepositoryIdView};
use crate::text;

verus! {

/// The command names the pull request, and the repository behind `--repo`.
pub open spec fn names_pull(
    args: Seq<Seq<char>>,
    repository: RepositoryIdView,
    number: PrNumber,
) -> bool {
    &&& args.len() > 4
    &&& args[0] == "pr"@
    &&& args[2] == text::decimal(number.0 as nat)
    &&& args[3] == "--repo"@
    &&& args[4] == repository.owner + "/"@ + repository.name
}

/// A merge is held to a head: the command names it behind
/// `--match-head-commit`, squashes, and uses no administrator rights.
pub proof fn lemma_merge_is_held_to_its_head(
    repository: RepositoryIdView,
    number: PrNumber,
    head: Seq<char>,
)
    ensures
        ({
            let args = commands::squash_merge(repository, number, head).args;
            &&& names_pull(args, repository, number)
            &&& args[1] == "merge"@
            &&& args.len() == 8
            &&& args[5] == "--squash"@
            &&& args[6] == "--match-head-commit"@
            &&& args[7] == head
        }),
{
}

/// A merge as administrator says so, and squashes.
pub proof fn lemma_admin_merge_says_so(repository: RepositoryIdView, number: PrNumber)
    ensures
        ({
            let args = commands::admin_squash_merge(repository, number).args;
            &&& names_pull(args, repository, number)
            &&& args[1] == "merge"@
            &&& args.len() == 7
            &&& args[5] == "--admin"@
            &&& args[6] == "--squash"@
        }),
{
}

/// Auto-merge is armed with a squash, or disarmed, as asked.
pub proof fn lemma_auto_merge_is_as_asked(
    repository: RepositoryIdView,
    number: PrNumber,
    disable: bool,
)
    ensures
        ({
            let args = commands::auto_merge(repository, number, disable).args;
            &&& names_pull(args, repository, number)
            &&& args[1] == "merge"@
            &&& disable ==> args.len() == 6 && args[5] == "--disable-auto"@
            &&& !disable ==> args.len() == 7 && args[5] == "--auto"@ && args[6] == "--squash"@
        }),
{
}

/// An edit names the flag and its value, and a comment its text.
pub proof fn lemma_edits_name_their_value(
    repository: RepositoryIdView,
    number: PrNumber,
    flag: Seq<char>,
    value: Seq<char>,
)
    ensures
        ({
            let edit = commands::edit_pull_request(repository, number, flag, value).args;
            let comment = commands::comment_pull_request(repository, number, value).args;
            &&& names_pull(edit, repository, number)
            &&& edit[1] == "edit"@
            &&& edit.len() == 7
            &&& edit[5] == flag
            &&& edit[6] == value
            &&& names_pull(comment, repository, number)
            &&& comment[1] == "comment"@
            &&& comment.len() == 7
            &&& comment[5] == "--body"@
            &&& comment[6] == value
        }),
{
}

/// Edits of different pull requests, or to different values, are different
/// commands.
pub proof fn lemma_different_edits_differ(
    repository: RepositoryIdView,
    a: PrNumber,
    b: PrNumber,
    flag: Seq<char>,
    x: Seq<char>,
    y: Seq<char>,
)
    requires
        commands::edit_pull_request(repository, a, flag, x) == commands::edit_pull_request(
            repository,
            b,
            flag,
            y,
        ),
    ensures
        a == b,
        x == y,
{
    let first = commands::edit_pull_request(repository, a, flag, x).args;
    let second = commands::edit_pull_request(repository, b, flag, y).args;
    assert(first[2] == second[2]);
    assert(first[6] == second[6]);
    facts::lemma_decimal_is_injective(a.0 as nat, b.0 as nat);
}

/// A pull request is created from just this head into just this base, and as a
/// draft exactly where asked.
pub proof fn lemma_creation_names_both_branches(
    repository: RepositoryIdView,
    head: Seq<char>,
    base: Seq<char>,
    draft: bool,
)
    ensures
        ({
            let args = commands::create_pull_request(repository, head, base, draft).args;
            &&& args[0] == "pr"@
            &&& args[1] == "create"@
            &&& args[3] == repository.owner + "/"@ + repository.name
            &&& args[4] == "--head"@
            &&& args[5] == head
            &&& args[6] == "--base"@
            &&& args[7] == base
            &&& args.len() == if draft {
                10nat
            } else {
                9nat
            }
            &&& draft ==> args[9] == "--draft"@
        }),
{
}

/// The failed jobs of just one run are repeated.
pub proof fn lemma_rerun_names_its_run(repository: RepositoryIdView, run_id: u64)
    ensures
        ({
            let args = commands::rerun_failed(repository, run_id).args;
            &&& args.len() == 6
            &&& args[0] == "run"@
            &&& args[1] == "rerun"@
            &&& args[2] == text::decimal(run_id as nat)
            &&& args[4] == repository.owner + "/"@ + repository.name
            &&& args[5] == "--failed"@
        }),
{
}

/// One request changes a label only where it names one, and arms auto-merge only
/// where asked; a label is added where it is desired and removed where it is not.
pub proof fn lemma_force_asks_for_what_is_desired(labelled: bool, present: bool, arm: bool)
    ensures
        ({
            let fields = commands::force_fields(labelled, present, arm);
            let arming =
                "forceAutoMerge:enablePullRequestAutoMerge(input:{pullRequestId:$pullRequestId,mergeMethod:SQUASH}){clientMutationId}"@;
            let change = "forceLabel:"@ + (if present {
                "addLabelsToLabelable"@
            } else {
                "removeLabelsFromLabelable"@
            }) + "(input:{labelableId:$pullRequestId,labelIds:[$labelId]}){clientMutationId}"@;
            &&& arm ==> fields[0] == arming
            &&& labelled ==> fields[fields.len() - 1] == change
            &&& fields.len() == (if arm {
                1nat
            } else {
                0nat
            }) + (if labelled {
                1nat
            } else {
                0nat
            })
        }),
{
}

} // verus!
