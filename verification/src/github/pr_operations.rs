//! The operations on pull requests, as operations of one write.

use vstd::prelude::*;
use vstd::string::*;
use crate::command;
use crate::command::{
    CommandOutput, CommandOutputView, CommandRunError, CommandSpec, CommandSpecView, Reply,
};
use crate::github::adapter;
use crate::github::adapter::trimmed_provider_output;
use crate::github::facts::{GitHubMutationReceipt, GitHubMutationReceiptView, MutationKind};
use crate::github::mutations;
use crate::github::mutations::url_of_creation;
use crate::github::one_write::{Granted, OneWrite};
use crate::github::provider;
use crate::github::provider::{DiscoveryError, MutationError, MutationErrorView};
use crate::model::{Model, PullRequestSnapshot, PullRequestSnapshotView};
use crate::text::trim;

verus! {

/// The output of a command that must end with status zero, or its failure.
pub open spec fn shown_by(command: CommandSpecView, reply: Reply) -> Result<
    CommandOutputView,
    MutationErrorView,
> {
    adapter::lifted(provider::checked(command, reply))
}

/// The failure of a command that must end with status zero, if it failed.
pub fn failure_of(
    command: &CommandSpec,
    reply: &Result<CommandOutput, CommandRunError>,
) -> (r: Option<MutationError>)
    ensures
        match r {
            Some(error) => shown_by(command.deep_view(), command::reply_view(*reply)) == Err::<
                CommandOutputView,
                _,
            >(error.deep_view()),
            None => reply is Ok && shown_by(command.deep_view(), command::reply_view(*reply))
                == Ok::<_, MutationErrorView>(reply->Ok_0.deep_view()),
        },
{
    match reply {
        Err(error) => Some(MutationError::Provider(DiscoveryError::Runner(error.dup()))),
        Ok(output) => if output.is_success() {
            None
        } else {
            let stderr = trim(output.stderr.as_str());
            Some(
                MutationError::Provider(
                    DiscoveryError::CommandFailed {
                        command: command.dup(),
                        code: output.code,
                        stderr,
                    },
                ),
            )
        },
    }
}

/// The receipt of an operation whose pull request was read back.
pub open spec fn receipt_of(
    kind: MutationKind,
    before: Option<PullRequestSnapshotView>,
    provider_output: Option<Seq<char>>,
    seen: Result<PullRequestSnapshotView, MutationErrorView>,
) -> Result<GitHubMutationReceiptView, MutationErrorView> {
    match seen {
        Ok(after) => Ok(GitHubMutationReceiptView { kind, before, after, provider_output }),
        Err(error) => Err(error),
    }
}

fn make_receipt(
    kind: MutationKind,
    before: Option<PullRequestSnapshot>,
    provider_output: Option<String>,
    seen: Result<PullRequestSnapshot, MutationError>,
) -> (r: Result<GitHubMutationReceipt, MutationError>)
    ensures
        adapter::outcome_view(r) == receipt_of(
            kind,
            before.deep_view(),
            provider_output.deep_view(),
            adapter::outcome_view(seen),
        ),
{
    match seen {
        Ok(after) => Ok(GitHubMutationReceipt { kind, before, after, provider_output }),
        Err(error) => Err(error),
    }
}

/// What a provider showed in its answer, where there is any.
pub open spec fn shown_in(reply: Reply) -> Option<Seq<char>> {
    match reply {
        Ok(output) => adapter::shown_output(output),
        Err(_) => None,
    }
}

fn find_shown(reply: &Result<CommandOutput, CommandRunError>) -> (r: Option<String>)
    ensures
        r.deep_view() == shown_in(command::reply_view(*reply)),
{
    match reply {
        Ok(output) => trimmed_provider_output(output),
        Err(_) => None,
    }
}

// ---------------------------------------------------------------------------
// One command on a confirmed pull request
// ---------------------------------------------------------------------------

/// One command on a pull request whose facts were confirmed.
pub struct PrOperation {
    pub kind: MutationKind,
    pub command: CommandSpec,
}

impl OneWrite for PrOperation {
    type Kept = PullRequestSnapshot;

    type Seen = Result<PullRequestSnapshot, MutationError>;

    type SeenView = Result<PullRequestSnapshotView, MutationErrorView>;

    type Outcome = Result<GitHubMutationReceipt, MutationError>;

    type OutcomeView = Result<GitHubMutationReceiptView, MutationErrorView>;

    open spec fn seen_view(seen: Self::Seen) -> Self::SeenView {
        adapter::outcome_view(seen)
    }

    open spec fn outcome_view(outcome: Self::Outcome) -> Self::OutcomeView {
        adapter::outcome_view(outcome)
    }

    open spec fn request(&self, kept: PullRequestSnapshotView) -> CommandSpecView {
        self.command.deep_view()
    }

    open spec fn closed(&self, kept: PullRequestSnapshotView, reply: Reply) -> Option<
        Self::OutcomeView,
    > {
        match shown_by(self.command.deep_view(), reply) {
            Err(error) => Some(Err(error)),
            Ok(_) => None,
        }
    }

    open spec fn concluded(
        &self,
        kept: PullRequestSnapshotView,
        reply: Reply,
        seen: Self::SeenView,
    ) -> Self::OutcomeView {
        receipt_of(self.kind, Some(kept), shown_in(reply), seen)
    }

    fn make_request(&self, kept: &PullRequestSnapshot) -> (r: CommandSpec) {
        self.command.dup()
    }

    fn close(
        &self,
        kept: &PullRequestSnapshot,
        reply: &Result<CommandOutput, CommandRunError>,
    ) -> (r: Option<Self::Outcome>) {
        match failure_of(&self.command, reply) {
            Some(error) => Some(Err(error)),
            None => None,
        }
    }

    fn conclude(
        &self,
        kept: PullRequestSnapshot,
        reply: &Result<CommandOutput, CommandRunError>,
        seen: Self::Seen,
    ) -> (r: Self::Outcome) {
        make_receipt(self.kind, Some(kept), find_shown(reply), seen)
    }
}

// ---------------------------------------------------------------------------
// Creation
// ---------------------------------------------------------------------------

/// The creation of a pull request.
pub struct PrCreation {
    pub command: CommandSpec,
}

impl OneWrite for PrCreation {
    type Kept = Granted;

    type Seen = Result<PullRequestSnapshot, MutationError>;

    type SeenView = Result<PullRequestSnapshotView, MutationErrorView>;

    type Outcome = Result<GitHubMutationReceipt, MutationError>;

    type OutcomeView = Result<GitHubMutationReceiptView, MutationErrorView>;

    open spec fn seen_view(seen: Self::Seen) -> Self::SeenView {
        adapter::outcome_view(seen)
    }

    open spec fn outcome_view(outcome: Self::Outcome) -> Self::OutcomeView {
        adapter::outcome_view(outcome)
    }

    open spec fn request(&self, kept: ()) -> CommandSpecView {
        self.command.deep_view()
    }

    open spec fn closed(&self, kept: (), reply: Reply) -> Option<Self::OutcomeView> {
        match shown_by(self.command.deep_view(), reply) {
            Err(error) => Some(Err(error)),
            Ok(shown) => match mutations::created_url(shown) {
                Err(error) => Some(Err(error)),
                Ok(_) => None,
            },
        }
    }

    open spec fn concluded(
        &self,
        kept: (),
        reply: Reply,
        seen: Self::SeenView,
    ) -> Self::OutcomeView {
        receipt_of(MutationKind::CreatePullRequest, None, shown_in(reply), seen)
    }

    fn make_request(&self, kept: &Granted) -> (r: CommandSpec) {
        self.command.dup()
    }

    fn close(
        &self,
        kept: &Granted,
        reply: &Result<CommandOutput, CommandRunError>,
    ) -> (r: Option<Self::Outcome>) {
        match failure_of(&self.command, reply) {
            Some(error) => Some(Err(error)),
            None => match reply {
                Ok(output) => match url_of_creation(output) {
                    Err(error) => Some(Err(error)),
                    Ok(_) => None,
                },
                Err(_) => None,
            },
        }
    }

    fn conclude(
        &self,
        kept: Granted,
        reply: &Result<CommandOutput, CommandRunError>,
        seen: Self::Seen,
    ) -> (r: Self::Outcome) {
        make_receipt(MutationKind::CreatePullRequest, None, find_shown(reply), seen)
    }
}

// ---------------------------------------------------------------------------
// Comments
// ---------------------------------------------------------------------------

/// A comment on a pull request whose facts were confirmed.
pub struct PrComment {
    pub command: CommandSpec,
    pub marker: String,
}

/// What stands for a comment in its receipt: what the provider shows, or the
/// marker.
pub open spec fn comment_shown(marker: Seq<char>, reply: Reply) -> Seq<char> {
    match shown_in(reply) {
        Some(value) => value,
        None => marker,
    }
}

impl OneWrite for PrComment {
    type Kept = PullRequestSnapshot;

    type Seen = Result<PullRequestSnapshot, MutationError>;

    type SeenView = Result<PullRequestSnapshotView, MutationErrorView>;

    type Outcome = Result<GitHubMutationReceipt, MutationError>;

    type OutcomeView = Result<GitHubMutationReceiptView, MutationErrorView>;

    open spec fn seen_view(seen: Self::Seen) -> Self::SeenView {
        adapter::outcome_view(seen)
    }

    open spec fn outcome_view(outcome: Self::Outcome) -> Self::OutcomeView {
        adapter::outcome_view(outcome)
    }

    open spec fn request(&self, kept: PullRequestSnapshotView) -> CommandSpecView {
        self.command.deep_view()
    }

    open spec fn closed(&self, kept: PullRequestSnapshotView, reply: Reply) -> Option<
        Self::OutcomeView,
    > {
        match shown_by(self.command.deep_view(), reply) {
            Err(error) => Some(Err(error)),
            Ok(_) => None,
        }
    }

    open spec fn concluded(
        &self,
        kept: PullRequestSnapshotView,
        reply: Reply,
        seen: Self::SeenView,
    ) -> Self::OutcomeView {
        receipt_of(
            MutationKind::Comment,
            Some(kept),
            Some(comment_shown(self.marker@, reply)),
            seen,
        )
    }

    fn make_request(&self, kept: &PullRequestSnapshot) -> (r: CommandSpec) {
        self.command.dup()
    }

    fn close(
        &self,
        kept: &PullRequestSnapshot,
        reply: &Result<CommandOutput, CommandRunError>,
    ) -> (r: Option<Self::Outcome>) {
        match failure_of(&self.command, reply) {
            Some(error) => Some(Err(error)),
            None => None,
        }
    }

    fn conclude(
        &self,
        kept: PullRequestSnapshot,
        reply: &Result<CommandOutput, CommandRunError>,
        seen: Self::Seen,
    ) -> (r: Self::Outcome) {
        let shown = match find_shown(reply) {
            Some(value) => value,
            None => self.marker.dup(),
        };
        make_receipt(MutationKind::Comment, Some(kept), Some(shown), seen)
    }
}

} // verus!
