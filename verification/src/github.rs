//! Provider access.

pub mod provider;
pub mod commands;
pub mod raw;
pub mod facts;
pub mod command_laws;
pub mod one_write;
pub mod pr_operations;
pub mod adapter;
pub mod force;
pub mod mutations;
pub mod mutation_laws;
pub mod runs;
pub mod run_laws;
pub mod fact_laws;
pub mod required_policy;
pub mod policy_laws;
pub mod evidence;
pub mod stack;
pub mod stack_adapter;
pub mod stack_laws;
pub mod stack_lock;
pub mod lock_laws;
pub mod stack_merge;
pub mod merge_laws;
pub mod merge_fact_laws;
pub mod stack_land;
pub mod land_laws;
pub mod stack_reshape;
pub mod reshape_laws;
pub mod reshape_fact_laws;
pub mod reshape_step_laws;
pub mod candidates;
pub mod candidate_laws;
pub mod discovery;
pub mod discovery_laws;
pub mod history;
pub mod history_laws;
pub mod write_laws;

pub use crate::github::adapter::GitHubMutationAdapter;
pub use crate::github::discovery::GitHubDiscovery;
pub use crate::github::facts::{
    control_label_marker, ControlLabelAudit, CreatePullRequestInput, DefaultBranchPolicy,
    DiscoveryOptions, GitHubMutationReceipt, GitHubRateLimits, GitHubRestRateLimit, MutationKind,
    WorkflowRunSnapshot,
};
pub use crate::github::provider::{
    DiscoveryError, JsonDecodeEvidence, MutationError, PullRequestPrecondition,
};
pub use crate::github::raw::RepositoryLabel;
pub use crate::github::stack::{
    GitHubStackAddPlan, GitHubStackCreatePlan, GitHubStackEntryGeneration, GitHubStackGeneration,
    GitHubStackMutationDisposition, GitHubStackMutationError, GitHubStackMutationOperation,
    GitHubStackMutationReceipt, GitHubStackRequestIdentity, GitHubStackTopology,
    GitHubStackUnstackPlan,
};
pub use crate::github::stack_land::{
    GitHubStackLandCheckpoint, GitHubStackLandError, GitHubStackLandPhase,
};
pub use crate::github::stack_lock::{
    GitHubStackBranchLockDisposition, GitHubStackBranchLockError, GitHubStackBranchLockGeneration,
    GitHubStackBranchLockOperation, GitHubStackBranchLockPlan, GitHubStackBranchLockReceipt,
};
pub use crate::github::stack_merge::{
    plan_github_stack_ready_prefix, GitHubStackAsyncMergePlan, GitHubStackBlockedEntry,
    GitHubStackMergeAction, GitHubStackMergeBlocker, GitHubStackMergeCheckpoint,
    GitHubStackMergeEntryEvidence, GitHubStackMergeError, GitHubStackMergeMethod,
    GitHubStackMergeObservation, GitHubStackMergePullRequestObservation, GitHubStackMergeReceipt,
    GitHubStackMergeRequestIdentity, GitHubStackMergeStatus, GitHubStackReadyPrefix,
};
pub use crate::github::stack_reshape::{
    GitHubStackReshapeCheckpoint, GitHubStackReshapeError, GitHubStackReshapeOperation,
    GitHubStackReshapePhase, GitHubStackReshapePlan, GitHubStackReshapePrPostcondition,
};
