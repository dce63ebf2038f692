//! The commands that read and change provider state.

use vstd::prelude::*;
use vstd::string::*;
use vstd::utf8;
use crate::command;
use crate::command::{CommandSpec, CommandSpecView};
use crate::model;
use crate::model::{push_item, CommitOid, Model, PrNumber, RepositoryId, RepositoryIdView};
use crate::text;
use crate::text::{decimal_text, join, text_eq};

verus! {

/// The fields of a pull request that provider reads ask for.
pub const PR_JSON_FIELDS: &'static str =
    "number,title,body,state,isDraft,headRefName,headRefOid,headRepository,headRepositoryOwner,isCrossRepository,baseRefName,baseRefOid,labels,autoMergeRequest,statusCheckRollup,createdAt,mergedAt,url,updatedAt";

/// The fields of a historical pull request: merged predecessors are graph
/// history, never check candidates, so the rollup is left out.
pub const PR_HISTORY_JSON_FIELDS: &'static str =
    "number,title,state,isDraft,headRefName,headRefOid,headRepository,headRepositoryOwner,isCrossRepository,baseRefName,baseRefOid,labels,autoMergeRequest,createdAt,mergedAt,url,updatedAt";

/// The fields that carry generation facts.
pub const GENERATION_PR_JSON_FIELDS: &'static str =
    "number,body,headRefName,headRefOid,createdAt";

/// The fields of a workflow run.
pub const WORKFLOW_RUN_JSON_FIELDS: &'static str =
    "databaseId,headSha,status,conclusion,event,name,workflowName,url";

/// Whether a byte stands for itself in a path segment.
pub open spec fn is_unreserved(b: u8) -> bool {
    (48 <= b <= 57) || (65 <= b <= 90) || (97 <= b <= 122) || b == 45 || b == 46 || b == 95 || b
        == 126
}

/// One upper-case hexadecimal digit.
pub open spec fn upper_hex(d: nat) -> char {
    if d < 10 {
        (48 + d) as char
    } else {
        (55 + d) as char
    }
}

/// A byte in a path segment: itself, or a percent sign and two digits.
pub open spec fn encoded_byte(b: u8) -> Seq<char> {
    if is_unreserved(b) {
        seq![b as char]
    } else {
        seq!['%', upper_hex(b as nat / 16), upper_hex(b as nat % 16)]
    }
}

/// Bytes in a path segment.
pub open spec fn encoded_bytes(bytes: Seq<u8>) -> Seq<char>
    decreases bytes.len(),
{
    if bytes.len() == 0 {
        Seq::empty()
    } else {
        encoded_bytes(bytes.drop_last()) + encoded_byte(bytes.last())
    }
}

/// A text as one path segment.
pub open spec fn encoded(s: Seq<char>) -> Seq<char> {
    encoded_bytes(utf8::encode_utf8(s))
}

fn hex_char(d: u8) -> (c: char)
    requires
        d < 16,
    ensures
        c == upper_hex(d as nat),
{
    if d < 10 {
        (48 + d) as char
    } else {
        (55 + d) as char
    }
}

/// A text as one path segment: every byte but unreserved ASCII is escaped.
pub fn encode_path_segment(value: &str) -> (r: String)
    ensures
        r@ == encoded(value@),
{
    let bytes = value.as_bytes();
    let mut out = String::new();
    let mut i: usize = 0;
    while i < bytes.len()
        invariant
            i <= bytes.len(),
            out@ == encoded_bytes(bytes@.take(i as int)),
        decreases bytes.len() - i,
    {
        assert(bytes@.take(i as int + 1).drop_last() =~= bytes@.take(i as int));
        let ghost before = out@;
        let b: u8 = bytes[i];
        if (48 <= b && b <= 57) || (65 <= b && b <= 90) || (97 <= b && b <= 122) || b == 45 || b
            == 46 || b == 95 || b == 126 {
            out.push(b as char);
        } else {
            out.push('%');
            out.push(hex_char(b / 16));
            out.push(hex_char(b % 16));
        }
        assert(out@ =~= before + encoded_byte(b));
        i = i + 1;
    }
    assert(bytes@.take(i as int) =~= bytes@);
    out
}

/// The identity and default branch of the current repository.
pub open spec fn repository() -> CommandSpecView {
    command::gh(seq![
        "repo"@,
        "view"@,
        "--json"@,
        "nameWithOwner,defaultBranchRef"@,
    ])
}

pub fn repository_command() -> (r: CommandSpec)
    ensures
        r.deep_view() == repository(),
{
    let args = vec!["repo", "view", "--json", "nameWithOwner,defaultBranchRef"];
    assert(args.deep_view() =~= repository().args);
    CommandSpec::gh(args)
}

/// The default branch as last fetched.
pub open spec fn previous_default(branch: Seq<char>) -> CommandSpecView {
    command::git(seq![
        "rev-parse"@,
        "--verify"@,
        "refs/remotes/origin/"@ + branch,
    ])
}

pub fn previous_default_command(branch: &str) -> (r: CommandSpec)
    ensures
        r.deep_view() == previous_default(branch@),
{
    let w0 = "refs/remotes/origin/".to_owned().concat(branch);
    let args = vec!["rev-parse", "--verify", w0.as_str()];
    assert(args.deep_view() =~= previous_default(branch@).args);
    CommandSpec::git(args)
}

/// The branch checked out.
pub open spec fn current_branch() -> CommandSpecView {
    command::git(seq![
        "symbolic-ref"@,
        "--quiet"@,
        "--short"@,
        "HEAD"@,
    ])
}

pub fn current_branch_command() -> (r: CommandSpec)
    ensures
        r.deep_view() == current_branch(),
{
    let args = vec!["symbolic-ref", "--quiet", "--short", "HEAD"];
    assert(args.deep_view() =~= current_branch().args);
    CommandSpec::git(args)
}

/// The commit checked out.
pub open spec fn current_head_oid() -> CommandSpecView {
    command::git(seq![
        "rev-parse"@,
        "HEAD"@,
    ])
}

pub fn current_head_oid_command() -> (r: CommandSpec)
    ensures
        r.deep_view() == current_head_oid(),
{
    let args = vec!["rev-parse", "HEAD"];
    assert(args.deep_view() =~= current_head_oid().args);
    CommandSpec::git(args)
}

/// The commit of a branch.
pub open spec fn default_branch(slug: Seq<char>, branch: Seq<char>) -> CommandSpecView {
    command::gh(seq![
        "api"@,
        "repos/"@ + slug + "/git/ref/heads/"@ + encoded(branch),
    ])
}

pub fn default_branch_command(slug: &str, branch: &str) -> (r: CommandSpec)
    ensures
        r.deep_view() == default_branch(slug@, branch@),
{
    let w0 = "repos/".to_owned().concat(slug).concat("/git/ref/heads/").concat(
        encode_path_segment(branch).as_str(),
    );
    let args = vec!["api", w0.as_str()];
    assert(args.deep_view() =~= default_branch(slug@, branch@).args);
    CommandSpec::gh(args)
}

/// The open pull requests.
pub open spec fn open_pr(slug: Seq<char>, limit: usize) -> CommandSpecView {
    command::gh(seq![
        "pr"@,
        "list"@,
        "--repo"@,
        slug,
        "--state"@,
        "open"@,
        "--limit"@,
        text::decimal(limit as nat),
        "--json"@,
        PR_JSON_FIELDS@,
    ])
}

pub fn open_pr_command(slug: &str, limit: usize) -> (r: CommandSpec)
    ensures
        r.deep_view() == open_pr(slug@, limit),
{
    let w0 = decimal_text(limit as u64);
    let args = vec![
        "pr",
        "list",
        "--repo",
        slug,
        "--state",
        "open",
        "--limit",
        w0.as_str(),
        "--json",
        PR_JSON_FIELDS,
    ];
    assert(args.deep_view() =~= open_pr(slug@, limit).args);
    CommandSpec::gh(args)
}

/// One pull request.
pub open spec fn pull_request(
    repository: RepositoryIdView,
    selector: Seq<char>,
) -> CommandSpecView {
    command::gh(seq![
        "pr"@,
        "view"@,
        selector,
        "--repo"@,
        repository.slug(),
        "--json"@,
        PR_JSON_FIELDS@,
    ])
}

pub fn pull_request_command(repository: &RepositoryId, selector: &str) -> (r: CommandSpec)
    ensures
        r.deep_view() == pull_request(repository.deep_view(), selector@),
{
    let w0 = repository.slug();
    let args = vec!["pr", "view", selector, "--repo", w0.as_str(), "--json", PR_JSON_FIELDS];
    assert(args.deep_view() =~= pull_request(repository.deep_view(), selector@).args);
    CommandSpec::gh(args)
}

/// A change of one field of a pull request.
pub open spec fn edit_pull_request(
    repository: RepositoryIdView,
    number: PrNumber,
    flag: Seq<char>,
    value: Seq<char>,
) -> CommandSpecView {
    command::gh(seq![
        "pr"@,
        "edit"@,
        model::pr_text(number),
        "--repo"@,
        repository.slug(),
        flag,
        value,
    ])
}

pub fn edit_pull_request_command(
    repository: &RepositoryId,
    number: PrNumber,
    flag: &str,
    value: &str,
) -> (r: CommandSpec)
    ensures
        r.deep_view() == edit_pull_request(repository.deep_view(), number, flag@, value@),
{
    let w0 = number.to_text();
    let w1 = repository.slug();
    let args = vec!["pr", "edit", w0.as_str(), "--repo", w1.as_str(), flag, value];
    assert(
        args.deep_view() =~= edit_pull_request(repository.deep_view(), number, flag@, value@).args
    );
    CommandSpec::gh(args)
}

/// The provider nodes of a pull request and a label.
pub open spec fn force_transaction_ids(
    repository: RepositoryIdView,
    number: PrNumber,
    label: Seq<char>,
) -> CommandSpecView {
    command::gh(seq![
        "api"@,
        "graphql"@,
        "-f"@,
        "query=query($owner:String!,$name:String!,$number:Int!,$label:String!){repository(owner:$owner,name:$name){pullRequest(number:$number){id} label(name:$label){id}}}"@,
        "-F"@,
        "owner="@ + repository.owner,
        "-F"@,
        "name="@ + repository.name,
        "-F"@,
        "number="@ + model::pr_text(number),
        "-F"@,
        "label="@ + label,
    ])
}

pub fn force_transaction_ids_command(
    repository: &RepositoryId,
    number: PrNumber,
    label: &str,
) -> (r: CommandSpec)
    ensures
        r.deep_view() == force_transaction_ids(repository.deep_view(), number, label@),
{
    let w0 = "owner=".to_owned().concat(repository.owner.as_str());
    let w1 = "name=".to_owned().concat(repository.name.as_str());
    let w2 = "number=".to_owned().concat(number.to_text().as_str());
    let w3 = "label=".to_owned().concat(label);
    let args = vec![
        "api",
        "graphql",
        "-f",
        "query=query($owner:String!,$name:String!,$number:Int!,$label:String!){repository(owner:$owner,name:$name){pullRequest(number:$number){id} label(name:$label){id}}}",
        "-F",
        w0.as_str(),
        "-F",
        w1.as_str(),
        "-F",
        w2.as_str(),
        "-F",
        w3.as_str(),
    ];
    assert(args.deep_view() =~= force_transaction_ids(repository.deep_view(), number, label@).args);
    CommandSpec::gh(args)
}

/// The generation facts of open pull requests.
pub open spec fn open_generation_pr(slug: Seq<char>, limit: usize) -> CommandSpecView {
    command::gh(seq![
        "pr"@,
        "list"@,
        "--repo"@,
        slug,
        "--state"@,
        "open"@,
        "--limit"@,
        text::decimal(limit as nat),
        "--json"@,
        GENERATION_PR_JSON_FIELDS@,
    ])
}

pub fn open_generation_pr_command(slug: &str, limit: usize) -> (r: CommandSpec)
    ensures
        r.deep_view() == open_generation_pr(slug@, limit),
{
    let w0 = decimal_text(limit as u64);
    let args = vec![
        "pr",
        "list",
        "--repo",
        slug,
        "--state",
        "open",
        "--limit",
        w0.as_str(),
        "--json",
        GENERATION_PR_JSON_FIELDS,
    ];
    assert(args.deep_view() =~= open_generation_pr(slug@, limit).args);
    CommandSpec::gh(args)
}

/// The relation of two commits.
pub open spec fn compare_commits(
    repository: RepositoryIdView,
    base: Seq<char>,
    head: Seq<char>,
) -> CommandSpecView {
    command::gh(seq![
        "api"@,
        "repos/"@ + repository.slug() + "/compare/"@ + base + "..."@ + head,
    ])
}

pub fn compare_commits_command(
    repository: &RepositoryId,
    base: &CommitOid,
    head: &CommitOid,
) -> (r: CommandSpec)
    ensures
        r.deep_view() == compare_commits(
            repository.deep_view(),
            base.deep_view(),
            head.deep_view(),
        ),
{
    let w0 = "repos/".to_owned().concat(
        repository.slug().as_str(),
    ).concat("/compare/").concat(base.0.as_str()).concat("...").concat(head.0.as_str());
    let args = vec!["api", w0.as_str()];
    assert(
        args.deep_view() =~= compare_commits(
            repository.deep_view(),
            base.deep_view(),
            head.deep_view(),
        ).args
    );
    CommandSpec::gh(args)
}

/// The failed workflow runs of a commit.
pub open spec fn failed_runs(repository: RepositoryIdView, head_oid: Seq<char>) -> CommandSpecView {
    command::gh(seq![
        "run"@,
        "list"@,
        "--repo"@,
        repository.slug(),
        "--commit"@,
        head_oid,
        "--status"@,
        "failure"@,
        "--limit"@,
        "100"@,
        "--json"@,
        WORKFLOW_RUN_JSON_FIELDS@,
    ])
}

pub fn failed_runs_command(repository: &RepositoryId, head_oid: &str) -> (r: CommandSpec)
    ensures
        r.deep_view() == failed_runs(repository.deep_view(), head_oid@),
{
    let w0 = repository.slug();
    let args = vec![
        "run",
        "list",
        "--repo",
        w0.as_str(),
        "--commit",
        head_oid,
        "--status",
        "failure",
        "--limit",
        "100",
        "--json",
        WORKFLOW_RUN_JSON_FIELDS,
    ];
    assert(args.deep_view() =~= failed_runs(repository.deep_view(), head_oid@).args);
    CommandSpec::gh(args)
}

/// One workflow run.
pub open spec fn workflow_run(repository: RepositoryIdView, run_id: u64) -> CommandSpecView {
    command::gh(seq![
        "api"@,
        "repos/"@ + repository.slug() + "/actions/runs/"@ + text::decimal(run_id as nat),
    ])
}

pub fn workflow_run_command(repository: &RepositoryId, run_id: u64) -> (r: CommandSpec)
    ensures
        r.deep_view() == workflow_run(repository.deep_view(), run_id),
{
    let w0 = "repos/".to_owned().concat(
        repository.slug().as_str(),
    ).concat("/actions/runs/").concat(decimal_text(run_id).as_str());
    let args = vec!["api", w0.as_str()];
    assert(args.deep_view() =~= workflow_run(repository.deep_view(), run_id).args);
    CommandSpec::gh(args)
}

/// A rerun of the failed jobs of one workflow run.
pub open spec fn rerun_failed(repository: RepositoryIdView, run_id: u64) -> CommandSpecView {
    command::gh(seq![
        "run"@,
        "rerun"@,
        text::decimal(run_id as nat),
        "--repo"@,
        repository.slug(),
        "--failed"@,
    ])
}

pub fn rerun_failed_command(repository: &RepositoryId, run_id: u64) -> (r: CommandSpec)
    ensures
        r.deep_view() == rerun_failed(repository.deep_view(), run_id),
{
    let w0 = decimal_text(run_id);
    let w1 = repository.slug();
    let args = vec!["run", "rerun", w0.as_str(), "--repo", w1.as_str(), "--failed"];
    assert(args.deep_view() =~= rerun_failed(repository.deep_view(), run_id).args);
    CommandSpec::gh(args)
}

/// The check suites of a commit.
pub open spec fn check_suites(
    repository: RepositoryIdView,
    head_oid: Seq<char>,
) -> CommandSpecView {
    command::gh(seq![
        "api"@,
        "repos/"@ + repository.slug() + "/commits/"@ + head_oid + "/check-suites?per_page=100"@,
    ])
}

pub fn check_suites_command(repository: &RepositoryId, head_oid: &str) -> (r: CommandSpec)
    ensures
        r.deep_view() == check_suites(repository.deep_view(), head_oid@),
{
    let w0 = "repos/".to_owned().concat(
        repository.slug().as_str(),
    ).concat("/commits/").concat(head_oid).concat("/check-suites?per_page=100");
    let args = vec!["api", w0.as_str()];
    assert(args.deep_view() =~= check_suites(repository.deep_view(), head_oid@).args);
    CommandSpec::gh(args)
}

/// The workflow runs of a commit.
pub open spec fn head_runs(repository: RepositoryIdView, head_oid: Seq<char>) -> CommandSpecView {
    command::gh(seq![
        "api"@,
        "repos/"@ + repository.slug() + "/actions/runs?head_sha="@ + head_oid + "&per_page=100"@,
    ])
}

pub fn head_runs_command(repository: &RepositoryId, head_oid: &str) -> (r: CommandSpec)
    ensures
        r.deep_view() == head_runs(repository.deep_view(), head_oid@),
{
    let w0 = "repos/".to_owned().concat(
        repository.slug().as_str(),
    ).concat("/actions/runs?head_sha=").concat(head_oid).concat("&per_page=100");
    let args = vec!["api", w0.as_str()];
    assert(args.deep_view() =~= head_runs(repository.deep_view(), head_oid@).args);
    CommandSpec::gh(args)
}

/// One commit.
pub open spec fn commit(repository: RepositoryIdView, head_oid: Seq<char>) -> CommandSpecView {
    command::gh(seq![
        "api"@,
        "repos/"@ + repository.slug() + "/commits/"@ + head_oid,
    ])
}

pub fn commit_command(repository: &RepositoryId, head_oid: &str) -> (r: CommandSpec)
    ensures
        r.deep_view() == commit(repository.deep_view(), head_oid@),
{
    let w0 = "repos/".to_owned().concat(
        repository.slug().as_str(),
    ).concat("/commits/").concat(head_oid);
    let args = vec!["api", w0.as_str()];
    assert(args.deep_view() =~= commit(repository.deep_view(), head_oid@).args);
    CommandSpec::gh(args)
}

/// One check suite.
pub open spec fn check_suite(repository: RepositoryIdView, check_suite_id: u64) -> CommandSpecView {
    command::gh(seq![
        "api"@,
        "repos/"@ + repository.slug() + "/check-suites/"@ + text::decimal(check_suite_id as nat),
    ])
}

pub fn check_suite_command(repository: &RepositoryId, check_suite_id: u64) -> (r: CommandSpec)
    ensures
        r.deep_view() == check_suite(repository.deep_view(), check_suite_id),
{
    let w0 = "repos/".to_owned().concat(
        repository.slug().as_str(),
    ).concat("/check-suites/").concat(decimal_text(check_suite_id).as_str());
    let args = vec!["api", w0.as_str()];
    assert(args.deep_view() =~= check_suite(repository.deep_view(), check_suite_id).args);
    CommandSpec::gh(args)
}

/// A new request of one check suite.
pub open spec fn rerequest_check_suite(
    repository: RepositoryIdView,
    check_suite_id: u64,
) -> CommandSpecView {
    command::gh(seq![
        "api"@,
        "--method"@,
        "POST"@,
        "repos/"@ + repository.slug() + "/check-suites/"@ + text::decimal(
            check_suite_id as nat,
        ) + "/rerequest"@,
    ])
}

pub fn rerequest_check_suite_command(
    repository: &RepositoryId,
    check_suite_id: u64,
) -> (r: CommandSpec)
    ensures
        r.deep_view() == rerequest_check_suite(repository.deep_view(), check_suite_id),
{
    let w0 = "repos/".to_owned().concat(
        repository.slug().as_str(),
    ).concat("/check-suites/").concat(decimal_text(check_suite_id).as_str()).concat("/rerequest");
    let args = vec!["api", "--method", "POST", w0.as_str()];
    assert(args.deep_view() =~= rerequest_check_suite(repository.deep_view(), check_suite_id).args);
    CommandSpec::gh(args)
}

/// The settings of a branch.
pub open spec fn branch_settings(
    repository: RepositoryIdView,
    branch: Seq<char>,
) -> CommandSpecView {
    command::gh(seq![
        "api"@,
        "repos/"@ + repository.slug() + "/branches/"@ + encoded(branch),
    ])
}

pub fn branch_settings_command(repository: &RepositoryId, branch: &str) -> (r: CommandSpec)
    ensures
        r.deep_view() == branch_settings(repository.deep_view(), branch@),
{
    let w0 = "repos/".to_owned().concat(
        repository.slug().as_str(),
    ).concat("/branches/").concat(encode_path_segment(branch).as_str());
    let args = vec!["api", w0.as_str()];
    assert(args.deep_view() =~= branch_settings(repository.deep_view(), branch@).args);
    CommandSpec::gh(args)
}

/// The protection of a branch.
pub open spec fn branch_protection(
    repository: RepositoryIdView,
    branch: Seq<char>,
) -> CommandSpecView {
    command::gh(seq![
        "api"@,
        "repos/"@ + repository.slug() + "/branches/"@ + encoded(branch) + "/protection"@,
    ])
}

pub fn branch_protection_command(repository: &RepositoryId, branch: &str) -> (r: CommandSpec)
    ensures
        r.deep_view() == branch_protection(repository.deep_view(), branch@),
{
    let w0 = "repos/".to_owned().concat(
        repository.slug().as_str(),
    ).concat("/branches/").concat(encode_path_segment(branch).as_str()).concat("/protection");
    let args = vec!["api", w0.as_str()];
    assert(args.deep_view() =~= branch_protection(repository.deep_view(), branch@).args);
    CommandSpec::gh(args)
}

/// The settings of a repository.
pub open spec fn repository_settings(repository: RepositoryIdView) -> CommandSpecView {
    command::gh(seq![
        "api"@,
        "repos/"@ + repository.slug(),
    ])
}

pub fn repository_settings_command(repository: &RepositoryId) -> (r: CommandSpec)
    ensures
        r.deep_view() == repository_settings(repository.deep_view()),
{
    let w0 = "repos/".to_owned().concat(repository.slug().as_str());
    let args = vec!["api", w0.as_str()];
    assert(args.deep_view() =~= repository_settings(repository.deep_view()).args);
    CommandSpec::gh(args)
}

/// The labels of a repository.
pub open spec fn repository_labels(repository: RepositoryIdView) -> CommandSpecView {
    command::gh(seq![
        "label"@,
        "list"@,
        "--repo"@,
        repository.slug(),
        "--limit"@,
        "1000"@,
        "--json"@,
        "name,color,description"@,
    ])
}

pub fn repository_labels_command(repository: &RepositoryId) -> (r: CommandSpec)
    ensures
        r.deep_view() == repository_labels(repository.deep_view()),
{
    let w0 = repository.slug();
    let args = vec![
        "label",
        "list",
        "--repo",
        w0.as_str(),
        "--limit",
        "1000",
        "--json",
        "name,color,description",
    ];
    assert(args.deep_view() =~= repository_labels(repository.deep_view()).args);
    CommandSpec::gh(args)
}

/// The rate limits of the actor.
pub open spec fn rate_limit() -> CommandSpecView {
    command::gh(seq![
        "api"@,
        "rate_limit"@,
    ])
}

pub fn rate_limit_command() -> (r: CommandSpec)
    ensures
        r.deep_view() == rate_limit(),
{
    let args = vec!["api", "rate_limit"];
    assert(args.deep_view() =~= rate_limit().args);
    CommandSpec::gh(args)
}

/// A new label of a repository.
pub open spec fn create_repository_label(
    repository: RepositoryIdView,
    name: Seq<char>,
    color: Seq<char>,
    description: Seq<char>,
) -> CommandSpecView {
    command::gh(seq![
        "label"@,
        "create"@,
        name,
        "--repo"@,
        repository.slug(),
        "--color"@,
        color,
        "--description"@,
        description,
    ])
}

pub fn create_repository_label_command(
    repository: &RepositoryId,
    name: &str,
    color: &str,
    description: &str,
) -> (r: CommandSpec)
    ensures
        r.deep_view() == create_repository_label(
            repository.deep_view(),
            name@,
            color@,
            description@,
        ),
{
    let w0 = repository.slug();
    let args = vec![
        "label",
        "create",
        name,
        "--repo",
        w0.as_str(),
        "--color",
        color,
        "--description",
        description,
    ];
    assert(
        args.deep_view() =~= create_repository_label(
            repository.deep_view(),
            name@,
            color@,
            description@,
        ).args
    );
    CommandSpec::gh(args)
}

/// The comments of a pull request, page by page.
pub open spec fn issue_comments(repository: RepositoryIdView, number: PrNumber) -> CommandSpecView {
    command::gh(seq![
        "api"@,
        "repos/"@ + repository.slug() + "/issues/"@ + model::pr_text(number) + "/comments?per_page=100"@,
        "--paginate"@,
        "--slurp"@,
    ])
}

pub fn issue_comments_command(repository: &RepositoryId, number: PrNumber) -> (r: CommandSpec)
    ensures
        r.deep_view() == issue_comments(repository.deep_view(), number),
{
    let w0 = "repos/".to_owned().concat(
        repository.slug().as_str(),
    ).concat("/issues/").concat(number.to_text().as_str()).concat("/comments?per_page=100");
    let args = vec!["api", w0.as_str(), "--paginate", "--slurp"];
    assert(args.deep_view() =~= issue_comments(repository.deep_view(), number).args);
    CommandSpec::gh(args)
}

/// A new comment on a pull request.
pub open spec fn comment_pull_request(
    repository: RepositoryIdView,
    number: PrNumber,
    body: Seq<char>,
) -> CommandSpecView {
    command::gh(seq![
        "pr"@,
        "comment"@,
        model::pr_text(number),
        "--repo"@,
        repository.slug(),
        "--body"@,
        body,
    ])
}

pub fn comment_pull_request_command(
    repository: &RepositoryId,
    number: PrNumber,
    body: &str,
) -> (r: CommandSpec)
    ensures
        r.deep_view() == comment_pull_request(repository.deep_view(), number, body@),
{
    let w0 = number.to_text();
    let w1 = repository.slug();
    let args = vec!["pr", "comment", w0.as_str(), "--repo", w1.as_str(), "--body", body];
    assert(args.deep_view() =~= comment_pull_request(repository.deep_view(), number, body@).args);
    CommandSpec::gh(args)
}

/// The permission of the actor.
pub open spec fn repository_permission(repository: RepositoryIdView) -> CommandSpecView {
    command::gh(seq![
        "repo"@,
        "view"@,
        repository.slug(),
        "--json"@,
        "viewerPermission"@,
    ])
}

pub fn repository_permission_command(repository: &RepositoryId) -> (r: CommandSpec)
    ensures
        r.deep_view() == repository_permission(repository.deep_view()),
{
    let w0 = repository.slug();
    let args = vec!["repo", "view", w0.as_str(), "--json", "viewerPermission"];
    assert(args.deep_view() =~= repository_permission(repository.deep_view()).args);
    CommandSpec::gh(args)
}

/// A squash merge with administrator rights.
pub open spec fn admin_squash_merge(
    repository: RepositoryIdView,
    number: PrNumber,
) -> CommandSpecView {
    command::gh(seq![
        "pr"@,
        "merge"@,
        model::pr_text(number),
        "--repo"@,
        repository.slug(),
        "--admin"@,
        "--squash"@,
    ])
}

pub fn admin_squash_merge_command(repository: &RepositoryId, number: PrNumber) -> (r: CommandSpec)
    ensures
        r.deep_view() == admin_squash_merge(repository.deep_view(), number),
{
    let w0 = number.to_text();
    let w1 = repository.slug();
    let args = vec!["pr", "merge", w0.as_str(), "--repo", w1.as_str(), "--admin", "--squash"];
    assert(args.deep_view() =~= admin_squash_merge(repository.deep_view(), number).args);
    CommandSpec::gh(args)
}

/// A squash merge of one exact head.
pub open spec fn squash_merge(
    repository: RepositoryIdView,
    number: PrNumber,
    head: Seq<char>,
) -> CommandSpecView {
    command::gh(seq![
        "pr"@,
        "merge"@,
        model::pr_text(number),
        "--repo"@,
        repository.slug(),
        "--squash"@,
        "--match-head-commit"@,
        head,
    ])
}

pub fn squash_merge_command(
    repository: &RepositoryId,
    number: PrNumber,
    head: &CommitOid,
) -> (r: CommandSpec)
    ensures
        r.deep_view() == squash_merge(repository.deep_view(), number, head.deep_view()),
{
    let w0 = number.to_text();
    let w1 = repository.slug();
    let args = vec![
        "pr",
        "merge",
        w0.as_str(),
        "--repo",
        w1.as_str(),
        "--squash",
        "--match-head-commit",
        head.0.as_str(),
    ];
    assert(
        args.deep_view() =~= squash_merge(repository.deep_view(), number, head.deep_view()).args
    );
    CommandSpec::gh(args)
}

/// The merge commit of a pull request.
pub open spec fn merge_commit(repository: RepositoryIdView, number: PrNumber) -> CommandSpecView {
    command::gh(seq![
        "pr"@,
        "view"@,
        model::pr_text(number),
        "--repo"@,
        repository.slug(),
        "--json"@,
        "mergeCommit"@,
    ])
}

pub fn merge_commit_command(repository: &RepositoryId, number: PrNumber) -> (r: CommandSpec)
    ensures
        r.deep_view() == merge_commit(repository.deep_view(), number),
{
    let w0 = number.to_text();
    let w1 = repository.slug();
    let args = vec!["pr", "view", w0.as_str(), "--repo", w1.as_str(), "--json", "mergeCommit"];
    assert(args.deep_view() =~= merge_commit(repository.deep_view(), number).args);
    CommandSpec::gh(args)
}

/// Every pull request of a head branch.
pub open spec fn branch_pr_history(
    slug: Seq<char>,
    branch: Seq<char>,
    limit: usize,
) -> CommandSpecView {
    command::gh(seq![
        "pr"@,
        "list"@,
        "--repo"@,
        slug,
        "--state"@,
        "all"@,
        "--head"@,
        branch,
        "--limit"@,
        text::decimal(limit as nat),
        "--json"@,
        PR_HISTORY_JSON_FIELDS@,
    ])
}

pub fn branch_pr_history_command(slug: &str, branch: &str, limit: usize) -> (r: CommandSpec)
    ensures
        r.deep_view() == branch_pr_history(slug@, branch@, limit),
{
    let w0 = decimal_text(limit as u64);
    let args = vec![
        "pr",
        "list",
        "--repo",
        slug,
        "--state",
        "all",
        "--head",
        branch,
        "--limit",
        w0.as_str(),
        "--json",
        PR_HISTORY_JSON_FIELDS,
    ];
    assert(args.deep_view() =~= branch_pr_history(slug@, branch@, limit).args);
    CommandSpec::gh(args)
}

/// A new pull request with a title and body taken from its commits.
pub open spec fn create_pull_request(
    repository: RepositoryIdView,
    head: Seq<char>,
    base: Seq<char>,
    draft: bool,
) -> CommandSpecView {
    command::gh(
        seq![
            "pr"@,
            "create"@,
            "--repo"@,
            repository.slug(),
            "--head"@,
            head,
            "--base"@,
            base,
            "--fill"@,
        ] + (if draft {
            seq!["--draft"@]
        } else {
            Seq::empty()
        }),
    )
}

pub fn create_pull_request_command(
    repository: &RepositoryId,
    head: &str,
    base: &str,
    draft: bool,
) -> (r: CommandSpec)
    ensures
        r.deep_view() == create_pull_request(repository.deep_view(), head@, base@, draft),
{
    let slug = repository.slug();
    let mut args = vec![
        "pr",
        "create",
        "--repo",
        slug.as_str(),
        "--head",
        head,
        "--base",
        base,
        "--fill",
    ];
    if draft {
        args.push("--draft");
    }
    assert(args.deep_view() =~= create_pull_request(
        repository.deep_view(),
        head@,
        base@,
        draft,
    ).args);
    CommandSpec::gh(args)
}

/// A change of native auto-merge: off, or on with a squash.
pub open spec fn auto_merge(
    repository: RepositoryIdView,
    number: PrNumber,
    disable: bool,
) -> CommandSpecView {
    command::gh(
        seq!["pr"@, "merge"@, model::pr_text(number), "--repo"@, repository.slug()] + (
        if disable {
            seq!["--disable-auto"@]
        } else {
            seq!["--auto"@, "--squash"@]
        }),
    )
}

pub fn auto_merge_command(repository: &RepositoryId, number: PrNumber, disable: bool) -> (r:
    CommandSpec)
    ensures
        r.deep_view() == auto_merge(repository.deep_view(), number, disable),
{
    let slug = repository.slug();
    let pr = number.to_text();
    let mut args = vec!["pr", "merge", pr.as_str(), "--repo", slug.as_str()];
    if disable {
        args.push("--disable-auto");
    } else {
        args.push("--auto");
        args.push("--squash");
    }
    assert(args.deep_view() =~= auto_merge(repository.deep_view(), number, disable).args);
    CommandSpec::gh(args)
}

/// The mutation fields of a force transition. Auto-merge comes first, so that
/// no prefix of the request arms the label alone.
pub open spec fn force_fields(labelled: bool, label_present: bool, arm: bool) -> Seq<Seq<char>> {
    (if arm {
        seq![
            "forceAutoMerge:enablePullRequestAutoMerge(input:{pullRequestId:$pullRequestId,mergeMethod:SQUASH}){clientMutationId}"@,
        ]
    } else {
        Seq::empty()
    }) + (if labelled {
        seq![
            "forceLabel:"@ + (if label_present {
                "addLabelsToLabelable"@
            } else {
                "removeLabelsFromLabelable"@
            }) + "(input:{labelableId:$pullRequestId,labelIds:[$labelId]}){clientMutationId}"@,
        ]
    } else {
        Seq::empty()
    })
}

/// One request that changes a label and arms auto-merge.
pub open spec fn force_transaction(
    pull_request_id: Seq<char>,
    label_id: Option<Seq<char>>,
    label_present: bool,
    arm: bool,
) -> CommandSpecView {
    let labelled = label_id is Some;
    let query = "query=mutation("@ + (if labelled {
        "$pullRequestId:ID!,$labelId:ID!"@
    } else {
        "$pullRequestId:ID!"@
    }) + "){"@ + text::joined(force_fields(labelled, label_present, arm), " "@) + "}"@;
    command::gh(
        seq!["api"@, "graphql"@, "-f"@, query, "-f"@, "pullRequestId="@ + pull_request_id] + (
        match label_id {
            Some(id) => seq!["-f"@, "labelId="@ + id],
            None => Seq::empty(),
        }),
    )
}

pub fn force_transaction_command(
    pull_request_id: &str,
    label_id: Option<String>,
    label_present: bool,
    arm: bool,
) -> (r: CommandSpec)
    ensures
        r.deep_view() == force_transaction(
            pull_request_id@,
            label_id.deep_view(),
            label_present,
            arm,
        ),
{
    let labelled = label_id.is_some();
    let mut fields: Vec<String> = Vec::new();
    if arm {
        fields.push(
            "forceAutoMerge:enablePullRequestAutoMerge(input:{pullRequestId:$pullRequestId,mergeMethod:SQUASH}){clientMutationId}".to_owned(),
        );
    }
    if labelled {
        let mutation = if label_present {
            "addLabelsToLabelable"
        } else {
            "removeLabelsFromLabelable"
        };
        fields.push(
            "forceLabel:".to_owned().concat(mutation).concat(
                "(input:{labelableId:$pullRequestId,labelIds:[$labelId]}){clientMutationId}",
            ),
        );
    }
    assert(fields.deep_view() =~= force_fields(labelled, label_present, arm));
    let variables = if labelled {
        "$pullRequestId:ID!,$labelId:ID!"
    } else {
        "$pullRequestId:ID!"
    };
    let query = "query=mutation(".to_owned().concat(variables).concat("){").concat(
        join(&fields, " ").as_str(),
    ).concat("}");
    let target = "pullRequestId=".to_owned().concat(pull_request_id);
    let mut args = vec!["api", "graphql", "-f", query.as_str(), "-f", target.as_str()];
    let chosen = match &label_id {
        Some(id) => "labelId=".to_owned().concat(id.as_str()),
        None => String::new(),
    };
    if labelled {
        args.push("-f");
        args.push(chosen.as_str());
    }
    assert(args.deep_view() =~= force_transaction(
        pull_request_id@,
        label_id.deep_view(),
        label_present,
        arm,
    ).args);
    CommandSpec::gh(args)
}

/// The labelled pull requests of a state.
pub open spec fn labeled_pr(
    slug: Seq<char>,
    state: Seq<char>,
    label: Seq<char>,
    limit: usize,
    recent: bool,
) -> CommandSpecView {
    command::gh(
        seq![
            "pr"@,
            "list"@,
            "--repo"@,
            slug,
            "--state"@,
            state,
            "--label"@,
            label,
            "--limit"@,
            text::decimal(limit as nat),
            "--json"@,
            if state == "merged"@ {
                PR_HISTORY_JSON_FIELDS@
            } else {
                PR_JSON_FIELDS@
            },
        ] + (if recent {
            seq!["--search"@, "sort:updated-desc"@]
        } else {
            Seq::empty()
        }),
    )
}

pub fn labeled_pr_command(slug: &str, state: &str, label: &str, limit: usize, recent: bool) -> (r:
    CommandSpec)
    ensures
        r.deep_view() == labeled_pr(slug@, state@, label@, limit, recent),
{
    let bound = decimal_text(limit as u64);
    let fields = if text_eq(state, "merged") {
        PR_HISTORY_JSON_FIELDS
    } else {
        PR_JSON_FIELDS
    };
    let mut args = vec![
        "pr",
        "list",
        "--repo",
        slug,
        "--state",
        state,
        "--label",
        label,
        "--limit",
        bound.as_str(),
        "--json",
        fields,
    ];
    if recent {
        args.push("--search");
        args.push("sort:updated-desc");
    }
    assert(args.deep_view() =~= labeled_pr(slug@, state@, label@, limit, recent).args);
    CommandSpec::gh(args)
}

/// The base changes of one pull request, as a part of a query.
pub open spec fn base_history_part(number: PrNumber) -> Seq<char> {
    "p"@ + model::pr_text(number) + ": pullRequest(number:"@ + model::pr_text(number)
        + ") { timelineItems(last:100, itemTypes:[BASE_REF_CHANGED_EVENT]) { nodes { ... on BaseRefChangedEvent { previousRefName currentRefName } } } }"@
}

/// The base changes of pull requests.
pub open spec fn base_history(
    repository: RepositoryIdView,
    numbers: Seq<PrNumber>,
) -> CommandSpecView {
    let parts = Seq::new(numbers.len(), |i: int| base_history_part(numbers[i]));
    command::gh(
        seq![
            "api"@,
            "graphql"@,
            "-f"@,
            "query=query { repository(owner:\""@ + repository.owner + "\", name:\""@
                + repository.name + "\") { "@ + text::joined(parts, " "@) + " } }"@,
        ],
    )
}

pub fn base_history_command(repository: &RepositoryId, numbers: &Vec<PrNumber>) -> (r: CommandSpec)
    ensures
        r.deep_view() == base_history(repository.deep_view(), numbers.deep_view()),
{
    let ghost all = numbers.deep_view();
    let ghost parts = Seq::new(all.len(), |i: int| base_history_part(all[i]));
    let mut selections: Vec<String> = Vec::new();
    let mut i: usize = 0;
    while i < numbers.len()
        invariant
            all == numbers.deep_view(),
            parts == Seq::new(all.len(), |i: int| base_history_part(all[i])),
            i <= numbers.len(),
            selections.deep_view() == parts.take(i as int),
        decreases numbers.len() - i,
    {
        let number = numbers[i].to_text();
        assert(all[i as int] == numbers[i as int]);
        push_item(
            &mut selections,
            "p".to_owned().concat(number.as_str()).concat(": pullRequest(number:").concat(
                number.as_str(),
            ).concat(
                ") { timelineItems(last:100, itemTypes:[BASE_REF_CHANGED_EVENT]) { nodes { ... on BaseRefChangedEvent { previousRefName currentRefName } } } }",
            ),
        );
        i = i + 1;
        assert(selections.deep_view() =~= parts.take(i as int));
    }
    assert(selections.deep_view() =~= parts);
    let query = "query=query { repository(owner:\"".to_owned().concat(
        repository.owner.as_str(),
    ).concat("\", name:\"").concat(repository.name.as_str()).concat("\") { ").concat(
        join(&selections, " ").as_str(),
    ).concat(" } }");
    let args = vec!["api", "graphql", "-f", query.as_str()];
    assert(args.deep_view() =~= base_history(repository.deep_view(), all).args);
    CommandSpec::gh(args)
}

} // verus!
