//! The effective policy of a landing branch: classic protection together with
//! the active rulesets. What was refused or cannot be understood is never an
//! empty policy.

use vstd::prelude::*;
use vstd::string::*;
use crate::command;
use crate::command::{CommandRunner, CommandSpec, CommandSpecView};
use crate::github::adapter;
use crate::github::adapter::GitHubMutationAdapter;
use crate::github::commands;
use crate::github::commands::{
    branch_protection_command, branch_settings_command, encode_path_segment,
};
use crate::github::provider::{
    DiscoveryError, DiscoveryErrorView, MutationError, MutationErrorView,
};
use crate::github::raw::{
    BranchProtectionJson, BranchProtectionJsonView, BranchSettingsJson, BranchSettingsJsonView,
    RequiredCheckJson, RequiredCheckJsonView,
};
use crate::json;
use crate::json::{get, read_member, Decode, Json};
use crate::model::{append_items, push_item, Model, RepositoryId, RepositoryIdView};
use crate::required_runs;
use crate::required_runs::{
    RequiredCheck, RequiredCheckView, RequiredContextsRead, RequiredContextsReadView,
};
use crate::text;
use crate::text::{text_contains, text_eq};

verus! {

/// The app that a rule binds a check to.
#[derive(Debug, PartialEq, Eq)]
pub enum RuleBinding {
    Any,
    App(u64),
    /// A binding that names no app.
    Invalid,
}

/// The content of a [`RuleBinding`].
pub enum RuleBindingView {
    Any,
    App(u64),
    Invalid,
}

impl DeepView for RuleBinding {
    type V = RuleBindingView;

    open spec fn deep_view(&self) -> RuleBindingView {
        match self {
            RuleBinding::Any => RuleBindingView::Any,
            RuleBinding::App(x) => RuleBindingView::App(x.deep_view()),
            RuleBinding::Invalid => RuleBindingView::Invalid,
        }
    }
}

impl Model for RuleBinding {
    fn same(&self, other: &Self) -> (r: bool) {
        match (self, other) {
            (RuleBinding::Any, RuleBinding::Any) => true,
            (RuleBinding::App(a), RuleBinding::App(b)) => *a == *b,
            (RuleBinding::Invalid, RuleBinding::Invalid) => true,
            _ => false,
        }
    }

    fn dup(&self) -> (r: Self) {
        match self {
            RuleBinding::Any => RuleBinding::Any,
            RuleBinding::App(id) => RuleBinding::App(*id),
            RuleBinding::Invalid => RuleBinding::Invalid,
        }
    }
}

impl Clone for RuleBinding {
    fn clone(&self) -> (r: Self)
        ensures
            r.deep_view() == self.deep_view(),
    {
        self.dup()
    }
}

/// One required check of a rule. A check without a name stands for nothing.
#[derive(Debug, PartialEq, Eq)]
pub struct RuleCheck {
    pub context: Option<String>,
    pub binding: RuleBinding,
}

/// The content of a [`RuleCheck`].
#[verifier::ext_equal]
pub struct RuleCheckView {
    pub context: Option<Seq<char>>,
    pub binding: RuleBindingView,
}

impl DeepView for RuleCheck {
    type V = RuleCheckView;

    open spec fn deep_view(&self) -> RuleCheckView {
        RuleCheckView {
            context: self.context.deep_view(),
            binding: self.binding.deep_view(),
        }
    }
}

impl Clone for RuleCheck {
    fn clone(&self) -> (r: Self)
        ensures
            r.deep_view() == self.deep_view(),
    {
        self.dup()
    }
}

impl Model for RuleCheck {
    fn same(&self, other: &Self) -> (r: bool) {
        self.context.same(&other.context)
            && self.binding.same(&other.binding)
    }

    fn dup(&self) -> (r: Self) {
        RuleCheck {
            context: self.context.dup(),
            binding: self.binding.dup(),
        }
    }
}

/// The required checks of a rule, where it lists them.
#[derive(Debug, PartialEq, Eq)]
pub struct RuleParameters {
    pub checks: Option<Vec<RuleCheck>>,
}

/// The content of a [`RuleParameters`].
#[verifier::ext_equal]
pub struct RuleParametersView {
    pub checks: Option<Seq<RuleCheckView>>,
}

impl DeepView for RuleParameters {
    type V = RuleParametersView;

    open spec fn deep_view(&self) -> RuleParametersView {
        RuleParametersView {
            checks: self.checks.deep_view(),
        }
    }
}

impl Clone for RuleParameters {
    fn clone(&self) -> (r: Self)
        ensures
            r.deep_view() == self.deep_view(),
    {
        self.dup()
    }
}

impl Model for RuleParameters {
    fn same(&self, other: &Self) -> (r: bool) {
        self.checks.same(&other.checks)
    }

    fn dup(&self) -> (r: Self) {
        RuleParameters {
            checks: self.checks.dup(),
        }
    }
}

/// One active rule of a branch.
#[derive(Debug, PartialEq, Eq)]
pub struct BranchRule {
    pub kind: String,
    pub parameters: Option<RuleParameters>,
}

/// The content of a [`BranchRule`].
#[verifier::ext_equal]
pub struct BranchRuleView {
    pub kind: Seq<char>,
    pub parameters: Option<RuleParametersView>,
}

impl DeepView for BranchRule {
    type V = BranchRuleView;

    open spec fn deep_view(&self) -> BranchRuleView {
        BranchRuleView {
            kind: self.kind.deep_view(),
            parameters: self.parameters.deep_view(),
        }
    }
}

impl Clone for BranchRule {
    fn clone(&self) -> (r: Self)
        ensures
            r.deep_view() == self.deep_view(),
    {
        self.dup()
    }
}

impl Model for BranchRule {
    fn same(&self, other: &Self) -> (r: bool) {
        self.kind.same(&other.kind)
            && self.parameters.same(&other.parameters)
    }

    fn dup(&self) -> (r: Self) {
        BranchRule {
            kind: self.kind.dup(),
            parameters: self.parameters.dup(),
        }
    }
}

impl Decode for RuleBinding {
    open spec fn decoded(tree: Json) -> Option<RuleBindingView> {
        Some(
            if tree is Null {
                RuleBindingView::Any
            } else {
                match tree.unsigned() {
                    Some(id) => if id > 0 {
                        RuleBindingView::App(id)
                    } else {
                        RuleBindingView::Invalid
                    },
                    None => RuleBindingView::Invalid,
                }
            },
        )
    }

    fn decode(value: &serde_json::Value) -> (r: Option<Self>) {
        if value.is_null() {
            Some(RuleBinding::Any)
        } else {
            match value.as_u64() {
                Some(id) => if id > 0 {
                    Some(RuleBinding::App(id))
                } else {
                    Some(RuleBinding::Invalid)
                },
                None => Some(RuleBinding::Invalid),
            }
        }
    }
}

impl Decode for RuleCheck {
    open spec fn decoded(tree: Json) -> Option<RuleCheckView> {
        Some(
            RuleCheckView {
                context: tree.field_or_null("context"@).text(),
                binding: RuleBinding::decoded(tree.field_or_null("integration_id"@))->0,
            },
        )
    }

    fn decode(value: &serde_json::Value) -> (r: Option<Self>) {
        let context = match get(value, "context") {
            Some(found) => match found.as_str() {
                Some(name) => Some(name.to_owned()),
                None => None,
            },
            None => None,
        };
        let binding = match read_member::<RuleBinding>(value, "integration_id") {
            Some(binding) => binding,
            None => RuleBinding::Any,
        };
        Some(RuleCheck { context, binding })
    }
}

impl Decode for RuleParameters {
    open spec fn decoded(tree: Json) -> Option<RuleParametersView> {
        Some(
            RuleParametersView {
                checks: match tree.field_or_null("required_status_checks"@).items() {
                    Some(items) => json::decoded_all::<RuleCheck>(items),
                    None => None,
                },
            },
        )
    }

    fn decode(value: &serde_json::Value) -> (r: Option<Self>) {
        let checks = match get(value, "required_status_checks") {
            Some(found) => match found.as_array() {
                Some(items) => json::decode_all::<RuleCheck>(items),
                None => None,
            },
            None => None,
        };
        Some(RuleParameters { checks })
    }
}

impl Decode for BranchRule {
    open spec fn decoded(tree: Json) -> Option<BranchRuleView> {
        let kind = json::member::<String>(tree, "type"@);
        let parameters = json::member::<Option<RuleParameters>>(tree, "parameters"@);
        if tree.is_object() && kind is Some && parameters is Some {
            Some(BranchRuleView { kind: kind->0, parameters: parameters->0 })
        } else {
            None
        }
    }

    fn decode(value: &serde_json::Value) -> (r: Option<Self>) {
        if !value.is_object() {
            return None;
        }
        let kind = read_member::<String>(value, "type")?;
        let parameters = read_member::<Option<RuleParameters>>(value, "parameters")?;
        Some(BranchRule { kind, parameters })
    }
}

/// The active rules of a branch, of the repository and of its organization.
pub open spec fn branch_rules(repository: RepositoryIdView, branch: Seq<char>) -> CommandSpecView {
    command::gh(
        seq![
            "api"@,
            "--paginate"@,
            "--slurp"@,
            "repos/"@ + repository.slug() + "/rules/branches/"@ + commands::encoded(branch)
                + "?per_page=100"@,
        ],
    )
}

pub fn branch_rules_command(repository: &RepositoryId, branch: &str) -> (r: CommandSpec)
    ensures
        r.deep_view() == branch_rules(repository.deep_view(), branch@),
{
    let path = "repos/".to_owned().concat(repository.slug().as_str()).concat(
        "/rules/branches/",
    ).concat(encode_path_segment(branch).as_str()).concat("?per_page=100");
    let args = vec!["api", "--paginate", "--slurp", path.as_str()];
    assert(args.deep_view() =~= branch_rules(repository.deep_view(), branch@).args);
    CommandSpec::gh(args)
}

// ---------------------------------------------------------------------------
// Classic protection
// ---------------------------------------------------------------------------

/// The app of a check in a classic protection: minus one means any.
pub open spec fn classic_app(app_id: Option<i64>) -> Option<u64> {
    match app_id {
        Some(id) => if id > 0 {
            Some(id as u64)
        } else {
            None
        },
        None => None,
    }
}

/// Whether a classic protection names an app, or any.
pub open spec fn classic_app_known(app_id: Option<i64>) -> bool {
    match app_id {
        Some(id) => id > 0 || id == -1,
        None => true,
    }
}

/// A read with one more check of a classic protection.
pub open spec fn with_classic_check(
    read: RequiredContextsReadView,
    check: RequiredCheckJsonView,
) -> RequiredContextsReadView {
    RequiredContextsReadView {
        checks: read.checks.push(
            RequiredCheckView { context: check.context, app_id: classic_app(check.app_id) },
        ),
        complete: read.complete && classic_app_known(check.app_id),
        ..read
    }
}

/// A read with the checks of a classic protection.
pub open spec fn with_classic_checks(
    read: RequiredContextsReadView,
    checks: Seq<RequiredCheckJsonView>,
) -> RequiredContextsReadView
    decreases checks.len(),
{
    if checks.len() == 0 {
        read
    } else {
        with_classic_check(with_classic_checks(read, checks.drop_last()), checks.last())
    }
}

/// Whether the provider said that there is no classic protection. Any other
/// failure leaves the policy unknown.
pub open spec fn classic_absent(error: MutationErrorView) -> bool {
    match error {
        MutationErrorView::Provider(DiscoveryErrorView::CommandFailed { stderr, .. }) =>
            text::holds_text(stderr, "Branch not protected"@) && text::holds_text(stderr, "404"@),
        _ => false,
    }
}

/// A read with the answer to a read of the classic protection.
pub open spec fn with_classic(
    read: RequiredContextsReadView,
    policy: Result<BranchProtectionJsonView, MutationErrorView>,
) -> RequiredContextsReadView {
    match policy {
        Ok(document) => match document.required_status_checks {
            Some(required) => with_classic_checks(
                RequiredContextsReadView { contexts: required.contexts, ..read },
                required.checks,
            ),
            None => read,
        },
        Err(error) => RequiredContextsReadView {
            complete: read.complete && classic_absent(error),
            ..read
        },
    }
}

fn add_classic_checks(read: &mut RequiredContextsRead, checks: &Vec<RequiredCheckJson>)
    ensures
        final(read).deep_view() == with_classic_checks(old(read).deep_view(), checks.deep_view()),
{
    let ghost start = read.deep_view();
    let ghost all = checks.deep_view();
    let mut i: usize = 0;
    assert(all.take(0) =~= Seq::empty());
    while i < checks.len()
        invariant
            all == checks.deep_view(),
            i <= checks.len(),
            read.deep_view() == with_classic_checks(start, all.take(i as int)),
        decreases checks.len() - i,
    {
        assert(all.take(i as int + 1).drop_last() =~= all.take(i as int));
        assert(all[i as int] == checks[i as int].deep_view());
        let app_id = match checks[i].app_id {
            Some(id) => {
                if id <= 0 && id != -1 {
                    read.complete = false;
                }
                if id > 0 {
                    Some(id as u64)
                } else {
                    None
                }
            },
            None => None,
        };
        let row = RequiredCheck { context: checks[i].context.dup(), app_id };
        push_item(&mut read.checks, row);
        i = i + 1;
    }
    assert(all.take(i as int) =~= all);
}

fn says_absent(error: &MutationError) -> (r: bool)
    ensures
        r == classic_absent(error.deep_view()),
{
    match error {
        MutationError::Provider(DiscoveryError::CommandFailed { stderr, .. }) => text_contains(
            stderr.as_str(),
            "Branch not protected",
        ) && text_contains(stderr.as_str(), "404"),
        _ => false,
    }
}

fn add_classic(
    read: RequiredContextsRead,
    policy: Result<BranchProtectionJson, MutationError>,
) -> (r: RequiredContextsRead)
    ensures
        r.deep_view() == with_classic(read.deep_view(), adapter::outcome_view(policy)),
{
    let mut out = read.dup();
    match policy {
        Ok(document) => match document.required_status_checks {
            Some(required) => {
                out.contexts = required.contexts;
                add_classic_checks(&mut out, &required.checks);
            },
            None => {},
        },
        Err(error) => {
            if !says_absent(&error) {
                out.complete = false;
            }
        },
    }
    out
}

// ---------------------------------------------------------------------------
// Rulesets
// ---------------------------------------------------------------------------

/// A read with one more check of a rule.
pub open spec fn with_rule_check(
    read: RequiredContextsReadView,
    check: RuleCheckView,
) -> RequiredContextsReadView {
    match check.context {
        None => RequiredContextsReadView { complete: false, ..read },
        Some(context) => RequiredContextsReadView {
            checks: read.checks.push(
                RequiredCheckView {
                    context,
                    app_id: match check.binding {
                        RuleBindingView::App(id) => Some(id),
                        _ => None,
                    },
                },
            ),
            complete: read.complete && !(check.binding is Invalid),
            ..read
        },
    }
}

/// A read with the checks of a rule.
pub open spec fn with_rule_checks(
    read: RequiredContextsReadView,
    checks: Seq<RuleCheckView>,
) -> RequiredContextsReadView
    decreases checks.len(),
{
    if checks.len() == 0 {
        read
    } else {
        with_rule_check(with_rule_checks(read, checks.drop_last()), checks.last())
    }
}

/// A read with one more rule. Required workflows cannot be told from names of
/// checks, so they leave the policy open.
pub open spec fn with_rule(read: RequiredContextsReadView, rule: BranchRuleView) ->
    RequiredContextsReadView {
    if rule.kind == "workflows"@ {
        RequiredContextsReadView { complete: false, ..read }
    } else if rule.kind != "required_status_checks"@ {
        read
    } else {
        match rule.parameters {
            Some(RuleParametersView { checks: Some(checks) }) => with_rule_checks(read, checks),
            _ => RequiredContextsReadView { complete: false, ..read },
        }
    }
}

/// A read with the rules of a branch.
pub open spec fn with_rules(
    read: RequiredContextsReadView,
    rules: Seq<BranchRuleView>,
) -> RequiredContextsReadView
    decreases rules.len(),
{
    if rules.len() == 0 {
        read
    } else {
        with_rule(with_rules(read, rules.drop_last()), rules.last())
    }
}

/// The rules of all pages.
pub open spec fn all_rules(pages: Seq<Seq<BranchRuleView>>) -> Seq<BranchRuleView>
    decreases pages.len(),
{
    if pages.len() == 0 {
        Seq::empty()
    } else {
        all_rules(pages.drop_last()) + pages.last()
    }
}

fn add_rule_checks(read: &mut RequiredContextsRead, checks: &Vec<RuleCheck>)
    ensures
        final(read).deep_view() == with_rule_checks(old(read).deep_view(), checks.deep_view()),
{
    let ghost start = read.deep_view();
    let ghost all = checks.deep_view();
    let mut i: usize = 0;
    assert(all.take(0) =~= Seq::empty());
    while i < checks.len()
        invariant
            all == checks.deep_view(),
            i <= checks.len(),
            read.deep_view() == with_rule_checks(start, all.take(i as int)),
        decreases checks.len() - i,
    {
        assert(all.take(i as int + 1).drop_last() =~= all.take(i as int));
        assert(all[i as int] == checks[i as int].deep_view());
        match &checks[i].context {
            None => {
                read.complete = false;
            },
            Some(context) => {
                let app_id = match &checks[i].binding {
                    RuleBinding::App(id) => Some(*id),
                    RuleBinding::Any => None,
                    RuleBinding::Invalid => {
                        read.complete = false;
                        None
                    },
                };
                let row = RequiredCheck { context: context.dup(), app_id };
                push_item(&mut read.checks, row);
            },
        }
        i = i + 1;
    }
    assert(all.take(i as int) =~= all);
}

fn add_rule(read: &mut RequiredContextsRead, rule: &BranchRule)
    ensures
        final(read).deep_view() == with_rule(old(read).deep_view(), rule.deep_view()),
{
    if text_eq(rule.kind.as_str(), "workflows") {
        read.complete = false;
    } else if text_eq(rule.kind.as_str(), "required_status_checks") {
        match &rule.parameters {
            Some(parameters) => match &parameters.checks {
                Some(checks) => {
                    add_rule_checks(read, checks);
                },
                None => {
                    read.complete = false;
                },
            },
            None => {
                read.complete = false;
            },
        }
    }
}

fn add_rules(read: &mut RequiredContextsRead, rules: &Vec<BranchRule>)
    ensures
        final(read).deep_view() == with_rules(old(read).deep_view(), rules.deep_view()),
{
    let ghost start = read.deep_view();
    let ghost all = rules.deep_view();
    let mut i: usize = 0;
    assert(all.take(0) =~= Seq::empty());
    while i < rules.len()
        invariant
            all == rules.deep_view(),
            i <= rules.len(),
            read.deep_view() == with_rules(start, all.take(i as int)),
        decreases rules.len() - i,
    {
        assert(all.take(i as int + 1).drop_last() =~= all.take(i as int));
        assert(all[i as int] == rules[i as int].deep_view());
        add_rule(read, &rules[i]);
        i = i + 1;
    }
    assert(all.take(i as int) =~= all);
}

fn flatten(pages: &Vec<Vec<BranchRule>>) -> (r: Vec<BranchRule>)
    ensures
        r.deep_view() == all_rules(pages.deep_view()),
{
    let ghost all = pages.deep_view();
    let mut out: Vec<BranchRule> = Vec::new();
    let mut i: usize = 0;
    assert(out.deep_view() =~= all_rules(all.take(0)));
    while i < pages.len()
        invariant
            all == pages.deep_view(),
            i <= pages.len(),
            out.deep_view() == all_rules(all.take(i as int)),
        decreases pages.len() - i,
    {
        assert(all.take(i as int + 1).drop_last() =~= all.take(i as int));
        assert(all[i as int] == pages[i as int].deep_view());
        let page = pages[i].dup();
        append_items(&mut out, page);
        i = i + 1;
    }
    assert(all.take(i as int) =~= all);
    out
}

// ---------------------------------------------------------------------------
// Effective policy
// ---------------------------------------------------------------------------

/// The effective policy of a branch: what its classic protection requires, in
/// order, and then what its rules require. An unbound requirement and one that
/// is bound to an app both stay.
pub open spec fn effective(
    branch: Seq<char>,
    protected: bool,
    pages: Seq<Seq<BranchRuleView>>,
    classic: Option<Result<BranchProtectionJsonView, MutationErrorView>>,
) -> RequiredContextsReadView {
    let rules = all_rules(pages);
    let start = RequiredContextsReadView {
        complete: pages.len() > 0,
        protected: protected || rules.len() > 0,
        ..required_runs::unprotected_read(branch)
    };
    let known = match classic {
        Some(policy) => with_classic(start, policy),
        None => start,
    };
    with_rules(known.in_order(), rules).in_order()
}

/// The effective policy of a branch.
pub fn combine_policy(
    branch: &str,
    protected: bool,
    pages: &Vec<Vec<BranchRule>>,
    classic: Option<Result<BranchProtectionJson, MutationError>>,
) -> (r: RequiredContextsRead)
    ensures
        r.deep_view() == effective(
            branch@,
            protected,
            pages.deep_view(),
            match classic {
                Some(policy) => Some(adapter::outcome_view(policy)),
                None => None,
            },
        ),
{
    let rules = flatten(pages);
    let mut start = RequiredContextsRead::unprotected(branch);
    start.complete = pages.len() > 0;
    start.protected = protected || rules.len() > 0;
    let known = match classic {
        Some(policy) => add_classic(start, policy),
        None => start,
    };
    let mut out = known.normalized();
    add_rules(&mut out, &rules);
    out.normalized()
}

/// Whether some rule requires workflows.
pub open spec fn requires_workflows(rules: Seq<BranchRuleView>) -> bool {
    exists|i: int| 0 <= i < rules.len() && (#[trigger] rules[i]).kind == "workflows"@
}

proof fn lemma_rule_checks_keep_open(read: RequiredContextsReadView, checks: Seq<RuleCheckView>)
    ensures
        with_rule_checks(read, checks).complete ==> read.complete,
    decreases checks.len(),
{
    if checks.len() > 0 {
        lemma_rule_checks_keep_open(read, checks.drop_last());
    }
}

proof fn lemma_rules_keep_open(read: RequiredContextsReadView, rules: Seq<BranchRuleView>)
    ensures
        with_rules(read, rules).complete ==> read.complete && !requires_workflows(rules),
    decreases rules.len(),
{
    if rules.len() > 0 {
        let before = with_rules(read, rules.drop_last());
        lemma_rules_keep_open(read, rules.drop_last());
        match rules.last().parameters {
            Some(RuleParametersView { checks: Some(checks) }) => {
                lemma_rule_checks_keep_open(before, checks);
            },
            _ => {},
        }
        if with_rules(read, rules).complete && requires_workflows(rules) {
            let i = choose|i: int| 0 <= i < rules.len() && (#[trigger] rules[i]).kind
                == "workflows"@;
            reveal_strlit("workflows");
            reveal_strlit("required_status_checks");
            assert("workflows"@.len() != "required_status_checks"@.len());
            if i < rules.len() - 1 {
                assert(rules.drop_last()[i].kind == "workflows"@);
            }
        }
    }
}

proof fn lemma_classic_checks_keep_open(
    read: RequiredContextsReadView,
    checks: Seq<RequiredCheckJsonView>,
)
    ensures
        with_classic_checks(read, checks).complete ==> read.complete,
    decreases checks.len(),
{
    if checks.len() > 0 {
        lemma_classic_checks_keep_open(read, checks.drop_last());
    }
}

/// A policy is complete only if every read succeeded, or said that there is no
/// classic protection, and no rule requires workflows: what is refused or
/// cannot be reduced to checks is never an empty policy.
pub proof fn lemma_unknown_policy_is_open(
    branch: Seq<char>,
    protected: bool,
    pages: Seq<Seq<BranchRuleView>>,
    classic: Option<Result<BranchProtectionJsonView, MutationErrorView>>,
)
    ensures
        effective(branch, protected, pages, classic).complete ==> pages.len() > 0
            && !requires_workflows(all_rules(pages)) && match classic {
            Some(Err(error)) => classic_absent(error),
            _ => true,
        },
{
    let rules = all_rules(pages);
    let start = RequiredContextsReadView {
        complete: pages.len() > 0,
        protected: protected || rules.len() > 0,
        ..required_runs::unprotected_read(branch)
    };
    let known = match classic {
        Some(policy) => with_classic(start, policy),
        None => start,
    };
    lemma_rules_keep_open(known.in_order(), rules);
    match classic {
        Some(Ok(document)) => match document.required_status_checks {
            Some(required) => {
                lemma_classic_checks_keep_open(
                    RequiredContextsReadView { contexts: required.contexts, ..start },
                    required.checks,
                );
            },
            None => {},
        },
        _ => {},
    }
}

/// Reading the effective policy of a branch may give this.
pub open spec fn effective_read<R: CommandRunner>(
    runner: R,
    repository: RepositoryIdView,
    branch: Seq<char>,
    read: RequiredContextsReadView,
) -> bool {
    exists|settings: Result<BranchSettingsJsonView, MutationErrorView>| #[trigger]
        adapter::got::<R, BranchSettingsJson>(
            runner,
            commands::branch_settings(repository, branch),
            settings,
        ) && match settings {
            Err(_) => read == required_runs::partial_read(branch),
            Ok(known) => rules_read(runner, repository, branch, known.protected, read),
        }
}

/// Reading the rules of a branch, and its classic protection where it has one,
/// may give this.
pub open spec fn rules_read<R: CommandRunner>(
    runner: R,
    repository: RepositoryIdView,
    branch: Seq<char>,
    protected: bool,
    read: RequiredContextsReadView,
) -> bool {
    exists|pages: Result<Seq<Seq<BranchRuleView>>, MutationErrorView>| #[trigger]
        adapter::got::<R, Vec<Vec<BranchRule>>>(
            runner,
            branch_rules(repository, branch),
            pages,
        ) && match pages {
            Err(_) => read == required_runs::partial_read(branch),
            Ok(rows) => if protected {
                classic_read(runner, repository, branch, rows, read)
            } else {
                read == effective(branch, false, rows, None)
            },
        }
}

/// Reading the classic protection of a branch may give this.
pub open spec fn classic_read<R: CommandRunner>(
    runner: R,
    repository: RepositoryIdView,
    branch: Seq<char>,
    pages: Seq<Seq<BranchRuleView>>,
    read: RequiredContextsReadView,
) -> bool {
    exists|policy: Result<BranchProtectionJsonView, MutationErrorView>| #[trigger]
        adapter::got::<R, BranchProtectionJson>(
            runner,
            commands::branch_protection(repository, branch),
            policy,
        ) && read == effective(branch, true, pages, Some(policy))
}

/// What a read of the effective policy may run: the settings of the branch, its
/// rules once they were read, and its classic protection once both were read
/// and it has one.
pub open spec fn may_read_policy<R: CommandRunner>(
    runner: R,
    repository: RepositoryIdView,
    branch: Seq<char>,
) -> bool {
    let settings = commands::branch_settings(repository, branch);
    let rules = branch_rules(repository, branch);
    &&& runner.allows(settings)
    &&& forall|known: BranchSettingsJsonView| #[trigger]
        adapter::got::<R, BranchSettingsJson>(runner, settings, Ok(known)) ==> runner.allows(rules)
            && (known.protected ==> forall|pages: Seq<Seq<BranchRuleView>>| #[trigger]
            adapter::got::<R, Vec<Vec<BranchRule>>>(runner, rules, Ok(pages)) ==> runner.allows(
                commands::branch_protection(repository, branch),
            ))
}

impl<R: CommandRunner> GitHubMutationAdapter<R> {
    /// The effective policy of a branch. It reads only.
    pub fn effective_required_checks(&self, repository: &RepositoryId, branch: &str) -> (r:
        RequiredContextsRead)
        requires
            may_read_policy(self.runner, repository.deep_view(), branch@),
        ensures
            effective_read(self.runner, repository.deep_view(), branch@, r.deep_view()),
    {
        let settings = self.json::<BranchSettingsJson>(
            &branch_settings_command(repository, branch),
        );
        assert(adapter::got::<R, BranchSettingsJson>(
            self.runner,
            commands::branch_settings(repository.deep_view(), branch@),
            adapter::outcome_view(settings),
        ));
        let protected = match settings {
            Err(_) => {
                return RequiredContextsRead::partial(branch);
            },
            Ok(known) => known.protected,
        };
        let read = self.json::<Vec<Vec<BranchRule>>>(&branch_rules_command(repository, branch));
        assert(adapter::got::<R, Vec<Vec<BranchRule>>>(
            self.runner,
            branch_rules(repository.deep_view(), branch@),
            adapter::outcome_view(read),
        ));
        let pages = match read {
            Err(_) => {
                return RequiredContextsRead::partial(branch);
            },
            Ok(pages) => pages,
        };
        if !protected {
            return combine_policy(branch, false, &pages, None);
        }
        let policy = self.json::<BranchProtectionJson>(
            &branch_protection_command(repository, branch),
        );
        assert(adapter::got::<R, BranchProtectionJson>(
            self.runner,
            commands::branch_protection(repository.deep_view(), branch@),
            adapter::outcome_view(policy),
        ));
        combine_policy(branch, true, &pages, Some(policy))
    }
}

} // verus!
