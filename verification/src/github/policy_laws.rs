//! What the effective policy of a branch requires, over the documents that it is
//! read from.

use vstd::prelude::*;
use crate::command::CommandRunner;
use crate::github::adapter;
use crate::github::commands;
use crate::github::provider::{DiscoveryErrorView, MutationErrorView};
use crate::github::raw::{
    BranchProtectionJson, BranchProtectionJsonView, BranchSettingsJson, BranchSettingsJsonView,
    RequiredCheckJsonView,
};
use crate::github::required_policy;
use crate::github::required_policy::{
    BranchRule, BranchRuleView, RuleBindingView, RuleCheckView, RuleParametersView,
};
use crate::model;
use crate::model::RepositoryIdView;
use crate::required_runs;
use crate::required_runs::{RequiredCheckView, RequiredContextsReadView};
use crate::text;

verus! {

/// Whether a check of a rule asks for a required check: of this name, and of the
/// app that it is bound to, if it is bound to one.
pub open spec fn check_asks(check: RuleCheckView, wanted: RequiredCheckView) -> bool {
    check.context == Some(wanted.context) && match check.binding {
        RuleBindingView::App(id) => wanted.app_id == Some(id),
        RuleBindingView::Any => wanted.app_id is None,
        RuleBindingView::Invalid => wanted.app_id is None,
    }
}

/// Whether a rule asks for a required check.
pub open spec fn rule_asks(rule: BranchRuleView, wanted: RequiredCheckView) -> bool {
    rule.kind == "required_status_checks"@ && match rule.parameters {
        Some(RuleParametersView { checks: Some(checks) }) => exists|k: int|
            0 <= k < checks.len() && check_asks(#[trigger] checks[k], wanted),
        _ => false,
    }
}

/// Whether some rule on some page asks for a required check.
pub open spec fn rules_ask(pages: Seq<Seq<BranchRuleView>>, wanted: RequiredCheckView) -> bool {
    exists|p: int, r: int|
        0 <= p < pages.len() && 0 <= r < pages[p].len() && rule_asks(
            #[trigger] pages[p][r],
            wanted,
        )
}

/// Whether a classic protection asks for a required check: it lists the check,
/// or it lists the bare name and no check of that name.
pub open spec fn classic_asks(
    classic: Option<Result<BranchProtectionJsonView, MutationErrorView>>,
    wanted: RequiredCheckView,
) -> bool {
    match classic {
        Some(Ok(document)) => match document.required_status_checks {
            Some(required) => {
                ||| exists|k: int|
                    0 <= k < required.checks.len() && (#[trigger] required.checks[k]).context
                        == wanted.context && match required.checks[k].app_id {
                        Some(id) => if id > 0 {
                            wanted.app_id == Some(id as u64)
                        } else {
                            wanted.app_id is None
                        },
                        None => wanted.app_id is None,
                    }
                ||| wanted.app_id is None && required.contexts.contains(wanted.context) && forall|
                    k: int,
                |
                    0 <= k < required.checks.len() ==> (#[trigger] required.checks[k]).context
                        != wanted.context
            },
            None => false,
        },
        _ => false,
    }
}

/// Whether a rule can be reduced to checks.
pub open spec fn rule_is_plain(rule: BranchRuleView) -> bool {
    rule.kind != "workflows"@ && (rule.kind == "required_status_checks"@ ==> match rule.parameters {
        Some(RuleParametersView { checks: Some(checks) }) => forall|k: int|
            0 <= k < checks.len() ==> (#[trigger] checks[k]).context is Some && !(
            checks[k].binding is Invalid),
        _ => false,
    })
}

/// Whether a classic protection was read and can be understood, or the provider
/// said that there is none.
pub open spec fn classic_is_plain(
    classic: Option<Result<BranchProtectionJsonView, MutationErrorView>>,
) -> bool {
    match classic {
        None => true,
        Some(Ok(document)) => match document.required_status_checks {
            Some(required) => forall|k: int|
                0 <= k < required.checks.len() ==> match (#[trigger] required.checks[k]).app_id {
                    Some(id) => id > 0 || id == -1,
                    None => true,
                },
            None => true,
        },
        Some(Err(MutationErrorView::Provider(DiscoveryErrorView::CommandFailed { stderr, .. }))) =>
            text::holds_text(stderr, "Branch not protected"@) && text::holds_text(stderr, "404"@),
        Some(Err(_)) => false,
    }
}

// ---------------------------------------------------------------------------
// Order
// ---------------------------------------------------------------------------

/// Whether some check has a name.
spec fn named(rows: Seq<RequiredCheckView>, name: Seq<char>) -> bool {
    exists|k: int| 0 <= k < rows.len() && (#[trigger] rows[k]).context == name
}

proof fn lemma_names(rows: Seq<RequiredCheckView>, name: Seq<char>)
    ensures
        required_runs::check_names(rows).contains(name) <==> named(rows, name),
{
    let names = required_runs::check_names(rows);
    if names.contains(name) {
        let k = choose|k: int| 0 <= k < names.len() && names[k] == name;
        assert(rows[k].context == name);
    }
    if named(rows, name) {
        let k = choose|k: int| 0 <= k < rows.len() && (#[trigger] rows[k]).context == name;
        assert(names[k] == name);
    }
}

proof fn lemma_unbound(contexts: Seq<Seq<char>>, checks: Seq<RequiredCheckView>)
    ensures
        forall|x: RequiredCheckView| #[trigger]
            required_runs::unbound_checks(contexts, checks).contains(x) <==> x.app_id is None
                && contexts.contains(x.context) && !named(checks, x.context),
    decreases contexts.len(),
{
    let out = required_runs::unbound_checks(contexts, checks);
    if contexts.len() > 0 {
        let rest = contexts.drop_last();
        let before = required_runs::unbound_checks(rest, checks);
        lemma_unbound(rest, checks);
        lemma_names(checks, contexts.last());
        assert forall|x: RequiredCheckView| #[trigger] out.contains(x) <==> x.app_id is None
            && contexts.contains(x.context) && !named(checks, x.context) by {
            assert(before.contains(x) <==> x.app_id is None && rest.contains(x.context) && !named(
                checks,
                x.context,
            ));
            if contexts.contains(x.context) {
                let k = choose|k: int| 0 <= k < contexts.len() && contexts[k] == x.context;
                if k < rest.len() {
                    assert(rest[k] == x.context);
                }
            }
            if rest.contains(x.context) {
                let k = choose|k: int| 0 <= k < rest.len() && rest[k] == x.context;
                assert(contexts[k] == x.context);
            }
            assert(contexts[contexts.len() - 1] == contexts.last());
            if before.contains(x) {
                let k = choose|k: int| 0 <= k < before.len() && before[k] == x;
                assert(out[k] == x);
            }
            if out != before {
                assert(out[out.len() - 1] == (RequiredCheckView {
                    context: contexts.last(),
                    app_id: None,
                }));
                if out.contains(x) {
                    let k = choose|k: int| 0 <= k < out.len() && out[k] == x;
                    if k < before.len() {
                        assert(before[k] == x);
                    }
                }
            }
        }
    } else {
        assert forall|x: RequiredCheckView| #[trigger] out.contains(x) <==> x.app_id is None
            && contexts.contains(x.context) && !named(checks, x.context) by {}
    }
}

proof fn lemma_added<A>(a: Seq<A>, b: Seq<A>, x: A)
    ensures
        (a + b).contains(x) <==> a.contains(x) || b.contains(x),
{
    if (a + b).contains(x) {
        let k = choose|k: int| 0 <= k < (a + b).len() && (a + b)[k] == x;
        if k < a.len() {
            assert(a[k] == x);
        } else {
            assert(b[k - a.len()] == x);
        }
    }
    if a.contains(x) {
        let k = choose|k: int| 0 <= k < a.len() && a[k] == x;
        assert((a + b)[k] == x);
    }
    if b.contains(x) {
        let k = choose|k: int| 0 <= k < b.len() && b[k] == x;
        assert((a + b)[a.len() + k] == x);
    }
}

/// Putting a read in order loses nothing: it adds one unbound check for each
/// bare name without a check, the names are exactly those of the checks, and
/// nothing stands twice.
pub proof fn lemma_order_keeps_checks(read: RequiredContextsReadView)
    ensures
        forall|x: RequiredCheckView| #[trigger]
            read.in_order().checks.contains(x) <==> read.checks.contains(x) || (x.app_id is None
                && read.contexts.contains(x.context) && forall|k: int|
                0 <= k < read.checks.len() ==> (#[trigger] read.checks[k]).context != x.context),
        forall|name: Seq<char>| #[trigger]
            read.in_order().contexts.contains(name) <==> exists|x: RequiredCheckView|
                #[trigger] read.in_order().checks.contains(x) && x.context == name,
        forall|i: int, j: int|
            0 <= i < j < read.in_order().checks.len() ==> read.in_order().checks[i]
                != read.in_order().checks[j],
        forall|i: int, j: int|
            0 <= i < j < read.in_order().contexts.len() ==> read.in_order().contexts[i]
                != read.in_order().contexts[j],
        read.in_order().branch == read.branch,
        read.in_order().protected == read.protected,
        read.in_order().complete == read.complete,
{
    let out = read.in_order();
    let more = required_runs::unbound_checks(read.contexts, read.checks);
    let names = required_runs::check_names(read.checks);
    required_runs::lemma_check_set(read.checks + more);
    model::lemma_label_set(read.contexts + names);
    lemma_unbound(read.contexts, read.checks);
    assert forall|x: RequiredCheckView| #[trigger] out.checks.contains(x) <==> read.checks.contains(
        x,
    ) || (x.app_id is None && read.contexts.contains(x.context) && !named(
        read.checks,
        x.context,
    )) by {
        lemma_added(read.checks, more, x);
        assert(required_runs::check_set(read.checks + more).contains(x) <==> (read.checks
            + more).contains(x));
        assert(more.contains(x) <==> x.app_id is None && read.contexts.contains(x.context)
            && !named(read.checks, x.context));
    }
    assert forall|name: Seq<char>| #[trigger] out.contexts.contains(name) <==> exists|
        x: RequiredCheckView,
    | #[trigger] out.checks.contains(x) && x.context == name by {
        lemma_added(read.contexts, names, name);
        lemma_names(read.checks, name);
        assert(model::label_set(read.contexts + names).contains(name) <==> (read.contexts
            + names).contains(name));
        if out.contexts.contains(name) {
            if named(read.checks, name) {
                let k = choose|k: int|
                    0 <= k < read.checks.len() && (#[trigger] read.checks[k]).context == name;
                assert(read.checks.contains(read.checks[k]));
                assert(out.checks.contains(read.checks[k]));
            } else {
                assert(out.checks.contains(RequiredCheckView { context: name, app_id: None }));
            }
        }
        if exists|x: RequiredCheckView| #[trigger] out.checks.contains(x) && x.context == name {
            let x = choose|x: RequiredCheckView|
                #[trigger] out.checks.contains(x) && x.context == name;
            if read.checks.contains(x) {
                let k = choose|k: int| 0 <= k < read.checks.len() && read.checks[k] == x;
                assert(read.checks[k].context == name);
            }
        }
    }
    assert forall|i: int, j: int| 0 <= i < j < out.checks.len() implies out.checks[i]
        != out.checks[j] by {
        assert(required_runs::check_lt(out.checks[i], out.checks[j]));
        text::lemma_text_lt_total(out.checks[i].context, out.checks[i].context);
    }
    assert forall|i: int, j: int| 0 <= i < j < out.contexts.len() implies out.contexts[i]
        != out.contexts[j] by {
        text::lemma_text_lt_total(out.contexts[i], out.contexts[i]);
    }
}

// ---------------------------------------------------------------------------
// Rules
// ---------------------------------------------------------------------------

proof fn lemma_rule_checks(read: RequiredContextsReadView, checks: Seq<RuleCheckView>)
    ensures
        ({
            let out = required_policy::with_rule_checks(read, checks);
            &&& out.contexts == read.contexts
            &&& out.branch == read.branch
            &&& out.protected == read.protected
            &&& forall|x: RequiredCheckView| #[trigger]
                out.checks.contains(x) <==> read.checks.contains(x) || exists|k: int|
                    0 <= k < checks.len() && check_asks(#[trigger] checks[k], x)
            &&& out.complete <==> read.complete && forall|k: int|
                0 <= k < checks.len() ==> (#[trigger] checks[k]).context is Some && !(
                checks[k].binding is Invalid)
        }),
    decreases checks.len(),
{
    if checks.len() > 0 {
        let rest = checks.drop_last();
        let before = required_policy::with_rule_checks(read, rest);
        let out = required_policy::with_rule_checks(read, checks);
        let last = checks.last();
        lemma_rule_checks(read, rest);
        assert forall|k: int| 0 <= k < rest.len() implies rest[k] == #[trigger] checks[k] by {}
        assert(checks[checks.len() - 1] == last);
        assert forall|x: RequiredCheckView| #[trigger] out.checks.contains(x)
            <==> read.checks.contains(x) || exists|k: int|
            0 <= k < checks.len() && check_asks(#[trigger] checks[k], x) by {
            assert(before.checks.contains(x) <==> read.checks.contains(x) || exists|k: int|
                0 <= k < rest.len() && check_asks(#[trigger] rest[k], x));
            if last.context is Some {
                let added = RequiredCheckView {
                    context: last.context->0,
                    app_id: match last.binding {
                        RuleBindingView::App(id) => Some(id),
                        _ => None,
                    },
                };
                assert(out.checks =~= before.checks + seq![added]);
                lemma_added(before.checks, seq![added], x);
                assert(seq![added].contains(x) <==> x == added) by {
                    assert(seq![added][0] == added);
                }
                assert(x == added <==> check_asks(last, x));
            } else {
                assert(out.checks == before.checks);
            }
            if exists|k: int| 0 <= k < rest.len() && check_asks(#[trigger] rest[k], x) {
                let k = choose|k: int| 0 <= k < rest.len() && check_asks(#[trigger] rest[k], x);
                assert(check_asks(checks[k], x));
            }
            if exists|k: int| 0 <= k < checks.len() && check_asks(#[trigger] checks[k], x) {
                let k = choose|k: int|
                    0 <= k < checks.len() && check_asks(#[trigger] checks[k], x);
                if k < rest.len() {
                    assert(check_asks(rest[k], x));
                }
            }
        }
        let whole = forall|k: int|
            0 <= k < checks.len() ==> (#[trigger] checks[k]).context is Some && !(checks[k].binding
                is Invalid);
        let part = forall|k: int|
            0 <= k < rest.len() ==> (#[trigger] rest[k]).context is Some && !(rest[k].binding
                is Invalid);
        assert(whole <==> part && last.context is Some && !(last.binding is Invalid)) by {
            if whole {
                assert forall|k: int| 0 <= k < rest.len() implies (#[trigger] rest[k]).context
                    is Some && !(rest[k].binding is Invalid) by {
                    assert(checks[k].context is Some);
                }
            }
            if part && last.context is Some && !(last.binding is Invalid) {
                assert forall|k: int| 0 <= k < checks.len() implies (#[trigger] checks[k]).context
                    is Some && !(checks[k].binding is Invalid) by {
                    if k < rest.len() {
                        assert(rest[k].context is Some);
                    }
                }
            }
        }
    } else {
        let out = required_policy::with_rule_checks(read, checks);
        assert forall|x: RequiredCheckView| #[trigger] out.checks.contains(x)
            <==> read.checks.contains(x) || exists|k: int|
            0 <= k < checks.len() && check_asks(#[trigger] checks[k], x) by {}
    }
}

proof fn lemma_kinds_differ()
    ensures
        "workflows"@ != "required_status_checks"@,
{
    reveal_strlit("workflows");
    reveal_strlit("required_status_checks");
    assert("workflows"@.len() != "required_status_checks"@.len());
}

proof fn lemma_rules(read: RequiredContextsReadView, rules: Seq<BranchRuleView>)
    ensures
        ({
            let out = required_policy::with_rules(read, rules);
            &&& out.contexts == read.contexts
            &&& out.branch == read.branch
            &&& out.protected == read.protected
            &&& forall|x: RequiredCheckView| #[trigger]
                out.checks.contains(x) <==> read.checks.contains(x) || exists|k: int|
                    0 <= k < rules.len() && rule_asks(#[trigger] rules[k], x)
            &&& out.complete <==> read.complete && forall|k: int|
                0 <= k < rules.len() ==> rule_is_plain(#[trigger] rules[k])
        }),
    decreases rules.len(),
{
    if rules.len() > 0 {
        let rest = rules.drop_last();
        let before = required_policy::with_rules(read, rest);
        let out = required_policy::with_rules(read, rules);
        let last = rules.last();
        lemma_rules(read, rest);
        lemma_kinds_differ();
        match last.parameters {
            Some(RuleParametersView { checks: Some(checks) }) => {
                lemma_rule_checks(before, checks);
            },
            _ => {},
        }
        assert(rules[rules.len() - 1] == last);
        assert forall|x: RequiredCheckView| #[trigger] out.checks.contains(x)
            <==> read.checks.contains(x) || exists|k: int|
            0 <= k < rules.len() && rule_asks(#[trigger] rules[k], x) by {
            assert(before.checks.contains(x) <==> read.checks.contains(x) || exists|k: int|
                0 <= k < rest.len() && rule_asks(#[trigger] rest[k], x));
            assert(out.checks.contains(x) <==> before.checks.contains(x) || rule_asks(last, x));
            if exists|k: int| 0 <= k < rest.len() && rule_asks(#[trigger] rest[k], x) {
                let k = choose|k: int| 0 <= k < rest.len() && rule_asks(#[trigger] rest[k], x);
                assert(rule_asks(rules[k], x));
            }
            if exists|k: int| 0 <= k < rules.len() && rule_asks(#[trigger] rules[k], x) {
                let k = choose|k: int| 0 <= k < rules.len() && rule_asks(#[trigger] rules[k], x);
                if k < rest.len() {
                    assert(rule_asks(rest[k], x));
                }
            }
        }
        let whole = forall|k: int| 0 <= k < rules.len() ==> rule_is_plain(#[trigger] rules[k]);
        let part = forall|k: int| 0 <= k < rest.len() ==> rule_is_plain(#[trigger] rest[k]);
        assert(out.complete <==> before.complete && rule_is_plain(last));
        assert(whole <==> part && rule_is_plain(last)) by {
            if whole {
                assert forall|k: int| 0 <= k < rest.len() implies rule_is_plain(
                    #[trigger] rest[k],
                ) by {
                    assert(rule_is_plain(rules[k]));
                }
            }
            if part && rule_is_plain(last) {
                assert forall|k: int| 0 <= k < rules.len() implies rule_is_plain(
                    #[trigger] rules[k],
                ) by {
                    if k < rest.len() {
                        assert(rule_is_plain(rest[k]));
                    }
                }
            }
        }
    } else {
        let out = required_policy::with_rules(read, rules);
        assert forall|x: RequiredCheckView| #[trigger] out.checks.contains(x)
            <==> read.checks.contains(x) || exists|k: int|
            0 <= k < rules.len() && rule_asks(#[trigger] rules[k], x) by {}
    }
}

/// Whether a rule stands on some page.
spec fn on_some_page(pages: Seq<Seq<BranchRuleView>>, rule: BranchRuleView) -> bool {
    exists|p: int, r: int|
        0 <= p < pages.len() && 0 <= r < pages[p].len() && #[trigger] pages[p][r] == rule
}

proof fn lemma_pages(pages: Seq<Seq<BranchRuleView>>)
    ensures
        forall|k: int|
            0 <= k < required_policy::all_rules(pages).len() ==> on_some_page(
                pages,
                #[trigger] required_policy::all_rules(pages)[k],
            ),
        forall|p: int, r: int|
            0 <= p < pages.len() && 0 <= r < pages[p].len()
                ==> required_policy::all_rules(pages).contains(#[trigger] pages[p][r]),
    decreases pages.len(),
{
    if pages.len() > 0 {
        let rest = pages.drop_last();
        let before = required_policy::all_rules(rest);
        let all = required_policy::all_rules(pages);
        lemma_pages(rest);
        assert forall|k: int| 0 <= k < all.len() implies on_some_page(
            pages,
            #[trigger] all[k],
        ) by {
            if k < before.len() {
                assert(all[k] == before[k]);
                assert(on_some_page(rest, before[k]));
                let (p, r) = choose|p: int, r: int|
                    0 <= p < rest.len() && 0 <= r < rest[p].len() && #[trigger] rest[p][r]
                        == before[k];
                assert(pages[p][r] == all[k]);
            } else {
                assert(pages[pages.len() - 1][k - before.len()] == all[k]);
            }
        }
        assert forall|p: int, r: int|
            0 <= p < pages.len() && 0 <= r < pages[p].len() implies all.contains(
            #[trigger] pages[p][r],
        ) by {
            if p < rest.len() {
                assert(rest[p][r] == pages[p][r]);
                let k = choose|k: int| 0 <= k < before.len() && before[k] == rest[p][r];
                assert(all[k] == pages[p][r]);
            } else {
                assert(all[before.len() + r] == pages[p][r]);
            }
        }
    }
}

// ---------------------------------------------------------------------------
// Classic protection
// ---------------------------------------------------------------------------

spec fn classic_check_asks(check: RequiredCheckJsonView, wanted: RequiredCheckView) -> bool {
    check.context == wanted.context && match check.app_id {
        Some(id) => if id > 0 {
            wanted.app_id == Some(id as u64)
        } else {
            wanted.app_id is None
        },
        None => wanted.app_id is None,
    }
}

spec fn classic_check_known(check: RequiredCheckJsonView) -> bool {
    match check.app_id {
        Some(id) => id > 0 || id == -1,
        None => true,
    }
}

proof fn lemma_classic_checks(read: RequiredContextsReadView, checks: Seq<RequiredCheckJsonView>)
    requires
        read.checks.len() == 0,
    ensures
        ({
            let out = required_policy::with_classic_checks(read, checks);
            &&& out.contexts == read.contexts
            &&& out.branch == read.branch
            &&& out.protected == read.protected
            &&& out.checks.len() == checks.len()
            &&& forall|k: int|
                0 <= k < checks.len() ==> classic_check_asks(checks[k], #[trigger] out.checks[k])
            &&& out.complete <==> read.complete && forall|k: int|
                0 <= k < checks.len() ==> classic_check_known(#[trigger] checks[k])
        }),
    decreases checks.len(),
{
    if checks.len() > 0 {
        let rest = checks.drop_last();
        let before = required_policy::with_classic_checks(read, rest);
        let out = required_policy::with_classic_checks(read, checks);
        lemma_classic_checks(read, rest);
        assert forall|k: int| 0 <= k < checks.len() implies classic_check_asks(
            checks[k],
            #[trigger] out.checks[k],
        ) by {
            if k < rest.len() {
                assert(out.checks[k] == before.checks[k]);
                assert(rest[k] == checks[k]);
            }
        }
        let whole = forall|k: int|
            0 <= k < checks.len() ==> classic_check_known(#[trigger] checks[k]);
        let part = forall|k: int| 0 <= k < rest.len() ==> classic_check_known(#[trigger] rest[k]);
        assert(whole <==> part && classic_check_known(checks.last())) by {
            if whole {
                assert forall|k: int| 0 <= k < rest.len() implies classic_check_known(
                    #[trigger] rest[k],
                ) by {
                    assert(classic_check_known(checks[k]));
                }
                assert(classic_check_known(checks[checks.len() - 1]));
            }
            if part && classic_check_known(checks.last()) {
                assert forall|k: int| 0 <= k < checks.len() implies classic_check_known(
                    #[trigger] checks[k],
                ) by {
                    if k < rest.len() {
                        assert(classic_check_known(rest[k]));
                    }
                }
            }
        }
    }
}

// ---------------------------------------------------------------------------
// Effective policy
// ---------------------------------------------------------------------------

/// The checks of an effective policy are exactly those that some rule on some
/// page or the classic protection asks for: a check that is bound to an app
/// stands with that app, one that is bound to none stands without. Its contexts
/// are the names of its checks, and nothing stands twice.
pub proof fn lemma_policy_holds_what_is_asked(
    branch: Seq<char>,
    protected: bool,
    pages: Seq<Seq<BranchRuleView>>,
    classic: Option<Result<BranchProtectionJsonView, MutationErrorView>>,
)
    ensures
        ({
            let policy = required_policy::effective(branch, protected, pages, classic);
            &&& forall|x: RequiredCheckView| #[trigger]
                policy.checks.contains(x) <==> rules_ask(pages, x) || classic_asks(classic, x)
            &&& forall|x: RequiredCheckView| #[trigger]
                policy.checks.contains(x) ==> policy.contexts.contains(x.context)
            &&& forall|name: Seq<char>| #[trigger]
                policy.contexts.contains(name) ==> exists|x: RequiredCheckView|
                    #[trigger] policy.checks.contains(x) && x.context == name
            &&& forall|i: int, j: int|
                0 <= i < j < policy.checks.len() ==> policy.checks[i] != policy.checks[j]
            &&& forall|i: int, j: int|
                0 <= i < j < policy.contexts.len() ==> policy.contexts[i] != policy.contexts[j]
        }),
{
    lemma_policy_of(branch, protected, pages, classic);
}

/// An effective policy is of the branch that was asked for; it is protected
/// exactly if the branch says so or some page holds a rule; and it is complete
/// exactly if there was a page, every rule can be reduced to checks, and the
/// classic protection is understood or absent.
pub proof fn lemma_policy_is_complete_exactly(
    branch: Seq<char>,
    protected: bool,
    pages: Seq<Seq<BranchRuleView>>,
    classic: Option<Result<BranchProtectionJsonView, MutationErrorView>>,
)
    ensures
        ({
            let policy = required_policy::effective(branch, protected, pages, classic);
            &&& policy.branch == branch
            &&& policy.protected <==> protected || exists|p: int|
                0 <= p < pages.len() && (#[trigger] pages[p]).len() > 0
            &&& policy.complete <==> pages.len() > 0 && classic_is_plain(classic) && forall|
                p: int,
                r: int,
            |
                0 <= p < pages.len() && 0 <= r < pages[p].len() ==> rule_is_plain(
                    #[trigger] pages[p][r],
                )
        }),
{
    lemma_policy_of(branch, protected, pages, classic);
    let rules = required_policy::all_rules(pages);
    lemma_pages(pages);
    if exists|p: int| 0 <= p < pages.len() && (#[trigger] pages[p]).len() > 0 {
        let p = choose|p: int| 0 <= p < pages.len() && (#[trigger] pages[p]).len() > 0;
        assert(rules.contains(pages[p][0]));
    }
    if rules.len() > 0 {
        assert(on_some_page(pages, rules[0]));
        let (p, r) = choose|p: int, r: int|
            0 <= p < pages.len() && 0 <= r < pages[p].len() && #[trigger] pages[p][r] == rules[0];
        assert(pages[p].len() > 0);
    }
    if forall|k: int| 0 <= k < rules.len() ==> rule_is_plain(#[trigger] rules[k]) {
        assert forall|p: int, r: int|
            0 <= p < pages.len() && 0 <= r < pages[p].len() implies rule_is_plain(
            #[trigger] pages[p][r],
        ) by {
            assert(rules.contains(pages[p][r]));
            let k = choose|k: int| 0 <= k < rules.len() && rules[k] == pages[p][r];
            assert(rule_is_plain(rules[k]));
        }
    }
    if forall|p: int, r: int|
        0 <= p < pages.len() && 0 <= r < pages[p].len() ==> rule_is_plain(#[trigger] pages[p][r]) {
        assert forall|k: int| 0 <= k < rules.len() implies rule_is_plain(#[trigger] rules[k]) by {
            assert(on_some_page(pages, rules[k]));
            let (p, r) = choose|p: int, r: int|
                0 <= p < pages.len() && 0 <= r < pages[p].len() && #[trigger] pages[p][r]
                    == rules[k];
            assert(rule_is_plain(pages[p][r]));
        }
    }
}

proof fn lemma_classic(
    start: RequiredContextsReadView,
    classic: Option<Result<BranchProtectionJsonView, MutationErrorView>>,
    known: RequiredContextsReadView,
)
    requires
        start.checks.len() == 0,
        start.contexts.len() == 0,
        known == (match classic {
            Some(policy) => required_policy::with_classic(start, policy),
            None => start,
        }),
    ensures
        known.branch == start.branch,
        known.protected == start.protected,
        known.complete <==> start.complete && classic_is_plain(classic),
        forall|x: RequiredCheckView| #[trigger]
            known.in_order().checks.contains(x) <==> classic_asks(classic, x),
{
    lemma_order_keeps_checks(known);
    match classic {
        Some(Ok(document)) => match document.required_status_checks {
            Some(required) => {
                let named_start = RequiredContextsReadView {
                    contexts: required.contexts,
                    ..start
                };
                lemma_classic_checks(named_start, required.checks);
                let rows = required.checks;
                assert(known.complete <==> start.complete && forall|k: int|
                    0 <= k < rows.len() ==> classic_check_known(#[trigger] rows[k]));
                if classic_is_plain(classic) {
                    assert forall|k: int| 0 <= k < rows.len() implies classic_check_known(
                        #[trigger] rows[k],
                    ) by {}
                }
                if forall|k: int| 0 <= k < rows.len() ==> classic_check_known(#[trigger] rows[k]) {
                    assert forall|k: int|
                        0 <= k < required.checks.len() implies match (
                    #[trigger] required.checks[k]).app_id {
                        Some(id) => id > 0 || id == -1,
                        None => true,
                    } by {
                        assert(classic_check_known(rows[k]));
                    }
                }
                assert forall|x: RequiredCheckView| #[trigger] known.in_order().checks.contains(x)
                    <==> classic_asks(classic, x) by {
                    if known.checks.contains(x) {
                        let k = choose|k: int| 0 <= k < known.checks.len() && known.checks[k] == x;
                        assert(classic_check_asks(rows[k], known.checks[k]));
                        assert(required.checks[k].context == x.context);
                    }
                    if exists|k: int| 0 <= k < rows.len() && classic_check_asks(
                        #[trigger] rows[k],
                        x,
                    ) {
                        let k = choose|k: int|
                            0 <= k < rows.len() && classic_check_asks(#[trigger] rows[k], x);
                        assert(classic_check_asks(rows[k], known.checks[k]));
                        assert(known.checks[k] == x);
                    }
                    if forall|k: int|
                        0 <= k < known.checks.len() ==> (#[trigger] known.checks[k]).context
                            != x.context {
                        assert forall|k: int|
                            0 <= k < required.checks.len() implies (
                        #[trigger] required.checks[k]).context != x.context by {
                            assert(classic_check_asks(rows[k], known.checks[k]));
                        }
                    }
                    if forall|k: int|
                        0 <= k < required.checks.len() ==> (#[trigger] required.checks[k]).context
                            != x.context {
                        assert forall|k: int| 0 <= k < known.checks.len() implies (
                        #[trigger] known.checks[k]).context != x.context by {
                            assert(classic_check_asks(rows[k], known.checks[k]));
                            assert(required.checks[k].context != x.context);
                        }
                    }
                    if classic_asks(classic, x) && !known.in_order().checks.contains(x) {
                        let k = choose|k: int|
                            0 <= k < required.checks.len() && (#[trigger] required.checks[k]).context
                                == x.context && match required.checks[k].app_id {
                                Some(id) => if id > 0 {
                                    x.app_id == Some(id as u64)
                                } else {
                                    x.app_id is None
                                },
                                None => x.app_id is None,
                            };
                        assert(classic_check_asks(rows[k], x));
                    }
                }
            },
            None => {},
        },
        _ => {},
    }
}

proof fn lemma_policy_of(
    branch: Seq<char>,
    protected: bool,
    pages: Seq<Seq<BranchRuleView>>,
    classic: Option<Result<BranchProtectionJsonView, MutationErrorView>>,
)
    ensures
        ({
            let policy = required_policy::effective(branch, protected, pages, classic);
            let rules = required_policy::all_rules(pages);
            &&& policy.branch == branch
            &&& policy.protected <==> protected || rules.len() > 0
            &&& policy.complete <==> pages.len() > 0 && classic_is_plain(classic) && forall|k: int|
                0 <= k < rules.len() ==> rule_is_plain(#[trigger] rules[k])
            &&& forall|x: RequiredCheckView| #[trigger]
                policy.checks.contains(x) <==> rules_ask(pages, x) || classic_asks(classic, x)
            &&& forall|name: Seq<char>| #[trigger]
                policy.contexts.contains(name) <==> exists|x: RequiredCheckView|
                    #[trigger] policy.checks.contains(x) && x.context == name
            &&& forall|i: int, j: int|
                0 <= i < j < policy.checks.len() ==> policy.checks[i] != policy.checks[j]
            &&& forall|i: int, j: int|
                0 <= i < j < policy.contexts.len() ==> policy.contexts[i] != policy.contexts[j]
        }),
{
    let rules = required_policy::all_rules(pages);
    let start = RequiredContextsReadView {
        complete: pages.len() > 0,
        protected: protected || rules.len() > 0,
        ..required_runs::unprotected_read(branch)
    };
    let known = match classic {
        Some(policy) => required_policy::with_classic(start, policy),
        None => start,
    };
    let first = known.in_order();
    let second = required_policy::with_rules(first, rules);
    let policy = second.in_order();
    lemma_classic(start, classic, known);
    lemma_order_keeps_checks(known);
    lemma_rules(first, rules);
    lemma_order_keeps_checks(second);
    lemma_pages(pages);
    assert forall|x: RequiredCheckView| #[trigger] policy.checks.contains(x) <==> rules_ask(
        pages,
        x,
    ) || classic_asks(classic, x) by {
        assert(first.checks.contains(x) <==> classic_asks(classic, x));
        assert(second.checks.contains(x) <==> first.checks.contains(x) || exists|k: int|
            0 <= k < rules.len() && rule_asks(#[trigger] rules[k], x));
        if exists|k: int| 0 <= k < rules.len() && rule_asks(#[trigger] rules[k], x) {
            let k = choose|k: int| 0 <= k < rules.len() && rule_asks(#[trigger] rules[k], x);
            assert(on_some_page(pages, rules[k]));
            let (p, r) = choose|p: int, r: int|
                0 <= p < pages.len() && 0 <= r < pages[p].len() && #[trigger] pages[p][r]
                    == rules[k];
            assert(rule_asks(pages[p][r], x));
        }
        if rules_ask(pages, x) {
            let (p, r) = choose|p: int, r: int|
                0 <= p < pages.len() && 0 <= r < pages[p].len() && rule_asks(
                    #[trigger] pages[p][r],
                    x,
                );
            assert(rules.contains(pages[p][r]));
            let k = choose|k: int| 0 <= k < rules.len() && rules[k] == pages[p][r];
            assert(rule_asks(rules[k], x));
        }
        if policy.checks.contains(x) && !second.checks.contains(x) {
            assert(first.contexts.contains(x.context));
            let y = choose|y: RequiredCheckView|
                #[trigger] first.checks.contains(y) && y.context == x.context;
            assert(second.checks.contains(y));
            let k = choose|k: int| 0 <= k < second.checks.len() && second.checks[k] == y;
            assert(second.checks[k].context == x.context);
        }
    }
}

/// A complete read of the policy of a branch holds exactly what the documents
/// that were read ask for: the settings of the branch, its rules, and its classic
/// protection where the settings say that the branch is protected.
pub proof fn lemma_complete_read_holds_what_is_asked<R: CommandRunner>(
    runner: R,
    repository: RepositoryIdView,
    branch: Seq<char>,
    read: RequiredContextsReadView,
)
    requires
        required_policy::effective_read(runner, repository, branch, read),
        read.complete,
    ensures
        read.branch == branch,
        exists|
            settings: BranchSettingsJsonView,
            pages: Seq<Seq<BranchRuleView>>,
            classic: Option<Result<BranchProtectionJsonView, MutationErrorView>>,
        |
            {
                &&& #[trigger] adapter::got::<R, BranchSettingsJson>(
                    runner,
                    commands::branch_settings(repository, branch),
                    Ok(settings),
                )
                &&& #[trigger] adapter::got::<R, Vec<Vec<BranchRule>>>(
                    runner,
                    required_policy::branch_rules(repository, branch),
                    Ok(pages),
                )
                &&& #[trigger] classic_was_read(
                    runner,
                    repository,
                    branch,
                    settings.protected,
                    classic,
                )
                &&& pages.len() > 0
                &&& classic_is_plain(classic)
                &&& forall|x: RequiredCheckView| #[trigger]
                    read.checks.contains(x) <==> rules_ask(pages, x) || classic_asks(classic, x)
                &&& forall|x: RequiredCheckView| #[trigger]
                    read.checks.contains(x) ==> read.contexts.contains(x.context)
            },
{
    let settings = choose|settings: Result<BranchSettingsJsonView, MutationErrorView>| #[trigger]
        adapter::got::<R, BranchSettingsJson>(
            runner,
            commands::branch_settings(repository, branch),
            settings,
        ) && match settings {
            Err(_) => read == required_runs::partial_read(branch),
            Ok(known) => required_policy::rules_read(
                runner,
                repository,
                branch,
                known.protected,
                read,
            ),
        };
    let protected = settings->Ok_0.protected;
    let pages = choose|pages: Result<Seq<Seq<BranchRuleView>>, MutationErrorView>| #[trigger]
        adapter::got::<R, Vec<Vec<BranchRule>>>(
            runner,
            required_policy::branch_rules(repository, branch),
            pages,
        ) && match pages {
            Err(_) => read == required_runs::partial_read(branch),
            Ok(rows) => if protected {
                required_policy::classic_read(runner, repository, branch, rows, read)
            } else {
                read == required_policy::effective(branch, false, rows, None)
            },
        };
    let rows = pages->Ok_0;
    let classic = if protected {
        Some(
            choose|policy: Result<BranchProtectionJsonView, MutationErrorView>| #[trigger]
                adapter::got::<R, BranchProtectionJson>(
                    runner,
                    commands::branch_protection(repository, branch),
                    policy,
                ) && read == required_policy::effective(branch, true, rows, Some(policy)),
        )
    } else {
        None
    };
    assert(read == required_policy::effective(branch, protected, rows, classic));
    assert(classic_was_read(runner, repository, branch, protected, classic));
    lemma_policy_holds_what_is_asked(branch, protected, rows, classic);
    lemma_policy_is_complete_exactly(branch, protected, rows, classic);
}

/// The classic protection was read exactly where the branch is protected.
pub open spec fn classic_was_read<R: CommandRunner>(
    runner: R,
    repository: RepositoryIdView,
    branch: Seq<char>,
    protected: bool,
    classic: Option<Result<BranchProtectionJsonView, MutationErrorView>>,
) -> bool {
    match classic {
        Some(policy) => protected && adapter::got::<R, BranchProtectionJson>(
            runner,
            commands::branch_protection(repository, branch),
            policy,
        ),
        None => !protected,
    }
}

} // verus!
