//! Documents of the provider.

use caravan::github::raw::{CheckJson, PullRequestJson};
use caravan::json::Decode;
use caravan::model::{latest_checks_per_identity, CheckState, CommitOid, RepositoryId};

fn read<T: Decode>(source: &str) -> Option<T> {
    let value: serde_json::Value = serde_json::from_str(source).unwrap();
    T::decode(&value)
}

#[test]
fn a_null_label_list_reads_as_unlabelled_rather_than_failing_discovery() {
    let json = r#"{
        "number": 2308,
        "title": "closed with nothing attached",
        "state": "CLOSED",
        "isDraft": false,
        "headRefName": "topic",
        "headRefOid": "head",
        "isCrossRepository": false,
        "baseRefName": "main",
        "baseRefOid": "base",
        "labels": null,
        "statusCheckRollup": null,
        "createdAt": "2026-07-30T00:00:00Z",
        "mergedAt": null,
        "url": "https://example.test/pr/2308",
        "updatedAt": "2026-07-30T00:00:00Z"
    }"#;

    let parsed: PullRequestJson =
        read(json).expect("an explicit null sequence is not a provider defect");

    assert!(parsed.labels.is_empty(), "unlabelled, not undiscoverable");
    assert!(parsed.status_check_rollup.is_empty());
}

#[test]
fn a_check_run_keeps_its_identity_and_run_ordering() {
    let json = r#"{
        "__typename": "CheckRun",
        "name": "Public Fast Tests preparation",
        "context": null,
        "status": "COMPLETED",
        "conclusion": "CANCELLED",
        "state": null,
        "workflowName": "Public Fast Tests",
        "detailsUrl": "https://example.test/actions/runs/1/job/2",
        "targetUrl": null,
        "startedAt": "2026-08-01T10:26:00Z",
        "completedAt": "2026-08-01T10:30:00Z"
    }"#;

    let snapshot = read::<CheckJson>(json)
        .expect("a rollup element parses")
        .into_snapshot();

    assert_eq!(snapshot.provider_kind.as_deref(), Some("CheckRun"));
    assert_eq!(snapshot.workflow_name.as_deref(), Some("Public Fast Tests"));
    assert_eq!(snapshot.started_at.as_deref(), Some("2026-08-01T10:26:00Z"));
    assert_eq!(
        snapshot.observed_at().as_deref(),
        Some("2026-08-01T10:30:00Z"),
        "a completed run is ordered by its completion"
    );
}

#[test]
fn a_status_context_orders_by_created_at() {
    let json = r#"{
        "__typename": "StatusContext",
        "name": null,
        "context": "buildkite/pipeline",
        "status": null,
        "conclusion": null,
        "state": "SUCCESS",
        "workflowName": null,
        "detailsUrl": null,
        "targetUrl": "https://example.test/build/9",
        "createdAt": "2026-08-01T10:56:00Z"
    }"#;

    let snapshot = read::<CheckJson>(json)
        .expect("a status context parses")
        .into_snapshot();

    assert_eq!(snapshot.name, "buildkite/pipeline");
    assert_eq!(snapshot.provider_kind.as_deref(), Some("StatusContext"));
    assert_eq!(snapshot.observed_at().as_deref(), Some("2026-08-01T10:56:00Z"));
}

#[test]
fn a_pull_request_rollup_marks_its_superseded_runs() {
    let element = |conclusion: &str, status: &str, started: &str, completed: &str| {
        format!(
            r#"{{"__typename":"CheckRun","name":"Public Fast Tests preparation","context":null,"status":"{status}","conclusion":{conclusion},"state":null,"workflowName":"CI","detailsUrl":null,"targetUrl":null,"startedAt":"{started}"{completed}}}"#
        )
    };
    let rollup = format!(
        "[{},{}]",
        element(
            "\"CANCELLED\"",
            "COMPLETED",
            "2026-08-01T10:26:00Z",
            ",\"completedAt\":\"2026-08-01T10:30:00Z\""
        ),
        element("null", "IN_PROGRESS", "2026-08-01T10:57:00Z", "")
    );
    let json = format!(
        r#"{{
            "number": 2339,
            "title": "two-root incident",
            "body": "",
            "state": "OPEN",
            "isDraft": false,
            "headRefName": "topic",
            "headRefOid": "9fb22ff9930d621336ee435f29989639072f5ac5",
            "isCrossRepository": false,
            "baseRefName": "main",
            "baseRefOid": "base",
            "labels": [],
            "statusCheckRollup": {rollup},
            "createdAt": "2026-08-01T10:00:00Z",
            "mergedAt": null,
            "url": "https://example.test/pr/2339",
            "updatedAt": "2026-08-01T11:00:00Z"
        }}"#
    );

    let snapshot = read::<PullRequestJson>(&json)
        .expect("the live shape parses")
        .into_snapshot(&RepositoryId {
            owner: "acme".to_owned(),
            name: "widgets".to_owned(),
        })
        .expect("normalization succeeds");

    assert_eq!(snapshot.checks.len(), 2, "history is retained, not dropped");
    assert!(
        snapshot.checks[0].superseded,
        "the cancelled run has been rerun"
    );
    assert!(
        !snapshot.checks[1].superseded,
        "the in-progress run is current"
    );

    let (current, superseded) = latest_checks_per_identity(&snapshot.checks);
    assert_eq!(current.len(), 1);
    assert_eq!(current[0].state, CheckState::InProgress);
    assert_eq!(superseded.len(), 1);
}

#[test]
fn a_rollup_element_without_timestamps_still_parses() {
    let json = r#"{
        "__typename": "CheckRun",
        "name": "test",
        "context": null,
        "status": "COMPLETED",
        "conclusion": "SUCCESS",
        "state": null,
        "workflowName": "CI",
        "detailsUrl": null,
        "targetUrl": null
    }"#;

    let snapshot = read::<CheckJson>(json)
        .expect("timestamps are optional")
        .into_snapshot();

    assert_eq!(snapshot.observed_at().as_deref(), None, "no evidence, not 'oldest'");
}

#[test]
fn a_check_row_keeps_its_app_suite_and_commit() {
    let row = r#"{
        "__typename": "CheckRun", "name": "gate", "status": "COMPLETED", "conclusion": "SUCCESS",
        "appId": 77, "checkSuiteId": 900, "headOid": "other-head"
    }"#;
    let check = read::<CheckJson>(row).unwrap().into_snapshot();
    assert_eq!(check.app_id, Some(77));
    assert_eq!(check.check_suite_id, Some(900));
    assert_eq!(check.head_oid, Some(CommitOid("other-head".into())));

    let bare = r#"{"__typename": "CheckRun", "name": "gate", "appId": null}"#;
    let check = read::<CheckJson>(bare).unwrap().into_snapshot();
    assert_eq!(check.app_id, None);
    assert_eq!(check.check_suite_id, None);
    assert_eq!(check.head_oid, None);

    let wrong = r#"{"__typename": "CheckRun", "name": "gate", "appId": "77"}"#;
    assert!(read::<CheckJson>(wrong).is_none());
}
