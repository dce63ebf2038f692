//! The reuse of prepared revisions.

use std::time::{Duration, Instant};

use caravan::graph::prepared::{
    GitCompatibilityChecker, PreparedRevisions, Table, MAX_PREPARED_REVISIONS,
    PREPARED_REVISION_MAX_AGE,
};
use caravan::model::{BranchSnapshot, CommitOid, RepositoryId};

const NOW: u64 = 1_000_000_000_000;

fn branch(name: &str, oid: &str) -> BranchSnapshot {
    BranchSnapshot {
        repository: RepositoryId {
            owner: "acme".to_owned(),
            name: "widgets".to_owned(),
        },
        name: name.to_owned(),
        oid: CommitOid(oid.to_owned()),
    }
}

fn checker(repository: &str, remote: &str) -> GitCompatibilityChecker {
    GitCompatibilityChecker::new(repository, remote, Duration::from_secs(30))
}

fn prepared(rows: &[(&str, &str, &str)]) -> Table<(String, CommitOid), CommitOid> {
    let mut table = Table::new();
    for (name, oid, resolved) in rows {
        table.put(
            ((*name).to_owned(), CommitOid((*oid).to_owned())),
            CommitOid((*resolved).to_owned()),
        );
    }
    table
}

fn resolved_by(
    mut reader: GitCompatibilityChecker,
    shared: &mut PreparedRevisions,
    wanted: &BranchSnapshot,
    now: u64,
) -> Option<CommitOid> {
    reader.hydrate_from_shared_cache(shared, &vec![wanted.clone()], now);
    reader.resolved(wanted)
}

#[test]
fn a_published_revision_is_reused_by_its_exact_identity_alone() {
    let main = branch("main", "aaa");
    let mut shared = PreparedRevisions::new();
    checker("/repo", "origin").publish_to_shared_cache(
        &mut shared,
        &vec![main.clone()],
        &prepared(&[("main", "aaa", "resolved")]),
        NOW,
    );

    assert_eq!(
        resolved_by(checker("/repo", "origin"), &mut shared, &main, NOW),
        Some(CommitOid("resolved".to_owned()))
    );
    assert_eq!(resolved_by(checker("/other", "origin"), &mut shared, &main, NOW), None);
    assert_eq!(resolved_by(checker("/repo", "fork"), &mut shared, &main, NOW), None);
    assert_eq!(
        resolved_by(checker("/repo", "origin"), &mut shared, &branch("next", "aaa"), NOW),
        None
    );
    assert_eq!(
        resolved_by(checker("/repo", "origin"), &mut shared, &branch("main", "bbb"), NOW),
        None
    );
    let mut elsewhere = main;
    elsewhere.repository.name = "gadgets".to_owned();
    assert_eq!(resolved_by(checker("/repo", "origin"), &mut shared, &elsewhere, NOW), None);
}

#[test]
fn a_revision_is_reused_up_to_its_greatest_age_and_no_longer() {
    let main = branch("main", "aaa");
    let mut shared = PreparedRevisions::new();
    checker("/repo", "origin").publish_to_shared_cache(
        &mut shared,
        &vec![main.clone()],
        &prepared(&[("main", "aaa", "resolved")]),
        NOW,
    );
    let limit = NOW + PREPARED_REVISION_MAX_AGE;
    assert!(resolved_by(checker("/repo", "origin"), &mut shared, &main, limit).is_some());
    assert!(resolved_by(checker("/repo", "origin"), &mut shared, &main, limit + 1).is_none());
    // Once it left, an earlier reading of the clock does not bring it back.
    assert!(resolved_by(checker("/repo", "origin"), &mut shared, &main, NOW).is_none());
}

#[test]
fn an_oldest_revision_makes_room_in_a_full_cache() {
    let mut shared = PreparedRevisions::new();
    let writer = checker("/repo", "origin");
    let first = branch("branch-0", "aaa");
    let second = branch("branch-1", "aaa");
    writer.publish_to_shared_cache(
        &mut shared,
        &vec![first.clone()],
        &prepared(&[("branch-0", "aaa", "resolved")]),
        NOW,
    );
    let names: Vec<String> = (1..MAX_PREPARED_REVISIONS)
        .map(|index| format!("branch-{index}"))
        .collect();
    let rows: Vec<(&str, &str, &str)> = names
        .iter()
        .map(|name| (name.as_str(), "aaa", "resolved"))
        .collect();
    let branches: Vec<BranchSnapshot> = names.iter().map(|name| branch(name, "aaa")).collect();
    writer.publish_to_shared_cache(&mut shared, &branches, &prepared(&rows), NOW + 1);
    assert!(shared.get(&writer.shared_key(&first)).is_some());

    let last_name = format!("branch-{MAX_PREPARED_REVISIONS}");
    writer.publish_to_shared_cache(
        &mut shared,
        &vec![branch(&last_name, "aaa")],
        &prepared(&[(last_name.as_str(), "aaa", "resolved")]),
        NOW + 2,
    );
    let last = branch(&format!("branch-{MAX_PREPARED_REVISIONS}"), "aaa");
    assert!(shared.get(&writer.shared_key(&first)).is_none());
    assert!(shared.get(&writer.shared_key(&second)).is_some());
    assert!(shared.get(&writer.shared_key(&last)).is_some());
}

#[test]
fn only_unprepared_branches_are_missing_until_they_are_recorded() {
    let mut reader = checker("/repo", "origin");
    let main = branch("main", "aaa");
    let next = branch("next", "bbb");
    let both = vec![main.clone(), next.clone()];
    assert_eq!(reader.missing(&both), both);
    assert_eq!(reader.resolved_pair(&next, &main), None);

    reader.record(&prepared(&[("main", "aaa", "one")]));
    assert_eq!(reader.missing(&both), vec![next.clone()]);

    reader.record(&prepared(&[("next", "bbb", "two")]));
    assert!(reader.missing(&both).is_empty());
    assert_eq!(
        reader.resolved_pair(&next, &main),
        Some((CommitOid("two".to_owned()), CommitOid("one".to_owned())))
    );
}

#[test]
fn deadlines_are_set_and_nothing_else_changes() {
    let deadline = Instant::now();
    let set = checker("/repo", "origin")
        .with_timeout(Duration::from_secs(5))
        .with_operation_deadline(deadline);
    assert_eq!(set.timeout, Duration::from_secs(5));
    assert_eq!(set.operation_deadline, Some(deadline));
    assert_eq!(set.repository, "/repo");
    assert_eq!(set.remote, "origin");
}
