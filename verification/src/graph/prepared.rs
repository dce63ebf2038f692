//! Revisions that were prepared for compatibility proofs, and for how long they
//! may be reused.

use std::time::{Duration, Instant};

use vstd::prelude::*;
use crate::model::{
    push_item, BranchSnapshot, BranchSnapshotView, CommitOid, Model, RepositoryId,
    RepositoryIdView,
};

verus! {

/// The longest reuse of a prepared revision, in nanoseconds.
pub const PREPARED_REVISION_MAX_AGE: u64 = 600_000_000_000;

/// The most prepared revisions that are kept.
pub const MAX_PREPARED_REVISIONS: usize = 4_096;

/// Whose revision was prepared where.
#[derive(Debug, PartialEq, Eq)]
pub struct PreparedRevisionKey {
    /// The local object database, by its path.
    pub local_repository: String,
    pub remote: String,
    pub provider_repository: RepositoryId,
    pub branch: String,
    pub oid: CommitOid,
}

/// The content of a [`PreparedRevisionKey`].
#[verifier::ext_equal]
pub struct PreparedRevisionKeyView {
    pub local_repository: Seq<char>,
    pub remote: Seq<char>,
    pub provider_repository: RepositoryIdView,
    pub branch: Seq<char>,
    pub oid: Seq<char>,
}

impl DeepView for PreparedRevisionKey {
    type V = PreparedRevisionKeyView;

    open spec fn deep_view(&self) -> PreparedRevisionKeyView {
        PreparedRevisionKeyView {
            local_repository: self.local_repository.deep_view(),
            remote: self.remote.deep_view(),
            provider_repository: self.provider_repository.deep_view(),
            branch: self.branch.deep_view(),
            oid: self.oid.deep_view(),
        }
    }
}

impl Clone for PreparedRevisionKey {
    fn clone(&self) -> (r: Self)
        ensures
            r.deep_view() == self.deep_view(),
    {
        self.dup()
    }
}

impl Model for PreparedRevisionKey {
    fn same(&self, other: &Self) -> (r: bool) {
        self.local_repository.same(&other.local_repository)
            && self.remote.same(&other.remote)
            && self.provider_repository.same(&other.provider_repository)
            && self.branch.same(&other.branch)
            && self.oid.same(&other.oid)
    }

    fn dup(&self) -> (r: Self) {
        PreparedRevisionKey {
            local_repository: self.local_repository.dup(),
            remote: self.remote.dup(),
            provider_repository: self.provider_repository.dup(),
            branch: self.branch.dup(),
            oid: self.oid.dup(),
        }
    }
}

/// One prepared revision.
#[derive(Debug, PartialEq, Eq)]
pub struct PreparedRevision {
    /// Reading of a monotonic clock, in nanoseconds.
    pub inserted: u64,
    pub resolved: CommitOid,
}

/// The content of a [`PreparedRevision`].
#[verifier::ext_equal]
pub struct PreparedRevisionView {
    pub inserted: u64,
    pub resolved: Seq<char>,
}

impl DeepView for PreparedRevision {
    type V = PreparedRevisionView;

    open spec fn deep_view(&self) -> PreparedRevisionView {
        PreparedRevisionView {
            inserted: self.inserted.deep_view(),
            resolved: self.resolved.deep_view(),
        }
    }
}

impl Clone for PreparedRevision {
    fn clone(&self) -> (r: Self)
        ensures
            r.deep_view() == self.deep_view(),
    {
        self.dup()
    }
}

impl Model for PreparedRevision {
    fn same(&self, other: &Self) -> (r: bool) {
        self.inserted.same(&other.inserted)
            && self.resolved.same(&other.resolved)
    }

    fn dup(&self) -> (r: Self) {
        PreparedRevision {
            inserted: self.inserted.dup(),
            resolved: self.resolved.dup(),
        }
    }
}

// ---------------------------------------------------------------------------
// Tables
// ---------------------------------------------------------------------------

/// The map of rows: a later row of a key takes the place of an earlier one.
pub open spec fn table_of<K, V>(rows: Seq<(K, V)>) -> Map<K, V>
    decreases rows.len(),
{
    if rows.len() == 0 {
        Map::empty()
    } else {
        table_of(rows.drop_last()).insert(rows.last().0, rows.last().1)
    }
}

/// No key has two rows.
pub open spec fn one_row_each<K, V>(rows: Seq<(K, V)>) -> bool {
    forall|i: int, j: int|
        0 <= i < j < rows.len() ==> (#[trigger] rows[i]).0 != (#[trigger] rows[j]).0
}

proof fn lemma_table<K, V>(rows: Seq<(K, V)>)
    ensures
        table_of(rows).dom().finite(),
        forall|k: K|
            table_of(rows).dom().contains(k) ==> exists|i: int|
                0 <= i < rows.len() && (#[trigger] rows[i]).0 == k,
        forall|i: int|
            0 <= i < rows.len() ==> table_of(rows).dom().contains((#[trigger] rows[i]).0),
        one_row_each(rows) ==> table_of(rows).len() == rows.len(),
        one_row_each(rows) ==> forall|i: int|
            0 <= i < rows.len() ==> table_of(rows)[(#[trigger] rows[i]).0] == rows[i].1,
    decreases rows.len(),
{
    if rows.len() > 0 {
        let before = rows.drop_last();
        lemma_table(before);
        assert forall|k: K| table_of(rows).dom().contains(k) implies exists|i: int|
            0 <= i < rows.len() && (#[trigger] rows[i]).0 == k by {
            if k == rows.last().0 {
                assert(rows[rows.len() - 1].0 == k);
            } else {
                let i = choose|i: int| 0 <= i < before.len() && (#[trigger] before[i]).0 == k;
                assert(rows[i].0 == k);
            }
        }
        assert forall|i: int| 0 <= i < rows.len() implies table_of(rows).dom().contains(
            (#[trigger] rows[i]).0,
        ) by {
            if i < before.len() {
                assert(before[i] == rows[i]);
            }
        }
        if one_row_each(rows) {
            assert(one_row_each(before)) by {
                assert forall|i: int, j: int| 0 <= i < j < before.len() implies (
                #[trigger] before[i]).0 != (#[trigger] before[j]).0 by {
                    assert(rows[i].0 != rows[j].0);
                }
            }
            assert(!table_of(before).dom().contains(rows.last().0)) by {
                if table_of(before).dom().contains(rows.last().0) {
                    let i = choose|i: int|
                        0 <= i < before.len() && (#[trigger] before[i]).0 == rows.last().0;
                    assert(rows[i].0 != rows[rows.len() - 1].0);
                }
            }
            assert(table_of(rows).dom() =~= table_of(before).dom().insert(rows.last().0));
            assert forall|i: int| 0 <= i < rows.len() implies table_of(rows)[(
            #[trigger] rows[i]).0] == rows[i].1 by {
                if i < before.len() {
                    assert(before[i] == rows[i]);
                    assert(rows[i].0 != rows[rows.len() - 1].0);
                }
            }
        }
    }
}

proof fn lemma_updated<K, V>(rows: Seq<(K, V)>, i: int, value: V)
    requires
        one_row_each(rows),
        0 <= i < rows.len(),
    ensures
        one_row_each(rows.update(i, (rows[i].0, value))),
        table_of(rows.update(i, (rows[i].0, value))) == table_of(rows).insert(rows[i].0, value),
{
    let after = rows.update(i, (rows[i].0, value));
    assert(one_row_each(after)) by {
        assert forall|a: int, b: int| 0 <= a < b < after.len() implies (#[trigger] after[a]).0 != (
        #[trigger] after[b]).0 by {
            assert(rows[a].0 != rows[b].0);
        }
    }
    lemma_table(rows);
    lemma_table(after);
    assert(table_of(after) =~= table_of(rows).insert(rows[i].0, value)) by {
        assert forall|k: K| table_of(after).dom().contains(k) implies table_of(rows).insert(
            rows[i].0,
            value,
        ).dom().contains(k) && table_of(after)[k] == table_of(rows).insert(rows[i].0, value)[k] by {
            let j = choose|j: int| 0 <= j < after.len() && (#[trigger] after[j]).0 == k;
            assert(rows[j].0 == k);
            if j != i {
                assert(after[j] == rows[j]);
                if j < i {
                    assert(rows[j].0 != rows[i].0);
                } else {
                    assert(rows[i].0 != rows[j].0);
                }
            }
        }
        assert forall|k: K| table_of(rows).insert(rows[i].0, value).dom().contains(
            k,
        ) implies table_of(
            after,
        ).dom().contains(k) by {
            if k == rows[i].0 {
                assert(after[i].0 == k);
            } else {
                let j = choose|j: int| 0 <= j < rows.len() && (#[trigger] rows[j]).0 == k;
                assert(after[j].0 == k);
            }
        }
    }
}

proof fn lemma_removed<K, V>(rows: Seq<(K, V)>, i: int)
    requires
        one_row_each(rows),
        0 <= i < rows.len(),
    ensures
        one_row_each(rows.remove(i)),
        table_of(rows.remove(i)) == table_of(rows).remove(rows[i].0),
{
    let after = rows.remove(i);
    assert(one_row_each(after)) by {
        assert forall|a: int, b: int| 0 <= a < b < after.len() implies (#[trigger] after[a]).0 != (
        #[trigger] after[b]).0 by {
            let c = if a < i {
                a
            } else {
                a + 1
            };
            let d = if b < i {
                b
            } else {
                b + 1
            };
            assert(rows[c].0 != rows[d].0);
        }
    }
    lemma_table(rows);
    lemma_table(after);
    assert(table_of(after) =~= table_of(rows).remove(rows[i].0)) by {
        assert forall|k: K| table_of(after).dom().contains(k) implies table_of(rows).remove(
            rows[i].0,
        ).dom().contains(k) && table_of(after)[k] == table_of(rows)[k] by {
            let j = choose|j: int| 0 <= j < after.len() && (#[trigger] after[j]).0 == k;
            let c = if j < i {
                j
            } else {
                j + 1
            };
            assert(rows[c].0 == k);
            if c < i {
                assert(rows[c].0 != rows[i].0);
            } else {
                assert(rows[i].0 != rows[c].0);
            }
        }
        assert forall|k: K| table_of(rows).remove(rows[i].0).dom().contains(k) implies table_of(
            after,
        ).dom().contains(k) by {
            let j = choose|j: int| 0 <= j < rows.len() && (#[trigger] rows[j]).0 == k;
            let c = if j < i {
                j
            } else {
                j - 1
            };
            assert(after[c].0 == k);
        }
    }
}

proof fn lemma_pushed<K, V>(rows: Seq<(K, V)>, key: K, value: V)
    requires
        one_row_each(rows),
        !table_of(rows).dom().contains(key),
    ensures
        one_row_each(rows.push((key, value))),
        table_of(rows.push((key, value))) == table_of(rows).insert(key, value),
{
    let after = rows.push((key, value));
    lemma_table(rows);
    assert(after.drop_last() =~= rows);
    assert forall|a: int, b: int| 0 <= a < b < after.len() implies (#[trigger] after[a]).0 != (
    #[trigger] after[b]).0 by {
        if b < rows.len() {
            assert(rows[a].0 != rows[b].0);
        } else {
            assert(table_of(rows).dom().contains(rows[a].0));
        }
    }
}

/// A table: one value for each of some keys.
pub struct Table<K, V> {
    rows: Vec<(K, V)>,
}

impl<K: Model, V: Model> View for Table<K, V> {
    type V = Map<K::V, V::V>;

    closed spec fn view(&self) -> Map<K::V, V::V> {
        table_of(self.rows.deep_view())
    }
}

impl<K: Model, V: Model> Table<K, V> {
    /// No key has two rows.
    pub closed spec fn wf(&self) -> bool {
        one_row_each(self.rows.deep_view())
    }

    /// A table holds finitely many keys.
    pub proof fn lemma_finite(&self)
        ensures
            self@.dom().finite(),
    {
        lemma_table(self.rows.deep_view());
    }

    pub fn new() -> (r: Self)
        ensures
            r.wf(),
            r@ == Map::<K::V, V::V>::empty(),
    {
        let rows: Vec<(K, V)> = Vec::new();
        assert(rows.deep_view() =~= Seq::<(K::V, V::V)>::empty());
        Table { rows }
    }

    /// How many keys there are.
    pub fn len(&self) -> (r: usize)
        requires
            self.wf(),
        ensures
            r == self@.len(),
    {
        proof {
            lemma_table(self.rows.deep_view());
        }
        self.rows.len()
    }

    fn find(&self, key: &K) -> (r: Option<usize>)
        requires
            self.wf(),
        ensures
            match r {
                Some(i) => i < self.rows.len() && self.rows.deep_view()[i as int].0
                    == key.deep_view(),
                None => !self@.dom().contains(key.deep_view()),
            },
    {
        let ghost all = self.rows.deep_view();
        let mut i: usize = 0;
        while i < self.rows.len()
            invariant
                all == self.rows.deep_view(),
                i <= self.rows.len(),
                forall|j: int| 0 <= j < i ==> (#[trigger] all[j]).0 != key.deep_view(),
            decreases self.rows.len() - i,
        {
            assert(all[i as int] == self.rows[i as int].deep_view());
            if self.rows[i].0.same(key) {
                return Some(i);
            }
            i = i + 1;
        }
        proof {
            lemma_table(all);
        }
        None
    }

    /// The value of a key.
    pub fn get(&self, key: &K) -> (r: Option<V>)
        requires
            self.wf(),
        ensures
            r.deep_view() == self@.get(key.deep_view()),
    {
        match self.find(key) {
            Some(i) => {
                proof {
                    lemma_table(self.rows.deep_view());
                    assert(self.rows.deep_view()[i as int] == self.rows[i as int].deep_view());
                }
                Some(self.rows[i].1.dup())
            },
            None => None,
        }
    }

    /// Whether a key has a value.
    pub fn holds(&self, key: &K) -> (r: bool)
        requires
            self.wf(),
        ensures
            r == self@.dom().contains(key.deep_view()),
    {
        match self.find(key) {
            Some(i) => {
                proof {
                    lemma_table(self.rows.deep_view());
                }
                true
            },
            None => false,
        }
    }

    /// Gives a key a value.
    pub fn put(&mut self, key: K, value: V)
        requires
            old(self).wf(),
        ensures
            final(self).wf(),
            final(self)@ == old(self)@.insert(key.deep_view(), value.deep_view()),
    {
        let ghost before = self.rows.deep_view();
        let ghost k = key.deep_view();
        let ghost v = value.deep_view();
        match self.find(&key) {
            Some(i) => {
                self.rows.set(i, (key, value));
                proof {
                    assert(
                        self.rows.deep_view() =~= before.update(i as int, (before[i as int].0, v))
                    );
                    lemma_updated(before, i as int, v);
                }
            },
            None => {
                self.rows.push((key, value));
                proof {
                    assert(self.rows.deep_view() =~= before.push((k, v)));
                    lemma_pushed(before, k, v);
                }
            },
        }
    }

    /// Gives every key of another table its value there.
    pub fn merge(&mut self, other: &Table<K, V>)
        requires
            old(self).wf(),
            other.wf(),
        ensures
            final(self).wf(),
            final(self)@ == old(self)@.union_prefer_right(other@),
    {
        let ghost before = self@;
        let ghost rows = other.rows.deep_view();
        let mut i: usize = 0;
        assert(self@ =~= before.union_prefer_right(table_of(rows.take(0))));
        while i < other.rows.len()
            invariant
                rows == other.rows.deep_view(),
                i <= other.rows.len(),
                self.wf(),
                self@ == before.union_prefer_right(table_of(rows.take(i as int))),
            decreases other.rows.len() - i,
        {
            assert(rows.take(i as int + 1).drop_last() =~= rows.take(i as int));
            assert(rows[i as int] == other.rows[i as int].deep_view());
            self.put(other.rows[i].0.dup(), other.rows[i].1.dup());
            assert(self@ =~= before.union_prefer_right(table_of(rows.take(i as int + 1))));
            i = i + 1;
        }
        assert(rows.take(i as int) =~= rows);
    }

    /// Takes a key away.
    pub fn drop_key(&mut self, key: &K)
        requires
            old(self).wf(),
        ensures
            final(self).wf(),
            final(self)@ == old(self)@.remove(key.deep_view()),
    {
        let ghost before = self.rows.deep_view();
        match self.find(key) {
            Some(i) => {
                self.rows.remove(i);
                proof {
                    assert(self.rows.deep_view() =~= before.remove(i as int));
                    lemma_removed(before, i as int);
                }
            },
            None => {
                assert(self@.remove(key.deep_view()) =~= self@);
            },
        }
    }
}

// ---------------------------------------------------------------------------
// The shared cache
// ---------------------------------------------------------------------------

/// Prepared revisions by identity.
pub type Revisions = Map<PreparedRevisionKeyView, PreparedRevisionView>;

/// Whether a revision that was prepared at one moment may be reused at another.
/// A clock that did not advance counts as no time at all.
pub open spec fn reusable(inserted: u64, now: u64) -> bool {
    now - inserted <= PREPARED_REVISION_MAX_AGE
}

/// The revisions that may still be reused.
pub open spec fn fresh(revisions: Revisions, now: u64) -> Revisions {
    revisions.restrict(
        Set::new(
            |key: PreparedRevisionKeyView|
                revisions.dom().contains(key) && reusable(revisions[key].inserted, now),
        ),
    )
}

/// No revision is older than this one.
pub open spec fn is_oldest(revisions: Revisions, key: PreparedRevisionKeyView) -> bool {
    revisions.dom().contains(key) && forall|other: PreparedRevisionKeyView| #[trigger]
        revisions.dom().contains(other) ==> revisions[key].inserted <= revisions[other].inserted
}

/// Keeping one more revision may turn one cache into another: where a new key
/// finds the cache full, an oldest revision makes room.
pub open spec fn kept(
    before: Revisions,
    key: PreparedRevisionKeyView,
    revision: PreparedRevisionView,
    after: Revisions,
) -> bool {
    if before.dom().contains(key) || before.len() < MAX_PREPARED_REVISIONS {
        after == before.insert(key, revision)
    } else {
        exists|gone: PreparedRevisionKeyView| #[trigger]
            is_oldest(before, gone) && after == before.remove(gone).insert(key, revision)
    }
}

/// The revisions of a process, shared by all its checkers.
pub struct PreparedRevisions {
    table: Table<PreparedRevisionKey, PreparedRevision>,
}

impl View for PreparedRevisions {
    type V = Revisions;

    closed spec fn view(&self) -> Revisions {
        self.table@
    }
}

impl PreparedRevisions {
    /// The table is one, and it is not overfull.
    pub closed spec fn wf(&self) -> bool {
        self.table.wf() && self.table@.len() <= MAX_PREPARED_REVISIONS
    }

    /// The cache holds finitely many revisions, and no more than its limit.
    pub proof fn lemma_bounded(&self)
        requires
            self.wf(),
        ensures
            self@.dom().finite(),
            self@.len() <= MAX_PREPARED_REVISIONS,
    {
        self.table.lemma_finite();
    }

    pub fn new() -> (r: Self)
        ensures
            r.wf(),
            r@ == Map::<PreparedRevisionKeyView, PreparedRevisionView>::empty(),
    {
        PreparedRevisions { table: Table::new() }
    }

    /// The revision of a key.
    pub fn get(&self, key: &PreparedRevisionKey) -> (r: Option<PreparedRevision>)
        requires
            self.wf(),
        ensures
            r.deep_view() == self@.get(key.deep_view()),
    {
        self.table.get(key)
    }

    /// Drops what may not be reused any more.
    pub fn expire(&mut self, now: u64)
        requires
            old(self).wf(),
        ensures
            final(self).wf(),
            final(self)@ == fresh(old(self)@, now),
    {
        let ghost before = self.table@;
        proof {
            self.table.lemma_finite();
        }
        let mut i: usize = 0;
        while i < self.table.rows.len()
            invariant
                i <= self.table.rows.len(),
                self.table.wf(),
                before.dom().finite(),
                before.len() <= MAX_PREPARED_REVISIONS,
                forall|key: PreparedRevisionKeyView| #[trigger]
                    self.table@.dom().contains(key) ==> before.dom().contains(key)
                        && self.table@[key] == before[key],
                forall|key: PreparedRevisionKeyView| #[trigger]
                    before.dom().contains(key) && !self.table@.dom().contains(key) ==> !reusable(
                        before[key].inserted,
                        now,
                    ),
                forall|j: int|
                    0 <= j < i ==> reusable(
                        (#[trigger] self.table.rows.deep_view()[j]).1.inserted,
                        now,
                    ),
            decreases self.table.rows.len() - i,
        {
            let ghost rows = self.table.rows.deep_view();
            let ghost last = self.table@;
            proof {
                lemma_table(rows);
                assert(rows[i as int] == self.table.rows[i as int].deep_view());
            }
            let inserted = self.table.rows[i].1.inserted;
            if inserted < now && now - inserted > PREPARED_REVISION_MAX_AGE {
                self.table.rows.remove(i);
                proof {
                    assert(self.table.rows.deep_view() =~= rows.remove(i as int));
                    lemma_removed(rows, i as int);
                    assert(self.table@ == last.remove(rows[i as int].0));
                    assert forall|key: PreparedRevisionKeyView| #[trigger]
                        self.table@.dom().contains(key) implies before.dom().contains(key)
                        && self.table@[key] == before[key] by {
                        assert(last.dom().contains(key));
                    }
                }
            } else {
                i = i + 1;
            }
        }
        proof {
            let rows = self.table.rows.deep_view();
            lemma_table(rows);
            assert forall|key: PreparedRevisionKeyView| #[trigger]
                self.table@.dom().contains(key) implies reusable(before[key].inserted, now) by {
                let j = choose|j: int| 0 <= j < rows.len() && (#[trigger] rows[j]).0 == key;
                assert(reusable(rows[j].1.inserted, now));
            }
            assert(self.table@ =~= fresh(before, now));
            vstd::set_lib::lemma_len_subset(self.table@.dom(), before.dom());
        }
    }

    fn oldest(&self) -> (r: Option<PreparedRevisionKey>)
        requires
            self.wf(),
        ensures
            match r {
                Some(key) => is_oldest(self@, key.deep_view()),
                None => self@.len() == 0,
            },
    {
        let ghost rows = self.table.rows.deep_view();
        proof {
            lemma_table(rows);
        }
        if self.table.rows.len() == 0 {
            return None;
        }
        let mut best: usize = 0;
        let mut i: usize = 1;
        while i < self.table.rows.len()
            invariant
                rows == self.table.rows.deep_view(),
                best < i <= self.table.rows.len(),
                forall|j: int|
                    0 <= j < i ==> rows[best as int].1.inserted <= (#[trigger] rows[j]).1.inserted,
            decreases self.table.rows.len() - i,
        {
            assert(rows[i as int] == self.table.rows[i as int].deep_view());
            assert(rows[best as int] == self.table.rows[best as int].deep_view());
            if self.table.rows[i].1.inserted < self.table.rows[best].1.inserted {
                best = i;
            }
            i = i + 1;
        }
        assert(rows[best as int] == self.table.rows[best as int].deep_view());
        let key = self.table.rows[best].0.dup();
        assert(is_oldest(self@, key.deep_view())) by {
            assert forall|other: PreparedRevisionKeyView| #[trigger]
                self@.dom().contains(other) implies self@[key.deep_view()].inserted
                <= self@[other].inserted by {
                let j = choose|j: int| 0 <= j < rows.len() && (#[trigger] rows[j]).0 == other;
                assert(rows[best as int].1.inserted <= rows[j].1.inserted);
            }
        }
        Some(key)
    }

    /// Keeps one more revision. Where a new key finds the cache full, an oldest
    /// revision makes room.
    pub fn keep(&mut self, key: PreparedRevisionKey, revision: PreparedRevision)
        requires
            old(self).wf(),
        ensures
            final(self).wf(),
            kept(old(self)@, key.deep_view(), revision.deep_view(), final(self)@),
    {
        let ghost before = self.table@;
        proof {
            self.table.lemma_finite();
        }
        if !self.table.holds(&key) && self.table.len() >= MAX_PREPARED_REVISIONS {
            match self.oldest() {
                Some(gone) => {
                    self.table.drop_key(&gone);
                    assert(is_oldest(before, gone.deep_view()));
                },
                None => {},
            }
        }
        proof {
            self.table.lemma_finite();
        }
        self.table.put(key, revision);
    }
}

// ---------------------------------------------------------------------------
// The checker
// ---------------------------------------------------------------------------

/// Resolved commits by branch name and commit.
pub type Resolved = Map<(Seq<char>, Seq<char>), Seq<char>>;

/// What a checker of one local repository and remote knows: the deadlines of
/// its work, and the revisions that were prepared for it.
pub struct GitCompatibilityChecker {
    pub repository: String,
    pub remote: String,
    pub timeout: Duration,
    pub operation_deadline: Option<Instant>,
    prepared: Table<(String, CommitOid), CommitOid>,
}

/// The content of a [`GitCompatibilityChecker`].
#[verifier::ext_equal]
pub struct GitCompatibilityCheckerView {
    pub repository: Seq<char>,
    pub remote: Seq<char>,
    pub timeout: Duration,
    pub operation_deadline: Option<Instant>,
    pub prepared: Resolved,
}

impl View for GitCompatibilityChecker {
    type V = GitCompatibilityCheckerView;

    closed spec fn view(&self) -> GitCompatibilityCheckerView {
        GitCompatibilityCheckerView {
            repository: self.repository@,
            remote: self.remote@,
            timeout: self.timeout,
            operation_deadline: self.operation_deadline,
            prepared: self.prepared@,
        }
    }
}

/// The key of a branch in one checker.
pub open spec fn local_key(branch: BranchSnapshotView) -> (Seq<char>, Seq<char>) {
    (branch.name, branch.oid)
}

impl GitCompatibilityCheckerView {
    /// The identity of a prepared branch: the local repository, the remote, the
    /// provider's repository, the branch and the commit.
    pub open spec fn identity(self, branch: BranchSnapshotView) -> PreparedRevisionKeyView {
        PreparedRevisionKeyView {
            local_repository: self.repository,
            remote: self.remote,
            provider_repository: branch.repository,
            branch: branch.name,
            oid: branch.oid,
        }
    }

    /// The commit that a branch was resolved to.
    pub open spec fn resolved(self, branch: BranchSnapshotView) -> Option<Seq<char>> {
        self.prepared.get(local_key(branch))
    }
}

/// What a checker knows once it took over the revisions of branches from the
/// cache.
pub open spec fn hydrated(
    checker: GitCompatibilityCheckerView,
    revisions: Revisions,
    branches: Seq<BranchSnapshotView>,
) -> Resolved
    decreases branches.len(),
{
    if branches.len() == 0 {
        checker.prepared
    } else {
        let before = hydrated(checker, revisions, branches.drop_last());
        let key = checker.identity(branches.last());
        if revisions.dom().contains(key) {
            before.insert(local_key(branches.last()), revisions[key].resolved)
        } else {
            before
        }
    }
}

/// The branches that are not prepared.
pub open spec fn unprepared(
    checker: GitCompatibilityCheckerView,
    branches: Seq<BranchSnapshotView>,
) -> Seq<BranchSnapshotView>
    decreases branches.len(),
{
    if branches.len() == 0 {
        Seq::empty()
    } else {
        let before = unprepared(checker, branches.drop_last());
        if checker.prepared.dom().contains(local_key(branches.last())) {
            before
        } else {
            before.push(branches.last())
        }
    }
}

/// Publishing one branch may turn one cache into another.
pub open spec fn published_one(
    checker: GitCompatibilityCheckerView,
    prepared: Resolved,
    branch: BranchSnapshotView,
    now: u64,
    before: Revisions,
    after: Revisions,
) -> bool {
    if prepared.dom().contains(local_key(branch)) {
        kept(
            before,
            checker.identity(branch),
            PreparedRevisionView { inserted: now, resolved: prepared[local_key(branch)] },
            after,
        )
    } else {
        after == before
    }
}

/// Publishing branches one after the other may pass through these caches.
pub open spec fn published_through(
    checker: GitCompatibilityCheckerView,
    prepared: Resolved,
    branches: Seq<BranchSnapshotView>,
    now: u64,
    states: Seq<Revisions>,
) -> bool {
    states.len() == branches.len() + 1 && forall|i: int|
        0 <= i < branches.len() ==> published_one(
            checker,
            prepared,
            #[trigger] branches[i],
            now,
            states[i],
            states[i + 1],
        )
}

/// Publishing branches may turn one cache into another: what is too old goes
/// first, then each branch that was prepared is kept.
pub open spec fn published(
    checker: GitCompatibilityCheckerView,
    prepared: Resolved,
    branches: Seq<BranchSnapshotView>,
    now: u64,
    before: Revisions,
    after: Revisions,
) -> bool {
    exists|states: Seq<Revisions>| #[trigger]
        published_through(checker, prepared, branches, now, states) && states.first() == fresh(
            before,
            now,
        ) && states.last() == after
}

impl GitCompatibilityChecker {
    /// The table of prepared revisions is one.
    pub closed spec fn wf(&self) -> bool {
        self.prepared.wf()
    }

    /// A checker that knows no prepared revision.
    pub fn new(repository: &str, remote: &str, timeout: Duration) -> (r: Self)
        ensures
            r.wf(),
            r@ == (GitCompatibilityCheckerView {
                repository: repository@,
                remote: remote@,
                timeout,
                operation_deadline: None,
                prepared: Map::empty(),
            }),
    {
        GitCompatibilityChecker {
            repository: repository.to_owned(),
            remote: remote.to_owned(),
            timeout,
            operation_deadline: None,
            prepared: Table::new(),
        }
    }

    /// Sets the deadline of each subprocess.
    pub fn with_timeout(self, timeout: Duration) -> (r: Self)
        requires
            self.wf(),
        ensures
            r.wf(),
            r@ == (GitCompatibilityCheckerView { timeout, ..self@ }),
    {
        GitCompatibilityChecker { timeout, ..self }
    }

    /// Shares one absolute deadline over all subprocesses.
    pub fn with_operation_deadline(self, deadline: Instant) -> (r: Self)
        requires
            self.wf(),
        ensures
            r.wf(),
            r@ == (GitCompatibilityCheckerView { operation_deadline: Some(deadline), ..self@ }),
    {
        GitCompatibilityChecker { operation_deadline: Some(deadline), ..self }
    }

    /// The identity of a branch in the shared cache.
    pub fn shared_key(&self, branch: &BranchSnapshot) -> (r: PreparedRevisionKey)
        ensures
            r.deep_view() == self@.identity(branch.deep_view()),
    {
        PreparedRevisionKey {
            local_repository: self.repository.dup(),
            remote: self.remote.dup(),
            provider_repository: branch.repository.dup(),
            branch: branch.name.dup(),
            oid: branch.oid.dup(),
        }
    }

    /// The commit that a branch was resolved to.
    pub fn resolved(&self, branch: &BranchSnapshot) -> (r: Option<CommitOid>)
        requires
            self.wf(),
        ensures
            r.deep_view() == self@.resolved(branch.deep_view()),
    {
        let key = (branch.name.dup(), branch.oid.dup());
        assert(key.deep_view() == local_key(branch.deep_view()));
        self.prepared.get(&key)
    }

    /// The commits of a candidate and its target, if both are prepared.
    pub fn resolved_pair(&self, candidate: &BranchSnapshot, target: &BranchSnapshot) -> (r: Option<
        (CommitOid, CommitOid),
    >)
        requires
            self.wf(),
        ensures
            r.deep_view() == match (
                self@.resolved(candidate.deep_view()),
                self@.resolved(target.deep_view()),
            ) {
                (Some(one), Some(other)) => Some((one, other)),
                _ => None,
            },
    {
        match (self.resolved(candidate), self.resolved(target)) {
            (Some(one), Some(other)) => Some((one, other)),
            _ => None,
        }
    }

    /// Takes over the revisions of branches from the shared cache, once what is
    /// too old has left it.
    pub fn hydrate_from_shared_cache(
        &mut self,
        shared: &mut PreparedRevisions,
        branches: &Vec<BranchSnapshot>,
        now: u64,
    )
        requires
            old(self).wf(),
            old(shared).wf(),
        ensures
            final(self).wf(),
            final(shared).wf(),
            final(shared)@ == fresh(old(shared)@, now),
            final(self)@ == (GitCompatibilityCheckerView {
                prepared: hydrated(old(self)@, fresh(old(shared)@, now), branches.deep_view()),
                ..old(self)@
            }),
    {
        shared.expire(now);
        let ghost start = self@;
        let ghost left = shared@;
        let ghost all = branches.deep_view();
        let mut i: usize = 0;
        assert(all.take(0) =~= Seq::<BranchSnapshotView>::empty());
        while i < branches.len()
            invariant
                all == branches.deep_view(),
                i <= branches.len(),
                self.wf(),
                shared.wf(),
                shared@ == left,
                self@ == (GitCompatibilityCheckerView {
                    prepared: hydrated(start, left, all.take(i as int)),
                    ..start
                }),
            decreases branches.len() - i,
        {
            let branch = &branches[i];
            assert(all.take(i as int + 1).drop_last() =~= all.take(i as int));
            assert(all[i as int] == branches[i as int].deep_view());
            let key = self.shared_key(branch);
            assert(key.deep_view() == start.identity(all[i as int]));
            match shared.get(&key) {
                Some(revision) => {
                    let local = (branch.name.dup(), branch.oid.dup());
                    assert(local.deep_view() == local_key(all[i as int]));
                    self.prepared.put(local, revision.resolved);
                },
                None => {},
            }
            i = i + 1;
        }
        assert(all.take(i as int) =~= all);
    }

    /// The branches that have to be fetched.
    pub fn missing(&self, branches: &Vec<BranchSnapshot>) -> (r: Vec<BranchSnapshot>)
        requires
            self.wf(),
        ensures
            r.deep_view() == unprepared(self@, branches.deep_view()),
    {
        let ghost all = branches.deep_view();
        let mut out: Vec<BranchSnapshot> = Vec::new();
        let mut i: usize = 0;
        assert(all.take(0) =~= Seq::<BranchSnapshotView>::empty());
        assert(out.deep_view() =~= Seq::<BranchSnapshotView>::empty());
        while i < branches.len()
            invariant
                all == branches.deep_view(),
                i <= branches.len(),
                self.wf(),
                out.deep_view() == unprepared(self@, all.take(i as int)),
            decreases branches.len() - i,
        {
            assert(all.take(i as int + 1).drop_last() =~= all.take(i as int));
            assert(all[i as int] == branches[i as int].deep_view());
            match self.resolved(&branches[i]) {
                Some(_) => {},
                None => {
                    push_item(&mut out, branches[i].dup());
                },
            }
            i = i + 1;
        }
        assert(all.take(i as int) =~= all);
        out
    }

    /// Puts freshly prepared revisions into the shared cache.
    pub fn publish_to_shared_cache(
        &self,
        shared: &mut PreparedRevisions,
        branches: &Vec<BranchSnapshot>,
        prepared: &Table<(String, CommitOid), CommitOid>,
        now: u64,
    )
        requires
            prepared.wf(),
            old(shared).wf(),
        ensures
            final(shared).wf(),
            published(self@, prepared@, branches.deep_view(), now, old(shared)@, final(shared)@),
    {
        let ghost before = shared@;
        shared.expire(now);
        let ghost all = branches.deep_view();
        let ghost mut states: Seq<Revisions> = seq![shared@];
        let mut i: usize = 0;
        while i < branches.len()
            invariant
                all == branches.deep_view(),
                i <= branches.len(),
                prepared.wf(),
                shared.wf(),
                states.len() == i + 1,
                states.first() == fresh(before, now),
                states.last() == shared@,
                forall|j: int|
                    0 <= j < i ==> published_one(
                        self@,
                        prepared@,
                        #[trigger] all[j],
                        now,
                        states[j],
                        states[j + 1],
                    ),
            decreases branches.len() - i,
        {
            let branch = &branches[i];
            assert(all[i as int] == branches[i as int].deep_view());
            let local = (branch.name.dup(), branch.oid.dup());
            assert(local.deep_view() == local_key(all[i as int]));
            let ghost last = shared@;
            match prepared.get(&local) {
                Some(resolved) => {
                    shared.keep(
                        self.shared_key(branch),
                        PreparedRevision { inserted: now, resolved },
                    );
                },
                None => {},
            }
            proof {
                let grown = states.push(shared@);
                assert forall|j: int| 0 <= j < i + 1 implies published_one(
                    self@,
                    prepared@,
                    #[trigger] all[j],
                    now,
                    grown[j],
                    grown[j + 1],
                ) by {
                    if j < i {
                        assert(grown[j] == states[j] && grown[j + 1] == states[j + 1]);
                    }
                }
                states = grown;
            }
            i = i + 1;
        }
        assert(published_through(self@, prepared@, all, now, states));
    }

    /// Takes freshly prepared revisions over.
    pub fn record(&mut self, prepared: &Table<(String, CommitOid), CommitOid>)
        requires
            old(self).wf(),
            prepared.wf(),
        ensures
            final(self).wf(),
            final(self)@ == (GitCompatibilityCheckerView {
                prepared: old(self)@.prepared.union_prefer_right(prepared@),
                ..old(self)@
            }),
    {
        self.prepared.merge(prepared);
    }
}

// ---------------------------------------------------------------------------
// Laws
// ---------------------------------------------------------------------------

/// A revision that is older than the longest reuse leaves the cache, and no
/// other does.
pub proof fn lemma_expiry_is_exact(
    revisions: Revisions,
    now: u64,
    key: PreparedRevisionKeyView,
)
    ensures
        fresh(revisions, now).dom().contains(key) <==> revisions.dom().contains(key)
            && now - revisions[key].inserted <= PREPARED_REVISION_MAX_AGE,
        fresh(revisions, now).dom().contains(key) ==> fresh(revisions, now)[key] == revisions[key],
{
}

/// A checker takes a revision over only by its exact identity: what it newly
/// knows, the cache held for the same local repository, remote, provider
/// repository, branch and commit.
pub proof fn lemma_reuse_is_exact(
    checker: GitCompatibilityCheckerView,
    revisions: Revisions,
    branches: Seq<BranchSnapshotView>,
    key: (Seq<char>, Seq<char>),
)
    requires
        hydrated(checker, revisions, branches).get(key) != checker.prepared.get(key),
    ensures
        exists|i: int|
            0 <= i < branches.len() && local_key(#[trigger] branches[i]) == key
                && revisions.dom().contains(checker.identity(branches[i])) && hydrated(
                checker,
                revisions,
                branches,
            ).get(key) == Some(revisions[checker.identity(branches[i])].resolved),
    decreases branches.len(),
{
    if branches.len() > 0 {
        let before = branches.drop_last();
        let last = branches.last();
        if local_key(last) == key && revisions.dom().contains(checker.identity(last)) {
            assert(branches[branches.len() - 1] == last);
        } else {
            lemma_reuse_is_exact(checker, revisions, before, key);
            let i = choose|i: int|
                0 <= i < before.len() && local_key(#[trigger] before[i]) == key
                    && revisions.dom().contains(checker.identity(before[i])) && hydrated(
                    checker,
                    revisions,
                    before,
                ).get(key) == Some(revisions[checker.identity(before[i])].resolved);
            assert(branches[i] == before[i]);
        }
    }
}

proof fn lemma_kept_len(
    before: Revisions,
    key: PreparedRevisionKeyView,
    revision: PreparedRevisionView,
    after: Revisions,
)
    requires
        before.dom().finite(),
        kept(before, key, revision, after),
        before.len() < MAX_PREPARED_REVISIONS,
    ensures
        after.dom().finite(),
        after.len() <= before.len() + 1,
        after == before.insert(key, revision),
{
}

/// The caches that a publication passes through, as long as nothing has to
/// make room.
proof fn lemma_published_prefix(
    checker: GitCompatibilityCheckerView,
    prepared: Resolved,
    branches: Seq<BranchSnapshotView>,
    now: u64,
    states: Seq<Revisions>,
    k: int,
)
    requires
        published_through(checker, prepared, branches, now, states),
        states[0].dom().finite(),
        states[0].len() + branches.len() <= MAX_PREPARED_REVISIONS,
        0 <= k <= branches.len(),
    ensures
        states[k].dom().finite(),
        states[k].len() <= states[0].len() + k,
        forall|i: int|
            0 <= i < k && prepared.dom().contains(local_key(#[trigger] branches[i]))
                ==> states[k].get(checker.identity(branches[i])) == Some(
                PreparedRevisionView { inserted: now, resolved: prepared[local_key(branches[i])] },
            ),
    decreases k,
{
    if k > 0 {
        lemma_published_prefix(checker, prepared, branches, now, states, k - 1);
        let branch = branches[k - 1];
        assert(published_one(checker, prepared, branch, now, states[k - 1], states[k - 1 + 1]));
        if prepared.dom().contains(local_key(branch)) {
            lemma_kept_len(
                states[k - 1],
                checker.identity(branch),
                PreparedRevisionView { inserted: now, resolved: prepared[local_key(branch)] },
                states[k],
            );
        }
    }
}

proof fn lemma_hydrated_one(
    checker: GitCompatibilityCheckerView,
    revisions: Revisions,
    branches: Seq<BranchSnapshotView>,
    resolved: Resolved,
    k: int,
)
    requires
        0 <= k < branches.len(),
        forall|i: int|
            0 <= i < branches.len() && revisions.dom().contains(
                checker.identity(#[trigger] branches[i]),
            ) ==> resolved.get(local_key(branches[i])) == Some(
                revisions[checker.identity(branches[i])].resolved,
            ),
        revisions.dom().contains(checker.identity(branches[k])),
    ensures
        hydrated(checker, revisions, branches).get(local_key(branches[k])) == resolved.get(
            local_key(branches[k]),
        ),
    decreases branches.len(),
{
    let before = branches.drop_last();
    let last = branches.last();
    assert(branches[branches.len() - 1] == last);
    if !(revisions.dom().contains(checker.identity(last)) && local_key(last) == local_key(
        branches[k],
    )) {
        assert forall|i: int|
            0 <= i < before.len() && revisions.dom().contains(
                checker.identity(#[trigger] before[i]),
            ) implies resolved.get(local_key(before[i])) == Some(
            revisions[checker.identity(before[i])].resolved,
        ) by {
            assert(branches[i] == before[i]);
        }
        assert(before[k] == branches[k]);
        lemma_hydrated_one(checker, revisions, before, resolved, k);
    }
}

/// What one checker published, a later checker of the same local repository
/// and remote takes over, for as long as it may be reused: as long as nothing
/// has to make room, each published branch is resolved to the commit that was
/// prepared for it.
pub proof fn lemma_preparation_is_shared(
    first: GitCompatibilityCheckerView,
    second: GitCompatibilityCheckerView,
    prepared: Resolved,
    branches: Seq<BranchSnapshotView>,
    before: Revisions,
    published_at: u64,
    after: Revisions,
    read_at: u64,
    k: int,
)
    requires
        first.repository == second.repository,
        first.remote == second.remote,
        before.dom().finite(),
        fresh(before, published_at).len() + branches.len() <= MAX_PREPARED_REVISIONS,
        published(first, prepared, branches, published_at, before, after),
        read_at - published_at <= PREPARED_REVISION_MAX_AGE,
        0 <= k < branches.len(),
        forall|i: int|
            0 <= i < branches.len() ==> prepared.dom().contains(local_key(#[trigger] branches[i])),
    ensures
        hydrated(second, fresh(after, read_at), branches).get(local_key(branches[k])) == Some(
            prepared[local_key(branches[k])],
        ),
{
    let states = choose|states: Seq<Revisions>| #[trigger]
        published_through(first, prepared, branches, published_at, states) && states.first()
            == fresh(before, published_at) && states.last() == after;
    assert(fresh(before, published_at).dom().subset_of(before.dom()));
    vstd::set_lib::lemma_set_subset_finite(before.dom(), fresh(before, published_at).dom());
    lemma_published_prefix(first, prepared, branches, published_at, states, branches.len() as int);
    let left = fresh(after, read_at);
    assert forall|i: int| 0 <= i < branches.len() implies left.get(
        second.identity(#[trigger] branches[i]),
    ) == Some(
        PreparedRevisionView { inserted: published_at, resolved: prepared[local_key(branches[i])] },
    ) by {
        assert(second.identity(branches[i]) == first.identity(branches[i]));
        assert(prepared.dom().contains(local_key(branches[i])));
    }
    assert forall|i: int|
        0 <= i < branches.len() && left.dom().contains(
            second.identity(#[trigger] branches[i]),
        ) implies prepared.get(local_key(branches[i])) == Some(
        left[second.identity(branches[i])].resolved,
    ) by {
        assert(left.get(second.identity(branches[i])) is Some);
        assert(prepared.dom().contains(local_key(branches[i])));
    }
    assert(left.get(second.identity(branches[k])) is Some);
    lemma_hydrated_one(second, left, branches, prepared, k);
    assert(prepared.dom().contains(local_key(branches[k])));
}

/// Once revisions of the missing branches are recorded, no branch is missing.
pub proof fn lemma_recorded_is_complete(
    checker: GitCompatibilityCheckerView,
    branches: Seq<BranchSnapshotView>,
    prepared: Resolved,
)
    requires
        forall|i: int|
            0 <= i < unprepared(checker, branches).len() ==> prepared.dom().contains(
                local_key(#[trigger] unprepared(checker, branches)[i]),
            ),
    ensures
        unprepared(
            GitCompatibilityCheckerView {
                prepared: checker.prepared.union_prefer_right(prepared),
                ..checker
            },
            branches,
        ).len() == 0,
    decreases branches.len(),
{
    if branches.len() > 0 {
        let before = branches.drop_last();
        let rows = unprepared(checker, branches);
        let earlier = unprepared(checker, before);
        assert forall|i: int| 0 <= i < earlier.len() implies prepared.dom().contains(
            local_key(#[trigger] earlier[i]),
        ) by {
            assert(rows[i] == earlier[i]);
        }
        lemma_recorded_is_complete(checker, before, prepared);
        if !checker.prepared.dom().contains(local_key(branches.last())) {
            assert(rows[rows.len() - 1] == branches.last());
        }
    }
}

} // verus!
