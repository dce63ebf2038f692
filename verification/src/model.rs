//! The facts that planning works on: repositories, branches, pull requests,
//! checks, merge evidence and the fleet derived from them. Each type has a
//! content view, a comparison and a copy proved against it.

use vstd::prelude::*;
use vstd::string::*;
use crate::text;
use crate::text::{decimal_text, text_eq, text_less};

verus! {

/// A type with a mathematical content, a comparison and a copy.
pub trait Model: DeepView + Sized {
    /// Whether two values have the same content.
    fn same(&self, other: &Self) -> (r: bool)
        ensures
            r == (self.deep_view() == other.deep_view()),
    ;

    /// Another value of the same content.
    fn dup(&self) -> (r: Self)
        ensures
            r.deep_view() == self.deep_view(),
    ;
}

impl Model for String {
    fn same(&self, other: &Self) -> (r: bool) {
        *self == *other
    }

    fn dup(&self) -> (r: Self) {
        self.clone()
    }
}

impl Model for bool {
    fn same(&self, other: &Self) -> (r: bool) {
        *self == *other
    }

    fn dup(&self) -> (r: Self) {
        *self
    }
}

impl Model for u64 {
    fn same(&self, other: &Self) -> (r: bool) {
        *self == *other
    }

    fn dup(&self) -> (r: Self) {
        *self
    }
}

impl Model for u32 {
    fn same(&self, other: &Self) -> (r: bool) {
        *self == *other
    }

    fn dup(&self) -> (r: Self) {
        *self
    }
}

impl Model for i32 {
    fn same(&self, other: &Self) -> (r: bool) {
        *self == *other
    }

    fn dup(&self) -> (r: Self) {
        *self
    }
}

impl Model for i64 {
    fn same(&self, other: &Self) -> (r: bool) {
        *self == *other
    }

    fn dup(&self) -> (r: Self) {
        *self
    }
}

impl Model for usize {
    fn same(&self, other: &Self) -> (r: bool) {
        *self == *other
    }

    fn dup(&self) -> (r: Self) {
        *self
    }
}

impl<A: Model, B: Model> Model for (A, B) {
    fn same(&self, other: &Self) -> (r: bool) {
        self.0.same(&other.0) && self.1.same(&other.1)
    }

    fn dup(&self) -> (r: Self) {
        (self.0.dup(), self.1.dup())
    }
}

impl<T: Model> Model for Option<T> {
    fn same(&self, other: &Self) -> (r: bool) {
        match (self, other) {
            (Some(a), Some(b)) => a.same(b),
            (None, None) => true,
            _ => false,
        }
    }

    fn dup(&self) -> (r: Self) {
        match self {
            Some(a) => Some(a.dup()),
            None => None,
        }
    }
}

impl<T: Model> Model for Box<T> {
    fn same(&self, other: &Self) -> (r: bool) {
        (**self).same(&**other)
    }

    fn dup(&self) -> (r: Self) {
        Box::new((**self).dup())
    }
}

impl<T: Model> Model for Vec<T> {
    fn same(&self, other: &Self) -> (r: bool) {
        if self.len() != other.len() {
            return false;
        }
        let mut i: usize = 0;
        while i < self.len()
            invariant
                self.len() == other.len(),
                i <= self.len(),
                forall|j: int| 0 <= j < i ==> self[j].deep_view() == other[j].deep_view(),
            decreases self.len() - i,
        {
            if !self[i].same(&other[i]) {
                assert(self.deep_view()[i as int] != other.deep_view()[i as int]);
                return false;
            }
            i = i + 1;
        }
        assert(self.deep_view() =~= other.deep_view());
        true
    }

    fn dup(&self) -> (r: Self) {
        assert(self.deep_view().subrange(0, self.len() as int) =~= self.deep_view());
        dup_range(self, 0, self.len())
    }
}

/// Copies of the items of a range.
pub fn dup_range<T: Model>(items: &Vec<T>, from: usize, to: usize) -> (r: Vec<T>)
    requires
        from <= to <= items.len(),
    ensures
        r.deep_view() == items.deep_view().subrange(from as int, to as int),
{
    let mut out: Vec<T> = Vec::new();
    let mut i: usize = from;
    while i < to
        invariant
            from <= i <= to <= items.len(),
            out.len() == i - from,
            forall|j: int|
                0 <= j < i - from ==> (#[trigger] out[j]).deep_view() == items[from + j].deep_view(),
        decreases to - i,
    {
        out.push(items[i].dup());
        i = i + 1;
    }
    assert(out.deep_view() =~= items.deep_view().subrange(from as int, to as int));
    out
}

/// A list with one item appended.
pub proof fn lemma_push_view<T: DeepView>(before: Vec<T>, after: Vec<T>, item: T)
    requires
        after@ == before@.push(item),
    ensures
        after.deep_view() == before.deep_view().push(item.deep_view()),
{
    assert(after.deep_view() =~= before.deep_view().push(item.deep_view()));
}

/// Appends one item to a list.
pub fn push_item<T: Model>(items: &mut Vec<T>, item: T)
    ensures
        final(items).deep_view() == old(items).deep_view().push(item.deep_view()),
        final(items)@ == old(items)@.push(item),
{
    let ghost value = item;
    items.push(item);
    proof {
        lemma_push_view(*old(items), *items, value);
    }
}

/// Appends a list to a list.
pub fn append_items<T: Model>(items: &mut Vec<T>, more: Vec<T>)
    ensures
        final(items).deep_view() == old(items).deep_view() + more.deep_view(),
{
    let mut rest = more;
    let ghost tail = more;
    items.append(&mut rest);
    assert(items.deep_view() =~= old(items).deep_view() + tail.deep_view());
}

/// Whether a list holds an item of the given content.
pub fn holds_item<T: Model>(items: &Vec<T>, item: &T) -> (r: bool)
    ensures
        r == items.deep_view().contains(item.deep_view()),
{
    let mut i: usize = 0;
    while i < items.len()
        invariant
            i <= items.len(),
            forall|j: int| 0 <= j < i ==> items[j].deep_view() != item.deep_view(),
        decreases items.len() - i,
    {
        if items[i].same(item) {
            assert(items.deep_view()[i as int] == item.deep_view());
            return true;
        }
        i = i + 1;
    }
    assert(!items.deep_view().contains(item.deep_view())) by {
        if items.deep_view().contains(item.deep_view()) {
            let k = choose|k: int|
                0 <= k < items.deep_view().len() && items.deep_view()[k] == item.deep_view();
            assert(items[k].deep_view() == item.deep_view());
        }
    }
    false
}

/// The number of a pull request.
#[derive(Debug, Clone, Copy, PartialEq, Eq, PartialOrd, Ord, Hash, Structural)]
pub struct PrNumber(pub u64);

impl DeepView for PrNumber {
    type V = PrNumber;

    open spec fn deep_view(&self) -> PrNumber {
        *self
    }
}

impl Model for PrNumber {
    fn same(&self, other: &Self) -> (r: bool) {
        self.0 == other.0
    }

    fn dup(&self) -> (r: Self) {
        *self
    }
}

/// The text of a pull request number.
pub open spec fn pr_text(pr: PrNumber) -> Seq<char> {
    text::decimal(pr.0 as nat)
}

impl PrNumber {
    pub fn to_text(&self) -> (r: String)
        ensures
            r@ == pr_text(*self),
    {
        decimal_text(self.0)
    }
}

/// The object name of a commit or tree.
#[derive(Debug, PartialEq, Eq, PartialOrd, Ord)]
pub struct CommitOid(pub String);

impl Clone for CommitOid {
    fn clone(&self) -> (r: Self)
        ensures
            r.deep_view() == self.deep_view(),
    {
        self.dup()
    }
}

impl DeepView for CommitOid {
    type V = Seq<char>;

    open spec fn deep_view(&self) -> Seq<char> {
        self.0.deep_view()
    }
}

impl Model for CommitOid {
    fn same(&self, other: &Self) -> (r: bool) {
        self.0.same(&other.0)
    }

    fn dup(&self) -> (r: Self) {
        CommitOid(self.0.dup())
    }
}

/// Whether texts stand in strictly increasing order.
pub open spec fn strictly_sorted(items: Seq<Seq<char>>) -> bool {
    forall|i: int, j: int| 0 <= i < j < items.len() ==> text::text_lt(items[i], items[j])
}

/// A set of labels, kept in strictly increasing order.
#[derive(Debug, PartialEq, Eq)]
pub struct LabelSet {
    items: Vec<String>,
}

impl Clone for LabelSet {
    fn clone(&self) -> (r: Self)
        ensures
            r.deep_view() == self.deep_view(),
    {
        self.dup()
    }
}

impl DeepView for LabelSet {
    type V = Seq<Seq<char>>;

    closed spec fn deep_view(&self) -> Seq<Seq<char>> {
        self.items.deep_view()
    }
}

impl Model for LabelSet {
    fn same(&self, other: &Self) -> (r: bool) {
        self.items.same(&other.items)
    }

    fn dup(&self) -> (r: Self) {
        proof {
            use_type_invariant(self);
        }
        LabelSet { items: self.items.dup() }
    }
}

impl LabelSet {
    #[verifier::type_invariant]
    spec fn well_formed(&self) -> bool {
        strictly_sorted(self.items.deep_view())
    }

    /// The order that every set of labels keeps.
    pub fn ordered(&self)
        ensures
            strictly_sorted(self.deep_view()),
    {
        proof {
            use_type_invariant(self);
        }
    }

    pub fn new() -> (r: Self)
        ensures
            r.deep_view() == Seq::<Seq<char>>::empty(),
    {
        let items: Vec<String> = Vec::new();
        assert(items.deep_view() =~= Seq::<Seq<char>>::empty());
        LabelSet { items }
    }

    pub fn contains(&self, label: &str) -> (r: bool)
        ensures
            r == self.deep_view().contains(label@),
    {
        let wanted = label.to_owned();
        holds_item(&self.items, &wanted)
    }

    pub fn is_empty(&self) -> (r: bool)
        ensures
            r == (self.deep_view().len() == 0),
    {
        self.items.len() == 0
    }

    pub fn len(&self) -> (r: usize)
        ensures
            r == self.deep_view().len(),
    {
        self.items.len()
    }

    /// The labels in order.
    pub fn to_list(&self) -> (r: Vec<String>)
        ensures
            r.deep_view() == self.deep_view(),
    {
        self.items.dup()
    }

    /// The set with one more label.
    pub fn with(&self, label: &str) -> (r: Self)
        ensures
            r.deep_view() == label_insert(self.deep_view(), label@),
    {
        proof {
            use_type_invariant(self);
        }
        let mut at: usize = 0;
        while at < self.items.len() && text_less(self.items[at].as_str(), label)
            invariant
                at <= self.items.len(),
                forall|j: int| 0 <= j < at ==> text::text_lt(self.items.deep_view()[j], label@),
            decreases self.items.len() - at,
        {
            at = at + 1;
        }
        let ghost rows = self.items.deep_view();
        proof {
            lemma_insertion_point(rows, label@, at as int);
        }
        if at < self.items.len() && text_eq(self.items[at].as_str(), label) {
            return self.dup();
        }
        let mut items = dup_range(&self.items, 0, at);
        let rest = dup_range(&self.items, at, self.items.len());
        push_item(&mut items, label.to_owned());
        append_items(&mut items, rest);
        proof {
            lemma_label_insert_sorted(rows, label@);
            assert(items.deep_view() =~= label_insert(rows, label@));
        }
        LabelSet { items }
    }

    /// The set without one label.
    pub fn without(&self, label: &str) -> (r: Self)
        ensures
            r.deep_view() == label_remove(self.deep_view(), label@),
    {
        proof {
            use_type_invariant(self);
        }
        let mut items: Vec<String> = Vec::new();
        let mut i: usize = 0;
        assert(items.deep_view() =~= label_remove(self.items.deep_view().take(0), label@));
        while i < self.items.len()
            invariant
                i <= self.items.len(),
                items.deep_view() == label_remove(self.items.deep_view().take(i as int), label@),
            decreases self.items.len() - i,
        {
            let ghost rows = self.items.deep_view();
            assert(rows.take(i as int + 1).drop_last() =~= rows.take(i as int));
            if !text_eq(self.items[i].as_str(), label) {
                push_item(&mut items, self.items[i].dup());
            }
            i = i + 1;
        }
        let ghost rows = self.items.deep_view();
        assert(rows.take(i as int) =~= rows);
        proof {
            lemma_label_remove_sorted(rows, label@);
        }
        LabelSet { items }
    }

    /// Adds a label.
    pub fn insert(&mut self, label: &str)
        ensures
            final(self).deep_view() == label_insert(old(self).deep_view(), label@),
    {
        let next = self.with(label);
        *self = next;
    }

    /// Drops a label.
    pub fn remove(&mut self, label: &str)
        ensures
            final(self).deep_view() == label_remove(old(self).deep_view(), label@),
    {
        let next = self.without(label);
        *self = next;
    }

    /// Drops every label.
    pub fn clear(&mut self)
        ensures
            final(self).deep_view() == Seq::<Seq<char>>::empty(),
    {
        let next = LabelSet::new();
        *self = next;
    }

    /// The set of the labels of a list.
    pub fn from_list(labels: &Vec<String>) -> (r: Self)
        ensures
            r.deep_view() == label_set(labels.deep_view()),
    {
        let mut out = LabelSet::new();
        let mut i: usize = 0;
        assert(labels.deep_view().take(0) =~= Seq::<Seq<char>>::empty());
        while i < labels.len()
            invariant
                i <= labels.len(),
                out.deep_view() == label_set(labels.deep_view().take(i as int)),
            decreases labels.len() - i,
        {
            let ghost rows = labels.deep_view();
            assert(rows.take(i as int + 1).drop_last() =~= rows.take(i as int));
            out = out.with(labels[i].as_str());
            i = i + 1;
        }
        assert(labels.deep_view().take(i as int) =~= labels.deep_view());
        out
    }

    /// Whether every label of this set is in the other.
    pub fn is_subset(&self, other: &LabelSet) -> (r: bool)
        ensures
            r == (forall|label: Seq<char>|
                self.deep_view().contains(label) ==> #[trigger] other.deep_view().contains(label)),
    {
        let mut i: usize = 0;
        while i < self.items.len()
            invariant
                i <= self.items.len(),
                forall|j: int|
                    0 <= j < i ==> other.deep_view().contains(
                        #[trigger] self.items.deep_view()[j],
                    ),
            decreases self.items.len() - i,
        {
            if !other.contains(self.items[i].as_str()) {
                assert(self.deep_view()[i as int] == self.items[i as int]@);
                assert(self.deep_view().contains(self.items[i as int]@));
                return false;
            }
            i = i + 1;
        }
        true
    }

    /// Whether no label of this set is in the other.
    pub fn is_disjoint(&self, other: &LabelSet) -> (r: bool)
        ensures
            r == (forall|label: Seq<char>|
                self.deep_view().contains(label) ==> !#[trigger] other.deep_view().contains(label)),
    {
        let mut i: usize = 0;
        while i < self.items.len()
            invariant
                i <= self.items.len(),
                forall|j: int|
                    0 <= j < i ==> !other.deep_view().contains(
                        #[trigger] self.items.deep_view()[j],
                    ),
            decreases self.items.len() - i,
        {
            if other.contains(self.items[i].as_str()) {
                assert(self.deep_view()[i as int] == self.items[i as int]@);
                assert(self.deep_view().contains(self.items[i as int]@));
                return false;
            }
            i = i + 1;
        }
        true
    }
}

/// The position before which a label belongs in an ordered list.
pub open spec fn label_position(rows: Seq<Seq<char>>, label: Seq<char>) -> int
    decreases rows.len(),
{
    if rows.len() == 0 {
        0
    } else if text::text_lt(rows.last(), label) {
        rows.len() as int
    } else {
        label_position(rows.drop_last(), label)
    }
}

/// An ordered list with one more label.
pub open spec fn label_insert(rows: Seq<Seq<char>>, label: Seq<char>) -> Seq<Seq<char>> {
    if rows.contains(label) {
        rows
    } else {
        let at = label_position(rows, label);
        rows.take(at).push(label) + rows.skip(at)
    }
}

/// A list without one label.
pub open spec fn label_remove(rows: Seq<Seq<char>>, label: Seq<char>) -> Seq<Seq<char>>
    decreases rows.len(),
{
    if rows.len() == 0 {
        Seq::empty()
    } else if rows.last() == label {
        label_remove(rows.drop_last(), label)
    } else {
        label_remove(rows.drop_last(), label).push(rows.last())
    }
}

/// The ordered list of the distinct labels of a list.
pub open spec fn label_set(labels: Seq<Seq<char>>) -> Seq<Seq<char>>
    decreases labels.len(),
{
    if labels.len() == 0 {
        Seq::empty()
    } else {
        label_insert(label_set(labels.drop_last()), labels.last())
    }
}

proof fn lemma_insertion_point(rows: Seq<Seq<char>>, label: Seq<char>, at: int)
    requires
        strictly_sorted(rows),
        0 <= at <= rows.len(),
        forall|j: int| 0 <= j < at ==> text::text_lt(rows[j], label),
        at < rows.len() ==> !text::text_lt(rows[at], label),
    ensures
        label_position(rows, label) == at,
        rows.contains(label) == (at < rows.len() && rows[at] == label),
    decreases rows.len(),
{
    if rows.len() > 0 {
        text::lemma_text_lt_total(label, label);
        if at < rows.len() {
            let last = rows.len() - 1;
            if at < last {
                text::lemma_text_lt_total(rows[at], label);
                if text::text_lt(rows[last], label) {
                    text::lemma_text_lt_transitive(rows[at], rows[last], label);
                }
            }
            assert(rows.drop_last().len() > at || at == last);
            lemma_insertion_point(rows.drop_last(), label, at);
            assert(!text::text_lt(rows.last(), label));
            if rows.contains(label) {
                let k = choose|k: int| 0 <= k < rows.len() && rows[k] == label;
                if k > at {
                    assert(text::text_lt(rows[at], rows[k]));
                }
                if k < at {
                    assert(text::text_lt(rows[k], label));
                }
            }
        } else {
            if rows.contains(label) {
                let k = choose|k: int| 0 <= k < rows.len() && rows[k] == label;
                assert(text::text_lt(rows[k], label));
            }
        }
    }
}

/// Where a label belongs: everything before it is smaller and nothing after
/// it is.
proof fn lemma_label_position(rows: Seq<Seq<char>>, label: Seq<char>)
    requires
        strictly_sorted(rows),
    ensures
        0 <= label_position(rows, label) <= rows.len(),
        forall|j: int| 0 <= j < label_position(rows, label) ==> text::text_lt(rows[j], label),
        forall|j: int| label_position(rows, label) <= j < rows.len() ==> !text::text_lt(
            rows[j],
            label,
        ),
    decreases rows.len(),
{
    if rows.len() > 0 {
        if text::text_lt(rows.last(), label) {
            assert forall|j: int| 0 <= j < rows.len() implies text::text_lt(rows[j], label) by {
                if j < rows.len() - 1 {
                    text::lemma_text_lt_transitive(rows[j], rows.last(), label);
                }
            }
        } else {
            let before = rows.drop_last();
            lemma_label_position(before, label);
            assert(label_position(rows, label) == label_position(before, label));
            assert forall|j: int| 0 <= j < label_position(rows, label) implies text::text_lt(
                rows[j],
                label,
            ) by {
                assert(before[j] == rows[j]);
            }
            assert forall|j: int|
                label_position(rows, label) <= j < rows.len() implies !text::text_lt(
                rows[j],
                label,
            ) by {
                if j < before.len() {
                    assert(before[j] == rows[j]);
                }
            }
        }
    }
}

/// Adding a label keeps the order and adds exactly that label.
pub proof fn lemma_label_insert_sorted(rows: Seq<Seq<char>>, label: Seq<char>)
    requires
        strictly_sorted(rows),
    ensures
        strictly_sorted(label_insert(rows, label)),
        forall|x: Seq<char>|
            #[trigger] label_insert(rows, label).contains(x) <==> (rows.contains(x) || x == label),
{
    let out = label_insert(rows, label);
    if !rows.contains(label) {
        let at = label_position(rows, label);
        lemma_label_position(rows, label);
        assert forall|i: int, j: int| 0 <= i < j < out.len() implies text::text_lt(
            out[i],
            out[j],
        ) by {
            if i == at {
                text::lemma_text_lt_total(rows[j - 1], label);
            }
        }
        assert forall|x: Seq<char>| #[trigger] out.contains(x) <==> (rows.contains(x) || x
            == label) by {
            if rows.contains(x) {
                let k = choose|k: int| 0 <= k < rows.len() && rows[k] == x;
                if k < at {
                    assert(out[k] == x);
                } else {
                    assert(out[k + 1] == x);
                }
            }
            if x == label {
                assert(out[at] == x);
            }
            if out.contains(x) {
                let k = choose|k: int| 0 <= k < out.len() && out[k] == x;
                if k < at {
                    assert(rows[k] == x);
                } else if k > at {
                    assert(rows[k - 1] == x);
                }
            }
        }
    }
}

/// Dropping a label keeps the order and drops exactly that label.
pub proof fn lemma_label_remove_sorted(rows: Seq<Seq<char>>, label: Seq<char>)
    requires
        strictly_sorted(rows),
    ensures
        strictly_sorted(label_remove(rows, label)),
        forall|x: Seq<char>|
            #[trigger] label_remove(rows, label).contains(x) <==> (rows.contains(x) && x != label),
    decreases rows.len(),
{
    let out = label_remove(rows, label);
    if rows.len() > 0 {
        let before = label_remove(rows.drop_last(), label);
        lemma_label_remove_sorted(rows.drop_last(), label);
        assert forall|x: Seq<char>| #[trigger] out.contains(x) <==> (rows.contains(x) && x
            != label) by {
            assert(before.contains(x) <==> (rows.drop_last().contains(x) && x != label));
            if rows.contains(x) {
                let k = choose|k: int| 0 <= k < rows.len() && rows[k] == x;
                if k < rows.len() - 1 {
                    assert(rows.drop_last()[k] == x);
                }
            }
            if rows.drop_last().contains(x) {
                let k = choose|k: int|
                    0 <= k < rows.drop_last().len() && rows.drop_last()[k] == x;
                assert(rows[k] == x);
            }
            assert(rows[rows.len() - 1] == rows.last());
            if rows.last() != label {
                assert(out[out.len() - 1] == rows.last());
                if before.contains(x) {
                    let k = choose|k: int| 0 <= k < before.len() && before[k] == x;
                    assert(out[k] == x);
                }
                if out.contains(x) {
                    let k = choose|k: int| 0 <= k < out.len() && out[k] == x;
                    if k < before.len() {
                        assert(before[k] == x);
                    }
                }
            }
        }
        if rows.last() != label {
            assert forall|i: int, j: int| 0 <= i < j < out.len() implies text::text_lt(
                out[i],
                out[j],
            ) by {
                if j == out.len() - 1 {
                    assert(before.contains(before[i]));
                    assert(rows.drop_last().contains(before[i]));
                    let k = choose|k: int|
                        0 <= k < rows.drop_last().len() && rows.drop_last()[k] == before[i];
                    assert(text::text_lt(rows[k], rows[rows.len() - 1]));
                }
            }
        }
    } else {
        assert forall|x: Seq<char>| #[trigger] out.contains(x) <==> (rows.contains(x) && x
            != label) by {}
    }
}

/// The set of a list is ordered and holds exactly what the list holds.
pub proof fn lemma_label_set(labels: Seq<Seq<char>>)
    ensures
        strictly_sorted(label_set(labels)),
        forall|x: Seq<char>| #[trigger] label_set(labels).contains(x) <==> labels.contains(x),
    decreases labels.len(),
{
    if labels.len() > 0 {
        let before = labels.drop_last();
        lemma_label_set(before);
        lemma_label_insert_sorted(label_set(before), labels.last());
        assert forall|x: Seq<char>| #[trigger] label_set(labels).contains(x) <==> labels.contains(
            x,
        ) by {
            assert(label_set(before).contains(x) <==> before.contains(x));
            if labels.contains(x) {
                let k = choose|k: int| 0 <= k < labels.len() && labels[k] == x;
                if k < before.len() {
                    assert(before[k] == x);
                }
            }
            if before.contains(x) {
                let k = choose|k: int| 0 <= k < before.len() && before[k] == x;
                assert(labels[k] == x);
            }
            assert(labels[labels.len() - 1] == labels.last());
        }
    } else {
        assert forall|x: Seq<char>| #[trigger] label_set(labels).contains(x) <==> labels.contains(
            x,
        ) by {}
    }
}

/// Two ordered lists of the same labels are the same list.
pub proof fn lemma_sorted_unique(a: Seq<Seq<char>>, b: Seq<Seq<char>>)
    requires
        strictly_sorted(a),
        strictly_sorted(b),
        forall|x: Seq<char>| a.contains(x) <==> b.contains(x),
    ensures
        a == b,
    decreases a.len(),
{
    if a.len() == 0 {
        if b.len() > 0 {
            assert(b.contains(b[0]));
            assert(a.contains(b[0]));
        }
        assert(a =~= b);
    } else {
        assert(a.contains(a.last()));
        assert(b.contains(a.last()));
        let k = choose|k: int| 0 <= k < b.len() && b[k] == a.last();
        assert(b.contains(b.last()));
        assert(a.contains(b.last()));
        let m = choose|m: int| 0 <= m < a.len() && a[m] == b.last();
        if k < b.len() - 1 {
            assert(text::text_lt(b[k], b.last()));
            if m < a.len() - 1 {
                assert(text::text_lt(a[m], a.last()));
                text::lemma_text_lt_total(a.last(), b.last());
            } else {
                text::lemma_text_lt_total(a.last(), a.last());
            }
        }
        assert(a.last() == b.last());
        let ra = a.drop_last();
        let rb = b.drop_last();
        assert forall|x: Seq<char>| ra.contains(x) <==> rb.contains(x) by {
            if ra.contains(x) {
                let i = choose|i: int| 0 <= i < ra.len() && ra[i] == x;
                assert(a[i] == x);
                assert(text::text_lt(a[i], a.last()));
                text::lemma_text_lt_total(x, x);
                assert(a.contains(x));
                let j = choose|j: int| 0 <= j < b.len() && b[j] == x;
                assert(rb[j] == x);
            }
            if rb.contains(x) {
                let i = choose|i: int| 0 <= i < rb.len() && rb[i] == x;
                assert(b[i] == x);
                assert(text::text_lt(b[i], b.last()));
                text::lemma_text_lt_total(x, x);
                assert(b.contains(x));
                let j = choose|j: int| 0 <= j < a.len() && a[j] == x;
                assert(ra[j] == x);
            }
        }
        lemma_sorted_unique(ra, rb);
        assert(a =~= ra.push(a.last()));
        assert(b =~= rb.push(b.last()));
    }
}

/// A repository by owner and name.
#[derive(Debug, PartialEq, Eq)]
pub struct RepositoryId {
    pub owner: String,
    pub name: String,
}

/// The content of a [`RepositoryId`].
#[verifier::ext_equal]
pub struct RepositoryIdView {
    pub owner: Seq<char>,
    pub name: Seq<char>,
}

impl DeepView for RepositoryId {
    type V = RepositoryIdView;

    open spec fn deep_view(&self) -> RepositoryIdView {
        RepositoryIdView {
            owner: self.owner.deep_view(),
            name: self.name.deep_view(),
        }
    }
}

impl Clone for RepositoryId {
    fn clone(&self) -> (r: Self)
        ensures
            r.deep_view() == self.deep_view(),
    {
        self.dup()
    }
}

impl Model for RepositoryId {
    fn same(&self, other: &Self) -> (r: bool) {
        self.owner.same(&other.owner)
            && self.name.same(&other.name)
    }

    fn dup(&self) -> (r: Self) {
        RepositoryId {
            owner: self.owner.dup(),
            name: self.name.dup(),
        }
    }
}

/// One branch of one repository at one commit.
#[derive(Debug, PartialEq, Eq)]
pub struct BranchSnapshot {
    pub repository: RepositoryId,
    pub name: String,
    pub oid: CommitOid,
}

/// The content of a [`BranchSnapshot`].
#[verifier::ext_equal]
pub struct BranchSnapshotView {
    pub repository: RepositoryIdView,
    pub name: Seq<char>,
    pub oid: Seq<char>,
}

impl DeepView for BranchSnapshot {
    type V = BranchSnapshotView;

    open spec fn deep_view(&self) -> BranchSnapshotView {
        BranchSnapshotView {
            repository: self.repository.deep_view(),
            name: self.name.deep_view(),
            oid: self.oid.deep_view(),
        }
    }
}

impl Clone for BranchSnapshot {
    fn clone(&self) -> (r: Self)
        ensures
            r.deep_view() == self.deep_view(),
    {
        self.dup()
    }
}

impl Model for BranchSnapshot {
    fn same(&self, other: &Self) -> (r: bool) {
        self.repository.same(&other.repository)
            && self.name.same(&other.name)
            && self.oid.same(&other.oid)
    }

    fn dup(&self) -> (r: Self) {
        BranchSnapshot {
            repository: self.repository.dup(),
            name: self.name.dup(),
            oid: self.oid.dup(),
        }
    }
}

/// Lifecycle state of a pull request.
#[derive(Debug, Clone, Copy, PartialEq, Eq, PartialOrd, Ord, Structural)]
pub enum PullRequestState {
    Open,
    Closed,
    Merged,
}

impl DeepView for PullRequestState {
    type V = PullRequestState;

    open spec fn deep_view(&self) -> PullRequestState {
        *self
    }
}

impl Model for PullRequestState {
    fn same(&self, other: &Self) -> (r: bool) {
        *self == *other
    }

    fn dup(&self) -> (r: Self) {
        *self
    }
}

/// How a pull request lands.
#[derive(Debug, Clone, Copy, PartialEq, Eq, PartialOrd, Ord, Structural)]
pub enum MergeMethod {
    Squash,
}

impl DeepView for MergeMethod {
    type V = MergeMethod;

    open spec fn deep_view(&self) -> MergeMethod {
        *self
    }
}

impl Model for MergeMethod {
    fn same(&self, other: &Self) -> (r: bool) {
        *self == *other
    }

    fn dup(&self) -> (r: Self) {
        *self
    }
}

/// Normalized state of one check.
#[derive(Debug, Clone, Copy, PartialEq, Eq, PartialOrd, Ord, Structural, Default)]
pub enum CheckState {
    Expected,
    Queued,
    InProgress,
    Success,
    Failure,
    Neutral,
    Skipped,
    Cancelled,
    TimedOut,
    ActionRequired,
    #[default]
    Unknown,
}

impl DeepView for CheckState {
    type V = CheckState;

    open spec fn deep_view(&self) -> CheckState {
        *self
    }
}

impl Model for CheckState {
    fn same(&self, other: &Self) -> (r: bool) {
        *self == *other
    }

    fn dup(&self) -> (r: Self) {
        *self
    }
}

/// One row of the check rollup of a pull request.
#[derive(Debug, PartialEq, Eq, Default)]
pub struct CheckSnapshot {
    pub name: String,
    pub state: CheckState,
    pub provider_state: Option<String>,
    pub details_url: Option<String>,
    pub provider_kind: Option<String>,
    pub workflow_name: Option<String>,
    pub started_at: Option<String>,
    pub completed_at: Option<String>,
    /// The app that reported the check.
    pub app_id: Option<u64>,
    /// The check suite that holds the check.
    pub check_suite_id: Option<u64>,
    /// The commit that the check suite is of.
    pub head_oid: Option<CommitOid>,
    /// A later run of the same check exists in the same rollup.
    pub superseded: bool,
}

/// The content of a [`CheckSnapshot`].
#[verifier::ext_equal]
pub struct CheckSnapshotView {
    pub name: Seq<char>,
    pub state: CheckState,
    pub provider_state: Option<Seq<char>>,
    pub details_url: Option<Seq<char>>,
    pub provider_kind: Option<Seq<char>>,
    pub workflow_name: Option<Seq<char>>,
    pub started_at: Option<Seq<char>>,
    pub completed_at: Option<Seq<char>>,
    pub app_id: Option<u64>,
    pub check_suite_id: Option<u64>,
    pub head_oid: Option<Seq<char>>,
    pub superseded: bool,
}

impl DeepView for CheckSnapshot {
    type V = CheckSnapshotView;

    open spec fn deep_view(&self) -> CheckSnapshotView {
        CheckSnapshotView {
            name: self.name.deep_view(),
            state: self.state.deep_view(),
            provider_state: self.provider_state.deep_view(),
            details_url: self.details_url.deep_view(),
            provider_kind: self.provider_kind.deep_view(),
            workflow_name: self.workflow_name.deep_view(),
            started_at: self.started_at.deep_view(),
            completed_at: self.completed_at.deep_view(),
            app_id: self.app_id.deep_view(),
            check_suite_id: self.check_suite_id.deep_view(),
            head_oid: self.head_oid.deep_view(),
            superseded: self.superseded.deep_view(),
        }
    }
}

impl Clone for CheckSnapshot {
    fn clone(&self) -> (r: Self)
        ensures
            r.deep_view() == self.deep_view(),
    {
        self.dup()
    }
}

impl Model for CheckSnapshot {
    fn same(&self, other: &Self) -> (r: bool) {
        self.name.same(&other.name)
            && self.state.same(&other.state)
            && self.provider_state.same(&other.provider_state)
            && self.details_url.same(&other.details_url)
            && self.provider_kind.same(&other.provider_kind)
            && self.workflow_name.same(&other.workflow_name)
            && self.started_at.same(&other.started_at)
            && self.completed_at.same(&other.completed_at)
            && self.app_id.same(&other.app_id)
            && self.check_suite_id.same(&other.check_suite_id)
            && self.head_oid.same(&other.head_oid)
            && self.superseded.same(&other.superseded)
    }

    fn dup(&self) -> (r: Self) {
        CheckSnapshot {
            name: self.name.dup(),
            state: self.state.dup(),
            provider_state: self.provider_state.dup(),
            details_url: self.details_url.dup(),
            provider_kind: self.provider_kind.dup(),
            workflow_name: self.workflow_name.dup(),
            started_at: self.started_at.dup(),
            completed_at: self.completed_at.dup(),
            app_id: self.app_id.dup(),
            check_suite_id: self.check_suite_id.dup(),
            head_oid: self.head_oid.dup(),
            superseded: self.superseded.dup(),
        }
    }
}

/// Native auto-merge setting of a pull request.
#[derive(Debug, Eq)]
pub struct AutoMergeState {
    pub enabled: bool,
    pub merge_method: Option<MergeMethod>,
    /// Who enabled it; evidence only, never part of a comparison.
    pub actor: Option<String>,
}

/// The content of a [`AutoMergeState`].
#[verifier::ext_equal]
pub struct AutoMergeStateView {
    pub enabled: bool,
    pub merge_method: Option<MergeMethod>,
    pub actor: Option<Seq<char>>,
}

impl DeepView for AutoMergeState {
    type V = AutoMergeStateView;

    open spec fn deep_view(&self) -> AutoMergeStateView {
        AutoMergeStateView {
            enabled: self.enabled.deep_view(),
            merge_method: self.merge_method.deep_view(),
            actor: self.actor.deep_view(),
        }
    }
}

impl Clone for AutoMergeState {
    fn clone(&self) -> (r: Self)
        ensures
            r.deep_view() == self.deep_view(),
    {
        self.dup()
    }
}

impl Model for AutoMergeState {
    fn same(&self, other: &Self) -> (r: bool) {
        self.enabled.same(&other.enabled)
            && self.merge_method.same(&other.merge_method)
            && self.actor.same(&other.actor)
    }

    fn dup(&self) -> (r: Self) {
        AutoMergeState {
            enabled: self.enabled.dup(),
            merge_method: self.merge_method.dup(),
            actor: self.actor.dup(),
        }
    }
}

/// One pull request as the provider reported it.
#[derive(Debug, PartialEq, Eq)]
pub struct PullRequestSnapshot {
    pub number: PrNumber,
    pub title: String,
    pub url: String,
    pub state: PullRequestState,
    pub draft: bool,
    pub head: BranchSnapshot,
    pub base: BranchSnapshot,
    pub cross_repository: bool,
    pub merge_state_status: Option<String>,
    pub labels: LabelSet,
    pub auto_merge: AutoMergeState,
    pub checks: Vec<CheckSnapshot>,
    pub created_at: Option<String>,
    pub merged_at: Option<String>,
    pub updated_at: Option<String>,
}

/// The content of a [`PullRequestSnapshot`].
#[verifier::ext_equal]
pub struct PullRequestSnapshotView {
    pub number: PrNumber,
    pub title: Seq<char>,
    pub url: Seq<char>,
    pub state: PullRequestState,
    pub draft: bool,
    pub head: BranchSnapshotView,
    pub base: BranchSnapshotView,
    pub cross_repository: bool,
    pub merge_state_status: Option<Seq<char>>,
    pub labels: Seq<Seq<char>>,
    pub auto_merge: AutoMergeStateView,
    pub checks: Seq<CheckSnapshotView>,
    pub created_at: Option<Seq<char>>,
    pub merged_at: Option<Seq<char>>,
    pub updated_at: Option<Seq<char>>,
}

impl DeepView for PullRequestSnapshot {
    type V = PullRequestSnapshotView;

    open spec fn deep_view(&self) -> PullRequestSnapshotView {
        PullRequestSnapshotView {
            number: self.number.deep_view(),
            title: self.title.deep_view(),
            url: self.url.deep_view(),
            state: self.state.deep_view(),
            draft: self.draft.deep_view(),
            head: self.head.deep_view(),
            base: self.base.deep_view(),
            cross_repository: self.cross_repository.deep_view(),
            merge_state_status: self.merge_state_status.deep_view(),
            labels: self.labels.deep_view(),
            auto_merge: self.auto_merge.deep_view(),
            checks: self.checks.deep_view(),
            created_at: self.created_at.deep_view(),
            merged_at: self.merged_at.deep_view(),
            updated_at: self.updated_at.deep_view(),
        }
    }
}

impl Clone for PullRequestSnapshot {
    fn clone(&self) -> (r: Self)
        ensures
            r.deep_view() == self.deep_view(),
    {
        self.dup()
    }
}

impl Model for PullRequestSnapshot {
    fn same(&self, other: &Self) -> (r: bool) {
        self.number.same(&other.number)
            && self.title.same(&other.title)
            && self.url.same(&other.url)
            && self.state.same(&other.state)
            && self.draft.same(&other.draft)
            && self.head.same(&other.head)
            && self.base.same(&other.base)
            && self.cross_repository.same(&other.cross_repository)
            && self.merge_state_status.same(&other.merge_state_status)
            && self.labels.same(&other.labels)
            && self.auto_merge.same(&other.auto_merge)
            && self.checks.same(&other.checks)
            && self.created_at.same(&other.created_at)
            && self.merged_at.same(&other.merged_at)
            && self.updated_at.same(&other.updated_at)
    }

    fn dup(&self) -> (r: Self) {
        PullRequestSnapshot {
            number: self.number.dup(),
            title: self.title.dup(),
            url: self.url.dup(),
            state: self.state.dup(),
            draft: self.draft.dup(),
            head: self.head.dup(),
            base: self.base.dup(),
            cross_repository: self.cross_repository.dup(),
            merge_state_status: self.merge_state_status.dup(),
            labels: self.labels.dup(),
            auto_merge: self.auto_merge.dup(),
            checks: self.checks.dup(),
            created_at: self.created_at.dup(),
            merged_at: self.merged_at.dup(),
            updated_at: self.updated_at.dup(),
        }
    }
}

impl PartialEq for AutoMergeState {
    fn eq(&self, other: &Self) -> (r: bool) {
        self.same_setting(other)
    }
}

impl vstd::std_specs::cmp::PartialEqSpecImpl for AutoMergeState {
    open spec fn obeys_eq_spec() -> bool {
        true
    }

    open spec fn eq_spec(&self, other: &Self) -> bool {
        same_setting_view(self.deep_view(), other.deep_view())
    }
}

/// Whether two settings agree, whoever made them.
pub open spec fn same_setting_view(a: AutoMergeStateView, b: AutoMergeStateView) -> bool {
    a.enabled == b.enabled && a.merge_method == b.merge_method
}

/// Whether a setting is an armed squash.
pub open spec fn squash_armed(state: AutoMergeStateView) -> bool {
    state.enabled && state.merge_method == Some(MergeMethod::Squash)
}

impl AutoMergeState {
    pub fn same_setting(&self, other: &AutoMergeState) -> (r: bool)
        ensures
            r == same_setting_view(self.deep_view(), other.deep_view()),
    {
        self.enabled == other.enabled && self.merge_method.same(&other.merge_method)
    }

    pub fn disabled() -> (r: Self)
        ensures
            r.deep_view() == (
                AutoMergeStateView { enabled: false, merge_method: None, actor: None }
            ),
    {
        AutoMergeState { enabled: false, merge_method: None, actor: None }
    }

    pub fn squash() -> (r: Self)
        ensures
            r.deep_view() == (AutoMergeStateView {
                enabled: true,
                merge_method: Some(MergeMethod::Squash),
                actor: None,
            }),
    {
        AutoMergeState { enabled: true, merge_method: Some(MergeMethod::Squash), actor: None }
    }

    /// Whether native auto-merge is armed with a squash.
    pub fn is_squash(&self) -> (r: bool)
        ensures
            r == squash_armed(self.deep_view()),
    {
        self.enabled && match self.merge_method {
            Some(MergeMethod::Squash) => true,
            None => false,
        }
    }
}

impl RepositoryIdView {
    /// `owner/name`.
    pub open spec fn slug(self) -> Seq<char> {
        self.owner + "/"@ + self.name
    }
}

impl RepositoryId {
    pub fn slug(&self) -> (r: String)
        ensures
            r@ == self.deep_view().slug(),
    {
        self.owner.clone().concat("/").concat(self.name.as_str())
    }
}

impl PullRequestSnapshotView {
    pub open spec fn has_label(self, label: Seq<char>) -> bool {
        self.labels.contains(label)
    }

    /// An open pull request that carries the membership label and was not
    /// evicted.
    pub open spec fn is_active_caravan_member(self) -> bool {
        self.state == PullRequestState::Open && self.has_label("caravan"@) && !self.has_label(
            "caravan-evicted"@,
        )
    }
}

impl PullRequestSnapshot {
    pub fn has_label(&self, label: &str) -> (r: bool)
        ensures
            r == self.deep_view().has_label(label@),
    {
        self.labels.contains(label)
    }

    pub fn is_active_caravan_member(&self) -> (r: bool)
        ensures
            r == self.deep_view().is_active_caravan_member(),
    {
        self.state == PullRequestState::Open && self.has_label("caravan") && !self.has_label(
            "caravan-evicted",
        )
    }
}

impl CheckSnapshotView {
    /// When the run of a check was last observed: its completion, else its
    /// start.
    pub open spec fn stamp(self) -> Option<Seq<char>> {
        match self.completed_at {
            Some(stamp) => Some(stamp),
            None => self.started_at,
        }
    }

    /// Whether two rows are runs of the same check.
    pub open spec fn same_check(self, other: CheckSnapshotView) -> bool {
        self.name == other.name && self.workflow_name == other.workflow_name && self.provider_kind
            == other.provider_kind
    }

    /// Whether the other row is a later run of the same check. A row without
    /// a stamp is neither later nor earlier than any.
    pub open spec fn outdated_by(self, other: CheckSnapshotView) -> bool {
        self.same_check(other) && match (self.stamp(), other.stamp()) {
            (Some(mine), Some(theirs)) => text::text_lt(mine, theirs),
            _ => false,
        }
    }
}

/// Whether some row is a later run of the same check.
pub open spec fn outdated(check: CheckSnapshotView, checks: Seq<CheckSnapshotView>) -> bool {
    exists|i: int| 0 <= i < checks.len() && check.outdated_by(#[trigger] checks[i])
}

/// The rows of a rollup, each marked if a later run exists.
pub open spec fn marked_checks(checks: Seq<CheckSnapshotView>) -> Seq<CheckSnapshotView> {
    Seq::new(
        checks.len(),
        |i: int| CheckSnapshotView { superseded: outdated(checks[i], checks), ..checks[i] },
    )
}

/// The rows of a rollup that are outdated, or those that are not.
pub open spec fn checks_where(
    checks: Seq<CheckSnapshotView>,
    all: Seq<CheckSnapshotView>,
    wanted: bool,
) -> Seq<CheckSnapshotView>
    decreases checks.len(),
{
    if checks.len() == 0 {
        Seq::empty()
    } else if outdated(checks.last(), all) == wanted {
        checks_where(checks.drop_last(), all, wanted).push(checks.last())
    } else {
        checks_where(checks.drop_last(), all, wanted)
    }
}

impl CheckSnapshot {
    /// When the run of a check was last observed.
    pub fn observed_at(&self) -> (r: Option<String>)
        ensures
            r.deep_view() == self.deep_view().stamp(),
    {
        match &self.completed_at {
            Some(stamp) => Some(stamp.dup()),
            None => self.started_at.dup(),
        }
    }

    fn outdated_by(&self, other: &CheckSnapshot) -> (r: bool)
        ensures
            r == self.deep_view().outdated_by(other.deep_view()),
    {
        self.name.same(&other.name) && self.workflow_name.same(&other.workflow_name)
            && self.provider_kind.same(&other.provider_kind) && match (
            self.observed_at(),
            other.observed_at(),
        ) {
            (Some(mine), Some(theirs)) => text_less(mine.as_str(), theirs.as_str()),
            _ => false,
        }
    }

    fn outdated_in(&self, checks: &Vec<CheckSnapshot>) -> (r: bool)
        ensures
            r == outdated(self.deep_view(), checks.deep_view()),
    {
        let ghost all = checks.deep_view();
        let mut i: usize = 0;
        while i < checks.len()
            invariant
                all == checks.deep_view(),
                i <= checks.len(),
                forall|j: int| 0 <= j < i ==> !self.deep_view().outdated_by(#[trigger] all[j]),
            decreases checks.len() - i,
        {
            assert(all[i as int] == checks[i as int].deep_view());
            if self.outdated_by(&checks[i]) {
                return true;
            }
            i = i + 1;
        }
        false
    }
}

/// Marks the rows of a rollup that a later run of the same check outdates.
pub fn mark_superseded_checks(checks: Vec<CheckSnapshot>) -> (r: Vec<CheckSnapshot>)
    ensures
        r.deep_view() == marked_checks(checks.deep_view()),
{
    let ghost all = checks.deep_view();
    let mut out: Vec<CheckSnapshot> = Vec::new();
    let mut i: usize = 0;
    while i < checks.len()
        invariant
            all == checks.deep_view(),
            i <= checks.len(),
            out.deep_view() == marked_checks(all).take(i as int),
        decreases checks.len() - i,
    {
        assert(all[i as int] == checks[i as int].deep_view());
        let mut row = checks[i].dup();
        row.superseded = checks[i].outdated_in(&checks);
        push_item(&mut out, row);
        i = i + 1;
        assert(out.deep_view() =~= marked_checks(all).take(i as int));
    }
    assert(out.deep_view() =~= marked_checks(all));
    out
}

/// The current rows of a rollup, and the outdated ones.
pub fn latest_checks_per_identity(checks: &Vec<CheckSnapshot>) -> (r: (
    Vec<CheckSnapshot>,
    Vec<CheckSnapshot>,
))
    ensures
        r.0.deep_view() == checks_where(checks.deep_view(), checks.deep_view(), false),
        r.1.deep_view() == checks_where(checks.deep_view(), checks.deep_view(), true),
{
    let ghost all = checks.deep_view();
    let mut current: Vec<CheckSnapshot> = Vec::new();
    let mut older: Vec<CheckSnapshot> = Vec::new();
    assert(current.deep_view() =~= checks_where(all.take(0), all, false));
    assert(older.deep_view() =~= checks_where(all.take(0), all, true));
    let mut i: usize = 0;
    while i < checks.len()
        invariant
            all == checks.deep_view(),
            i <= checks.len(),
            current.deep_view() == checks_where(all.take(i as int), all, false),
            older.deep_view() == checks_where(all.take(i as int), all, true),
        decreases checks.len() - i,
    {
        assert(all.take(i as int + 1).drop_last() =~= all.take(i as int));
        assert(all[i as int] == checks[i as int].deep_view());
        if checks[i].outdated_in(checks) {
            push_item(&mut older, checks[i].dup());
        } else {
            push_item(&mut current, checks[i].dup());
        }
        i = i + 1;
    }
    assert(all.take(i as int) =~= all);
    (current, older)
}


/// Outcome of one mechanical merge trial.
#[derive(Debug, Clone, Copy, PartialEq, Eq, PartialOrd, Ord, Structural)]
pub enum CompatibilityOutcome {
    Clean,
    Conflict,
}

impl DeepView for CompatibilityOutcome {
    type V = CompatibilityOutcome;

    open spec fn deep_view(&self) -> CompatibilityOutcome {
        *self
    }
}

impl Model for CompatibilityOutcome {
    fn same(&self, other: &Self) -> (r: bool) {
        *self == *other
    }

    fn dup(&self) -> (r: Self) {
        *self
    }
}

/// Evidence of one mechanical merge trial.
#[derive(Debug, PartialEq, Eq)]
pub struct CompatibilityReport {
    pub candidate: BranchSnapshot,
    pub target: BranchSnapshot,
    pub outcome: CompatibilityOutcome,
    pub conflicting_paths: Vec<String>,
    pub diagnostic: Option<String>,
}

/// The content of a [`CompatibilityReport`].
#[verifier::ext_equal]
pub struct CompatibilityReportView {
    pub candidate: BranchSnapshotView,
    pub target: BranchSnapshotView,
    pub outcome: CompatibilityOutcome,
    pub conflicting_paths: Seq<Seq<char>>,
    pub diagnostic: Option<Seq<char>>,
}

impl DeepView for CompatibilityReport {
    type V = CompatibilityReportView;

    open spec fn deep_view(&self) -> CompatibilityReportView {
        CompatibilityReportView {
            candidate: self.candidate.deep_view(),
            target: self.target.deep_view(),
            outcome: self.outcome.deep_view(),
            conflicting_paths: self.conflicting_paths.deep_view(),
            diagnostic: self.diagnostic.deep_view(),
        }
    }
}

impl Clone for CompatibilityReport {
    fn clone(&self) -> (r: Self)
        ensures
            r.deep_view() == self.deep_view(),
    {
        self.dup()
    }
}

impl Model for CompatibilityReport {
    fn same(&self, other: &Self) -> (r: bool) {
        self.candidate.same(&other.candidate)
            && self.target.same(&other.target)
            && self.outcome.same(&other.outcome)
            && self.conflicting_paths.same(&other.conflicting_paths)
            && self.diagnostic.same(&other.diagnostic)
    }

    fn dup(&self) -> (r: Self) {
        CompatibilityReport {
            candidate: self.candidate.dup(),
            target: self.target.dup(),
            outcome: self.outcome.dup(),
            conflicting_paths: self.conflicting_paths.dup(),
            diagnostic: self.diagnostic.dup(),
        }
    }
}

/// The tree that squashing a candidate onto a target yields, beside the
/// tree of the candidate itself.
#[derive(Debug, PartialEq, Eq)]
pub struct CumulativeTreeProof {
    pub candidate: BranchSnapshot,
    pub target: BranchSnapshot,
    pub candidate_tree: CommitOid,
    pub squash_tree: CommitOid,
}

/// The content of a [`CumulativeTreeProof`].
#[verifier::ext_equal]
pub struct CumulativeTreeProofView {
    pub candidate: BranchSnapshotView,
    pub target: BranchSnapshotView,
    pub candidate_tree: Seq<char>,
    pub squash_tree: Seq<char>,
}

impl DeepView for CumulativeTreeProof {
    type V = CumulativeTreeProofView;

    open spec fn deep_view(&self) -> CumulativeTreeProofView {
        CumulativeTreeProofView {
            candidate: self.candidate.deep_view(),
            target: self.target.deep_view(),
            candidate_tree: self.candidate_tree.deep_view(),
            squash_tree: self.squash_tree.deep_view(),
        }
    }
}

impl Clone for CumulativeTreeProof {
    fn clone(&self) -> (r: Self)
        ensures
            r.deep_view() == self.deep_view(),
    {
        self.dup()
    }
}

impl Model for CumulativeTreeProof {
    fn same(&self, other: &Self) -> (r: bool) {
        self.candidate.same(&other.candidate)
            && self.target.same(&other.target)
            && self.candidate_tree.same(&other.candidate_tree)
            && self.squash_tree.same(&other.squash_tree)
    }

    fn dup(&self) -> (r: Self) {
        CumulativeTreeProof {
            candidate: self.candidate.dup(),
            target: self.target.dup(),
            candidate_tree: self.candidate_tree.dup(),
            squash_tree: self.squash_tree.dup(),
        }
    }
}

/// Whether the earliest commits of a candidate already landed as a squash.
#[derive(Debug, Clone, Copy, PartialEq, Eq, PartialOrd, Ord, Structural)]
pub enum SquashEquivalenceOutcome {
    Reconcilable,
    NoEquivalence,
}

impl DeepView for SquashEquivalenceOutcome {
    type V = SquashEquivalenceOutcome;

    open spec fn deep_view(&self) -> SquashEquivalenceOutcome {
        *self
    }
}

impl Model for SquashEquivalenceOutcome {
    fn same(&self, other: &Self) -> (r: bool) {
        *self == *other
    }

    fn dup(&self) -> (r: Self) {
        *self
    }
}

/// Squash-equivalence evidence for an attachment that is not clean.
#[derive(Debug, PartialEq, Eq)]
pub struct SquashEquivalenceReport {
    pub schema_version: u32,
    pub candidate: BranchSnapshot,
    pub target: BranchSnapshot,
    pub candidate_oid: CommitOid,
    pub target_oid: CommitOid,
    pub merge_base: Option<CommitOid>,
    pub outcome: SquashEquivalenceOutcome,
    pub before: Option<CompatibilityOutcome>,
    pub after: Option<CompatibilityOutcome>,
    pub proven_boundary: Option<CommitOid>,
    pub boundary_tree: Option<CommitOid>,
    pub target_tree: Option<CommitOid>,
    pub commits: Vec<CommitOid>,
    pub represented_paths: Vec<String>,
    pub represented_paths_truncated: bool,
    pub candidate_commit_count: usize,
    pub analyzed_prefix_complete: bool,
    pub evaluated_boundaries: usize,
    pub evaluation_bounded: bool,
    pub reason: String,
    pub policy: String,
}

/// The content of a [`SquashEquivalenceReport`].
#[verifier::ext_equal]
pub struct SquashEquivalenceReportView {
    pub schema_version: u32,
    pub candidate: BranchSnapshotView,
    pub target: BranchSnapshotView,
    pub candidate_oid: Seq<char>,
    pub target_oid: Seq<char>,
    pub merge_base: Option<Seq<char>>,
    pub outcome: SquashEquivalenceOutcome,
    pub before: Option<CompatibilityOutcome>,
    pub after: Option<CompatibilityOutcome>,
    pub proven_boundary: Option<Seq<char>>,
    pub boundary_tree: Option<Seq<char>>,
    pub target_tree: Option<Seq<char>>,
    pub commits: Seq<Seq<char>>,
    pub represented_paths: Seq<Seq<char>>,
    pub represented_paths_truncated: bool,
    pub candidate_commit_count: usize,
    pub analyzed_prefix_complete: bool,
    pub evaluated_boundaries: usize,
    pub evaluation_bounded: bool,
    pub reason: Seq<char>,
    pub policy: Seq<char>,
}

impl DeepView for SquashEquivalenceReport {
    type V = SquashEquivalenceReportView;

    open spec fn deep_view(&self) -> SquashEquivalenceReportView {
        SquashEquivalenceReportView {
            schema_version: self.schema_version.deep_view(),
            candidate: self.candidate.deep_view(),
            target: self.target.deep_view(),
            candidate_oid: self.candidate_oid.deep_view(),
            target_oid: self.target_oid.deep_view(),
            merge_base: self.merge_base.deep_view(),
            outcome: self.outcome.deep_view(),
            before: self.before.deep_view(),
            after: self.after.deep_view(),
            proven_boundary: self.proven_boundary.deep_view(),
            boundary_tree: self.boundary_tree.deep_view(),
            target_tree: self.target_tree.deep_view(),
            commits: self.commits.deep_view(),
            represented_paths: self.represented_paths.deep_view(),
            represented_paths_truncated: self.represented_paths_truncated.deep_view(),
            candidate_commit_count: self.candidate_commit_count.deep_view(),
            analyzed_prefix_complete: self.analyzed_prefix_complete.deep_view(),
            evaluated_boundaries: self.evaluated_boundaries.deep_view(),
            evaluation_bounded: self.evaluation_bounded.deep_view(),
            reason: self.reason.deep_view(),
            policy: self.policy.deep_view(),
        }
    }
}

impl Clone for SquashEquivalenceReport {
    fn clone(&self) -> (r: Self)
        ensures
            r.deep_view() == self.deep_view(),
    {
        self.dup()
    }
}

impl Model for SquashEquivalenceReport {
    fn same(&self, other: &Self) -> (r: bool) {
        self.schema_version.same(&other.schema_version)
            && self.candidate.same(&other.candidate)
            && self.target.same(&other.target)
            && self.candidate_oid.same(&other.candidate_oid)
            && self.target_oid.same(&other.target_oid)
            && self.merge_base.same(&other.merge_base)
            && self.outcome.same(&other.outcome)
            && self.before.same(&other.before)
            && self.after.same(&other.after)
            && self.proven_boundary.same(&other.proven_boundary)
            && self.boundary_tree.same(&other.boundary_tree)
            && self.target_tree.same(&other.target_tree)
            && self.commits.same(&other.commits)
            && self.represented_paths.same(&other.represented_paths)
            && self.represented_paths_truncated.same(&other.represented_paths_truncated)
            && self.candidate_commit_count.same(&other.candidate_commit_count)
            && self.analyzed_prefix_complete.same(&other.analyzed_prefix_complete)
            && self.evaluated_boundaries.same(&other.evaluated_boundaries)
            && self.evaluation_bounded.same(&other.evaluation_bounded)
            && self.reason.same(&other.reason)
            && self.policy.same(&other.policy)
    }

    fn dup(&self) -> (r: Self) {
        SquashEquivalenceReport {
            schema_version: self.schema_version.dup(),
            candidate: self.candidate.dup(),
            target: self.target.dup(),
            candidate_oid: self.candidate_oid.dup(),
            target_oid: self.target_oid.dup(),
            merge_base: self.merge_base.dup(),
            outcome: self.outcome.dup(),
            before: self.before.dup(),
            after: self.after.dup(),
            proven_boundary: self.proven_boundary.dup(),
            boundary_tree: self.boundary_tree.dup(),
            target_tree: self.target_tree.dup(),
            commits: self.commits.dup(),
            represented_paths: self.represented_paths.dup(),
            represented_paths_truncated: self.represented_paths_truncated.dup(),
            candidate_commit_count: self.candidate_commit_count.dup(),
            analyzed_prefix_complete: self.analyzed_prefix_complete.dup(),
            evaluated_boundaries: self.evaluated_boundaries.dup(),
            evaluation_bounded: self.evaluation_bounded.dup(),
            reason: self.reason.dup(),
            policy: self.policy.dup(),
        }
    }
}

/// What is wrong with the fleet topology or one of its proofs.
#[derive(Debug, Clone, Copy, PartialEq, Eq, PartialOrd, Ord, Structural)]
pub enum GraphProblemKind {
    DuplicateMember,
    DissolvedMember,
    ActiveAndEvicted,
    ForkOnlyPredecessor,
    ReusedBranchProvenance,
    MultipleHeads,
    DanglingBase,
    Branching,
    Cycle,
    MissingHead,
    AutoMergeInvariant,
    Incompatible,
    CandidateIncompatible,
}

impl DeepView for GraphProblemKind {
    type V = GraphProblemKind;

    open spec fn deep_view(&self) -> GraphProblemKind {
        *self
    }
}

impl Model for GraphProblemKind {
    fn same(&self, other: &Self) -> (r: bool) {
        *self == *other
    }

    fn dup(&self) -> (r: Self) {
        *self
    }
}

/// One problem with the pull requests it concerns.
#[derive(Debug, PartialEq, Eq)]
pub struct GraphProblem {
    pub kind: GraphProblemKind,
    pub prs: Vec<PrNumber>,
    pub message: String,
}

/// The content of a [`GraphProblem`].
#[verifier::ext_equal]
pub struct GraphProblemView {
    pub kind: GraphProblemKind,
    pub prs: Seq<PrNumber>,
    pub message: Seq<char>,
}

impl DeepView for GraphProblem {
    type V = GraphProblemView;

    open spec fn deep_view(&self) -> GraphProblemView {
        GraphProblemView {
            kind: self.kind.deep_view(),
            prs: self.prs.deep_view(),
            message: self.message.deep_view(),
        }
    }
}

impl Clone for GraphProblem {
    fn clone(&self) -> (r: Self)
        ensures
            r.deep_view() == self.deep_view(),
    {
        self.dup()
    }
}

impl Model for GraphProblem {
    fn same(&self, other: &Self) -> (r: bool) {
        self.kind.same(&other.kind)
            && self.prs.same(&other.prs)
            && self.message.same(&other.message)
    }

    fn dup(&self) -> (r: Self) {
        GraphProblem {
            kind: self.kind.dup(),
            prs: self.prs.dup(),
            message: self.message.dup(),
        }
    }
}

/// A linear chain of pull requests, head first.
#[derive(Debug, PartialEq, Eq)]
pub struct Caravan {
    /// The number of the head.
    pub id: PrNumber,
    pub members: Vec<PrNumber>,
    /// Quarantined for repair: keeps its evidence, gates nothing.
    pub parked: bool,
}

/// The content of a [`Caravan`].
#[verifier::ext_equal]
pub struct CaravanView {
    pub id: PrNumber,
    pub members: Seq<PrNumber>,
    pub parked: bool,
}

impl DeepView for Caravan {
    type V = CaravanView;

    open spec fn deep_view(&self) -> CaravanView {
        CaravanView {
            id: self.id.deep_view(),
            members: self.members.deep_view(),
            parked: self.parked.deep_view(),
        }
    }
}

impl Clone for Caravan {
    fn clone(&self) -> (r: Self)
        ensures
            r.deep_view() == self.deep_view(),
    {
        self.dup()
    }
}

impl Model for Caravan {
    fn same(&self, other: &Self) -> (r: bool) {
        self.id.same(&other.id)
            && self.members.same(&other.members)
            && self.parked.same(&other.parked)
    }

    fn dup(&self) -> (r: Self) {
        Caravan {
            id: self.id.dup(),
            members: self.members.dup(),
            parked: self.parked.dup(),
        }
    }
}

/// What the snapshot proves about earlier caravans.
#[derive(Debug, PartialEq, Eq)]
pub struct CaravanHistory {
    pub merged_members_observed: usize,
    pub earliest_merged_at: Option<String>,
    pub latest_merged_at: Option<String>,
    pub unlabelled_merged_rows: usize,
}

/// The content of a [`CaravanHistory`].
#[verifier::ext_equal]
pub struct CaravanHistoryView {
    pub merged_members_observed: usize,
    pub earliest_merged_at: Option<Seq<char>>,
    pub latest_merged_at: Option<Seq<char>>,
    pub unlabelled_merged_rows: usize,
}

impl DeepView for CaravanHistory {
    type V = CaravanHistoryView;

    open spec fn deep_view(&self) -> CaravanHistoryView {
        CaravanHistoryView {
            merged_members_observed: self.merged_members_observed.deep_view(),
            earliest_merged_at: self.earliest_merged_at.deep_view(),
            latest_merged_at: self.latest_merged_at.deep_view(),
            unlabelled_merged_rows: self.unlabelled_merged_rows.deep_view(),
        }
    }
}

impl Clone for CaravanHistory {
    fn clone(&self) -> (r: Self)
        ensures
            r.deep_view() == self.deep_view(),
    {
        self.dup()
    }
}

impl Model for CaravanHistory {
    fn same(&self, other: &Self) -> (r: bool) {
        self.merged_members_observed.same(&other.merged_members_observed)
            && self.earliest_merged_at.same(&other.earliest_merged_at)
            && self.latest_merged_at.same(&other.latest_merged_at)
            && self.unlabelled_merged_rows.same(&other.unlabelled_merged_rows)
    }

    fn dup(&self) -> (r: Self) {
        CaravanHistory {
            merged_members_observed: self.merged_members_observed.dup(),
            earliest_merged_at: self.earliest_merged_at.dup(),
            latest_merged_at: self.latest_merged_at.dup(),
            unlabelled_merged_rows: self.unlabelled_merged_rows.dup(),
        }
    }
}

/// All caravans of one repository with their problems.
#[derive(Debug, PartialEq, Eq)]
pub struct CaravanFleet {
    pub repository: RepositoryId,
    pub default_branch: BranchSnapshot,
    pub caravans: Vec<Caravan>,
    pub unqueued: Vec<PrNumber>,
    pub problems: Vec<GraphProblem>,
    pub history: CaravanHistory,
}

/// The content of a [`CaravanFleet`].
#[verifier::ext_equal]
pub struct CaravanFleetView {
    pub repository: RepositoryIdView,
    pub default_branch: BranchSnapshotView,
    pub caravans: Seq<CaravanView>,
    pub unqueued: Seq<PrNumber>,
    pub problems: Seq<GraphProblemView>,
    pub history: CaravanHistoryView,
}

impl DeepView for CaravanFleet {
    type V = CaravanFleetView;

    open spec fn deep_view(&self) -> CaravanFleetView {
        CaravanFleetView {
            repository: self.repository.deep_view(),
            default_branch: self.default_branch.deep_view(),
            caravans: self.caravans.deep_view(),
            unqueued: self.unqueued.deep_view(),
            problems: self.problems.deep_view(),
            history: self.history.deep_view(),
        }
    }
}

impl Clone for CaravanFleet {
    fn clone(&self) -> (r: Self)
        ensures
            r.deep_view() == self.deep_view(),
    {
        self.dup()
    }
}

impl Model for CaravanFleet {
    fn same(&self, other: &Self) -> (r: bool) {
        self.repository.same(&other.repository)
            && self.default_branch.same(&other.default_branch)
            && self.caravans.same(&other.caravans)
            && self.unqueued.same(&other.unqueued)
            && self.problems.same(&other.problems)
            && self.history.same(&other.history)
    }

    fn dup(&self) -> (r: Self) {
        CaravanFleet {
            repository: self.repository.dup(),
            default_branch: self.default_branch.dup(),
            caravans: self.caravans.dup(),
            unqueued: self.unqueued.dup(),
            problems: self.problems.dup(),
            history: self.history.dup(),
        }
    }
}

/// Who merges the head of a caravan.
#[derive(Debug, Clone, Copy, PartialEq, Eq, PartialOrd, Ord, Structural, Default)]
pub enum HeadMergeActor {
    #[default]
    Github,
    Caravan,
}

impl DeepView for HeadMergeActor {
    type V = HeadMergeActor;

    open spec fn deep_view(&self) -> HeadMergeActor {
        *self
    }
}

impl Model for HeadMergeActor {
    fn same(&self, other: &Self) -> (r: bool) {
        *self == *other
    }

    fn dup(&self) -> (r: Self) {
        *self
    }
}

/// The merge commit that the provider synthesizes for a pull request.
#[derive(Debug, PartialEq, Eq)]
pub struct SyntheticMergeCandidate {
    pub git_ref: String,
    pub oid: CommitOid,
    pub tree_oid: CommitOid,
    pub parents: Vec<CommitOid>,
}

/// The content of a [`SyntheticMergeCandidate`].
#[verifier::ext_equal]
pub struct SyntheticMergeCandidateView {
    pub git_ref: Seq<char>,
    pub oid: Seq<char>,
    pub tree_oid: Seq<char>,
    pub parents: Seq<Seq<char>>,
}

impl DeepView for SyntheticMergeCandidate {
    type V = SyntheticMergeCandidateView;

    open spec fn deep_view(&self) -> SyntheticMergeCandidateView {
        SyntheticMergeCandidateView {
            git_ref: self.git_ref.deep_view(),
            oid: self.oid.deep_view(),
            tree_oid: self.tree_oid.deep_view(),
            parents: self.parents.deep_view(),
        }
    }
}

impl Clone for SyntheticMergeCandidate {
    fn clone(&self) -> (r: Self)
        ensures
            r.deep_view() == self.deep_view(),
    {
        self.dup()
    }
}

impl Model for SyntheticMergeCandidate {
    fn same(&self, other: &Self) -> (r: bool) {
        self.git_ref.same(&other.git_ref)
            && self.oid.same(&other.oid)
            && self.tree_oid.same(&other.tree_oid)
            && self.parents.same(&other.parents)
    }

    fn dup(&self) -> (r: Self) {
        SyntheticMergeCandidate {
            git_ref: self.git_ref.dup(),
            oid: self.oid.dup(),
            tree_oid: self.tree_oid.dup(),
            parents: self.parents.dup(),
        }
    }
}

/// Native auto-merge evidence of one merge candidate.
#[derive(Debug, PartialEq, Eq)]
pub struct NativeAutoMergeState {
    pub enabled: bool,
    pub merge_method: Option<MergeMethod>,
    pub actor: Option<String>,
}

/// The content of a [`NativeAutoMergeState`].
#[verifier::ext_equal]
pub struct NativeAutoMergeStateView {
    pub enabled: bool,
    pub merge_method: Option<MergeMethod>,
    pub actor: Option<Seq<char>>,
}

impl DeepView for NativeAutoMergeState {
    type V = NativeAutoMergeStateView;

    open spec fn deep_view(&self) -> NativeAutoMergeStateView {
        NativeAutoMergeStateView {
            enabled: self.enabled.deep_view(),
            merge_method: self.merge_method.deep_view(),
            actor: self.actor.deep_view(),
        }
    }
}

impl Clone for NativeAutoMergeState {
    fn clone(&self) -> (r: Self)
        ensures
            r.deep_view() == self.deep_view(),
    {
        self.dup()
    }
}

impl Model for NativeAutoMergeState {
    fn same(&self, other: &Self) -> (r: bool) {
        self.enabled.same(&other.enabled)
            && self.merge_method.same(&other.merge_method)
            && self.actor.same(&other.actor)
    }

    fn dup(&self) -> (r: Self) {
        NativeAutoMergeState {
            enabled: self.enabled.dup(),
            merge_method: self.merge_method.dup(),
            actor: self.actor.dup(),
        }
    }
}

/// How a synthetic merge candidate relates to the current tips.
#[derive(Debug, Clone, Copy, PartialEq, Eq, PartialOrd, Ord, Structural)]
pub enum MergeCandidateFreshness {
    Missing,
    Unknown,
    StaleHead,
    StaleBase,
    Fresh,
}

impl DeepView for MergeCandidateFreshness {
    type V = MergeCandidateFreshness;

    open spec fn deep_view(&self) -> MergeCandidateFreshness {
        *self
    }
}

impl Model for MergeCandidateFreshness {
    fn same(&self, other: &Self) -> (r: bool) {
        *self == *other
    }

    fn dup(&self) -> (r: Self) {
        *self
    }
}

/// One pull request with its synthetic merge candidate.
#[derive(Debug, PartialEq, Eq)]
pub struct MergeCandidateIdentity {
    pub pr: PrNumber,
    pub provider_updated_at: String,
    pub observed_at: String,
    pub base: BranchSnapshot,
    pub head: BranchSnapshot,
    pub synthetic: Option<SyntheticMergeCandidate>,
    pub auto_merge: NativeAutoMergeState,
    pub freshness: MergeCandidateFreshness,
    pub compared_base: Option<BranchSnapshot>,
    pub stale_base: bool,
    pub stale_head: bool,
    pub stale_reasons: Vec<String>,
}

/// The content of a [`MergeCandidateIdentity`].
#[verifier::ext_equal]
pub struct MergeCandidateIdentityView {
    pub pr: PrNumber,
    pub provider_updated_at: Seq<char>,
    pub observed_at: Seq<char>,
    pub base: BranchSnapshotView,
    pub head: BranchSnapshotView,
    pub synthetic: Option<SyntheticMergeCandidateView>,
    pub auto_merge: NativeAutoMergeStateView,
    pub freshness: MergeCandidateFreshness,
    pub compared_base: Option<BranchSnapshotView>,
    pub stale_base: bool,
    pub stale_head: bool,
    pub stale_reasons: Seq<Seq<char>>,
}

impl DeepView for MergeCandidateIdentity {
    type V = MergeCandidateIdentityView;

    open spec fn deep_view(&self) -> MergeCandidateIdentityView {
        MergeCandidateIdentityView {
            pr: self.pr.deep_view(),
            provider_updated_at: self.provider_updated_at.deep_view(),
            observed_at: self.observed_at.deep_view(),
            base: self.base.deep_view(),
            head: self.head.deep_view(),
            synthetic: self.synthetic.deep_view(),
            auto_merge: self.auto_merge.deep_view(),
            freshness: self.freshness.deep_view(),
            compared_base: self.compared_base.deep_view(),
            stale_base: self.stale_base.deep_view(),
            stale_head: self.stale_head.deep_view(),
            stale_reasons: self.stale_reasons.deep_view(),
        }
    }
}

impl Clone for MergeCandidateIdentity {
    fn clone(&self) -> (r: Self)
        ensures
            r.deep_view() == self.deep_view(),
    {
        self.dup()
    }
}

impl Model for MergeCandidateIdentity {
    fn same(&self, other: &Self) -> (r: bool) {
        self.pr.same(&other.pr)
            && self.provider_updated_at.same(&other.provider_updated_at)
            && self.observed_at.same(&other.observed_at)
            && self.base.same(&other.base)
            && self.head.same(&other.head)
            && self.synthetic.same(&other.synthetic)
            && self.auto_merge.same(&other.auto_merge)
            && self.freshness.same(&other.freshness)
            && self.compared_base.same(&other.compared_base)
            && self.stale_base.same(&other.stale_base)
            && self.stale_head.same(&other.stale_head)
            && self.stale_reasons.same(&other.stale_reasons)
    }

    fn dup(&self) -> (r: Self) {
        MergeCandidateIdentity {
            pr: self.pr.dup(),
            provider_updated_at: self.provider_updated_at.dup(),
            observed_at: self.observed_at.dup(),
            base: self.base.dup(),
            head: self.head.dup(),
            synthetic: self.synthetic.dup(),
            auto_merge: self.auto_merge.dup(),
            freshness: self.freshness.dup(),
            compared_base: self.compared_base.dup(),
            stale_base: self.stale_base.dup(),
            stale_head: self.stale_head.dup(),
            stale_reasons: self.stale_reasons.dup(),
        }
    }
}

/// Who moved the default branch.
#[derive(Debug, Clone, Copy, PartialEq, Eq, PartialOrd, Ord, Structural)]
pub enum MovementOwnership {
    External,
    Unknown,
}

impl DeepView for MovementOwnership {
    type V = MovementOwnership;

    open spec fn deep_view(&self) -> MovementOwnership {
        *self
    }
}

impl Model for MovementOwnership {
    fn same(&self, other: &Self) -> (r: bool) {
        *self == *other
    }

    fn dup(&self) -> (r: Self) {
        *self
    }
}

/// One commit on the default branch.
#[derive(Debug, PartialEq, Eq)]
pub struct DefaultBranchMovement {
    pub oid: CommitOid,
    pub timestamp: String,
    pub actor: Option<String>,
    pub source_pr: Option<PrNumber>,
    pub ownership: MovementOwnership,
}

/// The content of a [`DefaultBranchMovement`].
#[verifier::ext_equal]
pub struct DefaultBranchMovementView {
    pub oid: Seq<char>,
    pub timestamp: Seq<char>,
    pub actor: Option<Seq<char>>,
    pub source_pr: Option<PrNumber>,
    pub ownership: MovementOwnership,
}

impl DeepView for DefaultBranchMovement {
    type V = DefaultBranchMovementView;

    open spec fn deep_view(&self) -> DefaultBranchMovementView {
        DefaultBranchMovementView {
            oid: self.oid.deep_view(),
            timestamp: self.timestamp.deep_view(),
            actor: self.actor.deep_view(),
            source_pr: self.source_pr.deep_view(),
            ownership: self.ownership.deep_view(),
        }
    }
}

impl Clone for DefaultBranchMovement {
    fn clone(&self) -> (r: Self)
        ensures
            r.deep_view() == self.deep_view(),
    {
        self.dup()
    }
}

impl Model for DefaultBranchMovement {
    fn same(&self, other: &Self) -> (r: bool) {
        self.oid.same(&other.oid)
            && self.timestamp.same(&other.timestamp)
            && self.actor.same(&other.actor)
            && self.source_pr.same(&other.source_pr)
            && self.ownership.same(&other.ownership)
    }

    fn dup(&self) -> (r: Self) {
        DefaultBranchMovement {
            oid: self.oid.dup(),
            timestamp: self.timestamp.dup(),
            actor: self.actor.dup(),
            source_pr: self.source_pr.dup(),
            ownership: self.ownership.dup(),
        }
    }
}

/// The provider facts that a pull request body and head carry.
#[derive(Debug, PartialEq, Eq)]
pub struct PullRequestGenerationFact {
    pub pr: PrNumber,
    pub head_oid: CommitOid,
    pub head_ref: String,
    pub created_at: Option<String>,
    pub body: String,
}

/// The content of a [`PullRequestGenerationFact`].
#[verifier::ext_equal]
pub struct PullRequestGenerationFactView {
    pub pr: PrNumber,
    pub head_oid: Seq<char>,
    pub head_ref: Seq<char>,
    pub created_at: Option<Seq<char>>,
    pub body: Seq<char>,
}

impl DeepView for PullRequestGenerationFact {
    type V = PullRequestGenerationFactView;

    open spec fn deep_view(&self) -> PullRequestGenerationFactView {
        PullRequestGenerationFactView {
            pr: self.pr.deep_view(),
            head_oid: self.head_oid.deep_view(),
            head_ref: self.head_ref.deep_view(),
            created_at: self.created_at.deep_view(),
            body: self.body.deep_view(),
        }
    }
}

impl Clone for PullRequestGenerationFact {
    fn clone(&self) -> (r: Self)
        ensures
            r.deep_view() == self.deep_view(),
    {
        self.dup()
    }
}

impl Model for PullRequestGenerationFact {
    fn same(&self, other: &Self) -> (r: bool) {
        self.pr.same(&other.pr)
            && self.head_oid.same(&other.head_oid)
            && self.head_ref.same(&other.head_ref)
            && self.created_at.same(&other.created_at)
            && self.body.same(&other.body)
    }

    fn dup(&self) -> (r: Self) {
        PullRequestGenerationFact {
            pr: self.pr.dup(),
            head_oid: self.head_oid.dup(),
            head_ref: self.head_ref.dup(),
            created_at: self.created_at.dup(),
            body: self.body.dup(),
        }
    }
}

/// One bounded provider snapshot of a repository.
#[derive(Debug, PartialEq, Eq)]
pub struct RepositorySnapshot {
    pub repository: RepositoryId,
    pub default_branch: BranchSnapshot,
    pub merge_candidates: Vec<MergeCandidateIdentity>,
    pub merge_candidates_truncated: usize,
    pub previous_default_oid: Option<CommitOid>,
    pub default_branch_movements: Vec<DefaultBranchMovement>,
    pub current_branch: Option<String>,
    pub current_pr: Option<PrNumber>,
    pub pull_requests: Vec<PullRequestSnapshot>,
    pub generation_facts: Vec<PullRequestGenerationFact>,
    pub observed_at: Option<String>,
}

/// The content of a [`RepositorySnapshot`].
#[verifier::ext_equal]
pub struct RepositorySnapshotView {
    pub repository: RepositoryIdView,
    pub default_branch: BranchSnapshotView,
    pub merge_candidates: Seq<MergeCandidateIdentityView>,
    pub merge_candidates_truncated: usize,
    pub previous_default_oid: Option<Seq<char>>,
    pub default_branch_movements: Seq<DefaultBranchMovementView>,
    pub current_branch: Option<Seq<char>>,
    pub current_pr: Option<PrNumber>,
    pub pull_requests: Seq<PullRequestSnapshotView>,
    pub generation_facts: Seq<PullRequestGenerationFactView>,
    pub observed_at: Option<Seq<char>>,
}

impl DeepView for RepositorySnapshot {
    type V = RepositorySnapshotView;

    open spec fn deep_view(&self) -> RepositorySnapshotView {
        RepositorySnapshotView {
            repository: self.repository.deep_view(),
            default_branch: self.default_branch.deep_view(),
            merge_candidates: self.merge_candidates.deep_view(),
            merge_candidates_truncated: self.merge_candidates_truncated.deep_view(),
            previous_default_oid: self.previous_default_oid.deep_view(),
            default_branch_movements: self.default_branch_movements.deep_view(),
            current_branch: self.current_branch.deep_view(),
            current_pr: self.current_pr.deep_view(),
            pull_requests: self.pull_requests.deep_view(),
            generation_facts: self.generation_facts.deep_view(),
            observed_at: self.observed_at.deep_view(),
        }
    }
}

impl Clone for RepositorySnapshot {
    fn clone(&self) -> (r: Self)
        ensures
            r.deep_view() == self.deep_view(),
    {
        self.dup()
    }
}

impl Model for RepositorySnapshot {
    fn same(&self, other: &Self) -> (r: bool) {
        self.repository.same(&other.repository)
            && self.default_branch.same(&other.default_branch)
            && self.merge_candidates.same(&other.merge_candidates)
            && self.merge_candidates_truncated.same(&other.merge_candidates_truncated)
            && self.previous_default_oid.same(&other.previous_default_oid)
            && self.default_branch_movements.same(&other.default_branch_movements)
            && self.current_branch.same(&other.current_branch)
            && self.current_pr.same(&other.current_pr)
            && self.pull_requests.same(&other.pull_requests)
            && self.generation_facts.same(&other.generation_facts)
            && self.observed_at.same(&other.observed_at)
    }

    fn dup(&self) -> (r: Self) {
        RepositorySnapshot {
            repository: self.repository.dup(),
            default_branch: self.default_branch.dup(),
            merge_candidates: self.merge_candidates.dup(),
            merge_candidates_truncated: self.merge_candidates_truncated.dup(),
            previous_default_oid: self.previous_default_oid.dup(),
            default_branch_movements: self.default_branch_movements.dup(),
            current_branch: self.current_branch.dup(),
            current_pr: self.current_pr.dup(),
            pull_requests: self.pull_requests.dup(),
            generation_facts: self.generation_facts.dup(),
            observed_at: self.observed_at.dup(),
        }
    }
}

/// The identity of an operation.
#[derive(Debug, PartialEq, Eq, PartialOrd, Ord)]
pub struct OperationId(pub String);

impl Clone for OperationId {
    fn clone(&self) -> (r: Self)
        ensures
            r.deep_view() == self.deep_view(),
    {
        self.dup()
    }
}

impl DeepView for OperationId {
    type V = Seq<char>;

    open spec fn deep_view(&self) -> Seq<char> {
        self.0.deep_view()
    }
}

impl Model for OperationId {
    fn same(&self, other: &Self) -> (r: bool) {
        self.0.same(&other.0)
    }

    fn dup(&self) -> (r: Self) {
        OperationId(self.0.dup())
    }
}

/// What one completed operation reports.
#[derive(Debug, PartialEq, Eq)]
pub struct OperationReceipt {
    pub operation_id: OperationId,
    pub operation: String,
    pub completed_steps: Vec<String>,
    pub changed: bool,
}

/// The content of a [`OperationReceipt`].
#[verifier::ext_equal]
pub struct OperationReceiptView {
    pub operation_id: Seq<char>,
    pub operation: Seq<char>,
    pub completed_steps: Seq<Seq<char>>,
    pub changed: bool,
}

impl DeepView for OperationReceipt {
    type V = OperationReceiptView;

    open spec fn deep_view(&self) -> OperationReceiptView {
        OperationReceiptView {
            operation_id: self.operation_id.deep_view(),
            operation: self.operation.deep_view(),
            completed_steps: self.completed_steps.deep_view(),
            changed: self.changed.deep_view(),
        }
    }
}

impl Clone for OperationReceipt {
    fn clone(&self) -> (r: Self)
        ensures
            r.deep_view() == self.deep_view(),
    {
        self.dup()
    }
}

impl Model for OperationReceipt {
    fn same(&self, other: &Self) -> (r: bool) {
        self.operation_id.same(&other.operation_id)
            && self.operation.same(&other.operation)
            && self.completed_steps.same(&other.completed_steps)
            && self.changed.same(&other.changed)
    }

    fn dup(&self) -> (r: Self) {
        OperationReceipt {
            operation_id: self.operation_id.dup(),
            operation: self.operation.dup(),
            completed_steps: self.completed_steps.dup(),
            changed: self.changed.dup(),
        }
    }
}

impl GraphProblemKind {
    /// Problems of a pull request that no caravan has admitted.
    pub open spec fn candidate_scoped(self) -> bool {
        self == GraphProblemKind::CandidateIncompatible
    }

    /// Problems that gate the fleet. A dissolution already happened: no chain
    /// is left to protect.
    pub open spec fn gates_fleet(self) -> bool {
        !self.candidate_scoped() && self != GraphProblemKind::DissolvedMember
    }

    pub fn is_candidate_scoped(&self) -> (r: bool)
        ensures
            r == self.candidate_scoped(),
    {
        *self == GraphProblemKind::CandidateIncompatible
    }

    pub fn blocks_fleet(&self) -> (r: bool)
        ensures
            r == self.gates_fleet(),
    {
        !self.is_candidate_scoped() && *self != GraphProblemKind::DissolvedMember
    }
}

impl HeadMergeActor {
    /// Whether the provider merges the head.
    pub fn github(&self) -> (r: bool)
        ensures
            r == (*self == HeadMergeActor::Github),
    {
        *self == HeadMergeActor::Github
    }
}

/// The caravan of a list of members, if there is any.
pub open spec fn caravan_of(members: Seq<PrNumber>) -> Option<CaravanView> {
    if members.len() == 0 {
        None
    } else {
        Some(CaravanView { id: members[0], members, parked: false })
    }
}

impl Caravan {
    /// An unparked caravan headed by its first member.
    pub fn new(members: Vec<PrNumber>) -> (r: Option<Caravan>)
        ensures
            r.deep_view() == caravan_of(members.deep_view()),
    {
        if members.len() == 0 {
            None
        } else {
            let id = members[0];
            Some(Caravan { id, members, parked: false })
        }
    }

    pub fn head(&self) -> (r: Option<PrNumber>)
        ensures
            r == (if self.deep_view().members.len() == 0 {
                None
            } else {
                Some(self.deep_view().members[0])
            }),
    {
        if self.members.len() == 0 {
            None
        } else {
            Some(self.members[0])
        }
    }

    pub fn tail(&self) -> (r: Option<PrNumber>)
        ensures
            r == (if self.deep_view().members.len() == 0 {
                None
            } else {
                Some(self.deep_view().members.last())
            }),
    {
        if self.members.len() == 0 {
            None
        } else {
            Some(self.members[self.members.len() - 1])
        }
    }
}

/// The position of the first caravan that holds a pull request.
pub open spec fn containing_caravan(caravans: Seq<CaravanView>, pr: PrNumber) -> Option<int>
    decreases caravans.len(),
{
    if caravans.len() == 0 {
        None
    } else {
        match containing_caravan(caravans.drop_last(), pr) {
            Some(at) => Some(at),
            None => if caravans.last().members.contains(pr) {
                Some(caravans.len() - 1)
            } else {
                None
            },
        }
    }
}

impl CaravanFleet {
    /// The first caravan that holds a pull request.
    pub fn containing(&self, pr: PrNumber) -> (r: Option<&Caravan>)
        ensures
            match containing_caravan(self.deep_view().caravans, pr) {
                Some(at) => r is Some && 0 <= at < self.deep_view().caravans.len()
                    && r->0.deep_view() == self.deep_view().caravans[at],
                None => r is None,
            },
    {
        let ghost rows = self.caravans.deep_view();
        let mut i: usize = 0;
        while i < self.caravans.len()
            invariant
                rows == self.caravans.deep_view(),
                i <= self.caravans.len(),
                containing_caravan(rows.take(i as int), pr) is None,
            decreases self.caravans.len() - i,
        {
            assert(rows.take(i as int + 1).drop_last() =~= rows.take(i as int));
            if holds_item(&self.caravans[i].members, &pr) {
                proof {
                    lemma_containing_stays(rows, pr, i as int + 1);
                }
                return Some(&self.caravans[i]);
            }
            i = i + 1;
        }
        assert(rows.take(i as int) =~= rows);
        None
    }
}

proof fn lemma_containing_stays(rows: Seq<CaravanView>, pr: PrNumber, k: int)
    requires
        0 <= k <= rows.len(),
        containing_caravan(rows.take(k), pr) is Some,
    ensures
        containing_caravan(rows, pr) == containing_caravan(rows.take(k), pr),
    decreases rows.len() - k,
{
    if k < rows.len() {
        assert(rows.take(k + 1).drop_last() =~= rows.take(k));
        lemma_containing_stays(rows, pr, k + 1);
    } else {
        assert(rows.take(k) =~= rows);
    }
}

impl CaravanHistory {
    /// Whether the snapshot proves an earlier caravan.
    pub fn has_formed_before(&self) -> (r: bool)
        ensures
            r == (self.merged_members_observed > 0),
    {
        self.merged_members_observed > 0
    }

    /// Whether merged rows came back without the label they were asked for.
    pub fn evidence_may_be_stripped(&self) -> (r: bool)
        ensures
            r == (self.unlabelled_merged_rows > 0),
    {
        self.unlabelled_merged_rows > 0
    }
}

impl SquashEquivalenceReport {
    /// The boundary from which a replay is authorized, if one was proven.
    pub fn authorized_range_base(&self) -> (r: Option<CommitOid>)
        ensures
            r.deep_view() == (if self.deep_view().outcome == SquashEquivalenceOutcome::Reconcilable {
                self.deep_view().proven_boundary
            } else {
                None
            }),
    {
        if self.outcome == SquashEquivalenceOutcome::Reconcilable {
            self.proven_boundary.dup()
        } else {
            None
        }
    }
}

} // verus!
