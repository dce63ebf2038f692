//! JSON values: reading text into a tree, looking things up in it, building
//! one, and writing it as text. Parsing and writing are `serde_json`'s.

use vstd::prelude::*;
use vstd::string::*;
use crate::text::text_eq;

verus! {

/// The value type of `serde_json`.
#[verifier::external_type_specification]
#[verifier::external_body]
pub struct ExValue(serde_json::Value);

/// The tree of a JSON value.
pub enum Json {
    Null,
    Bool(bool),
    /// An integer of 64 bits, signed or unsigned.
    Number(int),
    /// Any other number, by its text.
    Real(Seq<char>),
    Text(Seq<char>),
    Array(Seq<Json>),
    /// Members in the order of their first insertion, each key once.
    Object(Seq<(Seq<char>, Json)>),
}

/// The tree that a `serde_json::Value` holds.
pub uninterp spec fn json_tree(value: serde_json::Value) -> Json;

/// What `serde_json::from_str` makes of a text: a tree, or its error message.
pub uninterp spec fn json_read(source: Seq<char>) -> Result<Json, Seq<char>>;

/// The compact text that `serde_json` writes for a tree.
pub uninterp spec fn json_text(tree: Json) -> Seq<char>;

/// The trees of values.
pub open spec fn json_trees(values: Seq<serde_json::Value>) -> Seq<Json> {
    Seq::new(values.len(), |i: int| json_tree(values[i]))
}

/// The value of the first member with a key.
pub open spec fn lookup(members: Seq<(Seq<char>, Json)>, key: Seq<char>) -> Option<Json>
    decreases members.len(),
{
    if members.len() == 0 {
        None
    } else if members[0].0 == key {
        Some(members[0].1)
    } else {
        lookup(members.drop_first(), key)
    }
}

impl Json {
    /// The member of an object.
    pub open spec fn field(self, key: Seq<char>) -> Option<Json> {
        match self {
            Json::Object(members) => lookup(members, key),
            _ => None,
        }
    }

    /// A member, where a missing one counts as null.
    pub open spec fn field_or_null(self, key: Seq<char>) -> Json {
        match self.field(key) {
            Some(value) => value,
            None => Json::Null,
        }
    }

    pub open spec fn is_object(self) -> bool {
        self is Object
    }

    /// A text.
    pub open spec fn text(self) -> Option<Seq<char>> {
        match self {
            Json::Text(s) => Some(s),
            _ => None,
        }
    }

    /// A truth value.
    pub open spec fn bool(self) -> Option<bool> {
        match self {
            Json::Bool(b) => Some(b),
            _ => None,
        }
    }

    /// An unsigned integer of 64 bits.
    pub open spec fn unsigned(self) -> Option<u64> {
        match self {
            Json::Number(n) => if 0 <= n <= u64::MAX {
                Some(n as u64)
            } else {
                None
            },
            _ => None,
        }
    }

    /// A signed integer of 64 bits.
    pub open spec fn signed(self) -> Option<i64> {
        match self {
            Json::Number(n) => if i64::MIN <= n <= i64::MAX {
                Some(n as i64)
            } else {
                None
            },
            _ => None,
        }
    }

    /// The keys of an object, in order; none of anything else.
    pub open spec fn keys(self) -> Seq<Seq<char>> {
        match self {
            Json::Object(members) => Seq::new(members.len(), |i: int| members[i].0),
            _ => Seq::empty(),
        }
    }

    /// The items of an array.
    pub open spec fn items(self) -> Option<Seq<Json>> {
        match self {
            Json::Array(items) => Some(items),
            _ => None,
        }
    }
}

// ---------------------------------------------------------------------------
// Reading
// ---------------------------------------------------------------------------

/// `serde_json::from_str` into a `Value`. Its outcome is named: a tree, or the
/// message of the error.
#[verifier::external_body]
pub(crate) fn parse(source: &str) -> (r: Result<serde_json::Value, String>)
    ensures
        match r {
            Ok(value) => json_read(source@) == Ok::<_, Seq<char>>(json_tree(value)),
            Err(message) => json_read(source@) == Err::<Json, _>(message@),
        },
{
    serde_json::from_str(source).map_err(|error: serde_json::Error| error.to_string())
}

/// `Value::get` with a string: the member of an object, nothing of anything
/// else.
#[verifier::external_body]
pub(crate) fn get<'a>(value: &'a serde_json::Value, key: &str) -> (r: Option<&'a serde_json::Value>)
    ensures
        match r {
            Some(member) => json_tree(*value).field(key@) == Some(json_tree(*member)),
            None => json_tree(*value).field(key@) is None,
        },
{
    value.get(key)
}

/// `Map::keys` of an object that `Value::as_object` gives: its keys in order.
/// Of anything else there are none.
#[verifier::external_body]
pub(crate) fn object_keys(value: &serde_json::Value) -> (r: Vec<String>)
    ensures
        r.deep_view() == json_tree(*value).keys(),
{
    match value.as_object() {
        Some(map) => map.keys().cloned().collect(),
        None => Vec::new(),
    }
}

/// `Value::as_str` gives the text of a string.
pub assume_specification[ serde_json::Value::as_str ](value: &serde_json::Value) -> (r: Option<
    &str,
>)
    ensures
        match r {
            Some(s) => json_tree(*value).text() == Some(s@),
            None => json_tree(*value).text() is None,
        },
;

/// `Value::as_bool` gives the truth value of a boolean.
pub assume_specification[ serde_json::Value::as_bool ](value: &serde_json::Value) -> (r: Option<
    bool,
>)
    ensures
        r == json_tree(*value).bool(),
;

/// `Value::as_u64` gives a number that is an unsigned integer of 64 bits.
pub assume_specification[ serde_json::Value::as_u64 ](value: &serde_json::Value) -> (r: Option<u64>)
    ensures
        r == json_tree(*value).unsigned(),
;

/// `Value::as_i64` gives a number that is a signed integer of 64 bits.
pub assume_specification[ serde_json::Value::as_i64 ](value: &serde_json::Value) -> (r: Option<i64>)
    ensures
        r == json_tree(*value).signed(),
;

/// `Value::as_array` gives the items of an array.
pub assume_specification[ serde_json::Value::as_array ](value: &serde_json::Value) -> (r: Option<
    &Vec<serde_json::Value>,
>)
    ensures
        match r {
            Some(items) => json_tree(*value).items() == Some(json_trees(items@)),
            None => json_tree(*value).items() is None,
        },
;

/// `Value::is_null` tells null from everything else.
pub assume_specification[ serde_json::Value::is_null ](value: &serde_json::Value) -> (r: bool)
    ensures
        r == (json_tree(*value) is Null),
;

/// `Value::is_object` tells an object from everything else.
pub assume_specification[ serde_json::Value::is_object ](value: &serde_json::Value) -> (r: bool)
    ensures
        r == json_tree(*value).is_object(),
;

/// A type that is read from a tree.
pub trait Decode: DeepView + Sized {
    /// The content that a tree gives, if it has the right shape.
    spec fn decoded(tree: Json) -> Option<Self::V>;

    fn decode(value: &serde_json::Value) -> (r: Option<Self>)
        ensures
            r.deep_view() == Self::decoded(json_tree(*value)),
    ;
}

impl Decode for String {
    open spec fn decoded(tree: Json) -> Option<Seq<char>> {
        tree.text()
    }

    fn decode(value: &serde_json::Value) -> (r: Option<Self>) {
        match value.as_str() {
            Some(s) => Some(s.to_owned()),
            None => None,
        }
    }
}

impl Decode for bool {
    open spec fn decoded(tree: Json) -> Option<bool> {
        tree.bool()
    }

    fn decode(value: &serde_json::Value) -> (r: Option<Self>) {
        value.as_bool()
    }
}

impl Decode for u64 {
    open spec fn decoded(tree: Json) -> Option<u64> {
        tree.unsigned()
    }

    fn decode(value: &serde_json::Value) -> (r: Option<Self>) {
        value.as_u64()
    }
}

impl Decode for i64 {
    open spec fn decoded(tree: Json) -> Option<i64> {
        tree.signed()
    }

    fn decode(value: &serde_json::Value) -> (r: Option<Self>) {
        value.as_i64()
    }
}

/// Null is no value.
impl<T: Decode> Decode for Option<T> {
    open spec fn decoded(tree: Json) -> Option<Option<T::V>> {
        if tree is Null {
            Some(None)
        } else {
            match T::decoded(tree) {
                Some(content) => Some(Some(content)),
                None => None,
            }
        }
    }

    fn decode(value: &serde_json::Value) -> (r: Option<Self>) {
        if value.is_null() {
            Some(None)
        } else {
            match T::decode(value) {
                Some(content) => Some(Some(content)),
                None => None,
            }
        }
    }
}

/// The contents of trees, if every one has the right shape.
pub open spec fn decoded_all<T: Decode>(trees: Seq<Json>) -> Option<Seq<T::V>>
    decreases trees.len(),
{
    if trees.len() == 0 {
        Some(Seq::empty())
    } else {
        match (decoded_all::<T>(trees.drop_last()), T::decoded(trees.last())) {
            (Some(before), Some(content)) => Some(before.push(content)),
            _ => None,
        }
    }
}

proof fn lemma_decoded_all_prefix<T: Decode>(trees: Seq<Json>, k: int)
    requires
        0 <= k <= trees.len(),
        decoded_all::<T>(trees.take(k)) is None,
    ensures
        decoded_all::<T>(trees) is None,
    decreases trees.len() - k,
{
    if k < trees.len() {
        assert(trees.take(k + 1).drop_last() =~= trees.take(k));
        lemma_decoded_all_prefix::<T>(trees, k + 1);
    } else {
        assert(trees.take(k) =~= trees);
    }
}

/// The contents of values, if every one has the right shape.
pub fn decode_all<T: Decode>(values: &Vec<serde_json::Value>) -> (r: Option<Vec<T>>)
    ensures
        r.deep_view() == decoded_all::<T>(json_trees(values@)),
{
    let ghost trees = json_trees(values@);
    let mut out: Vec<T> = Vec::new();
    assert(decoded_all::<T>(trees.take(0)) == Some(out.deep_view())) by {
        assert(out.deep_view() =~= Seq::<T::V>::empty());
    }
    let mut i: usize = 0;
    while i < values.len()
        invariant
            trees == json_trees(values@),
            i <= values.len(),
            decoded_all::<T>(trees.take(i as int)) == Some(out.deep_view()),
        decreases values.len() - i,
    {
        assert(trees.take(i as int + 1).drop_last() =~= trees.take(i as int));
        match T::decode(&values[i]) {
            Some(content) => {
                let ghost before = out.deep_view();
                let ghost item = content.deep_view();
                out.push(content);
                assert(out.deep_view() =~= before.push(item));
            },
            None => {
                proof {
                    lemma_decoded_all_prefix::<T>(trees, i as int + 1);
                }
                return None;
            },
        }
        i = i + 1;
    }
    assert(trees.take(i as int) =~= trees);
    Some(out)
}

impl<T: Decode> Decode for Vec<T> {
    open spec fn decoded(tree: Json) -> Option<Seq<T::V>> {
        match tree {
            Json::Array(items) => decoded_all::<T>(items),
            _ => None,
        }
    }

    fn decode(value: &serde_json::Value) -> (r: Option<Self>) {
        match value.as_array() {
            Some(items) => decode_all::<T>(items),
            None => None,
        }
    }
}

/// A member of an object; a missing one counts as null.
pub open spec fn member<T: Decode>(tree: Json, key: Seq<char>) -> Option<T::V> {
    T::decoded(tree.field_or_null(key))
}

/// A member of an object, or a default where it is missing.
pub open spec fn member_or<T: Decode>(tree: Json, key: Seq<char>, default: T::V) -> Option<T::V> {
    match tree.field(key) {
        Some(value) => T::decoded(value),
        None => Some(default),
    }
}

/// A list member of an object, empty where it is missing or null.
pub open spec fn list_member<T: Decode>(tree: Json, key: Seq<char>) -> Option<Seq<T::V>> {
    if tree.field_or_null(key) is Null {
        Some(Seq::empty())
    } else {
        <Vec<T> as Decode>::decoded(tree.field_or_null(key))
    }
}

/// A member of an object; a missing one counts as null.
pub fn read_member<T: Decode>(value: &serde_json::Value, key: &str) -> (r: Option<T>)
    ensures
        r.deep_view() == member::<T>(json_tree(*value), key@),
{
    match get(value, key) {
        Some(found) => T::decode(found),
        None => T::decode(&json_null()),
    }
}

/// A member of an object, or a default where it is missing.
pub fn read_member_or<T: Decode>(value: &serde_json::Value, key: &str, default: T) -> (r: Option<T>)
    ensures
        r.deep_view() == member_or::<T>(json_tree(*value), key@, default.deep_view()),
{
    match get(value, key) {
        Some(found) => T::decode(found),
        None => Some(default),
    }
}

/// A list member of an object, empty where it is missing or null.
pub fn read_list_member<T: Decode>(value: &serde_json::Value, key: &str) -> (r: Option<Vec<T>>)
    ensures
        r.deep_view() == list_member::<T>(json_tree(*value), key@),
{
    match get(value, key) {
        Some(found) => if found.is_null() {
            let none: Vec<T> = Vec::new();
            assert(none.deep_view() =~= Seq::<T::V>::empty());
            Some(none)
        } else {
            <Vec<T> as Decode>::decode(found)
        },
        None => {
            let none: Vec<T> = Vec::new();
            assert(none.deep_view() =~= Seq::<T::V>::empty());
            Some(none)
        },
    }
}

/// The members of an object under some of its keys, but for one key, if every
/// one has the right shape.
pub open spec fn members_under<T: Decode>(
    tree: Json,
    keys: Seq<Seq<char>>,
    known: Option<Seq<char>>,
) -> Option<Seq<(Seq<char>, T::V)>>
    decreases keys.len(),
{
    if keys.len() == 0 {
        Some(Seq::empty())
    } else {
        match members_under::<T>(tree, keys.drop_last(), known) {
            None => None,
            Some(list) => if known == Some(keys.last()) {
                Some(list)
            } else {
                match member::<T>(tree, keys.last()) {
                    Some(content) => Some(list.push((keys.last(), content))),
                    None => None,
                }
            },
        }
    }
}

/// All members of an object but for one key, if every one has the right shape.
pub open spec fn other_members<T: Decode>(tree: Json, known: Option<Seq<char>>) -> Option<
    Seq<(Seq<char>, T::V)>,
> {
    members_under::<T>(tree, tree.keys(), known)
}

proof fn lemma_members_under_prefix<T: Decode>(
    tree: Json,
    keys: Seq<Seq<char>>,
    known: Option<Seq<char>>,
    k: int,
)
    requires
        0 <= k <= keys.len(),
        members_under::<T>(tree, keys.take(k), known) is None,
    ensures
        members_under::<T>(tree, keys, known) is None,
    decreases keys.len() - k,
{
    if k < keys.len() {
        assert(keys.take(k + 1).drop_last() =~= keys.take(k));
        lemma_members_under_prefix::<T>(tree, keys, known, k + 1);
    } else {
        assert(keys.take(k) =~= keys);
    }
}

/// All members of an object but for one key, if every one has the right shape.
pub fn read_other_members<T: Decode>(value: &serde_json::Value, known: Option<&str>) -> (r: Option<
    Vec<(String, T)>,
>)
    ensures
        r.deep_view() == other_members::<T>(json_tree(*value), known.deep_view()),
{
    let keys = object_keys(value);
    let ghost tree = json_tree(*value);
    let ghost all = keys.deep_view();
    let ghost apart = known.deep_view();
    let mut out: Vec<(String, T)> = Vec::new();
    let mut i: usize = 0;
    assert(all.take(0) =~= Seq::<Seq<char>>::empty());
    assert(out.deep_view() =~= Seq::<(Seq<char>, T::V)>::empty());
    while i < keys.len()
        invariant
            tree == json_tree(*value),
            all == keys.deep_view(),
            all == tree.keys(),
            apart == known.deep_view(),
            i <= keys.len(),
            members_under::<T>(tree, all.take(i as int), apart) == Some(out.deep_view()),
        decreases keys.len() - i,
    {
        assert(all.take(i as int + 1).drop_last() =~= all.take(i as int));
        assert(all[i as int] == keys[i as int]@);
        let skipped = match known {
            Some(name) => text_eq(name, keys[i].as_str()),
            None => false,
        };
        if !skipped {
            match read_member::<T>(value, keys[i].as_str()) {
                Some(content) => {
                    let ghost before = out.deep_view();
                    let ghost row = (keys[i as int]@, content.deep_view());
                    let key = keys[i].as_str().to_owned();
                    out.push((key, content));
                    assert(out.deep_view() =~= before.push(row));
                },
                None => {
                    proof {
                        lemma_members_under_prefix::<T>(tree, all, apart, i as int + 1);
                    }
                    return None;
                },
            }
        }
        i = i + 1;
    }
    assert(all.take(i as int) =~= all);
    Some(out)
}

/// Every member of an object, by key and in order.
#[derive(Debug)]
pub struct Members<T> {
    pub list: Vec<(String, T)>,
}

impl<T: DeepView> DeepView for Members<T> {
    type V = Seq<(Seq<char>, T::V)>;

    open spec fn deep_view(&self) -> Seq<(Seq<char>, T::V)> {
        self.list.deep_view()
    }
}

impl<T: Decode> Decode for Members<T> {
    open spec fn decoded(tree: Json) -> Option<Seq<(Seq<char>, T::V)>> {
        if tree.is_object() {
            other_members::<T>(tree, None)
        } else {
            None
        }
    }

    fn decode(value: &serde_json::Value) -> (r: Option<Self>) {
        if value.is_object() {
            match read_other_members::<T>(value, None) {
                Some(list) => Some(Members { list }),
                None => None,
            }
        } else {
            None
        }
    }
}

// ---------------------------------------------------------------------------
// Building and writing
// ---------------------------------------------------------------------------

/// Members with one more: a key that is there keeps its place and gets the
/// new value.
pub open spec fn with_member(
    members: Seq<(Seq<char>, Json)>,
    key: Seq<char>,
    value: Json,
) -> Seq<(Seq<char>, Json)>
    decreases members.len(),
{
    if members.len() == 0 {
        seq![(key, value)]
    } else if members.last().0 == key {
        members.drop_last().push((key, value))
    } else {
        with_member(members.drop_last(), key, value).push(members.last())
    }
}

/// The members that inserting entries one after the other yields.
pub open spec fn members_of(entries: Seq<(Seq<char>, Json)>) -> Seq<(Seq<char>, Json)>
    decreases entries.len(),
{
    if entries.len() == 0 {
        Seq::empty()
    } else {
        let before = members_of(entries.drop_last());
        if exists|i: int| 0 <= i < before.len() && (#[trigger] before[i]).0 == entries.last().0 {
            with_member(before, entries.last().0, entries.last().1)
        } else {
            before.push(entries.last())
        }
    }
}

/// The entries of an object to be, by content.
pub open spec fn entry_trees(entries: Seq<(String, serde_json::Value)>) -> Seq<(Seq<char>, Json)> {
    Seq::new(entries.len(), |i: int| (entries[i].0@, json_tree(entries[i].1)))
}

/// An object from entries: `Map::from_iter` inserts them one after the other,
/// and keeps the order of first insertion.
#[verifier::external_body]
pub(crate) fn json_object(entries: Vec<(String, serde_json::Value)>) -> (r: serde_json::Value)
    ensures
        json_tree(r) == Json::Object(members_of(entry_trees(entries@))),
{
    serde_json::Value::Object(serde_json::Map::from_iter(entries))
}

/// A string, by the variant `Value::String`.
#[verifier::external_body]
pub(crate) fn json_string(s: &str) -> (r: serde_json::Value)
    ensures
        json_tree(r) == Json::Text(s@),
{
    serde_json::Value::String(s.to_owned())
}

/// A number, by `Value::from`.
#[verifier::external_body]
pub(crate) fn json_number(n: u64) -> (r: serde_json::Value)
    ensures
        json_tree(r) == Json::Number(n as int),
{
    serde_json::Value::from(n)
}

/// A truth value, by the variant `Value::Bool`.
#[verifier::external_body]
pub(crate) fn json_bool(b: bool) -> (r: serde_json::Value)
    ensures
        json_tree(r) == Json::Bool(b),
{
    serde_json::Value::Bool(b)
}

/// Null, by the variant `Value::Null`.
#[verifier::external_body]
pub(crate) fn json_null() -> (r: serde_json::Value)
    ensures
        json_tree(r) == Json::Null,
{
    serde_json::Value::Null
}

/// An array, by the variant `Value::Array`.
#[verifier::external_body]
pub(crate) fn json_array(items: Vec<serde_json::Value>) -> (r: serde_json::Value)
    ensures
        json_tree(r) == Json::Array(json_trees(items@)),
{
    serde_json::Value::Array(items)
}

/// The compact text of a value: the `Display` of `Value`. It is named after
/// the tree.
#[verifier::external_body]
pub(crate) fn compact_text(value: &serde_json::Value) -> (r: String)
    ensures
        r@ == json_text(json_tree(*value)),
{
    value.to_string()
}

/// A type whose content has a JSON form.
pub trait JsonForm: DeepView {
    /// The tree of a content.
    spec fn form(content: Self::V) -> Json;

    fn to_json(&self) -> (r: serde_json::Value)
        ensures
            json_tree(r) == Self::form(self.deep_view()),
    ;
}

impl JsonForm for String {
    open spec fn form(content: Seq<char>) -> Json {
        Json::Text(content)
    }

    fn to_json(&self) -> (r: serde_json::Value) {
        json_string(self.as_str())
    }
}

impl JsonForm for bool {
    open spec fn form(content: bool) -> Json {
        Json::Bool(content)
    }

    fn to_json(&self) -> (r: serde_json::Value) {
        json_bool(*self)
    }
}

impl JsonForm for u64 {
    open spec fn form(content: u64) -> Json {
        Json::Number(content as int)
    }

    fn to_json(&self) -> (r: serde_json::Value) {
        json_number(*self)
    }
}

impl JsonForm for u32 {
    open spec fn form(content: u32) -> Json {
        Json::Number(content as int)
    }

    fn to_json(&self) -> (r: serde_json::Value) {
        json_number(*self as u64)
    }
}

impl JsonForm for usize {
    open spec fn form(content: usize) -> Json {
        Json::Number(content as int)
    }

    fn to_json(&self) -> (r: serde_json::Value) {
        json_number(*self as u64)
    }
}

impl<T: JsonForm> JsonForm for Option<T> {
    open spec fn form(content: Option<T::V>) -> Json {
        match content {
            Some(value) => T::form(value),
            None => Json::Null,
        }
    }

    fn to_json(&self) -> (r: serde_json::Value) {
        match self {
            Some(value) => value.to_json(),
            None => json_null(),
        }
    }
}

impl<T: JsonForm> JsonForm for Box<T> {
    open spec fn form(content: T::V) -> Json {
        T::form(content)
    }

    fn to_json(&self) -> (r: serde_json::Value) {
        (**self).to_json()
    }
}

impl<T: JsonForm> JsonForm for Vec<T> {
    open spec fn form(content: Seq<T::V>) -> Json {
        Json::Array(Seq::new(content.len(), |i: int| T::form(content[i])))
    }

    fn to_json(&self) -> (r: serde_json::Value) {
        let mut items: Vec<serde_json::Value> = Vec::new();
        let mut i: usize = 0;
        while i < self.len()
            invariant
                i <= self.len(),
                items.len() == i,
                forall|j: int|
                    0 <= j < i ==> json_tree(#[trigger] items[j]) == T::form(self[j].deep_view()),
            decreases self.len() - i,
        {
            items.push(self[i].to_json());
            i = i + 1;
        }
        assert(json_trees(items@) =~= Seq::new(
            self.deep_view().len(),
            |j: int| T::form(self.deep_view()[j]),
        ));
        json_array(items)
    }
}

/// Entries with one more.
pub open spec fn entry(
    entries: Seq<(Seq<char>, Json)>,
    key: Seq<char>,
    value: Json,
) -> Seq<(Seq<char>, Json)> {
    entries.push((key, value))
}

/// Entries with one more, unless it is null.
pub open spec fn entry_unless_null(
    entries: Seq<(Seq<char>, Json)>,
    key: Seq<char>,
    value: Json,
) -> Seq<(Seq<char>, Json)> {
    if value is Null {
        entries
    } else {
        entries.push((key, value))
    }
}

/// No entries.
pub open spec fn no_entries() -> Seq<(Seq<char>, Json)> {
    Seq::empty()
}

/// The object of entries.
pub open spec fn object_of(entries: Seq<(Seq<char>, Json)>) -> Json {
    Json::Object(members_of(entries))
}

/// Entries under construction.
pub struct Entries {
    list: Vec<(String, serde_json::Value)>,
}

impl View for Entries {
    type V = Seq<(Seq<char>, Json)>;

    closed spec fn view(&self) -> Seq<(Seq<char>, Json)> {
        entry_trees(self.list@)
    }
}

impl Entries {
    pub fn new() -> (r: Self)
        ensures
            r@ == no_entries(),
    {
        let list: Vec<(String, serde_json::Value)> = Vec::new();
        assert(entry_trees(list@) =~= no_entries());
        Entries { list }
    }

    /// One more entry.
    pub fn with(self, key: &str, value: serde_json::Value) -> (r: Self)
        ensures
            r@ == entry(self@, key@, json_tree(value)),
    {
        let mut list = self.list;
        list.push((key.to_owned(), value));
        assert(entry_trees(list@) =~= entry(self@, key@, json_tree(value)));
        Entries { list }
    }

    /// One more entry, unless it is null.
    pub fn with_unless_null(self, key: &str, value: serde_json::Value) -> (r: Self)
        ensures
            r@ == entry_unless_null(self@, key@, json_tree(value)),
    {
        if value.is_null() {
            self
        } else {
            self.with(key, value)
        }
    }

    /// The object.
    pub fn object(self) -> (r: serde_json::Value)
        ensures
            json_tree(r) == object_of(self@),
    {
        json_object(self.list)
    }
}

} // verus!
