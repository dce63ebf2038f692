//! JSON forms of evidence, and the hash that seals it.

use vstd::prelude::*;
use vstd::string::*;
use vstd::utf8;
use crate::json;
use crate::json::{compact_text, json_number, json_string, Entries, Json, JsonForm};
use crate::model::{
    BranchSnapshot, BranchSnapshotView, CommitOid, PrNumber, PullRequestState, RepositoryId,
    RepositoryIdView,
};
use crate::text;
use crate::text::fnv1a64;

verus! {

/// The hash of a tree: of the bytes of its compact text.
pub open spec fn tree_hash(tree: Json) -> Seq<char> {
    text::fnv_text(utf8::encode_utf8(json::json_text(tree)))
}

/// The hash of a value.
pub fn hash_of(value: &serde_json::Value) -> (r: String)
    ensures
        r@ == tree_hash(json::json_tree(*value)),
{
    let written = compact_text(value);
    fnv1a64(written.as_str().as_bytes())
}

impl JsonForm for PrNumber {
    open spec fn form(content: PrNumber) -> Json {
        Json::Number(content.0 as int)
    }

    fn to_json(&self) -> (r: serde_json::Value) {
        json_number(self.0)
    }
}

impl JsonForm for CommitOid {
    open spec fn form(content: Seq<char>) -> Json {
        Json::Text(content)
    }

    fn to_json(&self) -> (r: serde_json::Value) {
        json_string(self.0.as_str())
    }
}

impl JsonForm for PullRequestState {
    open spec fn form(content: PullRequestState) -> Json {
        match content {
            PullRequestState::Open => Json::Text("open"@),
            PullRequestState::Closed => Json::Text("closed"@),
            PullRequestState::Merged => Json::Text("merged"@),
        }
    }

    fn to_json(&self) -> (r: serde_json::Value) {
        match self {
            PullRequestState::Open => json_string("open"),
            PullRequestState::Closed => json_string("closed"),
            PullRequestState::Merged => json_string("merged"),
        }
    }
}

impl JsonForm for RepositoryId {
    open spec fn form(content: RepositoryIdView) -> Json {
        let e = json::no_entries();
        let e = json::entry(e, "owner"@, <String as JsonForm>::form(content.owner));
        let e = json::entry(e, "name"@, <String as JsonForm>::form(content.name));
        json::object_of(e)
    }

    fn to_json(&self) -> (r: serde_json::Value) {
        Entries::new()
            .with("owner", self.owner.to_json())
            .with("name", self.name.to_json())
            .object()
    }
}

impl JsonForm for BranchSnapshot {
    open spec fn form(content: BranchSnapshotView) -> Json {
        let e = json::no_entries();
        let e = json::entry(e, "repository"@, <RepositoryId as JsonForm>::form(content.repository));
        let e = json::entry(e, "name"@, <String as JsonForm>::form(content.name));
        let e = json::entry(e, "oid"@, <CommitOid as JsonForm>::form(content.oid));
        json::object_of(e)
    }

    fn to_json(&self) -> (r: serde_json::Value) {
        Entries::new()
            .with("repository", self.repository.to_json())
            .with("name", self.name.to_json())
            .with("oid", self.oid.to_json())
            .object()
    }
}

} // verus!
