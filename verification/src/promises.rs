//! What each operation promises to whoever calls it, told by what goes in and what comes
//! out.
//!
//! Each law speaks of functions by name: whatever calls of them may give, by their
//! contracts, is as the law says.

pub mod calls;
pub mod clients;
pub mod frames;
pub mod paths;
pub mod sessions;
pub mod terminal;
pub mod values;
pub mod websocket;

use vstd::prelude::*;
#[allow(unused_imports)]
use crate::json::JsonModel;

verus! {

/// Whether a value is an object that has this member.
pub open spec fn has(value: JsonModel, name: Seq<char>, member: JsonModel) -> bool {
    value matches JsonModel::Object(members) && members.contains_key(name) && members[name]
        == member
}

/// Whether a value has no member of this name.
pub open spec fn lacks(value: JsonModel, name: Seq<char>) -> bool {
    forall|member: JsonModel| !(#[trigger] has(value, name, member))
}

/// Whether a value has no text under this name.
pub open spec fn lacks_text(value: JsonModel, name: Seq<char>) -> bool {
    forall|text: Seq<char>| !(#[trigger] has(value, name, JsonModel::Text(text)))
}

} // verus!
