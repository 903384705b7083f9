//! Reading text members out of a JSON document held as a
//! `serde_json::Value`.

use vstd::prelude::*;

verus! {

/// Declares `serde_json::Value`, a JSON document.
#[verifier::external_type_specification]
#[verifier::external_body]
pub struct ExValue(serde_json::Value);

/// Whether a document is a JSON object.
pub uninterp spec fn json_is_object(v: serde_json::Value) -> bool;

/// The members of a JSON object: its text where a member is text, `None`
/// where it is anything else. A document that is no object has no members.
pub uninterp spec fn json_members(v: serde_json::Value) -> Map<Seq<char>, Option<Seq<char>>>;

/// A member of a JSON object.
#[derive(Debug, PartialEq, Eq)]
pub enum JsonMember {
    /// Text.
    Text(String),
    /// Anything that is not text.
    Other,
}

impl JsonMember {
    /// The text of the member, if it is text.
    pub open spec fn view(&self) -> Option<Seq<char>> {
        match self {
            JsonMember::Text(t) => Some(t@),
            JsonMember::Other => None,
        }
    }
}

/// Calls `serde_json::Value::is_object`, which says whether the document is a
/// JSON object.
#[verifier::external_body]
pub(crate) fn value_is_object(v: &serde_json::Value) -> (yes: bool)
    ensures
        yes == json_is_object(*v),
{
    v.is_object()
}

/// Calls `serde_json::Value::get` with a text index, which gives the member
/// of that name, and none where there is no such member or the document is no
/// object. The member is handed out as its text, or as not being text.
#[verifier::external_body]
pub(crate) fn value_member(v: &serde_json::Value, name: &str) -> (member: Option<JsonMember>)
    ensures
        match member {
            Some(m) => json_members(*v).contains_key(name@) && json_members(*v)[name@] == m@,
            None => !json_members(*v).contains_key(name@),
        },
        !json_is_object(*v) ==> member is None,
{
    match v.get(name) {
        Some(serde_json::Value::String(t)) => Some(JsonMember::Text(t.clone())),
        Some(_) => Some(JsonMember::Other),
        None => None,
    }
}

/// The member `name` of a document's members: absent, text or something else.
pub open spec fn member_of(v: serde_json::Value, name: Seq<char>) -> Option<Option<Seq<char>>> {
    if json_members(v).contains_key(name) {
        Some(json_members(v)[name])
    } else {
        None
    }
}

/// A member as a contract sees it.
pub open spec fn member_view(m: Option<JsonMember>) -> Option<Option<Seq<char>>> {
    match m {
        Some(m) => Some(m@),
        None => None,
    }
}

/// A member is there exactly if the object has one of the name, and is what
/// the object has under it.
pub proof fn law_members_are_found_by_name(v: serde_json::Value, name: Seq<char>)
    ensures
        member_of(v, name) is Some <==> json_members(v).contains_key(name),
        json_members(v).contains_key(name) ==> member_of(v, name) == Some(json_members(v)[name]),
{
}

} // verus!
