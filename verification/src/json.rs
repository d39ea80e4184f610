//! The JSON bodies that hold nothing but strings.

use vstd::prelude::*;
use vstd::string::*;

verus! {

/// A member of a JSON object: its name and its string value.
pub type Member = (String, String);

/// The names and values of `members`.
pub open spec fn member_views(members: Seq<Member>) -> Seq<(Seq<char>, Seq<char>)> {
    members.map_values(|m: Member| (m.0@, m.1@))
}

/// The bytes that `serde_json::to_vec_pretty` writes for the JSON object with these string
/// members.
pub uninterp spec fn pretty_object(members: Seq<(Seq<char>, Seq<char>)>) -> Seq<u8>;

/// The error of `serde_json`.
#[verifier::external_type_specification]
#[verifier::external_body]
pub struct ExJsonError(serde_json::Error);

/// `serde_json::to_vec_pretty` on the object with these string members. It fails only where a
/// value's own serialization fails or a map has keys that are not strings, so it succeeds here;
/// the bytes it writes depend on the members alone and are given a name.
#[verifier::external_body]
fn to_vec_pretty(members: &Vec<Member>) -> (r: Result<Vec<u8>, serde_json::Error>)
    ensures
        r is Ok,
        r->Ok_0@ == pretty_object(member_views(members@)),
{
    let object: serde_json::Map<String, serde_json::Value> = members.iter().map(
        |m| (m.0.clone(), serde_json::Value::String(m.1.clone())),
    ).collect();
    serde_json::to_vec_pretty(&serde_json::Value::Object(object))
}

/// The body of an error response.
pub open spec fn error_body(message: Seq<char>) -> Seq<u8> {
    pretty_object(seq![("error"@, message)])
}

/// The body of the response to a deletion.
pub open spec fn deleted_body(id: Seq<char>) -> Seq<u8> {
    pretty_object(seq![("deleted"@, id)])
}

/// The body of the response to a health check.
pub open spec fn health_body(version: Seq<char>) -> Seq<u8> {
    pretty_object(
        seq![
            ("status"@, "healthy"@),
            ("component"@, "uptime-monitor"@),
            ("version"@, version),
        ],
    )
}

/// The bytes of the object with these string members; none where it cannot be serialized.
fn object_bytes(members: &Vec<Member>) -> (r: Vec<u8>)
    ensures
        r@ == pretty_object(member_views(members@)),
{
    match to_vec_pretty(members) {
        Ok(bytes) => bytes,
        Err(_) => Vec::new(),
    }
}

/// The body of an error response with this message.
pub fn error_json(message: &str) -> (r: Vec<u8>)
    ensures
        r@ == error_body(message@),
{
    let mut members: Vec<Member> = Vec::new();
    members.push(("error".to_owned(), message.to_owned()));
    assert(member_views(members@) =~= seq![("error"@, message@)]);
    object_bytes(&members)
}

/// The body of the response to the deletion of the device `id`.
pub fn deleted_json(id: &str) -> (r: Vec<u8>)
    ensures
        r@ == deleted_body(id@),
{
    let mut members: Vec<Member> = Vec::new();
    members.push(("deleted".to_owned(), id.to_owned()));
    assert(member_views(members@) =~= seq![("deleted"@, id@)]);
    object_bytes(&members)
}

/// The body of the response to a health check of this version.
pub fn health_json(version: &str) -> (r: Vec<u8>)
    ensures
        r@ == health_body(version@),
{
    let mut members: Vec<Member> = Vec::new();
    members.push(("status".to_owned(), "healthy".to_owned()));
    members.push(("component".to_owned(), "uptime-monitor".to_owned()));
    members.push(("version".to_owned(), version.to_owned()));
    assert(member_views(members@) =~= seq![
        ("status"@, "healthy"@),
        ("component"@, "uptime-monitor"@),
        ("version"@, version@),
    ]);
    object_bytes(&members)
}

/// In contracts members have the names and values that they have in code, one by one.
pub proof fn members_stand_for_their_texts(members: Seq<Member>)
    ensures
        member_views(members).len() == members.len(),
        forall|i: int|
            0 <= i < members.len() ==> {
                &&& (#[trigger] member_views(members)[i]).0 == members[i].0@
                &&& member_views(members)[i].1 == members[i].1@
            },
{
}

/// An error has its message as its only member, a deletion the id, and a health check tells the
/// status, the component and its version.
pub proof fn bodies_hold_their_members(
    message: Seq<char>,
    members: Seq<(Seq<char>, Seq<char>)>,
    health: Seq<(Seq<char>, Seq<char>)>,
)
    requires
        members.len() == 1,
        members[0].1 == message,
        health.len() == 3,
        health[0] == ("status"@, "healthy"@),
        health[1] == ("component"@, "uptime-monitor"@),
        health[2].0 == "version"@,
    ensures
        members[0].0 == "error"@ ==> error_body(message) == pretty_object(members),
        members[0].0 == "deleted"@ ==> deleted_body(message) == pretty_object(members),
        health_body(health[2].1) == pretty_object(health),
{
    assert(members =~= seq![(members[0].0, message)]);
    assert(health =~= seq![
        ("status"@, "healthy"@),
        ("component"@, "uptime-monitor"@),
        ("version"@, health[2].1),
    ]);
}

} // verus!
