//! What the gateway reads out of the JSON documents that the backend sends
//! along with its frames: the text members of an object.

use serde_json::Value;
use vstd::prelude::*;

verus! {

#[verifier::external_type_specification]
#[verifier::external_body]
pub struct ExValue(serde_json::Value);

/// Whether the document is a JSON object.
pub uninterp spec fn is_object(v: serde_json::Value) -> bool;

/// The members of a JSON object by name: the text of a member that is a JSON
/// string, and `None` for a member of any other kind.
pub uninterp spec fn members(v: serde_json::Value) -> Map<Seq<char>, Option<Seq<char>>>;

/// `Value::is_object`: true for a JSON object and for nothing else.
#[verifier::external_body]
fn value_is_object(v: &Value) -> (r: bool)
    ensures
        r == is_object(*v),
{
    v.is_object()
}

/// `Value::get` with a name, then `Value::as_str` on what was found: the
/// outer `Option` says whether the document is an object with a member of
/// that name, the inner one whether that member is a JSON string, and the
/// string is its text.
#[verifier::external_body]
fn value_member(v: &Value, key: &str) -> (r: Option<Option<String>>)
    ensures
        r is Some <==> members(*v).contains_key(key@),
        r is Some ==> r->0.deep_view() == members(*v)[key@],
{
    v.get(key).map(|m| m.as_str().map(String::from))
}

/// Why a user name could not be read out of a document.
#[derive(Clone, Copy, Debug, PartialEq, Eq, Structural)]
pub enum UsernameError {
    /// There was no document.
    FieldsMissing,
    /// The document is not a JSON object.
    NotAnObject,
    /// The object has no member `username`.
    UsernameMissing,
    /// The member `username` is not a JSON string.
    NotAString,
}

/// The user name that a document holds, or what is wrong with the
/// document, given whether it is an object and what its member `username`
/// is.
pub open spec fn username_from(object: bool, member: Option<Option<Seq<char>>>) -> Result<
    Seq<char>,
    UsernameError,
> {
    if !object {
        Err(UsernameError::NotAnObject)
    } else {
        match member {
            None => Err(UsernameError::UsernameMissing),
            Some(None) => Err(UsernameError::NotAString),
            Some(Some(name)) => Ok(name),
        }
    }
}

/// The member `username` of a document, as far as the document has one.
pub open spec fn username_member(v: serde_json::Value) -> Option<Option<Seq<char>>> {
    if members(v).contains_key("username"@) {
        Some(members(v)["username"@])
    } else {
        None
    }
}

/// The user name that the fields of a frame hold, or what is wrong with them.
pub open spec fn username_in(fields: Option<serde_json::Value>) -> Result<
    Seq<char>,
    UsernameError,
> {
    match fields {
        None => Err(UsernameError::FieldsMissing),
        Some(v) => username_from(is_object(v), username_member(v)),
    }
}

/// The views of a result that holds a string.
pub open spec fn name_view(r: Result<String, UsernameError>) -> Result<Seq<char>, UsernameError> {
    match r {
        Ok(name) => Ok(name@),
        Err(e) => Err(e),
    }
}

/// Decides on a user name once it is known whether the document is an object
/// and what its member `username` is.
pub fn username_from_member(object: bool, member: Option<Option<String>>) -> (r: Result<
    String,
    UsernameError,
>)
    ensures
        name_view(r) == username_from(object, member.deep_view()),
{
    if !object {
        return Err(UsernameError::NotAnObject);
    }
    match member {
        None => Err(UsernameError::UsernameMissing),
        Some(None) => Err(UsernameError::NotAString),
        Some(Some(name)) => Ok(name),
    }
}

/// Reads the user name out of the fields that came with a frame.
pub fn username_of(fields: Option<&Value>) -> (r: Result<String, UsernameError>)
    ensures
        name_view(r) == username_in(
            match fields {
                Some(v) => Some(*v),
                None => None,
            },
        ),
{
    match fields {
        None => Err(UsernameError::FieldsMissing),
        Some(v) => {
            let object = value_is_object(v);
            let member = value_member(v, "username");
            username_from_member(object, member)
        },
    }
}

} // verus!
