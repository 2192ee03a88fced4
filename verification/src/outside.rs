//! The text-producing calls into `serde_json` and `chrono` that the lobby makes.
use vstd::prelude::*;

verus! {

#[verifier::external_type_specification]
#[verifier::external_body]
pub struct ExJsonError(serde_json::Error);

/// The compact JSON text that `serde_json::to_string` writes for a list of strings.
pub uninterp spec fn json_text_array(items: Seq<Seq<char>>) -> Seq<char>;

/// Calls `serde_json::to_string` on a list of strings. The contract ties the
/// text to the name `json_text_array`, and claims success: a list of strings
/// serializes into an in-memory buffer, where the crate's source has no
/// failing path.
#[verifier::external_body]
pub(crate) fn json_of_names(names: &Vec<String>) -> (r: Result<String, serde_json::Error>)
    ensures
        r is Ok,
        r matches Ok(s) ==> s@ == json_text_array(crate::messages::texts(names@)),
{
    serde_json::to_string(names)
}

/// A time stamp in the form that `chrono` gives a UTC date and time: the
/// text ends with a space and `UTC`.
pub open spec fn is_utc_stamp(s: Seq<char>) -> bool {
    s.len() >= 4 && s.subrange(s.len() - 4, s.len() as int) == seq![' ', 'U', 'T', 'C']
}

/// Calls `chrono::Utc::now` and formats the instant with `to_string`. The
/// date and time depend on the clock; the contract claims only what every
/// outcome holds: `DateTime`'s `Display` writes the date and time, a space
/// and the offset, which `Utc` writes as `UTC`.
#[verifier::external_body]
pub(crate) fn utc_now_text() -> (s: String)
    ensures
        is_utc_stamp(s@),
{
    chrono::Utc::now().to_string()
}

/// The current UTC date and time as text: the time stamp of a chat line.
/// A contract that says a text is a result of this function (through
/// `call_ensures`) says that it was read from the clock.
pub fn clock_text() -> (s: String)
    ensures
        is_utc_stamp(s@),
{
    utc_now_text()
}

} // verus!
