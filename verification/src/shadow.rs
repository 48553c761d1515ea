//! Shadow documents: the JSON text that the shadow service sends, the two
//! places in it where a state is looked for, and the text that is reported
//! back.

use vstd::prelude::*;
use vstd::string::*;
use vstd::utf8::{decode_utf8, valid_utf8};

verus! {

#[verifier::external_type_specification]
#[verifier::external_body]
pub struct ExValue(serde_json::Value);

/// The strings of a JSON document, each under the path of object keys that
/// leads to it.
pub type Strings = Map<Seq<Seq<char>>, Seq<char>>;

/// The strings that a JSON document holds, each under the path of object
/// keys that leads to it from the root. A document that is itself a string
/// holds it under the empty path; numbers, booleans, nulls and whatever lies
/// inside an array are not part of it.
pub uninterp spec fn json_strings(doc: serde_json::Value) -> Map<Seq<Seq<char>>, Seq<char>>;

/// The strings of the document that `serde_json` reads from `text`, or
/// nothing where `text` is not one JSON value.
pub uninterp spec fn json_document(text: Seq<char>) -> Option<Map<Seq<Seq<char>>, Seq<char>>>;

/// The strings found below the member `key` of a document that holds
/// `strings`.
pub open spec fn member_strings(strings: Strings, key: Seq<char>) -> Strings {
    Map::new(
        |path: Seq<Seq<char>>| strings.contains_key(seq![key] + path),
        |path: Seq<Seq<char>>| strings[seq![key] + path],
    )
}

/// The string that stands under `path`, if there is one.
pub open spec fn string_at(strings: Strings, path: Seq<Seq<char>>) -> Option<Seq<char>> {
    if strings.contains_key(path) {
        Some(strings[path])
    } else {
        None
    }
}

/// Where the answer to a request holds the desired state.
pub open spec fn desired_path() -> Seq<Seq<char>> {
    seq!["state"@, "desired"@, "state"@]
}

/// Where a delta holds the desired state.
pub open spec fn delta_path() -> Seq<Seq<char>> {
    seq!["state"@, "state"@]
}

/// The strings of the document that a payload encodes, or nothing where the
/// payload is not UTF-8 or its text not one JSON value.
pub open spec fn payload_strings(payload: Seq<u8>) -> Option<Strings> {
    if valid_utf8(payload) {
        json_document(decode_utf8(payload))
    } else {
        None
    }
}

/// Whether a state given as text means on: only `ON` does.
pub open spec fn is_on(state: Seq<char>) -> bool {
    state == "ON"@
}

/// The document that reports `state`.
pub open spec fn reported_document(state: bool) -> Seq<char> {
    if state {
        "{\"state\":{\"reported\":{\"state\":\"ON\"}}}"@
    } else {
        "{\"state\":{\"reported\":{\"state\":\"OFF\"}}}"@
    }
}

/// The document that asks for the current shadow.
pub open spec fn empty_document() -> Seq<char> {
    "{}"@
}

/// `String::from_utf8` on a copy of `bytes`: the text that the bytes encode,
/// if they are UTF-8.
#[verifier::external_body]
fn utf8_text(bytes: &Vec<u8>) -> (text: Option<String>)
    ensures
        text is Some <==> valid_utf8(bytes@),
        text is Some ==> text->0@ == decode_utf8(bytes@),
{
    String::from_utf8(bytes.clone()).ok()
}

/// `serde_json::from_str` for a `serde_json::Value`: the document read from
/// `text`, if `text` is one JSON value. What it reads is a function of the
/// text alone, named `json_document`.
#[verifier::external_body]
fn parse_json(text: &str) -> (doc: Option<serde_json::Value>)
    ensures
        match doc {
            Some(d) => json_document(text@) == Some(json_strings(d)),
            None => json_document(text@) is None,
        },
{
    serde_json::from_str(text).ok()
}

/// `serde_json`'s indexing of a value by a string: the member of that name
/// if `doc` is an object that has one, and a null otherwise. The strings of
/// the result are those that `doc` holds below `key`.
#[verifier::external_body]
fn json_member<'a>(doc: &'a serde_json::Value, key: &str) -> (member: &'a serde_json::Value)
    ensures
        json_strings(*member) == member_strings(json_strings(*doc), key@),
{
    &doc[key]
}

/// `serde_json::Value::as_str`: the text of `doc` if it is a JSON string,
/// which is the string it holds under the empty path.
#[verifier::external_body]
fn json_text(doc: &serde_json::Value) -> (text: Option<String>)
    ensures
        match text {
            Some(t) => string_at(json_strings(*doc), Seq::empty()) == Some(t@),
            None => string_at(json_strings(*doc), Seq::empty()) is None,
        },
{
    doc.as_str().map(String::from)
}

/// Reads a payload as a JSON document. A payload that is not UTF-8, or whose
/// text is not one JSON value, gives nothing.
pub fn decode_payload(payload: &Vec<u8>) -> (doc: Option<serde_json::Value>)
    ensures
        match doc {
            Some(d) => payload_strings(payload@) == Some(json_strings(d)),
            None => payload_strings(payload@) is None,
        },
{
    match utf8_text(payload) {
        Some(text) => parse_json(text.as_str()),
        None => None,
    }
}

/// The desired state in the answer to a request: the string at
/// `state.desired.state`. A document of any other shape gives nothing.
pub fn desired_state(shadow: &serde_json::Value) -> (state: Option<String>)
    ensures
        match state {
            Some(s) => string_at(json_strings(*shadow), desired_path()) == Some(s@),
            None => string_at(json_strings(*shadow), desired_path()) is None,
        },
{
    let outer = json_member(shadow, "state");
    let desired = json_member(outer, "desired");
    let inner = json_member(desired, "state");
    proof {
        let empty = Seq::<Seq<char>>::empty();
        assert(seq!["state"@] + empty =~= seq!["state"@]);
        assert(seq!["desired"@] + seq!["state"@] =~= seq!["desired"@, "state"@]);
        assert(seq!["state"@] + seq!["desired"@, "state"@] =~= desired_path());
    }
    json_text(inner)
}

/// The desired state in a delta: the string at `state.state`. A document of
/// any other shape gives nothing.
pub fn delta_state(shadow: &serde_json::Value) -> (state: Option<String>)
    ensures
        match state {
            Some(s) => string_at(json_strings(*shadow), delta_path()) == Some(s@),
            None => string_at(json_strings(*shadow), delta_path()) is None,
        },
{
    let outer = json_member(shadow, "state");
    let inner = json_member(outer, "state");
    proof {
        let empty = Seq::<Seq<char>>::empty();
        assert(seq!["state"@] + empty =~= seq!["state"@]);
        assert(seq!["state"@] + seq!["state"@] =~= delta_path());
    }
    json_text(inner)
}

/// Whether a state given as text means on.
pub fn state_is_on(state: &String) -> (on: bool)
    ensures
        on == is_on(state@),
{
    let on = String::from_str("ON");
    *state == on
}

/// The document that reports `state`.
pub fn reported_payload(state: bool) -> (payload: String)
    ensures
        payload@ == reported_document(state),
{
    if state {
        String::from_str("{\"state\":{\"reported\":{\"state\":\"ON\"}}}")
    } else {
        String::from_str("{\"state\":{\"reported\":{\"state\":\"OFF\"}}}")
    }
}

/// The document that asks for the current shadow.
pub fn empty_payload() -> (payload: String)
    ensures
        payload@ == empty_document(),
{
    String::from_str("{}")
}

} // verus!
