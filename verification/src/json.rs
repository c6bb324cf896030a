//! Reading one string out of a JSON document.
//!
//! Parsing and the document tree are `serde_json`'s. The library walks the
//! tree step by step and proves that it arrives at the string that the
//! document holds at the path it was asked for.

use vstd::prelude::*;

verus! {

/// One step into a JSON document.
pub ghost enum JsonStep {
    /// Into the member of an object with this key.
    Key(Seq<char>),
    /// Into the element of an array at this position.
    Index(int),
}

/// `serde_json::Value`, a parsed JSON document. The proofs see nothing of
/// its inside; they know it by [`json_text_at`] alone.
#[verifier::external_type_specification]
#[verifier::external_body]
pub struct ExJsonValue(serde_json::Value);

/// The string that the document `doc` holds at `path`: what is reached by
/// taking the steps of `path` in turn, each with `serde_json::Value::get`, if
/// every step exists and the value reached is a JSON string.
pub uninterp spec fn json_text_at(doc: serde_json::Value, path: Seq<JsonStep>) -> Option<Seq<char>>;

/// The string that the JSON text `body` holds at `path`, if
/// `serde_json::from_str` reads `body` as a document and the document has a
/// string there.
pub uninterp spec fn json_text_in(body: Seq<char>, path: Seq<JsonStep>) -> Option<Seq<char>>;

/// Parses a JSON text with `serde_json::from_str`.
///
/// A text that is no JSON document holds no string anywhere; of a document,
/// the strings in the text are those of the parsed tree.
#[verifier::external_body]
fn json_parse(body: &str) -> (parsed: Option<serde_json::Value>)
    ensures
        parsed matches Some(doc) ==> forall|path: Seq<JsonStep>|
            json_text_at(doc, path) == #[trigger] json_text_in(body@, path),
        parsed is None ==> forall|path: Seq<JsonStep>| (#[trigger] json_text_in(body@, path)) is None,
{
    serde_json::from_str::<serde_json::Value>(body).ok()
}

/// Looks up a member of an object with `serde_json::Value::get`.
///
/// The strings below the member are the strings of the document at the paths
/// that begin with its key. Where `get` finds nothing (no object, or no such
/// key) the document holds no string at any such path.
#[verifier::external_body]
fn json_member<'a>(doc: &'a serde_json::Value, key: &str) -> (member: Option<&'a serde_json::Value>)
    ensures
        member matches Some(inner) ==> forall|path: Seq<JsonStep>|
            path.len() > 0 && path[0] == JsonStep::Key(key@) ==> #[trigger] json_text_at(*doc, path)
                == json_text_at(*inner, path.drop_first()),
        member is None ==> forall|path: Seq<JsonStep>|
            path.len() > 0 && path[0] == JsonStep::Key(key@) ==> (#[trigger] json_text_at(
                *doc,
                path,
            )) is None,
{
    doc.get(key)
}

/// Looks up an element of an array with `serde_json::Value::get`.
///
/// The strings below the element are the strings of the document at the
/// paths that begin with its position. Where `get` finds nothing (no array,
/// or too short a one) the document holds no string at any such path.
#[verifier::external_body]
fn json_element<'a>(doc: &'a serde_json::Value, position: usize) -> (element: Option<
    &'a serde_json::Value,
>)
    ensures
        element matches Some(inner) ==> forall|path: Seq<JsonStep>|
            path.len() > 0 && path[0] == JsonStep::Index(position as int) ==> #[trigger] json_text_at(
                *doc,
                path,
            ) == json_text_at(*inner, path.drop_first()),
        element is None ==> forall|path: Seq<JsonStep>|
            path.len() > 0 && path[0] == JsonStep::Index(position as int) ==> (
            #[trigger] json_text_at(*doc, path)) is None,
{
    doc.get(position)
}

/// Reads a JSON string with `serde_json::Value::as_str`.
///
/// The result is the string that the document holds at the empty path: the
/// document itself, if it is a string.
#[verifier::external_body]
fn json_string(doc: &serde_json::Value) -> (text: Option<String>)
    ensures
        text matches Some(t) ==> json_text_at(*doc, Seq::<JsonStep>::empty()) == Some(t@),
        text is None ==> json_text_at(*doc, Seq::<JsonStep>::empty()) is None,
{
    doc.as_str().map(|s| s.to_string())
}

/// Where the service puts the text of its first candidate:
/// `candidates[0].content.parts[0].text`.
pub open spec fn candidate_path() -> Seq<JsonStep> {
    seq![
        JsonStep::Key("candidates"@),
        JsonStep::Index(0),
        JsonStep::Key("content"@),
        JsonStep::Key("parts"@),
        JsonStep::Index(0),
        JsonStep::Key("text"@),
    ]
}

/// The part of the candidate path that is still to go after `done` steps.
spec fn path_rest(done: int) -> Seq<JsonStep> {
    candidate_path().subrange(done, 6)
}

/// Each step shortens what is still to go by its first step.
proof fn lemma_path_rest(done: int)
    requires
        0 <= done < 6,
    ensures
        path_rest(done).len() > 0,
        path_rest(done)[0] == candidate_path()[done],
        path_rest(done).drop_first() == path_rest(done + 1),
        path_rest(0) == candidate_path(),
        path_rest(6) == Seq::<JsonStep>::empty(),
{
    assert(path_rest(done).drop_first() =~= path_rest(done + 1));
    assert(path_rest(0) =~= candidate_path());
    assert(path_rest(6) =~= Seq::<JsonStep>::empty());
}

/// Extracts the text of the first candidate from the body of an answer.
///
/// The result is the string that the body holds at [`candidate_path`];
/// `None` if the body is no JSON document or has no string there.
pub fn candidate_text(body: &str) -> (text: Option<String>)
    ensures
        text matches Some(t) ==> json_text_in(body@, candidate_path()) == Some(t@),
        text is None ==> json_text_in(body@, candidate_path()) is None,
{
    proof {
        lemma_path_rest(0);
        lemma_path_rest(1);
        lemma_path_rest(2);
        lemma_path_rest(3);
        lemma_path_rest(4);
        lemma_path_rest(5);
    }
    let doc = match json_parse(body) {
        Some(doc) => doc,
        None => { return None; },
    };
    assert(json_text_in(body@, candidate_path()) == json_text_at(doc, path_rest(0)));
    let candidates = match json_member(&doc, "candidates") {
        Some(inner) => inner,
        None => { return None; },
    };
    assert(json_text_at(doc, path_rest(0)) == json_text_at(*candidates, path_rest(1)));
    let first = match json_element(candidates, 0) {
        Some(inner) => inner,
        None => { return None; },
    };
    assert(json_text_at(*candidates, path_rest(1)) == json_text_at(*first, path_rest(2)));
    let content = match json_member(first, "content") {
        Some(inner) => inner,
        None => { return None; },
    };
    assert(json_text_at(*first, path_rest(2)) == json_text_at(*content, path_rest(3)));
    let parts = match json_member(content, "parts") {
        Some(inner) => inner,
        None => { return None; },
    };
    assert(json_text_at(*content, path_rest(3)) == json_text_at(*parts, path_rest(4)));
    let part = match json_element(parts, 0) {
        Some(inner) => inner,
        None => { return None; },
    };
    assert(json_text_at(*parts, path_rest(4)) == json_text_at(*part, path_rest(5)));
    let leaf = match json_member(part, "text") {
        Some(inner) => inner,
        None => { return None; },
    };
    assert(json_text_at(*part, path_rest(5)) == json_text_at(*leaf, path_rest(6)));
    json_string(leaf)
}

} // verus!
