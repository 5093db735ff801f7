//! Reading focus notifications out of frame payloads, and the tracker step
//! that goes from a payload to heartbeats.

use vstd::prelude::*;
use crate::tracker::{beats_match, focus_beats, opened, FocusTracker, Heartbeat, WindowEvent};

verus! {

/// serde_json::Value, a parsed JSON document, carried through opaque.
#[verifier::external_type_specification]
#[verifier::external_body]
pub struct ExJsonValue(serde_json::Value);

/// serde_json::Error, the reason a document did not parse, carried through
/// opaque.
#[verifier::external_type_specification]
#[verifier::external_body]
pub struct ExJsonError(serde_json::Error);

/// Whether serde_json's `from_slice` accepts `bytes` as one JSON value (it
/// also refuses nesting deeper than 128 and numbers out of range).
pub uninterp spec fn json_well_formed(bytes: Seq<u8>) -> bool;

/// The boolean that the JSON pointer `pointer` names in the document
/// `doc`; none if `doc` does not parse, the pointer names nothing, or what
/// it names is not a boolean.
pub uninterp spec fn json_bool_at(doc: Seq<u8>, pointer: Seq<char>) -> Option<bool>;

/// The string that the JSON pointer `pointer` names in the document `doc`,
/// escapes decoded; none if `doc` does not parse, the pointer names nothing,
/// or what it names is not a string.
pub uninterp spec fn json_str_at(doc: Seq<u8>, pointer: Seq<char>) -> Option<Seq<char>>;

/// Relies on serde_json::from_slice: it parses `bytes` as one JSON value,
/// and whether it succeeds depends on the bytes alone.
#[verifier::external_body]
fn parse_json(bytes: &[u8]) -> (r: Result<serde_json::Value, serde_json::Error>)
    ensures
        r is Ok <==> json_well_formed(bytes@),
{
    serde_json::from_slice(bytes)
}

/// Relies on serde_json::from_slice, Value::pointer and Value::as_bool: the
/// boolean at `pointer` in the document `doc`, which depends on the bytes
/// and the pointer alone.
#[verifier::external_body]
fn bool_at(doc: &[u8], pointer: &str) -> (r: Option<bool>)
    ensures
        r == json_bool_at(doc@, pointer@),
{
    let v: serde_json::Value = match serde_json::from_slice(doc) {
        Ok(v) => v,
        Err(_) => return None,
    };
    v.pointer(pointer).and_then(serde_json::Value::as_bool)
}

/// Relies on serde_json::from_slice, Value::pointer and Value::as_str: the
/// string at `pointer` in the document `doc`, which depends on the bytes
/// and the pointer alone.
#[verifier::external_body]
fn str_at(doc: &[u8], pointer: &str) -> (r: Option<String>)
    ensures
        r is Some <==> json_str_at(doc@, pointer@) is Some,
        r matches Some(s) ==> json_str_at(doc@, pointer@) == Some(s@),
{
    let v: serde_json::Value = match serde_json::from_slice(doc) {
        Ok(v) => v,
        Err(_) => return None,
    };
    v.pointer(pointer).and_then(serde_json::Value::as_str).map(str::to_owned)
}

/// Pointer to the flag that says whether the container holds focus.
pub open spec fn focused_pointer() -> Seq<char> {
    "/container/focused"@
}

/// Pointer to the application class of the container's window.
pub open spec fn class_pointer() -> Seq<char> {
    "/container/window_properties/class"@
}

/// Pointer to the title of the container.
pub open spec fn name_pointer() -> Seq<char> {
    "/container/name"@
}

/// The text if there is one, else the empty text.
pub open spec fn text_or_empty(t: Option<Seq<char>>) -> Seq<char> {
    match t {
        Some(s) => s,
        None => Seq::empty(),
    }
}

/// Whether the payload reports that a window took focus.
pub open spec fn reports_focus(payload: Seq<u8>) -> bool {
    json_bool_at(payload, focused_pointer()) == Some(true)
}

/// The application class that the payload names, empty if none.
pub open spec fn payload_class(payload: Seq<u8>) -> Seq<char> {
    text_or_empty(json_str_at(payload, class_pointer()))
}

/// The window title that the payload names, empty if none.
pub open spec fn payload_title(payload: Seq<u8>) -> Seq<char> {
    text_or_empty(json_str_at(payload, name_pointer()))
}

/// Why a payload could not be read.
#[derive(Debug, Clone, Copy, PartialEq, Eq, Structural)]
pub enum PayloadError {
    /// The payload is not a JSON document.
    Malformed,
}

fn text_at(doc: &[u8], pointer: &str) -> (r: String)
    ensures
        r@ == text_or_empty(json_str_at(doc@, pointer@)),
{
    match str_at(doc, pointer) {
        Some(s) => s,
        None => String::new(),
    }
}

/// Reads a focus notification: `container.focused` (focused only when it is
/// the boolean `true`), `container.window_properties.class` and
/// `container.name` (empty when they are not strings).
pub fn parse_window_event(payload: &[u8]) -> (r: Result<WindowEvent, PayloadError>)
    ensures
        r is Ok <==> json_well_formed(payload@),
        r is Err ==> r == Err::<WindowEvent, PayloadError>(PayloadError::Malformed),
        r matches Ok(e) ==> e.focused == reports_focus(payload@) && e.window_class@
            == payload_class(payload@) && e.window_title@ == payload_title(payload@),
{
    match parse_json(payload) {
        Ok(_) => {},
        Err(_) => {
            return Err(PayloadError::Malformed);
        },
    }
    let focused = match bool_at(payload, "/container/focused") {
        Some(b) => b,
        None => false,
    };
    let window_class = text_at(payload, "/container/window_properties/class");
    let window_title = text_at(payload, "/container/name");
    Ok(WindowEvent { focused, window_class, window_title })
}

/// A focus change to `app`/`title` at `now_ms` took the tracker from
/// `before` to `after` and gave `beats`.
pub open spec fn focus_step(
    before: Option<crate::tracker::IntervalView>,
    after: Option<crate::tracker::IntervalView>,
    beats: Seq<Heartbeat>,
    app: Seq<char>,
    title: Seq<char>,
    now_ms: int,
) -> bool {
    &&& beats_match(beats, focus_beats(before, app, title, now_ms))
    &&& after == Some(opened(app, title, now_ms))
}

impl FocusTracker {
    /// Handles one payload received at `now_ms`. A payload that is not JSON
    /// is an error and changes nothing. One that does not report a focus
    /// change gives nothing and changes nothing. Otherwise the step of
    /// [`FocusTracker::handle_event`] is taken on the payload's window.
    pub fn handle_payload(&mut self, payload: &[u8], now_ms: i64) -> (r: Result<
        Vec<Heartbeat>,
        PayloadError,
    >)
        ensures
            r is Ok <==> json_well_formed(payload@),
            r is Err ==> *final(self) == *old(self),
            r matches Ok(beats) ==> if reports_focus(payload@) {
                focus_step(
                    old(self).previous_view(),
                    final(self).previous_view(),
                    beats@,
                    payload_class(payload@),
                    payload_title(payload@),
                    now_ms as int,
                )
            } else {
                beats@.len() == 0 && *final(self) == *old(self)
            },
    {
        let event = match parse_window_event(payload) {
            Ok(e) => e,
            Err(e) => {
                return Err(e);
            },
        };
        let beats = self.handle_event(&event, now_ms);
        Ok(beats)
    }
}

} // verus!
