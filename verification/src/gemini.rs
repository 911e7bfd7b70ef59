use vstd::prelude::*;

use serde_json::Error as JsonError;
use tokio_tungstenite::tungstenite::Error as WebSocketError;

use crate::text::{chars_of, push_chars, string_from_chars};
use crate::tools::ToolRequest;
use crate::voice::{AudioChunk, ToolCall, VoiceEvent, VoiceState};

verus! {

// ---------------------------------------------------------------------------
// Errors
// ---------------------------------------------------------------------------

#[verifier::external_type_specification]
#[verifier::external_body]
pub struct ExWebSocketError(WebSocketError);

#[verifier::external_type_specification]
#[verifier::external_body]
pub struct ExJsonError(JsonError);

#[verifier::external_type_specification]
#[verifier::external_body]
pub struct ExUrlParseError(url::ParseError);

/// Why a Gemini Live session failed.
#[derive(Debug)]
pub enum GeminiError {
    MissingApiKey,
    WebSocket(WebSocketError),
    Json(JsonError),
    ConnectionClosed,
    UnexpectedResponse(String),
    InvalidUrl(url::ParseError),
    ChannelClosed,
}

// ---------------------------------------------------------------------------
// JSON values
// ---------------------------------------------------------------------------

/// The shape of a JSON value.
#[derive(Debug)]
pub enum JsonKind {
    Null,
    Bool(bool),
    Number,
    Str(String),
    Array(Vec<JsonValue>),
    Object(Vec<(String, JsonValue)>),
}

/// A JSON value as a server message holds it, together with its compact
/// JSON text (what `serde_json::Value::to_string` gives for it).
#[derive(Debug)]
pub struct JsonValue {
    pub kind: JsonKind,
    pub text: String,
}

/// The value of the first member named `key` among `members`.
pub open spec fn member_spec(members: Seq<(String, JsonValue)>, key: Seq<char>) -> Option<
    JsonValue,
>
    decreases members.len(),
{
    if members.len() == 0 {
        None
    } else if members[0].0@ == key {
        Some(members[0].1)
    } else {
        member_spec(members.drop_first(), key)
    }
}

/// `v[key]` for an object `v` (`serde_json::Value::get`); `None` for a
/// missing member or a value that is not an object.
pub open spec fn get_spec(v: JsonValue, key: Seq<char>) -> Option<JsonValue> {
    match v.kind {
        JsonKind::Object(members) => member_spec(members@, key),
        _ => None,
    }
}

/// The string a JSON string holds (`as_str`).
pub open spec fn as_str_spec(v: Option<JsonValue>) -> Option<Seq<char>> {
    match v {
        Some(JsonValue { kind: JsonKind::Str(s), .. }) => Some(s@),
        _ => None,
    }
}

/// The boolean a JSON boolean holds (`as_bool`).
pub open spec fn as_bool_spec(v: Option<JsonValue>) -> Option<bool> {
    match v {
        Some(JsonValue { kind: JsonKind::Bool(b), .. }) => Some(b),
        _ => None,
    }
}

/// The items of a JSON array (`as_array`).
pub open spec fn as_array_spec(v: Option<JsonValue>) -> Option<Seq<JsonValue>> {
    match v {
        Some(JsonValue { kind: JsonKind::Array(items), .. }) => Some(items@),
        _ => None,
    }
}

/// `v[key]` for an object `v`.
pub fn get<'a>(v: &'a JsonValue, key: &str) -> (r: Option<&'a JsonValue>)
    ensures
        match r {
            Some(x) => get_spec(*v, key@) == Some(*x),
            None => get_spec(*v, key@) is None,
        },
{
    match &v.kind {
        JsonKind::Object(members) => {
            let k = string_from_chars(chars_of(key).as_slice());
            let mut i: usize = 0;
            proof {
                assert(members@.skip(0) =~= members@);
            }
            while i < members.len()
                invariant
                    k@ == key@,
                    i <= members@.len(),
                    get_spec(*v, key@) == member_spec(members@, key@),
                    member_spec(members@, key@) == member_spec(members@.skip(i as int), key@),
                decreases members@.len() - i,
            {
                proof {
                    let rest = members@.skip(i as int);
                    assert(rest[0] == members@[i as int]);
                    assert(rest.drop_first() == members@.skip(i + 1));
                }
                if members[i].0 == k {
                    proof {
                        let rest = members@.skip(i as int);
                        assert(rest[0].0@ == key@);
                        assert(member_spec(rest, key@) == Some(rest[0].1));
                        assert(rest[0].1 == members@[i as int].1);
                        assert(get_spec(*v, key@) == member_spec(members@, key@));
                    }
                    return Some(&members[i].1);
                }
                i = i + 1;
            }
            proof {
                assert(members@.skip(members@.len() as int).len() == 0);
            }
            None
        },
        _ => None,
    }
}

fn as_str(v: Option<&JsonValue>) -> (r: Option<&str>)
    ensures
        match r {
            Some(s) => as_str_spec(match v {
                Some(x) => Some(*x),
                None => None,
            }) == Some(s@),
            None => as_str_spec(match v {
                Some(x) => Some(*x),
                None => None,
            }) is None,
        },
{
    match v {
        Some(x) => match &x.kind {
            JsonKind::Str(s) => Some(s.as_str()),
            _ => None,
        },
        None => None,
    }
}

fn as_bool(v: Option<&JsonValue>) -> (r: Option<bool>)
    ensures
        r == as_bool_spec(match v {
            Some(x) => Some(*x),
            None => None,
        }),
{
    match v {
        Some(x) => match &x.kind {
            JsonKind::Bool(b) => Some(*b),
            _ => None,
        },
        None => None,
    }
}

fn as_array(v: Option<&JsonValue>) -> (r: Option<&Vec<JsonValue>>)
    ensures
        match r {
            Some(items) => as_array_spec(match v {
                Some(x) => Some(*x),
                None => None,
            }) == Some(items@),
            None => as_array_spec(match v {
                Some(x) => Some(*x),
                None => None,
            }) is None,
        },
{
    match v {
        Some(x) => match &x.kind {
            JsonKind::Array(items) => Some(items),
            _ => None,
        },
        None => None,
    }
}

// ---------------------------------------------------------------------------
// Base64
// ---------------------------------------------------------------------------

/// The standard base64 alphabet.
pub const BASE64_ALPHABET: &'static str =
    "ABCDEFGHIJKLMNOPQRSTUVWXYZabcdefghijklmnopqrstuvwxyz0123456789+/";

/// The base64 character for the six-bit value `n`.
pub open spec fn base64_char(n: int) -> char {
    BASE64_ALPHABET@[n]
}

/// Standard padded base64: every three bytes become four characters of six
/// bits each; a last group of one or two bytes becomes two or three
/// characters, its missing bits zero, followed by `=` up to four.
pub open spec fn base64_encode_spec(data: Seq<u8>) -> Seq<char>
    decreases data.len(),
{
    if data.len() == 0 {
        seq![]
    } else if data.len() == 1 {
        let a = data[0] as int;
        seq![base64_char(a / 4), base64_char((a % 4) * 16), '=', '=']
    } else if data.len() == 2 {
        let a = data[0] as int;
        let b = data[1] as int;
        seq![base64_char(a / 4), base64_char((a % 4) * 16 + b / 16), base64_char((b % 16) * 4), '=']
    } else {
        let a = data[0] as int;
        let b = data[1] as int;
        let c = data[2] as int;
        seq![
            base64_char(a / 4),
            base64_char((a % 4) * 16 + b / 16),
            base64_char((b % 16) * 4 + c / 64),
            base64_char(c % 64),
        ] + base64_encode_spec(data.subrange(3, data.len() as int))
    }
}

/// Encodes bytes as standard, padded base64 (`Engine::encode` of `base64`'s
/// `STANDARD` engine, whose alphabet is `BASE64_ALPHABET` and which pads).
#[verifier::external_body]
fn encode_base64(data: &[u8]) -> (r: String)
    ensures
        r@ == base64_encode_spec(data@),
{
    base64::Engine::encode(&base64::engine::general_purpose::STANDARD, data)
}

/// What the standard base64 engine (`base64::engine::general_purpose::
/// STANDARD`) makes of `text`: the bytes it decodes to, or the text of the
/// error it reports.
pub uninterp spec fn base64_standard_decode(text: Seq<char>) -> Result<Seq<u8>, Seq<char>>;

/// Decodes standard, padded base64 (`Engine::decode` of `base64`'s
/// `STANDARD` engine), giving an error as its text (`to_string`). The
/// contract names the outcome as a function of the text alone; it does not
/// state the decoding rules or the error texts.
#[verifier::external_body]
fn decode_base64(text: &str) -> (r: Result<Vec<u8>, String>)
    ensures
        match r {
            Ok(bytes) => base64_standard_decode(text@) == Ok::<Seq<u8>, Seq<char>>(bytes@),
            Err(m) => base64_standard_decode(text@) == Err::<Seq<u8>, Seq<char>>(m@),
        },
{
    match base64::Engine::decode(&base64::engine::general_purpose::STANDARD, text) {
        Ok(bytes) => Ok(bytes),
        Err(error) => Err(error.to_string()),
    }
}

/// The base64 text that carries an audio chunk in a realtime-input message.
pub fn audio_chunk_data(chunk: &AudioChunk) -> (r: String)
    ensures
        r@ == base64_encode_spec(chunk.samples@),
{
    encode_base64(chunk.samples.as_slice())
}

// ---------------------------------------------------------------------------
// Server messages
// ---------------------------------------------------------------------------

/// A copy of `s`.
fn copy_string(s: &str) -> (r: String)
    ensures
        r@ == s@,
{
    string_from_chars(chars_of(s).as_slice())
}

/// Whether two texts are the same.
fn text_is(a: &str, b: &str) -> (r: bool)
    ensures
        r == (a@ == b@),
{
    copy_string(a) == copy_string(b)
}

/// A voice event with its texts and bytes taken by their views.
pub enum EventView {
    AudioOut(Seq<u8>),
    ToolCall { id: Seq<char>, name: Seq<char>, arguments: Seq<char> },
    TurnComplete,
    Interrupted,
    StateChanged(VoiceState),
    Error(Seq<char>),
}

/// The view of one event.
pub open spec fn event_view(e: VoiceEvent) -> EventView {
    match e {
        VoiceEvent::AudioOut(chunk) => EventView::AudioOut(chunk.samples@),
        VoiceEvent::ToolCall(call) => EventView::ToolCall {
            id: call.id@,
            name: call.name@,
            arguments: call.arguments@,
        },
        VoiceEvent::TurnComplete => EventView::TurnComplete,
        VoiceEvent::Interrupted => EventView::Interrupted,
        VoiceEvent::StateChanged(s) => EventView::StateChanged(s),
        VoiceEvent::Error(m) => EventView::Error(m@),
    }
}

/// The views of a sequence of events.
pub open spec fn event_views(events: Seq<VoiceEvent>) -> Seq<EventView> {
    events.map_values(|e: VoiceEvent| event_view(e))
}

/// The string that a member holds, or the empty string when it is missing
/// or not a string (`as_str().unwrap_or_default()`).
pub open spec fn str_or_empty(v: Option<JsonValue>) -> Seq<char> {
    match as_str_spec(v) {
        Some(s) => s,
        None => Seq::empty(),
    }
}

/// The items of the array at `root[key_a][key_b]`, none when any step is
/// missing or the value is not an array.
pub open spec fn nested_array(root: JsonValue, key_a: Seq<char>, key_b: Seq<char>) -> Seq<
    JsonValue,
> {
    match get_spec(root, key_a) {
        Some(inner) => match as_array_spec(get_spec(inner, key_b)) {
            Some(items) => items,
            None => Seq::empty(),
        },
        None => Seq::empty(),
    }
}

/// The parts of the model's turn: `serverContent.modelTurn.parts`.
pub open spec fn model_parts_spec(root: JsonValue) -> Seq<JsonValue> {
    match get_spec(root, "serverContent"@) {
        Some(content) => nested_array(content, "modelTurn"@, "parts"@),
        None => Seq::empty(),
    }
}

/// The function calls of a message: `toolCall.functionCalls`.
pub open spec fn function_calls_spec(root: JsonValue) -> Seq<JsonValue> {
    nested_array(root, "toolCall"@, "functionCalls"@)
}

/// `serverContent.turnComplete` is `true`.
pub open spec fn turn_complete_spec(root: JsonValue) -> bool {
    match get_spec(root, "serverContent"@) {
        Some(content) => as_bool_spec(get_spec(content, "turnComplete"@)) == Some(true),
        None => false,
    }
}

/// The audio of one part: none for a part without `inlineData.data` as a
/// string; otherwise the decoded bytes, or the error message for data that
/// is not base64.
pub open spec fn part_audio_spec(part: JsonValue) -> Option<Result<Seq<u8>, Seq<char>>> {
    match get_spec(part, "inlineData"@) {
        Some(inline) => match as_str_spec(get_spec(inline, "data"@)) {
            Some(data) => Some(
                match base64_standard_decode(data) {
                    Ok(bytes) => Ok(bytes),
                    Err(e) => Err("invalid audio base64: "@ + e),
                },
            ),
            None => None,
        },
        None => None,
    }
}

/// The audio events of the parts, in order; the first part whose data is
/// not base64 makes the whole an error.
pub open spec fn audio_events_spec(parts: Seq<JsonValue>) -> Result<Seq<EventView>, Seq<char>>
    decreases parts.len(),
{
    if parts.len() == 0 {
        Ok(Seq::empty())
    } else {
        match audio_events_spec(parts.drop_last()) {
            Err(m) => Err(m),
            Ok(events) => match part_audio_spec(parts.last()) {
                None => Ok(events),
                Some(Ok(bytes)) => Ok(events.push(EventView::AudioOut(bytes))),
                Some(Err(m)) => Err(m),
            },
        }
    }
}

/// The event of one function call: its `id` and `name` (empty when
/// missing), and the JSON text of its `args` (`{}` when missing).
pub open spec fn tool_call_view(call: JsonValue) -> EventView {
    EventView::ToolCall {
        id: str_or_empty(get_spec(call, "id"@)),
        name: str_or_empty(get_spec(call, "name"@)),
        arguments: match get_spec(call, "args"@) {
            Some(args) => args.text@,
            None => "{}"@,
        },
    }
}

/// The events of a server message. A message with an `error` member is that
/// error alone. Otherwise: `TurnComplete` when the turn is complete, then the
/// audio of the model's turn, then the function calls; data that is not
/// base64 makes the message an error.
pub open spec fn server_events_spec(root: JsonValue) -> Result<Seq<EventView>, Seq<char>> {
    match get_spec(root, "error"@) {
        Some(error) => Ok(seq![EventView::Error(error.text@)]),
        None => match audio_events_spec(model_parts_spec(root)) {
            Err(m) => Err(m),
            Ok(audio) => Ok(
                (if turn_complete_spec(root) {
                    seq![EventView::TurnComplete]
                } else {
                    Seq::empty()
                }) + audio + function_calls_spec(root).map_values(
                    |call: JsonValue| tool_call_view(call),
                ),
            ),
        },
    }
}

fn nested_array_of<'a>(root: &'a JsonValue, key_a: &str, key_b: &str) -> (r: Option<
    &'a Vec<JsonValue>,
>)
    ensures
        match r {
            Some(items) => items@ == nested_array(*root, key_a@, key_b@),
            None => nested_array(*root, key_a@, key_b@) == Seq::<JsonValue>::empty(),
        },
{
    match get(root, key_a) {
        Some(inner) => as_array(get(inner, key_b)),
        None => None,
    }
}

fn str_or_empty_of(v: Option<&JsonValue>) -> (r: String)
    ensures
        r@ == str_or_empty(
            match v {
                Some(x) => Some(*x),
                None => None,
            },
        ),
{
    match as_str(v) {
        Some(s) => copy_string(s),
        None => String::new(),
    }
}

fn part_audio(part: &JsonValue) -> (r: Option<Result<Vec<u8>, String>>)
    ensures
        match part_audio_spec(*part) {
            None => r is None,
            Some(Ok(bytes)) => r matches Some(Ok(v)) && v@ == bytes,
            Some(Err(m)) => r matches Some(Err(s)) && s@ == m,
        },
{
    let inline = match get(part, "inlineData") {
        Some(x) => x,
        None => return None,
    };
    let data = match as_str(get(inline, "data")) {
        Some(d) => d,
        None => return None,
    };
    match decode_base64(data) {
        Ok(bytes) => Some(Ok(bytes)),
        Err(e) => {
            let mut m = copy_string("invalid audio base64: ");
            push_chars(&mut m, chars_of(e.as_str()).as_slice());
            Some(Err(m))
        },
    }
}

proof fn lemma_event_views_push(events: Seq<VoiceEvent>, e: VoiceEvent)
    ensures
        event_views(events.push(e)) == event_views(events).push(event_view(e)),
{
    assert(event_views(events.push(e)) =~= event_views(events).push(event_view(e)));
}

proof fn lemma_audio_error_persists(parts: Seq<JsonValue>, i: int, m: Seq<char>)
    requires
        0 <= i <= parts.len(),
        audio_events_spec(parts.take(i)) == Err::<Seq<EventView>, Seq<char>>(m),
    ensures
        audio_events_spec(parts) == Err::<Seq<EventView>, Seq<char>>(m),
    decreases parts.len() - i,
{
    if i < parts.len() {
        assert(parts.take(i + 1).drop_last() =~= parts.take(i));
        lemma_audio_error_persists(parts, i + 1, m);
    } else {
        assert(parts.take(i) =~= parts);
    }
}

fn push_audio_events(parts: &Vec<JsonValue>, events: &mut Vec<VoiceEvent>) -> (r: Result<
    (),
    String,
>)
    ensures
        match audio_events_spec(parts@) {
            Ok(audio) => r is Ok && event_views(final(events)@) == event_views(old(events)@)
                + audio,
            Err(m) => r matches Err(s) && s@ == m,
        },
{
    let ghost start = events@;
    let ghost mut audio: Seq<EventView> = Seq::empty();
    let mut i: usize = 0;
    proof {
        assert(parts@.take(0) =~= Seq::<JsonValue>::empty());
        assert(event_views(start) + audio =~= event_views(start));
    }
    while i < parts.len()
        invariant
            i <= parts@.len(),
            audio_events_spec(parts@.take(i as int)) == Ok::<Seq<EventView>, Seq<char>>(audio),
            event_views(events@) == event_views(start) + audio,
        decreases parts@.len() - i,
    {
        proof {
            assert(parts@.take(i + 1).drop_last() =~= parts@.take(i as int));
            assert(parts@.take(i + 1).last() == parts@[i as int]);
        }
        match part_audio(&parts[i]) {
            None => {},
            Some(Ok(bytes)) => {
                let ghost before = events@;
                let ghost b = bytes@;
                events.push(VoiceEvent::AudioOut(AudioChunk { samples: bytes }));
                proof {
                    assert(events@ == before.push(events@.last()));
                    lemma_event_views_push(before, events@.last());
                    audio = audio.push(EventView::AudioOut(b));
                    assert(event_views(events@) =~= event_views(start) + audio);
                }
            },
            Some(Err(m)) => {
                proof {
                    lemma_audio_error_persists(parts@, i + 1, m@);
                }
                return Err(m);
            },
        }
        i = i + 1;
    }
    proof {
        assert(parts@.take(parts@.len() as int) =~= parts@);
    }
    Ok(())
}

fn push_tool_call_events(calls: &Vec<JsonValue>, events: &mut Vec<VoiceEvent>)
    ensures
        event_views(final(events)@) == event_views(old(events)@) + calls@.map_values(
            |call: JsonValue| tool_call_view(call),
        ),
{
    let ghost start = events@;
    let mut i: usize = 0;
    proof {
        assert(event_views(start) + calls@.take(0).map_values(|call: JsonValue| tool_call_view(call))
            =~= event_views(start));
    }
    while i < calls.len()
        invariant
            i <= calls@.len(),
            event_views(events@) == event_views(start) + calls@.take(i as int).map_values(
                |call: JsonValue| tool_call_view(call),
            ),
        decreases calls@.len() - i,
    {
        let call = &calls[i];
        let id = str_or_empty_of(get(call, "id"));
        let name = str_or_empty_of(get(call, "name"));
        let arguments = match get(call, "args") {
            Some(args) => copy_string(args.text.as_str()),
            None => copy_string("{}"),
        };
        let ghost before = events@;
        events.push(VoiceEvent::ToolCall(ToolCall { id, name, arguments }));
        proof {
            lemma_event_views_push(before, events@.last());
            assert(events@ == before.push(events@.last()));
            assert(event_view(events@.last()) == tool_call_view(calls@[i as int]));
            assert(calls@.take(i + 1).map_values(|call: JsonValue| tool_call_view(call))
                =~= calls@.take(i as int).map_values(|call: JsonValue| tool_call_view(call)).push(
                tool_call_view(calls@[i as int]),
            ));
            assert(event_views(events@) =~= event_views(start) + calls@.take(i + 1).map_values(
                |call: JsonValue| tool_call_view(call),
            ));
        }
        i = i + 1;
    }
    proof {
        assert(calls@.take(calls@.len() as int) =~= calls@);
    }
}

/// The events of a parsed server message, as `server_events_spec` reads
/// it; data that is not base64 is an `UnexpectedResponse` with the message.
pub fn server_message_events(root: &JsonValue) -> (r: Result<Vec<VoiceEvent>, GeminiError>)
    ensures
        match server_events_spec(*root) {
            Ok(evs) => r matches Ok(events) && event_views(events@) == evs,
            Err(e) => r matches Err(GeminiError::UnexpectedResponse(m)) && m@ == e,
        },
{
    let mut events: Vec<VoiceEvent> = Vec::new();
    if let Some(error) = get(root, "error") {
        events.push(VoiceEvent::Error(copy_string(error.text.as_str())));
        proof {
            assert(event_views(events@) =~= seq![EventView::Error(error.text@)]);
        }
        return Ok(events);
    }
    let ghost turn: Seq<EventView> = if turn_complete_spec(*root) {
        seq![EventView::TurnComplete]
    } else {
        Seq::empty()
    };
    if let Some(content) = get(root, "serverContent") {
        if let Some(true) = as_bool(get(content, "turnComplete")) {
            events.push(VoiceEvent::TurnComplete);
        }
    }
    proof {
        assert(event_views(events@) =~= turn);
    }
    let parts = match get(root, "serverContent") {
        Some(content) => nested_array_of(content, "modelTurn", "parts"),
        None => None,
    };
    match parts {
        Some(parts) => {
            match push_audio_events(parts, &mut events) {
                Ok(()) => {},
                Err(m) => {
                    return Err(GeminiError::UnexpectedResponse(m));
                },
            }
        },
        None => {
            proof {
                assert(audio_events_spec(Seq::<JsonValue>::empty()) == Ok::<
                    Seq<EventView>,
                    Seq<char>,
                >(Seq::empty()));
                assert(event_views(events@) =~= turn + Seq::<EventView>::empty());
            }
        },
    }
    let ghost mid = events@;
    match nested_array_of(root, "toolCall", "functionCalls") {
        Some(calls) => push_tool_call_events(calls, &mut events),
        None => {
            proof {
                assert(Seq::<JsonValue>::empty().map_values(|call: JsonValue| tool_call_view(call))
                    =~= Seq::<EventView>::empty());
                assert(event_views(events@) =~= event_views(mid) + Seq::<EventView>::empty());
            }
        },
    }
    Ok(events)
}

// ---------------------------------------------------------------------------
// Setup replies and tool calls
// ---------------------------------------------------------------------------

/// How a message received while waiting for the setup reads.
#[derive(Debug, Clone, PartialEq, Eq)]
pub enum SetupReply {
    /// The setup is complete.
    Complete,
    /// The server reported an error, given as its JSON text.
    Failed(String),
    /// Neither: the wait goes on.
    Pending,
}

/// `r` is how `message` reads during the setup wait.
pub open spec fn setup_reply_holds(message: JsonValue, r: SetupReply) -> bool {
    if get_spec(message, "setupComplete"@) is Some {
        r is Complete
    } else {
        match get_spec(message, "error"@) {
            Some(error) => r matches SetupReply::Failed(m) && m@ == error.text@,
            None => r is Pending,
        }
    }
}

/// Reads a server message received while waiting for the setup to
/// complete: `setupComplete` wins over `error`; a message with neither
/// leaves the wait going.
pub fn setup_reply(message: &JsonValue) -> (r: SetupReply)
    ensures
        setup_reply_holds(*message, r),
{
    if get(message, "setupComplete").is_some() {
        return SetupReply::Complete;
    }
    match get(message, "error") {
        Some(e) => SetupReply::Failed(copy_string(e.text.as_str())),
        None => SetupReply::Pending,
    }
}

/// What a tool call stands for.
#[derive(Debug, Clone, PartialEq, Eq)]
pub enum ToolDispatch {
    /// A request for the tool registry.
    Run(ToolRequest),
    /// A known tool whose arguments lack a string; the message says which.
    MissingArgument(String),
    /// A tool the agent does not offer; the message names it.
    UnknownTool(String),
}

/// `d` is what a call of the tool `name` with `arguments` stands for:
/// `read_last_dictation` runs; `add_dictionary_entry` runs with the string
/// arguments `wrong` and `correct`, `wrong` being checked first; any other
/// name is unknown.
pub open spec fn dispatch_holds(name: Seq<char>, arguments: JsonValue, d: ToolDispatch) -> bool {
    if name == "read_last_dictation"@ {
        d == ToolDispatch::Run(ToolRequest::ReadLastDictation)
    } else if name == "add_dictionary_entry"@ {
        match as_str_spec(get_spec(arguments, "wrong"@)) {
            None => d matches ToolDispatch::MissingArgument(m) && m@
                == "missing 'wrong' argument"@,
            Some(w) => match as_str_spec(get_spec(arguments, "correct"@)) {
                None => d matches ToolDispatch::MissingArgument(m) && m@
                    == "missing 'correct' argument"@,
                Some(c) => d matches ToolDispatch::Run(
                    ToolRequest::AddDictionaryEntry { wrong, correct },
                ) && wrong@ == w && correct@ == c,
            },
        }
    } else {
        d matches ToolDispatch::UnknownTool(m) && m@ == "unknown tool: "@ + name
    }
}

/// Decides what a call of the tool `name` with parsed `arguments` stands for.
pub fn dispatch_tool_call(name: &str, arguments: &JsonValue) -> (d: ToolDispatch)
    ensures
        dispatch_holds(name@, *arguments, d),
{
    if text_is(name, "read_last_dictation") {
        return ToolDispatch::Run(ToolRequest::ReadLastDictation);
    }
    if text_is(name, "add_dictionary_entry") {
        let wrong = match as_str(get(arguments, "wrong")) {
            Some(w) => copy_string(w),
            None => return ToolDispatch::MissingArgument(copy_string("missing 'wrong' argument")),
        };
        let correct = match as_str(get(arguments, "correct")) {
            Some(c) => copy_string(c),
            None => return ToolDispatch::MissingArgument(copy_string("missing 'correct' argument")),
        };
        return ToolDispatch::Run(ToolRequest::AddDictionaryEntry { wrong, correct });
    }
    let mut m = copy_string("unknown tool: ");
    push_chars(&mut m, chars_of(name).as_slice());
    ToolDispatch::UnknownTool(m)
}

// ---------------------------------------------------------------------------
// The setup message
// ---------------------------------------------------------------------------

/// The hexadecimal digits, as JSON escapes write them.
pub const HEX_DIGITS: &'static str = "0123456789abcdef";

/// The hexadecimal digit of `n`, for `n` below 16.
pub open spec fn hex_digit(n: int) -> char {
    HEX_DIGITS@[n]
}

/// How a character stands inside a JSON string: quote and backslash are
/// escaped, control characters are written as their short escape or as
/// `\u00XX`, every other character stands for itself.
pub open spec fn json_escape_char(c: char) -> Seq<char> {
    let v: u32 = c as u32;
    if c == '"' {
        seq!['\\', '"']
    } else if c == '\\' {
        seq!['\\', '\\']
    } else if v == 0x08 {
        seq!['\\', 'b']
    } else if v == 0x09 {
        seq!['\\', 't']
    } else if v == 0x0A {
        seq!['\\', 'n']
    } else if v == 0x0C {
        seq!['\\', 'f']
    } else if v == 0x0D {
        seq!['\\', 'r']
    } else if v < 0x20 {
        seq!['\\', 'u', '0', '0', hex_digit((v / 16) as int), hex_digit((v % 16) as int)]
    } else {
        seq![c]
    }
}

/// The characters of `s` as they stand inside a JSON string.
pub open spec fn json_escape(s: Seq<char>) -> Seq<char>
    decreases s.len(),
{
    if s.len() == 0 {
        seq![]
    } else {
        json_escape(s.drop_last()) + json_escape_char(s.last())
    }
}

/// The JSON string literal that holds `s`.
pub open spec fn json_string(s: Seq<char>) -> Seq<char> {
    seq!['"'] + json_escape(s) + seq!['"']
}

/// The JSON string literal of `s` (`serde_json::to_string` of a `str`):
/// `s` in quotes, with quote, backslash and control characters escaped as
/// `json_escape` states. Serialising a `str` does not fail: its
/// serialisation reports no error and writing to a `Vec` cannot fail.
#[verifier::external_body]
fn json_string_of(s: &str) -> (r: Result<String, JsonError>)
    ensures
        r is Ok,
        r is Ok ==> r->Ok_0@ == json_string(s@),
{
    serde_json::to_string(s)
}

/// The setup message's text before the model name: audio answers.
pub const SETUP_HEAD: &'static str = "{\"setup\":{\"generationConfig\":{\"responseModalities\":[\"AUDIO\"]},\"model\":";

/// The setup message's text after the model name: the two tools the agent
/// offers. Keys come in sorted order, as `serde_json` writes an object.
pub const SETUP_TAIL: &'static str = ",\"tools\":[{\"functionDeclarations\":[{\"description\":\"Returns the most recently injected dictation text.\",\"name\":\"read_last_dictation\",\"parameters\":{\"type\":\"OBJECT\"}},{\"description\":\"Adds a manual speech correction to the TinyVox dictionary.\",\"name\":\"add_dictionary_entry\",\"parameters\":{\"properties\":{\"correct\":{\"description\":\"The correct replacement text.\",\"type\":\"STRING\"},\"wrong\":{\"description\":\"The phrase TinyVox commonly mishears.\",\"type\":\"STRING\"}},\"required\":[\"wrong\",\"correct\"],\"type\":\"OBJECT\"}}]}]}}";

/// The first message of a session, as JSON text: the model
/// `models/{model}`, audio answers, and the declarations of the tools
/// `read_last_dictation` and `add_dictionary_entry`.
pub open spec fn setup_text(model: Seq<char>) -> Seq<char> {
    SETUP_HEAD@ + json_string("models/"@ + model) + SETUP_TAIL@
}

/// The first message of a session with `model`.
pub fn setup_message_for(model: &str) -> (m: String)
    ensures
        m@ == setup_text(model@),
{
    let mut name = copy_string("models/");
    push_chars(&mut name, chars_of(model).as_slice());
    let literal = match json_string_of(name.as_str()) {
        Ok(t) => t,
        Err(_) => String::new(),
    };
    let mut m = copy_string(SETUP_HEAD);
    push_chars(&mut m, chars_of(literal.as_str()).as_slice());
    push_chars(&mut m, chars_of(SETUP_TAIL).as_slice());
    m
}

// ---------------------------------------------------------------------------
// Provider
// ---------------------------------------------------------------------------

/// Whether `url::Url::parse` accepts a text as a URL.
pub uninterp spec fn url_parses(text: Seq<char>) -> bool;

/// Parses a URL (`url::Url::parse`), keeping only whether it succeeded and
/// the error. The contract names the verdict as a function of the text
/// alone; it does not state the URL grammar.
#[verifier::external_body]
fn check_url(text: &str) -> (r: Result<(), url::ParseError>)
    ensures
        r is Ok == url_parses(text@),
{
    url::Url::parse(text).map(|_| ())
}

/// The address of the Gemini Live endpoint, without the key.
pub open spec fn gemini_endpoint() -> Seq<char> {
    "wss://generativelanguage.googleapis.com/ws/google.ai.generativelanguage.v1beta.GenerativeService.BidiGenerateContent?key="@
}

/// The Gemini Live service, reached with an API key and a model name.
#[derive(Debug, Clone)]
pub struct GeminiLiveProvider {
    api_key: String,
    model: String,
}

impl GeminiLiveProvider {
    /// The API key.
    pub closed spec fn api_key_view(&self) -> Seq<char> {
        self.api_key@
    }

    /// The model name.
    pub closed spec fn model_view(&self) -> Seq<char> {
        self.model@
    }

    /// A provider with the given key and model.
    pub fn new(api_key: &str, model: &str) -> (p: Self)
        ensures
            p.api_key_view() == api_key@,
            p.model_view() == model@,
    {
        GeminiLiveProvider { api_key: copy_string(api_key), model: copy_string(model) }
    }

    /// The API key.
    pub fn api_key(&self) -> (k: &str)
        ensures
            k@ == self.api_key_view(),
    {
        self.api_key.as_str()
    }

    /// The model name.
    pub fn model(&self) -> (m: &str)
        ensures
            m@ == self.model_view(),
    {
        self.model.as_str()
    }

    /// The first message of a session with this provider's model.
    pub fn setup_message(&self) -> (m: String)
        ensures
            m@ == setup_text(self.model_view()),
    {
        setup_message_for(self.model.as_str())
    }

    /// The WebSocket address of a session: the endpoint with the key
    /// appended, provided the result parses as a URL.
    pub fn websocket_url(&self) -> (r: Result<String, GeminiError>)
        ensures
            url_parses(gemini_endpoint() + self.api_key_view()) ==> (r matches Ok(u) && u@
                == gemini_endpoint() + self.api_key_view()),
            !url_parses(gemini_endpoint() + self.api_key_view()) ==> r matches Err(
                GeminiError::InvalidUrl(_),
            ),
    {
        let mut url = copy_string(
            "wss://generativelanguage.googleapis.com/ws/google.ai.generativelanguage.v1beta.GenerativeService.BidiGenerateContent?key=",
        );
        push_chars(&mut url, chars_of(self.api_key.as_str()).as_slice());
        match check_url(url.as_str()) {
            Ok(()) => Ok(url),
            Err(e) => Err(GeminiError::InvalidUrl(e)),
        }
    }
}


// ---------------------------------------------------------------------------
// Reading JSON text
// ---------------------------------------------------------------------------

#[verifier::external_type_specification]
#[verifier::external_body]
pub struct ExJsonTree(serde_json::Value);

/// What `serde_json::from_str::<serde_json::Value>` makes of `text`, in the
/// library's shape: `None` when the text is not JSON.
pub uninterp spec fn json_parse(text: Seq<char>) -> Option<JsonValue>;

/// Gives a parsed `serde_json::Value` the library's shape, one arm per
/// variant, each value keeping its compact text (`Value::to_string`).
#[verifier::external_body]
fn json_value_of(value: &serde_json::Value) -> JsonValue {
    let kind = match value {
        serde_json::Value::Null => JsonKind::Null,
        serde_json::Value::Bool(b) => JsonKind::Bool(*b),
        serde_json::Value::Number(_) => JsonKind::Number,
        serde_json::Value::String(s) => JsonKind::Str(s.clone()),
        serde_json::Value::Array(items) => JsonKind::Array(items.iter().map(json_value_of).collect()),
        serde_json::Value::Object(members) => JsonKind::Object(
            members.iter().map(|(k, v)| (k.clone(), json_value_of(v))).collect(),
        ),
    };
    JsonValue { kind, text: value.to_string() }
}

/// Reads JSON text (`serde_json::from_str`). The contract names the value
/// as a function of the text alone; it does not state the JSON grammar.
#[verifier::external_body]
fn parse_json(text: &str) -> (r: Result<JsonValue, JsonError>)
    ensures
        match r {
            Ok(v) => json_parse(text@) == Some(v),
            Err(_) => json_parse(text@) is None,
        },
{
    match serde_json::from_str::<serde_json::Value>(text) {
        Ok(value) => Ok(json_value_of(&value)),
        Err(error) => Err(error),
    }
}

/// The events of a raw server message: text that is not JSON is a `Json`
/// error; JSON text gives what `server_message_events` gives for it.
pub fn parse_server_message(text: &str) -> (r: Result<Vec<VoiceEvent>, GeminiError>)
    ensures
        match json_parse(text@) {
            None => r matches Err(GeminiError::Json(_)),
            Some(root) => match server_events_spec(root) {
                Ok(evs) => r matches Ok(events) && event_views(events@) == evs,
                Err(e) => r matches Err(GeminiError::UnexpectedResponse(m)) && m@ == e,
            },
        },
{
    match parse_json(text) {
        Ok(root) => server_message_events(&root),
        Err(error) => Err(GeminiError::Json(error)),
    }
}

/// Reads the raw text of a reply received while waiting for the setup:
/// text that is not JSON is a `Json` error, JSON text reads as
/// `setup_reply` reads it.
pub fn read_setup_reply(text: &str) -> (r: Result<SetupReply, GeminiError>)
    ensures
        match json_parse(text@) {
            None => r matches Err(GeminiError::Json(_)),
            Some(message) => r matches Ok(reply) && setup_reply_holds(message, reply),
        },
{
    match parse_json(text) {
        Ok(message) => Ok(setup_reply(&message)),
        Err(error) => Err(GeminiError::Json(error)),
    }
}

/// A frame received while waiting for the setup to complete, as the wait
/// reads it.
pub enum SetupFrame {
    /// A text (or binary) message, as text.
    Text(String),
    /// A ping, to be answered with a pong.
    Ping,
    /// The server closed the connection, for the given reason.
    Close(String),
    /// A pong or a raw frame: nothing to do.
    Ignored,
    /// The stream ended.
    Ended,
}

/// What the setup wait does after a frame.
pub enum SetupWait {
    /// The setup is complete: the session is ready.
    Ready,
    /// Answer the ping with a pong and keep waiting.
    SendPong,
    /// Keep waiting.
    KeepWaiting,
    /// The connection failed.
    Fail(GeminiError),
}

/// One step of the wait for the setup to complete: only a reply with a
/// `setupComplete` member makes the session ready; a reply with an `error`
/// member, a close frame or the end of the stream fails it; text that is
/// not JSON fails it with the JSON error; pings are answered; anything else
/// keeps the wait going.
pub fn setup_wait_step(frame: SetupFrame) -> (r: SetupWait)
    ensures
        match frame {
            SetupFrame::Text(t) => match json_parse(t@) {
                None => r matches SetupWait::Fail(GeminiError::Json(_)),
                Some(message) => if get_spec(message, "setupComplete"@) is Some {
                    r is Ready
                } else {
                    match get_spec(message, "error"@) {
                        Some(e) => r matches SetupWait::Fail(GeminiError::UnexpectedResponse(m))
                            && m@ == e.text@,
                        None => r is KeepWaiting,
                    }
                },
            },
            SetupFrame::Ping => r is SendPong,
            SetupFrame::Close(reason) => r matches SetupWait::Fail(
                GeminiError::UnexpectedResponse(m),
            ) && m@ == reason@,
            SetupFrame::Ignored => r is KeepWaiting,
            SetupFrame::Ended => r matches SetupWait::Fail(GeminiError::ConnectionClosed),
        },
{
    match frame {
        SetupFrame::Text(text) => match read_setup_reply(text.as_str()) {
            Ok(SetupReply::Complete) => SetupWait::Ready,
            Ok(SetupReply::Failed(m)) => SetupWait::Fail(GeminiError::UnexpectedResponse(m)),
            Ok(SetupReply::Pending) => SetupWait::KeepWaiting,
            Err(e) => SetupWait::Fail(e),
        },
        SetupFrame::Ping => SetupWait::SendPong,
        SetupFrame::Close(reason) => SetupWait::Fail(GeminiError::UnexpectedResponse(reason)),
        SetupFrame::Ignored => SetupWait::KeepWaiting,
        SetupFrame::Ended => SetupWait::Fail(GeminiError::ConnectionClosed),
    }
}

/// Reads the JSON arguments of a tool call and decides what it stands for:
/// arguments that are not JSON are the parse error, otherwise the call
/// dispatches as `dispatch_tool_call` decides.
pub fn tool_call_dispatch(call: &ToolCall) -> (r: Result<ToolDispatch, JsonError>)
    ensures
        match json_parse(call.arguments@) {
            None => r is Err,
            Some(arguments) => r matches Ok(d) && dispatch_holds(call.name@, arguments, d),
        },
{
    match parse_json(call.arguments.as_str()) {
        Ok(arguments) => Ok(dispatch_tool_call(call.name.as_str(), &arguments)),
        Err(error) => Err(error),
    }
}

} // verus!
