use tinyvox::gemini::{
    audio_chunk_data, dispatch_tool_call, parse_server_message, read_setup_reply, server_message_events,
    setup_message_for, setup_reply, tool_call_dispatch, GeminiError, GeminiLiveProvider, JsonKind, JsonValue,
    setup_wait_step, SetupFrame, SetupReply, SetupWait, ToolDispatch,
};
use tinyvox::tools::ToolRequest;
use tinyvox::voice::{AudioChunk, ToolCall, VoiceEvent};

// Builds the library's JSON value from one that serde_json parsed.
fn to_json_value(value: &serde_json::Value) -> JsonValue {
    let kind = match value {
        serde_json::Value::Null => JsonKind::Null,
        serde_json::Value::Bool(b) => JsonKind::Bool(*b),
        serde_json::Value::Number(_) => JsonKind::Number,
        serde_json::Value::String(s) => JsonKind::Str(s.clone()),
        serde_json::Value::Array(items) => JsonKind::Array(items.iter().map(to_json_value).collect()),
        serde_json::Value::Object(members) => JsonKind::Object(
            members.iter().map(|(k, v)| (k.clone(), to_json_value(v))).collect(),
        ),
    };
    JsonValue { kind, text: value.to_string() }
}

fn json(text: &str) -> JsonValue {
    to_json_value(&serde_json::from_str(text).unwrap())
}

#[test]
fn parses_turn_complete() {
    let events = parse_server_message(
        r#"{
                "serverContent": {
                    "turnComplete": true
                }
            }"#,
    )
    .unwrap();
    assert_eq!(events, vec![VoiceEvent::TurnComplete]);
}

#[test]
fn parses_audio_output() {
    let encoded = base64::Engine::encode(&base64::engine::general_purpose::STANDARD, [1u8, 2u8, 3u8]);
    let message = format!(
        r#"{{
                "serverContent": {{
                    "modelTurn": {{
                        "parts": [{{
                            "inlineData": {{
                                "data": "{encoded}"
                            }}
                        }}]
                    }}
                }}
            }}"#
    );
    let events = parse_server_message(&message).unwrap();
    assert_eq!(events.len(), 1);
    assert_eq!(events[0], VoiceEvent::AudioOut(AudioChunk { samples: vec![1, 2, 3] }));
}

#[test]
fn parses_tool_call() {
    let events = parse_server_message(
        r#"{
                "toolCall": {
                    "functionCalls": [
                        {
                            "id": "call-123",
                            "name": "read_last_dictation",
                            "args": {}
                        }
                    ]
                }
            }"#,
    )
    .unwrap();
    assert_eq!(
        events,
        vec![VoiceEvent::ToolCall(ToolCall {
            id: "call-123".to_string(),
            name: "read_last_dictation".to_string(),
            arguments: "{}".to_string(),
        })]
    );
}

// Further cases.

#[test]
fn error_member_gives_only_an_error_event() {
    let events = parse_server_message(
        r#"{"error": {"code": 400}, "serverContent": {"turnComplete": true}}"#,
    )
    .unwrap();
    assert_eq!(events, vec![VoiceEvent::Error(r#"{"code":400}"#.to_string())]);
}

#[test]
fn turn_audio_and_tool_calls_come_in_order() {
    let events = parse_server_message(
        r#"{
            "serverContent": {
                "turnComplete": true,
                "modelTurn": {"parts": [
                    {"inlineData": {"data": "AAE="}},
                    {"text": "no audio here"},
                    {"inlineData": {"mimeType": "audio/pcm"}},
                    {"inlineData": {"data": "/w=="}}
                ]}
            },
            "toolCall": {"functionCalls": [
                {"id": "a", "name": "add_dictionary_entry", "args": {"correct": "Kubernetes", "wrong": "kubernets"}},
                {"name": 7}
            ]}
        }"#,
    )
    .unwrap();
    assert_eq!(
        events,
        vec![
            VoiceEvent::TurnComplete,
            VoiceEvent::AudioOut(AudioChunk { samples: vec![0, 1] }),
            VoiceEvent::AudioOut(AudioChunk { samples: vec![255] }),
            VoiceEvent::ToolCall(ToolCall {
                id: "a".to_string(),
                name: "add_dictionary_entry".to_string(),
                arguments: r#"{"correct":"Kubernetes","wrong":"kubernets"}"#.to_string(),
            }),
            VoiceEvent::ToolCall(ToolCall {
                id: String::new(),
                name: String::new(),
                arguments: "{}".to_string(),
            }),
        ]
    );
}

#[test]
fn turn_complete_false_gives_nothing() {
    let events = parse_server_message(r#"{"serverContent": {"turnComplete": false}}"#).unwrap();
    assert!(events.is_empty());
}

#[test]
fn invalid_audio_is_an_unexpected_response() {
    let result = parse_server_message(
        r#"{"serverContent": {"modelTurn": {"parts": [{"inlineData": {"data": "not base64!"}}]}}}"#,
    );
    match result {
        Err(GeminiError::UnexpectedResponse(message)) => {
            assert!(message.starts_with("invalid audio base64: "));
        }
        other => panic!("unexpected result: {other:?}"),
    }
}

#[test]
fn tool_calls_dispatch_to_requests() {
    assert_eq!(
        dispatch_tool_call("read_last_dictation", &json("{}")),
        ToolDispatch::Run(ToolRequest::ReadLastDictation)
    );
    assert_eq!(
        dispatch_tool_call("add_dictionary_entry", &json(r#"{"wrong": "ny", "correct": "New York"}"#)),
        ToolDispatch::Run(ToolRequest::AddDictionaryEntry {
            wrong: "ny".to_string(),
            correct: "New York".to_string(),
        })
    );
    assert_eq!(
        dispatch_tool_call("add_dictionary_entry", &json(r#"{"correct": "New York"}"#)),
        ToolDispatch::MissingArgument("missing 'wrong' argument".to_string())
    );
    assert_eq!(
        dispatch_tool_call("add_dictionary_entry", &json(r#"{"wrong": "ny", "correct": 3}"#)),
        ToolDispatch::MissingArgument("missing 'correct' argument".to_string())
    );
    assert_eq!(
        dispatch_tool_call("open_door", &json("{}")),
        ToolDispatch::UnknownTool("unknown tool: open_door".to_string())
    );
}

#[test]
fn setup_replies_are_read() {
    assert_eq!(setup_reply(&json(r#"{"setupComplete": {}}"#)), SetupReply::Complete);
    assert_eq!(
        setup_reply(&json(r#"{"setupComplete": {}, "error": {"code": 1}}"#)),
        SetupReply::Complete
    );
    assert_eq!(
        setup_reply(&json(r#"{"error": {"message": "bad key"}}"#)),
        SetupReply::Failed(r#"{"message":"bad key"}"#.to_string())
    );
    assert_eq!(setup_reply(&json(r#"{"other": 1}"#)), SetupReply::Pending);
}

#[test]
fn audio_is_sent_as_standard_base64() {
    let chunk = AudioChunk { samples: vec![0xFF, 0xEC, 0x20, 0x55, 0x00] };
    assert_eq!(audio_chunk_data(&chunk), "/+wgVQA=");
    assert_eq!(audio_chunk_data(&AudioChunk { samples: vec![] }), "");
}

#[test]
fn websocket_url_appends_the_key() {
    let provider = GeminiLiveProvider::new("my-key", "gemini-live");
    assert_eq!(provider.api_key(), "my-key");
    assert_eq!(provider.model(), "gemini-live");
    assert_eq!(
        provider.websocket_url().unwrap(),
        "wss://generativelanguage.googleapis.com/ws/google.ai.generativelanguage.v1beta.GenerativeService.BidiGenerateContent?key=my-key"
    );
}

#[test]
fn text_that_is_not_json_is_a_json_error() {
    assert!(matches!(parse_server_message("not json"), Err(GeminiError::Json(_))));
    assert!(matches!(read_setup_reply("{"), Err(GeminiError::Json(_))));
}

#[test]
fn parsed_text_reads_as_its_json_value() {
    let text = r#"{"serverContent": {"turnComplete": true}, "toolCall": {"functionCalls": [{"id": "x", "name": "n"}]}}"#;
    assert_eq!(parse_server_message(text).unwrap(), server_message_events(&json(text)).unwrap());
    assert_eq!(read_setup_reply(r#"{"setupComplete": {}}"#).unwrap(), SetupReply::Complete);
    assert_eq!(
        read_setup_reply(r#"{"error": {"code": 7}}"#).unwrap(),
        SetupReply::Failed(r#"{"code":7}"#.to_string())
    );
}

#[test]
fn tool_arguments_are_read_before_dispatch() {
    let call = ToolCall {
        id: "1".to_string(),
        name: "add_dictionary_entry".to_string(),
        arguments: r#"{"wrong": "ny", "correct": "New York"}"#.to_string(),
    };
    assert_eq!(
        tool_call_dispatch(&call).unwrap(),
        ToolDispatch::Run(ToolRequest::AddDictionaryEntry { wrong: "ny".to_string(), correct: "New York".to_string() })
    );
    let bad = ToolCall { arguments: "{wrong".to_string(), ..call };
    assert!(tool_call_dispatch(&bad).is_err());
}

#[test]
fn setup_message_names_the_model_and_the_tools() {
    let provider = GeminiLiveProvider::new("key", "gemini-live");
    let text = provider.setup_message();
    assert_eq!(text, setup_message_for("gemini-live"));
    let value: serde_json::Value = serde_json::from_str(&text).unwrap();
    assert_eq!(value["setup"]["model"], "models/gemini-live");
    assert_eq!(value["setup"]["generationConfig"]["responseModalities"][0], "AUDIO");
    let tools = &value["setup"]["tools"][0]["functionDeclarations"];
    assert_eq!(tools[0]["name"], "read_last_dictation");
    assert_eq!(tools[1]["name"], "add_dictionary_entry");
    assert_eq!(tools[1]["parameters"]["required"][0], "wrong");
    assert_eq!(tools[1]["parameters"]["required"][1], "correct");
}

#[test]
fn model_names_are_escaped_in_the_setup_message() {
    let text = setup_message_for("a\"b\\c\n\u{1}é");
    let value: serde_json::Value = serde_json::from_str(&text).unwrap();
    assert_eq!(value["setup"]["model"], "models/a\"b\\c\n\u{1}é");
    assert!(text.contains(r#""models/a\"b\\c\n\u0001é""#));
}

#[test]
fn setup_message_is_what_serde_json_writes() {
    let text = setup_message_for("gemini-live");
    let value: serde_json::Value = serde_json::from_str(&text).unwrap();
    assert_eq!(value.to_string(), text);
    let escaped = setup_message_for("a\"b\u{7}");
    let value: serde_json::Value = serde_json::from_str(&escaped).unwrap();
    assert_eq!(value.to_string(), escaped);
}

#[test]
fn setup_wait_ends_only_on_setup_complete() {
    assert!(matches!(setup_wait_step(SetupFrame::Text(r#"{"other": 1}"#.to_string())), SetupWait::KeepWaiting));
    assert!(matches!(setup_wait_step(SetupFrame::Ping), SetupWait::SendPong));
    assert!(matches!(setup_wait_step(SetupFrame::Ignored), SetupWait::KeepWaiting));
    assert!(matches!(setup_wait_step(SetupFrame::Text(r#"{"setupComplete": {}}"#.to_string())), SetupWait::Ready));
    match setup_wait_step(SetupFrame::Text(r#"{"error": {"code": 3}}"#.to_string())) {
        SetupWait::Fail(GeminiError::UnexpectedResponse(m)) => assert_eq!(m, r#"{"code":3}"#),
        _ => panic!("an error reply fails the setup"),
    }
    match setup_wait_step(SetupFrame::Close("code=1000 reason=bye".to_string())) {
        SetupWait::Fail(GeminiError::UnexpectedResponse(m)) => assert_eq!(m, "code=1000 reason=bye"),
        _ => panic!("a close frame fails the setup"),
    }
    assert!(matches!(setup_wait_step(SetupFrame::Ended), SetupWait::Fail(GeminiError::ConnectionClosed)));
    assert!(matches!(setup_wait_step(SetupFrame::Text("{".to_string())), SetupWait::Fail(GeminiError::Json(_))));
}
