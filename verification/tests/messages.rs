use openai_api_rust::apis::endpoints;
use openai_api_rust::apis::tool::default_tool_call_type;
use openai_api_rust::apis::wire::{
    deserialize_content_lenient, WireChoice, WireMessage, WireToolCall,
};
use openai_api_rust::{
    Choice, FunctionCall, FunctionDeclaration, Message, Role, Tool, ToolCall, Usage,
};

fn call(id: &str) -> ToolCall {
    ToolCall {
        id: id.to_string(),
        kind: "function".to_string(),
        function: FunctionCall {
            name: "lookup".to_string(),
            arguments: "{\"kind\":\"color\"}".to_string(),
        },
    }
}

fn assistant() -> Message {
    Message {
        role: Role::Assistant,
        content: "both".to_string(),
        tool_calls: Some(vec![call("a"), call("b")]),
        tool_call_id: None,
        reasoning_content: Some("because".to_string()),
    }
}

fn wire(role: &str, content: Option<&str>) -> WireMessage {
    WireMessage {
        role: role.to_string(),
        content: content.map(|c| c.to_string()),
        tool_calls: None,
        tool_call_id: None,
        reasoning_content: None,
    }
}

#[test]
fn new_message_has_no_tool_fields() {
    let from_str = Message::new(Role::User, "hello");
    assert!(matches!(from_str.role, Role::User));
    assert_eq!(from_str.content, "hello");
    assert!(from_str.tool_calls.is_none());
    assert!(from_str.tool_call_id.is_none());
    assert!(from_str.reasoning_content.is_none());
    let from_string = Message::new(Role::System, "be brief".to_string());
    assert!(matches!(from_string.role, Role::System));
    assert_eq!(from_string.content, "be brief");
}

#[test]
fn clone_keeps_every_field() {
    let message = assistant();
    let copy = message.clone();
    assert_eq!(format!("{:?}", copy), format!("{:?}", message));
    assert_eq!(copy.tool_calls.unwrap()[1].id, "b");
    assert_eq!(copy.reasoning_content.unwrap(), "because");
    assert!(matches!(Role::Tool.clone(), Role::Tool));
    assert!(matches!(Role::Assistant.clone(), Role::Assistant));
}

#[test]
fn tool_is_a_function_and_its_clone_keeps_the_schema() {
    let mut schema = serde_json::Map::new();
    schema.insert("type".to_string(), serde_json::Value::String("object".to_string()));
    let tool = Tool::function(FunctionDeclaration {
        name: "lookup".to_string(),
        description: None,
        parameters: serde_json::Value::Object(schema),
    });
    assert_eq!(tool.kind, "function");
    let copy = tool.clone();
    assert_eq!(copy.kind, "function");
    assert_eq!(copy.function.name, "lookup");
    assert_eq!(copy.function.description, None);
    assert_eq!(copy.function.parameters, tool.function.parameters);
    assert_eq!(copy.function.parameters.to_string(), "{\"type\":\"object\"}");
}

#[test]
fn tool_call_type_defaults_to_function() {
    assert_eq!(default_tool_call_type(), "function");
    let read = |kind: Option<&str>| {
        ToolCall::from_wire(WireToolCall {
            id: "a".to_string(),
            kind: kind.map(|k| k.to_string()),
            function: FunctionCall { name: "f".to_string(), arguments: "{}".to_string() },
        })
    };
    assert_eq!(read(None).kind, "function");
    assert_eq!(read(Some("other")).kind, "other");
    assert_eq!(read(None).id, "a");
}

#[test]
fn null_content_reads_as_empty() {
    assert_eq!(deserialize_content_lenient::<u8>(Ok(None)), Ok(String::new()));
    assert_eq!(deserialize_content_lenient::<u8>(Ok(Some("x".to_string()))), Ok("x".to_string()));
    assert_eq!(deserialize_content_lenient::<u8>(Err(3)), Err(3));
    assert_eq!(Message::from_wire(wire("assistant", None)).unwrap().content, "");
    assert_eq!(Message::from_wire(wire("assistant", Some(""))).unwrap().content, "");
    assert_eq!(Message::from_wire(wire("assistant", Some("hi"))).unwrap().content, "hi");
}

#[test]
fn roles_have_lower_case_names() {
    assert_eq!(Role::System.wire_name(), "system");
    assert_eq!(Role::Assistant.wire_name(), "assistant");
    assert_eq!(Role::User.wire_name(), "user");
    assert_eq!(Role::Tool.wire_name(), "tool");
    for name in ["system", "assistant", "user", "tool"] {
        assert_eq!(Role::from_wire_name(name.to_string()).unwrap().wire_name(), name);
    }
    for name in ["", "System", "TOOL", "function", "users"] {
        assert_eq!(Role::from_wire_name(name.to_string()).unwrap_err().name, name);
    }
}

#[test]
fn unknown_role_is_refused() {
    assert_eq!(Message::from_wire(wire("robot", Some("hi"))).unwrap_err().name, "robot");
    let choice = WireChoice {
        text: None,
        index: 0,
        logprobs: None,
        finish_reason: None,
        message: Some(wire("robot", None)),
    };
    assert_eq!(Choice::from_wire(choice).unwrap_err().name, "robot");
}

#[test]
fn message_reads_back() {
    let message = assistant();
    let back = Message::from_wire(message.to_wire()).unwrap();
    assert_eq!(format!("{:?}", back), format!("{:?}", message));
}

#[test]
fn choice_reads_back() {
    let choice = Choice {
        text: None,
        index: 7,
        logprobs: Some("-1".to_string()),
        finish_reason: Some("stop".to_string()),
        message: Some(assistant()),
    };
    let back = Choice::from_wire(choice.to_wire()).unwrap();
    assert_eq!(format!("{:?}", back), format!("{:?}", choice));
    let empty = Choice { text: None, index: 0, logprobs: None, finish_reason: None, message: None };
    assert!(Choice::from_wire(empty.to_wire()).unwrap().message.is_none());
}

#[test]
fn read_message_is_echoed() {
    let mut received = wire("assistant", None);
    received.reasoning_content = Some("step by step".to_string());
    received.tool_calls = Some(vec![WireToolCall {
        id: "call_1".to_string(),
        kind: None,
        function: FunctionCall { name: "f".to_string(), arguments: "{}".to_string() },
    }]);
    let echo = Message::from_wire(received).unwrap().to_wire();
    assert_eq!(echo.role, "assistant");
    assert_eq!(echo.content, Some(String::new()));
    assert_eq!(echo.reasoning_content, Some("step by step".to_string()));
    assert_eq!(echo.tool_call_id, None);
    let calls = echo.tool_calls.unwrap();
    assert_eq!(calls.len(), 1);
    assert_eq!(calls[0].id, "call_1");
    assert_eq!(calls[0].kind, Some("function".to_string()));
}

#[test]
fn absent_members_are_left_out() {
    let plain = Message::new(Role::User, "hi").to_wire();
    assert_eq!(plain.content, Some("hi".to_string()));
    assert!(plain.tool_calls.is_none());
    assert!(plain.tool_call_id.is_none());
    assert!(plain.reasoning_content.is_none());
    assert_eq!(assistant().to_wire().tool_calls.unwrap().len(), 2);
}

#[test]
fn usage_holds_counts() {
    let usage = Usage { prompt_tokens: Some(3), completion_tokens: None, total_tokens: Some(3) };
    assert_eq!(usage.prompt_tokens, usage.total_tokens);
    assert_eq!(usage.completion_tokens, None);
}

#[test]
fn endpoints_are_relative_paths() {
    assert_eq!(endpoints::MODELS_LIST, "models");
    assert_eq!(endpoints::MODELS_RETRIEVE, "models/");
    assert_eq!(endpoints::COMPLETION_CREATE, "completions");
    assert_eq!(endpoints::CHAT_COMPLETION_CREATE, "chat/completions");
    assert_eq!(endpoints::IMAGES_CREATE, "images/generations");
    assert_eq!(endpoints::IMAGES_EDIT, "images/edits");
    assert_eq!(endpoints::IMAGES_VARIATIONS, "images/variations");
    assert_eq!(endpoints::EMBEDDINGS_CREATE, "embeddings");
    assert_eq!(endpoints::AUDIO_TRANSCRIPTION_CREATE, "audio/transcriptions");
    assert_eq!(endpoints::AUDIO_TRANSLATIONS_CREATE, "audio/translations");
}
