use openai_api_rust::dialogue::{first_message, Action, Dialogue, ReplyError, MAX_TURNS};
use openai_api_rust::lookup::{
    answer_call, kind_or_missing, requested_kind, run_lookup, tool_response, LookupResult,
};
use openai_api_rust::{Choice, FunctionCall, Message, Role, ToolCall};

fn call(id: &str, arguments: &str) -> ToolCall {
    ToolCall {
        id: id.to_string(),
        kind: "function".to_string(),
        function: FunctionCall { name: "lookup".to_string(), arguments: arguments.to_string() },
    }
}

fn choice(message: Option<Message>) -> Choice {
    Choice { text: None, index: 0, logprobs: None, finish_reason: None, message }
}

fn asking(calls: Vec<ToolCall>) -> Message {
    Message {
        role: Role::Assistant,
        content: String::new(),
        tool_calls: Some(calls),
        tool_call_id: None,
        reasoning_content: Some("I should look".to_string()),
    }
}

#[test]
fn lookup_knows_a_color_and_a_fruit() {
    assert!(matches!(run_lookup("color"), LookupResult::Found(t) if t == "red"));
    assert!(matches!(run_lookup("fruit"), LookupResult::Found(t) if t == "apple"));
    assert!(matches!(run_lookup("Color"), LookupResult::Unknown(t) if t == "unknown kind: Color"));
    assert!(matches!(run_lookup(""), LookupResult::Unknown(t) if t == "unknown kind: "));
}

#[test]
fn results_are_json_objects() {
    assert_eq!(run_lookup("color").to_json(), "{\"result\":\"red\"}");
    assert_eq!(run_lookup("fruit").to_json(), "{\"result\":\"apple\"}");
    assert_eq!(run_lookup("car").to_json(), "{\"error\":\"unknown kind: car\"}");
    assert_eq!(run_lookup("a\"b\n").to_json(), "{\"error\":\"unknown kind: a\\\"b\\n\"}");
    assert_eq!(
        run_lookup("\u{0}\u{8}\t\u{b}\u{c}\r\u{1f}\u{7f}\\/").to_json(),
        "{\"error\":\"unknown kind: \\u0000\\b\\t\\u000b\\f\\r\\u001f\u{7f}\\\\/\"}"
    );
    assert_eq!(run_lookup("<é>").to_json(), "{\"error\":\"unknown kind: <é>\"}");
}

#[test]
fn kind_is_read_from_the_arguments() {
    let kind = |arguments: &str| requested_kind(&call("x", arguments));
    assert_eq!(kind("{\"kind\":\"color\"}"), "color");
    assert_eq!(kind(" { \"other\": 1, \"kind\": \"fr\\u0075it\" } "), "fruit");
    assert_eq!(kind("{\"kind\":\"a\",\"kind\":\"b\"}"), "b");
    assert_eq!(kind("{\"kind\":5}"), "<missing>");
    assert_eq!(kind("{\"kind\":null}"), "<missing>");
    assert_eq!(kind("{}"), "<missing>");
    assert_eq!(kind("[\"kind\"]"), "<missing>");
    assert_eq!(kind("not json"), "<missing>");
    assert_eq!(kind(""), "<missing>");
    assert_eq!(kind_or_missing(Some("x".to_string())), "x");
    assert_eq!(kind_or_missing(None), "<missing>");
}

#[test]
fn tool_response_is_tied_to_the_call() {
    let message = tool_response(&call("call_7", "{}"), &run_lookup("color"));
    assert!(matches!(message.role, Role::Tool));
    assert_eq!(message.tool_call_id, Some("call_7".to_string()));
    assert_eq!(message.content, "{\"result\":\"red\"}");
    assert!(message.tool_calls.is_none());
    assert!(message.reasoning_content.is_none());
}

#[test]
fn call_is_answered_with_what_it_asks_for() {
    assert_eq!(answer_call(&call("1", "{\"kind\":\"color\"}")).content, "{\"result\":\"red\"}");
    assert_eq!(answer_call(&call("1", "{\"kind\":\"fruit\"}")).content, "{\"result\":\"apple\"}");
    assert_eq!(
        answer_call(&call("1", "oops")).content,
        "{\"error\":\"unknown kind: <missing>\"}"
    );
}

#[test]
fn first_message_is_that_of_the_first_choice() {
    assert!(matches!(first_message(vec![]), Err(ReplyError::NoChoices)));
    let message = Message::new(Role::Assistant, "hi");
    assert!(matches!(
        first_message(vec![choice(None), choice(Some(message.clone()))]),
        Err(ReplyError::MissingMessage)
    ));
    let other = Message::new(Role::Assistant, "ho");
    assert_eq!(
        first_message(vec![choice(Some(message)), choice(Some(other))]).unwrap().content,
        "hi"
    );
    assert_eq!(ReplyError::NoChoices.text(), "no choices returned");
    assert_eq!(ReplyError::MissingMessage.text(), "choice missing message");
}

#[test]
fn plain_answer_finishes() {
    let mut dialogue = Dialogue::start("name them");
    assert_eq!(dialogue.turn, 1);
    assert_eq!(dialogue.messages.len(), 1);
    assert!(matches!(dialogue.messages[0].role, Role::User));
    assert_eq!(dialogue.messages[0].content, "name them");
    let reply = vec![choice(Some(Message::new(Role::Assistant, "red and apple")))];
    assert!(matches!(dialogue.receive(reply), Ok(Action::Finish(t)) if t == "red and apple"));
    assert_eq!(dialogue.messages.len(), 2);
    assert_eq!(dialogue.turn, 1);
}

#[test]
fn empty_list_of_calls_finishes() {
    let mut dialogue = Dialogue::start("name them");
    assert!(matches!(
        dialogue.receive(vec![choice(Some(asking(vec![])))]),
        Ok(Action::Finish(t)) if t.is_empty()
    ));
    assert_eq!(dialogue.messages.len(), 2);
}

#[test]
fn calls_are_answered_in_order_and_the_reply_is_kept_whole() {
    let mut dialogue = Dialogue::start("name them");
    let reply = asking(vec![
        call("a", "{\"kind\":\"color\"}"),
        call("b", "{\"kind\":\"fruit\"}"),
        call("c", "{\"kind\":\"car\"}"),
    ]);
    let sent = format!("{:?}", reply);
    assert!(matches!(dialogue.receive(vec![choice(Some(reply))]), Ok(Action::Send)));
    assert_eq!(dialogue.turn, 2);
    assert_eq!(dialogue.messages.len(), 5);
    assert_eq!(dialogue.messages[0].content, "name them");
    assert_eq!(format!("{:?}", dialogue.messages[1]), sent);
    assert_eq!(dialogue.messages[1].to_wire().reasoning_content, Some("I should look".to_string()));
    for (i, id, content) in [
        (2, "a", "{\"result\":\"red\"}"),
        (3, "b", "{\"result\":\"apple\"}"),
        (4, "c", "{\"error\":\"unknown kind: car\"}"),
    ] {
        assert!(matches!(dialogue.messages[i].role, Role::Tool));
        assert_eq!(dialogue.messages[i].tool_call_id, Some(id.to_string()));
        assert_eq!(dialogue.messages[i].content, content);
    }
}

#[test]
fn empty_reply_leaves_the_conversation_alone() {
    let mut dialogue = Dialogue::start("name them");
    assert!(matches!(dialogue.receive(vec![]), Err(ReplyError::NoChoices)));
    assert!(matches!(dialogue.receive(vec![choice(None)]), Err(ReplyError::MissingMessage)));
    assert_eq!(dialogue.messages.len(), 1);
    assert_eq!(dialogue.turn, 1);
}

#[test]
fn conversation_is_given_up_after_six_turns() {
    assert_eq!(MAX_TURNS, 6);
    let mut dialogue = Dialogue::start("name them");
    let reply = || vec![choice(Some(asking(vec![call("a", "{\"kind\":\"color\"}")])))];
    for turn in 2..7 {
        assert!(matches!(dialogue.receive(reply()), Ok(Action::Send)));
        assert_eq!(dialogue.turn, turn);
    }
    assert!(matches!(dialogue.receive(reply()), Ok(Action::GiveUp)));
    assert_eq!(dialogue.turn, 6);
    assert_eq!(dialogue.messages.len(), 13);
}
