//! A tool that looks up an example of a category, and how it answers a call.
use vstd::prelude::*;
use vstd::string::*;

use crate::apis::message::{optional_view, Message, MessageView, Role};
use crate::apis::tool::{ToolCall, ToolCallView};
use crate::outside::{
    json_chars, json_object_text, json_string_member, law_json_character,
    law_json_text_is_written_one_by_one, object_text, string_member,
};

verus! {

/// What a lookup gives: one member of a JSON object, which is `result` or `error`.
#[derive(Debug)]
pub enum LookupResult {
    Found(String),
    Unknown(String),
}

impl LookupResult {
    /// The name of the member.
    pub open spec fn member(&self) -> Seq<char> {
        match self {
            LookupResult::Found(_) => "result"@,
            LookupResult::Unknown(_) => "error"@,
        }
    }

    /// The text that the member holds.
    pub open spec fn text(&self) -> Seq<char> {
        match self {
            LookupResult::Found(text) => text@,
            LookupResult::Unknown(text) => text@,
        }
    }
}

/// Whether `result` is what the lookup of `kind` gives.
pub open spec fn is_lookup_of(kind: Seq<char>, result: LookupResult) -> bool {
    if kind == "color"@ {
        result is Found && result.text() == "red"@
    } else if kind == "fruit"@ {
        result is Found && result.text() == "apple"@
    } else {
        result is Unknown && result.text() == "unknown kind: "@ + kind
    }
}

/// The JSON text that the lookup of `kind` is answered with.
pub open spec fn lookup_json(kind: Seq<char>) -> Seq<char> {
    if kind == "color"@ {
        json_object_text("result"@, "red"@)
    } else if kind == "fruit"@ {
        json_object_text("result"@, "apple"@)
    } else {
        json_object_text("error"@, "unknown kind: "@ + kind)
    }
}

/// The kind that is looked up where the arguments name `asked`, or none.
pub open spec fn kind_of(asked: Option<Seq<char>>) -> Seq<char> {
    match asked {
        Some(kind) => kind,
        None => "<missing>"@,
    }
}

/// The message that carries a tool's result, as JSON text, back to the model.
pub open spec fn tool_message(id: Seq<char>, json: Seq<char>) -> MessageView {
    MessageView {
        role: Role::Tool,
        content: json,
        tool_calls: None,
        tool_call_id: Some(id),
        reasoning_content: None,
    }
}

/// The message that a tool call is answered with.
pub open spec fn answer(call: ToolCallView) -> MessageView {
    tool_message(
        call.id,
        lookup_json(kind_of(json_string_member(call.function.arguments, "kind"@))),
    )
}

/// Looks up the example of a kind: there is one for `color` and one for `fruit`.
pub fn run_lookup(kind: &str) -> (result: LookupResult)
    ensures
        is_lookup_of(kind@, result),
        kind@ == "color"@ ==> result is Found && result->Found_0@ == "red"@,
        kind@ == "fruit"@ ==> result is Found && result->Found_0@ == "apple"@,
        kind@ != "color"@ && kind@ != "fruit"@ ==> result is Unknown && result->Unknown_0@
            == "unknown kind: "@ + kind@,
{
    proof {
        lemma_kinds_differ();
    }
    let kind = kind.to_string();
    if kind == "color".to_string() {
        LookupResult::Found("red".to_string())
    } else if kind == "fruit".to_string() {
        LookupResult::Found("apple".to_string())
    } else {
        let mut text = "unknown kind: ".to_string();
        text.append(kind.as_str());
        LookupResult::Unknown(text)
    }
}

impl LookupResult {
    /// The result as JSON text.
    pub fn to_json(&self) -> (json: String)
        ensures
            json@ == json_object_text(self.member(), self.text()),
            match self {
                LookupResult::Found(text) => json@ == "{\"result\":\""@ + json_chars(text@)
                    + "\"}"@,
                LookupResult::Unknown(text) => json@ == "{\"error\":\""@ + json_chars(text@)
                    + "\"}"@,
            },
    {
        proof {
            lemma_object_text(self.text());
        }
        match self {
            LookupResult::Found(text) => object_text("result", text.as_str()),
            LookupResult::Unknown(text) => object_text("error", text.as_str()),
        }
    }
}

/// The kind to look up, from what the arguments hold under `kind`.
pub fn kind_or_missing(asked: Option<String>) -> (kind: String)
    ensures
        kind@ == kind_of(optional_view(asked)),
        asked is Some ==> kind == asked->0,
        asked is None ==> kind@ == "<missing>"@,
{
    match asked {
        Some(kind) => kind,
        None => "<missing>".to_string(),
    }
}

/// The kind that a call asks for: the string under `kind` in its arguments, or `<missing>` where
/// there is none.
pub fn requested_kind(call: &ToolCall) -> (kind: String)
    ensures
        kind@ == kind_of(json_string_member(call@.function.arguments, "kind"@)),
        match json_string_member(call.function.arguments@, "kind"@) {
            Some(asked) => kind@ == asked,
            None => kind@ == "<missing>"@,
        },
{
    kind_or_missing(string_member(call.function.arguments.as_str(), "kind"))
}

/// Wraps a tool's result as a message of the role `Tool`, tied to the call by its id.
pub fn tool_response(call: &ToolCall, result: &LookupResult) -> (message: Message)
    ensures
        message@ == tool_message(call@.id, json_object_text(result.member(), result.text())),
        message.role is Tool,
        message.tool_call_id == Some(call.id),
        message.tool_calls is None,
        message.reasoning_content is None,
        match result {
            LookupResult::Found(text) => message.content@ == "{\"result\":\""@ + json_chars(text@)
                + "\"}"@,
            LookupResult::Unknown(text) => message.content@ == "{\"error\":\""@ + json_chars(text@)
                + "\"}"@,
        },
{
    Message {
        role: Role::Tool,
        content: result.to_json(),
        tool_calls: None,
        tool_call_id: Some(call.id.clone()),
        reasoning_content: None,
    }
}

/// Looks up what a call asks for, and answers it.
pub fn answer_call(call: &ToolCall) -> (message: Message)
    ensures
        message@ == answer(call@),
        message.role is Tool,
        message.tool_call_id == Some(call.id),
        message.tool_calls is None,
        message.reasoning_content is None,
        match json_string_member(call.function.arguments@, "kind"@) {
            Some(kind) => {
                &&& kind == "color"@ ==> message.content@ == "{\"result\":\"red\"}"@
                &&& kind == "fruit"@ ==> message.content@ == "{\"result\":\"apple\"}"@
                &&& kind != "color"@ && kind != "fruit"@ ==> message.content@
                    == "{\"error\":\"unknown kind: "@ + json_chars(kind) + "\"}"@
            },
            None => message.content@ == "{\"error\":\"unknown kind: <missing>\"}"@,
        },
{
    proof {
        law_lookup_is_answered(json_string_member(call.function.arguments@, "kind"@));
    }
    let kind = requested_kind(call);
    let result = run_lookup(kind.as_str());
    tool_response(call, &result)
}

proof fn lemma_kinds_differ()
    ensures
        "color"@ != "fruit"@,
        "<missing>"@ != "color"@,
        "<missing>"@ != "fruit"@,
{
    reveal_strlit("color");
    reveal_strlit("fruit");
    reveal_strlit("<missing>");
    assert("color"@[0] != "fruit"@[0]);
    assert("<missing>"@[0] != "color"@[0]);
    assert("<missing>"@[0] != "fruit"@[0]);
}

/// A text without quotation marks, backslashes and control characters is written as it is.
proof fn lemma_plain_text(text: Seq<char>)
    requires
        forall|i: int|
            0 <= i < text.len() ==> (#[trigger] text[i]) as int >= 32 && text[i] != '"' && text[i]
                != '\\',
    ensures
        json_chars(text) == text,
    decreases text.len(),
{
    if text.len() > 0 {
        let before = text.drop_last();
        assert forall|i: int| 0 <= i < before.len() implies (#[trigger] before[i]) as int >= 32
            && before[i] != '"' && before[i] != '\\' by {
            assert(before[i] == text[i]);
        }
        lemma_plain_text(before);
        law_json_text_is_written_one_by_one(before, seq![text.last()]);
        law_json_character(text.last());
        assert(text[text.len() - 1] == text.last());
        assert(before + seq![text.last()] == text);
    }
}

/// The two objects that a lookup is answered with.
proof fn lemma_object_text(text: Seq<char>)
    ensures
        json_object_text("result"@, text) == "{\"result\":\""@ + json_chars(text) + "\"}"@,
        json_object_text("error"@, text) == "{\"error\":\""@ + json_chars(text) + "\"}"@,
{
    reveal_strlit("result");
    reveal_strlit("error");
    lemma_plain_text("result"@);
    lemma_plain_text("error"@);
    reveal_strlit("{\"");
    reveal_strlit("\":\"");
    reveal_strlit("{\"result\":\"");
    reveal_strlit("{\"error\":\"");
    assert("{\""@ + "result"@ + "\":\""@ == "{\"result\":\""@);
    assert("{\""@ + "error"@ + "\":\""@ == "{\"error\":\""@);
}

/// A call that asks for a color is answered with red, one that asks for a fruit with an apple;
/// one that asks for anything else is told so, and one that asks for nothing is told that.
pub proof fn law_lookup_is_answered(asked: Option<Seq<char>>)
    ensures
        match asked {
            Some(kind) => {
                &&& kind == "color"@ ==> lookup_json(kind_of(asked)) == "{\"result\":\"red\"}"@
                &&& kind == "fruit"@ ==> lookup_json(kind_of(asked)) == "{\"result\":\"apple\"}"@
                &&& kind != "color"@ && kind != "fruit"@ ==> lookup_json(kind_of(asked))
                    == "{\"error\":\"unknown kind: "@ + json_chars(kind) + "\"}"@
            },
            None => lookup_json(kind_of(asked)) == "{\"error\":\"unknown kind: <missing>\"}"@,
        },
{
    lemma_kinds_differ();
    reveal_strlit("red");
    reveal_strlit("apple");
    reveal_strlit("<missing>");
    reveal_strlit("unknown kind: ");
    reveal_strlit("\"}");
    reveal_strlit("{\"result\":\"");
    reveal_strlit("{\"error\":\"");
    reveal_strlit("{\"result\":\"red\"}");
    reveal_strlit("{\"result\":\"apple\"}");
    reveal_strlit("{\"error\":\"unknown kind: ");
    reveal_strlit("{\"error\":\"unknown kind: <missing>\"}");
    lemma_plain_text("red"@);
    lemma_plain_text("apple"@);
    lemma_plain_text("<missing>"@);
    lemma_plain_text("unknown kind: "@);
    let kind = kind_of(asked);
    lemma_object_text("red"@);
    lemma_object_text("apple"@);
    lemma_object_text("unknown kind: "@ + kind);
    law_json_text_is_written_one_by_one("unknown kind: "@, kind);
    assert("{\"result\":\""@ + "red"@ + "\"}"@ == "{\"result\":\"red\"}"@);
    assert("{\"result\":\""@ + "apple"@ + "\"}"@ == "{\"result\":\"apple\"}"@);
    assert("{\"error\":\""@ + ("unknown kind: "@ + json_chars(kind)) + "\"}"@
        == "{\"error\":\"unknown kind: "@ + json_chars(kind) + "\"}"@);
    assert("{\"error\":\"unknown kind: "@ + "<missing>"@ + "\"}"@
        == "{\"error\":\"unknown kind: <missing>\"}"@);
}

}
