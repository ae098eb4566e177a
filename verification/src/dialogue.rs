//! A conversation in which the model may call the lookup tool before it answers.
use vstd::prelude::*;

use crate::apis::message::{Choice, ChoiceView, Message, MessageView, Role};
use crate::apis::tool::{ToolCall, ToolCallView};
use crate::apis::wire::{law_message_is_echoed, message_read, message_written, WireMessageView};
use crate::lookup::{answer, answer_call, law_lookup_is_answered};
use crate::outside::{json_chars, json_string_member};

verus! {

/// The number of requests after which the conversation is given up.
pub const MAX_TURNS: u32 = 6;

/// What is wrong with a reply that holds no message.
#[derive(Debug)]
pub enum ReplyError {
    NoChoices,
    MissingMessage,
}

/// What is to be done next.
#[derive(Debug)]
pub enum Action {
    /// Send the history to the model.
    Send,
    /// The model has answered with this text.
    Finish(String),
    /// The model still calls tools, and no request is left.
    GiveUp,
}

/// The history of a conversation, and the number of the request that is under way.
#[derive(Debug)]
pub struct Dialogue {
    pub messages: Vec<Message>,
    pub turn: u32,
}

/// The contents of messages.
pub open spec fn message_views(messages: Seq<Message>) -> Seq<MessageView> {
    messages.map_values(|message: Message| message@)
}

/// The contents of choices.
pub open spec fn choice_views(choices: Seq<Choice>) -> Seq<ChoiceView> {
    choices.map_values(|choice: Choice| choice@)
}

/// The message that a reply holds: that of its first choice.
pub open spec fn reply_of(choices: Seq<ChoiceView>) -> Result<MessageView, ReplyError> {
    if choices.len() == 0 {
        Err(ReplyError::NoChoices)
    } else {
        match choices[0].message {
            Some(message) => Ok(message),
            None => Err(ReplyError::MissingMessage),
        }
    }
}

/// The tool calls of a message, of which there may be none.
pub open spec fn calls_of(message: MessageView) -> Seq<ToolCallView> {
    match message.tool_calls {
        Some(calls) => calls,
        None => Seq::empty(),
    }
}

/// The answers to tool calls, in their order.
pub open spec fn answers(calls: Seq<ToolCallView>) -> Seq<MessageView> {
    calls.map_values(|call: ToolCallView| answer(call))
}

/// The history after a message of the model: the message itself, then the answers to its calls.
pub open spec fn history_after(history: Seq<MessageView>, message: MessageView) -> Seq<
    MessageView,
> {
    history.push(message) + answers(calls_of(message))
}

impl ReplyError {
    /// The error in words.
    pub fn text(&self) -> (text: &'static str)
        ensures
            text@ == match self {
                ReplyError::NoChoices => "no choices returned"@,
                ReplyError::MissingMessage => "choice missing message"@,
            },
    {
        match self {
            ReplyError::NoChoices => "no choices returned",
            ReplyError::MissingMessage => "choice missing message",
        }
    }
}

/// The message of the first choice of a reply.
pub fn first_message(choices: Vec<Choice>) -> (message: Result<Message, ReplyError>)
    ensures
        match message {
            Ok(m) => reply_of(choice_views(choices@)) == Ok::<MessageView, ReplyError>(m@),
            Err(e) => reply_of(choice_views(choices@)) == Err::<MessageView, ReplyError>(e),
        },
        choices@.len() == 0 ==> message == Err::<Message, ReplyError>(ReplyError::NoChoices),
        choices@.len() > 0 ==> message == match choices@[0].message {
            Some(m) => Ok::<Message, ReplyError>(m),
            None => Err(ReplyError::MissingMessage),
        },
{
    let mut rest = choices;
    if rest.len() == 0 {
        return Err(ReplyError::NoChoices);
    }
    let first = rest.remove(0);
    match first.message {
        Some(message) => Ok(message),
        None => Err(ReplyError::MissingMessage),
    }
}

/// Appends the answers to tool calls, in their order, to a history.
fn append_answers(messages: &mut Vec<Message>, calls: &Vec<ToolCall>)
    ensures
        message_views(final(messages)@) == message_views(old(messages)@) + answers(
            calls@.map_values(|call: ToolCall| call@),
        ),
        final(messages)@.len() == old(messages)@.len() + calls@.len(),
        final(messages)@.take(old(messages)@.len() as int) == old(messages)@,
        forall|i: int|
            #![trigger final(messages)@[old(messages)@.len() + i]]
            0 <= i < calls@.len() ==> {
                let added = final(messages)@[old(messages)@.len() + i];
                &&& added.role is Tool
                &&& added.tool_call_id == Some(calls@[i].id)
                &&& added.tool_calls is None
                &&& added.reasoning_content is None
                &&& match json_string_member(calls@[i].function.arguments@, "kind"@) {
                    Some(kind) => {
                        &&& kind == "color"@ ==> added.content@ == "{\"result\":\"red\"}"@
                        &&& kind == "fruit"@ ==> added.content@ == "{\"result\":\"apple\"}"@
                        &&& kind != "color"@ && kind != "fruit"@ ==> added.content@ == "{\"error\":\"unknown kind: "@
                            + json_chars(kind) + "\"}"@
                    },
                    None => added.content@ == "{\"error\":\"unknown kind: <missing>\"}"@,
                }
            },
{
    let ghost earlier = messages@;
    let ghost before = message_views(messages@);
    let ghost asked = calls@.map_values(|call: ToolCall| call@);
    assert(before + answers(asked.take(0)) == before);
    let mut i: usize = 0;
    while i < calls.len()
        invariant
            i <= calls@.len(),
            asked == calls@.map_values(|call: ToolCall| call@),
            message_views(messages@) == before + answers(asked.take(i as int)),
            messages@.len() == earlier.len() + i,
            messages@.take(earlier.len() as int) == earlier,
            forall|k: int|
                #![trigger messages@[earlier.len() + k]]
                0 <= k < i ==> {
                    let added = messages@[earlier.len() + k];
                    &&& added.role is Tool
                    &&& added.tool_call_id == Some(calls@[k].id)
                    &&& added.tool_calls is None
                    &&& added.reasoning_content is None
                    &&& match json_string_member(calls@[k].function.arguments@, "kind"@) {
                        Some(kind) => {
                            &&& kind == "color"@ ==> added.content@ == "{\"result\":\"red\"}"@
                            &&& kind == "fruit"@ ==> added.content@ == "{\"result\":\"apple\"}"@
                            &&& kind != "color"@ && kind != "fruit"@ ==> added.content@ == "{\"error\":\"unknown kind: "@
                                + json_chars(kind) + "\"}"@
                        },
                        None => added.content@ == "{\"error\":\"unknown kind: <missing>\"}"@,
                    }
                },
        decreases calls@.len() - i,
    {
        let ghost so_far = messages@;
        let message = answer_call(&calls[i]);
        messages.push(message);
        proof {
            assert(messages@.take(earlier.len() as int) == so_far.take(earlier.len() as int));
            assert(message_views(messages@) == message_views(so_far).push(answer(asked[i as int])));
            assert(answers(asked.take(i + 1)) == answers(asked.take(i as int)).push(
                answer(asked[i as int]),
            ));
        }
        i = i + 1;
    }
    assert(asked.take(i as int) == asked);
}

impl Dialogue {
    /// The conversation that starts with what the user asks.
    pub fn start(prompt: &str) -> (dialogue: Dialogue)
        ensures
            dialogue.turn == 1,
            message_views(dialogue.messages@) == seq![
                MessageView {
                    role: Role::User,
                    content: prompt@,
                    tool_calls: None,
                    tool_call_id: None,
                    reasoning_content: None,
                },
            ],
            dialogue.messages@.len() == 1,
            dialogue.messages@[0].role is User,
            dialogue.messages@[0].content@ == prompt@,
            dialogue.messages@[0].tool_calls is None,
            dialogue.messages@[0].tool_call_id is None,
            dialogue.messages@[0].reasoning_content is None,
    {
        let mut messages: Vec<Message> = Vec::new();
        messages.push(Message::new(Role::User, prompt));
        Dialogue { messages, turn: 1 }
    }

    /// Takes in a reply: appends the model's message to the history, and the answers to its tool
    /// calls after it. Without tool calls, the conversation is over. A reply without a message
    /// leaves the conversation as it is.
    pub fn receive(&mut self, choices: Vec<Choice>) -> (action: Result<Action, ReplyError>)
        ensures
            match (reply_of(choice_views(choices@)), action) {
                (Ok(reply), Ok(a)) => {
                    &&& message_views(final(self).messages@) == history_after(
                        message_views(old(self).messages@),
                        reply,
                    )
                    &&& if calls_of(reply).len() == 0 {
                        &&& final(self).turn == old(self).turn
                        &&& a is Finish && a->Finish_0@ == reply.content
                    } else if old(self).turn < MAX_TURNS {
                        &&& final(self).turn == old(self).turn + 1
                        &&& a is Send
                    } else {
                        &&& final(self).turn == old(self).turn
                        &&& a is GiveUp
                    }
                },
                (Err(wrong), Err(e)) => e == wrong && *final(self) == *old(self),
                _ => false,
            },
            action is Ok <==> choices@.len() > 0 && choices@[0].message is Some,
            match action {
                Ok(a) => {
                    let n = old(self).messages@.len();
                    let reply = choices@[0].message->0;
                    let calls = if reply.tool_calls is Some {
                        reply.tool_calls->0@
                    } else {
                        Seq::empty()
                    };
                    let echo = final(self).messages@[n as int];
                    &&& final(self).messages@.len() == n + 1 + calls.len()
                    &&& final(self).messages@.take(n as int) == old(self).messages@
                    &&& echo.role == reply.role
                    &&& echo.content == reply.content
                    &&& echo.tool_calls is Some == reply.tool_calls is Some
                    &&& reply.tool_calls is Some ==> echo.tool_calls->0@ == reply.tool_calls->0@
                    &&& echo.tool_call_id == reply.tool_call_id
                    &&& echo.reasoning_content == reply.reasoning_content
                    &&& forall|i: int|
                        #![trigger final(self).messages@[n + 1 + i]]
                        0 <= i < calls.len() ==> {
                            let added = final(self).messages@[n + 1 + i];
                            &&& added.role is Tool
                            &&& added.tool_call_id == Some(calls[i].id)
                            &&& added.tool_calls is None
                            &&& added.reasoning_content is None
                            &&& match json_string_member(calls[i].function.arguments@, "kind"@) {
                                Some(kind) => {
                                    &&& kind == "color"@ ==> added.content@ == "{\"result\":\"red\"}"@
                                    &&& kind == "fruit"@ ==> added.content@ == "{\"result\":\"apple\"}"@
                                    &&& kind != "color"@ && kind != "fruit"@ ==> added.content@ == "{\"error\":\"unknown kind: "@
                                        + json_chars(kind) + "\"}"@
                                },
                                None => added.content@ == "{\"error\":\"unknown kind: <missing>\"}"@,
                            }
                        }
                    &&& calls.len() == 0 ==> a == Action::Finish(reply.content)
                    &&& calls.len() > 0 && old(self).turn < 6 ==> a is Send
                    &&& calls.len() > 0 && old(self).turn >= 6 ==> a is GiveUp
                    &&& final(self).turn == old(self).turn + if a is Send {
                        1int
                    } else {
                        0
                    }
                },
                Err(e) => {
                    &&& e is NoChoices <==> choices@.len() == 0
                    &&& *final(self) == *old(self)
                },
            },
    {
        let message = match first_message(choices) {
            Ok(message) => message,
            Err(e) => return Err(e),
        };
        let ghost earlier = self.messages@;
        let ghost before = message_views(self.messages@);
        self.messages.push(message.clone());
        let ghost echoed = self.messages@;
        assert(echoed.take(earlier.len() as int) == earlier);
        assert(message_views(self.messages@) == before.push(message@));
        if let Some(calls) = &message.tool_calls {
            if calls.len() > 0 {
                append_answers(&mut self.messages, calls);
                proof {
                    let all = self.messages@;
                    assert(all.take(earlier.len() as int) == all.take(echoed.len() as int).take(
                        earlier.len() as int,
                    ));
                    assert(all[earlier.len() as int] == all.take(echoed.len() as int)[earlier.len()
                        as int]);
                    assert forall|i: int|
                        #![trigger all[earlier.len() + 1 + i]]
                        0 <= i < calls@.len() implies {
                        let added = all[earlier.len() + 1 + i];
                        &&& added.role is Tool
                        &&& added.tool_call_id == Some(calls@[i].id)
                        &&& added.tool_calls is None
                        &&& added.reasoning_content is None
                        &&& match json_string_member(calls@[i].function.arguments@, "kind"@) {
                            Some(kind) => {
                                &&& kind == "color"@ ==> added.content@ == "{\"result\":\"red\"}"@
                                &&& kind == "fruit"@ ==> added.content@ == "{\"result\":\"apple\"}"@
                                &&& kind != "color"@ && kind != "fruit"@ ==> added.content@ == "{\"error\":\"unknown kind: "@
                                    + json_chars(kind) + "\"}"@
                            },
                            None => added.content@ == "{\"error\":\"unknown kind: <missing>\"}"@,
                        }
                    } by {
                        assert(all[earlier.len() + 1 + i] == all[echoed.len() + i]);
                    }
                }
                assert(message_views(self.messages@) == history_after(before, message@));
                if self.turn < MAX_TURNS {
                    self.turn = self.turn + 1;
                    return Ok(Action::Send);
                } else {
                    return Ok(Action::GiveUp);
                }
            }
        }
        assert(history_after(before, message@) == before.push(message@));
        Ok(Action::Finish(message.content))
    }
}

/// The history before a message of the model stays as it was, and the message itself is kept
/// whole: its reasoning content goes out with the next request as it came in.
pub proof fn law_reply_is_echoed(history: Seq<MessageView>, wire: WireMessageView)
    requires
        message_read(wire) is Some,
    ensures
        ({
            let message = message_read(wire)->0;
            let after = history_after(history, message);
            &&& after.take(history.len() as int) == history
            &&& after[history.len() as int] == message
            &&& message_written(after[history.len() as int]).reasoning_content
                == wire.reasoning_content
        }),
{
    let message = message_read(wire)->0;
    assert(history_after(history, message).take(history.len() as int) == history);
    law_message_is_echoed(wire);
}

/// Every tool call of a message is answered, in the order of the calls, by a message of the role
/// `Tool` that bears the id of the call and what the arguments of the same call ask for; nothing
/// else is added, and nothing at all where there are no calls.
pub proof fn law_calls_are_answered(history: Seq<MessageView>, message: MessageView)
    ensures
        ({
            let after = history_after(history, message);
            let first = history.len() + 1;
            match message.tool_calls {
                Some(calls) => {
                    &&& after.len() == first + calls.len()
                    &&& forall|i: int|
                        #![trigger after[first + i]]
                        0 <= i < calls.len() ==> {
                            let reply = after[first + i];
                            &&& reply.role == Role::Tool
                            &&& reply.tool_call_id == Some(calls[i].id)
                            &&& reply.tool_calls is None
                            &&& reply.reasoning_content is None
                            &&& match json_string_member(calls[i].function.arguments, "kind"@) {
                                Some(kind) => {
                                    &&& kind == "color"@ ==> reply.content == "{\"result\":\"red\"}"@
                                    &&& kind == "fruit"@ ==> reply.content == "{\"result\":\"apple\"}"@
                                    &&& kind != "color"@ && kind != "fruit"@ ==> reply.content == "{\"error\":\"unknown kind: "@
                                        + json_chars(kind) + "\"}"@
                                },
                                None => reply.content == "{\"error\":\"unknown kind: <missing>\"}"@,
                            }
                        }
                },
                None => after == history.push(message),
            }
        }),
{
    let after = history_after(history, message);
    let first = history.len() + 1;
    match message.tool_calls {
        Some(calls) => {
            assert forall|i: int|
                #![trigger after[first + i]]
                0 <= i < calls.len() implies {
                let reply = after[first + i];
                &&& reply.role == Role::Tool
                &&& reply.tool_call_id == Some(calls[i].id)
                &&& reply.tool_calls is None
                &&& reply.reasoning_content is None
                &&& match json_string_member(calls[i].function.arguments, "kind"@) {
                    Some(kind) => {
                        &&& kind == "color"@ ==> reply.content == "{\"result\":\"red\"}"@
                        &&& kind == "fruit"@ ==> reply.content == "{\"result\":\"apple\"}"@
                        &&& kind != "color"@ && kind != "fruit"@ ==> reply.content == "{\"error\":\"unknown kind: "@
                            + json_chars(kind) + "\"}"@
                    },
                    None => reply.content == "{\"error\":\"unknown kind: <missing>\"}"@,
                }
            } by {
                assert(after[first + i] == answer(calls[i]));
                law_lookup_is_answered(json_string_member(calls[i].function.arguments, "kind"@));
            }
        },
        None => {
            assert(after == history.push(message));
        },
    }
}

}
