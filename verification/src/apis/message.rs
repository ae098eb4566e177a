//! The turns of a conversation.
use vstd::prelude::*;

use crate::apis::tool::{ToolCall, ToolCallView};

verus! {

/// The tokens that a request took.
#[derive(Debug)]
pub struct Usage {
    pub prompt_tokens: Option<u32>,
    pub completion_tokens: Option<u32>,
    pub total_tokens: Option<u32>,
}

/// One of the answers to a request.
#[derive(Debug)]
pub struct Choice {
    pub text: Option<String>,
    pub index: u32,
    pub logprobs: Option<String>,
    pub finish_reason: Option<String>,
    pub message: Option<Message>,
}

/// One turn of a conversation.
#[derive(Debug)]
pub struct Message {
    pub role: Role,
    /// `null` on the wire (e.g. an assistant message that holds tool calls only) is read as `""`,
    /// so that callers can index `.content` in any case. Callers that care about tool calls
    /// look at `tool_calls` instead.
    pub content: String,
    /// Present when the assistant returns one or more tool calls instead of (or alongside) text.
    pub tool_calls: Option<Vec<ToolCall>>,
    /// Set on a message of the role `Tool`, which carries a tool's result back to the model.
    /// Pairs with `ToolCall::id`.
    pub tool_call_id: Option<String>,
    /// The trace of a model's "thinking mode". A server that returns it on an assistant turn
    /// requires it to be echoed back on the next turn, and refuses the request otherwise.
    pub reasoning_content: Option<String>,
}

/// Who speaks in a turn.
#[derive(Debug)]
pub enum Role {
    System,
    Assistant,
    User,
    /// Carries a tool's result back to the model (paired with `tool_call_id`).
    Tool,
}

/// The characters of an optional string.
pub open spec fn optional_view(text: Option<String>) -> Option<Seq<char>> {
    match text {
        Some(t) => Some(t@),
        None => None,
    }
}

/// The contents of a [`Message`].
pub struct MessageView {
    pub role: Role,
    pub content: Seq<char>,
    pub tool_calls: Option<Seq<ToolCallView>>,
    pub tool_call_id: Option<Seq<char>>,
    pub reasoning_content: Option<Seq<char>>,
}

/// The contents of a [`Choice`].
pub struct ChoiceView {
    pub text: Option<Seq<char>>,
    pub index: u32,
    pub logprobs: Option<Seq<char>>,
    pub finish_reason: Option<Seq<char>>,
    pub message: Option<MessageView>,
}

impl View for Message {
    type V = MessageView;

    open spec fn view(&self) -> MessageView {
        MessageView {
            role: self.role,
            content: self.content@,
            tool_calls: match self.tool_calls {
                Some(calls) => Some(calls@.map_values(|call: ToolCall| call@)),
                None => None,
            },
            tool_call_id: optional_view(self.tool_call_id),
            reasoning_content: optional_view(self.reasoning_content),
        }
    }
}

impl View for Choice {
    type V = ChoiceView;

    open spec fn view(&self) -> ChoiceView {
        ChoiceView {
            text: optional_view(self.text),
            index: self.index,
            logprobs: optional_view(self.logprobs),
            finish_reason: optional_view(self.finish_reason),
            message: match self.message {
                Some(message) => Some(message@),
                None => None,
            },
        }
    }
}

impl Clone for Message {
    fn clone(&self) -> (res: Self)
        ensures
            res@ == self@,
            res.role == self.role,
            res.content == self.content,
            res.tool_calls is Some == self.tool_calls is Some,
            self.tool_calls is Some ==> res.tool_calls->0@ == self.tool_calls->0@,
            res.tool_call_id == self.tool_call_id,
            res.reasoning_content == self.reasoning_content,
    {
        Message {
            role: self.role.clone(),
            content: self.content.clone(),
            tool_calls: self.tool_calls.clone(),
            tool_call_id: self.tool_call_id.clone(),
            reasoning_content: self.reasoning_content.clone(),
        }
    }
}

impl Message {
    /// Convenience builder for the common case (no tool fields).
    pub fn new<C: Into<String>>(role: Role, content: C) -> (message: Self)
        ensures
            message.role == role,
            call_ensures(C::into, (content,), message.content),
            message.tool_calls is None,
            message.tool_call_id is None,
            message.reasoning_content is None,
    {
        Message {
            role,
            content: content.into(),
            tool_calls: None,
            tool_call_id: None,
            reasoning_content: None,
        }
    }
}

impl Clone for Role {
    fn clone(&self) -> (res: Self)
        ensures
            res == *self,
    {
        match self {
            Self::System => Self::System,
            Self::Assistant => Self::Assistant,
            Self::User => Self::User,
            Self::Tool => Self::Tool,
        }
    }
}

}
