//! Messages as the members of JSON objects.
//!
//! A JSON reader hands over each member of an object as a plain value, and `None` for an optional
//! one that is absent or, apart from the type of a tool call, `null`. A JSON writer leaves out the
//! tool calls, the id of a tool call and the reasoning content of a message where they are `None`,
//! and writes `null` for a member of a choice that is `None`. What the members mean is decided
//! here.
use vstd::prelude::*;

use crate::apis::message::{
    optional_view, Choice, ChoiceView, Message, MessageView, Role,
};
use crate::apis::tool::{default_tool_call_type, FunctionCall, FunctionCallView, ToolCall, ToolCallView};

verus! {

/// The members of a tool call. `kind` is the member `type`.
#[derive(Debug)]
pub struct WireToolCall {
    pub id: String,
    pub kind: Option<String>,
    pub function: FunctionCall,
}

/// The members of a message.
#[derive(Debug)]
pub struct WireMessage {
    pub role: String,
    pub content: Option<String>,
    pub tool_calls: Option<Vec<WireToolCall>>,
    pub tool_call_id: Option<String>,
    pub reasoning_content: Option<String>,
}

/// The members of a choice.
#[derive(Debug)]
pub struct WireChoice {
    pub text: Option<String>,
    pub index: u32,
    pub logprobs: Option<String>,
    pub finish_reason: Option<String>,
    pub message: Option<WireMessage>,
}

/// A message names a role that there is not.
#[derive(Debug)]
pub struct UnknownRole {
    pub name: String,
}

/// The contents of a [`WireToolCall`].
pub struct WireToolCallView {
    pub id: Seq<char>,
    pub kind: Option<Seq<char>>,
    pub function: FunctionCallView,
}

/// The contents of a [`WireMessage`].
pub struct WireMessageView {
    pub role: Seq<char>,
    pub content: Option<Seq<char>>,
    pub tool_calls: Option<Seq<WireToolCallView>>,
    pub tool_call_id: Option<Seq<char>>,
    pub reasoning_content: Option<Seq<char>>,
}

/// The contents of a [`WireChoice`].
pub struct WireChoiceView {
    pub text: Option<Seq<char>>,
    pub index: u32,
    pub logprobs: Option<Seq<char>>,
    pub finish_reason: Option<Seq<char>>,
    pub message: Option<WireMessageView>,
}

impl View for WireToolCall {
    type V = WireToolCallView;

    open spec fn view(&self) -> WireToolCallView {
        WireToolCallView {
            id: self.id@,
            kind: optional_view(self.kind),
            function: self.function@,
        }
    }
}

impl View for WireMessage {
    type V = WireMessageView;

    open spec fn view(&self) -> WireMessageView {
        WireMessageView {
            role: self.role@,
            content: optional_view(self.content),
            tool_calls: match self.tool_calls {
                Some(calls) => Some(calls@.map_values(|call: WireToolCall| call@)),
                None => None,
            },
            tool_call_id: optional_view(self.tool_call_id),
            reasoning_content: optional_view(self.reasoning_content),
        }
    }
}

impl View for WireChoice {
    type V = WireChoiceView;

    open spec fn view(&self) -> WireChoiceView {
        WireChoiceView {
            text: optional_view(self.text),
            index: self.index,
            logprobs: optional_view(self.logprobs),
            finish_reason: optional_view(self.finish_reason),
            message: match self.message {
                Some(message) => Some(message@),
                None => None,
            },
        }
    }
}

/// The name of [`Role::System`] on the wire.
pub const ROLE_SYSTEM: &'static str = "system";

/// The name of [`Role::Assistant`] on the wire.
pub const ROLE_ASSISTANT: &'static str = "assistant";

/// The name of [`Role::User`] on the wire.
pub const ROLE_USER: &'static str = "user";

/// The name of [`Role::Tool`] on the wire.
pub const ROLE_TOOL: &'static str = "tool";

/// The name of a role on the wire.
pub open spec fn role_name(role: Role) -> Seq<char> {
    match role {
        Role::System => ROLE_SYSTEM@,
        Role::Assistant => ROLE_ASSISTANT@,
        Role::User => ROLE_USER@,
        Role::Tool => ROLE_TOOL@,
    }
}

/// The role that a name on the wire stands for.
pub open spec fn role_named(name: Seq<char>) -> Option<Role> {
    if name == ROLE_SYSTEM@ {
        Some(Role::System)
    } else if name == ROLE_ASSISTANT@ {
        Some(Role::Assistant)
    } else if name == ROLE_USER@ {
        Some(Role::User)
    } else if name == ROLE_TOOL@ {
        Some(Role::Tool)
    } else {
        None
    }
}

/// What is read of the member `content`.
pub open spec fn content_read(content: Option<Seq<char>>) -> Seq<char> {
    match content {
        Some(text) => text,
        None => Seq::empty(),
    }
}

/// The tool call that is read from its members.
pub open spec fn tool_call_read(wire: WireToolCallView) -> ToolCallView {
    ToolCallView {
        id: wire.id,
        kind: match wire.kind {
            Some(kind) => kind,
            None => "function"@,
        },
        function: wire.function,
    }
}

/// The members that a tool call is written as.
pub open spec fn tool_call_written(call: ToolCallView) -> WireToolCallView {
    WireToolCallView { id: call.id, kind: Some(call.kind), function: call.function }
}

/// The message that is read from its members, if they name a role.
pub open spec fn message_read(wire: WireMessageView) -> Option<MessageView> {
    match role_named(wire.role) {
        Some(role) => Some(
            MessageView {
                role,
                content: content_read(wire.content),
                tool_calls: match wire.tool_calls {
                    Some(calls) => Some(
                        calls.map_values(|call: WireToolCallView| tool_call_read(call)),
                    ),
                    None => None,
                },
                tool_call_id: wire.tool_call_id,
                reasoning_content: wire.reasoning_content,
            },
        ),
        None => None,
    }
}

/// The members that a message is written as.
pub open spec fn message_written(message: MessageView) -> WireMessageView {
    WireMessageView {
        role: role_name(message.role),
        content: Some(message.content),
        tool_calls: match message.tool_calls {
            Some(calls) => Some(calls.map_values(|call: ToolCallView| tool_call_written(call))),
            None => None,
        },
        tool_call_id: message.tool_call_id,
        reasoning_content: message.reasoning_content,
    }
}

/// The choice that is read from its members, if the message in it, where there is one, names a
/// role.
pub open spec fn choice_read(wire: WireChoiceView) -> Option<ChoiceView> {
    if wire.message is Some && message_read(wire.message->0) is None {
        None
    } else {
        Some(
            ChoiceView {
                text: wire.text,
                index: wire.index,
                logprobs: wire.logprobs,
                finish_reason: wire.finish_reason,
                message: match wire.message {
                    Some(message) => message_read(message),
                    None => None,
                },
            },
        )
    }
}

/// The members that a choice is written as.
pub open spec fn choice_written(choice: ChoiceView) -> WireChoiceView {
    WireChoiceView {
        text: choice.text,
        index: choice.index,
        logprobs: choice.logprobs,
        finish_reason: choice.finish_reason,
        message: match choice.message {
            Some(message) => Some(message_written(message)),
            None => None,
        },
    }
}

/// Reads the member `content`: what a reader that allows `null` made of it. `null` becomes the
/// empty string, and the reader's error is passed on.
pub fn deserialize_content_lenient<E>(read: Result<Option<String>, E>) -> (content: Result<
    String,
    E,
>)
    ensures
        match read {
            Ok(v) => content is Ok && content->Ok_0@ == content_read(optional_view(v)),
            Err(e) => content == Err::<String, E>(e),
        },
        match read {
            Ok(Some(text)) => content == Ok::<String, E>(text),
            Ok(None) => content is Ok && content->Ok_0@.len() == 0,
            Err(e) => content == Err::<String, E>(e),
        },
{
    match read {
        Ok(v) => Ok(v.unwrap_or_default()),
        Err(e) => Err(e),
    }
}

impl Role {
    /// The name of the role on the wire: the variant in lower case.
    pub fn wire_name(&self) -> (name: &'static str)
        ensures
            name@ == role_name(*self),
            name@ == match self {
                Role::System => "system"@,
                Role::Assistant => "assistant"@,
                Role::User => "user"@,
                Role::Tool => "tool"@,
            },
    {
        match self {
            Role::System => ROLE_SYSTEM,
            Role::Assistant => ROLE_ASSISTANT,
            Role::User => ROLE_USER,
            Role::Tool => ROLE_TOOL,
        }
    }

    /// The role of a name on the wire.
    pub fn from_wire_name(name: String) -> (role: Result<Role, UnknownRole>)
        ensures
            match role {
                Ok(r) => role_named(name@) == Some(r),
                Err(e) => role_named(name@) is None && e.name == name,
            },
            role is Err <==> name@ != "system"@ && name@ != "assistant"@ && name@ != "user"@ && name@
                != "tool"@,
            role is Ok ==> name@ == match role->Ok_0 {
                Role::System => "system"@,
                Role::Assistant => "assistant"@,
                Role::User => "user"@,
                Role::Tool => "tool"@,
            },
    {
        if name == ROLE_SYSTEM.to_string() {
            Ok(Role::System)
        } else if name == ROLE_ASSISTANT.to_string() {
            Ok(Role::Assistant)
        } else if name == ROLE_USER.to_string() {
            Ok(Role::User)
        } else if name == ROLE_TOOL.to_string() {
            Ok(Role::Tool)
        } else {
            Err(UnknownRole { name })
        }
    }
}

impl ToolCall {
    /// Reads a tool call. One that does not say what it is calls a function.
    pub fn from_wire(wire: WireToolCall) -> (call: ToolCall)
        ensures
            call@ == tool_call_read(wire@),
            call.id == wire.id,
            call.function.name == wire.function.name,
            call.function.arguments == wire.function.arguments,
            wire.kind is Some ==> call.kind == wire.kind->0,
            wire.kind is None ==> call.kind@ == "function"@,
    {
        ToolCall {
            id: wire.id,
            kind: match wire.kind {
                Some(kind) => kind,
                None => default_tool_call_type(),
            },
            function: wire.function,
        }
    }

    /// Writes a tool call.
    pub fn to_wire(&self) -> (wire: WireToolCall)
        ensures
            wire@ == tool_call_written(self@),
            wire.id == self.id,
            wire.kind == Some(self.kind),
            wire.function.name == self.function.name,
            wire.function.arguments == self.function.arguments,
    {
        WireToolCall {
            id: self.id.clone(),
            kind: Some(self.kind.clone()),
            function: self.function.clone(),
        }
    }
}

fn read_tool_calls(wire: Vec<WireToolCall>) -> (calls: Vec<ToolCall>)
    ensures
        calls@.map_values(|call: ToolCall| call@) == wire@.map_values(
            |call: WireToolCall| call@,
        ).map_values(|call: WireToolCallView| tool_call_read(call)),
        calls@.len() == wire@.len(),
        forall|i: int|
            #![trigger calls@[i]]
            0 <= i < wire@.len() ==> {
                &&& calls@[i].id == wire@[i].id
                &&& calls@[i].function.name == wire@[i].function.name
                &&& calls@[i].function.arguments == wire@[i].function.arguments
                &&& wire@[i].kind is Some ==> calls@[i].kind == wire@[i].kind->0
                &&& wire@[i].kind is None ==> calls@[i].kind@ == "function"@
            },
{
    let mut calls: Vec<ToolCall> = Vec::new();
    for w in iter: wire
        invariant
            iter.seq() == wire@,
            calls@.len() == iter.index(),
            forall|i: int| 0 <= i < calls@.len() ==> #[trigger] calls@[i]@ == tool_call_read(
                wire@[i]@,
            ),
            forall|i: int|
                #![trigger calls@[i]]
                0 <= i < calls@.len() ==> {
                    &&& calls@[i].id == wire@[i].id
                    &&& calls@[i].function.name == wire@[i].function.name
                    &&& calls@[i].function.arguments == wire@[i].function.arguments
                    &&& wire@[i].kind is Some ==> calls@[i].kind == wire@[i].kind->0
                    &&& wire@[i].kind is None ==> calls@[i].kind@ == "function"@
                },
    {
        calls.push(ToolCall::from_wire(w));
    }
    calls
}

fn write_tool_calls(calls: &Vec<ToolCall>) -> (wire: Vec<WireToolCall>)
    ensures
        wire@.map_values(|call: WireToolCall| call@) == calls@.map_values(
            |call: ToolCall| call@,
        ).map_values(|call: ToolCallView| tool_call_written(call)),
        wire@.len() == calls@.len(),
        forall|i: int|
            #![trigger wire@[i]]
            0 <= i < calls@.len() ==> {
                &&& wire@[i].id == calls@[i].id
                &&& wire@[i].kind == Some(calls@[i].kind)
                &&& wire@[i].function.name == calls@[i].function.name
                &&& wire@[i].function.arguments == calls@[i].function.arguments
            },
{
    let mut wire: Vec<WireToolCall> = Vec::new();
    for call in iter: calls.iter()
        invariant
            iter.seq().unref() == calls@,
            wire@.len() == iter.index(),
            forall|i: int| 0 <= i < wire@.len() ==> #[trigger] wire@[i]@ == tool_call_written(
                calls@[i]@,
            ),
            forall|i: int|
                #![trigger wire@[i]]
                0 <= i < wire@.len() ==> {
                    &&& wire@[i].id == calls@[i].id
                    &&& wire@[i].kind == Some(calls@[i].kind)
                    &&& wire@[i].function.name == calls@[i].function.name
                    &&& wire@[i].function.arguments == calls@[i].function.arguments
                },
    {
        wire.push(call.to_wire());
    }
    wire
}

impl Message {
    /// Reads a message. It is refused if and only if its role has no name among those of the
    /// roles.
    pub fn from_wire(wire: WireMessage) -> (message: Result<Message, UnknownRole>)
        ensures
            match message {
                Ok(m) => message_read(wire@) == Some(m@),
                Err(e) => message_read(wire@) is None && e.name@ == wire@.role,
            },
            message is Err <==> wire.role@ != "system"@ && wire.role@ != "assistant"@ && wire.role@
                != "user"@ && wire.role@ != "tool"@,
            match message {
                Ok(m) => {
                    &&& wire.role@ == match m.role {
                        Role::System => "system"@,
                        Role::Assistant => "assistant"@,
                        Role::User => "user"@,
                        Role::Tool => "tool"@,
                    }
                    &&& wire.content is Some ==> m.content == wire.content->0
                    &&& wire.content is None ==> m.content@.len() == 0
                    &&& m.tool_call_id == wire.tool_call_id
                    &&& m.reasoning_content == wire.reasoning_content
                    &&& m.tool_calls is Some == wire.tool_calls is Some
                    &&& wire.tool_calls is Some ==> {
                        let calls = m.tool_calls->0@;
                        let members = wire.tool_calls->0@;
                        &&& calls.len() == members.len()
                        &&& forall|i: int|
                            #![trigger calls[i]]
                            0 <= i < members.len() ==> {
                                &&& calls[i].id == members[i].id
                                &&& calls[i].function.name == members[i].function.name
                                &&& calls[i].function.arguments == members[i].function.arguments
                                &&& members[i].kind is Some ==> calls[i].kind == members[i].kind->0
                                &&& members[i].kind is None ==> calls[i].kind@ == "function"@
                            }
                    }
                },
                Err(e) => e.name == wire.role,
            },
    {
        let role = match Role::from_wire_name(wire.role) {
            Ok(role) => role,
            Err(e) => return Err(e),
        };
        let content = match deserialize_content_lenient::<UnknownRole>(Ok(wire.content)) {
            Ok(content) => content,
            Err(e) => return Err(e),
        };
        Ok(
            Message {
                role,
                content,
                tool_calls: match wire.tool_calls {
                    Some(calls) => Some(read_tool_calls(calls)),
                    None => None,
                },
                tool_call_id: wire.tool_call_id,
                reasoning_content: wire.reasoning_content,
            },
        )
    }

    /// Writes a message.
    pub fn to_wire(&self) -> (wire: WireMessage)
        ensures
            wire@ == message_written(self@),
            ({
                &&& wire.role@ == match self.role {
                    Role::System => "system"@,
                    Role::Assistant => "assistant"@,
                    Role::User => "user"@,
                    Role::Tool => "tool"@,
                }
                &&& wire.content == Some(self.content)
                &&& wire.tool_call_id == self.tool_call_id
                &&& wire.reasoning_content == self.reasoning_content
                &&& wire.tool_calls is Some == self.tool_calls is Some
                &&& self.tool_calls is Some ==> {
                    let calls = self.tool_calls->0@;
                    let members = wire.tool_calls->0@;
                    &&& calls.len() == members.len()
                    &&& forall|i: int|
                        #![trigger members[i]]
                        0 <= i < calls.len() ==> {
                            &&& members[i].id == calls[i].id
                            &&& members[i].kind == Some(calls[i].kind)
                            &&& members[i].function.name == calls[i].function.name
                            &&& members[i].function.arguments == calls[i].function.arguments
                        }
                }
            }),
    {
        WireMessage {
            role: self.role.wire_name().to_string(),
            content: Some(self.content.clone()),
            tool_calls: match &self.tool_calls {
                Some(calls) => Some(write_tool_calls(calls)),
                None => None,
            },
            tool_call_id: self.tool_call_id.clone(),
            reasoning_content: self.reasoning_content.clone(),
        }
    }
}

impl Choice {
    /// Reads a choice. It is refused if and only if the message in it is.
    pub fn from_wire(wire: WireChoice) -> (choice: Result<Choice, UnknownRole>)
        ensures
            match choice {
                Ok(c) => choice_read(wire@) == Some(c@),
                Err(e) => choice_read(wire@) is None && wire@.message is Some && e.name@
                    == wire@.message->0.role,
            },
            choice is Err <==> wire.message is Some && wire.message->0.role@ != "system"@
                && wire.message->0.role@ != "assistant"@ && wire.message->0.role@ != "user"@
                && wire.message->0.role@ != "tool"@,
            match choice {
                Ok(c) => {
                    &&& c.text == wire.text
                    &&& c.index == wire.index
                    &&& c.logprobs == wire.logprobs
                    &&& c.finish_reason == wire.finish_reason
                    &&& c.message is Some == wire.message is Some
                    &&& wire.message is Some ==> {
                        let m = c.message->0;
                        let w = wire.message->0;
                        &&& w.role@ == match m.role {
                            Role::System => "system"@,
                            Role::Assistant => "assistant"@,
                            Role::User => "user"@,
                            Role::Tool => "tool"@,
                        }
                        &&& w.content is Some ==> m.content == w.content->0
                        &&& w.content is None ==> m.content@.len() == 0
                        &&& m.tool_call_id == w.tool_call_id
                        &&& m.reasoning_content == w.reasoning_content
                        &&& m.tool_calls is Some == w.tool_calls is Some
                        &&& w.tool_calls is Some ==> {
                            let calls = m.tool_calls->0@;
                            let members = w.tool_calls->0@;
                            &&& calls.len() == members.len()
                            &&& forall|i: int|
                                #![trigger calls[i]]
                                0 <= i < members.len() ==> {
                                    &&& calls[i].id == members[i].id
                                    &&& calls[i].function.name == members[i].function.name
                                    &&& calls[i].function.arguments == members[i].function.arguments
                                    &&& members[i].kind is Some ==> calls[i].kind == members[i].kind->0
                                    &&& members[i].kind is None ==> calls[i].kind@ == "function"@
                                }
                        }
                    }
                },
                Err(e) => e.name == wire.message->0.role,
            },
    {
        let message = match wire.message {
            Some(m) => match Message::from_wire(m) {
                Ok(m) => Some(m),
                Err(e) => return Err(e),
            },
            None => None,
        };
        Ok(
            Choice {
                text: wire.text,
                index: wire.index,
                logprobs: wire.logprobs,
                finish_reason: wire.finish_reason,
                message,
            },
        )
    }

    /// Writes a choice.
    pub fn to_wire(&self) -> (wire: WireChoice)
        ensures
            wire@ == choice_written(self@),
            wire.text == self.text,
            wire.index == self.index,
            wire.logprobs == self.logprobs,
            wire.finish_reason == self.finish_reason,
            wire.message is Some == self.message is Some,
            self.message is Some ==> {
                let m = self.message->0;
                let w = wire.message->0;
                &&& w.role@ == match m.role {
                    Role::System => "system"@,
                    Role::Assistant => "assistant"@,
                    Role::User => "user"@,
                    Role::Tool => "tool"@,
                }
                &&& w.content == Some(m.content)
                &&& w.tool_call_id == m.tool_call_id
                &&& w.reasoning_content == m.reasoning_content
                &&& w.tool_calls is Some == m.tool_calls is Some
                &&& m.tool_calls is Some ==> {
                    let calls = m.tool_calls->0@;
                    let members = w.tool_calls->0@;
                    &&& calls.len() == members.len()
                    &&& forall|i: int|
                        #![trigger members[i]]
                        0 <= i < calls.len() ==> {
                            &&& members[i].id == calls[i].id
                            &&& members[i].kind == Some(calls[i].kind)
                            &&& members[i].function.name == calls[i].function.name
                            &&& members[i].function.arguments == calls[i].function.arguments
                        }
                }
            },
    {
        WireChoice {
            text: self.text.clone(),
            index: self.index,
            logprobs: self.logprobs.clone(),
            finish_reason: self.finish_reason.clone(),
            message: match &self.message {
                Some(m) => Some(m.to_wire()),
                None => None,
            },
        }
    }
}

/// The names of the roles differ from one another.
proof fn lemma_role_names_differ()
    ensures
        ROLE_SYSTEM@ != ROLE_ASSISTANT@,
        ROLE_SYSTEM@ != ROLE_USER@,
        ROLE_SYSTEM@ != ROLE_TOOL@,
        ROLE_ASSISTANT@ != ROLE_USER@,
        ROLE_ASSISTANT@ != ROLE_TOOL@,
        ROLE_USER@ != ROLE_TOOL@,
{
    reveal_strlit("system");
    reveal_strlit("assistant");
    reveal_strlit("user");
    reveal_strlit("tool");
    assert(ROLE_SYSTEM@.len() == 6 && ROLE_ASSISTANT@.len() == 9);
    assert(ROLE_USER@[0] != ROLE_TOOL@[0]);
}

/// A name stands for a role if and only if it is the name that the role is written as.
pub proof fn law_role_reads_back(role: Role, name: Seq<char>)
    ensures
        role_named(name) == Some(role) <==> name == role_name(role),
{
    lemma_role_names_differ();
}

/// What is read from a written tool call is the tool call.
pub proof fn law_tool_call_reads_back(call: ToolCallView)
    ensures
        tool_call_read(tool_call_written(call)) == call,
{
}

/// What is read from a written message is the message.
pub proof fn law_message_reads_back(message: MessageView)
    ensures
        message_read(message_written(message)) == Some(message),
{
    law_role_reads_back(message.role, role_name(message.role));
    if message.tool_calls is Some {
        let calls = message.tool_calls->0;
        assert(calls.map_values(|call: ToolCallView| tool_call_written(call)).map_values(
            |call: WireToolCallView| tool_call_read(call),
        ) == calls);
    }
}

/// What is read from a written choice is the choice.
pub proof fn law_choice_reads_back(choice: ChoiceView)
    ensures
        choice_read(choice_written(choice)) == Some(choice),
{
    if choice.message is Some {
        law_message_reads_back(choice.message->0);
    }
}

/// A message whose content is absent or `null` is read like one whose content is the empty
/// string.
pub proof fn law_null_content_reads_as_empty(wire: WireMessageView)
    ensures
        message_read(WireMessageView { content: None, ..wire }) == message_read(
            WireMessageView { content: Some(Seq::empty()), ..wire },
        ),
        wire.content is None && message_read(wire) is Some ==> message_read(wire)->0.content
            == Seq::<char>::empty(),
{
}

/// A tool call that does not say what it is reads like one that calls a function.
pub proof fn law_tool_call_is_a_function_by_default(wire: WireToolCallView)
    ensures
        tool_call_read(WireToolCallView { kind: None, ..wire }) == tool_call_read(
            WireToolCallView { kind: Some("function"@), ..wire },
        ),
{
}

/// A message that was read and is written again carries the role, the identifier of the tool
/// call, and the reasoning content that it came with, and the same tool calls, where each says
/// what it is. Its content is always written.
pub proof fn law_message_is_echoed(wire: WireMessageView)
    requires
        message_read(wire) is Some,
    ensures
        ({
            let echo = message_written(message_read(wire)->0);
            &&& echo.role == wire.role
            &&& echo.content == Some(content_read(wire.content))
            &&& echo.tool_call_id == wire.tool_call_id
            &&& echo.reasoning_content == wire.reasoning_content
            &&& echo.tool_calls is Some == wire.tool_calls is Some
            &&& wire.tool_calls is Some ==> {
                let calls = wire.tool_calls->0;
                &&& echo.tool_calls->0.len() == calls.len()
                &&& forall|i: int|
                    0 <= i < calls.len() ==> #[trigger] echo.tool_calls->0[i] == (
                    WireToolCallView { kind: Some(tool_call_read(calls[i]).kind), ..calls[i] })
            }
        }),
{
    law_role_reads_back(message_read(wire)->0.role, wire.role);
}

/// A message is written without the members for tools and reasoning that it does not have.
pub proof fn law_absent_members_are_left_out(message: MessageView)
    ensures
        ({
            let wire = message_written(message);
            &&& wire.content is Some
            &&& wire.tool_calls is Some == message.tool_calls is Some
            &&& wire.tool_call_id is Some == message.tool_call_id is Some
            &&& wire.reasoning_content is Some == message.reasoning_content is Some
        }),
{
}

/// Each member of a tool call is read and written under its own name: the id, the name of the
/// function and its arguments stay what they are, both ways.
pub proof fn law_tool_call_keeps_its_members(wire: WireToolCallView, call: ToolCallView)
    ensures
        tool_call_read(wire).id == wire.id,
        tool_call_read(wire).function.name == wire.function.name,
        tool_call_read(wire).function.arguments == wire.function.arguments,
        tool_call_read(wire).kind == match wire.kind {
            Some(kind) => kind,
            None => "function"@,
        },
        tool_call_written(call).id == call.id,
        tool_call_written(call).function.name == call.function.name,
        tool_call_written(call).function.arguments == call.function.arguments,
        tool_call_written(call).kind == Some(call.kind),
{
}

/// Each member of a message is read under its own name. The role is the one whose name, in lower
/// case, the message bears; there are four.
pub proof fn law_message_keeps_its_members(wire: WireMessageView)
    ensures
        message_read(wire) is Some <==> wire.role == "system"@ || wire.role == "assistant"@
            || wire.role == "user"@ || wire.role == "tool"@,
        message_read(wire) is Some ==> {
            let m = message_read(wire)->0;
            &&& wire.role == match m.role {
                Role::System => "system"@,
                Role::Assistant => "assistant"@,
                Role::User => "user"@,
                Role::Tool => "tool"@,
            }
            &&& wire.content is Some ==> m.content == wire.content->0
            &&& wire.content is None ==> m.content.len() == 0
            &&& m.tool_call_id == wire.tool_call_id
            &&& m.reasoning_content == wire.reasoning_content
            &&& m.tool_calls is Some == wire.tool_calls is Some
            &&& wire.tool_calls is Some ==> {
                let calls = m.tool_calls->0;
                let members = wire.tool_calls->0;
                &&& calls.len() == members.len()
                &&& forall|i: int|
                    #![trigger calls[i]]
                    0 <= i < members.len() ==> {
                        &&& calls[i].id == members[i].id
                        &&& calls[i].function.name == members[i].function.name
                        &&& calls[i].function.arguments == members[i].function.arguments
                    }
            }
        },
{
    lemma_role_names_differ();
}

/// Each member of a choice is read and written under its own name.
pub proof fn law_choice_keeps_its_members(wire: WireChoiceView, choice: ChoiceView)
    ensures
        choice_read(wire) is Some <==> wire.message is None || message_read(wire.message->0) is Some,
        choice_read(wire) is Some ==> {
            let c = choice_read(wire)->0;
            &&& c.text == wire.text
            &&& c.index == wire.index
            &&& c.logprobs == wire.logprobs
            &&& c.finish_reason == wire.finish_reason
            &&& c.message is Some == wire.message is Some
            &&& wire.message is Some ==> c.message == message_read(wire.message->0)
        },
        choice_written(choice).text == choice.text,
        choice_written(choice).index == choice.index,
        choice_written(choice).logprobs == choice.logprobs,
        choice_written(choice).finish_reason == choice.finish_reason,
        choice_written(choice).message is Some == choice.message is Some,
        choice.message is Some ==> choice_written(choice).message->0 == message_written(
            choice.message->0,
        ),
{
}

}
