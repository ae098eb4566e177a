//! Functions that a model may call, and its calls of them.
use vstd::prelude::*;

verus! {

/// A function that the model may call, as it is offered in a request.
#[derive(Debug)]
pub struct Tool {
    /// What the tool is. The member's name on the wire is `type`.
    pub kind: String,
    pub function: FunctionDeclaration,
}

/// What a model is told of a function.
#[derive(Debug)]
pub struct FunctionDeclaration {
    pub name: String,
    pub description: Option<String>,
    /// JSON Schema describing the function's parameters object.
    pub parameters: serde_json::Value,
}

/// A call that the model asks for, as it stands in an assistant message.
#[derive(Debug)]
pub struct ToolCall {
    pub id: String,
    /// What the called tool is. The member's name on the wire is `type`.
    pub kind: String,
    pub function: FunctionCall,
}

/// The function of a call, with its arguments.
#[derive(Debug)]
pub struct FunctionCall {
    pub name: String,
    /// The call's arguments as JSON text: a string that holds an object, not the object itself.
    pub arguments: String,
}

/// The characters of a [`FunctionCall`].
pub struct FunctionCallView {
    pub name: Seq<char>,
    pub arguments: Seq<char>,
}

/// The characters of a [`ToolCall`].
pub struct ToolCallView {
    pub id: Seq<char>,
    pub kind: Seq<char>,
    pub function: FunctionCallView,
}

impl View for FunctionCall {
    type V = FunctionCallView;

    open spec fn view(&self) -> FunctionCallView {
        FunctionCallView { name: self.name@, arguments: self.arguments@ }
    }
}

impl View for ToolCall {
    type V = ToolCallView;

    open spec fn view(&self) -> ToolCallView {
        ToolCallView { id: self.id@, kind: self.kind@, function: self.function@ }
    }
}

impl Clone for Tool {
    fn clone(&self) -> (res: Self)
        ensures
            res == *self,
    {
        Tool { kind: self.kind.clone(), function: self.function.clone() }
    }
}

impl Clone for FunctionDeclaration {
    fn clone(&self) -> (res: Self)
        ensures
            res == *self,
    {
        FunctionDeclaration {
            name: self.name.clone(),
            description: self.description.clone(),
            parameters: self.parameters.clone(),
        }
    }
}

impl Clone for ToolCall {
    fn clone(&self) -> (res: Self)
        ensures
            res == *self,
    {
        ToolCall { id: self.id.clone(), kind: self.kind.clone(), function: self.function.clone() }
    }
}

impl Clone for FunctionCall {
    fn clone(&self) -> (res: Self)
        ensures
            res == *self,
    {
        FunctionCall { name: self.name.clone(), arguments: self.arguments.clone() }
    }
}

impl Tool {
    /// The tool that is a function.
    pub fn function(decl: FunctionDeclaration) -> (tool: Self)
        ensures
            tool.kind@ == "function"@,
            tool.function == decl,
    {
        Tool { kind: "function".to_string(), function: decl }
    }
}

/// What a called tool is where the call does not say so.
pub fn default_tool_call_type() -> (kind: String)
    ensures
        kind@ == "function"@,
{
    "function".to_string()
}

}
