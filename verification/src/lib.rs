pub mod apis;
pub mod dialogue;
pub mod drafting;
pub mod lookup;
pub mod outside;
pub mod text;

pub use apis::message::{Choice, Message, Role, Usage};
pub use apis::tool::{FunctionCall, FunctionDeclaration, Tool, ToolCall};
