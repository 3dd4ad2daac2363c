//! The messages of a conversation and the tool calls a planner asks for.

use vstd::prelude::*;

verus! {

/// An argument to be provided to a tool.
#[derive(Debug, PartialEq, Eq)]
pub struct ToolCallArgument {
    pub name: String,
    pub value: String,
}

/// The tool that is called and its arguments.
#[derive(Debug, PartialEq, Eq)]
pub struct FunctionCall {
    pub name: String,
    pub arguments: Vec<ToolCallArgument>,
}

/// A call of a tool, tagged with an identifier that its result is tagged with too.
#[derive(Debug, PartialEq, Eq)]
pub struct ToolCall {
    pub id: String,
    pub function: FunctionCall,
}

/// What the planner answered: text, tool calls, or both.
#[derive(Debug, PartialEq, Eq)]
pub struct AssistantMessage {
    pub content: Option<String>,
    pub tool_calls: Vec<ToolCall>,
}

/// A message in a chat.
#[derive(Debug, PartialEq, Eq)]
pub enum ChatMessage {
    User { content: String },
    System { content: String },
    Assistant(AssistantMessage),
    Tool { content: String, tool_call_id: String },
}

/// The names and values of a list of arguments, in order.
pub open spec fn argument_views(args: Seq<ToolCallArgument>) -> Seq<(Seq<char>, Seq<char>)> {
    Seq::new(args.len(), |i: int| (args[i].name@, args[i].value@))
}

/// The mathematical content of a [`ToolCall`].
pub struct ToolCallView {
    pub id: Seq<char>,
    pub name: Seq<char>,
    pub arguments: Seq<(Seq<char>, Seq<char>)>,
}

impl View for ToolCall {
    type V = ToolCallView;

    open spec fn view(&self) -> ToolCallView {
        ToolCallView {
            id: self.id@,
            name: self.function.name@,
            arguments: argument_views(self.function.arguments@),
        }
    }
}

/// The contents of a list of tool calls.
pub open spec fn calls_view(calls: Seq<ToolCall>) -> Seq<ToolCallView> {
    Seq::new(calls.len(), |i: int| calls[i]@)
}

/// The mathematical content of a [`ChatMessage`].
pub enum MessageView {
    User { content: Seq<char> },
    System { content: Seq<char> },
    Assistant { content: Option<Seq<char>>, tool_calls: Seq<ToolCallView> },
    Tool { content: Seq<char>, tool_call_id: Seq<char> },
}

impl View for ChatMessage {
    type V = MessageView;

    open spec fn view(&self) -> MessageView {
        match self {
            ChatMessage::User { content } => MessageView::User { content: content@ },
            ChatMessage::System { content } => MessageView::System { content: content@ },
            ChatMessage::Assistant(a) => MessageView::Assistant {
                content: match a.content {
                    Some(c) => Some(c@),
                    None => None,
                },
                tool_calls: calls_view(a.tool_calls@),
            },
            ChatMessage::Tool { content, tool_call_id } => MessageView::Tool {
                content: content@,
                tool_call_id: tool_call_id@,
            },
        }
    }
}

/// The contents of a list of messages.
pub open spec fn messages_view(messages: Seq<ChatMessage>) -> Seq<MessageView> {
    Seq::new(messages.len(), |i: int| messages[i]@)
}

} // verus!
