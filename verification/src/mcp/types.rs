//! The messages of the Model Context Protocol, as plain data.
use vstd::prelude::*;
use crate::json::JsonValue;

verus! {

/// What the client announces it supports (nothing beyond the base protocol).
#[derive(Debug, Clone, PartialEq, Default)]
pub struct ClientCapabilities {}

/// The server offers tools.
#[derive(Debug, Clone, PartialEq, Default)]
pub struct ToolsCapability {}

/// The server offers resources.
#[derive(Debug, Clone, PartialEq, Default)]
pub struct ResourcesCapability {}

/// The server offers prompts.
#[derive(Debug, Clone, PartialEq, Default)]
pub struct PromptsCapability {}

/// What a server announces it supports.
#[derive(Debug, Clone, PartialEq, Default)]
pub struct ServerCapabilities {
    pub tools: Option<ToolsCapability>,
    pub resources: Option<ResourcesCapability>,
    pub prompts: Option<PromptsCapability>,
}

/// The name and version of a client or server.
#[derive(Debug, Clone, PartialEq)]
pub struct Implementation {
    pub name: String,
    pub version: String,
}

/// The parameters of the `initialize` request.
#[derive(Debug, Clone, PartialEq)]
pub struct InitializeParams {
    pub protocol_version: String,
    pub capabilities: ClientCapabilities,
    pub client_info: Implementation,
}

/// The result of the `initialize` request.
#[derive(Debug, Clone, PartialEq)]
pub struct InitializeResult {
    pub protocol_version: String,
    pub capabilities: ServerCapabilities,
    pub server_info: Implementation,
}

/// A tool a server advertises.
#[derive(Debug, PartialEq)]
pub struct McpToolInfo {
    pub name: String,
    pub description: Option<String>,
    pub input_schema: JsonValue,
}

/// The result of a tool call.
#[derive(Debug, Clone, PartialEq)]
pub struct McpToolCallResult {
    pub content: Vec<McpContent>,
    pub is_error: Option<bool>,
}

/// One item of content; `content_type` is the wire field `type`.
#[derive(Debug, Clone, PartialEq)]
pub struct McpContent {
    pub content_type: String,
    pub text: Option<String>,
}

/// A resource a server offers.
#[derive(Debug, Clone, PartialEq)]
pub struct McpResource {
    pub uri: String,
    pub name: String,
    pub description: Option<String>,
    pub mime_type: Option<String>,
}

/// The content of a resource that was read.
#[derive(Debug, Clone, PartialEq)]
pub struct McpResourceContent {
    pub uri: String,
    pub mime_type: Option<String>,
    pub text: Option<String>,
}

/// An argument a prompt takes.
#[derive(Debug, Clone, PartialEq)]
pub struct McpPromptArgument {
    pub name: String,
    pub description: Option<String>,
    pub required: Option<bool>,
}

/// A prompt a server offers.
#[derive(Debug, Clone, PartialEq)]
pub struct McpPrompt {
    pub name: String,
    pub description: Option<String>,
    pub arguments: Option<Vec<McpPromptArgument>>,
}

/// One message of a prompt.
#[derive(Debug, Clone, PartialEq)]
pub struct McpPromptMessage {
    pub role: String,
    pub content: McpContent,
}

} // verus!
