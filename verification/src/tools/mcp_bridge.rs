//! One tool of a connected MCP server, offered to the agent under a name of its own.
use vstd::prelude::*;
use crate::hooks::audit::{join, push_joined};
use crate::multimodal::views;
use crate::json::JsonValue;
use crate::mcp::types::{McpContent, McpToolCallResult, McpToolInfo};
use crate::text::push_str;
use crate::tools::result::{fails_with, ToolResult};

verus! {

/// The agent's name for the tool `tool` of the server `server`: `mcp_<server>_<tool>`.
pub open spec fn bridged_name(server: Seq<char>, tool: Seq<char>) -> Seq<char> {
    "mcp_"@ + server + "_"@ + tool
}

/// A tool of a connected server, as the agent sees it.
pub struct McpBridgeTool {
    server_name: String,
    tool_info: McpToolInfo,
    namespaced_name: String,
}

impl McpBridgeTool {
    /// The server that hosts the tool.
    pub closed spec fn server(self) -> Seq<char> {
        self.server_name@
    }

    /// The tool as the server advertised it.
    pub closed spec fn info(self) -> McpToolInfo {
        self.tool_info
    }

    #[verifier::type_invariant]
    spec fn inv(self) -> bool {
        self.namespaced_name@ == bridged_name(self.server_name@, self.tool_info.name@)
    }

    /// Wraps the tool `tool_info` of the server `server_name`.
    pub fn new(server_name: String, tool_info: McpToolInfo) -> (r: Self)
        ensures
            r.server() == server_name@,
            r.info() == tool_info,
    {
        let mut namespaced_name = String::new();
        push_str(&mut namespaced_name, "mcp_");
        push_str(&mut namespaced_name, server_name.as_str());
        push_str(&mut namespaced_name, "_");
        push_str(&mut namespaced_name, tool_info.name.as_str());
        McpBridgeTool { server_name, tool_info, namespaced_name }
    }

    /// The agent's name for the tool, `mcp_<server>_<tool>`.
    pub fn name(&self) -> (r: &str)
        ensures
            r@ == bridged_name(self.server(), self.info().name@),
    {
        proof {
            use_type_invariant(self);
        }
        self.namespaced_name.as_str()
    }

    /// The tool's description, empty where the server gave none.
    pub fn description(&self) -> (r: &str)
        ensures
            r@ == match self.info().description {
                Some(d) => d@,
                None => Seq::empty(),
            },
    {
        match &self.tool_info.description {
            Some(d) => d.as_str(),
            None => {
                let e = "";
                proof {
                    reveal_strlit("");
                }
                e
            },
        }
    }

    /// The schema of the tool's arguments, as the server gave it.
    pub fn parameters_schema(&self) -> (r: &JsonValue)
        ensures
            *r == self.info().input_schema,
    {
        &self.tool_info.input_schema
    }

    /// The server to send the call to.
    pub fn server_name(&self) -> (r: &str)
        ensures
            r@ == self.server(),
    {
        self.server_name.as_str()
    }

    /// The tool's name on its server.
    pub fn tool_name(&self) -> (r: &str)
        ensures
            r@ == self.info().name@,
    {
        self.tool_info.name.as_str()
    }
}

/// The texts of the content items that have one, in order.
pub open spec fn content_texts(cs: Seq<McpContent>) -> Seq<Seq<char>>
    decreases cs.len(),
{
    if cs.len() == 0 {
        Seq::empty()
    } else {
        match cs.last().text {
            Some(t) => content_texts(cs.drop_last()).push(t@),
            None => content_texts(cs.drop_last()),
        }
    }
}

/// What the agent gets from a call of a bridged tool: the content's texts, one per line,
/// as output, or as the error where the result is marked as one; a call that failed gives
/// its error.
pub fn bridge_tool_result(call: Result<McpToolCallResult, String>) -> (r: ToolResult)
    ensures
        match call {
            Ok(res) => {
                let text = join(content_texts(res.content@), "\n"@);
                if res.is_error == Some(true) {
                    fails_with(r, text)
                } else {
                    r.success && r.output@ == text && r.error is None
                }
            },
            Err(e) => fails_with(r, e@),
        },
{
    match call {
        Ok(res) => {
            let mut texts: Vec<String> = Vec::new();
            let mut i: usize = 0;
            while i < res.content.len()
                invariant
                    i <= res.content.len(),
                    views(texts@) == content_texts(res.content@.take(i as int)),
                decreases res.content.len() - i,
            {
                assert(res.content@.take(i + 1).drop_last() =~= res.content@.take(i as int));
                match &res.content[i].text {
                    Some(t) => {
                        let ghost before = views(texts@);
                        texts.push(t.clone());
                        assert(views(texts@) =~= before.push(t@));
                    },
                    None => {},
                }
                i = i + 1;
            }
            assert(res.content@.take(res.content@.len() as int) =~= res.content@);
            let mut output = String::new();
            push_joined(&mut output, &texts, "\n");
            assert(output@ =~= join(content_texts(res.content@), "\n"@));
            match res.is_error {
                Some(true) => ToolResult::failure(output),
                _ => ToolResult::ok(output),
            }
        },
        Err(e) => ToolResult::failure(e),
    }
}

} // verus!
