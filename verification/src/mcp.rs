//! The Model Context Protocol client's data and decisions: the messages, the server
//! configuration, how a response is read, and which servers' tools may join the agent.
pub mod config;
pub mod registry;
pub mod types;

use vstd::prelude::*;
use crate::json::{get, jget, oref, JsonValue};
use crate::mcp::types::McpToolCallResult;
use crate::text::push_str;

verus! {

/// A JSON-RPC request id: a number or a string.
#[derive(Debug, Clone, PartialEq)]
pub enum RequestId {
    Number(i64),
    String(String),
}

/// The JSON-RPC version every message carries, `2.0`.
pub fn jsonrpc_version() -> (r: String)
    ensures
        r@ == "2.0"@,
{
    "2.0".to_string()
}

/// `<label> failed: <message>`.
pub open spec fn failed_message(label: Seq<char>, message: Seq<char>) -> Seq<char> {
    label + " failed: "@ + message
}

/// `<label> response missing result`.
pub open spec fn missing_result_message(label: Seq<char>) -> Seq<char> {
    label + " response missing result"@
}

/// `<label> result missing '<field>' field`.
pub open spec fn missing_field_message(label: Seq<char>, field: Seq<char>) -> Seq<char> {
    label + " result missing '"@ + field + "' field"@
}

/// Reads a response to the request `label` (`tools/list`, `Initialize`, ...): its error,
/// where it has one, fails the request; otherwise its result, which must be present.
pub fn response_result<'a>(label: &str, error_message: Option<&str>, result: Option<&'a JsonValue>) -> (r: Result<&'a JsonValue, String>)
    ensures
        match error_message {
            Some(m) => (r matches Err(e) && e@ == failed_message(label@, m@)),
            None => match result {
                Some(v) => r == Ok::<&JsonValue, String>(v),
                None => (r matches Err(e) && e@ == missing_result_message(label@)),
            },
        },
{
    match error_message {
        Some(m) => {
            let mut e = String::new();
            push_str(&mut e, label);
            push_str(&mut e, " failed: ");
            push_str(&mut e, m);
            Err(e)
        },
        None => match result {
            Some(v) => Ok(v),
            None => {
                let mut e = String::new();
                push_str(&mut e, label);
                push_str(&mut e, " response missing result");
                Err(e)
            },
        },
    }
}

/// The member `field` of the result of the request `label`, which must be there.
pub fn result_field<'a>(label: &str, result: &'a JsonValue, field: &str) -> (r: Result<&'a JsonValue, String>)
    ensures
        match jget(Some(*result), field@) {
            Some(v) => (r matches Ok(x) && *x == v),
            None => (r matches Err(e) && e@ == missing_field_message(label@, field@)),
        },
{
    match get(Some(result), field) {
        Some(v) => Ok(v),
        None => {
            let mut e = String::new();
            push_str(&mut e, label);
            push_str(&mut e, " result missing '");
            push_str(&mut e, field);
            push_str(&mut e, "' field");
            Err(e)
        },
    }
}

/// The text of the first content item of a call's result, where it has one.
pub open spec fn first_text(r: McpToolCallResult) -> Option<Seq<char>> {
    if r.content@.len() > 0 {
        match r.content@[0].text {
            Some(t) => Some(t@),
            None => None,
        }
    } else {
        None
    }
}

/// The error a tool call ends in when its result says it failed: `Tool execution error:`
/// and the first content item's text, or `Unknown tool error` when it has none.
pub fn tool_call_error(result: &McpToolCallResult) -> (r: Option<String>)
    ensures
        result.is_error != Some(true) ==> r is None,
        result.is_error == Some(true) ==> (r matches Some(e) && e@ == "Tool execution error: "@
            + match first_text(*result) {
            Some(t) => t,
            None => "Unknown tool error"@,
        }),
{
    match result.is_error {
        Some(true) => {
            let mut e = String::new();
            push_str(&mut e, "Tool execution error: ");
            let detail: &str = if result.content.len() > 0 {
                match &result.content[0].text {
                    Some(t) => t.as_str(),
                    None => "Unknown tool error",
                }
            } else {
                "Unknown tool error"
            };
            push_str(&mut e, detail);
            Some(e)
        },
        _ => None,
    }
}

} // verus!
