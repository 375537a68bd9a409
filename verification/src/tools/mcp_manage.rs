//! The agent tool that lists, adds and removes MCP servers: what a request asks for, and
//! what the agent is told afterwards.
use vstd::prelude::*;
use crate::json::{as_str, get, jget, jstr, JsonValue};
use crate::mcp::config::McpServerConfig;
use crate::multimodal::views;
use crate::text::{decimal, push_decimal, push_str, str_eq};
use crate::tools::result::{fails_with, ToolResult};

verus! {

/// What a request to the tool comes to.
pub enum McpManagePlan {
    /// List the connected servers.
    List,
    /// Connect this server.
    Add(McpServerConfig),
    /// Disconnect the server of this name.
    Remove(String),
    /// Answer at once with this result.
    Reply(ToolResult),
    /// The request is malformed: fail the call with this message.
    Fail(String),
}

/// The texts among `items`, in order.
pub open spec fn string_items(items: Seq<JsonValue>) -> Seq<Seq<char>>
    decreases items.len(),
{
    if items.len() == 0 {
        Seq::empty()
    } else {
        match items.last() {
            JsonValue::Str(s) => string_items(items.drop_last()).push(s@),
            _ => string_items(items.drop_last()),
        }
    }
}

/// The members of an object whose values are texts, in order.
pub open spec fn string_members(es: Seq<(String, JsonValue)>) -> Seq<(Seq<char>, Seq<char>)>
    decreases es.len(),
{
    if es.len() == 0 {
        Seq::empty()
    } else {
        match es.last().1 {
            JsonValue::Str(s) => string_members(es.drop_last()).push((es.last().0@, s@)),
            _ => string_members(es.drop_last()),
        }
    }
}

/// The command-line arguments a request gives: the texts of its `args` array.
pub open spec fn request_args(v: Option<JsonValue>) -> Seq<Seq<char>> {
    match v {
        Some(JsonValue::Array(items)) => string_items(items@),
        _ => Seq::empty(),
    }
}

/// The environment a request gives: the text members of its `env` object.
pub open spec fn request_env(v: Option<JsonValue>) -> Seq<(Seq<char>, Seq<char>)> {
    match v {
        Some(JsonValue::Object(es)) => string_members(es@),
        _ => Seq::empty(),
    }
}

/// The views of a list of name and value pairs.
pub open spec fn pair_views(v: Seq<(String, String)>) -> Seq<(Seq<char>, Seq<char>)> {
    v.map_values(|p: (String, String)| (p.0@, p.1@))
}

/// The text member `key` of the arguments, empty where there is none.
pub open spec fn text_or_empty(args: JsonValue, key: Seq<char>) -> Seq<char> {
    match jstr(jget(Some(args), key)) {
        Some(s) => s,
        None => Seq::empty(),
    }
}

/// Whether `p` is what the arguments `args` ask for, `full` telling whether the agent may
/// act without limits: `list`; `add`, which needs that and a `name` and a `command`;
/// `remove`, which needs that and a `name`; anything else is an unknown action. Below full
/// autonomy, `add` and `remove` are refused and the registry is left as it is.
pub open spec fn is_manage_plan(args: JsonValue, full: bool, p: McpManagePlan) -> bool {
    let action = text_or_empty(args, "action"@);
    if action == "list"@ {
        p is List
    } else if action == "add"@ {
        if !full {
            p matches McpManagePlan::Reply(t) && fails_with(
                t,
                "MCP server addition requires Full autonomy level"@,
            )
        } else {
            match jstr(jget(Some(args), "name"@)) {
                None => p matches McpManagePlan::Fail(e) && e@ == "'name' is required for add"@,
                Some(n) => match jstr(jget(Some(args), "command"@)) {
                    None => p matches McpManagePlan::Fail(e) && e@
                        == "'command' is required for add"@,
                    Some(c) => p matches McpManagePlan::Add(cfg) && cfg.name@ == n && cfg.command@
                        == c && views(cfg.args@) == request_args(jget(Some(args), "args"@))
                        && pair_views(cfg.env@) == request_env(jget(Some(args), "env"@)),
                },
            }
        }
    } else if action == "remove"@ {
        if !full {
            p matches McpManagePlan::Reply(t) && fails_with(
                t,
                "MCP server removal requires Full autonomy level"@,
            )
        } else {
            match jstr(jget(Some(args), "name"@)) {
                None => p matches McpManagePlan::Fail(e) && e@ == "'name' is required for remove"@,
                Some(n) => p matches McpManagePlan::Remove(s) && s@ == n,
            }
        }
    } else {
        p matches McpManagePlan::Reply(t) && fails_with(t, "Unknown action: '"@ + action + "'"@)
    }
}

/// The texts of a JSON array, in order.
fn texts_of(items: &Vec<JsonValue>) -> (r: Vec<String>)
    ensures
        views(r@) == string_items(items@),
{
    let mut out: Vec<String> = Vec::new();
    let mut i: usize = 0;
    while i < items.len()
        invariant
            i <= items.len(),
            views(out@) == string_items(items@.take(i as int)),
        decreases items.len() - i,
    {
        assert(items@.take(i + 1).drop_last() =~= items@.take(i as int));
        match &items[i] {
            JsonValue::Str(s) => {
                let ghost before = views(out@);
                out.push(s.clone());
                assert(views(out@) =~= before.push(s@));
            },
            _ => {},
        }
        i = i + 1;
    }
    assert(items@.take(items@.len() as int) =~= items@);
    out
}

/// The text members of a JSON object, in order.
fn text_members_of(es: &Vec<(String, JsonValue)>) -> (r: Vec<(String, String)>)
    ensures
        pair_views(r@) == string_members(es@),
{
    let mut out: Vec<(String, String)> = Vec::new();
    let mut i: usize = 0;
    while i < es.len()
        invariant
            i <= es.len(),
            pair_views(out@) == string_members(es@.take(i as int)),
        decreases es.len() - i,
    {
        assert(es@.take(i + 1).drop_last() =~= es@.take(i as int));
        match &es[i].1 {
            JsonValue::Str(s) => {
                let ghost before = pair_views(out@);
                out.push((es[i].0.clone(), s.clone()));
                assert(pair_views(out@) =~= before.push((es@[i as int].0@, s@)));
            },
            _ => {},
        }
        i = i + 1;
    }
    assert(es@.take(es@.len() as int) =~= es@);
    out
}

/// Reads a request to the tool (see `is_manage_plan`); `full_autonomy` tells whether the
/// agent may act without limits.
pub fn plan_mcp_manage(args: &JsonValue, full_autonomy: bool) -> (p: McpManagePlan)
    ensures
        is_manage_plan(*args, full_autonomy, p),
{
    let action = match as_str(get(Some(args), "action")) {
        Some(a) => a,
        None => {
            let e = "";
            proof {
                reveal_strlit("");
            }
            e
        },
    };
    assert(action@ == text_or_empty(*args, "action"@));
    if str_eq(action, "list") {
        McpManagePlan::List
    } else if str_eq(action, "add") {
        if !full_autonomy {
            return McpManagePlan::Reply(
                ToolResult::failure("MCP server addition requires Full autonomy level".to_string()),
            );
        }
        let name = match as_str(get(Some(args), "name")) {
            Some(n) => n,
            None => return McpManagePlan::Fail("'name' is required for add".to_string()),
        };
        let command = match as_str(get(Some(args), "command")) {
            Some(c) => c,
            None => return McpManagePlan::Fail("'command' is required for add".to_string()),
        };
        let cmd_args = match get(Some(args), "args") {
            Some(JsonValue::Array(items)) => texts_of(items),
            _ => Vec::new(),
        };
        let env = match get(Some(args), "env") {
            Some(JsonValue::Object(es)) => text_members_of(es),
            _ => Vec::new(),
        };
        assert(views(cmd_args@) =~= request_args(jget(Some(*args), "args"@)));
        assert(pair_views(env@) =~= request_env(jget(Some(*args), "env"@)));
        McpManagePlan::Add(
            McpServerConfig {
                name: name.to_string(),
                command: command.to_string(),
                args: cmd_args,
                env,
            },
        )
    } else if str_eq(action, "remove") {
        if !full_autonomy {
            return McpManagePlan::Reply(
                ToolResult::failure("MCP server removal requires Full autonomy level".to_string()),
            );
        }
        match as_str(get(Some(args), "name")) {
            Some(n) => McpManagePlan::Remove(n.to_string()),
            None => McpManagePlan::Fail("'name' is required for remove".to_string()),
        }
    } else {
        let mut e = String::new();
        push_str(&mut e, "Unknown action: '");
        push_str(&mut e, action);
        push_str(&mut e, "'");
        McpManagePlan::Reply(ToolResult::failure(e))
    }
}

/// What the agent is told after the server `name` with `tool_count` tools was added.
pub fn added_result(name: &str, tool_count: usize) -> (r: ToolResult)
    ensures
        r.success,
        r.error is None,
        r.output@ == "Added MCP server '"@ + name@ + "' with "@ + decimal(tool_count as nat)
            + " tools"@,
{
    let mut out = String::new();
    push_str(&mut out, "Added MCP server '");
    push_str(&mut out, name);
    push_str(&mut out, "' with ");
    push_decimal(&mut out, tool_count as u64);
    push_str(&mut out, " tools");
    ToolResult::ok(out)
}

/// What the agent is told after the server `name` was removed.
pub fn removed_result(name: &str) -> (r: ToolResult)
    ensures
        r.success,
        r.error is None,
        r.output@ == "Removed MCP server '"@ + name@ + "'"@,
{
    let mut out = String::new();
    push_str(&mut out, "Removed MCP server '");
    push_str(&mut out, name);
    push_str(&mut out, "'");
    ToolResult::ok(out)
}

} // verus!
