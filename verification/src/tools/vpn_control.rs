//! The agent tool that controls the VPN: which action a request asks for, which actions
//! change something, and the refusals that do not depend on the VPN runtime.
use vstd::prelude::*;
use crate::json::{as_str, get, JsonValue};
use crate::text::{chars_of, lower_all, lower_range, push_str, string_of_range, vec_eq};
use crate::tools::mcp_manage::text_or_empty;
use crate::tools::result::{fails_with, ToolResult};

verus! {

/// What a request to the VPN tool asks for.
#[derive(Debug, Clone, Copy, PartialEq, Eq)]
pub enum VpnAction {
    Status,
    Enable,
    Disable,
    ListNodes,
    SwitchNode,
    Refresh,
    AddBypass,
    RemoveBypass,
}

/// The action named `a` (already lower-cased).
pub open spec fn vpn_action_of(a: Seq<char>) -> Option<VpnAction> {
    if a == "status"@ {
        Some(VpnAction::Status)
    } else if a == "enable"@ {
        Some(VpnAction::Enable)
    } else if a == "disable"@ {
        Some(VpnAction::Disable)
    } else if a == "list_nodes"@ {
        Some(VpnAction::ListNodes)
    } else if a == "switch_node"@ {
        Some(VpnAction::SwitchNode)
    } else if a == "refresh"@ {
        Some(VpnAction::Refresh)
    } else if a == "add_bypass"@ {
        Some(VpnAction::AddBypass)
    } else if a == "remove_bypass"@ {
        Some(VpnAction::RemoveBypass)
    } else {
        None
    }
}

/// Whether the action changes the VPN (and so needs write access).
pub open spec fn changes_vpn(a: VpnAction) -> bool {
    !(a is Status || a is ListNodes)
}

/// Whether the VPN action `a` changes the VPN, so that write access is checked first.
pub fn needs_write_access(a: VpnAction) -> (r: bool)
    ensures
        r == changes_vpn(a),
{
    match a {
        VpnAction::Status | VpnAction::ListNodes => false,
        _ => true,
    }
}

/// Whether `a` equals the literal `lit`.
fn equals_lit(a: &Vec<char>, lit: &str) -> (r: bool)
    ensures
        r == (a@ == lit@),
{
    let l = chars_of(lit);
    vec_eq(a, &l)
}

/// Reads the action of a request, lower-cased (empty when absent); an unknown one is
/// refused with the list of valid actions.
pub fn parse_vpn_action(args: &JsonValue) -> (r: Result<VpnAction, ToolResult>)
    ensures
        match vpn_action_of(lower_all(text_or_empty(*args, "action"@))) {
            Some(a) => r == Ok::<VpnAction, ToolResult>(a),
            None => r matches Err(t) && fails_with(
                t,
                "Unknown action '"@ + lower_all(text_or_empty(*args, "action"@))
                    + "'. Valid: status, enable, disable, list_nodes, switch_node, refresh, add_bypass, remove_bypass"@,
            ),
        },
{
    proof {
        reveal_strlit("");
    }
    let raw = match as_str(get(Some(args), "action")) {
        Some(a) => a,
        None => "",
    };
    assert(raw@ == text_or_empty(*args, "action"@));
    let v = chars_of(raw);
    let a = lower_range(&v, 0, v.len());
    assert(v@.subrange(0, v@.len() as int) =~= v@);
    if equals_lit(&a, "status") {
        Ok(VpnAction::Status)
    } else if equals_lit(&a, "enable") {
        Ok(VpnAction::Enable)
    } else if equals_lit(&a, "disable") {
        Ok(VpnAction::Disable)
    } else if equals_lit(&a, "list_nodes") {
        Ok(VpnAction::ListNodes)
    } else if equals_lit(&a, "switch_node") {
        Ok(VpnAction::SwitchNode)
    } else if equals_lit(&a, "refresh") {
        Ok(VpnAction::Refresh)
    } else if equals_lit(&a, "add_bypass") {
        Ok(VpnAction::AddBypass)
    } else if equals_lit(&a, "remove_bypass") {
        Ok(VpnAction::RemoveBypass)
    } else {
        let mut m = String::new();
        push_str(&mut m, "Unknown action '");
        let lowered = string_of_range(&a, 0, a.len());
        assert(a@.subrange(0, a@.len() as int) =~= a@);
        push_str(&mut m, lowered.as_str());
        push_str(
            &mut m,
            "'. Valid: status, enable, disable, list_nodes, switch_node, refresh, add_bypass, remove_bypass",
        );
        Err(ToolResult::failure(m))
    }
}

/// The text parameter `key` an action needs (`node_name`, `domain`), or the refusal
/// `Missing required parameter '<key>'`.
pub fn required_parameter(args: &JsonValue, key: &str) -> (r: Result<String, ToolResult>)
    ensures
        match crate::json::jstr(crate::json::jget(Some(*args), key@)) {
            Some(v) => r matches Ok(s) && s@ == v,
            None => r matches Err(t) && fails_with(
                t,
                "Missing required parameter '"@ + key@ + "'"@,
            ),
        },
{
    match as_str(get(Some(args), key)) {
        Some(v) => Ok(v.to_string()),
        None => {
            let mut m = String::new();
            push_str(&mut m, "Missing required parameter '");
            push_str(&mut m, key);
            push_str(&mut m, "'");
            Err(ToolResult::failure(m))
        },
    }
}

/// Whether a subscription URL is configured and not empty.
pub open spec fn has_subscription(url: Option<Seq<char>>) -> bool {
    url matches Some(u) && u.len() > 0
}

/// The refusal of `refresh` (and of `enable`) without a subscription URL.
pub fn subscription_refusal(subscription_url: Option<&str>) -> (r: Option<ToolResult>)
    ensures
        has_subscription(
            match subscription_url {
                Some(u) => Some(u@),
                None => None,
            },
        ) ==> r is None,
        !has_subscription(
            match subscription_url {
                Some(u) => Some(u@),
                None => None,
            },
        ) ==> (r matches Some(t) && fails_with(t, "No VPN subscription URL configured"@)),
{
    match subscription_url {
        Some(u) => if u.is_empty() {
            Some(ToolResult::failure("No VPN subscription URL configured".to_string()))
        } else {
            None
        },
        None => Some(ToolResult::failure("No VPN subscription URL configured".to_string())),
    }
}

/// The refusal of `enable`: when the VPN already runs, else without a subscription URL.
pub fn enable_refusal(running: bool, subscription_url: Option<&str>) -> (r: Option<ToolResult>)
    ensures
        running ==> (r matches Some(t) && fails_with(t, "VPN is already enabled"@)),
        !running && has_subscription(
            match subscription_url {
                Some(u) => Some(u@),
                None => None,
            },
        ) ==> r is None,
        !running && !has_subscription(
            match subscription_url {
                Some(u) => Some(u@),
                None => None,
            },
        ) ==> (r matches Some(t) && fails_with(t, "No VPN subscription URL configured"@)),
{
    if running {
        return Some(ToolResult::failure("VPN is already enabled".to_string()));
    }
    subscription_refusal(subscription_url)
}

/// The refusal of `disable` when the VPN does not run.
pub fn disable_refusal(running: bool) -> (r: Option<ToolResult>)
    ensures
        running ==> r is None,
        !running ==> (r matches Some(t) && fails_with(t, "VPN is not enabled"@)),
{
    if running {
        None
    } else {
        Some(ToolResult::failure("VPN is not enabled".to_string()))
    }
}

/// The refusal to switch to a node that is not in the node list.
pub fn unknown_node_result(node_name: &str) -> (r: ToolResult)
    ensures
        fails_with(r, "Node '"@ + node_name@ + "' not found in node list"@),
{
    let mut m = String::new();
    push_str(&mut m, "Node '");
    push_str(&mut m, node_name);
    push_str(&mut m, "' not found in node list");
    ToolResult::failure(m)
}

} // verus!
