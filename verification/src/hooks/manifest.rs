//! The `HOOK.toml` manifest model and its validation.
use std::collections::HashMap;
use vstd::prelude::*;
use crate::text::{trim, trimmed};

verus! {

/// Hook event types, one per hook handler method.
#[derive(PartialEq, Eq, Structural, Clone, Copy, Debug)]
pub enum HookEvent {
    OnGatewayStart,
    OnGatewayStop,
    OnSessionStart,
    OnSessionEnd,
    OnLlmInput,
    OnLlmOutput,
    OnAfterToolCall,
    OnMessageSent,
    OnHeartbeatTick,
    BeforeModelResolve,
    BeforePromptBuild,
    BeforeLlmCall,
    BeforeToolCall,
    OnMessageReceived,
    OnMessageSending,
    OnCronDelivery,
    OnDocsSyncNotify,
}

/// The snake_case name of an event, as manifests and displays write it.
pub open spec fn event_name(e: HookEvent) -> Seq<char> {
    match e {
        HookEvent::OnGatewayStart => "on_gateway_start"@,
        HookEvent::OnGatewayStop => "on_gateway_stop"@,
        HookEvent::OnSessionStart => "on_session_start"@,
        HookEvent::OnSessionEnd => "on_session_end"@,
        HookEvent::OnLlmInput => "on_llm_input"@,
        HookEvent::OnLlmOutput => "on_llm_output"@,
        HookEvent::OnAfterToolCall => "on_after_tool_call"@,
        HookEvent::OnMessageSent => "on_message_sent"@,
        HookEvent::OnHeartbeatTick => "on_heartbeat_tick"@,
        HookEvent::BeforeModelResolve => "before_model_resolve"@,
        HookEvent::BeforePromptBuild => "before_prompt_build"@,
        HookEvent::BeforeLlmCall => "before_llm_call"@,
        HookEvent::BeforeToolCall => "before_tool_call"@,
        HookEvent::OnMessageReceived => "on_message_received"@,
        HookEvent::OnMessageSending => "on_message_sending"@,
        HookEvent::OnCronDelivery => "on_cron_delivery"@,
        HookEvent::OnDocsSyncNotify => "on_docs_sync_notify"@,
    }
}

impl HookEvent {
    /// The event's snake_case name (its display form).
    pub fn as_str(&self) -> (r: &'static str)
        ensures
            r@ == event_name(*self),
    {
        match self {
            HookEvent::OnGatewayStart => "on_gateway_start",
            HookEvent::OnGatewayStop => "on_gateway_stop",
            HookEvent::OnSessionStart => "on_session_start",
            HookEvent::OnSessionEnd => "on_session_end",
            HookEvent::OnLlmInput => "on_llm_input",
            HookEvent::OnLlmOutput => "on_llm_output",
            HookEvent::OnAfterToolCall => "on_after_tool_call",
            HookEvent::OnMessageSent => "on_message_sent",
            HookEvent::OnHeartbeatTick => "on_heartbeat_tick",
            HookEvent::BeforeModelResolve => "before_model_resolve",
            HookEvent::BeforePromptBuild => "before_prompt_build",
            HookEvent::BeforeLlmCall => "before_llm_call",
            HookEvent::BeforeToolCall => "before_tool_call",
            HookEvent::OnMessageReceived => "on_message_received",
            HookEvent::OnMessageSending => "on_message_sending",
            HookEvent::OnCronDelivery => "on_cron_delivery",
            HookEvent::OnDocsSyncNotify => "on_docs_sync_notify",
        }
    }

    /// The event's name as an owned string, as its display form reads.
    pub fn to_string(&self) -> (r: String)
        ensures
            r@ == event_name(*self),
    {
        self.as_str().to_owned()
    }
}

/// Action to execute when a hook fires.
pub enum HookAction {
    Shell { command: String, timeout_secs: Option<u64>, workdir: Option<String> },
    Http {
        url: String,
        method: Option<String>,
        headers: Option<HashMap<String, String>>,
        body: Option<String>,
        timeout_secs: Option<u64>,
    },
    PromptInject { content: String, position: Option<String> },
}

/// Conditions that filter when a hook fires.
pub struct HookConditions {
    pub channels: Option<Vec<String>>,
    pub users: Option<Vec<String>>,
    pub pattern: Option<String>,
}

/// A parsed `HOOK.toml` manifest.
pub struct HookManifest {
    pub name: String,
    pub description: Option<String>,
    pub version: Option<String>,
    pub event: HookEvent,
    /// Execution priority: a higher number runs first.
    pub priority: i32,
    pub enabled: bool,
    pub conditions: Option<HookConditions>,
    pub action: HookAction,
    pub skip_security_audit: bool,
}

/// Whether `s` is empty or whitespace only.
pub open spec fn blank(s: Seq<char>) -> bool {
    trim(s).len() == 0
}

/// The first problem of a manifest, as `HookManifest::validate` reports it.
pub open spec fn manifest_problem(m: HookManifest) -> Option<Seq<char>> {
    if blank(m.name@) {
        Some("hook name must not be empty"@)
    } else {
        match m.action {
            HookAction::Shell { command, timeout_secs, .. } => if blank(command@) {
                Some("shell action command must not be empty"@)
            } else if timeout_secs == Some(0u64) {
                Some("shell action timeout_secs must be > 0"@)
            } else {
                None
            },
            HookAction::Http { url, timeout_secs, .. } => if blank(url@) {
                Some("http action url must not be empty"@)
            } else if timeout_secs == Some(0u64) {
                Some("http action timeout_secs must be > 0"@)
            } else {
                None
            },
            HookAction::PromptInject { content, .. } => if blank(content@) {
                Some("prompt_inject action content must not be empty"@)
            } else {
                None
            },
        }
    }
}

fn is_blank(s: &String) -> (r: bool)
    ensures
        r == blank(s@),
{
    let t = trimmed(s.as_str());
    t.as_str().is_empty()
}

impl HookManifest {
    /// Checks the manifest: a non-blank name, and an action with a non-blank command, URL or
    /// content and no zero timeout.
    pub fn validate(&self) -> (r: Result<(), String>)
        ensures
            match manifest_problem(*self) {
                None => r is Ok,
                Some(msg) => r matches Err(e) && e@ == msg,
            },
    {
        if is_blank(&self.name) {
            return Err("hook name must not be empty".to_owned());
        }
        match &self.action {
            HookAction::Shell { command, timeout_secs, .. } => {
                if is_blank(command) {
                    return Err("shell action command must not be empty".to_owned());
                }
                if let Some(t) = timeout_secs {
                    if *t == 0 {
                        return Err("shell action timeout_secs must be > 0".to_owned());
                    }
                }
            },
            HookAction::Http { url, timeout_secs, .. } => {
                if is_blank(url) {
                    return Err("http action url must not be empty".to_owned());
                }
                if let Some(t) = timeout_secs {
                    if *t == 0 {
                        return Err("http action timeout_secs must be > 0".to_owned());
                    }
                }
            },
            HookAction::PromptInject { content, .. } => {
                if is_blank(content) {
                    return Err("prompt_inject action content must not be empty".to_owned());
                }
            },
        }
        Ok(())
    }
}

/// Whether a hook is enabled when its manifest leaves it unsaid.
pub fn default_enabled() -> (r: bool)
    ensures
        r,
{
    true
}

} // verus!
