//! The decisions of a hook handler backed by a `HOOK.toml` manifest: whether it fires, with
//! which timeout, and what a modifying hook does to the data it is handed. Running the action
//! itself (a shell command or an HTTP request) is left to the caller.
use vstd::prelude::*;
use crate::hooks::loader::LoadedHook;
use crate::hooks::manifest::{HookAction, HookConditions, HookEvent};
use crate::pattern::{regex_match, spec_regex_match};
use crate::text::{push_char, push_str, str_eq};

verus! {

/// Timeout, in seconds, for hook actions when none is specified.
pub const DEFAULT_TIMEOUT_SECS: u64 = 30;

/// A hook handler backed by a manifest loaded from disk.
pub struct DynamicHookHandler {
    pub hook: LoadedHook,
    pub default_timeout_secs: u64,
}

/// The outcome of a modifying hook: go on with (possibly changed) data, or stop the pipeline.
pub enum HookResult<T> {
    Continue(T),
    Cancel(String),
}

impl<T> HookResult<T> {
    /// Whether the hook stopped the pipeline.
    pub fn is_cancel(&self) -> (r: bool)
        ensures
            r == (self is Cancel),
    {
        match self {
            HookResult::Continue(_) => false,
            HookResult::Cancel(_) => true,
        }
    }
}

/// What a modifying hook does with the data it is handed.
pub enum HookStep {
    /// The hook does not apply: pass the data on unchanged.
    Pass,
    /// The hook replaces the injectable text with this one.
    Replace(String),
    /// The hook's action must run; the data passes on unchanged unless the action's outcome
    /// says otherwise (see `DynamicHookHandler::after_action`).
    Execute,
}

/// Whether `x` is one of the strings in `allowed`.
pub open spec fn listed(allowed: Seq<String>, x: Seq<char>) -> bool {
    exists|i: int| 0 <= i < allowed.len() && #[trigger] allowed[i]@ == x
}

/// The view of an optional string slice.
pub open spec fn opt_view(o: Option<&str>) -> Option<Seq<char>> {
    match o {
        Some(x) => Some(x@),
        None => None,
    }
}

/// The channel condition: a listed channel, unless the condition or the context is absent.
pub open spec fn channel_ok(c: HookConditions, channel: Option<Seq<char>>) -> bool {
    match (c.channels, channel) {
        (Some(allowed), Some(ch)) => listed(allowed@, ch),
        _ => true,
    }
}

/// The user condition: a listed user, unless the condition or the context is absent.
pub open spec fn user_ok(c: HookConditions, user: Option<Seq<char>>) -> bool {
    match (c.users, user) {
        (Some(allowed), Some(u)) => listed(allowed@, u),
        _ => true,
    }
}

/// The pattern condition: the text matches the pattern; an invalid pattern, or an absent
/// condition or context, does not filter.
pub open spec fn pattern_ok(c: HookConditions, text: Option<Seq<char>>) -> bool {
    match (c.pattern, text) {
        (Some(p), Some(t)) => match spec_regex_match(p@, t) {
            Some(b) => b,
            None => true,
        },
        _ => true,
    }
}

/// Whether all conditions hold for the given context.
pub open spec fn conditions_hold(
    c: Option<HookConditions>,
    channel: Option<Seq<char>>,
    user: Option<Seq<char>>,
    text: Option<Seq<char>>,
) -> bool {
    match c {
        None => true,
        Some(c) => channel_ok(c, channel) && user_ok(c, user) && pattern_ok(c, text),
    }
}

/// A hook whose conditions name users does not fire for a user who is not among them,
/// whatever the channel and the text.
pub proof fn law_unlisted_user_never_matches(
    c: HookConditions,
    channel: Option<Seq<char>>,
    user: Seq<char>,
    text: Option<Seq<char>>,
)
    requires
        c.users matches Some(list) && forall|k: int| 0 <= k < list@.len() ==> #[trigger] list@[k]@ != user,
    ensures
        !conditions_hold(Some(c), channel, Some(user), text),
{
}

fn is_listed(allowed: &Vec<String>, x: &str) -> (r: bool)
    ensures
        r == listed(allowed@, x@),
{
    let mut i: usize = 0;
    while i < allowed.len()
        invariant
            i <= allowed.len(),
            forall|j: int| 0 <= j < i ==> allowed@[j]@ != x@,
        decreases allowed.len() - i,
    {
        if str_eq(allowed[i].as_str(), x) {
            return true;
        }
        i = i + 1;
    }
    false
}

/// Checks the channel condition.
pub fn check_channel_condition(conditions: &HookConditions, channel: Option<&str>) -> (r: bool)
    ensures
        r == channel_ok(*conditions, opt_view(channel)),
{
    match (&conditions.channels, channel) {
        (Some(allowed), Some(ch)) => is_listed(allowed, ch),
        _ => true,
    }
}

/// Checks the user condition.
pub fn check_user_condition(conditions: &HookConditions, user: Option<&str>) -> (r: bool)
    ensures
        r == user_ok(*conditions, opt_view(user)),
{
    match (&conditions.users, user) {
        (Some(allowed), Some(u)) => is_listed(allowed, u),
        _ => true,
    }
}

/// Checks the pattern condition.
pub fn check_pattern_condition(conditions: &HookConditions, text: Option<&str>) -> (r: bool)
    ensures
        r == pattern_ok(*conditions, opt_view(text)),
{
    match (&conditions.pattern, text) {
        (Some(p), Some(t)) => match regex_match(p.as_str(), t) {
            Some(b) => b,
            None => true,
        },
        _ => true,
    }
}

/// The timeout, in seconds, of a hook's action: its own (for shell and HTTP actions) or the
/// default, with zero replaced by `DEFAULT_TIMEOUT_SECS`.
pub open spec fn timeout_spec(action: HookAction, default_secs: u64) -> u64 {
    let secs = match action {
        HookAction::Shell { timeout_secs, .. } => match timeout_secs {
            Some(t) => t,
            None => default_secs,
        },
        HookAction::Http { timeout_secs, .. } => match timeout_secs {
            Some(t) => t,
            None => default_secs,
        },
        HookAction::PromptInject { .. } => default_secs,
    };
    if secs == 0 {
        DEFAULT_TIMEOUT_SECS
    } else {
        secs
    }
}

/// `base` with `content` injected: after it (on a new line) when `position` is `append`,
/// before it otherwise.
pub open spec fn inject_spec(base: Seq<char>, content: Seq<char>, position: Option<Seq<char>>) -> Seq<char> {
    if position == Some("append"@) {
        base + seq!['\n'] + content
    } else {
        content + seq!['\n'] + base
    }
}

/// The events whose data a prompt-inject action changes.
pub open spec fn injects_into(event: HookEvent) -> bool {
    event == HookEvent::BeforePromptBuild || event == HookEvent::OnMessageSending
}

impl DynamicHookHandler {
    /// A handler for `hook`, with the default action timeout given.
    pub fn new(hook: LoadedHook, default_timeout_secs: u64) -> (h: Self)
        ensures
            h.hook == hook,
            h.default_timeout_secs == default_timeout_secs,
    {
        DynamicHookHandler { hook, default_timeout_secs }
    }

    /// The hook's name.
    pub fn name(&self) -> (r: &str)
        ensures
            r@ == self.hook.manifest.name@,
    {
        self.hook.manifest.name.as_str()
    }

    /// The hook's priority.
    pub fn priority(&self) -> (r: i32)
        ensures
            r == self.hook.manifest.priority,
    {
        self.hook.manifest.priority
    }

    /// Whether the hook is enabled and registered for `event`.
    pub fn matches_event(&self, event: HookEvent) -> (r: bool)
        ensures
            r == (self.hook.manifest.enabled && self.hook.manifest.event == event),
    {
        self.hook.manifest.enabled && self.hook.manifest.event == event
    }

    /// Whether the hook's conditions hold for the context; absent context skips a check.
    pub fn check_conditions(&self, channel: Option<&str>, user: Option<&str>, text: Option<&str>) -> (r:
        bool)
        ensures
            r == conditions_hold(
                self.hook.manifest.conditions,
                opt_view(channel),
                opt_view(user),
                opt_view(text),
            ),
    {
        let conditions = match &self.hook.manifest.conditions {
            Some(c) => c,
            None => return true,
        };
        if !check_channel_condition(conditions, channel) {
            return false;
        }
        if !check_user_condition(conditions, user) {
            return false;
        }
        if !check_pattern_condition(conditions, text) {
            return false;
        }
        true
    }

    /// The action's timeout in seconds.
    pub fn effective_timeout(&self) -> (r: u64)
        ensures
            r == timeout_spec(self.hook.manifest.action, self.default_timeout_secs),
    {
        let secs = match &self.hook.manifest.action {
            HookAction::Shell { timeout_secs, .. } => match timeout_secs {
                Some(t) => *t,
                None => self.default_timeout_secs,
            },
            HookAction::Http { timeout_secs, .. } => match timeout_secs {
                Some(t) => *t,
                None => self.default_timeout_secs,
            },
            HookAction::PromptInject { .. } => self.default_timeout_secs,
        };
        if secs == 0 {
            DEFAULT_TIMEOUT_SECS
        } else {
            secs
        }
    }

    /// What the hook does when a modifying `event` fires with the given context. For the
    /// events that a prompt-inject action changes (`before_prompt_build`, `on_message_sending`),
    /// `injectable` is the prompt or message content.
    pub fn modifying_step(
        &self,
        event: HookEvent,
        channel: Option<&str>,
        user: Option<&str>,
        text: Option<&str>,
        injectable: Option<&str>,
    ) -> (r: HookStep)
        ensures
            !(self.hook.manifest.enabled && self.hook.manifest.event == event) ==> r is Pass,
            self.hook.manifest.enabled && self.hook.manifest.event == event && !conditions_hold(
                self.hook.manifest.conditions,
                opt_view(channel),
                opt_view(user),
                opt_view(text),
            ) ==> r is Pass,
            self.hook.manifest.enabled && self.hook.manifest.event == event && conditions_hold(
                self.hook.manifest.conditions,
                opt_view(channel),
                opt_view(user),
                opt_view(text),
            ) ==> match (self.hook.manifest.action, injectable) {
                (HookAction::PromptInject { content, position }, Some(base)) => injects_into(event)
                    ==> (r matches HookStep::Replace(s) && s@ == inject_spec(
                    base@,
                    content@,
                    match position {
                        Some(p) => Some(p@),
                        None => None,
                    },
                )),
                _ => r is Execute,
            } && (!injects_into(event) ==> r is Execute),
    {
        if !self.matches_event(event) {
            return HookStep::Pass;
        }
        if !self.check_conditions(channel, user, text) {
            return HookStep::Pass;
        }
        if event == HookEvent::BeforePromptBuild || event == HookEvent::OnMessageSending {
            if let (HookAction::PromptInject { content, position }, Some(base)) = (
                &self.hook.manifest.action,
                injectable,
            ) {
                let append = match position {
                    Some(p) => str_eq(p.as_str(), "append"),
                    None => false,
                };
                let mut out = String::new();
                if append {
                    push_str(&mut out, base);
                    push_char(&mut out, '\n');
                    push_str(&mut out, content.as_str());
                } else {
                    push_str(&mut out, content.as_str());
                    push_char(&mut out, '\n');
                    push_str(&mut out, base);
                }
                return HookStep::Replace(out);
            }
        }
        HookStep::Execute
    }

    /// The reason to cancel after the hook's action ran for `event` with `outcome`: only a
    /// failed action of a `before_tool_call` hook blocks the call.
    pub fn after_action(&self, event: HookEvent, outcome: &Result<String, String>) -> (r: Option<
        String,
    >)
        ensures
            match outcome {
                Err(e) => if event == HookEvent::BeforeToolCall {
                    r matches Some(m) && m@ == "hook "@ + self.hook.manifest.name@
                        + " blocked tool call: "@ + e@
                } else {
                    r is None
                },
                Ok(_) => r is None,
            },
    {
        match outcome {
            Err(e) => {
                if event == HookEvent::BeforeToolCall {
                    let mut m = String::new();
                    push_str(&mut m, "hook ");
                    push_str(&mut m, self.hook.manifest.name.as_str());
                    push_str(&mut m, " blocked tool call: ");
                    push_str(&mut m, e.as_str());
                    Some(m)
                } else {
                    None
                }
            },
            Ok(_) => None,
        }
    }

    /// The result a modifying event without injectable text ends with, given the data it
    /// carries and `outcome`, what running the action gave (`None` where `modifying_step`
    /// did not ask for it to run): the data unchanged, except that a failed action of a
    /// `before_tool_call` hook cancels the call.
    pub fn settle<T>(&self, event: HookEvent, data: T, outcome: Option<&Result<String, String>>) -> (r:
        HookResult<T>)
        ensures
            match outcome {
                Some(Err(e)) => if event == HookEvent::BeforeToolCall {
                    r matches HookResult::Cancel(m) && m@ == "hook "@ + self.hook.manifest.name@
                        + " blocked tool call: "@ + e@
                } else {
                    r == HookResult::<T>::Continue(data)
                },
                _ => r == HookResult::<T>::Continue(data),
            },
    {
        match outcome {
            Some(o) => match self.after_action(event, o) {
                Some(m) => HookResult::Cancel(m),
                None => HookResult::Continue(data),
            },
            None => HookResult::Continue(data),
        }
    }
}

/// The shell that runs shell actions.
pub fn shell_program() -> (r: &'static str)
    ensures
        r@ == "sh"@,
{
    "sh"
}

/// The flag that hands the shell a command string.
pub fn shell_flag() -> (r: &'static str)
    ensures
        r@ == "-c"@,
{
    "-c"
}

} // verus!
