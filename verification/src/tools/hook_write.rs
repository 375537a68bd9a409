//! The agent tool that writes lifecycle hooks: reading its arguments, generating the
//! `HOOK.toml` manifest, and the security checks before and after it is written.
use vstd::prelude::*;
use crate::hooks::audit::{detect_dangerous_pattern, first_danger};
use crate::text::{
    chars_of, contains_sub, decimal, find_char, find_sub_from, is_alnum, push_char, push_decimal,
    push_signed_decimal, push_str, signed_decimal, str_eq, utf8_len, utf8_len_exceeds,
};
use crate::hooks::audit::HookAuditReport;
use crate::hooks::loader::{hooks_dir_spec, resolve_hooks_dir};
use crate::hooks::HooksConfig;
use crate::json::{as_i64, as_str, as_u64, get, ji64, jget, jstr, ju64, JsonValue};
use crate::paths::{path_join, spec_path_join};
use crate::tools::result::{fails_with, ToolResult};

verus! {

/// The first position at or after `k` whose character is not allowed in a name body.
pub open spec fn first_bad(n: Seq<char>, k: int, extra: Seq<char>) -> Option<int>
    decreases n.len() - k,
{
    if k < 0 || k >= n.len() {
        None
    } else if !(is_alnum(n[k]) || extra.contains(n[k])) {
        Some(k)
    } else {
        first_bad(n, k + 1, extra)
    }
}

/// Whether a name holds a path traversal sequence.
pub open spec fn has_traversal(n: Seq<char>) -> bool {
    contains_sub(n, ".."@) || find_char(n, 0, '/') is Some || find_char(n, 0, '\\') is Some
}

/// The problem with a hook name, as `validate_hook_name` reports it.
pub open spec fn hook_name_problem(n: Seq<char>) -> Option<Seq<char>> {
    if n.len() == 0 || utf8_len(n) > 64 {
        Some("Hook name must be 1-64 characters"@)
    } else if !is_alnum(n[0]) {
        Some("Hook name must start with an alphanumeric character"@)
    } else {
        match first_bad(n, 1, seq!['-']) {
            Some(i) => Some(
                "Hook name contains invalid character '"@ + seq![n[i]]
                    + "': only alphanumeric and hyphens allowed"@,
            ),
            None => if has_traversal(n) {
                Some("Hook name must not contain path traversal sequences"@)
            } else {
                None
            },
        }
    }
}

/// Finds the first character at or after `k` that is neither alphanumeric nor in `extra`.
pub fn find_bad(v: &Vec<char>, k: usize, extra: &Vec<char>) -> (r: Option<usize>)
    ensures
        match r {
            Some(i) => first_bad(v@, k as int, extra@) == Some(i as int) && i < v.len(),
            None => first_bad(v@, k as int, extra@) is None,
        },
{
    let mut i = k;
    while i < v.len()
        invariant
            k <= i,
            first_bad(v@, k as int, extra@) == first_bad(v@, i as int, extra@),
        decreases v.len() - i,
    {
        let c = v[i];
        let alnum = ('0' <= c && c <= '9') || ('a' <= c && c <= 'z') || ('A' <= c && c <= 'Z');
        let mut in_extra = false;
        let mut j: usize = 0;
        while j < extra.len()
            invariant
                j <= extra.len(),
                in_extra == (exists|t: int| 0 <= t < j && extra@[t] == c),
            decreases extra.len() - j,
        {
            if extra[j] == c {
                in_extra = true;
            }
            j = j + 1;
        }
        assert(in_extra == extra@.contains(c));
        if !(alnum || in_extra) {
            return Some(i);
        }
        i = i + 1;
    }
    None
}

/// Whether the name holds `..`, `/` or `\`.
pub fn traversal(v: &Vec<char>) -> (r: bool)
    ensures
        r == has_traversal(v@),
{
    let dots = chars_of("..");
    find_sub_from(v, 0, &dots).is_some() || crate::text::find_char_from(v, 0, '/').is_some()
        || crate::text::find_char_from(v, 0, '\\').is_some()
}

/// Checks a hook name: 1 to 64 bytes, alphanumeric start, alphanumerics and hyphens only, no
/// path traversal.
pub fn validate_hook_name(name: &str) -> (r: Result<(), String>)
    ensures
        match hook_name_problem(name@) {
            None => r is Ok,
            Some(m) => r matches Err(e) && e@ == m,
        },
{
    let v = chars_of(name);
    if v.len() == 0 || utf8_len_exceeds(&v, 64) {
        return Err("Hook name must be 1-64 characters".to_owned());
    }
    let c0 = v[0];
    if !(('0' <= c0 && c0 <= '9') || ('a' <= c0 && c0 <= 'z') || ('A' <= c0 && c0 <= 'Z')) {
        return Err("Hook name must start with an alphanumeric character".to_owned());
    }
    let extra = vec!['-'];
    assert(extra@ =~= seq!['-']);
    match find_bad(&v, 1, &extra) {
        Some(i) => {
            let mut m = String::new();
            push_str(&mut m, "Hook name contains invalid character '");
            push_char(&mut m, v[i]);
            push_str(&mut m, "': only alphanumeric and hyphens allowed");
            assert(m@ =~= "Hook name contains invalid character '"@ + seq![v@[i as int]]
                + "': only alphanumeric and hyphens allowed"@);
            return Err(m);
        },
        None => {},
    }
    if traversal(&v) {
        return Err("Hook name must not contain path traversal sequences".to_owned());
    }
    Ok(())
}

/// The TOML basic-string escape of one character.
pub open spec fn toml_escape(c: char) -> Seq<char> {
    if c == '"' {
        seq!['\\', '"']
    } else if c == '\\' {
        seq!['\\', '\\']
    } else if c == '\n' {
        seq!['\\', 'n']
    } else if c == '\r' {
        seq!['\\', 'r']
    } else if c == '\t' {
        seq!['\\', 't']
    } else {
        seq![c]
    }
}

/// The TOML escape of a whole string.
pub open spec fn toml_escape_all(s: Seq<char>) -> Seq<char>
    decreases s.len(),
{
    if s.len() == 0 {
        Seq::empty()
    } else {
        toml_escape_all(s.drop_last()) + toml_escape(s.last())
    }
}

/// `s` as a quoted TOML basic string.
pub open spec fn toml_quote_spec(s: Seq<char>) -> Seq<char> {
    seq!['"'] + toml_escape_all(s) + seq!['"']
}

/// Quotes `s` as a TOML basic string, escaping quotes, backslashes, newlines, carriage
/// returns and tabs.
pub fn toml_quote(s: &str) -> (r: String)
    ensures
        r@ == toml_quote_spec(s@),
{
    let v = chars_of(s);
    let mut out = String::new();
    push_char(&mut out, '"');
    let mut i: usize = 0;
    while i < v.len()
        invariant
            i <= v.len(),
            out@ == seq!['"'] + toml_escape_all(v@.take(i as int)),
        decreases v.len() - i,
    {
        let c = v[i];
        if c == '"' {
            push_char(&mut out, '\\');
            push_char(&mut out, '"');
        } else if c == '\\' {
            push_char(&mut out, '\\');
            push_char(&mut out, '\\');
        } else if c == '\n' {
            push_char(&mut out, '\\');
            push_char(&mut out, 'n');
        } else if c == '\r' {
            push_char(&mut out, '\\');
            push_char(&mut out, 'r');
        } else if c == '\t' {
            push_char(&mut out, '\\');
            push_char(&mut out, 't');
        } else {
            push_char(&mut out, c);
        }
        proof {
            assert(v@.take(i + 1).drop_last() =~= v@.take(i as int));
            assert(v@.take(i + 1).last() == c);
            assert(out@ =~= seq!['"'] + toml_escape_all(v@.take(i + 1)));
        }
        i = i + 1;
    }
    push_char(&mut out, '"');
    assert(v@.take(v@.len() as int) =~= v@);
    out
}

/// The view of an optional string slice.
pub open spec fn ov(o: Option<&str>) -> Option<Seq<char>> {
    match o {
        Some(x) => Some(x@),
        None => None,
    }
}

/// The `[hook]` table of a generated manifest.
pub open spec fn hook_table(
    name: Seq<char>,
    event: Seq<char>,
    description: Option<Seq<char>>,
    priority: Option<i32>,
) -> Seq<char> {
    "[hook]\n"@ + "name = "@ + toml_quote_spec(name) + "\n"@ + (match description {
        Some(d) => "description = "@ + toml_quote_spec(d) + "\n"@,
        None => Seq::empty(),
    }) + "event = "@ + toml_quote_spec(event) + "\n"@ + (match priority {
        Some(p) => "priority = "@ + signed_decimal(p as int) + "\n"@,
        None => Seq::empty(),
    }) + "\n"@
}

/// The manifest text `build_hook_toml` generates, or its error.
pub open spec fn hook_toml_spec(
    name: Seq<char>,
    event: Seq<char>,
    action_type: Seq<char>,
    command: Option<Seq<char>>,
    url: Option<Seq<char>>,
    content: Option<Seq<char>>,
    description: Option<Seq<char>>,
    priority: Option<i32>,
    timeout_secs: Option<u64>,
) -> Result<Seq<char>, Seq<char>> {
    let head = hook_table(name, event, description, priority);
    let timeout = |prefix: Seq<char>| match timeout_secs {
        Some(t) => prefix + decimal(t as nat) + "\n"@,
        None => Seq::empty(),
    };
    if action_type == "shell"@ {
        match command {
            None => Err("'command' is required for shell action"@),
            Some(c) => Ok(
                head + "[hook.action]\n"@ + "shell.command = "@ + toml_quote_spec(c) + "\n"@
                    + timeout("shell.timeout_secs = "@),
            ),
        }
    } else if action_type == "http"@ {
        match url {
            None => Err("'url' is required for http action"@),
            Some(u) => Ok(
                head + "[hook.action]\n"@ + "http.url = "@ + toml_quote_spec(u) + "\n"@ + timeout(
                    "http.timeout_secs = "@,
                ),
            ),
        }
    } else if action_type == "prompt_inject"@ {
        match content {
            None => Err("'content' is required for prompt_inject action"@),
            Some(c) => Ok(
                head + "[hook.action]\n"@ + "prompt_inject.content = "@ + toml_quote_spec(c)
                    + "\n"@,
            ),
        }
    } else {
        Err(
            "Unknown action_type '"@ + action_type
                + "': expected shell, http, or prompt_inject"@,
        )
    }
}

/// The `[hook]` table of a generated manifest.
fn hook_table_text(name: &str, event: &str, description: Option<&str>, priority: Option<i32>) -> (r:
    String)
    ensures
        r@ == hook_table(name@, event@, ov(description), priority),
{
    let mut toml = String::new();
    push_str(&mut toml, "[hook]\n");
    push_str(&mut toml, "name = ");
    push_str(&mut toml, toml_quote(name).as_str());
    push_str(&mut toml, "\n");
    if let Some(d) = description {
        push_str(&mut toml, "description = ");
        push_str(&mut toml, toml_quote(d).as_str());
        push_str(&mut toml, "\n");
    }
    push_str(&mut toml, "event = ");
    push_str(&mut toml, toml_quote(event).as_str());
    push_str(&mut toml, "\n");
    if let Some(p) = priority {
        push_str(&mut toml, "priority = ");
        push_signed_decimal(&mut toml, p as i64);
        push_str(&mut toml, "\n");
    }
    push_str(&mut toml, "\n");
    assert(toml@ =~= hook_table(name@, event@, ov(description), priority));
    toml
}

/// Builds the `HOOK.toml` text for a hook.
pub fn build_hook_toml(
    name: &str,
    event: &str,
    action_type: &str,
    command: Option<&str>,
    url: Option<&str>,
    content: Option<&str>,
    description: Option<&str>,
    priority: Option<i32>,
    timeout_secs: Option<u64>,
) -> (r: Result<String, String>)
    ensures
        match hook_toml_spec(
            name@,
            event@,
            action_type@,
            ov(command),
            ov(url),
            ov(content),
            ov(description),
            priority,
            timeout_secs,
        ) {
            Ok(t) => r matches Ok(s) && s@ == t,
            Err(e) => r matches Err(s) && s@ == e,
        },
{
    let mut toml = hook_table_text(name, event, description, priority);
    if str_eq(action_type, "shell") {
        let cmd = match command {
            Some(c) => c,
            None => return Err("'command' is required for shell action".to_owned()),
        };
        push_str(&mut toml, "[hook.action]\n");
        push_str(&mut toml, "shell.command = ");
        push_str(&mut toml, toml_quote(cmd).as_str());
        push_str(&mut toml, "\n");
        if let Some(t) = timeout_secs {
            push_str(&mut toml, "shell.timeout_secs = ");
            push_decimal(&mut toml, t);
            push_str(&mut toml, "\n");
        }
    } else if str_eq(action_type, "http") {
        let u = match url {
            Some(u) => u,
            None => return Err("'url' is required for http action".to_owned()),
        };
        push_str(&mut toml, "[hook.action]\n");
        push_str(&mut toml, "http.url = ");
        push_str(&mut toml, toml_quote(u).as_str());
        push_str(&mut toml, "\n");
        if let Some(t) = timeout_secs {
            push_str(&mut toml, "http.timeout_secs = ");
            push_decimal(&mut toml, t);
            push_str(&mut toml, "\n");
        }
    } else if str_eq(action_type, "prompt_inject") {
        let c = match content {
            Some(c) => c,
            None => return Err("'content' is required for prompt_inject action".to_owned()),
        };
        push_str(&mut toml, "[hook.action]\n");
        push_str(&mut toml, "prompt_inject.content = ");
        push_str(&mut toml, toml_quote(c).as_str());
        push_str(&mut toml, "\n");
    } else {
        let mut m = String::new();
        push_str(&mut m, "Unknown action_type '");
        push_str(&mut m, action_type);
        push_str(&mut m, "': expected shell, http, or prompt_inject");
        return Err(m);
    }
    Ok(toml)
}

/// The label of the first dangerous shell pattern in a hook command (the same patterns as the
/// hook directory audit).
pub fn audit_shell_content(command: &str) -> (r: Option<&'static str>)
    ensures
        match r {
            Some(l) => first_danger(command@, 0) == Some(l@),
            None => first_danger(command@, 0) is None,
        },
{
    detect_dangerous_pattern(command)
}


/// The text member `key` of the arguments.
pub open spec fn arg_text(args: JsonValue, key: Seq<char>) -> Option<Seq<char>> {
    jstr(jget(Some(args), key))
}

/// The priority a request gives: its integer `priority`, cut to 32 bits.
pub open spec fn arg_priority(args: JsonValue) -> Option<i32> {
    match ji64(jget(Some(args), "priority"@)) {
        Some(p) => Some(p as i32),
        None => None,
    }
}

/// The manifest a request to write a hook yields, or the reason it yields none: the
/// `name`, `event` and `action_type` are required, the name must be valid, and the action
/// must have what it needs.
pub open spec fn hook_request_outcome(args: JsonValue) -> Result<Seq<char>, Seq<char>> {
    match arg_text(args, "name"@) {
        None => Err("Missing required parameter 'name'"@),
        Some(name) => match arg_text(args, "event"@) {
            None => Err("Missing required parameter 'event'"@),
            Some(event) => match arg_text(args, "action_type"@) {
                None => Err("Missing required parameter 'action_type'"@),
                Some(action) => match hook_name_problem(name) {
                    Some(p) => Err(p),
                    None => hook_toml_spec(
                        name,
                        event,
                        action,
                        arg_text(args, "command"@),
                        arg_text(args, "url"@),
                        arg_text(args, "content"@),
                        arg_text(args, "description"@),
                        arg_priority(args),
                        ju64(jget(Some(args), "timeout_secs"@)),
                    ),
                },
            },
        },
    }
}

/// A hook ready to be checked and written.
pub struct HookDraft {
    pub name: String,
    pub event: String,
    pub action_type: String,
    pub command: Option<String>,
    /// The `HOOK.toml` text.
    pub toml: String,
}

/// The text member `key` of `args`, owned.
fn owned_arg(args: &JsonValue, key: &str) -> (r: Option<String>)
    ensures
        match r {
            Some(s) => arg_text(*args, key@) == Some(s@),
            None => arg_text(*args, key@) is None,
        },
{
    match as_str(get(Some(args), key)) {
        Some(s) => Some(s.to_string()),
        None => None,
    }
}

/// Reads a request to write a hook (see `hook_request_outcome`); a request that yields no
/// manifest becomes a failed result with the reason.
pub fn prepare_hook(args: &JsonValue) -> (r: Result<HookDraft, ToolResult>)
    ensures
        match hook_request_outcome(*args) {
            Ok(t) => r matches Ok(d) && d.toml@ == t && arg_text(*args, "name"@) == Some(d.name@)
                && arg_text(*args, "event"@) == Some(d.event@) && arg_text(*args, "action_type"@)
                == Some(d.action_type@) && match d.command {
                Some(c) => arg_text(*args, "command"@) == Some(c@),
                None => arg_text(*args, "command"@) is None,
            },
            Err(e) => r matches Err(t) && fails_with(t, e),
        },
{
    let name = match as_str(get(Some(args), "name")) {
        Some(n) => n,
        None => return Err(ToolResult::failure("Missing required parameter 'name'".to_string())),
    };
    let event = match as_str(get(Some(args), "event")) {
        Some(e) => e,
        None => return Err(ToolResult::failure("Missing required parameter 'event'".to_string())),
    };
    let action_type = match as_str(get(Some(args), "action_type")) {
        Some(a) => a,
        None => return Err(
            ToolResult::failure("Missing required parameter 'action_type'".to_string()),
        ),
    };
    if let Err(e) = validate_hook_name(name) {
        return Err(ToolResult::failure(e));
    }
    let command = as_str(get(Some(args), "command"));
    let url = as_str(get(Some(args), "url"));
    let content = as_str(get(Some(args), "content"));
    let description = as_str(get(Some(args), "description"));
    let priority: Option<i32> = match as_i64(get(Some(args), "priority")) {
        Some(p) => Some(#[verifier::truncate] (p as i32)),
        None => None,
    };
    let timeout_secs = as_u64(get(Some(args), "timeout_secs"));
    assert(ov(command) == arg_text(*args, "command"@));
    assert(ov(url) == arg_text(*args, "url"@));
    assert(ov(content) == arg_text(*args, "content"@));
    assert(ov(description) == arg_text(*args, "description"@));
    match build_hook_toml(
        name,
        event,
        action_type,
        command,
        url,
        content,
        description,
        priority,
        timeout_secs,
    ) {
        Ok(toml) => Ok(
            HookDraft {
                name: name.to_string(),
                event: event.to_string(),
                action_type: action_type.to_string(),
                command: owned_arg(args, "command"),
                toml,
            },
        ),
        Err(e) => Err(ToolResult::failure(e)),
    }
}

/// The agent tool that writes a hook's directory and manifest.
pub struct HookWriteTool {
    hooks_config: HooksConfig,
    workspace_dir: String,
}

impl HookWriteTool {
    /// The hooks settings the tool works with.
    pub closed spec fn config(self) -> HooksConfig {
        self.hooks_config
    }

    /// The workspace the default hooks directory lies in.
    pub closed spec fn workspace(self) -> Seq<char> {
        self.workspace_dir@
    }

    /// A tool with these settings and workspace.
    pub fn new(hooks_config: HooksConfig, workspace_dir: String) -> (r: Self)
        ensures
            r.config() == hooks_config,
            r.workspace() == workspace_dir@,
    {
        HookWriteTool { hooks_config, workspace_dir }
    }

    /// The hooks directory: the configured one, else the workspace's `hooks` directory.
    pub fn hooks_dir(&self) -> (r: String)
        ensures
            r@ == hooks_dir_spec(
                match self.config().hooks_dir {
                    Some(d) => Some(d@),
                    None => None,
                },
                self.workspace(),
            ),
    {
        let configured = match &self.hooks_config.hooks_dir {
            Some(d) => Some(d.as_str()),
            None => None,
        };
        resolve_hooks_dir(configured, self.workspace_dir.as_str())
    }

    /// The directory the hook `name` is written to, inside the hooks directory.
    pub fn hook_dir(&self, name: &str) -> (r: String)
        ensures
            r@ == spec_path_join(
                hooks_dir_spec(
                    match self.config().hooks_dir {
                        Some(d) => Some(d@),
                        None => None,
                    },
                    self.workspace(),
                ),
                name@,
            ),
    {
        let dir = self.hooks_dir();
        path_join(dir.as_str(), name)
    }

    /// Refuses a hook whose shell command holds a dangerous pattern before anything is
    /// written, unless the audit is switched off.
    pub fn pre_write_audit(&self, draft: &HookDraft) -> (r: Option<ToolResult>)
        ensures
            match draft.command {
                Some(c) if !self.config().skip_security_audit => match first_danger(c@, 0) {
                    Some(label) => r matches Some(t) && fails_with(
                        t,
                        "Security audit rejected hook '"@ + draft.name@
                            + "': dangerous shell pattern ("@ + label + ")"@,
                    ),
                    None => r is None,
                },
                _ => r is None,
            },
    {
        if self.hooks_config.skip_security_audit {
            return None;
        }
        match &draft.command {
            Some(c) => match audit_shell_content(c.as_str()) {
                Some(label) => {
                    let mut m = String::new();
                    push_str(&mut m, "Security audit rejected hook '");
                    push_str(&mut m, draft.name.as_str());
                    push_str(&mut m, "': dangerous shell pattern (");
                    push_str(&mut m, label);
                    push_str(&mut m, ")");
                    Some(ToolResult::failure(m))
                },
                None => None,
            },
            None => None,
        }
    }

    /// Refuses a written hook whose directory the audit found fault with, unless the audit
    /// is switched off.
    pub fn post_write_audit(&self, name: &str, report: &HookAuditReport) -> (r: Option<ToolResult>)
        ensures
            !self.config().skip_security_audit && report.findings@.len() > 0 ==> (r matches Some(
                t,
            ) && fails_with(
                t,
                "Security audit rejected hook '"@ + name@ + "': "@ + crate::hooks::audit::join(
                    crate::multimodal::views(report.findings@),
                    "; "@,
                ),
            )),
            self.config().skip_security_audit || report.findings@.len() == 0 ==> r is None,
    {
        if self.hooks_config.skip_security_audit || report.is_clean() {
            return None;
        }
        let mut m = String::new();
        push_str(&mut m, "Security audit rejected hook '");
        push_str(&mut m, name);
        push_str(&mut m, "': ");
        let s = report.summary();
        push_str(&mut m, s.as_str());
        Some(ToolResult::failure(m))
    }

    /// What follows writing `HOOK.toml` into the new directory of the hook `name`: `None`
    /// keeps the hook; `Some(t)` removes the directory again and answers `t`. `write` is how
    /// the write went, and `audit` how the audit of the directory went (`None` where it did
    /// not run). A failed write, a failed audit and an audit with findings each reject the
    /// hook, the audit counting only when it is switched on.
    pub fn after_write(
        &self,
        name: &str,
        write: &Result<(), String>,
        audit: Option<&Result<HookAuditReport, String>>,
    ) -> (r: Option<ToolResult>)
        ensures
            match write {
                Err(e) => r matches Some(t) && fails_with(t, "Failed to write HOOK.toml: "@ + e@),
                Ok(_) => if self.config().skip_security_audit {
                    r is None
                } else {
                    match audit {
                        None => r is None,
                        Some(Err(e)) => r matches Some(t) && fails_with(
                            t,
                            "Security audit failed: "@ + e@,
                        ),
                        Some(Ok(report)) => if report.findings@.len() > 0 {
                            r matches Some(t) && fails_with(
                                t,
                                "Security audit rejected hook '"@ + name@ + "': "@
                                    + crate::hooks::audit::join(
                                    crate::multimodal::views(report.findings@),
                                    "; "@,
                                ),
                            )
                        } else {
                            r is None
                        },
                    }
                },
            },
    {
        match write {
            Err(e) => {
                let mut m = String::new();
                push_str(&mut m, "Failed to write HOOK.toml: ");
                push_str(&mut m, e.as_str());
                return Some(ToolResult::failure(m));
            },
            Ok(_) => {},
        }
        if self.hooks_config.skip_security_audit {
            return None;
        }
        match audit {
            None => None,
            Some(Err(e)) => {
                let mut m = String::new();
                push_str(&mut m, "Security audit failed: ");
                push_str(&mut m, e.as_str());
                Some(ToolResult::failure(m))
            },
            Some(Ok(report)) => self.post_write_audit(name, report),
        }
    }
}

/// The refusal when the hook `name` already has a directory at `dir`.
pub fn hook_exists_result(name: &str, dir: &str) -> (r: ToolResult)
    ensures
        fails_with(r, "Hook '"@ + name@ + "' already exists at "@ + dir@),
{
    let mut m = String::new();
    push_str(&mut m, "Hook '");
    push_str(&mut m, name);
    push_str(&mut m, "' already exists at ");
    push_str(&mut m, dir);
    ToolResult::failure(m)
}

} // verus!
