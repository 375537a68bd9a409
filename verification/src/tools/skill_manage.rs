//! The decisions of the tool that creates, reads, updates, deletes and lists skills.
use vstd::prelude::*;
use crate::text::{chars_of, is_alnum, push_char, push_str, range_eq, upper_all, upper_range, utf8_len, utf8_len_exceeds};
use crate::tools::hook_write::{find_bad, first_bad, has_traversal, toml_quote, toml_quote_spec, traversal};
use crate::tools::result::{fails_with, ToolResult};
use crate::json::{as_str, get, jget, jstr, JsonValue};
use crate::paths::{path_strip_prefix, spec_path_strip_prefix};

verus! {

/// The device names that Windows reserves, in upper case.
pub open spec fn windows_reserved() -> Seq<Seq<char>> {
    seq![
        "CON"@, "PRN"@, "AUX"@, "NUL"@, "COM1"@, "COM2"@, "COM3"@, "COM4"@, "COM5"@, "COM6"@,
        "COM7"@, "COM8"@, "COM9"@, "LPT1"@, "LPT2"@, "LPT3"@, "LPT4"@, "LPT5"@, "LPT6"@, "LPT7"@,
        "LPT8"@, "LPT9"@,
    ]
}

/// The problem with a skill name, as `validate_skill_name` reports it.
pub open spec fn skill_name_problem(n: Seq<char>) -> Option<Seq<char>> {
    if n.len() == 0 || utf8_len(n) > 64 {
        Some("Skill name must be 1-64 characters"@)
    } else if !is_alnum(n[0]) {
        Some("Skill name must start with an alphanumeric character"@)
    } else {
        match first_bad(n, 1, seq!['_', '-']) {
            Some(i) => Some(
                "Skill name contains invalid character '"@ + seq![n[i]]
                    + "': only alphanumeric, underscore, and hyphen allowed"@,
            ),
            None => if has_traversal(n) {
                Some("Skill name must not contain path traversal sequences"@)
            } else if windows_reserved().contains(upper_all(n)) {
                Some("Skill name '"@ + n + "' is a Windows reserved device name"@)
            } else {
                None
            },
        }
    }
}

/// Whether the upper-cased name `u` is one of the reserved device names.
fn is_windows_reserved(u: &Vec<char>) -> (r: bool)
    ensures
        r == windows_reserved().contains(u@),
{
    let names: Vec<&'static str> = vec![
        "CON", "PRN", "AUX", "NUL", "COM1", "COM2", "COM3", "COM4", "COM5", "COM6", "COM7",
        "COM8", "COM9", "LPT1", "LPT2", "LPT3", "LPT4", "LPT5", "LPT6", "LPT7", "LPT8", "LPT9",
    ];
    assert(names@.len() == windows_reserved().len());
    assert(forall|k: int| 0 <= k < names@.len() ==> names@[k]@ == #[trigger] windows_reserved()[k]);
    assert(u@.subrange(0, u@.len() as int) =~= u@);
    let mut i: usize = 0;
    while i < names.len()
        invariant
            i <= names.len(),
            names@.len() == windows_reserved().len(),
            forall|k: int| 0 <= k < names@.len() ==> names@[k]@ == #[trigger] windows_reserved()[k],
            forall|k: int| 0 <= k < i ==> windows_reserved()[k] != u@,
            u@.subrange(0, u@.len() as int) == u@,
        decreases names.len() - i,
    {
        if range_eq(u, 0, u.len(), names[i]) {
            assert(windows_reserved()[i as int] == u@);
            return true;
        }
        i = i + 1;
    }
    false
}

/// Checks a skill name: 1 to 64 bytes, alphanumeric start, alphanumerics, underscores and
/// hyphens only, no path traversal, and no Windows reserved device name in any case.
pub fn validate_skill_name(name: &str) -> (r: Result<(), String>)
    ensures
        match skill_name_problem(name@) {
            None => r is Ok,
            Some(m) => r matches Err(e) && e@ == m,
        },
{
    let v = chars_of(name);
    if v.len() == 0 || utf8_len_exceeds(&v, 64) {
        return Err("Skill name must be 1-64 characters".to_owned());
    }
    let c0 = v[0];
    if !(('0' <= c0 && c0 <= '9') || ('a' <= c0 && c0 <= 'z') || ('A' <= c0 && c0 <= 'Z')) {
        return Err("Skill name must start with an alphanumeric character".to_owned());
    }
    let extra = vec!['_', '-'];
    assert(extra@ =~= seq!['_', '-']);
    match find_bad(&v, 1, &extra) {
        Some(i) => {
            let mut m = String::new();
            push_str(&mut m, "Skill name contains invalid character '");
            push_char(&mut m, v[i]);
            push_str(&mut m, "': only alphanumeric, underscore, and hyphen allowed");
            assert(m@ =~= "Skill name contains invalid character '"@ + seq![v@[i as int]]
                + "': only alphanumeric, underscore, and hyphen allowed"@);
            return Err(m);
        },
        None => {},
    }
    if traversal(&v) {
        return Err("Skill name must not contain path traversal sequences".to_owned());
    }
    let upper = upper_range(&v, 0, v.len());
    assert(v@.subrange(0, v@.len() as int) =~= v@);
    if is_windows_reserved(&upper) {
        let mut m = String::new();
        push_str(&mut m, "Skill name '");
        push_str(&mut m, name);
        push_str(&mut m, "' is a Windows reserved device name");
        assert(m@ =~= "Skill name '"@ + name@ + "' is a Windows reserved device name"@);
        return Err(m);
    }
    Ok(())
}

/// The name an action works on: missing or empty is an error, and so is an invalid name.
pub fn extract_name(name: Option<&str>) -> (r: Result<String, ToolResult>)
    ensures
        match name {
            None => r matches Err(t) && fails_with(t, "Missing 'name' parameter for this action"@),
            Some(n) => if n@.len() == 0 {
                r matches Err(t) && fails_with(t, "Missing 'name' parameter for this action"@)
            } else {
                match skill_name_problem(n@) {
                    None => r matches Ok(s) && s@ == n@,
                    Some(m) => r matches Err(t) && fails_with(t, m),
                }
            },
        },
{
    proof {
        reveal_strlit("");
    }
    let n = match name {
        Some(n) => n,
        None => "",
    };
    if n.is_empty() {
        return Err(ToolResult::failure("Missing 'name' parameter for this action".to_owned()));
    }
    match validate_skill_name(n) {
        Ok(()) => Ok(n.to_owned()),
        Err(e) => Err(ToolResult::failure(e)),
    }
}

/// The actions of the skill tool.
#[derive(PartialEq, Eq, Structural, Clone, Copy, Debug)]
pub enum SkillAction {
    Create,
    Read,
    Update,
    Delete,
    List,
}

/// The action a name selects, if any.
pub open spec fn skill_action_of(a: Seq<char>) -> Option<SkillAction> {
    if a == "create"@ {
        Some(SkillAction::Create)
    } else if a == "read"@ {
        Some(SkillAction::Read)
    } else if a == "update"@ {
        Some(SkillAction::Update)
    } else if a == "delete"@ {
        Some(SkillAction::Delete)
    } else if a == "list"@ {
        Some(SkillAction::List)
    } else {
        None
    }
}

/// Selects the action named by `action`, or the failure for an unknown one.
pub fn parse_skill_action(action: &str) -> (r: Result<SkillAction, ToolResult>)
    ensures
        match skill_action_of(action@) {
            Some(a) => r matches Ok(b) && b == a,
            None => r matches Err(t) && fails_with(
                t,
                "Unknown action '"@ + action@ + "': expected create/read/update/delete/list"@,
            ),
        },
{
    if crate::text::str_eq(action, "create") {
        Ok(SkillAction::Create)
    } else if crate::text::str_eq(action, "read") {
        Ok(SkillAction::Read)
    } else if crate::text::str_eq(action, "update") {
        Ok(SkillAction::Update)
    } else if crate::text::str_eq(action, "delete") {
        Ok(SkillAction::Delete)
    } else if crate::text::str_eq(action, "list") {
        Ok(SkillAction::List)
    } else {
        let mut m = String::new();
        push_str(&mut m, "Unknown action '");
        push_str(&mut m, action);
        push_str(&mut m, "': expected create/read/update/delete/list");
        Err(ToolResult::failure(m))
    }
}

/// One tool entry of a skill being written; absent fields take their defaults.
pub struct ToolDraft {
    pub name: Option<String>,
    pub description: Option<String>,
    pub kind: Option<String>,
    pub command: Option<String>,
}

/// The fields of a skill being written, as the tool arguments give them.
pub struct SkillDraft {
    pub description: Option<String>,
    pub version: Option<String>,
    pub tools: Option<Vec<ToolDraft>>,
    /// Each prompt, or `None` where the argument was not a string.
    pub prompts: Option<Vec<Option<String>>>,
}

/// The text of an optional string, or `default` when it is absent.
pub open spec fn text_or(o: Option<String>, default: Seq<char>) -> Seq<char> {
    match o {
        Some(s) => s@,
        None => default,
    }
}

/// The `[[tools]]` table of one tool entry.
pub open spec fn tool_block(t: ToolDraft) -> Seq<char> {
    "\n[[tools]]\nname = "@ + toml_quote_spec(text_or(t.name, "unnamed"@)) + "\ndescription = "@
        + toml_quote_spec(text_or(t.description, ""@)) + "\nkind = "@ + toml_quote_spec(
        text_or(t.kind, "shell"@),
    ) + "\ncommand = "@ + toml_quote_spec(text_or(t.command, ""@)) + "\n"@
}

/// The tables of all tool entries, in order.
pub open spec fn tool_blocks(ts: Seq<ToolDraft>) -> Seq<char>
    decreases ts.len(),
{
    if ts.len() == 0 {
        Seq::empty()
    } else {
        tool_blocks(ts.drop_last()) + tool_block(ts.last())
    }
}

/// The quoted prompts, separated by `, `.
pub open spec fn prompt_items(ps: Seq<Option<String>>) -> Seq<char>
    decreases ps.len(),
{
    if ps.len() == 0 {
        Seq::empty()
    } else if ps.len() == 1 {
        toml_quote_spec(text_or(ps[0], ""@))
    } else {
        prompt_items(ps.drop_last()) + ", "@ + toml_quote_spec(text_or(ps.last(), ""@))
    }
}

/// The `SKILL.toml` text written for a skill.
pub open spec fn skill_toml_spec(name: Seq<char>, d: SkillDraft) -> Seq<char> {
    "[skill]\nname = "@ + toml_quote_spec(name) + "\ndescription = "@ + toml_quote_spec(
        text_or(d.description, "A custom skill"@),
    ) + "\nversion = "@ + toml_quote_spec(text_or(d.version, "0.1.0"@)) + "\n"@ + (match d.tools {
        Some(ts) => tool_blocks(ts@),
        None => Seq::empty(),
    }) + (match d.prompts {
        Some(ps) => "\nprompts = ["@ + prompt_items(ps@) + "]\n"@,
        None => Seq::empty(),
    })
}

/// The text of an optional string slice, or `default`.
fn str_or<'a>(o: &'a Option<String>, default: &'a str) -> (r: &'a str)
    ensures
        r@ == text_or(*o, default@),
{
    match o {
        Some(s) => s.as_str(),
        None => default,
    }
}

/// Appends `key`, the quoted `value` and a newline.
fn push_quoted(out: &mut String, key: &str, value: &str)
    ensures
        final(out)@ == old(out)@ + key@ + toml_quote_spec(value@),
{
    push_str(out, key);
    let q = toml_quote(value);
    push_str(out, q.as_str());
}

/// Appends the `[[tools]]` table of one tool entry.
fn push_tool_block(out: &mut String, t: &ToolDraft)
    ensures
        final(out)@ == old(out)@ + tool_block(*t),
{
    push_quoted(out, "\n[[tools]]\nname = ", str_or(&t.name, "unnamed"));
    push_quoted(out, "\ndescription = ", str_or(&t.description, ""));
    push_quoted(out, "\nkind = ", str_or(&t.kind, "shell"));
    push_quoted(out, "\ncommand = ", str_or(&t.command, ""));
    push_str(out, "\n");
    assert(out@ =~= old(out)@ + tool_block(*t));
}

/// Builds the `SKILL.toml` text of a skill from its name and fields.
pub fn build_toml(name: &str, d: &SkillDraft) -> (r: String)
    ensures
        r@ == skill_toml_spec(name@, *d),
{
    let mut toml = String::new();
    push_quoted(&mut toml, "[skill]\nname = ", name);
    push_quoted(&mut toml, "\ndescription = ", str_or(&d.description, "A custom skill"));
    push_quoted(&mut toml, "\nversion = ", str_or(&d.version, "0.1.0"));
    push_str(&mut toml, "\n");
    let ghost head = toml@;
    assert(head =~= "[skill]\nname = "@ + toml_quote_spec(name@) + "\ndescription = "@
        + toml_quote_spec(text_or(d.description, "A custom skill"@)) + "\nversion = "@
        + toml_quote_spec(text_or(d.version, "0.1.0"@)) + "\n"@);
    match &d.tools {
        Some(ts) => {
            let mut i: usize = 0;
            assert(ts@.take(0) =~= Seq::<ToolDraft>::empty());
            while i < ts.len()
                invariant
                    i <= ts.len(),
                    toml@ == head + tool_blocks(ts@.take(i as int)),
                decreases ts.len() - i,
            {
                push_tool_block(&mut toml, &ts[i]);
                proof {
                    assert(ts@.take(i + 1).drop_last() =~= ts@.take(i as int));
                    assert(ts@.take(i + 1).last() == ts@[i as int]);
                }
                i = i + 1;
            }
            assert(ts@.take(ts@.len() as int) =~= ts@);
        },
        None => {},
    }
    let ghost mid = toml@;
    match &d.prompts {
        Some(ps) => {
            push_str(&mut toml, "\nprompts = [");
            let mut i: usize = 0;
            assert(ps@.take(0) =~= Seq::<Option<String>>::empty());
            while i < ps.len()
                invariant
                    i <= ps.len(),
                    toml@ == mid + "\nprompts = ["@ + prompt_items(ps@.take(i as int)),
                decreases ps.len() - i,
            {
                let ghost before = toml@;
                if i > 0 {
                    push_str(&mut toml, ", ");
                }
                let q = toml_quote(str_or(&ps[i], ""));
                push_str(&mut toml, q.as_str());
                proof {
                    assert(ps@.take(i + 1).drop_last() =~= ps@.take(i as int));
                    assert(ps@.take(i + 1).last() == ps@[i as int]);
                    if i == 0 {
                        assert(ps@.take(1)[0] == ps@[0]);
                    }
                    assert(toml@ =~= mid + "\nprompts = ["@ + prompt_items(ps@.take(i + 1)));
                }
                i = i + 1;
            }
            push_str(&mut toml, "]\n");
            assert(ps@.take(ps@.len() as int) =~= ps@);
        },
        None => {},
    }
    toml
}

/// The optional text member `key` of `v`.
pub open spec fn member_text(v: Option<JsonValue>, key: Seq<char>) -> Option<Seq<char>> {
    jstr(jget(v, key))
}

/// The view of an optional string.
pub open spec fn opt_seq(o: Option<String>) -> Option<Seq<char>> {
    match o {
        Some(s) => Some(s@),
        None => None,
    }
}

/// Whether `d` is the tool entry the JSON value `v` describes.
pub open spec fn is_tool_draft(v: JsonValue, d: ToolDraft) -> bool {
    &&& opt_seq(d.name) == member_text(Some(v), "name"@)
    &&& opt_seq(d.description) == member_text(Some(v), "description"@)
    &&& opt_seq(d.kind) == member_text(Some(v), "kind"@)
    &&& opt_seq(d.command) == member_text(Some(v), "command"@)
}

/// Whether `d` holds what the tool arguments `args` give for a skill: its `description`,
/// `version`, `tools` array and `prompts` array (a prompt that is not a string is `None`).
pub open spec fn is_skill_draft(args: JsonValue, d: SkillDraft) -> bool {
    &&& opt_seq(d.description) == member_text(Some(args), "description"@)
    &&& opt_seq(d.version) == member_text(Some(args), "version"@)
    &&& match jget(Some(args), "tools"@) {
        Some(JsonValue::Array(items)) => d.tools matches Some(ts) && ts@.len() == items@.len()
            && forall|k: int| 0 <= k < items@.len() ==> is_tool_draft(items@[k], #[trigger] ts@[k]),
        _ => d.tools is None,
    }
    &&& match jget(Some(args), "prompts"@) {
        Some(JsonValue::Array(items)) => d.prompts matches Some(ps) && ps@.len() == items@.len()
            && forall|k: int| 0 <= k < items@.len() ==> opt_seq(#[trigger] ps@[k]) == jstr(Some(items@[k])),
        _ => d.prompts is None,
    }
}

/// The optional text member `key` of `v`, owned.
fn owned_member(v: &JsonValue, key: &str) -> (r: Option<String>)
    ensures
        opt_seq(r) == member_text(Some(*v), key@),
{
    match as_str(get(Some(v), key)) {
        Some(s) => Some(s.to_string()),
        None => None,
    }
}

/// Reads the fields of a skill from the tool arguments (see `is_skill_draft`).
pub fn skill_draft_from_args(args: &JsonValue) -> (d: SkillDraft)
    ensures
        is_skill_draft(*args, d),
{
    let tools = match get(Some(args), "tools") {
        Some(JsonValue::Array(items)) => {
            let mut ts: Vec<ToolDraft> = Vec::new();
            let mut i: usize = 0;
            while i < items.len()
                invariant
                    i <= items.len(),
                    ts@.len() == i,
                    forall|k: int| 0 <= k < i ==> is_tool_draft(items@[k], #[trigger] ts@[k]),
                decreases items.len() - i,
            {
                let t = &items[i];
                ts.push(
                    ToolDraft {
                        name: owned_member(t, "name"),
                        description: owned_member(t, "description"),
                        kind: owned_member(t, "kind"),
                        command: owned_member(t, "command"),
                    },
                );
                i = i + 1;
            }
            Some(ts)
        },
        _ => None,
    };
    let prompts = match get(Some(args), "prompts") {
        Some(JsonValue::Array(items)) => {
            let mut ps: Vec<Option<String>> = Vec::new();
            let mut i: usize = 0;
            while i < items.len()
                invariant
                    i <= items.len(),
                    ps@.len() == i,
                    forall|k: int| 0 <= k < i ==> opt_seq(#[trigger] ps@[k]) == jstr(Some(items@[k])),
                decreases items.len() - i,
            {
                let p = match as_str(Some(&items[i])) {
                    Some(x) => Some(x.to_string()),
                    None => None,
                };
                ps.push(p);
                i = i + 1;
            }
            Some(ps)
        },
        _ => None,
    };
    SkillDraft {
        description: owned_member(args, "description"),
        version: owned_member(args, "version"),
        tools,
        prompts,
    }
}

/// The refusal for a skill that has no directory.
pub fn skill_not_found_result(name: &str) -> (r: ToolResult)
    ensures
        fails_with(r, "Skill '"@ + name@ + "' not found"@),
{
    let mut m = String::new();
    push_str(&mut m, "Skill '");
    push_str(&mut m, name);
    push_str(&mut m, "' not found");
    ToolResult::failure(m)
}

/// The refusal to create a skill whose directory `path` exists.
pub fn skill_exists_result(name: &str, path: &str) -> (r: ToolResult)
    ensures
        fails_with(r, "Skill '"@ + name@ + "' already exists at "@ + path@),
{
    let mut m = String::new();
    push_str(&mut m, "Skill '");
    push_str(&mut m, name);
    push_str(&mut m, "' already exists at ");
    push_str(&mut m, path);
    ToolResult::failure(m)
}

/// The refusal to read a skill directory that holds neither manifest.
pub fn skill_without_manifest_result(name: &str) -> (r: ToolResult)
    ensures
        fails_with(r, "Skill '"@ + name@ + "' has no SKILL.toml or SKILL.md"@),
{
    let mut m = String::new();
    push_str(&mut m, "Skill '");
    push_str(&mut m, name);
    push_str(&mut m, "' has no SKILL.toml or SKILL.md");
    ToolResult::failure(m)
}

/// The file a create or update writes and its text: the given `content` as `SKILL.md`,
/// else the generated manifest as `SKILL.toml`.
pub fn skill_file_to_write(name: &str, content: Option<&str>, d: &SkillDraft) -> (r: (
    &'static str,
    String,
))
    ensures
        match content {
            Some(c) => r.0@ == "SKILL.md"@ && r.1@ == c@,
            None => r.0@ == "SKILL.toml"@ && r.1@ == skill_toml_spec(name@, *d),
        },
{
    match content {
        Some(c) => ("SKILL.md", c.to_string()),
        None => ("SKILL.toml", build_toml(name, d)),
    }
}

/// Refuses to delete a skill whose resolved path `canonical` lies outside the resolved
/// skills directory `canonical_base` (component-wise, as `Path::starts_with` compares).
pub fn delete_escape_refusal(canonical: &str, canonical_base: &str) -> (r: Option<ToolResult>)
    ensures
        spec_path_strip_prefix(canonical@, canonical_base@) is Some ==> r is None,
        spec_path_strip_prefix(canonical@, canonical_base@) is None ==> (r matches Some(t)
            && fails_with(t, "Skill path escapes the skills directory"@)),
{
    match path_strip_prefix(canonical, canonical_base) {
        Some(_) => None,
        None => Some(ToolResult::failure("Skill path escapes the skills directory".to_string())),
    }
}

} // verus!
