use zeroclaw_core::docs_sync::client::{
    batch_update_url, batch_update_wait_ms, check_response, create_document_url, created_document_id,
    raw_content_of, raw_content_url, retry_step, token_from_response, token_url, AttemptOutcome,
    RetryStep,
};
use zeroclaw_core::docs_sync::share::{
    is_watched_edit, needs_sharing, passes_debounce, record_shared, remote_block_step,
    share_card_markdown, shared_users_path,
};
use zeroclaw_core::json::JsonValue;
use zeroclaw_core::skills::cli::{
    handle_skills_command, skill_audit_target, skill_detail_lines, skill_remove_escape, SkillCommands,
    SkillsCliPlan,
};
use zeroclaw_core::skills::{Skill, SkillTool};
use zeroclaw_core::tools::skill_manage::{
    build_toml, delete_escape_refusal, skill_draft_from_args, skill_exists_result, skill_file_to_write,
    skill_not_found_result, skill_without_manifest_result,
};
use zeroclaw_core::tools::vpn_control::{
    disable_refusal, enable_refusal, needs_write_access, parse_vpn_action, required_parameter,
    subscription_refusal, unknown_node_result, VpnAction,
};

fn s(x: &str) -> JsonValue {
    JsonValue::Str(x.to_string())
}

fn obj(members: Vec<(&str, JsonValue)>) -> JsonValue {
    JsonValue::Object(members.into_iter().map(|(k, v)| (k.to_string(), v)).collect())
}

fn num(n: i64) -> JsonValue {
    JsonValue::Number(Some(n), if n >= 0 { Some(n as u64) } else { None })
}

fn strings(v: &[&str]) -> Vec<String> {
    v.iter().map(|x| x.to_string()).collect()
}

// ---- the Feishu Docs client ----

#[test]
fn docs_client_endpoints() {
    assert_eq!(token_url(), "https://open.feishu.cn/open-apis/auth/v3/tenant_access_token/internal");
    assert_eq!(raw_content_url("doc1"), "https://open.feishu.cn/open-apis/docx/v1/documents/doc1/raw_content");
    assert_eq!(
        batch_update_url("doc1"),
        "https://open.feishu.cn/open-apis/docx/v1/documents/doc1/blocks/batch_update"
    );
    assert_eq!(create_document_url(), "https://open.feishu.cn/open-apis/docx/v1/documents");
}

#[test]
fn docs_client_response_checks() {
    let ok = obj(vec![("code", num(0))]);
    assert!(check_response("create_document", true, "200 OK", &ok, "{}").is_ok());
    assert_eq!(
        check_response("create_document", false, "503 Service Unavailable", &ok, "{}").unwrap_err(),
        "Feishu create_document failed: status=503 Service Unavailable, body={}"
    );
    let bad = obj(vec![("code", num(1254000)), ("msg", s("forbidden"))]);
    assert_eq!(
        check_response("batch_update_blocks", true, "200 OK", &bad, "{}").unwrap_err(),
        "Feishu batch_update_blocks error: forbidden"
    );
    assert_eq!(
        check_response("get_raw_content", true, "200 OK", &obj(vec![]), "{}").unwrap_err(),
        "Feishu get_raw_content error: unknown"
    );
}

#[test]
fn docs_client_reads_payloads() {
    let raw = obj(vec![("data", obj(vec![("content", s("hello"))]))]);
    assert_eq!(raw_content_of(&raw), "hello");
    assert_eq!(raw_content_of(&obj(vec![])), "");
    let created = obj(vec![("data", obj(vec![("document", obj(vec![("document_id", s("doxcn1"))]))]))]);
    assert_eq!(created_document_id(&created), Ok("doxcn1".to_string()));
    assert_eq!(created_document_id(&obj(vec![])), Err("missing document_id in create response".to_string()));
}

#[test]
fn docs_client_token_lifetime() {
    let t = obj(vec![("code", num(0)), ("tenant_access_token", s("t")), ("expire", num(7200))]);
    assert_eq!(token_from_response(true, "200", &t, "{}"), Ok(("t".to_string(), 7080)));
    let short = obj(vec![("code", num(0)), ("tenant_access_token", s("t")), ("expires_in", num(60))]);
    assert_eq!(token_from_response(true, "200", &short, "{}"), Ok(("t".to_string(), 1)));
    let none = obj(vec![("code", num(0)), ("tenant_access_token", s("t"))]);
    assert_eq!(token_from_response(true, "200", &none, "{}"), Ok(("t".to_string(), 7080)));
    let missing = obj(vec![("code", num(0))]);
    assert_eq!(token_from_response(true, "200", &missing, "{}"), Err("missing tenant_access_token".to_string()));
    let refused = obj(vec![("code", num(5)), ("msg", s("bad secret"))]);
    assert_eq!(
        token_from_response(true, "200", &refused, "{}"),
        Err("Feishu tenant_access_token failed: bad secret".to_string())
    );
}

#[test]
fn docs_client_retry_policy() {
    let ok = AttemptOutcome::Status { status: 200, retry_after_ms: None };
    assert_eq!(retry_step(0, &ok, 1000), RetryStep::Deliver);
    let not_found = AttemptOutcome::Status { status: 404, retry_after_ms: None };
    assert_eq!(retry_step(0, &not_found, 1000), RetryStep::Deliver);
    let busy = AttemptOutcome::Status { status: 503, retry_after_ms: None };
    assert_eq!(retry_step(0, &busy, 1000), RetryStep::Retry { wait_ms: 1000, next_backoff_ms: 2000 });
    assert_eq!(retry_step(2, &busy, 8000), RetryStep::Retry { wait_ms: 8000, next_backoff_ms: 10000 });
    assert_eq!(retry_step(3, &busy, 8000), RetryStep::Deliver);
    let limited = AttemptOutcome::Status { status: 429, retry_after_ms: Some(90_000) };
    assert_eq!(retry_step(1, &limited, 2000), RetryStep::Retry { wait_ms: 30_000, next_backoff_ms: 4000 });
    let limited_plain = AttemptOutcome::Status { status: 429, retry_after_ms: None };
    assert_eq!(retry_step(1, &limited_plain, 2000), RetryStep::Retry { wait_ms: 2000, next_backoff_ms: 4000 });
    assert_eq!(retry_step(0, &AttemptOutcome::NetworkError, 1000), RetryStep::Retry { wait_ms: 1000, next_backoff_ms: 2000 });
    assert_eq!(retry_step(3, &AttemptOutcome::NetworkError, 1000), RetryStep::Fail);
    assert_eq!(batch_update_wait_ms(100), 234);
    assert_eq!(batch_update_wait_ms(400), 0);
}

// ---- sharing and remote edits ----

#[test]
fn sharing_bookkeeping() {
    assert_eq!(shared_users_path("/w/docs_sync.lock"), "/w/docs_sync_shared_users.json");
    let mut users = strings(&["ou_a"]);
    assert!(!needs_sharing(&users, "ou_a"));
    assert!(needs_sharing(&users, "ou_b"));
    assert!(!record_shared(&mut users, "ou_b", true));
    assert_eq!(users, strings(&["ou_a"]));
    assert!(record_shared(&mut users, "ou_b", false));
    assert_eq!(users, strings(&["ou_a", "ou_b"]));
    assert_eq!(
        share_card_markdown("MEMORY.md", "doxcn1"),
        "文件 **MEMORY.md** 已同步到飞书文档，你拥有可编辑权限。\n\n[打开文档](https://feishu.cn/docx/doxcn1)"
    );
}

#[test]
fn edit_events_and_debounce() {
    assert!(is_watched_edit("drive.file.edit_v1", Some("doc1"), "doc1"));
    assert!(!is_watched_edit("drive.file.edit_v1", Some("doc2"), "doc1"));
    assert!(is_watched_edit("drive.file.edit_v1", Some(""), "doc1"));
    assert!(is_watched_edit("drive.file.edit_v1", Some("doc2"), ""));
    assert!(!is_watched_edit("im.message.receive_v1", Some("doc1"), "doc1"));
    assert!(passes_debounce(None, 10));
    assert!(!passes_debounce(Some(1000), 1400));
    assert!(passes_debounce(Some(1000), 1500));
}

#[test]
fn remote_blocks_respect_the_sync_list() {
    assert_eq!(remote_block_step("notes.md", false, false, "x"), Ok(false));
    assert_eq!(remote_block_step("notes.md", true, true, "x"), Ok(false));
    assert_eq!(remote_block_step("notes.md", true, false, "[security]"), Ok(true));
    assert_eq!(
        remote_block_step("config.toml", true, false, "[gateway]\nport = 1"),
        Err("Remote config contains forbidden section [gateway]; rejecting sync".to_string())
    );
}

// ---- the skills command line ----

#[test]
fn skills_cli_plans() {
    assert!(matches!(handle_skills_command(SkillCommands::List), SkillsCliPlan::List));
    match handle_skills_command(SkillCommands::Install { source: "https://github.com/a/b".to_string() }) {
        SkillsCliPlan::InstallGit { source } => assert_eq!(source, "https://github.com/a/b"),
        _ => panic!("expected a git install"),
    }
    match handle_skills_command(SkillCommands::Install { source: "./my-skill".to_string() }) {
        SkillsCliPlan::InstallLocal { source } => assert_eq!(source, "./my-skill"),
        _ => panic!("expected a local install"),
    }
    match handle_skills_command(SkillCommands::Remove { name: "../etc".to_string() }) {
        SkillsCliPlan::Refused(m) => assert_eq!(m, "Invalid skill name: ../etc"),
        _ => panic!("expected a refusal"),
    }
    match handle_skills_command(SkillCommands::Remove { name: "weather".to_string() }) {
        SkillsCliPlan::Remove { name } => assert_eq!(name, "weather"),
        _ => panic!("expected a removal"),
    }
}

#[test]
fn skills_cli_paths_and_listing() {
    assert_eq!(skill_audit_target("./x", true, "/w/skills"), "./x");
    assert_eq!(skill_audit_target("x", false, "/w/skills"), "/w/skills/x");
    assert_eq!(skill_remove_escape(Some("/w/skills/x"), "/w/skills", "x"), None);
    assert_eq!(
        skill_remove_escape(Some("/etc/x"), "/w/skills", "x"),
        Some("Skill path escapes skills directory: x".to_string())
    );
    assert_eq!(skill_remove_escape(None, "/w/skills", "x"), None);
    let skill = Skill {
        name: "weather".to_string(),
        description: "d".to_string(),
        version: "1.0.0".to_string(),
        author: None,
        tags: strings(&["net", "api"]),
        tools: vec![SkillTool {
            name: "forecast".to_string(),
            description: String::new(),
            kind: "shell".to_string(),
            command: "curl x".to_string(),
            args: Default::default(),
        }],
        prompts: vec![],
        location: None,
    };
    assert_eq!(skill_detail_lines(&skill), strings(&["    Tools: forecast", "    Tags:  net, api"]));
}

// ---- the skill tool ----

#[test]
fn skill_tool_reads_arguments_into_a_manifest() {
    let args = obj(vec![
        ("name", s("weather")),
        ("description", s("Weather lookups")),
        (
            "tools",
            JsonValue::Array(vec![obj(vec![("name", s("forecast")), ("command", s("curl wttr.in"))])]),
        ),
        ("prompts", JsonValue::Array(vec![s("Be brief"), num(3)])),
    ]);
    let draft = skill_draft_from_args(&args);
    assert_eq!(
        build_toml("weather", &draft),
        "[skill]\nname = \"weather\"\ndescription = \"Weather lookups\"\nversion = \"0.1.0\"\n\n[[tools]]\nname = \"forecast\"\ndescription = \"\"\nkind = \"shell\"\ncommand = \"curl wttr.in\"\n\nprompts = [\"Be brief\", \"\"]\n"
    );
    let (file, text) = skill_file_to_write("weather", Some("# Weather"), &draft);
    assert_eq!((file, text.as_str()), ("SKILL.md", "# Weather"));
    let (file, _) = skill_file_to_write("weather", None, &draft);
    assert_eq!(file, "SKILL.toml");
}

#[test]
fn skill_tool_refusals() {
    assert_eq!(skill_not_found_result("x").error, Some("Skill 'x' not found".to_string()));
    assert_eq!(
        skill_exists_result("x", "/w/skills/x").error,
        Some("Skill 'x' already exists at /w/skills/x".to_string())
    );
    assert_eq!(
        skill_without_manifest_result("x").error,
        Some("Skill 'x' has no SKILL.toml or SKILL.md".to_string())
    );
    assert!(delete_escape_refusal("/w/skills/x", "/w/skills").is_none());
    assert_eq!(
        delete_escape_refusal("/tmp/x", "/w/skills").unwrap().error,
        Some("Skill path escapes the skills directory".to_string())
    );
}

// ---- the VPN tool ----

#[test]
fn vpn_actions() {
    assert_eq!(parse_vpn_action(&obj(vec![("action", s("STATUS"))])).ok(), Some(VpnAction::Status));
    assert_eq!(parse_vpn_action(&obj(vec![("action", s("switch_node"))])).ok(), Some(VpnAction::SwitchNode));
    let err = parse_vpn_action(&obj(vec![("action", s("Bogus"))])).err().unwrap().error.unwrap();
    assert!(err.contains("Unknown action"));
    assert_eq!(
        err,
        "Unknown action 'bogus'. Valid: status, enable, disable, list_nodes, switch_node, refresh, add_bypass, remove_bypass"
    );
    assert!(!needs_write_access(VpnAction::ListNodes));
    assert!(needs_write_access(VpnAction::AddBypass));
}

#[test]
fn vpn_refusals() {
    assert_eq!(
        required_parameter(&obj(vec![]), "node_name").err().unwrap().error,
        Some("Missing required parameter 'node_name'".to_string())
    );
    assert_eq!(required_parameter(&obj(vec![("domain", s("a.com"))]), "domain").ok(), Some("a.com".to_string()));
    assert_eq!(enable_refusal(true, Some("u")).unwrap().error, Some("VPN is already enabled".to_string()));
    assert_eq!(
        enable_refusal(false, Some("")).unwrap().error,
        Some("No VPN subscription URL configured".to_string())
    );
    assert!(enable_refusal(false, Some("https://sub")).is_none());
    assert!(subscription_refusal(None).is_some());
    assert_eq!(disable_refusal(false).unwrap().error, Some("VPN is not enabled".to_string()));
    assert!(disable_refusal(true).is_none());
    assert_eq!(unknown_node_result("hk").error, Some("Node 'hk' not found in node list".to_string()));
}
