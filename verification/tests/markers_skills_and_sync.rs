use std::collections::HashMap;
use std::time::{Duration, Instant};

use zeroclaw_core::docs_sync::{parse_code_blocks, serialize_to_code_blocks, validate_remote_config, FileMap};
use zeroclaw_core::hooks::dynamic::DynamicHookHandler;
use zeroclaw_core::hooks::loader::LoadedHook;
use zeroclaw_core::hooks::manifest::{HookAction, HookEvent, HookManifest};
use zeroclaw_core::lark::{
    next_token_refresh_deadline, parse_lark_attachment_markers, parse_lark_image_markers,
    resolve_feishu_file_type, LarkAttachmentKind,
};
use zeroclaw_core::multimodal::{
    parse_image_markers, parse_video_markers, validate_video_mime, video_mime_from_magic,
};
use zeroclaw_core::skills::sources::{
    is_git_source, open_skills_enabled_from_sources, resolve_open_skills_dir_from_sources,
};
use zeroclaw_core::skills::{
    skills_dir, skills_to_prompt, skills_to_prompt_with_mode, Skill, SkillTool, SkillsPromptInjectionMode,
    SkillsState,
};
use zeroclaw_core::tools::skill_manage::validate_skill_name;

#[test]
fn lark_next_token_refresh_deadline_reserves_refresh_skew() {
    let now = Instant::now();
    let regular = next_token_refresh_deadline(now, 7200).unwrap();
    let short_ttl = next_token_refresh_deadline(now, 60).unwrap();

    assert_eq!(regular.duration_since(now), Duration::from_secs(7080));
    assert_eq!(short_ttl.duration_since(now), Duration::from_secs(1));
}

#[test]
fn parse_lark_image_markers_extracts_images() {
    let msg = "Here is an image [IMAGE:/tmp/a.png] and text";
    let (cleaned, images) = parse_lark_image_markers(msg);
    assert_eq!(cleaned, "Here is an image  and text");
    assert_eq!(images, vec!["/tmp/a.png"]);
}

#[test]
fn parse_lark_image_markers_url() {
    let msg = "[IMAGE:https://example.com/img.jpg]";
    let (cleaned, images) = parse_lark_image_markers(msg);
    assert!(cleaned.is_empty());
    assert_eq!(images, vec!["https://example.com/img.jpg"]);
}

#[test]
fn parse_lark_image_markers_no_markers() {
    let msg = "plain text [BOLD:test]";
    let (cleaned, images) = parse_lark_image_markers(msg);
    assert_eq!(cleaned, "plain text [BOLD:test]");
    assert!(images.is_empty());
}

#[test]
fn parse_lark_attachment_markers_all_types() {
    let msg = "Hello [IMAGE:/tmp/a.png] world [DOCUMENT:/tmp/b.pdf] foo [AUDIO:/tmp/c.opus] bar [VIDEO:/tmp/d.mp4]";
    let (cleaned, attachments) = parse_lark_attachment_markers(msg);
    assert_eq!(cleaned, "Hello  world  foo  bar");
    assert_eq!(attachments.len(), 4);
    assert_eq!(attachments[0].kind, LarkAttachmentKind::Image);
    assert_eq!(attachments[0].target, "/tmp/a.png");
    assert_eq!(attachments[1].kind, LarkAttachmentKind::Document);
    assert_eq!(attachments[1].target, "/tmp/b.pdf");
    assert_eq!(attachments[2].kind, LarkAttachmentKind::Audio);
    assert_eq!(attachments[2].target, "/tmp/c.opus");
    assert_eq!(attachments[3].kind, LarkAttachmentKind::Video);
    assert_eq!(attachments[3].target, "/tmp/d.mp4");
}

#[test]
fn parse_lark_attachment_markers_case_insensitive() {
    let msg = "[document:/tmp/a.pdf] [Audio:/tmp/b.ogg] [VIDEO:/tmp/c.mp4]";
    let (cleaned, attachments) = parse_lark_attachment_markers(msg);
    assert!(cleaned.is_empty());
    assert_eq!(attachments.len(), 3);
    assert_eq!(attachments[0].kind, LarkAttachmentKind::Document);
    assert_eq!(attachments[1].kind, LarkAttachmentKind::Audio);
    assert_eq!(attachments[2].kind, LarkAttachmentKind::Video);
}

#[test]
fn parse_lark_attachment_markers_unknown_kind_preserved() {
    let msg = "text [UNKNOWN:/tmp/x] more";
    let (cleaned, attachments) = parse_lark_attachment_markers(msg);
    assert_eq!(cleaned, "text [UNKNOWN:/tmp/x] more");
    assert!(attachments.is_empty());
}

#[test]
fn resolve_feishu_file_type_known_extensions() {
    assert_eq!(resolve_feishu_file_type("pdf"), "pdf");
    assert_eq!(resolve_feishu_file_type("doc"), "doc");
    assert_eq!(resolve_feishu_file_type("docx"), "doc");
    assert_eq!(resolve_feishu_file_type("xls"), "xls");
    assert_eq!(resolve_feishu_file_type("xlsx"), "xls");
    assert_eq!(resolve_feishu_file_type("ppt"), "ppt");
    assert_eq!(resolve_feishu_file_type("pptx"), "ppt");
    assert_eq!(resolve_feishu_file_type("opus"), "opus");
    assert_eq!(resolve_feishu_file_type("ogg"), "opus");
    assert_eq!(resolve_feishu_file_type("mp4"), "mp4");
}

#[test]
fn resolve_feishu_file_type_unknown_falls_back_to_stream() {
    assert_eq!(resolve_feishu_file_type("zip"), "stream");
    assert_eq!(resolve_feishu_file_type("txt"), "stream");
    assert_eq!(resolve_feishu_file_type("png"), "stream");
    assert_eq!(resolve_feishu_file_type(""), "stream");
}

#[test]
fn resolve_feishu_file_type_case_insensitive() {
    assert_eq!(resolve_feishu_file_type("PDF"), "pdf");
    assert_eq!(resolve_feishu_file_type("DOCX"), "doc");
    assert_eq!(resolve_feishu_file_type("Mp4"), "mp4");
}

#[test]
fn test_code_block_roundtrip() {
    let mut files = FileMap::new();
    files.insert("config.toml".to_string(), "[agent]\ncompact_context = true".to_string());
    files.insert("IDENTITY.md".to_string(), "# Identity\nI am ZeroClaw.".to_string());

    let serialized = serialize_to_code_blocks(&files);
    let parsed = parse_code_blocks(&serialized);

    assert_eq!(parsed.len(), 2);
    assert_eq!(parsed.get("config.toml").unwrap(), "[agent]\ncompact_context = true");
    assert_eq!(parsed.get("IDENTITY.md").unwrap(), "# Identity\nI am ZeroClaw.");
}

#[test]
fn test_validate_remote_config_rejects_security() {
    let content = "[agent]\ncompact_context = true\n[security]\nsome_key = true";
    assert!(validate_remote_config(content).is_err());
}

#[test]
fn test_validate_remote_config_rejects_gateway() {
    let content = "[gateway]\nport = 9999";
    assert!(validate_remote_config(content).is_err());
}

#[test]
fn test_validate_remote_config_rejects_autonomy() {
    let content = "[autonomy]\nlevel = \"full\"";
    assert!(validate_remote_config(content).is_err());
}

#[test]
fn test_validate_remote_config_allows_safe_content() {
    let content = "[agent]\ncompact_context = true\n[memory]\nbackend = \"sqlite\"";
    assert!(validate_remote_config(content).is_ok());
}

fn make_hook(name: &str, event: HookEvent, priority: i32, action: HookAction) -> LoadedHook {
    LoadedHook {
        manifest: HookManifest {
            name: name.to_string(),
            description: None,
            version: None,
            event,
            priority,
            enabled: true,
            conditions: None,
            action,
            skip_security_audit: true,
        },
        hook_dir: "/tmp/test-hook".to_string(),
    }
}

fn shell_action(cmd: &str) -> HookAction {
    HookAction::Shell { command: cmd.to_string(), timeout_secs: None, workdir: None }
}

#[test]
fn name_and_priority_from_manifest() {
    let hook = make_hook("test-hook", HookEvent::OnSessionStart, 42, shell_action("echo hi"));
    let handler = DynamicHookHandler::new(hook, 30);
    assert_eq!(handler.name(), "test-hook");
    assert_eq!(handler.priority(), 42);
}

#[test]
fn disabled_hook_does_not_match() {
    let mut hook = make_hook("disabled-hook", HookEvent::OnSessionStart, 5, shell_action("echo hi"));
    hook.manifest.enabled = false;
    let handler = DynamicHookHandler::new(hook, 30);
    assert!(!handler.matches_event(HookEvent::OnSessionStart));
}

#[test]
fn display_hook_event() {
    assert_eq!(HookEvent::OnGatewayStart.to_string(), "on_gateway_start");
    assert_eq!(HookEvent::BeforeToolCall.to_string(), "before_tool_call");
    assert_eq!(HookEvent::OnMessageSending.to_string(), "on_message_sending");
}

#[test]
fn parse_image_markers_extracts_multiple_markers() {
    let input = "Check this [IMAGE:/tmp/a.png] and this [IMAGE:https://example.com/b.jpg]";
    let (cleaned, refs) = parse_image_markers(input);

    assert_eq!(cleaned, "Check this  and this");
    assert_eq!(refs.len(), 2);
    assert_eq!(refs[0], "/tmp/a.png");
    assert_eq!(refs[1], "https://example.com/b.jpg");
}

#[test]
fn parse_image_markers_keeps_invalid_empty_marker() {
    let input = "hello [IMAGE:] world";
    let (cleaned, refs) = parse_image_markers(input);

    assert_eq!(cleaned, "hello [IMAGE:] world");
    assert!(refs.is_empty());
}

#[test]
fn parse_video_markers_extracts_multiple_markers() {
    let input = "Check [VIDEO:https://example.com/v.mp4] and [VIDEO:https://example.com/w.webm]";
    let (cleaned, refs) = parse_video_markers(input);
    assert_eq!(cleaned, "Check  and");
    assert_eq!(refs.len(), 2);
    assert_eq!(refs[0], "https://example.com/v.mp4");
    assert_eq!(refs[1], "https://example.com/w.webm");
}

#[test]
fn parse_video_markers_keeps_empty_marker() {
    let input = "hello [VIDEO:] world";
    let (cleaned, refs) = parse_video_markers(input);
    assert_eq!(cleaned, "hello [VIDEO:] world");
    assert!(refs.is_empty());
}

#[test]
fn video_and_image_markers_coexist() {
    let input = "See [IMAGE:a.png] and [VIDEO:v.mp4] here";
    let (img_cleaned, img_refs) = parse_image_markers(input);
    let (vid_cleaned, vid_refs) = parse_video_markers(input);

    assert_eq!(img_refs.len(), 1);
    assert_eq!(img_refs[0], "a.png");
    assert!(img_cleaned.contains("[VIDEO:v.mp4]"));

    assert_eq!(vid_refs.len(), 1);
    assert_eq!(vid_refs[0], "v.mp4");
    assert!(vid_cleaned.contains("[IMAGE:a.png]"));
}

#[test]
fn video_mime_from_magic_detects_mp4_ftyp() {
    let bytes: &[u8] = &[0x00, 0x00, 0x00, 0x20, b'f', b't', b'y', b'p'];
    assert_eq!(video_mime_from_magic(bytes), Some("video/mp4"));
}

#[test]
fn video_mime_from_magic_detects_webm_ebml() {
    let bytes: &[u8] = &[0x1a, 0x45, 0xdf, 0xa3];
    assert_eq!(video_mime_from_magic(bytes), Some("video/webm"));
}

#[test]
fn validate_video_mime_accepts_valid_rejects_invalid() {
    assert!(validate_video_mime("test.mp4", "video/mp4").is_ok());
    assert!(validate_video_mime("test.png", "image/png").is_err());
}

#[test]
fn skills_to_prompt_empty() {
    let prompt = skills_to_prompt(&[], "/tmp");
    assert!(prompt.is_empty());
}

#[test]
fn skills_to_prompt_with_skills() {
    let skills = vec![Skill {
        name: "test".to_string(),
        description: "A test".to_string(),
        version: "1.0.0".to_string(),
        author: None,
        tags: vec![],
        tools: vec![],
        prompts: vec!["Do the thing.".to_string()],
        location: None,
    }];
    let prompt = skills_to_prompt(&skills, "/tmp");
    assert!(prompt.contains("<available_skills>"));
    assert!(prompt.contains("<name>test</name>"));
    assert!(prompt.contains("<instruction>Do the thing.</instruction>"));
}

#[test]
fn skills_to_prompt_compact_mode_omits_instructions_and_tools() {
    let skills = vec![Skill {
        name: "test".to_string(),
        description: "A test".to_string(),
        version: "1.0.0".to_string(),
        author: None,
        tags: vec![],
        tools: vec![SkillTool {
            name: "run".to_string(),
            description: "Run task".to_string(),
            kind: "shell".to_string(),
            command: "echo hi".to_string(),
            args: HashMap::new(),
        }],
        prompts: vec!["Do the thing.".to_string()],
        location: Some("/tmp/workspace/skills/test/SKILL.md".to_string()),
    }];
    let prompt = skills_to_prompt_with_mode(&skills, "/tmp/workspace", SkillsPromptInjectionMode::Compact);

    assert!(prompt.contains("<available_skills>"));
    assert!(prompt.contains("<name>test</name>"));
    assert!(prompt.contains("<location>skills/test/SKILL.md</location>"));
    assert!(prompt.contains("loaded on demand"));
    assert!(!prompt.contains("<instructions>"));
    assert!(!prompt.contains("<instruction>Do the thing.</instruction>"));
    assert!(!prompt.contains("<tools>"));
}

#[test]
fn skills_to_prompt_includes_tools() {
    let skills = vec![Skill {
        name: "weather".to_string(),
        description: "Get weather".to_string(),
        version: "1.0.0".to_string(),
        author: None,
        tags: vec![],
        tools: vec![SkillTool {
            name: "get_weather".to_string(),
            description: "Fetch forecast".to_string(),
            kind: "shell".to_string(),
            command: "curl wttr.in".to_string(),
            args: HashMap::new(),
        }],
        prompts: vec![],
        location: None,
    }];
    let prompt = skills_to_prompt(&skills, "/tmp");
    assert!(prompt.contains("weather"));
    assert!(prompt.contains("<name>get_weather</name>"));
    assert!(prompt.contains("<description>Fetch forecast</description>"));
    assert!(prompt.contains("<kind>shell</kind>"));
}

#[test]
fn skills_to_prompt_escapes_xml_content() {
    let skills = vec![Skill {
        name: "xml<skill>".to_string(),
        description: "A & B".to_string(),
        version: "1.0.0".to_string(),
        author: None,
        tags: vec![],
        tools: vec![],
        prompts: vec!["Use <tool> & check \"quotes\".".to_string()],
        location: None,
    }];

    let prompt = skills_to_prompt(&skills, "/tmp");
    assert!(prompt.contains("<name>xml&lt;skill&gt;</name>"));
    assert!(prompt.contains("<description>A &amp; B</description>"));
    assert!(prompt.contains("<instruction>Use &lt;tool&gt; &amp; check &quot;quotes&quot;.</instruction>"));
}

#[test]
fn git_source_detection_accepts_remote_protocols_and_scp_style() {
    let sources = [
        "https://github.com/some-org/some-skill.git",
        "http://github.com/some-org/some-skill.git",
        "ssh://git@github.com/some-org/some-skill.git",
        "git://github.com/some-org/some-skill.git",
        "git@github.com:some-org/some-skill.git",
        "git@localhost:skills/some-skill.git",
    ];

    for source in sources {
        assert!(is_git_source(source), "expected git source detection for '{source}'");
    }
}

#[test]
fn git_source_detection_rejects_local_paths_and_invalid_inputs() {
    let sources = [
        "./skills/local-skill",
        "/tmp/skills/local-skill",
        "C:\\skills\\local-skill",
        "git@github.com",
        "ssh://",
        "not-a-url",
        "dir/git@github.com:org/repo.git",
    ];

    for source in sources {
        assert!(!is_git_source(source), "expected local/invalid source detection for '{source}'");
    }
}

#[test]
fn skills_dir_path() {
    let base = "/home/user/.zeroclaw";
    let dir = skills_dir(base);
    assert_eq!(dir, "/home/user/.zeroclaw/skills");
}

#[test]
fn open_skills_enabled_resolution_prefers_env_then_config_then_default_false() {
    assert!(!open_skills_enabled_from_sources(None, None));
    assert!(open_skills_enabled_from_sources(Some(true), None));
    assert!(!open_skills_enabled_from_sources(Some(true), Some("0")));
    assert!(open_skills_enabled_from_sources(Some(false), Some("yes")));
    assert!(open_skills_enabled_from_sources(Some(true), Some("invalid")));
    assert!(!open_skills_enabled_from_sources(Some(false), Some("invalid")));
}

#[test]
fn resolve_open_skills_dir_resolution_prefers_env_then_config_then_home() {
    let home = "/tmp/home-dir";
    assert_eq!(
        resolve_open_skills_dir_from_sources(Some("/tmp/env-skills"), Some("/tmp/config"), Some(home)),
        Some("/tmp/env-skills".to_string())
    );
    assert_eq!(
        resolve_open_skills_dir_from_sources(Some("   "), Some("/tmp/config-skills"), Some(home)),
        Some("/tmp/config-skills".to_string())
    );
    assert_eq!(
        resolve_open_skills_dir_from_sources(None, None, Some(home)),
        Some("/tmp/home-dir/open-skills".to_string())
    );
    assert_eq!(resolve_open_skills_dir_from_sources(None, None, None), None);
}

#[test]
fn test_skills_state_default() {
    let state = SkillsState::new();
    assert!(state.skills.is_empty());
    assert!(!state.dirty);

    let state2 = SkillsState::default();
    assert!(state2.skills.is_empty());
    assert!(!state2.dirty);
}

#[test]
fn validate_name_accepts_valid_names() {
    assert!(validate_skill_name("my-skill").is_ok());
    assert!(validate_skill_name("skill_v2").is_ok());
    assert!(validate_skill_name("A").is_ok());
    assert!(validate_skill_name("a1b2c3").is_ok());
}

#[test]
fn validate_name_rejects_empty_and_long() {
    assert!(validate_skill_name("").is_err());
    let long = "a".repeat(65);
    assert!(validate_skill_name(&long).is_err());
}

#[test]
fn test_create_skill_path_traversal() {
    assert!(validate_skill_name("../../etc/passwd").is_err());
    assert!(validate_skill_name("foo/../bar").is_err());
    assert!(validate_skill_name("foo/bar").is_err());
    assert!(validate_skill_name("foo\\bar").is_err());
}

#[test]
fn test_create_skill_windows_reserved() {
    assert!(validate_skill_name("CON").is_err());
    assert!(validate_skill_name("con").is_err());
    assert!(validate_skill_name("PRN").is_err());
    assert!(validate_skill_name("AUX").is_err());
    assert!(validate_skill_name("NUL").is_err());
    assert!(validate_skill_name("COM1").is_err());
    assert!(validate_skill_name("LPT1").is_err());
}
