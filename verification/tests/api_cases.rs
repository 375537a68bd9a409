use zeroclaw_core::docs_sync::worker::{
    local_change_filename, lock_file_path, plan_pull, resolve_credentials, sync_interval_secs,
    AppCredentials, PullPlan,
};
use zeroclaw_core::hooks::audit::relative_display;
use zeroclaw_core::hooks::cli::{
    builtin_hook_row, handle_hooks_command, hook_table_row, HooksCliPlan, HooksCommands,
};
use zeroclaw_core::hooks::dynamic::{shell_flag, shell_program, DynamicHookHandler, HookResult, HookStep};
use zeroclaw_core::hooks::loader::LoadedHook;
use zeroclaw_core::hooks::manifest::{default_enabled, HookAction, HookConditions, HookEvent, HookManifest};
use zeroclaw_core::hooks::runner::{pipeline_step, HandlerOutcome};
use zeroclaw_core::lark::fragments::FragmentCache;
use zeroclaw_core::lark::ws::{
    ack_frame, fragment_position, heartbeat_expired, initial_ping_secs, next_timeout_backoff_ms,
    ping_frame, pong_ping_update, service_id_from_url, should_refresh_last_recv, PbFrame, PbHeader,
    WsMessageKind,
};
use zeroclaw_core::lark::LarkPlatform;
use zeroclaw_core::multimodal::{
    check_media_limits, classify_image_reference, compose_multimodal_message, contains_image_markers,
    contains_video_markers, detect_mime, message_media, ChatMessage, ImageSourceKind, MultimodalError,
};
use zeroclaw_core::providers::{
    external_provider_setup, ExternalAuthStyle, ExternalProviderConfig, ExtraValue, ProviderProtocol,
    ProviderSetup,
};
use zeroclaw_core::skills::sources::{open_skills_sync_due, pick_installed_directory, MarkerAge};
use zeroclaw_core::tools::docs_sync::missing_file_result;
use zeroclaw_core::tools::skill_manage::{extract_name, parse_skill_action, SkillAction};

// ── Lark platform settings ──

#[test]
fn platform_ws_base_proxy_key_and_locale() {
    assert_eq!(LarkPlatform::Lark.ws_base(), "https://open.larksuite.com");
    assert_eq!(LarkPlatform::Feishu.ws_base(), "https://open.feishu.cn");
    assert_eq!(LarkPlatform::Lark.proxy_service_key(), "lark");
    assert_eq!(LarkPlatform::Feishu.proxy_service_key(), "feishu");
    assert_eq!(LarkPlatform::Lark.locale_header(), "en_us");
    assert_eq!(LarkPlatform::Feishu.locale_header(), "zh_cn");
}

// ── Long connection ──

fn header(k: &str, v: &str) -> PbHeader {
    PbHeader { key: k.to_string(), value: v.to_string() }
}

#[test]
fn service_id_is_read_from_the_query() {
    assert_eq!(service_id_from_url("wss://host/ws?device_id=7&service_id=42"), 42);
    assert_eq!(service_id_from_url("wss://host/ws?service_id=-3"), -3);
    assert_eq!(service_id_from_url("wss://host/ws"), 0);
    assert_eq!(service_id_from_url("wss://host/ws?device_id=7"), 0);
    assert_eq!(service_id_from_url("wss://host/ws?service_id=abc"), 0);
}

#[test]
fn ping_intervals_have_a_floor_of_ten_seconds() {
    assert_eq!(initial_ping_secs(None), 30);
    assert_eq!(initial_ping_secs(Some(120)), 120);
    assert_eq!(initial_ping_secs(Some(3)), 10);
    assert_eq!(pong_ping_update(30, Some(60)), Some(60));
    assert_eq!(pong_ping_update(30, Some(30)), None);
    assert_eq!(pong_ping_update(30, Some(1)), Some(10));
    assert_eq!(pong_ping_update(10, Some(1)), None);
    assert_eq!(pong_ping_update(30, None), None);
}

#[test]
fn heartbeat_backoff_doubles_up_to_ten_seconds() {
    assert_eq!(next_timeout_backoff_ms(500), 1000);
    assert_eq!(next_timeout_backoff_ms(5000), 10000);
    assert_eq!(next_timeout_backoff_ms(8000), 10000);
    assert!(!heartbeat_expired(300_000_000_000));
    assert!(heartbeat_expired(300_000_000_001));
}

#[test]
fn live_traffic_kinds_refresh_the_watchdog() {
    assert!(should_refresh_last_recv(WsMessageKind::Binary));
    assert!(should_refresh_last_recv(WsMessageKind::Ping));
    assert!(should_refresh_last_recv(WsMessageKind::Pong));
    assert!(!should_refresh_last_recv(WsMessageKind::Text));
    assert!(!should_refresh_last_recv(WsMessageKind::Close));
    assert!(!should_refresh_last_recv(WsMessageKind::Frame));
}

#[test]
fn ping_and_ack_frames() {
    let p = ping_frame(5, 9);
    assert_eq!((p.seq_id, p.log_id, p.service, p.method), (5, 0, 9, 0));
    assert_eq!(p.headers.len(), 1);
    assert_eq!(p.headers[0].key, "type");
    assert_eq!(p.headers[0].value, "ping");
    assert!(p.payload.is_none());

    let data = PbFrame {
        seq_id: 11,
        log_id: 12,
        service: 3,
        method: 1,
        headers: vec![header("message_id", "m1"), header("sum", "2")],
        payload: Some(b"part".to_vec()),
    };
    let ack = ack_frame(&data);
    assert_eq!((ack.seq_id, ack.log_id, ack.service, ack.method), (11, 12, 3, 1));
    assert_eq!(ack.headers.len(), 3);
    assert_eq!(ack.headers[0].key, "message_id");
    assert_eq!(ack.headers[2].key, "biz_rt");
    assert_eq!(ack.headers[2].value, "0");
    assert_eq!(ack.payload.as_deref(), Some(&br#"{"code":200,"headers":{},"data":[]}"#[..]));
}

#[test]
fn fragment_position_defaults() {
    let mut f = PbFrame {
        seq_id: 1,
        log_id: 0,
        service: 0,
        method: 1,
        headers: vec![header("sum", "3"), header("seq", "2")],
        payload: None,
    };
    assert_eq!(fragment_position(&f), (3, 2));
    f.headers = vec![header("sum", "x")];
    assert_eq!(fragment_position(&f), (1, 0));
    f.headers = vec![];
    assert_eq!(fragment_position(&f), (1, 0));
}

#[test]
fn stale_fragments_are_dropped() {
    let mut cache = FragmentCache::new();
    assert!(cache.accept("old", 2, 0, Some(b"ab".to_vec()), 100).is_none());
    assert!(cache.accept("new", 2, 0, Some(b"cd".to_vec()), 300).is_none());
    cache.retain_fresh(Some(200));
    // The stale message starts over: its second half alone is not complete.
    assert!(cache.accept("old", 2, 1, Some(b"xy".to_vec()), 400).is_none());
    assert_eq!(cache.accept("new", 2, 1, Some(b"ef".to_vec()), 400), Some(b"cdef".to_vec()));
}

// ── Multimodal messages ──

#[test]
fn marker_presence_across_messages() {
    let msgs = vec![
        ChatMessage::user("plain".to_string()),
        ChatMessage::user("look [IMAGE:/tmp/a.png]".to_string()),
    ];
    assert!(contains_image_markers(&msgs));
    assert!(!contains_video_markers(&msgs));
    let vids = vec![ChatMessage::user("[VIDEO:https://x/v.mp4]".to_string())];
    assert!(contains_video_markers(&vids));
    assert!(!contains_image_markers(&vids));
}

#[test]
fn compose_puts_text_then_images_then_videos() {
    let imgs = vec!["data:image/png;base64,AA".to_string(), "data:image/png;base64,BB".to_string()];
    let vids = vec!["https://x/v.mp4".to_string()];
    assert_eq!(
        compose_multimodal_message("  hello  ", &imgs, &vids),
        "hello\n\n[IMAGE:data:image/png;base64,AA]\n[IMAGE:data:image/png;base64,BB]\n[VIDEO:https://x/v.mp4]"
    );
    assert_eq!(compose_multimodal_message("", &[], &vids), "[VIDEO:https://x/v.mp4]");
    assert_eq!(compose_multimodal_message("   ", &imgs[..1], &[]), "[IMAGE:data:image/png;base64,AA]");
}

#[test]
fn detect_mime_prefers_header_then_extension_then_magic() {
    let png = [0x89u8, b'P', b'N', b'G', b'\r', b'\n', 0x1a, b'\n'];
    assert_eq!(detect_mime(Some("gif"), &png, Some("Image/JPEG; charset=x")), Some("image/jpeg".to_string()));
    assert_eq!(detect_mime(Some("GIF"), &png, None), Some("image/gif".to_string()));
    assert_eq!(detect_mime(Some("txt"), &png, Some(" ; x")), Some("image/png".to_string()));
    assert_eq!(detect_mime(None, b"BMxx", None), Some("image/bmp".to_string()));
    assert_eq!(detect_mime(None, b"hello", None), None);
}

#[test]
fn image_references_are_classified() {
    assert!(matches!(classify_image_reference("data:image/png;base64,AA", false), Ok(ImageSourceKind::DataUri)));
    assert!(matches!(classify_image_reference("https://x/a.png", true), Ok(ImageSourceKind::Remote)));
    match classify_image_reference("http://x/a.png", false) {
        Err(MultimodalError::RemoteFetchDisabled { input }) => assert_eq!(input, "http://x/a.png"),
        _ => panic!("remote fetch must be refused"),
    }
    assert!(matches!(classify_image_reference("/tmp/a.png", false), Ok(ImageSourceKind::Local)));
}

#[test]
fn media_limits_are_enforced() {
    let msgs = vec![ChatMessage::user("[IMAGE:/a.png] [IMAGE:/b.png] [VIDEO:https://x/v.mp4]".to_string())];
    assert!(matches!(check_media_limits(&msgs, 2, 1), Ok((2, 1))));
    match check_media_limits(&msgs, 1, 1) {
        Err(MultimodalError::TooManyImages { max_images, found }) => assert_eq!((max_images, found), (1, 2)),
        _ => panic!("too many images"),
    }
    match check_media_limits(&msgs, 4, 0) {
        Err(MultimodalError::TooManyVideos { max_videos, found }) => assert_eq!((max_videos, found), (0, 1)),
        _ => panic!("too many videos"),
    }
}

#[test]
fn message_media_only_for_user_messages_with_markers() {
    let m = ChatMessage::user("see [IMAGE:/a.png] and [VIDEO:https://x/v.mp4] ok".to_string());
    let (text, images, videos) = message_media(&m).expect("media");
    assert_eq!(text, "see  and  ok");
    assert_eq!(images, vec!["/a.png".to_string()]);
    assert_eq!(videos, vec!["https://x/v.mp4".to_string()]);
    assert!(message_media(&ChatMessage::user("no media".to_string())).is_none());
    let assistant = ChatMessage { role: "assistant".to_string(), content: "[IMAGE:/a.png]".to_string() };
    assert!(message_media(&assistant).is_none());
}

// ── Skills ──

#[test]
fn community_repo_sync_is_weekly() {
    assert!(open_skills_sync_due(MarkerAge::Missing));
    assert!(!open_skills_sync_due(MarkerAge::Future));
    assert!(!open_skills_sync_due(MarkerAge::Elapsed(604_799)));
    assert!(open_skills_sync_due(MarkerAge::Elapsed(604_800)));
}

#[test]
fn installed_directory_must_be_unique() {
    assert_eq!(pick_installed_directory(vec!["weather".to_string()]), Ok("weather".to_string()));
    assert_eq!(
        pick_installed_directory(vec![]),
        Err("Unable to determine installed skill directory after clone (no new directory found)".to_string())
    );
    assert_eq!(
        pick_installed_directory(vec!["a".to_string(), "b".to_string()]),
        Err("Unable to determine installed skill directory after clone (multiple new directories found)".to_string())
    );
}

#[test]
fn skill_tool_names_and_actions() {
    assert_eq!(extract_name(Some("my-skill")).ok(), Some("my-skill".to_string()));
    let missing = extract_name(None).err().expect("missing name");
    assert!(!missing.success);
    assert_eq!(missing.error.as_deref(), Some("Missing 'name' parameter for this action"));
    let empty = extract_name(Some("")).err().expect("empty name");
    assert_eq!(empty.error.as_deref(), Some("Missing 'name' parameter for this action"));
    let bad = extract_name(Some("../x")).err().expect("bad name");
    assert!(!bad.success);

    assert!(matches!(parse_skill_action("create"), Ok(SkillAction::Create)));
    assert!(matches!(parse_skill_action("list"), Ok(SkillAction::List)));
    let unknown = parse_skill_action("rename").err().expect("unknown");
    assert_eq!(unknown.error.as_deref(), Some("Unknown action 'rename': expected create/read/update/delete/list"));
}

#[test]
fn docs_sync_tool_missing_file() {
    let add = missing_file_result(true);
    assert!(!add.success);
    assert_eq!(add.output, "");
    assert_eq!(add.error.as_deref(), Some("Missing 'file' parameter for add action."));
    let remove = missing_file_result(false);
    assert_eq!(remove.error.as_deref(), Some("Missing 'file' parameter for remove action."));
}

// ── Hooks ──

fn loaded(event: HookEvent, action: HookAction, conditions: Option<HookConditions>) -> LoadedHook {
    LoadedHook {
        manifest: HookManifest {
            name: "guard".to_string(),
            description: None,
            version: None,
            event,
            priority: 0,
            enabled: true,
            conditions,
            action,
            skip_security_audit: true,
        },
        hook_dir: "/tmp/guard".to_string(),
    }
}

#[test]
fn hook_timeouts() {
    let shell = |t: Option<u64>| HookAction::Shell { command: "true".to_string(), timeout_secs: t, workdir: None };
    assert_eq!(DynamicHookHandler::new(loaded(HookEvent::OnSessionStart, shell(Some(5)), None), 30).effective_timeout(), 5);
    assert_eq!(DynamicHookHandler::new(loaded(HookEvent::OnSessionStart, shell(None), None), 12).effective_timeout(), 12);
    assert_eq!(DynamicHookHandler::new(loaded(HookEvent::OnSessionStart, shell(Some(0)), None), 12).effective_timeout(), 30);
    let inject = HookAction::PromptInject { content: "x".to_string(), position: None };
    assert_eq!(DynamicHookHandler::new(loaded(HookEvent::BeforePromptBuild, inject, None), 0).effective_timeout(), 30);
}

#[test]
fn prompt_inject_prepends_or_appends() {
    let prepend = HookAction::PromptInject { content: "RULES".to_string(), position: None };
    let h = DynamicHookHandler::new(loaded(HookEvent::BeforePromptBuild, prepend, None), 30);
    match h.modifying_step(HookEvent::BeforePromptBuild, None, None, None, Some("base")) {
        HookStep::Replace(s) => assert_eq!(s, "RULES\nbase"),
        _ => panic!("expected a replacement"),
    }
    assert!(matches!(h.modifying_step(HookEvent::OnMessageSending, None, None, None, Some("base")), HookStep::Pass));

    let append = HookAction::PromptInject { content: "SIG".to_string(), position: Some("append".to_string()) };
    let h = DynamicHookHandler::new(loaded(HookEvent::OnMessageSending, append, None), 30);
    match h.modifying_step(HookEvent::OnMessageSending, None, None, None, Some("hello")) {
        HookStep::Replace(s) => assert_eq!(s, "hello\nSIG"),
        _ => panic!("expected a replacement"),
    }
}

#[test]
fn conditions_gate_the_step() {
    let cond = HookConditions { channels: Some(vec!["telegram".to_string()]), users: None, pattern: None };
    let action = HookAction::Shell { command: "true".to_string(), timeout_secs: None, workdir: None };
    let h = DynamicHookHandler::new(loaded(HookEvent::BeforeToolCall, action, Some(cond)), 30);
    assert!(matches!(h.modifying_step(HookEvent::BeforeToolCall, Some("telegram"), None, None, None), HookStep::Execute));
    assert!(matches!(h.modifying_step(HookEvent::BeforeToolCall, Some("lark"), None, None, None), HookStep::Pass));
    assert_eq!(
        h.after_action(HookEvent::BeforeToolCall, &Err("exit 1".to_string())),
        Some("hook guard blocked tool call: exit 1".to_string())
    );
    assert_eq!(h.after_action(HookEvent::BeforeToolCall, &Ok("fine".to_string())), None);
    assert_eq!(h.after_action(HookEvent::OnMessageSending, &Err("exit 1".to_string())), None);
}

#[test]
fn pipeline_steps() {
    let r = pipeline_step(1, HandlerOutcome::Continue(2));
    assert!(matches!(r, HookResult::Continue(2)));
    assert!(!r.is_cancel());
    let r = pipeline_step(1, HandlerOutcome::Cancel("no".to_string()));
    assert!(r.is_cancel());
    assert!(matches!(r, HookResult::Cancel(ref m) if m == "no"));
    assert!(matches!(pipeline_step(7, HandlerOutcome::Panicked), HookResult::Continue(7)));
}

#[test]
fn hook_defaults_and_shell() {
    assert!(default_enabled());
    assert_eq!(shell_program(), "sh");
    assert_eq!(shell_flag(), "-c");
}

#[test]
fn hooks_cli_plans() {
    assert!(matches!(handle_hooks_command(HooksCommands::List), HooksCliPlan::List));
    assert!(matches!(handle_hooks_command(HooksCommands::Reload), HooksCliPlan::Reload));
    match handle_hooks_command(HooksCommands::Create { name: "my-hook".to_string() }) {
        HooksCliPlan::Create { name, manifest } => {
            assert_eq!(name, "my-hook");
            assert!(manifest.starts_with("[hook]\nname = \"my-hook\"\n"));
            assert!(manifest.ends_with("command = \"echo hook my-hook fired\"\n"));
        },
        _ => panic!("expected create"),
    }
    match handle_hooks_command(HooksCommands::Create { name: "bad name".to_string() }) {
        HooksCliPlan::Refused(m) => {
            assert_eq!(m, "Invalid hook name 'bad name': use alphanumeric characters and hyphens only.")
        },
        _ => panic!("expected refusal"),
    }
    match handle_hooks_command(HooksCommands::Audit { path: "/h/x".to_string() }) {
        HooksCliPlan::Audit { path } => assert_eq!(path, "/h/x"),
        _ => panic!("expected audit"),
    }
}

#[test]
fn hooks_table_rows() {
    assert_eq!(
        hook_table_row("guard", HookEvent::BeforeToolCall, -5, true),
        format!("  {:<20} {:<25} {:<10} {:<8}", "guard", "before_tool_call", -5, "yes")
    );
    assert_eq!(builtin_hook_row(false), format!("  {:<20} {:<10}", "command-logger", "disabled"));
    assert_eq!(builtin_hook_row(true), format!("  {:<20} {:<10}", "command-logger", "enabled"));
}

// ── Docs sync worker ──

#[test]
fn lock_file_sits_beside_the_config() {
    assert_eq!(lock_file_path("/home/u/.zeroclaw/config.toml"), "/home/u/.zeroclaw/docs_sync.lock");
    assert_eq!(lock_file_path("config.toml"), "docs_sync.lock");
}

#[test]
fn credentials_fall_back_per_field() {
    let feishu = AppCredentials { app_id: "fid".to_string(), app_secret: "fsec".to_string() };
    let lark = AppCredentials { app_id: "lid".to_string(), app_secret: "lsec".to_string() };
    assert_eq!(
        resolve_credentials(Some("id".to_string()), None, Some(feishu.clone()), Some(lark.clone())),
        Ok(("id".to_string(), "fsec".to_string()))
    );
    assert_eq!(
        resolve_credentials(None, None, None, Some(lark)),
        Ok(("lid".to_string(), "lsec".to_string()))
    );
    assert_eq!(
        resolve_credentials(Some("id".to_string()), None, None, None),
        Err("docs_sync: no app_id/app_secret in [docs_sync] or [channels_config.feishu/lark]".to_string())
    );
}

#[test]
fn sync_interval_floor() {
    assert_eq!(sync_interval_secs(3), 10);
    assert_eq!(sync_interval_secs(60), 60);
}

#[test]
fn changed_paths_map_to_synced_files() {
    let files = vec!["MEMORY.md".to_string(), "docs/a.md".to_string()];
    assert_eq!(local_change_filename(Some("docs\\a.md"), Some("a.md"), &files), Some("docs/a.md".to_string()));
    assert_eq!(local_change_filename(Some("other.md"), Some("other.md"), &files), None);
    assert_eq!(local_change_filename(None, Some("MEMORY.md"), &files), Some("MEMORY.md".to_string()));
    assert_eq!(local_change_filename(None, Some("a.md"), &files), None);
    assert_eq!(local_change_filename(None, None, &files), None);
}

#[test]
fn pull_plans() {
    let hello_hash = "2cf24dba5fb0a30e26e83b2ac5b9e29e1b161e5c1fa7425e73043362938b9824";
    assert!(matches!(plan_pull("MEMORY.md", false, "", "hello"), PullPlan::Skip));
    assert!(matches!(plan_pull("MEMORY.md", true, hello_hash, "hello"), PullPlan::Skip));
    match plan_pull("MEMORY.md", true, "old", "hello") {
        PullPlan::Write(h) => assert_eq!(h, hello_hash),
        _ => panic!("expected a write"),
    }
    match plan_pull("config.toml", true, "old", "[security]\nx = 1") {
        PullPlan::Blocked(m) => assert_eq!(m, "Remote config contains forbidden section [security]; rejecting sync"),
        _ => panic!("expected a block"),
    }
    assert!(matches!(plan_pull("config.toml", true, "old", "[agent]\nx = 1"), PullPlan::Write(_)));
}

// ── External providers ──

fn provider(protocol: ProviderProtocol, extra: Vec<(String, ExtraValue)>) -> ExternalProviderConfig {
    ExternalProviderConfig {
        name: "acme".to_string(),
        protocol,
        base_url: "https://api.acme.test/v1".to_string(),
        api_key: Some("file-key".to_string()),
        api_key_env: Some("ACME_KEY".to_string()),
        auth_style: ExternalAuthStyle::XApiKey,
        vision: true,
        extra,
    }
}

#[test]
fn provider_setup_by_protocol() {
    let extra = vec![
        ("merge_system_into_user".to_string(), ExtraValue::Bool(true)),
        ("user_agent".to_string(), ExtraValue::Str("acme-agent".to_string())),
    ];
    match external_provider_setup(&provider(ProviderProtocol::OpenaiCompatible, extra), Some("env-key"), None) {
        ProviderSetup::OpenaiCompatible { name, base_url, key, auth, vision, responses_fallback, user_agent, merge_system } => {
            assert_eq!(name, "acme");
            assert_eq!(base_url, "https://api.acme.test/v1");
            assert_eq!(key.as_deref(), Some("env-key"));
            assert_eq!(auth, ExternalAuthStyle::XApiKey);
            assert!(vision);
            assert!(responses_fallback);
            assert_eq!(user_agent.as_deref(), Some("acme-agent"));
            assert!(merge_system);
        },
        _ => panic!("expected an OpenAI-compatible client"),
    }
    match external_provider_setup(&provider(ProviderProtocol::AnthropicCompatible, vec![]), Some(""), Some("caller")) {
        ProviderSetup::AnthropicCompatible { key, base_url } => {
            assert_eq!(key.as_deref(), Some("file-key"));
            assert_eq!(base_url, "https://api.acme.test/v1");
        },
        _ => panic!("expected an Anthropic-compatible client"),
    }
    assert!(matches!(
        external_provider_setup(&provider(ProviderProtocol::GeminiCompatible, vec![]), None, None),
        ProviderSetup::GeminiCompatible { .. }
    ));
}

#[test]
fn audit_paths_are_shown_relative_to_the_hook() {
    assert_eq!(relative_display("/w/hooks/guard", "/w/hooks/guard/run.sh"), "run.sh");
    assert_eq!(relative_display("/w/hooks/guard", "/w/hooks/guard/bin/x"), "bin/x");
    assert_eq!(relative_display("/w/hooks/guard", "/w/hooks/guard"), ".");
    assert_eq!(relative_display("/w/hooks/guard", "/etc/passwd"), "/etc/passwd");
}
