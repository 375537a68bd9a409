use zeroclaw_core::hooks::loader::{select_hooks, LoadedHook};
use zeroclaw_core::hooks::manifest::{HookAction, HookEvent, HookManifest};
use zeroclaw_core::hooks::reload::observe_reload_stamp;
use zeroclaw_core::hooks::runner::dispatch_order;
use zeroclaw_core::json::JsonValue;
use zeroclaw_core::lark::event::{
    extract_file_key, extract_file_key_and_name, extract_image_key, is_user_allowed,
    parse_event_payload, webhook_ack_target, webhook_reply, ChannelMessage, WebhookReply,
};
use zeroclaw_core::lark::streaming::{draft_initial_text, supports_draft_updates, DraftCards};
use zeroclaw_core::lark::{
    ensure_lark_send_success, extract_lark_token_ttl_seconds, should_refresh_lark_tenant_token,
    tenant_token_from_response, LarkPlatform, LARK_DEFAULT_TOKEN_TTL_SECS,
    LARK_INVALID_ACCESS_TOKEN_CODE,
};
use zeroclaw_core::multimodal::{extract_ollama_image_payload, video_mime_from_extension};
use zeroclaw_core::skills::{reload_skills, SkillsState};

fn s(x: &str) -> JsonValue {
    JsonValue::Str(x.to_string())
}

fn obj(members: Vec<(&str, JsonValue)>) -> JsonValue {
    JsonValue::Object(members.into_iter().map(|(k, v)| (k.to_string(), v)).collect())
}

fn num(n: i64) -> JsonValue {
    JsonValue::Number(Some(n), if n >= 0 { Some(n as u64) } else { None })
}

fn strings(v: &[&str]) -> Vec<String> {
    v.iter().map(|x| x.to_string()).collect()
}

/// The allow-list of the channel most tests use.
fn allow_test_user() -> Vec<String> {
    strings(&["ou_testuser123"])
}

/// A receive event: the sender's open id (when given) and the message's members.
fn event(open_id: Option<&str>, message: Vec<(&str, JsonValue)>) -> JsonValue {
    let mut ev = Vec::new();
    if let Some(id) = open_id {
        ev.push(("sender", obj(vec![("sender_id", obj(vec![("open_id", s(id))]))])));
    }
    ev.push(("message", obj(message)));
    obj(vec![
        ("header", obj(vec![("event_type", s("im.message.receive_v1"))])),
        ("event", obj(ev)),
    ])
}

fn parse(allowed: &[String], payload: &JsonValue, content: Option<&JsonValue>) -> Vec<ChannelMessage> {
    parse_event_payload(LarkPlatform::Lark, &allowed.to_vec(), payload, content, 42, "id-1".to_string())
}

#[test]
fn lark_channel_name() {
    assert_eq!(LarkPlatform::Lark.channel_name(), "lark");
}

#[test]
fn lark_should_refresh_token_on_http_401() {
    let body = obj(vec![("code", num(0))]);
    assert!(should_refresh_lark_tenant_token(401, &body));
}

#[test]
fn lark_should_refresh_token_on_body_code_99991663() {
    let body = obj(vec![
        ("code", num(LARK_INVALID_ACCESS_TOKEN_CODE)),
        ("msg", s("Invalid access token for authorization.")),
    ]);
    assert!(should_refresh_lark_tenant_token(200, &body));
}

#[test]
fn lark_should_not_refresh_token_on_success_body() {
    let body = obj(vec![("code", num(0)), ("msg", s("ok"))]);
    assert!(!should_refresh_lark_tenant_token(200, &body));
}

#[test]
fn lark_extract_token_ttl_seconds_supports_expire_and_expires_in() {
    let body_expire = obj(vec![("expire", num(7200))]);
    let body_expires_in = obj(vec![("expires_in", num(3600))]);
    let body_missing = obj(vec![]);
    assert_eq!(extract_lark_token_ttl_seconds(&body_expire), 7200);
    assert_eq!(extract_lark_token_ttl_seconds(&body_expires_in), 3600);
    assert_eq!(extract_lark_token_ttl_seconds(&body_missing), LARK_DEFAULT_TOKEN_TTL_SECS);
}

#[test]
fn lark_ensure_send_success_rejects_non_zero_code() {
    let ok = obj(vec![("code", num(0))]);
    let bad = obj(vec![("code", num(12345)), ("msg", s("bad request"))]);
    assert!(ensure_lark_send_success(200, "200 OK", &ok, "{\"code\":0}", "test").is_ok());
    assert!(ensure_lark_send_success(200, "200 OK", &bad, "{\"code\":12345}", "test").is_err());
}

#[test]
fn lark_user_allowed_exact() {
    let allowed = allow_test_user();
    assert!(is_user_allowed(&allowed, "ou_testuser123"));
    assert!(!is_user_allowed(&allowed, "ou_other"));
}

#[test]
fn lark_user_allowed_wildcard() {
    assert!(is_user_allowed(&strings(&["*"]), "ou_anyone"));
}

#[test]
fn lark_user_denied_empty() {
    assert!(!is_user_allowed(&vec![], "ou_anyone"));
}

#[test]
fn lark_parse_challenge() {
    let payload = obj(vec![
        ("challenge", s("abc123")),
        ("token", s("test_verification_token")),
        ("type", s("url_verification")),
    ]);
    assert!(parse(&allow_test_user(), &payload, None).is_empty());
}

#[test]
fn lark_parse_valid_text_message() {
    let payload = event(
        Some("ou_testuser123"),
        vec![
            ("message_type", s("text")),
            ("content", s("{\"text\":\"Hello ZeroClaw!\"}")),
            ("chat_id", s("oc_chat123")),
            ("create_time", s("1699999999000")),
        ],
    );
    let content = obj(vec![("text", s("Hello ZeroClaw!"))]);
    let msgs = parse(&allow_test_user(), &payload, Some(&content));
    assert_eq!(msgs.len(), 1);
    assert_eq!(msgs[0].content, "Hello ZeroClaw!");
    assert_eq!(msgs[0].sender, "oc_chat123");
    assert_eq!(msgs[0].channel, "lark");
    assert_eq!(msgs[0].timestamp, 1_699_999_999);
}

#[test]
fn lark_parse_unauthorized_user() {
    let payload = event(
        Some("ou_unauthorized"),
        vec![
            ("message_type", s("text")),
            ("content", s("{\"text\":\"spam\"}")),
            ("chat_id", s("oc_chat")),
            ("create_time", s("1000")),
        ],
    );
    let content = obj(vec![("text", s("spam"))]);
    assert!(parse(&allow_test_user(), &payload, Some(&content)).is_empty());
}

#[test]
fn lark_parse_image_message_produces_marker() {
    let payload = event(
        Some("ou_user"),
        vec![
            ("message_type", s("image")),
            ("content", s("{\"image_key\":\"img_v3_test_key\"}")),
            ("chat_id", s("oc_chat")),
        ],
    );
    let content = obj(vec![("image_key", s("img_v3_test_key"))]);
    let msgs = parse(&strings(&["*"]), &payload, Some(&content));
    assert_eq!(msgs.len(), 1);
    assert_eq!(msgs[0].content, "[IMAGE:lark_image_key:img_v3_test_key]");
}

#[test]
fn lark_parse_image_message_empty_key_skipped() {
    let payload = event(
        Some("ou_user"),
        vec![("message_type", s("image")), ("content", s("{}")), ("chat_id", s("oc_chat"))],
    );
    let content = obj(vec![]);
    assert!(parse(&strings(&["*"]), &payload, Some(&content)).is_empty());
}

#[test]
fn lark_parse_empty_text_skipped() {
    let payload = event(
        Some("ou_user"),
        vec![("message_type", s("text")), ("content", s("{\"text\":\"\"}")), ("chat_id", s("oc_chat"))],
    );
    let content = obj(vec![("text", s(""))]);
    assert!(parse(&strings(&["*"]), &payload, Some(&content)).is_empty());
}

#[test]
fn lark_parse_wrong_event_type() {
    let payload = obj(vec![
        ("header", obj(vec![("event_type", s("im.chat.disbanded_v1"))])),
        ("event", obj(vec![])),
    ]);
    assert!(parse(&allow_test_user(), &payload, None).is_empty());
}

#[test]
fn lark_parse_missing_sender() {
    let payload = event(
        None,
        vec![("message_type", s("text")), ("content", s("{\"text\":\"hello\"}")), ("chat_id", s("oc_chat"))],
    );
    let content = obj(vec![("text", s("hello"))]);
    assert!(parse(&strings(&["*"]), &payload, Some(&content)).is_empty());
}

#[test]
fn lark_parse_unicode_message() {
    let payload = event(
        Some("ou_user"),
        vec![
            ("message_type", s("text")),
            ("content", s("{\"text\":\"Hello world 🌍\"}")),
            ("chat_id", s("oc_chat")),
            ("create_time", s("1000")),
        ],
    );
    let content = obj(vec![("text", s("Hello world 🌍"))]);
    let msgs = parse(&strings(&["*"]), &payload, Some(&content));
    assert_eq!(msgs.len(), 1);
    assert_eq!(msgs[0].content, "Hello world 🌍");
}

#[test]
fn lark_parse_missing_event() {
    let payload = obj(vec![("header", obj(vec![("event_type", s("im.message.receive_v1"))]))]);
    assert!(parse(&allow_test_user(), &payload, None).is_empty());
}

#[test]
fn lark_parse_invalid_content_json() {
    let payload = event(
        Some("ou_user"),
        vec![("message_type", s("text")), ("content", s("not valid json")), ("chat_id", s("oc_chat"))],
    );
    // content that is not JSON reaches the parser as no content at all
    assert!(parse(&strings(&["*"]), &payload, None).is_empty());
}

#[test]
fn lark_parse_fallback_sender_to_open_id() {
    let payload = event(
        Some("ou_user"),
        vec![("message_type", s("text")), ("content", s("{\"text\":\"hello\"}")), ("create_time", s("1000"))],
    );
    let content = obj(vec![("text", s("hello"))]);
    let msgs = parse(&strings(&["*"]), &payload, Some(&content));
    assert_eq!(msgs.len(), 1);
    assert_eq!(msgs[0].sender, "ou_user");
}

#[test]
fn lark_reaction_url_matches_region() {
    assert_eq!(
        LarkPlatform::Lark.message_reaction_url("om_test_message_id"),
        "https://open.larksuite.com/open-apis/im/v1/messages/om_test_message_id/reactions"
    );
    assert_eq!(
        LarkPlatform::Feishu.message_reaction_url("om_test_message_id"),
        "https://open.feishu.cn/open-apis/im/v1/messages/om_test_message_id/reactions"
    );
}

#[test]
fn extract_image_key_valid() {
    let content = obj(vec![("image_key", s("img_v3_abc"))]);
    assert_eq!(extract_image_key(Some(&content)), Some("img_v3_abc".to_string()));
}

#[test]
fn extract_image_key_missing() {
    assert_eq!(extract_image_key(Some(&obj(vec![]))), None);
    // text that is not JSON reaches the extractor as no content
    assert_eq!(extract_image_key(None), None);
}

#[test]
fn lark_upload_file_url_matches_region() {
    assert_eq!(LarkPlatform::Lark.upload_file_url(), "https://open.larksuite.com/open-apis/im/v1/files");
    assert_eq!(LarkPlatform::Feishu.upload_file_url(), "https://open.feishu.cn/open-apis/im/v1/files");
}

#[test]
fn extract_file_key_valid() {
    let content = obj(vec![("file_key", s("file_v3_abc"))]);
    assert_eq!(extract_file_key(Some(&content)), Some("file_v3_abc".to_string()));
}

#[test]
fn extract_file_key_missing() {
    assert_eq!(extract_file_key(Some(&obj(vec![]))), None);
    assert_eq!(extract_file_key(None), None);
}

#[test]
fn extract_file_key_and_name_with_name() {
    let content = obj(vec![("file_key", s("file_v3_abc")), ("file_name", s("report.pdf"))]);
    assert_eq!(
        extract_file_key_and_name(Some(&content)),
        Some(("file_v3_abc".to_string(), Some("report.pdf".to_string())))
    );
}

#[test]
fn extract_file_key_and_name_without_name() {
    let content = obj(vec![("file_key", s("file_v3_abc"))]);
    assert_eq!(extract_file_key_and_name(Some(&content)), Some(("file_v3_abc".to_string(), None)));
}

#[test]
fn extract_file_key_and_name_missing_key() {
    assert_eq!(extract_file_key_and_name(Some(&obj(vec![]))), None);
}

#[test]
fn lark_download_file_url_matches_region() {
    assert_eq!(
        LarkPlatform::Lark.download_file_url("om_msg", "file_key_abc", "file"),
        "https://open.larksuite.com/open-apis/im/v1/messages/om_msg/resources/file_key_abc?type=file"
    );
}

#[test]
fn cardkit_url_lark_platform() {
    assert_eq!(LarkPlatform::Lark.cardkit_url(), "https://open.larksuite.com/open-apis/cardkit/v1/cards");
}

#[test]
fn cardkit_url_feishu_platform() {
    assert_eq!(LarkPlatform::Feishu.cardkit_url(), "https://open.feishu.cn/open-apis/cardkit/v1/cards");
}

#[test]
fn card_sequence_increments_per_card_id() {
    let mut cards = DraftCards::new();
    cards.start("card_a", 0);
    cards.start("card_b", 0);
    // card_b was at 5 before its next update
    for _ in 0..4 {
        cards.next_sequence("card_b");
    }
    assert_eq!(cards.next_sequence("card_a"), 2);
    assert_eq!(cards.next_sequence("card_b"), 6);
    // card_a is unaffected by card_b
    assert_eq!(cards.next_sequence("card_a"), 3);
}

#[test]
fn throttle_enforcement_respects_interval() {
    let mut cards = DraftCards::new();
    cards.start("card_x", 1_000);
    assert!(cards.throttled("card_x", 1_100, 500));
    assert!(!cards.throttled("card_x", 1_500, 500));
    assert!(!cards.throttled("card_unknown", 1_100, 500));
}

#[test]
fn supports_draft_updates_respects_stream_mode() {
    assert!(!supports_draft_updates(false));
    assert!(supports_draft_updates(true));
}

#[test]
fn extract_ollama_image_payload_supports_data_uris() {
    let payload = extract_ollama_image_payload("data:image/png;base64,abcd==").expect("payload should be extracted");
    assert_eq!(payload, "abcd==");
}

#[test]
fn video_mime_from_extension_maps_correctly() {
    assert_eq!(video_mime_from_extension("mp4"), Some("video/mp4"));
    assert_eq!(video_mime_from_extension("webm"), Some("video/webm"));
    assert_eq!(video_mime_from_extension("mov"), Some("video/quicktime"));
    assert_eq!(video_mime_from_extension("mkv"), Some("video/x-matroska"));
    assert_eq!(video_mime_from_extension("avi"), Some("video/x-msvideo"));
    assert_eq!(video_mime_from_extension("txt"), None);
}

#[test]
fn test_reload_skills_resets_dirty() {
    let mut state = SkillsState { skills: vec![], dirty: true };
    reload_skills(&mut state, vec![]);
    assert!(state.skills.is_empty());
    assert!(!state.dirty, "dirty should be false after reload even with no skills");
}

#[test]
fn register_and_sort_by_priority() {
    let names = ["low", "high", "mid"];
    let order = dispatch_order(&vec![1, 10, 5]);
    let sorted: Vec<&str> = order.iter().map(|&i| names[i]).collect();
    assert_eq!(sorted, vec!["high", "mid", "low"]);
}

fn hook(name: &str, event: HookEvent, priority: i32) -> LoadedHook {
    LoadedHook {
        manifest: HookManifest {
            name: name.to_string(),
            description: None,
            version: None,
            event,
            priority,
            enabled: true,
            conditions: None,
            action: HookAction::Shell { command: "echo hi".to_string(), timeout_secs: None, workdir: None },
            skip_security_audit: true,
        },
        hook_dir: format!("/tmp/hooks/{name}"),
    }
}

#[test]
fn load_multiple_hooks_sorted_by_priority() {
    let hooks = vec![
        hook("low", HookEvent::OnSessionStart, 1),
        hook("high", HookEvent::OnSessionEnd, 10),
        hook("mid", HookEvent::OnHeartbeatTick, 5),
    ];
    let hooks = select_hooks(hooks, 50);
    assert_eq!(hooks.len(), 3);
    assert_eq!(hooks[0].manifest.name, "high");
    assert_eq!(hooks[1].manifest.name, "mid");
    assert_eq!(hooks[2].manifest.name, "low");
}

#[test]
fn enforce_max_hooks_limit() {
    let hooks = vec![
        hook("hook-a", HookEvent::OnSessionStart, 10),
        hook("hook-b", HookEvent::OnSessionEnd, 5),
        hook("hook-c", HookEvent::OnHeartbeatTick, 1),
    ];
    let hooks = select_hooks(hooks, 2);
    assert_eq!(hooks.len(), 2);
    assert_eq!(hooks[0].manifest.priority, 10);
    assert_eq!(hooks[1].manifest.priority, 5);
}

#[test]
fn parse_event_payload_file_message() {
    let content = obj(vec![("file_key", s("file_v3_abc")), ("file_name", s("report.pdf"))]);
    let payload = event(
        Some("ou_user"),
        vec![
            ("message_type", s("file")),
            ("chat_id", s("oc_chat1")),
            ("chat_type", s("p2p")),
            ("message_id", s("om_msg1")),
            ("create_time", s("1000")),
        ],
    );
    let msgs = parse(&allow_test_user(), &payload, Some(&content));
    assert_eq!(msgs.len(), 1);
    assert_eq!(msgs[0].content, "[DOCUMENT:lark_file_key:file_v3_abc:report.pdf]");
}

#[test]
fn parse_event_payload_audio_message() {
    let content = obj(vec![("file_key", s("file_v3_audio"))]);
    let payload = event(
        Some("ou_user"),
        vec![
            ("message_type", s("audio")),
            ("chat_id", s("oc_chat1")),
            ("chat_type", s("p2p")),
            ("message_id", s("om_msg2")),
            ("create_time", s("2000")),
        ],
    );
    let msgs = parse(&allow_test_user(), &payload, Some(&content));
    assert_eq!(msgs.len(), 1);
    assert_eq!(msgs[0].content, "[AUDIO:lark_file_key:file_v3_audio]");
}

#[test]
fn parse_event_payload_media_message() {
    let content = obj(vec![("file_key", s("file_v3_video")), ("file_name", s("clip.mp4"))]);
    let payload = event(
        Some("ou_user"),
        vec![
            ("message_type", s("media")),
            ("chat_id", s("oc_chat1")),
            ("chat_type", s("p2p")),
            ("message_id", s("om_msg3")),
            ("create_time", s("3000")),
        ],
    );
    let msgs = parse(&allow_test_user(), &payload, Some(&content));
    assert_eq!(msgs.len(), 1);
    assert_eq!(msgs[0].content, "[VIDEO:lark_file_key:file_v3_video:clip.mp4]");
}

#[test]
fn parse_event_payload_file_message_no_name() {
    let content = obj(vec![("file_key", s("file_v3_noname"))]);
    let payload = event(
        Some("ou_user"),
        vec![
            ("message_type", s("file")),
            ("chat_id", s("oc_chat1")),
            ("chat_type", s("p2p")),
            ("message_id", s("om_msg4")),
            ("create_time", s("4000")),
        ],
    );
    let msgs = parse(&allow_test_user(), &payload, Some(&content));
    assert_eq!(msgs.len(), 1);
    assert_eq!(msgs[0].content, "[DOCUMENT:lark_file_key:file_v3_noname:file_v3_noname]");
}

// ---- own cases ----

#[test]
fn attachments_keep_timestamp_and_text_still_needs_the_allow_list() {
    let media = obj(vec![("file_key", s("file_v3_video")), ("file_name", s("clip.mp4"))]);
    let payload = event(Some("ou_stranger"), vec![("message_type", s("media")), ("chat_id", s("oc_chat1"))]);
    let msgs = parse(&allow_test_user(), &payload, Some(&media));
    // no create_time: the time given by the caller is used
    assert_eq!(msgs[0].timestamp, 42);
    let text = obj(vec![("text", s("hello"))]);
    let payload = event(Some("ou_stranger"), vec![("message_type", s("text")), ("chat_id", s("oc_chat1"))]);
    assert!(parse(&allow_test_user(), &payload, Some(&text)).is_empty());
    let payload = event(None, vec![("message_type", s("file")), ("chat_id", s("oc_chat1"))]);
    assert!(parse(&allow_test_user(), &payload, Some(&media)).is_empty());
}

#[test]
fn platform_endpoints() {
    assert_eq!(
        LarkPlatform::Lark.tenant_access_token_url(),
        "https://open.larksuite.com/open-apis/auth/v3/tenant_access_token/internal"
    );
    assert_eq!(
        LarkPlatform::Feishu.send_message_url(),
        "https://open.feishu.cn/open-apis/im/v1/messages?receive_id_type=chat_id"
    );
    assert_eq!(LarkPlatform::Lark.upload_image_url(), "https://open.larksuite.com/open-apis/im/v1/images");
    assert_eq!(
        LarkPlatform::Feishu.download_image_url("om_1", "img_1"),
        "https://open.feishu.cn/open-apis/im/v1/messages/om_1/resources/img_1?type=image"
    );
}

#[test]
fn tenant_token_response_reading() {
    let good = obj(vec![("code", num(0)), ("tenant_access_token", s("t-123")), ("expire", num(3600))]);
    assert_eq!(tenant_token_from_response(true, "200 OK", &good, "{}"), Ok(("t-123".to_string(), 3600)));
    assert_eq!(
        tenant_token_from_response(false, "500 Internal Server Error", &good, "{\"x\":1}"),
        Err("Lark tenant_access_token request failed: status=500 Internal Server Error, body={\"x\":1}".to_string())
    );
    let refused = obj(vec![("code", num(10003)), ("msg", s("invalid app_id"))]);
    assert_eq!(
        tenant_token_from_response(true, "200 OK", &refused, "{}"),
        Err("Lark tenant_access_token failed: invalid app_id".to_string())
    );
    let silent = obj(vec![]);
    assert_eq!(
        tenant_token_from_response(true, "200 OK", &silent, "{}"),
        Err("Lark tenant_access_token failed: unknown error".to_string())
    );
    let tokenless = obj(vec![("code", num(0))]);
    assert_eq!(
        tenant_token_from_response(true, "200 OK", &tokenless, "{}"),
        Err("missing tenant_access_token in response".to_string())
    );
}

#[test]
fn webhook_challenge_and_ack() {
    let challenge = obj(vec![("challenge", s("abc123")), ("token", s("vt"))]);
    assert_eq!(webhook_reply(&challenge, "vt"), WebhookReply::Challenge("abc123".to_string()));
    assert_eq!(webhook_reply(&challenge, "other"), WebhookReply::Forbidden);
    let tokenless = obj(vec![("challenge", s("abc123"))]);
    assert_eq!(webhook_reply(&tokenless, "vt"), WebhookReply::Challenge("abc123".to_string()));
    let ev = event(Some("ou_1"), vec![("message_id", s("om_1"))]);
    assert_eq!(webhook_reply(&ev, "vt"), WebhookReply::Events);
    assert_eq!(webhook_ack_target(&ev, true), Some("om_1".to_string()));
    assert_eq!(webhook_ack_target(&ev, false), None);
}

#[test]
fn draft_cards_lifecycle() {
    let mut cards = DraftCards::new();
    cards.start("c", 0);
    assert_eq!(cards.next_sequence("c"), 2);
    cards.record_update("c", 600);
    assert!(cards.throttled("c", 700, 200));
    cards.forget("c");
    assert!(!cards.throttled("c", 700, 200));
    assert_eq!(cards.next_sequence("c"), 2);
    assert_eq!(draft_initial_text(""), "...");
    assert_eq!(draft_initial_text("hi"), "hi");
}

#[test]
fn reload_stamp_observation() {
    let mut last = None;
    assert!(!observe_reload_stamp("not a number", &mut last));
    assert!(last.is_none());
    assert!(observe_reload_stamp(" 1700000000\n", &mut last));
    assert_eq!(last, Some(1_700_000_000));
    assert!(!observe_reload_stamp("1700000000", &mut last));
    assert!(observe_reload_stamp("1700000001", &mut last));
    assert_eq!(last, Some(1_700_000_001));
}
