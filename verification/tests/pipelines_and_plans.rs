use zeroclaw_core::docs_sync::share::{plan_remote_pull, ShareRun};
use zeroclaw_core::docs_sync::worker::{RemoteListener, RemoteMode, SyncLock};
use zeroclaw_core::json::JsonValue;
use zeroclaw_core::lark::inbound::{accept_ws_message, LarkInbound, RecentIds};
use zeroclaw_core::docs_sync::{parse_code_blocks, validate_remote_config};
use zeroclaw_core::docs_sync::worker::{worker_start, AppCredentials};
use zeroclaw_core::hooks::audit::HookAuditReport;
use zeroclaw_core::hooks::dynamic::{DynamicHookHandler, HookResult};
use zeroclaw_core::hooks::loader::LoadedHook;
use zeroclaw_core::hooks::manifest::{HookAction, HookEvent, HookManifest};
use zeroclaw_core::hooks::runner::{HandlerOutcome, ModifyingPipeline};
use zeroclaw_core::hooks::{BuiltinHooksConfig, HooksConfig};
use zeroclaw_core::multimodal::{plan_media, ChatMessage, MultimodalError};
use zeroclaw_core::tools::hook_write::HookWriteTool;
use zeroclaw_core::transcription::{
    check_audio_input, ctc_collapse_labels, fbank_frame_count, lfr_frame_count, resolve_language_id,
    LanguageIds,
};

#[test]
fn remote_config_headers_with_spaces_or_comments_are_refused() {
    assert_eq!(
        validate_remote_config("[agent]\n[security] # tighten\nx = 1"),
        Err("Remote config contains forbidden section [security]; rejecting sync".to_string())
    );
    assert_eq!(
        validate_remote_config("  [ gateway ]  "),
        Err("Remote config contains forbidden section [gateway]; rejecting sync".to_string())
    );
    assert_eq!(
        validate_remote_config("[autonomy]#x"),
        Err("Remote config contains forbidden section [autonomy]; rejecting sync".to_string())
    );
    assert!(validate_remote_config("[security_notes]\n# [security]\nkey = \"[security]x\"").is_ok());
    assert!(validate_remote_config("[security] trailing").is_ok());
}

#[test]
fn worker_refuses_when_not_enabled_first() {
    let lark = AppCredentials { app_id: "lid".to_string(), app_secret: "lsec".to_string() };
    assert_eq!(
        worker_start(false, None, None, None, Some(lark.clone()), 60),
        Err("docs_sync: not enabled".to_string())
    );
    assert_eq!(
        worker_start(true, None, None, None, Some(lark), 3),
        Ok(("lid".to_string(), "lsec".to_string(), 10))
    );
    assert_eq!(
        worker_start(true, None, None, None, None, 60),
        Err("docs_sync: no app_id/app_secret in [docs_sync] or [channels_config.feishu/lark]".to_string())
    );
}

#[test]
fn pipeline_runs_by_priority_and_stops_at_the_first_cancel() {
    let prios = vec![1, 10, 5];
    let p = ModifyingPipeline::start(&prios, 0u32);
    assert_eq!(p.next_handler(), Some(1));
    let p = p.feed(HandlerOutcome::Continue(7));
    assert_eq!(p.next_handler(), Some(2));
    let p = p.feed(HandlerOutcome::Cancel("blocked".to_string()));
    assert_eq!(p.next_handler(), None);
    assert!(matches!(p.finish(), HookResult::Cancel(ref m) if m == "blocked"));

    let p = ModifyingPipeline::start(&prios, 0u32);
    let p = p.feed(HandlerOutcome::Continue(7));
    let p = p.feed(HandlerOutcome::Panicked);
    assert_eq!(p.next_handler(), Some(0));
    let p = p.feed(HandlerOutcome::Continue(9));
    assert_eq!(p.next_handler(), None);
    assert!(matches!(p.finish(), HookResult::Continue(9)));
}

fn loaded(event: HookEvent) -> LoadedHook {
    LoadedHook {
        manifest: HookManifest {
            name: "guard".to_string(),
            description: None,
            version: None,
            event,
            priority: 0,
            enabled: true,
            conditions: None,
            action: HookAction::Shell { command: "sleep 10".to_string(), timeout_secs: Some(1), workdir: None },
            skip_security_audit: true,
        },
        hook_dir: "/tmp/guard".to_string(),
    }
}

#[test]
fn failed_before_tool_call_action_cancels() {
    let h = DynamicHookHandler::new(loaded(HookEvent::BeforeToolCall), 30);
    let failed: Result<String, String> = Err("timed out after 1s".to_string());
    match h.settle(HookEvent::BeforeToolCall, ("shell".to_string(), 1), Some(&failed)) {
        HookResult::Cancel(m) => assert_eq!(m, "hook guard blocked tool call: timed out after 1s"),
        _ => panic!("expected a cancellation"),
    }
    let ok: Result<String, String> = Ok(String::new());
    assert!(matches!(
        h.settle(HookEvent::BeforeToolCall, ("shell".to_string(), 1), Some(&ok)),
        HookResult::Continue((ref n, 1)) if n == "shell"
    ));
    assert!(matches!(h.settle(HookEvent::BeforeToolCall, 5, None), HookResult::Continue(5)));
    let h = DynamicHookHandler::new(loaded(HookEvent::BeforeLlmCall), 30);
    assert!(matches!(h.settle(HookEvent::BeforeLlmCall, 5, Some(&failed)), HookResult::Continue(5)));
}

fn config(skip: bool) -> HooksConfig {
    HooksConfig {
        enabled: true,
        builtin: BuiltinHooksConfig { command_logger: false },
        hooks_dir: None,
        skip_security_audit: skip,
        max_hooks: 50,
        default_timeout_secs: 30,
    }
}

#[test]
fn written_hook_is_removed_when_rejected() {
    let tool = HookWriteTool::new(config(false), "/w".to_string());
    let r = tool.after_write("h", &Err("disk full".to_string()), None).expect("rejected");
    assert_eq!(r.error.as_deref(), Some("Failed to write HOOK.toml: disk full"));
    let failed_audit: Result<HookAuditReport, String> = Err("no such dir".to_string());
    let r = tool.after_write("h", &Ok(()), Some(&failed_audit)).expect("rejected");
    assert_eq!(r.error.as_deref(), Some("Security audit failed: no such dir"));
    let dirty: Result<HookAuditReport, String> =
        Ok(HookAuditReport { files_scanned: 1, findings: vec!["run.sh: symlink".to_string()] });
    let r = tool.after_write("h", &Ok(()), Some(&dirty)).expect("rejected");
    assert_eq!(r.error.as_deref(), Some("Security audit rejected hook 'h': run.sh: symlink"));
    let clean: Result<HookAuditReport, String> = Ok(HookAuditReport { files_scanned: 1, findings: vec![] });
    assert!(tool.after_write("h", &Ok(()), Some(&clean)).is_none());
    let lax = HookWriteTool::new(config(true), "/w".to_string());
    assert!(lax.after_write("h", &Ok(()), Some(&dirty)).is_none());
}

#[test]
fn messages_without_media_pass_through() {
    let msgs = vec![ChatMessage::user("hello".to_string())];
    assert!(matches!(plan_media(&msgs, 4, 1), Ok(None)));
    let msgs = vec![
        ChatMessage { role: "system".to_string(), content: "rules".to_string() },
        ChatMessage::user("see [IMAGE:/a.png]".to_string()),
    ];
    match plan_media(&msgs, 4, 1) {
        Ok(Some(media)) => {
            assert_eq!(media.len(), 2);
            assert!(media[0].is_none());
            let (text, images, videos) = media[1].clone().expect("media");
            assert_eq!(text, "see");
            assert_eq!(images, vec!["/a.png".to_string()]);
            assert!(videos.is_empty());
        },
        _ => panic!("expected a plan"),
    }
    let two = vec![ChatMessage::user("[IMAGE:/tmp/1.png]\n[IMAGE:/tmp/2.png]".to_string())];
    match plan_media(&two, 1, 1) {
        Err(MultimodalError::TooManyImages { max_images, found }) => assert_eq!((max_images, found), (1, 2)),
        _ => panic!("too many images"),
    }
}

#[test]
fn audio_checks_and_frame_counts() {
    assert_eq!(check_audio_input(8000, 16000), Err("SenseVoice requires 16kHz audio, got 8000Hz".to_string()));
    assert_eq!(
        check_audio_input(16000, 399),
        Err("Audio too short for feature extraction (need at least 400 samples)".to_string())
    );
    assert_eq!(check_audio_input(16000, 400), Ok(()));
    assert_eq!(fbank_frame_count(399), 0);
    assert_eq!(fbank_frame_count(400), 1);
    assert_eq!(fbank_frame_count(16000), 98);
    assert_eq!(lfr_frame_count(98, 7, 6), 16);
    assert_eq!(lfr_frame_count(5, 7, 6), 0);
}

#[test]
fn language_ids_and_ctc_collapse() {
    let ids = LanguageIds { auto: 0, zh: 3, en: 4, ja: 11, ko: 12, yue: 7 };
    assert_eq!(resolve_language_id(&ids, "en"), 4);
    assert_eq!(resolve_language_id(&ids, "yue"), 7);
    assert_eq!(resolve_language_id(&ids, "fr"), 0);
    assert_eq!(ctc_collapse_labels(&vec![0, 1, 1, 0, 2, 2, 2, 0, 3], 0), vec![1, 2, 3]);
    assert_eq!(ctc_collapse_labels(&vec![0, 0, 0], 0), Vec::<i64>::new());
    assert_eq!(ctc_collapse_labels(&vec![1, 0, 1], 0), vec![1, 1]);
}

#[test]
fn pulled_blocks_are_written_only_where_listed_and_not_links() {
    let doc = "=== MEMORY.md ===\nremember\n=== end ===\n=== notes.md ===\nx\n=== end ===\n=== SOUL.md ===\nsoul\n=== end ===";
    let blocks = parse_code_blocks(doc);
    let sync = vec!["MEMORY.md".to_string(), "SOUL.md".to_string(), "config.toml".to_string()];
    let (writes, stop) = plan_remote_pull(&blocks, &sync, &vec!["SOUL.md".to_string()]);
    assert!(stop.is_none());
    let names: Vec<&str> = writes.iter().map(|(n, _)| n.as_str()).collect();
    assert_eq!(names, vec!["MEMORY.md"]);
    assert_eq!(writes[0].1, "remember");

    let doc = "=== MEMORY.md ===\nm\n=== end ===\n=== config.toml ===\n[security] # open up\n=== end ===\n=== SOUL.md ===\ns\n=== end ===";
    let (writes, stop) = plan_remote_pull(&parse_code_blocks(doc), &sync, &vec![]);
    assert_eq!(stop, Some("Remote config contains forbidden section [security]; rejecting sync".to_string()));
    assert!(writes.iter().all(|(n, _)| n != "config.toml"));
}

#[test]
fn lock_records_push_and_pull() {
    let mut lock = SyncLock::new();
    assert!(lock.after_push("MEMORY.md", "doc1".to_string(), "h1".to_string()));
    assert!(!lock.after_push("MEMORY.md", "doc1".to_string(), "h2".to_string()));
    assert!(lock.after_push("SOUL.md", "doc2".to_string(), "s1".to_string()));
    let e = lock.get("MEMORY.md").expect("recorded");
    assert_eq!((e.doc_id.as_str(), e.hash.as_str()), ("doc1", "h2"));
    lock.after_pull("SOUL.md", "s2".to_string());
    let e = lock.get("SOUL.md").expect("recorded");
    assert_eq!((e.doc_id.as_str(), e.hash.as_str()), ("doc2", "s2"));
    assert!(lock.get("config.toml").is_none());
    assert_eq!(lock.names(), vec!["MEMORY.md".to_string(), "SOUL.md".to_string()]);
    assert_eq!(lock.doc_ids(), vec!["doc1".to_string(), "doc2".to_string()]);
}

#[test]
fn remote_listener_by_mode() {
    let mut lock = SyncLock::new();
    assert!(matches!(lock.remote_listener(RemoteMode::Polling, false), Ok(RemoteListener::Poll)));
    match lock.remote_listener(RemoteMode::Event, false) {
        Err(e) => assert_eq!(e, "docs_sync: LarkWsManager not provided for event mode"),
        _ => panic!("event mode needs the manager"),
    }
    match lock.remote_listener(RemoteMode::Event, true) {
        Ok(RemoteListener::Event { doc_id }) => assert_eq!(doc_id, ""),
        _ => panic!("expected events"),
    }
    lock.record("MEMORY.md", "doc1".to_string(), "h".to_string());
    match lock.remote_listener(RemoteMode::Event, true) {
        Ok(RemoteListener::Event { doc_id }) => assert_eq!(doc_id, "doc1"),
        _ => panic!("expected events"),
    }
}

#[test]
fn sharing_tries_every_document_and_records_only_full_success() {
    let docs = vec![("MEMORY.md".to_string(), "doc1".to_string()), ("SOUL.md".to_string(), "doc2".to_string())];
    let run = ShareRun::start(docs.clone());
    assert_eq!(run.next_doc(), Some(docs[0].clone()));
    let run = run.feed(false, false);
    assert_eq!(run.next_doc(), Some(docs[1].clone()));
    let run = run.feed(true, true);
    assert_eq!(run.next_doc(), None);
    let mut users = vec!["ou_a".to_string()];
    assert!(!run.finish(&mut users, "ou_b"));
    assert_eq!(users, vec!["ou_a".to_string()]);

    let run = ShareRun::start(docs).feed(true, true).feed(true, true);
    assert!(run.finish(&mut users, "ou_b"));
    assert_eq!(users, vec!["ou_a".to_string(), "ou_b".to_string()]);
}

fn ws_message(open_id: Option<&str>, message_type: &str, content: JsonValue) -> LarkInbound {
    LarkInbound {
        sender_type: "user".to_string(),
        open_id: open_id.map(|o| o.to_string()),
        message_id: "om_1".to_string(),
        chat_id: "oc_1".to_string(),
        chat_type: "p2p".to_string(),
        message_type: message_type.to_string(),
        content: Some(content),
        mentions: vec![],
    }
}

fn jobj(members: Vec<(&str, &str)>) -> JsonValue {
    JsonValue::Object(members.into_iter().map(|(k, v)| (k.to_string(), JsonValue::Str(v.to_string()))).collect())
}

#[test]
fn long_connection_admits_attachments_as_the_webhook_does() {
    let allowed = vec!["ou_testuser123".to_string()];
    let file = || jobj(vec![("file_key", "file_v3_abc"), ("file_name", "report.pdf")]);
    let mut seen = RecentIds::new();
    assert_eq!(
        accept_ws_message(&mut seen, 0, &allowed, &ws_message(Some("ou_user"), "file", file())),
        Some("[DOCUMENT:lark_file_key:file_v3_abc:report.pdf]".to_string())
    );
    let mut seen = RecentIds::new();
    assert_eq!(accept_ws_message(&mut seen, 0, &allowed, &ws_message(None, "file", file())), None);
    let mut seen = RecentIds::new();
    assert_eq!(
        accept_ws_message(&mut seen, 0, &allowed, &ws_message(Some("ou_user"), "text", jobj(vec![("text", "hi")]))),
        None
    );
}
