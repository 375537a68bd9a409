use zeroclaw_core::docs_sync::worker::{plan_push, LockEntry, PushPlan};
use zeroclaw_core::hooks::dynamic::check_pattern_condition;
use zeroclaw_core::hooks::manifest::{HookAction, HookConditions, HookEvent, HookManifest};
use zeroclaw_core::lark::fragments::FragmentCache;
use zeroclaw_core::multimodal::{normalize_data_uri, MultimodalError};
use zeroclaw_core::providers::{
    is_provider_file, ExternalAuthStyle, ExternalProviderConfig, ProviderProtocol, ProviderRegistry,
    ProviderScan, ScannedFile,
};

const ABC_SHA256: &str = "ba7816bf8f01cfea414140de5dae2223b00361a396177a9cb410ff61f20015ad";

fn conditions(pattern: &str) -> HookConditions {
    HookConditions { channels: None, users: None, pattern: Some(pattern.to_string()) }
}

#[test]
fn pattern_condition_uses_regex() {
    assert!(check_pattern_condition(&conditions(".*deploy.*"), Some("please deploy now")));
    assert!(!check_pattern_condition(&conditions(".*deploy.*"), Some("hello")));
    assert!(check_pattern_condition(&conditions("^\\d+$"), Some("12345")));
    assert!(!check_pattern_condition(&conditions("^\\d+$"), Some("12a45")));
    // a pattern that does not compile does not block the hook
    assert!(check_pattern_condition(&conditions("("), Some("anything")));
    // no text to match: the condition holds
    assert!(check_pattern_condition(&conditions("x"), None));
}

#[test]
fn data_uri_is_decoded_and_re_encoded() {
    assert_eq!(
        normalize_data_uri("data:IMAGE/PNG;base64, aGVsbG8= ", 100).ok(),
        Some("data:image/png;base64,aGVsbG8=".to_string())
    );
    match normalize_data_uri("data:image/png;base64,aGVsbG8=", 4) {
        Err(MultimodalError::ImageTooLarge { size_bytes, max_bytes, .. }) => {
            assert_eq!(size_bytes, 5);
            assert_eq!(max_bytes, 4);
        }
        _ => panic!("expected the size limit to apply"),
    }
    assert!(matches!(
        normalize_data_uri("data:image/png;base64,@@@", 100),
        Err(MultimodalError::InvalidMarker { .. })
    ));
    assert!(matches!(
        normalize_data_uri("data:image/png,plain", 100),
        Err(MultimodalError::InvalidMarker { .. })
    ));
}

#[test]
fn push_plan_compares_content_hashes() {
    let same = LockEntry { doc_id: "doc1".to_string(), hash: ABC_SHA256.to_string() };
    assert!(matches!(plan_push("a.md", "abc", Some(&same), None), PushPlan::Unchanged));
    let stale = LockEntry { doc_id: "doc1".to_string(), hash: "old".to_string() };
    match plan_push("a.md", "abc", Some(&stale), Some("other")) {
        PushPlan::Push { doc_id, hash, is_new } => {
            assert_eq!(doc_id, "doc1");
            assert_eq!(hash, ABC_SHA256);
            assert!(!is_new);
        }
        _ => panic!("expected a push"),
    }
    match plan_push("a.md", "abc", None, None) {
        PushPlan::Create { title, hash } => {
            assert_eq!(title, "ZeroClaw - a.md");
            assert_eq!(hash, ABC_SHA256);
        }
        _ => panic!("expected a creation"),
    }
}

#[test]
fn fragments_reassemble_in_slot_order() {
    let mut cache = FragmentCache::new();
    assert_eq!(cache.accept("m1", 3, 2, Some(b"c".to_vec()), 10), None);
    assert_eq!(cache.accept("m2", 2, 0, Some(b"x".to_vec()), 10), None);
    assert_eq!(cache.accept("m1", 3, 0, Some(b"a".to_vec()), 11), None);
    assert_eq!(cache.accept("m1", 3, 1, Some(b"b".to_vec()), 12), Some(b"abc".to_vec()));
    // the other message is still pending
    assert_eq!(cache.accept("m2", 2, 1, Some(b"y".to_vec()), 13), Some(b"xy".to_vec()));
    // single frames pass straight through
    assert_eq!(cache.accept("m3", 1, 0, Some(b"z".to_vec()), 14), Some(b"z".to_vec()));
}

fn provider(name: &str) -> ExternalProviderConfig {
    ExternalProviderConfig {
        name: name.to_string(),
        protocol: ProviderProtocol::OpenaiCompatible,
        base_url: "https://api.example.com/v1".to_string(),
        api_key: None,
        api_key_env: None,
        auth_style: ExternalAuthStyle::Bearer,
        vision: false,
        extra: vec![],
    }
}

fn scan(names: &[&str]) -> ProviderScan {
    ProviderScan::Files(
        names
            .iter()
            .map(|n| ScannedFile { path: format!("/p/{n}.toml"), outcome: Ok(provider(n)) })
            .collect(),
    )
}

#[test]
fn provider_reload_reports_set_differences() {
    let mut reg = ProviderRegistry::new("/p".to_string());
    let r = reg.reload(scan(&["beta", "alpha"]));
    assert_eq!(r.added, vec!["alpha".to_string(), "beta".to_string()]);
    assert!(r.removed.is_empty());
    assert!(r.errors.is_empty());
    let r = reg.reload(scan(&["beta", "gamma"]));
    assert_eq!(r.added, vec!["gamma".to_string()]);
    assert_eq!(r.removed, vec!["alpha".to_string()]);
    assert!(reg.lookup("gamma").is_some());
    assert!(reg.lookup("alpha").is_none());
    // reloading the same files changes nothing
    let r = reg.reload(scan(&["beta", "gamma"]));
    assert!(r.added.is_empty() && r.removed.is_empty());
}

#[test]
fn manifest_validation_messages() {
    let mut m = HookManifest {
        name: "h".to_string(),
        description: None,
        version: None,
        event: HookEvent::OnSessionStart,
        priority: 0,
        enabled: true,
        conditions: None,
        action: HookAction::Shell { command: "echo hi".to_string(), timeout_secs: Some(0), workdir: None },
        skip_security_audit: false,
    };
    assert_eq!(m.validate(), Err("shell action timeout_secs must be > 0".to_string()));
    m.action = HookAction::PromptInject { content: "  ".to_string(), position: None };
    assert_eq!(m.validate(), Err("prompt_inject action content must not be empty".to_string()));
    m.action = HookAction::Shell { command: "echo hi".to_string(), timeout_secs: None, workdir: None };
    assert_eq!(m.validate(), Ok(()));
    m.name = " ".to_string();
    assert_eq!(m.validate(), Err("hook name must not be empty".to_string()));
}

#[test]
fn provider_files_are_toml_files() {
    assert!(is_provider_file("/p/openrouter.toml"));
    assert!(!is_provider_file("/p/notes.md"));
    assert!(!is_provider_file("/p/.."));
    assert!(!is_provider_file("/"));
}
