use llmux_server::app::{
    fallback, method_not_allowed, normalize_gateway_uri, request_log, AppState,
};
use llmux_server::cache::{TtlCache, CACHE_SWEEP_SIZE};
use llmux_server::error::Reply;
use llmux_server::json::{self, Json};
use llmux_server::middleware::{AuthContext, HOT_CACHE_TTL_MS};
use llmux_server::routes::system::{
    apply_claude_settings, backup_dir_failed, backup_name, backup_to_show, backups_dir, claude_dir,
    delete_claude_backup, get_claude_settings, get_installed_tools, list_claude_backups,
    merge_settings, prune_backups, requested_backup, restore_claude_backup, settings_applied, settings_path,
    settings_write_failed, show_backup, show_content, Assistant, BackupFile, BackupOutcome, BackupQuery,
    InstalledTools, SettingsFile,
};
use llmux_server::routes::v1::aggregate::{AggregateCandidate, AggregateResolution};
use llmux_server::routes::v1::dispatch::ModelResolution;
use serde_json::Value;

fn body(s: &str) -> Json {
    json::parse(s).unwrap()
}

fn value(s: &str) -> Value {
    serde_json::from_str(s).unwrap()
}

fn shown(r: &Reply) -> (u16, Value) {
    (r.status, json::export(&r.body))
}

fn assistant() -> Assistant {
    Assistant { program: "helper".to_string(), title: "Helper".to_string() }
}

#[test]
fn paths_are_joined() {
    let a = assistant();
    assert_eq!(claude_dir(&a, Some("/home/u")).as_deref(), Some("/home/u/.helper"));
    assert_eq!(claude_dir(&a, Some("/")).as_deref(), Some("/.helper"));
    assert_eq!(claude_dir(&a, Some("")).as_deref(), Some(".helper"));
    assert_eq!(claude_dir(&a, None), None);
    assert_eq!(settings_path(&a, Some("/home/u")).as_deref(), Some("/home/u/.helper/settings.json"));
    assert_eq!(settings_path(&a, None), None);
    assert_eq!(backups_dir(&a, "/var/data"), "/var/data/helper-backups");
}

#[test]
fn system_tools_returns_expected_structure() {
    let tools =
        InstalledTools { vscode: true, assistant: false, gemini: true, opencode: false, codex: true };
    let j = json::export(&get_installed_tools(&assistant(), &tools));
    assert_eq!(j, value(r#"{"vscode":true,"helper":false,"gemini":true,"opencode":false,"codex":true}"#));
    assert_eq!(j.as_object().unwrap().len(), 5);
}

#[test]
fn settings_are_shown() {
    for (file, expected) in [
        (SettingsFile::NoHome, r#"{"exists":false,"settings":null,"error":"Cannot determine home directory"}"#),
        (SettingsFile::Missing, r#"{"exists":false,"settings":null}"#),
        (
            SettingsFile::Unreadable("denied".to_string()),
            r#"{"exists":true,"settings":null,"error":"Failed to read: denied"}"#,
        ),
        (
            SettingsFile::Content("{".to_string()),
            r#"{"exists":true,"settings":null,"error":"Invalid JSON"}"#,
        ),
        (SettingsFile::Content(r#"{"a":1}"#.to_string()), r#"{"exists":true,"settings":{"a":1}}"#),
    ] {
        assert_eq!(json::export(&get_claude_settings(&file)), value(expected));
    }
}

#[test]
fn a_change_touches_the_environment_only() {
    let old = r#"{"theme":"dark","env":{"ANTHROPIC_AUTH_TOKEN":"old","ANTHROPIC_DEFAULT_OPUS_MODEL":"o","OTHER":"x"}}"#;
    let change = body(r#"{"apiBaseUrl":"http://g","apiKey":"k","sonnetModel":"s"}"#);
    let new = match apply_claude_settings(&assistant(), &change, true, Some(old)) {
        Ok(n) => n,
        Err(_) => panic!("a full change must be taken"),
    };
    let expected = value(
        r#"{"theme":"dark","env":{"OTHER":"x","ANTHROPIC_BASE_URL":"http://g","ANTHROPIC_API_KEY":"k","ANTHROPIC_DEFAULT_SONNET_MODEL":"s"}}"#,
    );
    assert_eq!(json::export(&new.settings), expected);
    assert_eq!(value(&new.content), expected);
    assert!(new.content.starts_with("{\n  \"env\": {\n"));
    let content = new.content.clone();
    assert_eq!(
        json::export(&get_claude_settings(&SettingsFile::Content(content.clone())))["settings"],
        expected
    );
    let again = match apply_claude_settings(&assistant(), &change, true, Some(&content)) {
        Ok(n) => n,
        Err(_) => panic!("a full change must be taken"),
    };
    assert_eq!(again.content, content);
    assert_eq!(
        json::export(&settings_applied(new, &Some("/b".to_string()))),
        serde_json::Value::Object(
            vec![
                ("success".to_string(), value("true")),
                ("backupPath".to_string(), value("\"/b\"")),
                ("settings".to_string(), expected),
            ]
            .into_iter()
            .collect()
        )
    );
}

#[test]
fn a_change_starts_from_nothing_where_nothing_can_be_read() {
    let change = body(r#"{"apiBaseUrl":"u","apiKey":"k"}"#);
    for old in [None, Some("no json")] {
        match apply_claude_settings(&assistant(), &change, true, old) {
            Ok(n) => assert_eq!(
                json::export(&n.settings),
                value(r#"{"env":{"ANTHROPIC_BASE_URL":"u","ANTHROPIC_API_KEY":"k"}}"#)
            ),
            Err(_) => panic!("a full change must be taken"),
        }
    }
    match apply_claude_settings(&assistant(), &change, true, Some("[1]")) {
        Ok(n) => assert_eq!(n.content, "[\n  1\n]"),
        Err(_) => panic!("a full change must be taken"),
    }
}

#[test]
fn a_change_needs_its_fields_and_a_place() {
    let a = assistant();
    let refused = |b: &str, has_path: bool| match apply_claude_settings(&a, &body(b), has_path, None) {
        Err(r) => shown(&r),
        Ok(_) => panic!("{}", b),
    };
    assert_eq!(
        refused(r#"{"apiKey":"k"}"#, false),
        (400, value(r#"{"error":"Missing required field: apiBaseUrl"}"#))
    );
    assert_eq!(
        refused(r#"{"apiBaseUrl":"u","apiKey":1}"#, false),
        (400, value(r#"{"error":"Missing required field: apiKey"}"#))
    );
    assert_eq!(
        refused(r#"{"apiBaseUrl":"u","apiKey":"k"}"#, false),
        (500, value(r#"{"success":false,"error":"Cannot determine Helper settings path"}"#))
    );
    assert_eq!(
        shown(&backup_dir_failed("x")),
        (500, value(r#"{"success":false,"error":"Failed to create backup directory: x"}"#))
    );
    assert_eq!(
        shown(&settings_write_failed("x")),
        (500, value(r#"{"success":false,"error":"Failed to write settings: x"}"#))
    );
}

fn names(v: &[&str]) -> Vec<String> {
    v.iter().map(|s| s.to_string()).collect()
}

#[test]
fn the_oldest_backups_go() {
    let all = names(&["settings.json.5", "notes", "settings.json.1", "settings.json.3", "settings.json.2", "settings.json"]);
    assert_eq!(prune_backups(&all, 3), names(&["settings.json.1"]));
    assert_eq!(prune_backups(&all, 4), names(&[]));
    assert_eq!(prune_backups(&all, 1), names(&["settings.json.1", "settings.json.2", "settings.json.3"]));
    assert_eq!(backup_name(1_700_000_000), "settings.json.1700000000");
}

#[test]
fn backups_are_listed_newest_first() {
    let file = |name: &str, modified| BackupFile {
        name: name.to_string(),
        path: format!("/d/{}", name),
        modified,
        size: 4,
    };
    let files = vec![
        file("settings.json.1", Some(1_700_000_000)),
        file("readme", None),
        file("settings.json.2", None),
    ];
    assert_eq!(
        json::export(&list_claude_backups(Some(files))),
        value(
            r#"[{"name":"settings.json.2","path":"/d/settings.json.2","timestamp":"unknown","size":4},
                {"name":"settings.json.1","path":"/d/settings.json.1","timestamp":"2023-11-14 22:13:20","size":4}]"#
        )
    );
    assert_eq!(json::export(&list_claude_backups(None)), value("[]"));
}

#[test]
fn backups_are_asked_for_by_name() {
    let query = |name: &str| BackupQuery { name: Some(name.to_string()) };
    assert!(matches!(backup_to_show(&BackupQuery::default()), Ok(None)));
    assert!(matches!(backup_to_show(&query("settings.json.7")), Ok(Some(n)) if n == "settings.json.7"));
    for bad in ["settings.json", "x", "settings.json./x", "settings.json...", "../settings.json.1"] {
        match backup_to_show(&query(bad)) {
            Err(r) => assert_eq!(shown(&r), (400, value(r#"{"error":"Invalid backup name"}"#))),
            Ok(_) => panic!("{}", bad),
        }
        let b = body(&format!(r#"{{"name":"{}"}}"#, bad));
        match requested_backup(&b) {
            Err(r) => assert_eq!(shown(&r), (400, value(r#"{"error":"Invalid backup name"}"#))),
            Ok(_) => panic!("{}", bad),
        }
    }
    match requested_backup(&body("{}")) {
        Err(r) => assert_eq!(shown(&r), (400, value(r#"{"error":"Missing 'name' in request body"}"#))),
        Ok(_) => panic!("a request without a name must be refused"),
    }
    assert!(matches!(requested_backup(&body(r#"{"name":"settings.json.9"}"#)), Ok(n) if n == "settings.json.9"));
}

#[test]
fn backups_are_shown_restored_and_deleted() {
    let failed = BackupOutcome::Failed("x".to_string());
    assert_eq!(shown(&show_backup(&BackupOutcome::Missing, "")), (404, value(r#"{"error":"Not found"}"#)));
    assert_eq!(shown(&show_backup(&failed, "")), (500, value(r#"{"error":"Failed to read backup: x"}"#)));
    assert_eq!(
        shown(&show_backup(&BackupOutcome::Done, r#"{"a":1}"#)),
        (200, value(r#"{"settings":{"a":1}}"#))
    );
    assert_eq!(shown(&show_backup(&BackupOutcome::Done, "?")), (200, value(r#"{"settings":{}}"#)));
    assert_eq!(
        shown(&restore_claude_backup(&BackupOutcome::Missing, true, None)),
        (404, value(r#"{"error":"Backup file not found"}"#))
    );
    assert_eq!(
        shown(&restore_claude_backup(&BackupOutcome::Done, false, None)),
        (500, value(r#"{"error":"Cannot determine settings path"}"#))
    );
    assert_eq!(
        shown(&restore_claude_backup(&failed, true, None)),
        (500, value(r#"{"error":"Failed to restore backup: x"}"#))
    );
    assert_eq!(
        shown(&restore_claude_backup(&BackupOutcome::Done, true, Some(r#"{"a":1}"#))),
        (200, value(r#"{"success":true,"settings":{"a":1}}"#))
    );
    assert_eq!(
        shown(&delete_claude_backup(&BackupOutcome::Missing)),
        (404, value(r#"{"error":"Not found"}"#))
    );
    assert_eq!(
        shown(&delete_claude_backup(&failed)),
        (500, value(r#"{"error":"Failed to delete backup: x"}"#))
    );
    assert_eq!(shown(&delete_claude_backup(&BackupOutcome::Done)), (200, value(r#"{"success":true}"#)));
}

#[test]
fn unknown_api_routes_return_gateway_not_found_error_without_spa_fallback() {
    let expected = value(r#"{"error": {"message": "Not Found", "type": "not_found", "code": "404"}}"#);
    assert_eq!(shown(&fallback("/api/does-not-exist", "").unwrap()), (404, expected.clone()));
    assert_eq!(shown(&fallback("/app/v1/none", "/app").unwrap()), (404, expected));
    for path in ["/", "/ui", "/ui/", "/dashboard/settings", "/api"] {
        assert!(fallback(path, "").is_none(), "{}", path);
    }
    assert!(fallback("/app", "/app").is_none());
    assert_eq!(method_not_allowed(), 405);
}

#[test]
fn doubled_prefixes_are_made_single() {
    assert_eq!(normalize_gateway_uri("/v1/v1/messages?a=b"), "/v1/messages?a=b");
    assert_eq!(normalize_gateway_uri("http://h/v1/v1/models"), "http://h/v1/models");
    assert_eq!(normalize_gateway_uri("/v1/models"), "/v1/models");
    assert_eq!(normalize_gateway_uri("/v1/v1/a b"), "/v1/v1/a b");
}

#[test]
fn requests_are_logged_with_their_signs() {
    let log = request_log("GET", "/app/v1/messages", "/app", 200).unwrap();
    assert_eq!((log.line.as_str(), log.show), ("✅ 200 → 💬 GET /app/v1/messages", false));
    let log = request_log("PUT", "/api/keys/1", "", 404).unwrap();
    assert_eq!((log.line.as_str(), log.show), ("⚠️ 404 → 🔑 PUT /api/keys/1", true));
    for (path, sign) in [
        ("/v1/models", "🚀"),
        ("/v1beta/x", "🚀"),
        ("/api/models/x", "🤖"),
        ("/api/activity", "🤖"),
        ("/api/auth/me", "👤"),
        ("/api/import", "⚙️"),
        ("/api/system/tools", "🖥️"),
        ("/x", "🌐"),
    ] {
        assert_eq!(request_log("GET", path, "", 500).unwrap().line, format!("❌ 500 → {} GET {}", sign, path));
    }
    assert!(request_log("GET", "/v1beta/x", "", 200).unwrap().show);
    for path in ["/a.svg", "/favicon.ico", "/v1/x.png"] {
        assert!(request_log("GET", path, "", 200).is_none());
    }
}

#[test]
fn caches_serve_until_expiry_and_are_swept() {
    let mut c: TtlCache<u8> = TtlCache::new();
    c.store("a", 1, 10, 0);
    assert_eq!(c.get("a", 9), Some(&1));
    assert_eq!(c.get("a", 10), None);
    c.store("a", 2, 20, 10);
    assert_eq!(c.get("a", 10), Some(&2));
    c.remove("a");
    assert!(c.lookup("a").is_none());
    for i in 0..CACHE_SWEEP_SIZE {
        c.store(&format!("k{}", i), 0, if i % 2 == 0 { 5 } else { 50 }, 0);
    }
    assert!(c.lookup("k0").is_some());
    c.store("last", 7, 50, 5);
    assert!(c.lookup("k0").is_none() && c.lookup("k1").is_some());
    assert_eq!(c.get("last", 5), Some(&7));
    c.retain_live(50);
    assert!(c.lookup("k1").is_none());
    c.insert("x", 1, 100);
    c.clear();
    assert!(c.lookup("x").is_none());
}

#[test]
fn the_state_remembers_and_forgets_names() {
    let mut s = AppState::new("master".to_string(), ".".to_string(), String::new());
    assert!(s.resolve_model_cached("m", 0).is_none());
    let resolution = ModelResolution {
        provider_id: "p".to_string(),
        target_model: "t".to_string(),
        account_ids: vec![1],
        preferred_account_id: None,
        alias_name: None,
        upstream_api: "default".to_string(),
    };
    s.model_resolved("m", resolution, 0);
    assert_eq!(s.resolve_model_cached("m", 0).unwrap().target_model, "t");
    assert!(s.resolve_model_cached("m", HOT_CACHE_TTL_MS).is_none());
    let candidates = vec![
        AggregateCandidate { account_id: 1, model: "x".to_string() },
        AggregateCandidate { account_id: 2, model: "y".to_string() },
    ];
    let aggregate = AggregateResolution {
        alias: "m".to_string(),
        candidates,
        active: 0,
        upstream_api: "chat".to_string(),
    };
    s.aggregate_resolved("m", Some(aggregate), 9, 0);
    match s.resolve_aggregate_cached("m", 1) {
        Some(Some(a)) => assert_eq!(a.active, 1),
        _ => panic!("a noted aggregate must be found"),
    }
    s.aggregate_resolved("n", None, 0, 0);
    assert!(matches!(s.resolve_aggregate_cached("n", 1), Some(None)));
    s.invalidate_model_cache("m");
    assert!(s.resolve_model_cached("m", 0).is_none() && s.resolve_aggregate_cached("m", 1).is_none());
    s.invalidate_aggregate_cache("n");
    assert!(s.resolve_aggregate_cached("n", 1).is_none());
    let ctx = AuthContext { key_name: "k".to_string(), allowed_models: "*".to_string() };
    s.auth_cache.insert("sk", ctx, 9);
    s.clear_auth_cache();
    assert!(s.auth_cache.lookup("sk").is_none());
}

#[test]
fn parsed_settings_are_shown_and_merged() {
    assert_eq!(
        json::export(&show_content(Some(body("[1]")))),
        value(r#"{"exists":true,"settings":[1]}"#)
    );
    assert_eq!(
        json::export(&show_content(None)),
        value(r#"{"exists":true,"settings":null,"error":"Invalid JSON"}"#)
    );
    let change = body(r#"{"apiBaseUrl":"u","apiKey":"k","opusModel":"o"}"#);
    assert_eq!(
        json::export(&merge_settings(body(r#"{"env":7,"x":1}"#), &change)),
        value(
            r#"{"x":1,"env":{"ANTHROPIC_BASE_URL":"u","ANTHROPIC_API_KEY":"k","ANTHROPIC_DEFAULT_OPUS_MODEL":"o"}}"#
        )
    );
    assert_eq!(json::export(&merge_settings(body("true"), &change)), value("true"));
}
