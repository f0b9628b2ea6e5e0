use llmux_server::error::Reply;
use llmux_server::json::{self, Json};
use llmux_server::middleware::is_model_allowed;
use llmux_server::routes::accounts::{
    account_not_found, balance_credential, balance_healthy, balance_tier, balance_unconfigured,
    check_balance_provider, check_endpoints, create_account, created_reply, delete_account, draft_account,
    export_account_usage, export_disposition, failed, get_account_balance, get_account_key,
    is_healthy, list_accounts, merge_account, normalize_protocol, order_accounts, read_balance,
    update_account, update_balance, updated_reply, validation_error, AccountRank, AccountRow,
    Activity, Deletion, EndpointCheck, KeyLookup, ListedAccount, SecretChange, StoredAccount, UsageRow,
};
use llmux_server::routes::dashboard::{get_dashboard, light_account, DashboardParts};
use llmux_server::routes::health::{account_health, get_health_status, HealthRow};
use llmux_server::routes::keys::{
    create_api_key, delete_api_key, key_reply, list_api_keys, make_key, normalize_allowed_models,
    update_api_key, KeyRow,
};
use llmux_server::routes::stats::{
    auto_granularity, generation_ms, get_stats, get_stats_logs, log_page, parse_flag, stats_reply,
    LogRow, StatsParts, StatsQuery, Window,
};
use llmux_server::routes::usage::{
    activity_limit, get_activity, get_activity_detail, ActivityDetail, ActivityQuery, ActivityRow,
};
use serde_json::Value;

fn body(s: &str) -> Json {
    json::parse(s).unwrap()
}

fn value(s: &str) -> Value {
    serde_json::from_str(s).unwrap()
}

fn shown(r: &Reply) -> (u16, Value) {
    (r.status, json::export(&r.body))
}

fn refusal<T>(r: Result<T, Reply>) -> (u16, Value) {
    match r {
        Err(e) => shown(&e),
        Ok(_) => panic!("this must be refused"),
    }
}

fn some(s: &str) -> Option<String> {
    Some(s.to_string())
}

#[test]
fn new_accounts_are_checked() {
    let full = |extra: &str| format!(r#"{{"alias":"a","provider_id":"p","api_key":"k"{}}}"#, extra);
    for (b, message) in [
        ("{}".to_string(), "Missing required fields: alias, provider_id, api_key"),
        (r#"{"alias":"a","provider_id":"p"}"#.to_string(), "Missing required fields: alias, provider_id, api_key"),
        (
            r#"{"alias":"","provider_id":"p","api_key":"k"}"#.to_string(),
            "alias, provider_id, and api_key must not be empty",
        ),
        (full(r#","balance_provider":" Nope ""#), "Invalid balance_provider: nope"),
        (full(""), "At least one endpoint is required"),
        (full(r#","chat_endpoint":"  ""#), "At least one endpoint is required"),
        (
            full(r#","chat_endpoint":"http://x","default_protocol":"messages""#),
            "default_protocol must be one of the enabled protocols",
        ),
        (full(r#","chat_endpoint":"not a url""#), "Invalid endpoint URL: not a url"),
        (
            full(r#","chat_endpoint":"http://x","messages_endpoint":"::""#),
            "Invalid endpoint URL: ::",
        ),
    ] {
        let expected = value(&format!(r#"{{"error":"{}"}}"#, message));
        assert_eq!(refusal(create_account(&body(&b))), (400, expected), "{}", b);
    }
}

#[test]
fn account_create_syncs_chat_endpoint_into_base_url() {
    let b = body(
        r#"{"alias":"ep-sync","provider_id":"custom","api_key":"sk-test-ep-sync",
            "chat_endpoint":"http://127.0.0.1:9/v1","default_protocol":"chat","skip_validation":true}"#,
    );
    match create_account(&b) {
        Ok(a) => {
            assert_eq!(a.alias, "ep-sync");
            assert_eq!(a.base_url.as_deref(), Some("http://127.0.0.1:9/v1"));
            assert_eq!(a.chat_endpoint.as_deref(), Some("http://127.0.0.1:9/v1"));
            assert_eq!((a.is_active, a.weight, a.openai_compatible), (1, 1, 0));
            assert!(a.skip_validation && a.responses_endpoint.is_none());
        }
        Err(_) => panic!("a sound account must be taken"),
    }
}

#[test]
fn older_fields_stand_in_for_endpoints() {
    let b = body(
        r#"{"alias":"a","provider_id":"p","api_key":"k","base_url":"http://b","anthropic_base_url":"http://m",
            "default_protocol":" Messages ","balance_provider":" Zen ","balance_auth":" t ","weight":3,"skip_validation":false}"#,
    );
    match create_account(&b) {
        Ok(a) => {
            assert_eq!(a.chat_endpoint.as_deref(), Some("http://b"));
            assert_eq!(a.messages_endpoint.as_deref(), Some("http://m"));
            assert_eq!(a.default_protocol, "messages");
            assert_eq!((a.balance_provider.as_str(), a.balance_auth.as_str()), ("zen", "t"));
            assert!(!a.skip_validation && a.weight == 3);
        }
        Err(_) => panic!("a sound account must be taken"),
    }
    let disabled = body(
        r#"{"alias":"a","provider_id":"p","api_key":"k","base_url":"http://b","chat_endpoint":null,
            "responses_endpoint":" http://r ","default_protocol":"responses"}"#,
    );
    match create_account(&disabled) {
        Ok(a) => {
            assert!(a.chat_endpoint.is_none());
            assert_eq!(a.base_url.as_deref(), Some("http://b"));
            assert_eq!(a.responses_endpoint.as_deref(), Some("http://r"));
        }
        Err(_) => panic!("a sound account must be taken"),
    }
}

#[test]
fn drafts_take_prepared_texts() {
    let b = body(r#"{"alias":"a","provider_id":"p","api_key":"k","chat_endpoint":"http://x"}"#);
    assert!(draft_account(&b, "zen".to_string(), "chat".to_string()).is_ok());
    assert_eq!(
        refusal(draft_account(&b, "x".to_string(), "chat".to_string())),
        (400, value(r#"{"error":"Invalid balance_provider: x"}"#))
    );
    assert!(check_balance_provider("opencode_zen") && check_balance_provider("none"));
    assert!(!check_balance_provider("x"));
    assert_eq!(normalize_protocol("responses".to_string()), "responses");
    assert_eq!(normalize_protocol("grpc".to_string()), "chat");
}

#[test]
fn creation_is_answered() {
    assert!(validation_error(0, true).is_none() && validation_error(1, false).is_none());
    assert_eq!(
        shown(&validation_error(0, false).unwrap()),
        (400, value(r#"{"error":"accounts.validationFailed"}"#))
    );
    assert_eq!(
        shown(&created_reply(7, 0, true)),
        (
            200,
            value(
                r#"{"success":true,"id":7,"message":"Account created (skipped validation)","modelCount":0,"skippedValidation":true}"#
            )
        )
    );
    assert_eq!(
        shown(&created_reply(7, 3, false)).1["message"],
        value(r#""Account verified and created successfully""#)
    );
}

fn stored() -> StoredAccount {
    StoredAccount {
        alias: "mockacc".to_string(),
        provider_id: "openai".to_string(),
        api_key: "cipher".to_string(),
        base_url: some("http://a"),
        anthropic_base_url: some("http://a"),
        is_active: 1,
        weight: 2,
        notes: some("n"),
        openai_compatible: None,
        chat_endpoint: some("http://a"),
        responses_endpoint: some("http://b"),
        messages_endpoint: some("http://a"),
        default_protocol: some("responses"),
        balance_provider: some("zen"),
        balance_auth: some("secret"),
    }
}

#[test]
fn cleared_endpoints_are_removed_protocols() {
    let b = body(
        r#"{"alias":"mockacc","provider_id":"openai","api_key":"sk-mock","base_url":null,"anthropic_base_url":null,
            "responses_endpoint":null,"chat_endpoint":"http://a","messages_endpoint":"http://a","skip_validation":true}"#,
    );
    match update_account(&stored(), &b) {
        Ok(u) => {
            assert_eq!(u.removed, vec!["responses"]);
            assert_eq!(u.default_protocol, "chat");
            assert!(u.base_url.is_none() && u.anthropic_base_url.is_none());
            assert_eq!(u.chat_endpoint.as_deref(), Some("http://a"));
            assert!(matches!(u.api_key, SecretChange::Replace(k) if k == "sk-mock"));
            assert_eq!((u.weight, u.openai_compatible), (2, 0));
        }
        Err(_) => panic!("a sound update must be taken"),
    }
    assert_eq!(
        shown(&updated_reply(&vec!["of-resp".to_string()], &vec![], "chat")),
        (
            200,
            value(
                r#"{"success":true,"message":"Account updated successfully","affectedAliases":{"ordinary":["of-resp"],"aggregate":[]},"newDefaultProtocol":"chat"}"#
            )
        )
    );
    assert_eq!(
        shown(&updated_reply(&vec![], &vec![], "chat")),
        (200, value(r#"{"success":true,"message":"Account updated successfully"}"#))
    );
}

#[test]
fn an_update_keeps_what_it_does_not_name() {
    match update_account(&stored(), &body(r#"{"chat_endpoint":"http://c","api_key":"********"}"#)) {
        Ok(u) => {
            assert_eq!(u.base_url.as_deref(), Some("http://c"));
            assert_eq!(u.alias, "mockacc");
            assert_eq!(u.notes.as_deref(), Some("n"));
            assert_eq!(u.default_protocol, "responses");
            assert!(u.removed.is_empty());
            assert!(matches!(u.api_key, SecretChange::Keep(k) if k == "cipher"));
        }
        Err(_) => panic!("a sound update must be taken"),
    }
    let none = r#"{"chat_endpoint":"","responses_endpoint":null,"messages_endpoint":" "}"#;
    assert_eq!(
        refusal(update_account(&stored(), &body(none))),
        (400, value(r#"{"error":"At least one endpoint is required"}"#))
    );
    assert_eq!(
        refusal(update_account(&stored(), &body(r#"{"chat_endpoint":"x y"}"#))),
        (400, value(r#"{"error":"Invalid endpoint URL: x y"}"#))
    );
    match merge_account(&stored(), &body(r#"{"default_protocol":"X"}"#), "messages".to_string()) {
        Ok(u) => assert_eq!(u.default_protocol, "messages"),
        Err(_) => panic!("a sound update must be taken"),
    }
}

#[test]
fn balances_are_updated() {
    let take = |b: &str| match update_balance(&stored(), &body(b)) {
        Ok((p, auth)) => {
            let auth = match auth {
                SecretChange::Keep(s) => format!("keep {}", s),
                SecretChange::Clear => "clear".to_string(),
                SecretChange::Replace(s) => format!("replace {}", s),
            };
            (p, auth)
        }
        Err(_) => panic!("{}", b),
    };
    assert_eq!(take("{}"), ("zen".to_string(), "keep secret".to_string()));
    assert_eq!(
        take(r#"{"balance_provider":null,"balance_auth":null}"#),
        (String::new(), "clear".to_string())
    );
    assert_eq!(
        take(r#"{"balance_provider":" NONE ","balance_auth":" t "}"#),
        ("none".to_string(), "replace t".to_string())
    );
    assert_eq!(take(r#"{"balance_auth":" "}"#).1, "clear");
    assert_eq!(
        refusal(update_balance(&stored(), &body(r#"{"balance_provider":"What"}"#))),
        (400, value(r#"{"error":"Invalid balance_provider: what"}"#))
    );
    assert!(read_balance(&stored(), &body(r#"{"balance_provider":"X"}"#), "zen".to_string()).is_ok());
}

#[test]
fn balances_are_reported() {
    assert_eq!(balance_credential("auth".to_string(), "key".to_string()), "auth");
    assert_eq!(balance_credential(String::new(), "key".to_string()), "key");
    assert_eq!(shown(&balance_unconfigured()).0, 422);
    assert_eq!(
        shown(&get_account_balance(body(r#"{"ok":true,"left":5}"#), 9)),
        (200, value(r#"{"success":true,"balance":{"ok":true,"left":5},"updated_at":9}"#))
    );
    assert_eq!(shown(&get_account_balance(body("{}"), 9)).1["success"], value("false"));
    assert!(balance_healthy(Some(r#" {"ok":true} "#), Some("zen")));
    assert!(balance_healthy(Some(r#"{"ok":true}"#), None));
    assert!(!balance_healthy(Some(r#"{"ok":true}"#), Some(" None ")));
    assert!(!balance_healthy(Some(r#"{"ok":1}"#), None));
    assert!(!balance_healthy(Some("  "), None));
    assert!(!balance_healthy(None, None));
    assert!(is_healthy(Some(&body(r#"{"ok":true}"#)), Some("zen")));
    assert!(!is_healthy(Some(&body(r#"{"ok":true}"#)), Some("none")));
    assert_eq!((balance_tier(0, true), balance_tier(1, true), balance_tier(1, false)), (2, 0, 1));
}

fn row(id: i64, active: i64) -> AccountRow {
    AccountRow {
        id,
        alias: format!("a{}", id),
        provider_id: "p".to_string(),
        base_url: None,
        anthropic_base_url: None,
        is_active: active,
        weight: 1,
        notes: None,
        openai_compatible: Some(0),
        created_at: None,
        chat_endpoint: some("http://c"),
        responses_endpoint: None,
        messages_endpoint: None,
        default_protocol: some("chat"),
        balance_provider: None,
    }
}

fn listed(id: i64, active: i64, ok: bool, level: u32) -> ListedAccount {
    ListedAccount {
        row: row(id, active),
        limits_cache: some(if ok { r#"{"ok":true}"# } else { "" }),
        activity: Activity {
            requests_5h: body("1.5"),
            requests_24h: body("2.5"),
            requests_7d: body("3.5"),
            score: body("0.5"),
            bucket: body("0.45"),
        },
        level,
    }
}

#[test]
fn accounts_are_listed_by_group_activity_and_age() {
    let accounts = vec![
        listed(1, 0, true, 20),
        listed(2, 1, false, 20),
        listed(3, 1, true, 4),
        listed(4, 1, true, 9),
        listed(5, 1, true, 4),
    ];
    let list = json::export(&list_accounts(&accounts));
    let ids: Vec<i64> = list.as_array().unwrap().iter().map(|a| a["id"].as_i64().unwrap()).collect();
    assert_eq!(ids, vec![4, 5, 3, 2, 1]);
    assert_eq!(
        list[0],
        value(
            r#"{"id":4,"alias":"a4","provider_id":"p","api_key":null,"base_url":null,"anthropic_base_url":null,
                "is_active":1,"weight":1,"notes":null,"openai_compatible":0,"created_at":null,"chat_endpoint":"http://c",
                "responses_endpoint":null,"messages_endpoint":null,"default_protocol":"chat","balance_provider":null,
                "balance_auth":null,"requests_5h":1.5,"requests_24h":2.5,"requests_7d":3.5,"activity_score":0.5,
                "activity_bucket":0.45,"balance_ok":true,"balance_tier":0}"#
        )
    );
    let ranks = vec![
        AccountRank { tier: 1, bucket: 0, id: 1 },
        AccountRank { tier: 0, bucket: 0, id: 2 },
        AccountRank { tier: 1, bucket: 0, id: 1 },
    ];
    assert_eq!(order_accounts(&ranks), vec![1, 0, 2]);
    assert_eq!(json::export(&list_accounts(&vec![])), value("[]"));
}

#[test]
fn accounts_are_deleted_and_their_keys_shown() {
    let e = |s: &str| s.to_string();
    for (outcome, status, text) in [
        (Deletion::NotStarted(e("x")), 500, r#"{"error":"Failed to start transaction: x"}"#),
        (Deletion::LogsKept(e("x")), 500, r#"{"error":"Failed to delete usage logs: x"}"#),
        (Deletion::NotDeleted(e("x")), 500, r#"{"error":"Failed to delete account: x"}"#),
        (Deletion::NoAccount, 404, r#"{"error":"Account with id 7 not found"}"#),
        (Deletion::NotCommitted(e("x")), 500, r#"{"error":"Failed to commit transaction: x"}"#),
        (
            Deletion::Deleted,
            200,
            r#"{"success":true,"message":"Account and all associated history deleted successfully"}"#,
        ),
    ] {
        assert_eq!(shown(&delete_account(7, &outcome)), (status, value(text)));
    }
    for (lookup, status, text) in [
        (KeyLookup::NoAccount, 404, r#"{"error":"Account with id 7 not found"}"#),
        (KeyLookup::NotRead(e("x")), 500, r#"{"error":"Failed to lookup account: x"}"#),
        (KeyLookup::NotDecrypted(e("x")), 500, r#"{"error":"Failed to decrypt API key: x"}"#),
        (KeyLookup::Found(e("k")), 200, r#"{"key":"k"}"#),
    ] {
        assert_eq!(shown(&get_account_key(7, &lookup)), (status, value(text)));
    }
    assert_eq!(shown(&account_not_found(-1)).1, value(r#"{"error":"Account with id -1 not found"}"#));
    assert_eq!(shown(&failed("What", "why")), (500, value(r#"{"error":"What: why"}"#)));
}

#[test]
fn usage_is_exported() {
    let rows = vec![
        UsageRow { timestamp: 5, model: some("m"), input: 1, output: 2, latency_ms: 3, success: 1 },
        UsageRow { timestamp: 4, model: None, input: 0, output: 0, latency_ms: -1, success: 0 },
    ];
    assert_eq!(
        export_account_usage(&rows),
        "Timestamp,Model,Input Tokens,Output Tokens,Latency (ms),Status\n5,m,1,2,3,Success\n4,unknown,0,0,-1,Failed\n"
    );
    assert_eq!(export_disposition(3), "attachment; filename=\"usage_history_account_3.csv\"");
}

#[test]
fn keys_are_made_and_changed() {
    let key = create_api_key(&body(r#"{"name":"test"}"#));
    assert_eq!((key.name.as_str(), key.allowed_models.as_str()), ("test", "*"));
    assert!(key.key.starts_with("sk-llmux-"));
    assert_eq!(key.key.len(), 9 + 32);
    assert!(key.key[9..].chars().all(|c| c.is_ascii_hexdigit() && !c.is_ascii_uppercase()));
    assert_ne!(key.key, create_api_key(&body("{}")).key);
    let made = make_key(&body(r#"{"allowed_models":["a","b"]}"#), "0123");
    assert_eq!((made.name.as_str(), made.key.as_str()), ("Unnamed Key", "sk-llmux-0123"));
    assert_eq!(made.allowed_models, r#"["a","b"]"#);
    assert!(is_model_allowed(&made.allowed_models, "b") && !is_model_allowed(&made.allowed_models, "c"));
    assert_eq!(json::export(&key_reply("k")), value(r#"{"success":true,"key":"k"}"#));
    assert_eq!(normalize_allowed_models(Some(&body("\"*\""))), "*");
    assert_eq!(normalize_allowed_models(Some(&body("7"))), "*");
    assert_eq!(normalize_allowed_models(None), "*");
    assert_eq!(
        update_api_key(&body("{}"), some(r#"["m"]"#)),
        ("Untitled Key".to_string(), r#"["m"]"#.to_string())
    );
    assert_eq!(update_api_key(&body(r#"{"name":"n"}"#), None), ("n".to_string(), "*".to_string()));
    assert_eq!(
        update_api_key(&body(r#"{"allowed_models":["x"]}"#), some("*")).1,
        r#"["x"]"#
    );
}

#[test]
fn keys_are_listed_and_deleted() {
    let keys = vec![KeyRow {
        id: 1,
        name: "n".to_string(),
        key: "k".to_string(),
        allowed_models: "*".to_string(),
        created_at: some("then"),
    }];
    assert_eq!(
        json::export(&list_api_keys(&keys)),
        value(r#"[{"id":1,"name":"n","key":"k","allowed_models":"*","created_at":"then"}]"#)
    );
    assert_eq!(shown(&delete_api_key(None)), (200, value(r#"{"success":true}"#)));
    assert_eq!(
        shown(&delete_api_key(Some("x"))),
        (500, value(r#"{"error":"Failed to delete API key: x"}"#))
    );
}

#[test]
fn stats_logs_accepts_numeric_success_flag() {
    assert_eq!(parse_flag(&some("0")), Some(false));
    assert_eq!(parse_flag(&some("1")), Some(true));
    assert_eq!(parse_flag(&some("true")), Some(true));
    assert_eq!(parse_flag(&some("false")), Some(false));
    assert_eq!(parse_flag(&some("yes")), None);
    assert_eq!(parse_flag(&None), None);
    assert_eq!(json::export(&get_stats_logs(vec![], 0)), value(r#"{"logs":[],"total":0}"#));
    assert_eq!(log_page(None, None), (50, 0));
    assert_eq!(log_page(Some(500), Some(-3)), (200, 0));
    assert_eq!(log_page(Some(-1), Some(7)), (0, 7));
}

#[test]
fn windows_have_a_width_for_their_steps() {
    let hour = 60 * 60 * 1000;
    assert_eq!(auto_granularity(0, 2 * hour), 5 * 60 * 1000);
    assert_eq!(auto_granularity(0, 2 * hour + 1), hour);
    assert_eq!(auto_granularity(0, 48 * hour), hour);
    assert_eq!(auto_granularity(0, 48 * hour + 1), 6 * hour);
    assert_eq!(auto_granularity(0, 14 * 24 * hour), 6 * hour);
    assert_eq!(auto_granularity(0, 14 * 24 * hour + 1), 24 * hour);
    let query = |start, end, granularity| StatsQuery { start, end, granularity };
    match get_stats(&query(None, None, None), 100 * 24 * hour) {
        Ok(w) => assert_eq!(
            w,
            Window { start: 99 * 24 * hour, end: 100 * 24 * hour, granularity: hour }
        ),
        Err(_) => panic!("the last day can be asked for"),
    }
    match get_stats(&query(Some(i64::MIN), Some(i64::MAX), Some(7)), 0) {
        Ok(w) => assert_eq!(w, Window { start: i64::MIN, end: i64::MAX, granularity: 7 }),
        Err(_) => panic!("a window of any width can be asked for"),
    }
    assert_eq!(
        refusal(get_stats(&query(Some(2), Some(1), None), 0)),
        (400, value(r#"{"error":"start must be <= end"}"#))
    );
}

#[test]
fn statistics_are_put_together() {
    let parts = || StatsParts {
        summary: Ok(body("1")),
        by_model: Ok(body("2")),
        by_account: Ok(body("3")),
        by_provider: Ok(body("4")),
        timeseries: Ok(body("5")),
    };
    assert_eq!(
        shown(&stats_reply(parts(), 6)),
        (
            200,
            value(r#"{"summary":1,"byModel":2,"byAccount":3,"byProvider":4,"timeseries":5,"granularityMs":6}"#)
        )
    );
    let mut p = parts();
    p.timeseries = Err("x".to_string());
    assert_eq!(shown(&stats_reply(p, 6)), (500, value(r#"{"error":"Failed to get timeseries: x"}"#)));
    let mut p = parts();
    p.by_model = Err("x".to_string());
    p.by_account = Err("y".to_string());
    assert_eq!(
        shown(&stats_reply(p, 6)),
        (500, value(r#"{"error":"Failed to get model breakdown: x"}"#))
    );
}

fn log_row(latency_ms: i64, ttft_ms: Option<i64>, is_stream: bool) -> LogRow {
    LogRow {
        id: 1,
        timestamp: 2,
        account_id: 3,
        provider_id: some("p"),
        model: some("m"),
        input_tokens: 4,
        output_tokens: 5,
        cache_read_input_tokens: 6,
        cache_creation_input_tokens: 7,
        latency_ms,
        ttft_ms,
        is_stream,
        success: true,
        error_message: None,
        is_test: false,
        account_name: some("a"),
        client_ip: None,
    }
}

#[test]
fn generation_is_timed_after_the_first_byte_of_a_stream() {
    assert_eq!(generation_ms(&log_row(100, Some(40), true)), 60);
    assert_eq!(generation_ms(&log_row(100, Some(40), false)), 100);
    assert_eq!(generation_ms(&log_row(100, Some(100), true)), 100);
    assert_eq!(generation_ms(&log_row(100, None, true)), 100);
    assert_eq!(generation_ms(&log_row(0, None, true)), 1);
    assert_eq!(generation_ms(&log_row(i64::MIN, Some(i64::MAX), true)), 1);
    assert_eq!(generation_ms(&log_row(i64::MAX, Some(i64::MIN), false)), i64::MAX);
    let page = get_stats_logs(vec![(log_row(100, Some(40), true), body("2.5"))], 9);
    assert_eq!(
        json::export(&page),
        value(
            r#"{"logs":[{"id":1,"timestamp":2,"accountId":3,"providerId":"p","model":"m","inputTokens":4,"outputTokens":5,
                "cacheReadInputTokens":6,"cacheCreationInputTokens":7,"latencyMs":100,"ttftMs":40,"isStream":true,"tps":2.5,
                "success":true,"errorMessage":null,"isTest":false,"accountName":"a","clientIp":null}],"total":9}"#
        )
    );
}

fn activity(id: i64, success: i64) -> ActivityRow {
    ActivityRow {
        id,
        timestamp: 1_700_000_000_000,
        model: "gpt-4o".to_string(),
        success,
        latency_ms: 123,
        input_tokens: 10,
        output_tokens: 5,
        cache_read: 2,
        cache_creation: 3,
        ttft_ms: None,
        is_stream: 0,
        error_message: None,
        account_name: "a".to_string(),
        provider_id: "openai".to_string(),
    }
}

#[test]
fn activity_is_counted() {
    let rows = vec![activity(1, 1), activity(2, 0), activity(3, 1), activity(4, 2)];
    let feed = json::export(&get_activity(&rows, true));
    assert_eq!(feed["totalRequests"], value("4"));
    assert_eq!(feed["successCount"], value("2"));
    assert_eq!(feed["entries"][0]["cache_tokens"], value("5"));
    assert_eq!(json::export(&get_activity(&rows, false))["entries"][0]["cache_tokens"], value("2"));
    assert_eq!(
        json::export(&get_activity(&vec![], true)),
        value(r#"{"entries": [], "totalRequests": 0, "successCount": 0}"#)
    );
    assert_eq!(activity_limit(&ActivityQuery { limit: None }), 50);
    assert_eq!(activity_limit(&ActivityQuery { limit: Some(500) }), 200);
    assert_eq!(activity_limit(&ActivityQuery { limit: Some(-1) }), -1);
}

#[test]
fn activity_detail_returns_captured_bodies_and_404() {
    assert_eq!(shown(&get_activity_detail(None)), (404, value(r#"{"error":"Activity not found"}"#)));
    let request = r#"{"model":"gpt-4o","messages":[{"role":"user","content":"hi"}]}"#;
    let response = r#"{"choices":[{"message":{"content":"hello"}}]}"#;
    let detail = ActivityDetail { request_body: some(request), response_body: some(response), client_ip: None };
    let (status, shown_body) = shown(&get_activity_detail(Some((activity(9, 1), detail))));
    assert_eq!(status, 200);
    assert_eq!(shown_body["id"].as_i64(), Some(9));
    assert_eq!(shown_body["model"], "gpt-4o");
    assert_eq!(shown_body["success"], 1);
    assert_eq!(shown_body["cache_tokens"], 2);
    assert_eq!(shown_body["request_body"], request);
    assert_eq!(shown_body["response_body"], response);
}

#[test]
fn health_follows_the_share_of_served_requests() {
    for (served, all, expected) in [
        (0, 0, "unknown"),
        (5, -1, "unknown"),
        (9, 10, "degraded"),
        (91, 100, "healthy"),
        (10, 10, "healthy"),
        (5, 10, "down"),
        (51, 100, "degraded"),
        (0, 1, "down"),
    ] {
        assert_eq!(account_health(served, all), expected, "{} of {}", served, all);
    }
    let rows = vec![HealthRow { id: 3, alias: "a".to_string(), success: 1, total: 1 }];
    assert_eq!(
        json::export(&get_health_status(&rows)),
        value(r#"[{"id":"acc_3","name":"a","status":"healthy","lastSuccess":1,"totalChecks":1}]"#)
    );
    assert_eq!(json::export(&get_health_status(&vec![])), value("[]"));
}

#[test]
fn the_dashboard_fails_with_its_first_part() {
    let parts = || DashboardParts {
        accounts: Ok(body("1")),
        aliases: Ok(body("2")),
        aggregate_aliases: Ok(body("3")),
        health: Ok(body("4")),
        model_health: Ok(body("5")),
        activity: Ok(body("6")),
        keys_count: Ok(body("7")),
    };
    assert_eq!(
        shown(&get_dashboard(parts())),
        (
            200,
            value(
                r#"{"accounts":1,"aliases":2,"aggregateAliases":3,"health":4,"modelHealth":5,"activity":6,"keysCount":7}"#
            )
        )
    );
    let mut p = parts();
    p.model_health = Err("x".to_string());
    p.keys_count = Err("y".to_string());
    assert_eq!(shown(&get_dashboard(p)), (500, value(r#"{"error":"dashboard: modelHealth: x"}"#)));
    assert_eq!(
        json::export(&light_account(&row(2, 1))),
        value(
            r#"{"id":2,"alias":"a2","provider_id":"p","base_url":null,"anthropic_base_url":null,"is_active":1,
                "chat_endpoint":"http://c","responses_endpoint":null,"messages_endpoint":null,"default_protocol":"chat"}"#
        )
    );
}

#[test]
fn removed_protocols_are_those_no_longer_served() {
    let removed = |b: &str| match update_account(&stored(), &body(b)) {
        Ok(u) => u.removed,
        Err(_) => panic!("{}", b),
    };
    assert_eq!(removed(r#"{"chat_endpoint":null,"messages_endpoint":" "}"#), vec!["chat", "messages"]);
    assert!(removed(r#"{"chat_endpoint":" http://n ","messages_endpoint":"http://m"}"#).is_empty());
    assert!(removed("{}").is_empty());
}

#[test]
fn the_first_unsound_endpoint_is_named() {
    let check = |chat, responses, messages| {
        let sound = EndpointCheck { chat, responses, messages };
        check_endpoints(&some("c"), &None, &some("m"), sound).map(|r| shown(&r))
    };
    assert_eq!(check(true, false, true), None);
    assert_eq!(check(true, false, false), Some((400, value(r#"{"error":"Invalid endpoint URL: m"}"#))));
    assert_eq!(check(false, false, false), Some((400, value(r#"{"error":"Invalid endpoint URL: c"}"#))));
}
