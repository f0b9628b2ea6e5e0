use llmux_server::error::Reply;
use llmux_server::json::{self, Json};
use llmux_server::routes::models::aggregate::{
    accounts_error, active_reply, alias_conflict, cascade_policy, choose_active,
    delete_aggregate_alias, invalid_candidates, list_aggregate_aliases, remove_model,
    set_aggregate_active, set_aggregate_alias, store_candidates, strike, success_message,
    unique_accounts, write_alias_entry, ActiveChoice, AggregateRow, AliasDeletion, RouterEntry,
};
use llmux_server::routes::models::available::{
    as_u64_val, do_fetch_models, explain_refusal, extract_context_length, fetch_provider_models,
    get_available_models, listed_models, load_snapshot, model_id, models_reply, normalize_model,
    owned_models, owners, placeholder, read_listing, refresh_done, remember_models, set_owner, CacheRow, Fetched,
    ModelMerge, ModelsCache, ModelsSource, MODELS_TTL,
};
use llmux_server::routes::models::health::{
    get_models_health, traffic_entry, LastStatus, ModelFacts, ModelRow, Suspension, TestResult,
};
use llmux_server::routes::models::stream::{
    account_event, account_filter, done_event, failed_events, is_stale, reported_models,
    snapshot_event, stored_text, stream_available_models, write_event,
};
use llmux_server::routes::models::summary::{get_models_summary, queue_part, SummaryParts};
use llmux_server::routes::models::testing::{
    advance, finish, get_test_queue_status, no_account_reply, no_client_reply, queue_provider,
    queue_started, start_test_queue, test_model, test_provider, tested, unresolved_provider,
    write_test_reply, ProbeOutcome, TestQueueState,
};
use llmux_server::routes::models::verify::{
    attach, verified_entry, verify_targets, VerifyOutcome, VerifyScope,
};
use llmux_server::routes::v1::aggregate::AggregateCandidate;
use llmux_server::routes::v1::dispatch::Account;
use serde_json::Value;

fn body(s: &str) -> Json {
    json::parse(s).unwrap()
}

fn value(s: &str) -> Value {
    serde_json::from_str(s).unwrap()
}

fn shown(r: &Reply) -> (u16, Value) {
    (r.status, json::export(&r.body))
}

fn refusal<T>(r: Result<T, Reply>) -> (u16, Value) {
    match r {
        Err(e) => shown(&e),
        Ok(_) => panic!("this must be refused"),
    }
}

fn some(s: &str) -> Option<String> {
    Some(s.to_string())
}

fn texts(v: &[&str]) -> Vec<String> {
    v.iter().map(|s| s.to_string()).collect()
}

fn values(v: &Vec<Json>) -> Value {
    Value::Array(v.iter().map(json::export).collect())
}

#[test]
fn aggregate_aliases_are_checked() {
    for (b, message) in [
        ("{}", "Missing required field: alias"),
        (r#"{"alias":"  "}"#, "Missing required field: alias"),
        (r#"{"alias":"a"}"#, "Missing required field: candidates"),
        (r#"{"alias":"a","candidates":{}}"#, "candidates must be an array"),
        (r#"{"alias":"a","candidates":[]}"#, "candidates must not be empty"),
        (
            r#"{"alias":"a","candidates":[{"account_id":0,"model":"m"}]}"#,
            "each candidate requires account_id (>0)",
        ),
        (
            r#"{"alias":"a","candidates":[{"account_id":1,"model":" "}]}"#,
            "each candidate requires non-empty model",
        ),
    ] {
        let expected = value(&format!(r#"{{"error":"{}"}}"#, message));
        assert_eq!(refusal(set_aggregate_alias(&body(b))), (400, expected), "{}", b);
    }
    let b = r#"{"alias":" agg ","candidates":[{"account_id":7,"model":" x "},{"account_id":3,"model":"y"},{"account_id":7,"model":"z"}],"interval_secs":5,"confirm":true}"#;
    match set_aggregate_alias(&body(b)) {
        Ok(d) => {
            assert_eq!(d.alias, "agg");
            assert_eq!(d.account_ids, vec![3, 7]);
            assert_eq!((d.interval_secs, d.confirm), (60, true));
            assert_eq!(d.upstream_api, "chat");
            assert_eq!(d.candidates[0].model, "x");
            let stored = store_candidates(&d.candidates);
            assert_eq!(
                stored,
                r#"[{"account_id":7,"model":"x"},{"account_id":3,"model":"y"},{"account_id":7,"model":"z"}]"#
            );
            assert_eq!(unique_accounts(&d.candidates), vec![3, 7]);
        }
        Err(_) => panic!("a full request must be taken"),
    }
    for (given, taken) in [("-1", 60), ("3601", 3600), ("90", 90)] {
        let b = format!(r#"{{"alias":"a","candidates":[{{"account_id":1,"model":"m"}}],"interval_secs":{}}}"#, given);
        match set_aggregate_alias(&body(&b)) {
            Ok(d) => assert_eq!(d.interval_secs, taken),
            Err(_) => panic!("{}", b),
        }
    }
}

#[test]
fn aggregate_aliases_meet_accounts_and_ordinary_aliases() {
    assert!(accounts_error(2, 2).is_none());
    assert_eq!(
        shown(&accounts_error(1, 2).unwrap()),
        (400, value(r#"{"error":"one or more account_id does not exist or is inactive"}"#))
    );
    assert!(alias_conflict("a", true, true).is_none() && alias_conflict("a", false, false).is_none());
    assert_eq!(
        shown(&alias_conflict("a", true, false).unwrap()),
        (
            409,
            value(
                r#"{"error":"alias 'a' already exists as a regular alias","code":"alias_conflict","conflict":"ordinary","alias":"a"}"#
            )
        )
    );
    assert_eq!(
        shown(&invalid_candidates("x", 400)),
        (400, value(r#"{"error":"Invalid candidates: x"}"#))
    );
    assert_eq!(shown(&success_message("m")), (200, value(r#"{"success":true,"message":"m"}"#)));
}

#[test]
fn a_deleted_alias_is_struck_from_policies() {
    assert_eq!(cascade_policy("*", "a"), None);
    assert_eq!(cascade_policy(r#"["b"]"#, "a"), None);
    assert_eq!(cascade_policy("nonsense", "a"), None);
    assert_eq!(cascade_policy(r#"["a"]"#, "a"), some("*"));
    assert_eq!(cascade_policy(r#"["a","b","a","c"]"#, "a"), some(r#"["b","c"]"#));
    assert_eq!(strike(&texts(&["x", "a"]), "a"), some(r#"["x"]"#));
    assert_eq!(strike(&texts(&["x"]), "a"), None);
    assert_eq!(remove_model(&texts(&["a", "x", "a"]), "a"), texts(&["x"]));
    assert_eq!(
        shown(&delete_aggregate_alias(&AliasDeletion::NoAlias)),
        (404, value(r#"{"error":"Aggregate alias not found"}"#))
    );
    assert_eq!(
        shown(&delete_aggregate_alias(&AliasDeletion::NotRead("x".to_string()))),
        (500, value(r#"{"error":"Failed to lookup aggregate alias: x"}"#))
    );
    assert_eq!(
        shown(&delete_aggregate_alias(&AliasDeletion::NotDeleted("x".to_string()))),
        (500, value(r#"{"error":"Failed to delete aggregate alias: x"}"#))
    );
    assert_eq!(
        shown(&delete_aggregate_alias(&AliasDeletion::Deleted)),
        (200, value(r#"{"success":true,"message":"Aggregate alias deleted"}"#))
    );
}

#[test]
fn an_active_candidate_must_be_there() {
    let two = r#"[{"account_id":1,"model":"m"},2]"#;
    assert!(matches!(
        set_aggregate_active(two, &body(r#"{"active":1}"#)),
        Ok(ActiveChoice { target: 1, len: 2 })
    ));
    assert_eq!(
        refusal(set_aggregate_active(two, &body(r#"{"active":2}"#))),
        (400, value(r#"{"error":"active must be 0..1"}"#))
    );
    assert_eq!(
        refusal(set_aggregate_active(two, &body(r#"{"active":-1}"#))),
        (400, value(r#"{"error":"active must be 0..1"}"#))
    );
    assert_eq!(
        refusal(set_aggregate_active(two, &body("{}"))),
        (400, value(r#"{"error":"Missing required field: active"}"#))
    );
    assert_eq!(
        refusal(set_aggregate_active("[]", &body("{}"))),
        (400, value(r#"{"error":"Aggregate alias has no candidates"}"#))
    );
    assert_eq!(
        refusal(set_aggregate_active("", &body("{}"))),
        (500, value(r#"{"error":"Invalid candidates: EOF while parsing a value at line 1 column 0"}"#))
    );
    assert!(matches!(choose_active(3, &body(r#"{"active":2}"#)), Ok(2)));
    assert_eq!(shown(&active_reply(2)), (200, value(r#"{"success":true,"active":2}"#)));
}

#[test]
fn aggregate_aliases_are_listed() {
    let row = |candidates: &str| AggregateRow {
        id: 1,
        alias: "a".to_string(),
        candidates: candidates.to_string(),
        interval_secs: None,
        upstream_api: some("responses"),
    };
    let entry = RouterEntry {
        active: 2,
        last_status: body("[true]"),
        pending_target: Some(0),
        confirm_count: 1,
    };
    let list = list_aggregate_aliases(&vec![(row("[{}]"), Some(entry)), (row("oops"), None)]);
    assert_eq!(
        json::export(&list),
        value(
            r#"[{"id":1,"alias":"a","candidates":[{}],"interval_secs":300,"upstream_api":"responses","active":2,"last_status":[true],"pending_target":0,"confirm_count":1},
                {"id":1,"alias":"a","candidates":[],"interval_secs":300,"upstream_api":"responses","active":0,"last_status":[],"pending_target":null,"confirm_count":0}]"#
        )
    );
    let one = AggregateRow { upstream_api: None, interval_secs: Some(60), ..row("[]") };
    let shown_one = json::export(&write_alias_entry(&one, Some(body("[1]")), &None));
    assert_eq!(shown_one["upstream_api"], "chat");
    assert_eq!(shown_one["interval_secs"], 60);
    assert_eq!(shown_one["candidates"], value("[1]"));
}

#[test]
fn models_are_normalized() {
    assert_eq!(
        json::export(&normalize_model(&body(r#"{"name":"models/g-1","displayName":"G 1","inputTokenLimit":"1000 "}"#), Some(5))),
        value(
            r#"{"id":"g-1","name":"G 1","displayName":"G 1","object":"model","created":0,"inputTokenLimit":"1000 ","context_length":1000}"#
        )
    );
    assert_eq!(
        json::export(&normalize_model(&body(r#"{"id":"m","object":"x","created":3}"#), Some(5))),
        value(r#"{"id":"m","name":"m","object":"x","created":3,"context_length":5}"#)
    );
    assert_eq!(
        json::export(&normalize_model(&body(r#"{"id":""}"#), Some(5))),
        value(r#"{"id":"","name":"","object":"model","created":0}"#)
    );
    assert_eq!(json::export(&normalize_model(&body("7"), Some(5))), value("7"));
    assert_eq!(model_id(&body(r#"{"id":"","name":"models/x"}"#)), "x");
    assert_eq!(model_id(&body("{}")), "");
}

#[test]
fn context_lengths_are_found() {
    for (m, expected) in [
        (r#"{"capabilities":{"limits":{"max_context_window_tokens":1}},"inputTokenLimit":2}"#, Some(1)),
        (r#"{"inputTokenLimit":2,"context_length":3}"#, Some(2)),
        (r#"{"context_length":"x","max_model_len":4}"#, Some(4)),
        (r#"{"max_context_length":5}"#, Some(5)),
        (r#"{"context_window":" 6 "}"#, Some(6)),
        (r#"{"context_window":-6}"#, None),
        (r#"{"context_window":6.5}"#, None),
        ("{}", None),
    ] {
        assert_eq!(extract_context_length(&body(m)), expected, "{}", m);
    }
    assert_eq!(as_u64_val(&body("\"+9\"")), Some(9));
    assert_eq!(as_u64_val(&body("null")), None);
}

fn account(base_url: Option<&str>) -> Account {
    Account {
        id: 1,
        alias: "acc".to_string(),
        provider_id: "p".to_string(),
        api_key: "k".to_string(),
        openai_compatible: 0,
        base_url: base_url.map(String::from),
        anthropic_base_url: None,
        chat_endpoint: None,
        responses_endpoint: None,
        messages_endpoint: None,
    }
}

#[test]
fn listings_are_asked_for_in_each_dialect() {
    let pair = |k: &str, v: &str| (k.to_string(), v.to_string());
    let r = fetch_provider_models(&account(Some("http://b/v1//")), "openai");
    assert_eq!((r.url.as_str(), r.headers), ("http://b/v1/models", vec![pair("authorization", "Bearer k")]));
    let r = fetch_provider_models(&account(None), "custom");
    assert_eq!(r.url, "https://api.openai.com/v1/models");
    let r = fetch_provider_models(&account(None), "anthropic");
    assert_eq!(r.url, "https://api.anthropic.com/v1/models");
    assert!(r.headers.contains(&pair("x-api-key", "k")));
    assert!(r.headers.contains(&pair("anthropic-version", "2023-06-01")));
    let r = fetch_provider_models(&account(Some("http://b")), "gemini");
    assert_eq!(r.url, "https://generativelanguage.googleapis.com/v1beta/models");
    assert_eq!(r.headers, vec![pair("x-goog-api-key", "k")]);
}

#[test]
fn listings_are_read() {
    match read_listing("openai", 200, r#"{"data":[{"id":"a"}],"models":[1]}"#) {
        Ok(v) => assert_eq!(values(&v), value(r#"[{"id":"a"}]"#)),
        Err(e) => panic!("{}", e),
    }
    match read_listing("gemini", 200, r#"{"data":[{"id":"a"}],"models":[1]}"#) {
        Ok(v) => assert_eq!(values(&v), value("[1]")),
        Err(e) => panic!("{}", e),
    }
    let failed = |status: u16, text: &str| match read_listing("x", status, text) {
        Err(e) => e,
        Ok(_) => panic!("{}", text),
    };
    assert_eq!(failed(401, r#"{"error":{"message":"no"}}"#), "no");
    assert_eq!(failed(503, "down"), "HTTP 503");
    assert_eq!(failed(200, ""), "JSON parse error: EOF while parsing a value at line 1 column 0");
    assert_eq!(explain_refusal(404, None), "HTTP 404");
    assert_eq!(explain_refusal(404, Some(&body(r#"{"error":{"message":"gone"}}"#))), "gone");
    assert!(listed_models("x", &body(r#"{"data":{}}"#)).is_empty());
}

#[test]
fn fetched_models_are_merged_once() {
    let results = vec![
        Fetched {
            alias: "a".to_string(),
            models: vec![body(r#"{"id":"m","v":1}"#), body(r#"{"id":"m","v":2}"#), body(r#"{"id":"n"}"#)],
            error: None,
        },
        Fetched { alias: "b".to_string(), models: vec![], error: some("why") },
        Fetched { alias: "b".to_string(), models: vec![], error: some("again") },
    ];
    let customs = vec![
        ("m".to_string(), "a".to_string()),
        ("c".to_string(), String::new()),
        (String::new(), "p".to_string()),
    ];
    let merged = do_fetch_models(&results, &customs);
    assert_eq!(
        values(&merged),
        value(
            r#"[{"id":"m","v":1,"owned_by":"a"},{"id":"n","owned_by":"a"},
                {"id":"b-models-unavailable","name":"b","object":"model","created":0,"owned_by":"b","error":"why"},
                {"id":"c","object":"model","created":0,"owned_by":"custom"}]"#
        )
    );
    assert!(do_fetch_models(&vec![], &customs).is_empty());
    assert_eq!(values(&owned_models(&merged, "a")), value(r#"[{"id":"m","v":1,"owned_by":"a"},{"id":"n","owned_by":"a"}]"#));
    let mut who = owners(&merged);
    who.sort();
    assert_eq!(who, texts(&["a", "b", "custom"]));
    let mut m = ModelMerge::new();
    m.offer("k".to_string(), body("1"));
    m.offer("k".to_string(), body("2"));
    m.offer_all("o", &vec![body(r#"{"id":"x"}"#)], true);
    m.add_fetched("o", &vec![body(r#"{"id":"x","again":true}"#)], &None);
    m.add_custom("y", "p");
    assert_eq!(
        values(&m.into_models()),
        value(r#"[1,{"id":"x","owned_by":"o"},{"id":"y","object":"model","created":0,"owned_by":"p"}]"#)
    );
    assert_eq!(json::export(&set_owner(&body("3"), "o")), value("3"));
    assert_eq!(json::export(&placeholder("p", &None)).get("error"), None);
}

#[test]
fn models_come_from_where_they_are_fresh() {
    let cached = |created_at, refreshing| Some(ModelsCache { data: vec![], created_at, refreshing });
    let mut none = None;
    assert!(matches!(get_available_models(true, true, &mut none, 0), ModelsSource::Fetch));
    let mut far = cached(i64::MIN, false);
    assert!(matches!(get_available_models(false, true, &mut far, i64::MAX), ModelsSource::Fetch));
    assert!(matches!(get_available_models(true, false, &mut far, i64::MAX), ModelsSource::Snapshot));
    assert!(matches!(get_available_models(true, false, &mut none, 0), ModelsSource::Snapshot));
    assert!(matches!(get_available_models(false, false, &mut none, 0), ModelsSource::Fetch));
    let mut fresh = cached(10, false);
    assert!(matches!(
        get_available_models(false, false, &mut fresh, 10 + MODELS_TTL - 1),
        ModelsSource::Memory { stale: false, cached_at: 10, refresh: false }
    ));
    let mut old = cached(10, false);
    assert!(matches!(
        get_available_models(false, false, &mut old, 10 + MODELS_TTL),
        ModelsSource::Memory { stale: true, cached_at: 10, refresh: true }
    ));
    assert!(old.as_ref().unwrap().refreshing);
    assert!(matches!(
        get_available_models(false, false, &mut old, 10 + MODELS_TTL),
        ModelsSource::Memory { stale: true, cached_at: 10, refresh: false }
    ));
    refresh_done(&mut old, vec![body("1")], 99);
    let now = old.unwrap();
    assert_eq!((now.created_at, now.refreshing, now.data.len()), (99, false, 1));
    assert_eq!(
        json::export(&models_reply(vec![], false, 4, None)),
        value(r#"{"data":[],"stale":false,"cached_at":4}"#)
    );
    assert_eq!(
        json::export(&models_reply(vec![], true, 4, Some(vec![body("1")]))),
        value(r#"{"data":[],"stale":true,"cached_at":4,"per_account":[1]}"#)
    );
}

fn cache_row(id: i64, alias: &str, models: &str, updated_at: i64) -> CacheRow {
    CacheRow { account_id: id, alias: alias.to_string(), models_json: models.to_string(), error: None, updated_at }
}

#[test]
fn snapshots_put_stored_models_together() {
    let rows = vec![
        cache_row(1, "a", r#"[{"id":"m"},{"id":"m"},{"id":"n"}]"#, 100),
        cache_row(2, "b", "oops", 50),
    ];
    let s = load_snapshot(&rows, &vec![("c".to_string(), "p".to_string())], 100);
    assert_eq!(
        values(&s.data),
        value(r#"[{"id":"m"},{"id":"n"},{"id":"c","object":"model","created":0,"owned_by":"p"}]"#)
    );
    assert_eq!(
        values(&s.per_account),
        value(
            r#"[{"account_id":1,"alias":"a","updated_at":100,"error":null,"count":3},{"account_id":2,"alias":"b","updated_at":50,"error":null,"count":0}]"#
        )
    );
    assert_eq!((s.cached_at, s.stale), (100, false));
    let kept = s.remember();
    assert_eq!(values(&kept.data), values(&s.data));
    assert_eq!((kept.created_at, kept.refreshing), (100, false));
    assert_eq!(remember_models(&s.data, 7).created_at, 7);
    for no_list in [r#"{"$serde_json::private::RawValue":"[1]"}"#, r#"{"a":[1]}"#, " 3", "[1", ""] {
        let none = load_snapshot(&vec![cache_row(1, "a", no_list, 0)], &vec![], 0);
        assert!(none.data.is_empty(), "{}", no_list);
    }
    let spaced = load_snapshot(&vec![cache_row(1, "a", "\n\t [{\"id\":\"m\"}] ", 0)], &vec![], 0);
    assert_eq!(values(&spaced.data), value(r#"[{"id":"m"}]"#));
    assert!(load_snapshot(&rows, &vec![], 50 + MODELS_TTL).stale);
    assert!(is_stale(&vec![], 0) && !is_stale(&rows, 100) && is_stale(&rows, 50 + MODELS_TTL));
    let far = vec![cache_row(1, "a", "[]", 0), cache_row(2, "b", "[]", i64::MIN)];
    assert!(is_stale(&far, MODELS_TTL) && load_snapshot(&far, &vec![], MODELS_TTL).stale);
}

#[test]
fn streams_ask_the_accounts_that_need_it() {
    assert_eq!(account_filter(Some(" 1, x,+2,1")), Some(vec![1, 2, 1]));
    assert_eq!(account_filter(Some("  ")), None);
    assert_eq!(account_filter(None), None);
    let ids = vec![1, 2, 3];
    let times = vec![(1, 0), (1, MODELS_TTL), (2, 1)];
    let ask = |list, force| stream_available_models(list, force, &ids, &times, MODELS_TTL);
    assert_eq!(ask(None, false), Ok(vec![3]));
    assert_eq!(ask(None, true), Ok(vec![1, 2, 3]));
    assert_eq!(ask(Some("2,3"), true), Ok(vec![2, 3]));
    assert_eq!(ask(Some("none"), true), Ok(vec![1, 2, 3]));
    assert_eq!(
        ask(Some("1"), false),
        Err("event: done\ndata: {\"skipped\":true,\"total\":0}\n\n".to_string())
    );
    assert_eq!(ask(Some("9"), true), Ok(vec![]));
    let far = vec![(1, i64::MIN), (2, i64::MAX)];
    assert_eq!(stream_available_models(None, true, &ids, &far, i64::MAX), Ok(vec![1, 2, 3]));
    assert_eq!(stream_available_models(Some("3"), false, &ids, &far, MODELS_TTL), Ok(vec![3]));
}

#[test]
fn streams_are_made_of_events() {
    assert_eq!(write_event("x", &body("{}")), "event: x\ndata: {}\n\n");
    assert_eq!(done_event(), "event: done\ndata: {\"total\":1}\n\n");
    assert_eq!(
        failed_events("no"),
        "event: error\ndata: {\"error\":\"no\"}\n\nevent: done\ndata: {\"total\":0}\n\n"
    );
    let snapshot = snapshot_event(&vec![cache_row(1, "a", "[]", -5)], &vec![], 0);
    let data = snapshot.strip_prefix("event: snapshot\ndata: ").unwrap();
    assert_eq!(
        value(data),
        value(
            r#"{"data":[],"per_account":[{"account_id":1,"alias":"a","updated_at":-5,"error":null,"count":0}],"cached_at":-5,"stale":false}"#
        )
    );
    let models = reported_models("a", &vec![body(r#"{"id":"m"}"#)], &None);
    assert_eq!(stored_text(&models), r#"[{"id":"m","owned_by":"a"}]"#);
    assert_eq!(
        account_event(4, "a", models, &None, 9),
        "event: account\ndata: {\"account_id\":4,\"alias\":\"a\",\"error\":null,\"models\":[{\"id\":\"m\",\"owned_by\":\"a\"}],\"updated_at\":9}\n\n"
    );
    let none = reported_models("a", &vec![], &some("e"));
    assert_eq!(
        json::export(&none),
        value(
            r#"[{"id":"a-models-unavailable","name":"a","object":"model","created":0,"owned_by":"a","error":"e"}]"#
        )
    );
    let stored = vec![cache_row(1, "a", &stored_text(&none), 0)];
    assert_eq!(values(&load_snapshot(&stored, &vec![], 0).data), json::export(&none));
}

#[test]
fn test_queue_status_reports_and_validates_scope() {
    let scope_of = |b: &str| {
        let mut q = TestQueueState::default();
        assert!(start_test_queue(&mut q, &body(b)).is_ok());
        json::export(&get_test_queue_status(&q))["scope"].clone()
    };
    for want in ["aliases", "aggregates", "models"] {
        assert_eq!(scope_of(&format!(r#"{{"models":[],"scope":"{}"}}"#, want)), want);
    }
    assert_eq!(scope_of(r#"{"models":[]}"#), "models");
    assert_eq!(scope_of(r#"{"models":[],"scope":"../../etc/passwd"}"#), "models");
}

#[test]
fn one_queue_runs_at_a_time() {
    let mut q = TestQueueState::default();
    assert_eq!(
        json::export(&get_test_queue_status(&q)),
        value(r#"{"isRunning": false, "total": 0, "current": 0, "progress": 0, "scope": ""}"#)
    );
    assert_eq!(
        refusal(start_test_queue(&mut q, &body("{}"))),
        (400, value(r#"{"error":"Invalid models array"}"#))
    );
    let b = body(r#"{"models":[{"model":"m","accountId":3,"providerId":"p"},{"providerId":""},{"model":"n"}]}"#);
    let items = match start_test_queue(&mut q, &b) {
        Ok(items) => items,
        Err(_) => panic!("a queue must start"),
    };
    assert_eq!(items[0].model, "m");
    assert_eq!((items[0].account_id, items[0].provider_id.as_deref()), (Some(3), Some("p")));
    assert_eq!((items[1].model.as_str(), items[1].provider_id.as_deref()), ("unknown", None));
    assert_eq!(
        refusal(start_test_queue(&mut q, &b)),
        (409, value(r#"{"error":"A test queue is already running."}"#))
    );
    let mut progress = vec![];
    for i in 0..3 {
        advance(&mut q, i);
        progress.push((q.current, q.progress));
    }
    assert_eq!(progress, vec![(1, 33), (2, 66), (3, 100)]);
    assert_eq!(
        json::export(&queue_part(&q)),
        value(r#"{"isRunning":true,"total":3,"current":3,"progress":100}"#)
    );
    finish(&mut q);
    assert!(!q.is_running);
    assert_eq!(
        shown(&queue_started(0)),
        (200, value(r#"{"success": true, "message": "Queue started", "total": 0}"#))
    );
}

#[test]
fn tests_find_their_provider() {
    assert_eq!(queue_provider("openai", Some("p")), "p");
    assert_eq!(queue_provider("gemini", None), "gemini");
    assert_eq!(queue_provider("other", Some("p")), "other");
    assert_eq!(unresolved_provider(None), "openai");
    assert_eq!(unresolved_provider(Some("p")), "p");
    assert_eq!(test_provider("r", None), "r");
    assert_eq!(test_provider("r", Some("p")), "p");
    assert_eq!(refusal(test_model(&body("{}"))), (400, value(r#"{"error": "No model provided"}"#)));
    match test_model(&body(r#"{"model":"m","providerId":"","accountId":4}"#)) {
        Ok(t) => assert_eq!((t.model.as_str(), t.provider_id.as_deref(), t.account_id), ("m", Some(""), Some(4))),
        Err(_) => panic!("a full request must be taken"),
    }
    assert_eq!(
        shown(&no_account_reply("p")),
        (200, value(r#"{"success":false,"error":"No active account found for provider p"}"#))
    );
    assert_eq!(
        shown(&no_client_reply("x")),
        (200, value(r#"{"success":false,"error":"Failed to create HTTP client: x"}"#))
    );
}

#[test]
fn tests_are_reported() {
    let outcome = |success: bool, preferred: Option<&str>| ProbeOutcome {
        success,
        latency_ms: 5,
        status: Some(200),
        supported: texts(&["chat", "messages"]),
        via: some("chat"),
        mismatched_config: None,
        preferred_body: preferred.map(String::from),
        error_summary: "all down".to_string(),
    };
    assert_eq!(
        shown(&tested(&outcome(true, Some(r#"{"x":1}"#)))),
        (
            200,
            value(
                r#"{"success":true,"latency":5,"status":200,"supported":["chat","messages"],"via":"chat","mismatchedConfig":null,"response":{"x":1},"error":null}"#
            )
        )
    );
    let failed = shown(&tested(&outcome(false, Some(r#"{"error":{"message":"no"}}"#)))).1;
    assert_eq!((failed["error"].clone(), failed["response"].clone()), (value("\"no\""), Value::Null));
    assert_eq!(shown(&tested(&outcome(false, None))).1["error"], "all down");
    assert_eq!(shown(&write_test_reply(&outcome(true, None), None)).1["response"], Value::Null);
}

#[test]
fn saved_aliases_are_verified() {
    assert!(matches!(verify_targets(&vec![1], Some("p")), VerifyScope::Accounts));
    assert!(matches!(verify_targets(&vec![], Some("p")), VerifyScope::Provider(p) if p == "p"));
    assert!(matches!(verify_targets(&vec![], None), VerifyScope::Nobody));
    let outcome = VerifyOutcome {
        account_id: 1,
        account: "a".to_string(),
        success: false,
        supported: vec![],
        via: None,
        latency_ms: 3,
        error_summary: "e".to_string(),
    };
    assert_eq!(
        json::export(&attach(vec![verified_entry(&outcome)])),
        value(
            r#"{"verified":[{"account_id":1,"account":"a","success":false,"supported":[],"via":null,"latency":3,"error":"e"}]}"#
        )
    );
    let served = VerifyOutcome { success: true, ..outcome };
    assert_eq!(json::export(&verified_entry(&served))["error"], Value::Null);
}

fn model_row() -> ModelRow {
    ModelRow {
        account_id: 1,
        provider_id: "p".to_string(),
        model: "m".to_string(),
        limits_cache: some(r#"{"ok":true}"#),
        limits_cache_updated_at: None,
        account_name: "a".to_string(),
        traffic: LastStatus { success: 1, latency: 20, error: None, checked_at: 100 },
    }
}

#[test]
fn the_newer_of_manual_test_and_traffic_is_shown() {
    let test = |is_manual, checked_at| TestResult {
        status: LastStatus { success: 0, latency: 7, error: some("e"), checked_at },
        is_manual,
        via: some("chat"),
        source: "manual".to_string(),
        protocols: texts(&["chat"]),
    };
    let last_checked = |test: Option<TestResult>| {
        let facts = vec![ModelFacts { row: model_row(), test, suspension: None }];
        json::export(&get_models_health(&facts))[0]["last_checked"].as_i64().unwrap()
    };
    assert_eq!(last_checked(None), 100);
    assert_eq!(last_checked(Some(test(true, 101))), 101);
    assert_eq!(last_checked(Some(test(true, 100))), 100);
    assert_eq!(last_checked(Some(test(false, 101))), 100);
    let suspension = Suspension { suspended: true, failures: 3, remaining_secs: 9, last_error: None };
    let facts = vec![ModelFacts { row: model_row(), test: Some(test(true, 101)), suspension: Some(suspension) }];
    assert_eq!(
        json::export(&get_models_health(&facts)),
        value(
            r#"[{"account_id":1,"provider_id":"p","model":"m","last_checked":101,"success":0,"latency":7,"error":"e",
                "limits_cache":{"ok":true},"limits_cache_updated_at":null,"account_name":"a","supported":["chat"],
                "test":{"success":0,"latency":7,"error":"e","checked_at":101,"via":"chat","source":"manual"},
                "suspension":{"suspended":true,"failures":3,"remaining_secs":9,"last_error":null}}]"#
        )
    );
    assert_eq!(json::export(&get_models_health(&vec![])), value("[]"));
    assert_eq!(
        json::export(&traffic_entry(&model_row())),
        value(
            r#"{"account_id":1,"provider_id":"p","model":"m","last_checked":100,"success":1,"latency":20,"error":null,
                "limits_cache":{"ok":true},"limits_cache_updated_at":null,"account_name":"a"}"#
        )
    );
}

#[test]
fn the_models_page_fails_with_its_first_part() {
    let parts = || SummaryParts {
        aliases: Ok(body("1")),
        aggregate_aliases: Ok(body("2")),
        accounts: Ok(body("3")),
        health: Ok(body("4")),
        queue: Ok(body("5")),
    };
    assert_eq!(
        shown(&get_models_summary(parts())),
        (200, value(r#"{"aliases":1,"aggregateAliases":2,"accounts":3,"health":4,"queue":5}"#))
    );
    let mut p = parts();
    p.aggregate_aliases = Err("x".to_string());
    p.queue = Err("y".to_string());
    assert_eq!(shown(&get_models_summary(p)), (500, value(r#"{"error":"summary: aggregate: x"}"#)));
}

#[test]
fn candidates_are_stored_as_they_are_read() {
    let candidates = vec![AggregateCandidate { account_id: 2, model: "\"q\"".to_string() }];
    assert_eq!(store_candidates(&candidates), r#"[{"account_id":2,"model":"\"q\""}]"#);
    assert!(matches!(
        set_aggregate_active(&store_candidates(&candidates), &body(r#"{"active":0}"#)),
        Ok(ActiveChoice { target: 0, len: 1 })
    ));
}
