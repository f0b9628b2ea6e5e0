use llmux_server::app::TuiEvent;
use llmux_server::json;
use llmux_server::routes::v1::dispatch::{Usage, UsageLog};
use llmux_server::routes::v1::helpers::{
    compress_messages, current_client_ip, iso8601, iso8601_now, log_usage, logged_bodies,
    normalize_base_url, retention_cutoff, send_tui_request, shorten, smart_truncate_body,
    time_of_day, truncate_field, Timing,
};
use serde_json::Value;

fn object(members: Vec<(&str, Value)>) -> Value {
    Value::Object(members.into_iter().map(|(k, v)| (k.to_string(), v)).collect())
}

#[test]
fn success_long_body_compresses_fields_not_tail() {
    let long = "a".repeat(500);
    let mut msgs = Vec::new();
    for i in 0..121 {
        if i == 30 {
            msgs.push(object(vec![
                ("role", Value::from("assistant")),
                ("content", Value::from("x")),
                ("tool_calls", Value::Array(vec![])),
            ]));
        } else {
            msgs.push(object(vec![
                ("role", Value::from("assistant")),
                ("content", Value::from(long.as_str())),
                (
                    "tool_calls",
                    Value::Array(vec![object(vec![
                        ("id", Value::from("c")),
                        ("type", Value::from("function")),
                        (
                            "function",
                            object(vec![
                                ("name", Value::from("f")),
                                ("arguments", Value::from(long.as_str())),
                            ]),
                        ),
                    ])]),
                ),
            ]));
        }
    }
    let body = serde_json::to_string(&object(vec![
        ("model", Value::from("od")),
        ("messages", Value::Array(msgs)),
    ]))
    .unwrap();
    assert!(body.chars().count() > 32_000);
    let out = smart_truncate_body(Some(body), true, 32_000, 500_000).unwrap();
    assert!(out.chars().count() <= 32_000, "success should fit in 32k after compression");
    let v: Value = serde_json::from_str(&out).unwrap();
    assert_eq!(
        v["messages"][30]["tool_calls"],
        Value::Array(vec![]),
        "empty tool_calls structure must be preserved"
    );
}

#[test]
fn failure_long_body_kept_up_to_500k() {
    let body = "x".repeat(400_000);
    let json_body =
        format!(r#"{{"model":"od","messages":[{{"role":"user","content":"{}"}}]}}"#, body);
    let out = smart_truncate_body(Some(json_body), false, 32_000, 500_000).unwrap();
    assert!(out.chars().count() <= 500_000);
    assert!(out.chars().count() > 32_000, "failure should not be capped at 32k");
}

#[test]
fn a_field_is_cut_in_its_middle() {
    assert_eq!(truncate_field("abcdefghij", 4), "ab\n…[truncated 6 chars]…\nij");
    assert_eq!(truncate_field("abcdefghij", 5), "ab\n…[truncated 5 chars]…\nij");
    assert_eq!(truncate_field("abc", 3), "abc");
    assert_eq!(truncate_field("äöüß", 2), "ä\n…[truncated 2 chars]…\nß");
}

#[test]
fn compression_touches_long_fields_only() {
    let body = json::parse(
        r#"{"model":"m","messages":[
            {"role":"user","content":"0123456789"},
            {"role":"user","content":[{"type":"text","text":"abcdefghij"},{"type":"image_url"}]},
            {"role":"assistant","content":null,"tool_calls":[
                {"id":"c","function":{"name":"f","arguments":"ABCDEFGHIJ"}}]},
            "loose"]}"#,
    )
    .unwrap();
    let out = json::export(&compress_messages(&body, 4));
    let expected: Value = serde_json::from_str(
        r#"{"model":"m","messages":[
            {"role":"user","content":"01\n…[truncated 6 chars]…\n89"},
            {"role":"user","content":[{"type":"text","text":"ab\n…[truncated 6 chars]…\nij"},{"type":"image_url"}]},
            {"role":"assistant","content":null,"tool_calls":[
                {"id":"c","function":{"name":"f","arguments":"AB\n…[truncated 6 chars]…\nIJ"}}]},
            "loose"]}"#,
    )
    .unwrap();
    assert_eq!(out, expected);
    let flat = json::parse(r#"{"prompt":"0123456789"}"#).unwrap();
    assert_eq!(json::export(&compress_messages(&flat, 4)), json::export(&flat));
}

#[test]
fn a_body_that_fits_once_cut_says_the_cut_body() {
    let text = format!(r#"{{"messages":[{{"content":"{}"}},{{"content":"{}"}}]}}"#, "x".repeat(500), "y".repeat(500));
    let body = json::parse(&text).unwrap();
    let out = smart_truncate_body(Some(text.clone()), true, 300, 300).unwrap();
    assert!(out.chars().count() <= 300);
    assert_eq!(json::export(&json::parse(&out).unwrap()), json::export(&compress_messages(&body, 100)));
    assert_eq!(shorten(&text, Some(&body), 200, 300), out);
    let (request, _) = logged_bodies(Some(text.clone()), None, true);
    assert_eq!(request, Some(text));
}

#[test]
fn a_body_without_messages_loses_its_middle() {
    let out = smart_truncate_body(Some("x".repeat(200)), true, 150, 500).unwrap();
    let expected = format!("{}\n…[truncated 50 chars]…\n{}", "x".repeat(63), "x".repeat(63));
    assert_eq!(out, expected);
    assert_eq!(out.chars().count(), 150);
    assert_eq!(shorten(&"x".repeat(200), None, 200, 150), expected);
}

#[test]
fn a_body_that_fits_is_only_trimmed() {
    assert_eq!(smart_truncate_body(Some("  hi \n".to_string()), true, 10, 5), Some("hi".to_string()));
    assert_eq!(smart_truncate_body(Some(" \n\t ".to_string()), true, 10, 5), None);
    assert_eq!(smart_truncate_body(None, false, 10, 5), None);
}

#[test]
fn a_body_that_cannot_be_compressed_says_so() {
    let many: Vec<Value> = (0..40).map(|_| object(vec![("role", Value::from("user"))])).collect();
    let body = object(vec![("messages", Value::Array(many))]).to_string();
    let count = body.chars().count();
    let out = smart_truncate_body(Some(body), true, 200, 200).unwrap();
    assert_eq!(out.chars().count(), 200);
    assert!(out.contains(&format!(
        "\n…[truncated {} chars: compressed still {} > cap 200]…\n",
        count - 200,
        count
    )));
}

#[test]
fn logged_bodies_keep_to_their_caps() {
    let (req, resp) = logged_bodies(Some("q".repeat(40_000)), Some("a".repeat(40_000)), true);
    assert_eq!(req.unwrap().chars().count(), 32_000);
    assert_eq!(resp.unwrap().chars().count(), 16_000);
    let (req, resp) = logged_bodies(Some("q".repeat(40_000)), None, false);
    assert_eq!(req.unwrap().chars().count(), 40_000);
    assert!(resp.is_none());
}

#[test]
fn base_urls_are_normalized() {
    assert_eq!(normalize_base_url(" https://api.example.com/v1// "), "https://api.example.com/v1");
    assert_eq!(normalize_base_url("api.example.com/"), "https://api.example.com");
    assert_eq!(normalize_base_url("http://127.0.0.1:9"), "http://127.0.0.1:9");
}

#[test]
fn timestamps_are_written_in_utc() {
    assert_eq!(iso8601(0, 0), "1970-01-01T00:00:00.000Z");
    assert_eq!(iso8601(951_782_400, 7), "2000-02-29T00:00:00.007Z");
    assert_eq!(iso8601(1_700_000_000, 123), "2023-11-14T22:13:20.123Z");
    assert_eq!(iso8601(253_402_300_799, 999), "9999-12-31T23:59:59.999Z");
    let points =
        [(0, 0), (0, 1), (1, 0), (59, 999), (60, 0), (86_399, 999), (86_400, 0), (951_782_400, 7), (1_700_000_000, 123)];
    for pair in points.windows(2) {
        let (a, b) = (iso8601(pair[0].0, pair[0].1), iso8601(pair[1].0, pair[1].1));
        assert_eq!((a.len(), b.len()), (24, 24));
        assert!(a < b);
    }
    let now = iso8601_now();
    assert_eq!(now.len(), 24);
    assert!(now.as_str() > "2024-01-01T00:00:00.000Z");
    assert_eq!(time_of_day(3_661), "01:01:01");
    assert_eq!(time_of_day(86_399), "23:59:59");
}

#[test]
fn the_client_address_is_kept_unless_empty() {
    assert_eq!(current_client_ip(Some("10.0.0.1".to_string())), Some("10.0.0.1".to_string()));
    assert_eq!(current_client_ip(Some(String::new())), None);
    assert_eq!(current_client_ip(None), None);
}

#[test]
fn bodies_are_kept_for_three_days() {
    assert_eq!(retention_cutoff(1_000_000_000), 1_000_000_000 - 259_200_000);
}

#[test]
fn a_log_row_takes_each_value_into_its_column() {
    let usage = Usage { input: 1, output: 2, cache_read: 3, cache_creation: 4 };
    let row = log_usage(
        UsageLog {
            account_id: 7,
            model: "m".to_string(),
            provider_id: "p".to_string(),
            usage,
            error_message: None,
            response_body: Some(" answer ".to_string()),
        },
        true,
        Some(" question ".to_string()),
        Timing { timestamp: 5, latency_ms: 6, ttft_ms: Some(8), is_stream: true },
        Some("10.0.0.1".to_string()),
    );
    assert_eq!((row.timestamp, row.account_id, row.latency_ms), (5, 7, 6));
    assert_eq!((row.provider_id.as_str(), row.model.as_str()), ("p", "m"));
    assert_eq!(row.usage, usage);
    assert!(row.success && row.is_stream && !row.is_test);
    assert_eq!(row.ttft_ms, Some(8));
    assert_eq!(row.request_body.as_deref(), Some("question"));
    assert_eq!(row.response_body.as_deref(), Some("answer"));
    assert_eq!(row.client_ip.as_deref(), Some("10.0.0.1"));
}

#[test]
fn a_finished_request_is_shown() {
    match send_tui_request("/v1/messages", 200, 12, "m", 3_661) {
        TuiEvent::Request { timestamp, method, path, status, latency_ms, model } => {
            assert_eq!(
                (timestamp.as_str(), method.as_str(), path.as_str(), status, latency_ms, model.as_str()),
                ("01:01:01", "POST", "/v1/messages", 200, 12, "m")
            );
        }
        other => panic!("{:?}", other),
    }
}
