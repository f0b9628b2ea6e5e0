use llmux_server::aggregate_probe::{
    after_answer, after_first_stage, first_stage, is_alive, load_min_interval, probe_candidate,
    probe_report, probe_sleep_secs, ProbeStep,
};
use llmux_server::error::Reply;
use llmux_server::json::{self, Json};
use llmux_server::routes::models::available::ModelsCache;
use llmux_server::routes::v1::aggregate::{begin_at, AggregateCandidate, Candidates, Manner};
use llmux_server::routes::v1::anthropic::{
    chat_request, converted_usage, filled_url, messages, plan_messages, MessagesPlan,
};
use llmux_server::routes::v1::dispatch::{
    accounts_failed, accounts_wanted, admit_model, dispatch_key, dispatch_tag, endpoint_path,
    forward_request, fresh_tokens, is_anthropic, is_streaming, openai_accounts, pass_on,
    preferred_account, refuse_model, rejection, resolution_failed, set_model, usable_accounts,
    Account, AccountsWanted, Action, Effect, Ingress, ModelResolution, Protocol, Turn, Usage,
};
use llmux_server::routes::v1::failover::{error_message, Failover};
use llmux_server::routes::v1::models::{
    advertised_id, aggregate_target, lower_ascii, models, models_failed, models_for_desktop,
    resolve_alias_context, ListedAlias,
};
use llmux_server::routes::v1::openai::{
    anthropic_fallback_request, anthropic_fallback_response, anthropic_usage, back_conversion,
    cache_after_conversion, chat_completions, count, counted_with_cache, counts_after_conversion,
    passthrough_usage, reads_whole, requested_model, responses, usage_of_answer, Back, Route,
};
use llmux_server::routes::v1::streaming::{
    chat_stream_log, feed_of, first_byte, is_done_payload, responses_stream_log, Feed, MessagesWatch,
    Place, StreamWatch,
};
use serde_json::Value;

fn body(s: &str) -> Json {
    json::parse(s).unwrap()
}

fn value(s: &str) -> Value {
    serde_json::from_str(s).unwrap()
}

fn shown(r: &Reply) -> (u16, Value) {
    (r.status, json::export(&r.body))
}

fn some(s: &str) -> Option<String> {
    Some(s.to_string())
}

fn usage(input: i64, output: i64, cache_read: i64, cache_creation: i64) -> Usage {
    Usage { input, output, cache_read, cache_creation }
}

fn account(id: i64) -> Account {
    Account {
        id,
        alias: format!("acc{}", id),
        provider_id: "openai".to_string(),
        api_key: "key".to_string(),
        openai_compatible: 0,
        base_url: None,
        anthropic_base_url: None,
        chat_endpoint: some("http://a"),
        responses_endpoint: None,
        messages_endpoint: None,
    }
}

fn effect(e: &Effect) -> String {
    match e {
        Effect::Record { hit, success } => format!("record {:?} {}", hit, success),
        Effect::CandidateFailed(i) => format!("failed {}", i),
        Effect::CandidateServed(i) => format!("served {}", i),
        Effect::Outcome(i) => format!("outcome {}", i),
        Effect::AllFailed => "all failed".to_string(),
        Effect::Retry { account, status, message } => format!("retry {} {} {}", account, status, message),
        Effect::Finished { status, model } => format!("finished {} {}", status, model),
        Effect::Log(l) => format!(
            "log {} {} {} {:?} {:?}",
            l.account_id,
            l.model,
            l.provider_id,
            l.error_message.as_deref().unwrap_or("ok"),
            l.response_body.as_deref().unwrap_or("")
        ),
    }
}

fn action(a: &Action) -> String {
    match a {
        Action::Try(i) => format!("try {}", i),
        Action::TryMessages(i) => format!("try messages {}", i),
        Action::Relay(i) => format!("relay {}", i),
        Action::Deliver(i) => format!("deliver {}", i),
        Action::Redirect(p) => format!("redirect {:?}", p),
        Action::Answer(r) => format!("answer {} {}", r.status, json::render(&r.body)),
        Action::AnswerText(s, t) => format!("answer {} {}", s, t),
    }
}

fn told(t: &Turn) -> Vec<String> {
    let mut out: Vec<String> = t.effects.iter().map(effect).collect();
    out.push(action(&t.action));
    out
}

fn failover(ingress: Ingress, n: i64) -> Failover {
    Failover {
        ingress,
        endpoint: Protocol::Chat,
        accounts: (1..=n).map(account).collect(),
        preferred_id: 1,
        model: "m".to_string(),
        provider_id: "p".to_string(),
        at: 0,
    }
}

#[test]
fn accounts_are_tried_in_order_until_none_is_left() {
    let mut f = failover(Ingress::OpenAi, 3);
    assert_eq!(told(&f.start()), vec!["try 0"]);
    assert_eq!(
        told(&f.network_failed("down")),
        vec!["retry acc1 0 Network error: down", "record None false", "try 1"]
    );
    assert_eq!(
        told(&f.rejected_openai(429, "slow", true, false)),
        vec!["retry acc2 429 slow", "try 2"]
    );
    assert_eq!(
        told(&f.build_failed("odd")),
        vec![
            "retry acc3 0 Build error: odd",
            "record None false",
            "log 1 m p \"Failed to build provider request: odd\" \"\"",
            "finished 502 m",
            r#"answer 502 {"error":{"code":"502","message":"Failed to build provider request: odd","type":"upstream_error"}}"#
        ]
    );
}

#[test]
fn a_dispatch_without_accounts_ends_at_once() {
    let mut f = failover(Ingress::Anthropic, 0);
    assert_eq!(
        told(&f.start()),
        vec![
            "record None false",
            "finished 502 m",
            r#"answer 502 {"error":{"message":"All accounts exhausted","type":"upstream_error"},"type":"error"}"#
        ]
    );
}

#[test]
fn final_errors_are_passed_on() {
    let mut f = failover(Ingress::OpenAi, 2);
    assert_eq!(
        told(&f.rejected_openai(404, r#"{"error":"gone"}"#, false, false)),
        vec![
            "log 1 m p \"Provider returned 404 Not Found: {\\\"error\\\":\\\"gone\\\"}\" \"\"",
            "finished 404 m",
            r#"answer 404 {"error":"gone"}"#
        ]
    );
    assert_eq!(told(&f.rejected_openai(400, "plain", false, false)).last().unwrap(), "answer 400 plain");
    let mut a = failover(Ingress::Anthropic, 1);
    assert_eq!(
        told(&a.rejected_anthropic(401, r#"{"error":{"message":"who"}}"#, false)),
        vec![
            "finished 401 m",
            r#"answer 401 {"error":{"message":"who","type":"authentication_error"},"type":"error"}"#
        ]
    );
    assert_eq!(
        told(&a.rejected_anthropic(400, "text", false)).last().unwrap(),
        r#"answer 400 {"error":{"message":"text","type":"api_error"},"type":"error"}"#
    );
    assert_eq!(error_message("b", Some(&body(r#"{"error":"t"}"#))), "t");
    assert_eq!(error_message("b", Some(&body(r#"{"error":{}}"#))), "b");
    assert_eq!(error_message("b", None), "b");
}

#[test]
fn a_chat_request_may_go_to_the_messages_endpoint() {
    let mut f = failover(Ingress::OpenAi, 1);
    assert_eq!(f.rejected_openai(400, "x", false, true).effects.len(), 2);
    f.accounts[0].messages_endpoint = some("http://m");
    assert_eq!(told(&f.rejected_openai(400, "x", false, true)), vec!["try messages 0"]);
    assert_eq!(
        told(&f.messages_tried(true, 400, "x")),
        vec!["record Some(1) true", "finished 200 m", "deliver 0"]
    );
    assert_eq!(told(&f.messages_tried(false, 400, "x")).last().unwrap(), "answer 400 x");
    f.endpoint = Protocol::Responses;
    assert_eq!(told(&f.rejected_openai(400, "x", false, true)).last().unwrap(), "answer 400 x");
}

#[test]
fn converting_dispatches_skip_and_redirect() {
    let mut f = failover(Ingress::Converting(Protocol::Chat), 2);
    assert_eq!(told(&f.unsupported(Protocol::Chat)), vec!["try 1"]);
    let end = told(&f.unsupported(Protocol::Chat));
    assert_eq!(
        end,
        vec![
            "record None false",
            "finished 502 m",
            r#"answer 502 {"error":{"code":"502","message":"Account acc2 does not support Chat target","type":"upstream_error"}}"#
        ]
    );
    assert!(end.last().unwrap().contains("does not support") && !end.last().unwrap().contains("api.openai.com"));
    let mut f = failover(Ingress::Converting(Protocol::Messages), 3);
    assert_eq!(
        told(&f.rejected_converting(400, "no", false, Protocol::Responses, true, true, Protocol::Chat)),
        vec!["redirect Chat"]
    );
    assert_eq!(
        told(&f.rejected_converting(503, "no", true, Protocol::Responses, true, false, Protocol::Chat)),
        vec!["record None false", "try 1"]
    );
    assert_eq!(told(&f.conversion_failed("bad")), vec!["try 2"]);
    assert_eq!(
        told(&f.read_failed("cut")).last().unwrap(),
        r#"answer 502 {"error":{"message":"Failed to read response: cut","type":"upstream_error"},"type":"error"}"#
    );
    assert!(told(&f.parse_failed("odd")).last().unwrap().contains("Failed to parse response: odd"));
}

#[test]
fn served_requests_are_logged_and_answered() {
    let f = failover(Ingress::OpenAi, 2);
    assert_eq!(
        told(&f.answered(usage(1, 2, 3, 4), body(r#"{"id":1}"#))),
        vec![
            r#"log 1 m p "ok" "{\"id\":1}""#,
            "record Some(1) true",
            "finished 200 m",
            r#"answer 200 {"id":1}"#
        ]
    );
    assert_eq!(told(&f.stream_opened(206, false)), vec!["record Some(1) true", "finished 206 m", "relay 0"]);
    let c = failover(Ingress::Converting(Protocol::Chat), 1);
    assert_eq!(told(&c.stream_opened(206, false)), vec!["relay 0"]);
    assert_eq!(told(&c.stream_opened(206, true)), vec!["record Some(1) true", "finished 200 m", "relay 0"]);
}

fn candidates(manner: Manner, n: i64) -> Candidates {
    Candidates {
        manner,
        alias: "agg".to_string(),
        candidates: (1..=n).map(|i| AggregateCandidate { account_id: i, model: format!("m{}", i) }).collect(),
        at: 0,
    }
}

#[test]
fn candidates_are_tried_from_the_active_one_on() {
    let mut c = candidates(Manner::Plain(Protocol::Chat), 4);
    assert_eq!(told(&c.start("*", 1)), vec!["try 1"]);
    assert_eq!(told(&c.account_missing()), vec!["failed 1", "try 2"]);
    assert_eq!(
        told(&c.rejected(&account(3), 429, "slow", true, false)),
        vec!["failed 2", "retry acc3 429 slow", "try 3"]
    );
    assert_eq!(
        told(&c.network_failed(&account(4), "down")),
        vec![
            "failed 3",
            "retry acc4 0 Network error: down",
            "all failed",
            "log 1 m1  \"Provider request failed: down\" \"\"",
            "finished 502 agg",
            r#"answer 502 {"error":{"code":"502","message":"Provider request failed: down","type":"upstream_error"}}"#
        ]
    );
    assert_eq!((begin_at(9, 4), begin_at(2, 4), begin_at(3, 0)), (3, 2, 0));
}

#[test]
fn aggregates_need_policy_and_candidates() {
    let mut c = candidates(Manner::Plain(Protocol::Chat), 1);
    assert_eq!(
        told(&c.start(r#"["other"]"#, 0)),
        vec![
            r#"answer 401 {"error":{"code":"401","message":"Model 'agg' is not allowed for this API key","type":"permission_error"}}"#
        ]
    );
    let mut none = candidates(Manner::Plain(Protocol::Chat), 0);
    assert_eq!(
        told(&none.start("*", 0)),
        vec![
            r#"answer 500 {"error":{"code":"500","message":"Aggregate alias has no candidates","type":"server_error"}}"#
        ]
    );
    let mut none = candidates(Manner::Converting(Protocol::Messages), 0);
    assert_eq!(
        told(&none.start("*", 0)),
        vec![
            "all failed",
            "finished 502 agg",
            r#"answer 502 {"error":{"message":"All aggregate candidates exhausted","type":"upstream_error"},"type":"error"}"#
        ]
    );
}

#[test]
fn candidates_that_cannot_serve_are_given_up() {
    let mut c = candidates(Manner::Converting(Protocol::Messages), 3);
    assert!(c.check_target(Protocol::Chat, true).is_none());
    assert_eq!(told(&c.check_target(Protocol::Chat, false).unwrap()), vec!["failed 0", "try 1"]);
    assert_eq!(told(&c.account_failed("db")), vec!["failed 1", "try 2"]);
    assert!(told(&c.conversion_failed("odd")).last().unwrap().contains("Request conversion failed: odd"));
    assert!(told(&c.read_failed("cut")).last().unwrap().contains("Failed to read response: cut"));
    let mut c = candidates(Manner::Converting(Protocol::Chat), 1);
    assert!(c.check_target(Protocol::Responses, false).is_none());
    assert!(told(&c.check_target(Protocol::Chat, true).unwrap())
        .last()
        .unwrap()
        .contains("Candidate 0 account 1 cannot serve Responses target"));
    let mut p = candidates(Manner::Plain(Protocol::Responses), 1);
    assert!(p.check_target(Protocol::Chat, false).is_none());
}

#[test]
fn refused_candidates_are_logged_and_served_ones_answered() {
    let mut c = candidates(Manner::Plain(Protocol::Chat), 3);
    let mut a = account(1);
    assert_eq!(
        told(&c.rejected(&a, 400, "no", false, true)),
        vec!["log 1 m1 openai \"Provider returned 400 Bad Request: no\" \"\"", "finished 400 m1", "failed 0", "try 1"]
    );
    a.messages_endpoint = some("http://m");
    assert_eq!(told(&c.rejected(&a, 400, "no", false, true)), vec!["try messages 1"]);
    assert_eq!(
        told(&c.messages_tried(true, &a, 400, "no")),
        vec!["outcome 1", "finished 200 m2", "deliver 1"]
    );
    assert_eq!(told(&c.messages_tried(false, &a, 400, "no")).last().unwrap(), "try 2");
    assert_eq!(
        told(&c.answered(&a, usage(1, 2, 0, 0), body("{}"))),
        vec![
            r#"log 1 m3 openai "ok" "{}""#,
            "served 2",
            "outcome 2",
            "finished 200 m3",
            "answer 200 {}"
        ]
    );
    assert_eq!(told(&c.stream_opened()), vec!["served 2", "outcome 2", "finished 200 m3", "relay 2"]);
    assert!(told(&c.parse_failed("odd")).last().unwrap().contains("Failed to parse response: odd"));
}

#[test]
fn requests_are_routed() {
    assert_eq!(chat_completions(Some(true), true), Route::Aggregate(Manner::Converting(Protocol::Chat)));
    assert_eq!(chat_completions(Some(false), false), Route::Aggregate(Manner::Plain(Protocol::Chat)));
    assert_eq!(chat_completions(None, true), Route::Accounts(Ingress::Converting(Protocol::Chat)));
    assert_eq!(chat_completions(None, false), Route::Accounts(Ingress::OpenAi));
    assert_eq!(responses(true, "m", true), Route::Aggregate(Manner::Plain(Protocol::Responses)));
    assert_eq!(responses(false, "m", true), Route::Accounts(Ingress::Converting(Protocol::Responses)));
    assert_eq!(responses(false, "", true), Route::Accounts(Ingress::OpenAi));
    assert_eq!(messages(true, true), Route::Aggregate(Manner::Converting(Protocol::Messages)));
    assert_eq!(messages(false, true), Route::Accounts(Ingress::Converting(Protocol::Messages)));
    assert_eq!(messages(false, false), Route::Accounts(Ingress::Anthropic));
    assert_eq!(requested_model(&body(r#"{"model":" x "}"#)), " x ");
    assert_eq!(requested_model(&body("[]")), "");
}

#[test]
fn answers_go_back_in_the_clients_protocol() {
    let all = [Protocol::Chat, Protocol::Responses, Protocol::Messages];
    for ingress in all {
        for target in all {
            assert_eq!(back_conversion(ingress, target) == Back::Passthrough, ingress == target);
        }
    }
    assert_eq!(back_conversion(Protocol::Messages, Protocol::Chat), Back::MessagesFromChat);
    assert_eq!(back_conversion(Protocol::Chat, Protocol::Messages), Back::ChatFromMessages);
    assert_eq!(back_conversion(Protocol::Responses, Protocol::Messages), Back::ResponsesFromMessages);
    assert!(reads_whole(Back::ResponsesFromChat, true) && reads_whole(Back::Passthrough, false));
    assert!(!reads_whole(Back::MessagesFromChat, true));
}

#[test]
fn usage_is_counted_in_each_shape() {
    let chat = body(r#"{"usage":{"prompt_tokens":11,"completion_tokens":22}}"#);
    assert_eq!(passthrough_usage(&chat, 11, 22, 4), usage(7, 22, 4, 0));
    assert_eq!(passthrough_usage(&chat, 3, 22, 4), usage(0, 22, 4, 0));
    let resp = body(r#"{"usage":{"input_tokens":13,"output_tokens":24}}"#);
    assert_eq!(passthrough_usage(&resp, 0, 0, 3), usage(10, 24, 3, 0));
    let anth = body(r#"{"usage":{"input_tokens":14,"output_tokens":25,"cache_read_input_tokens":5,"cache_creation_input_tokens":6}}"#);
    assert_eq!(passthrough_usage(&anth, 0, 0, 3), usage(14, 25, 5, 6));
    assert_eq!(anthropic_usage(&anth), usage(14, 25, 5, 6));
    assert_eq!(passthrough_usage(&body(r#"{"usage":null}"#), 9, 9, 0), usage(0, 0, 0, 0));
    assert_eq!(usage_of_answer(Back::ChatFromResponses, &resp, 13, 24, 3), usage(10, 24, 3, 0));
    assert_eq!(usage_of_answer(Back::MessagesFromResponses, &resp, 0, 0, 3), usage(13, 24, 0, 0));
    assert_eq!(usage_of_answer(Back::Passthrough, &anth, 0, 0, 0), usage(14, 25, 5, 6));
    assert_eq!(usage_of_answer(Back::Passthrough, &anth, i64::MIN, 0, i64::MAX), usage(14, 25, 5, 6));
    assert!(counts_after_conversion(Back::ChatFromResponses));
    assert!(counts_after_conversion(Back::ChatFromMessages));
    assert!(!counts_after_conversion(Back::ResponsesFromChat));
    assert!(cache_after_conversion(Back::ChatFromMessages));
    assert!(!cache_after_conversion(Back::ChatFromResponses));
    assert_eq!(counted_with_cache(Back::Passthrough, &anth, 9), None);
    assert_eq!(counted_with_cache(Back::Passthrough, &resp, 9), Some(13));
    assert_eq!(counted_with_cache(Back::Passthrough, &chat, 9), Some(9));
    assert_eq!(counted_with_cache(Back::ChatFromMessages, &anth, 9), Some(9));
    assert_eq!(counted_with_cache(Back::MessagesFromResponses, &resp, 9), None);
    assert_eq!(anthropic_fallback_response(&anth), usage(14, 25, 0, 0));
    assert_eq!(converted_usage(&chat, 2, 1), usage(11, 22, 2, 1));
    assert_eq!(count(Some(&body(r#"{"n":"1"}"#)), "n"), 0);
    assert_eq!((fresh_tokens(5, 2), fresh_tokens(2, 5)), (3, 0));
}

#[test]
fn models_are_admitted_by_name_and_policy() {
    assert!(admit_model(Some("m"), "*", Ingress::OpenAi).is_ok());
    for (model, policy, ingress, expected) in [
        (
            None,
            "*",
            Ingress::OpenAi,
            (400, r#"{"error":{"message":"Missing required field: model","type":"invalid_request_error","code":"400"}}"#),
        ),
        (
            Some(""),
            "*",
            Ingress::Anthropic,
            (400, r#"{"type":"error","error":{"type":"invalid_request_error","message":"Missing required field: model"}}"#),
        ),
        (
            Some("m"),
            "[]",
            Ingress::Converting(Protocol::Messages),
            (401, r#"{"type":"error","error":{"type":"permission_error","message":"Model 'm' is not allowed for this API key"}}"#),
        ),
    ] {
        match admit_model(model, policy, ingress) {
            Err(r) => assert_eq!(shown(&r), (expected.0, value(expected.1))),
            Ok(_) => panic!("{:?}", model),
        }
    }
    assert_eq!(shown(&refuse_model("m", false)).0, 401);
    assert!(!is_anthropic(Ingress::Converting(Protocol::Chat)) && is_anthropic(Ingress::Anthropic));
}

fn resolution(alias: Option<&str>, preferred: Option<i64>) -> ModelResolution {
    ModelResolution {
        provider_id: "gemini".to_string(),
        target_model: "t".to_string(),
        account_ids: vec![],
        preferred_account_id: preferred,
        alias_name: alias.map(String::from),
        upstream_api: "default".to_string(),
    }
}

#[test]
fn an_alias_may_list_its_accounts() {
    let mut res = resolution(None, None);
    assert!(matches!(accounts_wanted(&res), AccountsWanted::OfProvider("gemini")));
    res.account_ids = vec![4, 2];
    match accounts_wanted(&res) {
        AccountsWanted::Listed(ids) => assert_eq!(*ids, vec![4, 2]),
        AccountsWanted::OfProvider(_) => panic!("the listed accounts must be wanted"),
    }
}

#[test]
fn accounts_are_chosen() {
    let gemini = |id, compatible| Account {
        provider_id: "gemini".to_string(),
        openai_compatible: compatible,
        ..account(id)
    };
    let ids = |v: Vec<Account>| v.iter().map(|a| a.id).collect::<Vec<_>>();
    assert_eq!(ids(openai_accounts(vec![gemini(1, 0), account(2), gemini(3, 1)])), vec![2, 3]);
    let res = resolution(None, None);
    match usable_accounts(Ingress::Anthropic, &res, vec![gemini(1, 0)]) {
        Ok(v) => assert_eq!(ids(v), vec![1]),
        Err(_) => panic!("the messages dispatcher takes every account"),
    }
    let refused = |i, v| match usable_accounts(i, &res, v) {
        Err(r) => (r.status, json::export(&r.body)["error"]["message"].as_str().unwrap().to_string()),
        Ok(_) => panic!("this must be refused"),
    };
    assert_eq!(
        refused(Ingress::OpenAi, vec![]),
        (503, "No active accounts available for model 't'".to_string())
    );
    assert_eq!(
        refused(Ingress::Converting(Protocol::Chat), vec![]),
        (503, "No active accounts for model 't'".to_string())
    );
    assert_eq!(
        refused(Ingress::OpenAi, vec![gemini(1, 0)]),
        (
            503,
            "No active accounts available for model 't' — Gemini accounts must enable OpenAI compatible mode".to_string()
        )
    );
    assert_eq!(
        refused(Ingress::Converting(Protocol::Chat), vec![gemini(1, 0)]),
        (503, "No Gemini-compatible accounts".to_string())
    );
    assert_eq!(dispatch_key(&res), "provider:gemini");
    assert_eq!(dispatch_key(&resolution(Some("a"), None)), "alias:a");
    assert_eq!(preferred_account(&resolution(None, Some(9)), &vec![account(1)]), 9);
    assert_eq!(preferred_account(&res, &vec![account(4), account(1)]), 4);
    assert_eq!(preferred_account(&res, &vec![]), 0);
    assert_eq!(dispatch_tag(true, &vec![account(1)], 1).as_deref(), Some("probe"));
    assert_eq!(dispatch_tag(false, &vec![account(2)], 1).as_deref(), Some("fallback"));
    assert_eq!(dispatch_tag(false, &vec![account(1)], 1), None);
    assert_eq!(
        shown(&accounts_failed(Ingress::OpenAi, "x")),
        (500, value(r#"{"error":{"message":"Failed to load accounts: x","type":"server_error","code":"500"}}"#))
    );
    assert_eq!(
        shown(&resolution_failed(Ingress::Anthropic, "x")).1["error"]["message"],
        "Model resolution failed: x"
    );
}

#[test]
fn requests_are_forwarded() {
    let pair = |k: &str, v: &str| (k.to_string(), v.to_string());
    let mut a = account(1);
    a.chat_endpoint = some(" host/v1/ ");
    let r = forward_request(&a, Protocol::Chat, body("{}"), vec![]);
    assert_eq!((r.method.as_str(), r.url.as_str()), ("POST", "https://host/v1/chat/completions"));
    assert_eq!(r.headers, vec![pair("content-type", "application/json"), pair("authorization", "Bearer key")]);
    assert_eq!(
        forward_request(&a, Protocol::Responses, body("{}"), vec![]).url,
        "https://api.openai.com/v1/responses"
    );
    a.provider_id = "gemini".to_string();
    assert_eq!(
        forward_request(&a, Protocol::Responses, body("{}"), vec![]).url,
        "https://generativelanguage.googleapis.com/v1beta/openai/responses"
    );
    let r = forward_request(&a, Protocol::Messages, body("{}"), vec![pair("x", "y")]);
    assert_eq!(r.url, "https://api.anthropic.com/v1/v1/messages");
    assert_eq!(r.headers, vec![pair("x", "y")]);
    assert_eq!(endpoint_path(Protocol::Messages), "v1/messages");
    assert_eq!(
        json::export(&set_model(&body(r#"{"model":"a","x":1}"#), "b")),
        value(r#"{"model":"b","x":1}"#)
    );
    assert_eq!(json::export(&set_model(&Json::Null, "b")), value(r#"{"model":"b"}"#));
    assert!(is_streaming(&body(r#"{"stream":true}"#)) && !is_streaming(&body(r#"{"stream":1}"#)));
    let f = anthropic_fallback_request("http://m/v1/messages".to_string(), "key", body("{}"));
    assert_eq!(
        f.headers,
        vec![pair("content-type", "application/json"), pair("x-api-key", "key"), pair("anthropic-version", "2023-06-01")]
    );
    let c = chat_request("http://c".to_string(), "key", body("{}"));
    assert_eq!((c.url.as_str(), c.headers[1].1.as_str()), ("http://c", "Bearer key"));
    assert_eq!(rejection(418, "tea"), "Provider returned 418 I'm a teapot: tea");
    assert_eq!(rejection(599, "x"), "Provider returned 599 <unknown status code>: x");
    assert!(matches!(pass_on(400, "x", None), Action::AnswerText(400, t) if t == "x"));
    assert!(matches!(pass_on(400, "x", Some(Json::Null)), Action::Answer(r) if r.status == 400));
}

#[test]
fn messages_requests_are_planned() {
    let mut a = account(1);
    assert!(matches!(plan_messages(&a), MessagesPlan::Passthrough(u) if u == "https://api.anthropic.com/v1"));
    a.base_url = some(" http://b/ ");
    assert!(matches!(plan_messages(&a), MessagesPlan::Chat(u) if u == "http://b/chat/completions"));
    a.anthropic_base_url = some(" ");
    assert!(matches!(plan_messages(&a), MessagesPlan::Chat(_)));
    a.anthropic_base_url = some("http://m");
    assert!(matches!(plan_messages(&a), MessagesPlan::Passthrough(u) if u == "http://m"));
    assert_eq!(filled_url(&some("  ")), None);
    assert_eq!(filled_url(&some(" u ")), some("u"));
}

#[test]
fn streams_are_watched() {
    let mut w = StreamWatch::new();
    w.chunk();
    w.observe(r#"{"choices":[{"delta":{},"finish_reason":null}]}"#, Place::Live);
    w.chunk();
    w.observe(
        r#"{"choices":[{"delta":{},"finish_reason":"stop"}],"usage":{"prompt_tokens":11,"completion_tokens":22}}"#,
        Place::Live,
    );
    w.chunk();
    w.observe("[DONE]", Place::Live);
    let log = w.finish(1, None);
    assert_eq!(log.usage, usage(10, 22, 1, 0));
    assert!(log.success && log.error_message.is_none());
}

#[test]
fn a_stream_that_is_cut_off_is_no_success() {
    let mut w = StreamWatch::new();
    w.chunk();
    w.observe(r#"{"choices":[{"finish_reason":null}]}"#, Place::Live);
    let log = w.finish(0, None);
    assert!(!log.success);
    assert!(log.error_message.unwrap().starts_with("truncated: finish_reason=null chunks=1 saw_done=false"));
    let mut w = StreamWatch::new();
    w.note("x", Some(body(r#"{"choices":[{"finish_reason":"length"}]}"#)), Place::Drained);
    w.note("y", Some(body(r#"{"choices":[{"finish_reason":null}]}"#)), Place::Trailing);
    assert_eq!(w.last_finish.as_deref(), Some("length"));
    w.note("y", Some(body(r#"{"choices":[{"finish_reason":null}]}"#)), Place::Live);
    assert_eq!(w.last_finish, None);
}

#[test]
fn done_completes_a_stream_wherever_it_stands() {
    let mut w = StreamWatch::new();
    w.observe(" [DONE] ", Place::Live);
    w.observe(r#"{"choices":[{"finish_reason":null}],"usage":{"completion_tokens":3}}"#, Place::Live);
    assert!(w.saw_done);
    assert!(w.finish(0, None).success);
    assert!(is_done_payload("[DONE]") && !is_done_payload("[DONE"));
}

#[test]
fn converted_streams_are_fed_and_logged() {
    assert!(matches!(feed_of("[DONE]", Some(Json::Null)), Feed::Done));
    assert!(matches!(feed_of("x", None), Feed::Skip));
    assert!(matches!(feed_of("{}", Some(body("{}"))), Feed::Convert(_)));
    assert_eq!(first_byte(None, true, 5), Some(5));
    assert_eq!(first_byte(None, false, 5), None);
    assert_eq!(first_byte(Some(1), true, 5), Some(1));
    let u = usage(1, 2, 3, 4);
    let log = chat_stream_log(u, false, 7);
    assert_eq!((log.success, log.error_message.as_deref()), (false, Some("truncated: done=false chunks=7")));
    assert!(chat_stream_log(u, true, 7).success);
    let log = responses_stream_log(u, false, 7);
    assert_eq!(
        log.error_message.as_deref(),
        Some("Responses upstream ended without terminal event after 7 chunks")
    );
    assert_eq!(responses_stream_log(u, true, 7).usage, u);
}

#[test]
fn messages_streams_report_their_usage_piece_by_piece() {
    let mut w = MessagesWatch::new();
    assert!(w.can_take_output());
    w.observe(&body(r#"{"type":"message_start","message":{"usage":{"input_tokens":5,"output_tokens":1}}}"#));
    w.observe(&body(r#"{"type":"content_block_delta"}"#));
    w.observe(&body(r#"{"type":"message_delta","usage":{"output_tokens":9}}"#));
    assert!(!MessagesWatch::ends(&body(r#"{"type":"message_delta"}"#)));
    assert!(MessagesWatch::ends(&body(r#"{"type":"message_stop"}"#)));
    let log = w.finish();
    assert_eq!(log.usage, usage(5, 9, 0, 0));
    assert!(log.success);
    let mut only_delta = MessagesWatch::new();
    only_delta.observe(&body(r#"{"type":"message_delta","usage":{"output_tokens":2}}"#));
    assert_eq!(only_delta.finish().usage, usage(0, 2, 0, 0));
}

#[test]
fn a_usage_that_is_no_object_is_left_alone_until_a_count_comes() {
    let mut w = MessagesWatch::new();
    w.observe(&body(r#"{"type":"message_start","message":{"usage":"none"}}"#));
    assert!(!w.can_take_output());
    for quiet in [
        r#"{"type":"content_block_delta","usage":{"output_tokens":3}}"#,
        r#"{"type":"message_delta"}"#,
        r#"{"type":"message_delta","usage":{"output_tokens":"3"}}"#,
    ] {
        assert!(!MessagesWatch::sets_output(&body(quiet)));
        w.observe(&body(quiet));
    }
    assert!(MessagesWatch::sets_output(&body(r#"{"type":"message_delta","usage":{"output_tokens":3}}"#)));
    assert_eq!(w.finish().usage, usage(0, 0, 0, 0));
}

fn listed(alias: &str, target: Option<&str>, known: Option<u64>) -> ListedAlias {
    ListedAlias { alias: alias.to_string(), target: target.map(String::from), known }
}

#[test]
fn v1_models_reports_context_length_from_table_cache_and_unknown() {
    let cache = Some(ModelsCache {
        data: vec![body(
            r#"{"id":"custom-100k","object":"model","created":0,"owned_by":"acme","context_length":100000}"#,
        )],
        created_at: 0,
        refreshing: false,
    });
    let aliases = vec![
        listed("g", Some("gpt-4o"), Some(128_000)),
        listed("x", Some("custom-100k"), None),
        listed("u", Some("mystery-model"), None),
    ];
    let list = json::export(&models(&aliases, &cache, "2024-01-01T00:00:00.000Z", 7));
    assert_eq!(list["data"][0]["context_length"], 128_000);
    assert_eq!(list["data"][1]["context_length"], 100_000);
    assert!(list["data"][2].get("context_length").is_none());
    assert_eq!(
        list["data"][2],
        value(
            r#"{"type":"model","id":"u","display_name":"u","created_at":"2024-01-01T00:00:00.000Z","object":"model","created":7,"owned_by":"llmux"}"#
        )
    );
    assert_eq!((list["first_id"].clone(), list["last_id"].clone()), (value("\"g\""), value("\"u\"")));
    assert_eq!((list["object"].clone(), list["has_more"].clone()), (value("\"list\""), value("false")));
    assert_eq!(resolve_alias_context(Some("custom-100k"), &cache, Some(512_000)), Some(512_000));
    assert_eq!(resolve_alias_context(Some("custom-100k"), &cache, Some(5)), Some(100_000));
    assert_eq!(resolve_alias_context(Some(""), &cache, Some(5)), None);
    assert_eq!(resolve_alias_context(None, &cache, Some(5)), None);
    assert_eq!(
        json::export(&models(&vec![], &None, "t", 7)),
        value(r#"{"object":"list","data":[],"has_more":false,"first_id":null,"last_id":null}"#)
    );
}

#[test]
fn ids_for_the_desktop_pass_its_filter() {
    assert_eq!(advertised_id("helper", "fast"), "helper-fast");
    assert_eq!(advertised_id("helper", "My-HELPER-2"), "My-HELPER-2");
    assert_eq!(advertised_id("helper", "Anthropic-x"), "Anthropic-x");
    let aliases = vec![listed("fast", None, None)];
    let list = json::export(&models_for_desktop(&aliases, &None, "helper", "t", 7));
    assert_eq!(list["data"][0]["id"], "helper-fast");
    assert_eq!(list["data"][0]["display_name"], "fast");
    assert_eq!(list["last_id"], "helper-fast");
    assert_eq!(lower_ascii("ÄBZ[a"), "Äbz[a");
    let two = vec![
        AggregateCandidate { account_id: 1, model: "x".to_string() },
        AggregateCandidate { account_id: 2, model: "y".to_string() },
    ];
    assert_eq!((aggregate_target(&two, 0), aggregate_target(&two, 5)), ("x".to_string(), "y".to_string()));
    assert_eq!(aggregate_target(&vec![], 0), "");
    assert_eq!(
        shown(&models_failed("x", false, true)),
        (500, value(r#"{"type":"error","error":{"type":"server_error","message":"Failed to load models: x"}}"#))
    );
    assert_eq!(
        shown(&models_failed("x", false, false)).1,
        value(r#"{"error":{"message":"Failed to load models: x","type":"server_error","code":"500"}}"#)
    );
}

#[test]
fn probes_find_the_first_candidate_alive() {
    assert_eq!(first_stage(2, 5), vec![0, 1, 2]);
    assert_eq!(first_stage(9, 2), vec![0, 1]);
    assert_eq!(after_first_stage(&vec![false, true, true], 5), ProbeStep::Done(Some(1)));
    assert_eq!(after_first_stage(&vec![false, false], 5), ProbeStep::Ask(2));
    assert_eq!(after_first_stage(&vec![false, false], 2), ProbeStep::Done(None));
    assert_eq!(after_answer(2, false, 5), ProbeStep::Ask(3));
    assert_eq!(after_answer(3, true, 5), ProbeStep::Done(Some(3)));
    assert_eq!(after_answer(4, false, 5), ProbeStep::Done(None));
    assert_eq!((probe_report(Some(3)), probe_report(None)), ((3, false), (0, true)));
    assert_eq!((load_min_interval(None), load_min_interval(Some(60))), (300, 60));
    assert_eq!(probe_sleep_secs(300, &vec![10, 900, 20]), 900);
    assert_eq!(probe_sleep_secs(300, &vec![]), 300);
    assert!(is_alive(Some(204)) && !is_alive(Some(429)) && !is_alive(None));
}

#[test]
fn probes_ask_for_one_token() {
    let mut a = account(1);
    let r = probe_candidate(&a, "m");
    assert_eq!(r.url, "https://api.openai.com/v1/chat/completions");
    assert_eq!(
        json::export(&r.body),
        value(r#"{"model":"m","max_tokens":1,"messages":[{"role":"user","content":"ping"}]}"#)
    );
    assert_eq!(r.headers[1], ("authorization".to_string(), "Bearer key".to_string()));
    a.anthropic_base_url = some("http://m/");
    let r = probe_candidate(&a, "m");
    assert_eq!((r.url.as_str(), r.headers[1].0.as_str()), ("http://m/messages", "x-api-key"));
    a.base_url = some("http://b/");
    assert_eq!(probe_candidate(&a, "m").url, "http://b/chat/completions");
}
