use llmux_server::calendar::days_to_ymd;
use llmux_server::clock;
use llmux_server::json::{self, Json};
use llmux_server::order::{le, sort_texts};
use llmux_server::text;
use serde_json::Value;

fn value(s: &str) -> Value {
    serde_json::from_str(s).unwrap()
}

#[test]
fn numbers_are_written_and_read() {
    for n in [0i64, 7, -1, 42, i64::MAX, i64::MIN] {
        assert_eq!(text::decimal_i64(n), n.to_string());
        assert_eq!(text::parse_i64(&text::decimal_i64(n)), Some(n));
    }
    for n in [0u64, 10, 99, u64::MAX] {
        assert_eq!(text::decimal_u64(n), n.to_string());
        assert_eq!(text::parse_u64(&text::decimal_u64(n)), Some(n));
    }
    for s in ["", "+", "-", "1a", " 1", "18446744073709551616", "--1", "+-1"] {
        assert_eq!(text::parse_u64(s), s.parse::<u64>().ok(), "{}", s);
        assert_eq!(text::parse_i64(s), s.parse::<i64>().ok(), "{}", s);
    }
    assert_eq!(text::parse_i64("+5"), Some(5));
    assert_eq!(text::parse_i64("9223372036854775808"), None);
    assert_eq!(text::padded_u64(7, 3), "007");
    assert_eq!(text::padded_u64(12345, 3), "12345");
}

#[test]
fn texts_are_cut_like_their_counterparts_of_std() {
    for s in ["", "  a b\t\n", "\u{3000}x\u{a0}", "//a//", "a,b,,c", "bearer x", "ab"] {
        assert_eq!(text::trim(s), s.trim());
        assert_eq!(text::strip_end(s, '/'), s.trim_end_matches('/'));
        assert_eq!(text::split(s, ','), s.split(',').map(String::from).collect::<Vec<_>>());
        assert_eq!(
            text::split_once(s, ' '),
            s.split_once(' ').map(|(a, b)| (a.to_string(), b.to_string()))
        );
        assert_eq!(text::contains(s, "a"), s.contains("a"));
        assert_eq!(text::starts_with(s, "a"), s.starts_with("a"));
        assert_eq!(text::ends_with(s, "b"), s.ends_with("b"));
        assert_eq!(text::strip_prefix(s, "a"), s.strip_prefix("a").map(String::from));
        assert_eq!(text::replace(s, "a", "xyz"), s.replace("a", "xyz"));
        assert_eq!(text::same(s, "ab"), s == "ab");
    }
    assert_eq!(text::replace("/v1/v1/v1/x", "/v1/v1/", "/v1/"), "/v1/v1/x");
    assert_eq!(text::text_of(&text::chars_of("héllo"), 1, 3), "él");
}

#[test]
fn values_cross_to_the_outside_and_back() {
    let s = r#"{"a":[1,-2,2.5,true,null,"x"],"b":{"c":18446744073709551615}}"#;
    let j = json::parse(s).unwrap();
    assert_eq!(json::export(&j), value(s));
    assert_eq!(json::export(&json::import(value(s))), value(s));
    assert_eq!(json::render(&j), s);
    assert_eq!(json::export(&j.copy()), value(s));
    assert_eq!(json::export(&json::parse_bytes(s.as_bytes()).unwrap()), value(s));
    let pretty = json::render_pretty(&json::parse(r#"{"a":[1]}"#).unwrap());
    assert_eq!(pretty, Ok("{\n  \"a\": [\n    1\n  ]\n}".to_string()));
}

#[test]
fn an_object_with_the_key_of_kept_texts_need_not_read_back() {
    let key = "$serde_json::private::RawValue";
    let lone = Json::object().with(key, Json::text("1"));
    let text = json::render(&lone);
    assert_eq!(text, format!("{{\"{}\":\"1\"}}", key));
    assert_eq!(json::parse(&text).map(|j| json::export(&j)), serde_json::from_str::<Value>(&text).ok());
    let other = Json::object().with("$serde_json", Json::text("1"));
    assert_eq!(json::export(&json::parse(&json::render(&other)).unwrap()), json::export(&other));
}

#[test]
fn every_value_has_a_notation_over_several_lines() {
    let deep = (0..300).fold(Json::Signed(1), |inner, _| Json::Array(vec![inner]));
    assert!(json::render_pretty(&deep).is_ok());
    let real = json::parse(r#"{"t":0.5}"#).unwrap();
    assert_eq!(json::render_pretty(&real).unwrap(), "{\n  \"t\": 0.5\n}");
}

#[test]
fn texts_that_are_no_json_are_explained() {
    assert!(json::parse("{").is_none());
    assert!(json::parse_bytes(b"{").is_none());
    match json::read("") {
        Err(e) => assert_eq!(e, "EOF while parsing a value at line 1 column 0"),
        Ok(_) => panic!("an empty text is no JSON"),
    }
    match json::read_bytes(b"[1") {
        Err(e) => assert_eq!(e, "EOF while parsing a list at line 1 column 2"),
        Ok(_) => panic!("an open list is no JSON"),
    }
}

#[test]
fn members_are_found_set_and_dropped() {
    let j = Json::object().with("a", Json::Signed(1)).with("b", Json::text("x")).with("a", Json::Bool(true));
    assert_eq!(json::export(&j), value(r#"{"a":true,"b":"x"}"#));
    assert_eq!(j.str_at("b"), Some("x"));
    assert_eq!(j.get("a").unwrap().as_bool(), Some(true));
    assert!(j.get("c").is_none());
    assert_eq!(json::export(&j.without("a")), value(r#"{"b":"x"}"#));
    assert_eq!(json::export(&Json::Signed(3).without("a")), value("3"));
    let k = json::parse(r#"{"n":-1,"u":18446744073709551615,"r":1.5,"l":[1,2]}"#).unwrap();
    assert_eq!(k.get("n").unwrap().as_i64(), Some(-1));
    assert_eq!(k.get("n").unwrap().as_u64(), None);
    assert_eq!(k.get("u").unwrap().as_u64(), Some(u64::MAX));
    assert_eq!(k.get("u").unwrap().as_i64(), None);
    assert_eq!(k.get("r").unwrap().as_i64(), None);
    assert_eq!(k.get("l").unwrap().as_array().unwrap().len(), 2);
    assert_eq!(json::export(&json::optional_text(&None)), Value::Null);
    assert_eq!(json::export(&json::optional_int(Some(-4))), value("-4"));
}

#[test]
fn dates_follow_the_calendar() {
    assert_eq!(days_to_ymd(0), (1970, 1, 1));
    assert_eq!(days_to_ymd(58), (1970, 2, 28));
    assert_eq!(days_to_ymd(59), (1970, 3, 1));
    assert_eq!(days_to_ymd(11_016), (2000, 2, 29));
    assert_eq!(days_to_ymd(19_675), (2023, 11, 14));
    assert_eq!(days_to_ymd(47_541), (2100, 3, 1));
}

#[test]
fn times_join() {
    assert_eq!(clock::join_millis(1, 500), 1500);
    assert!(clock::now_ms() > 1_600_000_000_000);
    assert!(clock::now_secs() > 1_600_000_000);
    assert!(clock::chrono_now_secs() > 1_600_000_000);
    assert!(clock::chrono_now_str().parse::<u64>().unwrap() > 1_600_000_000);
}

#[test]
fn texts_are_sorted() {
    let v: Vec<String> = ["b", "", "a", "ab", "b", "é"].iter().map(|s| s.to_string()).collect();
    let mut w = v.clone();
    w.sort();
    assert_eq!(sort_texts(v), w);
    assert!(le("a", "ab") && !le("b", "ab") && le("x", "x"));
}

#[test]
fn white_space_is_that_of_unicode() {
    for c in '\0'..=char::MAX {
        let s = format!("x{}", c);
        assert_eq!(text::trim(&s), s.trim(), "{:?}", c);
    }
}
