use base64::Engine;
use hmac::{Hmac, Mac};
use llmux_server::cache::TtlCache;
use llmux_server::error::{
    gateway_error, not_found, simple_error, unauthorized_missing_key, ErrorBody, ErrorEnvelope, Reply,
};
use llmux_server::json::{self, Json};
use llmux_server::middleware::{
    extract_api_key, extract_session_token, is_model_allowed, is_whitelisted, send_error, sign_jwt,
    sign_jwt_at, strip_base, subject_of, ui_auth_middleware, v1_auth_checked, v1_auth_middleware,
    verify_jwt, verify_jwt_at, write_session_cookies, AuthContext, Gate, Header, KeyHeaders, V1Auth,
    HOT_CACHE_TTL_MS, SESSION_TTL_SECS,
};
use llmux_server::routes::auth::{
    admin_credentials, constant_time_eq, credentials_reply, credentials_to_store, current_password,
    decide, handle_login, handle_logout, handle_me, handle_update_credentials, handle_web_session,
    is_session_valid, login_request, password_to_hash, verify_admin, web_session_reply,
    AdminCredentials, NewHash, PasswordCheck,
};
use serde_json::Value;
use sha2::Sha256;

const SECRET: &str = "test-master-key";

fn body(s: &str) -> Json {
    json::parse(s).unwrap()
}

fn value(s: &str) -> Value {
    serde_json::from_str(s).unwrap()
}

fn shown(r: &Reply) -> (u16, Value) {
    (r.status, json::export(&r.body))
}

fn no_headers() -> KeyHeaders {
    KeyHeaders { x_api_key: Header::Absent, x_goog_api_key: Header::Absent, authorization: Header::Absent }
}

fn text_header(s: &str) -> Header {
    Header::Text(s.to_string())
}

#[test]
fn error_replies_have_their_shapes() {
    assert_eq!(
        shown(&gateway_error("m", "t", 429)),
        (429, value(r#"{"error":{"message":"m","type":"t","code":"429"}}"#))
    );
    assert_eq!(shown(&simple_error("m", 400)), (400, value(r#"{"error":"m"}"#)));
    assert_eq!(
        shown(&not_found()),
        (404, value(r#"{"error":{"message":"Not Found","type":"not_found","code":"404"}}"#))
    );
    assert_eq!(
        shown(&unauthorized_missing_key()),
        (
            401,
            value(
                r#"{"error":{"message":"Missing API Key. Gateway is locked.","type":"authentication_error","code":"401"}}"#
            )
        )
    );
    assert_eq!(
        shown(&send_error("m", "t", 500, true)),
        (500, value(r#"{"type":"error","error":{"type":"t","message":"m"}}"#))
    );
    let envelope = ErrorEnvelope {
        error: ErrorBody { message: "m".to_string(), error_type: "t".to_string(), code: "c".to_string() },
    };
    assert_eq!(
        json::export(&envelope.to_json()),
        value(r#"{"error":{"message":"m","type":"t","code":"c"}}"#)
    );
}

#[test]
fn v1_routes_are_authenticated_placeholders_with_legacy_error_shape() {
    let cache: TtlCache<AuthContext> = TtlCache::new();
    match v1_auth_middleware(&no_headers(), &cache, 0) {
        V1Auth::Refuse(r) => assert_eq!(
            shown(&r),
            (
                401,
                value(
                    r#"{"error": {"message": "Missing API Key. Gateway is locked.", "type": "authentication_error", "code": "401"}}"#
                )
            )
        ),
        _ => panic!("a request without a key must be refused"),
    }
}

#[test]
fn keys_come_from_three_headers_in_order() {
    let mut h = no_headers();
    h.authorization = text_header("Bearer sk-a");
    assert_eq!(extract_api_key(&h), Some("sk-a".to_string()));
    h.x_goog_api_key = text_header("sk-g");
    assert_eq!(extract_api_key(&h), Some("sk-g".to_string()));
    h.x_api_key = Header::Unreadable;
    assert_eq!(extract_api_key(&h), None);
    h.x_api_key = text_header("sk-x");
    assert_eq!(extract_api_key(&h), Some("sk-x".to_string()));
    let mut basic = no_headers();
    basic.authorization = text_header("Basic sk-a");
    assert_eq!(extract_api_key(&basic), None);
    assert_eq!(extract_api_key(&no_headers()), None);
}

#[test]
fn a_checked_key_is_remembered_until_it_expires() {
    let mut cache: TtlCache<AuthContext> = TtlCache::new();
    let mut h = no_headers();
    h.x_api_key = text_header("sk-x");
    assert!(matches!(v1_auth_middleware(&h, &cache, 1_000), V1Auth::Check(k) if k == "sk-x"));
    let refused = v1_auth_checked(&h, "sk-x", None, &mut cache, 1_000);
    match refused {
        Err(r) => assert_eq!(
            shown(&r),
            (401, value(r#"{"type":"error","error":{"type":"authentication_error","message":"Invalid API Key"}}"#))
        ),
        Ok(_) => panic!("an unknown key must be refused"),
    }
    let known = AuthContext { key_name: "k".to_string(), allowed_models: "*".to_string() };
    assert!(v1_auth_checked(&h, "sk-x", Some(known), &mut cache, 1_000).is_ok());
    assert!(matches!(v1_auth_middleware(&h, &cache, 1_000), V1Auth::Admit(c) if c.key_name == "k"));
    let last = 1_000 + HOT_CACHE_TTL_MS - 1;
    assert!(matches!(v1_auth_middleware(&h, &cache, last), V1Auth::Admit(_)));
    assert!(matches!(v1_auth_middleware(&h, &cache, last + 1), V1Auth::Check(_)));
}

#[test]
fn a_token_is_signed_and_read_back() {
    let token = sign_jwt_at("admin", SECRET, SESSION_TTL_SECS, 1_700_000_000);
    let engine = base64::engine::general_purpose::URL_SAFE_NO_PAD;
    let input = format!(
        "{}.{}",
        engine.encode(r#"{"alg":"HS256","typ":"JWT"}"#),
        engine.encode(r#"{"exp":1700604800,"iat":1700000000,"sub":"admin"}"#)
    );
    let mut mac = Hmac::<Sha256>::new_from_slice(SECRET.as_bytes()).unwrap();
    mac.update(input.as_bytes());
    let expected = format!("{}.{}", input, engine.encode(mac.finalize().into_bytes()));
    assert_eq!(token, expected);
    assert_eq!(verify_jwt_at(&token, SECRET, 1_700_000_000), Some("admin".to_string()));
    assert_eq!(verify_jwt_at(&token, SECRET, 1_700_604_799), Some("admin".to_string()));
    assert_eq!(verify_jwt_at(&token, SECRET, 1_700_604_800), None);
    assert_eq!(verify_jwt_at(&token, "another secret", 1_700_000_000), None);
    assert_eq!(verify_jwt_at(&format!("{}x", token), SECRET, 1_700_000_000), None);
    assert_eq!(verify_jwt_at("a.b", SECRET, 0), None);
    assert_eq!(verify_jwt_at("a.b.c.d", SECRET, 0), None);
    assert_eq!(verify_jwt_at("", SECRET, 0), None);
}

#[test]
fn a_token_of_now_holds_now() {
    let token = sign_jwt("me ü", SECRET, 60);
    assert_eq!(verify_jwt(&token, SECRET), Some("me ü".to_string()));
    assert_eq!(verify_jwt(&sign_jwt("me", SECRET, 0), SECRET), None);
    assert_eq!(verify_jwt(&sign_jwt("me", SECRET, u64::MAX), SECRET), None);
    let over = sign_jwt_at("me", SECRET, u64::MAX - 9, 100);
    assert_eq!(verify_jwt_at(&over, SECRET, 89), Some("me".to_string()));
    assert_eq!(verify_jwt_at(&over, SECRET, 90), None);
}

#[test]
fn a_payload_names_its_subject_until_it_expires() {
    let p = body(r#"{"sub":"a","exp":10}"#);
    assert_eq!(subject_of(Some(&p), 9), Some("a".to_string()));
    assert_eq!(subject_of(Some(&p), 10), None);
    assert_eq!(subject_of(Some(&body(r#"{"sub":1,"exp":10}"#)), 9), None);
    assert_eq!(subject_of(Some(&body(r#"{"sub":"a"}"#)), 9), None);
    assert_eq!(subject_of(None, 9), None);
}

#[test]
fn session_tokens_are_found_in_cookies() {
    assert_eq!(extract_session_token(Some("a=b; llmux_session= t1 ; c=d")), Some("t1".to_string()));
    assert_eq!(extract_session_token(Some("llmux_session=; llmux_session=t2")), Some("t2".to_string()));
    assert_eq!(extract_session_token(Some("xllmux_session=t")), None);
    assert_eq!(extract_session_token(None), None);
}

#[test]
fn base_paths_are_stripped() {
    assert_eq!(strip_base("/app/api/x", "/app"), "/api/x");
    assert_eq!(strip_base("/app", "/app"), "/");
    assert_eq!(strip_base("/other", "/app"), "/other");
    assert_eq!(strip_base("/api/x", ""), "/api/x");
    assert!(is_whitelisted("/api/auth/login") && is_whitelisted("/api/health"));
    assert!(!is_whitelisted("/api/auth/login/") && !is_whitelisted("/api/keys"));
}

#[test]
fn session_cookies_are_written_for_each_path() {
    assert_eq!(
        write_session_cookies("t", ""),
        vec!["llmux_session=t; Path=/; HttpOnly; SameSite=Lax; Max-Age=604800"]
    );
    assert_eq!(
        write_session_cookies("t", "/app"),
        vec![
            "llmux_session=t; Path=/; HttpOnly; SameSite=Lax; Max-Age=604800",
            "llmux_session=t; Path=/app; HttpOnly; SameSite=Lax; Max-Age=604800"
        ]
    );
}

fn gate(path: &str, cookie: Option<&str>, sessions: &mut TtlCache<()>, now: i64) -> Gate {
    ui_auth_middleware(false, path, "", cookie, SECRET, sessions, now, now as u64 * 1000)
}

#[test]
fn ui_auth_login_and_me_and_logout_gate() {
    let mut sessions: TtlCache<()> = TtlCache::new();
    let now = 1_700_000_000;
    match gate("/api/settings", None, &mut sessions, now) {
        Gate::Refuse(r) => assert_eq!(shown(&r), (401, value(r#"{"error":"Unauthorized"}"#))),
        _ => panic!("a request without a session must be refused"),
    }
    assert!(matches!(gate("/api/health", None, &mut sessions, now), Gate::Pass));
    assert!(matches!(gate("/v1/models", None, &mut sessions, now), Gate::Pass));
    assert!(matches!(
        ui_auth_middleware(true, "/api/settings", "", None, SECRET, &mut sessions, now, 0),
        Gate::Pass
    ));

    let credentials = admin_credentials(None, None);
    let check = verify_admin(&credentials, None, "admin", "admin");
    let admitted = decide(check, false);
    assert!(admitted);
    let login = match handle_login(admitted, "admin", SECRET, "", now) {
        Ok(r) => r,
        Err(_) => panic!("the default credentials must be admitted"),
    };
    assert_eq!(shown(&login.reply), (200, value(r#"{"success":true}"#)));
    let cookie = login.cookies[0].split(';').next().unwrap().to_string();
    assert!(cookie.starts_with("llmux_session="));

    match gate("/api/settings", Some(&cookie), &mut sessions, now + 5) {
        Gate::PassWith(cookies) => {
            let renewed = extract_session_token(Some(&cookies[0])).unwrap();
            assert_eq!(
                verify_jwt_at(&renewed, SECRET, now + 5 + SESSION_TTL_SECS as i64 - 1),
                Some("admin".to_string())
            );
        }
        _ => panic!("a session must be let through"),
    }
    let token = extract_session_token(Some(&cookie)).unwrap();
    assert!(is_session_valid(&sessions, &token, SECRET, now, now as u64 * 1000));
    assert_eq!(
        shown(&handle_me(true, "admin")),
        (200, value(r#"{"authenticated":true,"username":"admin"}"#))
    );
    assert_eq!(shown(&handle_me(false, "admin")), (401, value(r#"{"error":"Unauthorized"}"#)));

    let logout = handle_logout(Some(&cookie), "", &mut sessions, now as u64 * 1000);
    assert_eq!(shown(&logout.reply), (200, value(r#"{"success":true}"#)));
    assert_eq!(logout.cookies, vec!["llmux_session=; Path=/; HttpOnly; SameSite=Lax; Max-Age=0"]);
    assert!(!is_session_valid(&sessions, &token, SECRET, now, now as u64 * 1000));
    assert!(matches!(gate("/api/settings", Some(&cookie), &mut sessions, now), Gate::Refuse(_)));
    let last = now + SESSION_TTL_SECS as i64 - 1;
    assert_eq!(verify_jwt_at(&token, SECRET, last), Some("admin".to_string()));
    assert!(matches!(gate("/api/settings", Some(&cookie), &mut sessions, last), Gate::Refuse(_)));

    assert!(!decide(verify_admin(&credentials, None, "admin", "wrong"), false));
    match handle_login(false, "admin", SECRET, "", now) {
        Err(r) => assert_eq!(shown(&r), (401, value(r#"{"error":"Invalid credentials"}"#))),
        Ok(_) => panic!("wrong credentials must be refused"),
    }
}

#[test]
fn older_sessions_are_renewed_and_dropped() {
    let mut sessions: TtlCache<()> = TtlCache::new();
    sessions.insert("plain", (), 5_000);
    let cookie = Some("llmux_session=plain");
    match ui_auth_middleware(false, "/api/keys", "/b", cookie, SECRET, &mut sessions, 4, 4_000) {
        Gate::PassWith(cookies) => assert_eq!(cookies, write_session_cookies("plain", "/b")),
        _ => panic!("a live session must be let through"),
    }
    assert_eq!(sessions.lookup("plain").unwrap().expires, 4_000 + SESSION_TTL_SECS as u128 * 1000);
    let out = handle_logout(cookie, "/b", &mut sessions, 4_000);
    assert_eq!(
        out.cookies,
        vec![
            "llmux_session=; Path=/; HttpOnly; SameSite=Lax; Max-Age=0",
            "llmux_session=; Path=/b; HttpOnly; SameSite=Lax; Max-Age=0"
        ]
    );
    assert!(sessions.lookup("plain").is_none());
}

#[test]
fn env_credentials_take_effect_and_override_the_default() {
    let user = "env-admin-user";
    let pass = "env-admin-pass-!@#";
    let c = admin_credentials(None, Some(user.to_string()));
    let ok = |u: &str, p: &str| decide(verify_admin(&c, Some(pass), u, p), true);
    assert!(ok(user, pass));
    assert!(!ok("admin", "admin"));
    assert!(!ok(user, "wrong"));
    assert!(!ok("someone-else", pass));
    assert_eq!(admin_credentials(None, Some("  ".to_string())).username, "admin");
}

#[test]
fn stored_credentials_go_before_configured_ones() {
    let stored = AdminCredentials { username: "ops".to_string(), password_hash: "v1:s:h".to_string() };
    let c = admin_credentials(Some(stored), Some("env".to_string()));
    assert_eq!(c.username, "ops");
    match verify_admin(&c, Some("env-pass"), "ops", "newpass") {
        PasswordCheck::AgainstHash(h) => assert_eq!(h, "v1:s:h"),
        PasswordCheck::Decided(_) => panic!("a stored hash decides"),
    }
    assert!(!decide(verify_admin(&c, Some("env-pass"), "env", "env-pass"), true));
    assert!(decide(PasswordCheck::AgainstHash("h".to_string()), true));
    assert!(!decide(PasswordCheck::AgainstHash("h".to_string()), false));
}

#[test]
fn bytes_are_compared_whole() {
    assert!(constant_time_eq(b"", b""));
    assert!(constant_time_eq(b"abc", b"abc"));
    assert!(!constant_time_eq(b"abc", b"abd"));
    assert!(!constant_time_eq(b"abc", b"ab"));
}

#[test]
fn login_requests_are_read() {
    let (u, p) = login_request(&body(r#"{"username":" admin ","password":" x "}"#));
    assert_eq!((u.as_str(), p.as_str()), ("admin", " x "));
    let (u, p) = login_request(&body(r#"{"username":1}"#));
    assert_eq!((u.as_str(), p.as_str()), ("", ""));
}

#[test]
fn admin_credentials_change_requires_current_password_and_takes_effect() {
    let refused = |b: &str, signed_in: bool, ok: bool| match handle_update_credentials(
        &body(b),
        signed_in,
        "admin",
        ok,
    ) {
        Err(r) => shown(&r),
        Ok(_) => panic!("{}", b),
    };
    let change = r#"{"current_password":"admin","new_password":"newpass"}"#;
    assert_eq!(refused(change, false, true), (401, value(r#"{"error":"Unauthorized"}"#)));
    assert_eq!(
        refused(r#"{"current_password":"wrong","new_password":"newpass"}"#, true, false),
        (401, value(r#"{"error":"Current password is incorrect"}"#))
    );
    assert_eq!(
        refused(r#"{"current_password":"admin","username":"  "}"#, true, true),
        (400, value(r#"{"error":"Nothing to update: provide username and/or new_password"}"#))
    );
    assert_eq!(
        refused(r#"{"current_password":"admin","new_password":"äöü"}"#, true, true),
        (400, value(r#"{"error":"New password must be at least 4 characters"}"#))
    );
    let b = body(r#"{"current_password":"admin","username":"ops","new_password":"newpass"}"#);
    assert_eq!(current_password(&b), "admin");
    match handle_update_credentials(&b, true, "admin", true) {
        Ok(c) => {
            assert_eq!(c.username, "ops");
            assert!(matches!(c.hash, NewHash::Of(p) if p == "newpass"));
        }
        Err(_) => panic!("a sound change must be taken"),
    }
    let only_name = body(r#"{"current_password":"admin","username":" ops "}"#);
    match handle_update_credentials(&only_name, true, "admin", true) {
        Ok(c) => {
            assert_eq!(c.username, "ops");
            assert!(matches!(c.hash, NewHash::StoredOrOf(p) if p == "admin"));
        }
        Err(_) => panic!("a change of the name must be taken"),
    }
    assert_eq!(
        shown(&credentials_reply("ops")),
        (200, value(r#"{"success":true,"username":"ops"}"#))
    );
}

#[test]
fn changed_credentials_replace_the_ones_before() {
    let has_hash = |password: &str, hash: &str| hash == format!("hash of {}", password);
    let opens = |stored: &Option<(String, String)>, name: &str, password: &str| {
        let stored = stored
            .clone()
            .map(|(username, password_hash)| AdminCredentials { username, password_hash });
        let held = admin_credentials(stored, Some("admin".to_string()));
        let check = verify_admin(&held, Some("admin"), name, password);
        let matches = match &check {
            PasswordCheck::AgainstHash(h) => has_hash(password, h),
            PasswordCheck::Decided(_) => false,
        };
        decide(check, matches)
    };
    let change = |stored: &Option<(String, String)>, current: &str, b: &str| {
        let b = body(b);
        let known = opens(stored, current, &current_password(&b));
        let change = match handle_update_credentials(&b, true, current, known) {
            Ok(c) => c,
            Err(_) => return stored.clone(),
        };
        let hashed = match password_to_hash(&change, stored.is_some()) {
            Some(p) => format!("hash of {}", p),
            None => String::new(),
        };
        let held = credentials_to_store(change, stored.clone().map(|c| c.1), hashed);
        Some((held.username, held.password_hash))
    };
    let first = None;
    assert!(opens(&first, "admin", "admin"));
    let wrong = r#"{"current_password":"wrong","username":"ops","new_password":"newpass"}"#;
    assert_eq!(change(&first, "admin", wrong), first);
    let both = r#"{"current_password":"admin","username":"ops","new_password":"newpass"}"#;
    let second = change(&first, "admin", both);
    assert!(opens(&second, "ops", "newpass"));
    assert!(!opens(&second, "admin", "admin"));
    assert!(!opens(&second, "ops", "admin"));
    assert!(!opens(&second, "admin", "newpass"));
    let third = change(&second, "ops", r#"{"current_password":"newpass","username":"dev"}"#);
    assert_eq!(third, Some(("dev".to_string(), "hash of newpass".to_string())));
    assert!(opens(&third, "dev", "newpass"));
    assert!(!opens(&third, "ops", "newpass"));
    let named = change(&first, "admin", r#"{"current_password":"admin","username":"ops"}"#);
    assert_eq!(named, Some(("ops".to_string(), "hash of admin".to_string())));
    assert!(opens(&named, "ops", "admin"));
    assert!(opens(&Some(("ops".to_string(), String::new())), "ops", "admin"));
    assert!(!opens(&named, "admin", "admin"));
}

#[test]
fn web_sessions_need_a_token_and_a_provider() {
    for b in ["{}", r#"{"token":"t"}"#, r#"{"provider":"p"}"#, r#"{"token":"","provider":"p"}"#] {
        match handle_web_session(&body(b)) {
            Err(r) => assert_eq!(shown(&r), (400, value(r#"{"error": "Missing token or provider"}"#))),
            Ok(_) => panic!("{}", b),
        }
    }
    match handle_web_session(&body(r#"{"token":"t","provider":"p","alias":""}"#)) {
        Ok(w) => {
            assert_eq!((w.token.as_str(), w.provider.as_str()), ("t", "p"));
            assert_eq!((w.alias.as_str(), w.provider_id.as_str()), ("p-web", "p-web"));
        }
        Err(_) => panic!("a full request must be taken"),
    }
    assert_eq!(
        shown(&web_session_reply("p", "a", true)),
        (200, value(r#"{"success":true,"message":"Web Session for p updated successfully as a"}"#))
    );
    assert_eq!(
        shown(&web_session_reply("p", "a", false)),
        (200, value(r#"{"success":true,"message":"Web Session for p imported successfully as a"}"#))
    );
}

#[test]
fn policies_admit_the_models_they_name() {
    assert!(is_model_allowed("*", "m"));
    assert!(is_model_allowed("\"*\"", "m"));
    assert!(is_model_allowed(r#"["a","m"]"#, "m"));
    assert!(!is_model_allowed(r#"["a"]"#, "m"));
    assert!(!is_model_allowed(r#"["*"]"#, "m"));
    assert!(!is_model_allowed("", "m"));
    assert!(!is_model_allowed(r#"["m",1]"#, "m"));
}
