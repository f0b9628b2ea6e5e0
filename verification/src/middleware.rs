//! Who may pass: API keys of the gateway, session tokens of the console, and model policies.

use vstd::prelude::*;
use base64::Engine;
use hmac::Mac;
use crate::cache::TtlCache;
use crate::error::Reply;
use crate::json::{self, Json, JsonView};
use crate::text;

verus! {

/// What the gateway knows of an admitted API key.
pub struct AuthContext {
    pub key_name: String,
    pub allowed_models: String,
}

impl AuthContext {
    /// The same context.
    pub fn copy(&self) -> (r: AuthContext)
        ensures
            r == *self,
    {
        AuthContext {
            key_name: self.key_name.clone(),
            allowed_models: self.allowed_models.clone(),
        }
    }
}

/// How long a validated API key is admitted without asking again, in milliseconds.
pub const HOT_CACHE_TTL_MS: u64 = 60_000;

pub const SESSION_COOKIE: &'static str = "llmux_session";

pub const SESSION_TTL_SECS: u64 = 7 * 24 * 3600;

/// The unpadded URL-safe base64 form of bytes.
pub uninterp spec fn base64url(bytes: Seq<u8>) -> Seq<char>;

/// The bytes of a text in unpadded URL-safe base64.
pub uninterp spec fn base64url_read(text: Seq<char>) -> Option<Seq<u8>>;

/// The HMAC of a message with SHA-256.
pub uninterp spec fn hmac_sha256(key: Seq<u8>, message: Seq<u8>) -> Seq<u8>;

/// Calls `base64`'s `Engine::encode` of `URL_SAFE_NO_PAD`. Its alphabet has no dot, and decoding
/// gives the bytes back.
#[verifier::external_body]
fn encode_base64(bytes: &[u8]) -> (r: String)
    ensures
        r@ == base64url(bytes@),
        base64url_read(r@) == Some(bytes@),
        !r@.contains('.'),
{
    base64::engine::general_purpose::URL_SAFE_NO_PAD.encode(bytes)
}

/// Calls `base64`'s `Engine::decode` of `URL_SAFE_NO_PAD`.
#[verifier::external_body]
fn decode_base64(text: &str) -> (r: Option<Vec<u8>>)
    ensures
        match r {
            Some(v) => base64url_read(text@) == Some(v@),
            None => base64url_read(text@) is None,
        },
{
    base64::engine::general_purpose::URL_SAFE_NO_PAD.decode(text).ok()
}

/// Calls `hmac`'s `Hmac` over `sha2`'s `Sha256`, which takes a key of any length.
#[verifier::external_body]
fn compute_hmac(key: &[u8], message: &[u8]) -> (r: Vec<u8>)
    ensures
        r@ == hmac_sha256(key@, message@),
{
    let mut mac = hmac::Hmac::<sha2::Sha256>::new_from_slice(key).expect("hmac key");
    mac.update(message);
    mac.finalize().into_bytes().to_vec()
}

/// Reads `time`'s `OffsetDateTime::now_utc`, in seconds since 1970. What the clock says is left
/// open, but for its staying within the years that `time` knows.
#[verifier::external_body]
fn unix_seconds() -> (r: i64)
    ensures
        -377_705_116_800 <= r <= 253_402_300_799,
{
    time::OffsetDateTime::now_utc().unix_timestamp()
}

/// The claims of a session token.
pub open spec fn claims(sub: Seq<char>, iat: int, exp: int) -> JsonView {
    JsonView::Object(
        map![
            "sub"@ => JsonView::Text(sub),
            "iat"@ => JsonView::Int(iat),
            "exp"@ => JsonView::Int(exp),
        ],
    )
}

/// The part of a token that is signed.
pub open spec fn signing_input(sub: Seq<char>, now: int, ttl: int) -> Seq<char> {
    base64url(vstd::utf8::encode_utf8("{\"alg\":\"HS256\",\"typ\":\"JWT\"}"@)) + "."@ + base64url(
        vstd::utf8::encode_utf8(json::rendered(claims(sub, now, now + ttl))),
    )
}

/// The token for a subject, signed with a secret.
pub open spec fn token_text(sub: Seq<char>, secret: Seq<char>, now: int, ttl: int) -> Seq<char> {
    let input = signing_input(sub, now, ttl);
    input + "."@ + base64url(hmac_sha256(vstd::utf8::encode_utf8(secret), vstd::utf8::encode_utf8(input)))
}

/// The subject that a payload names, if it holds after a point in time.
pub open spec fn live_subject(payload: Option<JsonView>, now: int) -> Option<Seq<char>> {
    match payload {
        Some(v) => match (
            text_in_field(v, "sub"@),
            json::i64_in(json::field(v, "exp"@)),
        ) {
            (Some(sub), Some(exp)) if exp > now => Some(sub),
            _ => None,
        },
        None => None,
    }
}

/// The text of a member.
pub open spec fn text_in_field(v: JsonView, key: Seq<char>) -> Option<Seq<char>> {
    json::text_in(json::field(v, key))
}

/// The subject of a token: its signature must be that of the secret, and it must not have expired.
pub open spec fn verified(token: Seq<char>, secret: Seq<char>, now: int) -> Option<Seq<char>> {
    match text::split_first(token, '.') {
        Some((h, rest)) => match text::split_first(rest, '.') {
            Some((p, s)) => if base64url_read(s) == Some(
                hmac_sha256(vstd::utf8::encode_utf8(secret), vstd::utf8::encode_utf8(h + "."@ + p)),
            ) {
                match base64url_read(p) {
                    Some(bytes) => live_subject(json::parsed_bytes(bytes), now),
                    None => None,
                }
            } else {
                None
            },
            None => None,
        },
        None => None,
    }
}

proof fn lemma_split_at_dot(a: Seq<char>, b: Seq<char>)
    requires
        !a.contains('.'),
    ensures
        text::split_first(a + "."@ + b, '.') == Some((a, b)),
{
    reveal_strlit(".");
    let s = a + "."@ + b;
    text::lemma_first_at(s, '.');
    let at = text::first_at(s, '.') as int;
    assert(s[a.len() as int] == '.');
    assert(s.contains('.'));
    if at < a.len() {
        assert(a[at] == '.');
        assert(a.contains('.'));
    }
    assert(at == a.len());
    assert(s.take(at) =~= a);
    assert(s.skip(at + 1) =~= b);
}

/// How long a token holds, in seconds: a lifetime beyond the signed numbers counts as one that was
/// over before it began.
pub open spec fn lifetime(ttl_secs: u64) -> int {
    if ttl_secs <= i64::MAX {
        ttl_secs as int
    } else {
        ttl_secs - u64::MAX - 1
    }
}

/// A token that names a subject has a dot.
pub proof fn lemma_verified_has_dot(token: Seq<char>, secret: Seq<char>, now: int)
    requires
        verified(token, secret, now) is Some,
    ensures
        text::occurs(token, "."@),
{
    reveal_strlit(".");
    text::lemma_first_at(token, '.');
    let at = text::first_at(token, '.') as int;
    assert(token.subrange(at, at + 1) =~= "."@);
    assert(text::occurs_at(token, "."@, at));
}

/// Signs a session token at a point in time. It names its subject until its time is over, and no
/// longer.
pub fn sign_jwt_at(sub: &str, secret: &str, ttl_secs: u64, now: i64) -> (r: String)
    requires
        i64::MIN <= now + lifetime(ttl_secs) <= i64::MAX,
    ensures
        r@ == token_text(sub@, secret@, now as int, lifetime(ttl_secs)),
        forall|later: int| #[trigger]
            verified(r@, secret@, later) == (if later < now + lifetime(ttl_secs) {
                Some(sub@)
            } else {
                None
            }),
{
    let exp: i64 = if ttl_secs <= i64::MAX as u64 {
        now + ttl_secs as i64
    } else {
        now + (-1 - (u64::MAX - ttl_secs) as i64)
    };
    let header = encode_base64("{\"alg\":\"HS256\",\"typ\":\"JWT\"}".as_bytes());
    let payload = Json::object().with("sub", Json::text(sub)).with("iat", Json::Signed(now)).with(
        "exp",
        Json::Signed(exp),
    );
    proof {
        reveal_strlit("sub");
        reveal_strlit("iat");
        reveal_strlit("exp");
        reveal_strlit("$serde_json::private::RawValue");
        assert("sub"@[0] != "iat"@[0]);
        assert("sub"@[0] != "exp"@[0]);
        assert("iat"@[0] != "exp"@[0]);
        reveal_with_fuel(json::readable, 2);
        assert(json::reads_back(payload@));
    }
    let payload_json = json::render(&payload);
    let payload_b64 = encode_base64(payload_json.as_str().as_bytes());
    let input = header.clone().concat(".").concat(payload_b64.as_str());
    let sig = compute_hmac(secret.as_bytes(), input.as_str().as_bytes());
    let sig_b64 = encode_base64(sig.as_slice());
    let r = input.clone().concat(".").concat(sig_b64.as_str());
    proof {
        let rest = payload_b64@ + "."@ + sig_b64@;
        assert(r@ =~= header@ + "."@ + rest);
        lemma_split_at_dot(header@, rest);
        lemma_split_at_dot(payload_b64@, sig_b64@);
    }
    r
}

/// Signs a session token that holds from now on.
pub fn sign_jwt(sub: &str, secret: &str, ttl_secs: u64) -> (r: String)
    requires
        i64::MIN + 377_705_116_800 <= lifetime(ttl_secs) <= i64::MAX - 253_402_300_799,
    ensures
        exists|now: int|
            -377_705_116_800 <= now <= 253_402_300_799 && r@ == #[trigger] token_text(
                sub@,
                secret@,
                now,
                lifetime(ttl_secs),
            ) && forall|later: int| #[trigger]
                verified(r@, secret@, later) == (if later < now + lifetime(ttl_secs) {
                    Some(sub@)
                } else {
                    None
                }),
{
    let now: i64 = unix_seconds();
    sign_jwt_at(sub, secret, ttl_secs, now)
}

fn same_bytes(a: &Vec<u8>, b: &Vec<u8>) -> (r: bool)
    ensures
        r == (a@ == b@),
{
    if a.len() != b.len() {
        return false;
    }
    let mut i: usize = 0;
    while i < a.len()
        invariant
            i <= a@.len(),
            a@.len() == b@.len(),
            forall|k: int| 0 <= k < i ==> a@[k] == b@[k],
        decreases a@.len() - i,
    {
        if a[i] != b[i] {
            return false;
        }
        i = i + 1;
    }
    assert(a@ =~= b@);
    true
}

/// The subject that a payload names, if it holds after a point in time.
pub fn subject_of(payload: Option<&Json>, now: i64) -> (r: Option<String>)
    ensures
        json::some_string(r) == live_subject(json::some_view(payload), now as int),
{
    match payload {
        Some(v) => match (v.str_at("sub"), v.get("exp")) {
            (Some(sub), Some(e)) => match e.as_i64() {
                Some(exp) => if exp > now {
                    Some(sub.to_owned())
                } else {
                    None
                },
                None => None,
            },
            _ => None,
        },
        None => None,
    }
}

/// Checks a session token at a point in time.
pub fn verify_jwt_at(token: &str, secret: &str, now: i64) -> (r: Option<String>)
    ensures
        json::some_string(r) == verified(token@, secret@, now as int),
{
    let (h, rest) = match text::split_once(token, '.') {
        Some(p) => p,
        None => {
            return None;
        },
    };
    let (p, s) = match text::split_once(rest.as_str(), '.') {
        Some(p) => p,
        None => {
            return None;
        },
    };
    let input = h.concat(".").concat(p.as_str());
    let sig = match decode_base64(s.as_str()) {
        Some(v) => v,
        None => {
            return None;
        },
    };
    let expected = compute_hmac(secret.as_bytes(), input.as_str().as_bytes());
    if !same_bytes(&expected, &sig) {
        return None;
    }
    let bytes = match decode_base64(p.as_str()) {
        Some(v) => v,
        None => {
            return None;
        },
    };
    match json::parse_bytes(bytes.as_slice()) {
        Some(v) => subject_of(Some(&v), now),
        None => None,
    }
}

/// Checks a session token now.
pub fn verify_jwt(token: &str, secret: &str) -> (r: Option<String>)
    ensures
        exists|now: int|
            -377_705_116_800 <= now <= 253_402_300_799 && json::some_string(r)
                == #[trigger] verified(token@, secret@, now),
{
    let now: i64 = unix_seconds();
    verify_jwt_at(token, secret, now)
}

/// A request header: absent, present but unreadable, or a text.
pub enum Header {
    Absent,
    Unreadable,
    Text(String),
}

/// The text of a header that can be read.
pub open spec fn header_text(h: Header) -> Option<Seq<char>> {
    match h {
        Header::Text(s) => Some(s@),
        _ => None,
    }
}

/// The headers that may carry an API key.
pub struct KeyHeaders {
    pub x_api_key: Header,
    pub x_goog_api_key: Header,
    pub authorization: Header,
}

/// The API key of a request: the first header that is present decides, readable or not.
pub open spec fn api_key(h: KeyHeaders) -> Option<Seq<char>> {
    if !(h.x_api_key is Absent) {
        header_text(h.x_api_key)
    } else if !(h.x_goog_api_key is Absent) {
        header_text(h.x_goog_api_key)
    } else {
        match header_text(h.authorization) {
            Some(v) => text::after_prefix(v, "Bearer "@),
            None => None,
        }
    }
}

/// Takes the API key from a request's headers.
pub fn extract_api_key(headers: &KeyHeaders) -> (r: Option<String>)
    ensures
        json::some_string(r) == api_key(*headers),
{
    match &headers.x_api_key {
        Header::Text(s) => {
            return Some(s.clone());
        },
        Header::Unreadable => {
            return None;
        },
        Header::Absent => {},
    }
    match &headers.x_goog_api_key {
        Header::Text(s) => {
            return Some(s.clone());
        },
        Header::Unreadable => {
            return None;
        },
        Header::Absent => {},
    }
    match &headers.authorization {
        Header::Text(s) => text::strip_prefix(s.as_str(), "Bearer "),
        _ => None,
    }
}

/// The JSON form of an error of the Anthropic error schema.
pub open spec fn anthropic_error(message: Seq<char>, error_type: Seq<char>) -> JsonView {
    JsonView::Object(
        map![
            "type"@ => JsonView::Text("error"@),
            "error"@ => JsonView::Object(
                map![
                    "type"@ => JsonView::Text(error_type),
                    "message"@ => JsonView::Text(message),
                ],
            ),
        ],
    )
}

/// The body of an error in the schema of the client's protocol.
pub open spec fn dual_error(
    message: Seq<char>,
    error_type: Seq<char>,
    status: u16,
    is_anthropic: bool,
) -> JsonView {
    if is_anthropic {
        anthropic_error(message, error_type)
    } else {
        crate::error::openai_error(message, error_type, text::decimal(status as nat))
    }
}

/// An error reply in the schema of the client's protocol.
pub fn send_error(message: &str, error_type: &str, status: u16, is_anthropic: bool) -> (r: Reply)
    ensures
        r@ == (status, dual_error(message@, error_type@, status, is_anthropic)),
{
    if is_anthropic {
        let inner = Json::object().with("type", Json::text(error_type)).with(
            "message",
            Json::text(message),
        );
        Reply {
            status,
            body: Json::object().with("type", Json::text("error")).with("error", inner),
        }
    } else {
        crate::error::gateway_error(message, error_type, status)
    }
}

/// What to do with a gateway request whose headers were read.
pub enum V1Auth {
    /// Serve it.
    Admit(AuthContext),
    /// Ask whether this key is known.
    Check(String),
    /// Answer it with an error.
    Refuse(Reply),
}

/// The error reply to a gateway request without a valid key.
pub open spec fn key_refusal(message: Seq<char>, h: KeyHeaders) -> (u16, JsonView) {
    (401u16, dual_error(message, "authentication_error"@, 401, !(h.x_api_key is Absent)))
}

/// Decides on a gateway request from its headers and from the keys validated a short while ago.
pub fn v1_auth_middleware(
    headers: &KeyHeaders,
    auth_cache: &TtlCache<AuthContext>,
    now: u64,
) -> (r: V1Auth)
    requires
        auth_cache.wf(),
    ensures
        match api_key(*headers) {
            None => r is Refuse && r->Refuse_0@ == key_refusal(
                "Missing API Key. Gateway is locked."@,
                *headers,
            ),
            Some(key) => match crate::cache::live_value(auth_cache@, key, now) {
                Some(ctx) => r == V1Auth::Admit(ctx),
                None => r is Check && r->Check_0@ == key,
            },
        },
{
    let has_x_api_key = match &headers.x_api_key {
        Header::Absent => false,
        _ => true,
    };
    match extract_api_key(headers) {
        Some(k) => match auth_cache.get(k.as_str(), now) {
            Some(ctx) => V1Auth::Admit(ctx.copy()),
            None => V1Auth::Check(k),
        },
        None => V1Auth::Refuse(
            send_error(
                "Missing API Key. Gateway is locked.",
                "authentication_error",
                401,
                has_x_api_key,
            ),
        ),
    }
}

/// Decides on a gateway request once its key was looked up. A known key is remembered.
pub fn v1_auth_checked(
    headers: &KeyHeaders,
    key: &str,
    found: Option<AuthContext>,
    auth_cache: &mut TtlCache<AuthContext>,
    now: u64,
) -> (r: Result<AuthContext, Reply>)
    requires
        old(auth_cache).wf(),
    ensures
        final(auth_cache).wf(),
        match found {
            Some(ctx) => r == Ok::<AuthContext, Reply>(ctx) && final(auth_cache)@
                == crate::cache::stored(
                old(auth_cache)@,
                key@,
                (crate::cache::Cached { value: ctx, expires: (now + HOT_CACHE_TTL_MS) as u128 }),
                now,
            ),
            None => r is Err && r->Err_0@ == key_refusal("Invalid API Key"@, *headers)
                && final(auth_cache)@ == old(auth_cache)@,
        },
{
    match found {
        Some(ctx) => {
            auth_cache.store(key, ctx.copy(), now as u128 + HOT_CACHE_TTL_MS as u128, now);
            Ok(ctx)
        },
        None => {
            let has_x_api_key = match &headers.x_api_key {
                Header::Absent => false,
                _ => true,
            };
            Err(send_error("Invalid API Key", "authentication_error", 401, has_x_api_key))
        },
    }
}

/// The session token of one part of a cookie header.
pub open spec fn session_in(part: Seq<char>) -> Option<Seq<char>> {
    match text::after_prefix(text::trimmed(part), "llmux_session="@) {
        Some(v) => if text::trimmed(v).len() > 0 {
            Some(text::trimmed(v))
        } else {
            None
        },
        None => None,
    }
}

/// The first session token of a list of cookie parts.
pub open spec fn first_session(parts: Seq<Seq<char>>) -> Option<Seq<char>>
    decreases parts.len(),
{
    if parts.len() == 0 {
        None
    } else {
        match session_in(parts[0]) {
            Some(t) => Some(t),
            None => first_session(parts.drop_first()),
        }
    }
}

/// The session token of a cookie header.
pub open spec fn session_token(cookie: Option<Seq<char>>) -> Option<Seq<char>> {
    match cookie {
        Some(c) => first_session(text::pieces(c, ';')),
        None => None,
    }
}

/// Takes the session token from the cookie header, where that can be read.
pub fn extract_session_token(cookie: Option<&str>) -> (r: Option<String>)
    ensures
        json::some_string(r) == session_token(json::some_text(cookie)),
{
    let header = match cookie {
        Some(c) => c,
        None => {
            return None;
        },
    };
    let parts = text::split(header, ';');
    let ghost all = text::texts(parts@);
    let mut i: usize = 0;
    assert(all.skip(0) =~= all);
    while i < parts.len()
        invariant
            i <= parts@.len(),
            all == text::texts(parts@),
            session_token(json::some_text(cookie)) == first_session(all),
            first_session(all) == first_session(all.skip(i as int)),
        decreases parts@.len() - i,
    {
        let part = text::trim(parts[i].as_str());
        assert(all.skip(i as int)[0] == parts@[i as int]@);
        assert(all.skip(i as int).drop_first() =~= all.skip(i + 1));
        if let Some(v) = text::strip_prefix(part.as_str(), "llmux_session=") {
            let v = text::trim(v.as_str());
            if !v.as_str().is_empty() {
                return Some(v);
            }
        }
        i = i + 1;
    }
    None
}

/// The paths under `/api/` that are served without a session.
pub open spec fn whitelisted(effective: Seq<char>) -> bool {
    effective == "/api/auth/login"@ || effective == "/api/health"@
}

/// Whether a path is served without a session.
pub fn is_whitelisted(effective: &str) -> (r: bool)
    ensures
        r == whitelisted(effective@),
{
    text::same(effective, "/api/auth/login") || text::same(effective, "/api/health")
}

/// A path without the base path that the server is mounted under.
pub open spec fn effective_path(path: Seq<char>, base: Seq<char>) -> Seq<char> {
    if base.len() == 0 {
        path
    } else {
        match text::after_prefix(path, base) {
            Some(rest) => if rest.len() == 0 {
                "/"@
            } else {
                rest
            },
            None => path,
        }
    }
}

/// Takes the base path off a path.
pub fn strip_base(path: &str, base: &str) -> (r: String)
    ensures
        r@ == effective_path(path@, base@),
{
    if base.is_empty() {
        return path.to_owned();
    }
    match text::strip_prefix(path, base) {
        Some(rest) => if rest.as_str().is_empty() {
            "/".to_owned()
        } else {
            rest
        },
        None => path.to_owned(),
    }
}

/// A cookie that carries a session token for a path.
pub open spec fn cookie_text(token: Seq<char>, path: Seq<char>) -> Seq<char> {
    "llmux_session="@ + token + "; Path="@ + path + "; HttpOnly; SameSite=Lax; Max-Age="@
        + text::decimal(SESSION_TTL_SECS as nat)
}

/// The cookies that carry a session token: one for the root, one for the base path.
pub open spec fn session_cookies(token: Seq<char>, base: Seq<char>) -> Seq<Seq<char>> {
    if base.len() == 0 {
        seq![cookie_text(token, "/"@)]
    } else {
        seq![cookie_text(token, "/"@), cookie_text(token, base)]
    }
}

fn session_cookie(token: &str, path: &str) -> (r: String)
    ensures
        r@ == cookie_text(token@, path@),
{
    "llmux_session=".to_owned().concat(token).concat("; Path=").concat(path).concat(
        "; HttpOnly; SameSite=Lax; Max-Age=",
    ).concat(text::decimal_u64(SESSION_TTL_SECS).as_str())
}

/// Writes the cookies that carry a session token.
pub fn write_session_cookies(token: &str, base: &str) -> (r: Vec<String>)
    ensures
        text::texts(r@) == session_cookies(token@, base@),
{
    let mut r: Vec<String> = Vec::new();
    r.push(session_cookie(token, "/"));
    if !base.is_empty() {
        r.push(session_cookie(token, base));
    }
    assert(text::texts(r@) =~= session_cookies(token@, base@));
    r
}

/// What to do with a request to the console.
pub enum Gate {
    /// Serve it.
    Pass,
    /// Serve it, and set these cookies on the reply.
    PassWith(Vec<String>),
    /// Answer it with an error.
    Refuse(Reply),
}

/// What to do with a request to the console, cookies and reply taken by their views.
pub enum GateView {
    Pass,
    PassWith(Seq<Seq<char>>),
    Refuse((u16, JsonView)),
}

impl View for Gate {
    type V = GateView;

    open spec fn view(&self) -> GateView {
        match *self {
            Gate::Pass => GateView::Pass,
            Gate::PassWith(v) => GateView::PassWith(text::texts(v@)),
            Gate::Refuse(r) => GateView::Refuse(r@),
        }
    }
}

/// The reply to a request that needs a session and has none.
pub open spec fn session_refusal() -> GateView {
    GateView::Refuse((401u16, crate::error::plain_error("Unauthorized"@)))
}

/// Whether a request needs a session.
pub open spec fn needs_session(is_options: bool, path: Seq<char>, base: Seq<char>) -> bool {
    let effective = effective_path(path, base);
    !is_options && text::begins(effective, "/api/"@) && !whitelisted(effective)
}

/// Whether a token was signed out: it is a signed token and is listed with time left.
pub open spec fn signed_out(
    sessions: Map<Seq<char>, crate::cache::Cached<()>>,
    token: Seq<char>,
    now_ms: u64,
) -> bool {
    crate::cache::live_value(sessions, token, now_ms) is Some && text::occurs(token, "."@)
}

/// What to do with a request that needs a session and shows a token.
pub open spec fn token_gate(
    token: Seq<char>,
    base: Seq<char>,
    secret: Seq<char>,
    sessions: Map<Seq<char>, crate::cache::Cached<()>>,
    now_secs: int,
    now_ms: u64,
) -> GateView {
    if signed_out(sessions, token, now_ms) {
        session_refusal()
    } else {
        match verified(token, secret, now_secs) {
            Some(sub) => GateView::PassWith(
                session_cookies(token_text(sub, secret, now_secs, SESSION_TTL_SECS as int), base),
            ),
            None => if crate::cache::live_value(sessions, token, now_ms) is Some {
                GateView::PassWith(session_cookies(token, base))
            } else {
                session_refusal()
            },
        }
    }
}

/// The session list after a request with a token: an entry that let the request pass is renewed.
pub open spec fn renewed(
    token: Seq<char>,
    secret: Seq<char>,
    sessions: Map<Seq<char>, crate::cache::Cached<()>>,
    now_secs: int,
    now_ms: u64,
) -> Map<Seq<char>, crate::cache::Cached<()>> {
    if !signed_out(sessions, token, now_ms) && verified(token, secret, now_secs) is None
        && crate::cache::live_value(sessions, token, now_ms) is Some {
        sessions.insert(
            token,
            crate::cache::Cached { value: (), expires: (now_ms + SESSION_TTL_SECS * 1000) as u128 },
        )
    } else {
        sessions
    }
}

/// Decides on a request to the console. A request under `/api/` that is not open to all passes
/// with a session only: a signed token that was not signed out, or a listed one.
pub fn ui_auth_middleware(
    is_options: bool,
    path: &str,
    base: &str,
    cookie: Option<&str>,
    secret: &str,
    sessions: &mut TtlCache<()>,
    now_secs: i64,
    now_ms: u64,
) -> (r: Gate)
    requires
        old(sessions).wf(),
        now_secs + SESSION_TTL_SECS <= i64::MAX,
    ensures
        final(sessions).wf(),
        ({
            let token = session_token(json::some_text(cookie));
            if !needs_session(is_options, path@, base@) {
                r@ == GateView::Pass && final(sessions)@ == old(sessions)@
            } else {
                match token {
                    Some(t) => r@ == token_gate(
                        t,
                        base@,
                        secret@,
                        old(sessions)@,
                        now_secs as int,
                        now_ms,
                    ) && final(sessions)@ == renewed(
                        t,
                        secret@,
                        old(sessions)@,
                        now_secs as int,
                        now_ms,
                    ),
                    None => r@ == session_refusal() && final(sessions)@ == old(sessions)@,
                }
            }
        }),
{
    if is_options {
        return Gate::Pass;
    }
    let effective = strip_base(path, base);
    if !text::starts_with(effective.as_str(), "/api/") || is_whitelisted(effective.as_str()) {
        return Gate::Pass;
    }
    if let Some(token) = extract_session_token(cookie) {
        let listed = sessions.get(token.as_str(), now_ms).is_some();
        if listed && text::contains(token.as_str(), ".") {
            return Gate::Refuse(crate::error::simple_error("Unauthorized", 401));
        }
        if let Some(sub) = verify_jwt_at(token.as_str(), secret, now_secs) {
            let fresh = sign_jwt_at(sub.as_str(), secret, SESSION_TTL_SECS, now_secs);
            return Gate::PassWith(write_session_cookies(fresh.as_str(), base));
        }
        if listed {
            sessions.insert(token.as_str(), (), now_ms as u128 + SESSION_TTL_SECS as u128 * 1000);
            return Gate::PassWith(write_session_cookies(token.as_str(), base));
        }
    }
    Gate::Refuse(crate::error::simple_error("Unauthorized", 401))
}

/// Whether a policy admits every model.
pub open spec fn admits_all(policy: Seq<char>) -> bool {
    policy == "*"@ || policy == "\"*\""@
}

/// Whether a policy admits a model: all, or those in its list.
pub open spec fn model_allowed(policy: Seq<char>, model: Seq<char>) -> bool {
    admits_all(policy) || match json::string_list(policy) {
        Some(models) => models.contains(model),
        None => false,
    }
}

/// Whether a model is in a list.
pub fn model_in(models: &Vec<String>, model: &str) -> (r: bool)
    ensures
        r == text::texts(models@).contains(model@),
{
    let mut i: usize = 0;
    while i < models.len()
        invariant
            i <= models@.len(),
            forall|k: int| 0 <= k < i ==> text::texts(models@)[k] != model@,
        decreases models@.len() - i,
    {
        if text::same(models[i].as_str(), model) {
            assert(text::texts(models@)[i as int] == model@);
            return true;
        }
        i = i + 1;
    }
    false
}

/// Whether a key's policy admits a model.
pub fn is_model_allowed(allowed_models: &str, model: &str) -> (r: bool)
    ensures
        r == model_allowed(allowed_models@, model@),
{
    if text::same(allowed_models, "*") || text::same(allowed_models, "\"*\"") {
        return true;
    }
    match json::read_string_list(allowed_models) {
        Some(models) => model_in(&models, model),
        None => false,
    }
}

/// The message that an error of either schema holds.
pub open spec fn message_of(error: JsonView) -> Option<Seq<char>> {
    match json::field(error, "error"@) {
        Some(inner) => json::text_in(json::field(inner, "message"@)),
        None => None,
    }
}

/// An error says its message and its kind, in either schema. The Anthropic schema is known by the
/// kind at the top, the OpenAI schema by the code, which is the status.
pub proof fn lemma_error_shape(
    message: Seq<char>,
    error_type: Seq<char>,
    status: u16,
    anthropic: bool,
)
    ensures
        ({
            let e = dual_error(message, error_type, status, anthropic);
            &&& message_of(e) == Some(message)
            &&& json::field(e, "error"@) is Some
            &&& json::field(json::field(e, "error"@)->0, "type"@) == Some(
                JsonView::Text(error_type),
            )
            &&& json::field(e, "type"@) == (if anthropic {
                Some(JsonView::Text("error"@))
            } else {
                None
            })
            &&& json::field(json::field(e, "error"@)->0, "code"@) == (if anthropic {
                None
            } else {
                Some(JsonView::Text(text::decimal(status as nat)))
            })
        }),
{
    reveal_strlit("type");
    reveal_strlit("error");
    reveal_strlit("message");
    reveal_strlit("code");
    assert("type"@.len() != "error"@.len());
    assert("type"@.len() != "message"@.len());
    assert("message"@.len() != "code"@.len());
    assert("type"@[0] != "code"@[0]);
    assert("message"@.len() != "error"@.len());
}

/// The key of a request is what the first of its headers for keys says; only behind `Bearer` is it
/// taken from the general one. A header that cannot be read hides those after it.
pub proof fn lemma_api_key(h: KeyHeaders, key: Seq<char>)
    ensures
        h.x_api_key matches Header::Text(s) ==> api_key(h) == Some(s@),
        h.x_api_key is Unreadable ==> api_key(h) is None,
        h.x_api_key is Absent && (h.x_goog_api_key matches Header::Text(s)) ==> api_key(h) == Some(
            h.x_goog_api_key->Text_0@,
        ),
        h.x_api_key is Absent && h.x_goog_api_key is Unreadable ==> api_key(h) is None,
        h.x_api_key is Absent && h.x_goog_api_key is Absent && h.authorization is Text
            && h.authorization->Text_0@ == "Bearer "@ + key ==> api_key(h) == Some(key),
        h.x_api_key is Absent && h.x_goog_api_key is Absent && !(h.authorization is Text)
            ==> api_key(h) is None,
        h.x_api_key is Absent && h.x_goog_api_key is Absent && h.authorization is Text && !(
        "Bearer "@.is_prefix_of(h.authorization->Text_0@)) ==> api_key(h) is None,
{
    let s = "Bearer "@ + key;
    let n = "Bearer "@.len() as int;
    assert(s.subrange(0, n) =~= "Bearer "@);
    assert(s.skip(n) =~= key);
}

/// A policy admits all models, or exactly those that it lists. One that lists nothing readable admits
/// none.
pub proof fn lemma_policies(policy: Seq<char>, model: Seq<char>)
    ensures
        model_allowed("*"@, model),
        model_allowed("\"*\""@, model),
        policy != "*"@ && policy != "\"*\""@ && json::string_list(policy) is None
            ==> !model_allowed(policy, model),
        policy != "*"@ && policy != "\"*\""@ && json::string_list(policy) is Some ==> (
        model_allowed(policy, model) <==> json::string_list(policy)->0.contains(model)),
{
}

/// Every request below `/api/` needs a session, but for the sign-in, the health check and requests
/// that ask for options. So it is also where the server is mounted under a base path.
pub proof fn lemma_what_needs_a_session(path: Seq<char>, base: Seq<char>)
    requires
        path.len() > 0,
    ensures
        !needs_session(true, path, base),
        "/api/"@.is_prefix_of(path) && path != "/api/auth/login"@ && path != "/api/health"@
            ==> needs_session(false, path, seq![]) && needs_session(false, base + path, base),
        !needs_session(false, "/api/auth/login"@, seq![]),
        !needs_session(false, "/api/health"@, seq![]),
        !"/api/"@.is_prefix_of(path) ==> !needs_session(false, path, seq![]) && !needs_session(
            false,
            base + path,
            base,
        ),
{
    let n = base.len() as int;
    assert((base + path).subrange(0, n) =~= base);
    assert((base + path).skip(n) =~= path);
    assert(effective_path(path, seq![]) == path);
    if base.len() == 0 {
        assert(base + path =~= path);
    }
    assert(effective_path(base + path, base) == path);
    let m = "/api/"@.len() as int;
    if "/api/"@.is_prefix_of(path) {
        assert(path.subrange(0, m) =~= "/api/"@);
    } else if text::begins(path, "/api/"@) {
        assert("/api/"@ =~= path.subrange(0, m));
        assert("/api/"@.is_prefix_of(path));
    }
}

/// A request that needs a session passes with a token that is signed and not over, and with one that
/// is listed, unless that was signed out; with any other it is refused as not authorized. A token that
/// passes is renewed for the same user.
pub proof fn lemma_gate(
    token: Seq<char>,
    base: Seq<char>,
    secret: Seq<char>,
    sessions: Map<Seq<char>, crate::cache::Cached<()>>,
    now_secs: int,
    now_ms: u64,
)
    ensures
        ({
            let gate = token_gate(token, base, secret, sessions, now_secs, now_ms);
            let listed = sessions.dom().contains(token) && sessions[token].expires > now_ms;
            let signed = verified(token, secret, now_secs) is Some;
            &&& gate is PassWith || gate is Refuse
            &&& gate is PassWith <==> (if listed {
                !text::occurs(token, "."@)
            } else {
                signed
            })
            &&& gate is Refuse ==> (gate->Refuse_0).0 == 401
            &&& gate is PassWith ==> (gate->PassWith_0).len() == (if base.len() == 0 {
                1nat
            } else {
                2nat
            })
            &&& gate is PassWith && !signed ==> gate->PassWith_0[0] == cookie_text(token, "/"@)
            &&& gate is PassWith && signed ==> gate->PassWith_0[0] == cookie_text(
                token_text(
                    verified(token, secret, now_secs)->0,
                    secret,
                    now_secs,
                    604800int,
                ),
                "/"@,
            )
        }),
{
    if verified(token, secret, now_secs) is Some {
        lemma_verified_has_dot(token, secret, now_secs);
    }
}

/// A payload names its subject strictly before the time that it gives as its end, and never without
/// both.
pub proof fn lemma_subject(payload: Map<Seq<char>, JsonView>, sub: Seq<char>, exp: i64, now: int)
    ensures
        json::holds(payload, "sub"@, JsonView::Text(sub)) && json::holds(
            payload,
            "exp"@,
            JsonView::Int(exp as int),
        ) ==> live_subject(Some(JsonView::Object(payload)), now) == (if now < exp {
            Some(sub)
        } else {
            None
        }),
        !payload.dom().contains("exp"@) || !payload.dom().contains("sub"@) ==> live_subject(
            Some(JsonView::Object(payload)),
            now,
        ) is None,
        live_subject(None, now) is None,
{
}

/// A gateway request without a valid key is refused as not authorized, in the schema that its header
/// for keys speaks for.
pub proof fn lemma_key_refusal(message: Seq<char>, h: KeyHeaders)
    ensures
        key_refusal(message, h).0 == 401,
        message_of(key_refusal(message, h).1) == Some(message),
        json::field(key_refusal(message, h).1, "type"@) is Some <==> !(h.x_api_key is Absent),
{
    lemma_error_shape(message, "authentication_error"@, 401, !(h.x_api_key is Absent));
}

/// A session that a cookie carries is found, alone and after other cookies.
pub proof fn lemma_session_is_found(token: Seq<char>, others: Seq<char>)
    requires
        token.len() > 0,
        !text::white(token[0]),
        !text::white(token.last()),
        !token.contains(';'),
    ensures
        session_token(Some("llmux_session="@ + token)) == Some(token),
        session_token(Some(others)) is None ==> session_token(
            Some(others + seq![';'] + ("llmux_session="@ + token)),
        ) == Some(token),
        session_token(None) is None,
{
    let part = "llmux_session="@ + token;
    reveal_strlit("llmux_session=");
    assert(part[0] == 'l');
    assert(part.last() == token.last());
    text::lemma_trimmed_keeps(part);
    text::lemma_trimmed_keeps(token);
    text::lemma_prefix_comes_off("llmux_session="@, token, part);
    assert(session_in(part) == Some(token));
    assert forall|i: int| 0 <= i < part.len() implies part[i] != ';' by {
        if i >= "llmux_session="@.len() {
            assert(part[i] == token[i - "llmux_session="@.len()]);
            assert(token.contains(part[i]));
        }
    }
    text::lemma_pieces(others, part, ';');
    assert(seq![part][0] == part);
    let parts = text::pieces(others, ';');
    lemma_first_session_pushed(parts, part);
}

proof fn lemma_first_session_pushed(parts: Seq<Seq<char>>, part: Seq<char>)
    ensures
        first_session(parts) is None ==> first_session(parts.push(part)) == session_in(part),
        first_session(parts) is Some ==> first_session(parts.push(part)) == first_session(parts),
    decreases parts.len(),
{
    let all = parts.push(part);
    if parts.len() == 0 {
        assert(first_session(all.drop_first()) is None);
        assert(all[0] == part);
    } else {
        lemma_first_session_pushed(parts.drop_first(), part);
        assert(all.drop_first() =~= parts.drop_first().push(part));
        assert(all[0] == parts[0]);
    }
}

/// The cookie that is set carries the token first, for a path, and not for scripts.
pub proof fn lemma_cookie(token: Seq<char>, path: Seq<char>)
    ensures
        ("llmux_session="@ + token).is_prefix_of(cookie_text(token, path)),
        text::occurs(cookie_text(token, path), "; Path="@ + path),
        text::occurs(cookie_text(token, path), "; HttpOnly; SameSite=Lax; Max-Age="@),
        text::decimal(7 * 24 * 60 * 60).is_suffix_of(cookie_text(token, path)),
{
    let whole = cookie_text(token, path);
    let first = "llmux_session="@ + token;
    let place = "; Path="@ + path;
    let rest = "; HttpOnly; SameSite=Lax; Max-Age="@;
    let n = first.len() as int;
    let k = n + place.len();
    assert(whole.subrange(0, n) =~= first);
    assert(whole.subrange(n, k) =~= place);
    assert(text::occurs_at(whole, place, n));
    assert(whole.subrange(k, k + rest.len()) =~= rest);
    assert(text::occurs_at(whole, rest, k));
}

/// A key that was found is admitted without another look for one minute, and no longer.
pub proof fn lemma_keys_are_remembered(
    known: Map<Seq<char>, crate::cache::Cached<AuthContext>>,
    key: Seq<char>,
    ctx: AuthContext,
    now: u64,
    later: u64,
)
    ensures
        ({
            let c = crate::cache::Cached { value: ctx, expires: (now + HOT_CACHE_TTL_MS) as u128 };
            let after = crate::cache::stored(known, key, c, now);
            crate::cache::live_value(after, key, later) == (if later < now + 60 * 1000 {
                Some(ctx)
            } else {
                None
            })
        }),
{
}

/// A session that is listed lives for seven more days with each request.
pub proof fn lemma_sessions_are_renewed(
    token: Seq<char>,
    secret: Seq<char>,
    sessions: Map<Seq<char>, crate::cache::Cached<()>>,
    now_secs: int,
    now_ms: u64,
    later: u64,
    other: Seq<char>,
)
    requires
        verified(token, secret, now_secs) is None,
        !text::occurs(token, "."@),
        sessions.dom().contains(token) && sessions[token].expires > now_ms,
    ensures
        ({
            let after = renewed(token, secret, sessions, now_secs, now_ms);
            &&& crate::cache::live_value(after, token, later) is Some <==> later < now_ms + 7 * 24 * 60
                * 60 * 1000
            &&& other != token ==> crate::cache::live_value(after, other, later)
                == crate::cache::live_value(sessions, other, later)
        }),
{
}

/// The claims of a token name its user, when it was made and when it ends.
pub proof fn lemma_claims(sub: Seq<char>, iat: int, exp: int)
    ensures
        json::field(claims(sub, iat, exp), "sub"@) == Some(JsonView::Text(sub)),
        json::field(claims(sub, iat, exp), "iat"@) == Some(JsonView::Int(iat)),
        json::field(claims(sub, iat, exp), "exp"@) == Some(JsonView::Int(exp)),
{
    reveal_strlit("sub");
    reveal_strlit("iat");
    reveal_strlit("exp");
    assert("sub"@[0] != "iat"@[0]);
    assert("sub"@[0] != "exp"@[0]);
    assert("iat"@[0] != "exp"@[0]);
}

/// A request changes the list of sessions only where its own token is listed and is no signed one.
pub proof fn lemma_sessions_stay(
    token: Seq<char>,
    secret: Seq<char>,
    sessions: Map<Seq<char>, crate::cache::Cached<()>>,
    now_secs: int,
    now_ms: u64,
)
    ensures
        verified(token, secret, now_secs) is Some ==> renewed(
            token,
            secret,
            sessions,
            now_secs,
            now_ms,
        ) == sessions,
        text::occurs(token, "."@) ==> renewed(token, secret, sessions, now_secs, now_ms) == sessions,
        !sessions.dom().contains(token) || sessions[token].expires <= now_ms ==> renewed(
            token,
            secret,
            sessions,
            now_secs,
            now_ms,
        ) == sessions,
{
}

/// A token is good only with the signature of its own header and payload under the secret; it then is
/// good for the user that the payload names, as long as the payload says.
pub proof fn lemma_signatures_count(
    header: Seq<char>,
    payload: Seq<char>,
    signature: Seq<char>,
    secret: Seq<char>,
    now: int,
)
    requires
        !header.contains('.'),
        !payload.contains('.'),
    ensures
        ({
            let token = header + seq!['.'] + (payload + seq!['.'] + signature);
            let right = hmac_sha256(
                vstd::utf8::encode_utf8(secret),
                vstd::utf8::encode_utf8(header + "."@ + payload),
            );
            &&& base64url_read(signature) != Some(right) ==> verified(token, secret, now) is None
            &&& base64url_read(signature) == Some(right) && base64url_read(payload) is Some
                ==> verified(token, secret, now) == live_subject(
                json::parsed_bytes(base64url_read(payload)->0),
                now,
            )
            &&& base64url_read(payload) is None ==> verified(token, secret, now) is None
        }),
{
    let rest = payload + seq!['.'] + signature;
    text::lemma_split_first(header, rest, '.', rest);
    text::lemma_split_first(payload, signature, '.', rest);
}

} // verus!
