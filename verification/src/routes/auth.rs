//! Signing in and out of the console, its credentials, and accounts made of web sessions.

use vstd::prelude::*;
use crate::cache::{Cached, TtlCache};
use crate::error::{self, Reply};
use crate::json::{self, Json, JsonView};
use crate::middleware::{self, SESSION_TTL_SECS};
use crate::text;

verus! {

/// An account that is made of a web session.
pub struct WebSession {
    pub provider: String,
    pub token: String,
    pub alias: String,
    pub provider_id: String,
}

/// The text of a member that is not empty.
pub open spec fn nonempty_at(body: JsonView, key: Seq<char>) -> Option<Seq<char>> {
    match json::text_in(json::field(body, key)) {
        Some(s) => if s.len() > 0 {
            Some(s)
        } else {
            None
        },
        None => None,
    }
}

fn filled_at<'a>(body: &'a Json, key: &str) -> (r: Option<&'a str>)
    ensures
        json::some_text(r) == nonempty_at(body@, key@),
{
    match body.str_at(key) {
        Some(s) => if s.is_empty() {
            None
        } else {
            Some(s)
        },
        None => None,
    }
}

/// Reads a request to make an account of a web session. It is named after its provider unless it is
/// given a name.
pub fn handle_web_session(body: &Json) -> (r: Result<WebSession, Reply>)
    ensures
        match (nonempty_at(body@, "provider"@), nonempty_at(body@, "token"@)) {
            (Some(provider), Some(token)) => r is Ok && r->Ok_0.provider@ == provider
                && r->Ok_0.token@ == token && r->Ok_0.alias@ == (match nonempty_at(
                body@,
                "alias"@,
            ) {
                Some(a) => a,
                None => provider + "-web"@,
            }) && r->Ok_0.provider_id@ == provider + "-web"@,
            _ => r is Err && r->Err_0@ == (400u16, error::plain_error("Missing token or provider"@)),
        },
{
    match (filled_at(body, "provider"), filled_at(body, "token")) {
        (Some(provider), Some(token)) => {
            let provider_id = provider.to_owned().concat("-web");
            let alias = match filled_at(body, "alias") {
                Some(a) => a.to_owned(),
                None => provider_id.clone(),
            };
            Ok(
                WebSession {
                    provider: provider.to_owned(),
                    token: token.to_owned(),
                    alias,
                    provider_id,
                },
            )
        },
        _ => Err(error::simple_error("Missing token or provider", 400)),
    }
}

/// The reply to a request that stored a web session.
pub fn web_session_reply(provider: &str, alias: &str, existed: bool) -> (r: Reply)
    ensures
        r@ == (
            200u16,
            JsonView::Object(
                map![
                    "success"@ => JsonView::Bool(true),
                    "message"@ => JsonView::Text(
                        "Web Session for "@ + provider@ + (if existed {
                            " updated successfully as "@
                        } else {
                            " imported successfully as "@
                        }) + alias@,
                    ),
                ],
            ),
        ),
{
    let done = if existed {
        " updated successfully as "
    } else {
        " imported successfully as "
    };
    let message = "Web Session for ".to_owned().concat(provider).concat(done).concat(alias);
    Reply {
        status: 200,
        body: Json::object().with("success", Json::Bool(true)).with(
            "message",
            Json::text(message.as_str()),
        ),
    }
}

/// The administrator's name and password hash. Without a hash, the password is the configured one.
pub struct AdminCredentials {
    pub username: String,
    pub password_hash: String,
}

/// Credentials, texts by their characters.
#[verifier::ext_equal]
pub struct CredentialsView {
    pub username: Seq<char>,
    pub password_hash: Seq<char>,
}

impl View for AdminCredentials {
    type V = CredentialsView;

    open spec fn view(&self) -> CredentialsView {
        CredentialsView { username: self.username@, password_hash: self.password_hash@ }
    }
}

/// The administrator's name: the stored one, else the configured one, else `admin`.
pub open spec fn admin_name(stored: Option<Seq<char>>, configured: Option<Seq<char>>) -> Seq<char> {
    match stored {
        Some(s) => s,
        None => match configured {
            Some(v) if text::trimmed(v).len() > 0 => v,
            _ => "admin"@,
        },
    }
}

/// The view of optional credentials.
pub open spec fn some_credentials(stored: Option<AdminCredentials>) -> Option<CredentialsView> {
    match stored {
        Some(c) => Some(c@),
        None => None,
    }
}

/// The administrator's name in force.
pub open spec fn name_in_force(
    stored: Option<CredentialsView>,
    configured: Option<Seq<char>>,
) -> Seq<char> {
    admin_name(
        match stored {
            Some(c) => Some(c.username),
            None => None,
        },
        configured,
    )
}

/// The password hash in force; empty where nothing is stored.
pub open spec fn hash_in_force(stored: Option<CredentialsView>) -> Seq<char> {
    match stored {
        Some(c) => c.password_hash,
        None => seq![],
    }
}

/// The credentials in force: the stored ones; else the configured or default name, without a hash.
pub fn admin_credentials(
    stored: Option<AdminCredentials>,
    configured_name: Option<String>,
) -> (r: AdminCredentials)
    ensures
        r.username@ == name_in_force(
            some_credentials(stored),
            json::some_string(configured_name),
        ),
        r.password_hash@ == hash_in_force(some_credentials(stored)),
{
    match stored {
        Some(c) => c,
        None => {
            let password_hash = String::new();
            assert(password_hash@ =~= seq![]);
            let username = match configured_name {
                Some(v) => if text::trim(v.as_str()).as_str().is_empty() {
                    "admin".to_owned()
                } else {
                    v
                },
                None => "admin".to_owned(),
            };
            AdminCredentials { username, password_hash }
        },
    }
}

/// Whether two byte strings are equal. Every byte is looked at, whatever the others are.
pub fn constant_time_eq(a: &[u8], b: &[u8]) -> (r: bool)
    ensures
        r == (a@ == b@),
{
    if a.len() != b.len() {
        return false;
    }
    let mut diff: u8 = 0;
    let mut i: usize = 0;
    while i < a.len()
        invariant
            i <= a@.len(),
            a@.len() == b@.len(),
            (diff == 0) == (forall|k: int| 0 <= k < i ==> a@[k] == b@[k]),
        decreases a@.len() - i,
    {
        let x: u8 = a[i];
        let y: u8 = b[i];
        assert(((diff | (x ^ y)) == 0) == (diff == 0 && x == y)) by (bit_vector);
        diff = diff | (x ^ y);
        i = i + 1;
    }
    if diff == 0 {
        assert(a@ =~= b@);
    }
    diff == 0
}

/// What a sign-in attempt comes to before a password is hashed.
pub enum PasswordCheck {
    /// It is decided.
    Decided(bool),
    /// It succeeds if the password has this hash.
    AgainstHash(String),
}

/// The password that holds where no hash is stored: the configured one, else `admin`.
pub open spec fn plain_password(configured: Option<Seq<char>>) -> Seq<char> {
    match configured {
        Some(v) if v.len() > 0 => v,
        _ => "admin"@,
    }
}

/// What a check comes to, given whether the password has the stored hash.
pub open spec fn decided(check: PasswordCheck, hash_matches: bool) -> bool {
    match check {
        PasswordCheck::Decided(b) => b,
        PasswordCheck::AgainstHash(_) => hash_matches,
    }
}

/// Whether a sign-in attempt succeeds with a name and a hash in force, given whether the password
/// has that hash.
pub open spec fn admitted(
    name: Seq<char>,
    hash: Seq<char>,
    configured_password: Option<Seq<char>>,
    username: Seq<char>,
    password: Seq<char>,
    hash_matches: bool,
) -> bool {
    username == name && if hash.len() == 0 {
        password == plain_password(configured_password)
    } else {
        hash_matches
    }
}

/// Checks a sign-in attempt as far as it goes without hashing the password.
pub fn verify_admin(
    credentials: &AdminCredentials,
    configured_password: Option<&str>,
    username: &str,
    password: &str,
) -> (r: PasswordCheck)
    ensures
        r is AgainstHash == (username@ == credentials.username@
            && credentials.password_hash@.len() > 0),
        r is AgainstHash ==> r->AgainstHash_0@ == credentials.password_hash@,
        forall|hash_matches: bool| #[trigger]
            decided(r, hash_matches) == admitted(
                credentials.username@,
                credentials.password_hash@,
                json::some_text(configured_password),
                username@,
                password@,
                hash_matches,
            ),
{
    if !text::same(username, credentials.username.as_str()) {
        return PasswordCheck::Decided(false);
    }
    if credentials.password_hash.as_str().is_empty() {
        let expected = match configured_password {
            Some(v) => if v.is_empty() {
                "admin"
            } else {
                v
            },
            None => "admin",
        };
        proof {
            vstd::utf8::encode_utf8_decode_utf8(password@);
            vstd::utf8::encode_utf8_decode_utf8(expected@);
        }
        return PasswordCheck::Decided(constant_time_eq(password.as_bytes(), expected.as_bytes()));
    }
    PasswordCheck::AgainstHash(credentials.password_hash.clone())
}

/// Decides a sign-in attempt, given whether the password has the stored hash.
pub fn decide(check: PasswordCheck, hash_matches: bool) -> (r: bool)
    ensures
        r == decided(check, hash_matches),
{
    match check {
        PasswordCheck::Decided(b) => b,
        PasswordCheck::AgainstHash(_) => hash_matches,
    }
}

/// Once credentials with a hash are stored, what is configured no longer counts: the stored name and
/// the hash alone decide.
pub proof fn lemma_stored_credentials_decide(
    stored: CredentialsView,
    configured_name: Option<Seq<char>>,
    configured_password: Option<Seq<char>>,
    username: Seq<char>,
    password: Seq<char>,
    hash_matches: bool,
)
    requires
        stored.password_hash.len() > 0,
    ensures
        admitted(
            name_in_force(Some(stored), configured_name),
            hash_in_force(Some(stored)),
            configured_password,
            username,
            password,
            hash_matches,
        ) == (username == stored.username && hash_matches),
{
}

/// Whether a token is that of a session: it was not signed out, and it is signed or listed.
pub open spec fn session_valid(
    sessions: Map<Seq<char>, Cached<()>>,
    token: Seq<char>,
    secret: Seq<char>,
    now_secs: int,
    now_ms: u64,
) -> bool {
    !middleware::signed_out(sessions, token, now_ms) && (middleware::verified(
        token,
        secret,
        now_secs,
    ) is Some || crate::cache::live_value(sessions, token, now_ms) is Some)
}

/// Whether a token is that of a session.
pub fn is_session_valid(
    sessions: &TtlCache<()>,
    token: &str,
    secret: &str,
    now_secs: i64,
    now_ms: u64,
) -> (r: bool)
    requires
        sessions.wf(),
    ensures
        r == session_valid(sessions@, token@, secret@, now_secs as int, now_ms),
{
    let listed = sessions.get(token, now_ms).is_some();
    if listed && text::contains(token, ".") {
        return false;
    }
    if middleware::verify_jwt_at(token, secret, now_secs).is_some() {
        return true;
    }
    listed
}

/// The name and password of a sign-in request; the name without surrounding white space.
pub fn login_request(body: &Json) -> (r: (String, String))
    ensures
        r.0@ == text::trimmed(crate::routes::accounts::text_or_empty(body@, "username"@)),
        r.1@ == crate::routes::accounts::text_or_empty(body@, "password"@),
{
    let username = match body.str_at("username") {
        Some(s) => s,
        None => "",
    };
    let password = match body.str_at("password") {
        Some(s) => s,
        None => "",
    };
    proof {
        reveal_strlit("");
        assert(""@ =~= seq![]);
    }
    (text::trim(username), password.to_owned())
}

/// A reply and the cookies that go with it.
pub struct CookieReply {
    pub reply: Reply,
    pub cookies: Vec<String>,
}

/// The reply that reports success.
pub open spec fn success_reply() -> (u16, JsonView) {
    (200u16, JsonView::Object(map!["success"@ => JsonView::Bool(true)]))
}

/// Signs in, once the attempt was checked. The token names the user for as long as a session lasts.
pub fn handle_login(
    admitted: bool,
    username: &str,
    secret: &str,
    base: &str,
    now: i64,
) -> (r: Result<CookieReply, Reply>)
    requires
        now + SESSION_TTL_SECS <= i64::MAX,
    ensures
        if admitted {
            let token = middleware::token_text(
                username@,
                secret@,
                now as int,
                SESSION_TTL_SECS as int,
            );
            r is Ok && (forall|later: int|
                now <= later < now + 7 * 24 * 60 * 60 ==> #[trigger] middleware::verified(
                    token,
                    secret@,
                    later,
                ) == Some(username@)) && r->Ok_0.reply@ == success_reply() && text::texts(
                r->Ok_0.cookies@,
            ) == middleware::session_cookies(token, base@) && forall|later: int| #[trigger]
                middleware::verified(token, secret@, later) == (if later < now + SESSION_TTL_SECS {
                    Some(username@)
                } else {
                    None
                })
        } else {
            r is Err && r->Err_0@ == (401u16, error::plain_error("Invalid credentials"@))
        },
{
    if !admitted {
        return Err(error::simple_error("Invalid credentials", 401));
    }
    let token = middleware::sign_jwt_at(username, secret, SESSION_TTL_SECS, now);
    Ok(
        CookieReply {
            reply: Reply { status: 200, body: Json::object().with("success", Json::Bool(true)) },
            cookies: middleware::write_session_cookies(token.as_str(), base),
        },
    )
}

/// A cookie that takes a session token away from a path.
pub open spec fn clearing_cookie(path: Seq<char>) -> Seq<char> {
    "llmux_session=; Path="@ + path + "; HttpOnly; SameSite=Lax; Max-Age=0"@
}

/// The cookies that take a session token away.
pub open spec fn clearing_cookies(base: Seq<char>) -> Seq<Seq<char>> {
    if base.len() == 0 {
        seq![clearing_cookie("/"@)]
    } else {
        seq![clearing_cookie("/"@), clearing_cookie(base)]
    }
}

fn clear_cookie(path: &str) -> (r: String)
    ensures
        r@ == clearing_cookie(path@),
{
    "llmux_session=; Path=".to_owned().concat(path).concat("; HttpOnly; SameSite=Lax; Max-Age=0")
}

/// The session list after signing out: a signed token is listed until it would have expired, any
/// other is taken off the list.
pub open spec fn sessions_after_logout(
    sessions: Map<Seq<char>, Cached<()>>,
    token: Seq<char>,
    now_ms: u64,
) -> Map<Seq<char>, Cached<()>> {
    if text::occurs(token, "."@) {
        crate::cache::stored(
            sessions,
            token,
            Cached { value: (), expires: (now_ms + SESSION_TTL_SECS * 1000) as u128 },
            now_ms,
        )
    } else {
        sessions.remove(token)
    }
}

/// Signs out.
pub fn handle_logout(
    cookie: Option<&str>,
    base: &str,
    sessions: &mut TtlCache<()>,
    now_ms: u64,
) -> (r: CookieReply)
    requires
        old(sessions).wf(),
    ensures
        final(sessions).wf(),
        final(sessions)@ == (match middleware::session_token(json::some_text(cookie)) {
            Some(t) => sessions_after_logout(old(sessions)@, t, now_ms),
            None => old(sessions)@,
        }),
        r.reply@ == success_reply(),
        text::texts(r.cookies@) == clearing_cookies(base@),
{
    if let Some(token) = middleware::extract_session_token(cookie) {
        if text::contains(token.as_str(), ".") {
            sessions.store(
                token.as_str(),
                (),
                now_ms as u128 + SESSION_TTL_SECS as u128 * 1000,
                now_ms,
            );
        } else {
            sessions.remove(token.as_str());
        }
    }
    let mut cookies: Vec<String> = Vec::new();
    cookies.push(clear_cookie("/"));
    if !base.is_empty() {
        cookies.push(clear_cookie(base));
    }
    assert(text::texts(cookies@) =~= clearing_cookies(base@));
    CookieReply {
        reply: Reply { status: 200, body: Json::object().with("success", Json::Bool(true)) },
        cookies,
    }
}

/// A signed token that was signed out is no session any more, and no request passes with it, until
/// the time that it could have lasted is over. A token that was not signed out before, and is not
/// over, passed until then; its signature still holds.
pub proof fn lemma_logout_ends_session(
    sessions: Map<Seq<char>, Cached<()>>,
    token: Seq<char>,
    secret: Seq<char>,
    base: Seq<char>,
    now_ms: u64,
    later_secs: int,
    later_ms: u64,
)
    requires
        text::occurs(token, "."@) || middleware::verified(token, secret, later_secs) is Some,
        later_ms < now_ms + SESSION_TTL_SECS * 1000,
    ensures
        middleware::verified(token, secret, later_secs) is Some && crate::cache::live_value(
            sessions,
            token,
            later_ms,
        ) is None ==> session_valid(sessions, token, secret, later_secs, later_ms)
            && middleware::token_gate(token, base, secret, sessions, later_secs, later_ms) is PassWith,
        ({
            let after = sessions_after_logout(sessions, token, now_ms);
            &&& !session_valid(after, token, secret, later_secs, later_ms)
            &&& middleware::token_gate(token, base, secret, after, later_secs, later_ms)
                == middleware::session_refusal()
        }),
{
    if middleware::verified(token, secret, later_secs) is Some {
        middleware::lemma_verified_has_dot(token, secret, later_secs);
    }
}

/// The reply to a question who is signed in.
pub fn handle_me(signed_in: bool, username: &str) -> (r: Reply)
    ensures
        if signed_in {
            r@ == (
                200u16,
                JsonView::Object(
                    map![
                        "authenticated"@ => JsonView::Bool(true),
                        "username"@ => JsonView::Text(username@),
                    ],
                ),
            )
        } else {
            r@ == (401u16, error::plain_error("Unauthorized"@))
        },
{
    if signed_in {
        Reply {
            status: 200,
            body: Json::object().with("authenticated", Json::Bool(true)).with(
                "username",
                Json::text(username),
            ),
        }
    } else {
        error::simple_error("Unauthorized", 401)
    }
}

/// Where the password hash of changed credentials comes from.
pub enum NewHash {
    /// From this password.
    Of(String),
    /// It is the stored one; where none is stored, it comes from this password.
    StoredOrOf(String),
}

/// The credentials that a request sets.
pub struct CredentialChange {
    pub username: String,
    pub hash: NewHash,
}

/// The new name that a request gives.
pub open spec fn new_name(body: JsonView) -> Option<Seq<char>> {
    match json::text_in(json::field(body, "username"@)) {
        Some(s) => if text::trimmed(s).len() > 0 {
            Some(text::trimmed(s))
        } else {
            None
        },
        None => None,
    }
}

/// The password that a request gives as the current one.
pub fn current_password(body: &Json) -> (r: String)
    ensures
        r@ == crate::routes::accounts::text_or_empty(body@, "current_password"@),
{
    match body.str_at("current_password") {
        Some(s) => s.to_owned(),
        None => {
            let none = String::new();
            assert(none@ =~= seq![]);
            none
        },
    }
}

/// The error reply to a request to change the credentials: a session and the current password are
/// asked for first, then something to change, then a password of four characters.
pub open spec fn change_error(body: JsonView, signed_in: bool, current_ok: bool) -> Option<
    (u16, JsonView),
> {
    let password = nonempty_at(body, "new_password"@);
    if !signed_in {
        Some((401u16, error::plain_error("Unauthorized"@)))
    } else if !current_ok {
        Some((401u16, error::plain_error("Current password is incorrect"@)))
    } else if new_name(body) is None && password is None {
        Some(
            (
                400u16,
                error::plain_error("Nothing to update: provide username and/or new_password"@),
            ),
        )
    } else if password is Some && password->0.len() < 4 {
        Some((400u16, error::plain_error("New password must be at least 4 characters"@)))
    } else {
        None
    }
}

/// Whether a change is the one that a request asks for: a name that is not given stays, and so does
/// the password.
pub open spec fn is_change(c: CredentialChange, body: JsonView, current_user: Seq<char>) -> bool {
    c.username@ == (match new_name(body) {
        Some(n) => n,
        None => current_user,
    }) && match nonempty_at(body, "new_password"@) {
        Some(p) => c.hash is Of && c.hash->Of_0@ == p,
        None => c.hash is StoredOrOf && c.hash->StoredOrOf_0@
            == crate::routes::accounts::text_or_empty(body, "current_password"@),
    }
}

/// Reads a request to change the credentials, given whether it comes with a session and whether the
/// current password is right.
pub fn handle_update_credentials(
    body: &Json,
    signed_in: bool,
    current_user: &str,
    current_ok: bool,
) -> (r: Result<CredentialChange, Reply>)
    ensures
        match change_error(body@, signed_in, current_ok) {
            Some(e) => r is Err && r->Err_0@ == e,
            None => r is Ok && is_change(r->Ok_0, body@, current_user@),
        },
{
    if !signed_in {
        return Err(error::simple_error("Unauthorized", 401));
    }
    if !current_ok {
        return Err(error::simple_error("Current password is incorrect", 401));
    }
    let name = match body.str_at("username") {
        Some(s) => {
            let t = text::trim(s);
            if t.as_str().is_empty() {
                None
            } else {
                Some(t)
            }
        },
        None => None,
    };
    let password = filled_at(body, "new_password");
    if name.is_none() && password.is_none() {
        return Err(
            error::simple_error("Nothing to update: provide username and/or new_password", 400),
        );
    }
    let hash = match password {
        Some(p) => {
            if text::chars_of(p).len() < 4 {
                return Err(
                    error::simple_error("New password must be at least 4 characters", 400),
                );
            }
            NewHash::Of(p.to_owned())
        },
        None => NewHash::StoredOrOf(current_password(body)),
    };
    let username = match name {
        Some(n) => n,
        None => current_user.to_owned(),
    };
    Ok(CredentialChange { username, hash })
}

/// The password that is to be hashed for a change: the new one; the current one where the name
/// alone changes and no hash is stored; none where the stored hash stays.
pub fn password_to_hash(change: &CredentialChange, stored: bool) -> (r: Option<&str>)
    ensures
        match change.hash {
            NewHash::Of(p) => r is Some && r->0@ == p@,
            NewHash::StoredOrOf(p) => if stored {
                r is None
            } else {
                r is Some && r->0@ == p@
            },
        },
{
    match &change.hash {
        NewHash::Of(p) => Some(p.as_str()),
        NewHash::StoredOrOf(p) => if stored {
            None
        } else {
            Some(p.as_str())
        },
    }
}

/// The credentials that are stored for a change. `hashed` is the hash that was made for it.
pub open spec fn stored_for(
    change: CredentialChange,
    stored_hash: Option<Seq<char>>,
    hashed: Seq<char>,
) -> CredentialsView {
    CredentialsView {
        username: change.username@,
        password_hash: match (change.hash, stored_hash) {
            (NewHash::StoredOrOf(_), Some(h)) => h,
            _ => hashed,
        },
    }
}

/// The credentials that are stored for a change. `hashed` is the hash that was made for it; it goes
/// unused where the stored one stays.
pub fn credentials_to_store(
    change: CredentialChange,
    stored_hash: Option<String>,
    hashed: String,
) -> (r: AdminCredentials)
    ensures
        r@ == stored_for(change, json::some_string(stored_hash), hashed@),
{
    let password_hash = match (change.hash, stored_hash) {
        (NewHash::StoredOrOf(_), Some(h)) => h,
        _ => hashed,
    };
    AdminCredentials { username: change.username, password_hash }
}

/// Whether a name and a password open a session. `has_hash` says which passwords have a hash.
pub open spec fn signs_in(
    stored: Option<CredentialsView>,
    configured_name: Option<Seq<char>>,
    configured_password: Option<Seq<char>>,
    has_hash: spec_fn(Seq<char>, Seq<char>) -> bool,
    username: Seq<char>,
    password: Seq<char>,
) -> bool {
    admitted(
        name_in_force(stored, configured_name),
        hash_in_force(stored),
        configured_password,
        username,
        password,
        has_hash(password, hash_in_force(stored)),
    )
}

/// The stored credentials after a request to change them: as they were where it is refused.
/// `hashed` is the hash that is made for the change.
pub open spec fn stored_after(
    stored: Option<CredentialsView>,
    configured_name: Option<Seq<char>>,
    configured_password: Option<Seq<char>>,
    has_hash: spec_fn(Seq<char>, Seq<char>) -> bool,
    signed_in: bool,
    body: JsonView,
    hashed: Seq<char>,
) -> Option<CredentialsView> {
    let current = name_in_force(stored, configured_name);
    let current_ok = signs_in(
        stored,
        configured_name,
        configured_password,
        has_hash,
        current,
        crate::routes::accounts::text_or_empty(body, "current_password"@),
    );
    if change_error(body, signed_in, current_ok) is Some {
        stored
    } else {
        Some(
            CredentialsView {
                username: match new_name(body) {
                    Some(n) => n,
                    None => current,
                },
                password_hash: match (nonempty_at(body, "new_password"@), stored) {
                    (None, Some(c)) => c.password_hash,
                    _ => hashed,
                },
            },
        )
    }
}

/// The change that a request asks for, once it is stored, is what is stored after the request.
pub proof fn lemma_change_is_stored(
    stored: Option<CredentialsView>,
    configured_name: Option<Seq<char>>,
    configured_password: Option<Seq<char>>,
    has_hash: spec_fn(Seq<char>, Seq<char>) -> bool,
    body: JsonView,
    change: CredentialChange,
    hashed: Seq<char>,
)
    requires
        is_change(change, body, name_in_force(stored, configured_name)),
        change_error(
            body,
            true,
            signs_in(
                stored,
                configured_name,
                configured_password,
                has_hash,
                name_in_force(stored, configured_name),
                crate::routes::accounts::text_or_empty(body, "current_password"@),
            ),
        ) is None,
    ensures
        stored_after(
            stored,
            configured_name,
            configured_password,
            has_hash,
            true,
            body,
            hashed,
        ) == Some(
            stored_for(
                change,
                match stored {
                    Some(c) => Some(c.password_hash),
                    None => None,
                },
                hashed,
            ),
        ),
{
}

/// Credentials change only for a session that shows the current password. From then on the new name
/// opens with the passwords that have the hash that was made, the new one among them; where the name
/// alone changes and credentials are stored, it opens with the passwords that opened before. The old
/// name, unless it stays, opens no more.
///
/// An empty hash counts as none: after it the configured password opens.
pub proof fn lemma_changed_credentials_decide(
    stored: Option<CredentialsView>,
    configured_name: Option<Seq<char>>,
    configured_password: Option<Seq<char>>,
    has_hash: spec_fn(Seq<char>, Seq<char>) -> bool,
    signed_in: bool,
    body: JsonView,
    hashed: Seq<char>,
    username: Seq<char>,
    password: Seq<char>,
)
    ensures
        ({
            let current = name_in_force(stored, configured_name);
            let given = crate::routes::accounts::text_or_empty(body, "current_password"@);
            let knows = signs_in(
                stored,
                configured_name,
                configured_password,
                has_hash,
                current,
                given,
            );
            let after = stored_after(
                stored,
                configured_name,
                configured_password,
                has_hash,
                signed_in,
                body,
                hashed,
            );
            let opens = signs_in(
                after,
                configured_name,
                configured_password,
                has_hash,
                username,
                password,
            );
            let refusal = change_error(body, signed_in, knows);
            let named = match new_name(body) {
                Some(n) => n,
                None => current,
            };
            let new_password = match nonempty_at(body, "new_password"@) {
                Some(n) => n,
                None => given,
            };
            &&& !signed_in ==> refusal == Some((401u16, error::plain_error("Unauthorized"@)))
            &&& signed_in && !knows ==> refusal == Some(
                (401u16, error::plain_error("Current password is incorrect"@)),
            )
            &&& refusal is Some ==> after == stored
            &&& refusal is None && username == named && password == new_password && hashed.len()
                > 0 && has_hash(new_password, hashed) ==> opens
            &&& refusal is None ==> opens == (username == named && match (
                nonempty_at(body, "new_password"@),
                stored,
            ) {
                (None, Some(_)) => signs_in(
                    stored,
                    configured_name,
                    configured_password,
                    has_hash,
                    current,
                    password,
                ),
                _ => if hashed.len() > 0 {
                    has_hash(password, hashed)
                } else {
                    password == plain_password(configured_password)
                },
            })
        }),
{
}

/// The reply to a request that changed the credentials.
pub fn credentials_reply(username: &str) -> (r: Reply)
    ensures
        r@ == (
            200u16,
            JsonView::Object(
                map![
                    "success"@ => JsonView::Bool(true),
                    "username"@ => JsonView::Text(username@),
                ],
            ),
        ),
{
    Reply {
        status: 200,
        body: Json::object().with("success", Json::Bool(true)).with(
            "username",
            Json::text(username),
        ),
    }
}

/// The administrator has the stored name; without one, the configured one unless that is blank; and
/// else the name `admin`.
pub proof fn lemma_admin_name(stored: Seq<char>, configured: Seq<char>, other: Option<Seq<char>>)
    ensures
        admin_name(Some(stored), other) == stored,
        text::trimmed(configured).len() > 0 ==> admin_name(None, Some(configured)) == configured,
        text::trimmed(configured).len() == 0 ==> admin_name(None, Some(configured)) == "admin"@,
        admin_name(None, None) == "admin"@,
        configured.len() > 0 ==> plain_password(Some(configured)) == configured,
        plain_password(Some(seq![])) == "admin"@,
        plain_password(None) == "admin"@,
{
}

/// Credentials are changed exactly where the request comes with a session and the current password,
/// and gives a name that is not blank or a password of at least four characters, and no shorter one.
pub proof fn lemma_when_credentials_change(
    body: Map<Seq<char>, JsonView>,
    signed_in: bool,
    current_ok: bool,
    name: Seq<char>,
    password: Seq<char>,
)
    requires
        json::holds(body, "username"@, JsonView::Text(name)),
        json::holds(body, "new_password"@, JsonView::Text(password)),
    ensures
        ({
            let e = change_error(JsonView::Object(body), signed_in, current_ok);
            &&& e is None <==> signed_in && current_ok && (password.len() >= 4 || password.len() == 0
                && text::trimmed(name).len() > 0)
            &&& !signed_in || !current_ok ==> e is Some && (e->0).0 == 401
            &&& signed_in && current_ok && e is Some ==> (e->0).0 == 400
        }),
{
}

/// A session is valid where its token is signed and not over, unless it was signed out, and where it is
/// listed as one that is not signed.
pub proof fn lemma_valid_sessions(
    sessions: Map<Seq<char>, Cached<()>>,
    token: Seq<char>,
    secret: Seq<char>,
    now_secs: int,
    now_ms: u64,
)
    ensures
        ({
            let listed = sessions.dom().contains(token) && sessions[token].expires > now_ms;
            let signed = middleware::verified(token, secret, now_secs) is Some;
            &&& text::occurs(token, "."@) ==> (session_valid(sessions, token, secret, now_secs, now_ms)
                <==> signed && !listed)
            &&& !text::occurs(token, "."@) && listed ==> session_valid(
                sessions,
                token,
                secret,
                now_secs,
                now_ms,
            )
            &&& !signed && !listed ==> !session_valid(sessions, token, secret, now_secs, now_ms)
        }),
{
}

/// Signing out clears the cookie at every path where signing in sets one.
pub proof fn lemma_cookies_are_cleared(token: Seq<char>, base: Seq<char>)
    ensures
        clearing_cookies(base).len() == middleware::session_cookies(token, base).len(),
        clearing_cookies(base)[0] == clearing_cookie("/"@),
        base.len() > 0 ==> clearing_cookies(base)[1] == clearing_cookie(base),
{
}

/// A change takes the name and the password that the request gives. Without a new password the stored
/// one stays, and where none is stored, the current one that the request gives is stored.
pub proof fn lemma_changes(
    c: CredentialChange,
    body: Map<Seq<char>, JsonView>,
    current_user: Seq<char>,
    name: Seq<char>,
    password: Seq<char>,
    stored: Option<Seq<char>>,
    hashed: Seq<char>,
)
    requires
        is_change(c, JsonView::Object(body), current_user),
    ensures
        json::holds(body, "username"@, JsonView::Text(name)) && text::trimmed(name).len() > 0
            ==> c.username@ == text::trimmed(name),
        !body.dom().contains("username"@) ==> c.username@ == current_user,
        json::holds(body, "new_password"@, JsonView::Text(password)) && password.len() > 0
            ==> c.hash is Of && c.hash->Of_0@ == password && stored_for(
            c,
            stored,
            hashed,
        ).password_hash == hashed,
        !body.dom().contains("new_password"@) && json::holds(
            body,
            "current_password"@,
            JsonView::Text(password),
        ) ==> c.hash is StoredOrOf && c.hash->StoredOrOf_0@ == password,
        !body.dom().contains("new_password"@) && stored is Some ==> stored_for(
            c,
            stored,
            hashed,
        ).password_hash == stored->0,
        !body.dom().contains("new_password"@) && stored is None ==> stored_for(
            c,
            stored,
            hashed,
        ).password_hash == hashed,
        stored_for(c, stored, hashed).username == c.username@,
{
}

} // verus!
