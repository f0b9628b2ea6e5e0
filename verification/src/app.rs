//! The state of the server, and what it decides of every request.

use vstd::prelude::*;
use crate::cache::{self, Cached, TtlCache};
use crate::error::{self, Reply};
use crate::json;
use crate::middleware::{self, AuthContext, HOT_CACHE_TTL_MS};
use crate::routes::models::available::ModelsCache;
use crate::routes::models::testing::{QueueView, TestQueueState};
use crate::routes::v1::aggregate::{self, AggregateResolution};
use crate::routes::v1::dispatch::ModelResolution;
use crate::text;

verus! {

/// What a key is good for, as long as that holds.
pub type CachedAuth = Cached<AuthContext>;

/// What a model name stands for, as long as that holds.
pub type CachedModel = Cached<ModelResolution>;

/// What an aggregate alias stands for, or that it is none, as long as that holds.
pub type CachedAggregate = Cached<Option<AggregateResolution>>;

/// Something that the terminal interface shows.
#[derive(Debug, Clone)]
pub enum TuiEvent {
    Request {
        timestamp: String,
        method: String,
        path: String,
        status: u16,
        latency_ms: i64,
        model: String,
    },
    Dispatch {
        timestamp: String,
        account: String,
        model: String,
        url: String,
        tag: Option<String>,
    },
    Retry { account: String, status: u16, message: String },
}

/// What the server keeps between requests, beside its database and its routers.
pub struct AppState {
    pub master_key: String,
    pub data_dir: String,
    pub base_path: String,
    pub test_queue: TestQueueState,
    pub models_cache: Option<ModelsCache>,
    pub auth_cache: TtlCache<AuthContext>,
    pub model_cache: TtlCache<ModelResolution>,
    pub aggregate_cache: TtlCache<Option<AggregateResolution>>,
    pub sessions: TtlCache<()>,
}

/// What an aggregate alias stands for, its active candidate one that is there.
pub open spec fn reconciled(res: Option<AggregateResolution>, active: nat) -> Option<
    AggregateResolution,
> {
    match res {
        Some(r) => Some(
            AggregateResolution {
                active: aggregate::first_candidate(active, r.candidates@.len()) as usize,
                ..r
            },
        ),
        None => None,
    }
}

impl AppState {
    /// Whether the caches are sound.
    pub open spec fn wf(&self) -> bool {
        &&& self.auth_cache.wf()
        &&& self.model_cache.wf()
        &&& self.aggregate_cache.wf()
        &&& self.sessions.wf()
    }

    /// Whether two states agree on all but what is known of model names.
    pub open spec fn same_but_models(&self, other: AppState) -> bool {
        &&& self.master_key == other.master_key
        &&& self.data_dir == other.data_dir
        &&& self.base_path == other.base_path
        &&& self.test_queue == other.test_queue
        &&& self.models_cache == other.models_cache
        &&& self.auth_cache == other.auth_cache
        &&& self.sessions == other.sessions
    }

    /// The state of a server that has just started.
    pub fn new(master_key: String, data_dir: String, base_path: String) -> (r: AppState)
        ensures
            r.wf(),
            r.master_key == master_key,
            r.data_dir == data_dir,
            r.base_path == base_path,
            r.test_queue@ == (QueueView {
                is_running: false,
                total: 0,
                current: 0,
                progress: 0,
                scope: seq![],
            }),
            r.models_cache is None,
            r.auth_cache@ == Map::<Seq<char>, CachedAuth>::empty(),
            r.model_cache@ == Map::<Seq<char>, CachedModel>::empty(),
            r.aggregate_cache@ == Map::<Seq<char>, CachedAggregate>::empty(),
            r.sessions@ == Map::<Seq<char>, Cached<()>>::empty(),
    {
        AppState {
            master_key,
            data_dir,
            base_path,
            test_queue: TestQueueState::default(),
            models_cache: None,
            auth_cache: TtlCache::new(),
            model_cache: TtlCache::new(),
            aggregate_cache: TtlCache::new(),
            sessions: TtlCache::new(),
        }
    }

    /// What is known of a model name. Nothing where it has to be looked up.
    pub fn resolve_model_cached(&self, key: &str, now: u64) -> (r: Option<&ModelResolution>)
        requires
            self.wf(),
        ensures
            match r {
                Some(m) => cache::live_value(self.model_cache@, key@, now) == Some(*m),
                None => cache::live_value(self.model_cache@, key@, now) is None,
            },
    {
        self.model_cache.get(key, now)
    }

    /// Notes what a model name stands for.
    pub fn model_resolved(&mut self, key: &str, resolution: ModelResolution, now: u64)
        requires
            old(self).wf(),
        ensures
            final(self).wf(),
            final(self).same_but_models(*old(self)),
            final(self).aggregate_cache == old(self).aggregate_cache,
            final(self).model_cache@ == cache::stored(
                old(self).model_cache@,
                key@,
                (Cached { value: resolution, expires: (now + HOT_CACHE_TTL_MS) as u128 }),
                now,
            ),
    {
        self.model_cache.store(key, resolution, now as u128 + HOT_CACHE_TTL_MS as u128, now);
    }

    /// What is known of an aggregate alias: what it stands for, or that it is none. Nothing where it
    /// has to be looked up.
    pub fn resolve_aggregate_cached(&self, key: &str, now: u64) -> (r: Option<
        &Option<AggregateResolution>,
    >)
        requires
            self.wf(),
        ensures
            match r {
                Some(a) => cache::live_value(self.aggregate_cache@, key@, now) == Some(*a),
                None => cache::live_value(self.aggregate_cache@, key@, now) is None,
            },
    {
        self.aggregate_cache.get(key, now)
    }

    /// Notes what an aggregate alias stands for. `active` is the candidate that the router has for
    /// it.
    pub fn aggregate_resolved(
        &mut self,
        key: &str,
        resolution: Option<AggregateResolution>,
        active: usize,
        now: u64,
    )
        requires
            old(self).wf(),
        ensures
            final(self).wf(),
            final(self).same_but_models(*old(self)),
            final(self).model_cache == old(self).model_cache,
            final(self).aggregate_cache@ == old(self).aggregate_cache@.insert(
                key@,
                (Cached {
                    value: reconciled(resolution, active as nat),
                    expires: (now + HOT_CACHE_TTL_MS) as u128,
                }),
            ),
    {
        let value = match resolution {
            Some(r) => {
                let at: usize = aggregate::begin_at(active, r.candidates.len());
                Some(
                    AggregateResolution {
                        alias: r.alias,
                        candidates: r.candidates,
                        active: at,
                        upstream_api: r.upstream_api,
                    },
                )
            },
            None => None,
        };
        self.aggregate_cache.insert(key, value, now as u128 + HOT_CACHE_TTL_MS as u128);
    }

    /// Forgets what an alias stands for, once its aggregate changed.
    pub fn invalidate_aggregate_cache(&mut self, key: &str)
        requires
            old(self).wf(),
        ensures
            final(self).wf(),
            final(self).same_but_models(*old(self)),
            final(self).model_cache@ == old(self).model_cache@.remove(key@),
            final(self).aggregate_cache@ == old(self).aggregate_cache@.remove(key@),
    {
        self.aggregate_cache.remove(key);
        self.model_cache.remove(key);
    }

    /// Forgets what an alias stands for, once it changed.
    pub fn invalidate_model_cache(&mut self, key: &str)
        requires
            old(self).wf(),
        ensures
            final(self).wf(),
            final(self).same_but_models(*old(self)),
            final(self).model_cache@ == old(self).model_cache@.remove(key@),
            final(self).aggregate_cache@ == old(self).aggregate_cache@.remove(key@),
    {
        self.model_cache.remove(key);
        self.aggregate_cache.remove(key);
    }

    /// Forgets what every key is good for.
    pub fn clear_auth_cache(&mut self)
        ensures
            final(self).auth_cache.wf(),
            final(self).auth_cache@ == Map::<Seq<char>, CachedAuth>::empty(),
            final(self).master_key == old(self).master_key,
            final(self).data_dir == old(self).data_dir,
            final(self).base_path == old(self).base_path,
            final(self).test_queue == old(self).test_queue,
            final(self).models_cache == old(self).models_cache,
            final(self).model_cache == old(self).model_cache,
            final(self).aggregate_cache == old(self).aggregate_cache,
            final(self).sessions == old(self).sessions,
    {
        self.auth_cache.clear();
    }
}

/// What is stored under a key is found there until it expires, and never afterwards.
pub proof fn lemma_cache_serves_until_expiry<V>(
    m: Map<Seq<char>, Cached<V>>,
    key: Seq<char>,
    value: V,
    now: u64,
    ttl: u64,
    later: u64,
)
    requires
        0 < ttl,
    ensures
        cache::live_value(
            cache::stored(m, key, (Cached { value, expires: (now + ttl) as u128 }), now),
            key,
            later,
        ) == (if later < now + ttl {
            Some(value)
        } else {
            None
        }),
        forall|other: Seq<char>|
            other != key && later >= now ==> #[trigger] cache::live_value(
                cache::stored(m, key, (Cached { value, expires: (now + ttl) as u128 }), now),
                other,
                later,
            ) == cache::live_value(m, other, later),
{
}

/// What is forgotten is not found again, and nothing else is forgotten.
pub proof fn lemma_forgotten<V>(m: Map<Seq<char>, Cached<V>>, key: Seq<char>, now: u64)
    ensures
        cache::live_value(m.remove(key), key, now) is None,
        forall|other: Seq<char>|
            other != key ==> #[trigger] cache::live_value(m.remove(key), other, now)
                == cache::live_value(m, other, now),
{
}

/// What a text says as a URI, in the form that the URI is written in; nothing where it is none.
pub uninterp spec fn uri_of(text: Seq<char>) -> Option<Seq<char>>;

/// Calls the `FromStr` of `http::Uri`, and writes what it gives.
#[verifier::external_body]
fn parse_uri(text: &str) -> (r: Option<String>)
    ensures
        json::some_string(r) == uri_of(text@),
{
    text.parse::<http::Uri>().ok().map(|u| u.to_string())
}

/// A URI with a doubled version prefix made a single one.
pub open spec fn gateway_uri(uri: Seq<char>) -> Seq<char> {
    if text::occurs(uri, "/v1/v1/"@) {
        match uri_of(text::replaced(uri, "/v1/v1/"@, "/v1/"@)) {
            Some(u) => u,
            None => uri,
        }
    } else {
        uri
    }
}

/// Makes a doubled version prefix of a URI a single one.
pub fn normalize_gateway_uri(uri: &str) -> (r: String)
    ensures
        r@ == gateway_uri(uri@),
{
    if text::contains(uri, "/v1/v1/") {
        proof {
            reveal_strlit("/v1/v1/");
        }
        match parse_uri(text::replace(uri, "/v1/v1/", "/v1/").as_str()) {
            Some(u) => u,
            None => uri.to_owned(),
        }
    } else {
        uri.to_owned()
    }
}

/// The status of a reply to a method that a path does not take.
pub fn method_not_allowed() -> (r: u16)
    ensures
        r == 405,
{
    405
}

/// The reply for a path that no route takes. Nothing where the web interface takes it.
pub fn fallback(path: &str, base: &str) -> (r: Option<Reply>)
    ensures
        r is Some <==> not_a_page(path@, base@),
        r is Some ==> r->0@.0 == 404,
        ({
            let effective = middleware::effective_path(path@, base@);
            if text::begins(effective, "/api/"@) || text::begins(effective, "/v1/"@) {
                r is Some && r->0@ == (
                    404u16,
                    error::openai_error("Not Found"@, "not_found"@, text::decimal(404)),
                )
            } else {
                r is None
            }
        }),
{
    let effective = middleware::strip_base(path, base);
    if text::starts_with(effective.as_str(), "/api/") || text::starts_with(
        effective.as_str(),
        "/v1/",
    ) {
        Some(error::not_found())
    } else {
        None
    }
}

/// Whether a path is that of a picture of the web interface.
pub open spec fn is_picture(path: Seq<char>) -> bool {
    text::ends(path, ".svg"@) || text::ends(path, ".ico"@) || text::ends(path, ".png"@)
}

/// The sign for the part of the server that a path belongs to.
pub open spec fn kind_sign(path: Seq<char>) -> Seq<char> {
    if text::begins(path, "/v1/chat/completions"@) || text::begins(path, "/v1/messages"@) {
        "💬"@
    } else if text::begins(path, "/v1"@) {
        "🚀"@
    } else if text::begins(path, "/api/models"@) || text::begins(path, "/api/health"@)
        || text::begins(path, "/api/activity"@) {
        "🤖"@
    } else if text::begins(path, "/api/accounts"@) || text::begins(path, "/api/auth"@) {
        "👤"@
    } else if text::begins(path, "/api/keys"@) {
        "🔑"@
    } else if text::begins(path, "/api/settings"@) || text::begins(path, "/api/export"@)
        || text::begins(path, "/api/import"@) {
        "⚙️"@
    } else if text::begins(path, "/api/system"@) {
        "🖥️"@
    } else {
        "🌐"@
    }
}

fn sign_of_kind(path: &str) -> (r: &'static str)
    ensures
        r@ == kind_sign(path@),
{
    if text::starts_with(path, "/v1/chat/completions") || text::starts_with(path, "/v1/messages") {
        "💬"
    } else if text::starts_with(path, "/v1") {
        "🚀"
    } else if text::starts_with(path, "/api/models") || text::starts_with(path, "/api/health")
        || text::starts_with(path, "/api/activity") {
        "🤖"
    } else if text::starts_with(path, "/api/accounts") || text::starts_with(path, "/api/auth") {
        "👤"
    } else if text::starts_with(path, "/api/keys") {
        "🔑"
    } else if text::starts_with(path, "/api/settings") || text::starts_with(path, "/api/export")
        || text::starts_with(path, "/api/import") {
        "⚙️"
    } else if text::starts_with(path, "/api/system") {
        "🖥️"
    } else {
        "🌐"
    }
}

/// The sign for a status.
pub open spec fn status_sign(status: u16) -> Seq<char> {
    if status < 300 {
        "✅"@
    } else if status < 500 {
        "⚠️"@
    } else {
        "❌"@
    }
}

fn sign_of_status(status: u16) -> (r: &'static str)
    ensures
        r@ == status_sign(status),
{
    if status < 300 {
        "✅"
    } else if status < 500 {
        "⚠️"
    } else {
        "❌"
    }
}

/// What is written of a request once it is answered.
pub struct RequestLog {
    pub line: String,
    /// Whether the terminal interface is told of the request here. It is told of gateway requests
    /// by their routes, which know the model.
    pub show: bool,
}

/// The line that is written of a request.
pub open spec fn log_line(
    method: Seq<char>,
    path: Seq<char>,
    base: Seq<char>,
    status: u16,
) -> Seq<char> {
    status_sign(status) + " "@ + text::decimal(status as nat) + " → "@ + kind_sign(
        middleware::effective_path(path, base),
    ) + " "@ + method + " "@ + path
}

/// What is written of a request once it is answered. Pictures are passed over.
pub fn request_log(method: &str, path: &str, base: &str, status: u16) -> (r: Option<RequestLog>)
    ensures
        match r {
            Some(l) => !is_picture(path@) && l.line@ == log_line(method@, path@, base@, status)
                && l.show == !text::begins(
                middleware::effective_path(path@, base@),
                "/v1/"@,
            ),
            None => is_picture(path@),
        },
{
    if text::ends_with(path, ".svg") || text::ends_with(path, ".ico") || text::ends_with(
        path,
        ".png",
    ) {
        return None;
    }
    let effective = middleware::strip_base(path, base);
    let line = sign_of_status(status).to_owned().concat(" ").concat(
        text::decimal_u64(status as u64).as_str(),
    ).concat(" → ").concat(sign_of_kind(effective.as_str())).concat(" ").concat(method).concat(
        " ",
    ).concat(path);
    Some(RequestLog { line, show: !text::starts_with(effective.as_str(), "/v1/") })
}

/// Whether a path that no route takes belongs to the API or to the gateway, not to the pages.
pub open spec fn not_a_page(path: Seq<char>, base: Seq<char>) -> bool {
    text::begins(middleware::effective_path(path, base), "/api/"@) || text::begins(
        middleware::effective_path(path, base),
        "/v1/"@,
    )
}

/// Whatever lies below `/api/` and `/v1/` is no page, also where the server is mounted under a base
/// path; all else is one.
pub proof fn lemma_pages(path: Seq<char>, base: Seq<char>)
    requires
        path.len() > 0,
    ensures
        "/api/"@.is_prefix_of(path) || "/v1/"@.is_prefix_of(path) <==> not_a_page(path, seq![]),
        "/api/"@.is_prefix_of(path) || "/v1/"@.is_prefix_of(path) <==> not_a_page(base + path, base),
{
    let n = base.len() as int;
    assert((base + path).subrange(0, n) =~= base);
    assert((base + path).skip(n) =~= path);
    if base.len() == 0 {
        assert(base + path =~= path);
    }
    assert(middleware::effective_path(base + path, base) == path);
    lemma_begins(path, "/api/"@);
    lemma_begins(path, "/v1/"@);
}

proof fn lemma_begins(s: Seq<char>, part: Seq<char>)
    ensures
        text::begins(s, part) <==> part.is_prefix_of(s),
{
    if part.is_prefix_of(s) {
        assert(s.subrange(0, part.len() as int) =~= part);
    } else if text::begins(s, part) {
        assert(part =~= s.subrange(0, part.len() as int));
    }
}

/// A request line without a doubled prefix stays as it is. One with it loses the double, wherever the
/// rest is a request line.
pub proof fn lemma_gateway_uri(uri: Seq<char>)
    ensures
        !text::occurs(uri, "/v1/v1/"@) ==> gateway_uri(uri) == uri,
        text::occurs(uri, "/v1/v1/"@) && uri_of(text::replaced(uri, "/v1/v1/"@, "/v1/"@)) is Some
            ==> gateway_uri(uri) == uri_of(text::replaced(uri, "/v1/v1/"@, "/v1/"@))->0,
        text::occurs(uri, "/v1/v1/"@) && uri_of(text::replaced(uri, "/v1/v1/"@, "/v1/"@)) is None
            ==> gateway_uri(uri) == uri,
{
}

/// Once the active candidate of an alias is known, only that is noted of it, and it is one of the
/// candidates.
pub proof fn lemma_reconciled(r: AggregateResolution, active: nat)
    ensures
        ({
            let after = reconciled(Some(r), active)->0;
            &&& after.alias == r.alias && after.candidates == r.candidates && after.upstream_api
                == r.upstream_api
            &&& r.candidates@.len() > 0 ==> after.active < r.candidates@.len()
            &&& active < r.candidates@.len() ==> after.active == active
        }),
        reconciled(None, active) is None,
{
    assert(r.candidates@.len() == r.candidates.len());
}

/// A request for a picture is known by the end of its path.
pub proof fn lemma_pictures(path: Seq<char>)
    ensures
        is_picture(path + ".svg"@) && is_picture(path + ".ico"@) && is_picture(path + ".png"@),
        !is_picture(path) ==> !".svg"@.is_suffix_of(path) && !".ico"@.is_suffix_of(path)
            && !".png"@.is_suffix_of(path),
{
    lemma_ends(path, ".svg"@);
    lemma_ends(path, ".ico"@);
    lemma_ends(path, ".png"@);
}

proof fn lemma_ends(s: Seq<char>, part: Seq<char>)
    ensures
        text::ends(s + part, part),
        part.is_suffix_of(s) ==> text::ends(s, part),
{
    let whole = s + part;
    assert(whole.subrange(whole.len() - part.len(), whole.len() as int) =~= part);
    if part.is_suffix_of(s) {
        assert(s.subrange(s.len() - part.len(), s.len() as int) =~= part);
    }
}

/// The line of a request ends with its method and its path, and shows its status.
pub proof fn lemma_log_line(method: Seq<char>, path: Seq<char>, base: Seq<char>, status: u16)
    ensures
        (" "@ + method + " "@ + path).is_suffix_of(log_line(method, path, base, status)),
        (status_sign(status) + " "@ + text::decimal(status as nat)).is_prefix_of(
            log_line(method, path, base, status),
        ),
        status < 300 ==> status_sign(status) == status_sign(200),
        300 <= status < 500 ==> status_sign(status) == status_sign(404),
        500 <= status ==> status_sign(status) == status_sign(500),
        status_sign(200) == "✅"@ && status_sign(404) == "⚠️"@ && status_sign(500) == "❌"@,
{
    let line = log_line(method, path, base, status);
    let end = " "@ + method + " "@ + path;
    let start = status_sign(status) + " "@ + text::decimal(status as nat);
    assert(line.subrange(line.len() - end.len(), line.len() as int) =~= end);
    assert(line.subrange(0, start.len() as int) =~= start);
}

/// The sign of a request tells what its path is for, whatever follows in the path.
pub proof fn lemma_kind_signs(rest: Seq<char>)
    ensures
        kind_sign("/v1/chat/completions"@ + rest) == "💬"@,
        kind_sign("/v1/messages"@ + rest) == "💬"@,
        !text::begins("/v1"@ + rest, "/v1/chat/completions"@) && !text::begins(
            "/v1"@ + rest,
            "/v1/messages"@,
        ) ==> kind_sign("/v1"@ + rest) == "🚀"@,
        kind_sign("/api/models"@ + rest) == "🤖"@,
        kind_sign("/api/health"@ + rest) == "🤖"@,
        kind_sign("/api/activity"@ + rest) == "🤖"@,
        kind_sign("/api/accounts"@ + rest) == "👤"@,
        kind_sign("/api/auth"@ + rest) == "👤"@,
        kind_sign("/api/keys"@ + rest) == "🔑"@,
        kind_sign("/api/settings"@ + rest) == "⚙️"@,
        kind_sign("/api/export"@ + rest) == "⚙️"@,
        kind_sign("/api/import"@ + rest) == "⚙️"@,
        kind_sign("/api/system"@ + rest) == "🖥️"@,
{
    reveal_strlit("/v1/chat/completions");
    reveal_strlit("/v1/messages");
    reveal_strlit("/v1");
    reveal_strlit("/api/models");
    reveal_strlit("/api/health");
    reveal_strlit("/api/activity");
    reveal_strlit("/api/accounts");
    reveal_strlit("/api/auth");
    reveal_strlit("/api/keys");
    reveal_strlit("/api/settings");
    reveal_strlit("/api/export");
    reveal_strlit("/api/import");
    reveal_strlit("/api/system");
    lemma_starts("/v1/chat/completions"@, rest);
    lemma_starts("/v1/messages"@, rest);
    lemma_starts("/v1"@, rest);
    lemma_starts("/api/models"@, rest);
    lemma_starts("/api/health"@, rest);
    lemma_starts("/api/activity"@, rest);
    lemma_starts("/api/accounts"@, rest);
    lemma_starts("/api/auth"@, rest);
    lemma_starts("/api/keys"@, rest);
    lemma_starts("/api/settings"@, rest);
    lemma_starts("/api/export"@, rest);
    lemma_starts("/api/import"@, rest);
    lemma_starts("/api/system"@, rest);
    lemma_not_gateway("/api/models"@ + rest);
    lemma_not_gateway("/api/health"@ + rest);
    lemma_not_gateway("/api/activity"@ + rest);
    lemma_not_gateway("/api/accounts"@ + rest);
    lemma_not_gateway("/api/auth"@ + rest);
    lemma_not_gateway("/api/keys"@ + rest);
    lemma_not_gateway("/api/settings"@ + rest);
    lemma_not_gateway("/api/export"@ + rest);
    lemma_not_gateway("/api/import"@ + rest);
    lemma_not_gateway("/api/system"@ + rest);
    lemma_apart("/api/accounts"@ + rest, "/api/models"@, 6);
    lemma_apart("/api/accounts"@ + rest, "/api/health"@, 5);
    lemma_apart("/api/accounts"@ + rest, "/api/activity"@, 7);
    lemma_apart("/api/auth"@ + rest, "/api/models"@, 5);
    lemma_apart("/api/auth"@ + rest, "/api/health"@, 5);
    lemma_apart("/api/auth"@ + rest, "/api/activity"@, 6);
    lemma_others("/api/keys"@ + rest);
    lemma_others("/api/settings"@ + rest);
    lemma_others("/api/export"@ + rest);
    lemma_others("/api/import"@ + rest);
    lemma_others("/api/system"@ + rest);
    lemma_apart("/api/settings"@ + rest, "/api/keys"@, 5);
    lemma_apart("/api/export"@ + rest, "/api/keys"@, 5);
    lemma_apart("/api/import"@ + rest, "/api/keys"@, 5);
    lemma_apart("/api/system"@ + rest, "/api/keys"@, 5);
    lemma_apart("/api/system"@ + rest, "/api/settings"@, 6);
    lemma_apart("/api/system"@ + rest, "/api/export"@, 5);
    lemma_apart("/api/system"@ + rest, "/api/import"@, 5);
}

proof fn lemma_starts(part: Seq<char>, rest: Seq<char>)
    ensures
        text::begins(part + rest, part),
{
    assert((part + rest).subrange(0, part.len() as int) =~= part);
}

proof fn lemma_apart(s: Seq<char>, part: Seq<char>, i: int)
    requires
        0 <= i < part.len(),
        i < s.len(),
        s[i] != part[i],
    ensures
        !text::begins(s, part),
{
    if text::begins(s, part) {
        assert(s.subrange(0, part.len() as int)[i] == part[i]);
    }
}

proof fn lemma_not_gateway(s: Seq<char>)
    requires
        s.len() > 1,
        s[1] == 'a',
    ensures
        !text::begins(s, "/v1"@),
        !text::begins(s, "/v1/chat/completions"@),
        !text::begins(s, "/v1/messages"@),
{
    reveal_strlit("/v1");
    reveal_strlit("/v1/chat/completions");
    reveal_strlit("/v1/messages");
    lemma_apart(s, "/v1"@, 1);
    lemma_apart(s, "/v1/chat/completions"@, 1);
    lemma_apart(s, "/v1/messages"@, 1);
}

proof fn lemma_others(s: Seq<char>)
    requires
        s.len() > 5,
        s[5] != 'm' && s[5] != 'h' && s[5] != 'a',
    ensures
        !text::begins(s, "/api/models"@),
        !text::begins(s, "/api/health"@),
        !text::begins(s, "/api/activity"@),
        !text::begins(s, "/api/accounts"@),
        !text::begins(s, "/api/auth"@),
{
    reveal_strlit("/api/models");
    reveal_strlit("/api/health");
    reveal_strlit("/api/activity");
    reveal_strlit("/api/accounts");
    reveal_strlit("/api/auth");
    lemma_apart(s, "/api/models"@, 5);
    lemma_apart(s, "/api/health"@, 5);
    lemma_apart(s, "/api/activity"@, 5);
    lemma_apart(s, "/api/accounts"@, 5);
    lemma_apart(s, "/api/auth"@, 5);
}

} // verus!
