//! What the gateway's dispatchers share: accounts, upstream requests, and the turns of a failover.

use vstd::prelude::*;
use crate::error::Reply;
use crate::json::{self, Json, JsonView};
use crate::middleware;
use crate::routes::v1::helpers;
use crate::text;

verus! {

/// A wire protocol of the gateway and of its upstreams.
#[derive(Clone, Copy, PartialEq, Eq, Structural, Debug)]
pub enum Protocol {
    Chat,
    Responses,
    Messages,
}

/// An upstream account, with the endpoint that serves each protocol where there is one.
pub struct Account {
    pub id: i64,
    pub alias: String,
    pub provider_id: String,
    pub api_key: String,
    pub openai_compatible: i64,
    pub base_url: Option<String>,
    pub anthropic_base_url: Option<String>,
    pub chat_endpoint: Option<String>,
    pub responses_endpoint: Option<String>,
    pub messages_endpoint: Option<String>,
}

/// What a requested model name stands for.
pub struct ModelResolution {
    pub provider_id: String,
    pub target_model: String,
    pub account_ids: Vec<i64>,
    pub preferred_account_id: Option<i64>,
    pub alias_name: Option<String>,
    pub upstream_api: String,
}

/// A request to an upstream.
pub struct ProviderRequest {
    pub method: String,
    pub url: String,
    pub headers: Vec<(String, String)>,
    pub body: Json,
}

/// The characters of a list of headers.
pub open spec fn headers_view(h: Seq<(String, String)>) -> Seq<(Seq<char>, Seq<char>)> {
    h.map_values(|p: (String, String)| (p.0@, p.1@))
}

/// The token counts of a request.
#[derive(Clone, Copy, PartialEq, Eq, Structural, Debug)]
pub struct Usage {
    pub input: i64,
    pub output: i64,
    pub cache_read: i64,
    pub cache_creation: i64,
}

/// What is logged of a request.
pub struct UsageLog {
    pub account_id: i64,
    pub model: String,
    pub provider_id: String,
    pub usage: Usage,
    pub error_message: Option<String>,
    pub response_body: Option<String>,
}

/// What is logged of a request, texts by their characters.
#[verifier::ext_equal]
pub struct UsageLogView {
    pub account_id: i64,
    pub model: Seq<char>,
    pub provider_id: Seq<char>,
    pub usage: Usage,
    pub error_message: Option<Seq<char>>,
    pub response_body: Option<Seq<char>>,
}

impl View for UsageLog {
    type V = UsageLogView;

    open spec fn view(&self) -> UsageLogView {
        UsageLogView {
            account_id: self.account_id,
            model: self.model@,
            provider_id: self.provider_id@,
            usage: self.usage,
            error_message: json::some_string(self.error_message),
            response_body: json::some_string(self.response_body),
        }
    }
}

/// Something to do beside the next action of a dispatch.
pub enum Effect {
    /// Tell the account router which account served the request, or that none did.
    Record { hit: Option<i64>, success: bool },
    /// Tell the aggregate router that a candidate failed.
    CandidateFailed(usize),
    /// Tell the aggregate router that a candidate answered.
    CandidateServed(usize),
    /// Tell the aggregate router which candidate served the request.
    Outcome(usize),
    /// Tell the aggregate router that no candidate served the request.
    AllFailed,
    /// Show that an account is given up.
    Retry { account: String, status: u16, message: String },
    /// Show that the request is finished.
    Finished { status: u16, model: String },
    /// Log the request.
    Log(UsageLog),
}

/// An effect, texts by their characters.
#[verifier::ext_equal]
pub enum EffectView {
    Record { hit: Option<i64>, success: bool },
    CandidateFailed(nat),
    CandidateServed(nat),
    Outcome(nat),
    AllFailed,
    Retry { account: Seq<char>, status: u16, message: Seq<char> },
    Finished { status: u16, model: Seq<char> },
    Log(UsageLogView),
}

impl View for Effect {
    type V = EffectView;

    open spec fn view(&self) -> EffectView {
        match *self {
            Effect::Record { hit, success } => EffectView::Record { hit, success },
            Effect::CandidateFailed(i) => EffectView::CandidateFailed(i as nat),
            Effect::CandidateServed(i) => EffectView::CandidateServed(i as nat),
            Effect::Outcome(i) => EffectView::Outcome(i as nat),
            Effect::AllFailed => EffectView::AllFailed,
            Effect::Retry { account, status, message } => EffectView::Retry {
                account: account@,
                status,
                message: message@,
            },
            Effect::Finished { status, model } => EffectView::Finished { status, model: model@ },
            Effect::Log(l) => EffectView::Log(l@),
        }
    }
}

/// The next action of a dispatch.
pub enum Action {
    /// Send the request of this account or candidate.
    Try(usize),
    /// Retry this account through its messages endpoint.
    TryMessages(usize),
    /// Relay the stream of this account's response.
    Relay(usize),
    /// Hand over the reply that the messages endpoint of this account gave.
    Deliver(usize),
    /// Start over with the plain dispatcher, at this protocol's endpoint.
    Redirect(Protocol),
    /// Answer with this reply.
    Answer(Reply),
    /// Answer with a status and a text.
    AnswerText(u16, String),
}

/// An action, texts and replies by their views.
#[verifier::ext_equal]
pub enum ActionView {
    Try(nat),
    TryMessages(nat),
    Relay(nat),
    Deliver(nat),
    Redirect(Protocol),
    Answer((u16, JsonView)),
    AnswerText(u16, Seq<char>),
}

impl View for Action {
    type V = ActionView;

    open spec fn view(&self) -> ActionView {
        match *self {
            Action::Try(i) => ActionView::Try(i as nat),
            Action::TryMessages(i) => ActionView::TryMessages(i as nat),
            Action::Relay(i) => ActionView::Relay(i as nat),
            Action::Deliver(i) => ActionView::Deliver(i as nat),
            Action::Redirect(p) => ActionView::Redirect(p),
            Action::Answer(r) => ActionView::Answer(r@),
            Action::AnswerText(s, t) => ActionView::AnswerText(s, t@),
        }
    }
}

/// One turn of a dispatch: what to do now, and what to do next.
pub struct Turn {
    pub effects: Vec<Effect>,
    pub action: Action,
}

/// A turn, effects and action by their views.
#[verifier::ext_equal]
pub struct TurnView {
    pub effects: Seq<EffectView>,
    pub action: ActionView,
}

/// The views of a list of effects.
pub open spec fn effects_view(s: Seq<Effect>) -> Seq<EffectView> {
    s.map_values(|e: Effect| e@)
}

impl View for Turn {
    type V = TurnView;

    open spec fn view(&self) -> TurnView {
        TurnView { effects: effects_view(self.effects@), action: self.action@ }
    }
}

/// Adds an effect to a list.
pub fn push_effect(effects: &mut Vec<Effect>, e: Effect)
    ensures
        effects_view(final(effects)@) == effects_view(old(effects)@).push(e@),
{
    effects.push(e);
    assert(effects_view(effects@) =~= effects_view(old(effects)@).push(e@));
}

/// The text of a status line: the code and its reason.
pub uninterp spec fn status_text(status: u16) -> Seq<char>;

/// Calls the `Display` of `http`'s `StatusCode`.
#[verifier::external_body]
pub(crate) fn status_line(status: u16) -> (r: String)
    requires
        100 <= status <= 999,
    ensures
        r@ == status_text(status),
{
    http::StatusCode::from_u16(status).expect("a status code").to_string()
}

/// Whether a status reports success.
pub open spec fn success(status: u16) -> bool {
    200 <= status <= 299
}

/// The account list that the chat and responses protocols may use: a Gemini account must offer
/// the OpenAI protocol.
pub open spec fn speaks_openai(a: Account) -> bool {
    a.provider_id@ != "gemini"@ || a.openai_compatible == 1
}

/// Keeps the accounts that offer the OpenAI protocol, in order.
pub fn openai_accounts(accounts: Vec<Account>) -> (r: Vec<Account>)
    ensures
        r@ == accounts@.filter(|a: Account| speaks_openai(a)),
{
    let ghost all = accounts@;
    let ghost pred = |a: Account| speaks_openai(a);
    let mut rest = accounts;
    let mut kept: Vec<Account> = Vec::new();
    // taken from the end, so that each account moves once
    let mut reversed: Vec<Account> = Vec::new();
    while rest.len() > 0
        invariant
            rest@ == all.take(rest@.len() as int),
            rest@.len() <= all.len(),
            reversed@ == all.skip(rest@.len() as int).reverse(),
        decreases rest@.len(),
    {
        let ghost n = rest@.len();
        let a = rest.pop().unwrap();
        assert(all.skip(n - 1).reverse() =~= all.skip(n as int).reverse().push(a));
        assert(all.take(n as int).drop_last() =~= all.take(n - 1));
        reversed.push(a);
    }
    assert(all.skip(0) =~= all);
    assert(all.take(0) =~= Seq::<Account>::empty());
    proof {
        reveal(Seq::filter);
        assert(all.take(0).filter(pred) =~= Seq::<Account>::empty());
    }
    let ghost total = all.len();
    while reversed.len() > 0
        invariant
            total == all.len(),
            reversed@.len() <= total,
            pred == (|a: Account| speaks_openai(a)),
            reversed@ == all.skip(total - reversed@.len()).reverse(),
            kept@ == all.take(total - reversed@.len()).filter(pred),
        decreases reversed@.len(),
    {
        let ghost done = total - reversed@.len();
        let a = reversed.pop().unwrap();
        proof {
            assert(all.skip(done)[0] == all[done]);
            assert(a == all[done]);
            assert(all.skip(done).reverse().drop_last() =~= all.skip(done + 1).reverse());
            assert(all.take(done + 1).drop_last() =~= all.take(done));
            reveal(Seq::filter);
        }
        if !text::same(a.provider_id.as_str(), "gemini") || a.openai_compatible == 1 {
            kept.push(a);
        }
    }
    assert(all.take(total as int) =~= all);
    kept
}

/// The name under which the account router remembers a resolution.
pub open spec fn router_key(alias: Option<Seq<char>>, provider: Seq<char>) -> Seq<char> {
    match alias {
        Some(n) => "alias:"@ + n,
        None => "provider:"@ + provider,
    }
}

/// The name under which the account router remembers a resolution.
pub fn dispatch_key(res: &ModelResolution) -> (r: String)
    ensures
        r@ == router_key(json::some_string(res.alias_name), res.provider_id@),
{
    match &res.alias_name {
        Some(n) => "alias:".to_owned().concat(n.as_str()),
        None => "provider:".to_owned().concat(res.provider_id.as_str()),
    }
}

/// The account that a resolution prefers: the one it names, else the first.
pub open spec fn preferred(named: Option<i64>, accounts: Seq<Account>) -> i64 {
    match named {
        Some(id) => id,
        None => if accounts.len() > 0 {
            accounts[0].id
        } else {
            0
        },
    }
}

/// The account that a resolution prefers.
pub fn preferred_account(res: &ModelResolution, accounts: &Vec<Account>) -> (r: i64)
    ensures
        r == preferred(res.preferred_account_id, accounts@),
{
    match res.preferred_account_id {
        Some(id) => id,
        None => if accounts.len() > 0 {
            accounts[0].id
        } else {
            0
        },
    }
}

/// How a dispatch is marked: as a probe, as one that does not begin with the preferred account, or
/// not at all.
pub open spec fn tag(is_probe: bool, ordered: Seq<Account>, preferred_id: i64) -> Option<Seq<char>> {
    if is_probe {
        Some("probe"@)
    } else if ordered.len() == 0 || ordered[0].id != preferred_id {
        Some("fallback"@)
    } else {
        None
    }
}

/// How a dispatch is marked.
pub fn dispatch_tag(is_probe: bool, ordered: &Vec<Account>, preferred_id: i64) -> (r: Option<String>)
    ensures
        json::some_string(r) == tag(is_probe, ordered@, preferred_id),
{
    if is_probe {
        Some("probe".to_owned())
    } else if ordered.len() == 0 || ordered[0].id != preferred_id {
        Some("fallback".to_owned())
    } else {
        None
    }
}

/// Which request a dispatcher serves; it decides the wording and the schema of early errors.
#[derive(Clone, Copy, PartialEq, Eq, Structural, Debug)]
pub enum Ingress {
    /// The plain dispatcher of the OpenAI protocols.
    OpenAi,
    /// The converting dispatcher, for a client of a protocol.
    Converting(Protocol),
    /// The plain dispatcher of the messages protocol.
    Anthropic,
}

/// Whether errors go out in the Anthropic schema.
pub open spec fn anthropic_schema(i: Ingress) -> bool {
    match i {
        Ingress::OpenAi => false,
        Ingress::Converting(p) => p == Protocol::Messages,
        Ingress::Anthropic => true,
    }
}

/// Whether errors go out in the Anthropic schema.
pub fn is_anthropic(i: Ingress) -> (r: bool)
    ensures
        r == anthropic_schema(i),
{
    match i {
        Ingress::OpenAi => false,
        Ingress::Converting(p) => match p {
            Protocol::Messages => true,
            _ => false,
        },
        Ingress::Anthropic => true,
    }
}

/// The message for a resolution without accounts.
pub open spec fn no_accounts_message(i: Ingress, model: Seq<char>) -> Seq<char> {
    match i {
        Ingress::Converting(_) => "No active accounts for model '"@ + model + "'"@,
        _ => "No active accounts available for model '"@ + model + "'"@,
    }
}

/// The message for a resolution none of whose accounts offers the OpenAI protocol.
pub open spec fn no_openai_message(i: Ingress, model: Seq<char>) -> Seq<char> {
    match i {
        Ingress::Converting(_) => "No Gemini-compatible accounts"@,
        _ => "No active accounts available for model '"@ + model
            + "' — Gemini accounts must enable OpenAI compatible mode"@,
    }
}

/// The reply of a dispatcher that cannot begin.
pub open spec fn unavailable(message: Seq<char>, i: Ingress) -> (u16, JsonView) {
    (503u16, middleware::dual_error(message, "server_error"@, 503, anthropic_schema(i)))
}

/// The accounts that a dispatcher chooses from. The messages dispatcher takes all of them.
pub open spec fn usable(i: Ingress, accounts: Seq<Account>) -> Seq<Account> {
    match i {
        Ingress::Anthropic => accounts,
        _ => accounts.filter(|a: Account| speaks_openai(a)),
    }
}

/// Which accounts serve a resolved model.
pub enum AccountsWanted<'a> {
    /// Those that the alias lists.
    Listed(&'a Vec<i64>),
    /// The active ones of a provider.
    OfProvider(&'a str),
}

/// Which accounts serve a resolved model: those that its alias lists, or all of its provider.
pub fn accounts_wanted(res: &ModelResolution) -> (r: AccountsWanted<'_>)
    ensures
        if res.account_ids@.len() > 0 {
            r is Listed && r->Listed_0@ == res.account_ids@
        } else {
            r is OfProvider && r->OfProvider_0@ == res.provider_id@
        },
{
    if res.account_ids.len() > 0 {
        AccountsWanted::Listed(&res.account_ids)
    } else {
        AccountsWanted::OfProvider(res.provider_id.as_str())
    }
}

/// The accounts that a dispatcher chooses from, or the reply where there are none.
pub fn usable_accounts(i: Ingress, res: &ModelResolution, accounts: Vec<Account>) -> (r: Result<
    Vec<Account>,
    Reply,
>)
    ensures
        if accounts@.len() == 0 {
            r is Err && r->Err_0@ == unavailable(no_accounts_message(i, res.target_model@), i)
        } else if usable(i, accounts@).len() == 0 {
            r is Err && r->Err_0@ == unavailable(no_openai_message(i, res.target_model@), i)
        } else {
            r is Ok && r->Ok_0@ == usable(i, accounts@)
        },
{
    if accounts.len() == 0 {
        let message = match i {
            Ingress::Converting(_) => "No active accounts for model '",
            _ => "No active accounts available for model '",
        };
        let message = message.to_owned().concat(res.target_model.as_str()).concat("'");
        return Err(middleware::send_error(message.as_str(), "server_error", 503, is_anthropic(i)));
    }
    match i {
        Ingress::Anthropic => Ok(accounts),
        _ => {
            let kept = openai_accounts(accounts);
            if kept.len() == 0 {
                let message = match i {
                    Ingress::Converting(_) => "No Gemini-compatible accounts".to_owned(),
                    _ => "No active accounts available for model '".to_owned().concat(
                        res.target_model.as_str(),
                    ).concat("' — Gemini accounts must enable OpenAI compatible mode"),
                };
                return Err(
                    middleware::send_error(message.as_str(), "server_error", 503, is_anthropic(i)),
                );
            }
            Ok(kept)
        },
    }
}

/// The reply of a dispatcher that failed before it began.
pub open spec fn server_error(message: Seq<char>, i: Ingress) -> (u16, JsonView) {
    (500u16, middleware::dual_error(message, "server_error"@, 500, anthropic_schema(i)))
}

/// The reply where the accounts could not be loaded.
pub fn accounts_failed(i: Ingress, error: &str) -> (r: Reply)
    ensures
        r@ == server_error("Failed to load accounts: "@ + error@, i),
{
    let message = "Failed to load accounts: ".to_owned().concat(error);
    middleware::send_error(message.as_str(), "server_error", 500, is_anthropic(i))
}

/// The reply where the model could not be resolved.
pub fn resolution_failed(i: Ingress, error: &str) -> (r: Reply)
    ensures
        r@ == server_error("Model resolution failed: "@ + error@, i),
{
    let message = "Model resolution failed: ".to_owned().concat(error);
    middleware::send_error(message.as_str(), "server_error", 500, is_anthropic(i))
}

/// The error reply to a request for a model, if it may not be served: the name, as sanitized, must
/// not be empty, and the key's policy must admit it.
pub open spec fn model_refusal(model: Option<Seq<char>>, policy: Seq<char>, i: Ingress) -> Option<
    (u16, JsonView),
> {
    match model {
        Some(name) if name.len() > 0 => if middleware::model_allowed(policy, name) {
            None
        } else {
            Some(not_allowed(name, anthropic_schema(i)))
        },
        _ => Some(
            (
                400u16,
                middleware::dual_error(
                    "Missing required field: model"@,
                    "invalid_request_error"@,
                    400,
                    anthropic_schema(i),
                ),
            ),
        ),
    }
}

/// The reply to a request for a model that the key's policy does not admit.
pub open spec fn not_allowed(model: Seq<char>, anthropic: bool) -> (u16, JsonView) {
    (
        401u16,
        middleware::dual_error(
            "Model '"@ + model + "' is not allowed for this API key"@,
            "permission_error"@,
            401,
            anthropic,
        ),
    )
}

/// Refuses a model that the key's policy does not admit.
pub fn refuse_model(model: &str, anthropic: bool) -> (r: Reply)
    ensures
        r@ == not_allowed(model@, anthropic),
{
    let message = "Model '".to_owned().concat(model).concat("' is not allowed for this API key");
    middleware::send_error(message.as_str(), "permission_error", 401, anthropic)
}

/// Decides whether a request for a model may be served, given its sanitized name where the body
/// has one.
pub fn admit_model(model: Option<&str>, allowed_models: &str, i: Ingress) -> (r: Result<(), Reply>)
    ensures
        match model_refusal(json::some_text(model), allowed_models@, i) {
            Some(v) => r is Err && r->Err_0@ == v,
            None => r is Ok,
        },
{
    if let Some(name) = model {
        if !name.is_empty() {
            if middleware::is_model_allowed(allowed_models, name) {
                return Ok(());
            }
            return Err(refuse_model(name, is_anthropic(i)));
        }
    }
    Err(
        middleware::send_error(
            "Missing required field: model",
            "invalid_request_error",
            400,
            is_anthropic(i),
        ),
    )
}

/// Whether a request asks for a stream.
pub open spec fn wants_stream(body: JsonView) -> bool {
    json::bool_in(json::field(body, "stream"@)) == Some(true)
}

/// Whether a request asks for a stream.
pub fn is_streaming(body: &Json) -> (r: bool)
    ensures
        r == wants_stream(body@),
        json::field(body@, "stream"@) matches Some(JsonView::Bool(b)) ==> r == b,
        !(body@ is Object) ==> !r,
        body@ is Object && !body@->Object_0.dom().contains("stream"@) ==> !r,
        body@ is Object && body@->Object_0.dom().contains("stream"@) && !(
        body@->Object_0["stream"@] is Bool) ==> !r,
{
    match body.get("stream") {
        Some(j) => match j.as_bool() {
            Some(b) => b,
            None => false,
        },
        None => false,
    }
}

/// A request body with its model replaced.
pub open spec fn with_model(body: JsonView, model: Seq<char>) -> JsonView {
    match body {
        JsonView::Object(m) => JsonView::Object(m.insert("model"@, JsonView::Text(model))),
        _ => JsonView::Object(map!["model"@ => JsonView::Text(model)]),
    }
}

/// Replaces the model of a request body.
pub fn set_model(body: &Json, model: &str) -> (r: Json)
    requires
        body@ is Object || body@ is Null,
    ensures
        r@ == with_model(body@, model@),
        json::field(r@, "model"@) == Some(JsonView::Text(model@)),
        forall|k: Seq<char>|
            k != "model"@ ==> #[trigger] json::field(r@, k) == json::field(body@, k),
{
    match body {
        Json::Object(_) => body.copy().with("model", Json::text(model)),
        _ => Json::object().with("model", Json::text(model)),
    }
}

/// The path that a protocol's requests go to, below the base URL.
pub open spec fn endpoint_text(p: Protocol) -> Seq<char> {
    match p {
        Protocol::Chat => "chat/completions"@,
        Protocol::Responses => "responses"@,
        Protocol::Messages => "v1/messages"@,
    }
}

/// The path that a protocol's requests go to, below the base URL.
pub fn endpoint_path(p: Protocol) -> (r: String)
    ensures
        r@ == endpoint_text(p),
{
    match p {
        Protocol::Chat => "chat/completions".to_owned(),
        Protocol::Responses => "responses".to_owned(),
        Protocol::Messages => "v1/messages".to_owned(),
    }
}

/// The endpoint that an account has for a protocol.
pub open spec fn own_endpoint(a: Account, p: Protocol) -> Option<Seq<char>> {
    match p {
        Protocol::Chat => json::some_string(a.chat_endpoint),
        Protocol::Responses => json::some_string(a.responses_endpoint),
        Protocol::Messages => json::some_string(a.messages_endpoint),
    }
}

/// The base URL of an account's requests in a protocol: its own endpoint, else a public one.
pub open spec fn target_base(a: Account, p: Protocol) -> Seq<char> {
    match own_endpoint(a, p) {
        Some(e) => e,
        None => if p == Protocol::Messages {
            "https://api.anthropic.com/v1"@
        } else if a.provider_id@ == "gemini"@ {
            "https://generativelanguage.googleapis.com/v1beta/openai"@
        } else {
            "https://api.openai.com/v1"@
        },
    }
}

/// The URL of an account's requests in a protocol.
pub open spec fn target_url(a: Account, p: Protocol) -> Seq<char> {
    helpers::base_url(target_base(a, p)) + "/"@ + endpoint_text(p)
}

/// The headers of a request in the OpenAI protocols.
pub open spec fn bearer_headers(api_key: Seq<char>) -> Seq<(Seq<char>, Seq<char>)> {
    seq![("content-type"@, "application/json"@), ("authorization"@, "Bearer "@ + api_key)]
}

pub(crate) fn bearer(api_key: &str) -> (r: Vec<(String, String)>)
    ensures
        headers_view(r@) == bearer_headers(api_key@),
{
    let mut h: Vec<(String, String)> = Vec::new();
    h.push(("content-type".to_owned(), "application/json".to_owned()));
    h.push(("authorization".to_owned(), "Bearer ".to_owned().concat(api_key)));
    assert(headers_view(h@) =~= bearer_headers(api_key@));
    h
}

/// The request that forwards a body to an account in a protocol. A messages request carries the
/// Anthropic headers that it is given.
pub fn forward_request(
    account: &Account,
    p: Protocol,
    body: Json,
    anthropic_headers: Vec<(String, String)>,
) -> (r: ProviderRequest)
    ensures
        r.method@ == "POST"@,
        r.url@ == target_url(*account, p),
        p == Protocol::Chat && account.chat_endpoint is Some ==> r.url@ == helpers::base_url(
            account.chat_endpoint->0@,
        ) + "/"@ + "chat/completions"@,
        p == Protocol::Responses && account.responses_endpoint is Some ==> r.url@
            == helpers::base_url(account.responses_endpoint->0@) + "/"@ + "responses"@,
        p == Protocol::Messages && account.messages_endpoint is Some ==> r.url@
            == helpers::base_url(account.messages_endpoint->0@) + "/"@ + "v1/messages"@,
        p == Protocol::Messages ==> r.headers == anthropic_headers,
        p != Protocol::Messages ==> headers_view(r.headers@) == bearer_headers(account.api_key@),
        r.body == body,
{
    let own = match p {
        Protocol::Chat => &account.chat_endpoint,
        Protocol::Responses => &account.responses_endpoint,
        Protocol::Messages => &account.messages_endpoint,
    };
    let gemini = text::same(account.provider_id.as_str(), "gemini");
    let messages = match p {
        Protocol::Messages => true,
        _ => false,
    };
    let base = match own {
        Some(e) => e.clone(),
        None => if messages {
            "https://api.anthropic.com/v1".to_owned()
        } else if gemini {
            "https://generativelanguage.googleapis.com/v1beta/openai".to_owned()
        } else {
            "https://api.openai.com/v1".to_owned()
        },
    };
    let url = helpers::normalize_base_url(base.as_str()).concat("/").concat(
        endpoint_path(p).as_str(),
    );
    let headers = if messages {
        anthropic_headers
    } else {
        bearer(account.api_key.as_str())
    };
    ProviderRequest { method: "POST".to_owned(), url, headers, body }
}

/// The tokens of a prompt that did not come from the cache.
pub open spec fn fresh(raw: int, cache_read: int) -> int {
    if raw > cache_read {
        raw - cache_read
    } else {
        0
    }
}

/// The tokens of a prompt that did not come from the cache.
pub fn fresh_tokens(raw: i64, cache_read: i64) -> (r: i64)
    requires
        i64::MIN <= raw - cache_read <= i64::MAX,
    ensures
        r == fresh(raw as int, cache_read as int),
        r >= 0,
        raw >= cache_read ==> r + cache_read == raw,
        raw < cache_read ==> r == 0,
{
    let d: i64 = raw - cache_read;
    if d > 0 {
        d
    } else {
        0
    }
}

/// The usage of an answer in an OpenAI protocol.
pub open spec fn openai_usage(raw: i64, output: i64, cache_read: i64) -> Usage {
    Usage {
        input: fresh(raw as int, cache_read as int) as i64,
        output,
        cache_read,
        cache_creation: 0,
    }
}

/// The usage of a request that was not served.
pub open spec fn no_usage() -> Usage {
    Usage { input: 0, output: 0, cache_read: 0, cache_creation: 0 }
}

/// What is remembered of an upstream that answered with an error.
pub open spec fn rejection_text(status: u16, body: Seq<char>) -> Seq<char> {
    "Provider returned "@ + status_text(status) + ": "@ + body
}

/// What is remembered of an upstream that answered with an error.
pub fn rejection(status: u16, body: &str) -> (r: String)
    requires
        100 <= status <= 999,
    ensures
        r@ == rejection_text(status, body@),
{
    "Provider returned ".to_owned().concat(status_line(status).as_str()).concat(": ").concat(body)
}

/// The answer that passes an upstream's error on: as JSON where it is JSON, else as text.
pub open spec fn passed_on(status: u16, body: Seq<char>, says: Option<JsonView>) -> ActionView {
    match says {
        Some(v) => ActionView::Answer((status, v)),
        None => ActionView::AnswerText(status, body),
    }
}

/// Passes an upstream's error on, given what it says as JSON.
pub fn pass_on(status: u16, body: &str, says: Option<Json>) -> (r: Action)
    ensures
        r@ == passed_on(
            status,
            body@,
            match says {
                Some(v) => Some(v@),
                None => None,
            },
        ),
{
    match says {
        Some(v) => Action::Answer(Reply { status, body: v }),
        None => Action::AnswerText(status, body.to_owned()),
    }
}

/// The reply of a dispatcher none of whose accounts or candidates answered.
pub open spec fn bad_gateway(message: Seq<char>, anthropic: bool) -> (u16, JsonView) {
    (502u16, middleware::dual_error(message, "upstream_error"@, 502, anthropic))
}

/// An answer is streamed exactly where the request holds the truth value true under `stream`.
pub proof fn lemma_streamed_as_asked(body: Map<Seq<char>, JsonView>, b: bool)
    ensures
        body.dom().contains("stream"@) && body["stream"@] == JsonView::Bool(b) ==> wants_stream(
            JsonView::Object(body),
        ) == b,
        !body.dom().contains("stream"@) ==> !wants_stream(JsonView::Object(body)),
        body.dom().contains("stream"@) && !(body["stream"@] is Bool) ==> !wants_stream(
            JsonView::Object(body),
        ),
{
}

/// A request goes to the endpoint that its account has for its protocol. What endpoints the account
/// has for other protocols, and all else that is stored of it, does not matter.
pub proof fn lemma_request_goes_to_its_endpoint(a: Account, b: Account)
    ensures
        a.chat_endpoint is Some ==> target_url(a, Protocol::Chat) == helpers::base_url(
            a.chat_endpoint->0@,
        ) + "/"@ + "chat/completions"@,
        a.responses_endpoint is Some ==> target_url(a, Protocol::Responses) == helpers::base_url(
            a.responses_endpoint->0@,
        ) + "/"@ + "responses"@,
        a.messages_endpoint is Some ==> target_url(a, Protocol::Messages) == helpers::base_url(
            a.messages_endpoint->0@,
        ) + "/"@ + "v1/messages"@,
        a.provider_id@ == b.provider_id@ && a.chat_endpoint == b.chat_endpoint ==> target_url(
            a,
            Protocol::Chat,
        ) == target_url(b, Protocol::Chat),
        a.provider_id@ == b.provider_id@ && a.responses_endpoint == b.responses_endpoint
            ==> target_url(a, Protocol::Responses) == target_url(b, Protocol::Responses),
        a.messages_endpoint == b.messages_endpoint ==> target_url(a, Protocol::Messages)
            == target_url(b, Protocol::Messages),
{
}

/// An account without an endpoint for a protocol is reached at a public address of its provider.
pub proof fn lemma_public_endpoints(a: Account)
    ensures
        a.messages_endpoint is None ==> target_url(a, Protocol::Messages) == helpers::base_url(
            "https://api.anthropic.com/v1"@,
        ) + "/"@ + "v1/messages"@,
        a.chat_endpoint is None && a.provider_id@ == "gemini"@ ==> target_url(a, Protocol::Chat)
            == helpers::base_url("https://generativelanguage.googleapis.com/v1beta/openai"@) + "/"@
            + "chat/completions"@,
        a.chat_endpoint is None && a.provider_id@ != "gemini"@ ==> target_url(a, Protocol::Chat)
            == helpers::base_url("https://api.openai.com/v1"@) + "/"@ + "chat/completions"@,
        a.responses_endpoint is None && a.provider_id@ == "gemini"@ ==> target_url(
            a,
            Protocol::Responses,
        ) == helpers::base_url("https://generativelanguage.googleapis.com/v1beta/openai"@) + "/"@
            + "responses"@,
        a.responses_endpoint is None && a.provider_id@ != "gemini"@ ==> target_url(
            a,
            Protocol::Responses,
        ) == helpers::base_url("https://api.openai.com/v1"@) + "/"@ + "responses"@,
{
}

/// An account shows its own key, and says that it sends JSON.
pub proof fn lemma_bearer_shows_the_key(key: Seq<char>, other: Seq<char>)
    ensures
        bearer_headers(key).contains(("authorization"@, "Bearer "@ + key)),
        bearer_headers(key).contains(("content-type"@, "application/json"@)),
        bearer_headers(key).len() == 2,
        bearer_headers(key) == bearer_headers(other) ==> key == other,
{
    let h = bearer_headers(key);
    assert(h[0] == ("content-type"@, "application/json"@));
    assert(h[1] == ("authorization"@, "Bearer "@ + key));
    if h == bearer_headers(other) {
        let n = "Bearer "@.len() as int;
        assert("Bearer "@ + key == "Bearer "@ + other) by {
            assert(h[1].1 == bearer_headers(other)[1].1);
        }
        assert(key =~= ("Bearer "@ + key).skip(n));
        assert(other =~= ("Bearer "@ + other).skip(n));
    }
}

/// Setting the model of a request leaves everything else as it was.
pub proof fn lemma_only_the_model_is_set(
    body: Map<Seq<char>,
    JsonView>,
    model: Seq<char>,
    key: Seq<char>,
)
    ensures
        with_model(JsonView::Object(body), model) is Object,
        ({
            let after = with_model(JsonView::Object(body), model)->Object_0;
            &&& after.dom().contains("model"@) && after["model"@] == JsonView::Text(model)
            &&& key != "model"@ ==> after.dom().contains(key) == body.dom().contains(key)
            &&& key != "model"@ && body.dom().contains(key) ==> after[key] == body[key]
        }),
{
}

/// A dispatcher may choose every account it is given, except that the OpenAI protocols are not
/// spoken to a Gemini account that does not offer them. The order stays.
pub proof fn lemma_usable_accounts(i: Ingress, accounts: Seq<Account>, k: int)
    requires
        0 <= k < accounts.len(),
    ensures
        usable(i, accounts).contains(accounts[k]) <==> (i == Ingress::Anthropic
            || accounts[k].provider_id@ != "gemini"@ || accounts[k].openai_compatible == 1),
        usable(i, accounts).len() <= accounts.len(),
        (forall|j: int| 0 <= j < accounts.len() ==> (#[trigger] accounts[j]).provider_id@
            != "gemini"@) ==> usable(i, accounts) == accounts,
{
    broadcast use vstd::seq_lib::group_filter_ensures;

    let pred = |a: Account| speaks_openai(a);
    if i != Ingress::Anthropic {
        accounts.lemma_filter_len(pred);
        if usable(i, accounts).contains(accounts[k]) {
            let m = choose|m: int|
                0 <= m < usable(i, accounts).len() && usable(i, accounts)[m] == accounts[k];
            assert(pred(accounts.filter(pred)[m]));
        } else if pred(accounts[k]) {
            assert(accounts.filter(pred).contains(accounts[k]));
        }
        if forall|j: int| 0 <= j < accounts.len() ==> (#[trigger] accounts[j]).provider_id@
            != "gemini"@ {
            lemma_all_kept(accounts, pred);
        }
    } else {
        assert(accounts.contains(accounts[k]));
    }
}

proof fn lemma_all_kept(accounts: Seq<Account>, pred: spec_fn(Account) -> bool)
    requires
        forall|j: int| 0 <= j < accounts.len() ==> pred(#[trigger] accounts[j]),
    ensures
        accounts.filter(pred) == accounts,
    decreases accounts.len(),
{
    reveal(Seq::filter);
    if accounts.len() > 0 {
        let rest = accounts.drop_last();
        assert forall|j: int| 0 <= j < rest.len() implies pred(#[trigger] rest[j]) by {
            assert(rest[j] == accounts[j]);
        }
        lemma_all_kept(rest, pred);
        assert(rest.push(accounts.last()) =~= accounts);
    } else {
        assert(accounts.filter(pred) =~= accounts);
    }
}

/// The router remembers an alias by its own name, whoever serves it, and a model without one by its
/// provider. No alias is mistaken for another, nor for a provider.
pub proof fn lemma_router_keys(
    alias: Seq<char>,
    other: Seq<char>,
    provider: Seq<char>,
    second: Seq<char>,
)
    ensures
        router_key(Some(alias), provider) == router_key(Some(other), second) <==> alias == other,
        router_key(None, provider) == router_key(None, second) <==> provider == second,
        router_key(Some(alias), provider) != router_key(None, second),
{
    reveal_strlit("alias:");
    reveal_strlit("provider:");
    let a = router_key(Some(alias), provider);
    let p = router_key(None, provider);
    assert(a.skip("alias:"@.len() as int) =~= alias);
    assert(router_key(Some(other), second).skip("alias:"@.len() as int) =~= other);
    assert(p.skip("provider:"@.len() as int) =~= provider);
    assert(router_key(None, second).skip("provider:"@.len() as int) =~= second);
    assert(a[0] == 'a');
    assert(router_key(None, second)[0] == 'p');
}

/// The account that is asked for by name is preferred, whether it is among those at hand or not;
/// where none is, it is the first of these.
pub proof fn lemma_preferred(named: Option<i64>, accounts: Seq<Account>)
    ensures
        named is Some ==> preferred(named, accounts) == named->0,
        named is None && accounts.len() > 0 ==> preferred(named, accounts) == accounts.first().id,
{
}

/// A dispatch is unmarked exactly where it is no probe and begins with the preferred account.
pub proof fn lemma_unmarked(is_probe: bool, ordered: Seq<Account>, preferred_id: i64)
    ensures
        tag(is_probe, ordered, preferred_id) is None <==> !is_probe && ordered.len() > 0
            && ordered.first().id == preferred_id,
        tag(is_probe, ordered, preferred_id) == Some("probe"@) <==> is_probe,
{
    reveal_strlit("probe");
    reveal_strlit("fallback");
    assert("probe"@.len() != "fallback"@.len());
}

/// Clients of the messages protocol get errors in the Anthropic schema, others in the OpenAI schema:
/// the one names its kind at the top, the other never does.
pub proof fn lemma_errors_fit_the_client(i: Ingress, message: Seq<char>)
    ensures
        anthropic_schema(Ingress::Anthropic),
        !anthropic_schema(Ingress::OpenAi),
        forall|p: Protocol| #[trigger]
            anthropic_schema(Ingress::Converting(p)) <==> p == Protocol::Messages,
        unavailable(message, i).0 == 503,
        server_error(message, i).0 == 500,
        bad_gateway(message, anthropic_schema(i)).0 == 502,
        json::field(unavailable(message, i).1, "type"@) is Some <==> anthropic_schema(i),
        json::field(server_error(message, i).1, "type"@) is Some <==> anthropic_schema(i),
        json::field(bad_gateway(message, anthropic_schema(i)).1, "type"@) is Some
            <==> anthropic_schema(i),
        middleware::message_of(unavailable(message, i).1) == Some(message),
        middleware::message_of(server_error(message, i).1) == Some(message),
        middleware::message_of(bad_gateway(message, anthropic_schema(i)).1) == Some(message),
{
    middleware::lemma_error_shape(message, "server_error"@, 503, anthropic_schema(i));
    middleware::lemma_error_shape(message, "server_error"@, 500, anthropic_schema(i));
    middleware::lemma_error_shape(message, "upstream_error"@, 502, anthropic_schema(i));
}

/// A model is served exactly where the request names one and the key's policy admits it. Without a
/// name the request is at fault; with a name that is not admitted, the key is.
pub proof fn lemma_admission(model: Option<Seq<char>>, policy: Seq<char>, i: Ingress)
    ensures
        model_refusal(model, policy, i) is None <==> model is Some && model->0.len() > 0
            && middleware::model_allowed(policy, model->0),
        ({
            let refusal = model_refusal(model, policy, i);
            refusal is Some ==> (refusal->0).0 == (if model is None || model->0.len() == 0 {
                400u16
            } else {
                401u16
            })
        }),
{
}

/// An upstream's error keeps its status, and what it says: as JSON where it is JSON.
pub proof fn lemma_passed_on(status: u16, body: Seq<char>, says: Option<JsonView>)
    ensures
        says is Some ==> passed_on(status, body, says) == ActionView::Answer((status, says->0)),
        says is None ==> passed_on(status, body, says) == ActionView::AnswerText(status, body),
{
}

/// The tokens that did not come from the cache and those that did make the prompt.
pub proof fn lemma_fresh(raw: int, cached: int)
    ensures
        fresh(raw, cached) >= 0,
        raw >= cached ==> fresh(raw, cached) + cached == raw,
        raw < cached ==> fresh(raw, cached) == 0,
{
}

/// The status that an action answers the client with. Nothing where it does not answer.
pub open spec fn answer_status(a: ActionView) -> Option<u16> {
    match a {
        ActionView::Answer(r) => Some(r.0),
        ActionView::AnswerText(status, _) => Some(status),
        _ => None,
    }
}

/// A request that no account can serve is told its model, and where it is for want of an account that
/// speaks the protocol, that too.
pub proof fn lemma_unavailable_models(i: Ingress, model: Seq<char>)
    ensures
        text::occurs(no_accounts_message(i, model), "'"@ + model + "'"@),
        i is Converting || text::occurs(no_openai_message(i, model), "'"@ + model + "'"@),
        i is Converting ==> no_openai_message(i, model) == "No Gemini-compatible accounts"@,
{
    reveal_strlit("No active accounts for model '");
    reveal_strlit("No active accounts available for model '");
    reveal_strlit("' — Gemini accounts must enable OpenAI compatible mode");
    reveal_strlit("'");
    let named = "'"@ + model + "'"@;
    let a = no_accounts_message(i, model);
    let from = if i is Converting {
        29int
    } else {
        39int
    };
    assert(a.subrange(from, from + named.len()) =~= named);
    assert(text::occurs_at(a, named, from));
    if !(i is Converting) {
        let b = no_openai_message(i, model);
        assert(b.subrange(39, 39 + named.len() as int) =~= named);
        assert(text::occurs_at(b, named, 39));
    }
}

/// An error in the OpenAI schema gives its status as its code, and every error says what kind it is.
pub proof fn lemma_error_codes(message: Seq<char>, i: Ingress, model: Seq<char>)
    ensures
        ({
            let code = |r: (u16, JsonView)|
                json::field(json::field(r.1, "error"@)->0, "code"@);
            let kind = |r: (u16, JsonView)|
                json::field(json::field(r.1, "error"@)->0, "type"@);
            let own = |r: (u16, JsonView)| code(r) == Some(JsonView::Text(text::decimal(r.0 as nat)));
            &&& kind(unavailable(message, i)) == Some(JsonView::Text("server_error"@))
            &&& kind(server_error(message, i)) == Some(JsonView::Text("server_error"@))
            &&& kind(bad_gateway(message, anthropic_schema(i))) == Some(
                JsonView::Text("upstream_error"@),
            )
            &&& kind(not_allowed(model, anthropic_schema(i))) == Some(
                JsonView::Text("permission_error"@),
            )
            &&& kind(model_refusal(None, message, i)->0) == Some(
                JsonView::Text("invalid_request_error"@),
            )
            &&& not_allowed(model, anthropic_schema(i)).0 == 401
            &&& !anthropic_schema(i) ==> own(unavailable(message, i)) && own(server_error(message, i))
                && own(bad_gateway(message, false)) && own(not_allowed(model, false)) && own(
                model_refusal(None, message, i)->0,
            )
        }),
{
    let a = anthropic_schema(i);
    middleware::lemma_error_shape(message, "server_error"@, 503, a);
    middleware::lemma_error_shape(message, "server_error"@, 500, a);
    middleware::lemma_error_shape(message, "upstream_error"@, 502, a);
    middleware::lemma_error_shape(
        "Model '"@ + model + "' is not allowed for this API key"@,
        "permission_error"@,
        401,
        a,
    );
    middleware::lemma_error_shape(
        "Missing required field: model"@,
        "invalid_request_error"@,
        400,
        a,
    );
}

} // verus!
