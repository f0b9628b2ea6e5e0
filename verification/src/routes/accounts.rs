//! Accounts: what a request may create or change, and how accounts are listed.

use vstd::prelude::*;
use crate::error::{self, Reply};
use crate::json::{self, Json, JsonView};
use crate::text;

verus! {

broadcast use crate::json::lemma_elements_view;

/// Whether a text is a URL.
pub uninterp spec fn is_url(text: Seq<char>) -> bool;

/// Calls `url`'s `Url::parse`, and says whether it succeeds.
#[verifier::external_body]
fn url_parses(text: &str) -> (r: bool)
    ensures
        r == is_url(text@),
{
    url::Url::parse(text).is_ok()
}

/// An account as it is to be stored, its secrets in plain.
pub struct NewAccount {
    pub alias: String,
    pub provider_id: String,
    pub api_key: String,
    pub base_url: Option<String>,
    pub anthropic_base_url: Option<String>,
    pub is_active: i64,
    pub weight: i64,
    pub notes: Option<String>,
    pub openai_compatible: i64,
    pub chat_endpoint: Option<String>,
    pub responses_endpoint: Option<String>,
    pub messages_endpoint: Option<String>,
    pub default_protocol: String,
    pub balance_provider: String,
    pub balance_auth: String,
    pub skip_validation: bool,
}

/// An account as it is to be stored, texts by their characters.
#[verifier::ext_equal]
pub struct NewAccountView {
    pub alias: Seq<char>,
    pub provider_id: Seq<char>,
    pub api_key: Seq<char>,
    pub base_url: Option<Seq<char>>,
    pub anthropic_base_url: Option<Seq<char>>,
    pub is_active: i64,
    pub weight: i64,
    pub notes: Option<Seq<char>>,
    pub openai_compatible: i64,
    pub endpoints: Endpoints,
    pub default_protocol: Seq<char>,
    pub balance_provider: Seq<char>,
    pub balance_auth: Seq<char>,
    pub skip_validation: bool,
}

/// The endpoints of an account, one for each protocol that it serves.
#[verifier::ext_equal]
pub struct Endpoints {
    pub chat: Option<Seq<char>>,
    pub responses: Option<Seq<char>>,
    pub messages: Option<Seq<char>>,
}

impl View for NewAccount {
    type V = NewAccountView;

    open spec fn view(&self) -> NewAccountView {
        NewAccountView {
            alias: self.alias@,
            provider_id: self.provider_id@,
            api_key: self.api_key@,
            base_url: json::some_string(self.base_url),
            anthropic_base_url: json::some_string(self.anthropic_base_url),
            is_active: self.is_active,
            weight: self.weight,
            notes: json::some_string(self.notes),
            openai_compatible: self.openai_compatible,
            endpoints: Endpoints {
                chat: json::some_string(self.chat_endpoint),
                responses: json::some_string(self.responses_endpoint),
                messages: json::some_string(self.messages_endpoint),
            },
            default_protocol: self.default_protocol@,
            balance_provider: self.balance_provider@,
            balance_auth: self.balance_auth@,
            skip_validation: self.skip_validation,
        }
    }
}

/// The text of a member; empty where there is none.
pub open spec fn text_or_empty(body: JsonView, key: Seq<char>) -> Seq<char> {
    match json::text_in(json::field(body, key)) {
        Some(s) => s,
        None => seq![],
    }
}

fn string_at(body: &Json, key: &str) -> (r: String)
    ensures
        r@ == text_or_empty(body@, key@),
{
    match body.str_at(key) {
        Some(s) => s.to_owned(),
        None => {
            let none = String::new();
            assert(none@ =~= seq![]);
            none
        },
    }
}

fn optional_string(body: &Json, key: &str) -> (r: Option<String>)
    ensures
        json::some_string(r) == json::text_in(json::field(body@, key@)),
{
    match body.str_at(key) {
        Some(s) => Some(s.to_owned()),
        None => None,
    }
}

/// The number of a member, or another where there is none.
pub open spec fn i64_or(body: JsonView, key: Seq<char>, default: i64) -> i64 {
    match json::i64_in(json::field(body, key)) {
        Some(n) => n,
        None => default,
    }
}

fn number_at(body: &Json, key: &str, default: i64) -> (r: i64)
    ensures
        r == i64_or(body@, key@, default),
{
    match body.get(key) {
        Some(j) => match j.as_i64() {
            Some(n) => n,
            None => default,
        },
        None => default,
    }
}

/// Whether the upstream is not asked before an account is saved.
pub open spec fn skips_validation(body: JsonView) -> bool {
    match json::bool_in(json::field(body, "skip_validation"@)) {
        Some(b) => b,
        None => true,
    }
}

fn skip_validation(body: &Json) -> (r: bool)
    ensures
        r == skips_validation(body@),
{
    match body.get("skip_validation") {
        Some(j) => match j.as_bool() {
            Some(b) => b,
            None => true,
        },
        None => true,
    }
}

/// Whether a text names a way to query balances, or the lack of one.
pub open spec fn balance_kind(s: Seq<char>) -> bool {
    ||| s == "deepseek"@
    ||| s == "copilot"@
    ||| s == "openrouter"@
    ||| s == "commandcode"@
    ||| s == "opencode"@
    ||| s == "opencode-go"@
    ||| s == "opencode_go"@
    ||| s == "opencode-zen"@
    ||| s == "opencode_zen"@
    ||| s == "zen"@
    ||| s == "api123"@
    ||| s == "bailian"@
    ||| s == "dashscope"@
    ||| s == "aliyun"@
    ||| s == "none"@
}

/// Whether a text may be stored as the way to query balances: empty leaves it to detection.
pub open spec fn valid_balance_provider(s: Seq<char>) -> bool {
    s.len() == 0 || balance_kind(s)
}

/// Whether a text, trimmed and in lowercase, may be stored as the way to query balances.
pub fn check_balance_provider(s: &str) -> (r: bool)
    ensures
        r == valid_balance_provider(s@),
{
    s.is_empty() || text::same(s, "deepseek") || text::same(s, "copilot") || text::same(
        s,
        "openrouter",
    ) || text::same(s, "commandcode") || text::same(s, "opencode") || text::same(s, "opencode-go")
        || text::same(s, "opencode_go") || text::same(s, "opencode-zen") || text::same(
        s,
        "opencode_zen",
    ) || text::same(s, "zen") || text::same(s, "api123") || text::same(s, "bailian") || text::same(
        s,
        "dashscope",
    ) || text::same(s, "aliyun") || text::same(s, "none")
}

/// A text trimmed and in lowercase.
pub open spec fn lowered(s: Seq<char>) -> Seq<char> {
    text::lowercase(text::trimmed(s))
}

fn lower(s: &str) -> (r: String)
    ensures
        r@ == lowered(s@),
{
    text::to_lowercase(text::trim(s).as_str())
}

/// The way to query balances that a request to create an account gives.
pub open spec fn given_balance_provider(body: JsonView) -> Seq<char> {
    match json::text_in(json::field(body, "balance_provider"@)) {
        Some(s) => lowered(s),
        None => seq![],
    }
}

/// An endpoint that a text gives: none where it is blank.
pub open spec fn endpoint_in(s: Seq<char>) -> Option<Seq<char>> {
    if text::trimmed(s).len() == 0 {
        None
    } else {
        Some(text::trimmed(s))
    }
}

fn endpoint_of(s: &str) -> (r: Option<String>)
    ensures
        json::some_string(r) == endpoint_in(s@),
{
    let t = text::trim(s);
    if t.as_str().is_empty() {
        None
    } else {
        Some(t)
    }
}

/// An endpoint of a new account: null and blank switch the protocol off; where nothing usable is
/// given, an older field stands in.
pub open spec fn new_endpoint(v: Option<JsonView>, older: Option<Seq<char>>) -> Option<Seq<char>> {
    match v {
        Some(JsonView::Null) => None,
        Some(JsonView::Text(s)) => endpoint_in(s),
        _ => older,
    }
}

fn choose_endpoint(v: Option<&Json>, older: &Option<String>) -> (r: Option<String>)
    ensures
        json::some_string(r) == new_endpoint(json::some_view(v), json::some_string(*older)),
{
    match v {
        Some(j) => match j {
            Json::Null => None,
            Json::Text(s) => endpoint_of(s.as_str()),
            _ => older.clone(),
        },
        None => older.clone(),
    }
}

/// The endpoints of a new account.
pub open spec fn new_endpoints(body: JsonView) -> Endpoints {
    Endpoints {
        chat: new_endpoint(
            json::field(body, "chat_endpoint"@),
            json::text_in(json::field(body, "base_url"@)),
        ),
        responses: new_endpoint(json::field(body, "responses_endpoint"@), None),
        messages: new_endpoint(
            json::field(body, "messages_endpoint"@),
            json::text_in(json::field(body, "anthropic_base_url"@)),
        ),
    }
}

/// Whether an endpoint is there and not blank.
pub open spec fn enabled(e: Option<Seq<char>>) -> bool {
    match e {
        Some(s) => text::trimmed(s).len() > 0,
        None => false,
    }
}

fn is_enabled(e: &Option<String>) -> (r: bool)
    ensures
        r == enabled(json::some_string(*e)),
{
    match e {
        Some(s) => !text::trim(s.as_str()).as_str().is_empty(),
        None => false,
    }
}

/// Whether a protocol, by its name, is served.
pub open spec fn serves(e: Endpoints, protocol: Seq<char>) -> bool {
    ||| protocol == "chat"@ && enabled(e.chat)
    ||| protocol == "responses"@ && enabled(e.responses)
    ||| protocol == "messages"@ && enabled(e.messages)
}

/// Whether some protocol is served.
pub open spec fn serves_any(e: Endpoints) -> bool {
    enabled(e.chat) || enabled(e.responses) || enabled(e.messages)
}

/// Whether a text names a protocol.
pub open spec fn protocol_name(s: Seq<char>) -> bool {
    s == "chat"@ || s == "responses"@ || s == "messages"@
}

/// A default protocol as it is stored: any other text stands for chat.
pub open spec fn known_protocol(s: Seq<char>) -> Seq<char> {
    if protocol_name(s) {
        s
    } else {
        "chat"@
    }
}

/// A default protocol as it is stored, given the text trimmed and in lowercase.
pub fn normalize_protocol(s: String) -> (r: String)
    ensures
        r@ == known_protocol(s@),
{
    if text::same(s.as_str(), "chat") || text::same(s.as_str(), "responses") || text::same(
        s.as_str(),
        "messages",
    ) {
        s
    } else {
        "chat".to_owned()
    }
}

/// The text of the default protocol that a request gives, trimmed and in lowercase.
pub open spec fn given_protocol(body: JsonView) -> Seq<char> {
    match json::text_in(json::field(body, "default_protocol"@)) {
        Some(s) => lowered(s),
        None => "chat"@,
    }
}

fn protocol_of(body: &Json) -> (r: String)
    ensures
        r@ == given_protocol(body@),
{
    match body.str_at("default_protocol") {
        Some(s) => lower(s),
        None => "chat".to_owned(),
    }
}

/// The first endpoint, in the order chat, responses, messages, that is there and not sound.
pub open spec fn first_unsound(e: Endpoints, chat: bool, responses: bool, messages: bool) -> Option<
    Seq<char>,
> {
    if e.chat is Some && !chat {
        e.chat
    } else if e.responses is Some && !responses {
        e.responses
    } else if e.messages is Some && !messages {
        e.messages
    } else {
        None
    }
}

/// The first endpoint, in the order chat, responses, messages, that is no URL.
pub open spec fn first_bad_url(e: Endpoints) -> Option<Seq<char>> {
    first_unsound(
        e,
        e.chat is Some && is_url(e.chat->0),
        e.responses is Some && is_url(e.responses->0),
        e.messages is Some && is_url(e.messages->0),
    )
}

/// Which endpoints of an account are sound.
pub struct EndpointCheck {
    pub chat: bool,
    pub responses: bool,
    pub messages: bool,
}

/// The error reply for the first endpoint that is there and not sound.
pub fn check_endpoints(
    chat: &Option<String>,
    responses: &Option<String>,
    messages: &Option<String>,
    sound: EndpointCheck,
) -> (r: Option<Reply>)
    ensures
        match first_unsound(
            Endpoints {
                chat: json::some_string(*chat),
                responses: json::some_string(*responses),
                messages: json::some_string(*messages),
            },
            sound.chat,
            sound.responses,
            sound.messages,
        ) {
            Some(u) => r is Some && r->0@ == bad_request("Invalid endpoint URL: "@ + u),
            None => r is None,
        },
{
    if let Some(e) = chat {
        if !sound.chat {
            return Some(url_error(e.as_str()));
        }
    }
    if let Some(e) = responses {
        if !sound.responses {
            return Some(url_error(e.as_str()));
        }
    }
    if let Some(e) = messages {
        if !sound.messages {
            return Some(url_error(e.as_str()));
        }
    }
    None
}

fn is_sound(endpoint: &Option<String>) -> (r: bool)
    ensures
        r == (*endpoint is Some && is_url(endpoint->0@)),
{
    match endpoint {
        Some(e) => url_parses(e.as_str()),
        None => false,
    }
}

fn bad_url(chat: &Option<String>, responses: &Option<String>, messages: &Option<String>) -> (r: Option<
    Reply,
>)
    ensures
        match first_bad_url(
            Endpoints {
                chat: json::some_string(*chat),
                responses: json::some_string(*responses),
                messages: json::some_string(*messages),
            },
        ) {
            Some(u) => r is Some && r->0@ == bad_request("Invalid endpoint URL: "@ + u),
            None => r is None,
        },
{
    let sound = EndpointCheck {
        chat: is_sound(chat),
        responses: is_sound(responses),
        messages: is_sound(messages),
    };
    check_endpoints(chat, responses, messages, sound)
}

/// A bad request with a message.
pub open spec fn bad_request(message: Seq<char>) -> (u16, JsonView) {
    (400u16, error::plain_error(message))
}

/// The error reply to a request to create an account: the first check that fails. `balance` and
/// `protocol` are what the request gives for these, trimmed and in lowercase.
pub open spec fn draft_error(body: JsonView, balance: Seq<char>, protocol: Seq<char>) -> Option<
    (u16, JsonView),
> {
    let e = new_endpoints(body);
    if json::field(body, "alias"@) is None || json::field(body, "provider_id"@) is None
        || json::field(body, "api_key"@) is None {
        Some(bad_request("Missing required fields: alias, provider_id, api_key"@))
    } else if !valid_balance_provider(balance) {
        Some(bad_request("Invalid balance_provider: "@ + balance))
    } else if text_or_empty(body, "alias"@).len() == 0 || text_or_empty(
        body,
        "provider_id"@,
    ).len() == 0 || text_or_empty(body, "api_key"@).len() == 0 {
        Some(bad_request("alias, provider_id, and api_key must not be empty"@))
    } else if !serves_any(e) {
        Some(bad_request("At least one endpoint is required"@))
    } else if !serves(e, known_protocol(protocol)) {
        Some(bad_request("default_protocol must be one of the enabled protocols"@))
    } else {
        None
    }
}

/// The account that a request creates. The base URL follows the chat endpoint.
pub open spec fn draft(body: JsonView, balance: Seq<char>, protocol: Seq<char>) -> NewAccountView {
    let e = new_endpoints(body);
    NewAccountView {
        alias: text_or_empty(body, "alias"@),
        provider_id: text_or_empty(body, "provider_id"@),
        api_key: text_or_empty(body, "api_key"@),
        base_url: if e.chat is Some {
            e.chat
        } else {
            json::text_in(json::field(body, "base_url"@))
        },
        anthropic_base_url: json::text_in(json::field(body, "anthropic_base_url"@)),
        is_active: i64_or(body, "is_active"@, 1),
        weight: i64_or(body, "weight"@, 1),
        notes: json::text_in(json::field(body, "notes"@)),
        openai_compatible: i64_or(body, "openai_compatible"@, 0),
        endpoints: e,
        default_protocol: known_protocol(protocol),
        balance_provider: balance,
        balance_auth: text::trimmed(text_or_empty(body, "balance_auth"@)),
        skip_validation: skips_validation(body),
    }
}

fn balance_provider_of(body: &Json) -> (r: String)
    ensures
        r@ == given_balance_provider(body@),
{
    match body.str_at("balance_provider") {
        Some(s) => lower(s),
        None => {
            let none = String::new();
            assert(none@ =~= seq![]);
            none
        },
    }
}

/// Reads a request to create an account, given its way to query balances and its default protocol,
/// trimmed and in lowercase. Whether the endpoints are URLs is not looked at.
pub fn draft_account(body: &Json, balance_provider: String, protocol: String) -> (r: Result<
    NewAccount,
    Reply,
>)
    ensures
        match draft_error(body@, balance_provider@, protocol@) {
            Some(e) => r is Err && r->Err_0@ == e,
            None => r is Ok && r->Ok_0@ == draft(body@, balance_provider@, protocol@),
        },
{
    if body.get("alias").is_none() || body.get("provider_id").is_none() || body.get(
        "api_key",
    ).is_none() {
        return Err(
            error::simple_error("Missing required fields: alias, provider_id, api_key", 400),
        );
    }
    if !check_balance_provider(balance_provider.as_str()) {
        let message = "Invalid balance_provider: ".to_owned().concat(balance_provider.as_str());
        return Err(error::simple_error(message.as_str(), 400));
    }
    let alias = string_at(body, "alias");
    let provider_id = string_at(body, "provider_id");
    let api_key = string_at(body, "api_key");
    if alias.as_str().is_empty() || provider_id.as_str().is_empty() || api_key.as_str().is_empty() {
        return Err(error::simple_error("alias, provider_id, and api_key must not be empty", 400));
    }
    let given_base_url = optional_string(body, "base_url");
    let anthropic_base_url = optional_string(body, "anthropic_base_url");
    let chat_endpoint = choose_endpoint(body.get("chat_endpoint"), &given_base_url);
    let responses_endpoint = choose_endpoint(body.get("responses_endpoint"), &None);
    let messages_endpoint = choose_endpoint(body.get("messages_endpoint"), &anthropic_base_url);
    let chat = is_enabled(&chat_endpoint);
    let responses = is_enabled(&responses_endpoint);
    let messages = is_enabled(&messages_endpoint);
    if !chat && !responses && !messages {
        return Err(error::simple_error("At least one endpoint is required", 400));
    }
    let default_protocol = normalize_protocol(protocol);
    if !is_served(default_protocol.as_str(), chat, responses, messages) {
        return Err(
            error::simple_error("default_protocol must be one of the enabled protocols", 400),
        );
    }
    let base_url = match &chat_endpoint {
        Some(e) => Some(e.clone()),
        None => given_base_url,
    };
    let balance_auth = text::trim(string_at(body, "balance_auth").as_str());
    Ok(
        NewAccount {
            alias,
            provider_id,
            api_key,
            base_url,
            anthropic_base_url,
            is_active: number_at(body, "is_active", 1),
            weight: number_at(body, "weight", 1),
            notes: optional_string(body, "notes"),
            openai_compatible: number_at(body, "openai_compatible", 0),
            chat_endpoint,
            responses_endpoint,
            messages_endpoint,
            default_protocol,
            balance_provider,
            balance_auth,
            skip_validation: skip_validation(body),
        },
    )
}

fn is_served(protocol: &str, chat: bool, responses: bool, messages: bool) -> (r: bool)
    ensures
        r == ((protocol@ == "chat"@ && chat) || (protocol@ == "responses"@ && responses) || (
        protocol@ == "messages"@ && messages)),
{
    (text::same(protocol, "chat") && chat) || (text::same(protocol, "responses") && responses) || (
    text::same(protocol, "messages") && messages)
}

/// The error reply to a request to create an account, the endpoints being looked at last.
pub open spec fn create_error(body: JsonView) -> Option<(u16, JsonView)> {
    match draft_error(body, given_balance_provider(body), given_protocol(body)) {
        Some(e) => Some(e),
        None => match first_bad_url(new_endpoints(body)) {
            Some(u) => Some(bad_request("Invalid endpoint URL: "@ + u)),
            None => None,
        },
    }
}

fn url_error(u: &str) -> (r: Reply)
    ensures
        r@ == bad_request("Invalid endpoint URL: "@ + u@),
{
    error::simple_error("Invalid endpoint URL: ".to_owned().concat(u).as_str(), 400)
}

/// Reads a request to create an account.
pub fn create_account(body: &Json) -> (r: Result<NewAccount, Reply>)
    ensures
        match create_error(body@) {
            Some(e) => r is Err && r->Err_0@ == e,
            None => r is Ok && r->Ok_0@ == draft(
                body@,
                given_balance_provider(body@),
                given_protocol(body@),
            ),
        },
{
    match draft_account(body, balance_provider_of(body), protocol_of(body)) {
        Ok(a) => match bad_url(&a.chat_endpoint, &a.responses_endpoint, &a.messages_endpoint) {
            Some(refusal) => Err(refusal),
            None => Ok(a),
        },
        Err(e) => Err(e),
    }
}

/// Whether an account may be saved, once the upstream was asked for its models.
pub fn validation_error(models_found: usize, skip_validation: bool) -> (r: Option<Reply>)
    ensures
        match r {
            Some(e) => models_found == 0 && !skip_validation && e@ == bad_request(
                "accounts.validationFailed"@,
            ),
            None => models_found > 0 || skip_validation,
        },
{
    if models_found == 0 && !skip_validation {
        Some(error::simple_error("accounts.validationFailed", 400))
    } else {
        None
    }
}

/// The reply to a request that created an account.
pub fn created_reply(id: i64, models_found: usize, skip_validation: bool) -> (r: Reply)
    ensures
        r@ == (
            200u16,
            JsonView::Object(
                map![
                    "success"@ => JsonView::Bool(true),
                    "id"@ => JsonView::Int(id as int),
                    "message"@ => JsonView::Text(if skip_validation {
                        "Account created (skipped validation)"@
                    } else {
                        "Account verified and created successfully"@
                    }),
                    "modelCount"@ => JsonView::Int(models_found as int),
                    "skippedValidation"@ => JsonView::Bool(skip_validation),
                ],
            ),
        ),
{
    let message = if skip_validation {
        "Account created (skipped validation)"
    } else {
        "Account verified and created successfully"
    };
    Reply {
        status: 200,
        body: Json::object().with("success", Json::Bool(true)).with("id", Json::Signed(id)).with(
            "message",
            Json::text(message),
        ).with("modelCount", Json::Unsigned(models_found as u64)).with(
            "skippedValidation",
            Json::Bool(skip_validation),
        ),
    }
}

/// The reply where a step outside the library failed.
pub fn failed(what: &str, error: &str) -> (r: Reply)
    ensures
        r@ == (500u16, error::plain_error(what@ + ": "@ + error@)),
{
    error::simple_error(what.to_owned().concat(": ").concat(error).as_str(), 500)
}

/// The reply where an account is not there.
pub fn account_not_found(id: i64) -> (r: Reply)
    ensures
        r@ == (
            404u16,
            error::plain_error("Account with id "@ + text::decimal_int(id as int) + " not found"@),
        ),
{
    let message = "Account with id ".to_owned().concat(text::decimal_i64(id).as_str()).concat(
        " not found",
    );
    error::simple_error(message.as_str(), 404)
}

/// A created account serves its default protocol, its endpoints are URLs, its base URL is its chat
/// endpoint where it has one, and its way to query balances is a known one.
pub proof fn lemma_created_account_is_sound(body: JsonView)
    requires
        create_error(body) is None,
    ensures
        ({
            let a = draft(body, given_balance_provider(body), given_protocol(body));
            &&& serves(a.endpoints, a.default_protocol)
            &&& first_bad_url(a.endpoints) is None
            &&& a.endpoints.chat is Some ==> a.base_url == a.endpoints.chat
            &&& valid_balance_provider(a.balance_provider)
            &&& a.alias.len() > 0 && a.provider_id.len() > 0 && a.api_key.len() > 0
        }),
{
}

/// An account as it is stored, its secrets as they are stored.
pub struct StoredAccount {
    pub alias: String,
    pub provider_id: String,
    pub api_key: String,
    pub base_url: Option<String>,
    pub anthropic_base_url: Option<String>,
    pub is_active: i64,
    pub weight: i64,
    pub notes: Option<String>,
    pub openai_compatible: Option<i64>,
    pub chat_endpoint: Option<String>,
    pub responses_endpoint: Option<String>,
    pub messages_endpoint: Option<String>,
    pub default_protocol: Option<String>,
    pub balance_provider: Option<String>,
    pub balance_auth: Option<String>,
}

/// What becomes of a stored secret.
pub enum SecretChange {
    /// It stays as it is stored.
    Keep(String),
    /// It is taken away.
    Clear,
    /// This one, in plain, takes its place.
    Replace(String),
}

/// What becomes of a stored secret, texts by their characters.
pub enum SecretChangeView {
    Keep(Seq<char>),
    Clear,
    Replace(Seq<char>),
}

impl View for SecretChange {
    type V = SecretChangeView;

    open spec fn view(&self) -> SecretChangeView {
        match *self {
            SecretChange::Keep(s) => SecretChangeView::Keep(s@),
            SecretChange::Clear => SecretChangeView::Clear,
            SecretChange::Replace(s) => SecretChangeView::Replace(s@),
        }
    }
}

/// The way to query balances after an update: kept where the request says nothing, cleared by null.
/// `lowered_text` is what the request gives, trimmed and in lowercase.
pub open spec fn balance_after(
    stored: Option<Seq<char>>,
    given: Option<JsonView>,
    lowered_text: Seq<char>,
) -> Seq<char> {
    match given {
        None => match stored {
            Some(s) => s,
            None => seq![],
        },
        Some(JsonView::Null) => seq![],
        Some(_) => lowered_text,
    }
}

/// Whether an update gives a way to query balances that is not known.
pub open spec fn balance_unknown(given: Option<JsonView>, lowered_text: Seq<char>) -> bool {
    match given {
        None => false,
        Some(JsonView::Null) => false,
        Some(_) => !valid_balance_provider(lowered_text),
    }
}

/// The secret to query balances after an update.
pub open spec fn balance_auth_after(
    stored: Option<Seq<char>>,
    given: Option<JsonView>,
) -> SecretChangeView {
    match given {
        None => SecretChangeView::Keep(
            match stored {
                Some(s) => s,
                None => seq![],
            },
        ),
        Some(JsonView::Text(s)) => if text::trimmed(s).len() == 0 {
            SecretChangeView::Clear
        } else {
            SecretChangeView::Replace(text::trimmed(s))
        },
        Some(_) => SecretChangeView::Clear,
    }
}

/// What an update gives for the way to query balances, trimmed and in lowercase.
pub open spec fn updated_balance_text(body: JsonView) -> Seq<char> {
    lowered(text_or_empty(body, "balance_provider"@))
}

/// Reads what an update makes of the way to query balances and of the secret for it, given the way
/// trimmed and in lowercase.
pub fn read_balance(existing: &StoredAccount, body: &Json, lowered_text: String) -> (r: Result<
    (String, SecretChange),
    Reply,
>)
    ensures
        if balance_unknown(json::field(body@, "balance_provider"@), lowered_text@) {
            r is Err && r->Err_0@ == bad_request("Invalid balance_provider: "@ + lowered_text@)
        } else {
            r is Ok && r->Ok_0.0@ == balance_after(
                json::some_string(existing.balance_provider),
                json::field(body@, "balance_provider"@),
                lowered_text@,
            ) && r->Ok_0.1@ == balance_auth_after(
                json::some_string(existing.balance_auth),
                json::field(body@, "balance_auth"@),
            )
        },
{
    let nothing = String::new();
    assert(nothing@ =~= seq![]);
    let provider = match body.get("balance_provider") {
        None => match &existing.balance_provider {
            Some(s) => s.clone(),
            None => nothing.clone(),
        },
        Some(j) => match j {
            Json::Null => nothing.clone(),
            _ => {
                if !check_balance_provider(lowered_text.as_str()) {
                    let message = "Invalid balance_provider: ".to_owned().concat(
                        lowered_text.as_str(),
                    );
                    return Err(error::simple_error(message.as_str(), 400));
                }
                lowered_text
            },
        },
    };
    let auth = match body.get("balance_auth") {
        None => SecretChange::Keep(
            match &existing.balance_auth {
                Some(s) => s.clone(),
                None => nothing,
            },
        ),
        Some(j) => match j {
            Json::Text(s) => {
                let t = text::trim(s.as_str());
                if t.as_str().is_empty() {
                    SecretChange::Clear
                } else {
                    SecretChange::Replace(t)
                }
            },
            _ => SecretChange::Clear,
        },
    };
    Ok((provider, auth))
}

/// Reads what an update makes of the way to query balances and of the secret for it.
pub fn update_balance(existing: &StoredAccount, body: &Json) -> (r: Result<
    (String, SecretChange),
    Reply,
>)
    ensures
        if balance_unknown(json::field(body@, "balance_provider"@), updated_balance_text(body@)) {
            r is Err && r->Err_0@ == bad_request(
                "Invalid balance_provider: "@ + updated_balance_text(body@),
            )
        } else {
            r is Ok && r->Ok_0.0@ == balance_after(
                json::some_string(existing.balance_provider),
                json::field(body@, "balance_provider"@),
                updated_balance_text(body@),
            ) && r->Ok_0.1@ == balance_auth_after(
                json::some_string(existing.balance_auth),
                json::field(body@, "balance_auth"@),
            )
        },
{
    let lowered_text = lower(string_at(body, "balance_provider").as_str());
    read_balance(existing, body, lowered_text)
}

/// What an update makes of an account, all that concerns balances aside. The key is given by what
/// becomes of the stored one.
pub struct AccountUpdate {
    pub alias: String,
    pub provider_id: String,
    pub base_url: Option<String>,
    pub anthropic_base_url: Option<String>,
    pub is_active: i64,
    pub weight: i64,
    pub notes: Option<String>,
    pub openai_compatible: i64,
    pub chat_endpoint: Option<String>,
    pub responses_endpoint: Option<String>,
    pub messages_endpoint: Option<String>,
    pub default_protocol: String,
    pub api_key: SecretChange,
    pub removed: Vec<String>,
    pub skip_validation: bool,
}

/// What an update makes of an account, texts by their characters.
#[verifier::ext_equal]
pub struct AccountUpdateView {
    pub alias: Seq<char>,
    pub provider_id: Seq<char>,
    pub base_url: Option<Seq<char>>,
    pub anthropic_base_url: Option<Seq<char>>,
    pub is_active: i64,
    pub weight: i64,
    pub notes: Option<Seq<char>>,
    pub openai_compatible: i64,
    pub endpoints: Endpoints,
    pub default_protocol: Seq<char>,
    pub api_key: SecretChangeView,
    pub removed: Seq<Seq<char>>,
    pub skip_validation: bool,
}

impl View for AccountUpdate {
    type V = AccountUpdateView;

    open spec fn view(&self) -> AccountUpdateView {
        AccountUpdateView {
            alias: self.alias@,
            provider_id: self.provider_id@,
            base_url: json::some_string(self.base_url),
            anthropic_base_url: json::some_string(self.anthropic_base_url),
            is_active: self.is_active,
            weight: self.weight,
            notes: json::some_string(self.notes),
            openai_compatible: self.openai_compatible,
            endpoints: Endpoints {
                chat: json::some_string(self.chat_endpoint),
                responses: json::some_string(self.responses_endpoint),
                messages: json::some_string(self.messages_endpoint),
            },
            default_protocol: self.default_protocol@,
            api_key: self.api_key@,
            removed: text::texts(self.removed@),
            skip_validation: self.skip_validation,
        }
    }
}

/// The endpoints of a stored account.
pub open spec fn stored_endpoints(a: StoredAccount) -> Endpoints {
    Endpoints {
        chat: json::some_string(a.chat_endpoint),
        responses: json::some_string(a.responses_endpoint),
        messages: json::some_string(a.messages_endpoint),
    }
}

/// A URL after an update: kept where the request says nothing, cleared by null, by a blank text and
/// by anything that is no text.
pub open spec fn url_after(stored: Option<Seq<char>>, given: Option<JsonView>) -> Option<Seq<char>> {
    match given {
        None => stored,
        Some(JsonView::Text(s)) => endpoint_in(s),
        Some(_) => None,
    }
}

fn merge_url(stored: &Option<String>, given: Option<&Json>) -> (r: Option<String>)
    ensures
        json::some_string(r) == url_after(json::some_string(*stored), json::some_view(given)),
{
    match given {
        None => stored.clone(),
        Some(j) => match j {
            Json::Text(s) => endpoint_of(s.as_str()),
            _ => None,
        },
    }
}

/// The endpoints after an update.
pub open spec fn endpoints_after(a: StoredAccount, body: JsonView) -> Endpoints {
    let e = stored_endpoints(a);
    Endpoints {
        chat: url_after(e.chat, json::field(body, "chat_endpoint"@)),
        responses: url_after(e.responses, json::field(body, "responses_endpoint"@)),
        messages: url_after(e.messages, json::field(body, "messages_endpoint"@)),
    }
}

/// The base URL after an update: it follows the chat endpoint, unless the request manages it.
pub open spec fn base_url_after(a: StoredAccount, body: JsonView) -> Option<Seq<char>> {
    let given = json::field(body, "base_url"@);
    let chat = endpoints_after(a, body).chat;
    if given is None && chat is Some {
        chat
    } else {
        url_after(json::some_string(a.base_url), given)
    }
}

/// The text of the default protocol that an update gives or that is stored; `lowered_text` is the
/// given one, trimmed and in lowercase.
pub open spec fn protocol_wanted(a: StoredAccount, body: JsonView, lowered_text: Seq<char>) -> Seq<
    char,
> {
    match json::field(body, "default_protocol"@) {
        Some(JsonView::Text(_)) => known_protocol(lowered_text),
        Some(_) => "chat"@,
        None => match a.default_protocol {
            Some(s) => known_protocol(s@),
            None => "chat"@,
        },
    }
}

/// The default protocol after an update: the wanted one where it is served, else the first served
/// one in the order chat, messages, responses.
pub open spec fn protocol_after(e: Endpoints, wanted: Seq<char>) -> Seq<char> {
    if serves(e, wanted) {
        wanted
    } else if enabled(e.chat) {
        "chat"@
    } else if enabled(e.messages) {
        "messages"@
    } else {
        "responses"@
    }
}

/// The protocols that an account served and has no endpoint for any more.
pub open spec fn protocols_removed(before: Endpoints, after: Endpoints) -> Seq<Seq<char>> {
    (if enabled(before.chat) && after.chat is None {
        seq!["chat"@]
    } else {
        seq![]
    }) + (if enabled(before.responses) && after.responses is None {
        seq!["responses"@]
    } else {
        seq![]
    }) + (if enabled(before.messages) && after.messages is None {
        seq!["messages"@]
    } else {
        seq![]
    })
}

/// The key after an update: an empty one and the mask that stands for it change nothing.
pub open spec fn key_after(stored: Seq<char>, given: Option<Seq<char>>) -> SecretChangeView {
    match given {
        Some(s) => if s.len() > 0 && s != "********"@ {
            SecretChangeView::Replace(s)
        } else {
            SecretChangeView::Keep(stored)
        },
        None => SecretChangeView::Keep(stored),
    }
}

/// The error reply to a request to update an account: an account serves some protocol, and its
/// endpoints are URLs.
pub open spec fn update_error(a: StoredAccount, body: JsonView) -> Option<(u16, JsonView)> {
    let e = endpoints_after(a, body);
    if !serves_any(e) {
        Some(bad_request("At least one endpoint is required"@))
    } else {
        match first_bad_url(e) {
            Some(u) => Some(bad_request("Invalid endpoint URL: "@ + u)),
            None => None,
        }
    }
}

/// What an update makes of an account.
pub open spec fn updated(a: StoredAccount, body: JsonView, lowered_text: Seq<char>) -> AccountUpdateView {
    let e = endpoints_after(a, body);
    AccountUpdateView {
        alias: match json::text_in(json::field(body, "alias"@)) {
            Some(s) => s,
            None => a.alias@,
        },
        provider_id: match json::text_in(json::field(body, "provider_id"@)) {
            Some(s) => s,
            None => a.provider_id@,
        },
        base_url: base_url_after(a, body),
        anthropic_base_url: url_after(
            json::some_string(a.anthropic_base_url),
            json::field(body, "anthropic_base_url"@),
        ),
        is_active: i64_or(body, "is_active"@, a.is_active),
        weight: i64_or(body, "weight"@, a.weight),
        notes: match json::text_in(json::field(body, "notes"@)) {
            Some(s) => Some(s),
            None => json::some_string(a.notes),
        },
        openai_compatible: i64_or(
            body,
            "openai_compatible"@,
            match a.openai_compatible {
                Some(n) => n,
                None => 0,
            },
        ),
        endpoints: e,
        default_protocol: protocol_after(e, protocol_wanted(a, body, lowered_text)),
        api_key: key_after(a.api_key@, json::text_in(json::field(body, "api_key"@))),
        removed: protocols_removed(stored_endpoints(a), e),
        skip_validation: skips_validation(body),
    }
}

fn text_or(body: &Json, key: &str, stored: &String) -> (r: String)
    ensures
        r@ == (match json::text_in(json::field(body@, key@)) {
            Some(s) => s,
            None => stored@,
        }),
{
    match body.str_at(key) {
        Some(s) => s.to_owned(),
        None => stored.clone(),
    }
}

fn removed_protocols(
    existing: &StoredAccount,
    chat: &Option<String>,
    responses: &Option<String>,
    messages: &Option<String>,
) -> (r: Vec<String>)
    ensures
        text::texts(r@) == protocols_removed(
            stored_endpoints(*existing),
            Endpoints {
                chat: json::some_string(*chat),
                responses: json::some_string(*responses),
                messages: json::some_string(*messages),
            },
        ),
{
    let mut out: Vec<String> = Vec::new();
    if is_enabled(&existing.chat_endpoint) && chat.is_none() {
        out.push("chat".to_owned());
    }
    if is_enabled(&existing.responses_endpoint) && responses.is_none() {
        out.push("responses".to_owned());
    }
    if is_enabled(&existing.messages_endpoint) && messages.is_none() {
        out.push("messages".to_owned());
    }
    assert(text::texts(out@) =~= protocols_removed(
        stored_endpoints(*existing),
        Endpoints {
            chat: json::some_string(*chat),
            responses: json::some_string(*responses),
            messages: json::some_string(*messages),
        },
    ));
    out
}

/// Whether an updated account has each number that a request gives, and its stored one where the
/// request gives none.
pub open spec fn takes_numbers(u: AccountUpdateView, a: StoredAccount, body: JsonView) -> bool {
    &&& match json::field(body, "is_active"@) {
        Some(JsonView::Int(n)) if i64::MIN <= n <= i64::MAX => u.is_active == n,
        _ => u.is_active == a.is_active,
    }
    &&& match json::field(body, "weight"@) {
        Some(JsonView::Int(n)) if i64::MIN <= n <= i64::MAX => u.weight == n,
        _ => u.weight == a.weight,
    }
    &&& match json::field(body, "openai_compatible"@) {
        Some(JsonView::Int(n)) if i64::MIN <= n <= i64::MAX => u.openai_compatible == n,
        _ => u.openai_compatible == (if a.openai_compatible is Some {
            a.openai_compatible->0
        } else {
            0
        }),
    }
}

/// Merges a request to update an account with what is stored, given the request's default protocol
/// trimmed and in lowercase. Whether the endpoints are URLs is not looked at.
pub fn merge_account(existing: &StoredAccount, body: &Json, lowered_text: String) -> (r: Result<
    AccountUpdate,
    Reply,
>)
    ensures
        if serves_any(endpoints_after(*existing, body@)) {
            r is Ok && r->Ok_0@ == updated(*existing, body@, lowered_text@)
        } else {
            r is Err && r->Err_0@ == bad_request("At least one endpoint is required"@)
        },
        r is Ok ==> takes_numbers(r->Ok_0@, *existing, body@),
{
    let chat_endpoint = merge_url(&existing.chat_endpoint, body.get("chat_endpoint"));
    let responses_endpoint = merge_url(
        &existing.responses_endpoint,
        body.get("responses_endpoint"),
    );
    let messages_endpoint = merge_url(&existing.messages_endpoint, body.get("messages_endpoint"));
    let chat = is_enabled(&chat_endpoint);
    let responses = is_enabled(&responses_endpoint);
    let messages = is_enabled(&messages_endpoint);
    if !chat && !responses && !messages {
        return Err(error::simple_error("At least one endpoint is required", 400));
    }
    let wanted = match body.get("default_protocol") {
        Some(j) => match j {
            Json::Text(_) => normalize_protocol(lowered_text),
            _ => "chat".to_owned(),
        },
        None => match &existing.default_protocol {
            Some(s) => normalize_protocol(s.clone()),
            None => "chat".to_owned(),
        },
    };
    let default_protocol = if is_served(wanted.as_str(), chat, responses, messages) {
        wanted
    } else if chat {
        "chat".to_owned()
    } else if messages {
        "messages".to_owned()
    } else {
        "responses".to_owned()
    };
    let base_url = match body.get("base_url") {
        Some(j) => merge_url(&existing.base_url, Some(j)),
        None => match &chat_endpoint {
            Some(e) => Some(e.clone()),
            None => existing.base_url.clone(),
        },
    };
    let api_key = match body.str_at("api_key") {
        Some(s) => if !s.is_empty() && !text::same(s, "********") {
            SecretChange::Replace(s.to_owned())
        } else {
            SecretChange::Keep(existing.api_key.clone())
        },
        None => SecretChange::Keep(existing.api_key.clone()),
    };
    let removed = removed_protocols(
        existing,
        &chat_endpoint,
        &responses_endpoint,
        &messages_endpoint,
    );
    let notes = match body.str_at("notes") {
        Some(s) => Some(s.to_owned()),
        None => existing.notes.clone(),
    };
    let stored_compatible: i64 = match existing.openai_compatible {
        Some(n) => n,
        None => 0,
    };
    Ok(
        AccountUpdate {
            alias: text_or(body, "alias", &existing.alias),
            provider_id: text_or(body, "provider_id", &existing.provider_id),
            base_url,
            anthropic_base_url: merge_url(
                &existing.anthropic_base_url,
                body.get("anthropic_base_url"),
            ),
            is_active: number_at(body, "is_active", existing.is_active),
            weight: number_at(body, "weight", existing.weight),
            notes,
            openai_compatible: number_at(body, "openai_compatible", stored_compatible),
            chat_endpoint,
            responses_endpoint,
            messages_endpoint,
            default_protocol,
            api_key,
            removed,
            skip_validation: skip_validation(body),
        },
    )
}

/// Reads a request to update an account.
pub fn update_account(existing: &StoredAccount, body: &Json) -> (r: Result<AccountUpdate, Reply>)
    ensures
        match update_error(*existing, body@) {
            Some(e) => r is Err && r->Err_0@ == e,
            None => r is Ok && r->Ok_0@ == updated(
                *existing,
                body@,
                lowered(text_or_empty(body@, "default_protocol"@)),
            ),
        },
        r is Ok ==> takes_numbers(r->Ok_0@, *existing, body@),
{
    let lowered_text = lower(string_at(body, "default_protocol").as_str());
    match merge_account(existing, body, lowered_text) {
        Ok(a) => match bad_url(&a.chat_endpoint, &a.responses_endpoint, &a.messages_endpoint) {
            Some(refusal) => Err(refusal),
            None => Ok(a),
        },
        Err(e) => Err(e),
    }
}

/// An updated account serves its default protocol, and its endpoints are URLs. The base URL is its
/// chat endpoint where it has one, unless the request manages the base URL.
pub proof fn lemma_updated_account_is_sound(
    a: StoredAccount,
    body: JsonView,
    lowered_text: Seq<char>,
)
    requires
        update_error(a, body) is None,
    ensures
        ({
            let u = updated(a, body, lowered_text);
            &&& serves(u.endpoints, u.default_protocol)
            &&& first_bad_url(u.endpoints) is None
            &&& u.endpoints.chat is Some && json::field(body, "base_url"@) is None ==> u.base_url
                == u.endpoints.chat
        }),
{
}

/// The protocols that an update is reported to remove are those that were served before it and are
/// not served after it.
pub proof fn lemma_removed_protocols(a: StoredAccount, body: JsonView, protocol: Seq<char>)
    ensures
        ({
            let e = endpoints_after(a, body);
            let removed = protocols_removed(stored_endpoints(a), e);
            removed.contains(protocol) <==> serves(stored_endpoints(a), protocol) && !serves(
                e,
                protocol,
            )
        }),
{
    let before = stored_endpoints(a);
    let after = endpoints_after(a, body);
    let removed = protocols_removed(before, after);
    reveal_strlit("chat");
    reveal_strlit("responses");
    reveal_strlit("messages");
    assert("chat"@.len() != "responses"@.len());
    assert("chat"@.len() != "messages"@.len());
    assert("messages"@.len() != "responses"@.len());
    lemma_url_after(before.chat, json::field(body, "chat_endpoint"@));
    lemma_url_after(before.responses, json::field(body, "responses_endpoint"@));
    lemma_url_after(before.messages, json::field(body, "messages_endpoint"@));
    if removed.contains(protocol) {
        let i = choose|i: int| 0 <= i < removed.len() && removed[i] == protocol;
    }
    let chat: nat = if enabled(before.chat) && after.chat is None {
        1
    } else {
        0
    };
    let responses: nat = if enabled(before.responses) && after.responses is None {
        1
    } else {
        0
    };
    if serves(before, protocol) && !serves(after, protocol) {
        if protocol == "chat"@ {
            assert(removed[0] == protocol);
        } else if protocol == "responses"@ {
            assert(removed[chat as int] == protocol);
        } else {
            assert(removed[(chat + responses) as int] == protocol);
        }
    }
}

/// An endpoint that was served stays so unless an update takes it away.
proof fn lemma_url_after(stored: Option<Seq<char>>, given: Option<JsonView>)
    ensures
        enabled(stored) ==> (enabled(url_after(stored, given)) <==> url_after(stored, given) is Some),
{
    if let Some(JsonView::Text(s)) = given {
        text::lemma_trimmed_once(s);
    }
}

/// The reply to a request that updated an account: the aliases whose forced protocol it lost are
/// named, with the new default.
pub open spec fn update_reply(
    ordinary: Seq<Seq<char>>,
    aggregate: Seq<Seq<char>>,
    default_protocol: Seq<char>,
) -> JsonView {
    let plain = map![
        "success"@ => JsonView::Bool(true),
        "message"@ => JsonView::Text("Account updated successfully"@),
    ];
    if ordinary.len() == 0 && aggregate.len() == 0 {
        JsonView::Object(plain)
    } else {
        JsonView::Object(
            plain.insert(
                "affectedAliases"@,
                JsonView::Object(
                    map![
                        "ordinary"@ => json::text_array(ordinary),
                        "aggregate"@ => json::text_array(aggregate),
                    ],
                ),
            ).insert("newDefaultProtocol"@, JsonView::Text(default_protocol)),
        )
    }
}

/// The reply to a request that updated an account.
pub fn updated_reply(
    ordinary: &Vec<String>,
    aggregate: &Vec<String>,
    default_protocol: &str,
) -> (r: Reply)
    ensures
        r@ == (
            200u16,
            update_reply(text::texts(ordinary@), text::texts(aggregate@), default_protocol@),
        ),
{
    let plain = Json::object().with("success", Json::Bool(true)).with(
        "message",
        Json::text("Account updated successfully"),
    );
    if ordinary.len() == 0 && aggregate.len() == 0 {
        return Reply { status: 200, body: plain };
    }
    let affected = Json::object().with("ordinary", json::string_array(ordinary)).with(
        "aggregate",
        json::string_array(aggregate),
    );
    Reply {
        status: 200,
        body: plain.with("affectedAliases", affected).with(
            "newDefaultProtocol",
            Json::text(default_protocol),
        ),
    }
}

/// What came of deleting an account and its history.
pub enum Deletion {
    NotStarted(String),
    LogsKept(String),
    NotDeleted(String),
    NoAccount,
    NotCommitted(String),
    Deleted,
}

/// The reply to a request to delete an account.
pub open spec fn deletion_reply(id: i64, outcome: Deletion) -> (u16, JsonView) {
    match outcome {
        Deletion::NotStarted(e) => (
            500u16,
            error::plain_error("Failed to start transaction"@ + ": "@ + e@),
        ),
        Deletion::LogsKept(e) => (
            500u16,
            error::plain_error("Failed to delete usage logs"@ + ": "@ + e@),
        ),
        Deletion::NotDeleted(e) => (
            500u16,
            error::plain_error("Failed to delete account"@ + ": "@ + e@),
        ),
        Deletion::NoAccount => (
            404u16,
            error::plain_error("Account with id "@ + text::decimal_int(id as int) + " not found"@),
        ),
        Deletion::NotCommitted(e) => (
            500u16,
            error::plain_error("Failed to commit transaction"@ + ": "@ + e@),
        ),
        Deletion::Deleted => (
            200u16,
            JsonView::Object(
                map![
                    "success"@ => JsonView::Bool(true),
                    "message"@ => JsonView::Text(
                        "Account and all associated history deleted successfully"@,
                    ),
                ],
            ),
        ),
    }
}

/// The reply to a request to delete an account.
pub fn delete_account(id: i64, outcome: &Deletion) -> (r: Reply)
    ensures
        r@ == deletion_reply(id, *outcome),
{
    match outcome {
        Deletion::NotStarted(e) => failed("Failed to start transaction", e.as_str()),
        Deletion::LogsKept(e) => failed("Failed to delete usage logs", e.as_str()),
        Deletion::NotDeleted(e) => failed("Failed to delete account", e.as_str()),
        Deletion::NoAccount => account_not_found(id),
        Deletion::NotCommitted(e) => failed("Failed to commit transaction", e.as_str()),
        Deletion::Deleted => Reply {
            status: 200,
            body: Json::object().with("success", Json::Bool(true)).with(
                "message",
                Json::text("Account and all associated history deleted successfully"),
            ),
        },
    }
}

/// What came of looking for the key of an account.
pub enum KeyLookup {
    NoAccount,
    NotRead(String),
    NotDecrypted(String),
    Found(String),
}

/// The reply with the key of an account.
pub fn get_account_key(id: i64, lookup: &KeyLookup) -> (r: Reply)
    ensures
        r@ == (match *lookup {
            KeyLookup::NoAccount => (
                404u16,
                error::plain_error(
                    "Account with id "@ + text::decimal_int(id as int) + " not found"@,
                ),
            ),
            KeyLookup::NotRead(e) => (
                500u16,
                error::plain_error("Failed to lookup account"@ + ": "@ + e@),
            ),
            KeyLookup::NotDecrypted(e) => (
                500u16,
                error::plain_error("Failed to decrypt API key"@ + ": "@ + e@),
            ),
            KeyLookup::Found(k) => (
                200u16,
                JsonView::Object(map!["key"@ => JsonView::Text(k@)]),
            ),
        }),
{
    match lookup {
        KeyLookup::NoAccount => account_not_found(id),
        KeyLookup::NotRead(e) => failed("Failed to lookup account", e.as_str()),
        KeyLookup::NotDecrypted(e) => failed("Failed to decrypt API key", e.as_str()),
        KeyLookup::Found(k) => Reply {
            status: 200,
            body: Json::object().with("key", Json::text(k.as_str())),
        },
    }
}

/// The stored secret that a balance query is made with: the one for balances where there is one.
pub fn balance_credential(balance_auth: String, api_key: String) -> (r: String)
    ensures
        r == (if balance_auth@.len() > 0 {
            balance_auth
        } else {
            api_key
        }),
{
    if balance_auth.as_str().is_empty() {
        api_key
    } else {
        balance_auth
    }
}

/// The reply where an account has no way to query balances.
pub fn balance_unconfigured() -> (r: Reply)
    ensures
        r@ == (422u16, error::plain_error("此账户未配置余额查询方式"@)),
{
    error::simple_error("此账户未配置余额查询方式", 422)
}

/// Whether a balance result reports success.
pub open spec fn balance_ok(result: JsonView) -> bool {
    json::bool_in(json::field(result, "ok"@)) == Some(true)
}

fn is_ok(result: &Json) -> (r: bool)
    ensures
        r == balance_ok(result@),
{
    match result.get("ok") {
        Some(j) => match j.as_bool() {
            Some(b) => b,
            None => false,
        },
        None => false,
    }
}

/// The reply to a balance query.
pub fn get_account_balance(result: Json, updated_at: u64) -> (r: Reply)
    ensures
        r@ == (
            200u16,
            JsonView::Object(
                map![
                    "success"@ => JsonView::Bool(balance_ok(result@)),
                    "balance"@ => result@,
                    "updated_at"@ => JsonView::Int(updated_at as int),
                ],
            ),
        ),
{
    let ok = is_ok(&result);
    Reply {
        status: 200,
        body: Json::object().with("success", Json::Bool(ok)).with("balance", result).with(
            "updated_at",
            Json::Unsigned(updated_at),
        ),
    }
}

/// Whether the last balance query of an account succeeded, given what its cached result says as
/// JSON and its way to query balances, trimmed and in lowercase.
pub open spec fn healthy(says: Option<JsonView>, lowered_provider: Option<Seq<char>>) -> bool {
    lowered_provider != Some("none"@) && match says {
        Some(v) => balance_ok(v),
        None => false,
    }
}

/// Whether the last balance query of an account succeeded.
pub fn is_healthy(says: Option<&Json>, lowered_provider: Option<&str>) -> (r: bool)
    ensures
        r == healthy(json::some_view(says), json::some_text(lowered_provider)),
{
    if let Some(p) = lowered_provider {
        if text::same(p, "none") {
            return false;
        }
    }
    match says {
        Some(v) => is_ok(v),
        None => false,
    }
}

/// What a cached balance result says; nothing where it is blank or no JSON.
pub open spec fn cached_result(raw: Option<Seq<char>>) -> Option<JsonView> {
    match raw {
        Some(s) => if text::trimmed(s).len() == 0 {
            None
        } else {
            json::parsed(text::trimmed(s))
        },
        None => None,
    }
}

/// Whether the last balance query of an account succeeded.
pub fn balance_healthy(limits_cache: Option<&str>, balance_provider: Option<&str>) -> (r: bool)
    ensures
        r == healthy(
            cached_result(json::some_text(limits_cache)),
            match balance_provider {
                Some(p) => Some(lowered(p@)),
                None => None,
            },
        ),
{
    let provider = match balance_provider {
        Some(p) => Some(lower(p)),
        None => None,
    };
    let says = match limits_cache {
        Some(s) => {
            let t = text::trim(s);
            if t.as_str().is_empty() {
                None
            } else {
                json::parse(t.as_str())
            }
        },
        None => None,
    };
    let known = match &provider {
        Some(p) => Some(p.as_str()),
        None => None,
    };
    match &says {
        Some(v) => is_healthy(Some(v), known),
        None => is_healthy(None, known),
    }
}

/// The group of an account: usable ones first, then those without a sound balance, then those
/// switched off.
pub open spec fn tier_of(is_active: i64, healthy: bool) -> i64 {
    if is_active == 0 {
        2
    } else if healthy {
        0
    } else {
        1
    }
}

/// The group that an account is listed in: active and healthy, active, switched off.
pub fn balance_tier(is_active: i64, healthy: bool) -> (r: i64)
    ensures
        r == tier_of(is_active, healthy),
{
    if is_active == 0 {
        2
    } else if healthy {
        0
    } else {
        1
    }
}

/// What decides the place of an account in the list.
#[derive(Clone, Copy, PartialEq, Eq, Structural, Debug)]
pub struct AccountRank {
    pub tier: i64,
    pub bucket: u32,
    pub id: i64,
}

/// Whether an account is listed before another, or has the same rank: by group, then the more
/// active one, then the newer one.
pub open spec fn rank_le(a: AccountRank, b: AccountRank) -> bool {
    a.tier < b.tier || (a.tier == b.tier && (a.bucket > b.bucket || (a.bucket == b.bucket && a.id
        >= b.id)))
}

/// Whether places name each account once, and in the order of the list; accounts of the same rank
/// stay as they were.
pub open spec fn listed_order(ranks: Seq<AccountRank>, places: Seq<usize>) -> bool {
    &&& forall|i: int| 0 <= i < places.len() ==> #[trigger] places[i] < ranks.len()
    &&& forall|i: int, j: int|
        0 <= i < j < places.len() ==> {
            let a = ranks[#[trigger] places[i] as int];
            let b = ranks[#[trigger] places[j] as int];
            rank_le(a, b) && (rank_le(b, a) ==> places[i] < places[j])
        }
}

/// The order in which accounts are listed, as places in the given list.
pub fn order_accounts(ranks: &Vec<AccountRank>) -> (r: Vec<usize>)
    ensures
        r@.len() == ranks@.len(),
        listed_order(ranks@, r@),
{
    let mut out: Vec<usize> = Vec::new();
    let mut k: usize = 0;
    while k < ranks.len()
        invariant
            k <= ranks@.len(),
            out@.len() == k,
            forall|i: int| 0 <= i < out@.len() ==> #[trigger] out@[i] < k,
            listed_order(ranks@, out@),
        decreases ranks@.len() - k,
    {
        let x: AccountRank = ranks[k];
        let mut i: usize = 0;
        while i < out.len() && before_or_same(&ranks[out[i]], &x)
            invariant
                i <= out@.len(),
                k < ranks@.len(),
                x == ranks@[k as int],
                forall|j: int| 0 <= j < out@.len() ==> #[trigger] out@[j] < k,
                forall|j: int| 0 <= j < i ==> rank_le(ranks@[#[trigger] out@[j] as int], x),
            decreases out@.len() - i,
        {
            i = i + 1;
        }
        let ghost old_out = out@;
        proof {
            assert forall|j: int| i <= j < old_out.len() implies {
                let b = ranks@[#[trigger] old_out[j] as int];
                rank_le(x, b) && !rank_le(b, x)
            } by {
                let first = ranks@[old_out[i as int] as int];
                assert(!rank_le(first, x));
                if j > i {
                    assert(rank_le(first, ranks@[old_out[j] as int]));
                }
            }
        }
        out.insert(i, k);
        proof {
            let now = out@;
            assert forall|a: int, b: int| 0 <= a < b < now.len() implies {
                let p = ranks@[#[trigger] now[a] as int];
                let q = ranks@[#[trigger] now[b] as int];
                rank_le(p, q) && (rank_le(q, p) ==> now[a] < now[b])
            } by {
                let a0 = if a < i {
                    a
                } else {
                    a - 1
                };
                let b0 = if b < i {
                    b
                } else {
                    b - 1
                };
                if a != i {
                    assert(now[a] == old_out[a0]);
                }
                if b != i {
                    assert(now[b] == old_out[b0]);
                }
            }
        }
        k = k + 1;
    }
    out
}

fn before_or_same(a: &AccountRank, b: &AccountRank) -> (r: bool)
    ensures
        r == rank_le(*a, *b),
{
    a.tier < b.tier || (a.tier == b.tier && (a.bucket > b.bucket || (a.bucket == b.bucket && a.id
        >= b.id)))
}

/// One line of the usage history of an account.
pub struct UsageRow {
    pub timestamp: i64,
    pub model: Option<String>,
    pub input: i64,
    pub output: i64,
    pub latency_ms: i64,
    pub success: i64,
}

/// A line of the history in comma-separated form.
pub open spec fn csv_line(u: UsageRow) -> Seq<char> {
    text::decimal_int(u.timestamp as int) + ","@ + (match u.model {
        Some(m) => m@,
        None => "unknown"@,
    }) + ","@ + text::decimal_int(u.input as int) + ","@ + text::decimal_int(u.output as int)
        + ","@ + text::decimal_int(u.latency_ms as int) + ","@ + (if u.success != 0 {
        "Success"@
    } else {
        "Failed"@
    }) + "\n"@
}

/// The history in comma-separated form, below a line of titles.
pub open spec fn csv_text(rows: Seq<UsageRow>) -> Seq<char>
    decreases rows.len(),
{
    if rows.len() == 0 {
        "Timestamp,Model,Input Tokens,Output Tokens,Latency (ms),Status\n"@
    } else {
        csv_text(rows.drop_last()) + csv_line(rows.last())
    }
}

fn write_csv_line(u: &UsageRow) -> (r: String)
    ensures
        r@ == csv_line(*u),
{
    let model = match &u.model {
        Some(m) => m.as_str(),
        None => "unknown",
    };
    let status = if u.success != 0 {
        "Success"
    } else {
        "Failed"
    };
    text::decimal_i64(u.timestamp).concat(",").concat(model).concat(",").concat(
        text::decimal_i64(u.input).as_str(),
    ).concat(",").concat(text::decimal_i64(u.output).as_str()).concat(",").concat(
        text::decimal_i64(u.latency_ms).as_str(),
    ).concat(",").concat(status).concat("\n")
}

/// Writes the usage history of an account in comma-separated form.
pub fn export_account_usage(rows: &Vec<UsageRow>) -> (r: String)
    ensures
        r@ == csv_text(rows@),
{
    let mut out = "Timestamp,Model,Input Tokens,Output Tokens,Latency (ms),Status\n".to_owned();
    let mut i: usize = 0;
    assert(rows@.take(0) =~= Seq::<UsageRow>::empty());
    while i < rows.len()
        invariant
            i <= rows@.len(),
            out@ == csv_text(rows@.take(i as int)),
        decreases rows@.len() - i,
    {
        assert(rows@.take(i + 1).drop_last() =~= rows@.take(i as int));
        out = out.concat(write_csv_line(&rows[i]).as_str());
        i = i + 1;
    }
    assert(rows@.take(i as int) =~= rows@);
    out
}

/// The name that the exported history is offered under.
pub fn export_disposition(id: i64) -> (r: String)
    ensures
        r@ == "attachment; filename=\"usage_history_account_"@ + text::decimal_int(id as int)
            + ".csv\""@,
{
    "attachment; filename=\"usage_history_account_".to_owned().concat(
        text::decimal_i64(id).as_str(),
    ).concat(".csv\"")
}

/// An account as the list shows it, its secrets left out.
pub struct AccountRow {
    pub id: i64,
    pub alias: String,
    pub provider_id: String,
    pub base_url: Option<String>,
    pub anthropic_base_url: Option<String>,
    pub is_active: i64,
    pub weight: i64,
    pub notes: Option<String>,
    pub openai_compatible: Option<i64>,
    pub created_at: Option<String>,
    pub chat_endpoint: Option<String>,
    pub responses_endpoint: Option<String>,
    pub messages_endpoint: Option<String>,
    pub default_protocol: Option<String>,
    pub balance_provider: Option<String>,
}

/// How active an account was, in numbers that go out as they are.
pub struct Activity {
    pub requests_5h: Json,
    pub requests_24h: Json,
    pub requests_7d: Json,
    pub score: Json,
    pub bucket: Json,
}

/// The entry of an account in the list. Neither the key nor the secret for balances is in it.
pub open spec fn list_entry_view(a: AccountRow, n: Activity, healthy: bool, tier: i64) -> JsonView {
    JsonView::Object(
        map![
            "id"@ => JsonView::Int(a.id as int),
            "alias"@ => JsonView::Text(a.alias@),
            "provider_id"@ => JsonView::Text(a.provider_id@),
            "api_key"@ => JsonView::Null,
            "base_url"@ => json::text_or_null(json::some_string(a.base_url)),
            "anthropic_base_url"@ => json::text_or_null(json::some_string(a.anthropic_base_url)),
            "is_active"@ => JsonView::Int(a.is_active as int),
            "weight"@ => JsonView::Int(a.weight as int),
            "notes"@ => json::text_or_null(json::some_string(a.notes)),
            "openai_compatible"@ => json::int_or_null(a.openai_compatible),
            "created_at"@ => json::text_or_null(json::some_string(a.created_at)),
            "chat_endpoint"@ => json::text_or_null(json::some_string(a.chat_endpoint)),
            "responses_endpoint"@ => json::text_or_null(json::some_string(a.responses_endpoint)),
            "messages_endpoint"@ => json::text_or_null(json::some_string(a.messages_endpoint)),
            "default_protocol"@ => json::text_or_null(json::some_string(a.default_protocol)),
            "balance_provider"@ => json::text_or_null(json::some_string(a.balance_provider)),
            "balance_auth"@ => JsonView::Null,
            "requests_5h"@ => n.requests_5h@,
            "requests_24h"@ => n.requests_24h@,
            "requests_7d"@ => n.requests_7d@,
            "activity_score"@ => n.score@,
            "activity_bucket"@ => n.bucket@,
            "balance_ok"@ => JsonView::Bool(healthy),
            "balance_tier"@ => JsonView::Int(tier as int),
        ],
    )
}

fn list_entry(a: &AccountRow, n: &Activity, healthy: bool, tier: i64) -> (r: Json)
    ensures
        r@ == list_entry_view(*a, *n, healthy, tier),
{
    Json::object().with("id", Json::Signed(a.id)).with("alias", Json::text(a.alias.as_str())).with(
        "provider_id",
        Json::text(a.provider_id.as_str()),
    ).with("api_key", Json::Null).with("base_url", json::optional_text(&a.base_url)).with(
        "anthropic_base_url",
        json::optional_text(&a.anthropic_base_url),
    ).with("is_active", Json::Signed(a.is_active)).with("weight", Json::Signed(a.weight)).with(
        "notes",
        json::optional_text(&a.notes),
    ).with("openai_compatible", json::optional_int(a.openai_compatible)).with(
        "created_at",
        json::optional_text(&a.created_at),
    ).with("chat_endpoint", json::optional_text(&a.chat_endpoint)).with(
        "responses_endpoint",
        json::optional_text(&a.responses_endpoint),
    ).with("messages_endpoint", json::optional_text(&a.messages_endpoint)).with(
        "default_protocol",
        json::optional_text(&a.default_protocol),
    ).with("balance_provider", json::optional_text(&a.balance_provider)).with(
        "balance_auth",
        Json::Null,
    ).with("requests_5h", n.requests_5h.copy()).with("requests_24h", n.requests_24h.copy()).with(
        "requests_7d",
        n.requests_7d.copy(),
    ).with("activity_score", n.score.copy()).with("activity_bucket", n.bucket.copy()).with(
        "balance_ok",
        Json::Bool(healthy),
    ).with("balance_tier", Json::Signed(tier))
}

/// An account that is listed: its stored balance, how active it was, and on which of twenty-one
/// levels that is.
pub struct ListedAccount {
    pub row: AccountRow,
    pub limits_cache: Option<String>,
    pub activity: Activity,
    pub level: u32,
}

/// Whether the balance of a listed account is sound.
pub open spec fn listed_healthy(a: ListedAccount) -> bool {
    healthy(
        cached_result(json::some_string(a.limits_cache)),
        match a.row.balance_provider {
            Some(p) => Some(lowered(p@)),
            None => None,
        },
    )
}

/// The rank of a listed account.
pub open spec fn rank_of(a: ListedAccount) -> AccountRank {
    AccountRank {
        tier: tier_of(a.row.is_active, listed_healthy(a)),
        bucket: a.level,
        id: a.row.id,
    }
}

/// The ranks of listed accounts.
pub open spec fn ranks_of(accounts: Seq<ListedAccount>) -> Seq<AccountRank> {
    accounts.map_values(|a: ListedAccount| rank_of(a))
}

/// The entry of a listed account.
pub open spec fn listed_entry(a: ListedAccount) -> JsonView {
    list_entry_view(
        a.row,
        a.activity,
        listed_healthy(a),
        tier_of(a.row.is_active, listed_healthy(a)),
    )
}

/// Lists accounts: by group, then the more active ones, then the newer ones.
pub fn list_accounts(accounts: &Vec<ListedAccount>) -> (r: Json)
    ensures
        exists|places: Seq<usize>| #[trigger]
            listed_order(ranks_of(accounts@), places)
                && places.len() == accounts@.len() && r@ == JsonView::Array(
                places.map_values(|p: usize| listed_entry(accounts@[p as int])),
            ),
{
    let mut ranks: Vec<AccountRank> = Vec::new();
    let mut sound: Vec<bool> = Vec::new();
    let mut i: usize = 0;
    while i < accounts.len()
        invariant
            i <= accounts@.len(),
            ranks@.len() == i,
            sound@.len() == i,
            forall|k: int| 0 <= k < i ==> #[trigger] ranks@[k] == rank_of(accounts@[k]),
            forall|k: int| 0 <= k < i ==> #[trigger] sound@[k] == listed_healthy(accounts@[k]),
        decreases accounts@.len() - i,
    {
        let a = &accounts[i];
        let limits = match &a.limits_cache {
            Some(s) => Some(s.as_str()),
            None => None,
        };
        let provider = match &a.row.balance_provider {
            Some(s) => Some(s.as_str()),
            None => None,
        };
        let healthy = balance_healthy(limits, provider);
        ranks.push(
            AccountRank {
                tier: balance_tier(a.row.is_active, healthy),
                bucket: a.level,
                id: a.row.id,
            },
        );
        sound.push(healthy);
        i = i + 1;
    }
    assert(ranks@ =~= ranks_of(accounts@));
    let places = order_accounts(&ranks);
    let mut out: Vec<Json> = Vec::new();
    let mut j: usize = 0;
    while j < places.len()
        invariant
            j <= places@.len(),
            out@.len() == j,
            places@.len() == accounts@.len(),
            sound@.len() == accounts@.len(),
            ranks@.len() == accounts@.len(),
            listed_order(ranks@, places@),
            forall|k: int|
                0 <= k < accounts@.len() ==> #[trigger] sound@[k] == listed_healthy(accounts@[k]),
            forall|k: int|
                0 <= k < j ==> #[trigger] json::json_view(out@[k]) == listed_entry(
                    accounts@[places@[k] as int],
                ),
        decreases places@.len() - j,
    {
        let p: usize = places[j];
        let a = &accounts[p];
        out.push(
            list_entry(&a.row, &a.activity, sound[p], balance_tier(a.row.is_active, sound[p])),
        );
        j = j + 1;
    }
    assert(json::elements_view(out@) =~= places@.map_values(
        |p: usize| listed_entry(accounts@[p as int]),
    ));
    Json::Array(out)
}

/// An order of the list names every account exactly once.
pub proof fn lemma_list_is_complete(ranks: Seq<AccountRank>, places: Seq<usize>, k: nat)
    requires
        listed_order(ranks, places),
        places.len() == ranks.len(),
        k < ranks.len(),
    ensures
        exists|i: int| 0 <= i < places.len() && #[trigger] places[i] == k,
        places.no_duplicates(),
{
    assert forall|i: int, j: int| 0 <= i < j < places.len() implies places[i] != places[j] by {
        let a = ranks[places[i] as int];
        let b = ranks[places[j] as int];
        assert(rank_le(a, b) && (rank_le(b, a) ==> places[i] < places[j]));
    }
    let nats = places.map_values(|p: usize| p as int);
    assert(nats.no_duplicates()) by {
        assert forall|i: int, j: int| 0 <= i < nats.len() && 0 <= j < nats.len() && i
            != j implies nats[i] != nats[j] by {
            assert(places[i] != places[j]);
        }
    }
    nats.unique_seq_to_set();
    let all = vstd::set_lib::set_int_range(0, ranks.len() as int);
    vstd::set_lib::lemma_int_range(0, ranks.len() as int);
    assert(nats.to_set().subset_of(all)) by {
        assert forall|x: int| nats.to_set().contains(x) implies all.contains(x) by {
            let i = choose|i: int| 0 <= i < nats.len() && nats[i] == x;
            assert(places[i] < ranks.len());
        }
    }
    vstd::set_lib::lemma_subset_equality(nats.to_set(), all);
    assert(all.contains(k as int));
    let i = choose|i: int| 0 <= i < nats.len() && nats[i] == k as int;
    assert(places[i] == k);
}

/// An update takes each number that a request gives, and keeps each one that it does not give. So
/// `is_active` switches an account on and off.
pub proof fn lemma_update_takes_numbers(
    a: StoredAccount,
    body: Map<Seq<char>, JsonView>,
    lowered_text: Seq<char>,
    n: i64,
)
    ensures
        ({
            let u = updated(a, JsonView::Object(body), lowered_text);
            &&& json::holds(body, "is_active"@, JsonView::Int(n as int)) ==> u.is_active == n
            &&& !body.dom().contains("is_active"@) ==> u.is_active == a.is_active
            &&& json::holds(body, "weight"@, JsonView::Int(n as int)) ==> u.weight == n
            &&& !body.dom().contains("weight"@) ==> u.weight == a.weight
            &&& json::holds(body, "openai_compatible"@, JsonView::Int(n as int))
                ==> u.openai_compatible == n
            &&& !body.dom().contains("openai_compatible"@) ==> (a.openai_compatible is Some
                ==> u.openai_compatible == a.openai_compatible->0) && (a.openai_compatible is None
                ==> u.openai_compatible == 0)
        }),
{
}

/// An update takes each name and each note that a request gives, and keeps each one that it does
/// not give.
pub proof fn lemma_update_takes_texts(
    a: StoredAccount,
    body: Map<Seq<char>, JsonView>,
    lowered_text: Seq<char>,
    s: Seq<char>,
)
    ensures
        ({
            let u = updated(a, JsonView::Object(body), lowered_text);
            &&& json::holds(body, "alias"@, JsonView::Text(s)) ==> u.alias == s
            &&& !body.dom().contains("alias"@) ==> u.alias == a.alias@
            &&& json::holds(body, "provider_id"@, JsonView::Text(s)) ==> u.provider_id == s
            &&& !body.dom().contains("provider_id"@) ==> u.provider_id == a.provider_id@
            &&& json::holds(body, "notes"@, JsonView::Text(s)) ==> u.notes == Some(s)
            &&& !body.dom().contains("notes"@) ==> u.notes == json::some_string(a.notes)
        }),
{
}

/// An update changes each address by the member of its own name: a text sets it, without surrounding
/// white space; a blank text and null take it away; without the member it stays. The base URL is the
/// chat endpoint where the request does not speak of it.
pub proof fn lemma_update_takes_addresses(
    a: StoredAccount,
    body: Map<Seq<char>, JsonView>,
    lowered_text: Seq<char>,
    s: Seq<char>,
)
    ensures
        ({
            let u = updated(a, JsonView::Object(body), lowered_text);
            let set = if text::trimmed(s).len() > 0 {
                Some(text::trimmed(s))
            } else {
                None
            };
            &&& json::holds(body, "chat_endpoint"@, JsonView::Text(s)) ==> u.endpoints.chat == set
            &&& json::holds(body, "chat_endpoint"@, JsonView::Null) ==> u.endpoints.chat is None
            &&& !body.dom().contains("chat_endpoint"@) ==> u.endpoints.chat == json::some_string(
                a.chat_endpoint,
            )
            &&& json::holds(body, "responses_endpoint"@, JsonView::Text(s)) ==> u.endpoints.responses
                == set
            &&& json::holds(body, "responses_endpoint"@, JsonView::Null)
                ==> u.endpoints.responses is None
            &&& !body.dom().contains("responses_endpoint"@) ==> u.endpoints.responses
                == json::some_string(a.responses_endpoint)
            &&& json::holds(body, "messages_endpoint"@, JsonView::Text(s)) ==> u.endpoints.messages
                == set
            &&& json::holds(body, "messages_endpoint"@, JsonView::Null)
                ==> u.endpoints.messages is None
            &&& !body.dom().contains("messages_endpoint"@) ==> u.endpoints.messages
                == json::some_string(a.messages_endpoint)
            &&& json::holds(body, "anthropic_base_url"@, JsonView::Text(s)) ==> u.anthropic_base_url
                == set
            &&& json::holds(body, "anthropic_base_url"@, JsonView::Null)
                ==> u.anthropic_base_url is None
            &&& !body.dom().contains("anthropic_base_url"@) ==> u.anthropic_base_url
                == json::some_string(a.anthropic_base_url)
            &&& json::holds(body, "base_url"@, JsonView::Text(s)) ==> u.base_url == set
            &&& json::holds(body, "base_url"@, JsonView::Null) ==> u.base_url is None
            &&& !body.dom().contains("base_url"@) ==> u.base_url == (if u.endpoints.chat is Some {
                u.endpoints.chat
            } else {
                json::some_string(a.base_url)
            })
        }),
{
}

/// An update replaces the key of an account by a key that a request gives. An empty one, the mask
/// that is shown in its place, and none at all leave the stored one.
pub proof fn lemma_update_takes_the_key(
    a: StoredAccount,
    body: Map<Seq<char>, JsonView>,
    lowered_text: Seq<char>,
    s: Seq<char>,
)
    ensures
        ({
            let u = updated(a, JsonView::Object(body), lowered_text);
            &&& json::holds(body, "api_key"@, JsonView::Text(s)) && s.len() > 0 && s != "********"@
                ==> u.api_key == SecretChangeView::Replace(s)
            &&& json::holds(body, "api_key"@, JsonView::Text(s)) && (s.len() == 0 || s
                == "********"@) ==> u.api_key == SecretChangeView::Keep(a.api_key@)
            &&& !body.dom().contains("api_key"@) ==> u.api_key == SecretChangeView::Keep(a.api_key@)
        }),
{
}

/// The default protocol that a request gives is taken where it is served; where it gives none, the
/// stored one stays where it is served. One that is not served gives way to the first that is, in the
/// order chat, messages, responses.
pub proof fn lemma_update_takes_the_protocol(
    a: StoredAccount,
    body: Map<Seq<char>, JsonView>,
    s: Seq<char>,
    p: Seq<char>,
)
    requires
        p == "chat"@ || p == "responses"@ || p == "messages"@,
    ensures
        ({
            let u = updated(a, JsonView::Object(body), p);
            let e = u.endpoints;
            let served = p == "chat"@ && enabled(e.chat) || p == "responses"@ && enabled(e.responses)
                || p == "messages"@ && enabled(e.messages);
            let first = if enabled(e.chat) {
                "chat"@
            } else if enabled(e.messages) {
                "messages"@
            } else {
                "responses"@
            };
            let taken = if served {
                p
            } else {
                first
            };
            &&& json::holds(body, "default_protocol"@, JsonView::Text(s)) ==> u.default_protocol
                == taken
            &&& !body.dom().contains("default_protocol"@) && a.default_protocol is Some
                && a.default_protocol->0@ == p ==> u.default_protocol == taken
        }),
{
}

/// A request may ask that the upstream is asked before an account is saved; elsewhere it is not.
pub proof fn lemma_validation_is_asked_for(body: Map<Seq<char>, JsonView>, b: bool)
    ensures
        json::holds(body, "skip_validation"@, JsonView::Bool(b)) ==> skips_validation(
            JsonView::Object(body),
        ) == b,
        !body.dom().contains("skip_validation"@) ==> skips_validation(JsonView::Object(body)),
{
}

/// An update takes the way to query balances and the secret for it from a request, each by its own
/// member. What a request does not speak of stays; null takes it away.
pub proof fn lemma_update_takes_the_balance(
    provider: Option<Seq<char>>,
    auth: Option<Seq<char>>,
    body: Map<Seq<char>, JsonView>,
    s: Seq<char>,
    lowered_text: Seq<char>,
)
    ensures
        ({
            let b = JsonView::Object(body);
            let kind = balance_after(provider, json::field(b, "balance_provider"@), lowered_text);
            let secret = balance_auth_after(auth, json::field(b, "balance_auth"@));
            &&& json::holds(body, "balance_provider"@, JsonView::Text(s)) ==> kind == lowered_text
            &&& json::holds(body, "balance_provider"@, JsonView::Null) ==> kind.len() == 0
            &&& !body.dom().contains("balance_provider"@) && provider is Some ==> kind == provider->0
            &&& json::holds(body, "balance_auth"@, JsonView::Text(s)) && text::trimmed(s).len() > 0
                ==> secret == SecretChangeView::Replace(text::trimmed(s))
            &&& json::holds(body, "balance_auth"@, JsonView::Text(s)) && text::trimmed(s).len() == 0
                ==> secret == SecretChangeView::Clear
            &&& json::holds(body, "balance_auth"@, JsonView::Null) ==> secret
                == SecretChangeView::Clear
            &&& !body.dom().contains("balance_auth"@) && auth is Some ==> secret
                == SecretChangeView::Keep(auth->0)
        }),
{
}

/// A new account is what a request says of it, field by field. What the request leaves out is: on,
/// of weight one, and not known to speak the OpenAI protocol.
pub proof fn lemma_new_account(
    body: Map<Seq<char>, JsonView>,
    balance: Seq<char>,
    protocol: Seq<char>,
    s: Seq<char>,
    n: i64,
)
    ensures
        ({
            let a = draft(JsonView::Object(body), balance, protocol);
            let set = if text::trimmed(s).len() > 0 {
                Some(text::trimmed(s))
            } else {
                None
            };
            &&& json::holds(body, "alias"@, JsonView::Text(s)) ==> a.alias == s
            &&& json::holds(body, "provider_id"@, JsonView::Text(s)) ==> a.provider_id == s
            &&& json::holds(body, "api_key"@, JsonView::Text(s)) ==> a.api_key == s
            &&& json::holds(body, "notes"@, JsonView::Text(s)) ==> a.notes == Some(s)
            &&& !body.dom().contains("notes"@) ==> a.notes is None
            &&& json::holds(body, "is_active"@, JsonView::Int(n as int)) ==> a.is_active == n
            &&& !body.dom().contains("is_active"@) ==> a.is_active == 1
            &&& json::holds(body, "weight"@, JsonView::Int(n as int)) ==> a.weight == n
            &&& !body.dom().contains("weight"@) ==> a.weight == 1
            &&& json::holds(body, "openai_compatible"@, JsonView::Int(n as int))
                ==> a.openai_compatible == n
            &&& !body.dom().contains("openai_compatible"@) ==> a.openai_compatible == 0
            &&& json::holds(body, "chat_endpoint"@, JsonView::Text(s)) ==> a.endpoints.chat == set
            &&& json::holds(body, "chat_endpoint"@, JsonView::Null) ==> a.endpoints.chat is None
            &&& !body.dom().contains("chat_endpoint"@) && json::holds(
                body,
                "base_url"@,
                JsonView::Text(s),
            ) ==> a.endpoints.chat == Some(s)
            &&& a.endpoints.chat is Some ==> a.base_url == a.endpoints.chat
            &&& a.endpoints.chat is None && json::holds(body, "base_url"@, JsonView::Text(s))
                ==> a.base_url == Some(s)
            &&& a.endpoints.chat is None && !body.dom().contains("base_url"@) ==> a.base_url is None
            &&& json::holds(body, "responses_endpoint"@, JsonView::Text(s)) ==> a.endpoints.responses
                == set
            &&& json::holds(body, "responses_endpoint"@, JsonView::Null)
                ==> a.endpoints.responses is None
            &&& !body.dom().contains("responses_endpoint"@) ==> a.endpoints.responses is None
            &&& json::holds(body, "messages_endpoint"@, JsonView::Text(s)) ==> a.endpoints.messages
                == set
            &&& json::holds(body, "messages_endpoint"@, JsonView::Null)
                ==> a.endpoints.messages is None
            &&& !body.dom().contains("messages_endpoint"@) && json::holds(
                body,
                "anthropic_base_url"@,
                JsonView::Text(s),
            ) ==> a.endpoints.messages == Some(s)
            &&& json::holds(body, "anthropic_base_url"@, JsonView::Text(s)) ==> a.anthropic_base_url
                == Some(s)
            &&& json::holds(body, "balance_auth"@, JsonView::Text(s)) ==> a.balance_auth
                == text::trimmed(s)
            &&& a.balance_provider == balance
            &&& protocol == "chat"@ || protocol == "responses"@ || protocol == "messages"@
                ==> a.default_protocol == protocol
        }),
{
}

/// A request to create an account is refused where a name, a provider or a key is missing or empty,
/// where no endpoint is left, and where the default protocol has none; and nowhere else, as far as the
/// body itself goes.
pub proof fn lemma_new_account_is_refused(
    body: Map<Seq<char>, JsonView>,
    balance: Seq<char>,
    protocol: Seq<char>,
)
    requires
        balance.len() == 0,
        protocol == "chat"@ || protocol == "responses"@ || protocol == "messages"@,
    ensures
        ({
            let e = draft(JsonView::Object(body), balance, protocol).endpoints;
            let named = |key: Seq<char>|
                body.dom().contains(key) && (body[key] matches JsonView::Text(s) && s.len() > 0);
            draft_error(JsonView::Object(body), balance, protocol) is None <==> named("alias"@)
                && named("provider_id"@) && named("api_key"@) && (protocol == "chat"@ && enabled(
                e.chat,
            ) || protocol == "responses"@ && enabled(e.responses) || protocol == "messages"@
                && enabled(e.messages))
        }),
        ({
            let refusal = draft_error(JsonView::Object(body), balance, protocol);
            refusal is Some ==> (refusal->0).0 == 400
        }),
{
}

/// Accounts that are switched on are listed before those that are switched off; of the former, those
/// with a sound balance come first. In each group the more active ones come first, then the newer.
pub proof fn lemma_list_order(a: ListedAccount, b: ListedAccount)
    ensures
        ({
            let first = rank_le(rank_of(a), rank_of(b)) && !rank_le(rank_of(b), rank_of(a));
            let group = |x: ListedAccount| (x.row.is_active != 0, listed_healthy(x));
            &&& a.row.is_active != 0 && b.row.is_active == 0 ==> first
            &&& a.row.is_active != 0 && b.row.is_active != 0 && listed_healthy(a) && !listed_healthy(
                b,
            ) ==> first
            &&& a.row.is_active == 0 && b.row.is_active == 0 && a.level > b.level ==> first
            &&& a.row.is_active == 0 && b.row.is_active == 0 && a.level == b.level && a.row.id
                > b.row.id ==> first
            &&& a.row.is_active != 0 && group(a) == group(b) && a.level > b.level ==> first
            &&& a.row.is_active != 0 && group(a) == group(b) && a.level == b.level && a.row.id
                > b.row.id ==> first
        }),
{
}

/// A balance is sound exactly where its last query said so, and where balances are queried at all.
pub proof fn lemma_sound_balance(
    says: Map<Seq<char>,
    JsonView>,
    provider: Option<Seq<char>>,
    b: bool,
)
    ensures
        provider == Some("none"@) ==> !healthy(Some(JsonView::Object(says)), provider),
        provider != Some("none"@) && json::holds(says, "ok"@, JsonView::Bool(b)) ==> healthy(
            Some(JsonView::Object(says)),
            provider,
        ) == b,
        !says.dom().contains("ok"@) ==> !healthy(Some(JsonView::Object(says)), provider),
        !healthy(None, provider),
{
}

/// An account is reported as deleted only where it was, as missing only where it was not there; all
/// else is a failure of the server.
pub proof fn lemma_deletion_reply(id: i64, outcome: Deletion)
    ensures
        deletion_reply(id, outcome).0 == 200 <==> outcome is Deleted,
        deletion_reply(id, outcome).0 == 404 <==> outcome is NoAccount,
        !(outcome is Deleted) && !(outcome is NoAccount) ==> deletion_reply(id, outcome).0 == 500,
        outcome is Deleted ==> json::field(deletion_reply(id, outcome).1, "success"@) == Some(
            JsonView::Bool(true),
        ) && json::field(deletion_reply(id, outcome).1, "message"@) is Some,
        !(outcome is Deleted) ==> json::field(deletion_reply(id, outcome).1, "error"@) is Some,
{
    reveal_strlit("success");
    reveal_strlit("message");
    assert("success"@[0] != "message"@[0]);
}

/// A kind of balance query that a request names must be a known one; none, and null, always is.
pub proof fn lemma_balance_kinds(given: JsonView, kind: Seq<char>)
    ensures
        !balance_unknown(None, kind),
        !balance_unknown(Some(JsonView::Null), kind),
        !(given is Null) ==> (balance_unknown(Some(given), kind) <==> kind.len() > 0 && !balance_kind(
            kind,
        )),
        balance_kind("none"@) && balance_kind("deepseek"@) && balance_kind("copilot"@)
            && balance_kind("openrouter"@) && balance_kind("commandcode"@) && balance_kind("api123"@),
        balance_kind("opencode"@) && balance_kind("opencode-go"@) && balance_kind("opencode_go"@)
            && balance_kind("opencode-zen"@) && balance_kind("opencode_zen"@) && balance_kind("zen"@),
        balance_kind("bailian"@) && balance_kind("dashscope"@) && balance_kind("aliyun"@),
{
}

/// Every endpoint that an account has is a URL, or the first that is none is named.
pub proof fn lemma_endpoints_are_urls(e: Endpoints)
    ensures
        first_bad_url(e) is None <==> (e.chat is Some ==> is_url(e.chat->0)) && (e.responses is Some
            ==> is_url(e.responses->0)) && (e.messages is Some ==> is_url(e.messages->0)),
        first_bad_url(e) is Some ==> !is_url(first_bad_url(e)->0) && (first_bad_url(e) == e.chat
            || first_bad_url(e) == e.responses || first_bad_url(e) == e.messages),
{
}

/// The aliases that an update affects are told where there are any, and only there.
pub proof fn lemma_affected_aliases(
    ordinary: Seq<Seq<char>>,
    aggregate: Seq<Seq<char>>,
    protocol: Seq<char>,
)
    ensures
        json::field(update_reply(ordinary, aggregate, protocol), "affectedAliases"@) is Some
            <==> ordinary.len() > 0 || aggregate.len() > 0,
        ordinary.len() > 0 || aggregate.len() > 0 ==> json::field(
            update_reply(ordinary, aggregate, protocol),
            "newDefaultProtocol"@,
        ) == Some(JsonView::Text(protocol)),
{
    reveal_strlit("success");
    reveal_strlit("message");
    reveal_strlit("affectedAliases");
    reveal_strlit("newDefaultProtocol");
    assert("affectedAliases"@.len() != "success"@.len());
    assert("affectedAliases"@.len() != "message"@.len());
    assert("affectedAliases"@.len() != "newDefaultProtocol"@.len());
}

/// An export has one line for each request, in order, under the line that names the columns. A line
/// begins with the time and the model, and ends with what came of the request.
pub proof fn lemma_export(rows: Seq<UsageRow>, u: UsageRow)
    ensures
        csv_text(rows.push(u)) == csv_text(rows) + csv_line(u),
        u.model is Some ==> (text::decimal_int(u.timestamp as int) + ","@ + u.model->0@
            + ","@).is_prefix_of(csv_line(u)),
        u.success != 0 ==> ("Success"@ + "\n"@).is_suffix_of(csv_line(u)),
        u.success == 0 ==> ("Failed"@ + "\n"@).is_suffix_of(csv_line(u)),
{
    assert(rows.push(u).drop_last() =~= rows);
    let line = csv_line(u);
    if u.model is Some {
        let start = text::decimal_int(u.timestamp as int) + ","@ + u.model->0@ + ","@;
        assert(line.subrange(0, start.len() as int) =~= start);
    }
    let end = (if u.success != 0 {
        "Success"@
    } else {
        "Failed"@
    }) + "\n"@;
    assert(line.subrange(line.len() - end.len(), line.len() as int) =~= end);
}

/// The list shows an account with all that is stored of it under its own name, but for its secrets,
/// which are never shown.
pub proof fn lemma_list_entry(
    a: AccountRow,
    n: Activity,
    healthy: bool,
    tier: i64,
)
    ensures
        ({
            let v = list_entry_view(a, n, healthy, tier);
            &&& json::field(v, "id"@) == Some(JsonView::Int(a.id as int))
            &&& json::field(v, "alias"@) == Some(JsonView::Text(a.alias@))
            &&& json::field(v, "provider_id"@) == Some(JsonView::Text(a.provider_id@))
            &&& json::field(v, "api_key"@) == Some(JsonView::Null)
            &&& json::field(v, "base_url"@) == Some(
                json::text_or_null(json::some_string(a.base_url)),
            )
            &&& json::field(v, "anthropic_base_url"@) == Some(
                json::text_or_null(json::some_string(a.anthropic_base_url)),
            )
            &&& json::field(v, "is_active"@) == Some(JsonView::Int(a.is_active as int))
            &&& json::field(v, "weight"@) == Some(JsonView::Int(a.weight as int))
            &&& json::field(v, "notes"@) == Some(json::text_or_null(json::some_string(a.notes)))
            &&& json::field(v, "openai_compatible"@) == Some(json::int_or_null(a.openai_compatible))
            &&& json::field(v, "created_at"@) == Some(
                json::text_or_null(json::some_string(a.created_at)),
            )
            &&& json::field(v, "chat_endpoint"@) == Some(
                json::text_or_null(json::some_string(a.chat_endpoint)),
            )
            &&& json::field(v, "responses_endpoint"@) == Some(
                json::text_or_null(json::some_string(a.responses_endpoint)),
            )
            &&& json::field(v, "messages_endpoint"@) == Some(
                json::text_or_null(json::some_string(a.messages_endpoint)),
            )
            &&& json::field(v, "default_protocol"@) == Some(
                json::text_or_null(json::some_string(a.default_protocol)),
            )
            &&& json::field(v, "balance_provider"@) == Some(
                json::text_or_null(json::some_string(a.balance_provider)),
            )
            &&& json::field(v, "balance_auth"@) == Some(JsonView::Null)
            &&& json::field(v, "requests_5h"@) == Some(n.requests_5h@)
            &&& json::field(v, "requests_24h"@) == Some(n.requests_24h@)
            &&& json::field(v, "requests_7d"@) == Some(n.requests_7d@)
            &&& json::field(v, "activity_score"@) == Some(n.score@)
            &&& json::field(v, "activity_bucket"@) == Some(n.bucket@)
            &&& json::field(v, "balance_ok"@) == Some(JsonView::Bool(healthy))
            &&& json::field(v, "balance_tier"@) == Some(JsonView::Int(tier as int))
        }),
{
    reveal_strlit("id");
    reveal_strlit("alias");
    reveal_strlit("provider_id");
    reveal_strlit("api_key");
    reveal_strlit("base_url");
    reveal_strlit("anthropic_base_url");
    reveal_strlit("is_active");
    reveal_strlit("weight");
    reveal_strlit("notes");
    reveal_strlit("openai_compatible");
    reveal_strlit("created_at");
    reveal_strlit("chat_endpoint");
    reveal_strlit("responses_endpoint");
    reveal_strlit("messages_endpoint");
    reveal_strlit("default_protocol");
    reveal_strlit("balance_provider");
    reveal_strlit("balance_auth");
    reveal_strlit("requests_5h");
    reveal_strlit("requests_24h");
    reveal_strlit("requests_7d");
    reveal_strlit("activity_score");
    reveal_strlit("activity_bucket");
    reveal_strlit("balance_ok");
    reveal_strlit("balance_tier");
    assert("id"@.len() == 2 && "alias"@.len() == 5 && "provider_id"@.len() == 11
        && "api_key"@.len() == 7 && "base_url"@.len() == 8 && "anthropic_base_url"@.len() == 18
        && "is_active"@.len() == 9 && "weight"@.len() == 6 && "notes"@.len() == 5
        && "openai_compatible"@.len() == 17 && "created_at"@.len() == 10
        && "chat_endpoint"@.len() == 13 && "responses_endpoint"@.len() == 18
        && "messages_endpoint"@.len() == 17 && "default_protocol"@.len() == 16
        && "balance_provider"@.len() == 16 && "balance_auth"@.len() == 12
        && "requests_5h"@.len() == 11 && "requests_24h"@.len() == 12 && "requests_7d"@.len() == 11
        && "activity_score"@.len() == 14 && "activity_bucket"@.len() == 15
        && "balance_ok"@.len() == 10 && "balance_tier"@.len() == 12);
    assert("alias"@[0] != "notes"@[0]);
    assert("provider_id"@[0] != "requests_5h"@[0]);
    assert("provider_id"@[0] != "requests_7d"@[0]);
    assert("anthropic_base_url"@[0] != "responses_endpoint"@[0]);
    assert("openai_compatible"@[0] != "messages_endpoint"@[0]);
    assert("created_at"@[0] != "balance_ok"@[0]);
    assert("default_protocol"@[0] != "balance_provider"@[0]);
    assert("balance_auth"@[0] != "requests_24h"@[0]);
    assert("balance_auth"@[8] != "balance_tier"@[8]);
    assert("requests_5h"@[9] != "requests_7d"@[9]);
    assert("requests_24h"@[0] != "balance_tier"@[0]);
}

/// The kind of balance query and the default protocol of a new account are what the request names, in
/// lower case and without the white space around them. Without a name there is no balance query, and
/// the protocol is chat.
pub proof fn lemma_given_names(body: Map<Seq<char>, JsonView>, s: Seq<char>)
    ensures
        ({
            let b = JsonView::Object(body);
            let low = text::lowercase(text::trimmed(s));
            &&& json::holds(body, "balance_provider"@, JsonView::Text(s)) ==> given_balance_provider(b)
                == low && updated_balance_text(b) == low
            &&& !body.dom().contains("balance_provider"@) ==> given_balance_provider(b).len() == 0
            &&& json::holds(body, "default_protocol"@, JsonView::Text(s)) ==> given_protocol(b) == low
            &&& !body.dom().contains("default_protocol"@) ==> given_protocol(b) == "chat"@
        }),
{
}

/// An account wants the protocol that a request names, else the stored one, and chat where neither is
/// there or known.
pub proof fn lemma_wanted_protocol(a: StoredAccount, body: Map<Seq<char>, JsonView>, low: Seq<char>)
    ensures
        ({
            let wanted = protocol_wanted(a, JsonView::Object(body), low);
            &&& wanted == "chat"@ || wanted == "responses"@ || wanted == "messages"@
            &&& !body.dom().contains("default_protocol"@) && a.default_protocol is None ==> wanted
                == "chat"@
            &&& !body.dom().contains("default_protocol"@) && a.default_protocol is Some
                && !protocol_name(a.default_protocol->0@) ==> wanted == "chat"@
            &&& body.dom().contains("default_protocol"@) && body["default_protocol"@] is Text
                && !protocol_name(low) ==> wanted == "chat"@
            &&& body.dom().contains("default_protocol"@) && !(body["default_protocol"@] is Text)
                ==> wanted == "chat"@
        }),
{
}

/// The aliases that an update affects are told by their kinds.
pub proof fn lemma_affected_kinds(
    ordinary: Seq<Seq<char>>,
    aggregate: Seq<Seq<char>>,
    protocol: Seq<char>,
)
    requires
        ordinary.len() > 0 || aggregate.len() > 0,
    ensures
        ({
            let told = json::field(
                update_reply(ordinary, aggregate, protocol),
                "affectedAliases"@,
            )->0;
            &&& json::field(told, "ordinary"@) == Some(json::text_array(ordinary))
            &&& json::field(told, "aggregate"@) == Some(json::text_array(aggregate))
        }),
        json::field(update_reply(ordinary, aggregate, protocol), "success"@) == Some(
            JsonView::Bool(true),
        ),
{
    reveal_strlit("success");
    reveal_strlit("message");
    reveal_strlit("affectedAliases");
    reveal_strlit("newDefaultProtocol");
    reveal_strlit("ordinary");
    reveal_strlit("aggregate");
    assert("affectedAliases"@.len() == 15 && "success"@.len() == 7 && "message"@.len() == 7
        && "newDefaultProtocol"@.len() == 18 && "ordinary"@.len() == 8 && "aggregate"@.len() == 9);
    assert("success"@[0] != "message"@[0]);
}

/// What is stored of a balance is read without the white space around it; a blank text says nothing.
pub proof fn lemma_cached_result(s: Seq<char>)
    ensures
        cached_result(None) is None,
        text::trimmed(s).len() == 0 ==> cached_result(Some(s)) is None,
        text::trimmed(s).len() > 0 ==> cached_result(Some(s)) == json::parsed(text::trimmed(s)),
{
}

} // verus!
