//! The messages endpoint: which dispatcher serves a request, and how an account is asked.

use vstd::prelude::*;
use crate::json::{self, Json, JsonView};
use crate::routes::v1::aggregate::Manner;
use crate::routes::v1::dispatch::{self, Account, Ingress, Protocol, ProviderRequest, Usage};
use crate::routes::v1::openai::{self, Route};
use crate::text;

verus! {

/// Chooses the dispatcher of a messages request. An aggregate alias goes before any other name, and
/// a resolved alias keeps the protocol it was given.
pub fn messages(is_aggregate: bool, resolved: bool) -> (r: Route)
    ensures
        r == messages_route(is_aggregate, resolved),
        r == (if is_aggregate {
            Route::Aggregate(Manner::Converting(Protocol::Messages))
        } else if resolved {
            Route::Accounts(Ingress::Converting(Protocol::Messages))
        } else {
            Route::Accounts(Ingress::Anthropic)
        }),
{
    if is_aggregate {
        Route::Aggregate(Manner::Converting(Protocol::Messages))
    } else if resolved {
        Route::Accounts(Ingress::Converting(Protocol::Messages))
    } else {
        Route::Accounts(Ingress::Anthropic)
    }
}

/// How an account is asked a messages request.
pub enum MessagesPlan {
    /// As it is, at this base URL.
    Passthrough(String),
    /// Converted to a chat request, at this URL.
    Chat(String),
}

/// How an account is asked a messages request, URLs by their characters.
pub enum MessagesPlanView {
    Passthrough(Seq<char>),
    Chat(Seq<char>),
}

impl View for MessagesPlan {
    type V = MessagesPlanView;

    open spec fn view(&self) -> MessagesPlanView {
        match *self {
            MessagesPlan::Passthrough(u) => MessagesPlanView::Passthrough(u@),
            MessagesPlan::Chat(u) => MessagesPlanView::Chat(u@),
        }
    }
}

/// A URL without surrounding white space, if anything is left of it.
pub open spec fn filled(url: Option<Seq<char>>) -> Option<Seq<char>> {
    match url {
        Some(u) => if text::trimmed(u).len() > 0 {
            Some(text::trimmed(u))
        } else {
            None
        },
        None => None,
    }
}

/// A URL without surrounding white space, if anything is left of it.
pub fn filled_url(url: &Option<String>) -> (r: Option<String>)
    ensures
        json::some_string(r) == filled(json::some_string(*url)),
{
    match url {
        Some(u) => {
            let t = text::trim(u.as_str());
            if t.as_str().is_empty() {
                None
            } else {
                Some(t)
            }
        },
        None => None,
    }
}

/// How an account is asked a messages request: as it is where the account speaks that protocol,
/// converted where it only speaks chat, and as it is at Anthropic where it says nothing.
pub open spec fn messages_plan(a: Account) -> MessagesPlanView {
    match filled(json::some_string(a.anthropic_base_url)) {
        Some(u) => MessagesPlanView::Passthrough(u),
        None => match filled(json::some_string(a.base_url)) {
            Some(u) => MessagesPlanView::Chat(text::stripped_end(u, '/') + "/chat/completions"@),
            None => MessagesPlanView::Passthrough("https://api.anthropic.com/v1"@),
        },
    }
}

/// Chooses how an account is asked a messages request.
pub fn plan_messages(account: &Account) -> (r: MessagesPlan)
    ensures
        r@ == messages_plan(*account),
{
    match filled_url(&account.anthropic_base_url) {
        Some(u) => MessagesPlan::Passthrough(u),
        None => match filled_url(&account.base_url) {
            Some(u) => MessagesPlan::Chat(
                text::strip_end(u.as_str(), '/').concat("/chat/completions"),
            ),
            None => MessagesPlan::Passthrough("https://api.anthropic.com/v1".to_owned()),
        },
    }
}

/// The chat request that a messages request was converted to.
pub fn chat_request(url: String, api_key: &str, body: Json) -> (r: ProviderRequest)
    ensures
        r.method@ == "POST"@,
        r.url == url,
        dispatch::headers_view(r.headers@) == dispatch::bearer_headers(api_key@),
        r.body == body,
{
    ProviderRequest { method: "POST".to_owned(), url, headers: dispatch::bearer(api_key), body }
}

/// The usage that is logged of a converted answer: the counts as the upstream gives them.
pub fn converted_usage(data: &Json, cache_read: i64, cache_creation: i64) -> (r: Usage)
    ensures
        r == usage_after_conversion(data@, cache_read, cache_creation),
        r == (Usage {
            input: openai::count_in(json::field(data@, "usage"@), "prompt_tokens"@),
            output: openai::count_in(json::field(data@, "usage"@), "completion_tokens"@),
            cache_read,
            cache_creation,
        }),
{
    Usage {
        input: openai::count(data.get("usage"), "prompt_tokens"),
        output: openai::count(data.get("usage"), "completion_tokens"),
        cache_read,
        cache_creation,
    }
}

/// The dispatcher of a messages request.
pub open spec fn messages_route(is_aggregate: bool, resolved: bool) -> Route {
    if is_aggregate {
        Route::Aggregate(Manner::Converting(Protocol::Messages))
    } else if resolved {
        Route::Accounts(Ingress::Converting(Protocol::Messages))
    } else {
        Route::Accounts(Ingress::Anthropic)
    }
}

/// The usage that an answer in the chat protocol reports, beside what is known of the cache.
pub open spec fn usage_after_conversion(data: JsonView, cache_read: i64, cache_creation: i64) -> Usage {
    Usage {
        input: openai::count_in(json::field(data, "usage"@), "prompt_tokens"@),
        output: openai::count_in(json::field(data, "usage"@), "completion_tokens"@),
        cache_read,
        cache_creation,
    }
}

/// A messages request is answered in the messages protocol whoever serves it. An aggregate alias goes
/// before any other name, and only a name that stands for nothing is not converted.
pub proof fn lemma_messages_routes(is_aggregate: bool, resolved: bool)
    ensures
        ({
            let r = messages_route(is_aggregate, resolved);
            &&& openai::route_protocol(r) == Some(Protocol::Messages)
            &&& r is Aggregate <==> is_aggregate
            &&& openai::route_converts(r) <==> is_aggregate || resolved
        }),
{
}

/// A messages request goes to the account's Anthropic address where it has one that is not blank, and
/// as a chat request to its base address where only that one is filled in. Without either it goes to
/// Anthropic itself.
pub proof fn lemma_messages_plan(a: Account)
    ensures
        a.anthropic_base_url is Some && text::trimmed(a.anthropic_base_url->0@).len() > 0
            ==> messages_plan(a) == MessagesPlanView::Passthrough(
            text::trimmed(a.anthropic_base_url->0@),
        ),
        a.anthropic_base_url is None && a.base_url is Some && text::trimmed(a.base_url->0@).len() > 0
            ==> messages_plan(a) == MessagesPlanView::Chat(
            text::stripped_end(text::trimmed(a.base_url->0@), '/') + "/chat/completions"@,
        ),
        a.anthropic_base_url is None && a.base_url is None ==> messages_plan(a)
            == MessagesPlanView::Passthrough("https://api.anthropic.com/v1"@),
        messages_plan(a) is Chat ==> a.anthropic_base_url is None || text::trimmed(
            a.anthropic_base_url->0@,
        ).len() == 0,
{
}

/// The input is what the answer counts as prompt, the output what it counts as completion.
pub proof fn lemma_usage_after_conversion(
    data: Map<Seq<char>, JsonView>,
    usage: Map<Seq<char>, JsonView>,
    cache_read: i64,
    cache_creation: i64,
    n: i64,
)
    requires
        json::holds(data, "usage"@, JsonView::Object(usage)),
    ensures
        ({
            let u = usage_after_conversion(JsonView::Object(data), cache_read, cache_creation);
            &&& json::holds(usage, "prompt_tokens"@, JsonView::Int(n as int)) ==> u.input == n
            &&& !usage.dom().contains("prompt_tokens"@) ==> u.input == 0
            &&& json::holds(usage, "completion_tokens"@, JsonView::Int(n as int)) ==> u.output == n
            &&& !usage.dom().contains("completion_tokens"@) ==> u.output == 0
            &&& u.cache_read == cache_read && u.cache_creation == cache_creation
        }),
{
}

} // verus!
