//! The OpenAI endpoints: which dispatcher serves a request, and how answers cross protocols.

use vstd::prelude::*;
use crate::aggregate_probe;
use crate::json::{self, Json, JsonView};
use crate::routes::v1::aggregate::Manner;
use crate::routes::v1::dispatch::{self, Ingress, Protocol, ProviderRequest, Usage};

verus! {

/// The dispatcher that serves a gateway request.
#[derive(Clone, Copy, PartialEq, Eq, Structural, Debug)]
pub enum Route {
    /// Failover over the candidates of an aggregate alias.
    Aggregate(Manner),
    /// Failover over the accounts of a resolved model, in the protocol each is reached by.
    Accounts(Ingress),
}

/// The model name that a request body gives, as it is written.
pub open spec fn raw_model(body: JsonView) -> Seq<char> {
    match json::text_in(json::field(body, "model"@)) {
        Some(m) => m,
        None => seq![],
    }
}

/// The model name that a request body gives, as it is written; empty where there is none.
pub fn requested_model(body: &Json) -> (r: String)
    ensures
        r@ == raw_model(body@),
        r@.len() > 0 ==> json::field(body@, "model"@) == Some(JsonView::Text(r@)),
{
    match body.str_at("model") {
        Some(m) => m.to_owned(),
        None => {
            let none = String::new();
            assert(none@ =~= seq![]);
            none
        },
    }
}

/// The dispatcher of a chat request.
pub open spec fn chat_route(aggregate_wants_responses: Option<bool>, resolved: bool) -> Route {
    match aggregate_wants_responses {
        Some(true) => Route::Aggregate(Manner::Converting(Protocol::Chat)),
        Some(false) => Route::Aggregate(Manner::Plain(Protocol::Chat)),
        None => if resolved {
            Route::Accounts(Ingress::Converting(Protocol::Chat))
        } else {
            Route::Accounts(Ingress::OpenAi)
        },
    }
}

/// The dispatcher of a responses request.
pub open spec fn responses_route(is_aggregate: bool, sanitized_model: Seq<char>, resolved: bool) -> Route {
    if is_aggregate {
        Route::Aggregate(Manner::Plain(Protocol::Responses))
    } else if sanitized_model.len() > 0 && resolved {
        Route::Accounts(Ingress::Converting(Protocol::Responses))
    } else {
        Route::Accounts(Ingress::OpenAi)
    }
}

/// The protocol of the clients that a dispatcher names, where it names one.
pub open spec fn route_protocol(r: Route) -> Option<Protocol> {
    match r {
        Route::Aggregate(Manner::Plain(p)) => Some(p),
        Route::Aggregate(Manner::Converting(p)) => Some(p),
        Route::Accounts(Ingress::Converting(p)) => Some(p),
        Route::Accounts(Ingress::Anthropic) => Some(Protocol::Messages),
        Route::Accounts(Ingress::OpenAi) => None,
    }
}

/// Whether a dispatcher converts requests to the protocol that an upstream is reached by.
pub open spec fn route_converts(r: Route) -> bool {
    match r {
        Route::Aggregate(m) => m is Converting,
        Route::Accounts(i) => i is Converting,
    }
}

/// Chooses the dispatcher of a chat request. An aggregate alias goes before any other name.
pub fn chat_completions(aggregate_wants_responses: Option<bool>, resolved: bool) -> (r: Route)
    ensures
        r == chat_route(aggregate_wants_responses, resolved),
        r is Aggregate <==> aggregate_wants_responses is Some,
        route_converts(r) == (aggregate_wants_responses == Some(true) || (
        aggregate_wants_responses is None && resolved)),
        route_protocol(r) is Some ==> route_protocol(r) == Some(Protocol::Chat),
{
    match aggregate_wants_responses {
        Some(wants) => if wants {
            Route::Aggregate(Manner::Converting(Protocol::Chat))
        } else {
            Route::Aggregate(Manner::Plain(Protocol::Chat))
        },
        None => if resolved {
            Route::Accounts(Ingress::Converting(Protocol::Chat))
        } else {
            Route::Accounts(Ingress::OpenAi)
        },
    }
}

/// Chooses the dispatcher of a responses request. A name that is empty once sanitized resolves to
/// nothing.
pub fn responses(is_aggregate: bool, sanitized_model: &str, resolved: bool) -> (r: Route)
    ensures
        r == responses_route(is_aggregate, sanitized_model@, resolved),
        r is Aggregate <==> is_aggregate,
        route_converts(r) == (!is_aggregate && resolved && sanitized_model@.len() > 0),
        route_protocol(r) is Some ==> route_protocol(r) == Some(Protocol::Responses),
{
    if is_aggregate {
        Route::Aggregate(Manner::Plain(Protocol::Responses))
    } else if !sanitized_model.is_empty() && resolved {
        Route::Accounts(Ingress::Converting(Protocol::Responses))
    } else {
        Route::Accounts(Ingress::OpenAi)
    }
}

/// How an answer gets from an account's protocol to the client's.
#[derive(Clone, Copy, PartialEq, Eq, Structural, Debug)]
pub enum Back {
    Passthrough,
    ChatFromResponses,
    ChatFromMessages,
    MessagesFromResponses,
    MessagesFromChat,
    ResponsesFromChat,
    ResponsesFromMessages,
}

/// The protocol of the answers that a conversion reads; none where nothing is converted.
pub open spec fn reads_from(b: Back) -> Option<Protocol> {
    match b {
        Back::Passthrough => None,
        Back::MessagesFromChat => Some(Protocol::Chat),
        Back::ResponsesFromChat => Some(Protocol::Chat),
        Back::ChatFromResponses => Some(Protocol::Responses),
        Back::MessagesFromResponses => Some(Protocol::Responses),
        Back::ChatFromMessages => Some(Protocol::Messages),
        Back::ResponsesFromMessages => Some(Protocol::Messages),
    }
}

/// The protocol of the answers that a conversion writes; none where nothing is converted.
pub open spec fn writes_to(b: Back) -> Option<Protocol> {
    match b {
        Back::Passthrough => None,
        Back::ChatFromResponses => Some(Protocol::Chat),
        Back::ChatFromMessages => Some(Protocol::Chat),
        Back::ResponsesFromChat => Some(Protocol::Responses),
        Back::ResponsesFromMessages => Some(Protocol::Responses),
        Back::MessagesFromResponses => Some(Protocol::Messages),
        Back::MessagesFromChat => Some(Protocol::Messages),
    }
}

/// How an answer gets from the target protocol to the client's.
pub open spec fn way_back(ingress: Protocol, target: Protocol) -> Back {
    match (ingress, target) {
        (Protocol::Chat, Protocol::Responses) => Back::ChatFromResponses,
        (Protocol::Chat, Protocol::Messages) => Back::ChatFromMessages,
        (Protocol::Messages, Protocol::Responses) => Back::MessagesFromResponses,
        (Protocol::Messages, Protocol::Chat) => Back::MessagesFromChat,
        (Protocol::Responses, Protocol::Chat) => Back::ResponsesFromChat,
        (Protocol::Responses, Protocol::Messages) => Back::ResponsesFromMessages,
        _ => Back::Passthrough,
    }
}

/// How an answer gets from the target protocol to the client's. Equal protocols need no conversion,
/// different ones always do.
pub fn back_conversion(ingress: Protocol, target: Protocol) -> (r: Back)
    ensures
        r == way_back(ingress, target),
        (r == Back::Passthrough) == (ingress == target),
        ingress != target ==> reads_from(r) == Some(target) && writes_to(r) == Some(ingress),
{
    match (ingress, target) {
        (Protocol::Chat, Protocol::Responses) => Back::ChatFromResponses,
        (Protocol::Chat, Protocol::Messages) => Back::ChatFromMessages,
        (Protocol::Messages, Protocol::Responses) => Back::MessagesFromResponses,
        (Protocol::Messages, Protocol::Chat) => Back::MessagesFromChat,
        (Protocol::Responses, Protocol::Chat) => Back::ResponsesFromChat,
        (Protocol::Responses, Protocol::Messages) => Back::ResponsesFromMessages,
        _ => Back::Passthrough,
    }
}

/// Whether an answer is read as a whole before it goes out.
pub open spec fn whole_answer(back: Back, streaming: bool) -> bool {
    !streaming || back == Back::ResponsesFromChat || back == Back::ResponsesFromMessages
}

/// Whether an answer is read as a whole before it goes out. An answer that becomes a responses
/// answer always is, whatever the client asked for.
pub fn reads_whole(back: Back, streaming: bool) -> (r: bool)
    ensures
        r == (!streaming || back == Back::ResponsesFromChat || back
            == Back::ResponsesFromMessages),
        r == whole_answer(back, streaming),
        r == (!streaming || writes_to(back) == Some(Protocol::Responses)),
{
    match back {
        Back::ResponsesFromChat => true,
        Back::ResponsesFromMessages => true,
        _ => !streaming,
    }
}

/// A count in a usage object; zero where there is none.
pub open spec fn count_in(usage: Option<JsonView>, key: Seq<char>) -> i64 {
    match usage {
        Some(u) => match json::i64_in(json::field(u, key)) {
            Some(n) => n,
            None => 0,
        },
        None => 0,
    }
}

/// A count in a usage object; zero where there is none.
pub fn count(usage: Option<&Json>, key: &str) -> (r: i64)
    ensures
        r == count_in(json::some_view(usage), key@),
{
    match usage {
        Some(u) => match u.get(key) {
            Some(n) => match n.as_i64() {
                Some(n) => n,
                None => 0,
            },
            None => 0,
        },
        None => 0,
    }
}

/// The counts of a usage object of the messages protocol.
pub open spec fn messages_usage(usage: Option<JsonView>) -> Usage {
    Usage {
        input: count_in(usage, "input_tokens"@),
        output: count_in(usage, "output_tokens"@),
        cache_read: count_in(usage, "cache_read_input_tokens"@),
        cache_creation: count_in(usage, "cache_creation_input_tokens"@),
    }
}

fn usage_of_messages(usage: Option<&Json>) -> (r: Usage)
    ensures
        r == messages_usage(json::some_view(usage)),
{
    Usage {
        input: count(usage, "input_tokens"),
        output: count(usage, "output_tokens"),
        cache_read: count(usage, "cache_read_input_tokens"),
        cache_creation: count(usage, "cache_creation_input_tokens"),
    }
}

/// The usage of an answer in the messages protocol.
pub fn anthropic_usage(data: &Json) -> (r: Usage)
    ensures
        r == messages_usage(json::field(data@, "usage"@)),
{
    usage_of_messages(data.get("usage"))
}

/// Whether a usage object counts the cache apart from the input.
pub open spec fn counts_cache_apart(usage: JsonView) -> bool {
    json::field(usage, "cache_read_input_tokens"@) is Some || json::field(
        usage,
        "cache_creation_input_tokens"@,
    ) is Some
}

/// The usage of an answer that goes out as it came. An answer that counts the cache apart is
/// trusted; elsewhere the cached tokens are taken off the input. `raw`, `output` and `cache_read` are
/// the counts of the OpenAI shape.
pub open spec fn unconverted_usage(data: JsonView, raw: i64, output: i64, cache_read: i64) -> Usage {
    match json::field(data, "usage"@) {
        Some(usage) if usage is Object => if counts_cache_apart(usage) {
            messages_usage(Some(usage))
        } else if json::field(usage, "input_tokens"@) is Some {
            dispatch::openai_usage(
                count_in(Some(usage), "input_tokens"@),
                count_in(Some(usage), "output_tokens"@),
                cache_read,
            )
        } else {
            dispatch::openai_usage(raw, output, cache_read)
        },
        _ => dispatch::no_usage(),
    }
}

/// Whether the counts of an answer are read after its conversion, rather than as they came.
pub fn counts_after_conversion(back: Back) -> (r: bool)
    ensures
        r == (back is ChatFromResponses || back is ChatFromMessages),
        r == (writes_to(back) == Some(Protocol::Chat)),
{
    match back {
        Back::ChatFromResponses => true,
        Back::ChatFromMessages => true,
        _ => false,
    }
}

/// Whether the cached tokens of an answer are read after its conversion, rather than as they came.
pub fn cache_after_conversion(back: Back) -> (r: bool)
    ensures
        r == (back is ChatFromMessages),
        r == (reads_from(back) == Some(Protocol::Messages) && writes_to(back) == Some(
            Protocol::Chat,
        )),
{
    match back {
        Back::ChatFromMessages => true,
        _ => false,
    }
}

/// The count of an answer that the cached tokens are taken off, where they are.
pub open spec fn count_with_cache(back: Back, data: JsonView, raw: i64) -> Option<i64> {
    match back {
        Back::Passthrough => match json::field(data, "usage"@) {
            Some(usage) if usage is Object => if counts_cache_apart(usage) {
                None
            } else if json::field(usage, "input_tokens"@) is Some {
                Some(count_in(Some(usage), "input_tokens"@))
            } else {
                Some(raw)
            },
            _ => None,
        },
        Back::MessagesFromResponses => None,
        Back::ResponsesFromMessages => None,
        _ => Some(raw),
    }
}

/// Whether the cached tokens can be taken off the count of an answer, where they are.
pub open spec fn cache_comes_off(back: Back, data: JsonView, raw: i64, cache_read: i64) -> bool {
    match count_with_cache(back, data, raw) {
        Some(n) => i64::MIN <= n - cache_read <= i64::MAX,
        None => true,
    }
}

/// The count of an answer that the cached tokens are taken off, where they are.
pub fn counted_with_cache(back: Back, data: &Json, raw: i64) -> (r: Option<i64>)
    ensures
        r == count_with_cache(back, data@, raw),
{
    match back {
        Back::Passthrough => {
            let usage = match data.get("usage") {
                Some(u) => u,
                None => {
                    return None;
                },
            };
            match usage {
                Json::Object(_) => {},
                _ => {
                    return None;
                },
            }
            if usage.get("cache_read_input_tokens").is_some() || usage.get(
                "cache_creation_input_tokens",
            ).is_some() {
                None
            } else if usage.get("input_tokens").is_some() {
                Some(count(Some(usage), "input_tokens"))
            } else {
                Some(raw)
            }
        },
        Back::MessagesFromResponses => None,
        Back::ResponsesFromMessages => None,
        _ => Some(raw),
    }
}

/// The usage of an answer that goes out as it came.
pub fn passthrough_usage(data: &Json, raw: i64, output: i64, cache_read: i64) -> (r: Usage)
    requires
        cache_comes_off(Back::Passthrough, data@, raw, cache_read),
    ensures
        r == unconverted_usage(data@, raw, output, cache_read),
{
    let usage = match data.get("usage") {
        Some(u) => u,
        None => {
            return Usage { input: 0, output: 0, cache_read: 0, cache_creation: 0 };
        },
    };
    match usage {
        Json::Object(_) => {},
        _ => {
            return Usage { input: 0, output: 0, cache_read: 0, cache_creation: 0 };
        },
    }
    if usage.get("cache_read_input_tokens").is_some() || usage.get(
        "cache_creation_input_tokens",
    ).is_some() {
        return usage_of_messages(Some(usage));
    }
    if usage.get("input_tokens").is_some() {
        let input: i64 = count(Some(usage), "input_tokens");
        let out: i64 = count(Some(usage), "output_tokens");
        return Usage {
            input: dispatch::fresh_tokens(input, cache_read),
            output: out,
            cache_read,
            cache_creation: 0,
        };
    }
    Usage {
        input: dispatch::fresh_tokens(raw, cache_read),
        output,
        cache_read,
        cache_creation: 0,
    }
}

/// The usage of a converted or unconverted answer, given the upstream's own data and the counts of
/// the OpenAI shape.
pub open spec fn answer_usage(
    back: Back,
    data: JsonView,
    raw: i64,
    output: i64,
    cache_read: i64,
) -> Usage {
    match back {
        Back::Passthrough => unconverted_usage(data, raw, output, cache_read),
        Back::MessagesFromResponses => messages_usage(json::field(data, "usage"@)),
        Back::ResponsesFromMessages => messages_usage(json::field(data, "usage"@)),
        _ => dispatch::openai_usage(raw, output, cache_read),
    }
}

/// The usage of a converted or unconverted answer.
pub fn usage_of_answer(back: Back, data: &Json, raw: i64, output: i64, cache_read: i64) -> (r: Usage)
    requires
        cache_comes_off(back, data@, raw, cache_read),
    ensures
        r == answer_usage(back, data@, raw, output, cache_read),
{
    match back {
        Back::Passthrough => passthrough_usage(data, raw, output, cache_read),
        Back::MessagesFromResponses => anthropic_usage(data),
        Back::ResponsesFromMessages => anthropic_usage(data),
        _ => Usage {
            input: dispatch::fresh_tokens(raw, cache_read),
            output,
            cache_read,
            cache_creation: 0,
        },
    }
}

/// The request by which a chat request is tried again at the messages address of an account. `body` is
/// the converted request.
pub fn anthropic_fallback_request(url: String, api_key: &str, body: Json) -> (r: ProviderRequest)
    ensures
        r.method@ == "POST"@,
        r.url == url,
        dispatch::headers_view(r.headers@) == aggregate_probe::messages_headers(api_key@),
        r.body == body,
{
    ProviderRequest {
        method: "POST".to_owned(),
        url,
        headers: aggregate_probe::write_messages_headers(api_key),
        body,
    }
}

/// The usage that is logged of an answer from the messages address: the counts as they are given,
/// none from the cache.
pub fn anthropic_fallback_response(data: &Json) -> (r: Usage)
    ensures
        r == (Usage {
            input: count_in(json::field(data@, "usage"@), "input_tokens"@),
            output: count_in(json::field(data@, "usage"@), "output_tokens"@),
            cache_read: 0,
            cache_creation: 0,
        }),
{
    Usage {
        input: count(data.get("usage"), "input_tokens"),
        output: count(data.get("usage"), "output_tokens"),
        cache_read: 0,
        cache_creation: 0,
    }
}

/// Whatever protocols a client and an account speak, the answer gets to the client: a conversion
/// reads what the account speaks and writes what the client speaks, and there is one exactly where
/// the two differ. No two pairs of different protocols share a conversion.
pub proof fn lemma_answer_reaches_client(
    ingress: Protocol,
    target: Protocol,
    other_ingress: Protocol,
    other_target: Protocol,
)
    ensures
        way_back(ingress, target) == Back::Passthrough <==> ingress == target,
        ingress != target ==> reads_from(way_back(ingress, target)) == Some(target),
        ingress != target ==> writes_to(way_back(ingress, target)) == Some(ingress),
        ingress != target && way_back(ingress, target) == way_back(other_ingress, other_target)
            ==> ingress == other_ingress && target == other_target,
{
}

/// An answer is read as a whole where the client wants no stream, whatever is converted. Where it
/// wants one, only an answer that becomes a responses answer is read as a whole.
pub proof fn lemma_streams_stay_streams(ingress: Protocol, target: Protocol)
    ensures
        whole_answer(way_back(ingress, target), false),
        whole_answer(way_back(ingress, target), true) <==> ingress == Protocol::Responses && target
            != Protocol::Responses,
{
}

/// A request goes to the candidates of an aggregate alias exactly where its name is one. Elsewhere
/// it goes to the accounts of a model, converted exactly where the name was resolved. A dispatcher
/// never takes it for a request of another protocol.
pub proof fn lemma_routes(wants: Option<bool>, aggregate: bool, model: Seq<char>, resolved: bool)
    ensures
        chat_route(wants, resolved) is Aggregate <==> wants is Some,
        responses_route(aggregate, model, resolved) is Aggregate <==> aggregate,
        wants is Some ==> route_converts(chat_route(wants, resolved)) == wants->0,
        wants is None ==> route_converts(chat_route(wants, resolved)) == resolved,
        aggregate ==> !route_converts(responses_route(aggregate, model, resolved)),
        !aggregate && model.len() > 0 ==> route_converts(responses_route(aggregate, model, resolved))
            == resolved,
        !aggregate && model.len() == 0 ==> !route_converts(
            responses_route(aggregate, model, resolved),
        ),
        ({
            let p = route_protocol(chat_route(wants, resolved));
            p == Some(Protocol::Chat) || p is None && wants is None && !resolved
        }),
        ({
            let p = route_protocol(responses_route(aggregate, model, resolved));
            p == Some(Protocol::Responses) || p is None && !aggregate && (!resolved || model.len()
                == 0)
        }),
{
}

/// The model that a request asks for is the text under `model`, and nothing else.
pub proof fn lemma_requested_model(body: Map<Seq<char>, JsonView>, model: Seq<char>)
    ensures
        body.dom().contains("model"@) && body["model"@] == JsonView::Text(model) ==> raw_model(
            JsonView::Object(body),
        ) == model,
        !body.dom().contains("model"@) || !(body["model"@] is Text) ==> raw_model(
            JsonView::Object(body),
        ).len() == 0,
{
}

/// A count is the integer under its key; where there is none, it is zero.
pub proof fn lemma_count(usage: Map<Seq<char>, JsonView>, key: Seq<char>, n: i64)
    ensures
        usage.dom().contains(key) && usage[key] == JsonView::Int(n as int) ==> count_in(
            Some(JsonView::Object(usage)),
            key,
        ) == n,
        !usage.dom().contains(key) || !(usage[key] is Int) ==> count_in(
            Some(JsonView::Object(usage)),
            key,
        ) == 0,
        count_in(None, key) == 0,
{
}

/// The counts of an answer in the messages protocol are logged as they are given, each under its
/// own name, also where the answer is converted between that protocol and the responses protocol.
pub proof fn lemma_messages_counts(
    back: Back,
    usage: Map<Seq<char>, JsonView>,
    data: Map<Seq<char>, JsonView>,
    raw: i64,
    output: i64,
    cached: i64,
    n: i64,
)
    requires
        data.dom().contains("usage"@),
        data["usage"@] == JsonView::Object(usage),
        back == Back::MessagesFromResponses || back == Back::ResponsesFromMessages || back
            == Back::Passthrough && (usage.dom().contains("cache_read_input_tokens"@)
            || usage.dom().contains("cache_creation_input_tokens"@)),
    ensures
        ({
            let u = answer_usage(back, JsonView::Object(data), raw, output, cached);
            &&& usage.dom().contains("input_tokens"@) && usage["input_tokens"@] == JsonView::Int(
                n as int,
            ) ==> u.input == n
            &&& usage.dom().contains("output_tokens"@) && usage["output_tokens"@] == JsonView::Int(
                n as int,
            ) ==> u.output == n
            &&& usage.dom().contains("cache_read_input_tokens"@)
                && usage["cache_read_input_tokens"@] == JsonView::Int(n as int) ==> u.cache_read == n
            &&& usage.dom().contains("cache_creation_input_tokens"@)
                && usage["cache_creation_input_tokens"@] == JsonView::Int(n as int)
                ==> u.cache_creation == n
            &&& !usage.dom().contains("cache_read_input_tokens"@) ==> u.cache_read == 0
            &&& !usage.dom().contains("cache_creation_input_tokens"@) ==> u.cache_creation == 0
        }),
{
}

/// Elsewhere the input and the tokens from the cache together make the prompt, unless the cache is
/// said to hold more than that; then there is no input. Nothing is counted as written to the cache.
pub proof fn lemma_openai_counts(back: Back, data: JsonView, raw: i64, output: i64, cached: i64)
    requires
        cache_comes_off(back, data, raw, cached),
        count_with_cache(back, data, raw) is Some,
    ensures
        ({
            let u = answer_usage(back, data, raw, output, cached);
            let prompt = count_with_cache(back, data, raw)->0;
            &&& u.cache_read == cached && u.cache_creation == 0 && u.input >= 0
            &&& prompt >= cached ==> u.input + u.cache_read == prompt
            &&& prompt < cached ==> u.input == 0
        }),
        writes_to(back) is Some ==> count_with_cache(back, data, raw) == Some(raw) && answer_usage(
            back,
            data,
            raw,
            output,
            cached,
        ).output == output,
        back == Back::Passthrough && (data matches JsonView::Object(d) && d.dom().contains("usage"@)
            && (d["usage"@] matches JsonView::Object(u) && !u.dom().contains("input_tokens"@)))
            ==> count_with_cache(back, data, raw) == Some(raw) && answer_usage(
            back,
            data,
            raw,
            output,
            cached,
        ).output == output,
{
}

/// Which answers have the cache taken off their prompt: all but those in the shape of the messages
/// protocol, and those that say nothing of their usage.
pub proof fn lemma_cache_comes_off(back: Back, data: JsonView, raw: i64)
    ensures
        writes_to(back) is Some ==> (count_with_cache(back, data, raw) is None <==> (reads_from(back)
            != Some(Protocol::Chat) && writes_to(back) != Some(Protocol::Chat))),
        back == Back::Passthrough ==> (count_with_cache(back, data, raw) is Some <==> (
        data matches JsonView::Object(d) && d.dom().contains("usage"@) && (
        d["usage"@] matches JsonView::Object(u) && !u.dom().contains("cache_read_input_tokens"@)
            && !u.dom().contains("cache_creation_input_tokens"@)))),
{
}

} // verus!
