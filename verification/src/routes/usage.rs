//! The activity feed: recent requests, and one of them in detail.

use vstd::prelude::*;
use crate::error::{self, Reply};
use crate::json::{self, Json, JsonView};

verus! {

broadcast use crate::json::lemma_elements_view;

/// How many entries are asked for.
pub struct ActivityQuery {
    pub limit: Option<i64>,
}

/// How many entries are shown: as many as asked for, at most two hundred; fifty where nothing is
/// said.
pub fn activity_limit(params: &ActivityQuery) -> (r: i64)
    ensures
        r <= 200,
        params.limit is Some && params.limit->0 <= 200 ==> r == params.limit->0,
        params.limit is None ==> r == 50,
        r == (match params.limit {
            Some(n) => if n < 200 {
                n
            } else {
                200
            },
            None => 50,
        }),
{
    match params.limit {
        Some(n) => if n < 200 {
            n
        } else {
            200
        },
        None => 50,
    }
}

/// A request of the activity feed.
pub struct ActivityRow {
    pub id: i64,
    pub timestamp: i64,
    pub model: String,
    pub success: i64,
    pub latency_ms: i64,
    pub input_tokens: i64,
    pub output_tokens: i64,
    pub cache_read: i64,
    pub cache_creation: i64,
    pub ttft_ms: Option<i64>,
    pub is_stream: i64,
    pub error_message: Option<String>,
    pub account_name: String,
    pub provider_id: String,
}

/// A request of the feed as it is shown, with a count of cached tokens.
pub open spec fn activity_map(a: ActivityRow, cache_tokens: int) -> Map<Seq<char>, JsonView> {
    map![
        "id"@ => JsonView::Int(a.id as int),
        "timestamp"@ => JsonView::Int(a.timestamp as int),
        "model"@ => JsonView::Text(a.model@),
        "success"@ => JsonView::Int(a.success as int),
        "latency_ms"@ => JsonView::Int(a.latency_ms as int),
        "input_tokens"@ => JsonView::Int(a.input_tokens as int),
        "output_tokens"@ => JsonView::Int(a.output_tokens as int),
        "cache_tokens"@ => JsonView::Int(cache_tokens),
        "ttft_ms"@ => json::int_or_null(a.ttft_ms),
        "is_stream"@ => JsonView::Int(a.is_stream as int),
        "error_message"@ => json::text_or_null(json::some_string(a.error_message)),
        "account_name"@ => JsonView::Text(a.account_name@),
        "provider_id"@ => JsonView::Text(a.provider_id@),
    ]
}

fn activity_entry(a: &ActivityRow, cache_tokens: i64) -> (r: Json)
    ensures
        r@ == JsonView::Object(activity_map(*a, cache_tokens as int)),
{
    Json::object().with("id", Json::Signed(a.id)).with("timestamp", Json::Signed(a.timestamp)).with(
        "model",
        Json::text(a.model.as_str()),
    ).with("success", Json::Signed(a.success)).with("latency_ms", Json::Signed(a.latency_ms)).with(
        "input_tokens",
        Json::Signed(a.input_tokens),
    ).with("output_tokens", Json::Signed(a.output_tokens)).with(
        "cache_tokens",
        Json::Signed(cache_tokens),
    ).with("ttft_ms", json::optional_int(a.ttft_ms)).with(
        "is_stream",
        Json::Signed(a.is_stream),
    ).with("error_message", json::optional_text(&a.error_message)).with(
        "account_name",
        Json::text(a.account_name.as_str()),
    ).with("provider_id", Json::text(a.provider_id.as_str()))
}

/// The cached tokens of a request: those read and, in the feed, those written too.
pub open spec fn cache_count(a: ActivityRow, with_creation: bool) -> int {
    if with_creation {
        a.cache_read + a.cache_creation
    } else {
        a.cache_read as int
    }
}

/// How many of a list of requests were served.
pub open spec fn served_count(rows: Seq<ActivityRow>) -> nat
    decreases rows.len(),
{
    if rows.len() == 0 {
        0
    } else {
        served_count(rows.drop_last()) + (if rows.last().success == 1 {
            1nat
        } else {
            0
        })
    }
}

/// The feed: its entries, how many they are, and how many of them were served.
pub open spec fn feed(rows: Seq<ActivityRow>, with_creation: bool) -> JsonView {
    JsonView::Object(
        map![
            "entries"@ => JsonView::Array(
                rows.map_values(
                    |a: ActivityRow|
                        JsonView::Object(activity_map(a, cache_count(a, with_creation))),
                ),
            ),
            "totalRequests"@ => JsonView::Int(rows.len() as int),
            "successCount"@ => JsonView::Int(served_count(rows) as int),
        ],
    )
}

/// Writes the feed. The dashboard's counts only the cached tokens that were read.
pub fn get_activity(rows: &Vec<ActivityRow>, with_creation: bool) -> (r: Json)
    requires
        with_creation ==> forall|i: int|
            0 <= i < rows@.len() ==> i64::MIN <= (#[trigger] rows@[i]).cache_read
                + rows@[i].cache_creation <= i64::MAX,
    ensures
        r@ == feed(rows@, with_creation),
{
    let mut entries: Vec<Json> = Vec::new();
    let mut served: u64 = 0;
    let mut i: usize = 0;
    assert(rows@.take(0) =~= Seq::<ActivityRow>::empty());
    while i < rows.len()
        invariant
            i <= rows@.len(),
            i == entries@.len(),
            served == served_count(rows@.take(i as int)),
            served <= i,
            with_creation ==> forall|k: int|
                0 <= k < rows@.len() ==> i64::MIN <= (#[trigger] rows@[k]).cache_read
                    + rows@[k].cache_creation <= i64::MAX,
            forall|k: int|
                0 <= k < i ==> #[trigger] json::json_view(entries@[k]) == JsonView::Object(
                    activity_map(rows@[k], cache_count(rows@[k], with_creation)),
                ),
        decreases rows@.len() - i,
    {
        assert(rows@.take(i + 1).drop_last() =~= rows@.take(i as int));
        let row = &rows[i];
        let cache: i64 = if with_creation {
            row.cache_read + row.cache_creation
        } else {
            row.cache_read
        };
        entries.push(activity_entry(row, cache));
        if row.success == 1 {
            served = served + 1;
        }
        i = i + 1;
    }
    assert(rows@.take(i as int) =~= rows@);
    let total: u64 = entries.len() as u64;
    assert(json::elements_view(entries@) =~= rows@.map_values(
        |a: ActivityRow| JsonView::Object(activity_map(a, cache_count(a, with_creation))),
    ));
    Json::object().with("entries", Json::Array(entries)).with(
        "totalRequests",
        Json::Unsigned(total),
    ).with("successCount", Json::Unsigned(served))
}

/// What is logged of a request beside its entry in the feed.
pub struct ActivityDetail {
    pub request_body: Option<String>,
    pub response_body: Option<String>,
    pub client_ip: Option<String>,
}

/// The reply to a question for one request in detail.
pub fn get_activity_detail(row: Option<(ActivityRow, ActivityDetail)>) -> (r: Reply)
    ensures
        match row {
            Some((a, d)) => r@ == (
                200u16,
                JsonView::Object(
                    activity_map(a, a.cache_read as int).insert(
                        "request_body"@,
                        json::text_or_null(json::some_string(d.request_body)),
                    ).insert(
                        "response_body"@,
                        json::text_or_null(json::some_string(d.response_body)),
                    ).insert(
                        "client_ip"@,
                        json::text_or_null(json::some_string(d.client_ip)),
                    ),
                ),
            ),
            None => r@ == (404u16, error::plain_error("Activity not found"@)),
        },
{
    match row {
        Some((a, d)) => {
            let body = activity_entry(&a, a.cache_read).with(
                "request_body",
                json::optional_text(&d.request_body),
            ).with("response_body", json::optional_text(&d.response_body)).with(
                "client_ip",
                json::optional_text(&d.client_ip),
            );
            Reply { status: 200, body }
        },
        None => error::simple_error("Activity not found", 404),
    }
}

/// A request counts as served exactly where it is marked by one.
pub proof fn lemma_served_count(rows: Seq<ActivityRow>, a: ActivityRow)
    ensures
        served_count(rows.push(a)) == served_count(rows) + (if a.success == 1 {
            1nat
        } else {
            0nat
        }),
        served_count(rows) <= rows.len(),
        served_count(seq![]) == 0,
    decreases rows.len(),
{
    assert(rows.push(a).drop_last() =~= rows);
    if rows.len() > 0 {
        lemma_served_count(rows.drop_last(), a);
    }
}

/// The tokens of the cache are those that were read; where those that were written count too, their
/// sum.
pub proof fn lemma_cache_count(a: ActivityRow)
    ensures
        cache_count(a, false) == a.cache_read,
        cache_count(a, true) - cache_count(a, false) == a.cache_creation,
{
}

/// An entry of the feed shows each field of a request under its own name.
pub proof fn lemma_activity(a: ActivityRow, cache_tokens: int)
    ensures
        ({
            let v = JsonView::Object(activity_map(a, cache_tokens));
            &&& json::field(v, "id"@) == Some(JsonView::Int(a.id as int))
            &&& json::field(v, "timestamp"@) == Some(JsonView::Int(a.timestamp as int))
            &&& json::field(v, "model"@) == Some(JsonView::Text(a.model@))
            &&& json::field(v, "success"@) == Some(JsonView::Int(a.success as int))
            &&& json::field(v, "latency_ms"@) == Some(JsonView::Int(a.latency_ms as int))
            &&& json::field(v, "input_tokens"@) == Some(JsonView::Int(a.input_tokens as int))
            &&& json::field(v, "output_tokens"@) == Some(JsonView::Int(a.output_tokens as int))
            &&& json::field(v, "cache_tokens"@) == Some(JsonView::Int(cache_tokens))
            &&& json::field(v, "ttft_ms"@) == Some(json::int_or_null(a.ttft_ms))
            &&& json::field(v, "is_stream"@) == Some(JsonView::Int(a.is_stream as int))
            &&& json::field(v, "error_message"@) == Some(
                json::text_or_null(json::some_string(a.error_message)),
            )
            &&& json::field(v, "account_name"@) == Some(JsonView::Text(a.account_name@))
            &&& json::field(v, "provider_id"@) == Some(JsonView::Text(a.provider_id@))
        }),
{
    reveal_strlit("id");
    reveal_strlit("timestamp");
    reveal_strlit("model");
    reveal_strlit("success");
    reveal_strlit("latency_ms");
    reveal_strlit("input_tokens");
    reveal_strlit("output_tokens");
    reveal_strlit("cache_tokens");
    reveal_strlit("ttft_ms");
    reveal_strlit("is_stream");
    reveal_strlit("error_message");
    reveal_strlit("account_name");
    reveal_strlit("provider_id");
    assert("id"@.len() == 2 && "timestamp"@.len() == 9 && "model"@.len() == 5
        && "success"@.len() == 7 && "latency_ms"@.len() == 10 && "input_tokens"@.len() == 12
        && "output_tokens"@.len() == 13 && "cache_tokens"@.len() == 12 && "ttft_ms"@.len() == 7
        && "is_stream"@.len() == 9 && "error_message"@.len() == 13 && "account_name"@.len() == 12
        && "provider_id"@.len() == 11);
    assert("timestamp"@[0] != "is_stream"@[0]);
    assert("success"@[0] != "ttft_ms"@[0]);
    assert("input_tokens"@[0] != "cache_tokens"@[0]);
    assert("input_tokens"@[0] != "account_name"@[0]);
    assert("output_tokens"@[0] != "error_message"@[0]);
    assert("cache_tokens"@[0] != "account_name"@[0]);
}

/// The feed has an entry for each request, in order, and counts them and those that were served.
pub proof fn lemma_feed(rows: Seq<ActivityRow>, with_creation: bool, i: int)
    ensures
        ({
            let v = feed(rows, with_creation);
            &&& json::field(v, "totalRequests"@) == Some(JsonView::Int(rows.len() as int))
            &&& json::field(v, "successCount"@) == Some(JsonView::Int(served_count(rows) as int))
            &&& json::field(v, "entries"@) matches Some(JsonView::Array(entries)) && entries.len()
                == rows.len() && (0 <= i < rows.len() ==> json::field(entries[i], "id"@) == Some(
                JsonView::Int(rows[i].id as int),
            ) && json::field(entries[i], "cache_tokens"@) == Some(
                JsonView::Int(
                    rows[i].cache_read + if with_creation {
                        rows[i].cache_creation as int
                    } else {
                        0
                    },
                ),
            ))
        }),
{
    reveal_strlit("entries");
    reveal_strlit("totalRequests");
    reveal_strlit("successCount");
    assert("entries"@.len() == 7 && "totalRequests"@.len() == 13 && "successCount"@.len() == 12);
    if 0 <= i < rows.len() {
        lemma_activity(rows[i], cache_count(rows[i], with_creation));
    }
}

} // verus!
