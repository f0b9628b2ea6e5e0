//! Statistics over a time window, and pages of the request log.

use vstd::prelude::*;
use crate::error::{self, Reply};
use crate::json::{self, Json, JsonView};
use crate::text;

verus! {

broadcast use crate::json::lemma_elements_view;

pub const DAY_MS: i64 = 24 * 60 * 60 * 1000;

/// The window that statistics are asked for, in milliseconds.
pub struct StatsQuery {
    pub start: Option<i64>,
    pub end: Option<i64>,
    pub granularity: Option<i64>,
}

/// The log entries that are asked for.
pub struct LogsQuery {
    pub start: Option<i64>,
    pub end: Option<i64>,
    pub model: Option<String>,
    pub provider: Option<String>,
    /// `1`, `true`, `0` or `false`.
    pub success: Option<String>,
    /// `1`, `true`, `0` or `false`.
    pub is_stream: Option<String>,
    pub limit: Option<i64>,
    pub offset: Option<i64>,
}

/// The truth value that a flag of a query stands for.
pub open spec fn flag(v: Option<Seq<char>>) -> Option<bool> {
    match v {
        Some(s) => if s == "1"@ || s == "true"@ {
            Some(true)
        } else if s == "0"@ || s == "false"@ {
            Some(false)
        } else {
            None
        },
        None => None,
    }
}

/// Reads a flag of a query; what is no flag does not filter.
pub fn parse_flag(v: &Option<String>) -> (r: Option<bool>)
    ensures
        r == flag(json::some_string(*v)),
{
    match v {
        Some(s) => if text::same(s.as_str(), "1") || text::same(s.as_str(), "true") {
            Some(true)
        } else if text::same(s.as_str(), "0") || text::same(s.as_str(), "false") {
            Some(false)
        } else {
            None
        },
        None => None,
    }
}

/// The width of the steps that a window is shown in, all in milliseconds.
pub open spec fn step_width(span: int) -> nat {
    if span <= 2 * 60 * 60 * 1000 {
        5 * 60 * 1000
    } else if span <= 48 * 60 * 60 * 1000 {
        60 * 60 * 1000
    } else if span <= 14 * 24 * 60 * 60 * 1000 {
        6 * 60 * 60 * 1000
    } else {
        24 * 60 * 60 * 1000
    }
}

/// The width of the steps that a window is shown in: five minutes up to two hours, one hour up to
/// two days, six hours up to two weeks, then a day.
pub fn auto_granularity(start: i64, end: i64) -> (r: i64)
    requires
        i64::MIN <= end - start <= i64::MAX,
    ensures
        r == step_width(end - start),
{
    let span: i64 = end - start;
    if span <= 2 * 60 * 60 * 1000 {
        5 * 60 * 1000
    } else if span <= 48 * 60 * 60 * 1000 {
        60 * 60 * 1000
    } else if span <= 14 * 24 * 60 * 60 * 1000 {
        6 * 60 * 60 * 1000
    } else {
        24 * 60 * 60 * 1000
    }
}

/// A time window and the width of its steps.
#[derive(Clone, Copy, PartialEq, Eq, Structural, Debug)]
pub struct Window {
    pub start: i64,
    pub end: i64,
    pub granularity: i64,
}

/// The end of the window: as given, else now.
pub open spec fn window_end(q: StatsQuery, now: i64) -> i64 {
    match q.end {
        Some(e) => e,
        None => now,
    }
}

/// The start of the window: as given, else a day before its end.
pub open spec fn window_start(q: StatsQuery, now: i64) -> int {
    match q.start {
        Some(s) => s as int,
        None => if window_end(q, now) - DAY_MS < i64::MIN {
            i64::MIN as int
        } else {
            window_end(q, now) - DAY_MS
        },
    }
}

/// Reads the window that statistics are asked for.
pub fn get_stats(params: &StatsQuery, now: i64) -> (r: Result<Window, Reply>)
    requires
        params.granularity is None && window_start(*params, now) <= window_end(*params, now)
            ==> window_end(*params, now) - window_start(*params, now) <= i64::MAX,
    ensures
        if window_start(*params, now) > window_end(*params, now) {
            r is Err && r->Err_0@ == (400u16, error::plain_error("start must be <= end"@))
        } else {
            r is Ok && r->Ok_0 == (Window {
                start: window_start(*params, now) as i64,
                end: window_end(*params, now),
                granularity: match params.granularity {
                    Some(g) => g,
                    None => step_width(
                        window_end(*params, now) - window_start(*params, now),
                    ) as i64,
                },
            })
        },
{
    let end: i64 = match params.end {
        Some(e) => e,
        None => now,
    };
    let start: i64 = match params.start {
        Some(s) => s,
        None => if end < i64::MIN + DAY_MS {
            i64::MIN
        } else {
            end - DAY_MS
        },
    };
    if start > end {
        return Err(error::simple_error("start must be <= end", 400));
    }
    let granularity: i64 = match params.granularity {
        Some(g) => g,
        None => auto_granularity(start, end),
    };
    Ok(Window { start, end, granularity })
}

/// The page that a query asks for: at most two hundred entries, fifty where nothing is said.
pub fn log_page(limit: Option<i64>, offset: Option<i64>) -> (r: (i64, i64))
    ensures
        r.0 == crate::routes::models::aggregate::clamped(
            match limit {
                Some(n) => n as int,
                None => 50,
            },
            0,
            200,
        ),
        r.1 == (match offset {
            Some(n) => if n > 0 {
                n
            } else {
                0
            },
            None => 0,
        }),
        0 <= r.0 <= 200,
        r.1 >= 0,
        limit is Some && 0 <= limit->0 <= 200 ==> r.0 == limit->0,
        limit is Some && limit->0 > 200 ==> r.0 == 200,
        limit is None ==> r.0 == 50,
        offset is Some && offset->0 >= 0 ==> r.1 == offset->0,
{
    let n: i64 = match limit {
        Some(n) => n,
        None => 50,
    };
    let n: i64 = if n < 0 {
        0
    } else if n > 200 {
        200
    } else {
        n
    };
    let o: i64 = match offset {
        Some(o) => if o > 0 {
            o
        } else {
            0
        },
        None => 0,
    };
    (n, o)
}

/// One entry of the request log.
pub struct LogRow {
    pub id: i64,
    pub timestamp: i64,
    pub account_id: i64,
    pub provider_id: Option<String>,
    pub model: Option<String>,
    pub input_tokens: i64,
    pub output_tokens: i64,
    pub cache_read_input_tokens: i64,
    pub cache_creation_input_tokens: i64,
    pub latency_ms: i64,
    pub ttft_ms: Option<i64>,
    pub is_stream: bool,
    pub success: bool,
    pub error_message: Option<String>,
    pub is_test: bool,
    pub account_name: Option<String>,
    pub client_ip: Option<String>,
}

/// How long an answer took to generate: the time after the first byte of a stream, else the whole
/// time; never less than a millisecond.
pub open spec fn generation_time(is_stream: bool, latency: int, ttft: Option<i64>) -> int {
    let t = match ttft {
        Some(f) if is_stream && f < latency => latency - f,
        _ => latency,
    };
    if t < 1 {
        1
    } else {
        t
    }
}

/// How long an answer took to generate.
pub fn generation_ms(row: &LogRow) -> (r: i64)
    requires
        row.is_stream && row.ttft_ms is Some && row.ttft_ms->0 < row.latency_ms ==> row.latency_ms
            - row.ttft_ms->0 <= i64::MAX,
    ensures
        r == generation_time(row.is_stream, row.latency_ms as int, row.ttft_ms),
        r >= 1,
{
    let t: i64 = match row.ttft_ms {
        Some(f) => if row.is_stream && f < row.latency_ms {
            row.latency_ms - f
        } else {
            row.latency_ms
        },
        None => row.latency_ms,
    };
    if t < 1 {
        1
    } else {
        t
    }
}

/// An entry of the log as it is shown, with its speed.
pub open spec fn log_entry_view(l: LogRow, tps: JsonView) -> JsonView {
    JsonView::Object(
        map![
            "id"@ => JsonView::Int(l.id as int),
            "timestamp"@ => JsonView::Int(l.timestamp as int),
            "accountId"@ => JsonView::Int(l.account_id as int),
            "providerId"@ => json::text_or_null(json::some_string(l.provider_id)),
            "model"@ => json::text_or_null(json::some_string(l.model)),
            "inputTokens"@ => JsonView::Int(l.input_tokens as int),
            "outputTokens"@ => JsonView::Int(l.output_tokens as int),
            "cacheReadInputTokens"@ => JsonView::Int(l.cache_read_input_tokens as int),
            "cacheCreationInputTokens"@ => JsonView::Int(l.cache_creation_input_tokens as int),
            "latencyMs"@ => JsonView::Int(l.latency_ms as int),
            "ttftMs"@ => json::int_or_null(l.ttft_ms),
            "isStream"@ => JsonView::Bool(l.is_stream),
            "tps"@ => tps,
            "success"@ => JsonView::Bool(l.success),
            "errorMessage"@ => json::text_or_null(json::some_string(l.error_message)),
            "isTest"@ => JsonView::Bool(l.is_test),
            "accountName"@ => json::text_or_null(json::some_string(l.account_name)),
            "clientIp"@ => json::text_or_null(json::some_string(l.client_ip)),
        ],
    )
}

/// Writes an entry of the log, with its speed.
fn log_entry(l: &LogRow, tps: Json) -> (r: Json)
    ensures
        r@ == log_entry_view(*l, tps@),
{
    Json::object().with("id", Json::Signed(l.id)).with("timestamp", Json::Signed(l.timestamp)).with(
        "accountId",
        Json::Signed(l.account_id),
    ).with("providerId", json::optional_text(&l.provider_id)).with(
        "model",
        json::optional_text(&l.model),
    ).with("inputTokens", Json::Signed(l.input_tokens)).with(
        "outputTokens",
        Json::Signed(l.output_tokens),
    ).with("cacheReadInputTokens", Json::Signed(l.cache_read_input_tokens)).with(
        "cacheCreationInputTokens",
        Json::Signed(l.cache_creation_input_tokens),
    ).with("latencyMs", Json::Signed(l.latency_ms)).with(
        "ttftMs",
        json::optional_int(l.ttft_ms),
    ).with("isStream", Json::Bool(l.is_stream)).with("tps", tps).with(
        "success",
        Json::Bool(l.success),
    ).with("errorMessage", json::optional_text(&l.error_message)).with(
        "isTest",
        Json::Bool(l.is_test),
    ).with("accountName", json::optional_text(&l.account_name)).with(
        "clientIp",
        json::optional_text(&l.client_ip),
    )
}

/// The reply with a page of the log. `rows` are its entries, each with its speed.
pub fn get_stats_logs(rows: Vec<(LogRow, Json)>, total: i64) -> (r: Json)
    ensures
        r@ == JsonView::Object(
            map![
                "logs"@ => JsonView::Array(
                    rows@.map_values(|p: (LogRow, Json)| log_entry_view(p.0, p.1@)),
                ),
                "total"@ => JsonView::Int(total as int),
            ],
        ),
{
    let mut out: Vec<Json> = Vec::new();
    let mut i: usize = 0;
    while i < rows.len()
        invariant
            i == out@.len(),
            i <= rows@.len(),
            forall|k: int|
                0 <= k < i ==> #[trigger] json::json_view(out@[k]) == log_entry_view(
                    rows@[k].0,
                    rows@[k].1@,
                ),
        decreases rows@.len() - i,
    {
        out.push(log_entry(&rows[i].0, rows[i].1.copy()));
        i = i + 1;
    }
    assert(json::elements_view(out@) =~= rows@.map_values(
        |p: (LogRow, Json)| log_entry_view(p.0, p.1@),
    ));
    Json::object().with("logs", Json::Array(out)).with("total", Json::Signed(total))
}

/// The parts of the statistics, each as it was computed or the error instead.
pub struct StatsParts {
    pub summary: Result<Json, String>,
    pub by_model: Result<Json, String>,
    pub by_account: Result<Json, String>,
    pub by_provider: Result<Json, String>,
    pub timeseries: Result<Json, String>,
}

/// The refusal for a part that failed.
pub open spec fn stats_failure(what: Seq<char>, error: Seq<char>) -> (u16, JsonView) {
    (500u16, error::plain_error("Failed to get "@ + what + ": "@ + error))
}

/// The statistics, or the refusal for the first part that failed.
pub open spec fn stats_view(p: StatsParts, granularity: i64) -> (u16, JsonView) {
    match p.summary {
        Err(e) => stats_failure("summary"@, e@),
        Ok(summary) => match p.by_model {
            Err(e) => stats_failure("model breakdown"@, e@),
            Ok(by_model) => match p.by_account {
                Err(e) => stats_failure("account breakdown"@, e@),
                Ok(by_account) => match p.by_provider {
                    Err(e) => stats_failure("provider breakdown"@, e@),
                    Ok(by_provider) => match p.timeseries {
                        Err(e) => stats_failure("timeseries"@, e@),
                        Ok(timeseries) => (
                            200u16,
                            JsonView::Object(
                                map![
                                    "summary"@ => summary@,
                                    "byModel"@ => by_model@,
                                    "byAccount"@ => by_account@,
                                    "byProvider"@ => by_provider@,
                                    "timeseries"@ => timeseries@,
                                    "granularityMs"@ => JsonView::Int(granularity as int),
                                ],
                            ),
                        ),
                    },
                },
            },
        },
    }
}

fn stats_failed(what: &str, error: &str) -> (r: Reply)
    ensures
        r@ == stats_failure(what@, error@),
{
    let message = "Failed to get ".to_owned().concat(what).concat(": ").concat(error);
    error::simple_error(message.as_str(), 500)
}

/// The reply with the statistics.
pub fn stats_reply(parts: StatsParts, granularity: i64) -> (r: Reply)
    ensures
        r@ == stats_view(parts, granularity),
{
    let summary = match parts.summary {
        Ok(v) => v,
        Err(e) => {
            return stats_failed("summary", e.as_str());
        },
    };
    let by_model = match parts.by_model {
        Ok(v) => v,
        Err(e) => {
            return stats_failed("model breakdown", e.as_str());
        },
    };
    let by_account = match parts.by_account {
        Ok(v) => v,
        Err(e) => {
            return stats_failed("account breakdown", e.as_str());
        },
    };
    let by_provider = match parts.by_provider {
        Ok(v) => v,
        Err(e) => {
            return stats_failed("provider breakdown", e.as_str());
        },
    };
    let timeseries = match parts.timeseries {
        Ok(v) => v,
        Err(e) => {
            return stats_failed("timeseries", e.as_str());
        },
    };
    Reply {
        status: 200,
        body: Json::object().with("summary", summary).with("byModel", by_model).with(
            "byAccount",
            by_account,
        ).with("byProvider", by_provider).with("timeseries", timeseries).with(
            "granularityMs",
            Json::Signed(granularity),
        ),
    }
}

/// A flag is true for `1` and `true`, false for `0` and `false`, and not set otherwise.
pub proof fn lemma_flags(s: Seq<char>)
    ensures
        flag(Some("1"@)) == Some(true),
        flag(Some("true"@)) == Some(true),
        flag(Some("0"@)) == Some(false),
        flag(Some("false"@)) == Some(false),
        flag(None) is None,
        s != "1"@ && s != "true"@ && s != "0"@ && s != "false"@ ==> flag(Some(s)) is None,
{
    reveal_strlit("1");
    reveal_strlit("true");
    reveal_strlit("0");
    reveal_strlit("false");
    assert("0"@[0] != "1"@[0]);
    assert("0"@.len() != "true"@.len());
    assert("false"@.len() != "1"@.len());
    assert("false"@.len() != "true"@.len());
}

/// The steps are five minutes wide up to two hours, an hour up to two days, six hours up to two weeks,
/// and a day beyond. So no chart of two weeks or less has more than fifty-six of them, and a longer
/// span never has narrower ones.
pub proof fn lemma_steps(span: int, longer: int)
    requires
        0 <= span <= longer,
    ensures
        step_width(span) == 5 * 60_000 <==> span <= 2 * 3_600_000,
        step_width(span) == 3_600_000 <==> 2 * 3_600_000 < span <= 2 * 86_400_000,
        step_width(span) == 6 * 3_600_000 <==> 2 * 86_400_000 < span <= 14 * 86_400_000,
        step_width(span) == 86_400_000 <==> 14 * 86_400_000 < span,
        step_width(span) <= step_width(longer),
        span <= 14 * 86_400_000 ==> span <= 56 * step_width(span),
{
}

/// The window is the one that is asked for. Without an end it ends now; without a start it begins a
/// day before its end.
pub proof fn lemma_windows(q: StatsQuery, now: i64)
    ensures
        q.end is Some ==> window_end(q, now) == q.end->0,
        q.end is None ==> window_end(q, now) == now,
        q.start is Some ==> window_start(q, now) == q.start->0,
        q.start is None && window_end(q, now) >= 0 ==> window_start(q, now) + 24 * 60 * 60 * 1000
            == window_end(q, now),
        q.start is None ==> window_start(q, now) <= window_end(q, now),
{
}

/// The time that a stream took to generate begins with its first byte; of an answer in one piece it is
/// all of the time. It is never nothing.
pub proof fn lemma_generation_time(latency: int, first: i64)
    ensures
        latency >= 1 ==> generation_time(false, latency, Some(first)) == latency,
        latency >= 1 ==> generation_time(true, latency, None) == latency,
        latency > first ==> generation_time(true, latency, Some(first)) + first == latency,
        latency <= first && latency >= 1 ==> generation_time(true, latency, Some(first)) == latency,
        latency < 1 ==> generation_time(false, latency, Some(first)) == 1,
{
}

/// The statistics are shown exactly where all their parts could be read; otherwise it is a failure of
/// the server.
pub proof fn lemma_stats(p: StatsParts, granularity: i64)
    ensures
        stats_view(p, granularity).0 == 200 <==> p.summary is Ok && p.by_model is Ok && p.by_account
            is Ok && p.by_provider is Ok && p.timeseries is Ok,
        stats_view(p, granularity).0 != 200 ==> stats_view(p, granularity).0 == 500,
        p.summary is Err ==> stats_view(p, granularity).1 == error::plain_error(
            "Failed to get summary: "@ + p.summary->Err_0@,
        ),
{
    if p.summary is Err {
        reveal_strlit("Failed to get ");
        reveal_strlit("summary");
        reveal_strlit(": ");
        reveal_strlit("Failed to get summary: ");
        assert("Failed to get "@ + "summary"@ + ": "@ + p.summary->Err_0@
            =~= "Failed to get summary: "@ + p.summary->Err_0@);
    }
}

/// An entry of the log shows each field of a request under its own name.
pub proof fn lemma_log_entry(l: LogRow, tps: JsonView)
    ensures
        ({
            let v = log_entry_view(l, tps);
            &&& json::field(v, "id"@) == Some(JsonView::Int(l.id as int))
            &&& json::field(v, "timestamp"@) == Some(JsonView::Int(l.timestamp as int))
            &&& json::field(v, "accountId"@) == Some(JsonView::Int(l.account_id as int))
            &&& json::field(v, "providerId"@) == Some(
                json::text_or_null(json::some_string(l.provider_id)),
            )
            &&& json::field(v, "model"@) == Some(json::text_or_null(json::some_string(l.model)))
            &&& json::field(v, "inputTokens"@) == Some(JsonView::Int(l.input_tokens as int))
            &&& json::field(v, "outputTokens"@) == Some(JsonView::Int(l.output_tokens as int))
            &&& json::field(v, "cacheReadInputTokens"@) == Some(
                JsonView::Int(l.cache_read_input_tokens as int),
            )
            &&& json::field(v, "cacheCreationInputTokens"@) == Some(
                JsonView::Int(l.cache_creation_input_tokens as int),
            )
            &&& json::field(v, "latencyMs"@) == Some(JsonView::Int(l.latency_ms as int))
            &&& json::field(v, "ttftMs"@) == Some(json::int_or_null(l.ttft_ms))
            &&& json::field(v, "isStream"@) == Some(JsonView::Bool(l.is_stream))
            &&& json::field(v, "tps"@) == Some(tps)
            &&& json::field(v, "success"@) == Some(JsonView::Bool(l.success))
            &&& json::field(v, "errorMessage"@) == Some(
                json::text_or_null(json::some_string(l.error_message)),
            )
            &&& json::field(v, "isTest"@) == Some(JsonView::Bool(l.is_test))
            &&& json::field(v, "accountName"@) == Some(
                json::text_or_null(json::some_string(l.account_name)),
            )
            &&& json::field(v, "clientIp"@) == Some(
                json::text_or_null(json::some_string(l.client_ip)),
            )
        }),
{
    reveal_strlit("id");
    reveal_strlit("timestamp");
    reveal_strlit("accountId");
    reveal_strlit("providerId");
    reveal_strlit("model");
    reveal_strlit("inputTokens");
    reveal_strlit("outputTokens");
    reveal_strlit("cacheReadInputTokens");
    reveal_strlit("cacheCreationInputTokens");
    reveal_strlit("latencyMs");
    reveal_strlit("ttftMs");
    reveal_strlit("isStream");
    reveal_strlit("tps");
    reveal_strlit("success");
    reveal_strlit("errorMessage");
    reveal_strlit("isTest");
    reveal_strlit("accountName");
    reveal_strlit("clientIp");
    assert("id"@.len() == 2 && "timestamp"@.len() == 9 && "accountId"@.len() == 9
        && "providerId"@.len() == 10 && "model"@.len() == 5 && "inputTokens"@.len() == 11
        && "outputTokens"@.len() == 12 && "cacheReadInputTokens"@.len() == 20
        && "cacheCreationInputTokens"@.len() == 24 && "latencyMs"@.len() == 9
        && "ttftMs"@.len() == 6 && "isStream"@.len() == 8 && "tps"@.len() == 3
        && "success"@.len() == 7 && "errorMessage"@.len() == 12 && "isTest"@.len() == 6
        && "accountName"@.len() == 11 && "clientIp"@.len() == 8);
    assert("timestamp"@[0] != "accountId"@[0]);
    assert("timestamp"@[0] != "latencyMs"@[0]);
    assert("accountId"@[0] != "latencyMs"@[0]);
    assert("inputTokens"@[0] != "accountName"@[0]);
    assert("outputTokens"@[0] != "errorMessage"@[0]);
    assert("ttftMs"@[0] != "isTest"@[0]);
    assert("isStream"@[0] != "clientIp"@[0]);
}

} // verus!
