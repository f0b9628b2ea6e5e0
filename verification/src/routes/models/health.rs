//! The health of models: what traffic and tests last said of each.

use vstd::prelude::*;
use crate::json::{self, Json, JsonView};
use crate::text;

verus! {

broadcast use crate::json::lemma_elements_view;

/// What was last seen of a model at an account.
pub struct LastStatus {
    pub success: i64,
    pub latency: i64,
    pub error: Option<String>,
    pub checked_at: i64,
}

/// What a test said of a model at an account.
pub struct TestResult {
    pub status: LastStatus,
    pub is_manual: bool,
    pub via: Option<String>,
    pub source: String,
    pub protocols: Vec<String>,
}

/// Whether tests of a model at an account are suspended.
pub struct Suspension {
    pub suspended: bool,
    pub failures: i64,
    pub remaining_secs: i64,
    pub last_error: Option<String>,
}

/// A model at an account.
pub struct ModelRow {
    pub account_id: i64,
    pub provider_id: String,
    pub model: String,
    pub limits_cache: Option<String>,
    pub limits_cache_updated_at: Option<String>,
    pub account_name: String,
    pub traffic: LastStatus,
}

/// Whether a test is what is shown of a model: one that a person started, and newer than the last
/// traffic. Tests that start by themselves would hide it again and again.
pub open spec fn test_shown(test: Option<TestResult>, traffic: LastStatus) -> bool {
    match test {
        Some(t) => t.is_manual && t.status.checked_at > traffic.checked_at,
        None => false,
    }
}

/// What is shown of a model as its last status.
pub open spec fn shown_status(test: Option<TestResult>, traffic: LastStatus) -> LastStatus {
    if test_shown(test, traffic) {
        test->0.status
    } else {
        traffic
    }
}

/// The protocols that a test found, whoever started it.
pub open spec fn known_protocols(test: Option<TestResult>) -> JsonView {
    match test {
        Some(t) => json::text_array(text::texts(t.protocols@)),
        None => JsonView::Array(seq![]),
    }
}

/// A test as it is shown beside the last status.
pub open spec fn test_view(test: Option<TestResult>) -> JsonView {
    match test {
        Some(t) => JsonView::Object(
            map![
                "success"@ => JsonView::Int(t.status.success as int),
                "latency"@ => JsonView::Int(t.status.latency as int),
                "error"@ => json::text_or_null(json::some_string(t.status.error)),
                "checked_at"@ => JsonView::Int(t.status.checked_at as int),
                "via"@ => json::text_or_null(json::some_string(t.via)),
                "source"@ => JsonView::Text(t.source@),
            ],
        ),
        None => JsonView::Null,
    }
}

/// A suspension as it is shown.
pub open spec fn suspension_view(s: Option<Suspension>) -> JsonView {
    match s {
        Some(s) => JsonView::Object(
            map![
                "suspended"@ => JsonView::Bool(s.suspended),
                "failures"@ => JsonView::Int(s.failures as int),
                "remaining_secs"@ => JsonView::Int(s.remaining_secs as int),
                "last_error"@ => json::text_or_null(json::some_string(s.last_error)),
            ],
        ),
        None => JsonView::Null,
    }
}

/// What a model at an account is shown with, given what its cached limits say as JSON.
pub open spec fn model_map(m: ModelRow, s: LastStatus, limits: Option<JsonView>) -> Map<
    Seq<char>,
    JsonView,
> {
    map![
        "account_id"@ => JsonView::Int(m.account_id as int),
        "provider_id"@ => JsonView::Text(m.provider_id@),
        "model"@ => JsonView::Text(m.model@),
        "last_checked"@ => JsonView::Int(s.checked_at as int),
        "success"@ => JsonView::Int(s.success as int),
        "latency"@ => JsonView::Int(s.latency as int),
        "error"@ => json::text_or_null(json::some_string(s.error)),
        "limits_cache"@ => match limits {
            Some(v) => v,
            None => JsonView::Null,
        },
        "limits_cache_updated_at"@ => json::text_or_null(
            json::some_string(m.limits_cache_updated_at),
        ),
        "account_name"@ => JsonView::Text(m.account_name@),
    ]
}

fn write_model(m: &ModelRow, s: &LastStatus, limits: Option<Json>) -> (r: Json)
    ensures
        r@ == JsonView::Object(
            model_map(
                *m,
                *s,
                match limits {
                    Some(v) => Some(v@),
                    None => None,
                },
            ),
        ),
{
    let limits = match limits {
        Some(v) => v,
        None => Json::Null,
    };
    Json::object().with("account_id", Json::Signed(m.account_id)).with(
        "provider_id",
        Json::text(m.provider_id.as_str()),
    ).with("model", Json::text(m.model.as_str())).with(
        "last_checked",
        Json::Signed(s.checked_at),
    ).with("success", Json::Signed(s.success)).with("latency", Json::Signed(s.latency)).with(
        "error",
        json::optional_text(&s.error),
    ).with("limits_cache", limits).with(
        "limits_cache_updated_at",
        json::optional_text(&m.limits_cache_updated_at),
    ).with("account_name", Json::text(m.account_name.as_str()))
}

/// What the cached limits of an account say.
pub open spec fn limits_of(m: ModelRow) -> Option<JsonView> {
    match m.limits_cache {
        Some(s) => json::parsed(s@),
        None => None,
    }
}

fn read_limits(m: &ModelRow) -> (r: Option<Json>)
    ensures
        match r {
            Some(j) => limits_of(*m) == Some(j@),
            None => limits_of(*m) is None,
        },
{
    match &m.limits_cache {
        Some(s) => json::parse(s.as_str()),
        None => None,
    }
}

/// A model as the dashboard and the models page show it: by its last traffic.
pub fn traffic_entry(m: &ModelRow) -> (r: Json)
    ensures
        r@ == JsonView::Object(model_map(*m, m.traffic, limits_of(*m))),
{
    write_model(m, &m.traffic, read_limits(m))
}

/// What is known of a model at an account: traffic, its last test, and whether tests are suspended.
pub struct ModelFacts {
    pub row: ModelRow,
    pub test: Option<TestResult>,
    pub suspension: Option<Suspension>,
}

/// A model as the health page shows it: by its last status, with what tests found.
pub open spec fn health_entry(f: ModelFacts) -> JsonView {
    JsonView::Object(
        model_map(f.row, shown_status(f.test, f.row.traffic), limits_of(f.row)).insert(
            "supported"@,
            known_protocols(f.test),
        ).insert("test"@, test_view(f.test)).insert("suspension"@, suspension_view(f.suspension)),
    )
}

fn write_health(f: &ModelFacts) -> (r: Json)
    ensures
        r@ == health_entry(*f),
{
    let m = &f.row;
    let test = &f.test;
    let suspension = &f.suspension;
    let limits = read_limits(m);
    let (entry, supported, shown_test) = match test {
        Some(t) => {
            let entry = if t.is_manual && t.status.checked_at > m.traffic.checked_at {
                write_model(m, &t.status, limits)
            } else {
                write_model(m, &m.traffic, limits)
            };
            let shown = Json::object().with("success", Json::Signed(t.status.success)).with(
                "latency",
                Json::Signed(t.status.latency),
            ).with("error", json::optional_text(&t.status.error)).with(
                "checked_at",
                Json::Signed(t.status.checked_at),
            ).with("via", json::optional_text(&t.via)).with(
                "source",
                Json::text(t.source.as_str()),
            );
            (entry, json::string_array(&t.protocols), shown)
        },
        None => {
            let none: Vec<Json> = Vec::new();
            assert(json::elements_view(none@) =~= seq![]);
            (write_model(m, &m.traffic, limits), Json::Array(none), Json::Null)
        },
    };
    let shown_suspension = match suspension {
        Some(s) => Json::object().with("suspended", Json::Bool(s.suspended)).with(
            "failures",
            Json::Signed(s.failures),
        ).with("remaining_secs", Json::Signed(s.remaining_secs)).with(
            "last_error",
            json::optional_text(&s.last_error),
        ),
        None => Json::Null,
    };
    entry.with("supported", supported).with("test", shown_test).with(
        "suspension",
        shown_suspension,
    )
}

/// The reply with the health of models.
pub fn get_models_health(facts: &Vec<ModelFacts>) -> (r: Json)
    ensures
        r@ == JsonView::Array(facts@.map_values(|f: ModelFacts| health_entry(f))),
{
    let mut out: Vec<Json> = Vec::new();
    let mut i: usize = 0;
    while i < facts.len()
        invariant
            i == out@.len(),
            i <= facts@.len(),
            forall|k: int|
                0 <= k < i ==> #[trigger] json::json_view(out@[k]) == health_entry(facts@[k]),
        decreases facts@.len() - i,
    {
        out.push(write_health(&facts[i]));
        i = i + 1;
    }
    assert(json::elements_view(out@) =~= facts@.map_values(|f: ModelFacts| health_entry(f)));
    Json::Array(out)
}

/// What a person tested last stays shown until there is newer traffic, whatever other tests run.
pub proof fn lemma_manual_test_stays(test: TestResult, traffic: LastStatus)
    requires
        test.is_manual,
        traffic.checked_at < test.status.checked_at,
    ensures
        shown_status(Some(test), traffic) == test.status,
{
}

/// What is shown of a model is its traffic, unless somebody tested it by hand since.
pub proof fn lemma_what_is_shown(test: TestResult, traffic: LastStatus)
    ensures
        shown_status(None, traffic) == traffic,
        !test.is_manual ==> shown_status(Some(test), traffic) == traffic,
        test.status.checked_at <= traffic.checked_at ==> shown_status(Some(test), traffic) == traffic,
        test.is_manual && test.status.checked_at > traffic.checked_at ==> shown_status(
            Some(test),
            traffic,
        ) == test.status,
{
}

/// A model is listed with its account and the status that is shown of it.
pub proof fn lemma_model_map(
    m: ModelRow,
    s: LastStatus,
    limits: Option<JsonView>,
)
    ensures
        ({
            let v = JsonView::Object(model_map(m, s, limits));
            &&& json::field(v, "account_id"@) == Some(JsonView::Int(m.account_id as int))
            &&& json::field(v, "provider_id"@) == Some(JsonView::Text(m.provider_id@))
            &&& json::field(v, "model"@) == Some(JsonView::Text(m.model@))
            &&& json::field(v, "last_checked"@) == Some(JsonView::Int(s.checked_at as int))
            &&& json::field(v, "success"@) == Some(JsonView::Int(s.success as int))
            &&& json::field(v, "latency"@) == Some(JsonView::Int(s.latency as int))
            &&& json::field(v, "error"@) == Some(json::text_or_null(json::some_string(s.error)))
            &&& json::field(v, "limits_cache"@) == Some(
                match limits { Some(v) => v, None => JsonView::Null, },
            )
            &&& json::field(v, "limits_cache_updated_at"@) == Some(
                json::text_or_null( json::some_string(m.limits_cache_updated_at), ),
            )
            &&& json::field(v, "account_name"@) == Some(JsonView::Text(m.account_name@))
        }),
{
    reveal_strlit("account_id");
    reveal_strlit("provider_id");
    reveal_strlit("model");
    reveal_strlit("last_checked");
    reveal_strlit("success");
    reveal_strlit("latency");
    reveal_strlit("error");
    reveal_strlit("limits_cache");
    reveal_strlit("limits_cache_updated_at");
    reveal_strlit("account_name");
    assert("account_id"@.len() == 10 && "provider_id"@.len() == 11 && "model"@.len() == 5
        && "last_checked"@.len() == 12 && "success"@.len() == 7 && "latency"@.len() == 7
        && "error"@.len() == 5 && "limits_cache"@.len() == 12
        && "limits_cache_updated_at"@.len() == 23 && "account_name"@.len() == 12);
    assert("model"@[0] != "error"@[0]);
    assert("last_checked"@[1] != "limits_cache"@[1]);
    assert("last_checked"@[0] != "account_name"@[0]);
    assert("success"@[0] != "latency"@[0]);
    assert("limits_cache"@[0] != "account_name"@[0]);
}

/// A model is listed with the protocols that its last test found, that test, and its suspension,
/// beside the status that is shown.
pub proof fn lemma_health_entry(f: ModelFacts)
    ensures
        ({
            let v = health_entry(f);
            let s = shown_status(f.test, f.row.traffic);
            &&& json::field(v, "success"@) == Some(JsonView::Int(s.success as int))
            &&& json::field(v, "latency"@) == Some(JsonView::Int(s.latency as int))
            &&& json::field(v, "last_checked"@) == Some(JsonView::Int(s.checked_at as int))
            &&& json::field(v, "supported"@) == Some(known_protocols(f.test))
            &&& json::field(v, "test"@) == Some(test_view(f.test))
            &&& json::field(v, "suspension"@) == Some(suspension_view(f.suspension))
            &&& json::field(v, "limits_cache"@) == Some(
                match f.row.limits_cache {
                    Some(t) if json::parsed(t@) is Some => json::parsed(t@)->0,
                    _ => JsonView::Null,
                },
            )
        }),
        f.test is None ==> known_protocols(f.test) == JsonView::Array(seq![]) && test_view(f.test)
            == JsonView::Null,
        f.suspension is None ==> suspension_view(f.suspension) == JsonView::Null,
{
    lemma_model_map(f.row, shown_status(f.test, f.row.traffic), limits_of(f.row));
    reveal_strlit("supported");
    reveal_strlit("test");
    reveal_strlit("suspension");
    reveal_strlit("success");
    reveal_strlit("latency");
    reveal_strlit("last_checked");
    reveal_strlit("limits_cache");
    assert("supported"@.len() == 9 && "test"@.len() == 4 && "suspension"@.len() == 10
        && "success"@.len() == 7 && "latency"@.len() == 7 && "last_checked"@.len() == 12
        && "limits_cache"@.len() == 12);
}

/// A test and a suspension are shown with all that is known of them.
pub proof fn lemma_tests_and_suspensions(t: TestResult, s: Suspension)
    ensures
        ({
            let v = test_view(Some(t));
            &&& json::field(v, "success"@) == Some(JsonView::Int(t.status.success as int))
            &&& json::field(v, "latency"@) == Some(JsonView::Int(t.status.latency as int))
            &&& json::field(v, "error"@) == Some(
                json::text_or_null(json::some_string(t.status.error)),
            )
            &&& json::field(v, "checked_at"@) == Some(JsonView::Int(t.status.checked_at as int))
            &&& json::field(v, "via"@) == Some(json::text_or_null(json::some_string(t.via)))
            &&& json::field(v, "source"@) == Some(JsonView::Text(t.source@))
        }),
        ({
            let v = suspension_view(Some(s));
            &&& json::field(v, "suspended"@) == Some(JsonView::Bool(s.suspended))
            &&& json::field(v, "failures"@) == Some(JsonView::Int(s.failures as int))
            &&& json::field(v, "remaining_secs"@) == Some(JsonView::Int(s.remaining_secs as int))
            &&& json::field(v, "last_error"@) == Some(
                json::text_or_null(json::some_string(s.last_error)),
            )
        }),
        known_protocols(Some(t)) == json::text_array(text::texts(t.protocols@)),
{
    reveal_strlit("success");
    reveal_strlit("latency");
    reveal_strlit("error");
    reveal_strlit("checked_at");
    reveal_strlit("via");
    reveal_strlit("source");
    reveal_strlit("suspended");
    reveal_strlit("failures");
    reveal_strlit("remaining_secs");
    reveal_strlit("last_error");
    assert("success"@.len() == 7 && "latency"@.len() == 7 && "error"@.len() == 5
        && "checked_at"@.len() == 10 && "via"@.len() == 3 && "source"@.len() == 6);
    assert("suspended"@.len() == 9 && "failures"@.len() == 8 && "remaining_secs"@.len() == 14
        && "last_error"@.len() == 10);
    assert("success"@[0] != "latency"@[0]);
}

} // verus!
