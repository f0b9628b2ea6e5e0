//! The queue that tests models one after the other, and the test of a single model.

use vstd::prelude::*;
use crate::error::{self, Reply};
use crate::json::{self, Json, JsonView};
use crate::text;

verus! {

broadcast use crate::json::lemma_elements_view;

/// How far the queue is.
pub struct TestQueueState {
    pub is_running: bool,
    pub total: usize,
    pub current: usize,
    pub progress: usize,
    pub scope: String,
}

/// How far the queue is, the scope by its characters.
#[verifier::ext_equal]
pub struct QueueView {
    pub is_running: bool,
    pub total: nat,
    pub current: nat,
    pub progress: nat,
    pub scope: Seq<char>,
}

impl View for TestQueueState {
    type V = QueueView;

    open spec fn view(&self) -> QueueView {
        QueueView {
            is_running: self.is_running,
            total: self.total as nat,
            current: self.current as nat,
            progress: self.progress as nat,
            scope: self.scope@,
        }
    }
}

impl Default for TestQueueState {
    fn default() -> (r: TestQueueState)
        ensures
            r@ == (QueueView {
                is_running: false,
                total: 0,
                current: 0,
                progress: 0,
                scope: seq![],
            }),
    {
        let scope = String::new();
        assert(scope@ =~= seq![]);
        TestQueueState { is_running: false, total: 0, current: 0, progress: 0, scope }
    }
}

/// How much of a queue is done, in percent, rounded down.
pub open spec fn percent(done: nat, total: nat) -> nat {
    if total == 0 {
        0
    } else {
        done * 100 / total
    }
}

/// Whether a queue is one that starting and advancing can lead to: never further than its end, and
/// the progress is that of what is done.
pub open spec fn consistent(q: QueueView) -> bool {
    q.current <= q.total && q.progress == percent(q.current, q.total)
}

/// The scope that a request gives: one of the three known ones, else `models`.
pub open spec fn scope_of(body: JsonView) -> Seq<char> {
    match json::text_in(json::field(body, "scope"@)) {
        Some(s) => if s == "aliases"@ || s == "aggregates"@ || s == "models"@ {
            s
        } else {
            "models"@
        },
        None => "models"@,
    }
}

/// Writes how far the queue is.
pub fn get_test_queue_status(queue: &TestQueueState) -> (r: Json)
    ensures
        r@ == JsonView::Object(
            map![
                "isRunning"@ => JsonView::Bool(queue.is_running),
                "total"@ => JsonView::Int(queue.total as int),
                "current"@ => JsonView::Int(queue.current as int),
                "progress"@ => JsonView::Int(queue.progress as int),
                "scope"@ => JsonView::Text(queue.scope@),
            ],
        ),
{
    Json::object().with("isRunning", Json::Bool(queue.is_running)).with(
        "total",
        Json::Unsigned(queue.total as u64),
    ).with("current", Json::Unsigned(queue.current as u64)).with(
        "progress",
        Json::Unsigned(queue.progress as u64),
    ).with("scope", Json::text(queue.scope.as_str()))
}

/// One model to be tested.
pub struct QueueItem {
    pub model: String,
    pub account_id: Option<i64>,
    pub provider_id: Option<String>,
}

/// One model to be tested, texts by their characters.
#[verifier::ext_equal]
pub struct QueueItemView {
    pub model: Seq<char>,
    pub account_id: Option<i64>,
    pub provider_id: Option<Seq<char>>,
}

impl View for QueueItem {
    type V = QueueItemView;

    open spec fn view(&self) -> QueueItemView {
        QueueItemView {
            model: self.model@,
            account_id: self.account_id,
            provider_id: json::some_string(self.provider_id),
        }
    }
}

/// The model that an entry of a request names.
pub open spec fn item_of(entry: JsonView) -> QueueItemView {
    QueueItemView {
        model: match json::text_in(json::field(entry, "model"@)) {
            Some(m) => m,
            None => "unknown"@,
        },
        account_id: json::i64_in(json::field(entry, "accountId"@)),
        provider_id: crate::routes::auth::nonempty_at(entry, "providerId"@),
    }
}

fn read_item(entry: &Json) -> (r: QueueItem)
    ensures
        r@ == item_of(entry@),
{
    let model = match entry.str_at("model") {
        Some(m) => m.to_owned(),
        None => "unknown".to_owned(),
    };
    let account_id = match entry.get("accountId") {
        Some(j) => j.as_i64(),
        None => None,
    };
    let provider_id = match entry.str_at("providerId") {
        Some(p) => if p.is_empty() {
            None
        } else {
            Some(p.to_owned())
        },
        None => None,
    };
    QueueItem { model, account_id, provider_id }
}

/// The views of a list of models.
pub open spec fn items_view(s: Seq<QueueItem>) -> Seq<QueueItemView> {
    s.map_values(|i: QueueItem| i@)
}

fn read_items(list: &Vec<Json>) -> (r: Vec<QueueItem>)
    ensures
        items_view(r@) == json::elements_view(list@).map_values(|e: JsonView| item_of(e)),
{
    let mut out: Vec<QueueItem> = Vec::new();
    let mut i: usize = 0;
    while i < list.len()
        invariant
            i == out@.len(),
            i <= list@.len(),
            forall|k: int|
                0 <= k < i ==> (#[trigger] out@[k])@ == item_of(json::json_view(list@[k])),
        decreases list@.len() - i,
    {
        out.push(read_item(&list[i]));
        i = i + 1;
    }
    assert(items_view(out@) =~= json::elements_view(list@).map_values(|e: JsonView| item_of(e)));
    out
}

/// Starts the queue, unless it is running.
pub fn start_test_queue(queue: &mut TestQueueState, body: &Json) -> (r: Result<
    Vec<QueueItem>,
    Reply,
>)
    ensures
        match json::array_in(json::field(body@, "models"@)) {
            None => r is Err && r->Err_0@ == (400u16, error::plain_error("Invalid models array"@))
                && *final(queue) == *old(queue),
            Some(models) => if old(queue).is_running {
                r is Err && r->Err_0@ == (
                    409u16,
                    error::plain_error("A test queue is already running."@),
                ) && *final(queue) == *old(queue)
            } else {
                r is Ok && items_view(r->Ok_0@) == models.map_values(|e: JsonView| item_of(e))
                    && final(queue)@ == (QueueView {
                    is_running: true,
                    total: models.len(),
                    current: 0,
                    progress: 0,
                    scope: scope_of(body@),
                })
            },
        },
{
    let models = match body.get("models") {
        Some(j) => match j.as_array() {
            Some(v) => v,
            None => {
                return Err(error::simple_error("Invalid models array", 400));
            },
        },
        None => {
            return Err(error::simple_error("Invalid models array", 400));
        },
    };
    if queue.is_running {
        return Err(error::simple_error("A test queue is already running.", 409));
    }
    let scope = match body.str_at("scope") {
        Some(s) => if text::same(s, "aliases") || text::same(s, "aggregates") {
            s
        } else {
            "models"
        },
        None => "models",
    };
    queue.is_running = true;
    queue.total = models.len();
    queue.current = 0;
    queue.progress = 0;
    queue.scope = scope.to_owned();
    Ok(read_items(models))
}

/// The model at a place was tested.
pub fn advance(queue: &mut TestQueueState, at: usize)
    requires
        (at + 1) * 100 <= usize::MAX,
    ensures
        final(queue)@ == (QueueView {
            current: (at + 1) as nat,
            progress: percent((at + 1) as nat, old(queue)@.total),
            ..old(queue)@
        }),
{
    queue.current = at + 1;
    queue.progress = if queue.total > 0 {
        ((at + 1) * 100) / queue.total
    } else {
        0
    };
}

/// All models were tested.
pub fn finish(queue: &mut TestQueueState)
    ensures
        final(queue)@ == (QueueView { is_running: false, ..old(queue)@ }),
{
    queue.is_running = false;
}

/// The reply to a request that started the queue.
pub fn queue_started(total: usize) -> (r: Reply)
    ensures
        r@ == (
            200u16,
            JsonView::Object(
                map![
                    "success"@ => JsonView::Bool(true),
                    "message"@ => JsonView::Text("Queue started"@),
                    "total"@ => JsonView::Int(total as int),
                ],
            ),
        ),
{
    Reply {
        status: 200,
        body: Json::object().with("success", Json::Bool(true)).with(
            "message",
            Json::text("Queue started"),
        ).with("total", Json::Unsigned(total as u64)),
    }
}

/// A started queue is consistent, and stays so while its models are tested in turn; it is at a
/// hundred percent exactly when the last one was tested.
pub proof fn lemma_progress(q: QueueView, at: nat)
    requires
        at < q.total,
    ensures
        consistent(QueueView { current: 0, progress: 0, ..q }),
        ({
            let next = QueueView { current: at + 1, progress: percent(at + 1, q.total), ..q };
            &&& consistent(next)
            &&& next.progress <= 100
            &&& next.progress == 100 <==> at + 1 == q.total
        }),
{
    let t = q.total as int;
    let d = (at + 1) as int;
    assert(d * 100 / t <= 100) by (nonlinear_arith)
        requires
            0 < d <= t,
    ;
    if d == t {
        assert(d * 100 / t == 100) by (nonlinear_arith)
            requires
                d == t,
                t > 0,
        ;
    } else {
        assert(d * 100 / t < 100) by (nonlinear_arith)
            requires
                0 < d < t,
        ;
    }
    assert((0int * 100) / t == 0) by (nonlinear_arith)
        requires
            t > 0,
    ;
}

/// Whether a provider is one that a model name is guessed to belong to.
pub open spec fn guessed_provider(p: Seq<char>) -> bool {
    p == "openai"@ || p == "gemini"@ || p == "anthropic"@
}

/// The provider that a queued model is tested at: the given one in place of a guess.
pub fn queue_provider(resolved: &str, given: Option<&str>) -> (r: String)
    ensures
        given is None ==> r@ == resolved@,
        given is Some && (resolved@ == "openai"@ || resolved@ == "gemini"@ || resolved@
            == "anthropic"@) ==> r@ == given->0@,
        given is Some && !(resolved@ == "openai"@ || resolved@ == "gemini"@ || resolved@
            == "anthropic"@) ==> r@ == resolved@,
        r@ == (match given {
            Some(g) => if guessed_provider(resolved@) {
                g@
            } else {
                resolved@
            },
            None => resolved@,
        }),
{
    match given {
        Some(g) => if text::same(resolved, "openai") || text::same(resolved, "gemini")
            || text::same(resolved, "anthropic") {
            g.to_owned()
        } else {
            resolved.to_owned()
        },
        None => resolved.to_owned(),
    }
}

/// The provider of a queued model that does not resolve.
pub fn unresolved_provider(given: Option<&str>) -> (r: String)
    ensures
        r@ == (match given {
            Some(g) => g@,
            None => "openai"@,
        }),
{
    match given {
        Some(g) => g.to_owned(),
        None => "openai".to_owned(),
    }
}

/// A request to test one model.
pub struct TestRequest {
    pub model: String,
    pub provider_id: Option<String>,
    pub account_id: Option<i64>,
}

/// Reads a request to test one model.
pub fn test_model(body: &Json) -> (r: Result<TestRequest, Reply>)
    ensures
        match json::text_in(json::field(body@, "model"@)) {
            Some(m) => r is Ok && r->Ok_0.model@ == m && json::some_string(r->Ok_0.provider_id)
                == json::text_in(json::field(body@, "providerId"@)) && r->Ok_0.account_id
                == json::i64_in(json::field(body@, "accountId"@)),
            None => r is Err && r->Err_0@ == (400u16, error::plain_error("No model provided"@)),
        },
{
    let model = match body.str_at("model") {
        Some(m) => m.to_owned(),
        None => {
            return Err(error::simple_error("No model provided", 400));
        },
    };
    let provider_id = match body.str_at("providerId") {
        Some(p) => Some(p.to_owned()),
        None => None,
    };
    let account_id = match body.get("accountId") {
        Some(j) => j.as_i64(),
        None => None,
    };
    Ok(TestRequest { model, provider_id, account_id })
}

/// The provider that a single model is tested at: the given one, else the resolved one.
pub fn test_provider(resolved: &str, given: Option<&str>) -> (r: String)
    ensures
        r@ == (match given {
            Some(g) => g@,
            None => resolved@,
        }),
{
    match given {
        Some(g) => g.to_owned(),
        None => resolved.to_owned(),
    }
}

/// The reply to a test that could not be made.
pub open spec fn failed_test(message: Seq<char>) -> (u16, JsonView) {
    (
        200u16,
        JsonView::Object(
            map!["success"@ => JsonView::Bool(false), "error"@ => JsonView::Text(message)],
        ),
    )
}

/// The reply to a test for which there is no account.
pub fn no_account_reply(provider: &str) -> (r: Reply)
    ensures
        r@ == failed_test("No active account found for provider "@ + provider@),
{
    let message = "No active account found for provider ".to_owned().concat(provider);
    Reply {
        status: 200,
        body: Json::object().with("success", Json::Bool(false)).with(
            "error",
            Json::text(message.as_str()),
        ),
    }
}

/// The reply to a test for which no client could be made.
pub fn no_client_reply(error: &str) -> (r: Reply)
    ensures
        r@ == failed_test("Failed to create HTTP client: "@ + error@),
{
    let message = "Failed to create HTTP client: ".to_owned().concat(error);
    Reply {
        status: 200,
        body: Json::object().with("success", Json::Bool(false)).with(
            "error",
            Json::text(message.as_str()),
        ),
    }
}

/// What a test found out.
pub struct ProbeOutcome {
    pub success: bool,
    pub latency_ms: i64,
    pub status: Option<u16>,
    pub supported: Vec<String>,
    pub via: Option<String>,
    pub mismatched_config: Option<String>,
    /// The body of the preferred protocol's answer, where it was asked.
    pub preferred_body: Option<String>,
    pub error_summary: String,
}

/// The body that a test shows.
pub open spec fn shown_body(o: ProbeOutcome) -> Seq<char> {
    match o.preferred_body {
        Some(b) => b@,
        None => o.error_summary@,
    }
}

/// The error that a test reports: the upstream's own message, else the summary.
pub open spec fn test_error(o: ProbeOutcome, says: Option<JsonView>) -> JsonView {
    if o.success {
        JsonView::Null
    } else {
        match says {
            Some(v) => match json::field(v, "error"@) {
                Some(e) => match json::text_in(json::field(e, "message"@)) {
                    Some(m) => JsonView::Text(m),
                    None => JsonView::Text(o.error_summary@),
                },
                None => JsonView::Text(o.error_summary@),
            },
            None => JsonView::Text(o.error_summary@),
        }
    }
}

/// The answer that a test shows.
pub open spec fn test_response(o: ProbeOutcome, says: Option<JsonView>) -> JsonView {
    if o.success {
        match says {
            Some(v) => v,
            None => JsonView::Null,
        }
    } else {
        JsonView::Null
    }
}

/// The body of the reply to a test, given what the shown body says as JSON.
pub open spec fn test_reply(o: ProbeOutcome, says: Option<JsonView>) -> JsonView {
    JsonView::Object(
        map![
            "success"@ => JsonView::Bool(o.success),
            "latency"@ => JsonView::Int(o.latency_ms as int),
            "status"@ => match o.status {
                Some(s) => JsonView::Int(s as int),
                None => JsonView::Null,
            },
            "supported"@ => json::text_array(text::texts(o.supported@)),
            "via"@ => json::text_or_null(json::some_string(o.via)),
            "mismatchedConfig"@ => json::text_or_null(json::some_string(o.mismatched_config)),
            "response"@ => test_response(o, says),
            "error"@ => test_error(o, says),
        ],
    )
}

/// Writes the reply to a test, given what the shown body says as JSON.
pub fn write_test_reply(o: &ProbeOutcome, says: Option<Json>) -> (r: Reply)
    ensures
        r@ == (
            200u16,
            test_reply(
                *o,
                match says {
                    Some(v) => Some(v@),
                    None => None,
                },
            ),
        ),
{
    let status = match o.status {
        Some(s) => Json::Unsigned(s as u64),
        None => Json::Null,
    };
    let error = if o.success {
        Json::Null
    } else {
        let own = match &says {
            Some(v) => match v.get("error") {
                Some(e) => match e.str_at("message") {
                    Some(m) => Some(m.to_owned()),
                    None => None,
                },
                None => None,
            },
            None => None,
        };
        match own {
            Some(m) => Json::Text(m),
            None => Json::Text(o.error_summary.clone()),
        }
    };
    let response = if o.success {
        match says {
            Some(v) => v,
            None => Json::Null,
        }
    } else {
        Json::Null
    };
    Reply {
        status: 200,
        body: Json::object().with("success", Json::Bool(o.success)).with(
            "latency",
            Json::Signed(o.latency_ms),
        ).with("status", status).with("supported", json::string_array(&o.supported)).with(
            "via",
            json::optional_text(&o.via),
        ).with("mismatchedConfig", json::optional_text(&o.mismatched_config)).with(
            "response",
            response,
        ).with("error", error),
    }
}

/// The reply to a test.
pub fn tested(o: &ProbeOutcome) -> (r: Reply)
    ensures
        r@ == (200u16, test_reply(*o, json::parsed(shown_body(*o)))),
{
    let body = match &o.preferred_body {
        Some(b) => b.as_str(),
        None => o.error_summary.as_str(),
    };
    let says = json::parse(body);
    write_test_reply(o, says)
}

/// A queue tests what it is asked to: aliases, aggregates or models, and models where it is asked for
/// anything else.
pub proof fn lemma_scope(body: Map<Seq<char>, JsonView>, s: Seq<char>)
    ensures
        json::holds(body, "scope"@, JsonView::Text(s)) && (s == "aliases"@ || s == "aggregates"@ || s
            == "models"@) ==> scope_of(JsonView::Object(body)) == s,
        json::holds(body, "scope"@, JsonView::Text(s)) && s != "aliases"@ && s != "aggregates"@
            ==> scope_of(JsonView::Object(body)) == "models"@,
        !body.dom().contains("scope"@) ==> scope_of(JsonView::Object(body)) == "models"@,
{
}

/// An item of the queue is what its entry says of the model, the account and the provider.
pub proof fn lemma_items(entry: Map<Seq<char>, JsonView>, s: Seq<char>, n: i64)
    ensures
        ({
            let i = item_of(JsonView::Object(entry));
            &&& json::holds(entry, "model"@, JsonView::Text(s)) ==> i.model == s
            &&& !entry.dom().contains("model"@) ==> i.model == "unknown"@
            &&& json::holds(entry, "accountId"@, JsonView::Int(n as int)) ==> i.account_id == Some(n)
            &&& !entry.dom().contains("accountId"@) ==> i.account_id is None
            &&& json::holds(entry, "providerId"@, JsonView::Text(s)) && s.len() > 0 ==> i.provider_id
                == Some(s)
            &&& json::holds(entry, "providerId"@, JsonView::Text(s)) && s.len() == 0
                ==> i.provider_id is None
            &&& !entry.dom().contains("providerId"@) ==> i.provider_id is None
        }),
{
}

/// The progress is zero at the start, one hundred at the end, and never falls between.
pub proof fn lemma_percent(done: nat, more: nat, total: nat)
    requires
        done <= more <= total,
    ensures
        percent(0, total) == 0,
        total > 0 ==> percent(total, total) == 100,
        percent(done, total) <= percent(more, total) <= 100,
{
    if total > 0 {
        let t = total as int;
        let d = done as int;
        let m = more as int;
        assert(d * 100 / t <= m * 100 / t && m * 100 / t <= 100 && t * 100 / t == 100 && 0int / t
            == 0) by (nonlinear_arith)
            requires
                0 < t,
                0 <= d <= m <= t,
        ;
    }
}

/// A test that succeeded shows the answer and no error; one that failed shows an error and no answer.
/// The error is the upstream's own where it gives one.
pub proof fn lemma_test_shows(
    o: ProbeOutcome,
    says: Map<Seq<char>, JsonView>,
    error: Map<Seq<char>, JsonView>,
    message: Seq<char>,
)
    ensures
        o.success ==> test_error(o, Some(JsonView::Object(says))) == JsonView::Null && test_response(
            o,
            Some(JsonView::Object(says)),
        ) == JsonView::Object(says),
        !o.success ==> test_response(o, Some(JsonView::Object(says))) == JsonView::Null,
        !o.success && json::holds(says, "error"@, JsonView::Object(error)) && json::holds(
            error,
            "message"@,
            JsonView::Text(message),
        ) ==> test_error(o, Some(JsonView::Object(says))) == JsonView::Text(message),
        !o.success && !says.dom().contains("error"@) ==> test_error(o, Some(JsonView::Object(says)))
            == JsonView::Text(o.error_summary@),
        !o.success ==> test_error(o, None) == JsonView::Text(o.error_summary@),
{
}

/// The reply to a test says what came of it, each part under its own name.
pub proof fn lemma_test_reply(o: ProbeOutcome, says: Option<JsonView>)
    ensures
        ({
            let v = test_reply(o, says);
            &&& json::field(v, "success"@) == Some(JsonView::Bool(o.success))
            &&& json::field(v, "latency"@) == Some(JsonView::Int(o.latency_ms as int))
            &&& json::field(v, "status"@) == Some(
                match o.status { Some(s) => JsonView::Int(s as int), None => JsonView::Null, },
            )
            &&& json::field(v, "supported"@) == Some(json::text_array(text::texts(o.supported@)))
            &&& json::field(v, "via"@) == Some(json::text_or_null(json::some_string(o.via)))
            &&& json::field(v, "mismatchedConfig"@) == Some(
                json::text_or_null(json::some_string(o.mismatched_config)),
            )
            &&& json::field(v, "response"@) == Some(test_response(o, says))
            &&& json::field(v, "error"@) == Some(test_error(o, says))
        }),
{
    reveal_strlit("success");
    reveal_strlit("latency");
    reveal_strlit("status");
    reveal_strlit("supported");
    reveal_strlit("via");
    reveal_strlit("mismatchedConfig");
    reveal_strlit("response");
    reveal_strlit("error");
    assert("success"@.len() == 7 && "latency"@.len() == 7 && "status"@.len() == 6
        && "supported"@.len() == 9 && "via"@.len() == 3 && "mismatchedConfig"@.len() == 16
        && "response"@.len() == 8 && "error"@.len() == 5);
    assert("success"@[0] != "latency"@[0]);
}

/// A test that could not be made is a reply all the same, which says that it failed and why.
pub proof fn lemma_failed_test(message: Seq<char>)
    ensures
        failed_test(message).0 == 200,
        json::field(failed_test(message).1, "success"@) == Some(JsonView::Bool(false)),
        json::field(failed_test(message).1, "error"@) == Some(JsonView::Text(message)),
{
    reveal_strlit("success");
    reveal_strlit("error");
    assert("success"@.len() == 7 && "error"@.len() == 5);
}

/// What is shown of a test is the answer that it preferred, and the errors where there was none.
pub proof fn lemma_shown_body(o: ProbeOutcome)
    ensures
        o.preferred_body is Some ==> shown_body(o) == o.preferred_body->0@,
        o.preferred_body is None ==> shown_body(o) == o.error_summary@,
{
}

} // verus!
