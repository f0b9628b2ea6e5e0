//! The background probe of aggregate aliases: how long it sleeps, whom it asks, and whom it picks.

use vstd::prelude::*;
use crate::json::{self, Json, JsonView};
use crate::routes::v1::anthropic;
use crate::routes::v1::dispatch::{self, Account, ProviderRequest};
use crate::text;

verus! {

broadcast use crate::json::lemma_elements_view;

/// The interval that the aliases ask for: the stored minimum, or five minutes.
pub fn load_min_interval(stored: Option<i64>) -> (r: u64)
    ensures
        stored is Some && stored->0 >= 0 ==> r == stored->0,
        stored is None ==> r == 5 * 60,
        r == (match stored {
            Some(n) => n as u64,
            None => 300,
        }),
{
    match stored {
        Some(n) => n as u64,
        None => 300,
    }
}

/// How long the probe sleeps: for the interval, or for the longest backoff if that is longer.
pub fn probe_sleep_secs(interval: u64, backoffs: &Vec<u64>) -> (r: u64)
    ensures
        r >= interval,
        forall|i: int| 0 <= i < backoffs@.len() ==> r >= #[trigger] backoffs@[i],
        r == interval || backoffs@.contains(r),
{
    let mut longest: u64 = interval;
    let mut i: usize = 0;
    while i < backoffs.len()
        invariant
            i <= backoffs@.len(),
            longest >= interval,
            forall|k: int| 0 <= k < i ==> longest >= #[trigger] backoffs@[k],
            longest == interval || backoffs@.contains(longest),
        decreases backoffs@.len() - i,
    {
        if backoffs[i] > longest {
            longest = backoffs[i];
            assert(backoffs@[i as int] == longest);
        }
        i = i + 1;
    }
    longest
}

/// The number of candidates that the first stage asks, all at once: those up to the active one.
pub open spec fn first_stage_len(active: nat, len: nat) -> nat {
    if active < len {
        active + 1
    } else {
        len
    }
}

/// The places of the candidates that the first stage asks.
pub fn first_stage(active: usize, len: usize) -> (r: Vec<usize>)
    ensures
        r@.len() == first_stage_len(active as nat, len as nat),
        forall|i: int| 0 <= i < r@.len() ==> #[trigger] r@[i] == i,
{
    let n: usize = if active < len {
        active + 1
    } else {
        len
    };
    let mut r: Vec<usize> = Vec::new();
    let mut i: usize = 0;
    while i < n
        invariant
            i <= n,
            r@.len() == i,
            forall|k: int| 0 <= k < i ==> #[trigger] r@[k] == k,
        decreases n - i,
    {
        r.push(i);
        i = i + 1;
    }
    r
}

/// What the probe does next.
#[derive(Clone, Copy, PartialEq, Eq, Structural, Debug)]
pub enum ProbeStep {
    /// Ask this candidate.
    Ask(usize),
    /// This candidate is the best, or none is alive.
    Done(Option<usize>),
}

/// The first place that is alive, from a place on.
pub open spec fn first_alive(alive: Seq<bool>, from: nat) -> Option<nat>
    decreases alive.len() - from,
{
    if from >= alive.len() {
        None
    } else if alive[from as int] {
        Some(from)
    } else {
        first_alive(alive, from + 1)
    }
}

/// What follows the first stage, given which of its candidates are alive: the first of them that is,
/// or the one after them.
pub fn after_first_stage(alive: &Vec<bool>, len: usize) -> (r: ProbeStep)
    requires
        alive@.len() <= len,
    ensures
        match first_alive(alive@, 0) {
            Some(i) => r == ProbeStep::Done(Some(i as usize)),
            None => r == after_place(alive@.len(), len as nat),
        },
{
    let mut i: usize = 0;
    while i < alive.len()
        invariant
            i <= alive@.len(),
            first_alive(alive@, 0) == first_alive(alive@, i as nat),
        decreases alive@.len() - i,
    {
        if alive[i] {
            return ProbeStep::Done(Some(i));
        }
        i = i + 1;
    }
    if alive.len() < len {
        ProbeStep::Ask(alive.len())
    } else {
        ProbeStep::Done(None)
    }
}

/// What follows when all candidates before a place are not alive.
pub open spec fn after_place(next: nat, len: nat) -> ProbeStep {
    if next < len {
        ProbeStep::Ask(next as usize)
    } else {
        ProbeStep::Done(None)
    }
}

/// What follows an answer in the second stage, in which candidates are asked one after the other.
pub fn after_answer(at: usize, alive: bool, len: usize) -> (r: ProbeStep)
    requires
        at < len,
    ensures
        r == (if alive {
            ProbeStep::Done(Some(at))
        } else {
            after_place((at + 1) as nat, len as nat)
        }),
{
    if alive {
        ProbeStep::Done(Some(at))
    } else if at + 1 < len {
        ProbeStep::Ask(at + 1)
    } else {
        ProbeStep::Done(None)
    }
}

/// What the second stage comes to from a place on.
pub open spec fn second_stage(alive: Seq<bool>, step: ProbeStep, fuel: nat) -> Option<nat>
    decreases fuel,
{
    match step {
        ProbeStep::Done(Some(i)) => Some(i as nat),
        ProbeStep::Done(None) => None,
        ProbeStep::Ask(i) => if fuel == 0 {
            None
        } else if alive[i as int] {
            Some(i as nat)
        } else {
            second_stage(alive, after_place((i + 1) as nat, alive.len()), (fuel - 1) as nat)
        },
    }
}

/// What the two stages come to, given which candidates are alive.
pub open spec fn probe_result(alive: Seq<bool>, active: nat) -> Option<nat> {
    let first = alive.take(first_stage_len(active, alive.len()) as int);
    match first_alive(first, 0) {
        Some(i) => Some(i),
        None => second_stage(alive, after_place(first.len(), alive.len()), alive.len()),
    }
}

proof fn lemma_second_stage(alive: Seq<bool>, from: nat, fuel: nat)
    requires
        alive.len() <= usize::MAX,
        from + fuel >= alive.len(),
    ensures
        second_stage(alive, after_place(from, alive.len()), fuel) == first_alive(alive, from),
    decreases fuel,
{
    if from < alive.len() && !alive[from as int] {
        lemma_second_stage(alive, from + 1, (fuel - 1) as nat);
    }
}

proof fn lemma_first_alive_prefix(alive: Seq<bool>, n: nat, from: nat)
    requires
        from <= n <= alive.len(),
    ensures
        match first_alive(alive.take(n as int), from) {
            Some(i) => first_alive(alive, from) == Some(i),
            None => first_alive(alive, from) == first_alive(alive, n),
        },
    decreases n - from,
{
    if from < n && !alive[from as int] {
        lemma_first_alive_prefix(alive, n, from + 1);
    }
}

/// The probe finds the first candidate in the list that is alive, whichever was active before.
pub proof fn lemma_probe_finds_first_alive(alive: Seq<bool>, active: nat)
    requires
        alive.len() <= usize::MAX,
    ensures
        probe_result(alive, active) == first_alive(alive, 0),
{
    let n = first_stage_len(active, alive.len());
    lemma_first_alive_prefix(alive, n, 0);
    lemma_second_stage(alive, n, alive.len());
}

/// The candidate that a probe round reports, and whether a switch to it means that none was alive.
pub fn probe_report(found: Option<usize>) -> (r: (usize, bool))
    ensures
        r.1 <==> found is None,
        found is Some ==> r.0 == found->0,
        r == (match found {
            Some(i) => (i, false),
            None => (0usize, true),
        }),
{
    match found {
        Some(i) => (i, false),
        None => (0, true),
    }
}

/// Whether an account is probed in the messages protocol: it has an address for that one only.
pub open spec fn probes_messages(a: Account) -> bool {
    anthropic::filled(json::some_string(a.anthropic_base_url)) is Some && anthropic::filled(
        json::some_string(a.base_url),
    ) is None
}

/// The one message of a probe.
pub open spec fn ping() -> JsonView {
    JsonView::Array(
        seq![
            JsonView::Object(
                map![
                    "role"@ => JsonView::Text("user"@),
                    "content"@ => JsonView::Text("ping"@),
                ],
            ),
        ],
    )
}

/// The body of a probe.
pub open spec fn probe_body(model: Seq<char>) -> JsonView {
    JsonView::Object(
        map![
            "model"@ => JsonView::Text(model),
            "max_tokens"@ => JsonView::Int(1),
            "messages"@ => ping(),
        ],
    )
}

/// The URL of a probe.
pub open spec fn probe_url(a: Account) -> Seq<char> {
    if probes_messages(a) {
        text::stripped_end(a.anthropic_base_url->0@, '/') + "/messages"@
    } else {
        text::stripped_end(
            match a.base_url {
                Some(u) if u@.len() > 0 => u@,
                _ => "https://api.openai.com/v1"@,
            },
            '/',
        ) + "/chat/completions"@
    }
}

/// The headers of a request in the messages protocol.
pub open spec fn messages_headers(api_key: Seq<char>) -> Seq<(Seq<char>, Seq<char>)> {
    seq![
        ("content-type"@, "application/json"@),
        ("x-api-key"@, api_key),
        ("anthropic-version"@, "2023-06-01"@),
    ]
}

/// Writes the headers of a request in the messages protocol.
pub fn write_messages_headers(api_key: &str) -> (r: Vec<(String, String)>)
    ensures
        dispatch::headers_view(r@) == messages_headers(api_key@),
{
    let mut h: Vec<(String, String)> = Vec::new();
    h.push(("content-type".to_owned(), "application/json".to_owned()));
    h.push(("x-api-key".to_owned(), api_key.to_owned()));
    h.push(("anthropic-version".to_owned(), "2023-06-01".to_owned()));
    assert(dispatch::headers_view(h@) =~= messages_headers(api_key@));
    h
}

/// The request that probes a candidate: one token, in a protocol that its account has an address for.
pub fn probe_candidate(account: &Account, model: &str) -> (r: ProviderRequest)
    ensures
        r.method@ == "POST"@,
        r.url@ == probe_url(*account),
        dispatch::headers_view(r.headers@) == (if probes_messages(*account) {
            messages_headers(account.api_key@)
        } else {
            dispatch::bearer_headers(account.api_key@)
        }),
        dispatch::headers_view(r.headers@) == probe_headers(*account),
        r.body@ == probe_body(model@),
{
    let has_messages = anthropic::filled_url(&account.anthropic_base_url).is_some();
    let has_base = anthropic::filled_url(&account.base_url).is_some();
    let message = Json::object().with("role", Json::text("user")).with(
        "content",
        Json::text("ping"),
    );
    let mut messages: Vec<Json> = Vec::new();
    messages.push(message);
    assert(json::elements_view(messages@) =~= ping()->Array_0);
    let body = Json::object().with("model", Json::text(model)).with(
        "max_tokens",
        Json::Unsigned(1),
    ).with("messages", Json::Array(messages));
    if has_messages && !has_base {
        let base = match &account.anthropic_base_url {
            Some(u) => u.as_str(),
            None => "",
        };
        return ProviderRequest {
            method: "POST".to_owned(),
            url: text::strip_end(base, '/').concat("/messages"),
            headers: write_messages_headers(account.api_key.as_str()),
            body,
        };
    }
    let base = match &account.base_url {
        Some(u) => if u.as_str().is_empty() {
            "https://api.openai.com/v1"
        } else {
            u.as_str()
        },
        None => "https://api.openai.com/v1",
    };
    ProviderRequest {
        method: "POST".to_owned(),
        url: text::strip_end(base, '/').concat("/chat/completions"),
        headers: dispatch::bearer(account.api_key.as_str()),
        body,
    }
}

/// Whether a probed candidate is alive: it answered in time, and with success.
pub fn is_alive(status: Option<u16>) -> (r: bool)
    ensures
        r <==> status is Some && 200 <= status->0 < 300,
        r == (match status {
            Some(s) => dispatch::success(s),
            None => false,
        }),
{
    match status {
        Some(s) => 200 <= s && s <= 299,
        None => false,
    }
}

/// The headers of a probe.
pub open spec fn probe_headers(a: Account) -> Seq<(Seq<char>, Seq<char>)> {
    if probes_messages(a) {
        messages_headers(a.api_key@)
    } else {
        dispatch::bearer_headers(a.api_key@)
    }
}

/// A candidate is asked at the base address of its account where that is filled in, at its Anthropic
/// address where only that is, and at OpenAI itself where the account has neither. It is shown the
/// account's key in the header of the protocol that it is asked in.
pub proof fn lemma_probe_address(a: Account)
    ensures
        ({
            let given = |u: Option<String>| u is Some && text::trimmed(u->0@).len() > 0;
            &&& given(a.base_url) ==> probe_url(a) == text::stripped_end(a.base_url->0@, '/')
                + "/chat/completions"@ && probe_headers(a).contains(
                ("authorization"@, "Bearer "@ + a.api_key@),
            )
            &&& a.base_url is None && given(a.anthropic_base_url) ==> probe_url(a)
                == text::stripped_end(a.anthropic_base_url->0@, '/') + "/messages"@ && probe_headers(
                a,
            ).contains(("x-api-key"@, a.api_key@))
            &&& a.base_url is None && a.anthropic_base_url is None ==> probe_url(a)
                == text::stripped_end("https://api.openai.com/v1"@, '/') + "/chat/completions"@
                && probe_headers(a).contains(("authorization"@, "Bearer "@ + a.api_key@))
        }),
{
    if a.base_url is Some && text::trimmed(a.base_url->0@).len() > 0 {
        assert(a.base_url->0@.len() > 0) by {
            if a.base_url->0@.len() == 0 {
                assert(text::trim_end(a.base_url->0@) == a.base_url->0@);
                assert(text::trim_start(a.base_url->0@) == a.base_url->0@);
            }
        }
    }
    if probes_messages(a) {
        assert(probe_headers(a)[1] == ("x-api-key"@, a.api_key@));
    } else {
        assert(probe_headers(a)[1] == ("authorization"@, "Bearer "@ + a.api_key@));
    }
}

/// A probe asks for one token of the candidate's own model.
pub proof fn lemma_probe_is_small(model: Seq<char>)
    ensures
        json::field(probe_body(model), "model"@) == Some(JsonView::Text(model)),
        json::field(probe_body(model), "max_tokens"@) == Some(JsonView::Int(1)),
        json::field(probe_body(model), "messages"@) matches Some(JsonView::Array(m)) && m.len() == 1,
{
    reveal_strlit("model");
    reveal_strlit("max_tokens");
    reveal_strlit("messages");
    assert("model"@.len() != "max_tokens"@.len());
    assert("model"@.len() != "messages"@.len());
    assert("max_tokens"@.len() != "messages"@.len());
}

/// The first stage asks every candidate up to the active one, and all where none is active.
pub proof fn lemma_first_stage(active: nat, len: nat, i: nat)
    ensures
        i < first_stage_len(active, len) <==> i < len && (i <= active || active >= len),
{
}

/// A request in the messages protocol shows the key, names the version of the protocol, and is JSON.
pub proof fn lemma_messages_headers(api_key: Seq<char>)
    ensures
        messages_headers(api_key).len() == 3,
        messages_headers(api_key).contains(("x-api-key"@, api_key)),
        messages_headers(api_key).contains(("anthropic-version"@, "2023-06-01"@)),
        messages_headers(api_key).contains(("content-type"@, "application/json"@)),
{
    let h = messages_headers(api_key);
    assert(h[0] == ("content-type"@, "application/json"@));
    assert(h[1] == ("x-api-key"@, api_key));
    assert(h[2] == ("anthropic-version"@, "2023-06-01"@));
}

/// A probe says one word, as the user.
pub proof fn lemma_ping()
    ensures
        ping() matches JsonView::Array(m) && m.len() == 1 && json::field(m[0], "role"@) == Some(
            JsonView::Text("user"@),
        ) && json::field(m[0], "content"@) == Some(JsonView::Text("ping"@)),
{
    reveal_strlit("role");
    reveal_strlit("content");
    assert("role"@.len() == 4 && "content"@.len() == 7);
}

} // verus!
