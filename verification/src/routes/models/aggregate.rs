//! Aggregate aliases: what a request may set, and what deleting one does to the keys' policies.

use vstd::prelude::*;
use crate::error::{self, Reply};
use crate::json::{self, Json, JsonView};
use crate::middleware;
use crate::routes::v1::aggregate::AggregateCandidate;
use crate::text;

verus! {

broadcast use crate::json::lemma_elements_view;

/// An aggregate alias as a request sets it.
pub struct AggregateDraft {
    pub alias: String,
    pub candidates: Vec<AggregateCandidate>,
    pub account_ids: Vec<i64>,
    pub interval_secs: i64,
    pub confirm: bool,
    /// The protocol that the upstreams are asked in, as the request gives it.
    pub upstream_api: String,
}

/// A candidate, its model by its characters.
pub open spec fn candidate_view(c: AggregateCandidate) -> (i64, Seq<char>) {
    (c.account_id, c.model@)
}

/// The views of a list of candidates.
pub open spec fn candidates_view(s: Seq<AggregateCandidate>) -> Seq<(i64, Seq<char>)> {
    s.map_values(|c: AggregateCandidate| candidate_view(c))
}

/// The text of a member without surrounding white space, if anything is left of it.
pub open spec fn trimmed_at(v: JsonView, key: Seq<char>) -> Option<Seq<char>> {
    match json::text_in(json::field(v, key)) {
        Some(s) => if text::trimmed(s).len() > 0 {
            Some(text::trimmed(s))
        } else {
            None
        },
        None => None,
    }
}

fn trimmed_text(v: &Json, key: &str) -> (r: Option<String>)
    ensures
        json::some_string(r) == trimmed_at(v@, key@),
{
    match v.str_at(key) {
        Some(s) => {
            let t = text::trim(s);
            if t.as_str().is_empty() {
                None
            } else {
                Some(t)
            }
        },
        None => None,
    }
}

/// The candidate that an item of a request names, or what is wrong with it.
pub open spec fn read_candidate_view(item: JsonView) -> Result<(i64, Seq<char>), Seq<char>> {
    match json::i64_in(json::field(item, "account_id"@)) {
        Some(id) if id > 0 => match trimmed_at(item, "model"@) {
            Some(m) => Ok((id, m)),
            None => Err("each candidate requires non-empty model"@),
        },
        _ => Err("each candidate requires account_id (>0)"@),
    }
}

fn read_candidate(item: &Json) -> (r: Result<AggregateCandidate, &'static str>)
    ensures
        match read_candidate_view(item@) {
            Ok(c) => r is Ok && candidate_view(r->Ok_0) == c,
            Err(e) => r is Err && r->Err_0@ == e,
        },
{
    let account_id: i64 = match item.get("account_id") {
        Some(j) => match j.as_i64() {
            Some(n) => n,
            None => 0,
        },
        None => 0,
    };
    if account_id <= 0 {
        return Err("each candidate requires account_id (>0)");
    }
    match trimmed_text(item, "model") {
        Some(model) => Ok(AggregateCandidate { account_id, model }),
        None => Err("each candidate requires non-empty model"),
    }
}

/// What is wrong with the first item of a list that is not right.
pub open spec fn first_wrong(items: Seq<JsonView>) -> Option<Seq<char>>
    decreases items.len(),
{
    if items.len() == 0 {
        None
    } else {
        match first_wrong(items.drop_last()) {
            Some(e) => Some(e),
            None => match read_candidate_view(items.last()) {
                Ok(_) => None,
                Err(e) => Some(e),
            },
        }
    }
}

/// The candidates that a list of items names.
pub open spec fn candidates_of(items: Seq<JsonView>) -> Seq<(i64, Seq<char>)> {
    items.map_values(
        |i: JsonView|
            match read_candidate_view(i) {
                Ok(c) => c,
                Err(_) => (0i64, seq![]),
            },
    )
}

proof fn lemma_first_wrong_stays(items: Seq<JsonView>, n: int)
    requires
        0 <= n <= items.len(),
        first_wrong(items.take(n)) is Some,
    ensures
        first_wrong(items) == first_wrong(items.take(n)),
    decreases items.len() - n,
{
    if n < items.len() {
        assert(items.take(n + 1).drop_last() =~= items.take(n));
        lemma_first_wrong_stays(items, n + 1);
    } else {
        assert(items.take(n) =~= items);
    }
}

fn read_candidates(items: &Vec<Json>) -> (r: Result<Vec<AggregateCandidate>, &'static str>)
    ensures
        match first_wrong(json::elements_view(items@)) {
            Some(e) => r is Err && r->Err_0@ == e,
            None => r is Ok && candidates_view(r->Ok_0@) == candidates_of(
                json::elements_view(items@),
            ),
        },
{
    let ghost all = json::elements_view(items@);
    let mut out: Vec<AggregateCandidate> = Vec::new();
    let mut i: usize = 0;
    assert(all.take(0) =~= Seq::<JsonView>::empty());
    while i < items.len()
        invariant
            i <= items@.len(),
            all == json::elements_view(items@),
            all.len() == items@.len(),
            i == out@.len(),
            first_wrong(all.take(i as int)) is None,
            forall|k: int|
                0 <= k < i ==> read_candidate_view(all[k]) == Ok::<(i64, Seq<char>), Seq<char>>(
                    candidate_view(#[trigger] out@[k]),
                ),
        decreases items@.len() - i,
    {
        assert(all.take(i + 1).drop_last() =~= all.take(i as int));
        assert(all.take(i + 1).last() == json::json_view(items@[i as int]));
        match read_candidate(&items[i]) {
            Ok(c) => {
                out.push(c);
            },
            Err(e) => {
                proof {
                    lemma_first_wrong_stays(all, i + 1);
                }
                return Err(e);
            },
        }
        i = i + 1;
    }
    assert(all.take(i as int) =~= all);
    assert(candidates_view(out@) =~= candidates_of(all));
    Ok(out)
}

/// A number held between two bounds.
pub open spec fn clamped(n: int, low: int, high: int) -> int {
    if n < low {
        low
    } else if n > high {
        high
    } else {
        n
    }
}

/// The interval that a request gives, between one minute and one hour.
pub open spec fn interval_of(body: JsonView) -> int {
    clamped(
        match json::i64_in(json::field(body, "interval_secs"@)) {
            Some(n) => n as int,
            None => 300,
        },
        60,
        3600,
    )
}

fn interval(body: &Json) -> (r: i64)
    ensures
        r == interval_of(body@),
{
    let n: i64 = match body.get("interval_secs") {
        Some(j) => match j.as_i64() {
            Some(n) => n,
            None => 300,
        },
        None => 300,
    };
    if n < 60 {
        60
    } else if n > 3600 {
        3600
    } else {
        n
    }
}

/// Whether numbers stand in ascending order, each once.
pub open spec fn strictly_ascending(s: Seq<i64>) -> bool {
    forall|i: int, j: int| 0 <= i < j < s.len() ==> #[trigger] s[i] < #[trigger] s[j]
}

/// The accounts of a list of candidates, each once and in ascending order.
pub fn unique_accounts(candidates: &Vec<AggregateCandidate>) -> (r: Vec<i64>)
    ensures
        strictly_ascending(r@),
        forall|id: i64| #[trigger]
            r@.contains(id) <==> exists|k: int|
                0 <= k < candidates@.len() && (#[trigger] candidates@[k]).account_id == id,
{
    let mut out: Vec<i64> = Vec::new();
    let mut i: usize = 0;
    while i < candidates.len()
        invariant
            i <= candidates@.len(),
            strictly_ascending(out@),
            forall|id: i64| #[trigger]
                out@.contains(id) <==> exists|k: int|
                    0 <= k < i && (#[trigger] candidates@[k]).account_id == id,
        decreases candidates@.len() - i,
    {
        let x: i64 = candidates[i].account_id;
        let mut j: usize = 0;
        while j < out.len() && out[j] < x
            invariant
                j <= out@.len(),
                forall|k: int| 0 <= k < j ==> #[trigger] out@[k] < x,
            decreases out@.len() - j,
        {
            j = j + 1;
        }
        let ghost before = out@;
        if j == out.len() || out[j] != x {
            proof {
                assert forall|k: int| j <= k < before.len() implies x < #[trigger] before[k] by {
                    if k > j {
                        assert(before[j as int] < before[k]);
                    }
                }
            }
            out.insert(j, x);
            proof {
                let now = out@;
                assert forall|a: int, b: int| 0 <= a < b < now.len() implies #[trigger] now[a]
                    < #[trigger] now[b] by {
                    let a0 = if a < j {
                        a
                    } else {
                        a - 1
                    };
                    let b0 = if b < j {
                        b
                    } else {
                        b - 1
                    };
                    if a != j {
                        assert(now[a] == before[a0]);
                    }
                    if b != j {
                        assert(now[b] == before[b0]);
                    }
                }
                assert(now[j as int] == x);
                assert forall|id: i64| #[trigger] now.contains(id) <==> (before.contains(id) || id
                    == x) by {
                    if now.contains(id) {
                        let k = choose|k: int| 0 <= k < now.len() && now[k] == id;
                        if k < j {
                            assert(before[k] == id);
                        } else if k > j {
                            assert(before[k - 1] == id);
                        }
                    }
                    if before.contains(id) {
                        let k = choose|k: int| 0 <= k < before.len() && before[k] == id;
                        if k < j {
                            assert(now[k] == id);
                        } else {
                            assert(now[k + 1] == id);
                        }
                    }
                }
            }
        } else {
            assert(before[j as int] == x);
        }
        proof {
            assert forall|id: i64| #[trigger] out@.contains(id) <==> exists|k: int|
                0 <= k < i + 1 && (#[trigger] candidates@[k]).account_id == id by {
                assert(out@.contains(id) <==> (before.contains(id) || id == x));
                if out@.contains(id) && !before.contains(id) {
                    assert(candidates@[i as int].account_id == id);
                }
            }
        }
        i = i + 1;
    }
    out
}

/// The error reply to a request to set an aggregate alias, as far as its body goes.
pub open spec fn draft_error(body: JsonView) -> Option<(u16, JsonView)> {
    let message = if trimmed_at(body, "alias"@) is None {
        Some("Missing required field: alias"@)
    } else {
        match json::field(body, "candidates"@) {
            None => Some("Missing required field: candidates"@),
            Some(JsonView::Array(items)) => if items.len() == 0 {
                Some("candidates must not be empty"@)
            } else {
                first_wrong(items)
            },
            Some(_) => Some("candidates must be an array"@),
        }
    };
    match message {
        Some(m) => Some((400u16, error::plain_error(m))),
        None => None,
    }
}

/// The protocol that a request asks for, as it gives it.
pub open spec fn upstream_text(body: JsonView) -> Seq<char> {
    match json::text_in(json::field(body, "upstream_api"@)) {
        Some(s) => s,
        None => "chat"@,
    }
}

/// Whether a draft is the one that a request asks for.
pub open spec fn drafted(d: AggregateDraft, body: JsonView) -> bool {
    &&& Some(d.alias@) == trimmed_at(body, "alias"@)
    &&& candidates_view(d.candidates@) == candidates_of(
        json::array_in(json::field(body, "candidates"@))->0,
    )
    &&& strictly_ascending(d.account_ids@)
    &&& forall|id: i64| #[trigger]
        d.account_ids@.contains(id) <==> exists|k: int|
            0 <= k < d.candidates@.len() && (#[trigger] d.candidates@[k]).account_id == id
    &&& d.interval_secs == interval_of(body)
    &&& d.confirm == (json::bool_in(json::field(body, "confirm"@)) == Some(true))
    &&& d.upstream_api@ == upstream_text(body)
}

/// Reads a request to set an aggregate alias.
pub fn set_aggregate_alias(body: &Json) -> (r: Result<AggregateDraft, Reply>)
    ensures
        match draft_error(body@) {
            Some(e) => r is Err && r->Err_0@ == e,
            None => r is Ok && drafted(r->Ok_0, body@),
        },
{
    let alias = match trimmed_text(body, "alias") {
        Some(a) => a,
        None => {
            return Err(error::simple_error("Missing required field: alias", 400));
        },
    };
    let items = match body.get("candidates") {
        Some(j) => match j.as_array() {
            Some(v) => v,
            None => {
                return Err(error::simple_error("candidates must be an array", 400));
            },
        },
        None => {
            return Err(error::simple_error("Missing required field: candidates", 400));
        },
    };
    if items.len() == 0 {
        return Err(error::simple_error("candidates must not be empty", 400));
    }
    let candidates = match read_candidates(items) {
        Ok(c) => c,
        Err(e) => {
            return Err(error::simple_error(e, 400));
        },
    };
    let account_ids = unique_accounts(&candidates);
    let confirm = match body.get("confirm") {
        Some(j) => match j.as_bool() {
            Some(b) => b,
            None => false,
        },
        None => false,
    };
    let upstream_api = match body.str_at("upstream_api") {
        Some(s) => s.to_owned(),
        None => "chat".to_owned(),
    };
    Ok(
        AggregateDraft {
            alias,
            candidates,
            account_ids,
            interval_secs: interval(body),
            confirm,
            upstream_api,
        },
    )
}

/// Whether the accounts of a draft are all there, given how many of them were found active.
pub fn accounts_error(found: usize, wanted: usize) -> (r: Option<Reply>)
    ensures
        match r {
            Some(e) => found != wanted && e@ == (
                400u16,
                error::plain_error("one or more account_id does not exist or is inactive"@),
            ),
            None => found == wanted,
        },
{
    if found != wanted {
        Some(error::simple_error("one or more account_id does not exist or is inactive", 400))
    } else {
        None
    }
}

/// The reply where an ordinary alias of that name stands in the way.
pub open spec fn conflict(alias: Seq<char>) -> (u16, JsonView) {
    (
        409u16,
        JsonView::Object(
            map![
                "error"@ => JsonView::Text(
                    "alias '"@ + alias + "' already exists as a regular alias"@,
                ),
                "code"@ => JsonView::Text("alias_conflict"@),
                "conflict"@ => JsonView::Text("ordinary"@),
                "alias"@ => JsonView::Text(alias),
            ],
        ),
    )
}

/// Whether an ordinary alias of the same name stands in the way: it gives way to a confirmed request
/// only.
pub fn alias_conflict(alias: &str, ordinary_exists: bool, confirm: bool) -> (r: Option<Reply>)
    ensures
        match r {
            Some(e) => ordinary_exists && !confirm && e@ == conflict(alias@),
            None => !ordinary_exists || confirm,
        },
{
    if ordinary_exists && !confirm {
        let message = "alias '".to_owned().concat(alias).concat(
            "' already exists as a regular alias",
        );
        Some(
            Reply {
                status: 409,
                body: Json::object().with("error", Json::text(message.as_str())).with(
                    "code",
                    Json::text("alias_conflict"),
                ).with("conflict", Json::text("ordinary")).with("alias", Json::text(alias)),
            },
        )
    } else {
        None
    }
}

/// A candidate as it is stored.
pub open spec fn candidate_json(c: (i64, Seq<char>)) -> JsonView {
    JsonView::Object(
        map!["account_id"@ => JsonView::Int(c.0 as int), "model"@ => JsonView::Text(c.1)],
    )
}

/// A list of candidates as it is stored.
pub open spec fn candidates_json(s: Seq<(i64, Seq<char>)>) -> JsonView {
    JsonView::Array(s.map_values(|c: (i64, Seq<char>)| candidate_json(c)))
}

/// Writes a list of candidates as it is stored.
pub fn store_candidates(candidates: &Vec<AggregateCandidate>) -> (r: String)
    ensures
        r@ == json::rendered(candidates_json(candidates_view(candidates@))),
{
    let mut out: Vec<Json> = Vec::new();
    let mut i: usize = 0;
    while i < candidates.len()
        invariant
            i == out@.len(),
            i <= candidates@.len(),
            forall|k: int|
                0 <= k < i ==> #[trigger] json::json_view(out@[k]) == candidate_json(
                    candidate_view(candidates@[k]),
                ),
        decreases candidates@.len() - i,
    {
        out.push(
            Json::object().with("account_id", Json::Signed(candidates[i].account_id)).with(
                "model",
                Json::text(candidates[i].model.as_str()),
            ),
        );
        i = i + 1;
    }
    assert(json::elements_view(out@) =~= candidates_json(candidates_view(candidates@))->Array_0);
    json::render(&Json::Array(out))
}

/// The reply where the stored form of the candidates cannot be read back.
pub fn invalid_candidates(error: &str, status: u16) -> (r: Reply)
    ensures
        r@ == (status, error::plain_error("Invalid candidates: "@ + error@)),
{
    error::simple_error("Invalid candidates: ".to_owned().concat(error).as_str(), status)
}

/// A reply that reports success with a message.
pub fn success_message(message: &str) -> (r: Reply)
    ensures
        r@ == (
            200u16,
            JsonView::Object(
                map![
                    "success"@ => JsonView::Bool(true),
                    "message"@ => JsonView::Text(message@),
                ],
            ),
        ),
{
    Reply {
        status: 200,
        body: Json::object().with("success", Json::Bool(true)).with("message", Json::text(message)),
    }
}

/// A list of models without one of them.
pub open spec fn without(models: Seq<Seq<char>>, alias: Seq<char>) -> Seq<Seq<char>> {
    models.filter(|m: Seq<char>| m != alias)
}

/// Takes a model off a list.
pub fn remove_model(models: &Vec<String>, alias: &str) -> (r: Vec<String>)
    ensures
        text::texts(r@) == without(text::texts(models@), alias@),
{
    let ghost all = text::texts(models@);
    let ghost other = |m: Seq<char>| m != alias@;
    let mut out: Vec<String> = Vec::new();
    let mut i: usize = 0;
    proof {
        reveal(Seq::filter);
        assert(all.take(0).filter(other) =~= Seq::<Seq<char>>::empty());
        assert(text::texts(out@) =~= Seq::<Seq<char>>::empty());
    }
    while i < models.len()
        invariant
            i <= models@.len(),
            all == text::texts(models@),
            other == (|m: Seq<char>| m != alias@),
            text::texts(out@) == all.take(i as int).filter(other),
        decreases models@.len() - i,
    {
        let ghost before = text::texts(out@);
        proof {
            assert(all.take(i + 1).drop_last() =~= all.take(i as int));
            assert(all.take(i + 1).last() == models@[i as int]@);
            reveal(Seq::filter);
        }
        if !text::same(models[i].as_str(), alias) {
            out.push(models[i].clone());
            assert(text::texts(out@) =~= before.push(models@[i as int]@));
        }
        i = i + 1;
    }
    assert(all.take(i as int) =~= all);
    out
}

/// What a key's policy becomes when an alias is deleted; nothing where it stays. A policy that would
/// name no model any more admits all.
pub open spec fn policy_after(policy: Seq<char>, alias: Seq<char>) -> Option<Seq<char>> {
    if policy == "*"@ {
        None
    } else {
        match json::string_list(policy) {
            Some(models) => if models.contains(alias) {
                let rest = without(models, alias);
                if rest.len() == 0 {
                    Some("*"@)
                } else {
                    Some(json::rendered(json::text_array(rest)))
                }
            } else {
                None
            },
            None => None,
        }
    }
}

/// What a policy that lists models becomes when an alias is deleted.
pub fn strike(models: &Vec<String>, alias: &str) -> (r: Option<String>)
    ensures
        json::some_string(r) == (if text::texts(models@).contains(alias@) {
            let rest = without(text::texts(models@), alias@);
            if rest.len() == 0 {
                Some("*"@)
            } else {
                Some(json::rendered(json::text_array(rest)))
            }
        } else {
            None
        }),
        r is Some && without(text::texts(models@), alias@).len() > 0 ==> json::string_list(r->0@)
            == Some(without(text::texts(models@), alias@)),
{
    if !middleware::model_in(models, alias) {
        return None;
    }
    let rest = remove_model(models, alias);
    assert(text::texts(rest@).len() == rest@.len());
    if rest.len() == 0 {
        Some("*".to_owned())
    } else {
        Some(json::render(&json::string_array(&rest)))
    }
}

/// What a key's policy becomes when an alias is deleted. A policy that still names models admits
/// those it admitted, but for the alias.
pub fn cascade_policy(policy: &str, alias: &str) -> (r: Option<String>)
    ensures
        json::some_string(r) == policy_after(policy@, alias@),
        r is Some && r->0@ != "*"@ ==> json::string_list(r->0@) == Some(
            without(json::string_list(policy@)->0, alias@),
        ),
{
    if text::same(policy, "*") {
        return None;
    }
    match json::read_string_list(policy) {
        Some(models) => strike(&models, alias),
        None => None,
    }
}

/// A list without an alias holds what it held, but for the alias.
pub proof fn lemma_without(models: Seq<Seq<char>>, alias: Seq<char>, model: Seq<char>)
    ensures
        without(models, alias).contains(model) <==> models.contains(model) && model != alias,
    decreases models.len(),
{
    reveal(Seq::filter);
    if models.len() > 0 {
        lemma_without(models.drop_last(), alias, model);
        let rest = without(models.drop_last(), alias);
        assert(models =~= models.drop_last().push(models.last()));
        if models.last() != alias {
            assert(without(models, alias) == rest.push(models.last()));
            if rest.contains(model) {
                let k = choose|k: int| 0 <= k < rest.len() && rest[k] == model;
                assert(without(models, alias)[k] == model);
            }
            if model == models.last() {
                assert(without(models, alias)[rest.len() as int] == model);
            }
            if without(models, alias).contains(model) {
                let k = choose|k: int|
                    0 <= k < without(models, alias).len() && without(models, alias)[k] == model;
                if k < rest.len() {
                    assert(rest[k] == model);
                }
            }
        } else {
            assert(without(models, alias) == rest);
        }
        if models.contains(model) {
            let k = choose|k: int| 0 <= k < models.len() && models[k] == model;
            if k < models.len() - 1 {
                assert(models.drop_last()[k] == model);
            }
        }
        if models.drop_last().contains(model) {
            let k = choose|k: int|
                0 <= k < models.drop_last().len() && models.drop_last()[k] == model;
            assert(models[k] == model);
        }
        if model == models.last() {
            assert(models[models.len() - 1] == model);
        }
    }
}

/// How many values a text holds that is a JSON array, or why it is none.
pub uninterp spec fn value_count(text: Seq<char>) -> Result<usize, Seq<char>>;

/// Calls `serde_json::from_str` for a list of values, and counts them.
#[verifier::external_body]
fn count_values(text: &str) -> (r: Result<usize, String>)
    ensures
        match r {
            Ok(n) => value_count(text@) == Ok::<usize, Seq<char>>(n),
            Err(e) => value_count(text@) == Err::<usize, Seq<char>>(e@),
        },
{
    serde_json::from_str::<Vec<serde_json::Value>>(text).map(|v| v.len()).map_err(|e| e.to_string())
}

/// The error reply to a request to choose the active candidate, given how many there are.
pub open spec fn active_error(len: nat, body: JsonView) -> Option<(u16, JsonView)> {
    if len == 0 {
        Some((400u16, error::plain_error("Aggregate alias has no candidates"@)))
    } else {
        match json::i64_in(json::field(body, "active"@)) {
            None => Some((400u16, error::plain_error("Missing required field: active"@))),
            Some(n) => if 0 <= n < len {
                None
            } else {
                Some(
                    (
                        400u16,
                        error::plain_error(
                            "active must be 0.."@ + text::decimal((len - 1) as nat),
                        ),
                    ),
                )
            },
        }
    }
}

/// Reads a request to choose the active candidate, given how many there are.
pub fn choose_active(len: usize, body: &Json) -> (r: Result<usize, Reply>)
    ensures
        match active_error(len as nat, body@) {
            Some(e) => r is Err && r->Err_0@ == e,
            None => r is Ok && r->Ok_0 == json::i64_in(json::field(body@, "active"@))->0,
        },
{
    if len == 0 {
        return Err(error::simple_error("Aggregate alias has no candidates", 400));
    }
    let active: i64 = match body.get("active") {
        Some(j) => match j.as_i64() {
            Some(n) => n,
            None => {
                return Err(error::simple_error("Missing required field: active", 400));
            },
        },
        None => {
            return Err(error::simple_error("Missing required field: active", 400));
        },
    };
    if active < 0 || (active as u64) >= len as u64 {
        let message = "active must be 0..".to_owned().concat(
            text::decimal_u64((len - 1) as u64).as_str(),
        );
        return Err(error::simple_error(message.as_str(), 400));
    }
    Ok(active as usize)
}

/// The candidate that becomes active, and how many there are.
pub struct ActiveChoice {
    pub target: usize,
    pub len: usize,
}

/// Reads a request to choose the active candidate of an alias, given its stored candidates.
pub fn set_aggregate_active(stored_candidates: &str, body: &Json) -> (r: Result<
    ActiveChoice,
    Reply,
>)
    ensures
        match value_count(stored_candidates@) {
            Err(e) => r is Err && r->Err_0@ == (
                500u16,
                error::plain_error("Invalid candidates: "@ + e),
            ),
            Ok(len) => match active_error(len as nat, body@) {
                Some(e) => r is Err && r->Err_0@ == e,
                None => r is Ok && r->Ok_0.len == len && r->Ok_0.target == json::i64_in(
                    json::field(body@, "active"@),
                )->0,
            },
        },
{
    match count_values(stored_candidates) {
        Ok(len) => match choose_active(len, body) {
            Ok(target) => Ok(ActiveChoice { target, len }),
            Err(refusal) => Err(refusal),
        },
        Err(e) => Err(invalid_candidates(e.as_str(), 500)),
    }
}

/// The reply to a request that chose the active candidate.
pub fn active_reply(active: usize) -> (r: Reply)
    ensures
        r@ == (
            200u16,
            JsonView::Object(
                map![
                    "success"@ => JsonView::Bool(true),
                    "active"@ => JsonView::Int(active as int),
                ],
            ),
        ),
{
    Reply {
        status: 200,
        body: Json::object().with("success", Json::Bool(true)).with(
            "active",
            Json::Unsigned(active as u64),
        ),
    }
}

/// An aggregate alias as it is stored.
pub struct AggregateRow {
    pub id: i64,
    pub alias: String,
    pub candidates: String,
    pub interval_secs: Option<i64>,
    pub upstream_api: Option<String>,
}

/// What the aggregate router knows of an alias.
pub struct RouterEntry {
    pub active: usize,
    pub last_status: Json,
    pub pending_target: Option<usize>,
    pub confirm_count: u64,
}

/// The entry of an alias in the list, given what its stored candidates say as JSON.
pub open spec fn alias_entry(row: AggregateRow, says: Option<JsonView>, entry: Option<RouterEntry>) -> JsonView {
    JsonView::Object(
        map![
            "id"@ => JsonView::Int(row.id as int),
            "alias"@ => JsonView::Text(row.alias@),
            "candidates"@ => match says {
                Some(v) => v,
                None => JsonView::Array(seq![]),
            },
            "interval_secs"@ => JsonView::Int(match row.interval_secs {
                Some(n) => n as int,
                None => 300,
            }),
            "upstream_api"@ => JsonView::Text(match row.upstream_api {
                Some(s) => s@,
                None => "chat"@,
            }),
            "active"@ => JsonView::Int(match entry {
                Some(e) => e.active as int,
                None => 0,
            }),
            "last_status"@ => match entry {
                Some(e) => e.last_status@,
                None => JsonView::Array(seq![]),
            },
            "pending_target"@ => match entry {
                Some(e) => match e.pending_target {
                    Some(t) => JsonView::Int(t as int),
                    None => JsonView::Null,
                },
                None => JsonView::Null,
            },
            "confirm_count"@ => JsonView::Int(match entry {
                Some(e) => e.confirm_count as int,
                None => 0,
            }),
        ],
    )
}

fn empty_array() -> (r: Json)
    ensures
        r@ == JsonView::Array(seq![]),
{
    let none: Vec<Json> = Vec::new();
    assert(json::elements_view(none@) =~= seq![]);
    Json::Array(none)
}

/// Writes the entry of an alias in the list, given what its stored candidates say as JSON.
pub fn write_alias_entry(row: &AggregateRow, says: Option<Json>, entry: &Option<RouterEntry>) -> (r: Json)
    ensures
        r@ == alias_entry(
            *row,
            match says {
                Some(v) => Some(v@),
                None => None,
            },
            *entry,
        ),
{
    let candidates = match says {
        Some(v) => v,
        None => empty_array(),
    };
    let interval_secs: i64 = match row.interval_secs {
        Some(n) => n,
        None => 300,
    };
    let upstream_api = match &row.upstream_api {
        Some(s) => s.as_str(),
        None => "chat",
    };
    let (active, last_status, pending_target, confirm_count) = match entry {
        Some(e) => (
            Json::Unsigned(e.active as u64),
            e.last_status.copy(),
            match e.pending_target {
                Some(t) => Json::Unsigned(t as u64),
                None => Json::Null,
            },
            Json::Unsigned(e.confirm_count),
        ),
        None => (Json::Unsigned(0), empty_array(), Json::Null, Json::Unsigned(0)),
    };
    Json::object().with("id", Json::Signed(row.id)).with(
        "alias",
        Json::text(row.alias.as_str()),
    ).with("candidates", candidates).with("interval_secs", Json::Signed(interval_secs)).with(
        "upstream_api",
        Json::text(upstream_api),
    ).with("active", active).with("last_status", last_status).with(
        "pending_target",
        pending_target,
    ).with("confirm_count", confirm_count)
}

/// Lists aggregate aliases, each with what the router knows of it.
pub fn list_aggregate_aliases(rows: &Vec<(AggregateRow, Option<RouterEntry>)>) -> (r: Json)
    ensures
        r@ == JsonView::Array(
            rows@.map_values(
                |p: (AggregateRow, Option<RouterEntry>)|
                    alias_entry(p.0, json::parsed(p.0.candidates@), p.1),
            ),
        ),
{
    let mut out: Vec<Json> = Vec::new();
    let mut i: usize = 0;
    while i < rows.len()
        invariant
            i == out@.len(),
            i <= rows@.len(),
            forall|k: int|
                0 <= k < i ==> #[trigger] json::json_view(out@[k]) == alias_entry(
                    rows@[k].0,
                    json::parsed(rows@[k].0.candidates@),
                    rows@[k].1,
                ),
        decreases rows@.len() - i,
    {
        let says = json::parse(rows[i].0.candidates.as_str());
        out.push(write_alias_entry(&rows[i].0, says, &rows[i].1));
        i = i + 1;
    }
    assert(json::elements_view(out@) =~= rows@.map_values(
        |p: (AggregateRow, Option<RouterEntry>)|
            alias_entry(p.0, json::parsed(p.0.candidates@), p.1),
    ));
    Json::Array(out)
}

/// What came of deleting an aggregate alias.
pub enum AliasDeletion {
    NoAlias,
    NotRead(String),
    NotDeleted(String),
    Deleted,
}

/// The reply to a request to delete an aggregate alias.
pub fn delete_aggregate_alias(outcome: &AliasDeletion) -> (r: Reply)
    ensures
        r@ == (match *outcome {
            AliasDeletion::NoAlias => (404u16, error::plain_error("Aggregate alias not found"@)),
            AliasDeletion::NotRead(e) => (
                500u16,
                error::plain_error("Failed to lookup aggregate alias: "@ + e@),
            ),
            AliasDeletion::NotDeleted(e) => (
                500u16,
                error::plain_error("Failed to delete aggregate alias: "@ + e@),
            ),
            AliasDeletion::Deleted => (
                200u16,
                JsonView::Object(
                    map![
                        "success"@ => JsonView::Bool(true),
                        "message"@ => JsonView::Text("Aggregate alias deleted"@),
                    ],
                ),
            ),
        }),
{
    match outcome {
        AliasDeletion::NoAlias => error::simple_error("Aggregate alias not found", 404),
        AliasDeletion::NotRead(e) => {
            let message = "Failed to lookup aggregate alias: ".to_owned().concat(e.as_str());
            error::simple_error(message.as_str(), 500)
        },
        AliasDeletion::NotDeleted(e) => {
            let message = "Failed to delete aggregate alias: ".to_owned().concat(e.as_str());
            error::simple_error(message.as_str(), 500)
        },
        AliasDeletion::Deleted => Reply {
            status: 200,
            body: Json::object().with("success", Json::Bool(true)).with(
                "message",
                Json::text("Aggregate alias deleted"),
            ),
        },
    }
}

/// A candidate is read exactly where it names an account by a positive number and a model by a text
/// that is not blank; it is that account and that model, without the white space around it.
pub proof fn lemma_read_candidate(item: Map<Seq<char>, JsonView>, id: i64, model: Seq<char>)
    ensures
        ({
            let read = read_candidate_view(JsonView::Object(item));
            let by_id = json::holds(item, "account_id"@, JsonView::Int(id as int));
            let by_model = json::holds(item, "model"@, JsonView::Text(model));
            &&& by_id && id > 0 && by_model && text::trimmed(model).len() > 0 ==> read == Ok::<
                (i64, Seq<char>),
                Seq<char>,
            >((id, text::trimmed(model)))
            &&& by_id && id <= 0 ==> read is Err
            &&& by_model && text::trimmed(model).len() == 0 ==> read is Err
            &&& !item.dom().contains("account_id"@) || !item.dom().contains("model"@) ==> read is Err
        }),
{
}

proof fn lemma_none_wrong(items: Seq<JsonView>)
    ensures
        first_wrong(items) is None <==> forall|i: int|
            0 <= i < items.len() ==> read_candidate_view(#[trigger] items[i]) is Ok,
    decreases items.len(),
{
    if items.len() > 0 {
        let before = items.drop_last();
        lemma_none_wrong(before);
        if first_wrong(items) is None {
            assert forall|i: int| 0 <= i < items.len() implies read_candidate_view(
                #[trigger] items[i],
            ) is Ok by {
                if i < before.len() {
                    assert(before[i] == items[i]);
                }
            }
        } else if forall|i: int|
            0 <= i < items.len() ==> read_candidate_view(#[trigger] items[i]) is Ok {
            assert forall|i: int| 0 <= i < before.len() implies read_candidate_view(
                #[trigger] before[i],
            ) is Ok by {
                assert(items[i] == before[i]);
            }
            assert(read_candidate_view(items[items.len() - 1]) is Ok);
        }
    }
}

/// A request to set an aggregate alias is taken exactly where it names the alias, and lists at least
/// one candidate, each of which can be read. All others are the request's fault.
pub proof fn lemma_drafts(body: Map<Seq<char>, JsonView>, alias: Seq<char>, items: Seq<JsonView>)
    requires
        json::holds(body, "alias"@, JsonView::Text(alias)),
    ensures
        json::holds(body, "candidates"@, JsonView::Array(items)) ==> (draft_error(
            JsonView::Object(body),
        ) is None <==> text::trimmed(alias).len() > 0 && items.len() > 0 && forall|i: int|
            0 <= i < items.len() ==> read_candidate_view(#[trigger] items[i]) is Ok),
        !body.dom().contains("candidates"@) ==> draft_error(JsonView::Object(body)) is Some,
        body.dom().contains("candidates"@) && !(body["candidates"@] is Array) ==> draft_error(
            JsonView::Object(body),
        ) is Some,
        ({
            let e = draft_error(JsonView::Object(body));
            e is Some ==> (e->0).0 == 400
        }),
{
    lemma_none_wrong(items);
}

/// The candidates are what the request lists, one for each item and in its order.
pub proof fn lemma_candidates_in_order(items: Seq<JsonView>, i: int)
    requires
        0 <= i < items.len(),
        read_candidate_view(items[i]) is Ok,
    ensures
        candidates_of(items).len() == items.len(),
        candidates_of(items)[i] == read_candidate_view(items[i])->Ok_0,
{
}

/// The interval is between one minute and one hour: the one that the request gives where it is, the
/// nearer bound where it is not, and five minutes where it gives none.
pub proof fn lemma_interval(body: Map<Seq<char>, JsonView>, n: i64)
    ensures
        60 <= interval_of(JsonView::Object(body)) <= 60 * 60,
        json::holds(body, "interval_secs"@, JsonView::Int(n as int)) && 60 <= n <= 60 * 60
            ==> interval_of(JsonView::Object(body)) == n,
        json::holds(body, "interval_secs"@, JsonView::Int(n as int)) && n < 60 ==> interval_of(
            JsonView::Object(body),
        ) == 60,
        json::holds(body, "interval_secs"@, JsonView::Int(n as int)) && n > 60 * 60 ==> interval_of(
            JsonView::Object(body),
        ) == 60 * 60,
        !body.dom().contains("interval_secs"@) ==> interval_of(JsonView::Object(body)) == 5 * 60,
{
}

/// The upstream protocol is the one that the request names, and the chat protocol where it names none.
pub proof fn lemma_upstream_text(body: Map<Seq<char>, JsonView>, s: Seq<char>)
    ensures
        json::holds(body, "upstream_api"@, JsonView::Text(s)) ==> upstream_text(
            JsonView::Object(body),
        ) == s,
        !body.dom().contains("upstream_api"@) ==> upstream_text(JsonView::Object(body)) == "chat"@,
{
}

/// The policy of a key changes only where it lists the deleted alias; it then lists all others. A key
/// that may use nothing else any more may use all, as one that may use all still may.
pub proof fn lemma_policy_after(
    policy: Seq<char>,
    alias: Seq<char>,
    models: Seq<Seq<char>>,
    other: Seq<char>,
)
    requires
        policy != "*"@,
        json::string_list(policy) == Some(models),
    ensures
        policy_after("*"@, alias) is None,
        policy_after(policy, alias) is Some <==> models.contains(alias),
        models.contains(alias) && models.contains(other) && other != alias ==> policy_after(
            policy,
            alias,
        ) == Some(json::rendered(json::text_array(without(models, alias)))) && without(
            models,
            alias,
        ).contains(other) && !without(models, alias).contains(alias),
        models.contains(alias) && (forall|i: int| 0 <= i < models.len() ==> #[trigger] models[i] == alias)
            ==> policy_after(policy, alias) == Some("*"@),
{
    lemma_without(models, alias, other);
    lemma_without(models, alias, alias);
    if forall|i: int| 0 <= i < models.len() ==> #[trigger] models[i] == alias {
        let rest = without(models, alias);
        if rest.len() > 0 {
            lemma_without(models, alias, rest[0]);
            assert(rest.contains(rest[0]));
        }
    }
}

/// A candidate can be made the active one exactly where it is one of the candidates.
pub proof fn lemma_choice_of_active(len: nat, body: Map<Seq<char>, JsonView>, n: i64)
    ensures
        json::holds(body, "active"@, JsonView::Int(n as int)) ==> (active_error(
            len,
            JsonView::Object(body),
        ) is None <==> 0 <= n < len),
        !body.dom().contains("active"@) ==> active_error(len, JsonView::Object(body)) is Some,
        ({
            let e = active_error(len, JsonView::Object(body));
            e is Some ==> (e->0).0 == 400
        }),
{
}

/// An aggregate alias is listed with what is stored of it and what the router has for it.
pub proof fn lemma_alias_entry(
    row: AggregateRow,
    says: Option<JsonView>,
    entry: Option<RouterEntry>,
)
    ensures
        ({
            let v = alias_entry(row, says, entry);
            &&& json::field(v, "id"@) == Some(JsonView::Int(row.id as int))
            &&& json::field(v, "alias"@) == Some(JsonView::Text(row.alias@))
            &&& json::field(v, "candidates"@) == Some(
                match says { Some(v) => v, None => JsonView::Array(seq![]), },
            )
            &&& json::field(v, "interval_secs"@) == Some(
                JsonView::Int(match row.interval_secs { Some(n) => n as int, None => 300, }),
            )
            &&& json::field(v, "upstream_api"@) == Some(
                JsonView::Text(match row.upstream_api { Some(s) => s@, None => "chat"@, }),
            )
            &&& json::field(v, "active"@) == Some(
                JsonView::Int(match entry { Some(e) => e.active as int, None => 0, }),
            )
            &&& json::field(v, "last_status"@) == Some(
                match entry { Some(e) => e.last_status@, None => JsonView::Array(seq![]), },
            )
            &&& json::field(v, "pending_target"@) == Some(
                match entry { Some(e) => match e.pending_target { Some(t) => JsonView::Int(t as int), None => JsonView::Null, }, None => JsonView::Null, },
            )
            &&& json::field(v, "confirm_count"@) == Some(
                JsonView::Int(match entry { Some(e) => e.confirm_count as int, None => 0, }),
            )
        }),
{
    reveal_strlit("id");
    reveal_strlit("alias");
    reveal_strlit("candidates");
    reveal_strlit("interval_secs");
    reveal_strlit("upstream_api");
    reveal_strlit("active");
    reveal_strlit("last_status");
    reveal_strlit("pending_target");
    reveal_strlit("confirm_count");
    assert("id"@.len() == 2 && "alias"@.len() == 5 && "candidates"@.len() == 10
        && "interval_secs"@.len() == 13 && "upstream_api"@.len() == 12 && "active"@.len() == 6
        && "last_status"@.len() == 11 && "pending_target"@.len() == 14
        && "confirm_count"@.len() == 13);
    assert("interval_secs"@[0] != "confirm_count"@[0]);
}

/// A candidate is written with its account and its model.
pub proof fn lemma_candidate_json(c: (i64, Seq<char>))
    ensures
        ({
            let v = candidate_json(c);
            &&& json::field(v, "account_id"@) == Some(JsonView::Int(c.0 as int))
            &&& json::field(v, "model"@) == Some(JsonView::Text(c.1))
        }),
{
    reveal_strlit("account_id");
    reveal_strlit("model");
    assert("account_id"@.len() == 10 && "model"@.len() == 5);
}

/// A conflict with an ordinary alias is answered as such, and names the alias.
pub proof fn lemma_conflict(alias: Seq<char>)
    ensures
        conflict(alias).0 == 409,
        json::field(conflict(alias).1, "code"@) == Some(JsonView::Text("alias_conflict"@)),
        json::field(conflict(alias).1, "conflict"@) == Some(JsonView::Text("ordinary"@)),
        json::field(conflict(alias).1, "alias"@) == Some(JsonView::Text(alias)),
{
    reveal_strlit("error");
    reveal_strlit("code");
    reveal_strlit("conflict");
    reveal_strlit("alias");
    assert("error"@.len() == 5 && "code"@.len() == 4 && "conflict"@.len() == 8 && "alias"@.len()
        == 5);
    assert("error"@[0] != "alias"@[0]);
}

} // verus!
