//! The health of accounts.

use vstd::prelude::*;
use crate::json::{self, Json, JsonView};
use crate::text;

verus! {

broadcast use crate::json::lemma_elements_view;

/// The health that a number of served requests among all requests stands for: more than nine in ten
/// is healthy, more than half is degraded.
pub open spec fn health_of(success: int, total: int) -> Seq<char> {
    if total <= 0 {
        "unknown"@
    } else if 10 * success > 9 * total {
        "healthy"@
    } else if 2 * success > total {
        "degraded"@
    } else {
        "down"@
    }
}

/// The health of an account.
pub fn account_health(success: i64, total: i64) -> (r: &'static str)
    ensures
        r@ == health_of(success as int, total as int),
{
    if total <= 0 {
        "unknown"
    } else if 10 * (success as i128) > 9 * (total as i128) {
        "healthy"
    } else if 2 * (success as i128) > total as i128 {
        "degraded"
    } else {
        "down"
    }
}

/// The health of an account as it is shown.
pub open spec fn health_entry(id: int, alias: Seq<char>, success: int, total: int) -> JsonView {
    JsonView::Object(
        map![
            "id"@ => JsonView::Text("acc_"@ + text::decimal_int(id)),
            "name"@ => JsonView::Text(alias),
            "status"@ => JsonView::Text(health_of(success, total)),
            "lastSuccess"@ => JsonView::Int(success),
            "totalChecks"@ => JsonView::Int(total),
        ],
    )
}

fn write_health(id: i64, alias: &str, success: i64, total: i64) -> (r: Json)
    ensures
        r@ == health_entry(id as int, alias@, success as int, total as int),
{
    let name = "acc_".to_owned().concat(text::decimal_i64(id).as_str());
    Json::object().with("id", Json::text(name.as_str())).with("name", Json::text(alias)).with(
        "status",
        Json::text(account_health(success, total)),
    ).with("lastSuccess", Json::Signed(success)).with("totalChecks", Json::Signed(total))
}

/// An account and its requests: how many were served, and how many there were.
pub struct HealthRow {
    pub id: i64,
    pub alias: String,
    pub success: i64,
    pub total: i64,
}

/// The reply with the health of accounts.
pub fn get_health_status(rows: &Vec<HealthRow>) -> (r: Json)
    ensures
        r@ == JsonView::Array(
            rows@.map_values(
                |h: HealthRow|
                    health_entry(h.id as int, h.alias@, h.success as int, h.total as int),
            ),
        ),
{
    let mut out: Vec<Json> = Vec::new();
    let mut i: usize = 0;
    while i < rows.len()
        invariant
            i == out@.len(),
            i <= rows@.len(),
            forall|k: int|
                0 <= k < i ==> #[trigger] json::json_view(out@[k]) == health_entry(
                    rows@[k].id as int,
                    rows@[k].alias@,
                    rows@[k].success as int,
                    rows@[k].total as int,
                ),
        decreases rows@.len() - i,
    {
        let h = &rows[i];
        out.push(write_health(h.id, h.alias.as_str(), h.success, h.total));
        i = i + 1;
    }
    assert(json::elements_view(out@) =~= rows@.map_values(
        |h: HealthRow| health_entry(h.id as int, h.alias@, h.success as int, h.total as int),
    ));
    Json::Array(out)
}

/// More served requests never make an account less healthy: healthy stays healthy, and what is not
/// down does not go down.
pub proof fn lemma_health_grows(success: int, more: int, total: int)
    requires
        success <= more,
    ensures
        health_of(success, total) == "healthy"@ ==> health_of(more, total) == "healthy"@,
        health_of(success, total) == "degraded"@ ==> health_of(more, total) != "down"@,
{
    reveal_strlit("unknown");
    reveal_strlit("healthy");
    reveal_strlit("degraded");
    reveal_strlit("down");
    assert("unknown"@[0] != "healthy"@[0]);
    assert("unknown"@[0] != "degraded"@[0]);
    assert("unknown"@[0] != "down"@[0]);
    assert("degraded"@.len() != "healthy"@.len());
    assert("degraded"@.len() != "down"@.len());
    assert("down"@.len() != "healthy"@.len());
}

/// An account is healthy where more than nine of ten requests were served, degraded where more than
/// half were, and down otherwise. Without requests nothing is known.
pub proof fn lemma_health_levels(success: int, total: int)
    ensures
        total <= 0 ==> health_of(success, total) == "unknown"@,
        total > 0 && 10 * success > 9 * total ==> health_of(success, total) == "healthy"@,
        total > 0 && total < 2 * success && 10 * success <= 9 * total ==> health_of(success, total)
            == "degraded"@,
        total > 0 && 2 * success <= total ==> health_of(success, total) == "down"@,
{
}

/// An account is listed with the requests that were served and all that were made, and what follows.
pub proof fn lemma_health_entry(
    id: int,
    alias: Seq<char>,
    success: int,
    total: int,
)
    ensures
        ({
            let v = health_entry(id, alias, success, total);
            &&& json::field(v, "id"@) == Some(JsonView::Text("acc_"@ + text::decimal_int(id)))
            &&& json::field(v, "name"@) == Some(JsonView::Text(alias))
            &&& json::field(v, "status"@) == Some(JsonView::Text(health_of(success, total)))
            &&& json::field(v, "lastSuccess"@) == Some(JsonView::Int(success))
            &&& json::field(v, "totalChecks"@) == Some(JsonView::Int(total))
        }),
{
    reveal_strlit("id");
    reveal_strlit("name");
    reveal_strlit("status");
    reveal_strlit("lastSuccess");
    reveal_strlit("totalChecks");
    assert("id"@.len() == 2 && "name"@.len() == 4 && "status"@.len() == 6
        && "lastSuccess"@.len() == 11 && "totalChecks"@.len() == 11);
    assert("lastSuccess"@[0] != "totalChecks"@[0]);
}

} // verus!
