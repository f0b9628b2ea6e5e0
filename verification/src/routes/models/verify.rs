//! The check that follows the saving of an alias: which accounts are asked, and what is reported.

use vstd::prelude::*;
use crate::json::{self, Json, JsonView};
use crate::text;

verus! {

broadcast use crate::json::lemma_elements_view;

/// Which accounts a saved alias is checked at.
pub enum VerifyScope {
    /// The accounts of the alias.
    Accounts,
    /// The active accounts of this provider.
    Provider(String),
    /// None.
    Nobody,
}

/// Chooses the accounts that a saved alias is checked at: its own, else those of its provider.
pub fn verify_targets(account_ids: &Vec<i64>, provider_id: Option<&str>) -> (r: VerifyScope)
    ensures
        if account_ids@.len() > 0 {
            r is Accounts
        } else {
            match provider_id {
                Some(p) => r is Provider && r->Provider_0@ == p@,
                None => r is Nobody,
            }
        },
{
    if account_ids.len() > 0 {
        VerifyScope::Accounts
    } else {
        match provider_id {
            Some(p) => VerifyScope::Provider(p.to_owned()),
            None => VerifyScope::Nobody,
        }
    }
}

/// What a check at an account found out.
pub struct VerifyOutcome {
    pub account_id: i64,
    pub account: String,
    pub success: bool,
    pub supported: Vec<String>,
    pub via: Option<String>,
    pub latency_ms: i64,
    pub error_summary: String,
}

/// A check as it is reported: with an error only where it failed.
pub open spec fn verify_entry(o: VerifyOutcome) -> JsonView {
    JsonView::Object(
        map![
            "account_id"@ => JsonView::Int(o.account_id as int),
            "account"@ => JsonView::Text(o.account@),
            "success"@ => JsonView::Bool(o.success),
            "supported"@ => json::text_array(text::texts(o.supported@)),
            "via"@ => json::text_or_null(json::some_string(o.via)),
            "latency"@ => JsonView::Int(o.latency_ms as int),
            "error"@ => if o.success {
                JsonView::Null
            } else {
                JsonView::Text(o.error_summary@)
            },
        ],
    )
}

/// Writes a check as it is reported.
pub fn verified_entry(o: &VerifyOutcome) -> (r: Json)
    ensures
        r@ == verify_entry(*o),
{
    let error = if o.success {
        Json::Null
    } else {
        Json::text(o.error_summary.as_str())
    };
    Json::object().with("account_id", Json::Signed(o.account_id)).with(
        "account",
        Json::text(o.account.as_str()),
    ).with("success", Json::Bool(o.success)).with("supported", json::string_array(&o.supported)).with(
        "via",
        json::optional_text(&o.via),
    ).with("latency", Json::Signed(o.latency_ms)).with("error", error)
}

/// The part of a reply that reports checks.
pub fn attach(results: Vec<Json>) -> (r: Json)
    ensures
        r@ == JsonView::Object(
            map!["verified"@ => JsonView::Array(json::elements_view(results@))],
        ),
{
    Json::object().with("verified", Json::Array(results))
}

/// A check is reported with what came of it, each part under its own name.
pub proof fn lemma_verify_entry(o: VerifyOutcome)
    ensures
        ({
            let v = verify_entry(o);
            &&& json::field(v, "account_id"@) == Some(JsonView::Int(o.account_id as int))
            &&& json::field(v, "account"@) == Some(JsonView::Text(o.account@))
            &&& json::field(v, "success"@) == Some(JsonView::Bool(o.success))
            &&& json::field(v, "supported"@) == Some(json::text_array(text::texts(o.supported@)))
            &&& json::field(v, "via"@) == Some(json::text_or_null(json::some_string(o.via)))
            &&& json::field(v, "latency"@) == Some(JsonView::Int(o.latency_ms as int))
            &&& json::field(v, "error"@) == Some(
                if o.success { JsonView::Null } else { JsonView::Text(o.error_summary@) },
            )
        }),
{
    reveal_strlit("account_id");
    reveal_strlit("account");
    reveal_strlit("success");
    reveal_strlit("supported");
    reveal_strlit("via");
    reveal_strlit("latency");
    reveal_strlit("error");
    assert("account_id"@.len() == 10 && "account"@.len() == 7 && "success"@.len() == 7
        && "supported"@.len() == 9 && "via"@.len() == 3 && "latency"@.len() == 7
        && "error"@.len() == 5);
    assert("account"@[0] != "success"@[0]);
    assert("account"@[0] != "latency"@[0]);
    assert("success"@[0] != "latency"@[0]);
}

} // verus!
