//! API keys: their names, their policies and their texts.

use vstd::prelude::*;
use crate::error::Reply;
use crate::json::{self, Json, JsonView};
use crate::middleware;
use crate::text;

verus! {

broadcast use crate::json::lemma_elements_view;

/// A policy as it is stored, from what a request gives: a text as it is, a list in its notation,
/// anything else admits all.
pub open spec fn policy_of(v: Option<JsonView>) -> Seq<char> {
    match v {
        Some(JsonView::Text(s)) => s,
        Some(JsonView::Array(s)) => json::rendered(JsonView::Array(s)),
        _ => "*"@,
    }
}

/// Puts a policy into its stored form. A list of names admits exactly those.
pub fn normalize_allowed_models(value: Option<&Json>) -> (r: String)
    ensures
        r@ == policy_of(json::some_view(value)),
        forall|names: Seq<Seq<char>>, model: Seq<char>|
            json::some_view(value) == Some(#[trigger] json::text_array(names))
                ==> #[trigger] middleware::model_allowed(r@, model) == names.contains(model),
{
    match value {
        Some(j) => match j {
            Json::Text(s) => s.clone(),
            Json::Array(_) => {
                let r = json::render(j);
                proof {
                    reveal_strlit("*");
                    reveal_strlit("\"*\"");
                    assert(!middleware::admits_all(r@));
                }
                r
            },
            _ => "*".to_owned(),
        },
        None => "*".to_owned(),
    }
}

/// Whether a character is a lowercase hexadecimal digit.
pub open spec fn hex_digit(c: char) -> bool {
    ('0' <= c && c <= '9') || ('a' <= c && c <= 'f')
}

/// Whether a text is made of thirty-two lowercase hexadecimal digits.
pub open spec fn hex32(s: Seq<char>) -> bool {
    s.len() == 32 && forall|i: int| 0 <= i < 32 ==> hex_digit(#[trigger] s[i])
}

/// Calls `uuid`'s `Uuid::new_v4` and writes the number in its simple form. Which number it is, is
/// left to chance.
#[verifier::external_body]
fn random_hex() -> (r: String)
    ensures
        hex32(r@),
{
    uuid::Uuid::new_v4().simple().to_string()
}

/// A key to be stored.
pub struct NewKey {
    pub name: String,
    pub key: String,
    pub allowed_models: String,
}

/// The name that a request gives, or another where it gives none.
pub open spec fn name_or(body: JsonView, default: Seq<char>) -> Seq<char> {
    match json::text_in(json::field(body, "name"@)) {
        Some(n) => n,
        None => default,
    }
}

/// Makes a key of a request and of thirty-two digits.
pub fn make_key(body: &Json, digits: &str) -> (r: NewKey)
    ensures
        r.name@ == name_or(body@, "Unnamed Key"@),
        r.key@ == "sk-llmux-"@ + digits@,
        r.allowed_models@ == policy_of(json::field(body@, "allowed_models"@)),
{
    let name = match body.str_at("name") {
        Some(n) => n.to_owned(),
        None => "Unnamed Key".to_owned(),
    };
    NewKey {
        name,
        key: "sk-llmux-".to_owned().concat(digits),
        allowed_models: normalize_allowed_models(body.get("allowed_models")),
    }
}

/// Makes a key of a request.
pub fn create_api_key(body: &Json) -> (r: NewKey)
    ensures
        r.name@ == name_or(body@, "Unnamed Key"@),
        exists|digits: Seq<char>|
            #![trigger hex32(digits)]
            hex32(digits) && r.key@ == "sk-llmux-"@ + digits,
        r.allowed_models@ == policy_of(json::field(body@, "allowed_models"@)),
{
    let digits = random_hex();
    make_key(body, digits.as_str())
}

/// The reply to a request that made a key.
pub fn key_reply(key: &str) -> (r: Json)
    ensures
        r@ == JsonView::Object(
            map!["success"@ => JsonView::Bool(true), "key"@ => JsonView::Text(key@)],
        ),
{
    Json::object().with("success", Json::Bool(true)).with("key", Json::text(key))
}

/// The name and policy of a key after an update: a policy that is not given stays; where none is
/// stored, all models are admitted.
pub fn update_api_key(body: &Json, stored_policy: Option<String>) -> (r: (String, String))
    ensures
        r.0@ == name_or(body@, "Untitled Key"@),
        r.1@ == policy_after_update(body@, json::some_string(stored_policy)),
        r.1@ == (match json::field(body@, "allowed_models"@) {
            Some(v) => policy_of(Some(v)),
            None => match stored_policy {
                Some(p) => p@,
                None => "*"@,
            },
        }),
{
    let name = match body.str_at("name") {
        Some(n) => n.to_owned(),
        None => "Untitled Key".to_owned(),
    };
    let policy = match body.get("allowed_models") {
        Some(v) => normalize_allowed_models(Some(v)),
        None => match stored_policy {
            Some(p) => p,
            None => "*".to_owned(),
        },
    };
    (name, policy)
}

/// A stored key.
pub struct KeyRow {
    pub id: i64,
    pub name: String,
    pub key: String,
    pub allowed_models: String,
    pub created_at: Option<String>,
}

/// The entry of a key in the list.
pub open spec fn key_entry(k: KeyRow) -> JsonView {
    JsonView::Object(
        map![
            "id"@ => JsonView::Int(k.id as int),
            "name"@ => JsonView::Text(k.name@),
            "key"@ => JsonView::Text(k.key@),
            "allowed_models"@ => JsonView::Text(k.allowed_models@),
            "created_at"@ => json::text_or_null(json::some_string(k.created_at)),
        ],
    )
}

/// Lists the stored keys.
pub fn list_api_keys(keys: &Vec<KeyRow>) -> (r: Json)
    ensures
        r@ == JsonView::Array(keys@.map_values(|k: KeyRow| key_entry(k))),
{
    let mut out: Vec<Json> = Vec::new();
    let mut i: usize = 0;
    while i < keys.len()
        invariant
            i == out@.len(),
            i <= keys@.len(),
            forall|j: int|
                0 <= j < i ==> #[trigger] json::json_view(out@[j]) == key_entry(keys@[j]),
        decreases keys@.len() - i,
    {
        let k = &keys[i];
        out.push(
            Json::object().with("id", Json::Signed(k.id)).with(
                "name",
                Json::text(k.name.as_str()),
            ).with("key", Json::text(k.key.as_str())).with(
                "allowed_models",
                Json::text(k.allowed_models.as_str()),
            ).with("created_at", json::optional_text(&k.created_at)),
        );
        i = i + 1;
    }
    assert(json::elements_view(out@) =~= keys@.map_values(|k: KeyRow| key_entry(k)));
    Json::Array(out)
}

/// The reply to a request to delete a key. A key that is not there counts as deleted.
pub fn delete_api_key(error: Option<&str>) -> (r: Reply)
    ensures
        r@ == (match error {
            Some(e) => (
                500u16,
                crate::error::plain_error("Failed to delete API key: "@ + e@),
            ),
            None => (200u16, JsonView::Object(map!["success"@ => JsonView::Bool(true)])),
        }),
{
    match error {
        Some(e) => {
            let message = "Failed to delete API key: ".to_owned().concat(e);
            crate::error::simple_error(message.as_str(), 500)
        },
        None => Reply { status: 200, body: Json::object().with("success", Json::Bool(true)) },
    }
}

/// The policy of a key after an update.
pub open spec fn policy_after_update(body: JsonView, stored: Option<Seq<char>>) -> Seq<char> {
    match json::field(body, "allowed_models"@) {
        Some(v) => policy_of(Some(v)),
        None => match stored {
            Some(p) => p,
            None => "*"@,
        },
    }
}

/// A policy that is given as a text is that text, one that is given as a list is that list, written
/// down. All else, and nothing at all, admits all models.
pub proof fn lemma_policies_given(s: Seq<char>, list: Seq<JsonView>, b: bool)
    ensures
        policy_of(Some(JsonView::Text(s))) == s,
        policy_of(Some(JsonView::Array(list))) == json::rendered(JsonView::Array(list)),
        policy_of(None) == "*"@,
        policy_of(Some(JsonView::Null)) == "*"@,
        policy_of(Some(JsonView::Bool(b))) == "*"@,
{
}

/// An update that says nothing of the policy keeps the stored one; one that does replaces it.
pub proof fn lemma_policy_updates(
    body: Map<Seq<char>, JsonView>,
    stored: Seq<char>,
    given: Seq<char>,
)
    ensures
        !body.dom().contains("allowed_models"@) ==> policy_after_update(
            JsonView::Object(body),
            Some(stored),
        ) == stored,
        json::holds(body, "allowed_models"@, JsonView::Text(given)) ==> policy_after_update(
            JsonView::Object(body),
            Some(stored),
        ) == given,
{
}

/// A key has the name that a request gives it, and the one that stands in for it where it gives none.
pub proof fn lemma_key_names(body: Map<Seq<char>, JsonView>, s: Seq<char>, default: Seq<char>)
    ensures
        json::holds(body, "name"@, JsonView::Text(s)) ==> name_or(JsonView::Object(body), default)
            == s,
        !body.dom().contains("name"@) ==> name_or(JsonView::Object(body), default) == default,
{
}

/// A key is listed with all that is stored of it, each under its own name.
pub proof fn lemma_key_entry(k: KeyRow)
    ensures
        ({
            let v = key_entry(k);
            &&& json::field(v, "id"@) == Some(JsonView::Int(k.id as int))
            &&& json::field(v, "name"@) == Some(JsonView::Text(k.name@))
            &&& json::field(v, "key"@) == Some(JsonView::Text(k.key@))
            &&& json::field(v, "allowed_models"@) == Some(JsonView::Text(k.allowed_models@))
            &&& json::field(v, "created_at"@) == Some(
                json::text_or_null(json::some_string(k.created_at)),
            )
        }),
{
    reveal_strlit("id");
    reveal_strlit("name");
    reveal_strlit("key");
    reveal_strlit("allowed_models");
    reveal_strlit("created_at");
    assert("id"@.len() == 2 && "name"@.len() == 4 && "key"@.len() == 3
        && "allowed_models"@.len() == 14 && "created_at"@.len() == 10);
}

} // verus!
