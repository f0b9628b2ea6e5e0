//! The models that the accounts offer: how they are asked for, put into one form, merged and cached.

use vstd::prelude::*;
use crate::json::{self, Json, JsonView};
use crate::routes::v1::dispatch::{self, Account};
use crate::text;

verus! {

broadcast use crate::json::lemma_elements_view;

/// A name without the prefix that Gemini puts before it.
pub open spec fn bare_name(name: Seq<char>) -> Seq<char> {
    match text::after_prefix(name, "models/"@) {
        Some(rest) => rest,
        None => name,
    }
}

fn strip_models(name: &str) -> (r: String)
    ensures
        r@ == bare_name(name@),
{
    match text::strip_prefix(name, "models/") {
        Some(rest) => rest,
        None => name.to_owned(),
    }
}

/// The id of a model: its own, else its bare name; empty where it has neither.
pub open spec fn id_of(m: JsonView) -> Seq<char> {
    match crate::routes::auth::nonempty_at(m, "id"@) {
        Some(id) => id,
        None => match json::text_in(json::field(m, "name"@)) {
            Some(n) => bare_name(n),
            None => seq![],
        },
    }
}

/// The id of a model.
pub fn model_id(m: &Json) -> (r: String)
    ensures
        r@ == id_of(m@),
{
    if let Some(id) = m.str_at("id") {
        if !id.is_empty() {
            return id.to_owned();
        }
    }
    match m.str_at("name") {
        Some(n) => strip_models(n),
        None => {
            let none = String::new();
            assert(none@ =~= seq![]);
            none
        },
    }
}

/// The name that a model is shown under: its display name, else its bare name, else its id.
pub open spec fn display_name(m: JsonView) -> Seq<char> {
    match json::text_in(json::field(m, "displayName"@)) {
        Some(n) => n,
        None => match json::text_in(json::field(m, "name"@)) {
            Some(n) => bare_name(n),
            None => id_of(m),
        },
    }
}

/// The count that a value stands for: a number, or a text that denotes one.
pub open spec fn count_of(v: JsonView) -> Option<u64> {
    match v {
        JsonView::Int(n) => if 0 <= n <= u64::MAX {
            Some(n as u64)
        } else {
            None
        },
        JsonView::Text(s) => match text::natural(text::trimmed(s)) {
            Some(n) => if n <= u64::MAX {
                Some(n as u64)
            } else {
                None
            },
            None => None,
        },
        _ => None,
    }
}

/// Reads a count: a number, or a text that denotes one.
pub fn as_u64_val(v: &Json) -> (r: Option<u64>)
    ensures
        r == count_of(v@),
{
    match v {
        Json::Text(s) => text::parse_u64(text::trim(s.as_str()).as_str()),
        _ => v.as_u64(),
    }
}

/// The count of an optional value.
pub open spec fn some_count(v: Option<JsonView>) -> Option<u64> {
    match v {
        Some(x) => count_of(x),
        None => None,
    }
}

/// The first of two.
pub open spec fn first_of(a: Option<u64>, b: Option<u64>) -> Option<u64> {
    match a {
        Some(n) => Some(n),
        None => b,
    }
}

/// The context length that Copilot reports of a model.
pub open spec fn copilot_limit(m: JsonView) -> Option<JsonView> {
    match json::field(m, "capabilities"@) {
        Some(c) => match json::field(c, "limits"@) {
            Some(l) => json::field(l, "max_context_window_tokens"@),
            None => None,
        },
        None => None,
    }
}

/// The context length that an upstream reports of a model, in whichever field it does.
pub open spec fn reported_context(m: JsonView) -> Option<u64> {
    first_of(
        some_count(copilot_limit(m)),
        first_of(
            some_count(json::field(m, "inputTokenLimit"@)),
            first_of(
                some_count(json::field(m, "context_length"@)),
                first_of(
                    some_count(json::field(m, "max_model_len"@)),
                    first_of(
                        some_count(json::field(m, "max_context_length"@)),
                        some_count(json::field(m, "context_window"@)),
                    ),
                ),
            ),
        ),
    )
}

fn count_at(m: &Json, key: &str) -> (r: Option<u64>)
    ensures
        r == some_count(json::field(m@, key@)),
{
    match m.get(key) {
        Some(v) => as_u64_val(v),
        None => None,
    }
}

/// Reads the context length that an upstream reports of a model.
pub fn extract_context_length(m: &Json) -> (r: Option<u64>)
    ensures
        r == reported_context(m@),
{
    if let Some(c) = m.get("capabilities") {
        if let Some(l) = c.get("limits") {
            if let Some(n) = count_at(l, "max_context_window_tokens") {
                return Some(n);
            }
        }
    }
    if let Some(n) = count_at(m, "inputTokenLimit") {
        return Some(n);
    }
    if let Some(n) = count_at(m, "context_length") {
        return Some(n);
    }
    if let Some(n) = count_at(m, "max_model_len") {
        return Some(n);
    }
    if let Some(n) = count_at(m, "max_context_length") {
        return Some(n);
    }
    count_at(m, "context_window")
}

/// The context length of a model: what its upstream reports, else what is known of its id.
pub open spec fn context_of(m: JsonView, known: Option<u64>) -> Option<u64> {
    match reported_context(m) {
        Some(n) => Some(n),
        None => if id_of(m).len() == 0 {
            None
        } else {
            known
        },
    }
}

/// An object with a member where it had none of that key.
pub open spec fn with_default(m: Map<Seq<char>, JsonView>, key: Seq<char>, v: JsonView) -> Map<
    Seq<char>,
    JsonView,
> {
    if m.dom().contains(key) {
        m
    } else {
        m.insert(key, v)
    }
}

/// A model in the form that all models are given: with an id, a name, a kind, a time and, where it is
/// known, a context length.
pub open spec fn normalized(m: JsonView, known: Option<u64>) -> JsonView {
    match m {
        JsonView::Object(o) => {
            let named = o.insert("id"@, JsonView::Text(id_of(m))).insert(
                "name"@,
                JsonView::Text(display_name(m)),
            );
            let filled = with_default(
                with_default(named, "object"@, JsonView::Text("model"@)),
                "created"@,
                JsonView::Int(0),
            );
            JsonView::Object(
                match context_of(m, known) {
                    Some(n) => filled.insert("context_length"@, JsonView::Int(n as int)),
                    None => filled,
                },
            )
        },
        _ => m,
    }
}

/// Puts a model into the form that all models are given. `known` is the context length that is known
/// of its id.
pub fn normalize_model(m: &Json, known: Option<u64>) -> (r: Json)
    ensures
        r@ == normalized(m@, known),
{
    match m {
        Json::Object(_) => {},
        _ => {
            return m.copy();
        },
    }
    let id = model_id(m);
    let name = match m.str_at("displayName") {
        Some(n) => n.to_owned(),
        None => match m.str_at("name") {
            Some(n) => strip_models(n),
            None => id.clone(),
        },
    };
    let context = match extract_context_length(m) {
        Some(n) => Some(n),
        None => if id.as_str().is_empty() {
            None
        } else {
            known
        },
    };
    let named = m.copy().with("id", Json::Text(id)).with("name", Json::Text(name));
    let typed = if named.get("object").is_some() {
        named
    } else {
        named.with("object", Json::text("model"))
    };
    let filled = if typed.get("created").is_some() {
        typed
    } else {
        typed.with("created", Json::Unsigned(0))
    };
    match context {
        Some(n) => filled.with("context_length", Json::Unsigned(n)),
        None => filled,
    }
}

/// Every normalized model that is an object has an id and a name that are texts, a kind and a time.
pub proof fn lemma_normalized_is_complete(m: JsonView, known: Option<u64>)
    requires
        m is Object,
    ensures
        json::text_in(json::field(normalized(m, known), "id"@)) == Some(id_of(m)),
        json::text_in(json::field(normalized(m, known), "name"@)) == Some(display_name(m)),
        json::field(normalized(m, known), "object"@) is Some,
        json::field(normalized(m, known), "created"@) is Some,
        context_of(m, known) is Some ==> json::field(normalized(m, known), "context_length"@)
            == Some(JsonView::Int(context_of(m, known)->0 as int)),
{
    reveal_strlit("id");
    reveal_strlit("name");
    reveal_strlit("object");
    reveal_strlit("created");
    reveal_strlit("context_length");
    assert("id"@.len() != "name"@.len());
    assert("id"@.len() != "object"@.len());
    assert("id"@.len() != "created"@.len());
    assert("id"@.len() != "context_length"@.len());
    assert("name"@.len() != "object"@.len());
    assert("name"@.len() != "created"@.len());
    assert("name"@.len() != "context_length"@.len());
    assert("object"@.len() != "created"@.len());
    assert("object"@.len() != "context_length"@.len());
    assert("created"@.len() != "context_length"@.len());
}

/// A request for the models of an account.
pub struct ModelsRequest {
    pub url: String,
    pub headers: Vec<(String, String)>,
}

/// The URL that the models of an account are asked for at, by the kind of its provider.
pub open spec fn models_url(kind: Seq<char>, base_url: Option<Seq<char>>) -> Seq<char> {
    if kind == "gemini"@ {
        "https://generativelanguage.googleapis.com/v1beta/models"@
    } else {
        text::stripped_end(
            match base_url {
                Some(u) => u,
                None => if kind == "anthropic"@ {
                    "https://api.anthropic.com/v1"@
                } else {
                    "https://api.openai.com/v1"@
                },
            },
            '/',
        ) + "/models"@
    }
}

/// The headers that the models of an account are asked for with.
pub open spec fn models_headers(kind: Seq<char>, api_key: Seq<char>) -> Seq<(Seq<char>, Seq<char>)> {
    if kind == "anthropic"@ {
        seq![("x-api-key"@, api_key), ("anthropic-version"@, "2023-06-01"@)]
    } else if kind == "gemini"@ {
        seq![("x-goog-api-key"@, api_key)]
    } else {
        seq![("authorization"@, "Bearer "@ + api_key)]
    }
}

/// The request for the models of an account, by the kind of its provider.
pub fn fetch_provider_models(account: &Account, provider_type: &str) -> (r: ModelsRequest)
    ensures
        r.url@ == models_url(provider_type@, json::some_string(account.base_url)),
        dispatch::headers_view(r.headers@) == models_headers(provider_type@, account.api_key@),
{
    let anthropic = text::same(provider_type, "anthropic");
    let gemini = text::same(provider_type, "gemini");
    let url = if gemini {
        "https://generativelanguage.googleapis.com/v1beta/models".to_owned()
    } else {
        let base = match &account.base_url {
            Some(u) => u.as_str(),
            None => if anthropic {
                "https://api.anthropic.com/v1"
            } else {
                "https://api.openai.com/v1"
            },
        };
        text::strip_end(base, '/').concat("/models")
    };
    let mut headers: Vec<(String, String)> = Vec::new();
    if anthropic {
        headers.push(("x-api-key".to_owned(), account.api_key.clone()));
        headers.push(("anthropic-version".to_owned(), "2023-06-01".to_owned()));
    } else if gemini {
        headers.push(("x-goog-api-key".to_owned(), account.api_key.clone()));
    } else {
        headers.push(
            ("authorization".to_owned(), "Bearer ".to_owned().concat(account.api_key.as_str())),
        );
    }
    assert(dispatch::headers_view(headers@) =~= models_headers(provider_type@, account.api_key@));
    ModelsRequest { url, headers }
}

/// The message for an upstream that refused to list its models: its own, else the status.
pub open spec fn listing_error(status: u16, says: Option<JsonView>) -> Seq<char> {
    match says {
        Some(v) => match json::field(v, "error"@) {
            Some(e) => match json::text_in(json::field(e, "message"@)) {
                Some(m) => m,
                None => "HTTP "@ + text::decimal(status as nat),
            },
            None => "HTTP "@ + text::decimal(status as nat),
        },
        None => "HTTP "@ + text::decimal(status as nat),
    }
}

/// The message for an upstream that refused to list its models, given what its answer says as JSON.
pub fn explain_refusal(status: u16, says: Option<&Json>) -> (r: String)
    ensures
        r@ == listing_error(status, json::some_view(says)),
{
    if let Some(v) = says {
        if let Some(e) = v.get("error") {
            if let Some(m) = e.str_at("message") {
                return m.to_owned();
            }
        }
    }
    "HTTP ".to_owned().concat(text::decimal_u64(status as u64).as_str())
}

/// The models that an answer lists: under `models` for Gemini, under `data` for all others.
pub open spec fn models_in(kind: Seq<char>, data: JsonView) -> Seq<JsonView> {
    match json::array_in(
        json::field(
            data,
            if kind == "gemini"@ {
                "models"@
            } else {
                "data"@
            },
        ),
    ) {
        Some(s) => s,
        None => seq![],
    }
}

fn copy_all(v: &Vec<Json>) -> (r: Vec<Json>)
    ensures
        json::elements_view(r@) == json::elements_view(v@),
{
    let mut out: Vec<Json> = Vec::new();
    let mut i: usize = 0;
    while i < v.len()
        invariant
            i == out@.len(),
            i <= v@.len(),
            forall|k: int|
                0 <= k < i ==> #[trigger] json::json_view(out@[k]) == json::json_view(v@[k]),
        decreases v@.len() - i,
    {
        out.push(v[i].copy());
        i = i + 1;
    }
    assert(json::elements_view(out@) =~= json::elements_view(v@));
    out
}

/// The models that an answer lists.
pub fn listed_models(provider_type: &str, data: &Json) -> (r: Vec<Json>)
    ensures
        json::elements_view(r@) == models_in(provider_type@, data@),
{
    let key = if text::same(provider_type, "gemini") {
        "models"
    } else {
        "data"
    };
    match data.get(key) {
        Some(j) => match j.as_array() {
            Some(v) => copy_all(v),
            None => Vec::new(),
        },
        None => Vec::new(),
    }
}

/// What came of asking an account for its models, as the answer's status and body have it.
pub open spec fn listing(kind: Seq<char>, status: u16, body: Seq<char>) -> Result<
    Seq<JsonView>,
    Seq<char>,
> {
    if dispatch::success(status) {
        match json::reading(body) {
            Ok(v) => Ok(models_in(kind, v)),
            Err(e) => Err("JSON parse error: "@ + e),
        }
    } else {
        Err(listing_error(status, json::parsed(body)))
    }
}

/// Reads the answer of an account that was asked for its models.
pub fn read_listing(provider_type: &str, status: u16, body: &str) -> (r: Result<Vec<Json>, String>)
    ensures
        match listing(provider_type@, status, body@) {
            Ok(models) => r is Ok && json::elements_view(r->Ok_0@) == models,
            Err(e) => r is Err && r->Err_0@ == e,
        },
{
    if 200 <= status && status <= 299 {
        match json::read(body) {
            Ok(v) => Ok(listed_models(provider_type, &v)),
            Err(e) => Err("JSON parse error: ".to_owned().concat(e.as_str())),
        }
    } else {
        match json::parse(body) {
            Some(v) => Err(explain_refusal(status, Some(&v))),
            None => Err(explain_refusal(status, None)),
        }
    }
}

/// Models that are put together, each under a key that says whose it is.
pub struct ModelMerge {
    seen: Vec<String>,
    models: Vec<Json>,
}

/// Models that are put together, and the keys they stand under.
#[verifier::ext_equal]
pub struct MergeView {
    pub seen: Seq<Seq<char>>,
    pub models: Seq<JsonView>,
}

/// A merge after a model is offered under a key: the first one of a key stays.
pub open spec fn offered(m: MergeView, key: Seq<char>, model: JsonView) -> MergeView {
    if m.seen.contains(key) {
        m
    } else {
        MergeView { seen: m.seen.push(key), models: m.models.push(model) }
    }
}

/// The key of a model of an owner.
pub open spec fn merge_key(owner: Seq<char>, id: Seq<char>) -> Seq<char> {
    owner + ":"@ + id
}

/// The text under `id`; empty where there is none.
pub open spec fn plain_id(m: JsonView) -> Seq<char> {
    crate::routes::accounts::text_or_empty(m, "id"@)
}

/// A model with its owner noted, if it is an object.
pub open spec fn owned(m: JsonView, owner: Seq<char>) -> JsonView {
    match m {
        JsonView::Object(o) => JsonView::Object(o.insert("owned_by"@, JsonView::Text(owner))),
        _ => m,
    }
}

/// Notes the owner of a model.
pub fn set_owner(m: &Json, owner: &str) -> (r: Json)
    ensures
        r@ == owned(m@, owner@),
{
    match m {
        Json::Object(_) => m.copy().with("owned_by", Json::text(owner)),
        _ => m.copy(),
    }
}

/// What stands in the list for an account whose models could not be had.
pub open spec fn placeholder_view(alias: Seq<char>, error: Option<Seq<char>>) -> JsonView {
    let plain = map![
        "id"@ => JsonView::Text(alias + "-models-unavailable"@),
        "name"@ => JsonView::Text(alias),
        "object"@ => JsonView::Text("model"@),
        "created"@ => JsonView::Int(0),
        "owned_by"@ => JsonView::Text(alias),
    ];
    JsonView::Object(
        match error {
            Some(e) => plain.insert("error"@, JsonView::Text(e)),
            None => plain,
        },
    )
}

/// What stands in the list for an account whose models could not be had.
pub fn placeholder(alias: &str, error: &Option<String>) -> (r: Json)
    ensures
        r@ == placeholder_view(alias@, json::some_string(*error)),
{
    let id = alias.to_owned().concat("-models-unavailable");
    let plain = Json::object().with("id", Json::text(id.as_str())).with(
        "name",
        Json::text(alias),
    ).with("object", Json::text("model")).with("created", Json::Unsigned(0)).with(
        "owned_by",
        Json::text(alias),
    );
    match error {
        Some(e) => plain.with("error", Json::text(e.as_str())),
        None => plain,
    }
}

/// A merge after the models of an owner are offered, each with its owner noted or as it is.
pub open spec fn offered_all(
    m: MergeView,
    owner: Seq<char>,
    models: Seq<JsonView>,
    note_owner: bool,
) -> MergeView
    decreases models.len(),
{
    if models.len() == 0 {
        m
    } else {
        let last = models.last();
        offered(
            offered_all(m, owner, models.drop_last(), note_owner),
            merge_key(owner, plain_id(last)),
            if note_owner {
                owned(last, owner)
            } else {
                last
            },
        )
    }
}

/// A merge after what was fetched from an account is offered: its models, or a placeholder.
pub open spec fn with_fetched(
    m: MergeView,
    alias: Seq<char>,
    models: Seq<JsonView>,
    error: Option<Seq<char>>,
) -> MergeView {
    if models.len() == 0 {
        offered(m, merge_key(alias, "__unavailable__"@), placeholder_view(alias, error))
    } else {
        offered_all(m, alias, models, true)
    }
}

/// The owner of the model that an alias stands for.
pub open spec fn custom_owner(provider: Seq<char>) -> Seq<char> {
    if provider.len() == 0 {
        "custom"@
    } else {
        provider
    }
}

/// A merge after the model that an alias stands for is offered.
pub open spec fn with_custom(m: MergeView, model: Seq<char>, provider: Seq<char>) -> MergeView {
    if model.len() == 0 {
        m
    } else {
        let owner = custom_owner(provider);
        offered(
            m,
            merge_key(owner, model),
            JsonView::Object(
                map![
                    "id"@ => JsonView::Text(model),
                    "object"@ => JsonView::Text("model"@),
                    "created"@ => JsonView::Int(0),
                    "owned_by"@ => JsonView::Text(owner),
                ],
            ),
        )
    }
}

impl ModelMerge {
    /// The keys and the models.
    pub closed spec fn view(&self) -> MergeView {
        MergeView { seen: text::texts(self.seen@), models: json::elements_view(self.models@) }
    }

    /// No models.
    pub fn new() -> (r: ModelMerge)
        ensures
            r@ == (MergeView { seen: seq![], models: seq![] }),
    {
        let r = ModelMerge { seen: Vec::new(), models: Vec::new() };
        assert(r@.seen =~= seq![]);
        assert(r@.models =~= seq![]);
        r
    }

    /// Offers a model under a key.
    pub fn offer(&mut self, key: String, model: Json)
        ensures
            final(self)@ == offered(old(self)@, key@, model@),
    {
        if crate::middleware::model_in(&self.seen, key.as_str()) {
            return;
        }
        let ghost seen = text::texts(self.seen@);
        let ghost models = json::elements_view(self.models@);
        self.seen.push(key);
        self.models.push(model);
        assert(text::texts(self.seen@) =~= seen.push(key@));
        assert(json::elements_view(self.models@) =~= models.push(model@)) by {
            assert(self.models@.drop_last() =~= old(self).models@);
        }
    }

    /// Offers the models of an owner, each with its owner noted or as it is.
    pub fn offer_all(&mut self, owner: &str, models: &Vec<Json>, note_owner: bool)
        ensures
            final(self)@ == offered_all(
                old(self)@,
                owner@,
                json::elements_view(models@),
                note_owner,
            ),
    {
        let ghost all = json::elements_view(models@);
        let mut i: usize = 0;
        assert(all.take(0) =~= Seq::<JsonView>::empty());
        while i < models.len()
            invariant
                i <= models@.len(),
                all == json::elements_view(models@),
                all.len() == models@.len(),
                self@ == offered_all(old(self)@, owner@, all.take(i as int), note_owner),
            decreases models@.len() - i,
        {
            assert(all.take(i + 1).drop_last() =~= all.take(i as int));
            assert(all.take(i + 1).last() == json::json_view(models@[i as int]));
            let m = &models[i];
            let id = match m.str_at("id") {
                Some(s) => s,
                None => "",
            };
            proof {
                reveal_strlit("");
                assert(""@ =~= seq![]);
            }
            let key = owner.to_owned().concat(":").concat(id);
            let model = if note_owner {
                set_owner(m, owner)
            } else {
                m.copy()
            };
            self.offer(key, model);
            i = i + 1;
        }
        assert(all.take(i as int) =~= all);
    }

    /// Offers what was fetched from an account.
    pub fn add_fetched(&mut self, alias: &str, models: &Vec<Json>, error: &Option<String>)
        ensures
            final(self)@ == with_fetched(
                old(self)@,
                alias@,
                json::elements_view(models@),
                json::some_string(*error),
            ),
    {
        if models.len() == 0 {
            let key = alias.to_owned().concat(":").concat("__unavailable__");
            self.offer(key, placeholder(alias, error));
        } else {
            self.offer_all(alias, models, true);
        }
    }

    /// Offers the model that an alias stands for.
    pub fn add_custom(&mut self, model: &str, provider: &str)
        ensures
            final(self)@ == with_custom(old(self)@, model@, provider@),
    {
        if model.is_empty() {
            return;
        }
        let owner = if provider.is_empty() {
            "custom"
        } else {
            provider
        };
        let key = owner.to_owned().concat(":").concat(model);
        let entry = Json::object().with("id", Json::text(model)).with(
            "object",
            Json::text("model"),
        ).with("created", Json::Unsigned(0)).with("owned_by", Json::text(owner));
        self.offer(key, entry);
    }

    /// The models.
    pub fn into_models(self) -> (r: Vec<Json>)
        ensures
            json::elements_view(r@) == self@.models,
    {
        self.models
    }
}

/// Of the models offered under one key, the first one stays and the others change nothing.
pub proof fn lemma_first_offer_stays(m: MergeView, key: Seq<char>, first: JsonView, other: JsonView)
    ensures
        offered(offered(m, key, first), key, other) == offered(m, key, first),
{
    let once = offered(m, key, first);
    if !m.seen.contains(key) {
        assert(once.seen[m.seen.len() as int] == key);
    }
    assert(once.seen.contains(key));
}

/// How long a list of models is fresh, in seconds.
pub const MODELS_TTL: i64 = 24 * 60 * 60;

/// The models that were last fetched.
pub struct ModelsCache {
    pub data: Vec<Json>,
    pub created_at: i64,
    pub refreshing: bool,
}

/// What is kept in memory of a list of models that is as old as a point in time.
pub fn remember_models(data: &Vec<Json>, created_at: i64) -> (r: ModelsCache)
    ensures
        json::elements_view(r.data@) == json::elements_view(data@),
        r.created_at == created_at,
        !r.refreshing,
{
    ModelsCache { data: copy_all(data), created_at, refreshing: false }
}

/// Where the list of models comes from.
pub enum ModelsSource {
    /// From what is stored.
    Snapshot,
    /// From the accounts, which are asked now.
    Fetch,
    /// From memory; it may be stale, and then someone is to refresh it in the background.
    Memory { stale: bool, cached_at: i64, refresh: bool },
}

/// Decides where the list of models comes from. Of all who find the memory stale, one refreshes it.
pub fn get_available_models(
    stored: bool,
    force: bool,
    cache: &mut Option<ModelsCache>,
    now: i64,
) -> (r: ModelsSource)
    requires
        !force && !stored && *old(cache) is Some ==> i64::MIN <= now - (*old(
            cache,
        ))->0.created_at <= i64::MAX,
    ensures
        r == consulted(stored, force, *old(cache), now).0,
        *final(cache) == consulted(stored, force, *old(cache), now).1,
        if force {
            r is Fetch && *final(cache) == *old(cache)
        } else if stored {
            r is Snapshot && *final(cache) == *old(cache)
        } else {
            match *old(cache) {
                None => r is Fetch && *final(cache) == *old(cache),
                Some(c) => {
                    let stale = now - c.created_at >= MODELS_TTL;
                    r == (ModelsSource::Memory {
                        stale,
                        cached_at: c.created_at,
                        refresh: stale && !c.refreshing,
                    }) && *final(cache) == Some(
                        ModelsCache { refreshing: stale || c.refreshing, ..c },
                    )
                },
            }
        },
{
    if force {
        return ModelsSource::Fetch;
    }
    if stored {
        return ModelsSource::Snapshot;
    }
    match cache.take() {
        None => ModelsSource::Fetch,
        Some(c) => {
            let cached_at: i64 = c.created_at;
            let stale = now - cached_at >= MODELS_TTL;
            let refresh = stale && !c.refreshing;
            let refreshing = stale || c.refreshing;
            *cache = Some(ModelsCache { data: c.data, created_at: cached_at, refreshing });
            ModelsSource::Memory { stale, cached_at, refresh }
        },
    }
}

/// A refresh in the background is over: what is in memory is replaced, if something is.
pub fn refresh_done(cache: &mut Option<ModelsCache>, data: Vec<Json>, now: i64)
    ensures
        *final(cache) == (match *old(cache) {
            Some(_) => Some(ModelsCache { data, created_at: now, refreshing: false }),
            None => None,
        }),
{
    match cache.take() {
        Some(_) => {
            *cache = Some(ModelsCache { data, created_at: now, refreshing: false });
        },
        None => {},
    }
}

/// The reply with the list of models.
pub fn models_reply(data: Vec<Json>, stale: bool, cached_at: i64, per_account: Option<Vec<Json>>) -> (r: Json)
    ensures
        r@ == ({
            let plain = map![
                "data"@ => JsonView::Array(json::elements_view(data@)),
                "stale"@ => JsonView::Bool(stale),
                "cached_at"@ => JsonView::Int(cached_at as int),
            ];
            JsonView::Object(
                match per_account {
                    Some(p) => plain.insert(
                        "per_account"@,
                        JsonView::Array(json::elements_view(p@)),
                    ),
                    None => plain,
                },
            )
        }),
{
    let plain = Json::object().with("data", Json::Array(data)).with(
        "stale",
        Json::Bool(stale),
    ).with("cached_at", Json::Signed(cached_at));
    match per_account {
        Some(p) => plain.with("per_account", Json::Array(p)),
        None => plain,
    }
}

/// The stored models of an account.
pub struct CacheRow {
    pub account_id: i64,
    pub alias: String,
    pub models_json: String,
    pub error: Option<String>,
    pub updated_at: i64,
}

/// Whether a text begins as the notation of a list does: with a bracket, after white space.
pub open spec fn begins_list(text: Seq<char>) -> bool
    decreases text.len(),
{
    if text.len() == 0 {
        false
    } else if json::is_space(text[0]) {
        begins_list(text.drop_first())
    } else {
        text[0] == '['
    }
}

fn is_list_text(text: &str) -> (r: bool)
    ensures
        r == begins_list(text@),
{
    let chars = text::chars_of(text);
    let mut i: usize = 0;
    assert(chars@.skip(0) =~= chars@);
    while i < chars.len()
        invariant
            i <= chars@.len(),
            chars@ == text@,
            begins_list(text@) == begins_list(chars@.skip(i as int)),
        decreases chars@.len() - i,
    {
        let c: char = chars[i];
        assert(chars@.skip(i as int)[0] == c);
        if c != ' ' && c != '\n' && c != '\r' && c != '\t' {
            return c == '[';
        }
        assert(chars@.skip(i as int).drop_first() =~= chars@.skip(i + 1));
        i = i + 1;
    }
    false
}

/// The models that a stored text lists; none where it is no list.
pub open spec fn stored_models(text: Seq<char>) -> Seq<JsonView> {
    match json::array_in(json::parsed(text)) {
        Some(s) if begins_list(text) => s,
        _ => seq![],
    }
}

fn read_stored_models(text: &str) -> (r: Vec<Json>)
    ensures
        json::elements_view(r@) == stored_models(text@),
{
    if !is_list_text(text) {
        return Vec::new();
    }
    match json::parse(text) {
        Some(j) => match j.as_array() {
            Some(v) => copy_all(v),
            None => Vec::new(),
        },
        None => Vec::new(),
    }
}

/// What is reported of the stored models of an account.
pub open spec fn account_entry(c: CacheRow) -> JsonView {
    JsonView::Object(
        map![
            "account_id"@ => JsonView::Int(c.account_id as int),
            "alias"@ => JsonView::Text(c.alias@),
            "updated_at"@ => JsonView::Int(c.updated_at as int),
            "error"@ => json::text_or_null(json::some_string(c.error)),
            "count"@ => JsonView::Int(
                stored_models(c.models_json@).len() as int,
            ),
        ],
    )
}

/// The stored models of all accounts, put together.
pub open spec fn merged_rows(rows: Seq<CacheRow>) -> MergeView
    decreases rows.len(),
{
    if rows.len() == 0 {
        MergeView { seen: seq![], models: seq![] }
    } else {
        offered_all(
            merged_rows(rows.drop_last()),
            rows.last().alias@,
            stored_models(rows.last().models_json@),
            false,
        )
    }
}

/// A merge after the models that aliases stand for are offered.
pub open spec fn with_customs(m: MergeView, customs: Seq<(String, String)>) -> MergeView
    decreases customs.len(),
{
    if customs.len() == 0 {
        m
    } else {
        with_custom(
            with_customs(m, customs.drop_last()),
            customs.last().0@,
            customs.last().1@,
        )
    }
}

/// The newest of a list of stored models; zero where there is none after 1970.
pub open spec fn newest(rows: Seq<CacheRow>) -> int
    decreases rows.len(),
{
    if rows.len() == 0 {
        0
    } else {
        let before = newest(rows.drop_last());
        if rows.last().updated_at > before {
            rows.last().updated_at as int
        } else {
            before
        }
    }
}

/// Whether some stored models are no longer fresh.
pub open spec fn some_stale(rows: Seq<CacheRow>, now: i64) -> bool {
    exists|i: int| 0 <= i < rows.len() && now - (#[trigger] rows[i]).updated_at >= MODELS_TTL
}

/// Whether the ages of stored models are numbers, up to the first that are no longer fresh.
pub open spec fn ages_known(rows: Seq<CacheRow>, now: i64) -> bool {
    forall|i: int|
        0 <= i < rows.len() && !some_stale(rows.take(i), now) ==> i64::MIN <= now - (
        #[trigger] rows[i]).updated_at <= i64::MAX
}

/// The stored models of all accounts.
pub struct Snapshot {
    pub data: Vec<Json>,
    pub per_account: Vec<Json>,
    pub cached_at: i64,
    pub stale: bool,
}

impl Snapshot {
    /// What is kept in memory of the stored models: they are as old as the newest of them.
    pub fn remember(&self) -> (r: ModelsCache)
        ensures
            json::elements_view(r.data@) == json::elements_view(self.data@),
            r.created_at == self.cached_at,
            !r.refreshing,
    {
        remember_models(&self.data, self.cached_at)
    }
}

pub proof fn lemma_stale_step(rows: Seq<CacheRow>, i: int, now: i64)
    requires
        0 <= i < rows.len(),
    ensures
        some_stale(rows.take(i + 1), now) == (some_stale(rows.take(i), now) || now
            - rows[i].updated_at >= MODELS_TTL),
{
    let all = rows.take(i + 1);
    assert(all[i] == rows[i]);
    assert forall|k: int| 0 <= k < i implies rows.take(i)[k] == #[trigger] all[k] by {}
    if some_stale(rows.take(i), now) {
        let k = choose|k: int|
            0 <= k < rows.take(i).len() && now - (#[trigger] rows.take(i)[k]).updated_at
                >= MODELS_TTL;
        assert(now - all[k].updated_at >= MODELS_TTL);
    }
}

/// Puts the stored models of all accounts together with those that aliases stand for.
pub fn load_snapshot(rows: &Vec<CacheRow>, customs: &Vec<(String, String)>, now: i64) -> (r: Snapshot)
    requires
        ages_known(rows@, now),
    ensures
        json::elements_view(r.data@) == with_customs(merged_rows(rows@), customs@).models,
        json::elements_view(r.per_account@) == rows@.map_values(|c: CacheRow| account_entry(c)),
        r.cached_at == newest(rows@),
        r.stale == some_stale(rows@, now),
{
    let mut merge = ModelMerge::new();
    let mut per_account: Vec<Json> = Vec::new();
    let mut cached_at: i64 = 0;
    let mut stale = false;
    let mut i: usize = 0;
    assert(rows@.take(0) =~= Seq::<CacheRow>::empty());
    while i < rows.len()
        invariant
            i <= rows@.len(),
            i == per_account@.len(),
            merge@ == merged_rows(rows@.take(i as int)),
            cached_at == newest(rows@.take(i as int)),
            stale == some_stale(rows@.take(i as int), now),
            ages_known(rows@, now),
            forall|k: int|
                0 <= k < i ==> #[trigger] json::json_view(per_account@[k]) == account_entry(
                    rows@[k],
                ),
        decreases rows@.len() - i,
    {
        assert(rows@.take(i + 1).drop_last() =~= rows@.take(i as int));
        let row = &rows[i];
        let models = read_stored_models(row.models_json.as_str());
        let count: u64 = models.len() as u64;
        merge.offer_all(row.alias.as_str(), &models, false);
        if row.updated_at > cached_at {
            cached_at = row.updated_at;
        }
        proof {
            lemma_stale_step(rows@, i as int, now);
        }
        if !stale && now - row.updated_at >= MODELS_TTL {
            stale = true;
        }
        per_account.push(
            Json::object().with("account_id", Json::Signed(row.account_id)).with(
                "alias",
                Json::text(row.alias.as_str()),
            ).with("updated_at", Json::Signed(row.updated_at)).with(
                "error",
                json::optional_text(&row.error),
            ).with("count", Json::Unsigned(count)),
        );
        i = i + 1;
    }
    assert(rows@.take(i as int) =~= rows@);
    assert(json::elements_view(per_account@) =~= rows@.map_values(|c: CacheRow| account_entry(c)));
    let mut k: usize = 0;
    assert(customs@.take(0) =~= Seq::<(String, String)>::empty());
    while k < customs.len()
        invariant
            k <= customs@.len(),
            merge@ == with_customs(merged_rows(rows@), customs@.take(k as int)),
        decreases customs@.len() - k,
    {
        assert(customs@.take(k + 1).drop_last() =~= customs@.take(k as int));
        merge.add_custom(customs[k].0.as_str(), customs[k].1.as_str());
        k = k + 1;
    }
    assert(customs@.take(k as int) =~= customs@);
    Snapshot { data: merge.into_models(), per_account, cached_at, stale }
}

/// What was fetched from an account: its name, its models, and what went wrong.
pub struct Fetched {
    pub alias: String,
    pub models: Vec<Json>,
    pub error: Option<String>,
}

/// What was fetched from all accounts, put together.
pub open spec fn merged_fetched(results: Seq<Fetched>) -> MergeView
    decreases results.len(),
{
    if results.len() == 0 {
        MergeView { seen: seq![], models: seq![] }
    } else {
        let f = results.last();
        with_fetched(
            merged_fetched(results.drop_last()),
            f.alias@,
            json::elements_view(f.models@),
            json::some_string(f.error),
        )
    }
}

/// What was fetched from all accounts, put together with the models that aliases stand for; nothing
/// where no account was asked.
pub open spec fn fetched_models(results: Seq<Fetched>, customs: Seq<(String, String)>) -> Seq<
    JsonView,
> {
    if results.len() == 0 {
        seq![]
    } else {
        with_customs(merged_fetched(results), customs).models
    }
}

/// Puts what was fetched from all accounts together with the models that aliases stand for. Where
/// no account was asked, there are no models at all.
pub fn do_fetch_models(results: &Vec<Fetched>, customs: &Vec<(String, String)>) -> (r: Vec<Json>)
    ensures
        json::elements_view(r@) == fetched_models(results@, customs@),
{
    if results.len() == 0 {
        let none: Vec<Json> = Vec::new();
        assert(json::elements_view(none@) =~= seq![]);
        return none;
    }
    let mut merge = ModelMerge::new();
    let mut i: usize = 0;
    assert(results@.take(0) =~= Seq::<Fetched>::empty());
    while i < results.len()
        invariant
            i <= results@.len(),
            merge@ == merged_fetched(results@.take(i as int)),
        decreases results@.len() - i,
    {
        assert(results@.take(i + 1).drop_last() =~= results@.take(i as int));
        let f = &results[i];
        merge.add_fetched(f.alias.as_str(), &f.models, &f.error);
        i = i + 1;
    }
    assert(results@.take(i as int) =~= results@);
    let mut k: usize = 0;
    assert(customs@.take(0) =~= Seq::<(String, String)>::empty());
    while k < customs.len()
        invariant
            k <= customs@.len(),
            merge@ == with_customs(merged_fetched(results@), customs@.take(k as int)),
        decreases customs@.len() - k,
    {
        assert(customs@.take(k + 1).drop_last() =~= customs@.take(k as int));
        merge.add_custom(customs[k].0.as_str(), customs[k].1.as_str());
        k = k + 1;
    }
    assert(customs@.take(k as int) =~= customs@);
    merge.into_models()
}

/// The models of a list that have an owner.
pub open spec fn models_of_owner(models: Seq<JsonView>, owner: Seq<char>) -> Seq<JsonView> {
    models.filter(|m: JsonView| json::text_in(json::field(m, "owned_by"@)) == Some(owner))
}

/// The models of a list that have an owner.
pub fn owned_models(models: &Vec<Json>, owner: &str) -> (r: Vec<Json>)
    ensures
        json::elements_view(r@) == models_of_owner(json::elements_view(models@), owner@),
{
    let ghost all = json::elements_view(models@);
    let ghost mine = |m: JsonView| json::text_in(json::field(m, "owned_by"@)) == Some(owner@);
    let mut out: Vec<Json> = Vec::new();
    let mut i: usize = 0;
    proof {
        reveal(Seq::filter);
        assert(all.take(0).filter(mine) =~= Seq::<JsonView>::empty());
        assert(json::elements_view(out@) =~= Seq::<JsonView>::empty());
    }
    while i < models.len()
        invariant
            i <= models@.len(),
            all == json::elements_view(models@),
            all.len() == models@.len(),
            mine == (|m: JsonView| json::text_in(json::field(m, "owned_by"@)) == Some(owner@)),
            json::elements_view(out@) == all.take(i as int).filter(mine),
        decreases models@.len() - i,
    {
        proof {
            assert(all.take(i + 1).drop_last() =~= all.take(i as int));
            assert(all.take(i + 1).last() == json::json_view(models@[i as int]));
            reveal(Seq::filter);
        }
        let ghost before = out@;
        let is_mine = match models[i].str_at("owned_by") {
            Some(s) => text::same(s, owner),
            None => false,
        };
        if is_mine {
            out.push(models[i].copy());
            assert(out@.drop_last() =~= before);
        }
        i = i + 1;
    }
    assert(all.take(i as int) =~= all);
    out
}

/// The owners of the models of a list, each once.
pub fn owners(models: &Vec<Json>) -> (r: Vec<String>)
    ensures
        forall|owner: Seq<char>| #[trigger]
            text::texts(r@).contains(owner) <==> exists|i: int|
                0 <= i < models@.len() && json::text_in(
                    json::field((#[trigger] models@[i])@, "owned_by"@),
                ) == Some(owner),
        text::texts(r@).no_duplicates(),
{
    let mut out: Vec<String> = Vec::new();
    let mut i: usize = 0;
    while i < models.len()
        invariant
            i <= models@.len(),
            text::texts(out@).no_duplicates(),
            forall|owner: Seq<char>| #[trigger]
                text::texts(out@).contains(owner) <==> exists|k: int|
                    0 <= k < i && json::text_in(
                        json::field((#[trigger] models@[k])@, "owned_by"@),
                    ) == Some(owner),
        decreases models@.len() - i,
    {
        let ghost before = text::texts(out@);
        if let Some(s) = models[i].str_at("owned_by") {
            if !crate::middleware::model_in(&out, s) {
                out.push(s.to_owned());
                let ghost now = text::texts(out@);
                proof {
                    assert(now =~= before.push(s@));
                    assert(now[before.len() as int] == s@);
                    assert forall|owner: Seq<char>| #[trigger]
                        now.contains(owner) <==> (before.contains(owner) || owner == s@) by {
                        if before.contains(owner) {
                            let k = choose|k: int|
                                0 <= k < before.len() && before[k] == owner;
                            assert(now[k] == owner);
                        }
                        if now.contains(owner) {
                            let k = choose|k: int| 0 <= k < now.len() && now[k] == owner;
                            if k < before.len() {
                                assert(before[k] == owner);
                            }
                        }
                    }
                    assert forall|a: int, b: int|
                        0 <= a < now.len() && 0 <= b < now.len() && a != b implies now[a]
                        != now[b] by {
                        if a < before.len() && b < before.len() {
                            assert(before[a] != before[b]);
                        } else if a < before.len() {
                            assert(before.contains(before[a]));
                        } else {
                            assert(before.contains(before[b]));
                        }
                    }
                }
            }
            proof {
                assert(models@[i as int]@ == json::json_view(models@[i as int]));
                assert forall|owner: Seq<char>| #[trigger]
                    text::texts(out@).contains(owner) <==> exists|k: int|
                        0 <= k < i + 1 && json::text_in(
                            json::field((#[trigger] models@[k])@, "owned_by"@),
                        ) == Some(owner) by {
                    assert(text::texts(out@).contains(owner) <==> (before.contains(owner) || owner
                        == s@));
                    if owner == s@ {
                        assert(json::text_in(
                            json::field(models@[i as int]@, "owned_by"@),
                        ) == Some(owner));
                    }
                }
            }
        } else {
            proof {
                assert forall|owner: Seq<char>| #[trigger]
                    text::texts(out@).contains(owner) <==> exists|k: int|
                        0 <= k < i + 1 && json::text_in(
                            json::field((#[trigger] models@[k])@, "owned_by"@),
                        ) == Some(owner) by {
                    assert(json::text_in(json::field(models@[i as int]@, "owned_by"@)) is None);
                }
            }
        }
        i = i + 1;
    }
    out
}

/// A name loses the prefix `models/`, and nothing else.
pub proof fn lemma_bare_name(name: Seq<char>)
    ensures
        bare_name("models/"@ + name) == name,
        !"models/"@.is_prefix_of(name) ==> bare_name(name) == name,
{
    text::lemma_prefix_comes_off("models/"@, name, name);
    if text::begins(name, "models/"@) {
        assert("models/"@ =~= name.subrange(0, "models/"@.len() as int));
        assert("models/"@.is_prefix_of(name));
    }
}

/// The id of a model is the one that it gives, and its bare name where it gives none.
pub proof fn lemma_id_of(m: Map<Seq<char>, JsonView>, id: Seq<char>, name: Seq<char>)
    ensures
        json::holds(m, "id"@, JsonView::Text(id)) && id.len() > 0 ==> id_of(JsonView::Object(m))
            == id,
        !m.dom().contains("id"@) && json::holds(m, "name"@, JsonView::Text("models/"@ + name))
            ==> id_of(JsonView::Object(m)) == name,
        !m.dom().contains("id"@) && json::holds(m, "name"@, JsonView::Text(name))
            && !"models/"@.is_prefix_of(name) ==> id_of(JsonView::Object(m)) == name,
        !m.dom().contains("id"@) && !m.dom().contains("name"@) ==> id_of(
            JsonView::Object(m),
        ).len() == 0,
{
    lemma_bare_name(name);
}

/// The name that is shown is the one that a model gives for that, else its bare name, else its id.
pub proof fn lemma_display_name(m: Map<Seq<char>, JsonView>, name: Seq<char>)
    ensures
        json::holds(m, "displayName"@, JsonView::Text(name)) ==> display_name(JsonView::Object(m))
            == name,
        !m.dom().contains("displayName"@) && json::holds(
            m,
            "name"@,
            JsonView::Text("models/"@ + name),
        ) ==> display_name(JsonView::Object(m)) == name,
        !m.dom().contains("displayName"@) && !m.dom().contains("name"@) ==> display_name(
            JsonView::Object(m),
        ) == id_of(JsonView::Object(m)),
{
    lemma_bare_name(name);
}

/// A count is a number, or a text that writes one.
pub proof fn lemma_count_of(n: u64, s: Seq<char>, b: bool, k: int)
    ensures
        count_of(JsonView::Int(n as int)) == Some(n),
        text::trimmed(s) == text::decimal(n as nat) ==> count_of(JsonView::Text(s)) == Some(n),
        count_of(JsonView::Null) is None,
        count_of(JsonView::Bool(b)) is None,
        k < 0 || k > u64::MAX ==> count_of(JsonView::Int(k)) is None,
{
    text::lemma_decimal_reads_back(n as nat);
}

/// Each of the six places of a context length is read where a model has none of those before it. The
/// places are, in order: the limits among the capabilities, `inputTokenLimit`, `context_length`,
/// `max_model_len`, `max_context_length` and `context_window`.
pub proof fn lemma_reported_context(
    m: Map<Seq<char>, JsonView>,
    capabilities: Map<Seq<char>, JsonView>,
    limits: Map<Seq<char>, JsonView>,
    n: u64,
)
    ensures
        ({
            let reported = reported_context(JsonView::Object(m));
            let is = |key: Seq<char>| json::holds(m, key, JsonView::Int(n as int));
            let no = |key: Seq<char>| !m.dom().contains(key);
            &&& json::holds(m, "capabilities"@, JsonView::Object(capabilities)) && json::holds(
                capabilities,
                "limits"@,
                JsonView::Object(limits),
            ) && json::holds(limits, "max_context_window_tokens"@, JsonView::Int(n as int))
                ==> reported == Some(n)
            &&& no("capabilities"@) ==> {
                &&& is("inputTokenLimit"@) ==> reported == Some(n)
                &&& no("inputTokenLimit"@) && is("context_length"@) ==> reported == Some(n)
                &&& no("inputTokenLimit"@) && no("context_length"@) && is("max_model_len"@)
                    ==> reported == Some(n)
                &&& no("inputTokenLimit"@) && no("context_length"@) && no("max_model_len"@) && is(
                    "max_context_length"@,
                ) ==> reported == Some(n)
                &&& no("inputTokenLimit"@) && no("context_length"@) && no("max_model_len"@) && no(
                    "max_context_length"@,
                ) && is("context_window"@) ==> reported == Some(n)
                &&& no("inputTokenLimit"@) && no("context_length"@) && no("max_model_len"@) && no(
                    "max_context_length"@,
                ) && no("context_window"@) ==> reported is None
            }
        }),
{
}

/// What a model reports of its context length goes before what is known of its id; of a model without
/// an id nothing is known.
pub proof fn lemma_context_of(m: JsonView, known: Option<u64>)
    ensures
        reported_context(m) is Some ==> context_of(m, known) == reported_context(m),
        reported_context(m) is None && id_of(m).len() > 0 ==> context_of(m, known) == known,
        reported_context(m) is None && id_of(m).len() == 0 ==> context_of(m, known) is None,
{
}

/// Putting a model into the common form changes no member but its id, its name and its context
/// length, and adds a kind and a time only where it has none.
pub proof fn lemma_normalized_keeps(m: Map<Seq<char>, JsonView>, known: Option<u64>, key: Seq<char>)
    requires
        key != "id"@,
        key != "name"@,
        key != "context_length"@,
    ensures
        m.dom().contains(key) ==> json::field(normalized(JsonView::Object(m), known), key) == Some(
            m[key],
        ),
        !m.dom().contains(key) && key != "object"@ && key != "created"@ ==> json::field(
            normalized(JsonView::Object(m), known),
            key,
        ) is None,
        key == "object"@ && !m.dom().contains(key) ==> json::field(
            normalized(JsonView::Object(m), known),
            key,
        ) == Some(JsonView::Text("model"@)),
        key == "created"@ && !m.dom().contains(key) ==> json::field(
            normalized(JsonView::Object(m), known),
            key,
        ) == Some(JsonView::Int(0)),
{
    reveal_strlit("object");
    reveal_strlit("created");
    assert("object"@.len() != "created"@.len());
}

/// An account is asked for its models at its own base URL, else at that of its kind; Gemini is always
/// asked at its own address. It is shown the account's key in the header of its kind.
pub proof fn lemma_models_request(kind: Seq<char>, base: Seq<char>, api_key: Seq<char>)
    ensures
        kind != "gemini"@ ==> models_url(kind, Some(base)) == text::stripped_end(base, '/')
            + "/models"@,
        models_url("gemini"@, Some(base)) == models_url("gemini"@, None),
        models_url("anthropic"@, None) == text::stripped_end("https://api.anthropic.com/v1"@, '/')
            + "/models"@,
        kind != "gemini"@ && kind != "anthropic"@ ==> models_url(kind, None) == text::stripped_end(
            "https://api.openai.com/v1"@,
            '/',
        ) + "/models"@,
        models_headers("anthropic"@, api_key).contains(("x-api-key"@, api_key)),
        models_headers("gemini"@, api_key) == seq![("x-goog-api-key"@, api_key)],
        kind != "gemini"@ && kind != "anthropic"@ ==> models_headers(kind, api_key) == seq![
            ("authorization"@, "Bearer "@ + api_key),
        ],
{
    reveal_strlit("gemini");
    reveal_strlit("anthropic");
    assert("gemini"@.len() != "anthropic"@.len());
    assert(models_headers("anthropic"@, api_key)[0] == ("x-api-key"@, api_key));
}

/// The models are what an answer of success lists, under `models` for Gemini and under `data` for all
/// others. An answer of any other status is an error, with the upstream's own words where it has some.
pub proof fn lemma_listing(
    kind: Seq<char>,
    status: u16,
    body: Seq<char>,
    says: Map<Seq<char>, JsonView>,
    error: Map<Seq<char>, JsonView>,
    models: Seq<JsonView>,
    message: Seq<char>,
)
    requires
        json::reading(body) == Ok::<JsonView, Seq<char>>(JsonView::Object(says)),
    ensures
        200 <= status < 300 && kind == "gemini"@ && json::holds(
            says,
            "models"@,
            JsonView::Array(models),
        ) ==> listing(kind, status, body) == Ok::<Seq<JsonView>, Seq<char>>(models),
        200 <= status < 300 && kind != "gemini"@ && json::holds(
            says,
            "data"@,
            JsonView::Array(models),
        ) ==> listing(kind, status, body) == Ok::<Seq<JsonView>, Seq<char>>(models),
        200 <= status < 300 ==> listing(kind, status, body) is Ok,
        status < 200 || status >= 300 ==> listing(kind, status, body) is Err,
        (status < 200 || status >= 300) && json::holds(says, "error"@, JsonView::Object(error))
            && json::holds(error, "message"@, JsonView::Text(message)) ==> listing(kind, status, body)
            == Err::<Seq<JsonView>, Seq<char>>(message),
        (status < 200 || status >= 300) && !says.dom().contains("error"@) ==> listing(
            kind,
            status,
            body,
        ) == Err::<Seq<JsonView>, Seq<char>>("HTTP "@ + text::decimal(status as nat)),
{
}

/// A model that is offered under a new key comes last, after all that were there; they stay as they
/// are.
pub proof fn lemma_new_offer_comes_last(m: MergeView, key: Seq<char>, model: JsonView)
    ensures
        !m.seen.contains(key) ==> offered(m, key, model).models == m.models.push(model),
        m.seen.contains(key) ==> offered(m, key, model).models == m.models,
        offered(m, key, model).seen.contains(key),
{
    if !m.seen.contains(key) {
        assert(m.seen.push(key)[m.seen.len() as int] == key);
    }
}

/// A model that is given an owner keeps all else.
pub proof fn lemma_owned(m: Map<Seq<char>, JsonView>, owner: Seq<char>, key: Seq<char>)
    ensures
        json::field(owned(JsonView::Object(m), owner), "owned_by"@) == Some(JsonView::Text(owner)),
        key != "owned_by"@ ==> json::field(owned(JsonView::Object(m), owner), key) == json::field(
            JsonView::Object(m),
            key,
        ),
{
}

/// An account without models is listed as one model that says so, with the error where there was one.
pub proof fn lemma_unavailable(alias: Seq<char>, error: Option<Seq<char>>)
    ensures
        with_fetched(MergeView { seen: seq![], models: seq![] }, alias, seq![], error).models == seq![
            placeholder_view(alias, error),
        ],
        json::field(placeholder_view(alias, error), "owned_by"@) == Some(JsonView::Text(alias)),
        json::field(placeholder_view(alias, error), "error"@) == (if error is Some {
            Some(JsonView::Text(error->0))
        } else {
            None
        }),
{
    reveal_strlit("id");
    reveal_strlit("name");
    reveal_strlit("object");
    reveal_strlit("created");
    reveal_strlit("owned_by");
    reveal_strlit("error");
    assert("error"@.len() != "owned_by"@.len());
    assert("error"@.len() != "id"@.len());
    assert("error"@.len() != "name"@.len());
    assert("error"@.len() != "object"@.len());
    assert("error"@.len() != "created"@.len());
    assert(Seq::<JsonView>::empty().push(placeholder_view(alias, error)) =~= seq![
        placeholder_view(alias, error),
    ]);
}

/// A model that an alias stands for belongs to its provider; without one it is a custom model. A name
/// that is empty is no model.
pub proof fn lemma_custom_models(m: MergeView, model: Seq<char>, provider: Seq<char>)
    ensures
        custom_owner(seq![]) == "custom"@,
        provider.len() > 0 ==> custom_owner(provider) == provider,
        with_custom(m, seq![], provider) == m,
        model.len() > 0 && !m.seen.contains(custom_owner(provider) + ":"@ + model) ==> with_custom(
            m,
            model,
            provider,
        ).models.len() == m.models.len() + 1,
{
}

/// Where models come from, and what is in memory afterwards.
pub open spec fn consulted(
    stored: bool,
    force: bool,
    cache: Option<ModelsCache>,
    now: i64,
) -> (ModelsSource, Option<ModelsCache>) {
    if force {
        (ModelsSource::Fetch, cache)
    } else if stored {
        (ModelsSource::Snapshot, cache)
    } else {
        match cache {
            None => (ModelsSource::Fetch, cache),
            Some(c) => {
                let stale = now - c.created_at >= MODELS_TTL;
                (
                    ModelsSource::Memory {
                        stale,
                        cached_at: c.created_at,
                        refresh: stale && !c.refreshing,
                    },
                    Some(ModelsCache { refreshing: stale || c.refreshing, ..c }),
                )
            },
        }
    }
}

/// What is asked for by force is fetched; else what is stored goes before what is in memory. What is
/// in memory is given whatever its age; once it is a day old it is refreshed, but not twice at a time.
pub proof fn lemma_consulting(
    stored: bool,
    cache: ModelsCache,
    now: i64,
    later: i64,
)
    ensures
        consulted(stored, true, Some(cache), now) == (ModelsSource::Fetch, Some(cache)),
        consulted(true, false, Some(cache), now).0 is Snapshot,
        consulted(false, false, None, now).0 is Fetch,
        ({
            let first = consulted(false, false, Some(cache), now);
            let second = consulted(false, false, first.1, later);
            &&& first.0 matches ModelsSource::Memory { stale, cached_at, refresh } && cached_at
                == cache.created_at && (stale <==> now - cache.created_at >= 24 * 60 * 60) && (
            refresh <==> stale && !cache.refreshing)
            &&& first.1 is Some && (first.1->0).data == cache.data && (first.1->0).created_at
                == cache.created_at
            &&& first.0->refresh ==> second.0 is Memory && !second.0->refresh
        }),
{
}

/// A snapshot is as old as the newest of its rows.
pub proof fn lemma_newest(rows: Seq<CacheRow>)
    ensures
        newest(rows) >= 0,
        forall|i: int| 0 <= i < rows.len() ==> newest(rows) >= (#[trigger] rows[i]).updated_at,
        newest(rows) == 0 || exists|i: int|
            0 <= i < rows.len() && newest(rows) == (#[trigger] rows[i]).updated_at,
    decreases rows.len(),
{
    if rows.len() > 0 {
        let before = rows.drop_last();
        lemma_newest(before);
        assert forall|i: int| 0 <= i < rows.len() implies newest(rows) >= (
        #[trigger] rows[i]).updated_at by {
            if i < before.len() {
                assert(before[i] == rows[i]);
            }
        }
        if newest(rows) == newest(before) && newest(before) != 0 {
            let i = choose|i: int|
                0 <= i < before.len() && newest(before) == (#[trigger] before[i]).updated_at;
            assert(rows[i] == before[i]);
        } else if newest(rows) != 0 {
            assert(newest(rows) == rows[rows.len() - 1].updated_at);
        }
    }
}

/// Rows are stale as soon as one of them is a day old.
pub proof fn lemma_stale_rows(rows: Seq<CacheRow>, now: i64)
    ensures
        some_stale(rows, now) <==> exists|i: int|
            0 <= i < rows.len() && now >= (#[trigger] rows[i]).updated_at + 24 * 60 * 60,
{
    if some_stale(rows, now) {
        let i = choose|i: int|
            0 <= i < rows.len() && now - (#[trigger] rows[i]).updated_at >= MODELS_TTL;
        assert(now >= rows[i].updated_at + 24 * 60 * 60);
    }
}

/// The models of an owner are those of a list that name it.
pub proof fn lemma_models_of_owner(models: Seq<JsonView>, owner: Seq<char>, m: JsonView)
    ensures
        models_of_owner(models, owner).contains(m) <==> models.contains(m) && json::field(
            m,
            "owned_by"@,
        ) == Some(JsonView::Text(owner)),
    decreases models.len(),
{
    reveal(Seq::filter);
    if models.len() > 0 {
        let before = models.drop_last();
        lemma_models_of_owner(before, owner, m);
        let rest = models_of_owner(before, owner);
        let named = json::text_in(json::field(models.last(), "owned_by"@)) == Some(owner);
        assert(models =~= before.push(models.last()));
        if named {
            assert(models_of_owner(models, owner) == rest.push(models.last()));
            if rest.contains(m) {
                let i = choose|i: int| 0 <= i < rest.len() && rest[i] == m;
                assert(rest.push(models.last())[i] == m);
            }
            assert(rest.push(models.last())[rest.len() as int] == models.last());
        } else {
            assert(models_of_owner(models, owner) == rest);
        }
        if before.contains(m) {
            let i = choose|i: int| 0 <= i < before.len() && before[i] == m;
            assert(models[i] == m);
        }
    }
}

/// An account is listed with the number of models that are stored of it, their time and its error.
pub proof fn lemma_account_entry(c: CacheRow)
    ensures
        ({
            let v = account_entry(c);
            &&& json::field(v, "account_id"@) == Some(JsonView::Int(c.account_id as int))
            &&& json::field(v, "alias"@) == Some(JsonView::Text(c.alias@))
            &&& json::field(v, "updated_at"@) == Some(JsonView::Int(c.updated_at as int))
            &&& json::field(v, "error"@) == Some(json::text_or_null(json::some_string(c.error)))
            &&& json::field(v, "count"@) == Some(
                JsonView::Int( stored_models(c.models_json@).len() as int, ),
            )
        }),
{
    reveal_strlit("account_id");
    reveal_strlit("alias");
    reveal_strlit("updated_at");
    reveal_strlit("error");
    reveal_strlit("count");
    assert("account_id"@.len() == 10 && "alias"@.len() == 5 && "updated_at"@.len() == 10
        && "error"@.len() == 5 && "count"@.len() == 5);
    assert("account_id"@[0] != "updated_at"@[0]);
    assert("alias"@[0] != "error"@[0]);
    assert("alias"@[0] != "count"@[0]);
    assert("error"@[0] != "count"@[0]);
}

/// The models of one account after the other are merged in order: what one more account offers comes
/// after all that the others did, and never takes the place of theirs.
pub proof fn lemma_merged_in_order(
    results: Seq<Fetched>,
    f: Fetched,
    rows: Seq<CacheRow>,
    c: CacheRow,
)
    ensures
        merged_fetched(seq![]).models.len() == 0,
        merged_fetched(results).models.is_prefix_of(merged_fetched(results.push(f)).models),
        merged_rows(seq![]).models.len() == 0,
        merged_rows(rows).models.is_prefix_of(merged_rows(rows.push(c)).models),
{
    assert(results.push(f).drop_last() =~= results);
    assert(rows.push(c).drop_last() =~= rows);
    lemma_offers_grow(merged_fetched(results), f.alias@, json::elements_view(f.models@), true);
    lemma_offers_grow(merged_rows(rows), c.alias@, stored_models(c.models_json@), false);
}

proof fn lemma_offers_grow(m: MergeView, owner: Seq<char>, models: Seq<JsonView>, note_owner: bool)
    ensures
        m.models.is_prefix_of(offered_all(m, owner, models, note_owner).models),
    decreases models.len(),
{
    if models.len() > 0 {
        lemma_offers_grow(m, owner, models.drop_last(), note_owner);
        let before = offered_all(m, owner, models.drop_last(), note_owner);
        let after = offered_all(m, owner, models, note_owner);
        assert(before.models.is_prefix_of(after.models)) by {
            if after.models != before.models {
                assert(after.models.subrange(0, before.models.len() as int) =~= before.models);
            }
        }
        assert(m.models =~= before.models.subrange(0, m.models.len() as int));
        assert(after.models.subrange(0, m.models.len() as int) =~= m.models);
    } else {
        assert(m.models.subrange(0, m.models.len() as int) =~= m.models);
    }
}

/// Every model that an account offers is noted under its owner and id.
pub proof fn lemma_every_offer_is_seen(
    m: MergeView,
    owner: Seq<char>,
    models: Seq<JsonView>,
    note_owner: bool,
    i: int,
)
    requires
        0 <= i < models.len(),
    ensures
        offered_all(m, owner, models, note_owner).seen.contains(
            owner + ":"@ + plain_id(models[i]),
        ),
    decreases models.len(),
{
    let before = offered_all(m, owner, models.drop_last(), note_owner);
    let key = owner + ":"@ + plain_id(models[i]);
    let after = offered_all(m, owner, models, note_owner);
    if i < models.len() - 1 {
        lemma_every_offer_is_seen(m, owner, models.drop_last(), note_owner, i);
        assert(models.drop_last()[i] == models[i]);
        let k = choose|k: int| 0 <= k < before.seen.len() && before.seen[k] == key;
        assert(after.seen[k] == key);
    } else {
        assert(models.last() == models[i]);
        lemma_new_offer_comes_last(
            before,
            key,
            if note_owner {
                owned(models.last(), owner)
            } else {
                models.last()
            },
        );
    }
}

/// No key is listed twice, and there is a model for each.
pub proof fn lemma_offers_are_unique(m: MergeView, key: Seq<char>, model: JsonView)
    requires
        m.seen.no_duplicates(),
        m.seen.len() == m.models.len(),
    ensures
        offered(m, key, model).seen.no_duplicates(),
        offered(m, key, model).seen.len() == offered(m, key, model).models.len(),
{
}

/// Models that aliases stand for come after all that accounts offer. Without accounts there are none.
pub proof fn lemma_custom_models_come_last(
    results: Seq<Fetched>,
    customs: Seq<(String, String)>,
)
    ensures
        results.len() == 0 ==> fetched_models(results, customs).len() == 0,
        results.len() > 0 ==> merged_fetched(results).models.is_prefix_of(
            fetched_models(results, customs),
        ),
        results.len() > 0 ==> fetched_models(results, seq![]) == merged_fetched(results).models,
{
    if results.len() > 0 {
        lemma_customs_grow(merged_fetched(results), customs);
    }
}

proof fn lemma_customs_grow(m: MergeView, customs: Seq<(String, String)>)
    ensures
        m.models.is_prefix_of(with_customs(m, customs).models),
    decreases customs.len(),
{
    if customs.len() > 0 {
        lemma_customs_grow(m, customs.drop_last());
        let before = with_customs(m, customs.drop_last());
        let after = with_customs(m, customs);
        assert(m.models =~= before.models.subrange(0, m.models.len() as int));
        assert(after.models.subrange(0, m.models.len() as int) =~= m.models);
    } else {
        assert(m.models.subrange(0, m.models.len() as int) =~= m.models);
    }
}

/// What is stored of an account's models is read where it is a list; all else is no models.
pub proof fn lemma_stored_models(text: Seq<char>, models: Seq<JsonView>)
    ensures
        json::parsed(text) == Some(JsonView::Array(models)) && text.len() > 0 && text[0] == '['
            ==> stored_models(text) == models,
        json::parsed(text) is None ==> stored_models(text).len() == 0,
        json::parsed(text) is Some && !(json::parsed(text)->0 is Array) ==> stored_models(text).len()
            == 0,
{
}

/// What stands in for the models of an account, and a model that an alias stands for, have the form of
/// all models.
pub proof fn lemma_made_up_models(
    alias: Seq<char>,
    error: Option<Seq<char>>,
    model: Seq<char>,
    provider: Seq<char>,
)
    requires
        model.len() > 0,
    ensures
        ({
            let v = placeholder_view(alias, error);
            &&& json::field(v, "id"@) == Some(JsonView::Text(alias + "-models-unavailable"@))
            &&& json::field(v, "name"@) == Some(JsonView::Text(alias))
            &&& json::field(v, "object"@) == Some(JsonView::Text("model"@))
            &&& json::field(v, "created"@) == Some(JsonView::Int(0))
        }),
        ({
            let none = MergeView { seen: seq![], models: seq![] };
            let v = with_custom(none, model, provider).models[0];
            &&& json::field(v, "id"@) == Some(JsonView::Text(model))
            &&& json::field(v, "object"@) == Some(JsonView::Text("model"@))
            &&& json::field(v, "created"@) == Some(JsonView::Int(0))
            &&& json::field(v, "owned_by"@) == Some(JsonView::Text(custom_owner(provider)))
        }),
{
    reveal_strlit("id");
    reveal_strlit("name");
    reveal_strlit("object");
    reveal_strlit("created");
    reveal_strlit("owned_by");
    reveal_strlit("error");
    assert("id"@.len() == 2 && "name"@.len() == 4 && "object"@.len() == 6 && "created"@.len() == 7
        && "owned_by"@.len() == 8 && "error"@.len() == 5);
}

} // verus!
