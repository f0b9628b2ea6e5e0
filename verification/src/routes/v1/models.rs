//! The list of models that the gateway serves.

use vstd::prelude::*;
use crate::error::Reply;
use crate::json::{self, Json, JsonView};
use crate::middleware;
use crate::routes::models::available::ModelsCache;
use crate::routes::v1::aggregate::{self, AggregateCandidate};
use crate::text;

verus! {

broadcast use crate::json::lemma_elements_view;

/// A letter of the Latin alphabet in lowercase; any other character as it is.
pub open spec fn ascii_lower(c: char) -> char {
    if 'A' <= c && c <= 'Z' {
        (c as int + 32) as char
    } else {
        c
    }
}

/// A text with the letters of the Latin alphabet in lowercase.
pub open spec fn ascii_lowered(s: Seq<char>) -> Seq<char> {
    s.map_values(|c: char| ascii_lower(c))
}

fn lower_char(c: char) -> (r: char)
    ensures
        r == ascii_lower(c),
{
    if 'A' <= c && c <= 'Z' {
        (c as u8 + 32) as char
    } else {
        c
    }
}

/// A text with the letters of the Latin alphabet in lowercase.
pub fn lower_ascii(s: &str) -> (r: String)
    ensures
        r@ == ascii_lowered(s@),
{
    let chars = text::chars_of(s);
    let mut out: Vec<char> = Vec::new();
    let mut i: usize = 0;
    while i < chars.len()
        invariant
            i == out@.len(),
            i <= chars@.len(),
            forall|k: int| 0 <= k < i ==> #[trigger] out@[k] == ascii_lower(chars@[k]),
        decreases chars@.len() - i,
    {
        out.push(lower_char(chars[i]));
        i = i + 1;
    }
    assert(out@ =~= ascii_lowered(s@));
    let len: usize = out.len();
    assert(out@.subrange(0, len as int) =~= out@);
    text::text_of(&out, 0, len)
}

/// Whether a name passes the filter of clients that only take the models of one family: it holds the
/// name of the family or of its vendor, in whatever letters.
pub open spec fn passes_filter(family: Seq<char>, name: Seq<char>) -> bool {
    text::occurs(ascii_lowered(name), family) || text::occurs(ascii_lowered(name), "anthropic"@)
}

/// The id that an alias is advertised under to such clients.
pub open spec fn advertised(family: Seq<char>, alias: Seq<char>) -> Seq<char> {
    if passes_filter(family, alias) {
        alias
    } else {
        family + "-"@ + alias
    }
}

/// Every advertised id passes the filter, and the alias is found in it again.
pub proof fn lemma_advertised_passes(family: Seq<char>, alias: Seq<char>)
    requires
        ascii_lowered(family) == family,
    ensures
        passes_filter(family, advertised(family, alias)),
        advertised(family, alias) == alias || text::after_prefix(
            advertised(family, alias),
            family + "-"@,
        ) == Some(alias),
{
    if !passes_filter(family, alias) {
        let id = advertised(family, alias);
        let n = family.len() as int;
        assert(ascii_lowered(id).subrange(0, n) =~= ascii_lowered(family));
        assert(text::occurs_at(ascii_lowered(id), family, 0));
        let prefix = family + "-"@;
        let m = prefix.len() as int;
        assert(id.subrange(0, m) =~= prefix);
        assert(id.skip(m) =~= alias);
        assert(id.subrange(m, id.len() as int) =~= alias);
    }
}

/// The id that an alias is advertised under to clients that only take the models of one family. It
/// always passes their filter, if the name of the family is in lowercase.
pub fn advertised_id(family: &str, alias: &str) -> (r: String)
    ensures
        r@ == advertised(family@, alias@),
        ascii_lowered(family@) == family@ ==> passes_filter(family@, r@),
{
    let lower = lower_ascii(alias);
    if text::contains(lower.as_str(), family) || text::contains(lower.as_str(), "anthropic") {
        alias.to_owned()
    } else {
        proof {
            if ascii_lowered(family@) == family@ {
                lemma_advertised_passes(family@, alias@);
            }
        }
        family.to_owned().concat("-").concat(alias)
    }
}

/// The model that an aggregate alias stands for: that of its active candidate, or of its last one
/// where there are not that many; empty where it has none.
pub open spec fn active_model(candidates: Seq<AggregateCandidate>, active: nat) -> Seq<char> {
    if candidates.len() == 0 {
        seq![]
    } else if active < candidates.len() {
        candidates[active as int].model@
    } else {
        candidates.last().model@
    }
}

/// The model that an aggregate alias stands for.
pub fn aggregate_target(candidates: &Vec<AggregateCandidate>, active: usize) -> (r: String)
    ensures
        r@ == active_model(candidates@, active as nat),
{
    if candidates.len() == 0 {
        let none = String::new();
        assert(none@ =~= seq![]);
        return none;
    }
    let at: usize = aggregate::begin_at(active, candidates.len());
    candidates[at].model.clone()
}

/// The context length that the first model of a list with an id reports, if one does.
pub open spec fn cached_context(models: Seq<JsonView>, id: Seq<char>) -> Option<u64>
    decreases models.len(),
{
    if models.len() == 0 {
        None
    } else {
        let m = models[0];
        let own = json::u64_in(json::field(m, "context_length"@));
        if json::text_in(json::field(m, "id"@)) == Some(id) && own is Some {
            own
        } else {
            cached_context(models.drop_first(), id)
        }
    }
}

fn find_context(models: &Vec<Json>, id: &str) -> (r: Option<u64>)
    ensures
        r == cached_context(json::elements_view(models@), id@),
{
    let ghost all = json::elements_view(models@);
    let mut i: usize = 0;
    assert(all.skip(0) =~= all);
    while i < models.len()
        invariant
            i <= models@.len(),
            all == json::elements_view(models@),
            all.len() == models@.len(),
            cached_context(all, id@) == cached_context(all.skip(i as int), id@),
        decreases models@.len() - i,
    {
        assert(all.skip(i as int)[0] == json::json_view(models@[i as int]));
        assert(all.skip(i as int).drop_first() =~= all.skip(i + 1));
        let m = &models[i];
        let same_id = match m.str_at("id") {
            Some(s) => text::same(s, id),
            None => false,
        };
        if same_id {
            if let Some(c) = m.get("context_length") {
                if let Some(n) = c.as_u64() {
                    return Some(n);
                }
            }
        }
        i = i + 1;
    }
    None
}

/// The larger of two context lengths, where both are known.
pub open spec fn larger(a: Option<u64>, b: Option<u64>) -> Option<u64> {
    match (a, b) {
        (Some(x), Some(y)) => Some(
            if x > y {
                x
            } else {
                y
            },
        ),
        (Some(x), None) => Some(x),
        (None, y) => y,
    }
}

/// The context length of the model that an alias stands for: what its upstream reported or what is
/// known of it, whichever is larger.
pub open spec fn alias_context(
    target: Option<Seq<char>>,
    cached: Option<Seq<JsonView>>,
    known: Option<u64>,
) -> Option<u64> {
    match target {
        Some(t) => if t.len() == 0 {
            None
        } else {
            larger(
                match cached {
                    Some(models) => cached_context(models, t),
                    None => None,
                },
                known,
            )
        },
        None => None,
    }
}

/// The cached models, if there are any.
pub open spec fn cached_models(cache: Option<ModelsCache>) -> Option<Seq<JsonView>> {
    match cache {
        Some(c) => Some(json::elements_view(c.data@)),
        None => None,
    }
}

/// The context length of the model that an alias stands for. `known` is what is known of that model.
pub fn resolve_alias_context(
    target_model: Option<&str>,
    cache: &Option<ModelsCache>,
    known: Option<u64>,
) -> (r: Option<u64>)
    ensures
        r == alias_context(json::some_text(target_model), cached_models(*cache), known),
{
    let target = match target_model {
        Some(t) => t,
        None => {
            return None;
        },
    };
    if target.is_empty() {
        return None;
    }
    let upstream = match cache {
        Some(c) => find_context(&c.data, target),
        None => None,
    };
    match (upstream, known) {
        (Some(u), Some(t)) => Some(
            if u > t {
                u
            } else {
                t
            },
        ),
        (Some(u), None) => Some(u),
        (None, t) => t,
    }
}

/// An alias that is listed: what it stands for, and the context length that is known of that.
pub struct ListedAlias {
    pub alias: String,
    pub target: Option<String>,
    pub known: Option<u64>,
}

/// The id that an alias is listed under.
pub open spec fn listed_id(a: ListedAlias, family: Option<Seq<char>>) -> JsonView {
    JsonView::Text(
        match family {
            Some(f) => advertised(f, a.alias@),
            None => a.alias@,
        },
    )
}

fn id_text(a: &ListedAlias, family: Option<&str>) -> (r: Json)
    ensures
        r@ == listed_id(*a, json::some_text(family)),
{
    match family {
        Some(f) => Json::Text(advertised_id(f, a.alias.as_str())),
        None => Json::text(a.alias.as_str()),
    }
}

/// The entry of an alias: both of the Anthropic and of the OpenAI schema.
pub open spec fn model_entry(
    a: ListedAlias,
    cached: Option<Seq<JsonView>>,
    family: Option<Seq<char>>,
    created_at: Seq<char>,
    created: u64,
) -> JsonView {
    let plain = map![
        "type"@ => JsonView::Text("model"@),
        "id"@ => listed_id(a, family),
        "display_name"@ => JsonView::Text(a.alias@),
        "created_at"@ => JsonView::Text(created_at),
        "object"@ => JsonView::Text("model"@),
        "created"@ => JsonView::Int(created as int),
        "owned_by"@ => JsonView::Text("llmux"@),
    ];
    JsonView::Object(
        match alias_context(json::some_string(a.target), cached, a.known) {
            Some(n) => plain.insert("context_length"@, JsonView::Int(n as int)),
            None => plain,
        },
    )
}

fn write_entry(
    a: &ListedAlias,
    cache: &Option<ModelsCache>,
    family: Option<&str>,
    created_at: &str,
    created: u64,
) -> (r: Json)
    ensures
        r@ == model_entry(*a, cached_models(*cache), json::some_text(family), created_at@, created),
{
    let plain = Json::object().with("type", Json::text("model")).with(
        "id",
        id_text(a, family),
    ).with("display_name", Json::text(a.alias.as_str())).with(
        "created_at",
        Json::text(created_at),
    ).with("object", Json::text("model")).with("created", Json::Unsigned(created)).with(
        "owned_by",
        Json::text("llmux"),
    );
    let target = match &a.target {
        Some(t) => Some(t.as_str()),
        None => None,
    };
    match resolve_alias_context(target, cache, a.known) {
        Some(n) => plain.with("context_length", Json::Unsigned(n)),
        None => plain,
    }
}

/// The list of models, with the ids of its first and last one.
pub open spec fn models_list(
    aliases: Seq<ListedAlias>,
    cached: Option<Seq<JsonView>>,
    family: Option<Seq<char>>,
    created_at: Seq<char>,
    created: u64,
) -> JsonView {
    JsonView::Object(
        map![
            "object"@ => JsonView::Text("list"@),
            "data"@ => JsonView::Array(
                aliases.map_values(
                    |a: ListedAlias| model_entry(a, cached, family, created_at, created),
                ),
            ),
            "has_more"@ => JsonView::Bool(false),
            "first_id"@ => if aliases.len() > 0 {
                listed_id(aliases[0], family)
            } else {
                JsonView::Null
            },
            "last_id"@ => if aliases.len() > 0 {
                listed_id(aliases.last(), family)
            } else {
                JsonView::Null
            },
        ],
    )
}

fn models_inner(
    aliases: &Vec<ListedAlias>,
    cache: &Option<ModelsCache>,
    family: Option<&str>,
    created_at: &str,
    created: u64,
) -> (r: Json)
    ensures
        r@ == models_list(aliases@, cached_models(*cache), json::some_text(family), created_at@, created),
{
    let mut data: Vec<Json> = Vec::new();
    let mut i: usize = 0;
    while i < aliases.len()
        invariant
            i == data@.len(),
            i <= aliases@.len(),
            forall|k: int|
                0 <= k < i ==> #[trigger] json::json_view(data@[k]) == model_entry(
                    aliases@[k],
                    cached_models(*cache),
                    json::some_text(family),
                    created_at@,
                    created,
                ),
        decreases aliases@.len() - i,
    {
        data.push(write_entry(&aliases[i], cache, family, created_at, created));
        i = i + 1;
    }
    assert(json::elements_view(data@) =~= aliases@.map_values(
        |a: ListedAlias| model_entry(a, cached_models(*cache), json::some_text(family), created_at@, created),
    ));
    let (first_id, last_id) = if aliases.len() > 0 {
        (id_text(&aliases[0], family), id_text(&aliases[aliases.len() - 1], family))
    } else {
        (Json::Null, Json::Null)
    };
    Json::object().with("object", Json::text("list")).with("data", Json::Array(data)).with(
        "has_more",
        Json::Bool(false),
    ).with("first_id", first_id).with("last_id", last_id)
}

/// The list of models, under their own names.
pub fn models(
    aliases: &Vec<ListedAlias>,
    cache: &Option<ModelsCache>,
    created_at: &str,
    created: u64,
) -> (r: Json)
    ensures
        r@ == models_list(aliases@, cached_models(*cache), None, created_at@, created),
{
    models_inner(aliases, cache, None, created_at, created)
}

/// The list of models for clients that only take the models of one family.
pub fn models_for_desktop(
    aliases: &Vec<ListedAlias>,
    cache: &Option<ModelsCache>,
    family: &str,
    created_at: &str,
    created: u64,
) -> (r: Json)
    ensures
        r@ == models_list(aliases@, cached_models(*cache), Some(family@), created_at@, created),
{
    models_inner(aliases, cache, Some(family), created_at, created)
}

/// The reply where the aliases could not be read.
pub fn models_failed(error: &str, has_x_api_key: bool, has_anthropic_version: bool) -> (r: Reply)
    ensures
        r@ == (
            500u16,
            middleware::dual_error(
                "Failed to load models: "@ + error@,
                "server_error"@,
                500,
                has_x_api_key || has_anthropic_version,
            ),
        ),
{
    let message = "Failed to load models: ".to_owned().concat(error);
    middleware::send_error(
        message.as_str(),
        "server_error",
        500,
        has_x_api_key || has_anthropic_version,
    )
}

/// Only the capital letters of ASCII are lowered, each to the letter of its place.
pub proof fn lemma_ascii_lower(c: char)
    ensures
        !('A' <= c && c <= 'Z') ==> ascii_lower(c) == c,
        'A' <= c && c <= 'Z' ==> 'a' <= ascii_lower(c) && ascii_lower(c) <= 'z' && ascii_lower(c)
            as int - 'a' as int == c as int - 'A' as int,
        ascii_lower(ascii_lower(c)) == ascii_lower(c),
{
}

/// An alias stands for its active candidate where there is one of that place, and for the last one
/// otherwise.
pub proof fn lemma_active_model(candidates: Seq<AggregateCandidate>, active: nat)
    ensures
        active < candidates.len() ==> active_model(candidates, active)
            == candidates[active as int].model@,
        active >= candidates.len() && candidates.len() > 0 ==> active_model(candidates, active)
            == candidates[candidates.len() - 1].model@,
        candidates.len() > 0 ==> active_model(candidates, active) == candidates[aggregate::first_candidate(
            active,
            candidates.len(),
        ) as int].model@,
{
}

/// The context length that is found for a model is the one that the first model of that id reports;
/// nothing is found where none of that id reports one.
pub proof fn lemma_cached_context(models: Seq<JsonView>, id: Seq<char>)
    ensures
        ({
            let says = |m: JsonView|
                if json::field(m, "id"@) == Some(JsonView::Text(id)) {
                    json::u64_in(json::field(m, "context_length"@))
                } else {
                    None
                };
            &&& cached_context(models, id) is None <==> forall|i: int|
                0 <= i < models.len() ==> says(#[trigger] models[i]) is None
            &&& cached_context(models, id) is Some ==> exists|i: int|
                0 <= i < models.len() && says(#[trigger] models[i]) == cached_context(models, id)
                    && forall|j: int| 0 <= j < i ==> says(#[trigger] models[j]) is None
        }),
    decreases models.len(),
{
    let says = |m: JsonView|
        if json::field(m, "id"@) == Some(JsonView::Text(id)) {
            json::u64_in(json::field(m, "context_length"@))
        } else {
            None
        };
    if models.len() > 0 {
        let rest = models.drop_first();
        lemma_cached_context(rest, id);
        if says(models[0]) is Some {
            assert(says(models[0]) == cached_context(models, id));
        } else {
            assert(cached_context(models, id) == cached_context(rest, id));
            if cached_context(rest, id) is Some {
                let i = choose|i: int|
                    0 <= i < rest.len() && says(#[trigger] rest[i]) == cached_context(rest, id)
                        && forall|j: int| 0 <= j < i ==> says(#[trigger] rest[j]) is None;
                assert(models[i + 1] == rest[i]);
                assert forall|j: int| 0 <= j < i + 1 implies says(#[trigger] models[j]) is None by {
                    if j > 0 {
                        assert(rest[j - 1] == models[j]);
                    }
                }
                assert(says(models[i + 1]) == cached_context(models, id));
            } else {
                assert forall|i: int| 0 <= i < models.len() implies says(#[trigger] models[i]) is None by {
                    if i > 0 {
                        assert(rest[i - 1] == models[i]);
                    }
                }
            }
        }
    }
}

/// Of what is found and what is known of a context length, the larger one holds; where only one is
/// there, that one.
pub proof fn lemma_larger(a: Option<u64>, b: Option<u64>)
    ensures
        larger(a, b) == larger(b, a),
        larger(a, b) is None <==> a is None && b is None,
        larger(a, b) is Some ==> larger(a, b) == a || larger(a, b) == b,
        a is Some ==> larger(a, b) is Some && larger(a, b)->0 >= a->0,
{
}

/// Nothing is known of the context length of an alias without a target. With one it is at least what
/// is known of the target.
pub proof fn lemma_alias_context(
    target: Seq<char>,
    cached: Option<Seq<JsonView>>,
    known: Option<u64>,
    n: u64,
)
    ensures
        alias_context(None, cached, known) is None,
        target.len() == 0 ==> alias_context(Some(target), cached, known) is None,
        target.len() > 0 ==> alias_context(Some(target), None, known) == known,
        target.len() > 0 && cached is Some && cached_context(cached->0, target) == Some(n)
            ==> alias_context(Some(target), cached, None) == Some(n),
        target.len() > 0 && known is Some ==> alias_context(Some(target), cached, known) is Some
            && alias_context(Some(target), cached, known)->0 >= known->0,
{
}

/// An alias is listed under its own name; with a family, under a name of that family.
pub proof fn lemma_listed_ids(a: ListedAlias, family: Seq<char>)
    ensures
        listed_id(a, None) == JsonView::Text(a.alias@),
        passes_filter(family, a.alias@) ==> listed_id(a, Some(family)) == JsonView::Text(a.alias@),
        !passes_filter(family, a.alias@) ==> listed_id(a, Some(family)) == JsonView::Text(
            family + "-"@ + a.alias@,
        ),
{
}

/// A model is listed under its id, with its alias as its name, the time that it is given, and its
/// context length where one is known.
pub proof fn lemma_model_entry(
    a: ListedAlias,
    cached: Option<Seq<JsonView>>,
    family: Option<Seq<char>>,
    created_at: Seq<char>,
    created: u64,
)
    ensures
        ({
            let v = model_entry(a, cached, family, created_at, created);
            let context = alias_context(json::some_string(a.target), cached, a.known);
            &&& json::field(v, "id"@) == Some(listed_id(a, family))
            &&& json::field(v, "display_name"@) == Some(JsonView::Text(a.alias@))
            &&& json::field(v, "created_at"@) == Some(JsonView::Text(created_at))
            &&& json::field(v, "created"@) == Some(JsonView::Int(created as int))
            &&& json::field(v, "type"@) == Some(JsonView::Text("model"@))
            &&& json::field(v, "object"@) == Some(JsonView::Text("model"@))
            &&& json::field(v, "owned_by"@) == Some(JsonView::Text("llmux"@))
            &&& json::field(v, "context_length"@) == (if context is Some {
                Some(JsonView::Int(context->0 as int))
            } else {
                None
            })
        }),
{
    reveal_strlit("type");
    reveal_strlit("id");
    reveal_strlit("display_name");
    reveal_strlit("created_at");
    reveal_strlit("object");
    reveal_strlit("created");
    reveal_strlit("owned_by");
    reveal_strlit("context_length");
    assert("type"@.len() == 4 && "id"@.len() == 2 && "display_name"@.len() == 12
        && "created_at"@.len() == 10 && "object"@.len() == 6 && "created"@.len() == 7
        && "owned_by"@.len() == 8 && "context_length"@.len() == 14);
}

/// The list has an entry for each alias, in order, all of them at once, and names the first and the
/// last of them.
pub proof fn lemma_models_list(
    aliases: Seq<ListedAlias>,
    cached: Option<Seq<JsonView>>,
    family: Option<Seq<char>>,
    created_at: Seq<char>,
    created: u64,
    i: int,
)
    ensures
        ({
            let v = models_list(aliases, cached, family, created_at, created);
            &&& json::field(v, "object"@) == Some(JsonView::Text("list"@))
            &&& json::field(v, "has_more"@) == Some(JsonView::Bool(false))
            &&& json::field(v, "data"@) matches Some(JsonView::Array(data)) && data.len()
                == aliases.len() && (0 <= i < aliases.len() ==> data[i] == model_entry(
                aliases[i],
                cached,
                family,
                created_at,
                created,
            ))
            &&& aliases.len() > 0 ==> json::field(v, "first_id"@) == Some(
                listed_id(aliases[0], family),
            ) && json::field(v, "last_id"@) == Some(listed_id(aliases[aliases.len() - 1], family))
            &&& aliases.len() == 0 ==> json::field(v, "first_id"@) == Some(JsonView::Null)
                && json::field(v, "last_id"@) == Some(JsonView::Null)
        }),
{
    reveal_strlit("object");
    reveal_strlit("data");
    reveal_strlit("has_more");
    reveal_strlit("first_id");
    reveal_strlit("last_id");
    assert("object"@.len() == 6 && "data"@.len() == 4 && "has_more"@.len() == 8
        && "first_id"@.len() == 8 && "last_id"@.len() == 7);
    assert("has_more"@[0] != "first_id"@[0]);
}

} // verus!
