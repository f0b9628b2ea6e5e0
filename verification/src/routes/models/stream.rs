//! The list of models as a stream of events: what is stored first, then each account as it answers.

use vstd::prelude::*;
use crate::json::{self, Json, JsonView};
use crate::routes::models::available::{self, CacheRow, MODELS_TTL};
use crate::text;

verus! {

broadcast use crate::json::lemma_elements_view;

/// Whether a text names an account in a list of accounts.
pub open spec fn names_account(list: Seq<char>, id: i64) -> bool {
    exists|i: int|
        0 <= i < text::pieces(list, ',').len() && text::integer(
            text::trimmed(#[trigger] text::pieces(list, ',')[i]),
        ) == Some(id as int)
}

/// Whether an account is asked for: every one, unless the list names some.
pub open spec fn asked_for(list: Option<Seq<char>>, id: i64) -> bool {
    match list {
        Some(s) => names_account(s, id) || forall|other: i64| !#[trigger] names_account(s, other),
        None => true,
    }
}

/// Reads the list of accounts that are asked for; nothing where it names none.
pub fn account_filter(list: Option<&str>) -> (r: Option<Vec<i64>>)
    ensures
        match r {
            Some(ids) => list is Some && ids@.len() > 0 && forall|id: i64| #[trigger]
                ids@.contains(id) <==> names_account(list->0@, id),
            None => list is None || forall|id: i64| !#[trigger] names_account(list->0@, id),
        },
{
    let list = match list {
        Some(s) => s,
        None => {
            return None;
        },
    };
    let parts = text::split(list, ',');
    let ghost all = text::texts(parts@);
    let mut ids: Vec<i64> = Vec::new();
    let mut i: usize = 0;
    while i < parts.len()
        invariant
            i <= parts@.len(),
            all == text::texts(parts@),
            all == text::pieces(list@, ','),
            forall|id: i64| #[trigger]
                ids@.contains(id) <==> exists|k: int|
                    0 <= k < i && text::integer(text::trimmed(#[trigger] all[k])) == Some(
                        id as int,
                    ),
        decreases parts@.len() - i,
    {
        let ghost before = ids@;
        assert(all[i as int] == parts@[i as int]@);
        match text::parse_i64(text::trim(parts[i].as_str()).as_str()) {
            Some(n) => {
                ids.push(n);
                proof {
                    let now = ids@;
                    assert(now[before.len() as int] == n);
                    assert forall|id: i64| #[trigger] now.contains(id) <==> exists|k: int|
                        0 <= k < i + 1 && text::integer(text::trimmed(#[trigger] all[k])) == Some(
                            id as int,
                        ) by {
                        if now.contains(id) {
                            let k = choose|k: int| 0 <= k < now.len() && now[k] == id;
                            if k < before.len() {
                                assert(before[k] == id);
                                assert(before.contains(id));
                            } else {
                                assert(text::integer(text::trimmed(all[i as int])) == Some(
                                    id as int,
                                ));
                            }
                        }
                        if before.contains(id) {
                            let k = choose|k: int| 0 <= k < before.len() && before[k] == id;
                            assert(now[k] == id);
                        }
                    }
                }
            },
            None => {
                proof {
                    assert forall|id: i64| #[trigger] before.contains(id) <==> exists|k: int|
                        0 <= k < i + 1 && text::integer(text::trimmed(#[trigger] all[k])) == Some(
                            id as int,
                        ) by {}
                }
            },
        }
        i = i + 1;
    }
    if ids.len() == 0 {
        assert forall|id: i64| !#[trigger] names_account(list@, id) by {
            assert(!ids@.contains(id));
        }
        None
    } else {
        Some(ids)
    }
}

fn contains_id(ids: &Vec<i64>, id: i64) -> (r: bool)
    ensures
        r == ids@.contains(id),
{
    let mut i: usize = 0;
    while i < ids.len()
        invariant
            i <= ids@.len(),
            forall|k: int| 0 <= k < i ==> #[trigger] ids@[k] != id,
        decreases ids@.len() - i,
    {
        if ids[i] == id {
            assert(ids@[i as int] == id);
            return true;
        }
        i = i + 1;
    }
    false
}

/// Whether a filter lets an account through.
pub open spec fn lets_through(filter: Option<Vec<i64>>, id: i64) -> bool {
    match filter {
        Some(ids) => ids@.contains(id),
        None => true,
    }
}

fn is_asked_for(filter: &Option<Vec<i64>>, id: i64) -> (r: bool)
    ensures
        r == lets_through(*filter, id),
{
    match filter {
        Some(ids) => contains_id(ids, id),
        None => true,
    }
}

/// When the models of an account were stored: the last time that is noted of it, or zero.
pub open spec fn stored_at(times: Seq<(i64, i64)>, id: i64) -> int
    decreases times.len(),
{
    if times.len() == 0 {
        0
    } else if times.last().0 == id {
        times.last().1 as int
    } else {
        stored_at(times.drop_last(), id)
    }
}

fn find_stored_at(times: &Vec<(i64, i64)>, id: i64) -> (r: i64)
    ensures
        r == stored_at(times@, id),
{
    let mut i: usize = times.len();
    assert(times@.take(i as int) =~= times@);
    while i > 0
        invariant
            i <= times@.len(),
            stored_at(times@, id) == stored_at(times@.take(i as int), id),
        decreases i,
    {
        i = i - 1;
        assert(times@.take(i + 1).drop_last() =~= times@.take(i as int));
        assert(times@.take(i + 1).last() == times@[i as int]);
        if times[i].0 == id {
            return times[i].1;
        }
    }
    0
}

/// The accounts that are asked for their models: those that the list names, and, unless all are
/// forced, only those whose stored models are missing or no longer fresh.
pub open spec fn targets(
    ids: Seq<i64>,
    list: Option<Seq<char>>,
    force: bool,
    times: Seq<(i64, i64)>,
    now: i64,
) -> Seq<i64> {
    ids.filter(|id: i64| asked_for(list, id) && (force || now - stored_at(times, id) >= MODELS_TTL))
}

/// Which accounts are asked for their models. `ids` are the active accounts; `times` says when the
/// models of an account were stored. Where nothing is to be refreshed, the event that ends the
/// stream.
pub fn stream_available_models(
    list: Option<&str>,
    force: bool,
    ids: &Vec<i64>,
    times: &Vec<(i64, i64)>,
    now: i64,
) -> (r: Result<Vec<i64>, String>)
    requires
        !force ==> forall|i: int|
            0 <= i < ids@.len() && asked_for(json::some_text(list), #[trigger] ids@[i])
                ==> i64::MIN <= now - stored_at(times@, ids@[i]) <= i64::MAX,
    ensures
        ({
            let chosen = targets(ids@, json::some_text(list), force, times@, now);
            match r {
                Ok(v) => v@ == chosen && (force || chosen.len() > 0),
                Err(e) => !force && chosen.len() == 0 && e@ == event_text(
                    "done"@,
                    JsonView::Object(
                        map!["total"@ => JsonView::Int(0), "skipped"@ => JsonView::Bool(true)],
                    ),
                ),
            }
        }),
{
    let filter = account_filter(list);
    let ghost keep = |id: i64|
        asked_for(json::some_text(list), id) && (force || now - stored_at(times@, id)
            >= MODELS_TTL);
    proof {
        assert forall|id: i64|
            asked_for(json::some_text(list), id) == #[trigger] lets_through(filter, id) by {
            if filter is Some {
                let wanted = filter->0@;
                assert(wanted.contains(wanted[0]));
                assert(names_account(list->0@, wanted[0]));
                assert(wanted.contains(id) == names_account(list->0@, id));
            }
        }
    }
    let mut out: Vec<i64> = Vec::new();
    let mut i: usize = 0;
    assert(ids@.take(0).filter(keep) =~= Seq::<i64>::empty()) by {
        reveal(Seq::filter);
    }
    while i < ids.len()
        invariant
            i <= ids@.len(),
            out@ == ids@.take(i as int).filter(keep),
            keep == (|id: i64|
                asked_for(json::some_text(list), id) && (force || now - stored_at(times@, id)
                    >= MODELS_TTL)),
            forall|id: i64|
                asked_for(json::some_text(list), id) == #[trigger] lets_through(filter, id),
            !force ==> forall|k: int|
                0 <= k < ids@.len() && asked_for(json::some_text(list), #[trigger] ids@[k])
                    ==> i64::MIN <= now - stored_at(times@, ids@[k]) <= i64::MAX,
        decreases ids@.len() - i,
    {
        let id: i64 = ids[i];
        let ghost part = ids@.take(i + 1);
        assert(part.drop_last() =~= ids@.take(i as int));
        assert(part.last() == id);
        assert(asked_for(json::some_text(list), id) == lets_through(filter, id));
        if is_asked_for(&filter, id) && (force || now - find_stored_at(times, id) >= MODELS_TTL) {
            out.push(id);
            assert(keep(id));
        } else {
            assert(!keep(id));
        }
        assert(out@ =~= part.filter(keep)) by {
            reveal(Seq::filter);
        }
        i = i + 1;
    }
    assert(ids@.take(i as int) =~= ids@);
    if !force && out.len() == 0 {
        Err(
            write_event(
                "done",
                &Json::object().with("total", Json::Unsigned(0)).with("skipped", Json::Bool(true)),
            ),
        )
    } else {
        Ok(out)
    }
}

/// Whether what is stored is stale as a whole: there is nothing, or something is no longer fresh.
pub fn is_stale(rows: &Vec<CacheRow>, now: i64) -> (r: bool)
    requires
        available::ages_known(rows@, now),
    ensures
        r == (rows@.len() == 0 || available::some_stale(rows@, now)),
{
    if rows.len() == 0 {
        return true;
    }
    let mut i: usize = 0;
    while i < rows.len()
        invariant
            i <= rows@.len(),
            available::ages_known(rows@, now),
            !available::some_stale(rows@.take(i as int), now),
        decreases rows@.len() - i,
    {
        proof {
            available::lemma_stale_step(rows@, i as int, now);
        }
        if now - rows[i].updated_at >= MODELS_TTL {
            return true;
        }
        i = i + 1;
    }
    assert(rows@.take(i as int) =~= rows@);
    false
}

/// An event of the stream.
pub open spec fn event_text(name: Seq<char>, data: JsonView) -> Seq<char> {
    "event: "@ + name + "\ndata: "@ + json::rendered(data) + "\n\n"@
}

/// Writes an event of the stream.
pub fn write_event(name: &str, data: &Json) -> (r: String)
    ensures
        r@ == event_text(name@, data@),
{
    "event: ".to_owned().concat(name).concat("\ndata: ").concat(
        json::render(data).as_str(),
    ).concat("\n\n")
}

/// The newest time at which models were stored; zero where there are none.
pub open spec fn latest(rows: Seq<CacheRow>) -> int
    decreases rows.len(),
{
    if rows.len() == 0 {
        0
    } else if rows.len() == 1 || rows.last().updated_at > latest(rows.drop_last()) {
        rows.last().updated_at as int
    } else {
        latest(rows.drop_last())
    }
}

fn find_latest(rows: &Vec<CacheRow>) -> (r: i64)
    ensures
        r == latest(rows@),
{
    if rows.len() == 0 {
        return 0;
    }
    let mut t: i64 = rows[0].updated_at;
    let mut i: usize = 1;
    assert(rows@.take(1).last() == rows@[0]);
    while i < rows.len()
        invariant
            1 <= i <= rows@.len(),
            t == latest(rows@.take(i as int)),
        decreases rows@.len() - i,
    {
        assert(rows@.take(i + 1).drop_last() =~= rows@.take(i as int));
        if rows[i].updated_at > t {
            t = rows[i].updated_at;
        }
        i = i + 1;
    }
    assert(rows@.take(i as int) =~= rows@);
    t
}

/// The event that the stream begins with: all that is stored.
pub fn snapshot_event(rows: &Vec<CacheRow>, customs: &Vec<(String, String)>, now: i64) -> (r: String)
    requires
        available::ages_known(rows@, now),
    ensures
        r@ == event_text(
            "snapshot"@,
            JsonView::Object(
                map![
                    "data"@ => JsonView::Array(
                        available::with_customs(available::merged_rows(rows@), customs@).models,
                    ),
                    "per_account"@ => JsonView::Array(
                        rows@.map_values(|c: CacheRow| available::account_entry(c)),
                    ),
                    "cached_at"@ => JsonView::Int(latest(rows@)),
                    "stale"@ => JsonView::Bool(
                        rows@.len() == 0 || available::some_stale(rows@, now),
                    ),
                ],
            ),
        ),
{
    let snapshot = available::load_snapshot(rows, customs, now);
    let payload = Json::object().with("data", Json::Array(snapshot.data)).with(
        "per_account",
        Json::Array(snapshot.per_account),
    ).with("cached_at", Json::Signed(find_latest(rows))).with(
        "stale",
        Json::Bool(is_stale(rows, now)),
    );
    write_event("snapshot", &payload)
}

/// The events that end the stream where the accounts could not be listed.
pub fn failed_events(error: &str) -> (r: String)
    ensures
        r@ == event_text("error"@, JsonView::Object(map!["error"@ => JsonView::Text(error@)]))
            + "event: done\ndata: {\"total\":0}\n\n"@,
{
    write_event("error", &Json::object().with("error", Json::text(error))).concat(
        "event: done\ndata: {\"total\":0}\n\n",
    )
}

/// The event that ends the stream once every account answered.
pub fn done_event() -> (r: String)
    ensures
        r@ == "event: done\ndata: {\"total\":1}\n\n"@,
{
    "event: done\ndata: {\"total\":1}\n\n".to_owned()
}

/// What is reported of an account once it answered: its models, or a placeholder for them.
pub open spec fn account_models(alias: Seq<char>, models: Seq<JsonView>, error: Option<Seq<char>>) -> Seq<
    JsonView,
> {
    if models.len() == 0 {
        seq![available::placeholder_view(alias, error)]
    } else {
        models.map_values(|m: JsonView| available::owned(m, alias))
    }
}

/// What is reported and stored of an account once it answered.
pub fn reported_models(alias: &str, models: &Vec<Json>, error: &Option<String>) -> (r: Json)
    ensures
        r@ == JsonView::Array(
            account_models(alias@, json::elements_view(models@), json::some_string(*error)),
        ),
{
    let mut out: Vec<Json> = Vec::new();
    if models.len() == 0 {
        out.push(available::placeholder(alias, error));
    } else {
        let mut i: usize = 0;
        while i < models.len()
            invariant
                i == out@.len(),
                i <= models@.len(),
                forall|k: int|
                    0 <= k < i ==> #[trigger] json::json_view(out@[k]) == available::owned(
                        json::json_view(models@[k]),
                        alias@,
                    ),
            decreases models@.len() - i,
        {
            out.push(available::set_owner(&models[i], alias));
            i = i + 1;
        }
    }
    assert(json::elements_view(out@) =~= account_models(
        alias@,
        json::elements_view(models@),
        json::some_string(*error),
    ));
    Json::Array(out)
}

/// The event that reports an account.
pub fn account_event(
    account_id: i64,
    alias: &str,
    models: Json,
    error: &Option<String>,
    now: i64,
) -> (r: String)
    ensures
        r@ == event_text(
            "account"@,
            JsonView::Object(
                map![
                    "account_id"@ => JsonView::Int(account_id as int),
                    "alias"@ => JsonView::Text(alias@),
                    "models"@ => models@,
                    "error"@ => json::text_or_null(json::some_string(*error)),
                    "updated_at"@ => JsonView::Int(now as int),
                ],
            ),
        ),
{
    let frame = Json::object().with("account_id", Json::Signed(account_id)).with(
        "alias",
        Json::text(alias),
    ).with("models", models).with("error", json::optional_text(error)).with(
        "updated_at",
        Json::Signed(now),
    );
    write_event("account", &frame)
}

/// The text that the models of an account are stored as. Read again, it lists the same models, where
/// these are read back from their notation.
pub fn stored_text(models: &Json) -> (r: String)
    ensures
        r@ == json::rendered(models@),
        models@ is Array && json::reads_back(models@) ==> available::stored_models(r@)
            == models@->Array_0,
{
    json::render(models)
}

/// All accounts are asked where no list is given, and where the list names none; else exactly those
/// that it names.
pub proof fn lemma_who_is_asked(list: Seq<char>, id: i64, other: i64)
    ensures
        asked_for(None, id),
        names_account(list, other) ==> (asked_for(Some(list), id) <==> names_account(list, id)),
{
    if names_account(list, other) && asked_for(Some(list), id) && !names_account(list, id) {
        let none = forall|o: i64| !#[trigger] names_account(list, o);
        assert(none);
        assert(names_account(list, other));
        assert(false);
    }
}

/// The time that is found for an account is the last one that is noted for it.
pub proof fn lemma_stored_at(times: Seq<(i64, i64)>, i: int, id: i64)
    ensures
        0 <= i < times.len() && times[i].0 == id && (forall|j: int|
            i < j < times.len() ==> (#[trigger] times[j]).0 != id) ==> stored_at(times, id)
            == times[i].1,
        (forall|j: int| 0 <= j < times.len() ==> (#[trigger] times[j]).0 != id) ==> stored_at(
            times,
            id,
        ) == 0,
    decreases times.len(),
{
    if times.len() > 0 {
        let before = times.drop_last();
        lemma_stored_at(before, i, id);
        assert(times.last() == times[times.len() - 1]);
        if times.last().0 != id {
            assert(forall|j: int| 0 <= j < before.len() ==> before[j] == times[j]);
        }
    }
}

/// An account is asked again exactly where it is among those that are asked for and what is stored of
/// it is a day old; by force, whatever its age.
pub proof fn lemma_targets(
    ids: Seq<i64>,
    list: Option<Seq<char>>,
    force: bool,
    times: Seq<(i64, i64)>,
    now: i64,
    id: i64,
)
    ensures
        targets(ids, list, force, times, now).contains(id) <==> ids.contains(id) && asked_for(list, id)
            && (force || now - stored_at(times, id) >= 24 * 60 * 60),
    decreases ids.len(),
{
    reveal(Seq::filter);
    if ids.len() > 0 {
        let before = ids.drop_last();
        lemma_targets(before, list, force, times, now, id);
        let rest = targets(before, list, force, times, now);
        let all = targets(ids, list, force, times, now);
        assert(ids =~= before.push(ids.last()));
        if asked_for(list, ids.last()) && (force || now - stored_at(times, ids.last()) >= MODELS_TTL) {
            assert(all == rest.push(ids.last()));
            if rest.contains(id) {
                let i = choose|i: int| 0 <= i < rest.len() && rest[i] == id;
                assert(all[i] == id);
            }
            assert(all[rest.len() as int] == ids.last());
        } else {
            assert(all == rest);
        }
        if before.contains(id) {
            let i = choose|i: int| 0 <= i < before.len() && before[i] == id;
            assert(ids[i] == id);
        }
    }
}

/// The snapshot is as old as the newest of its rows, and without rows as old as can be.
pub proof fn lemma_latest(rows: Seq<CacheRow>)
    requires
        rows.len() > 0,
    ensures
        latest(seq![]) == 0,
        forall|i: int| 0 <= i < rows.len() ==> latest(rows) >= (#[trigger] rows[i]).updated_at,
        exists|i: int| 0 <= i < rows.len() && latest(rows) == (#[trigger] rows[i]).updated_at,
    decreases rows.len(),
{
    let before = rows.drop_last();
    assert(rows.last() == rows[rows.len() - 1]);
    if before.len() > 0 {
        lemma_latest(before);
        assert forall|i: int| 0 <= i < rows.len() implies latest(rows) >= (
        #[trigger] rows[i]).updated_at by {
            if i < before.len() {
                assert(before[i] == rows[i]);
            }
        }
        if latest(rows) != rows.last().updated_at {
            let i = choose|i: int|
                0 <= i < before.len() && latest(before) == (#[trigger] before[i]).updated_at;
            assert(rows[i] == before[i]);
        }
    }
}

/// What is reported of an account is each of its models, in order and as its own; of one without
/// models, that it has none.
pub proof fn lemma_account_models(
    alias: Seq<char>,
    models: Seq<JsonView>,
    error: Option<Seq<char>>,
    i: int,
)
    ensures
        models.len() > 0 ==> account_models(alias, models, error).len() == models.len(),
        0 <= i < models.len() && models[i] is Object ==> json::field(
            account_models(alias, models, error)[i],
            "owned_by"@,
        ) == Some(JsonView::Text(alias)),
        0 <= i < models.len() ==> json::field(account_models(alias, models, error)[i], "id"@)
            == json::field(models[i], "id"@),
        models.len() == 0 ==> account_models(alias, models, error).len() == 1,
{
    reveal_strlit("id");
    reveal_strlit("owned_by");
    assert("id"@.len() != "owned_by"@.len());
}

} // verus!
