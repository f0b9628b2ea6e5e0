//! The dashboard: everything it shows in one reply.

use vstd::prelude::*;
use crate::error::{self, Reply};
use crate::json::{self, Json, JsonView};
use crate::routes::accounts::AccountRow;

verus! {

/// A part of a reply that is put together from several reads, or why it could not be read.
pub type Part = Result<Json, String>;

/// The reply where a part could not be read.
pub open spec fn part_error(label: Seq<char>, error: Seq<char>) -> (u16, JsonView) {
    (500u16, error::plain_error(label + error))
}

/// The first of two errors.
pub open spec fn first_error(
    part: Part,
    label: Seq<char>,
    rest: Option<(u16, JsonView)>,
) -> Option<(u16, JsonView)> {
    match part {
        Err(e) => Some(part_error(label, e@)),
        Ok(_) => rest,
    }
}

/// The value of a part that was read.
pub open spec fn part_value(part: Part) -> JsonView {
    part->Ok_0@
}

/// The parts of the dashboard.
pub struct DashboardParts {
    pub accounts: Part,
    pub aliases: Part,
    pub aggregate_aliases: Part,
    pub health: Part,
    pub model_health: Part,
    pub activity: Part,
    pub keys_count: Part,
}

/// The error reply where a part of the dashboard could not be read: the first one, in the order in
/// which they are shown.
pub open spec fn dashboard_error(p: DashboardParts) -> Option<(u16, JsonView)> {
    first_error(
        p.accounts,
        "dashboard: accounts: "@,
        first_error(
            p.aliases,
            "dashboard: aliases: "@,
            first_error(
                p.aggregate_aliases,
                "dashboard: aggregateAliases: "@,
                first_error(
                    p.health,
                    "dashboard: health: "@,
                    first_error(
                        p.model_health,
                        "dashboard: modelHealth: "@,
                        first_error(
                            p.activity,
                            "dashboard: activity: "@,
                            first_error(p.keys_count, "dashboard: keys: "@, None),
                        ),
                    ),
                ),
            ),
        ),
    )
}

/// The reply where a part could not be read.
pub(crate) fn part_failed(label: &str, error: &str) -> (r: Reply)
    ensures
        r@ == part_error(label@, error@),
{
    error::simple_error(label.to_owned().concat(error).as_str(), 500)
}

/// Puts the dashboard together.
pub fn get_dashboard(p: DashboardParts) -> (r: Reply)
    ensures
        match dashboard_error(p) {
            Some(e) => r@ == e,
            None => r@ == (
                200u16,
                JsonView::Object(
                    map![
                        "accounts"@ => part_value(p.accounts),
                        "aliases"@ => part_value(p.aliases),
                        "aggregateAliases"@ => part_value(p.aggregate_aliases),
                        "health"@ => part_value(p.health),
                        "modelHealth"@ => part_value(p.model_health),
                        "activity"@ => part_value(p.activity),
                        "keysCount"@ => part_value(p.keys_count),
                    ],
                ),
            ),
        },
{
    let accounts = match p.accounts {
        Ok(v) => v,
        Err(e) => {
            return part_failed("dashboard: accounts: ", e.as_str());
        },
    };
    let aliases = match p.aliases {
        Ok(v) => v,
        Err(e) => {
            return part_failed("dashboard: aliases: ", e.as_str());
        },
    };
    let aggregate_aliases = match p.aggregate_aliases {
        Ok(v) => v,
        Err(e) => {
            return part_failed("dashboard: aggregateAliases: ", e.as_str());
        },
    };
    let health = match p.health {
        Ok(v) => v,
        Err(e) => {
            return part_failed("dashboard: health: ", e.as_str());
        },
    };
    let model_health = match p.model_health {
        Ok(v) => v,
        Err(e) => {
            return part_failed("dashboard: modelHealth: ", e.as_str());
        },
    };
    let activity = match p.activity {
        Ok(v) => v,
        Err(e) => {
            return part_failed("dashboard: activity: ", e.as_str());
        },
    };
    let keys_count = match p.keys_count {
        Ok(v) => v,
        Err(e) => {
            return part_failed("dashboard: keys: ", e.as_str());
        },
    };
    Reply {
        status: 200,
        body: Json::object().with("accounts", accounts).with("aliases", aliases).with(
            "aggregateAliases",
            aggregate_aliases,
        ).with("health", health).with("modelHealth", model_health).with("activity", activity).with(
            "keysCount",
            keys_count,
        ),
    }
}

/// An account as the dashboard shows it: without any secret.
pub open spec fn light_account_view(a: AccountRow) -> JsonView {
    JsonView::Object(
        map![
            "id"@ => JsonView::Int(a.id as int),
            "alias"@ => JsonView::Text(a.alias@),
            "provider_id"@ => JsonView::Text(a.provider_id@),
            "base_url"@ => json::text_or_null(json::some_string(a.base_url)),
            "anthropic_base_url"@ => json::text_or_null(json::some_string(a.anthropic_base_url)),
            "is_active"@ => JsonView::Int(a.is_active as int),
            "chat_endpoint"@ => json::text_or_null(json::some_string(a.chat_endpoint)),
            "responses_endpoint"@ => json::text_or_null(json::some_string(a.responses_endpoint)),
            "messages_endpoint"@ => json::text_or_null(json::some_string(a.messages_endpoint)),
            "default_protocol"@ => json::text_or_null(json::some_string(a.default_protocol)),
        ],
    )
}

/// Writes an account as the dashboard shows it.
pub fn light_account(a: &AccountRow) -> (r: Json)
    ensures
        r@ == light_account_view(*a),
{
    Json::object().with("id", Json::Signed(a.id)).with("alias", Json::text(a.alias.as_str())).with(
        "provider_id",
        Json::text(a.provider_id.as_str()),
    ).with("base_url", json::optional_text(&a.base_url)).with(
        "anthropic_base_url",
        json::optional_text(&a.anthropic_base_url),
    ).with("is_active", Json::Signed(a.is_active)).with(
        "chat_endpoint",
        json::optional_text(&a.chat_endpoint),
    ).with("responses_endpoint", json::optional_text(&a.responses_endpoint)).with(
        "messages_endpoint",
        json::optional_text(&a.messages_endpoint),
    ).with("default_protocol", json::optional_text(&a.default_protocol))
}

/// The dashboard is shown exactly where all its parts could be read. Otherwise the first part that
/// could not be read is named, as a failure of the server.
pub proof fn lemma_dashboard(p: DashboardParts)
    ensures
        dashboard_error(p) is None <==> p.accounts is Ok && p.aliases is Ok && p.aggregate_aliases
            is Ok && p.health is Ok && p.model_health is Ok && p.activity is Ok && p.keys_count is Ok,
        dashboard_error(p) is Some ==> (dashboard_error(p)->0).0 == 500,
        p.accounts is Err ==> (dashboard_error(p)->0).1 == error::plain_error(
            "dashboard: accounts: "@ + p.accounts->Err_0@,
        ),
        p.accounts is Ok && p.aliases is Err ==> (dashboard_error(p)->0).1 == error::plain_error(
            "dashboard: aliases: "@ + p.aliases->Err_0@,
        ),
{
}

/// The dashboard shows each of these fields of an account under its own name.
pub proof fn lemma_light_account(a: AccountRow)
    ensures
        ({
            let v = light_account_view(a);
            &&& json::field(v, "id"@) == Some(JsonView::Int(a.id as int))
            &&& json::field(v, "alias"@) == Some(JsonView::Text(a.alias@))
            &&& json::field(v, "provider_id"@) == Some(JsonView::Text(a.provider_id@))
            &&& json::field(v, "base_url"@) == Some(
                json::text_or_null(json::some_string(a.base_url)),
            )
            &&& json::field(v, "anthropic_base_url"@) == Some(
                json::text_or_null(json::some_string(a.anthropic_base_url)),
            )
            &&& json::field(v, "is_active"@) == Some(JsonView::Int(a.is_active as int))
            &&& json::field(v, "chat_endpoint"@) == Some(
                json::text_or_null(json::some_string(a.chat_endpoint)),
            )
            &&& json::field(v, "responses_endpoint"@) == Some(
                json::text_or_null(json::some_string(a.responses_endpoint)),
            )
            &&& json::field(v, "messages_endpoint"@) == Some(
                json::text_or_null(json::some_string(a.messages_endpoint)),
            )
            &&& json::field(v, "default_protocol"@) == Some(
                json::text_or_null(json::some_string(a.default_protocol)),
            )
        }),
{
    reveal_strlit("id");
    reveal_strlit("alias");
    reveal_strlit("provider_id");
    reveal_strlit("base_url");
    reveal_strlit("anthropic_base_url");
    reveal_strlit("is_active");
    reveal_strlit("chat_endpoint");
    reveal_strlit("responses_endpoint");
    reveal_strlit("messages_endpoint");
    reveal_strlit("default_protocol");
    assert("id"@.len() == 2 && "alias"@.len() == 5 && "provider_id"@.len() == 11
        && "base_url"@.len() == 8 && "anthropic_base_url"@.len() == 18 && "is_active"@.len() == 9
        && "chat_endpoint"@.len() == 13 && "responses_endpoint"@.len() == 18
        && "messages_endpoint"@.len() == 17 && "default_protocol"@.len() == 16);
    assert("anthropic_base_url"@[0] != "responses_endpoint"@[0]);
}

} // verus!
