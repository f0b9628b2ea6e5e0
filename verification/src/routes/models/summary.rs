//! What the models page shows, in one reply.

use vstd::prelude::*;
use crate::error::Reply;
use crate::json::{Json, JsonView};
use crate::routes::dashboard::{self, Part};
use crate::routes::models::testing::TestQueueState;

verus! {

/// The parts of the models page.
pub struct SummaryParts {
    pub aliases: Part,
    pub aggregate_aliases: Part,
    pub accounts: Part,
    pub health: Part,
    pub queue: Part,
}

/// The error reply where a part of the models page could not be read: the first one, in the order in
/// which they are shown.
pub open spec fn summary_error(p: SummaryParts) -> Option<(u16, JsonView)> {
    dashboard::first_error(
        p.aliases,
        "summary: aliases: "@,
        dashboard::first_error(
            p.aggregate_aliases,
            "summary: aggregate: "@,
            dashboard::first_error(
                p.accounts,
                "summary: accounts: "@,
                dashboard::first_error(
                    p.health,
                    "summary: health: "@,
                    dashboard::first_error(p.queue, "summary: queue: "@, None),
                ),
            ),
        ),
    )
}

/// Puts the models page together.
pub fn get_models_summary(p: SummaryParts) -> (r: Reply)
    ensures
        match summary_error(p) {
            Some(e) => r@ == e,
            None => r@ == (
                200u16,
                JsonView::Object(
                    map![
                        "aliases"@ => dashboard::part_value(p.aliases),
                        "aggregateAliases"@ => dashboard::part_value(p.aggregate_aliases),
                        "accounts"@ => dashboard::part_value(p.accounts),
                        "health"@ => dashboard::part_value(p.health),
                        "queue"@ => dashboard::part_value(p.queue),
                    ],
                ),
            ),
        },
{
    let aliases = match p.aliases {
        Ok(v) => v,
        Err(e) => {
            return dashboard::part_failed("summary: aliases: ", e.as_str());
        },
    };
    let aggregate_aliases = match p.aggregate_aliases {
        Ok(v) => v,
        Err(e) => {
            return dashboard::part_failed("summary: aggregate: ", e.as_str());
        },
    };
    let accounts = match p.accounts {
        Ok(v) => v,
        Err(e) => {
            return dashboard::part_failed("summary: accounts: ", e.as_str());
        },
    };
    let health = match p.health {
        Ok(v) => v,
        Err(e) => {
            return dashboard::part_failed("summary: health: ", e.as_str());
        },
    };
    let queue = match p.queue {
        Ok(v) => v,
        Err(e) => {
            return dashboard::part_failed("summary: queue: ", e.as_str());
        },
    };
    Reply {
        status: 200,
        body: Json::object().with("aliases", aliases).with(
            "aggregateAliases",
            aggregate_aliases,
        ).with("accounts", accounts).with("health", health).with("queue", queue),
    }
}

/// How far the test queue is, as the models page shows it.
pub fn queue_part(queue: &TestQueueState) -> (r: Json)
    ensures
        r@ == JsonView::Object(
            map![
                "isRunning"@ => JsonView::Bool(queue.is_running),
                "total"@ => JsonView::Int(queue.total as int),
                "current"@ => JsonView::Int(queue.current as int),
                "progress"@ => JsonView::Int(queue.progress as int),
            ],
        ),
{
    Json::object().with("isRunning", Json::Bool(queue.is_running)).with(
        "total",
        Json::Unsigned(queue.total as u64),
    ).with("current", Json::Unsigned(queue.current as u64)).with(
        "progress",
        Json::Unsigned(queue.progress as u64),
    )
}

/// The summary is shown exactly where all its parts could be read. Otherwise it is a failure of the
/// server.
pub proof fn lemma_summary(p: SummaryParts)
    ensures
        summary_error(p) is None <==> p.aliases is Ok && p.aggregate_aliases is Ok && p.accounts is Ok
            && p.health is Ok && p.queue is Ok,
        summary_error(p) is Some ==> (summary_error(p)->0).0 == 500,
{
}

} // verus!
