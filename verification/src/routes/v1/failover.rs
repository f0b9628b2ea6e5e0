//! Failover over the accounts of a resolved model.
//!
//! A dispatcher tries the accounts in the order it is given, one at a time. The outside work (sending
//! requests, reading responses) is the caller's; each method takes what came of it and says what
//! follows.

use vstd::prelude::*;
use crate::error::Reply;
use crate::json::{self, Json, JsonView};
use crate::middleware;
use crate::routes::v1::dispatch::{self, Account, Action, ActionView, Effect, EffectView, Ingress, Protocol, Turn, TurnView, Usage, UsageLog, UsageLogView};
use crate::text;

verus! {

/// A dispatch over accounts, and the account whose turn it is.
pub struct Failover {
    pub ingress: Ingress,
    pub endpoint: Protocol,
    pub accounts: Vec<Account>,
    pub preferred_id: i64,
    pub model: String,
    pub provider_id: String,
    pub at: usize,
}

/// Whether two dispatches differ at most in the account whose turn it is.
pub open spec fn same_plan(a: Failover, b: Failover) -> bool {
    a.ingress == b.ingress && a.endpoint == b.endpoint && a.accounts == b.accounts && a.preferred_id
        == b.preferred_id && a.model == b.model && a.provider_id == b.provider_id
}

/// Whether a dispatcher shows the accounts that it gives up, and logs a request that none served.
pub open spec fn shows_failures(i: Ingress) -> bool {
    !(i is Converting)
}

/// The log entry of a request that an account did not serve.
pub open spec fn failure_log(f: Failover, account: Account, error: Seq<char>) -> EffectView {
    EffectView::Log(
        UsageLogView {
            account_id: account.id,
            model: f.model@,
            provider_id: f.provider_id@,
            usage: dispatch::no_usage(),
            error_message: Some(error),
            response_body: None,
        },
    )
}

/// The effects of a dispatch that ends without an answer.
pub open spec fn exhausted_effects(f: Failover, error: Seq<char>) -> Seq<EffectView> {
    seq![EffectView::Record { hit: None, success: false }] + (if shows_failures(f.ingress)
        && f.accounts@.len() > 0 {
        seq![failure_log(f, f.accounts@[0], error)]
    } else {
        seq![]
    }) + seq![EffectView::Finished { status: 502, model: f.model@ }]
}

/// The turn in which an account is given up: the next one is tried, or the dispatch ends with the
/// error of the last.
pub open spec fn given_up(f: Failover, error: Seq<char>, effects: Seq<EffectView>) -> TurnView {
    if f.at + 1 < f.accounts@.len() {
        TurnView { effects, action: ActionView::Try((f.at + 1) as nat) }
    } else {
        TurnView {
            effects: effects + exhausted_effects(f, error),
            action: ActionView::Answer(
                dispatch::bad_gateway(error, dispatch::anthropic_schema(f.ingress)),
            ),
        }
    }
}

/// The place of the account whose turn follows when one is given up.
pub open spec fn next_at(f: Failover) -> int {
    if f.at + 1 < f.accounts@.len() {
        f.at + 1
    } else {
        f.at as int
    }
}

/// What the router is told when an account fails: something only of the preferred one.
pub open spec fn failure_record(f: Failover) -> Seq<EffectView> {
    if f.accounts@[f.at as int].id == f.preferred_id {
        seq![EffectView::Record { hit: None, success: false }]
    } else {
        seq![]
    }
}

/// What is shown when an account is given up.
pub open spec fn retry_shown(f: Failover, status: u16, message: Seq<char>) -> Seq<EffectView> {
    if shows_failures(f.ingress) {
        seq![EffectView::Retry { account: f.accounts@[f.at as int].alias@, status, message }]
    } else {
        seq![]
    }
}

/// The turn in which an upstream's error is final.
pub open spec fn final_error(f: Failover, status: u16, body: Seq<char>) -> TurnView {
    TurnView {
        effects: seq![
            failure_log(f, f.accounts@[f.at as int], dispatch::rejection_text(status, body)),
            EffectView::Finished { status, model: f.model@ },
        ],
        action: dispatch::passed_on(status, body, json::parsed(body)),
    }
}

/// The turn in which an upstream's error sends the dispatch to the next account.
pub open spec fn retried(f: Failover, status: u16, body: Seq<char>) -> TurnView {
    given_up(
        f,
        dispatch::rejection_text(status, body),
        retry_shown(f, status, body) + failure_record(f),
    )
}

/// The turn in which an account's answer goes out.
pub open spec fn served(f: Failover, usage: Usage, answer: JsonView) -> TurnView {
    let id = f.accounts@[f.at as int].id;
    TurnView {
        effects: seq![
            EffectView::Log(
                UsageLogView {
                    account_id: id,
                    model: f.model@,
                    provider_id: f.provider_id@,
                    usage,
                    error_message: None,
                    response_body: Some(json::rendered(answer)),
                },
            ),
            EffectView::Record { hit: Some(id), success: true },
            EffectView::Finished { status: 200, model: f.model@ },
        ],
        action: ActionView::Answer((200u16, answer)),
    }
}

/// The effects of a turn in which the account whose turn it is serves the request.
pub open spec fn hit_effects(f: Failover, status: u16) -> Seq<EffectView> {
    seq![
        EffectView::Record { hit: Some(f.accounts@[f.at as int].id), success: true },
        EffectView::Finished { status, model: f.model@ },
    ]
}

/// The error type that the messages dispatcher passes on for a status.
pub open spec fn anthropic_error_type(status: u16) -> Seq<char> {
    if status == 401 {
        "authentication_error"@
    } else {
        "api_error"@
    }
}

/// The message of an upstream's error: its own where it is JSON that holds one, else its body.
pub open spec fn upstream_message(body: Seq<char>, says: Option<JsonView>) -> Seq<char> {
    match says {
        Some(v) => match json::field(v, "error"@) {
            Some(e) => match json::text_in(json::field(e, "message"@)) {
                Some(m) => m,
                None => match e {
                    JsonView::Text(t) => t,
                    _ => body,
                },
            },
            None => body,
        },
        None => body,
    }
}

/// The message of an upstream's error, given what it says as JSON.
pub fn error_message(body: &str, says: Option<&Json>) -> (r: String)
    ensures
        r@ == upstream_message(body@, json::some_view(says)),
{
    if let Some(v) = says {
        if let Some(e) = v.get("error") {
            if let Some(m) = e.str_at("message") {
                return m.to_owned();
            }
            if let Some(t) = e.as_str() {
                return t.to_owned();
            }
        }
    }
    body.to_owned()
}

/// The name of a protocol in messages.
pub open spec fn protocol_name(p: Protocol) -> Seq<char> {
    match p {
        Protocol::Chat => "Chat"@,
        Protocol::Responses => "Responses"@,
        Protocol::Messages => "Messages"@,
    }
}

pub(crate) fn protocol_text(p: Protocol) -> (r: &'static str)
    ensures
        r@ == protocol_name(p),
{
    match p {
        Protocol::Chat => "Chat",
        Protocol::Responses => "Responses",
        Protocol::Messages => "Messages",
    }
}

/// The turn that follows an error of an upstream of the OpenAI dispatcher.
pub open spec fn openai_turn(
    f: Failover,
    status: u16,
    body: Seq<char>,
    retryable: bool,
    unsupported_api: bool,
) -> TurnView {
    if retryable {
        retried(f, status, body)
    } else if f.endpoint == Protocol::Chat && unsupported_api
        && f.accounts@[f.at as int].messages_endpoint is Some {
        TurnView { effects: seq![], action: ActionView::TryMessages(f.at as nat) }
    } else {
        final_error(f, status, body)
    }
}

/// The turn that follows an error of an upstream of the converting dispatcher.
pub open spec fn converting_turn(
    f: Failover,
    status: u16,
    body: Seq<char>,
    retryable: bool,
    redirect: Option<Protocol>,
) -> TurnView {
    match redirect {
        Some(p) => TurnView { effects: seq![], action: ActionView::Redirect(p) },
        None => if retryable {
            retried(f, status, body)
        } else {
            final_error(f, status, body)
        },
    }
}

/// The protocol in which a request starts over after an error: the account's own, where the upstream
/// does not know the responses protocol and no protocol was forced.
pub open spec fn redirect(
    target: Protocol,
    responses_unsupported: bool,
    mode_is_default: bool,
    account_default: Protocol,
) -> Option<Protocol> {
    if target == Protocol::Responses && responses_unsupported && mode_is_default && account_default
        != Protocol::Responses {
        Some(account_default)
    } else {
        None
    }
}

/// The turn that follows an error of an upstream of the messages dispatcher.
pub open spec fn anthropic_turn(
    f: Failover,
    status: u16,
    body: Seq<char>,
    says: Option<JsonView>,
    retryable: bool,
) -> TurnView {
    if retryable {
        retried(f, status, body)
    } else {
        TurnView {
            effects: seq![EffectView::Finished { status, model: f.model@ }],
            action: ActionView::Answer(
                (
                    status,
                    middleware::anthropic_error(
                        upstream_message(body, says),
                        anthropic_error_type(status),
                    ),
                ),
            ),
        }
    }
}

/// The turn in which an upstream begins to stream.
pub open spec fn opened(f: Failover, status: u16, converted: bool) -> TurnView {
    TurnView {
        effects: match f.ingress {
            Ingress::Converting(_) => if converted {
                hit_effects(f, 200)
            } else {
                seq![]
            },
            _ => hit_effects(f, status),
        },
        action: ActionView::Relay(f.at as nat),
    }
}

/// The turn that follows a try of the account's messages endpoint.
pub open spec fn messages_turn(f: Failover, answered: bool, status: u16, body: Seq<char>) -> TurnView {
    if answered {
        TurnView { effects: hit_effects(f, 200), action: ActionView::Deliver(f.at as nat) }
    } else {
        final_error(f, status, body)
    }
}

impl Failover {
    /// Whether it is some account's turn.
    pub open spec fn running(&self) -> bool {
        self.at < self.accounts@.len()
    }

    fn failure(&self, account: &Account, error: &str) -> (r: Effect)
        ensures
            r@ == failure_log(*self, *account, error@),
    {
        Effect::Log(
            UsageLog {
                account_id: account.id,
                model: self.model.clone(),
                provider_id: self.provider_id.clone(),
                usage: Usage { input: 0, output: 0, cache_read: 0, cache_creation: 0 },
                error_message: Some(error.to_owned()),
                response_body: None,
            },
        )
    }

    fn exhausted(&self, error: &str, before: Vec<Effect>) -> (r: Turn)
        ensures
            r@ == (TurnView {
                effects: dispatch::effects_view(before@) + exhausted_effects(*self, error@),
                action: ActionView::Answer(
                    dispatch::bad_gateway(error@, dispatch::anthropic_schema(self.ingress)),
                ),
            }),
    {
        let mut effects = before;
        dispatch::push_effect(&mut effects, Effect::Record { hit: None, success: false });
        let shows = match self.ingress {
            Ingress::Converting(_) => false,
            _ => true,
        };
        if shows && self.accounts.len() > 0 {
            dispatch::push_effect(&mut effects, self.failure(&self.accounts[0], error));
        }
        dispatch::push_effect(
            &mut effects,
            Effect::Finished { status: 502, model: self.model.clone() },
        );
        assert(dispatch::effects_view(effects@) =~= dispatch::effects_view(before@)
            + exhausted_effects(*self, error@));
        Turn {
            effects,
            action: Action::Answer(
                middleware::send_error(
                    error,
                    "upstream_error",
                    502,
                    dispatch::is_anthropic(self.ingress),
                ),
            ),
        }
    }

    fn give_up(&mut self, error: &str, effects: Vec<Effect>) -> (r: Turn)
        requires
            old(self).running(),
        ensures
            r@ == given_up(*old(self), error@, dispatch::effects_view(effects@)),
            same_plan(*final(self), *old(self)),
            final(self).at == next_at(*old(self)),
    {
        if self.accounts.len() - self.at > 1 {
            self.at = self.at + 1;
            Turn { effects, action: Action::Try(self.at) }
        } else {
            self.exhausted(error, effects)
        }
    }

    fn failing(&self, status: u16, message: &str, records: bool) -> (r: Vec<Effect>)
        requires
            self.running(),
        ensures
            dispatch::effects_view(r@) == retry_shown(*self, status, message@) + (if records {
                failure_record(*self)
            } else {
                seq![]
            }),
    {
        let mut effects: Vec<Effect> = Vec::new();
        let shows = match self.ingress {
            Ingress::Converting(_) => false,
            _ => true,
        };
        if shows {
            dispatch::push_effect(
                &mut effects,
                Effect::Retry {
                    account: self.accounts[self.at].alias.clone(),
                    status,
                    message: message.to_owned(),
                },
            );
        }
        if records && self.accounts[self.at].id == self.preferred_id {
            dispatch::push_effect(&mut effects, Effect::Record { hit: None, success: false });
        }
        assert(dispatch::effects_view(effects@) =~= retry_shown(*self, status, message@) + (
        if records {
            failure_record(*self)
        } else {
            seq![]
        }));
        effects
    }

    /// The first turn: the first account is tried; without accounts the dispatch ends.
    pub fn start(&mut self) -> (r: Turn)
        ensures
            same_plan(*final(self), *old(self)),
            final(self).at == 0,
            old(self).accounts@.len() > 0 ==> r@ == (TurnView {
                effects: seq![],
                action: ActionView::Try(0),
            }),
            old(self).accounts@.len() == 0 ==> r@ == (TurnView {
                effects: exhausted_effects(*old(self), "All accounts exhausted"@),
                action: ActionView::Answer(
                    dispatch::bad_gateway(
                        "All accounts exhausted"@,
                        dispatch::anthropic_schema(old(self).ingress),
                    ),
                ),
            }),
    {
        self.at = 0;
        let effects: Vec<Effect> = Vec::new();
        assert(dispatch::effects_view(effects@) =~= seq![]);
        if self.accounts.len() > 0 {
            Turn { effects, action: Action::Try(0) }
        } else {
            let r = self.exhausted("All accounts exhausted", effects);
            assert(seq![] + exhausted_effects(*self, "All accounts exhausted"@)
                =~= exhausted_effects(*old(self), "All accounts exhausted"@));
            r
        }
    }

    /// The request could not be built.
    pub fn build_failed(&mut self, error: &str) -> (r: Turn)
        requires
            old(self).running(),
        ensures
            same_plan(*final(self), *old(self)),
            final(self).at == next_at(*old(self)),
            r@ == given_up(
                *old(self),
                "Failed to build provider request: "@ + error@,
                retry_shown(*old(self), 0, "Build error: "@ + error@) + failure_record(*old(self)),
            ),
    {
        let shown = "Build error: ".to_owned().concat(error);
        let effects = self.failing(0, shown.as_str(), true);
        let message = "Failed to build provider request: ".to_owned().concat(error);
        self.give_up(message.as_str(), effects)
    }

    /// The request could not be sent.
    pub fn network_failed(&mut self, error: &str) -> (r: Turn)
        requires
            old(self).running(),
        ensures
            same_plan(*final(self), *old(self)),
            final(self).at == next_at(*old(self)),
            r@ == given_up(
                *old(self),
                "Provider request failed: "@ + error@,
                retry_shown(*old(self), 0, "Network error: "@ + error@) + failure_record(
                    *old(self),
                ),
            ),
    {
        let shown = "Network error: ".to_owned().concat(error);
        let effects = self.failing(0, shown.as_str(), true);
        let message = "Provider request failed: ".to_owned().concat(error);
        self.give_up(message.as_str(), effects)
    }

    /// The account does not serve the protocol that the request is to go out in.
    pub fn unsupported(&mut self, target: Protocol) -> (r: Turn)
        requires
            old(self).running(),
        ensures
            same_plan(*final(self), *old(self)),
            final(self).at == next_at(*old(self)),
            r@ == given_up(
                *old(self),
                "Account "@ + old(self).accounts@[old(self).at as int].alias@
                    + " does not support "@ + protocol_name(target) + " target"@,
                seq![],
            ),
    {
        let effects: Vec<Effect> = Vec::new();
        assert(dispatch::effects_view(effects@) =~= seq![]);
        let message = "Account ".to_owned().concat(self.accounts[self.at].alias.as_str()).concat(
            " does not support ",
        ).concat(protocol_text(target)).concat(" target");
        self.give_up(message.as_str(), effects)
    }

    /// The request could not be converted to the account's protocol.
    pub fn conversion_failed(&mut self, error: &str) -> (r: Turn)
        requires
            old(self).running(),
        ensures
            same_plan(*final(self), *old(self)),
            final(self).at == next_at(*old(self)),
            r@ == given_up(*old(self), "Request conversion failed: "@ + error@, seq![]),
    {
        let effects: Vec<Effect> = Vec::new();
        assert(dispatch::effects_view(effects@) =~= seq![]);
        let message = "Request conversion failed: ".to_owned().concat(error);
        self.give_up(message.as_str(), effects)
    }

    /// The response could not be read.
    pub fn read_failed(&mut self, error: &str) -> (r: Turn)
        requires
            old(self).running(),
        ensures
            same_plan(*final(self), *old(self)),
            final(self).at == next_at(*old(self)),
            r@ == given_up(*old(self), "Failed to read response: "@ + error@, seq![]),
    {
        let effects: Vec<Effect> = Vec::new();
        assert(dispatch::effects_view(effects@) =~= seq![]);
        let message = "Failed to read response: ".to_owned().concat(error);
        self.give_up(message.as_str(), effects)
    }

    /// The response is no JSON.
    pub fn parse_failed(&mut self, error: &str) -> (r: Turn)
        requires
            old(self).running(),
        ensures
            same_plan(*final(self), *old(self)),
            final(self).at == next_at(*old(self)),
            r@ == given_up(*old(self), "Failed to parse response: "@ + error@, seq![]),
    {
        let effects: Vec<Effect> = Vec::new();
        assert(dispatch::effects_view(effects@) =~= seq![]);
        let message = "Failed to parse response: ".to_owned().concat(error);
        self.give_up(message.as_str(), effects)
    }

    fn retry(&mut self, status: u16, body: &str) -> (r: Turn)
        requires
            old(self).running(),
            100 <= status <= 999,
        ensures
            same_plan(*final(self), *old(self)),
            final(self).at == next_at(*old(self)),
            r@ == retried(*old(self), status, body@),
    {
        let effects = self.failing(status, body, true);
        let message = dispatch::rejection(status, body);
        self.give_up(message.as_str(), effects)
    }

    fn fail(&self, status: u16, body: &str) -> (r: Turn)
        requires
            self.running(),
            100 <= status <= 999,
        ensures
            r@ == final_error(*self, status, body@),
    {
        let mut effects: Vec<Effect> = Vec::new();
        let message = dispatch::rejection(status, body);
        dispatch::push_effect(
            &mut effects,
            self.failure(&self.accounts[self.at], message.as_str()),
        );
        dispatch::push_effect(
            &mut effects,
            Effect::Finished { status, model: self.model.clone() },
        );
        assert(dispatch::effects_view(effects@) =~= final_error(*self, status, body@).effects);
        Turn { effects, action: dispatch::pass_on(status, body, json::parse(body)) }
    }

    /// An upstream of the OpenAI dispatcher answered with an error. A chat request for a model that
    /// is not served there goes to the account's messages endpoint, where it has one.
    pub fn rejected_openai(
        &mut self,
        status: u16,
        body: &str,
        retryable: bool,
        unsupported_api: bool,
    ) -> (r: Turn)
        requires
            old(self).running(),
            100 <= status <= 999,
        ensures
            same_plan(*final(self), *old(self)),
            r@ == openai_turn(*old(self), status, body@, retryable, unsupported_api),
            if retryable {
                r@ == retried(*old(self), status, body@) && final(self).at == next_at(*old(self))
            } else if old(self).endpoint == Protocol::Chat && unsupported_api && old(
                self,
            ).accounts@[old(self).at as int].messages_endpoint is Some {
                r@ == (TurnView {
                    effects: seq![],
                    action: ActionView::TryMessages(old(self).at as nat),
                }) && final(self).at == old(self).at
            } else {
                r@ == final_error(*old(self), status, body@) && final(self).at == old(self).at
            },
    {
        if retryable {
            return self.retry(status, body);
        }
        let chat = match self.endpoint {
            Protocol::Chat => true,
            _ => false,
        };
        if chat && unsupported_api && self.accounts[self.at].messages_endpoint.is_some() {
            let effects: Vec<Effect> = Vec::new();
            assert(dispatch::effects_view(effects@) =~= seq![]);
            return Turn { effects, action: Action::TryMessages(self.at) };
        }
        self.fail(status, body)
    }

    /// What came of the account's messages endpoint, after an error of its chat endpoint.
    pub fn messages_tried(&self, answered: bool, status: u16, body: &str) -> (r: Turn)
        requires
            self.running(),
            100 <= status <= 999,
        ensures
            r@ == messages_turn(*self, answered, status, body@),
            if answered {
                r@ == (TurnView {
                    effects: hit_effects(*self, 200),
                    action: ActionView::Deliver(self.at as nat),
                })
            } else {
                r@ == final_error(*self, status, body@)
            },
    {
        if answered {
            return Turn { effects: self.hit(200), action: Action::Deliver(self.at) };
        }
        self.fail(status, body)
    }

    /// An upstream of the converting dispatcher answered with an error. Where it does not know the
    /// responses protocol and no protocol was forced, the request starts over in the account's own.
    pub fn rejected_converting(
        &mut self,
        status: u16,
        body: &str,
        retryable: bool,
        target: Protocol,
        responses_unsupported: bool,
        mode_is_default: bool,
        account_default: Protocol,
    ) -> (r: Turn)
        requires
            old(self).running(),
            100 <= status <= 999,
        ensures
            same_plan(*final(self), *old(self)),
            r@ == converting_turn(
                *old(self),
                status,
                body@,
                retryable,
                redirect(target, responses_unsupported, mode_is_default, account_default),
            ),
            if target == Protocol::Responses && responses_unsupported && mode_is_default
                && account_default != Protocol::Responses {
                r@ == (TurnView {
                    effects: seq![],
                    action: ActionView::Redirect(account_default),
                }) && final(self).at == old(self).at
            } else if retryable {
                r@ == retried(*old(self), status, body@) && final(self).at == next_at(*old(self))
            } else {
                r@ == final_error(*old(self), status, body@) && final(self).at == old(self).at
            },
    {
        if target == Protocol::Responses && responses_unsupported && mode_is_default
            && account_default != Protocol::Responses {
            let effects: Vec<Effect> = Vec::new();
            assert(dispatch::effects_view(effects@) =~= seq![]);
            return Turn { effects, action: Action::Redirect(account_default) };
        }
        if retryable {
            return self.retry(status, body);
        }
        self.fail(status, body)
    }

    /// An upstream of the messages dispatcher answered with an error. A final one goes out in the
    /// Anthropic schema.
    pub fn rejected_anthropic(&mut self, status: u16, body: &str, retryable: bool) -> (r: Turn)
        requires
            old(self).running(),
            100 <= status <= 999,
        ensures
            same_plan(*final(self), *old(self)),
            r@ == anthropic_turn(*old(self), status, body@, json::parsed(body@), retryable),
            if retryable {
                r@ == retried(*old(self), status, body@) && final(self).at == next_at(*old(self))
            } else {
                r@ == (TurnView {
                    effects: seq![EffectView::Finished { status, model: old(self).model@ }],
                    action: ActionView::Answer(
                        (
                            status,
                            middleware::anthropic_error(
                                upstream_message(body@, json::parsed(body@)),
                                anthropic_error_type(status),
                            ),
                        ),
                    ),
                }) && final(self).at == old(self).at
            },
    {
        if retryable {
            return self.retry(status, body);
        }
        let message = match json::parse(body) {
            Some(v) => error_message(body, Some(&v)),
            None => error_message(body, None),
        };
        let error_type = if status == 401 {
            "authentication_error"
        } else {
            "api_error"
        };
        let mut effects: Vec<Effect> = Vec::new();
        dispatch::push_effect(
            &mut effects,
            Effect::Finished { status, model: self.model.clone() },
        );
        assert(dispatch::effects_view(effects@) =~= seq![
            EffectView::Finished { status, model: self.model@ },
        ]);
        Turn {
            effects,
            action: Action::Answer(
                middleware::send_error(message.as_str(), error_type, status, true),
            ),
        }
    }

    fn hit(&self, status: u16) -> (r: Vec<Effect>)
        requires
            self.running(),
        ensures
            dispatch::effects_view(r@) == hit_effects(*self, status),
    {
        let mut effects: Vec<Effect> = Vec::new();
        dispatch::push_effect(
            &mut effects,
            Effect::Record { hit: Some(self.accounts[self.at].id), success: true },
        );
        dispatch::push_effect(
            &mut effects,
            Effect::Finished { status, model: self.model.clone() },
        );
        assert(dispatch::effects_view(effects@) =~= hit_effects(*self, status));
        effects
    }

    /// The upstream began to stream. The converting dispatcher hands an unconverted stream over
    /// without telling anyone.
    pub fn stream_opened(&self, status: u16, converted: bool) -> (r: Turn)
        requires
            self.running(),
        ensures
            r@ == opened(*self, status, converted),
            r@ == (TurnView {
                effects: match self.ingress {
                    Ingress::Converting(_) => if converted {
                        hit_effects(*self, 200)
                    } else {
                        seq![]
                    },
                    _ => hit_effects(*self, status),
                },
                action: ActionView::Relay(self.at as nat),
            }),
    {
        let effects = match self.ingress {
            Ingress::Converting(_) => if converted {
                self.hit(200)
            } else {
                let none: Vec<Effect> = Vec::new();
                assert(dispatch::effects_view(none@) =~= seq![]);
                none
            },
            _ => self.hit(status),
        };
        Turn { effects, action: Action::Relay(self.at) }
    }

    /// The upstream answered, and this answer goes out.
    pub fn answered(&self, usage: Usage, answer: Json) -> (r: Turn)
        requires
            self.running(),
        ensures
            r@ == served(*self, usage, answer@),
    {
        let mut effects: Vec<Effect> = Vec::new();
        dispatch::push_effect(
            &mut effects,
            Effect::Log(
                UsageLog {
                    account_id: self.accounts[self.at].id,
                    model: self.model.clone(),
                    provider_id: self.provider_id.clone(),
                    usage,
                    error_message: None,
                    response_body: Some(json::render(&answer)),
                },
            ),
        );
        dispatch::push_effect(
            &mut effects,
            Effect::Record { hit: Some(self.accounts[self.at].id), success: true },
        );
        dispatch::push_effect(
            &mut effects,
            Effect::Finished { status: 200, model: self.model.clone() },
        );
        assert(dispatch::effects_view(effects@) =~= served(*self, usage, answer@).effects);
        Turn { effects, action: Action::Answer(Reply { status: 200, body: answer }) }
    }
}

/// A dispatch after the account whose turn it was is given up.
pub open spec fn moved(f: Failover) -> Failover {
    Failover { at: next_at(f) as usize, ..f }
}

/// A dispatch after that many accounts were given up.
pub open spec fn after_failures(f: Failover, k: nat) -> Failover
    decreases k,
{
    if k == 0 {
        f
    } else {
        moved(after_failures(f, (k - 1) as nat))
    }
}

/// Accounts are given up in order, each once: after `k` of them the next one in the list is tried,
/// and only when the last one has failed is the request answered, with that one's error.
pub proof fn lemma_accounts_in_order(
    f: Failover,
    k: nat,
    error: Seq<char>,
    effects: Seq<EffectView>,
)
    requires
        f.at == 0,
        k < f.accounts@.len(),
    ensures
        after_failures(f, k).at == k,
        same_plan(after_failures(f, k), f),
        given_up(after_failures(f, k), error, effects).action == (if k + 1 < f.accounts@.len() {
            ActionView::Try(k + 1)
        } else {
            ActionView::Answer(
                dispatch::bad_gateway(error, dispatch::anthropic_schema(f.ingress)),
            )
        }),
    decreases k,
{
    assert(f.accounts.len() == f.accounts@.len());
    if k > 0 {
        lemma_accounts_in_order(f, (k - 1) as nat, error, effects);
    }
}

/// An error that may be another account's luck sends the request to the next account, and after the
/// last one to the client as a bad gateway, with the error that came. In no dispatcher does its own
/// status reach the client.
pub proof fn lemma_retryable_errors_move_on(
    f: Failover,
    status: u16,
    body: Seq<char>,
    says: Option<JsonView>,
    unsupported_api: bool,
)
    requires
        f.running(),
    ensures
        ({
            let next = openai_turn(f, status, body, true, unsupported_api);
            &&& f.at + 1 < f.accounts@.len() ==> next.action == ActionView::Try((f.at + 1) as nat)
            &&& f.at + 1 == f.accounts@.len() ==> dispatch::answer_status(next.action) == Some(
                502u16,
            ) && middleware::message_of((next.action->Answer_0).1) == Some(
                "Provider returned "@ + dispatch::status_text(status) + ": "@ + body,
            )
            &&& converting_turn(f, status, body, true, None) == next
            &&& anthropic_turn(f, status, body, says, true) == next
        }),
{
    middleware::lemma_error_shape(
        dispatch::rejection_text(status, body),
        "upstream_error"@,
        502,
        dispatch::anthropic_schema(f.ingress),
    );
}

/// Any other error of an upstream is final: it reaches the client with its own status, and no other
/// account is asked. The one exception is a chat request for a model that is not served there, which
/// goes to the same account's messages endpoint, where it has one.
pub proof fn lemma_final_errors_reach_the_client(
    f: Failover,
    status: u16,
    body: Seq<char>,
    says: Option<JsonView>,
    unsupported_api: bool,
)
    requires
        f.running(),
    ensures
        ({
            let turn = openai_turn(f, status, body, false, unsupported_api);
            if f.endpoint == Protocol::Chat && unsupported_api
                && f.accounts@[f.at as int].messages_endpoint is Some {
                turn.action == ActionView::TryMessages(f.at as nat) && turn.effects.len() == 0
            } else {
                dispatch::answer_status(turn.action) == Some(status) && turn.effects.last() == (
                EffectView::Finished { status, model: f.model@ })
            }
        }),
        dispatch::answer_status(converting_turn(f, status, body, false, None).action) == Some(status),
        dispatch::answer_status(anthropic_turn(f, status, body, says, false).action) == Some(status),
        dispatch::answer_status(messages_turn(f, false, status, body).action) == Some(status),
        messages_turn(f, true, status, body).action == ActionView::Deliver(f.at as nat),
{
}

/// A final error is logged of the account that gave it, with what it said and without any usage.
pub proof fn lemma_final_errors_are_logged(f: Failover, status: u16, body: Seq<char>)
    requires
        f.running(),
    ensures
        ({
            let effects = final_error(f, status, body).effects;
            &&& effects.len() == 2
            &&& effects[0] matches EffectView::Log(l) && l.account_id == f.accounts@[f.at as int].id
                && l.model == f.model@ && l.provider_id == f.provider_id@ && l.error_message == Some(
                "Provider returned "@ + dispatch::status_text(status) + ": "@ + body,
            ) && l.usage.input == 0 && l.usage.output == 0 && l.response_body is None
        }),
        json::parsed(body) is Some ==> final_error(f, status, body).action == ActionView::Answer(
            (status, json::parsed(body)->0),
        ),
        json::parsed(body) is None ==> final_error(f, status, body).action
            == ActionView::AnswerText(status, body),
{
}

/// A request starts over in another protocol only after it went out as a responses request, to an
/// upstream that does not know these, where no protocol was forced and the account has another.
pub proof fn lemma_starting_over(
    target: Protocol,
    responses_unsupported: bool,
    mode_is_default: bool,
    account_default: Protocol,
)
    ensures
        ({
            let p = redirect(target, responses_unsupported, mode_is_default, account_default);
            &&& p is Some ==> p == Some(account_default) && account_default != Protocol::Responses
                && target == Protocol::Responses && responses_unsupported && mode_is_default
            &&& p is None ==> target != Protocol::Responses || !responses_unsupported
                || !mode_is_default || account_default == Protocol::Responses
        }),
{
}

/// A request that is served is logged once, of the account that served it, with its usage and its
/// answer. The router is told of a success of that account, and of nothing else.
pub proof fn lemma_serving(f: Failover, usage: Usage, answer: JsonView)
    requires
        f.running(),
    ensures
        ({
            let turn = served(f, usage, answer);
            let id = f.accounts@[f.at as int].id;
            &&& turn.action == ActionView::Answer((200u16, answer))
            &&& turn.effects.last() == (EffectView::Finished { status: 200, model: f.model@ })
            &&& exists|i: int| 0 <= i < turn.effects.len() && #[trigger] turn.effects[i] is Log
            &&& exists|i: int| 0 <= i < turn.effects.len() && #[trigger] turn.effects[i] is Record
            &&& forall|i: int|
                0 <= i < turn.effects.len() ==> (match #[trigger] turn.effects[i] {
                    EffectView::Log(l) => l.account_id == id && l.model == f.model@ && l.provider_id
                        == f.provider_id@ && l.usage == usage && l.error_message is None
                        && l.response_body == Some(json::rendered(answer)),
                    EffectView::Record { hit, success } => hit == Some(id) && success,
                    EffectView::Finished { .. } => true,
                    _ => false,
                })
        }),
{
    let effects = served(f, usage, answer).effects;
    assert(effects[0] is Log);
    assert(effects[1] is Record);
}

/// The router is told of a failure of the preferred account, and of no other one that fails while
/// there are more. Once none is left it is told that the request failed.
pub proof fn lemma_what_the_router_hears(f: Failover, status: u16, body: Seq<char>)
    requires
        f.running(),
    ensures
        ({
            let effects = retried(f, status, body).effects;
            let told = EffectView::Record { hit: None, success: false };
            &&& forall|i: int|
                0 <= i < effects.len() && (#[trigger] effects[i] is Record) ==> effects[i] == told
            &&& effects.contains(told) <==> f.accounts@[f.at as int].id == f.preferred_id || f.at + 1
                == f.accounts@.len()
            &&& f.at + 1 == f.accounts@.len() ==> effects.last() == (EffectView::Finished {
                status: 502,
                model: f.model@,
            })
        }),
{
    let effects = retried(f, status, body).effects;
    let told = EffectView::Record { hit: None, success: false };
    let shown = retry_shown(f, status, body);
    let record = failure_record(f);
    if f.accounts@[f.at as int].id == f.preferred_id {
        assert(effects[shown.len() as int] == told);
    }
    if f.at + 1 == f.accounts@.len() {
        assert(effects[(shown + record).len() as int] == told);
    }
}

/// Accounts that are given up are shown, with their name and what was said; but not by the converting
/// dispatcher, which logs no request that nobody served either.
pub proof fn lemma_what_is_shown(f: Failover, status: u16, body: Seq<char>, error: Seq<char>)
    requires
        f.running(),
    ensures
        !(f.ingress is Converting) ==> retried(f, status, body).effects[0] == (EffectView::Retry {
            account: f.accounts@[f.at as int].alias@,
            status,
            message: body,
        }),
        f.ingress is Converting ==> forall|i: int|
            0 <= i < retried(f, status, body).effects.len() ==> !(#[trigger] retried(
                f,
                status,
                body,
            ).effects[i] is Retry) && !(retried(f, status, body).effects[i] is Log),
        !(f.ingress is Converting) ==> exhausted_effects(f, error).contains(
            failure_log(f, f.accounts@[0], error),
        ),
        failure_log(f, f.accounts@[0], error) matches EffectView::Log(l) && l.account_id
            == f.accounts@[0].id && l.error_message == Some(error),
{
    if !(f.ingress is Converting) {
        assert(exhausted_effects(f, error)[1] == failure_log(f, f.accounts@[0], error));
    }
}

/// A stream that opens is relayed from the account whose turn it is, and counts as a success of that
/// account; only the converting dispatcher tells nobody of one that it does not convert.
pub proof fn lemma_streams_count(f: Failover, status: u16, converted: bool)
    requires
        f.running(),
    ensures
        opened(f, status, converted).action == ActionView::Relay(f.at as nat),
        f.ingress is Converting && !converted <==> opened(f, status, converted).effects.len() == 0,
        !(f.ingress is Converting && !converted) ==> opened(f, status, converted).effects[0] == (
        EffectView::Record { hit: Some(f.accounts@[f.at as int].id), success: true })
            && opened(f, status, converted).effects.last() == (EffectView::Finished {
            status: if f.ingress is Converting {
                200
            } else {
                status
            },
            model: f.model@,
        }),
{
}

/// The message that the messages dispatcher passes on is the upstream's own where it gives one, under
/// `error.message` or as `error`; else it is all that came. It says that the key is at fault exactly
/// where the upstream did.
pub proof fn lemma_anthropic_errors(
    f: Failover,
    status: u16,
    body: Seq<char>,
    says: Map<Seq<char>, JsonView>,
    error: Map<Seq<char>, JsonView>,
    message: Seq<char>,
)
    requires
        f.running(),
    ensures
        json::holds(says, "error"@, JsonView::Object(error)) && json::holds(
            error,
            "message"@,
            JsonView::Text(message),
        ) ==> upstream_message(body, Some(JsonView::Object(says))) == message,
        json::holds(says, "error"@, JsonView::Text(message)) ==> upstream_message(
            body,
            Some(JsonView::Object(says)),
        ) == message,
        !says.dom().contains("error"@) ==> upstream_message(body, Some(JsonView::Object(says)))
            == body,
        upstream_message(body, None) == body,
        ({
            let turn = anthropic_turn(f, status, body, None, false);
            let answer = (turn.action->Answer_0).1;
            &&& turn.action is Answer && (turn.action->Answer_0).0 == status
            &&& middleware::message_of(answer) == Some(body)
            &&& json::field(json::field(answer, "error"@)->0, "type"@) == Some(
                JsonView::Text("authentication_error"@),
            ) <==> status == 401
        }),
{
    middleware::lemma_error_shape(body, anthropic_error_type(status), status, true);
    reveal_strlit("authentication_error");
    reveal_strlit("api_error");
    assert("authentication_error"@.len() != "api_error"@.len());
}

/// When one account is given up, the turn passes to the next one, and stays with the last: it is always
/// some account's turn.
pub proof fn lemma_turn_passes(f: Failover)
    requires
        f.running(),
    ensures
        0 <= next_at(f) < f.accounts@.len(),
        f.at + 1 < f.accounts@.len() ==> next_at(f) == f.at + 1,
        f.at + 1 == f.accounts@.len() ==> next_at(f) == f.at,
{
}

} // verus!
