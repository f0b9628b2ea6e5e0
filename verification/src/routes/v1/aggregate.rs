//! Failover over the candidates of an aggregate alias.
//!
//! An aggregate alias stands for a list of candidates, each an account and a model. A request begins
//! at the active one and goes down the list. As in the failover over accounts, the outside work is
//! the caller's.

use vstd::prelude::*;
use crate::error::Reply;
use crate::json::{self, Json, JsonView};
use crate::middleware;
use crate::routes::v1::dispatch::{self, Account, Action, ActionView, Effect, EffectView, Protocol, Turn, TurnView, Usage, UsageLog, UsageLogView};
use crate::text;

verus! {

/// An account and the model to ask it for.
pub struct AggregateCandidate {
    pub account_id: i64,
    pub model: String,
}

/// What an aggregate alias stands for.
pub struct AggregateResolution {
    pub alias: String,
    pub candidates: Vec<AggregateCandidate>,
    pub active: usize,
    pub upstream_api: String,
}

/// How the candidates of an aggregate are asked.
#[derive(Clone, Copy, PartialEq, Eq, Structural, Debug)]
pub enum Manner {
    /// In the client's own protocol.
    Plain(Protocol),
    /// In the protocol that each candidate is reached by, for a client of a protocol.
    Converting(Protocol),
}

/// A dispatch over candidates, and the one whose turn it is.
pub struct Candidates {
    pub manner: Manner,
    pub alias: String,
    pub candidates: Vec<AggregateCandidate>,
    pub at: usize,
}

/// Whether errors go out in the Anthropic schema.
pub open spec fn anthropic_manner(m: Manner) -> bool {
    m == Manner::Converting(Protocol::Messages)
}

/// The place where a request begins: the active candidate, if the list is that long.
pub open spec fn first_candidate(active: nat, len: nat) -> nat {
    if len == 0 {
        0
    } else if active < len {
        active
    } else {
        (len - 1) as nat
    }
}

/// The place where a request begins.
pub fn begin_at(active: usize, len: usize) -> (r: usize)
    ensures
        r == first_candidate(active as nat, len as nat),
{
    if len == 0 {
        0
    } else if active < len {
        active
    } else {
        len - 1
    }
}

/// Whether two dispatches differ at most in the candidate whose turn it is.
pub open spec fn same_list(a: Candidates, b: Candidates) -> bool {
    a.manner == b.manner && a.alias == b.alias && a.candidates == b.candidates
}

/// The model of the candidate whose turn it is.
pub open spec fn current_model(c: Candidates) -> Seq<char> {
    c.candidates@[c.at as int].model@
}

/// The effects of a dispatch that ends without an answer.
pub open spec fn exhausted_effects(c: Candidates, error: Seq<char>) -> Seq<EffectView> {
    seq![EffectView::AllFailed] + (if c.manner is Plain && c.candidates@.len() > 0 {
        seq![
            EffectView::Log(
                UsageLogView {
                    account_id: c.candidates@[0].account_id,
                    model: c.candidates@[0].model@,
                    provider_id: seq![],
                    usage: dispatch::no_usage(),
                    error_message: Some(error),
                    response_body: None,
                },
            ),
        ]
    } else {
        seq![]
    }) + seq![EffectView::Finished { status: 502, model: c.alias@ }]
}

/// The turn in which a candidate is given up: the next one is tried, or the dispatch ends with the
/// error of the last.
pub open spec fn given_up(c: Candidates, error: Seq<char>, effects: Seq<EffectView>) -> TurnView {
    if c.at + 1 < c.candidates@.len() {
        TurnView { effects, action: ActionView::Try((c.at + 1) as nat) }
    } else {
        TurnView {
            effects: effects + exhausted_effects(c, error),
            action: ActionView::Answer(
                dispatch::bad_gateway(error, anthropic_manner(c.manner)),
            ),
        }
    }
}

/// The place of the candidate whose turn follows when one is given up.
pub open spec fn next_at(c: Candidates) -> int {
    if c.at + 1 < c.candidates@.len() {
        c.at + 1
    } else {
        c.at as int
    }
}

/// The effect by which the aggregate router learns of a failed candidate.
pub open spec fn failed(c: Candidates) -> EffectView {
    EffectView::CandidateFailed(c.at as nat)
}

/// The effects of an attempt that failed with something to show.
pub open spec fn shown_failure(
    c: Candidates,
    account: Account,
    status: u16,
    message: Seq<char>,
) -> Seq<EffectView> {
    if c.manner is Plain {
        seq![failed(c), EffectView::Retry { account: account.alias@, status, message }]
    } else {
        seq![failed(c)]
    }
}

/// The log entry of an attempt that an upstream rejected for good.
pub open spec fn rejection_log(c: Candidates, account: Account, error: Seq<char>) -> EffectView {
    EffectView::Log(
        UsageLogView {
            account_id: account.id,
            model: current_model(c),
            provider_id: account.provider_id@,
            usage: dispatch::no_usage(),
            error_message: Some(error),
            response_body: None,
        },
    )
}

/// The turn after a rejection that no other account of the same kind would lift. The next
/// candidate is tried all the same.
pub open spec fn refused(c: Candidates, account: Account, status: u16, body: Seq<char>) -> TurnView {
    let error = dispatch::rejection_text(status, body);
    given_up(
        c,
        error,
        if c.manner is Plain {
            seq![
                rejection_log(c, account, error),
                EffectView::Finished { status, model: current_model(c) },
                failed(c),
            ]
        } else {
            seq![failed(c)]
        },
    )
}

/// The effects of a turn in which the candidate whose turn it is serves the request.
pub open spec fn hit_effects(c: Candidates) -> Seq<EffectView> {
    seq![
        EffectView::CandidateServed(c.at as nat),
        EffectView::Outcome(c.at as nat),
        EffectView::Finished { status: 200, model: current_model(c) },
    ]
}

/// The turn in which a candidate's answer goes out.
pub open spec fn served(c: Candidates, account: Account, usage: Usage, answer: JsonView) -> TurnView {
    TurnView {
        effects: seq![
            EffectView::Log(
                UsageLogView {
                    account_id: account.id,
                    model: current_model(c),
                    provider_id: account.provider_id@,
                    usage,
                    error_message: None,
                    response_body: Some(json::rendered(answer)),
                },
            ),
        ] + hit_effects(c),
        action: ActionView::Answer((200u16, answer)),
    }
}

/// Whether a candidate can be asked in its target protocol. A chat request that is to be converted
/// goes to the responses protocol only.
pub open spec fn can_serve(m: Manner, target: Protocol, supported: bool) -> bool {
    match m {
        Manner::Plain(_) => true,
        Manner::Converting(p) => if p == Protocol::Messages {
            supported
        } else {
            target == Protocol::Responses
        },
    }
}

/// The message for a candidate that cannot be asked in its target protocol.
pub open spec fn cannot_serve_text(c: Candidates, target: Protocol) -> Seq<char> {
    let named = if anthropic_manner(c.manner) {
        target
    } else {
        Protocol::Responses
    };
    "Candidate "@ + text::decimal(c.at as nat) + " account "@ + text::decimal_int(
        c.candidates@[c.at as int].account_id as int,
    ) + " cannot serve "@ + crate::routes::v1::failover::protocol_name(named) + " target"@
}

/// The first turn of a dispatch over candidates.
pub open spec fn started(c: Candidates, allowed_models: Seq<char>, active: nat) -> TurnView {
    if c.manner is Plain && !middleware::model_allowed(allowed_models, c.alias@) {
        TurnView {
            effects: seq![],
            action: ActionView::Answer(dispatch::not_allowed(c.alias@, false)),
        }
    } else if c.candidates@.len() > 0 {
        TurnView {
            effects: seq![],
            action: ActionView::Try(first_candidate(active, c.candidates@.len())),
        }
    } else if c.manner is Plain {
        TurnView {
            effects: seq![],
            action: ActionView::Answer(
                (
                    500u16,
                    middleware::dual_error(
                        "Aggregate alias has no candidates"@,
                        "server_error"@,
                        500,
                        false,
                    ),
                ),
            ),
        }
    } else {
        TurnView {
            effects: exhausted_effects(c, "All aggregate candidates exhausted"@),
            action: ActionView::Answer(
                dispatch::bad_gateway(
                    "All aggregate candidates exhausted"@,
                    anthropic_manner(c.manner),
                ),
            ),
        }
    }
}

/// The turn that follows an error of a candidate's upstream.
pub open spec fn rejected_turn(
    c: Candidates,
    account: Account,
    status: u16,
    body: Seq<char>,
    retryable: bool,
    unsupported_api: bool,
) -> TurnView {
    if retryable {
        given_up(
            c,
            dispatch::rejection_text(status, body),
            shown_failure(c, account, status, body),
        )
    } else if c.manner == Manner::Plain(Protocol::Chat) && unsupported_api
        && account.messages_endpoint is Some {
        TurnView { effects: seq![], action: ActionView::TryMessages(c.at as nat) }
    } else {
        refused(c, account, status, body)
    }
}

/// The turn that follows a try of the account's messages endpoint.
pub open spec fn messages_turn(
    c: Candidates,
    answered: bool,
    account: Account,
    status: u16,
    body: Seq<char>,
) -> TurnView {
    if answered {
        TurnView {
            effects: seq![
                EffectView::Outcome(c.at as nat),
                EffectView::Finished { status: 200, model: current_model(c) },
            ],
            action: ActionView::Deliver(c.at as nat),
        }
    } else {
        refused(c, account, status, body)
    }
}

impl Candidates {
    /// Whether it is some candidate's turn.
    pub open spec fn running(&self) -> bool {
        self.at < self.candidates@.len()
    }

    fn is_plain(&self) -> (r: bool)
        ensures
            r == (self.manner is Plain),
    {
        match self.manner {
            Manner::Plain(_) => true,
            Manner::Converting(_) => false,
        }
    }

    fn anthropic(&self) -> (r: bool)
        ensures
            r == anthropic_manner(self.manner),
    {
        match self.manner {
            Manner::Converting(p) => match p {
                Protocol::Messages => true,
                _ => false,
            },
            Manner::Plain(_) => false,
        }
    }

    fn exhausted(&self, error: &str, before: Vec<Effect>) -> (r: Turn)
        ensures
            r@ == (TurnView {
                effects: dispatch::effects_view(before@) + exhausted_effects(*self, error@),
                action: ActionView::Answer(
                    dispatch::bad_gateway(error@, anthropic_manner(self.manner)),
                ),
            }),
    {
        let mut effects = before;
        dispatch::push_effect(&mut effects, Effect::AllFailed);
        if self.is_plain() && self.candidates.len() > 0 {
            let provider_id = String::new();
            assert(provider_id@ =~= seq![]);
            dispatch::push_effect(
                &mut effects,
                Effect::Log(
                    UsageLog {
                        account_id: self.candidates[0].account_id,
                        model: self.candidates[0].model.clone(),
                        provider_id,
                        usage: Usage { input: 0, output: 0, cache_read: 0, cache_creation: 0 },
                        error_message: Some(error.to_owned()),
                        response_body: None,
                    },
                ),
            );
        }
        dispatch::push_effect(
            &mut effects,
            Effect::Finished { status: 502, model: self.alias.clone() },
        );
        assert(dispatch::effects_view(effects@) =~= dispatch::effects_view(before@)
            + exhausted_effects(*self, error@));
        Turn {
            effects,
            action: Action::Answer(
                middleware::send_error(error, "upstream_error", 502, self.anthropic()),
            ),
        }
    }

    fn give_up(&mut self, error: &str, effects: Vec<Effect>) -> (r: Turn)
        requires
            old(self).running(),
        ensures
            r@ == given_up(*old(self), error@, dispatch::effects_view(effects@)),
            same_list(*final(self), *old(self)),
            final(self).at == next_at(*old(self)),
    {
        if self.candidates.len() - self.at > 1 {
            self.at = self.at + 1;
            Turn { effects, action: Action::Try(self.at) }
        } else {
            self.exhausted(error, effects)
        }
    }

    fn give_up_quietly(&mut self, error: &str) -> (r: Turn)
        requires
            old(self).running(),
        ensures
            r@ == given_up(*old(self), error@, seq![failed(*old(self))]),
            same_list(*final(self), *old(self)),
            final(self).at == next_at(*old(self)),
    {
        let mut effects: Vec<Effect> = Vec::new();
        dispatch::push_effect(&mut effects, Effect::CandidateFailed(self.at));
        assert(dispatch::effects_view(effects@) =~= seq![failed(*self)]);
        self.give_up(error, effects)
    }

    /// The first turn. A plain dispatch needs a policy that admits the alias, and candidates.
    pub fn start(&mut self, allowed_models: &str, active: usize) -> (r: Turn)
        ensures
            same_list(*final(self), *old(self)),
            final(self).at == first_candidate(active as nat, old(self).candidates@.len()),
            r@ == started(*old(self), allowed_models@, active as nat),
            if old(self).manner is Plain && !middleware::model_allowed(
                allowed_models@,
                old(self).alias@,
            ) {
                r@ == (TurnView {
                    effects: seq![],
                    action: ActionView::Answer(dispatch::not_allowed(old(self).alias@, false)),
                })
            } else if old(self).candidates@.len() > 0 {
                r@ == (TurnView { effects: seq![], action: ActionView::Try(final(self).at as nat) })
            } else if old(self).manner is Plain {
                r@ == (TurnView {
                    effects: seq![],
                    action: ActionView::Answer(
                        (
                            500u16,
                            middleware::dual_error(
                                "Aggregate alias has no candidates"@,
                                "server_error"@,
                                500,
                                false,
                            ),
                        ),
                    ),
                })
            } else {
                r@ == (TurnView {
                    effects: exhausted_effects(
                        *old(self),
                        "All aggregate candidates exhausted"@,
                    ),
                    action: ActionView::Answer(
                        dispatch::bad_gateway(
                            "All aggregate candidates exhausted"@,
                            anthropic_manner(old(self).manner),
                        ),
                    ),
                })
            },
    {
        self.at = begin_at(active, self.candidates.len());
        let effects: Vec<Effect> = Vec::new();
        assert(dispatch::effects_view(effects@) =~= seq![]);
        if self.is_plain() {
            if !middleware::is_model_allowed(allowed_models, self.alias.as_str()) {
                return Turn {
                    effects,
                    action: Action::Answer(dispatch::refuse_model(self.alias.as_str(), false)),
                };
            }
            if self.candidates.len() == 0 {
                return Turn {
                    effects,
                    action: Action::Answer(
                        middleware::send_error(
                            "Aggregate alias has no candidates",
                            "server_error",
                            500,
                            false,
                        ),
                    ),
                };
            }
        }
        if self.candidates.len() > 0 {
            return Turn { effects, action: Action::Try(self.at) };
        }
        let r = self.exhausted("All aggregate candidates exhausted", effects);
        assert(seq![] + exhausted_effects(*self, "All aggregate candidates exhausted"@)
            =~= exhausted_effects(*old(self), "All aggregate candidates exhausted"@));
        r
    }

    /// The candidate's account is not there.
    pub fn account_missing(&mut self) -> (r: Turn)
        requires
            old(self).running(),
        ensures
            same_list(*final(self), *old(self)),
            final(self).at == next_at(*old(self)),
            r@ == given_up(
                *old(self),
                "Candidate "@ + text::decimal(old(self).at as nat) + " account "@
                    + text::decimal_int(
                    old(self).candidates@[old(self).at as int].account_id as int,
                ) + (if old(self).manner is Plain {
                    " not found or inactive"@
                } else {
                    " not found"@
                }),
                seq![failed(*old(self))],
            ),
    {
        let tail = if self.is_plain() {
            " not found or inactive"
        } else {
            " not found"
        };
        let message = "Candidate ".to_owned().concat(
            text::decimal_u64(self.at as u64).as_str(),
        ).concat(" account ").concat(
            text::decimal_i64(self.candidates[self.at].account_id).as_str(),
        ).concat(tail);
        self.give_up_quietly(message.as_str())
    }

    /// The candidate's account could not be loaded.
    pub fn account_failed(&mut self, error: &str) -> (r: Turn)
        requires
            old(self).running(),
        ensures
            same_list(*final(self), *old(self)),
            final(self).at == next_at(*old(self)),
            r@ == given_up(
                *old(self),
                "Failed to load account "@ + text::decimal_int(
                    old(self).candidates@[old(self).at as int].account_id as int,
                ) + ": "@ + error@,
                seq![failed(*old(self))],
            ),
    {
        let message = "Failed to load account ".to_owned().concat(
            text::decimal_i64(self.candidates[self.at].account_id).as_str(),
        ).concat(": ").concat(error);
        self.give_up_quietly(message.as_str())
    }

    /// Whether the candidate can be asked in its target protocol; if not, it is given up.
    pub fn check_target(&mut self, target: Protocol, supported: bool) -> (r: Option<Turn>)
        requires
            old(self).running(),
        ensures
            same_list(*final(self), *old(self)),
            if can_serve(old(self).manner, target, supported) {
                r is None && final(self).at == old(self).at
            } else {
                r is Some && r->0@ == given_up(
                    *old(self),
                    cannot_serve_text(*old(self), target),
                    seq![failed(*old(self))],
                ) && final(self).at == next_at(*old(self))
            },
    {
        let (serves, named) = match self.manner {
            Manner::Plain(_) => (true, Protocol::Responses),
            Manner::Converting(p) => match p {
                Protocol::Messages => (supported, target),
                _ => (target == Protocol::Responses, Protocol::Responses),
            },
        };
        if serves {
            return None;
        }
        let message = "Candidate ".to_owned().concat(
            text::decimal_u64(self.at as u64).as_str(),
        ).concat(" account ").concat(
            text::decimal_i64(self.candidates[self.at].account_id).as_str(),
        ).concat(" cannot serve ").concat(
            crate::routes::v1::failover::protocol_text(named),
        ).concat(" target");
        Some(self.give_up_quietly(message.as_str()))
    }

    /// The request could not be converted to the candidate's protocol.
    pub fn conversion_failed(&mut self, error: &str) -> (r: Turn)
        requires
            old(self).running(),
        ensures
            same_list(*final(self), *old(self)),
            final(self).at == next_at(*old(self)),
            r@ == given_up(
                *old(self),
                "Request conversion failed: "@ + error@,
                seq![failed(*old(self))],
            ),
    {
        let message = "Request conversion failed: ".to_owned().concat(error);
        self.give_up_quietly(message.as_str())
    }

    fn failing(&self, account: &Account, status: u16, message: &str) -> (r: Vec<Effect>)
        ensures
            dispatch::effects_view(r@) == shown_failure(*self, *account, status, message@),
    {
        let mut effects: Vec<Effect> = Vec::new();
        dispatch::push_effect(&mut effects, Effect::CandidateFailed(self.at));
        if self.is_plain() {
            dispatch::push_effect(
                &mut effects,
                Effect::Retry {
                    account: account.alias.clone(),
                    status,
                    message: message.to_owned(),
                },
            );
        }
        assert(dispatch::effects_view(effects@) =~= shown_failure(
            *self,
            *account,
            status,
            message@,
        ));
        effects
    }

    /// The request could not be sent.
    pub fn network_failed(&mut self, account: &Account, error: &str) -> (r: Turn)
        requires
            old(self).running(),
        ensures
            same_list(*final(self), *old(self)),
            final(self).at == next_at(*old(self)),
            r@ == given_up(
                *old(self),
                "Provider request failed: "@ + error@,
                shown_failure(*old(self), *account, 0, "Network error: "@ + error@),
            ),
    {
        let shown = "Network error: ".to_owned().concat(error);
        let effects = self.failing(account, 0, shown.as_str());
        let message = "Provider request failed: ".to_owned().concat(error);
        self.give_up(message.as_str(), effects)
    }

    fn refuse(&mut self, account: &Account, status: u16, body: &str) -> (r: Turn)
        requires
            old(self).running(),
            100 <= status <= 999,
        ensures
            same_list(*final(self), *old(self)),
            final(self).at == next_at(*old(self)),
            r@ == refused(*old(self), *account, status, body@),
    {
        let message = dispatch::rejection(status, body);
        let mut effects: Vec<Effect> = Vec::new();
        if self.is_plain() {
            dispatch::push_effect(
                &mut effects,
                Effect::Log(
                    UsageLog {
                        account_id: account.id,
                        model: self.candidates[self.at].model.clone(),
                        provider_id: account.provider_id.clone(),
                        usage: Usage { input: 0, output: 0, cache_read: 0, cache_creation: 0 },
                        error_message: Some(message.clone()),
                        response_body: None,
                    },
                ),
            );
            dispatch::push_effect(
                &mut effects,
                Effect::Finished { status, model: self.candidates[self.at].model.clone() },
            );
        }
        dispatch::push_effect(&mut effects, Effect::CandidateFailed(self.at));
        proof {
            let error = dispatch::rejection_text(status, body@);
            if self.manner is Plain {
                assert(dispatch::effects_view(effects@) =~= seq![
                    rejection_log(*self, *account, error),
                    EffectView::Finished { status, model: current_model(*self) },
                    failed(*self),
                ]);
            } else {
                assert(dispatch::effects_view(effects@) =~= seq![failed(*self)]);
            }
        }
        self.give_up(message.as_str(), effects)
    }

    /// The upstream answered with an error. A plain chat request for a model that is not served
    /// there goes to the account's messages endpoint, where it has one.
    pub fn rejected(
        &mut self,
        account: &Account,
        status: u16,
        body: &str,
        retryable: bool,
        unsupported_api: bool,
    ) -> (r: Turn)
        requires
            old(self).running(),
            100 <= status <= 999,
        ensures
            same_list(*final(self), *old(self)),
            r@ == rejected_turn(*old(self), *account, status, body@, retryable, unsupported_api),
            if retryable {
                r@ == given_up(
                    *old(self),
                    dispatch::rejection_text(status, body@),
                    shown_failure(*old(self), *account, status, body@),
                ) && final(self).at == next_at(*old(self))
            } else if old(self).manner == Manner::Plain(Protocol::Chat) && unsupported_api
                && account.messages_endpoint is Some {
                r@ == (TurnView {
                    effects: seq![],
                    action: ActionView::TryMessages(old(self).at as nat),
                }) && final(self).at == old(self).at
            } else {
                r@ == refused(*old(self), *account, status, body@) && final(self).at == next_at(
                    *old(self),
                )
            },
    {
        if retryable {
            let effects = self.failing(account, status, body);
            let message = dispatch::rejection(status, body);
            return self.give_up(message.as_str(), effects);
        }
        let chat = match self.manner {
            Manner::Plain(p) => match p {
                Protocol::Chat => true,
                _ => false,
            },
            Manner::Converting(_) => false,
        };
        if chat && unsupported_api && account.messages_endpoint.is_some() {
            let effects: Vec<Effect> = Vec::new();
            assert(dispatch::effects_view(effects@) =~= seq![]);
            return Turn { effects, action: Action::TryMessages(self.at) };
        }
        self.refuse(account, status, body)
    }

    /// What came of the account's messages endpoint, after an error of its chat endpoint.
    pub fn messages_tried(
        &mut self,
        answered: bool,
        account: &Account,
        status: u16,
        body: &str,
    ) -> (r: Turn)
        requires
            old(self).running(),
            100 <= status <= 999,
        ensures
            same_list(*final(self), *old(self)),
            r@ == messages_turn(*old(self), answered, *account, status, body@),
            if answered {
                r@ == (TurnView {
                    effects: seq![
                        EffectView::Outcome(old(self).at as nat),
                        EffectView::Finished { status: 200, model: current_model(*old(self)) },
                    ],
                    action: ActionView::Deliver(old(self).at as nat),
                }) && final(self).at == old(self).at
            } else {
                r@ == refused(*old(self), *account, status, body@) && final(self).at == next_at(
                    *old(self),
                )
            },
    {
        if answered {
            let mut effects: Vec<Effect> = Vec::new();
            dispatch::push_effect(&mut effects, Effect::Outcome(self.at));
            dispatch::push_effect(
                &mut effects,
                Effect::Finished { status: 200, model: self.candidates[self.at].model.clone() },
            );
            assert(dispatch::effects_view(effects@) =~= seq![
                EffectView::Outcome(self.at as nat),
                EffectView::Finished { status: 200, model: current_model(*self) },
            ]);
            return Turn { effects, action: Action::Deliver(self.at) };
        }
        self.refuse(account, status, body)
    }

    /// The response could not be read.
    pub fn read_failed(&mut self, error: &str) -> (r: Turn)
        requires
            old(self).running(),
        ensures
            same_list(*final(self), *old(self)),
            final(self).at == next_at(*old(self)),
            r@ == given_up(
                *old(self),
                "Failed to read response: "@ + error@,
                seq![failed(*old(self))],
            ),
    {
        let message = "Failed to read response: ".to_owned().concat(error);
        self.give_up_quietly(message.as_str())
    }

    /// The response is no JSON.
    pub fn parse_failed(&mut self, error: &str) -> (r: Turn)
        requires
            old(self).running(),
        ensures
            same_list(*final(self), *old(self)),
            final(self).at == next_at(*old(self)),
            r@ == given_up(
                *old(self),
                "Failed to parse response: "@ + error@,
                seq![failed(*old(self))],
            ),
    {
        let message = "Failed to parse response: ".to_owned().concat(error);
        self.give_up_quietly(message.as_str())
    }

    fn hit(&self, before: Vec<Effect>) -> (r: Vec<Effect>)
        requires
            self.running(),
        ensures
            dispatch::effects_view(r@) == dispatch::effects_view(before@) + hit_effects(*self),
    {
        let mut effects = before;
        dispatch::push_effect(&mut effects, Effect::CandidateServed(self.at));
        dispatch::push_effect(&mut effects, Effect::Outcome(self.at));
        dispatch::push_effect(
            &mut effects,
            Effect::Finished { status: 200, model: self.candidates[self.at].model.clone() },
        );
        assert(dispatch::effects_view(effects@) =~= dispatch::effects_view(before@) + hit_effects(
            *self,
        ));
        effects
    }

    /// The upstream began to stream.
    pub fn stream_opened(&self) -> (r: Turn)
        requires
            self.running(),
        ensures
            r@ == (TurnView {
                effects: hit_effects(*self),
                action: ActionView::Relay(self.at as nat),
            }),
    {
        let none: Vec<Effect> = Vec::new();
        assert(dispatch::effects_view(none@) + hit_effects(*self) =~= hit_effects(*self));
        Turn { effects: self.hit(none), action: Action::Relay(self.at) }
    }

    /// The upstream answered, and this answer goes out.
    pub fn answered(&self, account: &Account, usage: Usage, answer: Json) -> (r: Turn)
        requires
            self.running(),
        ensures
            r@ == served(*self, *account, usage, answer@),
    {
        let mut effects: Vec<Effect> = Vec::new();
        dispatch::push_effect(
            &mut effects,
            Effect::Log(
                UsageLog {
                    account_id: account.id,
                    model: self.candidates[self.at].model.clone(),
                    provider_id: account.provider_id.clone(),
                    usage,
                    error_message: None,
                    response_body: Some(json::render(&answer)),
                },
            ),
        );
        let ghost logged = dispatch::effects_view(effects@);
        let effects = self.hit(effects);
        assert(dispatch::effects_view(effects@) =~= served(
            *self,
            *account,
            usage,
            answer@,
        ).effects) by {
            assert(logged =~= seq![logged[0]]);
        }
        Turn { effects, action: Action::Answer(Reply { status: 200, body: answer }) }
    }
}

/// A dispatch after the candidate whose turn it is was given up.
pub open spec fn moved(c: Candidates) -> Candidates {
    Candidates { at: next_at(c) as usize, ..c }
}

/// A dispatch after some candidates in a row were given up.
pub open spec fn after_failures(c: Candidates, k: nat) -> Candidates
    decreases k,
{
    if k == 0 {
        c
    } else {
        moved(after_failures(c, (k - 1) as nat))
    }
}

/// Candidates are given up in order from the active one on, each once: after `k` of them the next one
/// in the list is tried, and only when the last one has failed is the request answered, with that
/// one's error.
pub proof fn lemma_candidates_in_order(
    c: Candidates,
    k: nat,
    error: Seq<char>,
    effects: Seq<EffectView>,
)
    requires
        c.running(),
        c.at + k < c.candidates@.len(),
    ensures
        after_failures(c, k).at == c.at + k,
        same_list(after_failures(c, k), c),
        given_up(after_failures(c, k), error, effects).action == (if c.at + k + 1
            < c.candidates@.len() {
            ActionView::Try((c.at + k + 1) as nat)
        } else {
            ActionView::Answer(dispatch::bad_gateway(error, anthropic_manner(c.manner)))
        }),
    decreases k,
{
    assert(c.candidates.len() == c.candidates@.len());
    if k > 0 {
        lemma_candidates_in_order(c, (k - 1) as nat, error, effects);
    }
}

/// A dispatch begins at the active candidate where there is one of that place, and at the last one
/// otherwise; so it always begins at a candidate, where the alias has any.
pub proof fn lemma_begin(active: nat, len: nat)
    ensures
        len > 0 ==> first_candidate(active, len) < len,
        active < len ==> first_candidate(active, len) == active,
        active >= len > 0 ==> first_candidate(active, len) + 1 == len,
        first_candidate(first_candidate(active, len), len) == first_candidate(active, len),
{
}

/// Where requests are forwarded as they are, the key's policy decides on the alias itself. Where it
/// admits it, and wherever it was asked before, the first candidate is tried, if there is any.
pub proof fn lemma_start(c: Candidates, allowed_models: Seq<char>, active: nat)
    ensures
        ({
            let turn = started(c, allowed_models, active);
            let n = c.candidates@.len();
            &&& c.manner is Plain && !middleware::model_allowed(allowed_models, c.alias@)
                ==> dispatch::answer_status(turn.action) == Some(401u16)
            &&& c.manner is Plain && middleware::model_allowed(allowed_models, c.alias@) && n == 0
                ==> dispatch::answer_status(turn.action) == Some(500u16)
            &&& c.manner is Converting && n == 0 ==> dispatch::answer_status(turn.action) == Some(
                502u16,
            )
            &&& (c.manner is Converting || middleware::model_allowed(allowed_models, c.alias@)) && n
                > 0 ==> turn.effects.len() == 0 && turn.action == ActionView::Try(
                if active < n {
                    active
                } else {
                    (n - 1) as nat
                },
            )
        }),
{
}

/// A candidate whose upstream answers with an error is given up, whatever the error: the next one is
/// tried, and after the last the client gets a bad gateway with the last error. The one exception is a
/// chat request for a model that is not served there, which goes to the same account's messages
/// endpoint, where it has one.
pub proof fn lemma_rejections(
    c: Candidates,
    account: Account,
    status: u16,
    body: Seq<char>,
    retryable: bool,
    unsupported_api: bool,
)
    requires
        c.running(),
    ensures
        ({
            let turn = rejected_turn(c, account, status, body, retryable, unsupported_api);
            let elsewhere = !retryable && unsupported_api && account.messages_endpoint is Some
                && c.manner is Plain && c.manner->Plain_0 is Chat;
            &&& elsewhere ==> turn.action == ActionView::TryMessages(c.at as nat)
                && turn.effects.len() == 0
            &&& !elsewhere && c.at + 1 < c.candidates@.len() ==> turn.action == ActionView::Try(
                (c.at + 1) as nat,
            )
            &&& !elsewhere && c.at + 1 == c.candidates@.len() ==> dispatch::answer_status(
                turn.action,
            ) == Some(502u16) && middleware::message_of((turn.action->Answer_0).1) == Some(
                "Provider returned "@ + dispatch::status_text(status) + ": "@ + body,
            )
            &&& !elsewhere ==> turn.effects.contains(EffectView::CandidateFailed(c.at as nat))
            &&& forall|i: int|
                0 <= i < turn.effects.len() ==> !(#[trigger] turn.effects[i] is CandidateServed)
                    && !(turn.effects[i] is Outcome)
        }),
{
    middleware::lemma_error_shape(
        dispatch::rejection_text(status, body),
        "upstream_error"@,
        502,
        anthropic_manner(c.manner),
    );
    let turn = rejected_turn(c, account, status, body, retryable, unsupported_api);
    if retryable {
        assert(turn.effects[0] == failed(c));
    } else if turn.effects.len() > 0 {
        if c.manner is Plain {
            assert(turn.effects[2] == failed(c));
        } else {
            assert(turn.effects[0] == failed(c));
        }
    }
}

/// Once the last candidate failed, the router is told that all did, and the status that is told is the
/// one that the client gets.
pub proof fn lemma_exhaustion(c: Candidates, error: Seq<char>, effects: Seq<EffectView>)
    requires
        c.at + 1 == c.candidates@.len(),
    ensures
        ({
            let turn = given_up(c, error, effects);
            &&& turn.effects.contains(EffectView::AllFailed)
            &&& turn.effects.last() == (EffectView::Finished { status: 502, model: c.alias@ })
            &&& dispatch::answer_status(turn.action) == Some(502u16)
            &&& c.manner is Plain ==> exists|i: int|
                0 <= i < turn.effects.len() && (#[trigger] turn.effects[i] matches EffectView::Log(l)
                    && l.account_id == c.candidates@[0].account_id && l.model
                    == c.candidates@[0].model@ && l.error_message == Some(error))
        }),
        c.candidates@.len() > 1 ==> forall|at: usize|
            at + 1 < c.candidates@.len() ==> (#[trigger] given_up(
                (Candidates { at, ..c }),
                error,
                effects,
            )).effects == effects,
{
    let turn = given_up(c, error, effects);
    assert(turn.effects[effects.len() as int] == EffectView::AllFailed);
    if c.manner is Plain {
        assert(turn.effects[effects.len() as int + 1] is Log);
    }
}

/// An error that is final where requests are forwarded as they are is logged of the account that gave
/// it and of the candidate's own model.
pub proof fn lemma_refusals_are_logged(
    c: Candidates,
    account: Account,
    status: u16,
    body: Seq<char>,
)
    requires
        c.running(),
        c.manner is Plain,
    ensures
        refused(c, account, status, body).effects[0] matches EffectView::Log(l) && l.account_id
            == account.id && l.model == c.candidates@[c.at as int].model@ && l.provider_id
            == account.provider_id@ && l.error_message == Some(
            "Provider returned "@ + dispatch::status_text(status) + ": "@ + body,
        ) && l.usage.input == 0 && l.usage.output == 0 && l.response_body is None,
{
}

/// A request that a candidate serves is logged once, of that account and model, with its usage and
/// answer. The candidate counts as serving, and none as failed.
pub proof fn lemma_serving(c: Candidates, account: Account, usage: Usage, answer: JsonView)
    requires
        c.running(),
    ensures
        ({
            let turn = served(c, account, usage, answer);
            &&& turn.action == ActionView::Answer((200u16, answer))
            &&& turn.effects.contains(EffectView::CandidateServed(c.at as nat))
            &&& turn.effects.contains(EffectView::Outcome(c.at as nat))
            &&& turn.effects[0] is Log
            &&& turn.effects.last() == (EffectView::Finished {
                status: 200,
                model: c.candidates@[c.at as int].model@,
            })
            &&& forall|i: int|
                0 <= i < turn.effects.len() ==> (match #[trigger] turn.effects[i] {
                    EffectView::Log(l) => l.account_id == account.id && l.model
                        == c.candidates@[c.at as int].model@ && l.provider_id == account.provider_id@
                        && l.usage == usage && l.error_message is None && l.response_body == Some(
                        json::rendered(answer),
                    ),
                    EffectView::CandidateServed(k) => k == c.at,
                    EffectView::Outcome(k) => k == c.at,
                    EffectView::Finished { .. } => true,
                    _ => false,
                })
        }),
{
    let effects = served(c, account, usage, answer).effects;
    assert(effects[1] == EffectView::CandidateServed(c.at as nat));
    assert(effects[2] == EffectView::Outcome(c.at as nat));
}

/// A candidate is asked in the protocol that it is reached by exactly where the client's protocol can
/// be converted to it: messages to any that the account supports, all others to responses alone.
pub proof fn lemma_who_can_serve(p: Protocol, target: Protocol, supported: bool)
    ensures
        can_serve(Manner::Plain(p), target, supported),
        can_serve(Manner::Converting(Protocol::Messages), target, supported) == supported,
        p != Protocol::Messages ==> (can_serve(Manner::Converting(p), target, supported) <==> target
            is Responses),
{
}

/// What came of an account's messages endpoint is delivered where it is an answer; elsewhere the
/// candidate is given up.
pub proof fn lemma_messages_tried(
    c: Candidates,
    account: Account,
    status: u16,
    body: Seq<char>,
)
    requires
        c.running(),
    ensures
        messages_turn(c, true, account, status, body).action == ActionView::Deliver(c.at as nat),
        messages_turn(c, true, account, status, body).effects.contains(
            EffectView::Outcome(c.at as nat),
        ),
        messages_turn(c, false, account, status, body).action == rejected_turn(
            c,
            account,
            status,
            body,
            true,
            false,
        ).action,
{
    assert(messages_turn(c, true, account, status, body).effects[0] == EffectView::Outcome(
        c.at as nat,
    ));
}

/// An alias without candidates is a failure of the server, told as such; nothing is logged of it.
pub proof fn lemma_no_candidates(
    c: Candidates,
    allowed_models: Seq<char>,
    active: nat,
    error: Seq<char>,
)
    requires
        c.candidates@.len() == 0,
    ensures
        forall|i: int|
            0 <= i < exhausted_effects(c, error).len() ==> !(#[trigger] exhausted_effects(c, error)[i]
                is Log),
        c.manner is Plain && middleware::model_allowed(allowed_models, c.alias@) ==> ({
            let answer = started(c, allowed_models, active).action->Answer_0;
            &&& answer.0 == 500
            &&& json::field(json::field(answer.1, "error"@)->0, "code"@) == Some(
                JsonView::Text(text::decimal(500)),
            )
            &&& middleware::message_of(answer.1) == Some("Aggregate alias has no candidates"@)
        }),
{
    middleware::lemma_error_shape(
        "Aggregate alias has no candidates"@,
        "server_error"@,
        500,
        false,
    );
}

/// When one candidate is given up, the turn passes to the next one, and stays with the last: it is always
/// some candidate's turn.
pub proof fn lemma_turn_passes(c: Candidates)
    requires
        c.running(),
    ensures
        0 <= next_at(c) < c.candidates@.len(),
        c.at + 1 < c.candidates@.len() ==> next_at(c) == c.at + 1,
        c.at + 1 == c.candidates@.len() ==> next_at(c) == c.at,
{
}

} // verus!
