//! What the gateway learns of a stream while it relays it.

use vstd::prelude::*;
use crate::json::{self, Json, JsonView};
use crate::routes::v1::dispatch::{self, Usage};
use crate::routes::v1::openai;
use crate::text;

verus! {

broadcast use crate::json::lemma_elements_view;

/// Where in a stream an event was found.
#[derive(Clone, Copy, PartialEq, Eq, Structural, Debug)]
pub enum Place {
    /// While the stream was running.
    Live,
    /// In what was left when it ended.
    Drained,
    /// At its very end, without the line that closes an event.
    Trailing,
}

/// What was learned of a chat or responses stream that goes through as it is.
pub struct StreamWatch {
    pub chunks: u64,
    pub saw_done: bool,
    pub last_finish: Option<String>,
    pub last_usage: Option<Json>,
}

/// What was learned of a stream, texts and values by their views.
#[verifier::ext_equal]
pub struct WatchView {
    pub chunks: nat,
    pub saw_done: bool,
    pub last_finish: Option<Seq<char>>,
    pub last_usage: Option<JsonView>,
}

/// The view of an optional owned value.
pub open spec fn some_json(v: Option<Json>) -> Option<JsonView> {
    match v {
        Some(j) => Some(j@),
        None => None,
    }
}

impl View for StreamWatch {
    type V = WatchView;

    open spec fn view(&self) -> WatchView {
        WatchView {
            chunks: self.chunks as nat,
            saw_done: self.saw_done,
            last_finish: json::some_string(self.last_finish),
            last_usage: some_json(self.last_usage),
        }
    }
}

/// Whether a payload closes the stream.
pub open spec fn closes(payload: Seq<char>) -> bool {
    text::trimmed(payload) == "[DONE]"@
}

/// Whether a payload closes the stream.
pub fn is_done_payload(payload: &str) -> (r: bool)
    ensures
        r == closes(payload@),
{
    text::same(text::trim(payload).as_str(), "[DONE]")
}

/// The first choice of an event.
pub open spec fn first_choice(event: JsonView) -> Option<JsonView> {
    match json::array_in(json::field(event, "choices"@)) {
        Some(s) => if s.len() > 0 {
            Some(s[0])
        } else {
            None
        },
        None => None,
    }
}

fn choice_of(event: &Json) -> (r: Option<&Json>)
    ensures
        json::some_view(r) == first_choice(event@),
{
    match event.get("choices") {
        Some(j) => match j.as_array() {
            Some(v) => if v.len() > 0 {
                Some(&v[0])
            } else {
                None
            },
            None => None,
        },
        None => None,
    }
}

/// The finish reason after an event: a reason replaces it, a null clears it unless the event was
/// cut off, and anything else leaves it.
pub open spec fn finish_after(
    before: Option<Seq<char>>,
    event: JsonView,
    place: Place,
) -> Option<Seq<char>> {
    match first_choice(event) {
        Some(choice) => match json::field(choice, "finish_reason"@) {
            Some(JsonView::Text(s)) => if s.len() > 0 {
                Some(s)
            } else {
                before
            },
            Some(JsonView::Null) => if place == Place::Trailing {
                before
            } else {
                None
            },
            _ => before,
        },
        None => before,
    }
}

/// The usage after an event: what it holds under `usage`. While the stream is running, something
/// that is no object counts only beside a choice.
pub open spec fn usage_after(
    before: Option<JsonView>,
    event: JsonView,
    place: Place,
) -> Option<JsonView> {
    match json::field(event, "usage"@) {
        Some(u) => if place != Place::Live || u is Object || first_choice(event) is Some {
            Some(u)
        } else {
            before
        },
        None => before,
    }
}

/// What is known of a stream after an event, given what its payload says as JSON.
pub open spec fn observed(
    w: WatchView,
    payload: Seq<char>,
    says: Option<JsonView>,
    place: Place,
) -> WatchView {
    if closes(payload) {
        WatchView { saw_done: true, ..w }
    } else {
        match says {
            Some(event) => WatchView {
                last_finish: finish_after(w.last_finish, event, place),
                last_usage: usage_after(w.last_usage, event, place),
                ..w
            },
            None => w,
        }
    }
}

/// Whether the upstream said that the stream is complete.
pub open spec fn complete(w: WatchView) -> bool {
    w.saw_done || (w.last_finish is Some && w.last_finish->0.len() > 0)
}

/// Whether a stream was complete but held nothing.
pub open spec fn empty_answer(w: WatchView) -> bool {
    complete(w) && openai::count_in(w.last_usage, "completion_tokens"@) == 0 && w.chunks <= 4
}

/// Whether a stream that is over counts as served.
pub open spec fn stream_served(w: WatchView) -> bool {
    complete(w) && !empty_answer(w)
}

/// The words for a truth value.
pub open spec fn truth(b: bool) -> Seq<char> {
    if b {
        "true"@
    } else {
        "false"@
    }
}

fn truth_text(b: bool) -> (r: &'static str)
    ensures
        r@ == truth(b),
{
    if b {
        "true"
    } else {
        "false"
    }
}

/// What is logged of a stream once it is over.
pub struct StreamLog {
    pub usage: Usage,
    pub success: bool,
    pub error_message: Option<String>,
}

/// The tokens of the prompt of a stream that did not come from the cache.
pub open spec fn stream_input(w: WatchView, cache_read: i64) -> int {
    dispatch::fresh(openai::count_in(w.last_usage, "prompt_tokens"@) as int, cache_read as int)
}

/// Whether a prompt is larger than what the model takes.
pub open spec fn overflows(input: int, limit: Option<u64>) -> bool {
    match limit {
        Some(l) => input > l,
        None => false,
    }
}

/// The message for a stream that was cut off or held nothing.
pub open spec fn truncation_text(w: WatchView, cache_read: i64, limit: Option<u64>) -> Seq<char> {
    "truncated: finish_reason=null chunks="@ + text::decimal(w.chunks) + " saw_done="@ + truth(
        w.saw_done,
    ) + " empty="@ + truth(empty_answer(w)) + " overflow="@ + truth(
        overflows(stream_input(w, cache_read), limit),
    )
}

impl StreamWatch {
    /// Nothing is known yet.
    pub fn new() -> (r: StreamWatch)
        ensures
            r@ == (WatchView { chunks: 0, saw_done: false, last_finish: None, last_usage: None }),
    {
        StreamWatch { chunks: 0, saw_done: false, last_finish: None, last_usage: None }
    }

    /// Bytes came in.
    pub fn chunk(&mut self)
        requires
            old(self).chunks < u64::MAX,
        ensures
            final(self)@ == (WatchView { chunks: old(self)@.chunks + 1, ..old(self)@ }),
    {
        self.chunks = self.chunks + 1;
    }

    /// An event came in, given what its payload says as JSON.
    pub fn note(&mut self, payload: &str, says: Option<Json>, place: Place)
        ensures
            final(self)@ == observed(old(self)@, payload@, some_json(says), place),
    {
        if is_done_payload(payload) {
            self.saw_done = true;
            return;
        }
        let event = match says {
            Some(e) => e,
            None => {
                return;
            },
        };
        let trailing = match place {
            Place::Trailing => true,
            _ => false,
        };
        let live = match place {
            Place::Live => true,
            _ => false,
        };
        let mut has_choice = false;
        if let Some(choice) = choice_of(&event) {
            has_choice = true;
            if let Some(fr) = choice.get("finish_reason") {
                match fr {
                    Json::Null => {
                        if !trailing {
                            self.last_finish = None;
                        }
                    },
                    Json::Text(s) => {
                        if !s.as_str().is_empty() {
                            self.last_finish = Some(s.clone());
                        }
                    },
                    _ => {},
                }
            }
        }
        if let Some(u) = event.get("usage") {
            let object = match u {
                Json::Object(_) => true,
                _ => false,
            };
            if !live || object || has_choice {
                self.last_usage = Some(u.copy());
            }
        }
    }

    /// An event came in.
    pub fn observe(&mut self, payload: &str, place: Place)
        ensures
            final(self)@ == observed(old(self)@, payload@, json::parsed(payload@), place),
    {
        let says = json::parse(payload);
        self.note(payload, says, place);
    }

    /// The stream is over. It counts as served only if it was complete and held something.
    pub fn finish(&self, cache_read: i64, limit: Option<u64>) -> (r: StreamLog)
        requires
            i64::MIN <= openai::count_in(self@.last_usage, "prompt_tokens"@) - cache_read
                <= i64::MAX,
        ensures
            r.usage == (Usage {
                input: stream_input(self@, cache_read) as i64,
                output: openai::count_in(self@.last_usage, "completion_tokens"@),
                cache_read,
                cache_creation: 0,
            }),
            r.success == (complete(self@) && !empty_answer(self@)),
            r.success == stream_served(self@),
            self.saw_done && self.chunks > 4 ==> r.success && r.error_message is None,
            !self.saw_done && (self.last_finish is None || self.last_finish->0@.len() == 0)
                ==> !r.success,
            self.last_usage is None && self.chunks <= 4 ==> !r.success,
            r.success == (r.error_message is None),
            json::some_string(r.error_message) == (if r.success {
                None
            } else {
                Some(truncation_text(self@, cache_read, limit))
            }),
    {
        let (raw, output) = match &self.last_usage {
            Some(u) => (
                openai::count(Some(u), "prompt_tokens"),
                openai::count(Some(u), "completion_tokens"),
            ),
            None => (0, 0),
        };
        let input: i64 = dispatch::fresh_tokens(raw, cache_read);
        let finished = match &self.last_finish {
            Some(s) => !s.as_str().is_empty(),
            None => false,
        };
        let done = self.saw_done || finished;
        let empty = done && output == 0 && self.chunks <= 4;
        let overflow = match limit {
            Some(l) => (input as u64) > l,
            None => false,
        };
        let success = done && !empty;
        let error_message = if success {
            None
        } else {
            Some(
                "truncated: finish_reason=null chunks=".to_owned().concat(
                    text::decimal_u64(self.chunks).as_str(),
                ).concat(" saw_done=").concat(truth_text(self.saw_done)).concat(" empty=").concat(
                    truth_text(empty),
                ).concat(" overflow=").concat(truth_text(overflow)),
            )
        };
        StreamLog {
            usage: Usage { input, output, cache_read, cache_creation: 0 },
            success,
            error_message,
        }
    }
}

/// The time to the first byte that went out, after one more attempt to send something.
pub open spec fn first_sent(noted: Option<i64>, sent: bool, now: i64) -> Option<i64> {
    match noted {
        Some(t) => Some(t),
        None => if sent {
            Some(now)
        } else {
            None
        },
    }
}

/// The time to the first byte that went out: the first time that is noted stays.
pub fn first_byte(noted: Option<i64>, sent: bool, now: i64) -> (r: Option<i64>)
    ensures
        r == first_sent(noted, sent, now),
        r == (if noted is None && sent {
            Some(now)
        } else {
            noted
        }),
{
    match noted {
        Some(t) => Some(t),
        None => if sent {
            Some(now)
        } else {
            None
        },
    }
}

/// What to do with an event of a stream that is being converted.
pub enum Feed {
    /// The stream is complete.
    Done,
    /// It says nothing.
    Skip,
    /// Hand this to the converter.
    Convert(Json),
}

/// What to do with an event, given what its payload says as JSON.
pub fn feed_of(payload: &str, says: Option<Json>) -> (r: Feed)
    ensures
        if closes(payload@) {
            r is Done
        } else {
            match says {
                Some(j) => r == Feed::Convert(j),
                None => r is Skip,
            }
        },
{
    if is_done_payload(payload) {
        return Feed::Done;
    }
    match says {
        Some(j) => Feed::Convert(j),
        None => Feed::Skip,
    }
}

/// What is logged of a chat stream that was converted to the messages protocol.
pub fn chat_stream_log(usage: Usage, done: bool, chunks: u64) -> (r: StreamLog)
    ensures
        r.usage == usage,
        r.success == done,
        json::some_string(r.error_message) == (if done {
            None
        } else {
            Some("truncated: done=false chunks="@ + text::decimal(chunks as nat))
        }),
{
    let error_message = if done {
        None
    } else {
        Some(
            "truncated: done=false chunks=".to_owned().concat(text::decimal_u64(chunks).as_str()),
        )
    };
    StreamLog { usage, success: done, error_message }
}

/// What is logged of a responses stream that was converted to the chat protocol.
pub fn responses_stream_log(usage: Usage, complete: bool, chunks: u64) -> (r: StreamLog)
    ensures
        r.usage == usage,
        r.success == complete,
        json::some_string(r.error_message) == (if complete {
            None
        } else {
            Some(
                "Responses upstream ended without terminal event after "@ + text::decimal(
                    chunks as nat,
                ) + " chunks"@,
            )
        }),
{
    let error_message = if complete {
        None
    } else {
        Some(
            "Responses upstream ended without terminal event after ".to_owned().concat(
                text::decimal_u64(chunks).as_str(),
            ).concat(" chunks"),
        )
    };
    StreamLog { usage, success: complete, error_message }
}

/// The usage that a messages stream reports piece by piece.
pub struct MessagesWatch {
    pub usage: Option<Json>,
}

/// The usage after an event of a messages stream: its start gives it, a delta gives the output.
pub open spec fn messages_usage_after(before: Option<JsonView>, event: JsonView) -> Option<JsonView> {
    match json::text_in(json::field(event, "type"@)) {
        Some(t) => if t == "message_start"@ {
            match json::field(event, "message"@) {
                Some(m) => json::field(m, "usage"@),
                None => None,
            }
        } else if t == "message_delta"@ {
            match delta_output(event) {
                Some(n) => Some(with_output(before, n)),
                None => before,
            }
        } else {
            before
        },
        None => before,
    }
}

/// The output count of a delta event.
pub open spec fn delta_output(event: JsonView) -> Option<i64> {
    match json::field(event, "usage"@) {
        Some(u) => json::i64_in(json::field(u, "output_tokens"@)),
        None => None,
    }
}

/// A usage object with the output count replaced.
pub open spec fn with_output(usage: Option<JsonView>, n: i64) -> JsonView {
    match usage {
        Some(JsonView::Object(m)) => JsonView::Object(
            m.insert("output_tokens"@, JsonView::Int(n as int)),
        ),
        _ => JsonView::Object(map!["output_tokens"@ => JsonView::Int(n as int)]),
    }
}

/// Whether an event sets the output count.
pub open spec fn sets_output_count(event: JsonView) -> bool {
    json::text_in(json::field(event, "type"@)) == Some("message_delta"@) && delta_output(
        event,
    ) is Some
}

/// Whether a usage that was reported can take an output count.
pub open spec fn takes_output(usage: Option<JsonView>) -> bool {
    match usage {
        Some(v) => v is Object || v is Null,
        None => true,
    }
}

impl MessagesWatch {
    /// Nothing was reported yet.
    pub fn new() -> (r: MessagesWatch)
        ensures
            r.usage is None,
    {
        MessagesWatch { usage: None }
    }

    /// Whether the usage that was reported can take an output count.
    pub fn can_take_output(&self) -> (r: bool)
        ensures
            r == takes_output(some_json(self.usage)),
    {
        match &self.usage {
            Some(j) => match j {
                Json::Object(_) => true,
                Json::Null => true,
                _ => false,
            },
            None => true,
        }
    }

    /// Whether an event sets the output count.
    pub fn sets_output(event: &Json) -> (r: bool)
        ensures
            r == sets_output_count(event@),
    {
        match (event.str_at("type"), event.get("usage")) {
            (Some(t), Some(u)) => match u.get("output_tokens") {
                Some(n) => text::same(t, "message_delta") && n.as_i64().is_some(),
                None => false,
            },
            _ => false,
        }
    }

    /// Whether an event ends the stream.
    pub fn ends(event: &Json) -> (r: bool)
        ensures
            r == (json::text_in(json::field(event@, "type"@)) == Some("message_stop"@)),
    {
        match event.str_at("type") {
            Some(t) => text::same(t, "message_stop"),
            None => false,
        }
    }

    /// An event came in.
    pub fn observe(&mut self, event: &Json)
        requires
            sets_output_count(event@) ==> takes_output(some_json(old(self).usage)),
        ensures
            some_json(final(self).usage) == messages_usage_after(
                some_json(old(self).usage),
                event@,
            ),
    {
        let t = match event.str_at("type") {
            Some(t) => t,
            None => {
                return;
            },
        };
        if text::same(t, "message_start") {
            self.usage = match event.get("message") {
                Some(m) => match m.get("usage") {
                    Some(u) => Some(u.copy()),
                    None => None,
                },
                None => None,
            };
        } else if text::same(t, "message_delta") {
            if let Some(u) = event.get("usage") {
                if let Some(n) = u.get("output_tokens") {
                    if let Some(n) = n.as_i64() {
                        let merged = match &self.usage {
                            Some(j) => match j {
                                Json::Object(_) => j.copy().with("output_tokens", Json::Signed(n)),
                                _ => Json::object().with("output_tokens", Json::Signed(n)),
                            },
                            None => Json::object().with("output_tokens", Json::Signed(n)),
                        };
                        self.usage = Some(merged);
                    }
                }
            }
        }
    }

    /// What is logged of the stream: the input and output that it reported.
    pub fn finish(&self) -> (r: StreamLog)
        ensures
            r.usage == (Usage {
                input: openai::count_in(some_json(self.usage), "input_tokens"@),
                output: openai::count_in(some_json(self.usage), "output_tokens"@),
                cache_read: 0,
                cache_creation: 0,
            }),
            r.success,
            r.error_message is None,
    {
        let (input, output) = match &self.usage {
            Some(u) => (
                openai::count(Some(u), "input_tokens"),
                openai::count(Some(u), "output_tokens"),
            ),
            None => (0, 0),
        };
        StreamLog {
            usage: Usage { input, output, cache_read: 0, cache_creation: 0 },
            success: true,
            error_message: None,
        }
    }
}

/// An event of a stream: its payload, what that says as JSON, and where it was found.
pub struct EventView {
    pub payload: Seq<char>,
    pub says: Option<JsonView>,
    pub place: Place,
}

/// What is known of a stream after some events.
pub open spec fn watched(w: WatchView, events: Seq<EventView>) -> WatchView
    decreases events.len(),
{
    if events.len() == 0 {
        w
    } else {
        let e = events.last();
        observed(watched(w, events.drop_last()), e.payload, e.says, e.place)
    }
}

/// A stream that says `[DONE]` anywhere is complete, whatever else it says, before or after.
pub proof fn lemma_done_stays(w: WatchView, events: Seq<EventView>, i: int)
    requires
        0 <= i < events.len(),
        closes(events[i].payload),
    ensures
        watched(w, events).saw_done,
        complete(watched(w, events)),
    decreases events.len(),
{
    if i < events.len() - 1 {
        lemma_done_stays(w, events.drop_last(), i);
    }
}

/// Only `[DONE]` or a finish reason completes a stream.
pub proof fn lemma_unfinished_stream_is_incomplete(w: WatchView, events: Seq<EventView>)
    requires
        !complete(w),
        forall|i: int| 0 <= i < events.len() ==> !closes((#[trigger] events[i]).payload),
        forall|i: int|
            0 <= i < events.len() && (#[trigger] events[i]).says is Some ==> finish_after(
                None,
                events[i].says->0,
                events[i].place,
            ) is None,
    ensures
        !complete(watched(w, events)),
    decreases events.len(),
{
    if events.len() > 0 {
        let rest = events.drop_last();
        assert forall|i: int| 0 <= i < rest.len() implies !closes((#[trigger] rest[i]).payload) by {
            assert(rest[i] == events[i]);
        }
        assert forall|i: int|
            0 <= i < rest.len() && (#[trigger] rest[i]).says is Some implies finish_after(
            None,
            rest[i].says->0,
            rest[i].place,
        ) is None by {
            assert(rest[i] == events[i]);
        }
        lemma_unfinished_stream_is_incomplete(w, rest);
        let e = events[events.len() - 1];
        assert(!closes(e.payload));
    }
}

/// A stream that the upstream said is complete is served if it came in more than four chunks,
/// whatever it says of its usage, and also if it says nothing. In four chunks or fewer it is served
/// exactly if it counts completion tokens. A stream that nobody said is complete is never served.
pub proof fn lemma_served_streams(w: WatchView, usage: Map<Seq<char>, JsonView>, n: i64)
    ensures
        w.saw_done && w.chunks > 4 ==> stream_served(w),
        w.last_finish is Some && w.last_finish->0.len() > 0 && w.chunks > 4 ==> stream_served(w),
        !w.saw_done && w.last_finish is None ==> !stream_served(w),
        !w.saw_done && w.last_finish is Some && w.last_finish->0.len() == 0 ==> !stream_served(w),
        w.saw_done && w.chunks <= 4 && w.last_usage is None ==> !stream_served(w),
        w.saw_done && w.last_usage == Some(JsonView::Object(usage)) && json::holds(
            usage,
            "completion_tokens"@,
            JsonView::Int(n as int),
        ) ==> stream_served(w) == (n != 0 || w.chunks > 4),
        w.saw_done && w.chunks <= 4 && w.last_usage == Some(JsonView::Object(usage))
            && !usage.dom().contains("completion_tokens"@) ==> !stream_served(w),
{
}

/// An event that is no end of the stream tells the finish reason of its first choice and the usage
/// that it reports. What it does not speak of stays as it was, and so does the number of chunks.
pub proof fn lemma_what_an_event_tells(
    w: WatchView,
    payload: Seq<char>,
    event: Map<Seq<char>, JsonView>,
    choices: Seq<JsonView>,
    choice: Map<Seq<char>, JsonView>,
    reason: Seq<char>,
    place: Place,
)
    requires
        !closes(payload),
        json::holds(event, "choices"@, JsonView::Array(choices)) && choices.len() > 0
            && choices[0] == JsonView::Object(choice) || !event.dom().contains("choices"@),
    ensures
        ({
            let after = observed(w, payload, Some(JsonView::Object(event)), place);
            &&& after.chunks == w.chunks && after.saw_done == w.saw_done
            &&& !event.dom().contains("choices"@) ==> after.last_finish == w.last_finish
            &&& event.dom().contains("choices"@) && !choice.dom().contains("finish_reason"@)
                ==> after.last_finish == w.last_finish
            &&& event.dom().contains("choices"@) && json::holds(
                choice,
                "finish_reason"@,
                JsonView::Text(reason),
            ) && reason.len() > 0 ==> after.last_finish == Some(reason)
            &&& event.dom().contains("choices"@) && json::holds(
                choice,
                "finish_reason"@,
                JsonView::Text(reason),
            ) && reason.len() == 0 ==> after.last_finish == w.last_finish
            &&& event.dom().contains("choices"@) && json::holds(
                choice,
                "finish_reason"@,
                JsonView::Null,
            ) ==> after.last_finish == (if place == Place::Trailing {
                w.last_finish
            } else {
                None
            })
            &&& !event.dom().contains("usage"@) ==> after.last_usage == w.last_usage
            &&& event.dom().contains("usage"@) && (event["usage"@] is Object
                || event.dom().contains("choices"@) || place != Place::Live) ==> after.last_usage
                == Some(event["usage"@])
            &&& event.dom().contains("usage"@) && !(event["usage"@] is Object)
                && !event.dom().contains("choices"@) && place == Place::Live ==> after.last_usage
                == w.last_usage
        }),
        observed(w, payload, None, place) == w,
{
}

/// The end of a stream is told by nothing else, and tells nothing else.
pub proof fn lemma_what_the_end_tells(
    w: WatchView,
    payload: Seq<char>,
    says: Option<JsonView>,
    place: Place,
)
    ensures
        observed(w, payload, says, place).saw_done == (w.saw_done || text::trimmed(payload)
            == "[DONE]"@),
        text::trimmed(payload) == "[DONE]"@ ==> ({
            let after = observed(w, payload, says, place);
            after.chunks == w.chunks && after.last_finish == w.last_finish && after.last_usage
                == w.last_usage
        }),
{
}

/// The time to the first byte is that of the first attempt that went through; later ones do not
/// change it.
pub proof fn lemma_first_byte_stays(
    noted: Option<i64>,
    sent: bool,
    now: i64,
    again: bool,
    later: i64,
)
    ensures
        first_sent(None, true, now) == Some(now),
        first_sent(None, false, now) is None,
        noted is Some ==> first_sent(noted, sent, now) == noted,
        first_sent(noted, sent, now) is Some ==> first_sent(
            first_sent(noted, sent, now),
            again,
            later,
        ) == first_sent(noted, sent, now),
{
}

/// A messages stream gives its usage at its start, and each delta replaces the output count alone.
pub proof fn lemma_messages_usage(
    before: Option<JsonView>,
    start: Map<Seq<char>, JsonView>,
    message: Map<Seq<char>, JsonView>,
    usage: Map<Seq<char>, JsonView>,
    delta: Map<Seq<char>, JsonView>,
    reported: Map<Seq<char>, JsonView>,
    n: i64,
    key: Seq<char>,
)
    requires
        json::holds(start, "type"@, JsonView::Text("message_start"@)),
        json::holds(start, "message"@, JsonView::Object(message)),
        json::holds(message, "usage"@, JsonView::Object(usage)),
        json::holds(delta, "type"@, JsonView::Text("message_delta"@)),
        json::holds(delta, "usage"@, JsonView::Object(reported)),
        json::holds(reported, "output_tokens"@, JsonView::Int(n as int)),
    ensures
        messages_usage_after(before, JsonView::Object(start)) == Some(JsonView::Object(usage)),
        ({
            let after = messages_usage_after(
                Some(JsonView::Object(usage)),
                JsonView::Object(delta),
            );
            &&& openai::count_in(after, "output_tokens"@) == n
            &&& key != "output_tokens"@ ==> json::field(after->0, key) == json::field(
                JsonView::Object(usage),
                key,
            )
        }),
        openai::count_in(
            messages_usage_after(None, JsonView::Object(delta)),
            "output_tokens"@,
        ) == n,
{
    reveal_strlit("message_start");
    reveal_strlit("message_delta");
    assert("message_start"@[8] != "message_delta"@[8]);
}

/// Events of a messages stream that neither start it nor report an output count change nothing.
pub proof fn lemma_other_messages_events(before: Option<JsonView>, event: Map<Seq<char>, JsonView>)
    ensures
        !event.dom().contains("type"@) ==> messages_usage_after(before, JsonView::Object(event))
            == before,
        event.dom().contains("type"@) && event["type"@] != JsonView::Text("message_start"@)
            && event["type"@] != JsonView::Text("message_delta"@) ==> messages_usage_after(
            before,
            JsonView::Object(event),
        ) == before,
        json::holds(event, "type"@, JsonView::Text("message_delta"@)) && !event.dom().contains(
            "usage"@,
        ) ==> messages_usage_after(before, JsonView::Object(event)) == before,
{
    reveal_strlit("message_start");
    reveal_strlit("message_delta");
    assert("message_start"@[8] != "message_delta"@[8]);
}

/// The tokens of a stream are those that its usage counts; those that came from the cache are not
/// counted as input again.
pub proof fn lemma_stream_counts(
    w: WatchView,
    usage: Map<Seq<char>, JsonView>,
    n: i64,
    cache_read: i64,
)
    requires
        w.last_usage == Some(JsonView::Object(usage)),
    ensures
        json::holds(usage, "prompt_tokens"@, JsonView::Int(n as int)) && 0 <= cache_read <= n
            ==> stream_input(w, cache_read) + cache_read == n,
        json::holds(usage, "prompt_tokens"@, JsonView::Int(n as int)) && 0 <= n < cache_read
            ==> stream_input(w, cache_read) == 0,
        !usage.dom().contains("prompt_tokens"@) && cache_read >= 0 ==> stream_input(w, cache_read)
            == 0,
{
}

/// A prompt is too long exactly where a limit is known and the prompt exceeds it.
pub proof fn lemma_overflow(input: int, limit: u64)
    ensures
        overflows(input, Some(limit)) <==> input > limit,
        !overflows(input, None),
        truth(true) == "true"@ && truth(false) == "false"@,
{
}

/// An output count can be noted on every usage but one that is neither an object nor null; only a delta
/// that counts its output notes one.
pub proof fn lemma_who_takes_output(
    event: Map<Seq<char>, JsonView>,
    usage: Map<Seq<char>, JsonView>,
    n: i64,
    s: Seq<char>,
)
    ensures
        takes_output(None),
        takes_output(Some(JsonView::Null)),
        takes_output(Some(JsonView::Object(usage))),
        !takes_output(Some(JsonView::Text(s))),
        json::holds(event, "type"@, JsonView::Text("message_delta"@)) && json::holds(
            event,
            "usage"@,
            JsonView::Object(usage),
        ) && json::holds(usage, "output_tokens"@, JsonView::Int(n as int)) ==> sets_output_count(
            JsonView::Object(event),
        ),
        !event.dom().contains("usage"@) ==> !sets_output_count(JsonView::Object(event)),
        json::holds(event, "type"@, JsonView::Text(s)) && s != "message_delta"@
            ==> !sets_output_count(JsonView::Object(event)),
{
}

/// What is told of a stream that was not served counts its chunks, and says what is known of its end.
pub proof fn lemma_truncation_text(w: WatchView, cache_read: i64, limit: Option<u64>)
    ensures
        ("truncated: finish_reason=null chunks="@ + text::decimal(w.chunks) + " saw_done="@ + (
        if w.saw_done {
            "true"@
        } else {
            "false"@
        })).is_prefix_of(truncation_text(w, cache_read, limit)),
        limit is None ==> (" overflow="@ + "false"@).is_suffix_of(
            truncation_text(w, cache_read, limit),
        ),
        limit is Some && stream_input(w, cache_read) > limit->0 ==> (" overflow="@
            + "true"@).is_suffix_of(truncation_text(w, cache_read, limit)),
{
    let whole = truncation_text(w, cache_read, limit);
    let start = "truncated: finish_reason=null chunks="@ + text::decimal(w.chunks) + " saw_done="@
        + truth(w.saw_done);
    let end = " overflow="@ + truth(overflows(stream_input(w, cache_read), limit));
    assert(whole.subrange(0, start.len() as int) =~= start);
    assert(whole.subrange(whole.len() - end.len(), whole.len() as int) =~= end);
}

} // verus!
