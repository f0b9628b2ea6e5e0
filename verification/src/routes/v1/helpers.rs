//! What the gateway routes share: base URLs, timestamps, and the trimming of logged bodies.

use vstd::prelude::*;
use crate::app::TuiEvent;
use crate::calendar;
use crate::clock;
use crate::json::{self, Json, JsonView};
use crate::order;
use crate::routes::v1::dispatch::{Usage, UsageLog};
use crate::text;

verus! {

broadcast use crate::json::lemma_elements_view;

/// A base URL without surrounding white space and trailing slashes, with `https` where no scheme
/// is given.
pub open spec fn base_url(value: Seq<char>) -> Seq<char> {
    let t = text::stripped_end(text::trimmed(value), '/');
    if text::occurs(t, "://"@) {
        t
    } else {
        "https://"@ + t
    }
}

/// Puts a base URL into its stored form.
pub fn normalize_base_url(value: &str) -> (r: String)
    ensures
        r@ == base_url(value@),
{
    let t = text::strip_end(text::trim(value).as_str(), '/');
    if text::contains(t.as_str(), "://") {
        t
    } else {
        "https://".to_owned().concat(t.as_str())
    }
}

/// A point in time in ISO 8601, in UTC with milliseconds.
pub open spec fn iso8601_text(secs: nat, millis: nat) -> Seq<char> {
    let date = calendar::date_of(secs / 86400);
    let t = secs % 86400;
    text::padded(date.0, 4) + "-"@ + text::padded(date.1, 2) + "-"@ + text::padded(date.2, 2)
        + "T"@ + text::padded(t / 3600, 2) + ":"@ + text::padded(t % 3600 / 60, 2) + ":"@
        + text::padded(t % 60, 2) + "."@ + text::padded(millis, 3) + "Z"@
}

/// Writes a number of seconds and milliseconds since 1970 in ISO 8601.
pub fn iso8601(secs: u64, millis: u32) -> (r: String)
    ensures
        r@ == iso8601_text(secs as nat, millis as nat),
{
    let date = calendar::days_to_ymd(secs / 86400);
    let t: u64 = secs % 86400;
    text::padded_u64(date.0, 4).concat("-").concat(text::padded_u64(date.1, 2).as_str()).concat(
        "-",
    ).concat(text::padded_u64(date.2, 2).as_str()).concat("T").concat(
        text::padded_u64(t / 3600, 2).as_str(),
    ).concat(":").concat(text::padded_u64(t % 3600 / 60, 2).as_str()).concat(":").concat(
        text::padded_u64(t % 60, 2).as_str(),
    ).concat(".").concat(text::padded_u64(millis as u64, 3).as_str()).concat("Z")
}

/// The point in time that a text in ISO 8601 with four digits for the year names, in milliseconds
/// since 1970.
pub open spec fn instant_in(s: Seq<char>) -> int {
    let date = calendar::day_number(
        text::digits_value(s.subrange(0, 4)),
        text::digits_value(s.subrange(5, 7)),
        text::digits_value(s.subrange(8, 10)),
    ) - calendar::day_number(1970, 1, 1);
    86_400_000 * date + 3_600_000 * text::digits_value(s.subrange(11, 13)) + 60_000
        * text::digits_value(s.subrange(14, 16)) + 1000 * text::digits_value(s.subrange(17, 19))
        + text::digits_value(s.subrange(20, 23))
}

/// Whether a text has the form of ISO 8601 with four digits for the year and three for the
/// milliseconds, in UTC.
pub open spec fn iso8601_form(s: Seq<char>) -> bool {
    &&& s.len() == 24
    &&& s[4] == '-' && s[7] == '-' && s[10] == 'T' && s[13] == ':' && s[16] == ':' && s[19] == '.'
        && s[23] == 'Z'
    &&& text::all_digits(s.subrange(0, 4)) && text::all_digits(s.subrange(5, 7))
        && text::all_digits(s.subrange(8, 10)) && text::all_digits(s.subrange(11, 13))
        && text::all_digits(s.subrange(14, 16)) && text::all_digits(s.subrange(17, 19))
        && text::all_digits(s.subrange(20, 23))
}

/// A point in time up to the year 9999 is written in 24 characters, and is read back from them.
pub proof fn lemma_iso8601_reads_back(secs: nat, millis: nat)
    requires
        secs < 253_402_300_800,
        millis < 1000,
    ensures
        iso8601_form(iso8601_text(secs, millis)),
        instant_in(iso8601_text(secs, millis)) == 1000 * secs + millis,
{
    let days = secs / 86400;
    let date = calendar::date_of(days);
    let t = secs % 86400;
    let s = iso8601_text(secs, millis);
    calendar::lemma_date_of(days);
    calendar::lemma_four_digit_years(days);
    lemma_widths();
    text::lemma_padded_reads_back(date.0, 4);
    text::lemma_padded_reads_back(date.1, 2);
    text::lemma_padded_reads_back(date.2, 2);
    text::lemma_padded_reads_back(t / 3600, 2);
    text::lemma_padded_reads_back(t % 3600 / 60, 2);
    text::lemma_padded_reads_back(t % 60, 2);
    text::lemma_padded_reads_back(millis, 3);
    reveal_strlit("-");
    reveal_strlit("T");
    reveal_strlit(":");
    reveal_strlit(".");
    reveal_strlit("Z");
    assert(s.subrange(0, 4) =~= text::padded(date.0, 4));
    assert(s.subrange(5, 7) =~= text::padded(date.1, 2));
    assert(s.subrange(8, 10) =~= text::padded(date.2, 2));
    assert(s.subrange(11, 13) =~= text::padded(t / 3600, 2));
    assert(s.subrange(14, 16) =~= text::padded(t % 3600 / 60, 2));
    assert(s.subrange(17, 19) =~= text::padded(t % 60, 2));
    assert(s.subrange(20, 23) =~= text::padded(millis, 3));
    assert(t == 3600 * (t / 3600) + 60 * (t % 3600 / 60) + t % 60);
}

proof fn lemma_widths()
    ensures
        text::ten_to(2) == 100,
        text::ten_to(3) == 1000,
        text::ten_to(4) == 10000,
{
    reveal_with_fuel(text::ten_to, 5);
}

/// Fields of one width that a text begins with, a separator, and what follows: in order if the
/// fields are, or if they are the same and what follows is.
proof fn lemma_field_in_order(
    n: nat,
    k: nat,
    width: nat,
    sep: Seq<char>,
    x: Seq<char>,
    y: Seq<char>,
)
    requires
        width >= 1,
        n <= k < text::ten_to(width),
        n == k ==> order::text_le(x, y),
    ensures
        order::text_le(text::padded(n, width) + (sep + x), text::padded(k, width) + (sep + y)),
{
    order::lemma_padded_in_order(n, k, width);
    text::lemma_padded_reads_back(n, width);
    text::lemma_padded_reads_back(k, width);
    order::lemma_text_le_continued(
        text::padded(n, width),
        text::padded(k, width),
        sep + x,
        sep + y,
    );
    order::lemma_text_le_continued(sep, sep, x, y);
}

/// A date and a time of day in ISO 8601, the parts one after another.
spec fn parts_text(date: (nat, nat, nat), h: nat, m: nat, s: nat, millis: nat) -> Seq<char> {
    text::padded(date.0, 4) + ("-"@ + (text::padded(date.1, 2) + ("-"@ + (text::padded(date.2, 2) + (
    "T"@ + (text::padded(h, 2) + (":"@ + (text::padded(m, 2) + (":"@ + (text::padded(s, 2) + ("."@
        + (text::padded(millis, 3) + ("Z"@ + Seq::<char>::empty())))))))))))))
}

proof fn lemma_parts_text(secs: nat, millis: nat)
    ensures
        iso8601_text(secs, millis) == parts_text(
            calendar::date_of(secs / 86400),
            secs % 86400 / 3600,
            secs % 86400 % 3600 / 60,
            secs % 86400 % 60,
            millis,
        ),
{
    broadcast use lemma_concat_groups;

    assert("Z"@ + Seq::<char>::empty() =~= "Z"@);
}

broadcast proof fn lemma_concat_groups(a: Seq<char>, b: Seq<char>, c: Seq<char>)
    ensures
        #[trigger] (a + (b + c)) == a + b + c,
{
    assert(a + (b + c) =~= a + b + c);
}

proof fn lemma_parts_in_order(
    a: (nat, nat, nat),
    b: (nat, nat, nat),
    t: (nat, nat, nat, nat),
    u: (nat, nat, nat, nat),
)
    requires
        a == b || calendar::earlier(a, b),
        a == b ==> t == u || t.0 < u.0 || (t.0 == u.0 && calendar::earlier(
            (t.1, t.2, t.3),
            (u.1, u.2, u.3),
        )),
        b.0 <= 9999 && a.1 <= 12 && b.1 <= 12 && a.2 <= 31 && b.2 <= 31,
        t.0 < 24 && u.0 < 24 && t.1 < 60 && u.1 < 60 && t.2 < 60 && u.2 < 60,
        t.3 < 1000 && u.3 < 1000,
    ensures
        order::text_le(
            parts_text(a, t.0, t.1, t.2, t.3),
            parts_text(b, u.0, u.1, u.2, u.3),
        ),
{
    lemma_widths();
    let end = Seq::<char>::empty();
    let t7 = text::padded(t.3, 3) + ("Z"@ + end);
    let u7 = text::padded(u.3, 3) + ("Z"@ + end);
    let t6 = text::padded(t.2, 2) + ("."@ + t7);
    let u6 = text::padded(u.2, 2) + ("."@ + u7);
    let t5 = text::padded(t.1, 2) + (":"@ + t6);
    let u5 = text::padded(u.1, 2) + (":"@ + u6);
    let t4 = text::padded(t.0, 2) + (":"@ + t5);
    let u4 = text::padded(u.0, 2) + (":"@ + u5);
    let t3 = text::padded(a.2, 2) + ("T"@ + t4);
    let u3 = text::padded(b.2, 2) + ("T"@ + u4);
    let t2 = text::padded(a.1, 2) + ("-"@ + t3);
    let u2 = text::padded(b.1, 2) + ("-"@ + u3);
    if a == b && t.0 == u.0 && t.1 == u.1 && t.2 == u.2 {
        lemma_field_in_order(t.3, u.3, 3, "Z"@, end, end);
    }
    if a == b && t.0 == u.0 && t.1 == u.1 {
        lemma_field_in_order(t.2, u.2, 2, "."@, t7, u7);
    }
    if a == b && t.0 == u.0 {
        lemma_field_in_order(t.1, u.1, 2, ":"@, t6, u6);
    }
    if a == b {
        lemma_field_in_order(t.0, u.0, 2, ":"@, t5, u5);
    }
    if a.0 == b.0 && a.1 == b.1 {
        lemma_field_in_order(a.2, b.2, 2, "T"@, t4, u4);
    }
    if a.0 == b.0 {
        lemma_field_in_order(a.1, b.1, 2, "-"@, t3, u3);
    }
    lemma_field_in_order(a.0, b.0, 4, "-"@, t2, u2);
}

proof fn lemma_clock_in_order(t: nat, millis: nat, u: nat, later_millis: nat)
    requires
        t < 86400,
        u < 86400,
        t < u || (t == u && millis <= later_millis),
    ensures
        t == u && millis == later_millis || t / 3600 < u / 3600 || (t / 3600 == u / 3600
            && calendar::earlier(
            (t % 3600 / 60, t % 60, millis),
            (u % 3600 / 60, u % 60, later_millis),
        )),
        t / 3600 < 24 && t % 3600 / 60 < 60 && u / 3600 < 24 && u % 3600 / 60 < 60,
{
    assert(t == 3600 * (t / 3600) + 60 * (t % 3600 / 60) + t % 60);
    assert(u == 3600 * (u / 3600) + 60 * (u % 3600 / 60) + u % 60);
}

proof fn lemma_iso8601_le(secs: nat, millis: nat, later_secs: nat, later_millis: nat)
    requires
        millis < 1000,
        later_millis < 1000,
        later_secs < 253_402_300_800,
        secs < later_secs || (secs == later_secs && millis <= later_millis),
    ensures
        order::text_le(iso8601_text(secs, millis), iso8601_text(later_secs, later_millis)),
{
    let i = secs / 86400;
    let j = later_secs / 86400;
    let t = secs % 86400;
    let u = later_secs % 86400;
    assert(i < j || (i == j && (t < u || (t == u && millis <= later_millis))));
    lemma_parts_text(secs, millis);
    lemma_parts_text(later_secs, later_millis);
    calendar::lemma_four_digit_years(i);
    calendar::lemma_four_digit_years(j);
    if i < j {
        calendar::lemma_dates_in_order(i, j);
    } else {
        lemma_clock_in_order(t, millis, u, later_millis);
    }
    lemma_parts_in_order(
        calendar::date_of(i),
        calendar::date_of(j),
        (t / 3600, t % 3600 / 60, t % 60, millis),
        (u / 3600, u % 3600 / 60, u % 60, later_millis),
    );
}

/// Up to the year 9999, points in time are in the order of their texts, and different ones have
/// different texts.
pub proof fn lemma_iso8601_in_order(secs: nat, millis: nat, later_secs: nat, later_millis: nat)
    requires
        millis < 1000,
        later_millis < 1000,
        later_secs < 253_402_300_800,
        1000 * secs + millis <= 1000 * later_secs + later_millis,
    ensures
        order::text_le(iso8601_text(secs, millis), iso8601_text(later_secs, later_millis)),
        iso8601_text(secs, millis) == iso8601_text(later_secs, later_millis) <==> 1000 * secs
            + millis == 1000 * later_secs + later_millis,
{
    lemma_iso8601_le(secs, millis, later_secs, later_millis);
    lemma_iso8601_reads_back(secs, millis);
    lemma_iso8601_reads_back(later_secs, later_millis);
}

/// The present time in ISO 8601.
pub fn iso8601_now() -> (r: String)
    ensures
        exists|secs: u64, millis: u32|
            millis < 1000 && r@ == #[trigger] iso8601_text(secs as nat, millis as nat),
{
    let now = clock::read();
    iso8601(now.0, now.1)
}

/// The client address of a request, where one is known.
pub fn current_client_ip(recorded: Option<String>) -> (r: Option<String>)
    ensures
        r is Some ==> r == recorded && r->0@.len() > 0,
        r is None ==> recorded is None || recorded->0@.len() == 0,
        r == (if recorded is Some && recorded->0@.len() > 0 {
            recorded
        } else {
            None
        }),
{
    match recorded {
        Some(v) => if v.as_str().is_empty() {
            None
        } else {
            Some(v)
        },
        None => None,
    }
}

pub const REQUEST_BODY_CAP_SUCCESS: usize = 32_000;

pub const REQUEST_BODY_CAP_FAILURE: usize = 500_000;

pub const RESPONSE_BODY_CAP_SUCCESS: usize = 16_000;

pub const RESPONSE_BODY_CAP_FAILURE: usize = 500_000;

/// A field cut in the middle: the first and the last half of the limit around a note of how much
/// is gone. A field within the limit stays as it is.
pub open spec fn cut_field(s: Seq<char>, limit: nat) -> Seq<char> {
    if s.len() <= limit {
        s
    } else {
        let half = (limit / 2) as int;
        s.take(half) + "\n…[truncated "@ + text::decimal((s.len() - limit) as nat)
            + " chars]…\n"@ + s.skip(s.len() - half)
    }
}

/// Cuts a field that is longer than the limit in the middle.
pub fn truncate_field(s: &str, limit: usize) -> (r: String)
    ensures
        r@ == cut_field(s@, limit as nat),
{
    let chars = text::chars_of(s);
    let count: usize = chars.len();
    if count <= limit {
        return s.to_owned();
    }
    let half: usize = limit / 2;
    assert(s@.take(half as int) =~= s@.subrange(0, half as int));
    assert(s@.skip(count - half) =~= s@.subrange(count - half, count as int));
    let gone: usize = count - limit;
    text::text_of(&chars, 0, half).concat("\n…[truncated ").concat(
        text::decimal_u64(gone as u64).as_str(),
    ).concat(" chars]…\n").concat(text::text_of(&chars, count - half, count).as_str())
}

/// A text value cut to the limit; any other value as it is.
pub open spec fn cut_text(v: JsonView, limit: nat) -> JsonView {
    match v {
        JsonView::Text(s) => JsonView::Text(cut_field(s, limit)),
        _ => v,
    }
}

/// A value with one of its members replaced by what a function makes of it.
pub open spec fn with_member(
    v: JsonView,
    key: Seq<char>,
    f: spec_fn(JsonView) -> JsonView,
) -> JsonView {
    match json::field(v, key) {
        Some(x) => JsonView::Object(v->Object_0.insert(key, f(x))),
        None => v,
    }
}

/// A content part with its text cut.
pub open spec fn cut_part(part: JsonView, limit: nat) -> JsonView {
    with_member(part, "text"@, |t: JsonView| cut_text(t, limit))
}

/// A message's content with its text, or the texts of its parts, cut.
pub open spec fn cut_content(content: JsonView, limit: nat) -> JsonView {
    match content {
        JsonView::Array(parts) => JsonView::Array(parts.map_values(|p: JsonView| cut_part(p, limit))),
        _ => cut_text(content, limit),
    }
}

/// A tool call with the arguments of its function cut.
pub open spec fn cut_tool_call(call: JsonView, limit: nat) -> JsonView {
    with_member(
        call,
        "function"@,
        |f: JsonView| with_member(f, "arguments"@, |a: JsonView| cut_text(a, limit)),
    )
}

/// A list of tool calls, each with its arguments cut.
pub open spec fn cut_tool_calls(calls: JsonView, limit: nat) -> JsonView {
    match calls {
        JsonView::Array(s) => JsonView::Array(s.map_values(|c: JsonView| cut_tool_call(c, limit))),
        _ => calls,
    }
}

/// A message with its content and its tool calls cut.
pub open spec fn cut_message(m: JsonView, limit: nat) -> JsonView {
    with_member(
        with_member(m, "content"@, |c: JsonView| cut_content(c, limit)),
        "tool_calls"@,
        |c: JsonView| cut_tool_calls(c, limit),
    )
}

/// A request body with the long fields of its messages cut.
pub open spec fn cut_messages(body: JsonView, limit: nat) -> JsonView {
    with_member(
        body,
        "messages"@,
        |ms: JsonView|
            match ms {
                JsonView::Array(s) => JsonView::Array(
                    s.map_values(|m: JsonView| cut_message(m, limit)),
                ),
                _ => ms,
            },
    )
}

fn truncate_text(j: &Json, limit: usize) -> (r: Json)
    ensures
        r@ == cut_text(j@, limit as nat),
{
    match j {
        Json::Text(s) => Json::Text(truncate_field(s.as_str(), limit)),
        _ => j.copy(),
    }
}

fn truncate_part(part: &Json, limit: usize) -> (r: Json)
    ensures
        r@ == cut_part(part@, limit as nat),
{
    match part.get("text") {
        Some(t) => part.copy().with("text", truncate_text(t, limit)),
        None => part.copy(),
    }
}

fn truncate_content(content: &Json, limit: usize) -> (r: Json)
    ensures
        r@ == cut_content(content@, limit as nat),
{
    match content {
        Json::Array(parts) => {
            let mut out: Vec<Json> = Vec::new();
            let mut i: usize = 0;
            while i < parts.len()
                invariant
                    i == out@.len(),
                    i <= parts@.len(),
                    forall|k: int|
                        0 <= k < i ==> #[trigger] json::json_view(out@[k]) == cut_part(
                            json::json_view(parts@[k]),
                            limit as nat,
                        ),
                decreases parts@.len() - i,
            {
                out.push(truncate_part(&parts[i], limit));
                i = i + 1;
            }
            assert(json::elements_view(out@) =~= json::elements_view(parts@).map_values(
                |p: JsonView| cut_part(p, limit as nat),
            ));
            Json::Array(out)
        },
        _ => truncate_text(content, limit),
    }
}

fn truncate_tool_call(call: &Json, limit: usize) -> (r: Json)
    ensures
        r@ == cut_tool_call(call@, limit as nat),
{
    match call.get("function") {
        Some(f) => {
            let g = match f.get("arguments") {
                Some(a) => f.copy().with("arguments", truncate_text(a, limit)),
                None => f.copy(),
            };
            call.copy().with("function", g)
        },
        None => call.copy(),
    }
}

fn truncate_tool_calls(calls: &Json, limit: usize) -> (r: Json)
    ensures
        r@ == cut_tool_calls(calls@, limit as nat),
{
    match calls {
        Json::Array(list) => {
            let mut out: Vec<Json> = Vec::new();
            let mut i: usize = 0;
            while i < list.len()
                invariant
                    i == out@.len(),
                    i <= list@.len(),
                    forall|k: int|
                        0 <= k < i ==> #[trigger] json::json_view(out@[k]) == cut_tool_call(
                            json::json_view(list@[k]),
                            limit as nat,
                        ),
                decreases list@.len() - i,
            {
                out.push(truncate_tool_call(&list[i], limit));
                i = i + 1;
            }
            assert(json::elements_view(out@) =~= json::elements_view(list@).map_values(
                |c: JsonView| cut_tool_call(c, limit as nat),
            ));
            Json::Array(out)
        },
        _ => calls.copy(),
    }
}

fn truncate_message(m: &Json, limit: usize) -> (r: Json)
    ensures
        r@ == cut_message(m@, limit as nat),
{
    let cut = match m.get("content") {
        Some(c) => m.copy().with("content", truncate_content(c, limit)),
        None => m.copy(),
    };
    match cut.get("tool_calls") {
        Some(c) => {
            let calls = truncate_tool_calls(c, limit);
            cut.with("tool_calls", calls)
        },
        None => cut,
    }
}

/// Cuts the long fields of a request body's messages.
pub fn compress_messages(body: &Json, per_field_limit: usize) -> (r: Json)
    ensures
        r@ == cut_messages(body@, per_field_limit as nat),
{
    match body.get("messages") {
        Some(ms) => match ms {
            Json::Array(list) => {
                let mut out: Vec<Json> = Vec::new();
                let mut i: usize = 0;
                while i < list.len()
                    invariant
                        i == out@.len(),
                        i <= list@.len(),
                        forall|k: int|
                            0 <= k < i ==> #[trigger] json::json_view(out@[k]) == cut_message(
                                json::json_view(list@[k]),
                                per_field_limit as nat,
                            ),
                    decreases list@.len() - i,
                {
                    out.push(truncate_message(&list[i], per_field_limit));
                    i = i + 1;
                }
                assert(json::elements_view(out@) =~= json::elements_view(list@).map_values(
                    |m: JsonView| cut_message(m, per_field_limit as nat),
                ));
                body.copy().with("messages", Json::Array(out))
            },
            _ => body.copy().with("messages", ms.copy()),
        },
        None => body.copy(),
    }
}

/// A length that no note of what was left out exceeds.
pub const NOTE_LEN: usize = 120;

proof fn lemma_note_len(gone: nat, len: nat, cap: nat)
    requires
        gone <= u64::MAX,
        len <= u64::MAX,
        cap <= u64::MAX,
        gone == len - cap,
    ensures
        short_note(len, cap).len() <= NOTE_LEN,
        long_note(len, cap).len() <= NOTE_LEN,
{
    text::lemma_decimal_len(gone);
    text::lemma_decimal_len(len);
    text::lemma_decimal_len(cap);
    reveal_strlit("\n…[truncated ");
    reveal_strlit(" chars]…\n");
    reveal_strlit(" chars: compressed still ");
    reveal_strlit(" > cap ");
    reveal_strlit("]…\n");
}

/// The note that stands for the characters left out of a body.
pub open spec fn short_note(len: nat, cap: nat) -> Seq<char> {
    "\n…[truncated "@ + text::decimal((len - cap) as nat) + " chars]…\n"@
}

/// The note that stands for the characters left out of a body whose fields were cut before.
pub open spec fn long_note(len: nat, cap: nat) -> Seq<char> {
    "\n…[truncated "@ + text::decimal((len - cap) as nat) + " chars: compressed still "@
        + text::decimal(len) + " > cap "@ + text::decimal(cap) + "]…\n"@
}

/// A text cut in the middle so that, with the note in the gap, it fits the cap if the note does.
pub open spec fn squeezed(s: Seq<char>, note: Seq<char>, cap: nat) -> Seq<char> {
    let budget = if note.len() <= cap {
        (cap - note.len()) as int
    } else {
        0
    };
    let half = budget / 2;
    s.take(half) + note + s.skip(s.len() - (budget - half))
}

/// The limit that follows a field limit which was too generous.
pub open spec fn next_limit(limit: nat) -> nat {
    if limit / 2 <= 20 {
        20
    } else {
        limit / 2
    }
}

/// The notation of a request body with its fields cut to the first limit at which it fits the
/// cap, the limit going down by halves to twenty; cut as a whole where even that is too long.
pub open spec fn fitted(body: JsonView, limit: nat, cap: nat) -> Seq<char>
    decreases limit,
{
    let c = json::rendered(cut_messages(body, limit));
    if c.len() <= cap {
        c
    } else if limit <= 20 {
        squeezed(c, long_note(c.len(), cap), cap)
    } else {
        fitted(body, next_limit(limit), cap)
    }
}

/// A request body with its fields cut to the first limit at which its notation fits the cap, the
/// limit going down by halves to twenty, if there is one.
pub open spec fn cut_to_fit(body: JsonView, limit: nat, cap: nat) -> Option<JsonView>
    decreases limit,
{
    let c = cut_messages(body, limit);
    if json::rendered(c).len() <= cap {
        Some(c)
    } else if limit <= 20 {
        None
    } else {
        cut_to_fit(body, next_limit(limit), cap)
    }
}

/// The cut body that is stored of a body that is longer than the cap, given what it says as JSON;
/// none where the text as a whole is cut.
pub open spec fn cut_body(says: Option<JsonView>, limit: nat, cap: nat) -> Option<JsonView> {
    match says {
        Some(v) if json::array_in(json::field(v, "messages"@)) is Some => cut_to_fit(v, limit, cap),
        _ => None,
    }
}

/// Whether a text is the notation of a cut body, where there is one, and says that body, where it is
/// read back from its notation.
pub open spec fn says_cut(s: Seq<char>, cut: Option<JsonView>) -> bool {
    match cut {
        Some(c) => s == json::rendered(c) && (json::reads_back(c) ==> json::parsed(s) == Some(c)),
        None => true,
    }
}

proof fn lemma_member_readable(
    v: JsonView,
    key: Seq<char>,
    f: spec_fn(JsonView) -> JsonView,
    depth: nat,
)
    requires
        json::readable(v, depth),
        forall|x: JsonView, d: nat| json::readable(x, d) ==> #[trigger] json::readable(f(x), d),
    ensures
        json::readable(with_member(v, key, f), depth),
{
    if let Some(x) = json::field(v, key) {
        let m = v->Object_0;
        let n = m.insert(key, f(x));
        let d = (depth - 1) as nat;
        assert(json::readable(m[key], d));
        assert(n.dom() =~= m.dom());
        assert forall|k: Seq<char>| n.dom().contains(k) implies json::readable(
            #[trigger] n[k],
            d,
        ) by {
            assert(json::readable(m[k], d));
            if k != key {
                assert(n[k] == m[k]);
            }
        }
    }
}

proof fn lemma_elements_readable(v: JsonView, f: spec_fn(JsonView) -> JsonView, depth: nat)
    requires
        v is Array,
        json::readable(v, depth),
        forall|x: JsonView, d: nat| json::readable(x, d) ==> #[trigger] json::readable(f(x), d),
    ensures
        json::readable(JsonView::Array(v->Array_0.map_values(f)), depth),
{
    let s = v->Array_0;
    let t = s.map_values(f);
    let d = (depth - 1) as nat;
    assert forall|i: int| 0 <= i < t.len() implies json::readable(#[trigger] t[i], d) by {
        assert(json::readable(s[i], d));
        assert(json::readable(f(s[i]), d));
    }
}

proof fn lemma_content_readable(content: JsonView, limit: nat, depth: nat)
    requires
        json::readable(content, depth),
    ensures
        json::readable(cut_content(content, limit), depth),
{
    if content is Array {
        let f = |p: JsonView| cut_part(p, limit);
        assert forall|x: JsonView, d: nat| json::readable(x, d) implies #[trigger] json::readable(
            f(x),
            d,
        ) by {
            lemma_member_readable(x, "text"@, |t: JsonView| cut_text(t, limit), d);
        }
        lemma_elements_readable(content, f, depth);
    }
}

proof fn lemma_tool_calls_readable(calls: JsonView, limit: nat, depth: nat)
    requires
        json::readable(calls, depth),
    ensures
        json::readable(cut_tool_calls(calls, limit), depth),
{
    if calls is Array {
        let f = |c: JsonView| cut_tool_call(c, limit);
        let arguments = |g: JsonView|
            with_member(g, "arguments"@, |a: JsonView| cut_text(a, limit));
        assert forall|x: JsonView, d: nat| json::readable(x, d) implies #[trigger] json::readable(
            arguments(x),
            d,
        ) by {
            lemma_member_readable(x, "arguments"@, |a: JsonView| cut_text(a, limit), d);
        }
        assert forall|x: JsonView, d: nat| json::readable(x, d) implies #[trigger] json::readable(
            f(x),
            d,
        ) by {
            lemma_member_readable(x, "function"@, arguments, d);
        }
        lemma_elements_readable(calls, f, depth);
    }
}

/// A body that is read back from its notation still is after its messages were cut.
pub proof fn lemma_cut_is_read_back(body: JsonView, limit: nat)
    requires
        json::reads_back(body),
    ensures
        json::reads_back(cut_messages(body, limit)),
{
    let content = |c: JsonView| cut_content(c, limit);
    let calls = |c: JsonView| cut_tool_calls(c, limit);
    let message = |m: JsonView| cut_message(m, limit);
    let messages = |ms: JsonView|
        match ms {
            JsonView::Array(s) => JsonView::Array(s.map_values(|m: JsonView| cut_message(m, limit))),
            _ => ms,
        };
    assert forall|x: JsonView, d: nat| json::readable(x, d) implies #[trigger] json::readable(
        content(x),
        d,
    ) by {
        lemma_content_readable(x, limit, d);
    }
    assert forall|x: JsonView, d: nat| json::readable(x, d) implies #[trigger] json::readable(
        calls(x),
        d,
    ) by {
        lemma_tool_calls_readable(x, limit, d);
    }
    assert forall|x: JsonView, d: nat| json::readable(x, d) implies #[trigger] json::readable(
        message(x),
        d,
    ) by {
        lemma_member_readable(x, "content"@, content, d);
        lemma_member_readable(with_member(x, "content"@, content), "tool_calls"@, calls, d);
    }
    assert forall|x: JsonView, d: nat| json::readable(x, d) implies #[trigger] json::readable(
        messages(x),
        d,
    ) by {
        if x is Array {
            lemma_elements_readable(x, message, d);
        }
    }
    lemma_member_readable(body, "messages"@, messages, 127);
}

/// The field limit that a body is first cut to.
pub open spec fn first_limit(is_success: bool) -> nat {
    if is_success {
        200
    } else {
        1000
    }
}

/// What is stored of a body that is longer than the cap, given what it says as JSON.
pub open spec fn shortened(s: Seq<char>, says: Option<JsonView>, limit: nat, cap: nat) -> Seq<char> {
    match says {
        Some(v) if json::array_in(json::field(v, "messages"@)) is Some => fitted(v, limit, cap),
        _ => squeezed(s, short_note(s.len(), cap), cap),
    }
}

/// What is stored of a request or response body: nothing of a blank one, a short one as it is.
pub open spec fn stored_body(s: Seq<char>, is_success: bool, cap: nat) -> Option<Seq<char>> {
    let t = text::trimmed(s);
    if t.len() == 0 {
        None
    } else if t.len() <= cap {
        Some(t)
    } else {
        Some(shortened(t, json::parsed(t), first_limit(is_success), cap))
    }
}

/// The cut body that is stored of a request or response body, where that is what is stored.
pub open spec fn stored_cut(s: Seq<char>, is_success: bool, cap: nat) -> Option<JsonView> {
    let t = text::trimmed(s);
    if t.len() <= cap {
        None
    } else {
        cut_body(json::parsed(t), first_limit(is_success), cap)
    }
}

fn squeeze(chars: &Vec<char>, note: &str, cap: usize) -> (r: String)
    requires
        cap < chars@.len(),
    ensures
        r@ == squeezed(chars@, note@, cap as nat),
{
    let count: usize = chars.len();
    let note_len: usize = text::chars_of(note).len();
    let budget: usize = if note_len <= cap {
        cap - note_len
    } else {
        0
    };
    let half: usize = budget / 2;
    let from: usize = count - (budget - half);
    assert(chars@.take(half as int) =~= chars@.subrange(0, half as int));
    assert(chars@.skip(from as int) =~= chars@.subrange(from as int, count as int));
    text::text_of(chars, 0, half).concat(note).concat(text::text_of(chars, from, count).as_str())
}

fn fit_messages(body: &Json, limit: usize, cap: usize) -> (r: String)
    ensures
        r@ == fitted(body@, limit as nat, cap as nat),
        says_cut(r@, cut_to_fit(body@, limit as nat, cap as nat)),
        cap >= NOTE_LEN ==> r@.len() <= cap,
{
    let mut per_field_limit: usize = limit;
    loop
        invariant
            fitted(body@, limit as nat, cap as nat) == fitted(
                body@,
                per_field_limit as nat,
                cap as nat,
            ),
            cut_to_fit(body@, limit as nat, cap as nat) == cut_to_fit(
                body@,
                per_field_limit as nat,
                cap as nat,
            ),
        decreases per_field_limit,
    {
        let written = json::render(&compress_messages(body, per_field_limit));
        let compressed = text::chars_of(written.as_str());
        let count: usize = compressed.len();
        if count <= cap {
            return written;
        }
        if per_field_limit <= 20 {
            let note = "\n…[truncated ".to_owned().concat(
                text::decimal_u64((count - cap) as u64).as_str(),
            ).concat(" chars: compressed still ").concat(
                text::decimal_u64(count as u64).as_str(),
            ).concat(" > cap ").concat(text::decimal_u64(cap as u64).as_str()).concat("]…\n");
            proof {
                lemma_note_len((count - cap) as nat, count as nat, cap as nat);
                lemma_squeezed_fits(compressed@, note@, cap as nat);
            }
            return squeeze(&compressed, note.as_str(), cap);
        }
        per_field_limit = if per_field_limit / 2 <= 20 {
            20
        } else {
            per_field_limit / 2
        };
    }
}

/// Shortens a body that is longer than the cap, given what it says as JSON. Where cutting its fields
/// was enough, the text says the cut body.
pub fn shorten(s: &str, says: Option<&Json>, limit: usize, cap: usize) -> (r: String)
    requires
        cap < s@.len(),
    ensures
        r@ == shortened(s@, json::some_view(says), limit as nat, cap as nat),
        says_cut(r@, cut_body(json::some_view(says), limit as nat, cap as nat)),
        cap >= NOTE_LEN ==> r@.len() <= cap,
{
    if let Some(body) = says {
        if let Some(ms) = body.get("messages") {
            if ms.as_array().is_some() {
                return fit_messages(body, limit, cap);
            }
        }
    }
    let chars = text::chars_of(s);
    let note = "\n…[truncated ".to_owned().concat(
        text::decimal_u64((chars.len() - cap) as u64).as_str(),
    ).concat(" chars]…\n");
    proof {
        lemma_note_len((chars@.len() - cap) as nat, chars@.len(), cap as nat);
        lemma_squeezed_fits(chars@, note@, cap as nat);
    }
    squeeze(&chars, note.as_str(), cap)
}

/// What is stored of a request or response body. The body of a failed request has its own cap. A
/// cap that has room for the note of what was left out is kept. Where cutting the fields of a body
/// was enough, the stored text says the cut body.
pub fn smart_truncate_body(
    s: Option<String>,
    is_success: bool,
    cap_success: usize,
    cap_failure: usize,
) -> (r: Option<String>)
    ensures
        json::some_string(r) == match s {
            Some(t) => stored_body(
                t@,
                is_success,
                if is_success {
                    cap_success as nat
                } else {
                    cap_failure as nat
                },
            ),
            None => None,
        },
        s is Some && r is Some ==> says_cut(
            r->0@,
            stored_cut(
                s->0@,
                is_success,
                if is_success {
                    cap_success as nat
                } else {
                    cap_failure as nat
                },
            ),
        ),
        r is Some && is_success && cap_success >= NOTE_LEN ==> r->0@.len() <= cap_success,
        r is Some && !is_success && cap_failure >= NOTE_LEN ==> r->0@.len() <= cap_failure,
{
    let s = match s {
        Some(s) => s,
        None => {
            return None;
        },
    };
    let trimmed = text::trim(s.as_str());
    let count: usize = text::chars_of(trimmed.as_str()).len();
    if count == 0 {
        return None;
    }
    let cap: usize = if is_success {
        cap_success
    } else {
        cap_failure
    };
    if count <= cap {
        return Some(trimmed);
    }
    let limit: usize = if is_success {
        200
    } else {
        1000
    };
    match json::parse(trimmed.as_str()) {
        Some(body) => Some(shorten(trimmed.as_str(), Some(&body), limit, cap)),
        None => Some(shorten(trimmed.as_str(), None, limit, cap)),
    }
}

proof fn lemma_squeezed_fits(s: Seq<char>, note: Seq<char>, cap: nat)
    requires
        cap < s.len(),
    ensures
        squeezed(s, note, cap).len() == if note.len() <= cap {
            cap
        } else {
            note.len()
        },
{
}

proof fn lemma_fitted_fits(body: JsonView, limit: nat, cap: nat)
    ensures
        fitted(body, limit, cap).len() <= cap || exists|len: nat|
            len > cap && fitted(body, limit, cap).len() == #[trigger] long_note(len, cap).len(),
    decreases limit,
{
    let c = json::rendered(cut_messages(body, limit));
    if c.len() > cap {
        if limit <= 20 {
            lemma_squeezed_fits(c, long_note(c.len(), cap), cap);
        } else {
            lemma_fitted_fits(body, next_limit(limit), cap);
        }
    }
}

/// A stored body fits its cap; the one exception is a cap that is too small for the note of what
/// was left out.
pub proof fn lemma_stored_body_fits(s: Seq<char>, is_success: bool, cap: nat)
    ensures
        match stored_body(s, is_success, cap) {
            Some(t) => t.len() <= cap || exists|len: nat|
                len > cap && (t.len() == #[trigger] long_note(len, cap).len() || t.len()
                    == short_note(len, cap).len()),
            None => true,
        },
{
    let t = text::trimmed(s);
    if t.len() > cap {
        match json::parsed(t) {
            Some(v) => {
                lemma_fitted_fits(v, first_limit(is_success), cap);
            },
            None => {},
        }
        lemma_squeezed_fits(t, short_note(t.len(), cap), cap);
        assert(long_note(t.len(), cap).len() >= 0);
    }
}

/// The bodies that are logged of a request: each cut to the cap for its kind and outcome.
pub fn logged_bodies(
    request_body: Option<String>,
    response_body: Option<String>,
    success: bool,
) -> (r: (Option<String>, Option<String>))
    ensures
        json::some_string(r.0) == (match request_body {
            Some(t) => stored_body(
                t@,
                success,
                if success {
                    REQUEST_BODY_CAP_SUCCESS as nat
                } else {
                    REQUEST_BODY_CAP_FAILURE as nat
                },
            ),
            None => None,
        }),
        json::some_string(r.1) == (match response_body {
            Some(t) => stored_body(
                t@,
                success,
                if success {
                    RESPONSE_BODY_CAP_SUCCESS as nat
                } else {
                    RESPONSE_BODY_CAP_FAILURE as nat
                },
            ),
            None => None,
        }),
        request_body is Some && r.0 is Some ==> says_cut(
            r.0->0@,
            stored_cut(
                request_body->0@,
                success,
                if success {
                    REQUEST_BODY_CAP_SUCCESS as nat
                } else {
                    REQUEST_BODY_CAP_FAILURE as nat
                },
            ),
        ),
        response_body is Some && r.1 is Some ==> says_cut(
            r.1->0@,
            stored_cut(
                response_body->0@,
                success,
                if success {
                    RESPONSE_BODY_CAP_SUCCESS as nat
                } else {
                    RESPONSE_BODY_CAP_FAILURE as nat
                },
            ),
        ),
        r.0 is Some ==> r.0->0@.len() <= (if success {
            REQUEST_BODY_CAP_SUCCESS
        } else {
            REQUEST_BODY_CAP_FAILURE
        }),
        r.1 is Some ==> r.1->0@.len() <= (if success {
            RESPONSE_BODY_CAP_SUCCESS
        } else {
            RESPONSE_BODY_CAP_FAILURE
        }),
{
    (
        smart_truncate_body(
            request_body,
            success,
            REQUEST_BODY_CAP_SUCCESS,
            REQUEST_BODY_CAP_FAILURE,
        ),
        smart_truncate_body(
            response_body,
            success,
            RESPONSE_BODY_CAP_SUCCESS,
            RESPONSE_BODY_CAP_FAILURE,
        ),
    )
}

/// How long logged bodies are kept: three days, in milliseconds.
pub const BODY_RETENTION_MS: i64 = 3 * 86_400_000;

/// The time before which logged bodies are dropped.
pub fn retention_cutoff(now_ms: i64) -> (r: i64)
    requires
        now_ms - BODY_RETENTION_MS >= i64::MIN,
    ensures
        r == now_ms - BODY_RETENTION_MS,
        r + 3 * 24 * 60 * 60 * 1000 == now_ms,
{
    now_ms - BODY_RETENTION_MS
}

/// Cutting the fields of a body keeps its shape: the same members, the same number of messages, and
/// in each message the same members, the same number of tool calls, and everything but the content
/// and the arguments of the tool calls as it was.
pub proof fn lemma_cut_keeps_shape(body: JsonView, limit: nat, key: Seq<char>, i: int)
    ensures
        key != "messages"@ ==> json::field(cut_messages(body, limit), key) == json::field(body, key),
        match json::array_in(json::field(body, "messages"@)) {
            Some(before) => match json::array_in(
                json::field(cut_messages(body, limit), "messages"@),
            ) {
                Some(after) => after.len() == before.len() && (0 <= i < before.len() ==> {
                    let m = before[i];
                    let n = after[i];
                    &&& key != "content"@ && key != "tool_calls"@ ==> json::field(n, key)
                        == json::field(m, key)
                    &&& json::field(n, key) is Some <==> json::field(m, key) is Some
                    &&& match json::array_in(json::field(m, "tool_calls"@)) {
                        Some(calls) => match json::array_in(json::field(n, "tool_calls"@)) {
                            Some(cut) => cut.len() == calls.len(),
                            None => false,
                        },
                        None => true,
                    }
                }),
                None => false,
            },
            None => true,
        },
{
    reveal_strlit("content");
    reveal_strlit("tool_calls");
    assert("content"@.len() != "tool_calls"@.len());
}

/// A row of the log of requests.
pub struct LogEntry {
    pub timestamp: i64,
    pub account_id: i64,
    pub provider_id: String,
    pub model: String,
    pub usage: Usage,
    pub latency_ms: i64,
    pub success: bool,
    pub error_message: Option<String>,
    pub request_body: Option<String>,
    pub response_body: Option<String>,
    pub ttft_ms: Option<i64>,
    pub is_stream: bool,
    pub client_ip: Option<String>,
    pub is_test: bool,
}

/// A body as it is logged: cut to its cap.
pub open spec fn logged(body: Option<String>, success: bool, cap: nat) -> Option<Seq<char>> {
    match body {
        Some(t) => stored_body(t@, success, cap),
        None => None,
    }
}

/// How a request went, and what it took.
pub struct Timing {
    pub timestamp: i64,
    pub latency_ms: i64,
    pub ttft_ms: Option<i64>,
    pub is_stream: bool,
}

/// The row that is logged of a request.
pub fn log_usage(
    log: UsageLog,
    success: bool,
    request_body: Option<String>,
    timing: Timing,
    client_ip: Option<String>,
) -> (r: LogEntry)
    ensures
        r.timestamp == timing.timestamp,
        r.account_id == log.account_id,
        r.provider_id == log.provider_id,
        r.model == log.model,
        r.usage == log.usage,
        r.latency_ms == timing.latency_ms,
        r.success == success,
        r.error_message == log.error_message,
        json::some_string(r.request_body) == logged(
            request_body,
            success,
            if success {
                REQUEST_BODY_CAP_SUCCESS as nat
            } else {
                REQUEST_BODY_CAP_FAILURE as nat
            },
        ),
        json::some_string(r.response_body) == logged(
            log.response_body,
            success,
            if success {
                RESPONSE_BODY_CAP_SUCCESS as nat
            } else {
                RESPONSE_BODY_CAP_FAILURE as nat
            },
        ),
        r.ttft_ms == timing.ttft_ms,
        r.is_stream == timing.is_stream,
        r.client_ip == client_ip,
        !r.is_test,
{
    let bodies = logged_bodies(request_body, log.response_body, success);
    LogEntry {
        timestamp: timing.timestamp,
        account_id: log.account_id,
        provider_id: log.provider_id,
        model: log.model,
        usage: log.usage,
        latency_ms: timing.latency_ms,
        success,
        error_message: log.error_message,
        request_body: bodies.0,
        response_body: bodies.1,
        ttft_ms: timing.ttft_ms,
        is_stream: timing.is_stream,
        client_ip,
        is_test: false,
    }
}

/// A time of day, in UTC.
pub open spec fn clock_text(secs: u64) -> Seq<char> {
    let t = (secs % 86400) as nat;
    text::padded(t / 3600, 2) + ":"@ + text::padded(t % 3600 / 60, 2) + ":"@ + text::padded(
        t % 60,
        2,
    )
}

/// Writes the time of day of a number of seconds since 1970.
pub fn time_of_day(secs: u64) -> (r: String)
    ensures
        r@ == clock_text(secs),
{
    let t: u64 = secs % 86400;
    text::padded_u64(t / 3600, 2).concat(":").concat(
        text::padded_u64(t % 3600 / 60, 2).as_str(),
    ).concat(":").concat(text::padded_u64(t % 60, 2).as_str())
}

/// What the terminal interface shows of a finished gateway request.
pub fn send_tui_request(path: &str, status: u16, latency_ms: i64, model: &str, secs: u64) -> (r: TuiEvent)
    ensures
        match r {
            TuiEvent::Request { timestamp, method, path: p, status: s, latency_ms: l, model: m } => {
                timestamp@ == clock_text(secs) && method@ == "POST"@ && p@ == path@ && s == status
                    && l == latency_ms && m@ == model@
            },
            _ => false,
        },
{
    TuiEvent::Request {
        timestamp: time_of_day(secs),
        method: "POST".to_owned(),
        path: path.to_owned(),
        status,
        latency_ms,
        model: model.to_owned(),
    }
}

/// Every base URL names a scheme. One that names its own, and has no white space around it and no
/// slash at its end, stays as it is; one that names none is reached over a secure connection.
pub proof fn lemma_base_url(value: Seq<char>)
    requires
        value.len() > 0,
        !text::white(value[0]),
        !text::white(value.last()),
        value.last() != '/',
    ensures
        text::occurs(value, "://"@) ==> base_url(value) == value,
        !text::occurs(value, "://"@) ==> base_url(value) == "https://"@ + value,
        text::occurs(base_url(value), "://"@),
{
    text::lemma_trimmed_keeps(value);
    if !text::occurs(value, "://"@) {
        reveal_strlit("https://");
        reveal_strlit("://");
        let whole = "https://"@ + value;
        assert(whole.subrange(5, 8) =~= "://"@);
        assert(text::occurs_at(whole, "://"@, 5));
    }
}

/// A field that is too long keeps its first and its last characters, as many of each as half its
/// limit, and says between them how many are gone. Any other stays as it is.
pub proof fn lemma_cut_field(s: Seq<char>, limit: nat)
    ensures
        s.len() <= limit ==> cut_field(s, limit) == s,
        s.len() > limit ==> s.take((limit / 2) as int).is_prefix_of(cut_field(s, limit))
            && s.skip(s.len() - limit / 2).is_suffix_of(cut_field(s, limit)) && text::occurs(
            cut_field(s, limit),
            text::decimal((s.len() - limit) as nat),
        ),
{
    if s.len() > limit {
        let half = (limit / 2) as int;
        let whole = cut_field(s, limit);
        let before = s.take(half) + "\n…[truncated "@;
        let number = text::decimal((s.len() - limit) as nat);
        assert(whole.subrange(0, half) =~= s.take(half));
        assert(whole.subrange(before.len() as int, (before + number).len() as int) =~= number);
        assert(text::occurs_at(whole, number, before.len() as int));
    }
}

/// A body that is not too long is stored without the white space around it, and a blank one not at
/// all.
pub proof fn lemma_short_bodies_are_stored(s: Seq<char>, is_success: bool, cap: nat)
    ensures
        text::trimmed(s).len() == 0 ==> stored_body(s, is_success, cap) is None,
        0 < text::trimmed(s).len() <= cap ==> stored_body(s, is_success, cap) == Some(
            text::trimmed(s),
        ),
        stored_body(s, is_success, cap) is None ==> text::trimmed(s).len() == 0,
{
}

/// A request that is too long is stored with its messages cut: to 200 characters each where it was
/// served, to 1000 where it was not, and to half as many, again and again, until it fits.
pub proof fn lemma_long_requests_are_cut(s: Seq<char>, cap: nat, body: JsonView)
    requires
        text::trimmed(s).len() > cap,
        json::parsed(text::trimmed(s)) == Some(body),
        json::field(body, "messages"@) is Some && json::field(body, "messages"@)->0 is Array,
    ensures
        ({
            let at = |limit: nat| json::rendered(cut_messages(body, limit));
            &&& at(200).len() <= cap ==> stored_body(s, true, cap) == Some(at(200))
            &&& at(200).len() > cap >= at(100).len() ==> stored_body(s, true, cap) == Some(at(100))
            &&& at(1000).len() <= cap ==> stored_body(s, false, cap) == Some(at(1000))
            &&& at(1000).len() > cap >= at(500).len() ==> stored_body(s, false, cap) == Some(at(500))
        }),
{
    reveal_with_fuel(fitted, 2);
}

/// The limit of a second try is half of that of the first, but never under twenty; so it shrinks
/// until it is twenty.
pub proof fn lemma_limits_shrink(limit: nat)
    ensures
        next_limit(limit) >= 20,
        limit > 20 ==> next_limit(limit) < limit,
        limit >= 42 ==> next_limit(limit) == limit / 2,
{
}

/// The time of day is written with two digits for the hours, the minutes and the seconds each, and
/// they make the seconds of the day.
pub proof fn lemma_time_of_day(secs: u64)
    ensures
        ({
            let s = clock_text(secs);
            &&& s.len() == 8 && s[2] == ':' && s[5] == ':'
            &&& text::digits_value(s.subrange(0, 2)) < 24
            &&& text::digits_value(s.subrange(3, 5)) < 60
            &&& text::digits_value(s.subrange(6, 8)) < 60
            &&& 3600 * text::digits_value(s.subrange(0, 2)) + 60 * text::digits_value(
                s.subrange(3, 5),
            ) + text::digits_value(s.subrange(6, 8)) == secs % 86400
        }),
{
    let t = (secs % 86400) as nat;
    let h = text::padded(t / 3600, 2);
    let m = text::padded(t % 3600 / 60, 2);
    let x = text::padded(t % 60, 2);
    reveal_with_fuel(text::ten_to, 3);
    reveal_strlit(":");
    text::lemma_padded_reads_back(t / 3600, 2);
    text::lemma_padded_reads_back(t % 3600 / 60, 2);
    text::lemma_padded_reads_back(t % 60, 2);
    let s = clock_text(secs);
    assert(s.subrange(0, 2) =~= h);
    assert(s.subrange(3, 5) =~= m);
    assert(s.subrange(6, 8) =~= x);
}

/// A request that was served is stored whole up to 32,000 characters, its answer up to 16,000; of one
/// that was not, both up to half a million.
pub proof fn lemma_whole_bodies(body: String)
    ensures
        0 < text::trimmed(body@).len() <= 32_000 ==> logged(
            Some(body),
            true,
            REQUEST_BODY_CAP_SUCCESS as nat,
        ) == Some(text::trimmed(body@)),
        0 < text::trimmed(body@).len() <= 16_000 ==> logged(
            Some(body),
            true,
            RESPONSE_BODY_CAP_SUCCESS as nat,
        ) == Some(text::trimmed(body@)),
        0 < text::trimmed(body@).len() <= 500_000 ==> logged(
            Some(body),
            false,
            REQUEST_BODY_CAP_FAILURE as nat,
        ) == Some(text::trimmed(body@)) && logged(Some(body), false, RESPONSE_BODY_CAP_FAILURE as nat)
            == Some(text::trimmed(body@)),
        logged(None, true, REQUEST_BODY_CAP_SUCCESS as nat) is None,
{
}

} // verus!
