//! JSON values: the library's own tree, its mathematical view, and the crossing to `serde_json`.

use vstd::prelude::*;
use crate::text::{self, same};

verus! {

/// `serde_json::Value`, carried through unopened.
#[verifier::external_type_specification]
#[verifier::external_body]
pub struct ExValue(serde_json::Value);

/// `serde_json::Number`, carried through unopened.
#[verifier::external_type_specification]
#[verifier::external_body]
pub struct ExNumber(serde_json::Number);

/// A number that is no 64-bit integer. Only [`import`] makes one.
pub struct Real {
    number: serde_json::Number,
}

/// A JSON value.
///
/// An object is a list of members; a later member hides an earlier one of the same key.
pub enum Json {
    Null,
    Bool(bool),
    Unsigned(u64),
    Signed(i64),
    Real(Real),
    Text(String),
    Array(Vec<Json>),
    Object(Vec<(String, Json)>),
}

/// What a JSON value means: objects are maps, integers are mathematical integers.
#[verifier::ext_equal]
pub enum JsonView {
    Null,
    Bool(bool),
    Int(int),
    Real(Real),
    Text(Seq<char>),
    Array(Seq<JsonView>),
    Object(Map<Seq<char>, JsonView>),
}

/// The values of a list of elements.
pub open spec fn elements_view(s: Seq<Json>) -> Seq<JsonView>
    decreases s,
{
    if s.len() == 0 {
        Seq::empty()
    } else {
        elements_view(s.drop_last()).push(json_view(s.last()))
    }
}

/// The map that a list of members makes.
pub open spec fn members_view(s: Seq<(String, Json)>) -> Map<Seq<char>, JsonView>
    decreases s,
{
    if s.len() == 0 {
        Map::empty()
    } else {
        members_view(s.drop_last()).insert(s.last().0@, json_view(s.last().1))
    }
}

/// The meaning of a JSON value.
pub open spec fn json_view(j: Json) -> JsonView
    decreases j,
{
    match j {
        Json::Null => JsonView::Null,
        Json::Bool(b) => JsonView::Bool(b),
        Json::Unsigned(n) => JsonView::Int(n as int),
        Json::Signed(n) => JsonView::Int(n as int),
        Json::Real(n) => JsonView::Real(n),
        Json::Text(s) => JsonView::Text(s@),
        Json::Array(v) => JsonView::Array(elements_view(v@)),
        Json::Object(v) => JsonView::Object(members_view(v@)),
    }
}

impl View for Json {
    type V = JsonView;

    open spec fn view(&self) -> JsonView {
        json_view(*self)
    }
}

pub broadcast proof fn lemma_elements_view(s: Seq<Json>)
    ensures
        #[trigger] elements_view(s).len() == s.len(),
        forall|i: int| 0 <= i < s.len() ==> #[trigger] elements_view(s)[i] == json_view(s[i]),
    decreases s.len(),
{
    if s.len() > 0 {
        lemma_elements_view(s.drop_last());
    }
}

/// The member of an object under a key; nothing for any other value.
pub open spec fn field(v: JsonView, key: Seq<char>) -> Option<JsonView> {
    match v {
        JsonView::Object(m) => if m.dom().contains(key) {
            Some(m[key])
        } else {
            None
        },
        _ => None,
    }
}

/// Whether an object has a value under a key.
pub open spec fn holds(m: Map<Seq<char>, JsonView>, key: Seq<char>, v: JsonView) -> bool {
    m.dom().contains(key) && m[key] == v
}

/// A value without a member of a key; any value but an object as it is.
pub open spec fn dropped(v: JsonView, key: Seq<char>) -> JsonView {
    match v {
        JsonView::Object(m) => JsonView::Object(m.remove(key)),
        other => other,
    }
}

/// The characters of a string value.
pub open spec fn text_in(v: Option<JsonView>) -> Option<Seq<char>> {
    match v {
        Some(JsonView::Text(s)) => Some(s),
        _ => None,
    }
}

/// The truth value of a boolean value.
pub open spec fn bool_in(v: Option<JsonView>) -> Option<bool> {
    match v {
        Some(JsonView::Bool(b)) => Some(b),
        _ => None,
    }
}

/// The number of an integer value that fits 64 signed bits.
pub open spec fn i64_in(v: Option<JsonView>) -> Option<i64> {
    match v {
        Some(JsonView::Int(n)) => if i64::MIN <= n <= i64::MAX {
            Some(n as i64)
        } else {
            None
        },
        _ => None,
    }
}

/// The number of an integer value that fits 64 unsigned bits.
pub open spec fn u64_in(v: Option<JsonView>) -> Option<u64> {
    match v {
        Some(JsonView::Int(n)) => if 0 <= n <= u64::MAX {
            Some(n as u64)
        } else {
            None
        },
        _ => None,
    }
}

/// The elements of an array value.
pub open spec fn array_in(v: Option<JsonView>) -> Option<Seq<JsonView>> {
    match v {
        Some(JsonView::Array(s)) => Some(s),
        _ => None,
    }
}

/// The view of an optional value.
pub open spec fn some_view(v: Option<&Json>) -> Option<JsonView> {
    match v {
        Some(j) => Some(j@),
        None => None,
    }
}

/// The characters of an optional text.
pub open spec fn some_text(v: Option<&str>) -> Option<Seq<char>> {
    match v {
        Some(s) => Some(s@),
        None => None,
    }
}

/// The characters of an optional string.
pub open spec fn some_string(v: Option<String>) -> Option<Seq<char>> {
    match v {
        Some(s) => Some(s@),
        None => None,
    }
}

impl Json {
    /// The member of an object under a key.
    pub fn get(&self, key: &str) -> (r: Option<&Json>)
        ensures
            some_view(r) == field(self@, key@),
    {
        match self {
            Json::Object(members) => {
                let mut i: usize = members.len();
                assert(members@.take(i as int) =~= members@);
                while i > 0
                    invariant
                        i <= members@.len(),
                        *self == Json::Object(*members),
                        field(self@, key@) == field(
                            JsonView::Object(members_view(members@.take(i as int))),
                            key@,
                        ),
                    decreases i,
                {
                    i = i - 1;
                    assert(members@.take(i + 1).drop_last() =~= members@.take(i as int));
                    if same(members[i].0.as_str(), key) {
                        return Some(&members[i].1);
                    }
                }
                None
            },
            _ => None,
        }
    }

    /// The text of a string value.
    pub fn as_str(&self) -> (r: Option<&str>)
        ensures
            some_text(r) == text_in(Some(self@)),
    {
        match self {
            Json::Text(s) => Some(s.as_str()),
            _ => None,
        }
    }

    /// The truth value of a boolean value.
    pub fn as_bool(&self) -> (r: Option<bool>)
        ensures
            r == bool_in(Some(self@)),
    {
        match self {
            Json::Bool(b) => Some(*b),
            _ => None,
        }
    }

    /// The number of an integer value that fits 64 signed bits.
    pub fn as_i64(&self) -> (r: Option<i64>)
        ensures
            r == i64_in(Some(self@)),
    {
        match self {
            Json::Unsigned(n) => if *n <= i64::MAX as u64 {
                Some(*n as i64)
            } else {
                None
            },
            Json::Signed(n) => Some(*n),
            _ => None,
        }
    }

    /// The number of an integer value that fits 64 unsigned bits.
    pub fn as_u64(&self) -> (r: Option<u64>)
        ensures
            r == u64_in(Some(self@)),
    {
        match self {
            Json::Unsigned(n) => Some(*n),
            Json::Signed(n) => if *n >= 0 {
                Some(*n as u64)
            } else {
                None
            },
            _ => None,
        }
    }

    /// The elements of an array value.
    pub fn as_array(&self) -> (r: Option<&Vec<Json>>)
        ensures
            match r {
                Some(v) => self@ == JsonView::Array(elements_view(v@)) && *self == Json::Array(*v),
                None => !(self@ is Array),
            },
    {
        match self {
            Json::Array(v) => Some(v),
            _ => None,
        }
    }

    /// The text of the member under a key.
    pub fn str_at(&self, key: &str) -> (r: Option<&str>)
        ensures
            some_text(r) == text_in(field(self@, key@)),
    {
        match self.get(key) {
            Some(j) => j.as_str(),
            None => None,
        }
    }

    /// A value of the same meaning.
    pub fn copy(&self) -> (r: Json)
        ensures
            r@ == self@,
        decreases self,
    {
        match self {
            Json::Null => Json::Null,
            Json::Bool(b) => Json::Bool(*b),
            Json::Unsigned(n) => Json::Unsigned(*n),
            Json::Signed(n) => Json::Signed(*n),
            Json::Real(n) => Json::Real(copy_real(n)),
            Json::Text(s) => Json::Text(s.clone()),
            Json::Array(v) => {
                let mut out: Vec<Json> = Vec::new();
                let mut i: usize = 0;
                while i < v.len()
                    invariant
                        i <= v@.len(),
                        *self == Json::Array(*v),
                        elements_view(out@) == elements_view(v@.take(i as int)),
                    decreases v@.len() - i,
                {
                    proof {
                        assert(decreases_to!(self => self->Array_0));
                        assert(decreases_to!(self->Array_0 => self->Array_0@));
                        assert(decreases_to!(self->Array_0@ => self->Array_0@[i as int]));
                    }
                    let e = v[i].copy();
                    proof {
                        assert(out@.push(e).drop_last() =~= out@);
                        assert(v@.take(i + 1).drop_last() =~= v@.take(i as int));
                    }
                    out.push(e);
                    i = i + 1;
                }
                assert(v@.take(i as int) =~= v@);
                Json::Array(out)
            },
            Json::Object(v) => {
                let mut out: Vec<(String, Json)> = Vec::new();
                let mut i: usize = 0;
                while i < v.len()
                    invariant
                        i <= v@.len(),
                        *self == Json::Object(*v),
                        members_view(out@) == members_view(v@.take(i as int)),
                    decreases v@.len() - i,
                {
                    proof {
                        assert(decreases_to!(self => self->Object_0));
                        assert(decreases_to!(self->Object_0 => self->Object_0@));
                        assert(decreases_to!(self->Object_0@ => self->Object_0@[i as int]));
                        assert(decreases_to!(self->Object_0@[i as int] => self->Object_0@[i as int].1));
                    }
                    let e = v[i].1.copy();
                    let m = (v[i].0.clone(), e);
                    proof {
                        assert(out@.push(m).drop_last() =~= out@);
                        assert(v@.take(i + 1).drop_last() =~= v@.take(i as int));
                    }
                    out.push(m);
                    i = i + 1;
                }
                assert(v@.take(i as int) =~= v@);
                Json::Object(out)
            },
        }
    }

    /// The object without members.
    pub fn object() -> (r: Json)
        ensures
            r@ == JsonView::Object(Map::empty()),
    {
        Json::Object(Vec::new())
    }

    /// The object with one more member, in place of one of that key.
    pub fn with(self, key: &str, value: Json) -> (r: Json)
        requires
            self@ is Object,
        ensures
            r@ == JsonView::Object(self@->Object_0.insert(key@, value@)),
    {
        match self {
            Json::Object(members) => {
                let mut out = members;
                let m = (key.to_owned(), value);
                assert(out@.push(m).drop_last() =~= out@);
                out.push(m);
                Json::Object(out)
            },
            other => other,
        }
    }

    /// A value without a member of a key; any value but an object as it is.
    pub fn without(&self, key: &str) -> (r: Json)
        ensures
            r@ == dropped(self@, key@),
    {
        let members = match self {
            Json::Object(members) => members,
            other => {
                return other.copy();
            },
        };
        let mut out: Vec<(String, Json)> = Vec::new();
        let mut i: usize = 0;
        assert(members@.take(0) =~= Seq::<(String, Json)>::empty());
        assert(members_view(members@.take(0)).remove(key@) =~= Map::<
            Seq<char>,
            JsonView,
        >::empty());
        while i < members.len()
            invariant
                i <= members@.len(),
                members_view(out@) == members_view(members@.take(i as int)).remove(key@),
            decreases members@.len() - i,
        {
            let ghost before = out@;
            let ghost part = members@.take(i + 1);
            assert(part.drop_last() =~= members@.take(i as int));
            let m = &members[i];
            if !same(m.0.as_str(), key) {
                let kept = (m.0.clone(), m.1.copy());
                out.push(kept);
                assert(out@.drop_last() =~= before);
                assert(members_view(out@) =~= members_view(part).remove(key@));
            } else {
                assert(members_view(out@) =~= members_view(part).remove(key@));
            }
            i = i + 1;
        }
        assert(members@.take(i as int) =~= members@);
        Json::Object(out)
    }

    /// A string value.
    pub fn text(s: &str) -> (r: Json)
        ensures
            r@ == JsonView::Text(s@),
    {
        Json::Text(s.to_owned())
    }
}

/// Whether a character is white space in JSON.
pub open spec fn is_space(c: char) -> bool {
    c == ' ' || c == '\n' || c == '\r' || c == '\t'
}

/// The key by which the reader knows a value that is kept as its text: it takes an object that begins
/// with this key for what the text under it says.
pub open spec fn kept_text_key() -> Seq<char> {
    "$serde_json::private::RawValue"@
}

/// Whether a value holds 64-bit integers but no other numbers, has no object with the key of values
/// that are kept as texts, and nests no deeper than `depth`.
pub open spec fn readable(v: JsonView, depth: nat) -> bool
    decreases depth,
{
    match v {
        JsonView::Null => true,
        JsonView::Bool(_) => true,
        JsonView::Int(n) => i64::MIN <= n <= u64::MAX,
        JsonView::Real(_) => false,
        JsonView::Text(_) => true,
        JsonView::Array(s) => depth > 0 && forall|i: int|
            0 <= i < s.len() ==> readable(#[trigger] s[i], (depth - 1) as nat),
        JsonView::Object(m) => depth > 0 && !m.dom().contains(kept_text_key()) && forall|k: Seq<char>|
            m.dom().contains(k) ==> readable(#[trigger] m[k], (depth - 1) as nat),
    }
}

/// Whether a value is read back from its notation: it holds no real numbers and no object that the
/// reader could take for a value kept as its text, and nests no deeper than the reader allows.
pub open spec fn reads_back(v: JsonView) -> bool {
    readable(v, 127)
}

/// The array value of a list of texts.
pub open spec fn text_array(s: Seq<Seq<char>>) -> JsonView {
    JsonView::Array(s.map_values(|t: Seq<char>| JsonView::Text(t)))
}

/// The string value of an optional text; null where there is none.
pub open spec fn text_or_null(v: Option<Seq<char>>) -> JsonView {
    match v {
        Some(s) => JsonView::Text(s),
        None => JsonView::Null,
    }
}

/// The string value of an optional text; null where there is none.
pub fn optional_text(v: &Option<String>) -> (r: Json)
    ensures
        r@ == text_or_null(some_string(*v)),
{
    match v {
        Some(s) => Json::Text(s.clone()),
        None => Json::Null,
    }
}

/// The number value of an optional number; null where there is none.
pub open spec fn int_or_null(v: Option<i64>) -> JsonView {
    match v {
        Some(n) => JsonView::Int(n as int),
        None => JsonView::Null,
    }
}

/// The number value of an optional number; null where there is none.
pub fn optional_int(v: Option<i64>) -> (r: Json)
    ensures
        r@ == int_or_null(v),
{
    match v {
        Some(n) => Json::Signed(n),
        None => Json::Null,
    }
}

/// The array value of a list of strings.
pub fn string_array(v: &Vec<String>) -> (r: Json)
    ensures
        r@ == text_array(text::texts(v@)),
{
    let mut out: Vec<Json> = Vec::new();
    let mut i: usize = 0;
    while i < v.len()
        invariant
            i == out@.len(),
            i <= v@.len(),
            forall|k: int| 0 <= k < i ==> #[trigger] json_view(out@[k]) == JsonView::Text(v@[k]@),
        decreases v@.len() - i,
    {
        out.push(Json::Text(v[i].clone()));
        i = i + 1;
    }
    proof {
        lemma_elements_view(out@);
        assert(elements_view(out@) =~= text::texts(v@).map_values(|t: Seq<char>| JsonView::Text(t)));
    }
    Json::Array(out)
}

/// What a `serde_json::Value` holds.
pub uninterp spec fn value_view(v: serde_json::Value) -> JsonView;

/// What a text says when read as JSON, or why it is no JSON.
pub uninterp spec fn reading(text: Seq<char>) -> Result<JsonView, Seq<char>>;

/// What bytes say when read as JSON in UTF-8, or why they are no JSON.
pub uninterp spec fn reading_bytes(bytes: Seq<u8>) -> Result<JsonView, Seq<char>>;

/// What a text says when read as JSON, if it is JSON.
pub open spec fn parsed(text: Seq<char>) -> Option<JsonView> {
    match reading(text) {
        Ok(v) => Some(v),
        Err(_) => None,
    }
}

/// What bytes say when read as JSON in UTF-8, if they are JSON.
pub open spec fn parsed_bytes(bytes: Seq<u8>) -> Option<JsonView> {
    match reading_bytes(bytes) {
        Ok(v) => Some(v),
        Err(_) => None,
    }
}

/// The strings of a text that is a JSON array of strings.
pub uninterp spec fn string_list(text: Seq<char>) -> Option<Seq<Seq<char>>>;

/// The compact notation of a JSON value.
pub uninterp spec fn rendered(v: JsonView) -> Seq<char>;

/// The notation of a JSON value over several lines.
pub uninterp spec fn pretty(v: JsonView) -> Seq<char>;

/// Calls the `Clone` of `serde_json::Number`: the same number.
#[verifier::external_body]
fn copy_real(n: &Real) -> (r: Real)
    ensures
        r == *n,
{
    Real { number: n.number.clone() }
}

/// Calls `serde_json::from_str` for a `Value`.
#[verifier::external_body]
fn read_value(text: &str) -> (r: Result<serde_json::Value, String>)
    ensures
        match r {
            Ok(v) => reading(text@) == Ok::<JsonView, Seq<char>>(value_view(v)),
            Err(e) => reading(text@) == Err::<JsonView, Seq<char>>(e@),
        },
{
    serde_json::from_str::<serde_json::Value>(text).map_err(|e| e.to_string())
}

/// Calls `serde_json::from_slice` for a `Value`.
#[verifier::external_body]
fn read_value_bytes(bytes: &[u8]) -> (r: Result<serde_json::Value, String>)
    ensures
        match r {
            Ok(v) => reading_bytes(bytes@) == Ok::<JsonView, Seq<char>>(value_view(v)),
            Err(e) => reading_bytes(bytes@) == Err::<JsonView, Seq<char>>(e@),
        },
{
    serde_json::from_slice::<serde_json::Value>(bytes).map_err(|e| e.to_string())
}

/// Calls `serde_json::from_str` for a list of strings.
#[verifier::external_body]
pub(crate) fn read_string_list(text: &str) -> (r: Option<Vec<String>>)
    ensures
        match r {
            Some(v) => string_list(text@) == Some(text::texts(v@)),
            None => string_list(text@) is None,
        },
{
    serde_json::from_str::<Vec<String>>(text).ok()
}

/// Opens a `serde_json::Value`, variant by variant.
#[verifier::external_body]
pub(crate) fn open_value(v: serde_json::Value) -> (r: Json)
    ensures
        r@ == value_view(v),
{
    match v {
        serde_json::Value::Null => Json::Null,
        serde_json::Value::Bool(b) => Json::Bool(b),
        serde_json::Value::Number(n) => match (n.as_u64(), n.as_i64()) {
            (Some(u), _) => Json::Unsigned(u),
            (None, Some(i)) => Json::Signed(i),
            (None, None) => Json::Real(Real { number: n }),
        },
        serde_json::Value::String(s) => Json::Text(s),
        serde_json::Value::Array(a) => Json::Array(a.into_iter().map(open_value).collect()),
        serde_json::Value::Object(o) => Json::Object(o.into_iter().map(|m| (m.0, open_value(m.1))).collect()),
    }
}

/// Builds the `serde_json::Value` of a JSON value, variant by variant.
#[verifier::external_body]
fn build_value(j: &Json) -> (r: serde_json::Value)
    ensures
        value_view(r) == j@,
{
    match j {
        Json::Null => serde_json::Value::Null,
        Json::Bool(b) => serde_json::Value::from(*b),
        Json::Unsigned(n) => serde_json::Value::from(*n),
        Json::Signed(n) => serde_json::Value::from(*n),
        Json::Real(n) => serde_json::Value::Number(n.number.clone()),
        Json::Text(s) => serde_json::Value::from(s.as_str()),
        Json::Array(a) => a.iter().map(build_value).collect(),
        Json::Object(o) => o.iter().map(|m| (m.0.clone(), build_value(&m.1))).collect(),
    }
}

/// Calls the `Display` of `serde_json::Value`: the compact notation. Read again, the notation of a
/// value says the same, and that of an array of strings gives the strings. An array begins with a
/// bracket.
///
/// That it says the same is claimed of values that hold no real numbers, have no object with the key
/// of a `RawValue`, and nest no deeper than the reader allows. Reals may lose their last digit when
/// they are read. An object that begins with that key is read as what its text says.
#[verifier::external_body]
fn write_value(v: &serde_json::Value) -> (r: String)
    ensures
        r@ == rendered(value_view(*v)),
        reads_back(value_view(*v)) ==> parsed(r@) == Some(value_view(*v))
            && parsed_bytes(vstd::utf8::encode_utf8(r@)) == Some(value_view(*v)),
        forall|s: Seq<Seq<char>>|
            value_view(*v) == #[trigger] text_array(s) ==> string_list(r@) == Some(s),
        value_view(*v) is Array ==> r@.len() > 0 && r@[0] == '[',
{
    v.to_string()
}

/// Calls `serde_json::to_string_pretty`: the notation over several lines. Every value has one. Read
/// again, it says the same, as far as this is claimed of the compact notation.
#[verifier::external_body]
fn write_pretty(v: &serde_json::Value) -> (r: Result<String, String>)
    ensures
        r is Ok && r->Ok_0@ == pretty(value_view(*v)),
        reads_back(value_view(*v)) ==> parsed(r->Ok_0@) == Some(value_view(*v)),
{
    serde_json::to_string_pretty(v).map_err(|e| e.to_string())
}

/// The JSON value of a `serde_json::Value`.
pub fn import(v: serde_json::Value) -> (r: Json)
    ensures
        r@ == value_view(v),
{
    open_value(v)
}

/// The `serde_json::Value` of a JSON value.
pub fn export(j: &Json) -> (r: serde_json::Value)
    ensures
        value_view(r) == j@,
{
    build_value(j)
}

/// Reads a text as JSON, or says why it is none.
pub fn read(text: &str) -> (r: Result<Json, String>)
    ensures
        match r {
            Ok(j) => reading(text@) == Ok::<JsonView, Seq<char>>(j@),
            Err(e) => reading(text@) == Err::<JsonView, Seq<char>>(e@),
        },
{
    match read_value(text) {
        Ok(v) => Ok(open_value(v)),
        Err(e) => Err(e),
    }
}

/// Reads a text as JSON.
pub fn parse(text: &str) -> (r: Option<Json>)
    ensures
        match r {
            Some(j) => parsed(text@) == Some(j@),
            None => parsed(text@) is None,
        },
{
    match read_value(text) {
        Ok(v) => Some(open_value(v)),
        Err(_) => None,
    }
}

/// Reads bytes as JSON, or says why they are none.
pub fn read_bytes(bytes: &[u8]) -> (r: Result<Json, String>)
    ensures
        match r {
            Ok(j) => reading_bytes(bytes@) == Ok::<JsonView, Seq<char>>(j@),
            Err(e) => reading_bytes(bytes@) == Err::<JsonView, Seq<char>>(e@),
        },
{
    match read_value_bytes(bytes) {
        Ok(v) => Ok(open_value(v)),
        Err(e) => Err(e),
    }
}

/// Reads bytes as JSON.
pub fn parse_bytes(bytes: &[u8]) -> (r: Option<Json>)
    ensures
        match r {
            Some(j) => parsed_bytes(bytes@) == Some(j@),
            None => parsed_bytes(bytes@) is None,
        },
{
    match read_value_bytes(bytes) {
        Ok(v) => Some(open_value(v)),
        Err(_) => None,
    }
}

/// The compact notation of a JSON value. What it says, read again, is the value, for values that are
/// read back.
pub fn render(j: &Json) -> (r: String)
    ensures
        r@ == rendered(j@),
        reads_back(j@) ==> parsed(r@) == Some(j@) && parsed_bytes(
            vstd::utf8::encode_utf8(r@),
        ) == Some(j@),
        forall|s: Seq<Seq<char>>| j@ == #[trigger] text_array(s) ==> string_list(r@) == Some(s),
        j@ is Array ==> r@.len() > 0 && r@[0] == '[',
{
    write_value(&build_value(j))
}

/// The notation of a JSON value over several lines. What it says, read again, is the value, for values
/// that are read back.
pub fn render_pretty(j: &Json) -> (r: Result<String, String>)
    ensures
        r is Ok && r->Ok_0@ == pretty(j@),
        reads_back(j@) ==> parsed(r->Ok_0@) == Some(j@),
{
    write_pretty(&build_value(j))
}

} // verus!
