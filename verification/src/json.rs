//! JSON documents as the trackers send them.

use crate::error::{ErrorKind, SourceError, SourceErrorView};
use crate::text::str_eq;
use vstd::prelude::*;
use vstd::std_specs::iter::IteratorSpec;
use vstd::string::*;

verus! {

/// A JSON number as written: sign, decimal digits and power of ten.
#[derive(Clone, Copy, Debug, PartialEq, Eq, Structural)]
pub struct JsonNumber {
    pub positive: bool,
    pub mantissa: u64,
    pub exponent: i16,
}

impl JsonNumber {
    /// The number with the given sign, digits and power of ten.
    pub fn from_parts(parts: (bool, u64, i16)) -> (r: JsonNumber)
        ensures
            r == (JsonNumber { positive: parts.0, mantissa: parts.1, exponent: parts.2 }),
    {
        JsonNumber { positive: parts.0, mantissa: parts.1, exponent: parts.2 }
    }
}

/// A JSON value.
#[derive(Debug)]
pub enum Json {
    Null,
    Bool(bool),
    Number(JsonNumber),
    Text(String),
    Array(Vec<Json>),
    /// The members in the order of the document.
    Object(Vec<(String, Json)>),
}

/// The mathematical content of a `Json`.
pub enum JsonView {
    Null,
    Bool(bool),
    Number(JsonNumber),
    Text(Seq<char>),
    Array(Seq<JsonView>),
    Object(Seq<(Seq<char>, JsonView)>),
}

/// The contents of a value, with those of the values inside it.
pub open spec fn json_content(j: Json) -> JsonView
    decreases j,
{
    match j {
        Json::Null => JsonView::Null,
        Json::Bool(b) => JsonView::Bool(b),
        Json::Number(n) => JsonView::Number(n),
        Json::Text(s) => JsonView::Text(s@),
        Json::Array(items) => JsonView::Array(
            Seq::new(
                items@.len(),
                |i: int|
                    if 0 <= i < items@.len() {
                        json_content(items@[i])
                    } else {
                        JsonView::Null
                    },
            ),
        ),
        Json::Object(members) => JsonView::Object(
            Seq::new(
                members@.len(),
                |i: int|
                    if 0 <= i < members@.len() {
                        (members@[i].0@, json_content(members@[i].1))
                    } else {
                        (Seq::empty(), JsonView::Null)
                    },
            ),
        ),
    }
}

impl View for Json {
    type V = JsonView;

    open spec fn view(&self) -> JsonView {
        json_content(*self)
    }
}

/// The value of the first member of `members` that is named `key`, `Null`
/// where there is none.
pub open spec fn member_value(members: Seq<(Seq<char>, JsonView)>, key: Seq<char>) -> JsonView
    decreases members.len(),
{
    if members.len() == 0 {
        JsonView::Null
    } else if members[0].0 == key {
        members[0].1
    } else {
        member_value(members.drop_first(), key)
    }
}

impl JsonView {
    /// The member named `key` of an object; `Null` where the value is no
    /// object or has no such member.
    pub open spec fn field(self, key: Seq<char>) -> JsonView {
        match self {
            JsonView::Object(members) => member_value(members, key),
            _ => JsonView::Null,
        }
    }

    /// The text of a string value.
    pub open spec fn text(self) -> Option<Seq<char>> {
        match self {
            JsonView::Text(s) => Some(s),
            _ => None,
        }
    }

    /// The value of a boolean.
    pub open spec fn boolean(self) -> Option<bool> {
        match self {
            JsonView::Bool(b) => Some(b),
            _ => None,
        }
    }

    /// The value of a number that is written without fraction or exponent
    /// and fits a signed 64-bit integer.
    pub open spec fn integer(self) -> Option<i64> {
        match self {
            JsonView::Number(n) => if n.exponent == 0 && n.mantissa <= i64::MAX {
                Some(
                    if n.positive {
                        n.mantissa as i64
                    } else {
                        (-(n.mantissa as int)) as i64
                    },
                )
            } else {
                None
            },
            _ => None,
        }
    }

    /// The value of a number that is written without sign, fraction or
    /// exponent.
    pub open spec fn unsigned(self) -> Option<u64> {
        match self {
            JsonView::Number(n) => if n.positive && n.exponent == 0 {
                Some(n.mantissa)
            } else {
                None
            },
            _ => None,
        }
    }

    /// The elements of an array.
    pub open spec fn elements(self) -> Option<Seq<JsonView>> {
        match self {
            JsonView::Array(items) => Some(items),
            _ => None,
        }
    }
}

impl Json {
    /// The member named `key` of an object; `Null` where the value is no
    /// object or has no such member.
    pub fn get(&self, key: &str) -> (r: &Json)
        ensures
            r@ == self@.field(key@),
    {
        match self {
            Json::Object(members) => {
                let ghost m = member_views(members@);
                proof {
                    lemma_view_of_object(*members);
                    assert(m.skip(0) == m);
                }
                let mut i: usize = 0;
                while i < members.len()
                    invariant
                        i <= members.len(),
                        m == member_views(members@),
                        self@ == JsonView::Object(m),
                        member_value(m, key@) == member_value(m.skip(i as int), key@),
                    decreases members.len() - i,
                {
                    if str_eq(members[i].0.as_str(), key) {
                        return &members[i].1;
                    }
                    assert(m.skip(i as int).drop_first() == m.skip(i as int + 1));
                    i = i + 1;
                }
                &Json::Null
            },
            _ => &Json::Null,
        }
    }

    /// The text of a string value.
    pub fn as_str(&self) -> (r: Option<&str>)
        ensures
            match r {
                Some(s) => self@.text() == Some(s@),
                None => self@.text() is None,
            },
    {
        match self {
            Json::Text(s) => Some(s.as_str()),
            _ => None,
        }
    }

    /// The value of a boolean.
    pub fn as_bool(&self) -> (r: Option<bool>)
        ensures
            r == self@.boolean(),
    {
        match self {
            Json::Bool(b) => Some(*b),
            _ => None,
        }
    }

    /// The value of a number that is written without fraction or exponent
    /// and fits a signed 64-bit integer.
    pub fn as_i64(&self) -> (r: Option<i64>)
        ensures
            r == self@.integer(),
    {
        match self {
            Json::Number(n) => {
                if n.exponent == 0 && n.mantissa <= i64::MAX as u64 {
                    let magnitude = n.mantissa as i64;
                    if n.positive {
                        Some(magnitude)
                    } else {
                        Some(-magnitude)
                    }
                } else {
                    None
                }
            },
            _ => None,
        }
    }

    /// The value of a number that is written without sign, fraction or
    /// exponent.
    pub fn as_u64(&self) -> (r: Option<u64>)
        ensures
            r == self@.unsigned(),
    {
        match self {
            Json::Number(n) => {
                if n.positive && n.exponent == 0 {
                    Some(n.mantissa)
                } else {
                    None
                }
            },
            _ => None,
        }
    }

    /// The elements of an array.
    pub fn members(&self) -> (r: Option<&Vec<Json>>)
        ensures
            match r {
                Some(items) => self@.elements() == Some(element_views(items@)),
                None => self@.elements() is None,
            },
    {
        match self {
            Json::Array(items) => {
                proof {
                    lemma_view_of_array(*items);
                }
                Some(items)
            },
            _ => None,
        }
    }
}

/// The contents of a list of values.
pub open spec fn element_views(items: Seq<Json>) -> Seq<JsonView> {
    Seq::new(items.len(), |i: int| items[i]@)
}

/// The contents of a list of named values.
pub open spec fn member_views(members: Seq<(String, Json)>) -> Seq<(Seq<char>, JsonView)> {
    Seq::new(members.len(), |i: int| (members[i].0@, members[i].1@))
}

/// An array holds the contents of its elements.
pub proof fn lemma_view_of_array(items: Vec<Json>)
    ensures
        Json::Array(items)@ == JsonView::Array(element_views(items@)),
{
    reveal_with_fuel(json_content, 2);
    let j = Json::Array(items);
    assert(j@->Array_0 =~= element_views(items@));
}

/// An object holds the names and the contents of its members.
pub proof fn lemma_view_of_object(members: Vec<(String, Json)>)
    ensures
        Json::Object(members)@ == JsonView::Object(member_views(members@)),
{
    reveal_with_fuel(json_content, 2);
    let j = Json::Object(members);
    assert(j@->Object_0 =~= member_views(members@));
}

/// A value as the `json` crate holds it.
#[verifier::external_type_specification]
#[verifier::external_body]
pub struct ExJsonValue(json::JsonValue);

/// The failure of the `json` crate's parser.
#[verifier::external_type_specification]
#[verifier::external_body]
pub struct ExJsonError(json::Error);

/// What a value of the `json` crate holds.
pub uninterp spec fn parsed_content(value: json::JsonValue) -> JsonView;

/// What `json::parse` makes of a text: the contents of the document, or
/// nothing where the text is no JSON document.
pub uninterp spec fn json_document(text: Seq<char>) -> Option<JsonView>;

/// The most digits that may stand directly behind a point.
pub const MAX_FRACTION_DIGITS: usize = 32768;

/// Whether a character is one of the digits `0` to `9`.
pub open spec fn is_digit(c: char) -> bool {
    48 <= c as u32 <= 57
}

/// The number of digits that stand in a row from place `i` on.
pub open spec fn digits_from(text: Seq<char>, i: int) -> nat
    decreases text.len() - i,
{
    if 0 <= i < text.len() && is_digit(text[i]) {
        1 + digits_from(text, i + 1)
    } else {
        0
    }
}

/// Where a text stands behind a character, given where it stood before
/// it: whether inside a string, and whether behind a backslash that
/// takes the next character of the string with it. A quotation mark
/// begins a string and, unless a backslash stands before it, ends one.
pub open spec fn string_state_behind(before: (bool, bool), c: char) -> (bool, bool) {
    if !before.0 {
        (c == '"', false)
    } else if before.1 {
        (true, false)
    } else if c == '\\' {
        (true, true)
    } else {
        (c != '"', false)
    }
}

/// Where a text stands before place `i`. See `string_state_behind`.
pub open spec fn string_state(text: Seq<char>, i: int) -> (bool, bool)
    decreases i,
{
    if i <= 0 {
        (false, false)
    } else {
        string_state_behind(string_state(text, i - 1), text[i - 1])
    }
}

/// Whether no point of a text that stands outside a string has more than
/// `MAX_FRACTION_DIGITS` digits directly behind it.
pub open spec fn fractions_fit(text: Seq<char>) -> bool {
    forall|i: int|
        0 <= i < text.len() && #[trigger] text[i] == '.' && !string_state(text, i).0
            ==> digits_from(text, i + 1) <= MAX_FRACTION_DIGITS
}

/// Whether no point of a text that stands outside a string has more than
/// `MAX_FRACTION_DIGITS` digits directly behind it.
pub fn fractions_fit_in(text: &str) -> (r: bool)
    ensures
        r == fractions_fit(text@),
{
    let mut chars = text.chars();
    let mut in_string = false;
    let mut escaped = false;
    let mut in_run = false;
    let mut run: usize = 0;
    let ghost mut n: int = 0;
    let ghost mut point: int = 0;
    assert(text@.skip(0) =~= text@);
    loop
        invariant_except_break
            0 <= n <= text@.len(),
            chars.obeys_prophetic_iter_laws(),
            chars.remaining() == text@.skip(n),
            (in_string, escaped) == string_state(text@, n),
            forall|j: int|
                0 <= j < n && #[trigger] text@[j] == '.' && !string_state(text@, j).0 && !(in_run
                    && j == point) ==> digits_from(text@, j + 1) <= MAX_FRACTION_DIGITS,
            in_run ==> 0 <= point < n && text@[point] == '.' && !string_state(text@, point).0
                && run == n - point - 1 && run
                <= MAX_FRACTION_DIGITS && digits_from(text@, point + 1) == run + digits_from(
                text@,
                n,
            ),
        ensures
            fractions_fit(text@),
        decreases text@.len() - n,
    {
        match chars.next() {
            None => {
                break ;
            },
            Some(c) => {
                assert(text@.skip(n)[0] == c);
                let code = c as u32;
                let outside = !in_string;
                if !in_string {
                    in_string = c == '"';
                } else if escaped {
                    escaped = false;
                } else if c == '\\' {
                    escaped = true;
                } else if c == '"' {
                    in_string = false;
                }
                if c == '.' && outside {
                    in_run = true;
                    run = 0;
                    proof {
                        point = n;
                    }
                } else if in_run && 48 <= code && code <= 57 {
                    if run == MAX_FRACTION_DIGITS {
                        return false;
                    }
                    run = run + 1;
                } else {
                    in_run = false;
                }
                proof {
                    n = n + 1;
                }
            },
        }
    }
    true
}

/// Calls `json::parse`. Trusted: whether the text is accepted, and what
/// the document then holds, depends on the text alone. The parser counts
/// the digits behind the point of a number down in a 16-bit exponent,
/// without a test: a text with more of them than that exponent can count
/// is left out. A number stands outside the strings of the text, as the
/// parser reads them: from a quotation mark to the next one that no
/// backslash takes with it.
#[verifier::external_body]
fn parse_value(text: &str) -> (r: Result<json::JsonValue, json::Error>)
    requires
        fractions_fit(text@),
    ensures
        match r {
            Ok(value) => json_document(text@) == Some(parsed_content(value)),
            Err(_) => json_document(text@) is None,
        },
{
    json::parse(text)
}

/// Copies a value of the `json` crate into a `Json`, variant by variant:
/// both kinds of string become `Text`, a number is taken by
/// `Number::as_parts`, the members of an object come in the order of
/// `Object::iter`. Trusted: the copy holds what the value holds.
#[verifier::external_body]
fn from_parsed(value: &json::JsonValue) -> (r: Json)
    ensures
        r@ == parsed_content(*value),
{
    match value {
        json::JsonValue::Null => Json::Null,
        json::JsonValue::Short(s) => Json::Text(s.as_str().to_string()),
        json::JsonValue::String(s) => Json::Text(s.clone()),
        json::JsonValue::Number(n) => Json::Number(JsonNumber::from_parts(n.as_parts())),
        json::JsonValue::Boolean(b) => Json::Bool(*b),
        json::JsonValue::Object(o) => Json::Object(
            o.iter().map(|(k, v)| (k.to_string(), from_parsed(v))).collect(),
        ),
        json::JsonValue::Array(a) => Json::Array(a.iter().map(from_parsed).collect()),
    }
}

/// The failure that stands for a response that is no JSON document.
pub open spec fn not_a_document() -> SourceErrorView {
    SourceErrorView { kind: ErrorKind::Schema, message: "The response is not a JSON document"@ }
}

/// The failure that stands for a response with a number that has more
/// digits behind its point than can be read.
pub open spec fn fraction_too_long() -> SourceErrorView {
    SourceErrorView {
        kind: ErrorKind::Schema,
        message: "The response holds a number with too many digits behind the point"@,
    }
}

/// What a text holds as a JSON document: a failure where a point
/// outside the strings of the text has more than `MAX_FRACTION_DIGITS`
/// digits behind it, and where the text is no JSON document.
pub open spec fn read_document(text: Seq<char>) -> Result<JsonView, SourceErrorView> {
    if !fractions_fit(text) {
        Err(fraction_too_long())
    } else {
        match json_document(text) {
            Some(document) => Ok(document),
            None => Err(not_a_document()),
        }
    }
}

/// The contents of a document or the failure to read one.
pub open spec fn document_outcome(r: Result<Json, SourceError>) -> Result<
    JsonView,
    SourceErrorView,
> {
    match r {
        Ok(document) => Ok(document@),
        Err(e) => Err(e@),
    }
}

/// Reads a JSON document. Fails, with a `Schema` error, exactly where a
/// point of the text has too many digits behind it or the text is no
/// JSON document. See `read_document`.
pub fn parse(text: &str) -> (r: Result<Json, SourceError>)
    ensures
        document_outcome(r) == read_document(text@),
{
    if !fractions_fit_in(text) {
        return Err(
            SourceError::new(
                ErrorKind::Schema,
                "The response holds a number with too many digits behind the point".to_owned(),
            ),
        );
    }
    match parse_value(text) {
        Ok(value) => Ok(from_parsed(&value)),
        Err(_) => Err(
            SourceError::new(ErrorKind::Schema, "The response is not a JSON document".to_owned()),
        ),
    }
}

} // verus!
