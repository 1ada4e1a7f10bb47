//! JSON values: reading, looking into and writing them.

use crate::model::Model;
use crate::reals;
use crate::reals::plain_real;
use crate::text;
use crate::text::Relation;
use vstd::prelude::*;

verus! {

/// A JSON value. A number is kept in its written form; the members of an object stand in the
/// order of their keys.
#[derive(Debug, Eq)]
pub enum Json {
    Null,
    Bool(bool),
    Number(String),
    Text(String),
    Array(Vec<Json>),
    Object(Vec<(String, Json)>),
}

/// What a `Json` stands for.
#[verifier::ext_equal]
pub enum JsonView {
    Null,
    Bool(bool),
    Number(Seq<char>),
    Text(Seq<char>),
    Array(Seq<JsonView>),
    Object(Seq<(Seq<char>, JsonView)>),
}

/// What a JSON value stands for.
pub open spec fn json_view(json: Json) -> JsonView
    decreases json,
{
    match json {
        Json::Null => JsonView::Null,
        Json::Bool(value) => JsonView::Bool(value),
        Json::Number(text) => JsonView::Number(text@),
        Json::Text(text) => JsonView::Text(text@),
        Json::Array(items) => JsonView::Array(
            Seq::new(
                items@.len(),
                |i: int|
                    if 0 <= i < items@.len() {
                        json_view(items@[i])
                    } else {
                        JsonView::Null
                    },
            ),
        ),
        Json::Object(members) => JsonView::Object(
            Seq::new(
                members@.len(),
                |i: int|
                    if 0 <= i < members@.len() {
                        (members@[i].0@, json_view(members@[i].1))
                    } else {
                        (Seq::empty(), JsonView::Null)
                    },
            ),
        ),
    }
}

impl DeepView for Json {
    type V = JsonView;

    open spec fn deep_view(&self) -> JsonView {
        json_view(*self)
    }
}

impl Model for Json {
    fn copy_of(&self) -> (r: Self)
        decreases self,
    {
        match self {
            Json::Null => Json::Null,
            Json::Bool(value) => Json::Bool(*value),
            Json::Number(text) => Json::Number(text.copy_of()),
            Json::Text(text) => Json::Text(text.copy_of()),
            Json::Array(items) => {
                let mut out: Vec<Json> = Vec::new();
                let mut i: usize = 0;
                while i < items.len()
                    invariant
                        i <= items@.len(),
                        *self == Json::Array(*items),
                        out@.len() == i,
                        forall|j: int|
                            0 <= j < i ==> json_view(#[trigger] out@[j]) == json_view(items@[j]),
                    decreases items@.len() - i,
                {
                    assert(json_view(*self)->Array_0[i as int] == json_view(items@[i as int]));
                    assert(decreases_to!(self => items@[i as int]));
                    out.push(items[i].copy_of());
                    i += 1;
                }
                let r = Json::Array(out);
                assert(r.deep_view()->Array_0 =~= self.deep_view()->Array_0);
                r
            },
            Json::Object(members) => {
                let mut out: Vec<(String, Json)> = Vec::new();
                let mut i: usize = 0;
                while i < members.len()
                    invariant
                        i <= members@.len(),
                        *self == Json::Object(*members),
                        out@.len() == i,
                        forall|j: int|
                            0 <= j < i ==> (#[trigger] out@[j]).0@ == members@[j].0@ && json_view(
                                out@[j].1,
                            ) == json_view(members@[j].1),
                    decreases members@.len() - i,
                {
                    assert(json_view(*self)->Object_0[i as int].1 == json_view(members@[i as int].1));
                    assert(decreases_to!(self => members@[i as int].1));
                    out.push((members[i].0.copy_of(), members[i].1.copy_of()));
                    i += 1;
                }
                let r = Json::Object(out);
                assert(r.deep_view()->Object_0 =~= self.deep_view()->Object_0);
                r
            },
        }
    }

    fn same_as(&self, other: &Self) -> (r: bool)
        decreases self,
    {
        match (self, other) {
            (Json::Null, Json::Null) => true,
            (Json::Bool(a), Json::Bool(b)) => *a == *b,
            (Json::Number(a), Json::Number(b)) => a.same_as(b),
            (Json::Text(a), Json::Text(b)) => a.same_as(b),
            (Json::Array(a), Json::Array(b)) => {
                if a.len() != b.len() {
                    assert(self.deep_view()->Array_0.len() != other.deep_view()->Array_0.len());
                    return false;
                }
                let mut i: usize = 0;
                while i < a.len()
                    invariant
                        i <= a@.len() == b@.len(),
                        *self == Json::Array(*a),
                        *other == Json::Array(*b),
                        forall|j: int|
                            0 <= j < i ==> json_view(#[trigger] a@[j]) == json_view(b@[j]),
                    decreases a@.len() - i,
                {
                    assert(decreases_to!(self => a@[i as int]));
                    if !a[i].same_as(&b[i]) {
                        assert(self.deep_view()->Array_0[i as int] != other.deep_view()->Array_0[i as int]);
                        return false;
                    }
                    i += 1;
                }
                assert(self.deep_view()->Array_0 =~= other.deep_view()->Array_0);
                true
            },
            (Json::Object(a), Json::Object(b)) => {
                if a.len() != b.len() {
                    assert(self.deep_view()->Object_0.len() != other.deep_view()->Object_0.len());
                    return false;
                }
                let mut i: usize = 0;
                while i < a.len()
                    invariant
                        i <= a@.len() == b@.len(),
                        *self == Json::Object(*a),
                        *other == Json::Object(*b),
                        forall|j: int|
                            0 <= j < i ==> (#[trigger] a@[j]).0@ == b@[j].0@ && json_view(a@[j].1)
                                == json_view(b@[j].1),
                    decreases a@.len() - i,
                {
                    assert(decreases_to!(self => a@[i as int].1));
                    if !a[i].0.same_as(&b[i].0) || !a[i].1.same_as(&b[i].1) {
                        assert(self.deep_view()->Object_0[i as int] != other.deep_view()->Object_0[i as int]);
                        return false;
                    }
                    i += 1;
                }
                assert(self.deep_view()->Object_0 =~= other.deep_view()->Object_0);
                true
            },
            _ => false,
        }
    }
}

/// A JSON value with the plain zero for both zeros: what two values share that are equal.
pub open spec fn plain(json: JsonView) -> JsonView
    decreases json,
{
    match json {
        JsonView::Number(text) => JsonView::Number(reals::real_value(text)),
        JsonView::Array(items) => JsonView::Array(
            Seq::new(
                items.len(),
                |i: int|
                    if 0 <= i < items.len() {
                        plain(items[i])
                    } else {
                        JsonView::Null
                    },
            ),
        ),
        JsonView::Object(members) => JsonView::Object(
            Seq::new(
                members.len(),
                |i: int|
                    if 0 <= i < members.len() {
                        (members[i].0, plain(members[i].1))
                    } else {
                        (Seq::empty(), JsonView::Null)
                    },
            ),
        ),
        _ => json,
    }
}

impl Json {
    /// The value with the plain zero for both zeros.
    pub fn plain_of(&self) -> (r: Self)
        ensures
            r.deep_view() == plain(self.deep_view()),
        decreases self,
    {
        match self {
            Json::Number(text) => Json::Number(plain_real(text.as_str())),
            Json::Array(items) => {
                let mut out: Vec<Json> = Vec::new();
                let mut i: usize = 0;
                while i < items.len()
                    invariant
                        i <= items@.len(),
                        *self == Json::Array(*items),
                        out@.len() == i,
                        forall|j: int|
                            0 <= j < i ==> json_view(#[trigger] out@[j]) == plain(
                                json_view(items@[j]),
                            ),
                    decreases items@.len() - i,
                {
                    assert(json_view(*self)->Array_0[i as int] == json_view(items@[i as int]));
                    assert(decreases_to!(self => items@[i as int]));
                    out.push(items[i].plain_of());
                    i += 1;
                }
                let r = Json::Array(out);
                assert(r.deep_view()->Array_0 =~= plain(self.deep_view())->Array_0);
                r
            },
            Json::Object(members) => {
                let mut out: Vec<(String, Json)> = Vec::new();
                let mut i: usize = 0;
                while i < members.len()
                    invariant
                        i <= members@.len(),
                        *self == Json::Object(*members),
                        out@.len() == i,
                        forall|j: int|
                            0 <= j < i ==> (#[trigger] out@[j]).0@ == members@[j].0@ && json_view(
                                out@[j].1,
                            ) == plain(json_view(members@[j].1)),
                    decreases members@.len() - i,
                {
                    assert(json_view(*self)->Object_0[i as int].1 == json_view(members@[i as int].1));
                    assert(decreases_to!(self => members@[i as int].1));
                    out.push((members[i].0.copy_of(), members[i].1.plain_of()));
                    i += 1;
                }
                let r = Json::Object(out);
                assert(r.deep_view()->Object_0 =~= plain(self.deep_view())->Object_0);
                r
            },
            _ => self.copy_of(),
        }
    }
}

impl PartialEq for Json {
    fn eq(&self, other: &Self) -> (r: bool) {
        self.plain_of().same_as(&other.plain_of())
    }
}

impl vstd::std_specs::cmp::PartialEqSpecImpl for Json {
    open spec fn obeys_eq_spec() -> bool {
        true
    }

    open spec fn eq_spec(&self, other: &Self) -> bool {
        plain(self.deep_view()) == plain(other.deep_view())
    }
}

/// A JSON value of `serde_json`.
#[verifier::external_type_specification]
#[verifier::external_body]
pub struct ExJsonValue(serde_json::Value);

/// What a `serde_json` value holds, the members of its objects in the order of their keys.
pub uninterp spec fn value_json(value: serde_json::Value) -> JsonView;

/// Arrays and objects nest at most `depth` deep.
pub open spec fn nests_within(json: JsonView, depth: nat) -> bool
    decreases depth,
{
    match json {
        JsonView::Array(items) => depth > 0 && forall|i: int|
            0 <= i < items.len() ==> nests_within(#[trigger] items[i], (depth - 1) as nat),
        JsonView::Object(members) => depth > 0 && forall|i: int|
            0 <= i < members.len() ==> nests_within((#[trigger] members[i]).1, (depth - 1) as nat),
        _ => true,
    }
}

/// A number as JSON writes it: it begins with a digit or a minus, and ends with a digit.
pub open spec fn numeral(text: Seq<char>) -> bool {
    &&& text.len() > 0
    &&& text[0] == '-' || '0' <= text[0] <= '9'
    &&& '0' <= text.last() <= '9'
}

/// Every number in a JSON value is written as one.
pub open spec fn sound(json: JsonView) -> bool
    decreases json,
{
    match json {
        JsonView::Number(text) => numeral(text),
        JsonView::Array(items) => forall|i: int| 0 <= i < items.len() ==> sound(#[trigger] items[i]),
        JsonView::Object(members) => forall|i: int|
            0 <= i < members.len() ==> sound((#[trigger] members[i]).1),
        _ => true,
    }
}

/// What JSON text says, if it is valid.
pub uninterp spec fn json_parse(text: Seq<char>) -> Option<JsonView>;

/// What JSON bytes say, or how the parser words why they are not valid.
pub uninterp spec fn json_read_bytes(bytes: Seq<u8>) -> Result<JsonView, Seq<char>>;

/// What JSON bytes say, if they are valid.
pub open spec fn json_parse_bytes(bytes: Seq<u8>) -> Option<JsonView> {
    match json_read_bytes(bytes) {
        Ok(json) => Some(json),
        Err(_) => None,
    }
}

/// Why bytes are no JSON, if they are none.
pub open spec fn json_error_text(bytes: Seq<u8>) -> Option<Seq<char>> {
    match json_read_bytes(bytes) {
        Ok(_) => None,
        Err(error) => Some(error),
    }
}

/// A hexadecimal digit, in lower case.
pub open spec fn hex_digit(value: nat) -> char {
    if value < 10 {
        ('0' as nat + value) as char
    } else {
        ('a' as nat + value - 10) as char
    }
}

/// A character as it stands in a JSON string: quotes, backslashes and control characters escaped.
pub open spec fn json_char(c: char) -> Seq<char> {
    let code = c as nat;
    if c == '"' || c == '\\' {
        seq!['\\', c]
    } else if code == 8 {
        seq!['\\', 'b']
    } else if code == 9 {
        seq!['\\', 't']
    } else if code == 10 {
        seq!['\\', 'n']
    } else if code == 12 {
        seq!['\\', 'f']
    } else if code == 13 {
        seq!['\\', 'r']
    } else if code < 32 {
        seq!['\\', 'u', '0', '0', hex_digit(code / 16), hex_digit(code % 16)]
    } else {
        seq![c]
    }
}

/// The characters of a text as they stand in a JSON string.
pub open spec fn json_chars(text: Seq<char>) -> Seq<char>
    decreases text.len(),
{
    if text.len() == 0 {
        Seq::empty()
    } else {
        json_chars(text.drop_last()) + json_char(text.last())
    }
}

/// The JSON form of a text: in quotes, with its special characters escaped.
pub open spec fn json_quote(text: Seq<char>) -> Seq<char> {
    seq!['"'] + json_chars(text) + seq!['"']
}

/// Parses text with `serde_json::from_str`. What comes back depends on the text alone. The parser
/// refuses to nest arrays and objects more than 127 deep.
#[verifier::external_body]
fn parse_value(text: &str) -> (r: Option<serde_json::Value>)
    ensures
        match r {
            Some(value) => json_parse(text@) == Some(value_json(value)) && nests_within(
                value_json(value),
                127,
            ),
            None => json_parse(text@) is None,
        },
{
    serde_json::from_str::<serde_json::Value>(text).ok()
}

/// Parses bytes with `serde_json::from_slice`, and shows its error with `to_string`. What comes back
/// depends on the bytes alone. The parser refuses to nest arrays and objects more than 127 deep.
#[verifier::external_body]
fn parse_value_bytes(bytes: &[u8]) -> (r: Result<serde_json::Value, String>)
    ensures
        match r {
            Ok(value) => json_read_bytes(bytes@) == Ok::<JsonView, Seq<char>>(value_json(value))
                && nests_within(value_json(value), 127),
            Err(error) => json_read_bytes(bytes@) == Err::<JsonView, Seq<char>>(error@),
        },
{
    serde_json::from_slice::<serde_json::Value>(bytes).map_err(|error| error.to_string())
}

/// Quotes a text with `serde_json::to_string`, which does not fail on a text: quotes, backslashes
/// and the control characters are escaped, everything else stands as it is.
#[verifier::external_body]
pub(crate) fn quote(text: &str) -> (r: String)
    ensures
        r@ == json_quote(text@),
{
    serde_json::to_string(text).unwrap_or_default()
}

/// One level of a `serde_json` value.
enum JsonNode {
    Null,
    Bool(bool),
    Number(String),
    Text(String),
    Array(Vec<serde_json::Value>),
    Object(Vec<(String, serde_json::Value)>),
}

spec fn node_of(node: JsonNode, json: JsonView) -> bool {
    match (node, json) {
        (JsonNode::Null, JsonView::Null) => true,
        (JsonNode::Bool(a), JsonView::Bool(b)) => a == b,
        (JsonNode::Number(a), JsonView::Number(b)) => a@ == b && numeral(b),
        (JsonNode::Text(a), JsonView::Text(b)) => a@ == b,
        (JsonNode::Array(a), JsonView::Array(b)) => a@.len() == b.len() && forall|i: int|
            0 <= i < a@.len() ==> value_json(#[trigger] a@[i]) == b[i],
        (JsonNode::Object(a), JsonView::Object(b)) => a@.len() == b.len() && forall|i: int|
            0 <= i < a@.len() ==> (#[trigger] a@[i]).0@ == b[i].0 && value_json(a@[i].1) == b[i].1,
        _ => false,
    }
}

/// Takes one level of a `serde_json::Value` apart: the variant and what it holds, a number in its
/// written form, which begins with a digit or a minus and ends with a digit, the members of an object in the order in which the map gives them.
#[verifier::external_body]
fn node(value: serde_json::Value) -> (r: JsonNode)
    ensures
        node_of(r, value_json(value)),
{
    match value {
        serde_json::Value::Null => JsonNode::Null,
        serde_json::Value::Bool(value) => JsonNode::Bool(value),
        serde_json::Value::Number(number) => JsonNode::Number(number.to_string()),
        serde_json::Value::String(text) => JsonNode::Text(text),
        serde_json::Value::Array(items) => JsonNode::Array(items),
        serde_json::Value::Object(members) => JsonNode::Object(members.into_iter().collect()),
    }
}

fn convert(value: serde_json::Value, depth: usize) -> (r: Json)
    requires
        nests_within(value_json(value), depth as nat),
    ensures
        r.deep_view() == value_json(value),
        sound(value_json(value)),
    decreases depth,
{
    let ghost whole = value_json(value);
    match node(value) {
        JsonNode::Null => Json::Null,
        JsonNode::Bool(value) => Json::Bool(value),
        JsonNode::Number(text) => Json::Number(text),
        JsonNode::Text(text) => Json::Text(text),
        JsonNode::Array(items) => {
            let ghost source = items@;
            let mut out: Vec<Json> = Vec::new();
            for item in it: items
                invariant
                    it.seq() == source,
                    depth > 0,
                    whole is Array,
                    nests_within(whole, depth as nat),
                    source.len() == whole->Array_0.len(),
                    forall|i: int|
                        0 <= i < source.len() ==> value_json(#[trigger] source[i])
                            == whole->Array_0[i],
                    out@.len() == it.index(),
                    forall|j: int|
                        0 <= j < it.index() ==> json_view(#[trigger] out@[j]) == whole->Array_0[j],
                    forall|j: int| 0 <= j < it.index() ==> sound(#[trigger] whole->Array_0[j]),
            {
                assert(item == source[it.index()]);
                assert(nests_within(whole->Array_0[it.index()], (depth - 1) as nat));
                out.push(convert(item, depth - 1));
            }
            let r = Json::Array(out);
            assert(r.deep_view()->Array_0 =~= whole->Array_0);
            r
        },
        JsonNode::Object(members) => {
            let ghost source = members@;
            let mut out: Vec<(String, Json)> = Vec::new();
            for member in it: members
                invariant
                    it.seq() == source,
                    depth > 0,
                    whole is Object,
                    nests_within(whole, depth as nat),
                    source.len() == whole->Object_0.len(),
                    forall|i: int|
                        0 <= i < source.len() ==> (#[trigger] source[i]).0@ == whole->Object_0[i].0
                            && value_json(source[i].1) == whole->Object_0[i].1,
                    out@.len() == it.index(),
                    forall|j: int|
                        0 <= j < it.index() ==> (#[trigger] out@[j]).0@ == whole->Object_0[j].0
                            && json_view(out@[j].1) == whole->Object_0[j].1,
                    forall|j: int| 0 <= j < it.index() ==> sound((#[trigger] whole->Object_0[j]).1),
            {
                assert(member == source[it.index()]);
                assert(nests_within(whole->Object_0[it.index()].1, (depth - 1) as nat));
                let (key, value) = member;
                out.push((key, convert(value, depth - 1)));
            }
            let r = Json::Object(out);
            assert(r.deep_view()->Object_0 =~= whole->Object_0);
            r
        },
    }
}

/// Reads JSON text.
pub fn parse_json(text: &str) -> (r: Option<Json>)
    ensures
        r.deep_view() == json_parse(text@),
        r is Some ==> sound(r->0.deep_view()),
{
    match parse_value(text) {
        Some(value) => Some(convert(value, 127)),
        None => None,
    }
}

/// Reads JSON bytes.
pub fn parse_json_bytes(bytes: &[u8]) -> (r: Option<Json>)
    ensures
        r.deep_view() == json_parse_bytes(bytes@),
        r is Some ==> sound(r->0.deep_view()),
{
    match parse_value_bytes(bytes) {
        Ok(value) => Some(convert(value, 127)),
        Err(_) => None,
    }
}

/// Reads JSON bytes, or says why they are not valid.
pub fn read_json_bytes(bytes: &[u8]) -> (r: Result<Json, String>)
    ensures
        crate::model::outcome(r) == json_read_bytes(bytes@),
        r is Ok ==> sound(r->Ok_0.deep_view()),
{
    match parse_value_bytes(bytes) {
        Ok(value) => Ok(convert(value, 127)),
        Err(error) => Err(error),
    }
}

/// Why bytes are no JSON, if they are none.
pub fn json_error(bytes: &[u8]) -> (r: Option<String>)
    ensures
        r.deep_view() == json_error_text(bytes@),
        r is None <==> json_parse_bytes(bytes@) is Some,
{
    match parse_value_bytes(bytes) {
        Ok(_) => None,
        Err(error) => Some(error),
    }
}

/// A JSON value in its written form, without white space.
pub open spec fn rendered(json: JsonView) -> Seq<char>
    decreases json,
{
    match json {
        JsonView::Null => "null"@,
        JsonView::Bool(value) => if value {
            "true"@
        } else {
            "false"@
        },
        JsonView::Number(text) => text,
        JsonView::Text(text) => json_quote(text),
        JsonView::Array(items) => "["@ + rendered_items(items) + "]"@,
        JsonView::Object(members) => "{"@ + rendered_members(members) + "}"@,
    }
}

/// The items of an array in their written form, with commas between them.
pub open spec fn rendered_items(items: Seq<JsonView>) -> Seq<char>
    decreases items,
{
    if items.len() == 0 {
        Seq::empty()
    } else if items.len() == 1 {
        rendered(items[0])
    } else {
        rendered_items(items.subrange(0, items.len() - 1)) + ","@ + rendered(items[items.len() - 1])
    }
}

/// A member of an object in its written form.
pub open spec fn rendered_member(key: Seq<char>, value: Seq<char>) -> Seq<char> {
    json_quote(key) + ":"@ + value
}

/// The members of an object in their written form, with commas between them.
pub open spec fn rendered_members(members: Seq<(Seq<char>, JsonView)>) -> Seq<char>
    decreases members,
{
    if members.len() == 0 {
        Seq::empty()
    } else if members.len() == 1 {
        rendered_member(members[0].0, rendered(members[0].1))
    } else {
        rendered_members(members.subrange(0, members.len() - 1)) + ","@ + rendered_member(
            members[members.len() - 1].0,
            rendered(members[members.len() - 1].1),
        )
    }
}

/// Writes a JSON value, without white space.
pub fn render(json: &Json) -> (r: String)
    ensures
        r@ == rendered(json.deep_view()),
    decreases json,
{
    match json {
        Json::Null => "null".to_owned(),
        Json::Bool(value) => if *value {
            "true".to_owned()
        } else {
            "false".to_owned()
        },
        Json::Number(text) => text.copy_of(),
        Json::Text(text) => quote(text.as_str()),
        Json::Array(items) => {
            let ghost views = json.deep_view()->Array_0;
            let mut inner = String::new();
            let mut i: usize = 0;
            assert(views.subrange(0, 0) =~= Seq::empty());
            while i < items.len()
                invariant
                    i <= items@.len(),
                    *json == Json::Array(*items),
                    views == json.deep_view()->Array_0,
                    inner@ == rendered_items(views.subrange(0, i as int)),
                decreases items@.len() - i,
            {
                assert(decreases_to!(json => items@[i as int]));
                let item = render(&items[i]);
                let ghost prefix = views.subrange(0, i + 1);
                assert(prefix.subrange(0, prefix.len() - 1) =~= views.subrange(0, i as int));
                assert(prefix[i as int] == views[i as int]);
                if i > 0 {
                    inner.append(",");
                }
                inner.append(item.as_str());
                assert(inner@ =~= rendered_items(prefix));
                i += 1;
            }
            assert(views.subrange(0, i as int) =~= views);
            crate::text::join3("[", inner.as_str(), "]")
        },
        Json::Object(members) => {
            let ghost views = json.deep_view()->Object_0;
            let mut inner = String::new();
            let mut i: usize = 0;
            assert(views.subrange(0, 0) =~= Seq::empty());
            while i < members.len()
                invariant
                    i <= members@.len(),
                    *json == Json::Object(*members),
                    views == json.deep_view()->Object_0,
                    inner@ == rendered_members(views.subrange(0, i as int)),
                decreases members@.len() - i,
            {
                assert(decreases_to!(json => members@[i as int].1));
                let value = render(&members[i].1);
                let key = quote(members[i].0.as_str());
                let ghost prefix = views.subrange(0, i + 1);
                assert(prefix.subrange(0, prefix.len() - 1) =~= views.subrange(0, i as int));
                assert(prefix[i as int] == views[i as int]);
                if i > 0 {
                    inner.append(",");
                }
                let member = crate::text::join3(key.as_str(), ":", value.as_str());
                inner.append(member.as_str());
                assert(inner@ =~= rendered_members(prefix));
                i += 1;
            }
            assert(views.subrange(0, i as int) =~= views);
            crate::text::join3("{", inner.as_str(), "}")
        },
    }
}

/// The value of a key among the members of an object.
pub open spec fn member(members: Seq<(Seq<char>, JsonView)>, key: Seq<char>) -> Option<JsonView>
    decreases members.len(),
{
    if members.len() == 0 {
        None
    } else if members[0].0 == key {
        Some(members[0].1)
    } else {
        member(members.drop_first(), key)
    }
}

/// The value of a key of a JSON value; there is none unless the value is an object.
pub open spec fn field(json: JsonView, key: Seq<char>) -> Option<JsonView> {
    match json {
        JsonView::Object(members) => member(members, key),
        _ => None,
    }
}

impl Json {
    /// The value of a key; there is none unless the value is an object.
    pub fn get(&self, key: &str) -> (r: Option<&Json>)
        ensures
            match r {
                Some(value) => field(self.deep_view(), key@) == Some(value.deep_view()),
                None => field(self.deep_view(), key@) is None,
            },
    {
        match self {
            Json::Object(members) => {
                let ghost views = self.deep_view()->Object_0;
                let mut i: usize = 0;
                assert(views.skip(0) =~= views);
                while i < members.len()
                    invariant
                        i <= members@.len(),
                        *self == Json::Object(*members),
                        views == self.deep_view()->Object_0,
                        member(views.skip(i as int), key@) == member(views, key@),
                    decreases members@.len() - i,
                {
                    assert(views.skip(i as int)[0] == views[i as int]);
                    assert(views.skip(i as int).drop_first() =~= views.skip(i + 1));
                    if crate::text::same(members[i].0.as_str(), key) {
                        return Some(&members[i].1);
                    }
                    i += 1;
                }
                None
            },
            _ => None,
        }
    }
}

/// An object without members.
pub open spec fn empty_object() -> JsonView {
    JsonView::Object(Seq::empty())
}

/// An object with one more member at its end.
pub open spec fn with(json: JsonView, key: Seq<char>, value: JsonView) -> JsonView {
    JsonView::Object(json->Object_0.push((key, value)))
}

/// A text that may be absent.
pub open spec fn optional_text(value: Option<Seq<char>>) -> JsonView {
    match value {
        Some(text) => JsonView::Text(text),
        None => JsonView::Null,
    }
}

/// A list of texts.
pub open spec fn text_list(texts: Seq<Seq<char>>) -> JsonView {
    JsonView::Array(texts.map_values(|text: Seq<char>| JsonView::Text(text)))
}

impl Json {
    /// An object without members.
    pub fn object() -> (r: Json)
        ensures
            r.deep_view() == empty_object(),
    {
        let r = Json::Object(Vec::new());
        assert(r.deep_view()->Object_0 =~= Seq::empty());
        r
    }

    /// An object with one more member at its end.
    pub fn with(self, key: &str, value: Json) -> (r: Json)
        requires
            self.deep_view() is Object,
        ensures
            r.deep_view() == with(self.deep_view(), key@, value.deep_view()),
    {
        let ghost before = self.deep_view()->Object_0;
        let ghost added = value.deep_view();
        match self {
            Json::Object(members) => {
                let mut members = members;
                members.push((key.to_owned(), value));
                let r = Json::Object(members);
                assert(r.deep_view()->Object_0 =~= before.push((key@, added)));
                r
            },
            other => other,
        }
    }

    /// A text.
    pub fn text(value: &str) -> (r: Json)
        ensures
            r.deep_view() == JsonView::Text(value@),
    {
        Json::Text(value.to_owned())
    }

    /// A text that may be absent.
    pub fn optional_text(value: &Option<String>) -> (r: Json)
        ensures
            r.deep_view() == optional_text(value.deep_view()),
    {
        match value {
            Some(text) => Json::Text(text.copy_of()),
            None => Json::Null,
        }
    }

    /// A number.
    pub fn number(value: u64) -> (r: Json)
        ensures
            r.deep_view() == JsonView::Number(crate::text::decimal_text(value as nat)),
    {
        Json::Number(crate::text::decimal(value))
    }

    /// A signed number.
    pub fn signed_number(value: i64) -> (r: Json)
        ensures
            r.deep_view() == JsonView::Number(crate::text::signed_text(value as int)),
    {
        Json::Number(crate::text::signed_decimal(value))
    }

    /// A list of texts.
    pub fn text_list(texts: &Vec<String>) -> (r: Json)
        ensures
            r.deep_view() == text_list(texts.deep_view()),
    {
        let ghost view = texts.deep_view();
        let mut items: Vec<Json> = Vec::new();
        let mut i: usize = 0;
        while i < texts.len()
            invariant
                i <= texts@.len(),
                view == texts.deep_view(),
                items@.len() == i,
                forall|j: int|
                    0 <= j < i ==> json_view(#[trigger] items@[j]) == JsonView::Text(view[j]),
            decreases texts@.len() - i,
        {
            assert(view[i as int] == texts@[i as int]@);
            items.push(Json::Text(texts[i].copy_of()));
            i += 1;
        }
        let r = Json::Array(items);
        assert(r.deep_view()->Array_0 =~= text_list(view)->Array_0);
        r
    }
}

/// How many of the first members have a key before the given one.
pub open spec fn place(members: Seq<(Seq<char>, JsonView)>, key: Seq<char>) -> nat
    decreases members.len(),
{
    if members.len() == 0 || !text::before(members[0].0, key) {
        0
    } else {
        1 + place(members.drop_first(), key)
    }
}

/// The members with a value for the key: in place of the value that it had, or as a new member
/// before the first one whose key does not come earlier.
pub open spec fn put(
    members: Seq<(Seq<char>, JsonView)>,
    key: Seq<char>,
    value: JsonView,
) -> Seq<(Seq<char>, JsonView)> {
    let at = place(members, key) as int;
    if at < members.len() && members[at].0 == key {
        members.update(at, (key, value))
    } else {
        members.insert(at, (key, value))
    }
}

/// The members whose key is another one.
pub open spec fn dropped(members: Seq<(Seq<char>, JsonView)>, key: Seq<char>) -> Seq<
    (Seq<char>, JsonView),
>
    decreases members.len(),
{
    if members.len() == 0 {
        Seq::empty()
    } else {
        let rest = dropped(members.drop_last(), key);
        if members.last().0 == key {
            rest
        } else {
            rest.push(members.last())
        }
    }
}

proof fn lemma_place(members: Seq<(Seq<char>, JsonView)>, key: Seq<char>)
    ensures
        place(members, key) <= members.len(),
        forall|i: int|
            0 <= i < place(members, key) ==> text::before((#[trigger] members[i]).0, key),
        place(members, key) < members.len() ==> !text::before(
            members[place(members, key) as int].0,
            key,
        ),
    decreases members.len(),
{
    if members.len() > 0 && text::before(members[0].0, key) {
        let rest = members.drop_first();
        lemma_place(rest, key);
        assert forall|i: int| 0 <= i < place(members, key) implies text::before(
            (#[trigger] members[i]).0,
            key,
        ) by {
            if i > 0 {
                assert(members[i] == rest[i - 1]);
            }
        }
        assert(place(members, key) == 1 + place(rest, key));
        if place(rest, key) < rest.len() {
            assert(members[place(members, key) as int] == rest[place(rest, key) as int]);
        }
    }
}

proof fn lemma_place_is(members: Seq<(Seq<char>, JsonView)>, key: Seq<char>, at: int)
    requires
        0 <= at <= members.len(),
        forall|i: int| 0 <= i < at ==> text::before((#[trigger] members[i]).0, key),
        at < members.len() ==> !text::before(members[at].0, key),
    ensures
        place(members, key) == at,
    decreases members.len(),
{
    if at > 0 {
        let rest = members.drop_first();
        assert(text::before(members[0].0, key));
        assert forall|i: int| 0 <= i < at - 1 implies text::before((#[trigger] rest[i]).0, key) by {
            assert(rest[i] == members[i + 1]);
        }
        if at < members.len() {
            assert(rest[at - 1] == members[at]);
        }
        lemma_place_is(rest, key, at - 1);
    }
}

proof fn lemma_member_concat(
    a: Seq<(Seq<char>, JsonView)>,
    b: Seq<(Seq<char>, JsonView)>,
    key: Seq<char>,
)
    ensures
        member(a + b, key) == (match member(a, key) {
            Some(value) => Some(value),
            None => member(b, key),
        }),
    decreases a.len(),
{
    if a.len() == 0 {
        assert(a + b =~= b);
    } else {
        assert((a + b)[0] == a[0]);
        assert((a + b).drop_first() =~= a.drop_first() + b);
        lemma_member_concat(a.drop_first(), b, key);
    }
}

proof fn lemma_member_single(entry: (Seq<char>, JsonView), key: Seq<char>)
    ensures
        member(seq![entry], key) == (if entry.0 == key {
            Some(entry.1)
        } else {
            None
        }),
{
    let one = seq![entry];
    assert(one.drop_first() =~= Seq::empty());
    assert(member(one.drop_first(), key) is None);
}

proof fn lemma_member_absent(members: Seq<(Seq<char>, JsonView)>, key: Seq<char>)
    requires
        forall|i: int| 0 <= i < members.len() ==> (#[trigger] members[i]).0 != key,
    ensures
        member(members, key) is None,
    decreases members.len(),
{
    if members.len() > 0 {
        let rest = members.drop_first();
        assert forall|i: int| 0 <= i < rest.len() implies (#[trigger] rest[i]).0 != key by {
            assert(rest[i] == members[i + 1]);
        }
        assert(members[0].0 != key);
        lemma_member_absent(rest, key);
    }
}

/// A key that was put reads as what was put, and every other key as before.
pub proof fn law_put_then_read(
    members: Seq<(Seq<char>, JsonView)>,
    key: Seq<char>,
    value: JsonView,
    other: Seq<char>,
)
    ensures
        member(put(members, key, value), key) == Some(value),
        other != key ==> member(put(members, key, value), other) == member(members, other),
{
    lemma_place(members, key);
    let at = place(members, key) as int;
    let a = members.take(at);
    let one = seq![(key, value)];
    assert forall|i: int| 0 <= i < a.len() implies (#[trigger] a[i]).0 != key by {
        assert(text::before(members[i].0, key));
        text::lemma_relation(members[i].0, key);
    }
    lemma_member_absent(a, key);
    lemma_member_single((key, value), key);
    lemma_member_single((key, value), other);
    if at < members.len() && members[at].0 == key {
        let b = members.skip(at + 1);
        assert(put(members, key, value) =~= a + (one + b));
        assert(members =~= a + (seq![members[at]] + b));
        lemma_member_concat(a, one + b, key);
        lemma_member_concat(one, b, key);
        lemma_member_concat(a, one + b, other);
        lemma_member_concat(one, b, other);
        lemma_member_concat(a, seq![members[at]] + b, other);
        lemma_member_concat(seq![members[at]], b, other);
        lemma_member_single(members[at], other);
    } else {
        let b = members.skip(at);
        assert(put(members, key, value) =~= a + (one + b));
        assert(members =~= a + b);
        lemma_member_concat(a, one + b, key);
        lemma_member_concat(one, b, key);
        lemma_member_concat(a, one + b, other);
        lemma_member_concat(one, b, other);
        lemma_member_concat(a, b, other);
    }
}

/// A key that was dropped reads as absent, and every other key as before.
pub proof fn law_drop_then_read(
    members: Seq<(Seq<char>, JsonView)>,
    key: Seq<char>,
    other: Seq<char>,
)
    ensures
        member(dropped(members, key), key) is None,
        other != key ==> member(dropped(members, key), other) == member(members, other),
    decreases members.len(),
{
    if members.len() > 0 {
        let front = members.drop_last();
        law_drop_then_read(front, key, other);
        let last = members.last();
        assert(members =~= front + seq![last]);
        lemma_member_concat(front, seq![last], other);
        lemma_member_single(last, other);
        lemma_member_single(last, key);
        if last.0 != key {
            assert(dropped(members, key) =~= dropped(front, key) + seq![last]);
            lemma_member_concat(dropped(front, key), seq![last], other);
            lemma_member_concat(dropped(front, key), seq![last], key);
        }
    }
}

impl Json {
    /// The object with a value for the key.
    pub fn put(self, key: &str, value: Json) -> (r: Json)
        requires
            self.deep_view() is Object,
        ensures
            r.deep_view() == JsonView::Object(
                put(self.deep_view()->Object_0, key@, value.deep_view()),
            ),
    {
        let ghost views = self.deep_view()->Object_0;
        let ghost added = value.deep_view();
        match self {
            Json::Object(members) => {
                let mut members = members;
                let ghost source = members@;
                let mut at: usize = 0;
                while at < members.len() && crate::text::compare(members[at].0.as_str(), key)
                    == Relation::Less
                    invariant
                        at <= members@.len(),
                        members@ == source,
                        views.len() == source.len(),
                        forall|i: int|
                            0 <= i < source.len() ==> #[trigger] views[i] == (
                                source[i].0@,
                                json_view(source[i].1),
                            ),
                        forall|i: int| 0 <= i < at ==> text::before((#[trigger] views[i]).0, key@),
                    decreases members@.len() - at,
                {
                    at += 1;
                }
                proof {
                    if at < source.len() {
                        assert(views[at as int].0 == source[at as int].0@);
                    }
                    lemma_place_is(views, key@, at as int);
                }
                if at < members.len() && crate::text::same(members[at].0.as_str(), key) {
                    members.set(at, (key.to_owned(), value));
                } else {
                    members.insert(at, (key.to_owned(), value));
                }
                let r = Json::Object(members);
                assert(r.deep_view()->Object_0 =~= put(views, key@, added));
                r
            },
            other => other,
        }
    }

    /// The object without the key.
    pub fn without_key(&self, key: &str) -> (r: Json)
        requires
            self.deep_view() is Object,
        ensures
            r.deep_view() == JsonView::Object(dropped(self.deep_view()->Object_0, key@)),
    {
        let ghost views = self.deep_view()->Object_0;
        match self {
            Json::Object(members) => {
                let mut out: Vec<(String, Json)> = Vec::new();
                let mut i: usize = 0;
                let ghost mut kept: Seq<(Seq<char>, JsonView)> = Seq::empty();
                while i < members.len()
                    invariant
                        i <= members@.len(),
                        views.len() == members@.len(),
                        forall|j: int|
                            0 <= j < members@.len() ==> #[trigger] views[j] == (
                                members@[j].0@,
                                json_view(members@[j].1),
                            ),
                        kept == dropped(views.take(i as int), key@),
                        out@.len() == kept.len(),
                        forall|j: int|
                            0 <= j < kept.len() ==> #[trigger] kept[j] == (
                                out@[j].0@,
                                json_view(out@[j].1),
                            ),
                    decreases members@.len() - i,
                {
                    assert(views.take(i + 1).drop_last() =~= views.take(i as int));
                    assert(views.take(i + 1).last() == views[i as int]);
                    if !crate::text::same(members[i].0.as_str(), key) {
                        out.push((members[i].0.copy_of(), members[i].1.copy_of()));
                        proof {
                            kept = kept.push(views[i as int]);
                        }
                    }
                    i += 1;
                }
                assert(views.take(i as int) =~= views);
                let r = Json::Object(out);
                assert(r.deep_view()->Object_0 =~= dropped(views, key@));
                r
            },
            _ => Json::Null,
        }
    }
}

/// A text in JSON is in quotes, and nothing in it is a control character.
pub proof fn law_quoted_text_has_no_control_characters(text: Seq<char>)
    ensures
        forall|i: int| 0 <= i < json_chars(text).len() ==> #[trigger] json_chars(text)[i] as nat >= 32,
        json_chars(text).len() >= text.len(),
        json_quote(text).len() == json_chars(text).len() + 2,
        json_quote(text)[0] == '"',
        json_quote(text).last() == '"',
        (forall|i: int|
            0 <= i < text.len() ==> #[trigger] text[i] as nat >= 32 && text[i] != '"' && text[i]
                != '\\') ==> json_chars(text) == text,
    decreases text.len(),
{
    if text.len() > 0 {
        let front = text.drop_last();
        law_quoted_text_has_no_control_characters(front);
        let before = json_chars(front);
        let last = json_char(text.last());
        let code = text.last() as nat;
        assert forall|i: int| 0 <= i < last.len() implies #[trigger] last[i] as nat >= 32 by {
            if code < 32 {
                assert(hex_digit(code / 16) as nat >= 32);
                assert(hex_digit(code % 16) as nat >= 32);
            }
        }
        assert forall|i: int| 0 <= i < json_chars(text).len() implies #[trigger] json_chars(
            text,
        )[i] as nat >= 32 by {
            if i < before.len() {
                assert(json_chars(text)[i] == before[i]);
            } else {
                assert(json_chars(text)[i] == last[i - before.len()]);
            }
        }
        if forall|i: int|
            0 <= i < text.len() ==> #[trigger] text[i] as nat >= 32 && text[i] != '"' && text[i]
                != '\\' {
            assert forall|i: int| 0 <= i < front.len() implies #[trigger] front[i] as nat >= 32
                && front[i] != '"' && front[i] != '\\' by {
                assert(text[i] == front[i]);
            }
            assert(text[text.len() - 1] == text.last());
            assert(json_chars(text) =~= text);
        }
    } else {
        assert(json_chars(text) =~= text);
    }
}

/// Every special character has an escape of its own, which tells it apart from every other
/// character.
pub proof fn law_escapes_tell_characters_apart(a: char, b: char)
    ensures
        json_char(a) == json_char(b) ==> a == b,
        a == '"' || a == '\\' ==> json_char(a) == seq!['\\', a],
        a as nat >= 32 && a != '"' && a != '\\' ==> json_char(a) == seq![a],
{
    let x = json_char(a);
    let y = json_char(b);
    if x == y {
        assert(x[0] == y[0]);
        if x.len() >= 2 {
            assert(x[1] == y[1]);
        }
        if x.len() == 6 {
            assert(x[4] == y[4] && x[5] == y[5]);
            let m = a as nat;
            let n = b as nat;
            assert(m < 32 && n < 32);
            assert(hex_digit(m / 16) == hex_digit(n / 16));
            assert(hex_digit(m % 16) == hex_digit(n % 16));
            assert(m / 16 == n / 16);
            assert(m % 16 == n % 16);
        }
    }
}

} // verus!
