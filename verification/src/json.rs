//! JSON documents.

use serde_json::Value;
use vstd::prelude::*;

use crate::text;

verus! {

/// A JSON value.
#[derive(Debug)]
pub enum Json {
    Null,
    Bool(bool),
    /// A number; nothing is kept of one that is not a 64-bit natural number.
    Number(Option<u64>),
    Text(String),
    List(Vec<Json>),
    /// The members of an object with their names.
    Object(Vec<(String, Json)>),
}

/// A [`Json`] over sequences.
pub enum JsonView {
    Null,
    Bool(bool),
    Number(Option<u64>),
    Text(Seq<char>),
    List(Seq<JsonView>),
    Object(Seq<(Seq<char>, JsonView)>),
}

/// The view of a value.
pub open spec fn json_view(v: Json) -> JsonView
    decreases v,
{
    match v {
        Json::Null => JsonView::Null,
        Json::Bool(b) => JsonView::Bool(b),
        Json::Number(n) => JsonView::Number(n),
        Json::Text(t) => JsonView::Text(t@),
        Json::List(items) => JsonView::List(
            Seq::new(
                items@.len(),
                |i: int|
                    if 0 <= i < items@.len() {
                        json_view(items@[i])
                    } else {
                        JsonView::Null
                    },
            ),
        ),
        Json::Object(members) => JsonView::Object(
            Seq::new(
                members@.len(),
                |i: int|
                    if 0 <= i < members@.len() {
                        (members@[i].0@, json_view(members@[i].1))
                    } else {
                        (seq![], JsonView::Null)
                    },
            ),
        ),
    }
}

impl View for Json {
    type V = JsonView;

    open spec fn view(&self) -> JsonView {
        json_view(*self)
    }
}

/// The first member with a name.
pub open spec fn lookup(members: Seq<(Seq<char>, JsonView)>, name: Seq<char>) -> Option<JsonView>
    decreases members.len(),
{
    if members.len() == 0 {
        None
    } else if members[0].0 == name {
        Some(members[0].1)
    } else {
        lookup(members.skip(1), name)
    }
}

/// The member of a value with a name, if the value is an object and has one.
pub open spec fn member(v: JsonView, name: Seq<char>) -> Option<JsonView> {
    match v {
        JsonView::Object(members) => lookup(members, name),
        _ => None,
    }
}

/// The text of a member, if it is there and is a text.
pub open spec fn text_member(v: JsonView, name: Seq<char>) -> Option<Seq<char>> {
    match member(v, name) {
        Some(JsonView::Text(t)) => Some(t),
        _ => None,
    }
}

/// The natural number of a member, if it is there and is one.
pub open spec fn number_member(v: JsonView, name: Seq<char>) -> Option<u64> {
    match member(v, name) {
        Some(JsonView::Number(n)) => n,
        _ => None,
    }
}

/// The truth value of a member, if it is there and is one.
pub open spec fn bool_member(v: JsonView, name: Seq<char>) -> Option<bool> {
    match member(v, name) {
        Some(JsonView::Bool(b)) => Some(b),
        _ => None,
    }
}

impl Json {
    /// The member with a name, if the value is an object and has one.
    pub fn get(&self, name: &str) -> (r: Option<&Json>)
        ensures
            member(self@, name@) == (match r {
                Some(v) => Some(v@),
                None => None,
            }),
    {
        match self {
            Json::Object(members) => find(members, name),
            _ => None,
        }
    }

    /// The text of the member with a name, if it is there and is a text.
    pub fn get_text(&self, name: &str) -> (r: Option<String>)
        ensures
            text::opt_text(r) == text_member(self@, name@),
    {
        match self.get(name) {
            Some(Json::Text(t)) => Some(t.clone()),
            _ => None,
        }
    }

    /// The natural number of the member with a name, if it is there and is one.
    pub fn get_number(&self, name: &str) -> (r: Option<u64>)
        ensures
            r == number_member(self@, name@),
    {
        match self.get(name) {
            Some(Json::Number(n)) => *n,
            _ => None,
        }
    }

    /// The truth value of the member with a name, if it is there and is one.
    pub fn get_bool(&self, name: &str) -> (r: Option<bool>)
        ensures
            r == bool_member(self@, name@),
    {
        match self.get(name) {
            Some(Json::Bool(b)) => Some(*b),
            _ => None,
        }
    }
}

/// The views of the members of an object.
pub open spec fn members_view(members: Seq<(String, Json)>) -> Seq<(Seq<char>, JsonView)> {
    members.map_values(|m: (String, Json)| (m.0@, m.1@))
}

/// An object is seen as the views of its members.
pub proof fn lemma_object_view(members: Vec<(String, Json)>)
    ensures
        Json::Object(members)@ == JsonView::Object(members_view(members@)),
{
    assert(Json::Object(members)@->Object_0 =~= members_view(members@));
}

/// The views of the items of a list.
pub open spec fn items_view(items: Seq<Json>) -> Seq<JsonView> {
    items.map_values(|v: Json| v@)
}

/// A list is seen as the views of its items.
pub proof fn lemma_list_view(items: Vec<Json>)
    ensures
        Json::List(items)@ == JsonView::List(items_view(items@)),
{
    assert(Json::List(items)@->List_0 =~= items_view(items@));
}

fn find<'a>(members: &'a Vec<(String, Json)>, name: &str) -> (r: Option<&'a Json>)
    ensures
        member(Json::Object(*members)@, name@) == (match r {
            Some(v) => Some(v@),
            None => None,
        }),
{
    let ghost all = members_view(members@);
    proof {
        lemma_object_view(*members);
        assert(all.skip(0) =~= all);
    }
    let mut i: usize = 0;
    while i < members.len()
        invariant
            i <= members@.len(),
            all == members_view(members@),
            Json::Object(*members)@ == JsonView::Object(all),
            lookup(all, name@) == lookup(all.skip(i as int), name@),
        decreases members@.len() - i,
    {
        assert(all.skip(i as int)[0] == (members@[i as int].0@, members@[i as int].1@));
        if text::str_eq(&members[i].0, name) {
            return Some(&members[i].1);
        }
        assert(all.skip(i as int).skip(1) =~= all.skip(i + 1));
        i = i + 1;
    }
    None
}

// --- Reading and writing ----------------------------------------------------

/// What `serde_json::from_slice` makes of a document: its value, or the text of
/// the error.
pub uninterp spec fn json_parse(bytes: Seq<u8>) -> Result<JsonView, Seq<char>>;

/// How `serde_json::to_string_pretty` writes a value.
pub uninterp spec fn json_pretty(v: JsonView) -> Seq<char>;

/// The view of what a document is read as.
pub open spec fn parsed_view(r: Result<Json, String>) -> Result<JsonView, Seq<char>> {
    match r {
        Ok(v) => Ok(v@),
        Err(e) => Err(e@),
    }
}

/// Whether a text stands for itself between quotes: it has only printable
/// characters of ASCII, and neither quotes nor backslashes.
pub open spec fn plain(s: Seq<char>) -> bool {
    forall|i: int| 0 <= i < s.len() ==> {
        let c = #[trigger] s[i];
        ' ' <= c <= '~' && c != '"' && c != '\\'
    }
}

/// The document of an object with one member, a text, both of plain characters.
pub open spec fn one_member(name: Seq<char>, value: Seq<char>) -> Seq<char> {
    "{\""@ + name + "\":\""@ + value + "\"}"@
}

/// Whether `r` is the object with one member of plain characters, if the document
/// is one.
pub open spec fn read_plainly(bytes: Seq<u8>, r: Result<JsonView, Seq<char>>) -> bool {
    forall|name: Seq<char>, value: Seq<char>|
        plain(name) && plain(value) && bytes == text::utf8(#[trigger] one_member(name, value))
            ==> r is Ok && r->Ok_0 == JsonView::Object(seq![(name, JsonView::Text(value))])
}

/// Whether the document `t` is read as this value.
pub open spec fn read_back(t: Seq<char>, v: JsonView) -> bool {
    json_parse(text::utf8(t)) == Ok::<JsonView, Seq<char>>(v)
}

/// Whether the names of members are in order, and none occurs twice.
pub open spec fn ordered(members: Seq<(Seq<char>, JsonView)>) -> bool {
    forall|i: int, j: int|
        0 <= i < j < members.len() ==> text::precedes(
            (#[trigger] members[i]).0,
            (#[trigger] members[j]).0,
        )
}

/// Whether a value is nested no deeper than `n`.
pub open spec fn nested(v: JsonView, n: nat) -> bool
    decreases n,
{
    match v {
        JsonView::List(items) => n > 0 && forall|i: int|
            0 <= i < items.len() ==> nested(#[trigger] items[i], (n - 1) as nat),
        JsonView::Object(members) => n > 0 && forall|i: int|
            0 <= i < members.len() ==> nested((#[trigger] members[i]).1, (n - 1) as nat),
        _ => true,
    }
}

/// Whether a value is one that a document can hold as it is: its objects are in
/// order, its numbers are known, and it is nested no deeper than `n`.
pub open spec fn canonical(v: JsonView, n: nat) -> bool
    decreases n,
{
    match v {
        JsonView::Number(number) => number is Some,
        JsonView::List(items) => n > 0 && forall|i: int|
            0 <= i < items.len() ==> canonical(#[trigger] items[i], (n - 1) as nat),
        JsonView::Object(members) => n > 0 && ordered(members) && forall|i: int|
            0 <= i < members.len() ==> canonical((#[trigger] members[i]).1, (n - 1) as nat),
        _ => true,
    }
}

/// How deep a value may be nested to be written.
pub const MAX_DEPTH: usize = 100;

/// How deep a document may be nested to be read.
pub const READ_DEPTH: usize = 128;

/// A value of `serde_json`.
#[verifier::external_type_specification]
#[verifier::external_body]
pub struct ExValue(serde_json::Value);

/// What a value of `serde_json` holds.
pub uninterp spec fn value_holds(v: Value) -> JsonView;

/// What a reading of a document holds.
pub open spec fn reading_holds(r: Result<Value, String>) -> Result<JsonView, Seq<char>> {
    match r {
        Ok(v) => Ok(value_holds(v)),
        Err(e) => Err(e@),
    }
}

/// Whether a value that was read is nested no deeper than a document may be.
pub open spec fn read_within_depth(r: Result<JsonView, Seq<char>>) -> bool {
    match r {
        Ok(v) => nested(v, READ_DEPTH as nat),
        Err(_) => true,
    }
}

/// `serde_json::from_slice`, into a `serde_json::Value`: reads a document. The
/// result depends on the document alone. A document that is nested too deep is an
/// error. An object with one member between plain quotes is read as just that.
#[verifier::external_body]
fn read_value(bytes: &[u8]) -> (r: Result<Value, String>)
    ensures
        reading_holds(r) == json_parse(bytes@),
        read_plainly(bytes@, reading_holds(r)),
        read_within_depth(reading_holds(r)),
{
    serde_json::from_slice(bytes).map_err(|e| e.to_string())
}

/// A `serde_json::Value` in the terms of this library. Of a number that
/// `serde_json::Number::as_u64` does not give, nothing is kept.
#[verifier::external_body]
fn from_value(v: Value) -> (r: Json)
    requires
        nested(value_holds(v), READ_DEPTH as nat),
    ensures
        r@ == value_holds(v),
{
    match v {
        Value::Null => Json::Null,
        Value::Bool(b) => Json::Bool(b),
        Value::Number(n) => Json::Number(n.as_u64()),
        Value::String(s) => Json::Text(s),
        Value::Array(a) => Json::List(a.into_iter().map(from_value).collect()),
        Value::Object(m) => {
            Json::Object(m.into_iter().map(|(k, v)| (k, from_value(v))).collect())
        },
    }
}

/// A value as a `serde_json::Value`, which keeps the members of an object in the
/// order of their names.
#[verifier::external_body]
fn to_value(v: &Json) -> (r: Value)
    requires
        canonical(v@, MAX_DEPTH as nat),
    ensures
        value_holds(r) == v@,
{
    match v {
        Json::Null => Value::Null,
        Json::Bool(b) => Value::from(*b),
        Json::Number(n) => Value::from(*n),
        Json::Text(s) => Value::from(s.as_str()),
        Json::List(a) => Value::Array(a.iter().map(to_value).collect()),
        Json::Object(m) => {
            Value::Object(m.iter().map(|(k, v)| (k.clone(), to_value(v))).collect())
        },
    }
}

/// `serde_json::to_string_pretty`, of a `serde_json::Value`: writes a document.
/// The result depends on the value alone, and is read as that value again.
#[verifier::external_body]
fn write_value(v: &Value) -> (r: String)
    requires
        canonical(value_holds(*v), MAX_DEPTH as nat),
    ensures
        r@ == json_pretty(value_holds(*v)),
        read_back(r@, value_holds(*v)),
{
    serde_json::to_string_pretty(v).unwrap_or_default()
}

impl Json {
    /// Reads a document; one that is none, or is nested too deep, gives the reason.
    pub fn parse(bytes: &[u8]) -> (r: Result<Json, String>)
        ensures
            parsed_view(r) == json_parse(bytes@),
            read_plainly(bytes@, parsed_view(r)),
            read_within_depth(parsed_view(r)),
    {
        match read_value(bytes) {
            Ok(v) => Ok(from_value(v)),
            Err(e) => Err(e),
        }
    }

    /// Writes a value as a document, which is read as the value again.
    pub fn to_pretty(&self) -> (r: String)
        requires
            canonical(self@, MAX_DEPTH as nat),
        ensures
            r@ == json_pretty(self@),
            read_back(r@, self@),
    {
        write_value(&to_value(self))
    }
}

} // verus!
