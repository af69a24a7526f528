//! JSON values as plain data.

use vstd::prelude::*;
use vstd::string::*;

use crate::text::same;

verus! {

/// A JSON value as `serde_json` holds it.
#[verifier::external_type_specification]
#[verifier::external_body]
pub struct ExSerdeValue(serde_json::Value);

/// A JSON number as `serde_json` holds it.
#[verifier::external_type_specification]
#[verifier::external_body]
pub struct ExSerdeNumber(serde_json::Number);

/// `serde_json::Number::clone` gives an equal number.
pub assume_specification[ <serde_json::Number as std::clone::Clone>::clone ](
    n: &serde_json::Number,
) -> (r: serde_json::Number)
    ensures
        r == *n,
;

/// A JSON number. Integers are plain values; a number with a fraction or an
/// exponent, or out of the range of the integers, is only carried through.
#[derive(Debug, PartialEq)]
pub enum Num {
    Natural(u64),
    Negative(i64),
    Other(serde_json::Number),
}

/// A JSON value. Where a key occurs twice in an object, the last one counts.
#[derive(Debug, PartialEq)]
pub enum Json {
    Null,
    Bool(bool),
    Number(Num),
    Text(String),
    Array(Vec<Json>),
    Object(Vec<(String, Json)>),
}

/// What a [`Json`] value stands for.
pub enum Doc {
    Null,
    Bool(bool),
    Number(Num),
    Text(Seq<char>),
    Array(Seq<Doc>),
    Object(Seq<(Seq<char>, Doc)>),
}

pub open spec fn doc_of(j: Json) -> Doc
    decreases j,
{
    match j {
        Json::Null => Doc::Null,
        Json::Bool(b) => Doc::Bool(b),
        Json::Number(n) => Doc::Number(n),
        Json::Text(s) => Doc::Text(s@),
        Json::Array(items) => Doc::Array(
            Seq::new(
                items@.len(),
                |i: int|
                    if 0 <= i < items@.len() {
                        doc_of(items@[i])
                    } else {
                        Doc::Null
                    },
            ),
        ),
        Json::Object(members) => Doc::Object(
            Seq::new(
                members@.len(),
                |i: int|
                    if 0 <= i < members@.len() {
                        (members@[i].0@, doc_of(members@[i].1))
                    } else {
                        (Seq::empty(), Doc::Null)
                    },
            ),
        ),
    }
}

impl View for Json {
    type V = Doc;

    open spec fn view(&self) -> Doc {
        doc_of(*self)
    }
}

// ---------------------------------------------------------------------------
// Reading and writing
// ---------------------------------------------------------------------------
/// Takes a `serde_json::Value` apart, variant by variant. A number becomes the
/// plain integer that `as_u64` or `as_i64` gives, where one of them gives one.
#[verifier::external_body]
fn from_serde(value: serde_json::Value) -> Json {
    match value {
        serde_json::Value::Null => Json::Null,
        serde_json::Value::Bool(b) => Json::Bool(b),
        serde_json::Value::Number(n) => Json::Number(match (n.as_u64(), n.as_i64()) {
            (Some(natural), _) => Num::Natural(natural),
            (None, Some(negative)) => Num::Negative(negative),
            (None, None) => Num::Other(n),
        }),
        serde_json::Value::String(s) => Json::Text(s),
        serde_json::Value::Array(v) => Json::Array(v.into_iter().map(from_serde).collect()),
        serde_json::Value::Object(m) => Json::Object(
            m.into_iter().map(|(k, v)| (k, from_serde(v))).collect()),
    }
}

/// Puts a `serde_json::Value` together, variant by variant.
#[verifier::external_body]
fn to_serde(json: &Json) -> serde_json::Value {
    match json {
        Json::Null => serde_json::Value::Null,
        Json::Bool(b) => serde_json::Value::Bool(*b),
        Json::Number(Num::Natural(n)) => serde_json::Value::from(*n),
        Json::Number(Num::Negative(n)) => serde_json::Value::from(*n),
        Json::Number(Num::Other(n)) => serde_json::Value::Number(n.clone()),
        Json::Text(s) => serde_json::Value::String(s.clone()),
        Json::Array(v) => serde_json::Value::Array(v.iter().map(to_serde).collect()),
        Json::Object(m) => serde_json::Value::Object(
            m.iter().map(|(k, v)| (k.clone(), to_serde(v))).collect()),
    }
}

/// What `serde_json` makes of a text: the value that it holds, or the message
/// that says why it holds none.
pub uninterp spec fn parsed(s: Seq<char>) -> Result<Doc, Seq<char>>;

/// The compact text that `serde_json` writes for a value.
pub uninterp spec fn written(doc: Doc) -> Seq<char>;

/// A parse result by its views.
pub open spec fn outcome(r: Result<Json, String>) -> Result<Doc, Seq<char>> {
    match r {
        Ok(json) => Ok(json@),
        Err(message) => Err(message@),
    }
}

/// `serde_json::from_str` into a `serde_json::Value`, with the message of its
/// error. The result, which depends on the text alone, is named [`parsed`].
#[verifier::external_body]
fn read(s: &str) -> (r: Result<Json, String>)
    ensures
        outcome(r) == parsed(s@),
{
    serde_json::from_str::<serde_json::Value>(s).map(from_serde).map_err(|e| e.to_string())
}

/// `serde_json::Value::to_string`, whose result depends on the value alone and
/// is named [`written`]. It puts no white space between the parts of a value,
/// and within strings it escapes the control characters, so no line feed occurs
/// in it.
#[verifier::external_body]
fn write(json: &Json) -> (r: String)
    ensures
        r@ == written(json@),
        !r@.contains('\n'),
{
    to_serde(json).to_string()
}

// ---------------------------------------------------------------------------
// Members
// ---------------------------------------------------------------------------
/// The last of `members` with the given key.
pub open spec fn last_member(members: Seq<(Seq<char>, Doc)>, key: Seq<char>) -> Option<Doc>
    decreases members.len(),
{
    if members.len() == 0 {
        None
    } else if members.last().0 == key {
        Some(members.last().1)
    } else {
        last_member(members.drop_last(), key)
    }
}

impl Doc {
    /// The member of an object with the given key. Other values have none.
    pub open spec fn member(self, key: Seq<char>) -> Option<Doc> {
        match self {
            Doc::Object(members) => last_member(members, key),
            _ => None,
        }
    }

    /// The text that the member with the given key holds, if it is a string.
    pub open spec fn text_member(self, key: Seq<char>) -> Option<Seq<char>> {
        match self.member(key) {
            Some(Doc::Text(s)) => Some(s),
            _ => None,
        }
    }
}

impl Json {
    /// Reads a value from a text.
    pub fn parse(s: &str) -> (r: Result<Json, String>)
        ensures
            outcome(r) == parsed(s@),
    {
        read(s)
    }

    /// Writes the value in compact form, on one line.
    pub fn render(&self) -> (r: String)
        ensures
            r@ == written(self@),
            !r@.contains('\n'),
    {
        write(self)
    }

    /// The member of an object with the given key.
    pub fn get(&self, key: &str) -> (r: Option<&Json>)
        ensures
            match r {
                Some(json) => self@.member(key@) == Some(json@),
                None => self@.member(key@) is None,
            },
    {
        match self {
            Json::Object(members) => {
                let ghost docs = self@->Object_0;
                let mut n = members.len();
                assert(docs.take(n as int) == docs);
                while n > 0
                    invariant
                        *self == Json::Object(*members),
                        docs == self@->Object_0,
                        self@.member(key@) == last_member(docs, key@),
                        n <= members.len(),
                        docs.len() == members.len(),
                        last_member(docs, key@) == last_member(docs.take(n as int), key@),
                    decreases n,
                {
                    n -= 1;
                    assert(docs.take(n + 1).drop_last() == docs.take(n as int));
                    assert(docs[n as int] == (members@[n as int].0@, members@[n as int].1@));
                    if same(&members[n].0, key) {
                        return Some(&members[n].1);
                    }
                }
                None
            },
            _ => None,
        }
    }

    /// The text of a string value.
    pub fn as_text(&self) -> (r: Option<&str>)
        ensures
            match r {
                Some(s) => self@ == Doc::Text(s@),
                None => !(self@ is Text),
            },
    {
        match self {
            Json::Text(s) => Some(s.as_str()),
            _ => None,
        }
    }

    /// The text of the member with the given key, if it is a string.
    pub fn get_text(&self, key: &str) -> (r: Option<&str>)
        ensures
            match r {
                Some(s) => self@.text_member(key@) == Some(s@),
                None => self@.text_member(key@) is None,
            },
    {
        match self.get(key) {
            Some(json) => json.as_text(),
            None => None,
        }
    }

    /// A copy of the value.
    pub fn copy(&self) -> (r: Json)
        ensures
            r@ == self@,
        decreases self,
    {
        match self {
            Json::Null => Json::Null,
            Json::Bool(b) => Json::Bool(*b),
            Json::Number(Num::Natural(n)) => Json::Number(Num::Natural(*n)),
            Json::Number(Num::Negative(n)) => Json::Number(Num::Negative(*n)),
            Json::Number(Num::Other(n)) => Json::Number(Num::Other(n.clone())),
            Json::Text(s) => Json::Text(s.clone()),
            Json::Array(items) => {
                let mut copies: Vec<Json> = Vec::new();
                for i in 0..items.len()
                    invariant
                        *self == Json::Array(*items),
                        copies.len() == i,
                        forall|j: int| 0 <= j < i ==> copies[j]@ == items[j]@,
                {
                    proof {
                        assert(decreases_to!(*self => (*self)->Array_0));
                        assert(decreases_to!(*items => items@));
                        assert(decreases_to!(items@ => items@[i as int]));
                    }
                    copies.push(items[i].copy());
                }
                let r = Json::Array(copies);
                assert(r@->Array_0 =~= self@->Array_0);
                r
            },
            Json::Object(members) => {
                let mut copies: Vec<(String, Json)> = Vec::new();
                for i in 0..members.len()
                    invariant
                        *self == Json::Object(*members),
                        copies.len() == i,
                        forall|j: int|
                            0 <= j < i ==> copies[j].0@ == members[j].0@ && copies[j].1@
                                == members[j].1@,
                {
                    proof {
                        assert(decreases_to!(*self => (*self)->Object_0));
                        assert(decreases_to!(*members => members@));
                        assert(decreases_to!(members@ => members@[i as int]));
                        assert(decreases_to!(members@[i as int] => members@[i as int].1));
                    }
                    copies.push((members[i].0.clone(), members[i].1.copy()));
                }
                let r = Json::Object(copies);
                assert(r@->Object_0 =~= self@->Object_0);
                r
            },
        }
    }
}

// ---------------------------------------------------------------------------
// Building
// ---------------------------------------------------------------------------
/// The views of a list of members.
pub open spec fn member_docs(members: Seq<(String, Json)>) -> Seq<(Seq<char>, Doc)> {
    members.map_values(|m: (String, Json)| (m.0@, m.1@))
}

/// An object under construction.
pub struct Members {
    pub list: Vec<(String, Json)>,
}

impl View for Members {
    type V = Seq<(Seq<char>, Doc)>;

    open spec fn view(&self) -> Seq<(Seq<char>, Doc)> {
        member_docs(self.list@)
    }
}

impl Members {
    pub fn new() -> (r: Members)
        ensures
            r@ == Seq::<(Seq<char>, Doc)>::empty(),
    {
        Members { list: Vec::new() }
    }

    /// With one more member.
    pub fn with(self, key: &str, value: Json) -> (r: Members)
        ensures
            r@ == self@.push((key@, value@)),
    {
        let ghost before = self@;
        let mut list = self.list;
        list.push((key.to_owned(), value));
        let r = Members { list };
        assert(r@ == before.push((key@, value@)));
        r
    }

    /// The object that has these members.
    pub fn object(self) -> (r: Json)
        ensures
            r@ == Doc::Object(self@),
    {
        let r = Json::Object(self.list);
        assert(r@->Object_0 =~= self@);
        r
    }
}

/// The views of a list of values.
pub open spec fn docs(items: Seq<Json>) -> Seq<Doc> {
    items.map_values(|j: Json| j@)
}

impl Json {
    /// A string value.
    pub fn text(s: &str) -> (r: Json)
        ensures
            r@ == Doc::Text(s@),
    {
        Json::Text(s.to_owned())
    }

    /// A natural number.
    pub fn natural(n: u64) -> (r: Json)
        ensures
            r@ == Doc::Number(Num::Natural(n)),
    {
        Json::Number(Num::Natural(n))
    }

}

/// An array under construction.
pub struct Items {
    pub list: Vec<Json>,
}

impl View for Items {
    type V = Seq<Doc>;

    open spec fn view(&self) -> Seq<Doc> {
        docs(self.list@)
    }
}

impl Items {
    pub fn new() -> (r: Items)
        ensures
            r@ == Seq::<Doc>::empty(),
    {
        Items { list: Vec::new() }
    }

    /// With one more item.
    pub fn with(self, value: Json) -> (r: Items)
        ensures
            r@ == self@.push(value@),
    {
        let ghost before = self@;
        let mut list = self.list;
        list.push(value);
        let r = Items { list };
        assert(r@ == before.push(value@));
        r
    }

    /// The array that has these items.
    pub fn array(self) -> (r: Json)
        ensures
            r@ == Doc::Array(self@),
    {
        let r = Json::Array(self.list);
        assert(r@->Array_0 =~= self@);
        r
    }
}

/// A message on one line, as it goes over the wire.
pub open spec fn framed(doc: Doc) -> Seq<char> {
    written(doc).push('\n')
}

/// Writes a value as a line of its own: the only line feed is at the end.
pub fn frame(json: &Json) -> (r: String)
    ensures
        r@ == framed(json@),
        forall|i: int| 0 <= i < r@.len() ==> (r@[i] == '\n' <==> i == r@.len() - 1),
{
    let mut r = json.render();
    let ghost body = r@;
    r.push('\n');
    assert forall|i: int| 0 <= i < r@.len() implies (r@[i] == '\n' <==> i == r@.len() - 1) by {
        if i < body.len() {
            assert(body.contains(body[i]));
        }
    }
    r
}

// ---------------------------------------------------------------------------
// What a document tells
// ---------------------------------------------------------------------------
/// Of the members with a key the last one counts, whatever others there are.
/// Without a member with that key there is none, and only objects have members.
pub proof fn the_last_member_counts(
    before: Seq<(Seq<char>, Doc)>,
    key: Seq<char>,
    value: Doc,
    behind: Seq<(Seq<char>, Doc)>,
)
    requires
        forall|i: int| 0 <= i < behind.len() ==> (#[trigger] behind[i]).0 != key,
    ensures
        Doc::Object(before.push((key, value)) + behind).member(key) == Some(value),
        Doc::Object(behind).member(key) is None,
        !(value is Object) ==> value.member(key) is None,
    decreases behind.len(),
{
    let all = before.push((key, value)) + behind;
    if behind.len() == 0 {
        assert(all == before.push((key, value)));
    } else {
        let fewer = behind.drop_last();
        assert forall|i: int| 0 <= i < fewer.len() implies (#[trigger] fewer[i]).0 != key by {
            assert(fewer[i] == behind[i]);
        }
        the_last_member_counts(before, key, value, fewer);
        assert(all.drop_last() == before.push((key, value)) + fewer);
        assert(all.last() == behind.last());
        assert(behind.last() == behind[behind.len() - 1]);
    }
}

/// A member is a text where it is a string, and only there.
pub proof fn a_text_member_is_a_string(doc: Doc, key: Seq<char>, s: Seq<char>)
    ensures
        doc.text_member(key) == Some(s) <==> doc.member(key) == Some(Doc::Text(s)),
{
}

/// A document holds all that the value holds: the same kind, and in it the same
/// items, keys and texts.
pub proof fn a_document_keeps_the_value(json: Json)
    ensures
        match json {
            Json::Null => json@ is Null,
            Json::Bool(b) => json@ == Doc::Bool(b),
            Json::Number(n) => json@ == Doc::Number(n),
            Json::Text(s) => json@ == Doc::Text(s@),
            Json::Array(items) => {
                &&& json@ matches Doc::Array(docs)
                &&& docs.len() == items@.len()
                &&& forall|i: int| 0 <= i < docs.len() ==> #[trigger] docs[i] == items@[i]@
            },
            Json::Object(members) => {
                &&& json@ matches Doc::Object(docs)
                &&& docs.len() == members@.len()
                &&& forall|i: int|
                    0 <= i < docs.len() ==> (#[trigger] docs[i]).0 == members@[i].0@ && docs[i].1
                        == members@[i].1@
            },
        },
{
}

/// A message goes over the wire as it is written, and then the line ends.
pub proof fn a_frame_is_the_message(doc: Doc)
    ensures
        framed(doc) == written(doc) + seq!['\n'],
{
    assert(written(doc).push('\n') =~= written(doc) + seq!['\n']);
}

/// What a line was parsed into keeps the value, or the message.
pub proof fn a_parse_keeps_its_outcome(r: Result<Json, String>)
    ensures
        r matches Ok(json) ==> outcome(r) == Ok::<Doc, Seq<char>>(json@),
        r matches Err(message) ==> outcome(r) == Err::<Doc, Seq<char>>(message@),
{
}

} // verus!
