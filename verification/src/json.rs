//! A model of JSON documents, and the parsing of text into it.

use vstd::prelude::*;

use crate::text::same_text;

verus! {

/// A JSON number, as far as an integer can hold it: each field is the number
/// in that integer type where it is an integer and fits, and `None` where not.
#[derive(Clone, Copy, Debug, PartialEq, Eq, Structural)]
pub struct JsonNumber {
    pub unsigned: Option<u64>,
    pub signed: Option<i64>,
}

/// A JSON document.
#[derive(Debug, PartialEq, Eq)]
pub enum Json {
    Null,
    Bool(bool),
    Number(JsonNumber),
    Text(String),
    Array(Vec<Json>),
    /// The members of an object. Where several have one name, the first counts.
    Object(Vec<(String, Json)>),
}

/// The mathematical value of a [`Json`].
pub enum JsonView {
    Null,
    Bool(bool),
    Number(JsonNumber),
    Text(Seq<char>),
    Array(Seq<JsonView>),
    Object(Seq<(Seq<char>, JsonView)>),
}

/// The values of `items`, in order.
pub open spec fn items_view(items: Seq<Json>) -> Seq<JsonView>
    decreases items,
{
    if items.len() == 0 {
        Seq::empty()
    } else {
        items_view(items.drop_last()).push(items.last().view())
    }
}

/// The names and values of `members`, in order.
pub open spec fn members_view(members: Seq<(String, Json)>) -> Seq<(Seq<char>, JsonView)>
    decreases members,
{
    if members.len() == 0 {
        Seq::empty()
    } else {
        members_view(members.drop_last()).push((members.last().0@, members.last().1.view()))
    }
}

impl View for Json {
    type V = JsonView;

    open spec fn view(&self) -> JsonView
        decreases self,
    {
        match self {
            Json::Null => JsonView::Null,
            Json::Bool(b) => JsonView::Bool(*b),
            Json::Number(n) => JsonView::Number(*n),
            Json::Text(s) => JsonView::Text(s@),
            Json::Array(items) => JsonView::Array(items_view(items@)),
            Json::Object(members) => JsonView::Object(members_view(members@)),
        }
    }
}

/// `items_view` maps position by position.
pub proof fn lemma_items_view(items: Seq<Json>)
    ensures
        items_view(items).len() == items.len(),
        forall|i: int| 0 <= i < items.len() ==> #[trigger] items_view(items)[i] == items[i]@,
    decreases items.len(),
{
    if items.len() > 0 {
        lemma_items_view(items.drop_last());
        assert(items_view(items) == items_view(items.drop_last()).push(items.last()@));
    }
}

/// `members_view` maps position by position.
pub proof fn lemma_members_view(members: Seq<(String, Json)>)
    ensures
        members_view(members).len() == members.len(),
        forall|i: int|
            0 <= i < members.len() ==> #[trigger] members_view(members)[i] == (
                members[i].0@,
                members[i].1@,
            ),
    decreases members.len(),
{
    if members.len() > 0 {
        lemma_members_view(members.drop_last());
        assert(members_view(members) == members_view(members.drop_last()).push(
            (members.last().0@, members.last().1@),
        ));
    }
}

/// The value of the first member called `name`, if there is one.
pub open spec fn find_member(members: Seq<(Seq<char>, JsonView)>, name: Seq<char>) -> Option<
    JsonView,
>
    decreases members.len(),
{
    if members.len() == 0 {
        None
    } else if members[0].0 == name {
        Some(members[0].1)
    } else {
        find_member(members.drop_first(), name)
    }
}

impl JsonView {
    /// The member `name` of an object. `None` for what is no object or has no such member.
    pub open spec fn get(self, name: Seq<char>) -> Option<JsonView> {
        match self {
            JsonView::Object(members) => find_member(members, name),
            _ => None,
        }
    }

    /// The element at `index` of an array. `None` for what is no array or is too short.
    pub open spec fn at(self, index: int) -> Option<JsonView> {
        match self {
            JsonView::Array(items) => if 0 <= index < items.len() {
                Some(items[index])
            } else {
                None
            },
            _ => None,
        }
    }

    /// The member `name`, with `Null` standing for a missing one.
    pub open spec fn member(self, name: Seq<char>) -> JsonView {
        match self.get(name) {
            Some(value) => value,
            None => JsonView::Null,
        }
    }

    /// The element at `index`, with `Null` standing for a missing one.
    pub open spec fn element(self, index: int) -> JsonView {
        match self.at(index) {
            Some(value) => value,
            None => JsonView::Null,
        }
    }

    /// The characters of a string value.
    pub open spec fn as_text(self) -> Option<Seq<char>> {
        match self {
            JsonView::Text(s) => Some(s),
            _ => None,
        }
    }

    /// The truth value of a boolean.
    pub open spec fn as_bool(self) -> Option<bool> {
        match self {
            JsonView::Bool(b) => Some(b),
            _ => None,
        }
    }

    /// A number that is a non-negative integer below 2^32.
    pub open spec fn as_u32(self) -> Option<u32> {
        match self {
            JsonView::Number(n) => match n.unsigned {
                Some(u) => if u <= u32::MAX {
                    Some(u as u32)
                } else {
                    None
                },
                None => None,
            },
            _ => None,
        }
    }
}

/// The view of a borrowed document that may be absent.
pub open spec fn view_of(found: Option<&Json>) -> Option<JsonView> {
    match found {
        Some(value) => Some(value@),
        None => None,
    }
}

/// The value of a borrowed document, with `Null` standing for an absent one.
pub open spec fn or_null(found: Option<&Json>) -> JsonView {
    match found {
        Some(value) => value@,
        None => JsonView::Null,
    }
}

/// The member `name` of a document that may be absent. An absent result
/// stands for `Null`, as an absent document does.
pub fn member<'a>(value: Option<&'a Json>, name: &str) -> (found: Option<&'a Json>)
    ensures
        or_null(found) == or_null(value).member(name@),
{
    match value {
        Some(document) => document.get(name),
        None => None,
    }
}

/// The element at `index` of a document that may be absent. An absent result
/// stands for `Null`, as an absent document does.
pub fn element<'a>(value: Option<&'a Json>, index: usize) -> (found: Option<&'a Json>)
    ensures
        or_null(found) == or_null(value).element(index as int),
{
    match value {
        Some(document) => document.at(index),
        None => None,
    }
}

/// The text of a document that may be absent, where it is a string.
pub fn text_of<'a>(value: Option<&'a Json>) -> (text: Option<&'a str>)
    ensures
        match text {
            Some(s) => or_null(value).as_text() == Some(s@),
            None => or_null(value).as_text() is None,
        },
{
    match value {
        Some(document) => document.as_str(),
        None => None,
    }
}

impl Json {
    /// The member `name` of an object; the first one where several have the name.
    pub fn get(&self, name: &str) -> (found: Option<&Json>)
        ensures
            view_of(found) == self@.get(name@),
    {
        match self {
            Json::Object(members) => {
                let ghost all = self@->Object_0;
                proof {
                    lemma_members_view(members@);
                    assert(all.skip(0) == all);
                }
                let mut i: usize = 0;
                while i < members.len()
                    invariant
                        i <= members.len(),
                        self@ == JsonView::Object(all),
                        all.len() == members@.len(),
                        forall|k: int|
                            0 <= k < members@.len() ==> #[trigger] all[k] == (
                                members@[k].0@,
                                members@[k].1@,
                            ),
                        find_member(all, name@) == find_member(all.skip(i as int), name@),
                    decreases members.len() - i,
                {
                    let ghost rest = all.skip(i as int);
                    assert(rest[0] == all[i as int]);
                    assert(rest.drop_first() == all.skip(i + 1));
                    if same_text(members[i].0.as_str(), name) {
                        return Some(&members[i].1);
                    }
                    i += 1;
                }
                None
            },
            _ => None,
        }
    }

    /// The element at `index` of an array.
    pub fn at(&self, index: usize) -> (found: Option<&Json>)
        ensures
            view_of(found) == self@.at(index as int),
    {
        match self {
            Json::Array(items) => {
                proof {
                    lemma_items_view(items@);
                }
                if index < items.len() {
                    Some(&items[index])
                } else {
                    None
                }
            },
            _ => None,
        }
    }

    /// Whether this is the value `null`.
    pub fn is_null(&self) -> (b: bool)
        ensures
            b == (self@ is Null),
    {
        match self {
            Json::Null => true,
            _ => false,
        }
    }

    /// The text of a string value.
    pub fn as_str(&self) -> (text: Option<&str>)
        ensures
            match text {
                Some(s) => self@.as_text() == Some(s@),
                None => self@.as_text() is None,
            },
    {
        match self {
            Json::Text(s) => Some(s.as_str()),
            _ => None,
        }
    }

    /// The truth value of a boolean.
    pub fn as_bool(&self) -> (b: Option<bool>)
        ensures
            b == self@.as_bool(),
    {
        match self {
            Json::Bool(b) => Some(*b),
            _ => None,
        }
    }

    /// A number that is a non-negative integer below 2^32.
    pub fn as_u32(&self) -> (n: Option<u32>)
        ensures
            n == self@.as_u32(),
    {
        match self {
            Json::Number(n) => match n.unsigned {
                Some(u) => if u <= 0xffff_ffff {
                    Some(u as u32)
                } else {
                    None
                },
                None => None,
            },
            _ => None,
        }
    }
}

/// `serde_json::Value`, the document tree that the parser of `serde_json` builds.
/// Nothing of it is visible here: it is only handed on to `from_value`.
#[verifier::external_type_specification]
#[verifier::external_body]
pub struct ExValue(serde_json::Value);

/// What parsing `text` as one JSON document yields: the document, or the
/// parser's message where `text` is none. It stands for what `parse_text`
/// has from `serde_json::from_str`.
pub uninterp spec fn json_document(text: Seq<char>) -> Result<JsonView, Seq<char>>;

/// What parsing `bytes` as one JSON document in UTF-8 yields: the document, or
/// the parser's message where `bytes` hold none. It stands for what
/// `parse_bytes` has from `serde_json::from_slice`.
pub uninterp spec fn json_body(bytes: Seq<u8>) -> Result<JsonView, Seq<char>>;

/// The view of a parsing result.
pub open spec fn parsed_view(parsed: Result<Json, String>) -> Result<JsonView, Seq<char>> {
    match parsed {
        Ok(document) => Ok(document@),
        Err(message) => Err(message@),
    }
}

/// Rebuilds a `serde_json::Value` as a [`Json`], variant by variant. A number
/// is taken through `Number::as_u64` and `Number::as_i64`, so that one written
/// with a fraction or an exponent has neither field. The members of an object
/// come in the order in which `serde_json::Map` hands them out, each name once.
#[verifier::external_body]
fn from_value(value: serde_json::Value) -> Json {
    match value {
        serde_json::Value::Null => Json::Null,
        serde_json::Value::Bool(b) => Json::Bool(b),
        serde_json::Value::Number(n) => Json::Number(JsonNumber { unsigned: n.as_u64(), signed: n.as_i64() }),
        serde_json::Value::String(s) => Json::Text(s),
        serde_json::Value::Array(items) => Json::Array(items.into_iter().map(from_value).collect()),
        serde_json::Value::Object(members) => {
            let mut rebuilt = Vec::new();
            for (name, inner) in members {
                rebuilt.push((name, from_value(inner)));
            }
            Json::Object(rebuilt)
        },
    }
}

/// `serde_json::from_str` at the type `serde_json::Value`, the tree rebuilt by
/// `from_value` and the error rendered as its message. The result depends on
/// the text alone: the contract names it.
#[verifier::external_body]
pub(crate) fn parse_text(text: &str) -> (parsed: Result<Json, String>)
    ensures
        parsed_view(parsed) == json_document(text@),
{
    match serde_json::from_str::<serde_json::Value>(text) {
        Ok(value) => Ok(from_value(value)),
        Err(error) => Err(error.to_string()),
    }
}

/// `serde_json::from_slice` at the type `serde_json::Value`, the tree rebuilt by
/// `from_value` and the error rendered as its message. The result depends on
/// the bytes alone: the contract names it.
#[verifier::external_body]
pub(crate) fn parse_bytes(bytes: &[u8]) -> (parsed: Result<Json, String>)
    ensures
        parsed_view(parsed) == json_body(bytes@),
{
    match serde_json::from_slice::<serde_json::Value>(bytes) {
        Ok(value) => Ok(from_value(value)),
        Err(error) => Err(error.to_string()),
    }
}

} // verus!
