//! JSON documents: a value type of the library, and the two directions between
//! it and JSON text, which `serde_json` computes.

use vstd::prelude::*;

use crate::text::text_eq;

verus! {

/// What a JSON document says.
///
/// A number is known by its value where it is an unsigned integer of 64 bits.
#[verifier::ext_equal]
pub enum JsonView {
    Null,
    Bool(bool),
    Number(Option<u64>),
    Text(Seq<char>),
    Array(Seq<JsonView>),
    Object(Map<Seq<char>, JsonView>),
}

impl JsonView {
    /// The member `key` of an object, and `Null` where there is none.
    pub open spec fn member(self, key: Seq<char>) -> JsonView {
        match self {
            JsonView::Object(members) => if members.contains_key(key) {
                members[key]
            } else {
                JsonView::Null
            },
            _ => JsonView::Null,
        }
    }
}

/// A JSON document.
///
/// An object lists its members; where a key occurs more than once, the last
/// member with that key counts.
pub enum Json {
    Null,
    Bool(bool),
    Number(Option<u64>),
    Text(String),
    Array(Vec<Json>),
    Object(Vec<(String, Json)>),
}

/// Whether `key` is the key of a member.
pub open spec fn has_key(members: Seq<(String, Json)>, key: Seq<char>) -> bool {
    exists|i: int| 0 <= i < members.len() && #[trigger] members[i].0@ == key
}

/// The position of the last member with key `key`.
pub open spec fn last_with_key(members: Seq<(String, Json)>, key: Seq<char>) -> int {
    choose|i: int|
        0 <= i < members.len() && #[trigger] members[i].0@ == key && forall|j: int|
            i < j < members.len() ==> #[trigger] members[j].0@ != key
}

impl Json {
    /// What the document says.
    pub open spec fn view(&self) -> JsonView
        decreases self,
    {
        match self {
            Json::Null => JsonView::Null,
            Json::Bool(b) => JsonView::Bool(*b),
            Json::Number(n) => JsonView::Number(*n),
            Json::Text(s) => JsonView::Text(s@),
            Json::Array(items) => JsonView::Array(
                Seq::new(
                    items@.len(),
                    |i: int|
                        if 0 <= i < items@.len() {
                            items@[i].view()
                        } else {
                            JsonView::Null
                        },
                ),
            ),
            Json::Object(members) => JsonView::Object(
                Map::new(
                    |key: Seq<char>| has_key(members@, key),
                    |key: Seq<char>|
                        {
                            let i = last_with_key(members@, key);
                            if 0 <= i < members@.len() {
                                members@[i].1.view()
                            } else {
                                JsonView::Null
                            }
                        },
                ),
            ),
        }
    }
}

/// A key that occurs has a last member.
proof fn lemma_last_with_key(members: Seq<(String, Json)>, key: Seq<char>)
    requires
        has_key(members, key),
    ensures
        0 <= last_with_key(members, key) < members.len(),
        members[last_with_key(members, key)].0@ == key,
        forall|j: int|
            last_with_key(members, key) < j < members.len() ==> #[trigger] members[j].0@ != key,
{
    lemma_last_at_or_after(
        members,
        key,
        choose|i: int| 0 <= i < members.len() && #[trigger] members[i].0@ == key,
    );
}

proof fn lemma_last_at_or_after(members: Seq<(String, Json)>, key: Seq<char>, from: int)
    requires
        0 <= from < members.len(),
        members[from].0@ == key,
    ensures
        exists|i: int|
            0 <= i < members.len() && #[trigger] members[i].0@ == key && forall|j: int|
                i < j < members.len() ==> #[trigger] members[j].0@ != key,
    decreases members.len() - from,
{
    if exists|j: int| from < j < members.len() && #[trigger] members[j].0@ == key {
        let j = choose|j: int| from < j < members.len() && #[trigger] members[j].0@ == key;
        lemma_last_at_or_after(members, key, j);
    }
}

/// `serde_json::Value`, a parsed document.
#[verifier::external_type_specification]
#[verifier::external_body]
pub struct ExValue(serde_json::Value);

/// `serde_json::Error`, why a text is no document.
#[verifier::external_type_specification]
#[verifier::external_body]
pub struct ExJsonError(serde_json::Error);

/// What a `serde_json::Value` holds.
pub uninterp spec fn value_holds(v: serde_json::Value) -> JsonView;

/// What `serde_json::from_slice` makes of a text: the document, or `None` where
/// the text is none.
pub uninterp spec fn parsed_json(text: Seq<u8>) -> Option<JsonView>;

/// One layer of a parsed document.
pub enum JsonNode {
    Null,
    Bool(bool),
    Number(Option<u64>),
    Text(String),
    Array(Vec<serde_json::Value>),
    Object(Vec<(String, serde_json::Value)>),
}

/// Calls `serde_json::from_slice` for a `serde_json::Value`.
///
/// Trusted of it: whether a text is a document, and which, depends on the text
/// alone.
#[verifier::external_body]
fn parse_value(text: &[u8]) -> (r: Result<serde_json::Value, serde_json::Error>)
    ensures
        r is Ok <==> parsed_json(text@) is Some,
        r matches Ok(v) ==> parsed_json(text@) == Some(value_holds(v)),
{
    serde_json::from_slice(text)
}

/// Takes a `serde_json::Value` apart into its variant and the values inside it,
/// with `serde_json::Number::as_u64` for a number and the iterator of
/// `serde_json::Map` for the members of an object.
///
/// Trusted of it: the parts hold what the whole holds, and a map has finitely
/// many members, each key once.
#[verifier::external_body]
fn open_value(v: serde_json::Value) -> (r: JsonNode)
    ensures
        match r {
            JsonNode::Null => value_holds(v) == JsonView::Null,
            JsonNode::Bool(b) => value_holds(v) == JsonView::Bool(b),
            JsonNode::Number(n) => value_holds(v) == JsonView::Number(n),
            JsonNode::Text(s) => value_holds(v) == JsonView::Text(s@),
            JsonNode::Array(items) => value_holds(v) == JsonView::Array(
                items@.map_values(|item: serde_json::Value| value_holds(item)),
            ),
            JsonNode::Object(members) => value_holds(v) matches JsonView::Object(m) && {
                &&& m.dom().finite()
                &&& forall|key: Seq<char>|
                    m.contains_key(key) <==> exists|i: int|
                        0 <= i < members@.len() && #[trigger] members@[i].0@ == key
                &&& forall|i: int|
                    0 <= i < members@.len() ==> m[#[trigger] members@[i].0@] == value_holds(
                        members@[i].1,
                    )
            },
        },
{
    match v {
        serde_json::Value::Null => JsonNode::Null,
        serde_json::Value::Bool(b) => JsonNode::Bool(b),
        serde_json::Value::Number(n) => JsonNode::Number(n.as_u64()),
        serde_json::Value::String(s) => JsonNode::Text(s),
        serde_json::Value::Array(items) => JsonNode::Array(items),
        serde_json::Value::Object(members) => JsonNode::Object(members.into_iter().collect()),
    }
}

/// The document that a parsed value holds.
fn document_of(v: serde_json::Value) -> (r: Json)
    ensures
        r@ == value_holds(v),
    decreases value_holds(v),
{
    match open_value(v) {
        JsonNode::Null => Json::Null,
        JsonNode::Bool(b) => Json::Bool(b),
        JsonNode::Number(n) => Json::Number(n),
        JsonNode::Text(s) => Json::Text(s),
        JsonNode::Array(items) => {
            let ghost views = items@.map_values(|item: serde_json::Value| value_holds(item));
            let mut docs: Vec<Json> = Vec::new();
            for item in iter: items
                invariant
                    iter.seq() == items@,
                    views == items@.map_values(|item: serde_json::Value| value_holds(item)),
                    value_holds(v) == JsonView::Array(views),
                    docs@.len() == iter.index(),
                    forall|i: int|
                        0 <= i < docs@.len() ==> #[trigger] docs@[i]@ == views[i],
            {
                proof {
                    assert(views[iter.index() as int] == value_holds(item));
                    assert(decreases_to!(value_holds(v) => value_holds(v)->Array_0));
                    assert(decreases_to!(views => views[iter.index() as int]));
                }
                docs.push(document_of(item));
            }
            let r = Json::Array(docs);
            proof {
                assert(docs@.len() == views.len());
                assert(r@ is Array);
                assert(r@->Array_0.len() == views.len());
                assert forall|i: int| 0 <= i < views.len() implies r@->Array_0[i] == views[i] by {
                    assert(docs@[i]@ == views[i]);
                }
            }
            assert(r@->Array_0 =~= views);
            r
        },
        JsonNode::Object(members) => {
            let ghost views = value_holds(v)->Object_0;
            let mut docs: Vec<(String, Json)> = Vec::new();
            for member in iter: members
                invariant
                    iter.seq() == members@,
                    value_holds(v) == JsonView::Object(views),
                    views.dom().finite(),
                    forall|i: int|
                        0 <= i < members@.len() ==> views.contains_key(
                            #[trigger] members@[i].0@,
                        ) && views[members@[i].0@] == value_holds(members@[i].1),
                    docs@.len() == iter.index(),
                    forall|i: int|
                        0 <= i < docs@.len() ==> (#[trigger] docs@[i]).0@ == members@[i].0@
                            && docs@[i].1@ == views[members@[i].0@],
            {
                let (key, value) = member;
                proof {
                    let k = iter.index() as int;
                    assert(members@[k].0@ == key@);
                    assert(views.contains_key(key@));
                    assert(decreases_to!(value_holds(v) => value_holds(v)->Object_0));
                    assert(decreases_to!(views => views[key@]));
                }
                docs.push((key, document_of(value)));
            }
            let r = Json::Object(docs);
            proof {
                assert forall|key: Seq<char>| r@->Object_0.contains_key(key)
                    == views.contains_key(key) by {
                    if views.contains_key(key) {
                        let i = choose|i: int|
                            0 <= i < members@.len() && #[trigger] members@[i].0@ == key;
                        assert(docs@[i].0@ == key);
                    }
                    if has_key(docs@, key) {
                        let i = choose|i: int|
                            0 <= i < docs@.len() && #[trigger] docs@[i].0@ == key;
                        assert(members@[i].0@ == key);
                    }
                }
                assert forall|key: Seq<char>| views.contains_key(key) implies r@->Object_0[key]
                    == views[key] by {
                    assert(r@->Object_0.contains_key(key));
                    lemma_last_with_key(docs@, key);
                    let i = last_with_key(docs@, key);
                    assert(docs@[i].0@ == key);
                }
                assert(r@->Object_0 =~= views);
            }
            r
        },
    }
}

/// Reads a JSON text.
pub fn parse_json(text: &[u8]) -> (r: Option<Json>)
    ensures
        r is Some <==> parsed_json(text@) is Some,
        r matches Some(doc) ==> parsed_json(text@) == Some(doc@),
{
    match parse_value(text) {
        Ok(v) => Some(document_of(v)),
        Err(_) => None,
    }
}

impl Json {
    /// The member `key` of an object, where there is one.
    pub fn member(&self, key: &str) -> (r: Option<&Json>)
        ensures
            r is Some <==> self@ is Object && self@->Object_0.contains_key(key@),
            r matches Some(doc) ==> doc@ == self@.member(key@),
            r is None ==> self@.member(key@) == JsonView::Null,
    {
        match self {
            Json::Object(members) => {
                let mut n: usize = members.len();
                while n > 0
                    invariant
                        n <= members@.len(),
                        self@ == Json::Object(*members)@,
                        forall|j: int| n <= j < members@.len() ==> #[trigger] members@[j].0@ != key@,
                    decreases n,
                {
                    n = n - 1;
                    let entry = &members[n];
                    if text_eq(entry.0.as_str(), key) {
                        proof {
                            assert(members@[n as int].0@ == key@);
                            assert(has_key(members@, key@));
                            lemma_last_with_key(members@, key@);
                            assert(last_with_key(members@, key@) == n);
                        }
                        return Some(&entry.1);
                    }
                }
                None
            },
            _ => None,
        }
    }

    /// The elements of an array.
    pub fn as_array(&self) -> (r: Option<&Vec<Json>>)
        ensures
            r is Some <==> self@ is Array,
            r matches Some(items) ==> {
                &&& self@->Array_0.len() == items@.len()
                &&& forall|i: int|
                    0 <= i < items@.len() ==> #[trigger] items@[i]@ == self@->Array_0[i]
            },
    {
        match self {
            Json::Array(items) => Some(items),
            _ => None,
        }
    }

    /// The characters of a string.
    pub fn as_text(&self) -> (r: Option<&String>)
        ensures
            r is Some <==> self@ is Text,
            r matches Some(s) ==> self@ == JsonView::Text(s@),
    {
        match self {
            Json::Text(s) => Some(s),
            _ => None,
        }
    }
}

/// A value that a flat object can hold.
pub enum FieldValue {
    Text(String),
    Number(u64),
}

impl FieldValue {
    /// What the value says.
    pub open spec fn view(&self) -> JsonView {
        match self {
            FieldValue::Text(s) => JsonView::Text(s@),
            FieldValue::Number(n) => JsonView::Number(Some(*n)),
        }
    }
}

/// The members of an object into which `fields` go one after the other.
pub open spec fn fields_map(fields: Seq<(String, FieldValue)>) -> Map<Seq<char>, JsonView>
    decreases fields.len(),
{
    if fields.len() == 0 {
        Map::empty()
    } else {
        fields_map(fields.drop_last()).insert(fields.last().0@, fields.last().1@)
    }
}

/// The text that `serde_json::to_vec` writes for a document.
pub uninterp spec fn json_text(doc: JsonView) -> Seq<u8>;

/// Calls `serde_json::to_vec` on the object that holds `fields`.
///
/// Trusted of it: strings and integers are always written, the text depends on
/// the members of the object alone, and it reads back as that object.
#[verifier::external_body]
pub(crate) fn write_object(fields: &Vec<(String, FieldValue)>) -> (r: Result<
    Vec<u8>,
    serde_json::Error,
>)
    ensures
        r is Ok,
        r matches Ok(text) ==> text@ == json_text(JsonView::Object(fields_map(fields@))),
        r matches Ok(text) ==> parsed_json(text@) == Some(JsonView::Object(fields_map(fields@))),
{
    let mut object = serde_json::Map::new();
    for (key, field) in fields.iter() {
        let value = match field {
            FieldValue::Text(s) => serde_json::Value::from(s.as_str()),
            FieldValue::Number(n) => serde_json::Value::from(*n),
        };
        object.insert(key.clone(), value);
    }
    serde_json::to_vec(&serde_json::Value::Object(object))
}

/// The member of a document under a key is what its object has there; what is no
/// object, or lacks the key, has `Null`.
pub proof fn law_member(doc: JsonView, key: Seq<char>)
    ensures
        doc matches JsonView::Object(members) ==> {
            &&& members.contains_key(key) ==> doc.member(key) == members[key]
            &&& !members.contains_key(key) ==> doc.member(key) == JsonView::Null
        },
        !(doc is Object) ==> doc.member(key) == JsonView::Null,
{
}

/// What a document says is what its parts say: each element of an array in its
/// place, and each key of an object with the last member that has it.
pub proof fn law_document_says_what_its_parts_say(
    items: Vec<Json>,
    members: Vec<(String, Json)>,
    i: int,
    text: String,
    n: Option<u64>,
    b: bool,
)
    ensures
        Json::Null.view() == JsonView::Null,
        Json::Bool(b).view() == JsonView::Bool(b),
        Json::Number(n).view() == JsonView::Number(n),
        Json::Text(text).view() == JsonView::Text(text@),
        Json::Array(items).view() is Array,
        Json::Array(items).view()->Array_0.len() == items@.len(),
        0 <= i < items@.len() ==> Json::Array(items).view()->Array_0[i] == items@[i].view(),
        Json::Object(members).view() is Object,
        forall|key: Seq<char>| #[trigger]
            Json::Object(members).view()->Object_0.contains_key(key) <==> exists|j: int|
                0 <= j < members@.len() && #[trigger] members@[j].0@ == key,
        0 <= i < members@.len() && (forall|j: int|
            i < j < members@.len() ==> #[trigger] members@[j].0@ != members@[i].0@)
            ==> Json::Object(members).view()->Object_0[members@[i].0@] == members@[i].1.view(),
{
    if 0 <= i < members@.len() && (forall|j: int|
        i < j < members@.len() ==> #[trigger] members@[j].0@ != members@[i].0@) {
        let key = members@[i].0@;
        assert(has_key(members@, key));
        lemma_last_with_key(members@, key);
        assert(last_with_key(members@, key) == i);
    }
}

/// Of the fields of an object the last one with a key counts, and there are no
/// other keys.
pub proof fn law_last_field_counts(fields: Seq<(String, FieldValue)>, i: int)
    ensures
        forall|key: Seq<char>| #[trigger]
            fields_map(fields).contains_key(key) <==> exists|j: int|
                0 <= j < fields.len() && #[trigger] fields[j].0@ == key,
        0 <= i < fields.len() && (forall|j: int|
            i < j < fields.len() ==> #[trigger] fields[j].0@ != fields[i].0@) ==> fields_map(
            fields,
        )[fields[i].0@] == match fields[i].1 {
            FieldValue::Text(s) => JsonView::Text(s@),
            FieldValue::Number(n) => JsonView::Number(Some(n)),
        },
    decreases fields.len(),
{
    if fields.len() > 0 {
        let last = fields.len() - 1;
        let rest = fields.drop_last();
        law_last_field_counts(rest, i);
        assert forall|key: Seq<char>| #[trigger]
            fields_map(fields).contains_key(key) <==> exists|j: int|
                0 <= j < fields.len() && #[trigger] fields[j].0@ == key by {
            if fields_map(rest).contains_key(key) {
                let j = choose|j: int| 0 <= j < rest.len() && #[trigger] rest[j].0@ == key;
                assert(fields[j].0@ == key);
            }
            if exists|j: int| 0 <= j < fields.len() && #[trigger] fields[j].0@ == key {
                let j = choose|j: int| 0 <= j < fields.len() && #[trigger] fields[j].0@ == key;
                if j < last {
                    assert(rest[j].0@ == key);
                }
            }
        }
        if 0 <= i < last && (forall|j: int|
            i < j < fields.len() ==> #[trigger] fields[j].0@ != fields[i].0@) {
            assert(fields[last].0@ != fields[i].0@);
            assert forall|j: int| i < j < rest.len() implies #[trigger] rest[j].0@ != rest[i].0@ by {
                assert(fields[j].0@ != fields[i].0@);
            }
        }
    }
}

} // verus!
