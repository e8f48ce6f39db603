//! A JSON document as the bot's logic reads it: every node keeps the text
//! that serializing it gives, and arrays and objects keep their children.
use vstd::prelude::*;

verus! {

/// What kind of node a [`Json`] is, with the children of arrays and objects.
pub enum JsonShape {
    /// An array and its elements, in order.
    Array(Vec<Json>),
    /// An object and its members, as (key, value) pairs.
    Object(Vec<(String, Json)>),
    /// A string, number, boolean or null.
    Scalar,
}

/// A JSON node: its serialized text (what `to_string` gives for it) and its shape.
pub struct Json {
    pub text: String,
    pub shape: JsonShape,
}

impl Json {
    /// The node is well formed: an array's text is bracketed by `[` and `]`,
    /// an object's by `{` and `}`, a scalar's text is not empty and starts
    /// with neither, and all children are well formed.
    pub open spec fn wf(self) -> bool
        decreases self,
    {
        let t = self.text@;
        match self.shape {
            JsonShape::Array(items) => {
                &&& t.len() >= 2
                &&& t[0] == '['
                &&& t.last() == ']'
                &&& forall|i: int| 0 <= i < items@.len() ==> (#[trigger] items@[i]).wf()
            },
            JsonShape::Object(members) => {
                &&& t.len() >= 2
                &&& t[0] == '{'
                &&& t.last() == '}'
                &&& forall|i: int| 0 <= i < members@.len() ==> (#[trigger] members@[i]).1.wf()
            },
            JsonShape::Scalar => {
                &&& t.len() >= 1
                &&& t[0] != '['
                &&& t[0] != '{'
            },
        }
    }
}

/// Name for the document that `serde_json::from_str::<serde_json::Value>`
/// reads from `text`, each node kept with the text `to_string` writes for it,
/// or none when `text` is not JSON.
pub uninterp spec fn parsed_json(text: Seq<char>) -> Option<Json>;

/// serde_json's `Value`, carried from the parse to its conversion.
#[verifier::external_type_specification]
#[verifier::external_body]
pub struct ExJsonValue(serde_json::Value);

/// `serde_json::from_str::<serde_json::Value>(text)`, the value then turned
/// node by node into a [`Json`]. The contract claims that the outcome is a
/// function of `text`, named by `parsed_json`, and that it is well formed:
/// serde_json writes arrays between `[` and `]`, objects between `{` and
/// `}`, and every scalar as non-empty text starting with neither. Which
/// texts serde_json accepts and what it reads from them are not stated.
#[verifier::external_body]
pub fn parse_json(text: &str) -> (r: Option<Json>)
    ensures
        r == parsed_json(text@),
        r matches Some(j) ==> j.wf(),
{
    match serde_json::from_str::<serde_json::Value>(text) {
        Ok(v) => Some(json_of_value(&v)),
        Err(_) => None,
    }
}

/// The conversion of a parsed `serde_json::Value` that `parse_json` makes:
/// each node with its `Value::to_string` and its children. Nothing is
/// claimed of it beyond what `parse_json` states.
#[verifier::external_body]
fn json_of_value(v: &serde_json::Value) -> Json {
    let shape = match v {
        serde_json::Value::Array(items) => JsonShape::Array(items.iter().map(json_of_value).collect()),
        serde_json::Value::Object(members) => JsonShape::Object(
            members.iter().map(|(k, m)| (k.clone(), json_of_value(m))).collect(),
        ),
        _ => JsonShape::Scalar,
    };
    Json { text: v.to_string(), shape }
}

/// The value of the first member of `members` whose key is `key`.
pub open spec fn lookup(members: Seq<(String, Json)>, key: Seq<char>) -> Option<Json>
    decreases members.len(),
{
    if members.len() == 0 {
        None
    } else if members[0].0@ == key {
        Some(members[0].1)
    } else {
        lookup(members.drop_first(), key)
    }
}

/// `Value::get(key)`: the member `key` of an object; nothing for other nodes.
pub open spec fn get_key_spec(j: Json, key: Seq<char>) -> Option<Json> {
    match j.shape {
        JsonShape::Object(members) => lookup(members@, key),
        _ => None,
    }
}

/// `Value::get(index)`: the element `index` of an array; nothing for other nodes.
pub open spec fn get_index_spec(j: Json, index: int) -> Option<Json> {
    match j.shape {
        JsonShape::Array(items) => if 0 <= index < items@.len() {
            Some(items@[index])
        } else {
            None
        },
        _ => None,
    }
}

/// The elements of an array node (`Value::as_array`).
pub open spec fn array_items(j: Json) -> Option<Seq<Json>> {
    match j.shape {
        JsonShape::Array(items) => Some(items@),
        _ => None,
    }
}

/// `Value::get(key)`.
pub fn get_key<'a>(j: &'a Json, key: &str) -> (r: Option<&'a Json>)
    ensures
        match r {
            Some(v) => get_key_spec(*j, key@) == Some(*v),
            None => get_key_spec(*j, key@) is None,
        },
        j.wf() ==> (r matches Some(v) ==> v.wf()),
{
    match &j.shape {
        JsonShape::Object(members) => {
            assert(get_key_spec(*j, key@) == lookup(members@, key@));
            let k = key.to_string();
            let mut i: usize = 0;
            assert(members@.skip(0) == members@);
            while i < members.len()
                invariant
                    i <= members.len(),
                    k@ == key@,
                    get_key_spec(*j, key@) == lookup(members@, key@),
                    j.wf() ==> forall|m: int| 0 <= m < members@.len() ==> (#[trigger] members@[m]).1.wf(),
                    lookup(members@, key@) == lookup(members@.skip(i as int), key@),
                decreases members.len() - i,
            {
                assert(members@.skip(i as int).drop_first() == members@.skip(i + 1));
                if members[i].0 == k {
                    assert(members@.skip(i as int)[0] == members@[i as int]);
                    return Some(&members[i].1);
                }
                i = i + 1;
            }
            None
        },
        _ => None,
    }
}

/// `Value::get(index)`.
pub fn get_index(j: &Json, index: usize) -> (r: Option<&Json>)
    ensures
        match r {
            Some(v) => get_index_spec(*j, index as int) == Some(*v),
            None => get_index_spec(*j, index as int) is None,
        },
        j.wf() ==> (r matches Some(v) ==> v.wf()),
{
    match &j.shape {
        JsonShape::Array(items) => {
            if index < items.len() {
                Some(&items[index])
            } else {
                None
            }
        },
        _ => None,
    }
}

} // verus!
