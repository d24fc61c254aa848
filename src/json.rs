//! Reading the topic tree out of the JSON text of the data entry.

use vstd::prelude::*;
use crate::error::ConvertError;
use crate::notes::opt_view;
use crate::topic::{
    lemma_forest_height_at_most, ChildrenWrapper, NotesContent, PlainContent, Topic, height,
};

verus! {

#[verifier::external_type_specification]
#[verifier::external_body]
pub struct ExValue(serde_json::Value);

/// A JSON value. A number keeps its text; an object keeps its members in
/// the order `serde_json` hands them out, each key once.
#[derive(Debug)]
pub enum JsonValue {
    Null,
    Bool(bool),
    Number(String),
    Str(String),
    Array(Vec<JsonValue>),
    Object(Vec<(String, JsonValue)>),
}

/// The JSON value that `serde_json` reads from the text; none where the
/// text is not valid JSON.
pub uninterp spec fn json_of(s: Seq<char>) -> Option<JsonValue>;

/// The deepest topic tree that is read. `serde_json` refuses text that nests
/// more than 128 levels, and each topic level takes three JSON levels.
pub const MAX_DEPTH: u32 = 128;

/// Relies on the variants of `serde_json::Value`: moves each one into the
/// variant of the same name.
#[verifier::external_body]
fn json_value_from(v: serde_json::Value) -> JsonValue {
    match v {
        serde_json::Value::Null => JsonValue::Null,
        serde_json::Value::Bool(b) => JsonValue::Bool(b),
        serde_json::Value::Number(n) => JsonValue::Number(n.to_string()),
        serde_json::Value::String(s) => JsonValue::Str(s),
        serde_json::Value::Array(a) => JsonValue::Array(a.into_iter().map(json_value_from).collect()),
        serde_json::Value::Object(m) => JsonValue::Object(
            m.into_iter().map(|(k, x)| (k, json_value_from(x))).collect(),
        ),
    }
}

/// Relies on `serde_json::from_str`: the text parsed as one JSON value, or
/// none where it is not valid JSON; the outcome depends on the text alone.
#[verifier::external_body]
fn parse_json(text: &str) -> (r: Option<JsonValue>)
    ensures
        r == json_of(text@),
{
    serde_json::from_str::<serde_json::Value>(text).ok().map(json_value_from)
}

/// The value of the first member named `key`.
pub open spec fn field(fields: Seq<(String, JsonValue)>, key: Seq<char>) -> Option<JsonValue>
    decreases fields.len(),
{
    if fields.len() == 0 {
        None
    } else if fields[0].0@ == key {
        Some(fields[0].1)
    } else {
        field(fields.drop_first(), key)
    }
}

/// The member `key` of an object; none for any other value.
pub open spec fn member_of(v: JsonValue, key: Seq<char>) -> Option<JsonValue> {
    match v {
        JsonValue::Object(fs) => field(fs@, key),
        _ => None,
    }
}

/// The member `key` where it is a string; none otherwise.
pub open spec fn text_member(v: JsonValue, key: Seq<char>) -> Option<Seq<char>> {
    match member_of(v, key) {
        Some(JsonValue::Str(s)) => Some(s@),
        _ => None,
    }
}

/// The member `key` where it is an object; none otherwise.
pub open spec fn object_member(v: JsonValue, key: Seq<char>) -> Option<JsonValue> {
    match member_of(v, key) {
        Some(m) => if m is Object {
            Some(m)
        } else {
            None
        },
        None => None,
    }
}

pub open spec fn key_title() -> Seq<char> {
    seq!['t', 'i', 't', 'l', 'e']
}

pub open spec fn key_notes() -> Seq<char> {
    seq!['n', 'o', 't', 'e', 's']
}

pub open spec fn key_plain() -> Seq<char> {
    seq!['p', 'l', 'a', 'i', 'n']
}

pub open spec fn key_content() -> Seq<char> {
    seq!['c', 'o', 'n', 't', 'e', 'n', 't']
}

pub open spec fn key_children() -> Seq<char> {
    seq!['c', 'h', 'i', 'l', 'd', 'r', 'e', 'n']
}

pub open spec fn key_attached() -> Seq<char> {
    seq!['a', 't', 't', 'a', 'c', 'h', 'e', 'd']
}

pub open spec fn key_root() -> Seq<char> {
    seq!['r', 'o', 'o', 't', 'T', 'o', 'p', 'i', 'c']
}

/// The attached children of a topic object: the elements of the `attached`
/// array of its `children` object, or none.
pub open spec fn attached_of(v: JsonValue) -> Seq<JsonValue> {
    match object_member(v, key_children()) {
        Some(c) => match member_of(c, key_attached()) {
            Some(JsonValue::Array(items)) => items@,
            _ => Seq::empty(),
        },
        None => Seq::empty(),
    }
}

/// Whether `v` describes a topic tree of at most `fuel` levels: each topic
/// is an object.
pub open spec fn is_topic(v: JsonValue, fuel: nat) -> bool
    decreases fuel,
{
    fuel > 0 && v is Object && forall|i: int|
        0 <= i < attached_of(v).len() ==> is_topic(#[trigger] attached_of(v)[i], (fuel - 1) as nat)
}

/// Whether the notes `n` are what the topic object `v` gives: an object
/// `notes` with an object `plain` whose `content` is a string; a member of
/// another type counts as absent.
pub open spec fn notes_read(n: Option<NotesContent>, v: JsonValue) -> bool {
    match object_member(v, key_notes()) {
        Some(nv) => match n {
            Some(nc) => match object_member(nv, key_plain()) {
                Some(pv) => match nc.plain {
                    Some(p) => opt_view(p.content) == text_member(pv, key_content()),
                    None => false,
                },
                None => nc.plain is None,
            },
            None => false,
        },
        None => n is None,
    }
}

/// Whether the topic `t` is what the object `v` describes: its title where
/// it is a string, its notes, and its attached children in order.
pub open spec fn reads_as(t: Topic, v: JsonValue, fuel: nat) -> bool
    decreases fuel,
{
    &&& fuel > 0
    &&& opt_view(t.title) == text_member(v, key_title())
    &&& notes_read(t.notes, v)
    &&& match t.children {
        Some(w) => object_member(v, key_children()) is Some && w.attached@.len() == attached_of(
            v,
        ).len() && forall|i: int|
            0 <= i < w.attached@.len() ==> reads_as(
                #[trigger] w.attached@[i],
                attached_of(v)[i],
                (fuel - 1) as nat,
            ),
        None => object_member(v, key_children()) is None,
    }
}

/// The value of `rootTopic`: in the first element of an array, or in the
/// object itself.
pub open spec fn root_value(j: JsonValue) -> Option<JsonValue> {
    match j {
        JsonValue::Array(items) => if items@.len() > 0 {
            member_of(items@[0], key_root())
        } else {
            None
        },
        _ => member_of(j, key_root()),
    }
}

fn member<'a>(v: &'a JsonValue, key: &str) -> (r: Option<&'a JsonValue>)
    ensures
        match r {
            Some(m) => member_of(*v, key@) == Some(*m),
            None => member_of(*v, key@) is None,
        },
{
    match v {
        JsonValue::Object(fs) => {
            let k = String::from_str(key);
            let mut i: usize = 0;
            assert(fs@.skip(0) =~= fs@);
            while i < fs.len()
                invariant
                    i <= fs@.len(),
                    k@ == key@,
                    member_of(*v, key@) == field(fs@, key@),
                    field(fs@, key@) == field(fs@.skip(i as int), key@),
                decreases fs.len() - i,
            {
                assert(fs@.skip(i as int).drop_first() =~= fs@.skip(i + 1));
                assert(fs@.skip(i as int)[0] == fs@[i as int]);
                if fs[i].0 == k {
                    assert(fs@[i as int].0@ == key@);
                    assert(field(fs@.skip(i as int), key@) == Some(fs@[i as int].1));
                    return Some(&fs[i].1);
                }
                i = i + 1;
            }
            None
        },
        _ => None,
    }
}

fn text_of(v: &JsonValue, key: &str) -> (r: Option<String>)
    ensures
        opt_view(r) == text_member(*v, key@),
{
    match member(v, key) {
        Some(JsonValue::Str(s)) => Some(s.clone()),
        _ => None,
    }
}

fn object_of<'a>(v: &'a JsonValue, key: &str) -> (r: Option<&'a JsonValue>)
    ensures
        match r {
            Some(m) => object_member(*v, key@) == Some(*m),
            None => object_member(*v, key@) is None,
        },
{
    match member(v, key) {
        Some(m) => match m {
            JsonValue::Object(_) => Some(m),
            _ => None,
        },
        None => None,
    }
}

/// The notes of a topic object.
fn notes_from_value(v: &JsonValue) -> (r: Option<NotesContent>)
    ensures
        notes_read(r, *v),
{
    proof {
        reveal_strlit("notes");
        reveal_strlit("plain");
        reveal_strlit("content");
    }
    assert("notes"@ =~= key_notes());
    assert("plain"@ =~= key_plain());
    assert("content"@ =~= key_content());
    match object_of(v, "notes") {
        Some(n) => {
            let plain = match object_of(n, "plain") {
                Some(p) => Some(PlainContent { content: text_of(p, "content") }),
                None => None,
            };
            Some(NotesContent { plain })
        },
        None => None,
    }
}

/// The elements of the `attached` array of the `children` object of `v`.
fn attached_items(c: &JsonValue) -> (r: Option<&Vec<JsonValue>>)
    ensures
        match r {
            Some(items) => match member_of(*c, key_attached()) {
                Some(JsonValue::Array(a)) => a@ == items@,
                _ => false,
            },
            None => !(member_of(*c, key_attached()) matches Some(JsonValue::Array(_))),
        },
{
    proof {
        reveal_strlit("attached");
    }
    assert("attached"@ =~= key_attached());
    match member(c, "attached") {
        Some(JsonValue::Array(items)) => Some(items),
        _ => None,
    }
}

/// The topic that the object `v` describes, reading at most `fuel` levels.
fn topic_from_value(v: &JsonValue, fuel: u32) -> (r: Result<Topic, ConvertError>)
    ensures
        match r {
            Ok(t) => is_topic(*v, fuel as nat) && reads_as(t, *v, fuel as nat) && height(t)
                <= fuel,
            Err(e) => !is_topic(*v, fuel as nat) && e == ConvertError::MalformedPayload,
        },
    decreases fuel,
{
    proof {
        reveal_strlit("title");
        reveal_strlit("children");
    }
    assert("title"@ =~= key_title());
    assert("children"@ =~= key_children());
    let is_obj = match v {
        JsonValue::Object(_) => true,
        _ => false,
    };
    if fuel == 0 || !is_obj {
        return Err(ConvertError::MalformedPayload);
    }
    let title = text_of(v, "title");
    let notes = notes_from_value(v);
    let ghost kids = attached_of(*v);
    let children = match object_of(v, "children") {
        Some(c) => {
            let mut attached: Vec<Topic> = Vec::new();
            match attached_items(c) {
                Some(items) => {
                    assert(items@ == kids);
                    let mut i: usize = 0;
                    while i < items.len()
                        invariant
                            fuel > 0,
                            items@ == kids,
                            kids == attached_of(*v),
                            i <= items@.len(),
                            attached@.len() == i,
                            forall|k: int|
                                0 <= k < i ==> height(#[trigger] attached@[k]) <= fuel - 1,
                            forall|k: int|
                                0 <= k < i ==> reads_as(
                                    #[trigger] attached@[k],
                                    kids[k],
                                    (fuel - 1) as nat,
                                ),
                            forall|k: int| 0 <= k < i ==> is_topic(#[trigger] kids[k], (fuel - 1) as nat),
                        decreases items.len() - i,
                    {
                        match topic_from_value(&items[i], fuel - 1) {
                            Ok(t) => {
                                attached.push(t);
                            },
                            Err(e) => {
                                assert(!is_topic(*v, fuel as nat)) by {
                                    if is_topic(*v, fuel as nat) {
                                        assert(is_topic(attached_of(*v)[i as int], (fuel - 1) as nat));
                                    }
                                }
                                return Err(e);
                            },
                        }
                        i = i + 1;
                    }
                },
                None => {
                    assert(kids =~= Seq::<JsonValue>::empty());
                },
            }
            proof {
                lemma_forest_height_at_most(attached@, (fuel - 1) as nat);
            }
            Some(ChildrenWrapper { attached })
        },
        None => None,
    };
    let t = Topic { title, notes, children };
    assert(reads_as(t, *v, fuel as nat));
    Ok(t)
}

/// Reads the root topic from the JSON text of the data entry: either an
/// object with a `rootTopic` member, or an array whose first element is one.
/// Text that is not JSON, a missing `rootTopic`, an empty array or a topic
/// that is not an object is an error; a field of another type than expected
/// counts as absent.
pub fn parse_content_json(json_str: &str) -> (r: Result<Topic, ConvertError>)
    ensures
        match json_of(json_str@) {
            None => r == Err::<Topic, ConvertError>(ConvertError::MalformedPayload),
            Some(j) => match root_value(j) {
                None => r == Err::<Topic, ConvertError>(ConvertError::MalformedPayload),
                Some(rv) => if is_topic(rv, MAX_DEPTH as nat) {
                    r matches Ok(t) && reads_as(t, rv, MAX_DEPTH as nat) && height(t) <= MAX_DEPTH
                } else {
                    r == Err::<Topic, ConvertError>(ConvertError::MalformedPayload)
                },
            },
        },
{
    proof {
        reveal_strlit("rootTopic");
    }
    assert("rootTopic"@ =~= key_root());
    let v = match parse_json(json_str) {
        Some(v) => v,
        None => return Err(ConvertError::MalformedPayload),
    };
    let root = match &v {
        JsonValue::Array(items) => {
            if items.len() == 0 {
                return Err(ConvertError::MalformedPayload);
            }
            member(&items[0], "rootTopic")
        },
        _ => member(&v, "rootTopic"),
    };
    match root {
        Some(t) => topic_from_value(t, MAX_DEPTH),
        None => Err(ConvertError::MalformedPayload),
    }
}

} // verus!
