//! A JSON document as the parsers of this library read it.
//!
//! The values are those that `serde_json` produces: an object holds each key once, and a
//! number is kept as the value `as_u64` gives for it (`None` for a negative or fractional
//! number or one too large for a `u64`).

use vstd::prelude::*;

verus! {

#[derive(Debug)]
pub enum Json {
    Null,
    Bool(bool),
    Number(Option<u64>),
    Text(String),
    Array(Vec<Json>),
    Object(Vec<(String, Json)>),
}

/// The value stored under `key` in `entries`: the first entry that has that key.
pub open spec fn lookup(entries: Seq<(String, Json)>, key: Seq<char>) -> Option<Json>
    decreases entries.len(),
{
    if entries.len() == 0 {
        None
    } else if entries[0].0@ == key {
        Some(entries[0].1)
    } else {
        lookup(entries.drop_first(), key)
    }
}

impl Json {
    /// `Value::get(key)`: the member `key` of an object; nothing for any other value.
    pub open spec fn member(self, key: Seq<char>) -> Option<Json> {
        match self {
            Json::Object(entries) => lookup(entries@, key),
            _ => None,
        }
    }

    /// `Value::as_str`.
    pub open spec fn text(self) -> Option<Seq<char>> {
        match self {
            Json::Text(s) => Some(s@),
            _ => None,
        }
    }

    /// `Value::as_u64`.
    pub open spec fn unsigned(self) -> Option<u64> {
        match self {
            Json::Number(n) => n,
            _ => None,
        }
    }

    /// `Value::as_bool`.
    pub open spec fn boolean(self) -> Option<bool> {
        match self {
            Json::Bool(b) => Some(b),
            _ => None,
        }
    }

    /// `Value::as_array`.
    pub open spec fn items(self) -> Option<Seq<Json>> {
        match self {
            Json::Array(v) => Some(v@),
            _ => None,
        }
    }

    pub open spec fn null(self) -> bool {
        self is Null
    }

    pub fn get(&self, key: &str) -> (r: Option<&Json>)
        ensures
            r is Some <==> self.member(key@) is Some,
            r matches Some(j) ==> self.member(key@) == Some(*j),
    {
        match self {
            Json::Object(entries) => {
                let mut i: usize = 0;
                assert(entries@.skip(0) =~= entries@);
                while i < entries.len()
                    invariant
                        0 <= i <= entries@.len(),
                        self.member(key@) == lookup(entries@, key@),
                        lookup(entries@, key@) == lookup(entries@.skip(i as int), key@),
                    decreases entries@.len() - i,
                {
                    let same = entries[i].0 == key.to_owned();
                    assert(entries@.skip(i as int).drop_first() =~= entries@.skip(i + 1));
                    if same {
                        assert(entries@.skip(i as int)[0] == entries@[i as int]);

                        return Some(&entries[i].1);
                    }
                    i = i + 1;
                }
                None
            },
            _ => None,
        }
    }

    pub fn as_str(&self) -> (r: Option<&str>)
        ensures
            r is Some <==> self.text() is Some,
            r matches Some(s) ==> self.text() == Some(s@),
    {
        match self {
            Json::Text(s) => Some(s.as_str()),
            _ => None,
        }
    }

    pub fn as_u64(&self) -> (r: Option<u64>)
        ensures
            r == self.unsigned(),
    {
        match self {
            Json::Number(n) => *n,
            _ => None,
        }
    }

    pub fn as_bool(&self) -> (r: Option<bool>)
        ensures
            r == self.boolean(),
    {
        match self {
            Json::Bool(b) => Some(*b),
            _ => None,
        }
    }

    pub fn as_array(&self) -> (r: Option<&Vec<Json>>)
        ensures
            r is Some <==> self.items() is Some,
            r matches Some(v) ==> self.items() == Some(v@),
    {
        match self {
            Json::Array(v) => Some(v),
            _ => None,
        }
    }

    pub fn is_null(&self) -> (r: bool)
        ensures
            r == self.null(),
    {
        match self {
            Json::Null => true,
            _ => false,
        }
    }
}

} // verus!

verus! {

/// `node.get(key).and_then(as_str).unwrap_or_default()`: the text under `key`, or nothing.
pub open spec fn text_at(node: Json, key: Seq<char>) -> Seq<char> {
    match node.member(key) {
        Some(v) => match v.text() {
            Some(s) => s,
            None => Seq::empty(),
        },
        None => Seq::empty(),
    }
}

/// The text under `key`, or nothing when there is none.
pub fn text(node: &Json, key: &str) -> (r: String)
    ensures
        r@ == text_at(*node, key@),
{
    match node.get(key) {
        Some(v) => match v.as_str() {
            Some(s) => s.to_owned(),
            None => String::new(),
        },
        None => String::new(),
    }
}

/// The member `inner` of the member `outer`: `node.pointer("/outer/inner")`.
pub open spec fn at2(node: Json, outer: Seq<char>, inner: Seq<char>) -> Option<Json> {
    match node.member(outer) {
        Some(v) => v.member(inner),
        None => None,
    }
}

pub fn get2<'a>(node: &'a Json, outer: &str, inner: &str) -> (r: Option<&'a Json>)
    ensures
        r is Some <==> at2(*node, outer@, inner@) is Some,
        r matches Some(j) ==> at2(*node, outer@, inner@) == Some(*j),
{
    match node.get(outer) {
        Some(v) => v.get(inner),
        None => None,
    }
}

/// The text at `/outer/inner`, or nothing.
pub open spec fn text_at2(node: Json, outer: Seq<char>, inner: Seq<char>) -> Seq<char> {
    match at2(node, outer, inner) {
        Some(v) => match v.text() {
            Some(s) => s,
            None => Seq::empty(),
        },
        None => Seq::empty(),
    }
}

pub fn text2(node: &Json, outer: &str, inner: &str) -> (r: String)
    ensures
        r@ == text_at2(*node, outer@, inner@),
{
    match get2(node, outer, inner) {
        Some(v) => match v.as_str() {
            Some(s) => s.to_owned(),
            None => String::new(),
        },
        None => String::new(),
    }
}

/// The text under `key`, if there is text there.
pub open spec fn str_at(node: Json, key: Seq<char>) -> Option<Seq<char>> {
    match node.member(key) {
        Some(v) => v.text(),
        None => None,
    }
}

pub fn get_str<'a>(node: &'a Json, key: &str) -> (r: Option<&'a str>)
    ensures
        r is Some <==> str_at(*node, key@) is Some,
        r matches Some(s) ==> str_at(*node, key@) == Some(s@),
{
    match node.get(key) {
        Some(v) => v.as_str(),
        None => None,
    }
}

/// The number under `key`, if an unsigned integer is there.
pub open spec fn u64_at(node: Json, key: Seq<char>) -> Option<u64> {
    match node.member(key) {
        Some(v) => v.unsigned(),
        None => None,
    }
}

pub fn get_u64(node: &Json, key: &str) -> (r: Option<u64>)
    ensures
        r == u64_at(*node, key@),
{
    match node.get(key) {
        Some(v) => v.as_u64(),
        None => None,
    }
}

/// The boolean under `key`, if one is there.
pub open spec fn bool_at(node: Json, key: Seq<char>) -> Option<bool> {
    match node.member(key) {
        Some(v) => v.boolean(),
        None => None,
    }
}

pub fn get_bool(node: &Json, key: &str) -> (r: Option<bool>)
    ensures
        r == bool_at(*node, key@),
{
    match node.get(key) {
        Some(v) => v.as_bool(),
        None => None,
    }
}

/// The array under `key`, if an array is there.
pub open spec fn items_at(node: Json, key: Seq<char>) -> Option<Seq<Json>> {
    match node.member(key) {
        Some(v) => v.items(),
        None => None,
    }
}

pub fn get_items<'a>(node: &'a Json, key: &str) -> (r: Option<&'a Vec<Json>>)
    ensures
        r is Some <==> items_at(*node, key@) is Some,
        r matches Some(v) ==> items_at(*node, key@) == Some(v@),
{
    match node.get(key) {
        Some(v) => v.as_array(),
        None => None,
    }
}

/// The result of `filter_map` with a parser that accepts the nodes `accepts` holds of and
/// turns each into a value that `yields` relates to it: one value per accepted node, in order.
pub open spec fn filter_mapped<T>(
    out: Seq<T>,
    nodes: Seq<Json>,
    accepts: spec_fn(Json) -> bool,
    yields: spec_fn(T, Json) -> bool,
) -> bool {
    let kept = nodes.filter(accepts);
    &&& out.len() == kept.len()
    &&& forall|i: int| 0 <= i < out.len() ==> #[trigger] yields(out[i], kept[i])
}

/// `nodes.iter().filter_map(parse).collect()`.
pub fn filter_map_nodes<T, F: Fn(&Json) -> Option<T>>(
    nodes: &Vec<Json>,
    parse: F,
    Ghost(accepts): Ghost<spec_fn(Json) -> bool>,
    Ghost(yields): Ghost<spec_fn(T, Json) -> bool>,
) -> (out: Vec<T>)
    requires
        forall|n: &Json| #[trigger] call_requires(parse, (n,)),
        forall|n: &Json, r: Option<T>|
            #[trigger] call_ensures(parse, (n,), r) ==> (r is Some <==> accepts(*n)) && (
            r matches Some(t) ==> yields(t, *n)),
    ensures
        filter_mapped(out@, nodes@, accepts, yields),
{
    let mut out: Vec<T> = Vec::new();
    let mut i: usize = 0;
    while i < nodes.len()
        invariant
            0 <= i <= nodes@.len(),
            forall|n: &Json| #[trigger] call_requires(parse, (n,)),
            forall|n: &Json, r: Option<T>|
                #[trigger] call_ensures(parse, (n,), r) ==> (r is Some <==> accepts(*n)) && (
                r matches Some(t) ==> yields(t, *n)),
            filter_mapped(out@, nodes@.take(i as int), accepts, yields),
        decreases nodes@.len() - i,
    {
        let ghost before = nodes@.take(i as int);
        proof {
            assert(nodes@.take(i + 1) =~= before.push(nodes@[i as int]));
            before.lemma_filter_push(nodes@[i as int], accepts);
        }
        let r = parse(&nodes[i]);
        match r {
            Some(t) => {
                out.push(t);
            },
            None => {},
        }
        i = i + 1;
    }
    assert(nodes@.take(nodes@.len() as int) =~= nodes@);
    out
}

} // verus!

verus! {

#[verifier::external_type_specification]
#[verifier::external_body]
pub struct ExValue(serde_json::Value);

/// What `serde_json::from_str` makes of a text, as this library's `Json`, or the message of
/// the parser's error.
pub uninterp spec fn parsed_json(text: Seq<char>) -> Result<Json, Seq<char>>;

/// `serde_json::from_str` into a `serde_json::Value`, turned into `Json` value for value; on
/// a parse error, the error's message. The result is only named (`parsed_json`): the JSON
/// grammar is `serde_json`'s.
#[verifier::external_body]
pub(crate) fn parse_json(text: &str) -> (r: Result<Json, String>)
    ensures
        match r {
            Ok(j) => parsed_json(text@) == Ok::<Json, Seq<char>>(j),
            Err(e) => parsed_json(text@) == Err::<Json, Seq<char>>(e@),
        },
{
    serde_json::from_str::<serde_json::Value>(text).map(|v| json_of(&v)).map_err(|e| e.to_string())
}

/// A `serde_json::Value` as a `Json`, variant for variant; a number as its `as_u64`. It only
/// converts the result of `parse_json`.
#[verifier::external_body]
fn json_of(value: &serde_json::Value) -> Json {
    match value {
        serde_json::Value::Null => Json::Null,
        serde_json::Value::Bool(b) => Json::Bool(*b),
        serde_json::Value::Number(n) => Json::Number(n.as_u64()),
        serde_json::Value::String(s) => Json::Text(s.clone()),
        serde_json::Value::Array(items) => Json::Array(items.iter().map(json_of).collect()),
        serde_json::Value::Object(map) => {
            Json::Object(map.iter().map(|(k, v)| (k.clone(), json_of(v))).collect())
        },
    }
}

} // verus!
