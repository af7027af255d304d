//! JSON values as plain data.
//!
//! `serde_json` reads the text and writes it back; what it read is held in
//! [`Json`], which the rest of the library looks into.

use vstd::prelude::*;

use crate::text::{same, text_le};

pub mod laws;

verus! {

/// A JSON value of the `serde_json` crate.
#[verifier::external_type_specification]
#[verifier::external_body]
pub struct ExternalValue(serde_json::Value);

/// What can be read from a JSON number: its value as a signed and as an
/// unsigned integer, where it is one, and the bit pattern of its value as a
/// double.
#[derive(Clone, Copy, Debug, PartialEq, Eq, Structural)]
pub struct JsonNumber {
    pub int: Option<i64>,
    pub uint: Option<u64>,
    pub bits: Option<u64>,
}

/// A JSON value as a mathematical tree.
pub enum Tree {
    Null,
    Bool(bool),
    Number(JsonNumber),
    Text(Seq<char>),
    Array(Seq<Tree>),
    Object(Seq<(Seq<char>, Tree)>),
}

impl Tree {
    /// The value stored under `key`, if this is an object that has the key.
    pub open spec fn get(self, key: Seq<char>) -> Option<Tree> {
        match self {
            Tree::Object(fields) => lookup(fields, key),
            _ => None,
        }
    }

    pub open spec fn as_str(self) -> Option<Seq<char>> {
        match self {
            Tree::Text(s) => Some(s),
            _ => None,
        }
    }

    pub open spec fn as_i64(self) -> Option<i64> {
        match self {
            Tree::Number(n) => n.int,
            _ => None,
        }
    }

    pub open spec fn as_u64(self) -> Option<u64> {
        match self {
            Tree::Number(n) => n.uint,
            _ => None,
        }
    }

    /// The bit pattern of the number as a double.
    pub open spec fn as_bits(self) -> Option<u64> {
        match self {
            Tree::Number(n) => n.bits,
            _ => None,
        }
    }

    pub open spec fn as_array(self) -> Option<Seq<Tree>> {
        match self {
            Tree::Array(items) => Some(items),
            _ => None,
        }
    }

    /// The string stored under `key`.
    pub open spec fn get_str(self, key: Seq<char>) -> Option<Seq<char>> {
        match self.get(key) {
            Some(v) => v.as_str(),
            None => None,
        }
    }

    /// The signed integer stored under `key`.
    pub open spec fn get_i64(self, key: Seq<char>) -> Option<i64> {
        match self.get(key) {
            Some(v) => v.as_i64(),
            None => None,
        }
    }
}

/// The value of the first field named `key`.
pub open spec fn lookup(fields: Seq<(Seq<char>, Tree)>, key: Seq<char>) -> Option<Tree>
    decreases fields.len(),
{
    if fields.len() == 0 {
        None
    } else if fields[0].0 == key {
        Some(fields[0].1)
    } else {
        lookup(fields.drop_first(), key)
    }
}

/// What a `serde_json::Value` holds.
pub uninterp spec fn value_tree(value: serde_json::Value) -> Tree;

/// The outcome of reading a text as JSON: the value, or the message of the error.
pub uninterp spec fn json_parsed(text: Seq<char>) -> Result<Tree, Seq<char>>;

/// The compact JSON text of a value.
pub uninterp spec fn json_text(tree: Tree) -> Seq<char>;

/// The outermost layer of a JSON value, with the values inside it untouched.
enum Layer {
    Null,
    Bool(bool),
    Number(JsonNumber),
    Text(String),
    Array(Vec<serde_json::Value>),
    Object(Vec<(String, serde_json::Value)>),
}

/// The tree whose outermost layer is `layer`.
spec fn layer_tree(layer: Layer) -> Tree {
    match layer {
        Layer::Null => Tree::Null,
        Layer::Bool(b) => Tree::Bool(b),
        Layer::Number(n) => Tree::Number(n),
        Layer::Text(s) => Tree::Text(s@),
        Layer::Array(items) => Tree::Array(items@.map_values(|v: serde_json::Value| value_tree(v))),
        Layer::Object(fields) => Tree::Object(
            fields@.map_values(|f: (String, serde_json::Value)| (f.0@, value_tree(f.1))),
        ),
    }
}

/// `serde_json::from_str` at the type `serde_json::Value`: what it returns is a
/// function of the text alone. An error is handed on as its message.
#[verifier::external_body]
fn read_value(text: &str) -> (r: Result<serde_json::Value, String>)
    ensures
        match r {
            Ok(value) => json_parsed(text@) == Ok::<Tree, Seq<char>>(value_tree(value)),
            Err(message) => json_parsed(text@) == Err::<Tree, Seq<char>>(message@),
        },
{
    serde_json::from_str::<serde_json::Value>(text).map_err(|e| e.to_string())
}

/// `serde_json::Value::to_string` (its `Display`): the compact JSON text of the
/// value, a function of what the value holds.
#[verifier::external_body]
fn write_value(value: &serde_json::Value) -> (r: String)
    ensures
        r@ == json_text(value_tree(*value)),
{
    value.to_string()
}

/// Opens one layer of a `serde_json::Value`: its variant and the variant's
/// contents, an object's fields in the order in which the map hands them out.
/// Of a number, what `Number::as_i64`, `Number::as_u64` and `Number::as_f64`
/// return.
#[verifier::external_body]
fn open_value(value: serde_json::Value) -> (r: Layer)
    ensures
        value_tree(value) == layer_tree(r),
{
    match value {
        serde_json::Value::Null => Layer::Null,
        serde_json::Value::Bool(b) => Layer::Bool(b),
        serde_json::Value::Number(n) => Layer::Number(
            JsonNumber { int: n.as_i64(), uint: n.as_u64(), bits: n.as_f64().map(|x| x.to_bits()) },
        ),
        serde_json::Value::String(s) => Layer::Text(s),
        serde_json::Value::Array(items) => Layer::Array(items),
        serde_json::Value::Object(fields) => Layer::Object(fields.into_iter().collect()),
    }
}

/// `serde_json::Value::from` on strings: the array of these strings.
#[verifier::external_body]
fn value_of_strings(items: &Vec<String>) -> (r: serde_json::Value)
    ensures
        value_tree(r) == strings_tree(items.deep_view()),
{
    serde_json::Value::from(items.clone())
}

/// An array of strings.
pub open spec fn strings_tree(items: Seq<Seq<char>>) -> Tree {
    Tree::Array(items.map_values(|s: Seq<char>| Tree::Text(s)))
}

/// Whether the names of the fields are in alphabetical order and all different.
pub open spec fn names_in_order(fields: Seq<(Seq<char>, Seq<char>)>) -> bool {
    forall|i: int, j: int|
        0 <= i < j < fields.len() ==> text_le((#[trigger] fields[i]).0, (#[trigger] fields[j]).0)
            && fields[i].0 != fields[j].0
}

/// An object whose fields are strings.
pub open spec fn fields_tree(fields: Seq<(Seq<char>, Seq<char>)>) -> Tree {
    Tree::Object(fields.map_values(|f: (Seq<char>, Seq<char>)| (f.0, Tree::Text(f.1))))
}

/// `serde_json::Value::from_iter` on named strings: the object that has these fields. The
/// object hands its fields out in alphabetical order, which is the order they are given in.
#[verifier::external_body]
fn value_of_fields(fields: Vec<(String, String)>) -> (r: serde_json::Value)
    requires
        names_in_order(fields.deep_view()),
    ensures
        value_tree(r) == fields_tree(fields.deep_view()),
{
    serde_json::Value::from_iter(fields)
}

/// The compact JSON text of an object whose fields are strings.
pub fn fields_text(fields: Vec<(String, String)>) -> (r: String)
    requires
        names_in_order(fields.deep_view()),
    ensures
        r@ == json_text(fields_tree(fields.deep_view())),
{
    write_value(&value_of_fields(fields))
}

/// The compact JSON text of an array of strings.
pub fn strings_text(items: &Vec<String>) -> (r: String)
    ensures
        r@ == json_text(strings_tree(items.deep_view())),
{
    write_value(&value_of_strings(items))
}

impl DeepView for Json {
    type V = Tree;

    open spec fn deep_view(&self) -> Tree {
        self.tree()
    }
}

/// A JSON value, each part of it with its compact text.
#[derive(Debug)]
pub struct Json {
    text: String,
    node: Node,
}

#[derive(Debug)]
enum Node {
    Null,
    Bool(bool),
    Number(JsonNumber),
    Text(String),
    Array(Vec<Json>),
    Object(Vec<(String, Json)>),
}

impl Json {
    /// The tree that this value stands for.
    pub closed spec fn tree(self) -> Tree
        decreases self,
    {
        match self.node {
            Node::Null => Tree::Null,
            Node::Bool(b) => Tree::Bool(b),
            Node::Number(n) => Tree::Number(n),
            Node::Text(s) => Tree::Text(s@),
            Node::Array(items) => Tree::Array(
                Seq::new(
                    items@.len(),
                    |i: int|
                        if 0 <= i < items@.len() {
                            items@[i].tree()
                        } else {
                            Tree::Null
                        },
                ),
            ),
            Node::Object(fields) => Tree::Object(
                Seq::new(
                    fields@.len(),
                    |i: int|
                        if 0 <= i < fields@.len() {
                            (fields@[i].0@, fields@[i].1.tree())
                        } else {
                            (Seq::<char>::empty(), Tree::Null)
                        },
                ),
            ),
        }
    }

    #[verifier::type_invariant]
    spec fn text_is_rendering(self) -> bool {
        self.text@ == json_text(self.tree())
    }

    /// Reads a text as JSON. The error is the reader's message.
    pub fn parse(text: &str) -> (r: Result<Json, String>)
        ensures
            match r {
                Ok(json) => json_parsed(text@) == Ok::<Tree, Seq<char>>(json.tree()),
                Err(message) => json_parsed(text@) == Err::<Tree, Seq<char>>(message@),
            },
    {
        match read_value(text) {
            Ok(value) => Ok(Json::of(value)),
            Err(message) => Err(message),
        }
    }

    /// Takes over what a `serde_json::Value` holds.
    pub fn of(value: serde_json::Value) -> (r: Json)
        ensures
            r.tree() == value_tree(value),
        decreases value_tree(value),
    {
        let text = write_value(&value);
        let ghost tree = value_tree(value);
        match open_value(value) {
            Layer::Null => Json { text, node: Node::Null },
            Layer::Bool(b) => Json { text, node: Node::Bool(b) },
            Layer::Number(n) => Json { text, node: Node::Number(n) },
            Layer::Text(s) => Json { text, node: Node::Text(s) },
            Layer::Array(items) => {
                let ghost trees = items@.map_values(|v: serde_json::Value| value_tree(v));
                assert(tree == Tree::Array(trees));
                let mut out: Vec<Json> = Vec::new();
                for item in it: items
                    invariant
                        it.seq() == items@,
                        tree == value_tree(value),
                        tree == Tree::Array(trees),
                        trees == items@.map_values(|v: serde_json::Value| value_tree(v)),
                        out@.len() == it.index(),
                        forall|i: int| 0 <= i < out@.len() ==> (#[trigger] out@[i]).tree() == trees[i],
                {
                    assert(item == items@[it.index() as int]);
                    assert(value_tree(item) == trees[it.index() as int]);
                    assert(decreases_to!(tree => tree->Array_0));
                    assert(decreases_to!(trees => trees[it.index() as int]));
                    out.push(Json::of(item));
                }
                let node = Node::Array(out);
                proof {
                    let probe = Json { text, node };
                    assert(probe.tree()->Array_0 =~= trees);
                }
                Json { text, node }
            },
            Layer::Object(fields) => {
                let ghost trees = fields@.map_values(
                    |f: (String, serde_json::Value)| (f.0@, value_tree(f.1)),
                );
                assert(tree == Tree::Object(trees));
                let mut out: Vec<(String, Json)> = Vec::new();
                for field in it: fields
                    invariant
                        it.seq() == fields@,
                        tree == value_tree(value),
                        tree == Tree::Object(trees),
                        trees == fields@.map_values(
                            |f: (String, serde_json::Value)| (f.0@, value_tree(f.1)),
                        ),
                        out@.len() == it.index(),
                        forall|i: int|
                            0 <= i < out@.len() ==> (#[trigger] out@[i]).0@ == trees[i].0
                                && out@[i].1.tree() == trees[i].1,
                {
                    assert(field == fields@[it.index() as int]);
                    assert(trees[it.index() as int] == (field.0@, value_tree(field.1)));
                    assert(decreases_to!(tree => tree->Object_0));
                    assert(decreases_to!(trees => trees[it.index() as int]));
                    assert(decreases_to!(trees[it.index() as int] => trees[it.index() as int].1));
                    out.push((field.0, Json::of(field.1)));
                }
                let node = Node::Object(out);
                proof {
                    let probe = Json { text, node };
                    assert(probe.tree()->Object_0 =~= trees);
                }
                Json { text, node }
            },
        }
    }

    /// The value stored under `key`, if this is an object that has the key.
    pub fn get(&self, key: &str) -> (r: Option<&Json>)
        ensures
            match r {
                Some(v) => self.tree().get(key@) == Some(v.tree()),
                None => self.tree().get(key@) is None,
            },
    {
        match &self.node {
            Node::Object(fields) => {
                let ghost trees = self.tree()->Object_0;
                let mut i: usize = 0;
                assert(trees.skip(0) =~= trees);
                while i < fields.len()
                    invariant
                        i <= fields@.len(),
                        self.tree() == Tree::Object(trees),
                        trees.len() == fields@.len(),
                        forall|j: int|
                            0 <= j < fields@.len() ==> trees[j] == (
                                (#[trigger] fields@[j]).0@,
                                fields@[j].1.tree(),
                            ),
                        lookup(trees, key@) == lookup(trees.skip(i as int), key@),
                    decreases fields@.len() - i,
                {
                    if same(fields[i].0.as_str(), key) {
                        return Some(&fields[i].1);
                    }
                    assert(trees.skip(i as int).drop_first() =~= trees.skip(i as int + 1));
                    i = i + 1;
                }
                None
            },
            _ => None,
        }
    }

    /// The string, if this is one.
    pub fn as_str(&self) -> (r: Option<&str>)
        ensures
            r.deep_view() == self.tree().as_str(),
    {
        match &self.node {
            Node::Text(s) => Some(s.as_str()),
            _ => None,
        }
    }

    /// The value as a signed integer, if it is a number that is one.
    pub fn as_i64(&self) -> (r: Option<i64>)
        ensures
            r == self.tree().as_i64(),
    {
        match &self.node {
            Node::Number(n) => n.int,
            _ => None,
        }
    }

    /// The value as an unsigned integer, if it is a number that is one.
    pub fn as_u64(&self) -> (r: Option<u64>)
        ensures
            r == self.tree().as_u64(),
    {
        match &self.node {
            Node::Number(n) => n.uint,
            _ => None,
        }
    }

    /// The bit pattern of the value as a double, if this is a number.
    pub fn as_bits(&self) -> (r: Option<u64>)
        ensures
            r == self.tree().as_bits(),
    {
        match &self.node {
            Node::Number(n) => n.bits,
            _ => None,
        }
    }

    /// The items, if this is an array.
    pub fn as_array(&self) -> (r: Option<&Vec<Json>>)
        ensures
            r.deep_view() == self.tree().as_array(),
    {
        match &self.node {
            Node::Array(items) => {
                proof {
                    assert(items.deep_view() =~= self.tree()->Array_0);
                }
                Some(items)
            },
            _ => None,
        }
    }

    pub fn is_object(&self) -> (r: bool)
        ensures
            r == (self.tree() is Object),
    {
        match &self.node {
            Node::Object(_) => true,
            _ => false,
        }
    }

    pub fn is_null(&self) -> (r: bool)
        ensures
            r == (self.tree() is Null),
    {
        match &self.node {
            Node::Null => true,
            _ => false,
        }
    }

    /// The string stored under `key`.
    pub fn get_str(&self, key: &str) -> (r: Option<&str>)
        ensures
            r.deep_view() == self.tree().get_str(key@),
    {
        match self.get(key) {
            Some(v) => v.as_str(),
            None => None,
        }
    }

    /// The signed integer stored under `key`.
    pub fn get_i64(&self, key: &str) -> (r: Option<i64>)
        ensures
            r == self.tree().get_i64(key@),
    {
        match self.get(key) {
            Some(v) => v.as_i64(),
            None => None,
        }
    }

    /// The compact JSON text of this value.
    pub fn text(&self) -> (r: &str)
        ensures
            r@ == json_text(self.tree()),
    {
        proof {
            use_type_invariant(self);
        }
        self.text.as_str()
    }
}

}
