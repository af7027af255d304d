//! What holds of JSON values.

use vstd::prelude::*;

use super::{fields_tree, lookup, strings_tree, JsonNumber, Tree};

verus! {

/// What an object has under a key is the value of the first field of that name; it has nothing
/// where no field has that name, and neither has any other value.
pub proof fn law_fields_are_found(fields: Seq<(Seq<char>, Tree)>, key: Seq<char>)
    ensures
        match Tree::Object(fields).get(key) {
            Some(v) => exists|i: int|
                0 <= i < fields.len() && #[trigger] fields[i] == (key, v) && forall|j: int|
                    0 <= j < i ==> (#[trigger] fields[j]).0 != key,
            None => forall|j: int| 0 <= j < fields.len() ==> (#[trigger] fields[j]).0 != key,
        },
    decreases fields.len(),
{
    if fields.len() > 0 {
        if fields[0].0 == key {
            assert(fields[0] == (key, fields[0].1));
        } else {
            let rest = fields.drop_first();
            law_fields_are_found(rest, key);
            match lookup(rest, key) {
                Some(v) => {
                    let i = choose|i: int|
                        0 <= i < rest.len() && #[trigger] rest[i] == (key, v) && forall|j: int|
                            0 <= j < i ==> (#[trigger] rest[j]).0 != key;
                    assert(fields[i + 1] == (key, v));
                    assert forall|j: int| 0 <= j < i + 1 implies (#[trigger] fields[j]).0
                        != key by {
                        if j > 0 {
                            assert(fields[j] == rest[j - 1]);
                        }
                    }
                },
                None => {
                    assert forall|j: int| 0 <= j < fields.len() implies (#[trigger] fields[j]).0
                        != key by {
                        if j > 0 {
                            assert(fields[j] == rest[j - 1]);
                        }
                    }
                },
            }
        }
    }
}

/// A value is read as what it is, and as nothing else.
pub proof fn law_values_are_what_they_are(
    s: Seq<char>,
    n: JsonNumber,
    items: Seq<Tree>,
    v: Tree,
    key: Seq<char>,
)
    ensures
        Tree::Text(s).as_str() == Some(s),
        Tree::Number(n).as_i64() == n.int,
        Tree::Number(n).as_u64() == n.uint,
        Tree::Number(n).as_bits() == n.bits,
        Tree::Array(items).as_array() == Some(items),
        v.as_str() is Some ==> v is Text,
        v.as_i64() is Some || v.as_u64() is Some || v.as_bits() is Some ==> v is Number,
        v.as_array() is Some ==> v is Array,
        v.get(key) is Some ==> v is Object,
        v.get_str(key) == (match v.get(key) {
            Some(Tree::Text(s)) => Some(s),
            _ => None,
        }),
        v.get_i64(key) == (match v.get(key) {
            Some(Tree::Number(n)) => n.int,
            _ => None,
        }),
{
}

/// A list of texts and an object of texts hold these, in order.
pub proof fn law_texts_as_json(
    items: Seq<Seq<char>>,
    fields: Seq<(Seq<char>, Seq<char>)>,
    i: int,
)
    ensures
        strings_tree(items) is Array && strings_tree(items)->Array_0.len() == items.len(),
        0 <= i < items.len() ==> strings_tree(items)->Array_0[i] == Tree::Text(items[i]),
        fields_tree(fields) is Object && fields_tree(fields)->Object_0.len() == fields.len(),
        0 <= i < fields.len() ==> fields_tree(fields)->Object_0[i] == (
            fields[i].0,
            Tree::Text(fields[i].1),
        ),
{
}

}
