//! A JSON tree, and the pruning of its long arrays.

use vstd::prelude::*;

use crate::text::{decimal, decimal_chars, string_of};

verus! {

/// `serde_json::Number`, a JSON number; it is carried through unread.
#[verifier::external_type_specification]
#[verifier::external_body]
pub struct ExNumber(serde_json::Number);

/// A JSON document held as a tree.
#[derive(Debug, PartialEq)]
pub enum JsonValue {
    Null,
    Bool(bool),
    Number(serde_json::Number),
    String(String),
    Array(Vec<JsonValue>),
    Object(Vec<JsonEntry>),
}

/// One member of a JSON object.
#[derive(Debug, PartialEq)]
pub struct JsonEntry {
    pub key: String,
    pub value: JsonValue,
}

/// The mathematical value of a [`JsonValue`].
pub enum JsonTree {
    Null,
    Bool(bool),
    Number(serde_json::Number),
    String(Seq<char>),
    Array(Seq<JsonTree>),
    Object(Seq<JsonMember>),
}

/// The mathematical value of a [`JsonEntry`].
pub struct JsonMember {
    pub key: Seq<char>,
    pub value: JsonTree,
}

impl View for JsonValue {
    type V = JsonTree;

    // The bounds on `i` inside the closures are what shows that the
    // recursion goes to a part of `self`.
    open spec fn view(&self) -> JsonTree
        decreases self,
    {
        match self {
            JsonValue::Null => JsonTree::Null,
            JsonValue::Bool(b) => JsonTree::Bool(*b),
            JsonValue::Number(n) => JsonTree::Number(*n),
            JsonValue::String(s) => JsonTree::String(s@),
            JsonValue::Array(items) => JsonTree::Array(
                Seq::new(
                    items@.len(),
                    |i: int|
                        if 0 <= i < items@.len() {
                            items@[i]@
                        } else {
                            JsonTree::Null
                        },
                ),
            ),
            JsonValue::Object(entries) => JsonTree::Object(
                Seq::new(
                    entries@.len(),
                    |i: int|
                        if 0 <= i < entries@.len() {
                            JsonMember { key: entries@[i].key@, value: entries@[i].value@ }
                        } else {
                            JsonMember { key: Seq::empty(), value: JsonTree::Null }
                        },
                ),
            ),
        }
    }
}

/// The tree in which every array of `t` longer than `max_items` keeps its
/// first `max_items` elements, followed by one marker that counts the rest.
/// What an array keeps and what an object holds is pruned in turn; a scalar
/// stays as it is.
pub open spec fn pruned(t: JsonTree, max_items: nat) -> JsonTree
    decreases t,
{
    match t {
        JsonTree::Array(items) => {
            let kept = if items.len() > max_items {
                items.take(max_items as int)
            } else {
                items
            };
            let inner = Seq::new(
                kept.len(),
                |i: int|
                    if 0 <= i < kept.len() {
                        pruned(kept[i], max_items)
                    } else {
                        JsonTree::Null
                    },
            );
            if items.len() > max_items {
                let removed = (items.len() - max_items) as nat;
                JsonTree::Array(inner.push(JsonTree::String(truncation_marker(removed))))
            } else {
                JsonTree::Array(inner)
            }
        },
        JsonTree::Object(entries) => JsonTree::Object(
            Seq::new(
                entries.len(),
                |i: int|
                    if 0 <= i < entries.len() {
                        JsonMember {
                            key: entries[i].key,
                            value: pruned(entries[i].value, max_items),
                        }
                    } else {
                        JsonMember { key: Seq::empty(), value: JsonTree::Null }
                    },
            ),
        ),
        _ => t,
    }
}

/// The text of the element that stands for `removed` dropped array elements.
pub open spec fn truncation_marker(removed: nat) -> Seq<char> {
    "... (truncated "@ + decimal(removed) + " items) ..."@
}

/// An array with more than `max_items` elements is pruned to exactly
/// `max_items + 1`: its first `max_items`, each pruned in turn, and last the
/// marker that names how many were removed.
pub proof fn lemma_long_array_pruned(items: Seq<JsonTree>, max_items: nat)
    requires
        items.len() > max_items,
    ensures
        pruned(JsonTree::Array(items), max_items) is Array,
        pruned(JsonTree::Array(items), max_items)->Array_0.len() == max_items + 1,
        pruned(JsonTree::Array(items), max_items)->Array_0.last() == JsonTree::String(
            truncation_marker((items.len() - max_items) as nat),
        ),
        forall|i: int|
            0 <= i < max_items ==> #[trigger] pruned(JsonTree::Array(items), max_items)->Array_0[i]
                == pruned(items[i], max_items),
{
}

/// An array with at most `max_items` elements keeps its length; each
/// element is pruned in turn.
pub proof fn lemma_short_array_pruned(items: Seq<JsonTree>, max_items: nat)
    requires
        items.len() <= max_items,
    ensures
        pruned(JsonTree::Array(items), max_items) is Array,
        pruned(JsonTree::Array(items), max_items)->Array_0.len() == items.len(),
        forall|i: int|
            0 <= i < items.len() ==> #[trigger] pruned(
                JsonTree::Array(items),
                max_items,
            )->Array_0[i] == pruned(items[i], max_items),
{
}

/// Pruning an object drops no member and changes no key: the members stay
/// in their order, each value pruned in turn.
pub proof fn lemma_object_keys_kept(entries: Seq<JsonMember>, max_items: nat)
    ensures
        pruned(JsonTree::Object(entries), max_items) is Object,
        pruned(JsonTree::Object(entries), max_items)->Object_0.len() == entries.len(),
        forall|i: int|
            0 <= i < entries.len() ==> (#[trigger] pruned(
                JsonTree::Object(entries),
                max_items,
            )->Object_0[i]) == (JsonMember {
                key: entries[i].key,
                value: pruned(entries[i].value, max_items),
            }),
{
}

/// Pruning leaves a scalar as it is.
pub proof fn lemma_scalar_pruned(t: JsonTree, max_items: nat)
    requires
        !(t is Array),
        !(t is Object),
    ensures
        pruned(t, max_items) == t,
{
}

fn marker_text(removed: usize) -> (out: String)
    ensures
        out@ == truncation_marker(removed as nat),
{
    let mut out = String::from_str("... (truncated ");
    let digits = string_of(&decimal_chars(removed));
    out.append(digits.as_str());
    out.append(" items) ...");
    out
}

fn pruned_value(v: JsonValue, max_items: usize) -> (out: JsonValue)
    ensures
        out@ == pruned(v@, max_items as nat),
    decreases v,
{
    match v {
        JsonValue::Array(items) => {
            let total = items.len();
            let mut kept: Vec<JsonValue> = Vec::new();
            let ghost before = items@;
            for item in it: items.into_iter()
                invariant
                    it.seq() == before,
                    before.len() == total,
                    kept@.len() == if it.index() <= max_items {
                        it.index() as int
                    } else {
                        max_items as int
                    },
                    forall|i: int|
                        0 <= i < kept@.len() ==> (#[trigger] kept@[i])@ == pruned(
                            before[i]@,
                            max_items as nat,
                        ),
                    forall|i: int|
                        0 <= i < before.len() ==> decreases_to!(v => #[trigger] before[i]),
            {
                if kept.len() < max_items {
                    kept.push(pruned_value(item, max_items));
                }
            }
            if total > max_items {
                kept.push(JsonValue::String(marker_text(total - max_items)));
            }
            let out = JsonValue::Array(kept);
            proof {
                let source = v@->Array_0;
                let target = pruned(v@, max_items as nat)->Array_0;
                assert(source.len() == before.len());
                assert forall|i: int| 0 <= i < kept@.len() implies (#[trigger] kept@[i])@
                    == target[i] by {
                    if i < max_items && i < total {
                        assert(source[i] == before[i]@);
                    }
                }
                assert(out@->Array_0 =~= target);
            }
            out
        },
        JsonValue::Object(entries) => {
            let mut mapped: Vec<JsonEntry> = Vec::new();
            let ghost before = entries@;
            for entry in it: entries.into_iter()
                invariant
                    it.seq() == before,
                    mapped@.len() == it.index(),
                    forall|i: int|
                        0 <= i < mapped@.len() ==> (#[trigger] mapped@[i]).key@ == before[i].key@
                            && mapped@[i].value@ == pruned(before[i].value@, max_items as nat),
                    forall|i: int|
                        0 <= i < before.len() ==> decreases_to!(v => #[trigger] before[i]),
            {
                let JsonEntry { key, value } = entry;
                mapped.push(JsonEntry { key, value: pruned_value(value, max_items) });
            }
            let out = JsonValue::Object(mapped);
            proof {
                let source = v@->Object_0;
                let target = pruned(v@, max_items as nat)->Object_0;
                assert(source.len() == before.len());
                assert forall|i: int| 0 <= i < mapped@.len() implies (JsonMember {
                    key: (#[trigger] mapped@[i]).key@,
                    value: mapped@[i].value@,
                }) == target[i] by {
                    assert(source[i].key == before[i].key@);
                }
                assert(out@->Object_0 =~= target);
            }
            out
        },
        other => other,
    }
}

/// Prunes `v` in place: every array with more than `max_items` elements is
/// cut to its first `max_items`, then one marker element naming the number
/// removed; arrays and objects below are pruned in turn, scalars are left.
pub fn prune_json_recursively(v: &mut JsonValue, max_items: usize)
    ensures
        final(v)@ == pruned(old(v)@, max_items as nat),
{
    let mut taken = JsonValue::Null;
    std::mem::swap(v, &mut taken);
    *v = pruned_value(taken, max_items);
}

/// The value of the last member of `entries` with the key `key`.
pub open spec fn lookup(entries: Seq<JsonMember>, key: Seq<char>) -> Option<JsonTree>
    decreases entries.len(),
{
    if entries.len() == 0 {
        None
    } else if entries.last().key == key {
        Some(entries.last().value)
    } else {
        lookup(entries.drop_last(), key)
    }
}

/// The member `key` of an object; `Null` where `tree` is no object or has
/// no such member.
pub open spec fn field(tree: JsonTree, key: Seq<char>) -> JsonTree {
    match tree {
        JsonTree::Object(entries) => match lookup(entries, key) {
            Some(value) => value,
            None => JsonTree::Null,
        },
        _ => JsonTree::Null,
    }
}

/// The element `i` of an array; `Null` where `tree` is no array or is
/// shorter.
pub open spec fn item(tree: JsonTree, i: nat) -> JsonTree {
    match tree {
        JsonTree::Array(items) => if i < items.len() {
            items[i as int]
        } else {
            JsonTree::Null
        },
        _ => JsonTree::Null,
    }
}

impl JsonValue {
    /// The member `key` of this object, where it is one and has that member.
    pub fn get_field(&self, key: &str) -> (r: Option<&JsonValue>)
        ensures
            match r {
                Some(found) => field(self@, key@) == found@,
                None => field(self@, key@) == JsonTree::Null,
            },
    {
        match self {
            JsonValue::Object(entries) => {
                let wanted = String::from_str(key);
                let ghost members = self@->Object_0;
                let mut i: usize = entries.len();
                assert(members.take(i as int) =~= members);
                while i > 0
                    invariant
                        i <= entries.len(),
                        wanted@ == key@,
                        self@ == JsonTree::Object(members),
                        members.len() == entries@.len(),
                        forall|j: int|
                            0 <= j < entries@.len() ==> (#[trigger] members[j]) == (JsonMember {
                                key: entries@[j].key@,
                                value: entries@[j].value@,
                            }),
                        lookup(members, key@) == lookup(members.take(i as int), key@),
                    decreases i,
                {
                    i = i - 1;
                    proof {
                        let upto = members.take(i + 1);
                        assert(upto.last() == members[i as int]);
                        assert(upto.drop_last() =~= members.take(i as int));
                    }
                    if entries[i].key == wanted {
                        proof {
                            let upto = members.take(i + 1);
                            assert(upto.last().key == key@);
                            assert(lookup(upto, key@) == Some(upto.last().value));
                        }
                        return Some(&entries[i].value);
                    }
                }
                None
            },
            _ => None,
        }
    }

    /// The element `i` of this array, where it is one and is long enough.
    pub fn get_item(&self, i: usize) -> (r: Option<&JsonValue>)
        ensures
            match r {
                Some(found) => item(self@, i as nat) == found@,
                None => item(self@, i as nat) == JsonTree::Null,
            },
    {
        match self {
            JsonValue::Array(items) => {
                if i < items.len() {
                    Some(&items[i])
                } else {
                    None
                }
            },
            _ => None,
        }
    }
}

/// `serde_json::Value`, the tree that `serde_json` parses to and writes from.
#[verifier::external_type_specification]
#[verifier::external_body]
pub struct ExValue(serde_json::Value);

/// What `serde_json::from_str` makes of a text read as a `serde_json::Value`:
/// the tree it parses to, or `None` where it reports an error.
pub uninterp spec fn parsed_json(text: Seq<char>) -> Option<JsonTree>;

/// The compact text that `serde_json` writes for a tree.
pub uninterp spec fn rendered_json(tree: JsonTree) -> Seq<char>;

/// Moves a `serde_json::Value` into a [`JsonValue`], variant by variant;
/// object members come in the order in which the map hands them out. Nothing
/// is claimed of it here: `parse_json` uses it and states the whole.
#[verifier::external_body]
fn value_into_json(value: serde_json::Value) -> JsonValue {
    match value {
        serde_json::Value::Null => JsonValue::Null,
        serde_json::Value::Bool(b) => JsonValue::Bool(b),
        serde_json::Value::Number(n) => JsonValue::Number(n),
        serde_json::Value::String(s) => JsonValue::String(s),
        serde_json::Value::Array(items) => JsonValue::Array(
            items.into_iter().map(value_into_json).collect(),
        ),
        serde_json::Value::Object(map) => JsonValue::Object(
            map.into_iter().map(|(k, v)| JsonEntry { key: k, value: value_into_json(v) }).collect(),
        ),
    }
}

/// Copies a [`JsonValue`] into a `serde_json::Value`, variant by variant; of
/// members with one key the map keeps the last. Nothing is claimed of it
/// here: `render_json` uses it and states the whole.
#[verifier::external_body]
fn json_into_value(value: &JsonValue) -> serde_json::Value {
    match value {
        JsonValue::Null => serde_json::Value::Null,
        JsonValue::Bool(b) => serde_json::Value::Bool(*b),
        JsonValue::Number(n) => serde_json::Value::Number(n.clone()),
        JsonValue::String(s) => serde_json::Value::String(s.clone()),
        JsonValue::Array(items) => serde_json::Value::Array(
            items.iter().map(json_into_value).collect(),
        ),
        JsonValue::Object(entries) => serde_json::Value::Object(
            entries.iter().map(|e| (e.key.clone(), json_into_value(&e.value))).collect(),
        ),
    }
}

/// Calls `serde_json::from_str` for a `serde_json::Value` and moves what it
/// gives into a [`JsonValue`]; `None` stands for the parser's error. Taken on
/// trust: what comes back depends on the text alone, so that it has the name
/// `parsed_json`.
#[verifier::external_body]
pub(crate) fn parse_json(text: &str) -> (r: Option<JsonValue>)
    ensures
        r is Some <==> parsed_json(text@) is Some,
        r matches Some(v) ==> parsed_json(text@) == Some(v@),
{
    serde_json::from_str::<serde_json::Value>(text).ok().map(value_into_json)
}

/// Copies `value` into a `serde_json::Value` and calls `to_string` on it,
/// which writes compact JSON. Taken on trust: the text depends on the tree
/// alone, so that it has the name `rendered_json`.
#[verifier::external_body]
pub(crate) fn render_json(value: &JsonValue) -> (r: String)
    ensures
        r@ == rendered_json(value@),
{
    json_into_value(value).to_string()
}

} // verus!
