//! JSON text: reading it into values and writing values out, done by `serde_json`.
use crate::json::{
    entries_tree, lemma_array_tree, no_fields, number_tree, trees, Json, JsonTree, NumberTree,
};
use crate::plain::{is_plain, plain_text, plain_tree, PlainValue};
use vstd::prelude::*;
use vstd::utf8::{decode_utf8, valid_utf8};

verus! {

/// `serde_json::Value`, carried without looking inside; `value_tree` says what it holds.
#[verifier::external_type_specification]
#[verifier::external_body]
pub struct ExValue(serde_json::Value);

/// What a `serde_json::Value` holds.
pub uninterp spec fn value_tree(v: serde_json::Value) -> JsonTree;

/// What `serde_json::from_str::<Value>` makes of a text: the value, or the text of its error.
pub uninterp spec fn json_parse(text: Seq<char>) -> Result<JsonTree, Seq<char>>;

/// What `serde_json::from_slice::<Value>` makes of bytes: the value, or the text of its error.
pub uninterp spec fn json_parse_bytes(bytes: Seq<u8>) -> Result<JsonTree, Seq<char>>;

/// The compact text that `serde_json::Value` displays as.
pub uninterp spec fn json_text(tree: JsonTree) -> Seq<char>;

/// The indented text that `serde_json::to_vec_pretty` writes.
pub uninterp spec fn json_pretty(tree: JsonTree) -> Seq<u8>;

/// The outcome of reading a value.
pub open spec fn parsed(tree: JsonTree) -> Result<JsonTree, Seq<char>> {
    Ok(tree)
}

/// The outcome of failing to read a value, with the text of the error.
pub open spec fn unparsed(error: Seq<char>) -> Result<JsonTree, Seq<char>> {
    Err(error)
}

/// Whether an outcome is what reading a text gives where the text is an object of texts, or of
/// objects of texts, that was put together by hand: the object that it writes.
pub open spec fn reads_plain(text: Seq<char>, outcome: Result<JsonTree, Seq<char>>) -> bool {
    forall|fields: Seq<(Seq<char>, PlainValue)>| #[trigger]
        plain_text(fields) == text && is_plain(fields) ==> outcome == parsed(
            JsonTree::Object(plain_tree(fields)),
        )
}

/// Whether an outcome is that of reading a text.
pub open spec fn is_reading(text: Seq<char>, outcome: Result<JsonTree, Seq<char>>) -> bool {
    json_parse(text) == outcome && reads_plain(text, outcome)
}

/// The deepest nesting that `serde_json` reads.
pub open spec fn depth_limit() -> nat {
    127
}

/// Whether `t` holds no number but integers and nests at most `depth` arrays and objects.
pub open spec fn nests_within(t: JsonTree, depth: nat) -> bool
    decreases depth,
{
    match t {
        JsonTree::Number(NumberTree::Float(_)) => false,
        JsonTree::Array(items) => depth > 0 && forall|i: int|
            0 <= i < items.len() ==> nests_within(#[trigger] items[i], (depth - 1) as nat),
        JsonTree::Object(fields) => depth > 0 && forall|k: Seq<char>|
            fields.contains_key(k) ==> nests_within(#[trigger] fields[k], (depth - 1) as nat),
        _ => true,
    }
}

/// Whether the text of `t` is sure to be read back as `t`: a double may lose its last bit on the
/// way, and deeper nesting is refused.
pub open spec fn reads_back(t: JsonTree) -> bool {
    nests_within(t, depth_limit())
}

/// The outermost layer of a `serde_json::Value`.
enum Parts<'a> {
    Null,
    Bool(bool),
    Number(&'a serde_json::Number),
    Str(&'a String),
    Array(&'a Vec<serde_json::Value>),
    Object(Vec<(&'a String, &'a serde_json::Value)>),
}

/// The object that a list of borrowed entries makes.
spec fn borrowed_tree(entries: Seq<(&String, &serde_json::Value)>) -> Map<Seq<char>, JsonTree>
    decreases entries.len(),
{
    if entries.len() == 0 {
        no_fields()
    } else {
        borrowed_tree(entries.drop_last()).insert(
            entries.last().0@,
            value_tree(*entries.last().1),
        )
    }
}

/// The tree of an outermost layer.
spec fn parts_tree(p: Parts) -> JsonTree {
    match p {
        Parts::Null => JsonTree::Null,
        Parts::Bool(b) => JsonTree::Bool(b),
        Parts::Number(n) => JsonTree::Number(number_tree(*n)),
        Parts::Str(s) => JsonTree::Str(s@),
        Parts::Array(items) => JsonTree::Array(
            items@.map_values(|v: serde_json::Value| value_tree(v)),
        ),
        Parts::Object(entries) => JsonTree::Object(borrowed_tree(entries@)),
    }
}

/// The variants of `serde_json::Value`, told apart: the layer holds what the value holds, and no
/// key twice.
#[verifier::external_body]
fn take_apart(v: &serde_json::Value) -> (p: Parts<'_>)
    ensures
        parts_tree(p) == value_tree(*v),
        p matches Parts::Object(entries) ==> forall|i: int, j: int|
            0 <= i < j < entries@.len() ==> entries@[i].0@ != entries@[j].0@,
{
    match v {
        serde_json::Value::Null => Parts::Null,
        serde_json::Value::Bool(b) => Parts::Bool(*b),
        serde_json::Value::Number(n) => Parts::Number(n),
        serde_json::Value::String(s) => Parts::Str(s),
        serde_json::Value::Array(items) => Parts::Array(items),
        serde_json::Value::Object(map) => Parts::Object(map.iter().collect()),
    }
}

/// An outermost layer to build a `serde_json::Value` from.
enum Layer {
    Null,
    Bool(bool),
    Number(serde_json::Number),
    Str(String),
    Array(Vec<serde_json::Value>),
    Object(Vec<(String, serde_json::Value)>),
}

/// The object that a list of entries makes: of two entries with one key the later one counts.
spec fn owned_tree(entries: Seq<(String, serde_json::Value)>) -> Map<Seq<char>, JsonTree>
    decreases entries.len(),
{
    if entries.len() == 0 {
        no_fields()
    } else {
        owned_tree(entries.drop_last()).insert(entries.last().0@, value_tree(entries.last().1))
    }
}

/// The tree of an outermost layer.
spec fn layer_tree(l: Layer) -> JsonTree {
    match l {
        Layer::Null => JsonTree::Null,
        Layer::Bool(b) => JsonTree::Bool(b),
        Layer::Number(n) => JsonTree::Number(number_tree(n)),
        Layer::Str(s) => JsonTree::Str(s@),
        Layer::Array(items) => JsonTree::Array(
            items@.map_values(|v: serde_json::Value| value_tree(v)),
        ),
        Layer::Object(entries) => JsonTree::Object(owned_tree(entries@)),
    }
}

/// The variants of `serde_json::Value`, built: the value holds what the layer holds. An object is
/// an empty `serde_json::Map` that `Extend::extend` adds the entries to: one whose key is there
/// already is updated, so that of two entries with one key the later one stays.
#[verifier::external_body]
fn put_together(l: Layer) -> (v: serde_json::Value)
    ensures
        value_tree(v) == layer_tree(l),
{
    match l {
        Layer::Null => serde_json::Value::Null,
        Layer::Bool(b) => serde_json::Value::Bool(b),
        Layer::Number(n) => serde_json::Value::Number(n),
        Layer::Str(s) => serde_json::Value::String(s),
        Layer::Array(items) => serde_json::Value::Array(items),
        Layer::Object(entries) => {
            let mut map = serde_json::Map::new();
            map.extend(entries);
            serde_json::Value::Object(map)
        },
    }
}

/// `serde_json::from_str::<Value>`: the result is named, with the text of the error. Of JSON text
/// only this is claimed: an object of strings, or of objects of strings, without spaces, whose
/// strings hold no control character but as `\n`, `\r` or `\t`, and no quote or backslash but after
/// a backslash, is read as that object, where no key occurs twice.
#[verifier::external_body]
fn parse_value(text: &str) -> (r: Result<serde_json::Value, String>)
    ensures
        match r {
            Ok(v) => is_reading(text@, parsed(value_tree(v))),
            Err(e) => is_reading(text@, unparsed(e@)),
        },
{
    serde_json::from_str::<serde_json::Value>(text).map_err(|e| e.to_string())
}

/// `serde_json::from_slice::<Value>`: the result is named, with the text of the error.
#[verifier::external_body]
fn parse_value_bytes(bytes: &[u8]) -> (r: Result<serde_json::Value, String>)
    ensures
        match r {
            Ok(v) => json_parse_bytes(bytes@) == parsed(value_tree(v)),
            Err(e) => json_parse_bytes(bytes@) == unparsed(e@),
        },
{
    serde_json::from_slice::<serde_json::Value>(bytes).map_err(|e| e.to_string())
}

/// `serde_json::Value::to_string`: the text is named. It is read back as the same value, where the
/// value holds no double and nests no deeper than `serde_json` reads.
#[verifier::external_body]
fn value_text(v: &serde_json::Value) -> (r: String)
    ensures
        r@ == json_text(value_tree(*v)),
        reads_back(value_tree(*v)) ==> json_parse(r@) == parsed(value_tree(*v)),
{
    v.to_string()
}

/// `serde_json::to_vec_pretty`: a value can always be written. The bytes are named and are UTF-8;
/// they are read back as the same value, where the value holds no double and nests no deeper than
/// `serde_json` reads.
#[verifier::external_body]
fn value_pretty(v: &serde_json::Value) -> (r: Result<Vec<u8>, String>)
    ensures
        r is Ok,
        r->Ok_0@ == json_pretty(value_tree(*v)),
        valid_utf8(r->Ok_0@),
        reads_back(value_tree(*v)) ==> json_parse(decode_utf8(r->Ok_0@)) == parsed(
            value_tree(*v),
        ),
{
    serde_json::to_vec_pretty(v).map_err(|e| e.to_string())
}

/// With no key twice, each entry is what the object holds under its key.
proof fn lemma_borrowed_entry(entries: Seq<(&String, &serde_json::Value)>, i: int)
    requires
        0 <= i < entries.len(),
        forall|a: int, b: int| 0 <= a < b < entries.len() ==> entries[a].0@ != entries[b].0@,
    ensures
        borrowed_tree(entries).dom().finite(),
        borrowed_tree(entries).contains_key(entries[i].0@),
        borrowed_tree(entries)[entries[i].0@] == value_tree(*entries[i].1),
    decreases entries.len(),
{
    let rest = entries.drop_last();
    if i < rest.len() {
        lemma_borrowed_entry(rest, i);
        assert(entries[i].0@ != entries[entries.len() - 1].0@);
    } else if rest.len() > 0 {
        lemma_borrowed_entry(rest, 0);
    }
}

/// The value with the tree of `v`.
fn from_value(v: &serde_json::Value) -> (r: Json)
    ensures
        r.tree() == value_tree(*v),
    decreases value_tree(*v),
{
    let ghost whole = value_tree(*v);
    match take_apart(v) {
        Parts::Null => Json::Null,
        Parts::Bool(b) => Json::Bool(b),
        Parts::Number(n) => Json::Number(n.clone()),
        Parts::Str(s) => Json::Str(s.clone()),
        Parts::Array(items) => {
            let mut out: Vec<Json> = Vec::new();
            let ghost model = items@.map_values(|w: serde_json::Value| value_tree(w));
            let mut i: usize = 0;
            while i < items.len()
                invariant
                    i <= items@.len(),
                    whole == value_tree(*v),
                    whole == JsonTree::Array(model),
                    model == items@.map_values(|w: serde_json::Value| value_tree(w)),
                    trees(out@) == model.take(i as int),
                decreases items@.len() - i,
            {
                proof {
                    assert(decreases_to!(whole => whole->Array_0));
                    assert(decreases_to!(model => model[i as int]));
                }
                let c = from_value(&items[i]);
                let ghost before = trees(out@);
                out.push(c);
                proof {
                    assert(trees(out@) =~= before.push(c.tree()));
                    assert(model.take(i + 1) =~= before.push(model[i as int]));
                }
                i = i + 1;
            }
            proof {
                assert(model.take(i as int) =~= model);
                lemma_array_tree(out);
            }
            Json::Array(out)
        },
        Parts::Object(entries) => {
            let mut out: Vec<(String, Json)> = Vec::new();
            let mut i: usize = 0;
            while i < entries.len()
                invariant
                    i <= entries@.len(),
                    whole == value_tree(*v),
                    whole == JsonTree::Object(borrowed_tree(entries@)),
                    forall|a: int, b: int|
                        0 <= a < b < entries@.len() ==> entries@[a].0@ != entries@[b].0@,
                    entries_tree(out@) == borrowed_tree(entries@.take(i as int)),
                decreases entries@.len() - i,
            {
                proof {
                    lemma_borrowed_entry(entries@, i as int);
                    assert(decreases_to!(whole => whole->Object_0));
                    assert(decreases_to!(whole->Object_0 => whole->Object_0[entries@[i as int].0@]));
                }
                let value = from_value(entries[i].1);
                let ghost before = out@;
                out.push((entries[i].0.clone(), value));
                proof {
                    assert(out@.drop_last() =~= before);
                    assert(entries@.take(i + 1).drop_last() =~= entries@.take(i as int));
                }
                i = i + 1;
            }
            proof {
                assert(entries@.take(i as int) =~= entries@);
            }
            Json::Object(out)
        },
    }
}

/// The `serde_json` value with the tree of `j`.
fn to_value(j: &Json) -> (r: serde_json::Value)
    ensures
        value_tree(r) == j.tree(),
    decreases j,
{
    match j {
        Json::Null => put_together(Layer::Null),
        Json::Bool(b) => put_together(Layer::Bool(*b)),
        Json::Number(n) => put_together(Layer::Number(n.clone())),
        Json::Str(s) => put_together(Layer::Str(s.clone())),
        Json::Array(items) => {
            let mut out: Vec<serde_json::Value> = Vec::new();
            let mut i: usize = 0;
            while i < items.len()
                invariant
                    i <= items@.len(),
                    j == Json::Array(*items),
                    out@.map_values(|w: serde_json::Value| value_tree(w)) == trees(items@).take(
                        i as int,
                    ),
                decreases items@.len() - i,
            {
                proof {
                    assert(decreases_to!(j => j->Array_0));
                    assert(decreases_to!(j->Array_0 => items@));
                    assert(decreases_to!(items@ => items@[i as int]));
                }
                let c = to_value(&items[i]);
                let ghost before = out@.map_values(|w: serde_json::Value| value_tree(w));
                out.push(c);
                proof {
                    assert(out@.map_values(|w: serde_json::Value| value_tree(w)) =~= before.push(
                        value_tree(c),
                    ));
                    assert(trees(items@).take(i + 1) =~= before.push(items@[i as int].tree()));
                }
                i = i + 1;
            }
            proof {
                assert(trees(items@).take(i as int) =~= trees(items@));
                lemma_array_tree(*items);
            }
            put_together(Layer::Array(out))
        },
        Json::Object(entries) => {
            let mut out: Vec<(String, serde_json::Value)> = Vec::new();
            let mut i: usize = 0;
            while i < entries.len()
                invariant
                    i <= entries@.len(),
                    j == Json::Object(*entries),
                    owned_tree(out@) == entries_tree(entries@.take(i as int)),
                decreases entries@.len() - i,
            {
                proof {
                    assert(decreases_to!(j => j->Object_0));
                    assert(decreases_to!(j->Object_0 => entries@));
                    assert(decreases_to!(entries@ => entries@[i as int]));
                    assert(decreases_to!(entries@[i as int] => entries@[i as int].1));
                }
                let value = to_value(&entries[i].1);
                let ghost before = out@;
                out.push((entries[i].0.clone(), value));
                proof {
                    assert(out@.drop_last() =~= before);
                    assert(entries@.take(i + 1).drop_last() =~= entries@.take(i as int));
                }
                i = i + 1;
            }
            proof {
                assert(entries@.take(i as int) =~= entries@);
            }
            put_together(Layer::Object(out))
        },
    }
}

impl Json {
    /// The value that a JSON text writes, or the text of the error.
    pub fn parse(text: &str) -> (r: Result<Json, String>)
        ensures
            match r {
                Ok(j) => is_reading(text@, parsed(j.tree())),
                Err(e) => is_reading(text@, unparsed(e@)),
            },
    {
        match parse_value(text) {
            Ok(v) => Ok(from_value(&v)),
            Err(e) => Err(e),
        }
    }

    /// The value that bytes of JSON write, or the text of the error.
    pub fn parse_bytes(bytes: &[u8]) -> (r: Result<Json, String>)
        ensures
            match r {
                Ok(j) => json_parse_bytes(bytes@) == parsed(j.tree()),
                Err(e) => json_parse_bytes(bytes@) == unparsed(e@),
            },
    {
        match parse_value_bytes(bytes) {
            Ok(v) => Ok(from_value(&v)),
            Err(e) => Err(e),
        }
    }

    /// The compact text of this value.
    pub fn to_text(&self) -> (r: String)
        ensures
            r@ == json_text(self.tree()),
            reads_back(self.tree()) ==> json_parse(r@) == parsed(self.tree()),
    {
        value_text(&to_value(self))
    }

    /// The indented text of this value, as bytes.
    pub fn to_pretty(&self) -> (r: Vec<u8>)
        ensures
            r@ == json_pretty(self.tree()),
            valid_utf8(r@),
            reads_back(self.tree()) ==> json_parse(decode_utf8(r@)) == parsed(self.tree()),
    {
        match value_pretty(&to_value(self)) {
            Ok(bytes) => bytes,
            Err(_) => Vec::new(),
        }
    }
}

} // verus!
