//! JSON values: a plain data type, the tree that it stands for, and the ways to read it.
use crate::text::str_eq;
use vstd::prelude::*;

verus! {

/// `serde_json::Number`, carried without looking inside; `number_tree` says what it holds.
#[verifier::external_type_specification]
#[verifier::external_body]
pub struct ExNumber(serde_json::Number);

/// What a JSON number holds.
pub enum NumberTree {
    /// An integer that is not negative.
    Unsigned(u64),
    /// A negative integer.
    Negative(i64),
    /// Any other number, by the bit pattern of the double that stands for it.
    Float(u64),
}

/// What a `serde_json::Number` holds.
pub uninterp spec fn number_tree(n: serde_json::Number) -> NumberTree;

/// The bit pattern of the double nearest to an integer, as the conversion in
/// `serde_json::Number::as_f64` rounds it.
pub uninterp spec fn nearest_double(n: int) -> u64;

/// `serde_json::Number::from(u64)`: the number holds just that integer.
#[verifier::external_body]
fn number_from_u64(n: u64) -> (r: serde_json::Number)
    ensures
        number_tree(r) == NumberTree::Unsigned(n),
{
    serde_json::Number::from(n)
}

/// `serde_json::Number::as_u64`: the integer, where the number is one that is not negative.
#[verifier::external_body]
fn number_as_u64(n: &serde_json::Number) -> (r: Option<u64>)
    ensures
        r == match number_tree(*n) {
            NumberTree::Unsigned(u) => Some(u),
            _ => None,
        },
{
    n.as_u64()
}

/// `serde_json::Number::as_f64`, put back into a number by `serde_json::Number::from_f64`: the
/// same number held as a double. Every number has one, and it is finite.
#[verifier::external_body]
fn number_as_float(n: &serde_json::Number) -> (r: Option<serde_json::Number>)
    ensures
        r is Some,
        number_tree(r->0) == NumberTree::Float(
            match number_tree(*n) {
                NumberTree::Unsigned(u) => nearest_double(u as int),
                NumberTree::Negative(i) => nearest_double(i as int),
                NumberTree::Float(bits) => bits,
            },
        ),
{
    n.as_f64().and_then(serde_json::Number::from_f64)
}

/// `serde_json::Number::clone`: the clone holds the same number.
pub assume_specification[ <serde_json::Number as Clone>::clone ](n: &serde_json::Number) -> (r:
    serde_json::Number)
    ensures
        number_tree(r) == number_tree(*n),
;

/// A JSON value as mathematics sees it. The keys of an object have no order.
pub enum JsonTree {
    Null,
    Bool(bool),
    Number(NumberTree),
    Str(Seq<char>),
    Array(Seq<JsonTree>),
    Object(Map<Seq<char>, JsonTree>),
}

/// A JSON value. In an object, a later entry takes the place of an earlier one with its key.
#[derive(Debug)]
pub enum Json {
    Null,
    Bool(bool),
    Number(serde_json::Number),
    Str(String),
    Array(Vec<Json>),
    Object(Vec<(String, Json)>),
}

/// The object without keys.
pub open spec fn no_fields() -> Map<Seq<char>, JsonTree> {
    Map::empty()
}

/// The object that a list of entries makes: of two entries with one key the later one counts.
pub open spec fn entries_tree(entries: Seq<(String, Json)>) -> Map<Seq<char>, JsonTree>
    decreases entries,
{
    if entries.len() == 0 {
        no_fields()
    } else {
        entries_tree(entries.drop_last()).insert(entries.last().0@, entries.last().1.tree())
    }
}

/// A JSON string.
pub open spec fn text_tree(s: Seq<char>) -> JsonTree {
    JsonTree::Str(s)
}

/// A JSON integer.
pub open spec fn number(n: u64) -> JsonTree {
    JsonTree::Number(NumberTree::Unsigned(n))
}

/// The trees of a list of values.
pub open spec fn trees(items: Seq<Json>) -> Seq<JsonTree> {
    items.map_values(|j: Json| j.tree())
}

/// The tree of an optional value.
pub open spec fn tree_of(j: Option<&Json>) -> Option<JsonTree> {
    match j {
        Some(v) => Some(v.tree()),
        None => None,
    }
}

/// The view of an optional string slice.
pub open spec fn str_view(s: Option<&str>) -> Option<Seq<char>> {
    match s {
        Some(t) => Some(t@),
        None => None,
    }
}

impl JsonTree {
    /// The field `key`, where this is an object that has it.
    pub open spec fn get(self, key: Seq<char>) -> Option<JsonTree> {
        match self {
            JsonTree::Object(m) => if m.contains_key(key) {
                Some(m[key])
            } else {
                None
            },
            _ => None,
        }
    }

    /// The text, where this is a string.
    pub open spec fn as_str(self) -> Option<Seq<char>> {
        match self {
            JsonTree::Str(s) => Some(s),
            _ => None,
        }
    }

    /// The integer, where this is one that is not negative.
    pub open spec fn as_u64(self) -> Option<u64> {
        match self {
            JsonTree::Number(NumberTree::Unsigned(n)) => Some(n),
            _ => None,
        }
    }

    /// The truth value, where this is one.
    pub open spec fn as_bool(self) -> Option<bool> {
        match self {
            JsonTree::Bool(b) => Some(b),
            _ => None,
        }
    }

    /// The elements, where this is an array.
    pub open spec fn as_array(self) -> Option<Seq<JsonTree>> {
        match self {
            JsonTree::Array(s) => Some(s),
            _ => None,
        }
    }

    /// The number held as a double, where this is a number.
    pub open spec fn as_float(self) -> Option<JsonTree> {
        match self {
            JsonTree::Number(n) => Some(
                JsonTree::Number(
                    NumberTree::Float(
                        match n {
                            NumberTree::Unsigned(u) => nearest_double(u as int),
                            NumberTree::Negative(i) => nearest_double(i as int),
                            NumberTree::Float(bits) => bits,
                        },
                    ),
                ),
            ),
            _ => None,
        }
    }

    /// The text in the field `key`, where there is one.
    pub open spec fn str_at(self, key: Seq<char>) -> Option<Seq<char>> {
        match self.get(key) {
            Some(v) => v.as_str(),
            None => None,
        }
    }

    /// The integer in the field `key`, where there is one that is not negative.
    pub open spec fn u64_at(self, key: Seq<char>) -> Option<u64> {
        match self.get(key) {
            Some(v) => v.as_u64(),
            None => None,
        }
    }

    /// The truth value in the field `key`, where there is one.
    pub open spec fn bool_at(self, key: Seq<char>) -> Option<bool> {
        match self.get(key) {
            Some(v) => v.as_bool(),
            None => None,
        }
    }

    /// The elements of the array in the field `key`; none where there is no array.
    pub open spec fn items_at(self, key: Seq<char>) -> Seq<JsonTree> {
        match self.get(key) {
            Some(JsonTree::Array(s)) => s,
            _ => Seq::empty(),
        }
    }
}

impl Json {
    /// The tree that this value stands for.
    pub open spec fn tree(self) -> JsonTree
        decreases self,
    {
        match self {
            Json::Null => JsonTree::Null,
            Json::Bool(b) => JsonTree::Bool(b),
            Json::Number(n) => JsonTree::Number(number_tree(n)),
            Json::Str(s) => JsonTree::Str(s@),
            Json::Array(items) => JsonTree::Array(
                Seq::new(
                    items@.len(),
                    |i: int|
                        if 0 <= i < items@.len() {
                            items@[i].tree()
                        } else {
                            arbitrary()
                        },
                ),
            ),
            Json::Object(entries) => JsonTree::Object(entries_tree(entries@)),
        }
    }

    /// The integer `n`.
    pub fn unsigned(n: u64) -> (r: Json)
        ensures
            r.tree() == JsonTree::Number(NumberTree::Unsigned(n)),
    {
        Json::Number(number_from_u64(n))
    }

    /// The string `s`.
    pub fn text(s: &str) -> (r: Json)
        ensures
            r.tree() == JsonTree::Str(s@),
    {
        Json::Str(s.to_owned())
    }

    /// An array of `items`.
    pub fn array(items: Vec<Json>) -> (r: Json)
        ensures
            r.tree() == JsonTree::Array(trees(items@)),
    {
        let r = Json::Array(items);
        proof {
            lemma_array_tree(items);
        }
        r
    }

    /// The field `key`, where this is an object that has it.
    pub fn get(&self, key: &str) -> (r: Option<&Json>)
        ensures
            tree_of(r) == self.tree().get(key@),
    {
        match self {
            Json::Object(entries) => find_entry(entries, key),
            _ => None,
        }
    }

    /// The text, where this is a string.
    pub fn as_str(&self) -> (r: Option<&str>)
        ensures
            str_view(r) == self.tree().as_str(),
    {
        match self {
            Json::Str(s) => Some(s.as_str()),
            _ => None,
        }
    }

    /// The integer, where this is one that is not negative.
    pub fn as_u64(&self) -> (r: Option<u64>)
        ensures
            r == self.tree().as_u64(),
    {
        match self {
            Json::Number(n) => number_as_u64(n),
            _ => None,
        }
    }

    /// The truth value, where this is one.
    pub fn as_bool(&self) -> (r: Option<bool>)
        ensures
            r == self.tree().as_bool(),
    {
        match self {
            Json::Bool(b) => Some(*b),
            _ => None,
        }
    }

    /// The elements, where this is an array.
    pub fn as_array(&self) -> (r: Option<&Vec<Json>>)
        ensures
            match r {
                Some(items) => self.tree().as_array() == Some(trees(items@)),
                None => self.tree().as_array() == None::<Seq<JsonTree>>,
            },
    {
        match self {
            Json::Array(items) => {
                proof {
                    lemma_array_tree(*items);
                }
                Some(items)
            },
            _ => None,
        }
    }

    /// The number held as a double, where this is a number.
    pub fn as_float(&self) -> (r: Option<Json>)
        ensures
            match r {
                Some(j) => self.tree().as_float() == Some(j.tree()),
                None => self.tree().as_float() == None::<JsonTree>,
            },
    {
        match self {
            Json::Number(n) => match number_as_float(n) {
                Some(f) => Some(Json::Number(f)),
                None => None,
            },
            _ => None,
        }
    }

    /// The text in the field `key`, where there is one.
    pub fn str_at(&self, key: &str) -> (r: Option<&str>)
        ensures
            str_view(r) == self.tree().str_at(key@),
    {
        match self.get(key) {
            Some(v) => v.as_str(),
            None => None,
        }
    }

    /// The integer in the field `key`, where there is one that is not negative.
    pub fn u64_at(&self, key: &str) -> (r: Option<u64>)
        ensures
            r == self.tree().u64_at(key@),
    {
        match self.get(key) {
            Some(v) => v.as_u64(),
            None => None,
        }
    }

    /// The truth value in the field `key`, where there is one.
    pub fn bool_at(&self, key: &str) -> (r: Option<bool>)
        ensures
            r == self.tree().bool_at(key@),
    {
        match self.get(key) {
            Some(v) => v.as_bool(),
            None => None,
        }
    }

    /// The array in the field `key`, where there is one.
    pub fn array_at(&self, key: &str) -> (r: Option<&Vec<Json>>)
        ensures
            match r {
                Some(items) => self.tree().items_at(key@) == trees(items@),
                None => self.tree().items_at(key@) == Seq::<JsonTree>::empty(),
            },
            r is Some <==> (self.tree().get(key@) matches Some(JsonTree::Array(_))),
    {
        match self.get(key) {
            Some(v) => v.as_array(),
            None => None,
        }
    }

    /// A value with the same tree.
    pub fn copy(&self) -> (r: Json)
        ensures
            r.tree() == self.tree(),
        decreases self,
    {
        match self {
            Json::Null => Json::Null,
            Json::Bool(b) => Json::Bool(*b),
            Json::Number(n) => Json::Number(n.clone()),
            Json::Str(s) => Json::Str(s.clone()),
            Json::Array(items) => {
                let mut out: Vec<Json> = Vec::new();
                let mut i: usize = 0;
                while i < items.len()
                    invariant
                        i <= items@.len(),
                        self == Json::Array(*items),
                        trees(out@) == trees(items@).take(i as int),
                    decreases items@.len() - i,
                {
                    proof {
                        assert(decreases_to!(self => self->Array_0));
                        assert(decreases_to!(self->Array_0 => items@));
                        assert(decreases_to!(items@ => items@[i as int]));
                    }
                    let c = items[i].copy();
                    let ghost before = trees(out@);
                    out.push(c);
                    proof {
                        assert(trees(out@) =~= before.push(c.tree()));
                        assert(trees(items@).take(i + 1) =~= before.push(items@[i as int].tree()));
                    }
                    i = i + 1;
                }
                proof {
                    assert(trees(items@).take(i as int) =~= trees(items@));
                    lemma_array_tree(*items);
                    lemma_array_tree(out);
                }
                Json::Array(out)
            },
            Json::Object(entries) => {
                let mut out: Vec<(String, Json)> = Vec::new();
                let mut i: usize = 0;
                while i < entries.len()
                    invariant
                        i <= entries@.len(),
                        self == Json::Object(*entries),
                        entries_tree(out@) == entries_tree(entries@.take(i as int)),
                    decreases entries@.len() - i,
                {
                    let key = entries[i].0.clone();
                    proof {
                        assert(decreases_to!(self => self->Object_0));
                        assert(decreases_to!(self->Object_0 => entries@));
                        assert(decreases_to!(entries@ => entries@[i as int]));
                        assert(decreases_to!(entries@[i as int] => entries@[i as int].1));
                    }
                    let value = entries[i].1.copy();
                    let ghost before = out@;
                    out.push((key, value));
                    proof {
                        assert(out@.drop_last() =~= before);
                        assert(entries@.take(i + 1).drop_last() =~= entries@.take(i as int));
                    }
                    i = i + 1;
                }
                proof {
                    assert(entries@.take(i as int) =~= entries@);
                }
                Json::Object(out)
            },
        }
    }
}

/// The tree of an array is the array of the trees.
pub proof fn lemma_array_tree(items: Vec<Json>)
    ensures
        Json::Array(items).tree() == JsonTree::Array(trees(items@)),
{
    assert(Json::Array(items).tree()->Array_0 =~= trees(items@));
}

/// The value of the last entry with the given key.
fn find_entry<'a>(entries: &'a Vec<(String, Json)>, key: &str) -> (r: Option<&'a Json>)
    ensures
        tree_of(r) == JsonTree::Object(entries_tree(entries@)).get(key@),
{
    let mut i: usize = entries.len();
    proof {
        assert(entries@.take(i as int) =~= entries@);
    }
    while i > 0
        invariant
            i <= entries@.len(),
            JsonTree::Object(entries_tree(entries@)).get(key@) == JsonTree::Object(
                entries_tree(entries@.take(i as int)),
            ).get(key@),
        decreases i,
    {
        proof {
            assert(entries@.take(i as int).drop_last() =~= entries@.take(i - 1));
        }
        if str_eq(entries[i - 1].0.as_str(), key) {
            return Some(&entries[i - 1].1);
        }
        i = i - 1;
    }
    None
}

/// The last entry with a key, replaced by another with that key, sets the field.
proof fn lemma_entry_replaced(entries: Seq<(String, Json)>, i: int, entry: (String, Json))
    requires
        0 <= i < entries.len(),
        entry.0@ == entries[i].0@,
        forall|j: int| i < j < entries.len() ==> (#[trigger] entries[j]).0@ != entry.0@,
    ensures
        entries_tree(entries.update(i, entry)) == entries_tree(entries).insert(
            entry.0@,
            entry.1.tree(),
        ),
    decreases entries.len(),
{
    let rest = entries.drop_last();
    let changed = entries.update(i, entry);
    if i == entries.len() - 1 {
        assert(changed.drop_last() =~= rest);
    } else {
        assert(changed.drop_last() =~= rest.update(i, entry));
        assert forall|j: int| i < j < rest.len() implies (#[trigger] rest[j]).0@ != entry.0@ by {
            assert(rest[j] == entries[j]);
        }
        lemma_entry_replaced(rest, i, entry);
        assert(entries[entries.len() - 1].0@ != entry.0@);
    }
    assert(entries_tree(changed) =~= entries_tree(entries).insert(entry.0@, entry.1.tree()));
}

/// An object that is being built.
#[derive(Debug)]
pub struct Fields {
    pub entries: Vec<(String, Json)>,
}

impl View for Fields {
    type V = Map<Seq<char>, JsonTree>;

    /// The object built so far.
    open spec fn view(&self) -> Map<Seq<char>, JsonTree> {
        entries_tree(self.entries@)
    }
}

impl Fields {
    /// The object without fields.
    pub fn new() -> (r: Fields)
        ensures
            r@ == no_fields(),
    {
        Fields { entries: Vec::new() }
    }

    /// Sets the field `key`: a field that is there already is replaced.
    pub fn put(&mut self, key: &str, value: Json)
        ensures
            final(self)@ == old(self)@.insert(key@, value.tree()),
    {
        let ghost before = self.entries@;
        let mut i: usize = self.entries.len();
        while i > 0
            invariant
                i <= self.entries@.len(),
                self.entries@ == before,
                before == old(self).entries@,
                forall|j: int| i <= j < before.len() ==> (#[trigger] before[j]).0@ != key@,
            decreases i,
        {
            i = i - 1;
            if str_eq(self.entries[i].0.as_str(), key) {
                self.entries.set(i, (key.to_owned(), value));
                proof {
                    lemma_entry_replaced(before, i as int, self.entries@[i as int]);
                }
                return ;
            }
        }
        self.entries.push((key.to_owned(), value));
        proof {
            assert(self.entries@.drop_last() =~= before);
        }
    }

    /// The object as a value.
    pub fn done(self) -> (r: Json)
        ensures
            r.tree() == JsonTree::Object(self@),
    {
        Json::Object(self.entries)
    }
}

/// A value is read as what it is, and as nothing else; a field of an object is the value under its
/// name.
pub proof fn law_values_are_read_as_what_they_are(
    n: u64,
    s: Seq<char>,
    b: bool,
    items: Seq<JsonTree>,
    fields: Map<Seq<char>, JsonTree>,
    key: Seq<char>,
    value: JsonTree,
)
    ensures
        JsonTree::Number(NumberTree::Unsigned(n)).as_u64() == Some(n),
        JsonTree::Str(s).as_str() == Some(s),
        JsonTree::Bool(b).as_bool() == Some(b),
        JsonTree::Array(items).as_array() == Some(items),
        JsonTree::Object(fields.insert(key, value)).get(key) == Some(value),
        JsonTree::Object(fields.remove(key)).get(key) is None,
        JsonTree::Array(items).get(key) is None,
        JsonTree::Object(fields.insert(key, JsonTree::Number(NumberTree::Unsigned(n)))).u64_at(key)
            == Some(n),
        JsonTree::Object(fields.insert(key, JsonTree::Str(s))).str_at(key) == Some(s),
        JsonTree::Object(fields.insert(key, JsonTree::Bool(b))).bool_at(key) == Some(b),
        JsonTree::Object(fields.insert(key, JsonTree::Array(items))).items_at(key) == items,
        !(value is Number) ==> value.as_u64() is None && value.as_float() is None,
        !(value is Str) ==> value.as_str() is None,
        !(value is Bool) ==> value.as_bool() is None,
        !(value is Array) ==> value.as_array() is None,
{
}

} // verus!
