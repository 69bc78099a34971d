//! JSON values. The text of a JSON value is read and written by `serde_json`;
//! everything else works on [`Json`].

use vstd::prelude::*;
use vstd::utf8::{decode_utf8, valid_utf8};

use crate::text::{same, utf8_text};

verus! {

/// A number that is no whole number of 64 bits, as `serde_json` read it. Only what
/// `serde_json` read as such is one: the field is private, and nothing but
/// [`open_value`] makes one.
#[derive(Debug, PartialEq, Eq)]
pub struct Fraction {
    number: serde_json::Number,
}

impl Clone for Fraction {
    fn clone(&self) -> (copy: Fraction)
        ensures
            copy == *self,
    {
        Fraction { number: self.number.clone() }
    }
}

/// The tree that a JSON value is: members of an object have no order, and a
/// number is a whole number wherever it is written as one and fits.
#[verifier::ext_equal]
pub enum JsonTree {
    Null,
    Bool(bool),
    Whole(int),
    Fraction(Fraction),
    Text(Seq<char>),
    Array(Seq<JsonTree>),
    Object(Map<Seq<char>, JsonTree>),
}

impl JsonTree {
    /// The member `key` of an object.
    pub open spec fn member(self, key: Seq<char>) -> Option<JsonTree> {
        match self {
            JsonTree::Object(members) => if members.dom().contains(key) {
                Some(members[key])
            } else {
                None
            },
            _ => None,
        }
    }

    /// The text of a string.
    pub open spec fn text(self) -> Option<Seq<char>> {
        match self {
            JsonTree::Text(text) => Some(text),
            _ => None,
        }
    }

    /// A whole number that fits in 64 bits with a sign.
    pub open spec fn integer(self) -> Option<i64> {
        match self {
            JsonTree::Whole(number) => if i64::MIN <= number <= i64::MAX {
                Some(number as i64)
            } else {
                None
            },
            _ => None,
        }
    }

    /// The text under the member `key`.
    pub open spec fn member_text(self, key: Seq<char>) -> Option<Seq<char>> {
        match self.member(key) {
            Some(member) => member.text(),
            None => None,
        }
    }

    /// The integer under the member `key`.
    pub open spec fn member_integer(self, key: Seq<char>) -> Option<i64> {
        match self.member(key) {
            Some(member) => member.integer(),
            None => None,
        }
    }

    /// Whether the tree nests at most `depth` arrays and objects and holds no
    /// fraction, so that its text reads back as the tree itself.
    pub open spec fn exact(self, depth: nat) -> bool
        decreases self,
    {
        match self {
            JsonTree::Fraction(_) => false,
            JsonTree::Array(items) => depth > 0 && forall|i: int|
                0 <= i < items.len() ==> (#[trigger] items[i]).exact((depth - 1) as nat),
            JsonTree::Object(members) => depth > 0 && members.dom().finite()
                && forall|key: Seq<char>| #[trigger]
                members.dom().contains(key) ==> members[key].exact((depth - 1) as nat),
            _ => true,
        }
    }
}

/// How deep `serde_json` reads nested arrays and objects.
pub open spec fn read_depth() -> nat {
    127
}

/// A JSON value. Of two members with one key the later one counts.
#[derive(Debug, PartialEq, Eq)]
pub enum Json {
    Null,
    Bool(bool),
    Unsigned(u64),
    Signed(i64),
    Fraction(Fraction),
    Text(String),
    Array(Vec<Json>),
    Object(Vec<(String, Json)>),
}

impl Json {
    /// The tree that this value is.
    pub open spec fn tree(self) -> JsonTree
        decreases self,
    {
        match self {
            Json::Null => JsonTree::Null,
            Json::Bool(truth) => JsonTree::Bool(truth),
            Json::Unsigned(number) => JsonTree::Whole(number as int),
            Json::Signed(number) => JsonTree::Whole(number as int),
            Json::Fraction(number) => JsonTree::Fraction(number),
            Json::Text(text) => JsonTree::Text(text@),
            Json::Array(items) => JsonTree::Array(trees(items@)),
            Json::Object(entries) => JsonTree::Object(members(entries@)),
        }
    }
}

impl View for Json {
    type V = JsonTree;

    open spec fn view(&self) -> JsonTree {
        self.tree()
    }
}

/// The trees of a sequence of values.
pub open spec fn trees(items: Seq<Json>) -> Seq<JsonTree>
    decreases items,
{
    if items.len() == 0 {
        seq![]
    } else {
        trees(items.drop_last()).push(items.last().tree())
    }
}

/// The members that a sequence of entries gives an object.
pub open spec fn members(entries: Seq<(String, Json)>) -> Map<Seq<char>, JsonTree>
    decreases entries,
{
    if entries.len() == 0 {
        Map::empty()
    } else {
        members(entries.drop_last()).insert(entries.last().0@, entries.last().1.tree())
    }
}

proof fn lemma_item_smaller(json: Json, i: int)
    requires
        json matches Json::Array(items) && 0 <= i < items@.len(),
    ensures
        decreases_to!(json => json->Array_0@[i]),
{
    let items = json->Array_0;
    assert(decreases_to!(json => items@));
    assert(decreases_to!(items@ => items@[i]));
}

proof fn lemma_entry_smaller(json: Json, i: int)
    requires
        json matches Json::Object(entries) && 0 <= i < entries@.len(),
    ensures
        decreases_to!(json => json->Object_0@[i].1),
{
    let entries = json->Object_0;
    assert(decreases_to!(json => entries@));
    assert(decreases_to!(entries@ => entries@[i]));
    assert(decreases_to!(entries@[i] => entries@[i].1));
}

/// The trees of a sequence, one for one.
pub proof fn lemma_trees(items: Seq<Json>)
    ensures
        trees(items).len() == items.len(),
        forall|i: int| 0 <= i < items.len() ==> #[trigger] trees(items)[i] == items[i].tree(),
    decreases items.len(),
{
    if items.len() > 0 {
        lemma_trees(items.drop_last());
    }
}

/// A further value gives a further tree.
pub proof fn lemma_trees_push(items: Seq<Json>, item: Json)
    ensures
        trees(items.push(item)) == trees(items).push(item.tree()),
{
    assert(items.push(item).drop_last() =~= items);
}

/// A further entry sets its member.
pub proof fn lemma_members_push(entries: Seq<(String, Json)>, entry: (String, Json))
    ensures
        members(entries.push(entry)) == members(entries).insert(entry.0@, entry.1.tree()),
{
    assert(entries.push(entry).drop_last() =~= entries);
}

/// `serde_json::Value`, carried as it is.
#[verifier::external_type_specification]
#[verifier::external_body]
pub struct ExValue(serde_json::Value);

/// `serde_json::Number`, carried as it is.
#[verifier::external_type_specification]
#[verifier::external_body]
pub struct ExNumber(serde_json::Number);

/// `serde_json::Map`, carried as it is.
#[verifier::external_type_specification]
#[verifier::external_body]
#[verifier::reject_recursive_types(K)]
#[verifier::reject_recursive_types(V)]
pub struct ExMap<K, V>(serde_json::Map<K, V>);

/// `serde_json::Error`, carried as it is.
#[verifier::external_type_specification]
#[verifier::external_body]
pub struct ExJsonError(serde_json::Error);

/// The tree that a `serde_json::Value` holds.
pub uninterp spec fn json_of(value: serde_json::Value) -> JsonTree;

/// The members that a `serde_json::Map` holds, each by its key.
pub uninterp spec fn map_of(map: serde_json::Map<String, serde_json::Value>) -> Map<
    Seq<char>,
    JsonTree,
>;

/// The bytes that `serde_json::to_vec` writes for a value that holds `tree`.
pub uninterp spec fn json_text(tree: JsonTree) -> Seq<u8>;

/// The tree that `serde_json::from_slice` reads from `bytes`; where it finds no
/// JSON value, or more than one, what its error says.
pub uninterp spec fn json_read(bytes: Seq<u8>) -> Result<JsonTree, Seq<char>>;

/// The tree that `bytes` write; none where they are not one JSON value.
pub open spec fn json_parse(bytes: Seq<u8>) -> Option<JsonTree> {
    match json_read(bytes) {
        Ok(tree) => Some(tree),
        Err(_) => None,
    }
}

/// The outermost layer of a `serde_json::Value`.
pub enum JsonNode {
    Null,
    Bool(bool),
    Unsigned(u64),
    Signed(i64),
    Fraction(Fraction),
    Text(String),
    Array(Vec<serde_json::Value>),
    Object(serde_json::Map<String, serde_json::Value>),
}

/// The members that a sequence of entries gives an object.
pub open spec fn value_members(entries: Seq<(String, serde_json::Value)>) -> Map<
    Seq<char>,
    JsonTree,
>
    decreases entries.len(),
{
    if entries.len() == 0 {
        Map::empty()
    } else {
        value_members(entries.drop_last()).insert(entries.last().0@, json_of(entries.last().1))
    }
}

impl JsonNode {
    /// The tree that this layer and what lies under it are.
    pub open spec fn tree(self) -> JsonTree {
        match self {
            JsonNode::Null => JsonTree::Null,
            JsonNode::Bool(truth) => JsonTree::Bool(truth),
            JsonNode::Unsigned(number) => JsonTree::Whole(number as int),
            JsonNode::Signed(number) => JsonTree::Whole(number as int),
            JsonNode::Fraction(number) => JsonTree::Fraction(number),
            JsonNode::Text(text) => JsonTree::Text(text@),
            JsonNode::Array(items) => JsonTree::Array(
                Seq::new(items@.len(), |i: int| json_of(items@[i])),
            ),
            JsonNode::Object(map) => JsonTree::Object(map_of(map)),
        }
    }
}

/// Builds a `serde_json::Value` by its variants, with `Number::from` for the whole
/// numbers. The value holds the tree of the layer that it was built from.
#[verifier::external_body]
fn make_value(node: JsonNode) -> (value: serde_json::Value)
    ensures
        json_of(value) == node.tree(),
{
    match node {
        JsonNode::Null => serde_json::Value::Null,
        JsonNode::Bool(truth) => serde_json::Value::Bool(truth),
        JsonNode::Unsigned(number) => serde_json::Value::Number(number.into()),
        JsonNode::Signed(number) => serde_json::Value::Number(number.into()),
        JsonNode::Fraction(fraction) => serde_json::Value::Number(fraction.number),
        JsonNode::Text(text) => serde_json::Value::String(text),
        JsonNode::Array(items) => serde_json::Value::Array(items),
        JsonNode::Object(map) => serde_json::Value::Object(map),
    }
}

/// Takes a `serde_json::Value` apart by its variants; `Number::as_u64` and
/// `Number::as_i64` tell the kinds of number apart. The layer has the tree that
/// the value holds.
#[verifier::external_body]
fn open_value(value: serde_json::Value) -> (node: JsonNode)
    ensures
        node.tree() == json_of(value),
{
    match value {
        serde_json::Value::Null => JsonNode::Null,
        serde_json::Value::Bool(truth) => JsonNode::Bool(truth),
        serde_json::Value::Number(number) => match (number.as_u64(), number.as_i64()) {
            (Some(whole), _) => JsonNode::Unsigned(whole),
            (None, Some(whole)) => JsonNode::Signed(whole),
            (None, None) => JsonNode::Fraction(Fraction { number }),
        },
        serde_json::Value::String(text) => JsonNode::Text(text),
        serde_json::Value::Array(items) => JsonNode::Array(items),
        serde_json::Value::Object(map) => JsonNode::Object(map),
    }
}

/// `serde_json::Map::new`: the map holds nothing.
#[verifier::external_body]
fn new_map() -> (fresh: serde_json::Map<String, serde_json::Value>)
    ensures
        map_of(fresh) =~= Map::empty(),
{
    serde_json::Map::new()
}

/// `serde_json::Map::insert`: the key gets the value, and one that was there under
/// the key is replaced.
#[verifier::external_body]
fn insert_member(
    map: &mut serde_json::Map<String, serde_json::Value>,
    key: String,
    value: serde_json::Value,
)
    ensures
        map_of(*final(map)) == map_of(*old(map)).insert(key@, json_of(value)),
{
    map.insert(key, value);
}

/// `serde_json::Map::into_iter`: the members of the map, each once, in an order of
/// which nothing is said.
#[verifier::external_body]
fn map_entries(map: serde_json::Map<String, serde_json::Value>) -> (entries: Vec<
    (String, serde_json::Value),
>)
    ensures
        value_members(entries@) == map_of(map),
        forall|i: int, j: int|
            0 <= i < j < entries@.len() ==> #[trigger] entries@[i].0@ != #[trigger] entries@[j].0@,
{
    map.into_iter().collect()
}

/// `Number::clone`, which is derived: the copy is the number.
pub assume_specification[ <serde_json::Number as Clone>::clone ](
    number: &serde_json::Number,
) -> (copy: serde_json::Number)
    ensures
        copy == *number,
;

/// What holds of the compact text of `tree`: it is UTF-8 without control
/// characters, and the tree is read back from it where it is exact.
pub open spec fn reads_back(bytes: Seq<u8>, tree: JsonTree) -> bool {
    &&& valid_utf8(bytes)
    &&& forall|i: int| 0 <= i < bytes.len() ==> #[trigger] bytes[i] >= 0x20
    &&& tree.exact(read_depth()) ==> json_parse(bytes) == Some(tree)
}

/// `serde_json::to_vec` of a `Value`. It succeeds, since a `Value` has string
/// keys and finite numbers only. Its compact text is UTF-8 and holds no control
/// character, and `serde_json::from_slice` reads the same tree back from it,
/// save for fractions (whose last digit may change) and for what nests deeper
/// than it reads.
#[verifier::external_body]
fn write_value(value: &serde_json::Value) -> (written: Result<Vec<u8>, serde_json::Error>)
    ensures
        match written {
            Ok(bytes) => bytes@ == json_text(json_of(*value)) && reads_back(
                bytes@,
                json_of(*value),
            ),
            Err(_) => false,
        },
{
    serde_json::to_vec(value)
}

/// `serde_json::from_slice` into a `Value`, or what its error says.
#[verifier::external_body]
fn read_value(bytes: &[u8]) -> (read: Result<serde_json::Value, String>)
    ensures
        json_read(bytes@) == match read {
            Ok(value) => Ok(json_of(value)),
            Err(cause) => Err(cause@),
        },
{
    match serde_json::from_slice(bytes) {
        Ok(value) => Ok(value),
        Err(error) => Err(error.to_string()),
    }
}

proof fn lemma_value_members_push(
    entries: Seq<(String, serde_json::Value)>,
    entry: (String, serde_json::Value),
)
    ensures
        value_members(entries.push(entry)) == value_members(entries).insert(
            entry.0@,
            json_of(entry.1),
        ),
{
    assert(entries.push(entry).drop_last() =~= entries);
}

/// The `serde_json` value that holds the tree of `json`.
pub fn to_value(json: &Json) -> (value: serde_json::Value)
    ensures
        json_of(value) == json@,
    decreases json,
{
    match json {
        Json::Null => make_value(JsonNode::Null),
        Json::Bool(truth) => make_value(JsonNode::Bool(*truth)),
        Json::Unsigned(number) => make_value(JsonNode::Unsigned(*number)),
        Json::Signed(number) => make_value(JsonNode::Signed(*number)),
        Json::Fraction(number) => make_value(JsonNode::Fraction(number.clone())),
        Json::Text(text) => make_value(JsonNode::Text(text.clone())),
        Json::Array(items) => {
            let mut values: Vec<serde_json::Value> = Vec::new();
            let mut i: usize = 0;
            while i < items.len()
                invariant
                    i <= items.len(),
                    values@.len() == i,
                    *json == Json::Array(*items),
                    forall|j: int| 0 <= j < i ==> json_of(#[trigger] values@[j]) == items@[j]@,
                decreases items.len() - i,
            {
                proof {
                    lemma_item_smaller(*json, i as int);
                }
                values.push(to_value(&items[i]));
                i += 1;
            }
            proof {
                lemma_trees(items@);
                assert(Seq::new(values@.len(), |j: int| json_of(values@[j])) =~= trees(items@));
            }
            make_value(JsonNode::Array(values))
        },
        Json::Object(entries) => {
            let mut map: serde_json::Map<String, serde_json::Value> = new_map();
            let mut i: usize = 0;
            while i < entries.len()
                invariant
                    i <= entries.len(),
                    *json == Json::Object(*entries),
                    map_of(map) == members(entries@.take(i as int)),
                decreases entries.len() - i,
            {
                proof {
                    lemma_entry_smaller(*json, i as int);
                }
                let value: serde_json::Value = to_value(&entries[i].1);
                proof {
                    lemma_members_push(entries@.take(i as int), entries@[i as int]);
                    assert(entries@.take(i + 1) =~= entries@.take(i as int).push(
                        entries@[i as int],
                    ));
                }
                insert_member(&mut map, entries[i].0.clone(), value);
                i += 1;
            }
            proof {
                assert(entries@.take(i as int) =~= entries@);
            }
            make_value(JsonNode::Object(map))
        },
    }
}

/// The value that holds the tree of a `serde_json` value.
pub fn from_value(source: serde_json::Value) -> (json: Json)
    ensures
        json@ == json_of(source),
    decreases json_of(source),
{
    let ghost tree = json_of(source);
    match open_value(source) {
        JsonNode::Null => Json::Null,
        JsonNode::Bool(truth) => Json::Bool(truth),
        JsonNode::Unsigned(number) => Json::Unsigned(number),
        JsonNode::Signed(number) => Json::Signed(number),
        JsonNode::Fraction(number) => Json::Fraction(number),
        JsonNode::Text(text) => Json::Text(text),
        JsonNode::Array(values) => {
            let ghost layer = values@;
            let mut items: Vec<Json> = Vec::new();
            for value in it: values
                invariant
                    it.seq() == layer,
                    tree == json_of(source),
                    items@.len() == it.index(),
                    tree == JsonTree::Array(Seq::new(layer.len(), |j: int| json_of(layer[j]))),
                    forall|j: int|
                        0 <= j < items@.len() ==> #[trigger] items@[j]@ == json_of(layer[j]),
            {
                proof {
                    let parts = tree->Array_0;
                    assert(parts[it.index()] == json_of(value));
                    assert(decreases_to!(tree => parts[it.index()]));
                }
                items.push(from_value(value));
            }
            proof {
                lemma_trees(items@);
                assert(items@.len() == layer.len());
                assert forall|j: int| 0 <= j < layer.len() implies trees(items@)[j] == (
                tree->Array_0)[j] by {
                    assert(items@[j]@ == json_of(layer[j]));
                }
                assert(trees(items@) =~= tree->Array_0);
            }
            Json::Array(items)
        },
        JsonNode::Object(map) => {
            let values: Vec<(String, serde_json::Value)> = map_entries(map);
            let ghost layer = values@;
            let mut entries: Vec<(String, Json)> = Vec::new();
            for entry in it: values
                invariant
                    it.seq() == layer,
                    tree == json_of(source),
                    tree == JsonTree::Object(value_members(layer)),
                    value_members(layer.take(it.index() as int)) == members(entries@),
                    forall|i: int, j: int|
                        0 <= i < j < layer.len() ==> #[trigger] layer[i].0@
                            != #[trigger] layer[j].0@,
            {
                proof {
                    let i = it.index() as int;
                    lemma_value_member(layer, i);
                    let parts = tree->Object_0;
                    assert(decreases_to!(tree => parts[entry.0@]));
                    lemma_value_members_push(layer.take(i), entry);
                    assert(layer.take(i + 1) =~= layer.take(i).push(entry));
                }
                let (key, value) = entry;
                let item: (String, Json) = (key, from_value(value));
                proof {
                    lemma_members_push(entries@, item);
                }
                entries.push(item);
            }
            proof {
                assert(layer.take(layer.len() as int) =~= layer);
            }
            Json::Object(entries)
        },
    }
}

/// Where no key comes twice, every entry is a member.
proof fn lemma_value_member(entries: Seq<(String, serde_json::Value)>, i: int)
    requires
        0 <= i < entries.len(),
        forall|a: int, b: int|
            0 <= a < b < entries.len() ==> #[trigger] entries[a].0@ != #[trigger] entries[b].0@,
    ensures
        value_members(entries).dom().finite(),
        value_members(entries).dom().contains(entries[i].0@),
        value_members(entries)[entries[i].0@] == json_of(entries[i].1),
    decreases entries.len(),
{
    let rest = entries.drop_last();
    if i < rest.len() {
        lemma_value_member(rest, i);
    } else {
        lemma_value_members_finite(rest);
    }
}

proof fn lemma_value_members_finite(entries: Seq<(String, serde_json::Value)>)
    ensures
        value_members(entries).dom().finite(),
    decreases entries.len(),
{
    if entries.len() > 0 {
        lemma_value_members_finite(entries.drop_last());
    }
}

impl Clone for Json {
    fn clone(&self) -> (copy: Json)
        ensures
            copy@ == self@,
        decreases self,
    {
        match self {
            Json::Null => Json::Null,
            Json::Bool(truth) => Json::Bool(*truth),
            Json::Unsigned(number) => Json::Unsigned(*number),
            Json::Signed(number) => Json::Signed(*number),
            Json::Fraction(number) => Json::Fraction(number.clone()),
            Json::Text(text) => Json::Text(text.clone()),
            Json::Array(items) => {
                let mut copies: Vec<Json> = Vec::new();
                let mut i: usize = 0;
                while i < items.len()
                    invariant
                        i <= items.len(),
                        *self == Json::Array(*items),
                        trees(copies@) == trees(items@.take(i as int)),
                    decreases items.len() - i,
                {
                    proof {
                        lemma_item_smaller(*self, i as int);
                    }
                    let copy: Json = items[i].clone();
                    proof {
                        lemma_trees_push(copies@, copy);
                        lemma_trees_push(items@.take(i as int), items@[i as int]);
                        assert(items@.take(i + 1) =~= items@.take(i as int).push(items@[i as int]));
                    }
                    copies.push(copy);
                    i += 1;
                }
                assert(items@.take(i as int) =~= items@);
                Json::Array(copies)
            },
            Json::Object(entries) => {
                let mut copies: Vec<(String, Json)> = Vec::new();
                let mut i: usize = 0;
                while i < entries.len()
                    invariant
                        i <= entries.len(),
                        *self == Json::Object(*entries),
                        members(copies@) == members(entries@.take(i as int)),
                    decreases entries.len() - i,
                {
                    proof {
                        lemma_entry_smaller(*self, i as int);
                    }
                    let copy: (String, Json) = (entries[i].0.clone(), entries[i].1.clone());
                    proof {
                        lemma_members_push(copies@, copy);
                        lemma_members_push(entries@.take(i as int), entries@[i as int]);
                        assert(entries@.take(i + 1) =~= entries@.take(i as int).push(
                            entries@[i as int],
                        ));
                    }
                    copies.push(copy);
                    i += 1;
                }
                assert(entries@.take(i as int) =~= entries@);
                Json::Object(copies)
            },
        }
    }
}

/// What an entry that sets no member of that key leaves as it is.
proof fn lemma_members_other(entries: Seq<(String, Json)>, from: int, key: Seq<char>)
    requires
        0 <= from <= entries.len(),
        forall|i: int| from <= i < entries.len() ==> (#[trigger] entries[i]).0@ != key,
    ensures
        members(entries).dom().contains(key) == members(entries.take(from)).dom().contains(key),
        members(entries).dom().contains(key) ==> members(entries)[key] == members(
            entries.take(from),
        )[key],
    decreases entries.len() - from,
{
    if from < entries.len() {
        let front = entries.drop_last();
        assert forall|i: int| from <= i < front.len() implies (#[trigger] front[i]).0@ != key by {
            assert(entries[i].0@ != key);
        }
        assert(entries[entries.len() - 1].0@ != key);
        lemma_members_other(front, from, key);
        assert(front.take(from) =~= entries.take(from));
    } else {
        assert(entries.take(from) =~= entries);
    }
}

impl Json {
    /// The member `key` of an object.
    pub fn get(&self, key: &str) -> (found: Option<&Json>)
        ensures
            match found {
                Some(json) => self@.member(key@) == Some(json@),
                None => self@.member(key@) is None,
            },
    {
        match self {
            Json::Object(entries) => {
                let mut i: usize = entries.len();
                while i > 0
                    invariant
                        i <= entries@.len(),
                        *self == Json::Object(*entries),
                        forall|j: int|
                            i <= j < entries@.len() ==> (#[trigger] entries@[j]).0@ != key@,
                    decreases i,
                {
                    i -= 1;
                    if same(entries[i].0.as_str(), key) {
                        proof {
                            lemma_members_other(entries@, i + 1, key@);
                            assert(entries@.take(i + 1).drop_last() =~= entries@.take(i as int));
                            assert(entries@.take(i + 1).last() == entries@[i as int]);
                        }
                        return Some(&entries[i].1);
                    }
                }
                proof {
                    lemma_members_other(entries@, 0, key@);
                    assert(entries@.take(0) =~= seq![]);
                }
                None
            },
            _ => None,
        }
    }

    /// The text of a string.
    pub fn as_text(&self) -> (found: Option<&String>)
        ensures
            match found {
                Some(text) => self@.text() == Some(text@),
                None => self@.text() is None,
            },
    {
        match self {
            Json::Text(text) => Some(text),
            _ => None,
        }
    }

    /// A whole number that fits in 64 bits with a sign.
    pub fn as_integer(&self) -> (found: Option<i64>)
        ensures
            found == self@.integer(),
    {
        match self {
            Json::Signed(number) => Some(*number),
            Json::Unsigned(number) => if *number <= 0x7fff_ffff_ffff_ffff {
                Some(*number as i64)
            } else {
                None
            },
            _ => None,
        }
    }

    /// The text under the member `key`.
    pub fn get_text(&self, key: &str) -> (found: Option<&String>)
        ensures
            match found {
                Some(text) => self@.member_text(key@) == Some(text@),
                None => self@.member_text(key@) is None,
            },
    {
        match self.get(key) {
            Some(member) => member.as_text(),
            None => None,
        }
    }

    /// The integer under the member `key`.
    pub fn get_integer(&self, key: &str) -> (found: Option<i64>)
        ensures
            found == self@.member_integer(key@),
    {
        match self.get(key) {
            Some(member) => member.as_integer(),
            None => None,
        }
    }

    /// The string that holds `text`.
    pub fn from_text(text: &str) -> (json: Json)
        ensures
            json@ == JsonTree::Text(text@),
    {
        Json::Text(text.to_owned())
    }

    /// The compact text of the value.
    pub fn encode(&self) -> (bytes: Vec<u8>)
        ensures
            bytes@ == json_text(self@),
            reads_back(bytes@, self@),
    {
        write_value(&to_value(self)).unwrap()
    }

    /// The compact text of the value, as a string.
    pub fn encode_text(&self) -> (text: String)
        ensures
            text@ == decode_utf8(json_text(self@)),
            reads_back(json_text(self@), self@),
    {
        let bytes: Vec<u8> = self.encode();
        utf8_text(bytes.as_slice()).unwrap().to_owned()
    }

    /// Reads one JSON value, or tells why there is none.
    pub fn read(bytes: &[u8]) -> (read: Result<Json, String>)
        ensures
            json_read(bytes@) == match read {
                Ok(json) => Ok(json@),
                Err(cause) => Err(cause@),
            },
    {
        match read_value(bytes) {
            Ok(value) => Ok(from_value(value)),
            Err(cause) => Err(cause),
        }
    }

    /// Reads one JSON value.
    pub fn parse(bytes: &[u8]) -> (read: Option<Json>)
        ensures
            match read {
                Some(json) => json_parse(bytes@) == Some(json@),
                None => json_parse(bytes@) is None,
            },
    {
        match Json::read(bytes) {
            Ok(json) => Some(json),
            Err(_) => None,
        }
    }
}

/// Adds a member to the entries of an object.
pub fn put(entries: &mut Vec<(String, Json)>, key: &str, json: Json)
    ensures
        members(final(entries)@) == members(old(entries)@).insert(key@, json@),
{
    let entry: (String, Json) = (key.to_owned(), json);
    proof {
        lemma_members_push(entries@, entry);
    }
    entries.push(entry);
}

/// How many members the entries give an object.
pub fn count_members(entries: &Vec<(String, Json)>) -> (count: usize)
    ensures
        count == members(entries@).len(),
{
    let mut count: usize = 0;
    let mut i: usize = 0;
    proof {
        assert(entries@.take(0) =~= seq![]);
        assert(members(seq![]).dom() =~= Set::empty());
    }
    while i < entries.len()
        invariant
            count <= i <= entries@.len(),
            members(entries@.take(i as int)).dom().finite(),
            count == members(entries@.take(i as int)).dom().len(),
        decreases entries.len() - i,
    {
        let mut earlier: bool = false;
        let mut j: usize = 0;
        while j < i
            invariant
                j <= i < entries@.len(),
                earlier == members(entries@.take(j as int)).dom().contains(entries@[i as int].0@),
            decreases i - j,
        {
            proof {
                lemma_members_push(entries@.take(j as int), entries@[j as int]);
                assert(entries@.take(j + 1) =~= entries@.take(j as int).push(entries@[j as int]));
            }
            if same(entries[j].0.as_str(), entries[i].0.as_str()) {
                earlier = true;
            }
            j += 1;
        }
        proof {
            lemma_members_push(entries@.take(i as int), entries@[i as int]);
            assert(entries@.take(i + 1) =~= entries@.take(i as int).push(entries@[i as int]));
            let front = members(entries@.take(i as int));
            let key = entries@[i as int].0@;
            assert(members(entries@.take(i + 1)).dom() =~= front.dom().insert(key));
            if earlier {
                assert(front.dom().insert(key) =~= front.dom());
            }
        }
        if !earlier {
            count += 1;
        }
        i += 1;
    }
    assert(entries@.take(i as int) =~= entries@);
    count
}

/// Copies a sequence of values.
pub fn copies(items: &Vec<Json>) -> (copied: Vec<Json>)
    ensures
        trees(copied@) == trees(items@),
{
    let mut copied: Vec<Json> = Vec::new();
    let mut i: usize = 0;
    while i < items.len()
        invariant
            i <= items@.len(),
            trees(copied@) == trees(items@.take(i as int)),
        decreases items.len() - i,
    {
        let copy: Json = items[i].clone();
        proof {
            lemma_trees_push(copied@, copy);
            lemma_trees_push(items@.take(i as int), items@[i as int]);
            assert(items@.take(i + 1) =~= items@.take(i as int).push(items@[i as int]));
        }
        copied.push(copy);
        i += 1;
    }
    assert(items@.take(i as int) =~= items@);
    copied
}

} // verus!
