//! JSON values as plain data.
//!
//! Reading and writing JSON text is left to `serde_json`. A `serde_json::Value` is opened and
//! closed one level at a time; everything else works on [`Json`].

use vstd::prelude::*;

use crate::pairs;

verus! {

/// A JSON number, split the way `serde_json` holds it.
#[derive(Debug)]
pub enum JsonNumber {
    /// A non-negative integer.
    PosInt(u64),
    /// A negative integer.
    NegInt(i64),
    /// Any other number; it is only carried along.
    Float(JsonFloat),
}

/// A number that is not an integer, as `serde_json` holds it.
#[derive(Debug)]
pub struct JsonFloat {
    number: serde_json::Number,
}

/// A JSON value.
///
/// Where a key occurs more than once in an object, its last occurrence counts.
#[derive(Debug)]
pub enum Json {
    Null,
    Bool(bool),
    Number(JsonNumber),
    Text(String),
    Array(Vec<Json>),
    Object(Vec<(String, Json)>),
}

/// The mathematical content of a JSON number.
pub enum NumberTree {
    Integer(int),
    Other(serde_json::Number),
}

impl View for JsonFloat {
    type V = serde_json::Number;

    closed spec fn view(&self) -> serde_json::Number {
        self.number
    }
}

impl View for JsonNumber {
    type V = NumberTree;

    open spec fn view(&self) -> NumberTree {
        match *self {
            JsonNumber::PosInt(n) => NumberTree::Integer(n as int),
            JsonNumber::NegInt(n) => NumberTree::Integer(n as int),
            JsonNumber::Float(number) => NumberTree::Other(number@),
        }
    }
}

/// The mathematical content of a JSON value.
#[verifier::ext_equal]
pub enum JsonTree {
    Null,
    Bool(bool),
    Number(NumberTree),
    Text(Seq<char>),
    Array(Seq<JsonTree>),
    Object(Map<Seq<char>, JsonTree>),
}

impl JsonTree {
    /// The member `key` of an object. Other values have no members.
    pub open spec fn member(self, key: Seq<char>) -> Option<JsonTree> {
        match self {
            JsonTree::Object(members) => if members.contains_key(key) {
                Some(members[key])
            } else {
                None
            },
            _ => None,
        }
    }

    /// The text that a string holds.
    pub open spec fn text(self) -> Option<Seq<char>> {
        match self {
            JsonTree::Text(s) => Some(s),
            _ => None,
        }
    }

    /// The integer that a number holds, where an `i64` can hold it.
    pub open spec fn integer(self) -> Option<i64> {
        match self {
            JsonTree::Number(NumberTree::Integer(n)) => if i64::MIN <= n <= i64::MAX {
                Some(n as i64)
            } else {
                None
            },
            _ => None,
        }
    }

    /// The elements of an array.
    pub open spec fn elements(self) -> Option<Seq<JsonTree>> {
        match self {
            JsonTree::Array(items) => Some(items),
            _ => None,
        }
    }
}

impl Json {
    /// The content of this value.
    pub open spec fn tree(self) -> JsonTree
        decreases self,
    {
        match self {
            Json::Null => JsonTree::Null,
            Json::Bool(b) => JsonTree::Bool(b),
            Json::Number(n) => JsonTree::Number(n@),
            Json::Text(s) => JsonTree::Text(s@),
            Json::Array(items) => JsonTree::Array(
                Seq::new(
                    items@.len(),
                    |i: int|
                        if 0 <= i < items@.len() {
                            items@[i].tree()
                        } else {
                            JsonTree::Null
                        },
                ),
            ),
            Json::Object(members) => JsonTree::Object(pairs::map_of(member_list(members))),
        }
    }
}

/// The keys and contents of the members of an object.
pub open spec fn member_list(members: Vec<(String, Json)>) -> Seq<(Seq<char>, JsonTree)>
    decreases members,
{
    Seq::new(
        members@.len(),
        |i: int|
            if 0 <= i < members@.len() {
                (members@[i].0@, members@[i].1.tree())
            } else {
                (Seq::empty(), JsonTree::Null)
            },
    )
}

impl View for Json {
    type V = JsonTree;

    open spec fn view(&self) -> JsonTree {
        self.tree()
    }
}

/// The contents of some values, in order.
pub open spec fn item_trees(items: Seq<Json>) -> Seq<JsonTree> {
    items.map_values(|item: Json| item@)
}

/// The keys and contents of some members, in order.
pub open spec fn member_trees(members: Seq<(String, Json)>) -> Seq<(Seq<char>, JsonTree)> {
    members.map_values(|member: (String, Json)| (member.0@, member.1@))
}

/// The content of an array is made of the contents of its elements.
pub proof fn lemma_array_tree(items: Vec<Json>)
    ensures
        Json::Array(items)@ == JsonTree::Array(item_trees(items@)),
{
    assert(Json::Array(items).tree()->Array_0 =~= item_trees(items@));
}

/// The content of an object is the map that its members stand for.
pub proof fn lemma_object_tree(members: Vec<(String, Json)>)
    ensures
        Json::Object(members)@ == JsonTree::Object(pairs::map_of(member_trees(members@))),
{
    assert(member_list(members) =~= member_trees(members@));
}

/// A number as `serde_json` holds it.
#[verifier::external_type_specification]
#[verifier::external_body]
pub struct ExNumber(serde_json::Number);

/// A value as `serde_json` holds it.
#[verifier::external_type_specification]
#[verifier::external_body]
pub struct ExValue(serde_json::Value);

/// Whether a number is held as a float and not as an integer, as `serde_json::Number::is_f64`
/// tells.
pub uninterp spec fn is_float(number: serde_json::Number) -> bool;

impl JsonFloat {
    #[verifier::type_invariant]
    spec fn well_formed(self) -> bool {
        is_float(self.number)
    }
}

/// What a `serde_json::Value` holds.
pub uninterp spec fn value_tree(value: serde_json::Value) -> JsonTree;

/// What `serde_json::from_str` reads from a text, or the message of its error.
pub uninterp spec fn json_read(text: Seq<char>) -> Result<JsonTree, Seq<char>>;

/// What `serde_json::from_slice` reads from bytes, or the message of its error.
pub uninterp spec fn json_read_bytes(bytes: Seq<u8>) -> Result<JsonTree, Seq<char>>;

/// The compact text that `serde_json` writes for a value.
pub uninterp spec fn json_text(tree: JsonTree) -> Seq<char>;

/// The indented text that `serde_json::to_string_pretty` writes for a value.
pub uninterp spec fn json_pretty_text(tree: JsonTree) -> Seq<char>;

/// A `serde_json::Value` opened by one level.
enum Node {
    Null,
    Bool(bool),
    PosInt(u64),
    NegInt(i64),
    Float(serde_json::Number),
    Text(String),
    Array(Vec<serde_json::Value>),
    Object(Vec<(String, serde_json::Value)>),
}

spec fn value_trees(items: Seq<serde_json::Value>) -> Seq<JsonTree> {
    items.map_values(|item: serde_json::Value| value_tree(item))
}

spec fn value_members(members: Seq<(String, serde_json::Value)>) -> Seq<(Seq<char>, JsonTree)> {
    members.map_values(|member: (String, serde_json::Value)| (member.0@, value_tree(member.1)))
}

spec fn distinct_keys(members: Seq<(String, serde_json::Value)>) -> bool {
    forall|i: int, j: int|
        0 <= i < j < members.len() ==> (#[trigger] members[i]).0@ != (#[trigger] members[j]).0@
}

impl Node {
    spec fn tree(self) -> JsonTree {
        match self {
            Node::Null => JsonTree::Null,
            Node::Bool(b) => JsonTree::Bool(b),
            Node::PosInt(n) => JsonTree::Number(NumberTree::Integer(n as int)),
            Node::NegInt(n) => JsonTree::Number(NumberTree::Integer(n as int)),
            Node::Float(n) => JsonTree::Number(NumberTree::Other(n)),
            Node::Text(s) => JsonTree::Text(s@),
            Node::Array(items) => JsonTree::Array(value_trees(items@)),
            Node::Object(members) => JsonTree::Object(pairs::map_of(value_members(members@))),
        }
    }
}

/// Opens a `serde_json::Value` by one level.
///
/// The variants of `Value` are told apart and their fields moved. `Number::as_u64` is `Some` for
/// the non-negative integers, `Number::as_i64` for the remaining, negative ones; what is left is
/// held as a float. The iterator of `serde_json::Map` hands out each member once.
#[verifier::external_body]
fn unpack(value: serde_json::Value) -> (node: Node)
    ensures
        node.tree() == value_tree(value),
        node matches Node::Object(members) ==> distinct_keys(members@),
        node matches Node::Float(n) ==> is_float(n),
{
    match value {
        serde_json::Value::Null => Node::Null,
        serde_json::Value::Bool(b) => Node::Bool(b),
        serde_json::Value::Number(n) => match (n.as_u64(), n.as_i64()) {
            (Some(u), _) => Node::PosInt(u),
            (None, Some(i)) => Node::NegInt(i),
            (None, None) => Node::Float(n),
        },
        serde_json::Value::String(s) => Node::Text(s),
        serde_json::Value::Array(items) => Node::Array(items),
        serde_json::Value::Object(members) => Node::Object(members.into_iter().collect()),
    }
}

/// Closes an opened value again.
///
/// `Number::from` keeps an integer, and collecting members whose keys differ into a
/// `serde_json::Map` keeps all of them.
#[verifier::external_body]
fn pack(node: Node) -> (value: serde_json::Value)
    requires
        node matches Node::Float(n) ==> is_float(n),
        node matches Node::Object(members) ==> distinct_keys(members@),
    ensures
        value_tree(value) == node.tree(),
{
    match node {
        Node::Null => serde_json::Value::Null,
        Node::Bool(b) => serde_json::Value::Bool(b),
        Node::PosInt(n) => serde_json::Value::Number(n.into()),
        Node::NegInt(n) => serde_json::Value::Number(n.into()),
        Node::Float(n) => serde_json::Value::Number(n),
        Node::Text(s) => serde_json::Value::String(s),
        Node::Array(items) => serde_json::Value::Array(items),
        Node::Object(members) => serde_json::Value::Object(members.into_iter().collect()),
    }
}

/// `serde_json::from_str`, read as a `Value`: what it returns, with an error as its message, is
/// what [`json_read`] names.
#[verifier::external_body]
fn read_value(text: &str) -> (r: Result<serde_json::Value, String>)
    ensures
        match r {
            Ok(value) => json_read(text@) == Ok::<JsonTree, Seq<char>>(value_tree(value)),
            Err(message) => json_read(text@) == Err::<JsonTree, Seq<char>>(message@),
        },
{
    serde_json::from_str(text).map_err(|e| e.to_string())
}

/// `serde_json::from_slice`, read as a `Value`: what it returns, with an error as its message, is
/// what [`json_read_bytes`] names.
#[verifier::external_body]
fn read_value_bytes(bytes: &[u8]) -> (r: Result<serde_json::Value, String>)
    ensures
        match r {
            Ok(value) => json_read_bytes(bytes@) == Ok::<JsonTree, Seq<char>>(value_tree(value)),
            Err(message) => json_read_bytes(bytes@) == Err::<JsonTree, Seq<char>>(message@),
        },
{
    serde_json::from_slice(bytes).map_err(|e| e.to_string())
}

/// `ToString::to_string` of a `serde_json::Value`: the compact text that [`json_text`] names.
#[verifier::external_body]
fn value_text(value: &serde_json::Value) -> (text: String)
    ensures
        text@ == json_text(value_tree(*value)),
{
    value.to_string()
}

/// `serde_json::to_string_pretty` of a `serde_json::Value`: the indented text that
/// [`json_pretty_text`] names. Writing such a value to memory does not fail.
#[verifier::external_body]
fn value_pretty_text(value: &serde_json::Value) -> (r: Result<String, String>)
    ensures
        match r {
            Ok(text) => text@ == json_pretty_text(value_tree(*value)),
            Err(_) => false,
        },
{
    serde_json::to_string_pretty(value).map_err(|e| e.to_string())
}

/// `Clone::clone` of a `serde_json::Number` gives an equal number.
pub assume_specification[ <serde_json::Number as Clone>::clone ](
    number: &serde_json::Number,
) -> (copy: serde_json::Number)
    ensures
        copy == *number,
;

impl Clone for JsonFloat {
    fn clone(&self) -> (r: Self)
        ensures
            r@ == self@,
    {
        proof {
            use_type_invariant(self);
        }
        JsonFloat { number: self.number.clone() }
    }
}

impl Clone for JsonNumber {
    fn clone(&self) -> (r: Self)
        ensures
            r@ == self@,
    {
        match self {
            JsonNumber::PosInt(n) => JsonNumber::PosInt(*n),
            JsonNumber::NegInt(n) => JsonNumber::NegInt(*n),
            JsonNumber::Float(n) => JsonNumber::Float(n.clone()),
        }
    }
}

impl Clone for Json {
    fn clone(&self) -> (r: Self)
        ensures
            r@ == self@,
        decreases self,
    {
        match self {
            Json::Null => Json::Null,
            Json::Bool(b) => Json::Bool(*b),
            Json::Number(n) => Json::Number(n.clone()),
            Json::Text(s) => Json::Text(s.clone()),
            Json::Array(items) => {
                let mut copy: Vec<Json> = Vec::new();
                for i in 0..items.len()
                    invariant
                        *self == Json::Array(*items),
                        copy.len() == i,
                        forall|j: int| 0 <= j < i ==> (#[trigger] copy[j])@ == items[j]@,
                {
                    assert(decreases_to!(self => self->Array_0));
                    assert(decreases_to!(items => items@));
                    assert(decreases_to!(items@ => items@[i as int]));
                    copy.push(items[i].clone());
                }
                proof {
                    lemma_array_tree(*items);
                    lemma_array_tree(copy);
                    assert(item_trees(copy@) =~= item_trees(items@));
                }
                Json::Array(copy)
            },
            Json::Object(members) => {
                let mut copy: Vec<(String, Json)> = Vec::new();
                for i in 0..members.len()
                    invariant
                        *self == Json::Object(*members),
                        copy.len() == i,
                        forall|j: int|
                            0 <= j < i ==> (#[trigger] copy[j]).0@ == members[j].0@ && copy[j].1@
                                == members[j].1@,
                {
                    assert(decreases_to!(self => self->Object_0));
                    assert(decreases_to!(members => members@));
                    assert(decreases_to!(members@ => members@[i as int]));
                    assert(decreases_to!(members@[i as int] => members@[i as int].1));
                    copy.push((members[i].0.clone(), members[i].1.clone()));
                }
                proof {
                    lemma_object_tree(*members);
                    lemma_object_tree(copy);
                    assert(member_trees(copy@) =~= member_trees(members@));
                }
                Json::Object(copy)
            },
        }
    }
}

/// Sets a member, in place of an earlier one of that key.
fn put_member(
    members: &mut Vec<(String, serde_json::Value)>,
    key: String,
    value: serde_json::Value,
)
    requires
        distinct_keys(old(members)@),
    ensures
        distinct_keys(final(members)@),
        pairs::map_of(value_members(final(members)@)) == pairs::map_of(
            value_members(old(members)@),
        ).insert(key@, value_tree(value)),
{
    let ghost before = members@;
    let ghost listed = value_members(before);
    let mut at: usize = 0;
    while at < members.len() && members[at].0 != key
        invariant
            at <= members.len(),
            members@ == before,
            forall|j: int| 0 <= j < at ==> (#[trigger] before[j]).0@ != key@,
        decreases members.len() - at,
    {
        at = at + 1;
    }
    if at < members.len() {
        members.remove(at);
        proof {
            assert forall|i: int| 0 <= i < listed.len() && i != at implies (
            #[trigger] listed[i]).0 != listed[at as int].0 by {
                assert(listed[i].0 == before[i].0@);
                assert(listed[at as int].0 == before[at as int].0@);
            }
            pairs::lemma_remove(listed, at as int);
            assert(value_members(members@) =~= listed.remove(at as int));
        }
    } else {
        proof {
            assert forall|i: int| 0 <= i < listed.len() implies (#[trigger] listed[i]).0
                != key@ by {
                assert(listed[i].0 == before[i].0@);
            }
            pairs::lemma_absent(listed, key@);
            assert(pairs::map_of(listed).remove(key@) =~= pairs::map_of(listed));
        }
    }
    let ghost kept = members@;
    assert(pairs::map_of(value_members(kept)) == pairs::map_of(listed).remove(key@));
    assert forall|j: int| 0 <= j < kept.len() implies (#[trigger] kept[j]).0@ != key@ by {
        if at < before.len() {
            if j < at {
                assert(kept[j] == before[j]);
            } else {
                assert(kept[j] == before[j + 1]);
                assert(before[at as int].0@ != before[j + 1].0@);
            }
        }
    }
    let ghost tree = value_tree(value);
    members.push((key, value));
    proof {
        assert(value_members(members@).drop_last() =~= value_members(kept));
        assert(value_members(members@).last() == (key@, tree));
        assert(pairs::map_of(listed).remove(key@).insert(key@, tree) =~= pairs::map_of(
            listed,
        ).insert(key@, tree));
    }
}

impl Json {
    /// Takes over what a `serde_json::Value` holds.
    pub fn from_value(value: serde_json::Value) -> (r: Json)
        ensures
            r@ == value_tree(value),
        decreases value_tree(value),
    {
        let ghost tree = value_tree(value);
        match unpack(value) {
            Node::Null => Json::Null,
            Node::Bool(b) => Json::Bool(b),
            Node::PosInt(n) => Json::Number(JsonNumber::PosInt(n)),
            Node::NegInt(n) => Json::Number(JsonNumber::NegInt(n)),
            Node::Float(number) => Json::Number(JsonNumber::Float(JsonFloat { number })),
            Node::Text(s) => Json::Text(s),
            Node::Array(items) => {
                let ghost all = items@;
                let mut r: Vec<Json> = Vec::new();
                for item in iter: items.into_iter()
                    invariant
                        iter.seq() == all,
                        tree == value_tree(value),
                        tree == JsonTree::Array(value_trees(all)),
                        r.len() == iter.index(),
                        forall|j: int|
                            0 <= j < r.len() ==> (#[trigger] r[j])@ == value_tree(all[j]),
                {
                    proof {
                        let at = iter.index() as int;
                        assert(item == all[at]);
                        assert(value_trees(all)[at] == value_tree(item));
                        assert(decreases_to!(tree => tree->Array_0));
                        assert(decreases_to!(tree->Array_0 => tree->Array_0[at]));
                    }
                    r.push(Json::from_value(item));
                }
                proof {
                    lemma_array_tree(r);
                    assert(item_trees(r@) =~= value_trees(all));
                }
                Json::Array(r)
            },
            Node::Object(members) => {
                let ghost all = members@;
                let mut r: Vec<(String, Json)> = Vec::new();
                for member in iter: members.into_iter()
                    invariant
                        iter.seq() == all,
                        distinct_keys(all),
                        tree == value_tree(value),
                        tree == JsonTree::Object(pairs::map_of(value_members(all))),
                        r.len() == iter.index(),
                        forall|j: int|
                            0 <= j < r.len() ==> (#[trigger] r[j]).0@ == all[j].0@ && r[j].1@
                                == value_tree(all[j].1),
                {
                    proof {
                        let at = iter.index() as int;
                        let listed = value_members(all);
                        assert(member == all[at]);
                        assert(listed[at] == (member.0@, value_tree(member.1)));
                        assert forall|i: int| at < i < listed.len() implies (
                        #[trigger] listed[i]).0 != listed[at].0 by {
                            assert(listed[i].0 == all[i].0@);
                            assert(all[at].0@ != all[i].0@);
                        }
                        pairs::lemma_last(listed, at);
                        pairs::lemma_finite(listed);
                        let map = tree->Object_0;
                        assert(decreases_to!(tree => tree->Object_0));
                        assert(decreases_to!(map => map[member.0@]));
                    }
                    r.push((member.0, Json::from_value(member.1)));
                }
                proof {
                    lemma_object_tree(r);
                    assert(member_trees(r@) =~= value_members(all));
                }
                Json::Object(r)
            },
        }
    }

    /// Hands out what this value holds as a `serde_json::Value`.
    pub fn to_value(&self) -> (r: serde_json::Value)
        ensures
            value_tree(r) == self@,
        decreases self,
    {
        match self {
            Json::Null => pack(Node::Null),
            Json::Bool(b) => pack(Node::Bool(*b)),
            Json::Number(JsonNumber::PosInt(n)) => pack(Node::PosInt(*n)),
            Json::Number(JsonNumber::NegInt(n)) => pack(Node::NegInt(*n)),
            Json::Number(JsonNumber::Float(n)) => {
                proof {
                    use_type_invariant(n);
                }
                pack(Node::Float(n.number.clone()))
            },
            Json::Text(s) => pack(Node::Text(s.clone())),
            Json::Array(items) => {
                let mut values: Vec<serde_json::Value> = Vec::new();
                for i in 0..items.len()
                    invariant
                        *self == Json::Array(*items),
                        values.len() == i,
                        forall|j: int|
                            0 <= j < i ==> value_tree(#[trigger] values[j]) == items[j]@,
                {
                    assert(decreases_to!(self => self->Array_0));
                    assert(decreases_to!(items => items@));
                    assert(decreases_to!(items@ => items@[i as int]));
                    values.push(items[i].to_value());
                }
                proof {
                    lemma_array_tree(*items);
                    assert(value_trees(values@) =~= item_trees(items@));
                }
                pack(Node::Array(values))
            },
            Json::Object(members) => {
                let mut values: Vec<(String, serde_json::Value)> = Vec::new();
                assert(value_members(values@) =~= Seq::empty());
                assert(member_trees(members@).take(0) =~= Seq::empty());
                for i in 0..members.len()
                    invariant
                        *self == Json::Object(*members),
                        distinct_keys(values@),
                        pairs::map_of(value_members(values@)) == pairs::map_of(
                            member_trees(members@).take(i as int),
                        ),
                {
                    assert(decreases_to!(self => self->Object_0));
                    assert(decreases_to!(members => members@));
                    assert(decreases_to!(members@ => members@[i as int]));
                    assert(decreases_to!(members@[i as int] => members@[i as int].1));
                    put_member(&mut values, members[i].0.clone(), members[i].1.to_value());
                    proof {
                        let listed = member_trees(members@);
                        assert(listed.take(i + 1).drop_last() =~= listed.take(i as int));
                        assert(listed.take(i + 1).last() == (
                            members[i as int].0@,
                            members[i as int].1@,
                        ));
                    }
                }
                proof {
                    lemma_object_tree(*members);
                    assert(member_trees(members@).take(members.len() as int) =~= member_trees(
                        members@,
                    ));
                }
                pack(Node::Object(values))
            },
        }
    }

    /// Reads JSON text; an error is told by its message.
    pub fn parse(text: &str) -> (r: Result<Json, String>)
        ensures
            match r {
                Ok(json) => json_read(text@) == Ok::<JsonTree, Seq<char>>(json@),
                Err(message) => json_read(text@) == Err::<JsonTree, Seq<char>>(message@),
            },
    {
        match read_value(text) {
            Ok(value) => Ok(Json::from_value(value)),
            Err(message) => Err(message),
        }
    }

    /// Reads JSON text from its bytes; an error is told by its message.
    pub fn parse_bytes(bytes: &[u8]) -> (r: Result<Json, String>)
        ensures
            match r {
                Ok(json) => json_read_bytes(bytes@) == Ok::<JsonTree, Seq<char>>(json@),
                Err(message) => json_read_bytes(bytes@) == Err::<JsonTree, Seq<char>>(message@),
            },
    {
        match read_value_bytes(bytes) {
            Ok(value) => Ok(Json::from_value(value)),
            Err(message) => Err(message),
        }
    }

    /// Writes this value as compact JSON text.
    pub fn to_text(&self) -> (text: String)
        ensures
            text@ == json_text(self@),
    {
        value_text(&self.to_value())
    }

    /// Writes this value as indented JSON text.
    pub fn to_pretty_text(&self) -> (text: String)
        ensures
            text@ == json_pretty_text(self@),
    {
        match value_pretty_text(&self.to_value()) {
            Ok(text) => text,
            Err(report) => report,
        }
    }

    /// The member `key` of an object; `None` where it has none, or this is no object.
    pub fn get(&self, key: &str) -> (r: Option<&Json>)
        ensures
            match r {
                Some(json) => self@.member(key@) == Some(json@),
                None => self@.member(key@) is None,
            },
            match (self@, r) {
                (JsonTree::Object(members), Some(json)) => members.contains_key(key@)
                    && members[key@] == json@,
                (JsonTree::Object(members), None) => !members.contains_key(key@),
                (_, r) => r is None,
            },
    {
        match self {
            Json::Object(members) => {
                let key_text: String = key.to_owned();
                let mut i: usize = members.len();
                proof {
                    lemma_object_tree(*members);
                }
                let ghost listed = member_trees(members@);
                while i > 0
                    invariant
                        i <= members.len(),
                        key_text@ == key@,
                        *self == Json::Object(*members),
                        listed == member_trees(members@),
                        self@ == JsonTree::Object(pairs::map_of(listed)),
                        forall|j: int| i <= j < listed.len() ==> (#[trigger] listed[j]).0 != key@,
                    decreases i,
                {
                    i = i - 1;
                    assert(listed[i as int] == (members[i as int].0@, members[i as int].1@));
                    if members[i].0 == key_text {
                        proof {
                            pairs::lemma_last(listed, i as int);
                        }
                        return Some(&members[i].1);
                    }
                }
                proof {
                    pairs::lemma_absent(listed, key@);
                }
                None
            },
            _ => None,
        }
    }

    /// The text of a string.
    pub fn as_str(&self) -> (r: Option<&str>)
        ensures
            match r {
                Some(text) => self@.text() == Some(text@),
                None => self@.text() is None,
            },
            match (*self, r) {
                (Json::Text(held), Some(text)) => held@ == text@,
                (Json::Text(_), None) => false,
                (_, r) => r is None,
            },
    {
        match self {
            Json::Text(s) => Some(s.as_str()),
            _ => None,
        }
    }

    /// The integer of a number, where an `i64` can hold it.
    pub fn as_i64(&self) -> (r: Option<i64>)
        ensures
            r == self@.integer(),
            match *self {
                Json::Number(JsonNumber::PosInt(n)) => if n <= i64::MAX {
                    r matches Some(i) && i == n
                } else {
                    r is None
                },
                Json::Number(JsonNumber::NegInt(n)) => r == Some(n),
                _ => r is None,
            },
    {
        match self {
            Json::Number(JsonNumber::PosInt(n)) => if *n <= i64::MAX as u64 {
                Some(*n as i64)
            } else {
                None
            },
            Json::Number(JsonNumber::NegInt(n)) => Some(*n),
            _ => None,
        }
    }

    /// The elements of an array.
    pub fn as_array(&self) -> (r: Option<&Vec<Json>>)
        ensures
            match r {
                Some(items) => self@.elements() == Some(item_trees(items@)),
                None => self@.elements() is None,
            },
            match (*self, r) {
                (Json::Array(held), Some(items)) => held == *items,
                (Json::Array(_), None) => false,
                (_, r) => r is None,
            },
    {
        match self {
            Json::Array(items) => {
                proof {
                    lemma_array_tree(*items);
                }
                Some(items)
            },
            _ => None,
        }
    }

    /// Whether this is an object.
    pub fn is_object(&self) -> (r: bool)
        ensures
            r == (self@ is Object),
            r == (*self is Object),
    {
        match self {
            Json::Object(_) => true,
            _ => false,
        }
    }

    /// Whether this is a string.
    pub fn is_string(&self) -> (r: bool)
        ensures
            r == (self@ is Text),
            r == (*self is Text),
    {
        match self {
            Json::Text(_) => true,
            _ => false,
        }
    }

    /// A value that holds a text.
    pub fn text(text: &str) -> (r: Json)
        ensures
            r@ == JsonTree::Text(text@),
    {
        Json::Text(text.to_owned())
    }

    /// A value that holds a non-negative integer.
    pub fn number(n: u64) -> (r: Json)
        ensures
            r@ == JsonTree::Number(NumberTree::Integer(n as int)),
    {
        Json::Number(JsonNumber::PosInt(n))
    }

    /// An object without members.
    pub fn object() -> (r: Json)
        ensures
            r@ == JsonTree::Object(Map::empty()),
    {
        let members: Vec<(String, Json)> = Vec::new();
        proof {
            lemma_object_tree(members);
            assert(member_trees(members@) =~= Seq::empty());
        }
        Json::Object(members)
    }

    /// An object with a member set, in place of an earlier one of that name.
    pub fn with(self, key: &str, value: Json) -> (r: Json)
        requires
            self@ is Object,
        ensures
            r@ == JsonTree::Object(self@->Object_0.insert(key@, value@)),
    {
        match self {
            Json::Object(members) => {
                let ghost before = members;
                let mut members: Vec<(String, Json)> = members;
                members.push((key.to_owned(), value));
                proof {
                    lemma_object_tree(before);
                    lemma_object_tree(members);
                    assert(member_trees(members@).drop_last() =~= member_trees(before@));
                }
                Json::Object(members)
            },
            other => other,
        }
    }

    /// An array of one element.
    pub fn array_of(item: Json) -> (r: Json)
        ensures
            r@ == JsonTree::Array(seq![item@]),
    {
        let mut items: Vec<Json> = Vec::new();
        items.push(item);
        proof {
            lemma_array_tree(items);
            assert(item_trees(items@) =~= seq![item@]);
        }
        Json::Array(items)
    }
}

/// Only objects have members, and an object has those of its map.
pub proof fn law_members_are_those_of_the_map(tree: JsonTree, key: Seq<char>)
    ensures
        match tree {
            JsonTree::Object(members) => if members.contains_key(key) {
                tree.member(key) == Some(members[key])
            } else {
                tree.member(key) is None
            },
            _ => tree.member(key) is None,
        },
{
}

/// Only a string has a text, only an array has elements, and only a number that is an integer and
/// fits has an integer; each is just what the value holds.
pub proof fn law_values_tell_what_they_hold(tree: JsonTree)
    ensures
        tree.text() == (match tree {
            JsonTree::Text(text) => Some(text),
            _ => None::<Seq<char>>,
        }),
        tree.elements() == (match tree {
            JsonTree::Array(items) => Some(items),
            _ => None::<Seq<JsonTree>>,
        }),
        match tree {
            JsonTree::Number(NumberTree::Integer(n)) => if i64::MIN <= n <= i64::MAX {
                tree.integer() matches Some(i) && i == n
            } else {
                tree.integer() is None
            },
            _ => tree.integer() is None,
        },
{
}

/// The content of a value that holds no others is what it holds.
pub proof fn law_plain_content(b: bool, p: u64, n: i64, f: JsonFloat, s: String)
    ensures
        Json::Null@ == JsonTree::Null,
        Json::Bool(b)@ == JsonTree::Bool(b),
        Json::Number(JsonNumber::PosInt(p))@ == JsonTree::Number(NumberTree::Integer(p as int)),
        Json::Number(JsonNumber::NegInt(n))@ == JsonTree::Number(NumberTree::Integer(n as int)),
        Json::Number(JsonNumber::Float(f))@ == JsonTree::Number(NumberTree::Other(f@)),
        Json::Text(s)@ == JsonTree::Text(s@),
{
}

/// The content of an array is made of the contents of its elements, each at its position.
pub proof fn law_array_content(items: Vec<Json>)
    ensures
        match Json::Array(items)@ {
            JsonTree::Array(trees) => trees.len() == items@.len() && forall|i: int|
                0 <= i < trees.len() ==> #[trigger] trees[i] == items@[i]@,
            _ => false,
        },
        item_trees(items@).len() == items@.len(),
        forall|i: int| 0 <= i < items@.len() ==> #[trigger] item_trees(items@)[i] == items@[i]@,
{
    lemma_array_tree(items);
}

/// The content of an object has just the keys of its members, and the last member of a key gives
/// its value.
pub proof fn law_object_content(members: Vec<(String, Json)>, at: int)
    requires
        0 <= at < members@.len(),
        forall|i: int| at < i < members@.len() ==> (#[trigger] members@[i]).0@ != members@[at].0@,
    ensures
        match Json::Object(members)@ {
            JsonTree::Object(map) => map.contains_key(members@[at].0@) && map[members@[at].0@]
                == members@[at].1@,
            _ => false,
        },
{
    lemma_object_tree(members);
    let listed = member_trees(members@);
    assert(listed[at] == (members@[at].0@, members@[at].1@));
    assert forall|i: int| at < i < listed.len() implies (#[trigger] listed[i]).0
        != listed[at].0 by {
        assert(listed[i].0 == members@[i].0@);
    }
    pairs::lemma_last(listed, at);
}

/// A key that no member of an object has is not in its content.
pub proof fn law_object_has_no_other_keys(members: Vec<(String, Json)>, key: Seq<char>)
    requires
        forall|i: int| 0 <= i < members@.len() ==> (#[trigger] members@[i]).0@ != key,
    ensures
        match Json::Object(members)@ {
            JsonTree::Object(map) => !map.contains_key(key),
            _ => false,
        },
{
    lemma_object_tree(members);
    let listed = member_trees(members@);
    assert forall|i: int| 0 <= i < listed.len() implies (#[trigger] listed[i]).0 != key by {
        assert(listed[i].0 == members@[i].0@);
    }
    pairs::lemma_absent(listed, key);
}

} // verus!
