//! JSON documents as trees of plain values.
//!
//! Text is parsed by `serde_json`; everything that reads or builds a document
//! works on the trees of this module.

use vstd::prelude::*;

use crate::text::chars::{self, same};

verus! {

/// A JSON number. A number that is no integer of 64 bits is kept as it is
/// written.
#[derive(Debug)]
pub enum JsonNumber {
    Unsigned(u64),
    Negative(i64),
    Other(String),
}

/// A JSON value. The members of an object stand in the order of their keys
/// where the value was parsed, and in the order given where it was built.
#[derive(Debug)]
pub enum Json {
    Null,
    Bool(bool),
    Number(JsonNumber),
    Text(String),
    List(Vec<Json>),
    Object(Vec<(String, Json)>),
}

/// The contents of a JSON value.
pub enum Tree {
    Null,
    Bool(bool),
    Unsigned(u64),
    Negative(i64),
    Other(Seq<char>),
    Text(Seq<char>),
    List(Seq<Tree>),
    Object(Seq<(Seq<char>, Tree)>),
}

/// The contents of `j`.
pub open spec fn tree(j: Json) -> Tree
    decreases j,
{
    match j {
        Json::Null => Tree::Null,
        Json::Bool(b) => Tree::Bool(b),
        Json::Number(JsonNumber::Unsigned(n)) => Tree::Unsigned(n),
        Json::Number(JsonNumber::Negative(n)) => Tree::Negative(n),
        Json::Number(JsonNumber::Other(s)) => Tree::Other(s@),
        Json::Text(s) => Tree::Text(s@),
        Json::List(v) => Tree::List(
            Seq::new(
                v@.len(),
                |i: int|
                    if 0 <= i < v@.len() {
                        tree(v@[i])
                    } else {
                        Tree::Null
                    },
            ),
        ),
        Json::Object(v) => Tree::Object(
            Seq::new(
                v@.len(),
                |i: int|
                    if 0 <= i < v@.len() {
                        (v@[i].0@, tree(v@[i].1))
                    } else {
                        (Seq::empty(), Tree::Null)
                    },
            ),
        ),
    }
}

impl View for Json {
    type V = Tree;

    open spec fn view(&self) -> Tree {
        tree(*self)
    }
}

/// The contents of an optional JSON value.
pub open spec fn opt_tree(o: Option<Json>) -> Option<Tree> {
    match o {
        Some(j) => Some(j@),
        None => None,
    }
}

/// The value of the first member of `members` with the key `key`.
pub open spec fn member(members: Seq<(Seq<char>, Tree)>, key: Seq<char>) -> Option<Tree>
    decreases members.len(),
{
    if members.len() == 0 {
        None
    } else if members[0].0 == key {
        Some(members[0].1)
    } else {
        member(members.drop_first(), key)
    }
}

/// The member `key` of `t`, if `t` is an object that has it.
pub open spec fn field(t: Tree, key: Seq<char>) -> Option<Tree> {
    match t {
        Tree::Object(members) => member(members, key),
        _ => None,
    }
}

/// The member `key` of `t`, if it is text.
pub open spec fn text_field(t: Tree, key: Seq<char>) -> Option<Seq<char>> {
    match field(t, key) {
        Some(Tree::Text(s)) => Some(s),
        _ => None,
    }
}

/// The member `key` of `t`, if it is a truth value.
pub open spec fn bool_field(t: Tree, key: Seq<char>) -> Option<bool> {
    match field(t, key) {
        Some(Tree::Bool(b)) => Some(b),
        _ => None,
    }
}

/// The member `key` of `t`, if it is an unsigned integer.
pub open spec fn number_field(t: Tree, key: Seq<char>) -> Option<u64> {
    match field(t, key) {
        Some(Tree::Unsigned(n)) => Some(n),
        _ => None,
    }
}

/// The member `key` of `t`, if it is a list.
pub open spec fn list_field(t: Tree, key: Seq<char>) -> Option<Seq<Tree>> {
    match field(t, key) {
        Some(Tree::List(v)) => Some(v),
        _ => None,
    }
}

/// The texts among the items of a list, in order.
pub open spec fn texts_in(v: Seq<Tree>) -> Seq<Seq<char>>
    decreases v.len(),
{
    if v.len() == 0 {
        Seq::empty()
    } else {
        match v.last() {
            Tree::Text(s) => texts_in(v.drop_last()).push(s),
            _ => texts_in(v.drop_last()),
        }
    }
}

/// `serde_json::Value`, which is only carried from the parser to `tree_of`.
#[verifier::external_type_specification]
#[verifier::external_body]
pub struct ExValue(serde_json::Value);

/// What a `serde_json::Value` holds.
pub uninterp spec fn value_tree(v: serde_json::Value) -> Tree;

/// What `serde_json::from_str` makes of a text: the value that it denotes, or
/// the message of the error.
pub uninterp spec fn json_text(s: Seq<char>) -> Result<Tree, Seq<char>>;

/// `serde_json::from_str` maps each text to one value or one error message,
/// together named `json_text`.
#[verifier::external_body]
fn parse_value(s: &str) -> (r: Result<serde_json::Value, String>)
    ensures
        match r {
            Ok(v) => json_text(s@) == Ok::<Tree, Seq<char>>(value_tree(v)),
            Err(e) => json_text(s@) == Err::<Tree, Seq<char>>(e@),
        },
{
    serde_json::from_str::<serde_json::Value>(s).map_err(|e| e.to_string())
}

/// The value with the contents of a `serde_json::Value`, part by part: its
/// integers by `Number::as_u64` and `Number::as_i64`, another number as
/// `Number::to_string` writes it, and an object's members in the order in
/// which its map gives them.
#[verifier::external_body]
fn tree_of(v: serde_json::Value) -> (r: Json)
    ensures
        r@ == value_tree(v),
{
    match v {
        serde_json::Value::Null => Json::Null,
        serde_json::Value::Bool(b) => Json::Bool(b),
        serde_json::Value::Number(n) => Json::Number(match (n.as_u64(), n.as_i64()) {
            (Some(u), _) => JsonNumber::Unsigned(u),
            (None, Some(i)) => JsonNumber::Negative(i),
            (None, None) => JsonNumber::Other(n.to_string()),
        }),
        serde_json::Value::String(s) => Json::Text(s),
        serde_json::Value::Array(a) => Json::List(a.into_iter().map(tree_of).collect()),
        serde_json::Value::Object(o) => Json::Object(
            o.into_iter().map(|(k, v)| (k, tree_of(v))).collect(),
        ),
    }
}

/// The JSON value that `s` denotes, or the message of the parse error.
pub fn parse_json(s: &str) -> (r: Result<Json, String>)
    ensures
        match r {
            Ok(j) => json_text(s@) == Ok::<Tree, Seq<char>>(j@),
            Err(e) => json_text(s@) == Err::<Tree, Seq<char>>(e@),
        },
{
    match parse_value(s) {
        Ok(v) => Ok(tree_of(v)),
        Err(e) => Err(e),
    }
}

/// The position of the first member with the key `key`.
fn member_index(v: &Vec<(String, Json)>, key: &str) -> (r: Option<usize>)
    ensures
        match r {
            Some(i) => i < v@.len() && v@[i as int].0@ == key@ && forall|j: int|
                0 <= j < i ==> v@[j].0@ != key@,
            None => forall|j: int| 0 <= j < v@.len() ==> v@[j].0@ != key@,
        },
{
    let mut i: usize = 0;
    while i < v.len()
        invariant
            i <= v@.len(),
            forall|j: int| 0 <= j < i ==> v@[j].0@ != key@,
        decreases v@.len() - i,
    {
        if same(v[i].0.as_str(), key) {
            return Some(i);
        }
        i = i + 1;
    }
    None
}

/// The first member with a key is the one found by a scan.
pub proof fn lemma_member(m: Seq<(Seq<char>, Tree)>, key: Seq<char>, i: int)
    requires
        0 <= i <= m.len(),
        forall|j: int| 0 <= j < i ==> m[j].0 != key,
        i < m.len() ==> m[i].0 == key,
    ensures
        member(m, key) == if i < m.len() {
            Some(m[i].1)
        } else {
            None::<Tree>
        },
    decreases m.len(),
{
    if i > 0 {
        assert forall|j: int| 0 <= j < i - 1 implies m.drop_first()[j].0 != key by {
            assert(m[j + 1].0 != key);
        }
        assert(m[0].0 != key);
        lemma_member(m.drop_first(), key, i - 1);
    }
}

/// A text, or null where there is none.
pub open spec fn opt_text_tree(s: Option<Seq<char>>) -> Tree {
    match s {
        Some(t) => Tree::Text(t),
        None => Tree::Null,
    }
}

impl Json {
    /// A text value.
    pub fn text(s: &str) -> (r: Json)
        ensures
            r@ == Tree::Text(s@),
    {
        Json::Text(s.to_string())
    }

    /// An unsigned integer.
    pub fn number(n: u64) -> (r: Json)
        ensures
            r@ == Tree::Unsigned(n),
    {
        Json::Number(JsonNumber::Unsigned(n))
    }

    /// A text value, or null where there is none.
    pub fn opt_text(s: Option<&str>) -> (r: Json)
        ensures
            r@ == opt_text_tree(chars::opt_str(s)),
    {
        match s {
            Some(t) => Json::Text(t.to_string()),
            None => Json::Null,
        }
    }

    /// The member `key`, if this is an object that has it.
    pub fn get(&self, key: &str) -> (r: Option<&Json>)
        ensures
            match r {
                Some(j) => field(self@, key@) == Some(j@),
                None => field(self@, key@) is None,
            },
    {
        match self {
            Json::Object(v) => {
                let found = member_index(v, key);
                proof {
                    let m = self@->Object_0;
                    assert forall|j: int| 0 <= j < m.len() implies (#[trigger] m[j]).0
                        == v@[j].0@ by {}
                    lemma_member(
                        m,
                        key@,
                        match found {
                            Some(i) => i as int,
                            None => m.len() as int,
                        },
                    );
                }
                match found {
                    Some(i) => Some(&v[i].1),
                    None => None,
                }
            },
            _ => None,
        }
    }

    /// The member `key`, taken out of this value.
    pub fn into_field(self, key: &str) -> (r: Option<Json>)
        ensures
            opt_tree(r) == field(self@, key@),
    {
        match self {
            Json::Object(v) => {
                let found = member_index(&v, key);
                proof {
                    let m = self@->Object_0;
                    assert forall|j: int| 0 <= j < m.len() implies (#[trigger] m[j]).0
                        == v@[j].0@ by {}
                    lemma_member(
                        m,
                        key@,
                        match found {
                            Some(i) => i as int,
                            None => m.len() as int,
                        },
                    );
                }
                let mut v = v;
                match found {
                    Some(i) => {
                        let (_key, value) = v.swap_remove(i);
                        Some(value)
                    },
                    None => None,
                }
            },
            _ => None,
        }
    }

    /// The member `key`, if it is text.
    pub fn get_text(&self, key: &str) -> (r: Option<String>)
        ensures
            chars::opt_text(r) == text_field(self@, key@),
    {
        match self.get(key) {
            Some(Json::Text(s)) => Some(s.clone()),
            _ => None,
        }
    }

    /// The member `key`, if it is a truth value.
    pub fn get_bool(&self, key: &str) -> (r: Option<bool>)
        ensures
            r == bool_field(self@, key@),
    {
        match self.get(key) {
            Some(Json::Bool(b)) => Some(*b),
            _ => None,
        }
    }

    /// The member `key`, if it is an unsigned integer.
    pub fn get_number(&self, key: &str) -> (r: Option<u64>)
        ensures
            r == number_field(self@, key@),
    {
        match self.get(key) {
            Some(Json::Number(JsonNumber::Unsigned(n))) => Some(*n),
            _ => None,
        }
    }

    /// The texts among the items of the list `key`, in order.
    pub fn get_texts(&self, key: &str) -> (r: Vec<String>)
        ensures
            chars::texts(r@) == match list_field(self@, key@) {
                Some(v) => texts_in(v),
                None => Seq::empty(),
            },
    {
        let mut out: Vec<String> = Vec::new();
        match self.get(key) {
            Some(Json::List(v)) => {
                let ghost items = list_field(self@, key@)->0;
                let mut i: usize = 0;
                assert(items.take(0) =~= Seq::<Tree>::empty());
                assert(chars::texts(out@) =~= texts_in(items.take(0)));
                while i < v.len()
                    invariant
                        i <= v@.len(),
                        items.len() == v@.len(),
                        forall|j: int| 0 <= j < v@.len() ==> #[trigger] items[j] == tree(v@[j]),
                        chars::texts(out@) == texts_in(items.take(i as int)),
                    decreases v@.len() - i,
                {
                    assert(items.take(i + 1).drop_last() =~= items.take(i as int));
                    assert(items.take(i + 1).last() == tree(v@[i as int]));
                    if let Json::Text(s) = &v[i] {
                        let ghost prior = out@;
                        out.push(s.clone());
                        assert(chars::texts(out@) =~= chars::texts(prior).push(s@));
                    }
                    i = i + 1;
                }
                assert(items.take(i as int) =~= items);
                out
            },
            _ => {
                assert(chars::texts(out@) =~= Seq::<Seq<char>>::empty());
                out
            },
        }
    }
}

/// The members of an object that is being built.
#[derive(Debug)]
pub struct JsonObject {
    members: Vec<(String, Json)>,
}

impl View for JsonObject {
    type V = Seq<(Seq<char>, Tree)>;

    closed spec fn view(&self) -> Seq<(Seq<char>, Tree)> {
        Seq::new(self.members@.len(), |i: int| (self.members@[i].0@, tree(self.members@[i].1)))
    }
}

impl JsonObject {
    /// No members.
    pub fn new() -> (r: JsonObject)
        ensures
            r@ == Seq::<(Seq<char>, Tree)>::empty(),
    {
        let r = JsonObject { members: Vec::new() };
        assert(r@ =~= Seq::empty());
        r
    }

    /// Appends a member.
    pub fn put(&mut self, key: &str, value: Json)
        ensures
            final(self)@ == old(self)@.push((key@, value@)),
    {
        self.members.push((key.to_string(), value));
        assert(self@ =~= old(self)@.push((key@, value@)));
    }

    /// The object.
    pub fn done(self) -> (r: Json)
        ensures
            r@ == Tree::Object(self@),
    {
        let r = Json::Object(self.members);
        assert(r@->Object_0 =~= self@);
        r
    }
}

/// The contents of a list of JSON values.
pub open spec fn trees(v: Seq<Json>) -> Seq<Tree> {
    Seq::new(v.len(), |i: int| tree(v[i]))
}

/// A list of JSON values.
pub fn json_list(v: Vec<Json>) -> (r: Json)
    ensures
        r@ == Tree::List(trees(v@)),
{
    let r = Json::List(v);
    assert(r@->List_0 =~= trees(v@));
    r
}

/// The contents of a list of texts.
pub open spec fn text_items(v: Seq<Seq<char>>) -> Seq<Tree> {
    v.map_values(|s: Seq<char>| Tree::Text(s))
}

/// A list of texts.
pub fn json_texts(v: &Vec<String>) -> (r: Json)
    ensures
        r@ == Tree::List(text_items(chars::texts(v@))),
{
    let mut items: Vec<Json> = Vec::new();
    let mut i: usize = 0;
    let ghost all = text_items(chars::texts(v@));
    while i < v.len()
        invariant
            i <= v@.len(),
            all == text_items(chars::texts(v@)),
            trees(items@) == all.take(i as int),
        decreases v@.len() - i,
    {
        let ghost before = trees(items@);
        items.push(Json::text(v[i].as_str()));
        assert(trees(items@) =~= before.push(Tree::Text(v@[i as int]@)));
        i = i + 1;
        assert(trees(items@) =~= all.take(i as int));
    }
    assert(all.take(i as int) =~= all);
    json_list(items)
}

/// The texts of a list of texts are those texts; what is no text is left out. A text that
/// is missing is null.
pub proof fn lemma_texts_in(v: Seq<Seq<char>>, items: Seq<Tree>, t: Tree, s: Seq<char>)
    ensures
        texts_in(text_items(v)) == v,
        t matches Tree::Text(x) ==> texts_in(items.push(t)) == texts_in(items).push(x),
        !(t is Text) ==> texts_in(items.push(t)) == texts_in(items),
        opt_text_tree(Some(s)) == Tree::Text(s),
        opt_text_tree(None) == Tree::Null,
    decreases v.len(),
{
    assert(items.push(t).drop_last() =~= items);
    if v.len() == 0 {
        assert(texts_in(text_items(v)) =~= v);
    } else {
        lemma_texts_in(v.drop_last(), items, t, s);
        assert(text_items(v).drop_last() =~= text_items(v.drop_last()));
        assert(v =~= v.drop_last().push(v.last()));
    }
}

/// A member is found under its own key, whatever stands behind it and whatever has other
/// keys before it; what has another key does not hide it.
pub proof fn lemma_field(
    before: Seq<(Seq<char>, Tree)>,
    key: Seq<char>,
    value: Tree,
    after: Seq<(Seq<char>, Tree)>,
)
    requires
        forall|i: int| 0 <= i < before.len() ==> (#[trigger] before[i]).0 != key,
    ensures
        field(Tree::Object(before + seq![(key, value)] + after), key) == Some(value),
        field(Tree::Object(before), key) is None,
        value matches Tree::Text(s) ==> text_field(
            Tree::Object(before + seq![(key, value)] + after),
            key,
        ) == Some(s),
        value matches Tree::Bool(b) ==> bool_field(
            Tree::Object(before + seq![(key, value)] + after),
            key,
        ) == Some(b),
        value matches Tree::Unsigned(n) ==> number_field(
            Tree::Object(before + seq![(key, value)] + after),
            key,
        ) == Some(n),
        value matches Tree::List(v) ==> list_field(
            Tree::Object(before + seq![(key, value)] + after),
            key,
        ) == Some(v),
{
    let m = before + seq![(key, value)] + after;
    let k = before.len() as int;
    assert(m[k] == (key, value));
    assert forall|j: int| 0 <= j < k implies m[j].0 != key by {
        assert(m[j] == before[j]);
    }
    lemma_member(m, key, k);
    lemma_member(before, key, k);
}

} // verus!
