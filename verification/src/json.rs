//! JSON trees.
//!
//! Texts are read and written by `serde_json`; in between a document is a
//! [`Json`] tree.
use vstd::prelude::*;
use vstd::string::*;
use crate::text::{copy, same};

verus! {

/// `serde_json::Value`, a parsed document.
#[verifier::external_type_specification]
#[verifier::external_body]
pub struct ExValue(serde_json::Value);

/// `serde_json::Number`; carried through unread where it is not an integer.
#[verifier::external_type_specification]
#[verifier::external_body]
pub struct ExNumber(serde_json::Number);

/// `serde_json::Map`, the fields of an object.
#[verifier::external_type_specification]
#[verifier::external_body]
#[verifier::reject_recursive_types(K)]
#[verifier::reject_recursive_types(V)]
pub struct ExMap<K, V>(serde_json::Map<K, V>);

/// A JSON document.
#[derive(Debug)]
pub enum Json {
    Null,
    Bool(bool),
    /// An integer from zero up.
    UInt(u64),
    /// A negative integer.
    NegInt(i64),
    /// A number that is not an integer.
    Real(serde_json::Number),
    Str(String),
    Arr(Vec<Json>),
    Obj(Vec<(String, Json)>),
}

/// The content of a JSON document.
pub enum JVal {
    Null,
    Bool(bool),
    UInt(u64),
    NegInt(i64),
    Real(serde_json::Number),
    Str(Seq<char>),
    Arr(Seq<JVal>),
    Obj(Seq<(Seq<char>, JVal)>),
}

impl View for Json {
    type V = JVal;

    open spec fn view(&self) -> JVal
        decreases self,
    {
        match self {
            Json::Null => JVal::Null,
            Json::Bool(b) => JVal::Bool(*b),
            Json::UInt(n) => JVal::UInt(*n),
            Json::NegInt(n) => JVal::NegInt(*n),
            Json::Real(n) => JVal::Real(*n),
            Json::Str(s) => JVal::Str(s@),
            Json::Arr(v) => JVal::Arr(
                Seq::new(
                    v@.len(),
                    |i: int|
                        if 0 <= i < v@.len() {
                            v@[i].view()
                        } else {
                            JVal::Null
                        },
                ),
            ),
            Json::Obj(v) => JVal::Obj(
                Seq::new(
                    v@.len(),
                    |i: int|
                        if 0 <= i < v@.len() {
                            (v@[i].0@, v@[i].1.view())
                        } else {
                            (Seq::empty(), JVal::Null)
                        },
                ),
            ),
        }
    }
}

/// The contents of a list of documents.
pub open spec fn items_view(v: Seq<Json>) -> Seq<JVal> {
    Seq::new(v.len(), |i: int| v[i]@)
}

/// The contents of a list of named documents.
pub open spec fn fields_view(v: Seq<(String, Json)>) -> Seq<(Seq<char>, JVal)> {
    Seq::new(v.len(), |i: int| (v[i].0@, v[i].1@))
}

pub broadcast proof fn lemma_arr_view(v: Vec<Json>)
    ensures
        (#[trigger] Json::Arr(v)@) == JVal::Arr(items_view(v@)),
{
    reveal_with_fuel(<Json as View>::view, 2);
    let j = Json::Arr(v);
    assert(j@ is Arr);
    let a = j@->Arr_0;
    assert(a.len() == v@.len());
    assert forall|i: int| 0 <= i < v@.len() implies a[i] == items_view(v@)[i] by {
        assert(a[i] == v@[i].view());
    }
    assert(a =~= items_view(v@));
}

pub broadcast proof fn lemma_obj_view(v: Vec<(String, Json)>)
    ensures
        (#[trigger] Json::Obj(v)@) == JVal::Obj(fields_view(v@)),
{
    reveal_with_fuel(<Json as View>::view, 2);
    let j = Json::Obj(v);
    assert(j@ is Obj);
    let a = j@->Obj_0;
    assert(a.len() == v@.len());
    assert forall|i: int| 0 <= i < v@.len() implies a[i] == fields_view(v@)[i] by {
        assert(a[i] == (v@[i].0@, v@[i].1.view()));
    }
    assert(a =~= fields_view(v@));
}

/// Position of the first field named `key` at or after `i`, or the length.
pub open spec fn field_pos(f: Seq<(Seq<char>, JVal)>, key: Seq<char>, i: int) -> int
    decreases f.len() - i,
{
    if i < 0 || i >= f.len() {
        f.len() as int
    } else if f[i].0 == key {
        i
    } else {
        field_pos(f, key, i + 1)
    }
}

impl JVal {
    /// The value of a field; `None` where there is none.
    pub open spec fn get(self, key: Seq<char>) -> Option<JVal> {
        match self {
            JVal::Obj(f) => {
                let i = field_pos(f, key, 0);
                if 0 <= i < f.len() {
                    Some(f[i].1)
                } else {
                    None
                }
            },
            _ => None,
        }
    }

    /// The value of a field; null where there is none.
    pub open spec fn field(self, key: Seq<char>) -> JVal {
        match self.get(key) {
            Some(v) => v,
            None => JVal::Null,
        }
    }

    /// The item at an index; null where there is none.
    pub open spec fn item(self, i: int) -> JVal {
        match self {
            JVal::Arr(v) => if 0 <= i < v.len() {
                v[i]
            } else {
                JVal::Null
            },
            _ => JVal::Null,
        }
    }

    /// An object without fields.
    pub open spec fn object() -> JVal {
        JVal::Obj(Seq::empty())
    }

    /// An array without items.
    pub open spec fn array() -> JVal {
        JVal::Arr(Seq::empty())
    }

    /// The object with one more field at its end.
    pub open spec fn with(self, key: Seq<char>, value: JVal) -> JVal {
        match self {
            JVal::Obj(f) => JVal::Obj(f.push((key, value))),
            _ => self,
        }
    }

    /// The array with one more item at its end.
    pub open spec fn plus(self, item: JVal) -> JVal {
        match self {
            JVal::Arr(v) => JVal::Arr(v.push(item)),
            _ => self,
        }
    }

    pub open spec fn as_text(self) -> Option<Seq<char>> {
        match self {
            JVal::Str(s) => Some(s),
            _ => None,
        }
    }

    pub open spec fn as_uint(self) -> Option<u64> {
        match self {
            JVal::UInt(n) => Some(n),
            _ => None,
        }
    }

    pub open spec fn as_items(self) -> Option<Seq<JVal>> {
        match self {
            JVal::Arr(v) => Some(v),
            _ => None,
        }
    }

    pub open spec fn as_flag(self) -> Option<bool> {
        match self {
            JVal::Bool(b) => Some(b),
            _ => None,
        }
    }
}

proof fn lemma_field_pos(f: Seq<(Seq<char>, JVal)>, key: Seq<char>, i: int)
    requires
        0 <= i <= f.len(),
    ensures
        i <= field_pos(f, key, i) <= f.len(),
        field_pos(f, key, i) < f.len() ==> f[field_pos(f, key, i)].0 == key,
        forall|j: int| i <= j < field_pos(f, key, i) ==> (#[trigger] f[j]).0 != key,
    decreases f.len() - i,
{
    if i < f.len() && f[i].0 != key {
        lemma_field_pos(f, key, i + 1);
    }
}

/// A field that is added is found, unless there was one of that name before.
pub proof fn lemma_get_with(v: JVal, key: Seq<char>, value: JVal, k: Seq<char>)
    requires
        v is Obj,
    ensures
        v.with(key, value).get(k) == (match v.get(k) {
            Some(x) => Some(x),
            None => if k == key {
                Some(value)
            } else {
                None
            },
        }),
{
    let f = v->Obj_0;
    let g = f.push((key, value));
    lemma_field_pos(f, k, 0);
    lemma_field_pos(g, k, 0);
    let a = field_pos(f, k, 0);
    let b = field_pos(g, k, 0);
    if a < f.len() {
        assert(g[a].0 == k);
        if b < a {
            assert(f[b].0 == k);
        }
    } else {
        if b < f.len() {
            assert(f[b].0 == k);
        }
        if k == key {
            assert(g[f.len() as int].0 == k);
        }
    }
}

impl Json {
    /// The value of a field.
    pub fn get(&self, key: &str) -> (r: Option<&Json>)
        ensures
            match r {
                Some(v) => self@.get(key@) == Some(v@),
                None => self@.get(key@) is None,
            },
    {
        match self {
            Json::Obj(v) => {
                proof {
                    lemma_obj_view(*v);
                }
                let ghost f = fields_view(v@);
                let n: usize = v.len();
                let mut i: usize = 0;
                while i < n
                    invariant
                        i <= n,
                        n == v@.len(),
                        f == fields_view(v@),
                        field_pos(f, key@, 0) == field_pos(f, key@, i as int),
                        self@ == JVal::Obj(f),
                    decreases n - i,
                {
                    assert(f[i as int].0 == v@[i as int].0@);
                    if same(v[i].0.as_str(), key) {
                        return Some(&v[i].1);
                    }
                    i += 1;
                }
                None
            },
            _ => None,
        }
    }

    /// The text of a string.
    pub fn as_str(&self) -> (r: Option<&str>)
        ensures
            match r {
                Some(s) => self@.as_text() == Some(s@),
                None => self@.as_text() is None,
            },
    {
        match self {
            Json::Str(s) => Some(s.as_str()),
            _ => None,
        }
    }

    /// The value of a non-negative integer.
    pub fn as_u64(&self) -> (r: Option<u64>)
        ensures
            r == self@.as_uint(),
    {
        match self {
            Json::UInt(n) => Some(*n),
            _ => None,
        }
    }

    /// The value of a boolean.
    pub fn as_bool(&self) -> (r: Option<bool>)
        ensures
            r == self@.as_flag(),
    {
        match self {
            Json::Bool(b) => Some(*b),
            _ => None,
        }
    }

    /// The items of an array.
    pub fn as_array(&self) -> (r: Option<&Vec<Json>>)
        ensures
            match r {
                Some(v) => self@ == JVal::Arr(items_view(v@)),
                None => self@.as_items() is None,
            },
    {
        match self {
            Json::Arr(v) => {
                proof {
                    lemma_arr_view(*v);
                }
                Some(v)
            },
            _ => None,
        }
    }

    /// The text of a string field.
    pub fn text_field(&self, key: &str) -> (r: Option<&str>)
        ensures
            match r {
                Some(s) => self@.field(key@).as_text() == Some(s@),
                None => self@.field(key@).as_text() is None,
            },
    {
        match self.get(key) {
            Some(v) => v.as_str(),
            None => None,
        }
    }

    /// The value of a field that holds a non-negative integer.
    pub fn uint_field(&self, key: &str) -> (r: Option<u64>)
        ensures
            r == self@.field(key@).as_uint(),
    {
        match self.get(key) {
            Some(v) => v.as_u64(),
            None => None,
        }
    }

    /// The items of a field that holds an array.
    pub fn array_field(&self, key: &str) -> (r: Option<&Vec<Json>>)
        ensures
            match r {
                Some(v) => self@.field(key@) == JVal::Arr(items_view(v@)),
                None => self@.field(key@).as_items() is None,
            },
    {
        match self.get(key) {
            Some(v) => v.as_array(),
            None => None,
        }
    }

    /// An object without fields.
    pub fn object() -> (r: Json)
        ensures
            r@ == JVal::object(),
    {
        let v: Vec<(String, Json)> = Vec::new();
        proof {
            lemma_obj_view(v);
            assert(fields_view(v@) =~= Seq::empty());
        }
        Json::Obj(v)
    }

    /// An array without items.
    pub fn array() -> (r: Json)
        ensures
            r@ == JVal::array(),
    {
        let v: Vec<Json> = Vec::new();
        proof {
            lemma_arr_view(v);
            assert(items_view(v@) =~= Seq::empty());
        }
        Json::Arr(v)
    }

    /// The object with one more field at its end.
    pub fn with(self, key: &str, value: Json) -> (r: Json)
        ensures
            r@ == self@.with(key@, value@),
    {
        match self {
            Json::Obj(fields) => {
                let mut v = fields;
                let ghost before = v;
                v.push((copy(key), value));
                proof {
                    lemma_obj_view(before);
                    lemma_obj_view(v);
                    assert(fields_view(v@) =~= fields_view(before@).push((key@, value@)));
                }
                Json::Obj(v)
            },
            other => other,
        }
    }

    /// The array with one more item at its end.
    pub fn plus(self, item: Json) -> (r: Json)
        ensures
            r@ == self@.plus(item@),
    {
        match self {
            Json::Arr(items) => {
                let mut v = items;
                let ghost before = v;
                v.push(item);
                proof {
                    lemma_arr_view(before);
                    lemma_arr_view(v);
                    assert(items_view(v@) =~= items_view(before@).push(item@));
                }
                Json::Arr(v)
            },
            other => other,
        }
    }

    /// The object with one more string field at its end.
    pub fn with_text(self, key: &str, value: &str) -> (r: Json)
        ensures
            r@ == self@.with(key@, JVal::Str(value@)),
    {
        self.with(key, Json::text(value))
    }

    /// A string.
    pub fn text(s: &str) -> (r: Json)
        ensures
            r@ == JVal::Str(s@),
    {
        Json::Str(copy(s))
    }
}

/// What a `serde_json::Value` holds.
pub uninterp spec fn value_tree(v: serde_json::Value) -> JVal;

/// What a `serde_json::Map` holds, in the order in which it is walked.
pub uninterp spec fn map_fields(m: serde_json::Map<String, serde_json::Value>) -> Seq<
    (Seq<char>, JVal),
>;

/// The outcome of reading a JSON text: the document, or the error's text.
pub uninterp spec fn json_parse(text: Seq<char>) -> Result<JVal, Seq<char>>;

/// The compact JSON text of a document.
pub uninterp spec fn value_text(v: JVal) -> Seq<char>;

/// What a `serde_json::Number` is: its integer where it is one, else itself.
pub uninterp spec fn number_tree(n: serde_json::Number) -> JVal;

/// A text comes before another: at the first character in which they differ, or
/// as the shorter one.
pub open spec fn comes_before(a: Seq<char>, b: Seq<char>) -> bool
    decreases a.len(),
{
    if b.len() == 0 {
        false
    } else if a.len() == 0 {
        true
    } else if a[0] == b[0] {
        comes_before(a.drop_first(), b.drop_first())
    } else {
        (a[0] as u32) < (b[0] as u32)
    }
}

/// Sorted fields with one more: at its place, or instead of one of the same name.
pub open spec fn put(f: Seq<(Seq<char>, JVal)>, k: Seq<char>, v: JVal) -> Seq<(Seq<char>, JVal)>
    decreases f.len(),
{
    if f.len() == 0 {
        seq![(k, v)]
    } else if f[0].0 == k {
        seq![(k, v)] + f.drop_first()
    } else if comes_before(k, f[0].0) {
        seq![(k, v)] + f
    } else {
        seq![f[0]] + put(f.drop_first(), k, v)
    }
}

/// The fields of an object as `serde_json` keeps them: sorted by name, the last of
/// those with the same name.
pub open spec fn object_order(f: Seq<(Seq<char>, JVal)>) -> Seq<(Seq<char>, JVal)>
    decreases f.len(),
{
    if f.len() == 0 {
        Seq::empty()
    } else {
        put(object_order(f.drop_last()), f.last().0, f.last().1)
    }
}

/// An integer as `serde_json` keeps it: only a negative one is signed.
pub open spec fn signed_tree(i: i64) -> JVal {
    if i >= 0 {
        JVal::UInt(i as u64)
    } else {
        JVal::NegInt(i)
    }
}

pub open spec fn trees(v: Seq<serde_json::Value>) -> Seq<JVal> {
    Seq::new(v.len(), |i: int| value_tree(v[i]))
}

pub open spec fn field_trees(v: Seq<(String, serde_json::Value)>) -> Seq<(Seq<char>, JVal)> {
    Seq::new(v.len(), |i: int| (v[i].0@, value_tree(v[i].1)))
}

/// One level of a `serde_json::Value`.
pub enum Node {
    Null,
    Bool(bool),
    UInt(u64),
    NegInt(i64),
    Real(serde_json::Number),
    Str(String),
    Arr(Vec<serde_json::Value>),
    Obj(serde_json::Map<String, serde_json::Value>),
}

/// The tree whose top level is `n`.
pub open spec fn node_tree(n: Node) -> JVal {
    match n {
        Node::Null => JVal::Null,
        Node::Bool(b) => JVal::Bool(b),
        Node::UInt(u) => JVal::UInt(u),
        Node::NegInt(i) => JVal::NegInt(i),
        Node::Real(x) => JVal::Real(x),
        Node::Str(s) => JVal::Str(s@),
        Node::Arr(v) => JVal::Arr(trees(v@)),
        Node::Obj(m) => JVal::Obj(map_fields(m)),
    }
}

/// `serde_json::from_str`: reads a JSON text. The result is named
/// [`json_parse`]; an error is given by its text.
#[verifier::external_body]
fn parse_value(text: &str) -> (r: Result<serde_json::Value, String>)
    ensures
        match r {
            Ok(v) => json_parse(text@) == Ok::<JVal, Seq<char>>(value_tree(v)),
            Err(e) => json_parse(text@) == Err::<JVal, Seq<char>>(e@),
        },
{
    serde_json::from_str::<serde_json::Value>(text).map_err(|e| e.to_string())
}

/// `serde_json::to_string` on a document, which does not fail on one. The
/// result is named [`value_text`].
#[verifier::external_body]
fn render_value(v: &serde_json::Value) -> (r: String)
    ensures
        r@ == value_text(value_tree(*v)),
{
    serde_json::to_string(v).unwrap_or_default()
}

/// Takes a `serde_json::Value` apart by its variants; an integer is told from
/// another number by `Number::as_u64` and `Number::as_i64`.
#[verifier::external_body]
fn open_value(v: serde_json::Value) -> (r: Node)
    ensures
        node_tree(r) == value_tree(v),
        match r {
            Node::Real(x) => number_tree(x) == JVal::Real(x),
            _ => true,
        },
{
    match v {
        serde_json::Value::Null => Node::Null,
        serde_json::Value::Bool(b) => Node::Bool(b),
        serde_json::Value::Number(n) => match (n.as_u64(), n.as_i64()) {
            (Some(u), _) => Node::UInt(u),
            (None, Some(i)) => Node::NegInt(i),
            (None, None) => Node::Real(n),
        },
        serde_json::Value::String(s) => Node::Str(s),
        serde_json::Value::Array(a) => Node::Arr(a),
        serde_json::Value::Object(m) => Node::Obj(m),
    }
}

/// Builds a `serde_json::Value` from its top level. `Value::from` makes an unsigned
/// number of an `i64` that is not negative, and what a number is that is given as
/// such is named [`number_tree`].
#[verifier::external_body]
fn close_value(n: Node) -> (r: serde_json::Value)
    ensures
        value_tree(r) == (match n {
            Node::NegInt(i) => signed_tree(i),
            Node::Real(x) => number_tree(x),
            _ => node_tree(n),
        }),
{
    match n {
        Node::Null => serde_json::Value::Null,
        Node::Bool(b) => serde_json::Value::Bool(b),
        Node::UInt(u) => serde_json::Value::from(u),
        Node::NegInt(i) => serde_json::Value::from(i),
        Node::Real(x) => serde_json::Value::Number(x),
        Node::Str(s) => serde_json::Value::String(s),
        Node::Arr(a) => serde_json::Value::Array(a),
        Node::Obj(m) => serde_json::Value::Object(m),
    }
}

/// `serde_json::Map::new`: a map without fields.
#[verifier::external_body]
fn map_new() -> (r: serde_json::Map<String, serde_json::Value>)
    ensures
        map_fields(r) == Seq::<(Seq<char>, JVal)>::empty(),
{
    serde_json::Map::new()
}

/// `serde_json::Map::insert`: adds a field, or updates the value of the one that has
/// the name. The map is a `BTreeMap` and walked in the order of the names.
#[verifier::external_body]
fn map_insert(m: &mut serde_json::Map<String, serde_json::Value>, k: String, v: serde_json::Value)
    ensures
        map_fields(*final(m)) == put(map_fields(*old(m)), k@, value_tree(v)),
{
    m.insert(k, v);
}

/// `serde_json::Map::into_iter`: the fields in their order.
#[verifier::external_body]
fn map_entries(m: serde_json::Map<String, serde_json::Value>) -> (r: Vec<
    (String, serde_json::Value),
>)
    ensures
        field_trees(r@) == map_fields(m),
{
    m.into_iter().collect()
}

/// A document as `serde_json` keeps it: the fields of every object in order.
pub open spec fn ordered(v: JVal) -> JVal
    decreases v, 1nat,
{
    match v {
        JVal::Arr(a) => JVal::Arr(
            Seq::new(
                a.len(),
                |i: int|
                    if 0 <= i < a.len() {
                        ordered(a[i])
                    } else {
                        JVal::Null
                    },
            ),
        ),
        JVal::Obj(f) => JVal::Obj(object_order(ordered_fields(v))),
        JVal::NegInt(i) => signed_tree(i),
        JVal::Real(x) => number_tree(x),
        _ => v,
    }
}

/// The fields of an object with every value in order.
pub open spec fn ordered_fields(v: JVal) -> Seq<(Seq<char>, JVal)>
    decreases v, 0nat,
{
    match v {
        JVal::Obj(f) => Seq::new(
            f.len(),
            |i: int|
                if 0 <= i < f.len() {
                    (f[i].0, ordered(f[i].1))
                } else {
                    (Seq::empty(), JVal::Null)
                },
        ),
        _ => Seq::empty(),
    }
}

/// The tree of a `serde_json::Value`.
#[verifier::loop_isolation(false)]
pub fn from_value(v: serde_json::Value) -> (r: Json)
    ensures
        r@ == value_tree(v),
    decreases value_tree(v),
{
    let ghost tree = value_tree(v);
    match open_value(v) {
        Node::Null => Json::Null,
        Node::Bool(b) => Json::Bool(b),
        Node::UInt(n) => Json::UInt(n),
        Node::NegInt(n) => Json::NegInt(n),
        Node::Real(n) => Json::Real(n),
        Node::Str(s) => Json::Str(s),
        Node::Arr(items) => {
            let mut rest = items;
            let ghost all = rest@;
            let mut out: Vec<Json> = Vec::new();
            while rest.len() > 0
                invariant
                    tree == value_tree(v),
                    tree == JVal::Arr(trees(all)),
                    rest@.len() + out@.len() == all.len(),
                    rest@ == all.take(rest@.len() as int),
                    forall|j: int|
                        0 <= j < out@.len() ==> (#[trigger] out@[j])@ == value_tree(
                            all[all.len() - 1 - j],
                        ),
                decreases rest@.len(),
            {
                let ghost k = rest@.len() - 1;
                match rest.pop() {
                    Some(x) => {
                        assert(x == all[k]);
                        assert(trees(all)[k] == value_tree(x));
                        assert(decreases_to!(trees(all) => trees(all)[k]));
                        assert(decreases_to!(tree => tree->Arr_0));
                        out.push(from_value(x));
                        assert(rest@ =~= all.take(rest@.len() as int));
                    },
                    None => {},
                }
            }
            let r = Json::Arr(reversed(out));
            proof {
                lemma_arr_view(r->Arr_0);
                assert(items_view(r->Arr_0@) =~= trees(all));
            }
            r
        },
        Node::Obj(fields) => {
            let mut rest = map_entries(fields);
            let ghost all = rest@;
            let mut out: Vec<(String, Json)> = Vec::new();
            while rest.len() > 0
                invariant
                    tree == value_tree(v),
                    tree == JVal::Obj(field_trees(all)),
                    rest@.len() + out@.len() == all.len(),
                    rest@ == all.take(rest@.len() as int),
                    forall|j: int|
                        0 <= j < out@.len() ==> ({
                            let x = #[trigger] out@[j];
                            (x.0@, x.1@) == field_trees(all)[all.len() - 1 - j]
                        }),
                decreases rest@.len(),
            {
                let ghost k = rest@.len() - 1;
                match rest.pop() {
                    Some((name, x)) => {
                        assert((name, x) == all[k]);
                        assert(field_trees(all)[k] == (name@, value_tree(x)));
                        assert(decreases_to!(field_trees(all) => field_trees(all)[k]));
                        assert(decreases_to!(tree => tree->Obj_0));
                        assert(decreases_to!(field_trees(all)[k] => field_trees(all)[k].1));
                        let y = from_value(x);
                        out.push((name, y));
                        assert(rest@ =~= all.take(rest@.len() as int));
                    },
                    None => {},
                }
            }
            let r = Json::Obj(reversed(out));
            proof {
                lemma_obj_view(r->Obj_0);
                assert(fields_view(r->Obj_0@) =~= field_trees(all));
            }
            r
        },
    }
}

/// The items in reverse order.
fn reversed<T>(v: Vec<T>) -> (r: Vec<T>)
    ensures
        r@ == v@.reverse(),
{
    let mut src = v;
    let ghost all = src@;
    let mut out: Vec<T> = Vec::new();
    while src.len() > 0
        invariant
            src@.len() + out@.len() == all.len(),
            src@ == all.take(src@.len() as int),
            forall|j: int| 0 <= j < out@.len() ==> out@[j] == all[all.len() - 1 - j],
        decreases src@.len(),
    {
        match src.pop() {
            Some(x) => {
                out.push(x);
                assert(src@ =~= all.take(src@.len() as int));
            },
            None => {},
        }
    }
    assert(out@ =~= all.reverse());
    out
}

/// The `serde_json::Value` of a tree.
#[verifier::loop_isolation(false)]
pub fn to_value(j: &Json) -> (r: serde_json::Value)
    ensures
        value_tree(r) == ordered(j@),
    decreases j,
{
    proof {
        reveal_with_fuel(<Json as View>::view, 2);
        reveal_with_fuel(ordered, 2);
    }
    match j {
        Json::Null => close_value(Node::Null),
        Json::Bool(b) => close_value(Node::Bool(*b)),
        Json::UInt(n) => close_value(Node::UInt(*n)),
        Json::NegInt(n) => close_value(Node::NegInt(*n)),
        Json::Real(n) => close_value(Node::Real(copy_number(n))),
        Json::Str(s) => close_value(Node::Str(copy(s.as_str()))),
        Json::Arr(v) => {
            let mut out: Vec<serde_json::Value> = Vec::new();
            let n: usize = v.len();
            let mut i: usize = 0;
            while i < n
                invariant
                    i <= n,
                    n == v@.len(),
                    *j == Json::Arr(*v),
                    out@.len() == i,
                    forall|k: int| 0 <= k < i ==> value_tree(#[trigger] out@[k]) == ordered(v@[k]@),
                decreases n - i,
            {
                assert(decreases_to!(*v => v[i as int]));
                let x = to_value(&v[i]);
                out.push(x);
                i += 1;
            }
            proof {
                lemma_arr_view(*v);
                assert(JVal::Arr(trees(out@)) == ordered(j@)) by {
                    assert(trees(out@) =~= ordered(j@)->Arr_0);
                }
            }
            close_value(Node::Arr(out))
        },
        Json::Obj(v) => {
            let mut out = map_new();
            let n: usize = v.len();
            let mut i: usize = 0;
            let ghost all = ordered_fields(j@);
            proof {
                lemma_obj_view(*v);
                reveal_with_fuel(ordered_fields, 2);
                assert(all.take(0) =~= Seq::empty());
            }
            while i < n
                invariant
                    i <= n,
                    n == v@.len(),
                    *j == Json::Obj(*v),
                    all.len() == n,
                    forall|k: int|
                        0 <= k < n ==> #[trigger] all[k] == (v@[k].0@, ordered(v@[k].1@)),
                    map_fields(out) == object_order(all.take(i as int)),
                decreases n - i,
            {
                assert(decreases_to!(*v => v[i as int]));
                let x = to_value(&v[i].1);
                assert(all.take(i as int + 1).drop_last() =~= all.take(i as int));
                map_insert(&mut out, copy(v[i].0.as_str()), x);
                i += 1;
            }
            assert(all.take(n as int) =~= all);
            close_value(Node::Obj(out))
        },
    }
}

/// `serde_json::Number::clone`: an equal number.
#[verifier::external_body]
fn copy_number(n: &serde_json::Number) -> (r: serde_json::Number)
    ensures
        r == *n,
{
    n.clone()
}

/// Reads a JSON text.
pub fn parse(text: &str) -> (r: Result<Json, String>)
    ensures
        match r {
            Ok(j) => json_parse(text@) == Ok::<JVal, Seq<char>>(j@),
            Err(e) => json_parse(text@) == Err::<JVal, Seq<char>>(e@),
        },
{
    match parse_value(text) {
        Ok(v) => Ok(from_value(v)),
        Err(e) => Err(e),
    }
}

/// The compact JSON text of a document.
pub fn render(j: &Json) -> (r: String)
    ensures
        r@ == json_text(j@),
{
    render_value(&to_value(j))
}

/// The compact JSON text of a document.
pub open spec fn json_text(v: JVal) -> Seq<char> {
    value_text(ordered(v))
}

impl Clone for Json {
    #[verifier::loop_isolation(false)]
    fn clone(&self) -> (r: Self)
        ensures
            r@ == self@,
        decreases self,
    {
        match self {
            Json::Null => Json::Null,
            Json::Bool(b) => Json::Bool(*b),
            Json::UInt(n) => Json::UInt(*n),
            Json::NegInt(n) => Json::NegInt(*n),
            Json::Real(n) => Json::Real(copy_number(n)),
            Json::Str(s) => Json::Str(copy(s.as_str())),
            Json::Arr(v) => {
                let mut out: Vec<Json> = Vec::new();
                let n: usize = v.len();
                let mut i: usize = 0;
                while i < n
                    invariant
                        i <= n,
                        n == v@.len(),
                        *self == Json::Arr(*v),
                        out@.len() == i,
                        forall|k: int| 0 <= k < i ==> (#[trigger] out@[k])@ == v@[k]@,
                    decreases n - i,
                {
                    assert(decreases_to!(*v => v[i as int]));
                    let x = v[i].clone();
                    out.push(x);
                    i += 1;
                }
                proof {
                    lemma_arr_view(*v);
                    lemma_arr_view(out);
                    assert(items_view(v@) =~= items_view(out@));
                }
                Json::Arr(out)
            },
            Json::Obj(v) => {
                let mut out: Vec<(String, Json)> = Vec::new();
                let n: usize = v.len();
                let mut i: usize = 0;
                while i < n
                    invariant
                        i <= n,
                        n == v@.len(),
                        *self == Json::Obj(*v),
                        out@.len() == i,
                        forall|k: int|
                            0 <= k < i ==> ({
                                let x = #[trigger] out@[k];
                                x.0@ == v@[k].0@ && x.1@ == v@[k].1@
                            }),
                    decreases n - i,
                {
                    assert(decreases_to!(*v => v[i as int]));
                    let x = v[i].1.clone();
                    out.push((copy(v[i].0.as_str()), x));
                    i += 1;
                }
                proof {
                    lemma_obj_view(*v);
                    lemma_obj_view(out);
                    assert(fields_view(v@) =~= fields_view(out@));
                }
                Json::Obj(out)
            },
        }
    }
}

/// One field of a record as text.
pub open spec fn field_text(key: Seq<char>, value: JVal) -> Seq<char> {
    json_text(JVal::Str(key)) + ":"@ + json_text(value)
}

/// The fields of a record as text, in their order.
pub open spec fn fields_text(f: Seq<(Seq<char>, JVal)>) -> Seq<char>
    decreases f.len(),
{
    if f.len() == 0 {
        Seq::empty()
    } else if f.len() == 1 {
        field_text(f[0].0, f[0].1)
    } else {
        fields_text(f.drop_last()) + ","@ + field_text(f.last().0, f.last().1)
    }
}

/// A record as a JSON text that keeps the order of its fields.
pub open spec fn record_text(v: JVal) -> Seq<char> {
    match v {
        JVal::Obj(f) => "{"@ + fields_text(f) + "}"@,
        _ => json_text(v),
    }
}

/// A record as a JSON text that keeps the order of its fields.
pub fn render_record(j: &Json) -> (r: String)
    ensures
        r@ == record_text(j@),
{
    match j {
        Json::Obj(v) => {
            proof {
                lemma_obj_view(*v);
            }
            let ghost f = fields_view(v@);
            let n: usize = v.len();
            let mut body = String::new();
            let mut i: usize = 0;
            assert(f.take(0) =~= Seq::empty());
            while i < n
                invariant
                    i <= n,
                    n == v@.len(),
                    f == fields_view(v@),
                    body@ == fields_text(f.take(i as int)),
                decreases n - i,
            {
                let key = render(&Json::text(v[i].0.as_str()));
                let value = render(&v[i].1);
                let part = crate::text::cat3(key.as_str(), ":", value.as_str());
                proof {
                    assert(f.take(i as int + 1).drop_last() =~= f.take(i as int));
                    assert(part@ == field_text(f[i as int].0, f[i as int].1));
                }
                if i > 0 {
                    body.append(",");
                } else {
                    assert(body@ + part@ =~= part@);
                }
                body.append(part.as_str());
                i += 1;
            }
            assert(f.take(n as int) =~= f);
            crate::text::cat3("{", body.as_str(), "}")
        },
        _ => render(j),
    }
}

/// A record is written with its fields in their order, a comma between each two.
pub proof fn records_are_written_in_order(
    f: Seq<(Seq<char>, JVal)>,
    key: Seq<char>,
    value: JVal,
)
    ensures
        fields_text(Seq::empty()) == Seq::<char>::empty(),
        f.len() == 0 ==> fields_text(f.push((key, value))) == json_text(JVal::Str(key)) + ":"@
            + json_text(value),
        f.len() > 0 ==> fields_text(f.push((key, value))) == fields_text(f) + ","@ + (json_text(
            JVal::Str(key),
        ) + ":"@ + json_text(value)),
        record_text(JVal::Obj(f)) == "{"@ + fields_text(f) + "}"@,
{
    assert(f.push((key, value)).drop_last() =~= f);
}

} // verus!
