//! JSON documents as the protocol layer sees them.
//!
//! Text is parsed and written by `serde_json`; the library works on [`Json`],
//! a plain tree that verified code can take apart and build. Contracts speak
//! of [`JsonView`], in which an object is a map, so that the order of an
//! object's members never matters.

use crate::protocol::error::ProtocolError;
use serde_json::Value;
use vstd::prelude::*;

verus! {

/// `serde_json`'s document tree.
#[verifier::external_type_specification]
#[verifier::external_body]
pub struct ExValue(serde_json::Value);

/// `serde_json`'s number.
#[verifier::external_type_specification]
#[verifier::external_body]
pub struct ExNumber(serde_json::Number);

/// `serde_json`'s error.
#[verifier::external_type_specification]
#[verifier::external_body]
pub struct ExError(serde_json::Error);

/// `Clone` for `serde_json::Number`: the copy is the same number.
pub assume_specification[ <serde_json::Number as Clone>::clone ](n: &serde_json::Number) -> (r:
    serde_json::Number)
    ensures
        r == *n,
;

/// A JSON document.
#[derive(Debug, PartialEq)]
pub enum Json {
    /// `null`.
    Null,
    /// `true` or `false`.
    Bool(bool),
    /// An integer from 0 to 2^64 - 1.
    Unsigned(u64),
    /// An integer from -2^63 to -1.
    Negative(i64),
    /// Any other number, kept as `serde_json` holds it.
    Real(serde_json::Number),
    /// A string.
    Text(String),
    /// An array.
    Array(Vec<Json>),
    /// An object: its members, each name at most once.
    Object(Vec<(String, Json)>),
}

/// The mathematical content of a [`Json`].
pub enum JsonView {
    Null,
    Bool(bool),
    Unsigned(u64),
    Negative(i64),
    Real(serde_json::Number),
    Text(Seq<char>),
    Array(Seq<JsonView>),
    Object(Map<Seq<char>, JsonView>),
}

/// The names of an object's members, in the order they are held.
pub open spec fn names(fields: Seq<(String, Json)>) -> Seq<Seq<char>> {
    Seq::new(fields.len(), |i: int| fields[i].0@)
}

/// `i` is the first position at which `key` occurs in `names`.
pub open spec fn first_at(names: Seq<Seq<char>>, key: Seq<char>, i: int) -> bool {
    &&& 0 <= i < names.len()
    &&& names[i] == key
    &&& forall|j: int| 0 <= j < i ==> names[j] != key
}

/// The first position at which `key` occurs in `names`, where it occurs.
pub open spec fn position(names: Seq<Seq<char>>, key: Seq<char>) -> int {
    choose|i: int| first_at(names, key, i)
}

/// No name occurs twice.
pub open spec fn distinct(names: Seq<Seq<char>>) -> bool {
    forall|i: int, j: int| 0 <= i < j < names.len() ==> names[i] != names[j]
}

/// The object whose members are `names[i]` with value `values[i]`. Where a
/// name occurs twice, its first occurrence counts.
pub open spec fn object_of(names: Seq<Seq<char>>, values: Seq<JsonView>) -> JsonView {
    JsonView::Object(
        Map::new(|k: Seq<char>| names.contains(k), |k: Seq<char>| values[position(names, k)]),
    )
}

impl Json {
    /// The document is in the form in which it is written out: negative
    /// integers are negative, other numbers are not integers, and no object
    /// names a member twice.
    pub open spec fn wf(&self) -> bool
        decreases self,
    {
        match self {
            Json::Negative(i) => *i < 0,
            Json::Real(n) => fractional(*n),
            Json::Array(items) => forall|i: int|
                0 <= i < items@.len() ==> (#[trigger] items@[i]).wf(),
            Json::Object(fields) => {
                &&& distinct(names(fields@))
                &&& forall|i: int| 0 <= i < fields@.len() ==> (#[trigger] fields@[i]).1.wf()
            },
            _ => true,
        }
    }

    /// The document as a value: arrays as sequences, objects as maps. Where
    /// an object names a member twice, the first one counts.
    pub open spec fn view(&self) -> JsonView
        decreases self, 1nat,
    {
        match self {
            Json::Null => JsonView::Null,
            Json::Bool(b) => JsonView::Bool(*b),
            Json::Unsigned(u) => JsonView::Unsigned(*u),
            Json::Negative(i) => JsonView::Negative(*i),
            Json::Real(n) => JsonView::Real(*n),
            Json::Text(s) => JsonView::Text(s@),
            Json::Array(items) => JsonView::Array(self.parts()),
            Json::Object(fields) => object_of(names(fields@), self.parts()),
        }
    }

    /// The values of an array's elements or of an object's members, in the
    /// order they are held.
    pub open spec fn parts(&self) -> Seq<JsonView>
        decreases self, 0nat,
    {
        match self {
            Json::Array(items) => Seq::new(
                items@.len(),
                |i: int|
                    if 0 <= i < items@.len() {
                        items@[i].view()
                    } else {
                        JsonView::Null
                    },
            ),
            Json::Object(fields) => Seq::new(
                fields@.len(),
                |i: int|
                    if 0 <= i < fields@.len() {
                        fields@[i].1.view()
                    } else {
                        JsonView::Null
                    },
            ),
            _ => Seq::empty(),
        }
    }
}

/// The values of a list of documents.
pub open spec fn item_values(items: Seq<Json>) -> Seq<JsonView> {
    Seq::new(items.len(), |i: int| items[i]@)
}

/// The values of a list of members.
pub open spec fn values(fields: Seq<(String, Json)>) -> Seq<JsonView> {
    Seq::new(fields.len(), |i: int| fields[i].1@)
}

/// An array's value is the sequence of its elements' values.
pub proof fn lemma_array_view(j: Json)
    requires
        j is Array,
    ensures
        j@ == JsonView::Array(item_values(j->Array_0@)),
{
    assert(j.parts() =~= item_values(j->Array_0@));
}

/// An object's value is made of its members' names and values.
pub proof fn lemma_object_view(j: Json)
    requires
        j is Object,
    ensures
        j@ == object_of(names(j->Object_0@), values(j->Object_0@)),
{
    assert(j.parts() =~= values(j->Object_0@));
}

impl JsonView {
    /// The member called `key`, if this is an object that has one.
    pub open spec fn member(self, key: Seq<char>) -> Option<JsonView> {
        match self {
            JsonView::Object(m) => if m.contains_key(key) {
                Some(m[key])
            } else {
                None
            },
            _ => None,
        }
    }

    /// The value, if this is an integer from 0 to 2^64 - 1.
    pub open spec fn as_u64(self) -> Option<u64> {
        match self {
            JsonView::Unsigned(u) => Some(u),
            _ => None,
        }
    }

    /// The value, if this is an integer from -2^63 to 2^63 - 1.
    pub open spec fn as_i64(self) -> Option<i64> {
        match self {
            JsonView::Unsigned(u) => if u <= i64::MAX {
                Some(u as i64)
            } else {
                None
            },
            JsonView::Negative(i) => Some(i),
            _ => None,
        }
    }

    /// The value, if this is a boolean.
    pub open spec fn as_bool(self) -> Option<bool> {
        match self {
            JsonView::Bool(b) => Some(b),
            _ => None,
        }
    }

    /// The characters, if this is a string.
    pub open spec fn as_text(self) -> Option<Seq<char>> {
        match self {
            JsonView::Text(s) => Some(s),
            _ => None,
        }
    }

    /// The elements, if this is an array.
    pub open spec fn as_array(self) -> Option<Seq<JsonView>> {
        match self {
            JsonView::Array(a) => Some(a),
            _ => None,
        }
    }

    /// The elements, if this is an array of strings and nothing else.
    pub open spec fn as_texts(self) -> Option<Seq<Seq<char>>> {
        match self {
            JsonView::Array(a) => if forall|i: int| 0 <= i < a.len() ==> (#[trigger] a[i]) is Text {
                Some(Seq::new(a.len(), |i: int| a[i]->Text_0))
            } else {
                None
            },
            _ => None,
        }
    }

    /// The integer `i` as a document.
    pub open spec fn of_i64(i: i64) -> JsonView {
        if i >= 0 {
            JsonView::Unsigned(i as u64)
        } else {
            JsonView::Negative(i)
        }
    }

    /// The array of the strings `texts`.
    pub open spec fn of_texts(texts: Seq<Seq<char>>) -> JsonView {
        JsonView::Array(Seq::new(texts.len(), |i: int| JsonView::Text(texts[i])))
    }
}

/// Reading an integer back gives the integer.
pub proof fn lemma_i64_round_trip(i: i64)
    ensures
        JsonView::of_i64(i).as_i64() == Some(i),
{
}

/// Reading an array of strings back gives the strings.
pub proof fn lemma_texts_round_trip(texts: Seq<Seq<char>>)
    ensures
        JsonView::of_texts(texts).as_texts() == Some(texts),
{
    let a = JsonView::of_texts(texts)->Array_0;
    assert(Seq::new(a.len(), |i: int| a[i]->Text_0) =~= texts);
}

/// The first position of a name is unique.
pub proof fn lemma_position(names: Seq<Seq<char>>, key: Seq<char>, i: int)
    requires
        first_at(names, key, i),
    ensures
        position(names, key) == i,
        names.contains(key),
{
    let c = position(names, key);
    assert(first_at(names, key, c));
    if c < i {
        assert(names[c] != key);
    } else if i < c {
        assert(names[i] != key);
    }
}

/// A member is found under the name at whose first occurrence it stands.
pub proof fn lemma_object_member(names: Seq<Seq<char>>, values: Seq<JsonView>, key: Seq<char>, i: int)
    requires
        first_at(names, key, i),
    ensures
        object_of(names, values).member(key) == Some(values[i]),
{
    lemma_position(names, key, i);
}

/// A name that does not occur is not found.
pub proof fn lemma_object_lacks(names: Seq<Seq<char>>, values: Seq<JsonView>, key: Seq<char>)
    requires
        forall|i: int| 0 <= i < names.len() ==> names[i] != key,
    ensures
        object_of(names, values).member(key) is None,
{
    if names.contains(key) {
        let i = choose|i: int| 0 <= i < names.len() && names[i] == key;
        assert(names[i] != key);
    }
}

/// The first member that carries a name is the one found under that name.
pub proof fn lemma_member_at(j: Json, i: int)
    requires
        j is Object,
        first_at(names(j->Object_0@), j->Object_0@[i].0@, i),
    ensures
        j@.member(j->Object_0@[i].0@) == Some(j->Object_0@[i].1@),
{
    lemma_object_view(j);
    lemma_position(names(j->Object_0@), j->Object_0@[i].0@, i);
}

/// A name that no member carries is not found.
pub proof fn lemma_member_absent(j: Json, key: Seq<char>)
    requires
        j is Object,
        forall|i: int| 0 <= i < j->Object_0@.len() ==> (#[trigger] j->Object_0@[i]).0@ != key,
    ensures
        j@.member(key) is None,
{
    lemma_object_view(j);
    let ns = names(j->Object_0@);
    if ns.contains(key) {
        let i = choose|i: int| 0 <= i < ns.len() && ns[i] == key;
        assert(j->Object_0@[i].0@ == key);
    }
}

/// What `serde_json::from_slice` makes of a text: the document it denotes,
/// or nothing where it reports an error.
pub uninterp spec fn document(text: Seq<u8>) -> Option<JsonView>;

/// The document that a `serde_json::Value` holds.
pub uninterp spec fn tree(value: Value) -> JsonView;

/// Whether `serde_json` holds the number as a floating-point value, which is
/// how it holds every number that is not an integer of 64 bits.
pub uninterp spec fn fractional(number: serde_json::Number) -> bool;

/// The text that `serde_json::to_vec` writes for a document, or nothing
/// where it reports an error.
pub uninterp spec fn rendering(doc: JsonView) -> Option<Seq<u8>>;


/// Parses a text with `serde_json::from_slice`. The result is the document
/// that [`document`] names for the text; an error means it names none.
#[verifier::external_body]
fn parse_value(text: &[u8]) -> (r: Result<Value, serde_json::Error>)
    ensures
        match r {
            Ok(v) => document(text@) == Some(tree(v)),
            Err(_) => document(text@) is None,
        },
{
    serde_json::from_slice::<Value>(text)
}

/// Copies a `serde_json::Value` into a [`Json`], variant by variant. Numbers
/// that `as_u64` or `as_i64` give as integers become integers; `serde_json`
/// holds every other number as a float. Its maps yield each key once.
#[verifier::external_body]
fn lift(value: &Value) -> (j: Json)
    ensures
        j@ == tree(*value),
        j.wf(),
{
    match value {
        Value::Null => Json::Null,
        Value::Bool(b) => Json::Bool(*b),
        Value::Number(n) => match (n.as_u64(), n.as_i64()) {
            (Some(u), _) => Json::Unsigned(u),
            (None, Some(i)) => Json::Negative(i),
            (None, None) => Json::Real(n.clone()),
        },
        Value::String(s) => Json::Text(s.clone()),
        Value::Array(a) => Json::Array(a.iter().map(lift).collect()),
        Value::Object(m) => Json::Object(m.iter().map(|(k, v)| (k.clone(), lift(v))).collect()),
    }
}

/// Copies a [`Json`] into a `serde_json::Value`, variant by variant. For a
/// document in written form the value holds the same document.
#[verifier::external_body]
fn lower(j: &Json) -> (value: Value)
    requires
        j.wf(),
    ensures
        tree(value) == j@,
{
    match j {
        Json::Null => Value::Null,
        Json::Bool(b) => Value::Bool(*b),
        Json::Unsigned(u) => Value::from(*u),
        Json::Negative(i) => Value::from(*i),
        Json::Real(n) => Value::Number(n.clone()),
        Json::Text(s) => Value::String(s.clone()),
        Json::Array(a) => Value::Array(a.iter().map(lower).collect()),
        Json::Object(m) => Value::Object(m.iter().map(|(k, v)| (k.clone(), lower(v))).collect()),
    }
}

/// Writes a value with `serde_json::to_vec`. The result is the text that
/// [`rendering`] names for the document the value holds.
#[verifier::external_body]
fn render_value(value: &Value) -> (r: Result<Vec<u8>, serde_json::Error>)
    ensures
        match r {
            Ok(text) => rendering(tree(*value)) == Some(text@),
            Err(_) => rendering(tree(*value)) is None,
        },
{
    serde_json::to_vec(value)
}

/// `serde_json::Number::is_f64`: whether the number is held as a float.
#[verifier::external_body]
fn is_fractional(number: &serde_json::Number) -> (r: bool)
    ensures
        r == fractional(*number),
{
    number.is_f64()
}

/// Parses one JSON text.
pub fn parse(text: &[u8]) -> (r: Result<Json, ProtocolError>)
    ensures
        match r {
            Ok(j) => document(text@) == Some(j@) && j.wf(),
            Err(e) => document(text@) is None && e == ProtocolError::NotJson,
        },
{
    match parse_value(text) {
        Ok(value) => Ok(lift(&value)),
        Err(_) => Err(ProtocolError::NotJson),
    }
}

/// What [`render`] returns for a document, given what the writer makes of it.
pub open spec fn render_spec(j: Json, written: Option<Seq<u8>>) -> Result<Seq<u8>, ProtocolError> {
    if !j.wf() {
        Err(ProtocolError::Malformed)
    } else {
        match written {
            Some(text) => Ok(text),
            None => Err(ProtocolError::Unwritable),
        }
    }
}

/// Writes a document as one JSON text.
pub fn render(j: &Json) -> (r: Result<Vec<u8>, ProtocolError>)
    ensures
        match r {
            Ok(text) => render_spec(*j, rendering(j@)) == Ok::<Seq<u8>, ProtocolError>(text@),
            Err(e) => render_spec(*j, rendering(j@)) == Err::<Seq<u8>, ProtocolError>(e),
        },
{
    if !j.well_formed() {
        return Err(ProtocolError::Malformed);
    }
    let value = lower(j);
    match render_value(&value) {
        Ok(text) => Ok(text),
        Err(_) => Err(ProtocolError::Unwritable),
    }
}

fn names_distinct(fields: &Vec<(String, Json)>) -> (r: bool)
    ensures
        r == distinct(names(fields@)),
{
    let n = fields.len();
    let mut j: usize = 0;
    while j < n
        invariant
            j <= n,
            n == fields@.len(),
            forall|a: int, b: int| 0 <= a < b < j ==> names(fields@)[a] != names(fields@)[b],
        decreases n - j,
    {
        let mut i: usize = 0;
        while i < j
            invariant
                i <= j < n,
                n == fields@.len(),
                forall|a: int| 0 <= a < i ==> names(fields@)[a] != names(fields@)[j as int],
            decreases j - i,
        {
            if fields[i].0 == fields[j].0 {
                assert(names(fields@)[i as int] == names(fields@)[j as int]);
                return false;
            }
            i = i + 1;
        }
        j = j + 1;
    }
    true
}

impl Json {
    /// Whether the document is in written form.
    #[verifier::loop_isolation(false)]
    pub fn well_formed(&self) -> (r: bool)
        ensures
            r == self.wf(),
        decreases self,
    {
        match self {
            Json::Negative(i) => *i < 0,
            Json::Real(n) => is_fractional(n),
            Json::Array(items) => {
                let mut i: usize = 0;
                while i < items.len()
                    invariant
                        i <= items@.len(),
                        forall|k: int| 0 <= k < i ==> (#[trigger] items@[k]).wf(),
                    decreases items@.len() - i,
                {
                    if !items[i].well_formed() {
                        assert(!items@[i as int].wf());
                        return false;
                    }
                    i = i + 1;
                }
                true
            },
            Json::Object(fields) => {
                if !names_distinct(fields) {
                    return false;
                }
                let mut i: usize = 0;
                while i < fields.len()
                    invariant
                        i <= fields@.len(),
                        forall|k: int| 0 <= k < i ==> (#[trigger] fields@[k]).1.wf(),
                    decreases fields@.len() - i,
                {
                    if !fields[i].1.well_formed() {
                        assert(!fields@[i as int].1.wf());
                        return false;
                    }
                    i = i + 1;
                }
                true
            },
            _ => true,
        }
    }

    /// A copy of the document.
    #[verifier::loop_isolation(false)]
    pub fn duplicate(&self) -> (r: Json)
        ensures
            r@ == self@,
            r.wf() == self.wf(),
        decreases self,
    {
        match self {
            Json::Null => Json::Null,
            Json::Bool(b) => Json::Bool(*b),
            Json::Unsigned(u) => Json::Unsigned(*u),
            Json::Negative(i) => Json::Negative(*i),
            Json::Real(n) => Json::Real(n.clone()),
            Json::Text(s) => Json::Text(s.clone()),
            Json::Array(items) => {
                let mut out: Vec<Json> = Vec::new();
                let mut i: usize = 0;
                while i < items.len()
                    invariant
                        i <= items@.len(),
                        out@.len() == i,
                        forall|k: int|
                            0 <= k < i ==> (#[trigger] out@[k])@ == items@[k]@ && out@[k].wf()
                                == items@[k].wf(),
                    decreases items@.len() - i,
                {
                    out.push(items[i].duplicate());
                    i = i + 1;
                }
                let r = Json::Array(out);
                proof {
                    lemma_array_view(r);
                    lemma_array_view(*self);
                    assert(item_values(out@) =~= item_values(items@));
                    if self.wf() {
                        assert forall|k: int| 0 <= k < out@.len() implies (#[trigger] out@[k]).wf() by {
                            assert(items@[k].wf());
                        }
                    }
                    if r.wf() {
                        assert forall|k: int| 0 <= k < items@.len() implies (
                        #[trigger] items@[k]).wf() by {
                            assert(out@[k].wf());
                        }
                    }
                }
                r
            },
            Json::Object(fields) => {
                let mut out: Vec<(String, Json)> = Vec::new();
                let mut i: usize = 0;
                while i < fields.len()
                    invariant
                        i <= fields@.len(),
                        out@.len() == i,
                        forall|k: int|
                            0 <= k < i ==> (#[trigger] out@[k]).0@ == fields@[k].0@ && out@[k].1@
                                == fields@[k].1@ && out@[k].1.wf() == fields@[k].1.wf(),
                    decreases fields@.len() - i,
                {
                    out.push((fields[i].0.clone(), fields[i].1.duplicate()));
                    i = i + 1;
                }
                let r = Json::Object(out);
                proof {
                    lemma_object_view(r);
                    lemma_object_view(*self);
                    assert(names(out@) =~= names(fields@));
                    assert(values(out@) =~= values(fields@));
                    if self.wf() {
                        assert forall|k: int| 0 <= k < out@.len() implies (#[trigger] out@[k]).1.wf() by {
                            assert(fields@[k].1.wf());
                        }
                    }
                    if r.wf() {
                        assert forall|k: int| 0 <= k < fields@.len() implies (
                        #[trigger] fields@[k]).1.wf() by {
                            assert(out@[k].1.wf());
                        }
                    }
                }
                r
            },
        }
    }

    /// The member called `key`, if this is an object that has one.
    pub fn member(&self, key: &str) -> (r: Option<&Json>)
        ensures
            match r {
                Some(found) => self@.member(key@) == Some(found@),
                None => self@.member(key@) is None,
            },
            self.wf() && r is Some ==> r.unwrap().wf(),
    {
        match self {
            Json::Object(fields) => {
                let wanted = String::from_str(key);
                let mut i: usize = 0;
                while i < fields.len()
                    invariant
                        i <= fields@.len(),
                        *self == Json::Object(*fields),
                        wanted@ == key@,
                        forall|k: int| 0 <= k < i ==> (#[trigger] fields@[k]).0@ != key@,
                    decreases fields@.len() - i,
                {
                    if fields[i].0 == wanted {
                        proof {
                            assert forall|k: int| 0 <= k < i implies names(fields@)[k] != key@ by {
                                assert(fields@[k].0@ != key@);
                            }
                            lemma_member_at(*self, i as int);
                            if self.wf() {
                                assert(fields@[i as int].1.wf());
                            }
                        }
                        return Some(&fields[i].1);
                    }
                    i = i + 1;
                }
                proof {
                    lemma_member_absent(*self, key@);
                }
                None
            },
            _ => None,
        }
    }

    /// The value, if this is an integer from 0 to 2^64 - 1.
    pub fn as_u64(&self) -> (r: Option<u64>)
        ensures
            r == self@.as_u64(),
    {
        match self {
            Json::Unsigned(u) => Some(*u),
            _ => None,
        }
    }

    /// The value, if this is an integer from -2^63 to 2^63 - 1.
    pub fn as_i64(&self) -> (r: Option<i64>)
        ensures
            r == self@.as_i64(),
    {
        match self {
            Json::Unsigned(u) => if *u <= i64::MAX as u64 {
                Some(*u as i64)
            } else {
                None
            },
            Json::Negative(i) => Some(*i),
            _ => None,
        }
    }

    /// The value, if this is a boolean.
    pub fn as_bool(&self) -> (r: Option<bool>)
        ensures
            r == self@.as_bool(),
    {
        match self {
            Json::Bool(b) => Some(*b),
            _ => None,
        }
    }

    /// A copy of the characters, if this is a string.
    pub fn as_text(&self) -> (r: Option<String>)
        ensures
            match r {
                Some(s) => self@.as_text() == Some(s@),
                None => self@.as_text() is None,
            },
    {
        match self {
            Json::Text(s) => Some(s.clone()),
            _ => None,
        }
    }

    /// Copies of the elements, if this is an array of strings and nothing
    /// else.
    pub fn as_texts(&self) -> (r: Option<Vec<String>>)
        ensures
            match r {
                Some(v) => self@.as_texts() == Some(v.deep_view()),
                None => self@.as_texts() is None,
            },
    {
        match self {
            Json::Array(items) => {
                let mut out: Vec<String> = Vec::new();
                let mut i: usize = 0;
                let ghost a = self@->Array_0;
                proof {
                    lemma_array_view(*self);
                }
                while i < items.len()
                    invariant
                        i <= items@.len(),
                        a == self@->Array_0,
                        a.len() == items@.len(),
                        forall|k: int| 0 <= k < a.len() ==> a[k] == (#[trigger] items@[k])@,
                        *self == Json::Array(*items),
                        out@.len() == i,
                        forall|k: int| 0 <= k < i ==> (#[trigger] a[k]) is Text,
                        forall|k: int| 0 <= k < i ==> (#[trigger] out@[k])@ == a[k]->Text_0,
                    decreases items@.len() - i,
                {
                    assert(a[i as int] == items@[i as int]@);
                    match &items[i] {
                        Json::Text(s) => {
                            out.push(s.clone());
                        },
                        _ => {
                            assert(!(a[i as int] is Text));
                            return None;
                        },
                    }
                    i = i + 1;
                }
                proof {
                    assert(out.deep_view() =~= Seq::new(a.len(), |i: int| a[i]->Text_0));
                }
                Some(out)
            },
            _ => None,
        }
    }

    /// The integer `i` as a document.
    pub fn of_i64(i: i64) -> (j: Json)
        ensures
            j@ == JsonView::of_i64(i),
            j.wf(),
    {
        if i >= 0 {
            Json::Unsigned(i as u64)
        } else {
            Json::Negative(i)
        }
    }

    /// The array of the strings `texts`.
    pub fn of_texts(texts: &Vec<String>) -> (j: Json)
        ensures
            j@ == JsonView::of_texts(texts.deep_view()),
            j.wf(),
    {
        let mut items: Vec<Json> = Vec::new();
        let mut i: usize = 0;
        while i < texts.len()
            invariant
                i <= texts@.len(),
                items@.len() == i,
                forall|k: int| 0 <= k < i ==> (#[trigger] items@[k]) is Text && items@[k]->Text_0@ == texts@[k]@,
            decreases texts@.len() - i,
        {
            items.push(Json::Text(texts[i].clone()));
            i = i + 1;
        }
        let j = Json::Array(items);
        proof {
            lemma_array_view(j);
            let want = JsonView::of_texts(texts.deep_view())->Array_0;
            assert(j@->Array_0.len() == want.len());
            assert forall|k: int| 0 <= k < want.len() implies j@->Array_0[k] == want[k] by {
                assert(items@[k] is Text);
                assert(items@[k]@ == JsonView::Text(texts@[k]@));
            }
            assert(j@->Array_0 =~= want);
            assert forall|k: int| 0 <= k < items@.len() implies (#[trigger] items@[k]).wf() by {
                assert(items@[k] is Text);
            }
        }
        j
    }
}


impl Default for Json {
    fn default() -> (j: Json)
        ensures
            j@ == JsonView::Null,
            j.wf(),
    {
        Json::Null
    }
}

impl Clone for Json {
    fn clone(&self) -> (r: Json)
        ensures
            r@ == self@,
            r.wf() == self.wf(),
    {
        self.duplicate()
    }
}

} // verus!
