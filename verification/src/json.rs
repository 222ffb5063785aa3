//! JSON values.
//!
//! The router reads and builds JSON in its own type [`Json`]. Bytes become
//! such a value, and such a value becomes text, through `serde_json`.

use vstd::prelude::*;
use vstd::utf8::*;

use crate::http::text_view;
use crate::text::same_text;

verus! {

// ---------------------------------------------------------------------------
// The model
// ---------------------------------------------------------------------------

/// A JSON number: an integer, or a fraction that is only carried along.
pub enum NumberView {
    Integer(int),
    Fraction(int),
}

/// What a JSON value is.
pub enum JsonView {
    Null,
    Bool(bool),
    Number(NumberView),
    Text(Seq<char>),
    List(Seq<JsonView>),
    Object(Map<Seq<char>, JsonView>),
}

impl JsonView {
    /// The value under a key of an object.
    pub open spec fn field(self, key: Seq<char>) -> Option<JsonView> {
        match self {
            JsonView::Object(m) => if m.contains_key(key) {
                Some(m[key])
            } else {
                None
            },
            _ => None,
        }
    }

    /// The characters of a text.
    pub open spec fn text(self) -> Option<Seq<char>> {
        match self {
            JsonView::Text(s) => Some(s),
            _ => None,
        }
    }

    /// The truth value of a boolean.
    pub open spec fn truth(self) -> Option<bool> {
        match self {
            JsonView::Bool(b) => Some(b),
            _ => None,
        }
    }

    /// The items of a list.
    pub open spec fn items(self) -> Option<Seq<JsonView>> {
        match self {
            JsonView::List(s) => Some(s),
            _ => None,
        }
    }

    /// The number, where it is an integer from 0 to `u64::MAX`.
    pub open spec fn unsigned(self) -> Option<u64> {
        match self {
            JsonView::Number(NumberView::Integer(i)) => if 0 <= i <= u64::MAX {
                Some(i as u64)
            } else {
                None
            },
            _ => None,
        }
    }

    /// The number, where it is an integer from `i64::MIN` to `i64::MAX`.
    pub open spec fn signed(self) -> Option<i64> {
        match self {
            JsonView::Number(NumberView::Integer(i)) => if i64::MIN <= i <= i64::MAX {
                Some(i as i64)
            } else {
                None
            },
            _ => None,
        }
    }
}

/// The value under a key, where there is a value and it is an object.
pub open spec fn field_of(v: Option<JsonView>, key: Seq<char>) -> Option<JsonView> {
    match v {
        Some(j) => j.field(key),
        None => None,
    }
}

/// The characters of a text, where there is a value and it is a text.
pub open spec fn text_in(v: Option<JsonView>) -> Option<Seq<char>> {
    match v {
        Some(j) => j.text(),
        None => None,
    }
}

/// The number, where there is a value and it is an unsigned integer.
pub open spec fn unsigned_in(v: Option<JsonView>) -> Option<u64> {
    match v {
        Some(j) => j.unsigned(),
        None => None,
    }
}

/// What an optional value is.
pub open spec fn json_view(v: Option<Json>) -> Option<JsonView> {
    match v {
        Some(j) => Some(j@),
        None => None,
    }
}

/// An object with one more field, where there is a value for it.
pub open spec fn with_field(
    m: Map<Seq<char>, JsonView>,
    key: Seq<char>,
    v: Option<JsonView>,
) -> Map<Seq<char>, JsonView> {
    match v {
        Some(j) => m.insert(key, j),
        None => m,
    }
}

/// The JSON text of some characters, where there are any.
pub open spec fn text_json(s: Option<Seq<char>>) -> Option<JsonView> {
    match s {
        Some(t) => Some(JsonView::Text(t)),
        None => None,
    }
}

/// The JSON integer `i`.
pub open spec fn number(i: int) -> JsonView {
    JsonView::Number(NumberView::Integer(i))
}

// ---------------------------------------------------------------------------
// serde_json
// ---------------------------------------------------------------------------

/// `serde_json::Value`: a JSON value as serde_json holds it.
#[verifier::external_type_specification]
#[verifier::external_body]
pub struct ExValue(serde_json::Value);

/// `serde_json::Number`: a JSON number as serde_json holds it.
#[verifier::external_type_specification]
#[verifier::external_body]
pub struct ExNumber(serde_json::Number);

/// What a `serde_json::Number` holds.
pub uninterp spec fn number_content(n: serde_json::Number) -> NumberView;

/// What a `serde_json::Value` holds.
pub uninterp spec fn value_content(v: serde_json::Value) -> JsonView;

/// What `serde_json::from_slice` reads from some bytes: a value, or the text
/// of its error.
pub uninterp spec fn json_parsed(bytes: Seq<u8>) -> Result<JsonView, Seq<char>>;

/// What `serde_json::to_string` writes for a value.
pub uninterp spec fn json_text(j: JsonView) -> Seq<char>;

/// The variants of `serde_json::Value`, with the entries of an object listed.
pub enum ValueParts {
    Null,
    Bool(bool),
    Number(serde_json::Number),
    Text(String),
    List(Vec<serde_json::Value>),
    Object(Vec<(String, serde_json::Value)>),
}

/// The contents of a list of values.
pub open spec fn value_list(vs: Seq<serde_json::Value>) -> Seq<JsonView> {
    Seq::new(vs.len(), |i: int| value_content(vs[i]))
}

/// The object that a list of entries makes; of entries with one key the last
/// one counts.
pub open spec fn value_entries(es: Seq<(String, serde_json::Value)>) -> Map<Seq<char>, JsonView>
    decreases es.len(),
{
    if es.len() == 0 {
        Map::empty()
    } else {
        value_entries(es.drop_last()).insert(es.last().0@, value_content(es.last().1))
    }
}

/// Whether no two entries have one key.
pub open spec fn distinct_keys(es: Seq<(String, serde_json::Value)>) -> bool {
    forall|i: int, j: int| 0 <= i < j < es.len() ==> (#[trigger] es[i]).0@ != (#[trigger] es[j]).0@
}

/// What the parts of a value make.
pub open spec fn parts_content(p: ValueParts) -> JsonView {
    match p {
        ValueParts::Null => JsonView::Null,
        ValueParts::Bool(b) => JsonView::Bool(b),
        ValueParts::Number(n) => JsonView::Number(number_content(n)),
        ValueParts::Text(s) => JsonView::Text(s@),
        ValueParts::List(vs) => JsonView::List(value_list(vs@)),
        ValueParts::Object(es) => JsonView::Object(value_entries(es@)),
    }
}

/// Takes a `serde_json::Value` apart by its variants. The entries of an object
/// come in the order in which its map hands them out, each key once.
#[verifier::external_body]
fn open_value(v: serde_json::Value) -> (p: ValueParts)
    ensures
        parts_content(p) == value_content(v),
        p matches ValueParts::Object(es) ==> distinct_keys(es@),
{
    match v {
        serde_json::Value::Null => ValueParts::Null,
        serde_json::Value::Bool(b) => ValueParts::Bool(b),
        serde_json::Value::Number(n) => ValueParts::Number(n),
        serde_json::Value::String(s) => ValueParts::Text(s),
        serde_json::Value::Array(vs) => ValueParts::List(vs),
        serde_json::Value::Object(m) => ValueParts::Object(m.into_iter().collect()),
    }
}

/// Builds a `serde_json::Value` by its variants. The entries of an object have
/// different keys, so its map holds them all.
#[verifier::external_body]
fn close_value(p: ValueParts) -> (v: serde_json::Value)
    requires
        p matches ValueParts::Object(es) ==> distinct_keys(es@),
    ensures
        value_content(v) == parts_content(p),
{
    match p {
        ValueParts::Null => serde_json::Value::Null,
        ValueParts::Bool(b) => serde_json::Value::Bool(b),
        ValueParts::Number(n) => serde_json::Value::Number(n),
        ValueParts::Text(s) => serde_json::Value::String(s),
        ValueParts::List(vs) => serde_json::Value::Array(vs),
        ValueParts::Object(es) => serde_json::Value::Object(es.into_iter().collect()),
    }
}

/// `serde_json::from_slice` for a `Value`. What the bytes mean is JSON's
/// grammar and stays a name; so does the text of the error.
#[verifier::external_body]
fn value_from_bytes(bytes: &[u8]) -> (r: Result<serde_json::Value, String>)
    ensures
        match r {
            Ok(v) => json_parsed(bytes@) == Ok::<JsonView, Seq<char>>(value_content(v)),
            Err(e) => json_parsed(bytes@) == Err::<JsonView, Seq<char>>(e@),
        },
{
    serde_json::from_slice(bytes).map_err(|e| e.to_string())
}

/// Whether a value has no fraction in it and nests at most `depth` lists and
/// objects.
pub open spec fn is_plain(j: JsonView, depth: nat) -> bool
    decreases depth,
{
    match j {
        JsonView::Number(n) => n is Integer,
        JsonView::List(s) => depth > 0 && forall|i: int|
            0 <= i < s.len() ==> is_plain(#[trigger] s[i], (depth - 1) as nat),
        JsonView::Object(m) => depth > 0 && forall|k: Seq<char>|
            m.contains_key(k) ==> is_plain(#[trigger] m[k], (depth - 1) as nat),
        _ => true,
    }
}

/// `serde_json::to_string` for a `Value`, which has text keys only and finite
/// numbers only, so that it is always written. `serde_json::from_slice` reads
/// the text back as the same value, where the value stays within the nesting
/// that it reads and has no fraction, which it may read with another last bit.
#[verifier::external_body]
fn value_to_text(v: &serde_json::Value) -> (r: Option<String>)
    ensures
        r is Some,
        r->0@ == json_text(value_content(*v)),
        is_plain(value_content(*v), 127) ==> (json_parsed(encode_utf8(r->0@)) == Ok::<
            JsonView,
            Seq<char>,
        >(value_content(*v))),
{
    serde_json::to_string(v).ok()
}

/// `serde_json::Number::from_i128`: the number, where it lies from `i64::MIN`
/// to `u64::MAX`.
#[verifier::external_body]
fn number_from_i128(i: i128) -> (r: Option<serde_json::Number>)
    ensures
        r is Some <==> i64::MIN <= i <= u64::MAX,
        r matches Some(n) ==> number_content(n) == NumberView::Integer(i as int),
{
    serde_json::Number::from_i128(i)
}

/// `serde_json::Number::as_i128`: the integer, or `None` for a fraction. An
/// integer lies from `i64::MIN` to `u64::MAX`.
#[verifier::external_body]
fn number_as_i128(n: &serde_json::Number) -> (r: Option<i128>)
    ensures
        match r {
            Some(i) => number_content(*n) == NumberView::Integer(i as int) && i64::MIN <= i
                <= u64::MAX,
            None => number_content(*n) is Fraction,
        },
{
    n.as_i128()
}

/// `serde_json::Number`'s `Clone`: the same number.
pub assume_specification[ <serde_json::Number as Clone>::clone ](
    n: &serde_json::Number,
) -> (r: serde_json::Number)
    ensures
        number_content(r) == number_content(*n),
;

// ---------------------------------------------------------------------------
// The value type
// ---------------------------------------------------------------------------

/// A JSON value.
#[derive(Debug)]
pub enum Json {
    Null,
    Bool(bool),
    Number(serde_json::Number),
    Text(String),
    List(Vec<Json>),
    Object(JsonObject),
}

/// A JSON object, as the entries put into it; of entries with one key the last
/// one counts.
#[derive(Debug)]
pub struct JsonObject {
    pub entries: Vec<(String, Json)>,
}

/// What a JSON value is.
pub open spec fn json_content(j: Json) -> JsonView
    decreases j,
{
    match j {
        Json::Null => JsonView::Null,
        Json::Bool(b) => JsonView::Bool(b),
        Json::Number(n) => JsonView::Number(number_content(n)),
        Json::Text(s) => JsonView::Text(s@),
        Json::List(v) => JsonView::List(
            Seq::new(
                v@.len(),
                |i: int|
                    if 0 <= i < v@.len() {
                        json_content(v@[i])
                    } else {
                        JsonView::Null
                    },
            ),
        ),
        Json::Object(o) => JsonView::Object(entries_content(o.entries@)),
    }
}

/// The object that a list of entries makes.
pub open spec fn entries_content(es: Seq<(String, Json)>) -> Map<Seq<char>, JsonView>
    decreases es,
{
    if es.len() == 0 {
        Map::empty()
    } else {
        entries_content(es.drop_last()).insert(es.last().0@, json_content(es.last().1))
    }
}

impl View for Json {
    type V = JsonView;

    open spec fn view(&self) -> JsonView {
        json_content(*self)
    }
}

impl View for JsonObject {
    type V = Map<Seq<char>, JsonView>;

    open spec fn view(&self) -> Map<Seq<char>, JsonView> {
        entries_content(self.entries@)
    }
}

impl JsonObject {
    /// The empty object.
    pub fn new() -> (r: JsonObject)
        ensures
            r@ == Map::<Seq<char>, JsonView>::empty(),
    {
        JsonObject { entries: Vec::new() }
    }

    /// Puts a value under a key, in place of any that was there.
    pub fn put(&mut self, key: &str, value: Json)
        ensures
            final(self)@ == old(self)@.insert(key@, value@),
    {
        let ghost before = self.entries@;
        self.entries.push((key.to_owned(), value));
        assert(self.entries@.drop_last() =~= before);
    }

    /// Puts a value under a key, where there is one.
    pub fn put_some(&mut self, key: &str, value: Option<Json>)
        ensures
            final(self)@ == with_field(old(self)@, key@, json_view(value)),
    {
        match value {
            Some(j) => self.put(key, j),
            None => {},
        }
    }

    /// Puts a text under a key, where there is one.
    pub fn put_text(&mut self, key: &str, value: &Option<String>)
        ensures
            final(self)@ == with_field(old(self)@, key@, text_json(text_view(*value))),
    {
        match value {
            Some(s) => self.put(key, Json::str(s.as_str())),
            None => {},
        }
    }

    /// The position of the entry that counts for a key.
    fn position(&self, key: &str) -> (r: Option<usize>)
        ensures
            match r {
                Some(i) => i < self.entries@.len() && self@.contains_key(key@) && self@[key@]
                    == self.entries@[i as int].1@,
                None => !self@.contains_key(key@),
            },
    {
        let mut n: usize = self.entries.len();
        assert(self.entries@.take(n as int) =~= self.entries@);
        while n > 0
            invariant
                n <= self.entries@.len(),
                self@.contains_key(key@) == entries_content(
                    self.entries@.take(n as int),
                ).contains_key(key@),
                self@.contains_key(key@) ==> self@[key@] == entries_content(
                    self.entries@.take(n as int),
                )[key@],
            decreases n,
        {
            assert(self.entries@.take(n as int).drop_last() =~= self.entries@.take(n - 1));
            if same_text(self.entries[n - 1].0.as_str(), key) {
                return Some(n - 1);
            }
            n -= 1;
        }
        None
    }

    /// The value under a key.
    pub fn get(&self, key: &str) -> (r: Option<&Json>)
        ensures
            match r {
                Some(j) => self@.contains_key(key@) && self@[key@] == j@,
                None => !self@.contains_key(key@),
            },
    {
        match self.position(key) {
            Some(i) => Some(&self.entries[i].1),
            None => None,
        }
    }

    /// Takes the value under a key out.
    pub fn remove(&mut self, key: &str)
        ensures
            final(self)@ == old(self)@.remove(key@),
    {
        let mut i: usize = 0;
        let ghost all = self.entries@;
        let ghost whole = self@;
        let ghost mut seen: int = 0;
        assert(all.take(0) =~= seq![]);
        assert(entries_content(all.take(0)).remove(key@) =~= entries_content(
            self.entries@.take(0),
        )) by {
            assert(self.entries@.take(0) =~= seq![]);
        }
        while i < self.entries.len()
            invariant
                i <= self.entries@.len(),
                0 <= seen <= all.len(),
                self.entries@.len() - i == all.len() - seen,
                forall|j: int|
                    0 <= j < all.len() - seen ==> self.entries@[i + j] == #[trigger] all[seen + j],
                entries_content(all.take(seen)).remove(key@) == entries_content(
                    self.entries@.take(i as int),
                ),
            decreases self.entries@.len() - i,
        {
            let ghost entry = all[seen + 0];
            let ghost before = self.entries@;
            assert(before[i + 0] == entry);
            assert(all.take(seen + 1).drop_last() =~= all.take(seen));
            if same_text(self.entries[i].0.as_str(), key) {
                let _ = self.entries.remove(i);
                proof {
                    assert(self.entries@.take(i as int) =~= before.take(i as int));
                    assert(entries_content(all.take(seen + 1)).remove(key@) =~= entries_content(
                        all.take(seen),
                    ).remove(key@));
                    assert forall|j: int| 0 <= j < all.len() - (seen + 1) implies self.entries@[i
                        + j] == #[trigger] all[seen + 1 + j] by {
                        assert(before[i + (j + 1)] == all[seen + (j + 1)]);
                    }
                }
            } else {
                i += 1;
                proof {
                    assert(before.take(i as int).drop_last() =~= before.take(i - 1));
                    assert(entries_content(all.take(seen + 1)).remove(key@) =~= entries_content(
                        all.take(seen),
                    ).remove(key@).insert(entry.0@, entry.1@));
                    assert forall|j: int| 0 <= j < all.len() - (seen + 1) implies self.entries@[i
                        + j] == #[trigger] all[seen + 1 + j] by {
                        assert(before[i - 1 + (j + 1)] == all[seen + (j + 1)]);
                    }
                }
            }
            proof {
                seen = seen + 1;
            }
        }
        assert(all.take(seen) =~= all);
        assert(self.entries@.take(i as int) =~= self.entries@);
    }
}

impl Json {
    /// The JSON text of some characters.
    pub fn str(s: &str) -> (r: Json)
        ensures
            r@ == JsonView::Text(s@),
    {
        Json::Text(s.to_owned())
    }

    /// The JSON number of an unsigned integer.
    pub fn unsigned(n: u64) -> (r: Json)
        ensures
            r@ == number(n as int),
    {
        match number_from_i128(n as i128) {
            Some(m) => Json::Number(m),
            None => Json::Null,
        }
    }

    /// The JSON number of a signed integer.
    pub fn signed(n: i64) -> (r: Json)
        ensures
            r@ == number(n as int),
    {
        match number_from_i128(n as i128) {
            Some(m) => Json::Number(m),
            None => Json::Null,
        }
    }

    /// The value under a key, where this is an object that has it.
    pub fn get(&self, key: &str) -> (r: Option<&Json>)
        ensures
            match r {
                Some(j) => self@.field(key@) == Some(j@),
                None => self@.field(key@) is None,
            },
    {
        match self {
            Json::Object(o) => o.get(key),
            _ => None,
        }
    }

    /// The characters, where this is a text.
    pub fn as_str(&self) -> (r: Option<&str>)
        ensures
            match r {
                Some(s) => self@.text() == Some(s@),
                None => self@.text() is None,
            },
    {
        match self {
            Json::Text(s) => Some(s.as_str()),
            _ => None,
        }
    }

    /// The truth value, where this is a boolean.
    pub fn as_bool(&self) -> (r: Option<bool>)
        ensures
            r == self@.truth(),
    {
        match self {
            Json::Bool(b) => Some(*b),
            _ => None,
        }
    }

    /// The items, where this is a list.
    pub fn as_list(&self) -> (r: Option<&Vec<Json>>)
        ensures
            match r {
                Some(v) => self@ == JsonView::List(list_content(v@)),
                None => self@.items() is None,
            },
    {
        match self {
            Json::List(v) => {
                assert(self@->List_0 =~= list_content(v@));
                Some(v)
            },
            _ => None,
        }
    }

    /// The integer, where this is one from 0 to `u64::MAX`.
    pub fn as_u64(&self) -> (r: Option<u64>)
        ensures
            r == self@.unsigned(),
    {
        match self {
            Json::Number(n) => match number_as_i128(n) {
                Some(i) => if 0 <= i {
                    Some(i as u64)
                } else {
                    None
                },
                None => None,
            },
            _ => None,
        }
    }

    /// The integer, where this is one from `i64::MIN` to `i64::MAX`.
    pub fn as_i64(&self) -> (r: Option<i64>)
        ensures
            r == self@.signed(),
    {
        match self {
            Json::Number(n) => match number_as_i128(n) {
                Some(i) => if i <= 0x7fff_ffff_ffff_ffff {
                    Some(i as i64)
                } else {
                    None
                },
                None => None,
            },
            _ => None,
        }
    }

    /// A copy of this value.
    pub fn copy(&self) -> (r: Json)
        ensures
            r@ == self@,
        decreases self,
    {
        match self {
            Json::Null => Json::Null,
            Json::Bool(b) => Json::Bool(*b),
            Json::Number(n) => Json::Number(n.clone()),
            Json::Text(s) => Json::Text(s.clone()),
            Json::List(v) => {
                let mut out: Vec<Json> = Vec::new();
                let mut i: usize = 0;
                while i < v.len()
                    invariant
                        i <= v@.len(),
                        decreases_to!(self => v@),
                        out@.len() == i,
                        forall|j: int| 0 <= j < i ==> (#[trigger] out@[j])@ == v@[j]@,
                    decreases v.len() - i,
                {
                    assert(decreases_to!(v@ => v@[i as int]));
                    out.push(v[i].copy());
                    i += 1;
                }
                let r = Json::List(out);
                assert(r@->List_0 =~= self@->List_0);
                r
            },
            Json::Object(o) => {
                let mut out: Vec<(String, Json)> = Vec::new();
                let mut i: usize = 0;
                assert(o.entries@.take(0) =~= seq![]);
                while i < o.entries.len()
                    invariant
                        i <= o.entries@.len(),
                        decreases_to!(self => o.entries@),
                        entries_content(out@) == entries_content(o.entries@.take(i as int)),
                    decreases o.entries.len() - i,
                {
                    let ghost before = out@;
                    assert(decreases_to!(o.entries@ => o.entries@[i as int]));
                    out.push((o.entries[i].0.clone(), o.entries[i].1.copy()));
                    i += 1;
                    assert(out@.drop_last() =~= before);
                    assert(o.entries@.take(i as int).drop_last() =~= o.entries@.take(i - 1));
                }
                assert(o.entries@.take(i as int) =~= o.entries@);
                Json::Object(JsonObject { entries: out })
            },
        }
    }

    /// Reads a JSON value from bytes; the error is serde_json's text.
    pub fn parse(bytes: &[u8]) -> (r: Result<Json, String>)
        ensures
            match r {
                Ok(j) => json_parsed(bytes@) == Ok::<JsonView, Seq<char>>(j@),
                Err(e) => json_parsed(bytes@) == Err::<JsonView, Seq<char>>(e@),
            },
    {
        match value_from_bytes(bytes) {
            Ok(v) => Ok(from_value(v)),
            Err(e) => Err(e),
        }
    }

    /// Writes this value as JSON.
    pub fn to_text(&self) -> (r: String)
        ensures
            r@ == json_text(self@),
            is_plain(self@, 127) ==> json_parsed(encode_utf8(r@)) == Ok::<JsonView, Seq<char>>(
                self@,
            ),
    {
        let v = to_value(self);
        match value_to_text(&v) {
            Some(s) => s,
            None => String::new(),
        }
    }
}

impl Clone for Json {
    fn clone(&self) -> (r: Self)
        ensures
            r@ == self@,
    {
        self.copy()
    }
}

/// The contents of a list of values.
pub open spec fn list_content(v: Seq<Json>) -> Seq<JsonView> {
    Seq::new(v.len(), |i: int| v[i]@)
}

/// The value that a `serde_json::Value` holds.
fn from_value(v: serde_json::Value) -> (r: Json)
    ensures
        r@ == value_content(v),
    decreases value_content(v),
{
    let ghost content = value_content(v);
    match open_value(v) {
        ValueParts::Null => Json::Null,
        ValueParts::Bool(b) => Json::Bool(b),
        ValueParts::Number(n) => Json::Number(n),
        ValueParts::Text(s) => Json::Text(s),
        ValueParts::List(vs) => {
            let ghost all = vs@;
            let mut vs = vs;
            let mut out: Vec<Json> = Vec::new();
            while vs.len() > 0
                invariant
                    content == value_content(v),
                    content == JsonView::List(value_list(all)),
                    out@.len() + vs@.len() == all.len(),
                    vs@ == all.skip(out@.len() as int),
                    forall|j: int|
                        0 <= j < out@.len() ==> (#[trigger] out@[j])@ == value_content(all[j]),
                decreases vs@.len(),
            {
                let ghost n = out@.len() as int;
                let x = vs.remove(0);
                assert(x == all[n]);
                assert(value_list(all)[n] == value_content(x));
                assert(decreases_to!(content => content->List_0));
                assert(decreases_to!(value_list(all) => value_list(all)[n]));
                out.push(from_value(x));
                assert(vs@ =~= all.skip(n + 1));
            }
            let r = Json::List(out);
            assert(r@->List_0 =~= content->List_0);
            r
        },
        ValueParts::Object(es) => {
            let ghost all = es@;
            let mut es = es;
            let mut out: Vec<(String, Json)> = Vec::new();
            let ghost mut done: int = 0;
            assert(all.take(0) =~= seq![]);
            while es.len() > 0
                invariant
                    content == value_content(v),
                    content == JsonView::Object(value_entries(all)),
                    distinct_keys(all),
                    0 <= done,
                    done + es@.len() == all.len(),
                    es@ == all.skip(done),
                    entries_content(out@) == value_entries(all.take(done)),
                decreases es@.len(),
            {
                let (k, x) = es.remove(0);
                assert((k, x) == all[done]);
                proof {
                    lemma_value_entries(all);
                    assert(decreases_to!(content => content->Object_0));
                    assert(decreases_to!(value_entries(all) => value_entries(all)[k@]));
                }
                let ghost before = out@;
                out.push((k, from_value(x)));
                assert(out@.drop_last() =~= before);
                assert(all.take(done + 1).drop_last() =~= all.take(done));
                proof {
                    done = done + 1;
                }
                assert(es@ =~= all.skip(done));
            }
            assert(all.take(done) =~= all);
            Json::Object(JsonObject { entries: out })
        },
    }
}

/// The object that entries with different keys make has those keys, each with
/// the value of its entry.
proof fn lemma_value_entries(es: Seq<(String, serde_json::Value)>)
    requires
        distinct_keys(es),
    ensures
        value_entries(es).dom().finite(),
        forall|i: int|
            0 <= i < es.len() ==> value_entries(es).contains_key((#[trigger] es[i]).0@)
                && value_entries(es)[es[i].0@] == value_content(es[i].1),
        forall|k: Seq<char>| #[trigger]
            value_entries(es).contains_key(k) ==> exists|i: int|
                0 <= i < es.len() && (#[trigger] es[i]).0@ == k,
    decreases es.len(),
{
    if es.len() > 0 {
        let rest = es.drop_last();
        lemma_value_entries(rest);
        assert forall|i: int| 0 <= i < es.len() implies value_entries(es).contains_key(
            (#[trigger] es[i]).0@,
        ) && value_entries(es)[es[i].0@] == value_content(es[i].1) by {
            if i < es.len() - 1 {
                assert(rest[i] == es[i]);
                assert(es[i].0@ != es[es.len() - 1].0@);
            }
        }
        assert forall|k: Seq<char>| #[trigger] value_entries(es).contains_key(k) implies exists|
            i: int,
        |
            0 <= i < es.len() && (#[trigger] es[i]).0@ == k by {
            if k == es.last().0@ {
                assert(es[es.len() - 1].0@ == k);
            } else {
                assert(value_entries(rest).contains_key(k));
                let i = choose|i: int| 0 <= i < rest.len() && (#[trigger] rest[i]).0@ == k;
                assert(es[i].0@ == k);
            }
        }
    }
}

/// Puts an entry among entries with different keys, in place of the one with
/// its key where there is one.
fn put_value(es: &mut Vec<(String, serde_json::Value)>, key: &String, value: serde_json::Value)
    requires
        distinct_keys(old(es)@),
    ensures
        distinct_keys(final(es)@),
        value_entries(final(es)@) == value_entries(old(es)@).insert(key@, value_content(value)),
{
    let ghost before = es@;
    let mut i: usize = 0;
    while i < es.len()
        invariant
            i <= es@.len(),
            es@ == before,
            before == old(es)@,
            distinct_keys(before),
            forall|j: int| 0 <= j < i ==> (#[trigger] before[j]).0@ != key@,
        decreases es@.len() - i,
    {
        if same_text(es[i].0.as_str(), key.as_str()) {
            let entry = (key.clone(), value);
            es.set(i, entry);
            proof {
                lemma_value_entries(before);
                assert(distinct_keys(es@)) by {
                    assert forall|a: int, b: int| 0 <= a < b < es@.len() implies (
                    #[trigger] es@[a]).0@ != (#[trigger] es@[b]).0@ by {
                        assert(before[a].0@ != before[b].0@);
                    }
                }
                lemma_value_entries(es@);
                let target = value_entries(before).insert(key@, value_content(value));
                assert(before[i as int].0@ == key@);
                assert forall|k: Seq<char>| #[trigger]
                    value_entries(es@).contains_key(k) == target.contains_key(k) by {
                    if value_entries(es@).contains_key(k) {
                        let a = choose|a: int| 0 <= a < es@.len() && (#[trigger] es@[a]).0@ == k;
                        assert(before[a].0@ == k);
                    }
                    if target.contains_key(k) && k != key@ {
                        let a = choose|a: int|
                            0 <= a < before.len() && (#[trigger] before[a]).0@ == k;
                        assert(es@[a].0@ == k);
                    }
                    assert(es@[i as int].0@ == key@);
                }
                assert forall|k: Seq<char>| #[trigger] target.contains_key(k) implies value_entries(
                    es@,
                )[k] == target[k] by {
                    if k == key@ {
                        assert(es@[i as int].0@ == key@);
                    } else {
                        let a = choose|a: int|
                            0 <= a < before.len() && (#[trigger] before[a]).0@ == k;
                        assert(es@[a] == before[a]);
                    }
                }
                assert(value_entries(es@) =~= target);
            }
            return ;
        }
        i += 1;
    }
    es.push((key.clone(), value));
    assert(es@.drop_last() =~= before);
    assert(distinct_keys(es@)) by {
        assert forall|a: int, b: int| 0 <= a < b < es@.len() implies (#[trigger] es@[a]).0@ != (
        #[trigger] es@[b]).0@ by {
            assert(before[a].0@ != key@);
        }
    }
}

/// The `serde_json::Value` that holds a value.
fn to_value(j: &Json) -> (r: serde_json::Value)
    ensures
        value_content(r) == j@,
    decreases j,
{
    match j {
        Json::Null => close_value(ValueParts::Null),
        Json::Bool(b) => close_value(ValueParts::Bool(*b)),
        Json::Number(n) => close_value(ValueParts::Number(n.clone())),
        Json::Text(s) => close_value(ValueParts::Text(s.clone())),
        Json::List(v) => {
            let mut out: Vec<serde_json::Value> = Vec::new();
            let mut i: usize = 0;
            while i < v.len()
                invariant
                    i <= v@.len(),
                    decreases_to!(j => v@),
                    out@.len() == i,
                    forall|k: int| 0 <= k < i ==> value_content(#[trigger] out@[k]) == v@[k]@,
                decreases v.len() - i,
            {
                assert(decreases_to!(v@ => v@[i as int]));
                out.push(to_value(&v[i]));
                i += 1;
            }
            assert(value_list(out@) =~= j@->List_0);
            close_value(ValueParts::List(out))
        },
        Json::Object(o) => {
            let mut out: Vec<(String, serde_json::Value)> = Vec::new();
            let mut i: usize = 0;
            assert(o.entries@.take(0) =~= seq![]);
            while i < o.entries.len()
                invariant
                    i <= o.entries@.len(),
                    decreases_to!(j => o.entries@),
                    distinct_keys(out@),
                    value_entries(out@) == entries_content(o.entries@.take(i as int)),
                decreases o.entries.len() - i,
            {
                assert(decreases_to!(o.entries@ => o.entries@[i as int]));
                let x = to_value(&o.entries[i].1);
                put_value(&mut out, &o.entries[i].0, x);
                i += 1;
                assert(o.entries@.take(i as int).drop_last() =~= o.entries@.take(i - 1));
            }
            assert(o.entries@.take(i as int) =~= o.entries@);
            close_value(ValueParts::Object(out))
        },
    }
}

// ---------------------------------------------------------------------------
// Laws
// ---------------------------------------------------------------------------

/// A number reads back as the number that it is, where 64 bits hold it, and is
/// no text, truth value, list or object.
pub proof fn law_numbers_read_back(i: int)
    ensures
        0 <= i <= u64::MAX ==> number(i).unsigned() == Some(i as u64),
        i < 0 || i > u64::MAX ==> number(i).unsigned() is None,
        i64::MIN <= i <= i64::MAX ==> number(i).signed() == Some(i as i64),
        i < i64::MIN || i > i64::MAX ==> number(i).signed() is None,
        number(i).text() is None,
        number(i).truth() is None,
        number(i).items() is None,
        forall|k: Seq<char>| #[trigger] number(i).field(k) is None,
{
}

/// A field that was put into an object is there, and the others stay; a field
/// without a value changes nothing. Nothing but an object has fields.
pub proof fn law_fields_read_back(
    m: Map<Seq<char>, JsonView>,
    key: Seq<char>,
    v: Option<JsonView>,
    other: Seq<char>,
)
    ensures
        ({
            let after = JsonView::Object(with_field(m, key, v));
            &&& v is Some ==> after.field(key) == v
            &&& v is None ==> after == JsonView::Object(m)
            &&& other != key ==> after.field(other) == JsonView::Object(m).field(other)
        }),
        (JsonView::Null).field(key) is None,
        JsonView::Text(key).field(other) is None,
        JsonView::Text(key).text() == Some(key),
        (JsonView::Bool(true)).truth() == Some(true),
        (JsonView::Bool(false)).truth() == Some(false),
{
}

} // verus!
