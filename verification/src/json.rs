//! JSON values in the shape of `serde_json_borrow`'s `Value`, and the access
//! that the resolvers make of them.
use vstd::prelude::*;
use crate::text::{name_order, NameOrder};

verus! {

/// A JSON number: a non-negative integer, a negative integer, or a finite
/// float held by the bits of its `f64`.
#[derive(PartialEq, Eq, Structural, Clone, Copy, Debug)]
pub enum JsonNumber {
    PosInt(u64),
    NegInt(i64),
    Float(u64),
}

impl JsonNumber {
    pub open spec fn spec_as_i64(self) -> Option<i64> {
        match self {
            JsonNumber::PosInt(n) => if n <= i64::MAX {
                Some(n as i64)
            } else {
                None
            },
            JsonNumber::NegInt(v) => Some(v),
            JsonNumber::Float(_) => None,
        }
    }

    pub open spec fn spec_as_u64(self) -> Option<u64> {
        match self {
            JsonNumber::PosInt(n) => Some(n),
            _ => None,
        }
    }

    /// The number as an `i64`, if it is an integer in range.
    pub fn as_i64(&self) -> (r: Option<i64>)
        ensures
            r == self.spec_as_i64(),
    {
        match *self {
            JsonNumber::PosInt(n) => {
                if n <= 9223372036854775807u64 {
                    Some(n as i64)
                } else {
                    None
                }
            },
            JsonNumber::NegInt(v) => Some(v),
            JsonNumber::Float(_) => None,
        }
    }

    /// The number as a `u64`, if it is held as a non-negative integer.
    pub fn as_u64(&self) -> (r: Option<u64>)
        ensures
            r == self.spec_as_u64(),
    {
        match *self {
            JsonNumber::PosInt(n) => Some(n),
            _ => None,
        }
    }

    /// The borrowed value's number made from an `i64`: held as a negative
    /// integer, whatever its sign.
    pub fn from_i64(v: i64) -> (r: Self)
        ensures
            r == JsonNumber::NegInt(v),
    {
        JsonNumber::NegInt(v)
    }

    /// The borrowed value's number made from a `u64`.
    pub fn from_u64(v: u64) -> (r: Self)
        ensures
            r == JsonNumber::PosInt(v),
    {
        JsonNumber::PosInt(v)
    }

    /// How `serde_json` holds this number: a non-negative integer always as
    /// `PosInt`.
    pub open spec fn spec_to_serde(self) -> Self {
        match self {
            JsonNumber::NegInt(v) => if v < 0 {
                JsonNumber::NegInt(v)
            } else {
                JsonNumber::PosInt(v as u64)
            },
            _ => self,
        }
    }

    /// The number converted into `serde_json`'s number.
    pub fn to_serde(&self) -> (r: Self)
        requires
            self.is_finite(),
        ensures
            r == self.spec_to_serde(),
    {
        match *self {
            JsonNumber::NegInt(v) => {
                if v < 0 {
                    JsonNumber::NegInt(v)
                } else {
                    JsonNumber::PosInt(v as u64)
                }
            },
            n => n,
        }
    }

    /// The bits are those of a finite `f64`: its exponent is not all ones.
    pub open spec fn finite_float_bits(bits: u64) -> bool {
        (bits / 4503599627370496) % 2048 != 2047
    }

    /// A number that `serde_json` can hold: a float only when finite.
    pub open spec fn is_finite(self) -> bool {
        match self {
            JsonNumber::Float(b) => Self::finite_float_bits(b),
            _ => true,
        }
    }

    /// A number as `serde_json` holds it: negative integers only as `NegInt`.
    pub open spec fn is_serde_number(self) -> bool {
        match self {
            JsonNumber::NegInt(v) => v < 0,
            _ => true,
        }
    }
}

/// A JSON value.
#[derive(Debug)]
pub enum JsonValue {
    Null,
    Bool(bool),
    Number(JsonNumber),
    Str(String),
    Array(Vec<JsonValue>),
    Object(JsonObject),
}

/// A JSON object: its entries in the order they were given. A key may occur
/// more than once; lookups find the first.
#[derive(Debug)]
pub struct JsonObject {
    entries: Vec<(String, JsonValue)>,
}

/// A primitive JSON value.
#[derive(Debug)]
pub enum JsonPrimitive {
    Null,
    Bool(bool),
    Str(String),
    Number(JsonNumber),
}

/// The value of the first entry with the key.
pub open spec fn find_key(ps: Seq<(Seq<char>, JsonValue)>, k: Seq<char>) -> Option<JsonValue>
    decreases ps.len(),
{
    if ps.len() == 0 {
        None
    } else if ps[0].0 == k {
        Some(ps[0].1)
    } else {
        find_key(ps.drop_first(), k)
    }
}

/// The position of the first entry with the key.
pub open spec fn key_index(ps: Seq<(Seq<char>, JsonValue)>, k: Seq<char>) -> Option<int>
    decreases ps.len(),
{
    if ps.len() == 0 {
        None
    } else if ps[0].0 == k {
        Some(0)
    } else {
        match key_index(ps.drop_first(), k) {
            Some(i) => Some(i + 1),
            None => None,
        }
    }
}

pub proof fn lemma_key_index(ps: Seq<(Seq<char>, JsonValue)>, k: Seq<char>)
    ensures
        match key_index(ps, k) {
            Some(i) => 0 <= i < ps.len() && ps[i].0 == k && find_key(ps, k) == Some(ps[i].1)
                && forall|j: int| 0 <= j < i ==> (#[trigger] ps[j]).0 != k,
            None => find_key(ps, k) is None && forall|j: int| 0 <= j < ps.len() ==> (#[trigger] ps[j]).0 != k,
        },
    decreases ps.len(),
{
    if ps.len() > 0 {
        lemma_key_index(ps.drop_first(), k);
        assert forall|j: int| 1 <= j < ps.len() implies ps[j] == ps.drop_first()[j - 1] by {}
        match key_index(ps.drop_first(), k) {
            Some(i) => {
                if ps[0].0 != k {
                    assert forall|j: int| 0 <= j < i + 1 implies (#[trigger] ps[j]).0 != k by {
                        if j > 0 {
                            assert(ps[j] == ps.drop_first()[j - 1]);
                        }
                    }
                }
            },
            None => {
                if ps[0].0 != k {
                    assert forall|j: int| 0 <= j < ps.len() implies (#[trigger] ps[j]).0 != k by {
                        if j > 0 {
                            assert(ps[j] == ps.drop_first()[j - 1]);
                        }
                    }
                }
            },
        }
    }
}

/// The entries after storing a value under a key: the first entry with the
/// key gets the value, or a new entry is added at the end.
pub open spec fn insert_entry(ps: Seq<(Seq<char>, JsonValue)>, k: Seq<char>, v: JsonValue) -> Seq<
    (Seq<char>, JsonValue),
> {
    match key_index(ps, k) {
        Some(i) => ps.update(i, (k, v)),
        None => ps.push((k, v)),
    }
}

/// A decimal number as `usize`'s `FromStr` reads it: an optional `+`
/// followed by one or more ASCII digits, of a value that fits.
pub open spec fn spec_parse_usize(s: Seq<char>) -> Option<usize> {
    let digits = if s.len() > 0 && s[0] == '+' {
        s.drop_first()
    } else {
        s
    };
    if digits.len() > 0 && all_digits(digits) && digits_value(digits) <= usize::MAX {
        Some(digits_value(digits) as usize)
    } else {
        None
    }
}

pub open spec fn all_digits(s: Seq<char>) -> bool {
    forall|i: int| 0 <= i < s.len() ==> '0' <= #[trigger] s[i] <= '9'
}

/// The value of a sequence of decimal digits.
pub open spec fn digits_value(s: Seq<char>) -> nat
    decreases s.len(),
{
    if s.len() == 0 {
        0
    } else {
        digits_value(s.drop_last()) * 10 + ((s.last() as nat) - ('0' as nat)) as nat
    }
}

/// Calls `str::parse::<usize>`. Per the documentation of `usize::from_str_radix`
/// with radix 10, it accepts an optional `+` followed by digits only, and fails
/// on an empty text, any other character, or a value above `usize::MAX`.
#[verifier::external_body]
fn parse_usize(s: &str) -> (r: Option<usize>)
    ensures
        r == spec_parse_usize(s@),
{
    s.parse::<usize>().ok()
}

impl JsonObject {
    /// The entries as (key, value) pairs, in order.
    pub closed spec fn pairs(&self) -> Seq<(Seq<char>, JsonValue)> {
        self.entries@.map_values(|e: (String, JsonValue)| (e.0@, e.1))
    }

    /// An empty object.
    pub fn new() -> (o: Self)
        ensures
            o.pairs() == Seq::<(Seq<char>, JsonValue)>::empty(),
    {
        let o = JsonObject { entries: Vec::new() };
        assert(o.pairs() =~= Seq::<(Seq<char>, JsonValue)>::empty());
        o
    }

    /// An empty object with room for `n` entries.
    pub fn with_capacity(n: usize) -> (o: Self)
        ensures
            o.pairs() == Seq::<(Seq<char>, JsonValue)>::empty(),
    {
        let o = JsonObject { entries: Vec::with_capacity(n) };
        assert(o.pairs() =~= Seq::<(Seq<char>, JsonValue)>::empty());
        o
    }

    /// The object of these entries, in this order.
    pub fn from_vec(v: Vec<(String, JsonValue)>) -> (o: Self)
        ensures
            o.pairs() == v@.map_values(|e: (String, JsonValue)| (e.0@, e.1)),
    {
        JsonObject { entries: v }
    }

    /// The value of the first entry with the key.
    pub fn get_key(&self, key: &str) -> (r: Option<&JsonValue>)
        ensures
            match r {
                Some(v) => find_key(self.pairs(), key@) == Some(*v),
                None => find_key(self.pairs(), key@) is None,
            },
    {
        proof {
            lemma_key_index(self.pairs(), key@);
        }
        match self.position(key) {
            Some(i) => Some(&self.entries[i].1),
            None => None,
        }
    }

    fn position(&self, key: &str) -> (r: Option<usize>)
        ensures
            match r {
                Some(i) => key_index(self.pairs(), key@) == Some(i as int),
                None => key_index(self.pairs(), key@) is None,
            },
    {
        let ghost ps = self.pairs();
        proof {
            lemma_key_index(ps, key@);
        }
        let n = self.entries.len();
        let mut i: usize = 0;
        while i < n
            invariant
                n == self.entries@.len(),
                ps == self.pairs(),
                i <= n,
                forall|j: int| 0 <= j < i ==> (#[trigger] ps[j]).0 != key@,
                match key_index(ps, key@) {
                    Some(x) => 0 <= x < ps.len() && ps[x].0 == key@ && forall|j: int|
                        0 <= j < x ==> (#[trigger] ps[j]).0 != key@,
                    None => forall|j: int| 0 <= j < ps.len() ==> (#[trigger] ps[j]).0 != key@,
                },
            decreases n - i,
        {
            assert(ps[i as int].0 == self.entries@[i as int].0@);
            if name_order(self.entries[i].0.as_str(), key) == NameOrder::Same {
                proof {
                    match key_index(ps, key@) {
                        Some(x) => {
                            if x < i {
                            } else if x > i {
                                assert(ps[i as int].0 != key@);
                            }
                        },
                        None => {
                            assert(ps[i as int].0 != key@);
                        },
                    }
                }
                return Some(i);
            }
            i = i + 1;
        }
        proof {
            match key_index(ps, key@) {
                Some(x) => {
                    assert(ps[x].0 != key@);
                },
                None => {},
            }
        }
        None
    }

    /// Stores a value under a key: replaces the value of the first entry with
    /// the key, or adds an entry at the end.
    pub fn insert_key(&mut self, key: String, value: JsonValue)
        ensures
            final(self).pairs() == insert_entry(old(self).pairs(), key@, value),
    {
        let ghost ps = self.pairs();
        let ghost kv = key@;
        proof {
            lemma_key_index(ps, kv);
        }
        match self.position(key.as_str()) {
            Some(i) => {
                self.entries.set(i, (key, value));
                assert(self.pairs() =~= ps.update(i as int, (kv, value)));
            },
            None => {
                self.entries.push((key, value));
                assert(self.pairs() =~= ps.push((kv, value)));
            },
        }
    }

    /// The entries, in order.
    pub fn iter(&self) -> (r: &[(String, JsonValue)])
        ensures
            r@.map_values(|e: (String, JsonValue)| (e.0@, e.1)) == self.pairs(),
    {
        self.entries.as_slice()
    }

    /// Number of entries.
    pub fn len(&self) -> (n: usize)
        ensures
            n == self.pairs().len(),
    {
        self.entries.len()
    }

    /// Whether there is no entry.
    pub fn is_empty(&self) -> (r: bool)
        ensures
            r == (self.pairs().len() == 0),
    {
        self.entries.len() == 0
    }
}

/// The value that a path leads to: each step takes the element at an index
/// (for an array) or the first entry with a key (for an object).
pub open spec fn spec_get_path(v: JsonValue, path: Seq<Seq<char>>) -> Option<JsonValue>
    decreases path.len(),
{
    if path.len() == 0 {
        Some(v)
    } else {
        match v {
            JsonValue::Array(arr) => match spec_parse_usize(path[0]) {
                Some(i) => if i < arr@.len() {
                    spec_get_path(arr@[i as int], path.drop_first())
                } else {
                    None
                },
                None => None,
            },
            JsonValue::Object(o) => match find_key(o.pairs(), path[0]) {
                Some(x) => spec_get_path(x, path.drop_first()),
                None => None,
            },
            _ => None,
        }
    }
}

/// The borrowed value of a primitive: integers that fit an `i64` made by
/// `from_i64`, other non-negative integers by `from_u64`, floats kept.
pub open spec fn spec_from_primitive(p: JsonPrimitive) -> JsonValue {
    match p {
        JsonPrimitive::Null => JsonValue::Null,
        JsonPrimitive::Bool(b) => JsonValue::Bool(b),
        JsonPrimitive::Str(s) => JsonValue::Str(s),
        JsonPrimitive::Number(n) => JsonValue::Number(
            match n.spec_as_i64() {
                Some(i) => JsonNumber::NegInt(i),
                None => match n.spec_as_u64() {
                    Some(u) => JsonNumber::PosInt(u),
                    None => n,
                },
            },
        ),
    }
}

/// The primitive of a value, with numbers as `serde_json` holds them; none
/// for arrays and objects.
pub open spec fn spec_as_primitive(v: JsonValue) -> Option<JsonPrimitive> {
    match v {
        JsonValue::Null => Some(JsonPrimitive::Null),
        JsonValue::Bool(b) => Some(JsonPrimitive::Bool(b)),
        JsonValue::Number(n) => Some(JsonPrimitive::Number(n.spec_to_serde())),
        JsonValue::Str(s) => Some(JsonPrimitive::Str(s)),
        _ => None,
    }
}

impl JsonValue {
    pub fn null() -> (r: Self)
        ensures
            r == JsonValue::Null,
    {
        JsonValue::Null
    }

    pub fn object(obj: JsonObject) -> (r: Self)
        ensures
            r == JsonValue::Object(obj),
    {
        JsonValue::Object(obj)
    }

    pub fn array(arr: Vec<JsonValue>) -> (r: Self)
        ensures
            r == JsonValue::Array(arr),
    {
        JsonValue::Array(arr)
    }

    pub fn string(s: String) -> (r: Self)
        ensures
            r == JsonValue::Str(s),
    {
        JsonValue::Str(s)
    }

    /// The value of a primitive.
    pub fn from_primitive(x: JsonPrimitive) -> (r: Self)
        ensures
            r == spec_from_primitive(x),
    {
        match x {
            JsonPrimitive::Null => JsonValue::Null,
            JsonPrimitive::Bool(x) => JsonValue::Bool(x),
            JsonPrimitive::Str(s) => JsonValue::Str(s),
            JsonPrimitive::Number(n) => {
                if let Some(i) = n.as_i64() {
                    JsonValue::Number(JsonNumber::from_i64(i))
                } else if let Some(u) = n.as_u64() {
                    JsonValue::Number(JsonNumber::from_u64(u))
                } else {
                    JsonValue::Number(n)
                }
            },
        }
    }

    /// The primitive of the value, if it is one. A float must be finite, as
    /// `serde_json` takes no other.
    pub fn as_primitive(&self) -> (r: Option<JsonPrimitive>)
        requires
            self matches JsonValue::Number(n) ==> n.is_finite(),
        ensures
            r == spec_as_primitive(*self),
    {
        match self {
            JsonValue::Null => Some(JsonPrimitive::Null),
            JsonValue::Bool(x) => Some(JsonPrimitive::Bool(*x)),
            JsonValue::Number(number) => Some(JsonPrimitive::Number(number.to_serde())),
            JsonValue::Str(s) => Some(JsonPrimitive::Str(s.clone())),
            _ => None,
        }
    }

    pub fn as_array(&self) -> (r: Option<&Vec<JsonValue>>)
        ensures
            match *self {
                JsonValue::Array(a) => r == Some(&a),
                _ => r is None,
            },
    {
        match self {
            JsonValue::Array(array) => Some(array),
            _ => None,
        }
    }

    pub fn as_array_mut(&mut self) -> (r: Option<&mut Vec<JsonValue>>)
        ensures
            match *old(self) {
                JsonValue::Array(a) => r is Some && *r->0 == a && *final(self) == JsonValue::Array(
                    *final(r->0),
                ),
                _ => r is None && *final(self) == *old(self),
            },
    {
        match self {
            JsonValue::Array(arr) => Some(arr),
            _ => None,
        }
    }

    pub fn as_object_mut(&mut self) -> (r: Option<&mut JsonObject>)
        ensures
            match *old(self) {
                JsonValue::Object(o) => r is Some && *r->0 == o && *final(self) == JsonValue::Object(
                    *final(r->0),
                ),
                _ => r is None && *final(self) == *old(self),
            },
    {
        match self {
            JsonValue::Object(obj) => Some(obj),
            _ => None,
        }
    }

    pub fn into_array(self) -> (r: Option<Vec<JsonValue>>)
        ensures
            match self {
                JsonValue::Array(a) => r == Some(a),
                _ => r is None,
            },
    {
        match self {
            JsonValue::Array(array) => Some(array),
            _ => None,
        }
    }

    pub fn as_object(&self) -> (r: Option<&JsonObject>)
        ensures
            match *self {
                JsonValue::Object(o) => r == Some(&o),
                _ => r is None,
            },
    {
        match self {
            JsonValue::Object(obj) => Some(obj),
            _ => None,
        }
    }

    pub fn into_object(self) -> (r: Option<JsonObject>)
        ensures
            match self {
                JsonValue::Object(o) => r == Some(o),
                _ => r is None,
            },
    {
        match self {
            JsonValue::Object(obj) => Some(obj),
            _ => None,
        }
    }

    pub fn as_str(&self) -> (r: Option<&str>)
        ensures
            match *self {
                JsonValue::Str(s) => r is Some && r->0@ == s@,
                _ => r is None,
            },
    {
        match self {
            JsonValue::Str(s) => Some(s.as_str()),
            _ => None,
        }
    }

    pub fn as_i64(&self) -> (r: Option<i64>)
        ensures
            match *self {
                JsonValue::Number(n) => r == n.spec_as_i64(),
                _ => r is None,
            },
    {
        match self {
            JsonValue::Number(n) => n.as_i64(),
            _ => None,
        }
    }

    pub fn as_u64(&self) -> (r: Option<u64>)
        ensures
            match *self {
                JsonValue::Number(n) => r == n.spec_as_u64(),
                _ => r is None,
            },
    {
        match self {
            JsonValue::Number(n) => n.as_u64(),
            _ => None,
        }
    }

    pub fn as_bool(&self) -> (r: Option<bool>)
        ensures
            match *self {
                JsonValue::Bool(b) => r == Some(b),
                _ => r is None,
            },
    {
        match self {
            JsonValue::Bool(b) => Some(*b),
            _ => None,
        }
    }

    pub fn is_null(&self) -> (r: bool)
        ensures
            r == (*self is Null),
    {
        match self {
            JsonValue::Null => true,
            _ => false,
        }
    }

    /// The value that the path leads to.
    pub fn get_path(&self, path: &[String]) -> (r: Option<&JsonValue>)
        ensures
            match r {
                Some(v) => spec_get_path(*self, path@.map_values(|s: String| s@)) == Some(*v),
                None => spec_get_path(*self, path@.map_values(|s: String| s@)) is None,
            },
    {
        let ghost ps = path@.map_values(|s: String| s@);
        let mut val = self;
        let mut i: usize = 0;
        assert(ps.skip(0) =~= ps);
        while i < path.len()
            invariant
                ps == path@.map_values(|s: String| s@),
                i <= ps.len(),
                spec_get_path(*self, ps) == spec_get_path(*val, ps.skip(i as int)),
            decreases ps.len() - i,
        {
            let token = &path[i];
            assert(ps.skip(i as int)[0] == token@);
            assert(ps.skip(i as int).drop_first() =~= ps.skip(i + 1));
            match val {
                JsonValue::Array(arr) => {
                    match parse_usize(token.as_str()) {
                        Some(index) => {
                            if index < arr.len() {
                                val = &arr[index];
                            } else {
                                return None;
                            }
                        },
                        None => {
                            return None;
                        },
                    }
                },
                JsonValue::Object(map) => {
                    match map.get_key(token.as_str()) {
                        Some(v) => {
                            val = v;
                        },
                        None => {
                            return None;
                        },
                    }
                },
                _ => {
                    return None;
                },
            }
            i = i + 1;
        }
        assert(ps.skip(i as int) =~= Seq::<Seq<char>>::empty());
        Some(val)
    }

    /// The value of the first entry with the key, when this is an object.
    pub fn get_key(&self, path: &str) -> (r: Option<&JsonValue>)
        ensures
            match *self {
                JsonValue::Object(o) => match r {
                    Some(v) => find_key(o.pairs(), path@) == Some(*v),
                    None => find_key(o.pairs(), path@) is None,
                },
                _ => r is None,
            },
    {
        match self {
            JsonValue::Object(map) => map.get_key(path),
            _ => None,
        }
    }
}

/// The first entry with the key decides what a lookup finds.
pub proof fn lemma_find_key_at(ps: Seq<(Seq<char>, JsonValue)>, k: Seq<char>, i: int)
    requires
        0 <= i < ps.len(),
        ps[i].0 == k,
        forall|j: int| 0 <= j < i ==> (#[trigger] ps[j]).0 != k,
    ensures
        find_key(ps, k) == Some(ps[i].1),
    decreases i,
{
    if i > 0 {
        let rest = ps.drop_first();
        assert forall|j: int| 0 <= j < i - 1 implies (#[trigger] rest[j]).0 != k by {
            assert(rest[j] == ps[j + 1]);
        }
        assert(ps[0].0 != k);
        lemma_find_key_at(rest, k, i - 1);
    }
}

/// Lookups agree on two sequences that agree at every entry with the key.
pub proof fn lemma_find_key_agree(
    ps: Seq<(Seq<char>, JsonValue)>,
    qs: Seq<(Seq<char>, JsonValue)>,
    k: Seq<char>,
)
    requires
        ps.len() == qs.len(),
        forall|j: int|
            0 <= j < ps.len() ==> ((#[trigger] ps[j]).0 == k <==> qs[j].0 == k),
        forall|j: int| 0 <= j < ps.len() && (#[trigger] ps[j]).0 == k ==> ps[j].1 == qs[j].1,
    ensures
        find_key(ps, k) == find_key(qs, k),
    decreases ps.len(),
{
    if ps.len() > 0 {
        let pr = ps.drop_first();
        let qr = qs.drop_first();
        assert(ps[0].0 == k <==> qs[0].0 == k);
        assert forall|j: int| 0 <= j < pr.len() implies ((#[trigger] pr[j]).0 == k <==> qr[j].0 == k) by {
            assert(pr[j] == ps[j + 1] && qr[j] == qs[j + 1]);
        }
        assert forall|j: int| 0 <= j < pr.len() && (#[trigger] pr[j]).0 == k implies pr[j].1 == qr[j].1 by {
            assert(pr[j] == ps[j + 1] && qr[j] == qs[j + 1]);
        }
        lemma_find_key_agree(pr, qr, k);
    }
}

/// An entry added at the end is found only when no earlier entry has its key.
pub proof fn lemma_find_key_push(ps: Seq<(Seq<char>, JsonValue)>, e: (Seq<char>, JsonValue), k: Seq<char>)
    ensures
        find_key(ps.push(e), k) == (match find_key(ps, k) {
            Some(x) => Some(x),
            None => if e.0 == k {
                Some(e.1)
            } else {
                None
            },
        }),
    decreases ps.len(),
{
    if ps.len() > 0 {
        assert(ps.push(e).drop_first() =~= ps.drop_first().push(e));
        assert(ps.push(e)[0] == ps[0]);
        lemma_find_key_push(ps.drop_first(), e, k);
    } else {
        assert(ps.push(e).drop_first() =~= Seq::<(Seq<char>, JsonValue)>::empty());
        assert(ps.push(e)[0] == e);
        assert(find_key(Seq::<(Seq<char>, JsonValue)>::empty(), k) is None);
    }
}

/// After storing a value under a key, looking the key up gives that value.
pub proof fn law_insert_then_find(ps: Seq<(Seq<char>, JsonValue)>, k: Seq<char>, v: JsonValue)
    ensures
        find_key(insert_entry(ps, k, v), k) == Some(v),
{
    lemma_key_index(ps, k);
    match key_index(ps, k) {
        Some(i) => {
            let qs = ps.update(i, (k, v));
            assert forall|j: int| 0 <= j < i implies (#[trigger] qs[j]).0 != k by {
                assert(qs[j] == ps[j]);
            }
            lemma_find_key_at(qs, k, i);
        },
        None => {
            lemma_find_key_push(ps, (k, v), k);
        },
    }
}

/// Storing a value under a key leaves what every other key finds.
pub proof fn law_insert_keeps_other_keys(
    ps: Seq<(Seq<char>, JsonValue)>,
    k: Seq<char>,
    v: JsonValue,
    other: Seq<char>,
)
    requires
        other != k,
    ensures
        find_key(insert_entry(ps, k, v), other) == find_key(ps, other),
{
    lemma_key_index(ps, k);
    match key_index(ps, k) {
        Some(i) => {
            let qs = ps.update(i, (k, v));
            assert forall|j: int| 0 <= j < ps.len() implies ((#[trigger] ps[j]).0 == other <==> qs[j].0
                == other) by {
                if j == i {
                } else {
                    assert(qs[j] == ps[j]);
                }
            }
            assert forall|j: int| 0 <= j < ps.len() && (#[trigger] ps[j]).0 == other implies ps[j].1
                == qs[j].1 by {
                assert(j != i);
                assert(qs[j] == ps[j]);
            }
            lemma_find_key_agree(ps, qs, other);
        },
        None => {
            lemma_find_key_push(ps, (k, v), other);
        },
    }
}

/// Following a path, then another, is following the two joined.
pub proof fn law_get_path_concat(v: JsonValue, p: Seq<Seq<char>>, q: Seq<Seq<char>>)
    ensures
        spec_get_path(v, p + q) == (match spec_get_path(v, p) {
            Some(x) => spec_get_path(x, q),
            None => None,
        }),
    decreases p.len(),
{
    if p.len() == 0 {
        assert(p + q =~= q);
    } else {
        assert((p + q)[0] == p[0]);
        assert((p + q).drop_first() =~= p.drop_first() + q);
        match v {
            JsonValue::Array(arr) => match spec_parse_usize(p[0]) {
                Some(i) => if i < arr@.len() {
                    law_get_path_concat(arr@[i as int], p.drop_first(), q);
                },
                None => {},
            },
            JsonValue::Object(o) => match find_key(o.pairs(), p[0]) {
                Some(x) => {
                    law_get_path_concat(x, p.drop_first(), q);
                },
                None => {},
            },
            _ => {},
        }
    }
}

/// A step into an object looks the token up as a key, whatever its text, also
/// when it reads as a number: the path goes on from the value of the first
/// entry with that key, and leads nowhere when no entry has it.
pub proof fn law_get_path_object_step(o: JsonObject, k: Seq<char>, rest: Seq<Seq<char>>)
    ensures
        spec_get_path(JsonValue::Object(o), seq![k] + rest) == (match find_key(o.pairs(), k) {
            Some(x) => spec_get_path(x, rest),
            None => None,
        }),
{
    assert((seq![k] + rest)[0] == k);
    assert((seq![k] + rest).drop_first() =~= rest);
}

/// The first entry whose key is the token is the one a step into an object
/// takes, whatever the token's text.
pub proof fn law_get_path_object_entry(o: JsonObject, k: Seq<char>, rest: Seq<Seq<char>>, i: int)
    requires
        0 <= i < o.pairs().len(),
        o.pairs()[i].0 == k,
        forall|j: int| 0 <= j < i ==> (#[trigger] o.pairs()[j]).0 != k,
    ensures
        spec_get_path(JsonValue::Object(o), seq![k] + rest) == spec_get_path(o.pairs()[i].1, rest),
{
    lemma_find_key_at(o.pairs(), k, i);
    law_get_path_object_step(o, k, rest);
}

/// A step into an object by a token that no entry has as its key leads
/// nowhere, whatever the token's text.
pub proof fn law_get_path_object_missing(o: JsonObject, k: Seq<char>, rest: Seq<Seq<char>>)
    requires
        forall|j: int| 0 <= j < o.pairs().len() ==> (#[trigger] o.pairs()[j]).0 != k,
    ensures
        spec_get_path(JsonValue::Object(o), seq![k] + rest) is None,
{
    lemma_key_index(o.pairs(), k);
    law_get_path_object_step(o, k, rest);
}

/// A step into an array reads the token as an index: the path goes on from
/// the element there, and leads nowhere when the token is no index or is past
/// the end.
pub proof fn law_get_path_array_step(arr: Vec<JsonValue>, k: Seq<char>, rest: Seq<Seq<char>>)
    ensures
        spec_get_path(JsonValue::Array(arr), seq![k] + rest) == (match spec_parse_usize(k) {
            Some(i) => if i < arr@.len() {
                spec_get_path(arr@[i as int], rest)
            } else {
                None
            },
            None => None,
        }),
{
    assert((seq![k] + rest)[0] == k);
    assert((seq![k] + rest).drop_first() =~= rest);
}

/// A non-negative integer reads as an `i64` exactly when it is at most
/// `i64::MAX` (9223372036854775807), and then with its own value; a negative
/// integer always does, a float never.
pub proof fn law_as_i64_in_range(n: u64, v: i64, bits: u64)
    ensures
        n <= 9223372036854775807u64 ==> JsonNumber::PosInt(n).spec_as_i64() is Some
            && JsonNumber::PosInt(n).spec_as_i64()->0 as int == n as int,
        n > 9223372036854775807u64 ==> JsonNumber::PosInt(n).spec_as_i64() is None,
        JsonNumber::NegInt(v).spec_as_i64() == Some(v),
        JsonNumber::Float(bits).spec_as_i64() is None,
        JsonNumber::PosInt(n).spec_as_u64() == Some(n),
        JsonNumber::NegInt(v).spec_as_u64() is None,
        JsonNumber::Float(bits).spec_as_u64() is None,
{
}

/// A primitive turned into a value and back is the same primitive, for
/// numbers as `serde_json` holds them.
pub proof fn law_primitive_round_trip(p: JsonPrimitive)
    requires
        p matches JsonPrimitive::Number(n) ==> n.is_serde_number(),
    ensures
        spec_as_primitive(spec_from_primitive(p)) == Some(p),
{
}

} // verus!
