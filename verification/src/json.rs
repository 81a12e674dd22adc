//! An owned JSON document model: what the request and response logic reads
//! and builds. Numbers are held as their decimal text.

use vstd::prelude::*;

use crate::text::str_eq;

verus! {

/// A JSON value. Object members keep their order; keys are compared as text.
#[derive(Debug)]
pub enum JsonValue {
    Null,
    Bool(bool),
    Number(String),
    Str(String),
    Array(Vec<JsonValue>),
    Object(Vec<(String, JsonValue)>),
}

/// The mathematical form of a JSON value.
pub enum Json {
    Null,
    Bool(bool),
    Num(Seq<char>),
    Str(Seq<char>),
    Arr(Seq<Json>),
    Obj(Seq<(Seq<char>, Json)>),
}

impl JsonValue {
    /// The value's mathematical form.
    pub open spec fn model(self) -> Json
        decreases self,
    {
        match self {
            JsonValue::Null => Json::Null,
            JsonValue::Bool(b) => Json::Bool(b),
            JsonValue::Number(n) => Json::Num(n@),
            JsonValue::Str(s) => Json::Str(s@),
            JsonValue::Array(a) => Json::Arr(
                Seq::new(
                    a@.len(),
                    |i: int|
                        if 0 <= i < a@.len() {
                            a@[i].model()
                        } else {
                            Json::Null
                        },
                ),
            ),
            JsonValue::Object(m) => Json::Obj(
                Seq::new(
                    m@.len(),
                    |i: int|
                        if 0 <= i < m@.len() {
                            (m@[i].0@, m@[i].1.model())
                        } else {
                            (Seq::empty(), Json::Null)
                        },
                ),
            ),
        }
    }
}

pub open spec fn member_model(e: (String, JsonValue)) -> (Seq<char>, Json) {
    (e.0@, e.1.model())
}

/// The mathematical form of object members.
pub open spec fn members_model(m: Seq<(String, JsonValue)>) -> Seq<(Seq<char>, Json)> {
    m.map_values(|e: (String, JsonValue)| member_model(e))
}

/// The mathematical form of array items.
pub open spec fn items_model(a: Seq<JsonValue>) -> Seq<Json> {
    a.map_values(|v: JsonValue| v.model())
}

/// The model of an object is the model of its members.
pub proof fn lemma_object_model(m: Vec<(String, JsonValue)>)
    ensures
        JsonValue::Object(m).model() == Json::Obj(members_model(m@)),
{
    assert(JsonValue::Object(m).model()->Obj_0 =~= members_model(m@));
}

/// The model of an array is the model of its items.
pub proof fn lemma_array_model(a: Vec<JsonValue>)
    ensures
        JsonValue::Array(a).model() == Json::Arr(items_model(a@)),
{
    assert(JsonValue::Array(a).model()->Arr_0 =~= items_model(a@));
}

/// The value of the first member named `k`.
pub open spec fn obj_get(ms: Seq<(Seq<char>, Json)>, k: Seq<char>) -> Option<Json>
    decreases ms.len(),
{
    if ms.len() == 0 {
        None
    } else if ms[0].0 == k {
        Some(ms[0].1)
    } else {
        obj_get(ms.drop_first(), k)
    }
}

/// The first of two lookups that finds something.
pub open spec fn first_some(x: Option<Json>, y: Option<Json>) -> Option<Json> {
    match x {
        Some(v) => Some(v),
        None => y,
    }
}

/// Looking up in two member lists placed one after the other: the first
/// list wins.
pub proof fn lemma_obj_get_concat(a: Seq<(Seq<char>, Json)>, b: Seq<(Seq<char>, Json)>, k: Seq<char>)
    ensures
        obj_get(a + b, k) == first_some(obj_get(a, k), obj_get(b, k)),
    decreases a.len(),
{
    if a.len() == 0 {
        assert(a + b =~= b);
    } else {
        assert((a + b)[0] == a[0]);
        assert((a + b).drop_first() =~= a.drop_first() + b);
        lemma_obj_get_concat(a.drop_first(), b, k);
    }
}

/// A lookup passes over a first member with another key.
pub proof fn lemma_obj_get_skip(ms: Seq<(Seq<char>, Json)>, k: Seq<char>)
    requires
        ms.len() > 0,
        ms[0].0 != k,
    ensures
        obj_get(ms, k) == obj_get(ms.drop_first(), k),
{
}

/// A lookup stops at a first member with its key.
pub proof fn lemma_obj_get_head(ms: Seq<(Seq<char>, Json)>, k: Seq<char>)
    requires
        ms.len() > 0,
        ms[0].0 == k,
    ensures
        obj_get(ms, k) == Some(ms[0].1),
{
}

/// Looking up in a list of one member.
pub proof fn lemma_obj_get_one(e: (Seq<char>, Json), k: Seq<char>)
    ensures
        obj_get(seq![e], k) == (if e.0 == k {
            Some(e.1)
        } else {
            None::<Json>
        }),
{
    let s = seq![e];
    assert(s[0] == e);
    assert(s.drop_first() =~= Seq::<(Seq<char>, Json)>::empty());
    assert(obj_get(Seq::<(Seq<char>, Json)>::empty(), k) is None);
}

/// `j[k]` when `j` is an object holding `k`.
pub open spec fn json_get(j: Json, k: Seq<char>) -> Option<Json> {
    match j {
        Json::Obj(ms) => obj_get(ms, k),
        _ => None,
    }
}

/// `j[k]` when `j` is present and is an object holding `k`.
pub open spec fn json_at(j: Option<Json>, k: Seq<char>) -> Option<Json> {
    match j {
        Some(x) => json_get(x, k),
        None => None,
    }
}

/// Looking up a member commutes with taking the model.
pub proof fn lemma_lookup_model(m: Seq<(String, JsonValue)>, k: Seq<char>)
    ensures
        obj_get(members_model(m), k) == (match lookup(m, k) {
            Some(x) => Some(x.model()),
            None => None,
        }),
    decreases m.len(),
{
    if m.len() > 0 {
        assert(members_model(m).drop_first() =~= members_model(m.drop_first()));
        lemma_lookup_model(m.drop_first(), k);
    }
}

/// `field` seen through the model.
pub proof fn lemma_field_model(v: JsonValue, k: Seq<char>)
    ensures
        json_get(v.model(), k) == (match field(v, k) {
            Some(x) => Some(x.model()),
            None => None,
        }),
{
    if let JsonValue::Object(m) = v {
        lemma_object_model(m);
        lemma_lookup_model(m@, k);
    }
}

/// Moves `v[key]` out of `v`.
pub fn into_field(v: JsonValue, key: &str) -> (r: Option<JsonValue>)
    ensures
        r == field(v, key@),
        match r {
            Some(x) => json_get(v.model(), key@) == Some(x.model()),
            None => json_get(v.model(), key@) is None,
        },
{
    proof {
        lemma_field_model(v, key@);
    }
    match v {
        JsonValue::Object(m) => {
            let i = find_member(&m, key);
            if i < m.len() {
                let mut m = m;
                let e = m.remove(i);
                Some(e.1)
            } else {
                None
            }
        },
        _ => None,
    }
}

/// Appends a member.
pub fn push_member(m: &mut Vec<(String, JsonValue)>, k: &str, v: JsonValue)
    ensures
        final(m)@ == old(m)@.push((final(m)@.last().0, v)),
        final(m)@.last().0@ == k@,
        members_model(final(m)@) == members_model(old(m)@).push((k@, v.model())),
{
    m.push((String::from_str(k), v));
    proof {
        assert(members_model(m@) =~= members_model(old(m)@).push((k@, v.model())));
    }
}

/// Appends an item.
pub fn push_item(a: &mut Vec<JsonValue>, v: JsonValue)
    ensures
        final(a)@ == old(a)@.push(v),
        items_model(final(a)@) == items_model(old(a)@).push(v.model()),
{
    a.push(v);
    proof {
        assert(items_model(a@) =~= items_model(old(a)@).push(v.model()));
    }
}

/// A JSON number holding the decimal text of `n`.
pub fn json_uint(n: u64) -> (r: JsonValue)
    ensures
        r.model() == Json::Num(crate::text::decimal(n as nat)),
{
    JsonValue::Number(crate::text::decimal_string(n))
}

/// The value of the first member named `key`.
pub open spec fn lookup(m: Seq<(String, JsonValue)>, key: Seq<char>) -> Option<JsonValue>
    decreases m.len(),
{
    if m.len() == 0 {
        None
    } else if m[0].0@ == key {
        Some(m[0].1)
    } else {
        lookup(m.drop_first(), key)
    }
}

/// The members left once every member named `key` is dropped.
pub open spec fn without_key(m: Seq<(String, JsonValue)>, key: Seq<char>) -> Seq<(String, JsonValue)>
    decreases m.len(),
{
    if m.len() == 0 {
        m
    } else if m[0].0@ == key {
        without_key(m.drop_first(), key)
    } else {
        seq![m[0]] + without_key(m.drop_first(), key)
    }
}

/// `v[key]` when `v` is an object holding `key`.
pub open spec fn field(v: JsonValue, key: Seq<char>) -> Option<JsonValue> {
    match v {
        JsonValue::Object(m) => lookup(m@, key),
        _ => None,
    }
}

/// `v[key]` when it is a string.
pub open spec fn str_field(v: JsonValue, key: Seq<char>) -> Option<Seq<char>> {
    match field(v, key) {
        Some(JsonValue::Str(s)) => Some(s@),
        _ => None,
    }
}

/// `v[key]` when it is an array.
pub open spec fn array_field(v: JsonValue, key: Seq<char>) -> Option<Seq<JsonValue>> {
    match field(v, key) {
        Some(JsonValue::Array(a)) => Some(a@),
        _ => None,
    }
}

/// The first member named `key` is at index `i` when no earlier one is.
pub proof fn lemma_lookup_at(m: Seq<(String, JsonValue)>, key: Seq<char>, i: int)
    requires
        0 <= i <= m.len(),
        i < m.len() ==> m[i].0@ == key,
        forall|k: int| 0 <= k < i ==> #[trigger] m[k].0@ != key,
    ensures
        lookup(m, key) == (if i < m.len() {
            Some(m[i].1)
        } else {
            None::<JsonValue>
        }),
    decreases i,
{
    if i > 0 {
        assert forall|k: int| 0 <= k < i - 1 implies #[trigger] m.drop_first()[k].0@ != key by {
            assert(m.drop_first()[k] == m[k + 1]);
        }
        lemma_lookup_at(m.drop_first(), key, i - 1);
    }
}

/// Dropping `key` leaves the lookup of every other key unchanged.
pub proof fn lemma_without_key_lookup(m: Seq<(String, JsonValue)>, key: Seq<char>, other: Seq<char>)
    ensures
        lookup(without_key(m, key), other) == (if other == key {
            None::<JsonValue>
        } else {
            lookup(m, other)
        }),
    decreases m.len(),
{
    if m.len() > 0 {
        lemma_without_key_lookup(m.drop_first(), key, other);
        if m[0].0@ != key {
            let w = seq![m[0]] + without_key(m.drop_first(), key);
            assert(w.drop_first() =~= without_key(m.drop_first(), key));
        }
    }
}

/// Dropping members never makes the list longer, and changes nothing when the key is absent.
pub proof fn lemma_without_key_len(m: Seq<(String, JsonValue)>, key: Seq<char>)
    ensures
        without_key(m, key).len() <= m.len(),
        lookup(m, key) is None ==> without_key(m, key) == m,
    decreases m.len(),
{
    if m.len() > 0 {
        lemma_without_key_len(m.drop_first(), key);
        if lookup(m, key) is None {
            assert(m[0].0@ != key);
            assert(seq![m[0]] + m.drop_first() =~= m);
        }
    }
}

/// Index of the first member named `key` (or `m.len()`).
fn find_member(m: &Vec<(String, JsonValue)>, key: &str) -> (i: usize)
    ensures
        i <= m@.len(),
        i < m@.len() ==> m@[i as int].0@ == key@,
        lookup(m@, key@) == (if i < m@.len() {
            Some(m@[i as int].1)
        } else {
            None::<JsonValue>
        }),
{
    let mut i: usize = 0;
    while i < m.len()
        invariant
            0 <= i <= m@.len(),
            forall|k: int| 0 <= k < i ==> #[trigger] m@[k].0@ != key@,
        decreases m@.len() - i,
    {
        if str_eq(m[i].0.as_str(), key) {
            proof {
                lemma_lookup_at(m@, key@, i as int);
            }
            return i;
        }
        i = i + 1;
    }
    proof {
        lemma_lookup_at(m@, key@, i as int);
    }
    i
}

impl JsonValue {
    /// `self[key]`: the member's value when `self` is an object holding `key`.
    pub fn get(&self, key: &str) -> (r: Option<&JsonValue>)
        ensures
            match r {
                Some(x) => field(*self, key@) == Some(*x),
                None => field(*self, key@) is None,
            },
    {
        match self {
            JsonValue::Object(m) => {
                let i = find_member(m, key);
                if i < m.len() {
                    Some(&m[i].1)
                } else {
                    None
                }
            },
            _ => None,
        }
    }

    /// `self[key]` when it is a string.
    pub fn get_str(&self, key: &str) -> (r: Option<&str>)
        ensures
            match r {
                Some(s) => str_field(*self, key@) == Some(s@),
                None => str_field(*self, key@) is None,
            },
    {
        match self.get(key) {
            Some(JsonValue::Str(s)) => Some(s.as_str()),
            _ => None,
        }
    }

    /// `self[key]` when it is an array.
    pub fn get_array(&self, key: &str) -> (r: Option<&Vec<JsonValue>>)
        ensures
            match r {
                Some(a) => array_field(*self, key@) == Some(a@),
                None => array_field(*self, key@) is None,
            },
    {
        match self.get(key) {
            Some(JsonValue::Array(a)) => Some(a),
            _ => None,
        }
    }
}

/// Drops every member named `key`, keeping the others in order.
pub fn remove_key(m: &mut Vec<(String, JsonValue)>, key: &str)
    ensures
        final(m)@ == without_key(old(m)@, key@),
{
    let mut src: Vec<(String, JsonValue)> = Vec::new();
    core::mem::swap(&mut src, m);
    let ghost orig = src@;
    while src.len() > 0
        invariant
            without_key(orig, key@) == m@ + without_key(src@, key@),
        decreases src@.len(),
    {
        let ghost before = src@;
        let e = src.remove(0);
        proof {
            assert(src@ =~= before.drop_first());
        }
        if !str_eq(e.0.as_str(), key) {
            m.push(e);
        }
    }
    proof {
        assert(without_key(src@, key@) =~= src@);
        assert(m@ + src@ =~= m@);
    }
}


/// A string value.
pub fn json_str(s: &str) -> (r: JsonValue)
    ensures
        r matches JsonValue::Str(t) && t@ == s@,
        r.model() == Json::Str(s@),
{
    JsonValue::Str(String::from_str(s))
}

/// An object member.
pub fn member(k: &str, v: JsonValue) -> (r: (String, JsonValue))
    ensures
        r.0@ == k@,
        r.1 == v,
{
    (String::from_str(k), v)
}

// ── Reading values for display ──────────────────────────────────────────

/// The text of a string value; empty for anything else or nothing.
pub open spec fn text_or_empty(v: Option<JsonValue>) -> Seq<char> {
    match v {
        Some(JsonValue::Str(s)) => s@,
        _ => Seq::empty(),
    }
}

/// `text_or_empty` of an optional borrowed value.
pub fn text_of(v: Option<&JsonValue>) -> (r: String)
    ensures
        r@ == text_or_empty(
            match v {
                Some(x) => Some(*x),
                None => None,
            },
        ),
{
    match v {
        Some(JsonValue::Str(s)) => s.clone(),
        _ => String::new(),
    }
}

pub open spec fn is_digit(c: char) -> bool {
    '0' <= c && c <= '9'
}

pub open spec fn all_digits(s: Seq<char>) -> bool {
    forall|i: int| 0 <= i < s.len() ==> is_digit(#[trigger] s[i])
}

/// The value of a string of decimal digits.
pub open spec fn digits_value(s: Seq<char>) -> int
    decreases s.len(),
{
    if s.len() == 0 {
        0
    } else {
        digits_value(s.drop_last()) * 10 + (s.last() as int - '0' as int)
    }
}

/// `t` is the text of a JSON integer that fits in `i64`: what
/// `serde_json::Value::as_i64` accepts of a number written as it prints one
/// (integers as plain digits, floats with a `.` or an exponent).
pub open spec fn i64_text(t: Seq<char>) -> bool {
    if t.len() > 0 && t[0] == '-' {
        t.len() > 1 && all_digits(t.drop_first()) && digits_value(t.drop_first()) <= 9223372036854775808
    } else {
        t.len() > 0 && all_digits(t) && digits_value(t) <= 9223372036854775807
    }
}

/// The text of an integer number that fits in `i64`; empty for anything
/// else or nothing.
pub open spec fn int_or_empty(v: Option<JsonValue>) -> Seq<char> {
    match v {
        Some(JsonValue::Number(t)) => if i64_text(t@) {
            t@
        } else {
            Seq::empty()
        },
        _ => Seq::empty(),
    }
}

proof fn lemma_digits_value_nonneg(s: Seq<char>)
    requires
        all_digits(s),
    ensures
        digits_value(s) >= 0,
    decreases s.len(),
{
    if s.len() > 0 {
        assert(is_digit(s[s.len() - 1]));
        lemma_digits_value_nonneg(s.drop_last());
    }
}

/// A digit string is worth at least any of its prefixes.
proof fn lemma_digits_prefix_le(s: Seq<char>, j: int)
    requires
        all_digits(s),
        0 <= j <= s.len(),
    ensures
        digits_value(s.take(j)) <= digits_value(s),
    decreases s.len() - j,
{
    if j == s.len() {
        assert(s.take(j) =~= s);
    } else {
        lemma_digits_prefix_le(s, j + 1);
        let t = s.take(j + 1);
        assert(t.drop_last() =~= s.take(j));
        assert(is_digit(s[j]));
        lemma_digits_value_nonneg(s.take(j));
    }
}

/// The digits of `d` form a number of at most `limit`.
fn digits_fit(d: &str, limit: u64) -> (r: bool)
    ensures
        r == (d@.len() > 0 && all_digits(d@) && digits_value(d@) <= limit),
{
    let n = d.unicode_len();
    if n == 0 {
        return false;
    }
    let mut v: u64 = 0;
    let mut i: usize = 0;
    while i < n
        invariant
            n == d@.len(),
            0 <= i <= n,
            all_digits(d@.take(i as int)),
            v == digits_value(d@.take(i as int)),
            v <= limit,
        decreases n - i,
    {
        let c = d.get_char(i);
        if !('0' <= c && c <= '9') {
            proof {
                assert(!is_digit(d@[i as int]));
            }
            return false;
        }
        let dv: u64 = (c as u32 - '0' as u32) as u64;
        let nv: u128 = (v as u128) * 10 + (dv as u128);
        proof {
            let t = d@.take(i + 1);
            assert(t.drop_last() =~= d@.take(i as int));
            assert(digits_value(t) == nv);
            assert(all_digits(t)) by {
                assert forall|k: int| 0 <= k < t.len() implies is_digit(#[trigger] t[k]) by {
                    if k < i {
                        assert(t[k] == d@.take(i as int)[k]);
                    }
                }
            }
        }
        if nv > limit as u128 {
            proof {
                if all_digits(d@) {
                    lemma_digits_prefix_le(d@, i + 1);
                }
            }
            return false;
        }
        v = nv as u64;
        i = i + 1;
    }
    proof {
        assert(d@.take(n as int) =~= d@);
    }
    true
}

/// Whether a number's text is an integer that fits in `i64`.
pub fn is_i64_text(t: &str) -> (r: bool)
    ensures
        r == i64_text(t@),
{
    let n = t.unicode_len();
    if n > 0 && t.get_char(0) == '-' {
        let d = t.substring_char(1, n);
        proof {
            assert(d@ =~= t@.drop_first());
        }
        digits_fit(d, 9223372036854775808)
    } else {
        digits_fit(t, 9223372036854775807)
    }
}

/// `int_or_empty` of an optional borrowed value.
pub fn int_of(v: Option<&JsonValue>) -> (r: String)
    ensures
        r@ == int_or_empty(
            match v {
                Some(x) => Some(*x),
                None => None,
            },
        ),
{
    match v {
        Some(JsonValue::Number(t)) => {
            if is_i64_text(t.as_str()) {
                t.clone()
            } else {
                String::new()
            }
        },
        _ => String::new(),
    }
}

} // verus!
