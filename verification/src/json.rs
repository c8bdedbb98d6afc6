//! JSON documents as the library reads and edits them.
//!
//! Text is parsed and printed by `serde_json`; the tree in between is a
//! `Json` value whose contents the contracts see through `deep()`.  Objects
//! keep their entries in a sequence; a key is looked up at its first entry,
//! as in a map whose keys are unique.

use vstd::prelude::*;

use crate::text::{owned, str_eq};

verus! {

/// `serde_json::Value`, carried through opaque: what the library reads of
/// it goes through `Json`.
#[verifier::external_type_specification]
#[verifier::external_body]
pub struct ExJsonValue(serde_json::Value);

/// `serde_json::Number`, carried through opaque.
#[verifier::external_type_specification]
#[verifier::external_body]
pub struct ExJsonNumber(serde_json::Number);

/// A JSON number that is not a non-negative integer (negative or
/// fractional), as `serde_json` read it.  Only the reading of a parsed
/// value makes one, so it never holds a number that has a `u64` reading.
#[derive(Debug)]
pub struct OtherNumber {
    n: serde_json::Number,
}

/// A JSON value.  Non-negative integers are held as `u64`; any other
/// number (negative or fractional) is carried through untouched.
#[derive(Debug)]
pub enum Json {
    Null,
    Bool(bool),
    UInt(u64),
    Num(OtherNumber),
    Str(String),
    Array(Vec<Json>),
    Object(Vec<(String, Json)>),
}

/// The mathematical value of a `Json`.
pub enum JsonV {
    Null,
    Bool(bool),
    UInt(u64),
    Num(OtherNumber),
    Str(Seq<char>),
    Array(Seq<JsonV>),
    Object(Seq<(Seq<char>, JsonV)>),
}

impl Json {
    pub open spec fn deep(self) -> JsonV
        decreases self,
    {
        match self {
            Json::Null => JsonV::Null,
            Json::Bool(b) => JsonV::Bool(b),
            Json::UInt(n) => JsonV::UInt(n),
            Json::Num(n) => JsonV::Num(n),
            Json::Str(s) => JsonV::Str(s@),
            Json::Array(a) => JsonV::Array(deep_seq(a@)),
            Json::Object(es) => JsonV::Object(deep_entries(es@)),
        }
    }
}

pub open spec fn deep_seq(s: Seq<Json>) -> Seq<JsonV>
    decreases s,
{
    if s.len() == 0 {
        Seq::empty()
    } else {
        deep_seq(s.subrange(0, s.len() - 1)).push(s[s.len() - 1].deep())
    }
}

pub open spec fn deep_entries(s: Seq<(String, Json)>) -> Seq<(Seq<char>, JsonV)>
    decreases s,
{
    if s.len() == 0 {
        Seq::empty()
    } else {
        deep_entries(s.subrange(0, s.len() - 1)).push(
            (s[s.len() - 1].0@, s[s.len() - 1].1.deep()),
        )
    }
}

pub proof fn lemma_deep_seq(s: Seq<Json>)
    ensures
        deep_seq(s).len() == s.len(),
        forall|i: int| 0 <= i < s.len() ==> #[trigger] deep_seq(s)[i] == s[i].deep(),
    decreases s.len(),
{
    if s.len() > 0 {
        lemma_deep_seq(s.subrange(0, s.len() - 1));
    }
}

pub proof fn lemma_deep_entries(s: Seq<(String, Json)>)
    ensures
        deep_entries(s).len() == s.len(),
        forall|i: int|
            0 <= i < s.len() ==> #[trigger] deep_entries(s)[i] == (s[i].0@, s[i].1.deep()),
    decreases s.len(),
{
    if s.len() > 0 {
        lemma_deep_entries(s.subrange(0, s.len() - 1));
    }
}

/// Index of the first entry with key `k`, or -1.
pub open spec fn key_index(es: Seq<(Seq<char>, JsonV)>, k: Seq<char>) -> int
    decreases es.len(),
{
    if es.len() == 0 {
        -1
    } else {
        let r = key_index(es.drop_last(), k);
        if r >= 0 {
            r
        } else if es.last().0 == k {
            es.len() - 1
        } else {
            -1
        }
    }
}

pub proof fn lemma_key_index(es: Seq<(Seq<char>, JsonV)>, k: Seq<char>)
    ensures
        -1 <= key_index(es, k) < es.len(),
        key_index(es, k) == -1 <==> (forall|j: int| 0 <= j < es.len() ==> es[j].0 != k),
        key_index(es, k) >= 0 ==> es[key_index(es, k)].0 == k,
        forall|j: int| 0 <= j < key_index(es, k) ==> es[j].0 != k,
    decreases es.len(),
{
    if es.len() > 0 {
        lemma_key_index(es.drop_last(), k);
        let r = key_index(es.drop_last(), k);
        assert forall|j: int| 0 <= j < es.len() - 1 implies es.drop_last()[j] == es[j] by {}
        if r < 0 && es.last().0 != k {
            assert forall|j: int| 0 <= j < es.len() implies es[j].0 != k by {
                if j < es.len() - 1 {
                    assert(es.drop_last()[j] == es[j]);
                }
            }
        }
    }
}

/// `i` is the first entry of `es` with key `k`.
pub proof fn lemma_key_index_is(es: Seq<(Seq<char>, JsonV)>, k: Seq<char>, i: int)
    requires
        0 <= i < es.len(),
        es[i].0 == k,
        forall|j: int| 0 <= j < i ==> es[j].0 != k,
    ensures
        key_index(es, k) == i,
{
    lemma_key_index(es, k);
}

/// Entries with the same keys in the same places find every key at the same
/// index.
pub proof fn lemma_key_index_same_keys(
    a: Seq<(Seq<char>, JsonV)>,
    b: Seq<(Seq<char>, JsonV)>,
    k: Seq<char>,
)
    requires
        a.len() == b.len(),
        forall|j: int| 0 <= j < a.len() ==> a[j].0 == b[j].0,
    ensures
        key_index(a, k) == key_index(b, k),
{
    lemma_key_index(a, k);
    lemma_key_index(b, k);
    if key_index(a, k) >= 0 {
        lemma_key_index_is(b, k, key_index(a, k));
    } else if key_index(b, k) >= 0 {
        lemma_key_index_is(a, k, key_index(b, k));
    }
}

/// Appending an entry keeps every key already found, and finds a new key at
/// the end.
pub proof fn lemma_key_index_push(
    es: Seq<(Seq<char>, JsonV)>,
    e: (Seq<char>, JsonV),
    k: Seq<char>,
)
    ensures
        key_index(es.push(e), k) == (if key_index(es, k) >= 0 {
            key_index(es, k)
        } else if e.0 == k {
            es.len() as int
        } else {
            -1
        }),
{
    assert(es.push(e).drop_last() =~= es);
}

/// The value at key `k` of an object.
pub open spec fn field(j: JsonV, k: Seq<char>) -> Option<JsonV> {
    match j {
        JsonV::Object(es) => {
            let i = key_index(es, k);
            if i >= 0 {
                Some(es[i].1)
            } else {
                None
            }
        },
        _ => None,
    }
}

/// `j[k]`: the value at key `k`, or `null` where there is none.
pub open spec fn at(j: JsonV, k: Seq<char>) -> JsonV {
    match field(j, k) {
        Some(v) => v,
        None => JsonV::Null,
    }
}

/// `j[i]` of an array: the element at `i`, or `null`.
pub open spec fn nth(j: JsonV, i: int) -> JsonV {
    match j {
        JsonV::Array(a) => if 0 <= i < a.len() {
            a[i]
        } else {
            JsonV::Null
        },
        _ => JsonV::Null,
    }
}

/// Normalizing an array normalizes each element in place.
pub proof fn lemma_normal_seq(a: Seq<JsonV>)
    ensures
        normal_seq(a).len() == a.len(),
        forall|i: int| 0 <= i < a.len() ==> #[trigger] normal_seq(a)[i] == json_normal(a[i]),
    decreases a.len(),
{
    if a.len() > 0 {
        let a0 = a.subrange(0, a.len() - 1);
        lemma_normal_seq(a0);
        assert forall|i: int| 0 <= i < a.len() implies #[trigger] normal_seq(a)[i] == json_normal(a[i]) by {
            if i < a.len() - 1 {
                assert(a0[i] == a[i]);
            }
        }
    }
}

/// An entry put in front is found first when it has the key.
pub proof fn lemma_key_index_prepend(e: (Seq<char>, JsonV), s: Seq<(Seq<char>, JsonV)>, k: Seq<char>)
    ensures
        key_index(seq![e] + s, k) == (if e.0 == k {
            0
        } else if key_index(s, k) >= 0 {
            key_index(s, k) + 1
        } else {
            -1
        }),
{
    let t = seq![e] + s;
    lemma_key_index(s, k);
    lemma_key_index(t, k);
    assert(t[0] == e);
    assert forall|j: int| 0 <= j < s.len() implies t[j + 1] == s[j] by {}
    if e.0 == k {
        lemma_key_index_is(t, k, 0);
    } else if key_index(s, k) >= 0 {
        let i = key_index(s, k);
        assert forall|j: int| 0 <= j < i + 1 implies t[j].0 != k by {
            if j > 0 {
                assert(t[j] == s[j - 1]);
            }
        }
        lemma_key_index_is(t, k, i + 1);
    } else {
        assert forall|j: int| 0 <= j < t.len() implies t[j].0 != k by {
            if j > 0 {
                assert(t[j] == s[j - 1]);
            }
        }
    }
}

/// Inserting into a map sets its key and leaves every other key alone.
pub proof fn lemma_map_insert_field(m: Seq<(Seq<char>, JsonV)>, k: Seq<char>, v: JsonV, k2: Seq<char>)
    ensures
        field(JsonV::Object(map_insert(m, k, v)), k2) == (if k2 == k {
            Some(v)
        } else {
            field(JsonV::Object(m), k2)
        }),
    decreases m.len(),
{
    lemma_key_index(m, k2);
    if m.len() == 0 {
        assert(map_insert(m, k, v) == seq![(k, v)]);
        lemma_key_index_prepend((k, v), Seq::empty(), k2);
        assert(seq![(k, v)] + Seq::<(Seq<char>, JsonV)>::empty() =~= seq![(k, v)]);
        lemma_key_index(Seq::<(Seq<char>, JsonV)>::empty(), k2);
    } else if m[0].0 == k {
        let n = m.update(0, (k, v));
        lemma_key_index_same_keys(m, n, k2);
        lemma_key_index(n, k2);
        if k2 == k {
            lemma_key_index_is(n, k2, 0);
        }
    } else if key_lt(k, m[0].0) {
        lemma_key_index_prepend((k, v), m, k2);
    } else {
        let tail = m.drop_first();
        lemma_map_insert_field(tail, k, v, k2);
        assert(m =~= seq![m[0]] + tail);
        lemma_key_index_prepend(m[0], tail, k2);
        lemma_key_index_prepend(m[0], map_insert(tail, k, v), k2);
        lemma_key_index(tail, k2);
        lemma_key_index(map_insert(tail, k, v), k2);
    }
}

/// A key that an object holds at most once is found, normalized, in its
/// normal form.
pub proof fn lemma_normal_field(es: Seq<(Seq<char>, JsonV)>, k: Seq<char>)
    requires
        forall|i: int, j: int| 0 <= i < j < es.len() && #[trigger] es[i].0 == k ==> #[trigger] es[j].0 != k,
    ensures
        field(json_normal(JsonV::Object(es)), k) == match field(JsonV::Object(es), k) {
            Some(x) => Some(json_normal(x)),
            None => None,
        },
    decreases es.len(),
{
    if es.len() > 0 {
        let e0 = es.subrange(0, es.len() - 1);
        let last = es[es.len() - 1];
        assert forall|i: int, j: int| 0 <= i < j < e0.len() && #[trigger] e0[i].0 == k implies #[trigger] e0[j].0 != k by {
            assert(e0[i] == es[i] && e0[j] == es[j]);
        }
        lemma_normal_field(e0, k);
        lemma_map_insert_field(normal_entries(e0), last.0, json_normal(last.1), k);
        assert(e0.push(last) =~= es);
        lemma_key_index_push(e0, last, k);
        lemma_key_index(e0, k);
        if last.0 == k && key_index(e0, k) >= 0 {
            let i = key_index(e0, k);
            assert(es[i].0 == k);
            assert(es[es.len() - 1].0 != k);
        }
        assert(es.len() - 1 < es.len());
    }
}

/// `t` holds no number but non-negative integers (which `serde_json`
/// reads back exactly), and nests arrays and objects at most `d` deep.
pub open spec fn json_plain(t: JsonV, d: nat) -> bool
    decreases d,
{
    match t {
        JsonV::Num(_) => false,
        JsonV::Array(a) => d > 0 && forall|i: int| 0 <= i < a.len() ==> json_plain(#[trigger] a[i], (d - 1) as nat),
        JsonV::Object(es) => d > 0 && forall|i: int|
            0 <= i < es.len() ==> json_plain(#[trigger] es[i].1, (d - 1) as nat),
        _ => true,
    }
}

proof fn lemma_map_insert_plain(m: Seq<(Seq<char>, JsonV)>, k: Seq<char>, v: JsonV, c: nat)
    requires
        forall|i: int| 0 <= i < m.len() ==> json_plain(#[trigger] m[i].1, c),
        json_plain(v, c),
    ensures
        forall|i: int| 0 <= i < map_insert(m, k, v).len() ==> json_plain(#[trigger] map_insert(m, k, v)[i].1, c),
    decreases m.len(),
{
    if m.len() > 0 && m[0].0 != k && !key_lt(k, m[0].0) {
        let tail = m.drop_first();
        assert forall|i: int| 0 <= i < tail.len() implies json_plain(#[trigger] tail[i].1, c) by {
            assert(tail[i] == m[i + 1]);
        }
        lemma_map_insert_plain(tail, k, v, c);
        let r = map_insert(m, k, v);
        assert forall|i: int| 0 <= i < r.len() implies json_plain(#[trigger] r[i].1, c) by {
            if i > 0 {
                assert(r[i] == map_insert(tail, k, v)[i - 1]);
            }
        }
    } else if m.len() > 0 && m[0].0 != k {
        let r = map_insert(m, k, v);
        assert forall|i: int| 0 <= i < r.len() implies json_plain(#[trigger] r[i].1, c) by {
            if i > 0 {
                assert(r[i] == m[i - 1]);
            }
        }
    }
}

proof fn lemma_normal_entries_plain(es: Seq<(Seq<char>, JsonV)>, c: nat)
    requires
        forall|j: int| 0 <= j < es.len() ==> json_plain(json_normal(#[trigger] es[j].1), c),
    ensures
        forall|i: int| 0 <= i < normal_entries(es).len() ==> json_plain(#[trigger] normal_entries(es)[i].1, c),
    decreases es.len(),
{
    if es.len() > 0 {
        let e0 = es.subrange(0, es.len() - 1);
        assert forall|j: int| 0 <= j < e0.len() implies json_plain(json_normal(#[trigger] e0[j].1), c) by {
            assert(e0[j] == es[j]);
        }
        lemma_normal_entries_plain(e0, c);
        lemma_map_insert_plain(normal_entries(e0), es[es.len() - 1].0, json_normal(es[es.len() - 1].1), c);
    }
}

/// Normalizing keeps a tree plain.
pub proof fn lemma_normal_plain(t: JsonV, d: nat)
    requires
        json_plain(t, d),
    ensures
        json_plain(json_normal(t), d),
    decreases d,
{
    match t {
        JsonV::Array(a) => {
            lemma_normal_seq(a);
            assert forall|i: int| 0 <= i < normal_seq(a).len() implies json_plain(
                #[trigger] normal_seq(a)[i],
                (d - 1) as nat,
            ) by {
                assert(json_plain(a[i], (d - 1) as nat));
                lemma_normal_plain(a[i], (d - 1) as nat);
            }
            assert(json_normal(t) == JsonV::Array(normal_seq(a)));
            assert(json_plain(JsonV::Array(normal_seq(a)), d));
            assert(json_plain(json_normal(t), d));
        },
        JsonV::Object(es) => {
            assert forall|j: int| 0 <= j < es.len() implies json_plain(json_normal(#[trigger] es[j].1), (d - 1) as nat) by {
                lemma_normal_plain(es[j].1, (d - 1) as nat);
            }
            lemma_normal_entries_plain(es, (d - 1) as nat);
            assert(json_normal(t) == JsonV::Object(normal_entries(es)));
            assert(json_plain(JsonV::Object(normal_entries(es)), d));
        },
        _ => {},
    }
}

/// A value that a key can be written into: an object, or `null`, which
/// becomes an object.
pub open spec fn settable(j: JsonV) -> bool {
    j is Object || j is Null
}

/// `j` with key `k` set to `v`: the first entry with that key is replaced,
/// or a new entry is appended.
pub open spec fn with_field(j: JsonV, k: Seq<char>, v: JsonV) -> JsonV {
    match j {
        JsonV::Object(es) => {
            let i = key_index(es, k);
            if i >= 0 {
                JsonV::Object(es.update(i, (k, v)))
            } else {
                JsonV::Object(es.push((k, v)))
            }
        },
        JsonV::Null => JsonV::Object(seq![(k, v)]),
        _ => j,
    }
}

/// What was written is read back; other keys are untouched.
pub proof fn lemma_with_field(j: JsonV, k: Seq<char>, v: JsonV, k2: Seq<char>)
    requires
        settable(j),
    ensures
        field(with_field(j, k, v), k) == Some(v),
        k2 != k ==> field(with_field(j, k, v), k2) == field(j, k2),
        with_field(j, k, v) is Object,
{
    match j {
        JsonV::Object(es) => {
            lemma_key_index(es, k);
            lemma_key_index(es, k2);
            let i = key_index(es, k);
            if i >= 0 {
                let es2 = es.update(i, (k, v));
                lemma_key_index_same_keys(es, es2, k);
                lemma_key_index_same_keys(es, es2, k2);
            } else {
                lemma_key_index_push(es, (k, v), k);
                lemma_key_index_push(es, (k, v), k2);
            }
        },
        _ => {
            let es: Seq<(Seq<char>, JsonV)> = Seq::empty();
            assert(seq![(k, v)] =~= es.push((k, v)));
            lemma_key_index_push(es, (k, v), k);
            lemma_key_index_push(es, (k, v), k2);
        },
    }
}

/// Writing a key twice is writing it once, with the last value.
pub proof fn lemma_with_field_twice(j: JsonV, k: Seq<char>, v1: JsonV, v2: JsonV)
    requires
        settable(j),
    ensures
        with_field(with_field(j, k, v1), k, v2) == with_field(j, k, v2),
{
    match j {
        JsonV::Object(es) => {
            lemma_key_index(es, k);
            let i = key_index(es, k);
            if i >= 0 {
                let es2 = es.update(i, (k, v1));
                lemma_key_index_same_keys(es, es2, k);
                assert(es2.update(i, (k, v2)) =~= es.update(i, (k, v2)));
            } else {
                lemma_key_index_push(es, (k, v1), k);
                assert(es.push((k, v1)).update(es.len() as int, (k, v2)) =~= es.push((k, v2)));
            }
        },
        _ => {
            let es: Seq<(Seq<char>, JsonV)> = Seq::empty();
            assert(seq![(k, v1)] =~= es.push((k, v1)));
            lemma_key_index_push(es, (k, v1), k);
            assert(seq![(k, v1)].update(0, (k, v2)) =~= seq![(k, v2)]);
        },
    }
}

/// Writing back the value a key already holds changes nothing.
pub proof fn lemma_with_field_same(j: JsonV, k: Seq<char>)
    requires
        field(j, k) is Some,
    ensures
        with_field(j, k, field(j, k)->0) == j,
{
    match j {
        JsonV::Object(es) => {
            lemma_key_index(es, k);
            let i = key_index(es, k);
            assert(es.update(i, (k, es[i].1)) =~= es);
        },
        _ => {},
    }
}

impl Json {
    /// `self.get(key)`: the value at `key` of an object.
    pub fn get(&self, key: &str) -> (r: Option<&Json>)
        ensures
            match r {
                Some(x) => field(self.deep(), key@) == Some(x.deep()),
                None => field(self.deep(), key@) is None,
            },
    {
        match self {
            Json::Object(es) => {
                match entry_index(es, key) {
                    Some(i) => {
                        proof {
                            lemma_deep_entries(es@);
                        }
                        Some(&es[i].1)
                    },
                    None => None,
                }
            },
            _ => None,
        }
    }

    /// The string held by a string value.
    pub fn as_str(&self) -> (r: Option<&str>)
        ensures
            match r {
                Some(s) => self.deep() == JsonV::Str(s@),
                None => !(self.deep() is Str),
            },
    {
        match self {
            Json::Str(s) => Some(s.as_str()),
            _ => None,
        }
    }

    /// The elements of an array.
    pub fn as_array(&self) -> (r: Option<&Vec<Json>>)
        ensures
            match r {
                Some(a) => self.deep() == JsonV::Array(deep_seq(a@)),
                None => !(self.deep() is Array),
            },
    {
        match self {
            Json::Array(a) => Some(a),
            _ => None,
        }
    }

    /// The number held by a non-negative integer value.
    pub fn as_u64(&self) -> (r: Option<u64>)
        ensures
            match r {
                Some(n) => self.deep() == JsonV::UInt(n),
                None => !(self.deep() is UInt),
            },
    {
        match self {
            Json::UInt(n) => Some(*n),
            _ => None,
        }
    }

    /// The truth value held by a boolean value.
    pub fn as_bool(&self) -> (r: Option<bool>)
        ensures
            match r {
                Some(b) => self.deep() == JsonV::Bool(b),
                None => !(self.deep() is Bool),
            },
    {
        match self {
            Json::Bool(b) => Some(*b),
            _ => None,
        }
    }

    pub fn is_object(&self) -> (r: bool)
        ensures
            r == self.deep() is Object,
    {
        match self {
            Json::Object(_) => true,
            _ => false,
        }
    }

    pub fn is_array(&self) -> (r: bool)
        ensures
            r == self.deep() is Array,
    {
        match self {
            Json::Array(_) => true,
            _ => false,
        }
    }

    /// `self[key] = v` on an object (or on `null`, which becomes one).
    pub fn set(&mut self, key: &str, v: Json)
        requires
            settable(old(self).deep()),
        ensures
            final(self).deep() == with_field(old(self).deep(), key@, v.deep()),
    {
        let mut cur = Json::Null;
        std::mem::swap(&mut cur, self);
        match cur {
            Json::Object(mut es) => {
                let ghost old_es = es@;
                proof {
                    lemma_deep_entries(old_es);
                }
                let k = owned(key);
                match entry_index(&es, key) {
                    Some(i) => {
                        es.set(i, (k, v));
                        proof {
                            lemma_deep_entries(es@);
                            assert(deep_entries(es@) =~= deep_entries(old_es).update(
                                i as int,
                                (key@, v.deep()),
                            ));
                        }
                    },
                    None => {
                        es.push((k, v));
                        proof {
                            lemma_deep_entries(es@);
                            assert(deep_entries(es@) =~= deep_entries(old_es).push((key@, v.deep())));
                        }
                    },
                }
                *self = Json::Object(es);
            },
            Json::Null => {
                let mut es: Vec<(String, Json)> = Vec::new();
                es.push((owned(key), v));
                proof {
                    lemma_deep_entries(es@);
                    assert(deep_entries(es@) =~= seq![(key@, v.deep())]);
                }
                *self = Json::Object(es);
            },
            other => {
                *self = other;
            },
        }
    }

    /// Takes the value at `key` out of an object, leaving `null` in its
    /// place; `null` comes back where there is no such key.
    pub fn take(&mut self, key: &str) -> (r: Json)
        ensures
            r.deep() == at(old(self).deep(), key@),
            final(self).deep() == taken(old(self).deep(), key@),
    {
        let mut cur = Json::Null;
        std::mem::swap(&mut cur, self);
        match cur {
            Json::Object(mut es) => {
                let ghost old_es = es@;
                proof {
                    lemma_deep_entries(old_es);
                }
                match entry_index(&es, key) {
                    Some(i) => {
                        let (k, val) = es.remove(i);
                        es.insert(i, (k, Json::Null));
                        proof {
                            assert(es@ =~= old_es.update(i as int, (k, Json::Null)));
                            lemma_key_index(deep_entries(old_es), key@);
                            lemma_deep_entries(es@);
                            assert(deep_entries(es@) =~= deep_entries(old_es).update(
                                i as int,
                                (key@, JsonV::Null),
                            ));
                        }
                        *self = Json::Object(es);
                        val
                    },
                    None => {
                        *self = Json::Object(es);
                        Json::Null
                    },
                }
            },
            other => {
                *self = other;
                Json::Null
            },
        }
    }
}

/// Index of the first entry of `es` whose key is `key`.
pub fn entry_index(es: &Vec<(String, Json)>, key: &str) -> (r: Option<usize>)
    ensures
        match r {
            Some(i) => i < es.len() && key_index(deep_entries(es@), key@) == i,
            None => key_index(deep_entries(es@), key@) == -1,
        },
{
    proof {
        lemma_deep_entries(es@);
        lemma_key_index(deep_entries(es@), key@);
    }
    let mut i: usize = 0;
    while i < es.len()
        invariant
            i <= es.len(),
            deep_entries(es@).len() == es.len(),
            forall|j: int| 0 <= j < es.len() ==> #[trigger] deep_entries(es@)[j] == (es@[j].0@, es@[j].1.deep()),
            forall|j: int| 0 <= j < i ==> deep_entries(es@)[j].0 != key@,
        decreases es.len() - i,
    {
        if str_eq(es[i].0.as_str(), key) {
            proof {
                lemma_key_index_is(deep_entries(es@), key@, i as int);
            }
            return Some(i);
        }
        i = i + 1;
    }
    None
}

/// What `serde_json::from_str::<serde_json::Value>` makes of a text: the
/// tree it holds, or the text of the error.
pub uninterp spec fn json_parse(s: Seq<char>) -> Result<JsonV, Seq<char>>;

/// The tree that a `serde_json::Value` holds, node for node.
pub uninterp spec fn value_tree(v: serde_json::Value) -> JsonV;

/// Key order of a `serde_json::Map` (a `BTreeMap<String, _>`): strings
/// compared byte by byte, which for UTF-8 is code point by code point.
pub open spec fn key_lt(a: Seq<char>, b: Seq<char>) -> bool
    decreases a.len(),
{
    if a.len() == 0 {
        b.len() > 0
    } else if b.len() == 0 {
        false
    } else if a[0] == b[0] {
        key_lt(a.drop_first(), b.drop_first())
    } else {
        (a[0] as u32) < (b[0] as u32)
    }
}

/// Entries kept in key order, one per key: the key's entry takes the new
/// value, or a new entry goes in its place in the order.
pub open spec fn map_insert(m: Seq<(Seq<char>, JsonV)>, k: Seq<char>, v: JsonV) -> Seq<(Seq<char>, JsonV)>
    decreases m.len(),
{
    if m.len() == 0 {
        seq![(k, v)]
    } else if m[0].0 == k {
        m.update(0, (k, v))
    } else if key_lt(k, m[0].0) {
        seq![(k, v)] + m
    } else {
        seq![m[0]] + map_insert(m.drop_first(), k, v)
    }
}

/// The tree that `serde_json` keeps of `t` once its objects are put into
/// `serde_json::Map`s: each object's entries inserted in turn, so that the
/// keys come in order and a later entry of a key replaces an earlier one.
pub open spec fn json_normal(t: JsonV) -> JsonV
    decreases t,
{
    match t {
        JsonV::Array(a) => JsonV::Array(normal_seq(a)),
        JsonV::Object(es) => JsonV::Object(normal_entries(es)),
        _ => t,
    }
}

pub open spec fn normal_seq(a: Seq<JsonV>) -> Seq<JsonV>
    decreases a,
{
    if a.len() == 0 {
        Seq::empty()
    } else {
        normal_seq(a.subrange(0, a.len() - 1)).push(json_normal(a[a.len() - 1]))
    }
}

pub open spec fn normal_entries(es: Seq<(Seq<char>, JsonV)>) -> Seq<(Seq<char>, JsonV)>
    decreases es,
{
    if es.len() == 0 {
        Seq::empty()
    } else {
        map_insert(
            normal_entries(es.subrange(0, es.len() - 1)),
            es[es.len() - 1].0,
            json_normal(es[es.len() - 1].1),
        )
    }
}

/// The text `serde_json::to_string_pretty` writes for a value holding `t`.
pub uninterp spec fn json_pretty(t: JsonV) -> Seq<char>;

/// `serde_json::from_str::<serde_json::Value>`; an error is handed back as
/// its text.
#[verifier::external_body]
fn parse_value(s: &str) -> (r: Result<serde_json::Value, String>)
    ensures
        match r {
            Ok(v) => json_parse(s@) == Ok::<JsonV, Seq<char>>(value_tree(v)),
            Err(m) => json_parse(s@) == Err::<JsonV, Seq<char>>(m@),
        },
{
    serde_json::from_str::<serde_json::Value>(s).map_err(|e| e.to_string())
}

/// A `serde_json::Value` as a `Json`, node for node: a number with a
/// `u64` reading becomes `UInt`, any other number an `OtherNumber`.
#[verifier::external_body]
fn value_to_json(v: serde_json::Value) -> (r: Json)
    ensures
        r.deep() == value_tree(v),
{
    match v {
        serde_json::Value::Null => Json::Null,
        serde_json::Value::Bool(b) => Json::Bool(b),
        serde_json::Value::Number(n) => match n.as_u64() {
            Some(u) => Json::UInt(u),
            None => Json::Num(OtherNumber { n }),
        },
        serde_json::Value::String(s) => Json::Str(s),
        serde_json::Value::Array(a) => Json::Array(a.into_iter().map(value_to_json).collect()),
        serde_json::Value::Object(m) => Json::Object(
            m.into_iter().map(|(k, x)| (k, value_to_json(x))).collect(),
        ),
    }
}

/// A `Json` as a `serde_json::Value`, node for node (objects go into
/// `serde_json::Map`s).  An `OtherNumber` goes back as the number it was
/// read from, which has no `u64` reading, so reading the value again
/// gives the same tree.
#[verifier::external_body]
fn json_to_value(j: &Json) -> (r: serde_json::Value)
    ensures
        value_tree(r) == json_normal(j.deep()),
{
    match j {
        Json::Null => serde_json::Value::Null,
        Json::Bool(b) => serde_json::Value::Bool(*b),
        Json::UInt(n) => serde_json::Value::from(*n),
        Json::Num(x) => serde_json::Value::Number(x.n.clone()),
        Json::Str(s) => serde_json::Value::String(s.clone()),
        Json::Array(a) => serde_json::Value::Array(a.iter().map(json_to_value).collect()),
        Json::Object(es) => serde_json::Value::Object(
            es.iter().map(|(k, x)| (k.clone(), json_to_value(x))).collect(),
        ),
    }
}

/// `serde_json::to_string_pretty` of a value (which cannot fail for a
/// `serde_json::Value`).
#[verifier::external_body]
fn value_pretty(v: &serde_json::Value) -> (r: String)
    ensures
        r@ == json_pretty(value_tree(*v)),
        json_plain(value_tree(*v), 100) ==> (json_parse(r@) is Ok && json_parse(r@)->Ok_0 == value_tree(*v)),
{
    format!("{:#}", v)
}

/// Parses a JSON text.
pub fn parse_json(s: &str) -> (r: Result<Json, String>)
    ensures
        match r {
            Ok(j) => json_parse(s@) == Ok::<JsonV, Seq<char>>(j.deep()),
            Err(m) => json_parse(s@) == Err::<JsonV, Seq<char>>(m@),
        },
{
    match parse_value(s) {
        Ok(v) => Ok(value_to_json(v)),
        Err(m) => Err(m),
    }
}

/// Pretty JSON text of a value, as `serde_json::to_string_pretty` writes it.
pub fn render_pretty(j: &Json) -> (r: String)
    ensures
        r@ == json_pretty(json_normal(j.deep())),
        json_plain(j.deep(), 100) ==> json_parse(r@) == Ok::<JsonV, Seq<char>>(json_normal(j.deep())),
{
    let v = json_to_value(j);
    proof {
        if json_plain(j.deep(), 100) {
            lemma_normal_plain(j.deep(), 100);
        }
    }
    value_pretty(&v)
}

/// A string value.
pub fn json_str(s: &str) -> (r: Json)
    ensures
        r.deep() == JsonV::Str(s@),
{
    Json::Str(owned(s))
}

/// An empty object.
pub fn empty_object() -> (r: Json)
    ensures
        r.deep() == JsonV::Object(Seq::empty()),
{
    let es: Vec<(String, Json)> = Vec::new();
    proof {
        lemma_deep_entries(es@);
    }
    Json::Object(es)
}

/// An array of the given values.
pub fn json_array(a: Vec<Json>) -> (r: Json)
    ensures
        r.deep() == JsonV::Array(deep_seq(a@)),
{
    Json::Array(a)
}

/// Index of the first element of `s` that satisfies `p`, or -1.
pub open spec fn first_where(s: Seq<JsonV>, p: spec_fn(JsonV) -> bool) -> int
    decreases s.len(),
{
    if s.len() == 0 {
        -1
    } else {
        let r = first_where(s.drop_last(), p);
        if r >= 0 {
            r
        } else if p(s.last()) {
            s.len() - 1
        } else {
            -1
        }
    }
}

pub proof fn lemma_first_where(s: Seq<JsonV>, p: spec_fn(JsonV) -> bool)
    ensures
        -1 <= first_where(s, p) < s.len(),
        first_where(s, p) == -1 <==> (forall|j: int| 0 <= j < s.len() ==> !p(s[j])),
        first_where(s, p) >= 0 ==> p(s[first_where(s, p)]),
        forall|j: int| 0 <= j < first_where(s, p) ==> !p(s[j]),
    decreases s.len(),
{
    if s.len() > 0 {
        lemma_first_where(s.drop_last(), p);
        assert forall|j: int| 0 <= j < s.len() - 1 implies s.drop_last()[j] == s[j] by {}
        let r = first_where(s.drop_last(), p);
        if r < 0 && !p(s.last()) {
            assert forall|j: int| 0 <= j < s.len() implies !p(s[j]) by {
                if j < s.len() - 1 {
                    assert(s.drop_last()[j] == s[j]);
                }
            }
        }
    }
}

/// `i` is the first element of `s` that satisfies `p`.
pub proof fn lemma_first_where_is(s: Seq<JsonV>, p: spec_fn(JsonV) -> bool, i: int)
    requires
        0 <= i < s.len(),
        p(s[i]),
        forall|j: int| 0 <= j < i ==> !p(s[j]),
    ensures
        first_where(s, p) == i,
{
    lemma_first_where(s, p);
}

/// No element of `s` satisfies `p`.
pub proof fn lemma_first_where_none(s: Seq<JsonV>, p: spec_fn(JsonV) -> bool)
    requires
        forall|j: int| 0 <= j < s.len() ==> !p(s[j]),
    ensures
        first_where(s, p) == -1,
{
    lemma_first_where(s, p);
}

/// Sequences that agree on `p` at every place find the same first element.
pub proof fn lemma_first_where_same(a: Seq<JsonV>, b: Seq<JsonV>, p: spec_fn(JsonV) -> bool)
    requires
        a.len() == b.len(),
        forall|j: int| 0 <= j < a.len() ==> p(a[j]) == p(b[j]),
    ensures
        first_where(a, p) == first_where(b, p),
{
    lemma_first_where(a, p);
    lemma_first_where(b, p);
    if first_where(a, p) >= 0 {
        lemma_first_where_is(b, p, first_where(a, p));
    } else if first_where(b, p) >= 0 {
        lemma_first_where_is(a, p, first_where(b, p));
    }
}

/// The value `j[k]` holds where `j` is an object with key `k`.
pub proof fn lemma_at_with_field(j: JsonV, k: Seq<char>, v: JsonV, k2: Seq<char>)
    requires
        settable(j),
    ensures
        at(with_field(j, k, v), k) == v,
        k2 != k ==> at(with_field(j, k, v), k2) == at(j, k2),
        with_field(j, k, v) is Object,
{
    lemma_with_field(j, k, v, k2);
}

/// Holds of a value whose `j[key]` is the string `val`.
pub open spec fn has_str(key: Seq<char>, val: Seq<char>) -> spec_fn(JsonV) -> bool {
    |x: JsonV| at(x, key) == JsonV::Str(val)
}

/// Index of the first element of `a` whose `[key]` is the string `val`.
pub fn position_with_str(a: &Vec<Json>, key: &str, val: &str) -> (r: Option<usize>)
    ensures
        match r {
            Some(i) => i < a.len() && first_where(deep_seq(a@), has_str(key@, val@)) == i,
            None => first_where(deep_seq(a@), has_str(key@, val@)) == -1,
        },
{
    proof {
        lemma_deep_seq(a@);
    }
    let ghost p = has_str(key@, val@);
    let mut i: usize = 0;
    while i < a.len()
        invariant
            i <= a.len(),
            p == has_str(key@, val@),
            deep_seq(a@).len() == a.len(),
            forall|j: int| 0 <= j < a.len() ==> #[trigger] deep_seq(a@)[j] == a@[j].deep(),
            forall|j: int| 0 <= j < i ==> !p(deep_seq(a@)[j]),
        decreases a.len() - i,
    {
        let x = &a[i];
        let hit = match x.get(key) {
            Some(v) => match v.as_str() {
                Some(s) => str_eq(s, val),
                None => false,
            },
            None => false,
        };
        assert(hit == p(deep_seq(a@)[i as int]));
        if hit {
            proof {
                lemma_first_where_is(deep_seq(a@), p, i as int);
            }
            return Some(i);
        }
        i = i + 1;
    }
    proof {
        lemma_first_where_none(deep_seq(a@), p);
    }
    None
}

/// `j` once the value at `k` has been taken out of it.
pub open spec fn taken(j: JsonV, k: Seq<char>) -> JsonV {
    if field(j, k) is Some {
        with_field(j, k, JsonV::Null)
    } else {
        j
    }
}

/// Taking a value out and writing another in is writing it in.
pub proof fn lemma_taken(j: JsonV, k: Seq<char>, v: JsonV)
    requires
        settable(j),
    ensures
        settable(taken(j, k)),
        with_field(taken(j, k), k, v) == with_field(j, k, v),
{
    if field(j, k) is Some {
        lemma_with_field(j, k, JsonV::Null, k);
        lemma_with_field_twice(j, k, JsonV::Null, v);
    }
}

/// Taking a value out and putting it back changes nothing.
pub proof fn lemma_taken_back(j: JsonV, k: Seq<char>)
    requires
        field(j, k) is Some,
    ensures
        settable(j),
        with_field(taken(j, k), k, at(j, k)) == j,
{
    lemma_taken(j, k, at(j, k));
    lemma_with_field_same(j, k);
}

pub proof fn lemma_deep_seq_push(s: Seq<Json>, x: Json)
    ensures
        deep_seq(s.push(x)) == deep_seq(s).push(x.deep()),
{
    assert(s.push(x).subrange(0, s.len() as int) =~= s);
}

/// An object whose `[k]` is a string has an entry `k`.
pub proof fn lemma_at_str(j: JsonV, k: Seq<char>)
    requires
        at(j, k) is Str || at(j, k) is Array || at(j, k) is Object || at(j, k) is UInt || at(j, k) is Bool,
    ensures
        field(j, k) is Some,
        j is Object,
{
}

/// An object of one entry.
pub fn obj1(k1: &str, v1: Json) -> (r: Json)
    ensures
        r.deep() == JsonV::Object(seq![(k1@, v1.deep())]),
{
    let ghost d1 = v1.deep();
    let es = vec![(owned(k1), v1)];
    proof {
        lemma_deep_entries(es@);
        assert(deep_entries(es@) =~= seq![(k1@, d1)]);
    }
    Json::Object(es)
}

/// An object of two entries.
pub fn obj2(k1: &str, v1: Json, k2: &str, v2: Json) -> (r: Json)
    ensures
        r.deep() == JsonV::Object(seq![(k1@, v1.deep()), (k2@, v2.deep())]),
{
    let ghost (d1, d2) = (v1.deep(), v2.deep());
    let es = vec![(owned(k1), v1), (owned(k2), v2)];
    proof {
        lemma_deep_entries(es@);
        assert(deep_entries(es@) =~= seq![(k1@, d1), (k2@, d2)]);
    }
    Json::Object(es)
}

/// An object of three entries.
pub fn obj3(k1: &str, v1: Json, k2: &str, v2: Json, k3: &str, v3: Json) -> (r: Json)
    ensures
        r.deep() == JsonV::Object(seq![(k1@, v1.deep()), (k2@, v2.deep()), (k3@, v3.deep())]),
{
    let ghost (d1, d2, d3) = (v1.deep(), v2.deep(), v3.deep());
    let es = vec![(owned(k1), v1), (owned(k2), v2), (owned(k3), v3)];
    proof {
        lemma_deep_entries(es@);
        assert(deep_entries(es@) =~= seq![(k1@, d1), (k2@, d2), (k3@, d3)]);
    }
    Json::Object(es)
}

/// An object of four entries.
pub fn obj4(k1: &str, v1: Json, k2: &str, v2: Json, k3: &str, v3: Json, k4: &str, v4: Json) -> (r:
    Json)
    ensures
        r.deep() == JsonV::Object(
            seq![(k1@, v1.deep()), (k2@, v2.deep()), (k3@, v3.deep()), (k4@, v4.deep())],
        ),
{
    let ghost (d1, d2, d3, d4) = (v1.deep(), v2.deep(), v3.deep(), v4.deep());
    let es = vec![(owned(k1), v1), (owned(k2), v2), (owned(k3), v3), (owned(k4), v4)];
    proof {
        lemma_deep_entries(es@);
        assert(deep_entries(es@) =~= seq![(k1@, d1), (k2@, d2), (k3@, d3), (k4@, d4)]);
    }
    Json::Object(es)
}

/// Appends an entry to an object.
pub fn with_entry(o: Json, k: &str, v: Json) -> (r: Json)
    requires
        o.deep() is Object,
    ensures
        r.deep() == JsonV::Object(o.deep()->Object_0.push((k@, v.deep()))),
{
    match o {
        Json::Object(mut es) => {
            let ghost e0 = es@;
            let ghost dv = v.deep();
            es.push((owned(k), v));
            proof {
                lemma_deep_entries(e0);
                lemma_deep_entries(es@);
                assert(deep_entries(es@) =~= deep_entries(e0).push((k@, dv)));
            }
            Json::Object(es)
        },
        other => other,
    }
}

/// An array of one value.
pub fn arr1(v: Json) -> (r: Json)
    ensures
        r.deep() == JsonV::Array(seq![v.deep()]),
{
    let ghost d = v.deep();
    let a = vec![v];
    proof {
        lemma_deep_seq(a@);
        assert(deep_seq(a@) =~= seq![d]);
    }
    Json::Array(a)
}

} // verus!
