//! A JSON-like value: the shape of fingerprints, headers and the fact bag,
//! with key lookup, dot-path traversal and structural equality.

use vstd::prelude::*;
use crate::decimal::{Decimal, dec_eq, same_value};
use crate::text::{split_dots, split_path, text_equal};

verus! {

/// A JSON value. Objects keep their members in order; lookup finds the first
/// member with the key.
#[derive(Debug)]
pub enum JsonValue {
    Null,
    Bool(bool),
    Number(Decimal),
    Str(String),
    Array(Vec<JsonValue>),
    Object(Vec<Member>),
}

#[derive(Debug)]
pub struct Member {
    pub key: String,
    pub value: JsonValue,
}

/// The value of the first member named `key`.
pub open spec fn member_lookup(ms: Seq<Member>, key: Seq<char>) -> Option<JsonValue>
    decreases ms.len(),
{
    if ms.len() == 0 {
        None
    } else if ms[0].key@ == key {
        Some(ms[0].value)
    } else {
        member_lookup(ms.drop_first(), key)
    }
}

/// Field access: the member named `key` of an object; nothing on other values.
pub open spec fn json_get(v: JsonValue, key: Seq<char>) -> Option<JsonValue> {
    match v {
        JsonValue::Object(ms) => member_lookup(ms@, key),
        _ => None,
    }
}

/// Follows the keys in order; nothing as soon as one is missing.
pub open spec fn resolve_keys(v: JsonValue, keys: Seq<Seq<char>>) -> Option<JsonValue>
    decreases keys.len(),
{
    if keys.len() == 0 {
        Some(v)
    } else {
        match json_get(v, keys[0]) {
            Some(w) => resolve_keys(w, keys.drop_first()),
            None => None,
        }
    }
}

/// The value at a dotted path such as `event.type`.
pub open spec fn resolve_path(v: JsonValue, path: Seq<char>) -> Option<JsonValue> {
    resolve_keys(v, split_dots(path))
}

/// Structural, type-sensitive equality: strings by their characters, numbers
/// by value, arrays element by element in order; objects whatever the order
/// of their members: as many members, each matched by a member of the other
/// with the same key and an equal value (for objects with distinct keys, as
/// JSON objects have: the same keys, and equal values under each).
pub open spec fn json_eq(a: JsonValue, b: JsonValue) -> bool
    decreases a,
{
    match (a, b) {
        (JsonValue::Null, JsonValue::Null) => true,
        (JsonValue::Bool(x), JsonValue::Bool(y)) => x == y,
        (JsonValue::Number(x), JsonValue::Number(y)) => dec_eq(x, y),
        (JsonValue::Str(x), JsonValue::Str(y)) => x@ == y@,
        (JsonValue::Array(xs), JsonValue::Array(ys)) => xs.len() == ys.len() && forall|i: int|
            0 <= i < xs.len() ==> json_eq(#[trigger] xs[i], ys[i]),
        (JsonValue::Object(xs), JsonValue::Object(ys)) => xs@.len() == ys@.len() && forall|i: int|
            #![trigger xs@[i]]
            0 <= i < xs@.len() ==> exists|j: int| #![trigger ys@[j]]
                0 <= j < ys@.len() && ys@[j].key@ == xs@[i].key@ && json_eq(xs@[i].value, ys@[j].value),
        _ => false,
    }
}

impl JsonValue {
    /// The member named `key`, when `self` is an object that has one.
    pub fn get(&self, key: &str) -> (r: Option<&JsonValue>)
        ensures
            match r {
                Some(x) => json_get(*self, key@) == Some(*x),
                None => json_get(*self, key@) is None,
            },
    {
        match self {
            JsonValue::Object(ms) => {
                let mut i: usize = 0;
                assert(ms@.subrange(0, ms@.len() as int) =~= ms@);
                while i < ms.len()
                    invariant
                        *self == JsonValue::Object(*ms),
                        i <= ms@.len(),
                        member_lookup(ms@, key@) == member_lookup(ms@.subrange(i as int, ms@.len() as int), key@),
                    decreases ms.len() - i,
                {
                    proof {
                        let rest = ms@.subrange(i as int, ms@.len() as int);
                        assert(rest.drop_first() =~= ms@.subrange(i + 1, ms@.len() as int));
                    }
                    proof {
                        let rest = ms@.subrange(i as int, ms@.len() as int);
                        assert(rest[0] == ms@[i as int]);
                    }
                    if text_equal(ms[i].key.as_str(), key) {
                        return Some(&ms[i].value);
                    }
                    i = i + 1;
                }
                None
            },
            _ => None,
        }
    }

    /// The string held by `self`, when it is a string.
    pub fn as_str(&self) -> (r: Option<&String>)
        ensures
            match r {
                Some(s) => *self == JsonValue::Str(*s),
                None => !(*self is Str),
            },
    {
        match self {
            JsonValue::Str(s) => Some(s),
            _ => None,
        }
    }

    /// The value at a dotted path; nothing when a segment is missing.
    pub fn get_path(&self, path: &str) -> (r: Option<&JsonValue>)
        ensures
            match r {
                Some(x) => resolve_path(*self, path@) == Some(*x),
                None => resolve_path(*self, path@) is None,
            },
    {
        let keys = split_path(path);
        let ghost ks = keys@.map_values(|x: String| x@);
        let mut cur: &JsonValue = self;
        let mut i: usize = 0;
        assert(ks.subrange(0, ks.len() as int) =~= ks);
        while i < keys.len()
            invariant
                ks == keys@.map_values(|x: String| x@),
                ks == split_dots(path@),
                i <= keys@.len(),
                resolve_keys(*self, ks) == resolve_keys(*cur, ks.subrange(i as int, ks.len() as int)),
            decreases keys.len() - i,
        {
            proof {
                let rest = ks.subrange(i as int, ks.len() as int);
                assert(rest.drop_first() =~= ks.subrange(i + 1, ks.len() as int));
                assert(rest[0] == keys@[i as int]@);
            }
            match cur.get(keys[i].as_str()) {
                Some(next) => {
                    cur = next;
                },
                None => {
                    return None;
                },
            }
            i = i + 1;
        }
        proof {
            assert(ks.subrange(i as int, ks.len() as int) =~= Seq::<Seq<char>>::empty());
        }
        Some(cur)
    }
}

/// Structural equality of two values.
pub fn json_equal(a: &JsonValue, b: &JsonValue) -> (r: bool)
    ensures
        r == json_eq(*a, *b),
    decreases a,
{
    match a {
        JsonValue::Null => match b {
            JsonValue::Null => true,
            _ => false,
        },
        JsonValue::Bool(x) => match b {
            JsonValue::Bool(y) => *x == *y,
            _ => false,
        },
        JsonValue::Number(x) => match b {
            JsonValue::Number(y) => same_value(*x, *y),
            _ => false,
        },
        JsonValue::Str(x) => match b {
            JsonValue::Str(y) => *x == *y,
            _ => false,
        },
        JsonValue::Array(xs) => match b {
            JsonValue::Array(ys) => {
                if xs.len() != ys.len() {
                    return false;
                }
                let mut i: usize = 0;
                while i < xs.len()
                    invariant
                        *a == JsonValue::Array(*xs),
                        *b == JsonValue::Array(*ys),
                        xs.len() == ys.len(),
                        i <= xs.len(),
                        forall|j: int| 0 <= j < i ==> json_eq(#[trigger] xs@[j], ys@[j]),
                    decreases xs.len() - i,
                {
                    proof {
                        assert(decreases_to!(*a => (*a)->Array_0));
                        assert(decreases_to!(*xs => xs[i as int]));
                    }
                    if !json_equal(&xs[i], &ys[i]) {
                        assert(!json_eq(xs@[i as int], ys@[i as int]));
                        return false;
                    }
                    i = i + 1;
                }
                true
            },
            _ => false,
        },
        JsonValue::Object(xs) => match b {
            JsonValue::Object(ys) => {
                if xs.len() != ys.len() {
                    return false;
                }
                let ghost mut w: Seq<int> = Seq::empty();
                let mut i: usize = 0;
                while i < xs.len()
                    invariant
                        *a == JsonValue::Object(*xs),
                        *b == JsonValue::Object(*ys),
                        xs.len() == ys.len(),
                        i <= xs.len(),
                        w.len() == i,
                        forall|p: int|
                            0 <= p < i ==> 0 <= #[trigger] w[p] < ys@.len() && ys@[w[p]].key@
                                == xs@[p].key@ && json_eq(xs@[p].value, ys@[w[p]].value),
                    decreases xs.len() - i,
                {
                    let mut found = false;
                    let ghost mut at: int = 0;
                    let mut j: usize = 0;
                    while j < ys.len()
                        invariant
                            *a == JsonValue::Object(*xs),
                            *b == JsonValue::Object(*ys),
                            i < xs.len(),
                            j <= ys.len(),
                            found ==> 0 <= at < ys@.len() && ys@[at].key@ == xs@[i as int].key@
                                && json_eq(xs@[i as int].value, ys@[at].value),
                            !found ==> forall|q: int|
                                0 <= q < j ==> !(#[trigger] ys@[q].key@ == xs@[i as int].key@ && json_eq(
                                    xs@[i as int].value,
                                    ys@[q].value,
                                )),
                        decreases ys.len() - j,
                    {
                        if !found && xs[i].key == ys[j].key {
                            proof {
                                assert(decreases_to!(*a => (*a)->Object_0));
                                assert(decreases_to!(*xs => xs[i as int]));
                                assert(decreases_to!(xs[i as int] => xs[i as int].value));
                            }
                            if json_equal(&xs[i].value, &ys[j].value) {
                                found = true;
                                proof {
                                    at = j as int;
                                }
                            }
                        }
                        j = j + 1;
                    }
                    if !found {
                        assert(!json_eq(*a, *b)) by {
                            if json_eq(*a, *b) {
                                let q = choose|q: int| #![trigger ys@[q]]
                                    0 <= q < ys@.len() && ys@[q].key@ == xs@[i as int].key@ && json_eq(
                                        xs@[i as int].value,
                                        ys@[q].value,
                                    );
                                assert(ys@[q].key@ == xs@[i as int].key@);
                            }
                        }
                        return false;
                    }
                    proof {
                        w = w.push(at);
                    }
                    i = i + 1;
                }
                assert forall|p: int| #![trigger xs@[p]] 0 <= p < xs@.len() implies exists|q: int|
                    #![trigger ys@[q]]
                    0 <= q < ys@.len() && ys@[q].key@ == xs@[p].key@ && json_eq(xs@[p].value, ys@[q].value) by {
                    assert(0 <= w[p] < ys@.len());
                }
                true
            },
            _ => false,
        },
    }
}

/// Lookup finds the first member with the key.
pub proof fn lemma_lookup_at(ms: Seq<Member>, i: int, key: Seq<char>)
    requires
        0 <= i < ms.len(),
        ms[i].key@ == key,
        forall|j: int| 0 <= j < i ==> (#[trigger] ms[j]).key@ != key,
    ensures
        member_lookup(ms, key) == Some(ms[i].value),
    decreases i,
{
    if i > 0 {
        let t = ms.drop_first();
        assert forall|j: int| 0 <= j < i - 1 implies (#[trigger] t[j]).key@ != key by {
            assert(t[j] == ms[j + 1]);
        }
        lemma_lookup_at(t, i - 1, key);
    }
}

} // verus!
