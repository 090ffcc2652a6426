//! A loosely-typed document model for the upstream feed, and the
//! numeric-coercion policy that makes downstream arithmetic total.
//!
//! Numbers are carried as fixed-point `Decimal` values; object members
//! keep their textual keys. Coercion accepts a number as it is (clamped
//! to the representable range), attempts a trimmed decimal parse on a
//! string, and falls back to a caller-supplied default on anything else.
use vstd::prelude::*;

use crate::num::clamp_units;
use crate::num::parse_decimal;
use crate::num::parse_decimal_spec;
use crate::num::Decimal;
use crate::num::MAX_UNITS;

verus! {

/// One node of a decoded document.
#[derive(Debug)]
pub enum Json {
    Null,
    Bool(bool),
    Num(Decimal),
    Str(String),
    Arr(Vec<Json>),
    Obj(Vec<(String, Json)>),
}

/// The value of the first member of `pairs` whose key reads `key`.
pub open spec fn obj_lookup(pairs: Seq<(String, Json)>, key: Seq<char>) -> Option<Json>
    decreases pairs.len(),
{
    if pairs.len() == 0 {
        None
    } else if pairs[0].0@ == key {
        Some(pairs[0].1)
    } else {
        obj_lookup(pairs.drop_first(), key)
    }
}

/// Member lookup: an object yields its first member named `key`; any
/// other node has no members.
pub open spec fn json_get_spec(v: Json, key: Seq<char>) -> Option<Json> {
    match v {
        Json::Obj(pairs) => obj_lookup(pairs@, key),
        _ => None,
    }
}

/// The string content of member `key`, when present with a string value.
pub open spec fn str_field(v: Json, key: Seq<char>) -> Option<String> {
    match json_get_spec(v, key) {
        Some(j) => match j {
            Json::Str(s) => Some(s),
            _ => None,
        },
        None => None,
    }
}

fn str_eq(a: &str, b: &str) -> (r: bool)
    ensures
        r == (a@ == b@),
{
    let na: usize = a.unicode_len();
    let nb: usize = b.unicode_len();
    if na != nb {
        return false;
    }
    let mut i: usize = 0;
    while i < na
        invariant
            0 <= i <= na,
            na == a@.len(),
            na == b@.len(),
            forall|k: int| 0 <= k < i ==> a@[k] == b@[k],
        decreases na - i,
    {
        if a.get_char(i) != b.get_char(i) {
            return false;
        }
        i = i + 1;
    }
    proof {
        assert(a@ =~= b@);
    }
    true
}

impl Json {
    /// The first member of this node named `key`, if this node is an
    /// object that has one.
    pub fn get<'a>(&'a self, key: &str) -> (r: Option<&'a Json>)
        ensures
            match json_get_spec(*self, key@) {
                Some(j) => r matches Some(x) && *x == j,
                None => r is None,
            },
    {
        match self {
            Json::Obj(pairs) => {
                let n: usize = pairs.len();
                let mut i: usize = 0;
                proof {
                    assert(pairs@.skip(0) =~= pairs@);
                }
                while i < n
                    invariant
                        0 <= i <= n,
                        n == pairs@.len(),
                        *self == Json::Obj(*pairs),
                        obj_lookup(pairs@.skip(i as int), key@) == obj_lookup(pairs@, key@),
                    decreases n - i,
                {
                    proof {
                        assert(pairs@.skip(i as int)[0] == pairs@[i as int]);
                    }
                    let p = &pairs[i];
                    if str_eq(p.0.as_str(), key) {
                        proof {
                            assert(obj_lookup(pairs@.skip(i as int), key@) == Some(
                                pairs@[i as int].1,
                            ));
                            assert(json_get_spec(*self, key@) == Some(pairs@[i as int].1));
                        }
                        return Some(&p.1);
                    }
                    proof {
                        assert(pairs@.skip(i as int).drop_first() =~= pairs@.skip(i + 1));
                    }
                    i = i + 1;
                }
                proof {
                    assert(pairs@.skip(n as int) =~= Seq::<(String, Json)>::empty());
                }
                None
            },
            _ => None,
        }
    }

    /// The string content of member `key`, if any.
    pub fn get_str<'a>(&'a self, key: &str) -> (r: Option<&'a String>)
        ensures
            match str_field(*self, key@) {
                Some(s) => r matches Some(x) && *x == s,
                None => r is None,
            },
    {
        match self.get(key) {
            Some(j) => match j {
                Json::Str(s) => Some(s),
                _ => None,
            },
            None => None,
        }
    }
}

/// What coercing the scalar `v` with fallback `default` yields: a number
/// stays a number (clamped to the representable range), a string goes
/// through the trimmed decimal parse, everything else is the default.
pub open spec fn coerce_spec(v: Json, default: Decimal) -> Decimal {
    match v {
        Json::Num(d) => Decimal { units: clamp_units(d.units as int) as i64 },
        Json::Str(s) => match parse_decimal_spec(s@) {
            Some(u) => Decimal { units: u as i64 },
            None => default,
        },
        _ => default,
    }
}

/// Total numeric coercion: never an error, always a value.
pub fn coerce(value: Option<&Json>, default: Decimal) -> (r: Decimal)
    ensures
        value is None ==> r == default,
        value matches Some(v) ==> r == coerce_spec(*v, default),
        default.wf() ==> r.wf(),
{
    match value {
        None => default,
        Some(v) => match v {
            Json::Num(d) => {
                let u: i64 = d.units;
                if u > MAX_UNITS {
                    Decimal { units: MAX_UNITS }
                } else if u < -MAX_UNITS {
                    Decimal { units: -MAX_UNITS }
                } else {
                    Decimal { units: u }
                }
            },
            Json::Str(s) => match parse_decimal(s.as_str()) {
                Some(d) => d,
                None => default,
            },
            _ => default,
        },
    }
}

} // verus!
