//! A JSON document as plain values, with the reads that the rest of the
//! library makes of one (`serde_json`'s indexing and number rendering).
use vstd::prelude::*;
use crate::outside::string_push;
use crate::text::{decimal, format_u64, push_decimal, str_chars, string_from_chars};

verus! {

/// A JSON number as `serde_json` holds it. Non-negative integers are
/// `PosInt`, negative ones `NegInt`; any other number is kept as the text
/// that `serde_json` renders for it.
#[derive(Debug)]
pub enum JsonNumber {
    PosInt(u64),
    NegInt(i64),
    Float(String),
}

/// A JSON value. An object keeps its members in order, as pairs of key and
/// value; one read from JSON text has its keys sorted and distinct, as
/// `serde_json`'s map keeps them (see `json_well_formed`).
#[derive(Debug)]
pub enum Json {
    Null,
    Bool(bool),
    Number(JsonNumber),
    String(String),
    Array(Vec<Json>),
    Object(Vec<(String, Json)>),
}

/// The keys of an object's members, in order.
pub open spec fn member_keys(members: Seq<(String, Json)>) -> Seq<Seq<char>> {
    members.map_values(|m: (String, Json)| m.0@)
}

/// The value of the first member of `members` whose key is `k`.
pub open spec fn member_lookup(members: Seq<(String, Json)>, k: Seq<char>) -> Option<Json>
    decreases members.len(),
{
    if members.len() == 0 {
        None
    } else if members[0].0@ == k {
        Some(members[0].1)
    } else {
        member_lookup(members.drop_first(), k)
    }
}

/// `a` sorts strictly before `b` in the order of `String` (character by
/// character, a prefix first; the byte order of UTF-8 is that of the
/// characters), the order in which `serde_json` keeps an object's keys.
pub open spec fn key_less(a: Seq<char>, b: Seq<char>) -> bool
    decreases a.len(),
{
    if a.len() == 0 {
        b.len() > 0
    } else if b.len() == 0 {
        false
    } else if a[0] != b[0] {
        (a[0] as u32) < (b[0] as u32)
    } else {
        key_less(a.drop_first(), b.drop_first())
    }
}

/// The keys of `members` are sorted and distinct.
pub open spec fn keys_sorted(members: Seq<(String, Json)>) -> bool {
    forall|i: int, j: int| 0 <= i < j < members.len() ==> key_less(#[trigger] members[i].0@, #[trigger] members[j].0@)
}

/// Every object within `j` has sorted, distinct keys, as every value that
/// `serde_json` reads has.
pub open spec fn json_well_formed(j: Json) -> bool
    decreases j,
{
    match j {
        Json::Array(a) => forall|i: int| 0 <= i < a.len() ==> json_well_formed(#[trigger] a@[i]),
        Json::Object(m) => keys_sorted(m@) && forall|i: int| 0 <= i < m.len() ==> json_well_formed(#[trigger] m@[i].1),
        _ => true,
    }
}

/// No key sorts before itself.
proof fn lemma_key_less_irreflexive(a: Seq<char>)
    ensures
        !key_less(a, a),
    decreases a.len(),
{
    if a.len() > 0 {
        lemma_key_less_irreflexive(a.drop_first());
    }
}

/// In an object with sorted keys, looking a member's key up finds that
/// member: no other member has the same key.
pub proof fn law_sorted_lookup_finds_member(members: Seq<(String, Json)>, i: int)
    requires
        keys_sorted(members),
        0 <= i < members.len(),
    ensures
        member_lookup(members, members[i].0@) == Some(members[i].1),
    decreases i,
{
    if i > 0 {
        let k = members[i].0@;
        assert(key_less(members[0].0@, members[i].0@));
        lemma_key_less_irreflexive(k);
        let rest = members.drop_first();
        assert(rest[i - 1] == members[i]);
        assert forall|a: int, b: int| 0 <= a < b < rest.len() implies key_less(#[trigger] rest[a].0@, #[trigger] rest[b].0@) by {
            assert(rest[a] == members[a + 1] && rest[b] == members[b + 1]);
        }
        law_sorted_lookup_finds_member(rest, i - 1);
    }
}

/// `doc[k]` with `serde_json`'s `Index` on a value: the member `k` of an
/// object, and `null` where there is none or `doc` is not an object.
pub open spec fn json_index(doc: Json, k: Seq<char>) -> Json {
    match doc {
        Json::Object(members) => match member_lookup(members@, k) {
            Some(v) => v,
            None => Json::Null,
        },
        _ => Json::Null,
    }
}

/// How `serde_json` renders a number (`Number::to_string`).
pub open spec fn number_text(n: JsonNumber) -> Seq<char> {
    match n {
        JsonNumber::PosInt(u) => decimal(u as nat),
        JsonNumber::NegInt(i) => if i < 0 {
            seq!['-'] + decimal((-i) as nat)
        } else {
            decimal(i as nat)
        },
        JsonNumber::Float(t) => t@,
    }
}

/// `Number::as_u64`: the value of a number that is a non-negative integer.
pub open spec fn number_u64(n: JsonNumber) -> Option<u64> {
    match n {
        JsonNumber::PosInt(u) => Some(u),
        JsonNumber::NegInt(i) => if i >= 0 {
            Some(i as u64)
        } else {
            None
        },
        JsonNumber::Float(_) => None,
    }
}

/// The text `true` or `false`.
pub open spec fn bool_text(b: bool) -> Seq<char> {
    if b {
        seq!['t', 'r', 'u', 'e']
    } else {
        seq!['f', 'a', 'l', 's', 'e']
    }
}

/// Two strings have the same characters.
pub fn str_eq(a: &str, b: &str) -> (r: bool)
    ensures
        r == (a@ == b@),
{
    let x = str_chars(a);
    let y = str_chars(b);
    if x.len() != y.len() {
        return false;
    }
    let mut i: usize = 0;
    while i < x.len()
        invariant
            x@ == a@,
            y@ == b@,
            x.len() == y.len(),
            i <= x.len(),
            forall|j: int| 0 <= j < i ==> x@[j] == y@[j],
        decreases x.len() - i,
    {
        if x[i] != y[i] {
            return false;
        }
        i += 1;
    }
    assert(x@ == y@);
    true
}

/// The concatenation of `a` and `b`.
pub fn concat(a: &str, b: &str) -> (r: String)
    ensures
        r@ == a@ + b@,
{
    let mut x = str_chars(a);
    let y = str_chars(b);
    let mut i: usize = 0;
    while i < y.len()
        invariant
            i <= y.len(),
            y@ == b@,
            x@ == a@ + y@.take(i as int),
        decreases y.len() - i,
    {
        x.push(y[i]);
        assert(y@.take(i + 1) == y@.take(i as int).push(y@[i as int]));
        i += 1;
    }
    assert(y@.take(y.len() as int) == y@);
    string_from_chars(&x)
}

/// A copy of `s`.
pub fn str_to_string(s: &str) -> (r: String)
    ensures
        r@ == s@,
{
    let v = str_chars(s);
    string_from_chars(&v)
}

impl JsonNumber {
    /// The text of this number (`Number::to_string`).
    pub fn to_text(&self) -> (r: String)
        ensures
            r@ == number_text(*self),
    {
        match self {
            JsonNumber::PosInt(u) => format_u64(*u),
            JsonNumber::NegInt(i) => {
                if *i < 0 {
                    let m: u64 = ((-(*i + 1)) as u64) + 1;
                    let mut s = String::new();
                    string_push(&mut s, '-');
                    push_decimal(&mut s, m);
                    s
                } else {
                    format_u64(*i as u64)
                }
            },
            JsonNumber::Float(t) => t.clone(),
        }
    }

    /// `Number::as_u64`: the value of a non-negative integer.
    pub fn as_u64(&self) -> (r: Option<u64>)
        ensures
            r == number_u64(*self),
    {
        match self {
            JsonNumber::PosInt(u) => Some(*u),
            JsonNumber::NegInt(i) => if *i >= 0 { Some(*i as u64) } else { None },
            JsonNumber::Float(_) => None,
        }
    }
}

/// The member `k` of the object `members`.
pub fn members_get<'a>(members: &'a Vec<(String, Json)>, k: &str) -> (r: Option<&'a Json>)
    ensures
        match r {
            Some(v) => member_lookup(members@, k@) == Some(*v),
            None => member_lookup(members@, k@) is None,
        },
{
    let mut i: usize = 0;
    assert(members@.skip(0) == members@);
    while i < members.len()
        invariant
            i <= members.len(),
            member_lookup(members@, k@) == member_lookup(members@.skip(i as int), k@),
        decreases members.len() - i,
    {
        assert(members@.skip(i as int)[0] == members@[i as int]);
        assert(members@.skip(i as int).drop_first() == members@.skip(i + 1));
        if str_eq(members[i].0.as_str(), k) {
            return Some(&members[i].1);
        }
        i += 1;
    }
    assert(members@.skip(i as int).len() == 0);
    None
}

impl Json {
    /// `self[k]` (`serde_json`'s `Index`): the member `k` of an object, or
    /// `None` where `serde_json` would give `null` for want of one.
    pub fn get(&self, k: &str) -> (r: Option<&Json>)
        ensures
            match r {
                Some(v) => self is Object && json_index(*self, k@) == *v
                    && member_lookup(self->Object_0@, k@) == Some(*v),
                None => json_index(*self, k@) == Json::Null && !(self is Object
                    && member_lookup(self->Object_0@, k@) is Some),
            },
    {
        match self {
            Json::Object(members) => members_get(members, k),
            _ => None,
        }
    }

    /// `Value::as_str`.
    pub fn as_str(&self) -> (r: Option<&str>)
        ensures
            match r {
                Some(s) => self is String && self->String_0@ == s@,
                None => !(self is String),
            },
    {
        match self {
            Json::String(s) => Some(s.as_str()),
            _ => None,
        }
    }
}

} // verus!
