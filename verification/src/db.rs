//! The record of when and where a stored rule is in effect, as the request
//! handler reads it from a stored rule document.
use vstd::prelude::*;
use crate::json::{Json, json_index};

verus! {

/// When and where a rule is in effect, as the texts given for it.
#[derive(Debug)]
pub struct InEffect {
    pub loc: String,
    pub from: String,
    pub to: String,
    pub tz: String,
}

/// `in`.
pub open spec fn in_key() -> Seq<char> {
    "in"@
}

/// `from`.
pub open spec fn from_key() -> Seq<char> {
    "from"@
}

/// `to`.
pub open spec fn to_key() -> Seq<char> {
    "to"@
}

/// `tz`.
pub open spec fn tz_key() -> Seq<char> {
    "tz"@
}

/// `o` has strings under `in`, `from`, `to` and `tz`.
pub open spec fn in_effect_well_formed(o: Json) -> bool {
    &&& json_index(o, in_key()) is String
    &&& json_index(o, from_key()) is String
    &&& json_index(o, to_key()) is String
    &&& json_index(o, tz_key()) is String
}

/// The record that the object `o` describes.
pub open spec fn in_effect_of(o: Json, r: InEffect) -> bool {
    &&& r.loc@ == json_index(o, in_key())->String_0@
    &&& r.from@ == json_index(o, from_key())->String_0@
    &&& r.to@ == json_index(o, to_key())->String_0@
    &&& r.tz@ == json_index(o, tz_key())->String_0@
}

pub(crate) fn member_string(o: &Json, k: &str) -> (r: String)
    requires
        json_index(*o, k@) is String,
    ensures
        r@ == json_index(*o, k@)->String_0@,
{
    let v = o.get(k);
    let s = v.unwrap().as_str().unwrap();
    crate::json::str_to_string(s)
}

} // verus!
