//! The processing step of the socket relay.
use vstd::prelude::*;
use vstd::slice::slice_to_vec;
use vstd::utf8::{decode_utf8, encode_utf8, valid_utf8};
use crate::outside::{string_from_utf8, to_uppercase, unicode_uppercase};

verus! {

/// The data relayed for `input`: text in UTF-8 comes out in upper case;
/// anything else comes out as it went in.
pub fn process_data(input: &[u8]) -> (r: Vec<u8>)
    ensures
        valid_utf8(input@) ==> r@ == encode_utf8(unicode_uppercase(decode_utf8(input@))),
        !valid_utf8(input@) ==> r@ == input@,
{
    match string_from_utf8(slice_to_vec(input)) {
        Some(s) => {
            let u = to_uppercase(s.as_str());
            slice_to_vec(u.as_str().as_bytes())
        },
        None => slice_to_vec(input),
    }
}

} // verus!
