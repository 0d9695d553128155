//! Ingesting a rule: the revision it is stored under, the keys it applies
//! to, and the rows recorded for when and where it is in effect.
use vstd::prelude::*;
use crate::json::{Json, json_index, member_lookup, members_get, str_to_string};
use crate::outside::utc_datetime_text;
use crate::rules::{InEffect, UtcTime, opt_view};
use crate::rule::{all_rev_readable, extract_rev, latest_index, lemma_latest_index, rev_of_path};
use crate::select::views;
use crate::text::{decimal, format_u64};

verus! {

/// `expression`.
pub open spec fn expression_key() -> Seq<char> {
    "expression"@
}

/// `key`.
pub open spec fn key_key() -> Seq<char> {
    "key"@
}

/// An input condition names the key it reads as a string under
/// `expression` / `key`; anything but an object is passed over.
pub open spec fn condition_well_formed(c: Json) -> bool {
    c matches Json::Object(m) ==> (member_lookup(m@, expression_key()) matches Some(e) && json_index(
        e,
        key_key(),
    ) is String)
}

/// The key an input condition object names.
pub open spec fn condition_key(c: Json) -> Seq<char> {
    match c {
        Json::Object(m) => json_index(member_lookup(m@, expression_key())->0, key_key())->String_0@,
        _ => Seq::empty(),
    }
}

/// The keys that the input conditions `conds` name, in order; entries that
/// are not objects name none.
pub open spec fn applicable_keys(conds: Seq<Json>) -> Seq<Seq<char>>
    decreases conds.len(),
{
    if conds.len() == 0 {
        Seq::empty()
    } else {
        let rest = applicable_keys(conds.drop_last());
        if conds.last() is Object {
            rest.push(condition_key(conds.last()))
        } else {
            rest
        }
    }
}

/// The keys named by the input conditions in `conds`, which must all be
/// well formed.
pub fn condition_keys_of(conds: &Vec<Json>) -> (r: Vec<String>)
    requires
        forall|i: int| 0 <= i < conds@.len() ==> condition_well_formed(#[trigger] conds@[i]),
    ensures
        views(r@) == applicable_keys(conds@),
{
    let mut r: Vec<String> = Vec::new();
    let mut i: usize = 0;
    while i < conds.len()
        invariant
            i <= conds.len(),
            forall|i: int| 0 <= i < conds@.len() ==> condition_well_formed(#[trigger] conds@[i]),
            views(r@) == applicable_keys(conds@.take(i as int)),
        decreases conds.len() - i,
    {
        assert(conds@.take(i + 1).drop_last() == conds@.take(i as int));
        assert(conds@.take(i + 1).last() == conds@[i as int]);
        assert(condition_well_formed(conds@[i as int]));
        match &conds[i] {
            Json::Object(m) => {
                let e = members_get(m, "expression");
                proof {
                    reveal_strlit("expression");
                }
                let k = e.unwrap().get("key");
                proof {
                    reveal_strlit("key");
                }
                let s = k.unwrap().as_str().unwrap();
                let ghost before = r@;
                r.push(str_to_string(s));
                assert(views(r@) =~= views(before).push(s@));
            },
            _ => {},
        }
        i += 1;
    }
    assert(conds@.take(conds.len() as int) == conds@);
    r
}

/// The keys a rule applies to, from its `input_conditions`: `None` where
/// `vals` is not an array.
pub fn build_applicable(vals: &Json) -> (r: Option<Vec<String>>)
    requires
        vals matches Json::Array(a) ==> forall|i: int|
            0 <= i < a@.len() ==> condition_well_formed(#[trigger] a@[i]),
    ensures
        match r {
            Some(keys) => vals is Array && views(keys@) == applicable_keys(vals->Array_0@),
            None => !(vals is Array),
        },
{
    match vals {
        Json::Array(conds) => Some(condition_keys_of(conds)),
        _ => None,
    }
}

/// The revision a newly ingested rule gets: one past the latest, or 0 for
/// a rule not stored before.
pub fn next_rev(latest: Option<u64>) -> (r: u64)
    requires
        latest matches Some(l) ==> l < u64::MAX,
    ensures
        r == (match latest {
            Some(l) => l + 1,
            None => 0,
        }),
{
    match latest {
        Some(l) => l + 1,
        None => 0,
    }
}

/// The latest revision among the revision files `found`: the highest
/// revision number they stand for; `None` where there are none.
pub fn latest_rev(found: &Vec<String>) -> (r: Option<u64>)
    requires
        all_rev_readable(found@),
    ensures
        match r {
            Some(v) => latest_index(found@) matches Some(i) && v == rev_of_path(found@[i]@)
                && forall|j: int| 0 <= j < found@.len() ==> rev_of_path((#[trigger] found@[j])@) <= v,
            None => found@.len() == 0,
        },
{
    proof {
        lemma_latest_index(found@);
    }
    let mut best: Option<u64> = None;
    let mut i: usize = 0;
    while i < found.len()
        invariant
            i <= found.len(),
            all_rev_readable(found@),
            match best {
                Some(v) => latest_index(found@.take(i as int)) matches Some(b) && 0 <= b < i
                    && v == rev_of_path(found@[b]@),
                None => i == 0,
            },
        decreases found.len() - i,
    {
        assert(found@.take(i + 1).drop_last() == found@.take(i as int));
        assert(found@.take(i + 1)[i as int] == found@[i as int]);
        let rv = extract_rev(&found[i]);
        match best {
            Some(v) => {
                let ghost b = latest_index(found@.take(i as int))->0;
                assert(found@.take(i as int)[b] == found@[b]);
                if rv >= v {
                    best = Some(rv);
                }
            },
            None => {
                best = Some(rv);
            },
        }
        i += 1;
    }
    assert(found@.take(found.len() as int) == found@);
    best
}

/// `UTC`, the name of the default time zone.
pub open spec fn utc_name() -> Seq<char> {
    "UTC"@
}

/// How an optional instant is displayed in a row: the epoch where there is
/// none.
pub open spec fn time_cell(t: Option<UtcTime>) -> Seq<char> {
    match t {
        Some(x) => utc_datetime_text(x.seconds())->0,
        None => utc_datetime_text(0)->0,
    }
}

fn time_cell_string(t: &Option<UtcTime>) -> (r: String)
    ensures
        r@ == time_cell(*t),
{
    match t {
        Some(x) => x.to_string(),
        None => UtcTime::epoch().to_string(),
    }
}

/// The row recorded for one `InEffect` of revision `rev` of rule `id`:
/// id, revision, jurisdiction (empty where unset), start and end as chrono
/// displays them (the epoch where unset), and time zone (`UTC` where unset).
pub fn in_effect_row(id: &String, rev: u64, ie: &InEffect) -> (r: Vec<String>)
    ensures
        r@.len() == 6,
        r@[0]@ == id@,
        r@[1]@ == decimal(rev as nat),
        r@[2]@ == (match opt_view(ie.jurisdiction) {
            Some(j) => j,
            None => Seq::empty(),
        }),
        r@[3]@ == time_cell(ie.from),
        r@[4]@ == time_cell(ie.to),
        r@[5]@ == (match opt_view(ie.tz) {
            Some(z) => z,
            None => utc_name(),
        }),
{
    let mut r: Vec<String> = Vec::new();
    r.push(id.clone());
    r.push(format_u64(rev));
    r.push(
        match &ie.jurisdiction {
            Some(j) => j.clone(),
            None => String::new(),
        },
    );
    r.push(time_cell_string(&ie.from));
    r.push(time_cell_string(&ie.to));
    r.push(
        match &ie.tz {
            Some(z) => z.clone(),
            None => str_to_string("UTC"),
        },
    );
    r
}


/// The revision a rule is ingested under is higher than that of every
/// revision file already stored for it.
pub proof fn law_ingested_revision_is_new(found: Seq<String>, j: int)
    requires
        0 <= j < found.len(),
        rev_of_path(found[latest_index(found)->0]@) < u64::MAX,
    ensures
        rev_of_path(found[j]@) < rev_of_path(found[latest_index(found)->0]@) + 1,
{
    lemma_latest_index(found);
}

} // verus!
