//! The selection of applicable rules: the key paths of a document, and the
//! choice of the latest version of each rule found.
use vstd::prelude::*;
use crate::json::{Json, concat, str_to_string};
use crate::outside::string_push;
use crate::text::{decimal, parse_u32, parse_u32_spec, push_decimal};
use crate::json::str_eq;
use crate::path::{join, path_join};
use crate::rule::{rule_dir, rule_dir_spec};

verus! {

/// The views of a sequence of strings.
pub open spec fn views(v: Seq<String>) -> Seq<Seq<char>> {
    v.map_values(|s: String| s@)
}

/// `[i]`, the path segment of the element at position `i` of an array.
pub open spec fn index_segment(i: nat) -> Seq<char> {
    seq!['['] + decimal(i) + seq![']']
}

/// Every path of `paths` with `prefix` in front of it.
pub open spec fn prefixed(prefix: Seq<char>, paths: Seq<Seq<char>>) -> Seq<Seq<char>> {
    paths.map_values(|p: Seq<char>| prefix + p)
}

/// The key paths of a document: for an object, each key followed by the
/// paths inside its value, written after the key; for an array, `[i]` for
/// each element followed by the paths inside it; nothing for other values.
/// Below the root, the paths of an object start with `.`.
pub open spec fn key_paths(doc: Json, at_root: bool) -> Seq<Seq<char>>
    decreases doc, 1nat,
{
    match doc {
        Json::Object(members) => {
            let v = member_paths(members@);
            if at_root {
                v
            } else {
                prefixed(seq!['.'], v)
            }
        },
        Json::Array(items) => element_paths(items@),
        _ => Seq::empty(),
    }
}

/// The key paths contributed by the members of an object, in order.
pub open spec fn member_paths(members: Seq<(String, Json)>) -> Seq<Seq<char>>
    decreases members, 0nat,
{
    if members.len() == 0 {
        Seq::empty()
    } else {
        let last = members[members.len() - 1];
        let k = last.0@;
        member_paths(members.subrange(0, members.len() - 1)) + seq![k] + prefixed(
            k,
            key_paths(last.1, false),
        )
    }
}

/// The key paths contributed by the elements of an array, in order.
pub open spec fn element_paths(items: Seq<Json>) -> Seq<Seq<char>>
    decreases items, 0nat,
{
    if items.len() == 0 {
        Seq::empty()
    } else {
        let n = (items.len() - 1) as nat;
        let seg = index_segment(n);
        element_paths(items.subrange(0, items.len() - 1)) + seq![seg] + prefixed(
            seg,
            key_paths(items[items.len() - 1], false),
        )
    }
}


/// Appends to `v` each string of `sub` with `prefix` in front of it.
pub fn append_prefixed(v: &mut Vec<String>, prefix: &str, sub: &Vec<String>)
    ensures
        views(final(v)@) == views(old(v)@) + prefixed(prefix@, views(sub@)),
{
    let ghost v0 = views(v@);
    let mut j: usize = 0;
    while j < sub.len()
        invariant
            j <= sub.len(),
            views(v@) == v0 + prefixed(prefix@, views(sub@.take(j as int))),
        decreases sub.len() - j,
    {
        let s = concat(prefix, sub[j].as_str());
        let ghost before = v@;
        v.push(s);
        assert(views(v@) =~= views(before).push(s@));
        assert(views(sub@.take(j + 1)) =~= views(sub@.take(j as int)).push(sub@[j as int]@));
        assert(prefixed(prefix@, views(sub@.take(j + 1))) =~= prefixed(
            prefix@,
            views(sub@.take(j as int)),
        ).push(prefix@ + sub@[j as int]@));
        j += 1;
    }
    assert(sub@.take(sub.len() as int) == sub@);
}

/// `[i]`.
pub fn index_segment_string(i: usize) -> (r: String)
    ensures
        r@ == index_segment(i as nat),
{
    let mut s = String::new();
    string_push(&mut s, '[');
    push_decimal(&mut s, i as u64);
    string_push(&mut s, ']');
    s
}

/// The key paths of `doc` (see `key_paths`).
pub fn keys(doc: &Json, at_root: bool) -> (r: Vec<String>)
    ensures
        views(r@) == key_paths(*doc, at_root),
    decreases doc,
{
    match doc {
        Json::Object(members) => {
            let mut v: Vec<String> = Vec::new();
            let mut i: usize = 0;
            while i < members.len()
                invariant
                    i <= members.len(),
                    *doc == Json::Object(*members),
                    views(v@) == member_paths(members@.subrange(0, i as int)),
                decreases members.len() - i,
            {
                let k = &members[i].0;
                let ghost before = v@;
                v.push(k.clone());
                assert(views(v@) =~= views(before).push(k@));
                proof {
                    assert(decreases_to!(*doc => doc->Object_0));
                    assert(decreases_to!(*members => members@));
                    assert(decreases_to!(members@ => members@[i as int]));
                    assert(decreases_to!(members@[i as int] => members@[i as int].1));
                    assert(decreases_to!(*doc => members@[i as int].1));
                }
                let sub = keys(&members[i].1, false);
                append_prefixed(&mut v, k.as_str(), &sub);
                assert(members@.subrange(0, i + 1).subrange(0, i as int) == members@.subrange(0, i as int));
                i += 1;
            }
            assert(members@.subrange(0, members.len() as int) == members@);
            if at_root {
                v
            } else {
                let mut w: Vec<String> = Vec::new();
                append_prefixed(&mut w, ".", &v);
                assert("."@ == seq!['.']) by {
                    reveal_strlit(".");
                }
                w
            }
        },
        Json::Array(items) => {
            let mut v: Vec<String> = Vec::new();
            let mut i: usize = 0;
            while i < items.len()
                invariant
                    i <= items.len(),
                    *doc == Json::Array(*items),
                    views(v@) == element_paths(items@.subrange(0, i as int)),
                decreases items.len() - i,
            {
                let seg = index_segment_string(i);
                let ghost before = v@;
                v.push(seg.clone());
                assert(views(v@) =~= views(before).push(seg@));
                proof {
                    assert(decreases_to!(*doc => doc->Array_0));
                    assert(decreases_to!(*items => items@));
                    assert(decreases_to!(items@ => items@[i as int]));
                    assert(decreases_to!(*doc => items@[i as int]));
                }
                let sub = keys(&items[i], false);
                append_prefixed(&mut v, seg.as_str(), &sub);
                assert(items@.subrange(0, i + 1).subrange(0, i as int) == items@.subrange(0, i as int));
                i += 1;
            }
            assert(items@.subrange(0, items.len() as int) == items@);
            v
        },
        _ => Vec::new(),
    }
}

/// The key paths of a whole document (`keys(doc, true)`).
pub fn doc_keys(doc: &Json) -> (r: Vec<String>)
    ensures
        views(r@) == key_paths(*doc, true),
{
    keys(doc, true)
}


/// A rule found for a document: its id and the version found.
#[derive(Debug)]
pub struct Ref {
    pub id: String,
    pub version: String,
}

impl Ref {
    /// A copy of this reference.
    pub fn copy(&self) -> (r: Ref)
        ensures
            r == *self,
    {
        Ref { id: self.id.clone(), version: self.version.clone() }
    }
}

/// The number a version string stands for (`parse::<u32>`).
pub open spec fn version_number(v: Seq<char>) -> nat {
    match parse_u32_spec(v) {
        Some(n) => n as nat,
        None => 0,
    }
}

/// Every version of a rule that occurs more than once in `refs` reads as a
/// `u32` (the versions of a rule found only once are never compared).
pub open spec fn versions_numeric(refs: Seq<Ref>) -> bool {
    forall|i: int, j: int|
        0 <= i < refs.len() && 0 <= j < refs.len() && i != j && refs[i].id@ == refs[j].id@
            ==> (#[trigger] parse_u32_spec(refs[i].version@)) is Some && #[trigger] refs[j].id@ == refs[i].id@
}

/// The version kept for `id` when `refs` are read in order: the first
/// version with the highest number among those of `id`, or `None` where
/// `id` does not occur.
pub open spec fn latest_version(refs: Seq<Ref>, id: Seq<char>) -> Option<Seq<char>>
    decreases refs.len(),
{
    if refs.len() == 0 {
        None
    } else {
        let prev = latest_version(refs.drop_last(), id);
        let r = refs.last();
        if r.id@ != id {
            prev
        } else {
            match prev {
                None => Some(r.version@),
                Some(v) => if version_number(v) < version_number(r.version@) {
                    Some(r.version@)
                } else {
                    prev
                },
            }
        }
    }
}

/// `r` carries the version kept for its id.
pub open spec fn is_latest(refs: Seq<Ref>, r: Ref) -> bool {
    latest_version(refs, r.id@) == Some(r.version@)
}

/// The references of `refs` that carry the version kept for their id, in
/// their order.
pub open spec fn filter_latest(refs: Seq<Ref>) -> Seq<Ref> {
    refs.filter(|r: Ref| is_latest(refs, r))
}

/// The version kept for `id` among `refs` (see `latest_version`).
pub fn latest_version_of(refs: &Vec<Ref>, id: &str) -> (r: Option<String>)
    requires
        versions_numeric(refs@),
    ensures
        match r {
            Some(v) => latest_version(refs@, id@) == Some(v@),
            None => latest_version(refs@, id@) is None,
        },
{
    let mut best: Option<String> = None;
    let ghost mut best_at: int = 0;
    let mut i: usize = 0;
    while i < refs.len()
        invariant
            i <= refs.len(),
            versions_numeric(refs@),
            match best {
                Some(v) => latest_version(refs@.take(i as int), id@) == Some(v@) && 0 <= best_at < i
                    && refs@[best_at].id@ == id@ && refs@[best_at].version@ == v@,
                None => latest_version(refs@.take(i as int), id@) is None,
            },
        decreases refs.len() - i,
    {
        assert(refs@.take(i + 1).drop_last() == refs@.take(i as int));
        assert(refs@.take(i + 1).last() == refs@[i as int]);
        let r = &refs[i];
        if str_eq(r.id.as_str(), id) {
            match &best {
                None => {
                    best = Some(r.version.clone());
                    proof {
                        best_at = i as int;
                    }
                },
                Some(b) => {
                    assert(parse_u32_spec(refs@[best_at].version@) is Some && refs@[i as int].id@ == refs@[best_at].id@);
                    assert(parse_u32_spec(refs@[i as int].version@) is Some && refs@[best_at].id@ == refs@[i as int].id@);
                    let cur = parse_u32(b.as_str()).unwrap();
                    let new = parse_u32(r.version.as_str()).unwrap();
                    if cur < new {
                        best = Some(r.version.clone());
                        proof {
                            best_at = i as int;
                        }
                    }
                },
            }
        }
        i += 1;
    }
    assert(refs@.take(refs.len() as int) == refs@);
    best
}

/// Keeps, of each rule found, only the references that carry its latest
/// version; where two version strings stand for the same number, the one
/// met first is the one kept.
pub fn filter(refs: Vec<Ref>) -> (r: Vec<Ref>)
    requires
        versions_numeric(refs@),
    ensures
        r@ == filter_latest(refs@),
{
    let mut out: Vec<Ref> = Vec::new();
    let mut i: usize = 0;
    while i < refs.len()
        invariant
            i <= refs.len(),
            versions_numeric(refs@),
            out@ == refs@.take(i as int).filter(|r: Ref| is_latest(refs@, r)),
        decreases refs.len() - i,
    {
        let r = &refs[i];
        let best = latest_version_of(&refs, r.id.as_str());
        let keep = match &best {
            Some(v) => str_eq(v.as_str(), r.version.as_str()),
            None => false,
        };
        reveal_with_fuel(Seq::<_>::filter, 1);
        assert(refs@.take(i + 1).drop_last() == refs@.take(i as int));
        if keep {
            out.push(r.copy());
        }
        i += 1;
    }
    assert(refs@.take(refs.len() as int) == refs@);
    out
}


/// The version kept for an id is that of some reference with that id, and
/// no reference with that id carries a higher number; an id that occurs
/// always has a version kept.
proof fn lemma_latest_version(refs: Seq<Ref>, id: Seq<char>)
    ensures
        latest_version(refs, id) is Some <==> exists|j: int| 0 <= j < refs.len() && (#[trigger] refs[j]).id@ == id,
        latest_version(refs, id) matches Some(v) ==> exists|j: int|
            0 <= j < refs.len() && (#[trigger] refs[j]).id@ == id && refs[j].version@ == v,
        latest_version(refs, id) matches Some(v) ==> forall|j: int|
            0 <= j < refs.len() && (#[trigger] refs[j]).id@ == id ==> version_number(refs[j].version@)
                <= version_number(v),
    decreases refs.len(),
{
    if refs.len() > 0 {
        let rest = refs.drop_last();
        lemma_latest_version(rest, id);
        assert forall|j: int| 0 <= j < rest.len() implies rest[j] == refs[j] by {}
        if latest_version(rest, id) is Some {
            let j = choose|j: int| 0 <= j < rest.len() && (#[trigger] rest[j]).id@ == id;
            assert(refs[j].id@ == id);
        }
        match latest_version(refs, id) {
            Some(v) => {
                if refs.last().id@ == id && latest_version(refs, id) == Some(refs.last().version@) {
                    assert(refs[refs.len() - 1].version@ == v);
                } else {
                    let j = choose|j: int|
                        0 <= j < rest.len() && (#[trigger] rest[j]).id@ == id && rest[j].version@ == v;
                    assert(refs[j].version@ == v);
                }
            },
            None => {},
        }
    }
}

/// Filtering keeps, for every rule id that occurs among the references, at
/// least one reference to it.
pub proof fn law_filter_keeps_every_rule(refs: Seq<Ref>, j: int)
    requires
        0 <= j < refs.len(),
    ensures
        exists|k: int| 0 <= k < filter_latest(refs).len() && (#[trigger] filter_latest(refs)[k]).id@ == refs[j].id@,
{
    let id = refs[j].id@;
    lemma_latest_version(refs, id);
    let v = latest_version(refs, id)->0;
    let w = choose|w: int| 0 <= w < refs.len() && (#[trigger] refs[w]).id@ == id && refs[w].version@ == v;
    let pred = |r: Ref| is_latest(refs, r);
    assert(pred(refs[w]));
    refs.lemma_filter_contains(pred, w);
    let f = filter_latest(refs);
    assert(f.contains(refs[w]));
    let k = choose|k: int| 0 <= k < f.len() && f[k] == refs[w];
    assert(f[k].id@ == id);
}

/// Each element of `s.filter(p)` is an element of `s`.
proof fn lemma_filter_from<A>(s: Seq<A>, p: spec_fn(A) -> bool, i: int)
    requires
        0 <= i < s.filter(p).len(),
    ensures
        exists|a: int| 0 <= a < s.len() && #[trigger] s[a] == s.filter(p)[i],
    decreases s.len(),
{
    reveal_with_fuel(Seq::<_>::filter, 1);
    let t = s.drop_last();
    let sub = t.filter(p);
    if i < sub.len() {
        assert(s.filter(p)[i] == sub[i]);
        lemma_filter_from(t, p, i);
        let a = choose|a: int| 0 <= a < t.len() && #[trigger] t[a] == sub[i];
        assert(s[a] == t[a]);
    } else {
        assert(s[s.len() - 1] == s.filter(p)[i]);
    }
}

/// Two positions `i < j` of `s.filter(p)` hold elements found at two
/// increasing positions of `s`.
proof fn lemma_filter_positions<A>(s: Seq<A>, p: spec_fn(A) -> bool, i: int, j: int)
    requires
        0 <= i < j < s.filter(p).len(),
    ensures
        exists|a: int, b: int|
            0 <= a < b < s.len() && #[trigger] s[a] == s.filter(p)[i] && #[trigger] s[b] == s.filter(p)[j],
    decreases s.len(),
{
    reveal_with_fuel(Seq::<_>::filter, 1);
    let t = s.drop_last();
    let sub = t.filter(p);
    assert(s.filter(p)[i] == sub[i]);
    if j < sub.len() {
        assert(s.filter(p)[j] == sub[j]);
        lemma_filter_positions(t, p, i, j);
        let (a, b) = choose|a: int, b: int| 0 <= a < b < t.len() && #[trigger] t[a] == sub[i] && #[trigger] t[b] == sub[j];
        assert(s[a] == t[a] && s[b] == t[b]);
    } else {
        lemma_filter_from(t, p, i);
        let a = choose|a: int| 0 <= a < t.len() && #[trigger] t[a] == sub[i];
        assert(s[a] == t[a]);
        assert(s[s.len() - 1] == s.filter(p)[j]);
    }
}

/// A filter that every element passes keeps the sequence as it is.
proof fn lemma_filter_keeps_all<A>(s: Seq<A>, p: spec_fn(A) -> bool)
    requires
        forall|k: int| 0 <= k < s.len() ==> p(#[trigger] s[k]),
    ensures
        s.filter(p) == s,
    decreases s.len(),
{
    reveal_with_fuel(Seq::<_>::filter, 1);
    if s.len() > 0 {
        let t = s.drop_last();
        assert forall|k: int| 0 <= k < t.len() implies p(#[trigger] t[k]) by {
            assert(t[k] == s[k]);
        }
        lemma_filter_keeps_all(t, p);
        assert(t.push(s.last()) == s);
    }
}

/// Where every reference to `id` carries the version `v`, and one does,
/// `v` is the version kept for `id`.
proof fn lemma_uniform_version(refs: Seq<Ref>, id: Seq<char>, v: Seq<char>, k: int)
    requires
        0 <= k < refs.len(),
        refs[k].id@ == id,
        forall|j: int| 0 <= j < refs.len() && (#[trigger] refs[j]).id@ == id ==> refs[j].version@ == v,
    ensures
        latest_version(refs, id) == Some(v),
    decreases refs.len(),
{
    let t = refs.drop_last();
    assert forall|j: int| 0 <= j < t.len() && (#[trigger] t[j]).id@ == id implies t[j].version@ == v by {
        assert(t[j] == refs[j]);
    }
    if exists|j: int| 0 <= j < t.len() && (#[trigger] t[j]).id@ == id {
        let j = choose|j: int| 0 <= j < t.len() && (#[trigger] t[j]).id@ == id;
        lemma_uniform_version(t, id, v, j);
    } else {
        lemma_latest_version(t, id);
        if k < t.len() {
            assert(t[k] == refs[k]);
        }
    }
    if refs.last().id@ == id {
        assert(refs[refs.len() - 1].version@ == v);
    }
}

/// Filtering a second time changes nothing: what one filter keeps is kept
/// by the next, and its versions can be compared again.
pub proof fn law_filter_idempotent(refs: Seq<Ref>)
    requires
        versions_numeric(refs),
    ensures
        versions_numeric(filter_latest(refs)),
        filter_latest(filter_latest(refs)) == filter_latest(refs),
{
    let f = filter_latest(refs);
    let pred = |r: Ref| is_latest(refs, r);
    assert forall|k: int| 0 <= k < f.len() implies is_latest(refs, #[trigger] f[k]) by {
        refs.lemma_filter_pred(pred, k);
    }
    assert forall|k: int| 0 <= k < f.len() implies is_latest(f, #[trigger] f[k]) by {
        let id = f[k].id@;
        assert forall|j: int| 0 <= j < f.len() && (#[trigger] f[j]).id@ == id implies f[j].version@
            == f[k].version@ by {
            assert(is_latest(refs, f[j]) && is_latest(refs, f[k]));
        }
        lemma_uniform_version(f, id, f[k].version@, k);
    }
    let q = |r: Ref| is_latest(f, r);
    assert forall|k: int| 0 <= k < f.len() implies q(#[trigger] f[k]) by {
        assert(is_latest(f, f[k]));
    }
    lemma_filter_keeps_all(f, q);
    assert forall|i: int, j: int|
        0 <= i < f.len() && 0 <= j < f.len() && i != j && f[i].id@ == f[j].id@ implies (#[trigger] parse_u32_spec(
        f[i].version@)) is Some && #[trigger] f[j].id@ == f[i].id@ by {
        let lo = if i < j { i } else { j };
        let hi = if i < j { j } else { i };
        lemma_filter_positions(refs, pred, lo, hi);
        let (a, b) = choose|a: int, b: int|
            0 <= a < b < refs.len() && #[trigger] refs[a] == f[lo] && #[trigger] refs[b] == f[hi];
        assert(is_latest(refs, f[i]) && is_latest(refs, f[j]));
        assert(parse_u32_spec(refs[a].version@) is Some && refs[b].id@ == refs[a].id@);
        assert(parse_u32_spec(refs[b].version@) is Some && refs[a].id@ == refs[b].id@);
    }
}

/// Every reference that filtering keeps carries the highest version number
/// found for its rule.
pub proof fn law_filter_keeps_highest(refs: Seq<Ref>, k: int, j: int)
    requires
        0 <= k < filter_latest(refs).len(),
        0 <= j < refs.len(),
        refs[j].id@ == filter_latest(refs)[k].id@,
    ensures
        version_number(refs[j].version@) <= version_number(filter_latest(refs)[k].version@),
{
    let pred = |r: Ref| is_latest(refs, r);
    refs.lemma_filter_pred(pred, k);
    let r = filter_latest(refs)[k];
    lemma_latest_version(refs, r.id@);
}


/// `.rule`.
pub open spec fn rule_ext() -> Seq<char> {
    seq!['.', 'r', 'u', 'l', 'e']
}

/// The file of version `version` of rule `id`:
/// `./data/rules/<id>/<version>.rule`.
pub open spec fn version_path(id: Seq<char>, version: Seq<char>) -> Seq<char> {
    path_join(rule_dir_spec(id), version + rule_ext())
}

/// The file of version `version` of rule `id` (see `version_path`).
pub fn rule_path(id: &String, version: &String) -> (r: String)
    ensures
        r@ == version_path(id@, version@),
{
    let dir = rule_dir(id);
    let f = concat(version.as_str(), ".rule");
    proof {
        reveal_strlit(".rule");
        assert(".rule"@ =~= rule_ext());
    }
    join(dir.as_str(), f.as_str())
}

/// `n` placeholders `?`, separated by commas.
pub open spec fn placeholders(n: nat) -> Seq<char>
    decreases n,
{
    if n == 0 {
        Seq::empty()
    } else if n == 1 {
        seq!['?']
    } else {
        placeholders((n - 1) as nat) + seq![',', '?']
    }
}

/// The text of the query for rules in effect in a context and applicable
/// to some keys, before its list of key placeholders.
pub open spec fn find_query_head() -> Seq<char> {
    "SELECT DISTINCT e.rule_id, e.version\n         FROM in_effect AS e\n         JOIN applicable AS a ON e.rule_id=a.rule_id AND e.version=a.version\n         WHERE e.jurisdiction=? AND e.tz=? AND a.key IN ("@
}

/// The query for the rule versions in effect in a jurisdiction and time
/// zone that apply to one of `n_keys` keys: `jurisdiction` and `tz` are its
/// first two parameters, the keys the rest.
pub fn find_query(n_keys: usize) -> (r: String)
    ensures
        r@ == find_query_head() + placeholders(n_keys as nat) + seq![')'],
{
    let mut q = str_to_string("SELECT DISTINCT e.rule_id, e.version\n         FROM in_effect AS e\n         JOIN applicable AS a ON e.rule_id=a.rule_id AND e.version=a.version\n         WHERE e.jurisdiction=? AND e.tz=? AND a.key IN (");
    let ghost head = q@;
    let mut i: usize = 0;
    while i < n_keys
        invariant
            i <= n_keys,
            q@ == head + placeholders(i as nat),
        decreases n_keys - i,
    {
        if i > 0 {
            string_push(&mut q, ',');
        }
        string_push(&mut q, '?');
        proof {
            if i == 0 {
                assert(head + placeholders(0) =~= head);
                assert(placeholders(1) =~= seq!['?']);
            } else {
                assert(placeholders((i + 1) as nat) == placeholders(i as nat) + seq![',', '?']);
            }
        }
        assert(q@ =~= head + placeholders((i + 1) as nat));
        i += 1;
    }
    string_push(&mut q, ')');
    q
}

/// The parameters of that query: the jurisdiction, the time zone, then the
/// keys.
pub fn find_args(jurisdiction: &String, tz: &String, keys: &Vec<String>) -> (r: Vec<String>)
    ensures
        views(r@) == seq![jurisdiction@, tz@] + views(keys@),
{
    let mut r: Vec<String> = Vec::new();
    r.push(jurisdiction.clone());
    r.push(tz.clone());
    let mut i: usize = 0;
    while i < keys.len()
        invariant
            i <= keys.len(),
            views(r@) == seq![jurisdiction@, tz@] + views(keys@.take(i as int)),
        decreases keys.len() - i,
    {
        let ghost before = r@;
        r.push(keys[i].clone());
        assert(views(r@) =~= views(before).push(keys@[i as int]@));
        assert(views(keys@.take(i + 1)) =~= views(keys@.take(i as int)).push(keys@[i as int]@));
        i += 1;
    }
    assert(keys@.take(keys.len() as int) == keys@);
    r
}


proof fn lemma_member_keys_listed(members: Seq<(String, Json)>, j: int)
    requires
        0 <= j < members.len(),
    ensures
        member_paths(members).contains(members[j].0@),
    decreases members.len(),
{
    let n = members.len() - 1;
    let prefix = members.subrange(0, n);
    let k = members[n].0@;
    let whole = member_paths(prefix) + seq![k] + prefixed(k, key_paths(members[n].1, false));
    if j < n {
        lemma_member_keys_listed(prefix, j);
        assert(prefix[j] == members[j]);
        let w = choose|w: int| 0 <= w < member_paths(prefix).len() && member_paths(prefix)[w] == members[j].0@;
        assert(whole[w] == members[j].0@);
    } else {
        assert(whole[member_paths(prefix).len() as int] == k);
    }
}

/// The paths listed for the elements of an array include, for element `i`,
/// the segment `[i]` and that segment followed at once by each path the
/// element has of its own.
proof fn lemma_element_paths_contain(items: Seq<Json>, i: int, p: Seq<char>)
    requires
        0 <= i < items.len(),
    ensures
        element_paths(items).contains(seq!['['] + decimal(i as nat) + seq![']']),
        key_paths(items[i], false).contains(p) ==> element_paths(items).contains(
            seq!['['] + decimal(i as nat) + seq![']'] + p,
        ),
    decreases items.len(),
{
    let n = items.len() - 1;
    let t = items.subrange(0, n);
    let seg = index_segment(n as nat);
    let kp = key_paths(items[n], false);
    let ep = element_paths(items);
    let et = element_paths(t);
    assert(ep == et + seq![seg] + prefixed(seg, kp));
    if i < n {
        assert(t[i] == items[i]);
        lemma_element_paths_contain(t, i, p);
        let x = seq!['['] + decimal(i as nat) + seq![']'];
        let k = choose|k: int| 0 <= k < et.len() && et[k] == x;
        assert(ep[k] == x);
        if key_paths(items[i], false).contains(p) {
            let k2 = choose|k2: int| 0 <= k2 < et.len() && et[k2] == x + p;
            assert(ep[k2] == x + p);
        }
    } else {
        assert(ep[et.len() as int] == seg);
        if key_paths(items[i], false).contains(p) {
            let k = choose|k: int| 0 <= k < kp.len() && kp[k] == p;
            assert(prefixed(seg, kp)[k] == seg + p);
            assert(ep[et.len() + 1 + k] == seg + p);
        }
    }
}

/// Below an array element, every path is the element's segment `[i]` (its
/// index in decimal between brackets) followed at once, with nothing in
/// between, by a path the element has of its own; the segment itself is
/// listed too. This holds whatever the element is, an array among others.
pub proof fn law_element_paths_follow_index(items: Vec<Json>, i: int, p: Seq<char>, at_root: bool)
    requires
        0 <= i < items@.len(),
        key_paths(items@[i], false).contains(p),
    ensures
        key_paths(Json::Array(items), at_root).contains(seq!['['] + decimal(i as nat) + seq![']']),
        key_paths(Json::Array(items), at_root).contains(seq!['['] + decimal(i as nat) + seq![']'] + p),
{
    lemma_element_paths_contain(items@, i, p);
}

/// Every key of a document that is an object is one of its key paths.
pub proof fn law_top_level_keys_listed(members: Vec<(String, Json)>, j: int)
    requires
        0 <= j < members@.len(),
    ensures
        key_paths(Json::Object(members), true).contains(members@[j].0@),
{
    lemma_member_keys_listed(members@, j);
}

} // verus!
