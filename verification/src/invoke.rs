//! The evaluation of a rule's conditions against a document: which of the
//! rule's scenarios the document falls under.
use vstd::prelude::*;
use crate::json::{Json, bool_text, json_index, number_text, str_to_string};
use crate::rules::{Case, Condition, Value, comparable, value_matches};

verus! {

/// The text of `doc[k]` that a condition compares: a string as it is,
/// `true` or `false`, a number as `serde_json` renders it, and the empty
/// text for anything else.
pub open spec fn fetch_text(doc: Json, k: Seq<char>) -> Seq<char> {
    match json_index(doc, k) {
        Json::String(s) => s@,
        Json::Bool(b) => bool_text(b),
        Json::Number(n) => number_text(n),
        _ => Seq::empty(),
    }
}

/// The text of `doc[k]` (see `fetch_text`).
pub fn fetch(doc: &Json, k: &String) -> (r: String)
    ensures
        r@ == fetch_text(*doc, k@),
{
    match doc.get(k.as_str()) {
        Some(v) => match v {
            Json::String(s) => s.clone(),
            Json::Bool(b) => {
                if *b {
                    let t = str_to_string("true");
                    proof {
                        reveal_strlit("true");
                        assert(t@ =~= bool_text(true));
                    }
                    t
                } else {
                    let f = str_to_string("false");
                    proof {
                        reveal_strlit("false");
                        assert(f@ =~= bool_text(false));
                    }
                    f
                }
            },
            Json::Number(n) => n.to_text(),
            _ => String::new(),
        },
        None => String::new(),
    }
}

/// Whether a condition's outcome `c` holds when the condition's comparison
/// came out as `m`. `Maybe` and `Both` always hold, `Invalid` never.
pub open spec fn case_holds(c: Case, m: bool) -> bool {
    match c {
        Case::False => !m,
        Case::True => m,
        Case::Maybe => true,
        Case::Both => true,
        Case::Invalid => false,
    }
}

/// Whether the document's value under the condition's key matches the
/// condition's value.
pub open spec fn cond_matches(c: Condition, doc: Json) -> bool {
    value_matches(c.val, fetch_text(doc, c.key@))
}

/// The document falls under scenario `i`: every condition has an outcome
/// for scenario `i`, and that outcome holds for the document.
pub open spec fn scenario_holds(conds: Seq<Condition>, doc: Json, i: int) -> bool {
    forall|j: int|
        0 <= j < conds.len() ==> i < (#[trigger] conds[j]).cases@.len() && case_holds(
            conds[j].cases@[i],
            cond_matches(conds[j], doc),
        )
}

/// The conditions can be evaluated against `doc`: there is at least one,
/// none has more than 64 scenarios, and every number compared with is
/// compared with text that reads as a number.
pub open spec fn evaluable(conds: Seq<Condition>, doc: Json) -> bool {
    &&& conds.len() > 0
    &&& forall|j: int| 0 <= j < conds.len() ==> (#[trigger] conds[j]).cases@.len() <= 64
    &&& forall|j: int|
        0 <= j < conds.len() ==> comparable((#[trigger] conds[j]).val, fetch_text(doc, conds[j].key@))
}

/// Bit `k` of `x`.
pub open spec fn bit(x: u64, k: u64) -> bool {
    (x >> k) & 1u64 == 1u64
}

proof fn lemma_bit_set(a: u64, i: u64, k: u64)
    by (bit_vector)
    requires
        i < 64,
        k < 64,
    ensures
        bit(a | (1u64 << i), k) == (bit(a, k) || k == i),
{
}

proof fn lemma_bit_and(a: u64, b: u64, k: u64)
    by (bit_vector)
    requires
        k < 64,
    ensures
        bit(a & b, k) == (bit(a, k) && bit(b, k)),
{
}

proof fn lemma_bit_ends(k: u64)
    by (bit_vector)
    requires
        k < 64,
    ensures
        !bit(0u64, k),
        bit(0xffff_ffff_ffff_ffffu64, k),
{
}

proof fn lemma_bit_test(a: u64, k: u64)
    by (bit_vector)
    requires
        k < 64,
    ensures
        ((a & (1u64 << k)) > 0) == bit(a, k),
{
}

/// For each scenario of the first condition, whether the document falls
/// under it (see `scenario_holds`).
pub fn eval_conds(conds: &Vec<Condition>, doc: &Json) -> (r: Vec<bool>)
    requires
        evaluable(conds@, *doc),
    ensures
        r@.len() == conds@[0].cases@.len(),
        forall|i: int| 0 <= i < r@.len() ==> r@[i] == scenario_holds(conds@, *doc, i),
{
    let mut result: u64 = 0xffff_ffff_ffff_ffffu64;
    let mut j: usize = 0;
    assert forall|k: u64| k < 64 implies #[trigger] bit(result, k) by {
        lemma_bit_ends(k);
    }
    while j < conds.len()
        invariant
            j <= conds.len(),
            evaluable(conds@, *doc),
            forall|k: u64|
                k < 64 ==> (#[trigger] bit(result, k) <==> forall|jj: int|
                    0 <= jj < j ==> k < (#[trigger] conds@[jj]).cases@.len() && case_holds(
                        conds@[jj].cases@[k as int],
                        cond_matches(conds@[jj], *doc),
                    )),
        decreases conds.len() - j,
    {
        let cond = &conds[j];
        let ac_val = fetch(doc, &cond.key);
        let matches = Value::matches(&cond.val, &ac_val);
        let mut case_bits: u64 = 0;
        let mut i: usize = 0;
        assert forall|k: u64| k < 64 implies !#[trigger] bit(case_bits, k) by {
            lemma_bit_ends(k);
        }
        while i < cond.cases.len()
            invariant
                i <= cond.cases@.len() <= 64,
                forall|k: u64|
                    k < 64 ==> (#[trigger] bit(case_bits, k) <==> (k < i && case_holds(
                        cond.cases@[k as int],
                        matches,
                    ))),
            decreases cond.cases.len() - i,
        {
            let b = match cond.cases[i] {
                Case::False => !matches,
                Case::True => matches,
                Case::Maybe => true,
                Case::Both => true,
                Case::Invalid => false,
            };
            let ghost before = case_bits;
            if b {
                case_bits = case_bits | (1u64 << (i as u64));
            }
            assert forall|k: u64| k < 64 implies (#[trigger] bit(case_bits, k) <==> (k < i + 1
                && case_holds(cond.cases@[k as int], matches))) by {
                if b {
                    lemma_bit_set(before, i as u64, k);
                }
            }
            i += 1;
        }
        let ghost before = result;
        result = result & case_bits;
        assert forall|k: u64| k < 64 implies (#[trigger] bit(result, k) <==> forall|jj: int|
            0 <= jj < j + 1 ==> k < (#[trigger] conds@[jj]).cases@.len() && case_holds(
                conds@[jj].cases@[k as int],
                cond_matches(conds@[jj], *doc),
            )) by {
            lemma_bit_and(before, case_bits, k);
            if bit(result, k) {
                assert forall|jj: int| 0 <= jj < j + 1 implies k < (#[trigger] conds@[jj]).cases@.len()
                    && case_holds(conds@[jj].cases@[k as int], cond_matches(conds@[jj], *doc)) by {
                    if jj < j {
                    }
                }
            } else {
                if bit(before, k) {
                    assert(!bit(case_bits, k));
                    assert(!(k < conds@[j as int].cases@.len() && case_holds(
                        conds@[j as int].cases@[k as int],
                        cond_matches(conds@[j as int], *doc),
                    )));
                }
            }
        }
        j += 1;
    }
    let len = conds[0].cases.len();
    let mut out: Vec<bool> = Vec::new();
    let mut i: usize = 0;
    while i < len
        invariant
            i <= len <= 64,
            conds@.len() > 0,
            len == conds@[0].cases@.len(),
            out@.len() == i,
            forall|k: u64|
                k < 64 ==> (#[trigger] bit(result, k) <==> forall|jj: int|
                    0 <= jj < conds@.len() ==> k < (#[trigger] conds@[jj]).cases@.len() && case_holds(
                        conds@[jj].cases@[k as int],
                        cond_matches(conds@[jj], *doc),
                    )),
            forall|ii: int| 0 <= ii < i ==> out@[ii] == scenario_holds(conds@, *doc, ii),
        decreases len - i,
    {
        proof {
            lemma_bit_test(result, i as u64);
            assert(bit(result, i as u64) == scenario_holds(conds@, *doc, i as int));
        }
        out.push((result & (1u64 << (i as u64))) > 0);
        i += 1;
    }
    out
}


/// The numbers of the scenarios that hold, in order.
pub open spec fn holding_indices(holds: Seq<bool>) -> Seq<usize>
    decreases holds.len(),
{
    if holds.len() == 0 {
        Seq::empty()
    } else {
        let rest = holding_indices(holds.drop_last());
        if holds.last() {
            rest.push((holds.len() - 1) as usize)
        } else {
            rest
        }
    }
}

/// The numbers of the scenarios that hold (see `holding_indices`).
pub fn scenario_indices(holds: &Vec<bool>) -> (r: Vec<usize>)
    ensures
        r@ == holding_indices(holds@),
{
    let mut r: Vec<usize> = Vec::new();
    let mut i: usize = 0;
    while i < holds.len()
        invariant
            i <= holds.len(),
            r@ == holding_indices(holds@.take(i as int)),
        decreases holds.len() - i,
    {
        assert(holds@.take(i + 1).drop_last() == holds@.take(i as int));
        if holds[i] {
            r.push(i);
        }
        i += 1;
    }
    assert(holds@.take(holds.len() as int) == holds@);
    r
}

/// The scenarios listed are exactly those that hold: a scenario is listed
/// if and only if it holds, every number listed is that of a scenario that
/// holds, and the numbers rise strictly, so none is listed twice.
pub proof fn law_scenario_indices_exact(holds: Seq<bool>)
    requires
        holds.len() <= usize::MAX,
    ensures
        forall|i: int| 0 <= i < holds.len() ==> (holds[i] <==> holding_indices(holds).contains(i as usize)),
        forall|j: int|
            0 <= j < holding_indices(holds).len() ==> (#[trigger] holding_indices(holds)[j]) < holds.len()
                && holds[holding_indices(holds)[j] as int],
        forall|a: int, b: int|
            0 <= a < b < holding_indices(holds).len() ==> holding_indices(holds)[a] < holding_indices(holds)[b],
    decreases holds.len(),
{
    if holds.len() > 0 {
        let t = holds.drop_last();
        law_scenario_indices_exact(t);
        let rest = holding_indices(t);
        let r = holding_indices(holds);
        let n = holds.len() - 1;
        assert forall|i: int| 0 <= i < holds.len() implies (holds[i] <==> r.contains(i as usize)) by {
            if i < n {
                assert(holds[i] == t[i]);
                if holds.last() {
                    assert(r == rest.push(n as usize));
                    if rest.contains(i as usize) {
                        let k = choose|k: int| 0 <= k < rest.len() && rest[k] == i as usize;
                        assert(r[k] == i as usize);
                    }
                    if r.contains(i as usize) {
                        let k = choose|k: int| 0 <= k < r.len() && r[k] == i as usize;
                        if k < rest.len() {
                            assert(rest[k] == i as usize);
                        } else {
                            assert(r[k] == n as usize);
                        }
                    }
                }
            } else {
                if holds.last() {
                    assert(r[r.len() - 1] == n as usize);
                } else {
                    assert(r == rest);
                    if r.contains(i as usize) {
                        let k = choose|k: int| 0 <= k < r.len() && r[k] == i as usize;
                        assert(rest[k] < t.len());
                    }
                }
            }
        }
        assert forall|j: int| 0 <= j < r.len() implies (#[trigger] r[j]) < holds.len() && holds[r[j] as int] by {
            if j < rest.len() {
                assert(r[j] == rest[j]);
                assert(holds[rest[j] as int] == t[rest[j] as int]);
            }
        }
        assert forall|a: int, b: int| 0 <= a < b < r.len() implies r[a] < r[b] by {
            assert(r[a] == rest[a]);
            if b < rest.len() {
                assert(r[b] == rest[b]);
            } else {
                assert(rest[a] < t.len());
            }
        }
    }
}

/// Adding a condition to a rule can only take scenarios away: a document
/// that falls under a scenario with the extra condition falls under it
/// without.
pub proof fn law_added_condition_narrows(conds: Seq<Condition>, c: Condition, doc: Json, i: int)
    requires
        scenario_holds(conds.push(c), doc, i),
    ensures
        scenario_holds(conds, doc, i),
{
    assert forall|j: int| 0 <= j < conds.len() implies i < (#[trigger] conds[j]).cases@.len() && case_holds(
        conds[j].cases@[i],
        cond_matches(conds[j], doc),
    ) by {
        assert(conds.push(c)[j] == conds[j]);
    }
}

/// The order of a rule's conditions does not matter: two lists holding
/// the same conditions put a document under the same scenarios.
pub proof fn law_condition_order_irrelevant(a: Seq<Condition>, b: Seq<Condition>, doc: Json, i: int)
    requires
        forall|c: Condition| a.contains(c) <==> b.contains(c),
    ensures
        scenario_holds(a, doc, i) == scenario_holds(b, doc, i),
{
    if scenario_holds(a, doc, i) {
        assert forall|j: int| 0 <= j < b.len() implies i < (#[trigger] b[j]).cases@.len() && case_holds(
            b[j].cases@[i],
            cond_matches(b[j], doc),
        ) by {
            assert(b.contains(b[j]));
            let k = choose|k: int| 0 <= k < a.len() && a[k] == b[j];
        }
    }
    if scenario_holds(b, doc, i) {
        assert forall|j: int| 0 <= j < a.len() implies i < (#[trigger] a[j]).cases@.len() && case_holds(
            a[j].cases@[i],
            cond_matches(a[j], doc),
        ) by {
            assert(a.contains(a[j]));
            let k = choose|k: int| 0 <= k < b.len() && b[k] == a[j];
        }
    }
}

/// A scenario for which a condition's outcome is `Maybe` or `Both` is not
/// narrowed by that condition.
pub proof fn law_maybe_and_both_never_exclude(conds: Seq<Condition>, c: Condition, doc: Json, i: int)
    requires
        0 <= i < c.cases@.len(),
        c.cases@[i] == Case::Maybe || c.cases@[i] == Case::Both,
    ensures
        scenario_holds(conds.push(c), doc, i) == scenario_holds(conds, doc, i),
{
    if scenario_holds(conds, doc, i) {
        assert forall|j: int| 0 <= j < conds.push(c).len() implies i < (#[trigger] conds.push(c)[j]).cases@.len()
            && case_holds(conds.push(c)[j].cases@[i], cond_matches(conds.push(c)[j], doc)) by {
            if j < conds.len() {
                assert(conds.push(c)[j] == conds[j]);
            }
        }
    }
    if scenario_holds(conds.push(c), doc, i) {
        law_added_condition_narrows(conds, c, doc, i);
    }
}

} // verus!
