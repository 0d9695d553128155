//! The rule reserve's reply to an evaluation request: where the rule's
//! file is, and how the scenarios found and assertion outcomes are named.
use vstd::prelude::*;
use crate::json::{concat, str_to_string};
use crate::path::join;
use crate::rule::rule_dir;
use crate::invoke::{eval_conds, evaluable, holding_indices, scenario_holds, scenario_indices};
use crate::json::Json;
use crate::rules::{Assertion, Case, Condition, Rule, picked_cases};
use crate::select::version_path;
use crate::outside::string_push;

verus! {

/// The file of version `version` of rule `id`:
/// `./data/rules/<id>/<version>.rule`.
pub fn rule_path(id: &str, version: &str) -> (r: String)
    ensures
        r@ == version_path(id@, version@),
{
    crate::select::rule_path(&str_to_string(id), &str_to_string(version))
}

/// The label of scenario `i`: `A` to `H` for the first eight, `?` after.
pub open spec fn case_label(i: usize) -> char {
    if i < 8 {
        (('A' as u8) + (i as u8)) as char
    } else {
        '?'
    }
}

/// Scenarios are labelled by consecutive capital letters from `A`: the
/// first is `A`, each of the first eight is the letter after the label of
/// the one before, they all lie within `A`..`H` (so no two share a label
/// and none is `?`), and every scenario after the eighth is `?`.
pub proof fn law_case_labels(i: usize)
    ensures
        case_label(0) == 'A',
        i < 7 ==> case_label((i + 1) as usize) as u32 == case_label(i) as u32 + 1,
        i < 8 ==> 'A' <= case_label(i) && case_label(i) <= 'H',
        i >= 8 ==> case_label(i) == '?',
{
    assert(('A' as u8) == 65u8);
    assert(case_label(0) as u32 == 65);
    if i < 8 {
        assert(case_label(i) as u32 == 65 + i);
        if i < 7 {
            assert(case_label((i + 1) as usize) as u32 == 65 + i + 1);
        }
    }
}

/// `Case <label>`.
pub open spec fn case_part(i: usize) -> Seq<char> {
    "Case "@.push(case_label(i))
}

/// The parts for `idxs`, separated by `, `.
pub open spec fn joined_cases(idxs: Seq<usize>) -> Seq<char>
    decreases idxs.len(),
{
    if idxs.len() == 0 {
        Seq::empty()
    } else if idxs.len() == 1 {
        case_part(idxs[0])
    } else {
        joined_cases(idxs.drop_last()) + ", "@ + case_part(idxs.last())
    }
}

/// How the scenarios a document falls under are described: `No matching
/// scenario` for none, else `Case A, Case C, ...`.
pub open spec fn scenario_text(idxs: Seq<usize>) -> Seq<char> {
    if idxs.len() == 0 {
        "No matching scenario"@
    } else {
        joined_cases(idxs)
    }
}

fn case_part_string(i: usize) -> (r: String)
    ensures
        r@ == case_part(i),
{
    let mut s = str_to_string("Case ");
    let c: char = if i < 8 { (('A' as u8) + (i as u8)) as char } else { '?' };
    string_push(&mut s, c);
    s
}

/// The description of the scenarios numbered `idxs` (see `scenario_text`).
pub fn scenario_description(idxs: &Vec<usize>) -> (r: String)
    ensures
        r@ == scenario_text(idxs@),
{
    if idxs.len() == 0 {
        return str_to_string("No matching scenario");
    }
    let mut s = case_part_string(idxs[0]);
    let mut i: usize = 1;
    assert(idxs@.take(1) =~= seq![idxs@[0]]);
    while i < idxs.len()
        invariant
            1 <= i <= idxs.len(),
            s@ == joined_cases(idxs@.take(i as int)),
        decreases idxs.len() - i,
    {
        let with_sep = concat(s.as_str(), ", ");
        let part = case_part_string(idxs[i]);
        s = concat(with_sep.as_str(), part.as_str());
        assert(idxs@.take(i + 1).drop_last() == idxs@.take(i as int));
        assert(idxs@.take(i + 1).last() == idxs@[i as int]);
        i += 1;
    }
    assert(idxs@.take(idxs.len() as int) == idxs@);
    s
}

/// The word for the outcome of an assertion.
pub open spec fn outcome_text(c: Case) -> Seq<char> {
    match c {
        Case::True => "TRUE"@,
        Case::False => "FALSE"@,
        Case::Maybe => "MAYBE"@,
        Case::Both => "TRUE (and possibly false)"@,
        Case::Invalid => "INVALID"@,
    }
}

/// The word for the outcome of an assertion (see `outcome_text`).
pub fn outcome_label(c: Case) -> (r: String)
    ensures
        r@ == outcome_text(c),
{
    match c {
        Case::True => str_to_string("TRUE"),
        Case::False => str_to_string("FALSE"),
        Case::Maybe => str_to_string("MAYBE"),
        Case::Both => str_to_string("TRUE (and possibly false)"),
        Case::Invalid => str_to_string("INVALID"),
    }
}

/// One line of a reply: an asserted key and the word for its outcome.
#[derive(Debug)]
pub struct AssertionResult {
    pub key: String,
    pub outcome: String,
}

/// The reply to an evaluation request: the rule and version evaluated,
/// the scenarios the document falls under, and the outcome of each
/// asserted key.
#[derive(Debug)]
pub struct RsResponse {
    pub rule_id: String,
    pub version: String,
    pub scenario: String,
    pub assertions: Vec<AssertionResult>,
}

/// For each scenario of the first condition, whether the document falls
/// under it.
pub open spec fn scenario_flags(conds: Seq<Condition>, doc: Json) -> Seq<bool> {
    Seq::new(conds[0].cases@.len(), |i: int| scenario_holds(conds, doc, i))
}

/// Each asserted key beside the word for the outcome at the same place,
/// as far as both lists go.
pub open spec fn paired_outcomes(vals: Seq<(Seq<char>, Seq<char>)>, cases: Seq<Case>) -> Seq<(Seq<char>, Seq<char>)> {
    let n = if vals.len() <= cases.len() { vals.len() } else { cases.len() };
    Seq::new(n, |i: int| (vals[i].0, outcome_text(cases[i])))
}

/// The lines for `asrts` in turn, each narrowed to the scenarios `idxs`.
pub open spec fn assertion_outcomes(asrts: Seq<Assertion>, idxs: Seq<usize>) -> Seq<(Seq<char>, Seq<char>)>
    decreases asrts.len(),
{
    if asrts.len() == 0 {
        Seq::empty()
    } else {
        assertion_outcomes(asrts.drop_last(), idxs) + paired_outcomes(
            asrts.last().values(),
            picked_cases(asrts.last().case_list(), idxs),
        )
    }
}

/// The lines of a reply as (key, word) pairs.
pub open spec fn results_view(rs: Seq<AssertionResult>) -> Seq<(Seq<char>, Seq<char>)> {
    rs.map_values(|a: AssertionResult| (a.key@, a.outcome@))
}

/// The reply for version `version` of rule `rule_id`, whose text is
/// `rule`, evaluated against `doc`: the scenarios the document falls under
/// (see `scenario_text`), and each assertion narrowed to them.
pub fn evaluate(rule_id: String, version: String, rule: &Rule, doc: &Json) -> (r: RsResponse)
    requires
        evaluable(rule.condition_list(), *doc),
    ensures
        r.rule_id == rule_id,
        r.version == version,
        r.scenario@ == scenario_text(holding_indices(scenario_flags(rule.condition_list(), *doc))),
        results_view(r.assertions@) == assertion_outcomes(
            rule.assertion_list(),
            holding_indices(scenario_flags(rule.condition_list(), *doc)),
        ),
{
    let conds = rule.conditions();
    let flags = eval_conds(conds, doc);
    assert(flags@ =~= scenario_flags(rule.condition_list(), *doc));
    let idxs = scenario_indices(&flags);
    let scenario = scenario_description(&idxs);
    let asrts = rule.assertions();
    let mut out: Vec<AssertionResult> = Vec::new();
    let mut i: usize = 0;
    while i < asrts.len()
        invariant
            i <= asrts@.len(),
            asrts@ == rule.assertion_list(),
            results_view(out@) == assertion_outcomes(asrts@.take(i as int), idxs@),
        decreases asrts.len() - i,
    {
        let reduced = asrts[i].reduce(&idxs);
        let keys = reduced.keys();
        let cases = reduced.cases();
        let ghost before = out@;
        let ghost pairs = paired_outcomes(asrts@[i as int].values(), picked_cases(asrts@[i as int].case_list(), idxs@));
        let mut k: usize = 0;
        while k < keys.len() && k < cases.len()
            invariant
                i < asrts@.len(),
                k <= keys@.len(),
                k <= cases@.len(),
                pairs == paired_outcomes(asrts@[i as int].values(), cases@),
                keys@.len() == asrts@[i as int].values().len(),
                forall|j: int| 0 <= j < keys@.len() ==> (#[trigger] keys@[j])@ == asrts@[i as int].values()[j].0,
                cases@ == picked_cases(asrts@[i as int].case_list(), idxs@),
                results_view(out@) == results_view(before) + pairs.take(k as int),
            decreases keys.len() - k,
        {
            let ghost prev = out@;
            let line = AssertionResult { key: keys[k].clone(), outcome: outcome_label(cases[k]) };
            assert((line.key@, line.outcome@) == pairs[k as int]);
            out.push(line);
            assert(results_view(out@) =~= results_view(prev).push(pairs[k as int]));
            assert(pairs.take(k + 1) =~= pairs.take(k as int).push(pairs[k as int]));
            assert(results_view(out@) =~= results_view(before) + pairs.take(k + 1));
            k += 1;
        }
        assert(pairs.take(k as int) =~= pairs);
        assert(asrts@.take(i + 1).drop_last() =~= asrts@.take(i as int));
        i += 1;
    }
    assert(asrts@.take(asrts.len() as int) =~= asrts@);
    RsResponse { rule_id: rule_id, version: version, scenario: scenario, assertions: out }
}

} // verus!
