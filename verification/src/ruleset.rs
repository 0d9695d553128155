//! Reading a rule from its JSON form.
//!
//! A rule document is an object. Its string members are the rule's
//! properties (`id` names the property `ID`); `in_effect` lists objects with
//! the string members `in`, `from`, `to` and `tz`; `input_conditions` lists
//! objects with an `expression` (`key`, `op`, `value`) and `cases`;
//! `assertions` lists objects with `key`, `value` and `cases`. A case is one
//! of the words `true`, `false`, `maybe` and `both`; anything else stands
//! for an invalid outcome.
use vstd::prelude::*;
use crate::json::{Json, member_lookup, str_eq};
use crate::outside::{is_uuid_v4_text, naive_datetime_seconds, tz_name_known};
use crate::rules::{
    Assertion, Case, Condition, InEffect, Op, Rule, date_format, id_key, opt_seconds, opt_view, parsed_value,
    value_readable,
};

verus! {

/// The member `k` of `j`, where `j` is an object that has one.
pub open spec fn member_of(j: Json, k: Seq<char>) -> Option<Json> {
    match j {
        Json::Object(m) => member_lookup(m@, k),
        _ => None,
    }
}

/// The text of the member `k` of `j`, where it is a string.
pub open spec fn text_member(j: Json, k: Seq<char>) -> Option<Seq<char>> {
    match member_of(j, k) {
        Some(Json::String(s)) => Some(s@),
        _ => None,
    }
}

/// The elements of the member `k` of `j`, where it is an array; none
/// otherwise.
pub open spec fn list_member(j: Json, k: Seq<char>) -> Seq<Json> {
    match member_of(j, k) {
        Some(Json::Array(a)) => a@,
        _ => Seq::empty(),
    }
}

/// The text, or the empty text for none.
pub open spec fn text_or_empty(t: Option<Seq<char>>) -> Seq<char> {
    match t {
        Some(s) => s,
        None => Seq::empty(),
    }
}

/// The outcome a word names.
pub open spec fn case_named(t: Seq<char>) -> Case {
    if t == "true"@ {
        Case::True
    } else if t == "false"@ {
        Case::False
    } else if t == "maybe"@ {
        Case::Maybe
    } else if t == "both"@ {
        Case::Both
    } else {
        Case::Invalid
    }
}

/// The outcome a JSON value names: a string by its word, anything else
/// invalid.
pub open spec fn case_of_json(j: Json) -> Case {
    match j {
        Json::String(s) => case_named(s@),
        _ => Case::Invalid,
    }
}

/// The outcomes an optional JSON array names, one per element; none where
/// it is no array.
pub open spec fn cases_of_json(o: Option<Json>) -> Seq<Case> {
    match o {
        Some(Json::Array(a)) => a@.map_values(|j: Json| case_of_json(j)),
        _ => Seq::empty(),
    }
}

/// The comparison an optional word names.
pub open spec fn op_named(t: Option<Seq<char>>) -> Op {
    match t {
        Some(s) => if s == "eq"@ {
            Op::Eq
        } else if s == "neq"@ {
            Op::Neq
        } else if s == "lt"@ {
            Op::Lt
        } else if s == "gt"@ {
            Op::Gt
        } else if s == "lte"@ {
            Op::Lte
        } else if s == "gte"@ {
            Op::Gte
        } else {
            Op::Unk
        },
        None => Op::Unk,
    }
}

/// The six comparison words, in the order of `Op`.
pub open spec fn op_words() -> Seq<Seq<char>> {
    seq!["eq"@, "neq"@, "lt"@, "gt"@, "lte"@, "gte"@]
}

/// Each of the six comparison words names a comparison of its own: `eq`,
/// `neq`, `lt`, `gt`, `lte` and `gte` name equality, inequality, less,
/// greater, at most and at least; no two of them name the same comparison,
/// none names the unknown one, and a missing word names the unknown one.
pub proof fn law_op_words_distinct()
    ensures
        op_named(Some("eq"@)) == Op::Eq,
        op_named(Some("neq"@)) == Op::Neq,
        op_named(Some("lt"@)) == Op::Lt,
        op_named(Some("gt"@)) == Op::Gt,
        op_named(Some("lte"@)) == Op::Lte,
        op_named(Some("gte"@)) == Op::Gte,
        forall|a: int, b: int|
            0 <= a < b < 6 ==> op_named(Some(#[trigger] op_words()[a]))
                != op_named(Some(#[trigger] op_words()[b])),
        forall|a: int|
            0 <= a < 6 ==> op_named(Some(#[trigger] op_words()[a])) != Op::Unk,
        op_named(None) == Op::Unk,
{
    reveal_strlit("eq");
    reveal_strlit("neq");
    reveal_strlit("lt");
    reveal_strlit("gt");
    reveal_strlit("lte");
    reveal_strlit("gte");
    let w = op_words();
    assert("eq"@.len() == 2 && "eq"@[0] == 'e');
    assert("neq"@.len() == 3 && "neq"@[0] == 'n');
    assert("lt"@.len() == 2 && "lt"@[0] == 'l' && "lt"@[1] == 't');
    assert("gt"@.len() == 2 && "gt"@[0] == 'g' && "gt"@[1] == 't');
    assert("lte"@.len() == 3 && "lte"@[0] == 'l');
    assert("gte"@.len() == 3 && "gte"@[0] == 'g');
    assert("eq"@ != "neq"@ && "eq"@ != "lt"@ && "eq"@ != "gt"@ && "eq"@ != "lte"@ && "eq"@ != "gte"@);
    assert("neq"@ != "lt"@ && "neq"@ != "gt"@ && "neq"@ != "lte"@ && "neq"@ != "gte"@);
    assert("lt"@ != "gt"@ && "lt"@ != "lte"@ && "lt"@ != "gte"@);
    assert("gt"@ != "lte"@ && "gt"@ != "gte"@);
    assert("lte"@ != "gte"@);
    assert(op_named(Some(w[0])) == Op::Eq && op_named(Some(w[1])) == Op::Neq && op_named(Some(w[2])) == Op::Lt
        && op_named(Some(w[3])) == Op::Gt && op_named(Some(w[4])) == Op::Lte && op_named(Some(w[5])) == Op::Gte);
}

/// The property a member key sets: `id` sets `ID`, any other key itself.
pub open spec fn prop_name(k: Seq<char>) -> Seq<char> {
    if k == "id"@ {
        id_key()
    } else {
        k
    }
}

/// The properties the string members of an object set, in order, each
/// replacing any earlier value.
pub open spec fn doc_props(m: Seq<(String, Json)>) -> Map<Seq<char>, Seq<char>>
    decreases m.len(),
{
    if m.len() == 0 {
        Map::empty()
    } else {
        let p = doc_props(m.drop_last());
        match m.last().1 {
            Json::String(v) => p.insert(prop_name(m.last().0@), v@),
            _ => p,
        }
    }
}

/// `e` is the in-effect record that the entry `j` describes: each of `in`,
/// `from`, `to` and `tz` that is a string is set (a date or a zone that
/// cannot be read is left unset), the others are unset.
pub open spec fn in_effect_entry(j: Json, e: InEffect) -> bool {
    &&& opt_view(e.jurisdiction) == text_member(j, "in"@)
    &&& opt_seconds(e.from) == match text_member(j, "from"@) {
        Some(t) => naive_datetime_seconds(t, date_format()),
        None => None,
    }
    &&& opt_seconds(e.to) == match text_member(j, "to"@) {
        Some(t) => naive_datetime_seconds(t, date_format()),
        None => None,
    }
    &&& opt_view(e.tz) == match text_member(j, "tz"@) {
        Some(z) => if tz_name_known(z) {
            Some(z)
        } else {
            None
        },
        None => None,
    }
}

/// Each field of an in-effect record is read from its own member alone:
/// two entries that agree on `in`, `from`, `to` or `tz` give records that
/// agree on the jurisdiction, the start, the end or the zone respectively,
/// whatever their other members hold; and an entry without one of these
/// string members leaves its field unset.
pub proof fn law_in_effect_fields_independent(j1: Json, e1: InEffect, j2: Json, e2: InEffect)
    requires
        in_effect_entry(j1, e1),
        in_effect_entry(j2, e2),
    ensures
        text_member(j1, "in"@) == text_member(j2, "in"@) ==> opt_view(e1.jurisdiction) == opt_view(e2.jurisdiction),
        text_member(j1, "from"@) == text_member(j2, "from"@) ==> opt_seconds(e1.from) == opt_seconds(e2.from),
        text_member(j1, "to"@) == text_member(j2, "to"@) ==> opt_seconds(e1.to) == opt_seconds(e2.to),
        text_member(j1, "tz"@) == text_member(j2, "tz"@) ==> opt_view(e1.tz) == opt_view(e2.tz),
        text_member(j1, "in"@) is None ==> e1.jurisdiction is None,
        text_member(j1, "from"@) is None ==> e1.from is None,
        text_member(j1, "to"@) is None ==> e1.to is None,
        text_member(j1, "tz"@) is None ==> e1.tz is None,
{
}

/// The entry `c` describes a condition: it has an `expression` with a
/// string `key`, and its `value` (the empty text where it has none) can be
/// read as a value.
pub open spec fn condition_ok(c: Json) -> bool {
    &&& member_of(c, "expression"@) is Some
    &&& text_member(member_of(c, "expression"@)->0, "key"@) is Some
    &&& value_readable(text_or_empty(text_member(member_of(c, "expression"@)->0, "value"@)))
}

/// `cond` is the condition that the entry `c` describes.
pub open spec fn condition_entry(c: Json, cond: Condition) -> bool {
    let e = member_of(c, "expression"@)->0;
    &&& cond.key@ == text_member(e, "key"@)->0
    &&& parsed_value(text_or_empty(text_member(e, "value"@)), cond.val)
    &&& cond.op == op_named(text_member(e, "op"@))
    &&& cond.cases@ == cases_of_json(member_of(c, "cases"@))
}

/// The entry `a` describes an assertion: it has a string `key`.
pub open spec fn assertion_ok(a: Json) -> bool {
    text_member(a, "key"@) is Some
}

/// `asrt` is the assertion that the entry `a` describes: its key and value
/// (the empty text where it has none), and its outcomes.
pub open spec fn assertion_entry(a: Json, asrt: Assertion) -> bool {
    &&& asrt.values() == seq![(text_member(a, "key"@)->0, text_or_empty(text_member(a, "value"@)))]
    &&& asrt.case_list() == cases_of_json(member_of(a, "cases"@))
}

/// A rule can be read from `doc`: it is an object, and every condition and
/// assertion it lists is complete.
pub open spec fn rule_readable(doc: Json) -> bool {
    &&& doc is Object
    &&& forall|i: int|
        0 <= i < list_member(doc, "input_conditions"@).len() ==> condition_ok(
            #[trigger] list_member(doc, "input_conditions"@)[i],
        )
    &&& forall|i: int|
        0 <= i < list_member(doc, "assertions"@).len() ==> assertion_ok(
            #[trigger] list_member(doc, "assertions"@)[i],
        )
}

/// The member `k` of `j` (see `member_of`).
fn member_ref<'a>(j: &'a Json, k: &str) -> (r: Option<&'a Json>)
    ensures
        match r {
            Some(v) => member_of(*j, k@) == Some(*v),
            None => member_of(*j, k@) is None,
        },
{
    j.get(k)
}

/// The text of the member `k` of `j` (see `text_member`).
fn text_of<'a>(j: &'a Json, k: &str) -> (r: Option<&'a str>)
    ensures
        match r {
            Some(s) => text_member(*j, k@) == Some(s@),
            None => text_member(*j, k@) is None,
        },
{
    match member_ref(j, k) {
        Some(v) => v.as_str(),
        None => None,
    }
}

/// The elements of the member `k` of `j` (see `list_member`).
fn list_of<'a>(j: &'a Json, k: &str) -> (r: Option<&'a Vec<Json>>)
    ensures
        match r {
            Some(a) => list_member(*j, k@) == a@,
            None => list_member(*j, k@) == Seq::<Json>::empty(),
        },
{
    match member_ref(j, k) {
        Some(Json::Array(a)) => Some(a),
        _ => None,
    }
}

/// The outcome `j` names (see `case_of_json`).
fn case_of(j: &Json) -> (r: Case)
    ensures
        r == case_of_json(*j),
{
    match j.as_str() {
        Some(s) => if str_eq(s, "true") {
            Case::True
        } else if str_eq(s, "false") {
            Case::False
        } else if str_eq(s, "maybe") {
            Case::Maybe
        } else if str_eq(s, "both") {
            Case::Both
        } else {
            Case::Invalid
        },
        None => Case::Invalid,
    }
}

/// The outcomes that the member `cases` of `j` names (see `cases_of_json`).
fn cases_of(j: &Json) -> (r: Vec<Case>)
    ensures
        r@ == cases_of_json(member_of(*j, "cases"@)),
{
    let mut r: Vec<Case> = Vec::new();
    match member_ref(j, "cases") {
        Some(Json::Array(a)) => {
            let mut i: usize = 0;
            while i < a.len()
                invariant
                    i <= a.len(),
                    r@ == a@.take(i as int).map_values(|j: Json| case_of_json(j)),
                decreases a.len() - i,
            {
                let c = case_of(&a[i]);
                r.push(c);
                assert(a@.take(i + 1).map_values(|j: Json| case_of_json(j)) =~= a@.take(i as int).map_values(
                    |j: Json| case_of_json(j),
                ).push(c));
                i += 1;
            }
            assert(a@.take(a.len() as int) == a@);
        },
        _ => {},
    }
    r
}

/// The comparison `t` names (see `op_named`).
fn op_of(t: Option<&str>) -> (r: Op)
    ensures
        r == op_named(
            match t {
                Some(s) => Some(s@),
                None => None,
            },
        ),
{
    match t {
        Some(s) => if str_eq(s, "eq") {
            Op::Eq
        } else if str_eq(s, "neq") {
            Op::Neq
        } else if str_eq(s, "lt") {
            Op::Lt
        } else if str_eq(s, "gt") {
            Op::Gt
        } else if str_eq(s, "lte") {
            Op::Lte
        } else if str_eq(s, "gte") {
            Op::Gte
        } else {
            Op::Unk
        },
        None => Op::Unk,
    }
}

/// The in-effect record that the entry `j` describes (see
/// `in_effect_entry`).
fn in_effect_of_entry(j: &Json) -> (r: InEffect)
    ensures
        in_effect_entry(*j, r),
{
    let mut e = InEffect::new();
    match text_of(j, "in") {
        Some(s) => e.set_jurisdiction(s),
        None => {},
    }
    match text_of(j, "from") {
        Some(s) => e.set_from(s),
        None => {},
    }
    match text_of(j, "to") {
        Some(s) => e.set_to(s),
        None => {},
    }
    match text_of(j, "tz") {
        Some(s) => e.set_tz(s),
        None => {},
    }
    e
}

/// The condition that the entry `c` describes, or `None` where it
/// describes none (see `condition_ok`).
fn condition_of_entry(c: &Json) -> (r: Option<Condition>)
    ensures
        match r {
            Some(cond) => condition_ok(*c) && condition_entry(*c, cond),
            None => !condition_ok(*c),
        },
{
    let e = match member_ref(c, "expression") {
        Some(e) => e,
        None => return None,
    };
    let key = match text_of(e, "key") {
        Some(k) => k,
        None => return None,
    };
    let value = match text_of(e, "value") {
        Some(v) => v,
        None => {
            proof {
                reveal_strlit("");
                assert(""@ =~= Seq::<char>::empty());
            }
            ""
        },
    };
    assert(value@ == text_or_empty(text_member(*e, "value"@)));
    let op = op_of(text_of(e, "op"));
    let cases = cases_of(c);
    Condition::try_new(key, value, op, &cases)
}

/// The assertion that the entry `a` describes, or `None` where it has no
/// key (see `assertion_ok`).
fn assertion_of_entry(a: &Json) -> (r: Option<Assertion>)
    ensures
        match r {
            Some(asrt) => assertion_ok(*a) && assertion_entry(*a, asrt),
            None => !assertion_ok(*a),
        },
{
    let key = match text_of(a, "key") {
        Some(k) => k,
        None => return None,
    };
    let value = match text_of(a, "value") {
        Some(v) => v,
        None => {
            proof {
                reveal_strlit("");
                assert(""@ =~= Seq::<char>::empty());
            }
            ""
        },
    };
    assert(value@ == text_or_empty(text_member(*a, "value"@)));
    Some(Assertion::new(key, value, &cases_of(a)))
}

/// The rule that the document `doc` describes, or `None` where it
/// describes none (see `rule_readable`). Its properties are those the
/// document's string members set, with a fresh random `ID` where they set
/// none; its in-effect records, conditions and assertions are those the
/// document lists, in order.
#[verifier::loop_isolation(false)]
pub fn rule_from_json(doc: &Json) -> (r: Option<Rule>)
    ensures
        r is Some <==> rule_readable(*doc),
        r matches Some(rule) ==> {
            let m = doc->Object_0@;
            let ies = list_member(*doc, "in_effect"@);
            let conds = list_member(*doc, "input_conditions"@);
            let asserts = list_member(*doc, "assertions"@);
            &&& doc_props(m).contains_key(id_key()) ==> rule.props_map() == doc_props(m)
            &&& !doc_props(m).contains_key(id_key()) ==> exists|id: Seq<char>|
                is_uuid_v4_text(id) && rule.props_map() == doc_props(m).insert(id_key(), id)
            &&& rule.in_effect_list().len() == ies.len()
            &&& forall|i: int| 0 <= i < ies.len() ==> in_effect_entry(ies[i], #[trigger] rule.in_effect_list()[i])
            &&& rule.condition_list().len() == conds.len()
            &&& forall|i: int| 0 <= i < conds.len() ==> condition_entry(conds[i], #[trigger] rule.condition_list()[i])
            &&& rule.assertion_list().len() == asserts.len()
            &&& forall|i: int|
                0 <= i < asserts.len() ==> assertion_entry(asserts[i], #[trigger] rule.assertion_list()[i])
        },
{
    let members = match doc {
        Json::Object(m) => m,
        _ => return None,
    };
    let mut rule = Rule::new();
    let mut i: usize = 0;
    while i < members.len()
        invariant
            i <= members.len(),
            rule.props_map() == doc_props(members@.take(i as int)),
            rule.in_effect_list().len() == 0,
            rule.condition_list().len() == 0,
            rule.assertion_list().len() == 0,
        decreases members.len() - i,
    {
        assert(members@.take(i + 1).drop_last() == members@.take(i as int));
        assert(members@.take(i + 1).last() == members@[i as int]);
        match &members[i].1 {
            Json::String(v) => {
                if str_eq(members[i].0.as_str(), "id") {
                    rule.add_prop("ID", v.as_str());
                } else {
                    rule.add_prop(members[i].0.as_str(), v.as_str());
                }
            },
            _ => {},
        }
        i += 1;
    }
    assert(members@.take(members.len() as int) == members@);
    let ghost props = rule.props_map();

    match list_of(doc, "in_effect") {
        Some(a) => {
            let mut k: usize = 0;
            while k < a.len()
                invariant
                    k <= a.len(),
                    rule.props_map() == props,
                    rule.in_effect_list().len() == k,
                    forall|j: int| 0 <= j < k ==> in_effect_entry(a@[j], #[trigger] rule.in_effect_list()[j]),
                    rule.condition_list().len() == 0,
                    rule.assertion_list().len() == 0,
                decreases a.len() - k,
            {
                let e = in_effect_of_entry(&a[k]);
                let ghost before = rule.in_effect_list();
                rule.add_in_effect(&e);
                assert forall|j: int| 0 <= j < k + 1 implies in_effect_entry(a@[j], #[trigger] rule.in_effect_list()[j]) by {
                    if j < k {
                        assert(rule.in_effect_list()[j] == rule.in_effect_list().take(k as int)[j]);
                        assert(before[j] == rule.in_effect_list()[j]);
                    }
                }
                k += 1;
            }
        },
        None => {},
    }
    let ghost ies = rule.in_effect_list();

    match list_of(doc, "input_conditions") {
        Some(a) => {
            let mut k: usize = 0;
            while k < a.len()
                invariant
                    k <= a.len(),
                    rule.props_map() == props,
                    rule.in_effect_list() == ies,
                    rule.condition_list().len() == k,
                    forall|j: int| 0 <= j < k ==> condition_ok(#[trigger] a@[j]),
                    forall|j: int| 0 <= j < k ==> condition_entry(a@[j], #[trigger] rule.condition_list()[j]),
                    rule.assertion_list().len() == 0,
                decreases a.len() - k,
            {
                let c = match condition_of_entry(&a[k]) {
                    Some(c) => c,
                    None => {
                        assert(!condition_ok(list_member(*doc, "input_conditions"@)[k as int]));
                        return None;
                    },
                };
                rule.add_cond(c);
                k += 1;
            }
        },
        None => {},
    }
    let ghost conds = rule.condition_list();

    match list_of(doc, "assertions") {
        Some(a) => {
            let mut k: usize = 0;
            while k < a.len()
                invariant
                    k <= a.len(),
                    rule.props_map() == props,
                    rule.in_effect_list() == ies,
                    rule.condition_list() == conds,
                    rule.assertion_list().len() == k,
                    forall|j: int| 0 <= j < k ==> assertion_ok(#[trigger] a@[j]),
                    forall|j: int| 0 <= j < k ==> assertion_entry(a@[j], #[trigger] rule.assertion_list()[j]),
                decreases a.len() - k,
            {
                let asrt = match assertion_of_entry(&a[k]) {
                    Some(x) => x,
                    None => {
                        assert(!assertion_ok(list_member(*doc, "assertions"@)[k as int]));
                        return None;
                    },
                };
                rule.add_assert(asrt);
                k += 1;
            }
        },
        None => {},
    }
    rule.refine();
    Some(rule)
}

} // verus!
