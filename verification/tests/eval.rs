use rookie::rs::evaluate;
use rookie::rules::Rule;
use rookie::invoke::{eval_conds, fetch, scenario_indices};
use rookie::rules::Assertion;
use rookie::json::{Json, JsonNumber};
use rookie::rules::{Case, Condition, Op};

fn obj(members: Vec<(&str, Json)>) -> Json {
    Json::Object(members.into_iter().map(|(k, v)| (k.to_string(), v)).collect())
}

#[test]
fn fetch_renders_values() {
    let doc = obj(vec![
        ("s", Json::String("text".to_string())),
        ("t", Json::Bool(true)),
        ("f", Json::Bool(false)),
        ("n", Json::Number(JsonNumber::PosInt(42))),
        ("neg", Json::Number(JsonNumber::NegInt(-9223372036854775808))),
        ("x", Json::Number(JsonNumber::Float("1.5".to_string()))),
        ("a", Json::Array(vec![])),
        ("z", Json::Null),
    ]);
    assert_eq!(fetch(&doc, &"s".to_string()), "text");
    assert_eq!(fetch(&doc, &"t".to_string()), "true");
    assert_eq!(fetch(&doc, &"f".to_string()), "false");
    assert_eq!(fetch(&doc, &"n".to_string()), "42");
    assert_eq!(fetch(&doc, &"neg".to_string()), "-9223372036854775808");
    assert_eq!(fetch(&doc, &"x".to_string()), "1.5");
    assert_eq!(fetch(&doc, &"a".to_string()), "");
    assert_eq!(fetch(&doc, &"z".to_string()), "");
    assert_eq!(fetch(&doc, &"missing".to_string()), "");
    assert_eq!(fetch(&Json::Array(vec![]), &"s".to_string()), "");
}

#[test]
fn eval_conds_combines_scenarios() {
    // Scenario 0: age matches and region does not; 1: both match;
    // 2: age does not match; 3: never.
    let conds = vec![
        Condition::new("age", "21", Op::Eq, &vec![Case::True, Case::True, Case::False, Case::Invalid]),
        Condition::new("region", "'west'", Op::Eq, &vec![Case::False, Case::True, Case::Maybe, Case::Both]),
    ];
    let doc = obj(vec![("age", Json::Number(JsonNumber::PosInt(21))), ("region", Json::String("west".to_string()))]);
    assert_eq!(eval_conds(&conds, &doc), vec![false, true, false, false]);
    let doc = obj(vec![("age", Json::String("30".to_string())), ("region", Json::String("east".to_string()))]);
    assert_eq!(eval_conds(&conds, &doc), vec![false, false, true, false]);
}

#[test]
fn eval_conds_shorter_condition_excludes_scenarios() {
    let conds = vec![
        Condition::new("k", "'v'", Op::Eq, &vec![Case::Maybe, Case::Maybe, Case::Maybe]),
        Condition::new("k", "'v'", Op::Eq, &vec![Case::Both]),
    ];
    let doc = obj(vec![("k", Json::String("v".to_string()))]);
    assert_eq!(eval_conds(&conds, &doc), vec![true, false, false]);
}

#[test]
fn eval_conds_sixty_four_scenarios() {
    let mut cases = vec![Case::False; 64];
    cases[63] = Case::True;
    cases[0] = Case::Both;
    let conds = vec![Condition::new("k", "'v'", Op::Eq, &cases)];
    let doc = obj(vec![("k", Json::String("v".to_string()))]);
    let r = eval_conds(&conds, &doc);
    assert_eq!(r.len(), 64);
    assert!(r[0] && r[63]);
    assert_eq!(r.iter().filter(|b| **b).count(), 2);
}

#[test]
fn eval_conds_invalid_value_never_matches() {
    let conds = vec![Condition::new("k", "not a value", Op::Eq, &vec![Case::True, Case::False])];
    let doc = obj(vec![("k", Json::String("not a value".to_string()))]);
    assert_eq!(eval_conds(&conds, &doc), vec![false, true]);
}

#[test]
fn scenario_indices_and_reduced_assertions() {
    let idxs = scenario_indices(&vec![false, true, false, true]);
    assert_eq!(idxs, vec![1, 3]);
    assert!(scenario_indices(&vec![]).is_empty());
    let a = Assertion::new("k", "v", &vec![Case::True, Case::False, Case::Maybe, Case::Both]);
    let r = a.reduce(&idxs);
    assert_eq!(r.cases(), vec![Case::False, Case::Both]);
    assert_eq!(r.keys(), vec!["k".to_string()]);
    assert_eq!(a.reduce(&vec![9, 0]).cases(), vec![Case::True]);
}

#[test]
fn evaluate_names_scenarios_and_outcomes() {
    let mut rule = Rule::new();
    rule.add_cond(Condition::new("age", "21", Op::Eq, &vec![Case::True, Case::True, Case::False, Case::Invalid]));
    rule.add_cond(Condition::new("region", "'west'", Op::Eq, &vec![Case::False, Case::True, Case::Maybe, Case::Both]));
    rule.add_assert(Assertion::new("approved", "yes", &vec![Case::False, Case::True, Case::Maybe, Case::Both]));
    rule.add_assert(Assertion::new("short", "x", &vec![Case::Both]));

    let doc = obj(vec![("age", Json::Number(JsonNumber::PosInt(21))), ("region", Json::String("west".to_string()))]);
    let r = evaluate("R1".to_string(), "3".to_string(), &rule, &doc);
    assert_eq!(r.rule_id, "R1");
    assert_eq!(r.version, "3");
    assert_eq!(r.scenario, "Case B");
    let lines: Vec<(String, String)> = r.assertions.into_iter().map(|a| (a.key, a.outcome)).collect();
    assert_eq!(lines, vec![("approved".to_string(), "TRUE".to_string())]);

    let doc = obj(vec![("age", Json::String("30".to_string())), ("region", Json::String("east".to_string()))]);
    let r = evaluate("R1".to_string(), "3".to_string(), &rule, &doc);
    assert_eq!(r.scenario, "Case C");
    let lines: Vec<(String, String)> = r.assertions.into_iter().map(|a| (a.key, a.outcome)).collect();
    assert_eq!(lines, vec![("approved".to_string(), "MAYBE".to_string())]);
}

#[test]
fn evaluate_without_matching_scenario() {
    let mut rule = Rule::new();
    rule.add_cond(Condition::new("k", "'v'", Op::Eq, &vec![Case::True, Case::True]));
    rule.add_assert(Assertion::new("a", "1", &vec![Case::True, Case::False]));
    let doc = obj(vec![("k", Json::String("w".to_string()))]);
    let r = evaluate("R2".to_string(), "1".to_string(), &rule, &doc);
    assert_eq!(r.scenario, "No matching scenario");
    assert!(r.assertions.is_empty());
}
