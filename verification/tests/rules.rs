use rookie::rules::{Assertion, Case, Condition, InEffect, Op, Rule, UtcTime, Value};
use rookie::json::Json;

fn is_uuid_v4(s: &str) -> bool {
    let b: Vec<char> = s.chars().collect();
    b.len() == 36
        && b.iter().enumerate().all(|(i, c)| {
            if i == 8 || i == 13 || i == 18 || i == 23 {
                *c == '-'
            } else {
                c.is_ascii_digit() || ('a'..='f').contains(c)
            }
        })
        && b[14] == '4'
        && "89ab".contains(b[19])
}

#[test]
fn value_parse_quoted_string() {
    match Value::parse("'abc'") {
        Value::Str(s) => assert_eq!(s, "abc"),
        v => panic!("unexpected {:?}", v),
    }
    match Value::parse("'it''s'") {
        Value::Str(s) => assert_eq!(s, "it''s"),
        v => panic!("unexpected {:?}", v),
    }
}

#[test]
fn value_parse_number() {
    assert!(matches!(Value::parse("42"), Value::Ord(42)));
    assert!(matches!(Value::parse("007"), Value::Ord(7)));
    assert!(matches!(Value::parse("18446744073709551615"), Value::Ord(18446744073709551615)));
}

#[test]
fn value_parse_invalid() {
    assert!(matches!(Value::parse("abc"), Value::Invalid));
    assert!(matches!(Value::parse("''"), Value::Invalid));
    assert!(matches!(Value::parse("'a"), Value::Invalid));
    assert!(matches!(Value::parse("-3"), Value::Invalid));
    assert!(matches!(Value::parse("4 2"), Value::Invalid));
    assert!(matches!(Value::parse(""), Value::Invalid));
}

#[test]
fn value_try_parse_refuses_overflowing_numbers() {
    assert!(Value::try_parse("18446744073709551616").is_none());
    assert!(matches!(Value::try_parse("12"), Some(Value::Ord(12))));
    assert!(matches!(Value::try_parse("'x'"), Some(Value::Str(_))));
}

#[test]
fn value_matches_strings_and_numbers() {
    let s = Value::Str("yes".to_string());
    assert!(Value::matches(&s, &"yes".to_string()));
    assert!(!Value::matches(&s, &"no".to_string()));
    let o = Value::Ord(12);
    assert!(Value::matches(&o, &"12".to_string()));
    assert!(Value::matches(&o, &"+12".to_string()));
    assert!(Value::matches(&o, &"012".to_string()));
    assert!(!Value::matches(&o, &"13".to_string()));
    assert!(!Value::matches(&Value::Invalid, &"".to_string()));
}

#[test]
fn condition_new_parses_value() {
    let cases = vec![Case::True, Case::False, Case::Maybe];
    let c = Condition::new("age", "21", Op::Eq, &cases);
    assert_eq!(c.key, "age");
    assert!(matches!(c.val, Value::Ord(21)));
    assert!(matches!(c.op, Op::Eq));
    assert_eq!(c.cases, cases);
    assert!(Condition::try_new("age", "99999999999999999999", Op::Eq, &cases).is_none());
}

#[test]
fn assertion_new_holds_one_value() {
    let a = Assertion::new("k", "v", &vec![Case::Both, Case::Invalid]);
    assert_eq!(a.keys(), vec!["k".to_string()]);
    assert_eq!(a.cases(), vec![Case::Both, Case::Invalid]);
}

#[test]
fn in_effect_setters() {
    let mut ie = InEffect::new();
    assert!(ie.jurisdiction.is_none() && ie.from.is_none() && ie.to.is_none() && ie.tz.is_none());
    ie.set_jurisdiction("CA-BC");
    assert_eq!(ie.jurisdiction.as_deref(), Some("CA-BC"));
    ie.set_from("2024-05-01T12:30");
    assert_eq!(ie.from.as_ref().map(|t| t.secs()), Some(1714566600));
    assert_eq!(ie.from.as_ref().unwrap().to_string(), "2024-05-01 12:30:00 UTC");
    ie.set_to("not a date");
    assert!(ie.to.is_none());
    ie.set_tz("America/Vancouver");
    assert_eq!(ie.tz.as_deref(), Some("America/Vancouver"));
    ie.set_tz("Nowhere/Land");
    assert!(ie.tz.is_none());
}

#[test]
fn epoch_displays() {
    assert_eq!(UtcTime::epoch().to_string(), "1970-01-01 00:00:00 UTC");
}

#[test]
fn rule_props_read_last_write() {
    let mut r = Rule::new();
    assert!(r.prop("name").is_none());
    r.add_prop("name", "first");
    r.add_prop("other", "x");
    r.add_prop("name", "second");
    assert_eq!(r.prop("name").as_deref(), Some("second"));
    assert_eq!(r.prop("other").as_deref(), Some("x"));
}

#[test]
fn rule_refine_keeps_existing_id() {
    let mut r = Rule::new();
    r.add_prop("ID", "fixed");
    r.refine();
    assert_eq!(r.id(), "fixed");
}

#[test]
fn rule_refine_makes_uuid() {
    let mut r = Rule::new();
    r.refine();
    let id = r.id();
    assert!(is_uuid_v4(&id), "{}", id);
    r.refine();
    assert_eq!(r.id(), id);
}

#[test]
fn rule_collections() {
    let mut r = Rule::new();
    let mut ie = InEffect::new();
    ie.set_jurisdiction("X");
    r.add_in_effect(&ie);
    r.add_cond(Condition::new("k", "'v'", Op::Eq, &vec![Case::True]));
    r.add_cond(Condition::new("m", "3", Op::Eq, &vec![Case::False]));
    r.add_assert(Assertion::new("out", "yes", &vec![Case::True]));
    assert_eq!(r.in_effect.len(), 1);
    assert_eq!(r.condition_keys(), vec!["k".to_string(), "m".to_string()]);
}

fn jobj(members: Vec<(&str, rookie::json::Json)>) -> rookie::json::Json {
    rookie::json::Json::Object(members.into_iter().map(|(k, v)| (k.to_string(), v)).collect())
}

fn jstr(s: &str) -> rookie::json::Json {
    rookie::json::Json::String(s.to_string())
}

#[test]
fn rule_from_json_reads_a_rule() {
    let doc = jobj(vec![
        (
            "assertions",
            Json::Array(vec![jobj(vec![
                ("cases", Json::Array(vec![jstr("true"), jstr("maybe"), jstr("nonsense")])),
                ("key", jstr("approved")),
                ("value", jstr("yes")),
            ])]),
        ),
        ("id", jstr("R7")),
        (
            "in_effect",
            Json::Array(vec![jobj(vec![("in", jstr("CA-QC")), ("tz", jstr("America/Toronto"))])]),
        ),
        (
            "input_conditions",
            Json::Array(vec![jobj(vec![
                ("cases", Json::Array(vec![jstr("both"), jstr("false")])),
                ("expression", jobj(vec![("key", jstr("age")), ("op", jstr("gte")), ("value", jstr("21"))])),
            ])]),
        ),
        ("name", jstr("drinking age")),
    ]);
    let rule = rookie::ruleset::rule_from_json(&doc).unwrap();
    assert_eq!(rule.id(), "R7");
    assert_eq!(rule.prop("name"), Some("drinking age".to_string()));
    assert_eq!(rule.in_effect.len(), 1);
    assert_eq!(rule.in_effect[0].jurisdiction, Some("CA-QC".to_string()));
    assert_eq!(rule.in_effect[0].tz, Some("America/Toronto".to_string()));
    assert!(rule.in_effect[0].from.is_none());
    assert_eq!(rule.conditions.len(), 1);
    assert_eq!(rule.conditions[0].key, "age");
    assert_eq!(rule.conditions[0].op, Op::Gte);
    assert_eq!(rule.conditions[0].cases, vec![Case::Both, Case::False]);
    assert_eq!(rule.assertions().len(), 1);
    assert_eq!(rule.assertions()[0].keys(), vec!["approved".to_string()]);
    assert_eq!(rule.assertions()[0].cases(), vec![Case::True, Case::Maybe, Case::Invalid]);
}

#[test]
fn rule_from_json_refuses_incomplete_rules() {
    assert!(rookie::ruleset::rule_from_json(&jstr("not an object")).is_none());
    let no_key = jobj(vec![(
        "input_conditions",
        Json::Array(vec![jobj(vec![("expression", jobj(vec![("value", jstr("1"))]))])]),
    )]);
    assert!(rookie::ruleset::rule_from_json(&no_key).is_none());
    let bad_value = jobj(vec![(
        "input_conditions",
        Json::Array(vec![jobj(vec![("expression", jobj(vec![("key", jstr("k")), ("value", jstr("99999999999999999999999"))]))])]),
    )]);
    assert!(rookie::ruleset::rule_from_json(&bad_value).is_none());
    let unkeyed_assertion = jobj(vec![("assertions", Json::Array(vec![jobj(vec![("value", jstr("1"))])]))]);
    assert!(rookie::ruleset::rule_from_json(&unkeyed_assertion).is_none());
    let empty = rookie::ruleset::rule_from_json(&jobj(vec![])).unwrap();
    assert_eq!(empty.id().len(), 36);
}
