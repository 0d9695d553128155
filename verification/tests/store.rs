use rookie::ingest::{build_applicable, in_effect_row, latest_rev, next_rev};
use rookie::json::{Json, JsonNumber};
use rookie::rule::{extract_rev, find_latest_rule, find_rule_by_rev, next_revision, revision_path, revisions_pattern, rule_dir, rule_path};
use rookie::rules::InEffect;

fn s(t: &str) -> Json {
    Json::String(t.to_string())
}

fn obj(members: Vec<(&str, Json)>) -> Json {
    Json::Object(members.into_iter().map(|(k, v)| (k.to_string(), v)).collect())
}

#[test]
fn rule_dir_and_path() {
    assert_eq!(rule_dir(&"abc".to_string()), "./data/rules/abc");
    assert_eq!(rule_path(&"abc".to_string(), 3), "./data/rules/abc/3.json");
    assert_eq!(rule_path(&"abc".to_string(), 1234567), "./data/rules/abc/1234567.json");
    assert_eq!(revision_path(&"abc".to_string(), 0, "rule"), "./data/rules/abc/0.rule");
    assert_eq!(revisions_pattern(&"abc".to_string(), "json"), "./data/rules/abc/*.json");
}

#[test]
fn rule_dir_edge_ids() {
    // As `PathBuf::push`: an absolute id replaces the base, an empty one
    // leaves a trailing separator.
    assert_eq!(rule_dir(&"/abs".to_string()), "/abs");
    assert_eq!(rule_dir(&"".to_string()), "./data/rules/");
    assert_eq!(rule_path(&"".to_string(), 2), "./data/rules/2.json");
    assert_eq!(rule_path(&"a/".to_string(), 2), "./data/rules/a/2.json");
}

#[test]
fn extract_rev_reads_file_stem() {
    assert_eq!(extract_rev(&"./data/rules/x/12.json".to_string()), 12);
    assert_eq!(extract_rev(&"./data/rules/x/7".to_string()), 7);
    assert_eq!(extract_rev(&"5.json/".to_string()), 5);
    assert_eq!(extract_rev(&"x/5.json/.".to_string()), 5);
    assert_eq!(extract_rev(&"/".to_string()), 0);
    assert_eq!(extract_rev(&"x/..".to_string()), 0);
    assert_eq!(extract_rev(&"".to_string()), 0);
}

#[test]
fn find_rule_by_rev_needs_file() {
    let id = "r1".to_string();
    let rule = find_rule_by_rev(&id, 4, true).unwrap();
    assert_eq!(rule.id, "r1");
    assert_eq!(rule.rev, 4);
    assert_eq!(rule.path(), "./data/rules/r1/4.json");
    assert_eq!(rule.dir(), "./data/rules/r1");
    assert!(find_rule_by_rev(&id, 4, false).is_none());
}

#[test]
fn find_latest_rule_takes_highest() {
    let id = "r".to_string();
    let found = vec![
        "./data/rules/r/2.json".to_string(),
        "./data/rules/r/10.json".to_string(),
        "./data/rules/r/9.json".to_string(),
    ];
    let latest = find_latest_rule(&id, &found).unwrap();
    assert_eq!(latest.rev, 10);
    assert_eq!(latest.path(), "./data/rules/r/10.json");
    assert!(find_latest_rule(&id, &vec![]).is_none());
}

#[test]
fn find_latest_rule_ties_take_last() {
    let id = "r".to_string();
    let found = vec!["a/3.json".to_string(), "b/3.json".to_string(), "c/1.json".to_string()];
    assert_eq!(find_latest_rule(&id, &found).unwrap().path(), "b/3.json");
}

#[test]
fn next_revision_follows_latest() {
    let id = "r".to_string();
    let latest = find_latest_rule(&id, &vec!["./data/rules/r/2.json".to_string()]);
    let next = next_revision(&id, latest);
    assert_eq!(next.rev, 3);
    assert_eq!(next.path(), "./data/rules/r/3.json");
    let first = next_revision(&"new".to_string(), None);
    assert_eq!(first.rev, 1);
    assert_eq!(first.path(), "./data/rules/new/1.json");
    assert_eq!(first.id, "new");
}

#[test]
fn ingest_revisions() {
    assert_eq!(latest_rev(&vec![]), None);
    assert_eq!(latest_rev(&vec!["x/1.rule".to_string(), "x/4.rule".to_string(), "x/3.rule".to_string()]), Some(4));
    assert_eq!(next_rev(None), 0);
    assert_eq!(next_rev(Some(4)), 5);
}

#[test]
fn build_applicable_collects_keys() {
    let conds = Json::Array(vec![
        obj(vec![("expression", obj(vec![("key", s("income"))]))]),
        s("ignored"),
        obj(vec![("expression", obj(vec![("key", s("age")), ("op", s("eq"))]))]),
    ]);
    assert_eq!(build_applicable(&conds), Some(vec!["income".to_string(), "age".to_string()]));
    assert_eq!(build_applicable(&Json::Number(JsonNumber::PosInt(1))), None);
    assert_eq!(build_applicable(&Json::Array(vec![])), Some(vec![]));
}

#[test]
fn in_effect_rows() {
    let mut ie = InEffect::new();
    let row = in_effect_row(&"id1".to_string(), 7, &ie);
    assert_eq!(row, vec!["id1", "7", "", "1970-01-01 00:00:00 UTC", "1970-01-01 00:00:00 UTC", "UTC"]);
    ie.set_jurisdiction("BC");
    ie.set_from("2020-02-29T23:59");
    ie.set_tz("Europe/Paris");
    let row = in_effect_row(&"id1".to_string(), 0, &ie);
    assert_eq!(row, vec!["id1", "0", "BC", "2020-02-29 23:59:00 UTC", "1970-01-01 00:00:00 UTC", "Europe/Paris"]);
}
