use rookie::json::{Json, JsonNumber};
use rookie::select::{doc_keys, filter, find_args, find_query, keys, rule_path, Ref};

fn s(t: &str) -> Json {
    Json::String(t.to_string())
}

fn n(v: u64) -> Json {
    Json::Number(JsonNumber::PosInt(v))
}

fn obj(members: Vec<(&str, Json)>) -> Json {
    Json::Object(members.into_iter().map(|(k, v)| (k.to_string(), v)).collect())
}

fn r(id: &str, version: &str) -> Ref {
    Ref { id: id.to_string(), version: version.to_string() }
}

fn pairs(v: &[Ref]) -> Vec<(String, String)> {
    v.iter().map(|x| (x.id.clone(), x.version.clone())).collect()
}

// The document of the fixture `deep_keys.json`, members in the
// order serde_json reads them (sorted by key).
fn deep_keys_doc() -> Json {
    obj(vec![
        (
            "a",
            obj(vec![
                ("a0", obj(vec![("a00", n(1)), ("a01", n(2))])),
                ("a1", obj(vec![("a10", s("x")), ("a11", s("y"))])),
                ("a2", n(3)),
            ]),
        ),
        (
            "b",
            Json::Array(vec![
                obj(vec![("b00", n(1)), ("b01", n(2))]),
                obj(vec![("b10", Json::Null)]),
                obj(vec![("b20", Json::Array(vec![n(1), n(2)]))]),
            ]),
        ),
    ])
}

#[test]
fn test_keys() {
    let doc = deep_keys_doc();
    let ex = vec![
        "a", "a.a0", "a.a0.a00", "a.a0.a01",
        "a.a1", "a.a1.a10", "a.a1.a11", "a.a2",
        "b", "b[0]", "b[0].b00", "b[0].b01",
        "b[1]", "b[1].b10", "b[2]", "b[2].b20",
        "b[2].b20[0]", "b[2].b20[1]",
    ];
    assert_eq!(ex, doc_keys(&doc));
}

#[test]
fn keys_of_scalars_and_empty_values() {
    assert!(doc_keys(&n(5)).is_empty());
    assert!(doc_keys(&s("x")).is_empty());
    assert!(doc_keys(&Json::Null).is_empty());
    assert!(doc_keys(&obj(vec![])).is_empty());
    assert!(doc_keys(&Json::Array(vec![])).is_empty());
}

#[test]
fn keys_below_root_start_with_dot() {
    let doc = obj(vec![("k", n(1)), ("m", obj(vec![("x", n(2))]))]);
    assert_eq!(keys(&doc, false), vec![".k", ".m", ".m.x"]);
    assert_eq!(keys(&doc, true), vec!["k", "m", "m.x"]);
}

#[test]
fn keys_of_top_level_array() {
    let doc = Json::Array(vec![n(1), obj(vec![("a", n(2))])]);
    assert_eq!(doc_keys(&doc), vec!["[0]", "[1]", "[1].a"]);
}

#[test]
fn keys_index_past_nine() {
    let doc = Json::Array((0..12).map(n).collect());
    let k = doc_keys(&doc);
    assert_eq!(k.len(), 12);
    assert_eq!(k[10], "[10]");
    assert_eq!(k[11], "[11]");
}

#[test]
fn filter_keeps_latest_version_of_each_rule() {
    let refs = vec![r("a", "1"), r("b", "4"), r("a", "3"), r("a", "2"), r("b", "2")];
    let kept = filter(refs);
    assert_eq!(pairs(&kept), vec![("b".to_string(), "4".to_string()), ("a".to_string(), "3".to_string())]);
}

#[test]
fn filter_keeps_duplicates_of_latest() {
    let refs = vec![r("a", "2"), r("a", "2"), r("a", "1")];
    let kept = filter(refs);
    assert_eq!(pairs(&kept), vec![("a".to_string(), "2".to_string()), ("a".to_string(), "2".to_string())]);
}

#[test]
fn filter_ties_keep_first_spelling() {
    // "01" and "1" stand for the same number; the one met first is kept.
    let refs = vec![r("a", "1"), r("a", "01"), r("a", "+1")];
    let kept = filter(refs);
    assert_eq!(pairs(&kept), vec![("a".to_string(), "1".to_string())]);
}

#[test]
fn filter_compares_numbers_not_text() {
    let refs = vec![r("a", "9"), r("a", "10")];
    let kept = filter(refs);
    assert_eq!(pairs(&kept), vec![("a".to_string(), "10".to_string())]);
}

#[test]
fn filter_keeps_single_version_whatever_it_reads() {
    // A rule found once is never compared, so its version need not be a number.
    let refs = vec![r("a", "draft"), r("b", "2"), r("b", "3")];
    let kept = filter(refs);
    assert_eq!(pairs(&kept), vec![("a".to_string(), "draft".to_string()), ("b".to_string(), "3".to_string())]);
}

#[test]
fn filter_of_nothing() {
    assert!(filter(vec![]).is_empty());
}

#[test]
fn filter_keeps_every_rule_law_example() {
    let refs = vec![r("x", "5"), r("y", "1"), r("z", "7"), r("x", "6")];
    let kept = filter(refs);
    let ids: Vec<String> = kept.iter().map(|x| x.id.clone()).collect();
    for id in ["x", "y", "z"] {
        assert!(ids.contains(&id.to_string()));
    }
}

#[test]
fn select_rule_path() {
    assert_eq!(rule_path(&"abc".to_string(), &"4".to_string()), "./data/rules/abc/4.rule");
}

#[test]
fn select_find_query_and_args() {
    let q = find_query(3);
    assert!(q.starts_with("SELECT DISTINCT e.rule_id, e.version\n         FROM in_effect AS e\n"));
    assert!(q.ends_with("WHERE e.jurisdiction=? AND e.tz=? AND a.key IN (?,?,?)"));
    assert!(find_query(0).ends_with("IN ()"));
    assert!(find_query(1).ends_with("IN (?)"));
    let args = find_args(&"CA".to_string(), &"UTC".to_string(), &vec!["k1".to_string(), "k2".to_string()]);
    assert_eq!(args, vec!["CA", "UTC", "k1", "k2"]);
}

#[test]
fn filter_twice_changes_nothing() {
    let refs = vec![r("a", "1"), r("b", "4"), r("a", "3"), r("a", "3"), r("b", "2"), r("c", "draft")];
    let once = filter(refs);
    let again = filter(once.iter().map(|x| r(&x.id, &x.version)).collect());
    assert_eq!(pairs(&again), pairs(&once));
    assert_eq!(
        pairs(&once),
        vec![
            ("b".to_string(), "4".to_string()),
            ("a".to_string(), "3".to_string()),
            ("a".to_string(), "3".to_string()),
            ("c".to_string(), "draft".to_string()),
        ]
    );
}
