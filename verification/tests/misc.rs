use rookie::daemon::{keeps_running, DaemonEvent};
use rookie::mult_sock::process_data;
use rookie::path::{join, path_file_stem};
use rookie::rs::{outcome_label, rule_path, scenario_description};
use rookie::rules::Case;
use rookie::text::{format_u64, parse_u32, parse_u64};

#[test]
fn decimal_format_and_parse() {
    assert_eq!(format_u64(0), "0");
    assert_eq!(format_u64(10), "10");
    assert_eq!(format_u64(u64::MAX), "18446744073709551615");
    assert_eq!(parse_u64("0"), Some(0));
    assert_eq!(parse_u64("+5"), Some(5));
    assert_eq!(parse_u64("007"), Some(7));
    assert_eq!(parse_u64("18446744073709551615"), Some(u64::MAX));
    assert_eq!(parse_u64("18446744073709551616"), None);
    assert_eq!(parse_u64(""), None);
    assert_eq!(parse_u64("+"), None);
    assert_eq!(parse_u64("-1"), None);
    assert_eq!(parse_u64("1a"), None);
    assert_eq!(parse_u64(" 1"), None);
    assert_eq!(parse_u32("4294967295"), Some(u32::MAX));
    assert_eq!(parse_u32("4294967296"), None);
    for v in [0u64, 9, 10, 99, 12345, u64::MAX] {
        assert_eq!(parse_u64(&format_u64(v)), Some(v));
        assert_eq!(parse_u64(&format_u64(v)), v.to_string().parse::<u64>().ok());
    }
}

#[test]
fn paths_join_and_stem() {
    assert_eq!(join("a", "b"), "a/b");
    assert_eq!(join("a/", "b"), "a/b");
    assert_eq!(join("", "b"), "b");
    assert_eq!(join("a", "/b"), "/b");
    assert_eq!(path_file_stem("x/y/archive.tar.gz").as_deref(), Some("archive.tar"));
    assert_eq!(path_file_stem(".bashrc").as_deref(), Some(".bashrc"));
    assert_eq!(path_file_stem("x/..").as_deref(), None);
    for p in ["a/b.c", "a/b.c/", "a/./b.c/.", ".x.y", "..x", "/", "", ".", "a/.."] {
        let expected = std::path::Path::new(p).file_stem().map(|s| s.to_str().unwrap().to_string());
        assert_eq!(path_file_stem(p), expected, "{}", p);
    }
}

#[test]
fn rs_rule_path_and_labels() {
    assert_eq!(rule_path("abc", "3"), "./data/rules/abc/3.rule");
    assert_eq!(scenario_description(&vec![]), "No matching scenario");
    assert_eq!(scenario_description(&vec![0, 2, 9]), "Case A, Case C, Case ?");
    assert_eq!(scenario_description(&vec![7]), "Case H");
    assert_eq!(outcome_label(Case::True), "TRUE");
    assert_eq!(outcome_label(Case::False), "FALSE");
    assert_eq!(outcome_label(Case::Maybe), "MAYBE");
    assert_eq!(outcome_label(Case::Both), "TRUE (and possibly false)");
    assert_eq!(outcome_label(Case::Invalid), "INVALID");
}

#[test]
fn process_data_uppercases_text() {
    assert_eq!(process_data(b"hello, world"), b"HELLO, WORLD".to_vec());
    assert_eq!(process_data("straße".as_bytes()), "STRASSE".as_bytes().to_vec());
    assert_eq!(process_data(&[0xff, 0x61]), vec![0xff, 0x61]);
    assert_eq!(process_data(&[]), Vec::<u8>::new());
}

#[test]
fn daemon_events() {
    assert!(keeps_running(DaemonEvent::WorkDone));
    assert!(!keeps_running(DaemonEvent::Terminate));
    assert!(!keeps_running(DaemonEvent::Interrupt));
}

#[test]
fn rule_path_revision_reads_back() {
    for (id, rev) in [("abc", 0u64), ("x/y", 7), ("", 42), ("dotted.id", u64::MAX)] {
        let p = rookie::rule::rule_path(&id.to_string(), rev);
        assert_eq!(rookie::rule::extract_rev(&p), rev);
    }
}
