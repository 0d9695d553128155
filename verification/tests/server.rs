use rookie::server::{plan, Plan};
use rookie::db::InEffect;
use rookie::json::{Json, JsonNumber};
use rookie::rule::{find_rule_by_rev, next_revision};
use rookie::server::{
    do_submit, get_reaction, make_accepted_message, make_action_string, make_failed, make_failed_with_str,
    make_ok, make_reaction_message, make_rejected_message, make_status_string, order_step, process,
    process_cmd, process_parsed, publish_lookup, publish_reaction, rule_lookup, store_id, store_outcome, val_to_in_effect,
    ActionT, Error, Incoming, ReactionStatus, RuleLookup,
};

fn s(t: &str) -> Json {
    Json::String(t.to_string())
}

fn n(v: u64) -> Json {
    Json::Number(JsonNumber::PosInt(v))
}

fn obj(members: Vec<(&str, Json)>) -> Json {
    Json::Object(members.into_iter().map(|(k, v)| (k.to_string(), v)).collect())
}

fn members(j: &Json) -> Vec<(String, String)> {
    match j {
        Json::Object(m) => m
            .iter()
            .map(|(k, v)| {
                let t = match v {
                    Json::String(x) => x.clone(),
                    Json::Number(JsonNumber::PosInt(u)) => u.to_string(),
                    other => format!("{:?}", other),
                };
                (k.clone(), t)
            })
            .collect(),
        other => panic!("not an object: {:?}", other),
    }
}

fn kv(k: &str, v: &str) -> (String, String) {
    (k.to_string(), v.to_string())
}

fn is_uuid_v4(s: &str) -> bool {
    s.len() == 36 && s.chars().nth(14) == Some('4') && s.chars().filter(|c| *c == '-').count() == 4
}

#[test]
fn names_of_kinds_and_statuses() {
    assert_eq!(make_action_string(&ActionT::Get), "get");
    assert_eq!(make_action_string(&ActionT::Publish), "publish");
    assert_eq!(make_action_string(&ActionT::Store), "store");
    assert_eq!(make_action_string(&ActionT::Submit), "submit");
    assert_eq!(make_status_string(&ReactionStatus::Success), "ok");
    assert_eq!(make_status_string(&ReactionStatus::Failed), "failed");
    assert_eq!(make_status_string(&ReactionStatus::Unknown), "unknown");
}

#[test]
fn failed_and_ok_replies() {
    let r = make_failed(3, ActionT::Get, "boom".to_string());
    assert_eq!(r.status, ReactionStatus::Failed);
    assert_eq!(r.order, 3);
    assert_eq!(members(&r.doc), vec![kv("error", "boom")]);
    let r = make_failed_with_str(4, ActionT::Store, "x");
    assert_eq!(r.act, ActionT::Store);
    let r = make_ok(5, ActionT::Submit, n(1));
    assert_eq!(r.status, ReactionStatus::Success);
    assert!(matches!(r.doc, Json::Number(JsonNumber::PosInt(1))));
}

#[test]
fn reply_messages() {
    let m = make_reaction_message(make_failed(9, ActionT::Publish, "no".to_string()));
    match m {
        Json::Array(items) => {
            assert_eq!(items.len(), 4);
            assert!(matches!(items[0], Json::Number(JsonNumber::PosInt(9))));
            assert!(matches!(&items[1], Json::String(t) if t == "failed"));
            assert!(matches!(&items[2], Json::String(t) if t == "publish"));
            assert_eq!(members(&items[3]), vec![kv("error", "no")]);
        }
        other => panic!("{:?}", other),
    }
    match make_accepted_message(2) {
        Json::Array(items) => {
            assert!(matches!(items[0], Json::Number(JsonNumber::PosInt(2))));
            assert!(matches!(&items[1], Json::String(t) if t == "accepted"));
        }
        other => panic!("{:?}", other),
    }
    match make_rejected_message(7) {
        Json::Array(items) => assert!(matches!(&items[1], Json::String(t) if t == "rejected")),
        other => panic!("{:?}", other),
    }
}

#[test]
fn commands() {
    for (word, kind) in [("GET", ActionT::Get), ("PUBLISH", ActionT::Publish), ("STORE", ActionT::Store), ("SUBMIT", ActionT::Submit)] {
        let a = process_cmd(&word.to_string(), vec![s("x")], vec![]).unwrap();
        assert_eq!(a.act, kind);
        assert_eq!(a.args.len(), 1);
    }
    assert!(matches!(process_cmd(&"get".to_string(), vec![], vec![]), Err(Error::UnknownAction)));
    assert!(matches!(process_cmd(&"DELETE".to_string(), vec![], vec![]), Err(Error::UnknownAction)));
}

#[test]
fn parsed_messages() {
    let msg = Json::Array(vec![s("STORE"), Json::Array(vec![s("id1")]), obj(vec![("a", n(1))])]);
    let a = process_parsed(Ok(msg)).unwrap();
    assert_eq!(a.act, ActionT::Store);
    assert_eq!(a.doc.len(), 1);
    let bad = Json::Array(vec![s("STORE"), Json::Array(vec![]), Json::Array(vec![])]);
    assert!(matches!(process_parsed(Ok(bad)), Err(Error::Protocol)));
    assert!(matches!(process_parsed(Ok(obj(vec![]))), Err(Error::Protocol)));
    let four = Json::Array(vec![s("GET"), Json::Array(vec![]), obj(vec![]), n(1)]);
    assert!(matches!(process_parsed(Ok(four)), Err(Error::Protocol)));
    let unknown = Json::Array(vec![s("FETCH"), Json::Array(vec![]), obj(vec![])]);
    assert!(matches!(process_parsed(Ok(unknown)), Err(Error::UnknownAction)));
    match process_parsed(Err("expected value".to_string())) {
        Err(Error::Json { err }) => assert_eq!(err, "expected value"),
        other => panic!("{:?}", other),
    }
}

#[test]
fn incoming_messages() {
    let msg = Json::Array(vec![s("GET"), Json::Array(vec![s("r")]), obj(vec![])]);
    let (open, action) = process(Incoming::Text(Ok(msg)));
    assert!(open);
    assert_eq!(action.unwrap().act, ActionT::Get);
    let (open, action) = process(Incoming::Text(Err("bad".to_string())));
    assert!(open && action.is_none());
    for m in [Incoming::Binary, Incoming::Ping, Incoming::Pong, Incoming::TooLong] {
        assert_eq!(process(m).0, true);
    }
    for m in [
        Incoming::Close,
        Incoming::End,
        Incoming::Frame,
        Incoming::AlreadyClosed,
        Incoming::ConnectionClosed,
        Incoming::ResetWithoutClosingHandshake,
        Incoming::Io,
        Incoming::OtherError,
    ] {
        let (open, action) = process(m);
        assert!(!open && action.is_none());
    }
}

#[test]
fn lookups() {
    assert!(matches!(rule_lookup(&vec![s("r"), n(3)]), Some(RuleLookup::Revision(id, 3)) if id == "r"));
    assert!(matches!(rule_lookup(&vec![s("r"), n(3), s("extra")]), Some(RuleLookup::Revision(_, 3))));
    assert!(matches!(rule_lookup(&vec![s("r")]), Some(RuleLookup::Published(id)) if id == "r"));
    assert!(rule_lookup(&vec![]).is_none());
    assert!(rule_lookup(&vec![n(1)]).is_none());
    assert!(rule_lookup(&vec![s("r"), s("3")]).is_none());
    assert!(matches!(publish_lookup(&vec![s("r")]), Some(RuleLookup::Latest(id)) if id == "r"));
    assert!(matches!(publish_lookup(&vec![s("r"), n(5)]), Some(RuleLookup::Revision(_, 5))));
    assert!(publish_lookup(&vec![]).is_none());
}

#[test]
fn publish_replies() {
    let rule = find_rule_by_rev(&"r".to_string(), 2, true).unwrap();
    let ok = publish_reaction(1, Some(&rule), true);
    assert_eq!(ok.status, ReactionStatus::Success);
    assert_eq!(members(&ok.doc), vec![kv("id", "r"), kv("revision", "2")]);
    let failed = publish_reaction(1, Some(&rule), false);
    assert_eq!(members(&failed.doc), vec![kv("error", "failed change version")]);
    let missing = publish_reaction(1, None, false);
    assert_eq!(members(&missing.doc), vec![kv("error", "rule not found")]);
}

#[test]
fn get_replies() {
    let rule = find_rule_by_rev(&"r".to_string(), 2, true).unwrap();
    let ok = get_reaction(6, Some(&rule), Some(obj(vec![("x", n(1))])));
    assert_eq!(ok.status, ReactionStatus::Success);
    assert_eq!(ok.act, ActionT::Get);
    let failed = get_reaction(6, Some(&rule), None);
    assert_eq!(members(&failed.doc), vec![kv("error", "failed to open rule file (path=\"./data/rules/r/2.json\")")]);
    let missing = get_reaction(6, None, None);
    assert_eq!(members(&missing.doc), vec![kv("error", "rule not found")]);
}

#[test]
fn store_ids() {
    assert_eq!(store_id(&vec![s("given"), n(1)]).as_deref(), Some("given"));
    assert!(store_id(&vec![n(1)]).is_none());
    let fresh = store_id(&vec![]).unwrap();
    assert!(is_uuid_v4(&fresh), "{}", fresh);
}

#[test]
fn in_effect_from_document() {
    let o = obj(vec![("in", s("BC")), ("from", s("2024-01-01T00:00")), ("to", s("2025-01-01T00:00")), ("tz", s("UTC"))]);
    let ie: InEffect = val_to_in_effect(&o);
    assert_eq!((ie.loc.as_str(), ie.from.as_str(), ie.to.as_str(), ie.tz.as_str()), ("BC", "2024-01-01T00:00", "2025-01-01T00:00", "UTC"));
}

#[test]
fn store_outcomes() {
    let rule = next_revision(&"r".to_string(), None);
    let d = vec![
        (
            "in_effect".to_string(),
            Json::Array(vec![obj(vec![("in", s("BC")), ("from", s("a")), ("to", s("b")), ("tz", s("UTC"))])]),
        ),
        (
            "input_conditions".to_string(),
            Json::Array(vec![obj(vec![("expression", obj(vec![("key", s("k1"))]))]), n(3)]),
        ),
    ];
    let out = store_outcome(4, &rule, true, &d);
    assert_eq!(out.reaction.status, ReactionStatus::Success);
    assert_eq!(out.reaction.act, ActionT::Store);
    assert_eq!(members(&out.reaction.doc), vec![kv("id", "r"), kv("revision", "1")]);
    assert_eq!(out.in_effect.unwrap()[0].loc, "BC");
    assert_eq!(out.keys, Some(vec!["k1".to_string()]));

    let d2 = vec![("in_effect".to_string(), Json::Null), ("input_conditions".to_string(), s("none"))];
    let out = store_outcome(4, &rule, true, &d2);
    assert!(out.in_effect.is_none() && out.keys.is_none());

    let out = store_outcome(4, &rule, false, &vec![]);
    assert_eq!(out.reaction.status, ReactionStatus::Failed);
    assert_eq!(out.reaction.act, ActionT::Publish);
    assert_eq!(members(&out.reaction.doc), vec![kv("error", "failed store")]);
}

#[test]
fn submit_replies() {
    let r = do_submit(&vec![], &vec![], 8);
    assert_eq!(r.status, ReactionStatus::Success);
    assert_eq!(r.act, ActionT::Submit);
    assert_eq!(r.order, 8);
    let m = members(&r.doc);
    assert_eq!(m.len(), 1);
    assert_eq!(m[0].0, "id");
    assert!(is_uuid_v4(&m[0].1));
}

#[test]
fn submissions_store_gives_uuid() {
    let id = rookie::submissions::store(&vec![]).unwrap();
    assert!(is_uuid_v4(&id));
    assert_ne!(id, rookie::submissions::store(&vec![]).unwrap());
}

#[test]
fn orders() {
    assert_eq!(order_step(Some(5)), (5, Some(6)));
    assert_eq!(order_step(Some(u64::MAX)), (u64::MAX, Some(0)));
    assert_eq!(order_step(None), (0, None));
}

#[test]
fn orders_count_up_and_wrap() {
    let mut counter = Some(u64::MAX - 1);
    let mut seen = vec![];
    for _ in 0..3 {
        let (o, next) = order_step(counter);
        seen.push(o);
        counter = next;
    }
    assert_eq!(seen, vec![u64::MAX - 1, u64::MAX, 0]);
    assert_eq!(order_step(None), (0, None));
}

fn action(act: ActionT, args: Vec<Json>) -> rookie::server::Action {
    rookie::server::Action { args, doc: vec![("k".to_string(), s("v"))], act }
}

#[test]
fn plan_picks_what_each_request_needs() {
    match plan(action(ActionT::Get, vec![s("r1"), n(2)]), 5) {
        Plan::Get(Some(RuleLookup::Revision(id, rev))) => assert_eq!((id.as_str(), rev), ("r1", 2)),
        other => panic!("unexpected {:?}", other),
    }
    match plan(action(ActionT::Get, vec![s("r1")]), 5) {
        Plan::Get(Some(RuleLookup::Published(id))) => assert_eq!(id, "r1"),
        other => panic!("unexpected {:?}", other),
    }
    match plan(action(ActionT::Publish, vec![s("r1")]), 5) {
        Plan::Publish(Some(RuleLookup::Latest(id))) => assert_eq!(id, "r1"),
        other => panic!("unexpected {:?}", other),
    }
    match plan(action(ActionT::Publish, vec![n(3)]), 5) {
        Plan::Publish(None) => {}
        other => panic!("unexpected {:?}", other),
    }
    match plan(action(ActionT::Store, vec![s("r9")]), 6) {
        Plan::Store(id, d) => {
            assert_eq!(id, "r9");
            assert_eq!(d.len(), 1);
        }
        other => panic!("unexpected {:?}", other),
    }
    match plan(action(ActionT::Store, vec![]), 6) {
        Plan::Store(id, _) => assert_eq!(id.len(), 36),
        other => panic!("unexpected {:?}", other),
    }
    match plan(action(ActionT::Store, vec![n(1)]), 7) {
        Plan::Reply(r) => {
            assert_eq!(r.status, ReactionStatus::Failed);
            assert_eq!(r.act, ActionT::Store);
            assert_eq!(r.order, 7);
            assert_eq!(members(&r.doc), vec![("error".to_string(), "unknown id".to_string())]);
        }
        other => panic!("unexpected {:?}", other),
    }
    match plan(action(ActionT::Submit, vec![]), 8) {
        Plan::Reply(r) => {
            assert_eq!(r.status, ReactionStatus::Success);
            assert_eq!(r.act, ActionT::Submit);
            assert_eq!(r.order, 8);
        }
        other => panic!("unexpected {:?}", other),
    }
}
