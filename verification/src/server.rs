//! The request protocol of the websocket server: reading requests, the
//! decisions taken for each, and the replies sent back.
use vstd::prelude::*;
use crate::db::{InEffect, in_effect_of, in_effect_well_formed, member_string};
use crate::ingest::{applicable_keys, condition_keys_of, condition_well_formed};
use crate::json::{Json, JsonNumber, number_u64, concat, member_lookup, members_get, str_eq, str_to_string};
use crate::outside::{is_uuid_v4_text, new_uuid_v4, path_debug_string, path_debug_text};
use crate::rule::Rule;
use crate::select::views;
use crate::submissions;

verus! {

/// A JSON object's members.
pub type JsonMap = Vec<(String, Json)>;

/// The kind of a request.
#[derive(Debug, Clone, Copy, PartialEq, Eq)]
pub enum ActionT {
    Get,
    Publish,
    Store,
    Submit,
}

/// A request: its kind, its arguments and its document.
#[derive(Debug)]
pub struct Action {
    pub args: Vec<Json>,
    pub doc: JsonMap,
    pub act: ActionT,
}

/// Why a message is not a request.
#[derive(Debug)]
pub enum Error {
    UnknownAction,
    InvalidAction,
    Protocol,
    Json { err: String },
}

/// Whether a request succeeded.
#[derive(Debug, Clone, Copy, PartialEq, Eq)]
pub enum ReactionStatus {
    Success,
    Failed,
    Unknown,
}

/// The reply to a request: its status, its document, the kind of request
/// and the request's place in the connection's order.
#[derive(Debug)]
pub struct Reaction {
    pub status: ReactionStatus,
    pub doc: Json,
    pub act: ActionT,
    pub order: u64,
}

/// `j` is the string `t`.
pub open spec fn is_text(j: Json, t: Seq<char>) -> bool {
    j is String && j->String_0@ == t
}

/// `j` is the number `n`.
pub open spec fn is_count(j: Json, n: u64) -> bool {
    j == Json::Number(JsonNumber::PosInt(n))
}

/// `error`.
pub open spec fn error_key() -> Seq<char> {
    "error"@
}

/// `id`.
pub open spec fn id_key() -> Seq<char> {
    "id"@
}

/// `revision`.
pub open spec fn revision_key() -> Seq<char> {
    "revision"@
}

/// `doc` is the object `{"error": msg}`.
pub open spec fn error_doc(doc: Json, msg: Seq<char>) -> bool {
    &&& doc is Object
    &&& doc->Object_0@.len() == 1
    &&& doc->Object_0@[0].0@ == error_key()
    &&& is_text(doc->Object_0@[0].1, msg)
}

/// `doc` is the object `{"id": id, "revision": rev}`.
pub open spec fn revision_doc(doc: Json, id: Seq<char>, rev: u64) -> bool {
    &&& doc is Object
    &&& doc->Object_0@.len() == 2
    &&& doc->Object_0@[0].0@ == id_key()
    &&& is_text(doc->Object_0@[0].1, id)
    &&& doc->Object_0@[1].0@ == revision_key()
    &&& is_count(doc->Object_0@[1].1, rev)
}

/// `doc` is the object `{"id": id}`.
pub open spec fn id_doc(doc: Json, id: Seq<char>) -> bool {
    &&& doc is Object
    &&& doc->Object_0@.len() == 1
    &&& doc->Object_0@[0].0@ == id_key()
    &&& is_text(doc->Object_0@[0].1, id)
}

/// A failed reply of kind `act` whose document is `{"error": msg}`.
pub open spec fn failed_with(r: Reaction, order: u64, act: ActionT, msg: Seq<char>) -> bool {
    r.status == ReactionStatus::Failed && r.act == act && r.order == order && error_doc(r.doc, msg)
}

/// A successful reply of kind `act`.
pub open spec fn ok_with(r: Reaction, order: u64, act: ActionT) -> bool {
    r.status == ReactionStatus::Success && r.act == act && r.order == order
}

fn text_json(s: &str) -> (r: Json)
    ensures
        is_text(r, s@),
{
    Json::String(str_to_string(s))
}

/// A failed reply whose document is `{"error": m}`.
pub fn make_failed(order: u64, act: ActionT, m: String) -> (r: Reaction)
    ensures
        failed_with(r, order, act, m@),
{
    let mut members: JsonMap = Vec::new();
    let k = str_to_string("error");
    proof {
        reveal_strlit("error");
    }
    members.push((k, Json::String(m)));
    Reaction { status: ReactionStatus::Failed, doc: Json::Object(members), act: act, order: order }
}

/// A failed reply whose document is `{"error": m}`.
pub fn make_failed_with_str(order: u64, act: ActionT, m: &str) -> (r: Reaction)
    ensures
        failed_with(r, order, act, m@),
{
    make_failed(order, act, str_to_string(m))
}

/// A successful reply with the document `doc`.
pub fn make_ok(order: u64, act: ActionT, doc: Json) -> (r: Reaction)
    ensures
        ok_with(r, order, act),
        r.doc == doc,
{
    Reaction { status: ReactionStatus::Success, order: order, act: act, doc: doc }
}

/// The name of a kind of request.
pub open spec fn action_name(act: ActionT) -> Seq<char> {
    match act {
        ActionT::Get => "get"@,
        ActionT::Publish => "publish"@,
        ActionT::Store => "store"@,
        ActionT::Submit => "submit"@,
    }
}

/// The name of a status.
pub open spec fn status_name(st: ReactionStatus) -> Seq<char> {
    match st {
        ReactionStatus::Success => "ok"@,
        ReactionStatus::Failed => "failed"@,
        ReactionStatus::Unknown => "unknown"@,
    }
}

/// The name of a kind of request: `get`, `publish`, `store` or `submit`.
pub fn make_action_string(act: &ActionT) -> (r: String)
    ensures
        r@ == action_name(*act),
{
    match act {
        ActionT::Get => str_to_string("get"),
        ActionT::Publish => str_to_string("publish"),
        ActionT::Store => str_to_string("store"),
        ActionT::Submit => str_to_string("submit"),
    }
}

/// The name of a status: `ok`, `failed` or `unknown`.
pub fn make_status_string(st: &ReactionStatus) -> (r: String)
    ensures
        r@ == status_name(*st),
{
    match st {
        ReactionStatus::Success => str_to_string("ok"),
        ReactionStatus::Failed => str_to_string("failed"),
        ReactionStatus::Unknown => str_to_string("unknown"),
    }
}

/// The message that carries a reply: `[order, status, kind, document]`.
pub fn make_reaction_message(r: Reaction) -> (m: Json)
    ensures
        m is Array,
        m->Array_0@.len() == 4,
        is_count(m->Array_0@[0], r.order),
        is_text(m->Array_0@[1], status_name(r.status)),
        is_text(m->Array_0@[2], action_name(r.act)),
        m->Array_0@[3] == r.doc,
{
    let mut items: Vec<Json> = Vec::new();
    items.push(Json::Number(JsonNumber::PosInt(r.order)));
    items.push(Json::String(make_status_string(&r.status)));
    items.push(Json::String(make_action_string(&r.act)));
    items.push(r.doc);
    Json::Array(items)
}

/// `[order, word]`.
pub open spec fn order_message(m: Json, order: u64, word: Seq<char>) -> bool {
    &&& m is Array
    &&& m->Array_0@.len() == 2
    &&& is_count(m->Array_0@[0], order)
    &&& is_text(m->Array_0@[1], word)
}

/// The message that accepts message number `order`: `[order, "accepted"]`.
pub fn make_accepted_message(order: u64) -> (m: Json)
    ensures
        order_message(m, order, "accepted"@),
{
    let mut items: Vec<Json> = Vec::new();
    items.push(Json::Number(JsonNumber::PosInt(order)));
    items.push(text_json("accepted"));
    Json::Array(items)
}

/// The message that rejects message number `order`: `[order, "rejected"]`.
pub fn make_rejected_message(order: u64) -> (m: Json)
    ensures
        order_message(m, order, "rejected"@),
{
    let mut items: Vec<Json> = Vec::new();
    items.push(Json::Number(JsonNumber::PosInt(order)));
    items.push(text_json("rejected"));
    Json::Array(items)
}


/// The kind of request a command word names, if any.
pub open spec fn command_kind(cmd: Seq<char>) -> Option<ActionT> {
    if cmd == "GET"@ {
        Some(ActionT::Get)
    } else if cmd == "PUBLISH"@ {
        Some(ActionT::Publish)
    } else if cmd == "STORE"@ {
        Some(ActionT::Store)
    } else if cmd == "SUBMIT"@ {
        Some(ActionT::Submit)
    } else {
        None
    }
}

/// The request named by the command word `cmd`, with its arguments and
/// document; `UnknownAction` for any other word.
pub fn process_cmd(cmd: &String, args: Vec<Json>, doc: JsonMap) -> (r: Result<Action, Error>)
    ensures
        match command_kind(cmd@) {
            Some(k) => r matches Ok(a) && a.act == k && a.args == args && a.doc == doc,
            None => r matches Err(Error::UnknownAction),
        },
{
    let c = cmd.as_str();
    if str_eq(c, "GET") {
        Ok(Action { args: args, doc: doc, act: ActionT::Get })
    } else if str_eq(c, "PUBLISH") {
        Ok(Action { args: args, doc: doc, act: ActionT::Publish })
    } else if str_eq(c, "STORE") {
        Ok(Action { args: args, doc: doc, act: ActionT::Store })
    } else if str_eq(c, "SUBMIT") {
        Ok(Action { args: args, doc: doc, act: ActionT::Submit })
    } else {
        Err(Error::UnknownAction)
    }
}

/// A message has the shape of a request: `[command, [args...], {doc}]`.
pub open spec fn request_shaped(v: Json) -> bool {
    &&& v is Array
    &&& v->Array_0@.len() == 3
    &&& v->Array_0@[0] is String
    &&& v->Array_0@[1] is Array
    &&& v->Array_0@[2] is Object
}

/// The request that a message text gives, from what the JSON parser made of
/// it: the parser's error as `Error::Json`; `Protocol` for JSON that is not
/// `[command, [args...], {doc}]`; else the request its command names.
pub fn process_parsed(parsed: Result<Json, String>) -> (r: Result<Action, Error>)
    ensures
        match parsed {
            Err(e) => r matches Err(Error::Json { err }) && err == e,
            Ok(v) => if request_shaped(v) {
                match command_kind(v->Array_0@[0]->String_0@) {
                    Some(k) => r matches Ok(a) && a.act == k && a.args == v->Array_0@[1]->Array_0
                        && a.doc == v->Array_0@[2]->Object_0,
                    None => r matches Err(Error::UnknownAction),
                }
            } else {
                r matches Err(Error::Protocol)
            },
        },
{
    match parsed {
        Ok(Json::Array(mut a)) => {
            if a.len() == 3 {
                let d = a.pop().unwrap();
                let args = a.pop().unwrap();
                let cmd = a.pop().unwrap();
                match (cmd, args, d) {
                    (Json::String(cmd), Json::Array(args), Json::Object(d)) => process_cmd(&cmd, args, d),
                    _ => Err(Error::Protocol),
                }
            } else {
                Err(Error::Protocol)
            }
        },
        Ok(_) => Err(Error::Protocol),
        Err(err) => Err(Error::Json { err: err }),
    }
}

/// The parse outcome holds a request whose command is known.
pub open spec fn gives_request(parsed: Result<Json, String>) -> bool {
    parsed matches Ok(v) && request_shaped(v) && command_kind(v->Array_0@[0]->String_0@) is Some
}

/// `a` is the request that the parsed message holds.
pub open spec fn request_from(parsed: Result<Json, String>, a: Action) -> bool {
    parsed matches Ok(v) && a.act == command_kind(v->Array_0@[0]->String_0@)->0 && a.args
        == v->Array_0@[1]->Array_0 && a.doc == v->Array_0@[2]->Object_0
}

/// What a connection receives, as far as the server tells it apart.
#[derive(Debug)]
pub enum Incoming {
    /// A text message, with what the JSON parser made of its text.
    Text(Result<Json, String>),
    Binary,
    Ping,
    Pong,
    /// A raw frame.
    Frame,
    /// A close message.
    Close,
    /// The stream has ended.
    End,
    /// A message longer than the connection accepts.
    TooLong,
    /// The connection is already closed.
    AlreadyClosed,
    /// The connection was closed.
    ConnectionClosed,
    /// The peer reset the connection without a closing handshake.
    ResetWithoutClosingHandshake,
    /// An input/output error.
    Io,
    /// Any other error.
    OtherError,
}

/// Whether the connection stays open after `msg`: text, binary, ping, pong
/// and over-long messages keep it open; an end, a close, an error or a raw
/// frame closes it.
pub open spec fn keeps_open(msg: Incoming) -> bool {
    match msg {
        Incoming::Text(_) | Incoming::Binary | Incoming::Ping | Incoming::Pong | Incoming::TooLong => true,
        _ => false,
    }
}

/// Handles what a connection receives: whether the connection stays open,
/// and the request to carry out, for a text message that holds one.
pub fn process(msg: Incoming) -> (r: (bool, Option<Action>))
    ensures
        r.0 == keeps_open(msg),
        match msg {
            Incoming::Text(parsed) => (r.1 is Some <==> gives_request(parsed)) && (r.1 matches Some(a)
                ==> request_from(parsed, a)),
            _ => r.1 is None,
        },
{
    match msg {
        Incoming::Text(parsed) => {
            let action = process_parsed(parsed);
            match action {
                Ok(a) => (true, Some(a)),
                Err(_) => (true, None),
            }
        },
        Incoming::Binary => (true, None),
        Incoming::Ping | Incoming::Pong => (true, None),
        Incoming::TooLong => (true, None),
        _ => (false, None),
    }
}


/// How a request names a stored rule: a revision of it, or its published
/// revision.
#[derive(Debug)]
pub enum RuleLookup {
    Revision(String, u64),
    Published(String),
    Latest(String),
}

/// The arguments name a revision with a number that is no non-negative
/// integer.
pub open spec fn bad_revision_args(args: Seq<Json>) -> bool {
    args.len() >= 2 && args[0] is String && args[1] is Number && number_u64(args[1]->Number_0) is None
}

/// `r` is the lookup the arguments of a request ask for: `[id, rev, ...]`
/// a revision, `[id]` the published revision, anything else none.
pub open spec fn lookup_of(args: Seq<Json>, r: Option<RuleLookup>) -> bool {
    if args.len() >= 2 && args[0] is String && args[1] is Number {
        r matches Some(RuleLookup::Revision(id, rev)) && id@ == args[0]->String_0@ && Some(rev) == number_u64(
            args[1]->Number_0,
        )
    } else if args.len() == 1 && args[0] is String {
        r matches Some(RuleLookup::Published(id)) && id@ == args[0]->String_0@
    } else {
        r is None
    }
}

/// `r` is the lookup the arguments of a publish request ask for:
/// `[id, rev, ...]` that revision, `[id]` the highest revision stored,
/// anything else none.
pub open spec fn publish_lookup_of(args: Seq<Json>, r: Option<RuleLookup>) -> bool {
    if args.len() >= 2 && args[0] is String && args[1] is Number {
        r matches Some(RuleLookup::Revision(id, rev)) && id@ == args[0]->String_0@ && Some(rev) == number_u64(
            args[1]->Number_0,
        )
    } else if args.len() == 1 && args[0] is String {
        r matches Some(RuleLookup::Latest(id)) && id@ == args[0]->String_0@
    } else {
        r is None
    }
}

/// The lookup the arguments of a request ask for (see `lookup_of`).
pub fn rule_lookup(args: &Vec<Json>) -> (r: Option<RuleLookup>)
    requires
        !bad_revision_args(args@),
    ensures
        lookup_of(args@, r),
{
    if args.len() >= 2 {
        match (&args[0], &args[1]) {
            (Json::String(id), Json::Number(rev)) => {
                return Some(RuleLookup::Revision(id.clone(), rev.as_u64().unwrap()));
            },
            _ => {},
        }
    }
    if args.len() == 1 {
        match &args[0] {
            Json::String(id) => {
                return Some(RuleLookup::Published(id.clone()));
            },
            _ => {},
        }
    }
    None
}

/// The lookup the arguments of a publish request ask for (see
/// `publish_lookup_of`). Publishing with an id alone publishes the highest
/// revision stored, as the protocol describes.
pub fn publish_lookup(args: &Vec<Json>) -> (r: Option<RuleLookup>)
    requires
        !bad_revision_args(args@),
    ensures
        publish_lookup_of(args@, r),
{
    match rule_lookup(args) {
        Some(RuleLookup::Published(id)) => Some(RuleLookup::Latest(id)),
        other => other,
    }
}

/// `{"id": id, "revision": rev}`.
fn revision_json(id: &String, rev: u64) -> (r: Json)
    ensures
        revision_doc(r, id@, rev),
{
    let mut members: JsonMap = Vec::new();
    members.push((str_to_string("id"), Json::String(id.clone())));
    members.push((str_to_string("revision"), Json::Number(JsonNumber::PosInt(rev))));
    Json::Object(members)
}

/// The reply to a publish request: `found` is the rule it named, if it was
/// found, and `published` whether making it the published revision worked.
pub fn publish_reaction(order: u64, found: Option<&Rule>, published: bool) -> (r: Reaction)
    ensures
        match found {
            Some(rule) => if published {
                ok_with(r, order, ActionT::Publish) && revision_doc(r.doc, rule.id_view(), rule.rev_view())
            } else {
                failed_with(r, order, ActionT::Publish, "failed change version"@)
            },
            None => failed_with(r, order, ActionT::Publish, "rule not found"@),
        },
{
    match found {
        Some(rule) => {
            if published {
                let doc = revision_json(&rule.id(), rule.rev());
                make_ok(order, ActionT::Publish, doc)
            } else {
                make_failed_with_str(order, ActionT::Publish, "failed change version")
            }
        },
        None => make_failed_with_str(order, ActionT::Publish, "rule not found"),
    }
}

/// `failed to open rule file (path=<path, as {:?} writes it>)`.
pub open spec fn open_failed_text(path: Seq<char>) -> Seq<char> {
    "failed to open rule file (path="@ + path_debug_text(path) + ")"@
}

/// The reply to a get request: `found` is the rule it named, if it was
/// found, and `content` the document read from its file, if the file
/// opened.
pub fn get_reaction(order: u64, found: Option<&Rule>, content: Option<Json>) -> (r: Reaction)
    ensures
        match found {
            Some(rule) => match content {
                Some(doc) => ok_with(r, order, ActionT::Get) && r.doc == doc,
                None => failed_with(r, order, ActionT::Get, open_failed_text(rule.path_view())),
            },
            None => failed_with(r, order, ActionT::Get, "rule not found"@),
        },
{
    match found {
        Some(rule) => match content {
            Some(doc) => make_ok(order, ActionT::Get, doc),
            None => {
                let p = rule.path();
                let d = path_debug_string(p.as_str());
                let a = concat("failed to open rule file (path=", d.as_str());
                let m = concat(a.as_str(), ")");
                make_failed(order, ActionT::Get, m)
            },
        },
        None => make_failed_with_str(order, ActionT::Get, "rule not found"),
    }
}

/// `r` is the id a store request stores under: the one given first, a
/// fresh random one where none is given, and none where the first argument
/// is not a string.
pub open spec fn store_id_of(args: Seq<Json>, r: Option<String>) -> bool {
    if args.len() == 0 {
        r matches Some(id) && is_uuid_v4_text(id@)
    } else if args[0] is String {
        r matches Some(id) && id@ == args[0]->String_0@
    } else {
        r is None
    }
}

/// The id a store request stores under (see `store_id_of`).
pub fn store_id(args: &Vec<Json>) -> (r: Option<String>)
    ensures
        store_id_of(args@, r),
{
    if args.len() == 0 {
        return Some(new_uuid_v4());
    }
    match &args[0] {
        Json::String(id) => Some(id.clone()),
        _ => None,
    }
}

/// The record of one `in_effect` entry of a stored rule document.
pub fn val_to_in_effect(o: &Json) -> (r: InEffect)
    requires
        in_effect_well_formed(*o),
    ensures
        in_effect_of(*o, r),
{
    InEffect {
        loc: member_string(o, "in"),
        from: member_string(o, "from"),
        to: member_string(o, "to"),
        tz: member_string(o, "tz"),
    }
}

/// What storing a rule document leads to: the reply, and what to record
/// about the rule.
#[derive(Debug)]
pub struct StoreOutcome {
    pub reaction: Reaction,
    /// When and where the rule is in effect, where the document says so.
    pub in_effect: Option<Vec<InEffect>>,
    /// The keys the rule applies to, where the document names them.
    pub keys: Option<Vec<String>>,
}

/// `in_effect`.
pub open spec fn in_effect_key() -> Seq<char> {
    "in_effect"@
}

/// `input_conditions`.
pub open spec fn input_conditions_key() -> Seq<char> {
    "input_conditions"@
}

/// A stored rule document can be recorded: it has the members
/// `in_effect` and `input_conditions`; every entry of an `in_effect` array
/// is well formed, and so is every entry of an `input_conditions` array.
pub open spec fn recordable(d: Seq<(String, Json)>) -> bool {
    &&& member_lookup(d, in_effect_key()) is Some
    &&& member_lookup(d, input_conditions_key()) is Some
    &&& member_lookup(d, in_effect_key())->0 matches Json::Array(a) ==> forall|i: int|
        0 <= i < a@.len() ==> in_effect_well_formed(#[trigger] a@[i])
    &&& member_lookup(d, input_conditions_key())->0 matches Json::Array(a) ==> forall|i: int|
        0 <= i < a@.len() ==> condition_well_formed(#[trigger] a@[i])
}

fn in_effects_of(a: &Vec<Json>) -> (r: Vec<InEffect>)
    requires
        forall|i: int| 0 <= i < a@.len() ==> in_effect_well_formed(#[trigger] a@[i]),
    ensures
        r@.len() == a@.len(),
        forall|i: int| 0 <= i < a@.len() ==> in_effect_of(a@[i], #[trigger] r@[i]),
{
    let mut r: Vec<InEffect> = Vec::new();
    let mut i: usize = 0;
    while i < a.len()
        invariant
            i <= a.len(),
            forall|i: int| 0 <= i < a@.len() ==> in_effect_well_formed(#[trigger] a@[i]),
            r@.len() == i,
            forall|j: int| 0 <= j < i ==> in_effect_of(a@[j], #[trigger] r@[j]),
        decreases a.len() - i,
    {
        r.push(val_to_in_effect(&a[i]));
        i += 1;
    }
    r
}

/// What storing the document `d` as revision `rule` leads to, given whether
/// writing it worked. Where it did, the reply carries the rule's id and
/// revision, and the document's `in_effect` entries and the keys of its
/// `input_conditions` are to be recorded (where they are arrays). Where it
/// did not, the reply is a failure and nothing is recorded. The protocol
/// labels that failure with the act `publish`, not `store`: a client
/// matches a reply to its request by the order number, not by the act.
pub fn store_outcome(order: u64, rule: &Rule, stored: bool, d: &JsonMap) -> (r: StoreOutcome)
    requires
        stored ==> recordable(d@),
    ensures
        stored ==> ok_with(r.reaction, order, ActionT::Store) && revision_doc(
            r.reaction.doc,
            rule.id_view(),
            rule.rev_view(),
        ),
        stored ==> match member_lookup(d@, in_effect_key())->0 {
            Json::Array(a) => r.in_effect matches Some(v) && v@.len() == a@.len() && forall|i: int|
                0 <= i < a@.len() ==> in_effect_of(a@[i], #[trigger] v@[i]),
            _ => r.in_effect is None,
        },
        stored ==> match member_lookup(d@, input_conditions_key())->0 {
            Json::Array(a) => r.keys matches Some(k) && views(k@) == applicable_keys(a@),
            _ => r.keys is None,
        },
        !stored ==> failed_with(r.reaction, order, ActionT::Publish, "failed store"@) && r.in_effect is None
            && r.keys is None,
{
    if !stored {
        return StoreOutcome {
            reaction: make_failed_with_str(order, ActionT::Publish, "failed store"),
            in_effect: None,
            keys: None,
        };
    }
    let resp = revision_json(&rule.id(), rule.rev());
    let ie = members_get(d, "in_effect").unwrap();
    let in_effect = match ie {
        Json::Array(a) => Some(in_effects_of(a)),
        _ => None,
    };
    let conds = members_get(d, "input_conditions").unwrap();
    let keys = match conds {
        Json::Array(a) => Some(condition_keys_of(a)),
        _ => None,
    };
    StoreOutcome { reaction: make_ok(order, ActionT::Store, resp), in_effect: in_effect, keys: keys }
}

/// The reply to a submit request: the document is queued, and the reply
/// carries the id it is queued under (`{"id": id}`). Queueing always
/// succeeds; the failure reply it would give otherwise is labelled with the
/// act `publish`, as a failed store is.
pub fn do_submit(args: &Vec<Json>, d: &JsonMap, order: u64) -> (r: Reaction)
    ensures
        ok_with(r, order, ActionT::Submit),
        exists|id: Seq<char>| is_uuid_v4_text(id) && id_doc(r.doc, id),
{
    match submissions::store(d) {
        Some(id) => {
            let mut members: JsonMap = Vec::new();
            members.push((str_to_string("id"), Json::String(id)));
            let doc = Json::Object(members);
            make_ok(order, ActionT::Submit, doc)
        },
        None => make_failed_with_str(order, ActionT::Publish, "failed to queue"),
    }
}

/// What carrying out a request takes.
#[derive(Debug)]
pub enum Plan {
    /// Read the rule the lookup finds, and reply with its document.
    Get(Option<RuleLookup>),
    /// Publish the rule the lookup finds.
    Publish(Option<RuleLookup>),
    /// Store the document as the next revision of the rule with this id.
    Store(String, JsonMap),
    /// Send this reply; nothing else is needed.
    Reply(Reaction),
}

/// How the request `action`, numbered `order`, is carried out: a get or a
/// publish looks up the rule its arguments name; a store stores under the
/// id its arguments give (a fresh one where they give none) and is refused
/// with `unknown id` where the first argument is no string; a submit is
/// queued and answered at once.
pub fn plan(action: Action, order: u64) -> (r: Plan)
    requires
        (action.act == ActionT::Get || action.act == ActionT::Publish) ==> !bad_revision_args(action.args@),
    ensures
        match action.act {
            ActionT::Get => r matches Plan::Get(l) && lookup_of(action.args@, l),
            ActionT::Publish => r matches Plan::Publish(l) && publish_lookup_of(action.args@, l),
            ActionT::Store => match r {
                Plan::Store(id, d) => store_id_of(action.args@, Some(id)) && d@ == action.doc@,
                Plan::Reply(re) => store_id_of(action.args@, None) && failed_with(
                    re,
                    order,
                    ActionT::Store,
                    "unknown id"@,
                ),
                _ => false,
            },
            ActionT::Submit => r matches Plan::Reply(re) && ok_with(re, order, ActionT::Submit) && exists|id: Seq<
                char,
            >| is_uuid_v4_text(id) && id_doc(re.doc, id),
        },
{
    let Action { args, doc, act } = action;
    match act {
        ActionT::Get => Plan::Get(rule_lookup(&args)),
        ActionT::Publish => Plan::Publish(publish_lookup(&args)),
        ActionT::Store => match store_id(&args) {
            Some(id) => Plan::Store(id, doc),
            None => {
                let r = make_failed_with_str(order, ActionT::Store, "unknown id");
                Plan::Reply(r)
            },
        },
        ActionT::Submit => Plan::Reply(do_submit(&args, &doc, order)),
    }
}

/// The order given to the next message of a connection, and the counter
/// after it: a known connection's counter goes up by one (wrapping, as
/// `fetch_add` does), an unknown connection's messages are all numbered 0
/// and it stays unknown.
pub open spec fn order_next(counter: Option<u64>) -> (u64, Option<u64>) {
    match counter {
        Some(c) => (c, Some(if c == u64::MAX { 0 } else { (c + 1) as u64 })),
        None => (0, None),
    }
}

/// The order numbers that `n` messages in a row receive, starting from the
/// counter `counter`.
pub open spec fn orders_from(counter: Option<u64>, n: nat) -> Seq<u64>
    decreases n,
{
    if n == 0 {
        Seq::empty()
    } else {
        seq![order_next(counter).0] + orders_from(order_next(counter).1, (n - 1) as nat)
    }
}

/// The next order number and counter (see `order_next`).
pub fn order_step(counter: Option<u64>) -> (r: (u64, Option<u64>))
    ensures
        r == order_next(counter),
{
    match counter {
        Some(c) => (c, Some(if c == u64::MAX { 0 } else { c + 1 })),
        None => (0, None),
    }
}

/// A connection whose counter stands at `c` numbers its next messages
/// `c`, `c + 1`, `c + 2`, ... (modulo 2^64), so no two of its next 2^64
/// messages share a number; a connection without a counter numbers every
/// message 0.
pub proof fn law_orders_count_up(c: u64, n: nat)
    ensures
        orders_from(Some(c), n).len() == n,
        orders_from(None, n).len() == n,
        forall|k: int| 0 <= k < n ==> #[trigger] orders_from(Some(c), n)[k] == (c + k) % 0x1_0000_0000_0000_0000,
        forall|k: int| 0 <= k < n ==> #[trigger] orders_from(None, n)[k] == 0,
        n <= 0x1_0000_0000_0000_0000 ==> forall|i: int, j: int|
            0 <= i < j < n ==> orders_from(Some(c), n)[i] != orders_from(Some(c), n)[j],
    decreases n,
{
    if n > 0 {
        let next: u64 = if c == u64::MAX { 0 } else { (c + 1) as u64 };
        law_orders_count_up(next, (n - 1) as nat);
        let s = orders_from(Some(c), n);
        let t = orders_from(Some(next), (n - 1) as nat);
        let z = orders_from(None, (n - 1) as nat);
        assert(s == seq![c] + t);
        assert(orders_from(None, n) == seq![0u64] + z);
        assert forall|k: int| 0 <= k < n implies #[trigger] s[k] == (c + k) % 0x1_0000_0000_0000_0000 by {
            if k > 0 {
                assert(s[k] == t[k - 1]);
                assert(t[k - 1] == (next + (k - 1)) % 0x1_0000_0000_0000_0000);
                if c == u64::MAX {
                    assert((c + k) % 0x1_0000_0000_0000_0000 == (k - 1) % 0x1_0000_0000_0000_0000) by {
                        vstd::arithmetic::div_mod::lemma_mod_add_multiples_vanish(k - 1, 0x1_0000_0000_0000_0000);
                    }
                }
            }
        }
        assert forall|k: int| 0 <= k < n implies #[trigger] orders_from(None, n)[k] == 0 by {
            if k > 0 {
                assert(orders_from(None, n)[k] == z[k - 1]);
            }
        }
        if n <= 0x1_0000_0000_0000_0000 {
            assert forall|i: int, j: int| 0 <= i < j < n implies s[i] != s[j] by {
                assert(s[i] == (c + i) % 0x1_0000_0000_0000_0000);
                assert(s[j] == (c + j) % 0x1_0000_0000_0000_0000);
            }
        }
    }
}

} // verus!
