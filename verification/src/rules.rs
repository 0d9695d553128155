//! The parts of a rule: when and where it is in effect, the conditions it
//! puts on a document, the assertions it makes, and its properties.
use vstd::prelude::*;
use crate::json::{str_eq, str_to_string};
use crate::outside::{
    new_uuid_v4, is_uuid_v4_text, naive_datetime_seconds, parse_naive_datetime_seconds,
    regex_capture, regex_first_capture, tz_is_known, tz_name_known, utc_datetime_string,
    utc_datetime_text,
};
use crate::text::{parse_u64, parse_u64_spec};

verus! {

/// An instant, in whole seconds since the Unix epoch, that chrono can
/// display as a date and time in UTC.
#[derive(Debug)]
pub struct UtcTime {
    secs: i64,
}

impl UtcTime {
    /// The instant can be displayed.
    #[verifier::type_invariant]
    closed spec fn displayable(self) -> bool {
        utc_datetime_text(self.secs) is Some
    }

    /// The seconds since the Unix epoch.
    pub closed spec fn seconds(self) -> i64 {
        self.secs
    }

    /// The Unix epoch (`DateTime::<Utc>::default()`).
    pub fn epoch() -> (r: UtcTime)
        ensures
            r.seconds() == 0,
    {
        let _ = utc_datetime_string(0);
        UtcTime { secs: 0 }
    }

    /// The seconds since the Unix epoch.
    pub fn secs(&self) -> (r: i64)
        ensures
            r == self.seconds(),
    {
        self.secs
    }

    /// A copy of this instant.
    pub fn copy(&self) -> (r: UtcTime)
        ensures
            r.seconds() == self.seconds(),
    {
        proof {
            use_type_invariant(self);
        }
        UtcTime { secs: self.secs }
    }

    /// How chrono displays this instant, such as `2024-05-01 12:30:00 UTC`.
    pub fn to_string(&self) -> (r: String)
        ensures
            utc_datetime_text(self.seconds()) == Some(r@),
    {
        proof {
            use_type_invariant(self);
        }
        utc_datetime_string(self.secs).unwrap()
    }
}

/// `%Y-%m-%dT%H:%M`, the format of the dates in a rule.
pub open spec fn date_format() -> Seq<char> {
    "%Y-%m-%dT%H:%M"@
}

/// The instant that `s` names in the format of the dates in a rule, read in
/// UTC; `None` where `s` is not such a date.
pub fn dt_from_str(s: &str) -> (r: Option<UtcTime>)
    ensures
        match r {
            Some(t) => naive_datetime_seconds(s@, date_format()) == Some(t.seconds()),
            None => naive_datetime_seconds(s@, date_format()) is None,
        },
{
    match parse_naive_datetime_seconds(s, "%Y-%m-%dT%H:%M") {
        Some(secs) => Some(UtcTime { secs: secs }),
        None => None,
    }
}

/// When and where a rule is in effect.
#[derive(Debug)]
pub struct InEffect {
    pub jurisdiction: Option<String>,
    pub from: Option<UtcTime>,
    pub to: Option<UtcTime>,
    pub tz: Option<String>,
}

/// The view of an optional string.
pub open spec fn opt_view(o: Option<String>) -> Option<Seq<char>> {
    match o {
        Some(s) => Some(s@),
        None => None,
    }
}

/// The seconds of an optional instant.
pub open spec fn opt_seconds(o: Option<UtcTime>) -> Option<i64> {
    match o {
        Some(t) => Some(t.seconds()),
        None => None,
    }
}

fn copy_opt_string(o: &Option<String>) -> (r: Option<String>)
    ensures
        opt_view(r) == opt_view(*o),
{
    match o {
        Some(s) => Some(s.clone()),
        None => None,
    }
}

fn copy_opt_time(o: &Option<UtcTime>) -> (r: Option<UtcTime>)
    ensures
        opt_seconds(r) == opt_seconds(*o),
{
    match o {
        Some(t) => Some(t.copy()),
        None => None,
    }
}

impl InEffect {
    /// In effect with nothing said yet.
    pub fn new() -> (r: Self)
        ensures
            r.jurisdiction is None && r.from is None && r.to is None && r.tz is None,
    {
        InEffect { jurisdiction: None, from: None, to: None, tz: None }
    }

    /// Sets the jurisdiction to `v`.
    pub fn set_jurisdiction(&mut self, v: &str)
        ensures
            opt_view(final(self).jurisdiction) == Some(v@),
            opt_seconds(final(self).from) == opt_seconds(old(self).from),
            opt_seconds(final(self).to) == opt_seconds(old(self).to),
            opt_view(final(self).tz) == opt_view(old(self).tz),
    {
        self.jurisdiction = Some(str_to_string(v));
    }

    /// Sets the start to the date `v`; unset where `v` is no such date.
    pub fn set_from(&mut self, v: &str)
        ensures
            opt_seconds(final(self).from) == naive_datetime_seconds(v@, date_format()),
            opt_view(final(self).jurisdiction) == opt_view(old(self).jurisdiction),
            opt_seconds(final(self).to) == opt_seconds(old(self).to),
            opt_view(final(self).tz) == opt_view(old(self).tz),
    {
        self.from = dt_from_str(v);
    }

    /// Sets the end to the date `v`; unset where `v` is no such date.
    pub fn set_to(&mut self, v: &str)
        ensures
            opt_seconds(final(self).to) == naive_datetime_seconds(v@, date_format()),
            opt_view(final(self).jurisdiction) == opt_view(old(self).jurisdiction),
            opt_seconds(final(self).from) == opt_seconds(old(self).from),
            opt_view(final(self).tz) == opt_view(old(self).tz),
    {
        self.to = dt_from_str(v);
    }

    /// Sets the time zone to the one named `v`; unset where no time zone
    /// has that name.
    pub fn set_tz(&mut self, v: &str)
        ensures
            opt_view(final(self).tz) == (if tz_name_known(v@) { Some(v@) } else { None }),
            opt_view(final(self).jurisdiction) == opt_view(old(self).jurisdiction),
            opt_seconds(final(self).from) == opt_seconds(old(self).from),
            opt_seconds(final(self).to) == opt_seconds(old(self).to),
    {
        self.tz = if tz_is_known(v) {
            Some(str_to_string(v))
        } else {
            None
        };
    }

    /// A copy of this record.
    pub fn copy(&self) -> (r: Self)
        ensures
            opt_view(r.jurisdiction) == opt_view(self.jurisdiction),
            opt_seconds(r.from) == opt_seconds(self.from),
            opt_seconds(r.to) == opt_seconds(self.to),
            opt_view(r.tz) == opt_view(self.tz),
    {
        InEffect {
            jurisdiction: copy_opt_string(&self.jurisdiction),
            from: copy_opt_time(&self.from),
            to: copy_opt_time(&self.to),
            tz: copy_opt_string(&self.tz),
        }
    }
}

/// The outcome a rule gives for a scenario.
#[derive(Debug, Clone, Copy, PartialEq, Eq)]
pub enum Case {
    False,
    True,
    Maybe,
    Both,
    Invalid,
}

/// A comparison in a condition.
#[derive(Debug, Clone, Copy, PartialEq, Eq)]
pub enum Op {
    Eq,
    Neq,
    Lt,
    Gt,
    Lte,
    Gte,
    Unk,
}

/// The value a condition compares with: a number, a quoted string, or
/// neither.
#[derive(Debug)]
pub enum Value {
    Ord(u64),
    Str(String),
    Invalid,
}

/// `^'(.+)'$`, the pattern of a quoted string value.
pub open spec fn quoted_pattern() -> Seq<char> {
    "^'(.+)'$"@
}

/// `^(\d+)$`, the pattern of a number value.
pub open spec fn number_pattern() -> Seq<char> {
    "^(\\d+)$"@
}

/// The value written as `v`: the text between the quotes where `v` matches
/// the quoted pattern, else the number where it matches the number pattern.
pub open spec fn parsed_value(v: Seq<char>, r: Value) -> bool {
    match regex_first_capture(quoted_pattern(), v, 1) {
        Some(s) => r is Str && r->Str_0@ == s,
        None => match regex_first_capture(number_pattern(), v, 1) {
            Some(d) => r == Value::Ord(parse_u64_spec(d)->0),
            None => r is Invalid,
        },
    }
}

/// `v` can be read as a value: where it is taken as a number, its digits
/// fit in 64 bits.
pub open spec fn value_readable(v: Seq<char>) -> bool {
    regex_first_capture(quoted_pattern(), v, 1) is None ==> (regex_first_capture(
        number_pattern(),
        v,
        1,
    ) matches Some(d) ==> parse_u64_spec(d) is Some)
}

/// Whether the value `v` matches the text `t`: a string the same text, a
/// number the number `t` reads as.
pub open spec fn value_matches(v: Value, t: Seq<char>) -> bool {
    match v {
        Value::Str(s) => s@ == t,
        Value::Ord(o) => parse_u64_spec(t) == Some(o),
        Value::Invalid => false,
    }
}

/// `t` can be compared with `v`: a number is compared with text that reads
/// as a number.
pub open spec fn comparable(v: Value, t: Seq<char>) -> bool {
    v is Ord ==> parse_u64_spec(t) is Some
}

impl Value {
    /// The value given the two pattern matches: `quoted`, the text between
    /// the quotes, and `digits`, the digits of a number.
    pub fn from_captures(quoted: Option<String>, digits: Option<String>) -> (r: Value)
        requires
            quoted is None ==> (digits matches Some(d) ==> parse_u64_spec(d@) is Some),
        ensures
            match quoted {
                Some(s) => r is Str && r->Str_0@ == s@,
                None => match digits {
                    Some(d) => r == Value::Ord(parse_u64_spec(d@)->0),
                    None => r is Invalid,
                },
            },
    {
        match quoted {
            Some(s) => Value::Str(s),
            None => match digits {
                Some(d) => Value::Ord(parse_u64(d.as_str()).unwrap()),
                None => Value::Invalid,
            },
        }
    }

    /// The value written as `v` (see `parsed_value`).
    pub fn parse(v: &str) -> (r: Value)
        requires
            value_readable(v@),
        ensures
            parsed_value(v@, r),
    {
        let quoted = regex_capture("^'(.+)'$", v, 1);
        if quoted.is_some() {
            return Value::from_captures(quoted, None);
        }
        let digits = regex_capture("^(\\d+)$", v, 1);
        Value::from_captures(None, digits)
    }

    /// The value written as `v`, or `None` where `v` cannot be read as one
    /// (its digits do not fit in 64 bits).
    pub fn try_parse(v: &str) -> (r: Option<Value>)
        ensures
            match r {
                Some(x) => value_readable(v@) && parsed_value(v@, x),
                None => !value_readable(v@),
            },
    {
        if regex_capture("^'(.+)'$", v, 1).is_none() {
            match regex_capture("^(\\d+)$", v, 1) {
                Some(d) => {
                    if parse_u64(d.as_str()).is_none() {
                        return None;
                    }
                },
                None => {},
            }
        }
        Some(Value::parse(v))
    }

    /// Whether `v` matches the text `to_match` (see `value_matches`).
    pub fn matches(v: &Value, to_match: &String) -> (r: bool)
        requires
            comparable(*v, to_match@),
        ensures
            r == value_matches(*v, to_match@),
    {
        match v {
            Value::Str(s) => str_eq(s.as_str(), to_match.as_str()),
            Value::Ord(o) => *o == parse_u64(to_match.as_str()).unwrap(),
            Value::Invalid => false,
        }
    }

    /// A copy of this value.
    pub fn copy(&self) -> (r: Value)
        ensures
            r == *self,
    {
        match self {
            Value::Ord(o) => Value::Ord(*o),
            Value::Str(s) => Value::Str(s.clone()),
            Value::Invalid => Value::Invalid,
        }
    }
}

/// Copies of the cases of `cases`.
pub fn copy_cases(cases: &Vec<Case>) -> (r: Vec<Case>)
    ensures
        r@ == cases@,
{
    let mut r: Vec<Case> = Vec::new();
    let mut i: usize = 0;
    while i < cases.len()
        invariant
            i <= cases.len(),
            r@ == cases@.take(i as int),
        decreases cases.len() - i,
    {
        r.push(cases[i]);
        assert(cases@.take(i + 1) == cases@.take(i as int).push(cases@[i as int]));
        i += 1;
    }
    assert(cases@.take(cases.len() as int) == cases@);
    r
}

/// A condition of a rule: the document's value under `key` compared with
/// `val`, and the outcome it gives each scenario.
#[derive(Debug)]
pub struct Condition {
    pub key: String,
    pub val: Value,
    pub op: Op,
    pub cases: Vec<Case>,
}

impl Condition {
    /// The condition on `k`, comparing by `op` with the value written as `v`.
    pub fn new(k: &str, v: &str, op: Op, cases: &Vec<Case>) -> (r: Self)
        requires
            value_readable(v@),
        ensures
            r.key@ == k@,
            parsed_value(v@, r.val),
            r.op == op,
            r.cases@ == cases@,
    {
        Condition { key: str_to_string(k), val: Value::parse(v), op: op, cases: copy_cases(cases) }
    }

    /// The same as `new`, or `None` where `v` cannot be read as a value.
    pub fn try_new(k: &str, v: &str, op: Op, cases: &Vec<Case>) -> (r: Option<Self>)
        ensures
            match r {
                Some(c) => value_readable(v@) && c.key@ == k@ && parsed_value(v@, c.val) && c.op
                    == op && c.cases@ == cases@,
                None => !value_readable(v@),
            },
    {
        match Value::try_parse(v) {
            Some(_) => Some(Condition::new(k, v, op, cases)),
            None => None,
        }
    }

    /// A copy of this condition.
    pub fn copy(&self) -> (r: Self)
        ensures
            r.key@ == self.key@,
            r.val == self.val,
            r.op == self.op,
            r.cases@ == self.cases@,
    {
        Condition { key: self.key.clone(), val: self.val.copy(), op: self.op, cases: copy_cases(&self.cases) }
    }
}

/// The outcomes `cases[i]` for each `i` of `idxs` in turn, passing over
/// numbers past the end of `cases`.
pub open spec fn picked_cases(cases: Seq<Case>, idxs: Seq<usize>) -> Seq<Case>
    decreases idxs.len(),
{
    if idxs.len() == 0 {
        Seq::empty()
    } else {
        let rest = picked_cases(cases, idxs.drop_last());
        if idxs.last() < cases.len() {
            rest.push(cases[idxs.last() as int])
        } else {
            rest
        }
    }
}

/// A key and the value asserted for it.
#[derive(Debug)]
struct AssertedValue(String, String);

/// An assertion of a rule: values asserted, and the outcome for each
/// scenario.
#[derive(Debug)]
pub struct Assertion {
    vals: Vec<AssertedValue>,
    cases: Vec<Case>,
}

impl Assertion {
    /// The asserted keys and values, in order.
    pub closed spec fn values(&self) -> Seq<(Seq<char>, Seq<char>)> {
        self.vals@.map_values(|a: AssertedValue| (a.0@, a.1@))
    }

    /// The outcome for each scenario.
    pub closed spec fn case_list(&self) -> Seq<Case> {
        self.cases@
    }

    /// The assertion that `k` has the value `v` (one value only).
    pub fn new(k: &str, v: &str, cases: &Vec<Case>) -> (r: Self)
        ensures
            r.values() == seq![(k@, v@)],
            r.case_list() == cases@,
    {
        let mut vals: Vec<AssertedValue> = Vec::new();
        vals.push(AssertedValue(str_to_string(k), str_to_string(v)));
        let r = Assertion { vals: vals, cases: copy_cases(cases) };
        assert(r.values() =~= seq![(k@, v@)]);
        r
    }

    /// The outcome for each scenario.
    pub fn cases(&self) -> (r: Vec<Case>)
        ensures
            r@ == self.case_list(),
    {
        copy_cases(&self.cases)
    }

    /// The asserted keys, in order.
    pub fn keys(&self) -> (r: Vec<String>)
        ensures
            r@.len() == self.values().len(),
            forall|i: int| 0 <= i < r@.len() ==> (#[trigger] r@[i])@ == self.values()[i].0,
    {
        let mut r: Vec<String> = Vec::new();
        let mut i: usize = 0;
        while i < self.vals.len()
            invariant
                i <= self.vals.len(),
                r@.len() == i,
                forall|j: int| 0 <= j < i ==> (#[trigger] r@[j])@ == self.vals@[j].0@,
            decreases self.vals.len() - i,
        {
            r.push(self.vals[i].0.clone());
            i += 1;
        }
        r
    }

    /// This assertion narrowed to the scenarios numbered `idxs`, in their
    /// order: its values, with the outcomes of those scenarios (numbers
    /// past its outcomes are passed over).
    pub fn reduce(&self, idxs: &Vec<usize>) -> (r: Self)
        ensures
            r.values() == self.values(),
            r.case_list() == picked_cases(self.case_list(), idxs@),
    {
        let mut cases: Vec<Case> = Vec::new();
        let mut i: usize = 0;
        while i < idxs.len()
            invariant
                i <= idxs.len(),
                cases@ == picked_cases(self.cases@, idxs@.take(i as int)),
            decreases idxs.len() - i,
        {
            assert(idxs@.take(i + 1).drop_last() == idxs@.take(i as int));
            let k = idxs[i];
            if k < self.cases.len() {
                cases.push(self.cases[k]);
            }
            i += 1;
        }
        assert(idxs@.take(idxs.len() as int) == idxs@);
        let vals = self.copy().vals;
        Assertion { vals: vals, cases: cases }
    }

    /// A copy of this assertion.
    pub fn copy(&self) -> (r: Self)
        ensures
            r.values() == self.values(),
            r.case_list() == self.case_list(),
    {
        let mut vals: Vec<AssertedValue> = Vec::new();
        let mut i: usize = 0;
        while i < self.vals.len()
            invariant
                i <= self.vals.len(),
                vals@.len() == i,
                forall|j: int| 0 <= j < i ==> (#[trigger] vals@[j]).0@ == self.vals@[j].0@
                    && vals@[j].1@ == self.vals@[j].1@,
            decreases self.vals.len() - i,
        {
            vals.push(AssertedValue(self.vals[i].0.clone(), self.vals[i].1.clone()));
            i += 1;
        }
        let r = Assertion { vals: vals, cases: copy_cases(&self.cases) };
        assert(r.values() =~= self.values());
        r
    }
}


/// The property map that a list of (key, value) settings leaves behind:
/// each setting replaces any earlier value of its key.
pub open spec fn props_of(pairs: Seq<(String, String)>) -> Map<Seq<char>, Seq<char>>
    decreases pairs.len(),
{
    if pairs.len() == 0 {
        Map::empty()
    } else {
        props_of(pairs.drop_last()).insert(pairs.last().0@, pairs.last().1@)
    }
}

/// `ID`, the property that holds a rule's id.
pub open spec fn id_key() -> Seq<char> {
    "ID"@
}

/// A rule: its properties, when and where it is in effect, its conditions
/// and its assertions.
#[derive(Debug)]
pub struct Rule {
    props: Vec<(String, String)>,
    pub in_effect: Vec<InEffect>,
    pub conditions: Vec<Condition>,
    assertions: Vec<Assertion>,
}

/// The value the last setting of `k` among `pairs[0..n]` gives it.
proof fn lemma_props_of_prefix(pairs: Seq<(String, String)>, n: int, k: Seq<char>)
    requires
        0 <= n <= pairs.len(),
        forall|j: int| n <= j < pairs.len() ==> (#[trigger] pairs[j]).0@ != k,
    ensures
        props_of(pairs).contains_key(k) == props_of(pairs.take(n)).contains_key(k),
        props_of(pairs).contains_key(k) ==> props_of(pairs)[k] == props_of(pairs.take(n))[k],
    decreases pairs.len(),
{
    if n < pairs.len() {
        assert(pairs.drop_last().take(n) == pairs.take(n));
        lemma_props_of_prefix(pairs.drop_last(), n, k);
    } else {
        assert(pairs.take(n) == pairs);
    }
}

impl Rule {
    /// The properties of the rule.
    pub closed spec fn props_map(&self) -> Map<Seq<char>, Seq<char>> {
        props_of(self.props@)
    }

    /// When and where the rule is in effect.
    pub closed spec fn in_effect_list(&self) -> Seq<InEffect> {
        self.in_effect@
    }

    /// The conditions of the rule.
    pub closed spec fn condition_list(&self) -> Seq<Condition> {
        self.conditions@
    }

    /// The assertions of the rule.
    pub closed spec fn assertion_list(&self) -> Seq<Assertion> {
        self.assertions@
    }

    /// A rule with nothing in it.
    pub fn new() -> (r: Self)
        ensures
            r.props_map() == Map::<Seq<char>, Seq<char>>::empty(),
            r.in_effect_list().len() == 0,
            r.condition_list().len() == 0,
            r.assertion_list().len() == 0,
    {
        Rule { props: Vec::new(), in_effect: Vec::new(), conditions: Vec::new(), assertions: Vec::new() }
    }

    /// Adds a copy of `ie` to when and where the rule is in effect.
    pub fn add_in_effect(&mut self, ie: &InEffect)
        ensures
            final(self).props_map() == old(self).props_map(),
            final(self).in_effect_list().len() == old(self).in_effect_list().len() + 1,
            final(self).in_effect_list().take(old(self).in_effect_list().len() as int) == old(self).in_effect_list(),
            opt_view(final(self).in_effect_list().last().jurisdiction) == opt_view(ie.jurisdiction),
            opt_seconds(final(self).in_effect_list().last().from) == opt_seconds(ie.from),
            opt_seconds(final(self).in_effect_list().last().to) == opt_seconds(ie.to),
            opt_view(final(self).in_effect_list().last().tz) == opt_view(ie.tz),
            final(self).condition_list() == old(self).condition_list(),
            final(self).assertion_list() == old(self).assertion_list(),
    {
        let c = ie.copy();
        self.in_effect.push(c);
        assert(self.in_effect@.take(old(self).in_effect@.len() as int) == old(self).in_effect@);
    }

    /// Sets the property `k` to `v`, replacing any earlier value.
    pub fn add_prop(&mut self, k: &str, v: &str)
        ensures
            final(self).props_map() == old(self).props_map().insert(k@, v@),
            final(self).in_effect_list() == old(self).in_effect_list(),
            final(self).condition_list() == old(self).condition_list(),
            final(self).assertion_list() == old(self).assertion_list(),
    {
        self.props.push((str_to_string(k), str_to_string(v)));
        assert(self.props@.drop_last() == old(self).props@);
    }

    /// Adds the condition `c`.
    pub fn add_cond(&mut self, c: Condition)
        ensures
            final(self).props_map() == old(self).props_map(),
            final(self).in_effect_list() == old(self).in_effect_list(),
            final(self).condition_list() == old(self).condition_list().push(c),
            final(self).assertion_list() == old(self).assertion_list(),
    {
        self.conditions.push(c);
    }

    /// Adds the assertion `a`.
    pub fn add_assert(&mut self, a: Assertion)
        ensures
            final(self).props_map() == old(self).props_map(),
            final(self).in_effect_list() == old(self).in_effect_list(),
            final(self).condition_list() == old(self).condition_list(),
            final(self).assertion_list() == old(self).assertion_list().push(a),
    {
        self.assertions.push(a);
    }

    /// The value of property `k`.
    pub fn prop(&self, k: &str) -> (r: Option<String>)
        ensures
            match r {
                Some(v) => self.props_map().contains_key(k@) && self.props_map()[k@] == v@,
                None => !self.props_map().contains_key(k@),
            },
    {
        let mut i: usize = self.props.len();
        while i > 0
            invariant
                i <= self.props.len(),
                forall|j: int| i <= j < self.props@.len() ==> (#[trigger] self.props@[j]).0@ != k@,
            decreases i,
        {
            if str_eq(self.props[i - 1].0.as_str(), k) {
                proof {
                    lemma_props_of_prefix(self.props@, i as int, k@);
                    assert(self.props@.take(i as int).last() == self.props@[i - 1]);
                }
                return Some(self.props[i - 1].1.clone());
            }
            i -= 1;
        }
        proof {
            lemma_props_of_prefix(self.props@, 0, k@);
        }
        None
    }

    /// Gives the rule a fresh random id where it has none.
    pub fn refine(&mut self)
        ensures
            old(self).props_map().contains_key(id_key()) ==> final(self).props_map() == old(self).props_map(),
            !old(self).props_map().contains_key(id_key()) ==> exists|id: Seq<char>|
                is_uuid_v4_text(id) && final(self).props_map() == old(self).props_map().insert(id_key(), id),
            final(self).in_effect_list() == old(self).in_effect_list(),
            final(self).condition_list() == old(self).condition_list(),
            final(self).assertion_list() == old(self).assertion_list(),
    {
        if self.prop("ID").is_none() {
            let id = new_uuid_v4();
            self.add_prop("ID", id.as_str());
        }
    }

    /// The keys of a rule's conditions, in order.
    pub fn condition_keys(&self) -> (r: Vec<String>)
        ensures
            r@.len() == self.condition_list().len(),
            forall|i: int| 0 <= i < r@.len() ==> (#[trigger] r@[i])@ == self.condition_list()[i].key@,
    {
        let mut r: Vec<String> = Vec::new();
        let mut i: usize = 0;
        while i < self.conditions.len()
            invariant
                i <= self.conditions.len(),
                self.condition_list() == self.conditions@,
                r@.len() == i,
                forall|j: int| 0 <= j < i ==> (#[trigger] r@[j])@ == self.conditions@[j].key@,
            decreases self.conditions.len() - i,
        {
            r.push(self.conditions[i].key.clone());
            i += 1;
        }
        r
    }

    /// The conditions of the rule.
    pub fn conditions(&self) -> (r: &Vec<Condition>)
        ensures
            r@ == self.condition_list(),
    {
        &self.conditions
    }

    /// The assertions of the rule.
    pub fn assertions(&self) -> (r: &Vec<Assertion>)
        ensures
            r@ == self.assertion_list(),
    {
        &self.assertions
    }

    /// The id of the rule (its property `ID`).
    pub fn id(&self) -> (r: String)
        requires
            self.props_map().contains_key(id_key()),
        ensures
            r@ == self.props_map()[id_key()],
    {
        self.prop("ID").unwrap()
    }
}


/// Reading a property gives the value last set for it, and setting one
/// property leaves every other as it was.
pub proof fn law_prop_reads_last_write(before: Rule, after: Rule, k: Seq<char>, v: Seq<char>, other: Seq<char>)
    requires
        after.props_map() == before.props_map().insert(k, v),
    ensures
        after.props_map().contains_key(k),
        after.props_map()[k] == v,
        other != k ==> (after.props_map().contains_key(other) == before.props_map().contains_key(other)),
        other != k && before.props_map().contains_key(other) ==> after.props_map()[other]
            == before.props_map()[other],
{
}

/// A rule that has an id keeps it whatever is refined, and every rule has
/// an id once refined.
pub proof fn law_refine_gives_stable_id(before: Rule, after: Rule)
    requires
        before.props_map().contains_key(id_key()) ==> after.props_map() == before.props_map(),
        !before.props_map().contains_key(id_key()) ==> exists|id: Seq<char>|
            is_uuid_v4_text(id) && after.props_map() == before.props_map().insert(id_key(), id),
    ensures
        after.props_map().contains_key(id_key()),
        before.props_map().contains_key(id_key()) ==> after.props_map()[id_key()] == before.props_map()[id_key()],
{
    if !before.props_map().contains_key(id_key()) {
        let id = choose|id: Seq<char>|
            is_uuid_v4_text(id) && after.props_map() == before.props_map().insert(id_key(), id);
        assert(after.props_map().contains_key(id_key()));
    }
}

} // verus!
