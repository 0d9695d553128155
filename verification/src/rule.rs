//! Where the rule store keeps a rule's revisions (`./data/rules/<id>/<rev>.json`)
//! and how the latest and the next revision of a rule are found.
use vstd::prelude::*;
use crate::json::concat;
use crate::path::{file_name, file_stem, join, last_dot, last_segment, name_stem, path_file_stem, path_join};
use crate::text::{decimal, lemma_decimal_digits, law_parse_format_roundtrip, parse_u64, parse_u64_spec, push_decimal};

verus! {

/// A revision of a stored rule.
#[derive(Debug)]
pub struct Rule {
    path: String,
    dir: String,
    pub id: String,
    pub rev: u64,
}

/// `./data/rules`, the directory of the rule store.
pub open spec fn rules_root() -> Seq<char> {
    seq!['.', '/', 'd', 'a', 't', 'a', '/', 'r', 'u', 'l', 'e', 's']
}

/// `<rev>.<ext>`, the file name of a revision.
pub open spec fn revision_file(rev: u64, ext: Seq<char>) -> Seq<char> {
    decimal(rev as nat) + seq!['.'] + ext
}

/// `json`.
pub open spec fn json_ext() -> Seq<char> {
    seq!['j', 's', 'o', 'n']
}

/// The directory that holds the revisions of rule `id`.
pub open spec fn rule_dir_spec(id: Seq<char>) -> Seq<char> {
    path_join(rules_root(), id)
}

/// The file that holds revision `rev` of rule `id`.
pub open spec fn rule_path_spec(id: Seq<char>, rev: u64) -> Seq<char> {
    path_join(rule_dir_spec(id), revision_file(rev, json_ext()))
}

/// The revision number a file path stands for: the stem of its file name,
/// read as a number; 0 for a path without a file name.
pub open spec fn rev_of_path(p: Seq<char>) -> u64 {
    match file_stem(p) {
        Some(st) => match parse_u64_spec(st) {
            Some(n) => n,
            None => 0,
        },
        None => 0,
    }
}

/// The file name of `p`, if it has one, reads as a revision number.
pub open spec fn rev_readable(p: Seq<char>) -> bool {
    file_stem(p) matches Some(st) ==> parse_u64_spec(st) is Some
}

impl Rule {
    /// The file that holds this revision.
    pub closed spec fn path_view(&self) -> Seq<char> {
        self.path@
    }

    /// The id of the rule.
    pub closed spec fn id_view(&self) -> Seq<char> {
        self.id@
    }

    /// The revision number.
    pub closed spec fn rev_view(&self) -> u64 {
        self.rev
    }

    /// The directory that holds the revisions of this rule.
    pub closed spec fn dir_view(&self) -> Seq<char> {
        self.dir@
    }

    /// The file that holds this revision.
    pub fn path(&self) -> (r: String)
        ensures
            r@ == self.path_view(),
    {
        self.path.clone()
    }

    /// The id of the rule.
    pub fn id(&self) -> (r: String)
        ensures
            r@ == self.id_view(),
    {
        self.id.clone()
    }

    /// The revision number.
    pub fn rev(&self) -> (r: u64)
        ensures
            r == self.rev_view(),
    {
        self.rev
    }

    /// The directory that holds the revisions of this rule.
    pub fn dir(&self) -> (r: String)
        ensures
            r@ == self.dir_view(),
    {
        self.dir.clone()
    }
}

/// `./data/rules`.
fn rules_root_string() -> (r: String)
    ensures
        r@ == rules_root(),
{
    let a = join(".", "data");
    let b = join(a.as_str(), "rules");
    proof {
        reveal_strlit(".");
        reveal_strlit("data");
        reveal_strlit("rules");
        assert(b@ =~= rules_root());
    }
    b
}

/// `<rev>.<ext>`.
pub fn revision_file_string(rev: u64, ext: &str) -> (r: String)
    ensures
        r@ == revision_file(rev, ext@),
{
    let mut s = String::new();
    push_decimal(&mut s, rev);
    let with_dot = concat(s.as_str(), ".");
    proof {
        reveal_strlit(".");
        assert(with_dot@ =~= decimal(rev as nat) + seq!['.']);
    }
    concat(with_dot.as_str(), ext)
}

/// The directory of rule `id`: `./data/rules/<id>`.
pub fn rule_dir(id: &String) -> (r: String)
    ensures
        r@ == rule_dir_spec(id@),
{
    let root = rules_root_string();
    join(root.as_str(), id.as_str())
}

/// The file of revision `rev` of rule `id`: `./data/rules/<id>/<rev>.json`.
pub fn rule_path(id: &String, rev: u64) -> (r: String)
    ensures
        r@ == rule_path_spec(id@, rev),
{
    let dir = rule_dir(id);
    let f = revision_file_string(rev, "json");
    proof {
        reveal_strlit("json");
        assert("json"@ =~= json_ext());
    }
    join(dir.as_str(), f.as_str())
}

/// The file of revision `rev` of rule `id` with extension `ext`:
/// `./data/rules/<id>/<rev>.<ext>`.
pub fn revision_path(id: &String, rev: u64, ext: &str) -> (r: String)
    ensures
        r@ == path_join(rule_dir_spec(id@), revision_file(rev, ext@)),
{
    let dir = rule_dir(id);
    let f = revision_file_string(rev, ext);
    join(dir.as_str(), f.as_str())
}

/// `*.<ext>`.
pub open spec fn wildcard_file(ext: Seq<char>) -> Seq<char> {
    seq!['*', '.'] + ext
}

/// The glob pattern of the revision files of rule `id` with extension
/// `ext`: `./data/rules/<id>/*.<ext>`.
pub fn revisions_pattern(id: &String, ext: &str) -> (r: String)
    ensures
        r@ == path_join(rule_dir_spec(id@), wildcard_file(ext@)),
{
    let dir = rule_dir(id);
    let f = concat("*.", ext);
    proof {
        reveal_strlit("*.");
        assert("*."@ =~= seq!['*', '.']);
    }
    join(dir.as_str(), f.as_str())
}

/// The revision number that the file `p` stands for (see `rev_of_path`).
pub fn extract_rev(p: &String) -> (r: u64)
    requires
        rev_readable(p@),
    ensures
        r == rev_of_path(p@),
{
    match path_file_stem(p.as_str()) {
        None => 0,
        Some(st) => parse_u64(st.as_str()).unwrap(),
    }
}

/// Revision `rev` of rule `id`, given whether its file exists.
pub fn find_rule_by_rev(id: &String, rev: u64, exists: bool) -> (r: Option<Rule>)
    ensures
        match r {
            Some(rule) => exists && rule.id_view() == id@ && rule.rev_view() == rev
                && rule.path_view() == rule_path_spec(id@, rev)
                && rule.dir_view() == rule_dir_spec(id@),
            None => !exists,
        },
{
    let path = rule_path(id, rev);
    if exists {
        Some(Rule { path: path, dir: rule_dir(id), id: id.clone(), rev: rev })
    } else {
        None
    }
}

/// The index of the path with the highest revision, the last of them
/// where several share it (`Iterator::max_by_key`).
pub open spec fn latest_index(paths: Seq<String>) -> Option<int>
    decreases paths.len(),
{
    if paths.len() == 0 {
        None
    } else {
        let n = paths.len() - 1;
        match latest_index(paths.drop_last()) {
            Some(i) => if rev_of_path(paths[n]@) >= rev_of_path(paths[i]@) {
                Some(n)
            } else {
                Some(i)
            },
            None => Some(n),
        }
    }
}

pub proof fn lemma_latest_index(paths: Seq<String>)
    ensures
        latest_index(paths) matches Some(i) ==> 0 <= i < paths.len() && forall|j: int|
            0 <= j < paths.len() ==> rev_of_path((#[trigger] paths[j])@) <= rev_of_path(paths[i]@),
        latest_index(paths) is None <==> paths.len() == 0,
    decreases paths.len(),
{
    if paths.len() > 0 {
        lemma_latest_index(paths.drop_last());
        assert forall|j: int| 0 <= j < paths.len() - 1 implies paths.drop_last()[j] == paths[j] by {}
    }
}

/// Every path reads as a revision number.
pub open spec fn all_rev_readable(paths: Seq<String>) -> bool {
    forall|i: int| 0 <= i < paths.len() ==> rev_readable((#[trigger] paths[i])@)
}

/// The latest revision of rule `id`, among the files `found` in its
/// directory: the one with the highest revision number, the last of them
/// where several share it.
pub fn find_latest_rule(id: &String, found: &Vec<String>) -> (r: Option<Rule>)
    requires
        all_rev_readable(found@),
    ensures
        match r {
            Some(rule) => latest_index(found@) matches Some(i) && rule.path_view() == found@[i]@
                && rule.rev_view() == rev_of_path(found@[i]@) && rule.id_view() == id@
                && rule.dir_view() == rule_dir_spec(id@),
            None => found@.len() == 0,
        },
        r matches Some(rule) ==> forall|j: int|
            0 <= j < found@.len() ==> rev_of_path((#[trigger] found@[j])@) <= rule.rev_view(),
{
    proof {
        lemma_latest_index(found@);
    }
    let mut best: Option<usize> = None;
    let mut best_rev: u64 = 0;
    let mut i: usize = 0;
    while i < found.len()
        invariant
            i <= found.len(),
            all_rev_readable(found@),
            match best {
                Some(b) => latest_index(found@.take(i as int)) == Some(b as int) && b < i
                    && best_rev == rev_of_path(found@[b as int]@),
                None => latest_index(found@.take(i as int)) is None && i == 0,
            },
        decreases found.len() - i,
    {
        assert(found@.take(i + 1).drop_last() == found@.take(i as int));
        assert(found@.take(i + 1)[i as int] == found@[i as int]);
        let rv = extract_rev(&found[i]);
        match best {
            Some(b) => {
                assert(found@.take(i as int)[b as int] == found@[b as int]);
                if rv >= best_rev {
                    best = Some(i);
                    best_rev = rv;
                }
            },
            None => {
                best = Some(i);
                best_rev = rv;
            },
        }
        i += 1;
    }
    assert(found@.take(found.len() as int) == found@);
    match best {
        Some(b) => Some(Rule { path: found[b].clone(), dir: rule_dir(id), id: id.clone(), rev: best_rev }),
        None => None,
    }
}

/// The revision that storing rule `id` makes: the one after `latest`, in
/// the same directory, or revision 1 in the rule's directory where there is
/// none yet.
pub fn next_revision(id: &String, latest: Option<Rule>) -> (r: Rule)
    requires
        latest matches Some(l) ==> l.rev_view() < u64::MAX,
    ensures
        match latest {
            Some(l) => r.rev_view() == l.rev_view() + 1 && r.id_view() == l.id_view() && r.dir_view() == l.dir_view()
                && r.path_view() == path_join(l.dir_view(), revision_file(r.rev_view(), json_ext())),
            None => r.rev_view() == 1 && r.id_view() == id@ && r.dir_view() == rule_dir_spec(id@)
                && r.path_view() == path_join(rule_dir_spec(id@), revision_file(1, json_ext())),
        },
{
    proof {
        reveal_strlit("json");
        assert("json"@ =~= json_ext());
    }
    match latest {
        Some(rule) => {
            let rev = rule.rev + 1;
            let f = revision_file_string(rev, "json");
            let path = join(rule.dir.as_str(), f.as_str());
            Rule { path: path, dir: rule.dir.clone(), id: rule.id.clone(), rev: rev }
        },
        None => {
            let dir = rule_dir(id);
            let f = revision_file_string(1, "json");
            let path = join(dir.as_str(), f.as_str());
            Rule { path: path, dir: dir, id: id.clone(), rev: 1 }
        },
    }
}


/// A revision stored after the latest one found for a rule is written to
/// the very file that looking that revision up reads (`rule_path`).
pub proof fn law_stored_revision_is_found(id: Seq<char>, latest: Option<Rule>, next: Rule)
    requires
        latest matches Some(l) ==> l.dir_view() == rule_dir_spec(id) && l.id_view() == id,
        match latest {
            Some(l) => next.rev_view() == l.rev_view() + 1 && next.id_view() == l.id_view()
                && next.dir_view() == l.dir_view()
                && next.path_view() == path_join(l.dir_view(), revision_file(next.rev_view(), json_ext())),
            None => next.rev_view() == 1 && next.id_view() == id && next.dir_view() == rule_dir_spec(id)
                && next.path_view() == path_join(rule_dir_spec(id), revision_file(1, json_ext())),
        },
    ensures
        next.id_view() == id,
        next.path_view() == rule_path_spec(id, next.rev_view()),
{
}

/// The final segment of `a + f` is `f` where `a` ends a segment and `f`
/// holds no `/`.
proof fn lemma_segment_after_slash(a: Seq<char>, f: Seq<char>)
    requires
        a.len() == 0 || a.last() == '/',
        forall|i: int| 0 <= i < f.len() ==> f[i] != '/',
    ensures
        last_segment(a + f) == f,
    decreases f.len(),
{
    if f.len() == 0 {
        assert(a + f == a);
    } else {
        assert((a + f).drop_last() == a + f.drop_last());
        lemma_segment_after_slash(a, f.drop_last());
        assert(f.drop_last().push(f.last()) == f);
    }
}

/// The last `.` of `x + "." + y` is the one after `x` where `y` holds none.
proof fn lemma_last_dot_before(x: Seq<char>, y: Seq<char>)
    requires
        forall|i: int| 0 <= i < y.len() ==> y[i] != '.',
    ensures
        last_dot(x + seq!['.'] + y) == Some(x.len() as int),
    decreases y.len(),
{
    if y.len() > 0 {
        assert((x + seq!['.'] + y).drop_last() == x + seq!['.'] + y.drop_last());
        lemma_last_dot_before(x, y.drop_last());
    } else {
        assert(x + seq!['.'] + y == x.push('.'));
    }
}

/// Reading the revision back from the file that revision `rev` of rule
/// `id` is stored in gives `rev`, whatever the id.
pub proof fn law_rule_path_rev_roundtrip(id: Seq<char>, rev: u64)
    ensures
        rev_readable(rule_path_spec(id, rev)),
        rev_of_path(rule_path_spec(id, rev)) == rev,
{
    let d = decimal(rev as nat);
    lemma_decimal_digits(rev as nat);
    law_parse_format_roundtrip(rev);
    let f = revision_file(rev, json_ext());
    assert forall|i: int| 0 <= i < d.len() implies d[i] != '/' && d[i] != '.' by {
        assert(crate::text::is_ascii_digit(d[i]));
    }
    assert forall|i: int| 0 <= i < f.len() implies f[i] != '/' by {
        if i < d.len() {
            assert(f[i] == d[i]);
        }
    }
    let base = rule_dir_spec(id);
    let p = rule_path_spec(id, rev);
    if base.len() > 0 && base.last() != '/' {
        assert(p == (base + seq!['/']) + f);
        lemma_segment_after_slash(base + seq!['/'], f);
    } else {
        assert(p == base + f);
        lemma_segment_after_slash(base, f);
    }
    assert(p.len() > 0 && p.last() == 'n');
    assert(f.len() > 2 && f[f.len() - 1] == 'n');
    assert(file_name(p) == Some(f));
    let json = json_ext();
    assert forall|i: int| 0 <= i < json.len() implies json[i] != '.' by {}
    lemma_last_dot_before(d, json);
    assert(name_stem(f) == f.subrange(0, d.len() as int));
    assert(f.subrange(0, d.len() as int) == d);
    assert(file_stem(p) == Some(d));
}

} // verus!
