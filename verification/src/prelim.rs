//! Holding the scanned source tree against the tree specification: which owner, group
//! and mode each source path is given, and the listing shown before copying.

use vstd::prelude::*;
use crate::filemap::{has_key, lookup, unique_keys, FileData, FileDataView, FileMap};
use crate::number::{i32_decimal, signed_decimal};
use crate::params::RunParams;
use crate::spectree::Entries;
use crate::text::{views, chars_of, last_index_of, owned, remove_char, remove_char_str, rfind_char, str_eq, string_of};

verus! {

/// The directory part of `key` (before its last `/`) and the record the specification
/// holds for it; an error when that part is empty or not in the specification.
pub open spec fn parent_perms(m: Entries, key: Seq<char>) -> Result<(FileDataView, Seq<char>), Seq<char>> {
    let pos = match last_index_of(key, '/') {
        Some(i) => i,
        None => 0,
    };
    if pos <= 0 {
        Err("get_parent_perms: ERROR: empty last_dir (from: key_path)"@)
    } else {
        let last_dir = key.take(pos);
        match lookup(m, last_dir) {
            Some(d) => Ok((d, last_dir)),
            None => Err("ERROR: get_parent_perms: there is no key in the XML spec tree for '"@ + last_dir + "'"@),
        }
    }
}

/// For a path that the specification does not name: the record of the directory that
/// holds it (its part before the last `/`), and that directory.
pub fn get_parent_perms(g: &RunParams, key_path: &str) -> (r: Result<(FileData, String), String>)
    ensures
        match r {
            Ok((d, dir)) => parent_perms(g.file_map@, key_path@) == Ok::<(FileDataView, Seq<char>), Seq<char>>((d@, dir@)),
            Err(e) => parent_perms(g.file_map@, key_path@) == Err::<(FileDataView, Seq<char>), Seq<char>>(e@),
        },
{
    parent_of(&g.file_map, key_path)
}

/// For a path that `spec` does not name: the record of the directory that holds it, and
/// that directory (see `parent_perms`).
pub fn parent_of(spec: &FileMap, key_path: &str) -> (r: Result<(FileData, String), String>)
    ensures
        match r {
            Ok((d, dir)) => parent_perms(spec@, key_path@) == Ok::<(FileDataView, Seq<char>), Seq<char>>((d@, dir@)),
            Err(e) => parent_perms(spec@, key_path@) == Err::<(FileDataView, Seq<char>), Seq<char>>(e@),
        },
{
    let v = chars_of(key_path);
    let pos = match rfind_char(v.as_slice(), '/') {
        Some(i) => i,
        None => 0,
    };
    if pos == 0 {
        return Err(owned("get_parent_perms: ERROR: empty last_dir (from: key_path)"));
    }
    let last_dir = string_of(&v.as_slice()[0..pos]);
    assert(last_dir@ =~= key_path@.take(pos as int));
    match spec.get(last_dir.as_str()) {
        Some(d) => Ok((d.duplicate(), last_dir)),
        None => {
            let mut e = owned("ERROR: get_parent_perms: there is no key in the XML spec tree for '");
            e.append(last_dir.as_str());
            e.append("'");
            Err(e)
        },
    }
}

/// How the listing names a type of entry.
pub open spec fn type_label(c: char) -> Seq<char> {
    if c == 'f' {
        "<FILE>"@
    } else if c == 'd' {
        "<DIR> "@
    } else {
        "UNKNOWN"@
    }
}

fn type_label_exec(c: char) -> (r: String)
    ensures
        r@ == type_label(c),
{
    if c == 'f' {
        owned("<FILE>")
    } else if c == 'd' {
        owned("<DIR> ")
    } else {
        owned("UNKNOWN")
    }
}

/// The listing line of a specification entry: `???` in front when the source tree does
/// not hold the path.
pub open spec fn spec_line(src: Entries, key: Seq<char>, d: FileDataView) -> Seq<char> {
    (if has_key(src, key) { "   "@ } else { "???"@ }) + " "@ + type_label(d.file_type) + " L-"@
        + signed_decimal(d.file_level as int) + " '"@ + key + "' -->  "@ + d.file_user + ":"@
        + d.file_group + " "@ + signed_decimal(d.file_mode as int)
}

/// The listing line of a source entry: the alert, the entry as it was scanned, and a note.
pub open spec fn source_line(alert: Seq<char>, key: Seq<char>, d: FileDataView, msg: Seq<char>) -> Seq<char> {
    alert + " "@ + type_label(d.file_type) + " L-"@ + signed_decimal(d.file_level as int) + " '"@ + key
        + "' "@ + d.file_user + ":"@ + d.file_group + " "@ + signed_decimal(d.file_mode as int) + " "@ + msg
}

/// What a source entry becomes when it is held against the specification `spec`: its
/// new record and its listing line, or an error.
/// - A path in the specification takes its owner, group and mode from there; the line is
///   marked `XXX` with an override note when the mode changes.
/// - Another path takes the defaults of the directory that holds it in the
///   specification; the line is marked `???` with a note naming that directory. It is
///   an error when there is no such directory or its default mode is zero.
pub open spec fn reconcile_entry(spec: Entries, key: Seq<char>, d: FileDataView) -> Result<(FileDataView, Seq<char>), Seq<char>> {
    match lookup(spec, key) {
        Some(sd) => {
            let nd = FileDataView { file_user: sd.file_user, file_group: sd.file_group, file_mode: sd.file_mode, ..d };
            let changed = sd.file_mode != d.file_mode;
            let alert = if changed { "XXX"@ } else { "   "@ };
            let msg = if changed {
                "**OVERRIDE** "@ + signed_decimal(d.file_mode as int) + " --> "@ + signed_decimal(sd.file_mode as int)
            } else {
                Seq::empty()
            };
            Ok((nd, source_line(alert, key, d, msg)))
        },
        None => match parent_perms(spec, key) {
            Err(e) => Err("show_prelim: ERROR in get_parent_perms: '"@ + e + "'"@),
            Ok((p, dir)) => if p.default_file_mode == 0 {
                Err("show_prelim: ERROR : default_file_mode was zero ! "@)
            } else {
                let nd = FileDataView {
                    file_user: p.default_file_user,
                    file_group: p.default_file_group,
                    file_mode: p.default_file_mode,
                    ..d
                };
                Ok((nd, source_line("???"@, key, d, "**MISSING** (owner dir: '"@ + dir + "')"@)))
            },
        },
    }
}

/// Holding the source entries from position `i` on against `spec`: the listing lines
/// up to the first error, and either the new entries (same keys, same order) or that
/// error.
pub open spec fn reconcile_from(spec: Entries, src: Entries, i: int) -> (Seq<Seq<char>>, Result<Entries, Seq<char>>)
    decreases src.len() - i,
{
    if i < 0 || i >= src.len() {
        (Seq::empty(), Ok(Seq::empty()))
    } else {
        match reconcile_entry(spec, src[i].0, src[i].1) {
            Err(e) => (Seq::empty(), Err(e)),
            Ok((nd, line)) => {
                let rest = reconcile_from(spec, src, i + 1);
                (seq![line] + rest.0, match rest.1 {
                    Ok(r) => Ok(seq![(src[i].0, nd)] + r),
                    Err(e) => Err(e),
                })
            },
        }
    }
}

/// What showing the preliminary listing computes: one line per specification entry, one
/// per source entry up to the first error, and the error if there is one.
pub struct PrelimReport {
    pub spec_lines: Vec<String>,
    pub source_lines: Vec<String>,
    pub error: Option<String>,
}

fn spec_line_exec(src: &FileMap, key: &String, d: &FileData) -> (r: String)
    ensures
        r@ == spec_line(src@, key@, d@),
{
    let alert = if src.contains_key(key.as_str()) { owned("   ") } else { owned("???") };
    let mut r = alert;
    r.append(" ");
    r.append(type_label_exec(d.file_type).as_str());
    r.append(" L-");
    r.append(i32_decimal(d.file_level).as_str());
    r.append(" '");
    r.append(key.as_str());
    r.append("' -->  ");
    r.append(d.file_user.as_str());
    r.append(":");
    r.append(d.file_group.as_str());
    r.append(" ");
    r.append(i32_decimal(d.file_mode).as_str());
    r
}

fn source_line_exec(alert: &str, key: &String, d: &FileData, msg: &str) -> (r: String)
    ensures
        r@ == source_line(alert@, key@, d@, msg@),
{
    let mut r = owned(alert);
    r.append(" ");
    r.append(type_label_exec(d.file_type).as_str());
    r.append(" L-");
    r.append(i32_decimal(d.file_level).as_str());
    r.append(" '");
    r.append(key.as_str());
    r.append("' ");
    r.append(d.file_user.as_str());
    r.append(":");
    r.append(d.file_group.as_str());
    r.append(" ");
    r.append(i32_decimal(d.file_mode).as_str());
    r.append(" ");
    r.append(msg);
    r
}

fn reconcile_entry_exec(spec: &FileMap, key: &String, d: &FileData) -> (r: Result<(FileData, String), String>)
    ensures
        match r {
            Ok((nd, line)) => reconcile_entry(spec@, key@, d@) == Ok::<(FileDataView, Seq<char>), Seq<char>>((nd@, line@)),
            Err(e) => reconcile_entry(spec@, key@, d@) == Err::<(FileDataView, Seq<char>), Seq<char>>(e@),
        },
{
    match spec.get(key.as_str()) {
        Some(sd) => {
            let mut nd = d.duplicate();
            nd.file_user = sd.file_user.clone();
            nd.file_group = sd.file_group.clone();
            nd.file_mode = sd.file_mode;
            let line = if sd.file_mode != d.file_mode {
                let mut msg = owned("**OVERRIDE** ");
                msg.append(i32_decimal(d.file_mode).as_str());
                msg.append(" --> ");
                msg.append(i32_decimal(sd.file_mode).as_str());
                source_line_exec("XXX", key, d, msg.as_str())
            } else {
                proof {
                    reveal_strlit("");
                    assert(""@ =~= Seq::<char>::empty());
                }
                source_line_exec("   ", key, d, "")
            };
            Ok((nd, line))
        },
        None => match parent_of(spec, key.as_str()) {
            Err(e) => {
                let mut m = owned("show_prelim: ERROR in get_parent_perms: '");
                m.append(e.as_str());
                m.append("'");
                Err(m)
            },
            Ok((p, dir)) => {
                if p.default_file_mode == 0 {
                    return Err(owned("show_prelim: ERROR : default_file_mode was zero ! "));
                }
                let mut nd = d.duplicate();
                nd.file_user = p.default_file_user;
                nd.file_group = p.default_file_group;
                nd.file_mode = p.default_file_mode;
                let mut msg = owned("**MISSING** (owner dir: '");
                msg.append(dir.as_str());
                msg.append("')");
                Ok((nd, source_line_exec("???", key, d, msg.as_str())))
            },
        },
    }
}

/// `reconcile_from` with lines `ls` and entries `ns` put in front.
pub open spec fn with_front(ls: Seq<Seq<char>>, ns: Entries, r: (Seq<Seq<char>>, Result<Entries, Seq<char>>)) -> (Seq<Seq<char>>, Result<Entries, Seq<char>>) {
    (ls + r.0, match r.1 {
        Ok(x) => Ok(ns + x),
        Err(e) => Err(e),
    })
}

pub open spec fn entry_of(e: (String, FileData)) -> (Seq<char>, FileDataView) {
    (e.0@, e.1@)
}

/// One line per entry of `spec`, in order (see `spec_line`).
pub open spec fn spec_listing(spec: Entries, src: Entries) -> Seq<Seq<char>> {
    Seq::new(spec.len(), |q: int| spec_line(src, spec[q].0, spec[q].1))
}

fn spec_listing_exec(spec: &FileMap, src: &FileMap) -> (r: Vec<String>)
    ensures
        views(r@) == spec_listing(spec@, src@),
{
    let mut lines: Vec<String> = Vec::new();
    let n = spec.len();
    let mut i: usize = 0;
    while i < n
        invariant
            n == spec@.len(),
            i <= n,
            lines@.len() == i,
            forall|q: int| 0 <= q < i ==> (#[trigger] lines@[q])@ == spec_line(src@, spec@[q].0, spec@[q].1),
        decreases n - i,
    {
        let (k, d) = spec.entry(i);
        let line = spec_line_exec(src, k, d);
        lines.push(line);
        i = i + 1;
    }
    assert(views(lines@) =~= spec_listing(spec@, src@));
    lines
}

/// Holds every entry of `src` against `spec` (see `reconcile_from`).
fn reconcile_entries(spec: &FileMap, src: &FileMap) -> (r: (Vec<String>, Result<Vec<(String, FileData)>, String>))
    ensures
        views(r.0@) == reconcile_from(spec@, src@, 0).0,
        match reconcile_from(spec@, src@, 0).1 {
            Ok(new) => r.1 matches Ok(v) && v@.map_values(|e: (String, FileData)| entry_of(e)) == new,
            Err(e) => r.1 matches Err(x) && x@ == e,
        },
{
    let ghost sp = spec@;
    let ghost s0 = src@;
    let m = src.len();
    let mut source_lines: Vec<String> = Vec::new();
    let mut news: Vec<(String, FileData)> = Vec::new();
    let mut j: usize = 0;
    assert(views(source_lines@) =~= Seq::<Seq<char>>::empty());
    assert(news@.map_values(|e: (String, FileData)| entry_of(e)) =~= Seq::<(Seq<char>, FileDataView)>::empty());
    assert(with_front(Seq::empty(), Seq::empty(), reconcile_from(sp, s0, 0)) =~= reconcile_from(sp, s0, 0));
    while j < m
        invariant
            m == s0.len(),
            sp == spec@,
            s0 == src@,
            j <= m,
            reconcile_from(sp, s0, 0) == with_front(
                views(source_lines@),
                news@.map_values(|e: (String, FileData)| entry_of(e)),
                reconcile_from(sp, s0, j as int),
            ),
        decreases m - j,
    {
        let (k, d) = src.entry(j);
        match reconcile_entry_exec(spec, k, d) {
            Err(e) => {
                assert(views(source_lines@) + Seq::<Seq<char>>::empty() =~= views(source_lines@));
                return (source_lines, Err(e));
            },
            Ok((nd, line)) => {
                let ghost ls = views(source_lines@);
                let ghost ns = news@.map_values(|e: (String, FileData)| entry_of(e));
                let ghost nv = nd@;
                let ghost lv = line@;
                let ghost kv = s0[j as int].0;
                source_lines.push(line);
                news.push((k.clone(), nd));
                assert(views(source_lines@) =~= ls.push(lv));
                assert(news@.map_values(|e: (String, FileData)| entry_of(e)) =~= ns.push((kv, nv)));
                let ghost rest = reconcile_from(sp, s0, j + 1);
                proof {
                    assert(ls + (seq![lv] + rest.0) =~= ls.push(lv) + rest.0);
                    match rest.1 {
                        Ok(x) => {
                            assert(ns + (seq![(kv, nv)] + x) =~= ns.push((kv, nv)) + x);
                        },
                        Err(_) => {},
                    }
                }
                j = j + 1;
            },
        }
    }
    assert(views(source_lines@) + Seq::<Seq<char>>::empty() =~= views(source_lines@));
    let ghost fnews = news@.map_values(|e: (String, FileData)| entry_of(e));
    assert(fnews + Seq::<(Seq<char>, FileDataView)>::empty() =~= fnews);
    (source_lines, Ok(news))
}

/// Puts every entry of `news` into `src`, whose keys are the same, in the same order.
fn apply_entries(src: &mut FileMap, news: &Vec<(String, FileData)>)
    requires
        news@.len() == old(src)@.len(),
        forall|q: int| 0 <= q < news@.len() ==> (#[trigger] news@[q]).0@ == old(src)@[q].0,
    ensures
        final(src)@ == news@.map_values(|e: (String, FileData)| entry_of(e)),
{
    let ghost fnews = news@.map_values(|e: (String, FileData)| entry_of(e));
    let ghost s0 = src@;
    let m = news.len();
    let mut t: usize = 0;
    while t < m
        invariant
            m == s0.len(),
            news@.len() == m,
            forall|q: int| 0 <= q < m ==> (#[trigger] news@[q]).0@ == s0[q].0,
            fnews == news@.map_values(|e: (String, FileData)| entry_of(e)),
            t <= m,
            src@.len() == m,
            forall|q: int| 0 <= q < t ==> #[trigger] src@[q] == fnews[q],
            forall|q: int| t <= q < m ==> #[trigger] src@[q] == s0[q],
        decreases m - t,
    {
        let ghost before = src@;
        let _ = src.len();
        let key = news[t].0.clone();
        let d = news[t].1.duplicate();
        proof {
            crate::filemap::lemma_key_index_unique(before, key@, t as int);
        }
        src.insert(key, d);
        assert(src@ == before.update(t as int, fnews[t as int]));
        t = t + 1;
    }
    assert(src@ =~= fnews);
}

/// Holds the source map `src` against the specification `spec` (see `reconcile_from`):
/// lists both maps, and when no entry fails gives every source path the owner, group
/// and mode it is to have; when one fails, `src` is left as it was.
pub fn reconcile_source_map(spec: &FileMap, src: &mut FileMap) -> (r: PrelimReport)
    ensures
        views(r.spec_lines@) == spec_listing(spec@, old(src)@),
        views(r.source_lines@) == reconcile_from(spec@, old(src)@, 0).0,
        match reconcile_from(spec@, old(src)@, 0).1 {
            Ok(new) => r.error is None && final(src)@ == new,
            Err(e) => r.error matches Some(x) && x@ == e && final(src)@ == old(src)@,
        },
{
    let spec_lines = spec_listing_exec(spec, src);
    let (source_lines, result) = reconcile_entries(spec, src);
    match result {
        Err(e) => PrelimReport { spec_lines, source_lines, error: Some(e) },
        Ok(news) => {
            proof {
                lemma_reconcile_keys(spec@, src@, 0);
                let rv = reconcile_from(spec@, src@, 0).1->Ok_0;
                assert forall|q: int| 0 <= q < news@.len() implies (#[trigger] news@[q]).0@ == src@[q].0 by {
                    assert(news@.map_values(|e: (String, FileData)| entry_of(e))[q] == entry_of(news@[q]));
                    assert(rv[q].0 == src@[0 + q].0);
                }
            }
            apply_entries(src, &news);
            PrelimReport { spec_lines, source_lines, error: None }
        },
    }
}

/// The entries that a successful reconciliation gives have the keys of the source entries.
pub proof fn lemma_reconcile_keys(spec: Entries, src: Entries, i: int)
    requires
        0 <= i <= src.len(),
        reconcile_from(spec, src, i).1 is Ok,
    ensures
        reconcile_from(spec, src, i).1->Ok_0.len() == src.len() - i,
        forall|q: int| 0 <= q < src.len() - i ==> (#[trigger] reconcile_from(spec, src, i).1->Ok_0[q]).0 == src[i + q].0,
    decreases src.len() - i,
{
    if i < src.len() {
        lemma_reconcile_keys(spec, src, i + 1);
    }
}

proof fn lemma_reconcile_entry_stable(spec: Entries, k: Seq<char>, d: FileDataView)
    requires
        reconcile_entry(spec, k, d) is Ok,
    ensures
        reconcile_entry(spec, k, reconcile_entry(spec, k, d)->Ok_0.0) is Ok,
        reconcile_entry(spec, k, reconcile_entry(spec, k, d)->Ok_0.0)->Ok_0.0 == reconcile_entry(spec, k, d)->Ok_0.0,
{
}

proof fn lemma_reconcile_from_stable(spec: Entries, src: Entries, t: Entries, i: int)
    requires
        0 <= i <= src.len(),
        t.len() == src.len(),
        reconcile_from(spec, src, i).1 is Ok,
        forall|q: int| i <= q < src.len() ==> #[trigger] t[q] == reconcile_from(spec, src, i).1->Ok_0[q - i],
    ensures
        reconcile_from(spec, t, i).1 == reconcile_from(spec, src, i).1,
    decreases src.len() - i,
{
    lemma_reconcile_keys(spec, src, i);
    if i < src.len() {
        let r = reconcile_from(spec, src, i).1->Ok_0;
        let nd = reconcile_entry(spec, src[i].0, src[i].1)->Ok_0.0;
        assert(r[0] == (src[i].0, nd));
        assert(t[i] == r[0]);
        lemma_reconcile_entry_stable(spec, src[i].0, src[i].1);
        let r1 = reconcile_from(spec, src, i + 1).1->Ok_0;
        assert forall|q: int| i + 1 <= q < src.len() implies #[trigger] t[q] == r1[q - (i + 1)] by {
            assert(r[q - i] == r1[q - i - 1]);
        }
        lemma_reconcile_from_stable(spec, src, t, i + 1);
    }
}

/// Holding a source map against a specification a second time changes nothing: when a
/// reconciliation succeeds, reconciling its result succeeds with the same entries.
pub proof fn lemma_reconcile_idempotent(spec: Entries, src: Entries)
    requires
        reconcile_from(spec, src, 0).1 is Ok,
    ensures
        reconcile_from(spec, reconcile_from(spec, src, 0).1->Ok_0, 0).1 == reconcile_from(spec, src, 0).1,
{
    lemma_reconcile_keys(spec, src, 0);
    let r = reconcile_from(spec, src, 0).1->Ok_0;
    assert forall|q: int| 0 <= q < src.len() implies #[trigger] r[q] == r[q - 0] by {}
    lemma_reconcile_from_stable(spec, src, r, 0);
}

/// What the answer to "proceed?" says.
#[derive(Debug)]
pub enum PromptAnswer {
    /// `y` or `Y`: go on.
    Proceed,
    /// `n`, `N` or nothing: stop.
    Bail,
    /// Anything else (given back without its line breaks): stop.
    Unclear(String),
}

/// What the answer `line` says, once its `'\n'` are taken out.
pub open spec fn answer_of(line: Seq<char>) -> (u8, Seq<char>) {
    let a = remove_char(line, '\n');
    if a == "y"@ || a == "Y"@ {
        (0, a)
    } else if a == "N"@ || a == "n"@ || a.len() == 0 {
        (1, a)
    } else {
        (2, a)
    }
}

/// What the answer `line` says (see `answer_of`: 0 is proceed, 1 is stop, 2 is unclear).
pub fn prompt_answer(line: &str) -> (r: PromptAnswer)
    ensures
        match r {
            PromptAnswer::Proceed => answer_of(line@).0 == 0,
            PromptAnswer::Bail => answer_of(line@).0 == 1,
            PromptAnswer::Unclear(a) => answer_of(line@).0 == 2 && answer_of(line@).1 == a@,
        },
{
    let a = remove_char_str(line, '\n');
    if str_eq(a.as_str(), "y") || str_eq(a.as_str(), "Y") {
        PromptAnswer::Proceed
    } else if str_eq(a.as_str(), "N") || str_eq(a.as_str(), "n") || a.as_str().is_empty() {
        PromptAnswer::Bail
    } else {
        PromptAnswer::Unclear(a)
    }
}

/// A successful reconciliation keeps exactly the paths of the source map, each once.
pub proof fn lemma_reconcile_keeps_paths(spec: Entries, src: Entries)
    requires
        unique_keys(src),
        reconcile_from(spec, src, 0).1 is Ok,
    ensures
        unique_keys(reconcile_from(spec, src, 0).1->Ok_0),
        forall|k: Seq<char>| has_key(src, k) <==> has_key(#[trigger] reconcile_from(spec, src, 0).1->Ok_0, k),
{
    lemma_reconcile_keys(spec, src, 0);
    let r = reconcile_from(spec, src, 0).1->Ok_0;
    assert forall|q: int| 0 <= q < r.len() implies #[trigger] r[q].0 == src[q].0 by {
        assert(r[q].0 == src[0 + q].0);
    }
    assert forall|k: Seq<char>| has_key(src, k) <==> #[trigger] has_key(r, k) by {
        if has_key(src, k) {
            let i = choose|i: int| 0 <= i < src.len() && src[i].0 == k;
            assert(r[i].0 == k);
        }
        if has_key(r, k) {
            let i = choose|i: int| 0 <= i < r.len() && r[i].0 == k;
            assert(src[i].0 == k);
        }
    }
}

/// What a reconciled record `nd` of the source record `d` at `key` holds: the level,
/// type and defaults that the scan recorded; for a path the specification names, the
/// owner, group and mode of that path's own specification entry (not the defaults it
/// hands down); for any other path, the default owner, group and mode of the directory
/// that holds it.
pub open spec fn reconciled_record(spec: Entries, key: Seq<char>, d: FileDataView, nd: FileDataView) -> bool {
    &&& nd.file_level == d.file_level
    &&& nd.file_type == d.file_type
    &&& nd.default_file_user == d.default_file_user
    &&& nd.default_file_group == d.default_file_group
    &&& nd.default_file_mode == d.default_file_mode
    &&& lookup(spec, key) matches Some(sd) ==> {
        &&& nd.file_user == sd.file_user
        &&& nd.file_group == sd.file_group
        &&& nd.file_mode == sd.file_mode
    }
    &&& lookup(spec, key) is None ==> (parent_perms(spec, key) matches Ok((p, _)) && {
        &&& nd.file_user == p.default_file_user
        &&& nd.file_group == p.default_file_group
        &&& nd.file_mode == p.default_file_mode
        &&& p.default_file_mode != 0
    })
}

proof fn lemma_reconcile_from_records(spec: Entries, src: Entries, i: int)
    requires
        0 <= i <= src.len(),
        reconcile_from(spec, src, i).1 is Ok,
    ensures
        forall|q: int| 0 <= q < src.len() - i ==> reconciled_record(
            spec,
            src[i + q].0,
            src[i + q].1,
            (#[trigger] reconcile_from(spec, src, i).1->Ok_0[q]).1,
        ),
    decreases src.len() - i,
{
    if i < src.len() {
        lemma_reconcile_from_records(spec, src, i + 1);
        lemma_reconcile_keys(spec, src, i);
        lemma_reconcile_keys(spec, src, i + 1);
        let r = reconcile_from(spec, src, i).1->Ok_0;
        let rest = reconcile_from(spec, src, i + 1).1->Ok_0;
        let nd = reconcile_entry(spec, src[i].0, src[i].1)->Ok_0.0;
        assert(r == seq![(src[i].0, nd)] + rest);
        assert forall|q: int| 0 <= q < src.len() - i implies reconciled_record(
            spec,
            src[i + q].0,
            src[i + q].1,
            (#[trigger] r[q]).1,
        ) by {
            if q > 0 {
                assert(r[q] == rest[q - 1]);
                assert(i + 1 + (q - 1) == i + q);
            }
        }
    }
}

/// Reconciling gives each source path the owner, group and mode that the specification
/// gives it: where the reconciliation succeeds, the record at each position is the source
/// record at that position with the owner, group and mode of the path's own entry in the
/// specification when there is one, and else with the defaults of the directory that
/// holds it (see `reconciled_record`); the scanned level, type and defaults stay.
pub proof fn lemma_reconcile_sets_owners(spec: Entries, src: Entries)
    requires
        reconcile_from(spec, src, 0).1 is Ok,
    ensures
        reconcile_from(spec, src, 0).1->Ok_0.len() == src.len(),
        forall|q: int| 0 <= q < src.len() ==> {
            &&& (#[trigger] reconcile_from(spec, src, 0).1->Ok_0[q]).0 == src[q].0
            &&& reconciled_record(spec, src[q].0, src[q].1, reconcile_from(spec, src, 0).1->Ok_0[q].1)
        },
{
    lemma_reconcile_keys(spec, src, 0);
    lemma_reconcile_from_records(spec, src, 0);
    let r = reconcile_from(spec, src, 0).1->Ok_0;
    assert forall|q: int| 0 <= q < src.len() implies {
        &&& (#[trigger] r[q]).0 == src[q].0
        &&& reconciled_record(spec, src[q].0, src[q].1, r[q].1)
    } by {
        assert(src[0 + q] == src[q]);
    }
}

/// A mapped copy loses no path from either map, whatever its outcome: reading the
/// specification `cs` into the specification map, walking the source tree from `w` with
/// the directory modes and listings `inputs` into the source map (whether the walk
/// finishes or fails), and reconciling the source map (which, when it fails, leaves the
/// source map as it was) keep every path of both maps, each once.
pub proof fn lemma_mapped_copy_keeps_paths(
    spec: Entries,
    cs: Seq<crate::xmltree::XmlTree>,
    src: Entries,
    w: crate::walk::WalkView,
    inputs: Seq<(i32, Option<Seq<crate::walk::EntryView>>)>,
)
    requires
        unique_keys(spec),
        unique_keys(src),
    ensures
        ({
            let spec2 = crate::spectree::load_roots(spec, cs).0;
            let src2 = crate::walk::run_walk(w, src, inputs).1;
            &&& unique_keys(spec2)
            &&& forall|k: Seq<char>| has_key(spec, k) ==> #[trigger] has_key(spec2, k)
            &&& unique_keys(src2)
            &&& forall|k: Seq<char>| has_key(src, k) ==> #[trigger] has_key(src2, k)
            &&& reconcile_from(spec2, src2, 0).1 matches Ok(src3) ==> {
                &&& unique_keys(src3)
                &&& forall|k: Seq<char>| has_key(src2, k) <==> #[trigger] has_key(src3, k)
            }
        }),
{
    crate::spectree::lemma_load_roots_keeps_paths(spec, cs);
    crate::walk::lemma_walk_keeps_paths(w, src, inputs);
    let spec2 = crate::spectree::load_roots(spec, cs).0;
    let src2 = crate::walk::run_walk(w, src, inputs).1;
    if reconcile_from(spec2, src2, 0).1 is Ok {
        lemma_reconcile_keeps_paths(spec2, src2);
    }
}

} // verus!
