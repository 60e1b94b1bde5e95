//! The tree specification: an XML document of `directory` and `file` elements that gives
//! each path its owner, group and mode, and the defaults that directories hand down.

use vstd::prelude::*;
use crate::filemap::{assoc_insert, has_key, lemma_assoc_insert, lemma_assoc_insert_keeps_keys, lookup, unique_keys, FileData, FileDataView, FileMap};
use crate::number::{i32_decimal, parse_i32, parse_i32_spec, signed_decimal};
use crate::text::{cat, concat3, owned, str_eq};
use crate::xmltree::{
    decode_tree, parse_xml_preorder, raw_attr_view, tree_of, tree_view,
    lemma_trees_view, xml_preorder, AttrView, XmlElement, XmlTree,
};

verus! {

/// The entries of a file map.
pub type Entries = Seq<(Seq<char>, FileDataView)>;

/// How reading a specification ended: it was read through, it was refused with a
/// message, or it stopped where a required attribute is missing.
pub enum ScanStatus {
    Done,
    Failed(Seq<char>),
    Aborted,
}

/// How reading a specification ended (see `ScanStatus`).
#[derive(Debug)]
pub enum ScanOutcome {
    Done,
    Failed(String),
    Aborted,
}

pub open spec fn outcome_view(o: ScanOutcome) -> ScanStatus {
    match o {
        ScanOutcome::Done => ScanStatus::Done,
        ScanOutcome::Failed(e) => ScanStatus::Failed(e@),
        ScanOutcome::Aborted => ScanStatus::Aborted,
    }
}

/// The value of the attribute `key` without namespace, if the element has one.
pub open spec fn attr_of(attrs: Seq<AttrView>, key: Seq<char>) -> Option<Seq<char>>
    decreases attrs.len(),
{
    if attrs.len() == 0 {
        None
    } else if attrs[0].0.len() == 0 && attrs[0].1 == key {
        Some(attrs[0].2)
    } else {
        attr_of(attrs.skip(1), key)
    }
}

/// The value of attribute `key`, or `dflt` when there is none.
pub open spec fn attr_or(attrs: Seq<AttrView>, key: Seq<char>, dflt: Seq<char>) -> Seq<char> {
    match attr_of(attrs, key) {
        Some(v) => v,
        None => dflt,
    }
}

/// A mode as text read as a number, zero when it is no number.
pub open spec fn mode_of(s: Seq<char>) -> i32 {
    match parse_i32_spec(s) {
        Some(v) => v,
        None => 0,
    }
}

/// The numeric attribute `key`, or `dflt` when there is none.
pub open spec fn mode_attr_or(attrs: Seq<AttrView>, key: Seq<char>, dflt: i32) -> i32 {
    match attr_of(attrs, key) {
        Some(v) => mode_of(v),
        None => dflt,
    }
}

/// The default owner that a directory hands down: its own, else its parent's.
pub open spec fn inherited_user(t: XmlTree, parent: Seq<char>) -> Seq<char> {
    attr_or(t.attrs, "default_file_user"@, parent)
}

/// The default group that a directory hands down: its own, else its parent's.
pub open spec fn inherited_group(t: XmlTree, parent: Seq<char>) -> Seq<char> {
    attr_or(t.attrs, "default_file_group"@, parent)
}

/// The default mode that a directory hands down: its own, else its parent's.
pub open spec fn inherited_mode(t: XmlTree, parent: i32) -> i32 {
    mode_attr_or(t.attrs, "default_file_mode"@, parent)
}

/// The record of a directory element at depth `level`.
pub open spec fn dir_record(t: XmlTree, level: i32, du: Seq<char>, dg: Seq<char>, dm: i32) -> FileDataView {
    FileDataView {
        file_level: level,
        file_type: 'd',
        file_user: attr_or(t.attrs, "user"@, Seq::empty()),
        file_group: attr_or(t.attrs, "group"@, Seq::empty()),
        file_mode: mode_attr_or(t.attrs, "mode"@, 0),
        default_file_user: inherited_user(t, du),
        default_file_group: inherited_group(t, dg),
        default_file_mode: inherited_mode(t, dm),
    }
}

/// The record of a file element in a directory at depth `level` whose defaults are
/// `du`, `dg`, `dm`.
pub open spec fn file_record(
    level: i32,
    user: Seq<char>,
    group: Seq<char>,
    mode: Seq<char>,
    du: Seq<char>,
    dg: Seq<char>,
    dm: i32,
) -> FileDataView {
    FileDataView {
        file_level: level,
        file_type: 'f',
        file_user: user,
        file_group: group,
        file_mode: mode_of(mode),
        default_file_user: du,
        default_file_group: dg,
        default_file_mode: dm,
    }
}

/// The message that wraps a failure below a directory at depth `level`.
pub open spec fn nested_failure(level: i32, e: Seq<char>) -> Seq<char> {
    "scan_tree: level: "@ + signed_decimal(level as int) + " (recursive result): '"@ + e + "'"@
}

/// The message for an element that is neither a directory nor a file.
pub open spec fn unexpected_element(name: Seq<char>) -> Seq<char> {
    "scan_tre: ERROR Unexpected node name: '"@ + name + "' "@
}

/// Reading the directory element `t` at `path` and depth `level` into the entries `m`,
/// with the defaults `pdu`, `pdg`, `pdm` of its parent: the entries afterwards, and how
/// the reading ended.
pub open spec fn scan_dir(
    m: Entries,
    path: Seq<char>,
    t: XmlTree,
    level: i32,
    pdu: Seq<char>,
    pdg: Seq<char>,
    pdm: i32,
) -> (Entries, ScanStatus)
    decreases t,
{
    let du = inherited_user(t, pdu);
    let dg = inherited_group(t, pdg);
    let dm = inherited_mode(t, pdm);
    let m1 = assoc_insert(m, path, dir_record(t, level, pdu, pdg, pdm));
    scan_children(m1, path, t.children, level, du, dg, dm)
}

/// Reading the child elements `cs` of the directory at `path` and depth `level`, whose
/// defaults are `du`, `dg`, `dm`, one after the other.
pub open spec fn scan_children(
    m: Entries,
    path: Seq<char>,
    cs: Seq<XmlTree>,
    level: i32,
    du: Seq<char>,
    dg: Seq<char>,
    dm: i32,
) -> (Entries, ScanStatus)
    decreases cs,
{
    if cs.len() == 0 {
        (m, ScanStatus::Done)
    } else {
        let c = cs[0];
        match attr_of(c.attrs, "name"@) {
            None => (m, ScanStatus::Aborted),
            Some(name) => {
                let np = path + "/"@ + name;
                if c.name == "directory"@ {
                    if level == i32::MAX {
                        (m, ScanStatus::Aborted)
                    } else {
                        let r = scan_dir(m, np, c, (level + 1) as i32, du, dg, dm);
                        match r.1 {
                            ScanStatus::Done => scan_children(r.0, path, cs.skip(1), level, du, dg, dm),
                            ScanStatus::Failed(e) => (r.0, ScanStatus::Failed(nested_failure(level, e))),
                            ScanStatus::Aborted => (r.0, ScanStatus::Aborted),
                        }
                    }
                } else if c.name == "file"@ {
                    match (attr_of(c.attrs, "user"@), attr_of(c.attrs, "group"@), attr_of(c.attrs, "mode"@)) {
                        (Some(u), Some(g), Some(md)) => scan_children(
                            assoc_insert(m, np, file_record(level, u, g, md, du, dg, dm)),
                            path,
                            cs.skip(1),
                            level,
                            du,
                            dg,
                            dm,
                        ),
                        _ => (m, ScanStatus::Aborted),
                    }
                } else {
                    (m, ScanStatus::Failed(unexpected_element(c.name)))
                }
            },
        }
    }
}

/// The value of the attribute `key` without namespace of `e`, if any.
pub fn element_attr(e: &XmlElement, key: &str) -> (r: Option<String>)
    ensures
        match r {
            Some(v) => attr_of(tree_view(*e).attrs, key@) == Some(v@),
            None => attr_of(tree_view(*e).attrs, key@) is None,
        },
{
    let ghost a = tree_view(*e).attrs;
    let n = e.attrs.len();
    let mut i: usize = 0;
    assert(a.skip(0) =~= a);
    while i < n
        invariant
            n == e.attrs@.len(),
            a == tree_view(*e).attrs,
            a.len() == n,
            i <= n,
            attr_of(a.skip(i as int), key@) == attr_of(a, key@),
        decreases n - i,
    {
        let at = &e.attrs[i];
        assert(a[i as int] == raw_attr_view(e.attrs@[i as int]));
        assert(a.skip(i as int)[0] == a[i as int]);
        assert(a.skip(i as int).skip(1) =~= a.skip(i + 1));
        if at.0.as_str().is_empty() && str_eq(at.1.as_str(), key) {
            return Some(at.2.clone());
        }
        i = i + 1;
    }
    None
}

/// A mode as text read as a number, zero when it is no number.
pub fn mode_number(s: &str) -> (r: i32)
    ensures
        r == mode_of(s@),
{
    match parse_i32(s) {
        Some(v) => v,
        None => 0,
    }
}

fn text_or(v: Option<String>, dflt: &str) -> (r: String)
    ensures
        r@ == match v {
            Some(x) => x@,
            None => dflt@,
        },
{
    match v {
        Some(x) => x,
        None => owned(dflt),
    }
}

fn mode_or(v: Option<String>, dflt: i32) -> (r: i32)
    ensures
        r == match v {
            Some(x) => mode_of(x@),
            None => dflt,
        },
{
    match v {
        Some(x) => mode_number(x.as_str()),
        None => dflt,
    }
}

/// Reads the directory element `cur_dir`, found at `cur_path` and depth `file_level`,
/// into `map`: first the directory itself, then its children in order, each file with
/// its own owner, group and mode, each subdirectory in the same way one level deeper.
/// Defaults (`default_file_user`, `default_file_group`, `default_file_mode`) trickle
/// down from `pdu`, `pdg`, `pdm` unless a directory sets its own. What was read before
/// a failure stays in `map`.
pub fn scan_tree(
    map: &mut FileMap,
    cur_path: &str,
    cur_dir: &XmlElement,
    file_level: i32,
    pdu: &str,
    pdg: &str,
    pdm: i32,
) -> (r: ScanOutcome)
    ensures
        (final(map)@, outcome_view(r)) == scan_dir(old(map)@, cur_path@, tree_view(*cur_dir), file_level, pdu@, pdg@, pdm),
    decreases *cur_dir,
{
    let ghost t = tree_view(*cur_dir);
    let du = text_or(element_attr(cur_dir, "default_file_user"), pdu);
    let dg = text_or(element_attr(cur_dir, "default_file_group"), pdg);
    let dm = mode_or(element_attr(cur_dir, "default_file_mode"), pdm);
    let record = FileData {
        file_level,
        file_type: 'd',
        file_user: text_or(element_attr(cur_dir, "user"), ""),
        file_group: text_or(element_attr(cur_dir, "group"), ""),
        file_mode: mode_or(element_attr(cur_dir, "mode"), 0),
        default_file_user: owned(du.as_str()),
        default_file_group: owned(dg.as_str()),
        default_file_mode: dm,
    };
    proof {
        reveal_strlit("");
        assert(""@ =~= Seq::<char>::empty());
    }
    assert(record@ == dir_record(t, file_level, pdu@, pdg@, pdm));
    map.insert(owned(cur_path), record);
    let ghost cs = t.children;
    let ghost m1 = map@;
    proof {
        lemma_trees_view(cur_dir.children@);
        assert(cs.skip(0) =~= cs);
    }
    assert(scan_dir(old(map)@, cur_path@, t, file_level, pdu@, pdg@, pdm) == scan_children(m1, cur_path@, cs, file_level, du@, dg@, dm));
    let n = cur_dir.children.len();
    let mut i: usize = 0;
    loop
        invariant
            n == cur_dir.children@.len(),
            cs == tree_view(*cur_dir).children,
            cs.len() == n,
            forall|k: int| 0 <= k < n ==> #[trigger] cs[k] == tree_view(cur_dir.children@[k]),
            i <= n,
            scan_children(m1, cur_path@, cs, file_level, du@, dg@, dm)
                == scan_children(map@, cur_path@, cs.skip(i as int), file_level, du@, dg@, dm),
            scan_dir(old(map)@, cur_path@, t, file_level, pdu@, pdg@, pdm) == scan_children(m1, cur_path@, cs, file_level, du@, dg@, dm),
            t == tree_view(*cur_dir),
        decreases n - i,
    {
        let ghost rest = cs.skip(i as int);
        if i == n {
            assert(rest.len() == 0);
            return ScanOutcome::Done;
        }
        let c = &cur_dir.children[i];
        assert(rest[0] == tree_view(*c));
        assert(rest.skip(1) =~= cs.skip(i + 1));
        let name = match element_attr(c, "name") {
            None => {
                return ScanOutcome::Aborted;
            },
            Some(x) => x,
        };
        let np = concat3(cur_path, "/", name.as_str());
        if str_eq(c.name.as_str(), "directory") {
            if file_level == i32::MAX {
                return ScanOutcome::Aborted;
            }
            assert(decreases_to!(*cur_dir => cur_dir.children));
            assert(decreases_to!(cur_dir.children => cur_dir.children@));
            assert(decreases_to!(cur_dir.children@ => cur_dir.children@[i as int]));
            let sub = scan_tree(map, np.as_str(), c, file_level + 1, du.as_str(), dg.as_str(), dm);
            match sub {
                ScanOutcome::Done => {},
                ScanOutcome::Failed(e) => {
                    let msg = cat(cat(cat(cat(owned("scan_tree: level: "), i32_decimal(file_level).as_str()), " (recursive result): '"), e.as_str()), "'");
                    return ScanOutcome::Failed(msg);
                },
                ScanOutcome::Aborted => {
                    return ScanOutcome::Aborted;
                },
            }
        } else if str_eq(c.name.as_str(), "file") {
            let user = match element_attr(c, "user") {
                None => {
                    return ScanOutcome::Aborted;
                },
                Some(x) => x,
            };
            let group = match element_attr(c, "group") {
                None => {
                    return ScanOutcome::Aborted;
                },
                Some(x) => x,
            };
            let mode = match element_attr(c, "mode") {
                None => {
                    return ScanOutcome::Aborted;
                },
                Some(x) => x,
            };
            let record = FileData {
                file_level,
                file_type: 'f',
                file_user: user,
                file_group: group,
                file_mode: mode_number(mode.as_str()),
                default_file_user: owned(du.as_str()),
                default_file_group: owned(dg.as_str()),
                default_file_mode: dm,
            };
            map.insert(np, record);
        } else {
            let msg = concat3("scan_tre: ERROR Unexpected node name: '", c.name.as_str(), "' ");
            return ScanOutcome::Failed(msg);
        }
        i = i + 1;
    }
}

/// Defaults trickle down: a directory hands down its own default owner, group and mode
/// when it sets them, and its parent's when it does not; and the mode read from an
/// attribute is that attribute read as a number, zero when it is none.
pub proof fn lemma_defaults_trickle_down(t: XmlTree, level: i32, pdu: Seq<char>, pdg: Seq<char>, pdm: i32)
    ensures
        attr_of(t.attrs, "default_file_user"@) is None ==> dir_record(t, level, pdu, pdg, pdm).default_file_user == pdu,
        attr_of(t.attrs, "default_file_group"@) is None ==> dir_record(t, level, pdu, pdg, pdm).default_file_group == pdg,
        attr_of(t.attrs, "default_file_mode"@) is None ==> dir_record(t, level, pdu, pdg, pdm).default_file_mode == pdm,
        attr_of(t.attrs, "default_file_user"@) matches Some(u) ==> dir_record(t, level, pdu, pdg, pdm).default_file_user == u,
        attr_of(t.attrs, "default_file_group"@) matches Some(g) ==> dir_record(t, level, pdu, pdg, pdm).default_file_group == g,
        attr_of(t.attrs, "default_file_mode"@) matches Some(m) ==> dir_record(t, level, pdu, pdg, pdm).default_file_mode == mode_of(m),
        dir_record(t, level, pdu, pdg, pdm).file_type == 'd',
        dir_record(t, level, pdu, pdg, pdm).file_level == level,
{
}

/// Reading a directory element only adds to the map: every path it held is still there
/// afterwards, and no path occurs twice.
pub proof fn lemma_scan_dir_keeps_paths(
    m: Entries,
    path: Seq<char>,
    t: XmlTree,
    level: i32,
    pdu: Seq<char>,
    pdg: Seq<char>,
    pdm: i32,
)
    requires
        unique_keys(m),
    ensures
        unique_keys(scan_dir(m, path, t, level, pdu, pdg, pdm).0),
        forall|k: Seq<char>| has_key(m, k) ==> has_key(#[trigger] scan_dir(m, path, t, level, pdu, pdg, pdm).0, k),
    decreases t,
{
    let m1 = assoc_insert(m, path, dir_record(t, level, pdu, pdg, pdm));
    lemma_assoc_insert_keeps_keys(m, path, dir_record(t, level, pdu, pdg, pdm));
    lemma_scan_children_keeps_paths(m1, path, t.children, level, inherited_user(t, pdu), inherited_group(t, pdg), inherited_mode(t, pdm));
}

/// Reading child elements only adds to the map (see `lemma_scan_dir_keeps_paths`).
pub proof fn lemma_scan_children_keeps_paths(
    m: Entries,
    path: Seq<char>,
    cs: Seq<XmlTree>,
    level: i32,
    du: Seq<char>,
    dg: Seq<char>,
    dm: i32,
)
    requires
        unique_keys(m),
    ensures
        unique_keys(scan_children(m, path, cs, level, du, dg, dm).0),
        forall|k: Seq<char>| has_key(m, k) ==> has_key(#[trigger] scan_children(m, path, cs, level, du, dg, dm).0, k),
    decreases cs,
{
    if cs.len() > 0 {
        let c = cs[0];
        match attr_of(c.attrs, "name"@) {
            None => {},
            Some(name) => {
                let np = path + "/"@ + name;
                if c.name == "directory"@ {
                    if level != i32::MAX {
                        let r = scan_dir(m, np, c, (level + 1) as i32, du, dg, dm);
                        lemma_scan_dir_keeps_paths(m, np, c, (level + 1) as i32, du, dg, dm);
                        if r.1 is Done {
                            lemma_scan_children_keeps_paths(r.0, path, cs.skip(1), level, du, dg, dm);
                        }
                    }
                } else if c.name == "file"@ {
                    match (attr_of(c.attrs, "user"@), attr_of(c.attrs, "group"@), attr_of(c.attrs, "mode"@)) {
                        (Some(u), Some(g), Some(md)) => {
                            let rec = file_record(level, u, g, md, du, dg, dm);
                            lemma_assoc_insert_keeps_keys(m, np, rec);
                            lemma_scan_children_keeps_paths(assoc_insert(m, np, rec), path, cs.skip(1), level, du, dg, dm);
                        },
                        _ => {},
                    }
                }
            },
        }
    }
}

/// A file element is recorded under its directory with its own attributes: where the
/// first child element is a `file` with a `name`, `user`, `group` and `mode`, reading the
/// children puts at the directory's path followed by `/` and that name a file record at
/// the directory's depth whose owner is the element's `user`, whose group is its `group`
/// and whose mode is its `mode` read as a number, with the directory's defaults, and
/// goes on with the other children. When it is the only child, that record is what the
/// map holds at that path afterwards.
pub proof fn lemma_file_element_recorded(
    m: Entries,
    path: Seq<char>,
    cs: Seq<XmlTree>,
    level: i32,
    du: Seq<char>,
    dg: Seq<char>,
    dm: i32,
)
    requires
        cs.len() > 0,
        cs[0].name == "file"@,
        attr_of(cs[0].attrs, "name"@) is Some,
        attr_of(cs[0].attrs, "user"@) is Some,
        attr_of(cs[0].attrs, "group"@) is Some,
        attr_of(cs[0].attrs, "mode"@) is Some,
    ensures
        ({
            let np = path + "/"@ + attr_of(cs[0].attrs, "name"@)->Some_0;
            let rec = FileDataView {
                file_level: level,
                file_type: 'f',
                file_user: attr_of(cs[0].attrs, "user"@)->Some_0,
                file_group: attr_of(cs[0].attrs, "group"@)->Some_0,
                file_mode: mode_of(attr_of(cs[0].attrs, "mode"@)->Some_0),
                default_file_user: du,
                default_file_group: dg,
                default_file_mode: dm,
            };
            &&& scan_children(m, path, cs, level, du, dg, dm)
                == scan_children(assoc_insert(m, np, rec), path, cs.skip(1), level, du, dg, dm)
            &&& (cs.len() == 1 && unique_keys(m)) ==> {
                &&& scan_children(m, path, cs, level, du, dg, dm).1 == ScanStatus::Done
                &&& lookup(scan_children(m, path, cs, level, du, dg, dm).0, np) == Some(rec)
            }
        }),
{
    reveal_strlit("file");
    reveal_strlit("directory");
    assert("file"@.len() != "directory"@.len());
    let np = path + "/"@ + attr_of(cs[0].attrs, "name"@)->Some_0;
    let rec = file_record(
        level,
        attr_of(cs[0].attrs, "user"@)->Some_0,
        attr_of(cs[0].attrs, "group"@)->Some_0,
        attr_of(cs[0].attrs, "mode"@)->Some_0,
        du,
        dg,
        dm,
    );
    if cs.len() == 1 && unique_keys(m) {
        lemma_assoc_insert(m, np, rec);
        assert(cs.skip(1).len() == 0);
    }
}

/// A directory element is recorded at its path with its own attributes: its owner is
/// its `user`, its group its `group` and its mode its `mode` read as a number (empty or
/// zero where it has none), at depth `level`, with the defaults it hands down (its own,
/// else its parent's); then its children are read below it with those defaults.
pub proof fn lemma_dir_element_recorded(
    m: Entries,
    path: Seq<char>,
    t: XmlTree,
    level: i32,
    pdu: Seq<char>,
    pdg: Seq<char>,
    pdm: i32,
)
    ensures
        ({
            let du = attr_or(t.attrs, "default_file_user"@, pdu);
            let dg = attr_or(t.attrs, "default_file_group"@, pdg);
            let dm = mode_attr_or(t.attrs, "default_file_mode"@, pdm);
            let rec = FileDataView {
                file_level: level,
                file_type: 'd',
                file_user: attr_or(t.attrs, "user"@, Seq::empty()),
                file_group: attr_or(t.attrs, "group"@, Seq::empty()),
                file_mode: mode_attr_or(t.attrs, "mode"@, 0),
                default_file_user: du,
                default_file_group: dg,
                default_file_mode: dm,
            };
            scan_dir(m, path, t, level, pdu, pdg, pdm) == scan_children(assoc_insert(m, path, rec), path, t.children, level, du, dg, dm)
        }),
{
}

/// Reading the top elements `cs` of a specification into `m`: each must be a directory
/// with a non-empty `name`, which is the path of that directory; its tree is read at
/// depth zero with empty defaults.
pub open spec fn load_roots(m: Entries, cs: Seq<XmlTree>) -> (Entries, ScanStatus)
    decreases cs,
{
    if cs.len() == 0 {
        (m, ScanStatus::Done)
    } else {
        let c = cs[0];
        if c.name == "directory"@ {
            let name = attr_or(c.attrs, "name"@, Seq::empty());
            if name.len() == 0 {
                (m, ScanStatus::Failed("map_copy: directory element did NOT have name attribute!"@))
            } else {
                let r = scan_dir(m, name, c, 0, Seq::empty(), Seq::empty(), 0);
                match r.1 {
                    ScanStatus::Done => load_roots(r.0, cs.skip(1)),
                    ScanStatus::Failed(e) => (r.0, ScanStatus::Failed("calling scan_tree: "@ + e)),
                    ScanStatus::Aborted => (r.0, ScanStatus::Aborted),
                }
            }
        } else {
            (m, ScanStatus::Failed("map_copy: child of XML tree was NOT a directory: '"@ + c.name + "'"@))
        }
    }
}

/// Reading the top elements of a specification only adds to the map: every path it
/// held is still there afterwards, and no path occurs twice.
pub proof fn lemma_load_roots_keeps_paths(m: Entries, cs: Seq<XmlTree>)
    requires
        unique_keys(m),
    ensures
        unique_keys(load_roots(m, cs).0),
        forall|k: Seq<char>| has_key(m, k) ==> has_key(#[trigger] load_roots(m, cs).0, k),
    decreases cs,
{
    if cs.len() > 0 {
        let c = cs[0];
        if c.name == "directory"@ {
            let name = attr_or(c.attrs, "name"@, Seq::empty());
            if name.len() != 0 {
                let r = scan_dir(m, name, c, 0, Seq::empty(), Seq::empty(), 0);
                lemma_scan_dir_keeps_paths(m, name, c, 0, Seq::empty(), Seq::empty(), 0);
                if r.1 is Done {
                    lemma_load_roots_keeps_paths(r.0, cs.skip(1));
                }
            }
        }
    }
}

/// Reads the child elements of the document element `root` into `map` (see `load_roots`).
pub fn load_roots_exec(map: &mut FileMap, root: &XmlElement) -> (r: ScanOutcome)
    ensures
        (final(map)@, outcome_view(r)) == load_roots(old(map)@, tree_view(*root).children),
{
    let ghost cs = tree_view(*root).children;
    proof {
        lemma_trees_view(root.children@);
        assert(cs.skip(0) =~= cs);
    }
    let n = root.children.len();
    let mut i: usize = 0;
    loop
        invariant
            n == root.children@.len(),
            cs == tree_view(*root).children,
            cs.len() == n,
            forall|k: int| 0 <= k < n ==> #[trigger] cs[k] == tree_view(root.children@[k]),
            i <= n,
            load_roots(old(map)@, cs) == load_roots(map@, cs.skip(i as int)),
        decreases n - i,
    {
        let ghost rest = cs.skip(i as int);
        if i == n {
            return ScanOutcome::Done;
        }
        let c = &root.children[i];
        assert(rest[0] == tree_view(*c));
        assert(rest.skip(1) =~= cs.skip(i + 1));
        if str_eq(c.name.as_str(), "directory") {
            let name = text_or(element_attr(c, "name"), "");
            proof {
                reveal_strlit("");
                assert(""@ =~= Seq::<char>::empty());
            }
            if name.as_str().is_empty() {
                return ScanOutcome::Failed(owned("map_copy: directory element did NOT have name attribute!"));
            }
            proof {
                assert(""@ =~= Seq::<char>::empty());
            }
            match scan_tree(map, name.as_str(), c, 0, "", "", 0) {
                ScanOutcome::Done => {},
                ScanOutcome::Failed(e) => {
                    return ScanOutcome::Failed(cat(owned("calling scan_tree: "), e.as_str()));
                },
                ScanOutcome::Aborted => {
                    return ScanOutcome::Aborted;
                },
            }
        } else {
            return ScanOutcome::Failed(concat3("map_copy: child of XML tree was NOT a directory: '", c.name.as_str(), "'"));
        }
        i = i + 1;
    }
}

/// How reading a specification document ended: `minidom` refused the text (or it did not
/// describe one tree), or it was read (see `ScanOutcome`).
#[derive(Debug)]
pub enum SpecLoad {
    Unparsed,
    Read(ScanOutcome),
}

/// Parses the specification document `text` and reads the elements below its document
/// element into `map` (see `load_roots`). When the text cannot be parsed, `map` is left
/// as it was.
pub fn load_spec_text(map: &mut FileMap, text: &str) -> (r: SpecLoad)
    ensures
        match xml_preorder(text@) {
            None => r is Unparsed && final(map)@ == old(map)@,
            Some(items) => match tree_of(items) {
                None => r is Unparsed && final(map)@ == old(map)@,
                Some(t) => r matches SpecLoad::Read(o)
                    && (final(map)@, outcome_view(o)) == load_roots(old(map)@, t.children),
            },
        },
{
    match parse_xml_preorder(text) {
        None => SpecLoad::Unparsed,
        Some(items) => match decode_tree(&items) {
            None => SpecLoad::Unparsed,
            Some(root) => SpecLoad::Read(load_roots_exec(map, &root)),
        },
    }
}

} // verus!
