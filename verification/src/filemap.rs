//! File records and the path-keyed map that holds them.

use vstd::prelude::*;
use crate::text::{chars_eq, chars_of};

verus! {

/// What is known of one file or directory: its depth in the tree, its type (`'f'` for a
/// file, `'d'` for a directory), its owner, group and mode, and the owner, group and
/// mode that files below a directory get by default.
#[derive(Debug)]
pub struct FileData {
    pub file_level: i32,
    pub file_type: char,
    pub file_user: String,
    pub file_group: String,
    pub file_mode: i32,
    pub default_file_user: String,
    pub default_file_group: String,
    pub default_file_mode: i32,
}

/// The mathematical value of a `FileData`.
pub struct FileDataView {
    pub file_level: i32,
    pub file_type: char,
    pub file_user: Seq<char>,
    pub file_group: Seq<char>,
    pub file_mode: i32,
    pub default_file_user: Seq<char>,
    pub default_file_group: Seq<char>,
    pub default_file_mode: i32,
}

impl View for FileData {
    type V = FileDataView;

    open spec fn view(&self) -> FileDataView {
        FileDataView {
            file_level: self.file_level,
            file_type: self.file_type,
            file_user: self.file_user@,
            file_group: self.file_group@,
            file_mode: self.file_mode,
            default_file_user: self.default_file_user@,
            default_file_group: self.default_file_group@,
            default_file_mode: self.default_file_mode,
        }
    }
}

impl FileData {
    /// A record that holds the same values.
    pub fn duplicate(&self) -> (r: FileData)
        ensures
            r@ == self@,
    {
        FileData {
            file_level: self.file_level,
            file_type: self.file_type,
            file_user: self.file_user.clone(),
            file_group: self.file_group.clone(),
            file_mode: self.file_mode,
            default_file_user: self.default_file_user.clone(),
            default_file_group: self.default_file_group.clone(),
            default_file_mode: self.default_file_mode,
        }
    }
}

/// Whether some entry of `s` has key `k`.
pub open spec fn has_key<V>(s: Seq<(Seq<char>, V)>, k: Seq<char>) -> bool {
    exists|i: int| 0 <= i < s.len() && s[i].0 == k
}

/// Whether no two entries of `s` have the same key.
pub open spec fn unique_keys<V>(s: Seq<(Seq<char>, V)>) -> bool {
    forall|i: int, j: int| 0 <= i < s.len() && 0 <= j < s.len() && i != j ==> s[i].0 != s[j].0
}

/// The position of the entry with key `k` in `s` (meaningful when `has_key(s, k)`).
pub open spec fn key_index<V>(s: Seq<(Seq<char>, V)>, k: Seq<char>) -> int {
    choose|i: int| 0 <= i < s.len() && s[i].0 == k
}

/// The value under key `k` in `s`, if any.
pub open spec fn lookup<V>(s: Seq<(Seq<char>, V)>, k: Seq<char>) -> Option<V> {
    if has_key(s, k) {
        Some(s[key_index(s, k)].1)
    } else {
        None
    }
}

/// `s` with `v` under key `k`: the value of an existing entry is replaced in place,
/// otherwise a new entry is added at the end (as `HashMap::insert` does to the contents).
pub open spec fn assoc_insert<V>(s: Seq<(Seq<char>, V)>, k: Seq<char>, v: V) -> Seq<(Seq<char>, V)> {
    if has_key(s, k) {
        s.update(key_index(s, k), (k, v))
    } else {
        s.push((k, v))
    }
}

/// With unique keys, the entry with a key is the one that `key_index` names.
pub proof fn lemma_key_index_unique<V>(s: Seq<(Seq<char>, V)>, k: Seq<char>, i: int)
    requires
        unique_keys(s),
        0 <= i < s.len(),
        s[i].0 == k,
    ensures
        has_key(s, k),
        key_index(s, k) == i,
        lookup(s, k) == Some(s[i].1),
{
    assert(has_key(s, k));
    let j = key_index(s, k);
    assert(s[j].0 == k);
}

/// Inserting keeps the keys unique, and afterwards the key holds the new value while
/// every other key holds what it held before.
pub proof fn lemma_assoc_insert<V>(s: Seq<(Seq<char>, V)>, k: Seq<char>, v: V)
    requires
        unique_keys(s),
    ensures
        unique_keys(assoc_insert(s, k, v)),
        lookup(assoc_insert(s, k, v), k) == Some(v),
        forall|k2: Seq<char>| k2 != k ==> lookup(#[trigger] assoc_insert(s, k, v), k2) == lookup(s, k2),
        assoc_insert(s, k, v).len() == s.len() + (if has_key(s, k) { 0int } else { 1int }),
        forall|i: int| 0 <= i < s.len() ==> (#[trigger] assoc_insert(s, k, v)[i]).0 == s[i].0,
{
    let t = assoc_insert(s, k, v);
    if has_key(s, k) {
        let i = key_index(s, k);
        assert(unique_keys(t));
        lemma_key_index_unique(t, k, i);
        assert forall|k2: Seq<char>| k2 != k implies lookup(t, k2) == lookup(s, k2) by {
            if has_key(s, k2) {
                let j = key_index(s, k2);
                lemma_key_index_unique(t, k2, j);
            }
            if has_key(t, k2) {
                let j = key_index(t, k2);
                assert(s[j].0 == k2);
            }
        }
    } else {
        assert(unique_keys(t));
        lemma_key_index_unique(t, k, s.len() as int);
        assert forall|k2: Seq<char>| k2 != k implies lookup(t, k2) == lookup(s, k2) by {
            if has_key(s, k2) {
                let j = key_index(s, k2);
                lemma_key_index_unique(t, k2, j);
            }
            if has_key(t, k2) {
                let j = key_index(t, k2);
                assert(j < s.len());
                assert(s[j].0 == k2);
            }
        }
    }
}

/// Inserting keeps the keys unique and loses no key.
pub proof fn lemma_assoc_insert_keeps_keys<V>(m: Seq<(Seq<char>, V)>, k: Seq<char>, v: V)
    requires
        unique_keys(m),
    ensures
        unique_keys(assoc_insert(m, k, v)),
        has_key(assoc_insert(m, k, v), k),
        forall|k2: Seq<char>| has_key(m, k2) ==> has_key(#[trigger] assoc_insert(m, k, v), k2),
{
    lemma_assoc_insert(m, k, v);
    assert forall|k2: Seq<char>| has_key(m, k2) implies has_key(#[trigger] assoc_insert(m, k, v), k2) by {
        if k2 != k {
            assert(lookup(assoc_insert(m, k, v), k2) == lookup(m, k2));
        }
    }
}

/// Records of files and directories keyed by path, in the order their keys were first
/// inserted; no path occurs twice.
pub struct FileMap {
    entries: Vec<(String, FileData)>,
}

/// The value of one entry.
pub open spec fn entry_view(e: (String, FileData)) -> (Seq<char>, FileDataView) {
    (e.0@, e.1@)
}

impl View for FileMap {
    type V = Seq<(Seq<char>, FileDataView)>;

    closed spec fn view(&self) -> Seq<(Seq<char>, FileDataView)> {
        self.entries@.map_values(|e: (String, FileData)| entry_view(e))
    }
}

impl FileMap {
    #[verifier::type_invariant]
    closed spec fn keys_unique(&self) -> bool {
        unique_keys(self@)
    }

    /// An empty map.
    pub fn new() -> (r: FileMap)
        ensures
            r@ == Seq::<(Seq<char>, FileDataView)>::empty(),
    {
        let r = FileMap { entries: Vec::new() };
        assert(r@ =~= Seq::<(Seq<char>, FileDataView)>::empty());
        r
    }

    /// The number of entries.
    pub fn len(&self) -> (r: usize)
        ensures
            r == self@.len(),
            unique_keys(self@),
    {
        proof {
            use_type_invariant(self);
        }
        self.entries.len()
    }

    /// The key and record of the entry at position `i`.
    pub fn entry(&self, i: usize) -> (r: (&String, &FileData))
        requires
            i < self@.len(),
        ensures
            r.0@ == self@[i as int].0,
            r.1@ == self@[i as int].1,
    {
        let e = &self.entries[i];
        (&e.0, &e.1)
    }

    /// The position of the entry with key `key`, if there is one.
    pub fn find(&self, key: &str) -> (r: Option<usize>)
        ensures
            match r {
                Some(i) => i < self@.len() && self@[i as int].0 == key@ && key_index(self@, key@) == i,
                None => !has_key(self@, key@),
            },
    {
        proof {
            use_type_invariant(self);
        }
        let k = chars_of(key);
        let n = self.entries.len();
        let mut i: usize = 0;
        while i < n
            invariant
                n == self@.len(),
                n == self.entries@.len(),
                k@ == key@,
                unique_keys(self@),
                forall|j: int| 0 <= j < i ==> self@[j].0 != key@,
            decreases n - i,
        {
            let ek = chars_of(self.entries[i].0.as_str());
            assert(self@[i as int] == entry_view(self.entries@[i as int]));
            if chars_eq(ek.as_slice(), k.as_slice()) {
                proof {
                    lemma_key_index_unique(self@, key@, i as int);
                }
                return Some(i);
            }
            i = i + 1;
        }
        None
    }

    /// Whether some entry has key `key`.
    pub fn contains_key(&self, key: &str) -> (r: bool)
        ensures
            r == has_key(self@, key@),
    {
        self.find(key).is_some()
    }

    /// The record under `key`, if any.
    pub fn get(&self, key: &str) -> (r: Option<&FileData>)
        ensures
            match r {
                Some(d) => lookup(self@, key@) == Some(d@),
                None => lookup(self@, key@) is None,
            },
    {
        match self.find(key) {
            Some(i) => {
                assert(self@[i as int] == entry_view(self.entries@[i as int]));
                Some(&self.entries[i].1)
            },
            None => None,
        }
    }

    /// Puts `value` under `key`, replacing the record that the key held, if any.
    pub fn insert(&mut self, key: String, value: FileData)
        ensures
            final(self)@ == assoc_insert(old(self)@, key@, value@),
    {
        proof {
            use_type_invariant(&*self);
            lemma_assoc_insert(self@, key@, value@);
        }
        let ghost before = self@;
        let found = self.find(key.as_str());
        let ghost kv = key@;
        let ghost vv = value@;
        let mut entries: Vec<(String, FileData)> = Vec::new();
        std::mem::swap(&mut entries, &mut self.entries);
        assert(entries@.map_values(|e: (String, FileData)| entry_view(e)) == before);
        match found {
            Some(i) => {
                entries.set(i, (key, value));
                assert(entries@.map_values(|e: (String, FileData)| entry_view(e)) =~= before.update(i as int, (kv, vv)));
            },
            None => {
                entries.push((key, value));
                assert(entries@.map_values(|e: (String, FileData)| entry_view(e)) =~= before.push((kv, vv)));
            },
        }
        self.entries = entries;
    }
}

} // verus!
