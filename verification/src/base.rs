//! The base setup: the `key: value` lines that the setup script prints.

use vstd::prelude::*;
use crate::filemap::{assoc_insert, has_key, unique_keys, lemma_assoc_insert, lemma_key_index_unique};
use crate::number::{decimal, u64_decimal};
use crate::params::{fields_view, pair_view};
use crate::text::{
    contains_seq, contains_str, concat3, find_from, lemma_find_from, lines, lines_from, occurs_at, owned, spec_lines,
    str_eq, strip_cr, views,
};

verus! {

/// The pattern that cuts a setup line into key and value.
pub open spec fn key_value_pattern() -> Seq<char> {
    "^(.*?): (.*)$"@
}

/// The position of the first `": "` in `s`, if any.
#[verifier::opaque]
pub open spec fn first_separator(s: Seq<char>) -> Option<int> {
    if exists|i: int| occurs_at(s, ": "@, i) {
        Some(choose|i: int| occurs_at(s, ": "@, i) && forall|j: int| j < i ==> !occurs_at(s, ": "@, j))
    } else {
        None
    }
}

/// A setup line cut at its first `": "`: what comes before it and what comes after it.
pub open spec fn key_value_of(line: Seq<char>) -> Option<(Seq<char>, Seq<char>)> {
    match first_separator(line) {
        Some(i) => Some((line.take(i), line.skip(i + 2))),
        None => None,
    }
}

/// `regex::Regex::new(pattern)` and then `Regex::captures(line)`, giving capture groups 1
/// and 2. With the pattern `^(.*?): (.*)$` and a line without `'\n'` (which `.` does
/// not match), the regex documentation gives: both anchors make a match span the whole
/// line, the lazy `(.*?)` takes the shortest prefix after which `": "` follows, and
/// `(.*)` takes the rest. So there is a match exactly when the line holds `": "`, and
/// the groups are the text before its first occurrence and the text after it.
#[verifier::external_body]
fn regex_key_value(pattern: &str, line: &str) -> (r: Option<(String, String)>)
    requires
        pattern@ == key_value_pattern(),
        !line@.contains('\n'),
    ensures
        match r {
            Some((k, v)) => key_value_of(line@) == Some((k@, v@)),
            None => key_value_of(line@) is None,
        },
{
    let caps = regex::Regex::new(pattern).unwrap().captures(line)?;
    let group = |i: usize| caps.get(i).map_or("", |m| m.as_str()).to_string();
    Some((group(1), group(2)))
}

/// No line of a text holds a `'\n'`.
pub proof fn lemma_lines_no_newline(s: Seq<char>, start: int)
    requires
        0 <= start,
    ensures
        forall|q: int| 0 <= q < lines_from(s, start).len() ==> !(#[trigger] lines_from(s, start)[q]).contains('\n'),
    decreases s.len() - start,
{
    if start < s.len() {
        lemma_find_from(s, '\n', start);
        let j = find_from(s, '\n', start);
        let first = if j >= s.len() { s.subrange(start, s.len() as int) } else { strip_cr(s.subrange(start, j)) };
        assert(!first.contains('\n')) by {
            if first.contains('\n') {
                let k = choose|k: int| 0 <= k < first.len() && first[k] == '\n';
                assert(s[start + k] == '\n');
            }
        }
        if j < s.len() {
            lemma_lines_no_newline(s, j + 1);
            let rest = lines_from(s, j + 1);
            assert forall|q: int| 0 <= q < lines_from(s, start).len() implies !(#[trigger] lines_from(s, start)[q]).contains('\n') by {
                if q > 0 {
                    assert(lines_from(s, start)[q] == rest[q - 1]);
                }
            }
        }
    }
}

/// The key and value of each line (meaningful when every line has them).
pub open spec fn line_pairs(ls: Seq<Seq<char>>) -> Seq<(Seq<char>, Seq<char>)> {
    Seq::new(ls.len(), |q: int| key_value_of(ls[q])->Some_0)
}

/// The entries made by inserting the pairs one after the other (a later pair with the
/// same key replaces the value of the earlier one).
pub open spec fn insert_all(pairs: Seq<(Seq<char>, Seq<char>)>) -> Seq<(Seq<char>, Seq<char>)>
    decreases pairs.len(),
{
    if pairs.len() == 0 {
        Seq::empty()
    } else {
        let last = pairs.last();
        assoc_insert(insert_all(pairs.drop_last()), last.0, last.1)
    }
}

/// How reading the setup output ended, as a value.
pub enum BaseSpec {
    Fields(Seq<(Seq<char>, Seq<char>)>),
    Failed(Seq<char>),
}

/// Whether every line of `raw` is `key: value` (holds `": "`).
pub open spec fn lines_separated(raw: Seq<char>) -> bool {
    forall|q: int| 0 <= q < spec_lines(raw).len() ==> key_value_of(#[trigger] spec_lines(raw)[q]) is Some
}

/// What the output `raw` of the setup script gives, the script having run successfully
/// or not (`ok`); every line of a successful output is `key: value`. When a key comes
/// twice the line count and the number of keys differ, which is refused.
pub open spec fn base_fields_of(ok: bool, raw: Seq<char>) -> BaseSpec {
    if !ok {
        BaseSpec::Failed("get_base: not okay: '"@ + raw + "' "@)
    } else {
        let ls = spec_lines(raw);
        let pairs = line_pairs(ls);
        let m = insert_all(pairs);
        if ls.len() != m.len() {
            BaseSpec::Failed(
                "Something's wrong: shell script lines : '"@ + decimal(ls.len()) + "' , hashmap length: '"@
                    + decimal(m.len()) + "'"@,
            )
        } else {
            BaseSpec::Fields(m)
        }
    }
}

/// A line has a key and a value exactly when it holds `": "`.
pub proof fn lemma_key_value_iff_separator(line: Seq<char>)
    ensures
        key_value_of(line) is Some <==> contains_seq(line, ": "@),
{
    reveal(first_separator);
}

/// Whether every line of `raw_output` is `key: value` (see `lines_separated`); a setup
/// output must be so before it is read.
pub fn lines_have_separator(raw_output: &str) -> (r: bool)
    ensures
        r == lines_separated(raw_output@),
{
    let ls = lines(raw_output);
    let ghost lv = views(ls@);
    let n = ls.len();
    let mut i: usize = 0;
    while i < n
        invariant
            n == ls@.len(),
            lv == views(ls@),
            lv == spec_lines(raw_output@),
            i <= n,
            forall|q: int| 0 <= q < i ==> key_value_of(#[trigger] lv[q]) is Some,
        decreases n - i,
    {
        assert(lv[i as int] == ls@[i as int]@);
        proof {
            lemma_key_value_iff_separator(lv[i as int]);
        }
        if !contains_str(ls[i].as_str(), ": ") {
            assert(key_value_of(lv[i as int]) is None);
            return false;
        }
        i = i + 1;
    }
    true
}

/// How reading the setup output ended: the fields, a refusal with its message, or a line
/// that is not `key: value`.
#[derive(Debug)]
pub enum BaseFields {
    Fields(Vec<(String, String)>),
    Failed(String),
}

pub open spec fn base_view(b: BaseFields) -> BaseSpec {
    match b {
        BaseFields::Fields(v) => BaseSpec::Fields(fields_view(v@)),
        BaseFields::Failed(e) => BaseSpec::Failed(e@),
    }
}

/// Puts `value` under `key` among `fields`, replacing the value that the key held.
fn put_field(fields: &mut Vec<(String, String)>, key: String, value: String)
    requires
        unique_keys(fields_view(old(fields)@)),
    ensures
        fields_view(final(fields)@) == assoc_insert(fields_view(old(fields)@), key@, value@),
        unique_keys(fields_view(final(fields)@)),
{
    let ghost f = fields_view(fields@);
    proof {
        lemma_assoc_insert(f, key@, value@);
    }
    let n = fields.len();
    let mut i: usize = 0;
    while i < n
        invariant
            n == fields@.len(),
            f == fields_view(fields@),
            f == fields_view(old(fields)@),
            unique_keys(f),
            i <= n,
            forall|j: int| 0 <= j < i ==> f[j].0 != key@,
        decreases n - i,
    {
        assert(f[i as int] == pair_view(fields@[i as int]));
        if str_eq(fields[i].0.as_str(), key.as_str()) {
            proof {
                lemma_key_index_unique(f, key@, i as int);
            }
            let ghost kv = key@;
            let ghost vv = value@;
            fields.set(i, (key, value));
            assert(assoc_insert(f, kv, vv) == f.update(i as int, (kv, vv)));
            assert(fields_view(fields@) =~= f.update(i as int, (kv, vv)));
            return;
        }
        i = i + 1;
    }
    let ghost kv = key@;
    let ghost vv = value@;
    fields.push((key, value));
    assert(fields_view(fields@) =~= f.push((kv, vv)));
}

/// Reads the output `raw_output` of the setup script, which ran successfully or not
/// (`ok`), into fields (see `base_fields_of`). A successful output must have `": "` in
/// every line (see `lines_have_separator`).
pub fn base_fields_from_output(ok: bool, raw_output: &str) -> (r: BaseFields)
    requires
        ok ==> lines_separated(raw_output@),
    ensures
        base_view(r) == base_fields_of(ok, raw_output@),
{
    if !ok {
        return BaseFields::Failed(concat3("get_base: not okay: '", raw_output, "' "));
    }
    let ls = lines(raw_output);
    let ghost lv = views(ls@);
    proof {
        lemma_lines_no_newline(raw_output@, 0);
    }
    let n = ls.len();
    let mut fields: Vec<(String, String)> = Vec::new();
    let ghost pairs = line_pairs(lv);
    let mut i: usize = 0;
    assert(fields_view(fields@) =~= insert_all(pairs.take(0)));
    while i < n
        invariant
            n == ls@.len(),
            ok,
            lv == views(ls@),
            lv == spec_lines(raw_output@),
            pairs == line_pairs(lv),
            pairs.len() == n,
            forall|q: int| 0 <= q < lv.len() ==> !(#[trigger] lv[q]).contains('\n'),
            i <= n,
            lines_separated(raw_output@),
            fields_view(fields@) == insert_all(pairs.take(i as int)),
            unique_keys(fields_view(fields@)),
        decreases n - i,
    {
        assert(lv[i as int] == ls@[i as int]@);
        match regex_key_value("^(.*?): (.*)$", ls[i].as_str()) {
            None => {
                assert(key_value_of(lv[i as int]) is Some);
                return BaseFields::Failed(owned(""));
            },
            Some((k, v)) => {
                assert(pairs.take(i + 1).drop_last() =~= pairs.take(i as int));
                assert(pairs[i as int] == key_value_of(lv[i as int])->Some_0);
                assert(pairs.take(i + 1).last() == (k@, v@));
                put_field(&mut fields, k, v);
            },
        }
        i = i + 1;
    }
    assert(pairs.take(n as int) =~= pairs);
    if n != fields.len() {
        let mut e = owned("Something's wrong: shell script lines : '");
        e.append(u64_decimal(n as u64).as_str());
        e.append("' , hashmap length: '");
        e.append(u64_decimal(fields.len() as u64).as_str());
        e.append("'");
        return BaseFields::Failed(e);
    }
    BaseFields::Fields(fields)
}

/// The command that runs the setup script, telling it the program's path.
pub fn base_setup_command(self_path: &str) -> (r: String)
    ensures
        r@ == "./base_setup.sh -s "@ + self_path@ + " "@,
{
    concat3("./base_setup.sh -s ", self_path, " ")
}

/// Inserting pairs one after the other never gives more entries than pairs, and gives
/// exactly the pairs, keys all different, when it gives as many.
pub proof fn lemma_insert_all(pairs: Seq<(Seq<char>, Seq<char>)>)
    ensures
        insert_all(pairs).len() <= pairs.len(),
        unique_keys(insert_all(pairs)),
        insert_all(pairs).len() == pairs.len() ==> insert_all(pairs) == pairs,
    decreases pairs.len(),
{
    if pairs.len() > 0 {
        let front = pairs.drop_last();
        let last = pairs.last();
        lemma_insert_all(front);
        lemma_assoc_insert(insert_all(front), last.0, last.1);
        if insert_all(pairs).len() == pairs.len() {
            assert(!has_key(insert_all(front), last.0));
            assert(insert_all(front).len() == front.len());
            assert(pairs =~= front.push(last));
        }
    }
}

/// A setup output that is read successfully gives one field per line, in line order,
/// each line's key with its value, and no key twice.
pub proof fn lemma_base_fields_per_line(ok: bool, raw: Seq<char>)
    requires
        ok ==> lines_separated(raw),
        base_fields_of(ok, raw) is Fields,
    ensures
        ({
            let m = base_fields_of(ok, raw)->Fields_0;
            &&& m.len() == spec_lines(raw).len()
            &&& unique_keys(m)
            &&& forall|q: int| 0 <= q < m.len() ==> Some(#[trigger] m[q]) == key_value_of(spec_lines(raw)[q])
        }),
{
    let ls = spec_lines(raw);
    let pairs = line_pairs(ls);
    lemma_insert_all(pairs);
    let m = base_fields_of(ok, raw)->Fields_0;
    assert(m == insert_all(pairs));
    assert forall|q: int| 0 <= q < m.len() implies Some(#[trigger] m[q]) == key_value_of(spec_lines(raw)[q]) by {
        assert(key_value_of(ls[q]) is Some);
    }
}

} // verus!
