//! Character-level text helpers with their mathematical specifications.

use vstd::prelude::*;

verus! {

broadcast use vstd::string::group_string_axioms;

/// `String::push` from std: appends one character at the end.
#[verifier::external_body]
fn string_push(s: &mut String, c: char)
    ensures
        final(s)@ == old(s)@.push(c),
{
    s.push(c);
}

/// The characters of `s`, in order.
pub fn chars_of(s: &str) -> (r: Vec<char>)
    ensures
        r@ == s@,
{
    let mut r: Vec<char> = Vec::new();
    for c in it: s.chars()
        invariant
            r@ == it.seq().take(it.index() as int),
            it.seq() == s@,
    {
        r.push(c);
        assert(it.seq().take(it.index() + 1) =~= it.seq().take(it.index() as int).push(c));
    }
    assert(s@.take(s@.len() as int) =~= s@);
    r
}

/// The string made of the characters of `v`.
pub fn string_of(v: &[char]) -> (r: String)
    ensures
        r@ == v@,
{
    let mut r = String::new();
    let n = v.len();
    let mut i: usize = 0;
    while i < n
        invariant
            n == v@.len(),
            i <= n,
            r@ == v@.take(i as int),
        decreases n - i,
    {
        string_push(&mut r, v[i]);
        assert(v@.take(i + 1) =~= v@.take(i as int).push(v@[i as int]));
        i = i + 1;
    }
    assert(v@.take(n as int) =~= v@);
    r
}

/// Whether two character sequences are equal.
pub fn chars_eq(a: &[char], b: &[char]) -> (r: bool)
    ensures
        r == (a@ == b@),
{
    if a.len() != b.len() {
        return false;
    }
    let n = a.len();
    let mut i: usize = 0;
    while i < n
        invariant
            n == a@.len(),
            n == b@.len(),
            i <= n,
            forall|k: int| 0 <= k < i ==> a@[k] == b@[k],
        decreases n - i,
    {
        if a[i] != b[i] {
            return false;
        }
        i = i + 1;
    }
    assert(a@ =~= b@);
    true
}

/// Whether two strings hold the same characters.
pub fn str_eq(a: &str, b: &str) -> (r: bool)
    ensures
        r == (a@ == b@),
{
    let x = chars_of(a);
    let y = chars_of(b);
    chars_eq(x.as_slice(), y.as_slice())
}

/// A copy of `s` as an owned string.
pub fn owned(s: &str) -> (r: String)
    ensures
        r@ == s@,
{
    String::from_str(s)
}

/// `a` followed by `b`.
pub fn cat(a: String, b: &str) -> (r: String)
    ensures
        r@ == a@ + b@,
{
    let mut r = a;
    r.append(b);
    r
}

/// The concatenation of `a` and `b`.
pub fn concat2(a: &str, b: &str) -> (r: String)
    ensures
        r@ == a@ + b@,
{
    let mut r = String::from_str(a);
    r.append(b);
    r
}

/// The concatenation of `a`, `b` and `c`.
pub fn concat3(a: &str, b: &str, c: &str) -> (r: String)
    ensures
        r@ == a@ + b@ + c@,
{
    let mut r = String::from_str(a);
    r.append(b);
    r.append(c);
    r
}

/// The first position at or after `from` where `c` occurs in `s`, or `s.len()` when
/// there is none.
pub open spec fn find_from(s: Seq<char>, c: char, from: int) -> int
    decreases s.len() - from,
{
    if from >= s.len() {
        s.len() as int
    } else if s[from] == c {
        from
    } else {
        find_from(s, c, from + 1)
    }
}

pub proof fn lemma_find_from(s: Seq<char>, c: char, from: int)
    requires
        0 <= from <= s.len(),
    ensures
        from <= find_from(s, c, from) <= s.len(),
        find_from(s, c, from) < s.len() ==> s[find_from(s, c, from)] == c,
        forall|k: int| from <= k < find_from(s, c, from) ==> s[k] != c,
    decreases s.len() - from,
{
    if from < s.len() && s[from] != c {
        lemma_find_from(s, c, from + 1);
    }
}

/// The position of the first `c` at or after `from` in `v`, or `v.len()`.
pub fn find_char_from(v: &[char], c: char, from: usize) -> (r: usize)
    requires
        from <= v@.len(),
    ensures
        r == find_from(v@, c, from as int),
{
    proof {
        lemma_find_from(v@, c, from as int);
    }
    let n = v.len();
    let mut i = from;
    while i < n
        invariant
            n == v@.len(),
            from <= i <= n,
            find_from(v@, c, i as int) == find_from(v@, c, from as int),
        decreases n - i,
    {
        if v[i] == c {
            return i;
        }
        i = i + 1;
    }
    i
}

/// `t` without one `'\r'` at its end, if it has one there.
pub open spec fn strip_cr(t: Seq<char>) -> Seq<char> {
    if t.len() > 0 && t.last() == '\r' {
        t.drop_last()
    } else {
        t
    }
}

/// The lines of `s` from position `start` on, as `str::lines` cuts them: at each `'\n'`,
/// dropping a `'\r'` just before it; a last line without `'\n'` is kept whole, and
/// nothing follows a final `'\n'`.
pub open spec fn lines_from(s: Seq<char>, start: int) -> Seq<Seq<char>>
    decreases s.len() - start,
{
    if start < 0 || start >= s.len() {
        Seq::empty()
    } else {
        let j = find_from(s, '\n', start);
        if j >= s.len() || j < start {
            seq![s.subrange(start, s.len() as int)]
        } else {
            seq![strip_cr(s.subrange(start, j))] + lines_from(s, j + 1)
        }
    }
}

/// The lines of `s` (see `lines_from`).
pub open spec fn spec_lines(s: Seq<char>) -> Seq<Seq<char>> {
    lines_from(s, 0)
}

/// The views of a sequence of strings.
pub open spec fn views(v: Seq<String>) -> Seq<Seq<char>> {
    v.map_values(|x: String| x@)
}

/// The lines of `s`, cut as `str::lines` cuts them.
pub fn lines(s: &str) -> (r: Vec<String>)
    ensures
        views(r@) == spec_lines(s@),
{
    let v = chars_of(s);
    let n = v.len();
    let mut out: Vec<String> = Vec::new();
    let mut start: usize = 0;
    while start < n
        invariant
            n == v@.len(),
            v@ == s@,
            start <= n,
            views(out@) + lines_from(v@, start as int) == lines_from(v@, 0),
        decreases n - start,
    {
        proof {
            lemma_find_from(v@, '\n', start as int);
        }
        let j = find_char_from(v.as_slice(), '\n', start);
        let ghost before = views(out@);
        if j >= n {
            let line = string_of(&v.as_slice()[start..n]);
            out.push(line);
            assert(views(out@) =~= before.push(v@.subrange(start as int, n as int)));
            assert(lines_from(v@, n as int) =~= Seq::<Seq<char>>::empty());
            assert(views(out@) + lines_from(v@, n as int) =~= before + lines_from(v@, start as int));
            start = n;
        } else {
            let mut end = j;
            if end > start && v[end - 1] == '\r' {
                end = end - 1;
            }
            let line = string_of(&v.as_slice()[start..end]);
            assert(line@ == strip_cr(v@.subrange(start as int, j as int)));
            out.push(line);
            assert(views(out@) =~= before.push(strip_cr(v@.subrange(start as int, j as int))));
            assert(views(out@) + lines_from(v@, j + 1) =~= before + lines_from(v@, start as int));
            start = j + 1;
        }
    }
    assert(lines_from(v@, start as int) =~= Seq::<Seq<char>>::empty());
    assert(views(out@) =~= views(out@) + lines_from(v@, start as int));
    out
}

/// The pieces of `s` from position `start` on, cut at every `c` as `str::split` cuts them:
/// empty pieces are kept, and there is always at least one piece.
pub open spec fn split_from(s: Seq<char>, c: char, start: int) -> Seq<Seq<char>>
    decreases s.len() - start,
{
    let j = find_from(s, c, start);
    if start < 0 || start > s.len() || j >= s.len() || j < start {
        seq![s.subrange(start, s.len() as int)]
    } else {
        seq![s.subrange(start, j)] + split_from(s, c, j + 1)
    }
}

/// The pieces of `s` cut at every `c` (see `split_from`).
pub open spec fn spec_split(s: Seq<char>, c: char) -> Seq<Seq<char>> {
    split_from(s, c, 0)
}

/// The pieces of `s` cut at every `c`, as `str::split` with a character cuts them.
pub fn split_char(s: &str, c: char) -> (r: Vec<String>)
    ensures
        views(r@) == spec_split(s@, c),
        r@.len() >= 1,
{
    let v = chars_of(s);
    let n = v.len();
    let mut out: Vec<String> = Vec::new();
    let mut start: usize = 0;
    loop
        invariant
            n == v@.len(),
            v@ == s@,
            start <= n,
            views(out@) + split_from(v@, c, start as int) == split_from(v@, c, 0),
        decreases n - start,
    {
        proof {
            lemma_find_from(v@, c, start as int);
        }
        let j = find_char_from(v.as_slice(), c, start);
        let ghost before = views(out@);
        if j >= n {
            let piece = string_of(&v.as_slice()[start..n]);
            out.push(piece);
            assert(views(out@) =~= before.push(v@.subrange(start as int, n as int)));
            assert(views(out@) =~= before + split_from(v@, c, start as int));
            return out;
        } else {
            let piece = string_of(&v.as_slice()[start..j]);
            out.push(piece);
            assert(views(out@) =~= before.push(v@.subrange(start as int, j as int)));
            assert(views(out@) + split_from(v@, c, j + 1) =~= before + split_from(v@, c, start as int));
            start = j + 1;
        }
    }
}

/// The pieces put back together with `c` between each two.
pub open spec fn join_with(parts: Seq<Seq<char>>, c: char) -> Seq<char>
    decreases parts.len(),
{
    if parts.len() == 0 {
        Seq::empty()
    } else if parts.len() == 1 {
        parts[0]
    } else {
        parts[0] + seq![c] + join_with(parts.skip(1), c)
    }
}

proof fn lemma_split_from_join(s: Seq<char>, c: char, start: int)
    requires
        0 <= start <= s.len(),
    ensures
        join_with(split_from(s, c, start), c) == s.subrange(start, s.len() as int),
    decreases s.len() - start,
{
    lemma_find_from(s, c, start);
    let j = find_from(s, c, start);
    if j < s.len() {
        lemma_split_from_join(s, c, j + 1);
        let rest = split_from(s, c, j + 1);
        let all = split_from(s, c, start);
        assert(all == seq![s.subrange(start, j)] + rest);
        assert(rest.len() >= 1);
        assert(all.skip(1) =~= rest);
        assert(all[0] == s.subrange(start, j));
        assert(s.subrange(start, j) + seq![c] + s.subrange(j + 1, s.len() as int) =~= s.subrange(start, s.len() as int));
    }
}

/// Cutting a text at every `c` loses nothing: the pieces put back together with `c`
/// give the text again.
pub proof fn lemma_split_then_join(s: Seq<char>, c: char)
    ensures
        join_with(spec_split(s, c), c) == s,
{
    lemma_split_from_join(s, c, 0);
    assert(s.subrange(0, s.len() as int) =~= s);
}

/// Whether `p` occurs in `s` at position `i`.
pub open spec fn occurs_at(s: Seq<char>, p: Seq<char>, i: int) -> bool {
    0 <= i && i + p.len() <= s.len() && s.subrange(i, i + p.len()) == p
}

/// Whether `p` occurs somewhere in `s`.
pub open spec fn contains_seq(s: Seq<char>, p: Seq<char>) -> bool {
    exists|i: int| occurs_at(s, p, i)
}

/// Whether `p` occurs at position `i` of `s`.
fn matches_at(s: &[char], p: &[char], i: usize) -> (r: bool)
    ensures
        r == occurs_at(s@, p@, i as int),
{
    if i > s.len() || p.len() > s.len() - i {
        return false;
    }
    let m = p.len();
    let mut k: usize = 0;
    while k < m
        invariant
            m == p@.len(),
            i + m <= s@.len(),
            s@.len() == s.len(),
            k <= m,
            forall|t: int| 0 <= t < k ==> s@[i + t] == p@[t],
        decreases m - k,
    {
        if s[i + k] != p[k] {
            assert(s@.subrange(i as int, i + m)[k as int] != p@[k as int]);
            return false;
        }
        k = k + 1;
    }
    assert(s@.subrange(i as int, i + m) =~= p@);
    true
}

/// Whether `p` occurs somewhere in `s`, as `str::contains` with a string pattern.
pub fn contains_str(s: &str, p: &str) -> (r: bool)
    ensures
        r == contains_seq(s@, p@),
{
    let sv = chars_of(s);
    let pv = chars_of(p);
    let n = sv.len();
    let mut i: usize = 0;
    while i <= n
        invariant
            n == sv@.len(),
            sv@ == s@,
            pv@ == p@,
            forall|t: int| 0 <= t < i ==> !occurs_at(s@, p@, t),
        decreases n + 1 - i,
    {
        if matches_at(sv.as_slice(), pv.as_slice(), i) {
            return true;
        }
        if i == n {
            assert forall|t: int| !occurs_at(s@, p@, t) by {
                if 0 <= t && t + p@.len() <= s@.len() {
                    assert(t <= n);
                }
            }
            return false;
        }
        i = i + 1;
    }
    false
}

/// `s` with every `from` replaced by `to`.
pub open spec fn replace_char(s: Seq<char>, from: char, to: char) -> Seq<char> {
    s.map_values(|x: char| if x == from { to } else { x })
}

/// `s` with every `from` replaced by `to`, as `str::replace` with one-character patterns.
pub fn replace_char_str(s: &str, from: char, to: char) -> (r: String)
    ensures
        r@ == replace_char(s@, from, to),
{
    let mut v = chars_of(s);
    let n = v.len();
    let mut i: usize = 0;
    while i < n
        invariant
            n == v@.len(),
            n == s@.len(),
            i <= n,
            forall|k: int| 0 <= k < i ==> v@[k] == (if s@[k] == from { to } else { s@[k] }),
            forall|k: int| i <= k < n ==> v@[k] == s@[k],
        decreases n - i,
    {
        if v[i] == from {
            v.set(i, to);
        }
        i = i + 1;
    }
    assert(v@ =~= replace_char(s@, from, to));
    string_of(v.as_slice())
}

/// `s` without any `c`.
pub open spec fn remove_char(s: Seq<char>, c: char) -> Seq<char> {
    s.filter(|x: char| x != c)
}

/// `s` without any `c`, as `str::replace` of `c` by the empty string.
pub fn remove_char_str(s: &str, c: char) -> (r: String)
    ensures
        r@ == remove_char(s@, c),
{
    let v = chars_of(s);
    let n = v.len();
    let mut out: Vec<char> = Vec::new();
    let mut i: usize = 0;
    while i < n
        invariant
            n == v@.len(),
            v@ == s@,
            i <= n,
            out@ == remove_char(v@.take(i as int), c),
        decreases n - i,
    {
        assert(v@.take(i + 1).drop_last() =~= v@.take(i as int));
        reveal_with_fuel(Seq::filter, 1);
        if v[i] != c {
            out.push(v[i]);
        }
        i = i + 1;
    }
    assert(v@.take(n as int) =~= v@);
    string_of(out.as_slice())
}

/// The position of the last `c` in `s`, if any.
pub open spec fn last_index_of(s: Seq<char>, c: char) -> Option<int> {
    if exists|i: int| 0 <= i < s.len() && s[i] == c {
        Some(choose|i: int| 0 <= i < s.len() && s[i] == c && forall|k: int| i < k < s.len() ==> s[k] != c)
    } else {
        None
    }
}

/// The position of the last `c` in `v`, as `str::rfind` counts it in characters.
pub fn rfind_char(v: &[char], c: char) -> (r: Option<usize>)
    ensures
        match r { Some(i) => last_index_of(v@, c) == Some(i as int), None => last_index_of(v@, c) is None },
        r matches Some(i) ==> i < v@.len() && v@[i as int] == c
            && forall|k: int| i < k < v@.len() ==> v@[k] != c,
        r is None ==> forall|k: int| 0 <= k < v@.len() ==> v@[k] != c,
{
    let mut i = v.len();
    while i > 0
        invariant
            i <= v@.len(),
            forall|k: int| i <= k < v@.len() ==> v@[k] != c,
        decreases i,
    {
        if v[i - 1] == c {
            let ghost j = (i - 1) as int;
            assert(0 <= j < v@.len() && v@[j] == c && forall|k: int| j < k < v@.len() ==> v@[k] != c);
            let ghost w = choose|w: int| 0 <= w < v@.len() && v@[w] == c && forall|k: int| w < k < v@.len() ==> v@[k] != c;
            assert(w == j) by {
                if w < j {
                    assert(v@[j] != c);
                } else if w > j {
                    assert(v@[w] != c);
                }
            }
            return Some(i - 1);
        }
        i = i - 1;
    }
    None
}

} // verus!
