//! The descriptor grammar: the version that an addon's `.toc` file declares.
//!
//! A line declares the version when it holds optional white space, `##`,
//! optional white space, `Version:`, then at least one more character; the value is
//! the rest of the line with surrounding whitespace removed. Lines end at
//! `\n`, and the first declaring line wins.
use vstd::prelude::*;
use vstd::std_specs::iter::IteratorSpec;
use crate::text::{lemma_first_where, split_where};

verus! {

/// Unicode white space, as `char::is_whitespace` and the `\s` class define it.
pub open spec fn is_ws(c: char) -> bool {
    c == ' ' || c == '\t' || c == '\n' || c == '\r' || c == '\u{0B}' || c == '\u{0C}'
        || c == '\u{85}' || c == '\u{A0}' || c == '\u{1680}'
        || ('\u{2000}' <= c && c <= '\u{200A}')
        || c == '\u{2028}' || c == '\u{2029}' || c == '\u{202F}' || c == '\u{205F}'
        || c == '\u{3000}'
}

/// Tells white space apart, as `is_ws` defines it.
pub fn is_ws_char(c: char) -> (r: bool)
    ensures
        r == is_ws(c),
{
    c == ' ' || c == '\t' || c == '\n' || c == '\r' || c == '\u{0B}' || c == '\u{0C}'
        || c == '\u{85}' || c == '\u{A0}' || c == '\u{1680}'
        || ('\u{2000}' <= c && c <= '\u{200A}')
        || c == '\u{2028}' || c == '\u{2029}' || c == '\u{202F}' || c == '\u{205F}'
        || c == '\u{3000}'
}

/// Number of white-space characters that `s` starts with.
pub open spec fn lead(s: Seq<char>) -> nat
    decreases s.len(),
{
    if s.len() > 0 && is_ws(s[0]) {
        1 + lead(s.drop_first())
    } else {
        0
    }
}

/// Number of white-space characters that `s` ends with.
pub open spec fn trail(s: Seq<char>) -> nat
    decreases s.len(),
{
    if s.len() > 0 && is_ws(s.last()) {
        1 + trail(s.drop_last())
    } else {
        0
    }
}

/// `s` without leading and trailing white space.
pub open spec fn trim(s: Seq<char>) -> Seq<char> {
    let t = s.skip(lead(s) as int);
    t.take(t.len() - trail(t))
}

/// The key that a declaring line carries after `##` and white space.
pub open spec fn version_key() -> Seq<char> {
    seq!['V', 'e', 'r', 's', 'i', 'o', 'n', ':']
}

/// The version that one line declares, if it declares one.
pub open spec fn line_value(line: Seq<char>) -> Option<Seq<char>> {
    unindented_value(line.skip(lead(line) as int))
}

/// The version that a line without leading white space declares.
pub open spec fn unindented_value(line: Seq<char>) -> Option<Seq<char>> {
    if line.len() >= 2 && line[0] == '#' && line[1] == '#' {
        let r = line.skip(2);
        let r2 = r.skip(lead(r) as int);
        if r2.len() > 8 && r2.take(8) == version_key() {
            Some(trim(r2.skip(8)))
        } else {
            None
        }
    } else {
        None
    }
}

/// The line separator.
pub open spec fn newline() -> spec_fn(char) -> bool {
    |c: char| c == '\n'
}

/// The lines of `s`, split at each `\n`.
pub open spec fn lines(s: Seq<char>) -> Seq<Seq<char>> {
    split_where(s, newline())
}

/// The value of the first declaring line of `ls`.
pub open spec fn first_value(ls: Seq<Seq<char>>) -> Option<Seq<char>>
    decreases ls.len(),
{
    if ls.len() == 0 {
        None
    } else if line_value(ls[0]).is_some() {
        line_value(ls[0])
    } else {
        first_value(ls.drop_first())
    }
}

/// The version that the descriptor text `s` declares.
pub open spec fn toc_version(s: Seq<char>) -> Option<Seq<char>> {
    first_value(lines(s))
}


proof fn lemma_lead(s: Seq<char>, k: int)
    requires
        0 <= k <= s.len(),
        forall|i: int| 0 <= i < k ==> is_ws(s[i]),
        k == s.len() || !is_ws(s[k]),
    ensures
        lead(s) == k,
    decreases k,
{
    if k > 0 {
        let t = s.drop_first();
        assert forall|i: int| 0 <= i < k - 1 implies is_ws(t[i]) by {
            assert(t[i] == s[i + 1]);
        }
        if k < s.len() {
            assert(t[k - 1] == s[k]);
        }
        lemma_lead(t, k - 1);
    }
}

proof fn lemma_trail(s: Seq<char>, k: int)
    requires
        0 <= k <= s.len(),
        forall|i: int| s.len() - k <= i < s.len() ==> is_ws(s[i]),
        k == s.len() || !is_ws(s[s.len() - k - 1]),
    ensures
        trail(s) == k,
    decreases k,
{
    if k > 0 {
        let t = s.drop_last();
        assert(is_ws(s.last()));
        assert forall|i: int| t.len() - (k - 1) <= i < t.len() implies is_ws(t[i]) by {
            assert(t[i] == s[i]);
        }
        if k < s.len() {
            assert(t[t.len() - (k - 1) - 1] == s[s.len() - k - 1]);
        }
        lemma_trail(t, k - 1);
    }
}

/// The characters of `s`, in order.
pub fn chars_of(s: &str) -> (r: Vec<char>)
    ensures
        r@ == s@,
{
    broadcast use vstd::string::axiom_spec_iter, vstd::string::next_postcondition;

    let mut it = s.chars();
    let mut v: Vec<char> = Vec::new();
    loop
        invariant
            it.obeys_prophetic_iter_laws(),
            v@.len() <= s@.len(),
            it.remaining() == s@.skip(v@.len() as int),
            v@ == s@.take(v@.len() as int),
        ensures
            v@ == s@,
        decreases s@.len() - v@.len(),
    {
        match it.next() {
            Some(c) => {
                proof {
                    assert(s@.skip(v@.len() as int)[0] == s@[v@.len() as int]);
                    assert(s@.skip(v@.len() as int).drop_first() =~= s@.skip(v@.len() as int + 1));
                }
                v.push(c);
                assert(v@ =~= s@.take(v@.len() as int));
            },
            None => {
                assert(v@ =~= s@);
                break;
            },
        }
    }
    v
}

/// Where the version that the line `v[a..b]` declares lies in `v`.
pub fn line_value_range(v: &Vec<char>, a: usize, b: usize) -> (r: Option<(usize, usize)>)
    requires
        a <= b <= v@.len(),
    ensures
        match r {
            None => line_value(v@.subrange(a as int, b as int)).is_none(),
            Some((x, y)) => a <= x <= y <= b && line_value(v@.subrange(a as int, b as int)) == Some(
                v@.subrange(x as int, y as int),
            ),
        },
{
    let ghost line = v@.subrange(a as int, b as int);
    let mut q: usize = a;
    while q < b && is_ws_char(v[q])
        invariant
            a <= q <= b,
            b <= v@.len(),
            forall|i: int| a <= i < q ==> is_ws(v@[i]),
        decreases b - q,
    {
        q = q + 1;
    }
    proof {
        assert forall|i: int| 0 <= i < q - a implies is_ws(line[i]) by {
            assert(line[i] == v@[a + i]);
        }
        if q < b {
            assert(line[q - a] == v@[q as int]);
        }
        lemma_lead(line, q - a);
        assert(line.skip(lead(line) as int) =~= v@.subrange(q as int, b as int));
    }
    unindented_value_range(v, q, b)
}

fn unindented_value_range(v: &Vec<char>, a: usize, b: usize) -> (r: Option<(usize, usize)>)
    requires
        a <= b <= v@.len(),
    ensures
        match r {
            None => unindented_value(v@.subrange(a as int, b as int)).is_none(),
            Some((x, y)) => a <= x <= y <= b && unindented_value(v@.subrange(a as int, b as int)) == Some(
                v@.subrange(x as int, y as int),
            ),
        },
{
    let ghost line = v@.subrange(a as int, b as int);
    if b - a < 2 || v[a] != '#' || v[a + 1] != '#' {
        return None;
    }
    let ghost r = line.skip(2);
    let mut p: usize = a + 2;
    while p < b && is_ws_char(v[p])
        invariant
            a + 2 <= p <= b,
            b <= v@.len(),
            forall|i: int| a + 2 <= i < p ==> is_ws(v@[i]),
        decreases b - p,
    {
        p = p + 1;
    }
    proof {
        assert forall|i: int| 0 <= i < p - (a + 2) implies is_ws(r[i]) by {
            assert(r[i] == v@[a + 2 + i]);
        }
        if p < b {
            assert(r[p - (a + 2)] == v@[p as int]);
        }
        lemma_lead(r, p - (a + 2));
    }
    let ghost r2 = r.skip(lead(r) as int);
    assert(r2 =~= v@.subrange(p as int, b as int));
    if b - p <= 8 {
        return None;
    }
    let key_ok = v[p] == 'V' && v[p + 1] == 'e' && v[p + 2] == 'r' && v[p + 3] == 's'
        && v[p + 4] == 'i' && v[p + 5] == 'o' && v[p + 6] == 'n' && v[p + 7] == ':';
    proof {
        if key_ok {
            assert(r2.take(8) =~= version_key());
        } else {
            assert(r2.take(8) != version_key()) by {
                let k = version_key();
                assert(k[0] == 'V' && k[1] == 'e' && k[2] == 'r' && k[3] == 's');
                assert(k[4] == 'i' && k[5] == 'o' && k[6] == 'n' && k[7] == ':');
                assert(r2.take(8)[0] == v@[p as int]);
                assert(r2.take(8)[1] == v@[p + 1]);
                assert(r2.take(8)[2] == v@[p + 2]);
                assert(r2.take(8)[3] == v@[p + 3]);
                assert(r2.take(8)[4] == v@[p + 4]);
                assert(r2.take(8)[5] == v@[p + 5]);
                assert(r2.take(8)[6] == v@[p + 6]);
                assert(r2.take(8)[7] == v@[p + 7]);
            }
        }
    }
    if !key_ok {
        return None;
    }
    let ghost rest = r2.skip(8);
    assert(rest =~= v@.subrange(p + 8, b as int));
    let mut x: usize = p + 8;
    while x < b && is_ws_char(v[x])
        invariant
            p + 8 <= x <= b,
            b <= v@.len(),
            forall|i: int| p + 8 <= i < x ==> is_ws(v@[i]),
        decreases b - x,
    {
        x = x + 1;
    }
    proof {
        assert forall|i: int| 0 <= i < x - (p + 8) implies is_ws(rest[i]) by {
            assert(rest[i] == v@[p + 8 + i]);
        }
        if x < b {
            assert(rest[x - (p + 8)] == v@[x as int]);
        }
        lemma_lead(rest, x - (p + 8));
    }
    let ghost t = rest.skip(lead(rest) as int);
    assert(t =~= v@.subrange(x as int, b as int));
    let mut y: usize = b;
    while y > x && is_ws_char(v[y - 1])
        invariant
            x <= y <= b,
            b <= v@.len(),
            forall|i: int| y <= i < b ==> is_ws(v@[i]),
        decreases y,
    {
        y = y - 1;
    }
    proof {
        let k = b - y;
        assert forall|i: int| t.len() - k <= i < t.len() implies is_ws(t[i]) by {
            assert(t[i] == v@[x + i]);
        }
        if k < t.len() {
            assert(t[t.len() - k - 1] == v@[y - 1]);
        }
        lemma_trail(t, k);
        assert(trim(rest) =~= v@.subrange(x as int, y as int));
    }
    Some((x, y))
}

/// The version that the descriptor text `content` declares, if any line
/// declares one.
pub fn parse_toc_version(content: &str) -> (r: Option<String>)
    ensures
        match r {
            Some(v) => toc_version(content@) == Some(v@),
            None => toc_version(content@).is_none(),
        },
{
    let v = chars_of(content);
    let ghost s = v@;
    let n = v.len();
    let mut pos: usize = 0;
    assert(s.skip(0) =~= s);
    loop
        invariant
            n == s.len(),
            s == v@,
            s == content@,
            pos <= n,
            toc_version(s) == first_value(lines(s.skip(pos as int))),
        decreases n - pos,
    {
        let mut e: usize = pos;
        while e < n && v[e] != '\n'
            invariant
                pos <= e <= n,
                n == v@.len(),
                forall|i: int| pos <= i < e ==> v@[i] != '\n',
            decreases n - e,
        {
            e = e + 1;
        }
        let ghost rest = s.skip(pos as int);
        let ghost line = s.subrange(pos as int, e as int);
        proof {
            assert forall|i: int| 0 <= i < e - pos implies !newline()(#[trigger] rest[i]) by {
                assert(rest[i] == s[pos + i]);
            }
            if e < n {
                assert(rest[e - pos] == s[e as int]);
            }
            lemma_first_where(rest, newline(), e - pos);
            assert(rest.take(e - pos) =~= s.subrange(pos as int, e as int));
            if e < n {
                let later = lines(s.skip(e + 1));
                assert(rest.skip(e - pos + 1) =~= s.skip(e + 1));
                assert(lines(rest) == seq![line] + later);
                assert((seq![line] + later).drop_first() =~= later);
                assert((seq![line] + later)[0] == line);
            } else {
                assert(rest =~= line);
                assert(lines(rest) == seq![line]);
                assert(seq![line].drop_first().len() == 0);
            }
        }
        let found = line_value_range(&v, pos, e);
        match found {
            Some((x, y)) => {
                assert(lines(rest)[0] == line);
                assert(first_value(lines(rest)) == line_value(line));
                let out = content.substring_char(x, y);
                return Some(String::from_str(out));
            },
            None => {
                if e == n {
                    assert(first_value(seq![line].drop_first()).is_none());
                    assert(first_value(lines(rest)).is_none());
                    return None;
                }
                pos = e + 1;
            },
        }
    }
}

/// Every character of `s` is white space.
pub open spec fn all_ws(s: Seq<char>) -> bool {
    forall|i: int| 0 <= i < s.len() ==> is_ws(s[i])
}

proof fn lemma_first_value_at(ls: Seq<Seq<char>>, k: int)
    requires
        0 <= k < ls.len(),
        line_value(ls[k]).is_some(),
        forall|j: int| 0 <= j < k ==> line_value(ls[j]).is_none(),
    ensures
        first_value(ls) == line_value(ls[k]),
    decreases k,
{
    if k > 0 {
        let t = ls.drop_first();
        assert forall|j: int| 0 <= j < k - 1 implies line_value(t[j]).is_none() by {
            assert(t[j] == ls[j + 1]);
        }
        assert(t[k - 1] == ls[k]);
        lemma_first_value_at(t, k - 1);
    }
}

/// The declaring line of white space `w`, `##`, white space `a`, `Version:`,
/// white space `b`, the value `v`, white space `c` declares exactly `v`.
pub proof fn lemma_line_value_of(w: Seq<char>, a: Seq<char>, b: Seq<char>, v: Seq<char>, c: Seq<char>)
    requires
        all_ws(w),
        all_ws(a),
        all_ws(b),
        all_ws(c),
        v.len() > 0,
        !is_ws(v[0]),
        !is_ws(v.last()),
    ensures
        line_value(w + seq!['#', '#'] + a + version_key() + b + v + c) == Some(v),
{
    let full = w + seq!['#', '#'] + a + version_key() + b + v + c;
    let line = seq!['#', '#'] + a + version_key() + b + v + c;
    assert(full =~= w + line);
    assert(full[w.len() as int] == '#');
    lemma_lead(full, w.len() as int);
    assert(full.skip(lead(full) as int) =~= line);
    lemma_unindented_value_of(a, b, v, c);
}

proof fn lemma_unindented_value_of(a: Seq<char>, b: Seq<char>, v: Seq<char>, c: Seq<char>)
    requires
        all_ws(a),
        all_ws(b),
        all_ws(c),
        v.len() > 0,
        !is_ws(v[0]),
        !is_ws(v.last()),
    ensures
        unindented_value(seq!['#', '#'] + a + version_key() + b + v + c) == Some(v),
{
    let line = seq!['#', '#'] + a + version_key() + b + v + c;
    let r = line.skip(2);
    assert(r =~= a + version_key() + b + v + c);
    assert(r[a.len() as int] == 'V');
    lemma_lead(r, a.len() as int);
    let r2 = r.skip(lead(r) as int);
    assert(r2 =~= version_key() + (b + v + c));
    assert(r2.take(8) =~= version_key());
    let rest = r2.skip(8);
    assert(rest =~= b + v + c);
    assert(rest[b.len() as int] == v[0]);
    lemma_lead(rest, b.len() as int);
    let t = rest.skip(lead(rest) as int);
    assert(t =~= v + c);
    assert(t[t.len() - c.len() - 1] == v.last());
    lemma_trail(t, c.len() as int);
    assert(t.take(t.len() - trail(t)) =~= v);
}

/// A descriptor whose line `k` reads, after any indentation, `##`, optional
/// white space, `Version:`, optional white space, the value `v` and optional
/// white space, and none of whose earlier lines declares a version, declares
/// `v`, whatever its other lines hold.
pub proof fn lemma_declared_version(
    s: Seq<char>,
    k: int,
    w: Seq<char>,
    a: Seq<char>,
    b: Seq<char>,
    v: Seq<char>,
    c: Seq<char>,
)
    requires
        0 <= k < lines(s).len(),
        lines(s)[k] == w + seq!['#', '#'] + a + version_key() + b + v + c,
        all_ws(w),
        all_ws(a),
        all_ws(b),
        all_ws(c),
        v.len() > 0,
        !is_ws(v[0]),
        !is_ws(v.last()),
        forall|j: int| 0 <= j < k ==> line_value(#[trigger] lines(s)[j]).is_none(),
    ensures
        toc_version(s) == Some(v),
{
    lemma_line_value_of(w, a, b, v, c);
    lemma_first_value_at(lines(s), k);
}

} // verus!
