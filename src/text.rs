//! Text helpers over character sequences: undoing escaped markup characters, trimming
//! whitespace, splitting on commas and comparing ASCII letters without regard to case.
use vstd::prelude::*;

verus! {

/// The character that the escape `\u00` followed by `a` and `b` stands for, for the six
/// markup characters that the feed escapes.
pub open spec fn decoded(a: char, b: char) -> Option<char> {
    if a == '3' && b == 'c' {
        Some('<')
    } else if a == '3' && b == 'e' {
        Some('>')
    } else if a == '3' && b == 'd' {
        Some('=')
    } else if a == '2' && b == '6' {
        Some('&')
    } else if a == '2' && b == '7' {
        Some('\'')
    } else if a == '2' && b == '2' {
        Some('"')
    } else {
        None
    }
}

/// The character that the six characters of `s` from `i` on stand for, if they are one
/// of the six recognised escapes.
pub open spec fn escape_at(s: Seq<char>, i: int) -> Option<char> {
    if 0 <= i && i + 6 <= s.len() && s[i] == '\\' && s[i + 1] == 'u' && s[i + 2] == '0' && s[i
        + 3] == '0' {
        decoded(s[i + 4], s[i + 5])
    } else {
        None
    }
}

/// `s` with each recognised escape replaced by its character, read left to right.
pub open spec fn unescape(s: Seq<char>) -> Seq<char>
    decreases s.len(),
{
    if s.len() == 0 {
        s
    } else if escape_at(s, 0) is Some {
        seq![escape_at(s, 0)->0] + unescape(s.subrange(6, s.len() as int))
    } else {
        seq![s[0]] + unescape(s.subrange(1, s.len() as int))
    }
}

/// Neither a backslash nor a character that an escape stands for.
pub open spec fn plain_char(c: char) -> bool {
    c != '\\' && c != '<' && c != '>' && c != '=' && c != '&' && c != '\'' && c != '"'
}

/// The characters of `s`, in order.
pub(crate) fn chars_of(s: &str) -> (r: Vec<char>)
    ensures
        r@ == s@,
{
    broadcast use vstd::string::group_string_axioms;

    let mut r: Vec<char> = Vec::new();
    for c in it: s.chars()
        invariant
            it.seq() == s@,
            r@ == s@.take(it.index() as int),
    {
        proof {
            assert(r@.push(c) =~= s@.take(it.index() + 1));
        }
        r.push(c);
    }
    proof {
        assert(r@ =~= s@);
    }
    r
}

/// Relies on `String`'s `FromIterator<char>`: the string of the characters of `v`.
#[verifier::external_body]
pub(crate) fn string_of(v: &[char]) -> (r: String)
    ensures
        r@ == v@,
{
    v.iter().collect()
}

fn escape_char_at(v: &Vec<char>, i: usize) -> (r: Option<char>)
    requires
        i <= v@.len(),
    ensures
        r == escape_at(v@, i as int),
{
    if v.len() - i >= 6 && v[i] == '\\' && v[i + 1] == 'u' && v[i + 2] == '0' && v[i + 3] == '0' {
        let a = v[i + 4];
        let b = v[i + 5];
        if a == '3' && b == 'c' {
            Some('<')
        } else if a == '3' && b == 'e' {
            Some('>')
        } else if a == '3' && b == 'd' {
            Some('=')
        } else if a == '2' && b == '6' {
            Some('&')
        } else if a == '2' && b == '7' {
            Some('\'')
        } else if a == '2' && b == '2' {
            Some('"')
        } else {
            None
        }
    } else {
        None
    }
}

proof fn lemma_escape_at_suffix(s: Seq<char>, i: int)
    requires
        0 <= i <= s.len(),
    ensures
        escape_at(s.subrange(i, s.len() as int), 0) == escape_at(s, i),
{
}

/// Replaces the escapes `\u003c`, `\u003e`, `\u003d`, `\u0026`, `\u0027` and `\u0022` by
/// `<`, `>`, `=`, `&`, `'` and `"`; everything else, other escapes included, is kept.
pub fn unescape_html_unicode(s: &str) -> (r: String)
    ensures
        r@ == unescape(s@),
{
    let v = chars_of(s);
    let mut out: Vec<char> = Vec::new();
    let mut i: usize = 0;
    proof {
        assert(v@.subrange(0, v@.len() as int) =~= v@);
        assert(out@ + unescape(v@) =~= unescape(v@));
    }
    while i < v.len()
        invariant
            v@ == s@,
            i <= v@.len(),
            unescape(v@) == out@ + unescape(v@.subrange(i as int, v@.len() as int)),
        decreases v@.len() - i,
    {
        let rest = Ghost(v@.subrange(i as int, v@.len() as int));
        proof {
            lemma_escape_at_suffix(v@, i as int);
        }
        match escape_char_at(&v, i) {
            Some(c) => {
                proof {
                    assert(rest@.subrange(6, rest@.len() as int) =~= v@.subrange(
                        i + 6,
                        v@.len() as int,
                    ));
                    assert(out@.push(c) + unescape(v@.subrange(i + 6, v@.len() as int)) =~= out@
                        + unescape(rest@));
                }
                out.push(c);
                i = i + 6;
            },
            None => {
                let c = v[i];
                proof {
                    assert(rest@.subrange(1, rest@.len() as int) =~= v@.subrange(
                        i + 1,
                        v@.len() as int,
                    ));
                    assert(out@.push(c) + unescape(v@.subrange(i + 1, v@.len() as int)) =~= out@
                        + unescape(rest@));
                }
                out.push(c);
                i = i + 1;
            },
        }
    }
    proof {
        assert(v@.subrange(i as int, v@.len() as int) =~= Seq::<char>::empty());
        assert(out@ + Seq::<char>::empty() =~= out@);
    }
    string_of(out.as_slice())
}

/// Text without a backslash has no escape in it and comes back unchanged.
pub proof fn lemma_unescape_keeps_plain_text(s: Seq<char>)
    requires
        forall|j: int| 0 <= j < s.len() ==> s[j] != '\\',
    ensures
        unescape(s) == s,
    decreases s.len(),
{
    if s.len() > 0 {
        let t = s.subrange(1, s.len() as int);
        lemma_unescape_keeps_plain_text(t);
        assert(seq![s[0]] + t =~= s);
    }
}

/// When the result of `unescape` starts with characters that neither an escape nor a
/// backslash can produce, the source starts with those very characters.
proof fn lemma_plain_prefix_comes_from_source(x: Seq<char>, pat: Seq<char>)
    requires
        forall|j: int| 0 <= j < pat.len() ==> plain_char(#[trigger] pat[j]),
        unescape(x).len() >= pat.len(),
        unescape(x).subrange(0, pat.len() as int) == pat,
    ensures
        x.len() >= pat.len(),
        x.subrange(0, pat.len() as int) == pat,
    decreases pat.len(),
{
    if pat.len() > 0 {
        assert(unescape(x)[0] == pat[0]);
        assert(plain_char(pat[0]));
        let x1 = x.subrange(1, x.len() as int);
        let p1 = pat.subrange(1, pat.len() as int);
        assert(escape_at(x, 0) is None);
        assert(unescape(x).subrange(1, unescape(x).len() as int) =~= unescape(x1));
        assert(unescape(x1).subrange(0, p1.len() as int) =~= p1);
        assert forall|j: int| 0 <= j < p1.len() implies plain_char(#[trigger] p1[j]) by {
            assert(p1[j] == pat[j + 1]);
        }
        lemma_plain_prefix_comes_from_source(x1, p1);
        assert(unescape(x) == seq![x[0]] + unescape(x1));
        assert forall|j: int| 0 <= j < pat.len() implies x[j] == pat[j] by {
            if j > 0 {
                assert(x1.subrange(0, p1.len() as int)[j - 1] == p1[j - 1]);
            }
        }
        assert(x.subrange(0, pat.len() as int) =~= pat);
    }
}

/// Undoing the escapes a second time changes nothing.
pub proof fn lemma_unescape_idempotent(s: Seq<char>)
    ensures
        unescape(unescape(s)) == unescape(s),
    decreases s.len(),
{
    if s.len() > 0 {
        let t = unescape(s);
        if escape_at(s, 0) is Some {
            let u = unescape(s.subrange(6, s.len() as int));
            lemma_unescape_idempotent(s.subrange(6, s.len() as int));
            assert(t[0] != '\\');
            assert(t.subrange(1, t.len() as int) =~= u);
        } else {
            let s1 = s.subrange(1, s.len() as int);
            let u = unescape(s1);
            lemma_unescape_idempotent(s1);
            assert(t.subrange(1, t.len() as int) =~= u);
            if escape_at(t, 0) is Some {
                let pat = t.subrange(1, 6);
                assert(u.subrange(0, 5) =~= pat);
                assert forall|j: int| 0 <= j < pat.len() implies plain_char(#[trigger] pat[j]) by {
                }
                lemma_plain_prefix_comes_from_source(s1, pat);
                assert(s[1] == pat[0] && s[2] == pat[1] && s[3] == pat[2] && s[4] == pat[3] && s[5]
                    == pat[4]);
                assert(t[0] == s[0]);
                assert(false);
            }
        }
    }
}

/// The characters with the Unicode `White_Space` property.
pub open spec fn is_space(c: char) -> bool {
    let u = c as u32;
    (0x9 <= u <= 0xd) || u == 0x20 || u == 0x85 || u == 0xa0 || u == 0x1680 || (0x2000 <= u
        <= 0x200a) || u == 0x2028 || u == 0x2029 || u == 0x202f || u == 0x205f || u == 0x3000
}

pub open spec fn trim_start(s: Seq<char>) -> Seq<char>
    decreases s.len(),
{
    if s.len() > 0 && is_space(s[0]) {
        trim_start(s.subrange(1, s.len() as int))
    } else {
        s
    }
}

pub open spec fn trim_end(s: Seq<char>) -> Seq<char>
    decreases s.len(),
{
    if s.len() > 0 && is_space(s.last()) {
        trim_end(s.drop_last())
    } else {
        s
    }
}

/// `s` without leading and trailing whitespace.
pub open spec fn trim(s: Seq<char>) -> Seq<char> {
    trim_end(trim_start(s))
}

fn is_space_char(c: char) -> (r: bool)
    ensures
        r == is_space(c),
{
    let u = c as u32;
    (0x9 <= u && u <= 0xd) || u == 0x20 || u == 0x85 || u == 0xa0 || u == 0x1680 || (0x2000 <= u
        && u <= 0x200a) || u == 0x2028 || u == 0x2029 || u == 0x202f || u == 0x205f || u == 0x3000
}

/// The characters of `v` from `from` up to `to`.
fn copy_range(v: &[char], from: usize, to: usize) -> (r: Vec<char>)
    requires
        from <= to <= v@.len(),
    ensures
        r@ == v@.subrange(from as int, to as int),
{
    let mut r: Vec<char> = Vec::new();
    let mut i: usize = from;
    while i < to
        invariant
            from <= i <= to <= v@.len(),
            r@ == v@.subrange(from as int, i as int),
        decreases to - i,
    {
        r.push(v[i]);
        proof {
            assert(r@ =~= v@.subrange(from as int, i + 1));
        }
        i = i + 1;
    }
    r
}

/// `v` without leading and trailing whitespace.
pub fn trim_chars(v: &[char]) -> (r: Vec<char>)
    ensures
        r@ == trim(v@),
{
    let n = v.len();
    let mut a: usize = 0;
    proof {
        assert(v@.subrange(0, n as int) =~= v@);
    }
    while a < n && is_space_char(v[a])
        invariant
            a <= n == v@.len(),
            trim_start(v@) == trim_start(v@.subrange(a as int, n as int)),
        decreases n - a,
    {
        proof {
            let w = v@.subrange(a as int, n as int);
            assert(w.subrange(1, w.len() as int) =~= v@.subrange(a + 1, n as int));
        }
        a = a + 1;
    }
    let mut b: usize = n;
    while b > a && is_space_char(v[b - 1])
        invariant
            a <= b <= n == v@.len(),
            trim_start(v@) == v@.subrange(a as int, n as int),
            trim(v@) == trim_end(v@.subrange(a as int, b as int)),
        decreases b - a,
    {
        proof {
            let w = v@.subrange(a as int, b as int);
            assert(w.drop_last() =~= v@.subrange(a as int, b - 1));
        }
        b = b - 1;
    }
    copy_range(v, a, b)
}

/// The pieces of `s` between commas, as `str::split(',')` gives them: one more piece
/// than there are commas.
pub open spec fn split_commas(s: Seq<char>) -> Seq<Seq<char>>
    decreases s.len(),
{
    if s.len() == 0 {
        seq![Seq::empty()]
    } else {
        let prev = split_commas(s.drop_last());
        if s.last() == ',' {
            prev.push(Seq::empty())
        } else {
            prev.update(prev.len() - 1, prev.last().push(s.last()))
        }
    }
}

/// The pieces of `s` between commas, each trimmed.
pub open spec fn split_trimmed(s: Seq<char>) -> Seq<Seq<char>> {
    split_commas(s).map_values(|p: Seq<char>| trim(p))
}

/// The views of a vector of strings.
pub open spec fn strings_view(v: Seq<String>) -> Seq<Seq<char>> {
    v.map_values(|x: String| x@)
}

/// The pieces of `v` between commas, each without surrounding whitespace.
pub fn split_commas_trimmed(v: &[char]) -> (r: Vec<String>)
    ensures
        strings_view(r@) == split_trimmed(v@),
{
    let mut pieces: Vec<Vec<char>> = Vec::new();
    let mut cur: Vec<char> = Vec::new();
    let mut i: usize = 0;
    while i < v.len()
        invariant
            i <= v@.len(),
            split_commas(v@.subrange(0, i as int)) == pieces@.map_values(|p: Vec<char>| p@).push(
                cur@,
            ),
        decreases v@.len() - i,
    {
        let c = v[i];
        proof {
            assert(v@.subrange(0, i + 1).drop_last() =~= v@.subrange(0, i as int));
        }
        if c == ',' {
            let done = cur;
            pieces.push(done);
            cur = Vec::new();
            proof {
                assert(split_commas(v@.subrange(0, i + 1)) =~= pieces@.map_values(
                    |p: Vec<char>| p@,
                ).push(cur@));
            }
        } else {
            cur.push(c);
            proof {
                assert(split_commas(v@.subrange(0, i + 1)) =~= pieces@.map_values(
                    |p: Vec<char>| p@,
                ).push(cur@));
            }
        }
        i = i + 1;
    }
    pieces.push(cur);
    proof {
        assert(v@.subrange(0, v@.len() as int) =~= v@);
        assert(split_commas(v@) =~= pieces@.map_values(|p: Vec<char>| p@));
    }
    let mut r: Vec<String> = Vec::new();
    let mut k: usize = 0;
    while k < pieces.len()
        invariant
            k <= pieces@.len(),
            r@.len() == k,
            split_commas(v@) == pieces@.map_values(|p: Vec<char>| p@),
            strings_view(r@) == split_trimmed(v@).subrange(0, k as int),
        decreases pieces@.len() - k,
    {
        let t = trim_chars(pieces[k].as_slice());
        let piece = string_of(t.as_slice());
        proof {
            assert(split_commas(v@)[k as int] == pieces@[k as int]@);
            assert(split_trimmed(v@)[k as int] == piece@);
        }
        let ghost old_r = r@;
        r.push(piece);
        proof {
            assert(r@ == old_r.push(piece));
            assert forall|j: int| 0 <= j < k + 1 implies strings_view(r@)[j] == split_trimmed(
                v@,
            )[j] by {
                if j < k {
                    assert(strings_view(old_r)[j] == split_trimmed(v@).subrange(0, k as int)[j]);
                }
            }
            assert(strings_view(r@) =~= split_trimmed(v@).subrange(0, k + 1));
        }
        k = k + 1;
    }
    proof {
        assert(split_trimmed(v@).subrange(0, k as int) =~= split_trimmed(v@));
    }
    r
}

/// `c` with an upper-case ASCII letter taken to lower case, as a code point.
pub open spec fn ascii_folded(c: char) -> u32 {
    if 'A' <= c && c <= 'Z' {
        (c as u32 + 32) as u32
    } else {
        c as u32
    }
}

/// `a` and `b` are equal when ASCII letters are compared without regard to case.
pub open spec fn eq_ascii_folded(a: Seq<char>, b: Seq<char>) -> bool {
    a.len() == b.len() && forall|i: int| 0 <= i < a.len() ==> ascii_folded(a[i]) == ascii_folded(b[i])
}

fn fold_char(c: char) -> (r: u32)
    ensures
        r == ascii_folded(c),
{
    if 'A' <= c && c <= 'Z' {
        c as u32 + 32
    } else {
        c as u32
    }
}

/// Whether `a` equals `b` when ASCII letters are compared without regard to case.
pub fn eq_ignore_ascii_case(a: &[char], b: &str) -> (r: bool)
    ensures
        r == eq_ascii_folded(a@, b@),
{
    let w = chars_of(b);
    if a.len() != w.len() {
        return false;
    }
    let mut i: usize = 0;
    while i < a.len()
        invariant
            i <= a@.len() == w@.len(),
            w@ == b@,
            forall|j: int| 0 <= j < i ==> ascii_folded(a@[j]) == ascii_folded(w@[j]),
        decreases a@.len() - i,
    {
        if fold_char(a[i]) != fold_char(w[i]) {
            return false;
        }
        i = i + 1;
    }
    true
}

/// Whether `a` and `b` hold the same characters.
pub fn same_text(a: &str, b: &str) -> (r: bool)
    ensures
        r == (a@ == b@),
{
    let v = chars_of(a);
    let w = chars_of(b);
    if v.len() != w.len() {
        return false;
    }
    let mut i: usize = 0;
    while i < v.len()
        invariant
            i <= v@.len() == w@.len(),
            v@ == a@,
            w@ == b@,
            forall|j: int| 0 <= j < i ==> v@[j] == w@[j],
        decreases v@.len() - i,
    {
        if v[i] != w[i] {
            return false;
        }
        i = i + 1;
    }
    proof {
        assert(v@ =~= w@);
    }
    true
}

} // verus!
