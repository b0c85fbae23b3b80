//! Character-level text utilities: Unicode white space, trimming, prefix
//! stripping, and conversions between `&str`, `String` and character vectors.

use vstd::prelude::*;

verus! {

/// The Unicode `White_Space` property, which `char::is_whitespace` and
/// `str::trim` go by.
pub open spec fn is_white_space_spec(c: char) -> bool {
    let u = c as u32;
    ||| 0x09 <= u <= 0x0d
    ||| u == 0x20
    ||| u == 0x85
    ||| u == 0xa0
    ||| u == 0x1680
    ||| 0x2000 <= u <= 0x200a
    ||| u == 0x2028
    ||| u == 0x2029
    ||| u == 0x202f
    ||| u == 0x205f
    ||| u == 0x3000
}

/// `s` with its leading white space removed.
pub open spec fn trim_start_spec(s: Seq<char>) -> Seq<char>
    decreases s.len(),
{
    if s.len() > 0 && is_white_space_spec(s[0]) {
        trim_start_spec(s.drop_first())
    } else {
        s
    }
}

/// `s` with its trailing white space removed.
pub open spec fn trim_end_spec(s: Seq<char>) -> Seq<char>
    decreases s.len(),
{
    if s.len() > 0 && is_white_space_spec(s.last()) {
        trim_end_spec(s.drop_last())
    } else {
        s
    }
}

/// `s` with white space removed at both ends, as `str::trim` does.
pub open spec fn trim_spec(s: Seq<char>) -> Seq<char> {
    trim_end_spec(trim_start_spec(s))
}

/// `s` with every leading copy of `prefix` removed, as
/// `str::trim_start_matches` does with a non-empty string pattern.
pub open spec fn strip_prefixes_spec(s: Seq<char>, prefix: Seq<char>) -> Seq<char>
    decreases s.len(),
{
    if prefix.len() > 0 && prefix.is_prefix_of(s) {
        strip_prefixes_spec(s.skip(prefix.len() as int), prefix)
    } else {
        s
    }
}

/// `s` with every trailing `c` removed, as `str::trim_end_matches` does with
/// a `char` pattern.
pub open spec fn strip_trailing_spec(s: Seq<char>, c: char) -> Seq<char>
    decreases s.len(),
{
    if s.len() > 0 && s.last() == c {
        strip_trailing_spec(s.drop_last(), c)
    } else {
        s
    }
}

/// Skipping a run of leading white space does not change the trimmed start.
pub proof fn lemma_trim_start_skip(s: Seq<char>, i: int)
    requires
        0 <= i <= s.len(),
        forall|k: int| 0 <= k < i ==> is_white_space_spec(#[trigger] s[k]),
    ensures
        trim_start_spec(s) == trim_start_spec(s.skip(i)),
    decreases i,
{
    if i > 0 {
        assert(s.drop_first().skip(i - 1) =~= s.skip(i));
        assert forall|k: int| 0 <= k < i - 1 implies is_white_space_spec(
            #[trigger] s.drop_first()[k],
        ) by {
            assert(s.drop_first()[k] == s[k + 1]);
        }
        lemma_trim_start_skip(s.drop_first(), i - 1);
    } else {
        assert(s.skip(0) =~= s);
    }
}

/// Dropping a run of trailing white space does not change the trimmed end.
pub proof fn lemma_trim_end_take(s: Seq<char>, j: int)
    requires
        0 <= j <= s.len(),
        forall|k: int| j <= k < s.len() ==> is_white_space_spec(#[trigger] s[k]),
    ensures
        trim_end_spec(s) == trim_end_spec(s.take(j)),
    decreases s.len() - j,
{
    if j < s.len() {
        assert(s.drop_last().take(j) =~= s.take(j));
        lemma_trim_end_take(s.drop_last(), j);
    } else {
        assert(s.take(j) =~= s);
    }
}

/// Whether `c` is white space in the sense of `char::is_whitespace`.
pub fn is_white_space(c: char) -> (b: bool)
    ensures
        b == is_white_space_spec(c),
{
    let u = c as u32;
    (0x09 <= u && u <= 0x0d) || u == 0x20 || u == 0x85 || u == 0xa0 || u == 0x1680 || (0x2000
        <= u && u <= 0x200a) || u == 0x2028 || u == 0x2029 || u == 0x202f || u == 0x205f || u
        == 0x3000
}

/// The characters of `s`, in order.
pub fn chars_of(s: &str) -> (v: Vec<char>)
    ensures
        v@ == s@,
{
    let mut v: Vec<char> = Vec::new();
    for c in it: s.chars()
        invariant
            v@ == it.seq().take(it.index() as int),
    {
        v.push(c);
    }
    v
}

/// Appends one character to `s` (`String::push`).
#[verifier::external_body]
pub(crate) fn push_char(s: &mut String, c: char)
    ensures
        final(s)@ == old(s)@.push(c),
{
    s.push(c);
}

/// The string made of `v[lo..hi]`.
pub fn string_from_range(v: &Vec<char>, lo: usize, hi: usize) -> (s: String)
    requires
        lo <= hi <= v@.len(),
    ensures
        s@ == v@.subrange(lo as int, hi as int),
{
    let mut s = String::new();
    let mut i = lo;
    while i < hi
        invariant
            lo <= i <= hi <= v@.len(),
            s@ == v@.subrange(lo as int, i as int),
        decreases hi - i,
    {
        push_char(&mut s, v[i]);
        assert(v@.subrange(lo as int, i + 1) =~= v@.subrange(lo as int, i as int).push(v@[i as int]));
        i = i + 1;
    }
    s
}

/// The bounds `(lo, hi)` of the trimmed part of `v`.
pub fn trim_bounds(v: &Vec<char>) -> (r: (usize, usize))
    ensures
        r.0 <= r.1 <= v@.len(),
        v@.subrange(r.0 as int, r.1 as int) == trim_spec(v@),
{
    let n = v.len();
    let mut lo: usize = 0;
    while lo < n && is_white_space(v[lo])
        invariant
            lo <= n == v@.len(),
            forall|k: int| 0 <= k < lo ==> is_white_space_spec(#[trigger] v@[k]),
        decreases n - lo,
    {
        lo = lo + 1;
    }
    proof {
        lemma_trim_start_skip(v@, lo as int);
        if lo < n {
            assert(trim_start_spec(v@.skip(lo as int)) == v@.skip(lo as int));
        } else {
            assert(v@.skip(lo as int).len() == 0);
        }
    }
    let ghost rest = v@.skip(lo as int);
    let mut hi: usize = n;
    while hi > lo && is_white_space(v[hi - 1])
        invariant
            lo <= hi <= n == v@.len(),
            rest == v@.skip(lo as int),
            forall|k: int| hi <= k < n ==> is_white_space_spec(#[trigger] v@[k]),
        decreases hi - lo,
    {
        hi = hi - 1;
    }
    proof {
        assert forall|k: int| hi - lo <= k < rest.len() implies is_white_space_spec(
            #[trigger] rest[k],
        ) by {
            assert(rest[k] == v@[k + lo]);
        }
        lemma_trim_end_take(rest, hi - lo);
        assert(rest.take(hi - lo) =~= v@.subrange(lo as int, hi as int));
        if hi > lo {
            assert(trim_end_spec(rest.take(hi - lo)) == rest.take(hi - lo));
        }
    }
    (lo, hi)
}

/// `s` with white space removed at both ends, as an owned string
/// (`s.trim().to_owned()`).
pub fn trimmed(s: &str) -> (r: String)
    ensures
        r@ == trim_spec(s@),
{
    let v = chars_of(s);
    let (lo, hi) = trim_bounds(&v);
    string_from_range(&v, lo, hi)
}

/// The characters `v[lo..hi]` as a vector of their own.
pub fn sub_chars(v: &Vec<char>, lo: usize, hi: usize) -> (r: Vec<char>)
    requires
        lo <= hi <= v@.len(),
    ensures
        r@ == v@.subrange(lo as int, hi as int),
{
    let mut r: Vec<char> = Vec::new();
    let mut i = lo;
    while i < hi
        invariant
            lo <= i <= hi <= v@.len(),
            r@ == v@.subrange(lo as int, i as int),
        decreases hi - i,
    {
        r.push(v[i]);
        assert(v@.subrange(lo as int, i + 1) =~= v@.subrange(lo as int, i as int).push(v@[i as int]));
        i = i + 1;
    }
    r
}

/// The trimmed characters of `v`, as a vector.
pub fn trim_chars(v: &Vec<char>) -> (r: Vec<char>)
    ensures
        r@ == trim_spec(v@),
{
    let (lo, hi) = trim_bounds(v);
    sub_chars(v, lo, hi)
}

/// The string made of the characters of `v`.
pub fn string_of(v: &Vec<char>) -> (s: String)
    ensures
        s@ == v@,
{
    let s = string_from_range(v, 0, v.len());
    assert(v@.subrange(0, v@.len() as int) =~= v@);
    s
}

/// Whether `p` is a prefix of `v[at..]`.
pub fn has_prefix_at(v: &Vec<char>, at: usize, p: &Vec<char>) -> (b: bool)
    requires
        at <= v@.len(),
    ensures
        b == p@.is_prefix_of(v@.skip(at as int)),
{
    if p.len() > v.len() - at {
        return false;
    }
    let mut i: usize = 0;
    while i < p.len()
        invariant
            i <= p@.len(),
            at + p@.len() <= v@.len(),
            v@.len() == v.len(),
            forall|k: int| 0 <= k < i ==> p@[k] == #[trigger] v@[at + k],
        decreases p@.len() - i,
    {
        if p[i] != v[at + i] {
            assert(v@.skip(at as int)[i as int] == v@[at + i]);
            return false;
        }
        i = i + 1;
    }
    assert forall|k: int| 0 <= k < p@.len() implies p@[k] == v@.skip(at as int)[k] by {
        assert(v@.skip(at as int)[k] == v@[at + k]);
    }
    true
}

/// Whether `v` and `p` hold the same characters.
pub fn chars_eq(v: &Vec<char>, p: &Vec<char>) -> (b: bool)
    ensures
        b == (v@ == p@),
{
    if v.len() != p.len() {
        return false;
    }
    let b = has_prefix_at(v, 0, p);
    proof {
        assert(v@.skip(0) =~= v@);
        if b {
            assert(v@ =~= p@);
        }
    }
    b
}

/// Stripping copies of `p` from the start of `s[n * |p|..]`, where
/// `s[..n * |p|]` is made of `n` copies of `p`, gives the same as stripping
/// them from `s`.
pub proof fn lemma_strip_prefixes_skip(s: Seq<char>, p: Seq<char>, n: int)
    requires
        p.len() > 0,
        0 <= n,
        n * p.len() <= s.len(),
        forall|m: int| 0 <= m < n ==> p.is_prefix_of(#[trigger] s.skip(m * p.len())),
    ensures
        strip_prefixes_spec(s, p) == strip_prefixes_spec(s.skip(n * p.len()), p),
    decreases n,
{
    let l = p.len() as int;
    if n > 0 {
        assert(p.is_prefix_of(s.skip(0 * l)));
        assert(s.skip(0 * l) =~= s);
        let t = s.skip(l);
        assert forall|m: int| 0 <= m < n - 1 implies p.is_prefix_of(#[trigger] t.skip(m * l)) by {
            assert((m + 1) * l == m * l + l) by (nonlinear_arith);
            assert(0 <= m * l) by (nonlinear_arith) requires 0 <= m, 0 < l;
            assert((m + 1) * l <= n * l) by (nonlinear_arith) requires m + 1 <= n, 0 < l;
            assert(t.skip(m * l) =~= s.skip((m + 1) * l));
            assert(p.is_prefix_of(s.skip((m + 1) * l)));
        }
        assert((n - 1) * l == n * l - l) by (nonlinear_arith);
        lemma_strip_prefixes_skip(t, p, n - 1);
        assert(t.skip((n - 1) * l) =~= s.skip(n * l));
    } else {
        assert(s.skip(0 * l) =~= s);
    }
}

/// `v` with every leading copy of the non-empty `p` removed
/// (`str::trim_start_matches` with a string pattern).
pub fn strip_prefixes(v: &Vec<char>, p: &Vec<char>) -> (r: Vec<char>)
    requires
        p@.len() > 0,
    ensures
        r@ == strip_prefixes_spec(v@, p@),
{
    let n = v.len();
    let plen = p.len();
    let mut at: usize = 0;
    let ghost mut count: int = 0;
    while has_prefix_at(v, at, p)
        invariant
            at <= n == v@.len(),
            plen == p@.len() > 0,
            0 <= count,
            at == count * plen,
            forall|m: int| 0 <= m < count ==> p@.is_prefix_of(#[trigger] v@.skip(m * plen)),
        decreases n - at,
    {
        assert(p@.len() <= v@.skip(at as int).len());
        proof {
            assert forall|m: int| 0 <= m < count + 1 implies p@.is_prefix_of(
                #[trigger] v@.skip(m * plen),
            ) by {
                if m == count {
                    assert(m * plen == at);
                }
            }
            assert((count + 1) * plen == count * plen + plen) by (nonlinear_arith);
            count = count + 1;
        }
        at = at + plen;
    }
    proof {
        lemma_strip_prefixes_skip(v@, p@, count);
        assert(!p@.is_prefix_of(v@.skip(at as int)));
    }
    let r = sub_chars(v, at, n);
    assert(r@ =~= v@.skip(at as int));
    r
}

/// Trimming the start keeps a suffix that, where it is not empty, starts
/// with a character that is not white space.
pub proof fn lemma_trim_start_props(s: Seq<char>)
    ensures
        trim_start_spec(s).is_suffix_of(s),
        trim_start_spec(s).len() > 0 ==> !is_white_space_spec(trim_start_spec(s)[0]),
    decreases s.len(),
{
    if s.len() > 0 && is_white_space_spec(s[0]) {
        lemma_trim_start_props(s.drop_first());
        let t = trim_start_spec(s.drop_first());
        assert forall|i: int| 0 <= i < t.len() implies #[trigger] t[i] == s[s.len() - t.len() + i] by {
            assert(t[i] == s.drop_first()[s.drop_first().len() - t.len() + i]);
        }
    }
}

/// Trimming the end keeps a prefix that, where it is not empty, ends with a
/// character that is not white space.
pub proof fn lemma_trim_end_props(s: Seq<char>)
    ensures
        trim_end_spec(s).is_prefix_of(s),
        trim_end_spec(s).len() > 0 ==> !is_white_space_spec(trim_end_spec(s).last()),
    decreases s.len(),
{
    if s.len() > 0 && is_white_space_spec(s.last()) {
        lemma_trim_end_props(s.drop_last());
    }
}

/// Trimmed text is its own trim: it is empty, or starts and ends with a
/// character that is not white space.
pub proof fn lemma_trim_idempotent(s: Seq<char>)
    ensures
        trim_spec(trim_spec(s)) == trim_spec(s),
        trim_spec(s).len() > 0 ==> !is_white_space_spec(trim_spec(s)[0])
            && !is_white_space_spec(trim_spec(s).last()),
{
    let t = trim_start_spec(s);
    let u = trim_end_spec(t);
    lemma_trim_start_props(s);
    lemma_trim_end_props(t);
    if u.len() > 0 {
        assert(u[0] == t[0]);
        assert(trim_start_spec(u) == u);
        assert(trim_end_spec(u) == u);
    } else {
        assert(trim_start_spec(u) == u);
        assert(trim_end_spec(u) == u);
    }
}

/// Text that neither starts nor ends with white space is its own trim.
pub proof fn lemma_trim_unchanged(s: Seq<char>)
    requires
        s.len() > 0,
        !is_white_space_spec(s[0]),
        !is_white_space_spec(s.last()),
    ensures
        trim_spec(s) == s,
{
    assert(trim_start_spec(s) == s);
    assert(trim_end_spec(s) == s);
}

} // verus!
