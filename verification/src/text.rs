//! Character-level text operations with their mathematical meaning:
//! prefix tests, substring search, replacement of every match, and
//! whitespace trimming, all over `Seq<char>`.
use vstd::prelude::*;

verus! {

/// Unicode `White_Space`: the characters that `char::is_whitespace` accepts.
pub open spec fn char_is_whitespace(c: char) -> bool {
    let u = c as u32;
    ||| 0x09 <= u <= 0x0d
    ||| u == 0x20
    ||| u == 0x85
    ||| u == 0xa0
    ||| u == 0x1680
    ||| 0x2000 <= u <= 0x200a
    ||| u == 0x2028
    ||| u == 0x2029
    ||| u == 0x202f
    ||| u == 0x205f
    ||| u == 0x3000
}

/// `s` with its leading whitespace removed.
pub open spec fn trim_start_seq(s: Seq<char>) -> Seq<char>
    decreases s.len(),
{
    if s.len() > 0 && char_is_whitespace(s[0]) {
        trim_start_seq(s.drop_first())
    } else {
        s
    }
}

/// `s` with its trailing whitespace removed.
pub open spec fn trim_end_seq(s: Seq<char>) -> Seq<char>
    decreases s.len(),
{
    if s.len() > 0 && char_is_whitespace(s.last()) {
        trim_end_seq(s.drop_last())
    } else {
        s
    }
}

/// `s` with leading and trailing whitespace removed, as `str::trim` does.
pub open spec fn trimmed(s: Seq<char>) -> Seq<char> {
    trim_end_seq(trim_start_seq(s))
}

/// `pat` occurs in `s` at index `i`.
pub open spec fn occurs_at(s: Seq<char>, pat: Seq<char>, i: int) -> bool {
    0 <= i && i + pat.len() <= s.len() && s.subrange(i, i + pat.len()) == pat
}

/// `pat` occurs somewhere in `s` (the empty pattern occurs in every text).
pub open spec fn contains_seq(s: Seq<char>, pat: Seq<char>) -> bool {
    exists|i: int| occurs_at(s, pat, i)
}

/// Every match of `from` in `s`, taken from left to right without overlap,
/// replaced by `to`. The empty pattern matches before every character and
/// at the end of the text, as with `str::replace`.
pub open spec fn replaced(s: Seq<char>, from: Seq<char>, to: Seq<char>) -> Seq<char>
    decreases s.len(),
{
    if from.len() == 0 {
        if s.len() == 0 {
            to
        } else {
            to + seq![s[0]] + replaced(s.drop_first(), from, to)
        }
    } else if from.is_prefix_of(s) {
        to + replaced(s.skip(from.len() as int), from, to)
    } else if s.len() == 0 {
        seq![]
    } else {
        seq![s[0]] + replaced(s.drop_first(), from, to)
    }
}

/// Whether `c` is white space, as `char::is_whitespace` answers: the
/// characters with the Unicode `White_Space` property.
pub fn is_whitespace(c: char) -> (b: bool)
    ensures
        b == char_is_whitespace(c),
{
    let u = c as u32;
    (0x09 <= u && u <= 0x0d) || u == 0x20 || u == 0x85 || u == 0xa0 || u == 0x1680 || (0x2000
        <= u && u <= 0x200a) || u == 0x2028 || u == 0x2029 || u == 0x202f || u == 0x205f || u
        == 0x3000
}

/// Calls `String::push`, which appends one character.
#[verifier::external_body]
pub(crate) fn push_char(s: &mut String, c: char)
    ensures
        final(s)@ == old(s)@.push(c),
{
    s.push(c)
}

/// The characters of `s`, in order.
pub fn chars_of(s: &str) -> (v: Vec<char>)
    ensures
        v@ == s@,
{
    let mut v: Vec<char> = Vec::new();
    for c in it: s.chars()
        invariant
            v@ == it.seq().take(it.index()),
            it.seq() == s@,
    {
        v.push(c);
    }
    v
}

/// The string made of the characters `v[lo..hi]`.
pub fn string_of(v: &Vec<char>, lo: usize, hi: usize) -> (s: String)
    requires
        lo <= hi <= v.len(),
    ensures
        s@ == v@.subrange(lo as int, hi as int),
{
    let mut s = String::new();
    let mut i = lo;
    while i < hi
        invariant
            lo <= i <= hi <= v.len(),
            s@ == v@.subrange(lo as int, i as int),
        decreases hi - i,
    {
        push_char(&mut s, v[i]);
        i = i + 1;
        assert(s@ =~= v@.subrange(lo as int, i as int));
    }
    s
}

/// Appends every element of `t` to `out`.
fn push_all(out: &mut Vec<char>, t: &Vec<char>)
    ensures
        final(out)@ == old(out)@ + t@,
{
    let mut i: usize = 0;
    while i < t.len()
        invariant
            i <= t.len(),
            out@ == old(out)@ + t@.take(i as int),
        decreases t.len() - i,
    {
        out.push(t[i]);
        i = i + 1;
        assert(out@ =~= old(out)@ + t@.take(i as int));
    }
    assert(t@.take(t.len() as int) =~= t@);
}

/// Whether `pat` occurs in `s` at index `i`.
fn occurs_at_exec(s: &Vec<char>, pat: &Vec<char>, i: usize) -> (r: bool)
    requires
        i <= s.len(),
    ensures
        r == occurs_at(s@, pat@, i as int),
{
    if pat.len() > s.len() - i {
        return false;
    }
    let mut k: usize = 0;
    while k < pat.len()
        invariant
            k <= pat.len(),
            i + pat.len() <= s.len(),
            forall|j: int| 0 <= j < k ==> s@[i + j] == pat@[j],
        decreases pat.len() - k,
    {
        if s[i + k] != pat[k] {
            assert(s@.subrange(i as int, i + pat.len())[k as int] != pat@[k as int]);
            return false;
        }
        k = k + 1;
    }
    assert(s@.subrange(i as int, i + pat.len()) =~= pat@);
    true
}

/// Whether `s` begins with `p`, as `str::starts_with`.
pub fn starts_with(s: &str, p: &str) -> (r: bool)
    ensures
        r == p@.is_prefix_of(s@),
{
    let sv = chars_of(s);
    let pv = chars_of(p);
    let r = occurs_at_exec(&sv, &pv, 0);
    proof {
        if r {
            assert(sv@.subrange(0, pv@.len() as int) == pv@);
        }
        if p@.is_prefix_of(s@) {
            assert(occurs_at(sv@, pv@, 0));
        }
    }
    r
}

/// Whether `pat` occurs in `s`, as `str::contains`.
pub fn contains(s: &str, pat: &str) -> (r: bool)
    ensures
        r == contains_seq(s@, pat@),
{
    let sv = chars_of(s);
    let pv = chars_of(pat);
    let n = sv.len();
    let mut i: usize = 0;
    while i < n
        invariant
            n == sv@.len(),
            i <= n,
            sv@ == s@,
            pv@ == pat@,
            forall|j: int| 0 <= j < i ==> !occurs_at(s@, pat@, j),
        decreases n - i,
    {
        if occurs_at_exec(&sv, &pv, i) {
            return true;
        }
        i = i + 1;
    }
    if occurs_at_exec(&sv, &pv, n) {
        return true;
    }
    assert forall|j: int| !occurs_at(s@, pat@, j) by {
        if 0 <= j && j <= n {
        }
    }
    false
}

proof fn lemma_skip_drop_first(s: Seq<char>, i: int)
    requires
        0 <= i < s.len(),
    ensures
        s.skip(i).drop_first() == s.skip(i + 1),
        s.skip(i)[0] == s[i],
{
    assert(s.skip(i).drop_first() =~= s.skip(i + 1));
}

proof fn lemma_skip_skip(s: Seq<char>, i: int, k: int)
    requires
        0 <= i,
        0 <= k,
        i + k <= s.len(),
    ensures
        s.skip(i).skip(k) == s.skip(i + k),
{
    assert(s.skip(i).skip(k) =~= s.skip(i + k));
}

proof fn lemma_prefix_of_skip(s: Seq<char>, p: Seq<char>, i: int)
    requires
        0 <= i <= s.len(),
    ensures
        p.is_prefix_of(s.skip(i)) <==> occurs_at(s, p, i),
{
    if p.is_prefix_of(s.skip(i)) {
        assert(s.subrange(i, i + p.len()) =~= s.skip(i).subrange(0, p.len() as int));
    }
    if occurs_at(s, p, i) {
        assert(s.subrange(i, i + p.len()) =~= s.skip(i).subrange(0, p.len() as int));
    }
}

/// `s` with every match of `from` replaced by `to`, as `str::replace`.
pub fn replace_all(s: &str, from: &str, to: &str) -> (r: String)
    ensures
        r@ == replaced(s@, from@, to@),
{
    let sv = chars_of(s);
    let fv = chars_of(from);
    let tv = chars_of(to);
    let n = sv.len();
    let mut out: Vec<char> = Vec::new();
    let mut i: usize = 0;
    assert(sv@.skip(0) =~= sv@);
    while i < n
        invariant
            n == sv@.len(),
            i <= n,
            sv@ == s@,
            fv@ == from@,
            tv@ == to@,
            replaced(s@, from@, to@) == out@ + replaced(sv@.skip(i as int), fv@, tv@),
        decreases n - i,
    {
        let ghost rest = sv@.skip(i as int);
        proof {
            lemma_skip_drop_first(sv@, i as int);
            lemma_prefix_of_skip(sv@, fv@, i as int);
        }
        if fv.len() == 0 {
            push_all(&mut out, &tv);
            out.push(sv[i]);
            i = i + 1;
            assert(out@ + replaced(sv@.skip(i as int), fv@, tv@) =~= replaced(s@, from@, to@));
        } else if occurs_at_exec(&sv, &fv, i) {
            push_all(&mut out, &tv);
            proof {
                lemma_skip_skip(sv@, i as int, fv@.len() as int);
            }
            i = i + fv.len();
            assert(out@ + replaced(sv@.skip(i as int), fv@, tv@) =~= replaced(s@, from@, to@));
        } else {
            out.push(sv[i]);
            i = i + 1;
            assert(out@ + replaced(sv@.skip(i as int), fv@, tv@) =~= replaced(s@, from@, to@));
        }
    }
    assert(sv@.skip(n as int) =~= Seq::<char>::empty());
    if fv.len() == 0 {
        push_all(&mut out, &tv);
    }
    assert(out@ =~= replaced(s@, from@, to@));
    string_of(&out, 0, out.len())
}

proof fn lemma_trim_start(s: Seq<char>, a: int)
    requires
        0 <= a <= s.len(),
        forall|j: int| 0 <= j < a ==> char_is_whitespace(#[trigger] s[j]),
        a == s.len() || !char_is_whitespace(s[a]),
    ensures
        trim_start_seq(s) == s.skip(a),
    decreases a,
{
    if a > 0 {
        assert(char_is_whitespace(s[0]));
        let t = s.drop_first();
        assert forall|j: int| 0 <= j < a - 1 implies char_is_whitespace(#[trigger] t[j]) by {
            assert(t[j] == s[j + 1]);
        }
        lemma_trim_start(t, a - 1);
        assert(t.skip(a - 1) =~= s.skip(a));
    } else {
        assert(s.skip(0) =~= s);
    }
}

proof fn lemma_trim_end(s: Seq<char>, b: int)
    requires
        0 <= b <= s.len(),
        forall|j: int| b <= j < s.len() ==> char_is_whitespace(#[trigger] s[j]),
        b == 0 || !char_is_whitespace(s[b - 1]),
    ensures
        trim_end_seq(s) == s.take(b),
    decreases s.len() - b,
{
    if b < s.len() {
        assert(char_is_whitespace(s[s.len() - 1]));
        let t = s.drop_last();
        assert forall|j: int| b <= j < t.len() implies char_is_whitespace(#[trigger] t[j]) by {
            assert(t[j] == s[j]);
        }
        lemma_trim_end(t, b);
        assert(t.take(b) =~= s.take(b));
    } else {
        assert(s.take(b) =~= s);
    }
}

/// `trimmed(s)` is the stretch of `s` from its first to its last
/// non-whitespace character.
pub proof fn lemma_trimmed_bounds(s: Seq<char>, a: int, b: int)
    requires
        0 <= a <= b <= s.len(),
        forall|j: int| 0 <= j < a ==> char_is_whitespace(#[trigger] s[j]),
        forall|j: int| b <= j < s.len() ==> char_is_whitespace(#[trigger] s[j]),
        a == b || (!char_is_whitespace(s[a]) && !char_is_whitespace(s[b - 1])),
        a == b ==> a == s.len(),
    ensures
        trimmed(s) == s.subrange(a, b),
{
    lemma_trim_start(s, a);
    let t = s.skip(a);
    assert forall|j: int| b - a <= j < t.len() implies char_is_whitespace(#[trigger] t[j]) by {
        assert(t[j] == s[j + a]);
    }
    if a < b {
        assert(t[b - a - 1] == s[b - 1]);
    }
    lemma_trim_end(t, b - a);
    assert(t.take(b - a) =~= s.subrange(a, b));
}

/// `s` without leading and trailing whitespace, as `str::trim`.
pub fn trim(s: &str) -> (r: String)
    ensures
        r@ == trimmed(s@),
{
    let sv = chars_of(s);
    let n = sv.len();
    let mut a: usize = 0;
    while a < n && is_whitespace(sv[a])
        invariant
            n == sv@.len(),
            a <= n,
            forall|j: int| 0 <= j < a ==> char_is_whitespace(#[trigger] sv@[j]),
        decreases n - a,
    {
        a = a + 1;
    }
    let mut b: usize = n;
    while b > a && is_whitespace(sv[b - 1])
        invariant
            n == sv@.len(),
            a <= b <= n,
            a == n || !char_is_whitespace(sv@[a as int]),
            a < n ==> a < b,
            forall|j: int| 0 <= j < a ==> char_is_whitespace(#[trigger] sv@[j]),
            forall|j: int| b <= j < n ==> char_is_whitespace(#[trigger] sv@[j]),
        decreases b - a,
    {
        b = b - 1;
    }
    proof {
        lemma_trimmed_bounds(sv@, a as int, b as int);
    }
    string_of(&sv, a, b)
}

/// When no match of a non-empty pattern starts among the first `m`
/// characters, replacement leaves those characters in place.
pub proof fn lemma_replaced_keeps_unmatched_prefix(
    x: Seq<char>,
    from: Seq<char>,
    to: Seq<char>,
    m: int,
)
    requires
        from.len() > 0,
        0 <= m <= x.len(),
        forall|k: int| 0 <= k < m ==> !occurs_at(x, from, k),
    ensures
        replaced(x, from, to) == x.take(m) + replaced(x.skip(m), from, to),
    decreases m,
{
    if m == 0 {
        assert(x.skip(0) =~= x);
        assert(x.take(0) =~= Seq::<char>::empty());
        assert(x.take(0) + replaced(x.skip(0), from, to) =~= replaced(x, from, to));
    } else {
        lemma_replaced_keeps_unmatched_prefix(x, from, to, m - 1);
        let rest = x.skip(m - 1);
        lemma_prefix_of_skip(x, from, m - 1);
        lemma_skip_drop_first(x, m - 1);
        assert(replaced(rest, from, to) == seq![x[m - 1]] + replaced(x.skip(m), from, to));
        assert(x.take(m - 1) + (seq![x[m - 1]] + replaced(x.skip(m), from, to)) =~= x.take(m)
            + replaced(x.skip(m), from, to));
    }
}

/// A text in which a non-empty pattern does not occur is left as it is.
pub proof fn lemma_replaced_without_match(s: Seq<char>, from: Seq<char>, to: Seq<char>)
    requires
        from.len() > 0,
        !contains_seq(s, from),
    ensures
        replaced(s, from, to) == s,
{
    lemma_replaced_keeps_unmatched_prefix(s, from, to, s.len() as int);
    assert(s.skip(s.len() as int) =~= Seq::<char>::empty());
    assert(s.take(s.len() as int) =~= s);
    assert(s.take(s.len() as int) + Seq::<char>::empty() =~= s);
}

/// A match of a non-empty pattern at the very start is replaced first.
pub proof fn lemma_replaced_leading_match(x: Seq<char>, from: Seq<char>, to: Seq<char>)
    requires
        from.len() > 0,
        from.is_prefix_of(x),
    ensures
        to.is_prefix_of(replaced(x, from, to)),
{
    let r = replaced(x, from, to);
    assert(r == to + replaced(x.skip(from.len() as int), from, to));
    assert(r.subrange(0, to.len() as int) =~= to);
}

proof fn lemma_trim_end_keeps_prefix(s: Seq<char>, p: Seq<char>)
    requires
        p.is_prefix_of(s),
        p.len() > 0,
        !char_is_whitespace(p.last()),
    ensures
        p.is_prefix_of(trim_end_seq(s)),
    decreases s.len(),
{
    if s.len() > 0 && char_is_whitespace(s.last()) {
        assert(s[p.len() - 1] == p.last());
        assert(s.len() > p.len());
        let t = s.drop_last();
        assert(t.subrange(0, p.len() as int) =~= s.subrange(0, p.len() as int));
        lemma_trim_end_keeps_prefix(t, p);
    }
}

/// Trimming keeps a prefix that neither begins nor ends with whitespace.
pub proof fn lemma_trimmed_keeps_prefix(s: Seq<char>, p: Seq<char>)
    requires
        p.is_prefix_of(s),
        p.len() > 0,
        !char_is_whitespace(p[0]),
        !char_is_whitespace(p.last()),
    ensures
        p.is_prefix_of(trimmed(s)),
{
    assert(s[0] == p[0]);
    assert(trim_start_seq(s) == s);
    lemma_trim_end_keeps_prefix(s, p);
}

proof fn lemma_trim_start_shape(s: Seq<char>)
    ensures
        trim_start_seq(s).len() == 0 || !char_is_whitespace(trim_start_seq(s)[0]),
    decreases s.len(),
{
    if s.len() > 0 && char_is_whitespace(s[0]) {
        lemma_trim_start_shape(s.drop_first());
    }
}

proof fn lemma_trim_end_shape(s: Seq<char>)
    ensures
        trim_end_seq(s).is_prefix_of(s),
        trim_end_seq(s).len() == 0 || !char_is_whitespace(trim_end_seq(s).last()),
    decreases s.len(),
{
    if s.len() > 0 && char_is_whitespace(s.last()) {
        let t = s.drop_last();
        lemma_trim_end_shape(t);
        let r = trim_end_seq(t);
        assert(r.subrange(0, r.len() as int) =~= r);
        assert(s.subrange(0, r.len() as int) =~= t.subrange(0, r.len() as int));
    } else {
        assert(s.subrange(0, s.len() as int) =~= s);
    }
}

/// Trimming twice is trimming once.
pub proof fn lemma_trimmed_idempotent(s: Seq<char>)
    ensures
        trimmed(trimmed(s)) == trimmed(s),
{
    let t = trim_start_seq(s);
    let y = trim_end_seq(t);
    lemma_trim_start_shape(s);
    lemma_trim_end_shape(t);
    if y.len() > 0 {
        assert(y[0] == t[0]);
        assert(trim_start_seq(y) == y);
        assert(trim_end_seq(y) == y);
    } else {
        assert(trim_start_seq(y) == y);
        assert(trim_end_seq(y) == y);
    }
}

} // verus!
