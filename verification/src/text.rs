use vstd::prelude::*;

verus! {

// ---------------------------------------------------------------------------
// Character classes
// ---------------------------------------------------------------------------

/// A Unicode `White_Space` character, the set that `char::is_whitespace`
/// and therefore `str::trim` use.
pub open spec fn is_whitespace(c: char) -> bool {
    ||| c == ' '
    ||| ('\t' <= c && c <= '\r')
    ||| c == '\u{85}'
    ||| c == '\u{a0}'
    ||| c == '\u{1680}'
    ||| ('\u{2000}' <= c && c <= '\u{200a}')
    ||| c == '\u{2028}'
    ||| c == '\u{2029}'
    ||| c == '\u{202f}'
    ||| c == '\u{205f}'
    ||| c == '\u{3000}'
}

pub fn is_whitespace_char(c: char) -> (b: bool)
    ensures
        b == is_whitespace(c),
{
    c == ' ' || ('\t' <= c && c <= '\r') || c == '\u{85}' || c == '\u{a0}' || c == '\u{1680}'
        || ('\u{2000}' <= c && c <= '\u{200a}') || c == '\u{2028}' || c == '\u{2029}'
        || c == '\u{202f}' || c == '\u{205f}' || c == '\u{3000}'
}

/// The characters that a trimming operation removes from the ends.
#[derive(Debug)]
pub enum CharClass {
    Whitespace,
    Only(char),
}

pub open spec fn in_class(k: CharClass, c: char) -> bool {
    match k {
        CharClass::Whitespace => is_whitespace(c),
        CharClass::Only(x) => c == x,
    }
}

fn class_contains(k: &CharClass, c: char) -> (b: bool)
    ensures
        b == in_class(*k, c),
{
    match k {
        CharClass::Whitespace => is_whitespace_char(c),
        CharClass::Only(x) => c == *x,
    }
}

// ---------------------------------------------------------------------------
// Trimming
// ---------------------------------------------------------------------------

/// `s` without the leading characters of class `k`.
pub open spec fn strip_start(s: Seq<char>, k: CharClass) -> Seq<char>
    decreases s.len(),
{
    if s.len() > 0 && in_class(k, s[0]) {
        strip_start(s.drop_first(), k)
    } else {
        s
    }
}

/// `s` without the trailing characters of class `k`.
pub open spec fn strip_end(s: Seq<char>, k: CharClass) -> Seq<char>
    decreases s.len(),
{
    if s.len() > 0 && in_class(k, s.last()) {
        strip_end(s.drop_last(), k)
    } else {
        s
    }
}

/// What `str::trim` leaves of `s`.
pub open spec fn trim_ws(s: Seq<char>) -> Seq<char> {
    strip_end(strip_start(s, CharClass::Whitespace), CharClass::Whitespace)
}

/// What `str::trim_matches(c)` leaves of `s`.
pub open spec fn trim_char(s: Seq<char>, c: char) -> Seq<char> {
    strip_end(strip_start(s, CharClass::Only(c)), CharClass::Only(c))
}

proof fn lemma_strip_start_at(s: Seq<char>, k: CharClass, i: int)
    requires
        0 <= i <= s.len(),
        forall|j: int| 0 <= j < i ==> in_class(k, #[trigger] s[j]),
        i == s.len() || !in_class(k, s[i]),
    ensures
        strip_start(s, k) == s.skip(i),
    decreases i,
{
    if i == 0 {
        assert(s.skip(0) =~= s);
    } else {
        let t = s.drop_first();
        assert forall|j: int| 0 <= j < i - 1 implies in_class(k, #[trigger] t[j]) by {
            assert(t[j] == s[j + 1]);
        }
        lemma_strip_start_at(t, k, i - 1);
        assert(t.skip(i - 1) =~= s.skip(i));
    }
}

proof fn lemma_strip_end_at(s: Seq<char>, k: CharClass, j: int)
    requires
        0 <= j <= s.len(),
        forall|m: int| j <= m < s.len() ==> in_class(k, #[trigger] s[m]),
        j == 0 || !in_class(k, s[j - 1]),
    ensures
        strip_end(s, k) == s.take(j),
    decreases s.len() - j,
{
    if j == s.len() {
        assert(s.take(j) =~= s);
    } else {
        let t = s.drop_last();
        assert forall|m: int| j <= m < t.len() implies in_class(k, #[trigger] t[m]) by {
            assert(t[m] == s[m]);
        }
        lemma_strip_end_at(t, k, j);
        assert(t.take(j) =~= s.take(j));
    }
}

/// Trimming an already trimmed sequence changes nothing.
pub proof fn lemma_trim_ws_idempotent(s: Seq<char>)
    ensures
        trim_ws(trim_ws(s)) == trim_ws(s),
{
    let k = CharClass::Whitespace;
    let u = strip_start(s, k);
    lemma_strip_start_is_suffix(s, k);
    lemma_strip_end_is_prefix(u, k);
    let t = trim_ws(s);
    if t.len() > 0 {
        assert(t[0] == u[0]);
    }
    lemma_strip_start_at(t, CharClass::Whitespace, 0);
    lemma_strip_end_at(t, CharClass::Whitespace, t.len() as int);
    assert(t.skip(0) =~= t);
    assert(t.take(t.len() as int) =~= t);
}

proof fn lemma_strip_start_is_suffix(s: Seq<char>, k: CharClass)
    ensures
        strip_start(s, k).len() <= s.len(),
        strip_start(s, k) == s.skip(s.len() - strip_start(s, k).len()),
        forall|j: int|
            0 <= j < s.len() - strip_start(s, k).len() ==> in_class(k, #[trigger] s[j]),
        strip_start(s, k).len() == 0 || !in_class(k, strip_start(s, k)[0]),
    decreases s.len(),
{
    if s.len() > 0 && in_class(k, s[0]) {
        let t = s.drop_first();
        lemma_strip_start_is_suffix(t, k);
        let n = s.len() - strip_start(s, k).len();
        assert(t.skip(t.len() - strip_start(t, k).len()) =~= s.skip(n));
        assert forall|j: int| 0 <= j < n implies in_class(k, #[trigger] s[j]) by {
            if j > 0 {
                assert(s[j] == t[j - 1]);
            }
        }
    } else {
        assert(s.skip(0) =~= s);
    }
}

proof fn lemma_strip_end_is_prefix(s: Seq<char>, k: CharClass)
    ensures
        strip_end(s, k).len() <= s.len(),
        strip_end(s, k) == s.take(strip_end(s, k).len() as int),
        forall|m: int| strip_end(s, k).len() <= m < s.len() ==> in_class(k, #[trigger] s[m]),
        strip_end(s, k).len() == 0 || !in_class(k, strip_end(s, k).last()),
    decreases s.len(),
{
    if s.len() > 0 && in_class(k, s.last()) {
        let t = s.drop_last();
        lemma_strip_end_is_prefix(t, k);
        let n = strip_end(s, k).len() as int;
        assert(t.take(n) =~= s.take(n));
        assert forall|m: int| n <= m < s.len() implies in_class(k, #[trigger] s[m]) by {
            if m < t.len() {
                assert(s[m] == t[m]);
            }
        }
    } else {
        assert(s.take(s.len() as int) =~= s);
    }
}

// ---------------------------------------------------------------------------
// Building strings
// ---------------------------------------------------------------------------

/// Appends one character to a string.
///
/// Trusted: calls `String::push`, which std documents as appending the
/// character to the end of the string.
#[verifier::external_body]
pub(crate) fn push_char(s: &mut String, c: char)
    ensures
        final(s)@ == old(s)@.push(c),
{
    s.push(c);
}

/// The characters of a string slice, collected into a vector.
pub fn chars_of(s: &str) -> (r: Vec<char>)
    ensures
        r@ == s@,
{
    let mut r: Vec<char> = Vec::new();
    for c in it: s.chars()
        invariant
            r@ == it.seq().take(it.index() as int),
    {
        r.push(c);
    }
    r
}

/// The string made of `v[lo..hi]`.
pub fn string_of_range(v: &Vec<char>, lo: usize, hi: usize) -> (r: String)
    requires
        lo <= hi <= v.len(),
    ensures
        r@ == v@.subrange(lo as int, hi as int),
{
    let mut r = String::new();
    let mut i = lo;
    while i < hi
        invariant
            lo <= i <= hi <= v.len(),
            r@ == v@.subrange(lo as int, i as int),
        decreases hi - i,
    {
        push_char(&mut r, v[i]);
        assert(v@.subrange(lo as int, i + 1) =~= v@.subrange(lo as int, i as int).push(v@[i as int]));
        i = i + 1;
    }
    r
}

/// The string made of all of `v`.
pub fn string_of_chars(v: &Vec<char>) -> (r: String)
    ensures
        r@ == v@,
{
    let r = string_of_range(v, 0, v.len());
    assert(v@.subrange(0, v@.len() as int) =~= v@);
    r
}

/// A string equal to a string slice.
pub fn owned(s: &str) -> (r: String)
    ensures
        r@ == s@,
{
    s.to_owned()
}

/// `a` followed by `b`.
pub fn concat(a: &str, b: &str) -> (r: String)
    ensures
        r@ == a@ + b@,
{
    let mut r = a.to_owned();
    r.append(b);
    r
}

// ---------------------------------------------------------------------------
// Trimming, executable
// ---------------------------------------------------------------------------

fn trim_range(v: &Vec<char>, k: &CharClass, front: bool, back: bool) -> (r: (usize, usize))
    ensures
        r.0 <= r.1 <= v.len(),
        ({
            let s1 = if front { strip_start(v@, *k) } else { v@ };
            let s2 = if back { strip_end(s1, *k) } else { s1 };
            v@.subrange(r.0 as int, r.1 as int) == s2
        }),
{
    let n = v.len();
    let mut i: usize = 0;
    if front {
        while i < n && class_contains(k, v[i])
            invariant
                i <= n == v.len(),
                forall|j: int| 0 <= j < i ==> in_class(*k, #[trigger] v@[j]),
            decreases n - i,
        {
            i = i + 1;
        }
        proof {
            lemma_strip_start_at(v@, *k, i as int);
        }
    } else {
        assert(v@.skip(0) =~= v@);
    }
    let ghost s1 = v@.skip(i as int);
    let mut j: usize = n;
    if back {
        while j > i && class_contains(k, v[j - 1])
            invariant
                i <= j <= n == v.len(),
                forall|m: int| j <= m < n ==> in_class(*k, #[trigger] v@[m]),
            decreases j - i,
        {
            j = j - 1;
        }
        proof {
            assert forall|m: int| j - i <= m < s1.len() implies in_class(*k, #[trigger] s1[m]) by {
                assert(s1[m] == v@[m + i]);
            }
            if j > i {
                assert(s1[j - i - 1] == v@[j - 1]);
            }
            lemma_strip_end_at(s1, *k, j - i);
        }
        assert(s1.take(j - i) =~= v@.subrange(i as int, j as int));
    } else {
        assert(s1 =~= v@.subrange(i as int, j as int));
    }
    (i, j)
}

/// `str::trim`: `s` without leading and trailing whitespace.
pub fn trim(s: &str) -> (r: String)
    ensures
        r@ == trim_ws(s@),
{
    let v = chars_of(s);
    let (i, j) = trim_range(&v, &CharClass::Whitespace, true, true);
    string_of_range(&v, i, j)
}

/// `str::trim_start`: `s` without leading whitespace.
pub fn trim_start(s: &str) -> (r: String)
    ensures
        r@ == strip_start(s@, CharClass::Whitespace),
{
    let v = chars_of(s);
    let (i, j) = trim_range(&v, &CharClass::Whitespace, true, false);
    string_of_range(&v, i, j)
}

/// `str::trim_matches(c)`: `s` without leading and trailing `c`.
pub fn trim_matches(s: &str, c: char) -> (r: String)
    ensures
        r@ == trim_char(s@, c),
{
    let v = chars_of(s);
    let (i, j) = trim_range(&v, &CharClass::Only(c), true, true);
    string_of_range(&v, i, j)
}

/// `str::trim_end_matches(c)`: `s` without trailing `c`.
pub fn trim_end_matches(s: &str, c: char) -> (r: String)
    ensures
        r@ == strip_end(s@, CharClass::Only(c)),
{
    let v = chars_of(s);
    let (i, j) = trim_range(&v, &CharClass::Only(c), false, true);
    string_of_range(&v, i, j)
}

/// Whether `s` is empty once trimmed, that is whether it holds only whitespace.
pub fn is_blank(s: &str) -> (b: bool)
    ensures
        b == (trim_ws(s@).len() == 0),
{
    let t = trim(s);
    t.as_str().is_empty()
}

// ---------------------------------------------------------------------------
// ASCII case
// ---------------------------------------------------------------------------

/// `char::to_ascii_lowercase`: `A`..=`Z` become `a`..=`z`, all else stays.
pub open spec fn lower_char(c: char) -> char {
    if 'A' <= c && c <= 'Z' {
        ((c as u32) + 32) as char
    } else {
        c
    }
}

/// `c` mapped through `char::to_ascii_uppercase`.
pub open spec fn upper_char(c: char) -> char {
    if 'a' <= c && c <= 'z' {
        ((c as u32) - 32) as char
    } else {
        c
    }
}

/// `str::to_ascii_lowercase` on the characters of a string.
pub open spec fn ascii_lower(s: Seq<char>) -> Seq<char> {
    Seq::new(s.len(), |i: int| lower_char(s[i]))
}

pub fn to_lower_char(c: char) -> (r: char)
    ensures
        r == lower_char(c),
{
    if 'A' <= c && c <= 'Z' {
        ((c as u8) + 32) as char
    } else {
        c
    }
}

pub fn to_upper_char(c: char) -> (r: char)
    ensures
        r == upper_char(c),
{
    if 'a' <= c && c <= 'z' {
        ((c as u8) - 32) as char
    } else {
        c
    }
}

/// `str::to_ascii_lowercase`.
pub fn to_ascii_lowercase(s: &str) -> (r: String)
    ensures
        r@ == ascii_lower(s@),
{
    let v = chars_of(s);
    let mut r = String::new();
    let mut i: usize = 0;
    while i < v.len()
        invariant
            i <= v.len(),
            v@ == s@,
            r@ == ascii_lower(v@.take(i as int)),
        decreases v.len() - i,
    {
        push_char(&mut r, to_lower_char(v[i]));
        assert(ascii_lower(v@.take(i + 1)) =~= ascii_lower(v@.take(i as int)).push(lower_char(v@[i as int])));
        i = i + 1;
    }
    assert(v@.take(v@.len() as int) =~= v@);
    r
}

/// `str::eq_ignore_ascii_case`: equal once both are lowercased in ASCII.
pub fn eq_ignore_ascii_case(a: &str, b: &str) -> (r: bool)
    ensures
        r == (ascii_lower(a@) == ascii_lower(b@)),
{
    let va = chars_of(a);
    let vb = chars_of(b);
    if va.len() != vb.len() {
        assert(ascii_lower(a@).len() != ascii_lower(b@).len());
        return false;
    }
    let mut i: usize = 0;
    while i < va.len()
        invariant
            i <= va.len() == vb.len(),
            va@ == a@,
            vb@ == b@,
            forall|j: int| 0 <= j < i ==> lower_char(#[trigger] va@[j]) == lower_char(vb@[j]),
        decreases va.len() - i,
    {
        if to_lower_char(va[i]) != to_lower_char(vb[i]) {
            assert(ascii_lower(a@)[i as int] != ascii_lower(b@)[i as int]);
            return false;
        }
        i = i + 1;
    }
    assert(ascii_lower(a@) =~= ascii_lower(b@));
    true
}

// ---------------------------------------------------------------------------
// Searching and replacing
// ---------------------------------------------------------------------------

/// `p` occurs in `s` starting at index `i`.
pub open spec fn occurs_at(s: Seq<char>, p: Seq<char>, i: int) -> bool {
    0 <= i && i + p.len() <= s.len() && s.subrange(i, i + p.len()) == p
}

/// `str::contains`: `p` occurs somewhere in `s`.
pub open spec fn contains(s: Seq<char>, p: Seq<char>) -> bool {
    exists|i: int| occurs_at(s, p, i)
}

fn matches_at(v: &Vec<char>, p: &Vec<char>, i: usize) -> (b: bool)
    requires
        i + p.len() <= v.len(),
    ensures
        b == occurs_at(v@, p@, i as int),
{
    let mut k: usize = 0;
    while k < p.len()
        invariant
            k <= p.len(),
            i + p.len() <= v.len(),
            forall|m: int| 0 <= m < k ==> v@[i + m] == #[trigger] p@[m],
        decreases p.len() - k,
    {
        if v[i + k] != p[k] {
            assert(v@.subrange(i as int, i + p.len())[k as int] != p@[k as int]);
            return false;
        }
        k = k + 1;
    }
    assert(v@.subrange(i as int, i + p.len()) =~= p@);
    true
}

fn contains_chars(v: &Vec<char>, p: &Vec<char>) -> (b: bool)
    ensures
        b == contains(v@, p@),
{
    if p.len() > v.len() {
        return false;
    }
    if p.len() == 0 {
        assert(v@.subrange(0, 0) =~= p@);
        assert(occurs_at(v@, p@, 0));
        return true;
    }
    let last = v.len() - p.len();
    let mut i: usize = 0;
    while i <= last
        invariant
            last == v.len() - p.len(),
            0 < p.len() <= v.len(),
            forall|j: int| 0 <= j < i ==> !occurs_at(v@, p@, j),
        decreases last + 1 - i,
    {
        if matches_at(v, p, i) {
            return true;
        }
        i = i + 1;
    }
    assert forall|j: int| !occurs_at(v@, p@, j) by {
        if 0 <= j < i {
        }
    }
    false
}

/// `str::contains` for a string pattern.
pub fn contains_str(s: &str, p: &str) -> (b: bool)
    ensures
        b == contains(s@, p@),
{
    let v = chars_of(s);
    let q = chars_of(p);
    contains_chars(&v, &q)
}

/// `str::replace` for a non-empty pattern: every occurrence of `pat`, taken
/// from left to right without overlap, is replaced by `rep`.
pub open spec fn replace_all(s: Seq<char>, pat: Seq<char>, rep: Seq<char>) -> Seq<char>
    decreases s.len(),
{
    if pat.len() == 0 || s.len() < pat.len() {
        s
    } else if s.take(pat.len() as int) == pat {
        rep + replace_all(s.skip(pat.len() as int), pat, rep)
    } else {
        seq![s[0]] + replace_all(s.drop_first(), pat, rep)
    }
}

/// `str::replace` for a non-empty pattern.
pub fn replace(s: &str, pat: &str, rep: &str) -> (r: String)
    requires
        pat@.len() > 0,
    ensures
        r@ == replace_all(s@, pat@, rep@),
{
    let v = chars_of(s);
    let p = chars_of(pat);
    let mut out = String::new();
    let mut i: usize = 0;
    assert(v@.skip(0) =~= v@);
    while i < v.len()
        invariant
            i <= v.len(),
            p@ == pat@,
            v@ == s@,
            p@.len() > 0,
            replace_all(v@, p@, rep@) == out@ + replace_all(v@.skip(i as int), p@, rep@),
        decreases v.len() - i,
    {
        let ghost rest = v@.skip(i as int);
        if v.len() - i < p.len() {
            let tail = string_of_range(&v, i, v.len());
            out.append(tail.as_str());
            assert(rest =~= v@.subrange(i as int, v@.len() as int));
            i = v.len();
            assert(v@.skip(i as int) =~= Seq::<char>::empty());
        } else if matches_at(&v, &p, i) {
            out.append(rep);
            assert(rest.take(p@.len() as int) =~= p@);
            assert(rest.skip(p@.len() as int) =~= v@.skip(i + p.len()));
            i = i + p.len();
        } else {
            let c = v[i];
            push_char(&mut out, c);
            assert(rest.take(p@.len() as int) =~= v@.subrange(i as int, i + p.len()));
            assert(rest.drop_first() =~= v@.skip(i + 1));
            assert(rest[0] == c);
            i = i + 1;
        }
    }
    assert(out@ + replace_all(Seq::<char>::empty(), p@, rep@) =~= out@);
    out
}

/// If none of the first `m` characters of `replace_all(t, ..)` is the first
/// character of `rep`, no replacement happened there: they are the first `m`
/// characters of `t`.
pub proof fn lemma_replace_plain_prefix(t: Seq<char>, pat: Seq<char>, rep: Seq<char>, m: int)
    requires
        pat.len() > 0,
        rep.len() > 0,
        0 <= m <= replace_all(t, pat, rep).len(),
        forall|i: int| 0 <= i < m ==> #[trigger] replace_all(t, pat, rep)[i] != rep[0],
    ensures
        m <= t.len(),
        replace_all(t, pat, rep).take(m) == t.take(m),
    decreases t.len(),
{
    let out = replace_all(t, pat, rep);
    if m == 0 {
        assert(out.take(0) =~= t.take(0));
    } else if t.len() < pat.len() {
    } else if t.take(pat.len() as int) == pat {
        assert(out[0] == rep[0]);
    } else {
        let r = replace_all(t.drop_first(), pat, rep);
        assert(out == seq![t[0]] + r);
        assert forall|i: int| 0 <= i < m - 1 implies #[trigger] r[i] != rep[0] by {
            assert(r[i] == out[i + 1]);
        }
        lemma_replace_plain_prefix(t.drop_first(), pat, rep, m - 1);
        assert(out.take(m) =~= seq![t[0]] + r.take(m - 1));
        assert(t.take(m) =~= seq![t[0]] + t.drop_first().take(m - 1));
    }
}

/// Replacing every `pat` by `rep` leaves no occurrence of `pat` behind,
/// provided that `pat` holds neither the first nor the last character of
/// `rep` and does not occur in `rep` itself.
pub proof fn lemma_replace_removes_pattern(s: Seq<char>, pat: Seq<char>, rep: Seq<char>)
    requires
        pat.len() > 0,
        rep.len() > 0,
        forall|i: int| 0 <= i < pat.len() ==> #[trigger] pat[i] != rep[0],
        forall|i: int| 0 <= i < pat.len() ==> #[trigger] pat[i] != rep.last(),
        !contains(rep, pat),
    ensures
        !contains(replace_all(s, pat, rep), pat),
    decreases s.len(),
{
    let out = replace_all(s, pat, rep);
    if contains(out, pat) {
        let k = choose|k: int| occurs_at(out, pat, k);
        let w = out.subrange(k, k + pat.len());
        if s.len() < pat.len() {
        } else if s.take(pat.len() as int) == pat {
            let r = replace_all(s.skip(pat.len() as int), pat, rep);
            lemma_replace_removes_pattern(s.skip(pat.len() as int), pat, rep);
            assert(out == rep + r);
            if k < rep.len() {
                if k + pat.len() <= rep.len() {
                    assert(rep.subrange(k, k + pat.len()) =~= w);
                    assert(occurs_at(rep, pat, k));
                } else {
                    let j = rep.len() - 1 - k;
                    assert(w[j] == out[rep.len() - 1]);
                    assert(out[rep.len() - 1] == rep.last());
                    assert(pat[j] == rep.last());
                }
            } else {
                assert(r.subrange(k - rep.len(), k - rep.len() + pat.len()) =~= w);
                assert(occurs_at(r, pat, k - rep.len()));
            }
        } else {
            let t = s.drop_first();
            let r = replace_all(t, pat, rep);
            lemma_replace_removes_pattern(t, pat, rep);
            assert(out == seq![s[0]] + r);
            if k >= 1 {
                assert(r.subrange(k - 1, k - 1 + pat.len()) =~= w);
                assert(occurs_at(r, pat, k - 1));
            } else {
                let m = pat.len() - 1;
                assert forall|i: int| 0 <= i < m implies #[trigger] r[i] != rep[0] by {
                    assert(r[i] == out[i + 1]);
                    assert(w[i + 1] == pat[i + 1]);
                }
                lemma_replace_plain_prefix(t, pat, rep, m);
                assert(s.take(pat.len() as int) =~= seq![s[0]] + t.take(m));
                assert(w =~= seq![s[0]] + r.take(m));
            }
        }
    }
}

/// `str::contains` for a single character.
pub fn contains_char(s: &str, c: char) -> (b: bool)
    ensures
        b == s@.contains(c),
{
    let v = chars_of(s);
    let mut i: usize = 0;
    while i < v.len()
        invariant
            i <= v.len(),
            v@ == s@,
            forall|j: int| 0 <= j < i ==> v@[j] != c,
        decreases v.len() - i,
    {
        if v[i] == c {
            assert(v@[i as int] == c);
            return true;
        }
        i = i + 1;
    }
    false
}

/// `char::is_ascii_alphabetic`.
pub open spec fn is_ascii_alpha(c: char) -> bool {
    ('A' <= c && c <= 'Z') || ('a' <= c && c <= 'z')
}

pub fn is_ascii_alphabetic(c: char) -> (b: bool)
    ensures
        b == is_ascii_alpha(c),
{
    ('A' <= c && c <= 'Z') || ('a' <= c && c <= 'z')
}

} // verus!
