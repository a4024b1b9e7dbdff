use vstd::prelude::*;

verus! {

/// Appends one character to a string (`String::push`).
#[verifier::external_body]
pub(crate) fn push_char(s: &mut String, c: char)
    ensures
        final(s)@ == old(s)@.push(c),
{
    s.push(c);
}

/// The characters of a string, in order.
pub fn chars_of(s: &str) -> (v: Vec<char>)
    ensures
        v@ == s@,
{
    let mut v: Vec<char> = Vec::new();
    for c in it: s.chars()
        invariant
            v@ == it.seq().take(it.index() as int),
    {
        v.push(c);
    }
    v
}

/// A string holding the given characters.
pub fn string_of(v: &[char]) -> (s: String)
    ensures
        s@ == v@,
{
    let mut s = String::new();
    let n = v.len();
    for i in 0..n
        invariant
            n == v@.len(),
            s@ == v@.take(i as int),
    {
        push_char(&mut s, v[i]);
        assert(v@.take(i + 1) == v@.take(i as int).push(v@[i as int]));
    }
    assert(v@.take(n as int) == v@);
    s
}

/// The Unicode `White_Space` property, the set that `char::is_whitespace` tests.
pub open spec fn is_white(c: char) -> bool {
    let u = c as u32;
    ||| (0x09 <= u && u <= 0x0d)
    ||| u == 0x20
    ||| u == 0x85
    ||| u == 0xa0
    ||| u == 0x1680
    ||| (0x2000 <= u && u <= 0x200a)
    ||| u == 0x2028
    ||| u == 0x2029
    ||| u == 0x202f
    ||| u == 0x205f
    ||| u == 0x3000
}

/// Whether `c` is a whitespace character.
pub fn is_whitespace(c: char) -> (r: bool)
    ensures
        r == is_white(c),
{
    let u = c as u32;
    (0x09 <= u && u <= 0x0d) || u == 0x20 || u == 0x85 || u == 0xa0 || u == 0x1680 || (0x2000
        <= u && u <= 0x200a) || u == 0x2028 || u == 0x2029 || u == 0x202f || u == 0x205f || u
        == 0x3000
}

/// Every character of `s` is whitespace (so `s.trim()` is empty).
pub open spec fn all_white(s: Seq<char>) -> bool {
    forall|i: int| 0 <= i < s.len() ==> is_white(#[trigger] s[i])
}

/// Number of whitespace characters at the start of `s`.
pub open spec fn leading_white(s: Seq<char>) -> nat
    decreases s.len(),
{
    if s.len() > 0 && is_white(s[0]) {
        1 + leading_white(s.drop_first())
    } else {
        0
    }
}

/// Number of whitespace characters at the end of `s`.
pub open spec fn trailing_white(s: Seq<char>) -> nat
    decreases s.len(),
{
    if s.len() > 0 && is_white(s.last()) {
        1 + trailing_white(s.drop_last())
    } else {
        0
    }
}

/// `s` without leading and trailing whitespace (`str::trim`).
pub open spec fn trimmed(s: Seq<char>) -> Seq<char> {
    let a = s.skip(leading_white(s) as int);
    a.take(a.len() - trailing_white(a))
}

proof fn lemma_leading_white(s: Seq<char>, i: int)
    requires
        0 <= i <= s.len(),
        forall|k: int| 0 <= k < i ==> is_white(#[trigger] s[k]),
        i == s.len() || !is_white(s[i]),
    ensures
        leading_white(s) == i,
    decreases i,
{
    if i > 0 {
        assert forall|k: int| 0 <= k < i - 1 implies is_white(#[trigger] s.drop_first()[k]) by {
            assert(s.drop_first()[k] == s[k + 1]);
        }
        if i < s.len() {
            assert(s.drop_first()[i - 1] == s[i]);
        }
        lemma_leading_white(s.drop_first(), i - 1);
    }
}

proof fn lemma_trailing_white(s: Seq<char>, j: int)
    requires
        0 <= j <= s.len(),
        forall|k: int| j <= k < s.len() ==> is_white(#[trigger] s[k]),
        j == 0 || !is_white(s[j - 1]),
    ensures
        trailing_white(s) == s.len() - j,
    decreases s.len() - j,
{
    if j < s.len() {
        assert forall|k: int| j <= k < s.len() - 1 implies is_white(
            #[trigger] s.drop_last()[k],
        ) by {
            assert(s.drop_last()[k] == s[k]);
        }
        if j > 0 {
            assert(s.drop_last()[j - 1] == s[j - 1]);
        }
        lemma_trailing_white(s.drop_last(), j);
    }
}

/// Trimming keeps exactly the span from the first to the last character
/// that is not whitespace: given positions `a <= b` with only whitespace
/// before `a` and from `b` on, and non-whitespace at `a` and at `b - 1`
/// (or nothing between them), the trimmed text is `s[a..b]`, whole.
pub proof fn law_trimmed_span(s: Seq<char>, a: int, b: int)
    requires
        0 <= a <= b <= s.len(),
        forall|k: int| 0 <= k < a ==> is_white(#[trigger] s[k]),
        forall|k: int| b <= k < s.len() ==> is_white(#[trigger] s[k]),
        a < b ==> !is_white(s[a]) && !is_white(s[b - 1]),
    ensures
        trimmed(s) == s.subrange(a, b),
{
    if a < b {
        lemma_leading_white(s, a);
        let t = s.skip(a);
        assert forall|k: int| b - a <= k < t.len() implies is_white(#[trigger] t[k]) by {
            assert(t[k] == s[k + a]);
        }
        assert(t[b - a - 1] == s[b - 1]);
        lemma_trailing_white(t, b - a);
        assert(t.take(b - a) == s.subrange(a, b));
    } else {
        assert forall|k: int| 0 <= k < s.len() implies is_white(#[trigger] s[k]) by {
            if k >= a {
                assert(b <= k);
            }
        }
        lemma_leading_white(s, s.len() as int);
        let t = s.skip(s.len() as int);
        assert(t.len() == 0);
        assert(trailing_white(t) == 0);
        assert(t.take(0) == s.subrange(a, b));
    }
}

proof fn lemma_leading_props(s: Seq<char>)
    ensures
        leading_white(s) <= s.len(),
        forall|k: int| 0 <= k < leading_white(s) ==> is_white(#[trigger] s[k]),
    decreases s.len(),
{
    if s.len() > 0 && is_white(s[0]) {
        lemma_leading_props(s.drop_first());
        assert forall|k: int| 0 <= k < leading_white(s) implies is_white(#[trigger] s[k]) by {
            if k > 0 {
                assert(s[k] == s.drop_first()[k - 1]);
            }
        }
    }
}

proof fn lemma_trailing_props(s: Seq<char>)
    ensures
        trailing_white(s) <= s.len(),
        forall|k: int| s.len() - trailing_white(s) <= k < s.len() ==> is_white(#[trigger] s[k]),
    decreases s.len(),
{
    if s.len() > 0 && is_white(s.last()) {
        lemma_trailing_props(s.drop_last());
        assert forall|k: int| s.len() - trailing_white(s) <= k < s.len() implies is_white(
            #[trigger] s[k],
        ) by {
            if k < s.len() - 1 {
                assert(s[k] == s.drop_last()[k]);
            }
        }
    }
}

/// Trimming leaves nothing exactly when the text is whitespace only.
pub proof fn law_trimmed_empty(s: Seq<char>)
    ensures
        trimmed(s).len() == 0 <==> all_white(s),
{
    if all_white(s) {
        law_trimmed_span(s, 0, 0);
    } else {
        let k = choose|k: int| 0 <= k < s.len() && !is_white(s[k]);
        lemma_leading_props(s);
        let lw = leading_white(s) as int;
        assert(lw <= k);
        let a = s.skip(lw);
        assert(a[k - lw] == s[k]);
        lemma_trailing_props(a);
        assert(a.len() - trailing_white(a) > k - lw);
    }
}

/// `s` without leading and trailing whitespace.
pub fn trim(s: &str) -> (r: String)
    ensures
        r@ == trimmed(s@),
{
    let v = chars_of(s);
    let n = v.len();
    let mut i: usize = 0;
    while i < n && is_whitespace(v[i])
        invariant
            n == v@.len(),
            i <= n,
            forall|k: int| 0 <= k < i ==> is_white(#[trigger] v@[k]),
        decreases n - i,
    {
        i = i + 1;
    }
    proof {
        lemma_leading_white(v@, i as int);
    }
    let ghost a = v@.skip(i as int);
    let mut j: usize = n;
    while j > i && is_whitespace(v[j - 1])
        invariant
            n == v@.len(),
            i <= j <= n,
            forall|k: int| j <= k < n ==> is_white(#[trigger] v@[k]),
        decreases j,
    {
        j = j - 1;
    }
    proof {
        assert forall|k: int| j - i <= k < a.len() implies is_white(#[trigger] a[k]) by {
            assert(a[k] == v@[k + i]);
        }
        if j > i {
            assert(a[j - i - 1] == v@[j - 1]);
        }
        lemma_trailing_white(a, j - i);
        assert(a.take(j - i) == v@.subrange(i as int, j as int));
    }
    let mut r = String::new();
    let mut k = i;
    while k < j
        invariant
            n == v@.len(),
            i <= k <= j <= n,
            r@ == v@.subrange(i as int, k as int),
        decreases j - k,
    {
        push_char(&mut r, v[k]);
        assert(v@.subrange(i as int, k + 1) == v@.subrange(i as int, k as int).push(v@[k as int]));
        k = k + 1;
    }
    r
}

/// Whether `s` holds nothing but whitespace (`s.trim().is_empty()`).
pub fn is_blank(s: &str) -> (r: bool)
    ensures
        r == all_white(s@),
{
    let v = chars_of(s);
    let n = v.len();
    for i in 0..n
        invariant
            n == v@.len(),
            v@ == s@,
            forall|k: int| 0 <= k < i ==> is_white(#[trigger] v@[k]),
    {
        if !is_whitespace(v[i]) {
            return false;
        }
    }
    true
}

} // verus!

verus! {

/// What `str::to_lowercase` returns for `s`: the lower-case mapping of
/// every character by the Unicode `Lowercase` property.
pub uninterp spec fn lowercase(s: Seq<char>) -> Seq<char>;

/// `str::to_lowercase`.
#[verifier::external_body]
pub(crate) fn to_lowercase(s: &str) -> (r: String)
    ensures
        r@ == lowercase(s@),
{
    s.to_lowercase()
}

/// Whether two strings hold the same characters.
pub fn str_eq(a: &str, b: &str) -> (r: bool)
    ensures
        r == (a@ == b@),
{
    let va = chars_of(a);
    let vb = chars_of(b);
    if va.len() != vb.len() {
        return false;
    }
    let n = va.len();
    for i in 0..n
        invariant
            n == va@.len(),
            n == vb@.len(),
            va@ == a@,
            vb@ == b@,
            forall|k: int| 0 <= k < i ==> va@[k] == vb@[k],
    {
        if va[i] != vb[i] {
            return false;
        }
    }
    assert(va@ == vb@);
    true
}

/// The index of the last `c` in `s`, if there is one.
pub open spec fn last_index_of(s: Seq<char>, c: char) -> Option<int>
    decreases s.len(),
{
    if s.len() == 0 {
        None
    } else if s.last() == c {
        Some(s.len() - 1)
    } else {
        last_index_of(s.drop_last(), c)
    }
}

/// `str::rfind` for one character, counted in characters.
pub fn rfind_char(s: &str, c: char) -> (r: Option<usize>)
    ensures
        r matches Some(i) ==> last_index_of(s@, c) == Some(i as int) && i < s@.len(),
        r is None ==> last_index_of(s@, c) is None,
{
    let v = chars_of(s);
    let mut j: usize = v.len();
    assert(v@.take(j as int) == v@);
    while j > 0
        invariant
            j <= v@.len(),
            v@ == s@,
            last_index_of(v@.take(j as int), c) == last_index_of(v@, c),
        decreases j,
    {
        let ghost t = v@.take(j as int);
        assert(t.last() == v@[j - 1]);
        assert(t.drop_last() == v@.take(j - 1));
        if v[j - 1] == c {
            return Some(j - 1);
        }
        j = j - 1;
    }
    assert(v@.take(0).len() == 0);
    None
}

/// `s` with each non-overlapping occurrence of `pat`, from the left, replaced
/// by `rep` (`str::replace`).
pub open spec fn replaced(s: Seq<char>, pat: Seq<char>, rep: Seq<char>) -> Seq<char>
    recommends
        pat.len() > 0,
    decreases s.len(),
{
    if s.len() == 0 || pat.len() == 0 {
        s
    } else if pat.len() <= s.len() && s.take(pat.len() as int) == pat {
        rep + replaced(s.skip(pat.len() as int), pat, rep)
    } else {
        seq![s[0]] + replaced(s.drop_first(), pat, rep)
    }
}

/// Text in which the first character of `pat` never occurs is copied as it
/// is, and before any further text.
pub proof fn lemma_replaced_skips(x: Seq<char>, y: Seq<char>, pat: Seq<char>, rep: Seq<char>)
    requires
        pat.len() > 0,
        !x.contains(pat[0]),
    ensures
        replaced(x + y, pat, rep) == x + replaced(y, pat, rep),
    decreases x.len(),
{
    if x.len() == 0 {
        assert(x + y == y);
    } else {
        let s = x + y;
        assert(s[0] == x[0]);
        assert(x[0] != pat[0]) by {
            if x[0] == pat[0] {
                assert(x.contains(pat[0]));
            }
        }
        if pat.len() <= s.len() {
            assert(s.take(pat.len() as int)[0] == s[0]);
        }
        assert(!x.drop_first().contains(pat[0])) by {
            if x.drop_first().contains(pat[0]) {
                let k = choose|k: int| 0 <= k < x.drop_first().len() && x.drop_first()[k] == pat[0];
                assert(x[k + 1] == pat[0]);
            }
        }
        assert(s.drop_first() == x.drop_first() + y);
        lemma_replaced_skips(x.drop_first(), y, pat, rep);
        assert(seq![x[0]] + x.drop_first() == x);
    }
}

fn matches_at(v: &Vec<char>, i: usize, pat: &Vec<char>) -> (r: bool)
    requires
        i <= v@.len(),
    ensures
        r == (pat@.len() <= v@.len() - i && v@.skip(i as int).take(pat@.len() as int) == pat@),
{
    if pat.len() > v.len() - i {
        return false;
    }
    let m = pat.len();
    for k in 0..m
        invariant
            m == pat@.len(),
            i + m <= v@.len(),
            v@.len() <= usize::MAX,
            forall|t: int| 0 <= t < k ==> v@[i + t] == pat@[t],
    {
        if v[i + k] != pat[k] {
            assert(v@.skip(i as int).take(m as int)[k as int] == v@[i + k]);
            return false;
        }
    }
    assert(v@.skip(i as int).take(m as int) == pat@);
    true
}

/// `s` with every occurrence of a non-empty `pat` replaced by `rep`.
pub fn replace_all(s: &str, pat: &str, rep: &str) -> (r: String)
    requires
        pat@.len() > 0,
    ensures
        r@ == replaced(s@, pat@, rep@),
{
    let v = chars_of(s);
    let p = chars_of(pat);
    let n = v.len();
    let mut out = String::new();
    let mut i: usize = 0;
    assert(v@.skip(0) == v@);
    while i < n
        invariant
            n == v@.len(),
            p@ == pat@,
            p@.len() > 0,
            i <= n,
            out@ + replaced(v@.skip(i as int), pat@, rep@) == replaced(s@, pat@, rep@),
            v@ == s@,
        decreases n - i,
    {
        let ghost t = v@.skip(i as int);
        let ghost before = out@;
        if matches_at(&v, i, &p) {
            assert(t.skip(p@.len() as int) == v@.skip(i + p@.len()));
            out.append(rep);
            assert(before + (rep@ + replaced(t.skip(p@.len() as int), pat@, rep@)) == out@
                + replaced(t.skip(p@.len() as int), pat@, rep@));
            i = i + p.len();
        } else {
            assert(t[0] == v@[i as int]);
            assert(t.drop_first() == v@.skip(i + 1));
            push_char(&mut out, v[i]);
            assert(before + (seq![t[0]] + replaced(t.drop_first(), pat@, rep@)) == out@
                + replaced(t.drop_first(), pat@, rep@));
            i = i + 1;
        }
    }
    assert(v@.skip(n as int).len() == 0);
    assert(out@ + v@.skip(n as int) == out@);
    out
}

} // verus!

verus! {

/// The characters of `v` from index `from` to `to`, as a string.
pub fn string_between(v: &Vec<char>, from: usize, to: usize) -> (r: String)
    requires
        from <= to <= v@.len(),
    ensures
        r@ == v@.subrange(from as int, to as int),
{
    let mut r = String::new();
    let mut k = from;
    while k < to
        invariant
            from <= k <= to <= v@.len(),
            r@ == v@.subrange(from as int, k as int),
        decreases to - k,
    {
        push_char(&mut r, v[k]);
        assert(v@.subrange(from as int, k + 1) == v@.subrange(from as int, k as int).push(v@[k as int]));
        k = k + 1;
    }
    r
}

} // verus!

verus! {

/// The characters of an optional string.
pub open spec fn opt_view(o: Option<String>) -> Option<Seq<char>> {
    match o {
        Some(s) => Some(s@),
        None => None,
    }
}

} // verus!
