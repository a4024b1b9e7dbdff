use vstd::prelude::*;
use crate::json::joined;
use crate::text::{chars_of, push_char, string_of};

verus! {

// Paths are modelled as the text of a Unix path. Its meaning is its list of
// components, as `std::path::Path::components` yields them: the root `/`,
// a leading `.` (current directory), then the non-empty names between
// separators, where a `.` inside the path is dropped and `..` is kept.
// A component is written as its text, the root as `/`.

/// A name between separators that becomes a component: not empty and not `.`.
pub open spec fn keeps(s: Seq<char>) -> bool {
    s.len() > 0 && s != seq!['.']
}

/// `[s]` when `s` is kept, else nothing.
pub open spec fn emit(s: Seq<char>) -> Seq<Seq<char>> {
    if keeps(s) {
        seq![s]
    } else {
        Seq::empty()
    }
}

/// The components named in `p`, when the name being read so far is `cur`.
pub open spec fn body_components(p: Seq<char>, cur: Seq<char>) -> Seq<Seq<char>>
    decreases p.len(),
{
    if p.len() == 0 {
        emit(cur)
    } else if p[0] == '/' {
        emit(cur) + body_components(p.drop_first(), Seq::empty())
    } else {
        body_components(p.drop_first(), cur.push(p[0]))
    }
}

/// The root (`/`) or a leading current-directory (`.`) component of `p`.
pub open spec fn lead_component(p: Seq<char>) -> Seq<Seq<char>> {
    if p.len() > 0 && p[0] == '/' {
        seq![seq!['/']]
    } else if p.len() > 0 && p[0] == '.' && (p.len() == 1 || p[1] == '/') {
        seq![seq!['.']]
    } else {
        Seq::empty()
    }
}

/// The components of a path.
pub open spec fn components(p: Seq<char>) -> Seq<Seq<char>> {
    lead_component(p) + body_components(p, Seq::empty())
}

/// A path that starts at the root.
pub open spec fn is_absolute(p: Seq<char>) -> bool {
    p.len() > 0 && p[0] == '/'
}

/// `PathBuf::join`: an absolute `b` replaces `a`; otherwise `b` is appended
/// to `a`, with a separator between them when `a` is not empty and does not
/// end in one.
pub open spec fn path_join(a: Seq<char>, b: Seq<char>) -> Seq<char> {
    if is_absolute(b) {
        b
    } else if a.len() > 0 && a.last() != '/' {
        a.push('/') + b
    } else {
        a + b
    }
}

/// `xs` is the beginning of `ys`.
pub open spec fn is_prefix(xs: Seq<Seq<char>>, ys: Seq<Seq<char>>) -> bool {
    xs.len() <= ys.len() && ys.take(xs.len() as int) == xs
}

/// `Path::starts_with`: the components of `base` begin the components of `p`.
pub open spec fn path_starts_with(p: Seq<char>, base: Seq<char>) -> bool {
    is_prefix(components(base), components(p))
}

/// The components of `Path::parent`, or none where the path has no parent
/// (it is empty or the root).
pub open spec fn parent_components(cs: Seq<Seq<char>>) -> Seq<Seq<char>> {
    if cs.len() > 0 && cs.last() != seq!['/'] {
        cs.drop_last()
    } else {
        Seq::empty()
    }
}

/// The text of a path with the given components.
pub open spec fn render(cs: Seq<Seq<char>>) -> Seq<char> {
    if cs.len() > 0 && cs[0] == seq!['/'] {
        seq!['/'] + joined(cs.skip(1), '/')
    } else {
        joined(cs, '/')
    }
}

/// A name component: kept, and holding no separator.
pub open spec fn is_name(s: Seq<char>) -> bool {
    keeps(s) && !s.contains('/')
}

/// A list of components as `components` yields them.
pub open spec fn well_formed(cs: Seq<Seq<char>>) -> bool {
    let start: int = if cs.len() > 0 && (cs[0] == seq!['/'] || cs[0] == seq!['.']) {
        1
    } else {
        0
    };
    forall|k: int| start <= k < cs.len() ==> is_name(#[trigger] cs[k])
}

// ---------------------------------------------------------------------------
// Lemmas
// ---------------------------------------------------------------------------

/// A separator splits the components: those before it, then those after it.
pub proof fn lemma_body_split(x: Seq<char>, y: Seq<char>, cur: Seq<char>)
    ensures
        body_components(x + seq!['/'] + y, cur) == body_components(x, cur) + body_components(
            y,
            Seq::empty(),
        ),
    decreases x.len(),
{
    let p = x + seq!['/'] + y;
    if x.len() == 0 {
        assert(p[0] == '/');
        assert(p.drop_first() == y);
    } else {
        assert(p[0] == x[0]);
        assert(p.drop_first() == x.drop_first() + seq!['/'] + y);
        if x[0] == '/' {
            lemma_body_split(x.drop_first(), y, Seq::empty());
        } else {
            lemma_body_split(x.drop_first(), y, cur.push(x[0]));
        }
    }
}

/// Text without a separator adds to the name being read.
pub proof fn lemma_body_no_sep(y: Seq<char>, cur: Seq<char>)
    requires
        !y.contains('/'),
    ensures
        body_components(y, cur) == emit(cur + y),
    decreases y.len(),
{
    if y.len() == 0 {
        assert(cur + y == cur);
    } else {
        assert(y[0] != '/') by {
            if y[0] == '/' {
                assert(y.contains('/'));
            }
        }
        assert(!y.drop_first().contains('/')) by {
            if y.drop_first().contains('/') {
                let k = choose|k: int| 0 <= k < y.drop_first().len() && y.drop_first()[k] == '/';
                assert(y[k + 1] == '/');
            }
        }
        lemma_body_no_sep(y.drop_first(), cur.push(y[0]));
        assert(cur.push(y[0]) + y.drop_first() == cur + y);
    }
}

/// Every component read from the body is a name.
pub proof fn lemma_body_names(p: Seq<char>, cur: Seq<char>)
    requires
        !cur.contains('/'),
    ensures
        forall|k: int|
            0 <= k < body_components(p, cur).len() ==> is_name(#[trigger] body_components(p, cur)[k]),
    decreases p.len(),
{
    let b = body_components(p, cur);
    if p.len() == 0 {
        assert(b == emit(cur));
        assert forall|k: int| 0 <= k < b.len() implies is_name(#[trigger] b[k]) by {
            assert(b[k] == cur);
        }
    } else if p[0] == '/' {
        let rest = body_components(p.drop_first(), Seq::empty());
        let e: Seq<char> = Seq::empty();
        assert(!e.contains('/'));
        lemma_body_names(p.drop_first(), e);
        assert(b == emit(cur) + rest);
        assert forall|k: int| 0 <= k < b.len() implies is_name(#[trigger] b[k]) by {
            if k < emit(cur).len() {
                assert(b[k] == cur);
            } else {
                assert(b[k] == rest[k - emit(cur).len()]);
            }
        }
    } else {
        assert(!cur.push(p[0]).contains('/')) by {
            if cur.push(p[0]).contains('/') {
                let k = choose|k: int| 0 <= k < cur.push(p[0]).len() && cur.push(p[0])[k] == '/';
                if k < cur.len() {
                    assert(cur[k] == '/');
                    assert(cur.contains('/'));
                }
            }
        }
        lemma_body_names(p.drop_first(), cur.push(p[0]));
        assert(b == body_components(p.drop_first(), cur.push(p[0])));
    }
}

/// `components` yields a well-formed list.
pub proof fn lemma_components_well_formed(p: Seq<char>)
    ensures
        well_formed(components(p)),
{
    let e: Seq<char> = Seq::empty();
    assert(!e.contains('/'));
    lemma_body_names(p, e);
    let cs = components(p);
    let b = body_components(p, e);
    let l = lead_component(p);
    if l.len() == 0 {
        assert(cs == b);
    } else {
        assert(cs[0] == l[0]);
        assert forall|k: int| 1 <= k < cs.len() implies is_name(#[trigger] cs[k]) by {
            assert(cs[k] == b[k - 1]);
        }
    }
}

/// The first element of a joined list, then the rest.
pub proof fn lemma_joined_cons(x: Seq<char>, ys: Seq<Seq<char>>, sep: char)
    ensures
        joined(seq![x] + ys, sep) == if ys.len() == 0 {
            x
        } else {
            x.push(sep) + joined(ys, sep)
        },
    decreases ys.len(),
{
    let xs = seq![x] + ys;
    if ys.len() == 0 {
        assert(xs.len() == 1);
        assert(xs[0] == x);
    } else if ys.len() == 1 {
        assert(xs.drop_last() == seq![x]);
        assert(joined(seq![x], sep) == x);
        assert(xs.last() == ys[0]);
        assert(joined(ys, sep) == ys[0]);
    } else {
        assert(xs.drop_last() == seq![x] + ys.drop_last());
        lemma_joined_cons(x, ys.drop_last(), sep);
        assert(xs.last() == ys.last());
        let j = joined(ys.drop_last(), sep);
        assert(joined(ys, sep) == j.push(sep) + ys.last());
        assert((x.push(sep) + j).push(sep) + ys.last() == x.push(sep) + (j.push(sep) + ys.last()));
    }
}

/// Reading the joined names gives the names back.
pub proof fn lemma_body_joined(xs: Seq<Seq<char>>)
    requires
        forall|k: int| 0 <= k < xs.len() ==> is_name(#[trigger] xs[k]),
    ensures
        body_components(joined(xs, '/'), Seq::empty()) == xs,
    decreases xs.len(),
{
    let e: Seq<char> = Seq::empty();
    if xs.len() == 0 {
    } else if xs.len() == 1 {
        assert(is_name(xs[0]));
        lemma_body_no_sep(xs[0], e);
        assert(e + xs[0] == xs[0]);
    } else {
        let init = xs.drop_last();
        assert forall|k: int| 0 <= k < init.len() implies is_name(#[trigger] init[k]) by {
            assert(init[k] == xs[k]);
        }
        lemma_body_joined(init);
        let j = joined(init, '/');
        assert(joined(xs, '/') == j + seq!['/'] + xs.last());
        lemma_body_split(j, xs.last(), e);
        assert(is_name(xs[xs.len() - 1]));
        lemma_body_no_sep(xs.last(), e);
        assert(e + xs.last() == xs.last());
        assert(init.push(xs.last()) == xs);
    }
}

/// The first characters of a joined list are those of its first element.
proof fn lemma_joined_starts(xs: Seq<Seq<char>>, sep: char)
    requires
        xs.len() > 0,
    ensures
        joined(xs, sep).len() >= xs[0].len(),
        forall|k: int| 0 <= k < xs[0].len() ==> joined(xs, sep)[k] == xs[0][k],
        xs.len() > 1 ==> joined(xs, sep).len() > xs[0].len() && joined(xs, sep)[xs[0].len() as int]
            == sep,
{
    lemma_joined_cons(xs[0], xs.skip(1), sep);
    assert(seq![xs[0]] + xs.skip(1) == xs);
}

proof fn lemma_body_dot()
    ensures
        body_components(seq!['.'], Seq::empty()) == Seq::<Seq<char>>::empty(),
{
    let e: Seq<char> = Seq::empty();
    let d = seq!['.'];
    assert(d.drop_first() == e);
    assert(body_components(e, e.push('.')) == emit(e.push('.')));
    assert(e.push('.') == d);
}

/// Rendering a well-formed list of components and reading it back gives the list.
pub proof fn lemma_render_components(cs: Seq<Seq<char>>)
    requires
        well_formed(cs),
    ensures
        components(render(cs)) == cs,
{
    let e: Seq<char> = Seq::empty();
    if cs.len() == 0 {
        assert(render(cs).len() == 0);
    } else if cs[0] == seq!['/'] {
        let rest = cs.skip(1);
        assert forall|k: int| 0 <= k < rest.len() implies is_name(#[trigger] rest[k]) by {
            assert(rest[k] == cs[k + 1]);
        }
        lemma_body_joined(rest);
        let j = joined(rest, '/');
        let p = seq!['/'] + j;
        assert(p == e + seq!['/'] + j);
        lemma_body_split(e, j, e);
        assert(lead_component(p) == seq![seq!['/']]);
        assert(seq![seq!['/']] + rest == cs);
    } else if cs[0] == seq!['.'] {
        let rest = cs.skip(1);
        assert forall|k: int| 0 <= k < rest.len() implies is_name(#[trigger] rest[k]) by {
            assert(rest[k] == cs[k + 1]);
        }
        lemma_joined_cons(cs[0], rest, '/');
        assert(seq![cs[0]] + rest == cs);
        let p = joined(cs, '/');
        if rest.len() == 0 {
            assert(p == seq!['.']);
            lemma_body_dot();
            assert(e.push('.') == seq!['.']);
            assert(cs == seq![seq!['.']]);
        } else {
            lemma_body_joined(rest);
            let j = joined(rest, '/');
            assert(p == seq!['.'] + seq!['/'] + j);
            lemma_body_split(seq!['.'], j, e);
            lemma_body_dot();
            assert(e.push('.') == seq!['.']);
            assert(p[0] == '.' && p[1] == '/');
            assert(lead_component(p) == seq![seq!['.']]);
            assert(seq![seq!['.']] + rest == cs);
        }
    } else {
        assert forall|k: int| 0 <= k < cs.len() implies is_name(#[trigger] cs[k]) by {}
        lemma_body_joined(cs);
        let p = joined(cs, '/');
        lemma_joined_starts(cs, '/');
        let c0 = cs[0];
        assert(is_name(c0));
        assert(c0[0] != '/') by {
            assert(c0.contains('/') ==> false);
            if c0[0] == '/' {
                assert(c0.contains('/'));
            }
        }
        assert(p[0] == c0[0]);
        if p[0] == '.' {
            if c0.len() == 1 {
                assert(c0 == seq!['.']);
            } else {
                assert(p[1] == c0[1]);
                assert(c0[1] != '/') by {
                    if c0[1] == '/' {
                        assert(c0.contains('/'));
                    }
                }
            }
        }
        assert(lead_component(p) == Seq::<Seq<char>>::empty());
        assert(Seq::<Seq<char>>::empty() + cs == cs);
    }
}

/// The lead component of `a` followed by more text is that of `a`.
proof fn lemma_lead_extend(a: Seq<char>, rest: Seq<char>)
    requires
        a.len() > 0,
        a.last() == '/' || (rest.len() > 0 && rest[0] == '/'),
    ensures
        lead_component(a + rest) == lead_component(a),
{
    let p = a + rest;
    assert(p[0] == a[0]);
    if a.len() >= 2 {
        assert(p[1] == a[1]);
    } else {
        if rest.len() > 0 {
            assert(p[1] == rest[0]);
        }
    }
}

/// Joining a relative path appends its names to the components of the base.
pub proof fn lemma_join_components(a: Seq<char>, b: Seq<char>)
    requires
        a.len() > 0,
        !is_absolute(b),
    ensures
        components(path_join(a, b)) == components(a) + body_components(b, Seq::empty()),
{
    let e: Seq<char> = Seq::empty();
    if a.last() != '/' {
        let p = a.push('/') + b;
        assert(p == a + seq!['/'] + b);
        lemma_body_split(a, b, e);
        lemma_lead_extend(a, seq!['/'] + b);
        assert(a + (seq!['/'] + b) == p);
    } else {
        let a0 = a.drop_last();
        assert(a == a0 + seq!['/'] + e);
        assert(a + b == a0 + seq!['/'] + b);
        lemma_body_split(a0, b, e);
        lemma_body_split(a0, e, e);
        assert(body_components(e, e) == Seq::<Seq<char>>::empty());
        lemma_lead_extend(a, b);
    }
}

/// Joining a relative path keeps the base at its start.
pub proof fn lemma_join_starts_with_base(a: Seq<char>, b: Seq<char>)
    requires
        !is_absolute(b),
    ensures
        path_starts_with(path_join(a, b), a),
{
    if a.len() == 0 {
        assert(components(a) == Seq::<Seq<char>>::empty()) by {
            assert(body_components(a, Seq::empty()) == Seq::<Seq<char>>::empty());
        }
        assert(components(path_join(a, b)).take(0) == Seq::<Seq<char>>::empty());
    } else {
        lemma_join_components(a, b);
        let ca = components(a);
        assert((ca + body_components(b, Seq::empty())).take(ca.len() as int) == ca);
    }
}

/// A path that starts with `q`, where `q` starts with `r`, starts with `r`.
pub proof fn lemma_starts_with_trans(p: Seq<char>, q: Seq<char>, r: Seq<char>)
    requires
        path_starts_with(p, q),
        path_starts_with(q, r),
    ensures
        path_starts_with(p, r),
{
    let cp = components(p);
    let cq = components(q);
    let cr = components(r);
    assert(cp.take(cr.len() as int) == cq.take(cr.len() as int));
}

/// A name that stays one component below the directory it is joined to:
/// a name that is not `..`.
pub open spec fn is_plain_name(s: Seq<char>) -> bool {
    is_name(s) && s != seq!['.', '.']
}

/// Whether `s` is a plain name.
pub fn plain_name(s: &str) -> (r: bool)
    ensures
        r == is_plain_name(s@),
{
    let v = chars_of(s);
    let n = v.len();
    if n == 0 {
        return false;
    }
    if n == 1 && v[0] == '.' {
        assert(v@ == seq!['.']);
        return false;
    }
    if n == 2 && v[0] == '.' && v[1] == '.' {
        assert(v@ == seq!['.', '.']);
        return false;
    }
    for i in 0..n
        invariant
            n == v@.len(),
            v@ == s@,
            forall|k: int| 0 <= k < i ==> v@[k] != '/',
    {
        if v[i] == '/' {
            assert(v@.contains('/'));
            return false;
        }
    }
    assert(!v@.contains('/'));
    assert(v@ != seq!['.']) by {
        if n == 1 {
            assert(v@[0] != seq!['.'][0]);
        }
    }
    assert(v@ != seq!['.', '.']) by {
        if n == 2 {
            assert(v@[0] != '.' || v@[1] != '.');
            if v@[0] != '.' {
                assert(v@[0] != seq!['.', '.'][0]);
            } else {
                assert(v@[1] != seq!['.', '.'][1]);
            }
        }
    }
    true
}

/// The last component of a path, or nothing where it has none.
pub open spec fn last_name(p: Seq<char>) -> Seq<char> {
    let cs = components(p);
    if cs.len() > 0 {
        cs.last()
    } else {
        Seq::empty()
    }
}

/// A path starts with its parent.
pub proof fn lemma_parent_is_prefix(p: Seq<char>)
    ensures
        is_prefix(parent_components(components(p)), components(p)),
{
    let cs = components(p);
    let pc = parent_components(cs);
    assert(cs.take(pc.len() as int) == pc);
}

// ---------------------------------------------------------------------------
// Executable path operations
// ---------------------------------------------------------------------------

proof fn lemma_deep_chars(v: Vec<char>)
    ensures
        v.deep_view() == v@,
{
    assert(v.deep_view() =~= v@);
}

proof fn lemma_deep_at(cs: Vec<Vec<char>>, i: int)
    requires
        0 <= i < cs@.len(),
    ensures
        cs.deep_view()[i] == cs@[i]@,
{
    lemma_deep_chars(cs@[i]);
}

fn single(c: char) -> (v: Vec<char>)
    ensures
        v@ == seq![c],
{
    let mut v = Vec::new();
    v.push(c);
    assert(v@ == seq![c]);
    v
}

fn push_component(out: &mut Vec<Vec<char>>, c: Vec<char>)
    ensures
        final(out).deep_view() == old(out).deep_view().push(c@),
{
    let ghost before = out.deep_view();
    proof {
        lemma_deep_chars(c);
    }
    out.push(c);
    assert(out.deep_view() =~= before.push(c@));
}

fn keeps_exec(cur: &Vec<char>) -> (r: bool)
    ensures
        r == keeps(cur@),
{
    if cur.len() == 0 {
        false
    } else if cur.len() == 1 && cur[0] == '.' {
        assert(cur@ == seq!['.']);
        false
    } else {
        assert(cur@ != seq!['.']) by {
            if cur.len() == 1 {
                assert(cur@[0] != seq!['.'][0]);
            }
        }
        true
    }
}

/// The components of a path, each as its characters.
pub fn components_of(p: &str) -> (r: Vec<Vec<char>>)
    ensures
        r.deep_view() == components(p@),
{
    let v = chars_of(p);
    let n = v.len();
    let mut out: Vec<Vec<char>> = Vec::new();
    assert(out.deep_view() =~= Seq::<Seq<char>>::empty());
    if n > 0 && v[0] == '/' {
        push_component(&mut out, single('/'));
    } else if n > 0 && v[0] == '.' && (n == 1 || v[1] == '/') {
        push_component(&mut out, single('.'));
    }
    assert(out.deep_view() == lead_component(v@));
    let mut cur: Vec<char> = Vec::new();
    let mut i: usize = 0;
    assert(v@.skip(0) == v@);
    while i < n
        invariant
            n == v@.len(),
            v@ == p@,
            i <= n,
            out.deep_view() + body_components(v@.skip(i as int), cur@) == components(v@),
        decreases n - i,
    {
        let ghost s = v@.skip(i as int);
        assert(s[0] == v@[i as int]);
        assert(s.drop_first() == v@.skip(i + 1));
        let ghost before = out.deep_view();
        if v[i] == '/' {
            if keeps_exec(&cur) {
                push_component(&mut out, cur);
            }
            cur = Vec::new();
            assert(cur@ == Seq::<char>::empty());
        } else {
            cur.push(v[i]);
        }
        i = i + 1;
    }
    assert(v@.skip(n as int).len() == 0);
    let ghost before = out.deep_view();
    if keeps_exec(&cur) {
        push_component(&mut out, cur);
    }
    assert(out.deep_view() == before + emit(cur@));
    out
}

fn chars_equal(a: &Vec<char>, b: &Vec<char>) -> (r: bool)
    ensures
        r == (a@ == b@),
{
    if a.len() != b.len() {
        return false;
    }
    let n = a.len();
    for i in 0..n
        invariant
            n == a@.len(),
            n == b@.len(),
            forall|k: int| 0 <= k < i ==> a@[k] == b@[k],
    {
        if a[i] != b[i] {
            return false;
        }
    }
    assert(a@ == b@);
    true
}

/// `Path::starts_with`: whether the components of `base` begin those of `p`.
pub fn starts_with(p: &str, base: &str) -> (r: bool)
    ensures
        r == path_starts_with(p@, base@),
{
    let cp = components_of(p);
    let cb = components_of(base);
    let ghost dp = cp.deep_view();
    let ghost db = cb.deep_view();
    assert(dp.len() == cp@.len() && db.len() == cb@.len());
    if cb.len() > cp.len() {
        return false;
    }
    let n = cb.len();
    for i in 0..n
        invariant
            n == cb@.len(),
            n <= cp@.len(),
            dp == cp.deep_view(),
            db == cb.deep_view(),
            dp.len() == cp@.len(),
            db.len() == n,
            dp == components(p@),
            db == components(base@),
            forall|k: int| 0 <= k < i ==> dp[k] == db[k],
    {
        proof {
            lemma_deep_at(cp, i as int);
            lemma_deep_at(cb, i as int);
        }
        if !chars_equal(&cp[i], &cb[i]) {
            assert(dp.take(n as int)[i as int] != db[i as int]);
            return false;
        }
    }
    assert(dp.take(n as int) == db);
    true
}

/// `PathBuf::join` on Unix.
pub fn join_path(a: &str, b: &str) -> (r: String)
    ensures
        r@ == path_join(a@, b@),
{
    let va = chars_of(a);
    let vb = chars_of(b);
    if vb.len() > 0 && vb[0] == '/' {
        return string_of(vb.as_slice());
    }
    let mut r = string_of(va.as_slice());
    if va.len() > 0 && va[va.len() - 1] != '/' {
        push_char(&mut r, '/');
    }
    r.append(b);
    r
}

/// The text of a path with the given components: `/` for the root, then
/// the other components separated by `/`.
pub fn render_components(cs: &Vec<Vec<char>>) -> (r: String)
    ensures
        r@ == render(cs.deep_view()),
{
    let ghost d = cs.deep_view();
    let mut r = String::new();
    let n = cs.len();
    let mut start: usize = 0;
    if n > 0 {
        proof {
            lemma_deep_at(*cs, 0);
        }
    }
    if n > 0 && chars_equal(&cs[0], &single('/')) {
        push_char(&mut r, '/');
        start = 1;
    }
    let ghost prefix = r@;
    let ghost rest = d.skip(start as int);
    for i in start..n
        invariant
            n == cs@.len(),
            d == cs.deep_view(),
            start <= n,
            rest == d.skip(start as int),
            r@ == prefix + joined(rest.take(i - start), '/'),
    {
        proof {
            lemma_deep_at(*cs, i as int);
            assert(rest.take(i - start + 1).drop_last() == rest.take(i - start));
            assert(rest.take(i - start + 1).last() == cs@[i as int]@);
        }
        if i > start {
            push_char(&mut r, '/');
        }
        let piece = string_of(cs[i].as_slice());
        r.append(piece.as_str());
        assert(r@ == prefix + joined(rest.take(i + 1 - start), '/'));
    }
    assert(rest.take(n - start) == rest);
    if start == 0 {
        assert(d.skip(0) == d);
        assert(prefix.len() == 0);
        assert(r@ == joined(d, '/'));
        assert(!(d.len() > 0 && d[0] == seq!['/']));
    }
    r
}

/// The last component of a path, or the empty string where it has none.
pub fn last_component(p: &str) -> (r: String)
    ensures
        r@ == last_name(p@),
{
    let cs = components_of(p);
    let n = cs.len();
    if n > 0 {
        proof {
            lemma_deep_at(cs, n - 1);
        }
        string_of(cs[n - 1].as_slice())
    } else {
        String::new()
    }
}

/// The parent of a path as `Path::parent` gives it, written from its
/// components, or the empty path where there is none.
pub fn parent_or_empty(p: &str) -> (r: String)
    ensures
        components(r@) == parent_components(components(p@)),
{
    let mut cs = components_of(p);
    let ghost d = cs.deep_view();
    proof {
        lemma_components_well_formed(p@);
    }
    let n = cs.len();
    if n > 0 {
        proof {
            lemma_deep_at(cs, n - 1);
        }
    }
    if n > 0 && !chars_equal(&cs[n - 1], &single('/')) {
        cs.pop();
        assert(cs.deep_view() == d.drop_last());
        proof {
            assert forall|k: int| 0 <= k < d.len() - 1 implies d.drop_last()[k] == d[k] by {}
            lemma_render_components(d.drop_last());
        }
        render_components(&cs)
    } else {
        let r = String::new();
        assert(components(r@) == Seq::<Seq<char>>::empty()) by {
            assert(body_components(r@, Seq::empty()) == Seq::<Seq<char>>::empty());
        }
        r
    }
}

} // verus!
