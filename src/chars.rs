//! Character sequences: conversion from and to strings, whitespace,
//! trimming, searching and joining.
use vstd::prelude::*;

verus! {

/// Whether `c` has the Unicode `White_Space` property, as `char::is_whitespace` tests.
pub open spec fn is_ws(c: char) -> bool {
    let u = c as u32;
    (0x9 <= u && u <= 0xd) || u == 0x20 || u == 0x85 || u == 0xa0 || u == 0x1680 || (0x2000
        <= u && u <= 0x200a) || u == 0x2028 || u == 0x2029 || u == 0x202f || u == 0x205f || u
        == 0x3000
}

pub fn ws(c: char) -> (r: bool)
    ensures
        r == is_ws(c),
{
    let u = c as u32;
    (0x9 <= u && u <= 0xd) || u == 0x20 || u == 0x85 || u == 0xa0 || u == 0x1680 || (0x2000
        <= u && u <= 0x200a) || u == 0x2028 || u == 0x2029 || u == 0x202f || u == 0x205f || u
        == 0x3000
}

/// Number of whitespace characters that `t` starts with.
pub open spec fn lead(t: Seq<char>) -> nat
    decreases t.len(),
{
    if t.len() > 0 && is_ws(t[0]) {
        1 + lead(t.drop_first())
    } else {
        0
    }
}

/// Number of whitespace characters that `t` ends with.
pub open spec fn trail(t: Seq<char>) -> nat
    decreases t.len(),
{
    if t.len() > 0 && is_ws(t.last()) {
        1 + trail(t.drop_last())
    } else {
        0
    }
}

/// `t` without its leading and trailing whitespace, as `str::trim` gives it.
pub open spec fn trim(t: Seq<char>) -> Seq<char> {
    if lead(t) >= t.len() {
        Seq::empty()
    } else {
        t.subrange(lead(t) as int, t.len() - trail(t))
    }
}

proof fn lemma_lead_bound(t: Seq<char>)
    ensures
        lead(t) <= t.len(),
        forall|i: int| 0 <= i < lead(t) ==> is_ws(#[trigger] t[i]),
        lead(t) < t.len() ==> !is_ws(t[lead(t) as int]),
    decreases t.len(),
{
    if t.len() > 0 && is_ws(t[0]) {
        lemma_lead_bound(t.drop_first());
        assert forall|i: int| 0 <= i < lead(t) implies is_ws(#[trigger] t[i]) by {
            if i > 0 {
                assert(t[i] == t.drop_first()[i - 1]);
            }
        }
    }
}

proof fn lemma_lead_char(t: Seq<char>, k: nat)
    requires
        k <= t.len(),
        forall|i: int| 0 <= i < k ==> is_ws(#[trigger] t[i]),
        k == t.len() || !is_ws(t[k as int]),
    ensures
        lead(t) == k,
    decreases t.len(),
{
    if k > 0 {
        assert forall|i: int| 0 <= i < k - 1 implies is_ws(#[trigger] t.drop_first()[i]) by {
            assert(t.drop_first()[i] == t[i + 1]);
        }
        if k < t.len() {
            assert(t.drop_first()[k - 1] == t[k as int]);
        }
        lemma_lead_char(t.drop_first(), (k - 1) as nat);
    }
}

proof fn lemma_trail_char(t: Seq<char>, k: nat)
    requires
        k <= t.len(),
        forall|i: int| t.len() - k <= i < t.len() ==> is_ws(#[trigger] t[i]),
        k == t.len() || !is_ws(t[t.len() - k - 1]),
    ensures
        trail(t) == k,
    decreases t.len(),
{
    if k > 0 {
        let u = t.drop_last();
        assert forall|i: int| u.len() - (k - 1) <= i < u.len() implies is_ws(#[trigger] u[i]) by {
            assert(u[i] == t[i]);
        }
        if k < t.len() {
            assert(u[u.len() - (k - 1) - 1] == t[t.len() - k - 1]);
        }
        lemma_trail_char(u, (k - 1) as nat);
    }
}

/// The characters of `s`, in order.
pub fn str_to_chars(s: &str) -> (r: Vec<char>)
    ensures
        r@ == s@,
{
    let n = s.unicode_len();
    let mut r: Vec<char> = Vec::new();
    let mut i: usize = 0;
    while i < n
        invariant
            n == s@.len(),
            i <= n,
            r@ == s@.subrange(0, i as int),
        decreases n - i,
    {
        r.push(s.get_char(i));
        i = i + 1;
    }
    assert(r@ =~= s@);
    r
}

/// Relies on `FromIterator<char> for String` (`collect`): the string holds the
/// characters of `v` in order.
#[verifier::external_body]
pub(crate) fn chars_to_string(v: &Vec<char>) -> (r: String)
    ensures
        r@ == v@,
{
    v.iter().collect()
}

/// Number of leading whitespace characters of `t`.
pub fn lead_len(t: &Vec<char>) -> (r: usize)
    ensures
        r == lead(t@),
{
    let mut i: usize = 0;
    while i < t.len() && ws(t[i])
        invariant
            i <= t.len(),
            forall|j: int| 0 <= j < i ==> is_ws(#[trigger] t@[j]),
        decreases t.len() - i,
    {
        i = i + 1;
    }
    proof {
        lemma_lead_char(t@, i as nat);
    }
    i
}

/// `t` with leading and trailing whitespace removed.
pub fn trim_chars(t: &Vec<char>) -> (r: Vec<char>)
    ensures
        r@ == trim(t@),
        r@.len() <= t@.len(),
{
    let a = lead_len(t);
    if a >= t.len() {
        return Vec::new();
    }
    let mut b: usize = t.len();
    while b > a && ws(t[b - 1])
        invariant
            a < t.len(),
            a <= b <= t.len(),
            forall|j: int| b <= j < t.len() ==> is_ws(#[trigger] t@[j]),
        decreases b,
    {
        b = b - 1;
    }
    proof {
        lemma_lead_bound(t@);
        if b == a {
            assert(is_ws(t@[a as int]));
            assert(false);
        }
        lemma_trail_char(t@, (t.len() - b) as nat);
    }
    slice_chars(t, a, b)
}

/// The characters of `t` from `lo` up to `hi`.
pub fn slice_chars(t: &Vec<char>, lo: usize, hi: usize) -> (r: Vec<char>)
    requires
        lo <= hi <= t.len(),
    ensures
        r@ == t@.subrange(lo as int, hi as int),
{
    let mut r: Vec<char> = Vec::new();
    let mut i: usize = lo;
    while i < hi
        invariant
            lo <= i <= hi <= t.len(),
            r@ == t@.subrange(lo as int, i as int),
        decreases hi - i,
    {
        r.push(t[i]);
        i = i + 1;
    }
    r
}

/// Appends the characters of `s` to `out`.
pub fn push_str(out: &mut Vec<char>, s: &str)
    ensures
        final(out)@ == old(out)@ + s@,
{
    let n = s.unicode_len();
    let mut i: usize = 0;
    while i < n
        invariant
            n == s@.len(),
            i <= n,
            out@ == old(out)@ + s@.subrange(0, i as int),
        decreases n - i,
    {
        out.push(s.get_char(i));
        i = i + 1;
    }
    assert(s@.subrange(0, n as int) =~= s@);
}

/// Appends the characters of `s` to `out`.
pub fn push_chars(out: &mut Vec<char>, s: &Vec<char>)
    ensures
        final(out)@ == old(out)@ + s@,
{
    let mut i: usize = 0;
    while i < s.len()
        invariant
            i <= s.len(),
            out@ == old(out)@ + s@.subrange(0, i as int),
        decreases s.len() - i,
    {
        out.push(s[i]);
        i = i + 1;
    }
    assert(s@.subrange(0, s@.len() as int) =~= s@);
}

/// `r` read as a position: the index it holds, or -1 for none.
pub open spec fn pos(r: Option<usize>) -> int {
    match r {
        Some(j) => j as int,
        None => -1,
    }
}

/// Whether `p` occurs in `t` at index `i`.
pub open spec fn occurs_at(t: Seq<char>, p: Seq<char>, i: int) -> bool {
    0 <= i && i + p.len() <= t.len() && t.subrange(i, i + p.len()) == p
}

/// The first index from `k` on that holds a newline, or the length of `t`.
pub open spec fn line_end(t: Seq<char>, k: int) -> int
    decreases t.len() - k,
{
    if k < 0 || k >= t.len() {
        t.len() as int
    } else if t[k] == '\n' {
        k
    } else {
        line_end(t, k + 1)
    }
}

/// The largest index `j` with `lo <= j < hi` at which `p` occurs in `t`, or -1.
pub open spec fn last_before(t: Seq<char>, p: Seq<char>, lo: int, hi: int) -> int
    decreases hi - lo,
{
    if hi <= lo {
        -1
    } else if occurs_at(t, p, hi - 1) {
        hi - 1
    } else {
        last_before(t, p, lo, hi - 1)
    }
}

/// The first index `j >= k` with `t[j] == d`, where no newline comes first, or -1.
pub open spec fn close_at(t: Seq<char>, d: char, k: int) -> int
    decreases t.len() - k,
{
    if k < 0 || k >= t.len() {
        -1
    } else if t[k] == '\n' {
        -1
    } else if t[k] == d {
        k
    } else {
        close_at(t, d, k + 1)
    }
}

/// The first index `j >= k` at which `p` occurs in `t`, or -1.
pub open spec fn first_from(t: Seq<char>, p: Seq<char>, k: int) -> int
    decreases t.len() - k,
{
    if k < 0 || k >= t.len() {
        -1
    } else if occurs_at(t, p, k) {
        k
    } else {
        first_from(t, p, k + 1)
    }
}

/// Whether `p` occurs in `t` at index `i`.
pub fn occurs(t: &Vec<char>, p: &Vec<char>, i: usize) -> (r: bool)
    ensures
        r == occurs_at(t@, p@, i as int),
{
    if p.len() > t.len() || i > t.len() - p.len() {
        return false;
    }
    let mut k: usize = 0;
    while k < p.len()
        invariant
            i + p.len() <= t.len(),
            k <= p.len(),
            forall|m: int| 0 <= m < k ==> t@[i + m] == p@[m],
        decreases p.len() - k,
    {
        if t[i + k] != p[k] {
            assert(t@.subrange(i as int, i + p.len())[k as int] != p@[k as int]);
            return false;
        }
        k = k + 1;
    }
    assert(t@.subrange(i as int, i + p.len()) =~= p@);
    true
}

/// Whether `t` holds exactly the characters of `s`.
pub fn eq_str(t: &Vec<char>, s: &str) -> (r: bool)
    ensures
        r == (t@ == s@),
{
    let v = str_to_chars(s);
    if v.len() != t.len() {
        return false;
    }
    let r = occurs(t, &v, 0);
    proof {
        if r {
            assert(t@ =~= t@.subrange(0, t@.len() as int));
        } else {
            assert(t@.subrange(0, t@.len() as int) =~= t@);
        }
    }
    r
}

/// The first newline from `k` on, or the length of `t`.
pub fn find_line_end(t: &Vec<char>, k: usize) -> (r: usize)
    requires
        k <= t.len(),
    ensures
        r == line_end(t@, k as int),
        k <= r <= t.len(),
{
    let mut j: usize = k;
    while j < t.len() && t[j] != '\n'
        invariant
            k <= j <= t.len(),
            line_end(t@, j as int) == line_end(t@, k as int),
        decreases t.len() - j,
    {
        j = j + 1;
    }
    j
}

/// The last occurrence of `p` in `t` that starts in `[lo, hi)`.
pub fn find_last_before(t: &Vec<char>, p: &Vec<char>, lo: usize, hi: usize) -> (r: Option<usize>)
    ensures
        pos(r) == last_before(t@, p@, lo as int, hi as int),
        r matches Some(j) ==> lo <= j < hi && occurs_at(t@, p@, j as int),
{
    let mut h: usize = hi;
    while h > lo
        invariant
            last_before(t@, p@, lo as int, h as int) == last_before(t@, p@, lo as int, hi as int),
            h <= hi,
        decreases h,
    {
        if occurs(t, p, h - 1) {
            return Some(h - 1);
        }
        h = h - 1;
    }
    None
}

/// The first `d` from `k` on, where no newline comes first.
pub fn find_close(t: &Vec<char>, d: char, k: usize) -> (r: Option<usize>)
    requires
        d != '\n',
    ensures
        pos(r) == close_at(t@, d, k as int),
        r matches Some(j) ==> k <= j < t.len(),
{
    let mut j: usize = k;
    while j < t.len()
        invariant
            k <= j,
            close_at(t@, d, j as int) == close_at(t@, d, k as int),
        decreases t.len() - j,
    {
        if t[j] == '\n' {
            return None;
        }
        if t[j] == d {
            return Some(j);
        }
        j = j + 1;
    }
    None
}

/// The first occurrence of `p` in `t` from `k` on.
pub fn find_first_from(t: &Vec<char>, p: &Vec<char>, k: usize) -> (r: Option<usize>)
    ensures
        pos(r) == first_from(t@, p@, k as int),
        r matches Some(j) ==> k <= j < t.len() && occurs_at(t@, p@, j as int),
{
    let mut j: usize = k;
    while j < t.len()
        invariant
            k <= j,
            first_from(t@, p@, j as int) == first_from(t@, p@, k as int),
        decreases t.len() - j,
    {
        if occurs(t, p, j) {
            return Some(j);
        }
        j = j + 1;
    }
    None
}

/// The views of a sequence of character vectors.
pub open spec fn views(ps: Seq<Vec<char>>) -> Seq<Seq<char>> {
    ps.map_values(|v: Vec<char>| v@)
}

/// The pieces `ps` with `sep` between each two neighbours.
pub open spec fn join(ps: Seq<Seq<char>>, sep: Seq<char>) -> Seq<char>
    decreases ps.len(),
{
    if ps.len() == 0 {
        Seq::empty()
    } else if ps.len() == 1 {
        ps[0]
    } else {
        join(ps.drop_last(), sep) + sep + ps.last()
    }
}

/// The pieces of `t` between the occurrences of `c`, as `str::split` gives them.
pub open spec fn split_on(t: Seq<char>, c: char) -> Seq<Seq<char>>
    decreases t.len(),
{
    if t.len() == 0 {
        seq![Seq::empty()]
    } else {
        let r = split_on(t.drop_last(), c);
        if t.last() == c {
            r.push(Seq::empty())
        } else {
            r.update(r.len() - 1, r.last().push(t.last()))
        }
    }
}

/// The pieces of `t` between the occurrences of `c`, without a last piece that
/// is empty, as `str::split_terminator` gives them.
pub open spec fn split_terminator(t: Seq<char>, c: char) -> Seq<Seq<char>> {
    let r = split_on(t, c);
    if r.len() > 0 && r.last().len() == 0 {
        r.drop_last()
    } else {
        r
    }
}

/// Joins the pieces with `sep` between each two neighbours.
pub fn join_chars(ps: &Vec<Vec<char>>, sep: &str) -> (r: Vec<char>)
    ensures
        r@ == join(views(ps@), sep@),
{
    let mut out: Vec<char> = Vec::new();
    let mut i: usize = 0;
    while i < ps.len()
        invariant
            i <= ps.len(),
            out@ == join(views(ps@).take(i as int), sep@),
        decreases ps.len() - i,
    {
        let ghost vs = views(ps@);
        assert(vs.take(i + 1).drop_last() =~= vs.take(i as int));
        assert(vs.take(i + 1).last() == ps@[i as int]@);
        if i > 0 {
            push_str(&mut out, sep);
        }
        push_chars(&mut out, &ps[i]);
        proof {
            if i == 0 {
                assert(out@ =~= vs.take(1)[0]);
            }
        }
        i = i + 1;
    }
    assert(views(ps@).take(ps.len() as int) =~= views(ps@));
    out
}

/// Splits `t` at each `c`, dropping a last piece that is empty.
pub fn split_terminator_chars(t: &Vec<char>, c: char) -> (r: Vec<Vec<char>>)
    ensures
        views(r@) == split_terminator(t@, c),
{
    let mut pieces: Vec<Vec<char>> = Vec::new();
    let mut cur: Vec<char> = Vec::new();
    let mut i: usize = 0;
    assert(t@.take(0) =~= Seq::<char>::empty());
    assert(views(pieces@).push(cur@) =~= split_on(t@.take(0), c));
    while i < t.len()
        invariant
            i <= t.len(),
            views(pieces@).push(cur@) == split_on(t@.take(i as int), c),
        decreases t.len() - i,
    {
        assert(t@.take(i + 1).drop_last() =~= t@.take(i as int));
        assert(t@.take(i + 1).last() == t@[i as int]);
        if t[i] == c {
            pieces.push(cur);
            cur = Vec::new();
            assert(views(pieces@).push(cur@) =~= split_on(t@.take(i + 1), c));
        } else {
            cur.push(t[i]);
            assert(views(pieces@).push(cur@) =~= split_on(t@.take(i + 1), c));
        }
        i = i + 1;
    }
    assert(t@.take(t.len() as int) =~= t@);
    if cur.len() > 0 {
        pieces.push(cur);
        assert(views(pieces@) =~= split_terminator(t@, c));
    } else {
        assert(views(pieces@) =~= split_terminator(t@, c));
    }
    pieces
}

} // verus!
