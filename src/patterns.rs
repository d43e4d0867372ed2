//! The line patterns: each recognises one construct in a trimmed line and
//! picks out its parts.
use vstd::prelude::*;
use crate::chars::{
    chars_to_string,    close_at, find_close, find_first_from, find_last_before, first_from, last_before, occurs,
    occurs_at, pos, slice_chars, str_to_chars,
};

verus! {

pub open spec fn opt_view(o: Option<Vec<char>>) -> Option<Seq<char>> {
    match o {
        Some(v) => Some(v@),
        None => None,
    }
}

fn lit(s: &str) -> (r: Vec<char>)
    ensures
        r@ == s@,
{
    str_to_chars(s)
}

fn tail(t: &Vec<char>, k: usize) -> (r: Vec<char>)
    requires
        k <= t.len(),
    ensures
        r@ == t@.subrange(k as int, t@.len() as int),
{
    slice_chars(t, k, t.len())
}

/// Number of ASCII digits that `t` starts with.
pub open spec fn digits(t: Seq<char>) -> nat
    decreases t.len(),
{
    if t.len() > 0 && '0' <= t[0] && t[0] <= '9' {
        1 + digits(t.drop_first())
    } else {
        0
    }
}

proof fn lemma_digits(t: Seq<char>, k: nat)
    requires
        k <= t.len(),
        forall|i: int| 0 <= i < k ==> '0' <= #[trigger] t[i] && t[i] <= '9',
        k == t.len() || !('0' <= t[k as int] && t[k as int] <= '9'),
    ensures
        digits(t) == k,
    decreases t.len(),
{
    if k > 0 {
        assert forall|i: int| 0 <= i < k - 1 implies '0' <= #[trigger] t.drop_first()[i]
            && t.drop_first()[i] <= '9' by {
            assert(t.drop_first()[i] == t[i + 1]);
        }
        if k < t.len() {
            assert(t.drop_first()[k - 1] == t[k as int]);
        }
        lemma_digits(t.drop_first(), (k - 1) as nat);
    }
}

/// An item of a bulleted list: `*`, `+` or `-`, a space, then the item's text.
pub open spec fn bullet_item(t: Seq<char>) -> Option<Seq<char>> {
    if t.len() > 2 && (t[0] == '*' || t[0] == '+' || t[0] == '-') && t[1] == ' ' {
        Some(t.subrange(2, t.len() as int))
    } else {
        None
    }
}

pub fn bullet_item_exec(t: &Vec<char>) -> (r: Option<Vec<char>>)
    ensures
        opt_view(r) == bullet_item(t@),
{
    if t.len() > 2 && (t[0] == '*' || t[0] == '+' || t[0] == '-') && t[1] == ' ' {
        Some(tail(t, 2))
    } else {
        None
    }
}

/// An item of a numbered list: digits, a period, a space, then the item's text.
pub open spec fn number_item(t: Seq<char>) -> Option<Seq<char>> {
    let k = digits(t) as int;
    if k >= 1 && t.len() > k + 2 && t[k] == '.' && t[k + 1] == ' ' {
        Some(t.subrange(k + 2, t.len() as int))
    } else {
        None
    }
}

pub fn number_item_exec(t: &Vec<char>) -> (r: Option<Vec<char>>)
    ensures
        opt_view(r) == number_item(t@),
{
    let mut k: usize = 0;
    while k < t.len() && '0' <= t[k] && t[k] <= '9'
        invariant
            k <= t.len(),
            forall|i: int| 0 <= i < k ==> '0' <= #[trigger] t@[i] && t@[i] <= '9',
        decreases t.len() - k,
    {
        k = k + 1;
    }
    proof {
        lemma_digits(t@, k as nat);
    }
    if k >= 1 && k < t.len() && t.len() - k > 2 && t[k] == '.' && t[k + 1] == ' ' {
        Some(tail(t, k + 2))
    } else {
        None
    }
}

/// A link to another page of the document, `[label](./path.md)`: the label
/// and the path without its extension.
pub open spec fn local_link(t: Seq<char>) -> Option<(Seq<char>, Seq<char>)> {
    let p = last_before(t, "](./"@, 2, t.len() - 8);
    if t.len() >= 9 && t[0] == '[' && occurs_at(t, "md)"@, t.len() - 3) && p >= 0 {
        Some((t.subrange(1, p), t.subrange(p + 4, t.len() - 4)))
    } else {
        None
    }
}

pub fn local_link_exec(t: &Vec<char>) -> (r: Option<(Vec<char>, Vec<char>)>)
    ensures
        match r {
            Some((a, b)) => local_link(t@) == Some((a@, b@)),
            None => local_link(t@) is None,
        },
{
    proof {
        reveal_strlit("](./");
    }
    if t.len() < 9 || t[0] != '[' || !occurs(t, &lit("md)"), t.len() - 3) {
        return None;
    }
    match find_last_before(t, &lit("](./"), 2, t.len() - 8) {
        Some(p) => Some((slice_chars(t, 1, p), slice_chars(t, p + 4, t.len() - 4))),
        None => None,
    }
}

/// A heading after its marker `m`: the label of an anchor `[]{#label}` that
/// opens it, up to the first `}`, and the rest as the heading's text.
pub open spec fn heading(t: Seq<char>, m: Seq<char>) -> Option<(Option<Seq<char>>, Seq<char>)> {
    if occurs_at(t, m, 0) {
        let r = t.subrange(m.len() as int, t.len() as int);
        let j = close_at(r, '}', 5);
        if occurs_at(r, "[]{#"@, 0) && j >= 0 {
            Some((Some(r.subrange(4, j)), r.subrange(j + 1, r.len() as int)))
        } else {
            Some((None, r))
        }
    } else {
        None
    }
}

pub fn heading_exec(t: &Vec<char>, m: &Vec<char>) -> (r: Option<(Option<Vec<char>>, Vec<char>)>)
    ensures
        match r {
            Some((l, h)) => heading(t@, m@) == Some((opt_view(l), h@)),
            None => heading(t@, m@) is None,
        },
{
    if !occurs(t, m, 0) {
        return None;
    }
    let r = tail(t, m.len());
    if occurs(&r, &lit("[]{#"), 0) {
        match find_close(&r, '}', 5) {
            Some(j) => {
                return Some((Some(slice_chars(&r, 4, j)), tail(&r, j + 1)));
            },
            None => {},
        }
    }
    Some((None, r))
}

/// A column of a table header: an optional format `<!--format-->` up to the
/// last `-->`, then the column's label.
pub open spec fn column(h: Seq<char>) -> (Option<Seq<char>>, Seq<char>) {
    let q = last_before(h, "-->"@, 5, h.len() as int);
    if occurs_at(h, "<!--"@, 0) && q >= 0 {
        (Some(h.subrange(4, q)), h.subrange(q + 3, h.len() as int))
    } else {
        (None, h)
    }
}

pub fn column_exec(h: &Vec<char>) -> (r: (Option<Vec<char>>, Vec<char>))
    ensures
        column(h@) == (opt_view(r.0), r.1@),
{
    proof {
        reveal_strlit("-->");
    }
    if occurs(h, &lit("<!--"), 0) {
        match find_last_before(h, &lit("-->"), 5, h.len()) {
            Some(q) => {
                return (Some(slice_chars(h, 4, q)), tail(h, q + 3));
            },
            None => {},
        }
    }
    (None, tail(h, 0))
}

/// A code fence with a language, a label and a caption:
/// ```` ```lang<!--label--><!--caption--> ````, each part as long as it can be.
pub open spec fn code_float(t: Seq<char>) -> Option<(Seq<char>, Seq<char>, Seq<char>)> {
    let s = first_from(t, "```"@, 0);
    let l = last_before(t, "-->"@, 0, t.len() as int);
    let b = last_before(t, "--><!--"@, 0, l - 7);
    let a = last_before(t, "<!--"@, s + 4, b - 4);
    if s >= 0 && l >= 0 && b >= 0 && a >= 0 {
        Some((t.subrange(s + 3, a), t.subrange(a + 4, b), t.subrange(b + 7, l)))
    } else {
        None
    }
}

pub fn code_float_exec(t: &Vec<char>) -> (r: Option<(Vec<char>, Vec<char>, Vec<char>)>)
    ensures
        match r {
            Some((a, b, c)) => code_float(t@) == Some((a@, b@, c@)),
            None => code_float(t@) is None,
        },
{
    proof {
        reveal_strlit("```");
        reveal_strlit("-->");
        reveal_strlit("--><!--");
        reveal_strlit("<!--");
    }
    let s = match find_first_from(t, &lit("```"), 0) {
        Some(s) => s,
        None => {
            return None;
        },
    };
    let l = match find_last_before(t, &lit("-->"), 0, t.len()) {
        Some(l) => l,
        None => {
            return None;
        },
    };
    let b = if l >= 7 {
        find_last_before(t, &lit("--><!--"), 0, l - 7)
    } else {
        None
    };
    let b = match b {
        Some(b) => b,
        None => {
            return None;
        },
    };
    let a = if b >= 4 && t.len() - s >= 4 {
        find_last_before(t, &lit("<!--"), s + 4, b - 4)
    } else {
        None
    };
    assert(pos(a) == last_before(t@, "<!--"@, s + 4, b - 4));
    match a {
        Some(a) => Some((slice_chars(t, s + 3, a), slice_chars(t, a + 4, b), slice_chars(t, b + 7, l))),
        None => None,
    }
}

/// A code fence with a language: ```` ``` ```` somewhere in the line, then the rest.
pub open spec fn code_here(t: Seq<char>) -> Option<Seq<char>> {
    let s = first_from(t, "```"@, 0);
    if s >= 0 && s + 3 < t.len() {
        Some(t.subrange(s + 3, t.len() as int))
    } else {
        None
    }
}

pub fn code_here_exec(t: &Vec<char>) -> (r: Option<Vec<char>>)
    ensures
        opt_view(r) == code_here(t@),
{
    proof {
        reveal_strlit("```");
    }
    match find_first_from(t, &lit("```"), 0) {
        Some(s) => {
            if t.len() - s > 3 {
                Some(tail(t, s + 3))
            } else {
                None
            }
        },
        None => None,
    }
}

/// A footnote's text: `[^mark]` then the text, the mark ending at the first `]`.
pub open spec fn footnote_body(t: Seq<char>) -> Option<(Seq<char>, Seq<char>)> {
    let j = close_at(t, ']', 3);
    if occurs_at(t, "[^"@, 0) && j >= 3 && j + 1 < t.len() {
        Some((t.subrange(2, j), t.subrange(j + 1, t.len() as int)))
    } else {
        None
    }
}

pub fn footnote_body_exec(t: &Vec<char>) -> (r: Option<(Vec<char>, Vec<char>)>)
    ensures
        match r {
            Some((a, b)) => footnote_body(t@) == Some((a@, b@)),
            None => footnote_body(t@) is None,
        },
{
    if !occurs(t, &lit("[^"), 0) {
        return None;
    }
    match find_close(t, ']', 3) {
        Some(j) => {
            if j + 1 < t.len() {
                Some((slice_chars(t, 2, j), tail(t, j + 1)))
            } else {
                None
            }
        },
        None => None,
    }
}

/// The label of a numbered equation's opening line, `$$<!--label-->`.
pub open spec fn num_equation(t: Seq<char>) -> Option<Seq<char>> {
    if occurs_at(t, "$$<!--"@, 0) && t.len() >= 10 && occurs_at(t, "-->"@, t.len() - 3) {
        Some(t.subrange(6, t.len() - 3))
    } else {
        None
    }
}

pub fn num_equation_exec(t: &Vec<char>) -> (r: Option<Vec<char>>)
    ensures
        opt_view(r) == num_equation(t@),
{
    if t.len() >= 10 && occurs(t, &lit("$$<!--"), 0) && occurs(t, &lit("-->"), t.len() - 3) {
        Some(slice_chars(t, 6, t.len() - 3))
    } else {
        None
    }
}

/// A line that is one comment, `<!-- ... -->`.
pub open spec fn line_comment(t: Seq<char>) -> bool {
    occurs_at(t, "<!--"@, 0) && t.len() >= 7 && occurs_at(t, "-->"@, t.len() - 3)
}

pub fn line_comment_exec(t: &Vec<char>) -> (r: bool)
    ensures
        r == line_comment(t@),
{
    t.len() >= 7 && occurs(t, &lit("<!--"), 0) && occurs(t, &lit("-->"), t.len() - 3)
}

pub open spec fn opt_str(o: Option<String>) -> Option<Seq<char>> {
    match o {
        Some(v) => Some(v@),
        None => None,
    }
}

fn opt_string(o: &Option<Vec<char>>) -> (r: Option<String>)
    ensures
        opt_str(r) == opt_view(*o),
{
    match o {
        Some(v) => Some(chars_to_string(v)),
        None => None,
    }
}

/// The parts of a heading line.
#[derive(Clone, Debug)]
pub struct Heading {
    pub label: Option<String>,
    pub head: String,
}

/// Reads `line` as a heading whose marker is `hashes` and a space.
pub fn heading_captures(line: &str, hashes: &str) -> (r: Option<Heading>)
    ensures
        match r {
            Some(h) => heading(line@, hashes@.push(' ')) == Some((opt_str(h.label), h.head@)),
            None => heading(line@, hashes@.push(' ')) is None,
        },
{
    let t = str_to_chars(line);
    let mut m = str_to_chars(hashes);
    m.push(' ');
    match heading_exec(&t, &m) {
        Some((l, h)) => Some(Heading { label: opt_string(&l), head: chars_to_string(&h) }),
        None => None,
    }
}

/// The parts of a column of a table header.
#[derive(Clone, Debug)]
pub struct TableColumn {
    pub desc: Option<String>,
    pub label: String,
}

/// Reads one column of a table header: every text is one, with or without a format.
pub fn table_column(h: &str) -> (r: TableColumn)
    ensures
        column(h@) == (opt_str(r.desc), r.label@),
{
    let t = str_to_chars(h);
    let (d, l) = column_exec(&t);
    TableColumn { desc: opt_string(&d), label: chars_to_string(&l) }
}

/// The parts of a link to another page.
#[derive(Clone, Debug)]
pub struct LocalLink {
    pub label: String,
    pub path: String,
}

/// Reads `t` as a link to another page, `[label](./path.md)`.
pub fn local_link_captures(t: &str) -> (r: Option<LocalLink>)
    ensures
        match r {
            Some(k) => local_link(t@) == Some((k.label@, k.path@)),
            None => local_link(t@) is None,
        },
{
    let v = str_to_chars(t);
    match local_link_exec(&v) {
        Some((a, b)) => Some(LocalLink { label: chars_to_string(&a), path: chars_to_string(&b) }),
        None => None,
    }
}

/// The parts of a footnote's text.
#[derive(Clone, Debug)]
pub struct Footnote {
    pub mark: String,
    pub body: String,
}

/// Reads `t` as a footnote's text, `[^mark]body`.
pub fn footnote_captures(t: &str) -> (r: Option<Footnote>)
    ensures
        match r {
            Some(k) => footnote_body(t@) == Some((k.mark@, k.body@)),
            None => footnote_body(t@) is None,
        },
{
    let v = str_to_chars(t);
    match footnote_body_exec(&v) {
        Some((a, b)) => Some(Footnote { mark: chars_to_string(&a), body: chars_to_string(&b) }),
        None => None,
    }
}

/// Reads `t` as the opening line of a numbered equation, `$$<!--label-->`.
pub fn equation_label(t: &str) -> (r: Option<String>)
    ensures
        opt_str(r) == num_equation(t@),
{
    let v = str_to_chars(t);
    let l = num_equation_exec(&v);
    opt_string(&l)
}

/// The parts of a code fence with a caption.
#[derive(Clone, Debug)]
pub struct CodeFloat {
    pub lang: String,
    pub label: String,
    pub caption: String,
}

/// Reads `t` as a code fence with a language, a label and a caption.
pub fn code_float_captures(t: &str) -> (r: Option<CodeFloat>)
    ensures
        match r {
            Some(k) => code_float(t@) == Some((k.lang@, k.label@, k.caption@)),
            None => code_float(t@) is None,
        },
{
    let v = str_to_chars(t);
    match code_float_exec(&v) {
        Some((a, b, c)) => Some(
            CodeFloat {
                lang: chars_to_string(&a),
                label: chars_to_string(&b),
                caption: chars_to_string(&c),
            },
        ),
        None => None,
    }
}

} // verus!
