//! The inline transformer: Markdown-style spans of one piece of text become
//! LaTeX commands, by a fixed sequence of passes.
use vstd::prelude::*;
use crate::chars::{
    chars_to_string, close_at, find_close, find_first_from, find_line_end, first_from, line_end,
    occurs, occurs_at, pos, push_chars, push_str, slice_chars, str_to_chars,
};

verus! {

/// Each `&` becomes `\&`.
pub open spec fn escape_amp(t: Seq<char>) -> Seq<char>
    decreases t.len(),
{
    if t.len() == 0 {
        Seq::empty()
    } else {
        escape_amp(t.drop_last()) + if t.last() == '&' {
            seq!['\\', '&']
        } else {
            seq![t.last()]
        }
    }
}

/// Where a comment that starts at `i` ends: the first `-->` from four
/// characters after `i` on, if it comes before the end of the line; -1 where
/// no comment starts at `i`.
pub open spec fn comment_end(t: Seq<char>, i: int) -> int {
    if occurs_at(t, "<!--"@, i) {
        let j = first_from(t, "-->"@, i + 4);
        if j >= 0 && j + 3 <= line_end(t, i + 4) {
            j
        } else {
            -1
        }
    } else {
        -1
    }
}

/// `t` from index `i` on, with each comment `<!-- ... -->` removed.
pub open spec fn strip_comments_from(t: Seq<char>, i: int) -> Seq<char>
    decreases t.len() - i,
{
    if i < 0 || i >= t.len() {
        Seq::empty()
    } else if comment_end(t, i) > i && comment_end(t, i) + 3 <= t.len() {
        strip_comments_from(t, comment_end(t, i) + 3)
    } else {
        seq![t[i]] + strip_comments_from(t, i + 1)
    }
}

/// Where a span that opens with `o` at `i` and closes with `d` ends: the first
/// `d` after at least one character of content on the same line; -1 where
/// there is none.
pub open spec fn span_end(t: Seq<char>, o: Seq<char>, d: char, i: int) -> int {
    if occurs_at(t, o, i) && i + o.len() < t.len() && t[i + o.len()] != '\n' {
        close_at(t, d, i + o.len() + 1)
    } else {
        -1
    }
}

/// `t` from index `i` on, with each shortest span `o ... d` replaced by
/// `pre`, the span's content, and `post`, from left to right.
pub open spec fn spans_from(
    t: Seq<char>,
    o: Seq<char>,
    d: char,
    pre: Seq<char>,
    post: Seq<char>,
    i: int,
) -> Seq<char>
    decreases t.len() - i,
{
    if i < 0 || i >= t.len() {
        Seq::empty()
    } else if span_end(t, o, d, i) > i && span_end(t, o, d, i) < t.len() {
        pre + t.subrange(i + o.len(), span_end(t, o, d, i)) + post + spans_from(
            t,
            o,
            d,
            pre,
            post,
            span_end(t, o, d, i) + 1,
        )
    } else {
        seq![t[i]] + spans_from(t, o, d, pre, post, i + 1)
    }
}

/// The `](` of a link `[text](target)` that opens at `i`: the first one
/// after at least one character of text, on the same line and followed by
/// one more character there; -1 where no link opens at `i`.
pub open spec fn link_mid(t: Seq<char>, i: int) -> int {
    if 0 <= i < t.len() && t[i] == '[' {
        let p = first_from(t, "]("@, i + 2);
        if p >= 0 && p + 2 < line_end(t, i + 1) {
            p
        } else {
            -1
        }
    } else {
        -1
    }
}

/// The `)` that ends a link opening at `i`: the first one after at least one
/// character of target, on the same line.
pub open spec fn link_close(t: Seq<char>, i: int) -> int {
    if link_mid(t, i) >= 0 {
        close_at(t, ')', link_mid(t, i) + 3)
    } else {
        -1
    }
}

/// `t` from index `i` on, with each link `[text](target)` replaced by
/// `text \url{target}`.
pub open spec fn links_from(t: Seq<char>, i: int) -> Seq<char>
    decreases t.len() - i,
{
    if i < 0 || i >= t.len() {
        Seq::empty()
    } else if link_mid(t, i) > i && link_close(t, i) > link_mid(t, i) && link_close(t, i) < t.len() {
        t.subrange(i + 1, link_mid(t, i)) + " \\url{"@ + t.subrange(
            link_mid(t, i) + 2,
            link_close(t, i),
        ) + "}"@ + links_from(t, link_close(t, i) + 1)
    } else {
        seq![t[i]] + links_from(t, i + 1)
    }
}

pub open spec fn spans(t: Seq<char>, o: Seq<char>, d: char, pre: Seq<char>, post: Seq<char>) -> Seq<
    char,
> {
    spans_from(t, o, d, pre, post, 0)
}

/// The passes in their order: `&`, comments, superscript, bold, monospace,
/// single quotes, double quotes, emphasis, links, footnote marks.
pub open spec fn inline_tex(t: Seq<char>) -> Seq<char> {
    let a = escape_amp(t);
    let b = strip_comments_from(a, 0);
    let c = spans(b, "^"@, '^', "\\textsuperscript{"@, "}"@);
    let d = spans(c, "*"@, '*', "\\textbf{"@, "}"@);
    let e = spans(d, "`"@, '`', "\\texttt{"@, "}"@);
    let f = spans(e, "'"@, '\'', "`"@, "'"@);
    let g = spans(f, "\""@, '"', "``"@, "''"@);
    let h = spans(g, "_"@, '_', "\\emph{"@, "}"@);
    let k = links_from(h, 0);
    spans(k, "[^"@, ']', "\\footnotemark["@, "]"@)
}

fn escape_amp_exec(t: &Vec<char>) -> (r: Vec<char>)
    ensures
        r@ == escape_amp(t@),
{
    let mut out: Vec<char> = Vec::new();
    let mut i: usize = 0;
    while i < t.len()
        invariant
            i <= t.len(),
            out@ == escape_amp(t@.subrange(0, i as int)),
        decreases t.len() - i,
    {
        assert(t@.subrange(0, i + 1).drop_last() =~= t@.subrange(0, i as int));
        if t[i] == '&' {
            out.push('\\');
            out.push('&');
            assert(out@ =~= escape_amp(t@.subrange(0, i + 1)));
        } else {
            out.push(t[i]);
            assert(out@ =~= escape_amp(t@.subrange(0, i + 1)));
        }
        i = i + 1;
    }
    assert(t@.subrange(0, t.len() as int) =~= t@);
    out
}

fn strip_comments_exec(t: &Vec<char>) -> (r: Vec<char>)
    ensures
        r@ == strip_comments_from(t@, 0),
{
    let open = str_to_chars("<!--");
    let close = str_to_chars("-->");
    let mut out: Vec<char> = Vec::new();
    let mut i: usize = 0;
    while i < t.len()
        invariant
            open@ == "<!--"@,
            close@ == "-->"@,
            out@ + strip_comments_from(t@, i as int) == strip_comments_from(t@, 0),
        decreases t.len() - i,
    {
        let mut end: Option<usize> = None;
        proof {
            reveal_strlit("<!--");
        }
        if occurs(t, &open, i) {
            let le = find_line_end(t, i + 4);
            match find_first_from(t, &close, i + 4) {
                Some(j) => {
                    if j <= le && le - j >= 3 {
                        end = Some(j);
                    }
                },
                None => {},
            }
        }
        assert(pos(end) == comment_end(t@, i as int));
        match end {
            Some(j) => {
                proof {
                    reveal_strlit("-->");
                }
                assert(j + 3 <= t.len());
                i = j + 3;
            },
            None => {
                out.push(t[i]);
                assert(out@ + strip_comments_from(t@, i + 1) =~= strip_comments_from(t@, 0));
                i = i + 1;
            },
        }
    }
    assert(out@ =~= strip_comments_from(t@, 0));
    out
}

fn spans_exec(t: &Vec<char>, o: &str, d: char, pre: &str, post: &str) -> (r: Vec<char>)
    requires
        d != '\n',
        o@.len() > 0,
    ensures
        r@ == spans(t@, o@, d, pre@, post@),
{
    let ov = str_to_chars(o);
    let ol = ov.len();
    let mut out: Vec<char> = Vec::new();
    let mut i: usize = 0;
    while i < t.len()
        invariant
            ov@ == o@,
            ol == o@.len(),
            ol > 0,
            d != '\n',
            out@ + spans_from(t@, o@, d, pre@, post@, i as int) == spans(t@, o@, d, pre@, post@),
        decreases t.len() - i,
    {
        let mut end: Option<usize> = None;
        if occurs(t, &ov, i) && i + ol < t.len() && t[i + ol] != '\n' {
            end = find_close(t, d, i + ol + 1);
        }
        assert(pos(end) == span_end(t@, o@, d, i as int));
        match end {
            Some(j) => {
                let inner = slice_chars(t, i + ol, j);
                let ghost before = out@;
                push_str(&mut out, pre);
                push_chars(&mut out, &inner);
                push_str(&mut out, post);
                assert(out@ == before + (pre@ + t@.subrange(i + ol, j as int) + post@));
                assert(out@ + spans_from(t@, o@, d, pre@, post@, j + 1) =~= before
                    + spans_from(t@, o@, d, pre@, post@, i as int));
                i = j + 1;
            },
            None => {
                out.push(t[i]);
                assert(out@ + spans_from(t@, o@, d, pre@, post@, i + 1) =~= spans(
                    t@,
                    o@,
                    d,
                    pre@,
                    post@,
                ));
                i = i + 1;
            },
        }
    }
    assert(out@ =~= spans(t@, o@, d, pre@, post@));
    out
}

fn links_exec(t: &Vec<char>) -> (r: Vec<char>)
    ensures
        r@ == links_from(t@, 0),
{
    let paren = str_to_chars(")");
    let mid = str_to_chars("](");
    let mut out: Vec<char> = Vec::new();
    let mut i: usize = 0;
    while i < t.len()
        invariant
            paren@ == ")"@,
            mid@ == "]("@,
            out@ + links_from(t@, i as int) == links_from(t@, 0),
        decreases t.len() - i,
    {
        let mut q: Option<usize> = None;
        let mut p: Option<usize> = None;
        if t[i] == '[' && t.len() - i >= 2 {
            let le = find_line_end(t, i + 1);
            match find_first_from(t, &mid, i + 2) {
                Some(pp) => {
                    if pp < le && le - pp > 2 {
                        p = Some(pp);
                        q = find_close(t, ')', pp + 3);
                    }
                },
                None => {},
            }
        }
        assert(pos(p) == link_mid(t@, i as int));
        assert(pos(q) == link_close(t@, i as int));
        if p.is_some() && q.is_some() && p.unwrap() > i && q.unwrap() > p.unwrap() {
            let pp = p.unwrap();
            let qq = q.unwrap();
            let text = slice_chars(t, i + 1, pp);
            let target = slice_chars(t, pp + 2, qq);
            let ghost before = out@;
            push_chars(&mut out, &text);
            push_str(&mut out, " \\url{");
            push_chars(&mut out, &target);
            push_str(&mut out, "}");
            assert(out@ + links_from(t@, qq + 1) =~= before + links_from(t@, i as int));
            i = qq + 1;
        } else {
            out.push(t[i]);
            assert(out@ + links_from(t@, i + 1) =~= links_from(t@, 0));
            i = i + 1;
        }
    }
    assert(out@ =~= links_from(t@, 0));
    out
}

/// Converts the Markdown spans of `t` to LaTeX.
pub fn inline_chars(t: &Vec<char>) -> (r: Vec<char>)
    ensures
        r@ == inline_tex(t@),
{
    proof {
        reveal_strlit("^");
        reveal_strlit("*");
        reveal_strlit("`");
        reveal_strlit("'");
        reveal_strlit("\"");
        reveal_strlit("_");
        reveal_strlit("[^");
    }
    let a = escape_amp_exec(t);
    let b = strip_comments_exec(&a);
    let c = spans_exec(&b, "^", '^', "\\textsuperscript{", "}");
    let d = spans_exec(&c, "*", '*', "\\textbf{", "}");
    let e = spans_exec(&d, "`", '`', "\\texttt{", "}");
    let f = spans_exec(&e, "'", '\'', "`", "'");
    let g = spans_exec(&f, "\"", '"', "``", "''");
    let h = spans_exec(&g, "_", '_', "\\emph{", "}");
    let k = links_exec(&h);
    spans_exec(&k, "[^", ']', "\\footnotemark[", "]")
}

/// Converts the Markdown spans of one line, or piece of a line, to LaTeX.
pub fn simple_string_process(line: &str) -> (r: String)
    ensures
        r@ == inline_tex(line@),
{
    let t = str_to_chars(line);
    let r = inline_chars(&t);
    chars_to_string(&r)
}

/// The content of the first span `o ... d` in `t` from index `i` on.
pub open spec fn first_span(t: Seq<char>, o: Seq<char>, d: char, i: int) -> Option<Seq<char>>
    decreases t.len() - i,
{
    if i < 0 || i >= t.len() {
        None
    } else if span_end(t, o, d, i) > i && span_end(t, o, d, i) < t.len() {
        Some(t.subrange(i + o.len(), span_end(t, o, d, i)))
    } else {
        first_span(t, o, d, i + 1)
    }
}

/// The mark of the first footnote reference `[^mark]` in `t`.
pub fn footnote_ref_mark(t: &str) -> (r: Option<String>)
    ensures
        match r {
            Some(m) => first_span(t@, "[^"@, ']', 0) == Some(m@),
            None => first_span(t@, "[^"@, ']', 0) is None,
        },
{
    proof {
        reveal_strlit("[^");
    }
    let v = str_to_chars(t);
    let o = str_to_chars("[^");
    let mut i: usize = 0;
    while i < v.len()
        invariant
            o@ == "[^"@,
            v@ == t@,
            first_span(v@, o@, ']', i as int) == first_span(v@, o@, ']', 0),
        decreases v.len() - i,
    {
        proof {
            reveal_strlit("[^");
        }
        if occurs(&v, &o, i) && i + 2 < v.len() && v[i + 2] != '\n' {
            match find_close(&v, ']', i + 3) {
                Some(j) => {
                    let m = slice_chars(&v, i + 2, j);
                    return Some(chars_to_string(&m));
                },
                None => {},
            }
        }
        i = i + 1;
    }
    None
}

} // verus!
