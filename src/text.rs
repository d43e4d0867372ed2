//! The handler of the default state, which opens every block.
use vstd::prelude::*;
use crate::chars::{
    eq_str, join, join_chars, lead, lead_len, push_chars, push_str, slice_chars, split_terminator,
    split_terminator_chars, trim, trim_chars, views,
};
use crate::inline::{inline_chars, inline_tex};
use crate::patterns::{
    bullet_item, bullet_item_exec, code_float, code_float_exec, code_here, code_here_exec, column,
    column_exec, footnote_body, footnote_body_exec, heading, heading_exec, line_comment,
    line_comment_exec, local_link, local_link_exec, num_equation, num_equation_exec, number_item,
    number_item_exec,
};
use crate::stack::stack_of;
use crate::state::{
    begin_env, ends_with_bar, item_line, item_line_exec, list_view, lit, make_list, outcome_of,
    starts_with, starts_with_exec, with_newline, ConvertError, Outcome, State, StateView,
};

verus! {

/// A sectioning command `cmd` around the heading's text, then a label
/// command where the heading carries an anchor.
pub open spec fn heading_line(cmd: Seq<char>, h: (Option<Seq<char>>, Seq<char>)) -> Seq<char> {
    cmd + h.1 + "}"@ + match h.0 {
        Some(l) => "\\label{"@ + l + "}"@,
        None => Seq::empty(),
    } + "\n"@
}

/// The format of a column: its own, trimmed, or `c` where it has none.
pub open spec fn column_format(c: (Option<Seq<char>>, Seq<char>)) -> Seq<char> {
    match c.0 {
        Some(d) => trim(d),
        None => "c"@,
    }
}

pub open spec fn column_title(c: (Option<Seq<char>>, Seq<char>)) -> Seq<char> {
    "\\textbf{"@ + trim(c.1) + "}"@
}

pub open spec fn header_columns(t: Seq<char>) -> Seq<(Option<Seq<char>>, Seq<char>)> {
    split_terminator(t.subrange(1, t.len() as int), '|').map_values(|c: Seq<char>| column(trim(c)))
}

/// The opening of a table from its header line `t`.
pub open spec fn table_open(t: Seq<char>) -> Seq<char> {
    "\\begin{table}\n\\begin{tabular}{"@ + join(
        header_columns(t).map_values(|c: (Option<Seq<char>>, Seq<char>)| column_format(c)),
        " "@,
    ) + "}\n\\toprule\n"@ + join(
        header_columns(t).map_values(|c: (Option<Seq<char>>, Seq<char>)| column_title(c)),
        " & "@,
    ) + " \\\\\n"@
}

pub open spec fn listing_float(lang: Seq<char>, label: Seq<char>, caption: Seq<char>) -> Seq<
    char,
> {
    "\\begin{lstlisting}[\n\tstyle="@ + trim(lang) + ",\n\tlanguage="@ + trim(lang)
        + ",\n\tlabel="@ + trim(label) + ",\n\tcaption={"@ + trim(caption) + "},\n\tfloat]\n"@
}

pub open spec fn listing_here(lang: Seq<char>) -> Seq<char> {
    "\\begin{lstlisting}"@ + (if trim(lang).len() > 0 {
        "[style="@ + trim(lang) + ",language="@ + trim(lang) + "]"@
    } else {
        Seq::empty()
    }) + "\n"@
}

/// The first line of a list, whose indentation becomes the list's outer level.
pub open spec fn list_open(ordered: bool, line: Seq<char>, item: Seq<char>) -> Outcome {
    let ind = lead(line);
    if ind > 255 {
        Err(ConvertError::IndentOverflow { indent: ind as usize })
    } else {
        Ok((list_view(ordered, seq![ind as u8]), begin_env(ordered) + item_line(item)))
    }
}

/// A line read in the default state; the tests are tried in this order.
pub open spec fn text_spec(line: Seq<char>) -> Outcome {
    let t = trim(line);
    if t.len() == 0 {
        Ok((StateView::Text, "\n"@))
    } else if starts_with(t, "# "@) {
        Ok((StateView::Text, Seq::empty()))
    } else if local_link(t) is Some {
        Ok((StateView::Text, "\\input{"@ + (local_link(t)->0).1 + "}\n"@))
    } else if heading(t, "##### "@) is Some {
        Ok((StateView::Text, heading_line("\\subsubsection{"@, heading(t, "##### "@)->0)))
    } else if heading(t, "#### "@) is Some {
        Ok((StateView::Text, heading_line("\\subsection{"@, heading(t, "#### "@)->0)))
    } else if heading(t, "### "@) is Some {
        Ok((StateView::Text, heading_line("\\section{"@, heading(t, "### "@)->0)))
    } else if heading(t, "## "@) is Some {
        Ok((StateView::Text, heading_line("\\chapter{"@, heading(t, "## "@)->0)))
    } else if t == "|figure"@ {
        Ok((StateView::Figure, "\\begin{figure}\n"@))
    } else if t == "|literal"@ {
        Ok((StateView::Literal, Seq::empty()))
    } else if starts_with(t, "|"@) {
        if !ends_with_bar(t) {
            Err(ConvertError::MalformedTableRow)
        } else {
            Ok((StateView::TableHeader, table_open(t)))
        }
    } else if code_float(t) is Some {
        let c = code_float(t)->0;
        Ok((StateView::Code, listing_float(c.0, c.1, c.2)))
    } else if t == "```"@ {
        Ok((StateView::Code, "\\begin{lstlisting}\n"@))
    } else if code_here(t) is Some {
        Ok((StateView::Code, listing_here(code_here(t)->0)))
    } else if starts_with(t, "> "@) {
        Ok(
            (
                StateView::Quote,
                "\\begin{displayquote}\n"@ + inline_tex(t.subrange(2, t.len() as int))
                    + "\n"@,
            ),
        )
    } else if bullet_item(t) is Some {
        list_open(false, line, bullet_item(t)->0)
    } else if number_item(t) is Some {
        list_open(true, line, number_item(t)->0)
    } else if footnote_body(t) is Some {
        let f = footnote_body(t)->0;
        Ok((StateView::FootnoteBody, "\\footnotetext["@ + f.0 + "]{\n"@ + inline_tex(f.1) + "\n"@))
    } else if t == "$$"@ {
        Ok((StateView::UnnumberedEquation, "\\begin{equation*}\n"@))
    } else if num_equation(t) is Some {
        Ok((StateView::NumberedEquation, "\\begin{equation}\\label{"@ + num_equation(t)->0 + "}\n"@))
    } else if line_comment(t) {
        Ok((StateView::Text, Seq::empty()))
    } else {
        Ok((StateView::Text, inline_tex(line) + "\n"@))
    }
}

fn heading_line_exec(cmd: &str, label: &Option<Vec<char>>, head: &Vec<char>) -> (r: Vec<char>)
    ensures
        r@ == heading_line(
            cmd@,
            (
                match label {
                    Some(l) => Some(l@),
                    None => None,
                },
                head@,
            ),
        ),
{
    let mut out = lit(cmd);
    push_chars(&mut out, head);
    push_str(&mut out, "}");
    match label {
        Some(l) => {
            push_str(&mut out, "\\label{");
            push_chars(&mut out, l);
            push_str(&mut out, "}");
        },
        None => {},
    }
    push_str(&mut out, "\n");
    out
}

fn table_open_exec(t: &Vec<char>) -> (r: Vec<char>)
    requires
        t@.len() >= 1,
    ensures
        r@ == table_open(t@),
{
    let inner = slice_chars(t, 1, t.len());
    let pieces = split_terminator_chars(&inner, '|');
    let ghost cols = header_columns(t@);
    let mut formats: Vec<Vec<char>> = Vec::new();
    let mut titles: Vec<Vec<char>> = Vec::new();
    let mut i: usize = 0;
    while i < pieces.len()
        invariant
            i <= pieces.len(),
            cols == views(pieces@).map_values(|c: Seq<char>| column(trim(c))),
            formats@.len() == i,
            titles@.len() == i,
            forall|j: int| 0 <= j < i ==> #[trigger] views(formats@)[j] == column_format(cols[j]),
            forall|j: int| 0 <= j < i ==> #[trigger] views(titles@)[j] == column_title(cols[j]),
        decreases pieces.len() - i,
    {
        let h = trim_chars(&pieces[i]);
        let c = column_exec(&h);
        assert(cols[i as int] == column(trim(pieces@[i as int]@)));
        let f = match &c.0 {
            Some(d) => trim_chars(d),
            None => lit("c"),
        };
        let mut x = lit("\\textbf{");
        let l = trim_chars(&c.1);
        push_chars(&mut x, &l);
        push_str(&mut x, "}");
        let ghost fb = formats@;
        let ghost tb = titles@;
        formats.push(f);
        titles.push(x);
        assert forall|j: int| 0 <= j < i + 1 implies #[trigger] views(formats@)[j]
            == column_format(cols[j]) by {
            if j < i {
                assert(views(formats@)[j] == views(fb)[j]);
            }
        }
        assert forall|j: int| 0 <= j < i + 1 implies #[trigger] views(titles@)[j] == column_title(
            cols[j],
        ) by {
            if j < i {
                assert(views(titles@)[j] == views(tb)[j]);
            }
        }
        i = i + 1;
    }
    assert(views(formats@) =~= cols.map_values(
        |c: (Option<Seq<char>>, Seq<char>)| column_format(c),
    ));
    assert(views(titles@) =~= cols.map_values(|c: (Option<Seq<char>>, Seq<char>)| column_title(c)));
    let mut out = lit("\\begin{table}\n\\begin{tabular}{");
    let a = join_chars(&formats, " ");
    push_chars(&mut out, &a);
    push_str(&mut out, "}\n\\toprule\n");
    let b = join_chars(&titles, " & ");
    push_chars(&mut out, &b);
    push_str(&mut out, " \\\\\n");
    out
}

fn list_open_exec(ordered: bool, line: &Vec<char>, item: &Vec<char>) -> (r: Result<
    (State, Vec<char>),
    ConvertError,
>)
    ensures
        outcome_of(r) == list_open(ordered, line@, item@),
{
    let ind = lead_len(line);
    if ind > 255 {
        return Err(ConvertError::IndentOverflow { indent: ind });
    }
    let mut out = if ordered {
        lit("\\begin{enumerate}\n")
    } else {
        lit("\\begin{itemize}\n")
    };
    let x = item_line_exec(item);
    push_chars(&mut out, &x);
    Ok((make_list(ordered, stack_of(ind as u8)), out))
}

/// A line read in the default state.
pub fn process_line_text_chars(line: &Vec<char>) -> (r: Result<(State, Vec<char>), ConvertError>)
    ensures
        outcome_of(r) == text_spec(line@),
{
    let t = trim_chars(line);
    if t.len() == 0 {
        return Ok((State::Text, lit("\n")));
    }
    if starts_with_exec(&t, "# ") {
        return Ok((State::Text, Vec::new()));
    }
    match local_link_exec(&t) {
        Some((_label, path)) => {
            let mut out = lit("\\input{");
            push_chars(&mut out, &path);
            push_str(&mut out, "}\n");
            return Ok((State::Text, out));
        },
        None => {},
    }
    match heading_exec(&t, &lit("##### ")) {
        Some((l, h)) => {
            return Ok((State::Text, heading_line_exec("\\subsubsection{", &l, &h)));
        },
        None => {},
    }
    match heading_exec(&t, &lit("#### ")) {
        Some((l, h)) => {
            return Ok((State::Text, heading_line_exec("\\subsection{", &l, &h)));
        },
        None => {},
    }
    match heading_exec(&t, &lit("### ")) {
        Some((l, h)) => {
            return Ok((State::Text, heading_line_exec("\\section{", &l, &h)));
        },
        None => {},
    }
    match heading_exec(&t, &lit("## ")) {
        Some((l, h)) => {
            return Ok((State::Text, heading_line_exec("\\chapter{", &l, &h)));
        },
        None => {},
    }
    if eq_str(&t, "|figure") {
        return Ok((State::Figure, lit("\\begin{figure}\n")));
    }
    if eq_str(&t, "|literal") {
        return Ok((State::Literal, Vec::new()));
    }
    if starts_with_exec(&t, "|") {
        if t[t.len() - 1] != '|' {
            return Err(ConvertError::MalformedTableRow);
        }
        return Ok((State::TableHeader, table_open_exec(&t)));
    }
    match code_float_exec(&t) {
        Some((lang, label, caption)) => {
            let lt = trim_chars(&lang);
            let bt = trim_chars(&label);
            let ct = trim_chars(&caption);
            let mut out = lit("\\begin{lstlisting}[\n\tstyle=");
            push_chars(&mut out, &lt);
            push_str(&mut out, ",\n\tlanguage=");
            push_chars(&mut out, &lt);
            push_str(&mut out, ",\n\tlabel=");
            push_chars(&mut out, &bt);
            push_str(&mut out, ",\n\tcaption={");
            push_chars(&mut out, &ct);
            push_str(&mut out, "},\n\tfloat]\n");
            assert(out@ =~= listing_float(lang@, label@, caption@));
            return Ok((State::Code, out));
        },
        None => {},
    }
    if eq_str(&t, "```") {
        return Ok((State::Code, lit("\\begin{lstlisting}\n")));
    }
    match code_here_exec(&t) {
        Some(lang) => {
            let lt = trim_chars(&lang);
            let mut out = lit("\\begin{lstlisting}");
            if lt.len() > 0 {
                push_str(&mut out, "[style=");
                push_chars(&mut out, &lt);
                push_str(&mut out, ",language=");
                push_chars(&mut out, &lt);
                push_str(&mut out, "]");
            }
            push_str(&mut out, "\n");
            assert(out@ =~= listing_here(lang@));
            return Ok((State::Code, out));
        },
        None => {},
    }
    if starts_with_exec(&t, "> ") {
        proof {
            reveal_strlit("> ");
        }
        let rest = slice_chars(&t, 2, t.len());
        let mut out = lit("\\begin{displayquote}\n");
        push_chars(&mut out, &inline_chars(&rest));
        push_str(&mut out, "\n");
        return Ok((State::Quote, out));
    }
    match bullet_item_exec(&t) {
        Some(item) => {
            return list_open_exec(false, line, &item);
        },
        None => {},
    }
    match number_item_exec(&t) {
        Some(item) => {
            return list_open_exec(true, line, &item);
        },
        None => {},
    }
    match footnote_body_exec(&t) {
        Some((mark, body)) => {
            let mut out = lit("\\footnotetext[");
            push_chars(&mut out, &mark);
            push_str(&mut out, "]{\n");
            push_chars(&mut out, &inline_chars(&body));
            push_str(&mut out, "\n");
            return Ok((State::FootnoteBody, out));
        },
        None => {},
    }
    if eq_str(&t, "$$") {
        return Ok((State::UnnumberedEquation, lit("\\begin{equation*}\n")));
    }
    match num_equation_exec(&t) {
        Some(label) => {
            let mut out = lit("\\begin{equation}\\label{");
            push_chars(&mut out, &label);
            push_str(&mut out, "}\n");
            return Ok((State::NumberedEquation, out));
        },
        None => {},
    }
    if line_comment_exec(&t) {
        return Ok((State::Text, Vec::new()));
    }
    let out = with_newline(&inline_chars(line));
    Ok((State::Text, out))
}

} // verus!
