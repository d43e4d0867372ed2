//! The states of the converter, its errors, and the handlers of the states
//! other than the default one.
use vstd::prelude::*;
use crate::chars::{
    eq_str,    join, join_chars, lead, lead_len, occurs, occurs_at, push_chars, push_str, slice_chars,
    split_terminator, split_terminator_chars, str_to_chars, trim, trim_chars, views,
};
use crate::inline::{inline_chars, inline_tex};
use crate::patterns::{bullet_item, bullet_item_exec, number_item, number_item_exec};
use crate::stack::{
    indents_of, stack_clone, stack_len, stack_pop, stack_push, stack_top, Indents,
};

verus! {

/// The most lists that can be open inside one another; the indentation
/// stack holds this many levels inline and is never pushed past it.
pub const MAX_NESTING: usize = 4;

/// The state that decides how the next line is read. A list state holds the
/// indentations of its open levels, outermost first.
pub enum State {
    Ordered(Indents),
    Unordered(Indents),
    Quote,
    Code,
    Figure,
    FigureCaption,
    TableHeader,
    TableBody(bool),
    TableCaption,
    Literal,
    Text,
    FootnoteBody,
    NumberedEquation,
    UnnumberedEquation,
}

/// A state as a mathematical value.
pub enum StateView {
    Ordered(Seq<u8>),
    Unordered(Seq<u8>),
    Quote,
    Code,
    Figure,
    FigureCaption,
    TableHeader,
    TableBody(bool),
    TableCaption,
    Literal,
    Text,
    FootnoteBody,
    NumberedEquation,
    UnnumberedEquation,
}

impl View for State {
    type V = StateView;

    open spec fn view(&self) -> StateView {
        match self {
            State::Ordered(v) => StateView::Ordered(indents_of(*v)),
            State::Unordered(v) => StateView::Unordered(indents_of(*v)),
            State::Quote => StateView::Quote,
            State::Code => StateView::Code,
            State::Figure => StateView::Figure,
            State::FigureCaption => StateView::FigureCaption,
            State::TableHeader => StateView::TableHeader,
            State::TableBody(b) => StateView::TableBody(*b),
            State::TableCaption => StateView::TableCaption,
            State::Literal => StateView::Literal,
            State::Text => StateView::Text,
            State::FootnoteBody => StateView::FootnoteBody,
            State::NumberedEquation => StateView::NumberedEquation,
            State::UnnumberedEquation => StateView::UnnumberedEquation,
        }
    }
}

/// Why a line could not be converted.
#[derive(Clone, Copy, Debug, PartialEq, Eq, Structural)]
pub enum ConvertError {
    /// A list item is indented by more than 255 characters.
    IndentOverflow { indent: usize },
    /// A list would be nested deeper than `MAX_NESTING`.
    NestingOverflow,
    /// A list item is indented less than the outermost level of its list.
    NestingUnderflow,
    /// A table row does not end with `|`.
    MalformedTableRow,
}

/// What a handler gives for one line: the next state and the fragment, or an error.
pub type Outcome = Result<(StateView, Seq<char>), ConvertError>;

pub open spec fn outcome_of(r: Result<(State, Vec<char>), ConvertError>) -> Outcome {
    match r {
        Ok((s, v)) => Ok((s@, v@)),
        Err(e) => Err(e),
    }
}

pub open spec fn starts_with(t: Seq<char>, p: Seq<char>) -> bool {
    occurs_at(t, p, 0)
}

pub open spec fn ends_with_bar(t: Seq<char>) -> bool {
    t.len() > 0 && t.last() == '|'
}

/// Whether `p` occurs anywhere in `t`.
pub open spec fn contains(t: Seq<char>, p: Seq<char>) -> bool {
    exists|i: int| occurs_at(t, p, i)
}

pub(crate) fn contains_exec(t: &Vec<char>, p: &str) -> (r: bool)
    ensures
        r == contains(t@, p@),
{
    let pv = str_to_chars(p);
    if pv.len() == 0 {
        assert(t@.subrange(0, 0) =~= p@);
        assert(occurs_at(t@, p@, 0));
        return true;
    }
    let mut i: usize = 0;
    while i < t.len()
        invariant
            pv@ == p@,
            p@.len() > 0,
            i <= t.len(),
            forall|j: int| 0 <= j < i ==> !occurs_at(t@, p@, j),
        decreases t.len() - i,
    {
        if occurs(t, &pv, i) {
            return true;
        }
        i = i + 1;
    }
    assert forall|j: int| !occurs_at(t@, p@, j) by {
        if 0 <= j < i {
        } else if j > t.len() {
        }
    }
    false
}

pub(crate) fn starts_with_exec(t: &Vec<char>, p: &str) -> (r: bool)
    ensures
        r == starts_with(t@, p@),
{
    let pv = str_to_chars(p);
    occurs(t, &pv, 0)
}

/// A caption line: kept as it is where it starts with a label command, else
/// converted; then a newline.
pub open spec fn caption_line(line: Seq<char>) -> Seq<char> {
    (if starts_with(trim(line), "\\label{"@) {
        line
    } else {
        inline_tex(line)
    }) + "\n"@
}

fn caption_line_exec(line: &Vec<char>) -> (r: Vec<char>)
    ensures
        r@ == caption_line(line@),
{
    let t = trim_chars(line);
    let mut out = if starts_with_exec(&t, "\\label{") {
        slice_chars(line, 0, line.len())
    } else {
        inline_chars(line)
    };
    assert(line@.subrange(0, line@.len() as int) =~= line@);
    push_str(&mut out, "\n");
    out
}

pub open spec fn quote_spec(line: Seq<char>) -> Outcome {
    let t = trim(line);
    if t.len() == 0 {
        Ok((StateView::Text, "\\end{displayquote}\n\n"@))
    } else if starts_with(t, "> "@) {
        Ok((StateView::Quote, inline_tex(t.subrange(2, t.len() as int)) + "\n"@))
    } else if starts_with(t, ">"@) {
        Ok((StateView::Quote, inline_tex(t.subrange(1, t.len() as int)) + "\n"@))
    } else {
        Ok((StateView::Quote, inline_tex(t) + "\n"@))
    }
}

/// A line inside a quote.
pub fn process_line_quote(line: &Vec<char>) -> (r: Result<(State, Vec<char>), ConvertError>)
    ensures
        outcome_of(r) == quote_spec(line@),
{
    let t = trim_chars(line);
    if t.len() == 0 {
        let mut out: Vec<char> = Vec::new();
        push_str(&mut out, "\\end{displayquote}\n\n");
        assert(out@ =~= "\\end{displayquote}\n\n"@);
        return Ok((State::Text, out));
    }
    let rest = if starts_with_exec(&t, "> ") {
        proof {
            reveal_strlit("> ");
        }
        slice_chars(&t, 2, t.len())
    } else if starts_with_exec(&t, ">") {
        proof {
            reveal_strlit(">");
        }
        slice_chars(&t, 1, t.len())
    } else {
        slice_chars(&t, 0, t.len())
    };
    assert(t@.subrange(0, t@.len() as int) =~= t@);
    let mut out = inline_chars(&rest);
    push_str(&mut out, "\n");
    Ok((State::Quote, out))
}

/// `s` then a newline.
pub(crate) fn with_newline(s: &Vec<char>) -> (r: Vec<char>)
    ensures
        r@ == s@ + "\n"@,
{
    let mut out: Vec<char> = Vec::new();
    push_chars(&mut out, s);
    push_str(&mut out, "\n");
    assert(out@ =~= s@ + "\n"@);
    out
}

pub(crate) fn lit(s: &str) -> (r: Vec<char>)
    ensures
        r@ == s@,
{
    str_to_chars(s)
}

pub open spec fn code_spec(line: Seq<char>) -> Outcome {
    if line == "```"@ {
        Ok((StateView::Text, "\\end{lstlisting}\n"@))
    } else {
        Ok((StateView::Code, line + "\n"@))
    }
}

/// A line of a code listing, kept as it is.
pub fn process_line_code(line: &Vec<char>) -> (r: Result<(State, Vec<char>), ConvertError>)
    ensures
        outcome_of(r) == code_spec(line@),
{
    if eq_str(line, "```") {
        Ok((State::Text, lit("\\end{lstlisting}\n")))
    } else {
        Ok((State::Code, with_newline(line)))
    }
}

pub open spec fn figure_spec(line: Seq<char>) -> Outcome {
    if trim(line).len() == 0 {
        Ok((StateView::FigureCaption, "\n\\caption{"@))
    } else {
        Ok((StateView::Figure, line + "\n"@))
    }
}

/// A line of a figure's body, kept as it is.
pub fn process_line_figure(line: &Vec<char>) -> (r: Result<(State, Vec<char>), ConvertError>)
    ensures
        outcome_of(r) == figure_spec(line@),
{
    if trim_chars(line).len() == 0 {
        Ok((State::FigureCaption, lit("\n\\caption{")))
    } else {
        Ok((State::Figure, with_newline(line)))
    }
}

pub open spec fn figure_caption_spec(line: Seq<char>) -> Outcome {
    if trim(line).len() == 0 {
        Ok((StateView::Text, "}\n\\end{figure}\n\n"@))
    } else {
        Ok((StateView::FigureCaption, caption_line(line)))
    }
}

/// A line of a figure's caption.
pub fn process_line_figure_caption(line: &Vec<char>) -> (r: Result<(State, Vec<char>), ConvertError>)
    ensures
        outcome_of(r) == figure_caption_spec(line@),
{
    if trim_chars(line).len() == 0 {
        Ok((State::Text, lit("}\n\\end{figure}\n\n")))
    } else {
        Ok((State::FigureCaption, caption_line_exec(line)))
    }
}

/// The cells of a table row: the row without its first character, split at
/// each `|`, each cell trimmed and converted.
pub open spec fn row_cells(t: Seq<char>) -> Seq<Seq<char>> {
    split_terminator(t.subrange(1, t.len() as int), '|').map_values(|c: Seq<char>| inline_tex(trim(c)))
}

pub open spec fn table_body_spec(line: Seq<char>, rule_every_row: bool) -> Outcome {
    let t = trim(line);
    if t.len() == 0 {
        Ok((StateView::TableCaption, "\\bottomrule\n\\end{tabular}\n\\caption{"@))
    } else if !ends_with_bar(t) {
        Err(ConvertError::MalformedTableRow)
    } else {
        Ok(
            (
                StateView::TableBody(rule_every_row),
                (if rule_every_row {
                    "\\midrule\n"@
                } else {
                    Seq::empty()
                }) + join(row_cells(t), " & "@) + " \\\\\n"@,
            ),
        )
    }
}

/// A row of a table's body.
pub fn process_line_table_body(line: &Vec<char>, rule_every_row: bool) -> (r: Result<
    (State, Vec<char>),
    ConvertError,
>)
    ensures
        outcome_of(r) == table_body_spec(line@, rule_every_row),
{
    let t = trim_chars(line);
    if t.len() == 0 {
        return Ok((State::TableCaption, lit("\\bottomrule\n\\end{tabular}\n\\caption{")));
    }
    if t[t.len() - 1] != '|' {
        return Err(ConvertError::MalformedTableRow);
    }
    let inner = slice_chars(&t, 1, t.len());
    let pieces = split_terminator_chars(&inner, '|');
    let mut cells: Vec<Vec<char>> = Vec::new();
    let mut i: usize = 0;
    while i < pieces.len()
        invariant
            i <= pieces.len(),
            cells@.len() == i,
            views(cells@) == views(pieces@).take(i as int).map_values(
                |c: Seq<char>| inline_tex(trim(c)),
            ),
        decreases pieces.len() - i,
    {
        let c = trim_chars(&pieces[i]);
        let ghost before = cells@;
        let x = inline_chars(&c);
        cells.push(x);
        assert(views(pieces@)[i as int] == pieces@[i as int]@);
        assert(cells@[i as int] == x);
        assert(views(cells@)[i as int] == inline_tex(trim(views(pieces@)[i as int])));
        assert(views(cells@).drop_last() =~= views(before));
        assert forall|j: int| 0 <= j < i + 1 implies #[trigger] views(cells@)[j] == views(
            pieces@,
        ).take(i + 1).map_values(|c: Seq<char>| inline_tex(trim(c)))[j] by {
            if j < i {
                assert(views(cells@)[j] == views(before)[j]);
            }
        }
        assert(views(cells@) =~= views(pieces@).take(i + 1).map_values(
            |c: Seq<char>| inline_tex(trim(c)),
        ));
        i = i + 1;
    }
    assert(views(pieces@).take(pieces.len() as int) =~= views(pieces@));
    let mut out: Vec<char> = if rule_every_row {
        lit("\\midrule\n")
    } else {
        Vec::new()
    };
    let joined = join_chars(&cells, " & ");
    push_chars(&mut out, &joined);
    push_str(&mut out, " \\\\\n");
    assert(out@ =~= (if rule_every_row {
        "\\midrule\n"@
    } else {
        Seq::empty()
    }) + join(row_cells(t@), " & "@) + " \\\\\n"@);
    Ok((State::TableBody(rule_every_row), out))
}

pub open spec fn table_header_spec(line: Seq<char>) -> Outcome {
    let t = trim(line);
    if starts_with(t, "|---"@) || starts_with(t, "| ---"@) {
        Ok((StateView::TableHeader, Seq::empty()))
    } else if contains(t, "line every row"@) {
        Ok((StateView::TableBody(true), Seq::empty()))
    } else if contains(t, "line header only"@) {
        Ok((StateView::TableBody(false), "\\midrule\n"@))
    } else if starts_with(t, "|"@) {
        table_body_spec(line, false)
    } else {
        Ok((StateView::TableBody(false), Seq::empty()))
    }
}

/// The line after a table's header: the separator `|---`, which is skipped;
/// a line that names the rule policy; the first row of the body, which
/// starts with `|`; or any other line, which asks for no extra rules.
pub fn process_line_table_header(line: &Vec<char>) -> (r: Result<(State, Vec<char>), ConvertError>)
    ensures
        outcome_of(r) == table_header_spec(line@),
{
    let t = trim_chars(line);
    if starts_with_exec(&t, "|---") || starts_with_exec(&t, "| ---") {
        Ok((State::TableHeader, Vec::new()))
    } else if contains_exec(&t, "line every row") {
        Ok((State::TableBody(true), Vec::new()))
    } else if contains_exec(&t, "line header only") {
        Ok((State::TableBody(false), lit("\\midrule\n")))
    } else if starts_with_exec(&t, "|") {
        process_line_table_body(line, false)
    } else {
        Ok((State::TableBody(false), Vec::new()))
    }
}

pub open spec fn table_caption_spec(line: Seq<char>) -> Outcome {
    if line.len() == 0 {
        Ok((StateView::Text, "}\n\\end{table}\n\n"@))
    } else {
        Ok((StateView::TableCaption, caption_line(line)))
    }
}

/// A line of a table's caption.
pub fn process_line_table_caption(line: &Vec<char>) -> (r: Result<(State, Vec<char>), ConvertError>)
    ensures
        outcome_of(r) == table_caption_spec(line@),
{
    if line.len() == 0 {
        Ok((State::Text, lit("}\n\\end{table}\n\n")))
    } else {
        Ok((State::TableCaption, caption_line_exec(line)))
    }
}

pub open spec fn literal_spec(line: Seq<char>) -> Outcome {
    if line.len() == 0 {
        Ok((StateView::Text, Seq::empty()))
    } else {
        Ok((StateView::Literal, line + "\n"@))
    }
}

/// A line of a literal block, kept as it is.
pub fn process_literal(line: &Vec<char>) -> (r: Result<(State, Vec<char>), ConvertError>)
    ensures
        outcome_of(r) == literal_spec(line@),
{
    if line.len() == 0 {
        Ok((State::Text, Vec::new()))
    } else {
        Ok((State::Literal, with_newline(line)))
    }
}

pub open spec fn footnote_body_spec(line: Seq<char>) -> Outcome {
    if line.len() == 0 {
        Ok((StateView::Text, "}\n\n"@))
    } else {
        Ok((StateView::FootnoteBody, inline_tex(line)))
    }
}

/// A line of a footnote's text.
pub fn process_footnote_body(line: &Vec<char>) -> (r: Result<(State, Vec<char>), ConvertError>)
    ensures
        outcome_of(r) == footnote_body_spec(line@),
{
    if line.len() == 0 {
        Ok((State::Text, lit("}\n\n")))
    } else {
        Ok((State::FootnoteBody, inline_chars(line)))
    }
}

pub open spec fn equation_spec(line: Seq<char>, numbered: bool) -> Outcome {
    if line == "$$"@ {
        Ok(
            (
                StateView::Text,
                if numbered {
                    "\\end{equation}"@
                } else {
                    "\\end{equation*}"@
                },
            ),
        )
    } else if numbered {
        Ok((StateView::NumberedEquation, line))
    } else {
        Ok((StateView::UnnumberedEquation, line))
    }
}

/// A line of an unnumbered equation, kept as it is.
pub fn process_unnumbered_equation_text(line: &Vec<char>) -> (r: Result<
    (State, Vec<char>),
    ConvertError,
>)
    ensures
        outcome_of(r) == equation_spec(line@, false),
{
    if eq_str(line, "$$") {
        Ok((State::Text, lit("\\end{equation*}")))
    } else {
        assert(line@.subrange(0, line@.len() as int) =~= line@);
        Ok((State::UnnumberedEquation, slice_chars(line, 0, line.len())))
    }
}

/// A line of a numbered equation, kept as it is.
pub fn process_numbered_equation_text(line: &Vec<char>) -> (r: Result<
    (State, Vec<char>),
    ConvertError,
>)
    ensures
        outcome_of(r) == equation_spec(line@, true),
{
    if eq_str(line, "$$") {
        Ok((State::Text, lit("\\end{equation}")))
    } else {
        assert(line@.subrange(0, line@.len() as int) =~= line@);
        Ok((State::NumberedEquation, slice_chars(line, 0, line.len())))
    }
}

pub open spec fn begin_env(ordered: bool) -> Seq<char> {
    if ordered {
        "\\begin{enumerate}\n"@
    } else {
        "\\begin{itemize}\n"@
    }
}

pub open spec fn end_env(ordered: bool) -> Seq<char> {
    if ordered {
        "\\end{enumerate}"@
    } else {
        "\\end{itemize}"@
    }
}

pub open spec fn list_view(ordered: bool, s: Seq<u8>) -> StateView {
    if ordered {
        StateView::Ordered(s)
    } else {
        StateView::Unordered(s)
    }
}

pub open spec fn list_item(ordered: bool, t: Seq<char>) -> Option<Seq<char>> {
    if ordered {
        number_item(t)
    } else {
        bullet_item(t)
    }
}

/// The markup that closes `n` open lists, one per line.
pub open spec fn close_lists(ordered: bool, n: nat) -> Seq<char> {
    join(Seq::new(n, |_i: int| end_env(ordered)), "\n"@) + "\n"@
}

pub open spec fn item_line(item: Seq<char>) -> Seq<char> {
    "\\item "@ + inline_tex(item) + "\n"@
}

/// A line inside a list whose open levels have the indentations `s`.
pub open spec fn list_spec(ordered: bool, line: Seq<char>, s: Seq<u8>) -> Outcome
    decreases s.len(),
{
    let t = trim(line);
    if t.len() == 0 {
        Ok((StateView::Text, close_lists(ordered, s.len())))
    } else {
        match list_item(ordered, t) {
            None => Ok((list_view(ordered, s), inline_tex(t) + "\n"@)),
            Some(item) => {
                let ind = lead(line);
                if ind > 255 {
                    Err(ConvertError::IndentOverflow { indent: ind as usize })
                } else if s.len() == 0 {
                    Err(ConvertError::NestingUnderflow)
                } else if ind == s.last() {
                    Ok((list_view(ordered, s), item_line(item)))
                } else if ind > s.last() {
                    if s.len() >= MAX_NESTING {
                        Err(ConvertError::NestingOverflow)
                    } else {
                        Ok(
                            (
                                list_view(ordered, s.push(ind as u8)),
                                begin_env(ordered) + item_line(item),
                            ),
                        )
                    }
                } else if s.len() <= 1 {
                    Err(ConvertError::NestingUnderflow)
                } else {
                    match list_spec(ordered, line, s.drop_last()) {
                        Ok((st, f)) => Ok((st, end_env(ordered) + "\n"@ + f)),
                        Err(e) => Err(e),
                    }
                }
            },
        }
    }
}

pub(crate) fn make_list(ordered: bool, s: Indents) -> (r: State)
    ensures
        r@ == list_view(ordered, indents_of(s)),
{
    if ordered {
        State::Ordered(s)
    } else {
        State::Unordered(s)
    }
}

pub(crate) fn item_line_exec(item: &Vec<char>) -> (r: Vec<char>)
    ensures
        r@ == item_line(item@),
{
    let mut out = lit("\\item ");
    let x = inline_chars(item);
    push_chars(&mut out, &x);
    push_str(&mut out, "\n");
    out
}

fn close_lists_exec(ordered: bool, n: usize) -> (r: Vec<char>)
    ensures
        r@ == close_lists(ordered, n as nat),
{
    let mut parts: Vec<Vec<char>> = Vec::new();
    let mut i: usize = 0;
    while i < n
        invariant
            i <= n,
            parts@.len() == i,
            views(parts@) == Seq::new(i as nat, |_i: int| end_env(ordered)),
        decreases n - i,
    {
        let e = if ordered {
            lit("\\end{enumerate}")
        } else {
            lit("\\end{itemize}")
        };
        let ghost before = parts@;
        parts.push(e);
        assert forall|j: int| 0 <= j < i + 1 implies #[trigger] views(parts@)[j] == end_env(
            ordered,
        ) by {
            if j < i {
                assert(views(parts@)[j] == views(before)[j]);
            } else {
                assert(parts@[j] == e);
            }
        }
        assert(views(parts@) =~= Seq::new((i + 1) as nat, |_i: int| end_env(ordered)));
        i = i + 1;
    }
    let mut out = join_chars(&parts, "\n");
    push_str(&mut out, "\n");
    out
}

/// A line inside a list; `ordered` tells a numbered list from a bulleted one.
/// A line indented less than the innermost level closes that level and is
/// read again against the levels that remain.
fn process_line_list(line: &Vec<char>, indents: &Indents, ordered: bool) -> (r: Result<
    (State, Vec<char>),
    ConvertError,
>)
    ensures
        outcome_of(r) == list_spec(ordered, line@, indents_of(*indents)),
    decreases indents_of(*indents).len(),
{
    let t = trim_chars(line);
    if t.len() == 0 {
        let n = stack_len(indents);
        return Ok((State::Text, close_lists_exec(ordered, n)));
    }
    let item = if ordered {
        number_item_exec(&t)
    } else {
        bullet_item_exec(&t)
    };
    match item {
        None => {
            let mut out = inline_chars(&t);
            push_str(&mut out, "\n");
            Ok((make_list(ordered, stack_clone(indents)), out))
        },
        Some(item) => {
            let ind = lead_len(line);
            if ind > 255 {
                return Err(ConvertError::IndentOverflow { indent: ind });
            }
            let n = stack_len(indents);
            if n == 0 {
                return Err(ConvertError::NestingUnderflow);
            }
            let top = stack_top(indents);
            let ind8 = ind as u8;
            if ind8 == top {
                Ok((make_list(ordered, stack_clone(indents)), item_line_exec(&item)))
            } else if ind8 > top {
                if n >= MAX_NESTING {
                    return Err(ConvertError::NestingOverflow);
                }
                let mut s2 = stack_clone(indents);
                stack_push(&mut s2, ind8);
                let mut out = if ordered {
                    lit("\\begin{enumerate}\n")
                } else {
                    lit("\\begin{itemize}\n")
                };
                let x = item_line_exec(&item);
                push_chars(&mut out, &x);
                Ok((make_list(ordered, s2), out))
            } else if n <= 1 {
                Err(ConvertError::NestingUnderflow)
            } else {
                let mut s2 = stack_clone(indents);
                let _ = stack_pop(&mut s2);
                match process_line_list(line, &s2, ordered) {
                    Ok((st, f)) => {
                        let mut out = if ordered {
                            lit("\\end{enumerate}")
                        } else {
                            lit("\\end{itemize}")
                        };
                        push_str(&mut out, "\n");
                        push_chars(&mut out, &f);
                        Ok((st, out))
                    },
                    Err(e) => Err(e),
                }
            }
        },
    }
}

/// A line inside a numbered list.
pub fn process_line_ordered(line: &Vec<char>, indents: &Indents) -> (r: Result<
    (State, Vec<char>),
    ConvertError,
>)
    ensures
        outcome_of(r) == list_spec(true, line@, indents_of(*indents)),
{
    process_line_list(line, indents, true)
}

/// A line inside a bulleted list.
pub fn process_line_unordered(line: &Vec<char>, indents: &Indents) -> (r: Result<
    (State, Vec<char>),
    ConvertError,
>)
    ensures
        outcome_of(r) == list_spec(false, line@, indents_of(*indents)),
{
    process_line_list(line, indents, false)
}

} // verus!
