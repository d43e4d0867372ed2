//! The driver: one state, advanced line by line.
use vstd::prelude::*;
use crate::chars::{chars_to_string, str_to_chars};
use crate::state::{
    code_spec, equation_spec, figure_caption_spec, figure_spec, footnote_body_spec, list_spec,
    literal_spec, outcome_of, process_footnote_body, process_line_code, process_line_figure,
    process_line_figure_caption, process_line_ordered, process_line_quote,
    process_line_table_body, process_line_table_caption, process_line_table_header,
    process_line_unordered, process_literal, process_numbered_equation_text,
    process_unnumbered_equation_text, quote_spec, table_body_spec, table_caption_spec,
    table_header_spec, ConvertError, Outcome, State, StateView,
};
use crate::text::{process_line_text_chars, text_spec};

verus! {

/// What one line does in state `s`.
pub open spec fn step(s: StateView, line: Seq<char>) -> Outcome {
    match s {
        StateView::Ordered(st) => list_spec(true, line, st),
        StateView::Unordered(st) => list_spec(false, line, st),
        StateView::Quote => quote_spec(line),
        StateView::Code => code_spec(line),
        StateView::Figure => figure_spec(line),
        StateView::FigureCaption => figure_caption_spec(line),
        StateView::TableHeader => table_header_spec(line),
        StateView::TableBody(b) => table_body_spec(line, b),
        StateView::TableCaption => table_caption_spec(line),
        StateView::Literal => literal_spec(line),
        StateView::Text => text_spec(line),
        StateView::FootnoteBody => footnote_body_spec(line),
        StateView::NumberedEquation => equation_spec(line, true),
        StateView::UnnumberedEquation => equation_spec(line, false),
    }
}

/// The state after `lines`, read from `s`, and the fragments they gave: a
/// line that fails gives none and leaves the state as it was.
pub open spec fn run(s: StateView, lines: Seq<Seq<char>>) -> (StateView, Seq<Seq<char>>)
    decreases lines.len(),
{
    if lines.len() == 0 {
        (s, Seq::empty())
    } else {
        let prev = run(s, lines.drop_last());
        match step(prev.0, lines.last()) {
            Ok((s2, f)) => (s2, prev.1.push(f)),
            Err(_) => prev,
        }
    }
}

pub open spec fn result_view(r: Result<(State, String), ConvertError>) -> Outcome {
    match r {
        Ok((s, f)) => Ok((s@, f@)),
        Err(e) => Err(e),
    }
}

fn finish(r: Result<(State, Vec<char>), ConvertError>) -> (o: Result<(State, String), ConvertError>)
    ensures
        result_view(o) == outcome_of(r),
{
    match r {
        Ok((s, f)) => Ok((s, chars_to_string(&f))),
        Err(e) => Err(e),
    }
}

impl State {
    /// Reads one line in this state: the next state and the LaTeX fragment,
    /// or why the line could not be converted.
    pub fn process_line(&self, line: &str) -> (r: Result<(State, String), ConvertError>)
        ensures
            result_view(r) == step(self@, line@),
    {
        let l = str_to_chars(line);
        let r = match self {
            State::Ordered(indents) => process_line_ordered(&l, indents),
            State::Unordered(indents) => process_line_unordered(&l, indents),
            State::Quote => process_line_quote(&l),
            State::Code => process_line_code(&l),
            State::Figure => process_line_figure(&l),
            State::FigureCaption => process_line_figure_caption(&l),
            State::TableHeader => process_line_table_header(&l),
            State::TableBody(b) => process_line_table_body(&l, *b),
            State::TableCaption => process_line_table_caption(&l),
            State::Literal => process_literal(&l),
            State::Text => process_line_text_chars(&l),
            State::FootnoteBody => process_footnote_body(&l),
            State::NumberedEquation => process_numbered_equation_text(&l),
            State::UnnumberedEquation => process_unnumbered_equation_text(&l),
        };
        finish(r)
    }
}

/// A line read in the default state.
pub fn process_line_text(line: &str) -> (r: Result<(State, String), ConvertError>)
    ensures
        result_view(r) == text_spec(line@),
{
    let l = str_to_chars(line);
    finish(process_line_text_chars(&l))
}

/// A conversion run: the state that the next line is read in.
pub struct Converter {
    pub state: State,
}

impl Converter {
    /// A run that starts in the default state.
    pub fn new() -> (r: Converter)
        ensures
            r.state@ == StateView::Text,
    {
        Converter { state: State::Text }
    }

    /// Reads the next line: its fragment, with the state advanced; or the
    /// error, with the state left as it was.
    pub fn feed(&mut self, line: &str) -> (r: Result<String, ConvertError>)
        ensures
            match r {
                Ok(f) => step(old(self).state@, line@) == Outcome::Ok((final(self).state@, f@)),
                Err(e) => step(old(self).state@, line@) == Outcome::Err(e) && final(self).state@
                    == old(self).state@,
            },
    {
        match self.state.process_line(line) {
            Ok((s, f)) => {
                self.state = s;
                Ok(f)
            },
            Err(e) => Err(e),
        }
    }
}

} // verus!
