//! Line-oriented conversion of a small Markdown dialect to LaTeX.
//!
//! The conversion is a state machine: each input line, read in the current
//! [`State`], yields a LaTeX fragment and the next state. Text inside the
//! lines goes through the inline transformer, [`simple_string_process`].

mod chars;
mod driver;
mod inline;
mod laws;
mod patterns;
mod stack;
mod state;
mod text;

pub use driver::{process_line_text, Converter};
pub use inline::{footnote_ref_mark, simple_string_process};
pub use patterns::{
    code_float_captures, equation_label, footnote_captures, heading_captures,
    local_link_captures, table_column, CodeFloat, Footnote, Heading, LocalLink, TableColumn,
};
pub use state::{ConvertError, State, MAX_NESTING};
