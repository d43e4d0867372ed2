use md2tex::{process_line_text, simple_string_process, ConvertError, Converter, State};
use regex::{Captures, Regex};

fn feed_all(lines: &[&str]) -> Vec<Result<String, ConvertError>> {
    let mut c = Converter::new();
    lines.iter().map(|l| c.feed(l)).collect()
}

fn text_of(line: &str) -> String {
    process_line_text(line).ok().unwrap().1
}

/// The inline passes written with the regex crate, pattern by pattern, each
/// taking the shortest match.
fn inline_by_regex(line: &str) -> String {
    let rules: Vec<(&str, fn(&Captures) -> String)> = vec![
        (r#"\^(?<x>.+?)\^"#, |c| format!(r"\textsuperscript{{{}}}", &c["x"])),
        (r#"\*(?<x>.+?)\*"#, |c| format!(r"\textbf{{{}}}", &c["x"])),
        (r#"`(?<x>.+?)`"#, |c| format!(r"\texttt{{{}}}", &c["x"])),
        (r#"'(?<x>.+?)'"#, |c| format!("`{}'", &c["x"])),
        (r#""(?<x>.+?)""#, |c| format!("``{}''", &c["x"])),
        (r#"_(?<x>.+?)_"#, |c| format!(r"\emph{{{}}}", &c["x"])),
        (r#"\[(?<text>.+?)]\((?<link>.+?)\)"#, |c| {
            format!(r"{} \url{{{}}}", &c["text"], &c["link"])
        }),
        (r#"\[\^(?<x>.+?)]"#, |c| format!(r"\footnotemark[{}]", &c["x"])),
    ];
    let mut res = line.replace('&', "\\&");
    res = Regex::new(r#"<!--(.*?)-->"#)
        .unwrap()
        .replace_all(&res, String::new())
        .to_string();
    for (pattern, f) in rules {
        res = Regex::new(pattern).unwrap().replace_all(&res, f).to_string();
    }
    res
}

#[test]
fn inline_agrees_with_patterns() {
    for s in [
        "plain",
        "*bold* and `mono`",
        "^2^ and x^y",
        "'single' \"double\" _emph_",
        "a & b",
        "see [the site](http://x.org) now",
        "[a](b) and [c](d)",
        "[a](b\n[c](d)",
        "note[^1] and [^two] here",
        "a <!-- one --> b <!-- two --> c",
        "a <!-- one\n --> b",
        "**x*",
        "*a\nb*",
        "``",
        "_a_b_c_",
        "[^] x [^y]",
        "<!---->",
        "<!-->",
        "it's 'quoted' & \"done\"",
        "a<!--x-->b<!--y-->c",
        "a<!--x-->b-->",
        "[a](x) and [b](y)",
        "[a]((x)) [b]](c)",
        "",
    ] {
        assert_eq!(simple_string_process(s), inline_by_regex(s), "input {:?}", s);
    }
}

#[test]
fn inline_is_order_sensitive() {
    assert_eq!(
        simple_string_process("*bold* and `mono`"),
        "\\textbf{bold} and \\texttt{mono}"
    );
    assert_eq!(simple_string_process("one<!-- gone --> two"), "one two");
}

#[test]
fn comments_and_links_take_the_shortest_match() {
    assert_eq!(simple_string_process("a<!--x-->b<!--y-->c"), "abc");
    assert_eq!(simple_string_process("a<!--x-->b-->"), "ab-->");
    assert_eq!(
        simple_string_process("[a](x) and [b](y)"),
        "a \\url{x} and b \\url{y}"
    );
}

#[test]
fn quote_text_comes_from_the_trimmed_line() {
    let (s, f) = process_line_text("\u{3000}> q").unwrap();
    assert!(matches!(s, State::Quote));
    assert_eq!(f, "\\begin{displayquote}\nq\n");
    assert_eq!(text_of("  > quote"), "\\begin{displayquote}\nquote\n");
}

#[test]
fn header_continuation_without_policy() {
    let out = feed_all(&["| A |", "|---|", "plain", "| 1 |"]);
    assert_eq!(out[2].as_ref().unwrap(), "");
    assert_eq!(out[3].as_ref().unwrap(), "1 \\\\\n");
    let mut c = Converter::new();
    c.feed("| A |").unwrap();
    assert_eq!(c.feed("<!-- no rule -->").unwrap(), "");
    assert!(matches!(c.state, State::TableBody(false)));
}

#[test]
fn inline_spans() {
    assert_eq!(simple_string_process("x^2^"), "x\\textsuperscript{2}");
    assert_eq!(simple_string_process("'a' \"b\""), "`a' ``b''");
    assert_eq!(simple_string_process("_e_"), "\\emph{e}");
    assert_eq!(simple_string_process("[t](u)"), "t \\url{u}");
    assert_eq!(simple_string_process("R&D"), "R\\&D");
}

#[test]
fn headings_at_every_level() {
    assert_eq!(text_of("## Intro"), "\\chapter{Intro}\n");
    assert_eq!(text_of("### Intro"), "\\section{Intro}\n");
    assert_eq!(text_of("#### Intro"), "\\subsection{Intro}\n");
    assert_eq!(text_of("##### Intro"), "\\subsubsection{Intro}\n");
    assert_eq!(text_of("## []{#ch:a}Intro"), "\\chapter{Intro}\\label{ch:a}\n");
    assert_eq!(text_of("##### []{#x}Deep"), "\\subsubsection{Deep}\\label{x}\n");
    assert_eq!(text_of("# Title"), "");
}

#[test]
fn default_state_openers() {
    assert!(matches!(process_line_text("|figure").unwrap().0, State::Figure));
    assert!(matches!(process_line_text("|literal").unwrap().0, State::Literal));
    let (s, f) = process_line_text("```rust").unwrap();
    assert!(matches!(s, State::Code));
    assert_eq!(f, "\\begin{lstlisting}[style=rust,language=rust]\n");
    let (s, f) = process_line_text("```").unwrap();
    assert!(matches!(s, State::Code));
    assert_eq!(f, "\\begin{lstlisting}\n");
    let (_, f) = process_line_text("```py<!--lst:a--><!--A caption-->").unwrap();
    assert_eq!(
        f,
        "\\begin{lstlisting}[\n\tstyle=py,\n\tlanguage=py,\n\tlabel=lst:a,\n\tcaption={A caption},\n\tfloat]\n"
    );
    let (s, f) = process_line_text("> quoted *text*").unwrap();
    assert!(matches!(s, State::Quote));
    assert_eq!(f, "\\begin{displayquote}\nquoted \\textbf{text}\n");
    let (s, f) = process_line_text("$$").unwrap();
    assert!(matches!(s, State::UnnumberedEquation));
    assert_eq!(f, "\\begin{equation*}\n");
    let (s, f) = process_line_text("$$<!--eq:a-->").unwrap();
    assert!(matches!(s, State::NumberedEquation));
    assert_eq!(f, "\\begin{equation}\\label{eq:a}\n");
    assert_eq!(text_of("<!-- note -->"), "");
    assert_eq!(text_of("   "), "\n");
    assert_eq!(text_of("Just text."), "Just text.\n");
}

#[test]
fn table_scenario() {
    let out = feed_all(&["| <!--c--> A | <!--l--> B |", "|---|---|", "| x | y |", ""]);
    let out: Vec<String> = out.into_iter().map(|r| r.unwrap()).collect();
    assert_eq!(
        out[0],
        "\\begin{table}\n\\begin{tabular}{c l}\n\\toprule\n\\textbf{A} & \\textbf{B} \\\\\n"
    );
    assert_eq!(out[1], "");
    assert_eq!(out[2], "x & y \\\\\n");
    assert_eq!(out[3], "\\bottomrule\n\\end{tabular}\n\\caption{");
}

#[test]
fn table_rule_policies_and_caption() {
    let out = feed_all(&[
        "| A | B |",
        "|---|---|",
        "line every row",
        "| 1 | 2 |",
        "",
        "\\label{tab:x}",
        "A *caption*",
        "",
    ]);
    let out: Vec<String> = out.into_iter().map(|r| r.unwrap()).collect();
    assert_eq!(out[0], "\\begin{table}\n\\begin{tabular}{c c}\n\\toprule\n\\textbf{A} & \\textbf{B} \\\\\n");
    assert_eq!(out[2], "");
    assert_eq!(out[3], "\\midrule\n1 & 2 \\\\\n");
    assert_eq!(out[5], "\\label{tab:x}\n");
    assert_eq!(out[6], "A \\textbf{caption}\n");
    assert_eq!(out[7], "}\n\\end{table}\n\n");
    let out = feed_all(&["| A |", "| --- |", "line header only"]);
    assert_eq!(out[2].as_ref().unwrap(), "\\midrule\n");
}

#[test]
fn malformed_row_keeps_state() {
    let mut c = Converter::new();
    c.feed("| A | B |").unwrap();
    c.feed("|---|---|").unwrap();
    c.feed("line every row").unwrap();
    assert_eq!(c.feed("| x | y"), Err(ConvertError::MalformedTableRow));
    assert!(matches!(c.state, State::TableBody(true)));
    assert_eq!(c.feed("| x | y |").unwrap(), "\\midrule\nx & y \\\\\n");
    assert_eq!(process_line_text("| a | b").err(), Some(ConvertError::MalformedTableRow));
}

#[test]
fn list_levels_open_and_close() {
    let out = feed_all(&["- a", "- b", "  - c", "  - d", "- e", ""]);
    let out: Vec<String> = out.into_iter().map(|r| r.unwrap()).collect();
    assert_eq!(out[0], "\\begin{itemize}\n\\item a\n");
    assert_eq!(out[1], "\\item b\n");
    assert_eq!(out[2], "\\begin{itemize}\n\\item c\n");
    assert_eq!(out[3], "\\item d\n");
    assert_eq!(out[4], "\\end{itemize}\n\\item e\n");
    assert_eq!(out[5], "\\end{itemize}\n");
    let all = out.concat();
    assert_eq!(all.matches("\\begin{itemize}").count(), 2);
    assert_eq!(all.matches("\\end{itemize}").count(), 2);
}

#[test]
fn numbered_list_closes_several_levels() {
    let out = feed_all(&["1. a", "  2. b", "    3. c", "continued", "4. d", ""]);
    let out: Vec<String> = out.into_iter().map(|r| r.unwrap()).collect();
    assert_eq!(out[1], "\\begin{enumerate}\n\\item b\n");
    assert_eq!(out[3], "continued\n");
    assert_eq!(out[4], "\\end{enumerate}\n\\end{enumerate}\n\\item d\n");
    assert_eq!(out[5], "\\end{enumerate}\n");
}

#[test]
fn nesting_cap_is_enforced() {
    let out = feed_all(&["- a", " - b", "  - c", "   - d", "    - e", "   - f"]);
    assert_eq!(out[0].as_ref().unwrap(), "\\begin{itemize}\n\\item a\n");
    assert_eq!(out[3].as_ref().unwrap(), "\\begin{itemize}\n\\item d\n");
    assert_eq!(out[4], Err(ConvertError::NestingOverflow));
    assert_eq!(out[5].as_ref().unwrap(), "\\item f\n");
}

#[test]
fn dedent_below_outer_level_fails() {
    let out = feed_all(&["  - a", "- b"]);
    assert_eq!(out[1], Err(ConvertError::NestingUnderflow));
}

#[test]
fn indent_too_deep_fails() {
    let line = format!("{}- a", " ".repeat(256));
    assert_eq!(
        process_line_text(&line).err(),
        Some(ConvertError::IndentOverflow { indent: 256 })
    );
    let line = format!("{}- a", " ".repeat(255));
    assert!(process_line_text(&line).is_ok());
}

#[test]
fn open_quote_is_left_open() {
    let out = feed_all(&["> a quote", "more"]);
    let all: String = out.into_iter().map(|r| r.unwrap()).collect();
    assert_eq!(all, "\\begin{displayquote}\na quote\nmore\n");
    assert!(!all.contains("\\end{displayquote}"));
    let out = feed_all(&["> a quote", ""]);
    assert_eq!(out[1].as_ref().unwrap(), "\\end{displayquote}\n\n");
}

#[test]
fn verbatim_blocks() {
    let out = feed_all(&["```", "let x = *y*;", "```", "|figure", "\\includegraphics{a}", "", "Cap", ""]);
    let out: Vec<String> = out.into_iter().map(|r| r.unwrap()).collect();
    assert_eq!(out[1], "let x = *y*;\n");
    assert_eq!(out[2], "\\end{lstlisting}\n");
    assert_eq!(out[3], "\\begin{figure}\n");
    assert_eq!(out[4], "\\includegraphics{a}\n");
    assert_eq!(out[5], "\n\\caption{");
    assert_eq!(out[6], "Cap\n");
    assert_eq!(out[7], "}\n\\end{figure}\n\n");
    let out = feed_all(&["|literal", "raw *x*", "", "$$", "a+b", "$$", "[^n]Note *x*", "more", ""]);
    let out: Vec<String> = out.into_iter().map(|r| r.unwrap()).collect();
    assert_eq!(out[1], "raw *x*\n");
    assert_eq!(out[2], "");
    assert_eq!(out[4], "a+b");
    assert_eq!(out[5], "\\end{equation*}");
    assert_eq!(out[6], "\\footnotetext[n]{\nNote \\textbf{x}\n");
    assert_eq!(out[7], "more");
    assert_eq!(out[8], "}\n\n");
}
