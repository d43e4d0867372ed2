use md2tex::{
    code_float_captures, equation_label, footnote_captures, footnote_ref_mark, heading_captures,
    local_link_captures, table_column,
};
use regex::Regex;

fn name(c: &regex::Captures, n: &str) -> Option<String> {
    c.name(n).map(|m| m.as_str().to_owned())
}

const SAMPLES: [&str; 24] = [
    "## Intro",
    "### []{#sec:a}Body",
    "#### []{#a}x}y",
    "##### []{#}x",
    "## []{#a}",
    "##",
    "[label](./dir/page.md)",
    "[a](./b](./c.md)",
    "[x](./.md)",
    "[x](./ab.md) tail",
    "<!-- c --> A",
    "<!---->B",
    "<!-- a --> b --> c",
    "plain",
    "```py<!--lst:a--><!--cap-->",
    "x ```c<!--a--><!--b--><!--c--> d",
    "```<!--a--><!--b-->",
    "````rs<!--l--><!--c-->-->",
    "[^m]body",
    "[^m]",
    "[^a]b]c",
    "$$<!--eq:1-->",
    "$$<!---->",
    "text [^n] and [^m]",
];

#[test]
fn headings_agree_with_patterns() {
    for (hashes, pattern) in [
        ("##", r#"^## (\[]\{#(?<label>.+?)\})?(?<head>.*)$"#),
        ("###", r#"^### (\[]\{#(?<label>.+?)\})?(?<head>.*)$"#),
        ("####", r#"^#### (\[]\{#(?<label>.+?)\})?(?<head>.*)$"#),
        ("#####", r#"^##### (\[]\{#(?<label>.+?)\})?(?<head>.*)$"#),
    ] {
        let re = Regex::new(pattern).unwrap();
        for s in SAMPLES {
            let expected = re.captures(s).map(|c| (name(&c, "label"), name(&c, "head").unwrap()));
            let got = heading_captures(s, hashes).map(|h| (h.label, h.head));
            assert_eq!(got, expected, "input {:?}", s);
        }
    }
}

#[test]
fn other_patterns_agree() {
    let column = Regex::new(r#"(<!--(?<desc>.+)-->)?(?<label>.*)"#).unwrap();
    let link = Regex::new(r#"^\[(?<label>.+)]\(\./(?<path>.+).md\)$"#).unwrap();
    let code = Regex::new(r#"```(?<lang>.+)<!--(?<label>.+)--><!--(?<caption>.+)-->"#).unwrap();
    let note = Regex::new(r#"^\[\^(?<mark>.+?)](?<body>.+?)$"#).unwrap();
    let eq = Regex::new(r#"^\$\$<!--(?<label>.+)-->$"#).unwrap();
    let mark = Regex::new(r#"\[\^(?<mark>.+?)]"#).unwrap();
    for s in SAMPLES {
        let c = column.captures(s).unwrap();
        let got = table_column(s);
        assert_eq!((got.desc, got.label), (name(&c, "desc"), name(&c, "label").unwrap()), "{:?}", s);

        let expected = link.captures(s).map(|c| (name(&c, "label"), name(&c, "path")));
        let got = local_link_captures(s).map(|k| (Some(k.label), Some(k.path)));
        assert_eq!(got, expected, "input {:?}", s);

        let expected = code
            .captures(s)
            .map(|c| (name(&c, "lang"), name(&c, "label"), name(&c, "caption")));
        let got = code_float_captures(s).map(|k| (Some(k.lang), Some(k.label), Some(k.caption)));
        assert_eq!(got, expected, "input {:?}", s);

        let expected = note.captures(s).map(|c| (name(&c, "mark"), name(&c, "body")));
        let got = footnote_captures(s).map(|k| (Some(k.mark), Some(k.body)));
        assert_eq!(got, expected, "input {:?}", s);

        let expected = eq.captures(s).map(|c| name(&c, "label").unwrap());
        assert_eq!(equation_label(s), expected, "input {:?}", s);

        let expected = mark.captures(s).map(|c| name(&c, "mark").unwrap());
        assert_eq!(footnote_ref_mark(s), expected, "input {:?}", s);
    }
}
