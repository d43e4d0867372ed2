//! Properties of the conversion as a whole, proved from the handlers' specifications.
use vstd::prelude::*;
use crate::chars::{close_at, is_ws, join, lead, occurs_at, trail, trim};
use crate::patterns::heading;
use crate::text::{heading_line, text_spec};
use crate::driver::{run, step};
use crate::inline::inline_tex;
use crate::state::{
    begin_env, close_lists, contains, starts_with, end_env, ends_with_bar, list_item, list_spec, list_view, ConvertError,
    Outcome, StateView, MAX_NESTING,
};

verus! {

/// Output is never taken back: the fragments of the first `k` lines are the
/// first fragments of the whole run. In particular nothing is added when the
/// input ends, so a block still open at that point stays unclosed.
pub proof fn lemma_output_prefix(s: StateView, lines: Seq<Seq<char>>, k: int)
    requires
        0 <= k <= lines.len(),
    ensures
        run(s, lines.take(k)).1.len() <= run(s, lines).1.len(),
        run(s, lines).1.take(run(s, lines.take(k)).1.len() as int) == run(s, lines.take(k)).1,
    decreases lines.len(),
{
    if k == lines.len() {
        assert(lines.take(k) =~= lines);
        assert(run(s, lines).1.take(run(s, lines).1.len() as int) =~= run(s, lines).1);
    } else {
        let init = lines.drop_last();
        assert(init.take(k) =~= lines.take(k));
        lemma_output_prefix(s, init, k);
        let a = run(s, lines.take(k)).1;
        let b = run(s, init).1;
        let c = run(s, lines).1;
        assert(c == b || c == b.push(step(run(s, init).0, lines.last())->Ok_0.1));
        if c != b {
            assert(c.take(a.len() as int) =~= b.take(a.len() as int));
        }
    }
}

/// Converting more input only adds fragments: the output of `xs` is the
/// start of the output of `xs` followed by `ys`. Nothing is emitted when the
/// input ends, so a block that is still open stays without its closing markup.
pub proof fn lemma_output_extends(s: StateView, xs: Seq<Seq<char>>, ys: Seq<Seq<char>>)
    ensures
        run(s, xs).1.len() <= run(s, xs + ys).1.len(),
        run(s, xs + ys).1.take(run(s, xs).1.len() as int) == run(s, xs).1,
{
    assert((xs + ys).take(xs.len() as int) =~= xs);
    lemma_output_prefix(s, xs + ys, xs.len() as int);
}

/// A line that fails leaves the state and the output as they were.
pub proof fn lemma_failed_line(s: StateView, lines: Seq<Seq<char>>, line: Seq<char>)
    requires
        step(run(s, lines).0, line) is Err,
    ensures
        run(s, lines.push(line)) == run(s, lines),
{
    assert(lines.push(line).drop_last() =~= lines);
}

/// In a table's body, a row that does not end with `|` gives no fragment and
/// leaves the state as it was, so the rows after it convert as if it had not
/// been there.
pub proof fn lemma_malformed_row_run(
    s: StateView,
    xs: Seq<Seq<char>>,
    rule_every_row: bool,
    bad: Seq<char>,
    next: Seq<char>,
)
    requires
        run(s, xs).0 == StateView::TableBody(rule_every_row),
        trim(bad).len() > 0,
        !ends_with_bar(trim(bad)),
    ensures
        run(s, xs.push(bad)) == run(s, xs),
        run(s, xs.push(bad).push(next)) == run(s, xs.push(next)),
{
    lemma_malformed_row(rule_every_row, bad);
    lemma_failed_line(s, xs, bad);
    assert(xs.push(bad).push(next).drop_last() =~= xs.push(bad));
    assert(xs.push(next).drop_last() =~= xs);
}

/// Right after a table's header, a row (a line that starts with `|`, and is
/// neither the separator nor a rule policy) converts as a row of the body.
pub proof fn lemma_first_row(line: Seq<char>)
    requires
        starts_with(trim(line), "|"@),
        !starts_with(trim(line), "|---"@),
        !starts_with(trim(line), "| ---"@),
        !contains(trim(line), "line every row"@),
        !contains(trim(line), "line header only"@),
    ensures
        step(StateView::TableHeader, line) == step(StateView::TableBody(false), line),
{
}

/// A table row that does not end with `|` is refused.
pub proof fn lemma_malformed_row(rule_every_row: bool, line: Seq<char>)
    requires
        trim(line).len() > 0,
        !ends_with_bar(trim(line)),
    ensures
        step(StateView::TableBody(rule_every_row), line) == Outcome::Err(
            ConvertError::MalformedTableRow,
        ),
{
}

/// A list item indented deeper than the innermost level of a list that is
/// already nested `MAX_NESTING` deep is refused.
pub proof fn lemma_nesting_cap(ordered: bool, line: Seq<char>, s: Seq<u8>)
    requires
        s.len() == MAX_NESTING,
        list_item(ordered, trim(line)) is Some,
        lead(line) <= 255,
        lead(line) > s.last(),
    ensures
        list_spec(ordered, line, s) == Outcome::Err(ConvertError::NestingOverflow),
{
    assert(trim(line).len() > 0);
}

/// The indentations of an open list: at least one level, at most
/// `MAX_NESTING`, each deeper than the one it is nested in.
pub open spec fn stack_ok(s: Seq<u8>) -> bool {
    1 <= s.len() <= MAX_NESTING && forall|i: int, j: int| 0 <= i < j < s.len() ==> s[i] < s[j]
}

pub open spec fn state_ok(v: StateView) -> bool {
    match v {
        StateView::Ordered(s) => stack_ok(s),
        StateView::Unordered(s) => stack_ok(s),
        _ => true,
    }
}

proof fn lemma_list_ok(ordered: bool, line: Seq<char>, s: Seq<u8>)
    requires
        stack_ok(s),
    ensures
        list_spec(ordered, line, s) matches Ok((v, _)) ==> state_ok(v),
    decreases s.len(),
{
    let t = trim(line);
    if t.len() > 0 && list_item(ordered, t) is Some {
        let ind = lead(line);
        if ind <= 255 && ind > s.last() && s.len() < MAX_NESTING {
            let s2 = s.push(ind as u8);
            assert forall|i: int, j: int| 0 <= i < j < s2.len() implies s2[i] < s2[j] by {
                if j == s.len() {
                    if i < s.len() - 1 {
                        assert(s[i] < s[s.len() - 1]);
                    }
                } else {
                    assert(s[i] < s[j]);
                }
            }
        } else if ind <= 255 && ind < s.last() && s.len() > 1 {
            let s1 = s.drop_last();
            assert forall|i: int, j: int| 0 <= i < j < s1.len() implies s1[i] < s1[j] by {
                assert(s[i] < s[j]);
            }
            lemma_list_ok(ordered, line, s1);
        }
    }
}

/// Every state that a line leads to from a sound state is sound: in
/// particular a list state never holds an empty stack.
pub proof fn lemma_step_ok(v: StateView, line: Seq<char>)
    requires
        state_ok(v),
    ensures
        step(v, line) matches Ok((w, _)) ==> state_ok(w),
{
    match v {
        StateView::Ordered(s) => lemma_list_ok(true, line, s),
        StateView::Unordered(s) => lemma_list_ok(false, line, s),
        _ => {},
    }
}

/// A run from a sound state stays in sound states.
pub proof fn lemma_run_ok(v: StateView, lines: Seq<Seq<char>>)
    requires
        state_ok(v),
    ensures
        state_ok(run(v, lines).0),
    decreases lines.len(),
{
    if lines.len() > 0 {
        lemma_run_ok(v, lines.drop_last());
        lemma_step_ok(run(v, lines.drop_last()).0, lines.last());
    }
}

/// `n` list closings, one per line.
pub open spec fn closings(ordered: bool, n: nat) -> Seq<char>
    decreases n,
{
    if n == 0 {
        Seq::empty()
    } else {
        closings(ordered, (n - 1) as nat) + end_env(ordered) + "\n"@
    }
}

/// The nesting depth of a state: the number of open lists.
pub open spec fn depth(v: StateView) -> nat {
    match v {
        StateView::Ordered(s) => s.len(),
        StateView::Unordered(s) => s.len(),
        _ => 0,
    }
}

/// Fragment `f` starts with `c` closings and `o` openings, and the depth went
/// from `d` to that of `v` by those: `c` down, `o` up.
pub open spec fn level_shape(
    ordered: bool,
    d: nat,
    v: StateView,
    f: Seq<char>,
    c: nat,
    o: nat,
    rest: Seq<char>,
) -> bool {
    &&& o <= 1
    &&& depth(v) + c == d + o
    &&& f == closings(ordered, c) + (if o == 1 {
        begin_env(ordered)
    } else {
        Seq::empty()
    }) + rest
    &&& (v == StateView::Text ==> c == d && rest.len() == 0)
}

proof fn lemma_closings_front(ordered: bool, n: nat)
    ensures
        closings(ordered, n + 1) == end_env(ordered) + "\n"@ + closings(ordered, n),
    decreases n,
{
    if n > 0 {
        lemma_closings_front(ordered, (n - 1) as nat);
        assert(closings(ordered, n + 1) =~= end_env(ordered) + "\n"@ + closings(ordered, n));
    } else {
        assert(closings(ordered, 1) =~= end_env(ordered) + "\n"@ + closings(ordered, 0));
    }
}

proof fn lemma_close_lists(ordered: bool, n: nat)
    requires
        n >= 1,
    ensures
        close_lists(ordered, n) == closings(ordered, n),
    decreases n,
{
    let ps = Seq::new(n, |_i: int| end_env(ordered));
    if n == 1 {
        assert(closings(ordered, 0) =~= Seq::empty());
        assert(close_lists(ordered, 1) =~= closings(ordered, 1));
    } else {
        lemma_close_lists(ordered, (n - 1) as nat);
        assert(ps.drop_last() =~= Seq::new((n - 1) as nat, |_i: int| end_env(ordered)));
        assert(join(ps, "\n"@) == join(ps.drop_last(), "\n"@) + "\n"@ + end_env(ordered));
        assert(close_lists(ordered, n) =~= closings(ordered, n));
    }
}

/// Each list line opens at most one level and closes some number of levels,
/// and its fragment starts with exactly those closings and that opening: the
/// environments that a run opens and closes follow the change of depth. A
/// blank line closes every open level and nothing else.
#[verifier::rlimit(50)]
pub proof fn lemma_list_levels(ordered: bool, line: Seq<char>, s: Seq<u8>)
    requires
        stack_ok(s),
    ensures
        list_spec(ordered, line, s) matches Ok((v, f)) ==> exists|c: nat, o: nat, rest: Seq<char>|
            #[trigger] level_shape(ordered, s.len(), v, f, c, o, rest),
    decreases s.len(),
{
    let t = trim(line);
    match list_spec(ordered, line, s) {
        Ok((v, f)) => {
            if t.len() == 0 {
                lemma_close_lists(ordered, s.len());
                assert(f =~= closings(ordered, s.len()) + Seq::empty() + Seq::<char>::empty());
                assert(level_shape(ordered, s.len(), v, f, s.len(), 0, Seq::empty()));
            } else if list_item(ordered, t) is None {
                assert(f =~= closings(ordered, 0) + Seq::empty() + f);
                assert(level_shape(ordered, s.len(), v, f, 0, 0, f));
            } else {
                let ind = lead(line);
                if ind == s.last() {
                    assert(f =~= closings(ordered, 0) + Seq::empty() + f);
                    assert(level_shape(ordered, s.len(), v, f, 0, 0, f));
                } else if ind > s.last() {
                    let rest = f.subrange(begin_env(ordered).len() as int, f.len() as int);
                    assert(f =~= closings(ordered, 0) + begin_env(ordered) + rest);
                    assert(level_shape(ordered, s.len(), v, f, 0, 1, rest));
                } else {
                    let s1 = s.drop_last();
                    assert forall|i: int, j: int| 0 <= i < j < s1.len() implies s1[i] < s1[j] by {
                        assert(s[i] < s[j]);
                    }
                    lemma_list_levels(ordered, line, s1);
                    let f1 = list_spec(ordered, line, s1)->Ok_0.1;
                    let (c, o, rest) = choose|c: nat, o: nat, rest: Seq<char>|
                        #[trigger] level_shape(ordered, s1.len(), v, f1, c, o, rest);
                    lemma_closings_front(ordered, c);
                    assert(f =~= closings(ordered, c + 1) + (if o == 1 {
                        begin_env(ordered)
                    } else {
                        Seq::empty()
                    }) + rest);
                    assert(level_shape(ordered, s.len(), v, f, c + 1, o, rest));
                }
            }
        },
        Err(_) => {},
    }
}

proof fn lemma_trim_plain(x: Seq<char>)
    requires
        x.len() > 0,
        !is_ws(x[0]),
        !is_ws(x.last()),
    ensures
        trim(x) == x,
{
    assert(lead(x) == 0);
    assert(trail(x) == 0);
    assert(x.subrange(0, x.len() as int) =~= x);
}

proof fn lemma_close_at(t: Seq<char>, d: char, k: int, j: int)
    requires
        0 <= k <= j < t.len(),
        t[j] == d,
        forall|q: int| k <= q < j ==> t[q] != d && t[q] != '\n',
        d != '\n',
    ensures
        close_at(t, d, k) == j,
    decreases j - k,
{
    if k < j {
        lemma_close_at(t, d, k + 1, j);
    }
}

/// The marker of a heading: two hashes for a chapter, three for a section,
/// four for a subsection, five for a subsubsection; then a space.
pub open spec fn heading_marker(level: nat) -> Seq<char> {
    Seq::new(level + 2, |_i: int| '#').push(' ')
}

pub open spec fn heading_command(level: nat) -> Seq<char> {
    if level == 0 {
        "\\chapter{"@
    } else if level == 1 {
        "\\section{"@
    } else if level == 2 {
        "\\subsection{"@
    } else {
        "\\subsubsection{"@
    }
}

proof fn lemma_heading_parse(level: nat, x: Seq<char>, other: nat)
    requires
        level <= 3,
        other <= 3,
    ensures
        other == level ==> heading(heading_marker(level) + x, heading_marker(other)) == Some(
            heading(heading_marker(level) + x, heading_marker(level))->0,
        ),
        other == level ==> (heading_marker(level) + x).subrange(
            heading_marker(level).len() as int,
            (heading_marker(level) + x).len() as int,
        ) == x,
        other > level ==> heading(heading_marker(level) + x, heading_marker(other)) is None,
{
    let t = heading_marker(level) + x;
    let m = heading_marker(other);
    if other > level {
        let q = (level + 2) as int;
        assert(t[q] == ' ');
        assert(m[q] == '#');
        if m.len() <= t.len() {
            assert(t.subrange(0, m.len() as int)[q] == t[q]);
        }
    } else if other == level {
        assert(t.subrange(0, m.len() as int) =~= m);
        assert(t.subrange(m.len() as int, t.len() as int) =~= x);
    }
}

/// In the default state a line that is a heading marker followed by `x`
/// gives the heading's command.
#[verifier::rlimit(60)]
proof fn lemma_text_heading(level: nat, x: Seq<char>)
    requires
        level <= 3,
        x.len() > 0,
        !is_ws(x.last()),
    ensures
        text_spec(heading_marker(level) + x) == Outcome::Ok(
            (
                StateView::Text,
                heading_line(
                    heading_command(level),
                    heading(heading_marker(level) + x, heading_marker(level))->0,
                ),
            ),
        ),
{
    reveal_strlit("# ");
    reveal_strlit("## ");
    reveal_strlit("### ");
    reveal_strlit("#### ");
    reveal_strlit("##### ");
    assert(heading_marker(0) =~= "## "@);
    assert(heading_marker(1) =~= "### "@);
    assert(heading_marker(2) =~= "#### "@);
    assert(heading_marker(3) =~= "##### "@);
    let t = heading_marker(level) + x;
    lemma_trim_plain(t);
    assert(t[1] == '#');
    assert(t.subrange(0, 2)[1] == '#');
    lemma_heading_parse(level, x, 0);
    lemma_heading_parse(level, x, 1);
    lemma_heading_parse(level, x, 2);
    lemma_heading_parse(level, x, 3);
}

/// A heading line converts to its sectioning command around the text, kept
/// as it is. The text is what remains of a trimmed line, so it is not empty
/// and ends in a character that is not whitespace; and it does not open with
/// an anchor `[]{#`.
pub proof fn lemma_heading(level: nat, text: Seq<char>)
    requires
        level <= 3,
        text.len() > 0,
        !is_ws(text.last()),
        !occurs_at(text, "[]{#"@, 0),
    ensures
        text_spec(heading_marker(level) + text) == Outcome::Ok(
            (StateView::Text, heading_command(level) + text + "}\n"@),
        ),
{
    reveal_strlit("}");
    reveal_strlit("}\n");
    reveal_strlit("\n");
    let m = heading_marker(level);
    lemma_text_heading(level, text);
    lemma_heading_parse(level, text, level);
    assert(heading(m + text, m) == Some((None::<Seq<char>>, text)));
    assert(heading_line(heading_command(level), (None, text)) =~= heading_command(level) + text
        + "}\n"@);
}

/// An anchor `[]{#id}` before a heading's text adds a label command with
/// `id` after the sectioning command. The anchor ends at the first `}`, so
/// `id` holds none; the text may be empty, and otherwise ends in a
/// character that is not whitespace, as a trimmed line does.
#[verifier::rlimit(50)]
pub proof fn lemma_heading_anchor(level: nat, id: Seq<char>, text: Seq<char>)
    requires
        level <= 3,
        id.len() > 0,
        forall|i: int| 0 <= i < id.len() ==> id[i] != '}' && id[i] != '\n',
        text.len() == 0 || !is_ws(text.last()),
    ensures
        text_spec(heading_marker(level) + ("[]{#"@ + id + "}"@ + text)) == Outcome::Ok(
            (
                StateView::Text,
                heading_command(level) + text + "}"@ + "\\label{"@ + id + "}"@ + "\n"@,
            ),
        ),
{
    reveal_strlit("[]{#");
    reveal_strlit("}");
    reveal_strlit("\n");
    let m = heading_marker(level);
    let lab = "[]{#"@ + id + "}"@ + text;
    let j = 4 + id.len() as int;
    assert(lab[j] == '}');
    if text.len() == 0 {
        assert(lab.last() == '}');
    } else {
        assert(lab.last() == text.last());
    }
    lemma_text_heading(level, lab);
    lemma_heading_parse(level, lab, level);
    assert forall|q: int| 5 <= q < j implies lab[q] != '}' && lab[q] != '\n' by {
        assert(lab[q] == id[q - 4]);
    }
    lemma_close_at(lab, '}', 5, j);
    assert(lab.subrange(0, 4) =~= "[]{#"@);
    assert(lab.subrange(4, j) =~= id);
    assert(lab.subrange(j + 1, lab.len() as int) =~= text);
    assert(heading(m + lab, m) == Some((Some(id), text)));
    assert(heading_line(heading_command(level), (Some(id), text)) =~= heading_command(level)
        + text + "}"@ + "\\label{"@ + id + "}"@ + "\n"@);
}

} // verus!
