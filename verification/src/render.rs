//! The line classifier: renderer state, the per-line state machine, and
//! its complete functional model [`spec_render_line`].

use vstd::prelude::*;
use crate::ansi::{
    bold_seq, cyan_seq, gray_seq, green_seq, magenta_seq, reset_seq, yellow_seq,
};
use crate::ansi::{
    push_bold, push_cyan, push_gray, push_green, push_magenta, push_reset, push_yellow,
};
use crate::inline::{code_only_core, inline_core, nested_core, spec_code_only_from,
    spec_inline_from, spec_nested_from};
use crate::marker::{
    cand_ok, candidates_vec, find_run, find_run_vec, lemma_candidates_ok, lifted, run_at,
    run_at_vec, run_len_at, run_len_vec, spec_candidates, MarkerKind,
};
use crate::text::{
    append_all, chars_to_string, copy_range, to_char_vec, trim_vec, trimmed_of, ws_char,
    ws_scan_fwd,
};

verus! {

/// The label of a code-block opening line.
pub open spec fn block_open_label() -> Seq<char> {
    seq!['\u{250c}', '\u{2500}', ' ', '\u{4ee3}', '\u{7801}', '\u{5757}', '\u{5f00}', '\u{59cb}']
}

/// The label of a code-block closing line.
pub open spec fn block_close_label() -> Seq<char> {
    seq!['\u{2514}', '\u{2500}', ' ', '\u{4ee3}', '\u{7801}', '\u{5757}', '\u{7ed3}', '\u{675f}']
}

/// The fixed-width body of a rendered horizontal rule.
pub open spec fn rule_body() -> Seq<char> {
    seq![
        '\u{2500}',
        '\u{2500}',
        '\u{2500}',
        '\u{2500}',
        '\u{2500}',
        '\u{2500}',
        '\u{2500}',
    ]
}

/// The glyph prefix of a heading of the given level, trailing space
/// included; levels of six and above share one glyph.
pub open spec fn heading_glyph(level: nat) -> Seq<char> {
    if level == 1 {
        seq!['\u{2501}', '\u{2501}', ' ']
    } else if level == 2 {
        seq!['\u{2500}', '\u{2500}', ' ']
    } else if level == 3 {
        seq!['\u{25b8}', ' ']
    } else if level == 4 {
        seq!['\u{2022}', ' ']
    } else if level == 5 {
        seq!['\u{2023}', ' ']
    } else {
        seq!['\u{25e6}', ' ']
    }
}

/// Two indent spaces for each indentation level.
pub open spec fn indent_sp(level: int) -> Seq<char> {
    Seq::new((2 * (if level >= 0 { level } else { 0 })) as nat, |i: int| ' ')
}

/// A trimmed line that is a horizontal rule: at least three characters,
/// all equal, and drawn from the three rule characters.
pub open spec fn spec_is_hr(t: Seq<char>) -> bool {
    &&& t.len() >= 3
    &&& (t[0] == '-' || t[0] == '*' || t[0] == '_')
    &&& forall|i: int| 0 <= i < t.len() ==> #[trigger] t[i] == t[0]
}

/// A trimmed line that opens a list item: a dash or star marker followed
/// by a space, or a bare marker on its own.
pub open spec fn spec_is_list(t: Seq<char>) -> bool {
    ||| (t.len() >= 2 && t[0] == '-' && t[1] == ' ')
    ||| (t.len() >= 2 && t[0] == '*' && t[1] == ' ')
    ||| (t.len() == 1 && t[0] == '-')
    ||| (t.len() == 1 && t[0] == '*')
}

/// The complete model of one classifier step: from the raw line and the
/// renderer state, the rendered output and the next state, in the order
/// `(output, in_code_block, in_list, code_lang)`.
pub open spec fn spec_render_line(line: Seq<char>, in_code: bool, in_list: bool, lang: Seq<char>) -> (
    Seq<char>,
    bool,
    bool,
    Seq<char>,
) {
    let t = trimmed_of(line);
    if run_at(t, '`', 3, 0) && t.len() == 3 {
        if in_code {
            (
                green_seq() + bold_seq() + block_close_label() + reset_seq() + seq!['\n'],
                false,
                in_list,
                Seq::empty(),
            )
        } else {
            (
                green_seq() + bold_seq() + block_open_label() + reset_seq() + seq!['\n'],
                true,
                in_list,
                lang,
            )
        }
    } else if run_at(t, '`', 3, 0) && !in_code {
        let newlang = if t.len() > 3 {
            t.subrange(3, t.len() as int)
        } else {
            lang
        };
        (
            green_seq() + bold_seq() + block_open_label() + seq![' '] + newlang + reset_seq()
                + seq!['\n'],
            true,
            in_list,
            newlang,
        )
    } else if in_code {
        (green_seq() + line, in_code, in_list, lang)
    } else if t.len() > 0 && t[0] == '#' {
        let level = run_len_at(t, '#', 0);
        let title = trimmed_of(t.subrange(level as int, t.len() as int));
        (
            cyan_seq() + bold_seq() + heading_glyph(level) + spec_inline_from(title, 0)
                + reset_seq() + reset_seq() + seq!['\n'],
            in_code,
            in_list,
            lang,
        )
    } else if spec_is_hr(t) {
        (gray_seq() + rule_body() + reset_seq() + seq!['\n'], in_code, in_list, lang)
    } else if spec_is_list(t) {
        let level = ws_scan_fwd(line, 0) / 4;
        let content = if t.len() >= 2 {
            t.subrange(2, t.len() as int)
        } else {
            Seq::empty()
        };
        (
            indent_sp(level) + magenta_seq() + bold_seq() + seq![' ', '\u{2022}'] + reset_seq()
                + seq![' '] + spec_inline_from(content, 0) + reset_seq() + seq!['\n'],
            in_code,
            true,
            lang,
        )
    } else if t.len() > 0 && t[0] == '>' {
        let content = trimmed_of(t.subrange(1, t.len() as int));
        (
            yellow_seq() + bold_seq() + seq!['\u{2502}'] + reset_seq() + seq![' ']
                + spec_inline_from(content, 0) + reset_seq() + seq!['\n'],
            in_code,
            in_list,
            lang,
        )
    } else {
        (spec_inline_from(line, 0) + seq!['\n'], in_code, in_list, lang)
    }
}

/// Appends the code-block opening label to `out`.
fn push_block_open_label(out: &mut Vec<char>)
    ensures
        final(out)@ == old(out)@ + block_open_label(),
{
    out.push('\u{250c}');
    out.push('\u{2500}');
    out.push(' ');
    out.push('\u{4ee3}');
    out.push('\u{7801}');
    out.push('\u{5757}');
    out.push('\u{5f00}');
    out.push('\u{59cb}');
    proof {
        assert(out@ =~= old(out)@ + block_open_label());
    }
}

/// Appends the code-block closing label to `out`.
fn push_block_close_label(out: &mut Vec<char>)
    ensures
        final(out)@ == old(out)@ + block_close_label(),
{
    out.push('\u{2514}');
    out.push('\u{2500}');
    out.push(' ');
    out.push('\u{4ee3}');
    out.push('\u{7801}');
    out.push('\u{5757}');
    out.push('\u{7ed3}');
    out.push('\u{675f}');
    proof {
        assert(out@ =~= old(out)@ + block_close_label());
    }
}

/// Checks whether the (already trimmed) characters form a horizontal
/// rule.
fn is_hr_vec(t: &Vec<char>) -> (r: bool)
    ensures
        r == spec_is_hr(t@),
{
    let n = t.len();
    if n < 3 {
        return false;
    }
    let first = t[0];
    if !(first == '-' || first == '*' || first == '_') {
        return false;
    }
    let mut i: usize = 1;
    while i < n
        invariant
            1 <= i <= n == t@.len(),
            first == t@[0],
            forall|j: int| 0 <= j < i ==> #[trigger] t@[j] == t@[0],
        decreases n - i,
    {
        if t[i] != first {
            return false;
        }
        i = i + 1;
    }
    true
}

/// Counts the leading whitespace characters of `v`.
fn ws_prefix_vec(v: &Vec<char>) -> (a: usize)
    ensures
        a as int == ws_scan_fwd(v@, 0),
        a <= v@.len(),
{
    let n = v.len();
    let mut a: usize = 0;
    while a < n && ws_char(v[a])
        invariant
            a <= n == v@.len(),
            ws_scan_fwd(v@, 0) == ws_scan_fwd(v@, a as int),
        decreases n - a,
    {
        a = a + 1;
    }
    a
}

/// The streaming renderer state: an open fenced code block, its language
/// tag, and whether a list item has been rendered.
pub struct MarkdownRenderer {
    /// True while inside an open fenced code block.
    pub in_code_block: bool,
    /// True once any list item has been rendered.
    pub in_list: bool,
    /// The language tag of the open fenced block; meaningful only while
    /// `in_code_block` holds.
    pub code_lang: String,
}

impl MarkdownRenderer {
    /// A fresh renderer: no open fence, no list seen, no language tag.
    pub fn new() -> (r: MarkdownRenderer)
        ensures
            !r.in_code_block,
            !r.in_list,
            r.code_lang@ == Seq::<char>::empty(),
    {
        MarkdownRenderer { in_code_block: false, in_list: false, code_lang: String::new() }
    }

    /// Renders every inline span of `text`: the full pass of the span
    /// engine.
    pub fn apply_inline_formatting(&self, text: &str) -> (r: String)
        ensures
            r@ == spec_inline_from(text@, 0),
    {
        let v = to_char_vec(text);
        let out = inline_core(&v);
        chars_to_string(&out)
    }

    /// Renders the content of a bold span: italic markers and backtick
    /// pairs only.
    pub fn apply_nested_formatting(&self, text: &str) -> (r: String)
        ensures
            r@ == spec_nested_from(text@, 0),
    {
        let v = to_char_vec(text);
        let out = nested_core(&v);
        chars_to_string(&out)
    }

    /// Renders the content of an italic or bold-italic span: backtick
    /// pairs only.
    pub fn apply_code_only_formatting(&self, text: &str) -> (r: String)
        ensures
            r@ == spec_code_only_from(text@, 0),
    {
        let v = to_char_vec(text);
        let out = code_only_core(&v);
        chars_to_string(&out)
    }

    /// Lists the marker candidates of every family in `text`, each with
    /// its position shifted by `offset`, in the order the families are
    /// evaluated.
    pub fn find_format_candidates(&self, text: &str, offset: usize) -> (r: Vec<
        (usize, MarkerKind, usize),
    >)
        requires
            text@.len() + offset <= usize::MAX,
        ensures
            r@.len() == spec_candidates(text@, 0).len(),
            forall|i: int|
                0 <= i < r@.len() ==> {
                    let c = #[trigger] spec_candidates(text@, 0)[i];
                    r@[i].0 == c.0 + offset && r@[i].1 == c.1 && r@[i].2 == c.2
                },
    {
        let v = to_char_vec(text);
        let cands = candidates_vec(&v, 0);
        proof {
            lemma_candidates_ok(v@, 0);
        }
        let mut r: Vec<(usize, MarkerKind, usize)> = Vec::new();
        let mut i: usize = 0;
        while i < cands.len()
            invariant
                i <= cands@.len(),
                lifted(cands@) == spec_candidates(v@, 0),
                v@ == text@,
                text@.len() + offset <= usize::MAX,
                forall|j: int| 0 <= j < spec_candidates(v@, 0).len() ==> cand_ok(
                    v@,
                    0,
                    #[trigger] spec_candidates(v@, 0)[j],
                ),
                r@.len() == i,
                forall|j: int|
                    0 <= j < i ==> {
                        let c = #[trigger] spec_candidates(text@, 0)[j];
                        r@[j].0 == c.0 + offset && r@[j].1 == c.1 && r@[j].2 == c.2
                    },
            decreases cands@.len() - i,
        {
            let c = cands[i];
            proof {
                assert(spec_candidates(v@, 0)[i as int] == lifted(cands@)[i as int]);
                assert(cand_ok(v@, 0, spec_candidates(v@, 0)[i as int]));
            }
            r.push((c.0 + offset, c.1, c.2));
            i = i + 1;
        }
        r
    }

    /// Finds where the closing backtick run of an inline code span
    /// begins. `text` starts at the opening run, whose length is
    /// `count`; the closer is the first later backtick run at least as
    /// long, of which exactly `count` backticks close the span.
    pub fn find_matching_backticks(&self, text: &str, count: usize) -> (r: Option<usize>)
        requires
            1 <= count <= text@.len(),
        ensures
            ({
                let f = find_run(text@, '`', count as nat, count as int);
                match r {
                    Some(u) => f == Some(u as int),
                    None => f is None,
                }
            }),
    {
        let v = to_char_vec(text);
        find_run_vec(&v, '`', count, count)
    }


    /// Renders one line and updates the renderer state, as
    /// [`spec_render_line`] describes: fence boundaries toggle the code
    /// block, fenced content passes through verbatim behind the code
    /// color, and headings, rules, list items, quotes and paragraphs are
    /// decorated with their line-level glyphs around the span engine's
    /// output.
    #[verifier::rlimit(100)]
    pub fn render_line(&mut self, line: &str) -> (out: String)
        ensures
            ({
                let r = spec_render_line(
                    line@,
                    old(self).in_code_block,
                    old(self).in_list,
                    old(self).code_lang@,
                );
                &&& out@ == r.0
                &&& final(self).in_code_block == r.1
                &&& final(self).in_list == r.2
                &&& final(self).code_lang@ == r.3
            }),
    {
        let chars = to_char_vec(line);
        let t = trim_vec(&chars);
        let tn = t.len();
        let starts3 = if tn >= 3 {
            run_at_vec(&t, '`', 3, 0)
        } else {
            false
        };
        proof {
            if tn < 3 {
                assert(!run_at(t@, '`', 3, 0));
            }
        }
        if starts3 && tn == 3 {
            let mut out: Vec<char> = Vec::new();
            push_green(&mut out);
            push_bold(&mut out);
            if self.in_code_block {
                self.in_code_block = false;
                self.code_lang = String::new();
                push_block_close_label(&mut out);
            } else {
                self.in_code_block = true;
                push_block_open_label(&mut out);
            }
            push_reset(&mut out);
            out.push('\n');
            let s = chars_to_string(&out);
            proof {
                let r = spec_render_line(
                    line@,
                    old(self).in_code_block,
                    old(self).in_list,
                    old(self).code_lang@,
                );
                assert(s@ =~= r.0);
            }
            return s;
        }
        if starts3 && !self.in_code_block {
            if tn > 3 {
                let langv = copy_range(&t, 3, tn);
                self.code_lang = chars_to_string(&langv);
            }
            self.in_code_block = true;
            let mut out: Vec<char> = Vec::new();
            push_green(&mut out);
            push_bold(&mut out);
            push_block_open_label(&mut out);
            out.push(' ');
            let lv = to_char_vec(self.code_lang.as_str());
            append_all(&mut out, &lv);
            push_reset(&mut out);
            out.push('\n');
            let s = chars_to_string(&out);
            proof {
                let r = spec_render_line(
                    line@,
                    old(self).in_code_block,
                    old(self).in_list,
                    old(self).code_lang@,
                );
                assert(s@ =~= r.0);
            }
            return s;
        }
        if self.in_code_block {
            // Fenced content is passed through verbatim: the color escape
            // is prepended and the line keeps its own terminator.
            let mut out: Vec<char> = Vec::new();
            push_green(&mut out);
            append_all(&mut out, &chars);
            let s = chars_to_string(&out);
            proof {
                let r = spec_render_line(
                    line@,
                    old(self).in_code_block,
                    old(self).in_list,
                    old(self).code_lang@,
                );
                assert(s@ =~= r.0);
            }
            return s;
        }
        if tn > 0 && t[0] == '#' {
            let level = run_len_vec(&t, '#', 0);
            let rest = copy_range(&t, level, tn);
            let title = trim_vec(&rest);
            let formatted = inline_core(&title);
            let mut out: Vec<char> = Vec::new();
            push_cyan(&mut out);
            push_bold(&mut out);
            if level == 1 {
                out.push('\u{2501}');
                out.push('\u{2501}');
                out.push(' ');
            } else if level == 2 {
                out.push('\u{2500}');
                out.push('\u{2500}');
                out.push(' ');
            } else if level == 3 {
                out.push('\u{25b8}');
                out.push(' ');
            } else if level == 4 {
                out.push('\u{2022}');
                out.push(' ');
            } else if level == 5 {
                out.push('\u{2023}');
                out.push(' ');
            } else {
                out.push('\u{25e6}');
                out.push(' ');
            }
            append_all(&mut out, &formatted);
            push_reset(&mut out);
            push_reset(&mut out);
            out.push('\n');
            let s = chars_to_string(&out);
            proof {
                let r = spec_render_line(
                    line@,
                    old(self).in_code_block,
                    old(self).in_list,
                    old(self).code_lang@,
                );
                assert(s@ =~= r.0);
            }
            return s;
        }
        if is_hr_vec(&t) {
            let mut out: Vec<char> = Vec::new();
            push_gray(&mut out);
            let mut i: usize = 0;
            while i < 7
                invariant
                    i <= 7,
                    out@ == gray_seq() + rule_body().subrange(0, i as int),
                decreases 7 - i,
            {
                out.push('\u{2500}');
                i = i + 1;
                proof {
                    assert(out@ =~= gray_seq() + rule_body().subrange(0, i as int));
                }
            }
            push_reset(&mut out);
            out.push('\n');
            let s = chars_to_string(&out);
            proof {
                assert(rule_body().subrange(0, 7) =~= rule_body());
                let r = spec_render_line(
                    line@,
                    old(self).in_code_block,
                    old(self).in_list,
                    old(self).code_lang@,
                );
                assert(s@ =~= r.0);
            }
            return s;
        }
        let is_list = (tn >= 2 && t[0] == '-' && t[1] == ' ') || (tn >= 2 && t[0] == '*' && t[1]
            == ' ') || (tn == 1 && t[0] == '-') || (tn == 1 && t[0] == '*');
        if is_list {
            let a = ws_prefix_vec(&chars);
            let level = a / 4;
            let mut out: Vec<char> = Vec::new();
            let mut i: usize = 0;
            while i < level
                invariant
                    i <= level,
                    out@ == indent_sp(i as int),
                decreases level - i,
            {
                out.push(' ');
                out.push(' ');
                i = i + 1;
                proof {
                    assert(out@ =~= indent_sp(i as int));
                }
            }
            push_magenta(&mut out);
            push_bold(&mut out);
            out.push(' ');
            out.push('\u{2022}');
            push_reset(&mut out);
            out.push(' ');
            let content = if tn >= 2 {
                copy_range(&t, 2, tn)
            } else {
                Vec::new()
            };
            let formatted = inline_core(&content);
            append_all(&mut out, &formatted);
            push_reset(&mut out);
            out.push('\n');
            self.in_list = true;
            let s = chars_to_string(&out);
            proof {
                let r = spec_render_line(
                    line@,
                    old(self).in_code_block,
                    old(self).in_list,
                    old(self).code_lang@,
                );
                assert(s@ =~= r.0);
            }
            return s;
        }
        if tn > 0 && t[0] == '>' {
            let rest = copy_range(&t, 1, tn);
            let content = trim_vec(&rest);
            let formatted = inline_core(&content);
            let mut out: Vec<char> = Vec::new();
            push_yellow(&mut out);
            push_bold(&mut out);
            out.push('\u{2502}');
            push_reset(&mut out);
            out.push(' ');
            append_all(&mut out, &formatted);
            push_reset(&mut out);
            out.push('\n');
            let s = chars_to_string(&out);
            proof {
                let r = spec_render_line(
                    line@,
                    old(self).in_code_block,
                    old(self).in_list,
                    old(self).code_lang@,
                );
                assert(s@ =~= r.0);
            }
            return s;
        }
        let formatted = inline_core(&chars);
        let mut out: Vec<char> = Vec::new();
        append_all(&mut out, &formatted);
        out.push('\n');
        let s = chars_to_string(&out);
        proof {
            let r = spec_render_line(
                line@,
                old(self).in_code_block,
                old(self).in_list,
                old(self).code_lang@,
            );
            assert(s@ =~= r.0);
        }
        s
    }

    /// Whether a trimmed line is a horizontal rule: at least three
    /// characters, all equal to the first, which is `-`, `*` or `_`.
    pub fn is_horizontal_rule(&self, trimmed: &str) -> (r: bool)
        ensures
            r == spec_is_hr(trimmed@),
    {
        let t = to_char_vec(trimmed);
        is_hr_vec(&t)
    }
}

} // verus!
