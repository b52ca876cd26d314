//! The inline span engine: finds emphasis and code markers inside a text
//! fragment, resolves matched pairs into ANSI-decorated spans, and leaves
//! unmatched markers as literal text.
//!
//! The engine has three passes with different marker vocabularies: the full
//! pass used on plain text, a nested pass used inside bold spans (italic
//! and code only), and a code-only pass used inside italic and bold-italic
//! spans.

use vstd::prelude::*;
use crate::ansi::{
    bold_italic_seq, bold_seq, dark_orange_red_seq, italic_seq, light_gray_bg_seq, reset_seq,
};
use crate::ansi::{
    push_bold, push_bold_italic, push_dark_orange_red, push_italic, push_light_gray_bg, push_reset,
};
use crate::marker::{
    find_run, find_run_vec, lemma_find_run, lemma_next_marker_ok, lemma_run_len_at, marker_char, marker_len,
    marker_char_vec, next_marker, next_marker_vec, run_len_at, run_len_vec, MarkerKind,
};
use crate::text::{append_all, append_range, copy_range};

verus! {

/// An inline code span: the content between a light-gray background and a
/// reset, padded with one space on each side.
pub open spec fn code_wrap(content: Seq<char>) -> Seq<char> {
    light_gray_bg_seq() + dark_orange_red_seq() + seq![' '] + content + seq![' '] + reset_seq()
}

/// The code-only pass from position `pos`: backtick pairs become code
/// spans, everything else is literal.
pub open spec fn spec_code_only_from(s: Seq<char>, pos: int) -> Seq<char>
    decreases s.len() - pos,
{
    if pos < 0 || pos >= s.len() {
        Seq::empty()
    } else {
        match find_run(s, '`', 1, pos) {
            None => s.subrange(pos, s.len() as int),
            Some(i) => {
                proof {
                    lemma_find_run(s, '`', 1, pos);
                    lemma_find_run(s, '`', 1, i + 1);
                }
                match find_run(s, '`', 1, i + 1) {
                    None => s.subrange(pos, s.len() as int),
                    Some(j) => s.subrange(pos, i) + code_wrap(s.subrange(i + 1, j))
                        + spec_code_only_from(s, j + 1),
                }
            },
        }
    }
}

/// Appends an inline code span holding `v[from..to]` to `out`.
pub fn append_code_wrap(out: &mut Vec<char>, v: &Vec<char>, from: usize, to: usize)
    requires
        from <= to <= v@.len(),
    ensures
        final(out)@ == old(out)@ + code_wrap(v@.subrange(from as int, to as int)),
{
    push_light_gray_bg(out);
    push_dark_orange_red(out);
    out.push(' ');
    append_range(out, v, from, to);
    out.push(' ');
    push_reset(out);
    proof {
        assert(out@ =~= old(out)@ + code_wrap(v@.subrange(from as int, to as int)));
    }
}

/// Runs the code-only pass over all of `v`.
pub fn code_only_core(v: &Vec<char>) -> (out: Vec<char>)
    ensures
        out@ == spec_code_only_from(v@, 0),
{
    let n = v.len();
    let mut out: Vec<char> = Vec::new();
    let mut pos: usize = 0;
    while pos < n
        invariant
            pos <= n == v@.len(),
            out@ + spec_code_only_from(v@, pos as int) == spec_code_only_from(v@, 0),
        decreases n - pos,
    {
        let ghost out0 = out@;
        let ghost p0 = pos as int;
        let opener = find_run_vec(v, '`', 1, pos);
        let mut closer: Option<usize> = None;
        if let Some(i) = opener {
            proof {
                lemma_find_run(v@, '`', 1, p0);
            }
            closer = find_run_vec(v, '`', 1, i + 1);
        }
        match (opener, closer) {
            (Some(i), Some(j)) => {
                proof {
                    lemma_find_run(v@, '`', 1, i + 1);
                }
                append_range(&mut out, v, pos, i);
                append_code_wrap(&mut out, v, i + 1, j);
                pos = j + 1;
                proof {
                    assert(spec_code_only_from(v@, p0) == v@.subrange(p0, i as int) + code_wrap(
                        v@.subrange(i + 1, j as int),
                    ) + spec_code_only_from(v@, pos as int));
                    assert(out@ + spec_code_only_from(v@, pos as int) =~= out0 + spec_code_only_from(
                        v@,
                        p0,
                    ));
                }
            },
            _ => {
                // No code span can start here: the rest is literal.
                append_range(&mut out, v, pos, n);
                pos = n;
                proof {
                    assert(spec_code_only_from(v@, p0) == v@.subrange(p0, n as int));
                    assert(out@ + spec_code_only_from(v@, pos as int) =~= out0 + spec_code_only_from(
                        v@,
                        p0,
                    ));
                }
            },
        }
    }
    proof {
        assert(out@ =~= out@ + spec_code_only_from(v@, pos as int));
    }
    out
}

/// Keeps the earlier of the pick so far and a newly found occurrence of
/// `ch`; the pick so far wins ties.
pub open spec fn pick_earlier(x: Option<(int, char)>, f: Option<int>, ch: char) -> Option<(int, char)> {
    match f {
        None => x,
        Some(i) => match x {
            None => Some((i, ch)),
            Some(p) => if i < p.0 {
                Some((i, ch))
            } else {
                x
            },
        },
    }
}

/// The marker the nested pass handles next: the leftmost occurrence of
/// `*`, `_` or a backtick at or after `pos`.
pub open spec fn nested_pick(s: Seq<char>, pos: int) -> Option<(int, char)> {
    pick_earlier(
        pick_earlier(pick_earlier(None, find_run(s, '*', 1, pos), '*'), find_run(s, '_', 1, pos), '_'),
        find_run(s, '`', 1, pos),
        '`',
    )
}

/// The nested pass picks an in-range occurrence of one of its three
/// marker characters.
pub proof fn lemma_nested_pick(s: Seq<char>, pos: int)
    requires
        0 <= pos,
    ensures
        nested_pick(s, pos) matches Some(p) ==> {
            &&& pos <= p.0
            &&& p.0 + 1 <= s.len()
            &&& s[p.0] == p.1
        },
{
    lemma_find_run(s, '*', 1, pos);
    lemma_find_run(s, '_', 1, pos);
    lemma_find_run(s, '`', 1, pos);
}

/// The nested pass from position `pos`: single-character italic markers
/// and backtick pairs are resolved, the italic content itself staying
/// literal; everything else is literal.
pub open spec fn spec_nested_from(s: Seq<char>, pos: int) -> Seq<char>
    decreases s.len() - pos,
{
    if pos < 0 || pos >= s.len() {
        Seq::empty()
    } else {
        match nested_pick(s, pos) {
            None => s.subrange(pos, s.len() as int),
            Some((st, ch)) => {
                proof {
                    lemma_nested_pick(s, pos);
                    lemma_find_run(s, ch, 1, st + 1);
                }
                match find_run(s, ch, 1, st + 1) {
                    None => s.subrange(pos, st + 1) + spec_nested_from(s, st + 1),
                    Some(e) => if ch == '`' {
                        s.subrange(pos, st) + code_wrap(s.subrange(st + 1, e)) + spec_nested_from(
                            s,
                            e + 1,
                        )
                    } else {
                        s.subrange(pos, st) + italic_seq() + s.subrange(st + 1, e) + reset_seq()
                            + spec_nested_from(s, e + 1)
                    },
                }
            },
        }
    }
}

/// [`nested_pick`] at the executable level.
pub open spec fn lift_pick(p: Option<(usize, char)>) -> Option<(int, char)> {
    match p {
        Some(x) => Some((x.0 as int, x.1)),
        None => None,
    }
}

/// Finds the marker the nested pass handles next at or after `from`.
fn nested_pick_vec(v: &Vec<char>, from: usize) -> (p: Option<(usize, char)>)
    requires
        from <= v@.len(),
    ensures
        lift_pick(p) == nested_pick(v@, from as int),
{
    let fs = find_run_vec(v, '*', 1, from);
    let fu = find_run_vec(v, '_', 1, from);
    let fc = find_run_vec(v, '`', 1, from);
    let mut p: Option<(usize, char)> = None;
    if let Some(i) = fs {
        p = Some((i, '*'));
    }
    if let Some(i) = fu {
        p = match p {
            None => Some((i, '_')),
            Some(q) => if i < q.0 {
                Some((i, '_'))
            } else {
                Some(q)
            },
        };
    }
    if let Some(i) = fc {
        p = match p {
            None => Some((i, '`')),
            Some(q) => if i < q.0 {
                Some((i, '`'))
            } else {
                Some(q)
            },
        };
    }
    p
}

/// Runs the nested pass over all of `v`.
pub fn nested_core(v: &Vec<char>) -> (out: Vec<char>)
    ensures
        out@ == spec_nested_from(v@, 0),
{
    let n = v.len();
    let mut out: Vec<char> = Vec::new();
    let mut pos: usize = 0;
    while pos < n
        invariant
            pos <= n == v@.len(),
            out@ + spec_nested_from(v@, pos as int) == spec_nested_from(v@, 0),
        decreases n - pos,
    {
        let ghost out0 = out@;
        let ghost p0 = pos as int;
        match nested_pick_vec(v, pos) {
            None => {
                append_range(&mut out, v, pos, n);
                pos = n;
                proof {
                    assert(spec_nested_from(v@, p0) == v@.subrange(p0, n as int));
                    assert(out@ + spec_nested_from(v@, pos as int) =~= out0 + spec_nested_from(
                        v@,
                        p0,
                    ));
                }
            },
            Some((st, ch)) => {
                proof {
                    lemma_nested_pick(v@, p0);
                }
                match find_run_vec(v, ch, 1, st + 1) {
                    None => {
                        append_range(&mut out, v, pos, st + 1);
                        pos = st + 1;
                        proof {
                            assert(spec_nested_from(v@, p0) == v@.subrange(p0, st + 1)
                                + spec_nested_from(v@, pos as int));
                            assert(out@ + spec_nested_from(v@, pos as int) =~= out0
                                + spec_nested_from(v@, p0));
                        }
                    },
                    Some(e) => {
                        proof {
                            lemma_find_run(v@, ch, 1, st + 1);
                        }
                        append_range(&mut out, v, pos, st);
                        if ch == '`' {
                            append_code_wrap(&mut out, v, st + 1, e);
                        } else {
                            push_italic(&mut out);
                            append_range(&mut out, v, st + 1, e);
                            push_reset(&mut out);
                        }
                        pos = e + 1;
                        proof {
                            if ch == '`' {
                                assert(spec_nested_from(v@, p0) == v@.subrange(p0, st as int)
                                    + code_wrap(v@.subrange(st + 1, e as int)) + spec_nested_from(
                                    v@,
                                    pos as int,
                                ));
                            } else {
                                assert(spec_nested_from(v@, p0) == v@.subrange(p0, st as int)
                                    + italic_seq() + v@.subrange(st + 1, e as int) + reset_seq()
                                    + spec_nested_from(v@, pos as int));
                            }
                            assert(out@ + spec_nested_from(v@, pos as int) =~= out0
                                + spec_nested_from(v@, p0));
                        }
                    },
                }
            },
        }
    }
    proof {
        assert(out@ =~= out@ + spec_nested_from(v@, pos as int));
    }
    out
}


/// The full pass from position `pos`: the leftmost marker candidate is
/// handled, its span content is decorated by the pass its family allows,
/// an unmatched opener stays literal, and the scan continues after the
/// consumed text.
pub open spec fn spec_inline_from(s: Seq<char>, pos: int) -> Seq<char>
    decreases s.len() - pos,
{
    if pos < 0 || pos >= s.len() {
        Seq::empty()
    } else {
        match next_marker(s, pos) {
            None => s.subrange(pos, s.len() as int),
            Some((start, kind, mlen)) => {
                proof {
                    lemma_next_marker_ok(s, pos);
                }
                match kind {
                    MarkerKind::BoldItalicStar | MarkerKind::BoldItalicUnderscore => {
                        let c = marker_char(kind);
                        proof {
                            lemma_find_run(s, c, 3, start + 3);
                        }
                        match find_run(s, c, 3, start + 3) {
                            None => s.subrange(pos, start + 3) + spec_inline_from(s, start + 3),
                            Some(e) => s.subrange(pos, start) + bold_italic_seq()
                                + spec_code_only_from(s.subrange(start + 3, e), 0) + reset_seq()
                                + spec_inline_from(s, e + 3),
                        }
                    },
                    MarkerKind::BoldStar | MarkerKind::BoldUnderscore => {
                        let c = marker_char(kind);
                        proof {
                            lemma_find_run(s, c, 2, start + 2);
                        }
                        match find_run(s, c, 2, start + 2) {
                            None => s.subrange(pos, start + 2) + spec_inline_from(s, start + 2),
                            Some(e) => s.subrange(pos, start) + bold_seq() + spec_nested_from(
                                s.subrange(start + 2, e),
                                0,
                            ) + reset_seq() + spec_inline_from(s, e + 2),
                        }
                    },
                    MarkerKind::ItalicStar | MarkerKind::ItalicUnderscore => {
                        let c = marker_char(kind);
                        proof {
                            lemma_find_run(s, c, 1, start + 1);
                        }
                        match find_run(s, c, 1, start + 1) {
                            None => s.subrange(pos, start + 1) + spec_inline_from(s, start + 1),
                            Some(e) => s.subrange(pos, start) + italic_seq()
                                + spec_code_only_from(s.subrange(start + 1, e), 0) + reset_seq()
                                + spec_inline_from(s, e + 1),
                        }
                    },
                    MarkerKind::Code => {
                        let k = run_len_at(s, '`', start);
                        proof {
                            lemma_run_len_at(s, '`', start);
                            lemma_find_run(s, '`', k, start + k);
                        }
                        if k >= 3 {
                            // A backtick run of three or more stays literal inline.
                            s.subrange(pos, start + k) + spec_inline_from(s, start + k)
                        } else {
                            match find_run(s, '`', k, start + k) {
                                None => s.subrange(pos, start + 1) + spec_inline_from(s, start + 1),
                                Some(cs) => s.subrange(pos, start) + code_wrap(
                                    s.subrange(start + k, cs),
                                ) + spec_inline_from(s, cs + k),
                            }
                        }
                    },
                }
            },
        }
    }
}

/// Handles a bold-italic opener at `start`: the loop step of the full
/// pass for that family. Returns the position the scan continues at and
/// preserves the rendered-so-far sum.
fn step_bold_italic(out: &mut Vec<char>, v: &Vec<char>, pos: usize, start: usize, kind: MarkerKind) -> (np: usize)
    requires
        pos < v@.len(),
        kind == MarkerKind::BoldItalicStar || kind == MarkerKind::BoldItalicUnderscore,
        next_marker(v@, pos as int) == Some((start as int, kind, marker_len(kind) as int)),
    ensures
        pos < np <= v@.len(),
        final(out)@ + spec_inline_from(v@, np as int) == old(out)@ + spec_inline_from(v@, pos as int),
{
    proof {
        lemma_next_marker_ok(v@, pos as int);
    }
    let n = v.len();
    let ghost p0 = pos as int;
    proof {
        assert(n == v@.len());
    }
    let c = marker_char_vec(kind);
    match find_run_vec(v, c, 3, start + 3) {
        None => {
            append_range(out, v, pos, start + 3);
            proof {
                assert(spec_inline_from(v@, p0) == v@.subrange(p0, start + 3) + spec_inline_from(
                    v@,
                    start + 3,
                ));
            }
            start + 3
        },
        Some(e) => {
            proof {
                lemma_find_run(v@, c, 3, start + 3);
            }
            let content = copy_range(v, start + 3, e);
            let formatted = code_only_core(&content);
            append_range(out, v, pos, start);
            push_bold_italic(out);
            append_all(out, &formatted);
            push_reset(out);
            proof {
                assert(spec_inline_from(v@, p0) == v@.subrange(p0, start as int) + bold_italic_seq()
                    + spec_code_only_from(v@.subrange(start + 3, e as int), 0) + reset_seq()
                    + spec_inline_from(v@, e + 3));
                assert(out@ + spec_inline_from(v@, e + 3) =~= old(out)@ + spec_inline_from(v@, p0));
            }
            e + 3
        },
    }
}

/// Handles a bold opener at `start`: the loop step of the full pass for
/// that family.
fn step_bold(out: &mut Vec<char>, v: &Vec<char>, pos: usize, start: usize, kind: MarkerKind) -> (np: usize)
    requires
        pos < v@.len(),
        kind == MarkerKind::BoldStar || kind == MarkerKind::BoldUnderscore,
        next_marker(v@, pos as int) == Some((start as int, kind, marker_len(kind) as int)),
    ensures
        pos < np <= v@.len(),
        final(out)@ + spec_inline_from(v@, np as int) == old(out)@ + spec_inline_from(v@, pos as int),
{
    proof {
        lemma_next_marker_ok(v@, pos as int);
    }
    let n = v.len();
    let ghost p0 = pos as int;
    proof {
        assert(n == v@.len());
    }
    let c = marker_char_vec(kind);
    match find_run_vec(v, c, 2, start + 2) {
        None => {
            append_range(out, v, pos, start + 2);
            proof {
                assert(spec_inline_from(v@, p0) == v@.subrange(p0, start + 2) + spec_inline_from(
                    v@,
                    start + 2,
                ));
            }
            start + 2
        },
        Some(e) => {
            proof {
                lemma_find_run(v@, c, 2, start + 2);
            }
            let content = copy_range(v, start + 2, e);
            let formatted = nested_core(&content);
            append_range(out, v, pos, start);
            push_bold(out);
            append_all(out, &formatted);
            push_reset(out);
            proof {
                assert(spec_inline_from(v@, p0) == v@.subrange(p0, start as int) + bold_seq()
                    + spec_nested_from(v@.subrange(start + 2, e as int), 0) + reset_seq()
                    + spec_inline_from(v@, e + 2));
                assert(out@ + spec_inline_from(v@, e + 2) =~= old(out)@ + spec_inline_from(v@, p0));
            }
            e + 2
        },
    }
}

/// Handles an italic opener at `start`: the loop step of the full pass
/// for that family.
fn step_italic(out: &mut Vec<char>, v: &Vec<char>, pos: usize, start: usize, kind: MarkerKind) -> (np: usize)
    requires
        pos < v@.len(),
        kind == MarkerKind::ItalicStar || kind == MarkerKind::ItalicUnderscore,
        next_marker(v@, pos as int) == Some((start as int, kind, marker_len(kind) as int)),
    ensures
        pos < np <= v@.len(),
        final(out)@ + spec_inline_from(v@, np as int) == old(out)@ + spec_inline_from(v@, pos as int),
{
    proof {
        lemma_next_marker_ok(v@, pos as int);
    }
    let n = v.len();
    let ghost p0 = pos as int;
    proof {
        assert(n == v@.len());
    }
    let c = marker_char_vec(kind);
    match find_run_vec(v, c, 1, start + 1) {
        None => {
            append_range(out, v, pos, start + 1);
            proof {
                assert(spec_inline_from(v@, p0) == v@.subrange(p0, start + 1) + spec_inline_from(
                    v@,
                    start + 1,
                ));
            }
            start + 1
        },
        Some(e) => {
            proof {
                lemma_find_run(v@, c, 1, start + 1);
            }
            let content = copy_range(v, start + 1, e);
            let formatted = code_only_core(&content);
            append_range(out, v, pos, start);
            push_italic(out);
            append_all(out, &formatted);
            push_reset(out);
            proof {
                assert(spec_inline_from(v@, p0) == v@.subrange(p0, start as int) + italic_seq()
                    + spec_code_only_from(v@.subrange(start + 1, e as int), 0) + reset_seq()
                    + spec_inline_from(v@, e + 1));
                assert(out@ + spec_inline_from(v@, e + 1) =~= old(out)@ + spec_inline_from(v@, p0));
            }
            e + 1
        },
    }
}

/// Handles a backtick run at `start`: the loop step of the full pass for
/// the code family.
fn step_code(out: &mut Vec<char>, v: &Vec<char>, pos: usize, start: usize) -> (np: usize)
    requires
        pos < v@.len(),
        next_marker(v@, pos as int) == Some((start as int, MarkerKind::Code, 1int)),
    ensures
        pos < np <= v@.len(),
        final(out)@ + spec_inline_from(v@, np as int) == old(out)@ + spec_inline_from(v@, pos as int),
{
    proof {
        lemma_next_marker_ok(v@, pos as int);
    }
    let n = v.len();
    let ghost p0 = pos as int;
    proof {
        assert(n == v@.len());
    }
    let k = run_len_vec(v, '`', start);
    proof {
        lemma_run_len_at(v@, '`', start as int);
    }
    if k >= 3 {
        append_range(out, v, pos, start + k);
        proof {
            assert(spec_inline_from(v@, p0) == v@.subrange(p0, start + k) + spec_inline_from(
                v@,
                start + k,
            ));
        }
        start + k
    } else {
        match find_run_vec(v, '`', k, start + k) {
            None => {
                append_range(out, v, pos, start + 1);
                proof {
                    assert(spec_inline_from(v@, p0) == v@.subrange(p0, start + 1)
                        + spec_inline_from(v@, start + 1));
                }
                start + 1
            },
            Some(cs) => {
                proof {
                    lemma_find_run(v@, '`', k as nat, start + k);
                }
                append_range(out, v, pos, start);
                append_code_wrap(out, v, start + k, cs);
                proof {
                    assert(spec_inline_from(v@, p0) == v@.subrange(p0, start as int) + code_wrap(
                        v@.subrange(start + k, cs as int),
                    ) + spec_inline_from(v@, cs + k));
                    assert(out@ + spec_inline_from(v@, cs + k) =~= old(out)@ + spec_inline_from(
                        v@,
                        p0,
                    ));
                }
                cs + k
            },
        }
    }
}

/// Runs the full pass over all of `v`.
pub fn inline_core(v: &Vec<char>) -> (out: Vec<char>)
    ensures
        out@ == spec_inline_from(v@, 0),
{
    let n = v.len();
    let mut out: Vec<char> = Vec::new();
    let mut pos: usize = 0;
    while pos < n
        invariant
            pos <= n == v@.len(),
            out@ + spec_inline_from(v@, pos as int) == spec_inline_from(v@, 0),
        decreases n - pos,
    {
        let ghost out0 = out@;
        let ghost p0 = pos as int;
        match next_marker_vec(v, pos) {
            None => {
                append_range(&mut out, v, pos, n);
                pos = n;
                proof {
                    assert(spec_inline_from(v@, p0) == v@.subrange(p0, n as int));
                    assert(out@ + spec_inline_from(v@, pos as int) =~= out0 + spec_inline_from(
                        v@,
                        p0,
                    ));
                }
            },
            Some(cand) => {
                proof {
                    lemma_next_marker_ok(v@, p0);
                }
                let start = cand.0;
                let kind = cand.1;
                pos = match kind {
                    MarkerKind::BoldItalicStar | MarkerKind::BoldItalicUnderscore => step_bold_italic(
                        &mut out,
                        v,
                        pos,
                        start,
                        kind,
                    ),
                    MarkerKind::BoldStar | MarkerKind::BoldUnderscore => step_bold(
                        &mut out,
                        v,
                        pos,
                        start,
                        kind,
                    ),
                    MarkerKind::ItalicStar | MarkerKind::ItalicUnderscore => step_italic(
                        &mut out,
                        v,
                        pos,
                        start,
                        kind,
                    ),
                    MarkerKind::Code => step_code(&mut out, v, pos, start),
                };
            },
        }
    }
    proof {
        assert(out@ =~= out@ + spec_inline_from(v@, pos as int));
    }
    out
}

} // verus!
