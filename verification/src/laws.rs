//! Laws of the renderer that relate several calls or hold over all
//! inputs, stated over the same models the public contracts use.

use vstd::prelude::*;
use crate::inline::spec_inline_from;
use crate::marker::{
    find_run, lemma_find_run, lemma_next_marker_absent, lemma_run_len_at, min_from, next_marker,
    run_at, run_len_at, spec_candidates, MarkerKind,
};
use crate::ansi::{bold_seq, green_seq, reset_seq};
use crate::render::{block_close_label, block_open_label, spec_render_line};
use crate::text::trimmed_of;

verus! {

/// A line holding exactly one code fence: three backticks.
pub open spec fn fence_line() -> Seq<char> {
    seq!['`', '`', '`']
}

/// Idempotence of plain text: the span engine returns text that holds
/// none of the marker characters `*`, `_` and a backtick unchanged.
pub proof fn lemma_plain_text_identity(text: Seq<char>)
    requires
        forall|i: int|
            0 <= i < text.len() ==> (#[trigger] text[i]) != '*' && text[i] != '_' && text[i] != '`',
    ensures
        spec_inline_from(text, 0) == text,
{
    if text.len() == 0 {
        assert(spec_inline_from(text, 0) =~= text);
    } else {
        lemma_next_marker_absent(text, 0);
        assert(spec_inline_from(text, 0) == text.subrange(0, text.len() as int));
        assert(text.subrange(0, text.len() as int) =~= text);
    }
}

/// Fence toggling: rendering a bare fence line twice from any state
/// returns `in_code_block` to its original value, and the two rendered
/// lines differ (one opens the block, the other closes it).
#[verifier::rlimit(100)]
pub proof fn lemma_fence_toggle(in_code: bool, in_list: bool, lang: Seq<char>)
    ensures
        ({
            let first = spec_render_line(fence_line(), in_code, in_list, lang);
            let second = spec_render_line(fence_line(), first.1, first.2, first.3);
            &&& second.1 == in_code
            &&& first.0 != second.0
        }),
{
    let f = fence_line();
    assert(trimmed_of(f) =~= f);
    assert(run_at(f, '`', 3, 0));
    let opened = green_seq() + bold_seq() + block_open_label() + reset_seq() + seq!['\n'];
    let closed = green_seq() + bold_seq() + block_close_label() + reset_seq() + seq!['\n'];
    assert((green_seq() + bold_seq()).len() == 12);
    assert(opened[12] == '\u{250c}');
    assert(closed[12] == '\u{2514}');
    let first = spec_render_line(f, in_code, in_list, lang);
    let second = spec_render_line(f, first.1, first.2, first.3);
    if in_code {
        assert(first.0 == closed);
        assert(second.0 == opened);
    } else {
        assert(first.0 == opened);
        assert(second.0 == closed);
    }
    assert(opened != closed);
}

/// Line termination: every classifier branch returns a string ending in
/// a newline, except fenced-block content, which is the raw line behind
/// the code color escape, its own terminator included.
pub proof fn lemma_line_termination(line: Seq<char>, in_code: bool, in_list: bool, lang: Seq<char>)
    ensures
        ({
            let r = spec_render_line(line, in_code, in_list, lang);
            ||| (r.0.len() > 0 && r.0[r.0.len() - 1] == '\n')
            ||| r.0 == green_seq() + line
        }),
{
}

/// The only occurrence of a marker character in `text` stands at `i`.
pub open spec fn lone_marker_at(text: Seq<char>, i: int) -> bool {
    &&& 0 <= i < text.len()
    &&& (text[i] == '*' || text[i] == '_' || text[i] == '`')
    &&& forall|j: int|
        0 <= j < text.len() && j != i ==> (#[trigger] text[j]) != '*' && text[j] != '_'
            && text[j] != '`'
}

/// No run of `k` copies of `c` fits in `text` when at most the one
/// position `i` holds a marker character.
proof fn lemma_lone_no_run(text: Seq<char>, i: int, c: char, k: nat)
    requires
        lone_marker_at(text, i),
        c == '*' || c == '_' || c == '`',
        1 <= k,
        k >= 2 || c != text[i],
    ensures
        find_run(text, c, k, 0) is None,
        forall|from: int| 0 <= from ==> find_run(text, c, k, from) is None,
{
    assert forall|from: int| 0 <= from implies find_run(text, c, k, from) is None by {
        lemma_find_run(text, c, k, from);
        match find_run(text, c, k, from) {
            Some(r) => {
                assert(run_at(text, c, k, r));
                if k >= 2 {
                    assert(text[r] == c && text[r + 1] == c);
                    assert(r == i && r + 1 == i);
                } else {
                    assert(text[r] == c);
                    assert(r == i);
                }
            },
            None => {},
        }
    }
}

/// Unmatched-marker graceful degradation: a marker character that occurs
/// exactly once in a text is rendered as literal text, so the whole text
/// comes back unchanged.
pub proof fn lemma_lone_marker_literal(text: Seq<char>, i: int)
    requires
        lone_marker_at(text, i),
    ensures
        spec_inline_from(text, 0) == text,
{
    let c = text[i];
    let kind = if c == '*' {
        MarkerKind::ItalicStar
    } else if c == '_' {
        MarkerKind::ItalicUnderscore
    } else {
        MarkerKind::Code
    };
    // The one-character family of `c` finds position `i`; every other
    // family finds nothing.
    lemma_find_run(text, c, 1, 0);
    match find_run(text, c, 1, 0) {
        Some(r) => {
            assert(text[r] == c);
            assert(r == i);
        },
        None => {
            assert(run_at(text, c, 1, i));
        },
    }
    assert(find_run(text, c, 1, 0) == Some(i));
    lemma_lone_no_run(text, i, '*', 3);
    lemma_lone_no_run(text, i, '_', 3);
    lemma_lone_no_run(text, i, '*', 2);
    lemma_lone_no_run(text, i, '_', 2);
    if c != '*' {
        lemma_lone_no_run(text, i, '*', 1);
    }
    if c != '_' {
        lemma_lone_no_run(text, i, '_', 1);
    }
    if c != '`' {
        lemma_lone_no_run(text, i, '`', 1);
    }
    if i + 2 <= text.len() {
        assert(text[i + 1] != c);
    }
    assert(!run_at(text, c, 2, i)) by {
        if run_at(text, c, 2, i) {
            assert(text[i + 1] == c);
        }
    }
    assert(spec_candidates(text, 0) =~= seq![(i, kind, 1int)]);
    assert(min_from(seq![(i, kind, 1int)], 0, None) == Some((i, kind, 1int))) by {
        reveal_with_fuel(min_from, 3);
    }
    assert(next_marker(text, 0) == Some((i, kind, 1int)));
    // No closing marker follows, so the marker stays literal and the
    // rest of the text holds no marker at all.
    lemma_find_run(text, c, 1, i + 1);
    match find_run(text, c, 1, i + 1) {
        Some(e) => {
            assert(text[e] == c);
            assert(e == i);
        },
        None => {},
    }
    assert(find_run(text, c, 1, i + 1) is None);
    lemma_next_marker_absent(text, i + 1);
    if c == '`' {
        lemma_run_len_at(text, '`', i);
        if run_len_at(text, '`', i) >= 2 {
            assert(run_at(text, '`', run_len_at(text, '`', i), i));
            assert(text[i + 1] == '`');
        }
        assert(run_len_at(text, '`', i) == 1);
    }
    if i + 1 < text.len() {
        assert(spec_inline_from(text, i + 1) == text.subrange(i + 1, text.len() as int));
    } else {
        assert(spec_inline_from(text, i + 1) =~= text.subrange(i + 1, text.len() as int));
    }
    assert(spec_inline_from(text, 0) == text.subrange(0, i + 1) + spec_inline_from(text, i + 1));
    assert(text.subrange(0, i + 1) + text.subrange(i + 1, text.len() as int) =~= text);
}

} // verus!
