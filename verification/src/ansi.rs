//! The fixed ANSI escape palette used by the renderer: executable string
//! constants for callers and tests, spec-level character sequences for the
//! contracts, and small helpers that append an escape to an output buffer.

use vstd::prelude::*;

verus! {

/// Clears every attribute set by the other escapes.
pub const RESET: &'static str = "\x1b[0m";

/// Bold yellow, used for bold spans and for line-level emphasis.
pub const BOLD: &'static str = "\x1b[1;33m";

/// Italic.
pub const ITALIC: &'static str = "\x1b[3m";

/// Bold italic yellow, used for bold-italic spans.
pub const BOLD_ITALIC: &'static str = "\x1b[1;3;33m";

/// Cyan, used for headings.
pub const CYAN: &'static str = "\x1b[36m";

/// Green, used for code blocks.
pub const GREEN: &'static str = "\x1b[32m";

/// Yellow, used for block quotes.
pub const YELLOW: &'static str = "\x1b[33m";

/// Magenta, used for list items.
pub const MAGENTA: &'static str = "\x1b[35m";

/// Light gray background, used behind inline code.
pub const LIGHT_GRAY_BG: &'static str = "\x1b[48;5;253m";

/// Dark orange-red foreground, used for inline code text.
pub const DARK_ORANGE_RED: &'static str = "\x1b[38;5;130m";

/// Gray, used for horizontal rules.
pub const GRAY: &'static str = "\x1b[90m";

/// Spec-level form of [`RESET`].
pub open spec fn reset_seq() -> Seq<char> {
    seq!['\x1b', '[', '0', 'm']
}

/// Spec-level form of [`BOLD`].
pub open spec fn bold_seq() -> Seq<char> {
    seq!['\x1b', '[', '1', ';', '3', '3', 'm']
}

/// Spec-level form of [`ITALIC`].
pub open spec fn italic_seq() -> Seq<char> {
    seq!['\x1b', '[', '3', 'm']
}

/// Spec-level form of [`BOLD_ITALIC`].
pub open spec fn bold_italic_seq() -> Seq<char> {
    seq!['\x1b', '[', '1', ';', '3', ';', '3', '3', 'm']
}

/// Spec-level form of [`CYAN`].
pub open spec fn cyan_seq() -> Seq<char> {
    seq!['\x1b', '[', '3', '6', 'm']
}

/// Spec-level form of [`GREEN`].
pub open spec fn green_seq() -> Seq<char> {
    seq!['\x1b', '[', '3', '2', 'm']
}

/// Spec-level form of [`YELLOW`].
pub open spec fn yellow_seq() -> Seq<char> {
    seq!['\x1b', '[', '3', '3', 'm']
}

/// Spec-level form of [`MAGENTA`].
pub open spec fn magenta_seq() -> Seq<char> {
    seq!['\x1b', '[', '3', '5', 'm']
}

/// Spec-level form of [`LIGHT_GRAY_BG`].
pub open spec fn light_gray_bg_seq() -> Seq<char> {
    seq!['\x1b', '[', '4', '8', ';', '5', ';', '2', '5', '3', 'm']
}

/// Spec-level form of [`DARK_ORANGE_RED`].
pub open spec fn dark_orange_red_seq() -> Seq<char> {
    seq!['\x1b', '[', '3', '8', ';', '5', ';', '1', '3', '0', 'm']
}

/// Spec-level form of [`GRAY`].
pub open spec fn gray_seq() -> Seq<char> {
    seq!['\x1b', '[', '9', '0', 'm']
}

/// The executable palette matches the spec-level sequences.
pub proof fn lemma_palette_matches()
    ensures
        RESET@ == reset_seq(),
        BOLD@ == bold_seq(),
        ITALIC@ == italic_seq(),
        BOLD_ITALIC@ == bold_italic_seq(),
        CYAN@ == cyan_seq(),
        GREEN@ == green_seq(),
        YELLOW@ == yellow_seq(),
        MAGENTA@ == magenta_seq(),
        LIGHT_GRAY_BG@ == light_gray_bg_seq(),
        DARK_ORANGE_RED@ == dark_orange_red_seq(),
        GRAY@ == gray_seq(),
{
    reveal_strlit("\x1b[0m");
    reveal_strlit("\x1b[1;33m");
    reveal_strlit("\x1b[3m");
    reveal_strlit("\x1b[1;3;33m");
    reveal_strlit("\x1b[36m");
    reveal_strlit("\x1b[32m");
    reveal_strlit("\x1b[33m");
    reveal_strlit("\x1b[35m");
    reveal_strlit("\x1b[48;5;253m");
    reveal_strlit("\x1b[38;5;130m");
    reveal_strlit("\x1b[90m");
    assert(RESET@ =~= reset_seq());
    assert(BOLD@ =~= bold_seq());
    assert(ITALIC@ =~= italic_seq());
    assert(BOLD_ITALIC@ =~= bold_italic_seq());
    assert(CYAN@ =~= cyan_seq());
    assert(GREEN@ =~= green_seq());
    assert(YELLOW@ =~= yellow_seq());
    assert(MAGENTA@ =~= magenta_seq());
    assert(LIGHT_GRAY_BG@ =~= light_gray_bg_seq());
    assert(DARK_ORANGE_RED@ =~= dark_orange_red_seq());
    assert(GRAY@ =~= gray_seq());
}

/// Appends the reset escape to `out`.
pub fn push_reset(out: &mut Vec<char>)
    ensures
        final(out)@ == old(out)@ + reset_seq(),
{
    out.push('\x1b');
    out.push('[');
    out.push('0');
    out.push('m');
    proof {
        assert(out@ =~= old(out)@ + reset_seq());
    }
}

/// Appends the bold escape to `out`.
pub fn push_bold(out: &mut Vec<char>)
    ensures
        final(out)@ == old(out)@ + bold_seq(),
{
    out.push('\x1b');
    out.push('[');
    out.push('1');
    out.push(';');
    out.push('3');
    out.push('3');
    out.push('m');
    proof {
        assert(out@ =~= old(out)@ + bold_seq());
    }
}

/// Appends the italic escape to `out`.
pub fn push_italic(out: &mut Vec<char>)
    ensures
        final(out)@ == old(out)@ + italic_seq(),
{
    out.push('\x1b');
    out.push('[');
    out.push('3');
    out.push('m');
    proof {
        assert(out@ =~= old(out)@ + italic_seq());
    }
}

/// Appends the bold-italic escape to `out`.
pub fn push_bold_italic(out: &mut Vec<char>)
    ensures
        final(out)@ == old(out)@ + bold_italic_seq(),
{
    out.push('\x1b');
    out.push('[');
    out.push('1');
    out.push(';');
    out.push('3');
    out.push(';');
    out.push('3');
    out.push('3');
    out.push('m');
    proof {
        assert(out@ =~= old(out)@ + bold_italic_seq());
    }
}

/// Appends the cyan escape to `out`.
pub fn push_cyan(out: &mut Vec<char>)
    ensures
        final(out)@ == old(out)@ + cyan_seq(),
{
    out.push('\x1b');
    out.push('[');
    out.push('3');
    out.push('6');
    out.push('m');
    proof {
        assert(out@ =~= old(out)@ + cyan_seq());
    }
}

/// Appends the green escape to `out`.
pub fn push_green(out: &mut Vec<char>)
    ensures
        final(out)@ == old(out)@ + green_seq(),
{
    out.push('\x1b');
    out.push('[');
    out.push('3');
    out.push('2');
    out.push('m');
    proof {
        assert(out@ =~= old(out)@ + green_seq());
    }
}

/// Appends the yellow escape to `out`.
pub fn push_yellow(out: &mut Vec<char>)
    ensures
        final(out)@ == old(out)@ + yellow_seq(),
{
    out.push('\x1b');
    out.push('[');
    out.push('3');
    out.push('3');
    out.push('m');
    proof {
        assert(out@ =~= old(out)@ + yellow_seq());
    }
}

/// Appends the magenta escape to `out`.
pub fn push_magenta(out: &mut Vec<char>)
    ensures
        final(out)@ == old(out)@ + magenta_seq(),
{
    out.push('\x1b');
    out.push('[');
    out.push('3');
    out.push('5');
    out.push('m');
    proof {
        assert(out@ =~= old(out)@ + magenta_seq());
    }
}

/// Appends the light gray background escape to `out`.
pub fn push_light_gray_bg(out: &mut Vec<char>)
    ensures
        final(out)@ == old(out)@ + light_gray_bg_seq(),
{
    out.push('\x1b');
    out.push('[');
    out.push('4');
    out.push('8');
    out.push(';');
    out.push('5');
    out.push(';');
    out.push('2');
    out.push('5');
    out.push('3');
    out.push('m');
    proof {
        assert(out@ =~= old(out)@ + light_gray_bg_seq());
    }
}

/// Appends the dark orange-red escape to `out`.
pub fn push_dark_orange_red(out: &mut Vec<char>)
    ensures
        final(out)@ == old(out)@ + dark_orange_red_seq(),
{
    out.push('\x1b');
    out.push('[');
    out.push('3');
    out.push('8');
    out.push(';');
    out.push('5');
    out.push(';');
    out.push('1');
    out.push('3');
    out.push('0');
    out.push('m');
    proof {
        assert(out@ =~= old(out)@ + dark_orange_red_seq());
    }
}

/// Appends the gray escape to `out`.
pub fn push_gray(out: &mut Vec<char>)
    ensures
        final(out)@ == old(out)@ + gray_seq(),
{
    out.push('\x1b');
    out.push('[');
    out.push('9');
    out.push('0');
    out.push('m');
    proof {
        assert(out@ =~= old(out)@ + gray_seq());
    }
}

} // verus!
