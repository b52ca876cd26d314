//! Scenario tests for the renderer's stated properties: identity on
//! marker-free text, fence toggling, bounded nesting, graceful
//! degradation, the backtick closer-length rule, rule priority, and an
//! end-to-end streamed document.

use aimd::{
    MarkdownRenderer, BOLD, BOLD_ITALIC, CYAN, DARK_ORANGE_RED, GRAY, GREEN, ITALIC,
    LIGHT_GRAY_BG, MAGENTA, RESET, YELLOW,
};

#[test]
fn test_plain_text_identity() {
    let mut renderer = MarkdownRenderer::new();
    let text = "just some words, with no markers at all.";
    assert_eq!(renderer.apply_inline_formatting(text), text);
    assert_eq!(renderer.apply_nested_formatting(text), text);
    assert_eq!(renderer.apply_code_only_formatting(text), text);
    assert_eq!(renderer.render_line(text), format!("{}\n", text));
}

#[test]
fn test_fence_toggle_roundtrip() {
    let mut renderer = MarkdownRenderer::new();
    assert!(!renderer.in_code_block);
    let first = renderer.render_line("```");
    assert!(renderer.in_code_block);
    let second = renderer.render_line("```");
    assert!(!renderer.in_code_block);
    assert_ne!(first, second);
    assert_eq!(first, format!("{}{}┌─ 代码块开始{}\n", GREEN, BOLD, RESET));
    assert_eq!(second, format!("{}{}└─ 代码块结束{}\n", GREEN, BOLD, RESET));
}

#[test]
fn test_bounded_nesting() {
    let renderer = MarkdownRenderer::new();

    // Bold around italic: the outer span is bold, the inner span italic.
    let result = renderer.apply_inline_formatting("**text _with_ underline**");
    assert_eq!(result, format!("{}text {}with{} underline{}", BOLD, ITALIC, RESET, RESET));

    // Bold-italic around code: the code span keeps its own coloring and
    // no further bold or italic is applied inside it.
    let result = renderer.apply_inline_formatting("***a `code` b***");
    assert_eq!(
        result,
        format!("{}a {}{} code {} b{}", BOLD_ITALIC, LIGHT_GRAY_BG, DARK_ORANGE_RED, RESET, RESET),
    );
}

#[test]
fn test_unmatched_marker_literal() {
    let renderer = MarkdownRenderer::new();
    let result = renderer.apply_inline_formatting("**unterminated bold");
    assert_eq!(result, "**unterminated bold");
    assert!(!result.contains(BOLD));
}

#[test]
fn test_backtick_closer_length() {
    let renderer = MarkdownRenderer::new();

    // The closer of a single-backtick opener is the first later backtick
    // run of length at least one: here the double backtick after `a`.
    assert_eq!(renderer.find_matching_backticks("`a``b`", 1), Some(2));

    // One backtick of that run closes the span around "a"; the run's
    // second backtick opens a new span that "b"'s trailing backtick
    // closes.
    let result = renderer.apply_inline_formatting("`a``b`");
    assert_eq!(
        result,
        format!(
            "{}{} a {}{}{} b {}",
            LIGHT_GRAY_BG, DARK_ORANGE_RED, RESET, LIGHT_GRAY_BG, DARK_ORANGE_RED, RESET,
        ),
    );
}

#[test]
fn test_rule_priority() {
    let mut renderer = MarkdownRenderer::new();

    // A line of stars alone is a horizontal rule, not an empty
    // bold-italic span and not a list item.
    assert!(renderer.is_horizontal_rule("***"));
    let result = renderer.render_line("***");
    assert_eq!(result, format!("{}{}{}\n", GRAY, "─".repeat(7), RESET));
    assert!(!result.contains(BOLD_ITALIC));

    // Mixed content fails the all-same-character test and falls through
    // to paragraph handling with bold-italic decoration.
    assert!(!renderer.is_horizontal_rule("***bold***"));
    let result = renderer.render_line("***bold***");
    assert_eq!(result, format!("{}bold{}\n", BOLD_ITALIC, RESET));
}

#[test]
fn test_end_to_end_stream() {
    let mut renderer = MarkdownRenderer::new();

    let heading = renderer.render_line("# Title");
    assert_eq!(heading, format!("{}{}━━ Title{}{}\n", CYAN, BOLD, RESET, RESET));

    let item = renderer.render_line("- item with **bold**");
    assert_eq!(
        item,
        format!("{}{} •{} item with {}bold{}{}\n", MAGENTA, BOLD, RESET, BOLD, RESET, RESET),
    );

    assert!(!renderer.in_code_block);
    let open = renderer.render_line("```go");
    assert_eq!(open, format!("{}{}┌─ 代码块开始 go{}\n", GREEN, BOLD, RESET));
    assert!(renderer.in_code_block);

    let body = renderer.render_line("fmt.Println(1)");
    assert_eq!(body, format!("{}fmt.Println(1)", GREEN));

    let close = renderer.render_line("```");
    assert_eq!(close, format!("{}{}└─ 代码块结束{}\n", GREEN, BOLD, RESET));
    assert!(!renderer.in_code_block);

    let quote = renderer.render_line("> quoted `x` text");
    assert_eq!(
        quote,
        format!(
            "{}{}│{} quoted {}{} x {} text{}\n",
            YELLOW, BOLD, RESET, LIGHT_GRAY_BG, DARK_ORANGE_RED, RESET, RESET,
        ),
    );
    assert!(!renderer.in_code_block);
}

#[test]
fn test_inline_triple_backtick_passthrough() {
    let mut renderer = MarkdownRenderer::new();
    // A backtick run of three or more inside a line never opens a code
    // span: it passes through unchanged.
    let result = renderer.render_line("a ```b``` c");
    assert_eq!(result, "a ```b``` c\n");
}

#[test]
fn test_heading_levels_collapse() {
    let mut renderer = MarkdownRenderer::new();
    let result = renderer.render_line("####### Deep");
    assert_eq!(result, format!("{}{}◦ Deep{}{}\n", CYAN, BOLD, RESET, RESET));
}

#[test]
fn test_code_passthrough_keeps_terminator() {
    let mut renderer = MarkdownRenderer::new();
    renderer.render_line("```");
    // Fenced content is reproduced byte for byte, its own terminator
    // included, with only the color escape prepended.
    let result = renderer.render_line("code line\n");
    assert_eq!(result, format!("{}code line\n", GREEN));
}

#[test]
fn test_lone_marker_stays_literal() {
    let renderer = MarkdownRenderer::new();
    // A marker character with no later closer of its family stays
    // literal, whichever family it belongs to.
    assert_eq!(renderer.apply_inline_formatting("a * b"), "a * b");
    assert_eq!(renderer.apply_inline_formatting("snake_case"), "snake_case");
    assert_eq!(renderer.apply_inline_formatting("tick ` mark"), "tick ` mark");
}

#[test]
fn test_indented_list_levels() {
    let mut renderer = MarkdownRenderer::new();
    // Four leading spaces make one indentation level, rendered as two
    // spaces of indent.
    let result = renderer.render_line("    - nested item");
    assert!(result.starts_with("  "));
    assert!(!result.starts_with("   "));
    let result = renderer.render_line("        - deeper item");
    assert!(result.starts_with("    "));
    assert!(!result.starts_with("     "));
}
