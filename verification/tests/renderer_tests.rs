//! Tests of the renderer state, the span engine and the line classifier.

use aimd::{
    MarkdownRenderer, MarkerKind, BOLD, BOLD_ITALIC, CYAN, DARK_ORANGE_RED, GRAY, GREEN, ITALIC,
    LIGHT_GRAY_BG, MAGENTA, RESET, YELLOW,
};

#[test]
fn test_markdown_renderer_new() {
    let renderer = MarkdownRenderer::new();
    assert!(!renderer.in_code_block);
    assert!(!renderer.in_list);
    assert!(renderer.code_lang.is_empty());
}

#[test]
fn test_is_horizontal_rule() {
    let renderer = MarkdownRenderer::new();

    assert!(renderer.is_horizontal_rule("---"));
    assert!(renderer.is_horizontal_rule("***"));
    assert!(renderer.is_horizontal_rule("___"));
    assert!(renderer.is_horizontal_rule("----"));
    assert!(renderer.is_horizontal_rule("*****"));
    assert!(renderer.is_horizontal_rule("______"));

    assert!(!renderer.is_horizontal_rule("--"));
    assert!(!renderer.is_horizontal_rule("**"));
    assert!(!renderer.is_horizontal_rule("__"));
    assert!(!renderer.is_horizontal_rule(""));
    assert!(!renderer.is_horizontal_rule("abc"));
    assert!(!renderer.is_horizontal_rule("--*"));
    assert!(!renderer.is_horizontal_rule("***---"));
}

#[test]
fn test_find_format_candidates() {
    let renderer = MarkdownRenderer::new();

    let candidates = renderer.find_format_candidates("***bold italic***", 0);
    assert!(!candidates.is_empty());
    assert!(candidates.iter().any(|(_, kind, _)| *kind == MarkerKind::BoldItalicStar));

    let candidates = renderer.find_format_candidates("**bold text**", 0);
    assert!(!candidates.is_empty());
    assert!(candidates.iter().any(|(_, kind, _)| *kind == MarkerKind::BoldStar));

    let candidates = renderer.find_format_candidates("*italic text*", 0);
    assert!(!candidates.is_empty());
    assert!(candidates.iter().any(|(_, kind, _)| *kind == MarkerKind::ItalicStar));

    let candidates = renderer.find_format_candidates("`code`", 0);
    assert!(!candidates.is_empty());
    assert!(candidates.iter().any(|(_, kind, _)| *kind == MarkerKind::Code));

    let candidates = renderer.find_format_candidates("___bold italic___", 0);
    assert!(!candidates.is_empty());
    assert!(candidates.iter().any(|(_, kind, _)| *kind == MarkerKind::BoldItalicUnderscore));

    let candidates = renderer.find_format_candidates("__bold__", 0);
    assert!(!candidates.is_empty());
    assert!(candidates.iter().any(|(_, kind, _)| *kind == MarkerKind::BoldUnderscore));

    let candidates = renderer.find_format_candidates("_italic_", 0);
    assert!(!candidates.is_empty());
    assert!(candidates.iter().any(|(_, kind, _)| *kind == MarkerKind::ItalicUnderscore));
}

#[test]
fn test_find_matching_backticks() {
    let renderer = MarkdownRenderer::new();

    assert_eq!(renderer.find_matching_backticks("`code`", 1), Some(5));
    assert_eq!(renderer.find_matching_backticks("`hello world`", 1), Some(12));

    assert_eq!(renderer.find_matching_backticks("``code``", 2), Some(6));

    assert_eq!(renderer.find_matching_backticks("`code", 1), None);

    // The run of two backticks after "code" is long enough to close a
    // single-backtick opener, and the search starts right after the
    // opener, so the closer found for a run of three is at position 1.
    assert_eq!(renderer.find_matching_backticks("```code```", 1), Some(1));

    assert_eq!(renderer.find_matching_backticks("`code```", 1), Some(5));
}

#[test]
fn test_apply_code_only_formatting() {
    let renderer = MarkdownRenderer::new();

    let result = renderer.apply_code_only_formatting("text with `code` inside");
    assert!(result.contains(LIGHT_GRAY_BG));
    assert!(result.contains(DARK_ORANGE_RED));
    assert!(result.contains("code"));

    let result = renderer.apply_code_only_formatting("no code here");
    assert_eq!(result, "no code here");

    let result = renderer.apply_code_only_formatting("`code1` and `code2`");
    assert!(result.contains(LIGHT_GRAY_BG));
    assert!(result.contains("code1"));
    assert!(result.contains("code2"));
}

#[test]
fn test_apply_nested_formatting() {
    let renderer = MarkdownRenderer::new();

    let result = renderer.apply_nested_formatting("bold with *italic* text");
    assert!(result.contains(ITALIC));
    assert!(result.contains("italic"));

    let result = renderer.apply_nested_formatting("bold with `code` text");
    assert!(result.contains(LIGHT_GRAY_BG));
    assert!(result.contains("code"));

    let result = renderer.apply_nested_formatting("just bold text");
    assert_eq!(result, "just bold text");
}

#[test]
fn test_apply_inline_formatting() {
    let renderer = MarkdownRenderer::new();

    let result = renderer.apply_inline_formatting("**bold text**");
    assert!(result.contains(BOLD));
    assert!(result.contains("bold text"));
    assert!(result.contains(RESET));

    let result = renderer.apply_inline_formatting("*italic text*");
    assert!(result.contains(ITALIC));
    assert!(result.contains("italic text"));

    let result = renderer.apply_inline_formatting("***bold italic***");
    assert!(result.contains(BOLD_ITALIC));
    assert!(result.contains("bold italic"));

    let result = renderer.apply_inline_formatting("`code`");
    assert!(result.contains(LIGHT_GRAY_BG));
    assert!(result.contains(DARK_ORANGE_RED));
    assert!(result.contains("code"));

    let result = renderer.apply_inline_formatting("__bold text__");
    assert!(result.contains(BOLD));
    assert!(result.contains("bold text"));

    let result = renderer.apply_inline_formatting("_italic text_");
    assert!(result.contains(ITALIC));
    assert!(result.contains("italic text"));

    let result = renderer.apply_inline_formatting("___bold italic___");
    assert!(result.contains(BOLD_ITALIC));
    assert!(result.contains("bold italic"));

    let result = renderer.apply_inline_formatting("plain text");
    assert_eq!(result, "plain text");
}

#[test]
fn test_render_line_headers() {
    let mut renderer = MarkdownRenderer::new();

    let result = renderer.render_line("# Header 1");
    assert!(result.contains(CYAN));
    assert!(result.contains("━━"));
    assert!(result.contains("Header 1"));

    let result = renderer.render_line("## Header 2");
    assert!(result.contains("──"));
    assert!(result.contains("Header 2"));

    let result = renderer.render_line("### Header 3");
    assert!(result.contains("▸"));
    assert!(result.contains("Header 3"));

    let result = renderer.render_line("#### Header 4");
    assert!(result.contains("•"));
    assert!(result.contains("Header 4"));

    let result = renderer.render_line("##### Header 5");
    assert!(result.contains("‣"));
    assert!(result.contains("Header 5"));

    let result = renderer.render_line("###### Header 6");
    assert!(result.contains("◦"));
    assert!(result.contains("Header 6"));
}

#[test]
fn test_render_line_code_blocks() {
    let mut renderer = MarkdownRenderer::new();

    let result = renderer.render_line("```");
    assert!(result.contains("┌─ 代码块开始"));
    assert!(renderer.in_code_block);

    let result = renderer.render_line("let x = 42;");
    assert!(result.contains(GREEN));
    assert!(result.contains("let x = 42;"));

    let result = renderer.render_line("```");
    assert!(result.contains("└─ 代码块结束"));
    assert!(!renderer.in_code_block);

    let mut renderer2 = MarkdownRenderer::new();
    let result = renderer2.render_line("```rust");
    assert!(result.contains("┌─ 代码块开始 rust"));
    assert!(renderer2.in_code_block);
    assert_eq!(renderer2.code_lang, "rust");
}

#[test]
fn test_render_line_lists() {
    let mut renderer = MarkdownRenderer::new();

    let result = renderer.render_line("- List item 1");
    assert!(result.contains(MAGENTA));
    assert!(result.contains("•"));
    assert!(result.contains("List item 1"));
    assert!(renderer.in_list);

    let result = renderer.render_line("* List item 2");
    assert!(result.contains("•"));
    assert!(result.contains("List item 2"));

    let result = renderer.render_line("    - Indented item");
    assert!(result.contains("  "));
    assert!(result.contains("Indented item"));

    let result = renderer.render_line("-");
    assert!(result.contains("•"));

    let result = renderer.render_line("*");
    assert!(result.contains("•"));
}

#[test]
fn test_render_line_quotes() {
    let mut renderer = MarkdownRenderer::new();

    let result = renderer.render_line("> This is a quote");
    assert!(result.contains(YELLOW));
    assert!(result.contains("│"));
    assert!(result.contains("This is a quote"));

    let result = renderer.render_line(">Another quote");
    assert!(result.contains("│"));
    assert!(result.contains("Another quote"));
}

#[test]
fn test_render_line_horizontal_rules() {
    let mut renderer = MarkdownRenderer::new();

    let result = renderer.render_line("---");
    assert!(result.contains(GRAY));
    assert!(result.contains(&"─".repeat(7)));

    let result = renderer.render_line("***");
    assert!(result.contains(&"─".repeat(7)));

    let result = renderer.render_line("___");
    assert!(result.contains(&"─".repeat(7)));
}

#[test]
fn test_render_line_plain_text() {
    let mut renderer = MarkdownRenderer::new();

    let result = renderer.render_line("This is plain text");
    assert_eq!(result, "This is plain text\n");

    let result = renderer.render_line("Text with **bold** and *italic*");
    assert!(result.contains(BOLD));
    assert!(result.contains(ITALIC));
    assert!(result.contains("bold"));
    assert!(result.contains("italic"));
}

#[test]
fn test_ansi_constants() {
    assert_eq!(RESET, "\x1b[0m");
    assert_eq!(BOLD, "\x1b[1;33m");
    assert_eq!(ITALIC, "\x1b[3m");
    assert_eq!(BOLD_ITALIC, "\x1b[1;3;33m");
    assert_eq!(CYAN, "\x1b[36m");
    assert_eq!(GREEN, "\x1b[32m");
    assert_eq!(YELLOW, "\x1b[33m");
    assert_eq!(MAGENTA, "\x1b[35m");
    assert_eq!(LIGHT_GRAY_BG, "\x1b[48;5;253m");
    assert_eq!(DARK_ORANGE_RED, "\x1b[38;5;130m");
    assert_eq!(GRAY, "\x1b[90m");
}

#[test]
fn test_complete_markdown_rendering() {
    let mut renderer = MarkdownRenderer::new();

    let lines = vec![
        "# Main Title",
        "",
        "This is **bold** and *italic* text.",
        "",
        "```rust",
        "fn main() {",
        "    println!(\"Hello, world!\");",
        "}",
        "```",
        "",
        "- First item",
        "- Second item with `code`",
        "",
        "> This is a quote",
        "",
        "---",
    ];

    let mut results = Vec::new();
    for line in lines {
        results.push(renderer.render_line(line));
    }

    assert!(results[0].contains(CYAN));
    assert!(results[0].contains("━━"));
    assert!(results[0].contains("Main Title"));

    assert!(results[2].contains(BOLD));
    assert!(results[2].contains(ITALIC));

    assert!(results[4].contains("┌─ 代码块开始 rust"));
    assert!(results[5].contains(GREEN));
    assert!(results[8].contains("└─ 代码块结束"));

    assert!(results[10].contains(MAGENTA));
    assert!(results[10].contains("•"));
    assert!(results[11].contains("code"));

    assert!(results[13].contains(YELLOW));
    assert!(results[13].contains("│"));

    assert!(results[15].contains(GRAY));
    assert!(results[15].contains(&"─".repeat(7)));
}

#[test]
fn test_edge_cases() {
    let mut renderer = MarkdownRenderer::new();

    let result = renderer.render_line("");
    assert_eq!(result, "\n");

    let result = renderer.render_line("   ");
    assert_eq!(result, "   \n");

    let result = renderer.render_line("**incomplete bold");
    assert!(result.contains("**incomplete bold"));

    let result = renderer.render_line("*incomplete italic");
    assert!(result.contains("*incomplete italic"));

    let result = renderer.render_line("`incomplete code");
    assert!(result.contains("`incomplete code"));

    let result = renderer.render_line("**bold with *italic** incomplete");
    assert!(result.contains(BOLD));

    let result = renderer.render_line(&"-".repeat(100));
    assert!(result.contains(&"─".repeat(7)));

    let result = renderer.render_line("---***");
    assert!(!result.contains(&"─".repeat(7)));
}

#[test]
fn test_performance_large_input() {
    let mut renderer = MarkdownRenderer::new();

    let large_text =
        "This is a very long line of text that contains **bold**, *italic*, and `code` elements. "
            .repeat(100);
    let result = renderer.render_line(&large_text);

    assert!(result.contains(BOLD));
    assert!(result.contains(ITALIC));
    assert!(result.contains(LIGHT_GRAY_BG));

    let backtick_text = "`".repeat(1000);
    let result = renderer.render_line(&backtick_text);
    assert!(!result.is_empty());
}
