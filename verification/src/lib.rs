//! Streaming terminal markdown renderer: a stateful line classifier and a
//! recursive inline-span engine that replace markdown markers with ANSI
//! escape sequences, one line at a time.

mod ansi;
mod inline;
mod laws;
mod marker;
mod render;
mod text;

pub use ansi::{
    BOLD, BOLD_ITALIC, CYAN, DARK_ORANGE_RED, GRAY, GREEN, ITALIC, LIGHT_GRAY_BG, MAGENTA, RESET,
    YELLOW,
};
pub use marker::MarkerKind;
pub use render::MarkdownRenderer;
