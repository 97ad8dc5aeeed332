//! Question extraction from markdown.

use md2db::parse_markdown_text;
use md2db::parser::parse_markdown;
use md2db::text::{contains_sub, trim_str};

#[test]
fn test_parse_simple_question() {
    let markdown = "# What is 2+2?\n\n* A. 3\n* B. 4\n* C. 5";
    let questions = parse_markdown(markdown);
    assert_eq!(questions.len(), 1);
    assert_eq!(questions[0].stem, "What is 2+2?");
    assert_eq!(questions[0].options.len(), 3);
}

#[test]
fn test_option_order_is_contiguous() {
    // Options [A, B, C] come back with sort orders [0, 1, 2] in that order.
    let markdown = "# Pick one\n\n* A. first\n* B. second\n* C. third";
    let questions = parse_markdown_text(markdown);
    assert_eq!(questions.len(), 1);
    let orders: Vec<usize> = questions[0].options.iter().map(|o| o.sort_order).collect();
    assert_eq!(orders, vec![0, 1, 2]);
    assert_eq!(questions[0].options[0].content, "A. first");
    assert_eq!(questions[0].options[2].content, "C. third");
}

#[test]
fn test_parse_two_questions() {
    let markdown = "# Q1\n\n* A. 1\n* B. 2\n\n# Q2\n\n* C. 3\n* D. 4\n";
    let questions = parse_markdown_text(markdown);
    assert_eq!(questions.len(), 2);
    assert_eq!(questions[0].stem, "Q1");
    assert_eq!(questions[1].stem, "Q2");
    assert_eq!(questions[1].options.len(), 2);
    assert_eq!(questions[1].options[0].sort_order, 0);
}

#[test]
fn test_parse_analysis_paragraph() {
    let markdown = "# The stem\n\nSome analysis text.\n";
    let questions = parse_markdown_text(markdown);
    assert_eq!(questions.len(), 1);
    assert_eq!(questions[0].stem, "The stem");
    assert_eq!(questions[0].analysis.as_deref(), Some("Some analysis text."));
}

#[test]
fn test_parse_latex_code_span() {
    let markdown = "# Derivative of `$x^2$`\n\n* A. `$x$`\n* B. `$2x$`";
    let questions = parse_markdown_text(markdown);
    assert_eq!(questions.len(), 1);
    assert_eq!(questions[0].latex, vec!["$x^2$", "$x$", "$2x$"]);
}

#[test]
fn test_parse_latex_backslash_span_is_wrapped() {
    let markdown = "# Formula `\\frac{1}{2}`\n";
    let questions = parse_markdown_text(markdown);
    assert_eq!(questions.len(), 1);
    assert_eq!(questions[0].latex, vec!["$\\frac{1}{2}$"]);
}

#[test]
fn test_parse_empty_document() {
    let questions = parse_markdown_text("");
    assert_eq!(questions.len(), 0);
}

#[test]
fn test_parse_fresh_identifiers() {
    let markdown = "# Q1\n\n* A. 1\n\n# Q2\n\n* B. 2\n";
    let questions = parse_markdown_text(markdown);
    assert_eq!(questions.len(), 2);
    assert_ne!(questions[0].id, questions[1].id);
}

#[test]
fn test_trim_and_contains_helpers() {
    assert_eq!(trim_str("  hi there \t\n"), "hi there");
    assert_eq!(trim_str("   "), "");
    assert!(contains_sub("which of the following", "of the"));
    assert!(!contains_sub("abc", "abd"));
    assert!(contains_sub("anything", ""));
    // Unicode white space (the full-width space) is trimmed too.
    assert_eq!(trim_str("\u{3000}x\u{3000}"), "x");
}
