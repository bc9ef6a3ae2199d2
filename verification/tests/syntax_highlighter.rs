use rune_editor::syntax_highlighter::{HighlightToken, SyntaxHighlighter, TokenType};

#[test]
fn test_highlight_header() {
    let highlighter = SyntaxHighlighter::new();
    let tokens = highlighter.highlight_line("# Header", 0);

    assert_eq!(tokens.len(), 2);
    assert_eq!(tokens[0].token_type, TokenType::Header);
    assert_eq!(tokens[0].text, "#");
    assert_eq!(tokens[1].token_type, TokenType::Text);
}

#[test]
fn test_highlight_list_unordered() {
    let highlighter = SyntaxHighlighter::new();
    let tokens = highlighter.highlight_line("- List item", 0);

    assert_eq!(tokens.len(), 2);
    assert_eq!(tokens[0].token_type, TokenType::ListMarker);
    assert_eq!(tokens[0].text, "- ");
    assert_eq!(tokens[1].token_type, TokenType::Text);
    assert_eq!(tokens[1].text, "List item");
}

#[test]
fn test_highlight_list_ordered() {
    let highlighter = SyntaxHighlighter::new();
    let tokens = highlighter.highlight_line("1. First item", 0);

    assert_eq!(tokens.len(), 2);
    assert_eq!(tokens[0].token_type, TokenType::ListMarker);
    assert_eq!(tokens[0].text, "1. ");
}

#[test]
fn test_highlight_blockquote() {
    let highlighter = SyntaxHighlighter::new();
    let tokens = highlighter.highlight_line("> Quote", 0);

    assert_eq!(tokens.len(), 2);
    assert_eq!(tokens[0].token_type, TokenType::Blockquote);
    assert_eq!(tokens[0].text, "> ");
}

#[test]
fn test_highlight_horizontal_rule() {
    let highlighter = SyntaxHighlighter::new();
    let tokens = highlighter.highlight_line("---", 0);

    assert_eq!(tokens.len(), 1);
    assert_eq!(tokens[0].token_type, TokenType::HorizontalRule);
}

#[test]
fn test_highlight_inline_code() {
    let highlighter = SyntaxHighlighter::new();
    let tokens = highlighter.highlight_inline_elements("`code`", 0);

    assert_eq!(tokens.len(), 1);
    assert_eq!(tokens[0].token_type, TokenType::Code);
    assert_eq!(tokens[0].text, "`code`");
}

#[test]
fn test_highlight_bold() {
    let highlighter = SyntaxHighlighter::new();
    let tokens = highlighter.highlight_inline_elements("**bold**", 0);

    assert_eq!(tokens.len(), 1);
    assert_eq!(tokens[0].token_type, TokenType::Bold);
    assert_eq!(tokens[0].text, "**bold**");
}

#[test]
fn test_highlight_italic() {
    let highlighter = SyntaxHighlighter::new();
    let tokens = highlighter.highlight_inline_elements("*italic*", 0);

    assert_eq!(tokens.len(), 1);
    assert_eq!(tokens[0].token_type, TokenType::Italic);
    assert_eq!(tokens[0].text, "*italic*");
}

#[test]
fn test_highlight_link() {
    let highlighter = SyntaxHighlighter::new();
    let tokens = highlighter.highlight_inline_elements("[text](url)", 0);

    assert_eq!(tokens.len(), 1);
    assert_eq!(tokens[0].token_type, TokenType::Link);
    assert_eq!(tokens[0].text, "[text](url)");
}

#[test]
fn test_highlight_full_content() {
    let highlighter = SyntaxHighlighter::new();
    let content = "# Header\n- List item\n`code`";
    let tokens = highlighter.highlight(content);

    assert!(!tokens.is_empty());
    assert!(tokens.iter().any(|t| t.token_type == TokenType::Header));
    assert!(tokens.iter().any(|t| t.token_type == TokenType::ListMarker));
}

#[test]
fn test_detect_list_marker() {
    let highlighter = SyntaxHighlighter::new();

    assert!(highlighter.detect_list_marker("- item", 0).is_some());
    assert!(highlighter.detect_list_marker("* item", 0).is_some());
    assert!(highlighter.detect_list_marker("+ item", 0).is_some());
    assert!(highlighter.detect_list_marker("1. item", 0).is_some());
    assert!(highlighter.detect_list_marker("regular text", 0).is_none());
}

#[test]
fn full_content_positions_follow_line_offsets() {
    let highlighter = SyntaxHighlighter::new();
    let tokens = highlighter.highlight("# Hi\n- a\nplain");
    let spans: Vec<(TokenType, usize, usize, &str)> = tokens
        .iter()
        .map(|t| (t.token_type.clone(), t.start, t.end, t.text.as_str()))
        .collect();
    assert_eq!(
        spans,
        vec![
            (TokenType::Header, 0, 1, "#"),
            (TokenType::Text, 1, 4, " Hi"),
            (TokenType::ListMarker, 5, 7, "- "),
            (TokenType::Text, 7, 8, "a"),
            (TokenType::Text, 9, 14, "plain"),
        ]
    );
}

#[test]
fn unclosed_bold_becomes_italic_of_the_markers() {
    let highlighter = SyntaxHighlighter::new();
    let tokens = highlighter.highlight_inline_elements("**abc", 10);
    assert_eq!(tokens.len(), 1);
    assert_eq!(tokens[0], HighlightToken::new(TokenType::Italic, 10, 12, "**".to_string()));
}

#[test]
fn indented_quote_and_disabled_lists() {
    let mut highlighter = SyntaxHighlighter::new();
    let tokens = highlighter.highlight_line("  >x", 3);
    assert_eq!(tokens[0], HighlightToken::new(TokenType::Blockquote, 5, 6, ">".to_string()));
    assert_eq!(tokens[1], HighlightToken::new(TokenType::Text, 6, 7, "x".to_string()));
    highlighter.highlight_lists = false;
    let plain = highlighter.highlight_line("- a", 0);
    assert_eq!(plain, vec![HighlightToken::new(TokenType::Text, 0, 3, "- a".to_string())]);
    let token = HighlightToken::new(TokenType::Code, 2, 5, "`a`".to_string());
    assert_eq!(token.len(), 3);
    assert!(!token.is_empty());
}

#[test]
fn lines_are_laid_out_in_utf8_bytes() {
    let h = SyntaxHighlighter::new();
    let tokens = h.highlight("é\n# Héad\n- x");
    assert_eq!(
        tokens,
        vec![
            HighlightToken::new(TokenType::Text, 0, 2, "é".to_string()),
            HighlightToken::new(TokenType::Header, 3, 4, "#".to_string()),
            HighlightToken::new(TokenType::Text, 4, 10, " Héad".to_string()),
            HighlightToken::new(TokenType::ListMarker, 11, 13, "- ".to_string()),
            HighlightToken::new(TokenType::Text, 13, 14, "x".to_string()),
        ]
    );
    let spaced = h.highlight_line("\u{3000}> q", 0);
    assert_eq!(spaced[0], HighlightToken::new(TokenType::Blockquote, 3, 5, "> ".to_string()));
}
