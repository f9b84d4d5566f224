use mdbook_typst_math::markdown::{count_lines, scan, ScanState, Token, TokenKind};
use mdbook_typst_math::rewrite::{Fragment, FragmentKind};
use mdbook_typst_math::{TypstMathConfig, TypstProcessor, TypstProcessorOptions};

const PREAMBLE: &str = "#set page(width: auto, height: auto, margin: 0.5em, fill: none)";

fn config() -> TypstMathConfig {
    TypstMathConfig {
        preamble: None,
        inline_preamble: None,
        display_preamble: None,
        fonts: None,
        cache: None,
        color_mode: None,
        code_tag: None,
        enable_math: None,
        enable_code: None,
    }
}

fn defaults() -> TypstProcessorOptions {
    TypstProcessorOptions::from_config(&config())
}

fn fragments(content: &str, opts: &TypstProcessorOptions) -> Vec<Fragment> {
    TypstProcessor.fragments(content, opts)
}

fn token(kind: TokenKind, text: &str, start: usize, end: usize) -> Token {
    Token::new(kind, text, start..end)
}

#[test]
fn inline_math_gives_one_inline_fragment() {
    let found = fragments("$x$", &defaults());
    assert_eq!(found.len(), 1);
    assert_eq!(found[0].kind, FragmentKind::Inline);
    assert_eq!((found[0].start, found[0].end), (0, 3));
    assert_eq!(found[0].source, format!("{}\n$x$", PREAMBLE));
    assert_eq!(found[0].preamble_line_count, 1);
}

#[test]
fn display_math_gives_one_display_fragment() {
    let found = fragments("$$x$$", &defaults());
    assert_eq!(found.len(), 1);
    assert_eq!(found[0].kind, FragmentKind::Display);
    assert_eq!((found[0].start, found[0].end), (0, 5));
    assert_eq!(found[0].source, format!("{}\n$ x $", PREAMBLE));
}

#[test]
fn display_math_is_trimmed() {
    let content = "$$\n  a + b \t\n$$";
    let found = fragments(content, &defaults());
    assert_eq!(found.len(), 1);
    assert_eq!(found[0].kind, FragmentKind::Display);
    assert_eq!((found[0].start, found[0].end), (0, content.len()));
    assert_eq!(found[0].source, format!("{}\n$ a + b $", PREAMBLE));
}

#[test]
fn inline_math_is_not_trimmed() {
    let mut config = config();
    config.inline_preamble = Some(String::from("P"));
    let opts = TypstProcessorOptions::from_config(&config);
    let found = scan(&vec![token(TokenKind::InlineMath, " a ", 2, 7)], &opts);
    assert_eq!(found.len(), 1);
    assert_eq!(found[0].source, "P\n$ a $");
    assert_eq!((found[0].start, found[0].end), (2, 7));
}

#[test]
fn display_trimming_takes_unicode_white_space() {
    let opts = defaults();
    let found = scan(
        &vec![token(TokenKind::DisplayMath, "\u{2003}\u{a0} x\u{3000}y \u{85}\r\n", 0, 9)],
        &opts,
    );
    assert_eq!(found.len(), 1);
    assert_eq!(found[0].source, format!("{}\n$ x\u{3000}y $", PREAMBLE));
}

#[test]
fn math_in_text_keeps_its_span() {
    let content = "See $a+b$ and more.";
    let found = fragments(content, &defaults());
    assert_eq!(found.len(), 1);
    assert_eq!(found[0].kind, FragmentKind::Inline);
    assert_eq!(&content[found[0].start..found[0].end], "$a+b$");
    assert_eq!(found[0].source, format!("{}\n$a+b$", PREAMBLE));
}

#[test]
fn specific_preambles_take_the_place_of_the_general_one() {
    let mut config = config();
    config.preamble = Some(String::from("G"));
    config.inline_preamble = Some(String::from("I"));
    config.display_preamble = Some(String::from("D1\nD2\nD3"));
    let opts = TypstProcessorOptions::from_config(&config);
    let found = fragments("$a$ and\n\n$$b$$\n", &opts);
    assert_eq!(found.len(), 2);
    assert_eq!(found[0].source, "I\n$a$");
    assert_eq!(found[0].preamble_line_count, 1);
    assert_eq!(found[1].source, "D1\nD2\nD3\n$ b $");
    assert_eq!(found[1].preamble_line_count, 3);
}

#[test]
fn fence_with_another_tag_gives_no_fragment() {
    let content = "```other-lang\n$x$ is code here\n```\n";
    assert!(fragments(content, &defaults()).is_empty());
}

#[test]
fn fence_without_a_tag_gives_no_fragment() {
    assert!(fragments("```\nfoo\n```\n", &defaults()).is_empty());
    assert!(fragments("    indented code\n", &defaults()).is_empty());
}

#[test]
fn fence_with_the_configured_tag_gives_its_text_untouched() {
    let content = "before\n\n```typst,render\n#let x = 1\n\n  keep   this  \n```\n\nafter\n";
    let found = fragments(content, &defaults());
    assert_eq!(found.len(), 1);
    assert_eq!(found[0].kind, FragmentKind::EmbeddedCode);
    assert_eq!(
        found[0].source,
        format!("{}\n#let x = 1\n\n  keep   this  \n", PREAMBLE)
    );
    assert_eq!(
        &content[found[0].start..found[0].end],
        "```typst,render\n#let x = 1\n\n  keep   this  \n```"
    );
}

#[test]
fn code_tag_is_matched_exactly() {
    let mut config = config();
    config.code_tag = Some(String::from("typst"));
    let opts = TypstProcessorOptions::from_config(&config);
    assert_eq!(fragments("```typst\n#box[]\n```\n", &opts).len(), 1);
    assert!(fragments("```typst,render\n#box[]\n```\n", &opts).is_empty());
    assert!(fragments("```Typst\n#box[]\n```\n", &opts).is_empty());
    assert!(fragments("```typs\n#box[]\n```\n", &opts).is_empty());
}

#[test]
fn disabled_math_gives_no_math_fragments() {
    let mut config = config();
    config.enable_math = Some(false);
    let opts = TypstProcessorOptions::from_config(&config);
    let found = fragments("$x$ and\n\n$$y$$\n\n```typst,render\nz\n```\n", &opts);
    assert_eq!(found.len(), 1);
    assert_eq!(found[0].kind, FragmentKind::EmbeddedCode);
}

#[test]
fn disabled_code_gives_no_code_fragments() {
    let mut config = config();
    config.enable_code = Some(false);
    let opts = TypstProcessorOptions::from_config(&config);
    let found = fragments("$x$ and\n\n$$y$$\n\n```typst,render\nz\n```\n", &opts);
    assert_eq!(found.len(), 2);
    assert_eq!(found[0].kind, FragmentKind::Inline);
    assert_eq!(found[1].kind, FragmentKind::Display);
}

#[test]
fn fragments_come_in_document_order() {
    let content = "$a$ then $b$\n\n$$c$$\n\n```typst,render\nd\n```\n\nand $e$.\n";
    let found = fragments(content, &defaults());
    let kinds: Vec<FragmentKind> = found.iter().map(|f| f.kind).collect();
    assert_eq!(
        kinds,
        vec![
            FragmentKind::Inline,
            FragmentKind::Inline,
            FragmentKind::Display,
            FragmentKind::EmbeddedCode,
            FragmentKind::Inline
        ]
    );
    for pair in found.windows(2) {
        assert!(pair[0].end <= pair[1].start);
    }
    assert_eq!(&content[found[1].start..found[1].end], "$b$");
    assert_eq!(&content[found[4].start..found[4].end], "$e$");
}

#[test]
fn plain_text_gives_no_fragment() {
    assert!(fragments("", &defaults()).is_empty());
    assert!(fragments("No math here, only 5 dollars.", &defaults()).is_empty());
}

#[test]
fn scanner_gathers_text_inside_a_rendered_block() {
    let opts = defaults();
    let tokens = vec![
        token(TokenKind::Text, "outside", 0, 7),
        token(TokenKind::FenceStart, "typst,render", 8, 40),
        token(TokenKind::Text, "one\n", 24, 28),
        token(TokenKind::Other, "", 28, 28),
        token(TokenKind::Text, "  two\n", 28, 34),
        token(TokenKind::CodeEnd, "", 8, 40),
        token(TokenKind::Text, "after", 41, 46),
    ];
    let found = scan(&tokens, &opts);
    assert_eq!(found.len(), 1);
    assert_eq!(found[0].kind, FragmentKind::EmbeddedCode);
    assert_eq!((found[0].start, found[0].end), (8, 40));
    assert_eq!(found[0].source, format!("{}\none\n  two\n", PREAMBLE));
}

#[test]
fn scanner_ignores_math_inside_a_rendered_block() {
    let opts = defaults();
    let tokens = vec![
        token(TokenKind::FenceStart, "typst,render", 0, 30),
        token(TokenKind::InlineMath, "x", 5, 8),
        token(TokenKind::DisplayMath, "y", 9, 14),
        token(TokenKind::FenceStart, "typst,render", 15, 20),
        token(TokenKind::Text, "t", 20, 21),
        token(TokenKind::CodeEnd, "", 0, 30),
    ];
    let found = scan(&tokens, &opts);
    assert_eq!(found.len(), 1);
    assert_eq!((found[0].start, found[0].end), (0, 30));
    assert_eq!(found[0].source, format!("{}\nt", PREAMBLE));
}

#[test]
fn scanner_gives_nothing_for_a_block_that_does_not_end() {
    let opts = defaults();
    let tokens = vec![
        token(TokenKind::FenceStart, "typst,render", 0, 30),
        token(TokenKind::Text, "t", 20, 21),
    ];
    assert!(scan(&tokens, &opts).is_empty());
}

#[test]
fn scanner_ignores_the_end_of_a_block_it_did_not_enter() {
    let opts = defaults();
    let tokens = vec![
        token(TokenKind::FenceStart, "rust", 0, 30),
        token(TokenKind::Text, "fn main() {}", 8, 20),
        token(TokenKind::CodeEnd, "", 0, 30),
        token(TokenKind::InlineMath, "x", 31, 34),
    ];
    let found = scan(&tokens, &opts);
    assert_eq!(found.len(), 1);
    assert_eq!(found[0].kind, FragmentKind::Inline);
}

#[test]
fn scanner_steps_between_its_two_states() {
    let opts = defaults();
    let (state, fragment) =
        ScanState::Scanning.step(&token(TokenKind::FenceStart, "typst,render", 3, 9), &opts);
    assert!(fragment.is_none());
    assert!(matches!(
        &state,
        ScanState::InsideCode { start: 3, end: 9, text } if text.is_empty()
    ));
    let (state, fragment) = state.step(&token(TokenKind::Text, "abc", 4, 7), &opts);
    assert!(fragment.is_none());
    assert!(matches!(
        &state,
        ScanState::InsideCode { start: 3, end: 9, text } if text == "abc"
    ));
    let (state, fragment) = state.step(&token(TokenKind::CodeEnd, "", 3, 9), &opts);
    assert!(matches!(state, ScanState::Scanning));
    let fragment = fragment.unwrap();
    assert_eq!((fragment.start, fragment.end), (3, 9));
    assert_eq!(fragment.source, format!("{}\nabc", PREAMBLE));
}

#[test]
fn lines_of_a_preamble_are_counted() {
    assert_eq!(count_lines(""), 1);
    assert_eq!(count_lines("one line"), 1);
    assert_eq!(count_lines("a\nb"), 2);
    assert_eq!(count_lines("a\nb\n"), 3);
    assert_eq!(count_lines("\n\n\n"), 4);
    assert_eq!(count_lines("ä\r\nö"), 2);
}
