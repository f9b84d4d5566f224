use mdbook_typst_math::compiler::CompileError;
use mdbook_typst_math::rewrite::{
    rewrite, spans_fit_text, wrap_artifact, DocumentRewriter, Fragment, FragmentKind, RewriteError,
};
use mdbook_typst_math::text::{join_two, join_three, same_text, splice};
use mdbook_typst_math::{ConvertError, TypstMathConfig, TypstProcessor, TypstProcessorOptions};

fn defaults() -> TypstProcessorOptions {
    TypstProcessorOptions::from_config(&TypstMathConfig {
        preamble: None,
        inline_preamble: None,
        display_preamble: None,
        fonts: None,
        cache: None,
        color_mode: None,
        code_tag: None,
        enable_math: None,
        enable_code: None,
    })
}

fn fragment(start: usize, end: usize, kind: FragmentKind) -> Fragment {
    Fragment { start, end, source: String::new(), kind, preamble_line_count: 1 }
}

fn images(texts: &[&str]) -> Vec<String> {
    texts.iter().map(|t| t.to_string()).collect()
}

#[test]
fn math_in_a_sentence_is_replaced_and_the_rest_untouched() {
    let rendered = vec![Ok(String::from("<svg>a+b</svg>"))];
    let out = TypstProcessor
        .convert_typst("Intro", "See $a+b$ and more.", &defaults(), &rendered)
        .unwrap();
    assert_eq!(
        out,
        "See <span class=\"typst-inline\"><svg>a+b</svg></span> and more."
    );
}

#[test]
fn document_without_fragments_is_unchanged() {
    let content = "Nothing to render here.\n\n```rust\nfn main() {}\n```\n";
    let out = TypstProcessor.convert_typst("Intro", content, &defaults(), &Vec::new()).unwrap();
    assert_eq!(out, content);
    let out = TypstProcessor.convert_typst("Intro", "", &defaults(), &Vec::new()).unwrap();
    assert_eq!(out, "");
}

#[test]
fn outcomes_are_taken_last_fragment_first() {
    let content = "a $x$ b\n\n$$y$$\n\nc\n\n```typst,render\nz\n```\n\nd";
    let rendered = vec![
        Ok(String::from("[code]")),
        Ok(String::from("[display, much longer than the math it stands for]")),
        Ok(String::from("")),
    ];
    let out = TypstProcessor.convert_typst("ch", content, &defaults(), &rendered).unwrap();
    assert_eq!(
        out,
        "a <span class=\"typst-inline\"></span> b\n\n\
         <div class=\"typst-display\">[display, much longer than the math it stands for]</div>\n\n\
         c\n\n<div class=\"typst-display\">[code]</div>\n\nd"
    );
}

#[test]
fn failed_rendering_fails_the_chapter_and_names_it() {
    let rendered = vec![Err(CompileError::Compilation(String::from("boom")))];
    let out = TypstProcessor.convert_typst("Chapter 1", "See $a+b$ and more.", &defaults(), &rendered);
    match out {
        Err(ConvertError::Render(message)) => assert_eq!(
            message,
            "Failed to render math in chapter 'Chapter 1': Typst compilation error: boom"
        ),
        other => panic!("unexpected: {:?}", other),
    }
}

#[test]
fn first_failure_ends_the_chapter() {
    let rendered = vec![
        Ok(String::from("fine")),
        Err(CompileError::LockPoisoned),
        Err(CompileError::Compilation(String::from("never seen"))),
    ];
    let out = TypstProcessor.convert_typst("ch", "$a$ $b$ $c$", &defaults(), &rendered);
    match out {
        Err(ConvertError::Render(message)) => assert_eq!(
            message,
            "Failed to render math in chapter 'ch': Internal error: lock poisoned"
        ),
        other => panic!("unexpected: {:?}", other),
    }
    // The failure is found although the outcomes of the other fragments are missing.
    let rendered = vec![Ok(String::from("fine")), Err(CompileError::LockPoisoned)];
    let out = TypstProcessor.convert_typst("ch", "$a$ $b$ $c$", &defaults(), &rendered);
    assert!(matches!(out, Err(ConvertError::Render(_))));
}

#[test]
fn wrong_number_of_outcomes_is_refused() {
    let out = TypstProcessor.convert_typst("ch", "$a$ $b$", &defaults(), &vec![Ok(String::from("x"))]);
    assert!(matches!(out, Err(ConvertError::Rewrite(RewriteError::ArtifactCount))));
    let out = TypstProcessor.convert_typst("ch", "$a$", &defaults(), &Vec::new());
    assert!(matches!(out, Err(ConvertError::Rewrite(RewriteError::ArtifactCount))));
    let three = vec![Ok(String::from("x")), Ok(String::from("y")), Ok(String::from("z"))];
    let out = TypstProcessor.convert_typst("ch", "$a$ $b$", &defaults(), &three);
    assert!(matches!(out, Err(ConvertError::Rewrite(RewriteError::ArtifactCount))));
}

#[test]
fn artifacts_are_wrapped_by_kind() {
    assert_eq!(
        wrap_artifact(FragmentKind::Inline, "<svg/>"),
        "<span class=\"typst-inline\"><svg/></span>"
    );
    assert_eq!(
        wrap_artifact(FragmentKind::Display, "<svg/>"),
        "<div class=\"typst-display\"><svg/></div>"
    );
    assert_eq!(
        wrap_artifact(FragmentKind::EmbeddedCode, "<svg/>"),
        "<div class=\"typst-display\"><svg/></div>"
    );
    assert_eq!(wrap_artifact(FragmentKind::Inline, ""), "<span class=\"typst-inline\"></span>");
}

#[test]
fn text_between_spans_survives_whatever_the_lengths() {
    let text = String::from("0123456789abcdefghij");
    let fragments = vec![
        fragment(2, 4, FragmentKind::Inline),
        fragment(4, 4, FragmentKind::Display),
        fragment(7, 15, FragmentKind::EmbeddedCode),
        fragment(19, 20, FragmentKind::Inline),
    ];
    let out = rewrite(text, fragments, &images(&["", "LONG-LONG-LONG", "m", "zz"])).unwrap();
    assert_eq!(
        out,
        "01<span class=\"typst-inline\"></span>\
         <div class=\"typst-display\">LONG-LONG-LONG</div>456\
         <div class=\"typst-display\">m</div>fghi\
         <span class=\"typst-inline\">zz</span>"
    );
}

#[test]
fn spans_are_byte_offsets() {
    let text = String::from("ä€ $x$ 💛!");
    let start = text.find('$').unwrap();
    assert_eq!(start, 6);
    let out = rewrite(text, vec![fragment(6, 9, FragmentKind::Inline)], &images(&["é"])).unwrap();
    assert_eq!(out, "ä€ <span class=\"typst-inline\">é</span> 💛!");
}

#[test]
fn whole_text_and_empty_text_can_be_replaced() {
    let out = rewrite(String::from("$x$"), vec![fragment(0, 3, FragmentKind::Display)], &images(&["y"]));
    assert_eq!(out.unwrap(), "<div class=\"typst-display\">y</div>");
    let out = rewrite(String::new(), vec![fragment(0, 0, FragmentKind::Inline)], &images(&["y"]));
    assert_eq!(out.unwrap(), "<span class=\"typst-inline\">y</span>");
    let out = rewrite(String::from("same"), Vec::new(), &Vec::new());
    assert_eq!(out.unwrap(), "same");
}

#[test]
fn spans_that_do_not_fit_are_refused() {
    let one = images(&["x"]);
    let two = images(&["x", "y"]);
    // behind the end
    assert_eq!(
        rewrite(String::from("abc"), vec![fragment(2, 4, FragmentKind::Inline)], &one),
        Err(RewriteError::InvalidSpan)
    );
    // end before start
    assert_eq!(
        rewrite(String::from("abc"), vec![fragment(2, 1, FragmentKind::Inline)], &one),
        Err(RewriteError::InvalidSpan)
    );
    // within a character
    assert_eq!(
        rewrite(String::from("äbc"), vec![fragment(1, 2, FragmentKind::Inline)], &one),
        Err(RewriteError::InvalidSpan)
    );
    assert_eq!(
        rewrite(String::from("abä"), vec![fragment(1, 3, FragmentKind::Inline)], &one),
        Err(RewriteError::InvalidSpan)
    );
    // overlapping
    assert_eq!(
        rewrite(
            String::from("abcdef"),
            vec![fragment(0, 3, FragmentKind::Inline), fragment(2, 5, FragmentKind::Inline)],
            &two
        ),
        Err(RewriteError::InvalidSpan)
    );
    // out of order
    assert_eq!(
        rewrite(
            String::from("abcdef"),
            vec![fragment(3, 4, FragmentKind::Inline), fragment(0, 1, FragmentKind::Inline)],
            &two
        ),
        Err(RewriteError::InvalidSpan)
    );
    // the spans are looked at before the number of artifacts
    assert_eq!(
        rewrite(String::from("abc"), vec![fragment(2, 4, FragmentKind::Inline)], &two),
        Err(RewriteError::InvalidSpan)
    );
}

#[test]
fn artifacts_must_be_as_many_as_fragments() {
    assert_eq!(
        rewrite(String::from("abc"), vec![fragment(0, 1, FragmentKind::Inline)], &Vec::new()),
        Err(RewriteError::ArtifactCount)
    );
    assert_eq!(
        rewrite(String::from("abc"), Vec::new(), &images(&["x"])),
        Err(RewriteError::ArtifactCount)
    );
}

#[test]
fn fitting_spans_are_recognised() {
    assert!(spans_fit_text("abc", &Vec::new()));
    assert!(spans_fit_text(
        "abcä",
        &vec![
            fragment(0, 0, FragmentKind::Inline),
            fragment(0, 3, FragmentKind::Inline),
            fragment(3, 5, FragmentKind::Inline),
            fragment(5, 5, FragmentKind::Inline)
        ]
    ));
    assert!(!spans_fit_text("abcä", &vec![fragment(3, 4, FragmentKind::Inline)]));
    assert!(!spans_fit_text("abcä", &vec![fragment(4, 5, FragmentKind::Inline)]));
    assert!(!spans_fit_text("abc", &vec![fragment(0, 4, FragmentKind::Inline)]));
    assert!(!spans_fit_text(
        "abc",
        &vec![fragment(1, 2, FragmentKind::Inline), fragment(1, 2, FragmentKind::Inline)]
    ));
}

#[test]
fn rewriter_hands_out_fragments_last_to_first() {
    let fragments = vec![
        fragment(0, 1, FragmentKind::Inline),
        fragment(2, 3, FragmentKind::Display),
        fragment(4, 5, FragmentKind::EmbeddedCode),
    ];
    let mut rewriter = DocumentRewriter::new(String::from("a b c d"), fragments).unwrap();
    assert_eq!(rewriter.pending(), 3);
    let next = rewriter.next().unwrap();
    assert_eq!((next.start, next.end, next.kind), (4, 5, FragmentKind::EmbeddedCode));
    assert_eq!(rewriter.apply("C"), Ok(()));
    let next = rewriter.next().unwrap();
    assert_eq!((next.start, next.end, next.kind), (2, 3, FragmentKind::Display));
    assert_eq!(rewriter.apply("BBBBBBBBBBBBBBBBBBBBBBBB"), Ok(()));
    assert_eq!(rewriter.pending(), 1);
    let next = rewriter.next().unwrap();
    assert_eq!((next.start, next.end, next.kind), (0, 1, FragmentKind::Inline));
    assert_eq!(rewriter.apply(""), Ok(()));
    assert_eq!(rewriter.pending(), 0);
    assert!(rewriter.next().is_none());
    assert_eq!(rewriter.apply("late"), Err(RewriteError::OutOfTurn));
    assert_eq!(
        rewriter.finish().unwrap(),
        "<span class=\"typst-inline\"></span> \
         <div class=\"typst-display\">BBBBBBBBBBBBBBBBBBBBBBBB</div> \
         <div class=\"typst-display\">C</div> d"
    );
}

#[test]
fn rewriter_gives_no_text_before_its_time() {
    let rewriter =
        DocumentRewriter::new(String::from("abc"), vec![fragment(0, 1, FragmentKind::Inline)]).unwrap();
    assert_eq!(rewriter.finish(), Err(RewriteError::OutOfTurn));
    let rewriter = DocumentRewriter::new(String::from("abc"), Vec::new()).unwrap();
    assert_eq!(rewriter.finish().unwrap(), "abc");
    assert!(matches!(
        DocumentRewriter::new(String::from("abc"), vec![fragment(0, 9, FragmentKind::Inline)]),
        Err(RewriteError::InvalidSpan)
    ));
}

#[test]
fn text_helpers_join_cut_and_compare() {
    assert_eq!(join_two("ab", "cd"), "abcd");
    assert_eq!(join_two("", ""), "");
    assert_eq!(join_three("a", "", "ä"), "aä");
    assert_eq!(splice("hello world", 5, 6, "-"), "hello-world");
    assert_eq!(splice("hello", 0, 0, ">"), ">hello");
    assert_eq!(splice("hello", 5, 5, "!"), "hello!");
    assert_eq!(splice("äöü", 2, 4, ""), "äü");
    assert!(same_text("", ""));
    assert!(same_text("äb", "äb"));
    assert!(!same_text("ab", "abc"));
    assert!(!same_text("abd", "abc"));
}
