//! Finding the fragments of a markdown document.
//!
//! The document is tokenized by `pulldown-cmark`. A scanner with two states
//! reads the tokens once, front to back, and gives out a fragment for each
//! piece of math and for each fenced code block that carries the configured
//! language tag.

use pulldown_cmark::{CodeBlockKind, Event, Options, Parser, Tag, TagEnd};
use std::ops::Range;
use vstd::prelude::*;
use vstd::string::*;
use vstd::utf8::*;
use crate::rewrite::{Fragment, FragmentKind};
use crate::text::{join_three, join_two, same_text, utf8};
use crate::{OptionsView, TypstProcessorOptions};

verus! {

/// What a markdown event means to the scanner.
#[derive(Debug, Clone, Copy, PartialEq, Eq, Structural)]
pub enum TokenKind {
    /// Math within a line; the token's text is the math without its delimiters.
    InlineMath,
    /// Math set off from the text; the token's text is the math without its
    /// delimiters.
    DisplayMath,
    /// A fenced code block opens; the token's text is its language tag, and
    /// its span is that of the whole block.
    FenceStart,
    /// A code block closes.
    CodeEnd,
    /// A run of text; inside a code block, a piece of its content.
    Text,
    /// Any other event.
    Other,
}

/// A markdown event with the byte range of the source that it covers.
#[derive(Debug, Clone, PartialEq, Eq)]
pub struct Token {
    pub kind: TokenKind,
    pub text: String,
    pub start: usize,
    pub end: usize,
}

/// A token as the contracts speak of it.
pub struct TokenView {
    pub kind: TokenKind,
    pub text: Seq<char>,
    pub start: int,
    pub end: int,
}

impl View for Token {
    type V = TokenView;

    open spec fn view(&self) -> TokenView {
        TokenView {
            kind: self.kind,
            text: self.text@,
            start: self.start as int,
            end: self.end as int,
        }
    }
}

impl Token {
    /// A token of the given kind and text that covers the bytes `span`.
    pub fn new(kind: TokenKind, text: &str, span: Range<usize>) -> (out: Token)
        ensures
            out.kind == kind,
            out.text@ == text@,
            out.start == span.start,
            out.end == span.end,
    {
        Token { kind, text: String::from_str(text), start: span.start, end: span.end }
    }
}

/// The views of a list of tokens.
pub open spec fn token_views(tokens: Seq<Token>) -> Seq<TokenView> {
    Seq::new(tokens.len(), |i: int| tokens[i]@)
}

/// A fragment as the contracts speak of it.
pub struct FragmentView {
    pub start: int,
    pub end: int,
    pub source: Seq<char>,
    pub kind: FragmentKind,
    pub preamble_line_count: int,
}

impl View for Fragment {
    type V = FragmentView;

    open spec fn view(&self) -> FragmentView {
        FragmentView {
            start: self.start as int,
            end: self.end as int,
            source: self.source@,
            kind: self.kind,
            preamble_line_count: self.preamble_line_count as int,
        }
    }
}

/// The views of a list of fragments.
pub open spec fn fragment_views(fragments: Seq<Fragment>) -> Seq<FragmentView> {
    Seq::new(fragments.len(), |i: int| fragments[i]@)
}

/// The tokens that `pulldown-cmark` reads from a markdown text, with tables,
/// footnotes, strikethrough, task lists and math switched on.
pub uninterp spec fn markdown_tokens(text: Seq<char>) -> Seq<TokenView>;

/// Tokenizes a markdown text.
///
/// Calls `pulldown_cmark::Parser::new_ext` and walks the parser's
/// `into_offset_iter`, keeping of each event its kind, its text where the
/// scanner reads one, and its byte range. The contract gives the outcome a
/// name and claims nothing else of it: the parser is not specified here.
#[verifier::external_body]
pub(crate) fn tokenize(text: &str) -> (out: Vec<Token>)
    ensures
        token_views(out@) == markdown_tokens(text@),
{
    let options = Options::ENABLE_TABLES | Options::ENABLE_FOOTNOTES
        | Options::ENABLE_STRIKETHROUGH | Options::ENABLE_TASKLISTS | Options::ENABLE_MATH;
    Parser::new_ext(text, options).into_offset_iter().map(|(event, span)| {
        let (kind, text) = match event {
            Event::InlineMath(s) => (TokenKind::InlineMath, s),
            Event::DisplayMath(s) => (TokenKind::DisplayMath, s),
            Event::Start(Tag::CodeBlock(CodeBlockKind::Fenced(s))) => (TokenKind::FenceStart, s),
            Event::End(TagEnd::CodeBlock) => (TokenKind::CodeEnd, "".into()),
            Event::Text(s) => (TokenKind::Text, s),
            _ => (TokenKind::Other, "".into()),
        };
        Token::new(kind, &text, span)
    }).collect()
}

/// Whether a character is white space: the characters with the Unicode
/// property `White_Space`.
pub open spec fn is_whitespace(c: char) -> bool {
    let u = c as u32;
    ||| 0x09 <= u <= 0x0D
    ||| u == 0x20
    ||| u == 0x85
    ||| u == 0xA0
    ||| u == 0x1680
    ||| 0x2000 <= u <= 0x200A
    ||| u == 0x2028
    ||| u == 0x2029
    ||| u == 0x202F
    ||| u == 0x205F
    ||| u == 0x3000
}

/// `s` without the white space at its beginning.
pub open spec fn trimmed_start(s: Seq<char>) -> Seq<char>
    decreases s.len(),
{
    if s.len() > 0 && is_whitespace(s[0]) {
        trimmed_start(s.drop_first())
    } else {
        s
    }
}

/// `s` without the white space at its end.
pub open spec fn trimmed_end(s: Seq<char>) -> Seq<char>
    decreases s.len(),
{
    if s.len() > 0 && is_whitespace(s.last()) {
        trimmed_end(s.drop_last())
    } else {
        s
    }
}

/// `s` without the white space at its beginning and at its end.
pub open spec fn trimmed(s: Seq<char>) -> Seq<char> {
    trimmed_end(trimmed_start(s))
}

/// `str::trim` of the standard library returns the string without leading
/// and trailing white space, where white space is what the Unicode property
/// `White_Space` says.
pub assume_specification[ str::trim ](s: &str) -> (out: &str)
    ensures
        out@ == trimmed(s@),
;

/// The number of line feeds among `bytes`.
pub open spec fn newlines(bytes: Seq<u8>) -> nat
    decreases bytes.len(),
{
    if bytes.len() == 0 {
        0
    } else {
        newlines(bytes.drop_last()) + if bytes.last() == 10u8 {
            1nat
        } else {
            0nat
        }
    }
}

/// The number of lines that a preamble takes up: one more than it has line
/// feeds, and no more than a `usize` holds.
pub open spec fn line_count(preamble: Seq<char>) -> int {
    if newlines(utf8(preamble)) < usize::MAX {
        newlines(utf8(preamble)) as int + 1
    } else {
        usize::MAX as int
    }
}

/// Counts the lines that a preamble takes up.
pub fn count_lines(preamble: &str) -> (n: usize)
    ensures
        n == line_count(preamble@),
{
    let bytes = preamble.as_bytes();
    let mut count: usize = 0;
    let mut i: usize = 0;
    while i < bytes.len()
        invariant
            i <= bytes.len(),
            count <= i,
            count == newlines(bytes@.take(i as int)),
        decreases bytes.len() - i,
    {
        proof {
            assert(bytes@.take(i + 1).drop_last() =~= bytes@.take(i as int));
        }
        if bytes[i] == 10u8 {
            count = count + 1;
        }
        i = i + 1;
    }
    proof {
        assert(bytes@.take(bytes.len() as int) =~= bytes@);
    }
    if count < usize::MAX {
        count + 1
    } else {
        count
    }
}

/// The source of a piece of inline math: the preamble, then the math
/// between dollar signs on a line of its own.
pub open spec fn inline_source(preamble: Seq<char>, math: Seq<char>) -> Seq<char> {
    preamble + "\n$"@ + math + "$"@
}

/// The source of a piece of display math: the preamble, then the math, with
/// the white space around it removed, between spaced dollar signs.
pub open spec fn display_source(preamble: Seq<char>, math: Seq<char>) -> Seq<char> {
    preamble + "\n$ "@ + trimmed(math) + " $"@
}

/// The source of a rendered code block: the preamble, then the content of
/// the block as it stands.
pub open spec fn code_source(preamble: Seq<char>, code: Seq<char>) -> Seq<char> {
    preamble + "\n"@ + code
}

/// Where the scanner is.
#[derive(Debug, Clone, PartialEq, Eq)]
pub enum ScanState {
    /// Between fragments.
    Scanning,
    /// Inside a code block that is rendered: the span of the block, and the
    /// content read so far.
    InsideCode { start: usize, end: usize, text: String },
}

/// The scanner's state as the contracts speak of it.
pub enum ScanStateView {
    Scanning,
    InsideCode { start: int, end: int, text: Seq<char> },
}

impl View for ScanState {
    type V = ScanStateView;

    open spec fn view(&self) -> ScanStateView {
        match self {
            ScanState::Scanning => ScanStateView::Scanning,
            ScanState::InsideCode { start, end, text } => ScanStateView::InsideCode {
                start: *start as int,
                end: *end as int,
                text: text@,
            },
        }
    }
}

/// The view of a fragment that may be missing.
pub open spec fn fragment_view(fragment: Option<Fragment>) -> Option<FragmentView> {
    match fragment {
        Some(f) => Some(f@),
        None => None,
    }
}

/// One step of the scanner: the state after a token, and the fragment that
/// the token completes, if any.
///
/// Between fragments, math gives a fragment at once where math is rendered,
/// and a fence with the configured tag opens a code block where code is
/// rendered. Inside such a block text is gathered as it stands, and the end
/// of the block gives the fragment. Every other token changes nothing.
pub open spec fn scan_step(opts: OptionsView, state: ScanStateView, token: TokenView) -> (
    ScanStateView,
    Option<FragmentView>,
) {
    match state {
        ScanStateView::Scanning => match token.kind {
            TokenKind::InlineMath if opts.enable_math => (
                state,
                Some(
                    FragmentView {
                        start: token.start,
                        end: token.end,
                        source: inline_source(opts.inline_preamble, token.text),
                        kind: FragmentKind::Inline,
                        preamble_line_count: line_count(opts.inline_preamble),
                    },
                ),
            ),
            TokenKind::DisplayMath if opts.enable_math => (
                state,
                Some(
                    FragmentView {
                        start: token.start,
                        end: token.end,
                        source: display_source(opts.display_preamble, token.text),
                        kind: FragmentKind::Display,
                        preamble_line_count: line_count(opts.display_preamble),
                    },
                ),
            ),
            TokenKind::FenceStart if opts.enable_code && token.text == opts.code_tag => (
                ScanStateView::InsideCode {
                    start: token.start,
                    end: token.end,
                    text: Seq::empty(),
                },
                None,
            ),
            _ => (state, None),
        },
        ScanStateView::InsideCode { start, end, text } => match token.kind {
            TokenKind::Text => (
                ScanStateView::InsideCode { start, end, text: text + token.text },
                None,
            ),
            TokenKind::CodeEnd => (
                ScanStateView::Scanning,
                Some(
                    FragmentView {
                        start,
                        end,
                        source: code_source(opts.display_preamble, text),
                        kind: FragmentKind::EmbeddedCode,
                        preamble_line_count: line_count(opts.display_preamble),
                    },
                ),
            ),
            _ => (state, None),
        },
    }
}

/// The fragments that the scanner gives out when it reads `tokens` from the
/// state `state` on, in the order in which it completes them.
pub open spec fn scanned(opts: OptionsView, state: ScanStateView, tokens: Seq<TokenView>) -> Seq<
    FragmentView,
>
    decreases tokens.len(),
{
    if tokens.len() == 0 {
        Seq::empty()
    } else {
        let (next, fragment) = scan_step(opts, state, tokens[0]);
        let rest = scanned(opts, next, tokens.drop_first());
        match fragment {
            Some(f) => seq![f] + rest,
            None => rest,
        }
    }
}

impl ScanState {
    /// Takes one token: gives the state after it, and the fragment that it
    /// completes, if any.
    pub fn step(self, token: &Token, opts: &TypstProcessorOptions) -> (out: (
        ScanState,
        Option<Fragment>,
    ))
        ensures
            (out.0@, fragment_view(out.1)) == scan_step(opts@, self@, token@),
    {
        match self {
            ScanState::Scanning => {
                match token.kind {
                    TokenKind::InlineMath => {
                        if opts.enable_math {
                            let preamble = opts.inline();
                            let head = join_two(preamble, "\n$");
                            let source = join_three(head.as_str(), token.text.as_str(), "$");
                            let fragment = Fragment {
                                start: token.start,
                                end: token.end,
                                source,
                                kind: FragmentKind::Inline,
                                preamble_line_count: count_lines(preamble),
                            };
                            (ScanState::Scanning, Some(fragment))
                        } else {
                            (ScanState::Scanning, None)
                        }
                    },
                    TokenKind::DisplayMath => {
                        if opts.enable_math {
                            let preamble = opts.display();
                            let head = join_two(preamble, "\n$ ");
                            let math = token.text.as_str().trim();
                            let source = join_three(head.as_str(), math, " $");
                            let fragment = Fragment {
                                start: token.start,
                                end: token.end,
                                source,
                                kind: FragmentKind::Display,
                                preamble_line_count: count_lines(preamble),
                            };
                            (ScanState::Scanning, Some(fragment))
                        } else {
                            (ScanState::Scanning, None)
                        }
                    },
                    TokenKind::FenceStart => {
                        if opts.enable_code && same_text(
                            token.text.as_str(),
                            opts.code_tag.as_str(),
                        ) {
                            (
                                ScanState::InsideCode {
                                    start: token.start,
                                    end: token.end,
                                    text: String::new(),
                                },
                                None,
                            )
                        } else {
                            (ScanState::Scanning, None)
                        }
                    },
                    _ => (ScanState::Scanning, None),
                }
            },
            ScanState::InsideCode { start, end, text } => {
                match token.kind {
                    TokenKind::Text => {
                        let text = join_two(text.as_str(), token.text.as_str());
                        (ScanState::InsideCode { start, end, text }, None)
                    },
                    TokenKind::CodeEnd => {
                        let preamble = opts.display();
                        let source = join_three(preamble, "\n", text.as_str());
                        let fragment = Fragment {
                            start,
                            end,
                            source,
                            kind: FragmentKind::EmbeddedCode,
                            preamble_line_count: count_lines(preamble),
                        };
                        (ScanState::Scanning, Some(fragment))
                    },
                    _ => (ScanState::InsideCode { start, end, text }, None),
                }
            },
        }
    }
}

/// Scanning tokens one after the other gives what scanning them together gives.
pub proof fn lemma_scanned_push(
    opts: OptionsView,
    state: ScanStateView,
    tokens: Seq<TokenView>,
    token: TokenView,
)
    ensures
        scanned(opts, state, tokens.push(token)) == scanned(opts, state, tokens) + scanned(
            opts,
            state_after(opts, state, tokens),
            seq![token],
        ),
    decreases tokens.len(),
{
    if tokens.len() == 0 {
        assert(tokens.push(token) =~= seq![token]);
        assert(scanned(opts, state, tokens) =~= Seq::empty());
    } else {
        let (next, fragment) = scan_step(opts, state, tokens[0]);
        assert(tokens.push(token).drop_first() =~= tokens.drop_first().push(token));
        lemma_scanned_push(opts, next, tokens.drop_first(), token);
        assert(scanned(opts, state, tokens.push(token)) =~= scanned(opts, state, tokens) + scanned(
            opts,
            state_after(opts, state, tokens),
            seq![token],
        ));
    }
}

/// Scanning a single token gives the fragment of one step, if it gives one.
pub proof fn lemma_scanned_one(opts: OptionsView, state: ScanStateView, token: TokenView)
    ensures
        scanned(opts, state, seq![token]) == match scan_step(opts, state, token).1 {
            Some(f) => seq![f],
            None => Seq::empty(),
        },
{
    let rest = scanned(opts, scan_step(opts, state, token).0, seq![token].drop_first());
    assert(seq![token].drop_first() =~= Seq::<TokenView>::empty());
    assert(rest =~= Seq::empty());
    assert(seq![token][0] == token);
    match scan_step(opts, state, token).1 {
        Some(f) => {
            assert(seq![f] + rest =~= seq![f]);
        },
        None => {},
    }
}

/// The state in which the scanner is after it has read `tokens` from the
/// state `state` on.
pub open spec fn state_after(
    opts: OptionsView,
    state: ScanStateView,
    tokens: Seq<TokenView>,
) -> ScanStateView
    decreases tokens.len(),
{
    if tokens.len() == 0 {
        state
    } else {
        state_after(opts, scan_step(opts, state, tokens[0]).0, tokens.drop_first())
    }
}

/// After one more token the scanner is where a step from its last state takes it.
pub proof fn lemma_state_after_push(
    opts: OptionsView,
    state: ScanStateView,
    tokens: Seq<TokenView>,
    token: TokenView,
)
    ensures
        state_after(opts, state, tokens.push(token)) == scan_step(
            opts,
            state_after(opts, state, tokens),
            token,
        ).0,
    decreases tokens.len(),
{
    if tokens.len() == 0 {
        assert(tokens.push(token).drop_first() =~= Seq::<TokenView>::empty());
    } else {
        assert(tokens.push(token).drop_first() =~= tokens.drop_first().push(token));
        lemma_state_after_push(
            opts,
            scan_step(opts, state, tokens[0]).0,
            tokens.drop_first(),
            token,
        );
    }
}

/// Reads the tokens of a document once, front to back, and gives the
/// fragments in the order in which the scanner completes them.
pub fn scan(tokens: &Vec<Token>, opts: &TypstProcessorOptions) -> (out: Vec<Fragment>)
    ensures
        fragment_views(out@) == scanned(opts@, ScanStateView::Scanning, token_views(tokens@)),
{
    let mut out: Vec<Fragment> = Vec::new();
    let mut state = ScanState::Scanning;
    let ghost all = token_views(tokens@);
    let mut i: usize = 0;
    while i < tokens.len()
        invariant
            i <= tokens.len(),
            all == token_views(tokens@),
            state@ == state_after(opts@, ScanStateView::Scanning, all.take(i as int)),
            fragment_views(out@) == scanned(opts@, ScanStateView::Scanning, all.take(i as int)),
        decreases tokens.len() - i,
    {
        let ghost before = fragment_views(out@);
        let ghost seen = all.take(i as int);
        let ghost token = all[i as int];
        let (next, fragment) = state.step(&tokens[i], opts);
        proof {
            assert(all.take(i + 1) =~= seen.push(token));
            lemma_scanned_push(opts@, ScanStateView::Scanning, seen, token);
            lemma_state_after_push(opts@, ScanStateView::Scanning, seen, token);
            lemma_scanned_one(opts@, state_after(opts@, ScanStateView::Scanning, seen), token);
            assert(token == tokens[i as int]@);
        }
        state = next;
        match fragment {
            Some(f) => {
                out.push(f);
                assert(fragment_views(out@) =~= before + seq![f@]);
            },
            None => {
                assert(before + Seq::<FragmentView>::empty() =~= before);
            },
        }
        i = i + 1;
    }
    proof {
        assert(all.take(tokens.len() as int) =~= all);
    }
    out
}

/// The texts of a run of tokens, one after the other.
pub open spec fn gathered(tokens: Seq<TokenView>) -> Seq<char>
    decreases tokens.len(),
{
    if tokens.len() == 0 {
        Seq::empty()
    } else {
        tokens[0].text + gathered(tokens.drop_first())
    }
}

/// Every token is a run of text.
pub open spec fn all_text(tokens: Seq<TokenView>) -> bool {
    forall|i: int| 0 <= i < tokens.len() ==> (#[trigger] tokens[i]).kind == TokenKind::Text
}

/// The fragment of a rendered code block with the span `start..end` and the
/// content `code`.
pub open spec fn code_fragment(
    opts: OptionsView,
    start: int,
    end: int,
    code: Seq<char>,
) -> FragmentView {
    FragmentView {
        start,
        end,
        source: code_source(opts.display_preamble, code),
        kind: FragmentKind::EmbeddedCode,
        preamble_line_count: line_count(opts.display_preamble),
    }
}

/// Inside a rendered code block the scanner gathers the text as it stands, and
/// the end of the block gives one fragment with all of it.
pub proof fn lemma_inside_block(
    opts: OptionsView,
    start: int,
    end: int,
    text: Seq<char>,
    texts: Seq<TokenView>,
    close: TokenView,
)
    requires
        all_text(texts),
        close.kind == TokenKind::CodeEnd,
    ensures
        scanned(opts, ScanStateView::InsideCode { start, end, text }, texts.push(close)) == seq![
            code_fragment(opts, start, end, text + gathered(texts)),
        ],
    decreases texts.len(),
{
    let state = ScanStateView::InsideCode { start, end, text };
    if texts.len() == 0 {
        assert(texts.push(close) =~= seq![close]);
        lemma_scanned_one(opts, state, close);
        assert(text + gathered(texts) =~= text);
    } else {
        let first = texts[0];
        assert(texts.push(close)[0] == first);
        assert(texts.push(close).drop_first() =~= texts.drop_first().push(close));
        assert(all_text(texts.drop_first())) by {
            assert forall|i: int| 0 <= i < texts.drop_first().len() implies (
            #[trigger] texts.drop_first()[i]).kind == TokenKind::Text by {
                assert(texts.drop_first()[i] == texts[i + 1]);
            }
        }
        lemma_inside_block(opts, start, end, text + first.text, texts.drop_first(), close);
        assert((text + first.text) + gathered(texts.drop_first()) =~= text + gathered(texts));
    }
}

/// A fenced block with exactly the configured tag always gives a fragment,
/// where code is rendered: one fragment that spans the block and holds the
/// text of the block as it stands, behind the display preamble.
pub proof fn lemma_tagged_block(
    opts: OptionsView,
    open: TokenView,
    texts: Seq<TokenView>,
    close: TokenView,
)
    requires
        opts.enable_code,
        open.kind == TokenKind::FenceStart,
        open.text == opts.code_tag,
        all_text(texts),
        close.kind == TokenKind::CodeEnd,
    ensures
        scanned(opts, ScanStateView::Scanning, seq![open] + texts.push(close)) == seq![
            code_fragment(opts, open.start, open.end, gathered(texts)),
        ],
{
    let tokens = seq![open] + texts.push(close);
    assert(tokens[0] == open);
    assert(tokens.drop_first() =~= texts.push(close));
    lemma_inside_block(opts, open.start, open.end, Seq::empty(), texts, close);
    assert(Seq::<char>::empty() + gathered(texts) =~= gathered(texts));
}

/// Between fragments, text and the end of a code block give nothing.
pub proof fn lemma_scanning_text(opts: OptionsView, texts: Seq<TokenView>, close: TokenView)
    requires
        all_text(texts),
        close.kind == TokenKind::CodeEnd,
    ensures
        scanned(opts, ScanStateView::Scanning, texts.push(close)) == Seq::<FragmentView>::empty(),
    decreases texts.len(),
{
    if texts.len() == 0 {
        assert(texts.push(close) =~= seq![close]);
        lemma_scanned_one(opts, ScanStateView::Scanning, close);
    } else {
        assert(texts.push(close)[0] == texts[0]);
        assert(texts.push(close).drop_first() =~= texts.drop_first().push(close));
        assert(all_text(texts.drop_first())) by {
            assert forall|i: int| 0 <= i < texts.drop_first().len() implies (
            #[trigger] texts.drop_first()[i]).kind == TokenKind::Text by {
                assert(texts.drop_first()[i] == texts[i + 1]);
            }
        }
        lemma_scanning_text(opts, texts.drop_first(), close);
    }
}

/// A fenced block with another tag than the configured one never gives a
/// fragment, and neither does any fenced block where code is not rendered.
pub proof fn lemma_untagged_block(
    opts: OptionsView,
    open: TokenView,
    texts: Seq<TokenView>,
    close: TokenView,
)
    requires
        open.kind == TokenKind::FenceStart,
        open.text != opts.code_tag || !opts.enable_code,
        all_text(texts),
        close.kind == TokenKind::CodeEnd,
    ensures
        scanned(opts, ScanStateView::Scanning, seq![open] + texts.push(close)) == Seq::<
            FragmentView,
        >::empty(),
{
    let tokens = seq![open] + texts.push(close);
    assert(tokens[0] == open);
    assert(tokens.drop_first() =~= texts.push(close));
    lemma_scanning_text(opts, texts, close);
}

/// A piece of inline math gives exactly one inline fragment where math is
/// rendered: its source is the inline preamble, then the math between dollar
/// signs.
pub proof fn lemma_inline_math(opts: OptionsView, token: TokenView)
    requires
        opts.enable_math,
        token.kind == TokenKind::InlineMath,
    ensures
        scanned(opts, ScanStateView::Scanning, seq![token]) == seq![
            FragmentView {
                start: token.start,
                end: token.end,
                source: inline_source(opts.inline_preamble, token.text),
                kind: FragmentKind::Inline,
                preamble_line_count: line_count(opts.inline_preamble),
            },
        ],
{
    lemma_scanned_one(opts, ScanStateView::Scanning, token);
}

/// A piece of display math gives exactly one display fragment where math is
/// rendered: its source is the display preamble, then the trimmed math between
/// spaced dollar signs.
pub proof fn lemma_display_math(opts: OptionsView, token: TokenView)
    requires
        opts.enable_math,
        token.kind == TokenKind::DisplayMath,
    ensures
        scanned(opts, ScanStateView::Scanning, seq![token]) == seq![
            FragmentView {
                start: token.start,
                end: token.end,
                source: display_source(opts.display_preamble, token.text),
                kind: FragmentKind::Display,
                preamble_line_count: line_count(opts.display_preamble),
            },
        ],
{
    lemma_scanned_one(opts, ScanStateView::Scanning, token);
}

} // verus!
