//! Renders the math and the marked code blocks of a markdown document with
//! Typst, and puts the rendered images in their place.
//!
//! The library holds the logic: which parts of a document are rendered and
//! from what source, how the rendered images are set back into the text, which
//! files the engine is served from a read-through cache, and how a package is
//! resolved to a directory. Reading files, fetching packages and running the
//! engine are left to the caller, who is told by the library what to do next.

use vstd::prelude::*;
use vstd::string::*;
use crate::color::{recolor, recolored};
use crate::compiler::{error_text, CompileError};
use crate::markdown::{
    fragment_views, markdown_tokens, scan, scanned, tokenize, FragmentView, ScanStateView,
};
use crate::rewrite::{
    interleaved, rewrite, spans_fit, spans_of, wrapped, wrapped_inserts, Fragment, RewriteError,
};
use crate::text::{join_three, join_two, utf8};

pub mod color;
pub mod compiler;
pub mod diagnostics;
pub mod files;
pub mod markdown;
pub mod package;
pub mod rewrite;
pub mod text;

verus! {

/// Font locations as they appear in a configuration: one path, or a list of paths.
#[derive(Debug, Clone, PartialEq, Eq)]
pub enum FontsConfig {
    Single(String),
    Multiple(Vec<String>),
}

impl FontsConfig {
    /// The paths this configuration names, in the order given.
    pub open spec fn paths(self) -> Seq<String> {
        match self {
            FontsConfig::Single(s) => seq![s],
            FontsConfig::Multiple(v) => v@,
        }
    }

    /// Flattens the configuration into the list of paths it names.
    pub fn into_vec(self) -> (out: Vec<String>)
        ensures
            out@ == self.paths(),
    {
        match self {
            FontsConfig::Single(s) => {
                let mut v: Vec<String> = Vec::new();
                v.push(s);
                v
            },
            FontsConfig::Multiple(v) => v,
        }
    }
}

/// What is done to the colors of a rendered image.
#[derive(Debug, Clone, Copy, PartialEq, Eq, Structural)]
pub enum ColorMode {
    /// Solid black fills and strokes take the color of the surrounding text.
    Auto,
    /// Colors are left as rendered.
    Static,
}

/// The settings as a configuration file gives them: every one may be missing.
#[derive(Debug, Clone, PartialEq, Eq)]
pub struct TypstMathConfig {
    pub preamble: Option<String>,
    pub inline_preamble: Option<String>,
    pub display_preamble: Option<String>,
    pub fonts: Option<FontsConfig>,
    pub cache: Option<String>,
    pub color_mode: Option<ColorMode>,
    pub code_tag: Option<String>,
    pub enable_math: Option<bool>,
    pub enable_code: Option<bool>,
}

/// Options that control what is rendered, and from what source.
#[derive(Debug, Clone, PartialEq, Eq)]
pub struct TypstProcessorOptions {
    /// Typst code put before each fragment, unless a more specific preamble is set.
    pub preamble: String,
    /// Typst code put before inline math, in place of `preamble`.
    pub inline_preamble: Option<String>,
    /// Typst code put before display math and rendered code blocks, in place
    /// of `preamble`.
    pub display_preamble: Option<String>,
    /// The language tag of the fenced code blocks that are rendered.
    pub code_tag: String,
    /// Whether math is rendered.
    pub enable_math: bool,
    /// Whether tagged code blocks are rendered.
    pub enable_code: bool,
    /// What is done to the colors of a rendered image.
    pub color_mode: ColorMode,
}

/// The options as the scanner reads them.
pub struct OptionsView {
    pub inline_preamble: Seq<char>,
    pub display_preamble: Seq<char>,
    pub code_tag: Seq<char>,
    pub enable_math: bool,
    pub enable_code: bool,
    pub color_mode: ColorMode,
}

/// The preamble used where a configuration sets none: a page that takes the
/// size of its content, a small margin, no background.
pub open spec fn default_preamble() -> Seq<char> {
    "#set page(width: auto, height: auto, margin: 0.5em, fill: none)"@
}

/// The language tag that marks a code block for rendering where a
/// configuration sets none.
pub open spec fn default_code_tag() -> Seq<char> {
    "typst,render"@
}

/// The value of an optional text setting, or `default` where it is missing.
pub open spec fn text_or(setting: Option<String>, default: Seq<char>) -> Seq<char> {
    match setting {
        Some(s) => s@,
        None => default,
    }
}

/// The value of an optional setting, or `default` where it is missing.
pub open spec fn value_or<T>(setting: Option<T>, default: T) -> T {
    match setting {
        Some(v) => v,
        None => default,
    }
}

impl View for TypstProcessorOptions {
    type V = OptionsView;

    open spec fn view(&self) -> OptionsView {
        OptionsView {
            inline_preamble: text_or(self.inline_preamble, self.preamble@),
            display_preamble: text_or(self.display_preamble, self.preamble@),
            code_tag: self.code_tag@,
            enable_math: self.enable_math,
            enable_code: self.enable_code,
            color_mode: self.color_mode,
        }
    }
}

impl TypstProcessorOptions {
    /// The options that a configuration asks for, with the default in the
    /// place of each setting that is missing. The two specific preambles stay
    /// unset where missing, and then fall back to `preamble`.
    pub fn from_config(config: &TypstMathConfig) -> (out: TypstProcessorOptions)
        ensures
            out.preamble@ == text_or(config.preamble, default_preamble()),
            out.inline_preamble is Some <==> config.inline_preamble is Some,
            out.display_preamble is Some <==> config.display_preamble is Some,
            out@.inline_preamble == text_or(config.inline_preamble, out.preamble@),
            out@.display_preamble == text_or(config.display_preamble, out.preamble@),
            out.code_tag@ == text_or(config.code_tag, default_code_tag()),
            out.enable_math == value_or(config.enable_math, true),
            out.enable_code == value_or(config.enable_code, true),
            out.color_mode == value_or(config.color_mode, ColorMode::Auto),
    {
        TypstProcessorOptions {
            preamble: match &config.preamble {
                Some(p) => p.clone(),
                None => String::from_str(
                    "#set page(width: auto, height: auto, margin: 0.5em, fill: none)",
                ),
            },
            inline_preamble: match &config.inline_preamble {
                Some(p) => Some(p.clone()),
                None => None,
            },
            display_preamble: match &config.display_preamble {
                Some(p) => Some(p.clone()),
                None => None,
            },
            code_tag: match &config.code_tag {
                Some(t) => t.clone(),
                None => String::from_str("typst,render"),
            },
            enable_math: match config.enable_math {
                Some(b) => b,
                None => true,
            },
            enable_code: match config.enable_code {
                Some(b) => b,
                None => true,
            },
            color_mode: match config.color_mode {
                Some(m) => m,
                None => ColorMode::Auto,
            },
        }
    }

    /// The preamble put before inline math.
    pub fn inline(&self) -> (out: &str)
        ensures
            out@ == self@.inline_preamble,
    {
        match &self.inline_preamble {
            Some(p) => p.as_str(),
            None => self.preamble.as_str(),
        }
    }

    /// The preamble put before display math and rendered code blocks.
    pub fn display(&self) -> (out: &str)
        ensures
            out@ == self@.display_preamble,
    {
        match &self.display_preamble {
            Some(p) => p.as_str(),
            None => self.preamble.as_str(),
        }
    }
}

/// The preprocessor: it turns the math and the tagged code blocks of a
/// chapter into rendered images.
#[derive(Debug, Clone, PartialEq, Eq)]
pub struct TypstProcessor;

impl TypstProcessor {
    /// The name under which the preprocessor is configured.
    pub fn name(&self) -> (out: &'static str)
        ensures
            out@ == "typst-math"@,
    {
        "typst-math"
    }

    /// Whether the preprocessor serves the given renderer: only `html`.
    pub fn supports_renderer(&self, renderer: &str) -> (out: bool)
        ensures
            out == (renderer@ == "html"@),
    {
        crate::text::same_text(renderer, "html")
    }

    /// The fragments of a chapter, in the order in which the scanner
    /// completes them.
    pub fn fragments(&self, content: &str, opts: &TypstProcessorOptions) -> (out: Vec<Fragment>)
        ensures
            fragment_views(out@) == scanned(
                opts@,
                ScanStateView::Scanning,
                markdown_tokens(content@),
            ),
    {
        let tokens = tokenize(content);
        scan(&tokens, opts)
    }

    /// Puts the rendered fragments of a chapter into its text.
    ///
    /// `rendered` holds the outcomes of rendering the fragments of the
    /// chapter in the order in which they are rendered: the last fragment
    /// first. The first failure among them fails the chapter, and what
    /// follows it is not looked at. Without a failure every fragment is
    /// exchanged for its image, wrapped as its kind calls for, and the rest
    /// of the text stays as it is.
    pub fn convert_typst(
        &self,
        chapter_name: &str,
        content: &str,
        opts: &TypstProcessorOptions,
        rendered: &Vec<Result<String, CompileError>>,
    ) -> (out: Result<String, ConvertError>)
        ensures
            converted_view(out) == conversion(
                chapter_name@,
                content@,
                scanned(opts@, ScanStateView::Scanning, markdown_tokens(content@)),
                outcome_views(rendered@),
                opts.color_mode,
            ),
    {
        let fragments = self.fragments(content, opts);
        let count = fragments.len();
        let ghost views = fragment_views(fragments@);
        let ghost outcomes = outcome_views(rendered@);
        let limit = if rendered.len() < count {
            rendered.len()
        } else {
            count
        };
        let mut j: usize = 0;
        while j < limit
            invariant
                j <= limit,
                limit <= rendered.len(),
                limit == if rendered.len() < count {
                    rendered.len()
                } else {
                    count
                },
                count == views.len(),
                views == scanned(opts@, ScanStateView::Scanning, markdown_tokens(content@)),
                outcomes == outcome_views(rendered@),
                first_error(outcomes, 0, limit as int) == first_error(
                    outcomes,
                    j as int,
                    limit as int,
                ),
            decreases limit - j,
        {
            match &rendered[j] {
                Err(error) => {
                    let text = error.message();
                    let head = join_three(
                        "Failed to render math in chapter '",
                        chapter_name,
                        "': ",
                    );
                    assert(outcomes[j as int] == outcome_view(rendered@[j as int]));
                    return Err(ConvertError::Render(join_two(head.as_str(), text.as_str())));
                },
                Ok(_) => {
                    assert(outcomes[j as int] == outcome_view(rendered@[j as int]));
                },
            }
            j = j + 1;
        }
        if rendered.len() != count {
            return Err(ConvertError::Rewrite(RewriteError::ArtifactCount));
        }
        proof {
            assert forall|j: int| 0 <= j < count implies (#[trigger] outcomes[j]) is Ok by {
                lemma_no_error(outcomes, 0, limit as int, j);
            }
        }
        let mut artifacts: Vec<String> = Vec::new();
        let mut k: usize = 0;
        while k < count
            invariant
                k <= count,
                count == rendered.len(),
                outcomes == outcome_views(rendered@),
                forall|j: int| 0 <= j < count ==> (#[trigger] outcomes[j]) is Ok,
                artifacts@.len() == k,
                forall|i: int|
                    0 <= i < k ==> (#[trigger] artifacts@[i])@ == recolored(
                        outcomes[count - 1 - i]->Ok_0,
                        opts.color_mode,
                    ),
            decreases count - k,
        {
            assert(outcomes[count - 1 - k] == outcome_view(rendered@[count - 1 - k]));
            match &rendered[count - 1 - k] {
                Ok(image) => {
                    artifacts.push(recolor(image.as_str(), opts.color_mode));
                },
                Err(_) => {
                    assert(false);
                },
            }
            k = k + 1;
        }
        proof {
            assert(spans_of(fragments@) =~= view_spans(views));
            assert(wrapped_inserts(fragments@, artifacts@) =~= view_inserts(
                views,
                outcomes,
                opts.color_mode,
            )) by {
                assert forall|i: int| 0 <= i < count implies wrapped_inserts(
                    fragments@,
                    artifacts@,
                )[i] == view_inserts(views, outcomes, opts.color_mode)[i] by {
                    assert(artifacts@[i]@ == recolored(
                        outcomes[count - 1 - i]->Ok_0,
                        opts.color_mode,
                    ));
                    assert(views[i] == fragments@[i]@);
                }
            }
        }
        match rewrite(String::from_str(content), fragments, &artifacts) {
            Ok(text) => Ok(text),
            Err(error) => Err(ConvertError::Rewrite(error)),
        }
    }
}

/// Why a chapter could not be converted.
#[derive(Debug, Clone, PartialEq, Eq)]
pub enum ConvertError {
    /// A fragment could not be rendered. Holds a message that names the
    /// chapter.
    Render(String),
    /// The rendered fragments could not be put into the text.
    Rewrite(RewriteError),
}

/// A failed conversion as the contracts speak of it.
pub enum ConvertErrorView {
    Render(Seq<char>),
    Rewrite(RewriteError),
}

/// The outcome of a conversion as the contracts speak of it: the bytes of
/// the new text, or the failure.
pub open spec fn converted_view(out: Result<String, ConvertError>) -> Result<
    Seq<u8>,
    ConvertErrorView,
> {
    match out {
        Ok(text) => Ok(utf8(text@)),
        Err(ConvertError::Render(message)) => Err(ConvertErrorView::Render(message@)),
        Err(ConvertError::Rewrite(error)) => Err(ConvertErrorView::Rewrite(error)),
    }
}

/// The outcome of rendering a fragment as the contracts speak of it: the
/// image, or the text of the error.
pub open spec fn outcome_view(outcome: Result<String, CompileError>) -> Result<
    Seq<char>,
    Seq<char>,
> {
    match outcome {
        Ok(image) => Ok(image@),
        Err(error) => Err(error_text(error)),
    }
}

/// The views of a list of outcomes.
pub open spec fn outcome_views(outcomes: Seq<Result<String, CompileError>>) -> Seq<
    Result<Seq<char>, Seq<char>>,
> {
    Seq::new(outcomes.len(), |i: int| outcome_view(outcomes[i]))
}

/// The message with which a chapter fails when a fragment cannot be rendered.
pub open spec fn render_failure(chapter: Seq<char>, error: Seq<char>) -> Seq<char> {
    "Failed to render math in chapter '"@ + chapter + "': "@ + error
}

/// The place of the first failure among the outcomes `from..limit`.
pub open spec fn first_error(
    outcomes: Seq<Result<Seq<char>, Seq<char>>>,
    from: int,
    limit: int,
) -> Option<int>
    decreases limit - from,
{
    if from >= limit {
        None
    } else if outcomes[from] is Err {
        Some(from)
    } else {
        first_error(outcomes, from + 1, limit)
    }
}

/// Where there is no failure among the outcomes `from..limit`, each of them
/// is an image.
pub proof fn lemma_no_error(
    outcomes: Seq<Result<Seq<char>, Seq<char>>>,
    from: int,
    limit: int,
    at: int,
)
    requires
        first_error(outcomes, from, limit) is None,
        from <= at < limit,
    ensures
        outcomes[at] is Ok,
    decreases limit - from,
{
    if from < at {
        lemma_no_error(outcomes, from + 1, limit, at);
    }
}

/// The byte ranges of a list of fragments.
pub open spec fn view_spans(fragments: Seq<FragmentView>) -> Seq<(int, int)> {
    Seq::new(fragments.len(), |i: int| (fragments[i].start, fragments[i].end))
}

/// The inserts that the outcomes give rise to. The outcomes come in the
/// order of rendering, last fragment first; each image gets the colors that
/// the color mode asks for, and is wrapped as the kind of its fragment calls
/// for.
pub open spec fn view_inserts(
    fragments: Seq<FragmentView>,
    outcomes: Seq<Result<Seq<char>, Seq<char>>>,
    mode: ColorMode,
) -> Seq<Seq<u8>> {
    Seq::new(
        fragments.len(),
        |i: int|
            utf8(
                wrapped(
                    fragments[i].kind,
                    recolored(outcomes[fragments.len() - 1 - i]->Ok_0, mode),
                ),
            ),
    )
}

/// What the conversion of a chapter gives: the failure of the first
/// fragment that could not be rendered; else, where the outcomes are as many
/// as the fragments and the fragments fit the text, the text with each
/// fragment exchanged for its wrapped image, in the colors that the color
/// mode asks for, and all else as it was.
pub open spec fn conversion(
    chapter: Seq<char>,
    content: Seq<char>,
    fragments: Seq<FragmentView>,
    outcomes: Seq<Result<Seq<char>, Seq<char>>>,
    mode: ColorMode,
) -> Result<Seq<u8>, ConvertErrorView> {
    let limit = if outcomes.len() < fragments.len() {
        outcomes.len() as int
    } else {
        fragments.len() as int
    };
    match first_error(outcomes, 0, limit) {
        Some(j) => Err(ConvertErrorView::Render(render_failure(chapter, outcomes[j]->Err_0))),
        None => if outcomes.len() != fragments.len() {
            Err(ConvertErrorView::Rewrite(RewriteError::ArtifactCount))
        } else if !spans_fit(utf8(content), view_spans(fragments)) {
            Err(ConvertErrorView::Rewrite(RewriteError::InvalidSpan))
        } else {
            Ok(
                interleaved(
                    utf8(content),
                    view_spans(fragments),
                    view_inserts(fragments, outcomes, mode),
                    0,
                    0,
                ),
            )
        },
    }
}

/// A chapter without fragments is returned as it is.
pub proof fn lemma_nothing_to_convert(chapter: Seq<char>, content: Seq<char>, mode: ColorMode)
    ensures
        conversion(chapter, content, Seq::empty(), Seq::empty(), mode) == Ok::<
            Seq<u8>,
            ConvertErrorView,
        >(utf8(content)),
{
    crate::rewrite::lemma_no_fragments(
        utf8(content),
        view_inserts(Seq::empty(), Seq::empty(), mode),
    );
    assert(view_spans(Seq::empty()) =~= Seq::<(int, int)>::empty());
}

/// The run of the preprocessor over the chapters of a book: the first
/// chapter that fails ends it, and no chapter after that one is converted.
#[derive(Debug, Clone, PartialEq, Eq)]
pub struct Run {
    failure: Option<String>,
}

impl Run {
    /// The message of the chapter that failed, if one did.
    pub closed spec fn failure(&self) -> Option<Seq<char>> {
        match self.failure {
            Some(message) => Some(message@),
            None => None,
        }
    }

    /// A run in which no chapter has been converted yet.
    pub fn new() -> (out: Run)
        ensures
            out.failure() is None,
    {
        Run { failure: None }
    }

    /// Whether the next chapter is to be converted: only while none has
    /// failed.
    pub fn goes_on(&self) -> (out: bool)
        ensures
            out == (self.failure() is None),
    {
        self.failure.is_none()
    }

    /// Takes the outcome of the conversion of a chapter, and gives the new
    /// content of the chapter where there is one. After a failure the run
    /// stays failed with the message of the first failure, and gives no
    /// content any more.
    pub fn converted(&mut self, outcome: Result<String, String>) -> (out: Option<String>)
        ensures
            old(self).failure() is Some ==> final(self).failure() == old(self).failure()
                && out is None,
            old(self).failure() is None ==> match outcome {
                Ok(content) => final(self).failure() is None && out == Some(content),
                Err(message) => final(self).failure() == Some(message@) && out is None,
            },
    {
        if self.failure.is_some() {
            return None;
        }
        match outcome {
            Ok(content) => Some(content),
            Err(message) => {
                self.failure = Some(message);
                None
            },
        }
    }

    /// How the run ended: well, or with the message of the chapter that
    /// failed.
    pub fn finish(self) -> (out: Result<(), String>)
        ensures
            match self.failure() {
                Some(message) => out matches Err(m) && m@ == message,
                None => out is Ok,
            },
    {
        match self.failure {
            Some(message) => Err(message),
            None => Ok(()),
        }
    }
}

} // verus!
