//! Turning the engine's diagnostics into reports.
//!
//! A report holds what is shown of a diagnostic: its severity, its message,
//! its hints as notes, and the place in a file that it points to, where that
//! place can be shown. Laying a report out as text is the caller's part; the
//! library says in which order the reports come, and what becomes of each
//! once it was laid out.

use vstd::prelude::*;
use vstd::string::*;
use vstd::utf8::*;
use crate::compiler::{bytes_of, CompileError, WrapSource};
use crate::files::{CachedFileView, FileIdentifier, FileIdentifierView, Lookup, LookupView};
use crate::text::join_two;

verus! {

/// How grave a diagnostic is.
#[derive(Debug, Clone, Copy, PartialEq, Eq, Structural)]
pub enum Severity {
    Error,
    Warning,
}

/// A range of bytes in a file.
#[derive(Debug, Clone, PartialEq, Eq)]
pub struct SourceSpan {
    pub file: FileIdentifier,
    pub start: usize,
    pub end: usize,
}

/// A range of bytes in a file as the contracts speak of it.
pub struct SourceSpanView {
    pub file: FileIdentifierView,
    pub start: int,
    pub end: int,
}

impl View for SourceSpan {
    type V = SourceSpanView;

    open spec fn view(&self) -> SourceSpanView {
        SourceSpanView { file: self.file@, start: self.start as int, end: self.end as int }
    }
}

/// What the engine has to say about a source.
#[derive(Debug, Clone, PartialEq, Eq)]
pub struct Diagnostic {
    pub severity: Severity,
    pub message: String,
    /// Advice on what to do about it, in the engine's order.
    pub hints: Vec<String>,
    /// The place that the diagnostic is about, if it has one.
    pub span: Option<SourceSpan>,
}

/// A diagnostic as the contracts speak of it.
pub struct DiagnosticView {
    pub severity: Severity,
    pub message: Seq<char>,
    pub hints: Seq<Seq<char>>,
    pub span: Option<SourceSpanView>,
}

/// The texts of a list of strings.
pub open spec fn texts(strings: Seq<String>) -> Seq<Seq<char>> {
    Seq::new(strings.len(), |i: int| strings[i]@)
}

/// The view of a place that may be missing.
pub open spec fn span_view(span: Option<SourceSpan>) -> Option<SourceSpanView> {
    match span {
        Some(s) => Some(s@),
        None => None,
    }
}

impl View for Diagnostic {
    type V = DiagnosticView;

    open spec fn view(&self) -> DiagnosticView {
        DiagnosticView {
            severity: self.severity,
            message: self.message@,
            hints: texts(self.hints@),
            span: span_view(self.span),
        }
    }
}

/// What is shown of a diagnostic.
#[derive(Debug, Clone, PartialEq, Eq)]
pub struct Report {
    pub severity: Severity,
    pub message: String,
    /// One note for each hint.
    pub notes: Vec<String>,
    /// The place that is shown with the message, if any.
    pub label: Option<SourceSpan>,
}

/// A report as the contracts speak of it.
pub struct ReportView {
    pub severity: Severity,
    pub message: Seq<char>,
    pub notes: Seq<Seq<char>>,
    pub label: Option<SourceSpanView>,
}

impl View for Report {
    type V = ReportView;

    open spec fn view(&self) -> ReportView {
        ReportView {
            severity: self.severity,
            message: self.message@,
            notes: texts(self.notes@),
            label: span_view(self.label),
        }
    }
}

/// The views of a list of diagnostics.
pub open spec fn diagnostic_views(diagnostics: Seq<Diagnostic>) -> Seq<DiagnosticView> {
    Seq::new(diagnostics.len(), |i: int| diagnostics[i]@)
}

/// The views of a list of reports.
pub open spec fn report_views(reports: Seq<Report>) -> Seq<ReportView> {
    Seq::new(reports.len(), |i: int| reports[i]@)
}

/// The note that a hint becomes.
pub open spec fn note_of(hint: Seq<char>) -> Seq<char> {
    "hint: "@ + hint
}

/// The place can be shown: the bytes of its file can be had and are text, and
/// the place lies within them.
pub open spec fn located(
    files: Map<FileIdentifierView, CachedFileView>,
    main_text: Seq<char>,
    span: SourceSpanView,
) -> bool {
    bytes_of(files, main_text, span.file) matches LookupView::Ready(bytes) && valid_utf8(bytes)
        && span.start <= span.end <= bytes.len()
}

/// The report of a diagnostic: its hints become notes, and its place is
/// shown where it can be; where it cannot, the report goes without a place.
pub open spec fn report_of(
    files: Map<FileIdentifierView, CachedFileView>,
    main_text: Seq<char>,
    diagnostic: DiagnosticView,
) -> ReportView {
    ReportView {
        severity: diagnostic.severity,
        message: diagnostic.message,
        notes: Seq::new(diagnostic.hints.len(), |i: int| note_of(diagnostic.hints[i])),
        label: match diagnostic.span {
            Some(span) if located(files, main_text, span) => Some(span),
            _ => None,
        },
    }
}

/// The reports of a compilation: those of the warnings first, then those of
/// the errors, each group in the engine's order.
pub open spec fn reports_of(
    files: Map<FileIdentifierView, CachedFileView>,
    main_text: Seq<char>,
    warnings: Seq<DiagnosticView>,
    errors: Seq<DiagnosticView>,
) -> Seq<ReportView> {
    Seq::new(
        warnings.len() + errors.len(),
        |i: int|
            if i < warnings.len() {
                report_of(files, main_text, warnings[i])
            } else {
                report_of(files, main_text, errors[i - warnings.len()])
            },
    )
}

/// Tells whether a place can be shown.
fn is_located(world: &WrapSource, span: &SourceSpan) -> (out: bool)
    requires
        world.wf(),
    ensures
        out == located(world.files(), world.main_text(), span@),
{
    match world.file(&span.file) {
        Lookup::Ready(bytes) => {
            core::str::from_utf8(bytes.as_slice()).is_ok() && span.start <= span.end && span.end
                <= bytes.len()
        },
        _ => false,
    }
}

/// Makes the report of one diagnostic.
fn report(world: &WrapSource, diagnostic: &Diagnostic) -> (out: Report)
    requires
        world.wf(),
    ensures
        out@ == report_of(world.files(), world.main_text(), diagnostic@),
{
    let mut notes: Vec<String> = Vec::new();
    let mut i: usize = 0;
    while i < diagnostic.hints.len()
        invariant
            i <= diagnostic.hints.len(),
            notes@.len() == i,
            forall|j: int| 0 <= j < i ==> (#[trigger] notes@[j])@ == note_of(diagnostic.hints@[j]@),
        decreases diagnostic.hints.len() - i,
    {
        notes.push(join_two("hint: ", diagnostic.hints[i].as_str()));
        i = i + 1;
    }
    let label = match &diagnostic.span {
        Some(span) => {
            if is_located(world, span) {
                Some(SourceSpan { file: span.file.copy(), start: span.start, end: span.end })
            } else {
                None
            }
        },
        None => None,
    };
    let out = Report {
        severity: diagnostic.severity,
        message: diagnostic.message.clone(),
        notes,
        label,
    };
    proof {
        assert(out@.notes =~= report_of(world.files(), world.main_text(), diagnostic@).notes);
    }
    out
}

/// Makes the reports of a compilation, in the order in which they are shown:
/// warnings before errors.
pub fn print_diagnostics(
    world: &WrapSource,
    warnings: &Vec<Diagnostic>,
    errors: &Vec<Diagnostic>,
) -> (out: Vec<Report>)
    requires
        world.wf(),
    ensures
        report_views(out@) == reports_of(
            world.files(),
            world.main_text(),
            diagnostic_views(warnings@),
            diagnostic_views(errors@),
        ),
{
    let ghost goal = reports_of(
        world.files(),
        world.main_text(),
        diagnostic_views(warnings@),
        diagnostic_views(errors@),
    );
    let mut out: Vec<Report> = Vec::new();
    let mut i: usize = 0;
    while i < warnings.len()
        invariant
            world.wf(),
            i <= warnings.len(),
            out@.len() == i,
            goal == reports_of(
                world.files(),
                world.main_text(),
                diagnostic_views(warnings@),
                diagnostic_views(errors@),
            ),
            forall|j: int| 0 <= j < i ==> (#[trigger] out@[j])@ == goal[j],
        decreases warnings.len() - i,
    {
        out.push(report(world, &warnings[i]));
        i = i + 1;
    }
    let mut k: usize = 0;
    while k < errors.len()
        invariant
            world.wf(),
            k <= errors.len(),
            out@.len() == warnings.len() + k,
            goal == reports_of(
                world.files(),
                world.main_text(),
                diagnostic_views(warnings@),
                diagnostic_views(errors@),
            ),
            forall|j: int| 0 <= j < warnings.len() + k ==> (#[trigger] out@[j])@ == goal[j],
        decreases errors.len() - k,
    {
        out.push(report(world, &errors[k]));
        k = k + 1;
    }
    assert(report_views(out@) =~= goal);
    out
}

/// A line for the log.
#[derive(Debug, Clone, PartialEq, Eq)]
pub struct LogLine {
    pub severity: Severity,
    pub text: String,
}

/// What becomes of a report once the caller has tried to lay it out.
#[derive(Debug, Clone, PartialEq, Eq)]
pub enum Emitted {
    /// It was laid out: log the line.
    Log(LogLine),
    /// It could not be laid out with its place: lay out this report, which
    /// has none.
    Retry(Report),
    /// It could not be laid out at all.
    Failed(CompileError),
}

/// What becomes of a report as the contracts speak of it.
pub enum EmittedView {
    Log { severity: Severity, text: Seq<char> },
    Retry(ReportView),
    Failed(Seq<char>),
}

impl View for Emitted {
    type V = EmittedView;

    open spec fn view(&self) -> EmittedView {
        match self {
            Emitted::Log(line) => EmittedView::Log { severity: line.severity, text: line.text@ },
            Emitted::Retry(report) => EmittedView::Retry(report@),
            Emitted::Failed(CompileError::Compilation(message)) => EmittedView::Failed(message@),
            Emitted::Failed(CompileError::LockPoisoned) => EmittedView::Failed(Seq::empty()),
        }
    }
}

/// What becomes of a report: laid out, it is logged under the engine's
/// name; where laying it out failed, it is tried once more without its
/// place, and a report without a place that cannot be laid out is a failure.
pub open spec fn emitted_of(
    report: ReportView,
    rendered: Result<Seq<char>, Seq<char>>,
) -> EmittedView {
    match rendered {
        Ok(text) => EmittedView::Log { severity: report.severity, text: "Typst: "@ + text },
        Err(detail) => match report.label {
            Some(_) => EmittedView::Retry(
                ReportView {
                    severity: report.severity,
                    message: report.message,
                    notes: report.notes,
                    label: None,
                },
            ),
            None => EmittedView::Failed("Failed to format diagnostic: "@ + detail),
        },
    }
}

/// The outcome of laying out a report, as the contracts speak of it.
pub open spec fn rendered_view(rendered: Result<String, String>) -> Result<Seq<char>, Seq<char>> {
    match rendered {
        Ok(text) => Ok(text@),
        Err(detail) => Err(detail@),
    }
}

/// Says what becomes of a report, given the outcome of laying it out.
pub fn emitted(report: Report, rendered: Result<String, String>) -> (out: Emitted)
    ensures
        out@ == emitted_of(report@, rendered_view(rendered)),
        out matches Emitted::Failed(e) ==> e is Compilation,
{
    match rendered {
        Ok(text) => Emitted::Log(
            LogLine { severity: report.severity, text: join_two("Typst: ", text.as_str()) },
        ),
        Err(detail) => match report.label {
            Some(_) => Emitted::Retry(
                Report {
                    severity: report.severity,
                    message: report.message,
                    notes: report.notes,
                    label: None,
                },
            ),
            None => {
                let message = join_two("Failed to format diagnostic: ", detail.as_str());
                Emitted::Failed(CompileError::Compilation(message))
            },
        },
    }
}

} // verus!
