//! The context in which a fragment is compiled.
//!
//! A [`Compiler`] holds what every compilation shares: the engine's standard
//! library, the fonts, and the store of files. For one compilation it is
//! wrapped, together with the source to compile and the date of the day, into
//! a [`WrapSource`], which answers everything that the engine asks for.
//! Running the engine is the caller's part.

use vstd::prelude::*;
use vstd::string::*;
use vstd::utf8::*;
use crate::files::{
    bytes_answer, bytes_kept, bytes_lookup, detached_id, source_answer, source_kept,
    source_lookup, CachedFileView, FileIdentifier, FileIdentifierView, FileStore, Lookup,
    LookupView, ParsedSource,
};
use crate::package::PackageCache;
pub use crate::diagnostics::print_diagnostics;
use crate::text::{join_three, join_two, utf8};

verus! {

/// A font of the engine, `typst::text::Font`. Nothing is known of what it holds.
#[verifier::external_type_specification]
#[verifier::external_body]
pub struct ExFont(typst::text::Font);

/// The metadata of a collection of fonts, `typst::text::FontBook`. Nothing is
/// known of what it holds.
#[verifier::external_type_specification]
#[verifier::external_body]
pub struct ExFontBook(typst::text::FontBook);

/// The engine's standard library, `typst::Library`. Nothing is known of what
/// it holds.
#[verifier::external_type_specification]
#[verifier::external_body]
pub struct ExLibrary(typst::Library);

/// A value with its hash, `typst::utils::LazyHash`. Nothing is known of what
/// it holds.
#[verifier::external_type_specification]
#[verifier::external_body]
#[verifier::reject_recursive_types(T)]
pub struct ExLazyHash<T: ?Sized>(typst::utils::LazyHash<T>);

/// Errors that can occur when a fragment is compiled.
#[derive(Debug, Clone, PartialEq, Eq)]
pub enum CompileError {
    /// The engine found errors in the source, or a diagnostic could not be
    /// formatted. Holds a description.
    Compilation(String),
    /// A lock around the compiler was poisoned.
    LockPoisoned,
}

/// The text of a compile error.
pub open spec fn error_text(error: CompileError) -> Seq<char> {
    match error {
        CompileError::Compilation(message) => "Typst compilation error: "@ + message@,
        CompileError::LockPoisoned => "Internal error: lock poisoned"@,
    }
}

impl CompileError {
    /// The error as a line of text.
    pub fn message(&self) -> (out: String)
        ensures
            out@ == error_text(*self),
    {
        match self {
            CompileError::Compilation(message) => join_two(
                "Typst compilation error: ",
                message.as_str(),
            ),
            CompileError::LockPoisoned => String::from_str("Internal error: lock poisoned"),
        }
    }
}

/// A day of the calendar.
#[derive(Debug, Clone, Copy, PartialEq, Eq, Structural)]
pub struct Date {
    pub year: i32,
    pub month: u8,
    pub day: u8,
}

impl Date {
    /// The month and the day are within the bounds of a calendar.
    pub open spec fn in_calendar(self) -> bool {
        1 <= self.month <= 12 && 1 <= self.day <= 31
    }
}

/// The date of today by the local clock.
///
/// Calls `time::OffsetDateTime::now_local`, which fails where the local
/// offset cannot be determined, and takes year, month and day of the result.
/// The date depends on the clock: the contract says only that it is a date of
/// the calendar, as the accessors of `time` document.
#[verifier::external_body]
pub(crate) fn local_today() -> (out: Option<Date>)
    ensures
        out matches Some(date) ==> date.in_calendar(),
{
    time::OffsetDateTime::now_local().ok().map(
        |t| Date { year: t.year(), month: u8::from(t.month()), day: t.day() },
    )
}

/// The date of today by the clock of universal time.
///
/// Calls `time::OffsetDateTime::now_utc` and takes year, month and day of the
/// result. The contract says only that it is a date of the calendar.
#[verifier::external_body]
pub(crate) fn utc_today() -> (out: Date)
    ensures
        out.in_calendar(),
{
    let t = time::OffsetDateTime::now_utc();
    Date { year: t.year(), month: u8::from(t.month()), day: t.day() }
}

/// The engine's standard library in its standard configuration.
///
/// Calls `typst::Library::default` of `typst::LibraryExt` and wraps the
/// library with `typst::utils::LazyHash::new`.
#[verifier::external_body]
pub(crate) fn standard_library() -> typst::utils::LazyHash<typst::Library> {
    typst::utils::LazyHash::new(<typst::Library as typst::LibraryExt>::default())
}

/// A font book without fonts.
///
/// Calls `typst::text::FontBook::new` and wraps the book with
/// `typst::utils::LazyHash::new`.
#[verifier::external_body]
pub(crate) fn empty_book() -> typst::utils::LazyHash<typst::text::FontBook> {
    typst::utils::LazyHash::new(typst::text::FontBook::new())
}

/// A copy of a font.
///
/// Calls `clone` of `typst::text::Font`, which copies a reference to the
/// font's data: the copy is the font.
#[verifier::external_body]
pub(crate) fn copy_font(font: &typst::text::Font) -> (out: typst::text::Font)
    ensures
        out == *font,
{
    font.clone()
}

/// What every compilation shares.
pub struct Compiler {
    /// The engine's standard library.
    pub library: typst::utils::LazyHash<typst::Library>,
    /// The metadata of the fonts, by which the engine picks one.
    pub book: typst::utils::LazyHash<typst::text::FontBook>,
    /// The fonts, in the order of the book.
    pub fonts: Vec<typst::text::Font>,
    /// The directory below which packages are kept.
    pub cache: String,
    /// The files that were read.
    files: FileStore,
}

impl Default for Compiler {
    /// A compiler with the standard library, without fonts, with an empty
    /// store of files, and with the current directory as its package cache.
    fn default() -> (out: Compiler)
        ensures
            out.wf(),
            out.loaded_fonts().len() == 0,
            out.cache_root().len() == 0,
            out.files() == Map::<FileIdentifierView, CachedFileView>::empty(),
    {
        Compiler {
            library: standard_library(),
            book: empty_book(),
            fonts: Vec::new(),
            cache: String::new(),
            files: FileStore::new(),
        }
    }
}

impl Compiler {
    /// What holds of every compiler: its store of files is in order.
    pub closed spec fn wf(&self) -> bool {
        self.files.wf()
    }

    /// The files that the compiler holds.
    pub closed spec fn files(&self) -> Map<FileIdentifierView, CachedFileView> {
        self.files@
    }

    /// The fonts that the compiler holds.
    pub closed spec fn loaded_fonts(&self) -> Seq<typst::text::Font> {
        self.fonts@
    }

    /// The directory below which the compiler keeps packages.
    pub closed spec fn cache_root(&self) -> Seq<char> {
        self.cache@
    }

    /// The standard library that the compiler holds.
    pub closed spec fn standard(&self) -> typst::utils::LazyHash<typst::Library> {
        self.library
    }

    /// The font book that the compiler holds.
    pub closed spec fn font_book(&self) -> typst::utils::LazyHash<typst::text::FontBook> {
        self.book
    }

    /// A compiler as `default` makes it.
    #[must_use]
    pub fn new() -> (out: Compiler)
        ensures
            out.wf(),
            out.loaded_fonts().len() == 0,
            out.cache_root().len() == 0,
            out.files() == Map::<FileIdentifierView, CachedFileView>::empty(),
    {
        Compiler::default()
    }

    /// The cache in which the compiler keeps packages.
    pub fn package_cache(&self) -> (out: PackageCache)
        ensures
            out.root@ == self.cache_root(),
    {
        PackageCache::new(self.cache.clone())
    }

    /// Wraps the compiler and a source into the context of one compilation,
    /// on the date `date`.
    pub fn wrap_source_on(self, source: String, date: Date) -> (out: WrapSource)
        requires
            self.wf(),
        ensures
            out.wf(),
            out.compiler() == self,
            out.main_text() == source@,
            out.date() == date,
    {
        WrapSource {
            compiler: self,
            source: ParsedSource { id: FileIdentifier::detached(), text: source },
            date,
        }
    }

    /// Wraps the compiler and a source into the context of one compilation.
    /// The date is that of today by the local clock, or by universal time
    /// where the local offset cannot be determined.
    pub fn wrap_source(self, source: String) -> (out: WrapSource)
        requires
            self.wf(),
        ensures
            out.wf(),
            out.compiler() == self,
            out.main_text() == source@,
            out.date().in_calendar(),
    {
        let date = match local_today() {
            Some(date) => date,
            None => utc_today(),
        };
        self.wrap_source_on(source, date)
    }
}

/// The context of one compilation: it answers what the engine asks for.
pub struct WrapSource {
    compiler: Compiler,
    source: ParsedSource,
    date: Date,
}

impl WrapSource {
    /// What holds of every context.
    pub closed spec fn wf(&self) -> bool {
        self.compiler.wf() && self.source.id@ == detached_id()
    }

    /// The compiler that the context wraps.
    pub closed spec fn compiler(&self) -> Compiler {
        self.compiler
    }

    /// The source that is compiled.
    pub closed spec fn main_text(&self) -> Seq<char> {
        self.source.text@
    }

    /// The date on which the compilation takes place.
    pub closed spec fn date(&self) -> Date {
        self.date
    }

    /// The files that the context holds.
    pub open spec fn files(&self) -> Map<FileIdentifierView, CachedFileView> {
        self.compiler().files()
    }

    /// Gives the compiler back, with the files that were read meanwhile.
    pub fn into_compiler(self) -> (out: Compiler)
        requires
            self.wf(),
        ensures
            out.wf(),
            out == self.compiler(),
    {
        self.compiler
    }

    /// The engine's standard library.
    pub fn library(&self) -> (out: &typst::utils::LazyHash<typst::Library>)
        ensures
            *out == self.compiler().standard(),
    {
        &self.compiler.library
    }

    /// The metadata of the fonts.
    pub fn book(&self) -> (out: &typst::utils::LazyHash<typst::text::FontBook>)
        ensures
            *out == self.compiler().font_book(),
    {
        &self.compiler.book
    }

    /// The identifier of the source that is compiled.
    pub fn main(&self) -> (out: FileIdentifier)
        requires
            self.wf(),
        ensures
            out@ == detached_id(),
    {
        self.source.id.copy()
    }

    /// The font at `index`, or none where there are not that many fonts.
    pub fn font(&self, index: usize) -> (out: Option<typst::text::Font>)
        ensures
            index < self.compiler().loaded_fonts().len() ==> out == Some(
                self.compiler().loaded_fonts()[index as int],
            ),
            index >= self.compiler().loaded_fonts().len() ==> out is None,
    {
        if index < self.compiler.fonts.len() {
            Some(copy_font(&self.compiler.fonts[index]))
        } else {
            None
        }
    }

    /// The date of today: that on which the context was made, whatever the
    /// offset asked for.
    pub fn today(&self, offset: Option<i64>) -> (out: Option<Date>)
        ensures
            out == Some(self.date()),
    {
        Some(self.date)
    }

    /// Answers the engine's request for the text of a file: the source that
    /// is compiled under its own identifier, and what the store of files
    /// says under every other.
    pub fn source(&mut self, id: &FileIdentifier) -> (out: Lookup<ParsedSource>)
        requires
            old(self).wf(),
        ensures
            final(self).wf(),
            final(self).main_text() == old(self).main_text(),
            final(self).date() == old(self).date(),
            final(self).files() == source_kept_beside_main(old(self).files(), id@),
            source_answer(out) == source_of(old(self).files(), old(self).main_text(), id@),
            out matches Lookup::Ready(source) ==> source.id@ == id@,
    {
        if id.same(&self.source.id) {
            Lookup::Ready(ParsedSource { id: id.copy(), text: self.source.text.clone() })
        } else {
            self.compiler.files.get_source(id)
        }
    }

    /// Answers the engine's request for the bytes of a file: those of the
    /// source that is compiled under its own identifier, and what the store
    /// of files says under every other.
    pub fn file(&self, id: &FileIdentifier) -> (out: Lookup<Vec<u8>>)
        requires
            self.wf(),
        ensures
            bytes_answer(out) == bytes_of(self.files(), self.main_text(), id@),
            out matches Lookup::Failed(e) ==> e is NotFound,
    {
        if id.same(&self.source.id) {
            Lookup::Ready(self.source.text.as_str().as_bytes_vec())
        } else {
            self.compiler.files.get_bytes(id)
        }
    }

    /// Takes the bytes of a file that was read for the engine, and gives the
    /// bytes under which the file is now known.
    pub fn loaded(&mut self, id: &FileIdentifier, bytes: Vec<u8>) -> (out: Vec<u8>)
        requires
            old(self).wf(),
        ensures
            final(self).wf(),
            final(self).main_text() == old(self).main_text(),
            final(self).date() == old(self).date(),
            final(self).files() == bytes_kept(old(self).files(), id@, bytes@),
            out@ == final(self).files()[id@].bytes,
    {
        self.compiler.files.insert(id, bytes)
    }

    /// The text in which the places of a file are looked up: that of the
    /// file where the store of files has it, else that of the source that is
    /// compiled.
    pub fn lookup(&mut self, id: &FileIdentifier) -> (out: String)
        requires
            old(self).wf(),
        ensures
            final(self).wf(),
            final(self).main_text() == old(self).main_text(),
            final(self).date() == old(self).date(),
            final(self).files() == source_kept(old(self).files(), id@),
            out@ == lookup_text(old(self).files(), old(self).main_text(), id@),
    {
        match self.compiler.files.get_source(id) {
            Lookup::Ready(source) => source.text,
            _ => self.source.text.clone(),
        }
    }

    /// The name under which a file is shown: its path, behind the name of
    /// its package where it has one.
    pub fn name(&self, id: &FileIdentifier) -> (out: String)
        ensures
            out@ == file_name(id@),
    {
        match &id.package {
            Some(package) => {
                let space = join_three("@", package.namespace.as_str(), "/");
                let version = join_three(":", package.version.as_str(), "/");
                let head = join_three(space.as_str(), package.name.as_str(), version.as_str());
                join_two(head.as_str(), id.path.as_str())
            },
            None => id.path.clone(),
        }
    }

    /// The index of the line of a file that holds the byte at `byte_index`.
    pub fn line_index(&mut self, id: &FileIdentifier, byte_index: usize) -> (out: Result<
        usize,
        LocateError,
    >)
        requires
            old(self).wf(),
        ensures
            final(self).wf(),
            final(self).main_text() == old(self).main_text(),
            final(self).files() == source_kept(old(self).files(), id@),
            out == line_index_of(
                lookup_text(old(self).files(), old(self).main_text(), id@),
                byte_index,
            ),
    {
        let text = self.lookup(id);
        match byte_to_line(text.as_str(), byte_index) {
            Some(line) => Ok(line),
            None => {
                let max = text.as_str().as_bytes().len();
                Err(LocateError::IndexTooLarge { given: byte_index, max })
            },
        }
    }

    /// The bytes that the line `line_index` of a file takes up.
    pub fn line_range(&mut self, id: &FileIdentifier, line_index: usize) -> (out: Result<
        (usize, usize),
        LocateError,
    >)
        requires
            old(self).wf(),
        ensures
            final(self).wf(),
            final(self).main_text() == old(self).main_text(),
            final(self).files() == source_kept(old(self).files(), id@),
            out == line_range_of(
                lookup_text(old(self).files(), old(self).main_text(), id@),
                line_index,
            ),
    {
        let text = self.lookup(id);
        match line_to_range(text.as_str(), line_index) {
            Some(range) => Ok(range),
            None => Err(
                LocateError::LineTooLarge { given: line_index, max: len_lines(text.as_str()) },
            ),
        }
    }

    /// The number of characters between the beginning of its line and the
    /// byte at `byte_index` of a file. The line is found from the byte index;
    /// `line_index` is not looked at.
    pub fn column_number(
        &mut self,
        id: &FileIdentifier,
        line_index: usize,
        byte_index: usize,
    ) -> (out: Result<usize, LocateError>)
        requires
            old(self).wf(),
        ensures
            final(self).wf(),
            final(self).main_text() == old(self).main_text(),
            final(self).files() == source_kept(old(self).files(), id@),
            out == column_number_of(
                lookup_text(old(self).files(), old(self).main_text(), id@),
                byte_index,
            ),
    {
        let text = self.lookup(id);
        match byte_to_column(text.as_str(), byte_index) {
            Some(column) => Ok(column),
            None => {
                let max = text.as_str().as_bytes().len();
                if byte_index <= max {
                    Err(LocateError::InvalidCharBoundary { given: byte_index })
                } else {
                    Err(LocateError::IndexTooLarge { given: byte_index, max })
                }
            },
        }
    }
}

/// Why a place in a file could not be given.
#[derive(Debug, Clone, Copy, PartialEq, Eq, Structural)]
pub enum LocateError {
    /// The byte index lies behind the end of the file, which has `max` bytes.
    IndexTooLarge { given: usize, max: usize },
    /// The file has no line with this index: it has `max` lines.
    LineTooLarge { given: usize, max: usize },
    /// The byte index lies within a character.
    InvalidCharBoundary { given: usize },
}

/// The store after the engine asked for the text of `id`: nothing is kept
/// for the source that is compiled.
pub open spec fn source_kept_beside_main(
    files: Map<FileIdentifierView, CachedFileView>,
    id: FileIdentifierView,
) -> Map<FileIdentifierView, CachedFileView> {
    if id == detached_id() {
        files
    } else {
        source_kept(files, id)
    }
}

/// The answer to the engine's request for the text of `id`.
pub open spec fn source_of(
    files: Map<FileIdentifierView, CachedFileView>,
    main_text: Seq<char>,
    id: FileIdentifierView,
) -> LookupView<Seq<char>> {
    if id == detached_id() {
        LookupView::Ready(main_text)
    } else {
        source_lookup(files, id)
    }
}

/// The answer to the engine's request for the bytes of `id`.
pub open spec fn bytes_of(
    files: Map<FileIdentifierView, CachedFileView>,
    main_text: Seq<char>,
    id: FileIdentifierView,
) -> LookupView<Seq<u8>> {
    if id == detached_id() {
        LookupView::Ready(utf8(main_text))
    } else {
        bytes_lookup(files, id)
    }
}

/// The text in which the places of the file `id` are looked up.
pub open spec fn lookup_text(
    files: Map<FileIdentifierView, CachedFileView>,
    main_text: Seq<char>,
    id: FileIdentifierView,
) -> Seq<char> {
    match source_lookup(files, id) {
        LookupView::Ready(text) => text,
        _ => main_text,
    }
}

/// The name under which the file `id` is shown.
pub open spec fn file_name(id: FileIdentifierView) -> Seq<char> {
    match id.package {
        Some(package) => "@"@ + package.namespace + "/"@ + package.name + ":"@ + package.version
            + "/"@ + id.path,
        None => id.path,
    }
}

/// The index of the line that holds the byte at `byte_index` of `text`, by
/// the engine's notion of a line.
pub uninterp spec fn line_of_byte(text: Seq<char>, byte_index: int) -> Option<int>;

/// The bytes that the line `line_index` of `text` takes up, by the engine's
/// notion of a line.
pub uninterp spec fn range_of_line(text: Seq<char>, line_index: int) -> Option<(int, int)>;

/// The number of characters between the beginning of its line and the byte
/// at `byte_index` of `text`, by the engine's notion of a line.
pub uninterp spec fn column_of_byte(text: Seq<char>, byte_index: int) -> Option<int>;

/// The number of lines of `text`, by the engine's notion of a line.
pub uninterp spec fn count_of_lines(text: Seq<char>) -> int;

/// An index as the contracts speak of it.
pub open spec fn index_view(index: Option<usize>) -> Option<int> {
    match index {
        Some(i) => Some(i as int),
        None => None,
    }
}

/// A range as the contracts speak of it.
pub open spec fn range_view(range: Option<(usize, usize)>) -> Option<(int, int)> {
    match range {
        Some(r) => Some((r.0 as int, r.1 as int)),
        None => None,
    }
}

/// The byte index lies within the text or at its end, and not within a
/// character.
pub open spec fn between_characters(text: Seq<char>, byte_index: int) -> bool {
    byte_index <= utf8(text).len() && is_char_boundary(utf8(text), byte_index)
}

/// Looks up the line of a byte.
///
/// Makes a `typst::syntax::Lines` of the text and calls its `byte_to_line`,
/// which gives a line for every index up to the length of the text and for
/// no other. The contract says so, and gives the line a name.
#[verifier::external_body]
pub(crate) fn byte_to_line(text: &str, byte_index: usize) -> (out: Option<usize>)
    ensures
        index_view(out) == line_of_byte(text@, byte_index as int),
        out is Some <==> byte_index <= utf8(text@).len(),
{
    typst::syntax::Lines::new(text).byte_to_line(byte_index)
}

/// Looks up the bytes of a line.
///
/// Makes a `typst::syntax::Lines` of the text and calls its `line_to_range`,
/// which gives a range for every index below the number of lines of the text
/// and for no other. The contract says so, and gives the range a name.
#[verifier::external_body]
pub(crate) fn line_to_range(text: &str, line_index: usize) -> (out: Option<(usize, usize)>)
    ensures
        range_view(out) == range_of_line(text@, line_index as int),
        out is Some <==> line_index < count_of_lines(text@),
{
    typst::syntax::Lines::new(text).line_to_range(line_index).map(|r| (r.start, r.end))
}

/// Looks up the column of a byte.
///
/// Makes a `typst::syntax::Lines` of the text and calls its `byte_to_column`,
/// which gives a column for every index up to the length of the text that
/// does not lie within a character, and for no other. The contract says so,
/// and gives the column a name.
#[verifier::external_body]
pub(crate) fn byte_to_column(text: &str, byte_index: usize) -> (out: Option<usize>)
    ensures
        index_view(out) == column_of_byte(text@, byte_index as int),
        out is Some <==> between_characters(text@, byte_index as int),
{
    typst::syntax::Lines::new(text).byte_to_column(byte_index)
}

/// Counts the lines of a text.
///
/// Makes a `typst::syntax::Lines` of the text and calls its `len_lines`. The
/// contract gives the number a name.
#[verifier::external_body]
pub(crate) fn len_lines(text: &str) -> (out: usize)
    ensures
        out == count_of_lines(text@),
{
    typst::syntax::Lines::new(text).len_lines()
}

/// The line of the byte at `byte_index` of `text`: there is one for every
/// index up to the length of the text.
pub open spec fn line_index_of(text: Seq<char>, byte_index: usize) -> Result<usize, LocateError> {
    if byte_index <= utf8(text).len() {
        Ok(line_of_byte(text, byte_index as int).unwrap() as usize)
    } else {
        Err(LocateError::IndexTooLarge { given: byte_index, max: utf8(text).len() as usize })
    }
}

/// The bytes of the line `line_index` of `text`: there are some for every
/// index below the number of lines of the text.
pub open spec fn line_range_of(text: Seq<char>, line_index: usize) -> Result<
    (usize, usize),
    LocateError,
> {
    if line_index < count_of_lines(text) {
        let range = range_of_line(text, line_index as int).unwrap();
        Ok((range.0 as usize, range.1 as usize))
    } else {
        Err(LocateError::LineTooLarge { given: line_index, max: count_of_lines(text) as usize })
    }
}

/// The column of the byte at `byte_index` of `text`: there is one for every
/// index up to the length of the text that does not lie within a character.
pub open spec fn column_number_of(text: Seq<char>, byte_index: usize) -> Result<
    usize,
    LocateError,
> {
    if byte_index > utf8(text).len() {
        Err(LocateError::IndexTooLarge { given: byte_index, max: utf8(text).len() as usize })
    } else if !is_char_boundary(utf8(text), byte_index as int) {
        Err(LocateError::InvalidCharBoundary { given: byte_index })
    } else {
        Ok(column_of_byte(text, byte_index as int).unwrap() as usize)
    }
}

/// A finished page of a document, `typst::layout::Page`. Nothing is known of
/// what it holds.
#[verifier::external_type_specification]
#[verifier::external_body]
pub struct ExPage(typst::layout::Page);

/// The text of the SVG document that `typst_svg::svg` makes of a page.
pub uninterp spec fn page_svg(page: typst::layout::Page) -> Seq<char>;

/// The image of a page.
///
/// Calls `typst_svg::svg`, which gives the page as the text of an SVG
/// document: it reads the page and nothing else. The contract gives the text
/// a name and claims nothing else of it.
#[verifier::external_body]
pub(crate) fn page_image(page: &typst::layout::Page) -> (out: String)
    ensures
        out@ == page_svg(*page),
{
    typst_svg::svg(page)
}

/// The images of the pages of a document, in the order of the pages.
pub open spec fn page_images(pages: Seq<typst::layout::Page>) -> Seq<Seq<char>> {
    Seq::new(pages.len(), |i: int| page_svg(pages[i]))
}

/// The parts one after the other, with `separator` between each two.
pub open spec fn joined(parts: Seq<Seq<char>>, separator: Seq<char>) -> Seq<char>
    decreases parts.len(),
{
    if parts.len() == 0 {
        Seq::empty()
    } else if parts.len() == 1 {
        parts[0]
    } else {
        joined(parts.drop_last(), separator) + separator + parts.last()
    }
}

/// The texts of a list of strings.
pub open spec fn lines_of(parts: Seq<String>) -> Seq<Seq<char>> {
    Seq::new(parts.len(), |i: int| parts[i]@)
}

/// Joins the parts, with a line feed between each two.
pub fn join_lines(parts: &Vec<String>) -> (out: String)
    ensures
        out@ == joined(lines_of(parts@), "\n"@),
{
    let mut out = String::new();
    let ghost all = lines_of(parts@);
    let mut i: usize = 0;
    while i < parts.len()
        invariant
            i <= parts.len(),
            all == lines_of(parts@),
            out@ == joined(all.take(i as int), "\n"@),
        decreases parts.len() - i,
    {
        proof {
            assert(all.take(i + 1).drop_last() =~= all.take(i as int));
            assert(all.take(i + 1).last() == parts@[i as int]@);
        }
        if i > 0 {
            out.append("\n");
        }
        out.append(parts[i].as_str());
        proof {
            if i == 0 {
                assert(all.take(1)[0] == parts@[0]@);
                assert(Seq::<char>::empty() + parts@[0]@ =~= parts@[0]@);
            }
        }
        i = i + 1;
    }
    proof {
        assert(all.take(parts.len() as int) =~= all);
    }
    out
}

/// What the engine made of a source.
pub enum Compiled<'a> {
    /// A document: its pages.
    Document(&'a Vec<typst::layout::Page>),
    /// Nothing: the source has errors.
    Errors,
}

/// The description of a compilation that ended with errors.
pub open spec fn compilation_failed() -> Seq<char> {
    "typst compilation failed"@
}

/// What the rendering of a source ends with.
pub open spec fn rendered_as(
    compiled: Compiled<'_>,
    reported: Result<(), CompileError>,
    out: Result<String, CompileError>,
) -> bool {
    match reported {
        Err(e) => out == Err::<String, CompileError>(e),
        Ok(_) => match compiled {
            Compiled::Errors => match out {
                Err(CompileError::Compilation(message)) => message@ == compilation_failed(),
                _ => false,
            },
            Compiled::Document(pages) => match out {
                Ok(text) => text@ == joined(page_images(pages@), "\n"@),
                Err(_) => false,
            },
        },
    }
}

impl Compiler {
    /// Finishes the rendering of a source, once the engine has compiled it
    /// and the diagnostics have been shown.
    ///
    /// A failure to show the diagnostics is the outcome. Otherwise a
    /// document gives the images of its pages, one after the other with a
    /// line feed between each two, and a source with errors gives an error.
    pub fn render(compiled: Compiled<'_>, reported: Result<(), CompileError>) -> (out: Result<
        String,
        CompileError,
    >)
        ensures
            rendered_as(compiled, reported, out),
    {
        match reported {
            Err(e) => Err(e),
            Ok(_) => match compiled {
                Compiled::Errors => Err(
                    CompileError::Compilation(String::from_str("typst compilation failed")),
                ),
                Compiled::Document(pages) => {
                    let mut images: Vec<String> = Vec::new();
                    let mut i: usize = 0;
                    while i < pages.len()
                        invariant
                            i <= pages.len(),
                            images@.len() == i,
                            forall|j: int|
                                0 <= j < i ==> (#[trigger] images@[j])@ == page_svg(pages@[j]),
                        decreases pages.len() - i,
                    {
                        images.push(page_image(&pages[i]));
                        i = i + 1;
                    }
                    let text = join_lines(&images);
                    assert(lines_of(images@) =~= page_images(pages@));
                    Ok(text)
                },
            },
        }
    }
}

} // verus!
