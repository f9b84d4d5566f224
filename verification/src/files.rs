//! A read-through cache of the files that the engine asks for.
//!
//! The store maps a file identifier to the bytes of the file and, once it was
//! asked for, to the text that the bytes decode to. Nothing is ever taken out
//! of the store or written over: a file that is in the store keeps its bytes.
//!
//! Reading a file from disk is the caller's part. Where a file is not in the
//! store, the store says which package is to be resolved; the caller reads
//! the file and hands its bytes in.

use vstd::prelude::*;
use vstd::string::*;
use vstd::utf8::*;
use crate::package::{PackageError, PackageErrorView, PackageReference, PackageReferenceView};
use crate::text::{same_text, utf8};

verus! {

/// Identifies a file: by the package it belongs to and its path within the
/// package, or by a path alone for a file that belongs to no package.
#[derive(Debug, Clone, PartialEq, Eq)]
pub struct FileIdentifier {
    /// The package that holds the file, if any.
    pub package: Option<PackageReference>,
    /// The path of the file within its package or project, without a slash
    /// in front.
    pub path: String,
}

/// A file identifier as the contracts speak of it.
pub struct FileIdentifierView {
    pub package: Option<PackageReferenceView>,
    pub path: Seq<char>,
}

impl View for FileIdentifier {
    type V = FileIdentifierView;

    open spec fn view(&self) -> FileIdentifierView {
        FileIdentifierView {
            package: match self.package {
                Some(p) => Some(p@),
                None => None,
            },
            path: self.path@,
        }
    }
}

/// The path under which a source that belongs to no file is known.
pub open spec fn detached_path() -> Seq<char> {
    "main.typ"@
}

/// The identifier of a source that belongs to no file.
pub open spec fn detached_id() -> FileIdentifierView {
    FileIdentifierView { package: None, path: detached_path() }
}

/// Makes a copy of a package reference.
pub fn copy_package(package: &PackageReference) -> (out: PackageReference)
    ensures
        out@ == package@,
{
    PackageReference {
        namespace: package.namespace.clone(),
        name: package.name.clone(),
        version: package.version.clone(),
    }
}

/// Tells whether two package references name the same version of the same
/// package.
pub fn same_package(a: &PackageReference, b: &PackageReference) -> (same: bool)
    ensures
        same == (a@ == b@),
{
    same_text(a.namespace.as_str(), b.namespace.as_str()) && same_text(
        a.name.as_str(),
        b.name.as_str(),
    ) && same_text(a.version.as_str(), b.version.as_str())
}

impl FileIdentifier {
    /// The identifier of a source that belongs to no file.
    pub fn detached() -> (out: FileIdentifier)
        ensures
            out@ == detached_id(),
    {
        FileIdentifier { package: None, path: String::from_str("main.typ") }
    }

    /// Makes a copy of the identifier.
    pub fn copy(&self) -> (out: FileIdentifier)
        ensures
            out@ == self@,
    {
        FileIdentifier {
            package: match &self.package {
                Some(p) => Some(copy_package(p)),
                None => None,
            },
            path: self.path.clone(),
        }
    }

    /// Tells whether two identifiers name the same file.
    pub fn same(&self, other: &FileIdentifier) -> (same: bool)
        ensures
            same == (self@ == other@),
    {
        let packages = match (&self.package, &other.package) {
            (Some(a), Some(b)) => same_package(a, b),
            (None, None) => true,
            _ => false,
        };
        packages && same_text(self.path.as_str(), other.path.as_str())
    }
}

/// Why a file could not be had.
#[derive(Debug, Clone, PartialEq, Eq)]
pub enum FileError {
    /// The file belongs to no package and is not in the store, or its path
    /// leads out of its package. Holds the path.
    NotFound(String),
    /// The bytes of the file are not UTF-8, and its text was asked for.
    InvalidUtf8,
    /// The package of the file could not be resolved. Holds the failure of
    /// the resolution.
    Package(PackageError),
}

/// A file of the store: its bytes, and its text once that was asked for.
#[derive(Debug, Clone, PartialEq, Eq)]
pub struct CachedFile {
    id: FileIdentifier,
    bytes: Vec<u8>,
    source: Option<String>,
}

/// A file of the store as the contracts speak of it.
pub struct CachedFileView {
    /// The bytes of the file.
    pub bytes: Seq<u8>,
    /// The text of the file, if it was asked for.
    pub source: Option<Seq<char>>,
}

impl CachedFile {
    /// The identifier under which the file is kept.
    pub closed spec fn key(&self) -> FileIdentifierView {
        self.id@
    }

    /// What is kept of the file.
    pub closed spec fn content(&self) -> CachedFileView {
        CachedFileView {
            bytes: self.bytes@,
            source: match self.source {
                Some(t) => Some(t@),
                None => None,
            },
        }
    }
}

/// The text of a file, with the identifier of the file.
#[derive(Debug, Clone, PartialEq, Eq)]
pub struct ParsedSource {
    pub id: FileIdentifier,
    pub text: String,
}

/// What the store says to a request for a file.
#[derive(Debug, Clone, PartialEq, Eq)]
pub enum Lookup<T> {
    /// The file is in the store: here it is.
    Ready(T),
    /// The file is not in the store: resolve the package, read the file from
    /// the place that `locate` gives, and hand its bytes to `insert`; where
    /// the package cannot be resolved, `unresolved` gives the failure.
    Load(PackageReference),
    /// The file cannot be had.
    Failed(FileError),
}

/// The file system path that the engine's rules give for a path within a
/// package, when the package is kept in `root`; none where the path leads out
/// of the package.
pub uninterp spec fn resolved_path(root: Seq<char>, path: Seq<char>) -> Option<Seq<char>>;

/// The path of a file as the contracts speak of it.
pub open spec fn path_view(path: Option<String>) -> Option<Seq<char>> {
    match path {
        Some(p) => Some(p@),
        None => None,
    }
}

/// Resolves a path within a package against the directory of the package.
///
/// Makes a `typst::syntax::VirtualPath` of the path and calls its `resolve`
/// with the directory. The contract gives the outcome a name and claims
/// nothing else of it.
#[verifier::external_body]
pub(crate) fn resolve_in(root: &str, path: &str) -> (out: Option<String>)
    ensures
        path_view(out) == resolved_path(root@, path@),
{
    typst::syntax::VirtualPath::new(path).resolve(std::path::Path::new(root)).map(
        |p| p.to_string_lossy().into_owned(),
    )
}

/// The error of a failed decoding, `core::str::Utf8Error` of the standard
/// library. Nothing is known of what it holds.
#[verifier::external_type_specification]
#[verifier::external_body]
pub struct ExUtf8Error(core::str::Utf8Error);

/// `core::str::from_utf8` of the standard library gives the string that a
/// byte slice encodes, and fails where the slice is not valid UTF-8.
pub assume_specification[ core::str::from_utf8 ](v: &[u8]) -> (out: Result<
    &str,
    core::str::Utf8Error,
>)
    ensures
        out is Ok <==> valid_utf8(v@),
        out matches Ok(s) ==> utf8(s@) == v@,
;

/// The store as a mapping, built up entry by entry.
pub open spec fn map_of(entries: Seq<CachedFile>) -> Map<FileIdentifierView, CachedFileView>
    decreases entries.len(),
{
    if entries.len() == 0 {
        Map::empty()
    } else {
        map_of(entries.drop_last()).insert(entries.last().key(), entries.last().content())
    }
}

/// No identifier is kept twice.
pub open spec fn distinct_keys(entries: Seq<CachedFile>) -> bool {
    forall|i: int, j: int|
        0 <= i < j < entries.len() ==> (#[trigger] entries[i]).key() != (
        #[trigger] entries[j]).key()
}

/// The text that is kept with a file is the text that its bytes encode.
pub open spec fn sound(file: CachedFileView) -> bool {
    file.source matches Some(text) ==> utf8(text) == file.bytes
}

/// The mapping holds every entry under its identifier.
pub proof fn lemma_map_of_entry(entries: Seq<CachedFile>, i: int)
    requires
        distinct_keys(entries),
        0 <= i < entries.len(),
    ensures
        map_of(entries).dom().contains(entries[i].key()),
        map_of(entries)[entries[i].key()] == entries[i].content(),
    decreases entries.len(),
{
    if i < entries.len() - 1 {
        assert(entries.drop_last()[i] == entries[i]);
        lemma_map_of_entry(entries.drop_last(), i);
        assert(entries[i].key() != entries[entries.len() - 1].key());
    }
}

/// The mapping holds nothing under an identifier that no entry has.
pub proof fn lemma_map_of_absent(entries: Seq<CachedFile>, id: FileIdentifierView)
    requires
        forall|i: int| 0 <= i < entries.len() ==> (#[trigger] entries[i]).key() != id,
    ensures
        !map_of(entries).dom().contains(id),
    decreases entries.len(),
{
    if entries.len() > 0 {
        assert(forall|i: int|
            0 <= i < entries.len() - 1 ==> entries.drop_last()[i] == #[trigger] entries[i]);
        lemma_map_of_absent(entries.drop_last(), id);
        assert(entries[entries.len() - 1].key() != id);
    }
}

/// Every identifier of the mapping is that of an entry.
pub proof fn lemma_map_of_present(entries: Seq<CachedFile>, id: FileIdentifierView)
    requires
        map_of(entries).dom().contains(id),
    ensures
        exists|i: int| 0 <= i < entries.len() && (#[trigger] entries[i]).key() == id,
    decreases entries.len(),
{
    if entries.len() > 0 {
        if entries.last().key() == id {
            assert(entries[entries.len() - 1].key() == id);
        } else {
            lemma_map_of_present(entries.drop_last(), id);
            let i = choose|i: int|
                0 <= i < entries.drop_last().len() && (#[trigger] entries.drop_last()[i]).key()
                    == id;
            assert(entries[i].key() == id);
        }
    }
}

/// Exchanging an entry for one with the same identifier exchanges what the
/// mapping holds under that identifier, and nothing else.
pub proof fn lemma_map_of_update(entries: Seq<CachedFile>, i: int, entry: CachedFile)
    requires
        distinct_keys(entries),
        0 <= i < entries.len(),
        entry.key() == entries[i].key(),
    ensures
        distinct_keys(entries.update(i, entry)),
        map_of(entries.update(i, entry)) == map_of(entries).insert(entry.key(), entry.content()),
    decreases entries.len(),
{
    let after = entries.update(i, entry);
    assert forall|a: int, b: int| 0 <= a < b < after.len() implies (#[trigger] after[a]).key() != (
    #[trigger] after[b]).key() by {
        assert(after[a].key() == entries[a].key());
        assert(after[b].key() == entries[b].key());
    }
    if i == entries.len() - 1 {
        assert(after.drop_last() =~= entries.drop_last());
        assert(map_of(after) =~= map_of(entries).insert(entry.key(), entry.content()));
    } else {
        assert(after.drop_last() =~= entries.drop_last().update(i, entry));
        assert(entries.drop_last()[i] == entries[i]);
        assert forall|a: int, b: int| 0 <= a < b < entries.drop_last().len() implies (
        #[trigger] entries.drop_last()[a]).key() != (#[trigger] entries.drop_last()[b]).key() by {
            assert(entries.drop_last()[a] == entries[a]);
            assert(entries.drop_last()[b] == entries[b]);
        }
        lemma_map_of_update(entries.drop_last(), i, entry);
        assert(entries[i].key() != entries[entries.len() - 1].key());
        assert(after.last() == entries.last());
        assert(map_of(after) =~= map_of(entries).insert(entry.key(), entry.content()));
    }
}

/// The files that were read, by identifier.
#[derive(Debug, Clone, PartialEq, Eq)]
pub struct FileStore {
    entries: Vec<CachedFile>,
}

impl View for FileStore {
    type V = Map<FileIdentifierView, CachedFileView>;

    closed spec fn view(&self) -> Map<FileIdentifierView, CachedFileView> {
        map_of(self.entries@)
    }
}

/// What the store says to a request for the bytes of `id`, when it holds
/// `files`: the bytes where it has them; else the package to resolve; else,
/// for a file of no package, that it was not found.
pub open spec fn bytes_lookup(
    files: Map<FileIdentifierView, CachedFileView>,
    id: FileIdentifierView,
) -> LookupView<Seq<u8>> {
    if files.dom().contains(id) {
        LookupView::Ready(files[id].bytes)
    } else {
        match id.package {
            Some(package) => LookupView::Load(package),
            None => LookupView::NotFound(id.path),
        }
    }
}

/// What the store says to a request for the text of `id`, when it holds
/// `files`: the text that the bytes of the file decode to, where it has the
/// bytes and they are UTF-8; otherwise as for a request for the bytes.
pub open spec fn source_lookup(
    files: Map<FileIdentifierView, CachedFileView>,
    id: FileIdentifierView,
) -> LookupView<Seq<char>> {
    if files.dom().contains(id) {
        if valid_utf8(files[id].bytes) {
            LookupView::Ready(decode_utf8(files[id].bytes))
        } else {
            LookupView::InvalidUtf8
        }
    } else {
        match id.package {
            Some(package) => LookupView::Load(package),
            None => LookupView::NotFound(id.path),
        }
    }
}

/// The store after a request for the text of `id`: the text is kept with the
/// file where the request gave one.
pub open spec fn source_kept(
    files: Map<FileIdentifierView, CachedFileView>,
    id: FileIdentifierView,
) -> Map<FileIdentifierView, CachedFileView> {
    if files.dom().contains(id) && valid_utf8(files[id].bytes) {
        files.insert(
            id,
            CachedFileView {
                bytes: files[id].bytes,
                source: Some(decode_utf8(files[id].bytes)),
            },
        )
    } else {
        files
    }
}

/// The store after the bytes of a file were handed in: a file that is in the
/// store stays as it is.
pub open spec fn bytes_kept(
    files: Map<FileIdentifierView, CachedFileView>,
    id: FileIdentifierView,
    bytes: Seq<u8>,
) -> Map<FileIdentifierView, CachedFileView> {
    if files.dom().contains(id) {
        files
    } else {
        files.insert(id, CachedFileView { bytes, source: None })
    }
}

/// An answer of the store as the contracts speak of it.
pub enum LookupView<T> {
    Ready(T),
    Load(PackageReferenceView),
    NotFound(Seq<char>),
    InvalidUtf8,
    Unresolved(PackageErrorView),
}

/// The view of an answer to a request for bytes.
pub open spec fn bytes_answer(answer: Lookup<Vec<u8>>) -> LookupView<Seq<u8>> {
    match answer {
        Lookup::Ready(bytes) => LookupView::Ready(bytes@),
        Lookup::Load(package) => LookupView::Load(package@),
        Lookup::Failed(FileError::NotFound(path)) => LookupView::NotFound(path@),
        Lookup::Failed(FileError::InvalidUtf8) => LookupView::InvalidUtf8,
        Lookup::Failed(FileError::Package(error)) => LookupView::Unresolved(error@),
    }
}

/// The view of an answer to a request for text.
pub open spec fn source_answer(answer: Lookup<ParsedSource>) -> LookupView<Seq<char>> {
    match answer {
        Lookup::Ready(source) => LookupView::Ready(source.text@),
        Lookup::Load(package) => LookupView::Load(package@),
        Lookup::Failed(FileError::NotFound(path)) => LookupView::NotFound(path@),
        Lookup::Failed(FileError::InvalidUtf8) => LookupView::InvalidUtf8,
        Lookup::Failed(FileError::Package(error)) => LookupView::Unresolved(error@),
    }
}

impl FileStore {
    /// What holds of every store: no identifier is kept twice, and the text
    /// kept with a file is the text that its bytes encode.
    pub closed spec fn wf(&self) -> bool {
        &&& distinct_keys(self.entries@)
        &&& forall|i: int|
            0 <= i < self.entries@.len() ==> sound((#[trigger] self.entries@[i]).content())
    }

    /// The text kept with a file of the store is the text that its bytes
    /// encode.
    pub proof fn lemma_sound(&self, id: FileIdentifierView)
        requires
            self.wf(),
            self@.dom().contains(id),
        ensures
            sound(self@[id]),
    {
        lemma_map_of_present(self.entries@, id);
        let i = choose|i: int|
            0 <= i < self.entries@.len() && (#[trigger] self.entries@[i]).key() == id;
        lemma_map_of_entry(self.entries@, i);
    }

    /// A store that holds nothing.
    pub fn new() -> (out: FileStore)
        ensures
            out.wf(),
            out@ == Map::<FileIdentifierView, CachedFileView>::empty(),
    {
        FileStore { entries: Vec::new() }
    }

    /// The place of a file among the entries.
    fn position(&self, id: &FileIdentifier) -> (out: Option<usize>)
        requires
            self.wf(),
        ensures
            out matches Some(i) ==> i < self.entries@.len() && self.entries@[i as int].key() == id@
                && self@.dom().contains(id@) && self@[id@] == self.entries@[i as int].content(),
            out is None ==> !self@.dom().contains(id@),
    {
        let mut i: usize = 0;
        while i < self.entries.len()
            invariant
                self.wf(),
                i <= self.entries@.len(),
                forall|j: int| 0 <= j < i ==> (#[trigger] self.entries@[j]).key() != id@,
            decreases self.entries.len() - i,
        {
            if self.entries[i].id.same(id) {
                proof {
                    lemma_map_of_entry(self.entries@, i as int);
                }
                return Some(i);
            }
            i = i + 1;
        }
        proof {
            lemma_map_of_absent(self.entries@, id@);
        }
        None
    }

    /// Answers a request for the bytes of a file. The store stays as it is.
    pub fn get_bytes(&self, id: &FileIdentifier) -> (out: Lookup<Vec<u8>>)
        requires
            self.wf(),
        ensures
            bytes_answer(out) == bytes_lookup(self@, id@),
            out matches Lookup::Failed(e) ==> e is NotFound,
    {
        match self.position(id) {
            Some(i) => Lookup::Ready(self.entries[i].bytes.clone()),
            None => match &id.package {
                Some(package) => Lookup::Load(copy_package(package)),
                None => Lookup::Failed(FileError::NotFound(id.path.clone())),
            },
        }
    }

    /// Takes the failure to resolve the package of a file that the store
    /// asked to be loaded: the file cannot be had, for the reason that the
    /// package could not. Nothing is kept of the file, so that the next
    /// request for it asks for the package once more.
    pub fn unresolved(error: PackageError) -> (out: FileError)
        ensures
            out == FileError::Package(error),
    {
        FileError::Package(error)
    }

    /// Says where the file is read from, once its package has been resolved
    /// to the directory `package_dir`: fails where the path of the file leads
    /// out of the package.
    pub fn locate(id: &FileIdentifier, package_dir: &str) -> (out: Result<String, FileError>)
        ensures
            match resolved_path(package_dir@, id.path@) {
                Some(path) => out matches Ok(p) && p@ == path,
                None => out matches Err(FileError::NotFound(p)) && p@ == id.path@,
            },
    {
        match resolve_in(package_dir, id.path.as_str()) {
            Some(path) => Ok(path),
            None => Err(FileError::NotFound(id.path.clone())),
        }
    }

    /// Takes the bytes of a file that was read, and gives the bytes under
    /// which the file is now known. A file that is in the store keeps the
    /// bytes it has.
    pub fn insert(&mut self, id: &FileIdentifier, bytes: Vec<u8>) -> (out: Vec<u8>)
        requires
            old(self).wf(),
        ensures
            final(self).wf(),
            final(self)@ == bytes_kept(old(self)@, id@, bytes@),
            out@ == final(self)@[id@].bytes,
            final(self)@.dom().contains(id@),
    {
        match self.position(id) {
            Some(i) => self.entries[i].bytes.clone(),
            None => {
                let kept = bytes.clone();
                let entry = CachedFile { id: id.copy(), bytes, source: None };
                proof {
                    let after = self.entries@.push(entry);
                    assert(after.drop_last() =~= self.entries@);
                    assert forall|a: int, b: int| 0 <= a < b < after.len() implies (
                    #[trigger] after[a]).key() != (#[trigger] after[b]).key() by {
                        if b == after.len() - 1 {
                            lemma_map_of_entry(self.entries@, a);
                        }
                    }
                }
                self.entries.push(entry);
                kept
            },
        }
    }

    /// Answers a request for the text of a file, and keeps the text with the
    /// file where there is one.
    pub fn get_source(&mut self, id: &FileIdentifier) -> (out: Lookup<ParsedSource>)
        requires
            old(self).wf(),
        ensures
            final(self).wf(),
            final(self)@ == source_kept(old(self)@, id@),
            source_answer(out) == source_lookup(old(self)@, id@),
            out matches Lookup::Ready(source) ==> source.id@ == id@,
    {
        match self.position(id) {
            Some(i) => {
                proof {
                    encode_utf8_valid_utf8(self.entries@[i as int].content().source.unwrap());
                    encode_utf8_decode_utf8(self.entries@[i as int].content().source.unwrap());
                }
                let known = match &self.entries[i].source {
                    Some(text) => Some(text.clone()),
                    None => None,
                };
                match known {
                    Some(text) => {
                        assert(self@ =~= source_kept(self@, id@));
                        Lookup::Ready(ParsedSource { id: id.copy(), text })
                    },
                    None => match core::str::from_utf8(self.entries[i].bytes.as_slice()) {
                        Ok(decoded) => {
                            let text = String::from_str(decoded);
                            let kept = text.clone();
                            let entry = CachedFile {
                                id: id.copy(),
                                bytes: self.entries[i].bytes.clone(),
                                source: Some(kept),
                            };
                            proof {
                                encode_utf8_decode_utf8(text@);
                                lemma_map_of_update(self.entries@, i as int, entry);
                            }
                            self.entries.set(i, entry);
                            Lookup::Ready(ParsedSource { id: id.copy(), text })
                        },
                        Err(_) => Lookup::Failed(FileError::InvalidUtf8),
                    },
                }
            },
            None => match &id.package {
                Some(package) => Lookup::Load(copy_package(package)),
                None => Lookup::Failed(FileError::NotFound(id.path.clone())),
            },
        }
    }
}

/// A file that was handed in is served from the store: the next request for
/// its bytes gives the bytes under which it is known, and asks for nothing to
/// be read.
pub proof fn lemma_read_through(
    files: Map<FileIdentifierView, CachedFileView>,
    id: FileIdentifierView,
    bytes: Seq<u8>,
)
    ensures
        bytes_lookup(bytes_kept(files, id, bytes), id) == LookupView::Ready(
            bytes_kept(files, id, bytes)[id].bytes,
        ),
        !files.dom().contains(id) ==> bytes_kept(files, id, bytes)[id].bytes == bytes,
        files.dom().contains(id) ==> bytes_kept(files, id, bytes) == files,
{
}

/// The text of a file is the UTF-8 decoding of its bytes. Asking for the text
/// leaves the bytes of every file as they are, and asking again, for the text
/// or for the bytes, gives the same answer once more and changes nothing.
pub proof fn lemma_source_of_bytes(
    files: Map<FileIdentifierView, CachedFileView>,
    id: FileIdentifierView,
)
    requires
        files.dom().contains(id),
    ensures
        bytes_lookup(files, id) == LookupView::Ready(files[id].bytes),
        valid_utf8(files[id].bytes) ==> source_lookup(files, id) == LookupView::Ready(
            decode_utf8(files[id].bytes),
        ) && utf8(decode_utf8(files[id].bytes)) == files[id].bytes,
        !valid_utf8(files[id].bytes) ==> source_lookup(files, id) == LookupView::<
            Seq<char>,
        >::InvalidUtf8,
        bytes_lookup(source_kept(files, id), id) == bytes_lookup(files, id),
        source_lookup(source_kept(files, id), id) == source_lookup(files, id),
        source_kept(source_kept(files, id), id) == source_kept(files, id),
        forall|other: FileIdentifierView| #[trigger]
            source_kept(files, id).dom().contains(other) <==> files.dom().contains(other),
        forall|other: FileIdentifierView|
            files.dom().contains(other) ==> (#[trigger] source_kept(files, id)[other]).bytes
                == files[other].bytes,
{
    if valid_utf8(files[id].bytes) {
        decode_utf8_encode_utf8(files[id].bytes);
    }
    assert(source_kept(source_kept(files, id), id) =~= source_kept(files, id));
}

/// A file of a package that is not in the store is asked for from its
/// package every time: so it is after a failed resolution, which leaves the
/// store as it was.
pub proof fn lemma_miss_asks_again(
    files: Map<FileIdentifierView, CachedFileView>,
    id: FileIdentifierView,
    package: PackageReferenceView,
)
    requires
        !files.dom().contains(id),
        id.package == Some(package),
    ensures
        bytes_lookup(files, id) == LookupView::<Seq<u8>>::Load(package),
        source_lookup(files, id) == LookupView::<Seq<char>>::Load(package),
        source_kept(files, id) == files,
{
}

/// The store never lets go of a file: after bytes were handed in, every file
/// that was in the store is still there, with the bytes it had.
pub proof fn lemma_store_grows(
    files: Map<FileIdentifierView, CachedFileView>,
    id: FileIdentifierView,
    bytes: Seq<u8>,
    other: FileIdentifierView,
)
    requires
        files.dom().contains(other),
    ensures
        bytes_kept(files, id, bytes).dom().contains(other),
        bytes_kept(files, id, bytes)[other] == files[other],
        source_kept(files, id).dom().contains(other),
        source_kept(files, id)[other].bytes == files[other].bytes,
{
}

} // verus!
