//! Resolving a package to a directory of the package cache.
//!
//! A package lives in `root/namespace/name/version`. Where that directory
//! exists it is the answer, and nothing is fetched. Otherwise the archive of
//! the package is downloaded, decompressed and unpacked into the directory,
//! and a directory that a failed unpacking left behind is removed.
//!
//! Looking at the disk, downloading and unpacking are the caller's part. The
//! cache decides: each of its functions takes what the caller found and says
//! what is to be done next.

use vstd::prelude::*;
use vstd::string::*;
use crate::text::{join_three, join_two, utf8};

verus! {

/// Names one version of a package.
#[derive(Debug, Clone, PartialEq, Eq)]
pub struct PackageReference {
    pub namespace: String,
    pub name: String,
    pub version: String,
}

/// A package reference as the contracts speak of it.
pub struct PackageReferenceView {
    pub namespace: Seq<char>,
    pub name: Seq<char>,
    pub version: Seq<char>,
}

impl View for PackageReference {
    type V = PackageReferenceView;

    open spec fn view(&self) -> PackageReferenceView {
        PackageReferenceView {
            namespace: self.namespace@,
            name: self.name@,
            version: self.version@,
        }
    }
}

/// Why a package could not be resolved.
#[derive(Debug, Clone, PartialEq, Eq)]
pub enum PackageError {
    /// The archive could not be downloaded.
    NetworkFailed(String),
    /// The archive could not be decompressed or unpacked.
    MalformedArchive(String),
}

/// A package error as the contracts speak of it.
pub enum PackageErrorView {
    NetworkFailed(Seq<char>),
    MalformedArchive(Seq<char>),
}

impl View for PackageError {
    type V = PackageErrorView;

    open spec fn view(&self) -> PackageErrorView {
        match self {
            PackageError::NetworkFailed(m) => PackageErrorView::NetworkFailed(m@),
            PackageError::MalformedArchive(m) => PackageErrorView::MalformedArchive(m@),
        }
    }
}

/// How a download failed.
#[derive(Debug, Clone, PartialEq, Eq)]
pub enum FetchError {
    /// The request could not be made or was refused.
    Request(String),
    /// The body of the response could not be read to its end.
    Transfer(String),
}

/// A failed download as the contracts speak of it.
pub enum FetchErrorView {
    Request(Seq<char>),
    Transfer(Seq<char>),
}

impl View for FetchError {
    type V = FetchErrorView;

    open spec fn view(&self) -> FetchErrorView {
        match self {
            FetchError::Request(m) => FetchErrorView::Request(m@),
            FetchError::Transfer(m) => FetchErrorView::Transfer(m@),
        }
    }
}

/// What the caller does next to resolve a package.
#[derive(Debug, Clone, PartialEq, Eq)]
pub enum Resolve {
    /// Nothing: the package is in `dir`.
    Ready { dir: String },
    /// Download `url`, and hand the outcome to `downloaded`.
    Fetch { url: String },
    /// Unpack the tar archive into `dir`, and hand the outcome to `unpacked`.
    Unpack { dir: String, archive: Vec<u8> },
    /// Remove `dir` with what is in it, and fail with `error`.
    Discard { dir: String, error: PackageError },
    /// Fail with `error`.
    Fail { error: PackageError },
}

/// A next step as the contracts speak of it.
pub enum ResolveView {
    Ready { dir: Seq<char> },
    Fetch { url: Seq<char> },
    Unpack { dir: Seq<char>, archive: Seq<u8> },
    Discard { dir: Seq<char>, error: PackageErrorView },
    Fail { error: PackageErrorView },
}

impl View for Resolve {
    type V = ResolveView;

    open spec fn view(&self) -> ResolveView {
        match self {
            Resolve::Ready { dir } => ResolveView::Ready { dir: dir@ },
            Resolve::Fetch { url } => ResolveView::Fetch { url: url@ },
            Resolve::Unpack { dir, archive } => ResolveView::Unpack {
                dir: dir@,
                archive: archive@,
            },
            Resolve::Discard { dir, error } => ResolveView::Discard { dir: dir@, error: error@ },
            Resolve::Fail { error } => ResolveView::Fail { error: error@ },
        }
    }
}

/// The place of a package below the root of a cache.
pub open spec fn package_subdir(package: PackageReferenceView) -> Seq<char> {
    package.namespace + "/"@ + package.name + "/"@ + package.version
}

/// The directory of a package in the cache at `root`. An empty root stands
/// for the current directory; a root that ends in a slash gets no second one.
pub open spec fn package_dir(root: Seq<char>, package: PackageReferenceView) -> Seq<char> {
    if utf8(root).len() == 0 {
        package_subdir(package)
    } else if utf8(root).last() == 0x2Fu8 {
        root + package_subdir(package)
    } else {
        root + "/"@ + package_subdir(package)
    }
}

/// The address from which the archive of a package is fetched.
pub open spec fn package_url(package: PackageReferenceView) -> Seq<char> {
    "https://packages.typst.org/"@ + package.namespace + "/"@ + package.name + "-"@
        + package.version + ".tar.gz"@
}

/// The message of a failure: what failed, the package's name, and the detail
/// that came with the failure.
pub open spec fn failure_message(what: Seq<char>, name: Seq<char>, detail: Seq<char>) -> Seq<char> {
    "Failed to "@ + what + " package "@ + name + ": "@ + detail
}

/// What `flate2` makes of a gzip stream: the decompressed bytes, or the text
/// of the error with which decoding stopped.
pub uninterp spec fn gunzipped(compressed: Seq<u8>) -> Result<Seq<u8>, Seq<char>>;

/// The outcome of a decompression as the contracts speak of it.
pub open spec fn decoded(outcome: Result<Vec<u8>, String>) -> Result<Seq<u8>, Seq<char>> {
    match outcome {
        Ok(bytes) => Ok(bytes@),
        Err(text) => Err(text@),
    }
}

/// Decompresses a gzip stream held in memory.
///
/// Feeds the bytes to a `flate2::write::GzDecoder` over an empty vector and
/// finishes it, as the documentation of the decoder shows; an error of any
/// of the three calls is handed back as its text. The contract gives the
/// outcome a name and claims nothing else of it.
#[verifier::external_body]
pub(crate) fn gunzip(compressed: &[u8]) -> (out: Result<Vec<u8>, String>)
    ensures
        decoded(out) == gunzipped(compressed@),
{
    let mut decoder = flate2::write::GzDecoder::new(Vec::new());
    std::io::Write::write_all(&mut decoder, compressed).map_err(|e| e.to_string())?;
    decoder.try_finish().map_err(|e| e.to_string())?;
    decoder.finish().map_err(|e| e.to_string())
}

/// What follows a look at the disk: a directory that exists is the answer,
/// and nothing is fetched; otherwise the archive is to be downloaded.
pub open spec fn after_probe(
    root: Seq<char>,
    package: PackageReferenceView,
    exists: bool,
) -> ResolveView {
    if exists {
        ResolveView::Ready { dir: package_dir(root, package) }
    } else {
        ResolveView::Fetch { url: package_url(package) }
    }
}

/// What follows a download: a failed one ends the resolution, and so does an
/// archive that cannot be decompressed; a decompressed archive is to be
/// unpacked into the directory of the package.
pub open spec fn after_download(
    root: Seq<char>,
    package: PackageReferenceView,
    fetched: Result<Seq<u8>, FetchErrorView>,
) -> ResolveView {
    match fetched {
        Err(FetchErrorView::Request(detail)) => ResolveView::Fail {
            error: PackageErrorView::NetworkFailed(
                failure_message("download"@, package.name, detail),
            ),
        },
        Err(FetchErrorView::Transfer(detail)) => ResolveView::Fail {
            error: PackageErrorView::NetworkFailed(failure_message("save"@, package.name, detail)),
        },
        Ok(compressed) => match gunzipped(compressed) {
            Err(detail) => ResolveView::Fail {
                error: PackageErrorView::MalformedArchive(
                    failure_message("decompress"@, package.name, detail),
                ),
            },
            Ok(archive) => ResolveView::Unpack { dir: package_dir(root, package), archive },
        },
    }
}

/// What follows the unpacking: the directory is the answer where it went
/// well; where it failed, what was unpacked so far is to be removed.
pub open spec fn after_unpack(
    root: Seq<char>,
    package: PackageReferenceView,
    unpacked: Result<(), Seq<char>>,
) -> ResolveView {
    match unpacked {
        Ok(_) => ResolveView::Ready { dir: package_dir(root, package) },
        Err(detail) => ResolveView::Discard {
            dir: package_dir(root, package),
            error: PackageErrorView::MalformedArchive(
                failure_message("unpack"@, package.name, detail),
            ),
        },
    }
}

/// The message of a failure.
fn failure(what: &str, name: &str, detail: &str) -> (out: String)
    ensures
        out@ == failure_message(what@, name@, detail@),
{
    let head = join_three("Failed to ", what, " package ");
    join_three(head.as_str(), name, join_two(": ", detail).as_str())
}

/// A cache of packages below one directory.
#[derive(Debug, Clone, PartialEq, Eq)]
pub struct PackageCache {
    /// The directory below which the packages are kept.
    pub root: String,
}

impl PackageCache {
    /// A cache below `root`.
    pub fn new(root: String) -> (out: PackageCache)
        ensures
            out.root == root,
    {
        PackageCache { root }
    }

    /// The directory in which a package is kept. The caller looks whether it
    /// exists and hands the answer to `probed`.
    pub fn directory(&self, package: &PackageReference) -> (out: String)
        ensures
            out@ == package_dir(self.root@, package@),
    {
        let head = join_three(package.namespace.as_str(), "/", package.name.as_str());
        let subdir = join_three(head.as_str(), "/", package.version.as_str());
        let root = self.root.as_str().as_bytes();
        if root.len() == 0 {
            subdir
        } else if root[root.len() - 1] == 0x2Fu8 {
            join_two(self.root.as_str(), subdir.as_str())
        } else {
            join_three(self.root.as_str(), "/", subdir.as_str())
        }
    }

    /// The address from which the archive of a package is fetched.
    pub fn url(package: &PackageReference) -> (out: String)
        ensures
            out@ == package_url(package@),
    {
        let head = join_three("https://packages.typst.org/", package.namespace.as_str(), "/");
        let tail = join_three("-", package.version.as_str(), ".tar.gz");
        join_three(head.as_str(), package.name.as_str(), tail.as_str())
    }

    /// Takes the answer to the question whether the directory of the package
    /// exists.
    pub fn probed(&self, package: &PackageReference, exists: bool) -> (out: Resolve)
        ensures
            out@ == after_probe(self.root@, package@, exists),
    {
        if exists {
            Resolve::Ready { dir: self.directory(package) }
        } else {
            Resolve::Fetch { url: Self::url(package) }
        }
    }

    /// Takes the outcome of the download, and decompresses what was fetched.
    pub fn downloaded(
        &self,
        package: &PackageReference,
        fetched: Result<Vec<u8>, FetchError>,
    ) -> (out: Resolve)
        ensures
            out@ == after_download(
                self.root@,
                package@,
                match fetched {
                    Ok(bytes) => Ok(bytes@),
                    Err(e) => Err(e@),
                },
            ),
    {
        match fetched {
            Err(FetchError::Request(detail)) => Resolve::Fail {
                error: PackageError::NetworkFailed(
                    failure("download", package.name.as_str(), detail.as_str()),
                ),
            },
            Err(FetchError::Transfer(detail)) => Resolve::Fail {
                error: PackageError::NetworkFailed(
                    failure("save", package.name.as_str(), detail.as_str()),
                ),
            },
            Ok(compressed) => match gunzip(compressed.as_slice()) {
                Err(detail) => Resolve::Fail {
                    error: PackageError::MalformedArchive(
                        failure("decompress", package.name.as_str(), detail.as_str()),
                    ),
                },
                Ok(archive) => Resolve::Unpack { dir: self.directory(package), archive },
            },
        }
    }

    /// Takes the outcome of the unpacking.
    pub fn unpacked(&self, package: &PackageReference, unpacked: Result<(), String>) -> (out:
        Resolve)
        ensures
            out@ == after_unpack(
                self.root@,
                package@,
                match unpacked {
                    Ok(_) => Ok(()),
                    Err(e) => Err(e@),
                },
            ),
    {
        match unpacked {
            Ok(_) => Resolve::Ready { dir: self.directory(package) },
            Err(detail) => Resolve::Discard {
                dir: self.directory(package),
                error: PackageError::MalformedArchive(
                    failure("unpack", package.name.as_str(), detail.as_str()),
                ),
            },
        }
    }
}

/// Each step is followed by one of two: a look at the disk by the directory
/// or a download, a download by an unpacking or a failure, an unpacking by
/// the directory or a removal.
pub proof fn lemma_next_steps(
    root: Seq<char>,
    package: PackageReferenceView,
    exists: bool,
    fetched: Result<Seq<u8>, FetchErrorView>,
    unpacked: Result<(), Seq<char>>,
)
    ensures
        after_probe(root, package, exists) is Ready <==> exists,
        after_probe(root, package, exists) is Fetch <==> !exists,
        after_download(root, package, fetched) is Unpack || after_download(
            root,
            package,
            fetched,
        ) is Fail,
        after_download(root, package, fetched) is Unpack <==> (fetched matches Ok(compressed)
            && gunzipped(compressed) is Ok),
        after_unpack(root, package, unpacked) is Ready <==> unpacked is Ok,
        after_unpack(root, package, unpacked) is Discard <==> unpacked is Err,
{
}

/// What the world answers in the course of one resolution, where it is asked.
pub struct Answers {
    /// The outcome of the download.
    pub fetched: Result<Seq<u8>, FetchErrorView>,
    /// The outcome of the unpacking.
    pub unpacked: Result<(), Seq<char>>,
}

/// How one resolution ended.
pub struct Resolution {
    /// The directories that exist afterwards.
    pub disk: Set<Seq<char>>,
    /// The directory of the package, or why there is none.
    pub result: Result<Seq<char>, PackageErrorView>,
    /// The number of downloads that were made.
    pub fetches: nat,
}

/// One resolution from beginning to end, on a disk that holds the directories
/// `disk`, by a caller who does what each step asks for. An unpacking makes
/// the directory of the package, whether it succeeds or fails; a removal
/// takes it away.
pub open spec fn resolution(
    root: Seq<char>,
    package: PackageReferenceView,
    disk: Set<Seq<char>>,
    answers: Answers,
) -> Resolution {
    match after_probe(root, package, disk.contains(package_dir(root, package))) {
        ResolveView::Ready { dir } => Resolution { disk, result: Ok(dir), fetches: 0 },
        _ => match after_download(root, package, answers.fetched) {
            ResolveView::Unpack { dir, archive } => match after_unpack(
                root,
                package,
                answers.unpacked,
            ) {
                ResolveView::Discard { dir: left, error } => Resolution {
                    disk: disk.insert(dir).remove(left),
                    result: Err(error),
                    fetches: 1,
                },
                _ => Resolution { disk: disk.insert(dir), result: Ok(dir), fetches: 1 },
            },
            ResolveView::Fail { error } => Resolution { disk, result: Err(error), fetches: 1 },
            _ => Resolution { disk, result: Ok(package_dir(root, package)), fetches: 1 },
        },
    }
}

/// Resolving a package a second time, after it was resolved once, fetches
/// nothing, gives the same directory, and leaves the disk as it is: two
/// resolutions in a row make at most one download.
pub proof fn lemma_resolve_idempotent(
    root: Seq<char>,
    package: PackageReferenceView,
    disk: Set<Seq<char>>,
    first: Answers,
    second: Answers,
)
    requires
        resolution(root, package, disk, first).result is Ok,
    ensures
        ({
            let one = resolution(root, package, disk, first);
            let two = resolution(root, package, one.disk, second);
            &&& two.result == one.result
            &&& two.result == Ok::<Seq<char>, PackageErrorView>(package_dir(root, package))
            &&& two.fetches == 0
            &&& two.disk == one.disk
            &&& one.fetches + two.fetches <= 1
        }),
{
}

/// A directory that exists is the answer whatever the world would say:
/// nothing is fetched.
pub proof fn lemma_resolve_cached(
    root: Seq<char>,
    package: PackageReferenceView,
    disk: Set<Seq<char>>,
    answers: Answers,
)
    requires
        disk.contains(package_dir(root, package)),
    ensures
        resolution(root, package, disk, answers) == (Resolution {
            disk,
            result: Ok(package_dir(root, package)),
            fetches: 0,
        }),
{
}

/// After a resolution in which the unpacking failed, the directory of the
/// package is gone, and the next resolution downloads the archive again.
pub proof fn lemma_failed_unpack_retries(
    root: Seq<char>,
    package: PackageReferenceView,
    disk: Set<Seq<char>>,
    first: Answers,
    second: Answers,
)
    requires
        !disk.contains(package_dir(root, package)),
        first.fetched matches Ok(compressed) && gunzipped(compressed) is Ok,
        first.unpacked is Err,
    ensures
        ({
            let one = resolution(root, package, disk, first);
            let two = resolution(root, package, one.disk, second);
            &&& one.result matches Err(PackageErrorView::MalformedArchive(_))
            &&& !one.disk.contains(package_dir(root, package))
            &&& one.disk == disk
            &&& two.fetches == 1
        }),
{
    let dir = package_dir(root, package);
    assert(disk.insert(dir).remove(dir) =~= disk);
}

} // verus!
