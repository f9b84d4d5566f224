use mdbook_typst_math::package::{FetchError, PackageCache, PackageError, PackageReference, Resolve};
use std::collections::HashSet;
use std::io::Write;

fn cetz() -> PackageReference {
    PackageReference {
        namespace: String::from("preview"),
        name: String::from("cetz"),
        version: String::from("0.3.1"),
    }
}

fn gzip(data: &[u8]) -> Vec<u8> {
    let mut encoder = flate2::write::GzEncoder::new(Vec::new(), flate2::Compression::default());
    encoder.write_all(data).unwrap();
    encoder.finish().unwrap()
}

#[test]
fn directory_lies_below_the_root() {
    let package = cetz();
    assert_eq!(PackageCache::new(String::new()).directory(&package), "preview/cetz/0.3.1");
    assert_eq!(
        PackageCache::new(String::from("cache")).directory(&package),
        "cache/preview/cetz/0.3.1"
    );
    assert_eq!(
        PackageCache::new(String::from("cache/")).directory(&package),
        "cache/preview/cetz/0.3.1"
    );
    assert_eq!(PackageCache::new(String::from("/")).directory(&package), "/preview/cetz/0.3.1");
    assert_eq!(
        PackageCache::new(String::from("/var/cäche")).directory(&package),
        "/var/cäche/preview/cetz/0.3.1"
    );
}

#[test]
fn archive_address_names_the_package() {
    assert_eq!(
        PackageCache::url(&cetz()),
        "https://packages.typst.org/preview/cetz-0.3.1.tar.gz"
    );
}

#[test]
fn existing_directory_is_the_answer() {
    let cache = PackageCache::new(String::from("cache"));
    assert_eq!(
        cache.probed(&cetz(), true),
        Resolve::Ready { dir: String::from("cache/preview/cetz/0.3.1") }
    );
}

#[test]
fn missing_directory_asks_for_a_download() {
    let cache = PackageCache::new(String::from("cache"));
    assert_eq!(
        cache.probed(&cetz(), false),
        Resolve::Fetch { url: String::from("https://packages.typst.org/preview/cetz-0.3.1.tar.gz") }
    );
}

#[test]
fn failed_download_is_a_network_failure() {
    let cache = PackageCache::new(String::from("cache"));
    assert_eq!(
        cache.downloaded(&cetz(), Err(FetchError::Request(String::from("timed out")))),
        Resolve::Fail {
            error: PackageError::NetworkFailed(String::from(
                "Failed to download package cetz: timed out"
            ))
        }
    );
    assert_eq!(
        cache.downloaded(&cetz(), Err(FetchError::Transfer(String::from("connection reset")))),
        Resolve::Fail {
            error: PackageError::NetworkFailed(String::from(
                "Failed to save package cetz: connection reset"
            ))
        }
    );
}

#[test]
fn downloaded_archive_is_decompressed() {
    let cache = PackageCache::new(String::from("cache"));
    let tar = b"not really a tar archive, but bytes all the same \x00\x01\xff".to_vec();
    assert_eq!(
        cache.downloaded(&cetz(), Ok(gzip(&tar))),
        Resolve::Unpack { dir: String::from("cache/preview/cetz/0.3.1"), archive: tar }
    );
    assert_eq!(
        cache.downloaded(&cetz(), Ok(gzip(b""))),
        Resolve::Unpack { dir: String::from("cache/preview/cetz/0.3.1"), archive: Vec::new() }
    );
}

#[test]
fn garbage_is_a_malformed_archive() {
    let cache = PackageCache::new(String::from("cache"));
    match cache.downloaded(&cetz(), Ok(b"this is no gzip stream at all".to_vec())) {
        Resolve::Fail { error: PackageError::MalformedArchive(message) } => {
            assert!(message.starts_with("Failed to decompress package cetz: "));
            assert!(message.len() > "Failed to decompress package cetz: ".len());
        }
        other => panic!("unexpected: {:?}", other),
    }
}

#[test]
fn truncated_archive_is_a_malformed_archive() {
    let cache = PackageCache::new(String::from("cache"));
    let mut compressed = gzip(&vec![7u8; 10_000]);
    compressed.truncate(compressed.len() - 6);
    assert!(matches!(
        cache.downloaded(&cetz(), Ok(compressed)),
        Resolve::Fail { error: PackageError::MalformedArchive(_) }
    ));
    assert!(matches!(
        cache.downloaded(&cetz(), Ok(Vec::new())),
        Resolve::Fail { error: PackageError::MalformedArchive(_) }
    ));
}

#[test]
fn corrupted_checksum_is_a_malformed_archive() {
    let cache = PackageCache::new(String::from("cache"));
    let mut compressed = gzip(b"some content that is long enough to matter");
    let at = compressed.len() - 8;
    compressed[at] ^= 0xff;
    assert!(matches!(
        cache.downloaded(&cetz(), Ok(compressed)),
        Resolve::Fail { error: PackageError::MalformedArchive(_) }
    ));
}

#[test]
fn unpacked_archive_is_the_answer() {
    let cache = PackageCache::new(String::new());
    assert_eq!(
        cache.unpacked(&cetz(), Ok(())),
        Resolve::Ready { dir: String::from("preview/cetz/0.3.1") }
    );
}

#[test]
fn failed_unpacking_asks_for_the_directory_to_be_removed() {
    let cache = PackageCache::new(String::from("cache"));
    assert_eq!(
        cache.unpacked(&cetz(), Err(String::from("disk full"))),
        Resolve::Discard {
            dir: String::from("cache/preview/cetz/0.3.1"),
            error: PackageError::MalformedArchive(String::from(
                "Failed to unpack package cetz: disk full"
            ))
        }
    );
}

/// Resolves a package on a disk that is a set of directories. The download
/// gives `fetched`, the unpacking ends as `unpacks` says; `fetches` counts the
/// downloads.
fn resolve(
    cache: &PackageCache,
    disk: &mut HashSet<String>,
    fetched: &[u8],
    unpacks: bool,
    fetches: &mut usize,
) -> Result<String, PackageError> {
    let package = cetz();
    let exists = disk.contains(&cache.directory(&package));
    let mut step = cache.probed(&package, exists);
    loop {
        step = match step {
            Resolve::Ready { dir } => return Ok(dir),
            Resolve::Fail { error } => return Err(error),
            Resolve::Fetch { url } => {
                assert_eq!(url, PackageCache::url(&package));
                *fetches += 1;
                cache.downloaded(&package, Ok(fetched.to_vec()))
            }
            Resolve::Unpack { dir, archive: _ } => {
                disk.insert(dir);
                if unpacks {
                    cache.unpacked(&package, Ok(()))
                } else {
                    cache.unpacked(&package, Err(String::from("unexpected end of archive")))
                }
            }
            Resolve::Discard { dir, error } => {
                disk.remove(&dir);
                return Err(error);
            }
        };
    }
}

#[test]
fn second_resolution_fetches_nothing() {
    let cache = PackageCache::new(String::from("cache"));
    let mut disk = HashSet::new();
    let mut fetches = 0;
    let archive = gzip(b"tar");
    let first = resolve(&cache, &mut disk, &archive, true, &mut fetches);
    assert_eq!(first, Ok(String::from("cache/preview/cetz/0.3.1")));
    assert_eq!(fetches, 1);
    let second = resolve(&cache, &mut disk, b"no archive this time", false, &mut fetches);
    assert_eq!(second, first);
    assert_eq!(fetches, 1);
}

#[test]
fn failed_unpacking_leaves_nothing_behind() {
    let cache = PackageCache::new(String::from("cache"));
    let mut disk = HashSet::new();
    let mut fetches = 0;
    let archive = gzip(b"tar");
    let first = resolve(&cache, &mut disk, &archive, false, &mut fetches);
    assert_eq!(
        first,
        Err(PackageError::MalformedArchive(String::from(
            "Failed to unpack package cetz: unexpected end of archive"
        )))
    );
    assert!(disk.is_empty());
    assert_eq!(fetches, 1);
    let second = resolve(&cache, &mut disk, &archive, true, &mut fetches);
    assert_eq!(second, Ok(String::from("cache/preview/cetz/0.3.1")));
    assert_eq!(fetches, 2);
    assert!(disk.contains("cache/preview/cetz/0.3.1"));
}
