use mdbook_typst_math::files::{FileError, FileIdentifier, FileStore, Lookup, ParsedSource};
use mdbook_typst_math::package::{PackageError, PackageReference};

fn package() -> PackageReference {
    PackageReference {
        namespace: String::from("preview"),
        name: String::from("cetz"),
        version: String::from("0.3.1"),
    }
}

fn in_package(path: &str) -> FileIdentifier {
    FileIdentifier { package: Some(package()), path: String::from(path) }
}

fn local(path: &str) -> FileIdentifier {
    FileIdentifier { package: None, path: String::from(path) }
}

#[test]
fn identifiers_compare_by_package_and_path() {
    assert!(in_package("lib.typ").same(&in_package("lib.typ")));
    assert!(!in_package("lib.typ").same(&in_package("lib2.typ")));
    assert!(!in_package("lib.typ").same(&local("lib.typ")));
    assert!(!local("lib.typ").same(&in_package("lib.typ")));
    assert!(local("a").same(&local("a")));
    let mut other = in_package("lib.typ");
    other.package.as_mut().unwrap().version = String::from("0.3.2");
    assert!(!in_package("lib.typ").same(&other));
    let mut other = in_package("lib.typ");
    other.package.as_mut().unwrap().namespace = String::from("local");
    assert!(!in_package("lib.typ").same(&other));
    let mut other = in_package("lib.typ");
    other.package.as_mut().unwrap().name = String::from("cetz2");
    assert!(!in_package("lib.typ").same(&other));
    assert_eq!(in_package("lib.typ").copy(), in_package("lib.typ"));
    assert_eq!(FileIdentifier::detached(), local("main.typ"));
}

#[test]
fn unknown_file_of_no_package_is_not_found() {
    let store = FileStore::new();
    assert_eq!(
        store.get_bytes(&local("notes.typ")),
        Lookup::Failed(FileError::NotFound(String::from("notes.typ")))
    );
    let mut store = store;
    assert_eq!(
        store.get_source(&local("notes.typ")),
        Lookup::Failed(FileError::NotFound(String::from("notes.typ")))
    );
}

#[test]
fn unknown_file_of_a_package_asks_for_the_package() {
    let mut store = FileStore::new();
    assert_eq!(store.get_bytes(&in_package("lib.typ")), Lookup::Load(package()));
    assert_eq!(store.get_source(&in_package("lib.typ")), Lookup::Load(package()));
}

#[test]
fn file_is_served_from_the_store_once_read() {
    let mut store = FileStore::new();
    let id = in_package("lib.typ");
    let kept = store.insert(&id, b"#let x = 1".to_vec());
    assert_eq!(kept, b"#let x = 1");
    assert_eq!(store.get_bytes(&id), Lookup::Ready(b"#let x = 1".to_vec()));
    assert_eq!(store.get_bytes(&id), Lookup::Ready(b"#let x = 1".to_vec()));
    assert_eq!(store.get_bytes(&in_package("other.typ")), Lookup::Load(package()));
}

#[test]
fn bytes_of_a_file_are_never_written_over() {
    let mut store = FileStore::new();
    let id = local("data.bin");
    assert_eq!(store.insert(&id, vec![1, 2, 3]), vec![1, 2, 3]);
    assert_eq!(store.insert(&id, vec![9, 9]), vec![1, 2, 3]);
    assert_eq!(store.get_bytes(&id), Lookup::Ready(vec![1, 2, 3]));
    let other = local("other.bin");
    assert_eq!(store.insert(&other, vec![9, 9]), vec![9, 9]);
    assert_eq!(store.get_bytes(&id), Lookup::Ready(vec![1, 2, 3]));
    assert_eq!(store.get_bytes(&other), Lookup::Ready(vec![9, 9]));
}

#[test]
fn text_of_a_file_is_the_decoding_of_its_bytes() {
    let mut store = FileStore::new();
    let id = in_package("lib.typ");
    let text = "#let ä = \"💛\"\r\n";
    store.insert(&id, text.as_bytes().to_vec());
    let expected = Lookup::Ready(ParsedSource { id: id.copy(), text: String::from(text) });
    assert_eq!(store.get_source(&id), expected);
    assert_eq!(store.get_source(&id), expected);
    assert_eq!(store.get_bytes(&id), Lookup::Ready(text.as_bytes().to_vec()));
    assert_eq!(store.get_source(&id), expected);
}

#[test]
fn bytes_that_are_not_text_have_no_source() {
    let mut store = FileStore::new();
    let id = in_package("logo.png");
    store.insert(&id, vec![0x89, 0x50, 0x4e, 0x47, 0xff, 0xfe]);
    assert_eq!(store.get_source(&id), Lookup::Failed(FileError::InvalidUtf8));
    assert_eq!(store.get_source(&id), Lookup::Failed(FileError::InvalidUtf8));
    assert_eq!(store.get_bytes(&id), Lookup::Ready(vec![0x89, 0x50, 0x4e, 0x47, 0xff, 0xfe]));
    let truncated = in_package("cut.typ");
    store.insert(&truncated, vec![b'a', 0xc3]);
    assert_eq!(store.get_source(&truncated), Lookup::Failed(FileError::InvalidUtf8));
}

#[test]
fn empty_file_has_empty_text() {
    let mut store = FileStore::new();
    let id = in_package("empty.typ");
    store.insert(&id, Vec::new());
    assert_eq!(
        store.get_source(&id),
        Lookup::Ready(ParsedSource { id: id.copy(), text: String::new() })
    );
}

#[test]
fn file_is_read_from_below_the_directory_of_its_package() {
    assert_eq!(
        FileStore::locate(&in_package("lib.typ"), "/cache/preview/cetz/0.3.1"),
        Ok(String::from("/cache/preview/cetz/0.3.1/lib.typ"))
    );
    assert_eq!(
        FileStore::locate(&in_package("src/draw/shapes.typ"), "cache/preview/cetz/0.3.1"),
        Ok(String::from("cache/preview/cetz/0.3.1/src/draw/shapes.typ"))
    );
    assert_eq!(
        FileStore::locate(&in_package("src/../lib.typ"), "/cache/p"),
        Ok(String::from("/cache/p/lib.typ"))
    );
    assert_eq!(
        FileStore::locate(&in_package("/lib.typ"), "/cache/p"),
        Ok(String::from("/cache/p/lib.typ"))
    );
}

#[test]
fn path_that_leaves_its_package_is_not_found() {
    assert_eq!(
        FileStore::locate(&in_package("../../../etc/passwd"), "/cache/preview/cetz/0.3.1"),
        Err(FileError::NotFound(String::from("../../../etc/passwd")))
    );
    assert_eq!(
        FileStore::locate(&in_package("../sibling/lib.typ"), "/cache/p"),
        Err(FileError::NotFound(String::from("../sibling/lib.typ")))
    );
}

#[test]
fn failed_package_is_a_file_error_that_carries_it() {
    let network = PackageError::NetworkFailed(String::from(
        "Failed to download package cetz: timed out",
    ));
    assert_eq!(FileStore::unresolved(network.clone()), FileError::Package(network));
    let archive = PackageError::MalformedArchive(String::from(
        "Failed to unpack package cetz: unexpected end of archive",
    ));
    assert_eq!(FileStore::unresolved(archive.clone()), FileError::Package(archive));
}

#[test]
fn file_is_asked_for_again_after_a_failed_resolution() {
    let mut store = FileStore::new();
    let id = in_package("lib.typ");
    assert_eq!(store.get_bytes(&id), Lookup::Load(package()));
    let failure = FileStore::unresolved(PackageError::NetworkFailed(String::from("down")));
    assert!(matches!(failure, FileError::Package(PackageError::NetworkFailed(_))));
    assert_eq!(store.get_bytes(&id), Lookup::Load(package()));
    assert_eq!(store.get_source(&id), Lookup::Load(package()));
    store.insert(&id, b"late".to_vec());
    assert_eq!(store.get_bytes(&id), Lookup::Ready(b"late".to_vec()));
}
