use mermaid_quicklook::base::{
    base_dir, ensure_secure_dir, secure_dir_created, DirEntry, DirError, DirLookup, DirStep,
};
use mermaid_quicklook::preview::{
    preview_dir, preview_dir_from, preview_path, preview_path_from,
};
use mermaid_quicklook::uri::{
    is_mermaid_document, source_path, source_path_from, SourcePathError, UrlPath,
};
use std::hash::{DefaultHasher, Hash, Hasher};

fn failure(r: Result<DirStep, DirError>) -> String {
    match r {
        Ok(_) => panic!("accepted"),
        Err(e) => e.message(),
    }
}

#[test]
fn diagrams_are_told_by_their_ending() {
    assert!(is_mermaid_document("file:///a.mmd"));
    assert!(is_mermaid_document("file:///a.mermaid"));
    assert!(is_mermaid_document(".mmd"));
    assert!(!is_mermaid_document("file:///a.md"));
    assert!(!is_mermaid_document("file:///a.mmd.txt"));
    assert!(!is_mermaid_document("mmd"));
    assert!(!is_mermaid_document(""));
}

#[test]
fn source_paths_are_decoded() {
    assert_eq!(source_path("file:///a/b%20c.mmd").ok(), Some(b"/a/b c.mmd".to_vec()));
    assert_eq!(source_path("file:///a/../b.mmd").ok(), Some(b"/b.mmd".to_vec()));
    assert_eq!(source_path("file:///%FF.mmd").ok(), Some(vec![b'/', 0xff, b'.', b'm', b'm', b'd']));
}

#[test]
fn other_uris_have_no_source_path() {
    match source_path("not a url") {
        Err(e) => {
            assert!(matches!(e, SourcePathError::Unparsable));
            assert_eq!(e.message(), "parsing document uri");
        }
        Ok(_) => panic!(),
    }
    match source_path("untitled:1") {
        Err(e) => {
            assert!(matches!(e, SourcePathError::NotLocal(_)));
            assert_eq!(e.message(), "document is not a local file: untitled:1");
        }
        Ok(_) => panic!(),
    }
    assert!(source_path_from("u", UrlPath::Local(vec![1])).ok() == Some(vec![1]));
    assert!(matches!(source_path_from("u", UrlPath::NotLocal), Err(SourcePathError::NotLocal(u)) if u == "u"));
    assert!(matches!(source_path_from("u", UrlPath::Unparsable), Err(SourcePathError::Unparsable)));
}

#[test]
fn preview_dir_is_named_by_the_hash() {
    let uri = "file:///a/flow.mmd";
    let mut hasher = DefaultHasher::new();
    uri.hash(&mut hasher);
    let expected = format!("/run/base/{:016x}", hasher.finish());
    assert_eq!(preview_dir(b"/run/base", uri), expected.as_bytes());
    assert_eq!(preview_dir_from(b"/b", 0xabc), b"/b/0000000000000abc");
    assert_eq!(preview_dir(b"/b", uri), preview_dir(b"/b", uri));
}

#[test]
fn preview_dirs_differ_and_lie_below_the_base() {
    let a = preview_dir(b"/b", "file:///a.mmd");
    let b = preview_dir(b"/b", "file:///b.mmd");
    assert_ne!(a, b);
    assert!(a.starts_with(b"/b/"));
    assert_ne!(a, b"/b".to_vec());
}

#[test]
fn preview_has_the_name_of_its_source() {
    let p = preview_path(b"/b", "file:///a/flow.chart.mmd").ok().unwrap();
    let mut expected = preview_dir(b"/b", "file:///a/flow.chart.mmd");
    expected.extend_from_slice(b"/flow.chart.png");
    assert_eq!(p, expected);
    assert_eq!(preview_path_from(b"/d", b"/a/flow.mmd"), b"/d/flow.png");
    assert_eq!(preview_path_from(b"/d", b"/"), b"/d/diagram.png");
    assert_eq!(preview_path_from(b"/d", &[b'/', 0xff, b'.', b'm']), b"/d/diagram.png");
    assert_eq!(preview_path_from(b"/d", b"/.mmd"), b"/d/.mmd.png");
    assert!(preview_path(b"/b", "untitled:1").is_err());
}

#[test]
fn base_prefers_the_runtime_directory() {
    let runtime = Some(b"/run/user/7".to_vec());
    assert_eq!(base_dir(runtime.clone(), true, b"/tmp", 7), b"/run/user/7/zed-mermaid-quicklook");
    assert_eq!(base_dir(runtime, false, b"/tmp", 7), b"/tmp/zed-mermaid-quicklook-7");
    assert_eq!(base_dir(None, true, b"/tmp/", 1000), b"/tmp/zed-mermaid-quicklook-1000");
}

#[test]
fn base_directories_of_users_differ() {
    assert_ne!(base_dir(None, false, b"/tmp", 1), base_dir(None, false, b"/tmp", 11));
}

#[test]
fn only_a_private_directory_is_used() {
    let found = |is_dir: bool, uid: u32, mode: u32| {
        DirLookup::Found(DirEntry { is_dir, uid, mode })
    };
    assert!(ensure_secure_dir(b"/x", found(true, 5, 0o40700), 5).ok() == Some(DirStep::Use));
    assert!(ensure_secure_dir(b"/x", found(true, 5, 0o41700), 5).ok() == Some(DirStep::Use));
    assert!(ensure_secure_dir(b"/x", DirLookup::Missing, 5).ok() == Some(DirStep::Create));
    assert_eq!(
        failure(ensure_secure_dir(b"/x", found(false, 5, 0o120700), 5)),
        "refusing to use /x: not a directory (possible symlink attack)"
    );
    assert_eq!(
        failure(ensure_secure_dir(b"/x", found(true, 6, 0o40700), 5)),
        "refusing to use /x: owned by uid 6, not 5"
    );
    assert_eq!(
        failure(ensure_secure_dir(b"/x", found(true, 5, 0o40755), 5)),
        "refusing to use /x: permissions are 0755, expected 0700"
    );
    assert_eq!(
        failure(ensure_secure_dir(b"/x", found(true, 5, 0o40007), 5)),
        "refusing to use /x: permissions are 0007, expected 0700"
    );
    assert_eq!(failure(ensure_secure_dir(b"/x", DirLookup::Failed, 5)), "inspecting /x");
}

#[test]
fn failure_to_create_the_base_is_told() {
    assert!(secure_dir_created(b"/x", true).is_ok());
    match secure_dir_created(&[b'/', 0xff], false) {
        Err(e) => assert_eq!(e.message(), "creating /\u{fffd}"),
        Ok(()) => panic!(),
    }
}
