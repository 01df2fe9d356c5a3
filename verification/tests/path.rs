use mermaid_quicklook::path::{
    get_extension, get_file_name, get_file_stem, get_parent, is_utf8, join_path, set_extension,
};
use std::path::Path;

/// Every path of up to `max` characters out of a small alphabet.
fn paths(max: usize) -> Vec<String> {
    let mut all: Vec<String> = vec![String::new()];
    let mut last: Vec<String> = vec![String::new()];
    for _ in 0..max {
        let mut longer: Vec<String> = Vec::new();
        for s in &last {
            for c in ['/', '.', 'a', 'b'] {
                let mut t = s.clone();
                t.push(c);
                longer.push(t);
            }
        }
        all.extend(longer.iter().cloned());
        last = longer;
    }
    all
}

fn text(bytes: Vec<u8>) -> String {
    String::from_utf8(bytes).unwrap()
}

#[test]
fn file_names_are_those_of_the_standard_library() {
    for s in paths(8) {
        let p = Path::new(&s);
        let b = s.as_bytes();
        let name = p.file_name().map(|x| x.to_str().unwrap().to_string());
        let stem = p.file_stem().map(|x| x.to_str().unwrap().to_string());
        let ext = p.extension().map(|x| x.to_str().unwrap().to_string());
        assert_eq!(get_file_name(b).map(text), name, "{:?}", s);
        assert_eq!(get_file_stem(b).map(text), stem, "{:?}", s);
        assert_eq!(get_extension(b).map(text), ext, "{:?}", s);
    }
}

#[test]
fn parents_are_those_of_the_standard_library() {
    for s in paths(8) {
        let parent = Path::new(&s).parent().map(|x| x.to_str().unwrap().to_string());
        assert_eq!(get_parent(s.as_bytes()).map(text), parent, "{:?}", s);
    }
}

#[test]
fn new_extensions_are_those_of_the_standard_library() {
    for s in paths(7) {
        // A stem of one dot is the one that the standard library loses with the old extension.
        if get_file_stem(s.as_bytes()) == Some(b".".to_vec()) {
            continue;
        }
        for ext in ["png", "a.b", ""] {
            let expected = Path::new(&s).with_extension(ext);
            assert_eq!(
                text(set_extension(s.as_bytes(), ext.as_bytes())),
                expected.to_str().unwrap(),
                "{:?}",
                s
            );
        }
    }
}

#[test]
fn joins_are_those_of_the_standard_library() {
    for s in paths(4) {
        for t in paths(3) {
            let expected = Path::new(&s).join(&t);
            assert_eq!(
                text(join_path(s.as_bytes(), t.as_bytes())),
                expected.to_str().unwrap(),
                "{:?} {:?}",
                s,
                t
            );
        }
    }
}

#[test]
fn last_piece_of_a_path_is_its_name() {
    for s in paths(7) {
        let pieces = |t: &str| -> Vec<String> {
            t.split('/').filter(|x| !x.is_empty() && *x != ".").map(str::to_string).collect()
        };
        let mut all = pieces(&s);
        let parent = get_parent(s.as_bytes()).map(text);
        match all.pop() {
            Some(last) => {
                let name = get_file_name(s.as_bytes()).map(text);
                assert_eq!(name, if last == ".." { None } else { Some(last) }, "{:?}", s);
                let parent = parent.unwrap();
                assert_eq!(pieces(&parent), all, "{:?}", s);
                assert_eq!(parent.starts_with('/'), s.starts_with('/'), "{:?}", s);
            }
            None => {
                assert_eq!(get_file_name(s.as_bytes()), None);
                assert_eq!(parent.is_some(), s.starts_with('.'), "{:?}", s);
            }
        }
    }
}

#[test]
fn new_extension_keeps_a_stem_of_one_dot() {
    assert_eq!(get_file_stem(b"/d/..mmd"), Some(b".".to_vec()));
    assert_eq!(set_extension(b"/d/..mmd", b"png"), b"/d/..png");
}

#[test]
fn new_extension_keeps_directory_and_stem() {
    let p = b"/docs/flow.chart.mmd";
    let q = set_extension(p, b"svg");
    assert_eq!(q, b"/docs/flow.chart.svg");
    assert_eq!(get_parent(&q), get_parent(p));
    assert_eq!(get_file_stem(&q), get_file_stem(p));
    assert_eq!(get_extension(&q), Some(b"svg".to_vec()));
}

#[test]
fn joined_name_lies_in_its_directory() {
    let q = join_path(b"/run/user/1000/./", b"x.png");
    assert_eq!(q, b"/run/user/1000/./x.png");
    assert_eq!(get_file_name(&q), Some(b"x.png".to_vec()));
    assert_eq!(get_parent(&q), Some(b"/run/user/1000".to_vec()));
}

#[test]
fn utf8_is_told_from_other_bytes() {
    assert!(is_utf8(b"abc"));
    assert!(is_utf8("\u{e9}\u{1f600}".as_bytes()));
    assert!(!is_utf8(&[0xff]));
    assert!(!is_utf8(&[0xc3]));
    assert_eq!(get_file_stem(&[b'/', 0xff, b'.', b'x']), Some(vec![0xff]));
}
