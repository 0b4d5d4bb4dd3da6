//! Tests of lexical path resolution.

use norm::path::{normalize, resolve};

fn norm_str(p: &str) -> String {
    let v = normalize(&p.as_bytes().to_vec());
    String::from_utf8(v).unwrap()
}

fn resolve_str(p: &str, origin: &str) -> String {
    let v = resolve(&p.as_bytes().to_vec(), &origin.as_bytes().to_vec());
    String::from_utf8(v).unwrap()
}

#[test]
fn normalized_absolute_path_is_unchanged() {
    for p in ["/", "/x", "/x/b", "/tmp/foo", "/a/b/c"] {
        assert_eq!(norm_str(p), p);
        // Resolving an already-normalized absolute path returns it
        // unchanged, whatever the origin.
        assert_eq!(resolve_str(p, "/anywhere"), p);
    }
}

#[test]
fn relative_upward_reference_resolves_into_origin() {
    assert_eq!(resolve_str("a/../b", "/x"), "/x/b");
}

#[test]
fn normalize_collapses_dots_and_separators() {
    assert_eq!(norm_str(""), ".");
    assert_eq!(norm_str("."), ".");
    assert_eq!(norm_str("/"), "/");
    assert_eq!(norm_str("//"), "/");
    assert_eq!(norm_str("/.."), "/");
    assert_eq!(norm_str("/../x"), "/x");
    assert_eq!(norm_str("//a///b/./c"), "/a/b/c");
    assert_eq!(norm_str("/a/b/../c"), "/a/c");
    assert_eq!(norm_str("/a/"), "/a");
    assert_eq!(norm_str("a/.."), ".");
    assert_eq!(norm_str("a/../../b"), "../b");
    assert_eq!(norm_str("../a"), "../a");
    assert_eq!(norm_str("./a/./b"), "a/b");
}

#[test]
fn resolve_joins_relative_onto_origin() {
    assert_eq!(resolve_str("bar", "/home/u"), "/home/u/bar");
    assert_eq!(resolve_str("./bar", "/home/u"), "/home/u/bar");
    assert_eq!(resolve_str("../bar", "/home/u"), "/home/bar");
    assert_eq!(resolve_str("bar", "/"), "/bar");
    assert_eq!(resolve_str("/etc/passwd", "/home/u"), "/etc/passwd");
}

#[test]
fn normalization_works_on_raw_bytes() {
    // Paths are byte strings; bytes that are not valid text still
    // normalize, and the upward reference removes the odd segment.
    let v = normalize(&vec![47u8, 97, 255, 47, 46, 46]);
    assert_eq!(v, vec![47u8]);
    let v = normalize(&vec![47u8, 97, 255, 47, 98]);
    assert_eq!(v, vec![47u8, 97, 255, 47, 98]);
}

#[test]
fn normalize_matches_reference_cleaner() {
    let cases = [
        "", ".", "..", "/", "//", "///", "/..", "/../..", "a", "a/", "a//b", "a/./b", "a/../b",
        "a/b/..", "a/b/../..", "a/b/../../..", "/a/b/c/./../../g", "./x", "../x/../y",
        "/tmp/foo", "x/.../y", "..a/b", "/a/..b/c", "a/b/.././c",
    ];
    for p in cases {
        let ours = norm_str(p);
        let reference = path_clean::clean(p);
        assert_eq!(
            ours,
            reference.to_str().unwrap(),
            "normalization of {:?} diverges from the reference cleaner",
            p
        );
    }
}
