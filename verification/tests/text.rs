use dex::text::{
    chars_of, contains_any_of, ends_with_any_of, ends_with_str, has_infix, has_prefix, has_suffix,
    list_has, matches_at, range_is, same_chars, same_str, split_ranges, str_is,
};

fn cs(s: &str) -> Vec<char> {
    s.chars().collect()
}

#[test]
fn test_chars_of() {
    assert_eq!(chars_of("héllo"), vec!['h', 'é', 'l', 'l', 'o']);
    assert_eq!(chars_of(""), Vec::<char>::new());
}

#[test]
fn test_suffix_and_prefix() {
    assert!(has_suffix(&cs("file.tar.gz"), &cs(".gz")));
    assert!(has_suffix(&cs(".gz"), &cs(".gz")));
    assert!(has_suffix(&cs("abc"), &cs("")));
    assert!(!has_suffix(&cs("gz"), &cs(".gz")));
    assert!(!has_suffix(&cs("file.gz.tmp"), &cs(".gz")));
    assert!(has_prefix(&cs("https://x"), &cs("https://")));
    assert!(has_prefix(&cs(""), &cs("")));
    assert!(!has_prefix(&cs("http://x"), &cs("https://")));
    assert!(!has_prefix(&cs("ht"), &cs("http")));
    assert!(ends_with_str(&cs("a.zip"), ".zip"));
    assert!(!ends_with_str(&cs("a.zip"), ".gz"));
}

#[test]
fn test_infix() {
    assert!(has_infix(&cs("tool-linux-amd64"), &cs("linux")));
    assert!(has_infix(&cs("linux"), &cs("linux")));
    assert!(has_infix(&cs("xlinux"), &cs("linux")));
    assert!(has_infix(&cs("abc"), &cs("")));
    assert!(has_infix(&cs(""), &cs("")));
    assert!(!has_infix(&cs("linu"), &cs("linux")));
    assert!(!has_infix(&cs("lin-ux"), &cs("linux")));
}

#[test]
fn test_matches_at_and_range_is() {
    let s = cs("owner/repo/releases");
    assert!(matches_at(&s, &cs("repo"), 6));
    assert!(!matches_at(&s, &cs("repo"), 5));
    assert!(matches_at(&s, &cs(""), 19));
    assert!(!matches_at(&s, &cs(""), 20));
    assert!(!matches_at(&s, &cs("releases"), 12));
    assert!(!matches_at(&cs("ab"), &cs("abc"), 0));
    assert!(range_is(&s, 11, 19, "releases"));
    assert!(!range_is(&s, 11, 18, "releases"));
    assert!(!range_is(&s, 10, 19, "releases"));
    assert!(range_is(&s, 3, 3, ""));
    assert!(!range_is(&s, 4, 3, ""));
    assert!(!range_is(&s, 11, 20, "releases"));
}

#[test]
fn test_equality() {
    assert!(same_chars(&cs("abc"), &cs("abc")));
    assert!(!same_chars(&cs("abc"), &cs("abd")));
    assert!(!same_chars(&cs("abc"), &cs("ab")));
    assert!(same_chars(&cs(""), &cs("")));
    assert!(same_str("darwin", "darwin"));
    assert!(!same_str("darwin", "Darwin"));
    assert!(str_is("x64", &cs("x64")));
    assert!(!str_is("x64", &cs("x86")));
}

#[test]
fn test_lists() {
    let list = ["amd64", "x64"];
    assert!(list_has(&list, &cs("x64")));
    assert!(!list_has(&list, &cs("x6")));
    assert!(!list_has(&[], &cs("x64")));
    assert!(ends_with_any_of(&cs("a.sig"), &[".asc", ".sig"]));
    assert!(!ends_with_any_of(&cs("a.sig.gz"), &[".asc", ".sig"]));
    assert!(!ends_with_any_of(&cs("a.sig"), &[]));
    assert!(contains_any_of(&cs("the-source"), &["source", "src"]));
    assert!(contains_any_of(&cs("the-src"), &["source", "src"]));
    assert!(!contains_any_of(&cs("the-binary"), &["source", "src"]));
}

#[test]
fn test_split_ranges() {
    let s = cs("a/bc//d/");
    assert_eq!(split_ranges(&s, 0, 8, '/'), vec![(0, 1), (2, 4), (5, 5), (6, 7), (8, 8)]);
    assert_eq!(split_ranges(&s, 2, 4, '/'), vec![(2, 4)]);
    assert_eq!(split_ranges(&s, 1, 2, '/'), vec![(1, 1), (2, 2)]);
    assert_eq!(split_ranges(&s, 3, 3, '/'), vec![(3, 3)]);
    assert_eq!(split_ranges(&cs(""), 0, 0, '/'), vec![(0, 0)]);
}
