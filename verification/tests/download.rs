use dex::download::file_name_from_url;

#[test]
fn test_file_name_is_last_segment() {
    assert_eq!(file_name_from_url("https://example.com/files/archive.tar.gz"), "archive.tar.gz");
    assert_eq!(file_name_from_url("archive.zip"), "archive.zip");
}

#[test]
fn test_file_name_drops_query() {
    assert_eq!(file_name_from_url("https://cdn.example.com/a/b/tool.zip?sig=abc&x=1"), "tool.zip");
    assert_eq!(file_name_from_url("https://example.com/tool.zip?a?b"), "tool.zip");
    // A slash inside the query starts the last segment.
    assert_eq!(file_name_from_url("https://example.com/tool.zip?next=/x/y.gz"), "y.gz");
}

#[test]
fn test_file_name_may_be_empty() {
    assert_eq!(file_name_from_url("https://example.com/dir/"), "");
    assert_eq!(file_name_from_url("https://example.com/?q=1"), "");
    assert_eq!(file_name_from_url(""), "");
}

#[test]
fn test_file_name_non_ascii() {
    assert_eq!(file_name_from_url("https://example.com/données/fichier-é.tar.gz?x=ü"), "fichier-é.tar.gz");
}
