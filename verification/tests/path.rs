use normalized_resource::path::{merge_slashes, toggle_slash};

#[test]
fn merge_slashes_collapses_every_run() {
    assert_eq!(merge_slashes("//a///b//"), "/a/b/");
    assert_eq!(merge_slashes("/a/b"), "/a/b");
    assert_eq!(merge_slashes(""), "");
    assert_eq!(merge_slashes("////"), "/");
    assert_eq!(merge_slashes("a//{id}//c"), "a/{id}/c");
}

#[test]
fn merge_slashes_keeps_placeholders_and_other_characters() {
    assert_eq!(merge_slashes("/user/{id:\\d+}/+//x"), "/user/{id:\\d+}/+/x");
    assert_eq!(merge_slashes("/é//ü"), "/é/ü");
}

#[test]
fn toggle_slash_appends_when_missing() {
    assert_eq!(toggle_slash("/test"), "/test/");
    assert_eq!(toggle_slash(""), "/");
    assert_eq!(toggle_slash("/é"), "/é/");
}

#[test]
fn toggle_slash_removes_exactly_one() {
    assert_eq!(toggle_slash("/test/"), "/test");
    assert_eq!(toggle_slash("/"), "");
    assert_eq!(toggle_slash("/a//"), "/a/");
}

#[test]
fn normalizing_twice_returns_to_the_merged_pattern() {
    for pattern in ["/a//b", "/a/b/", "/", "", "x///", "//"] {
        let merged = merge_slashes(pattern);
        let sibling = toggle_slash(&merged);
        assert_ne!(sibling, merged);
        assert_eq!(merge_slashes(&sibling), sibling);
        assert_eq!(toggle_slash(&merge_slashes(&sibling)), merged);
    }
}
