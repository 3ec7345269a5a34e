use dir_mapper::utils::{
    compute_prefix, compute_prefix_raw, dir_name, file_name, join_path, split_ext,
};

#[test]
fn split_ext_works() {
    assert_eq!(("foo", Some("bar")), split_ext("foo.bar"));
    assert_eq!(("foo", None), split_ext("foo"));
}

#[test]
fn join_path_works() {
    assert_eq!("foo/bar", join_path("foo", "bar"));
    assert_eq!("foo/bar", join_path("foo/", "bar"));
    assert_eq!("foo/", join_path("foo/", ""));
}

#[test]
fn compute_prefix_works() {
    assert_eq!("..", compute_prefix_raw("foo/", "foo/bar"));
    assert_eq!("", compute_prefix_raw("foo/", "foo/"));
    assert_eq!("../baz", compute_prefix_raw("foo/baz", "foo/smaz"));
    assert_eq!("../../whaz/baz", compute_prefix_raw("whaz/baz", "foo/smaz"));
    assert_eq!("../../whaz/baz", compute_prefix_raw("whaz/baz", "foo/smaz"));
}

#[test]
fn split_ext_cuts_at_the_last_dot() {
    assert_eq!(("archive.tar", Some("gz")), split_ext("archive.tar.gz"));
    assert_eq!(("", Some("hidden")), split_ext(".hidden"));
    assert_eq!(("trailing", Some("")), split_ext("trailing."));
    assert_eq!(("", None), split_ext(""));
    assert_eq!(("na\u{ef}ve", Some("\u{e9}t\u{e9}")), split_ext("na\u{ef}ve.\u{e9}t\u{e9}"));
}

#[test]
fn file_name_is_what_follows_the_last_slash() {
    assert_eq!("c.txt", file_name("/a/b/c.txt"));
    assert_eq!("plain", file_name("plain"));
    assert_eq!("", file_name("dir/"));
    assert_eq!("", file_name(""));
    assert_eq!("\u{fc}ber", file_name("stra\u{df}e/\u{fc}ber"));
}

#[test]
fn dir_name_is_what_precedes_the_last_slash() {
    assert_eq!("/a/b", dir_name("/a/b/c.txt"));
    assert_eq!("", dir_name("plain"));
    assert_eq!("dir", dir_name("dir/"));
    assert_eq!("", dir_name("/root"));
    assert_eq!("", dir_name(""));
}

#[test]
fn file_name_and_dir_name_split_a_path() {
    for path in ["/a/b/c", "a/b", "/x", "x/", "a//b"] {
        assert_eq!(path, format!("{}/{}", dir_name(path), file_name(path)));
    }
}

#[test]
fn join_path_strips_one_trailing_slash_only() {
    assert_eq!("foo//bar", join_path("foo//", "bar"));
    assert_eq!("/bar", join_path("", "bar"));
    assert_eq!("/bar", join_path("/", "bar"));
    assert_eq!("a/b/c/d", join_path("a/b", "c/d"));
    assert_eq!("foo//bar", join_path("foo", "/bar"));
}

#[test]
fn compute_prefix_raw_ignores_empty_components() {
    assert_eq!("../baz", compute_prefix_raw("/foo//baz/", "foo/smaz"));
    assert_eq!("", compute_prefix_raw("", ""));
    assert_eq!("a/b", compute_prefix_raw("a/b", ""));
    assert_eq!("../..", compute_prefix_raw("", "a/b"));
    assert_eq!("c", compute_prefix_raw("a/b/c", "a/b"));
}

#[test]
fn compute_prefix_ends_in_a_slash() {
    assert_eq!("../", compute_prefix("foo/", "foo/bar"));
    assert_eq!("./", compute_prefix("foo/", "foo/"));
    assert_eq!("../baz/", compute_prefix("foo/baz", "foo/smaz"));
    assert_eq!("../../whaz/baz/", compute_prefix("whaz/baz", "foo/smaz"));
    assert_eq!("./", compute_prefix("", ""));
}
