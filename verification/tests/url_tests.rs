use segfetch::url::{make_url, segment_path};

#[test]
fn test_make_url() {
    println!("{}", make_url("prefix", 1, "suffix", 3))
}

#[test]
fn make_url_pads_small_index() {
    assert_eq!(make_url("p", 1, "s", 3), "p001s");
}

#[test]
fn make_url_keeps_wide_index() {
    assert_eq!(make_url("p", 1000, "s", 3), "p1000s");
}

#[test]
fn make_url_pads_to_width() {
    assert_eq!(make_url("", 42, "", 7), "0000042");
    assert_eq!(make_url("a", 0, "b", 3), "a000b");
}

#[test]
fn make_url_never_truncates() {
    assert_eq!(make_url("", 4294967295, "", 2), "4294967295");
    assert_eq!(make_url("x", 12345, "y", 0), "x12345y");
}

#[test]
fn make_url_zero_width_zero_index() {
    assert_eq!(make_url("", 0, "", 0), "0");
}

#[test]
fn segment_path_joins_dir_index_and_extension() {
    assert_eq!(segment_path("./zzz", 3), "./zzz/3.ts");
    assert_eq!(segment_path("out", 10), "out/10.ts");
}
