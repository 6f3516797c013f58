use transporter::paths::{get_textual_path, should_compress_file};

#[test]
fn test_get_textual_path_simple() {
    assert_eq!(get_textual_path("/tmp/a.log", Some("/tmp"), false), "./a.log")
}

#[test]
fn test_get_textual_path_compression() {
    assert_eq!(get_textual_path("/tmp/a.log", Some("/tmp"), true), "./a.log.gz")
}

#[test]
fn test_get_textual_path_no_base_path() {
    assert_eq!(get_textual_path("/tmp/a.log", None, false), "/tmp/a.log")
}

#[test]
fn test_get_textual_path_bad_base_path() {
    assert_eq!(
        get_textual_path("/tmp/a.log", Some("/unrelated"), false),
        "/tmp/a.log"
    )
}

#[test]
fn test_get_textual_path_no_base_path_compression() {
    assert_eq!(get_textual_path("/tmp/a.log", None, true), "/tmp/a.log.gz")
}

#[test]
fn test_get_textual_path_subdir() {
    assert_eq!(get_textual_path("/tmp/a/b.log", Some("/tmp"), false), "./a/b.log")
}

#[test]
fn test_get_textual_path_base_path_has_subdir() {
    assert_eq!(get_textual_path("/tmp/a/b.log", Some("/tmp/a"), false), "./b.log")
}

#[test]
fn test_should_compress_file() {
    assert!(should_compress_file("/tmp/a.log"))
}

#[test]
fn test_should_not_compress_file() {
    assert!(!should_compress_file("/tmp/a.ioym"))
}

#[test]
fn main_test_get_textual_path_simple() {
    assert_eq!(get_textual_path("C:\\a.log", Some("C:\\"), false), ".\\a.log")
}

#[test]
fn main_test_get_textual_path_compression() {
    assert_eq!(get_textual_path("C:\\a.log", Some("C:\\"), true), ".\\a.log.gz")
}

#[test]
fn main_test_get_textual_path_no_base_path() {
    assert_eq!(get_textual_path("C:\\a.log", None, false), "C:\\a.log")
}

#[test]
fn main_test_get_textual_path_no_base_path_compression() {
    assert_eq!(get_textual_path("C:\\a.log", None, true), "C:\\a.log.gz")
}

#[test]
fn main_test_get_textual_path_subdir() {
    assert_eq!(get_textual_path("C:\\a\\b.log", Some("C:\\"), false), ".\\a\\b.log")
}

#[test]
fn main_test_get_textual_path_base_path_has_subdir() {
    assert_eq!(get_textual_path("C:\\a\\b.log", Some("C:\\a"), false), ".\\b.log")
}

#[test]
fn main_test_should_compress_file() {
    assert!(should_compress_file("C:\\a.log"))
}

#[test]
fn main_test_should_not_compress_file() {
    assert!(!should_compress_file("C:\\a.ioym"))
}

#[test]
fn compressed_archive_keeps_its_name() {
    let compress = should_compress_file("/tmp/a.tar.gz");
    assert!(!compress);
    assert_eq!(get_textual_path("/tmp/a.tar.gz", Some("/tmp"), compress), "./a.tar.gz");
}

#[test]
fn compressible_file_gets_suffix_under_root() {
    let compress = should_compress_file("/tmp/a.log");
    assert_eq!(get_textual_path("/tmp/a.log", Some("/tmp"), compress), "./a.log.gz");
}

#[test]
fn every_compressed_extension_is_kept() {
    for ext in ["zip", "gz", "bz2", "xz", "zst", "tgz", "tbz2", "txz", "ioym", "br"] {
        assert!(!should_compress_file(&format!("/data/file.{}", ext)), "{}", ext);
    }
    assert!(should_compress_file("/data/file.txt"));
    assert!(should_compress_file("/data/noext"));
    assert!(should_compress_file("/data/.gz"));
    assert!(should_compress_file("/data.gz/file"));
}

#[test]
fn base_with_trailing_separator_and_repeated_separators() {
    assert_eq!(get_textual_path("/tmp//a.log", Some("/tmp/"), false), "./a.log");
    assert_eq!(get_textual_path("/tmp/a.log", Some("/"), false), "./tmp/a.log");
}

#[test]
fn relative_base_does_not_match_rooted_path() {
    assert_eq!(get_textual_path("/tmp/a.log", Some("tmp"), false), "/tmp/a.log");
    assert_eq!(get_textual_path("/tmpx/a.log", Some("/tmp"), false), "/tmpx/a.log");
}
