use s3grep::keys::has_gzip_suffix;
use s3grep::keys::is_container_key;

#[test]
fn container_keys_end_in_the_separator() {
    assert!(is_container_key("logs/"));
    assert!(is_container_key("a/b/c/"));
    assert!(!is_container_key("logs/app.log"));
    assert!(!is_container_key(""));
    assert!(!is_container_key("noslash"));
}

#[test]
fn gzip_suffix_detection() {
    assert!(has_gzip_suffix("a/b.log.gz"));
    assert!(has_gzip_suffix(".gz"));
    assert!(!has_gzip_suffix("a/b.log"));
    assert!(!has_gzip_suffix("gz"));
    assert!(!has_gzip_suffix("a.gz.txt"));
}
