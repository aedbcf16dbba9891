use velocity_engine::download::DownloadCategory;
use velocity_engine::download_identity::{
    apply_detected_extension, classify_category, extract_host, extract_url_host, suggested_name_from_url,
};

#[test]
fn decodes_percent_encoded_url_filenames() {
    assert_eq!(
        suggested_name_from_url("https://example.com/files/Rust%20v262%20Build%2003052026.part01.rar"),
        "Rust v262 Build 03052026.part01.rar"
    );
}

#[test]
fn strips_invisible_unicode_from_query_hints() {
    assert_eq!(
        suggested_name_from_url("https://example.com/download?file=file%E2%80%8Bname%EF%BB%BF.zip"),
        "filename.zip"
    );
}

#[test]
fn url_without_a_path_name_falls_back_to_its_last_text_part() {
    assert_eq!(suggested_name_from_url("https://example.com/"), "example.com");
    assert_eq!(suggested_name_from_url(""), "download.bin");
}

#[test]
fn host_is_read_lower_cased_from_the_url() {
    assert_eq!(extract_url_host("https://CDN.Example.com:8443/a/b.zip"), Some("cdn.example.com".to_string()));
    assert_eq!(extract_host("not a url"), "unknown-host");
}

#[test]
fn categories_follow_the_extension() {
    assert_eq!(classify_category("setup.EXE"), DownloadCategory::Programs);
    assert_eq!(classify_category("movie.mkv"), DownloadCategory::Videos);
    assert_eq!(classify_category("archive.tar.gz"), DownloadCategory::Compressed);
    assert_eq!(classify_category("notes"), DownloadCategory::Documents);
}

#[test]
fn manual_name_takes_the_detected_extension() {
    assert_eq!(apply_detected_extension("report", Some("remote.pdf")), "report.pdf");
    assert_eq!(apply_detected_extension("report.txt", Some("remote.pdf")), "report.txt");
}
