use idmnoads::urls::{clipboard_capture, has_download_extension, is_downloadable_url, trim};

#[test]
fn downloadable_urls() {
    assert!(is_downloadable_url("https://example.com/file.zip"));
    assert!(is_downloadable_url("http://example.com/a/b/setup.EXE"));
    assert!(is_downloadable_url("ftp://host/archive.tar.gz"));
    assert!(is_downloadable_url("https://h/video.MKV?token=abc#t=5"));
    assert!(!is_downloadable_url("https://example.com/page.html"));
    assert!(!is_downloadable_url("https://example.com/?file=a.zip"));
    assert!(!is_downloadable_url("file:///tmp/a.zip"));
    assert!(!is_downloadable_url("HTTP://example.com/a.zip"));
    assert!(!is_downloadable_url("example.com/a.zip"));
    assert!(!is_downloadable_url(""));
}

#[test]
fn extension_list() {
    for e in [".zip", ".rar", ".7z", ".exe", ".msi", ".mp4", ".mkv", ".mp3", ".flac", ".pdf", ".iso", ".apk", ".dmg", ".tar", ".gz", ".doc", ".docx", ".xls", ".xlsx"] {
        assert!(has_download_extension(&format!("name{e}")), "{e}");
    }
    assert!(!has_download_extension("name.txt"));
    assert!(!has_download_extension("zip"));
}

#[test]
fn trim_matches_std() {
    for s in ["  a b  ", "\t\n x \r\n", "", "   ", "\u{3000}y\u{a0}", "\u{2002}z\u{200b}", "no"] {
        assert_eq!(trim(s), s.trim(), "input {s:?}");
    }
}

#[test]
fn trim_idempotent_law() {
    let once = trim("  \u{85}http://h/a.zip \u{2029}");
    assert_eq!(trim(&once), once);
}

#[test]
fn clipboard_capture_cases() {
    assert_eq!(clipboard_capture("", "  https://h/a.zip \n"), Some("https://h/a.zip".to_string()));
    assert_eq!(clipboard_capture("https://h/a.zip", "https://h/a.zip"), None);
    assert_eq!(clipboard_capture("", "just some text"), None);
}

#[test]
fn clipboard_no_repeat_law() {
    let text = " https://h/b.iso ";
    let first = clipboard_capture("", text).unwrap();
    assert_eq!(clipboard_capture(&first, text), None);
}
