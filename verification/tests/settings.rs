use idmnoads::daemon::{aria2_args, aria2_candidates, choose_candidate};
use idmnoads::settings::{default_download_dir, hex_string, random_secret, Settings, RPC_PORT};

#[test]
fn defaults_are_as_documented() {
    let s = Settings::defaults("/home/me/Downloads".to_string());
    assert_eq!(s.max_concurrent, 5);
    assert_eq!(s.connections, 16);
    assert_eq!(s.speed_limit, 0);
    assert_eq!(s.default_dir, "/home/me/Downloads");
    assert_eq!(s.proxy, "");
    assert!(!s.clipboard_watch && !s.autostart && s.minimize_to_tray && !s.scheduler_enabled);
    assert_eq!(s.schedule_start, "01:00");
    assert_eq!(s.schedule_stop, "08:00");
    assert_eq!(
        s.filetypes,
        vec!["mp4", "mkv", "mp3", "flac", "pdf", "zip", "rar", "7z", "exe", "msi", "apk", "iso", "doc", "docx", "xls", "xlsx"]
    );
    assert_eq!(s.language, "en");
    assert_eq!(s.theme, "dark");
    assert_eq!(s.rpc_secret, "");
    assert!(!s.browser_prompt_shown);
    assert_eq!(RPC_PORT, 6800);
}

#[test]
fn default_download_dir_joins_like_path_join() {
    assert_eq!(default_download_dir(Some("/home/me"), false), "/home/me/Downloads");
    assert_eq!(default_download_dir(Some("/home/me/"), false), "/home/me/Downloads");
    assert_eq!(default_download_dir(Some(""), false), "Downloads");
    assert_eq!(default_download_dir(None, false), "");
    assert_eq!(default_download_dir(Some("C:\\Users\\me"), true), "C:\\Users\\me\\Downloads");
    assert_eq!(default_download_dir(Some("C:\\Users\\me\\"), true), "C:\\Users\\me\\Downloads");
    assert_eq!(default_download_dir(Some("C:"), true), "C:Downloads");
    assert_eq!(default_download_dir(Some("dir\\"), false), "dir\\/Downloads");
}

#[test]
fn default_download_dir_agrees_with_std_on_this_platform() {
    let windows = std::path::MAIN_SEPARATOR == '\\';
    for home in ["/home/me", "/home/me/", "", "rel", "/"] {
        let expected = std::path::Path::new(home).join("Downloads").to_string_lossy().to_string();
        assert_eq!(default_download_dir(Some(home), windows), expected);
    }
}

#[test]
fn hex_string_is_lowercase_two_digits() {
    assert_eq!(hex_string(&[0x00, 0x0f, 0xa0, 0xff]), "000fa0ff");
    assert_eq!(hex_string(&[]), "");
}

#[test]
fn random_secret_shape() {
    let a = random_secret();
    let b = random_secret();
    assert_eq!(a.len(), 32);
    assert!(a.chars().all(|c| c.is_ascii_digit() || ('a'..='f').contains(&c)));
    assert_ne!(a, b);
}

#[test]
fn ensure_rpc_secret_generates_once() {
    let mut s = Settings::defaults(String::new());
    assert!(s.ensure_rpc_secret());
    let first = s.rpc_secret.clone();
    assert_eq!(first.len(), 32);
    assert!(!s.ensure_rpc_secret());
    assert_eq!(s.rpc_secret, first);
    let mut t = Settings::defaults(String::new());
    t.rpc_secret = "kept".into();
    assert!(!t.ensure_rpc_secret());
    assert_eq!(t.rpc_secret, "kept");
}

#[test]
fn aria2_args_for_defaults() {
    let mut s = Settings::defaults(String::new());
    s.rpc_secret = "abc".into();
    assert_eq!(
        aria2_args(&s),
        vec![
            "--enable-rpc",
            "--rpc-listen-all=false",
            "--rpc-listen-port=6800",
            "--rpc-secret=abc",
            "--rpc-allow-origin-all",
            "--continue=true",
            "--file-allocation=none",
            "--min-split-size=1M",
            "--split=16",
            "--max-connection-per-server=16",
            "--max-concurrent-downloads=5",
        ]
    );
}

#[test]
fn aria2_args_with_dir_limit_and_proxy() {
    let mut s = Settings::defaults("D:\\dl".to_string());
    s.rpc_secret = "x".into();
    s.max_concurrent = 12;
    s.speed_limit = 512;
    s.proxy = "http://proxy:8080".into();
    let args = aria2_args(&s);
    assert_eq!(args[10], "--max-concurrent-downloads=12");
    assert_eq!(&args[11..], &["--dir=D:\\dl", "--max-overall-download-limit=512K", "--all-proxy=http://proxy:8080"]);
}

#[test]
fn candidates_and_choice() {
    assert_eq!(aria2_candidates(true), vec!["aria2c.exe", "aria2c-x86_64-pc-windows-msvc.exe"]);
    assert_eq!(aria2_candidates(false), vec!["aria2c", "aria2c-x86_64-unknown-linux-gnu"]);
    assert_eq!(choose_candidate(&vec![false, true]), 1);
    assert_eq!(choose_candidate(&vec![true, true]), 0);
    assert_eq!(choose_candidate(&vec![false, false]), 0);
    assert_eq!(choose_candidate(&vec![]), 0);
}
