use idmnoads::commands::{
    download_options, first_file_path, global_options, limit_string, open_command,
    reveal_command, torrent_options,
};
use idmnoads::json::Json;
use idmnoads::settings::Settings;

fn s(x: &str) -> Json {
    Json::Str(x.to_string())
}

fn obj(members: Vec<(&str, Json)>) -> Json {
    Json::Obj(members.into_iter().map(|(k, v)| (k.to_string(), v)).collect())
}

#[test]
fn download_options_defaults() {
    let st = Settings::defaults("/dl".to_string());
    assert_eq!(
        download_options(&st, None, None),
        obj(vec![
            ("split", Json::UInt(16)),
            ("max-connection-per-server", Json::UInt(16)),
            ("dir", s("/dl")),
        ])
    );
}

#[test]
fn download_options_clamp_and_limits() {
    let mut st = Settings::defaults(String::new());
    st.speed_limit = 250;
    assert_eq!(
        download_options(&st, Some(""), Some(100)),
        obj(vec![
            ("split", Json::UInt(32)),
            ("max-connection-per-server", Json::UInt(32)),
            ("max-download-limit", s("250K")),
        ])
    );
    assert_eq!(
        download_options(&st, Some("/other"), Some(0)),
        obj(vec![
            ("split", Json::UInt(1)),
            ("max-connection-per-server", Json::UInt(1)),
            ("dir", s("/other")),
            ("max-download-limit", s("250K")),
        ])
    );
}

#[test]
fn torrent_options_cases() {
    assert_eq!(torrent_options(&Settings::defaults(String::new())), Json::Obj(vec![]));
    assert_eq!(torrent_options(&Settings::defaults("/t".into())), obj(vec![("dir", s("/t"))]));
}

#[test]
fn global_options_cases() {
    let mut st = Settings::defaults(String::new());
    assert_eq!(
        global_options(&st),
        obj(vec![
            ("max-concurrent-downloads", s("5")),
            ("max-overall-download-limit", s("0")),
            ("all-proxy", s("")),
        ])
    );
    st.speed_limit = 1024;
    st.max_concurrent = 3;
    st.proxy = "socks".into();
    assert_eq!(
        global_options(&st),
        obj(vec![
            ("max-concurrent-downloads", s("3")),
            ("max-overall-download-limit", s("1024K")),
            ("all-proxy", s("socks")),
        ])
    );
}

#[test]
fn limit_string_value() {
    assert_eq!(limit_string(64), "64K");
}

#[test]
fn first_file_path_cases() {
    let status = obj(vec![("files", Json::Arr(vec![obj(vec![("path", s("/d/f.zip"))])]))]);
    assert_eq!(first_file_path(&status), Ok("/d/f.zip".to_string()));
    let empty = obj(vec![("files", Json::Arr(vec![obj(vec![("path", s(""))])]))]);
    assert_eq!(first_file_path(&empty), Err("file path unknown".to_string()));
    assert_eq!(first_file_path(&Json::Null), Err("file path unknown".to_string()));
}

#[test]
fn open_and_reveal_commands() {
    let o = open_command("https://x/y", true);
    assert_eq!(o.program, "cmd");
    assert_eq!(o.args, vec!["/C", "start", "", "https://x/y"]);
    let o = open_command("https://x/y", false);
    assert_eq!(o.program, "xdg-open");
    assert_eq!(o.args, vec!["https://x/y"]);
    let r = reveal_command("C:\\d\\f.zip", None, true);
    assert_eq!(r.program, "explorer");
    assert_eq!(r.args, vec!["/select,C:\\d\\f.zip"]);
    let r = reveal_command("/d/f.zip", Some("/d"), false);
    assert_eq!((r.program.as_str(), r.args), ("xdg-open", vec!["/d".to_string()]));
    let r = reveal_command("f.zip", None, false);
    assert_eq!(r.args, vec!["."]);
}
