use idmnoads::aria2::{
    basename, num_field, push_items, removal_followups, result_text, rpc_result, str_field,
    to_download, Aria2, Call, Download,
};
use idmnoads::json::Json;

fn s(x: &str) -> Json {
    Json::Str(x.to_string())
}

fn obj(members: Vec<(&str, Json)>) -> Json {
    Json::Obj(members.into_iter().map(|(k, v)| (k.to_string(), v)).collect())
}

#[test]
fn basename_cases() {
    assert_eq!(basename("http://host/dir/file.zip?x=1#frag"), "file.zip");
    assert_eq!(basename("C:\\Users\\me\\Downloads\\movie.mkv"), "movie.mkv");
    assert_eq!(basename("mixed/dir\\name.iso"), "name.iso");
    assert_eq!(basename("plain"), "plain");
    assert_eq!(basename("http://host/dir/"), "");
    assert_eq!(basename("a#b/c?d"), "a");
    assert_eq!(basename(""), "");
}

#[test]
fn basename_idempotent_law() {
    for x in ["http://h/a/b.zip?q", "x\\y\\z", "", "/", "name#frag"] {
        let b = basename(x);
        assert_eq!(basename(&b), b);
        assert!(!b.contains(['/', '\\', '?', '#']));
    }
}

#[test]
fn str_and_num_fields() {
    let v = obj(vec![
        ("gid", s("abc")),
        ("totalLength", s("1048576")),
        ("completedLength", Json::UInt(77)),
        ("downloadSpeed", s("not a number")),
        ("dir", Json::UInt(5)),
    ]);
    assert_eq!(str_field(&v, "gid"), "abc");
    assert_eq!(str_field(&v, "dir"), "");
    assert_eq!(str_field(&v, "missing"), "");
    assert_eq!(num_field(&v, "totalLength"), 1048576);
    assert_eq!(num_field(&v, "completedLength"), 77);
    assert_eq!(num_field(&v, "downloadSpeed"), 0);
    assert_eq!(num_field(&v, "missing"), 0);
    assert_eq!(num_field(&Json::Null, "gid"), 0);
}

#[test]
fn to_download_prefers_torrent_name() {
    let v = obj(vec![
        ("gid", s("g1")),
        ("status", s("active")),
        ("totalLength", s("100")),
        ("completedLength", s("50")),
        ("downloadSpeed", s("10")),
        ("dir", s("/tmp")),
        ("bittorrent", obj(vec![("info", obj(vec![("name", s("ubuntu.iso"))]))])),
        (
            "files",
            Json::Arr(vec![obj(vec![
                ("path", s("/tmp/other.bin")),
                ("uris", Json::Arr(vec![obj(vec![("uri", s("http://h/x.bin"))])])),
            ])]),
        ),
    ]);
    let d = to_download(&v);
    assert_eq!(
        d,
        Download {
            gid: "g1".into(),
            name: "ubuntu.iso".into(),
            url: "http://h/x.bin".into(),
            total: 100,
            completed: 50,
            speed: 10,
            status: "active".into(),
            dir: "/tmp".into(),
        }
    );
}

#[test]
fn to_download_uses_path_then_url_then_gid() {
    let with_path = obj(vec![
        ("gid", s("g2")),
        ("files", Json::Arr(vec![obj(vec![("path", s("/d/file.pdf"))])])),
    ]);
    assert_eq!(to_download(&with_path).name, "file.pdf");
    assert_eq!(to_download(&with_path).url, "");

    let with_url = obj(vec![
        ("gid", s("g3")),
        (
            "files",
            Json::Arr(vec![obj(vec![
                ("path", s("")),
                ("uris", Json::Arr(vec![obj(vec![("uri", s("https://h/p/a.mp3?t=1"))])])),
            ])]),
        ),
    ]);
    let d = to_download(&with_url);
    assert_eq!(d.name, "a.mp3");
    assert_eq!(d.url, "https://h/p/a.mp3?t=1");

    let bare = obj(vec![("gid", s("2089b05ecca3d829"))]);
    assert_eq!(to_download(&bare).name, "download-2089b05ecca3d829");
    assert_eq!(to_download(&bare).total, 0);
}

#[test]
fn push_items_appends_each_entry() {
    let mut out = vec![to_download(&obj(vec![("gid", s("first"))]))];
    let list = Json::Arr(vec![obj(vec![("gid", s("a"))]), obj(vec![("gid", s("b"))])]);
    push_items(&list, &mut out);
    let gids: Vec<_> = out.iter().map(|d| d.gid.clone()).collect();
    assert_eq!(gids, vec!["first", "a", "b"]);
    push_items(&Json::Null, &mut out);
    assert_eq!(out.len(), 3);
}

#[test]
fn aria2_endpoint_and_token() {
    let a = Aria2::new(6800, "s3cret");
    assert_eq!(a.url(), "http://127.0.0.1:6800/jsonrpc");
    assert_eq!(a.token(), "token:s3cret");
}

#[test]
fn request_body_carries_token_first() {
    let a = Aria2::new(6800, "k");
    let r = a.request(Call::Pause("gid7".to_string()));
    assert_eq!(
        r,
        obj(vec![
            ("jsonrpc", s("2.0")),
            ("id", s("idmnoads")),
            ("method", s("aria2.pause")),
            ("params", Json::Arr(vec![s("token:k"), s("gid7")])),
        ])
    );
}

#[test]
fn request_params_of_each_call() {
    let a = Aria2::new(1, "t");
    let params = |c: Call| match a.request(c) {
        Json::Obj(m) => match &m[3].1 {
            Json::Arr(p) => (m[2].1.clone_str(), p.len()),
            _ => panic!("params"),
        },
        _ => panic!("object"),
    };
    assert_eq!(params(Call::GetVersion), ("aria2.getVersion".into(), 1));
    assert_eq!(
        params(Call::AddUri { uris: vec!["u".into()], options: Json::Obj(vec![]) }),
        ("aria2.addUri".into(), 3)
    );
    assert_eq!(
        params(Call::AddTorrent { torrent: "b64".into(), options: Json::Obj(vec![]) }),
        ("aria2.addTorrent".into(), 4)
    );
    assert_eq!(params(Call::TellWaiting), ("aria2.tellWaiting".into(), 4));
    assert_eq!(params(Call::TellStopped), ("aria2.tellStopped".into(), 4));
    assert_eq!(params(Call::TellActive), ("aria2.tellActive".into(), 2));
    assert_eq!(params(Call::PurgeDownloadResult), ("aria2.purgeDownloadResult".into(), 1));
}

trait CloneStr {
    fn clone_str(&self) -> String;
}

impl CloneStr for Json {
    fn clone_str(&self) -> String {
        match self {
            Json::Str(x) => x.clone(),
            _ => panic!("not a string"),
        }
    }
}

#[test]
fn tell_waiting_asks_for_the_listing_keys() {
    let a = Aria2::new(1, "t");
    let r = a.request(Call::TellWaiting);
    let keys = Json::Arr(
        ["gid", "status", "totalLength", "completedLength", "downloadSpeed", "dir", "files", "bittorrent", "errorMessage"]
            .iter()
            .map(|k| s(k))
            .collect(),
    );
    match r {
        Json::Obj(m) => assert_eq!(
            m[3].1,
            Json::Arr(vec![s("token:t"), Json::UInt(0), Json::UInt(1000), keys])
        ),
        _ => panic!("object"),
    }
}

#[test]
fn rpc_result_cases() {
    let ok = obj(vec![("id", s("x")), ("result", s("2089b05ecca3d829"))]);
    assert_eq!(rpc_result(ok), Ok(s("2089b05ecca3d829")));
    let no_result = obj(vec![("id", s("x"))]);
    assert_eq!(rpc_result(no_result), Ok(Json::Null));
    let err = obj(vec![("error", obj(vec![("code", Json::UInt(1)), ("message", s("Unauthorized"))]))]);
    assert_eq!(rpc_result(err), Err("Unauthorized".to_string()));
    let err_no_msg = obj(vec![("error", Json::Null), ("result", s("ignored"))]);
    assert_eq!(rpc_result(err_no_msg), Err("aria2 error".to_string()));
}

#[test]
fn result_text_cases() {
    assert_eq!(result_text(&s("gid")), "gid");
    assert_eq!(result_text(&Json::UInt(3)), "");
}

#[test]
fn removal_followups_cases() {
    assert_eq!(
        removal_followups("g", true),
        vec![Call::ForceRemove("g".into()), Call::RemoveDownloadResult("g".into())]
    );
    assert_eq!(removal_followups("g", false), vec![Call::RemoveDownloadResult("g".into())]);
}
