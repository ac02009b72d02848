use idmnoads::ipc::{
    capture_headers, capture_message, capture_reply, capture_request, config_reply, host_reply,
    route_message, Route,
};
use idmnoads::json::Json;
use idmnoads::settings::Settings;

fn s(x: &str) -> Json {
    Json::Str(x.to_string())
}

fn obj(members: Vec<(&str, Json)>) -> Json {
    Json::Obj(members.into_iter().map(|(k, v)| (k.to_string(), v)).collect())
}

#[test]
fn config_request_gets_secret_and_port() {
    let mut st = Settings::defaults(String::new());
    st.rpc_secret = "abcd".into();
    let r = route_message(&obj(vec![("type", s("get-config"))]), &st);
    assert_eq!(
        r,
        Route::Reply(obj(vec![("type", s("config")), ("secret", s("abcd")), ("port", Json::UInt(6800))]))
    );
    assert_eq!(config_reply("abcd"), obj(vec![("type", s("config")), ("secret", s("abcd")), ("port", Json::UInt(6800))]));
}

#[test]
fn capture_without_url_is_refused() {
    let st = Settings::defaults(String::new());
    let r = route_message(&obj(vec![("type", s("download")), ("url", s(""))]), &st);
    assert_eq!(r, Route::Reply(obj(vec![("ok", Json::Bool(false)), ("error", s("missing url"))])));
    assert_eq!(capture_request(&Json::Null, &st), Err("missing url".to_string()));
}

#[test]
fn capture_builds_options() {
    let mut st = Settings::defaults("/dl".to_string());
    st.connections = 8;
    st.speed_limit = 100;
    let msg = obj(vec![
        ("url", s("https://h/f.zip")),
        ("cookies", s("a=1; b=2")),
        ("referrer", s("https://h/page")),
        ("filename", s("f.zip")),
        ("headers", obj(vec![("Accept", s("*/*")), ("X-Num", Json::UInt(3)), ("User-Agent", s("UA"))])),
    ]);
    let r = route_message(&msg, &st);
    let expected_opts = obj(vec![
        ("split", Json::UInt(8)),
        ("max-connection-per-server", Json::UInt(8)),
        ("dir", s("/dl")),
        ("out", s("f.zip")),
        (
            "header",
            Json::Arr(vec![s("Cookie: a=1; b=2"), s("Referer: https://h/page"), s("Accept: */*"), s("User-Agent: UA")]),
        ),
        ("max-download-limit", s("100K")),
    ]);
    assert_eq!(r, Route::Add { url: "https://h/f.zip".into(), options: expected_opts });
}

#[test]
fn capture_minimal_options() {
    let st = Settings::defaults(String::new());
    let msg = obj(vec![("url", s("http://x/y")), ("cookies", s("")), ("filename", s(""))]);
    match capture_request(&msg, &st) {
        Ok((url, opts)) => {
            assert_eq!(url, "http://x/y");
            assert_eq!(opts, obj(vec![("split", Json::UInt(16)), ("max-connection-per-server", Json::UInt(16))]));
        }
        Err(e) => panic!("{e}"),
    }
    assert_eq!(capture_headers(&msg), Vec::<String>::new());
}

#[test]
fn replies() {
    assert_eq!(capture_reply(None), obj(vec![("ok", Json::Bool(true))]));
    assert_eq!(capture_reply(Some("boom")), obj(vec![("ok", Json::Bool(false)), ("error", s("boom"))]));
    assert_eq!(host_reply(None), obj(vec![("ok", Json::Bool(true))]));
    assert_eq!(
        host_reply(Some("pipe missing")),
        obj(vec![
            ("ok", Json::Bool(false)),
            ("title", s("IDM No Ads")),
            ("notify", s("IDM No Ads desktop app isn't running (pipe missing). Open it and try the download again.")),
        ])
    );
    assert_eq!(capture_message("http://a/b.zip"), obj(vec![("url", s("http://a/b.zip"))]));
}
