//! The options that the frontend's commands hand to aria2.
use vstd::prelude::*;
use crate::json::{
    Json, JsonV, push_member, obj_view, str_in, get_in, first_in, get_opt, str_of, first_of,
    arr_of, or_empty,
};
use crate::settings::{Settings, texts, push_text, concat};
use crate::text::{decimal, push_decimal};
use crate::json::{get_v, lemma_member_at, lemma_member_absent};

verus! {

/// The number of connections to use: the one asked for, else the default,
/// kept within 1..=32.
pub open spec fn connections_v(asked: Option<u32>, default: u32) -> u32 {
    let c = match asked {
        Some(c) => c,
        None => default,
    };
    if c < 1 {
        1
    } else if c > 32 {
        32
    } else {
        c
    }
}

/// The folder to download into: the one asked for unless it is empty, else
/// the default.
pub open spec fn target_dir_v(asked: Option<Seq<char>>, default: Seq<char>) -> Seq<char> {
    match asked {
        Some(d) => if d.len() > 0 {
            d
        } else {
            default
        },
        None => default,
    }
}

/// A speed limit in KB/s as aria2 reads it: the number and `K`.
pub open spec fn limit_text(kbps: u64) -> Seq<char> {
    decimal(kbps as nat) + "K"@
}

/// The member `k: v`, present only when `present` holds.
pub open spec fn optional_member(present: bool, k: Seq<char>, v: JsonV) -> Seq<(Seq<char>, JsonV)> {
    if present {
        seq![(k, v)]
    } else {
        Seq::empty()
    }
}

/// The aria2 options of a download added from the frontend.
pub open spec fn download_options_v(conn: u32, dir: Seq<char>, speed_limit: u64) -> JsonV {
    JsonV::Obj(
        seq![("split"@, JsonV::UInt(conn as u64)), ("max-connection-per-server"@, JsonV::UInt(conn as u64))]
            + optional_member(dir.len() > 0, "dir"@, JsonV::Str(dir))
            + optional_member(speed_limit > 0, "max-download-limit"@, JsonV::Str(limit_text(speed_limit))),
    )
}

/// The text `decimal(kbps)` and `K`.
pub fn limit_string(kbps: u64) -> (r: String)
    ensures
        r@ == limit_text(kbps),
{
    let mut r = String::new();
    push_decimal(&mut r, kbps);
    r.append("K");
    r
}

/// The aria2 options of a download that the frontend adds, with the folder
/// and connection count that it asks for, if any.
pub fn download_options(s: &Settings, dir: Option<&str>, connections: Option<u32>) -> (r: Json)
    ensures
        r@ == download_options_v(
            connections_v(connections, s.connections),
            target_dir_v(
                match dir {
                    Some(d) => Some(d@),
                    None => None,
                },
                s.default_dir@,
            ),
            s.speed_limit,
        ),
        1 <= connections_v(connections, s.connections) <= 32,
{
    let c = match connections {
        Some(c) => c,
        None => s.connections,
    };
    let conn: u32 = if c < 1 {
        1
    } else if c > 32 {
        32
    } else {
        c
    };
    let target: &str = match dir {
        Some(d) => if d.unicode_len() > 0 {
            d
        } else {
            s.default_dir.as_str()
        },
        None => s.default_dir.as_str(),
    };
    let mut m: Vec<(String, Json)> = Vec::new();
    assert(obj_view(m@) =~= Seq::<(Seq<char>, JsonV)>::empty());
    push_member(&mut m, "split", Json::UInt(conn as u64));
    push_member(&mut m, "max-connection-per-server", Json::UInt(conn as u64));
    if target.unicode_len() > 0 {
        push_member(&mut m, "dir", Json::string(target));
    }
    if s.speed_limit > 0 {
        push_member(&mut m, "max-download-limit", Json::Str(limit_string(s.speed_limit)));
    }
    let ghost mv = obj_view(m@);
    let r = Json::Obj(m);
    assert(mv =~= download_options_v(conn, target@, s.speed_limit)->Obj_0);
    r
}

/// The aria2 options of a torrent added from the frontend.
pub open spec fn torrent_options_v(dir: Seq<char>) -> JsonV {
    JsonV::Obj(optional_member(dir.len() > 0, "dir"@, JsonV::Str(dir)))
}

/// The aria2 options of a torrent that the frontend adds: the default folder,
/// when there is one.
pub fn torrent_options(s: &Settings) -> (r: Json)
    ensures
        r@ == torrent_options_v(s.default_dir@),
{
    let mut m: Vec<(String, Json)> = Vec::new();
    assert(obj_view(m@) =~= Seq::<(Seq<char>, JsonV)>::empty());
    if s.default_dir.as_str().unicode_len() > 0 {
        push_member(&mut m, "dir", Json::string(s.default_dir.as_str()));
    }
    let ghost mv = obj_view(m@);
    let r = Json::Obj(m);
    assert(mv =~= torrent_options_v(s.default_dir@)->Obj_0);
    r
}

/// The global aria2 options that saving the settings pushes to the daemon.
pub open spec fn global_options_v(s: Settings) -> JsonV {
    JsonV::Obj(
        seq![
            ("max-concurrent-downloads"@, JsonV::Str(decimal(s.max_concurrent as nat))),
            (
                "max-overall-download-limit"@,
                JsonV::Str(
                    if s.speed_limit > 0 {
                        limit_text(s.speed_limit)
                    } else {
                        "0"@
                    },
                ),
            ),
            ("all-proxy"@, JsonV::Str(s.proxy@)),
        ],
    )
}

/// The global aria2 options that saving the settings pushes to the daemon;
/// an empty proxy clears one set before.
pub fn global_options(s: &Settings) -> (r: Json)
    ensures
        r@ == global_options_v(*s),
{
    let mut m: Vec<(String, Json)> = Vec::new();
    assert(obj_view(m@) =~= Seq::<(Seq<char>, JsonV)>::empty());
    let mut mc = String::new();
    push_decimal(&mut mc, s.max_concurrent as u64);
    push_member(&mut m, "max-concurrent-downloads", Json::Str(mc));
    let lim = if s.speed_limit > 0 {
        limit_string(s.speed_limit)
    } else {
        String::from_str("0")
    };
    push_member(&mut m, "max-overall-download-limit", Json::Str(lim));
    push_member(&mut m, "all-proxy", Json::string(s.proxy.as_str()));
    let ghost mv = obj_view(m@);
    let r = Json::Obj(m);
    assert(mv =~= global_options_v(*s)->Obj_0);
    r
}

/// The path of the first file of an aria2 status, if it is known and not
/// empty.
pub open spec fn first_file_path_v(status: JsonV) -> Result<Seq<char>, Seq<char>> {
    let p = or_empty(str_of(get_opt(first_of(arr_of(get_opt(Some(status), "files"@))), "path"@)));
    if p.len() == 0 {
        Err("file path unknown"@)
    } else {
        Ok(p)
    }
}

/// The path of the first file of an aria2 status, which opening a download
/// reveals; an error when it is unknown.
pub fn first_file_path(status: &Json) -> (r: Result<String, String>)
    ensures
        match r {
            Ok(p) => first_file_path_v(status@) == Ok::<Seq<char>, Seq<char>>(p@),
            Err(e) => first_file_path_v(status@) == Err::<Seq<char>, Seq<char>>(e@),
        },
{
    match str_in(get_in(first_in(get_in(Some(status), "files")), "path")) {
        Some(p) => if p.unicode_len() > 0 {
            return Ok(String::from_str(p));
        },
        None => {},
    }
    Err(String::from_str("file path unknown"))
}


/// Law: a download added from the frontend uses the connection count that it
/// asks for, else the default, brought into 1..=32: a count asked within
/// that range is used unchanged, a larger one becomes 32 and 0 becomes 1, for
/// both `split` and `max-connection-per-server`.
pub proof fn lemma_download_connections(
    asked: Option<u32>,
    default: u32,
    dir: Seq<char>,
    speed_limit: u64,
)
    ensures
        ({
            let n: u32 = match asked {
                Some(c) => c,
                None => default,
            };
            let opts = download_options_v(connections_v(asked, default), dir, speed_limit);
            let expected: u64 = if n == 0 {
                1
            } else if n > 32 {
                32
            } else {
                n as u64
            };
            &&& get_v(opts, "split"@) == Some(JsonV::UInt(expected))
            &&& get_v(opts, "max-connection-per-server"@) == Some(JsonV::UInt(expected))
        }),
{
    let opts = download_options_v(connections_v(asked, default), dir, speed_limit);
    let m = opts->Obj_0;
    reveal_strlit("split");
    reveal_strlit("max-connection-per-server");
    assert(m[0].0 == "split"@);
    lemma_member_at(m, "split"@, 0);
    assert(m[1].0 == "max-connection-per-server"@);
    assert(m[0].0 != "max-connection-per-server"@);
    lemma_member_at(m, "max-connection-per-server"@, 1);
}

/// Law: a download added from the frontend goes into the folder that it
/// asks for unless that is empty, else into the default folder, and the
/// options name no folder when that is empty too; its speed limit is the
/// settings' limit in KB/s, written as the number and `K`, and absent when
/// the settings set none.
pub proof fn lemma_download_target(s: Settings, dir: Option<Seq<char>>, connections: Option<u32>)
    ensures
        ({
            let opts = download_options_v(
                connections_v(connections, s.connections),
                target_dir_v(dir, s.default_dir@),
                s.speed_limit,
            );
            let target = match dir {
                Some(d) => if d.len() > 0 {
                    d
                } else {
                    s.default_dir@
                },
                None => s.default_dir@,
            };
            &&& target.len() > 0 ==> get_v(opts, "dir"@) == Some(JsonV::Str(target))
            &&& target.len() == 0 ==> get_v(opts, "dir"@) is None
            &&& s.speed_limit > 0 ==> get_v(opts, "max-download-limit"@) == Some(
                JsonV::Str(decimal(s.speed_limit as nat) + "K"@),
            )
            &&& s.speed_limit == 0 ==> get_v(opts, "max-download-limit"@) is None
            &&& opts is Obj
            &&& forall|i: int|
                0 <= i < opts->Obj_0.len() ==> {
                    let k = (#[trigger] opts->Obj_0[i]).0;
                    k == "split"@ || k == "max-connection-per-server"@ || k == "dir"@ || k
                        == "max-download-limit"@
                }
        }),
{
    let opts = download_options_v(
        connections_v(connections, s.connections),
        target_dir_v(dir, s.default_dir@),
        s.speed_limit,
    );
    let m = opts->Obj_0;
    let t = target_dir_v(dir, s.default_dir@);
    reveal_strlit("split");
    reveal_strlit("max-connection-per-server");
    reveal_strlit("dir");
    reveal_strlit("max-download-limit");
    assert("split"@.len() == 5 && "max-connection-per-server"@.len() == 25 && "dir"@.len() == 3
        && "max-download-limit"@.len() == 18);
    assert(m[0].0 == "split"@ && m[1].0 == "max-connection-per-server"@);
    let i_lim: int = if t.len() > 0 { 3int } else { 2int };
    if t.len() > 0 {
        assert(m[2] == ("dir"@, JsonV::Str(t)));
        lemma_member_at(m, "dir"@, 2);
    } else {
        assert forall|j: int| 0 <= j < m.len() implies (#[trigger] m[j]).0 != "dir"@ by {
            if j >= 2 {
                assert(m[j].0 == "max-download-limit"@);
            }
        }
        lemma_member_absent(m, "dir"@);
    }
    if s.speed_limit > 0 {
        assert(m[i_lim] == ("max-download-limit"@, JsonV::Str(limit_text(s.speed_limit))));
        assert forall|j: int| 0 <= j < i_lim implies (#[trigger] m[j]).0 != "max-download-limit"@ by {
            if j == 2 {
                assert(m[j].0 == "dir"@);
            }
        }
        lemma_member_at(m, "max-download-limit"@, i_lim);
    } else {
        assert forall|j: int| 0 <= j < m.len() implies (#[trigger] m[j]).0 != "max-download-limit"@ by {
            if j == 2 {
                assert(m[j].0 == "dir"@);
            }
        }
        lemma_member_absent(m, "max-download-limit"@);
    }
}

/// Law: a torrent added from the frontend goes into the default folder when
/// there is one, and its options are empty otherwise.
pub proof fn lemma_torrent_target(default: Seq<char>)
    ensures
        default.len() > 0 ==> get_v(torrent_options_v(default), "dir"@) == Some(JsonV::Str(default)),
        default.len() == 0 ==> torrent_options_v(default) == JsonV::Obj(Seq::empty()),
{
    let m = torrent_options_v(default)->Obj_0;
    reveal_strlit("dir");
    if default.len() > 0 {
        lemma_member_at(m, "dir"@, 0);
    } else {
        assert(m =~= Seq::<(Seq<char>, JsonV)>::empty());
    }
}

/// Law: saving the settings sets aria2's number of concurrent downloads to
/// the settings' number, its overall speed limit to the settings' limit
/// (the number and `K`, or `0` for none), and its proxy to the settings'
/// proxy, empty to clear it.
pub proof fn lemma_global_options(s: Settings)
    ensures
        get_v(global_options_v(s), "max-concurrent-downloads"@) == Some(
            JsonV::Str(decimal(s.max_concurrent as nat)),
        ),
        s.speed_limit > 0 ==> get_v(global_options_v(s), "max-overall-download-limit"@) == Some(
            JsonV::Str(decimal(s.speed_limit as nat) + "K"@),
        ),
        s.speed_limit == 0 ==> get_v(global_options_v(s), "max-overall-download-limit"@) == Some(
            JsonV::Str("0"@),
        ),
        get_v(global_options_v(s), "all-proxy"@) == Some(JsonV::Str(s.proxy@)),
{
    let m = global_options_v(s)->Obj_0;
    reveal_strlit("max-concurrent-downloads");
    reveal_strlit("max-overall-download-limit");
    reveal_strlit("all-proxy");
    assert("max-concurrent-downloads"@.len() == 24 && "max-overall-download-limit"@.len() == 26
        && "all-proxy"@.len() == 9);
    lemma_member_at(m, "max-concurrent-downloads"@, 0);
    lemma_member_at(m, "max-overall-download-limit"@, 1);
    lemma_member_at(m, "all-proxy"@, 2);
}

/// A program to start and its arguments.
#[derive(Debug, Clone, PartialEq)]
pub struct Launch {
    pub program: String,
    pub args: Vec<String>,
}

/// What opening `target` with the system's default handler starts: on
/// Windows `cmd /C start "" target`, elsewhere `xdg-open target`.
pub open spec fn open_command_v(target: Seq<char>, windows: bool) -> (Seq<char>, Seq<Seq<char>>) {
    if windows {
        ("cmd"@, seq!["/C"@, "start"@, ""@, target])
    } else {
        ("xdg-open"@, seq![target])
    }
}

/// What revealing the file at `path` starts: on Windows the explorer with
/// the file selected; elsewhere `xdg-open` on its folder `parent`, or on `.`
/// when it has none.
pub open spec fn reveal_command_v(path: Seq<char>, parent: Option<Seq<char>>, windows: bool) -> (
    Seq<char>,
    Seq<Seq<char>>,
) {
    if windows {
        ("explorer"@, seq!["/select,"@ + path])
    } else {
        (
            "xdg-open"@,
            seq![
                match parent {
                    Some(p) => p,
                    None => "."@,
                },
            ],
        )
    }
}

/// The program and arguments that open `target` with the default handler.
pub fn open_command(target: &str, windows: bool) -> (r: Launch)
    ensures
        (r.program@, texts(r.args@)) == open_command_v(target@, windows),
{
    let mut args: Vec<String> = Vec::new();
    assert(texts(args@) =~= Seq::<Seq<char>>::empty());
    if windows {
        push_text(&mut args, String::from_str("/C"));
        push_text(&mut args, String::from_str("start"));
        push_text(&mut args, String::from_str(""));
        push_text(&mut args, String::from_str(target));
        assert(texts(args@) =~= seq!["/C"@, "start"@, ""@, target@]);
        Launch { program: String::from_str("cmd"), args }
    } else {
        push_text(&mut args, String::from_str(target));
        assert(texts(args@) =~= seq![target@]);
        Launch { program: String::from_str("xdg-open"), args }
    }
}

/// The program and arguments that reveal the file at `path`, given its
/// folder `parent` (only used off Windows).
pub fn reveal_command(path: &str, parent: Option<&str>, windows: bool) -> (r: Launch)
    ensures
        (r.program@, texts(r.args@)) == reveal_command_v(
            path@,
            match parent {
                Some(p) => Some(p@),
                None => None,
            },
            windows,
        ),
{
    let mut args: Vec<String> = Vec::new();
    assert(texts(args@) =~= Seq::<Seq<char>>::empty());
    if windows {
        push_text(&mut args, concat("/select,", path));
        assert(texts(args@) =~= seq!["/select,"@ + path@]);
        Launch { program: String::from_str("explorer"), args }
    } else {
        let folder = match parent {
            Some(p) => String::from_str(p),
            None => String::from_str("."),
        };
        let ghost f = folder@;
        push_text(&mut args, folder);
        assert(texts(args@) =~= seq![f]);
        Launch { program: String::from_str("xdg-open"), args }
    }
}

} // verus!
