//! Launching the bundled aria2 daemon: where its program is found and the
//! command line that it is given.
use vstd::prelude::*;
use crate::settings::{Settings, RPC_PORT, texts, push_text, concat};
use crate::text::{decimal, push_decimal};

verus! {

/// The file names under which the aria2 program may stand next to the app,
/// in order of preference.
pub open spec fn aria2_candidates_v(windows: bool) -> Seq<Seq<char>> {
    if windows {
        seq!["aria2c.exe"@, "aria2c-x86_64-pc-windows-msvc.exe"@]
    } else {
        seq!["aria2c"@, "aria2c-x86_64-unknown-linux-gnu"@]
    }
}

/// The file names under which the aria2 program may stand next to the app.
pub fn aria2_candidates(windows: bool) -> (r: Vec<String>)
    ensures
        texts(r@) == aria2_candidates_v(windows),
{
    let mut r: Vec<String> = Vec::new();
    assert(texts(r@) =~= Seq::<Seq<char>>::empty());
    if windows {
        push_text(&mut r, String::from_str("aria2c.exe"));
        push_text(&mut r, String::from_str("aria2c-x86_64-pc-windows-msvc.exe"));
    } else {
        push_text(&mut r, String::from_str("aria2c"));
        push_text(&mut r, String::from_str("aria2c-x86_64-unknown-linux-gnu"));
    }
    r
}

/// The index of the first candidate that exists, or 0 when none does.
pub fn choose_candidate(exists: &Vec<bool>) -> (i: usize)
    ensures
        exists@.len() == 0 ==> i == 0,
        exists@.len() > 0 ==> i < exists@.len(),
        exists@.contains(true) ==> exists@[i as int] && forall|j: int| 0 <= j < i ==> !exists@[j],
        !exists@.contains(true) ==> i == 0,
{
    let mut i: usize = 0;
    while i < exists.len()
        invariant
            i <= exists.len(),
            forall|j: int| 0 <= j < i ==> !exists@[j],
        decreases exists.len() - i,
    {
        if exists[i] {
            return i;
        }
        i = i + 1;
    }
    assert forall|j: int| 0 <= j < exists@.len() implies !exists@[j] by {}
    0
}

/// The command line of the aria2 daemon for the given settings.
pub open spec fn aria2_args_v(s: Settings) -> Seq<Seq<char>> {
    seq![
        "--enable-rpc"@,
        "--rpc-listen-all=false"@,
        "--rpc-listen-port="@ + decimal(RPC_PORT as nat),
        "--rpc-secret="@ + s.rpc_secret@,
        "--rpc-allow-origin-all"@,
        "--continue=true"@,
        "--file-allocation=none"@,
        "--min-split-size=1M"@,
        "--split=16"@,
        "--max-connection-per-server=16"@,
        "--max-concurrent-downloads="@ + decimal(s.max_concurrent as nat),
    ] + (if s.default_dir@.len() > 0 {
        seq!["--dir="@ + s.default_dir@]
    } else {
        Seq::empty()
    }) + (if s.speed_limit > 0 {
        seq!["--max-overall-download-limit="@ + decimal(s.speed_limit as nat) + "K"@]
    } else {
        Seq::empty()
    }) + (if s.proxy@.len() > 0 {
        seq!["--all-proxy="@ + s.proxy@]
    } else {
        Seq::empty()
    })
}

/// The command line of the aria2 daemon for the given settings.
pub fn aria2_args(s: &Settings) -> (r: Vec<String>)
    ensures
        texts(r@) == aria2_args_v(*s),
{
    let mut r: Vec<String> = Vec::new();
    assert(texts(r@) =~= Seq::<Seq<char>>::empty());
    push_text(&mut r, String::from_str("--enable-rpc"));
    push_text(&mut r, String::from_str("--rpc-listen-all=false"));
    let mut port = String::from_str("--rpc-listen-port=");
    push_decimal(&mut port, RPC_PORT as u64);
    push_text(&mut r, port);
    push_text(&mut r, concat("--rpc-secret=", s.rpc_secret.as_str()));
    push_text(&mut r, String::from_str("--rpc-allow-origin-all"));
    push_text(&mut r, String::from_str("--continue=true"));
    push_text(&mut r, String::from_str("--file-allocation=none"));
    push_text(&mut r, String::from_str("--min-split-size=1M"));
    push_text(&mut r, String::from_str("--split=16"));
    push_text(&mut r, String::from_str("--max-connection-per-server=16"));
    let mut mc = String::from_str("--max-concurrent-downloads=");
    push_decimal(&mut mc, s.max_concurrent as u64);
    push_text(&mut r, mc);
    let ghost base = texts(r@);
    if s.default_dir.as_str().unicode_len() > 0 {
        push_text(&mut r, concat("--dir=", s.default_dir.as_str()));
    }
    let ghost with_dir = texts(r@);
    if s.speed_limit > 0 {
        let mut lim = String::from_str("--max-overall-download-limit=");
        push_decimal(&mut lim, s.speed_limit);
        lim.append("K");
        push_text(&mut r, lim);
    }
    let ghost with_limit = texts(r@);
    if s.proxy.as_str().unicode_len() > 0 {
        push_text(&mut r, concat("--all-proxy=", s.proxy.as_str()));
    }
    assert(texts(r@) =~= aria2_args_v(*s));
    r
}

} // verus!
