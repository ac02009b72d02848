//! Requests that reach the desktop app from the browser, and the replies it
//! gives: configuration requests and download captures.
use vstd::prelude::*;
use crate::json::{
    Json, JsonV, get_v, str_of, obj_view, arr_view, push_member, push_element, str_in,
};
use crate::settings::{Settings, RPC_PORT, texts, push_text, concat};
use crate::commands::{optional_member, limit_text, limit_string};
use crate::aria2::str_field_v;
use crate::json::{lemma_member_at, lemma_member_absent, or_empty};
use crate::text::decimal;

verus! {

/// The header lines that a capture request's `headers` object gives: one
/// `name: value` line for each member whose value is a string, in order.
pub open spec fn header_lines_v(m: Seq<(Seq<char>, JsonV)>) -> Seq<Seq<char>>
    decreases m.len(),
{
    if m.len() == 0 {
        Seq::empty()
    } else {
        header_lines_v(m.drop_last()) + match m.last().1 {
            JsonV::Str(v) => seq![m.last().0 + ": "@ + v],
            _ => Seq::empty(),
        }
    }
}

/// The member `k` of `msg` when it is a non-empty string.
pub open spec fn nonempty_str(msg: JsonV, k: Seq<char>) -> Option<Seq<char>> {
    match str_of(get_v(msg, k)) {
        Some(s) => if s.len() > 0 {
            Some(s)
        } else {
            None
        },
        None => None,
    }
}

/// A line `prefix` + `s`, when there is an `s`.
pub open spec fn line_if(prefix: Seq<char>, s: Option<Seq<char>>) -> Seq<Seq<char>> {
    match s {
        Some(x) => seq![prefix + x],
        None => Seq::empty(),
    }
}

/// The HTTP headers that a capture request asks aria2 to send: its cookies,
/// its referrer, then its extra headers.
pub open spec fn capture_headers_v(msg: JsonV) -> Seq<Seq<char>> {
    line_if("Cookie: "@, nonempty_str(msg, "cookies"@)) + line_if(
        "Referer: "@,
        nonempty_str(msg, "referrer"@),
    ) + match get_v(msg, "headers"@) {
        Some(JsonV::Obj(m)) => header_lines_v(m),
        _ => Seq::empty(),
    }
}

/// JSON strings of the given texts.
pub open spec fn json_strings(s: Seq<Seq<char>>) -> Seq<JsonV> {
    Seq::new(s.len(), |i: int| JsonV::Str(s[i]))
}

/// The aria2 options of a captured download.
pub open spec fn capture_options_v(msg: JsonV, s: Settings) -> JsonV {
    let h = capture_headers_v(msg);
    JsonV::Obj(
        seq![
            ("split"@, JsonV::UInt(s.connections as u64)),
            ("max-connection-per-server"@, JsonV::UInt(s.connections as u64)),
        ] + optional_member(s.default_dir@.len() > 0, "dir"@, JsonV::Str(s.default_dir@))
            + match nonempty_str(msg, "filename"@) {
            Some(n) => seq![("out"@, JsonV::Str(n))],
            None => Seq::empty(),
        } + optional_member(h.len() > 0, "header"@, JsonV::Arr(json_strings(h)))
            + optional_member(
            s.speed_limit > 0,
            "max-download-limit"@,
            JsonV::Str(limit_text(s.speed_limit)),
        ),
    )
}

/// The download that a capture request asks for: its URL and aria2 options,
/// or `missing url` when it has no non-empty `url`.
pub open spec fn capture_v(msg: JsonV, s: Settings) -> Result<(Seq<char>, JsonV), Seq<char>> {
    let url = str_field_v(msg, "url"@);
    if url.len() == 0 {
        Err("missing url"@)
    } else {
        Ok((url, capture_options_v(msg, s)))
    }
}

/// Law: a capture request with a URL is added with that URL; its options
/// carry the settings' connection count, an `out` member naming the asked
/// file name, and a `header` list that starts with the cookie line when
/// there are cookies and holds the referrer line right after (or first,
/// without cookies) whenever there is a referrer, independently of the
/// cookies; with neither, and no extra headers, there is no `header` member.
pub proof fn lemma_capture_options(msg: JsonV, s: Settings)
    requires
        str_of(get_v(msg, "url"@)) is Some,
        str_of(get_v(msg, "url"@))->0.len() > 0,
    ensures
        ({
            let ck = str_of(get_v(msg, "cookies"@));
            let rf = str_of(get_v(msg, "referrer"@));
            let fname = str_of(get_v(msg, "filename"@));
            let has_c = ck is Some && ck->0.len() > 0;
            let has_r = rf is Some && rf->0.len() > 0;
            let r = capture_v(msg, s);
            &&& r is Ok
            &&& r->Ok_0.0 == str_of(get_v(msg, "url"@))->0
            &&& r->Ok_0.1 is Obj
            &&& get_v(r->Ok_0.1, "split"@) == Some(JsonV::UInt(s.connections as u64))
            &&& get_v(r->Ok_0.1, "max-connection-per-server"@) == Some(JsonV::UInt(s.connections as u64))
            &&& (fname is Some && fname->0.len() > 0) ==> get_v(r->Ok_0.1, "out"@) == Some(
                JsonV::Str(fname->0),
            )
            &&& (has_c || has_r) ==> {
                let h = get_v(r->Ok_0.1, "header"@);
                &&& h is Some
                &&& h->0 is Arr
                &&& has_c ==> h->0->Arr_0.len() > 0 && h->0->Arr_0[0] == JsonV::Str(
                    "Cookie: "@ + ck->0,
                )
                &&& has_r ==> {
                    let k: int = if has_c { 1int } else { 0int };
                    h->0->Arr_0.len() > k && h->0->Arr_0[k] == JsonV::Str("Referer: "@ + rf->0)
                }
            }
            &&& (!has_c && !has_r && !(get_v(msg, "headers"@) is Some && get_v(msg, "headers"@)->0 is Obj))
                ==> get_v(r->Ok_0.1, "header"@) is None
        }),
{
    lemma_capture_members(msg, s);
    let m = capture_options_v(msg, s)->Obj_0;
    let h = capture_headers_v(msg);
    reveal_strlit("split");
    reveal_strlit("max-connection-per-server");
    assert("split"@.len() == 5 && "max-connection-per-server"@.len() == 25);
    assert(m[0].0 == "split"@ && m[1].0 == "max-connection-per-server"@);
    lemma_member_at(m, "split"@, 0);
    lemma_member_at(m, "max-connection-per-server"@, 1);
    let lc = line_if("Cookie: "@, nonempty_str(msg, "cookies"@));
    let lr = line_if("Referer: "@, nonempty_str(msg, "referrer"@));
    let extra = match get_v(msg, "headers"@) {
        Some(JsonV::Obj(hm)) => header_lines_v(hm),
        _ => Seq::empty(),
    };
    assert(h == lc + lr + extra);
    if nonempty_str(msg, "referrer"@) is Some {
        assert(h[lc.len() as int] == lr[0]);
    }
}

/// Where each member of a captured download's options stands.
proof fn lemma_capture_members(msg: JsonV, s: Settings)
    ensures
        ({
            let o = capture_options_v(msg, s);
            let h = capture_headers_v(msg);
            &&& o is Obj
            &&& get_v(o, "dir"@) == if s.default_dir@.len() > 0 {
                Some(JsonV::Str(s.default_dir@))
            } else {
                None
            }
            &&& get_v(o, "out"@) == match nonempty_str(msg, "filename"@) {
                Some(n) => Some(JsonV::Str(n)),
                None => None,
            }
            &&& get_v(o, "header"@) == if h.len() > 0 {
                Some(JsonV::Arr(json_strings(h)))
            } else {
                None
            }
            &&& get_v(o, "max-download-limit"@) == if s.speed_limit > 0 {
                Some(JsonV::Str(limit_text(s.speed_limit)))
            } else {
                None
            }
        }),
{
    let m = capture_options_v(msg, s)->Obj_0;
    let h = capture_headers_v(msg);
    reveal_strlit("split");
    reveal_strlit("max-connection-per-server");
    reveal_strlit("dir");
    reveal_strlit("out");
    reveal_strlit("header");
    reveal_strlit("max-download-limit");
    assert("split"@.len() == 5 && "max-connection-per-server"@.len() == 25 && "dir"@.len() == 3
        && "out"@.len() == 3 && "header"@.len() == 6 && "max-download-limit"@.len() == 18);
    assert("dir"@[0] != "out"@[0]);
    let has_dir = s.default_dir@.len() > 0;
    let has_out = nonempty_str(msg, "filename"@) is Some;
    let has_hdr = h.len() > 0;
    let i_out: int = if has_dir { 3int } else { 2int };
    let i_hdr: int = i_out + if has_out { 1int } else { 0int };
    let i_lim: int = i_hdr + if has_hdr { 1int } else { 0int };
    assert(m[0].0 == "split"@ && m[1].0 == "max-connection-per-server"@);
    assert(m.len() == i_lim + if s.speed_limit > 0 { 1int } else { 0int });
    // Every member's name, by position.
    assert forall|j: int| 0 <= j < m.len() implies {
        &&& (#[trigger] m[j]).0 == "dir"@ <==> (has_dir && j == 2)
        &&& m[j].0 == "out"@ <==> (has_out && j == i_out)
        &&& m[j].0 == "header"@ <==> (has_hdr && j == i_hdr)
        &&& m[j].0 == "max-download-limit"@ <==> j == i_lim
    } by {
        if j == 2 && has_dir {
            assert(m[j].0 == "dir"@);
        } else if j == i_out && has_out {
            assert(m[j].0 == "out"@);
        } else if j == i_hdr && has_hdr {
            assert(m[j].0 == "header"@);
        } else if j == i_lim {
            assert(m[j].0 == "max-download-limit"@);
        }
    }
    if has_dir {
        lemma_member_at(m, "dir"@, 2);
    } else {
        lemma_member_absent(m, "dir"@);
    }
    if has_out {
        lemma_member_at(m, "out"@, i_out);
    } else {
        lemma_member_absent(m, "out"@);
    }
    if has_hdr {
        lemma_member_at(m, "header"@, i_hdr);
    } else {
        lemma_member_absent(m, "header"@);
    }
    if s.speed_limit > 0 {
        lemma_member_at(m, "max-download-limit"@, i_lim);
    } else {
        lemma_member_absent(m, "max-download-limit"@);
    }
}

/// Each string member of `m` gives its `name: value` line.
proof fn lemma_header_line_present(m: Seq<(Seq<char>, JsonV)>, i: int)
    requires
        0 <= i < m.len(),
        m[i].1 is Str,
    ensures
        header_lines_v(m).contains(m[i].0 + ": "@ + m[i].1->Str_0),
    decreases m.len(),
{
    let p = m.drop_last();
    let a = header_lines_v(p);
    let n = header_lines_v(m);
    if i == m.len() - 1 {
        assert(n[a.len() as int] == m[i].0 + ": "@ + m[i].1->Str_0);
    } else {
        assert(p[i] == m[i]);
        lemma_header_line_present(p, i);
        let k = choose|k: int| 0 <= k < a.len() && a[k] == p[i].0 + ": "@ + p[i].1->Str_0;
        assert(n[k] == a[k]);
    }
}

/// Each header line comes from a string member of `m`.
proof fn lemma_header_line_source(m: Seq<(Seq<char>, JsonV)>, j: int)
    requires
        0 <= j < header_lines_v(m).len(),
    ensures
        exists|i: int|
            0 <= i < m.len() && (#[trigger] m[i]).1 is Str && header_lines_v(m)[j] == m[i].0 + ": "@
                + m[i].1->Str_0,
    decreases m.len(),
{
    let p = m.drop_last();
    let a = header_lines_v(p);
    let n = header_lines_v(m);
    if j < a.len() {
        assert(n[j] == a[j]);
        lemma_header_line_source(p, j);
        let i = choose|i: int|
            0 <= i < p.len() && (#[trigger] p[i]).1 is Str && a[j] == p[i].0 + ": "@ + p[i].1->Str_0;
        assert(m[i] == p[i]);
    } else {
        let l = m.len() - 1;
        assert(m[l] == m.last());
        assert(m[l].1 is Str);
        assert(n[j] == m[l].0 + ": "@ + m[l].1->Str_0);
    }
}

/// Law: the extra header lines of a `headers` object are `name: value` for
/// its members whose value is a string: each such member gives its line,
/// and every line is that of such a member.
pub proof fn lemma_header_lines(m: Seq<(Seq<char>, JsonV)>)
    ensures
        forall|i: int|
            0 <= i < m.len() && (#[trigger] m[i]).1 is Str ==> header_lines_v(m).contains(
                m[i].0 + ": "@ + m[i].1->Str_0,
            ),
        forall|line: Seq<char>|
            #[trigger] header_lines_v(m).contains(line) ==> exists|i: int|
                0 <= i < m.len() && (#[trigger] m[i]).1 is Str && line == m[i].0 + ": "@ + m[i].1->Str_0,
{
    assert forall|i: int| 0 <= i < m.len() && (#[trigger] m[i]).1 is Str implies header_lines_v(m).contains(
        m[i].0 + ": "@ + m[i].1->Str_0,
    ) by {
        lemma_header_line_present(m, i);
    }
    assert forall|line: Seq<char>| #[trigger] header_lines_v(m).contains(line) implies exists|i: int|
        0 <= i < m.len() && (#[trigger] m[i]).1 is Str && line == m[i].0 + ": "@ + m[i].1->Str_0 by {
        let j = choose|j: int| 0 <= j < header_lines_v(m).len() && header_lines_v(m)[j] == line;
        lemma_header_line_source(m, j);
    }
}

/// Law: a capture request with no non-empty `url` is refused with `missing
/// url`; one with a URL is added into the default folder when there is one,
/// with the settings' speed limit (the number and `K`) when there is one,
/// with no `out` member when it names no file, and with its extra header
/// lines after the cookie and referrer lines.
pub proof fn lemma_capture_rest(msg: JsonV, s: Settings)
    ensures
        ({
            let url = or_empty(str_of(get_v(msg, "url"@)));
            let r = capture_v(msg, s);
            let fname = str_of(get_v(msg, "filename"@));
            let ck = str_of(get_v(msg, "cookies"@));
            let rf = str_of(get_v(msg, "referrer"@));
            let c: int = (if ck is Some && ck->0.len() > 0 { 1int } else { 0int }) + (if rf is Some
                && rf->0.len() > 0 { 1int } else { 0int });
            let extra = match get_v(msg, "headers"@) {
                Some(JsonV::Obj(hm)) => header_lines_v(hm),
                _ => Seq::empty(),
            };
            &&& url.len() == 0 ==> r == Err::<(Seq<char>, JsonV), Seq<char>>("missing url"@)
            &&& url.len() > 0 ==> {
                let o = r->Ok_0.1;
                &&& r is Ok
                &&& s.default_dir@.len() > 0 ==> get_v(o, "dir"@) == Some(JsonV::Str(s.default_dir@))
                &&& s.default_dir@.len() == 0 ==> get_v(o, "dir"@) is None
                &&& s.speed_limit > 0 ==> get_v(o, "max-download-limit"@) == Some(
                    JsonV::Str(decimal(s.speed_limit as nat) + "K"@),
                )
                &&& s.speed_limit == 0 ==> get_v(o, "max-download-limit"@) is None
                &&& !(fname is Some && fname->0.len() > 0) ==> get_v(o, "out"@) is None
                &&& o is Obj
                &&& forall|i: int|
                    0 <= i < o->Obj_0.len() ==> {
                        let k = (#[trigger] o->Obj_0[i]).0;
                        k == "split"@ || k == "max-connection-per-server"@ || k == "dir"@ || k == "out"@
                            || k == "header"@ || k == "max-download-limit"@
                    }
                &&& c + extra.len() > 0 ==> {
                    let h = get_v(o, "header"@);
                    &&& h is Some
                    &&& h->0 is Arr
                    &&& h->0->Arr_0.len() == c + extra.len()
                    &&& forall|j: int|
                        0 <= j < extra.len() ==> h->0->Arr_0[c + j] == JsonV::Str(#[trigger] extra[j])
                }
                &&& c + extra.len() == 0 ==> get_v(o, "header"@) is None
            }
        }),
{
    lemma_capture_members(msg, s);
    let hs = capture_headers_v(msg);
    let extra = match get_v(msg, "headers"@) {
        Some(JsonV::Obj(hm)) => header_lines_v(hm),
        _ => Seq::empty(),
    };
    let pre = line_if("Cookie: "@, nonempty_str(msg, "cookies"@)) + line_if(
        "Referer: "@,
        nonempty_str(msg, "referrer"@),
    );
    assert(hs == pre + extra);
    assert forall|j: int| 0 <= j < extra.len() implies json_strings(hs)[pre.len() + j] == JsonV::Str(
        #[trigger] extra[j],
    ) by {
        assert(hs[pre.len() + j] == extra[j]);
    }
}

fn line_with(prefix: &str, s: Option<&str>, out: &mut Vec<String>)
    ensures
        texts(final(out)@) == texts(old(out)@) + line_if(
            prefix@,
            match s {
                Some(x) => if x@.len() > 0 {
                    Some(x@)
                } else {
                    None
                },
                None => None,
            },
        ),
{
    match s {
        Some(x) => if x.unicode_len() > 0 {
            push_text(out, concat(prefix, x));
            return;
        },
        None => {},
    }
    assert(texts(out@) =~= texts(out@) + Seq::<Seq<char>>::empty());
}

/// The header lines of the members of a `headers` object.
pub fn header_lines(m: &Vec<(String, Json)>, out: &mut Vec<String>)
    ensures
        texts(final(out)@) == texts(old(out)@) + header_lines_v(obj_view(m@)),
{
    let ghost start = texts(out@);
    let ghost mv = obj_view(m@);
    for i in 0..m.len()
        invariant
            mv == obj_view(m@),
            texts(out@) == start + header_lines_v(mv.take(i as int)),
    {
        assert(mv.take(i + 1).drop_last() =~= mv.take(i as int));
        assert(mv.take(i + 1).last() == (m@[i as int].0@, m@[i as int].1@));
        let ghost before = texts(out@);
        match m[i].1.as_str() {
            Some(v) => {
                let mut line = concat(m[i].0.as_str(), ": ");
                line.append(v);
                push_text(out, line);
            },
            None => {
                assert(texts(out@) =~= before + Seq::<Seq<char>>::empty());
            },
        }
        assert(texts(out@) =~= start + header_lines_v(mv.take(i + 1)));
    }
    assert(mv.take(m.len() as int) =~= mv);
}

/// The HTTP headers that a capture request asks aria2 to send.
pub fn capture_headers(msg: &Json) -> (r: Vec<String>)
    ensures
        texts(r@) == capture_headers_v(msg@),
{
    let mut out: Vec<String> = Vec::new();
    assert(texts(out@) =~= Seq::<Seq<char>>::empty());
    line_with("Cookie: ", str_in(msg.get("cookies")), &mut out);
    line_with("Referer: ", str_in(msg.get("referrer")), &mut out);
    let ghost before = texts(out@);
    match msg.get("headers") {
        Some(Json::Obj(m)) => {
            header_lines(m, &mut out);
        },
        _ => {
            assert(texts(out@) =~= before + Seq::<Seq<char>>::empty());
        },
    }
    assert(texts(out@) =~= capture_headers_v(msg@));
    out
}

/// The download that a capture request asks for, as a URL and aria2
/// options; `missing url` when it names no URL.
pub fn capture_request(msg: &Json, s: &Settings) -> (r: Result<(String, Json), String>)
    ensures
        match r {
            Ok((url, opts)) => capture_v(msg@, *s) == Ok::<(Seq<char>, JsonV), Seq<char>>(
                (url@, opts@),
            ),
            Err(e) => capture_v(msg@, *s) == Err::<(Seq<char>, JsonV), Seq<char>>(e@),
        },
{
    let url = crate::aria2::str_field(msg, "url");
    if url.as_str().unicode_len() == 0 {
        return Err(String::from_str("missing url"));
    }
    let headers = capture_headers(msg);
    let mut m: Vec<(String, Json)> = Vec::new();
    assert(obj_view(m@) =~= Seq::<(Seq<char>, JsonV)>::empty());
    push_member(&mut m, "split", Json::UInt(s.connections as u64));
    push_member(&mut m, "max-connection-per-server", Json::UInt(s.connections as u64));
    let ghost m0 = obj_view(m@);
    if s.default_dir.as_str().unicode_len() > 0 {
        push_member(&mut m, "dir", Json::string(s.default_dir.as_str()));
    }
    let ghost m1 = obj_view(m@);
    match str_in(msg.get("filename")) {
        Some(name) => if name.unicode_len() > 0 {
            push_member(&mut m, "out", Json::string(name));
        },
        None => {},
    }
    let ghost m2 = obj_view(m@);
    if headers.len() > 0 {
        let mut a: Vec<Json> = Vec::new();
        for i in 0..headers.len()
            invariant
                arr_view(a@) =~= json_strings(texts(headers@)).take(i as int),
        {
            push_element(&mut a, Json::string(headers[i].as_str()));
        }
        assert(json_strings(texts(headers@)).take(headers.len() as int) =~= json_strings(
            texts(headers@),
        ));
        push_member(&mut m, "header", Json::Arr(a));
    }
    let ghost m3 = obj_view(m@);
    if s.speed_limit > 0 {
        push_member(&mut m, "max-download-limit", Json::Str(limit_string(s.speed_limit)));
    }
    let ghost mv = obj_view(m@);
    assert(m1 =~= m0 + optional_member(s.default_dir@.len() > 0, "dir"@, JsonV::Str(s.default_dir@)));
    assert(mv =~= capture_options_v(msg@, *s)->Obj_0);
    Ok((url, Json::Obj(m)))
}

/// The reply to a configuration request: the RPC secret and port, so that
/// the extension can talk to aria2 itself.
pub open spec fn config_reply_v(secret: Seq<char>) -> JsonV {
    JsonV::Obj(
        seq![
            ("type"@, JsonV::Str("config"@)),
            ("secret"@, JsonV::Str(secret)),
            ("port"@, JsonV::UInt(RPC_PORT as u64)),
        ],
    )
}

/// The reply to a capture request: success, or failure with its reason.
pub open spec fn capture_reply_v(error: Option<Seq<char>>) -> JsonV {
    match error {
        None => JsonV::Obj(seq![("ok"@, JsonV::Bool(true))]),
        Some(e) => JsonV::Obj(seq![("ok"@, JsonV::Bool(false)), ("error"@, JsonV::Str(e))]),
    }
}

/// Law: the configuration reply has type `config` and carries the RPC
/// secret and aria2's port 6800; a capture reply says `ok: true` on
/// success, and on failure `ok: false` with the reason as its `error`.
pub proof fn lemma_replies(secret: Seq<char>, error: Seq<char>)
    ensures
        get_v(config_reply_v(secret), "type"@) == Some(JsonV::Str("config"@)),
        get_v(config_reply_v(secret), "secret"@) == Some(JsonV::Str(secret)),
        get_v(config_reply_v(secret), "port"@) == Some(JsonV::UInt(6800)),
        get_v(capture_reply_v(None), "ok"@) == Some(JsonV::Bool(true)),
        get_v(capture_reply_v(None), "error"@) is None,
        get_v(capture_reply_v(Some(error)), "ok"@) == Some(JsonV::Bool(false)),
        get_v(capture_reply_v(Some(error)), "error"@) == Some(JsonV::Str(error)),
{
    reveal_strlit("type");
    reveal_strlit("secret");
    reveal_strlit("port");
    reveal_strlit("ok");
    reveal_strlit("error");
    assert("type"@.len() == 4 && "secret"@.len() == 6 && "port"@.len() == 4 && "ok"@.len() == 2
        && "error"@.len() == 5);
    assert("type"@[0] != "port"@[0]);
    let c = config_reply_v(secret)->Obj_0;
    lemma_member_at(c, "type"@, 0);
    lemma_member_at(c, "secret"@, 1);
    lemma_member_at(c, "port"@, 2);
    let ok = capture_reply_v(None)->Obj_0;
    lemma_member_at(ok, "ok"@, 0);
    lemma_member_absent(ok, "error"@);
    let bad = capture_reply_v(Some(error))->Obj_0;
    lemma_member_at(bad, "ok"@, 0);
    lemma_member_at(bad, "error"@, 1);
}

/// The reply to a configuration request.
pub fn config_reply(secret: &str) -> (r: Json)
    ensures
        r@ == config_reply_v(secret@),
{
    let mut m: Vec<(String, Json)> = Vec::new();
    assert(obj_view(m@) =~= Seq::<(Seq<char>, JsonV)>::empty());
    push_member(&mut m, "type", Json::string("config"));
    push_member(&mut m, "secret", Json::string(secret));
    push_member(&mut m, "port", Json::UInt(RPC_PORT as u64));
    let ghost mv = obj_view(m@);
    assert(mv =~= config_reply_v(secret@)->Obj_0);
    Json::Obj(m)
}

/// The reply to a capture request, given why adding the download failed, if
/// it did.
pub fn capture_reply(error: Option<&str>) -> (r: Json)
    ensures
        r@ == capture_reply_v(
            match error {
                Some(e) => Some(e@),
                None => None,
            },
        ),
{
    let mut m: Vec<(String, Json)> = Vec::new();
    assert(obj_view(m@) =~= Seq::<(Seq<char>, JsonV)>::empty());
    match error {
        None => {
            push_member(&mut m, "ok", Json::Bool(true));
            assert(obj_view(m@) =~= capture_reply_v(None)->Obj_0);
        },
        Some(e) => {
            push_member(&mut m, "ok", Json::Bool(false));
            push_member(&mut m, "error", Json::string(e));
            assert(obj_view(m@) =~= capture_reply_v(Some(e@))->Obj_0);
        },
    }
    Json::Obj(m)
}

/// What the app does with a request from the browser.
#[derive(Debug, PartialEq)]
pub enum Route {
    /// Answer at once with this reply.
    Reply(Json),
    /// Add this download to aria2, then answer with `capture_reply`.
    Add { url: String, options: Json },
}

/// Whether a request asks for the configuration: its `type` is
/// `get-config`; any other request, with or without a `type`, is a capture.
pub open spec fn is_config_request(msg: JsonV) -> bool {
    str_of(get_v(msg, "type"@)) == Some("get-config"@)
}

/// What the app does with the request `msg`, under the settings `s`.
pub fn route_message(msg: &Json, s: &Settings) -> (r: Route)
    ensures
        is_config_request(msg@) ==> r is Reply && r->Reply_0@ == config_reply_v(s.rpc_secret@),
        !is_config_request(msg@) ==> match capture_v(msg@, *s) {
            Ok((url, opts)) => r is Add && r->url@ == url && r->options@ == opts,
            Err(e) => r is Reply && r->Reply_0@ == capture_reply_v(Some(e)),
        },
{
    let is_config = match str_in(msg.get("type")) {
        Some(t) => crate::text::str_eq(t, "get-config"),
        None => false,
    };
    if is_config {
        return Route::Reply(config_reply(s.rpc_secret.as_str()));
    }
    match capture_request(msg, s) {
        Ok((url, options)) => Route::Add { url, options },
        Err(e) => Route::Reply(capture_reply(Some(e.as_str()))),
    }
}

/// The request that captures `url`, as the clipboard watcher sends it.
pub fn capture_message(url: &str) -> (r: Json)
    ensures
        r@ == JsonV::Obj(seq![("url"@, JsonV::Str(url@))]),
{
    let mut m: Vec<(String, Json)> = Vec::new();
    assert(obj_view(m@) =~= Seq::<(Seq<char>, JsonV)>::empty());
    push_member(&mut m, "url", Json::string(url));
    let ghost mv = obj_view(m@);
    assert(mv =~= seq![("url"@, JsonV::Str(url@))]);
    Json::Obj(m)
}

/// The native-messaging host's answer to the browser: success, or a
/// notification that the desktop app is not running, with the reason.
pub open spec fn host_reply_v(error: Option<Seq<char>>) -> JsonV {
    match error {
        None => JsonV::Obj(seq![("ok"@, JsonV::Bool(true))]),
        Some(e) => JsonV::Obj(
            seq![
                ("ok"@, JsonV::Bool(false)),
                ("title"@, JsonV::Str("IDM No Ads"@)),
                (
                    "notify"@,
                    JsonV::Str(
                        "IDM No Ads desktop app isn't running ("@ + e
                            + "). Open it and try the download again."@,
                    ),
                ),
            ],
        ),
    }
}

/// The native-messaging host's answer to the browser, given why forwarding
/// to the desktop app failed, if it did.
pub fn host_reply(error: Option<&str>) -> (r: Json)
    ensures
        r@ == host_reply_v(
            match error {
                Some(e) => Some(e@),
                None => None,
            },
        ),
{
    let mut m: Vec<(String, Json)> = Vec::new();
    assert(obj_view(m@) =~= Seq::<(Seq<char>, JsonV)>::empty());
    match error {
        None => {
            push_member(&mut m, "ok", Json::Bool(true));
            assert(obj_view(m@) =~= host_reply_v(None)->Obj_0);
        },
        Some(e) => {
            push_member(&mut m, "ok", Json::Bool(false));
            push_member(&mut m, "title", Json::string("IDM No Ads"));
            let mut note = concat("IDM No Ads desktop app isn't running (", e);
            note.append("). Open it and try the download again.");
            push_member(&mut m, "notify", Json::Str(note));
            assert(obj_view(m@) =~= host_reply_v(Some(e@))->Obj_0);
        },
    }
    Json::Obj(m)
}

} // verus!
