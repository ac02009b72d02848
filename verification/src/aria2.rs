//! The aria2 side of the library: the normalized view of a download, and the
//! JSON-RPC requests and replies exchanged with the engine.
use vstd::prelude::*;
use crate::json::{
    Json, JsonV, get_v, get_opt, str_of, arr_of, first_of, or_empty, get_in, str_in, first_in,
    arr_view, take_member, push_member, push_element, obj_view, lemma_member_at,
};
use crate::text::{
    chars_of, slice_string, find_first_of2, first_of2, lemma_first_of2, parse_u64,
    parse_u64_spec, decimal, push_decimal, lemma_parse_decimal_roundtrip,
};

verus! {

/// A normalized view of an aria2 download, ready for the frontend.
#[derive(Debug, Clone, PartialEq)]
pub struct Download {
    pub gid: String,
    pub name: String,
    pub url: String,
    pub total: u64,
    pub completed: u64,
    pub speed: u64,
    pub status: String,
    pub dir: String,
}

/// The value of a `Download`.
pub struct DownloadV {
    pub gid: Seq<char>,
    pub name: Seq<char>,
    pub url: Seq<char>,
    pub total: u64,
    pub completed: u64,
    pub speed: u64,
    pub status: Seq<char>,
    pub dir: Seq<char>,
}

impl View for Download {
    type V = DownloadV;

    open spec fn view(&self) -> DownloadV {
        DownloadV {
            gid: self.gid@,
            name: self.name@,
            url: self.url@,
            total: self.total,
            completed: self.completed,
            speed: self.speed,
            status: self.status@,
            dir: self.dir@,
        }
    }
}

/// Whether `c` separates the parts of a path or URL.
pub open spec fn is_sep(c: char) -> bool {
    c == '/' || c == '\\'
}

/// Where the last part of `t` starts: just after its last separator, or 0.
pub open spec fn tail_start(t: Seq<char>) -> int
    decreases t.len(),
{
    if t.len() == 0 {
        0
    } else if is_sep(t.last()) {
        t.len() as int
    } else {
        tail_start(t.drop_last())
    }
}

/// The file name at the end of a path or URL: what comes after the last `/`
/// or `\` of the part before the first `?` or `#`.
pub open spec fn basename_spec(s: Seq<char>) -> Seq<char> {
    let t = s.take(first_of2(s, '?', '#'));
    t.skip(tail_start(t))
}

proof fn lemma_tail_start(t: Seq<char>)
    ensures
        0 <= tail_start(t) <= t.len(),
        tail_start(t) > 0 ==> is_sep(t[tail_start(t) - 1]),
        forall|j: int| tail_start(t) <= j < t.len() ==> !is_sep(#[trigger] t[j]),
    decreases t.len(),
{
    if t.len() > 0 && !is_sep(t.last()) {
        lemma_tail_start(t.drop_last());
        assert forall|j: int| tail_start(t) <= j < t.len() implies !is_sep(#[trigger] t[j]) by {
            if j < t.len() - 1 {
                assert(t[j] == t.drop_last()[j]);
            }
        }
    }
}

proof fn lemma_tail_start_unique(t: Seq<char>, k: int)
    requires
        0 <= k <= t.len(),
        k > 0 ==> is_sep(t[k - 1]),
        forall|j: int| k <= j < t.len() ==> !is_sep(#[trigger] t[j]),
    ensures
        tail_start(t) == k,
    decreases t.len(),
{
    if t.len() > k {
        assert(!is_sep(t[t.len() - 1]));
        lemma_tail_start_unique(t.drop_last(), k);
    }
}

/// The file name at the end of a path or URL.
pub fn basename(s: &str) -> (r: String)
    ensures
        r@ == basename_spec(s@),
{
    let v = chars_of(s);
    let cut = find_first_of2(&v, '?', '#');
    proof {
        lemma_first_of2(s@, '?', '#');
    }
    let ghost t = s@.take(cut as int);
    let mut i = cut;
    while i > 0 && !(v[i - 1] == '/' || v[i - 1] == '\\')
        invariant
            i <= cut <= v.len(),
            v@ == s@,
            t == v@.take(cut as int),
            forall|j: int| i <= j < cut ==> !is_sep(#[trigger] t[j]),
        decreases i,
    {
        i = i - 1;
    }
    proof {
        lemma_tail_start_unique(t, i as int);
    }
    let r = slice_string(&v, i, cut);
    assert(r@ =~= t.skip(i as int));
    r
}

/// Law: a file name holds no separator, no `?` and no `#`.
pub proof fn lemma_basename_clean(s: Seq<char>)
    ensures
        forall|j: int|
            0 <= j < basename_spec(s).len() ==> {
                let c = #[trigger] basename_spec(s)[j];
                c != '/' && c != '\\' && c != '?' && c != '#'
            },
{
    lemma_first_of2(s, '?', '#');
    let t = s.take(first_of2(s, '?', '#'));
    lemma_tail_start(t);
    assert forall|j: int| 0 <= j < basename_spec(s).len() implies {
        let c = #[trigger] basename_spec(s)[j];
        c != '/' && c != '\\' && c != '?' && c != '#'
    } by {
        assert(basename_spec(s)[j] == t[tail_start(t) + j]);
        assert(t[tail_start(t) + j] == s[tail_start(t) + j]);
    }
}

/// Law: the file name of a path is its last part: for a folder `d` and a
/// file name `f`, neither holding `?` or `#` and `f` holding no separator,
/// the file name of `f`, of `d/f`, of `d\f`, and of `d/f` followed by a
/// query or fragment, is `f`.
pub proof fn lemma_basename_last_part(d: Seq<char>, f: Seq<char>, rest: Seq<char>)
    requires
        forall|j: int| 0 <= j < d.len() ==> #[trigger] d[j] != '?' && d[j] != '#',
        forall|j: int|
            0 <= j < f.len() ==> {
                let c = #[trigger] f[j];
                c != '/' && c != '\\' && c != '?' && c != '#'
            },
    ensures
        basename_spec(f) == f,
        basename_spec(d + seq!['/'] + f) == f,
        basename_spec(d + seq!['\\'] + f) == f,
        basename_spec(d + seq!['/'] + f + seq!['?'] + rest) == f,
        basename_spec(d + seq!['/'] + f + seq!['#'] + rest) == f,
{
    let b = d + seq!['\\'] + f;
    assert forall|j: int| 0 <= j < b.len() implies #[trigger] b[j] != '?' && b[j] != '#' by {
        if j < d.len() {
            assert(b[j] == d[j]);
        } else if j > d.len() {
            assert(b[j] == f[j - d.len() - 1]);
        }
    }
    lemma_first_of2(b, '?', '#');
    crate::text::lemma_first_of2_unique(b, '?', '#', b.len() as int);
    assert(b.take(b.len() as int) =~= b);
    assert forall|j: int| d.len() + 1 <= j < b.len() implies !is_sep(#[trigger] b[j]) by {
        assert(b[j] == f[j - d.len() - 1]);
    }
    lemma_tail_start_unique(b, d.len() + 1int);
    assert(b.skip(d.len() + 1int) =~= f);
    lemma_first_of2(f, '?', '#');
    crate::text::lemma_first_of2_unique(f, '?', '#', f.len() as int);
    assert(f.take(f.len() as int) =~= f);
    lemma_tail_start_unique(f, 0);
    assert(f.skip(0) =~= f);
    let p = d + seq!['/'] + f;
    assert forall|j: int| 0 <= j < p.len() implies #[trigger] p[j] != '?' && p[j] != '#' by {
        if j < d.len() {
            assert(p[j] == d[j]);
        } else if j > d.len() {
            assert(p[j] == f[j - d.len() - 1]);
        }
    }
    lemma_first_of2(p, '?', '#');
    crate::text::lemma_first_of2_unique(p, '?', '#', p.len() as int);
    assert(p.take(p.len() as int) =~= p);
    assert forall|j: int| d.len() + 1 <= j < p.len() implies !is_sep(#[trigger] p[j]) by {
        assert(p[j] == f[j - d.len() - 1]);
    }
    lemma_tail_start_unique(p, d.len() + 1int);
    assert(p.skip(d.len() + 1int) =~= f);
    let q1 = p + seq!['?'] + rest;
    let q2 = p + seq!['#'] + rest;
    assert forall|j: int| 0 <= j < p.len() implies #[trigger] q1[j] != '?' && q1[j] != '#' by {
        assert(q1[j] == p[j]);
    }
    assert forall|j: int| 0 <= j < p.len() implies #[trigger] q2[j] != '?' && q2[j] != '#' by {
        assert(q2[j] == p[j]);
    }
    assert(q1[p.len() as int] == '?');
    assert(q2[p.len() as int] == '#');
    lemma_first_of2(q1, '?', '#');
    crate::text::lemma_first_of2_unique(q1, '?', '#', p.len() as int);
    lemma_first_of2(q2, '?', '#');
    crate::text::lemma_first_of2_unique(q2, '?', '#', p.len() as int);
    assert(q1.take(p.len() as int) =~= p);
    assert(q2.take(p.len() as int) =~= p);
}

/// Law: taking the file name of a file name changes nothing.
pub proof fn lemma_basename_idempotent(s: Seq<char>)
    ensures
        basename_spec(basename_spec(s)) == basename_spec(s),
{
    let b = basename_spec(s);
    lemma_basename_clean(s);
    lemma_first_of2(b, '?', '#');
    crate::text::lemma_first_of2_unique(b, '?', '#', b.len() as int);
    assert(b.take(b.len() as int) =~= b);
    lemma_tail_start_unique(b, 0);
    assert(b.skip(0) =~= b);
}

/// The text of member `k`, or the empty string.
pub open spec fn str_field_v(v: JsonV, k: Seq<char>) -> Seq<char> {
    or_empty(str_of(get_v(v, k)))
}

/// The number that member `k` holds: its text parsed as a `u64`, else its
/// value as a non-negative integer, else 0.
pub open spec fn num_field_v(v: JsonV, k: Seq<char>) -> u64 {
    match str_of(get_v(v, k)) {
        Some(s) if parse_u64_spec(s) is Some => parse_u64_spec(s)->0,
        _ => match get_v(v, k) {
            Some(JsonV::UInt(n)) => n,
            _ => 0,
        },
    }
}

/// Law: a numeric member reads as the number that its text gives in
/// decimal (with or without a leading `+`), else as the number it holds;
/// an empty text, a text with any other character, and any other value
/// or no member at all read as 0.
pub proof fn lemma_number_field(v: JsonV, k: Seq<char>, n: u64, s: Seq<char>, j: int)
    ensures
        get_v(v, k) == Some(JsonV::Str(decimal(n as nat))) ==> num_field_v(v, k) == n,
        get_v(v, k) == Some(JsonV::Str(seq!['+'] + decimal(n as nat))) ==> num_field_v(v, k) == n,
        get_v(v, k) == Some(JsonV::UInt(n)) ==> num_field_v(v, k) == n,
        get_v(v, k) == Some(JsonV::Str(Seq::<char>::empty())) ==> num_field_v(v, k) == 0,
        get_v(v, k) == Some(JsonV::Str(s)) && 0 <= j < s.len() && !('0' <= s[j] && s[j] <= '9') && !(j
            == 0 && s[j] == '+') ==> num_field_v(v, k) == 0,
        !(get_v(v, k) is Some && (get_v(v, k)->0 is Str || get_v(v, k)->0 is UInt)) ==> num_field_v(v, k)
            == 0,
{
    lemma_parse_decimal_roundtrip(n);
    crate::text::lemma_parse_accepts_and_rejects(n, s, j);
}

/// The text of member `k` of `v`, or the empty string.
pub fn str_field(v: &Json, k: &str) -> (r: String)
    ensures
        r@ == str_field_v(v@, k@),
{
    match str_in(v.get(k)) {
        Some(s) => String::from_str(s),
        None => String::new(),
    }
}

/// The number that member `k` of `v` holds (see `num_field_v`).
pub fn num_field(v: &Json, k: &str) -> (r: u64)
    ensures
        r == num_field_v(v@, k@),
{
    let m = v.get(k);
    match str_in(m) {
        Some(s) => match parse_u64(s) {
            Some(n) => {
                return n;
            },
            None => {},
        },
        None => {},
    }
    match m {
        Some(x) => match x.as_u64() {
            Some(n) => n,
            None => 0,
        },
        None => 0,
    }
}

/// The first file that an aria2 status lists.
pub open spec fn first_file(v: JsonV) -> Option<JsonV> {
    first_of(arr_of(get_v(v, "files"@)))
}

/// The torrent's name in an aria2 status, or the empty string.
pub open spec fn torrent_name(v: JsonV) -> Seq<char> {
    or_empty(str_of(get_opt(get_opt(get_v(v, "bittorrent"@), "info"@), "name"@)))
}

/// The first URI of the first file of an aria2 status, or the empty string.
pub open spec fn download_url(v: JsonV) -> Seq<char> {
    or_empty(str_of(get_opt(first_of(arr_of(get_opt(first_file(v), "uris"@))), "uri"@)))
}

/// The name of a download: the torrent's name, else the file name of the
/// first file's path, else the file name of its URL, else `download-` and
/// its gid.
pub open spec fn download_name(v: JsonV) -> Seq<char> {
    let n0 = torrent_name(v);
    let n1 = match str_of(get_opt(first_file(v), "path"@)) {
        Some(p) => if n0.len() == 0 && p.len() > 0 {
            basename_spec(p)
        } else {
            n0
        },
        None => n0,
    };
    if n1.len() == 0 {
        let url = download_url(v);
        if url.len() == 0 {
            "download-"@ + str_field_v(v, "gid"@)
        } else {
            basename_spec(url)
        }
    } else {
        n1
    }
}

proof fn lemma_basename_shorter(s: Seq<char>)
    ensures
        basename_spec(s).len() <= s.len(),
{
    lemma_first_of2(s, '?', '#');
    let t = s.take(first_of2(s, '?', '#'));
    lemma_tail_start(t);
}

/// Law: a download is named after the torrent when it has a name; else
/// after the file name of its first file's path, whatever URL that file
/// carries; the URL's file name is used only when both of those are empty,
/// and `download-` with the gid only when the URL is empty too. Its URL is
/// the first URI of its first file.
pub proof fn lemma_download_name(v: JsonV)
    ensures
        ({
            let t = or_empty(str_of(get_opt(get_opt(get_v(v, "bittorrent"@), "info"@), "name"@)));
            let f0 = first_of(arr_of(get_v(v, "files"@)));
            let p = str_of(get_opt(f0, "path"@));
            let u = or_empty(str_of(get_opt(first_of(arr_of(get_opt(f0, "uris"@))), "uri"@)));
            let from_path = match p {
                Some(x) => basename_spec(x),
                None => Seq::empty(),
            };
            let d = download_of(v);
            &&& d.url == u
            &&& t.len() > 0 ==> d.name == t
            &&& t.len() == 0 && from_path.len() > 0 ==> d.name == from_path
            &&& t.len() == 0 && from_path.len() == 0 && u.len() > 0 ==> d.name == basename_spec(u)
            &&& t.len() == 0 && from_path.len() == 0 && u.len() == 0 ==> d.name == "download-"@
                + or_empty(str_of(get_v(v, "gid"@)))
        }),
{
    match str_of(get_opt(first_file(v), "path"@)) {
        Some(x) => lemma_basename_shorter(x),
        None => {},
    }
}

/// The normalized view of one aria2 status entry.
pub open spec fn download_of(v: JsonV) -> DownloadV {
    DownloadV {
        gid: str_field_v(v, "gid"@),
        name: download_name(v),
        url: download_url(v),
        total: num_field_v(v, "totalLength"@),
        completed: num_field_v(v, "completedLength"@),
        speed: num_field_v(v, "downloadSpeed"@),
        status: str_field_v(v, "status"@),
        dir: str_field_v(v, "dir"@),
    }
}

/// Law: a download's gid, status and folder are the status entry's
/// `gid`, `status` and `dir` texts (empty when missing); its total size,
/// completed size and speed are the numbers that `totalLength`,
/// `completedLength` and `downloadSpeed` hold, whether written in decimal
/// text, as aria2 sends them, or as numbers, and 0 when missing.
pub proof fn lemma_download_fields(v: JsonV, total: u64, completed: u64, speed: u64)
    ensures
        ({
            let d = download_of(v);
            &&& d.gid == or_empty(str_of(get_v(v, "gid"@)))
            &&& d.status == or_empty(str_of(get_v(v, "status"@)))
            &&& d.dir == or_empty(str_of(get_v(v, "dir"@)))
            &&& get_v(v, "totalLength"@) == Some(JsonV::Str(decimal(total as nat))) ==> d.total == total
            &&& get_v(v, "totalLength"@) == Some(JsonV::UInt(total)) ==> d.total == total
            &&& get_v(v, "totalLength"@) is None ==> d.total == 0
            &&& get_v(v, "completedLength"@) == Some(JsonV::Str(decimal(completed as nat)))
                ==> d.completed == completed
            &&& get_v(v, "completedLength"@) == Some(JsonV::UInt(completed)) ==> d.completed == completed
            &&& get_v(v, "completedLength"@) is None ==> d.completed == 0
            &&& get_v(v, "downloadSpeed"@) == Some(JsonV::Str(decimal(speed as nat))) ==> d.speed == speed
            &&& get_v(v, "downloadSpeed"@) == Some(JsonV::UInt(speed)) ==> d.speed == speed
            &&& get_v(v, "downloadSpeed"@) is None ==> d.speed == 0
        }),
{
    lemma_parse_decimal_roundtrip(total);
    lemma_parse_decimal_roundtrip(completed);
    lemma_parse_decimal_roundtrip(speed);
}

/// Builds the normalized view of one aria2 status entry.
pub fn to_download(v: &Json) -> (d: Download)
    ensures
        d@ == download_of(v@),
{
    let gid = str_field(v, "gid");
    let status = str_field(v, "status");
    let total = num_field(v, "totalLength");
    let completed = num_field(v, "completedLength");
    let speed = num_field(v, "downloadSpeed");
    let dir = str_field(v, "dir");

    // Prefer the torrent name, then the on-disk file name, then the URL tail.
    let mut name = match str_in(get_in(get_in(v.get("bittorrent"), "info"), "name")) {
        Some(n) => String::from_str(n),
        None => String::new(),
    };
    let mut url = String::new();
    let first = first_in(v.get("files"));
    match str_in(get_in(first, "path")) {
        Some(path) => {
            if name.as_str().unicode_len() == 0 && path.unicode_len() > 0 {
                name = basename(path);
            }
        },
        None => {},
    }
    match str_in(get_in(first_in(get_in(first, "uris")), "uri")) {
        Some(u0) => {
            url = String::from_str(u0);
        },
        None => {},
    }
    if name.as_str().unicode_len() == 0 {
        name = if url.as_str().unicode_len() == 0 {
            let mut n = String::from_str("download-");
            n.append(gid.as_str());
            n
        } else {
            basename(url.as_str())
        };
    }
    Download { gid, name, url, total, completed, speed, status, dir }
}

/// The normalized views of the entries of an aria2 list reply; nothing when
/// the reply is not an array.
pub open spec fn downloads_of(arr: JsonV) -> Seq<DownloadV> {
    match arr {
        JsonV::Arr(items) => Seq::new(items.len(), |i: int| download_of(items[i])),
        _ => Seq::empty(),
    }
}

/// Law: listing a reply gives one download per entry, in the reply's order,
/// each the normalized view of its entry; a reply that is not an array
/// gives none.
pub proof fn lemma_downloads_in_order(arr: JsonV)
    ensures
        arr is Arr ==> downloads_of(arr).len() == arr->Arr_0.len() && forall|i: int|
            0 <= i < arr->Arr_0.len() ==> #[trigger] downloads_of(arr)[i] == download_of(arr->Arr_0[i]),
        !(arr is Arr) ==> downloads_of(arr).len() == 0,
{
}

/// The views of a sequence of downloads.
pub open spec fn downloads_view(s: Seq<Download>) -> Seq<DownloadV> {
    Seq::new(s.len(), |i: int| s[i]@)
}

/// Appends to `out` the normalized view of each entry of the list `arr`.
pub fn push_items(arr: &Json, out: &mut Vec<Download>)
    ensures
        downloads_view(final(out)@) == downloads_view(old(out)@) + downloads_of(arr@),
{
    match arr.as_array() {
        Some(list) => {
            let ghost start = out@;
            for i in 0..list.len()
                invariant
                    arr_of(Some(arr@)) == Some(arr_view(list@)),
                    downloads_view(out@) =~= downloads_view(start) + Seq::new(
                        i as nat,
                        |j: int| download_of(arr_view(list@)[j]),
                    ),
            {
                let d = to_download(&list[i]);
                assert(arr_view(list@)[i as int] == list@[i as int]@);
                let ghost before = out@;
                out.push(d);
                assert(downloads_view(out@) =~= downloads_view(before).push(d@));
            }
            assert(downloads_of(arr@) =~= Seq::new(
                list.len() as nat,
                |j: int| download_of(arr_view(list@)[j]),
            ));
        },
        None => {
            assert(downloads_view(out@) =~= downloads_view(out@) + downloads_of(arr@));
        },
    }
}


/// Where aria2 answers JSON-RPC requests, and the secret it expects.
#[derive(Debug, Clone, PartialEq)]
pub struct Aria2 {
    url: String,
    secret: String,
}

/// The RPC endpoint of an aria2 daemon listening on `port` of this machine.
pub open spec fn endpoint_of(port: u16) -> Seq<char> {
    "http://127.0.0.1:"@ + decimal(port as nat) + "/jsonrpc"@
}

impl Aria2 {
    /// The endpoint that requests go to.
    pub closed spec fn endpoint(&self) -> Seq<char> {
        self.url@
    }

    /// The RPC secret.
    pub closed spec fn secret_v(&self) -> Seq<char> {
        self.secret@
    }

    /// A client of the daemon on `port` of this machine, which authenticates
    /// with `secret`.
    pub fn new(port: u16, secret: &str) -> (r: Aria2)
        ensures
            r.endpoint() == endpoint_of(port),
            r.secret_v() == secret@,
    {
        let mut url = String::from_str("http://127.0.0.1:");
        push_decimal(&mut url, port as u64);
        url.append("/jsonrpc");
        Aria2 { url, secret: String::from_str(secret) }
    }

    /// The endpoint that requests go to.
    pub fn url(&self) -> (r: &str)
        ensures
            r@ == self.endpoint(),
    {
        self.url.as_str()
    }

    /// The token that authenticates a call: `token:` and the secret.
    pub fn token(&self) -> (r: String)
        ensures
            r@ == "token:"@ + self.secret_v(),
    {
        let mut t = String::from_str("token:");
        t.append(self.secret.as_str());
        t
    }

    /// The JSON-RPC request body of `call`.
    pub fn request(&self, call: Call) -> (r: Json)
        ensures
            r@ == request_v(self.secret_v(), method_of(call), params_of(call)),
    {
        let ghost c = call;
        let method = method_name(&call);
        let mut full: Vec<Json> = Vec::new();
        assert(arr_view(full@) =~= Seq::<JsonV>::empty());
        let t = self.token();
        push_element(&mut full, Json::Str(t));
        assert(arr_view(full@) =~= seq![JsonV::Str("token:"@ + self.secret_v())]);
        call_params(call, &mut full);
        let ghost fv = arr_view(full@);
        let mut m: Vec<(String, Json)> = Vec::new();
        assert(obj_view(m@) =~= Seq::<(Seq<char>, JsonV)>::empty());
        push_member(&mut m, "jsonrpc", Json::string("2.0"));
        push_member(&mut m, "id", Json::string("idmnoads"));
        push_member(&mut m, "method", Json::string(method));
        push_member(&mut m, "params", Json::Arr(full));
        assert(fv =~= seq![JsonV::Str("token:"@ + self.secret_v())] + params_of(c));
        let r = Json::Obj(m);
        assert(obj_view(m@) =~= seq![
            ("jsonrpc"@, JsonV::Str("2.0"@)),
            ("id"@, JsonV::Str("idmnoads"@)),
            ("method"@, JsonV::Str(method_of(c))),
            ("params"@, JsonV::Arr(seq![JsonV::Str("token:"@ + self.secret_v())] + params_of(c))),
        ]);
        r
    }
}

/// An aria2 JSON-RPC method and its parameters, after the token.
#[derive(Debug, PartialEq)]
pub enum Call {
    GetVersion,
    AddUri { uris: Vec<String>, options: Json },
    AddTorrent { torrent: String, options: Json },
    Pause(String),
    Unpause(String),
    PauseAll,
    UnpauseAll,
    Remove(String),
    ForceRemove(String),
    RemoveDownloadResult(String),
    PurgeDownloadResult,
    ChangeGlobalOption(Json),
    GetGlobalStat,
    TellStatus(String),
    TellActive,
    TellWaiting,
    TellStopped,
}

/// The JSON-RPC request body of a call of `method` with `params`.
pub open spec fn request_v(secret: Seq<char>, method: Seq<char>, params: Seq<JsonV>) -> JsonV {
    JsonV::Obj(
        seq![
            ("jsonrpc"@, JsonV::Str("2.0"@)),
            ("id"@, JsonV::Str("idmnoads"@)),
            ("method"@, JsonV::Str(method)),
            ("params"@, JsonV::Arr(seq![JsonV::Str("token:"@ + secret)] + params)),
        ],
    )
}

/// Law: a request to add URIs calls `aria2.addUri` with the token, then an
/// array of exactly the given URIs in order, then the options.
pub proof fn lemma_add_uri_request(secret: Seq<char>, uris: Vec<String>, options: Json)
    ensures
        ({
            let c = Call::AddUri { uris, options };
            let r = request_v(secret, method_of(c), params_of(c));
            &&& get_v(r, "method"@) == Some(JsonV::Str("aria2.addUri"@))
            &&& get_v(r, "params"@) is Some
            &&& get_v(r, "params"@)->0 is Arr
            &&& {
                let p = get_v(r, "params"@)->0->Arr_0;
                &&& p.len() == 3
                &&& p[0] == JsonV::Str("token:"@ + secret)
                &&& p[1] is Arr
                &&& p[1]->Arr_0.len() == uris@.len()
                &&& forall|i: int| 0 <= i < uris@.len() ==> p[1]->Arr_0[i] == JsonV::Str(#[trigger] uris@[i]@)
                &&& p[2] == options@
            }
        }),
{
    let c = Call::AddUri { uris, options };
    let r = request_v(secret, method_of(c), params_of(c));
    let m = r->Obj_0;
    reveal_strlit("jsonrpc");
    reveal_strlit("id");
    reveal_strlit("method");
    reveal_strlit("params");
    assert(m[0].0 == "jsonrpc"@ && m[1].0 == "id"@ && m[2].0 == "method"@ && m[3].0 == "params"@);
    assert("jsonrpc"@.len() == 7 && "id"@.len() == 2 && "method"@.len() == 6);
    assert(m[0].0 != "method"@);
    assert(m[1].0 != "method"@);
    lemma_member_at(m, "method"@, 2);
    assert(m[0].0 != "params"@);
    assert(m[1].0 != "params"@);
    assert(m[2].0[0] != "params"@[0]);
    lemma_member_at(m, "params"@, 3);
}

/// Where the method and the parameters stand in a request body.
proof fn lemma_request_members(secret: Seq<char>, method: Seq<char>, params: Seq<JsonV>)
    ensures
        get_v(request_v(secret, method, params), "jsonrpc"@) == Some(JsonV::Str("2.0"@)),
        get_v(request_v(secret, method, params), "id"@) == Some(JsonV::Str("idmnoads"@)),
        get_v(request_v(secret, method, params), "method"@) == Some(JsonV::Str(method)),
        get_v(request_v(secret, method, params), "params"@) == Some(
            JsonV::Arr(seq![JsonV::Str("token:"@ + secret)] + params),
        ),
{
    let m = request_v(secret, method, params)->Obj_0;
    reveal_strlit("jsonrpc");
    reveal_strlit("id");
    reveal_strlit("method");
    reveal_strlit("params");
    assert(m[0].0 == "jsonrpc"@ && m[1].0 == "id"@ && m[2].0 == "method"@ && m[3].0 == "params"@);
    assert("jsonrpc"@.len() == 7 && "id"@.len() == 2 && "method"@.len() == 6);
    assert(m[0].0 != "method"@);
    assert(m[1].0 != "method"@);
    lemma_member_at(m, "jsonrpc"@, 0);
    lemma_member_at(m, "id"@, 1);
    lemma_member_at(m, "method"@, 2);
    assert(m[0].0 != "params"@);
    assert(m[1].0 != "params"@);
    assert(m[2].0[0] != "params"@[0]);
    lemma_member_at(m, "params"@, 3);
}

/// Law: every request is a JSON-RPC 2.0 request with id `idmnoads`, names
/// the aria2 method of its call and passes the token first; then a call on one download passes its gid alone, adding a
/// torrent passes the torrent, an empty list of URIs and the options,
/// changing the global options passes the options, listing the active
/// downloads passes the status keys, listing the waiting or stopped ones
/// passes offset 0, at most 1000 entries and the status keys, and the other
/// calls pass nothing more.
pub proof fn lemma_call_request(secret: Seq<char>, c: Call)
    ensures
        ({
            let r = request_v(secret, method_of(c), params_of(c));
            let tok = JsonV::Str("token:"@ + secret);
            let keys = JsonV::Arr(
                seq![
                    JsonV::Str("gid"@),
                    JsonV::Str("status"@),
                    JsonV::Str("totalLength"@),
                    JsonV::Str("completedLength"@),
                    JsonV::Str("downloadSpeed"@),
                    JsonV::Str("dir"@),
                    JsonV::Str("files"@),
                    JsonV::Str("bittorrent"@),
                    JsonV::Str("errorMessage"@),
                ],
            );
            let method = get_v(r, "method"@);
            let p = get_v(r, "params"@);
            &&& get_v(r, "jsonrpc"@) == Some(JsonV::Str("2.0"@))
            &&& get_v(r, "id"@) == Some(JsonV::Str("idmnoads"@))
            &&& match c {
                Call::GetVersion => method == Some(JsonV::Str("aria2.getVersion"@)) && p == Some(
                    JsonV::Arr(seq![tok]),
                ),
                Call::AddUri { uris, options } => method == Some(JsonV::Str("aria2.addUri"@)) && p
                    == Some(JsonV::Arr(seq![tok, JsonV::Arr(Seq::new(uris@.len(), |i: int| JsonV::Str(uris@[i]@))), options@])),
                Call::AddTorrent { torrent, options } => method == Some(JsonV::Str("aria2.addTorrent"@)) && p
                    == Some(JsonV::Arr(seq![tok, JsonV::Str(torrent@), JsonV::Arr(Seq::empty()), options@])),
                Call::Pause(g) => method == Some(JsonV::Str("aria2.pause"@)) && p == Some(
                    JsonV::Arr(seq![tok, JsonV::Str(g@)]),
                ),
                Call::Unpause(g) => method == Some(JsonV::Str("aria2.unpause"@)) && p == Some(
                    JsonV::Arr(seq![tok, JsonV::Str(g@)]),
                ),
                Call::PauseAll => method == Some(JsonV::Str("aria2.pauseAll"@)) && p == Some(
                    JsonV::Arr(seq![tok]),
                ),
                Call::UnpauseAll => method == Some(JsonV::Str("aria2.unpauseAll"@)) && p == Some(
                    JsonV::Arr(seq![tok]),
                ),
                Call::Remove(g) => method == Some(JsonV::Str("aria2.remove"@)) && p == Some(
                    JsonV::Arr(seq![tok, JsonV::Str(g@)]),
                ),
                Call::ForceRemove(g) => method == Some(JsonV::Str("aria2.forceRemove"@)) && p == Some(
                    JsonV::Arr(seq![tok, JsonV::Str(g@)]),
                ),
                Call::RemoveDownloadResult(g) => method == Some(JsonV::Str("aria2.removeDownloadResult"@))
                    && p == Some(JsonV::Arr(seq![tok, JsonV::Str(g@)])),
                Call::PurgeDownloadResult => method == Some(JsonV::Str("aria2.purgeDownloadResult"@)) && p
                    == Some(JsonV::Arr(seq![tok])),
                Call::ChangeGlobalOption(o) => method == Some(JsonV::Str("aria2.changeGlobalOption"@)) && p
                    == Some(JsonV::Arr(seq![tok, o@])),
                Call::GetGlobalStat => method == Some(JsonV::Str("aria2.getGlobalStat"@)) && p == Some(
                    JsonV::Arr(seq![tok]),
                ),
                Call::TellStatus(g) => method == Some(JsonV::Str("aria2.tellStatus"@)) && p == Some(
                    JsonV::Arr(seq![tok, JsonV::Str(g@)]),
                ),
                Call::TellActive => method == Some(JsonV::Str("aria2.tellActive"@)) && p == Some(
                    JsonV::Arr(seq![tok, keys]),
                ),
                Call::TellWaiting => method == Some(JsonV::Str("aria2.tellWaiting"@)) && p == Some(
                    JsonV::Arr(seq![tok, JsonV::UInt(0), JsonV::UInt(1000), keys]),
                ),
                Call::TellStopped => method == Some(JsonV::Str("aria2.tellStopped"@)) && p == Some(
                    JsonV::Arr(seq![tok, JsonV::UInt(0), JsonV::UInt(1000), keys]),
                ),
            }
        }),
{
    lemma_request_members(secret, method_of(c), params_of(c));
    let tok = JsonV::Str("token:"@ + secret);
    let ps = seq![tok] + params_of(c);
    match c {
        Call::AddUri { uris, options } => {
            assert(strings_v(uris@) =~= Seq::new(uris@.len(), |i: int| JsonV::Str(uris@[i]@)));
            assert(ps =~= seq![tok, JsonV::Arr(strings_v(uris@)), options@]);
        },
        Call::AddTorrent { torrent, options } => {
            assert(ps =~= seq![tok, JsonV::Str(torrent@), JsonV::Arr(Seq::empty()), options@]);
        },
        Call::ChangeGlobalOption(o) => {
            assert(ps =~= seq![tok, o@]);
        },
        Call::TellActive => {
            assert(ps =~= seq![tok, list_keys_v()]);
        },
        Call::TellWaiting => {
            assert(ps =~= seq![tok, JsonV::UInt(0), JsonV::UInt(1000), list_keys_v()]);
        },
        Call::TellStopped => {
            assert(ps =~= seq![tok, JsonV::UInt(0), JsonV::UInt(1000), list_keys_v()]);
        },
        Call::Pause(g) => {
            assert(ps =~= seq![tok, JsonV::Str(g@)]);
        },
        Call::Unpause(g) => {
            assert(ps =~= seq![tok, JsonV::Str(g@)]);
        },
        Call::Remove(g) => {
            assert(ps =~= seq![tok, JsonV::Str(g@)]);
        },
        Call::ForceRemove(g) => {
            assert(ps =~= seq![tok, JsonV::Str(g@)]);
        },
        Call::RemoveDownloadResult(g) => {
            assert(ps =~= seq![tok, JsonV::Str(g@)]);
        },
        Call::TellStatus(g) => {
            assert(ps =~= seq![tok, JsonV::Str(g@)]);
        },
        _ => {
            assert(ps =~= seq![tok]);
        },
    }
}

/// The name of the aria2 method of a call.
pub open spec fn method_of(c: Call) -> Seq<char> {
    match c {
        Call::GetVersion => "aria2.getVersion"@,
        Call::AddUri { .. } => "aria2.addUri"@,
        Call::AddTorrent { .. } => "aria2.addTorrent"@,
        Call::Pause(_) => "aria2.pause"@,
        Call::Unpause(_) => "aria2.unpause"@,
        Call::PauseAll => "aria2.pauseAll"@,
        Call::UnpauseAll => "aria2.unpauseAll"@,
        Call::Remove(_) => "aria2.remove"@,
        Call::ForceRemove(_) => "aria2.forceRemove"@,
        Call::RemoveDownloadResult(_) => "aria2.removeDownloadResult"@,
        Call::PurgeDownloadResult => "aria2.purgeDownloadResult"@,
        Call::ChangeGlobalOption(_) => "aria2.changeGlobalOption"@,
        Call::GetGlobalStat => "aria2.getGlobalStat"@,
        Call::TellStatus(_) => "aria2.tellStatus"@,
        Call::TellActive => "aria2.tellActive"@,
        Call::TellWaiting => "aria2.tellWaiting"@,
        Call::TellStopped => "aria2.tellStopped"@,
    }
}

/// The status keys that listing asks aria2 for.
pub open spec fn list_keys_v() -> JsonV {
    JsonV::Arr(
        seq![
            JsonV::Str("gid"@),
            JsonV::Str("status"@),
            JsonV::Str("totalLength"@),
            JsonV::Str("completedLength"@),
            JsonV::Str("downloadSpeed"@),
            JsonV::Str("dir"@),
            JsonV::Str("files"@),
            JsonV::Str("bittorrent"@),
            JsonV::Str("errorMessage"@),
        ],
    )
}

/// JSON strings of the given texts.
pub open spec fn strings_v(s: Seq<String>) -> Seq<JsonV> {
    Seq::new(s.len(), |i: int| JsonV::Str(s[i]@))
}

/// The parameters of a call, after the token.
pub open spec fn params_of(c: Call) -> Seq<JsonV> {
    match c {
        Call::AddUri { uris, options } => seq![JsonV::Arr(strings_v(uris@)), options@],
        Call::AddTorrent { torrent, options } => seq![
            JsonV::Str(torrent@),
            JsonV::Arr(Seq::empty()),
            options@,
        ],
        Call::Pause(g) => seq![JsonV::Str(g@)],
        Call::Unpause(g) => seq![JsonV::Str(g@)],
        Call::Remove(g) => seq![JsonV::Str(g@)],
        Call::ForceRemove(g) => seq![JsonV::Str(g@)],
        Call::RemoveDownloadResult(g) => seq![JsonV::Str(g@)],
        Call::TellStatus(g) => seq![JsonV::Str(g@)],
        Call::ChangeGlobalOption(o) => seq![o@],
        Call::TellActive => seq![list_keys_v()],
        Call::TellWaiting => seq![JsonV::UInt(0), JsonV::UInt(1000), list_keys_v()],
        Call::TellStopped => seq![JsonV::UInt(0), JsonV::UInt(1000), list_keys_v()],
        _ => Seq::empty(),
    }
}

fn method_name(c: &Call) -> (r: &'static str)
    ensures
        r@ == method_of(*c),
{
    match c {
        Call::GetVersion => "aria2.getVersion",
        Call::AddUri { .. } => "aria2.addUri",
        Call::AddTorrent { .. } => "aria2.addTorrent",
        Call::Pause(_) => "aria2.pause",
        Call::Unpause(_) => "aria2.unpause",
        Call::PauseAll => "aria2.pauseAll",
        Call::UnpauseAll => "aria2.unpauseAll",
        Call::Remove(_) => "aria2.remove",
        Call::ForceRemove(_) => "aria2.forceRemove",
        Call::RemoveDownloadResult(_) => "aria2.removeDownloadResult",
        Call::PurgeDownloadResult => "aria2.purgeDownloadResult",
        Call::ChangeGlobalOption(_) => "aria2.changeGlobalOption",
        Call::GetGlobalStat => "aria2.getGlobalStat",
        Call::TellStatus(_) => "aria2.tellStatus",
        Call::TellActive => "aria2.tellActive",
        Call::TellWaiting => "aria2.tellWaiting",
        Call::TellStopped => "aria2.tellStopped",
    }
}

/// The status keys that listing asks aria2 for.
pub fn list_keys() -> (r: Json)
    ensures
        r@ == list_keys_v(),
{
    let mut a: Vec<Json> = Vec::new();
    push_element(&mut a, Json::string("gid"));
    push_element(&mut a, Json::string("status"));
    push_element(&mut a, Json::string("totalLength"));
    push_element(&mut a, Json::string("completedLength"));
    push_element(&mut a, Json::string("downloadSpeed"));
    push_element(&mut a, Json::string("dir"));
    push_element(&mut a, Json::string("files"));
    push_element(&mut a, Json::string("bittorrent"));
    push_element(&mut a, Json::string("errorMessage"));
    let r = Json::Arr(a);
    assert(arr_view(a@) =~= list_keys_v()->Arr_0);
    r
}

fn push_gid(out: &mut Vec<Json>, g: String)
    ensures
        arr_view(final(out)@) == arr_view(old(out)@).push(JsonV::Str(g@)),
{
    push_element(out, Json::Str(g));
}

fn call_params(c: Call, out: &mut Vec<Json>)
    ensures
        arr_view(final(out)@) == arr_view(old(out)@) + params_of(c),
{
    let ghost start = arr_view(out@);
    let ghost cv = c;
    match c {
        Call::AddUri { uris, options } => {
            let mut a: Vec<Json> = Vec::new();
            for i in 0..uris.len()
                invariant
                    arr_view(a@) =~= strings_v(uris@).take(i as int),
            {
                push_element(&mut a, Json::string(uris[i].as_str()));
            }
            assert(strings_v(uris@).take(uris.len() as int) =~= strings_v(uris@));
            push_element(out, Json::Arr(a));
            push_element(out, options);
        },
        Call::AddTorrent { torrent, options } => {
            push_element(out, Json::Str(torrent));
            let empty: Vec<Json> = Vec::new();
            assert(arr_view(empty@) =~= Seq::<JsonV>::empty());
            push_element(out, Json::Arr(empty));
            push_element(out, options);
        },
        Call::Pause(g) => push_gid(out, g),
        Call::Unpause(g) => push_gid(out, g),
        Call::Remove(g) => push_gid(out, g),
        Call::ForceRemove(g) => push_gid(out, g),
        Call::RemoveDownloadResult(g) => push_gid(out, g),
        Call::TellStatus(g) => push_gid(out, g),
        Call::ChangeGlobalOption(o) => push_element(out, o),
        Call::TellActive => push_element(out, list_keys()),
        Call::TellWaiting => {
            push_element(out, Json::UInt(0));
            push_element(out, Json::UInt(1000));
            push_element(out, list_keys());
        },
        Call::TellStopped => {
            push_element(out, Json::UInt(0));
            push_element(out, Json::UInt(1000));
            push_element(out, list_keys());
        },
        _ => {},
    }
    assert(arr_view(out@) =~= start + params_of(cv));
}

/// What a JSON-RPC reply means: the message of its `error` member (or
/// `aria2 error` when that has none) when it has one, else its `result`
/// member, or null when it has none.
pub open spec fn rpc_result_v(reply: JsonV) -> Result<JsonV, Seq<char>> {
    match get_v(reply, "error"@) {
        Some(e) => Err(
            match str_of(get_v(e, "message"@)) {
                Some(m) => m,
                None => "aria2 error"@,
            },
        ),
        None => Ok(
            match get_v(reply, "result"@) {
                Some(x) => x,
                None => JsonV::Null,
            },
        ),
    }
}

/// Law: a reply with an `error` member fails, with the error's `message`
/// when that is a string and `aria2 error` otherwise, whatever result it
/// also carries; a reply without one succeeds with its `result`, or null
/// when it has none.
pub proof fn lemma_reply_meaning(reply: JsonV)
    ensures
        get_v(reply, "error"@) is Some && str_of(get_v(get_v(reply, "error"@)->0, "message"@)) is Some
            ==> rpc_result_v(reply) == Err::<JsonV, Seq<char>>(
            str_of(get_v(get_v(reply, "error"@)->0, "message"@))->0,
        ),
        get_v(reply, "error"@) is Some && str_of(get_v(get_v(reply, "error"@)->0, "message"@)) is None
            ==> rpc_result_v(reply) == Err::<JsonV, Seq<char>>("aria2 error"@),
        get_v(reply, "error"@) is None && get_v(reply, "result"@) is Some ==> rpc_result_v(reply)
            == Ok::<JsonV, Seq<char>>(get_v(reply, "result"@)->0),
        get_v(reply, "error"@) is None && get_v(reply, "result"@) is None ==> rpc_result_v(reply)
            == Ok::<JsonV, Seq<char>>(JsonV::Null),
{
}

/// Interprets a JSON-RPC reply of aria2.
pub fn rpc_result(reply: Json) -> (r: Result<Json, String>)
    ensures
        match r {
            Ok(x) => rpc_result_v(reply@) == Ok::<JsonV, Seq<char>>(x@),
            Err(e) => rpc_result_v(reply@) == Err::<JsonV, Seq<char>>(e@),
        },
{
    match reply.get("error") {
        Some(e) => {
            return Err(
                match str_in(e.get("message")) {
                    Some(m) => String::from_str(m),
                    None => String::from_str("aria2 error"),
                },
            );
        },
        None => {},
    }
    match take_member(reply, "result") {
        Some(x) => Ok(x),
        None => Ok(Json::Null),
    }
}

/// The text of a reply result, or the empty string: the gid that adding a
/// download answers.
pub fn result_text(r: &Json) -> (s: String)
    ensures
        s@ == or_empty(str_of(Some(r@))),
{
    match r.as_str() {
        Some(t) => String::from_str(t),
        None => String::new(),
    }
}

/// The calls that complete removing a download after `aria2.remove`: a
/// forced removal when that failed, then dropping the download's result.
pub fn removal_followups(gid: &str, remove_failed: bool) -> (r: Vec<Call>)
    ensures
        remove_failed ==> r@.len() == 2 && r@[0] is ForceRemove && r@[0]->ForceRemove_0@ == gid@
            && r@[1] is RemoveDownloadResult && r@[1]->RemoveDownloadResult_0@ == gid@,
        !remove_failed ==> r@.len() == 1 && r@[0] is RemoveDownloadResult
            && r@[0]->RemoveDownloadResult_0@ == gid@,
{
    let mut r: Vec<Call> = Vec::new();
    if remove_failed {
        r.push(Call::ForceRemove(String::from_str(gid)));
    }
    r.push(Call::RemoveDownloadResult(String::from_str(gid)));
    r
}

} // verus!
