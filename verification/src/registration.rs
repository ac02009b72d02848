//! Registering the native-messaging host with the browsers: the manifests
//! that describe it and the registry keys that point the browsers at them.
use vstd::prelude::*;
use crate::settings::{texts, push_text};
use crate::text::{chars_of, push_char};

verus! {

/// The file that marks the host as registered.
pub const SENTINEL_FILE: &'static str = "native_host_registered";

/// The manifest file for Chromium-based browsers.
pub const CHROME_MANIFEST_FILE: &'static str = "com.idmnoads.host.chrome.json";

/// The manifest file for Firefox.
pub const FIREFOX_MANIFEST_FILE: &'static str = "com.idmnoads.host.firefox.json";

/// The Chromium manifest up to the host's path.
pub const CHROME_MANIFEST_HEAD: &'static str = "{\n  \"name\": \"com.idmnoads.host\",\n  \"description\": \"IDM No Ads native messaging host\",\n  \"path\": \"";

/// The Chromium manifest after the host's path.
pub const CHROME_MANIFEST_TAIL: &'static str = "\",\n  \"type\": \"stdio\",\n  \"allowed_origins\": [ \"chrome-extension://ikbamigoaahjngjceemkppoimlphgmii/\", \"chrome-extension://hbommjcibnllhahdgcjkkbjikbifmenk/\" ]\n}";

/// The Firefox manifest up to the host's path.
pub const FIREFOX_MANIFEST_HEAD: &'static str = "{\n  \"name\": \"com.idmnoads.host\",\n  \"description\": \"IDM No Ads native messaging host\",\n  \"path\": \"";

/// The Firefox manifest after the host's path.
pub const FIREFOX_MANIFEST_TAIL: &'static str = "\",\n  \"type\": \"stdio\",\n  \"allowed_extensions\": [ \"idmnoads@hostingrakyat\" ]\n}";

/// `s` with each `\` doubled, as a JSON string needs it.
pub open spec fn escaped(s: Seq<char>) -> Seq<char>
    decreases s.len(),
{
    if s.len() == 0 {
        Seq::empty()
    } else {
        escaped(s.drop_last()) + if s.last() == '\\' {
            seq!['\\', '\\']
        } else {
            seq![s.last()]
        }
    }
}

/// `s` with each `\` doubled.
pub fn escape_backslashes(s: &str) -> (r: String)
    ensures
        r@ == escaped(s@),
{
    let v = chars_of(s);
    let mut r = String::new();
    for i in 0..v.len()
        invariant
            v@ == s@,
            r@ == escaped(s@.take(i as int)),
    {
        assert(s@.take(i + 1).drop_last() =~= s@.take(i as int));
        if v[i] == '\\' {
            push_char(&mut r, '\\');
        }
        push_char(&mut r, v[i]);
        assert(r@ =~= escaped(s@.take(i + 1)));
    }
    assert(s@.take(v.len() as int) =~= s@);
    r
}

/// The Chromium manifest of the host at `host_path`.
pub open spec fn chrome_manifest_v(host_path: Seq<char>) -> Seq<char> {
    CHROME_MANIFEST_HEAD@ + escaped(host_path) + CHROME_MANIFEST_TAIL@
}

/// The Firefox manifest of the host at `host_path`.
pub open spec fn firefox_manifest_v(host_path: Seq<char>) -> Seq<char> {
    FIREFOX_MANIFEST_HEAD@ + escaped(host_path) + FIREFOX_MANIFEST_TAIL@
}

/// The Chromium manifest of the host at `host_path`.
pub fn chrome_manifest(host_path: &str) -> (r: String)
    ensures
        r@ == chrome_manifest_v(host_path@),
{
    let mut r = String::from_str(CHROME_MANIFEST_HEAD);
    let p = escape_backslashes(host_path);
    r.append(p.as_str());
    r.append(CHROME_MANIFEST_TAIL);
    r
}

/// The Firefox manifest of the host at `host_path`.
pub fn firefox_manifest(host_path: &str) -> (r: String)
    ensures
        r@ == firefox_manifest_v(host_path@),
{
    let mut r = String::from_str(FIREFOX_MANIFEST_HEAD);
    let p = escape_backslashes(host_path);
    r.append(p.as_str());
    r.append(FIREFOX_MANIFEST_TAIL);
    r
}

/// The file names under which the host program may stand next to the app,
/// in order of preference.
pub open spec fn host_candidates_v() -> Seq<Seq<char>> {
    seq!["idmnoads-host.exe"@, "idmnoads-host-x86_64-pc-windows-msvc.exe"@]
}

/// The file names under which the host program may stand next to the app.
pub fn host_candidates() -> (r: Vec<String>)
    ensures
        texts(r@) == host_candidates_v(),
{
    let mut r: Vec<String> = Vec::new();
    assert(texts(r@) =~= Seq::<Seq<char>>::empty());
    push_text(&mut r, String::from_str("idmnoads-host.exe"));
    push_text(&mut r, String::from_str("idmnoads-host-x86_64-pc-windows-msvc.exe"));
    r
}

/// The registry keys, under the current user, that point each browser at
/// its manifest, with the manifest's path.
pub open spec fn registry_entries_v(chrome: Seq<char>, firefox: Seq<char>) -> Seq<
    (Seq<char>, Seq<char>),
> {
    seq![
        ("Software\\Google\\Chrome\\NativeMessagingHosts\\com.idmnoads.host"@, chrome),
        ("Software\\Chromium\\NativeMessagingHosts\\com.idmnoads.host"@, chrome),
        ("Software\\Microsoft\\Edge\\NativeMessagingHosts\\com.idmnoads.host"@, chrome),
        ("Software\\BraveSoftware\\Brave-Browser\\NativeMessagingHosts\\com.idmnoads.host"@, chrome),
        ("Software\\Mozilla\\NativeMessagingHosts\\com.idmnoads.host"@, firefox),
    ]
}

/// The texts of a sequence of string pairs.
pub open spec fn pair_texts(v: Seq<(String, String)>) -> Seq<(Seq<char>, Seq<char>)> {
    Seq::new(v.len(), |i: int| (v[i].0@, v[i].1@))
}

fn push_pair(v: &mut Vec<(String, String)>, k: &str, p: &str)
    ensures
        pair_texts(final(v)@) == pair_texts(old(v)@).push((k@, p@)),
{
    let ghost before = v@;
    v.push((String::from_str(k), String::from_str(p)));
    assert(pair_texts(v@) =~= pair_texts(before).push((k@, p@)));
}

/// The registry keys that point the browsers at the manifests `chrome` and
/// `firefox`.
pub fn registry_entries(chrome: &str, firefox: &str) -> (r: Vec<(String, String)>)
    ensures
        pair_texts(r@) == registry_entries_v(chrome@, firefox@),
{
    let mut r: Vec<(String, String)> = Vec::new();
    assert(pair_texts(r@) =~= Seq::<(Seq<char>, Seq<char>)>::empty());
    push_pair(&mut r, "Software\\Google\\Chrome\\NativeMessagingHosts\\com.idmnoads.host", chrome);
    push_pair(&mut r, "Software\\Chromium\\NativeMessagingHosts\\com.idmnoads.host", chrome);
    push_pair(&mut r, "Software\\Microsoft\\Edge\\NativeMessagingHosts\\com.idmnoads.host", chrome);
    push_pair(
        &mut r,
        "Software\\BraveSoftware\\Brave-Browser\\NativeMessagingHosts\\com.idmnoads.host",
        chrome,
    );
    push_pair(&mut r, "Software\\Mozilla\\NativeMessagingHosts\\com.idmnoads.host", firefox);
    assert(pair_texts(r@) =~= registry_entries_v(chrome@, firefox@));
    r
}

} // verus!
