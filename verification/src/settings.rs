//! Persistent user settings, what they default to, and what they set up in
//! the aria2 daemon.
use vstd::prelude::*;
use crate::text::{push_char, chars_of};
use rand::RngCore;

verus! {

/// The local port on which the aria2 daemon answers JSON-RPC.
pub const RPC_PORT: u16 = 6800;

/// Persistent user settings.
#[derive(Debug, Clone, PartialEq)]
pub struct Settings {
    pub max_concurrent: u32,
    pub connections: u32,
    /// KB/s; 0 means unlimited.
    pub speed_limit: u64,
    pub default_dir: String,
    pub proxy: String,
    pub clipboard_watch: bool,
    pub autostart: bool,
    pub minimize_to_tray: bool,
    pub scheduler_enabled: bool,
    pub schedule_start: String,
    pub schedule_stop: String,
    pub filetypes: Vec<String>,
    pub language: String,
    pub theme: String,
    /// aria2 RPC secret, generated once and reused so that the browser
    /// extension can keep talking to the same daemon.
    pub rpc_secret: String,
    /// Whether the first-run prompt to add the extension to the browser has
    /// already been shown.
    pub browser_prompt_shown: bool,
}

/// The texts of a sequence of strings.
pub open spec fn texts(v: Seq<String>) -> Seq<Seq<char>> {
    Seq::new(v.len(), |i: int| v[i]@)
}

/// Appends `s` to `v`.
pub fn push_text(v: &mut Vec<String>, s: String)
    ensures
        texts(final(v)@) == texts(old(v)@).push(s@),
{
    let ghost before = v@;
    v.push(s);
    assert(texts(v@) =~= texts(before).push(s@));
}

/// A string holding `a` followed by `b`.
pub fn concat(a: &str, b: &str) -> (r: String)
    ensures
        r@ == a@ + b@,
{
    let mut r = String::from_str(a);
    r.append(b);
    r
}

/// The file types that are captured by default.
pub open spec fn default_filetypes() -> Seq<Seq<char>> {
    seq![
        "mp4"@, "mkv"@, "mp3"@, "flac"@, "pdf"@, "zip"@, "rar"@, "7z"@, "exe"@, "msi"@, "apk"@,
        "iso"@, "doc"@, "docx"@, "xls"@, "xlsx"@,
    ]
}

/// Whether `s` holds the default settings, with `dir` as download folder.
pub open spec fn is_default(s: Settings, dir: Seq<char>) -> bool {
    &&& s.max_concurrent == 5
    &&& s.connections == 16
    &&& s.speed_limit == 0
    &&& s.default_dir@ == dir
    &&& s.proxy@ == Seq::<char>::empty()
    &&& !s.clipboard_watch
    &&& !s.autostart
    &&& s.minimize_to_tray
    &&& !s.scheduler_enabled
    &&& s.schedule_start@ == "01:00"@
    &&& s.schedule_stop@ == "08:00"@
    &&& texts(s.filetypes@) == default_filetypes()
    &&& s.language@ == "en"@
    &&& s.theme@ == "dark"@
    &&& s.rpc_secret@ == Seq::<char>::empty()
    &&& !s.browser_prompt_shown
}

impl Settings {
    /// The default settings, downloading into `default_dir`.
    pub fn defaults(default_dir: String) -> (s: Settings)
        ensures
            is_default(s, default_dir@),
    {
        let mut filetypes: Vec<String> = Vec::new();
        assert(texts(filetypes@) =~= Seq::<Seq<char>>::empty());
        push_text(&mut filetypes, String::from_str("mp4"));
        push_text(&mut filetypes, String::from_str("mkv"));
        push_text(&mut filetypes, String::from_str("mp3"));
        push_text(&mut filetypes, String::from_str("flac"));
        push_text(&mut filetypes, String::from_str("pdf"));
        push_text(&mut filetypes, String::from_str("zip"));
        push_text(&mut filetypes, String::from_str("rar"));
        push_text(&mut filetypes, String::from_str("7z"));
        push_text(&mut filetypes, String::from_str("exe"));
        push_text(&mut filetypes, String::from_str("msi"));
        push_text(&mut filetypes, String::from_str("apk"));
        push_text(&mut filetypes, String::from_str("iso"));
        push_text(&mut filetypes, String::from_str("doc"));
        push_text(&mut filetypes, String::from_str("docx"));
        push_text(&mut filetypes, String::from_str("xls"));
        push_text(&mut filetypes, String::from_str("xlsx"));
        assert(texts(filetypes@) =~= default_filetypes());
        Settings {
            max_concurrent: 5,
            connections: 16,
            speed_limit: 0,
            default_dir,
            proxy: String::new(),
            clipboard_watch: false,
            autostart: false,
            minimize_to_tray: true,
            scheduler_enabled: false,
            schedule_start: String::from_str("01:00"),
            schedule_stop: String::from_str("08:00"),
            filetypes,
            language: String::from_str("en"),
            theme: String::from_str("dark"),
            rpc_secret: String::new(),
            browser_prompt_shown: false,
        }
    }
}


/// Whether `c` ends a path component: `/`, and on Windows also `\`.
pub open spec fn is_path_sep(c: char, windows: bool) -> bool {
    c == '/' || (windows && c == '\\')
}

/// Whether `c` is an ASCII letter.
pub open spec fn is_ascii_letter(c: char) -> bool {
    ('a' <= c <= 'z') || ('A' <= c <= 'Z')
}

/// Whether `h` is nothing but a Windows drive, such as `C:` or `\\?\C:`.
pub open spec fn is_drive_only(h: Seq<char>) -> bool {
    (h.len() == 2 && is_ascii_letter(h[0]) && h[1] == ':') || (h.len() == 6 && h[0] == '\\'
        && h[1] == '\\' && h[2] == '?' && h[3] == '\\' && is_ascii_letter(h[4]) && h[5] == ':')
}

/// `Downloads` joined onto the folder `home`, as `Path::join` does: a
/// separator goes between them unless `home` is empty, already ends with a
/// separator, or is a bare Windows drive.
pub open spec fn downloads_under(home: Seq<char>, windows: bool) -> Seq<char> {
    if home.len() > 0 && !is_path_sep(home.last(), windows) && !(windows && is_drive_only(home)) {
        home + seq![if windows { '\\' } else { '/' }] + "Downloads"@
    } else {
        home + "Downloads"@
    }
}

/// The default download folder: `Downloads` in the user's home folder, or
/// nothing when the home folder is unknown.
pub open spec fn default_download_dir_v(home: Option<Seq<char>>, windows: bool) -> Seq<char> {
    match home {
        Some(h) => downloads_under(h, windows),
        None => Seq::empty(),
    }
}

fn is_ascii_letter_exec(c: char) -> (r: bool)
    ensures
        r == is_ascii_letter(c),
{
    ('a' <= c && c <= 'z') || ('A' <= c && c <= 'Z')
}

/// The default download folder under the home folder `home` (the user
/// profile on Windows), or the empty string when it is unknown.
pub fn default_download_dir(home: Option<&str>, windows: bool) -> (r: String)
    ensures
        r@ == default_download_dir_v(
            match home {
                Some(h) => Some(h@),
                None => None,
            },
            windows,
        ),
{
    match home {
        None => String::new(),
        Some(h) => {
            let v = chars_of(h);
            let n = v.len();
            let drive_only = (n == 2 && is_ascii_letter_exec(v[0]) && v[1] == ':') || (n == 6
                && v[0] == '\\' && v[1] == '\\' && v[2] == '?' && v[3] == '\\'
                && is_ascii_letter_exec(v[4]) && v[5] == ':');
            let mut r = String::from_str(h);
            if n > 0 && !(v[n - 1] == '/' || (windows && v[n - 1] == '\\')) && !(windows
                && drive_only) {
                push_char(&mut r, if windows { '\\' } else { '/' });
            }
            r.append("Downloads");
            r
        },
    }
}

/// The lowercase hexadecimal digit of `d`.
pub open spec fn hex_digit(d: nat) -> char {
    if d < 10 {
        crate::text::digit_char(d)
    } else if d == 10 { 'a' }
    else if d == 11 { 'b' }
    else if d == 12 { 'c' }
    else if d == 13 { 'd' }
    else if d == 14 { 'e' }
    else { 'f' }
}

/// Each byte as two lowercase hexadecimal digits, as `{:02x}` writes it.
pub open spec fn hex_v(b: Seq<u8>) -> Seq<char>
    decreases b.len(),
{
    if b.len() == 0 {
        Seq::empty()
    } else {
        hex_v(b.drop_last()) + seq![hex_digit((b.last() / 16) as nat), hex_digit((b.last() % 16) as nat)]
    }
}

/// Whether `c` is a lowercase hexadecimal digit.
pub open spec fn is_hex_digit(c: char) -> bool {
    ('0' <= c <= '9') || ('a' <= c <= 'f')
}

fn hex_digit_exec(d: u8) -> (c: char)
    requires
        d < 16,
    ensures
        c == hex_digit(d as nat),
        is_hex_digit(c),
{
    if d == 0 { '0' }
    else if d == 1 { '1' }
    else if d == 2 { '2' }
    else if d == 3 { '3' }
    else if d == 4 { '4' }
    else if d == 5 { '5' }
    else if d == 6 { '6' }
    else if d == 7 { '7' }
    else if d == 8 { '8' }
    else if d == 9 { '9' }
    else if d == 10 { 'a' }
    else if d == 11 { 'b' }
    else if d == 12 { 'c' }
    else if d == 13 { 'd' }
    else if d == 14 { 'e' }
    else { 'f' }
}

/// The bytes in lowercase hexadecimal, two digits each.
pub fn hex_string(bytes: &[u8]) -> (r: String)
    ensures
        r@ == hex_v(bytes@),
        r@.len() == 2 * bytes@.len(),
        forall|i: int| 0 <= i < r@.len() ==> is_hex_digit(#[trigger] r@[i]),
{
    let mut r = String::new();
    for i in 0..bytes.len()
        invariant
            r@ == hex_v(bytes@.take(i as int)),
            r@.len() == 2 * i,
            forall|j: int| 0 <= j < r@.len() ==> is_hex_digit(#[trigger] r@[j]),
    {
        let b = bytes[i];
        let ghost before = r@;
        push_char(&mut r, hex_digit_exec(b / 16));
        push_char(&mut r, hex_digit_exec(b % 16));
        assert(bytes@.take(i + 1).drop_last() =~= bytes@.take(i as int));
        assert(r@ =~= before + seq![hex_digit((b / 16) as nat), hex_digit((b % 16) as nat)]);
    }
    assert(bytes@.take(bytes.len() as int) =~= bytes@);
    r
}

/// Declares rand's thread-local generator to the verifier.
#[verifier::external_type_specification]
#[verifier::external_body]
pub struct ExThreadRng(rand::rngs::ThreadRng);

/// The thread-local random number generator.
///
/// Calls `rand::thread_rng`, which hands out the generator that the system
/// seeds lazily for this thread.
#[verifier::external_body]
fn thread_rng() -> rand::rngs::ThreadRng {
    rand::thread_rng()
}

/// Fills `dest` with random bytes.
///
/// Calls `RngCore::fill_bytes` on the thread-local generator; nothing is
/// stated of the bytes, which vary from call to call.
#[verifier::external_body]
fn fill_bytes(rng: &mut rand::rngs::ThreadRng, dest: &mut [u8; 16]) {
    rng.fill_bytes(dest)
}

/// A fresh RPC secret: sixteen random bytes in lowercase hexadecimal.
pub fn random_secret() -> (r: String)
    ensures
        r@.len() == 32,
        forall|i: int| 0 <= i < r@.len() ==> is_hex_digit(#[trigger] r@[i]),
{
    let mut rng = thread_rng();
    let mut bytes = [0u8; 16];
    fill_bytes(&mut rng, &mut bytes);
    hex_string(bytes.as_slice())
}

/// Whether two settings agree on everything but the RPC secret.
pub open spec fn same_but_secret(a: Settings, b: Settings) -> bool {
    &&& a.max_concurrent == b.max_concurrent
    &&& a.connections == b.connections
    &&& a.speed_limit == b.speed_limit
    &&& a.default_dir@ == b.default_dir@
    &&& a.proxy@ == b.proxy@
    &&& a.clipboard_watch == b.clipboard_watch
    &&& a.autostart == b.autostart
    &&& a.minimize_to_tray == b.minimize_to_tray
    &&& a.scheduler_enabled == b.scheduler_enabled
    &&& a.schedule_start@ == b.schedule_start@
    &&& a.schedule_stop@ == b.schedule_stop@
    &&& texts(a.filetypes@) == texts(b.filetypes@)
    &&& a.language@ == b.language@
    &&& a.theme@ == b.theme@
    &&& a.browser_prompt_shown == b.browser_prompt_shown
}

/// Whether `s` is an RPC secret as `random_secret` makes them.
pub open spec fn is_generated_secret(s: Seq<char>) -> bool {
    s.len() == 32 && forall|i: int| 0 <= i < s.len() ==> is_hex_digit(#[trigger] s[i])
}

impl Settings {
    /// Gives the settings an RPC secret when they have none; says whether it
    /// did, in which case the settings are to be saved.
    pub fn ensure_rpc_secret(&mut self) -> (changed: bool)
        ensures
            changed == (old(self).rpc_secret@.len() == 0),
            changed ==> is_generated_secret(final(self).rpc_secret@),
            final(self).rpc_secret@.len() > 0,
            !changed ==> final(self).rpc_secret@ == old(self).rpc_secret@,
            same_but_secret(*final(self), *old(self)),
    {
        if self.rpc_secret.as_str().unicode_len() == 0 {
            self.rpc_secret = random_secret();
            true
        } else {
            false
        }
    }
}

} // verus!
