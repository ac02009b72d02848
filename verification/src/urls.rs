//! Recognizing download links, such as those the clipboard watcher picks up.
use vstd::prelude::*;
use crate::text::{
    chars_of, slice_string, starts_with, ends_with, has_prefix, has_suffix, find_first_of2,
    first_of2, lemma_first_of2,
};

verus! {

/// Whether `c` is white space in Unicode's sense (property `White_Space`),
/// as `char::is_whitespace` and `str::trim` understand it.
pub open spec fn is_space(c: char) -> bool {
    ('\u{9}' <= c <= '\u{d}') || c == ' ' || c == '\u{85}' || c == '\u{a0}' || c == '\u{1680}'
        || ('\u{2000}' <= c <= '\u{200a}') || c == '\u{2028}' || c == '\u{2029}' || c == '\u{202f}'
        || c == '\u{205f}' || c == '\u{3000}'
}

fn is_space_exec(c: char) -> (r: bool)
    ensures
        r == is_space(c),
{
    ('\u{9}' <= c && c <= '\u{d}') || c == ' ' || c == '\u{85}' || c == '\u{a0}' || c
        == '\u{1680}' || ('\u{2000}' <= c && c <= '\u{200a}') || c == '\u{2028}' || c
        == '\u{2029}' || c == '\u{202f}' || c == '\u{205f}' || c == '\u{3000}'
}

/// The number of white-space characters that `s` starts with.
pub open spec fn space_prefix(s: Seq<char>) -> int
    decreases s.len(),
{
    if s.len() > 0 && is_space(s[0]) {
        1 + space_prefix(s.drop_first())
    } else {
        0
    }
}

/// The length of `s` without the white space that it ends with.
pub open spec fn space_suffix_start(s: Seq<char>) -> int
    decreases s.len(),
{
    if s.len() > 0 && is_space(s.last()) {
        space_suffix_start(s.drop_last())
    } else {
        s.len() as int
    }
}

/// `s` without leading and trailing white space.
pub open spec fn trimmed(s: Seq<char>) -> Seq<char> {
    let t = s.skip(space_prefix(s));
    t.take(space_suffix_start(t))
}

proof fn lemma_space_prefix_unique(s: Seq<char>, k: int)
    requires
        0 <= k <= s.len(),
        forall|j: int| 0 <= j < k ==> is_space(#[trigger] s[j]),
        k < s.len() ==> !is_space(s[k]),
    ensures
        space_prefix(s) == k,
    decreases s.len(),
{
    if k > 0 {
        assert forall|j: int| 0 <= j < k - 1 implies is_space(#[trigger] s.drop_first()[j]) by {
            assert(s.drop_first()[j] == s[j + 1]);
        }
        lemma_space_prefix_unique(s.drop_first(), k - 1);
    }
}

proof fn lemma_space_suffix_unique(s: Seq<char>, k: int)
    requires
        0 <= k <= s.len(),
        forall|j: int| k <= j < s.len() ==> is_space(#[trigger] s[j]),
        k > 0 ==> !is_space(s[k - 1]),
    ensures
        space_suffix_start(s) == k,
    decreases s.len(),
{
    if k < s.len() {
        assert(is_space(s[s.len() - 1]));
        lemma_space_suffix_unique(s.drop_last(), k);
    }
}

/// `s` without leading and trailing white space, as `str::trim` gives it.
pub fn trim(s: &str) -> (r: String)
    ensures
        r@ == trimmed(s@),
{
    let v = chars_of(s);
    let mut p: usize = 0;
    while p < v.len() && is_space_exec(v[p])
        invariant
            p <= v.len(),
            forall|j: int| 0 <= j < p ==> is_space(#[trigger] v@[j]),
        decreases v.len() - p,
    {
        p = p + 1;
    }
    proof {
        lemma_space_prefix_unique(s@, p as int);
    }
    let ghost t = s@.skip(p as int);
    let mut q: usize = v.len();
    while q > p && is_space_exec(v[q - 1])
        invariant
            p <= q <= v.len(),
            v@ == s@,
            t == v@.skip(p as int),
            forall|j: int| q - p <= j < t.len() ==> is_space(#[trigger] t[j]),
        decreases q,
    {
        q = q - 1;
    }
    proof {
        lemma_space_suffix_unique(t, q - p);
    }
    let r = slice_string(&v, p, q);
    assert(r@ =~= trimmed(s@));
    r
}

/// Law: trimming text that is already trimmed changes nothing.
pub proof fn lemma_trim_idempotent(s: Seq<char>)
    ensures
        trimmed(trimmed(s)) == trimmed(s),
{
    let t = s.skip(space_prefix(s));
    let u = trimmed(s);
    lemma_space_prefix_facts(s);
    lemma_space_suffix_facts(t);
    if u.len() > 0 {
        assert(u[0] == t[0]);
        lemma_space_prefix_unique(u, 0);
        assert(u.last() == t[space_suffix_start(t) - 1]);
        lemma_space_suffix_unique(u, u.len() as int);
    } else {
        lemma_space_prefix_unique(u, 0);
        lemma_space_suffix_unique(u, 0);
    }
    assert(u.skip(0) =~= u);
    assert(u.take(u.len() as int) =~= u);
}

proof fn lemma_space_prefix_facts(s: Seq<char>)
    ensures
        0 <= space_prefix(s) <= s.len(),
        space_prefix(s) < s.len() ==> !is_space(s[space_prefix(s)]),
    decreases s.len(),
{
    if s.len() > 0 && is_space(s[0]) {
        lemma_space_prefix_facts(s.drop_first());
    }
}

proof fn lemma_space_suffix_facts(s: Seq<char>)
    ensures
        0 <= space_suffix_start(s) <= s.len(),
        space_suffix_start(s) > 0 ==> !is_space(s[space_suffix_start(s) - 1]),
    decreases s.len(),
{
    if s.len() > 0 && is_space(s.last()) {
        lemma_space_suffix_facts(s.drop_last());
    }
}

/// What `str::to_lowercase` gives for a string.
pub uninterp spec fn lowercase(s: Seq<char>) -> Seq<char>;

/// The lowercase form of `s`.
///
/// Calls `str::to_lowercase`, which lowercases by Unicode's rules; the
/// result is named by `lowercase` and nothing more is stated of it.
#[verifier::external_body]
fn to_lowercase(s: &str) -> (r: String)
    ensures
        r@ == lowercase(s@),
{
    s.to_lowercase()
}

/// The file extensions that mark a link as a download.
pub open spec fn download_exts() -> Seq<Seq<char>> {
    seq![
        ".zip"@, ".rar"@, ".7z"@, ".exe"@, ".msi"@, ".mp4"@, ".mkv"@, ".mp3"@, ".flac"@, ".pdf"@,
        ".iso"@, ".apk"@, ".dmg"@, ".tar"@, ".gz"@, ".doc"@, ".docx"@, ".xls"@, ".xlsx"@,
    ]
}

fn download_ext(i: usize) -> (r: &'static str)
    requires
        i < 19,
    ensures
        r@ == download_exts()[i as int],
{
    if i == 0 { ".zip" }
    else if i == 1 { ".rar" }
    else if i == 2 { ".7z" }
    else if i == 3 { ".exe" }
    else if i == 4 { ".msi" }
    else if i == 5 { ".mp4" }
    else if i == 6 { ".mkv" }
    else if i == 7 { ".mp3" }
    else if i == 8 { ".flac" }
    else if i == 9 { ".pdf" }
    else if i == 10 { ".iso" }
    else if i == 11 { ".apk" }
    else if i == 12 { ".dmg" }
    else if i == 13 { ".tar" }
    else if i == 14 { ".gz" }
    else if i == 15 { ".doc" }
    else if i == 16 { ".docx" }
    else if i == 17 { ".xls" }
    else { ".xlsx" }
}

/// Whether `t` ends with one of the download extensions.
pub open spec fn has_download_ext(t: Seq<char>) -> bool {
    exists|i: int| 0 <= i < download_exts().len() && has_suffix(t, #[trigger] download_exts()[i])
}

/// Whether the (lowercased) text `t` ends with a download extension.
pub fn has_download_extension(t: &str) -> (r: bool)
    ensures
        r == has_download_ext(t@),
{
    let v = chars_of(t);
    for i in 0..19
        invariant
            v@ == t@,
            forall|j: int| 0 <= j < i ==> !has_suffix(t@, #[trigger] download_exts()[j]),
    {
        if ends_with(&v, download_ext(i)) {
            return true;
        }
    }
    false
}

/// Whether `s` starts with a scheme that aria2 downloads from: `http://`,
/// `https://` or `ftp://`.
pub open spec fn has_download_scheme(s: Seq<char>) -> bool {
    has_prefix(s, "http://"@) || has_prefix(s, "https://"@) || has_prefix(s, "ftp://"@)
}

/// The part of `s` before its first `?` or `#`.
pub open spec fn before_query(s: Seq<char>) -> Seq<char> {
    s.take(first_of2(s, '?', '#'))
}

/// Whether `s` looks like a link to a file: it has a download scheme, and the
/// lowercase form of its part before any query or fragment ends with a
/// download extension.
pub open spec fn is_downloadable_url_v(s: Seq<char>) -> bool {
    has_download_scheme(s) && has_download_ext(lowercase(before_query(s)))
}

/// Whether `s` looks like a link to a file (see `is_downloadable_url_v`).
pub fn is_downloadable_url(s: &str) -> (r: bool)
    ensures
        r == is_downloadable_url_v(s@),
{
    let v = chars_of(s);
    if !(starts_with(&v, "http://") || starts_with(&v, "https://") || starts_with(&v, "ftp://")) {
        return false;
    }
    let cut = find_first_of2(&v, '?', '#');
    proof {
        lemma_first_of2(s@, '?', '#');
    }
    let tail = slice_string(&v, 0, cut);
    assert(tail@ =~= before_query(s@));
    let lower = to_lowercase(tail.as_str());
    has_download_extension(lower.as_str())
}

/// The link that the clipboard watcher captures from the clipboard text
/// `text`, when the last link it captured was `last`: the trimmed text, when
/// it differs from `last` and looks like a download link.
pub open spec fn clipboard_capture_v(last: Seq<char>, text: Seq<char>) -> Option<Seq<char>> {
    let t = trimmed(text);
    if t != last && is_downloadable_url_v(t) {
        Some(t)
    } else {
        None
    }
}

/// The link to capture from the clipboard text `text`, if any, after `last`
/// was captured.
pub fn clipboard_capture(last: &str, text: &str) -> (r: Option<String>)
    ensures
        match r {
            Some(t) => clipboard_capture_v(last@, text@) == Some(t@),
            None => clipboard_capture_v(last@, text@) is None,
        },
{
    let t = trim(text);
    if !crate::text::str_eq(t.as_str(), last) && is_downloadable_url(t.as_str()) {
        Some(t)
    } else {
        None
    }
}

/// Law: the clipboard watcher does not capture the same link twice in a
/// row: once it captured a link, the same clipboard text yields nothing.
pub proof fn lemma_no_repeat_capture(last: Seq<char>, text: Seq<char>)
    requires
        clipboard_capture_v(last, text) is Some,
    ensures
        clipboard_capture_v(clipboard_capture_v(last, text)->0, text) is None,
{
}

/// Law: a captured link carries no surrounding white space.
pub proof fn lemma_capture_trimmed(last: Seq<char>, text: Seq<char>)
    requires
        clipboard_capture_v(last, text) is Some,
    ensures
        trimmed(clipboard_capture_v(last, text)->0) == clipboard_capture_v(last, text)->0,
{
    lemma_trim_idempotent(text);
}

} // verus!
