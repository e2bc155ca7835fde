//! Downloading an update: which URLs are accepted, the name the file is
//! saved under, and the size limit.
use vstd::prelude::*;

use crate::text::{chars_eq, chars_of, is_ascii_alnum, last_index, last_index_exec, lemma_last_index, slice_chars, string_of};
use crate::urlparts::{parse_url, url_parsed};

verus! {

/// 500 MiB, the largest update downloaded.
pub const MAX_UPDATE_BYTES: u64 = 524288000;

/// What follows the last `/` of `s` (all of `s` when it has none).
pub open spec fn last_segment(s: Seq<char>) -> Seq<char> {
    s.subrange(last_index(s, '/') + 1, s.len() as int)
}

/// A character kept in an update's file name: an ASCII letter or digit,
/// `.`, `-` or `_`.
pub open spec fn update_name_char(c: char) -> bool {
    is_ascii_alnum(c) || c == '.' || c == '-' || c == '_'
}

/// The file name an update from `url` is saved under: the text after the
/// URL's last `/`, each character not kept replaced by `_`; `update.tmp`
/// when that is empty.
pub open spec fn update_file_name(url: Seq<char>) -> Seq<char> {
    let m = last_segment(url).map_values(|c: char| if update_name_char(c) { c } else { '_' });
    if m.len() == 0 {
        "update.tmp"@
    } else {
        m
    }
}

/// The outcome of checking an update URL: the parse error when it does not
/// parse, a refusal unless its scheme is `https`, else the file name.
pub open spec fn update_download_check(url: Seq<char>) -> Result<Seq<char>, Seq<char>> {
    match url_parsed(url) {
        Err(e) => Err(e),
        Ok(p) => if p.0 == "https"@ {
            Ok(update_file_name(url))
        } else {
            Err("Only https url allowed"@)
        },
    }
}

/// The name the update at `url` is saved under.
pub fn update_download_name(url: &str) -> (r: String)
    ensures
        r@ == update_file_name(url@),
{
    let u = chars_of(url);
    proof {
        assert(u@.subrange(0, u.len() as int) =~= u@);
        lemma_last_index(u@, '/');
    }
    let start: usize = match last_index_exec(&u, u.len(), '/') {
        Some(k) => k + 1,
        None => 0,
    };
    let seg = slice_chars(&u, start, u.len());
    let ghost want = last_segment(url@).map_values(|c: char| if update_name_char(c) { c } else { '_' });
    assert(seg@ == last_segment(url@));
    let mut m: Vec<char> = Vec::new();
    let mut i: usize = 0;
    while i < seg.len()
        invariant
            i <= seg.len(),
            seg@ == last_segment(url@),
            want == seg@.map_values(|c: char| if update_name_char(c) { c } else { '_' }),
            m@ == want.take(i as int),
        decreases seg.len() - i,
    {
        let c = seg[i];
        let kept = ('0' <= c && c <= '9') || ('a' <= c && c <= 'z') || ('A' <= c && c <= 'Z') || c == '.' || c
            == '-' || c == '_';
        if kept {
            m.push(c);
        } else {
            m.push('_');
        }
        assert(want.take(i + 1) =~= want.take(i as int).push(want[i as int]));
        i = i + 1;
    }
    assert(want.take(seg.len() as int) =~= want);
    if m.len() == 0 {
        "update.tmp".to_owned()
    } else {
        string_of(&m)
    }
}

/// Checks the URL of an update before it is downloaded, and gives the name
/// the file is saved under.
pub fn check_update_download(url: &str) -> (r: Result<String, String>)
    ensures
        match (r, update_download_check(url@)) {
            (Ok(n), Ok(m)) => n@ == m,
            (Err(e), Err(f)) => e@ == f,
            _ => false,
        },
{
    match parse_url(url) {
        Err(e) => Err(e),
        Ok(p) => {
            if chars_eq(&chars_of(p.scheme.as_str()), &chars_of("https")) {
                Ok(update_download_name(url))
            } else {
                Err("Only https url allowed".to_owned())
            }
        },
    }
}

/// Whether an update of `total` bytes (as announced) may be downloaded.
pub fn download_size_ok(total: u64) -> (b: bool)
    ensures
        b == (total <= MAX_UPDATE_BYTES),
{
    total <= MAX_UPDATE_BYTES
}

/// Whether a chunk of `chunk` bytes may be added to the `downloaded` bytes
/// received so far.
pub fn chunk_fits(downloaded: u64, chunk: u64) -> (b: bool)
    ensures
        b == (downloaded + chunk <= MAX_UPDATE_BYTES),
{
    downloaded <= MAX_UPDATE_BYTES && chunk <= MAX_UPDATE_BYTES - downloaded
}

} // verus!
