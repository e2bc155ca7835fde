//! Files dropped on a window or picked by the page: their names, types and
//! sizes, and the call that hands them to the page.
use vstd::prelude::*;

use super::filename::{extension, extension_of, file_name, file_name_of};
use crate::text::{ascii_lower, eq_ignore_ascii_case, chars_of, lookup, lookup_exec, lower_ascii, push_chars, str_pairs, string_of};

verus! {

/// What the page learns of a file: its path, name, MIME type and size.
#[derive(Debug, Clone, PartialEq)]
pub struct DropMeta {
    pub path: String,
    pub name: String,
    pub mime: String,
    pub size: u64,
}

/// The MIME types of known extensions.
pub open spec fn mime_table() -> Seq<(Seq<char>, Seq<char>)> {
    seq![
        ("png"@, "image/png"@),
        ("jpg"@, "image/jpeg"@),
        ("jpeg"@, "image/jpeg"@),
        ("gif"@, "image/gif"@),
        ("webp"@, "image/webp"@),
        ("bmp"@, "image/bmp"@),
        ("svg"@, "image/svg+xml"@),
        ("pdf"@, "application/pdf"@),
        ("txt"@, "text/plain"@),
        ("md"@, "text/markdown"@),
        ("csv"@, "text/csv"@),
        ("json"@, "application/json"@),
        ("xml"@, "application/xml"@),
        ("html"@, "text/html"@),
        ("doc"@, "application/msword"@),
        ("docx"@, "application/vnd.openxmlformats-officedocument.wordprocessingml.document"@),
        ("xls"@, "application/vnd.ms-excel"@),
        ("xlsx"@, "application/vnd.openxmlformats-officedocument.spreadsheetml.sheet"@),
        ("ppt"@, "application/vnd.ms-powerpoint"@),
        ("pptx"@, "application/vnd.openxmlformats-officedocument.presentationml.presentation"@),
        ("zip"@, "application/zip"@),
        ("mp3"@, "audio/mpeg"@),
        ("mp4"@, "video/mp4"@),
        ("mov"@, "video/quicktime"@),
        ("mkv"@, "video/x-matroska"@),
        ("webm"@, "video/webm"@),
        ("avi"@, "video/x-msvideo"@),
        ("m4v"@, "video/x-m4v"@),
        ("flv"@, "video/x-flv"@),
        ("mpeg"@, "video/mpeg"@),
        ("mpg"@, "video/mpeg"@),
        ("wav"@, "audio/wav"@),
        ("ogg"@, "audio/ogg"@),
        ("aac"@, "audio/aac"@),
    ]
}

fn mime_list() -> (v: Vec<(&'static str, &'static str)>)
    ensures
        str_pairs(v@) == mime_table(),
{
    let v = vec![
        ("png", "image/png"),
        ("jpg", "image/jpeg"),
        ("jpeg", "image/jpeg"),
        ("gif", "image/gif"),
        ("webp", "image/webp"),
        ("bmp", "image/bmp"),
        ("svg", "image/svg+xml"),
        ("pdf", "application/pdf"),
        ("txt", "text/plain"),
        ("md", "text/markdown"),
        ("csv", "text/csv"),
        ("json", "application/json"),
        ("xml", "application/xml"),
        ("html", "text/html"),
        ("doc", "application/msword"),
        ("docx", "application/vnd.openxmlformats-officedocument.wordprocessingml.document"),
        ("xls", "application/vnd.ms-excel"),
        ("xlsx", "application/vnd.openxmlformats-officedocument.spreadsheetml.sheet"),
        ("ppt", "application/vnd.ms-powerpoint"),
        ("pptx", "application/vnd.openxmlformats-officedocument.presentationml.presentation"),
        ("zip", "application/zip"),
        ("mp3", "audio/mpeg"),
        ("mp4", "video/mp4"),
        ("mov", "video/quicktime"),
        ("mkv", "video/x-matroska"),
        ("webm", "video/webm"),
        ("avi", "video/x-msvideo"),
        ("m4v", "video/x-m4v"),
        ("flv", "video/x-flv"),
        ("mpeg", "video/mpeg"),
        ("mpg", "video/mpeg"),
        ("wav", "audio/wav"),
        ("ogg", "audio/ogg"),
        ("aac", "audio/aac"),
    ];
    assert(str_pairs(v@) =~= mime_table());
    v
}

/// The MIME type of a path, by its extension (ignoring ASCII case);
/// `application/octet-stream` when unknown.
pub open spec fn mime_of(path: Seq<char>) -> Seq<char> {
    match extension_of(path) {
        Some(e) => match lookup(mime_table(), ascii_lower(e)) {
            Some(m) => m,
            None => "application/octet-stream"@,
        },
        None => "application/octet-stream"@,
    }
}

/// Two paths whose extensions agree up to ASCII case (or which both have
/// none) get the same MIME type.
pub proof fn law_mime_ignores_case(p: Seq<char>, q: Seq<char>)
    requires
        match (extension_of(p), extension_of(q)) {
            (None, None) => true,
            (Some(a), Some(b)) => eq_ignore_ascii_case(a, b),
            _ => false,
        },
    ensures
        mime_of(p) == mime_of(q),
{
}

/// A path without an extension, or with one the table does not list (in
/// any case), is `application/octet-stream`.
pub proof fn law_mime_unknown(p: Seq<char>)
    requires
        match extension_of(p) {
            None => true,
            Some(e) => lookup(mime_table(), ascii_lower(e)) is None,
        },
    ensures
        mime_of(p) == "application/octet-stream"@,
{
}

/// The MIME type of the file at `path`.
pub fn mime_for_path(path: &str) -> (r: String)
    ensures
        r@ == mime_of(path@),
{
    match extension(&chars_of(path)) {
        Some(e) => match lookup_exec(&mime_list(), &lower_ascii(&e)) {
            Some(m) => m.to_owned(),
            None => "application/octet-stream".to_owned(),
        },
        None => "application/octet-stream".to_owned(),
    }
}

/// The name shown for a file: the path's last component, or `file`.
pub open spec fn display_name(path: Seq<char>) -> Seq<char> {
    match file_name_of(path) {
        Some(f) => f,
        None => "file"@,
    }
}

/// What the page learns of the file at `path` with `size` bytes.
pub open spec fn meta_for(m: DropMeta, path: Seq<char>, size: u64) -> bool {
    m.path@ == path && m.name@ == display_name(path) && m.mime@ == mime_of(path) && m.size == size
}

/// Describes the file at `path` with `size` bytes.
pub fn drop_meta(path: &str, size: u64) -> (m: DropMeta)
    ensures
        meta_for(m, path@, size),
{
    let name = match file_name(&chars_of(path)) {
        Some(f) => string_of(&f),
        None => "file".to_owned(),
    };
    DropMeta { path: path.to_owned(), name, mime: mime_for_path(path), size }
}

/// The files the page gets, in order, from `(path, size)` entries: those
/// whose size could be read (`Some`), whatever that size.
pub open spec fn kept_files(entries: Seq<(String, Option<u64>)>) -> Seq<(Seq<char>, u64)>
    decreases entries.len(),
{
    if entries.len() == 0 {
        Seq::empty()
    } else {
        let rest = kept_files(entries.drop_last());
        let e = entries.last();
        match e.1 {
            Some(size) => rest.push((e.0@, size)),
            None => rest,
        }
    }
}

/// `metas` describes exactly the files in `kept`, in order.
pub open spec fn describes(metas: Seq<DropMeta>, kept: Seq<(Seq<char>, u64)>) -> bool {
    metas.len() == kept.len() && forall|i: int| 0 <= i < metas.len() ==> meta_for(#[trigger] metas[i], kept[i].0, kept[i].1)
}

fn collect_metas(entries: &Vec<(String, Option<u64>)>) -> (r: Vec<DropMeta>)
    ensures
        describes(r@, kept_files(entries@)),
{
    let mut r: Vec<DropMeta> = Vec::new();
    let mut i: usize = 0;
    while i < entries.len()
        invariant
            i <= entries.len(),
            describes(r@, kept_files(entries@.take(i as int))),
        decreases entries.len() - i,
    {
        let ghost prev = r@;
        assert(entries@.take(i + 1).drop_last() =~= entries@.take(i as int));
        assert(entries@.take(i + 1).last() == entries@[i as int]);
        let (path, size) = (&entries[i].0, entries[i].1);
        match size {
            Some(sz) => {
                let m = drop_meta(path.as_str(), sz);
                r.push(m);
                assert(r@.last() == m);
                assert forall|k: int| 0 <= k < prev.len() implies r@[k] == prev[k] by {}
            },
            None => {},
        }
        i = i + 1;
    }
    assert(entries@.take(entries.len() as int) =~= entries@);
    r
}

/// The descriptions of the picked files whose size could be read, in order.
pub fn file_metas(entries: &Vec<(String, Option<u64>)>) -> (r: Vec<DropMeta>)
    ensures
        describes(r@, kept_files(entries@)),
{
    collect_metas(entries)
}

/// The descriptions of the dropped files handed to the page: every file
/// whose size could be read, whatever its size (the page pulls the content
/// in chunks), in order.
pub fn dropped_file_metas(entries: &Vec<(String, Option<u64>)>) -> (r: Vec<DropMeta>)
    ensures
        describes(r@, kept_files(entries@)),
{
    collect_metas(entries)
}

/// The call that hands the JSON list of dropped files to the page.
pub open spec fn drop_script_text(json: Seq<char>) -> Seq<char> {
    "window.__qwenHandleDrop && window.__qwenHandleDrop("@ + json + ")"@
}

/// Builds the call that hands the JSON list `json` of dropped files to the
/// page.
pub fn drop_script(json: &str) -> (r: String)
    ensures
        r@ == drop_script_text(json@),
{
    let mut r = "window.__qwenHandleDrop && window.__qwenHandleDrop(".to_owned();
    push_chars(&mut r, &chars_of(json));
    push_chars(&mut r, &chars_of(")"));
    r
}

/// The page call for a drop, given the descriptions kept and their JSON
/// text: none when no file was kept.
pub open spec fn drop_call_for(kept: Seq<DropMeta>, json: Seq<char>) -> Option<Seq<char>> {
    if kept.len() == 0 {
        None
    } else {
        Some(drop_script_text(json))
    }
}

/// The call that hands the dropped files `kept`, written as the JSON list
/// `json`, to the page; `None` when no file was kept, so the page is not
/// called.
pub fn drop_call(kept: &Vec<DropMeta>, json: &str) -> (r: Option<String>)
    ensures
        match r {
            Some(s) => drop_call_for(kept@, json@) == Some(s@),
            None => drop_call_for(kept@, json@) is None,
        },
{
    if kept.len() == 0 {
        None
    } else {
        Some(drop_script(json))
    }
}

} // verus!
