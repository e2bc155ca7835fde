//! Saving files the page downloads: a safe file name, the extension and the
//! file-type filter of the save dialog, and the checks on the data.
use vstd::prelude::*;

use super::drop::{mime_of, mime_table};
use super::filename::{extension, extension_of, file_name, file_name_of};
use crate::text::{
    ascii_alnum, ascii_lower, char_is_alphanumeric, has_char, lemma_no_char_concat, lemma_no_char_subrange,
    lemma_trim_subrange, chars_of, is_ascii_alnum, last_index, last_index_exec,
    lemma_last_index, lemma_utf8_len_append, lemma_utf8_len_single, lookup, lookup_exec, lower_ascii,
    opt_str_text, slice_chars, starts_with, str_pairs, string_of, trim, trim_chars, alnum_char, until_char,
    until_char_exec, utf8_len, utf8_len_upto, utf8_width, char_width, string_views, lemma_lookup_hit,
    lemma_lookup_value, trim_start, trim_end, unicode_whitespace,
};

verus! {

// ---------------------------------------------------------------------------
// File names
// ---------------------------------------------------------------------------

/// Characters a saved file name keeps: letters and digits of any script and
/// `- _ . space ( ) [ ]`.
pub open spec fn name_char_kept(c: char) -> bool {
    alnum_char(c) || c == '-' || c == '_' || c == '.' || c == ' ' || c == '(' || c == ')'
        || c == '[' || c == ']'
}

/// Every other character replaced by `_`.
pub open spec fn masked(s: Seq<char>) -> Seq<char> {
    s.map_values(|c: char| if name_char_kept(c) { c } else { '_' })
}

/// The last path component of `name`, or `name` itself when it has none.
pub open spec fn base_name(name: Seq<char>) -> Seq<char> {
    match file_name_of(name) {
        Some(f) => f,
        None => name,
    }
}

/// The masked, trimmed base name; `download` when nothing is left.
pub open spec fn cleaned(name: Seq<char>) -> Seq<char> {
    let t = trim(masked(base_name(name)));
    if t.len() == 0 {
        "download"@
    } else {
        t
    }
}

/// The longest prefix of `s` whose UTF-8 text has at most `b` bytes.
pub open spec fn prefix_within(s: Seq<char>, b: int) -> Seq<char>
    decreases s.len(),
{
    if s.len() == 0 || utf8_width(s[0]) > b {
        Seq::empty()
    } else {
        seq![s[0]] + prefix_within(s.drop_first(), b - utf8_width(s[0]))
    }
}

/// Byte `b` of the UTF-8 text of `s` starts a character, so `String::truncate`
/// may cut there.
pub open spec fn cuts_at_boundary(s: Seq<char>, b: int) -> bool {
    utf8_len(prefix_within(s, b)) == b
}

/// The extension kept when a long name is shortened: from its last `.` on.
pub open spec fn dot_suffix(s: Seq<char>) -> Seq<char> {
    s.subrange(last_index(s, '.'), s.len() as int)
}

/// Shortening a name longer than 200 bytes works without a panic: the
/// extension fits and the cut falls between characters.
pub open spec fn shortening_ok(s: Seq<char>) -> bool {
    utf8_len(s) <= 200 || if last_index(s, '.') >= 0 {
        utf8_len(dot_suffix(s)) <= 200 && cuts_at_boundary(s, 200 - utf8_len(dot_suffix(s)))
    } else {
        cuts_at_boundary(s, 200)
    }
}

/// A name longer than 200 bytes cut to 200 bytes, keeping its extension.
pub open spec fn shortened(s: Seq<char>) -> Seq<char> {
    if utf8_len(s) <= 200 {
        s
    } else if last_index(s, '.') >= 0 {
        prefix_within(s, 200 - utf8_len(dot_suffix(s))) + dot_suffix(s)
    } else {
        prefix_within(s, 200)
    }
}

/// `sanitize_filename` accepts `name` (it panics on the others).
pub open spec fn sanitize_ok(name: Seq<char>) -> bool {
    shortening_ok(cleaned(name))
}

/// The safe file name for `name`: its last path component with unsafe
/// characters replaced by `_`, trimmed, `download` if empty, cut to 200
/// bytes keeping the extension, and prefixed with `download` when it would
/// be hidden (start with `.`).
pub open spec fn sanitized(name: Seq<char>) -> Seq<char> {
    let s = shortened(cleaned(name));
    if starts_with(s, "."@) {
        "download"@ + s
    } else {
        s
    }
}

fn mask_chars(s: &[char]) -> (r: Vec<char>)
    ensures
        r@ == masked(s@),
        !has_char(r@, '/'),
{
    let mut r: Vec<char> = Vec::new();
    let mut i: usize = 0;
    while i < s.len()
        invariant
            i <= s.len(),
            r@ == masked(s@).take(i as int),
            !has_char(r@, '/'),
        decreases s.len() - i,
    {
        let c = s[i];
        let keep = char_is_alphanumeric(c) || c == '-' || c == '_' || c == '.' || c == ' ' || c == '('
            || c == ')' || c == '[' || c == ']';
        let ghost before = r@;
        if keep {
            r.push(c);
        } else {
            r.push('_');
        }
        proof {
            if has_char(r@, '/') {
                let k = choose|k: int| 0 <= k < r@.len() && r@[k] == '/';
                if k < before.len() {
                    assert(before[k] == '/');
                }
            }
        }
        assert(masked(s@).take(i + 1) =~= masked(s@).take(i as int).push(masked(s@)[i as int]));
        i = i + 1;
    }
    assert(masked(s@).take(s.len() as int) =~= masked(s@));
    r
}

/// The longest prefix of `s` within `b` bytes, with its byte length.
pub(crate) fn prefix_within_bytes(s: &[char], b: usize) -> (r: (Vec<char>, usize))
    ensures
        r.0@ == prefix_within(s@, b as int),
        r.1 == utf8_len(r.0@),
        r.1 <= b,
{
    let (v, n) = prefix_within_exec(s, b);
    (v, n)
}

fn prefix_within_exec(s: &[char], b: usize) -> (r: (Vec<char>, usize))
    ensures
        r.0@ == prefix_within(s@, b as int),
        r.0@.len() <= s@.len(),
        r.0@ == s@.subrange(0, r.0@.len() as int),
        r.1 == utf8_len(r.0@),
        r.1 <= b,
{
    let mut i: usize = 0;
    let mut acc: usize = 0;
    assert(s@.skip(0) =~= s@);
    assert(s@.take(0) =~= Seq::<char>::empty());
    while i < s.len() && char_width(s[i]) <= b - acc
        invariant
            i <= s.len(),
            acc <= b,
            acc == utf8_len(s@.take(i as int)),
            prefix_within(s@, b as int) == s@.take(i as int) + prefix_within(s@.skip(i as int), b - acc),
        decreases s.len() - i,
    {
        let w = char_width(s[i]);
        proof {
            let t = s@.skip(i as int);
            assert(t[0] == s@[i as int]);
            assert(t.drop_first() =~= s@.skip(i + 1));
            assert(s@.take(i as int) + seq![s@[i as int]] =~= s@.take(i + 1));
            assert(s@.take(i as int) + (seq![s@[i as int]] + prefix_within(s@.skip(i + 1), b - acc - w)) =~= s@.take(
                i + 1,
            ) + prefix_within(s@.skip(i + 1), b - acc - w));
            lemma_utf8_len_append(s@.take(i as int), seq![s@[i as int]]);
            lemma_utf8_len_single(s@[i as int]);
        }
        acc = acc + w;
        i = i + 1;
    }
    proof {
        if i < s.len() {
            assert(s@.skip(i as int)[0] == s@[i as int]);
        }
        assert(prefix_within(s@.skip(i as int), b - acc) =~= Seq::<char>::empty());
        assert(s@.take(i as int) + Seq::<char>::empty() =~= s@.take(i as int));
    }
    (slice_chars(s, 0, i), acc)
}

fn cleaned_exec(name: &str) -> (r: Vec<char>)
    ensures
        r@ == cleaned(name@),
        !has_char(r@, '/'),
{
    let nc = chars_of(name);
    let base = match file_name(&nc) {
        Some(f) => f,
        None => nc,
    };
    let m = mask_chars(&base);
    let t = trim_chars(&m);
    proof {
        lemma_trim_subrange(m@);
        let (i, j) = choose|i: int, j: int| 0 <= i <= j <= m@.len() && trim(m@) == m@.subrange(i, j);
        lemma_no_char_subrange(m@, '/', i, j);
    }
    if t.len() == 0 {
        let d = chars_of("download");
        proof {
            reveal_strlit("download");
            assert(!has_char(d@, '/'));
        }
        d
    } else {
        t
    }
}

fn concat(a: &[char], b: &[char]) -> (r: Vec<char>)
    ensures
        r@ == a@ + b@,
{
    crate::text::concat_chars(a, b)
}

/// The safe file name for `name`, or `None` where shortening it would panic
/// (see `sanitize_ok`).
pub fn sanitize_filename_checked(name: &str) -> (r: Option<String>)
    ensures
        r is Some == sanitize_ok(name@),
        r matches Some(v) ==> v@ == sanitized(name@),
        r matches Some(v) ==> !has_char(v@, '/'),
{
    let s = cleaned_exec(name);
    let ghost c = cleaned(name@);
    let short: Vec<char> = match utf8_len_upto(&s, 200) {
        Some(_) => s,
        None => {
            let dot = last_index_exec(&s, s.len(), '.');
            assert(s@.subrange(0, s.len() as int) =~= s@);
            proof {
                lemma_last_index(c, '.');
            }
            match dot {
                Some(d) => {
                    let ext = slice_chars(&s, d, s.len());
                    match utf8_len_upto(&ext, 200) {
                        None => {
                            return None;
                        },
                        Some(e) => {
                            let (p, pb) = prefix_within_exec(&s, 200 - e);
                            if pb != 200 - e {
                                return None;
                            }
                            proof {
                                lemma_no_char_subrange(s@, '/', 0, p@.len() as int);
                                lemma_no_char_subrange(s@, '/', d as int, s@.len() as int);
                                lemma_no_char_concat(p@, ext@, '/');
                            }
                            concat(&p, &ext)
                        },
                    }
                },
                None => {
                    let (p, pb) = prefix_within_exec(&s, 200);
                    if pb != 200 {
                        return None;
                    }
                    proof {
                        lemma_no_char_subrange(s@, '/', 0, p@.len() as int);
                    }
                    p
                },
            }
        },
    };
    assert(short@ == shortened(c));
    if short.len() > 0 && short[0] == '.' {
        proof {
            reveal_strlit(".");
            assert(short@.subrange(0, 1) =~= "."@);
        }
        let dl = chars_of("download");
        proof {
            reveal_strlit("download");
            assert(!has_char(dl@, '/'));
            lemma_no_char_concat(dl@, short@, '/');
        }
        let full = concat(&dl, &short);
        Some(string_of(&full))
    } else {
        proof {
            reveal_strlit(".");
            if short@.len() > 0 {
                assert(short@.subrange(0, 1)[0] == short@[0]);
            }
        }
        Some(string_of(&short))
    }
}

/// The safe file name for `name`.
pub fn sanitize_filename(name: &str) -> (r: String)
    requires
        sanitize_ok(name@),
    ensures
        r@ == sanitized(name@),
        !has_char(r@, '/'),
{
    match sanitize_filename_checked(name) {
        Some(r) => r,
        None => {
            proof {
                assert(false);
            }
            String::new()
        },
    }
}


/// `prefix_within` keeps a prefix of its input, within the byte budget.
pub proof fn lemma_prefix_within(s: Seq<char>, b: int)
    ensures
        prefix_within(s, b).len() <= s.len(),
        prefix_within(s, b) == s.subrange(0, prefix_within(s, b).len() as int),
        b >= 0 ==> utf8_len(prefix_within(s, b)) <= b,
    decreases s.len(),
{
    if !(s.len() == 0 || utf8_width(s[0]) > b) {
        let w = utf8_width(s[0]);
        lemma_prefix_within(s.drop_first(), b - w);
        let p = prefix_within(s.drop_first(), b - w);
        assert(seq![s[0]] + p =~= s.subrange(0, p.len() + 1 as int)) by {
            assert(p =~= s.drop_first().subrange(0, p.len() as int));
        }
        lemma_utf8_len_append(seq![s[0]], p);
        lemma_utf8_len_single(s[0]);
    } else {
        assert(Seq::<char>::empty() =~= s.subrange(0, 0));
    }
}

proof fn lemma_masked_no_slash(s: Seq<char>)
    ensures
        !has_char(masked(s), '/'),
{
    if has_char(masked(s), '/') {
        let k = choose|k: int| 0 <= k < masked(s).len() && masked(s)[k] == '/';
        assert(!name_char_kept('/'));
    }
}

proof fn lemma_cleaned_no_slash(name: Seq<char>)
    ensures
        !has_char(cleaned(name), '/'),
        cleaned(name).len() > 0,
{
    reveal_strlit("download");
    let m = masked(base_name(name));
    lemma_masked_no_slash(base_name(name));
    lemma_trim_subrange(m);
    let (i, j) = choose|i: int, j: int| 0 <= i <= j <= m.len() && trim(m) == m.subrange(i, j);
    lemma_no_char_subrange(m, '/', i, j);
    let d = "download"@;
    if has_char(d, '/') {
        let k = choose|k: int| 0 <= k < d.len() && d[k] == '/';
    }
}

proof fn lemma_sanitized_no_slash(name: Seq<char>)
    ensures
        !has_char(sanitized(name), '/'),
{
    reveal_strlit("download");
    lemma_cleaned_no_slash(name);
    let c = cleaned(name);
    let sh = shortened(c);
    if utf8_len(c) > 200 {
        lemma_last_index(c, '.');
        if last_index(c, '.') >= 0 {
            let e = dot_suffix(c);
            let b = 200 - utf8_len(e);
            lemma_prefix_within(c, b);
            lemma_no_char_subrange(c, '/', 0, prefix_within(c, b).len() as int);
            lemma_no_char_subrange(c, '/', last_index(c, '.'), c.len() as int);
            lemma_no_char_concat(prefix_within(c, b), e, '/');
        } else {
            lemma_prefix_within(c, 200);
            lemma_no_char_subrange(c, '/', 0, prefix_within(c, 200).len() as int);
        }
    }
    assert(!has_char(sh, '/'));
    let d = "download"@;
    if has_char(d, '/') {
        let k = choose|k: int| 0 <= k < d.len() && d[k] == '/';
    }
    lemma_no_char_concat(d, sh, '/');
}

/// A character of a plain file name: a letter or digit, or one of
/// `- _ . space ( ) [ ]`.
pub open spec fn plain_name_char(c: char) -> bool {
    alnum_char(c) || c == '-' || c == '_' || c == '.' || c == ' ' || c == '(' || c == ')' || c == '[' || c == ']'
}

/// A name that is already a plain file name comes back unchanged: made of
/// letters, digits and `- _ . space ( ) [ ]`, not starting with `.`, at
/// most 200 bytes, and without whitespace at either end (so
/// `photo (1).png` stays `photo (1).png`).
pub proof fn law_plain_name_unchanged(name: Seq<char>)
    requires
        name.len() > 0,
        forall|i: int| 0 <= i < name.len() ==> plain_name_char(#[trigger] name[i]),
        name[0] != '.',
        !unicode_whitespace(name[0]),
        !unicode_whitespace(name.last()),
        utf8_len(name) <= 200,
    ensures
        sanitized(name) == name,
{
    reveal_strlit(".");
    reveal_strlit("..");
    assert(!has_char(name, '/')) by {
        if has_char(name, '/') {
            let k = choose|k: int| 0 <= k < name.len() && name[k] == '/';
            assert(plain_name_char(name[k]));
        }
    }
    lemma_last_index_absent(name, '/');
    assert(name.subrange(0, name.len() as int) =~= name);
    assert(name != "."@ && name != ".."@) by {
        if name == "."@ || name == ".."@ {
            assert(name[0] == '.');
        }
    }
    assert(file_name_of(name) == Some(name));
    assert(masked(name) =~= name);
    assert(trim_start(name) == name);
    assert(trim_end(name) == name);
    assert(cleaned(name) == name);
    assert(!starts_with(name, "."@)) by {
        if starts_with(name, "."@) {
            assert(name.subrange(0, 1)[0] == name[0]);
        }
    }
}

/// A sanitized name is a plain file name: never empty, never hidden (it
/// does not start with `.`) and without any `/`.
pub proof fn law_sanitized_shape(name: Seq<char>)
    requires
        sanitize_ok(name),
    ensures
        sanitized(name).len() > 0,
        !starts_with(sanitized(name), "."@),
        !has_char(sanitized(name), '/'),
{
    lemma_sanitized_no_slash(name);
    reveal_strlit("download");
    reveal_strlit(".");
    let c = cleaned(name);
    assert(c.len() > 0);
    let sh = shortened(c);
    if utf8_len(c) > 200 {
        lemma_last_index(c, '.');
        if last_index(c, '.') < 0 {
            assert(utf8_width(c[0]) <= 4);
            assert(prefix_within(c, 200).len() > 0);
        } else {
            assert(dot_suffix(c).len() > 0);
        }
    }
    assert(sh.len() > 0);
    if starts_with(sh, "."@) {
        let r = "download"@ + sh;
        assert(r.subrange(0, 1)[0] == 'd');
    }
}

// ---------------------------------------------------------------------------
// Extensions and dialog filters
// ---------------------------------------------------------------------------

/// `s` is made of ASCII letters and digits only.
pub open spec fn all_ascii_alnum(s: Seq<char>) -> bool {
    forall|i: int| 0 <= i < s.len() ==> is_ascii_alnum(#[trigger] s[i])
}

/// The extension of a file name as the save dialog uses it: lowercased
/// (ASCII), and only when it has 1 to 10 characters, all ASCII letters or
/// digits.
pub open spec fn ext_from_name(name: Seq<char>) -> Option<Seq<char>> {
    match extension_of(name) {
        None => None,
        Some(e) => {
            let l = ascii_lower(e);
            if l.len() > 0 && l.len() <= 10 && all_ascii_alnum(l) {
                Some(l)
            } else {
                None
            }
        },
    }
}

fn all_ascii_alnum_exec(s: &[char]) -> (b: bool)
    ensures
        b == all_ascii_alnum(s@),
{
    let mut i: usize = 0;
    while i < s.len()
        invariant
            i <= s.len(),
            forall|k: int| 0 <= k < i ==> is_ascii_alnum(#[trigger] s@[k]),
        decreases s.len() - i,
    {
        if !ascii_alnum(s[i]) {
            return false;
        }
        i = i + 1;
    }
    true
}

/// The extension the save dialog offers for the file name `name`.
pub fn extension_from_filename(name: &str) -> (r: Option<String>)
    ensures
        match r {
            Some(e) => ext_from_name(name@) == Some(e@),
            None => ext_from_name(name@) is None,
        },
{
    match extension(&chars_of(name)) {
        None => None,
        Some(e) => {
            let l = lower_ascii(&e);
            if l.len() > 0 && l.len() <= 10 && all_ascii_alnum_exec(&l) {
                Some(string_of(&l))
            } else {
                None
            }
        },
    }
}

/// The MIME types the save dialog knows, with their extensions.
pub open spec fn mime_ext_table() -> Seq<(Seq<char>, Seq<char>)> {
    seq![
        ("image/png"@, "png"@),
        ("image/jpeg"@, "jpg"@),
        ("image/jpg"@, "jpg"@),
        ("image/gif"@, "gif"@),
        ("image/webp"@, "webp"@),
        ("image/svg+xml"@, "svg"@),
        ("application/pdf"@, "pdf"@),
        ("text/plain"@, "txt"@),
        ("text/csv"@, "csv"@),
        ("text/markdown"@, "md"@),
        ("text/x-markdown"@, "md"@),
        ("text/html"@, "html"@),
        ("application/json"@, "json"@),
        ("application/zip"@, "zip"@),
        ("application/x-zip-compressed"@, "zip"@),
        ("application/vnd.openxmlformats-officedocument.wordprocessingml.document"@, "docx"@),
        ("application/vnd.openxmlformats-officedocument.spreadsheetml.sheet"@, "xlsx"@),
        ("application/vnd.ms-excel"@, "xls"@),
        ("application/msword"@, "doc"@),
    ]
}

fn mime_ext_list() -> (v: Vec<(&'static str, &'static str)>)
    ensures
        str_pairs(v@) == mime_ext_table(),
{
    let v = vec![
        ("image/png", "png"),
        ("image/jpeg", "jpg"),
        ("image/jpg", "jpg"),
        ("image/gif", "gif"),
        ("image/webp", "webp"),
        ("image/svg+xml", "svg"),
        ("application/pdf", "pdf"),
        ("text/plain", "txt"),
        ("text/csv", "csv"),
        ("text/markdown", "md"),
        ("text/x-markdown", "md"),
        ("text/html", "html"),
        ("application/json", "json"),
        ("application/zip", "zip"),
        ("application/x-zip-compressed", "zip"),
        ("application/vnd.openxmlformats-officedocument.wordprocessingml.document", "docx"),
        ("application/vnd.openxmlformats-officedocument.spreadsheetml.sheet", "xlsx"),
        ("application/vnd.ms-excel", "xls"),
        ("application/msword", "doc"),
    ];
    assert(str_pairs(v@) =~= mime_ext_table());
    v
}

/// The essence of a MIME type: lowercased (ASCII), parameters after `;`
/// dropped, trimmed.
pub open spec fn mime_essence(mime: Seq<char>) -> Seq<char> {
    trim(until_char(ascii_lower(mime), ';'))
}

/// The extension for a MIME type, when the table knows it.
pub fn extension_from_mime(mime: &str) -> (r: Option<String>)
    ensures
        match r {
            Some(e) => lookup(mime_ext_table(), mime_essence(mime@)) == Some(e@),
            None => lookup(mime_ext_table(), mime_essence(mime@)) is None,
        },
{
    let lower = lower_ascii(&chars_of(mime));
    let essence = trim_chars(&until_char_exec(&lower, ';'));
    match lookup_exec(&mime_ext_list(), &essence) {
        Some(e) => Some(e.to_owned()),
        None => None,
    }
}

/// The dialog filter names of the known extensions.
pub open spec fn filter_table() -> Seq<(Seq<char>, Seq<char>)> {
    seq![
        ("png"@, "Imagem"@),
        ("jpg"@, "Imagem"@),
        ("jpeg"@, "Imagem"@),
        ("gif"@, "Imagem"@),
        ("webp"@, "Imagem"@),
        ("svg"@, "Imagem"@),
        ("pdf"@, "PDF"@),
        ("txt"@, "Texto"@),
        ("csv"@, "Texto"@),
        ("md"@, "Texto"@),
        ("html"@, "HTML"@),
        ("json"@, "JSON"@),
        ("zip"@, "ZIP"@),
        ("docx"@, "Documento"@),
        ("doc"@, "Documento"@),
        ("xlsx"@, "Planilha"@),
        ("xls"@, "Planilha"@),
    ]
}

fn filter_list() -> (v: Vec<(&'static str, &'static str)>)
    ensures
        str_pairs(v@) == filter_table(),
{
    let v = vec![
        ("png", "Imagem"),
        ("jpg", "Imagem"),
        ("jpeg", "Imagem"),
        ("gif", "Imagem"),
        ("webp", "Imagem"),
        ("svg", "Imagem"),
        ("pdf", "PDF"),
        ("txt", "Texto"),
        ("csv", "Texto"),
        ("md", "Texto"),
        ("html", "HTML"),
        ("json", "JSON"),
        ("zip", "ZIP"),
        ("docx", "Documento"),
        ("doc", "Documento"),
        ("xlsx", "Planilha"),
        ("xls", "Planilha"),
    ];
    assert(str_pairs(v@) =~= filter_table());
    v
}

/// The filter name for an extension; `Arquivo` for unknown ones.
pub open spec fn filter_name(ext: Seq<char>) -> Seq<char> {
    match lookup(filter_table(), ext) {
        Some(n) => n,
        None => "Arquivo"@,
    }
}

/// The name of the save dialog's file-type filter for `ext`.
pub fn filter_name_for_ext(ext: &str) -> (r: String)
    ensures
        r@ == filter_name(ext@),
{
    match lookup_exec(&filter_list(), &chars_of(ext)) {
        Some(n) => n.to_owned(),
        None => "Arquivo".to_owned(),
    }
}

// ---------------------------------------------------------------------------
// Download requests
// ---------------------------------------------------------------------------

/// What `base64::Engine::decode` with the `STANDARD` engine makes of `input`:
/// the bytes, or the text of the decode error.
pub uninterp spec fn base64_standard(input: Seq<char>) -> Result<Seq<u8>, Seq<char>>;

/// What `base64::Engine::decode` with the `STANDARD_NO_PAD` engine makes of
/// `input`: the bytes, or the text of the decode error.
pub uninterp spec fn base64_standard_no_pad(input: Seq<char>) -> Result<Seq<u8>, Seq<char>>;

/// Calls `base64::Engine::decode` with `general_purpose::STANDARD`.
/// Trusted: the result is the one `base64_standard` names for this input.
/// In base64 0.22.1 (`src/engine/mod.rs`, `Engine::decode`) the call sizes
/// its buffer from the input length, decodes, and returns the bytes or a
/// `DecodeError`; it depends on the input alone and does not panic (the one
/// `unreachable!` is for a buffer too small, which its sizing rules out).
#[verifier::external_body]
fn decode_standard(input: &str) -> (r: Result<Vec<u8>, String>)
    ensures
        match r {
            Ok(v) => base64_standard(input@) == Ok::<Seq<u8>, Seq<char>>(v@),
            Err(e) => base64_standard(input@) == Err::<Seq<u8>, Seq<char>>(e@),
        },
{
    base64::Engine::decode(&base64::engine::general_purpose::STANDARD, input).map_err(|e| e.to_string())
}

/// Calls `base64::Engine::decode` with `general_purpose::STANDARD_NO_PAD`.
/// Trusted: the result is the one `base64_standard_no_pad` names for this
/// input; the same function of base64 0.22.1 as for `decode_standard`, with
/// the engine that accepts no padding.
#[verifier::external_body]
fn decode_standard_no_pad(input: &str) -> (r: Result<Vec<u8>, String>)
    ensures
        match r {
            Ok(v) => base64_standard_no_pad(input@) == Ok::<Seq<u8>, Seq<char>>(v@),
            Err(e) => base64_standard_no_pad(input@) == Err::<Seq<u8>, Seq<char>>(e@),
        },
{
    base64::Engine::decode(&base64::engine::general_purpose::STANDARD_NO_PAD, input).map_err(|e| e.to_string())
}

/// The decoded data: padded base64 first, unpadded base64 when that fails
/// (the error is then the unpadded decoder's).
pub open spec fn decoded_data(input: Seq<char>) -> Result<Seq<u8>, Seq<char>> {
    match base64_standard(input) {
        Ok(v) => Ok(v),
        Err(_) => base64_standard_no_pad(input),
    }
}

/// A checked download, ready for the save dialog.
#[derive(Debug, Clone, PartialEq)]
pub struct DownloadPlan {
    /// The suggested file name.
    pub file_name: String,
    /// The dialog's title.
    pub title: String,
    /// The extension offered; empty for none.
    pub extension: String,
    /// The name of the extension's filter.
    pub filter_name: String,
    /// The dialog's filters, in order: a name and its extensions each.
    pub filters: Vec<(String, Vec<String>)>,
    /// The file's contents.
    pub bytes: Vec<u8>,
}

/// The title of the save dialog.
pub open spec fn save_title() -> Seq<char> {
    "Salvar arquivo"@
}

/// Dialog filters as plain values.
pub open spec fn filters_view(v: Seq<(String, Vec<String>)>) -> Seq<(Seq<char>, Seq<Seq<char>>)> {
    v.map_values(|f: (String, Vec<String>)| (f.0@, string_views(f.1@)))
}

/// The save dialog's filters for the extension `ext`: none when there is no
/// extension; else the extension's own filter, then one for all files.
pub open spec fn dialog_filters(ext: Seq<char>) -> Seq<(Seq<char>, Seq<Seq<char>>)> {
    if ext.len() == 0 {
        Seq::empty()
    } else {
        seq![(filter_name(ext), seq![ext]), ("Todos os arquivos"@, seq!["*"@])]
    }
}

/// A download's save dialog, as plain values: the suggested name, the
/// title, the extension, its filter name, the filters and the bytes saved.
pub type PlanView = (Seq<char>, Seq<char>, Seq<char>, Seq<char>, Seq<(Seq<char>, Seq<Seq<char>>)>, Seq<u8>);

/// The save dialog's filters for `ext`.
fn filters_for(ext: &str, filter: &str) -> (r: Vec<(String, Vec<String>)>)
    requires
        filter@ == filter_name(ext@),
    ensures
        filters_view(r@) == dialog_filters(ext@),
{
    let mut r: Vec<(String, Vec<String>)> = Vec::new();
    if chars_of(ext).len() > 0 {
        let mut own: Vec<String> = Vec::new();
        own.push(string_of(&chars_of(ext)));
        let mut all: Vec<String> = Vec::new();
        all.push("*".to_owned());
        r.push((string_of(&chars_of(filter)), own));
        r.push(("Todos os arquivos".to_owned(), all));
        proof {
            assert(string_views(r@[0].1@) =~= seq![ext@]);
            assert(string_views(r@[1].1@) =~= seq!["*"@]);
            assert(filters_view(r@) =~= dialog_filters(ext@));
        }
    } else {
        proof {
            assert(filters_view(r@) =~= dialog_filters(ext@));
        }
    }
    r
}

/// 100 MiB, the largest file saved.
pub const MAX_DOWNLOAD_BYTES: usize = 104857600;

/// 140 MiB, the largest base64 text accepted (100 MiB once decoded).
pub const MAX_BASE64_BYTES: usize = 146800640;

/// The extension offered for a download: the file name's, else the MIME
/// type's, else none.
pub open spec fn download_ext(file_name: Seq<char>, mime: Option<Seq<char>>) -> Seq<char> {
    match ext_from_name(file_name) {
        Some(e) => e,
        None => match mime {
            Some(m) => match lookup(mime_ext_table(), mime_essence(m)) {
                Some(e) => e,
                None => Seq::empty(),
            },
            None => Seq::empty(),
        },
    }
}

/// The plan's parts as plain values.
pub open spec fn plan_view(p: DownloadPlan) -> PlanView {
    (p.file_name@, p.title@, p.extension@, p.filter_name@, filters_view(p.filters@), p.bytes@)
}

/// The outcome once the data was decoded: decoding errors, empty and
/// oversized files are refused; otherwise the file is saved under
/// `file_name` through a dialog titled `Salvar arquivo`, with the extension
/// of `download_ext` and its filters (`dialog_filters`).
pub open spec fn finished(file_name: Seq<char>, mime: Option<Seq<char>>, decoded: Result<Seq<u8>, Seq<char>>) -> Result<
    PlanView,
    Seq<char>,
> {
    match decoded {
        Err(e) => Err("Invalid base64: "@ + e),
        Ok(b) => if b.len() == 0 {
            Err("Empty file after decode"@)
        } else if b.len() > MAX_DOWNLOAD_BYTES {
            Err("File too large (100 MB limit)"@)
        } else {
            let ext = download_ext(file_name, mime);
            Ok((file_name, save_title(), ext, filter_name(ext), dialog_filters(ext), b))
        },
    }
}

/// The outcome of a download request: the name and the data's size are
/// checked first, then the data is decoded.
pub open spec fn download_outcome(filename: Seq<char>, mime: Option<Seq<char>>, data: Seq<char>) -> Result<
    PlanView,
    Seq<char>,
> {
    if utf8_len(filename) > 512 {
        Err("Filename too long"@)
    } else if utf8_len(data) > MAX_BASE64_BYTES {
        Err("File too large (100 MB limit)"@)
    } else if data.len() == 0 {
        Err("Empty file"@)
    } else {
        finished(sanitized(filename), mime, decoded_data(trim(data)))
    }
}

/// A download result as plain values.
pub open spec fn result_view(r: Result<DownloadPlan, String>) -> Result<PlanView, Seq<char>> {
    match r {
        Ok(p) => Ok(plan_view(p)),
        Err(e) => Err(e@),
    }
}

/// Finishes a download request once its data is decoded.
pub fn finish_download(file_name: String, mime: Option<&str>, decoded: Result<Vec<u8>, String>) -> (r: Result<DownloadPlan, String>)
    ensures
        result_view(r) == finished(
            file_name@,
            opt_str_text(mime),
            match decoded {
                Ok(v) => Ok(v@),
                Err(e) => Err(e@),
            },
        ),
{
    let bytes = match decoded {
        Ok(b) => b,
        Err(e) => {
            let mut msg = "Invalid base64: ".to_owned();
            crate::text::push_chars(&mut msg, &chars_of(e.as_str()));
            return Err(msg);
        },
    };
    if bytes.len() == 0 {
        return Err("Empty file after decode".to_owned());
    }
    if bytes.len() > MAX_DOWNLOAD_BYTES {
        return Err("File too large (100 MB limit)".to_owned());
    }
    let ext = match extension_from_filename(file_name.as_str()) {
        Some(e) => e,
        None => match mime {
            Some(m) => match extension_from_mime(m) {
                Some(e) => e,
                None => String::new(),
            },
            None => String::new(),
        },
    };
    let filter = filter_name_for_ext(ext.as_str());
    let filters = filters_for(ext.as_str(), filter.as_str());
    let title = "Salvar arquivo".to_owned();
    proof {
        reveal_strlit("Salvar arquivo");
    }
    Ok(DownloadPlan { file_name, title, extension: ext, filter_name: filter, filters, bytes })
}

/// Checks a download request from the page (file name, optional MIME type,
/// base64 data) and decodes it.
pub fn prepare_download(filename: &str, mime: Option<&str>, data_base64: &str) -> (r: Result<DownloadPlan, String>)
    requires
        utf8_len(filename@) > 512 || utf8_len(data_base64@) > MAX_BASE64_BYTES || data_base64@.len() == 0
            || sanitize_ok(filename@),
    ensures
        result_view(r) == download_outcome(filename@, opt_str_text(mime), data_base64@),
{
    if crate::text::byte_len(filename) > 512 {
        return Err("Filename too long".to_owned());
    }
    if crate::text::byte_len(data_base64) > MAX_BASE64_BYTES {
        return Err("File too large (100 MB limit)".to_owned());
    }
    if data_base64.is_empty() {
        return Err("Empty file".to_owned());
    }
    let name = sanitize_filename(filename);
    let trimmed = string_of(&trim_chars(&chars_of(data_base64)));
    let decoded = match decode_standard(trimmed.as_str()) {
        Ok(v) => Ok(v),
        Err(_) => decode_standard_no_pad(trimmed.as_str()),
    };
    finish_download(name, mime, decoded)
}

// ---------------------------------------------------------------------------
// A file named after a MIME type's extension gets that MIME type back
// ---------------------------------------------------------------------------

/// `e` is an extension as the tables write it: ASCII lowercase letters and
/// digits.
spec fn plain_ext(e: Seq<char>) -> bool {
    e.len() > 0 && forall|i: int| 0 <= i < e.len() ==> ('a' <= #[trigger] e[i] <= 'z' || '0' <= e[i] <= '9')
}

/// `m` is a MIME type as the tables write it: ASCII lowercase letters,
/// digits, `/`, `+`, `.` and `-`.
spec fn plain_mime(m: Seq<char>) -> bool {
    m.len() > 0 && forall|i: int|
        0 <= i < m.len() ==> ('a' <= #[trigger] m[i] <= 'z' || '0' <= m[i] <= '9' || m[i] == '/' || m[i] == '+'
            || m[i] == '.' || m[i] == '-')
}

/// Length and a few characters: enough to tell the extensions apart.
spec fn ext_sig(s: Seq<char>) -> (int, char, char, char) {
    (s.len() as int, s[0], s[1], s[s.len() - 1])
}

/// Length and the next-to-last character: enough to tell the MIME types
/// apart.
spec fn mime_sig(s: Seq<char>) -> (int, char) {
    (s.len() as int, s[s.len() - 2])
}

/// The extension `e` comes back from the MIME type of a file named `f.e`.
pub open spec fn round_trips(e: Seq<char>) -> bool {
    lookup(mime_ext_table(), mime_essence(mime_of("f."@ + e))) == Some(e)
}

proof fn lemma_last_index_absent(s: Seq<char>, c: char)
    requires
        !has_char(s, c),
    ensures
        last_index(s, c) == -1,
    decreases s.len(),
{
    if s.len() > 0 {
        assert(s.last() == s[s.len() - 1]);
        assert(!has_char(s.drop_last(), c)) by {
            if has_char(s.drop_last(), c) {
                let k = choose|k: int| 0 <= k < s.drop_last().len() && s.drop_last()[k] == c;
                assert(s[k] == c);
            }
        }
        lemma_last_index_absent(s.drop_last(), c);
    }
}

proof fn lemma_last_index_append(a: Seq<char>, b: Seq<char>, c: char)
    requires
        !has_char(b, c),
    ensures
        last_index(a + b, c) == last_index(a, c),
    decreases b.len(),
{
    if b.len() == 0 {
        assert(a + b =~= a);
    } else {
        assert((a + b).last() == b.last());
        assert(b.last() == b[b.len() - 1]);
        assert((a + b).drop_last() =~= a + b.drop_last());
        assert(!has_char(b.drop_last(), c)) by {
            if has_char(b.drop_last(), c) {
                let k = choose|k: int| 0 <= k < b.drop_last().len() && b.drop_last()[k] == c;
                assert(b[k] == c);
            }
        }
        lemma_last_index_append(a, b.drop_last(), c);
    }
}

proof fn lemma_until_absent(s: Seq<char>, c: char)
    requires
        !has_char(s, c),
    ensures
        until_char(s, c) == s,
    decreases s.len(),
{
    if s.len() > 0 {
        assert(s[0] != c);
        assert(!has_char(s.drop_first(), c)) by {
            if has_char(s.drop_first(), c) {
                let k = choose|k: int| 0 <= k < s.drop_first().len() && s.drop_first()[k] == c;
                assert(s[k + 1] == c);
            }
        }
        lemma_until_absent(s.drop_first(), c);
        assert(seq![s[0]] + s.drop_first() =~= s);
    }
}

/// A file named `f.e` has the extension `e`.
proof fn lemma_ext_of_dotted(e: Seq<char>)
    requires
        plain_ext(e),
    ensures
        extension_of("f."@ + e) == Some(e),
{
    reveal_strlit("f.");
    reveal_strlit(".");
    reveal_strlit("..");
    let p = "f."@ + e;
    assert(!has_char(p, '/')) by {
        if has_char(p, '/') {
            let k = choose|k: int| 0 <= k < p.len() && p[k] == '/';
            if k >= 2 {
                assert(p[k] == e[k - 2]);
            }
        }
    }
    lemma_last_index_absent(p, '/');
    assert(p.subrange(0, p.len() as int) =~= p);
    assert(p.len() >= 3);
    assert(p != "."@ && p != ".."@);
    assert(file_name_of(p) == Some(p));
    assert(!has_char(e, '.')) by {
        if has_char(e, '.') {
            let k = choose|k: int| 0 <= k < e.len() && e[k] == '.';
        }
    }
    lemma_last_index_append("f."@, e, '.');
    assert("f."@.last() == '.');
    assert(last_index("f."@, '.') == 1);
    assert(p.subrange(2, p.len() as int) =~= e);
}

/// A MIME type as the tables write it is its own essence.
proof fn lemma_essence_plain(m: Seq<char>)
    requires
        plain_mime(m),
    ensures
        mime_essence(m) == m,
{
    assert(ascii_lower(m) =~= m);
    assert(!has_char(m, ';')) by {
        if has_char(m, ';') {
            let k = choose|k: int| 0 <= k < m.len() && m[k] == ';';
        }
    }
    lemma_until_absent(m, ';');
    assert(m[0] == m[0] && m.last() == m[m.len() - 1]);
    assert(trim_start(m) == m);
    assert(trim_end(m) == m);
}

proof fn lemma_round_trip_pair(e: Seq<char>, m: Seq<char>, i: int, j: int)
    requires
        plain_ext(e),
        plain_mime(m),
        0 <= i < mime_table().len(),
        mime_table()[i] == (e, m),
        forall|k: int| 0 <= k < i ==> #[trigger] mime_table()[k].0 != e,
        0 <= j < mime_ext_table().len(),
        mime_ext_table()[j] == (m, e),
        forall|k: int| 0 <= k < j ==> #[trigger] mime_ext_table()[k].0 != m,
    ensures
        round_trips(e),
{
    lemma_ext_of_dotted(e);
    assert(ascii_lower(e) =~= e);
    lemma_lookup_hit(mime_table(), e, i);
    assert(mime_of("f."@ + e) == m);
    lemma_essence_plain(m);
    lemma_lookup_hit(mime_ext_table(), m, j);
}

proof fn lemma_round_trip_png()
    ensures
        round_trips("png"@),
{
    reveal_strlit("image/png");
    reveal_strlit("png");
    let t = mime_table();
    let u = mime_ext_table();
    lemma_round_trip_pair("png"@, "image/png"@, 0, 0);
}

proof fn lemma_round_trip_jpg()
    ensures
        round_trips("jpg"@),
{
    reveal_strlit("image/jpeg");
    reveal_strlit("image/png");
    reveal_strlit("jpg");
    reveal_strlit("png");
    let t = mime_table();
    let u = mime_ext_table();
    assert forall|k: int| 0 <= k < 1 implies #[trigger] t[k].0 != "jpg"@ by {
        assert(ext_sig(t[k].0) != ext_sig("jpg"@));
    }
    assert forall|k: int| 0 <= k < 1 implies #[trigger] u[k].0 != "image/jpeg"@ by {
        assert(mime_sig(u[k].0) != mime_sig("image/jpeg"@));
    }
    lemma_round_trip_pair("jpg"@, "image/jpeg"@, 1, 1);
}

proof fn lemma_round_trip_gif()
    ensures
        round_trips("gif"@),
{
    reveal_strlit("gif");
    reveal_strlit("image/gif");
    reveal_strlit("image/jpeg");
    reveal_strlit("image/jpg");
    reveal_strlit("image/png");
    reveal_strlit("jpeg");
    reveal_strlit("jpg");
    reveal_strlit("png");
    let t = mime_table();
    let u = mime_ext_table();
    assert forall|k: int| 0 <= k < 3 implies #[trigger] t[k].0 != "gif"@ by {
        assert(ext_sig(t[k].0) != ext_sig("gif"@));
    }
    assert forall|k: int| 0 <= k < 3 implies #[trigger] u[k].0 != "image/gif"@ by {
        assert(mime_sig(u[k].0) != mime_sig("image/gif"@));
    }
    lemma_round_trip_pair("gif"@, "image/gif"@, 3, 3);
}

proof fn lemma_round_trip_webp()
    ensures
        round_trips("webp"@),
{
    reveal_strlit("gif");
    reveal_strlit("image/gif");
    reveal_strlit("image/jpeg");
    reveal_strlit("image/jpg");
    reveal_strlit("image/png");
    reveal_strlit("image/webp");
    reveal_strlit("jpeg");
    reveal_strlit("jpg");
    reveal_strlit("png");
    reveal_strlit("webp");
    let t = mime_table();
    let u = mime_ext_table();
    assert forall|k: int| 0 <= k < 4 implies #[trigger] t[k].0 != "webp"@ by {
        assert(ext_sig(t[k].0) != ext_sig("webp"@));
    }
    assert forall|k: int| 0 <= k < 4 implies #[trigger] u[k].0 != "image/webp"@ by {
        assert(mime_sig(u[k].0) != mime_sig("image/webp"@));
    }
    lemma_round_trip_pair("webp"@, "image/webp"@, 4, 4);
}

proof fn lemma_round_trip_svg()
    ensures
        round_trips("svg"@),
{
    reveal_strlit("bmp");
    reveal_strlit("gif");
    reveal_strlit("image/gif");
    reveal_strlit("image/jpeg");
    reveal_strlit("image/jpg");
    reveal_strlit("image/png");
    reveal_strlit("image/svg+xml");
    reveal_strlit("image/webp");
    reveal_strlit("jpeg");
    reveal_strlit("jpg");
    reveal_strlit("png");
    reveal_strlit("svg");
    reveal_strlit("webp");
    let t = mime_table();
    let u = mime_ext_table();
    assert forall|k: int| 0 <= k < 6 implies #[trigger] t[k].0 != "svg"@ by {
        assert(ext_sig(t[k].0) != ext_sig("svg"@));
    }
    assert forall|k: int| 0 <= k < 5 implies #[trigger] u[k].0 != "image/svg+xml"@ by {
        assert(mime_sig(u[k].0) != mime_sig("image/svg+xml"@));
    }
    lemma_round_trip_pair("svg"@, "image/svg+xml"@, 6, 5);
}

proof fn lemma_round_trip_pdf()
    ensures
        round_trips("pdf"@),
{
    reveal_strlit("application/pdf");
    reveal_strlit("bmp");
    reveal_strlit("gif");
    reveal_strlit("image/gif");
    reveal_strlit("image/jpeg");
    reveal_strlit("image/jpg");
    reveal_strlit("image/png");
    reveal_strlit("image/svg+xml");
    reveal_strlit("image/webp");
    reveal_strlit("jpeg");
    reveal_strlit("jpg");
    reveal_strlit("pdf");
    reveal_strlit("png");
    reveal_strlit("svg");
    reveal_strlit("webp");
    let t = mime_table();
    let u = mime_ext_table();
    assert forall|k: int| 0 <= k < 7 implies #[trigger] t[k].0 != "pdf"@ by {
        assert(ext_sig(t[k].0) != ext_sig("pdf"@));
    }
    assert forall|k: int| 0 <= k < 6 implies #[trigger] u[k].0 != "application/pdf"@ by {
        assert(mime_sig(u[k].0) != mime_sig("application/pdf"@));
    }
    lemma_round_trip_pair("pdf"@, "application/pdf"@, 7, 6);
}

proof fn lemma_round_trip_txt()
    ensures
        round_trips("txt"@),
{
    reveal_strlit("application/pdf");
    reveal_strlit("bmp");
    reveal_strlit("gif");
    reveal_strlit("image/gif");
    reveal_strlit("image/jpeg");
    reveal_strlit("image/jpg");
    reveal_strlit("image/png");
    reveal_strlit("image/svg+xml");
    reveal_strlit("image/webp");
    reveal_strlit("jpeg");
    reveal_strlit("jpg");
    reveal_strlit("pdf");
    reveal_strlit("png");
    reveal_strlit("svg");
    reveal_strlit("text/plain");
    reveal_strlit("txt");
    reveal_strlit("webp");
    let t = mime_table();
    let u = mime_ext_table();
    assert forall|k: int| 0 <= k < 8 implies #[trigger] t[k].0 != "txt"@ by {
        assert(ext_sig(t[k].0) != ext_sig("txt"@));
    }
    assert forall|k: int| 0 <= k < 7 implies #[trigger] u[k].0 != "text/plain"@ by {
        assert(mime_sig(u[k].0) != mime_sig("text/plain"@));
    }
    lemma_round_trip_pair("txt"@, "text/plain"@, 8, 7);
}

proof fn lemma_round_trip_csv()
    ensures
        round_trips("csv"@),
{
    reveal_strlit("application/pdf");
    reveal_strlit("bmp");
    reveal_strlit("csv");
    reveal_strlit("gif");
    reveal_strlit("image/gif");
    reveal_strlit("image/jpeg");
    reveal_strlit("image/jpg");
    reveal_strlit("image/png");
    reveal_strlit("image/svg+xml");
    reveal_strlit("image/webp");
    reveal_strlit("jpeg");
    reveal_strlit("jpg");
    reveal_strlit("md");
    reveal_strlit("pdf");
    reveal_strlit("png");
    reveal_strlit("svg");
    reveal_strlit("text/csv");
    reveal_strlit("text/plain");
    reveal_strlit("txt");
    reveal_strlit("webp");
    let t = mime_table();
    let u = mime_ext_table();
    assert forall|k: int| 0 <= k < 10 implies #[trigger] t[k].0 != "csv"@ by {
        assert(ext_sig(t[k].0) != ext_sig("csv"@));
    }
    assert forall|k: int| 0 <= k < 8 implies #[trigger] u[k].0 != "text/csv"@ by {
        assert(mime_sig(u[k].0) != mime_sig("text/csv"@));
    }
    lemma_round_trip_pair("csv"@, "text/csv"@, 10, 8);
}

proof fn lemma_round_trip_md()
    ensures
        round_trips("md"@),
{
    reveal_strlit("application/pdf");
    reveal_strlit("bmp");
    reveal_strlit("gif");
    reveal_strlit("image/gif");
    reveal_strlit("image/jpeg");
    reveal_strlit("image/jpg");
    reveal_strlit("image/png");
    reveal_strlit("image/svg+xml");
    reveal_strlit("image/webp");
    reveal_strlit("jpeg");
    reveal_strlit("jpg");
    reveal_strlit("md");
    reveal_strlit("pdf");
    reveal_strlit("png");
    reveal_strlit("svg");
    reveal_strlit("text/csv");
    reveal_strlit("text/markdown");
    reveal_strlit("text/plain");
    reveal_strlit("txt");
    reveal_strlit("webp");
    let t = mime_table();
    let u = mime_ext_table();
    assert forall|k: int| 0 <= k < 9 implies #[trigger] t[k].0 != "md"@ by {
        assert(ext_sig(t[k].0) != ext_sig("md"@));
    }
    assert forall|k: int| 0 <= k < 9 implies #[trigger] u[k].0 != "text/markdown"@ by {
        assert(mime_sig(u[k].0) != mime_sig("text/markdown"@));
    }
    lemma_round_trip_pair("md"@, "text/markdown"@, 9, 9);
}

proof fn lemma_round_trip_html()
    ensures
        round_trips("html"@),
{
    reveal_strlit("application/pdf");
    reveal_strlit("bmp");
    reveal_strlit("csv");
    reveal_strlit("gif");
    reveal_strlit("html");
    reveal_strlit("image/gif");
    reveal_strlit("image/jpeg");
    reveal_strlit("image/jpg");
    reveal_strlit("image/png");
    reveal_strlit("image/svg+xml");
    reveal_strlit("image/webp");
    reveal_strlit("jpeg");
    reveal_strlit("jpg");
    reveal_strlit("json");
    reveal_strlit("md");
    reveal_strlit("pdf");
    reveal_strlit("png");
    reveal_strlit("svg");
    reveal_strlit("text/csv");
    reveal_strlit("text/html");
    reveal_strlit("text/markdown");
    reveal_strlit("text/plain");
    reveal_strlit("text/x-markdown");
    reveal_strlit("txt");
    reveal_strlit("webp");
    reveal_strlit("xml");
    let t = mime_table();
    let u = mime_ext_table();
    assert forall|k: int| 0 <= k < 13 implies #[trigger] t[k].0 != "html"@ by {
        assert(ext_sig(t[k].0) != ext_sig("html"@));
    }
    assert forall|k: int| 0 <= k < 11 implies #[trigger] u[k].0 != "text/html"@ by {
        assert(mime_sig(u[k].0) != mime_sig("text/html"@));
    }
    lemma_round_trip_pair("html"@, "text/html"@, 13, 11);
}

proof fn lemma_round_trip_json()
    ensures
        round_trips("json"@),
{
    reveal_strlit("application/json");
    reveal_strlit("application/pdf");
    reveal_strlit("bmp");
    reveal_strlit("csv");
    reveal_strlit("gif");
    reveal_strlit("image/gif");
    reveal_strlit("image/jpeg");
    reveal_strlit("image/jpg");
    reveal_strlit("image/png");
    reveal_strlit("image/svg+xml");
    reveal_strlit("image/webp");
    reveal_strlit("jpeg");
    reveal_strlit("jpg");
    reveal_strlit("json");
    reveal_strlit("md");
    reveal_strlit("pdf");
    reveal_strlit("png");
    reveal_strlit("svg");
    reveal_strlit("text/csv");
    reveal_strlit("text/html");
    reveal_strlit("text/markdown");
    reveal_strlit("text/plain");
    reveal_strlit("text/x-markdown");
    reveal_strlit("txt");
    reveal_strlit("webp");
    let t = mime_table();
    let u = mime_ext_table();
    assert forall|k: int| 0 <= k < 11 implies #[trigger] t[k].0 != "json"@ by {
        assert(ext_sig(t[k].0) != ext_sig("json"@));
    }
    assert forall|k: int| 0 <= k < 12 implies #[trigger] u[k].0 != "application/json"@ by {
        assert(mime_sig(u[k].0) != mime_sig("application/json"@));
    }
    lemma_round_trip_pair("json"@, "application/json"@, 11, 12);
}

proof fn lemma_round_trip_zip()
    ensures
        round_trips("zip"@),
{
    reveal_strlit("application/json");
    reveal_strlit("application/pdf");
    reveal_strlit("application/zip");
    reveal_strlit("bmp");
    reveal_strlit("csv");
    reveal_strlit("doc");
    reveal_strlit("docx");
    reveal_strlit("gif");
    reveal_strlit("html");
    reveal_strlit("image/gif");
    reveal_strlit("image/jpeg");
    reveal_strlit("image/jpg");
    reveal_strlit("image/png");
    reveal_strlit("image/svg+xml");
    reveal_strlit("image/webp");
    reveal_strlit("jpeg");
    reveal_strlit("jpg");
    reveal_strlit("json");
    reveal_strlit("md");
    reveal_strlit("pdf");
    reveal_strlit("png");
    reveal_strlit("ppt");
    reveal_strlit("pptx");
    reveal_strlit("svg");
    reveal_strlit("text/csv");
    reveal_strlit("text/html");
    reveal_strlit("text/markdown");
    reveal_strlit("text/plain");
    reveal_strlit("text/x-markdown");
    reveal_strlit("txt");
    reveal_strlit("webp");
    reveal_strlit("xls");
    reveal_strlit("xlsx");
    reveal_strlit("xml");
    reveal_strlit("zip");
    let t = mime_table();
    let u = mime_ext_table();
    assert forall|k: int| 0 <= k < 20 implies #[trigger] t[k].0 != "zip"@ by {
        assert(ext_sig(t[k].0) != ext_sig("zip"@));
    }
    assert forall|k: int| 0 <= k < 13 implies #[trigger] u[k].0 != "application/zip"@ by {
        assert(mime_sig(u[k].0) != mime_sig("application/zip"@));
    }
    lemma_round_trip_pair("zip"@, "application/zip"@, 20, 13);
}

proof fn lemma_round_trip_docx()
    ensures
        round_trips("docx"@),
{
    reveal_strlit("application/json");
    reveal_strlit("application/pdf");
    reveal_strlit("application/vnd.openxmlformats-officedocument.wordprocessingml.document");
    reveal_strlit("application/x-zip-compressed");
    reveal_strlit("application/zip");
    reveal_strlit("bmp");
    reveal_strlit("csv");
    reveal_strlit("doc");
    reveal_strlit("docx");
    reveal_strlit("gif");
    reveal_strlit("html");
    reveal_strlit("image/gif");
    reveal_strlit("image/jpeg");
    reveal_strlit("image/jpg");
    reveal_strlit("image/png");
    reveal_strlit("image/svg+xml");
    reveal_strlit("image/webp");
    reveal_strlit("jpeg");
    reveal_strlit("jpg");
    reveal_strlit("json");
    reveal_strlit("md");
    reveal_strlit("pdf");
    reveal_strlit("png");
    reveal_strlit("svg");
    reveal_strlit("text/csv");
    reveal_strlit("text/html");
    reveal_strlit("text/markdown");
    reveal_strlit("text/plain");
    reveal_strlit("text/x-markdown");
    reveal_strlit("txt");
    reveal_strlit("webp");
    reveal_strlit("xml");
    let t = mime_table();
    let u = mime_ext_table();
    assert forall|k: int| 0 <= k < 15 implies #[trigger] t[k].0 != "docx"@ by {
        assert(ext_sig(t[k].0) != ext_sig("docx"@));
    }
    assert forall|k: int| 0 <= k < 15 implies #[trigger] u[k].0 != "application/vnd.openxmlformats-officedocument.wordprocessingml.document"@ by {
        assert(mime_sig(u[k].0) != mime_sig("application/vnd.openxmlformats-officedocument.wordprocessingml.document"@));
    }
    lemma_round_trip_pair("docx"@, "application/vnd.openxmlformats-officedocument.wordprocessingml.document"@, 15, 15);
}

proof fn lemma_round_trip_xlsx()
    ensures
        round_trips("xlsx"@),
{
    reveal_strlit("application/json");
    reveal_strlit("application/pdf");
    reveal_strlit("application/vnd.openxmlformats-officedocument.spreadsheetml.sheet");
    reveal_strlit("application/vnd.openxmlformats-officedocument.wordprocessingml.document");
    reveal_strlit("application/x-zip-compressed");
    reveal_strlit("application/zip");
    reveal_strlit("bmp");
    reveal_strlit("csv");
    reveal_strlit("doc");
    reveal_strlit("docx");
    reveal_strlit("gif");
    reveal_strlit("html");
    reveal_strlit("image/gif");
    reveal_strlit("image/jpeg");
    reveal_strlit("image/jpg");
    reveal_strlit("image/png");
    reveal_strlit("image/svg+xml");
    reveal_strlit("image/webp");
    reveal_strlit("jpeg");
    reveal_strlit("jpg");
    reveal_strlit("json");
    reveal_strlit("md");
    reveal_strlit("pdf");
    reveal_strlit("png");
    reveal_strlit("svg");
    reveal_strlit("text/csv");
    reveal_strlit("text/html");
    reveal_strlit("text/markdown");
    reveal_strlit("text/plain");
    reveal_strlit("text/x-markdown");
    reveal_strlit("txt");
    reveal_strlit("webp");
    reveal_strlit("xls");
    reveal_strlit("xlsx");
    reveal_strlit("xml");
    let t = mime_table();
    let u = mime_ext_table();
    assert forall|k: int| 0 <= k < 17 implies #[trigger] t[k].0 != "xlsx"@ by {
        assert(ext_sig(t[k].0) != ext_sig("xlsx"@));
    }
    assert forall|k: int| 0 <= k < 16 implies #[trigger] u[k].0 != "application/vnd.openxmlformats-officedocument.spreadsheetml.sheet"@ by {
        assert(mime_sig(u[k].0) != mime_sig("application/vnd.openxmlformats-officedocument.spreadsheetml.sheet"@));
    }
    lemma_round_trip_pair("xlsx"@, "application/vnd.openxmlformats-officedocument.spreadsheetml.sheet"@, 17, 16);
}

proof fn lemma_round_trip_xls()
    ensures
        round_trips("xls"@),
{
    reveal_strlit("application/json");
    reveal_strlit("application/pdf");
    reveal_strlit("application/vnd.ms-excel");
    reveal_strlit("application/vnd.openxmlformats-officedocument.spreadsheetml.sheet");
    reveal_strlit("application/vnd.openxmlformats-officedocument.wordprocessingml.document");
    reveal_strlit("application/x-zip-compressed");
    reveal_strlit("application/zip");
    reveal_strlit("bmp");
    reveal_strlit("csv");
    reveal_strlit("doc");
    reveal_strlit("docx");
    reveal_strlit("gif");
    reveal_strlit("html");
    reveal_strlit("image/gif");
    reveal_strlit("image/jpeg");
    reveal_strlit("image/jpg");
    reveal_strlit("image/png");
    reveal_strlit("image/svg+xml");
    reveal_strlit("image/webp");
    reveal_strlit("jpeg");
    reveal_strlit("jpg");
    reveal_strlit("json");
    reveal_strlit("md");
    reveal_strlit("pdf");
    reveal_strlit("png");
    reveal_strlit("svg");
    reveal_strlit("text/csv");
    reveal_strlit("text/html");
    reveal_strlit("text/markdown");
    reveal_strlit("text/plain");
    reveal_strlit("text/x-markdown");
    reveal_strlit("txt");
    reveal_strlit("webp");
    reveal_strlit("xls");
    reveal_strlit("xml");
    let t = mime_table();
    let u = mime_ext_table();
    assert forall|k: int| 0 <= k < 16 implies #[trigger] t[k].0 != "xls"@ by {
        assert(ext_sig(t[k].0) != ext_sig("xls"@));
    }
    assert forall|k: int| 0 <= k < 17 implies #[trigger] u[k].0 != "application/vnd.ms-excel"@ by {
        assert(mime_sig(u[k].0) != mime_sig("application/vnd.ms-excel"@));
    }
    lemma_round_trip_pair("xls"@, "application/vnd.ms-excel"@, 16, 17);
}

proof fn lemma_round_trip_doc()
    ensures
        round_trips("doc"@),
{
    reveal_strlit("application/json");
    reveal_strlit("application/msword");
    reveal_strlit("application/pdf");
    reveal_strlit("application/vnd.ms-excel");
    reveal_strlit("application/vnd.openxmlformats-officedocument.spreadsheetml.sheet");
    reveal_strlit("application/vnd.openxmlformats-officedocument.wordprocessingml.document");
    reveal_strlit("application/x-zip-compressed");
    reveal_strlit("application/zip");
    reveal_strlit("bmp");
    reveal_strlit("csv");
    reveal_strlit("doc");
    reveal_strlit("gif");
    reveal_strlit("html");
    reveal_strlit("image/gif");
    reveal_strlit("image/jpeg");
    reveal_strlit("image/jpg");
    reveal_strlit("image/png");
    reveal_strlit("image/svg+xml");
    reveal_strlit("image/webp");
    reveal_strlit("jpeg");
    reveal_strlit("jpg");
    reveal_strlit("json");
    reveal_strlit("md");
    reveal_strlit("pdf");
    reveal_strlit("png");
    reveal_strlit("svg");
    reveal_strlit("text/csv");
    reveal_strlit("text/html");
    reveal_strlit("text/markdown");
    reveal_strlit("text/plain");
    reveal_strlit("text/x-markdown");
    reveal_strlit("txt");
    reveal_strlit("webp");
    reveal_strlit("xml");
    let t = mime_table();
    let u = mime_ext_table();
    assert forall|k: int| 0 <= k < 14 implies #[trigger] t[k].0 != "doc"@ by {
        assert(ext_sig(t[k].0) != ext_sig("doc"@));
    }
    assert forall|k: int| 0 <= k < 18 implies #[trigger] u[k].0 != "application/msword"@ by {
        assert(mime_sig(u[k].0) != mime_sig("application/msword"@));
    }
    lemma_round_trip_pair("doc"@, "application/msword"@, 14, 18);
}

/// The extension a MIME type gives comes back through the MIME type of a
/// file with that extension: when `extension_from_mime(mime)` is `Some(e)`,
/// `extension_from_mime(mime_for_path("f." + e))` is `Some(e)` too.
pub proof fn law_mime_round_trip(mime: Seq<char>, e: Seq<char>)
    requires
        lookup(mime_ext_table(), mime_essence(mime)) == Some(e),
    ensures
        lookup(mime_ext_table(), mime_essence(mime_of("f."@ + e))) == Some(e),
{
    lemma_lookup_value(mime_ext_table(), mime_essence(mime));
    let i = choose|i: int|
        0 <= i < mime_ext_table().len() && mime_ext_table()[i].0 == mime_essence(mime)
            && #[trigger] mime_ext_table()[i].1 == lookup(mime_ext_table(), mime_essence(mime))->0;
    if i == 0 {
        lemma_round_trip_png();
    }
    if i == 1 {
        lemma_round_trip_jpg();
    }
    if i == 2 {
        lemma_round_trip_jpg();
    }
    if i == 3 {
        lemma_round_trip_gif();
    }
    if i == 4 {
        lemma_round_trip_webp();
    }
    if i == 5 {
        lemma_round_trip_svg();
    }
    if i == 6 {
        lemma_round_trip_pdf();
    }
    if i == 7 {
        lemma_round_trip_txt();
    }
    if i == 8 {
        lemma_round_trip_csv();
    }
    if i == 9 {
        lemma_round_trip_md();
    }
    if i == 10 {
        lemma_round_trip_md();
    }
    if i == 11 {
        lemma_round_trip_html();
    }
    if i == 12 {
        lemma_round_trip_json();
    }
    if i == 13 {
        lemma_round_trip_zip();
    }
    if i == 14 {
        lemma_round_trip_zip();
    }
    if i == 15 {
        lemma_round_trip_docx();
    }
    if i == 16 {
        lemma_round_trip_xlsx();
    }
    if i == 17 {
        lemma_round_trip_xls();
    }
    if i == 18 {
        lemma_round_trip_doc();
    }
}

} // verus!
