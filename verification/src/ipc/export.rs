//! Exporting a chat: the checks on the request, the Markdown and HTML
//! renderings, and the suggested file name.
use vstd::prelude::*;

use super::download::{cuts_at_boundary, prefix_within};
use crate::text::{has_char, lemma_no_char_concat, lemma_no_char_subrange, lemma_trim_subrange, utf8_width};
use crate::config::schema::{ChatExport, ChatMessage};
use crate::text::{
    byte_len, char_is_alphanumeric, chars_eq, chars_of, push_chars, starts_with, string_of, trim,
    trim_chars, alnum_char, utf8_len, utf8_len_upto,
};

verus! {

// ---------------------------------------------------------------------------
// Escaping
// ---------------------------------------------------------------------------

/// The HTML text of one character: `& < > " '` become entities.
pub open spec fn escape_char(c: char) -> Seq<char> {
    if c == '&' {
        "&amp;"@
    } else if c == '<' {
        "&lt;"@
    } else if c == '>' {
        "&gt;"@
    } else if c == '"' {
        "&quot;"@
    } else if c == '\'' {
        "&#39;"@
    } else {
        seq![c]
    }
}

/// `s` with every character escaped for HTML.
pub open spec fn html_escaped(s: Seq<char>) -> Seq<char>
    decreases s.len(),
{
    if s.len() == 0 {
        Seq::empty()
    } else {
        html_escaped(s.drop_last()) + escape_char(s.last())
    }
}

/// Escapes text for HTML.
pub fn html_escape(s: &str) -> (r: String)
    ensures
        r@ == html_escaped(s@),
{
    let c = chars_of(s);
    let mut r = String::new();
    let mut i: usize = 0;
    while i < c.len()
        invariant
            i <= c.len(),
            c@ == s@,
            r@ == html_escaped(s@.take(i as int)),
        decreases c.len() - i,
    {
        assert(s@.take(i + 1).drop_last() =~= s@.take(i as int));
        assert(s@.take(i + 1).last() == c@[i as int]);
        let ch = c[i];
        if ch == '&' {
            push_chars(&mut r, &chars_of("&amp;"));
        } else if ch == '<' {
            push_chars(&mut r, &chars_of("&lt;"));
        } else if ch == '>' {
            push_chars(&mut r, &chars_of("&gt;"));
        } else if ch == '"' {
            push_chars(&mut r, &chars_of("&quot;"));
        } else if ch == '\'' {
            push_chars(&mut r, &chars_of("&#39;"));
        } else {
            let ghost before = r@;
            crate::text::push_char(&mut r, ch);
            assert(r@ =~= before + seq![ch]);
        }
        i = i + 1;
    }
    assert(s@.take(c.len() as int) =~= s@);
    r
}

// ---------------------------------------------------------------------------
// Renderings
// ---------------------------------------------------------------------------

/// The Markdown heading of a message's author.
pub open spec fn md_label(role: Seq<char>) -> Seq<char> {
    if role == "user"@ {
        "**You**"@
    } else if role == "assistant"@ {
        "**Qwen**"@
    } else {
        role
    }
}

/// The Markdown of the messages, each a heading, its text and a rule.
pub open spec fn md_messages(ms: Seq<ChatMessage>) -> Seq<char>
    decreases ms.len(),
{
    if ms.len() == 0 {
        Seq::empty()
    } else {
        md_messages(ms.drop_last()) + "### "@ + md_label(ms.last().role@) + "\n\n"@ + ms.last().content@
            + "\n\n---\n\n"@
    }
}

/// The Markdown export: title, export time, then the messages.
pub open spec fn markdown_of(e: ChatExport) -> Seq<char> {
    "# "@ + e.title@ + "\n\n*Exported at: "@ + e.exported_at@ + "*\n\n---\n\n"@ + md_messages(e.messages@)
}

/// The CSS class and author shown for a message in HTML.
pub open spec fn html_author(role: Seq<char>) -> (Seq<char>, Seq<char>) {
    if role == "user"@ {
        ("user"@, "You"@)
    } else {
        ("assistant"@, "Qwen"@)
    }
}

/// The HTML of the messages, each a block with its author and escaped text.
pub open spec fn html_messages(ms: Seq<ChatMessage>) -> Seq<char>
    decreases ms.len(),
{
    if ms.len() == 0 {
        Seq::empty()
    } else {
        let (cls, lbl) = html_author(ms.last().role@);
        html_messages(ms.drop_last()) + "<div class='"@ + cls + "'><b>"@ + lbl + "</b><pre>"@ + html_escaped(
            ms.last().content@,
        ) + "</pre></div>"@
    }
}

/// The page head of the HTML export, up to the title.
pub open spec fn html_head() -> Seq<char> {
    "<!DOCTYPE html><html><head><meta charset=\"UTF-8\"><title>"@
}

/// The style sheet and body start of the HTML export, up to the heading.
pub open spec fn html_style() -> Seq<char> {
    "</title>\n        <style>body{font-family:sans-serif;max-width:800px;margin:auto;padding:20px;background:#1a1a1a;color:#e0e0e0;}</style>\n        </head><body><h1>"@
}

/// The HTML export: a dark page with the escaped title as heading, the
/// export time, then the messages.
pub open spec fn html_of(e: ChatExport) -> Seq<char> {
    html_head() + html_escaped(e.title@) + html_style() + html_escaped(e.title@) + "</h1><p>Exported: "@
        + html_escaped(e.exported_at@) + "</p><hr>"@ + html_messages(e.messages@) + "</body></html>"@
}

fn text_eq(s: &String, t: &str) -> (b: bool)
    ensures
        b == (s@ == t@),
{
    chars_eq(&chars_of(s.as_str()), &chars_of(t))
}

impl ChatExport {
    /// The chat as Markdown.
    pub fn to_markdown(&self) -> (r: String)
        ensures
            r@ == markdown_of(*self),
    {
        let mut md = "# ".to_owned();
        push_chars(&mut md, &chars_of(self.title.as_str()));
        push_chars(&mut md, &chars_of("\n\n*Exported at: "));
        push_chars(&mut md, &chars_of(self.exported_at.as_str()));
        push_chars(&mut md, &chars_of("*\n\n---\n\n"));
        let ghost head = md@;
        let mut i: usize = 0;
        while i < self.messages.len()
            invariant
                i <= self.messages.len(),
                md@ == head + md_messages(self.messages@.take(i as int)),
            decreases self.messages.len() - i,
        {
            let ghost ms = self.messages@.take(i + 1);
            assert(ms.drop_last() =~= self.messages@.take(i as int));
            let m = &self.messages[i];
            push_chars(&mut md, &chars_of("### "));
            if text_eq(&m.role, "user") {
                push_chars(&mut md, &chars_of("**You**"));
            } else if text_eq(&m.role, "assistant") {
                push_chars(&mut md, &chars_of("**Qwen**"));
            } else {
                push_chars(&mut md, &chars_of(m.role.as_str()));
            }
            push_chars(&mut md, &chars_of("\n\n"));
            push_chars(&mut md, &chars_of(m.content.as_str()));
            push_chars(&mut md, &chars_of("\n\n---\n\n"));
            i = i + 1;
        }
        assert(self.messages@.take(self.messages.len() as int) =~= self.messages@);
        md
    }

    /// The chat as an HTML page.
    pub fn to_html(&self) -> (r: String)
        ensures
            r@ == html_of(*self),
    {
        let title = html_escape(self.title.as_str());
        let mut h = "<!DOCTYPE html><html><head><meta charset=\"UTF-8\"><title>".to_owned();
        push_chars(&mut h, &chars_of(title.as_str()));
        push_chars(
            &mut h,
            &chars_of(
                "</title>\n        <style>body{font-family:sans-serif;max-width:800px;margin:auto;padding:20px;background:#1a1a1a;color:#e0e0e0;}</style>\n        </head><body><h1>",
            ),
        );
        push_chars(&mut h, &chars_of(title.as_str()));
        push_chars(&mut h, &chars_of("</h1><p>Exported: "));
        push_chars(&mut h, &chars_of(html_escape(self.exported_at.as_str()).as_str()));
        push_chars(&mut h, &chars_of("</p><hr>"));
        let ghost head = h@;
        let mut i: usize = 0;
        while i < self.messages.len()
            invariant
                i <= self.messages.len(),
                h@ == head + html_messages(self.messages@.take(i as int)),
            decreases self.messages.len() - i,
        {
            let ghost ms = self.messages@.take(i + 1);
            assert(ms.drop_last() =~= self.messages@.take(i as int));
            let m = &self.messages[i];
            push_chars(&mut h, &chars_of("<div class='"));
            if text_eq(&m.role, "user") {
                push_chars(&mut h, &chars_of("user"));
                push_chars(&mut h, &chars_of("'><b>"));
                push_chars(&mut h, &chars_of("You"));
            } else {
                push_chars(&mut h, &chars_of("assistant"));
                push_chars(&mut h, &chars_of("'><b>"));
                push_chars(&mut h, &chars_of("Qwen"));
            }
            push_chars(&mut h, &chars_of("</b><pre>"));
            push_chars(&mut h, &chars_of(html_escape(m.content.as_str()).as_str()));
            push_chars(&mut h, &chars_of("</pre></div>"));
            i = i + 1;
        }
        assert(self.messages@.take(self.messages.len() as int) =~= self.messages@);
        push_chars(&mut h, &chars_of("</body></html>"));
        h
    }
}


// ---------------------------------------------------------------------------
// Requests and file names
// ---------------------------------------------------------------------------

/// The UTF-8 size of all message texts.
pub open spec fn content_bytes(ms: Seq<ChatMessage>) -> nat
    decreases ms.len(),
{
    if ms.len() == 0 {
        0
    } else {
        content_bytes(ms.drop_last()) + utf8_len(ms.last().content@)
    }
}

/// The largest export, 10 MiB of message text.
pub const MAX_EXPORT_BYTES: usize = 10485760;

/// The outcome of the checks on an export request.
pub open spec fn export_check(title: Seq<char>, ms: Seq<ChatMessage>) -> Result<(), Seq<char>> {
    if utf8_len(title) > 512 {
        Err("Title too long"@)
    } else if ms.len() > 100000 {
        Err("Too many messages"@)
    } else if content_bytes(ms) > MAX_EXPORT_BYTES {
        Err("Export too large (10 MB limit)"@)
    } else {
        Ok(())
    }
}

/// Checks an export request.
pub fn check_export(title: &str, messages: &Vec<ChatMessage>) -> (r: Result<(), String>)
    ensures
        match (r, export_check(title@, messages@)) {
            (Ok(_), Ok(_)) => true,
            (Err(e), Err(f)) => e@ == f,
            _ => false,
        },
{
    if byte_len(title) > 512 {
        return Err("Title too long".to_owned());
    }
    if messages.len() > 100000 {
        return Err("Too many messages".to_owned());
    }
    let mut total: usize = 0;
    let mut i: usize = 0;
    while i < messages.len()
        invariant
            i <= messages.len() <= 100000,
            utf8_len(title@) <= 512,
            total <= MAX_EXPORT_BYTES,
            total == content_bytes(messages@.take(i as int)),
        decreases messages.len() - i,
    {
        assert(messages@.take(i + 1).drop_last() =~= messages@.take(i as int));
        let n = byte_len(messages[i].content.as_str());
        if n > MAX_EXPORT_BYTES - total {
            proof {
                lemma_content_bytes_prefix(messages@, i + 1);
            }
            return Err("Export too large (10 MB limit)".to_owned());
        }
        total = total + n;
        i = i + 1;
    }
    assert(messages@.take(messages.len() as int) =~= messages@);
    Ok(())
}

proof fn lemma_content_bytes_prefix(ms: Seq<ChatMessage>, n: int)
    requires
        0 <= n <= ms.len(),
    ensures
        content_bytes(ms.take(n)) <= content_bytes(ms),
    decreases ms.len() - n,
{
    if n < ms.len() {
        lemma_content_bytes_prefix(ms, n + 1);
        assert(ms.take(n + 1).drop_last() =~= ms.take(n));
    } else {
        assert(ms.take(n) =~= ms);
    }
}

/// The export formats.
#[derive(Debug, Clone, Copy, PartialEq, Eq, Structural)]
pub enum ExportFormat {
    Json,
    Html,
    Markdown,
}

/// `json` and `html` name their formats; anything else is Markdown.
pub open spec fn format_named(name: Seq<char>) -> ExportFormat {
    if name == "json"@ {
        ExportFormat::Json
    } else if name == "html"@ {
        ExportFormat::Html
    } else {
        ExportFormat::Markdown
    }
}

/// The format an export request names.
pub fn export_format(format: &str) -> (f: ExportFormat)
    ensures
        f == format_named(format@),
{
    let c = chars_of(format);
    if chars_eq(&c, &chars_of("json")) {
        ExportFormat::Json
    } else if chars_eq(&c, &chars_of("html")) {
        ExportFormat::Html
    } else {
        ExportFormat::Markdown
    }
}

/// The save dialog's filter name and extension for a format.
pub open spec fn format_filter_of(f: ExportFormat) -> (Seq<char>, Seq<char>) {
    match f {
        ExportFormat::Json => ("JSON"@, "json"@),
        ExportFormat::Html => ("HTML"@, "html"@),
        ExportFormat::Markdown => ("Markdown"@, "md"@),
    }
}

/// The save dialog's filter name and extension for a format.
pub fn format_filter(f: ExportFormat) -> (r: (&'static str, &'static str))
    ensures
        (r.0@, r.1@) == format_filter_of(f),
{
    match f {
        ExportFormat::Json => ("JSON", "json"),
        ExportFormat::Html => ("HTML", "html"),
        ExportFormat::Markdown => ("Markdown", "md"),
    }
}

/// Characters an export file name keeps: letters and digits of any script,
/// `-`, `_` and spaces (which then become `_`).
pub open spec fn stem_char_kept(c: char) -> bool {
    alnum_char(c) || c == '-' || c == '_' || c == ' '
}

/// Every other character replaced by `_`.
pub open spec fn stem_masked(s: Seq<char>) -> Seq<char> {
    s.map_values(|c: char| if stem_char_kept(c) { c } else { '_' })
}

/// Spaces replaced by `_`.
pub open spec fn spaces_to_underscores(s: Seq<char>) -> Seq<char> {
    s.map_values(|c: char| if c == ' ' { '_' } else { c })
}

/// The title made safe, before shortening: masked, trimmed, spaces as `_`,
/// `chat` when nothing is left.
pub open spec fn stem_cleaned(title: Seq<char>) -> Seq<char> {
    let s = spaces_to_underscores(trim(stem_masked(title)));
    if s.len() == 0 {
        "chat"@
    } else {
        s
    }
}

/// `export_file_stem` accepts `title`: a name over 100 bytes is cut between
/// characters.
pub open spec fn stem_ok(title: Seq<char>) -> bool {
    utf8_len(stem_cleaned(title)) <= 100 || cuts_at_boundary(stem_cleaned(title), 100)
}

/// The file name (without extension) suggested for a chat's export: the
/// cleaned title cut to 100 bytes, never hidden.
pub open spec fn stem_of(title: Seq<char>) -> Seq<char> {
    let c = stem_cleaned(title);
    let s = if utf8_len(c) <= 100 {
        c
    } else {
        prefix_within(c, 100)
    };
    if starts_with(s, "."@) {
        "chat"@ + s
    } else {
        s
    }
}

/// The suggested file name of an export, or `None` where cutting it would
/// panic (see `stem_ok`).
pub fn export_file_stem_checked(title: &str) -> (r: Option<String>)
    ensures
        r is Some == stem_ok(title@),
        r matches Some(v) ==> v@ == stem_of(title@),
{
    let tc = chars_of(title);
    let mut masked: Vec<char> = Vec::new();
    let mut i: usize = 0;
    while i < tc.len()
        invariant
            i <= tc.len(),
            tc@ == title@,
            masked@ == stem_masked(title@).take(i as int),
        decreases tc.len() - i,
    {
        let c = tc[i];
        if char_is_alphanumeric(c) || c == '-' || c == '_' || c == ' ' {
            masked.push(c);
        } else {
            masked.push('_');
        }
        assert(stem_masked(title@).take(i + 1) =~= stem_masked(title@).take(i as int).push(
            stem_masked(title@)[i as int],
        ));
        i = i + 1;
    }
    assert(stem_masked(title@).take(tc.len() as int) =~= stem_masked(title@));
    let t = trim_chars(&masked);
    let mut u: Vec<char> = Vec::new();
    let mut j: usize = 0;
    while j < t.len()
        invariant
            j <= t.len(),
            u@ == spaces_to_underscores(t@).take(j as int),
        decreases t.len() - j,
    {
        if t[j] == ' ' {
            u.push('_');
        } else {
            u.push(t[j]);
        }
        assert(spaces_to_underscores(t@).take(j + 1) =~= spaces_to_underscores(t@).take(j as int).push(
            spaces_to_underscores(t@)[j as int],
        ));
        j = j + 1;
    }
    assert(spaces_to_underscores(t@).take(t.len() as int) =~= spaces_to_underscores(t@));
    let c = if u.len() == 0 {
        chars_of("chat")
    } else {
        u
    };
    let short = match utf8_len_upto(&c, 100) {
        Some(_) => c,
        None => {
            let (p, pb) = super::download::prefix_within_bytes(&c, 100);
            if pb != 100 {
                return None;
            }
            p
        },
    };
    if short.len() > 0 && short[0] == '.' {
        proof {
            reveal_strlit(".");
            assert(short@.subrange(0, 1) =~= "."@);
        }
        let mut r = "chat".to_owned();
        push_chars(&mut r, &short);
        Some(r)
    } else {
        proof {
            reveal_strlit(".");
            if short@.len() > 0 {
                assert(short@.subrange(0, 1)[0] == short@[0]);
            }
        }
        Some(string_of(&short))
    }
}

/// The suggested file name (without extension) of a chat's export.
pub fn export_file_stem(title: &str) -> (r: String)
    requires
        stem_ok(title@),
    ensures
        r@ == stem_of(title@),
{
    match export_file_stem_checked(title) {
        Some(r) => r,
        None => {
            proof {
                assert(false);
            }
            String::new()
        },
    }
}

/// Escaped text holds none of the characters that open markup or end an
/// attribute: `<`, `>`, `"` and `'`.
pub proof fn law_escaped_is_inert(s: Seq<char>)
    ensures
        !has_char(html_escaped(s), '<'),
        !has_char(html_escaped(s), '>'),
        !has_char(html_escaped(s), '"'),
        !has_char(html_escaped(s), '\''),
    decreases s.len(),
{
    if s.len() > 0 {
        law_escaped_is_inert(s.drop_last());
        let e = escape_char(s.last());
        reveal_strlit("&amp;");
        reveal_strlit("&lt;");
        reveal_strlit("&gt;");
        reveal_strlit("&quot;");
        reveal_strlit("&#39;");
        assert forall|c: char| c == '<' || c == '>' || c == '"' || c == '\'' implies !has_char(e, c) by {
            if has_char(e, c) {
                let k = choose|k: int| 0 <= k < e.len() && e[k] == c;
            }
        }
        lemma_no_char_concat(html_escaped(s.drop_last()), e, '<');
        lemma_no_char_concat(html_escaped(s.drop_last()), e, '>');
        lemma_no_char_concat(html_escaped(s.drop_last()), e, '"');
        lemma_no_char_concat(html_escaped(s.drop_last()), e, '\'');
    }
}

proof fn lemma_map_no_char(s: Seq<char>, c: char, f: spec_fn(char) -> char)
    requires
        forall|x: char| #[trigger] f(x) != c,
    ensures
        !has_char(s.map_values(f), c),
{
    if has_char(s.map_values(f), c) {
        let k = choose|k: int| 0 <= k < s.map_values(f).len() && s.map_values(f)[k] == c;
        assert(s.map_values(f)[k] == f(s[k]));
    }
}

/// The suggested export name is a plain file name: never empty, at most 100
/// bytes, without `/` or `.` (so never hidden) and without spaces.
pub proof fn law_stem_shape(title: Seq<char>)
    requires
        stem_ok(title),
    ensures
        stem_of(title).len() > 0,
        utf8_len(stem_of(title)) <= 100,
        !has_char(stem_of(title), '/'),
        !has_char(stem_of(title), '.'),
        !has_char(stem_of(title), ' '),
{
    reveal_strlit("chat");
    reveal_strlit(".");
    let m = stem_masked(title);
    let mf = |c: char| if stem_char_kept(c) { c } else { '_' };
    assert(m == title.map_values(mf));
    lemma_map_no_char(title, '/', mf);
    lemma_map_no_char(title, '.', mf);
    lemma_trim_subrange(m);
    let (i, j) = choose|i: int, j: int| 0 <= i <= j <= m.len() && trim(m) == m.subrange(i, j);
    lemma_no_char_subrange(m, '/', i, j);
    lemma_no_char_subrange(m, '.', i, j);
    let t = trim(m);
    let sf = |c: char| if c == ' ' { '_' } else { c };
    let u = spaces_to_underscores(t);
    assert(u == t.map_values(sf));
    lemma_map_no_char(t, ' ', sf);
    assert(!has_char(u, '/')) by {
        if has_char(u, '/') {
            let k = choose|k: int| 0 <= k < u.len() && u[k] == '/';
            assert(u[k] == sf(t[k]));
        }
    }
    assert(!has_char(u, '.')) by {
        if has_char(u, '.') {
            let k = choose|k: int| 0 <= k < u.len() && u[k] == '.';
            assert(u[k] == sf(t[k]));
        }
    }
    let c = stem_cleaned(title);
    let ch = "chat"@;
    assert(!has_char(ch, '/') && !has_char(ch, '.') && !has_char(ch, ' ')) by {
        if has_char(ch, '/') || has_char(ch, '.') || has_char(ch, ' ') {
            let k = choose|k: int| 0 <= k < ch.len() && (ch[k] == '/' || ch[k] == '.' || ch[k] == ' ');
        }
    }
    assert(c.len() > 0);
    if utf8_len(c) > 100 {
        super::download::lemma_prefix_within(c, 100);
        let p = prefix_within(c, 100);
        lemma_no_char_subrange(c, '/', 0, p.len() as int);
        lemma_no_char_subrange(c, '.', 0, p.len() as int);
        lemma_no_char_subrange(c, ' ', 0, p.len() as int);
        assert(utf8_width(c[0]) <= 4);
        assert(p.len() > 0);
    }
    let sh = if utf8_len(c) <= 100 {
        c
    } else {
        prefix_within(c, 100)
    };
    assert(!starts_with(sh, "."@)) by {
        if starts_with(sh, "."@) {
            assert(sh.subrange(0, 1)[0] == sh[0]);
            assert(has_char(sh, '.'));
        }
    }
}
} // verus!
