//! Crash reports: their file names, their text, and the listing shown to the
//! user.
use vstd::prelude::*;

use crate::ipc::filename::{extension, extension_of};
use crate::profile::manager::{decimal, decimal_exec};
use crate::text::{
    chars_eq, chars_of, contains_exec, contains_str, lemma_lex_irreflexive, lemma_lex_total,
    lemma_lex_transitive, lex_lt, lex_lt_exec, push_chars, string_views, trim, trim_chars,
};

verus! {

/// The report file of a crash at Unix time `ts` (seconds).
pub open spec fn crash_name(ts: nat) -> Seq<char> {
    "crash-"@ + decimal(ts) + ".log"@
}

/// The file name of the report of a crash at Unix time `timestamp`.
pub fn crash_file_name(timestamp: u64) -> (r: String)
    ensures
        r@ == crash_name(timestamp as nat),
{
    let mut r = "crash-".to_owned();
    push_chars(&mut r, &decimal_exec(timestamp as u128));
    push_chars(&mut r, &chars_of(".log"));
    r
}

/// The note shown instead of a backtrace that was not captured.
pub open spec fn no_backtrace_note() -> Seq<char> {
    "Backtrace unavailable (build without debuginfo)"@
}

/// A captured backtrace, or the note when capture was disabled or gave
/// nothing.
pub open spec fn backtrace_or_note(bt: Seq<char>) -> Seq<char> {
    if contains_str(bt, "disabled"@) || trim(bt).len() == 0 {
        no_backtrace_note()
    } else {
        bt
    }
}

/// The backtrace section of a report, from the rendered backtrace `bt`.
pub fn backtrace_text(bt: &str) -> (r: String)
    ensures
        r@ == backtrace_or_note(bt@),
{
    let c = chars_of(bt);
    if contains_exec(&c, &chars_of("disabled")) || trim_chars(&c).len() == 0 {
        "Backtrace unavailable (build without debuginfo)".to_owned()
    } else {
        bt.to_owned()
    }
}

/// A report carries a backtrace only when `RUST_BACKTRACE` is `1`.
pub open spec fn backtrace_wanted(var: Option<Seq<char>>) -> bool {
    var == Some("1"@)
}

/// Whether a crash report should capture a backtrace, given the value of
/// `RUST_BACKTRACE` (`None` when unset).
pub fn backtrace_requested(var: Option<&str>) -> (b: bool)
    ensures
        b == backtrace_wanted(
            match var {
                Some(v) => Some(v@),
                None => None,
            },
        ),
{
    match var {
        Some(v) => {
            let r = crate::text::chars_eq(&chars_of(v), &chars_of("1"));
            r
        },
        None => false,
    }
}

/// The backtrace section of a report: the captured backtrace `rendered`
/// (or the note, when that gave nothing) when `RUST_BACKTRACE` asks for one,
/// else the note.
pub open spec fn backtrace_section_of(var: Option<Seq<char>>, rendered: Seq<char>) -> Seq<char> {
    if backtrace_wanted(var) {
        backtrace_or_note(rendered)
    } else {
        no_backtrace_note()
    }
}

/// The backtrace section of a report, given `RUST_BACKTRACE` and the
/// backtrace captured (ignored when none was asked for).
pub fn backtrace_section(var: Option<&str>, rendered: &str) -> (r: String)
    ensures
        r@ == backtrace_section_of(
            match var {
                Some(v) => Some(v@),
                None => None,
            },
            rendered@,
        ),
{
    if backtrace_requested(var) {
        backtrace_text(rendered)
    } else {
        "Backtrace unavailable (build without debuginfo)".to_owned()
    }
}

/// The panic message: the payload when it is text, else a note.
pub open spec fn message_of(payload: Option<Seq<char>>) -> Seq<char> {
    match payload {
        Some(p) => p,
        None => "Unknown panic (non-string payload)"@,
    }
}

/// The panic message of a report; `payload` is the panic's payload when it
/// is a string.
pub fn panic_message(payload: Option<&str>) -> (r: String)
    ensures
        r@ == message_of(
            match payload {
                Some(p) => Some(p@),
                None => None,
            },
        ),
{
    match payload {
        Some(p) => p.to_owned(),
        None => "Unknown panic (non-string payload)".to_owned(),
    }
}

/// `file:line:column`, or `unknown` without a location.
pub open spec fn location_of(loc: Option<(Seq<char>, u32, u32)>) -> Seq<char> {
    match loc {
        Some((f, l, c)) => f + ":"@ + decimal(l as nat) + ":"@ + decimal(c as nat),
        None => "unknown"@,
    }
}

/// The location line of a report.
pub fn location_text(loc: Option<(&str, u32, u32)>) -> (r: String)
    ensures
        r@ == location_of(
            match loc {
                Some((f, l, c)) => Some((f@, l, c)),
                None => None,
            },
        ),
{
    match loc {
        Some((f, l, c)) => {
            let mut r = f.to_owned();
            push_chars(&mut r, &chars_of(":"));
            push_chars(&mut r, &decimal_exec(l as u128));
            push_chars(&mut r, &chars_of(":"));
            push_chars(&mut r, &decimal_exec(c as u128));
            r
        },
        None => "unknown".to_owned(),
    }
}

/// The text of a crash report.
pub open spec fn report_text(
    ts: nat,
    version: Seq<char>,
    os: Seq<char>,
    arch: Seq<char>,
    thread: Seq<char>,
    message: Seq<char>,
    location: Seq<char>,
    backtrace: Seq<char>,
) -> Seq<char> {
    "=== Qwem Studio Linux Crash Report ===\nTime: "@ + decimal(ts) + "\nVersion: "@ + version
        + "\nPlatform: "@ + os + " "@ + arch + "\nThread: "@ + thread + "\n\nPanic: "@ + message
        + "\nLocation: "@ + location + "\n\nBacktrace:\n"@ + backtrace + "\n"@
}

/// Builds the text of a crash report.
pub fn crash_report(
    timestamp: u64,
    version: &str,
    os: &str,
    arch: &str,
    thread: &str,
    message: &str,
    location: &str,
    backtrace: &str,
) -> (r: String)
    ensures
        r@ == report_text(timestamp as nat, version@, os@, arch@, thread@, message@, location@, backtrace@),
{
    let mut r = "=== Qwem Studio Linux Crash Report ===\nTime: ".to_owned();
    push_chars(&mut r, &decimal_exec(timestamp as u128));
    push_chars(&mut r, &chars_of("\nVersion: "));
    push_chars(&mut r, &chars_of(version));
    push_chars(&mut r, &chars_of("\nPlatform: "));
    push_chars(&mut r, &chars_of(os));
    push_chars(&mut r, &chars_of(" "));
    push_chars(&mut r, &chars_of(arch));
    push_chars(&mut r, &chars_of("\nThread: "));
    push_chars(&mut r, &chars_of(thread));
    push_chars(&mut r, &chars_of("\n\nPanic: "));
    push_chars(&mut r, &chars_of(message));
    push_chars(&mut r, &chars_of("\nLocation: "));
    push_chars(&mut r, &chars_of(location));
    push_chars(&mut r, &chars_of("\n\nBacktrace:\n"));
    push_chars(&mut r, &chars_of(backtrace));
    push_chars(&mut r, &chars_of("\n"));
    r
}

/// The names with the extension `log`, in order.
pub open spec fn log_names(names: Seq<Seq<char>>) -> Seq<Seq<char>>
    decreases names.len(),
{
    if names.len() == 0 {
        Seq::empty()
    } else if extension_of(names.last()) == Some("log"@) {
        log_names(names.drop_last()).push(names.last())
    } else {
        log_names(names.drop_last())
    }
}

/// The names are in decreasing (byte-wise) order.
pub open spec fn descending(v: Seq<Seq<char>>) -> bool {
    forall|a: int, b: int| #![trigger v[a], v[b]] 0 <= a < b < v.len() ==> !lex_lt(v[a], v[b])
}

fn insert_descending(v: &mut Vec<String>, s: String)
    requires
        descending(string_views(old(v)@)),
    ensures
        descending(string_views(final(v)@)),
        string_views(final(v)@).to_multiset() == string_views(old(v)@).to_multiset().insert(s@),
{
    let ghost old_v = string_views(v@);
    let sc = chars_of(s.as_str());
    let mut i: usize = 0;
    while i < v.len() && !lex_lt_exec(&chars_of(v[i].as_str()), &sc)
        invariant
            i <= v.len(),
            sc@ == s@,
            old_v == string_views(v@),
            forall|j: int| 0 <= j < i ==> !lex_lt(#[trigger] old_v[j], s@),
        decreases v.len() - i,
    {
        i = i + 1;
    }
    proof {
        if i < v.len() {
            assert(lex_lt(old_v[i as int], s@));
        }
    }
    v.insert(i, s);
    proof {
        let w = string_views(v@);
        assert(w =~= old_v.insert(i as int, s@));
        vstd::seq_lib::to_multiset_insert(old_v, i as int, s@);
        assert forall|a: int, b: int| 0 <= a < b < w.len() implies !lex_lt(#[trigger] w[a], #[trigger] w[b]) by {
            if b < i {
                assert(w[a] == old_v[a] && w[b] == old_v[b]);
            } else if b == i {
                assert(w[a] == old_v[a]);
            } else if a == i {
                assert(w[b] == old_v[b - 1]);
                let x = old_v[i as int];
                let y = old_v[b - 1];
                if lex_lt(s@, y) {
                    if b - 1 > i {
                        assert(!lex_lt(x, y));
                        lemma_lex_total(x, y);
                        if x == y {
                            lemma_lex_transitive(s@, x, s@);
                        } else {
                            lemma_lex_transitive(s@, y, x);
                            lemma_lex_transitive(s@, x, s@);
                        }
                    } else {
                        lemma_lex_transitive(s@, x, s@);
                    }
                    lemma_lex_irreflexive(s@);
                }
            } else if a < i {
                assert(w[a] == old_v[a] && w[b] == old_v[b - 1]);
                let x = old_v[a];
                let y = old_v[b - 1];
                assert(!lex_lt(x, y));
            } else {
                assert(w[a] == old_v[a - 1] && w[b] == old_v[b - 1]);
            }
        }
    }
}

/// The crash reports among the directory entries `names`, newest first
/// (reports are named by time, so by name in decreasing order).
pub fn crash_log_listing(names: &Vec<String>) -> (r: Vec<String>)
    ensures
        descending(string_views(r@)),
        string_views(r@).to_multiset() == log_names(string_views(names@)).to_multiset(),
{
    let mut r: Vec<String> = Vec::new();
    let mut i: usize = 0;
    let ghost nv = string_views(names@);
    proof {
        assert(nv.take(0) =~= Seq::<Seq<char>>::empty());
        assert(string_views(r@) =~= Seq::<Seq<char>>::empty());
        assert(log_names(nv.take(0)) =~= Seq::<Seq<char>>::empty());
    }
    while i < names.len()
        invariant
            i <= names.len(),
            nv == string_views(names@),
            descending(string_views(r@)),
            string_views(r@).to_multiset() == log_names(nv.take(i as int)).to_multiset(),
        decreases names.len() - i,
    {
        assert(nv.take(i + 1).drop_last() =~= nv.take(i as int));
        assert(nv.take(i + 1).last() == names@[i as int]@);
        let is_log = match extension(&chars_of(names[i].as_str())) {
            Some(e) => chars_eq(&e, &chars_of("log")),
            None => false,
        };
        if is_log {
            insert_descending(&mut r, names[i].clone());
            proof {
                vstd::seq_lib::to_multiset_build(log_names(nv.take(i as int)), names@[i as int]@);
            }
        }
        i = i + 1;
    }
    assert(nv.take(names.len() as int) =~= nv);
    r
}

} // verus!
