//! The built-in MCP servers, and the repair of a stored server list.
use vstd::prelude::*;

use super::schema::{servers_wf, McpServerConfig};
use crate::text::{chars_eq, chars_of, opt_view, push_chars, starts_with, starts_with_exec, string_views};

verus! {

/// The user's documents directory.
pub open spec fn documents_dir(home: Seq<char>) -> Seq<char> {
    home + "/Documents"@
}

/// The user's projects directory.
pub open spec fn projects_dir(home: Seq<char>) -> Seq<char> {
    home + "/Projects"@
}

/// A macOS home path (`/Users` or below), which means nothing on Linux.
pub open spec fn under_users(a: Seq<char>) -> bool {
    a == "/Users"@ || starts_with(a, "/Users/"@)
}

/// One filesystem-server argument with macOS home paths replaced by `home`.
pub open spec fn remap_users(a: Seq<char>, home: Seq<char>) -> Seq<char> {
    if under_users(a) {
        home
    } else {
        a
    }
}

/// The directories the filesystem server is meant to expose.
pub open spec fn safe_dir(a: Seq<char>, home: Seq<char>) -> bool {
    a == documents_dir(home) || a == projects_dir(home) || a == "/tmp"@ || a == home
}

/// The arguments with every macOS home path replaced by `home`.
pub open spec fn remapped_args(args: Seq<Seq<char>>, home: Seq<char>) -> Seq<Seq<char>> {
    args.map_values(|a: Seq<char>| remap_users(a, home))
}

/// Some argument is a safe directory.
pub open spec fn has_safe_dir(args: Seq<Seq<char>>, home: Seq<char>) -> bool {
    exists|i: int| 0 <= i < args.len() && safe_dir(#[trigger] args[i], home)
}

/// The repaired arguments of the filesystem server: macOS home paths become
/// `home`, and if no safe directory is left the documents directory is added
/// (home itself is not added back when the user removed it).
pub open spec fn normalized_args(args: Seq<Seq<char>>, home: Seq<char>) -> Seq<Seq<char>> {
    let m = remapped_args(args, home);
    if has_safe_dir(m, home) {
        m
    } else {
        m.push(documents_dir(home))
    }
}

/// Two server configurations agree on everything but their arguments.
pub open spec fn same_but_args(a: McpServerConfig, b: McpServerConfig) -> bool {
    &&& a.command == b.command
    &&& a.env == b.env
    &&& a.cwd == b.cwd
    &&& a.transport_type == b.transport_type
    &&& a.url == b.url
    &&& a.timeout == b.timeout
    &&& a.source == b.source
    &&& a.identifier == b.identifier
    &&& a.from == b.from
    &&& a.from_id == b.from_id
    &&& a.disabled == b.disabled
}

/// The arguments a server gets from the repair: those of the `Filesystem`
/// server are normalized, all others are kept.
pub open spec fn repaired_args(name: Seq<char>, args: Seq<Seq<char>>, home: Seq<char>) -> Seq<Seq<char>> {
    if name == "Filesystem"@ {
        normalized_args(args, home)
    } else {
        args
    }
}

/// `new` is `old` repaired for `home`: same servers in the same order, each
/// changed at most in its arguments, as `repaired_args` says.
pub open spec fn normalized_servers(
    old: Seq<(String, McpServerConfig)>,
    new: Seq<(String, McpServerConfig)>,
    home: Seq<char>,
) -> bool {
    &&& new.len() == old.len()
    &&& forall|i: int|
        0 <= i < new.len() ==> {
            &&& (#[trigger] new[i]).0 == old[i].0
            &&& same_but_args(new[i].1, old[i].1)
            &&& string_views(new[i].1.args@) == repaired_args(old[i].0@, string_views(old[i].1.args@), home)
        }
}

/// A server started over standard input and output with `command` and
/// `args`, and nothing else set.
pub open spec fn stdio_server(c: McpServerConfig, command: Seq<char>, args: Seq<Seq<char>>) -> bool {
    &&& c.command@ == command
    &&& string_views(c.args@) == args
    &&& c.env is None
    &&& c.cwd is None
    &&& opt_view(c.transport_type) == Some("stdio"@)
    &&& c.url is None
    &&& c.timeout is None
    &&& c.identifier is None
    &&& c.from_id is None
    &&& !c.disabled
}

/// The built-in servers for a user whose home is `home`: `qwen-core`
/// (official, built in), `Filesystem` over the documents and projects
/// directories and `/tmp`, and `Sequential-Thinking`, all run with `npx -y`.
pub open spec fn default_servers(r: Seq<(String, McpServerConfig)>, home: Seq<char>) -> bool {
    &&& r.len() == 3
    &&& r[0].0@ == "qwen-core"@
    &&& stdio_server(r[0].1, "npx"@, seq!["-y"@, "qwen-core"@])
    &&& opt_view(r[0].1.source) == Some("official"@)
    &&& opt_view(r[0].1.from) == Some("builtin"@)
    &&& r[1].0@ == "Filesystem"@
    &&& stdio_server(
        r[1].1,
        "npx"@,
        seq!["-y"@, "@modelcontextprotocol/server-filesystem"@, documents_dir(home), projects_dir(home), "/tmp"@],
    )
    &&& r[1].1.source is None
    &&& r[1].1.from is None
    &&& r[2].0@ == "Sequential-Thinking"@
    &&& stdio_server(r[2].1, "npx"@, seq!["-y"@, "@modelcontextprotocol/server-sequential-thinking"@])
    &&& r[2].1.source is None
    &&& r[2].1.from is None
}

fn owned(s: &str) -> (r: String)
    ensures
        r@ == s@,
{
    s.to_owned()
}

fn text_plus(a: &str, b: &str) -> (r: String)
    ensures
        r@ == a@ + b@,
{
    let mut r = a.to_owned();
    push_chars(&mut r, &chars_of(b));
    r
}

fn stdio(command: &str, args: Vec<String>) -> (c: McpServerConfig)
    ensures
        stdio_server(c, command@, string_views(args@)),
        c.source is None,
        c.from is None,
{
    McpServerConfig {
        command: owned(command),
        args,
        env: None,
        cwd: None,
        transport_type: Some(owned("stdio")),
        url: None,
        timeout: None,
        source: None,
        identifier: None,
        from: None,
        from_id: None,
        disabled: false,
    }
}

/// The built-in MCP servers for the home directory `home`.
pub fn mcp_servers_for(home: &str) -> (r: Vec<(String, McpServerConfig)>)
    ensures
        default_servers(r@, home@),
        servers_wf(r@),
{
    let mut r: Vec<(String, McpServerConfig)> = Vec::new();
    let core_args = vec![owned("-y"), owned("qwen-core")];
    assert(string_views(core_args@) =~= seq!["-y"@, "qwen-core"@]);
    let mut core = stdio("npx", core_args);
    core.source = Some(owned("official"));
    core.from = Some(owned("builtin"));
    r.push((owned("qwen-core"), core));
    let fs_args = vec![
        owned("-y"),
        owned("@modelcontextprotocol/server-filesystem"),
        text_plus(home, "/Documents"),
        text_plus(home, "/Projects"),
        owned("/tmp"),
    ];
    assert(string_views(fs_args@) =~= seq![
        "-y"@,
        "@modelcontextprotocol/server-filesystem"@,
        documents_dir(home@),
        projects_dir(home@),
        "/tmp"@,
    ]);
    r.push((owned("Filesystem"), stdio("npx", fs_args)));
    let st_args = vec![owned("-y"), owned("@modelcontextprotocol/server-sequential-thinking")];
    assert(string_views(st_args@) =~= seq!["-y"@, "@modelcontextprotocol/server-sequential-thinking"@]);
    r.push((owned("Sequential-Thinking"), stdio("npx", st_args)));
    proof {
        reveal_strlit("qwen-core");
        reveal_strlit("Filesystem");
        reveal_strlit("Sequential-Thinking");
        assert("qwen-core"@.len() == 9 && "Filesystem"@.len() == 10 && "Sequential-Thinking"@.len() == 19);
    }
    r
}

fn is_under_users(a: &str) -> (b: bool)
    ensures
        b == under_users(a@),
{
    let ac = chars_of(a);
    chars_eq(&ac, &chars_of("/Users")) || starts_with_exec(&ac, &chars_of("/Users/"))
}

fn is_safe_dir(a: &str, home: &str) -> (b: bool)
    ensures
        b == safe_dir(a@, home@),
{
    let ac = chars_of(a);
    let docs = chars_of(text_plus(home, "/Documents").as_str());
    let projects = chars_of(text_plus(home, "/Projects").as_str());
    chars_eq(&ac, &docs) || chars_eq(&ac, &projects) || chars_eq(&ac, &chars_of("/tmp")) || chars_eq(
        &ac,
        &chars_of(home),
    )
}

/// The normalized arguments of the filesystem server.
pub fn normalize_args(args: &Vec<String>, home: &str) -> (r: Vec<String>)
    ensures
        string_views(r@) == normalized_args(string_views(args@), home@),
{
    let ghost m = remapped_args(string_views(args@), home@);
    let mut r: Vec<String> = Vec::new();
    let mut found = false;
    let mut i: usize = 0;
    while i < args.len()
        invariant
            i <= args.len(),
            m == remapped_args(string_views(args@), home@),
            string_views(r@) == m.subrange(0, i as int),
            found == has_safe_dir(m.subrange(0, i as int), home@),
        decreases args.len() - i,
    {
        let a = &args[i];
        let next = if is_under_users(a.as_str()) {
            owned(home)
        } else {
            a.clone()
        };
        let safe = is_safe_dir(next.as_str(), home);
        proof {
            assert(next@ == m[i as int]);
            assert(m.subrange(0, i + 1) =~= m.subrange(0, i as int).push(m[i as int]));
            if safe {
                assert(m.subrange(0, i + 1)[i as int] == m[i as int]);
            }
            if has_safe_dir(m.subrange(0, i as int), home@) {
                let k = choose|k: int| 0 <= k < i && safe_dir(#[trigger] m.subrange(0, i as int)[k], home@);
                assert(m.subrange(0, i + 1)[k] == m.subrange(0, i as int)[k]);
            }
            if has_safe_dir(m.subrange(0, i + 1), home@) && !safe {
                let k = choose|k: int| 0 <= k < i + 1 && safe_dir(#[trigger] m.subrange(0, i + 1)[k], home@);
                assert(m.subrange(0, i as int)[k] == m.subrange(0, i + 1)[k]);
            }
        }
        r.push(next);
        assert(string_views(r@) =~= m.subrange(0, i + 1));
        found = found || safe;
        i = i + 1;
    }
    assert(m.subrange(0, args.len() as int) =~= m);
    if !found {
        r.push(text_plus(home, "/Documents"));
        assert(string_views(r@) =~= m.push(documents_dir(home@)));
    }
    r
}

/// Repairs a stored server list for the home directory `home`.
pub fn normalize_mcp_for(config: Vec<(String, McpServerConfig)>, home: &str) -> (r: Vec<(String, McpServerConfig)>)
    ensures
        normalized_servers(config@, r@, home@),
        servers_wf(config@) ==> servers_wf(r@),
{
    let ghost old = config@;
    let mut config = config;
    let mut r: Vec<(String, McpServerConfig)> = Vec::new();
    let ghost mut done: int = 0;
    while config.len() > 0
        invariant
            0 <= done <= old.len(),
            config@ == old.subrange(done, old.len() as int),
            r.len() == done,
            forall|i: int|
                0 <= i < done ==> {
                    &&& (#[trigger] r@[i]).0 == old[i].0
                    &&& same_but_args(r@[i].1, old[i].1)
                    &&& string_views(r@[i].1.args@) == repaired_args(
                        old[i].0@,
                        string_views(old[i].1.args@),
                        home@,
                    )
                },
        decreases config.len(),
    {
        let (name, mut c) = config.remove(0);
        let nc = chars_of(name.as_str());
        if chars_eq(&nc, &chars_of("Filesystem")) {
            c.args = normalize_args(&c.args, home);
        }
        r.push((name, c));
        proof {
            done = done + 1;
            assert(config@ =~= old.subrange(done, old.len() as int));
        }
    }
    proof {
        if servers_wf(old) {
            lemma_normalized_wf(old, r@, home@);
        }
    }
    r
}

/// Repairing a server list keeps every name once: the names stay as they
/// were.
pub proof fn lemma_normalized_wf(old: Seq<(String, McpServerConfig)>, new: Seq<(String, McpServerConfig)>, home: Seq<char>)
    requires
        normalized_servers(old, new, home),
        servers_wf(old),
    ensures
        servers_wf(new),
{
    assert forall|i: int, j: int|
        0 <= i < new.len() && 0 <= j < new.len() && i != j implies #[trigger] new[i].0@ != #[trigger] new[j].0@ by {
        assert(new[i].0 == old[i].0);
        assert(new[j].0 == old[j].0);
    }
}

/// Calls `dirs::home_dir` and renders the path as text (lossily, as
/// `to_string_lossy` does).  Trusted.  Which directory comes back depends on
/// the environment of the process (`HOME`, else the password database) and
/// is left unstated; what is stated is that a directory found is never
/// empty: `dirs` drops an empty `HOME` and an empty password-database entry,
/// and the lossy rendering keeps a non-empty path non-empty.
#[verifier::external_body]
fn home_dir_text() -> (r: Option<String>)
    ensures
        r matches Some(h) ==> h@.len() > 0,
{
    dirs::home_dir().map(|p| p.to_string_lossy().to_string())
}

/// The home directory's text when one was found, else `/tmp`.
pub open spec fn home_or_fallback(home: Option<Seq<char>>) -> Seq<char> {
    match home {
        Some(h) => h,
        None => "/tmp"@,
    }
}

/// The user's home directory, or `/tmp` when it cannot be found; never
/// empty.
pub(crate) fn home_or_tmp() -> (r: String)
    ensures
        exists|home: Option<Seq<char>>|
            (home matches Some(h) ==> h.len() > 0) && r@ == #[trigger] home_or_fallback(home),
        r@.len() > 0,
{
    let found = home_dir_text();
    let ghost w = opt_view(found);
    let r = match found {
        Some(h) => h,
        None => owned("/tmp"),
    };
    proof {
        reveal_strlit("/tmp");
        assert(r@ == home_or_fallback(w));
    }
    r
}

/// The built-in MCP servers for the current user.
pub fn mcp_servers() -> (r: Vec<(String, McpServerConfig)>)
    ensures
        exists|home: Seq<char>| home.len() > 0 && #[trigger] default_servers(r@, home),
        servers_wf(r@),
{
    let home = home_or_tmp();
    mcp_servers_for(home.as_str())
}

/// Repairs a stored server list for the current user.
pub fn normalize_mcp(config: Vec<(String, McpServerConfig)>) -> (r: Vec<(String, McpServerConfig)>)
    ensures
        exists|home: Seq<char>| home.len() > 0 && #[trigger] normalized_servers(config@, r@, home),
        servers_wf(config@) ==> servers_wf(r@),
{
    let home = home_or_tmp();
    normalize_mcp_for(config, home.as_str())
}

proof fn lemma_documents_not_under_users(home: Seq<char>)
    requires
        !under_users(home),
    ensures
        !under_users(documents_dir(home)),
{
    reveal_strlit("/Users");
    reveal_strlit("/Users/");
    reveal_strlit("/Documents");
    let d = documents_dir(home);
    let p = "/Users/"@;
    assert(d.len() == home.len() + 10);
    assert(d != "/Users"@);
    if starts_with(d, p) {
        assert(d.subrange(0, 7) == p);
        if home.len() >= 7 {
            assert(home.subrange(0, 7) =~= d.subrange(0, 7));
            assert(starts_with(home, p));
        } else if home.len() == 6 {
            assert(home =~= d.subrange(0, 6));
            assert(d.subrange(0, 6) =~= p.subrange(0, 6));
            assert(p.subrange(0, 6) =~= "/Users"@);
        } else {
            let k = home.len() as int;
            assert(d[k] == "/Documents"@[0]);
            assert(d.subrange(0, 7)[k] == d[k]);
            assert(p[k] == d[k]);
            if k == 0 {
                assert(d[1] == "/Documents"@[1]);
                assert(d.subrange(0, 7)[1] == d[1]);
            }
        }
    }
}

/// Repairing the filesystem server's arguments twice gives what repairing
/// them once gives, for any home outside `/Users`.
pub proof fn law_normalize_args_idempotent(args: Seq<Seq<char>>, home: Seq<char>)
    requires
        !under_users(home),
    ensures
        normalized_args(normalized_args(args, home), home) == normalized_args(args, home),
        has_safe_dir(normalized_args(args, home), home),
        forall|i: int|
            0 <= i < normalized_args(args, home).len() ==> !under_users(
                #[trigger] normalized_args(args, home)[i],
            ),
{
    lemma_documents_not_under_users(home);
    let m = remapped_args(args, home);
    let n = normalized_args(args, home);
    assert forall|i: int| 0 <= i < n.len() implies !under_users(#[trigger] n[i]) by {
        if i < m.len() {
            assert(n[i] == m[i]);
        }
    }
    let m2 = remapped_args(n, home);
    assert(m2 =~= n);
    if !has_safe_dir(m, home) {
        assert(safe_dir(n[m.len() as int], home));
    }
}

/// Repairing a whole server list twice gives the arguments that repairing
/// it once gives, for any home outside `/Users`.
pub proof fn law_normalize_servers_idempotent(
    a: Seq<(String, McpServerConfig)>,
    b: Seq<(String, McpServerConfig)>,
    c: Seq<(String, McpServerConfig)>,
    home: Seq<char>,
)
    requires
        !under_users(home),
        normalized_servers(a, b, home),
        normalized_servers(b, c, home),
    ensures
        c.len() == b.len(),
        forall|i: int|
            0 <= i < c.len() ==> (#[trigger] c[i]).0 == b[i].0 && same_but_args(c[i].1, b[i].1)
                && string_views(c[i].1.args@) == string_views(b[i].1.args@),
{
    assert forall|i: int| 0 <= i < c.len() implies (#[trigger] c[i]).0 == b[i].0 && same_but_args(
        c[i].1,
        b[i].1,
    ) && string_views(c[i].1.args@) == string_views(b[i].1.args@) by {
        assert(c[i].0 == b[i].0);
        assert(b[i].0 == a[i].0);
        if a[i].0@ == "Filesystem"@ {
            law_normalize_args_idempotent(string_views(a[i].1.args@), home);
        }
    }
}


/// The repair never brings back the home directory the user removed: when
/// no argument is (or maps to) the home directory, none is afterwards.
pub proof fn law_home_not_re_added(args: Seq<Seq<char>>, home: Seq<char>)
    requires
        !remapped_args(args, home).contains(home),
    ensures
        !normalized_args(args, home).contains(home),
{
    reveal_strlit("/Documents");
    let m = remapped_args(args, home);
    assert(documents_dir(home).len() > home.len());
    if !has_safe_dir(m, home) {
        let n = m.push(documents_dir(home));
        if n.contains(home) {
            let k = choose|k: int| 0 <= k < n.len() && n[k] == home;
            if k < m.len() {
                assert(m[k] == home);
            }
        }
    }
}
} // verus!
