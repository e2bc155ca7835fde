//! The checks on a server list the page wants to store, and how it is
//! stored.
use vstd::prelude::*;

use crate::config::defaults::{home_or_tmp, mcp_servers_for, normalize_mcp_for, normalized_servers, stdio_server};
use crate::config::schema::{servers_wf, McpServerConfig};
use crate::profile::manager::{decimal, decimal_exec};
use crate::text::{
    byte_len, chars_eq, chars_of, has_char, has_char_exec, opt_view, push_chars, starts_with, starts_with_exec,
    utf8_len,
};

verus! {

/// At most this many servers.
pub const MAX_SERVERS: usize = 32;

/// At most this many arguments per server.
pub const MAX_ARGS: usize = 64;

/// At most this many bytes per argument.
pub const MAX_ARG_LEN: usize = 1024;

/// The programs a server may be started with (besides paths).
pub open spec fn allowed_commands() -> Seq<Seq<char>> {
    seq!["npx"@, "node"@, "nodejs"@, "python3"@, "python"@, "uvx"@, "bunx"@, "deno"@]
}

fn allowed_command_list() -> (v: Vec<&'static str>)
    ensures
        v.len() == allowed_commands().len(),
        forall|i: int| 0 <= i < v.len() ==> #[trigger] v@[i]@ == allowed_commands()[i],
{
    vec!["npx", "node", "nodejs", "python3", "python", "uvx", "bunx", "deno"]
}

/// A command is allowed when it is a known program or a path (`/...` or
/// `./...`).
pub open spec fn command_allowed(cmd: Seq<char>) -> bool {
    allowed_commands().contains(cmd) || starts_with(cmd, "/"@) || starts_with(cmd, "./"@)
}

/// The error of the first bad argument: too long, or holding a NUL.
pub open spec fn args_error(args: Seq<Seq<char>>, name: Seq<char>) -> Option<Seq<char>>
    decreases args.len(),
{
    if args.len() == 0 {
        None
    } else if utf8_len(args[0]) > MAX_ARG_LEN {
        Some("Arg too long for "@ + name)
    } else if has_char(args[0], '\0') {
        Some("Invalid arg for "@ + name)
    } else {
        args_error(args.drop_first(), name)
    }
}

/// The message listing the allowed commands.
pub open spec fn msg_not_allowed(cmd: Seq<char>, name: Seq<char>) -> Seq<char> {
    "Command '"@ + cmd + "' not allowed for "@ + name
        + " (allowed: npx, node, nodejs, python3, python, uvx, bunx, deno or absolute path)"@
}

/// The first problem of one server entry, if any.
pub open spec fn entry_error(name: Seq<char>, c: McpServerConfig) -> Option<Seq<char>> {
    let cmd = c.command@;
    if utf8_len(name) == 0 || utf8_len(name) > 128 {
        Some("Invalid server name: "@ + name)
    } else if has_char(name, '/') || has_char(name, '\\') || has_char(name, '\0') {
        Some("Invalid server name characters: "@ + name)
    } else if utf8_len(cmd) == 0 || utf8_len(cmd) > 512 {
        Some("Invalid command for "@ + name)
    } else if !command_allowed(cmd) {
        Some(msg_not_allowed(cmd, name))
    } else if c.args@.len() > MAX_ARGS {
        Some("Too many args for "@ + name)
    } else if args_error(crate::text::string_views(c.args@), name) is Some {
        args_error(crate::text::string_views(c.args@), name)
    } else {
        match opt_view(c.url) {
            Some(u) => if utf8_len(u) > 2048 {
                Some("URL too long for "@ + name)
            } else if !(starts_with(u, "http://"@) || starts_with(u, "https://"@)) {
                Some("URL must be http(s) for "@ + name)
            } else {
                None
            },
            None => None,
        }
    }
}

/// The first problem among the entries, in order.
pub open spec fn entries_error(v: Seq<(String, McpServerConfig)>) -> Option<Seq<char>>
    decreases v.len(),
{
    if v.len() == 0 {
        None
    } else if entry_error(v[0].0@, v[0].1) is Some {
        entry_error(v[0].0@, v[0].1)
    } else {
        entries_error(v.drop_first())
    }
}

/// The problem of a server list: too many servers, or the first bad entry.
pub open spec fn config_error(v: Seq<(String, McpServerConfig)>) -> Option<Seq<char>> {
    if v.len() > MAX_SERVERS {
        Some("Too many servers: "@ + decimal(v.len()))
    } else {
        entries_error(v)
    }
}

fn text_plus(a: &str, b: &str) -> (r: String)
    ensures
        r@ == a@ + b@,
{
    let mut r = a.to_owned();
    push_chars(&mut r, &chars_of(b));
    r
}

fn check_args(args: &Vec<String>, name: &str) -> (r: Result<(), String>)
    ensures
        match r {
            Ok(_) => args_error(crate::text::string_views(args@), name@) is None,
            Err(e) => args_error(crate::text::string_views(args@), name@) == Some(e@),
        },
{
    let ghost av = crate::text::string_views(args@);
    let mut i: usize = 0;
    assert(av.skip(0) =~= av);
    while i < args.len()
        invariant
            i <= args.len(),
            av == crate::text::string_views(args@),
            args_error(av, name@) == args_error(av.skip(i as int), name@),
        decreases args.len() - i,
    {
        assert(av.skip(i as int)[0] == args@[i as int]@);
        assert(av.skip(i as int).drop_first() =~= av.skip(i + 1));
        if byte_len(args[i].as_str()) > MAX_ARG_LEN {
            return Err(text_plus("Arg too long for ", name));
        }
        if has_char_exec(&chars_of(args[i].as_str()), '\0') {
            return Err(text_plus("Invalid arg for ", name));
        }
        i = i + 1;
    }
    assert(av.skip(i as int).len() == 0);
    Ok(())
}

fn is_allowed_command(cmd: &str) -> (b: bool)
    ensures
        b == command_allowed(cmd@),
{
    let cc = chars_of(cmd);
    let list = allowed_command_list();
    let mut i: usize = 0;
    while i < list.len()
        invariant
            i <= list.len(),
            cc@ == cmd@,
            list.len() == allowed_commands().len(),
            forall|k: int| 0 <= k < list.len() ==> #[trigger] list@[k]@ == allowed_commands()[k],
            forall|k: int| 0 <= k < i ==> #[trigger] allowed_commands()[k] != cmd@,
        decreases list.len() - i,
    {
        if chars_eq(&cc, &chars_of(list[i])) {
            assert(allowed_commands()[i as int] == cmd@);
            assert(allowed_commands().contains(cmd@));
            return true;
        }
        i = i + 1;
    }
    assert(!allowed_commands().contains(cmd@));
    starts_with_exec(&cc, &chars_of("/")) || starts_with_exec(&cc, &chars_of("./"))
}

fn check_entry(name: &str, c: &McpServerConfig) -> (r: Result<(), String>)
    ensures
        match r {
            Ok(_) => entry_error(name@, *c) is None,
            Err(e) => entry_error(name@, *c) == Some(e@),
        },
{
    let nl = byte_len(name);
    if nl == 0 || nl > 128 {
        return Err(text_plus("Invalid server name: ", name));
    }
    let nc = chars_of(name);
    if has_char_exec(&nc, '/') || has_char_exec(&nc, '\\') || has_char_exec(&nc, '\0') {
        return Err(text_plus("Invalid server name characters: ", name));
    }
    let cl = byte_len(c.command.as_str());
    if cl == 0 || cl > 512 {
        return Err(text_plus("Invalid command for ", name));
    }
    if !is_allowed_command(c.command.as_str()) {
        let mut m = text_plus("Command '", c.command.as_str());
        push_chars(&mut m, &chars_of("' not allowed for "));
        push_chars(&mut m, &nc);
        push_chars(
            &mut m,
            &chars_of(" (allowed: npx, node, nodejs, python3, python, uvx, bunx, deno or absolute path)"),
        );
        return Err(m);
    }
    if c.args.len() > MAX_ARGS {
        return Err(text_plus("Too many args for ", name));
    }
    check_args(&c.args, name)?;
    match &c.url {
        Some(u) => {
            if byte_len(u.as_str()) > 2048 {
                return Err(text_plus("URL too long for ", name));
            }
            let uc = chars_of(u.as_str());
            if !(starts_with_exec(&uc, &chars_of("http://")) || starts_with_exec(&uc, &chars_of("https://"))) {
                return Err(text_plus("URL must be http(s) for ", name));
            }
            Ok(())
        },
        None => Ok(()),
    }
}

/// Checks a server list the page wants to store.
pub fn validate_mcp_config(config: &Vec<(String, McpServerConfig)>) -> (r: Result<(), String>)
    ensures
        match r {
            Ok(_) => config_error(config@) is None,
            Err(e) => config_error(config@) == Some(e@),
        },
{
    if config.len() > MAX_SERVERS {
        let mut m = "Too many servers: ".to_owned();
        push_chars(&mut m, &decimal_exec(config.len() as u128));
        return Err(m);
    }
    let ghost v = config@;
    let mut i: usize = 0;
    assert(v.skip(0) =~= v);
    while i < config.len()
        invariant
            i <= config.len(),
            v == config@,
            config.len() <= MAX_SERVERS,
            entries_error(v) == entries_error(v.skip(i as int)),
        decreases config.len() - i,
    {
        assert(v.skip(i as int)[0] == v[i as int]);
        assert(v.skip(i as int).drop_first() =~= v.skip(i + 1));
        check_entry(config[i].0.as_str(), &config[i].1)?;
        i = i + 1;
    }
    assert(v.skip(i as int).len() == 0);
    Ok(())
}

/// The servers stored after the page sends `config`: when it sends none, the
/// built-in `qwen-core` server (a first setup; removing it otherwise is
/// respected); then repaired for `home`.
pub open spec fn updated_servers(config: Seq<(String, McpServerConfig)>, home: Seq<char>, r: Seq<(String, McpServerConfig)>) -> bool {
    if config.len() == 0 {
        &&& r.len() == 1
        &&& r[0].0@ == "qwen-core"@
        &&& stdio_server(r[0].1, "npx"@, seq!["-y"@, "qwen-core"@])
        &&& opt_view(r[0].1.source) == Some("official"@)
        &&& opt_view(r[0].1.from) == Some("builtin"@)
    } else {
        normalized_servers(config, r, home)
    }
}

/// `cmd` is one of the programs the page's servers are started with.
pub open spec fn listed_program(cmd: Seq<char>) -> bool {
    cmd == "npx"@ || cmd == "node"@ || cmd == "nodejs"@ || cmd == "python3"@ || cmd == "python"@ || cmd == "uvx"@ || cmd == "bunx"@ || cmd == "deno"@
}

/// Every listed program (`npx`, `node`, `nodejs`, `python3`, `python`,
/// `uvx`, `bunx`, `deno`) and every absolute or `./` path is an accepted
/// command.
pub proof fn law_listed_commands_accepted(cmd: Seq<char>)
    ensures
        listed_program(cmd) || starts_with(cmd, "/"@) || starts_with(cmd, "./"@) ==> command_allowed(cmd),
{
    if listed_program(cmd) {
        if cmd == "npx"@ {
            assert(allowed_commands()[0] == cmd);
        }
        if cmd == "node"@ {
            assert(allowed_commands()[1] == cmd);
        }
        if cmd == "nodejs"@ {
            assert(allowed_commands()[2] == cmd);
        }
        if cmd == "python3"@ {
            assert(allowed_commands()[3] == cmd);
        }
        if cmd == "python"@ {
            assert(allowed_commands()[4] == cmd);
        }
        if cmd == "uvx"@ {
            assert(allowed_commands()[5] == cmd);
        }
        if cmd == "bunx"@ {
            assert(allowed_commands()[6] == cmd);
        }
        if cmd == "deno"@ {
            assert(allowed_commands()[7] == cmd);
        }
    }
}

proof fn lemma_ascii_utf8_len(s: Seq<char>)
    requires
        forall|i: int| 0 <= i < s.len() ==> (#[trigger] s[i] as u32) < 0x80,
    ensures
        utf8_len(s) == s.len(),
    decreases s.len(),
{
    if s.len() > 0 {
        assert(s.last() == s[s.len() - 1]);
        lemma_ascii_utf8_len(s.drop_last());
    }
}

proof fn lemma_plain_args(args: Seq<Seq<char>>, name: Seq<char>)
    requires
        forall|i: int| 0 <= i < args.len() ==> utf8_len(#[trigger] args[i]) <= MAX_ARG_LEN && !has_char(args[i], '\0'),
    ensures
        args_error(args, name) is None,
    decreases args.len(),
{
    if args.len() > 0 {
        assert(args[0] == args[0]);
        assert forall|i: int| 0 <= i < args.drop_first().len() implies utf8_len(#[trigger] args.drop_first()[i])
            <= MAX_ARG_LEN && !has_char(args.drop_first()[i], '\0') by {
            assert(args.drop_first()[i] == args[i + 1]);
        }
        lemma_plain_args(args.drop_first(), name);
    }
}

/// A server entry started with a listed program, with a plain name (1 to
/// 128 bytes, no `/`, `\\` or NUL), at most 64 arguments of at most 1024
/// bytes without NUL, and no URL (or an `http(s)` one of at most 2048
/// bytes) is accepted.
pub proof fn law_plain_entry_accepted(name: Seq<char>, c: McpServerConfig)
    requires
        0 < utf8_len(name) <= 128,
        !has_char(name, '/') && !has_char(name, '\\') && !has_char(name, '\0'),
        listed_program(c.command@),
        c.args@.len() <= MAX_ARGS,
        forall|i: int|
            0 <= i < c.args@.len() ==> utf8_len(#[trigger] c.args@[i]@) <= MAX_ARG_LEN && !has_char(c.args@[i]@, '\0'),
        opt_view(c.url) matches Some(u) ==> utf8_len(u) <= 2048 && (starts_with(u, "http://"@) || starts_with(u, "https://"@)),
    ensures
        entry_error(name, c) is None,
{
    let cmd = c.command@;
    law_listed_commands_accepted(cmd);
    reveal_strlit("npx");
    reveal_strlit("node");
    reveal_strlit("nodejs");
    reveal_strlit("python3");
    reveal_strlit("python");
    reveal_strlit("uvx");
    reveal_strlit("bunx");
    reveal_strlit("deno");
    assert(forall|i: int| 0 <= i < cmd.len() ==> (#[trigger] cmd[i] as u32) < 0x80);
    assert(cmd.len() > 0 && cmd.len() <= 512);
    lemma_ascii_utf8_len(cmd);
    let av = crate::text::string_views(c.args@);
    assert forall|i: int| 0 <= i < av.len() implies utf8_len(#[trigger] av[i]) <= MAX_ARG_LEN && !has_char(av[i], '\0') by {
        assert(av[i] == c.args@[i]@);
    }
    lemma_plain_args(av, name);
}

/// A list of at most 32 entries, each accepted, is accepted as a whole.
pub proof fn law_accepted_entries_accepted(v: Seq<(String, McpServerConfig)>)
    requires
        v.len() <= MAX_SERVERS,
        forall|i: int| 0 <= i < v.len() ==> entry_error(#[trigger] v[i].0@, v[i].1) is None,
    ensures
        config_error(v) is None,
    decreases v.len(),
{
    if v.len() > 0 {
        assert(entry_error(v[0].0@, v[0].1) is None);
        assert forall|i: int| 0 <= i < v.drop_first().len() implies entry_error(#[trigger] v.drop_first()[i].0@, v.drop_first()[i].1) is None by {
            assert(v.drop_first()[i] == v[i + 1]);
        }
        law_accepted_entries_accepted(v.drop_first());
    }
}

/// The servers to store after the page sent `config`, for the home
/// directory `home`.
pub fn merge_mcp_update_for(config: Vec<(String, McpServerConfig)>, home: &str) -> (r: Vec<(String, McpServerConfig)>)
    ensures
        updated_servers(config@, home@, r@),
        servers_wf(config@) ==> servers_wf(r@),
{
    if config.len() == 0 {
        let mut defaults = mcp_servers_for(home);
        let ghost d = defaults@;
        let mut only: Vec<(String, McpServerConfig)> = Vec::new();
        let core = defaults.remove(0);
        only.push(core);
        let r = normalize_mcp_for(only, home);
        proof {
            reveal_strlit("qwen-core");
            reveal_strlit("Filesystem");
            assert(only@[0] == d[0]);
            assert(r@[0].0 == d[0].0);
            assert(d[0].0@ == "qwen-core"@);
            assert("qwen-core"@.len() != "Filesystem"@.len());
            assert(d[0].0@ != "Filesystem"@);
        }
        return r;
    }
    normalize_mcp_for(config, home)
}

/// The servers to store after the page sent `config`, for the current user.
pub fn merge_mcp_update(config: Vec<(String, McpServerConfig)>) -> (r: Vec<(String, McpServerConfig)>)
    ensures
        exists|home: Seq<char>| home.len() > 0 && #[trigger] updated_servers(config@, home, r@),
        servers_wf(config@) ==> servers_wf(r@),
{
    let home = home_or_tmp();
    merge_mcp_update_for(config, home.as_str())
}


/// A server the user removed stays removed: storing a non-empty list that
/// lacks `qwen-core` stores no `qwen-core`.
pub proof fn law_removed_core_stays_removed(
    config: Seq<(String, McpServerConfig)>,
    home: Seq<char>,
    r: Seq<(String, McpServerConfig)>,
)
    requires
        config.len() > 0,
        forall|i: int| 0 <= i < config.len() ==> (#[trigger] config[i]).0@ != "qwen-core"@,
        updated_servers(config, home, r),
    ensures
        forall|i: int| 0 <= i < r.len() ==> (#[trigger] r[i]).0@ != "qwen-core"@,
{
    assert forall|i: int| 0 <= i < r.len() implies (#[trigger] r[i]).0@ != "qwen-core"@ by {
        assert(r[i].0 == config[i].0);
    }
}
} // verus!
