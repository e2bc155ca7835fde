//! The scripts injected into every page before it loads.
use vstd::prelude::*;

use crate::text::{chars_of, push_chars};

verus! {

/// Runs first on chat pages: paints the dark background early and makes sure
/// the local MCP server list offers `qwen-core`.
pub const PRE_LOAD_SCRIPT: &'static str = r#"
        (function() {
            try { document.documentElement.style.backgroundColor = '#0f1115'; } catch (e) {}
            var hostname = window.location.hostname;
            var pathname = window.location.pathname;
            var isLoginPage = pathname.includes('login') || pathname.includes('auth') || pathname.includes('callback') || pathname.includes('oauth');
            if (hostname !== 'chat.qwen.ai' || isLoginPage) return;
            try {
                var raw = localStorage.getItem("LOCAL_MCP_SERVER");
                if (raw && raw.length > 1000000) return;
                var qwenCoreEntry = {
                    id: "a1b2c3d4-e5f6-7890-abcd-ef1234567890",
                    name: "qwen-core",
                    description: "Essential tools for file operations, search, and bash execution.",
                    type: "stdio",
                    params: { command: "npx", args: ["-y", "qwen-core"] },
                    enabled: true,
                    default: false,
                    connectionStatus: "available",
                    errorMessage: "",
                    tools: []
                };
                var existing = null;
                try {
                    if (raw) { existing = JSON.parse(raw); if (!Array.isArray(existing)) existing = null; }
                } catch(e) { existing = null; }
                if (existing && existing.length > 0) {
                    var hasQwenCore = false;
                    for (var i = 0; i < existing.length; i++) {
                        if (existing[i].name === "qwen-core") {
                            hasQwenCore = true;
                            qwenCoreEntry.enabled = existing[i].enabled !== false;
                            existing[i] = qwenCoreEntry;
                            break;
                        }
                    }
                    if (!hasQwenCore) existing.unshift(qwenCoreEntry);
                    localStorage.setItem("LOCAL_MCP_SERVER", JSON.stringify(existing));
                } else {
                    localStorage.setItem("LOCAL_MCP_SERVER", JSON.stringify([qwenCoreEntry]));
                }
            } catch(e) { if(window.__QWEN_DEBUG) console.error("[PreLoad] MCP config injection failed:", e); }
        })();
    "#;

pub const DEBUG_ON: &'static str = "window.__QWEN_DEBUG = true;";

pub const DEBUG_OFF: &'static str = "window.__QWEN_DEBUG = false;";

/// The line that sets the page's debug flag.
pub open spec fn debug_flag(debug: bool) -> Seq<char> {
    if debug {
        DEBUG_ON@
    } else {
        DEBUG_OFF@
    }
}

/// Script modules joined by blank lines.
pub open spec fn join_modules(m: Seq<Seq<char>>) -> Seq<char>
    decreases m.len(),
{
    if m.len() == 0 {
        Seq::empty()
    } else if m.len() == 1 {
        m[0]
    } else {
        join_modules(m.drop_last()) + "\n\n"@ + m.last()
    }
}

/// The init script of chat windows: the debug flag, the pre-load script and
/// the bridge, platform and settings scripts, in that order, separated by
/// blank lines.  `debug` is whether this is a debug build.
pub fn build_init_script(debug: bool, core_bridge: &str, platform_bridge: &str, settings_injector: &str) -> (s: String)
    ensures
        s@ == join_modules(seq![debug_flag(debug), PRE_LOAD_SCRIPT@, core_bridge@, platform_bridge@, settings_injector@]),
{
    let mut s = if debug { DEBUG_ON.to_owned() } else { DEBUG_OFF.to_owned() };
    assert(s@ == debug_flag(debug));
    let sep = chars_of("\n\n");
    push_chars(&mut s, &sep);
    push_chars(&mut s, &chars_of(PRE_LOAD_SCRIPT));
    push_chars(&mut s, &sep);
    push_chars(&mut s, &chars_of(core_bridge));
    push_chars(&mut s, &sep);
    push_chars(&mut s, &chars_of(platform_bridge));
    push_chars(&mut s, &sep);
    push_chars(&mut s, &chars_of(settings_injector));
    proof {
        let m = seq![debug_flag(debug), PRE_LOAD_SCRIPT@, core_bridge@, platform_bridge@, settings_injector@];
        assert(m.drop_last().drop_last().drop_last().drop_last() =~= seq![debug_flag(debug)]);
        assert(m.drop_last().drop_last().drop_last() =~= seq![debug_flag(debug), PRE_LOAD_SCRIPT@]);
        assert(m.drop_last().drop_last() =~= seq![debug_flag(debug), PRE_LOAD_SCRIPT@, core_bridge@]);
        assert(m.drop_last() =~= seq![debug_flag(debug), PRE_LOAD_SCRIPT@, core_bridge@, platform_bridge@]);
        reveal_with_fuel(join_modules, 5);
    }
    s
}

/// The light init script of the profile picker: the debug flag and the
/// bridge script, separated by a blank line.
pub fn build_picker_init_script(debug: bool, core_bridge: &str) -> (s: String)
    ensures
        s@ == join_modules(seq![debug_flag(debug), core_bridge@]),
{
    let mut s = if debug { DEBUG_ON.to_owned() } else { DEBUG_OFF.to_owned() };
    push_chars(&mut s, &chars_of("\n\n"));
    push_chars(&mut s, &chars_of(core_bridge));
    proof {
        let m = seq![debug_flag(debug), core_bridge@];
        assert(m.drop_last() =~= seq![debug_flag(debug)]);
        reveal_with_fuel(join_modules, 2);
    }
    s
}

} // verus!
