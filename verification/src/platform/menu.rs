//! The application menu and the tray menu: the profile entries they list and
//! what each entry does.
use vstd::prelude::*;

use crate::profile::Profile;
use crate::text::{chars_eq, chars_of, contains_str, occurs_at, push_chars, starts_with, starts_with_exec, string_of, slice_chars};

verus! {

/// The id prefix of the "open profile" entries.
pub const OPEN_PROFILE_PREFIX: &'static str = "open-profile:";

/// `s` with every leading copy of `p` removed (`str::trim_start_matches`).
pub open spec fn strip_all(s: Seq<char>, p: Seq<char>) -> Seq<char>
    decreases s.len(),
{
    if p.len() > 0 && starts_with(s, p) {
        strip_all(s.subrange(p.len() as int, s.len() as int), p)
    } else {
        s
    }
}

pub(crate) fn strip_all_exec(s: &[char], p: &[char]) -> (r: Vec<char>)
    ensures
        r@ == strip_all(s@, p@),
{
    let mut start: usize = 0;
    assert(s@.subrange(0, s.len() as int) =~= s@);
    while p.len() > 0 && starts_with_exec(&slice_chars(s, start, s.len()), p)
        invariant
            start <= s.len(),
            strip_all(s@, p@) == strip_all(s@.subrange(start as int, s.len() as int), p@),
        decreases s.len() - start,
    {
        let ghost t = s@.subrange(start as int, s.len() as int);
        assert(t.subrange(p.len() as int, t.len() as int) =~= s@.subrange(start + p.len(), s.len() as int));
        start = start + p.len();
    }
    slice_chars(s, start, s.len())
}

/// The id of the entry that opens the profile `id`.
pub open spec fn profile_entry_id(id: Seq<char>) -> Seq<char> {
    OPEN_PROFILE_PREFIX@ + id
}

/// The profile an entry id opens, for ids of "open profile" entries.
pub open spec fn opened_profile(entry: Seq<char>) -> Option<Seq<char>> {
    if starts_with(entry, OPEN_PROFILE_PREFIX@) {
        Some(strip_all(entry, OPEN_PROFILE_PREFIX@))
    } else {
        None
    }
}

/// The entries listing the profiles, in order: id and label.
pub open spec fn profile_entries(ps: Seq<Profile>, r: Seq<(String, String)>) -> bool {
    r.len() == ps.len() && forall|i: int|
        0 <= i < r.len() ==> (#[trigger] r[i]).0@ == profile_entry_id(ps[i].id@) && r[i].1@ == ps[i].name@
}

/// The "open profile" entries of the profile submenus, as id and label.
pub fn profile_menu_items(profiles: &[Profile]) -> (r: Vec<(String, String)>)
    ensures
        profile_entries(profiles@, r@),
{
    let mut r: Vec<(String, String)> = Vec::new();
    let mut i: usize = 0;
    while i < profiles.len()
        invariant
            i <= profiles.len(),
            profile_entries(profiles@.take(i as int), r@),
        decreases profiles.len() - i,
    {
        let mut id = OPEN_PROFILE_PREFIX.to_owned();
        push_chars(&mut id, &chars_of(profiles[i].id.as_str()));
        r.push((id, profiles[i].name.clone()));
        assert(profiles@.take(i + 1)[i as int] == profiles@[i as int]);
        assert forall|k: int| 0 <= k < i implies profiles@.take(i + 1)[k] == profiles@.take(i as int)[k] by {}
        i = i + 1;
    }
    assert(profiles@.take(profiles.len() as int) =~= profiles@);
    r
}

/// The profile id in an entry id, when it is an "open profile" entry.
pub fn profile_of_entry(entry: &str) -> (r: Option<String>)
    ensures
        match r {
            Some(id) => opened_profile(entry@) == Some(id@),
            None => opened_profile(entry@) is None,
        },
{
    let ec = chars_of(entry);
    let pc = chars_of(OPEN_PROFILE_PREFIX);
    if starts_with_exec(&ec, &pc) {
        Some(string_of(&strip_all_exec(&ec, &pc)))
    } else {
        None
    }
}

/// An entry made for a profile opens that profile, provided the profile's
/// id does not itself start with the entry prefix (generated ids never do:
/// they hold no `:`).
pub proof fn law_profile_entry_round_trip(id: Seq<char>)
    requires
        !starts_with(id, OPEN_PROFILE_PREFIX@),
    ensures
        opened_profile(profile_entry_id(id)) == Some(id),
{
    let p = OPEN_PROFILE_PREFIX@;
    let e = profile_entry_id(id);
    assert(e.subrange(0, p.len() as int) =~= p);
    assert(e.subrange(p.len() as int, e.len() as int) =~= id);
    reveal_with_fuel(strip_all, 2);
}

/// The commands of the application menu.
#[derive(Debug, Clone, PartialEq)]
pub enum MenuCommand {
    Minimize,
    Maximize,
    Quit,
    Reload,
    Devtools,
    ZoomIn,
    ZoomOut,
    ZoomReset,
    NewWindow,
    ProfilesPanel,
    CreateProfile,
    OpenProfile(String),
    Github,
    CheckUpdates,
    Paste,
    PasteImage,
    /// Any other id: nothing happens.
    Ignore,
}

/// The application-menu command of each entry id.
pub open spec fn menu_command_for(id: Seq<char>, c: MenuCommand) -> bool {
    if id == "minimize"@ {
        c == MenuCommand::Minimize
    } else if id == "maximize"@ {
        c == MenuCommand::Maximize
    } else if id == "quit"@ {
        c == MenuCommand::Quit
    } else if id == "reload"@ {
        c == MenuCommand::Reload
    } else if id == "devtools"@ {
        c == MenuCommand::Devtools
    } else if id == "zoom_in"@ {
        c == MenuCommand::ZoomIn
    } else if id == "zoom_out"@ {
        c == MenuCommand::ZoomOut
    } else if id == "zoom_reset"@ {
        c == MenuCommand::ZoomReset
    } else if id == "new_window"@ {
        c == MenuCommand::NewWindow
    } else if id == "profiles_panel"@ {
        c == MenuCommand::ProfilesPanel
    } else if id == "create_profile"@ {
        c == MenuCommand::CreateProfile
    } else if opened_profile(id) is Some {
        c matches MenuCommand::OpenProfile(p) && p@ == opened_profile(id)->0
    } else if id == "github"@ {
        c == MenuCommand::Github
    } else if id == "check_updates"@ {
        c == MenuCommand::CheckUpdates
    } else if id == "paste"@ {
        c == MenuCommand::Paste
    } else if id == "paste-image"@ {
        c == MenuCommand::PasteImage
    } else {
        c == MenuCommand::Ignore
    }
}

fn is(id: &Vec<char>, s: &str) -> (b: bool)
    ensures
        b == (id@ == s@),
{
    chars_eq(id, &chars_of(s))
}

/// The application-menu command of the entry `id`.
pub fn menu_command(id: &str) -> (c: MenuCommand)
    ensures
        menu_command_for(id@, c),
{
    let ic = chars_of(id);
    if is(&ic, "minimize") {
        MenuCommand::Minimize
    } else if is(&ic, "maximize") {
        MenuCommand::Maximize
    } else if is(&ic, "quit") {
        MenuCommand::Quit
    } else if is(&ic, "reload") {
        MenuCommand::Reload
    } else if is(&ic, "devtools") {
        MenuCommand::Devtools
    } else if is(&ic, "zoom_in") {
        MenuCommand::ZoomIn
    } else if is(&ic, "zoom_out") {
        MenuCommand::ZoomOut
    } else if is(&ic, "zoom_reset") {
        MenuCommand::ZoomReset
    } else if is(&ic, "new_window") {
        MenuCommand::NewWindow
    } else if is(&ic, "profiles_panel") {
        MenuCommand::ProfilesPanel
    } else if is(&ic, "create_profile") {
        MenuCommand::CreateProfile
    } else if let Some(p) = profile_of_entry(id) {
        MenuCommand::OpenProfile(p)
    } else if is(&ic, "github") {
        MenuCommand::Github
    } else if is(&ic, "check_updates") {
        MenuCommand::CheckUpdates
    } else if is(&ic, "paste") {
        MenuCommand::Paste
    } else if is(&ic, "paste-image") {
        MenuCommand::PasteImage
    } else {
        MenuCommand::Ignore
    }
}

/// The script an application-menu command runs in the active window, if it
/// runs one.
pub open spec fn menu_script_of(c: MenuCommand) -> Option<Seq<char>> {
    match c {
        MenuCommand::Reload => Some("location.reload();"@),
        MenuCommand::ZoomIn => Some(
            "window.__qwenSetZoom && window.__qwenSetZoom(Math.min(2.0, (window.__qwenCurrentZoom||1)+0.1));"@,
        ),
        MenuCommand::ZoomOut => Some(
            "window.__qwenSetZoom && window.__qwenSetZoom(Math.max(0.5, (window.__qwenCurrentZoom||1)-0.1));"@,
        ),
        MenuCommand::ZoomReset => Some("window.__qwenSetZoom && window.__qwenSetZoom(1.0);"@),
        MenuCommand::Paste => Some("window.__qwenScheduleFallbackPaste && window.__qwenScheduleFallbackPaste();"@),
        MenuCommand::PasteImage => Some(
            "window.__qwenScheduleFallbackPaste && window.__qwenScheduleFallbackPaste();"@,
        ),
        _ => None,
    }
}

/// The script an application-menu command runs in the active window.
pub fn menu_script(c: &MenuCommand) -> (r: Option<&'static str>)
    ensures
        match r {
            Some(s) => menu_script_of(*c) == Some(s@),
            None => menu_script_of(*c) is None,
        },
{
    match c {
        MenuCommand::Reload => Some("location.reload();"),
        MenuCommand::ZoomIn => Some(
            "window.__qwenSetZoom && window.__qwenSetZoom(Math.min(2.0, (window.__qwenCurrentZoom||1)+0.1));",
        ),
        MenuCommand::ZoomOut => Some(
            "window.__qwenSetZoom && window.__qwenSetZoom(Math.max(0.5, (window.__qwenCurrentZoom||1)-0.1));",
        ),
        MenuCommand::ZoomReset => Some("window.__qwenSetZoom && window.__qwenSetZoom(1.0);"),
        MenuCommand::Paste => Some("window.__qwenScheduleFallbackPaste && window.__qwenScheduleFallbackPaste();"),
        MenuCommand::PasteImage => Some(
            "window.__qwenScheduleFallbackPaste && window.__qwenScheduleFallbackPaste();",
        ),
        _ => None,
    }
}

/// The commands of the tray menu.
#[derive(Debug, Clone, PartialEq)]
pub enum TrayCommand {
    NewWindow,
    ProfilesPanel,
    CreateProfile,
    OpenProfile(String),
    Show,
    Quit,
    /// Any other id: nothing happens.
    Ignore,
}

/// The tray command of each entry id.
pub open spec fn tray_command_for(id: Seq<char>, c: TrayCommand) -> bool {
    if id == "new_window"@ {
        c == TrayCommand::NewWindow
    } else if id == "profiles_panel"@ {
        c == TrayCommand::ProfilesPanel
    } else if id == "create_profile"@ {
        c == TrayCommand::CreateProfile
    } else if opened_profile(id) is Some {
        c matches TrayCommand::OpenProfile(p) && p@ == opened_profile(id)->0
    } else if id == "show"@ {
        c == TrayCommand::Show
    } else if id == "quit"@ {
        c == TrayCommand::Quit
    } else {
        c == TrayCommand::Ignore
    }
}

/// The tray command of the entry `id`.
pub fn tray_command(id: &str) -> (c: TrayCommand)
    ensures
        tray_command_for(id@, c),
{
    let ic = chars_of(id);
    if is(&ic, "new_window") {
        TrayCommand::NewWindow
    } else if is(&ic, "profiles_panel") {
        TrayCommand::ProfilesPanel
    } else if is(&ic, "create_profile") {
        TrayCommand::CreateProfile
    } else if let Some(p) = profile_of_entry(id) {
        TrayCommand::OpenProfile(p)
    } else if is(&ic, "show") {
        TrayCommand::Show
    } else if is(&ic, "quit") {
        TrayCommand::Quit
    } else {
        TrayCommand::Ignore
    }
}

/// Both menus open the profile whose entry was picked.
pub proof fn law_entries_open_their_profile(id: Seq<char>, m: MenuCommand, t: TrayCommand)
    requires
        !starts_with(id, OPEN_PROFILE_PREFIX@),
        menu_command_for(profile_entry_id(id), m),
        tray_command_for(profile_entry_id(id), t),
    ensures
        m matches MenuCommand::OpenProfile(p) && p@ == id,
        t matches TrayCommand::OpenProfile(p) && p@ == id,
{
    law_profile_entry_round_trip(id);
    let e = profile_entry_id(id);
    reveal_strlit("open-profile:");
    reveal_strlit("minimize");
    reveal_strlit("maximize");
    reveal_strlit("quit");
    reveal_strlit("reload");
    reveal_strlit("devtools");
    reveal_strlit("zoom_in");
    reveal_strlit("zoom_out");
    reveal_strlit("zoom_reset");
    reveal_strlit("new_window");
    reveal_strlit("profiles_panel");
    reveal_strlit("create_profile");
    assert(e[0] == 'o');
}


/// The menu entry of any profile created through the profile list opens
/// that profile (generated ids never start with the entry prefix).
pub proof fn law_created_profile_entry_opens_it(id: Seq<char>, name: Seq<char>, ps: Seq<Profile>)
    requires
        crate::profile::manager::is_unique_id_for(id, crate::profile::manager::id_base(name), ps),
    ensures
        opened_profile(profile_entry_id(id)) == Some(id),
{
    crate::profile::manager::law_generated_ids_plain(id, name, ps);
    reveal_strlit("open-profile:");
    if starts_with(id, OPEN_PROFILE_PREFIX@) {
        assert(id.subrange(0, 13)[12] == ':');
        assert(id[12] == ':');
        assert(crate::text::has_char(id, ':'));
    }
    law_profile_entry_round_trip(id);
}
/// The zoom scripts: zooming in adds 0.1 up to 2.0, zooming out takes 0.1
/// away down to 0.5, resetting sets 1.0.
proof fn lemma_zoom_scripts()
    ensures
        contains_str("window.__qwenSetZoom && window.__qwenSetZoom(Math.min(2.0, (window.__qwenCurrentZoom||1)+0.1));"@, "+0.1"@),
        contains_str("window.__qwenSetZoom && window.__qwenSetZoom(Math.min(2.0, (window.__qwenCurrentZoom||1)+0.1));"@, "Math.min(2.0"@),
        contains_str("window.__qwenSetZoom && window.__qwenSetZoom(Math.max(0.5, (window.__qwenCurrentZoom||1)-0.1));"@, "-0.1"@),
        contains_str("window.__qwenSetZoom && window.__qwenSetZoom(Math.max(0.5, (window.__qwenCurrentZoom||1)-0.1));"@, "Math.max(0.5"@),
        contains_str("window.__qwenSetZoom && window.__qwenSetZoom(1.0);"@, "__qwenSetZoom(1.0)"@),
{
    reveal_strlit("window.__qwenSetZoom && window.__qwenSetZoom(Math.min(2.0, (window.__qwenCurrentZoom||1)+0.1));");
    reveal_strlit("window.__qwenSetZoom && window.__qwenSetZoom(Math.max(0.5, (window.__qwenCurrentZoom||1)-0.1));");
    reveal_strlit("window.__qwenSetZoom && window.__qwenSetZoom(1.0);");
    reveal_strlit("+0.1");
    reveal_strlit("Math.min(2.0");
    reveal_strlit("-0.1");
    reveal_strlit("Math.max(0.5");
    reveal_strlit("__qwenSetZoom(1.0)");
    assert(occurs_at("window.__qwenSetZoom && window.__qwenSetZoom(Math.min(2.0, (window.__qwenCurrentZoom||1)+0.1));"@, "+0.1"@, 88)) by {
        assert("window.__qwenSetZoom && window.__qwenSetZoom(Math.min(2.0, (window.__qwenCurrentZoom||1)+0.1));"@.subrange(88, 92) =~= "+0.1"@);
    }
    assert(occurs_at("window.__qwenSetZoom && window.__qwenSetZoom(Math.min(2.0, (window.__qwenCurrentZoom||1)+0.1));"@, "Math.min(2.0"@, 45)) by {
        assert("window.__qwenSetZoom && window.__qwenSetZoom(Math.min(2.0, (window.__qwenCurrentZoom||1)+0.1));"@.subrange(45, 57) =~= "Math.min(2.0"@);
    }
    assert(occurs_at("window.__qwenSetZoom && window.__qwenSetZoom(Math.max(0.5, (window.__qwenCurrentZoom||1)-0.1));"@, "-0.1"@, 88)) by {
        assert("window.__qwenSetZoom && window.__qwenSetZoom(Math.max(0.5, (window.__qwenCurrentZoom||1)-0.1));"@.subrange(88, 92) =~= "-0.1"@);
    }
    assert(occurs_at("window.__qwenSetZoom && window.__qwenSetZoom(Math.max(0.5, (window.__qwenCurrentZoom||1)-0.1));"@, "Math.max(0.5"@, 45)) by {
        assert("window.__qwenSetZoom && window.__qwenSetZoom(Math.max(0.5, (window.__qwenCurrentZoom||1)-0.1));"@.subrange(45, 57) =~= "Math.max(0.5"@);
    }
    assert(occurs_at("window.__qwenSetZoom && window.__qwenSetZoom(1.0);"@, "__qwenSetZoom(1.0)"@, 31)) by {
        assert("window.__qwenSetZoom && window.__qwenSetZoom(1.0);"@.subrange(31, 49) =~= "__qwenSetZoom(1.0)"@);
    }
}

/// The entry ids of the application menu are pairwise different and none
/// is an "open profile" entry.
proof fn lemma_menu_ids_distinct()
    ensures
        "maximize"@ != "minimize"@,
        "quit"@ != "minimize"@,
        "quit"@ != "maximize"@,
        "reload"@ != "minimize"@,
        "reload"@ != "maximize"@,
        "reload"@ != "quit"@,
        "devtools"@ != "minimize"@,
        "devtools"@ != "maximize"@,
        "devtools"@ != "quit"@,
        "devtools"@ != "reload"@,
        "zoom_in"@ != "minimize"@,
        "zoom_in"@ != "maximize"@,
        "zoom_in"@ != "quit"@,
        "zoom_in"@ != "reload"@,
        "zoom_in"@ != "devtools"@,
        "zoom_out"@ != "minimize"@,
        "zoom_out"@ != "maximize"@,
        "zoom_out"@ != "quit"@,
        "zoom_out"@ != "reload"@,
        "zoom_out"@ != "devtools"@,
        "zoom_out"@ != "zoom_in"@,
        "zoom_reset"@ != "minimize"@,
        "zoom_reset"@ != "maximize"@,
        "zoom_reset"@ != "quit"@,
        "zoom_reset"@ != "reload"@,
        "zoom_reset"@ != "devtools"@,
        "zoom_reset"@ != "zoom_in"@,
        "zoom_reset"@ != "zoom_out"@,
        "new_window"@ != "minimize"@,
        "new_window"@ != "maximize"@,
        "new_window"@ != "quit"@,
        "new_window"@ != "reload"@,
        "new_window"@ != "devtools"@,
        "new_window"@ != "zoom_in"@,
        "new_window"@ != "zoom_out"@,
        "new_window"@ != "zoom_reset"@,
        "profiles_panel"@ != "minimize"@,
        "profiles_panel"@ != "maximize"@,
        "profiles_panel"@ != "quit"@,
        "profiles_panel"@ != "reload"@,
        "profiles_panel"@ != "devtools"@,
        "profiles_panel"@ != "zoom_in"@,
        "profiles_panel"@ != "zoom_out"@,
        "profiles_panel"@ != "zoom_reset"@,
        "profiles_panel"@ != "new_window"@,
        "create_profile"@ != "minimize"@,
        "create_profile"@ != "maximize"@,
        "create_profile"@ != "quit"@,
        "create_profile"@ != "reload"@,
        "create_profile"@ != "devtools"@,
        "create_profile"@ != "zoom_in"@,
        "create_profile"@ != "zoom_out"@,
        "create_profile"@ != "zoom_reset"@,
        "create_profile"@ != "new_window"@,
        "create_profile"@ != "profiles_panel"@,
        "github"@ != "minimize"@,
        "github"@ != "maximize"@,
        "github"@ != "quit"@,
        "github"@ != "reload"@,
        "github"@ != "devtools"@,
        "github"@ != "zoom_in"@,
        "github"@ != "zoom_out"@,
        "github"@ != "zoom_reset"@,
        "github"@ != "new_window"@,
        "github"@ != "profiles_panel"@,
        "github"@ != "create_profile"@,
        "check_updates"@ != "minimize"@,
        "check_updates"@ != "maximize"@,
        "check_updates"@ != "quit"@,
        "check_updates"@ != "reload"@,
        "check_updates"@ != "devtools"@,
        "check_updates"@ != "zoom_in"@,
        "check_updates"@ != "zoom_out"@,
        "check_updates"@ != "zoom_reset"@,
        "check_updates"@ != "new_window"@,
        "check_updates"@ != "profiles_panel"@,
        "check_updates"@ != "create_profile"@,
        "check_updates"@ != "github"@,
        "paste"@ != "minimize"@,
        "paste"@ != "maximize"@,
        "paste"@ != "quit"@,
        "paste"@ != "reload"@,
        "paste"@ != "devtools"@,
        "paste"@ != "zoom_in"@,
        "paste"@ != "zoom_out"@,
        "paste"@ != "zoom_reset"@,
        "paste"@ != "new_window"@,
        "paste"@ != "profiles_panel"@,
        "paste"@ != "create_profile"@,
        "paste"@ != "github"@,
        "paste"@ != "check_updates"@,
        "paste-image"@ != "minimize"@,
        "paste-image"@ != "maximize"@,
        "paste-image"@ != "quit"@,
        "paste-image"@ != "reload"@,
        "paste-image"@ != "devtools"@,
        "paste-image"@ != "zoom_in"@,
        "paste-image"@ != "zoom_out"@,
        "paste-image"@ != "zoom_reset"@,
        "paste-image"@ != "new_window"@,
        "paste-image"@ != "profiles_panel"@,
        "paste-image"@ != "create_profile"@,
        "paste-image"@ != "github"@,
        "paste-image"@ != "check_updates"@,
        "paste-image"@ != "paste"@,
        opened_profile("minimize"@) is None,
        opened_profile("maximize"@) is None,
        opened_profile("quit"@) is None,
        opened_profile("reload"@) is None,
        opened_profile("devtools"@) is None,
        opened_profile("zoom_in"@) is None,
        opened_profile("zoom_out"@) is None,
        opened_profile("zoom_reset"@) is None,
        opened_profile("new_window"@) is None,
        opened_profile("profiles_panel"@) is None,
        opened_profile("create_profile"@) is None,
        opened_profile("github"@) is None,
        opened_profile("check_updates"@) is None,
        opened_profile("paste"@) is None,
        opened_profile("paste-image"@) is None,
{
    reveal_strlit("minimize");
    reveal_strlit("maximize");
    reveal_strlit("quit");
    reveal_strlit("reload");
    reveal_strlit("devtools");
    reveal_strlit("zoom_in");
    reveal_strlit("zoom_out");
    reveal_strlit("zoom_reset");
    reveal_strlit("new_window");
    reveal_strlit("profiles_panel");
    reveal_strlit("create_profile");
    reveal_strlit("github");
    reveal_strlit("check_updates");
    reveal_strlit("paste");
    reveal_strlit("paste-image");
    reveal_strlit("open-profile:");
    assert(OPEN_PROFILE_PREFIX@ == "open-profile:"@);
    assert("maximize"@[1] != "minimize"@[1]);
    assert("quit"@.len() != "minimize"@.len());
    assert("quit"@.len() != "maximize"@.len());
    assert("reload"@.len() != "minimize"@.len());
    assert("reload"@.len() != "maximize"@.len());
    assert("reload"@.len() != "quit"@.len());
    assert("devtools"@[0] != "minimize"@[0]);
    assert("devtools"@[0] != "maximize"@[0]);
    assert("devtools"@.len() != "quit"@.len());
    assert("devtools"@.len() != "reload"@.len());
    assert("zoom_in"@.len() != "minimize"@.len());
    assert("zoom_in"@.len() != "maximize"@.len());
    assert("zoom_in"@.len() != "quit"@.len());
    assert("zoom_in"@.len() != "reload"@.len());
    assert("zoom_in"@.len() != "devtools"@.len());
    assert("zoom_out"@[0] != "minimize"@[0]);
    assert("zoom_out"@[0] != "maximize"@[0]);
    assert("zoom_out"@.len() != "quit"@.len());
    assert("zoom_out"@.len() != "reload"@.len());
    assert("zoom_out"@[0] != "devtools"@[0]);
    assert("zoom_out"@.len() != "zoom_in"@.len());
    assert("zoom_reset"@.len() != "minimize"@.len());
    assert("zoom_reset"@.len() != "maximize"@.len());
    assert("zoom_reset"@.len() != "quit"@.len());
    assert("zoom_reset"@.len() != "reload"@.len());
    assert("zoom_reset"@.len() != "devtools"@.len());
    assert("zoom_reset"@.len() != "zoom_in"@.len());
    assert("zoom_reset"@.len() != "zoom_out"@.len());
    assert("new_window"@.len() != "minimize"@.len());
    assert("new_window"@.len() != "maximize"@.len());
    assert("new_window"@.len() != "quit"@.len());
    assert("new_window"@.len() != "reload"@.len());
    assert("new_window"@.len() != "devtools"@.len());
    assert("new_window"@.len() != "zoom_in"@.len());
    assert("new_window"@.len() != "zoom_out"@.len());
    assert("new_window"@[0] != "zoom_reset"@[0]);
    assert("profiles_panel"@.len() != "minimize"@.len());
    assert("profiles_panel"@.len() != "maximize"@.len());
    assert("profiles_panel"@.len() != "quit"@.len());
    assert("profiles_panel"@.len() != "reload"@.len());
    assert("profiles_panel"@.len() != "devtools"@.len());
    assert("profiles_panel"@.len() != "zoom_in"@.len());
    assert("profiles_panel"@.len() != "zoom_out"@.len());
    assert("profiles_panel"@.len() != "zoom_reset"@.len());
    assert("profiles_panel"@.len() != "new_window"@.len());
    assert("create_profile"@.len() != "minimize"@.len());
    assert("create_profile"@.len() != "maximize"@.len());
    assert("create_profile"@.len() != "quit"@.len());
    assert("create_profile"@.len() != "reload"@.len());
    assert("create_profile"@.len() != "devtools"@.len());
    assert("create_profile"@.len() != "zoom_in"@.len());
    assert("create_profile"@.len() != "zoom_out"@.len());
    assert("create_profile"@.len() != "zoom_reset"@.len());
    assert("create_profile"@.len() != "new_window"@.len());
    assert("create_profile"@[0] != "profiles_panel"@[0]);
    assert("github"@.len() != "minimize"@.len());
    assert("github"@.len() != "maximize"@.len());
    assert("github"@.len() != "quit"@.len());
    assert("github"@[0] != "reload"@[0]);
    assert("github"@.len() != "devtools"@.len());
    assert("github"@.len() != "zoom_in"@.len());
    assert("github"@.len() != "zoom_out"@.len());
    assert("github"@.len() != "zoom_reset"@.len());
    assert("github"@.len() != "new_window"@.len());
    assert("github"@.len() != "profiles_panel"@.len());
    assert("github"@.len() != "create_profile"@.len());
    assert("check_updates"@.len() != "minimize"@.len());
    assert("check_updates"@.len() != "maximize"@.len());
    assert("check_updates"@.len() != "quit"@.len());
    assert("check_updates"@.len() != "reload"@.len());
    assert("check_updates"@.len() != "devtools"@.len());
    assert("check_updates"@.len() != "zoom_in"@.len());
    assert("check_updates"@.len() != "zoom_out"@.len());
    assert("check_updates"@.len() != "zoom_reset"@.len());
    assert("check_updates"@.len() != "new_window"@.len());
    assert("check_updates"@.len() != "profiles_panel"@.len());
    assert("check_updates"@.len() != "create_profile"@.len());
    assert("check_updates"@.len() != "github"@.len());
    assert("paste"@.len() != "minimize"@.len());
    assert("paste"@.len() != "maximize"@.len());
    assert("paste"@.len() != "quit"@.len());
    assert("paste"@.len() != "reload"@.len());
    assert("paste"@.len() != "devtools"@.len());
    assert("paste"@.len() != "zoom_in"@.len());
    assert("paste"@.len() != "zoom_out"@.len());
    assert("paste"@.len() != "zoom_reset"@.len());
    assert("paste"@.len() != "new_window"@.len());
    assert("paste"@.len() != "profiles_panel"@.len());
    assert("paste"@.len() != "create_profile"@.len());
    assert("paste"@.len() != "github"@.len());
    assert("paste"@.len() != "check_updates"@.len());
    assert("paste-image"@.len() != "minimize"@.len());
    assert("paste-image"@.len() != "maximize"@.len());
    assert("paste-image"@.len() != "quit"@.len());
    assert("paste-image"@.len() != "reload"@.len());
    assert("paste-image"@.len() != "devtools"@.len());
    assert("paste-image"@.len() != "zoom_in"@.len());
    assert("paste-image"@.len() != "zoom_out"@.len());
    assert("paste-image"@.len() != "zoom_reset"@.len());
    assert("paste-image"@.len() != "new_window"@.len());
    assert("paste-image"@.len() != "profiles_panel"@.len());
    assert("paste-image"@.len() != "create_profile"@.len());
    assert("paste-image"@.len() != "github"@.len());
    assert("paste-image"@.len() != "check_updates"@.len());
    assert("paste-image"@.len() != "paste"@.len());
    assert("minimize"@.len() < OPEN_PROFILE_PREFIX@.len());
    assert("maximize"@.len() < OPEN_PROFILE_PREFIX@.len());
    assert("quit"@.len() < OPEN_PROFILE_PREFIX@.len());
    assert("reload"@.len() < OPEN_PROFILE_PREFIX@.len());
    assert("devtools"@.len() < OPEN_PROFILE_PREFIX@.len());
    assert("zoom_in"@.len() < OPEN_PROFILE_PREFIX@.len());
    assert("zoom_out"@.len() < OPEN_PROFILE_PREFIX@.len());
    assert("zoom_reset"@.len() < OPEN_PROFILE_PREFIX@.len());
    assert("new_window"@.len() < OPEN_PROFILE_PREFIX@.len());
    assert("profiles_panel"@[0] != OPEN_PROFILE_PREFIX@[0]);
    assert("profiles_panel"@.subrange(0, 13)[0] == "profiles_panel"@[0]);
    assert("create_profile"@[0] != OPEN_PROFILE_PREFIX@[0]);
    assert("create_profile"@.subrange(0, 13)[0] == "create_profile"@[0]);
    assert("github"@.len() < OPEN_PROFILE_PREFIX@.len());
    assert("check_updates"@[0] != OPEN_PROFILE_PREFIX@[0]);
    assert("check_updates"@.subrange(0, 13)[0] == "check_updates"@[0]);
    assert("paste"@.len() < OPEN_PROFILE_PREFIX@.len());
    assert("paste-image"@.len() < OPEN_PROFILE_PREFIX@.len());
}

/// Each entry id of the application menu runs the command of the same name,
/// and the zoom entries move the zoom the way their names say: `zoom_in`
/// adds 0.1 (up to 2.0), `zoom_out` takes 0.1 away (down to 0.5) and
/// `zoom_reset` goes back to 1.0.
pub proof fn law_menu_ids_run_their_commands(c: MenuCommand)
    ensures
        menu_command_for("minimize"@, c) ==> c == MenuCommand::Minimize,
        menu_command_for("maximize"@, c) ==> c == MenuCommand::Maximize,
        menu_command_for("quit"@, c) ==> c == MenuCommand::Quit,
        menu_command_for("reload"@, c) ==> c == MenuCommand::Reload,
        menu_command_for("devtools"@, c) ==> c == MenuCommand::Devtools,
        menu_command_for("zoom_in"@, c) ==> c == MenuCommand::ZoomIn,
        menu_command_for("zoom_out"@, c) ==> c == MenuCommand::ZoomOut,
        menu_command_for("zoom_reset"@, c) ==> c == MenuCommand::ZoomReset,
        menu_command_for("new_window"@, c) ==> c == MenuCommand::NewWindow,
        menu_command_for("profiles_panel"@, c) ==> c == MenuCommand::ProfilesPanel,
        menu_command_for("create_profile"@, c) ==> c == MenuCommand::CreateProfile,
        menu_command_for("github"@, c) ==> c == MenuCommand::Github,
        menu_command_for("check_updates"@, c) ==> c == MenuCommand::CheckUpdates,
        menu_command_for("paste"@, c) ==> c == MenuCommand::Paste,
        menu_command_for("paste-image"@, c) ==> c == MenuCommand::PasteImage,
        menu_command_for("zoom_in"@, c) ==> (menu_script_of(c) matches Some(s) && contains_str(s, "+0.1"@) && contains_str(s, "Math.min(2.0"@)),
        menu_command_for("zoom_out"@, c) ==> (menu_script_of(c) matches Some(s) && contains_str(s, "-0.1"@) && contains_str(s, "Math.max(0.5"@)),
        menu_command_for("zoom_reset"@, c) ==> (menu_script_of(c) matches Some(s) && contains_str(s, "__qwenSetZoom(1.0)"@)),
{
    lemma_menu_ids_distinct();
    lemma_zoom_scripts();
}

} // verus!
