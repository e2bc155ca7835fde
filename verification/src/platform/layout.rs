//! The layout of the application menu and of the tray menu, as data: the
//! submenus, their entries and the ids the entries report when picked.
use vstd::prelude::*;

use super::menu::{profile_entries, profile_entry_id, profile_menu_items};
use crate::profile::Profile;

verus! {

/// An entry whose behaviour the windowing toolkit provides.
#[derive(Debug, Clone, Copy, PartialEq, Eq, Structural)]
pub enum StandardItem {
    Undo,
    Redo,
    Cut,
    Copy,
    SelectAll,
    Fullscreen,
}

/// One entry of a menu.
#[derive(Debug, Clone, PartialEq)]
pub enum MenuEntry {
    /// An entry with its id and label.
    Item(String, String),
    /// An entry with its id, label and keyboard accelerator.
    Shortcut(String, String, String),
    /// An entry provided by the toolkit.
    Standard(StandardItem),
    /// A separator line.
    Separator,
    /// A submenu with its label and its entries (id and label each).
    Submenu(String, Vec<(String, String)>),
}

/// One entry of the tray menu.
#[derive(Debug, Clone, PartialEq)]
pub enum TrayEntry {
    /// An entry with its id and label.
    Item(String, String),
    /// A submenu with its label and entries.
    Group(String, Vec<MenuEntry>),
}

/// Pairs of texts as plain values.
pub open spec fn pairs_view(v: Seq<(String, String)>) -> Seq<(Seq<char>, Seq<char>)> {
    v.map_values(|p: (String, String)| (p.0@, p.1@))
}

/// The "open profile" entries of `ps`, in order: id and label.
pub open spec fn profile_entry_views(ps: Seq<Profile>) -> Seq<(Seq<char>, Seq<char>)> {
    ps.map_values(|p: Profile| (profile_entry_id(p.id@), p.name@))
}

/// `e` is the entry `id` labelled `label`.
pub open spec fn is_item(e: MenuEntry, id: Seq<char>, label: Seq<char>) -> bool {
    e matches MenuEntry::Item(i, l) && i@ == id && l@ == label
}

/// `e` is the entry `id` labelled `label` with the accelerator `acc`.
pub open spec fn is_shortcut(e: MenuEntry, id: Seq<char>, label: Seq<char>, acc: Seq<char>) -> bool {
    e matches MenuEntry::Shortcut(i, l, a) && i@ == id && l@ == label && a@ == acc
}

/// `e` is the submenu `label` with the entries `items`.
pub open spec fn is_submenu(e: MenuEntry, label: Seq<char>, items: Seq<(Seq<char>, Seq<char>)>) -> bool {
    e matches MenuEntry::Submenu(l, v) && l@ == label && pairs_view(v@) == items
}

/// `File`: minimize, maximize, a separator, quit.
pub open spec fn file_menu(s: Seq<MenuEntry>) -> bool {
    &&& s.len() == 4
    &&& is_item(s[0], "minimize"@, "Minimize"@)
    &&& is_item(s[1], "maximize"@, "Maximize"@)
    &&& s[2] is Separator
    &&& is_item(s[3], "quit"@, "Quit"@)
}

/// `Edit`: undo, redo, a separator, cut, copy, paste, paste image
/// (Ctrl+Shift+V), select all.
pub open spec fn edit_menu(s: Seq<MenuEntry>) -> bool {
    &&& s.len() == 8
    &&& s[0] == MenuEntry::Standard(StandardItem::Undo)
    &&& s[1] == MenuEntry::Standard(StandardItem::Redo)
    &&& s[2] is Separator
    &&& s[3] == MenuEntry::Standard(StandardItem::Cut)
    &&& s[4] == MenuEntry::Standard(StandardItem::Copy)
    &&& is_item(s[5], "paste"@, "Paste"@)
    &&& is_shortcut(s[6], "paste-image"@, "Paste Image"@, "CmdOrCtrl+Shift+V"@)
    &&& s[7] == MenuEntry::Standard(StandardItem::SelectAll)
}

/// `View`: reload, developer tools, a separator, the three zoom entries.
pub open spec fn view_menu(s: Seq<MenuEntry>) -> bool {
    &&& s.len() == 6
    &&& is_item(s[0], "reload"@, "Reload"@)
    &&& is_item(s[1], "devtools"@, "Toggle DevTools"@)
    &&& s[2] is Separator
    &&& is_item(s[3], "zoom_in"@, "Zoom In"@)
    &&& is_item(s[4], "zoom_out"@, "Zoom Out"@)
    &&& is_item(s[5], "zoom_reset"@, "Reset Zoom"@)
}

/// `Window`: a new window, full screen.
pub open spec fn window_menu(s: Seq<MenuEntry>) -> bool {
    &&& s.len() == 2
    &&& is_item(s[0], "new_window"@, "New Window"@)
    &&& s[1] == MenuEntry::Standard(StandardItem::Fullscreen)
}

/// `Perfils`: the profile panel, a separator, the submenu opening each
/// profile, a separator, the submenu creating one.
pub open spec fn profiles_menu(s: Seq<MenuEntry>, items: Seq<(Seq<char>, Seq<char>)>) -> bool {
    &&& s.len() == 5
    &&& is_item(s[0], "profiles_panel"@, "Abrir painel dos perfils"@)
    &&& s[1] is Separator
    &&& is_submenu(s[2], "Abrir perfil"@, items)
    &&& s[3] is Separator
    &&& is_submenu(s[4], "Criar novo Perfil"@, seq![("create_profile"@, "Criar perfil"@)])
}

/// `Help`: documentation, GitHub, a separator, the update check.
pub open spec fn help_menu(s: Seq<MenuEntry>) -> bool {
    &&& s.len() == 4
    &&& is_item(s[0], "documentation"@, "Documentation"@)
    &&& is_item(s[1], "github"@, "GitHub"@)
    &&& s[2] is Separator
    &&& is_item(s[3], "check_updates"@, "Check for Updates"@)
}

/// The application menu listing the profile entries `items`: `File`,
/// `Edit`, `View`, `Window`, `Perfils` and `Help`, in that order.
pub open spec fn app_menu_layout(m: Seq<(String, Vec<MenuEntry>)>, items: Seq<(Seq<char>, Seq<char>)>) -> bool {
    &&& m.len() == 6
    &&& m[0].0@ == "File"@ && file_menu(m[0].1@)
    &&& m[1].0@ == "Edit"@ && edit_menu(m[1].1@)
    &&& m[2].0@ == "View"@ && view_menu(m[2].1@)
    &&& m[3].0@ == "Window"@ && window_menu(m[3].1@)
    &&& m[4].0@ == "Perfils"@ && profiles_menu(m[4].1@, items)
    &&& m[5].0@ == "Help"@ && help_menu(m[5].1@)
}

/// The tray menu listing the profile entries `items`: a new window; the
/// `Perfils` submenu (the profile panel, a separator, the submenu opening
/// each profile, a separator, profile creation); show; quit.
pub open spec fn tray_menu_layout(t: Seq<TrayEntry>, items: Seq<(Seq<char>, Seq<char>)>) -> bool {
    &&& t.len() == 4
    &&& t[0] matches TrayEntry::Item(i, l) && i@ == "new_window"@ && l@ == "New Window"@
    &&& t[1] matches TrayEntry::Group(l, g) && l@ == "Perfils"@ && {
        let s = g@;
        &&& s.len() == 5
        &&& is_item(s[0], "profiles_panel"@, "Abrir painel dos perfils"@)
        &&& s[1] is Separator
        &&& is_submenu(s[2], "Abrir perfil"@, items)
        &&& s[3] is Separator
        &&& is_item(s[4], "create_profile"@, "Criar perfil"@)
    }
    &&& t[2] matches TrayEntry::Item(i, l) && i@ == "show"@ && l@ == "Show"@
    &&& t[3] matches TrayEntry::Item(i, l) && i@ == "quit"@ && l@ == "Quit"@
}

fn item(id: &str, label: &str) -> (e: MenuEntry)
    ensures
        is_item(e, id@, label@),
{
    MenuEntry::Item(id.to_owned(), label.to_owned())
}

/// The "open profile" entries of `profiles`.
fn profile_items(profiles: &[Profile]) -> (r: Vec<(String, String)>)
    ensures
        pairs_view(r@) == profile_entry_views(profiles@),
{
    let r = profile_menu_items(profiles);
    assert(profile_entries(profiles@, r@));
    assert(pairs_view(r@) =~= profile_entry_views(profiles@));
    r
}

/// The `Perfils` entries shared by both menus, up to the submenu opening
/// each profile.
fn profile_head(profiles: &[Profile]) -> (s: Vec<MenuEntry>)
    ensures
        s.len() == 4,
        is_item(s@[0], "profiles_panel"@, "Abrir painel dos perfils"@),
        s@[1] is Separator,
        is_submenu(s@[2], "Abrir perfil"@, profile_entry_views(profiles@)),
        s@[3] is Separator,
{
    let mut s: Vec<MenuEntry> = Vec::new();
    s.push(item("profiles_panel", "Abrir painel dos perfils"));
    s.push(MenuEntry::Separator);
    s.push(MenuEntry::Submenu("Abrir perfil".to_owned(), profile_items(profiles)));
    s.push(MenuEntry::Separator);
    s
}

/// The application menu for the profile list `profiles`.
pub fn app_menu(profiles: &[Profile]) -> (m: Vec<(String, Vec<MenuEntry>)>)
    ensures
        app_menu_layout(m@, profile_entry_views(profiles@)),
{
    let mut file: Vec<MenuEntry> = Vec::new();
    file.push(item("minimize", "Minimize"));
    file.push(item("maximize", "Maximize"));
    file.push(MenuEntry::Separator);
    file.push(item("quit", "Quit"));

    let mut edit: Vec<MenuEntry> = Vec::new();
    edit.push(MenuEntry::Standard(StandardItem::Undo));
    edit.push(MenuEntry::Standard(StandardItem::Redo));
    edit.push(MenuEntry::Separator);
    edit.push(MenuEntry::Standard(StandardItem::Cut));
    edit.push(MenuEntry::Standard(StandardItem::Copy));
    edit.push(item("paste", "Paste"));
    edit.push(MenuEntry::Shortcut("paste-image".to_owned(), "Paste Image".to_owned(), "CmdOrCtrl+Shift+V".to_owned()));
    edit.push(MenuEntry::Standard(StandardItem::SelectAll));

    let mut view: Vec<MenuEntry> = Vec::new();
    view.push(item("reload", "Reload"));
    view.push(item("devtools", "Toggle DevTools"));
    view.push(MenuEntry::Separator);
    view.push(item("zoom_in", "Zoom In"));
    view.push(item("zoom_out", "Zoom Out"));
    view.push(item("zoom_reset", "Reset Zoom"));

    let mut window: Vec<MenuEntry> = Vec::new();
    window.push(item("new_window", "New Window"));
    window.push(MenuEntry::Standard(StandardItem::Fullscreen));

    let mut perfils = profile_head(profiles);
    let mut create: Vec<(String, String)> = Vec::new();
    create.push(("create_profile".to_owned(), "Criar perfil".to_owned()));
    assert(pairs_view(create@) =~= seq![("create_profile"@, "Criar perfil"@)]);
    perfils.push(MenuEntry::Submenu("Criar novo Perfil".to_owned(), create));

    let mut help: Vec<MenuEntry> = Vec::new();
    help.push(item("documentation", "Documentation"));
    help.push(item("github", "GitHub"));
    help.push(MenuEntry::Separator);
    help.push(item("check_updates", "Check for Updates"));

    let mut m: Vec<(String, Vec<MenuEntry>)> = Vec::new();
    m.push(("File".to_owned(), file));
    m.push(("Edit".to_owned(), edit));
    m.push(("View".to_owned(), view));
    m.push(("Window".to_owned(), window));
    m.push(("Perfils".to_owned(), perfils));
    m.push(("Help".to_owned(), help));
    m
}

/// The tray menu for the profile list `profiles`.
pub fn tray_menu(profiles: &[Profile]) -> (t: Vec<TrayEntry>)
    ensures
        tray_menu_layout(t@, profile_entry_views(profiles@)),
{
    let mut group = profile_head(profiles);
    group.push(item("create_profile", "Criar perfil"));
    let mut t: Vec<TrayEntry> = Vec::new();
    t.push(TrayEntry::Item("new_window".to_owned(), "New Window".to_owned()));
    t.push(TrayEntry::Group("Perfils".to_owned(), group));
    t.push(TrayEntry::Item("show".to_owned(), "Show".to_owned()));
    t.push(TrayEntry::Item("quit".to_owned(), "Quit".to_owned()));
    t
}

} // verus!
