//! The environment the web view is started with: display backend, GPU
//! workarounds and the GStreamer plugin paths of AppImage builds.
use vstd::prelude::*;

use crate::text::{
    chars_eq, chars_eq_ignore_ascii_case, chars_of, contains_exec, contains_str, eq_ignore_ascii_case,
    opt_str_text, opt_view, push_chars, split_at_char, split_exec, string_of,
};

verus! {

/// A variable that turns an option on: `1` or `true` in any ASCII case.
pub open spec fn flag_on(v: Option<Seq<char>>) -> bool {
    match v {
        Some(s) => s == "1"@ || eq_ignore_ascii_case(s, "true"@),
        None => false,
    }
}

/// A variable that is on unless set to `0` or `false` (any ASCII case).
pub open spec fn flag_not_off(v: Option<Seq<char>>) -> bool {
    match v {
        Some(s) => !(s == "0"@ || eq_ignore_ascii_case(s, "false"@)),
        None => true,
    }
}

/// Whether a variable's value `v` turns its option on.
pub fn flag_enabled(v: Option<&str>) -> (b: bool)
    ensures
        b == flag_on(opt_str_text(v)),
{
    match v {
        Some(s) => {
            let c = chars_of(s);
            chars_eq(&c, &chars_of("1")) || chars_eq_ignore_ascii_case(&c, &chars_of("true"))
        },
        None => false,
    }
}

/// Whether a variable's value `v` leaves its option on.
pub fn flag_not_disabled(v: Option<&str>) -> (b: bool)
    ensures
        b == flag_not_off(opt_str_text(v)),
{
    match v {
        Some(s) => {
            let c = chars_of(s);
            !(chars_eq(&c, &chars_of("0")) || chars_eq_ignore_ascii_case(&c, &chars_of("false")))
        },
        None => true,
    }
}

/// The GTK backend: Wayland only when asked for (`QWEN_USE_WAYLAND` or
/// `QWEN_FORCE_WAYLAND`) and a Wayland display exists; X11 otherwise, so
/// that the classic menu bar shows.
pub open spec fn backend_for(use_wayland: Option<Seq<char>>, force_wayland: Option<Seq<char>>, wayland_display: bool) -> Seq<char> {
    if (flag_on(use_wayland) || flag_on(force_wayland)) && wayland_display {
        "wayland"@
    } else {
        "x11"@
    }
}

/// Chooses `GDK_BACKEND` from the values of `QWEN_USE_WAYLAND` and
/// `QWEN_FORCE_WAYLAND` and whether `WAYLAND_DISPLAY` is set.
pub fn gdk_backend(use_wayland: Option<&str>, force_wayland: Option<&str>, wayland_display: bool) -> (r: &'static str)
    ensures
        r@ == backend_for(opt_str_text(use_wayland), opt_str_text(force_wayland), wayland_display),
{
    if (flag_enabled(use_wayland) || flag_enabled(force_wayland)) && wayland_display {
        "wayland"
    } else {
        "x11"
    }
}

/// Running from an AppImage: `APPIMAGE` or `APPDIR` is set, or the
/// executable's path mentions `.AppImage`.
pub open spec fn appimage(appimage_env: bool, exe_path: Option<Seq<char>>, appdir_env: bool) -> bool {
    appimage_env || (exe_path is Some && contains_str(exe_path->0, ".AppImage"@)) || appdir_env
}

/// Whether the application runs from an AppImage.
pub fn is_appimage(appimage_env: bool, exe_path: Option<&str>, appdir_env: bool) -> (b: bool)
    ensures
        b == appimage(appimage_env, opt_str_text(exe_path), appdir_env),
{
    if appimage_env {
        return true;
    }
    let in_path = match exe_path {
        Some(p) => contains_exec(&chars_of(p), &chars_of(".AppImage")),
        None => false,
    };
    in_path || appdir_env
}

// ---------------------------------------------------------------------------
// GStreamer
// ---------------------------------------------------------------------------

/// Where the GStreamer plugin scanner may be installed, in order of
/// preference.
pub open spec fn scanner_candidates() -> Seq<Seq<char>> {
    seq![
        "/usr/lib/gstreamer-1.0/gst-plugin-scanner"@,
        "/usr/libexec/gstreamer-1.0/gst-plugin-scanner"@,
        "/usr/lib64/gstreamer-1.0/gst-plugin-scanner"@,
    ]
}

/// The host's GStreamer plugin directories.
pub open spec fn host_plugin_dirs() -> Seq<Seq<char>> {
    seq!["/usr/lib/gstreamer-1.0"@, "/usr/lib/x86_64-linux-gnu/gstreamer-1.0"@, "/usr/lib64/gstreamer-1.0"@]
}

fn scanner_candidate_list() -> (v: Vec<&'static str>)
    ensures
        v.len() == 3,
        forall|i: int| 0 <= i < 3 ==> #[trigger] v@[i]@ == scanner_candidates()[i],
{
    vec![
        "/usr/lib/gstreamer-1.0/gst-plugin-scanner",
        "/usr/libexec/gstreamer-1.0/gst-plugin-scanner",
        "/usr/lib64/gstreamer-1.0/gst-plugin-scanner",
    ]
}

fn host_plugin_dir_list() -> (v: Vec<&'static str>)
    ensures
        v.len() == 3,
        forall|i: int| 0 <= i < 3 ==> #[trigger] v@[i]@ == host_plugin_dirs()[i],
{
    vec!["/usr/lib/gstreamer-1.0", "/usr/lib/x86_64-linux-gnu/gstreamer-1.0", "/usr/lib64/gstreamer-1.0"]
}

/// The first of `paths` that exists.
pub open spec fn first_existing(paths: Seq<Seq<char>>, exists: Seq<bool>) -> Option<Seq<char>>
    decreases paths.len(),
{
    if paths.len() == 0 || exists.len() == 0 {
        None
    } else if exists[0] {
        Some(paths[0])
    } else {
        first_existing(paths.drop_first(), exists.drop_first())
    }
}

/// Some entry of `merged` contains `p`.
pub open spec fn covered(merged: Seq<Seq<char>>, p: Seq<char>) -> bool {
    exists|i: int| 0 <= i < merged.len() && contains_str(#[trigger] merged[i], p)
}

/// `merged` extended with each of `parts`, in order, that no entry so far
/// contains.
pub open spec fn merge_parts(merged: Seq<Seq<char>>, parts: Seq<Seq<char>>) -> Seq<Seq<char>>
    decreases parts.len(),
{
    if parts.len() == 0 {
        merged
    } else {
        let m = if covered(merged, parts[0]) {
            merged
        } else {
            merged.push(parts[0])
        };
        merge_parts(m, parts.drop_first())
    }
}

/// `merged` extended with each existing host directory, in order, that it
/// does not list yet.
pub open spec fn merge_hosts(merged: Seq<Seq<char>>, hosts: Seq<Seq<char>>, exists: Seq<bool>) -> Seq<Seq<char>>
    decreases hosts.len(),
{
    if hosts.len() == 0 || exists.len() == 0 {
        merged
    } else {
        let m = if exists[0] && !merged.contains(hosts[0]) {
            merged.push(hosts[0])
        } else {
            merged
        };
        merge_hosts(m, hosts.drop_first(), exists.drop_first())
    }
}

/// The texts joined with `sep` between them.
pub open spec fn join_with(parts: Seq<Seq<char>>, sep: Seq<char>) -> Seq<char>
    decreases parts.len(),
{
    if parts.len() == 0 {
        Seq::empty()
    } else if parts.len() == 1 {
        parts[0]
    } else {
        join_with(parts.drop_last(), sep) + sep + parts.last()
    }
}

/// The merged plugin path list: the current `GST_PLUGIN_PATH` (when not
/// empty), then the pieces of `GST_PLUGIN_SYSTEM_PATH`, then the host
/// directories that exist.
pub open spec fn merged_plugin_dirs(plugin_path: Seq<char>, system_path: Seq<char>, host_exists: Seq<bool>) -> Seq<Seq<char>> {
    let start = if plugin_path.len() > 0 {
        seq![plugin_path]
    } else {
        Seq::empty()
    };
    let m = if system_path.len() > 0 {
        merge_parts(start, split_at_char(system_path, ':'))
    } else {
        start
    };
    merge_hosts(m, host_plugin_dirs(), host_exists)
}

/// The GStreamer variables as the process found them.
pub struct GstEnv {
    /// `GST_PLUGIN_SCANNER` is set.
    pub scanner_set: bool,
    /// `GST_PLUGIN_SYSTEM_PATH`, if set.
    pub system_path: Option<String>,
    /// `GST_PLUGIN_PATH`, if set.
    pub plugin_path: Option<String>,
    /// `GST_REGISTRY_FORK` is set.
    pub registry_fork_set: bool,
}

/// The GStreamer variables to set.
#[derive(Debug, Clone, PartialEq)]
pub struct GstPlan {
    /// New `GST_PLUGIN_SCANNER`.
    pub scanner: Option<String>,
    /// New `GST_PLUGIN_SYSTEM_PATH`.
    pub system_path: Option<String>,
    /// New `GST_PLUGIN_PATH`.
    pub plugin_path: Option<String>,
    /// Set `GST_REGISTRY_FORK` to `no`.
    pub registry_fork_no: bool,
}

/// A text, or the empty text for none.
pub open spec fn or_empty(o: Option<String>) -> Seq<char> {
    match o {
        Some(s) => s@,
        None => Seq::empty(),
    }
}

/// The plugin paths point into an AppImage's private mount.
pub open spec fn isolated_mount(env: GstEnv) -> bool {
    contains_str(or_empty(env.plugin_path), "/tmp/.mount_"@) || contains_str(or_empty(env.system_path), "/tmp/.mount_"@)
}

/// The GStreamer variables to set: a scanner when none is set (the first
/// candidate that exists); and, for AppImages, when the plugin paths are
/// isolated in the mount or the system path is empty, a merged plugin list
/// for the system path (mirrored to the plugin path when that is unset or
/// isolated), and a non-forking registry when not chosen otherwise.
pub open spec fn gst_plan_for(env: GstEnv, scanner_exists: Seq<bool>, host_exists: Seq<bool>, appimage: bool, p: GstPlan) -> bool {
    let merged = merged_plugin_dirs(or_empty(env.plugin_path), or_empty(env.system_path), host_exists);
    let rewrite = appimage && (isolated_mount(env) || or_empty(env.system_path).len() == 0) && merged.len() > 0;
    &&& opt_view(p.scanner) == (if env.scanner_set {
        None
    } else {
        first_existing(scanner_candidates(), scanner_exists)
    })
    &&& opt_view(p.system_path) == (if rewrite {
        Some(join_with(merged, ":"@))
    } else {
        None
    })
    &&& opt_view(p.plugin_path) == (if rewrite && (env.plugin_path is None || isolated_mount(env)) {
        Some(join_with(merged, ":"@))
    } else {
        None
    })
    &&& p.registry_fork_no == (appimage && !env.registry_fork_set)
}

fn text_of(o: &Option<String>) -> (r: Vec<char>)
    ensures
        r@ == or_empty(*o),
{
    match o {
        Some(s) => chars_of(s.as_str()),
        None => Vec::new(),
    }
}

fn covered_exec(merged: &Vec<Vec<char>>, p: &[char]) -> (b: bool)
    ensures
        b == covered(merged@.map_values(|v: Vec<char>| v@), p@),
{
    let ghost mv = merged@.map_values(|v: Vec<char>| v@);
    let mut i: usize = 0;
    while i < merged.len()
        invariant
            i <= merged.len(),
            mv == merged@.map_values(|v: Vec<char>| v@),
            forall|k: int| 0 <= k < i ==> !contains_str(#[trigger] mv[k], p@),
        decreases merged.len() - i,
    {
        if contains_exec(&merged[i], p) {
            assert(mv[i as int] == merged@[i as int]@);
            return true;
        }
        i = i + 1;
    }
    false
}

fn listed_exec(merged: &Vec<Vec<char>>, p: &[char]) -> (b: bool)
    ensures
        b == merged@.map_values(|v: Vec<char>| v@).contains(p@),
{
    let ghost mv = merged@.map_values(|v: Vec<char>| v@);
    let mut i: usize = 0;
    while i < merged.len()
        invariant
            i <= merged.len(),
            mv == merged@.map_values(|v: Vec<char>| v@),
            forall|k: int| 0 <= k < i ==> #[trigger] mv[k] != p@,
        decreases merged.len() - i,
    {
        if chars_eq(&merged[i], p) {
            assert(mv[i as int] == p@);
            return true;
        }
        i = i + 1;
    }
    false
}

fn join_exec(parts: &Vec<Vec<char>>, sep: &[char]) -> (r: String)
    ensures
        r@ == join_with(parts@.map_values(|v: Vec<char>| v@), sep@),
{
    let ghost pv = parts@.map_values(|v: Vec<char>| v@);
    let mut r = String::new();
    let mut i: usize = 0;
    while i < parts.len()
        invariant
            i <= parts.len(),
            pv == parts@.map_values(|v: Vec<char>| v@),
            r@ == join_with(pv.take(i as int), sep@),
        decreases parts.len() - i,
    {
        assert(pv.take(i + 1).drop_last() =~= pv.take(i as int));
        assert(pv.take(i + 1).last() == parts@[i as int]@);
        if i > 0 {
            push_chars(&mut r, sep);
        } else {
            assert(r@ =~= Seq::<char>::empty());
        }
        push_chars(&mut r, &parts[i]);
        proof {
            if i == 0 {
                assert(pv.take(1)[0] == parts@[0]@);
                assert(Seq::<char>::empty() + parts@[0]@ =~= parts@[0]@);
            }
        }
        i = i + 1;
    }
    assert(pv.take(parts.len() as int) =~= pv);
    r
}

fn merged_exec(plugin_path: &Vec<char>, system_path: &Vec<char>, host_exists: [bool; 3]) -> (r: Vec<Vec<char>>)
    ensures
        r@.map_values(|v: Vec<char>| v@) == merged_plugin_dirs(plugin_path@, system_path@, host_exists@),
{
    let mut merged: Vec<Vec<char>> = Vec::new();
    if plugin_path.len() > 0 {
        merged.push(crate::text::copy_chars(plugin_path));
    }
    let ghost start = merged@.map_values(|v: Vec<char>| v@);
    assert(start =~= (if plugin_path@.len() > 0 {
        seq![plugin_path@]
    } else {
        Seq::<Seq<char>>::empty()
    }));
    if system_path.len() > 0 {
        let parts = split_exec(system_path, ':');
        let ghost ps = split_at_char(system_path@, ':');
        let mut i: usize = 0;
        assert(ps.skip(0) =~= ps);
        while i < parts.len()
            invariant
                i <= parts.len(),
                parts.len() == ps.len(),
                forall|k: int| 0 <= k < parts.len() ==> #[trigger] parts@[k]@ == ps[k],
                merge_parts(start, ps) == merge_parts(merged@.map_values(|v: Vec<char>| v@), ps.skip(i as int)),
            decreases parts.len() - i,
        {
            let ghost before = merged@.map_values(|v: Vec<char>| v@);
            assert(ps.skip(i as int)[0] == ps[i as int]);
            assert(ps.skip(i as int).drop_first() =~= ps.skip(i + 1));
            if !covered_exec(&merged, &parts[i]) {
                merged.push(crate::text::copy_chars(&parts[i]));
                assert(merged@.map_values(|v: Vec<char>| v@) =~= before.push(ps[i as int]));
            }
            i = i + 1;
        }
        assert(ps.skip(i as int) =~= Seq::<Seq<char>>::empty());
    }
    let ghost mid = merged@.map_values(|v: Vec<char>| v@);
    let hosts = host_plugin_dir_list();
    let ghost hs = host_plugin_dirs();
    let ghost ex = host_exists@;
    let mut j: usize = 0;
    assert(hs.skip(0) =~= hs);
    assert(ex.skip(0) =~= ex);
    while j < 3
        invariant
            j <= 3,
            hosts.len() == 3,
            forall|i: int| 0 <= i < 3 ==> #[trigger] hosts@[i]@ == hs[i],
            hs == host_plugin_dirs(),
            ex == host_exists@,
            ex.len() == 3,
            merge_hosts(mid, hs, ex) == merge_hosts(merged@.map_values(|v: Vec<char>| v@), hs.skip(j as int), ex.skip(j as int)),
        decreases 3 - j,
    {
        let ghost before = merged@.map_values(|v: Vec<char>| v@);
        assert(hs.skip(j as int)[0] == hs[j as int]);
        assert(ex.skip(j as int)[0] == ex[j as int]);
        assert(hs.skip(j as int).drop_first() =~= hs.skip(j + 1));
        assert(ex.skip(j as int).drop_first() =~= ex.skip(j + 1));
        let h = chars_of(hosts[j]);
        if host_exists[j] && !listed_exec(&merged, &h) {
            merged.push(h);
            assert(merged@.map_values(|v: Vec<char>| v@) =~= before.push(hs[j as int]));
        }
        j = j + 1;
    }
    assert(hs.skip(3) =~= Seq::<Seq<char>>::empty());
    merged
}

/// Decides the GStreamer variables.  `scanner_exists` and `host_exists` say
/// which scanner candidates and host plugin directories exist.
pub fn gst_plan(env: &GstEnv, scanner_exists: [bool; 3], host_exists: [bool; 3], appimage: bool) -> (p: GstPlan)
    ensures
        gst_plan_for(*env, scanner_exists@, host_exists@, appimage, p),
{
    let mut scanner: Option<String> = None;
    if !env.scanner_set {
        let cands = scanner_candidate_list();
        let ghost cs = scanner_candidates();
        let ghost ex = scanner_exists@;
        let mut i: usize = 0;
        assert(cs.skip(0) =~= cs);
        assert(ex.skip(0) =~= ex);
        while i < 3 && scanner.is_none()
            invariant
                i <= 3,
                cands.len() == 3,
                forall|k: int| 0 <= k < 3 ==> #[trigger] cands@[k]@ == cs[k],
                cs == scanner_candidates(),
                ex == scanner_exists@,
                ex.len() == 3,
                scanner is None ==> first_existing(cs, ex) == first_existing(cs.skip(i as int), ex.skip(i as int)),
                scanner matches Some(s) ==> first_existing(cs, ex) == Some(s@),
            decreases 3 - i,
        {
            assert(cs.skip(i as int)[0] == cs[i as int]);
            assert(ex.skip(i as int)[0] == ex[i as int]);
            assert(cs.skip(i as int).drop_first() =~= cs.skip(i + 1));
            assert(ex.skip(i as int).drop_first() =~= ex.skip(i + 1));
            if scanner_exists[i] {
                scanner = Some(cands[i].to_owned());
            }
            i = i + 1;
        }
        assert(cs.skip(3).len() == 0);
    }
    let existing = text_of(&env.system_path);
    let existing_plugin = text_of(&env.plugin_path);
    let mount = chars_of("/tmp/.mount_");
    let isolated = contains_exec(&existing_plugin, &mount) || contains_exec(&existing, &mount);
    let mut system_path: Option<String> = None;
    let mut plugin_path: Option<String> = None;
    if appimage && (isolated || existing.len() == 0) {
        let merged = merged_exec(&existing_plugin, &existing, host_exists);
        if merged.len() > 0 {
            let joined = join_exec(&merged, &chars_of(":"));
            if env.plugin_path.is_none() || isolated {
                plugin_path = Some(string_of(&chars_of(joined.as_str())));
            }
            system_path = Some(joined);
        }
    }
    GstPlan { scanner, system_path, plugin_path, registry_fork_no: appimage && !env.registry_fork_set }
}

} // verus!
