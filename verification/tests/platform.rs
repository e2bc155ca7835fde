use qwen_studio_linux::crash::{backtrace_requested, backtrace_section, backtrace_text, crash_file_name, crash_log_listing, crash_report, location_text, panic_message};
use qwen_studio_linux::events::forward_event;
use qwen_studio_linux::ipc::dialog::{dialog_answer, dialog_kind, DialogKind};
use qwen_studio_linux::ipc::settings::{check_setting_key, check_setting_write, is_known_setting_key};
use qwen_studio_linux::ipc::shortcuts::{shortcut_action, shortcut_script, ShortcutAction};
use qwen_studio_linux::platform::env::{flag_enabled, flag_not_disabled, gdk_backend, gst_plan, is_appimage, GstEnv};
use qwen_studio_linux::platform::menu::{menu_command, menu_script, profile_of_entry, tray_command, MenuCommand, TrayCommand};
use qwen_studio_linux::windows::{
    open_profile_decision, pick_active_window, profile_window_label, session_capture_target, show_picker_after_close,
    OpenProfile,
};

fn labels(v: &[&str]) -> Vec<String> {
    v.iter().map(|s| s.to_string()).collect()
}

#[test]
fn environment_flags() {
    assert!(flag_enabled(Some("1")));
    assert!(flag_enabled(Some("TRUE")));
    assert!(!flag_enabled(Some("yes")));
    assert!(!flag_enabled(None));
    assert!(flag_not_disabled(None));
    assert!(!flag_not_disabled(Some("0")));
    assert!(!flag_not_disabled(Some("False")));
    assert!(flag_not_disabled(Some("1")));
}

#[test]
fn display_backend() {
    assert_eq!(gdk_backend(Some("1"), None, true), "wayland");
    assert_eq!(gdk_backend(None, Some("true"), true), "wayland");
    assert_eq!(gdk_backend(Some("1"), None, false), "x11");
    assert_eq!(gdk_backend(None, None, true), "x11");
}

#[test]
fn appimage_detection() {
    assert!(is_appimage(true, None, false));
    assert!(is_appimage(false, Some("/tmp/Qwen.AppImage"), false));
    assert!(is_appimage(false, None, true));
    assert!(!is_appimage(false, Some("/usr/bin/qwen"), false));
}

#[test]
fn gstreamer_outside_appimage() {
    let env = GstEnv { scanner_set: false, system_path: None, plugin_path: None, registry_fork_set: false };
    let p = gst_plan(&env, [false, true, true], [true, true, true], false);
    assert_eq!(p.scanner, Some("/usr/libexec/gstreamer-1.0/gst-plugin-scanner".to_string()));
    assert_eq!(p.system_path, None);
    assert_eq!(p.plugin_path, None);
    assert!(!p.registry_fork_no);
}

#[test]
fn gstreamer_isolated_mount() {
    let env = GstEnv {
        scanner_set: true,
        system_path: Some("/tmp/.mount_abc/lib:/usr/lib/gstreamer-1.0".to_string()),
        plugin_path: Some("/tmp/.mount_abc/plugins".to_string()),
        registry_fork_set: false,
    };
    let p = gst_plan(&env, [true, true, true], [true, false, true], true);
    assert_eq!(p.scanner, None);
    let joined = "/tmp/.mount_abc/plugins:/tmp/.mount_abc/lib:/usr/lib/gstreamer-1.0:/usr/lib64/gstreamer-1.0".to_string();
    assert_eq!(p.system_path, Some(joined.clone()));
    assert_eq!(p.plugin_path, Some(joined));
    assert!(p.registry_fork_no);
}

#[test]
fn gstreamer_kept_when_configured() {
    let env = GstEnv {
        scanner_set: true,
        system_path: Some("/opt/gst".to_string()),
        plugin_path: None,
        registry_fork_set: true,
    };
    let p = gst_plan(&env, [false, false, false], [true, true, true], true);
    assert_eq!(p.system_path, None);
    assert_eq!(p.plugin_path, None);
    assert!(!p.registry_fork_no);
}

#[test]
fn gstreamer_empty_system_path() {
    let env = GstEnv { scanner_set: false, system_path: None, plugin_path: Some("/p".to_string()), registry_fork_set: false };
    let p = gst_plan(&env, [false, false, false], [false, false, false], true);
    assert_eq!(p.scanner, None);
    assert_eq!(p.system_path, Some("/p".to_string()));
    assert_eq!(p.plugin_path, None);
}

#[test]
fn menu_commands() {
    assert_eq!(menu_command("minimize"), MenuCommand::Minimize);
    assert_eq!(menu_command("paste-image"), MenuCommand::PasteImage);
    assert_eq!(menu_command("open-profile:open-profile:x"), MenuCommand::OpenProfile("x".to_string()));
    assert_eq!(menu_command("whatever"), MenuCommand::Ignore);
    assert_eq!(menu_script(&MenuCommand::ZoomReset), Some("window.__qwenSetZoom && window.__qwenSetZoom(1.0);"));
    assert_eq!(menu_script(&MenuCommand::Quit), None);
    assert_eq!(tray_command("show"), TrayCommand::Show);
    assert_eq!(tray_command("minimize"), TrayCommand::Ignore);
    assert_eq!(profile_of_entry("open-profile:"), Some(String::new()));
    assert_eq!(profile_of_entry("profile:x"), None);
}

#[test]
fn shortcuts() {
    assert_eq!(shortcut_action("zoom_in"), ShortcutAction::ZoomIn);
    assert_eq!(shortcut_action("new_window"), ShortcutAction::NewWindow);
    assert_eq!(shortcut_action("fly"), ShortcutAction::Unknown);
    assert_eq!(shortcut_script(ShortcutAction::Reload), Some("location.reload();"));
    assert_eq!(shortcut_script(ShortcutAction::ZoomReset), Some("document.body.style.zoom = 1.0;"));
    assert_eq!(shortcut_script(ShortcutAction::Devtools), None);
}

#[test]
fn setting_keys() {
    assert_eq!(check_setting_key("theme"), Ok(()));
    assert_eq!(check_setting_key(""), Err("Invalid key".to_string()));
    assert_eq!(check_setting_key(&"k".repeat(129)), Err("Invalid key".to_string()));
    assert_eq!(check_setting_write("mcpServers", "{}"), Err("Use mcp_client_update_config for MCP servers".to_string()));
    assert_eq!(check_setting_write("mcp_servers", "{}"), Err("Use mcp_client_update_config for MCP servers".to_string()));
    assert_eq!(check_setting_write("zoom", &"1".repeat(1048577)), Err("Value too large".to_string()));
    assert_eq!(check_setting_write("custom", "1"), Ok(()));
    assert!(is_known_setting_key("checkUpdates"));
    assert!(is_known_setting_key("general.font"));
    assert!(!is_known_setting_key("custom"));
}

#[test]
fn event_types() {
    assert!(forward_event(Some("theme_changed")));
    assert!(forward_event(None));
    assert!(!forward_event(Some("evil")));
}

#[test]
fn window_choice() {
    let open = labels(&["preview-1", "main-a", "main-b"]);
    assert_eq!(pick_active_window(&open, Some("main-b")), Some(2));
    assert_eq!(pick_active_window(&open, Some("gone")), Some(1));
    assert_eq!(pick_active_window(&labels(&["window-1"]), None), Some(0));
    assert_eq!(pick_active_window(&Vec::new(), None), None);
    assert_eq!(profile_window_label("work"), "main-work");
}

#[test]
fn opening_profiles() {
    let open = labels(&["main-a", "main-b"]);
    assert_eq!(open_profile_decision(&open, "b", None), OpenProfile::Focus(1));
    assert_eq!(open_profile_decision(&open, "c", None), OpenProfile::Create);
    let full = labels(&["main-a", "main-b", "main-c", "main-d"]);
    assert_eq!(open_profile_decision(&full, "e", Some("main-c")), OpenProfile::Focus(2));
    assert_eq!(open_profile_decision(&full, "e", None), OpenProfile::Focus(0));
}

#[test]
fn crash_reports() {
    assert_eq!(crash_file_name(1700000000), "crash-1700000000.log");
    assert_eq!(backtrace_text("disabled backtrace"), "Backtrace unavailable (build without debuginfo)");
    assert_eq!(backtrace_text("  \n"), "Backtrace unavailable (build without debuginfo)");
    assert_eq!(backtrace_text("0: main"), "0: main");
    assert!(backtrace_requested(Some("1")));
    assert!(!backtrace_requested(Some("full")));
    assert!(!backtrace_requested(Some("2")));
    assert!(!backtrace_requested(Some("")));
    assert!(!backtrace_requested(Some("0")));
    assert!(!backtrace_requested(None));
    assert_eq!(backtrace_section(Some("1"), "0: main"), "0: main");
    assert_eq!(backtrace_section(None, "0: main"), "Backtrace unavailable (build without debuginfo)");
    assert_eq!(backtrace_section(Some("0"), "0: main"), "Backtrace unavailable (build without debuginfo)");
    assert_eq!(panic_message(Some("boom")), "boom");
    assert_eq!(panic_message(None), "Unknown panic (non-string payload)");
    assert_eq!(location_text(Some(("src/a.rs", 3, 7))), "src/a.rs:3:7");
    assert_eq!(location_text(None), "unknown");
    let r = crash_report(5, "1.0", "linux", "x86_64", "main", "boom", "a.rs:1:1", "bt");
    assert_eq!(
        r,
        "=== Qwem Studio Linux Crash Report ===\nTime: 5\nVersion: 1.0\nPlatform: linux x86_64\nThread: main\n\nPanic: boom\nLocation: a.rs:1:1\n\nBacktrace:\nbt\n"
    );
    let names = labels(&["crash-1.log", "notes.txt", "crash-3.log", "crash-2.log", ".log"]);
    assert_eq!(crash_log_listing(&names), labels(&["crash-3.log", "crash-2.log", "crash-1.log"]));
}

#[test]
fn picker_returns_with_last_profile_window() {
    assert!(show_picker_after_close(&labels(&["main-a", "profile-picker"]), "main-a"));
    assert!(!show_picker_after_close(&labels(&["main-a", "main-b"]), "main-a"));
}

#[test]
fn periodic_capture_target() {
    let windows = vec![("main-a".to_string(), "a".to_string()), ("main-b".to_string(), "b".to_string())];
    assert_eq!(session_capture_target(Some("main-b"), &windows, &labels(&["main-a", "main-b"])), Some(1));
    assert_eq!(session_capture_target(Some("main-b"), &windows, &labels(&["main-a"])), None);
    assert_eq!(session_capture_target(Some("preview-1"), &windows, &labels(&["preview-1"])), None);
    assert_eq!(session_capture_target(None, &windows, &labels(&["main-b"])), Some(1));
    assert_eq!(session_capture_target(None, &windows, &Vec::new()), None);
}

#[test]
fn dialog_looks() {
    assert_eq!(dialog_kind("ERROR"), DialogKind::Error);
    assert_eq!(dialog_kind("Warning"), DialogKind::Warning);
    assert_eq!(dialog_kind("Notice"), DialogKind::Info);
    assert_eq!(dialog_answer(true), "ok");
    assert_eq!(dialog_answer(false), "cancel");
}
