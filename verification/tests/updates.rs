use qwen_studio_linux::config::schema::UpdateInfo;
use qwen_studio_linux::platform::notifications::show_update;
use qwen_studio_linux::update::versions::{compare_versions, serve_from_cache, update_check_interval, update_info};
use qwen_studio_linux::update::installer::{
    appimage_outcome, command_outcome, detect_bundle_type, install_plan, BundleType, InstallPlan,
};
use qwen_studio_linux::update::manager::UpdateManager;

#[test]
fn version_order() {
    assert_eq!(compare_versions("1.2.3", "1.2.4"), -1);
    assert_eq!(compare_versions("1.10.0", "1.9.9"), 1);
    assert_eq!(compare_versions("1.2", "1.2.0"), 0);
    assert_eq!(compare_versions("2.0.0", "2.0.0"), 0);
    assert_eq!(compare_versions("1.x.3", "1.3"), 0);
    assert_eq!(compare_versions("+1.0", "1"), 0);
    assert_eq!(compare_versions("1.99999999999", "1"), 0);
    assert_eq!(compare_versions("0.9", "1.0"), -compare_versions("1.0", "0.9"));
}

#[test]
fn check_results() {
    let none = update_info("1.0.0", None);
    assert_eq!(
        none,
        UpdateInfo {
            current_version: "1.0.0".to_string(),
            available: false,
            latest_version: "1.0.0".to_string(),
            release_notes: String::new(),
            download_url: None,
        }
    );
    let newer = update_info("1.0.0", Some(("1.1.0".to_string(), "notes".to_string(), Some("https://x/y".to_string()))));
    assert!(newer.available);
    assert_eq!(newer.latest_version, "1.1.0");
    assert_eq!(newer.download_url, Some("https://x/y".to_string()));
    let older = update_info("1.1.0", Some(("1.0.0".to_string(), String::new(), None)));
    assert!(!older.available);
}

#[test]
fn manual_checks_are_debounced() {
    assert!(serve_from_cache(false, 1000, 970));
    assert!(!serve_from_cache(false, 1000, 900));
    assert!(!serve_from_cache(true, 1000, 970));
    assert!(!serve_from_cache(false, 1000, 0));
    assert!(serve_from_cache(false, 10, 20));
}

#[test]
fn cache_keeps_the_last_result() {
    let mut m = UpdateManager::new();
    assert!(m.get_cached().is_none());
    let info = update_info("1.0.0", None);
    m.cache_info(info.clone());
    m.set_last_check();
    assert_eq!(m.get_cached(), Some(&info));
}

#[test]
fn bundle_detection() {
    assert_eq!(detect_bundle_type(Some("/tmp/Qwen.AppImage"), false, true, true), BundleType::AppImage);
    assert_eq!(detect_bundle_type(Some("/usr/bin/qwen"), true, false, false), BundleType::AppImage);
    assert_eq!(detect_bundle_type(Some("/usr/bin/qwen"), false, true, true), BundleType::Deb);
    assert_eq!(detect_bundle_type(None, true, false, true), BundleType::Rpm);
    assert_eq!(detect_bundle_type(None, false, false, false), BundleType::Unknown);
}

#[test]
fn install_steps() {
    assert_eq!(
        install_plan(BundleType::Deb, "/tmp/u.deb"),
        Ok(InstallPlan::Command { program: "pkexec".to_string(), args: vec!["dpkg".to_string(), "-i".to_string(), "/tmp/u.deb".to_string()] })
    );
    assert_eq!(
        install_plan(BundleType::Rpm, "/tmp/u.rpm"),
        Ok(InstallPlan::Command { program: "pkexec".to_string(), args: vec!["rpm".to_string(), "-Uvh".to_string(), "/tmp/u.rpm".to_string()] })
    );
    assert_eq!(install_plan(BundleType::AppImage, "/x"), Ok(InstallPlan::ReplaceAppImage));
    assert_eq!(install_plan(BundleType::Unknown, "/x"), Err("Unknown bundle type. Please install manually.".to_string()));
    assert_eq!(command_outcome(true), Ok("Installation complete".to_string()));
    assert_eq!(command_outcome(false), Err("Installation failed".to_string()));
    assert_eq!(appimage_outcome(), Ok("AppImage updated. Please restart.".to_string()));
}

#[test]
fn update_notification() {
    assert_eq!(show_update("1.2.0", ""), ("Qwem Studio Linux Update".to_string(), "Version 1.2.0 is available".to_string()));
    assert_eq!(show_update("1.2.0", "Fixes"), ("Qwem Studio Linux Update".to_string(), "Version 1.2.0 is available\n\nFixes".to_string()));
}

#[test]
fn check_interval_has_jitter() {
    assert_eq!(update_check_interval(0), 43200);
    assert_eq!(update_check_interval(1000), 43200 + 100);
    assert_eq!(update_check_interval(1799), 43200 + 899);
    assert_eq!(update_check_interval(1800), 43200);
}
