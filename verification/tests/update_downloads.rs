use qwen_studio_linux::update::release::release_summary;
use qwen_studio_linux::update::transfer::{chunk_fits, check_update_download, download_size_ok, update_download_name};

#[test]
fn update_urls() {
    assert_eq!(
        check_update_download("https://github.com/o/r/releases/download/v1/Qwen_1.2.0_amd64.AppImage"),
        Ok("Qwen_1.2.0_amd64.AppImage".to_string())
    );
    assert_eq!(
        check_update_download("http://example.com/a.deb"),
        Err("Only https url allowed".to_string())
    );
    assert_eq!(check_update_download("not a url"), Err("relative URL without a base".to_string()));
    assert_eq!(check_update_download("https://example.com/"), Ok("update.tmp".to_string()));
    assert_eq!(check_update_download("https://example.com/a b%20c?.rpm"), Ok("a_b_20c_.rpm".to_string()));
}

#[test]
fn update_names() {
    assert_eq!(update_download_name("https://x/y/ümlaut-1.0.deb"), "_mlaut-1.0.deb");
    assert_eq!(update_download_name("plain"), "plain");
    assert_eq!(update_download_name("a/"), "update.tmp");
}

#[test]
fn update_sizes() {
    assert!(download_size_ok(0));
    assert!(download_size_ok(524288000));
    assert!(!download_size_ok(524288001));
    assert!(chunk_fits(524287000, 1000));
    assert!(!chunk_fits(524287000, 1001));
    assert!(!chunk_fits(u64::MAX, u64::MAX));
}

fn assets(v: &[(&str, &str)]) -> Vec<(String, String)> {
    v.iter().map(|(n, u)| (n.to_string(), u.to_string())).collect()
}

#[test]
fn release_choice() {
    let a = assets(&[
        ("Qwen_1.0_aarch64_arm.AppImage", "u-arm"),
        ("Qwen_1.0_amd64.AppImage", "u-amd"),
        ("qwen.deb", "u-deb"),
    ]);
    assert_eq!(
        release_summary(Some("vv1.2.3"), Some("notes"), &a),
        ("1.2.3".to_string(), "notes".to_string(), Some("u-amd".to_string()))
    );
    let arm_only = assets(&[("x.deb", "d"), ("Qwen_ARM64.APPIMAGE", "u-arm")]);
    assert_eq!(release_summary(None, None, &arm_only), ("0.0.0".to_string(), String::new(), Some("u-arm".to_string())));
    assert_eq!(release_summary(Some("1.0"), None, &assets(&[("x.deb", "d")])).2, None);
}
