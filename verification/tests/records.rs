use qwen_studio_linux::ipc::drop::mime_for_path;
use qwen_studio_linux::ipc::settings::{read_setting, write_setting};
use qwen_studio_linux::mcp::pending::{request_line, PendingRequests};
use qwen_studio_linux::profile::session::{cookies_to_restore, CookieData, Session};
use qwen_studio_linux::text::trim_chars;
use qwen_studio_linux::update::manager::UpdateManager;
use qwen_studio_linux::update::versions::update_info;

#[test]
fn whitespace_matches_std() {
    for u in 0u32..=0x10FFFF {
        if let Some(c) = char::from_u32(u) {
            assert_eq!(trim_chars(&[c]).is_empty(), c.is_whitespace(), "U+{:04X}", u);
        }
    }
}

#[test]
fn settings_read_back() {
    let stored = vec![("theme".to_string(), 1), ("zoom".to_string(), 2)];
    let written = write_setting(Some(stored.clone()), "zoom".to_string(), "5", 5).unwrap().unwrap();
    assert_eq!(read_setting(Some(&written), "zoom"), Ok(Some(&5)));
    assert_eq!(read_setting(Some(&written), "theme"), Ok(Some(&1)));
    assert_eq!(read_setting(Some(&written), "language"), Ok(None));
    assert_eq!(read_setting::<i32>(None, "theme"), Ok(None));
    assert_eq!(read_setting(Some(&stored), ""), Err("Invalid key".to_string()));
    assert_eq!(read_setting(Some(&stored), &"k".repeat(129)), Err("Invalid key".to_string()));
}

#[test]
fn bridge_request_lines() {
    let mut p: PendingRequests<()> = PendingRequests::new();
    let a = p.register(());
    let b = p.register(());
    let la = request_line(a, "\"listTools\"", "{\"serverName\":\"x\"}");
    let lb = request_line(b, "\"listTools\"", "{\"serverName\":\"x\"}");
    assert_eq!(la, "{\"id\":0,\"method\":\"listTools\",\"params\":{\"serverName\":\"x\"}}\n");
    assert_eq!(lb, "{\"id\":1,\"method\":\"listTools\",\"params\":{\"serverName\":\"x\"}}\n");
    assert_eq!(request_line(12345, "\"m\"", "null"), "{\"id\":12345,\"method\":\"m\",\"params\":null}\n");
}

fn cookie(name: &str) -> CookieData {
    CookieData {
        name: name.to_string(),
        value: "v".to_string(),
        domain: None,
        path: None,
        expires: None,
        secure: true,
        http_only: false,
        same_site: 1,
        max_age: 0,
    }
}

#[test]
fn cookies_restored() {
    assert_eq!(cookies_to_restore(None), None);
    assert_eq!(cookies_to_restore(Some(Session::default())), None);
    let s = Session { cookies: vec![cookie("a"), cookie("b")], local_storage: Vec::new() };
    assert_eq!(cookies_to_restore(Some(s)), Some(vec![cookie("a"), cookie("b")]));
}

#[test]
fn mime_case_and_unknown() {
    assert_eq!(mime_for_path("/x/a.PNG"), mime_for_path("/y/b.png"));
    assert_eq!(mime_for_path("/x/a.JpEg"), "image/jpeg");
    assert_eq!(mime_for_path(".png"), "application/octet-stream");
    assert_eq!(mime_for_path("Makefile"), "application/octet-stream");
    assert_eq!(mime_for_path("a.tar.gz"), "application/octet-stream");
}

#[test]
fn last_cached_result_survives_checks() {
    let mut m = UpdateManager::new();
    m.cache_info(update_info("1.0.0", None));
    let latest = update_info("2.0.0", None);
    m.cache_info(latest.clone());
    for _ in 0..3 {
        m.set_last_check();
    }
    assert_eq!(m.get_cached(), Some(&latest));
}
