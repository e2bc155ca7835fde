use qwen_studio_linux::webview::navigation::{
    check_preview_url, external_link_route, preview_label, is_allowed, is_preview_url, should_allow_inline, window_navigation, LinkRoute,
    NavigationAction,
};

#[test]
fn chat_site_is_allowed() {
    assert!(is_allowed("https://chat.qwen.ai"));
    assert!(is_allowed("https://chat.qwen.ai/c/123"));
}

#[test]
fn lookalike_host_is_refused() {
    assert!(!is_allowed("https://chat.qwen.ai.evil.com/"));
    assert!(!is_allowed("https://evil.com/?x=https://chat.qwen.ai"));
}

#[test]
fn sign_in_pages_are_allowed() {
    assert!(is_allowed("https://accounts.google.com/o/oauth2/auth"));
    assert!(is_allowed("https://passport.aliyun.com/login"));
    assert!(!is_allowed("https://passport.aliyun.com/shop"));
}

#[test]
fn preview_urls() {
    assert!(is_preview_url("https://qwenlm.io/x"));
    assert!(is_preview_url("https://abc.qwenlm.io/x"));
    assert!(!is_preview_url("https://fakeqwenlm.io/x"));
    assert!(!is_preview_url("not a url"));
}

#[test]
fn inline_schemes() {
    assert!(should_allow_inline("about:blank"));
    assert!(should_allow_inline("data:text/plain,hi"));
    assert!(should_allow_inline("blob:https://x/y"));
    assert!(should_allow_inline("https://chat.qwen.ai/"));
    assert!(!should_allow_inline("https://example.com/"));
}

#[test]
fn window_navigation_routes() {
    assert_eq!(window_navigation("https://chat.qwen.ai/"), NavigationAction::Allow);
    assert_eq!(window_navigation("https://example.com/"), NavigationAction::OpenExternally);
    assert_eq!(window_navigation("javascript:alert(1)"), NavigationAction::Block);
}

#[test]
fn external_links() {
    assert_eq!(external_link_route("mailto:a@b.c"), Ok(LinkRoute::Ignore));
    assert_eq!(external_link_route("https://example.com/"), Ok(LinkRoute::Browser));
    assert_eq!(external_link_route("https://accounts.google.com/signin"), Ok(LinkRoute::InWindow));
    assert!(external_link_route("https://[bad").is_err());
}

#[test]
fn preview_windows() {
    assert_eq!(check_preview_url("https://a.qwenlm.io/p"), Ok(()));
    assert_eq!(check_preview_url("https://example.com/"), Err("URL is not a preview URL".to_string()));
    assert_eq!(preview_label(1), "preview-1");
    assert_eq!(preview_label(42), "preview-42");
}
