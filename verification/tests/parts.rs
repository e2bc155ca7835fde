use qwen_studio_linux::auth::domains::auth_parts_allowed;
use qwen_studio_linux::auth::token::token_from_parts;
use qwen_studio_linux::update::versions::parse_u32;
use qwen_studio_linux::urlparts::UrlParts;
use qwen_studio_linux::webview::navigation::{is_main_host, is_preview_host, route_for_parts, LinkRoute};

fn parts(host: Option<&str>, path: &str, query: Option<&str>, fragment: Option<&str>) -> UrlParts {
    UrlParts {
        scheme: "https".to_string(),
        host: host.map(|h| h.to_string()),
        path: path.to_string(),
        query: query.map(|q| q.to_string()),
        fragment: fragment.map(|f| f.to_string()),
    }
}

#[test]
fn sign_in_parts() {
    assert!(auth_parts_allowed(&parts(Some("accounts.google.com"), "/anything", None, None)));
    assert!(auth_parts_allowed(&parts(Some("www.qwen.ai"), "/pricing", None, None)));
    assert!(auth_parts_allowed(&parts(Some("passport.aliyun.com"), "/login/x", None, None)));
    assert!(auth_parts_allowed(&parts(Some("passport.aliyun.com"), "/", None, None)));
    assert!(!auth_parts_allowed(&parts(Some("passport.aliyun.com"), "/shop", None, None)));
    assert!(!auth_parts_allowed(&parts(Some("evil.com"), "/login", None, None)));
    assert!(!auth_parts_allowed(&parts(None, "/login", None, None)));
}

#[test]
fn tokens_from_parts() {
    let p = parts(Some("chat.qwen.ai"), "/", Some("token=q"), Some("a=1&access_token=f"));
    assert_eq!(token_from_parts(&p), Some("f".to_string()));
    let p = parts(Some("chat.qwen.ai"), "/", Some("x=1&token=q"), Some("a=1"));
    assert_eq!(token_from_parts(&p), Some("q".to_string()));
    let p = parts(Some("chat.qwen.ai"), "/", Some("x=1"), None);
    assert_eq!(token_from_parts(&p), None);
}

#[test]
fn hosts_and_routes() {
    assert!(is_main_host(&parts(Some("chat.qwen.ai"), "/", None, None)));
    assert!(!is_main_host(&parts(Some("qwen.ai"), "/", None, None)));
    assert!(!is_main_host(&parts(None, "/", None, None)));
    assert!(is_preview_host("qwenlm.io"));
    assert!(is_preview_host("x.qwenlm.io"));
    assert!(!is_preview_host("evilqwenlm.io"));
    assert_eq!(route_for_parts(&parts(None, "", None, None)), LinkRoute::Ignore);
    assert_eq!(route_for_parts(&parts(Some("accounts.google.com"), "/o", None, None)), LinkRoute::InWindow);
    assert_eq!(route_for_parts(&parts(Some("github.com"), "/", None, None)), LinkRoute::Browser);
}

#[test]
fn version_numbers() {
    let c = |s: &str| s.chars().collect::<Vec<char>>();
    assert_eq!(parse_u32(&c("42")), Some(42));
    assert_eq!(parse_u32(&c("+7")), Some(7));
    assert_eq!(parse_u32(&c("4294967295")), Some(u32::MAX));
    assert_eq!(parse_u32(&c("4294967296")), None);
    assert_eq!(parse_u32(&c("")), None);
    assert_eq!(parse_u32(&c("+")), None);
    assert_eq!(parse_u32(&c("1a")), None);
}
