use qwen_studio_linux::auth::domains::{host_is_allowed, is_auth_url, path_is_auth};
use qwen_studio_linux::auth::token::{extract_token_from_url, inject_token_script};

#[test]
fn sign_in_hosts_and_subdomains() {
    assert!(host_is_allowed("accounts.google.com"));
    assert!(host_is_allowed("x.passport.aliyun.com"));
    assert!(host_is_allowed("qwen.ai"));
    assert!(!host_is_allowed("evilqwen.ai"));
    assert!(!host_is_allowed("google.com"));
}

#[test]
fn sign_in_paths_ignore_case() {
    assert!(path_is_auth("/oauth"));
    assert!(path_is_auth("/LOGIN/next"));
    assert!(path_is_auth("/auth?x=1"));
    assert!(path_is_auth("/a/token/oauth"));
    assert!(!path_is_auth("/tokens"));
    assert!(!path_is_auth("/chat"));
}

#[test]
fn sign_in_urls() {
    assert!(is_auth_url("https://accounts.google.com/anything"));
    assert!(is_auth_url("https://www.qwen.ai/pricing"));
    assert!(is_auth_url("https://tongyi.aliyun.com/login"));
    assert!(is_auth_url("https://tongyi.aliyun.com/"));
    assert!(!is_auth_url("https://tongyi.aliyun.com/shop"));
    assert!(!is_auth_url("https://example.com/login"));
    assert!(!is_auth_url("not a url"));
}

#[test]
fn token_script_sets_storage_and_cookies() {
    let s = inject_token_script("abc");
    assert!(s.contains("localStorage.setItem('token', 'abc');"));
    assert!(s.contains("sessionStorage.setItem('token', 'abc');"));
    assert!(s.contains("document.cookie = 'token=abc; path=/; domain=.qwen.ai; secure; samesite=lax';"));
    assert!(s.contains("document.cookie = 'token=abc; path=/; domain=.chat.qwen.ai; secure; samesite=lax';"));
}

#[test]
fn token_from_fragment_first() {
    assert_eq!(
        extract_token_from_url("https://chat.qwen.ai/cb?token=q#access_token=f&x=1"),
        Some("f".to_string())
    );
}

#[test]
fn token_from_query() {
    assert_eq!(extract_token_from_url("https://chat.qwen.ai/cb?a=1&token=xyz"), Some("xyz".to_string()));
    assert_eq!(extract_token_from_url("https://chat.qwen.ai/cb?a=1"), None);
    assert_eq!(extract_token_from_url("nonsense"), None);
}

#[test]
fn token_script_exact_text() {
    assert_eq!(
        inject_token_script("abc"),
        "\n        (function() {\n            try {\n                localStorage.setItem('token', 'abc');\n                sessionStorage.setItem('token', 'abc');\n                document.cookie = 'token=abc; path=/; domain=.qwen.ai; secure; samesite=lax';\n                document.cookie = 'token=abc; path=/; domain=.chat.qwen.ai; secure; samesite=lax';\n            } catch(e) {\n                console.error('[Token] Injection failed:', e);\n            }\n        })();\n        "
    );
}
