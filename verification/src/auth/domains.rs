//! The hosts and paths of the sign-in flow, which the main window may visit.
use vstd::prelude::*;

use crate::text::{
    ascii_lower, chars_eq, chars_of, concat_chars, contains_exec, contains_str, ends_with, ends_with_exec,
    lower_ascii, starts_with, starts_with_exec,
};
use crate::urlparts::{parse_url, parts_view, url_parsed, UrlParts};

verus! {

/// The sign-in hosts; their subdomains are allowed too.
pub open spec fn auth_domains() -> Seq<Seq<char>> {
    seq![
        "accounts.google.com"@,
        "oauth2.googleapis.com"@,
        "auth0.aliyun.com"@,
        "passport.aliyun.com"@,
        "qwen.ai"@,
        "chat.qwen.ai"@,
        "www.qwen.ai"@,
        "tongyi.aliyun.com"@,
        "dashscope.aliyun.com"@,
    ]
}

/// The path prefixes of the sign-in flow.
pub open spec fn auth_paths() -> Seq<Seq<char>> {
    seq!["/oauth"@, "/auth"@, "/login"@, "/callback"@, "/token"@, "/openid"@]
}

/// `host` is a sign-in host or a subdomain of one.
pub open spec fn host_allowed(host: Seq<char>) -> bool {
    exists|i: int|
        0 <= i < auth_domains().len() && (host == auth_domains()[i] || ends_with(
            host,
            "."@ + auth_domains()[i],
        ))
}

/// The lowercase path `lower` matches the sign-in path `p`.
pub open spec fn path_matches(lower: Seq<char>, p: Seq<char>) -> bool {
    ||| lower == p
    ||| starts_with(lower, p + "/"@)
    ||| starts_with(lower, p + "?"@)
    ||| contains_str(lower, p) && (contains_str(lower, "/oauth"@) || contains_str(lower, "/callback"@)
        || contains_str(lower, "/login"@))
}

/// `path` (ignoring ASCII case) looks like a step of the sign-in flow.
pub open spec fn path_auth(path: Seq<char>) -> bool {
    exists|i: int| 0 <= i < auth_paths().len() && path_matches(ascii_lower(path), auth_paths()[i])
}

/// The decision for a parsed URL with host `host` and path `path`: Google's
/// sign-in hosts always pass; Qwen and Aliyun hosts pass with a sign-in path
/// or the root path (`qwen.ai` and `www.qwen.ai` always); other allowed hosts
/// pass.
pub open spec fn auth_host_path(host: Seq<char>, path: Seq<char>) -> bool {
    if !host_allowed(host) {
        false
    } else if host == "accounts.google.com"@ || host == "oauth2.googleapis.com"@ {
        true
    } else if ends_with(host, "qwen.ai"@) || ends_with(host, "aliyun.com"@) {
        if host == "qwen.ai"@ || host == "www.qwen.ai"@ {
            true
        } else {
            path_auth(ascii_lower(path)) || ascii_lower(path) == "/"@ || path.len() == 0
        }
    } else {
        true
    }
}

/// `url` parses, has a host, and belongs to the sign-in flow.
pub open spec fn auth_url(url: Seq<char>) -> bool {
    match url_parsed(url) {
        Ok(parts) => auth_parts(parts.1),
        Err(_) => false,
    }
}

fn auth_domain_list() -> (v: Vec<&'static str>)
    ensures
        v.len() == auth_domains().len(),
        forall|i: int| 0 <= i < v.len() ==> #[trigger] v@[i]@ == auth_domains()[i],
{
    let v: Vec<&'static str> = vec![
        "accounts.google.com",
        "oauth2.googleapis.com",
        "auth0.aliyun.com",
        "passport.aliyun.com",
        "qwen.ai",
        "chat.qwen.ai",
        "www.qwen.ai",
        "tongyi.aliyun.com",
        "dashscope.aliyun.com",
    ];
    v
}

fn auth_path_list() -> (v: Vec<&'static str>)
    ensures
        v.len() == auth_paths().len(),
        forall|i: int| 0 <= i < v.len() ==> #[trigger] v@[i]@ == auth_paths()[i],
{
    let v: Vec<&'static str> = vec!["/oauth", "/auth", "/login", "/callback", "/token", "/openid"];
    v
}

/// `host` is one of the sign-in hosts or a subdomain of one.
pub fn host_is_allowed(host: &str) -> (b: bool)
    ensures
        b == host_allowed(host@),
{
    let h = chars_of(host);
    let domains = auth_domain_list();
    let mut i: usize = 0;
    while i < domains.len()
        invariant
            i <= domains.len(),
            h@ == host@,
            domains.len() == auth_domains().len(),
            forall|k: int| 0 <= k < domains.len() ==> #[trigger] domains@[k]@ == auth_domains()[k],
            forall|k: int|
                0 <= k < i ==> !(host@ == #[trigger] auth_domains()[k] || ends_with(
                    host@,
                    "."@ + auth_domains()[k],
                )),
        decreases domains.len() - i,
    {
        let d = chars_of(domains[i]);
        let dotted = concat_chars(&chars_of("."), &d);
        if chars_eq(&h, &d) || ends_with_exec(&h, &dotted) {
            return true;
        }
        i = i + 1;
    }
    false
}

fn path_matches_exec(lower: &[char], p: &[char]) -> (b: bool)
    ensures
        b == path_matches(lower@, p@),
{
    let slash = concat_chars(p, &chars_of("/"));
    let question = concat_chars(p, &chars_of("?"));
    let oauth = chars_of("/oauth");
    let callback = chars_of("/callback");
    let login = chars_of("/login");
    chars_eq(lower, p) || starts_with_exec(lower, &slash) || starts_with_exec(lower, &question) || (
    contains_exec(lower, p) && (contains_exec(lower, &oauth) || contains_exec(lower, &callback)
        || contains_exec(lower, &login)))
}

/// `path` (ignoring ASCII case) looks like a step of the sign-in flow.
pub fn path_is_auth(path: &str) -> (b: bool)
    ensures
        b == path_auth(path@),
{
    let pc = chars_of(path);
    let lower = lower_ascii(&pc);
    let paths = auth_path_list();
    let mut i: usize = 0;
    while i < paths.len()
        invariant
            i <= paths.len(),
            lower@ == ascii_lower(path@),
            paths.len() == auth_paths().len(),
            forall|k: int| 0 <= k < paths.len() ==> #[trigger] paths@[k]@ == auth_paths()[k],
            forall|k: int| 0 <= k < i ==> !path_matches(ascii_lower(path@), #[trigger] auth_paths()[k]),
        decreases paths.len() - i,
    {
        let p = chars_of(paths[i]);
        if path_matches_exec(&lower, &p) {
            return true;
        }
        i = i + 1;
    }
    false
}

/// The sign-in decision for an already parsed URL: it needs a host, and the
/// host and path must pass `auth_host_path`.
pub open spec fn auth_parts(parts: (Option<Seq<char>>, Seq<char>, Option<Seq<char>>, Option<Seq<char>>)) -> bool {
    match parts.0 {
        Some(h) => auth_host_path(h, parts.1),
        None => false,
    }
}

/// The sign-in decision for a parsed URL.
pub fn auth_parts_allowed(parts: &UrlParts) -> (b: bool)
    ensures
        b == auth_parts(parts_view(*parts)),
{
    let host = match &parts.host {
        Some(h) => h,
        None => return false,
    };
    if !host_is_allowed(host.as_str()) {
        return false;
    }
    let hc = chars_of(host.as_str());
    if chars_eq(&hc, &chars_of("accounts.google.com")) || chars_eq(&hc, &chars_of("oauth2.googleapis.com")) {
        return true;
    }
    let pc = chars_of(parts.path.as_str());
    let path = lower_ascii(&pc);
    if ends_with_exec(&hc, &chars_of("qwen.ai")) || ends_with_exec(&hc, &chars_of("aliyun.com")) {
        if chars_eq(&hc, &chars_of("qwen.ai")) || chars_eq(&hc, &chars_of("www.qwen.ai")) {
            return true;
        }
        let ps = crate::text::string_of(&path);
        return path_is_auth(ps.as_str()) || chars_eq(&path, &chars_of("/")) || path.len() == 0;
    }
    true
}

/// Whether `url` belongs to the sign-in flow and may load in the main window.
pub fn is_auth_url(url: &str) -> (b: bool)
    ensures
        b == auth_url(url@),
{
    match parse_url(url) {
        Ok(p) => auth_parts_allowed(&p),
        Err(_) => false,
    }
}

} // verus!
