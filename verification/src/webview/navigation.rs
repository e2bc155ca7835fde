//! Which URLs the chat windows may load in place, and which go elsewhere.
use vstd::prelude::*;

use crate::auth::domains::{auth_parts, auth_parts_allowed, auth_url, is_auth_url};
use crate::text::{chars_eq, chars_of, ends_with, ends_with_exec, starts_with, starts_with_exec};
use crate::urlparts::{parse_url, parts_view, url_parsed, UrlParts};

verus! {

/// The chat site.
pub const MAIN_URL: &'static str = "https://chat.qwen.ai";

/// The host that `url::Url::parse` finds in `url`, if it parses and has one.
pub open spec fn parsed_host(url: Seq<char>) -> Option<Seq<char>> {
    match url_parsed(url) {
        Ok(p) => p.1.0,
        Err(_) => None,
    }
}

/// A URL under the chat site must have exactly the chat host (so that
/// `https://chat.qwen.ai.evil.com` is refused); any other URL must belong to
/// the sign-in flow.
pub open spec fn allowed(url: Seq<char>) -> bool {
    if starts_with(url, MAIN_URL@) {
        parsed_host(url) == Some("chat.qwen.ai"@)
    } else {
        auth_url(url)
    }
}

/// The preview host or one of its subdomains.
pub open spec fn preview_host(host: Seq<char>) -> bool {
    host == "qwenlm.io"@ || ends_with(host, ".qwenlm.io"@)
}

/// `url` parses and its host is a preview host.
pub open spec fn preview(url: Seq<char>) -> bool {
    match parsed_host(url) {
        Some(h) => preview_host(h),
        None => false,
    }
}

/// `url` has one of the schemes that never leave the page.
pub open spec fn local_scheme(url: Seq<char>) -> bool {
    starts_with(url, "about:"@) || starts_with(url, "data:"@) || starts_with(url, "blob:"@)
}

/// A preview window may load allowed URLs, preview URLs and local schemes.
pub open spec fn inline_allowed(url: Seq<char>) -> bool {
    allowed(url) || preview(url) || local_scheme(url)
}

/// `url` is a web address (`http://` or `https://`).
pub open spec fn web_url(url: Seq<char>) -> bool {
    starts_with(url, "http://"@) || starts_with(url, "https://"@)
}

/// Whether the parsed URL's host is exactly the chat host.
pub fn is_main_host(parts: &UrlParts) -> (b: bool)
    ensures
        b == (parts_view(*parts).0 == Some("chat.qwen.ai"@)),
{
    match &parts.host {
        Some(h) => {
            let hc = chars_of(h.as_str());
            let r = chars_eq(&hc, &chars_of("chat.qwen.ai"));
            proof {
                if r {
                    assert(h@ =~= "chat.qwen.ai"@);
                }
            }
            r
        },
        None => false,
    }
}

/// Whether `url` may load in a chat window.
pub fn is_allowed(url: &str) -> (b: bool)
    ensures
        b == allowed(url@),
{
    let uc = chars_of(url);
    if starts_with_exec(&uc, &chars_of(MAIN_URL)) {
        return match parse_url(url) {
            Ok(p) => is_main_host(&p),
            Err(_) => false,
        };
    }
    is_auth_url(url)
}

/// Whether `host` is the preview host or one of its subdomains.
pub fn is_preview_host(host: &str) -> (b: bool)
    ensures
        b == preview_host(host@),
{
    let hc = chars_of(host);
    chars_eq(&hc, &chars_of("qwenlm.io")) || ends_with_exec(&hc, &chars_of(".qwenlm.io"))
}

/// Whether `url` points at a generated preview.
pub fn is_preview_url(url: &str) -> (b: bool)
    ensures
        b == preview(url@),
{
    match parse_url(url) {
        Ok(p) => match &p.host {
            Some(h) => is_preview_host(h.as_str()),
            None => false,
        },
        Err(_) => false,
    }
}

/// Whether a preview window may follow a navigation to `url`.
pub fn should_allow_inline(url: &str) -> (b: bool)
    ensures
        b == inline_allowed(url@),
{
    if is_allowed(url) || is_preview_url(url) {
        return true;
    }
    let uc = chars_of(url);
    starts_with_exec(&uc, &chars_of("about:")) || starts_with_exec(&uc, &chars_of("data:"))
        || starts_with_exec(&uc, &chars_of("blob:"))
}

/// What a chat window does when a page tries to navigate.
#[derive(Debug, Clone, Copy, PartialEq, Eq, Structural)]
pub enum NavigationAction {
    /// Load it in the window.
    Allow,
    /// Refuse it here and hand it to the system browser.
    OpenExternally,
    /// Refuse it.
    Block,
}

/// The navigation rule of chat windows: allowed URLs load, other web URLs
/// open in the browser, everything else is refused.
pub open spec fn navigation_for(url: Seq<char>) -> NavigationAction {
    if allowed(url) {
        NavigationAction::Allow
    } else if web_url(url) {
        NavigationAction::OpenExternally
    } else {
        NavigationAction::Block
    }
}

/// Decides a navigation of a chat window.
pub fn window_navigation(url: &str) -> (a: NavigationAction)
    ensures
        a == navigation_for(url@),
{
    if is_allowed(url) {
        return NavigationAction::Allow;
    }
    let uc = chars_of(url);
    if starts_with_exec(&uc, &chars_of("http://")) || starts_with_exec(&uc, &chars_of("https://")) {
        NavigationAction::OpenExternally
    } else {
        NavigationAction::Block
    }
}

/// Where a link that the page asks to open externally goes.
#[derive(Debug, Clone, Copy, PartialEq, Eq, Structural)]
pub enum LinkRoute {
    /// Not a web link with a host: nothing is opened.
    Ignore,
    /// A sign-in link: it loads in the active chat window when there is one,
    /// else in the browser.
    InWindow,
    /// Any other web link: the system browser.
    Browser,
}

/// The route of a web link whose parse gave `parts`.
pub open spec fn route_for(parts: (Option<Seq<char>>, Seq<char>, Option<Seq<char>>, Option<Seq<char>>)) -> LinkRoute {
    if parts.0 is None {
        LinkRoute::Ignore
    } else if auth_parts(parts) {
        LinkRoute::InWindow
    } else {
        LinkRoute::Browser
    }
}

/// The route of a link: non-web links are ignored; a web link that does not
/// parse is an error with the parser's message; otherwise `route_for` of
/// its parts.
pub open spec fn link_route(url: Seq<char>) -> Result<LinkRoute, Seq<char>> {
    if !web_url(url) {
        Ok(LinkRoute::Ignore)
    } else {
        match url_parsed(url) {
            Ok(p) => Ok(route_for(p.1)),
            Err(e) => Err(e),
        }
    }
}

/// The route of a web link, from its parsed parts.
pub fn route_for_parts(parts: &UrlParts) -> (r: LinkRoute)
    ensures
        r == route_for(parts_view(*parts)),
{
    if parts.host.is_none() {
        LinkRoute::Ignore
    } else if auth_parts_allowed(parts) {
        LinkRoute::InWindow
    } else {
        LinkRoute::Browser
    }
}

/// Decides where a link opened from the page goes.
pub fn external_link_route(url: &str) -> (r: Result<LinkRoute, String>)
    ensures
        match (r, link_route(url@)) {
            (Ok(a), Ok(b)) => a == b,
            (Err(e), Err(f)) => e@ == f,
            _ => false,
        },
{
    let uc = chars_of(url);
    if !starts_with_exec(&uc, &chars_of("http://")) && !starts_with_exec(&uc, &chars_of("https://")) {
        return Ok(LinkRoute::Ignore);
    }
    match parse_url(url) {
        Ok(p) => Ok(route_for_parts(&p)),
        Err(e) => Err(e),
    }
}

/// Checks a request to open a preview window: only preview URLs (which
/// parse and have a host) are accepted.
pub fn check_preview_url(url: &str) -> (r: Result<(), String>)
    ensures
        r is Ok == preview(url@),
        r matches Err(e) ==> e@ == "URL is not a preview URL"@,
{
    if !is_preview_url(url) {
        return Err("URL is not a preview URL".to_owned());
    }
    Ok(())
}

/// The label of the `n`-th preview window.
pub open spec fn preview_label_text(n: u32) -> Seq<char> {
    "preview-"@ + crate::profile::manager::decimal(n as nat)
}

/// The label of the `n`-th preview window.
pub fn preview_label(n: u32) -> (r: String)
    ensures
        r@ == preview_label_text(n),
{
    let mut r = "preview-".to_owned();
    crate::text::push_chars(&mut r, &crate::profile::manager::decimal_exec(n as u128));
    r
}

/// Every URL that a chat window may load may also load in a preview window.
pub proof fn law_allowed_loads_inline(url: Seq<char>)
    requires
        allowed(url),
    ensures
        inline_allowed(url),
{
}

/// A URL that a chat window loads outside the chat site belongs to the
/// sign-in flow, so its host is one of the sign-in hosts.
pub proof fn law_allowed_off_site_is_sign_in(url: Seq<char>)
    requires
        allowed(url),
        !starts_with(url, MAIN_URL@),
    ensures
        auth_url(url),
        parsed_host(url) is Some,
        crate::auth::domains::host_allowed(parsed_host(url)->0),
{
}

/// A chat window loads what it allows; every other `http://` or `https://`
/// link goes to the system browser, and anything else (`javascript:`,
/// `file:`, `data:` ...) is refused without opening anything.
pub proof fn law_navigation_routes(url: Seq<char>)
    ensures
        allowed(url) ==> navigation_for(url) == NavigationAction::Allow,
        !allowed(url) && (starts_with(url, "http://"@) || starts_with(url, "https://"@)) ==> navigation_for(url)
            == NavigationAction::OpenExternally,
        !allowed(url) && !starts_with(url, "http://"@) && !starts_with(url, "https://"@) ==> navigation_for(url)
            == NavigationAction::Block,
{
}

} // verus!
