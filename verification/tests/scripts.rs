use qwen_studio_linux::js::{build_init_script, build_picker_init_script, DEBUG_OFF, DEBUG_ON, PRE_LOAD_SCRIPT};
use qwen_studio_linux::mcp::pending::PendingRequests;

#[test]
fn init_script_modules_in_order() {
    let s = build_init_script(true, "CORE", "PLATFORM", "SETTINGS");
    assert_eq!(s, format!("{}\n\n{}\n\nCORE\n\nPLATFORM\n\nSETTINGS", DEBUG_ON, PRE_LOAD_SCRIPT));
    let r = build_init_script(false, "C", "P", "S");
    assert!(r.starts_with(DEBUG_OFF));
}

#[test]
fn webview_injector_uses_the_same_script() {
    let a = qwen_studio_linux::webview::js_injector::build_init_script(false, "C", "P", "S");
    assert_eq!(a, build_init_script(false, "C", "P", "S"));
}

#[test]
fn picker_script() {
    assert_eq!(build_picker_init_script(false, "CORE"), format!("{}\n\nCORE", DEBUG_OFF));
}

#[test]
fn pending_requests_answered_once() {
    let mut p: PendingRequests<&str> = PendingRequests::new();
    let a = p.register("first");
    let b = p.register("second");
    assert_eq!((a, b), (0, 1));
    assert_eq!(p.len(), 2);
    assert_eq!(p.take(a), Some("first"));
    assert_eq!(p.take(a), None);
    assert_eq!(p.take(99), None);
    let rest = p.drain();
    assert_eq!(rest, vec![(1, "second")]);
    assert_eq!(p.len(), 0);
}
