use qwen_studio_linux::ipc::download::{extension_from_mime, prepare_download};
use qwen_studio_linux::ipc::drop::mime_for_path;
use qwen_studio_linux::ipc::settings::write_setting;
use qwen_studio_linux::mcp::pending::{reply_delivery, BridgeReply, Delivery, PendingRequests};
use qwen_studio_linux::platform::layout::{app_menu, tray_menu, MenuEntry, StandardItem, TrayEntry};
use qwen_studio_linux::profile::Profile;
use qwen_studio_linux::windows::WindowCounter;

fn profile(id: &str, name: &str) -> Profile {
    Profile { id: id.to_string(), name: name.to_string(), category: None, icon: None }
}

fn item(id: &str, label: &str) -> MenuEntry {
    MenuEntry::Item(id.to_string(), label.to_string())
}

#[test]
fn application_menu_layout() {
    let m = app_menu(&[profile("work", "Work"), profile("home", "Home")]);
    let titles: Vec<&str> = m.iter().map(|(t, _)| t.as_str()).collect();
    assert_eq!(titles, vec!["File", "Edit", "View", "Window", "Perfils", "Help"]);
    assert_eq!(m[0].1, vec![item("minimize", "Minimize"), item("maximize", "Maximize"), MenuEntry::Separator, item("quit", "Quit")]);
    assert_eq!(
        m[1].1[6],
        MenuEntry::Shortcut("paste-image".to_string(), "Paste Image".to_string(), "CmdOrCtrl+Shift+V".to_string())
    );
    assert_eq!(m[1].1[7], MenuEntry::Standard(StandardItem::SelectAll));
    assert_eq!(m[3].1, vec![item("new_window", "New Window"), MenuEntry::Standard(StandardItem::Fullscreen)]);
    assert_eq!(
        m[4].1[2],
        MenuEntry::Submenu(
            "Abrir perfil".to_string(),
            vec![
                ("open-profile:work".to_string(), "Work".to_string()),
                ("open-profile:home".to_string(), "Home".to_string()),
            ]
        )
    );
    assert_eq!(
        m[4].1[4],
        MenuEntry::Submenu("Criar novo Perfil".to_string(), vec![("create_profile".to_string(), "Criar perfil".to_string())])
    );
    assert_eq!(m[5].1[3], item("check_updates", "Check for Updates"));
}

#[test]
fn tray_menu_layout() {
    let t = tray_menu(&[profile("a", "A")]);
    assert_eq!(t.len(), 4);
    assert_eq!(t[0], TrayEntry::Item("new_window".to_string(), "New Window".to_string()));
    match &t[1] {
        TrayEntry::Group(label, entries) => {
            assert_eq!(label, "Perfils");
            assert_eq!(entries.len(), 5);
            assert_eq!(entries[4], item("create_profile", "Criar perfil"));
            assert_eq!(
                entries[2],
                MenuEntry::Submenu("Abrir perfil".to_string(), vec![("open-profile:a".to_string(), "A".to_string())])
            );
        }
        other => panic!("unexpected {:?}", other),
    }
    assert_eq!(t[3], TrayEntry::Item("quit".to_string(), "Quit".to_string()));
}

#[test]
fn new_window_labels_count_up() {
    let mut c = WindowCounter::new();
    assert_eq!(c.next_label(), "window-1");
    assert_eq!(c.next_label(), "window-2");
    assert_eq!(c.next_label(), "window-3");
}

#[test]
fn request_ids_count_up() {
    let mut p: PendingRequests<u32> = PendingRequests::new();
    for k in 0..50u64 {
        assert_eq!(p.register(0), k);
    }
}

#[test]
fn bridge_answers() {
    let mut p: PendingRequests<&str> = PendingRequests::new();
    let a = p.register("a");
    let b = p.register("b");
    let c = p.register("c");
    let r = p.answer(BridgeReply { id: Some(a), result: Some(7), error: Some(Some("ignored".to_string())) });
    assert_eq!(r.map(|(w, d)| (w, matches!(d, Delivery::Value(7)))), Some(("a", true)));
    let r = p.answer(BridgeReply::<i32> { id: Some(b), result: None, error: Some(None) });
    match r {
        Some(("b", Delivery::Failure(t))) => assert_eq!(t, "unknown"),
        _ => panic!("expected a failure for b"),
    }
    let r = p.answer(BridgeReply::<i32> { id: Some(c), result: None, error: Some(Some("boom".to_string())) });
    match r {
        Some(("c", Delivery::Failure(t))) => assert_eq!(t, "boom"),
        _ => panic!("expected a failure for c"),
    }
    assert!(p.answer(BridgeReply::<i32> { id: Some(a), result: Some(1), error: None }).is_none());
    let d = p.register("d");
    assert!(p.answer(BridgeReply::<i32> { id: None, result: Some(1), error: None }).is_none());
    assert_eq!(p.len(), 1);
    assert!(matches!(p.answer(BridgeReply::<i32> { id: Some(d), result: None, error: None }), Some(("d", Delivery::Nothing))));
    assert!(matches!(reply_delivery::<i32>(None, None), Delivery::Nothing));
}

#[test]
fn settings_writes() {
    let stored = Some(vec![("theme".to_string(), 1), ("zoom".to_string(), 2)]);
    let r = write_setting(stored.clone(), "zoom".to_string(), "3", 3).unwrap().unwrap();
    assert_eq!(r, vec![("theme".to_string(), 1), ("zoom".to_string(), 3)]);
    let r = write_setting(stored.clone(), "language".to_string(), "4", 4).unwrap().unwrap();
    assert_eq!(r, vec![("theme".to_string(), 1), ("zoom".to_string(), 2), ("language".to_string(), 4)]);
    assert_eq!(write_setting::<i32>(None, "theme".to_string(), "1", 1), Ok(None));
    assert_eq!(
        write_setting(stored.clone(), "mcpServers".to_string(), "{}", 0),
        Err("Use mcp_client_update_config for MCP servers".to_string())
    );
    assert_eq!(write_setting(stored.clone(), String::new(), "1", 0), Err("Invalid key".to_string()));
    assert_eq!(write_setting(stored, "big".to_string(), &"x".repeat(1048577), 0), Err("Value too large".to_string()));
}

#[test]
fn mime_extensions_round_trip() {
    let mimes = [
        "image/png", "image/jpeg", "image/jpg", "image/gif", "image/webp", "image/svg+xml", "application/pdf",
        "text/plain", "text/csv", "text/markdown", "text/x-markdown", "text/html", "application/json",
        "application/zip", "application/x-zip-compressed", "application/msword", "application/vnd.ms-excel",
        "TEXT/PLAIN; charset=utf-8",
    ];
    for m in mimes {
        let e = extension_from_mime(m).unwrap();
        assert_eq!(extension_from_mime(&mime_for_path(&format!("f.{}", e))), Some(e));
    }
}

#[test]
fn save_dialog_plan() {
    let p = prepare_download("report", Some("image/png"), "aGk=").unwrap();
    assert_eq!(p.title, "Salvar arquivo");
    assert_eq!(p.filters[0], ("Imagem".to_string(), vec!["png".to_string()]));
    assert_eq!(p.filters[1], ("Todos os arquivos".to_string(), vec!["*".to_string()]));
}
