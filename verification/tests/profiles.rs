use qwen_studio_linux::platform::menu::{menu_command, profile_menu_items, tray_command, MenuCommand, TrayCommand};
use qwen_studio_linux::profile::manager::{create, delete, list_categories, make_unique_id, rename, reorder, update_profile};
use qwen_studio_linux::profile::paths::{data_dir_for, profiles_file, profiles_root, session_file};
use qwen_studio_linux::profile::Profile;

fn p(id: &str, name: &str, category: Option<&str>) -> Profile {
    Profile { id: id.to_string(), name: name.to_string(), category: category.map(|c| c.to_string()), icon: None }
}

#[test]
fn unique_ids_from_names() {
    assert_eq!(make_unique_id("My Work!", &[]), "my-work");
    assert_eq!(make_unique_id("  ", &[]), "profile");
    let existing = vec![p("my-work", "x", None), p("my-work-2", "y", None)];
    assert_eq!(make_unique_id("My Work", &existing), "my-work-3");
}

#[test]
fn create_trims_and_rejects() {
    let mut ps: Vec<Profile> = Vec::new();
    let made = create(&mut ps, "  Work  ", Some(" dev "), Some("  ")).unwrap();
    assert_eq!(made.id, "work");
    assert_eq!(made.name, "Work");
    assert_eq!(made.category, Some("dev".to_string()));
    assert_eq!(made.icon, None);
    assert_eq!(ps.len(), 1);
    assert_eq!(create(&mut ps, "   ", None, None), Err("Profile name cannot be empty".to_string()));
    assert_eq!(create(&mut ps, "WORK", None, None), Err("A profile with this name already exists".to_string()));
    assert_eq!(ps.len(), 1);
}

#[test]
fn rename_rules() {
    let mut ps = vec![p("a", "Alpha", None), p("b", "Beta", None)];
    assert_eq!(rename(&mut ps, "a", "beta"), Err("A profile with this name already exists".to_string()));
    assert_eq!(rename(&mut ps, "zz", "New"), Err("Profile not found".to_string()));
    assert_eq!(rename(&mut ps, "a", " "), Err("Profile name cannot be empty".to_string()));
    assert_eq!(rename(&mut ps, "a", " ALPHA "), Ok(()));
    assert_eq!(ps[0].name, "ALPHA");
}

#[test]
fn update_sets_only_given_fields() {
    let mut ps = vec![p("a", "Alpha", Some("x")), p("b", "Beta", None)];
    let r = update_profile(&mut ps, "a", None, Some(""), Some(" ic ")).unwrap();
    assert_eq!(r.name, "Alpha");
    assert_eq!(r.category, None);
    assert_eq!(r.icon, Some("ic".to_string()));
    assert_eq!(update_profile(&mut ps, "q", None, None, None), Err("Profile not found".to_string()));
    assert_eq!(update_profile(&mut ps, "b", Some("alpha"), None, None), Err("A profile with this name already exists".to_string()));
}

#[test]
fn create_then_delete_restores_the_list() {
    let mut ps = vec![p("a", "Alpha", None)];
    let before = ps.clone();
    let made = create(&mut ps, "Beta", None, None).unwrap();
    assert_eq!(delete(&mut ps, &made.id), Ok(()));
    assert_eq!(ps, before);
    assert_eq!(delete(&mut ps, "nope"), Err("Profile not found".to_string()));
}

#[test]
fn reorder_follows_the_given_order() {
    let mut ps = vec![p("a", "A", None), p("b", "B", None), p("c", "C", None)];
    let order = vec!["c".to_string(), "a".to_string(), "b".to_string()];
    assert_eq!(reorder(&mut ps, &order), Ok(()));
    let ids: Vec<&str> = ps.iter().map(|x| x.id.as_str()).collect();
    assert_eq!(ids, vec!["c", "a", "b"]);
    assert_eq!(reorder(&mut ps, &["x".to_string()]), Err("Profile not found: x".to_string()));
    assert_eq!(reorder(&mut ps, &["a".to_string()]), Err("Invalid reorder: length mismatch".to_string()));
}

#[test]
fn categories_sorted_and_distinct() {
    let ps = vec![p("a", "A", Some("work")), p("b", "B", Some("home")), p("c", "C", Some("work")), p("d", "D", None)];
    assert_eq!(list_categories(&ps), vec!["home".to_string(), "work".to_string()]);
}

#[test]
fn profile_paths() {
    assert_eq!(profiles_root("/home/u/.config/qwen-studio-linux"), "/home/u/.config/qwen-studio-linux/profiles");
    assert_eq!(profiles_file("/c/"), "/c/profiles/profiles.json");
    assert_eq!(data_dir_for("/c", "work"), "/c/profiles/work");
    assert_eq!(session_file("/c", "work"), "/c/profiles/work.session.json");
    assert_ne!(data_dir_for("/c", "a"), data_dir_for("/c", "b"));
}

#[test]
fn profile_entries_open_their_profile() {
    let ps = vec![p("work", "Work", None)];
    let items = profile_menu_items(&ps);
    assert_eq!(items, vec![("open-profile:work".to_string(), "Work".to_string())]);
    assert_eq!(menu_command(&items[0].0), MenuCommand::OpenProfile("work".to_string()));
    assert_eq!(tray_command(&items[0].0), TrayCommand::OpenProfile("work".to_string()));
}

#[test]
fn generated_ids_are_plain() {
    let id = make_unique_id("../x: Ünïcode/y", &[]);
    assert!(id.chars().all(|c| c.is_ascii_alphanumeric() || c == '-'));
    assert_eq!(data_dir_for("/c", &id), format!("/c/profiles/{}", id));
    let entry = format!("open-profile:{}", id);
    assert_eq!(menu_command(&entry), MenuCommand::OpenProfile(id.clone()));
}
