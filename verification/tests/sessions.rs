use qwen_studio_linux::profile::session::{
    collect_storage, local_storage_from_page, local_storage_script, restore_local_storage_js, same_site_from_i32,
    same_site_to_i32, SameSite, Session,
};

#[test]
fn same_site_numbers() {
    assert_eq!(same_site_from_i32(1), SameSite::Lax);
    assert_eq!(same_site_from_i32(2), SameSite::Strict);
    assert_eq!(same_site_from_i32(0), SameSite::Unrestricted);
    assert_eq!(same_site_from_i32(7), SameSite::Unrestricted);
    for p in [SameSite::Unrestricted, SameSite::Lax, SameSite::Strict] {
        assert_eq!(same_site_from_i32(same_site_to_i32(p)), p);
    }
}

#[test]
fn restore_script() {
    assert_eq!(
        local_storage_script("[]"),
        "(function(){var __items=[];for(var i=0;i<__items.length;i++){try{localStorage.setItem(__items[i][0],__items[i][1]);}catch(e){}}})();"
    );
    let s = Session { cookies: Vec::new(), local_storage: vec![("k".to_string(), "v\"1".to_string())] };
    let js = restore_local_storage_js(&s);
    assert!(js.starts_with("(function(){var __items=[[\"k\",\"v\\\"1\"]];"));
    assert_eq!(restore_local_storage_js(&Session::default()), local_storage_script("[]"));
}

#[test]
fn storage_collection() {
    let pairs = vec![
        ("a".to_string(), "1".to_string()),
        ("b".to_string(), "2".to_string()),
        ("a".to_string(), "3".to_string()),
    ];
    let mut r = collect_storage(pairs);
    r.sort();
    assert_eq!(r, vec![("a".to_string(), "3".to_string()), ("b".to_string(), "2".to_string())]);
}

#[test]
fn storage_from_page() {
    let mut r = local_storage_from_page(Some("[[\"x\",\"1\"],[\"y\",\"2\"]]"));
    r.sort();
    assert_eq!(r, vec![("x".to_string(), "1".to_string()), ("y".to_string(), "2".to_string())]);
    assert!(local_storage_from_page(Some("{\"x\":1}")).is_empty());
    assert!(local_storage_from_page(None).is_empty());
}
