use qwen_studio_linux::config::defaults::{mcp_servers_for, normalize_args, normalize_mcp_for};
use qwen_studio_linux::config::paths::{app_dir_for, config_dir, crash_log_dir, data_dir, join_path, settings_file};
use qwen_studio_linux::config::schema::{default_true, GeneralSettings, McpServerConfig, Settings};
use qwen_studio_linux::mcp::config::{load_config, load_config_for};
use qwen_studio_linux::mcp::validate::{merge_mcp_update_for, validate_mcp_config};

fn strings(v: &[&str]) -> Vec<String> {
    v.iter().map(|s| s.to_string()).collect()
}

fn server(command: &str, args: &[&str]) -> McpServerConfig {
    McpServerConfig { command: command.to_string(), args: strings(args), ..Default::default() }
}

#[test]
fn settings_location() {
    assert_eq!(settings_file("/home/u/.config/qwen-studio-linux"), "/home/u/.config/qwen-studio-linux/settings.json");
    assert_eq!(join_path("", "a"), "a");
    assert_eq!(join_path("/x/", "a"), "/x/a");
    assert_eq!(join_path("/x", "/abs"), "/abs");
}

#[test]
fn defaults() {
    assert!(default_true());
    let g = GeneralSettings::default();
    assert!(!g.check_updates);
    assert_eq!(g.theme, "");
    let s = Settings::default();
    assert!(s.mcp_servers.is_empty());
}

#[test]
fn built_in_servers() {
    let v = mcp_servers_for("/home/u");
    let names: Vec<&str> = v.iter().map(|e| e.0.as_str()).collect();
    assert_eq!(names, vec!["qwen-core", "Filesystem", "Sequential-Thinking"]);
    assert_eq!(v[0].1.args, strings(&["-y", "qwen-core"]));
    assert_eq!(v[0].1.source, Some("official".to_string()));
    assert_eq!(v[0].1.from, Some("builtin".to_string()));
    assert_eq!(
        v[1].1.args,
        strings(&["-y", "@modelcontextprotocol/server-filesystem", "/home/u/Documents", "/home/u/Projects", "/tmp"])
    );
    assert_eq!(v[2].1.transport_type, Some("stdio".to_string()));
    assert!(!v[2].1.disabled);
}

#[test]
fn filesystem_args_repaired() {
    let args = strings(&["-y", "pkg", "/Users/bob/x", "/Users"]);
    assert_eq!(normalize_args(&args, "/home/u"), strings(&["-y", "pkg", "/home/u", "/home/u"]));
    let no_safe = strings(&["-y", "pkg", "/opt/data"]);
    assert_eq!(normalize_args(&no_safe, "/home/u"), strings(&["-y", "pkg", "/opt/data", "/home/u/Documents"]));
    let once = normalize_args(&no_safe, "/home/u");
    assert_eq!(normalize_args(&once, "/home/u"), once);
}

#[test]
fn only_filesystem_is_repaired() {
    let cfg = vec![
        ("Other".to_string(), server("npx", &["/Users/x"])),
        ("Filesystem".to_string(), server("npx", &["/Users/x"])),
    ];
    let r = normalize_mcp_for(cfg, "/home/u");
    assert_eq!(r[0].1.args, strings(&["/Users/x"]));
    assert_eq!(r[1].1.args, strings(&["/home/u"]));
}

#[test]
fn bridge_config() {
    let r = load_config_for(Vec::new(), "/h").unwrap();
    assert_eq!(r.len(), 3);
    let stored = vec![("A".to_string(), server("node", &["a.js"]))];
    let r = load_config_for(stored.clone(), "/h").unwrap();
    assert_eq!(r, stored);
    assert!(load_config(Vec::new()).is_ok());
}

#[test]
fn server_list_checks() {
    assert_eq!(validate_mcp_config(&vec![("ok".to_string(), server("npx", &["-y"]))]), Ok(()));
    assert_eq!(validate_mcp_config(&vec![("/bad".to_string(), server("npx", &[]))]), Err("Invalid server name characters: /bad".to_string()));
    assert_eq!(validate_mcp_config(&vec![("".to_string(), server("npx", &[]))]), Err("Invalid server name: ".to_string()));
    assert_eq!(validate_mcp_config(&vec![("a".to_string(), server("", &[]))]), Err("Invalid command for a".to_string()));
    assert_eq!(
        validate_mcp_config(&vec![("a".to_string(), server("rm", &[]))]),
        Err("Command 'rm' not allowed for a (allowed: npx, node, nodejs, python3, python, uvx, bunx, deno or absolute path)".to_string())
    );
    assert_eq!(validate_mcp_config(&vec![("a".to_string(), server("/usr/bin/x", &["a\0b"]))]), Err("Invalid arg for a".to_string()));
    let long = "x".repeat(1025);
    assert_eq!(validate_mcp_config(&vec![("a".to_string(), server("./x", &[long.as_str()]))]), Err("Arg too long for a".to_string()));
    let many: Vec<&str> = vec!["x"; 65];
    assert_eq!(validate_mcp_config(&vec![("a".to_string(), server("npx", &many))]), Err("Too many args for a".to_string()));
    let mut with_url = server("npx", &[]);
    with_url.url = Some("ftp://x".to_string());
    assert_eq!(validate_mcp_config(&vec![("a".to_string(), with_url.clone())]), Err("URL must be http(s) for a".to_string()));
    with_url.url = Some(format!("http://{}", "x".repeat(2050)));
    assert_eq!(validate_mcp_config(&vec![("a".to_string(), with_url)]), Err("URL too long for a".to_string()));
    let lots: Vec<(String, McpServerConfig)> = (0..33).map(|i| (format!("s{}", i), server("npx", &[]))).collect();
    assert_eq!(validate_mcp_config(&lots), Err("Too many servers: 33".to_string()));
}

#[test]
fn stored_update() {
    let r = merge_mcp_update_for(Vec::new(), "/h");
    assert_eq!(r.len(), 1);
    assert_eq!(r[0].0, "qwen-core");
    let cfg = vec![("Filesystem".to_string(), server("npx", &["/opt"]))];
    let r = merge_mcp_update_for(cfg, "/h");
    assert_eq!(r.len(), 1);
    assert_eq!(r[0].1.args, strings(&["/opt", "/h/Documents"]));
}

#[test]
fn application_directories() {
    assert_eq!(app_dir_for(Some("/home/u/.config")), "/home/u/.config/qwen-studio-linux");
    assert_eq!(app_dir_for(None), "./qwen-studio-linux");
    assert_eq!(crash_log_dir("/home/u/.local/share/qwen-studio-linux"), "/home/u/.local/share/qwen-studio-linux/crash-logs");
    assert!(config_dir().ends_with("/qwen-studio-linux"));
    assert!(data_dir().ends_with("/qwen-studio-linux"));
}

#[test]
fn removals_are_respected() {
    let r = normalize_args(&strings(&["-y", "pkg", "/opt/data"]), "/home/u");
    assert!(!r.contains(&"/home/u".to_string()));
    let cfg = vec![("Sequential-Thinking".to_string(), server("npx", &["-y", "x"]))];
    let stored = merge_mcp_update_for(cfg, "/h");
    assert!(stored.iter().all(|(name, _)| name != "qwen-core"));
}
