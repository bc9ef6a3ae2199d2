use std::path::PathBuf;

use rune_editor::cli::{
    alternative_ports, bind_address, classify_entry, invalid_hostname_message,
    port_in_use_message, unresolved_hostname_message, Args, EntryKind, FileFacts, PathFacts,
    PluginType,
};

fn args() -> Args {
    Args {
        file: PathBuf::from("README.md"),
        hostname: "127.0.0.1".to_string(),
        port: 3000,
        config_file: None,
        plugins_dir: None,
        dev_mode: false,
        list_plugins: false,
        validate_config: false,
    }
}

fn facts(display: &str, exists: bool, is_dir: bool) -> PathFacts {
    PathFacts { display: display.to_string(), exists, is_dir }
}

fn file(display: &str) -> FileFacts {
    FileFacts { path: facts(display, true, false), open_error: None }
}

#[test]
fn valid_arguments_pass() {
    assert_eq!(args().validate(&file("README.md"), None, None), Ok(()));
    assert_eq!(args().validate(&file("notes.MARKDOWN"), None, None), Ok(()));
}

#[test]
fn missing_file_is_reported() {
    let r = args().validate(&FileFacts { path: facts("gone.md", false, false), open_error: None }, None, None);
    assert_eq!(
        r,
        Err("Markdown file not found: gone.md\n\nPlease check that:\n• The file path is correct\n• You have read permissions for the file\n• The file hasn't been moved or deleted\n\nExample: rune README.md".to_string())
    );
}

#[test]
fn directory_and_unreadable_file_are_reported() {
    let r = args().validate(&FileFacts { path: facts("docs", true, true), open_error: None }, None, None);
    assert_eq!(
        r,
        Err("Path is a directory, not a file: docs\n\nPlease specify a markdown file, not a directory.\n\nExample: rune docs/README.md".to_string())
    );
    let r = args().validate(
        &FileFacts { path: facts("a.md", true, false), open_error: Some("Permission denied".to_string()) },
        None,
        None,
    );
    assert_eq!(
        r,
        Err("Cannot read file: a.md\nError: Permission denied\n\nPlease check that you have read permissions for this file.".to_string())
    );
}

#[test]
fn extensions_are_checked() {
    let r = args().validate(&file("notes.TXT"), None, None);
    assert_eq!(
        r,
        Err("File must be a markdown file (.md or .markdown): notes.TXT\n\nCurrent extension: .txt\n\nSupported extensions:\n• .md\n• .markdown\n\nExample: rune document.md".to_string())
    );
    let r = args().validate(&file("README"), None, None);
    assert_eq!(
        r,
        Err("File must have a markdown extension (.md or .markdown): README\n\nPlease rename your file to include a proper extension.\n\nExample: mv README README.md".to_string())
    );
}

#[test]
fn port_and_hostname_are_checked() {
    let mut a = args();
    a.port = 0;
    let r = a.validate(&file("a.md"), None, None);
    assert!(r.unwrap_err().starts_with("Port number cannot be 0.\n\n"));
    let mut a = args();
    a.hostname = String::new();
    let r = a.validate(&file("a.md"), None, None);
    assert!(r.unwrap_err().starts_with("Hostname cannot be empty.\n\n"));
}

#[test]
fn config_and_plugins_paths_are_checked() {
    let mut a = args();
    a.config_file = Some(PathBuf::from("c.json"));
    let r = a.validate(&file("a.md"), Some(&facts("c.json", false, false)), None);
    assert!(r.unwrap_err().starts_with("Configuration file not found: c.json\n\nPlease check that:"));
    let r = a.validate(&file("a.md"), Some(&facts("conf", true, true)), None);
    assert_eq!(
        r,
        Err("Configuration path is a directory, not a file: conf\n\nPlease specify a JSON configuration file.\n\nExample: rune --config conf/config.json README.md".to_string())
    );
    let mut a = args();
    a.plugins_dir = Some(PathBuf::from("p"));
    assert_eq!(a.validate(&file("a.md"), None, Some(&facts("p", false, false))), Ok(()));
    let r = a.validate(&file("a.md"), None, Some(&facts("p", true, false)));
    assert!(r.unwrap_err().starts_with("Plugins path is not a directory: p\n\n"));
}

#[test]
fn utility_commands_check_only_the_config() {
    let mut a = args();
    a.list_plugins = true;
    let missing = FileFacts { path: facts("", false, false), open_error: None };
    assert_eq!(a.validate(&missing, None, None), Ok(()));
    a.config_file = Some(PathBuf::from("c.json"));
    let r = a.validate(&missing, Some(&facts("c.json", false, false)), None);
    assert_eq!(
        r,
        Err("Configuration file not found: c.json\n\nCannot validate a configuration file that doesn't exist.\n\nExample: rune --validate-config --config config.json".to_string())
    );
}

#[test]
fn alternative_ports_skip_the_taken_one() {
    assert_eq!(alternative_ports(3000), vec![3001, 3002, 8000, 8080, 8888]);
    assert_eq!(alternative_ports(8080), vec![3001, 3002, 8000, 8888]);
}

#[test]
fn port_in_use_message_lists_free_ports() {
    let m = port_in_use_message(3000, "127.0.0.1", "README.md", "Address in use", &[3001, 8080]);
    assert_eq!(
        m,
        "Port 3000 is already in use on 127.0.0.1\nError: Address in use\n\nTry one of these available ports:\n  rune -p 3001 127.0.0.1 README.md\n  rune -p 8080 127.0.0.1 README.md\n\nYou can also:\n• Stop the process using port 3000\n• Use 'lsof -i :3000 ' to find what's using the port\n• Choose a different port with -p <port>"
    );
    let m = port_in_use_message(80, "localhost", "a.md", "denied", &[]);
    assert!(m.contains("\n\nTry using a different port number.\n\n"));
}

#[test]
fn hostname_messages() {
    assert_eq!(
        invalid_hostname_message("bad host", "invalid socket address"),
        "Invalid hostname 'bad host': invalid socket address\n\nPlease use a valid hostname or IP address:\n• 127.0.0.1 (localhost)\n• 0.0.0.0 (all interfaces)\n• localhost (local machine)"
    );
    assert_eq!(
        unresolved_hostname_message("nowhere"),
        "Could not resolve hostname: nowhere\n\nPlease check your network configuration and try again."
    );
    assert_eq!(bind_address("0.0.0.0", 8080), "0.0.0.0:8080");
}

#[test]
fn plugin_directory_entries_are_classified() {
    assert_eq!(classify_entry(".git", true, "p/.git"), EntryKind::Hidden);
    assert_eq!(classify_entry("themes", true, "p/themes"), EntryKind::Directory);
    assert_eq!(classify_entry("fast.so", false, "p/fast.so"), EntryKind::Typed(PluginType::Native));
    assert_eq!(classify_entry("fast.dll", false, "p/fast.dll"), EntryKind::Typed(PluginType::Native));
    assert_eq!(classify_entry("tool.py", false, "p/tool.py"), EntryKind::Typed(PluginType::Script));
    assert_eq!(classify_entry("my-plugin.json", false, "p/my-plugin.json"), EntryKind::Manifest);
    assert_eq!(classify_entry("settings.json", false, "p/settings.json"), EntryKind::Unknown);
    assert_eq!(classify_entry("README", false, "p/README"), EntryKind::Unknown);
}
