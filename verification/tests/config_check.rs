use rune_editor::config_check::{validate_plugin_configs, ConfigFacts, PluginFacts};

fn plugin(name: &str, deps: &[&str], enabled: bool, check_error: Option<&str>) -> PluginFacts {
    PluginFacts {
        name: name.to_string(),
        dependencies: deps.iter().map(|d| d.to_string()).collect(),
        enabled,
        check_error: check_error.map(|e| e.to_string()),
    }
}

#[test]
fn server_settings_stop_the_check() {
    let r = validate_plugin_configs(&ConfigFacts {
        hostname: "localhost".to_string(),
        port: 0,
        plugins: vec![plugin("a", &["missing"], true, None)],
    });
    assert_eq!(r.server_error.as_deref(), Some("Port cannot be 0"));
    assert!(r.dependency_errors.is_empty());
    assert!(!r.is_valid());
    let r = validate_plugin_configs(&ConfigFacts { hostname: String::new(), port: 80, plugins: vec![] });
    assert_eq!(r.server_error.as_deref(), Some("Hostname is required"));
}

#[test]
fn plugins_are_checked_in_order() {
    let r = validate_plugin_configs(&ConfigFacts {
        hostname: "127.0.0.1".to_string(),
        port: 3000,
        plugins: vec![
            plugin("editor", &["editor", "renderer"], true, None),
            plugin("renderer", &[], false, None),
            plugin("theme", &[], true, Some("bad settings")),
            plugin("server", &["theme"], true, None),
        ],
    });
    assert_eq!(r.server_error, None);
    assert_eq!(r.plugin_errors, vec!["Plugin 'theme': bad settings".to_string()]);
    assert_eq!(
        r.warnings,
        vec![
            "Plugin 'editor' has circular dependency on itself".to_string(),
            "Plugin 'renderer' is disabled".to_string(),
        ]
    );
    assert_eq!(
        r.dependency_errors,
        vec!["Plugin 'editor' depends on 'renderer' which is not enabled".to_string()]
    );
    assert!(!r.is_valid());
}

#[test]
fn a_sound_configuration_passes_with_warnings() {
    let r = validate_plugin_configs(&ConfigFacts {
        hostname: "127.0.0.1".to_string(),
        port: 3000,
        plugins: vec![plugin("a", &[], true, None), plugin("b", &["a"], false, None)],
    });
    assert_eq!(r.warnings, vec!["Plugin 'b' is disabled".to_string()]);
    assert!(r.is_valid());
}
