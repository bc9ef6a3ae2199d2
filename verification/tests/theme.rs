use rune_editor::theme::{
    builtin_themes, current_after_load, generate_theme_css, validate_theme, DefaultThemeProvider,
    Theme, ThemeChangeType,
};

#[test]
fn new_theme_defaults() {
    let theme = Theme::new("x".to_string(), "body {}".to_string());
    assert_eq!(theme.info.name, "x");
    assert_eq!(theme.info.display_name, "x");
    assert_eq!(theme.info.author, "Unknown");
    assert_eq!(theme.info.version, "1.0.0");
    assert!(theme.variables.is_empty());
    assert!(theme.assets.is_empty());
    assert_eq!(theme.mermaid_theme, None);
}

#[test]
fn variables_and_assets_are_set_in_place() {
    let mut theme = Theme::new("x".to_string(), String::new());
    theme.set_variable("a".to_string(), "1".to_string());
    theme.set_variable("b".to_string(), "2".to_string());
    theme.set_variable("a".to_string(), "3".to_string());
    assert_eq!(theme.get_variable("a"), Some(&"3".to_string()));
    assert_eq!(theme.get_variable("b"), Some(&"2".to_string()));
    assert_eq!(theme.get_variable("c"), None);
    assert_eq!(theme.variables.len(), 2);
    theme.add_asset("logo".to_string(), vec![1, 2]);
    theme.add_asset("logo".to_string(), vec![3]);
    assert_eq!(theme.get_asset("logo"), Some(&vec![3u8]));
    assert_eq!(theme.get_asset("none"), None);
}

#[test]
fn validation_reports_errors_and_warnings() {
    let mut theme = Theme::new(String::new(), String::new());
    theme.info.version = "1".to_string();
    let result = validate_theme(&theme);
    assert!(!result.is_valid);
    assert_eq!(
        result.errors,
        vec!["Theme name cannot be empty".to_string(), "Theme CSS cannot be empty".to_string()]
    );
    assert_eq!(result.warnings.len(), 6);
    assert_eq!(result.warnings[0], "Missing recommended CSS variable: --bg-color");
    assert_eq!(
        result.warnings[5],
        "Version should follow semantic versioning (e.g., 1.0.0)"
    );
    let ok = Theme::new("light".to_string(), generate_theme_css("light").unwrap());
    let result = validate_theme(&ok);
    assert!(result.is_valid);
    assert!(result.errors.is_empty());
    assert!(result.warnings.is_empty());
}

#[test]
fn builtin_themes_and_css() {
    let themes = builtin_themes();
    let names: Vec<&str> = themes.iter().map(|t| t.info.name.as_str()).collect();
    assert_eq!(
        names,
        vec!["light", "dark", "catppuccin-latte", "catppuccin-macchiato", "catppuccin-mocha"]
    );
    let mocha = &themes[4];
    assert_eq!(mocha.info.display_name, "Catppuccin Mocha");
    assert_eq!(mocha.info.description, "Catppuccin Mocha theme for markdown preview");
    assert_eq!(mocha.info.author, "Rune");
    assert_eq!(mocha.info.icon.as_deref(), Some("🐱"));
    assert!(mocha.info.is_dark);
    assert_eq!(mocha.mermaid_theme.as_deref(), Some("dark"));
    assert_eq!(themes[0].mermaid_theme.as_deref(), Some("default"));
    assert_eq!(mocha.css, generate_theme_css("catppuccin-mocha").unwrap());
    assert!(mocha.css.contains("--bg-color: #1e1e2e;"));
    assert_eq!(generate_theme_css("neon"), Err("Unknown theme: neon".to_string()));
    assert_eq!(current_after_load(None, 5), Some("catppuccin-mocha".to_string()));
    assert_eq!(current_after_load(None, 0), None);
    assert_eq!(current_after_load(Some("dark".to_string()), 5), Some("dark".to_string()));
}

#[test]
fn provider_loads_builtins_and_switches_themes() {
    let mut p = DefaultThemeProvider::new();
    assert!(p.get_current_theme().is_none());
    assert!(p.available_themes().is_empty());
    p.load_builtin_themes();
    assert_eq!(p.get_current_theme().map(|s| s.as_str()), Some("catppuccin-mocha"));
    let names = p.available_themes();
    assert_eq!(names.len(), 5);
    assert!(names.contains(&"light".to_string()));
    assert_eq!(p.load_theme("dark").unwrap().info.name, "dark");
    assert_eq!(p.load_theme("neon").err(), Some("Theme not found: neon".to_string()));

    let ev = p.set_current_theme("light").unwrap();
    assert_eq!(ev.event_type, ThemeChangeType::ThemeActivated);
    assert_eq!(ev.theme_name, "light");
    assert_eq!(p.get_current_theme().map(|s| s.as_str()), Some("light"));
    assert_eq!(p.set_current_theme("neon").err(), Some("Theme not found: neon".to_string()));
    assert_eq!(p.get_current_theme().map(|s| s.as_str()), Some("light"));
}

#[test]
fn provider_replaces_a_theme_of_the_same_name() {
    let mut p = DefaultThemeProvider::new();
    p.add_theme(Theme::new("custom".to_string(), "a{}".to_string()));
    p.add_theme(Theme::new("other".to_string(), "b{}".to_string()));
    p.add_theme(Theme::new("custom".to_string(), "c{}".to_string()));
    assert_eq!(p.available_themes(), vec!["custom".to_string(), "other".to_string()]);
    assert_eq!(p.load_theme("custom").unwrap().css, "c{}");
    // Loading the built-ins keeps a current theme that was already chosen.
    p.set_current_theme("other").unwrap();
    p.load_builtin_themes();
    assert_eq!(p.get_current_theme().map(|s| s.as_str()), Some("other"));
}
