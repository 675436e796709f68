use herdr_kiosk::config::{
    checked_config, expand_tilde, load_config_with, resolve_config_path, validate_config, Config,
    ConfigWarning, OnOpenPaneConfig, OnOpenPaneDirection, Ratio, SearchDirEntry, ThemeColor,
    ThemeConfig,
};
use herdr_kiosk::path::{PathBuf, PathRules};
use std::collections::HashMap;

fn with_dirs(search_dirs: Vec<SearchDirEntry>) -> Config {
    Config {
        search_dirs,
        ..Config::default()
    }
}

fn simple(path: &str) -> SearchDirEntry {
    SearchDirEntry::Simple(path.into())
}

fn rich(path: &str, depth: Option<u16>) -> SearchDirEntry {
    SearchDirEntry::Rich {
        path: path.into(),
        depth,
        include_non_git: None,
    }
}

fn parse(text: &str) -> Result<(Config, Vec<ConfigWarning>), String> {
    let table: toml::Table = text.parse().map_err(|_| "invalid config TOML".to_string())?;
    let dirs = match table.get("search_dirs") {
        Some(toml::Value::Array(values)) => values
            .iter()
            .map(|value| simple(value.as_str().unwrap()))
            .collect(),
        _ => Vec::new(),
    };
    checked_config(with_dirs(dirs), &Vec::new())
}

#[test]
fn expands_tilde_with_injected_home_and_preserves_depth() {
    let config = with_dirs(vec![
        simple("~"),
        rich("~/Work", Some(4)),
        simple("/absolute"),
    ]);
    let resolved = config
        .resolved_search_dirs_with(Some(&PathBuf::new("/home/tester")), |_: &PathBuf| true, PathRules::Unix)
        .unwrap();
    assert_eq!(
        resolved.dirs,
        [
            (PathBuf::new("/home/tester"), 1),
            (PathBuf::new("/home/tester/Work"), 4),
            (PathBuf::new("/absolute"), 1),
        ]
    );
    assert!(resolved.warnings.is_empty());
}

#[test]
fn missing_home_makes_tilde_expansion_fail_loudly() {
    let config = with_dirs(vec![simple("~/Work")]);
    assert!(config
        .resolved_search_dirs_with(None, |_: &PathBuf| true, PathRules::Unix)
        .is_err());
    assert_eq!(
        expand_tilde("~user", Some(&PathBuf::new("/home/tester")), PathRules::Unix),
        Ok(PathBuf::new("~user"))
    );
}

#[test]
fn missing_search_directories_are_reported_instead_of_silently_dropped() {
    let config = with_dirs(vec![simple("/exists"), simple("/missing")]);
    let resolved = config
        .resolved_search_dirs_with(None, |path: &PathBuf| *path == PathBuf::new("/exists"), PathRules::Unix)
        .unwrap();

    assert_eq!(resolved.dirs, [(PathBuf::new("/exists"), 1)]);
    assert_eq!(resolved.warnings.len(), 1);
    assert!(resolved.warnings[0].message.contains("/missing"));
}

#[test]
fn config_path_uses_documented_precedence() {
    let values = HashMap::from([
        ("HERDR_PLUGIN_CONFIG_DIR", "/tests/plugin-config"),
        ("XDG_CONFIG_HOME", "/tests/xdg"),
        ("HOME", "/tests/home"),
    ]);
    let resolution = resolve_config_path(|name: &str| values.get(name).map(ToString::to_string), PathRules::Unix);
    assert_eq!(
        resolution.path,
        Some(PathBuf::new("/tests/plugin-config/config.toml"))
    );
}

#[test]
fn relative_config_fallbacks_are_refused() {
    let values = HashMap::from([
        ("HERDR_PLUGIN_CONFIG_DIR", "plugin-config"),
        ("XDG_CONFIG_HOME", ".config"),
        ("HOME", "relative-home"),
    ]);
    let resolution = resolve_config_path(|name: &str| values.get(name).map(ToString::to_string), PathRules::Unix);
    assert!(resolution.path.is_none());
    assert_eq!(resolution.warnings.len(), 3);
    assert!(resolution
        .warnings
        .iter()
        .all(|warning| warning.message.contains("refusing relative")));
}

#[test]
fn relative_higher_priority_value_falls_through_to_absolute_xdg() {
    let values = HashMap::from([
        ("HERDR_PLUGIN_CONFIG_DIR", "plugin-config"),
        ("XDG_CONFIG_HOME", "/tests/xdg-fallback"),
    ]);
    let resolution = resolve_config_path(|name: &str| values.get(name).map(ToString::to_string), PathRules::Unix);
    assert_eq!(
        resolution.path,
        Some(PathBuf::new("/tests/xdg-fallback/herdr-kiosk/config.toml"))
    );
    assert_eq!(resolution.warnings.len(), 1);
}

#[test]
fn unknown_keys_are_ignored_with_warnings() {
    let (config, warnings) = checked_config(
        Config::default(),
        &vec!["future_root_key".into(), "theme.future_theme_key".into()],
    )
    .unwrap();
    assert!(config.search_dirs.is_empty());
    assert_eq!(warnings.len(), 2);
    assert!(warnings
        .iter()
        .any(|warning| warning.message.contains("future_root_key")));
    assert!(warnings
        .iter()
        .any(|warning| warning.message.contains("future_theme_key")));
}

#[test]
fn missing_config_loads_empty_defaults_without_reading_relative_paths() {
    let loaded = load_config_with(
        |_: &str| None,
        |_: &PathBuf| -> Result<Option<String>, String> { panic!("no path should be read") },
        parse,
        PathRules::Unix,
    )
    .unwrap();
    assert!(loaded.config.search_dirs.is_empty());
    assert!(loaded.path.is_none());
    assert!(!loaded.exists);
}

#[test]
fn injected_reader_loads_config() {
    let expected = PathBuf::new("/tests/injected-home/.config/herdr-kiosk/config.toml");
    let loaded = load_config_with(
        |name: &str| (name == "HOME").then_some("/tests/injected-home".to_string()),
        |path: &PathBuf| {
            assert_eq!(*path, expected);
            Ok(Some("search_dirs = [\"/repos\"]".to_string()))
        },
        parse,
        PathRules::Unix,
    )
    .unwrap();
    assert_eq!(loaded.config.search_dirs.len(), 1);
    assert!(loaded.exists);
}

#[test]
fn resolved_but_missing_and_existing_empty_configs_are_distinguished() {
    let env =
        |name: &str| (name == "HERDR_PLUGIN_CONFIG_DIR").then_some("/tests/resolved".to_string());
    let missing = load_config_with(env, |_: &PathBuf| Ok(None), parse, PathRules::Unix).unwrap();
    assert_eq!(
        missing.path,
        Some(PathBuf::new("/tests/resolved/config.toml"))
    );
    assert!(!missing.exists);

    let empty = load_config_with(
        env,
        |_: &PathBuf| Ok(Some("search_dirs = []".to_string())),
        parse,
        PathRules::Unix,
    )
    .unwrap();
    assert!(empty.exists);
    assert!(empty.config.search_dirs.is_empty());
}

#[test]
fn unreadable_and_invalid_configs_are_errors() {
    let env = |name: &str| (name == "HOME").then_some("/home".to_string());
    assert!(load_config_with(env, |_: &PathBuf| Err("denied".to_string()), parse, PathRules::Unix).is_err());
    assert!(load_config_with(
        env,
        |_: &PathBuf| Ok(Some("search_dirs = ".to_string())),
        parse, PathRules::Unix
    )
    .is_err());
}

#[test]
fn zero_depths_and_odd_panes_are_rejected() {
    assert!(validate_config(&with_dirs(vec![rich("/repos", Some(0))])).is_err());
    assert!(validate_config(&with_dirs(vec![rich("/repos", Some(1))])).is_ok());
    let with_pane = |command: &str, ratio: Option<f32>| {
        let mut config = Config::default();
        config.on_open.panes = vec![OnOpenPaneConfig {
            command: command.into(),
            direction: OnOpenPaneDirection::Right,
            ratio: ratio.map(|ratio| Ratio {
                bits: ratio.to_bits(),
            }),
        }];
        config
    };
    assert!(validate_config(&with_pane("  ", None))
        .unwrap_err()
        .contains("command must not be empty"));
    for ratio in [0.0, 1.0, -0.1, 1.1, f32::NAN] {
        assert!(
            validate_config(&with_pane("hx", Some(ratio)))
                .unwrap_err()
                .contains("ratio must be greater than 0 and less than 1"),
            "ratio {ratio}"
        );
    }
    assert!(validate_config(&with_pane("hx", Some(0.35))).is_ok());
}

#[test]
fn defaults_are_the_documented_ones() {
    let config = Config::default();
    assert!(config.on_open.panes.is_empty());
    assert_eq!(config.theme, ThemeConfig::default());
    assert_eq!(config.theme.accent, ThemeColor::Magenta);
    assert_eq!(config.theme.secondary, ThemeColor::Cyan);
    assert_eq!(config.theme.tertiary, ThemeColor::Green);
    assert_eq!(config.theme.open, ThemeColor::Green);
    assert_eq!(simple("/x").depth(), 1);
    assert_eq!(rich("/x", Some(3)).depth(), 3);
    assert_eq!(OnOpenPaneDirection::Down.as_str(), "down");
}

#[test]
fn config_directories_are_absolute_by_the_rules_of_the_host() {
    let env = |name: &str| match name {
        "HERDR_PLUGIN_CONFIG_DIR" => Some(r"C:\config".to_string()),
        _ => None,
    };
    let windows = resolve_config_path(env, PathRules::Windows);
    assert_eq!(windows.path.unwrap().bytes, br"C:\config\config.toml");
    let unix = resolve_config_path(env, PathRules::Unix);
    assert_eq!(unix.path, None);
    assert_eq!(unix.warnings.len(), 1);
}
