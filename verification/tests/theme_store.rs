use niri_quickshell::modules::theme::{
    get_available_themes, get_theme, is_theme_file_event, load_theme_in, theme_path,
    theme_path_in, themes_dir_in, ThemeConfig, ThemeStore,
};

fn sample_theme() -> ThemeConfig {
    let mut t = ThemeConfig::default();
    t.bg_color = "#1e1e2e".to_string();
    t.fg_color = "#cdd6f4".to_string();
    t.accent_color = "#f38ba8".to_string();
    t.color1 = Some("#ff0000".to_string());
    t
}

#[test]
fn fallback_theme_is_macchiato() {
    let t = ThemeConfig::default();
    assert_eq!(t.bg_color, "#24273a");
    assert_eq!(t.fg_color, "#cad3f5");
    assert_eq!(t.accent_color, "#8aadf4");
    assert!(t.color0.is_none() && t.color15.is_none());
}

#[test]
fn fresh_store_reads_fallback() {
    let store = ThemeStore::new();
    let t = get_theme(&store);
    assert_eq!(t.bg_color, "#24273a");
}

#[test]
fn read_after_write_gives_written_theme() {
    let mut store = ThemeStore::new();
    store.set_theme(sample_theme());
    let t = get_theme(&store);
    assert_eq!(t.bg_color, "#1e1e2e");
    assert_eq!(t.accent_color, "#f38ba8");
    assert_eq!(t.color1.as_deref(), Some("#ff0000"));
    assert!(t.color2.is_none());
}

#[test]
fn loading_a_theme_puts_it_in_effect() {
    let mut store = ThemeStore::new();
    let exports = load_theme_in(&mut store, sample_theme(), &Some(b"/cfg".to_vec()));
    assert_eq!(get_theme(&store).fg_color, "#cdd6f4");
    assert_eq!(exports.fuzzel.dir, b"/cfg/niri-quickshell/fuzzel");
    assert_eq!(exports.ghostty.dir, b"/cfg/niri-quickshell/ghostty");
    assert_eq!(exports.niri.dir, b"/cfg/niri-quickshell/niri");
}

#[test]
fn theme_paths() {
    assert_eq!(theme_path_in(&Some(b"/home/u/.config".to_vec())), b"/home/u/.config/niri-quickshell/theme.toml");
    assert_eq!(theme_path_in(&None), b"~/.config/niri-quickshell/theme.toml");
    assert_eq!(themes_dir_in(&Some(b"/c/".to_vec())), b"/c/niri-quickshell/themes");
    assert_eq!(theme_path_in(&Some(vec![b'/', 0xfe])), b"/\xfe/niri-quickshell/theme.toml");
    assert!(theme_path().ends_with(b"/niri-quickshell/theme.toml"));
}

#[test]
fn available_themes_are_sorted_toml_names() {
    let files: Vec<String> = ["nord.toml", "README.md", "dracula.toml", "x.toml.toml", "toml", "a.tomlb.toml"]
        .iter()
        .map(|s| s.to_string())
        .collect();
    assert_eq!(get_available_themes(&files), vec!["ab", "dracula", "nord", "x"]);
    assert!(get_available_themes(&Vec::new()).is_empty());
    assert_eq!(get_available_themes(&vec!["a.toml.toml".to_string()]), vec!["a"]);
}

#[test]
fn watcher_reacts_to_theme_file_changes() {
    let p = theme_path_in(&Some(b"/home/u/.config".to_vec()));
    assert!(is_theme_file_event(true, &vec![b"/tmp/other".to_vec(), p.clone()]));
    assert!(!is_theme_file_event(false, &vec![p]));
    assert!(!is_theme_file_event(true, &vec![b"/home/u/.config/niri-quickshell/theme.toml.swp".to_vec()]));
    assert!(is_theme_file_event(true, &vec![vec![0xff, b'/', b't', b'h', b'e', b'm', b'e', b'.', b't', b'o', b'm', b'l']]));
    assert!(!is_theme_file_event(true, &Vec::new()));
}
