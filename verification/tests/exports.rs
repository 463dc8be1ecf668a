use niri_quickshell::modules::exporter::{
    export_fuzzel, fuzzel_colors_text, fuzzel_default_text, fuzzel_export, ghostty_colors_text,
    ghostty_export, niri_colors_text, niri_export,
};
use niri_quickshell::modules::theme::ThemeConfig;

#[test]
fn fuzzel_colors_of_fallback_theme() {
    let t = ThemeConfig::default();
    assert_eq!(
        fuzzel_colors_text(&t),
        "[colors]\nbackground=24273ae6\ntext=cad3f5ff\nmatch=8aadf4ff\nselection=8aadf4ff\nselection-text=24273aff\nborder=8aadf4ff"
    );
}

#[test]
fn fuzzel_main_config_includes_colors() {
    let c = fuzzel_default_text();
    assert!(c.starts_with("[main]\nfont=monospace:size=14\n"));
    assert!(c.ends_with("include=~/.config/niri-quickshell/fuzzel/colors.ini\n"));
}

#[test]
fn ghostty_colors_list_only_set_palette_entries() {
    let mut t = ThemeConfig::default();
    t.color0 = Some("#000000".to_string());
    t.color12 = Some("#abcdef".to_string());
    assert_eq!(
        ghostty_colors_text(&t),
        "background = #24273a\nforeground = #cad3f5\nselection-background = #8aadf4\nselection-foreground = #24273a\n\npalette = 0=#000000\npalette = 12=#abcdef\n"
    );
    let plain = ghostty_colors_text(&ThemeConfig::default());
    assert!(!plain.contains("palette"));
}

#[test]
fn niri_colors_of_fallback_theme() {
    assert_eq!(
        niri_colors_text(&ThemeConfig::default()),
        "layout {\n    focus-ring {\n        active-color \"#8aadf4\"\n        inactive-color \"#24273a\"\n    }\n    border {\n        active-color \"#8aadf4\"\n        inactive-color \"#24273a\"\n    }\n}"
    );
}

#[test]
fn export_plans_place_files() {
    let t = ThemeConfig::default();
    let d = Some(b"/home/u/.config".to_vec());
    let f = fuzzel_export(&d, &t);
    assert_eq!(f.dir, b"/home/u/.config/niri-quickshell/fuzzel");
    assert_eq!(f.files.len(), 2);
    assert_eq!(f.files[0].path, b"/home/u/.config/niri-quickshell/fuzzel/fuzzel.ini");
    assert!(f.files[0].keep_existing);
    assert_eq!(f.files[1].path, b"/home/u/.config/niri-quickshell/fuzzel/colors.ini");
    assert!(!f.files[1].keep_existing);
    let g = ghostty_export(&None, &t);
    assert_eq!(g.files[0].path, b"~/.config/niri-quickshell/ghostty/colors");
    let n = niri_export(&d, &t);
    assert_eq!(n.files[0].path, b"/home/u/.config/niri-quickshell/niri/colors.kdl");
    assert_eq!(n.files[0].content, niri_colors_text(&t));
}

#[test]
fn export_uses_the_configuration_directory() {
    let f = export_fuzzel(&ThemeConfig::default());
    assert!(f.dir.ends_with(b"/niri-quickshell/fuzzel"));
    assert!(f.files[1].path.ends_with(b"/niri-quickshell/fuzzel/colors.ini"));
}
