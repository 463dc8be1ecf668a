use niri_quickshell::modules::audio::{is_muted, is_sink_event, volume_field};
use niri_quickshell::modules::battery::get_battery_percent;
use niri_quickshell::modules::config::{config_path_in, load_config, Config, Integrations};
use niri_quickshell::modules::network::{get_network_name, has_primary_connection};
use niri_quickshell::modules::niri::{fetch_active_window_title, NiriWindow, NiriWorkspace};
use niri_quickshell::modules::theme::ThemeConfig;
use niri_quickshell::session::{Input, Session};
use niri_quickshell::ipc::Event;
use niri_quickshell::state_store::{build_shell_state, workspace_entries, Readings};

fn ws(id: u64, idx: u64, name: Option<&str>, is_active: bool) -> NiriWorkspace {
    NiriWorkspace { id, idx, name: name.map(String::from), is_active }
}

#[test]
fn battery_percent() {
    assert_eq!(get_battery_percent("57\n"), 57);
    assert_eq!(get_battery_percent("  100 "), 100);
    assert_eq!(get_battery_percent(""), 100);
    assert_eq!(get_battery_percent("full"), 100);
    assert_eq!(get_battery_percent("200"), 100);
    assert_eq!(get_battery_percent("0"), 0);
}

#[test]
fn audio_readings() {
    assert_eq!(volume_field("Volume: 0.45 [MUTED]").as_deref(), Some("0.45"));
    assert_eq!(volume_field("Volume:"), None);
    assert!(is_muted("Volume: 0.45 [MUTED]"));
    assert!(!is_muted("Volume: 0.45"));
    assert!(is_sink_event("Event 'change' on sink #47"));
    assert!(!is_sink_event("Event 'new' on client #3"));
}

#[test]
fn network_name() {
    assert!(!has_primary_connection("/"));
    assert!(has_primary_connection("/org/freedesktop/NetworkManager/ActiveConnection/1"));
    assert_eq!(get_network_name(Some("Home".to_string())), "Home");
    assert_eq!(get_network_name(None), "Offline");
}

#[test]
fn config_defaults_and_path() {
    let c = load_config(None);
    assert!(!c.integrations.alacritty && !c.integrations.fuzzel);
    let read = Config { integrations: Integrations { alacritty: true, fuzzel: false } };
    assert_eq!(load_config(Some(read)), read);
    assert_eq!(config_path_in(&Some(b"/c".to_vec())), b"/c/niri-quickshell/config.toml");
}

#[test]
fn focused_window_title() {
    let w = |t: Option<&str>, f: bool| NiriWindow { title: t.map(String::from), is_focused: f };
    assert_eq!(fetch_active_window_title(&vec![w(Some("a"), false), w(Some("b"), true), w(Some("c"), true)]).as_deref(), Some("b"));
    assert_eq!(fetch_active_window_title(&vec![w(Some("a"), false)]), None);
    assert_eq!(fetch_active_window_title(&vec![w(None, true), w(Some("c"), true)]), None);
    assert_eq!(fetch_active_window_title(&Vec::new()), None);
}

#[test]
fn workspaces_sorted_stably_and_named() {
    let entries = workspace_entries(vec![
        ws(10, 3, Some("web"), false),
        ws(11, 1, None, true),
        ws(12, 3, None, false),
        ws(13, 2, Some("chat"), false),
    ]);
    let got: Vec<(u64, String, bool)> = entries.into_iter().map(|e| (e.idx, e.name, e.is_active)).collect();
    assert_eq!(got, vec![
        (1, "1".to_string(), true),
        (2, "chat".to_string(), false),
        (3, "web".to_string(), false),
        (3, "3".to_string(), false),
    ]);
}

#[test]
fn shell_state_carries_readings() {
    let s = build_shell_state(
        Readings {
            workspaces: vec![ws(1, 2, None, true), ws(2, 1, None, false)],
            active_window_title: Some("term".to_string()),
            audio_volume: 45,
            audio_muted: true,
            network_name: "Home".to_string(),
            theme: ThemeConfig::default(),
            available_themes: vec!["a".to_string()],
            battery_percent: 80,
        },
        7,
    );
    assert_eq!(s.workspaces[0].idx, 1);
    assert_eq!(s.workspaces[1].name, "2");
    assert_eq!(s.active_window_title.as_deref(), Some("term"));
    assert_eq!((s.audio_volume, s.audio_muted, s.battery_percent, s.toggle_cc_signal), (45, true, 80, 7));
    assert_eq!(s.network_name, "Home");
    assert_eq!(s.theme.accent_color, "#8aadf4");
    assert_eq!(s.available_themes, vec!["a"]);
}

#[test]
fn session_counts_toggles() {
    let mut s = Session::new();
    assert!(!s.waits_for_event());
    assert!(s.step(Input::Start));
    assert!(s.waits_for_event());
    for _ in 0..300 {
        assert!(s.step(Input::Received(Event::ToggleControlCenter)));
    }
    assert!(s.step(Input::Received(Event::RefreshData)));
    assert_eq!(s.cc_counter, (300 % 256) as u8);
    assert!(!s.step(Input::Closed));
}
