use niri_quickshell::ipc::{
    cli_datagram_event, client_command_action, get_socket_path, is_toggle_cc_invocation,
    plan_client_command, socket_dir, toggle_cc_datagram, ClientAction, Event,
};

fn run_of(a: ClientAction) -> (String, Vec<String>) {
    match a {
        ClientAction::Run { program, args } => (program, args),
        _ => panic!("expected a command to run"),
    }
}

#[test]
fn socket_paths() {
    assert_eq!(get_socket_path(&Some("/run/user/1000".to_string()), 5, "ipc.sock"), b"/run/user/1000/niri-quickshell/ipc.sock");
    assert_eq!(get_socket_path(&None, 1000, "cli.sock"), b"/run/user/1000/niri-quickshell/cli.sock");
    assert_eq!(socket_dir(&None, 0), b"/run/user/0/niri-quickshell");
}

#[test]
fn remote_datagram_toggles_control_center() {
    assert_eq!(toggle_cc_datagram(), b"TOGGLE_CC".to_vec());
    assert_eq!(cli_datagram_event(&toggle_cc_datagram()), Some(Event::ToggleControlCenter));
    assert_eq!(cli_datagram_event(b"TOGGLE_C"), None);
    assert_eq!(cli_datagram_event(b""), None);
    assert_eq!(cli_datagram_event(b"TOGGLE_CCX"), None);
}

#[test]
fn remote_invocation() {
    let args = |v: &[&str]| v.iter().map(|s| s.to_string()).collect::<Vec<String>>();
    assert!(is_toggle_cc_invocation(&args(&["backend", "toggle-cc"])));
    assert!(is_toggle_cc_invocation(&args(&["backend", "toggle-cc", "x"])));
    assert!(!is_toggle_cc_invocation(&args(&["backend"])));
    assert!(!is_toggle_cc_invocation(&args(&["toggle-cc"])));
}

#[test]
fn focus_workspace_command() {
    let (p, a) = run_of(plan_client_command("focus_workspace", 3, None, &None));
    assert_eq!(p, "niri");
    assert_eq!(a, vec!["msg", "action", "focus-workspace", "3"]);
    let (_, a) = run_of(plan_client_command("focus_workspace", -2, None, &None));
    assert_eq!(a[3], "-2");
}

#[test]
fn launch_menu_command() {
    let (p, a) = run_of(plan_client_command("launch_menu", 0, None, &Some(b"/home/u/.config".to_vec())));
    assert_eq!(p, "niri");
    assert_eq!(a, vec!["msg", "action", "spawn", "--", "fuzzel", "--config", "/home/u/.config/niri-quickshell/fuzzel/fuzzel.ini"]);
    let (_, a) = run_of(plan_client_command("launch_menu", 0, None, &Some(vec![b'/', 0xff])));
    assert_eq!(a[6], "/\u{fffd}/niri-quickshell/fuzzel/fuzzel.ini");
}

#[test]
fn toggle_audio_mute_command() {
    let (p, a) = run_of(plan_client_command("toggle_audio_mute", 0, Some("x".to_string()), &None));
    assert_eq!(p, "wpctl");
    assert_eq!(a, vec!["set-mute", "@DEFAULT_AUDIO_SINK@", "toggle"]);
}

#[test]
fn set_theme_command() {
    match plan_client_command("set_theme", 0, Some("nord".to_string()), &Some(vec![b'/', 0xff])) {
        ClientAction::SetTheme { name, source, target } => {
            assert_eq!(name, "nord");
            assert_eq!(source, b"/\xff/niri-quickshell/themes/nord.toml");
            assert_eq!(target, b"/\xff/niri-quickshell/theme.toml");
        }
        _ => panic!("expected a theme switch"),
    }
    assert!(matches!(plan_client_command("set_theme", 0, None, &None), ClientAction::Ignore));
}

#[test]
fn unknown_commands_are_ignored() {
    assert!(matches!(plan_client_command("reboot", 1, None, &None), ClientAction::Ignore));
    assert!(matches!(plan_client_command("", 1, None, &None), ClientAction::Ignore));
    assert!(matches!(client_command_action("launch_menu", 0, None), ClientAction::Run { .. }));
}
