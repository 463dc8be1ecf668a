//! Messages between the daemon, its command-line remote and the frontend: the events
//! that trigger an update, the remote's datagram, the frontend's commands, and where
//! the sockets live.
use vstd::prelude::*;
use crate::paths::{app_dir, base_dir, config_dir, join, join_path, lemma_join_join, last_component, push_bytes, utf8};
use crate::text::{decimal, i64_to_text, same_text, signed_decimal};

verus! {

/// What makes the daemon send a fresh state to the frontend.
#[derive(PartialEq, Eq, Structural, Clone, Copy, Debug)]
pub enum Event {
    RefreshData,
    ToggleControlCenter,
}

/// The runtime directory: `$XDG_RUNTIME_DIR` when set, else `/run/user/<uid>`.
pub open spec fn runtime_base(runtime_dir: Option<String>, uid: u32) -> Seq<char> {
    match runtime_dir {
        Some(d) => d@,
        None => "/run/user/"@ + decimal(uid as nat),
    }
}

/// The directory of the sockets: `niri-quickshell` in the runtime directory.
pub open spec fn socket_dir_path(runtime_dir: Option<String>, uid: u32) -> Seq<u8> {
    join_path(utf8(runtime_base(runtime_dir, uid)), utf8("niri-quickshell"@))
}

/// The directory of the sockets, given `$XDG_RUNTIME_DIR` (when set) and the user id.
pub fn socket_dir(runtime_dir: &Option<String>, uid: u32) -> (r: Vec<u8>)
    ensures
        r@ == socket_dir_path(*runtime_dir, uid),
{
    let base = match runtime_dir {
        Some(d) => d.clone(),
        None => {
            let mut b = String::from_str("/run/user/");
            crate::text::push_decimal(&mut b, uid as u64);
            b
        },
    };
    join(base.as_str().as_bytes(), "niri-quickshell".as_bytes())
}

/// The socket `filename` in the sockets' directory.
pub fn get_socket_path(runtime_dir: &Option<String>, uid: u32, filename: &str) -> (r: Vec<u8>)
    ensures
        r@ == join_path(socket_dir_path(*runtime_dir, uid), utf8(filename@)),
{
    let dir = socket_dir(runtime_dir, uid);
    join(dir.as_slice(), filename.as_bytes())
}

/// The datagram by which the command-line remote toggles the control center: `TOGGLE_CC`.
pub open spec fn toggle_cc_message() -> Seq<u8> {
    seq![84u8, 79u8, 71u8, 71u8, 76u8, 69u8, 95u8, 67u8, 67u8]
}

/// The event that a datagram from the command-line remote stands for.
pub open spec fn cli_event(datagram: Seq<u8>) -> Option<Event> {
    if datagram == toggle_cc_message() {
        Some(Event::ToggleControlCenter)
    } else {
        None
    }
}

/// The datagram that toggles the control center.
pub fn toggle_cc_datagram() -> (r: Vec<u8>)
    ensures
        r@ == toggle_cc_message(),
{
    let r: Vec<u8> = vec![84u8, 79u8, 71u8, 71u8, 76u8, 69u8, 95u8, 67u8, 67u8];
    assert(r@ =~= toggle_cc_message());
    r
}

/// The event that a datagram received from the command-line remote stands for.
pub fn cli_datagram_event(datagram: &[u8]) -> (r: Option<Event>)
    ensures
        r == cli_event(datagram@),
{
    let expected = toggle_cc_datagram();
    if datagram.len() != expected.len() {
        return None;
    }
    let mut i: usize = 0;
    while i < datagram.len()
        invariant
            datagram.len() == expected.len(),
            expected@ == toggle_cc_message(),
            i <= datagram.len(),
            forall|k: int| 0 <= k < i ==> datagram@[k] == expected@[k],
        decreases datagram.len() - i,
    {
        if datagram[i] != expected[i] {
            return None;
        }
        i += 1;
    }
    assert(datagram@ =~= toggle_cc_message());
    Some(Event::ToggleControlCenter)
}

/// The program is started as the command-line remote: its first argument after the
/// program name is `toggle-cc`.
pub open spec fn is_remote_invocation(args: Seq<Seq<char>>) -> bool {
    args.len() > 1 && args[1] == "toggle-cc"@
}

/// Whether the command line `args` (program name first) starts the remote.
pub fn is_toggle_cc_invocation(args: &Vec<String>) -> (r: bool)
    ensures
        r == is_remote_invocation(crate::text::views(args@)),
{
    args.len() > 1 && same_text(args[1].as_str(), "toggle-cc")
}

/// The datagram that the remote sends is read by the daemon as a control-center toggle.
pub proof fn law_remote_datagram_toggles(datagram: Seq<u8>)
    requires
        datagram == toggle_cc_message(),
    ensures
        cli_event(datagram) == Some(Event::ToggleControlCenter),
{
}


/// What the daemon does for a command from the frontend.
pub enum ClientAction {
    /// Run `program` with `args` and wait for it to finish.
    Run { program: String, args: Vec<String> },
    /// Make the theme `name` the current one by copying the file `source` over `target`
    /// when `source` exists.
    SetTheme { name: String, source: Vec<u8>, target: Vec<u8> },
    /// Nothing to do.
    Ignore,
}

/// A `ClientAction` as plain values.
pub enum PlannedAction {
    Run(Seq<char>, Seq<Seq<char>>),
    SetTheme(Seq<char>, Seq<u8>, Seq<u8>),
    Ignore,
}

impl View for ClientAction {
    type V = PlannedAction;

    open spec fn view(&self) -> PlannedAction {
        match self {
            ClientAction::Run { program, args } => PlannedAction::Run(
                program@,
                crate::text::views(args@),
            ),
            ClientAction::SetTheme { name, source, target } => PlannedAction::SetTheme(
                name@,
                source@,
                target@,
            ),
            ClientAction::Ignore => PlannedAction::Ignore,
        }
    }
}

/// The text that `String::from_utf8_lossy` makes of `bytes`.
pub uninterp spec fn utf8_lossy(bytes: Seq<u8>) -> Seq<char>;

/// `String::from_utf8_lossy`: the text that `bytes` encode, each invalid sequence
/// replaced by U+FFFD; for valid UTF-8, exactly the text they encode.
#[verifier::external_body]
fn lossy_text(bytes: &[u8]) -> (r: String)
    ensures
        r@ == utf8_lossy(bytes@),
        vstd::utf8::valid_utf8(bytes@) ==> r@ == vstd::utf8::decode_utf8(bytes@),
{
    String::from_utf8_lossy(bytes).into_owned()
}

/// fuzzel's main configuration file: `niri-quickshell/fuzzel/fuzzel.ini` in the
/// configuration directory.
pub open spec fn fuzzel_config_path(config_dir: Option<Vec<u8>>) -> Seq<u8> {
    join_path(crate::paths::config_base(config_dir), utf8("niri-quickshell/fuzzel/fuzzel.ini"@))
}

/// The file of the selectable theme `name`: `themes/<name>.toml` in the shell's directory.
pub open spec fn theme_source_path(config_dir: Option<Vec<u8>>, name: Seq<char>) -> Seq<u8> {
    join_path(join_path(app_dir(config_dir), utf8("themes"@)), utf8(name) + utf8(".toml"@))
}

/// The file that holds the current theme: `theme.toml` in the shell's directory.
pub open spec fn theme_target_path(config_dir: Option<Vec<u8>>) -> Seq<u8> {
    join_path(app_dir(config_dir), utf8("theme.toml"@))
}

/// The command that opens the menu, given fuzzel's configuration file as text:
/// `niri msg action spawn -- fuzzel --config <config>`.
pub open spec fn launch_menu_plan(config: Seq<char>) -> PlannedAction {
    PlannedAction::Run(
        "niri"@,
        seq!["msg"@, "action"@, "spawn"@, "--"@, "fuzzel"@, "--config"@, config],
    )
}

/// What the daemon does for the frontend's command `action` with the integer argument
/// `arg_int` and the optional text argument `arg_string`:
/// `focus_workspace` runs `niri msg action focus-workspace <arg_int>`;
/// `launch_menu` runs `niri msg action spawn -- fuzzel --config <fuzzel.ini>`, the
/// path given as text as `to_string_lossy` makes it;
/// `toggle_audio_mute` runs `wpctl set-mute @DEFAULT_AUDIO_SINK@ toggle`;
/// `set_theme` with a text argument copies that theme over the current one;
/// anything else does nothing.
pub open spec fn client_plan(
    action: Seq<char>,
    arg_int: i32,
    arg_string: Option<Seq<char>>,
    config_dir: Option<Vec<u8>>,
) -> PlannedAction {
    if action == "focus_workspace"@ {
        PlannedAction::Run(
            "niri"@,
            seq!["msg"@, "action"@, "focus-workspace"@, signed_decimal(arg_int as int)],
        )
    } else if action == "launch_menu"@ {
        launch_menu_plan(utf8_lossy(fuzzel_config_path(config_dir)))
    } else if action == "toggle_audio_mute"@ {
        PlannedAction::Run("wpctl"@, seq!["set-mute"@, "@DEFAULT_AUDIO_SINK@"@, "toggle"@])
    } else if action == "set_theme"@ {
        match arg_string {
            Some(name) => PlannedAction::SetTheme(
                name,
                theme_source_path(config_dir, name),
                theme_target_path(config_dir),
            ),
            None => PlannedAction::Ignore,
        }
    } else {
        PlannedAction::Ignore
    }
}

/// The text argument as plain values.
pub open spec fn text_option_view(o: Option<String>) -> Option<Seq<char>> {
    match o {
        Some(s) => Some(s@),
        None => None,
    }
}

/// Appends `t` to `v`.
fn push_string(v: &mut Vec<String>, t: String)
    ensures
        crate::text::views(final(v)@) == crate::text::views(old(v)@).push(t@),
{
    let ghost tv = t@;
    v.push(t);
    assert(crate::text::views(v@) =~= crate::text::views(old(v)@).push(tv));
}

/// Appends a copy of `t` to `v`.
fn push_text(v: &mut Vec<String>, t: &str)
    ensures
        crate::text::views(final(v)@) == crate::text::views(old(v)@).push(t@),
{
    v.push(String::from_str(t));
    assert(crate::text::views(v@) =~= crate::text::views(old(v)@).push(t@));
}

/// The command that opens the menu with fuzzel's configuration file `config`.
pub fn launch_menu_command(config: String) -> (r: ClientAction)
    ensures
        r@ == launch_menu_plan(config@),
{
    let mut args: Vec<String> = Vec::new();
    assert(crate::text::views(args@) =~= Seq::<Seq<char>>::empty());
    push_text(&mut args, "msg");
    push_text(&mut args, "action");
    push_text(&mut args, "spawn");
    push_text(&mut args, "--");
    push_text(&mut args, "fuzzel");
    push_text(&mut args, "--config");
    let ghost c = config@;
    push_string(&mut args, config);
    proof {
        assert(crate::text::views(args@) =~= seq!["msg"@, "action"@, "spawn"@, "--"@, "fuzzel"@, "--config"@, c]);
    }
    ClientAction::Run { program: String::from_str("niri"), args }
}

/// What to do for the frontend's command, given the configuration directory.
pub fn plan_client_command(
    action: &str,
    arg_int: i32,
    arg_string: Option<String>,
    config_dir: &Option<Vec<u8>>,
) -> (r: ClientAction)
    ensures
        r@ == client_plan(action@, arg_int, text_option_view(arg_string), *config_dir),
{
    if same_text(action, "focus_workspace") {
        let mut args: Vec<String> = Vec::new();
        assert(crate::text::views(args@) =~= Seq::<Seq<char>>::empty());
        push_text(&mut args, "msg");
        push_text(&mut args, "action");
        push_text(&mut args, "focus-workspace");
        push_string(&mut args, i64_to_text(arg_int as i64));
        proof {
            assert(crate::text::views(args@) =~= seq!["msg"@, "action"@, "focus-workspace"@, signed_decimal(arg_int as int)]);
        }
        ClientAction::Run { program: String::from_str("niri"), args }
    } else if same_text(action, "launch_menu") {
        let base = base_dir(config_dir);
        let conf = join(base.as_slice(), "niri-quickshell/fuzzel/fuzzel.ini".as_bytes());
        launch_menu_command(lossy_text(conf.as_slice()))
    } else if same_text(action, "toggle_audio_mute") {
        let mut args: Vec<String> = Vec::new();
        assert(crate::text::views(args@) =~= Seq::<Seq<char>>::empty());
        push_text(&mut args, "set-mute");
        push_text(&mut args, "@DEFAULT_AUDIO_SINK@");
        push_text(&mut args, "toggle");
        proof {
            assert(crate::text::views(args@) =~= seq!["set-mute"@, "@DEFAULT_AUDIO_SINK@"@, "toggle"@]);
        }
        ClientAction::Run { program: String::from_str("wpctl"), args }
    } else if same_text(action, "set_theme") {
        match arg_string {
            Some(name) => {
                let base = base_dir(config_dir);
                let app = join(base.as_slice(), "niri-quickshell".as_bytes());
                let themes = join(app.as_slice(), "themes".as_bytes());
                let nb = name.as_str().as_bytes();
                let mut file = crate::paths::copy_bytes(nb, 0, nb.len());
                assert(nb@.subrange(0, nb@.len() as int) =~= nb@);
                push_bytes(&mut file, ".toml".as_bytes());
                let source = join(themes.as_slice(), file.as_slice());
                let target = join(app.as_slice(), "theme.toml".as_bytes());
                ClientAction::SetTheme { name, source, target }
            },
            None => ClientAction::Ignore,
        }
    } else {
        ClientAction::Ignore
    }
}

/// What to do for the frontend's command, in the user's configuration directory.
pub fn client_command_action(action: &str, arg_int: i32, arg_string: Option<String>) -> (r: ClientAction)
    ensures
        exists|d: Option<Vec<u8>>|
            r@ == #[trigger] client_plan(action@, arg_int, text_option_view(arg_string), d),
{
    let d = config_dir();
    plan_client_command(action, arg_int, arg_string, &d)
}

/// Switching themes from the frontend reloads the theme: the file that `set_theme`
/// copies to is the theme file, whose changes the watcher reacts to.
pub proof fn law_theme_switch_is_watched(config_dir: Option<Vec<u8>>)
    ensures
        theme_target_path(config_dir) == crate::modules::theme::theme_file_path(config_dir),
        last_component(theme_target_path(config_dir)) == utf8("theme.toml"@),
{
    crate::modules::theme::lemma_theme_paths_in_app_dir(config_dir);
    crate::modules::theme::law_theme_file_is_watched(config_dir);
}

/// A theme offered for selection is found where `set_theme` looks: `<name>.toml` in the
/// directory whose files `get_available_themes` lists.
pub proof fn law_theme_switch_reads_listed_dir(config_dir: Option<Vec<u8>>, name: Seq<char>)
    ensures
        theme_source_path(config_dir, name) == join_path(
            crate::modules::theme::themes_dir_path(config_dir),
            utf8(name) + utf8(".toml"@),
        ),
{
    crate::modules::theme::lemma_theme_paths_in_app_dir(config_dir);
}

/// The menu reads the configuration that the fuzzel export writes: the `--config` path
/// of `launch_menu` is, as bytes, the main configuration file of the fuzzel export.
pub proof fn law_menu_reads_exported_config(config_dir: Option<Vec<u8>>)
    ensures
        fuzzel_config_path(config_dir) == join_path(
            crate::modules::exporter::export_dir(config_dir, "niri-quickshell/fuzzel"@),
            utf8("fuzzel.ini"@),
        ),
{
    reveal_strlit("niri-quickshell/fuzzel");
    reveal_strlit("fuzzel.ini");
    reveal_strlit("niri-quickshell/fuzzel/fuzzel.ini");
    assert(vstd::utf8::is_ascii_chars("niri-quickshell/fuzzel"@));
    assert(vstd::utf8::is_ascii_chars("fuzzel.ini"@));
    assert(vstd::utf8::is_ascii_chars("niri-quickshell/fuzzel/fuzzel.ini"@));
    crate::paths::lemma_ascii_utf8("niri-quickshell/fuzzel"@);
    crate::paths::lemma_ascii_utf8("fuzzel.ini"@);
    crate::paths::lemma_ascii_utf8("niri-quickshell/fuzzel/fuzzel.ini"@);
    let dir = utf8("niri-quickshell/fuzzel"@);
    lemma_join_join(crate::paths::config_base(config_dir), dir, utf8("fuzzel.ini"@));
    assert(dir + seq![crate::paths::slash()] + utf8("fuzzel.ini"@) =~= utf8("niri-quickshell/fuzzel/fuzzel.ini"@));
}

} // verus!
