//! The shell's own settings file: which integrations are switched on.
use vstd::prelude::*;
use crate::paths::{config_base, config_dir, join, join_path, utf8};

verus! {

/// Which programs the shell integrates with.
#[derive(Clone, Copy, PartialEq, Eq, Structural, Debug)]
pub struct Integrations {
    pub alacritty: bool,
    pub fuzzel: bool,
}

/// The shell's settings.
#[derive(Clone, Copy, PartialEq, Eq, Structural, Debug)]
pub struct Config {
    pub integrations: Integrations,
}

impl Default for Integrations {
    /// No integration switched on.
    fn default() -> (r: Self)
        ensures
            !r.alacritty && !r.fuzzel,
    {
        Integrations { alacritty: false, fuzzel: false }
    }
}

impl Default for Config {
    /// The settings when the file is missing or unreadable: no integration switched on.
    fn default() -> (r: Self)
        ensures
            !r.integrations.alacritty && !r.integrations.fuzzel,
    {
        Config { integrations: Integrations::default() }
    }
}

/// The settings file: `niri-quickshell/config.toml` in the configuration directory.
pub open spec fn config_file_path(config_dir: Option<Vec<u8>>) -> Seq<u8> {
    join_path(config_base(config_dir), utf8("niri-quickshell/config.toml"@))
}

/// The settings file, given the configuration directory.
pub fn config_path_in(config_dir: &Option<Vec<u8>>) -> (r: Vec<u8>)
    ensures
        r@ == config_file_path(*config_dir),
{
    let base = crate::paths::base_dir(config_dir);
    join(base.as_slice(), "niri-quickshell/config.toml".as_bytes())
}

/// The settings file in the user's configuration directory.
pub fn config_path() -> (r: Vec<u8>)
    ensures
        exists|d: Option<Vec<u8>>| r@ == #[trigger] config_file_path(d),
{
    let d = config_dir();
    config_path_in(&d)
}

/// The settings in effect: those read from the settings file, or, when the file could
/// not be read or parsed (`None`), none switched on.
pub fn load_config(parsed: Option<Config>) -> (r: Config)
    ensures
        parsed matches Some(c) ==> r == c,
        parsed is None ==> !r.integrations.alacritty && !r.integrations.fuzzel,
{
    match parsed {
        Some(c) => c,
        None => Config::default(),
    }
}

} // verus!
