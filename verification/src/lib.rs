//! The logic of a niri desktop-shell backend: the theme and the colour files exported
//! from it, the selectable themes, the workspaces and window title sent to the
//! frontend, the readings of audio, battery and network, the commands of the frontend
//! and of the command-line remote, and the connection loop's state.

pub mod text;
pub mod paths;
pub mod session;
pub mod ipc;
pub mod modules;
pub mod state_store;
