pub mod theme;
pub mod exporter;
pub mod niri;
pub mod config;
pub mod battery;
pub mod audio;
pub mod network;
