//! Interval journaling for focus: the verified core of the Nudge tray app.
pub mod hotkey;
pub mod nudge_state;
pub mod number;
pub mod span;
pub mod text;
pub mod word_jump;
pub mod config;
pub mod config_watcher;
pub mod journal;
pub mod autostart;
pub mod settings_app;
pub mod daisy;
pub mod tray_bridge;
pub mod timer;
pub mod popup;
