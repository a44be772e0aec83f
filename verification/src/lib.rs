//! Window-border bookkeeping for a macOS border overlay tool: the settings
//! and their configuration-file overrides, the window server's events, which
//! windows get a border, and the state of each border.
pub mod border;
pub mod events;
pub mod settings;
pub mod skylight;
pub mod window_manager;
