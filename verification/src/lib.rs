//! BreadKnife: a Hyprland desktop shell and its headless system tray library.

pub mod demo;
pub mod shell;
pub mod text;
pub mod tray;
