//! The BreadKnife shell: Hyprland IPC, the status-notifier host, the daemon's
//! app registry and the bar's workspace logic.

pub mod hyprland;
pub mod sni;
pub mod icon;
pub mod daemon;
pub mod bar;
