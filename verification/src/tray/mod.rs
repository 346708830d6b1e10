//! `tray`: headless Linux system tray data layer (StatusNotifierItem client,
//! DBusMenu client and fallback watcher decisions).

use vstd::prelude::*;

pub mod config;
pub mod runtime;
pub mod error;
pub mod event;
pub mod handle;
pub mod inspect;
pub mod laws;
pub mod menu;
pub mod model;
pub mod sni;
pub mod testing;
pub mod value;
pub mod wheel;

verus! {

/// Watcher presence state (delivered via `TrayEvent::WatcherChanged`).
#[derive(Debug, Clone, Copy, PartialEq, Eq, Structural)]
pub enum WatcherState {
    /// An external watcher is online and we registered with it.
    ExternalUp,
    /// No watcher on the bus and we are not providing one.
    ExternalDown,
    /// This library is providing the watcher service.
    FallbackActive,
}

/// Which interaction a `TrayEvent::InteractionResult` receipt belongs to.
#[derive(Debug, Clone, Copy, PartialEq, Eq, Structural)]
pub enum InteractionOp {
    /// Left-click activation.
    Activate,
    /// Secondary (right-click) activation.
    SecondaryActivate,
    /// Scroll.
    Scroll,
    /// Menu entry click.
    MenuActivate,
    /// Menu about-to-show.
    MenuAboutToShow,
}

} // verus!
