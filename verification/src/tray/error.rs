//! Crate-wide error type of the tray library.

use vstd::prelude::*;

use crate::text;
use crate::tray::model::{id_text, TrayItemId};

verus! {

/// Errors surfaced by the tray library.
#[derive(Debug)]
pub enum TrayError {
    /// Failed to connect to the session bus.
    Bus(String),
    /// An operation timed out after the configured duration.
    Timeout {
        /// Timeout in milliseconds.
        ms: u64,
    },
    /// The referenced item does not exist (or is gone).
    ItemNotFound(String),
    /// A DBus protocol call failed.
    Protocol(String),
    /// The tray runtime has stopped and can no longer serve requests.
    Stopped,
}

/// Human readable message of an error.
pub open spec fn error_text(e: TrayError) -> Seq<char> {
    match e {
        TrayError::Bus(s) => "session bus connect failed: "@ + s@,
        TrayError::Timeout { ms } => "operation timed out after "@ + text::decimal(ms as nat)
            + " ms"@,
        TrayError::ItemNotFound(s) => "item "@ + s@ + " not found"@,
        TrayError::Protocol(s) => "dbus call failed: "@ + s@,
        TrayError::Stopped => "tray runtime stopped"@,
    }
}

impl TrayError {
    /// `ItemNotFound` naming the item by its text form.
    pub fn item_not_found(id: &TrayItemId) -> (e: Self)
        ensures
            e matches TrayError::ItemNotFound(s) && s@ == id_text(id@),
    {
        TrayError::ItemNotFound(id.to_text())
    }

    /// The message `Display` prints for this error.
    pub fn message(&self) -> (s: String)
        ensures
            s@ == error_text(*self),
    {
        match self {
            TrayError::Bus(m) => {
                let mut s = String::from_str("session bus connect failed: ");
                s.append(m.as_str());
                s
            },
            TrayError::Timeout { ms } => {
                let mut s = String::from_str("operation timed out after ");
                text::push_decimal(&mut s, *ms);
                s.append(" ms");
                s
            },
            TrayError::ItemNotFound(m) => {
                let mut s = String::from_str("item ");
                s.append(m.as_str());
                s.append(" not found");
                s
            },
            TrayError::Protocol(m) => {
                let mut s = String::from_str("dbus call failed: ");
                s.append(m.as_str());
                s
            },
            TrayError::Stopped => String::from_str("tray runtime stopped"),
        }
    }
}

} // verus!
