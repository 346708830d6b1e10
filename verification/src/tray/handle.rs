//! Public entry points: `Tray` and `TrayBuilder`.

use vstd::prelude::*;

use crate::tray::config::TrayConfig;

verus! {

/// Builder-style entry point: the configuration and the event callbacks the
/// runtime will invoke, in registration order.
pub struct TrayBuilder<C> {
    config: TrayConfig,
    callbacks: Vec<C>,
}

impl<C> View for TrayBuilder<C> {
    type V = (TrayConfig, Seq<C>);

    closed spec fn view(&self) -> (TrayConfig, Seq<C>) {
        (self.config, self.callbacks@)
    }
}

impl<C> TrayBuilder<C> {
    /// Register an event callback. May be called multiple times; callbacks
    /// are invoked serially, in registration order.
    pub fn on_event(self, cb: C) -> (b: Self)
        ensures
            b@ == (self@.0, self@.1.push(cb)),
    {
        let mut b = self;
        b.callbacks.push(cb);
        b
    }

    /// Configuration and callbacks, to start the runtime with.
    pub fn into_parts(self) -> (r: (TrayConfig, Vec<C>))
        ensures
            (r.0, r.1@) == self@,
    {
        (self.config, self.callbacks)
    }
}

/// Static entry point of the library.
pub struct Tray;

impl Tray {
    /// A builder with the given configuration and no callbacks yet.
    pub fn builder<C>(config: TrayConfig) -> (b: TrayBuilder<C>)
        ensures
            b@ == (config, Seq::<C>::empty()),
    {
        TrayBuilder { config, callbacks: Vec::new() }
    }
}

} // verus!
