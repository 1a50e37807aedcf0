//! Reading controllers and keeping their stream alive.
use vstd::prelude::*;

pub mod diag;
pub mod events;
pub mod keys;
pub mod ladder_laws;
pub mod name_map;
pub mod rate_limit;
pub mod reopen;
pub mod run_loop;
pub mod session;
pub mod session_laws;
pub mod stall_watchdog;
pub mod tick;
pub mod watch;

verus! {

/// A source of controllers. What goes wrong in it is its own matter.
pub trait Backend {
    /// Options of a run.
    type Opts;

    /// Settings of the engines.
    type Settings;

    /// What the buttons are mapped to.
    type Bindings;

    type Error;

    /// Shows the controllers that are connected.
    fn list_devices(&mut self) -> Result<(), Self::Error>;

    /// Serves controllers until the user quits.
    fn run(
        &mut self,
        opts: Self::Opts,
        settings: Self::Settings,
        bindings: Self::Bindings,
    ) -> Result<(), Self::Error>;
}

} // verus!
