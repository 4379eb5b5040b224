//! The type-state builder of an application service.
//!
//! The builder records where the configuration will come from and which
//! user state the service will carry; each step moves to the type that
//! proves the step was taken, so a service can only be built once both
//! are settled.

use vstd::prelude::*;

use crate::types::NoConfig;
use crate::types::NoState;
use crate::types::State;

verus! {

/// A builder that has collected a configuration source `C` and a user
/// state `S`.
pub struct ApplicationServiceBuilder<C, S> {
    pub config_path: C,
    pub state: S,
}

impl ApplicationServiceBuilder<NoConfig, NoState> {
    /// A builder with nothing settled yet.
    pub fn new() -> (r: ApplicationServiceBuilder<NoConfig, NoState>)
        ensures
            r.config_path is NoConfig,
            r.state is NoState,
    {
        ApplicationServiceBuilder { config_path: NoConfig, state: NoState }
    }
}

impl<C> ApplicationServiceBuilder<C, NoState> {
    /// Settles the user state the service will carry.
    pub fn with_state<S>(self, state: S) -> (r: ApplicationServiceBuilder<C, State<S>>)
        ensures
            r.config_path == self.config_path,
            r.state == State(state),
    {
        ApplicationServiceBuilder { config_path: self.config_path, state: State(state) }
    }
}

impl<S> ApplicationServiceBuilder<NoConfig, S> {
    /// Settles the path of the configuration file.
    pub fn configuration_file(self, path: String) -> (r: ApplicationServiceBuilder<String, S>)
        ensures
            r.config_path@ == path@,
            r.state == self.state,
    {
        ApplicationServiceBuilder { config_path: path, state: self.state }
    }
}

} // verus!
