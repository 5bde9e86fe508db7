//! Options the service is started with.
use vstd::prelude::*;

verus! {

#[derive(Debug, Clone, Copy, PartialEq, Eq)]
pub struct ConfigArgs {
    /// Use session/user message bus connection instead of system
    pub session: bool,
}

} // verus!
