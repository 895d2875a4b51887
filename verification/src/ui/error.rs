//! The errors of the widget runtime.

use vstd::prelude::*;

verus! {

/// All errors that can occur in the UI subsystem
#[derive(Clone, Copy, Debug, PartialEq, Eq, Structural)]
pub enum Error {
    /// The widget does not exist
    NoWidget,
    /// The widget exists, but lacks the component that was asked for
    NoComponent,
    /// No handler is registered under the id
    NoHandler,
    /// The scheduled actions kept scheduling new actions for more rounds
    /// than the scheduler allows
    ActionLoop,
    /// Two parts of the runtime tried to change the same component at once;
    /// this indicates a programming error
    BorrowError,
}

} // verus!
