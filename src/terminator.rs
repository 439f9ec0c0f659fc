//! The reasons a shutdown is broadcast for.
use vstd::prelude::*;

verus! {

/// Why the application is shutting down.
#[derive(Clone, Copy, Debug, PartialEq, Eq, Structural)]
pub enum Interrupted {
    /// The operating system asked the process to stop.
    OsSigInt,
    /// The user asked to quit.
    UserInt,
}

} // verus!
