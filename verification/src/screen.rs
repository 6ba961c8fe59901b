//! The screens of the application.
use vstd::prelude::*;

verus! {

/// Which screen is currently shown.
#[derive(Debug, Clone, Copy, PartialEq, Eq, Structural)]
pub enum View {
    Schedulers,
    Logs,
}

} // verus!
