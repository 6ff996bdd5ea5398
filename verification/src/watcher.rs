//! Notifications about changes of a watched log file.
use vstd::prelude::*;

verus! {

/// File change notification
#[derive(Debug, Clone)]
pub enum FileEvent {
    Modified,
    Error(String),
}

} // verus!
