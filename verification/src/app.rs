use vstd::prelude::*;

verus! {

/// Which main view the application shows: the search home, the download
/// manager, or the license text opened from one of the two.
#[derive(Debug, Clone, Copy, PartialEq, Eq, Structural)]
pub enum AppState {
    Home,
    Download,
    License(FromState),
}

/// The view the license text was opened from, so that closing it returns
/// there.
#[derive(Debug, Clone, Copy, PartialEq, Eq, Structural)]
pub enum FromState {
    Home,
    Download,
}

impl From<&FromState> for AppState {
    /// Returning from the license view restores the view it was opened
    /// from.
    fn from(value: &FromState) -> (r: Self) {
        match value {
            FromState::Home => AppState::Home,
            FromState::Download => AppState::Download,
        }
    }
}

impl vstd::std_specs::convert::FromSpecImpl<&FromState> for AppState {
    open spec fn obeys_from_spec() -> bool {
        true
    }

    open spec fn from_spec(value: &FromState) -> Self {
        match value {
            FromState::Home => AppState::Home,
            FromState::Download => AppState::Download,
        }
    }
}

} // verus!
