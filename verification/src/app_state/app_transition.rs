//! What a handled event asks the application to do next.

use super::mapping_state::{MappedDir, MappedDirView};
use vstd::prelude::*;

verus! {

/// The request that handling an event ends in.
pub enum AppTransition {
    /// Stay as it is.
    Stay,
    /// Leave the program.
    Quit,
    /// Open the editor for the directory at this index of the list.
    StartConfiguringIdx(usize),
    /// Close the editor and drop the edited mapping.
    AbortConfiguration,
    /// Close the editor and commit the edited mapping for the directory at
    /// this index of the list.
    CommitConfiguration(usize, MappedDir),
}

/// An `AppTransition` over the model of the mapping it may carry.
pub enum AppTransitionView {
    Stay,
    Quit,
    StartConfiguringIdx(usize),
    AbortConfiguration,
    CommitConfiguration(usize, MappedDirView),
}

impl View for AppTransition {
    type V = AppTransitionView;

    open spec fn view(&self) -> AppTransitionView {
        match self {
            AppTransition::Stay => AppTransitionView::Stay,
            AppTransition::Quit => AppTransitionView::Quit,
            AppTransition::StartConfiguringIdx(idx) => AppTransitionView::StartConfiguringIdx(*idx),
            AppTransition::AbortConfiguration => AppTransitionView::AbortConfiguration,
            AppTransition::CommitConfiguration(idx, mapped_dir) => {
                AppTransitionView::CommitConfiguration(*idx, mapped_dir@)
            },
        }
    }
}

/// Whether the event loop goes on after a transition was handled.
#[derive(Debug, Clone, Copy, PartialEq, Eq)]
pub enum AppResult {
    KeepGoing,
    Quit,
}

impl AppTransition {
    /// Only `Quit` ends the event loop.
    pub fn result(&self) -> (result: AppResult)
        ensures
            result == (if self@ == AppTransitionView::Quit {
                AppResult::Quit
            } else {
                AppResult::KeepGoing
            }),
    {
        match self {
            AppTransition::Quit => AppResult::Quit,
            _ => AppResult::KeepGoing,
        }
    }
}

} // verus!
