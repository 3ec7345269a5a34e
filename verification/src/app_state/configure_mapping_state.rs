//! The editor for the mapping of one input directory: the mapping under
//! edit, which of the five inputs has the focus, and what a key does.

use super::app_transition::{AppTransition, AppTransitionView};
use super::mapping_state::{MappedDir, MappedDirView, MappingState, NUM_CONFIGS};
use crate::input_form::{next_focus, prev_focus, spec_next_focus, spec_prev_focus};
use vstd::prelude::*;

verus! {

/// The keys that the editor tells apart.
#[derive(Debug, Clone, Copy, PartialEq, Eq)]
pub enum FormKey {
    /// Escape, or `q`.
    Esc,
    Enter,
    BackTab,
    Tab,
    /// Every other key.
    Other,
}

/// How the mapping under edit stands to what is stored for its directory.
#[derive(Debug, Clone, Copy, PartialEq, Eq)]
pub enum MappingStatus {
    /// The stored mapping has the same configuration strings.
    Saved,
    /// The stored mapping has other configuration strings.
    Changed,
    /// Nothing is stored for the directory.
    New,
}

/// The status of the mapping `edited`, given what is stored.
pub open spec fn spec_status(
    stored: Option<MappedDirView>,
    edited: MappedDirView,
) -> MappingStatus {
    match stored {
        Some(old) => if old.configs == edited.configs {
            MappingStatus::Saved
        } else {
            MappingStatus::Changed
        },
        None => MappingStatus::New,
    }
}

/// The editor's state.
pub struct ConfigureMappingState {
    /// The index in the list of the directory under edit.
    pub mapping_idx: usize,
    /// The mapping under edit.
    pub mapped_dir: MappedDir,
    /// The input that has the focus, if one has.
    pub focused_input: Option<usize>,
}

/// A `ConfigureMappingState` over the model of its mapping.
pub struct ConfigureMappingStateView {
    pub mapping_idx: usize,
    pub mapped_dir: MappedDirView,
    pub focused_input: Option<usize>,
}

impl View for ConfigureMappingState {
    type V = ConfigureMappingStateView;

    open spec fn view(&self) -> ConfigureMappingStateView {
        ConfigureMappingStateView {
            mapping_idx: self.mapping_idx,
            mapped_dir: self.mapped_dir@,
            focused_input: self.focused_input,
        }
    }
}

/// What the key `key` makes of the editor's state: the new focus, and the
/// transition that the key asks for.
pub open spec fn spec_on_key(state: ConfigureMappingStateView, key: FormKey) -> (
    Option<usize>,
    AppTransitionView,
) {
    match key {
        FormKey::Esc => if state.focused_input is Some {
            (None, AppTransitionView::Stay)
        } else {
            (None, AppTransitionView::AbortConfiguration)
        },
        FormKey::Enter => (
            state.focused_input,
            AppTransitionView::CommitConfiguration(state.mapping_idx, state.mapped_dir),
        ),
        FormKey::BackTab => (
            spec_prev_focus(state.focused_input, NUM_CONFIGS),
            AppTransitionView::Stay,
        ),
        FormKey::Tab => (
            spec_next_focus(state.focused_input, NUM_CONFIGS),
            AppTransitionView::Stay,
        ),
        FormKey::Other => (state.focused_input, AppTransitionView::Stay),
    }
}

impl ConfigureMappingState {
    /// The editor for the directory at `mapping_idx` of the list, starting
    /// from `mapped_dir`, with no input focused.
    pub fn new(mapping_idx: usize, mapped_dir: MappedDir) -> (state: ConfigureMappingState)
        ensures
            state@ == (ConfigureMappingStateView {
                mapping_idx,
                mapped_dir: mapped_dir@,
                focused_input: None,
            }),
    {
        ConfigureMappingState { mapping_idx, mapped_dir, focused_input: None }
    }

    /// How the mapping under edit stands to `existing`, the state that the
    /// list holds for the same directory.
    pub fn status(&self, existing: &MappingState) -> (status: MappingStatus)
        requires
            existing@.stored() matches Some(stored) ==> stored.in_dir_path
                == self@.mapped_dir.in_dir_path,
        ensures
            status == spec_status(existing@.stored(), self@.mapped_dir),
    {
        match existing {
            MappingState::HasMapping { mapped_dir } => {
                if mapped_dir.configs_eq(&self.mapped_dir) {
                    MappingStatus::Saved
                } else {
                    MappingStatus::Changed
                }
            },
            MappingState::Unmapped { in_path: _ } => MappingStatus::New,
        }
    }

    /// Handles a key that no input took for itself.
    ///
    /// Escape leaves the focused input, or the editor when none is focused;
    /// Enter asks to commit the mapping as it stands; Tab and BackTab move
    /// the focus; every other key does nothing.
    pub fn on_key(&mut self, key: FormKey) -> (transition: AppTransition)
        ensures
            transition@ == spec_on_key(old(self)@, key).1,
            final(self)@ == (ConfigureMappingStateView {
                focused_input: spec_on_key(old(self)@, key).0,
                ..old(self)@
            }),
    {
        match key {
            FormKey::Esc => {
                if self.focused_input.is_some() {
                    self.focused_input = None;
                    AppTransition::Stay
                } else {
                    AppTransition::AbortConfiguration
                }
            },
            FormKey::Enter => AppTransition::CommitConfiguration(
                self.mapping_idx,
                self.mapped_dir.clone(),
            ),
            FormKey::BackTab => {
                self.focused_input = prev_focus(self.focused_input, NUM_CONFIGS);
                AppTransition::Stay
            },
            FormKey::Tab => {
                self.focused_input = next_focus(self.focused_input, NUM_CONFIGS);
                AppTransition::Stay
            },
            FormKey::Other => AppTransition::Stay,
        }
    }
}

} // verus!
