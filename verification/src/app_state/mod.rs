//! The state that the mapping engine keeps: the mapping of each input
//! directory, and the list of directories with what a commit does to it.

pub mod app_transition;
pub mod configure_mapping_state;
pub mod mapping_state;
pub mod selecting_input_state;
