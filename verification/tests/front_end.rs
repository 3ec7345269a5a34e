use dir_mapper::app_state::app_transition::AppTransition;
use dir_mapper::app_state::configure_mapping_state::{
    ConfigureMappingState, FormKey, MappingStatus,
};
use dir_mapper::app_state::mapping_state::{MappedDir, MappingState};
use dir_mapper::input_form::{next_focus, prev_focus};
use dir_mapper::listing::ListedEntry;
use dir_mapper::widgets::tree_list::{InteractionOutcome, TreeListState, WidgetEvent};

fn editor() -> ConfigureMappingState {
    let entries = vec![ListedEntry { name: "a.mkv".to_string(), is_dir: false, is_symlink: false }];
    let dir = MappedDir::deserialize(
        [
            "in/show".to_string(),
            "mkv".to_string(),
            "(.+)".to_string(),
            "$1".to_string(),
            "(.+)".to_string(),
            "$1".to_string(),
        ],
        &entries,
    );
    ConfigureMappingState::new(3, dir)
}

#[test]
fn focus_steps_forward_through_the_inputs() {
    assert_eq!(Some(0), next_focus(None, 3));
    assert_eq!(Some(1), next_focus(Some(0), 3));
    assert_eq!(Some(2), next_focus(Some(1), 3));
    assert_eq!(None, next_focus(Some(2), 3));
    assert_eq!(None, next_focus(Some(0), 1));
    assert_eq!(Some(0), next_focus(None, 0));
    assert_eq!(None, next_focus(Some(7), 3));
}

#[test]
fn focus_steps_back_through_the_inputs() {
    assert_eq!(Some(2), prev_focus(None, 3));
    assert_eq!(Some(1), prev_focus(Some(2), 3));
    assert_eq!(Some(0), prev_focus(Some(1), 3));
    assert_eq!(None, prev_focus(Some(0), 3));
    assert_eq!(Some(0), prev_focus(None, 1));
}

#[test]
fn focus_steps_undo_each_other() {
    for len in 1..6usize {
        let mut all = vec![None];
        all.extend((0..len).map(Some));
        for focused in all {
            assert_eq!(focused, prev_focus(next_focus(focused, len), len));
            assert_eq!(focused, next_focus(prev_focus(focused, len), len));
        }
    }
}

#[test]
fn editor_starts_without_focus() {
    let state = editor();
    assert_eq!(3, state.mapping_idx);
    assert_eq!(None, state.focused_input);
    assert_eq!("in/show", state.mapped_dir.in_dir_path());
}

#[test]
fn tab_walks_the_five_inputs() {
    let mut state = editor();
    for expected in [Some(0), Some(1), Some(2), Some(3), Some(4), None, Some(0)] {
        assert!(matches!(state.on_key(FormKey::Tab), AppTransition::Stay));
        assert_eq!(expected, state.focused_input);
    }
    for expected in [None, Some(4), Some(3)] {
        assert!(matches!(state.on_key(FormKey::BackTab), AppTransition::Stay));
        assert_eq!(expected, state.focused_input);
    }
}

#[test]
fn escape_leaves_the_input_first_and_the_editor_then() {
    let mut state = editor();
    state.on_key(FormKey::Tab);
    assert!(matches!(state.on_key(FormKey::Esc), AppTransition::Stay));
    assert_eq!(None, state.focused_input);
    assert!(matches!(state.on_key(FormKey::Esc), AppTransition::AbortConfiguration));
    assert_eq!(None, state.focused_input);
}

#[test]
fn enter_commits_the_mapping_as_it_stands() {
    let mut state = editor();
    state.on_key(FormKey::Tab);
    state.mapped_dir.config_mut(2, "$1_out".to_string());
    match state.on_key(FormKey::Enter) {
        AppTransition::CommitConfiguration(idx, dir) => {
            assert_eq!(3, idx);
            assert_eq!(["in/show", "mkv", "(.+)", "$1_out", "(.+)", "$1"], dir.serialize());
            assert_eq!(Some("show_out".to_string()), dir.out_dir_name());
        }
        _ => panic!("Enter did not ask for a commit"),
    }
    assert_eq!(Some(0), state.focused_input);
    assert!(matches!(state.on_key(FormKey::Other), AppTransition::Stay));
    assert_eq!(Some(0), state.focused_input);
}

#[test]
fn tree_list_passes_every_event_on() {
    let mut list = TreeListState::default();
    assert!(!list.is_focused());
    assert!(!list.changed());
    assert_eq!(InteractionOutcome::Bubble, list.handle_event(WidgetEvent::Key));
    list.focus();
    assert!(list.is_focused());
    assert_eq!(InteractionOutcome::Bubble, list.handle_event(WidgetEvent::Key));
    assert_eq!(InteractionOutcome::Bubble, list.handle_event(WidgetEvent::Other));
    assert!(list.is_focused());
    assert!(!list.changed());
    list.unfocus();
    assert!(!list.is_focused());
}

#[test]
fn status_compares_with_what_is_stored() {
    let mut state = editor();
    let unmapped = MappingState::from_lookup("in/show".to_string(), None);
    assert_eq!(MappingStatus::New, state.status(&unmapped));
    let stored = MappingState::from_lookup("in/show".to_string(), Some(state.mapped_dir.clone()));
    assert_eq!(MappingStatus::Saved, state.status(&stored));
    state.mapped_dir.config_mut(0, "mp4".to_string());
    assert_eq!(MappingStatus::Changed, state.status(&stored));
    assert_eq!(MappingStatus::New, state.status(&unmapped));
    state.mapped_dir.config_mut(0, "mkv".to_string());
    assert_eq!(MappingStatus::Saved, state.status(&stored));
}
