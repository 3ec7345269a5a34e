//! The state behind a list of paths shown as a tree: what it remembers
//! between two events, how it answers events, and how it takes or gives up
//! the focus.

use std::collections::HashSet;
use vstd::prelude::*;

verus! {

/// The kinds of event that a widget tells apart.
#[derive(Debug, Clone, Copy, PartialEq, Eq)]
pub enum WidgetEvent {
    /// A key was pressed.
    Key,
    /// Anything else: the mouse, a resize.
    Other,
}

/// What a widget did with an event.
#[derive(Debug, Clone, Copy, PartialEq, Eq)]
pub enum InteractionOutcome {
    /// The widget used the event; nobody else gets it.
    Consumed,
    /// The widget had no use for the event; it goes on to the next handler.
    Bubble,
}

/// The state of a tree list: whether it has the focus, whether the last
/// event changed it, which paths are collapsed, and where the view stands.
#[derive(Debug)]
pub struct TreeListState {
    changed: bool,
    focused: bool,
    collapsed_paths: HashSet<String>,
    scroll_offset: usize,
    focused_item: usize,
}

/// A `TreeListState` with its collapsed paths as a set.
pub struct TreeListStateView {
    pub changed: bool,
    pub focused: bool,
    pub collapsed_paths: Set<String>,
    pub scroll_offset: usize,
    pub focused_item: usize,
}

impl View for TreeListState {
    type V = TreeListStateView;

    closed spec fn view(&self) -> TreeListStateView {
        TreeListStateView {
            changed: self.changed,
            focused: self.focused,
            collapsed_paths: self.collapsed_paths@,
            scroll_offset: self.scroll_offset,
            focused_item: self.focused_item,
        }
    }
}

impl Default for TreeListState {
    /// An unfocused, unchanged list with nothing collapsed, at the top.
    fn default() -> (state: Self)
        ensures
            state@ == (TreeListStateView {
                changed: false,
                focused: false,
                collapsed_paths: Set::empty(),
                scroll_offset: 0,
                focused_item: 0,
            }),
    {
        TreeListState {
            changed: false,
            focused: false,
            collapsed_paths: HashSet::new(),
            scroll_offset: 0,
            focused_item: 0,
        }
    }
}


impl TreeListState {
    /// Offers an event to the list.  The list forgets that it had changed;
    /// so far it has no use for any event and passes every one on.
    pub fn handle_event(&mut self, event: WidgetEvent) -> (outcome: InteractionOutcome)
        ensures
            outcome == InteractionOutcome::Bubble,
            final(self)@ == (TreeListStateView { changed: false, ..old(self)@ }),
    {
        self.changed = false;
        if !self.focused {
            return InteractionOutcome::Bubble;
        }
        match event {
            WidgetEvent::Key => self.handle_key(),
            WidgetEvent::Other => InteractionOutcome::Bubble,
        }
    }

    /// Whether the last event changed the list.
    pub fn changed(&self) -> (changed: bool)
        ensures
            changed == self@.changed,
    {
        self.changed
    }

    pub fn is_focused(&self) -> (focused: bool)
        ensures
            focused == self@.focused,
    {
        self.focused
    }

    pub fn focus(&mut self)
        ensures
            final(self)@ == (TreeListStateView { focused: true, ..old(self)@ }),
    {
        self.focused = true;
    }

    pub fn unfocus(&mut self)
        ensures
            final(self)@ == (TreeListStateView { focused: false, ..old(self)@ }),
    {
        self.focused = false;
    }

    /// No key has a meaning for the list yet.
    fn handle_key(&mut self) -> (outcome: InteractionOutcome)
        ensures
            outcome == InteractionOutcome::Bubble,
            *final(self) == *old(self),
    {
        InteractionOutcome::Bubble
    }
}

} // verus!
