//! The menu: a row of tabs, one of which is active.

use vstd::prelude::*;
use crate::components::events::{EventState, Focus, Key};

verus! {

/// The tabs of the menu.
#[derive(Clone, Copy, Debug, PartialEq, Eq, Structural)]
pub enum MenuItem {
    Home,
    File,
}

/// The place of a tab in the row, counted from the left.
pub open spec fn tab_index(item: MenuItem) -> usize {
    match item {
        MenuItem::Home => 0,
        MenuItem::File => 1,
    }
}

/// The body that belongs to a tab.
pub open spec fn focus_of(item: MenuItem) -> Focus {
    match item {
        MenuItem::Home => Focus::HomeTabBody,
        MenuItem::File => Focus::FileTabBody,
    }
}

/// The tab that a key selects, if it selects one.
pub open spec fn selected_by(key: Key) -> Option<MenuItem> {
    if key == Key::Char('h') {
        Some(MenuItem::Home)
    } else if key == Key::Char('f') {
        Some(MenuItem::File)
    } else {
        None
    }
}

impl MenuItem {
    /// The place of the tab in the row, counted from the left.
    pub fn index(self) -> (index: usize)
        ensures
            index == tab_index(self),
    {
        match self {
            MenuItem::Home => 0,
            MenuItem::File => 1,
        }
    }
}

impl From<MenuItem> for usize {
    fn from(input: MenuItem) -> (index: usize) {
        input.index()
    }
}

impl vstd::std_specs::convert::FromSpecImpl<MenuItem> for usize {
    open spec fn obeys_from_spec() -> bool {
        true
    }

    open spec fn from_spec(input: MenuItem) -> usize {
        tab_index(input)
    }
}

/// The menu and its active tab.
#[derive(Clone, Copy, Debug, PartialEq, Eq)]
pub struct MenuContainerComponent {
    pub active_menu_item: MenuItem,
}

impl MenuContainerComponent {
    /// The menu with the first tab active.
    pub fn new() -> (menu: MenuContainerComponent)
        ensures
            menu.active_menu_item == MenuItem::Home,
    {
        MenuContainerComponent { active_menu_item: MenuItem::Home }
    }

    /// The body that belongs to the active tab.
    pub fn active_focus(&self) -> (focus: Focus)
        ensures
            focus == focus_of(self.active_menu_item),
    {
        match self.active_menu_item {
            MenuItem::Home => Focus::HomeTabBody,
            MenuItem::File => Focus::FileTabBody,
        }
    }

    /// Makes a tab the active one.
    pub fn set_active(&mut self, active_menu_item: MenuItem)
        ensures
            final(self).active_menu_item == active_menu_item,
    {
        self.active_menu_item = active_menu_item;
    }

    /// Hands a key to the menu: `h` and `f` select a tab and are consumed,
    /// every other key is left to others and changes nothing.
    pub fn event(&mut self, key: Key) -> (state: EventState)
        ensures
            match selected_by(key) {
                Some(item) => final(self).active_menu_item == item && state
                    == EventState::Consumed,
                None => final(self).active_menu_item == old(self).active_menu_item && state
                    == EventState::NotConsumed,
            },
    {
        if key == Key::Char('h') {
            self.set_active(MenuItem::Home);
            return EventState::Consumed;
        }
        if key == Key::Char('f') {
            self.set_active(MenuItem::File);
            return EventState::Consumed;
        }
        EventState::NotConsumed
    }
}

} // verus!
