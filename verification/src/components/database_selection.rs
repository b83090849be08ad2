//! The list of configured databases, one of which is selected.

use vstd::prelude::*;
use vstd::string::*;
use crate::components::events::{EventState, Key};
use crate::text::text_views;

verus! {

/// The keys that move the selection.
#[derive(Clone, Copy, Debug, PartialEq, Eq)]
pub struct KeyConfig {
    pub database_select_up: Key,
    pub database_select_down: Key,
}

/// What the front is configured with: the names of the databases, in the
/// order in which they are shown, and the keys.
#[derive(Debug, PartialEq, Eq)]
pub struct Config {
    pub databases: Vec<String>,
    pub key_config: KeyConfig,
}

impl Clone for Config {
    fn clone(&self) -> (copy: Config)
        ensures
            text_views(copy.databases@) == text_views(self.databases@),
            copy.key_config == self.key_config,
    {
        Config { databases: clone_names(&self.databases), key_config: self.key_config }
    }
}

/// A copy of a list of names.
fn clone_names(names: &Vec<String>) -> (copy: Vec<String>)
    ensures
        text_views(copy@) == text_views(names@),
{
    let mut copy: Vec<String> = Vec::new();
    let mut i: usize = 0;
    while i < names.len()
        invariant
            i <= names.len(),
            copy@.len() == i,
            forall|j: int| 0 <= j < i ==> copy@[j]@ == names@[j]@,
        decreases names.len() - i,
    {
        copy.push(names[i].clone());
        i += 1;
    }
    assert(text_views(copy@) =~= text_views(names@));
    copy
}

/// The selection after a step down a list of `len` items: the item below,
/// the first after the last, the first where nothing was selected. An empty
/// list keeps its selection.
pub open spec fn below(selected: Option<usize>, len: nat) -> Option<usize> {
    if len == 0 {
        selected
    } else {
        match selected {
            Some(i) => if i + 1 >= len {
                Some(0)
            } else {
                Some((i + 1) as usize)
            },
            None => Some(0),
        }
    }
}

/// The selection after a step up a list of `len` items: the item above, the
/// last before the first, the first where nothing was selected. An empty
/// list keeps its selection.
pub open spec fn above(selected: Option<usize>, len: nat) -> Option<usize> {
    if len == 0 {
        selected
    } else {
        match selected {
            Some(i) => if i == 0 || i > len {
                Some((len - 1) as usize)
            } else {
                Some((i - 1) as usize)
            },
            None => Some(0),
        }
    }
}

/// A list of items with a selection.
#[derive(Debug, PartialEq, Eq)]
pub struct StatefulList {
    pub items: Vec<String>,
    pub state: Option<usize>,
}

impl StatefulList {
    /// The list of `items` with the given selection.
    pub fn with_items(items: Vec<String>, state: Option<usize>) -> (list: StatefulList)
        ensures
            list.items == items,
            list.state == state,
    {
        StatefulList { items, state }
    }

    /// Moves the selection one item down.
    pub fn next(&mut self)
        ensures
            final(self).items == old(self).items,
            final(self).state == below(old(self).state, old(self).items@.len()),
    {
        if self.items.len() == 0 {
            return ;
        }
        let selected = match self.state {
            Some(i) => if i >= self.items.len() - 1 {
                0
            } else {
                i + 1
            },
            None => 0,
        };
        self.state = Some(selected);
    }

    /// Moves the selection one item up.
    pub fn previous(&mut self)
        ensures
            final(self).items == old(self).items,
            final(self).state == above(old(self).state, old(self).items@.len()),
    {
        if self.items.len() == 0 {
            return ;
        }
        let selected = match self.state {
            Some(i) => if i == 0 || i > self.items.len() {
                self.items.len() - 1
            } else {
                i - 1
            },
            None => 0,
        };
        self.state = Some(selected);
    }
}

/// The list that shows the configured databases, the first one selected.
fn build_list(config: &Config) -> (list: StatefulList)
    ensures
        text_views(list.items@) == text_views(config.databases@),
        list.state == Some(0usize),
{
    StatefulList::with_items(clone_names(&config.databases), Some(0))
}

/// The selection that a key leaves: the key for up moves it up, the key for
/// down moves it down, any other key leaves it.
pub open spec fn moved(keys: KeyConfig, key: Key, selected: Option<usize>, len: nat) -> Option<
    usize,
> {
    if key == keys.database_select_up {
        above(selected, len)
    } else if key == keys.database_select_down {
        below(selected, len)
    } else {
        selected
    }
}

/// The component that lets the user pick a database.
#[derive(Debug, PartialEq, Eq)]
pub struct DatabaseSelectionComponent {
    pub config: Config,
    pub list: StatefulList,
}

impl DatabaseSelectionComponent {
    /// The keys that move the selection.
    pub open spec fn keys(&self) -> KeyConfig {
        self.config.key_config
    }

    /// The component for a configuration: its databases, the first one
    /// selected.
    pub fn new(config: Config) -> (component: DatabaseSelectionComponent)
        ensures
            text_views(component.list.items@) == text_views(config.databases@),
            component.list.state == Some(0usize),
            component.config == config,
    {
        DatabaseSelectionComponent { list: build_list(&config), config }
    }

    /// The index of the selected database.
    pub fn state(&self) -> (selected: Option<usize>)
        ensures
            selected == self.list.state,
    {
        self.list.state
    }

    /// Hands a key to the component. The keys for up and down move the
    /// selection and are consumed; every other key is left to others.
    pub fn event(&mut self, key: Key) -> (state: EventState)
        ensures
            final(self).keys() == old(self).keys(),
            final(self).list.items == old(self).list.items,
            final(self).list.state == moved(
                old(self).keys(),
                key,
                old(self).list.state,
                old(self).list.items@.len(),
            ),
            state == if key == old(self).keys().database_select_up || key == old(
                self,
            ).keys().database_select_down {
                EventState::Consumed
            } else {
                EventState::NotConsumed
            },
    {
        if key == self.config.key_config.database_select_up {
            self.list.previous();
            return EventState::Consumed;
        }
        if key == self.config.key_config.database_select_down {
            self.list.next();
            return EventState::Consumed;
        }
        EventState::NotConsumed
    }
}

} // verus!
