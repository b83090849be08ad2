use traversal_engine::components::database_selection::{
    Config, DatabaseSelectionComponent, KeyConfig, StatefulList,
};
use traversal_engine::components::events::{EventState, Focus, Key};
use traversal_engine::components::menu::{MenuContainerComponent, MenuItem};

fn config(names: &[&str]) -> Config {
    Config {
        databases: names.iter().map(|name| name.to_string()).collect(),
        key_config: KeyConfig { database_select_up: Key::Up, database_select_down: Key::Char('j') },
    }
}

#[test]
fn menu_starts_at_home() {
    let menu = MenuContainerComponent::new();
    assert_eq!(menu.active_menu_item, MenuItem::Home);
    assert_eq!(menu.active_focus(), Focus::HomeTabBody);
}

#[test]
fn menu_keys_select_tabs() {
    let mut menu = MenuContainerComponent::new();
    assert_eq!(menu.event(Key::Char('f')), EventState::Consumed);
    assert_eq!(menu.active_menu_item, MenuItem::File);
    assert_eq!(menu.active_focus(), Focus::FileTabBody);
    assert_eq!(menu.event(Key::Char('x')), EventState::NotConsumed);
    assert_eq!(menu.event(Key::Enter), EventState::NotConsumed);
    assert_eq!(menu.event(Key::Char('F')), EventState::NotConsumed);
    assert_eq!(menu.active_menu_item, MenuItem::File);
    assert_eq!(menu.event(Key::Char('h')), EventState::Consumed);
    assert_eq!(menu.active_menu_item, MenuItem::Home);
    menu.set_active(MenuItem::File);
    assert_eq!(menu.active_menu_item, MenuItem::File);
}

#[test]
fn menu_items_have_places() {
    assert_eq!(MenuItem::Home.index(), 0);
    assert_eq!(MenuItem::File.index(), 1);
    assert_eq!(usize::from(MenuItem::Home), 0);
    assert_eq!(usize::from(MenuItem::File), 1);
}

#[test]
fn selection_starts_at_first_database() {
    let component = DatabaseSelectionComponent::new(config(&["a", "b"]));
    assert_eq!(component.state(), Some(0));
    assert_eq!(component.list.items, vec!["a".to_string(), "b".to_string()]);
    assert_eq!(component.config, config(&["a", "b"]));
}

#[test]
fn selection_moves_and_wraps() {
    let mut component = DatabaseSelectionComponent::new(config(&["a", "b", "c"]));
    assert_eq!(component.event(Key::Char('j')), EventState::Consumed);
    assert_eq!(component.state(), Some(1));
    assert_eq!(component.event(Key::Char('j')), EventState::Consumed);
    assert_eq!(component.state(), Some(2));
    assert_eq!(component.event(Key::Char('j')), EventState::Consumed);
    assert_eq!(component.state(), Some(0));
    assert_eq!(component.event(Key::Up), EventState::Consumed);
    assert_eq!(component.state(), Some(2));
    assert_eq!(component.event(Key::Up), EventState::Consumed);
    assert_eq!(component.state(), Some(1));
    assert_eq!(component.event(Key::Down), EventState::NotConsumed);
    assert_eq!(component.event(Key::Char('k')), EventState::NotConsumed);
    assert_eq!(component.state(), Some(1));
}

#[test]
fn selection_on_empty_list_stays() {
    let mut component = DatabaseSelectionComponent::new(config(&[]));
    assert_eq!(component.state(), Some(0));
    assert_eq!(component.event(Key::Up), EventState::Consumed);
    assert_eq!(component.event(Key::Char('j')), EventState::Consumed);
    assert_eq!(component.state(), Some(0));
}

#[test]
fn up_wins_when_both_keys_are_the_same() {
    let mut both = config(&["a", "b", "c"]);
    both.key_config.database_select_down = Key::Up;
    let mut component = DatabaseSelectionComponent::new(both);
    assert_eq!(component.event(Key::Up), EventState::Consumed);
    assert_eq!(component.state(), Some(2));
}

#[test]
fn list_without_selection_selects_first() {
    let mut list = StatefulList::with_items(vec!["a".to_string(), "b".to_string()], None);
    list.next();
    assert_eq!(list.state, Some(0));
    let mut other = StatefulList::with_items(vec!["a".to_string(), "b".to_string()], None);
    other.previous();
    assert_eq!(other.state, Some(0));
    let mut stale = StatefulList::with_items(vec!["a".to_string(), "b".to_string()], Some(9));
    stale.next();
    assert_eq!(stale.state, Some(0));
    let mut stale_up = StatefulList::with_items(vec!["a".to_string(), "b".to_string()], Some(9));
    stale_up.previous();
    assert_eq!(stale_up.state, Some(1));
}

#[test]
fn config_clone_is_equal() {
    let original = config(&["a", "b"]);
    assert_eq!(original.clone(), original);
}
