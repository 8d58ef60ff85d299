use festats::selection::{ListState, StatefulList, TabsState};

#[test]
fn tabs_start_at_the_first() {
    let tabs = TabsState::new(vec!["a", "b", "c"]);
    assert_eq!(tabs.index, 0);
    assert_eq!(tabs.titles, vec!["a", "b", "c"]);
}

#[test]
fn tabs_move_round_the_ends() {
    let mut tabs = TabsState::new(vec!["a", "b", "c"]);
    tabs.next();
    assert_eq!(tabs.index, 1);
    tabs.next();
    assert_eq!(tabs.index, 2);
    tabs.next();
    assert_eq!(tabs.index, 0);
    tabs.previous();
    assert_eq!(tabs.index, 2);
    tabs.previous();
    assert_eq!(tabs.index, 1);
}

#[test]
fn as_many_steps_as_tabs_lead_back() {
    for count in 1..6usize {
        let titles: Vec<&str> = vec!["t"; count];
        for start in 0..count {
            let mut tabs = TabsState::new(titles.clone());
            tabs.set_index(start);
            for _ in 0..count {
                tabs.next();
            }
            assert_eq!(tabs.index, start);
            for _ in 0..count {
                tabs.previous();
            }
            assert_eq!(tabs.index, start);
        }
    }
}

#[test]
fn set_index_jumps_to_an_existing_tab_only() {
    let mut tabs = TabsState::new(vec!["a", "b", "c"]);
    tabs.set_index(2);
    assert_eq!(tabs.index, 2);
    tabs.set_index(3);
    assert_eq!(tabs.index, 2);
    tabs.set_index(0);
    assert_eq!(tabs.index, 0);
}

#[test]
fn list_state_holds_what_was_selected() {
    let mut state = ListState::new();
    assert_eq!(state.selected(), None);
    state.select(Some(3));
    assert_eq!(state.selected(), Some(3));
    state.select(None);
    assert_eq!(state.selected(), None);
}

#[test]
fn list_selects_the_first_item_from_nothing() {
    let mut list = StatefulList::with_items(vec!["x", "y", "z"]);
    assert_eq!(list.state.selected(), None);
    assert_eq!(list.current_item(), "x");
    list.next();
    assert_eq!(list.state.selected(), Some(0));
    let mut list = StatefulList::with_items(vec!["x", "y", "z"]);
    list.previous();
    assert_eq!(list.state.selected(), Some(0));
}

#[test]
fn list_moves_round_the_ends() {
    let mut list = StatefulList::with_items(vec!["x", "y", "z"]);
    list.state.select(Some(2));
    assert_eq!(list.current_item(), "z");
    list.next();
    assert_eq!(list.state.selected(), Some(0));
    list.previous();
    assert_eq!(list.state.selected(), Some(2));
    list.previous();
    assert_eq!(list.state.selected(), Some(1));
    assert_eq!(list.current_item(), "y");
}

#[test]
fn next_and_previous_undo_each_other() {
    for count in 1..5usize {
        for start in 0..count {
            let mut list = StatefulList::with_items(vec!["i"; count]);
            list.state.select(Some(start));
            list.next();
            list.previous();
            assert_eq!(list.state.selected(), Some(start));
            list.previous();
            list.next();
            assert_eq!(list.state.selected(), Some(start));
        }
    }
}
