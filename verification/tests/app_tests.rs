use festats::app::{App, ExitKey, InputMode, Key};
use festats::dispatch::{attempt_formula, Dispatch};

fn strings(items: &[&str]) -> Vec<String> {
    items.iter().map(|s| s.to_string()).collect()
}

fn type_text(app: &mut App, text: &str) {
    for c in text.chars() {
        assert_eq!(app.on_event(Key::Char(c)), ExitKey::Unchanged);
    }
}

#[test]
fn new_app_starts_empty_on_the_first_tab() {
    let mut app = App::new("FeStats");
    assert_eq!(app.title, "FeStats");
    assert_eq!(app.input_mode, InputMode::Normal);
    assert!(!app.should_quit);
    assert_eq!(app.tabs.index, 0);
    assert_eq!(app.tabs.titles, vec!["Probability", "Intervals", "Tests", "Regressions"]);
    assert_eq!(app.current_title(), "Probability");
    assert_eq!(app.items.len(), 4);
    assert_eq!(app.items[0].items.len(), 23);
    assert_eq!(app.items[1].items.len(), 6);
    assert_eq!(app.items[2].items.len(), 10);
    assert_eq!(app.items[3].items.len(), 14);
    assert_eq!(app.items[0].items[0], "Factorial (!)");
    assert_eq!(app.items[0].items[22], "Poisson Cdf");
    assert_eq!(app.items[1].items[5], "2-Prop z Interval");
    assert_eq!(app.items[2].items[9], "ANOVA");
    assert_eq!(app.items[3].items[13], "Correlation Matrix");
    for t in 0..4 {
        assert_eq!(app.items[t].state.selected(), None);
        assert_eq!(app.input[t], (0, strings(&[""])));
        assert!(app.entered_inputs[t].is_empty());
    }
    assert_eq!(app.current_items().items.len(), 23);
    assert_eq!(app.current_formula(), "Factorial (!)");
}

#[test]
fn position_selects_the_first_item_from_nothing() {
    let mut app = App::new("t");
    app.position("next");
    assert_eq!(app.current_items().state.selected(), Some(0));
    let mut app = App::new("t");
    app.position("previous");
    assert_eq!(app.current_items().state.selected(), Some(0));
}

#[test]
fn position_moves_round_the_ends() {
    let mut app = App::new("t");
    app.position("next");
    app.position("previous");
    assert_eq!(app.current_items().state.selected(), Some(22));
    assert_eq!(app.current_formula(), "Poisson Cdf");
    app.position("next");
    assert_eq!(app.current_items().state.selected(), Some(0));
    app.position("next");
    assert_eq!(app.current_items().state.selected(), Some(1));
    assert_eq!(app.current_formula(), "Permutations");
}

#[test]
fn position_next_then_previous_returns() {
    let mut app = App::new("t");
    app.on_right();
    for start in 0..6 {
        app.current_items().state.select(Some(start));
        app.position("next");
        app.position("previous");
        assert_eq!(app.current_items().state.selected(), Some(start));
        app.position("previous");
        app.position("next");
        assert_eq!(app.current_items().state.selected(), Some(start));
    }
}

#[test]
fn selection_change_clears_the_session() {
    let mut app = App::new("t");
    app.position("next");
    app.current_input_text(0).push_str("12");
    app.current_input_text(2).push_str("7");
    app.current_input().0 = 3;
    app.current_stored_input().push("Factorial (!)".to_string());
    app.current_stored_input().push("12".to_string());
    app.position("next");
    assert_eq!(*app.current_input(), (0, strings(&[""])));
    assert!(app.current_stored_input().is_empty());
    assert!(app.current_stored_input_ref().is_empty());
    assert_eq!(app.current_input_text_ref(), "");
    app.current_input_text(0).push_str("3");
    app.commit_current_field();
    app.position("previous");
    assert_eq!(*app.current_input(), (0, strings(&[""])));
    assert!(app.current_stored_input().is_empty());
}

#[test]
fn selection_change_leaves_other_tabs_alone() {
    let mut app = App::new("t");
    app.input[1].1 = strings(&["7", "8"]);
    app.entered_inputs[1] = strings(&["z Interval", "7"]);
    app.current_input_text(0).push_str("5");
    app.commit_current_field();
    app.position("next");
    assert_eq!(app.input[1], (0, strings(&["7", "8"])));
    assert_eq!(app.entered_inputs[1], strings(&["z Interval", "7"]));
    assert_eq!(app.items[1].state.selected(), None);
}

#[test]
fn tab_change_clears_the_session_of_the_tab_that_is_opened() {
    let mut app = App::new("t");
    app.input[1] = (3, strings(&["7", "8"]));
    app.entered_inputs[1] = strings(&["z Interval", "7"]);
    app.on_right();
    assert_eq!(app.tabs.index, 1);
    assert!(app.current_stored_input_ref().is_empty());
    assert_eq!(app.current_input_text_ref(), "");
    assert_eq!(*app.current_input(), (0, strings(&[""])));

    app.input[0] = (2, strings(&["1", "2"]));
    app.entered_inputs[0] = strings(&["Factorial (!)", "1"]);
    app.on_left();
    assert_eq!(app.tabs.index, 0);
    assert!(app.current_stored_input_ref().is_empty());
    assert_eq!(app.current_input_text_ref(), "");
    assert_eq!(*app.current_input(), (0, strings(&[""])));

    app.input[3] = (1, strings(&["x"]));
    app.entered_inputs[3] = strings(&["Cubic Regression", "1,2"]);
    app.on_key('r');
    assert_eq!(app.tabs.index, 3);
    assert!(app.current_stored_input_ref().is_empty());
    assert_eq!(*app.current_input(), (0, strings(&[""])));

    app.input[2] = (1, strings(&["x"]));
    app.entered_inputs[2] = strings(&["z Test", "1"]);
    assert_eq!(app.on_event(Key::Left), ExitKey::Unchanged);
    assert_eq!(app.tabs.index, 2);
    assert!(app.current_stored_input_ref().is_empty());
    assert_eq!(*app.current_input(), (0, strings(&[""])));
}

#[test]
fn tab_change_leaves_the_other_tabs_alone() {
    let mut app = App::new("t");
    app.position("next");
    app.position("next");
    app.current_input_text(0).push_str("5");
    app.commit_current_field();
    app.on_right();
    assert_eq!(app.input[0], (0, strings(&["5"])));
    assert_eq!(app.entered_inputs[0], strings(&["Permutations", "5"]));
    assert_eq!(app.items[0].state.selected(), Some(1));
    assert_eq!(app.input[2], (0, strings(&[""])));
    assert!(!app.should_quit);
    assert_eq!(app.input_mode, InputMode::Normal);
    app.on_left();
    assert_eq!(app.current_items().state.selected(), Some(1));
    assert_eq!(app.current_formula(), "Permutations");
    assert!(app.current_stored_input_ref().is_empty());
}

#[test]
fn shortcut_to_the_open_tab_keeps_the_session() {
    let mut app = App::new("t");
    app.current_input_text(0).push_str("5");
    app.commit_current_field();
    app.on_key('p');
    assert_eq!(app.current_stored_input_ref(), &strings(&["Factorial (!)", "5"]));
    assert_eq!(app.current_input_text_ref(), "5");
    app.on_key('x');
    app.on_key('q');
    assert_eq!(app.current_stored_input_ref(), &strings(&["Factorial (!)", "5"]));
    app.on_key('i');
    app.on_key('p');
    assert!(app.current_stored_input_ref().is_empty());
    assert_eq!(app.current_input_text_ref(), "");
}

#[test]
fn commit_and_typing_leave_the_cursor_alone() {
    let mut app = App::new("t");
    app.current_input().0 = 4;
    app.push_char('5');
    app.pop_char();
    app.push_char('6');
    app.commit_current_field();
    assert_eq!(*app.current_input(), (4, strings(&["6"])));
}

#[test]
fn buffers_grow_up_to_the_index_asked_for() {
    let mut app = App::new("t");
    assert_eq!(app.current_input().1.len(), 1);
    assert_eq!(app.current_input_text(0), "");
    assert_eq!(app.current_input().1.len(), 1);
    app.current_input_text(3).push('x');
    assert_eq!(app.current_input().1, strings(&["", "", "", "x"]));
    assert_eq!(app.current_input_text(1), "");
    assert_eq!(app.current_input().1.len(), 4);
    app.grow_input(2);
    assert_eq!(app.current_input().1.len(), 4);
    app.grow_input(4);
    assert_eq!(app.current_input().1, strings(&["", "", "", "x", ""]));
}

#[test]
fn buffers_are_joined_with_spaces() {
    let mut app = App::new("t");
    assert_eq!(app.current_input_text_ref(), "");
    app.current_input_text(0).push_str("1");
    assert_eq!(app.current_input_text_ref(), "1");
    app.current_input_text(2).push_str("3");
    assert_eq!(app.current_input_text_ref(), "1  3");
    app.current_input_text(1).push_str("2");
    assert_eq!(app.current_input_text_ref(), "1 2 3");
}

#[test]
fn tabs_turn_round() {
    let mut app = App::new("t");
    app.on_left();
    assert_eq!(app.tabs.index, 3);
    assert_eq!(app.current_title(), "Regressions");
    app.on_right();
    assert_eq!(app.tabs.index, 0);
    for _ in 0..4 {
        app.on_right();
    }
    assert_eq!(app.tabs.index, 0);
    app.on_right();
    assert_eq!(app.current_title(), "Intervals");
    assert_eq!(app.current_formula(), "z Interval");
}

#[test]
fn shortcut_keys() {
    let mut app = App::new("t");
    app.on_key('r');
    assert_eq!(app.tabs.index, 3);
    app.on_key('t');
    assert_eq!(app.tabs.index, 2);
    app.on_key('i');
    assert_eq!(app.tabs.index, 1);
    app.on_key('x');
    assert_eq!(app.tabs.index, 1);
    assert!(!app.should_quit);
    app.on_key('p');
    assert_eq!(app.tabs.index, 0);
    app.on_key('q');
    assert!(app.should_quit);
    assert_eq!(app.tabs.index, 0);
}

#[test]
fn typing_edits_the_active_field() {
    let mut app = App::new("t");
    app.position("next");
    app.position("next");
    assert_eq!(app.current_formula(), "Permutations");
    assert_eq!(app.active_field_index(), 0);
    app.push_char('5');
    app.push_char('x');
    app.pop_char();
    assert_eq!(app.current_input().1, strings(&["5"]));
    app.commit_current_field();
    assert_eq!(app.current_stored_input_ref(), &strings(&["Permutations", "5"]));
    assert_eq!(app.active_field_index(), 1);
    app.pop_char();
    assert_eq!(app.current_input().1, strings(&["5", ""]));
    app.push_char('2');
    assert_eq!(app.current_input().1, strings(&["5", "2"]));
    app.commit_current_field();
    assert_eq!(app.current_stored_input_ref(), &strings(&["Permutations", "5", "2"]));
    assert_eq!(app.active_field_index(), 0);
}

#[test]
fn commit_trims_the_buffer() {
    let mut app = App::new("t");
    app.current_input_text(0).push_str("  5 ");
    app.commit_current_field();
    assert_eq!(app.current_stored_input_ref(), &strings(&["Factorial (!)", "5"]));
    assert_eq!(app.current_input().1, strings(&["  5 "]));
}

#[test]
fn commit_discards_stale_values() {
    let mut app = App::new("t");
    app.current_stored_input().push("Normal Pdf".to_string());
    app.current_stored_input().push("1".to_string());
    app.current_stored_input().push("2".to_string());
    app.current_input_text(0).push_str("4");
    app.commit_current_field();
    assert_eq!(app.current_stored_input_ref(), &strings(&["Factorial (!)", "4"]));
}

#[test]
fn commit_past_the_last_field_is_allowed() {
    let mut app = App::new("t");
    app.current_input_text(0).push_str("4");
    app.commit_current_field();
    app.commit_current_field();
    assert_eq!(app.current_stored_input_ref(), &strings(&["Factorial (!)", "4", "4"]));
}

#[test]
fn reset_clears_the_open_tab_only() {
    let mut app = App::new("t");
    app.input[1].1 = strings(&["", "9"]);
    app.entered_inputs[1] = strings(&["z Interval", ""]);
    app.current_input_text(0).push_str("4");
    app.commit_current_field();
    app.reset();
    assert_eq!(*app.current_input(), (0, strings(&[""])));
    assert!(app.current_stored_input_ref().is_empty());
    assert_eq!(app.input[1].1, strings(&["", "9"]));
    assert_eq!(app.entered_inputs[1], strings(&["z Interval", ""]));
}

#[test]
fn keys_collect_and_dispatch_a_formula() {
    let mut app = App::new("t");
    assert_eq!(app.on_event(Key::Down), ExitKey::Unchanged);
    assert_eq!(app.on_event(Key::Enter), ExitKey::Disabled);
    assert_eq!(app.input_mode, InputMode::Editing);
    type_text(&mut app, "5q");
    assert!(!app.should_quit);
    assert_eq!(app.on_event(Key::Backspace), ExitKey::Unchanged);
    assert_eq!(app.on_event(Key::Enter), ExitKey::Enabled);
    assert_eq!(app.input_mode, InputMode::Normal);
    let name = app.current_formula();
    let result = attempt_formula(name, app.current_stored_input_ref());
    assert_eq!(result, Dispatch::Value("120".to_string()));
    assert_eq!(app.on_event(Key::Enter), ExitKey::Disabled);
    assert!(app.current_stored_input_ref().is_empty());
    assert_eq!(app.current_input().1, strings(&[""]));
    assert_eq!(app.on_event(Key::Esc), ExitKey::Enabled);
    assert_eq!(app.input_mode, InputMode::Normal);
}

#[test]
fn keys_outside_a_field_move_and_quit() {
    let mut app = App::new("t");
    app.on_event(Key::Right);
    assert_eq!(app.tabs.index, 1);
    app.on_event(Key::Char('l'));
    assert_eq!(app.tabs.index, 2);
    app.on_event(Key::Char('h'));
    app.on_event(Key::Left);
    assert_eq!(app.tabs.index, 0);
    app.on_event(Key::Char('j'));
    app.on_event(Key::Char('j'));
    assert_eq!(app.current_items().state.selected(), Some(1));
    app.on_event(Key::Char('k'));
    assert_eq!(app.current_items().state.selected(), Some(0));
    app.on_event(Key::Up);
    assert_eq!(app.current_items().state.selected(), Some(22));
    app.on_event(Key::Char('r'));
    assert_eq!(app.tabs.index, 3);
    assert_eq!(app.on_event(Key::Other), ExitKey::Unchanged);
    assert_eq!(app.on_event(Key::Backspace), ExitKey::Unchanged);
    assert_eq!(app.on_event(Key::Esc), ExitKey::Unchanged);
    assert_eq!(app.tabs.index, 3);
    assert!(!app.should_quit);
    app.on_event(Key::Char('q'));
    assert!(app.should_quit);
}

#[test]
fn keys_in_a_field_do_not_move() {
    let mut app = App::new("t");
    app.start_editing();
    app.on_event(Key::Left);
    app.on_event(Key::Right);
    app.on_event(Key::Down);
    app.on_event(Key::Up);
    app.on_event(Key::Other);
    assert_eq!(app.tabs.index, 0);
    assert_eq!(app.current_items().state.selected(), None);
    assert_eq!(app.input_mode, InputMode::Editing);
    type_text(&mut app, "hjkl");
    assert_eq!(app.current_input().1, strings(&["hjkl"]));
    app.stop_editing();
    assert_eq!(app.input_mode, InputMode::Normal);
    assert_eq!(app.current_input().1, strings(&["hjkl"]));
}

#[test]
fn no_name_is_listed_twice() {
    let app = App::new("t");
    let mut seen: Vec<&str> = Vec::new();
    for list in &app.items {
        for name in &list.items {
            assert!(!seen.contains(name), "{} is listed twice", name);
            seen.push(name);
        }
    }
    assert_eq!(seen.len(), 53);
}

#[test]
fn names_without_a_formula_are_found_at_the_start() {
    let app = App::new("t");
    assert_eq!(
        app.unregistered_items(),
        vec![
            "Inverse t",
            "Inverse χ2",
            "Inverse Binomial",
            "Inverse Binomial N",
            "Inverse F",
            "2-Sample z Interval",
            "1-Prop z Interval",
            "2-Sample z Test",
            "1-Prop z Test",
            "χ2 GOF",
            "χ2 2-way Test",
            "2-Sample F Test",
            "ANOVA",
            "Linear Regression (mx+b)",
            "Linear Regression (a+bx)",
            "Median-Median Line",
            "Quadratic Regression",
            "Cubic Regression",
            "Quartic Regression",
            "Power Regression",
            "Exponential Regression",
            "Logarithmic Regression",
            "Sinusoidal Regression",
            "Logistic Regression (d=0)",
            "Logistic Regression (d!=0)",
            "Multiple Linear Regression",
            "Correlation Matrix",
        ]
    );
    assert_eq!(app.unregistered_items().len(), 27);
}

#[test]
fn names_without_a_formula_follow_the_lists() {
    let mut app = App::new("t");
    app.items[3].items = vec!["z Test", "Nothing", "t Pdf"];
    app.items[0].items = vec!["Mean", "Factorial (!)"];
    app.items[1].items = vec![];
    app.items[2].items = vec!["Nothing"];
    assert_eq!(app.unregistered_items(), vec!["Mean", "Nothing", "Nothing"]);
}
