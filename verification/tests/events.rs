use std::time::{Duration, Instant};
use tui::style::{Color, Style};
use tui::text::{Span, Spans};
use windows_registry_search::{
    handle_key, handle_key_at, overlay, tips_line, Focus, Key, KeyOutcome, OverlayBody, Root,
    SearchEditor, StaticSelection, DEBOUNCE_NANOS,
};

/// Presses keys, each of them a second after the one before.
fn press(focus: &mut Focus, selection: &mut StaticSelection, keys: &[Key]) -> Vec<KeyOutcome> {
    let mut outcomes = Vec::new();
    for (place, key) in keys.iter().enumerate() {
        let now = (place as u128 + 1) * 10 * DEBOUNCE_NANOS;
        outcomes.push(handle_key_at(focus, selection, *key, now));
    }
    outcomes
}

fn listed(selection: &StaticSelection) -> Vec<String> {
    let terms = selection.search_terms();
    (0..terms.len()).map(|place| terms.get(place).to_string()).collect()
}

#[test]
fn arrows_move_the_selection_of_the_main_view() {
    let mut focus = Focus::Main;
    let mut selection = StaticSelection::default();
    press(&mut focus, &mut selection, &[Key::Down, Key::Down, Key::Up]);
    assert_eq!(selection.root_selected(), 1);
    press(&mut focus, &mut selection, &[Key::Right]);
    assert_eq!(selection.pane_selected(), 1);
    handle_key_at(&mut focus, &mut selection, Key::Left, 100 * DEBOUNCE_NANOS);
    assert_eq!(selection.pane_selected(), 0);
    assert!(matches!(focus, Focus::Main));
}

#[test]
fn in_the_term_pane_down_moves_and_up_does_not() {
    let mut focus = Focus::Main;
    let mut selection = StaticSelection::default();
    for term in ["x", "y"] {
        let mut keys = vec![Key::Char('n')];
        keys.extend(term.chars().map(Key::Char));
        keys.push(Key::Enter);
        press(&mut focus, &mut selection, &keys);
    }
    press(
        &mut focus,
        &mut selection,
        &[Key::Right, Key::Down, Key::Up, Key::Enter],
    );
    assert_eq!(selection.search_term_selected(), 1);
    assert_eq!(selection.root_selected(), 0);
    assert_eq!(
        selection.selected_roots().export_roots(),
        vec![Root::HkeyLocalMachine, Root::HkeyUsers]
    );
}

#[test]
fn the_result_pane_ignores_up_down_and_enter() {
    let mut focus = Focus::Main;
    let mut selection = StaticSelection::default();
    press(
        &mut focus,
        &mut selection,
        &[Key::Left, Key::Up, Key::Down, Key::Enter],
    );
    assert_eq!(selection.pane_selected(), 2);
    assert_eq!(selection.root_selected(), 0);
    assert_eq!(selection.search_term_selected(), 0);
    assert_eq!(selection.selected_roots().export_roots().len(), 2);
}

#[test]
fn enter_toggles_the_root_under_the_cursor() {
    let mut focus = Focus::Main;
    let mut selection = StaticSelection::default();
    press(&mut focus, &mut selection, &[Key::Enter]);
    assert!(selection.selected_roots().is_enabled(&Root::HkeyClassesRoot));
    press(&mut focus, &mut selection, &[Key::Enter]);
    assert!(!selection.selected_roots().is_enabled(&Root::HkeyClassesRoot));
}

#[test]
fn a_typed_term_is_added() {
    let mut focus = Focus::Main;
    let mut selection = StaticSelection::default();
    let keys = [
        Key::Char('n'),
        Key::Char('q'),
        Key::Char('n'),
        Key::Char('h'),
        Key::Char('x'),
        Key::Backspace,
        Key::Left,
        Key::F(5),
        Key::Enter,
    ];
    let outcomes = press(&mut focus, &mut selection, &keys);
    assert!(outcomes.iter().all(|outcome| *outcome == KeyOutcome::Continue));
    assert!(matches!(focus, Focus::Main));
    assert_eq!(listed(&selection), vec!["qnh"]);
    assert_eq!(selection.pane_selected(), 0);
}

#[test]
fn escape_drops_the_typed_term() {
    let mut focus = Focus::Main;
    let mut selection = StaticSelection::default();
    press(
        &mut focus,
        &mut selection,
        &[Key::Char('n'), Key::Char('a'), Key::Esc],
    );
    assert!(matches!(focus, Focus::Main));
    assert_eq!(listed(&selection), Vec::<String>::new());
}

#[test]
fn an_entered_edit_replaces_the_term() {
    let mut selection = StaticSelection::default();
    let mut focus = Focus::SearchAdd(SearchEditor::new_edit("old".to_string()));
    press(&mut focus, &mut selection, &[Key::Enter]);
    assert_eq!(listed(&selection), vec!["old"]);
    let mut focus = Focus::SearchAdd(SearchEditor::new_edit("old".to_string()));
    press(&mut focus, &mut selection, &[Key::Char('!'), Key::Enter]);
    assert_eq!(listed(&selection), vec!["old!"]);
}

#[test]
fn the_edit_window_takes_no_keys() {
    let mut selection = StaticSelection::default();
    let mut focus = Focus::SearchEdit(SearchEditor::new_edit("old".to_string()));
    press(
        &mut focus,
        &mut selection,
        &[Key::Char('x'), Key::Backspace, Key::Enter, Key::Esc],
    );
    match focus {
        Focus::SearchEdit(editor) => assert_eq!(editor.resolve().1, "old"),
        _ => panic!("the window was left"),
    }
    assert_eq!(selection.search_terms().len(), 0);
}

#[test]
fn the_help_is_left_by_three_keys() {
    for key in [Key::Char('q'), Key::Char('h'), Key::Esc] {
        let mut focus = Focus::Main;
        let mut selection = StaticSelection::default();
        press(&mut focus, &mut selection, &[Key::Char('h'), Key::Enter, Key::Char('n')]);
        assert!(matches!(focus, Focus::Help));
        press(&mut focus, &mut selection, &[key]);
        assert!(matches!(focus, Focus::Main));
    }
}

#[test]
fn only_a_confirmed_close_quits() {
    for opening in [Key::Char('q'), Key::Esc] {
        for key in [Key::Enter, Key::Char('y'), Key::Char('q')] {
            let mut focus = Focus::Main;
            let mut selection = StaticSelection::default();
            assert_eq!(
                press(&mut focus, &mut selection, &[opening, Key::Char('x'), key]),
                vec![KeyOutcome::Continue, KeyOutcome::Continue, KeyOutcome::Quit]
            );
            assert!(matches!(focus, Focus::ConfirmClose));
        }
        for key in [Key::Esc, Key::Char('n')] {
            let mut focus = Focus::Main;
            let mut selection = StaticSelection::default();
            press(&mut focus, &mut selection, &[opening, key]);
            assert!(matches!(focus, Focus::Main));
        }
    }
}

#[test]
fn the_run_key_starts_and_stops() {
    let mut focus = Focus::Main;
    let mut selection = StaticSelection::default();
    assert_eq!(
        press(&mut focus, &mut selection, &[Key::F(4), Key::F(5)]),
        vec![KeyOutcome::Continue, KeyOutcome::StartRun]
    );
    selection.run_begun();
    assert_eq!(
        press(&mut focus, &mut selection, &[Key::F(5)]),
        vec![KeyOutcome::Continue]
    );
    assert!(selection.stop_requested());
}

#[test]
fn unknown_keys_do_nothing() {
    let mut focus = Focus::Main;
    let mut selection = StaticSelection::default();
    assert_eq!(
        press(&mut focus, &mut selection, &[Key::Other, Key::Char('z'), Key::Backspace]),
        vec![KeyOutcome::Continue; 3]
    );
    assert!(matches!(focus, Focus::Main));
}

#[test]
fn by_the_clock_an_early_press_does_not_count() {
    let mut focus = Focus::Main;
    let mut selection = StaticSelection::default();
    let start = Instant::now();
    while start.elapsed() < Duration::from_millis(150) {}
    handle_key(&mut focus, &mut selection, Key::Right);
    assert_eq!(selection.pane_selected(), 1);
    handle_key(&mut focus, &mut selection, Key::Right);
    assert_eq!(selection.pane_selected(), 1);
}

#[test]
fn windows_show_where_keys_go() {
    assert!(overlay(&Focus::Main).is_none());
    let help = overlay(&Focus::Help).unwrap();
    assert_eq!(help.title, "Help/Controls");
    assert!(matches!(help.body, OverlayBody::Message(text) if text == "Placeholder"));
    let close = overlay(&Focus::ConfirmClose).unwrap();
    assert_eq!(close.title, "Confirm Close");
    assert!(matches!(close.body, OverlayBody::Message(text) if text == "Y/N"));
    let line = Spans::from(vec![Span::styled("abc", Style::default().fg(Color::White))]);
    for focus in [
        Focus::SearchAdd(SearchEditor::new_edit("abc".to_string())),
        Focus::SearchEdit(SearchEditor::new_edit("abc".to_string())),
    ] {
        let window = overlay(&focus).unwrap();
        assert_eq!(window.title, "Search Add/Update");
        assert!(matches!(window.body, OverlayBody::Line(shown) if shown == line));
    }
}

#[test]
fn tips_stand_in_brackets() {
    let tips = vec!["F5 Start/Stop".to_string(), "H for the Help menu".to_string()];
    assert_eq!(tips_line(&tips), "[F5 Start/Stop] [H for the Help menu] ");
    assert_eq!(tips_line(&Vec::new()), "");
}
