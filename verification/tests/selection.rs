use std::time::{Duration, Instant};
use tui::style::{Color, Style};
use tui::text::{Span, Spans};
use windows_registry_search::{
    Colour, EditorMode, Root, RunCommand, StaticSelection, DEBOUNCE_NANOS, RESULT_PANE, ROOT_PANE,
    SEARCH_TERM_PANE,
};

fn with_terms(terms: &[&str]) -> StaticSelection {
    let mut selection = StaticSelection::default();
    for term in terms {
        selection.store_search_term(EditorMode::Add, term.to_string());
    }
    selection
}

fn listed(selection: &StaticSelection) -> Vec<String> {
    let terms = selection.search_terms();
    (0..terms.len()).map(|place| terms.get(place).to_string()).collect()
}

fn piece(text: &str, colour: Color) -> Span<'static> {
    Span::styled(text.to_string(), Style::default().fg(colour))
}

#[test]
fn the_view_starts_at_the_first_root() {
    let selection = StaticSelection::default();
    assert_eq!(selection.pane_selected(), ROOT_PANE);
    assert_eq!(selection.root_selected(), 0);
    assert_eq!(selection.search_term_selected(), 0);
    assert_eq!(selection.search_terms().len(), 0);
    assert!(!selection.stop_requested());
    assert_eq!(
        selection.selected_roots().export_roots(),
        vec![Root::HkeyLocalMachine, Root::HkeyUsers]
    );
}

#[test]
fn panes_go_round_both_ways() {
    let mut selection = StaticSelection::default();
    let mut seen = Vec::new();
    for press in 1..4 {
        selection.pane_right_at(press * DEBOUNCE_NANOS);
        seen.push(selection.pane_selected());
    }
    assert_eq!(seen, vec![1, 2, 0]);
    let mut seen = Vec::new();
    for press in 4..7 {
        selection.pane_left_at(press * DEBOUNCE_NANOS);
        seen.push(selection.pane_selected());
    }
    assert_eq!(seen, vec![2, 1, 0]);
}

#[test]
fn the_cursor_goes_round_the_roots_both_ways() {
    let mut selection = StaticSelection::default();
    let mut seen = Vec::new();
    for press in 1..6 {
        selection.root_down_at(press * DEBOUNCE_NANOS);
        seen.push(selection.root_selected());
    }
    assert_eq!(seen, vec![1, 2, 3, 4, 0]);
    let mut seen = Vec::new();
    for press in 6..11 {
        selection.root_up_at(press * DEBOUNCE_NANOS);
        seen.push(selection.root_selected());
    }
    assert_eq!(seen, vec![4, 3, 2, 1, 0]);
}

#[test]
fn presses_within_a_tenth_of_a_second_do_not_count() {
    let mut selection = StaticSelection::default();
    selection.pane_right_at(99_999_999);
    assert_eq!(selection.pane_selected(), 0);
    selection.pane_right_at(100_000_000);
    assert_eq!(selection.pane_selected(), 1);
    selection.pane_right_at(199_999_999);
    selection.pane_left_at(199_999_999);
    assert_eq!(selection.pane_selected(), 1);
    selection.pane_left_at(200_000_000);
    assert_eq!(selection.pane_selected(), 0);
    selection.root_down_at(99_999_999);
    selection.root_up_at(99_999_999);
    assert_eq!(selection.root_selected(), 0);
}

#[test]
fn panes_and_roots_are_debounced_apart() {
    let mut selection = StaticSelection::default();
    selection.pane_right_at(DEBOUNCE_NANOS);
    selection.root_down_at(DEBOUNCE_NANOS);
    assert_eq!(selection.pane_selected(), 1);
    assert_eq!(selection.root_selected(), 1);
}

#[test]
fn the_clock_counts_from_when_the_view_was_made() {
    let mut selection = StaticSelection::default();
    let start = Instant::now();
    while start.elapsed() < Duration::from_millis(150) {}
    selection.pane_left();
    assert_eq!(selection.pane_selected(), 2);
    selection.root_up();
    assert_eq!(selection.root_selected(), 4);
    let again = Instant::now();
    while again.elapsed() < Duration::from_millis(150) {}
    selection.pane_right();
    assert_eq!(selection.pane_selected(), 0);
    selection.root_down();
    assert_eq!(selection.root_selected(), 0);
}

#[test]
fn the_selection_goes_round_the_terms() {
    let mut selection = with_terms(&["a", "b", "c"]);
    let mut seen = Vec::new();
    for press in 1..5 {
        selection.search_term_down_at(press * DEBOUNCE_NANOS);
        seen.push(selection.search_term_selected());
    }
    assert_eq!(seen, vec![1, 2, 0, 1]);
    selection.search_term_up();
    assert_eq!(selection.search_term_selected(), 1);
}

#[test]
fn a_single_term_alternates_with_the_place_behind_it() {
    let mut selection = with_terms(&["a"]);
    let mut seen = Vec::new();
    for press in 1..4 {
        selection.search_term_down_at(press * DEBOUNCE_NANOS);
        seen.push(selection.search_term_selected());
    }
    assert_eq!(seen, vec![1, 0, 1]);
}

#[test]
fn without_terms_there_is_nothing_to_select() {
    let mut selection = StaticSelection::default();
    selection.search_term_down_at(DEBOUNCE_NANOS);
    assert_eq!(selection.search_term_selected(), 0);
    assert_eq!(selection.render_search_terms(), Vec::<Spans>::new());
}

#[test]
fn search_term_presses_are_debounced() {
    let mut selection = with_terms(&["a", "b"]);
    selection.search_term_down_at(DEBOUNCE_NANOS);
    selection.search_term_down_at(DEBOUNCE_NANOS + 99_999_999);
    assert_eq!(selection.search_term_selected(), 1);
}

#[test]
fn by_the_clock_the_next_term_is_selected() {
    let mut selection = with_terms(&["a", "b"]);
    let start = Instant::now();
    while start.elapsed() < Duration::from_millis(150) {}
    selection.search_term_down();
    assert_eq!(selection.search_term_selected(), 1);
}

#[test]
fn toggling_turns_the_root_under_the_cursor_round() {
    let mut selection = StaticSelection::default();
    selection.root_down_at(DEBOUNCE_NANOS);
    selection.root_toggle();
    assert!(selection.selected_roots().is_enabled(&Root::HkeyCurrentUser));
    selection.root_toggle();
    assert!(!selection.selected_roots().is_enabled(&Root::HkeyCurrentUser));
}

#[test]
fn root_rows_show_the_cursor_and_the_choices() {
    let mut selection = StaticSelection::default();
    selection.root_down_at(DEBOUNCE_NANOS);
    assert_eq!(
        selection.generate_root_list(),
        vec![
            Spans::from(vec![
                piece("HKEY_CLASSES_ROOT        ", Color::White),
                piece("Disabled", Color::White),
            ]),
            Spans::from(vec![
                piece("HKEY_CURRENT_USER        ", Color::Cyan),
                piece("Disabled", Color::White),
            ]),
            Spans::from(vec![
                piece("HKEY_LOCAL_MACHINE       ", Color::White),
                piece("Enabled", Color::Green),
            ]),
            Spans::from(vec![
                piece("HKEY_USERS               ", Color::White),
                piece("Enabled", Color::Green),
            ]),
            Spans::from(vec![
                piece("HKEY_CURRENT_CONFIG      ", Color::White),
                piece("Disabled", Color::White),
            ]),
        ]
    );
    selection.pane_right_at(DEBOUNCE_NANOS);
    for line in selection.generate_root_list() {
        assert_eq!(line.0[0].style.fg, Some(Color::White));
    }
}

#[test]
fn term_rows_show_the_selected_term() {
    let long = "a term that is longer than a column is wide";
    let mut selection = with_terms(&["\u{e9}\u{e9}", long]);
    selection.pane_right_at(DEBOUNCE_NANOS);
    assert_eq!(
        selection.render_search_terms(),
        vec![
            Spans::from(vec![piece(
                &format!("{:25}", "\u{e9}\u{e9}"),
                Color::Cyan
            )]),
            Spans::from(vec![piece(long, Color::White)]),
        ]
    );
    selection.search_term_down_at(DEBOUNCE_NANOS);
    let lines = selection.render_search_terms();
    assert_eq!(lines[0].0[0].style.fg, Some(Color::White));
    assert_eq!(lines[1].0[0].style.fg, Some(Color::Cyan));
}

#[test]
fn stored_terms_replace_the_original() {
    let mut selection = with_terms(&["a", "b", "a"]);
    assert_eq!(listed(&selection), vec!["a", "b"]);
    selection.store_search_term(EditorMode::Edit("a".to_string()), "c".to_string());
    assert_eq!(listed(&selection), vec!["b", "c"]);
    selection.store_search_term(EditorMode::Edit("c".to_string()), "b".to_string());
    assert_eq!(listed(&selection), vec!["b"]);
    selection.store_search_term(EditorMode::Edit("missing".to_string()), "d".to_string());
    assert_eq!(listed(&selection), vec!["b", "d"]);
}

#[test]
fn one_frame_is_highlighted() {
    let mut selection = StaticSelection::default();
    assert_eq!(selection.frame_colour(ROOT_PANE), Colour::Cyan);
    assert_eq!(selection.frame_colour(SEARCH_TERM_PANE), Colour::White);
    assert_eq!(selection.frame_colour(RESULT_PANE), Colour::White);
    selection.pane_left_at(DEBOUNCE_NANOS);
    assert_eq!(selection.frame_colour(ROOT_PANE), Colour::White);
    assert_eq!(selection.frame_colour(RESULT_PANE), Colour::Cyan);
}

#[test]
fn a_run_goes_through_its_stages() {
    let mut selection = StaticSelection::default();
    let line = |text: &str, colour: Color| Spans::from(vec![piece(text, colour)]);
    assert_eq!(selection.render_run_control(), line("Start", Color::White));
    assert_eq!(selection.toggle_running(), RunCommand::Start);
    assert_eq!(selection.render_run_control(), line("Start", Color::White));
    assert!(!selection.stop_requested());
    selection.run_begun();
    assert_eq!(selection.render_run_control(), line("Stop", Color::Green));
    assert_eq!(selection.toggle_running(), RunCommand::Stop);
    assert!(selection.stop_requested());
    assert_eq!(selection.render_run_control(), line("Stopping", Color::Red));
    selection.run_ended();
    assert!(!selection.stop_requested());
    assert_eq!(selection.render_run_control(), line("Start", Color::White));
    assert_eq!(selection.toggle_running(), RunCommand::Start);
}
