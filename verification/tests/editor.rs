use tui::style::{Color, Style};
use tui::text::{Span, Spans};
use windows_registry_search::{EditorMode, SearchEditor};

#[test]
fn typed_characters_make_a_new_term() {
    let mut editor = SearchEditor::new_add();
    for ch in "7-Zip \u{e9}\u{6f22}".chars() {
        editor.add_char(ch);
    }
    let (mode, text) = editor.resolve();
    assert!(matches!(mode, EditorMode::Add));
    assert_eq!(text, "7-Zip \u{e9}\u{6f22}");
}

#[test]
fn backspace_undoes_typing() {
    let mut editor = SearchEditor::new_add();
    editor.add_char('a');
    editor.add_char('\u{6f22}');
    editor.backspace();
    assert_eq!(editor.resolve().1, "a");
}

#[test]
fn backspace_in_an_empty_editor_does_nothing() {
    let mut editor = SearchEditor::new_add();
    editor.backspace();
    assert_eq!(editor.resolve().1, "");
}

#[test]
fn an_edited_term_keeps_its_original() {
    let mut editor = SearchEditor::new_edit("old".to_string());
    editor.backspace();
    editor.add_char('x');
    match editor.resolve() {
        (EditorMode::Edit(original), text) => {
            assert_eq!(original, "old");
            assert_eq!(text, "olx");
        }
        (EditorMode::Add, _) => panic!("the term was edited"),
    }
}

#[test]
fn an_untouched_edit_gives_the_term_back() {
    let (mode, text) = SearchEditor::new_edit("same".to_string()).resolve();
    assert!(matches!(mode, EditorMode::Edit(original) if original == "same"));
    assert_eq!(text, "same");
}

#[test]
fn the_text_is_shown_in_white() {
    let editor = SearchEditor::new_edit("Chrome".to_string());
    assert_eq!(
        editor.render(),
        Spans::from(vec![Span::styled("Chrome", Style::default().fg(Color::White))])
    );
}
