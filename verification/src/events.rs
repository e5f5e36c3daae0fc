//! What each key press does.

use crate::display::{spans_runs, Colour};
use crate::editor::{EditorState, SearchEditor};
use crate::selection::{
    RunCommand, SelectionState, StaticSelection, ROOT_PANE, SEARCH_TERM_PANE,
};
use tui::text::Spans;
use vstd::prelude::*;
use vstd::string::*;

verus! {

/// A key of the keyboard.
#[derive(Clone, Copy, Debug, PartialEq, Eq, Structural)]
pub enum Key {
    Char(char),
    Backspace,
    Enter,
    Esc,
    Left,
    Right,
    Up,
    Down,
    F(u8),
    /// Any key that the program does not know.
    Other,
}

/// What a key press asks of the program.
#[derive(Clone, Copy, Debug, PartialEq, Eq, Structural)]
pub enum KeyOutcome {
    /// Wait for the next key press.
    Continue,
    /// Start a run, and wait for the next key press.
    StartRun,
    /// End the program.
    Quit,
}

/// What key presses go to.
#[derive(Debug, Clone)]
pub enum Focus {
    /// The main view.
    Main,
    /// The editor for a new search term.
    SearchAdd(SearchEditor),
    /// The editor for a search term that there is.
    SearchEdit(SearchEditor),
    /// The help.
    Help,
    /// The question whether to close the program.
    ConfirmClose,
}

/// What key presses go to, with an editor as what it holds.
pub enum FocusState {
    Main,
    SearchAdd(EditorState),
    SearchEdit(EditorState),
    Help,
    ConfirmClose,
}

impl View for Focus {
    type V = FocusState;

    open spec fn view(&self) -> FocusState {
        match self {
            Focus::Main => FocusState::Main,
            Focus::SearchAdd(editor) => FocusState::SearchAdd(editor@),
            Focus::SearchEdit(editor) => FocusState::SearchEdit(editor@),
            Focus::Help => FocusState::Help,
            Focus::ConfirmClose => FocusState::ConfirmClose,
        }
    }
}

/// Where the focus goes when `key` is pressed in the main view.
pub open spec fn focus_from_main(key: Key) -> FocusState {
    match key {
        Key::Char('n') => FocusState::SearchAdd(
            EditorState { original: None, text: Seq::empty() },
        ),
        Key::Char('h') => FocusState::Help,
        Key::Char('q') => FocusState::ConfirmClose,
        Key::Esc => FocusState::ConfirmClose,
        _ => FocusState::Main,
    }
}

/// What `key` does to the main view, when it is pressed there at `now`.
pub open spec fn main_after_key(
    selection: SelectionState,
    key: Key,
    now: u128,
) -> (SelectionState, KeyOutcome) {
    match key {
        Key::Left => (selection.pane_left(now), KeyOutcome::Continue),
        Key::Right => (selection.pane_right(now), KeyOutcome::Continue),
        Key::Up => if selection.pane == ROOT_PANE {
            (selection.root_up(now), KeyOutcome::Continue)
        } else {
            (selection, KeyOutcome::Continue)
        },
        Key::Down => if selection.pane == ROOT_PANE {
            (selection.root_down(now), KeyOutcome::Continue)
        } else if selection.pane == SEARCH_TERM_PANE {
            (selection.search_term_down(now), KeyOutcome::Continue)
        } else {
            (selection, KeyOutcome::Continue)
        },
        Key::Enter => if selection.pane == ROOT_PANE {
            (selection.root_toggled(), KeyOutcome::Continue)
        } else {
            (selection, KeyOutcome::Continue)
        },
        Key::F(5) => match selection.run_toggled() {
            (after, RunCommand::Start) => (after, KeyOutcome::StartRun),
            (after, RunCommand::Stop) => (after, KeyOutcome::Continue),
        },
        _ => (selection, KeyOutcome::Continue),
    }
}

/// Where the focus goes when `key` is pressed in the editor for a new search
/// term.
pub open spec fn focus_from_editor(editor: EditorState, key: Key) -> FocusState {
    match key {
        Key::Backspace => FocusState::SearchAdd(editor.without_last()),
        Key::Char(ch) => FocusState::SearchAdd(editor.with_char(ch)),
        Key::Esc => FocusState::Main,
        Key::Enter => FocusState::Main,
        _ => FocusState::SearchAdd(editor),
    }
}

/// Whether `key` leaves the help.
pub open spec fn leaves_help(key: Key) -> bool {
    key == Key::Char('q') || key == Key::Esc || key == Key::Char('h')
}

/// Whether `key` says no to the question whether to close the program.
pub open spec fn declines_close(key: Key) -> bool {
    key == Key::Esc || key == Key::Char('n')
}

/// Whether `key` says yes to the question whether to close the program.
pub open spec fn confirms_close(key: Key) -> bool {
    key == Key::Enter || key == Key::Char('y') || key == Key::Char('q')
}

/// What a key press leads to.
pub struct KeyStep {
    pub focus: FocusState,
    pub selection: SelectionState,
    pub outcome: KeyOutcome,
}

/// What it leads to that `key` is pressed at `now`.
pub open spec fn key_step(
    focus: FocusState,
    selection: SelectionState,
    key: Key,
    now: u128,
) -> KeyStep {
    match focus {
        FocusState::Main => {
            let (after, outcome) = main_after_key(selection, key, now);
            KeyStep { focus: focus_from_main(key), selection: after, outcome }
        },
        FocusState::SearchAdd(editor) => KeyStep {
            focus: focus_from_editor(editor, key),
            selection: if key == Key::Enter {
                selection.with_term(editor.original, editor.text)
            } else {
                selection
            },
            outcome: KeyOutcome::Continue,
        },
        FocusState::SearchEdit(_) => KeyStep { focus, selection, outcome: KeyOutcome::Continue },
        FocusState::Help => KeyStep {
            focus: if leaves_help(key) {
                FocusState::Main
            } else {
                focus
            },
            selection,
            outcome: KeyOutcome::Continue,
        },
        FocusState::ConfirmClose => KeyStep {
            focus: if declines_close(key) {
                FocusState::Main
            } else {
                focus
            },
            selection,
            outcome: if confirms_close(key) {
                KeyOutcome::Quit
            } else {
                KeyOutcome::Continue
            },
        },
    }
}

/// Does what `key` does in the main view when it is pressed at `now`.
fn main_key(selection: &mut StaticSelection, key: Key, now: u128) -> (r: (Focus, KeyOutcome))
    ensures
        r.0@ == focus_from_main(key),
        (final(selection)@, r.1) == main_after_key(old(selection)@, key, now),
        final(selection).clock() == old(selection).clock(),
{
    match key {
        Key::Char('n') => {
            return (Focus::SearchAdd(SearchEditor::new_add()), KeyOutcome::Continue);
        },
        Key::Char('h') => {
            return (Focus::Help, KeyOutcome::Continue);
        },
        Key::Char('q') | Key::Esc => {
            return (Focus::ConfirmClose, KeyOutcome::Continue);
        },
        Key::Left => selection.pane_left_at(now),
        Key::Right => selection.pane_right_at(now),
        Key::Up => match selection.pane_selected() {
            ROOT_PANE => selection.root_up_at(now),
            SEARCH_TERM_PANE => selection.search_term_up(),
            _ => {},
        },
        Key::Down => match selection.pane_selected() {
            ROOT_PANE => selection.root_down_at(now),
            SEARCH_TERM_PANE => selection.search_term_down_at(now),
            _ => {},
        },
        Key::Enter => match selection.pane_selected() {
            ROOT_PANE => selection.root_toggle(),
            _ => {},
        },
        Key::F(5) => {
            return match selection.toggle_running() {
                RunCommand::Start => (Focus::Main, KeyOutcome::StartRun),
                RunCommand::Stop => (Focus::Main, KeyOutcome::Continue),
            };
        },
        _ => {},
    }
    (Focus::Main, KeyOutcome::Continue)
}

/// Does what `key` does in the editor for a new search term.
fn editor_key(editor: SearchEditor, selection: &mut StaticSelection, key: Key) -> (r: Focus)
    ensures
        r@ == focus_from_editor(editor@, key),
        final(selection)@ == if key == Key::Enter {
            old(selection)@.with_term(editor@.original, editor@.text)
        } else {
            old(selection)@
        },
        final(selection).clock() == old(selection).clock(),
{
    let mut search_editor = editor;
    match key {
        Key::Backspace => {
            search_editor.backspace();
            Focus::SearchAdd(search_editor)
        },
        Key::Char(ch) => {
            search_editor.add_char(ch);
            Focus::SearchAdd(search_editor)
        },
        Key::Esc => Focus::Main,
        Key::Enter => {
            let (mode, text) = search_editor.resolve();
            selection.store_search_term(mode, text);
            Focus::Main
        },
        _ => Focus::SearchAdd(search_editor),
    }
}

/// Does what `key` does when it is pressed now.
pub fn handle_key(
    focus: &mut Focus,
    selection: &mut StaticSelection,
    key: Key,
) -> (outcome: KeyOutcome)
    ensures
        exists|now: u128|
            old(selection).can_tell(now) && (KeyStep {
                focus: final(focus)@,
                selection: final(selection)@,
                outcome,
            }) == #[trigger] key_step(old(focus)@, old(selection)@, key, now),
        final(selection).clock() == old(selection).clock(),
{
    let now: u128 = selection.now();
    handle_key_at(focus, selection, key, now)
}

/// Does what `key` does when it is pressed at `now`, in nanoseconds from the
/// moment when the main view was made.
pub fn handle_key_at(
    focus: &mut Focus,
    selection: &mut StaticSelection,
    key: Key,
    now: u128,
) -> (outcome: KeyOutcome)
    ensures
        (KeyStep { focus: final(focus)@, selection: final(selection)@, outcome }) == key_step(
            old(focus)@,
            old(selection)@,
            key,
            now,
        ),
        final(selection).clock() == old(selection).clock(),
{
    let mut current = Focus::Main;
    std::mem::swap(&mut current, focus);
    match current {
        Focus::Main => {
            let (next, outcome) = main_key(selection, key, now);
            *focus = next;
            outcome
        },
        Focus::SearchAdd(editor) => {
            *focus = editor_key(editor, selection, key);
            KeyOutcome::Continue
        },
        Focus::SearchEdit(editor) => {
            *focus = Focus::SearchEdit(editor);
            KeyOutcome::Continue
        },
        Focus::Help => {
            *focus = match key {
                Key::Char('q') | Key::Esc | Key::Char('h') => Focus::Main,
                _ => Focus::Help,
            };
            KeyOutcome::Continue
        },
        Focus::ConfirmClose => {
            match key {
                Key::Esc | Key::Char('n') => {
                    *focus = Focus::Main;
                    KeyOutcome::Continue
                },
                Key::Enter | Key::Char('y') | Key::Char('q') => {
                    *focus = Focus::ConfirmClose;
                    KeyOutcome::Quit
                },
                _ => {
                    *focus = Focus::ConfirmClose;
                    KeyOutcome::Continue
                },
            }
        },
    }
}

/// What a window over the main view holds.
#[derive(Debug)]
pub enum OverlayBody {
    /// A text without colours of its own.
    Message(String),
    /// A coloured line.
    Line(Spans<'static>),
}

/// A window over the main view.
#[derive(Debug)]
pub struct Overlay {
    pub title: String,
    pub body: OverlayBody,
}

/// What a window over the main view holds, as characters.
pub enum OverlayText {
    Message(Seq<char>),
    Line(Seq<(Seq<char>, Colour)>),
}

impl View for Overlay {
    type V = (Seq<char>, OverlayText);

    open spec fn view(&self) -> (Seq<char>, OverlayText) {
        (
            self.title@,
            match self.body {
                OverlayBody::Message(message) => OverlayText::Message(message@),
                OverlayBody::Line(line) => OverlayText::Line(spans_runs(line)),
            },
        )
    }
}

/// The title and the text of the window that stands over the main view.
pub open spec fn overlay_of(focus: FocusState) -> Option<(Seq<char>, OverlayText)> {
    match focus {
        FocusState::Main => None,
        FocusState::SearchAdd(editor) => Some(
            ("Search Add/Update"@, OverlayText::Line(editor.line())),
        ),
        FocusState::SearchEdit(editor) => Some(
            ("Search Add/Update"@, OverlayText::Line(editor.line())),
        ),
        FocusState::Help => Some(("Help/Controls"@, OverlayText::Message("Placeholder"@))),
        FocusState::ConfirmClose => Some(("Confirm Close"@, OverlayText::Message("Y/N"@))),
    }
}

/// The window that stands over the main view.
pub fn overlay(focus: &Focus) -> (r: Option<Overlay>)
    ensures
        match r {
            Some(window) => overlay_of(focus@) == Some(window@),
            None => overlay_of(focus@) is None,
        },
{
    match focus {
        Focus::Main => None,
        Focus::SearchAdd(editor) | Focus::SearchEdit(editor) => Some(
            Overlay {
                title: "Search Add/Update".to_owned(),
                body: OverlayBody::Line(editor.render()),
            },
        ),
        Focus::Help => Some(
            Overlay {
                title: "Help/Controls".to_owned(),
                body: OverlayBody::Message("Placeholder".to_owned()),
            },
        ),
        Focus::ConfirmClose => Some(
            Overlay {
                title: "Confirm Close".to_owned(),
                body: OverlayBody::Message("Y/N".to_owned()),
            },
        ),
    }
}

} // verus!
