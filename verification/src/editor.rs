//! The line editor for search terms.

use crate::display::{line_of, spans_runs, Colour, StyledText};
use tui::text::Spans;
use vstd::prelude::*;
use vstd::string::*;

verus! {

/// What becomes of the text when the editor is done.
#[derive(Debug, Clone)]
pub enum EditorMode {
    /// It is a new search term.
    Add,
    /// It takes the place of this search term.
    Edit(String),
}

impl EditorMode {
    /// The search term that the text takes the place of.
    pub open spec fn original(self) -> Option<Seq<char>> {
        match self {
            EditorMode::Add => None,
            EditorMode::Edit(original) => Some(original@),
        }
    }
}

/// What an editor holds: the search term that it takes the place of, if any,
/// and the text as it stands.
pub struct EditorState {
    pub original: Option<Seq<char>>,
    pub text: Seq<char>,
}

impl EditorState {
    /// `ch` is typed at the end of the text.
    pub open spec fn with_char(self, ch: char) -> EditorState {
        EditorState { text: self.text.push(ch), ..self }
    }

    /// The last character is rubbed out, if there is one.
    pub open spec fn without_last(self) -> EditorState {
        if self.text.len() == 0 {
            self
        } else {
            EditorState { text: self.text.drop_last(), ..self }
        }
    }

    /// The line that shows the text.
    pub open spec fn line(self) -> Seq<(Seq<char>, Colour)> {
        seq![(self.text, Colour::White)]
    }
}

/// A search term that is being typed.
#[derive(Debug, Clone)]
pub struct SearchEditor {
    mode: EditorMode,
    state: String,
}

impl View for SearchEditor {
    type V = EditorState;

    closed spec fn view(&self) -> EditorState {
        EditorState { original: self.mode.original(), text: self.state@ }
    }
}

impl SearchEditor {
    /// An empty editor for a new search term.
    pub fn new_add() -> (r: Self)
        ensures
            r@ == (EditorState { original: None, text: Seq::empty() }),
    {
        Self { mode: EditorMode::Add, state: String::new() }
    }

    /// An editor for the search term `original`, which is its text to start
    /// with.
    pub fn new_edit(original: String) -> (r: Self)
        ensures
            r@ == (EditorState { original: Some(original@), text: original@ }),
    {
        Self { mode: EditorMode::Edit(original.clone()), state: original }
    }

    /// Types `ch` at the end of the text.
    pub fn add_char(&mut self, ch: char)
        ensures
            final(self)@ == old(self)@.with_char(ch),
    {
        self.state.push(ch);
    }

    /// Rubs out the last character, if there is one.
    pub fn backspace(&mut self)
        ensures
            final(self)@ == old(self)@.without_last(),
    {
        let _ = self.state.pop();
    }

    /// What to do with the text, and the text.
    pub fn resolve(self) -> (r: (EditorMode, String))
        ensures
            r.0.original() == self@.original,
            r.1@ == self@.text,
    {
        (self.mode, self.state)
    }

    /// The text as a line of the interface.
    pub fn render(&self) -> (r: Spans<'static>)
        ensures
            spans_runs(r) == self@.line(),
    {
        let pieces = vec![StyledText { text: self.state.clone(), colour: Colour::White }];
        assert(pieces@.map_values(|piece: StyledText| piece@) =~= self@.line());
        line_of(pieces)
    }
}

/// Rubbing out undoes typing, and rubbing out in an empty editor does nothing.
pub proof fn law_backspace_undoes_typing(editor: EditorState, ch: char)
    ensures
        editor.with_char(ch).without_last() == editor,
        editor.text.len() == 0 ==> editor.without_last() == editor,
{
    assert(editor.text.push(ch).drop_last() =~= editor.text);
}

/// Typing and rubbing out never change what becomes of the text.
pub proof fn law_typing_keeps_the_mode(editor: EditorState, ch: char)
    ensures
        editor.with_char(ch).original == editor.original,
        editor.without_last().original == editor.original,
{
}

/// Typing puts the character behind all others, which stay.
pub proof fn law_typing_appends(editor: EditorState, ch: char, i: int)
    ensures
        editor.with_char(ch).text.len() == editor.text.len() + 1,
        editor.with_char(ch).text[editor.text.len() as int] == ch,
        0 <= i < editor.text.len() ==> editor.with_char(ch).text[i] == editor.text[i],
{
}

/// Typing into an empty editor gives just that character.
pub proof fn law_the_first_character_stands_alone(editor: EditorState, ch: char)
    requires
        editor.text.len() == 0,
    ensures
        editor.with_char(ch).text == seq![ch],
{
    assert(editor.with_char(ch).text =~= seq![ch]);
}

/// Rubbing out takes the last character and leaves all others.
pub proof fn law_backspace_takes_the_last(editor: EditorState, i: int)
    requires
        editor.text.len() > 0,
    ensures
        editor.without_last().text.len() == editor.text.len() - 1,
        0 <= i < editor.text.len() - 1 ==> editor.without_last().text[i] == editor.text[i],
{
}

/// An editor shows its whole text, in white and as one piece.
pub proof fn law_the_whole_text_is_shown(editor: EditorState)
    ensures
        editor.line().len() == 1,
        editor.line()[0].0 == editor.text,
        editor.line()[0].1 == Colour::White,
{
}

/// A mode names the term that is edited, and none where one is added.
pub proof fn law_modes_name_the_edited_term(term: String)
    ensures
        EditorMode::Edit(term).original() == Some(term@),
        EditorMode::Add.original() is None,
{
}

} // verus!
