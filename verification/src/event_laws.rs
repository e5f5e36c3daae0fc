//! What holds of every key press.

use crate::display::{spans_runs, Colour};
use crate::editor::{EditorState, SearchEditor};
use crate::events::{
    confirms_close, focus_from_main, key_step, overlay_of, Focus, FocusState, Key, KeyOutcome,
    KeyStep, Overlay, OverlayBody, OverlayText,
};
use crate::root::{all_roots, Root};
use crate::selection::{SelectionState, ROOT_PANE};
use crate::selection_laws::{
    law_selections_stay_in_range, law_stored_terms_come_last,
    law_the_choice_under_the_cursor_turns, law_toggling_twice_changes_nothing,
};
use crate::string_set::{listing_with, listing_without};
use vstd::prelude::*;

verus! {

/// The program ends only when the question whether to close it is answered with
/// yes.
pub proof fn law_only_a_confirmed_close_quits(
    focus: FocusState,
    selection: SelectionState,
    key: Key,
    now: u128,
)
    ensures
        key_step(focus, selection, key, now).outcome == KeyOutcome::Quit <==> (
        focus is ConfirmClose && confirms_close(key)),
{
}

/// A run is started only by F5 in the main view, and only while none is under
/// way.
pub proof fn law_only_the_run_key_starts_a_run(
    focus: FocusState,
    selection: SelectionState,
    key: Key,
    now: u128,
)
    ensures
        key_step(focus, selection, key, now).outcome == KeyOutcome::StartRun <==> (focus is Main
            && key == Key::F(5) && !selection.running),
{
}

/// The main view changes only by keys that are pressed in it, and by the
/// entering of a search term.
pub proof fn law_windows_shield_the_main_view(
    focus: FocusState,
    selection: SelectionState,
    key: Key,
    now: u128,
)
    requires
        !(focus is Main),
        !(focus is SearchAdd && key == Key::Enter),
    ensures
        key_step(focus, selection, key, now).selection == selection,
{
}

/// A key that opens a window over the main view leaves the main view as it is.
pub proof fn law_opening_a_window_changes_nothing_else(
    selection: SelectionState,
    key: Key,
    now: u128,
)
    requires
        !(focus_from_main(key) is Main),
    ensures
        key_step(FocusState::Main, selection, key, now).selection == selection,
        key_step(FocusState::Main, selection, key, now).outcome == KeyOutcome::Continue,
{
}

/// Escape leads back to the main view from the editor for a new search term,
/// from the help and from the question whether to close, and changes nothing
/// there.
pub proof fn law_escape_leads_back(focus: FocusState, selection: SelectionState, now: u128)
    requires
        focus is SearchAdd || focus is Help || focus is ConfirmClose,
    ensures
        key_step(focus, selection, Key::Esc, now) == (KeyStep {
            focus: FocusState::Main,
            selection,
            outcome: KeyOutcome::Continue,
        }),
{
}

/// The editor for a search term that there is takes no keys.
pub proof fn law_the_edit_window_takes_no_keys(
    editor: EditorState,
    selection: SelectionState,
    key: Key,
    now: u128,
)
    ensures
        key_step(FocusState::SearchEdit(editor), selection, key, now) == (KeyStep {
            focus: FocusState::SearchEdit(editor),
            selection,
            outcome: KeyOutcome::Continue,
        }),
{
}

/// A window stands over the main view exactly while keys do not go to it.
pub proof fn law_windows_show_where_keys_go(focus: FocusState)
    ensures
        overlay_of(focus) is None <==> focus is Main,
{
}

/// No key press brings the selections of the main view out of range.
pub proof fn law_keys_keep_the_main_view_valid(
    focus: FocusState,
    selection: SelectionState,
    key: Key,
    now: u128,
)
    requires
        selection.valid(),
    ensures
        key_step(focus, selection, key, now).selection.valid(),
{
    match focus {
        FocusState::SearchAdd(editor) => {
            law_selections_stay_in_range(selection, now, editor.original, editor.text);
        },
        _ => {
            law_selections_stay_in_range(selection, now, None, Seq::empty());
        },
    }
}

/// Pressing enter twice on a root key changes nothing.
pub proof fn law_enter_twice_changes_nothing(
    selection: SelectionState,
    first: u128,
    second: u128,
)
    requires
        selection.valid(),
        selection.pane == ROOT_PANE,
    ensures
        ({
            let once = key_step(FocusState::Main, selection, Key::Enter, first);
            &&& once.focus is Main
            &&& once.selection.roots != selection.roots
            &&& key_step(once.focus, once.selection, Key::Enter, second).selection == selection
        }),
{
    let root = all_roots()[selection.root_index as int];
    law_toggling_twice_changes_nothing(selection, root);
}

/// What it leads to that `keys` are pressed one after the other, each at the
/// time that stands beside it.
pub open spec fn after_keys(
    focus: FocusState,
    selection: SelectionState,
    keys: Seq<(Key, u128)>,
) -> (FocusState, SelectionState)
    decreases keys.len(),
{
    if keys.len() == 0 {
        (focus, selection)
    } else {
        let (before_focus, before_selection) = after_keys(focus, selection, keys.drop_last());
        let step = key_step(before_focus, before_selection, keys.last().0, keys.last().1);
        (step.focus, step.selection)
    }
}

/// Whether `keys` are presses of the characters of `text`, in order.
pub open spec fn spells(keys: Seq<(Key, u128)>, text: Seq<char>) -> bool {
    &&& keys.len() == text.len()
    &&& forall|i: int| 0 <= i < keys.len() ==> (#[trigger] keys[i]).0 == Key::Char(text[i])
}

proof fn lemma_typing(
    editor: EditorState,
    selection: SelectionState,
    keys: Seq<(Key, u128)>,
    text: Seq<char>,
)
    requires
        spells(keys, text),
    ensures
        after_keys(FocusState::SearchAdd(editor), selection, keys) == (
            FocusState::SearchAdd(EditorState { text: editor.text + text, ..editor }),
            selection,
        ),
    decreases keys.len(),
{
    if keys.len() == 0 {
        assert(editor.text + text =~= editor.text);
    } else {
        lemma_typing(editor, selection, keys.drop_last(), text.drop_last());
        assert((editor.text + text.drop_last()).push(text.last()) =~= editor.text + text);
        assert(keys[keys.len() - 1].0 == Key::Char(text.last()));
    }
}

/// In the main view, `n`, then the characters of a search term, then enter, add
/// that search term and lead back to the main view; whatever the characters
/// are, and however fast they are typed.
pub proof fn law_a_typed_term_is_added(
    selection: SelectionState,
    opened: u128,
    keys: Seq<(Key, u128)>,
    text: Seq<char>,
    entered: u128,
)
    requires
        spells(keys, text),
    ensures
        after_keys(
            FocusState::Main,
            selection,
            seq![(Key::Char('n'), opened)] + keys + seq![(Key::Enter, entered)],
        ) == (
            FocusState::Main,
            (SelectionState { terms: listing_with(selection.terms, text), ..selection }),
        ),
{
    let editor = EditorState { original: None, text: Seq::empty() };
    let open = seq![(Key::Char('n'), opened)];
    let all = open + keys + seq![(Key::Enter, entered)];
    assert(all.drop_last() =~= open + keys);
    lemma_keys_in_two_parts(FocusState::Main, selection, open, keys);
    assert(open.drop_last() =~= Seq::<(Key, u128)>::empty());
    assert(after_keys(FocusState::Main, selection, open) == (
        FocusState::SearchAdd(editor),
        selection,
    )) by {
        reveal_with_fuel(after_keys, 2);
    }
    lemma_typing(editor, selection, keys, text);
    assert(editor.text + text =~= text);
}

proof fn lemma_keys_in_two_parts(
    focus: FocusState,
    selection: SelectionState,
    first: Seq<(Key, u128)>,
    second: Seq<(Key, u128)>,
)
    ensures
        after_keys(focus, selection, first + second) == ({
            let (between_focus, between_selection) = after_keys(focus, selection, first);
            after_keys(between_focus, between_selection, second)
        }),
    decreases second.len(),
{
    if second.len() == 0 {
        assert(first + second =~= first);
    } else {
        assert((first + second).drop_last() =~= first + second.drop_last());
        lemma_keys_in_two_parts(focus, selection, first, second.drop_last());
    }
}

/// In the main view with the root pane selected, a press of down that counts
/// moves the cursor to the next of the five root keys, one of up to the previous
/// one, and nothing else happens; a press that comes too soon does nothing.
pub proof fn law_up_and_down_move_the_cursor(selection: SelectionState, now: u128)
    requires
        selection.pane == 0,
        selection.root_index < 5,
    ensures
        ({
            let down = key_step(FocusState::Main, selection, Key::Down, now);
            let up = key_step(FocusState::Main, selection, Key::Up, now);
            &&& down.focus is Main && down.outcome == KeyOutcome::Continue
            &&& up.focus is Main && up.outcome == KeyOutcome::Continue
            &&& now >= selection.root_changed + 100_000_000 ==> {
                &&& down.selection.root_index == (selection.root_index + 1) % 5
                &&& up.selection.root_index == (selection.root_index + 4) % 5
                &&& down.selection == (SelectionState {
                    root_index: down.selection.root_index,
                    root_changed: now,
                    ..selection
                })
                &&& up.selection == (SelectionState {
                    root_index: up.selection.root_index,
                    root_changed: now,
                    ..selection
                })
            }
            &&& now < selection.root_changed + 100_000_000 ==> down.selection == selection
                && up.selection == selection
        }),
{
}

/// In the main view with the pane of the search terms selected, a press of down
/// that counts selects the next term, and the first after the last; up does
/// nothing.
pub proof fn law_down_moves_among_the_terms(selection: SelectionState, now: u128)
    requires
        selection.pane == 1,
        2 <= selection.terms.len() <= usize::MAX,
    ensures
        ({
            let down = key_step(FocusState::Main, selection, Key::Down, now);
            let up = key_step(FocusState::Main, selection, Key::Up, now);
            &&& down.focus is Main && down.outcome == KeyOutcome::Continue
            &&& up == (KeyStep {
                focus: FocusState::Main,
                selection,
                outcome: KeyOutcome::Continue,
            })
            &&& now >= selection.term_changed + 100_000_000 ==> down.selection == (SelectionState {
                term_index: if selection.term_index + 1 < selection.terms.len() {
                    (selection.term_index + 1) as usize
                } else {
                    0
                },
                term_changed: now,
                ..selection
            })
            &&& now < selection.term_changed + 100_000_000 ==> down.selection == selection
        }),
{
}

/// Without search terms, down in their pane does nothing; with one of them, it
/// goes to and fro between that term and the place behind it.
pub proof fn law_down_with_few_terms(selection: SelectionState, now: u128)
    requires
        selection.pane == 1,
        selection.terms.len() <= 1,
    ensures
        ({
            let after = key_step(FocusState::Main, selection, Key::Down, now).selection;
            &&& selection.terms.len() == 0 ==> after == selection
            &&& now < selection.term_changed + 100_000_000 ==> after == selection
            &&& selection.terms.len() == 1 && now >= selection.term_changed + 100_000_000
                ==> after == (SelectionState {
                term_index: if selection.term_index == 0 {
                    1
                } else {
                    0
                },
                term_changed: now,
                ..selection
            })
        }),
{
}

/// In the main view, left and right that count select the neighbouring of the
/// three panes, whichever is selected, and do nothing else; too soon they do
/// nothing.
pub proof fn law_left_and_right_move_among_the_panes(selection: SelectionState, now: u128)
    requires
        selection.pane < 3,
    ensures
        ({
            let left = key_step(FocusState::Main, selection, Key::Left, now);
            let right = key_step(FocusState::Main, selection, Key::Right, now);
            &&& left.focus is Main && left.outcome == KeyOutcome::Continue
            &&& right.focus is Main && right.outcome == KeyOutcome::Continue
            &&& now >= selection.pane_changed + 100_000_000 ==> {
                &&& left.selection == (SelectionState {
                    pane: ((selection.pane + 2) % 3) as u8,
                    pane_changed: now,
                    ..selection
                })
                &&& right.selection == (SelectionState {
                    pane: ((selection.pane + 1) % 3) as u8,
                    pane_changed: now,
                    ..selection
                })
            }
            &&& now < selection.pane_changed + 100_000_000 ==> left.selection == selection
                && right.selection == selection
        }),
{
}

/// In the main view with the root pane selected, enter turns the choice on the
/// root key under the cursor round, at any time, and no other; with another pane
/// selected it does nothing, and neither do up and down in the last pane.
pub proof fn law_enter_turns_the_choice_under_the_cursor(
    selection: SelectionState,
    now: u128,
    root: Root,
)
    ensures
        ({
            let enter = key_step(FocusState::Main, selection, Key::Enter, now);
            &&& enter.focus is Main && enter.outcome == KeyOutcome::Continue
            &&& selection.pane == 0 && selection.root_index < 5 ==> (
            enter.selection.roots.contains(root) <==> (selection.roots.contains(root) != (
            root.number() == selection.root_index)))
            &&& enter.selection == (SelectionState { roots: enter.selection.roots, ..selection })
            &&& selection.pane != 0 ==> enter.selection == selection
            &&& selection.pane >= 2 ==> {
                &&& key_step(FocusState::Main, selection, Key::Up, now).selection == selection
                &&& key_step(FocusState::Main, selection, Key::Down, now).selection == selection
            }
        }),
{
    if selection.root_index < 5 {
        law_the_choice_under_the_cursor_turns(selection, root);
    }
}

/// In the main view, F5 asks a run that is under way to stop, and otherwise has
/// one started, whichever pane is selected.
pub proof fn law_f5_starts_and_stops(selection: SelectionState, now: u128)
    ensures
        key_step(FocusState::Main, selection, Key::F(5), now) == (KeyStep {
            focus: FocusState::Main,
            selection: SelectionState {
                run_control_disabled: true,
                stop: selection.stop || selection.running,
                ..selection
            },
            outcome: if selection.running {
                KeyOutcome::Continue
            } else {
                KeyOutcome::StartRun
            },
        }),
{
}

/// In the main view, `n` opens an empty editor for a new search term, `h` the
/// help, and `q` and escape the question whether to close.
pub proof fn law_letters_open_the_windows(selection: SelectionState, now: u128)
    ensures
        key_step(FocusState::Main, selection, Key::Char('n'), now) == (KeyStep {
            focus: FocusState::SearchAdd(EditorState { original: None, text: Seq::empty() }),
            selection,
            outcome: KeyOutcome::Continue,
        }),
        key_step(FocusState::Main, selection, Key::Char('h'), now) == (KeyStep {
            focus: FocusState::Help,
            selection,
            outcome: KeyOutcome::Continue,
        }),
        key_step(FocusState::Main, selection, Key::Char('q'), now) == (KeyStep {
            focus: FocusState::ConfirmClose,
            selection,
            outcome: KeyOutcome::Continue,
        }),
        key_step(FocusState::Main, selection, Key::Esc, now) == (KeyStep {
            focus: FocusState::ConfirmClose,
            selection,
            outcome: KeyOutcome::Continue,
        }),
{
}

/// In the main view, all other keys do nothing.
pub proof fn law_other_keys_do_nothing(selection: SelectionState, key: Key, now: u128)
    requires
        key matches Key::Char(ch) ==> ch != 'n' && ch != 'h' && ch != 'q',
        key matches Key::F(number) ==> number != 5,
        key is Char || key is F || key is Backspace || key is Other,
    ensures
        key_step(FocusState::Main, selection, key, now) == (KeyStep {
            focus: FocusState::Main,
            selection,
            outcome: KeyOutcome::Continue,
        }),
{
}

/// In the editor for a new search term every character is typed behind the
/// others, backspace rubs the last one out, and keys without a meaning there
/// change nothing.
pub proof fn law_the_editor_takes_the_keys(
    editor: EditorState,
    selection: SelectionState,
    ch: char,
    key: Key,
    now: u128,
)
    requires
        key is Left || key is Right || key is Up || key is Down || key is F || key is Other,
    ensures
        key_step(FocusState::SearchAdd(editor), selection, Key::Char(ch), now).focus
            == FocusState::SearchAdd(EditorState { text: editor.text.push(ch), ..editor }),
        editor.text.len() > 0 ==> key_step(
            FocusState::SearchAdd(editor),
            selection,
            Key::Backspace,
            now,
        ).focus == FocusState::SearchAdd(EditorState { text: editor.text.drop_last(), ..editor }),
        editor.text.len() == 0 ==> key_step(
            FocusState::SearchAdd(editor),
            selection,
            Key::Backspace,
            now,
        ).focus == FocusState::SearchAdd(editor),
        key_step(FocusState::SearchAdd(editor), selection, key, now).focus
            == FocusState::SearchAdd(editor),
{
}

/// Enter in the editor leads back to the main view and stores the text: a new
/// term that is not listed comes last, and an edited one takes the place of its
/// original; nothing but the terms changes.
pub proof fn law_enter_stores_the_text(
    selection: SelectionState,
    before: Seq<Seq<char>>,
    original: Seq<char>,
    after: Seq<Seq<char>>,
    text: Seq<char>,
    now: u128,
)
    requires
        selection.terms == before + seq![original] + after,
        selection.terms.no_duplicates(),
        !selection.terms.contains(text),
    ensures
        key_step(
            FocusState::SearchAdd(EditorState { original: None, text }),
            selection,
            Key::Enter,
            now,
        ) == (KeyStep {
            focus: FocusState::Main,
            selection: SelectionState { terms: selection.terms.push(text), ..selection },
            outcome: KeyOutcome::Continue,
        }),
        key_step(
            FocusState::SearchAdd(EditorState { original: Some(original), text }),
            selection,
            Key::Enter,
            now,
        ) == (KeyStep {
            focus: FocusState::Main,
            selection: SelectionState { terms: (before + after).push(text), ..selection },
            outcome: KeyOutcome::Continue,
        }),
{
    law_stored_terms_come_last(selection, before, original, after, text);
}

/// Enter in the editor leads back to the main view and lists the text, whatever
/// is listed already; the first term that is entered stands alone.
pub proof fn law_enter_leads_back(
    editor: EditorState,
    selection: SelectionState,
    now: u128,
)
    ensures
        ({
            let step = key_step(FocusState::SearchAdd(editor), selection, Key::Enter, now);
            &&& step.focus is Main
            &&& step.outcome == KeyOutcome::Continue
            &&& step.selection == selection.with_term(editor.original, editor.text)
            &&& step.selection.terms.contains(editor.text)
            &&& selection.terms.len() == 0 ==> step.selection.terms == seq![editor.text]
        }),
{
    let step = key_step(FocusState::SearchAdd(editor), selection, Key::Enter, now);
    if selection.terms.len() == 0 {
        assert(step.selection.terms =~= seq![editor.text]);
    }
    let others = match editor.original {
        None => selection.terms,
        Some(original) => listing_without(selection.terms, original),
    };
    if !others.contains(editor.text) {
        assert(step.selection.terms[others.len() as int] == editor.text);
    }
}

/// The help is left by `q`, `h` and escape, and by no other key.
pub proof fn law_the_help_is_left_by_three_keys(
    selection: SelectionState,
    key: Key,
    now: u128,
)
    ensures
        key_step(FocusState::Help, selection, key, now).focus is Main <==> (key is Esc || (
        key matches Key::Char(ch) && (ch == 'q' || ch == 'h'))),
        key_step(FocusState::Help, selection, key, now).focus is Main || key_step(
            FocusState::Help,
            selection,
            key,
            now,
        ).focus is Help,
        key_step(FocusState::Help, selection, key, now).outcome == KeyOutcome::Continue,
        key_step(FocusState::Help, selection, key, now).selection == selection,
{
}

/// The question whether to close is answered with yes by enter, `y` and `q`,
/// which end the program, and with no by escape and `n`, which lead back; all
/// other keys leave it standing.
pub proof fn law_the_close_question_has_its_answers(
    selection: SelectionState,
    key: Key,
    now: u128,
)
    ensures
        ({
            let step = key_step(FocusState::ConfirmClose, selection, key, now);
            let yes = key is Enter || (key matches Key::Char(ch) && (ch == 'y' || ch == 'q'));
            let no = key is Esc || (key matches Key::Char(ch) && ch == 'n');
            &&& step.outcome == KeyOutcome::Quit <==> yes
            &&& step.outcome == KeyOutcome::Continue <==> !yes
            &&& step.focus is Main <==> no
            &&& step.focus is ConfirmClose <==> !no
            &&& step.selection == selection
        }),
{
}

/// The window over the main view is titled after what it is for, and shows the
/// whole text of the editor, the text of the help, or the answers to the
/// question.
pub proof fn law_windows_have_their_titles(editor: EditorState)
    ensures
        overlay_of(FocusState::SearchAdd(editor)) == Some(
            ("Search Add/Update"@, OverlayText::Line(seq![(editor.text, Colour::White)])),
        ),
        overlay_of(FocusState::SearchEdit(editor)) == Some(
            ("Search Add/Update"@, OverlayText::Line(seq![(editor.text, Colour::White)])),
        ),
        overlay_of(FocusState::Help) == Some(
            ("Help/Controls"@, OverlayText::Message("Placeholder"@)),
        ),
        overlay_of(FocusState::ConfirmClose) == Some(
            ("Confirm Close"@, OverlayText::Message("Y/N"@)),
        ),
{
}

/// A focus stands for itself, with what its editor holds.
pub proof fn law_a_focus_holds_its_editor(editor: SearchEditor)
    ensures
        Focus::Main@ is Main,
        Focus::SearchAdd(editor)@ == FocusState::SearchAdd(editor@),
        Focus::SearchEdit(editor)@ == FocusState::SearchEdit(editor@),
        Focus::Help@ is Help,
        Focus::ConfirmClose@ is ConfirmClose,
{
}

/// A window stands for its title and for all that it holds.
pub proof fn law_a_window_is_its_title_and_text(
    title: String,
    message: String,
    line: tui::text::Spans<'static>,
)
    ensures
        (Overlay { title, body: OverlayBody::Message(message) })@ == (
            title@,
            OverlayText::Message(message@),
        ),
        (Overlay { title, body: OverlayBody::Line(line) })@ == (
            title@,
            OverlayText::Line(spans_runs(line)),
        ),
{
}

/// Where a selection of the main view is out of range, the keys that would move
/// it do nothing.
pub proof fn law_keys_leave_what_is_out_of_range(selection: SelectionState, key: Key, now: u128)
    requires
        ({
            ||| selection.pane >= 3 && (key is Left || key is Right)
            ||| selection.pane == 0 && selection.root_index >= 5 && (key is Up || key is Down
                || key is Enter)
        }),
    ensures
        key_step(FocusState::Main, selection, key, now) == (KeyStep {
            focus: FocusState::Main,
            selection,
            outcome: KeyOutcome::Continue,
        }),
{
}

} // verus!
