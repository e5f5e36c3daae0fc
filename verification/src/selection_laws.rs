//! What holds of the main view at all times.

use crate::display::{Colour, SELECTION_COLOUR};
use crate::root::{all_roots, law_toggle_is_its_own_inverse, Root};
use crate::selection::{
    too_soon, RunCommand, SelectionState, DEBOUNCE_NANOS, RESULT_PANE, ROOT_PANE, RUN_SECONDS,
    SEARCH_TERM_PANE,
};
use crate::string_set::{
    law_a_removed_string_leaves_the_others, listing_with, listing_without,
};
use crate::text::padded;
use vstd::arithmetic::div_mod::{lemma_mod_self_0, lemma_small_mod};
use vstd::prelude::*;

verus! {

/// The main view starts with its selections in range and keeps them there,
/// whatever is pressed and whenever.
pub proof fn law_selections_stay_in_range(
    state: SelectionState,
    now: u128,
    original: Option<Seq<char>>,
    text: Seq<char>,
)
    requires
        state.valid(),
    ensures
        SelectionState::initial().valid(),
        state.pane_left(now).valid(),
        state.pane_right(now).valid(),
        state.root_up(now).valid(),
        state.root_down(now).valid(),
        state.search_term_down(now).valid(),
        state.root_toggled().valid(),
        state.with_term(original, text).valid(),
        state.run_toggled().0.valid(),
        state.run_begun().valid(),
        state.run_ended().valid(),
{
    lemma_terms_stay_distinct(state, original, text);
}

proof fn lemma_terms_stay_distinct(
    state: SelectionState,
    original: Option<Seq<char>>,
    text: Seq<char>,
)
    requires
        state.terms.no_duplicates(),
    ensures
        state.with_term(original, text).terms.no_duplicates(),
{
    let others = match original {
        None => state.terms,
        Some(original) => listing_without(state.terms, original),
    };
    assert(others.no_duplicates());
}

/// Within the moment after a change of the selected pane nothing that is
/// pressed changes it, and once the moment has passed the next press does.
pub proof fn law_pane_presses_are_debounced(state: SelectionState, now: u128)
    requires
        state.valid(),
    ensures
        now < state.pane_changed + DEBOUNCE_NANOS ==> {
            &&& state.pane_left(now) == state
            &&& state.pane_right(now) == state
        },
        now >= state.pane_changed + DEBOUNCE_NANOS ==> {
            &&& state.pane_left(now).pane != state.pane
            &&& state.pane_left(now).pane_changed == now
            &&& state.pane_right(now).pane != state.pane
            &&& state.pane_right(now).pane_changed == now
        },
{
}

/// Within the moment after a move among the root keys nothing that is pressed
/// moves the cursor, and once the moment has passed the next press does.
pub proof fn law_root_presses_are_debounced(state: SelectionState, now: u128)
    requires
        state.valid(),
    ensures
        now < state.root_changed + DEBOUNCE_NANOS ==> {
            &&& state.root_up(now) == state
            &&& state.root_down(now) == state
        },
        now >= state.root_changed + DEBOUNCE_NANOS ==> {
            &&& state.root_up(now).root_index != state.root_index
            &&& state.root_up(now).root_changed == now
            &&& state.root_down(now).root_index != state.root_index
            &&& state.root_down(now).root_changed == now
        },
{
}

/// Within the moment after a change among the search terms nothing that is
/// pressed changes the selection.
pub proof fn law_search_term_presses_are_debounced(state: SelectionState, now: u128)
    ensures
        now < state.term_changed + DEBOUNCE_NANOS ==> state.search_term_down(now) == state,
        now >= state.term_changed + DEBOUNCE_NANOS && state.terms.len() > 0
            ==> state.search_term_down(now).term_changed == now,
{
}

/// The panes, the root keys and the search terms are debounced apart from each
/// other: a change of one does not touch the others, nor hold them up.
pub proof fn law_selections_are_independent(state: SelectionState, now: u128)
    ensures
        state.pane_left(now) == (SelectionState {
            pane: state.pane_left(now).pane,
            pane_changed: state.pane_left(now).pane_changed,
            ..state
        }),
        state.pane_right(now) == (SelectionState {
            pane: state.pane_right(now).pane,
            pane_changed: state.pane_right(now).pane_changed,
            ..state
        }),
        state.root_up(now) == (SelectionState {
            root_index: state.root_up(now).root_index,
            root_changed: state.root_up(now).root_changed,
            ..state
        }),
        state.root_down(now) == (SelectionState {
            root_index: state.root_down(now).root_index,
            root_changed: state.root_down(now).root_changed,
            ..state
        }),
        state.search_term_down(now) == (SelectionState {
            term_index: state.search_term_down(now).term_index,
            term_changed: state.search_term_down(now).term_changed,
            ..state
        }),
{
}

/// Left undoes right, and right undoes left, when both presses count.
pub proof fn law_left_and_right_undo_each_other(
    state: SelectionState,
    first: u128,
    second: u128,
)
    requires
        state.valid(),
        !too_soon(state.pane_changed, first),
        !too_soon(first, second),
    ensures
        state.pane_left(first).pane_right(second).pane == state.pane,
        state.pane_right(first).pane_left(second).pane == state.pane,
{
}

/// Three presses to the same side that count lead back to the same pane, and
/// no fewer do.
pub proof fn law_three_panes_go_round(
    state: SelectionState,
    first: u128,
    second: u128,
    third: u128,
)
    requires
        state.valid(),
        !too_soon(state.pane_changed, first),
        !too_soon(first, second),
        !too_soon(second, third),
    ensures
        state.pane_right(first).pane != state.pane,
        state.pane_right(first).pane_right(second).pane != state.pane,
        state.pane_right(first).pane_right(second).pane_right(third).pane == state.pane,
        state.pane_left(first).pane != state.pane,
        state.pane_left(first).pane_left(second).pane != state.pane,
        state.pane_left(first).pane_left(second).pane_left(third).pane == state.pane,
{
}

/// Up undoes down, and down undoes up, when both presses count.
pub proof fn law_up_and_down_undo_each_other(state: SelectionState, first: u128, second: u128)
    requires
        state.valid(),
        !too_soon(state.root_changed, first),
        !too_soon(first, second),
    ensures
        state.root_up(first).root_down(second).root_index == state.root_index,
        state.root_down(first).root_up(second).root_index == state.root_index,
{
}

/// The cursor after `presses`, a list of times at which down is pressed.
pub open spec fn moved_down(state: SelectionState, presses: Seq<u128>) -> SelectionState
    decreases presses.len(),
{
    if presses.len() == 0 {
        state
    } else {
        moved_down(state, presses.drop_last()).root_down(presses.last())
    }
}

/// Whether no press comes too soon after a change at `changed` or after the
/// press before it.
pub open spec fn spaced(changed: u128, presses: Seq<u128>) -> bool {
    &&& presses.len() > 0 ==> !too_soon(changed, presses[0])
    &&& forall|i: int, j: int|
        0 <= i < j < presses.len() && j == i + 1 ==> !too_soon(
            #[trigger] presses[i],
            #[trigger] presses[j],
        )
}

/// Presses of down that all count move the cursor on by their number, round the
/// root keys: as many presses as there are root keys lead back.
pub proof fn law_the_cursor_goes_round_the_roots(state: SelectionState, presses: Seq<u128>)
    requires
        state.valid(),
        spaced(state.root_changed, presses),
    ensures
        moved_down(state, presses).root_index == (state.root_index + presses.len()) % 5,
        moved_down(state, presses).root_changed == if presses.len() == 0 {
            state.root_changed
        } else {
            presses.last()
        },
    decreases presses.len(),
{
    if presses.len() > 0 {
        let earlier = presses.drop_last();
        assert(spaced(state.root_changed, earlier));
        law_the_cursor_goes_round_the_roots(state, earlier);
        if earlier.len() > 0 {
            assert(!too_soon(presses[presses.len() - 2], presses[presses.len() - 1]));
        }
    }
}

/// With two search terms or more, a press of down that counts moves the
/// selection on by one, round the terms.
pub proof fn law_the_selection_goes_round_the_terms(state: SelectionState, now: u128)
    requires
        2 <= state.terms.len() <= usize::MAX,
        state.term_index < state.terms.len(),
        !too_soon(state.term_changed, now),
    ensures
        state.search_term_down(now).term_index == (state.term_index + 1) % (
        state.terms.len() as int),
{
    let count = state.terms.len();
    if state.term_index + 1 < count {
        lemma_small_mod((state.term_index + 1) as nat, count);
    } else {
        lemma_mod_self_0(count as int);
    }
}

/// With a single search term, presses of down that count go to and fro between
/// the term and the place behind it, where no row is.
pub proof fn law_a_single_term_alternates(state: SelectionState, first: u128, second: u128)
    requires
        state.terms.len() == 1,
        state.term_index == 0,
        !too_soon(state.term_changed, first),
        !too_soon(first, second),
    ensures
        state.search_term_down(first).term_index == 1,
        state.search_term_down(first).search_term_down(second).term_index == 0,
{
}

/// Of the rows of the root keys, the one under the cursor is coloured as
/// selected, and only while their pane is selected.
pub proof fn law_one_root_row_is_highlighted(state: SelectionState, root: Root)
    ensures
        (state.root_line(root)[0].1 == SELECTION_COLOUR) <==> (state.pane == ROOT_PANE
            && root.number() == state.root_index),
        state.valid() && state.pane == ROOT_PANE ==> state.root_line(
            all_roots()[state.root_index as int],
        )[0].1 == SELECTION_COLOUR,
        (state.root_line(root)[1] == ("Enabled"@, Colour::Green)) <==> state.roots.contains(root),
{
}

/// Of the rows of the search terms, the one at the selected place is coloured
/// as selected, and only while their pane is selected.
pub proof fn law_one_term_row_is_highlighted(state: SelectionState, index: int)
    ensures
        (state.term_line(index)[0].1 == SELECTION_COLOUR) <==> (state.pane == SEARCH_TERM_PANE
            && index == state.term_index),
{
}

/// Just one frame at a time is coloured as selected.
pub proof fn law_one_frame_is_highlighted(state: SelectionState, pane: u8)
    ensures
        (state.frame_colour(pane) == SELECTION_COLOUR) <==> pane == state.pane,
{
}

/// Turning the choice under the cursor round changes the choice on that root
/// key alone, and doing it twice changes nothing.
pub proof fn law_toggling_twice_changes_nothing(state: SelectionState, other: Root)
    requires
        state.valid(),
    ensures
        state.root_toggled().root_toggled() == state,
        other.number() != state.root_index ==> state.root_toggled().roots.contains(other)
            == state.roots.contains(other),
        other.number() == state.root_index ==> state.root_toggled().roots.contains(other)
            != state.roots.contains(other),
{
    let root = all_roots()[state.root_index as int];
    law_toggle_is_its_own_inverse(state.roots, root, other);
    assert(state.root_toggled().root_toggled() =~= state);
}

/// A stored search term is listed; the one it takes the place of is not, unless
/// it is the same; and all others stay.
pub proof fn law_a_stored_term_replaces_the_original(
    state: SelectionState,
    original: Option<Seq<char>>,
    text: Seq<char>,
    other: Seq<char>,
)
    requires
        state.valid(),
        other != text,
        original != Some(other),
    ensures
        state.with_term(original, text).terms.contains(text),
        original matches Some(o) ==> o != text ==> !state.with_term(
            original,
            text,
        ).terms.contains(o),
        state.with_term(original, text).terms.contains(other) == state.terms.contains(other),
{
    let others = match original {
        None => state.terms,
        Some(original) => listing_without(state.terms, original),
    };
    let after = listing_with(others, text);
    assert(after.contains(text)) by {
        if !others.contains(text) {
            assert(after[others.len() as int] == text);
        }
    }
    if state.terms.contains(other) {
        let i = state.terms.index_of(other);
        let k = match original {
            None => i,
            Some(o) => if state.terms.contains(o) && state.terms.index_of(o) < i {
                i - 1
            } else {
                i
            },
        };
        assert(others[k] == other);
        assert(after[k] == other);
    }
    if after.contains(other) {
        let k = after.index_of(other);
        assert(others[k] == other);
        assert(state.terms.contains(other));
    }
}

/// Adding a term that is listed already changes nothing.
pub proof fn law_listed_terms_are_not_added_again(state: SelectionState, text: Seq<char>)
    requires
        state.terms.contains(text),
    ensures
        state.with_term(None, text) == state,
{
}

/// A run goes through its stages: the press that starts it, its beginning, the
/// press that asks it to stop, and its end, after which the run control is as
/// it was.
pub proof fn law_a_run_goes_through_its_stages(state: SelectionState)
    requires
        !state.running,
        !state.run_control_disabled,
        !state.stop,
    ensures
        ({
            let started = state.run_toggled().0;
            let begun = started.run_begun();
            let stopping = begun.run_toggled().0;
            &&& state.run_toggled().1 == RunCommand::Start
            &&& state.control_line() == seq![("Start"@, Colour::White)]
            &&& begun.control_line() == seq![("Stop"@, Colour::Green)]
            &&& begun.run_toggled().1 == RunCommand::Stop
            &&& stopping.stop
            &&& stopping.control_line() == seq![("Stopping"@, Colour::Red)]
            &&& stopping.run_ended() == state
            &&& begun.run_ended() == state
        }),
{
}

/// The main view starts in the first pane, at the first root key and without
/// search terms, with the local machine and the users as the roots to be
/// searched, and with no run under way.
pub proof fn law_the_main_view_starts_afresh(root: Root)
    ensures
        ({
            let state = SelectionState::initial();
            &&& state.pane == 0 && state.pane_changed == 0
            &&& state.root_index == 0 && state.root_changed == 0
            &&& state.term_index == 0 && state.term_changed == 0
            &&& state.terms.len() == 0
            &&& state.roots.contains(root) <==> root is HkeyLocalMachine || root is HkeyUsers
            &&& !state.running && !state.run_control_disabled && !state.stop
        }),
{
}

/// A press comes too soon exactly within the first tenth of a second, in
/// nanoseconds, after the change.
pub proof fn law_a_tenth_of_a_second_must_pass(changed: u128, now: u128)
    ensures
        too_soon(changed, now) <==> now < changed + 100_000_000,
{
}

/// A press of left or right that counts selects the neighbouring of the three
/// panes and notes the time; one that comes too soon does nothing.
pub proof fn law_panes_move_to_the_neighbour(state: SelectionState, now: u128)
    requires
        state.pane < 3,
    ensures
        now >= state.pane_changed + 100_000_000 ==> {
            &&& state.pane_left(now).pane == if state.pane == 0 {
                2
            } else {
                state.pane - 1
            }
            &&& state.pane_right(now).pane == if state.pane == 2 {
                0
            } else {
                state.pane + 1
            }
            &&& state.pane_left(now).pane_changed == now
            &&& state.pane_right(now).pane_changed == now
        },
        now < state.pane_changed + 100_000_000 ==> {
            &&& state.pane_left(now) == state
            &&& state.pane_right(now) == state
        },
{
}

/// A press of up or down that counts moves the cursor to the neighbouring of the
/// five root keys and notes the time; one that comes too soon does nothing.
pub proof fn law_the_cursor_moves_to_the_neighbour(state: SelectionState, now: u128)
    requires
        state.root_index < 5,
    ensures
        now >= state.root_changed + 100_000_000 ==> {
            &&& state.root_up(now).root_index == if state.root_index == 0 {
                4
            } else {
                state.root_index - 1
            }
            &&& state.root_down(now).root_index == if state.root_index == 4 {
                0
            } else {
                state.root_index + 1
            }
            &&& state.root_up(now).root_changed == now
            &&& state.root_down(now).root_changed == now
        },
        now < state.root_changed + 100_000_000 ==> {
            &&& state.root_up(now) == state
            &&& state.root_down(now) == state
        },
{
}

/// A selection that is out of range is left alone.
pub proof fn law_selections_out_of_range_stay(state: SelectionState, now: u128)
    ensures
        state.pane >= 3 ==> state.pane_left(now) == state && state.pane_right(now) == state,
        state.root_index >= 5 ==> state.root_up(now) == state && state.root_down(now) == state
            && state.root_toggled() == state,
{
}

/// A press of down that counts selects the next search term, and the first after
/// the last; without search terms, or too soon, it does nothing. Of one term, the
/// place behind it is the last.
pub proof fn law_the_next_term_is_selected(state: SelectionState, now: u128)
    requires
        state.terms.len() <= usize::MAX,
    ensures
        state.terms.len() == 0 || now < state.term_changed + 100_000_000
            ==> state.search_term_down(now) == state,
        state.terms.len() > 0 && now >= state.term_changed + 100_000_000 ==> {
            &&& state.search_term_down(now).term_changed == now
            &&& state.term_index + 1 < state.terms.len() ==> state.search_term_down(now).term_index
                == state.term_index + 1
            &&& state.term_index + 1 >= state.terms.len() && state.terms.len() > 1
                ==> state.search_term_down(now).term_index == 0
            &&& state.terms.len() == 1 && state.term_index == 0 ==> state.search_term_down(
                now,
            ).term_index == 1
            &&& state.terms.len() == 1 && state.term_index > 0 ==> state.search_term_down(
                now,
            ).term_index == 0
        },
{
}

/// Turning a choice round touches the choice on the root key whose number the
/// cursor has, and nothing but the choices.
pub proof fn law_the_choice_under_the_cursor_turns(state: SelectionState, root: Root)
    requires
        state.root_index < 5,
    ensures
        state.root_toggled().roots.contains(root) <==> (state.roots.contains(root) != (
        root.number() == state.root_index)),
        state.root_toggled() == (SelectionState { roots: state.root_toggled().roots, ..state }),
{
    law_toggle_is_its_own_inverse(state.roots, all_roots()[state.root_index as int], root);
}

/// A new search term is listed last, and an edited one as well, after its
/// original was taken out; the terms that stay keep their order, and nothing but
/// the terms changes.
pub proof fn law_stored_terms_come_last(
    state: SelectionState,
    before: Seq<Seq<char>>,
    original: Seq<char>,
    after: Seq<Seq<char>>,
    text: Seq<char>,
)
    requires
        state.terms == before + seq![original] + after,
        state.terms.no_duplicates(),
        !state.terms.contains(text),
    ensures
        state.with_term(None, text) == (SelectionState { terms: state.terms.push(text), ..state }),
        state.with_term(Some(original), text) == (SelectionState {
            terms: (before + after).push(text),
            ..state
        }),
        state.with_term(Some(original), original) == (SelectionState {
            terms: (before + after).push(original),
            ..state
        }),
        state.with_term(Some(text), original) == state,
{
    law_a_removed_string_leaves_the_others(before, original, after);
    let rest = before + after;
    assert(state.terms[before.len() as int] == original);
    assert forall|i: int| 0 <= i < rest.len() implies rest[i] != text && rest[i] != original by {
        let k = if i < before.len() {
            i
        } else {
            i + 1
        };
        assert(state.terms[k] == rest[i]);
    }
}

/// The first search term stands alone.
pub proof fn law_the_first_term_stands_alone(
    state: SelectionState,
    original: Option<Seq<char>>,
    text: Seq<char>,
)
    requires
        state.terms.len() == 0,
    ensures
        state.with_term(original, text) == (SelectionState { terms: seq![text], ..state }),
{
    assert(state.with_term(original, text).terms =~= seq![text]);
}

/// The run key asks for a stop while a run is under way and for a start
/// otherwise; it touches nothing but the run control.
pub proof fn law_the_run_key_asks_for_the_other(state: SelectionState)
    ensures
        state.run_toggled().1 == RunCommand::Stop <==> state.running,
        state.run_toggled().1 == RunCommand::Start <==> !state.running,
        state.run_toggled().0 == (SelectionState {
            run_control_disabled: true,
            stop: state.stop || state.running,
            ..state
        }),
{
}

/// A run that begins is under way and can be stopped; one that is over has
/// left nothing behind, even if it was asked to stop. Neither touches anything
/// but the run control, and a run takes five seconds.
pub proof fn law_runs_begin_and_end(state: SelectionState)
    ensures
        state.run_begun() == (SelectionState {
            running: true,
            run_control_disabled: false,
            ..state
        }),
        state.run_ended() == (SelectionState {
            running: false,
            run_control_disabled: false,
            stop: false,
            ..state
        }),
        RUN_SECONDS == 5,
{
}

/// The row of a root key shows its name, filled up to the width of a column, and
/// behind it whether the key is selected: `Enabled` in green or `Disabled` in
/// white. The name is cyan if the cursor is on it in the selected first pane,
/// and else white.
pub proof fn law_root_rows_show_name_and_choice(state: SelectionState, root: Root)
    ensures
        state.root_line(root).len() == 2,
        state.root_line(root)[0].0 == padded(root.label()),
        state.root_line(root)[0].1 == if state.pane == 0 && root.number() == state.root_index {
            Colour::Cyan
        } else {
            Colour::White
        },
        state.roots.contains(root) ==> state.root_line(root)[1] == ("Enabled"@, Colour::Green),
        !state.roots.contains(root) ==> state.root_line(root)[1] == ("Disabled"@, Colour::White),
{
}

/// The row of a search term shows the term, filled up to the width of a column:
/// in cyan if it is the selected one in the selected second pane, and else in
/// white.
pub proof fn law_term_rows_show_the_term(state: SelectionState, index: int)
    requires
        0 <= index < state.terms.len(),
    ensures
        state.term_line(index).len() == 1,
        state.term_line(index)[0].0 == padded(state.terms[index]),
        state.term_line(index)[0].1 == if state.pane == 1 && index == state.term_index {
            Colour::Cyan
        } else {
            Colour::White
        },
{
}

/// The row of the run key reads `Start` in white while no run is under way;
/// during a run it reads `Stop` in green, or `Stopping` in red once the run was
/// asked to stop.
pub proof fn law_the_run_row_says_what_comes_next(state: SelectionState)
    ensures
        state.control_line().len() == 1,
        !state.running ==> state.control_line()[0] == ("Start"@, Colour::White),
        state.running && !state.run_control_disabled ==> state.control_line()[0] == (
            "Stop"@,
            Colour::Green,
        ),
        state.running && state.run_control_disabled ==> state.control_line()[0] == (
            "Stopping"@,
            Colour::Red,
        ),
{
}

/// The frame of the selected pane is cyan and the others are white, where the
/// panes are numbered from 0 to 2 as roots, search terms and results.
pub proof fn law_frames_show_the_selected_pane(state: SelectionState, pane: u8)
    ensures
        state.frame_colour(pane) == if pane == state.pane {
            Colour::Cyan
        } else {
            Colour::White
        },
        ROOT_PANE == 0,
        SEARCH_TERM_PANE == 1,
        RESULT_PANE == 2,
{
}

/// A term that is edited into one that is listed already is just taken out; and
/// editing a term that is not listed adds the text like a new one.
pub proof fn law_edits_never_list_a_term_twice(
    state: SelectionState,
    before: Seq<Seq<char>>,
    original: Seq<char>,
    after: Seq<Seq<char>>,
    text: Seq<char>,
    missing: Seq<char>,
)
    requires
        state.terms == before + seq![original] + after,
        state.terms.no_duplicates(),
        !state.terms.contains(missing),
        text != original,
        state.terms.contains(text),
    ensures
        state.with_term(Some(original), text) == (SelectionState {
            terms: before + after,
            ..state
        }),
        state.with_term(Some(missing), missing) == (SelectionState {
            terms: state.terms.push(missing),
            ..state
        }),
        state.with_term(Some(missing), text) == state,
{
    law_a_removed_string_leaves_the_others(before, original, after);
    let rest = before + after;
    let k = state.terms.index_of(text);
    assert(state.terms[before.len() as int] == original);
    assert(rest[if k < before.len() {
        k
    } else {
        k - 1
    }] == text);
}

/// Editing a term that is not listed comes to the same as adding the text.
pub proof fn law_a_missing_original_makes_no_difference(
    state: SelectionState,
    missing: Seq<char>,
    text: Seq<char>,
)
    requires
        !state.terms.contains(missing),
    ensures
        state.with_term(Some(missing), text) == state.with_term(None, text),
{
}

} // verus!
