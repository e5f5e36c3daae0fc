//! What is selected in the main view, and what the view shows of it.

use crate::display::{line_of, line_runs, spans_runs, Colour, StyledText, SELECTION_COLOUR};
use crate::editor::EditorMode;
use crate::root::{all_roots, toggled, Root, SelectedRoots};
use crate::string_set::{listing_with, listing_without, StringSet};
use crate::text::{pad, padded};
use std::time::Instant;
use tui::text::Spans;
use vstd::prelude::*;
use vstd::string::*;

verus! {

/// How long after a change of a selection further presses of a key leave that
/// selection alone, in nanoseconds.
pub const DEBOUNCE_NANOS: u128 = 100_000_000;

/// How long a run takes, in seconds.
pub const RUN_SECONDS: u64 = 5;

/// The pane with the root keys.
pub const ROOT_PANE: u8 = 0;

/// The pane with the search terms.
pub const SEARCH_TERM_PANE: u8 = 1;

/// The pane with the results.
pub const RESULT_PANE: u8 = 2;

/// `std::time::Instant`: a reading of a clock that never goes back.
#[verifier::external_type_specification]
#[verifier::external_body]
pub struct ExInstant(std::time::Instant);

/// `Instant::now`: a reading of the clock. Nothing is claimed of it, as it
/// depends on when it is taken.
pub assume_specification[ std::time::Instant::now ]() -> std::time::Instant;

/// `Instant::elapsed`, in nanoseconds: how long ago `start` was taken. Nothing
/// is claimed of it, as it depends on when it is asked for.
#[verifier::external_body]
fn nanos_since(start: &Instant) -> (r: u128) {
    start.elapsed().as_nanos()
}

/// What `read` tells of `start`.
fn ask<F: Fn(&Instant) -> u128>(read: F, start: &Instant) -> (r: u128)
    requires
        call_requires(read, (start,)),
    ensures
        call_ensures(read, (start,), r),
{
    read(start)
}

/// What a press of the run key asks of the program.
#[derive(Clone, Copy, Debug, PartialEq, Eq, Structural)]
pub enum RunCommand {
    /// A run is under way, and was asked to stop.
    Stop,
    /// Start a run.
    Start,
}

/// Where the main view stands. Times are in nanoseconds from the moment when
/// the view was made.
#[verifier::ext_equal]
pub struct SelectionState {
    /// The selected pane.
    pub pane: u8,
    /// When the selected pane last changed.
    pub pane_changed: u128,
    /// The place of the selected search term.
    pub term_index: usize,
    /// When the selected search term last changed.
    pub term_changed: u128,
    /// The number of the root key that the cursor is on.
    pub root_index: u8,
    /// When the cursor last moved to another root key.
    pub root_changed: u128,
    /// The root keys that are to be searched.
    pub roots: Set<Root>,
    /// The search terms, in the order in which they are listed.
    pub terms: Seq<Seq<char>>,
    /// Whether a run is under way.
    pub running: bool,
    /// Whether a run is about to start or to stop.
    pub run_control_disabled: bool,
    /// Whether the run under way was asked to stop.
    pub stop: bool,
}

/// Whether a press at `now` comes too soon after a change at `changed` to
/// count.
pub open spec fn too_soon(changed: u128, now: u128) -> bool {
    now < changed + DEBOUNCE_NANOS
}

impl SelectionState {
    /// The main view as the program starts with it.
    pub open spec fn initial() -> SelectionState {
        SelectionState {
            pane: ROOT_PANE,
            pane_changed: 0,
            term_index: 0,
            term_changed: 0,
            root_index: 0,
            root_changed: 0,
            roots: set![Root::HkeyLocalMachine, Root::HkeyUsers],
            terms: Seq::empty(),
            running: false,
            run_control_disabled: false,
            stop: false,
        }
    }

    /// Whether the selections are in range, and no search term is listed twice.
    pub open spec fn valid(self) -> bool {
        &&& self.pane < 3
        &&& self.root_index < all_roots().len()
        &&& self.terms.no_duplicates()
    }

    /// The selected pane moves `by` places to the right, round the three panes.
    pub open spec fn with_pane_moved(self, by: int, now: u128) -> SelectionState {
        if too_soon(self.pane_changed, now) || self.pane >= 3 {
            self
        } else {
            SelectionState { pane: ((self.pane + by) % 3) as u8, pane_changed: now, ..self }
        }
    }

    /// The pane to the left is selected, and from the first the last.
    pub open spec fn pane_left(self, now: u128) -> SelectionState {
        self.with_pane_moved(2, now)
    }

    /// The pane to the right is selected, and from the last the first.
    pub open spec fn pane_right(self, now: u128) -> SelectionState {
        self.with_pane_moved(1, now)
    }

    /// The cursor moves `by` places down, round the root keys.
    pub open spec fn with_root_moved(self, by: int, now: u128) -> SelectionState {
        if too_soon(self.root_changed, now) || self.root_index >= 5 {
            self
        } else {
            SelectionState {
                root_index: ((self.root_index + by) % 5) as u8,
                root_changed: now,
                ..self
            }
        }
    }

    /// The cursor moves up, and from the first root key to the last.
    pub open spec fn root_up(self, now: u128) -> SelectionState {
        self.with_root_moved(4, now)
    }

    /// The cursor moves down, and from the last root key to the first.
    pub open spec fn root_down(self, now: u128) -> SelectionState {
        self.with_root_moved(1, now)
    }

    /// The last place that the selection among the search terms goes to. Of a
    /// single term, the place behind it counts too.
    pub open spec fn last_term_index(self) -> int {
        if self.terms.len() == 1 {
            1
        } else {
            self.terms.len() - 1
        }
    }

    /// The next place among the search terms is selected, and after the last
    /// the first.
    pub open spec fn search_term_down(self, now: u128) -> SelectionState {
        if too_soon(self.term_changed, now) || self.terms.len() == 0 {
            self
        } else {
            SelectionState {
                term_index: if self.term_index < self.last_term_index() {
                    (self.term_index + 1) as usize
                } else {
                    0
                },
                term_changed: now,
                ..self
            }
        }
    }

    /// The choice on the root key under the cursor is turned round.
    pub open spec fn root_toggled(self) -> SelectionState {
        if self.root_index < all_roots().len() {
            SelectionState {
                roots: toggled(self.roots, all_roots()[self.root_index as int]),
                ..self
            }
        } else {
            self
        }
    }

    /// `text` becomes a search term, in place of `original` if there is one.
    pub open spec fn with_term(
        self,
        original: Option<Seq<char>>,
        text: Seq<char>,
    ) -> SelectionState {
        let others = match original {
            None => self.terms,
            Some(original) => listing_without(self.terms, original),
        };
        SelectionState { terms: listing_with(others, text), ..self }
    }

    /// The run key is pressed: a run that is under way is asked to stop, and
    /// otherwise one is to be started.
    pub open spec fn run_toggled(self) -> (SelectionState, RunCommand) {
        if self.running {
            (SelectionState { run_control_disabled: true, stop: true, ..self }, RunCommand::Stop)
        } else {
            (SelectionState { run_control_disabled: true, ..self }, RunCommand::Start)
        }
    }

    /// A run begins.
    pub open spec fn run_begun(self) -> SelectionState {
        SelectionState { running: true, run_control_disabled: false, ..self }
    }

    /// A run is over.
    pub open spec fn run_ended(self) -> SelectionState {
        SelectionState { running: false, run_control_disabled: false, stop: false, ..self }
    }

    /// The colour of the row at place `index` of `pane`, where `selected` is
    /// the selected place.
    pub open spec fn row_colour(self, pane: u8, index: int, selected: int) -> Colour {
        if self.pane == pane && index == selected {
            SELECTION_COLOUR
        } else {
            Colour::White
        }
    }

    /// The row of `root`: its name, and whether it is selected.
    pub open spec fn root_line(self, root: Root) -> Seq<(Seq<char>, Colour)> {
        seq![
            (
                padded(root.label()),
                self.row_colour(ROOT_PANE, root.number() as int, self.root_index as int),
            ),
            if self.roots.contains(root) {
                ("Enabled"@, Colour::Green)
            } else {
                ("Disabled"@, Colour::White)
            },
        ]
    }

    /// The row of the search term at place `index`.
    pub open spec fn term_line(self, index: int) -> Seq<(Seq<char>, Colour)> {
        seq![
            (
                padded(self.terms[index]),
                self.row_colour(SEARCH_TERM_PANE, index, self.term_index as int),
            ),
        ]
    }

    /// The row of the run key: what it does next.
    pub open spec fn control_line(self) -> Seq<(Seq<char>, Colour)> {
        seq![
            if !self.running {
                ("Start"@, Colour::White)
            } else if self.run_control_disabled {
                ("Stopping"@, Colour::Red)
            } else {
                ("Stop"@, Colour::Green)
            },
        ]
    }

    /// The colour of the frame of `pane`.
    pub open spec fn frame_colour(self, pane: u8) -> Colour {
        if self.pane == pane {
            SELECTION_COLOUR
        } else {
            Colour::White
        }
    }
}

/// The main view: the selected pane, the root keys, the search terms and the
/// run control.
#[derive(Debug)]
pub struct StaticSelection {
    made: Instant,
    pane_selected: u8,
    pane_last_changed: u128,
    search_term_selected: usize,
    search_term_last_changed: u128,
    root_selected: u8,
    root_selection_last_changed: u128,
    selected_roots: SelectedRoots,
    search_terms: StringSet,
    running: bool,
    run_control_temporarily_disabled: bool,
    stop: bool,
}

impl View for StaticSelection {
    type V = SelectionState;

    closed spec fn view(&self) -> SelectionState {
        SelectionState {
            pane: self.pane_selected,
            pane_changed: self.pane_last_changed,
            term_index: self.search_term_selected,
            term_changed: self.search_term_last_changed,
            root_index: self.root_selected,
            root_changed: self.root_selection_last_changed,
            roots: self.selected_roots@,
            terms: self.search_terms.listing(),
            running: self.running,
            run_control_disabled: self.run_control_temporarily_disabled,
            stop: self.stop,
        }
    }
}

impl Default for StaticSelection {
    /// The main view as the program starts with it.
    fn default() -> (r: Self)
        ensures
            r@ == SelectionState::initial(),
    {
        Self {
            made: Instant::now(),
            pane_selected: ROOT_PANE,
            pane_last_changed: 0,
            search_term_selected: 0,
            search_term_last_changed: 0,
            root_selected: 0,
            root_selection_last_changed: 0,
            selected_roots: SelectedRoots::default(),
            search_terms: StringSet::new(),
            running: false,
            run_control_temporarily_disabled: false,
            stop: false,
        }
    }
}

/// Whether a press at `now` comes too soon after a change at `changed` to
/// count.
fn is_too_soon(changed: u128, now: u128) -> (r: bool)
    ensures
        r == too_soon(changed, now),
{
    now < changed || now - changed < DEBOUNCE_NANOS
}

impl StaticSelection {
    /// The reading of the clock from which all times of the view are counted.
    pub closed spec fn clock(&self) -> Instant {
        self.made
    }

    /// Whether `now` is a time that the clock of the view can tell.
    pub closed spec fn can_tell(&self, now: u128) -> bool {
        call_ensures(nanos_since, (&self.made,), now)
    }

    /// How long ago the view was made, in nanoseconds, as the clock tells it.
    pub(crate) fn now(&self) -> (r: u128)
        ensures
            self.can_tell(r),
    {
        ask(nanos_since, &self.made)
    }

    /// The rows of the root keys.
    pub fn generate_root_list(&self) -> (r: Vec<Spans<'static>>)
        ensures
            line_runs(r@) == all_roots().map_values(|root: Root| self@.root_line(root)),
    {
        let pane_selected = self.pane_selected == ROOT_PANE;
        let roots = Root::all();
        let mut lines: Vec<Spans<'static>> = Vec::new();
        let mut i: usize = 0;
        while i < roots.len()
            invariant
                roots@ == all_roots(),
                pane_selected == (self@.pane == ROOT_PANE),
                i <= roots.len(),
                lines.len() == i,
                forall|j: int|
                    0 <= j < i ==> spans_runs(#[trigger] lines@[j]) == self@.root_line(
                        all_roots()[j],
                    ),
            decreases roots.len() - i,
        {
            let root = roots[i];
            let root_enabled = self.selected_roots.is_enabled(&root);
            let pieces = vec![
                StyledText {
                    text: pad(root.to_string().as_str()),
                    colour: if pane_selected && root.to_u8() == self.root_selected {
                        SELECTION_COLOUR
                    } else {
                        Colour::White
                    },
                },
                StyledText {
                    text: if root_enabled {
                        "Enabled".to_owned()
                    } else {
                        "Disabled".to_owned()
                    },
                    colour: if root_enabled {
                        Colour::Green
                    } else {
                        Colour::White
                    },
                },
            ];
            assert(pieces@.map_values(|piece: StyledText| piece@) =~= self@.root_line(root));
            lines.push(line_of(pieces));
            i = i + 1;
        }
        assert(line_runs(lines@) =~= all_roots().map_values(
            |root: Root| self@.root_line(root),
        ));
        lines
    }

    /// The rows of the search terms.
    pub fn render_search_terms(&self) -> (r: Vec<Spans<'static>>)
        ensures
            line_runs(r@) == Seq::new(self@.terms.len(), |i: int| self@.term_line(i)),
    {
        let pane_selected = self.pane_selected == SEARCH_TERM_PANE;
        let mut lines: Vec<Spans<'static>> = Vec::new();
        let mut i: usize = 0;
        while i < self.search_terms.len()
            invariant
                pane_selected == (self@.pane == SEARCH_TERM_PANE),
                i <= self@.terms.len(),
                lines.len() == i,
                forall|j: int|
                    0 <= j < i ==> spans_runs(#[trigger] lines@[j]) == self@.term_line(j),
            decreases self@.terms.len() - i,
        {
            let pieces = vec![
                StyledText {
                    text: pad(self.search_terms.get(i)),
                    colour: if pane_selected && i == self.search_term_selected {
                        SELECTION_COLOUR
                    } else {
                        Colour::White
                    },
                },
            ];
            assert(pieces@.map_values(|piece: StyledText| piece@) =~= self@.term_line(i as int));
            lines.push(line_of(pieces));
            i = i + 1;
        }
        assert(line_runs(lines@) =~= Seq::new(self@.terms.len(), |i: int| self@.term_line(i)));
        lines
    }

    /// The row of the run key.
    pub fn render_run_control(&self) -> (r: Spans<'static>)
        ensures
            spans_runs(r) == self@.control_line(),
    {
        let piece = if self.running {
            if self.run_control_temporarily_disabled {
                StyledText { text: "Stopping".to_owned(), colour: Colour::Red }
            } else {
                StyledText { text: "Stop".to_owned(), colour: Colour::Green }
            }
        } else {
            StyledText { text: "Start".to_owned(), colour: Colour::White }
        };
        let pieces = vec![piece];
        assert(pieces@.map_values(|piece: StyledText| piece@) =~= self@.control_line());
        line_of(pieces)
    }

    /// The colour of the frame of `pane`.
    pub fn frame_colour(&self, pane: u8) -> (r: Colour)
        ensures
            r == self@.frame_colour(pane),
    {
        if self.pane_selected == pane {
            SELECTION_COLOUR
        } else {
            Colour::White
        }
    }

    /// Selects the pane to the left, by the clock.
    pub fn pane_left(&mut self)
        ensures
            exists|now: u128|
                old(self).can_tell(now) && final(self)@ == #[trigger] old(self)@.pane_left(now),
            final(self).clock() == old(self).clock(),
    {
        let now: u128 = self.now();
        self.pane_left_at(now);
    }

    /// Selects the pane to the left, unless the pane changed a moment before
    /// `now`.
    pub fn pane_left_at(&mut self, now: u128)
        ensures
            final(self)@ == old(self)@.pane_left(now),
            final(self).clock() == old(self).clock(),
    {
        if is_too_soon(self.pane_last_changed, now) {
            return;
        }
        let new_value: u8 = match self.pane_selected {
            0 => 2,
            1 => 0,
            2 => 1,
            _ => {
                return;
            },
        };
        self.pane_selected = new_value;
        self.pane_last_changed = now;
    }

    /// Selects the pane to the right, by the clock.
    pub fn pane_right(&mut self)
        ensures
            exists|now: u128|
                old(self).can_tell(now) && final(self)@ == #[trigger] old(self)@.pane_right(now),
            final(self).clock() == old(self).clock(),
    {
        let now: u128 = self.now();
        self.pane_right_at(now);
    }

    /// Selects the pane to the right, unless the pane changed a moment before
    /// `now`.
    pub fn pane_right_at(&mut self, now: u128)
        ensures
            final(self)@ == old(self)@.pane_right(now),
            final(self).clock() == old(self).clock(),
    {
        if is_too_soon(self.pane_last_changed, now) {
            return;
        }
        let new_value: u8 = match self.pane_selected {
            0 => 1,
            1 => 2,
            2 => 0,
            _ => {
                return;
            },
        };
        self.pane_selected = new_value;
        self.pane_last_changed = now;
    }

    /// Moves the cursor among the root keys up, by the clock.
    pub fn root_up(&mut self)
        ensures
            exists|now: u128|
                old(self).can_tell(now) && final(self)@ == #[trigger] old(self)@.root_up(now),
            final(self).clock() == old(self).clock(),
    {
        let now: u128 = self.now();
        self.root_up_at(now);
    }

    /// Moves the cursor among the root keys up, unless it moved a moment before
    /// `now`.
    pub fn root_up_at(&mut self, now: u128)
        ensures
            final(self)@ == old(self)@.root_up(now),
            final(self).clock() == old(self).clock(),
    {
        if is_too_soon(self.root_selection_last_changed, now) {
            return;
        }
        let new_value: u8 = match self.root_selected {
            0 => 4,
            1 => 0,
            2 => 1,
            3 => 2,
            4 => 3,
            _ => {
                return;
            },
        };
        self.root_selected = new_value;
        self.root_selection_last_changed = now;
    }

    /// Moves the cursor among the root keys down, by the clock.
    pub fn root_down(&mut self)
        ensures
            exists|now: u128|
                old(self).can_tell(now) && final(self)@ == #[trigger] old(self)@.root_down(now),
            final(self).clock() == old(self).clock(),
    {
        let now: u128 = self.now();
        self.root_down_at(now);
    }

    /// Moves the cursor among the root keys down, unless it moved a moment
    /// before `now`.
    pub fn root_down_at(&mut self, now: u128)
        ensures
            final(self)@ == old(self)@.root_down(now),
            final(self).clock() == old(self).clock(),
    {
        if is_too_soon(self.root_selection_last_changed, now) {
            return;
        }
        let new_value: u8 = match self.root_selected {
            0 => 1,
            1 => 2,
            2 => 3,
            3 => 4,
            4 => 0,
            _ => {
                return;
            },
        };
        self.root_selected = new_value;
        self.root_selection_last_changed = now;
    }

    /// Upwards the selection among the search terms stays where it is.
    pub fn search_term_up(&mut self)
        ensures
            *final(self) == *old(self),
    {
    }

    /// Selects the next search term, by the clock.
    pub fn search_term_down(&mut self)
        ensures
            exists|now: u128|
                old(self).can_tell(now) && final(self)@ == #[trigger] old(self)@.search_term_down(
                    now,
                ),
            final(self).clock() == old(self).clock(),
    {
        let now: u128 = self.now();
        self.search_term_down_at(now);
    }

    /// Selects the next search term, unless the selection changed a moment
    /// before `now`.
    pub fn search_term_down_at(&mut self, now: u128)
        ensures
            final(self)@ == old(self)@.search_term_down(now),
            final(self).clock() == old(self).clock(),
    {
        if is_too_soon(self.search_term_last_changed, now) {
            return;
        }
        let search_terms_len: usize = self.search_terms.len();
        if search_terms_len == 0 {
            return;
        }
        let max_index: usize = if search_terms_len > 1 {
            search_terms_len - 1
        } else {
            search_terms_len
        };
        let current: usize = self.search_term_selected;
        self.search_term_selected = if current < max_index {
            current + 1
        } else {
            0
        };
        self.search_term_last_changed = now;
    }

    /// Turns the choice on the root key under the cursor round.
    pub fn root_toggle(&mut self)
        ensures
            final(self)@ == old(self)@.root_toggled(),
            final(self).clock() == old(self).clock(),
    {
        if let Some(root) = Root::from_u8(self.root_selected) {
            self.selected_roots.toggle(&root);
        }
    }

    /// Makes `text` a search term, in place of the one that `mode` names.
    pub fn store_search_term(&mut self, mode: EditorMode, text: String)
        ensures
            final(self)@ == old(self)@.with_term(mode.original(), text@),
            final(self).clock() == old(self).clock(),
    {
        match mode {
            EditorMode::Add => {},
            EditorMode::Edit(original) => {
                let _ = self.search_terms.remove(&original);
            },
        }
        let _ = self.search_terms.insert(text);
    }

    /// Answers the run key: asks a run that is under way to stop, and
    /// otherwise has one started.
    pub fn toggle_running(&mut self) -> (command: RunCommand)
        ensures
            (final(self)@, command) == old(self)@.run_toggled(),
            final(self).clock() == old(self).clock(),
    {
        self.run_control_temporarily_disabled = true;
        if self.running {
            self.stop = true;
            RunCommand::Stop
        } else {
            RunCommand::Start
        }
    }

    /// Notes that a run begins.
    pub fn run_begun(&mut self)
        ensures
            final(self)@ == old(self)@.run_begun(),
            final(self).clock() == old(self).clock(),
    {
        self.running = true;
        self.run_control_temporarily_disabled = false;
    }

    /// Notes that a run is over.
    pub fn run_ended(&mut self)
        ensures
            final(self)@ == old(self)@.run_ended(),
            final(self).clock() == old(self).clock(),
    {
        self.stop = false;
        self.running = false;
        self.run_control_temporarily_disabled = false;
    }

    /// The selected pane.
    pub fn pane_selected(&self) -> (r: u8)
        ensures
            r == self@.pane,
    {
        self.pane_selected
    }

    /// The number of the root key that the cursor is on.
    pub fn root_selected(&self) -> (r: u8)
        ensures
            r == self@.root_index,
    {
        self.root_selected
    }

    /// The place of the selected search term.
    pub fn search_term_selected(&self) -> (r: usize)
        ensures
            r == self@.term_index,
    {
        self.search_term_selected
    }

    /// The root keys that are to be searched.
    pub fn selected_roots(&self) -> (r: &SelectedRoots)
        ensures
            r@ == self@.roots,
    {
        &self.selected_roots
    }

    /// The search terms.
    pub fn search_terms(&self) -> (r: &StringSet)
        ensures
            r.listing() == self@.terms,
    {
        &self.search_terms
    }

    /// Whether the run under way was asked to stop.
    pub fn stop_requested(&self) -> (r: bool)
        ensures
            r == self@.stop,
    {
        self.stop
    }
}

} // verus!
