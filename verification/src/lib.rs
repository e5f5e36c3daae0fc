//! The engine of a terminal program that searches the Windows registry: which
//! keys and values match the search terms, how a pool of workers shares the
//! keys still to be visited, what each key press does to the interface, and
//! what the interface shows.
//!
//! Reading the registry, the terminal and the thread pool belong to the
//! program around this library.

pub mod display;
pub mod editor;
pub mod event_laws;
pub mod events;
pub mod pool;
pub mod report_laws;
pub mod root;
pub mod search;
pub mod search_laws;
pub mod selection;
pub mod selection_laws;
pub mod string_set;
pub mod text;

pub use display::{tips_line, Colour, StyledText, SELECTION_COLOUR};
pub use editor::{EditorMode, SearchEditor};
pub use events::{
    handle_key, handle_key_at, overlay, Focus, Key, KeyOutcome, Overlay, OverlayBody,
};
pub use root::{Root, SelectedRoots};
pub use search::{
    any_term_matches, run_thread, EntryCounts, KeyListing, RegistryValue, RunAction, RunEvent,
    Wake, WorkStep, WorkerEvent, WorkerManager, SUPERVISOR_PAUSE_MILLIS,
};
pub use selection::{
    RunCommand, StaticSelection, DEBOUNCE_NANOS, RESULT_PANE, ROOT_PANE, RUN_SECONDS,
    SEARCH_TERM_PANE,
};
pub use string_set::StringSet;
