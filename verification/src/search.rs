//! The search itself: which keys and values match, and how a pool of workers
//! shares the keys that are still to be visited.

use crate::string_set::StringSet;
use crate::text::{contains_text, lowercase, occurs_in, texts};
use std::collections::VecDeque;
use vstd::prelude::*;
use vstd::string::*;

verus! {

/// Whether the unnamed value of a key is shown under the name that the registry
/// editor gives it.
pub const REGEDIT_OUTPUT_FOR_BLANK_NAMES: bool = true;

/// How long the supervisor of the workers pauses between two looks, in
/// milliseconds.
pub const SUPERVISOR_PAUSE_MILLIS: u64 = 100;

/// A value of a registry key: its name, its data as text, and the name of its
/// type.
#[derive(Debug)]
pub struct RegistryValue {
    pub name: String,
    pub data: String,
    pub kind: String,
}

/// What a registry key holds, as far as it could be read: an entry that could
/// not be read is given by its error message.
#[derive(Debug)]
pub struct KeyListing {
    pub subkeys: Vec<Result<String, String>>,
    pub values: Vec<Result<RegistryValue, String>>,
}

/// How many entries of keys were met since the program began, in all searches
/// together. Both numbers start again at 0 beyond the range of `usize`.
#[derive(Clone, Copy, Debug, PartialEq, Eq, Structural)]
pub struct EntryCounts {
    /// The number of subkeys.
    pub keys: usize,
    /// The number of values.
    pub values: usize,
}

impl EntryCounts {
    /// `number` more subkeys are met.
    pub open spec fn with_keys(self, number: nat) -> EntryCounts {
        EntryCounts { keys: self.keys.wrapping_add(number as usize), ..self }
    }

    /// `number` more values are met.
    pub open spec fn with_values(self, number: nat) -> EntryCounts {
        EntryCounts { values: self.values.wrapping_add(number as usize), ..self }
    }

    /// A key is visited; `opened` is what it holds, or the message with which
    /// it could not be opened.
    pub open spec fn visited(self, opened: Result<KeyListing, String>) -> EntryCounts {
        match opened {
            Ok(listing) => self.with_keys(listing.subkeys@.len()).with_values(
                listing.values@.len(),
            ),
            Err(_) => self,
        }
    }
}

/// Why a worker asks for a key.
#[derive(Clone, Copy, Debug, PartialEq, Eq, Structural)]
pub enum Wake {
    /// It has nothing to do.
    Asked,
    /// It was waiting, and was told that there may be keys again.
    WorkReady,
    /// It was waiting, and was told that there will be no more keys.
    NoWorkLeft,
}

/// What a worker does next.
#[derive(Debug)]
pub enum WorkStep {
    /// Read this key.
    Process(String),
    /// Wait to be woken.
    Wait,
    /// Stop for good.
    Stop,
}

/// What a worker does next, with the key as characters.
pub enum StepState {
    Process(Seq<char>),
    Wait,
    Stop,
}

impl View for WorkStep {
    type V = StepState;

    open spec fn view(&self) -> StepState {
        match self {
            WorkStep::Process(key) => StepState::Process(key@),
            WorkStep::Wait => StepState::Wait,
            WorkStep::Stop => StepState::Stop,
        }
    }
}

/// What happens to a worker.
#[derive(Debug)]
pub enum WorkerEvent {
    /// It starts.
    Started,
    /// While it waits, it is told that there may be keys again.
    WorkReady,
    /// While it waits, it is told that there will be no more keys.
    NoWorkLeft,
    /// It is done with a key, which may have failed with an error message.
    Processed { key_path: String, outcome: Result<(), String> },
}

/// What happens to the supervisor of the workers.
#[derive(Clone, Copy, Debug, PartialEq, Eq, Structural)]
pub enum RunEvent {
    /// It starts.
    Started,
    /// It takes a look at the workers.
    Look,
}

/// What the supervisor of the workers does next.
#[derive(Clone, Copy, Debug, PartialEq, Eq, Structural)]
pub enum RunAction {
    /// Start this many workers, tell those that wait that there may be keys,
    /// and look.
    Spawn(usize),
    /// Tell the workers that wait that there may be keys, pause, and look
    /// again.
    WakeWorkers,
    /// Pause, and look again.
    Pause,
    /// Tell the workers that wait that there will be no more keys, and stop.
    Finish,
}

/// What stands before every path of the searched root key.
pub open spec fn root_prefix() -> Seq<char> {
    "HKEY_LOCAL_MACHINE\\"@
}

/// The line that reports a key.
pub open spec fn key_line(path: Seq<char>) -> Seq<char> {
    root_prefix() + path
}

/// The path of the subkey `name` of the key at `path`.
pub open spec fn subkey_path(path: Seq<char>, name: Seq<char>) -> Seq<char> {
    path + "\\"@ + name
}

/// The name under which a value is shown.
pub open spec fn shown_name(name: Seq<char>) -> Seq<char> {
    if name.len() == 0 && REGEDIT_OUTPUT_FOR_BLANK_NAMES {
        "(Default)"@
    } else {
        name
    }
}

/// The line that reports a value of the key at `path`.
pub open spec fn value_line(path: Seq<char>, value: RegistryValue) -> Seq<char> {
    root_prefix() + path + "\\"@ + shown_name(value.name@) + " = \""@ + value.data@ + "\" ("@
        + value.kind@ + ")"@
}

/// The line that reports a failure on the key at `path`, where `what` says what
/// failed.
pub open spec fn error_line(path: Seq<char>, what: Seq<char>, message: Seq<char>) -> Seq<char> {
    path + what + message + "\""@
}

/// What stands between path and message where a subkey could not be listed.
pub open spec fn subkey_failure() -> Seq<char> {
    ", Subkey error: \""@
}

/// What stands between path and message where a value could not be read.
pub open spec fn value_failure() -> Seq<char> {
    ", Value error: \""@
}

/// What stands between path and message where a key could not be opened.
pub open spec fn key_failure() -> Seq<char> {
    ", Key error: \""@
}

/// Whether some term stands somewhere in `lowered`.
pub open spec fn any_term_in(terms: Seq<Seq<char>>, lowered: Seq<char>) -> bool {
    exists|i: int| 0 <= i < terms.len() && occurs_in(#[trigger] terms[i], lowered)
}

/// Whether some term stands somewhere in the lower case form of `s`.
pub open spec fn matches_terms(terms: Seq<Seq<char>>, s: Seq<char>) -> bool {
    any_term_in(terms, lowercase(s))
}

/// The paths of the subkeys that could be listed, in order.
pub open spec fn subkey_paths(
    path: Seq<char>,
    subkeys: Seq<Result<String, String>>,
) -> Seq<Seq<char>> {
    subkeys.filter_map(
        |subkey: Result<String, String>|
            match subkey {
                Ok(name) => Some(subkey_path(path, name@)),
                Err(_) => None,
            },
    )
}

/// Whether `line` reports that `subkey` could not be listed.
pub open spec fn reports_subkey_error(
    path: Seq<char>,
    subkey: Result<String, String>,
    line: Seq<char>,
) -> bool {
    subkey matches Err(message) && line == error_line(path, subkey_failure(), message@)
}

/// The lines that report the subkeys that could not be listed.
pub open spec fn subkey_errors(
    path: Seq<char>,
    subkeys: Seq<Result<String, String>>,
) -> Set<Seq<char>> {
    Set::new(
        |line: Seq<char>|
            exists|i: int|
                0 <= i < subkeys.len() && reports_subkey_error(path, #[trigger] subkeys[i], line),
    )
}

/// Whether `line` reports that `value` was read and that its name or its data
/// matches.
pub open spec fn reports_value(
    terms: Seq<Seq<char>>,
    path: Seq<char>,
    value: Result<RegistryValue, String>,
    line: Seq<char>,
) -> bool {
    value matches Ok(v) && (matches_terms(terms, v.name@) || matches_terms(terms, v.data@))
        && line == value_line(path, v)
}

/// The lines that report the matching values.
pub open spec fn value_results(
    terms: Seq<Seq<char>>,
    path: Seq<char>,
    values: Seq<Result<RegistryValue, String>>,
) -> Set<Seq<char>> {
    Set::new(
        |line: Seq<char>|
            exists|i: int|
                0 <= i < values.len() && reports_value(terms, path, #[trigger] values[i], line),
    )
}

/// Whether `line` reports that `value` could not be read.
pub open spec fn reports_value_error(
    path: Seq<char>,
    value: Result<RegistryValue, String>,
    line: Seq<char>,
) -> bool {
    value matches Err(message) && line == error_line(path, value_failure(), message@)
}

/// The lines that report the values that could not be read.
pub open spec fn value_errors(
    path: Seq<char>,
    values: Seq<Result<RegistryValue, String>>,
) -> Set<Seq<char>> {
    Set::new(
        |line: Seq<char>|
            exists|i: int|
                0 <= i < values.len() && reports_value_error(path, #[trigger] values[i], line),
    )
}

/// Where a search stands.
#[verifier::ext_equal]
pub struct SearchState {
    /// The number of workers.
    pub threads: usize,
    /// The search terms in lower case.
    pub terms: Seq<Seq<char>>,
    /// The keys still to be visited, the next one first.
    pub queue: Seq<Seq<char>>,
    /// The number of workers that wait for a key.
    pub waiting: usize,
    /// The lines that report what was found.
    pub results: Set<Seq<char>>,
    /// The lines that report what failed.
    pub errors: Set<Seq<char>>,
}

impl SearchState {
    /// A search for `terms` with `threads` workers, before anything is done.
    pub open spec fn initial(terms: Seq<Seq<char>>, threads: usize) -> SearchState {
        SearchState {
            threads,
            terms: terms.map_values(|term: Seq<char>| lowercase(term)),
            queue: Seq::empty(),
            waiting: 0,
            results: Set::empty(),
            errors: Set::empty(),
        }
    }

    /// `keys` are queued behind the others.
    pub open spec fn fed(self, keys: Seq<Seq<char>>) -> SearchState {
        SearchState { queue: self.queue + keys, ..self }
    }

    /// The key at `path` is reported if its path matches.
    pub open spec fn with_key(self, path: Seq<char>) -> SearchState {
        if matches_terms(self.terms, path) {
            SearchState { results: self.results.insert(key_line(path)), ..self }
        } else {
            self
        }
    }

    /// The subkeys of the key at `path` that could be listed are queued, and
    /// the others reported.
    pub open spec fn with_subkeys(
        self,
        path: Seq<char>,
        subkeys: Seq<Result<String, String>>,
    ) -> SearchState {
        SearchState {
            queue: self.queue + subkey_paths(path, subkeys),
            errors: self.errors.union(subkey_errors(path, subkeys)),
            ..self
        }
    }

    /// The values of the key at `path` that match, and those that could not be
    /// read, are reported.
    pub open spec fn with_values(
        self,
        path: Seq<char>,
        values: Seq<Result<RegistryValue, String>>,
    ) -> SearchState {
        SearchState {
            results: self.results.union(value_results(self.terms, path, values)),
            errors: self.errors.union(value_errors(path, values)),
            ..self
        }
    }

    /// The key at `path` is visited; `opened` is what it holds, or the message
    /// with which it could not be opened.
    pub open spec fn visited(
        self,
        path: Seq<char>,
        opened: Result<KeyListing, String>,
    ) -> SearchState {
        match opened {
            Ok(listing) => self.with_key(path).with_subkeys(path, listing.subkeys@).with_values(
                path,
                listing.values@,
            ),
            Err(_) => self.with_key(path),
        }
    }

    /// A worker takes the next key, or joins those that wait.
    pub open spec fn taken(self) -> (SearchState, StepState) {
        if self.queue.len() > 0 {
            (
                SearchState { queue: self.queue.drop_first(), ..self },
                StepState::Process(self.queue[0]),
            )
        } else {
            (SearchState { waiting: self.waiting.wrapping_add(1), ..self }, StepState::Wait)
        }
    }

    /// A worker asks for a key. One that was told that there will be no more
    /// keys stays among those that wait.
    pub open spec fn asked(self, wake: Wake) -> (SearchState, StepState) {
        match wake {
            Wake::Asked => self.taken(),
            Wake::WorkReady => (SearchState {
                waiting: self.waiting.wrapping_sub(1),
                ..self
            }).taken(),
            Wake::NoWorkLeft => (self, StepState::Stop),
        }
    }

    /// The key at `path` could not be opened.
    pub open spec fn with_key_error(self, path: Seq<char>, message: Seq<char>) -> SearchState {
        SearchState { errors: self.errors.insert(error_line(path, key_failure(), message)), ..self }
    }

    /// `event` happens to a worker.
    pub open spec fn worker_step(self, event: WorkerEvent) -> (SearchState, StepState) {
        match event {
            WorkerEvent::Started => self.asked(Wake::Asked),
            WorkerEvent::WorkReady => self.asked(Wake::WorkReady),
            WorkerEvent::NoWorkLeft => self.asked(Wake::NoWorkLeft),
            WorkerEvent::Processed { key_path, outcome: Ok(_) } => self.asked(Wake::Asked),
            WorkerEvent::Processed { key_path, outcome: Err(message) } => self.with_key_error(
                key_path@,
                message@,
            ).asked(Wake::Asked),
        }
    }

    /// What the supervisor does when `event` happens. It ends the search only
    /// when all workers wait and no key is queued.
    pub open spec fn supervision(self, event: RunEvent) -> RunAction {
        match event {
            RunEvent::Started => RunAction::Spawn(self.threads),
            RunEvent::Look => if self.waiting != self.threads {
                RunAction::Pause
            } else if self.queue.len() > 0 {
                RunAction::WakeWorkers
            } else {
                RunAction::Finish
            },
        }
    }
}

/// The paths of the subkeys are those of the names that could be listed.
pub proof fn lemma_paths_of_subkeys(
    path: Seq<char>,
    subkeys: Seq<Result<String, String>>,
    child: Seq<char>,
)
    ensures
        subkey_paths(path, subkeys).contains(child) <==> exists|j: int|
            0 <= j < subkeys.len() && (#[trigger] subkeys[j] matches Ok(n) && child == subkey_path(
                path,
                n@,
            )),
    decreases subkeys.len(),
{
    let paths = subkey_paths(path, subkeys);
    if subkeys.len() > 0 {
        let rest = subkeys.drop_last();
        let rest_paths = subkey_paths(path, rest);
        lemma_paths_of_subkeys(path, rest, child);
        if paths.contains(child) {
            if rest_paths.contains(child) {
                let j = choose|j: int|
                    0 <= j < rest.len() && (#[trigger] rest[j] matches Ok(n) && child
                        == subkey_path(path, n@));
                assert(subkeys[j] == rest[j]);
            } else {
                let k = paths.index_of(child);
                if k < rest_paths.len() {
                    assert(rest_paths[k] == child);
                }
                assert(subkeys[subkeys.len() - 1] == subkeys.last());
            }
        }
        if exists|j: int|
            0 <= j < subkeys.len() && (#[trigger] subkeys[j] matches Ok(n) && child == subkey_path(
                path,
                n@,
            )) {
            let j = choose|j: int|
                0 <= j < subkeys.len() && (#[trigger] subkeys[j] matches Ok(n) && child
                    == subkey_path(path, n@));
            if j < rest.len() {
                assert(rest[j] == subkeys[j]);
                let k = rest_paths.index_of(child);
                assert(paths[k] == child);
            } else {
                assert(paths[rest_paths.len() as int] == child);
            }
        }
    }
}

proof fn lemma_one_more_subkey(path: Seq<char>, subkeys: Seq<Result<String, String>>, i: int)
    requires
        0 <= i < subkeys.len(),
    ensures
        match subkeys[i] {
            Ok(name) => {
                &&& subkey_paths(path, subkeys.take(i + 1)) == subkey_paths(
                    path,
                    subkeys.take(i),
                ).push(subkey_path(path, name@))
                &&& subkey_errors(path, subkeys.take(i + 1)) == subkey_errors(
                    path,
                    subkeys.take(i),
                )
            },
            Err(message) => {
                &&& subkey_paths(path, subkeys.take(i + 1)) == subkey_paths(path, subkeys.take(i))
                &&& subkey_errors(path, subkeys.take(i + 1)) == subkey_errors(
                    path,
                    subkeys.take(i),
                ).insert(error_line(path, subkey_failure(), message@))
            },
        },
{
    let less = subkeys.take(i);
    let more = subkeys.take(i + 1);
    assert(more.drop_last() =~= less);
    let old_errors = subkey_errors(path, less);
    let new_errors = subkey_errors(path, more);
    assert forall|line: Seq<char>| old_errors.contains(line) implies new_errors.contains(
        line,
    ) by {
        let j = choose|j: int|
            0 <= j < less.len() && reports_subkey_error(path, #[trigger] less[j], line);
        assert(more[j] == less[j]);
    }
    assert forall|line: Seq<char>|
        new_errors.contains(line) && !reports_subkey_error(
            path,
            subkeys[i],
            line,
        ) implies old_errors.contains(line) by {
        let j = choose|j: int|
            0 <= j < more.len() && reports_subkey_error(path, #[trigger] more[j], line);
        assert(less[j] == more[j]);
    }
    assert(more[i] == subkeys[i]);
    if let Err(message) = subkeys[i] {
        assert(new_errors =~= old_errors.insert(error_line(path, subkey_failure(), message@)));
    } else {
        assert(new_errors =~= old_errors);
    }
}

proof fn lemma_one_more_value(
    terms: Seq<Seq<char>>,
    path: Seq<char>,
    values: Seq<Result<RegistryValue, String>>,
    i: int,
)
    requires
        0 <= i < values.len(),
    ensures
        value_results(terms, path, values.take(i + 1)) == match values[i] {
            Ok(value) => if matches_terms(terms, value.name@) || matches_terms(terms, value.data@) {
                value_results(terms, path, values.take(i)).insert(value_line(path, value))
            } else {
                value_results(terms, path, values.take(i))
            },
            Err(_) => value_results(terms, path, values.take(i)),
        },
        value_errors(path, values.take(i + 1)) == match values[i] {
            Ok(_) => value_errors(path, values.take(i)),
            Err(message) => value_errors(path, values.take(i)).insert(
                error_line(path, value_failure(), message@),
            ),
        },
{
    let less = values.take(i);
    let more = values.take(i + 1);
    assert(more[i] == values[i]);
    let old_results = value_results(terms, path, less);
    let new_results = value_results(terms, path, more);
    assert forall|line: Seq<char>| old_results.contains(line) implies new_results.contains(
        line,
    ) by {
        let j = choose|j: int|
            0 <= j < less.len() && reports_value(terms, path, #[trigger] less[j], line);
        assert(more[j] == less[j]);
    }
    assert forall|line: Seq<char>|
        new_results.contains(line) && !reports_value(
            terms,
            path,
            values[i],
            line,
        ) implies old_results.contains(line) by {
        let j = choose|j: int|
            0 <= j < more.len() && reports_value(terms, path, #[trigger] more[j], line);
        assert(less[j] == more[j]);
    }
    let old_errors = value_errors(path, less);
    let new_errors = value_errors(path, more);
    assert forall|line: Seq<char>| old_errors.contains(line) implies new_errors.contains(
        line,
    ) by {
        let j = choose|j: int|
            0 <= j < less.len() && reports_value_error(path, #[trigger] less[j], line);
        assert(more[j] == less[j]);
    }
    assert forall|line: Seq<char>|
        new_errors.contains(line) && !reports_value_error(
            path,
            values[i],
            line,
        ) implies old_errors.contains(line) by {
        let j = choose|j: int|
            0 <= j < more.len() && reports_value_error(path, #[trigger] more[j], line);
        assert(less[j] == more[j]);
    }
    match values[i] {
        Ok(value) => {
            assert(new_errors =~= old_errors);
            if matches_terms(terms, value.name@) || matches_terms(terms, value.data@) {
                assert(new_results =~= old_results.insert(value_line(path, value)));
            } else {
                assert(new_results =~= old_results);
            }
        },
        Err(message) => {
            assert(new_results =~= old_results);
            assert(new_errors =~= old_errors.insert(error_line(path, value_failure(), message@)));
        },
    }
}

/// Whether some term stands somewhere in `lowered`.
pub fn any_term_matches(terms: &Vec<String>, lowered: &str) -> (r: bool)
    ensures
        r == any_term_in(texts(terms@), lowered@),
{
    let mut i: usize = 0;
    while i < terms.len()
        invariant
            i <= terms.len(),
            forall|j: int| 0 <= j < i ==> !occurs_in(#[trigger] texts(terms@)[j], lowered@),
        decreases terms.len() - i,
    {
        if contains_text(lowered, terms[i].as_str()) {
            assert(occurs_in(texts(terms@)[i as int], lowered@));
            return true;
        }
        i = i + 1;
    }
    false
}

/// The line that reports the key at `path`.
fn format_key(path: &str) -> (r: String)
    ensures
        r@ == key_line(path@),
{
    "HKEY_LOCAL_MACHINE\\".to_owned().concat(path)
}

/// The path of the subkey `name` of the key at `path`.
fn format_subkey(path: &str, name: &str) -> (r: String)
    ensures
        r@ == subkey_path(path@, name@),
{
    path.to_owned().concat("\\").concat(name)
}

/// The line that reports a value of the key at `path`.
fn format_value(path: &str, value: &RegistryValue) -> (r: String)
    ensures
        r@ == value_line(path@, *value),
{
    let name: &str = if value.name.as_str().is_empty() && REGEDIT_OUTPUT_FOR_BLANK_NAMES {
        "(Default)"
    } else {
        value.name.as_str()
    };
    "HKEY_LOCAL_MACHINE\\".to_owned().concat(path).concat("\\").concat(name).concat(
        " = \"",
    ).concat(value.data.as_str()).concat("\" (").concat(value.kind.as_str()).concat(")")
}

/// The line that reports a failure on the key at `path`.
fn format_error(path: &str, what: &str, message: &str) -> (r: String)
    ensures
        r@ == error_line(path@, what@, message@),
{
    path.to_owned().concat(what).concat(message).concat("\"")
}

/// A search: its terms, the keys still to be visited, and what was found.
#[derive(Debug)]
pub struct WorkerManager {
    threads: usize,
    search_terms: Vec<String>,
    key_queue: VecDeque<String>,
    threads_waiting_for_work: usize,
    pub results: StringSet,
    pub errors: StringSet,
}

impl View for WorkerManager {
    type V = SearchState;

    closed spec fn view(&self) -> SearchState {
        SearchState {
            threads: self.threads,
            terms: texts(self.search_terms@),
            queue: texts(self.key_queue@),
            waiting: self.threads_waiting_for_work,
            results: self.results@,
            errors: self.errors@,
        }
    }
}

impl WorkerManager {
    /// A search for `search_terms`, in lower or upper case alike, with
    /// `threads_to_use` workers.
    pub fn new(search_terms: Vec<String>, threads_to_use: usize) -> (r: Self)
        ensures
            r@ == SearchState::initial(texts(search_terms@), threads_to_use),
    {
        let mut lowered: Vec<String> = Vec::new();
        let mut i: usize = 0;
        while i < search_terms.len()
            invariant
                i <= search_terms.len(),
                lowered.len() == i,
                forall|j: int|
                    0 <= j < i ==> (#[trigger] lowered@[j])@ == lowercase(search_terms@[j]@),
            decreases search_terms.len() - i,
        {
            lowered.push(search_terms[i].as_str().to_lowercase());
            i = i + 1;
        }
        let r = Self {
            threads: threads_to_use,
            search_terms: lowered,
            key_queue: VecDeque::new(),
            threads_waiting_for_work: 0,
            results: StringSet::new(),
            errors: StringSet::new(),
        };
        assert(r@ =~= SearchState::initial(texts(search_terms@), threads_to_use));
        r
    }

    /// Visits the key at `key_path`; `opened` is what it holds, or the message
    /// with which it could not be opened, which is then handed back. The key is
    /// reported if its path matches, even if it could not be opened; its
    /// subkeys are queued, and those of its values are reported whose name or
    /// data matches. Both are counted in `counts`.
    pub fn feed_queue_and_process_values(
        &mut self,
        key_path: &str,
        opened: &Result<KeyListing, String>,
        counts: &mut EntryCounts,
    ) -> (r: Result<(), String>)
        ensures
            final(self)@ == old(self)@.visited(key_path@, *opened),
            *final(counts) == old(counts).visited(*opened),
            match *opened {
                Ok(_) => r == Ok::<(), String>(()),
                Err(message) => r matches Err(m) && m@ == message@,
            },
    {
        if self.string_matches(key_path) {
            let _ = self.results.insert(format_key(key_path));
        }
        match opened {
            Ok(listing) => {
                self.feed_subkeys(key_path, &listing.subkeys, counts);
                self.process_values(key_path, &listing.values, counts);
                Ok(())
            },
            Err(message) => Err(message.clone()),
        }
    }

    /// Counts the subkeys of the key at `key_path`, queues those that could be
    /// listed, and reports the others.
    pub fn feed_subkeys(
        &mut self,
        key_path: &str,
        subkeys: &Vec<Result<String, String>>,
        counts: &mut EntryCounts,
    )
        ensures
            final(self)@ == old(self)@.with_subkeys(key_path@, subkeys@),
            *final(counts) == old(counts).with_keys(subkeys@.len()),
    {
        let ghost before = self@;
        let mut key_paths: Vec<String> = Vec::new();
        let mut i: usize = 0;
        while i < subkeys.len()
            invariant
                i <= subkeys.len(),
                texts(key_paths@) == subkey_paths(key_path@, subkeys@.take(i as int)),
                self@ == (SearchState {
                    errors: before.errors.union(
                        subkey_errors(key_path@, subkeys@.take(i as int)),
                    ),
                    ..before
                }),
            decreases subkeys.len() - i,
        {
            match &subkeys[i] {
                Ok(name) => {
                    key_paths.push(format_subkey(key_path, name.as_str()));
                },
                Err(message) => {
                    let _ = self.errors.insert(
                        format_error(key_path, ", Subkey error: \"", message.as_str()),
                    );
                },
            }
            proof {
                lemma_one_more_subkey(key_path@, subkeys@, i as int);
            }
            i = i + 1;
        }
        assert(subkeys@.take(subkeys@.len() as int) =~= subkeys@);
        self.feed_queue(key_paths);
        counts.keys = counts.keys.wrapping_add(subkeys.len());
    }

    /// Counts the values of the key at `key_path`, and reports those that match
    /// and those that could not be read.
    pub fn process_values(
        &mut self,
        key_path: &str,
        values: &Vec<Result<RegistryValue, String>>,
        counts: &mut EntryCounts,
    )
        ensures
            final(self)@ == old(self)@.with_values(key_path@, values@),
            *final(counts) == old(counts).with_values(values@.len()),
    {
        let ghost before = self@;
        let mut i: usize = 0;
        while i < values.len()
            invariant
                i <= values.len(),
                self@ == (SearchState {
                    results: before.results.union(
                        value_results(before.terms, key_path@, values@.take(i as int)),
                    ),
                    errors: before.errors.union(value_errors(key_path@, values@.take(i as int))),
                    ..before
                }),
            decreases values.len() - i,
        {
            match &values[i] {
                Ok(value) => {
                    if self.any_string_matches(value.name.as_str(), value.data.as_str()) {
                        let _ = self.results.insert(format_value(key_path, value));
                    }
                },
                Err(message) => {
                    let _ = self.errors.insert(
                        format_error(key_path, ", Value error: \"", message.as_str()),
                    );
                },
            }
            proof {
                lemma_one_more_value(before.terms, key_path@, values@, i as int);
            }
            i = i + 1;
        }
        assert(values@.take(values@.len() as int) =~= values@);
        counts.values = counts.values.wrapping_add(values.len());
    }

    /// What a worker that asks for a key does next: read the key that was
    /// queued first, or wait where none is queued, or stop where it was told
    /// that there will be no more.
    pub fn get_work(&mut self, wake: Wake) -> (step: WorkStep)
        ensures
            (final(self)@, step@) == old(self)@.asked(wake),
    {
        match wake {
            Wake::NoWorkLeft => {
                return WorkStep::Stop;
            },
            Wake::WorkReady => {
                self.threads_waiting_for_work = self.threads_waiting_for_work.wrapping_sub(1);
            },
            Wake::Asked => {},
        }
        match self.key_queue.pop_front() {
            Some(key) => WorkStep::Process(key),
            None => {
                self.threads_waiting_for_work = self.threads_waiting_for_work.wrapping_add(1);
                WorkStep::Wait
            },
        }
    }

    /// Queues `keys` behind those that are queued already.
    pub fn feed_queue(&mut self, keys: Vec<String>)
        ensures
            final(self)@ == old(self)@.fed(texts(keys@)),
    {
        let ghost before = self@;
        let ghost all = keys@;
        for key in it: keys
            invariant
                it.seq() == all,
                self@ == before.fed(texts(all).take(it.index() as int)),
        {
            let ghost queued = self.key_queue@;
            let ghost i = it.index() as int;
            self.key_queue.push_back(key);
            proof {
                assert(texts(self.key_queue@) =~= texts(queued).push(texts(all)[i]));
                assert(texts(all).take(i + 1) =~= texts(all).take(i).push(texts(all)[i]));
            }
        }
        assert(texts(all).take(all.len() as int) =~= texts(all));
    }

    /// Whether some search term stands in `string` or in `string2`, in lower
    /// or upper case alike.
    pub fn any_string_matches(&self, string: &str, string2: &str) -> (r: bool)
        ensures
            r == (matches_terms(self@.terms, string@) || matches_terms(self@.terms, string2@)),
    {
        let string_lowercase = string.to_lowercase();
        let string2_lowercase = string2.to_lowercase();
        any_term_matches(&self.search_terms, string_lowercase.as_str()) || any_term_matches(
            &self.search_terms,
            string2_lowercase.as_str(),
        )
    }

    /// Whether some search term stands in `string`, in lower or upper case
    /// alike.
    pub fn string_matches(&self, string: &str) -> (r: bool)
        ensures
            r == matches_terms(self@.terms, string@),
    {
        let string_lowercase = string.to_lowercase();
        any_term_matches(&self.search_terms, string_lowercase.as_str())
    }

    /// What the supervisor of the workers does next.
    pub fn run(&self, event: RunEvent) -> (action: RunAction)
        ensures
            action == self@.supervision(event),
    {
        match event {
            RunEvent::Started => RunAction::Spawn(self.threads),
            RunEvent::Look => {
                if self.threads_waiting_for_work == self.threads {
                    if self.key_queue.len() == 0 {
                        RunAction::Finish
                    } else {
                        RunAction::WakeWorkers
                    }
                } else {
                    RunAction::Pause
                }
            },
        }
    }
}

/// What is reported can be read from the fields of the manager.
proof fn law_reports_can_be_read(manager: WorkerManager)
    ensures
        manager@.results == manager.results@,
        manager@.errors == manager.errors@,
{
}

/// What a worker does next when `event` happens to it. A key that failed is
/// reported first.
pub fn run_thread(worker_manager: &mut WorkerManager, event: WorkerEvent) -> (step: WorkStep)
    ensures
        (final(worker_manager)@, step@) == old(worker_manager)@.worker_step(event),
{
    match event {
        WorkerEvent::Started => worker_manager.get_work(Wake::Asked),
        WorkerEvent::WorkReady => worker_manager.get_work(Wake::WorkReady),
        WorkerEvent::NoWorkLeft => worker_manager.get_work(Wake::NoWorkLeft),
        WorkerEvent::Processed { key_path, outcome } => {
            if let Err(message) = outcome {
                let _ = worker_manager.errors.insert(
                    format_error(key_path.as_str(), ", Key error: \"", message.as_str()),
                );
            }
            worker_manager.get_work(Wake::Asked)
        },
    }
}

} // verus!
