//! What holds of every search.

use crate::report_laws::{
    holds_a_term, law_matching_values_are_reported, law_unlisted_subkeys_are_reported,
    law_unread_values_are_reported,
};
use crate::search::{
    any_term_in, key_line, lemma_paths_of_subkeys, matches_terms, reports_value, root_prefix,
    subkey_errors, subkey_path, subkey_paths, value_errors, value_line, value_results,
    EntryCounts, KeyListing, RunAction, RunEvent, SearchState, StepState, Wake, WorkStep,
    WorkerEvent, SUPERVISOR_PAUSE_MILLIS,
};
use crate::text::{
    ascii_lowered, ascii_uppered, law_a_part_occurs, law_what_occurs_is_a_part, lowercase,
    occurs_in,
};
use vstd::prelude::*;
use vstd::string::*;
use vstd::utf8::is_ascii_chars;

verus! {

/// Two strings with the same lower case form match the same terms.
pub proof fn law_matching_ignores_case(terms: Seq<Seq<char>>, a: Seq<char>, b: Seq<char>)
    requires
        lowercase(a) == lowercase(b),
    ensures
        matches_terms(terms, a) == matches_terms(terms, b),
{
}

/// Two lists of search terms whose terms have the same lower case forms start
/// the same search.
pub proof fn law_terms_ignore_case(a: Seq<Seq<char>>, b: Seq<Seq<char>>, threads: usize)
    requires
        a.len() == b.len(),
        forall|i: int| 0 <= i < a.len() ==> lowercase(#[trigger] a[i]) == lowercase(b[i]),
    ensures
        SearchState::initial(a, threads) == SearchState::initial(b, threads),
{
    assert(SearchState::initial(a, threads) =~= SearchState::initial(b, threads));
}

/// `terms` with each ASCII letter in upper case.
pub open spec fn uppered_terms(terms: Seq<Seq<char>>) -> Seq<Seq<char>> {
    terms.map_values(|term: Seq<char>| ascii_uppered(term))
}

proof fn lemma_ascii_case(s: Seq<char>)
    requires
        is_ascii_chars(s),
    ensures
        lowercase(ascii_uppered(s)) == lowercase(s),
        lowercase(ascii_lowered(s)) == lowercase(s),
{
    assert(is_ascii_chars(ascii_uppered(s)));
    assert(is_ascii_chars(ascii_lowered(s)));
    assert(ascii_lowered(ascii_uppered(s)) =~= ascii_lowered(s));
    assert(ascii_lowered(ascii_lowered(s)) =~= ascii_lowered(s));
}

/// The case of an ASCII string makes no difference to whether it matches, nor
/// does the case of ASCII search terms.
pub proof fn law_ascii_case_makes_no_difference(
    terms: Seq<Seq<char>>,
    threads: usize,
    s: Seq<char>,
)
    requires
        is_ascii_chars(s),
        forall|i: int| 0 <= i < terms.len() ==> is_ascii_chars(#[trigger] terms[i]),
    ensures
        ({
            let search = SearchState::initial(terms, threads);
            let uppered = SearchState::initial(uppered_terms(terms), threads);
            &&& matches_terms(search.terms, ascii_uppered(s)) == matches_terms(search.terms, s)
            &&& matches_terms(search.terms, ascii_lowered(s)) == matches_terms(search.terms, s)
            &&& matches_terms(uppered.terms, s) == matches_terms(search.terms, s)
            &&& uppered == search
        }),
{
    lemma_ascii_case(s);
    assert forall|i: int| 0 <= i < terms.len() implies lowercase(
        #[trigger] uppered_terms(terms)[i],
    ) == lowercase(terms[i]) by {
        lemma_ascii_case(terms[i]);
    }
    law_terms_ignore_case(uppered_terms(terms), terms, threads);
}

proof fn lemma_occurs_in_longer_text(
    needle: Seq<char>,
    before: Seq<char>,
    text: Seq<char>,
    after: Seq<char>,
)
    requires
        occurs_in(needle, text),
    ensures
        occurs_in(needle, before + text + after),
{
    let i = choose|i: int|
        0 <= i && i + needle.len() <= text.len() && #[trigger] text.subrange(i, i + needle.len())
            == needle;
    let longer = before + text + after;
    let k = before.len() + i;
    assert(longer.subrange(k, k + needle.len()) =~= text.subrange(i, i + needle.len()));
}

/// An ASCII path that matches still matches when it is extended by ASCII text
/// at either end: so do all subkeys of a matching key.
pub proof fn law_a_longer_path_keeps_matching(
    terms: Seq<Seq<char>>,
    path: Seq<char>,
    name: Seq<char>,
)
    requires
        matches_terms(terms, path),
        is_ascii_chars(path),
        is_ascii_chars(name),
    ensures
        matches_terms(terms, subkey_path(path, name)),
        matches_terms(terms, subkey_path(name, path)),
{
    reveal_strlit("\\");
    let i = choose|i: int|
        0 <= i < terms.len() && occurs_in(#[trigger] terms[i], lowercase(path));
    let none = Seq::<char>::empty();
    let below = subkey_path(path, name);
    assert(is_ascii_chars(below));
    let rest = ascii_lowered("\\"@ + name);
    assert(lowercase(below) =~= none + lowercase(path) + rest);
    lemma_occurs_in_longer_text(terms[i], none, lowercase(path), rest);
    let above = subkey_path(name, path);
    assert(is_ascii_chars(above));
    let start = ascii_lowered(name + "\\"@);
    assert(lowercase(above) =~= start + lowercase(path) + none);
    lemma_occurs_in_longer_text(terms[i], start, lowercase(path), none);
}

/// Without search terms nothing matches.
pub proof fn law_no_terms_match_nothing(s: Seq<char>)
    ensures
        !matches_terms(Seq::empty(), s),
{
}

/// An empty search term matches everything.
pub proof fn law_an_empty_term_matches_everything(terms: Seq<Seq<char>>, s: Seq<char>)
    requires
        terms.contains(Seq::empty()),
    ensures
        matches_terms(terms, s),
{
    let empty = Seq::<char>::empty();
    let lowered = lowercase(s);
    let i = terms.index_of(empty);
    assert(lowered.subrange(0, 0) =~= empty);
    assert(lowered.subrange(0, 0int + empty.len()) == empty);
    assert(occurs_in(terms[i], lowered));
}

/// With more search terms, whatever matched still matches.
pub proof fn law_more_terms_match_more(
    terms: Seq<Seq<char>>,
    more: Seq<Seq<char>>,
    s: Seq<char>,
)
    requires
        forall|term: Seq<char>| terms.contains(term) ==> more.contains(term),
        matches_terms(terms, s),
    ensures
        matches_terms(more, s),
{
    let i = choose|i: int|
        0 <= i < terms.len() && occurs_in(#[trigger] terms[i], lowercase(s));
    assert(terms.contains(terms[i]));
    let j = more.index_of(terms[i]);
    assert(occurs_in(more[j], lowercase(s)));
}

/// The first `n` keys that workers get who ask one after the other.
pub open spec fn handed_out(state: SearchState, n: nat) -> Seq<Seq<char>>
    decreases n,
{
    if n == 0 {
        Seq::empty()
    } else {
        match state.asked(Wake::Asked) {
            (after, StepState::Process(key)) => seq![key] + handed_out(after, (n - 1) as nat),
            _ => Seq::empty(),
        }
    }
}

proof fn lemma_handed_out(state: SearchState)
    ensures
        handed_out(state, state.queue.len()) == state.queue,
    decreases state.queue.len(),
{
    if state.queue.len() > 0 {
        let after = state.asked(Wake::Asked).0;
        lemma_handed_out(after);
        assert(seq![state.queue[0]] + after.queue =~= state.queue);
    }
}

/// Keys are handed out in the order in which they were queued, each as often as
/// it was queued.
pub proof fn law_keys_leave_in_the_order_they_came(state: SearchState, keys: Seq<Seq<char>>)
    ensures
        handed_out(state.fed(keys), state.queue.len() + keys.len()) == state.queue + keys,
{
    lemma_handed_out(state.fed(keys));
}

/// Visiting a key keeps the queued keys in their places, and queues each subkey
/// that could be listed behind them.
pub proof fn law_listed_subkeys_are_queued(state: SearchState, path: Seq<char>, listing: KeyListing)
    ensures
        ({
            let after = state.visited(path, Ok::<KeyListing, String>(listing));
            &&& state.queue.is_prefix_of(after.queue)
            &&& after.queue.skip(state.queue.len() as int) == subkey_paths(path, listing.subkeys@)
            &&& forall|j: int|
                0 <= j < listing.subkeys@.len() ==> (#[trigger] listing.subkeys@[j] matches Ok(
                    name,
                ) ==> after.queue.contains(subkey_path(path, name@)))
        }),
{
    let after = state.visited(path, Ok::<KeyListing, String>(listing));
    let added = subkey_paths(path, listing.subkeys@);
    assert(after.queue =~= state.queue + added);
    assert(after.queue.skip(state.queue.len() as int) =~= added);
    assert forall|j: int| 0 <= j < listing.subkeys@.len() implies (
    #[trigger] listing.subkeys@[j] matches Ok(name) ==> after.queue.contains(
        subkey_path(path, name@),
    )) by {
        if let Ok(name) = listing.subkeys@[j] {
            lemma_paths_of_subkeys(path, listing.subkeys@, subkey_path(path, name@));
            let k = added.index_of(subkey_path(path, name@));
            assert(after.queue[state.queue.len() + k] == subkey_path(path, name@));
        }
    }
}

/// A key that could not be opened adds nothing to the queue and nothing to the
/// counts.
pub proof fn law_an_unopened_key_adds_no_work(
    state: SearchState,
    counts: EntryCounts,
    path: Seq<char>,
    message: String,
)
    ensures
        state.visited(path, Err::<KeyListing, String>(message)).queue == state.queue,
        counts.visited(Err::<KeyListing, String>(message)) == counts,
{
}

/// Nothing that was reported is ever taken back, and the search terms and the
/// number of workers stay as they are.
pub proof fn law_reports_are_never_taken_back(
    state: SearchState,
    path: Seq<char>,
    opened: Result<KeyListing, String>,
    keys: Seq<Seq<char>>,
    event: WorkerEvent,
)
    ensures
        state.results.subset_of(state.visited(path, opened).results),
        state.errors.subset_of(state.visited(path, opened).errors),
        state.visited(path, opened).terms == state.terms,
        state.visited(path, opened).threads == state.threads,
        state.fed(keys).results == state.results,
        state.fed(keys).errors == state.errors,
        state.fed(keys).terms == state.terms,
        state.fed(keys).threads == state.threads,
        state.worker_step(event).0.results == state.results,
        state.errors.subset_of(state.worker_step(event).0.errors),
        state.worker_step(event).0.terms == state.terms,
        state.worker_step(event).0.threads == state.threads,
{
}

/// Whether every reported line stands under the searched root key.
pub open spec fn results_under_root(state: SearchState) -> bool {
    forall|line: Seq<char>| #[trigger]
        state.results.contains(line) ==> root_prefix().is_prefix_of(line)
}

/// Every line that reports a match begins with the name of the searched root
/// key, at the start of a search and after every step of it.
pub proof fn law_results_stand_under_the_root(
    state: SearchState,
    terms: Seq<Seq<char>>,
    threads: usize,
    path: Seq<char>,
    opened: Result<KeyListing, String>,
    keys: Seq<Seq<char>>,
    event: WorkerEvent,
)
    ensures
        results_under_root(SearchState::initial(terms, threads)),
        results_under_root(state) ==> results_under_root(state.visited(path, opened)),
        results_under_root(state) ==> results_under_root(state.fed(keys)),
        results_under_root(state) ==> results_under_root(state.worker_step(event).0),
{
    if results_under_root(state) {
        assert forall|line: Seq<char>| #[trigger]
            state.visited(path, opened).results.contains(line) implies root_prefix().is_prefix_of(
            line,
        ) by {
            if !state.results.contains(line) && line != key_line(path) {
                let values = opened->Ok_0.values@;
                let j = choose|j: int|
                    0 <= j < values.len() && reports_value(
                        state.terms,
                        path,
                        #[trigger] values[j],
                        line,
                    );
                assert(line == value_line(path, values[j]->Ok_0));
            }
        }
        assert(state.worker_step(event).0.results == state.results);
    }
}

/// A new search looks for every term that it was given, each in lower case and
/// in its place, with as many workers as asked for, and has done nothing yet.
pub proof fn law_a_new_search_keeps_every_term(
    terms: Seq<Seq<char>>,
    threads: usize,
    i: int,
)
    ensures
        ({
            let search = SearchState::initial(terms, threads);
            &&& search.terms.len() == terms.len()
            &&& 0 <= i < terms.len() ==> search.terms[i] == lowercase(terms[i])
            &&& search.threads == threads
            &&& search.waiting == 0
            &&& search.queue.len() == 0
            &&& forall|line: Seq<char>| !#[trigger] search.results.contains(line)
            &&& forall|line: Seq<char>| !#[trigger] search.errors.contains(line)
        }),
{
}

/// Whatever holds a given term, in lower case, between any two texts, matches
/// the new search.
pub proof fn law_every_given_term_is_looked_for(
    terms: Seq<Seq<char>>,
    threads: usize,
    i: int,
    before: Seq<char>,
    after: Seq<char>,
    s: Seq<char>,
)
    requires
        0 <= i < terms.len(),
        lowercase(s) == before + lowercase(terms[i]) + after,
    ensures
        matches_terms(SearchState::initial(terms, threads).terms, s),
{
    law_a_new_search_keeps_every_term(terms, threads, i);
    law_a_part_occurs(lowercase(terms[i]), before, after);
    let kept = SearchState::initial(terms, threads).terms;
    assert(occurs_in(kept[i], lowercase(s)));
}

/// What matches a new search holds one of the given terms, in lower case: that
/// term and the texts round it make the whole.
pub proof fn law_only_given_terms_match(
    terms: Seq<Seq<char>>,
    threads: usize,
    s: Seq<char>,
) -> (found: (int, Seq<char>, Seq<char>))
    requires
        matches_terms(SearchState::initial(terms, threads).terms, s),
    ensures
        0 <= found.0 < terms.len(),
        lowercase(s) == found.1 + lowercase(terms[found.0]) + found.2,
{
    let kept = SearchState::initial(terms, threads).terms;
    let i = choose|i: int| 0 <= i < kept.len() && occurs_in(#[trigger] kept[i], lowercase(s));
    let parts = law_what_occurs_is_a_part(kept[i], lowercase(s));
    (i, parts.0, parts.1)
}

/// A text matches a list of terms exactly if it matches one of its two parts.
pub proof fn law_terms_match_one_by_one(
    first: Seq<Seq<char>>,
    second: Seq<Seq<char>>,
    s: Seq<char>,
)
    ensures
        matches_terms(first + second, s) <==> matches_terms(first, s) || matches_terms(second, s),
{
    let both = first + second;
    let lowered = lowercase(s);
    if matches_terms(both, s) {
        let i = choose|i: int| 0 <= i < both.len() && occurs_in(#[trigger] both[i], lowered);
        if i < first.len() {
            assert(occurs_in(first[i], lowered));
        } else {
            assert(occurs_in(second[i - first.len()], lowered));
        }
    }
    if matches_terms(first, s) {
        let i = choose|i: int| 0 <= i < first.len() && occurs_in(#[trigger] first[i], lowered);
        assert(occurs_in(both[i], lowered));
    }
    if matches_terms(second, s) {
        let i = choose|i: int| 0 <= i < second.len() && occurs_in(#[trigger] second[i], lowered);
        assert(occurs_in(both[first.len() + i], lowered));
    }
}

/// A search for a single term matches what holds that term, and nothing else.
pub proof fn law_a_single_term_matches_what_holds_it(term: Seq<char>, s: Seq<char>)
    ensures
        matches_terms(seq![term], s) <==> occurs_in(term, lowercase(s)),
{
    let terms = seq![term];
    if occurs_in(term, lowercase(s)) {
        assert(occurs_in(terms[0], lowercase(s)));
    }
}

/// Feeding puts the keys behind those that are queued, and touches nothing else.
pub proof fn law_fed_keys_come_last(state: SearchState, keys: Seq<Seq<char>>, i: int)
    ensures
        ({
            let after = state.fed(keys);
            &&& after.queue.len() == state.queue.len() + keys.len()
            &&& 0 <= i < state.queue.len() ==> after.queue[i] == state.queue[i]
            &&& 0 <= i < keys.len() ==> after.queue[state.queue.len() + i] == keys[i]
            &&& after.waiting == state.waiting
        }),
{
}

/// A visit reports a line exactly if it was reported before, or the path holds a
/// term and it is the line of the key, or it is the line of a value that was
/// read and whose name or data holds a term.
pub proof fn law_a_visit_reports_what_matches(
    state: SearchState,
    path: Seq<char>,
    opened: Result<KeyListing, String>,
    line: Seq<char>,
)
    ensures
        state.visited(path, opened).results.contains(line) <==> {
            ||| state.results.contains(line)
            ||| line == key_line(path) && exists|k: int|
                0 <= k < state.terms.len() && occurs_in(
                    #[trigger] state.terms[k],
                    lowercase(path),
                )
            ||| opened matches Ok(listing) && exists|i: int|
                0 <= i < listing.values@.len() && (#[trigger] listing.values@[i] matches Ok(value)
                    && holds_a_term(state.terms, value) && line == value_line(path, value))
        },
{
    if let Ok(listing) = opened {
        law_matching_values_are_reported(state.terms, path, listing.values@, line);
    }
}

/// A visit reports a failure exactly if it was reported before, or an entry of
/// the key could not be read.
pub proof fn law_a_visit_reports_what_failed(
    state: SearchState,
    path: Seq<char>,
    opened: Result<KeyListing, String>,
    line: Seq<char>,
)
    ensures
        state.visited(path, opened).errors.contains(line) <==> {
            ||| state.errors.contains(line)
            ||| opened matches Ok(listing) && exists|i: int|
                0 <= i < listing.subkeys@.len() && (#[trigger] listing.subkeys@[i] matches Err(
                    message,
                ) && line == path + ", Subkey error: \""@ + message@ + "\""@)
            ||| opened matches Ok(listing) && exists|i: int|
                0 <= i < listing.values@.len() && (#[trigger] listing.values@[i] matches Err(
                    message,
                ) && line == path + ", Value error: \""@ + message@ + "\""@)
        },
{
    if let Ok(listing) = opened {
        law_unlisted_subkeys_are_reported(path, listing.subkeys@, line);
        law_unread_values_are_reported(path, listing.values@, line);
    }
}

/// A visit leaves the workers as they are.
pub proof fn law_a_visit_wakes_nobody(
    state: SearchState,
    path: Seq<char>,
    opened: Result<KeyListing, String>,
)
    ensures
        state.visited(path, opened).waiting == state.waiting,
        state.visited(path, opened).threads == state.threads,
{
}

/// The parts of a visit, the subkeys and the values, each do their share of it
/// and nothing else.
pub proof fn law_the_parts_of_a_visit(state: SearchState, path: Seq<char>, listing: KeyListing)
    ensures
        ({
            let fed = state.with_subkeys(path, listing.subkeys@);
            let read = state.with_values(path, listing.values@);
            &&& fed.results == state.results
            &&& fed.queue == state.queue + subkey_paths(path, listing.subkeys@)
            &&& fed.errors == state.errors.union(subkey_errors(path, listing.subkeys@))
            &&& fed.waiting == state.waiting
            &&& fed.terms == state.terms
            &&& fed.threads == state.threads
            &&& read.queue == state.queue
            &&& read.results == state.results.union(
                value_results(state.terms, path, listing.values@),
            )
            &&& read.errors == state.errors.union(value_errors(path, listing.values@))
            &&& read.waiting == state.waiting
            &&& read.terms == state.terms
            &&& read.threads == state.threads
        }),
{
}

/// Counting goes on by as many as there are entries of each sort, and starts
/// again at 0 beyond the largest number; a key that could not be opened counts
/// for nothing.
pub proof fn law_every_entry_is_counted(counts: EntryCounts, listing: KeyListing)
    requires
        listing.subkeys@.len() <= usize::MAX,
        listing.values@.len() <= usize::MAX,
    ensures
        ({
            let after = counts.visited(Ok::<KeyListing, String>(listing));
            let subkeys = listing.subkeys@.len();
            let values = listing.values@.len();
            &&& counts.keys + subkeys <= usize::MAX ==> after.keys == counts.keys + subkeys
            &&& counts.keys + subkeys > usize::MAX ==> after.keys == counts.keys + subkeys - (
            usize::MAX + 1)
            &&& counts.values + values <= usize::MAX ==> after.values == counts.values + values
            &&& counts.values + values > usize::MAX ==> after.values == counts.values + values - (
            usize::MAX + 1)
            &&& counts.with_keys(subkeys).keys == after.keys
            &&& counts.with_keys(subkeys).values == counts.values
            &&& counts.with_values(values).values == after.values
            &&& counts.with_values(values).keys == counts.keys
        }),
{
}

/// A worker that asks while keys are queued gets the first of them, and the
/// others move up. One that was waiting waits no more; below 0 the count goes on
/// at the largest number.
pub proof fn law_a_worker_gets_the_first_key(state: SearchState, wake: Wake, i: int)
    requires
        state.queue.len() > 0,
        wake is Asked || wake is WorkReady,
    ensures
        ({
            let (after, step) = state.asked(wake);
            &&& step == StepState::Process(state.queue[0])
            &&& after.queue.len() == state.queue.len() - 1
            &&& 0 <= i < after.queue.len() ==> after.queue[i] == state.queue[i + 1]
            &&& wake is Asked ==> after.waiting == state.waiting
            &&& wake is WorkReady && state.waiting > 0 ==> after.waiting == state.waiting - 1
            &&& wake is WorkReady && state.waiting == 0 ==> after.waiting == usize::MAX
        }),
{
}

/// A worker that asks while no key is queued waits, and is counted among those
/// that wait, once; one that was waiting is counted already. Beyond the largest
/// number the count goes on at 0.
pub proof fn law_a_worker_without_a_key_waits(state: SearchState, wake: Wake)
    requires
        state.queue.len() == 0,
        wake is Asked || wake is WorkReady,
    ensures
        ({
            let (after, step) = state.asked(wake);
            &&& step is Wait
            &&& after.queue.len() == 0
            &&& wake is WorkReady ==> after.waiting == state.waiting
            &&& wake is Asked && state.waiting < usize::MAX ==> after.waiting == state.waiting + 1
            &&& wake is Asked && state.waiting == usize::MAX ==> after.waiting == 0
        }),
{
}

/// A worker that is told that there will be no more keys stops, whatever is
/// queued, and changes nothing.
pub proof fn law_a_worker_stops_when_told(state: SearchState)
    ensures
        state.asked(Wake::NoWorkLeft).1 is Stop,
        state.asked(Wake::NoWorkLeft).0 == state,
{
}

/// Asking for a key reports nothing and changes neither terms nor workers.
pub proof fn law_asking_reports_nothing(state: SearchState, wake: Wake)
    ensures
        state.asked(wake).0.results == state.results,
        state.asked(wake).0.errors == state.errors,
        state.asked(wake).0.terms == state.terms,
        state.asked(wake).0.threads == state.threads,
{
}

/// A worker asks for a key when it starts, when it is woken and when it is done
/// with a key; when it is told that there will be no more, it stops.
pub proof fn law_workers_ask_again_and_again(state: SearchState, key_path: String)
    ensures
        state.worker_step(WorkerEvent::Started) == state.asked(Wake::Asked),
        state.worker_step(WorkerEvent::WorkReady) == state.asked(Wake::WorkReady),
        state.worker_step(WorkerEvent::NoWorkLeft) == (state, StepState::Stop),
        state.worker_step(
            WorkerEvent::Processed { key_path, outcome: Ok::<(), String>(()) },
        ) == state.asked(Wake::Asked),
{
}

/// A worker whose key could not be opened reports that with the message, and
/// else does what it does after any key.
pub proof fn law_a_failed_key_is_reported(
    state: SearchState,
    key_path: String,
    message: String,
    line: Seq<char>,
)
    ensures
        ({
            let event = WorkerEvent::Processed { key_path, outcome: Err::<(), String>(message) };
            let (after, step) = state.worker_step(event);
            let (other, other_step) = state.asked(Wake::Asked);
            &&& after.errors.contains(line) <==> state.errors.contains(line) || line == key_path@
                + ", Key error: \""@ + message@ + "\""@
            &&& step == other_step
            &&& after.queue == other.queue
            &&& after.waiting == other.waiting
            &&& after.results == state.results
        }),
{
}

/// The supervisor ends the search whenever all workers wait and no key is
/// queued, however many workers there are, and never before.
pub proof fn law_a_complete_search_is_ended(state: SearchState)
    ensures
        state.supervision(RunEvent::Look) == RunAction::Finish <==> (state.waiting == state.threads
            && state.queue.len() == 0),
{
}

/// The supervisor wakes the workers whenever all of them wait and a key is
/// queued, and pauses whenever one of them does not wait.
pub proof fn law_waiting_workers_are_woken_for_keys(state: SearchState)
    ensures
        state.supervision(RunEvent::Look) == RunAction::WakeWorkers <==> (state.waiting
            == state.threads && state.queue.len() > 0),
        state.supervision(RunEvent::Look) == RunAction::Pause <==> state.waiting != state.threads,
{
}

/// The supervisor starts as many workers as the search was made for, and pauses
/// a tenth of a second between two looks.
pub proof fn law_the_supervisor_starts_all_workers(
    state: SearchState,
    terms: Seq<Seq<char>>,
    threads: usize,
)
    ensures
        state.supervision(RunEvent::Started) == RunAction::Spawn(state.threads),
        SearchState::initial(terms, threads).supervision(RunEvent::Started) == RunAction::Spawn(
            threads,
        ),
        SUPERVISOR_PAUSE_MILLIS * 10 == 1000,
{
}

/// A step stands for what it says, with the whole key.
pub proof fn law_steps_hold_the_whole_key(key: String)
    ensures
        WorkStep::Process(key)@ == StepState::Process(key@),
        WorkStep::Wait@ == StepState::Wait,
        WorkStep::Stop@ == StepState::Stop,
{
}

/// Looking for terms in a text finds what some of them finds alone, each by its
/// occurring in the text as it stands; and matching is looking in the lower case
/// form.
pub proof fn law_terms_are_looked_for_as_they_stand(
    first: Seq<Seq<char>>,
    term: Seq<char>,
    second: Seq<Seq<char>>,
    text: Seq<char>,
)
    ensures
        occurs_in(term, text) ==> any_term_in(first + seq![term] + second, text),
        any_term_in(seq![term], text) <==> occurs_in(term, text),
        any_term_in(first + second, text) <==> any_term_in(first, text) || any_term_in(
            second,
            text,
        ),
        !any_term_in(Seq::empty(), text),
        matches_terms(first, text) == any_term_in(first, lowercase(text)),
{
    let all = first + seq![term] + second;
    if occurs_in(term, text) {
        assert(occurs_in(all[first.len() as int], text));
        assert(occurs_in(seq![term][0], text));
    }
    let both = first + second;
    if any_term_in(both, text) {
        let i = choose|i: int| 0 <= i < both.len() && occurs_in(#[trigger] both[i], text);
        if i < first.len() {
            assert(occurs_in(first[i], text));
        } else {
            assert(occurs_in(second[i - first.len()], text));
        }
    }
    if any_term_in(first, text) {
        let i = choose|i: int| 0 <= i < first.len() && occurs_in(#[trigger] first[i], text);
        assert(occurs_in(both[i], text));
    }
    if any_term_in(second, text) {
        let i = choose|i: int| 0 <= i < second.len() && occurs_in(#[trigger] second[i], text);
        assert(occurs_in(both[first.len() + i], text));
    }
}

} // verus!
