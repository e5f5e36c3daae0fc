//! A pool of workers that searches a registry together, and what its search
//! comes to.
//!
//! The pool is a model: it moves by the steps of `SearchState`, one worker at a
//! time and in any order, and is what the workers and their supervisor do
//! between them.

use crate::search::{
    error_line, key_failure, key_line, lemma_paths_of_subkeys, matches_terms,
    reports_subkey_error, reports_value, reports_value_error, subkey_path, subkey_paths,
    KeyListing, RunAction, RunEvent, SearchState, StepState, WorkerEvent,
};
use vstd::multiset::Multiset;
use vstd::prelude::*;
use vstd::seq_lib::lemma_multiset_commutative;

verus! {

/// What reading each key gives: what it holds, or the message with which it
/// could not be opened.
pub type Registry = spec_fn(Seq<char>) -> Result<KeyListing, String>;

/// What a worker is at.
pub enum Worker {
    /// It has not begun.
    Fresh,
    /// It reads this key.
    Busy(Seq<char>),
    /// It has read this key and handed over what the key holds.
    Visited(Seq<char>),
    /// It waits for a key.
    Waiting,
    /// It was told that there will be no more keys.
    Stopped,
}

impl Worker {
    /// Whether the worker counts among those that wait.
    pub open spec fn is_parked(self) -> bool {
        self is Waiting || self is Stopped
    }

    /// The key that the worker reads, if it reads one.
    pub open spec fn key_being_read(self) -> Multiset<Seq<char>> {
        match self {
            Worker::Busy(key) => Multiset::singleton(key),
            _ => Multiset::empty(),
        }
    }
}

/// Workers at a search.
pub struct Pool {
    pub state: SearchState,
    pub workers: Seq<Worker>,
    /// The keys that were read, each as often as it was, the last one last.
    pub visits: Seq<Seq<char>>,
}

/// How many of the workers count among those that wait.
pub open spec fn parked_count(workers: Seq<Worker>) -> nat
    decreases workers.len(),
{
    if workers.len() == 0 {
        0
    } else {
        parked_count(workers.drop_last()) + if workers.last().is_parked() {
            1nat
        } else {
            0nat
        }
    }
}

/// The keys that are being read, each as often as it is.
pub open spec fn busy_keys(workers: Seq<Worker>) -> Multiset<Seq<char>>
    decreases workers.len(),
{
    if workers.len() == 0 {
        Multiset::empty()
    } else {
        busy_keys(workers.drop_last()).add(workers.last().key_being_read())
    }
}

/// The paths of the subkeys that reading `key` gives.
pub open spec fn listed_by(registry: Registry, key: Seq<char>) -> Seq<Seq<char>> {
    match registry(key) {
        Ok(listing) => subkey_paths(key, listing.subkeys@),
        Err(_) => Seq::empty(),
    }
}

/// The paths of the subkeys that all of `visits` give, each as often as it is
/// given.
pub open spec fn listed_by_all(registry: Registry, visits: Seq<Seq<char>>) -> Multiset<Seq<char>>
    decreases visits.len(),
{
    if visits.len() == 0 {
        Multiset::empty()
    } else {
        listed_by_all(registry, visits.drop_last()).add(
            listed_by(registry, visits.last()).to_multiset(),
        )
    }
}

/// Whether `name` is a subkey that `listing` gives.
pub open spec fn lists_subkey(listing: KeyListing, name: Seq<char>) -> bool {
    exists|j: int|
        0 <= j < listing.subkeys@.len() && (#[trigger] listing.subkeys@[j] matches Ok(n)
            && n@ == name)
}

/// Whether `child` is a subkey of `parent` in `registry`.
pub open spec fn is_subkey(registry: Registry, parent: Seq<char>, child: Seq<char>) -> bool {
    registry(parent) matches Ok(listing) && exists|name: Seq<char>|
        #[trigger] lists_subkey(listing, name) && child == subkey_path(parent, name)
}

/// Whether `key` is one of `start`, or `depth` subkeys below one of them.
pub open spec fn reachable_in(
    registry: Registry,
    start: Seq<Seq<char>>,
    key: Seq<char>,
    depth: nat,
) -> bool
    decreases depth,
{
    if depth == 0 {
        start.contains(key)
    } else {
        exists|parent: Seq<char>|
            reachable_in(registry, start, parent, (depth - 1) as nat) && #[trigger] is_subkey(
                registry,
                parent,
                key,
            )
    }
}

/// Whether `key` is one of `start` or somewhere below one of them.
pub open spec fn reachable(registry: Registry, start: Seq<Seq<char>>, key: Seq<char>) -> bool {
    exists|depth: nat| reachable_in(registry, start, key, depth)
}

/// Whether `line` reports a match on the key at `path` or on a value of it.
pub open spec fn reports_result(
    terms: Seq<Seq<char>>,
    path: Seq<char>,
    opened: Result<KeyListing, String>,
    line: Seq<char>,
) -> bool {
    ||| matches_terms(terms, path) && line == key_line(path)
    ||| opened matches Ok(listing) && exists|j: int|
        0 <= j < listing.values@.len() && reports_value(
            terms,
            path,
            #[trigger] listing.values@[j],
            line,
        )
}

/// Whether `line` reports that an entry of a key could not be read.
pub open spec fn reports_entry_error(
    path: Seq<char>,
    listing: KeyListing,
    line: Seq<char>,
) -> bool {
    ||| exists|j: int|
        0 <= j < listing.subkeys@.len() && reports_subkey_error(
            path,
            #[trigger] listing.subkeys@[j],
            line,
        )
    ||| exists|j: int|
        0 <= j < listing.values@.len() && reports_value_error(
            path,
            #[trigger] listing.values@[j],
            line,
        )
}

/// Whether `line` reports that the key at `path`, or an entry of it, could not
/// be read.
pub open spec fn reports_error(
    path: Seq<char>,
    opened: Result<KeyListing, String>,
    line: Seq<char>,
) -> bool {
    match opened {
        Ok(listing) => reports_entry_error(path, listing, line),
        Err(message) => line == error_line(path, key_failure(), message@),
    }
}

impl Pool {
    /// Fresh workers, and `start` as the keys to begin with.
    pub open spec fn initial(
        terms: Seq<Seq<char>>,
        threads: usize,
        start: Seq<Seq<char>>,
    ) -> Pool {
        Pool {
            state: SearchState::initial(terms, threads).fed(start),
            workers: Seq::new(threads as nat, |i: int| Worker::Fresh),
            visits: Seq::empty(),
        }
    }

    /// Whether `event` can happen to worker `i`.
    pub open spec fn can_happen(self, registry: Registry, i: int, event: WorkerEvent) -> bool {
        &&& 0 <= i < self.workers.len()
        &&& match event {
            WorkerEvent::Started => self.workers[i] is Fresh,
            WorkerEvent::WorkReady => self.workers[i] is Waiting,
            WorkerEvent::NoWorkLeft => self.workers[i] is Waiting,
            WorkerEvent::Processed { key_path, outcome } => {
                &&& self.workers[i] == Worker::Visited(key_path@)
                &&& match registry(key_path@) {
                    Ok(_) => outcome is Ok,
                    Err(message) => outcome matches Err(m) && m@ == message@,
                }
            },
        }
    }

    /// `event` happens to worker `i`.
    pub open spec fn after_event(self, i: int, event: WorkerEvent) -> Pool {
        let (state, step) = self.state.worker_step(event);
        let worker = match step {
            StepState::Process(key) => Worker::Busy(key),
            StepState::Wait => Worker::Waiting,
            StepState::Stop => Worker::Stopped,
        };
        Pool { state, workers: self.workers.update(i, worker), ..self }
    }

    /// Worker `i`, which reads `key`, hands over what the key holds.
    pub open spec fn after_visit(self, registry: Registry, i: int, key: Seq<char>) -> Pool {
        Pool {
            state: self.state.visited(key, registry(key)),
            workers: self.workers.update(i, Worker::Visited(key)),
            visits: self.visits.push(key),
        }
    }

    /// The keys that were read.
    pub open spec fn done(self) -> Set<Seq<char>> {
        self.visits.to_set()
    }

    /// Whether `key` was read, is queued, or is being read.
    pub open spec fn knows(self, key: Seq<char>) -> bool {
        ||| self.done().contains(key)
        ||| self.state.queue.contains(key)
        ||| self.workers.contains(Worker::Busy(key))
    }

    /// As many workers are counted as waiting as do wait.
    pub open spec fn counts_right(self) -> bool {
        &&& self.workers.len() == self.state.threads
        &&& self.state.waiting == parked_count(self.workers)
    }

    /// No key gets lost, and none is made up: all keys to begin with and all
    /// subkeys of a key that was read are known, and what is known is one of
    /// those or below one of them.
    pub open spec fn loses_no_key(self, registry: Registry, start: Seq<Seq<char>>) -> bool {
        &&& forall|key: Seq<char>| start.contains(key) ==> #[trigger] self.knows(key)
        &&& forall|parent: Seq<char>, child: Seq<char>|
            self.done().contains(parent) && is_subkey(registry, parent, child) ==> self.knows(child)
        &&& forall|key: Seq<char>| #[trigger] self.knows(key) ==> reachable(registry, start, key)
        &&& forall|key: Seq<char>| #[trigger]
            self.workers.contains(Worker::Visited(key)) ==> self.done().contains(key)
    }

    /// Each key is read once for each time that it was queued: the keys that
    /// were read, are being read and are queued are together those to begin
    /// with and the subkeys that the visits gave.
    pub open spec fn reads_each_once(self, registry: Registry, start: Seq<Seq<char>>) -> bool {
        self.visits.to_multiset().add(busy_keys(self.workers)).add(self.state.queue.to_multiset())
            == start.to_multiset().add(listed_by_all(registry, self.visits))
    }

    /// What is reported is what the keys give that were read.
    pub open spec fn reports_right(self, registry: Registry) -> bool {
        &&& forall|line: Seq<char>| #[trigger]
            self.state.results.contains(line) ==> exists|key: Seq<char>| #[trigger]
                self.done().contains(key) && reports_result(
                    self.state.terms,
                    key,
                    registry(key),
                    line,
                )
        &&& forall|key: Seq<char>, line: Seq<char>| #[trigger]
            self.done().contains(key) && #[trigger] reports_result(
                self.state.terms,
                key,
                registry(key),
                line,
            ) ==> self.state.results.contains(line)
    }

    /// What is reported as failed is what failed on the keys that were read,
    /// but for a key that could not be opened and whose worker has yet to say so.
    pub open spec fn fails_right(self, registry: Registry) -> bool {
        &&& forall|line: Seq<char>| #[trigger]
            self.state.errors.contains(line) ==> exists|key: Seq<char>| #[trigger]
                self.done().contains(key) && reports_error(key, registry(key), line)
        &&& forall|key: Seq<char>, line: Seq<char>| #[trigger]
            self.done().contains(key) && #[trigger] reports_error(key, registry(key), line)
                ==> self.state.errors.contains(line) || (registry(key) is Err
                && self.workers.contains(Worker::Visited(key)))
    }

    /// What holds of a pool at all times.
    pub open spec fn valid(self, registry: Registry, start: Seq<Seq<char>>) -> bool {
        &&& self.counts_right()
        &&& self.loses_no_key(registry, start)
        &&& self.reads_each_once(registry, start)
        &&& self.reports_right(registry)
        &&& self.fails_right(registry)
    }
}

proof fn lemma_parked_count_bounds(workers: Seq<Worker>)
    ensures
        parked_count(workers) <= workers.len(),
        parked_count(workers) == workers.len() ==> forall|i: int|
            0 <= i < workers.len() ==> (#[trigger] workers[i]).is_parked(),
    decreases workers.len(),
{
    if workers.len() > 0 {
        lemma_parked_count_bounds(workers.drop_last());
        assert forall|i: int|
            0 <= i < workers.len() && parked_count(workers) == workers.len() implies (
        #[trigger] workers[i]).is_parked() by {
            if i < workers.len() - 1 {
                assert(workers.drop_last()[i] == workers[i]);
            }
        }
    }
}

proof fn lemma_parked_count_update(workers: Seq<Worker>, i: int, worker: Worker)
    requires
        0 <= i < workers.len(),
    ensures
        parked_count(workers.update(i, worker)) + (if workers[i].is_parked() {
            1nat
        } else {
            0nat
        }) == parked_count(workers) + (if worker.is_parked() {
            1nat
        } else {
            0nat
        }),
    decreases workers.len(),
{
    let updated = workers.update(i, worker);
    if i == workers.len() - 1 {
        assert(updated.drop_last() =~= workers.drop_last());
    } else {
        assert(updated.drop_last() =~= workers.drop_last().update(i, worker));
        lemma_parked_count_update(workers.drop_last(), i, worker);
    }
}

proof fn lemma_busy_keys_update(workers: Seq<Worker>, i: int, worker: Worker)
    requires
        0 <= i < workers.len(),
    ensures
        busy_keys(workers.update(i, worker)).add(workers[i].key_being_read()) == busy_keys(
            workers,
        ).add(worker.key_being_read()),
    decreases workers.len(),
{
    let updated = workers.update(i, worker);
    let rest = workers.drop_last();
    let left = busy_keys(updated).add(workers[i].key_being_read());
    let right = busy_keys(workers).add(worker.key_being_read());
    if i == workers.len() - 1 {
        assert(updated.drop_last() =~= rest);
        assert(left =~= right);
    } else {
        assert(updated.drop_last() =~= rest.update(i, worker));
        assert(updated.last() == workers.last());
        lemma_busy_keys_update(rest, i, worker);
        let rest_left = busy_keys(rest.update(i, worker)).add(workers[i].key_being_read());
        let rest_right = busy_keys(rest).add(worker.key_being_read());
        assert(left =~= rest_left.add(workers.last().key_being_read()));
        assert(right =~= rest_right.add(workers.last().key_being_read()));
    }
}

proof fn lemma_parked_workers_read_no_key(workers: Seq<Worker>)
    requires
        forall|i: int| 0 <= i < workers.len() ==> (#[trigger] workers[i]).is_parked(),
    ensures
        busy_keys(workers) == Multiset::<Seq<char>>::empty(),
    decreases workers.len(),
{
    if workers.len() > 0 {
        assert(workers[workers.len() - 1].is_parked());
        lemma_parked_workers_read_no_key(workers.drop_last());
        assert(busy_keys(workers) =~= Multiset::<Seq<char>>::empty());
    }
}

proof fn lemma_fresh_workers_do_nothing(threads: nat)
    ensures
        parked_count(Seq::new(threads, |i: int| Worker::Fresh)) == 0,
        busy_keys(Seq::new(threads, |i: int| Worker::Fresh)) == Multiset::<Seq<char>>::empty(),
    decreases threads,
{
    if threads > 0 {
        lemma_fresh_workers_do_nothing((threads - 1) as nat);
        assert(Seq::new(threads, |i: int| Worker::Fresh).drop_last() =~= Seq::new(
            (threads - 1) as nat,
            |i: int| Worker::Fresh,
        ));
        assert(busy_keys(Seq::new(threads, |i: int| Worker::Fresh)) =~= Multiset::<
            Seq<char>,
        >::empty());
    }
}

proof fn lemma_first_of_a_queue(queue: Seq<Seq<char>>)
    requires
        queue.len() > 0,
    ensures
        queue.to_multiset() == queue.drop_first().to_multiset().insert(queue[0]),
{
    let first = Seq::<Seq<char>>::empty().push(queue[0]);
    Seq::<Seq<char>>::empty().to_multiset_ensures();
    lemma_multiset_commutative(first, queue.drop_first());
    assert(first + queue.drop_first() =~= queue);
    assert(queue.to_multiset() =~= queue.drop_first().to_multiset().insert(queue[0]));
}

/// What a visit adds to a search.
proof fn lemma_visit(state: SearchState, registry: Registry, key: Seq<char>)
    ensures
        ({
            let after = state.visited(key, registry(key));
            &&& after.threads == state.threads
            &&& after.terms == state.terms
            &&& after.waiting == state.waiting
            &&& forall|k: Seq<char>| #[trigger]
                after.queue.contains(k) <==> state.queue.contains(k) || is_subkey(registry, key, k)
            &&& forall|line: Seq<char>| #[trigger]
                after.results.contains(line) <==> state.results.contains(line) || reports_result(
                    state.terms,
                    key,
                    registry(key),
                    line,
                )
            &&& forall|line: Seq<char>| #[trigger]
                after.errors.contains(line) <==> state.errors.contains(line) || (registry(
                    key,
                ) is Ok && reports_error(key, registry(key), line))
        }),
{
    let after = state.visited(key, registry(key));
    assert forall|k: Seq<char>| #[trigger]
        after.queue.contains(k) <==> state.queue.contains(k) || is_subkey(registry, key, k) by {
        if let Ok(listing) = registry(key) {
            let added = subkey_paths(key, listing.subkeys@);
            lemma_paths_of_subkeys(key, listing.subkeys@, k);
            if is_subkey(registry, key, k) {
                let name = choose|name: Seq<char>| #[trigger]
                    lists_subkey(listing, name) && k == subkey_path(key, name);
                let j = choose|j: int|
                    0 <= j < listing.subkeys@.len() && (#[trigger] listing.subkeys@[j] matches Ok(n)
                        && n@ == name);
                assert(listing.subkeys@[j] is Ok);
                assert(added.contains(k));
                assert(after.queue[state.queue.len() + added.index_of(k)] == k);
            }
            if state.queue.contains(k) {
                assert(after.queue[state.queue.index_of(k)] == k);
            }
            if after.queue.contains(k) && !state.queue.contains(k) {
                let p = after.queue.index_of(k);
                if p < state.queue.len() {
                    assert(state.queue[p] == k);
                }
                assert(added[p - state.queue.len()] == k);
                let j = choose|j: int|
                    0 <= j < listing.subkeys@.len() && (#[trigger] listing.subkeys@[j] matches Ok(n)
                        && k == subkey_path(key, n@));
                assert(lists_subkey(listing, listing.subkeys@[j]->Ok_0@));
            }
        }
    }
}

/// A pool is valid when it starts.
pub proof fn law_pool_starts_valid(
    registry: Registry,
    terms: Seq<Seq<char>>,
    threads: usize,
    start: Seq<Seq<char>>,
)
    ensures
        Pool::initial(terms, threads, start).valid(registry, start),
{
    let pool = Pool::initial(terms, threads, start);
    lemma_fresh_workers_do_nothing(threads as nat);
    assert(pool.state.queue =~= start);
    Seq::<Seq<char>>::empty().to_multiset_ensures();
    assert(pool.visits.to_multiset().add(busy_keys(pool.workers)).add(
        pool.state.queue.to_multiset(),
    ) =~= start.to_multiset().add(listed_by_all(registry, pool.visits)));
    assert forall|key: Seq<char>| #[trigger] pool.knows(key) implies reachable(
        registry,
        start,
        key,
    ) by {
        assert(reachable_in(registry, start, key, 0));
    }
}

/// Whatever happens to a worker, a valid pool stays valid.
pub proof fn law_events_keep_the_pool_valid(
    pool: Pool,
    registry: Registry,
    start: Seq<Seq<char>>,
    i: int,
    event: WorkerEvent,
)
    requires
        pool.valid(registry, start),
        pool.can_happen(registry, i, event),
    ensures
        pool.after_event(i, event).valid(registry, start),
{
    let after = pool.after_event(i, event);
    let queue = pool.state.queue;
    assert(after.done() == pool.done());
    assert(after.state.terms == pool.state.terms);
    assert(after.state.results == pool.state.results);
    lemma_parked_count_bounds(pool.workers);
    lemma_parked_count_bounds(after.workers);
    lemma_parked_count_update(pool.workers, i, after.workers[i]);
    lemma_busy_keys_update(pool.workers, i, after.workers[i]);
    if after.state.queue != queue {
        lemma_first_of_a_queue(queue);
    }
    let taken = after.workers[i].key_being_read();
    assert(busy_keys(after.workers) =~= busy_keys(after.workers).add(
        pool.workers[i].key_being_read(),
    ));
    assert(queue.to_multiset() =~= after.state.queue.to_multiset().add(taken));
    assert(after.visits.to_multiset().add(busy_keys(pool.workers).add(taken)).add(
        after.state.queue.to_multiset(),
    ) =~= pool.visits.to_multiset().add(busy_keys(pool.workers)).add(queue.to_multiset()));
    assert(after.reads_each_once(registry, start));
    assert(after.counts_right());

    assert forall|key: Seq<char>| pool.knows(key) <==> #[trigger] after.knows(key) by {
        if pool.workers.contains(Worker::Busy(key)) {
            let j = pool.workers.index_of(Worker::Busy(key));
            assert(after.workers[j] == pool.workers[j]);
        }
        if queue.contains(key) {
            let j = queue.index_of(key);
            if after.state.queue != queue {
                if j == 0 {
                    assert(after.workers[i] == Worker::Busy(key));
                } else {
                    assert(after.state.queue[j - 1] == key);
                }
            }
        }
        if after.workers.contains(Worker::Busy(key)) {
            let j = after.workers.index_of(Worker::Busy(key));
            if j == i {
                assert(queue[0] == key);
            } else {
                assert(pool.workers[j] == after.workers[j]);
            }
        }
        if after.state.queue.contains(key) {
            let j = after.state.queue.index_of(key);
            if after.state.queue != queue {
                assert(queue[j + 1] == key);
            }
        }
    }
    assert forall|key: Seq<char>| #[trigger]
        after.workers.contains(Worker::Visited(key)) implies after.done().contains(key) by {
        let j = after.workers.index_of(Worker::Visited(key));
        assert(pool.workers[j] == Worker::Visited(key));
        assert(pool.workers.contains(Worker::Visited(key)));
    }
    assert(after.loses_no_key(registry, start));
    assert(after.reports_right(registry));

    assert forall|line: Seq<char>| #[trigger]
        after.state.errors.contains(line) implies exists|key: Seq<char>| #[trigger]
        after.done().contains(key) && reports_error(key, registry(key), line) by {
        if !pool.state.errors.contains(line) {
            let key = event->Processed_key_path@;
            assert(pool.workers.contains(Worker::Visited(key)));
            assert(after.done().contains(key));
            assert(reports_error(key, registry(key), line));
        }
    }
    assert forall|key: Seq<char>, line: Seq<char>| #[trigger]
        after.done().contains(key) && #[trigger] reports_error(
            key,
            registry(key),
            line,
        ) implies after.state.errors.contains(line) || (registry(key) is Err
        && after.workers.contains(Worker::Visited(key))) by {
        assert(pool.done().contains(key));
        if !pool.state.errors.contains(line) {
            let j = pool.workers.index_of(Worker::Visited(key));
            if j != i {
                assert(after.workers[j] == Worker::Visited(key));
            }
        }
    }
}

proof fn lemma_visit_keeps_the_account(
    pool: Pool,
    after: Pool,
    registry: Registry,
    start: Seq<Seq<char>>,
    key: Seq<char>,
)
    requires
        pool.reads_each_once(registry, start),
        after.visits == pool.visits.push(key),
        after.visits.to_multiset() == pool.visits.to_multiset().insert(key),
        busy_keys(after.workers).insert(key) == busy_keys(pool.workers),
        after.state.queue.to_multiset() == pool.state.queue.to_multiset().add(
            listed_by(registry, key).to_multiset(),
        ),
    ensures
        after.reads_each_once(registry, start),
{
    let listed = listed_by(registry, key).to_multiset();
    assert(after.visits.drop_last() =~= pool.visits);
    assert(listed_by_all(registry, after.visits) == listed_by_all(registry, pool.visits).add(
        listed,
    ));
    let before = pool.visits.to_multiset().add(busy_keys(pool.workers)).add(
        pool.state.queue.to_multiset(),
    );
    assert(after.visits.to_multiset().add(busy_keys(after.workers)).add(
        after.state.queue.to_multiset(),
    ) =~= before.add(listed));
    assert(before.add(listed) =~= start.to_multiset().add(
        listed_by_all(registry, after.visits),
    ));
}

/// When a worker hands over what its key holds, a valid pool stays valid.
pub proof fn law_visits_keep_the_pool_valid(
    pool: Pool,
    registry: Registry,
    start: Seq<Seq<char>>,
    i: int,
    key: Seq<char>,
)
    requires
        pool.valid(registry, start),
        0 <= i < pool.workers.len(),
        pool.workers[i] == Worker::Busy(key),
    ensures
        pool.after_visit(registry, i, key).valid(registry, start),
{
    let after = pool.after_visit(registry, i, key);
    lemma_visit(pool.state, registry, key);
    lemma_parked_count_update(pool.workers, i, Worker::Visited(key));
    assert(after.counts_right());
    assert(after.visits.drop_last() =~= pool.visits);
    assert(after.done() =~= pool.done().insert(key)) by {
        assert(after.visits[pool.visits.len() as int] == key);
        assert forall|k: Seq<char>| pool.visits.contains(k) implies after.visits.contains(k) by {
            assert(after.visits[pool.visits.index_of(k)] == k);
        }
    }
    lemma_busy_keys_update(pool.workers, i, Worker::Visited(key));
    assert(busy_keys(after.workers).insert(key) =~= busy_keys(pool.workers));
    pool.visits.to_multiset_ensures();
    lemma_multiset_commutative(pool.state.queue, listed_by(registry, key));
    assert(after.state.queue =~= pool.state.queue + listed_by(registry, key));
    lemma_visit_keeps_the_account(pool, after, registry, start, key);
    assert(after.workers[i] == Worker::Visited(key));
    assert(pool.workers.contains(Worker::Busy(key)));
    assert(pool.knows(key));

    assert forall|k: Seq<char>| pool.knows(k) implies #[trigger] after.knows(k) by {
        if pool.workers.contains(Worker::Busy(k)) && k != key {
            let j = pool.workers.index_of(Worker::Busy(k));
            assert(after.workers[j] == Worker::Busy(k));
        }
    }
    assert forall|k: Seq<char>| #[trigger] after.knows(k) implies reachable(
        registry,
        start,
        k,
    ) by {
        if !pool.knows(k) {
            if after.workers.contains(Worker::Busy(k)) {
                let j = after.workers.index_of(Worker::Busy(k));
                assert(pool.workers[j] == Worker::Busy(k));
                assert(pool.workers.contains(Worker::Busy(k)));
            }
            assert(is_subkey(registry, key, k));
            let depth = choose|depth: nat| reachable_in(registry, start, key, depth);
            assert(reachable_in(registry, start, k, depth + 1));
        }
    }
    assert forall|parent: Seq<char>, child: Seq<char>|
        after.done().contains(parent) && is_subkey(registry, parent, child) implies after.knows(
        child,
    ) by {
        if parent == key {
            assert(after.state.queue.contains(child));
        } else {
            assert(pool.done().contains(parent));
            assert(pool.knows(child));
        }
    }
    assert forall|k: Seq<char>| #[trigger]
        after.workers.contains(Worker::Visited(k)) implies after.done().contains(k) by {
        let j = after.workers.index_of(Worker::Visited(k));
        if j != i {
            assert(pool.workers[j] == Worker::Visited(k));
            assert(pool.workers.contains(Worker::Visited(k)));
        }
    }
    assert(after.loses_no_key(registry, start));

    assert forall|line: Seq<char>| #[trigger]
        after.state.results.contains(line) implies exists|k: Seq<char>| #[trigger]
        after.done().contains(k) && reports_result(after.state.terms, k, registry(k), line) by {
        if pool.state.results.contains(line) {
            let k = choose|k: Seq<char>| #[trigger]
                pool.done().contains(k) && reports_result(pool.state.terms, k, registry(k), line);
            assert(after.done().contains(k));
        } else {
            assert(after.done().contains(key));
        }
    }
    assert forall|k: Seq<char>, line: Seq<char>| #[trigger]
        after.done().contains(k) && #[trigger] reports_result(
            after.state.terms,
            k,
            registry(k),
            line,
        ) implies after.state.results.contains(line) by {
        if k != key {
            assert(pool.done().contains(k));
            assert(pool.state.results.contains(line));
        }
    }
    assert(after.reports_right(registry));

    assert forall|line: Seq<char>| #[trigger]
        after.state.errors.contains(line) implies exists|k: Seq<char>| #[trigger]
        after.done().contains(k) && reports_error(k, registry(k), line) by {
        if pool.state.errors.contains(line) {
            let k = choose|k: Seq<char>| #[trigger]
                pool.done().contains(k) && reports_error(k, registry(k), line);
            assert(after.done().contains(k));
        } else {
            assert(after.done().contains(key));
        }
    }
    assert forall|k: Seq<char>, line: Seq<char>| #[trigger]
        after.done().contains(k) && #[trigger] reports_error(
            k,
            registry(k),
            line,
        ) implies after.state.errors.contains(line) || (registry(k) is Err
        && after.workers.contains(Worker::Visited(k))) by {
        if k == key {
            assert(after.workers.contains(Worker::Visited(k)));
        } else {
            assert(pool.done().contains(k));
            if !pool.state.errors.contains(line) {
                let j = pool.workers.index_of(Worker::Visited(k));
                assert(after.workers[j] == Worker::Visited(k));
            }
        }
    }
}

proof fn lemma_closed_set_holds_the_reachable(
    done: Set<Seq<char>>,
    registry: Registry,
    start: Seq<Seq<char>>,
    key: Seq<char>,
    depth: nat,
)
    requires
        forall|k: Seq<char>| start.contains(k) ==> #[trigger] done.contains(k),
        forall|parent: Seq<char>, child: Seq<char>|
            done.contains(parent) && is_subkey(registry, parent, child) ==> done.contains(child),
        reachable_in(registry, start, key, depth),
    ensures
        done.contains(key),
    decreases depth,
{
    if depth > 0 {
        let parent = choose|parent: Seq<char>|
            reachable_in(registry, start, parent, (depth - 1) as nat) && #[trigger] is_subkey(
                registry,
                parent,
                key,
            );
        lemma_closed_set_holds_the_reachable(done, registry, start, parent, (depth - 1) as nat);
    }
}

/// The supervisor ends the search only when it is complete: no worker is at
/// work, the keys that were read are those to begin with and all below them,
/// each was read once for each time that it was given, what is reported is
/// exactly what matches on them, and what is reported as failed is exactly what
/// failed on them.
pub proof fn law_the_search_ends_complete(pool: Pool, registry: Registry, start: Seq<Seq<char>>)
    requires
        pool.valid(registry, start),
        pool.state.supervision(RunEvent::Look) == RunAction::Finish,
    ensures
        forall|i: int| 0 <= i < pool.workers.len() ==> (#[trigger] pool.workers[i]).is_parked(),
        forall|key: Seq<char>| #[trigger]
            pool.done().contains(key) <==> reachable(registry, start, key),
        pool.visits.to_multiset() == start.to_multiset().add(
            listed_by_all(registry, pool.visits),
        ),
        forall|line: Seq<char>| #[trigger]
            pool.state.results.contains(line) <==> exists|key: Seq<char>| #[trigger]
                reachable(registry, start, key) && reports_result(
                    pool.state.terms,
                    key,
                    registry(key),
                    line,
                ),
        forall|line: Seq<char>| #[trigger]
            pool.state.errors.contains(line) <==> exists|key: Seq<char>| #[trigger]
                reachable(registry, start, key) && reports_error(key, registry(key), line),
{
    lemma_parked_count_bounds(pool.workers);
    lemma_parked_workers_read_no_key(pool.workers);
    pool.state.queue.to_multiset_ensures();
    assert(pool.state.queue =~= Seq::<Seq<char>>::empty());
    assert(pool.visits.to_multiset().add(busy_keys(pool.workers)).add(
        pool.state.queue.to_multiset(),
    ) =~= pool.visits.to_multiset());
    assert forall|key: Seq<char>| #[trigger] pool.knows(key) implies pool.done().contains(key) by {
        if pool.workers.contains(Worker::Busy(key)) {
            let j = pool.workers.index_of(Worker::Busy(key));
            assert(pool.workers[j].is_parked());
        }
    }
    assert forall|key: Seq<char>| #[trigger]
        pool.done().contains(key) <==> reachable(registry, start, key) by {
        if pool.done().contains(key) {
            assert(pool.knows(key));
        }
        if reachable(registry, start, key) {
            assert forall|parent: Seq<char>, child: Seq<char>|
                pool.done().contains(parent) && is_subkey(
                    registry,
                    parent,
                    child,
                ) implies pool.done().contains(child) by {
                assert(pool.knows(child));
            }
            assert forall|k: Seq<char>| start.contains(k) implies #[trigger]
            pool.done().contains(k) by {
                assert(pool.knows(k));
            }
            let depth = choose|depth: nat| reachable_in(registry, start, key, depth);
            lemma_closed_set_holds_the_reachable(pool.done(), registry, start, key, depth);
        }
    }
    assert forall|key: Seq<char>| !pool.workers.contains(Worker::Visited(key)) by {
        if pool.workers.contains(Worker::Visited(key)) {
            let j = pool.workers.index_of(Worker::Visited(key));
            assert(pool.workers[j].is_parked());
        }
    }
    assert forall|line: Seq<char>| #[trigger]
        pool.state.results.contains(line) <==> exists|key: Seq<char>| #[trigger]
            reachable(registry, start, key) && reports_result(
                pool.state.terms,
                key,
                registry(key),
                line,
            ) by {
        if pool.state.results.contains(line) {
            let key = choose|key: Seq<char>| #[trigger]
                pool.done().contains(key) && reports_result(
                    pool.state.terms,
                    key,
                    registry(key),
                    line,
                );
            assert(reachable(registry, start, key));
        }
        if exists|key: Seq<char>| #[trigger]
            reachable(registry, start, key) && reports_result(
                pool.state.terms,
                key,
                registry(key),
                line,
            ) {
            let key = choose|key: Seq<char>| #[trigger]
                reachable(registry, start, key) && reports_result(
                    pool.state.terms,
                    key,
                    registry(key),
                    line,
                );
            assert(pool.done().contains(key));
        }
    }
    assert forall|line: Seq<char>| #[trigger]
        pool.state.errors.contains(line) <==> exists|key: Seq<char>| #[trigger]
            reachable(registry, start, key) && reports_error(key, registry(key), line) by {
        if pool.state.errors.contains(line) {
            let key = choose|key: Seq<char>| #[trigger]
                pool.done().contains(key) && reports_error(key, registry(key), line);
            assert(reachable(registry, start, key));
        }
        if exists|key: Seq<char>| #[trigger]
            reachable(registry, start, key) && reports_error(key, registry(key), line) {
            let key = choose|key: Seq<char>| #[trigger]
                reachable(registry, start, key) && reports_error(key, registry(key), line);
            assert(pool.done().contains(key));
        }
    }
}

proof fn lemma_all_parked_are_counted(workers: Seq<Worker>)
    requires
        forall|i: int| 0 <= i < workers.len() ==> (#[trigger] workers[i]).is_parked(),
    ensures
        parked_count(workers) == workers.len(),
    decreases workers.len(),
{
    if workers.len() > 0 {
        assert(workers[workers.len() - 1].is_parked());
        lemma_all_parked_are_counted(workers.drop_last());
    }
}

/// A search of any number of workers that all wait is ended by the next look of
/// the supervisor, unless a key is queued: then the workers are woken, and the
/// first of them gets that key.
pub proof fn law_a_pool_that_waits_is_ended_or_woken(
    pool: Pool,
    registry: Registry,
    start: Seq<Seq<char>>,
    i: int,
)
    requires
        pool.valid(registry, start),
        forall|j: int| 0 <= j < pool.workers.len() ==> (#[trigger] pool.workers[j]) is Waiting,
        0 <= i < pool.workers.len(),
    ensures
        pool.state.queue.len() == 0 ==> pool.state.supervision(RunEvent::Look)
            == RunAction::Finish,
        pool.state.queue.len() > 0 ==> {
            &&& pool.state.supervision(RunEvent::Look) == RunAction::WakeWorkers
            &&& pool.after_event(i, WorkerEvent::WorkReady).workers[i] == Worker::Busy(
                pool.state.queue[0],
            )
        },
{
    lemma_all_parked_are_counted(pool.workers);
}

} // verus!
