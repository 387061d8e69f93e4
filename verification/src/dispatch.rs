//! The dispatcher's choice of a worker: round-robin for the first worker
//! that is asked, then work stealing round the pool while queues are full.

use vstd::prelude::*;

verus! {

/// `crossbeam::channel::Sender`: the sending side of a worker's queue.
#[verifier::external_type_specification]
#[verifier::external_body]
#[verifier::reject_recursive_types(T)]
pub struct ExSender<T>(crossbeam::channel::Sender<T>);

/// What a queue answers to an offer.
pub enum Offer<T> {
    /// The queue took the message.
    Accepted,
    /// The queue is full: here is the message.
    Full(T),
    /// Nothing reads from the queue any more: here is the message.
    Disconnected(T),
}

/// `Sender::try_send`: offers the message to the queue without waiting. A
/// queue that does not take the message hands it back. Whether it takes
/// it depends on the other side of the queue.
#[verifier::external_body]
fn offer<T>(sender: &crossbeam::channel::Sender<T>, message: T) -> (r: Offer<T>)
    ensures
        r matches Offer::Full(m) ==> m == message,
        r matches Offer::Disconnected(m) ==> m == message,
{
    match sender.try_send(message) {
        Ok(()) => Offer::Accepted,
        Err(crossbeam::channel::TrySendError::Full(m)) => Offer::Full(m),
        Err(crossbeam::channel::TrySendError::Disconnected(m)) => Offer::Disconnected(m),
    }
}

/// The worker that is asked `k`-th when the asking starts at `start`, in a
/// pool of `workers`.
pub open spec fn spec_candidate(start: nat, k: nat, workers: nat) -> nat
    recommends
        workers > 0,
{
    (start + k) % workers
}

/// The worker that is asked `k`-th: see [`spec_candidate`].
pub fn candidate(start: usize, k: usize, workers: usize) -> (r: usize)
    requires
        workers > 0,
        start < workers,
        k < workers,
    ensures
        r == spec_candidate(start as nat, k as nat, workers as nat),
        r < workers,
{
    if k < workers - start {
        assert((start + k) % (workers as int) == start + k) by {
            vstd::arithmetic::div_mod::lemma_small_mod((start + k) as nat, workers as nat);
        }
        start + k
    } else {
        assert((start + k) % (workers as int) == start + k - workers) by {
            vstd::arithmetic::div_mod::lemma_mod_sub_multiples_vanish(
                (start + k) as int,
                workers as int,
            );
            vstd::arithmetic::div_mod::lemma_small_mod(
                (start + k - workers) as nat,
                workers as nat,
            );
        }
        k - (workers - start)
    }
}

/// The worker at which the asking starts for the request with the given
/// number, in a pool of `workers`: the requests go round the pool.
pub fn round_robin(counter: usize, workers: usize) -> (r: usize)
    requires
        workers > 0,
    ensures
        r == counter % workers,
        r < workers,
{
    counter % workers
}

/// Every worker is asked: whatever the start, each worker of the pool is
/// the `k`-th candidate for some `k` below the size of the pool.
pub proof fn lemma_every_worker_is_asked(start: nat, worker: nat, workers: nat)
    requires
        start < workers,
        worker < workers,
    ensures
        exists|k: nat| k < workers && #[trigger] spec_candidate(start, k, workers) == worker,
{
    let k: nat = if worker >= start {
        (worker - start) as nat
    } else {
        (worker + workers - start) as nat
    };
    if worker >= start {
        vstd::arithmetic::div_mod::lemma_small_mod(worker, workers);
    } else {
        vstd::arithmetic::div_mod::lemma_mod_sub_multiples_vanish(
            (worker + workers) as int,
            workers as int,
        );
        vstd::arithmetic::div_mod::lemma_small_mod(worker, workers);
    }
    assert(spec_candidate(start, k, workers) == worker);
}

/// No worker is asked twice: two different places in the order of asking
/// are two different workers.
pub proof fn lemma_no_worker_is_asked_twice(start: nat, j: nat, k: nat, workers: nat)
    requires
        start < workers,
        j < k < workers,
    ensures
        spec_candidate(start, j, workers) != spec_candidate(start, k, workers),
{
    if start + j < workers {
        vstd::arithmetic::div_mod::lemma_small_mod(start + j, workers);
    } else {
        vstd::arithmetic::div_mod::lemma_mod_sub_multiples_vanish(
            (start + j) as int,
            workers as int,
        );
        vstd::arithmetic::div_mod::lemma_small_mod((start + j - workers) as nat, workers);
    }
    if start + k < workers {
        vstd::arithmetic::div_mod::lemma_small_mod(start + k, workers);
    } else {
        vstd::arithmetic::div_mod::lemma_mod_sub_multiples_vanish(
            (start + k) as int,
            workers as int,
        );
        vstd::arithmetic::div_mod::lemma_small_mod((start + k - workers) as nat, workers);
    }
}

/// The first place at or after `k` in the order of asking whose worker has
/// room; the size of the pool where every worker from there on is full.
pub open spec fn first_free(full: Seq<bool>, start: nat, k: nat) -> nat
    decreases full.len() - k,
{
    if k >= full.len() {
        full.len()
    } else if !full[spec_candidate(start, k, full.len()) as int] {
        k
    } else {
        first_free(full, start, k + 1)
    }
}

/// The worker that takes a request when the asking starts at `start` and
/// `full` tells which queues are full: the first worker in the order of
/// asking that has room, and none where all are full.
pub open spec fn spec_select_worker(full: Seq<bool>, start: nat) -> Option<nat> {
    let k = first_free(full, start, 0);
    if k < full.len() {
        Some(spec_candidate(start, k, full.len()))
    } else {
        None
    }
}

/// The worker that is selected is the one at which the dispatcher ends:
/// where `full` tells what the queues answer, the worker selected is the
/// one asked after as many workers as were found full before it.
pub proof fn lemma_selected_worker_is_asked(full: Seq<bool>, start: nat)
    requires
        start < full.len(),
        spec_select_worker(full, start) is Some,
    ensures
        is_asked(
            start,
            full.len(),
            first_free(full, start, 0) + 1,
            spec_select_worker(full, start)->0,
        ),
{
}

/// The worker that takes a request: see [`spec_select_worker`]. Where all
/// queues are full the request waits for the worker at which the asking
/// started.
pub fn select_worker(full: &Vec<bool>, start: usize) -> (r: Option<usize>)
    requires
        start < full.len(),
    ensures
        match r {
            Some(worker) => spec_select_worker(full@, start as nat) == Some(worker as nat)
                && worker < full.len(),
            None => spec_select_worker(full@, start as nat) is None,
        },
{
    let n = full.len();
    let mut k: usize = 0;
    while k < n
        invariant
            k <= n,
            n == full.len(),
            start < n,
            first_free(full@, start as nat, 0) == first_free(full@, start as nat, k as nat),
        decreases n - k,
    {
        let worker = candidate(start, k, n);
        if !full[worker] {
            return Some(worker);
        }
        k = k + 1;
    }
    None
}

/// How the dispatch of a message ended.
pub enum Dispatch<T> {
    /// The worker of this index took the message; it was the `asked`-th
    /// worker that was asked.
    Accepted { worker: usize, asked: usize },
    /// The queue of the worker of this index is no longer read: the message
    /// comes back. It was the `asked`-th worker that was asked.
    Disconnected { worker: usize, asked: usize, message: T },
    /// Every queue was full when it was asked: the message comes back, to
    /// be sent to the worker at which the asking started, waiting for room.
    AllFull { message: T },
}

/// What the dispatcher does after a queue has answered.
pub enum Step<T> {
    /// The dispatch ends with this outcome.
    Done(Dispatch<T>),
    /// The queue was full: this message goes to the worker that is asked
    /// next.
    Next(T),
}

/// What follows from the answer of the queue of `worker`, the `asked`-th
/// that was asked: a queue that took the message or is no longer read ends
/// the dispatch, and names the worker; a full queue hands the message on.
pub open spec fn spec_settle<T>(answer: Offer<T>, worker: usize, asked: usize) -> Step<T> {
    match answer {
        Offer::Accepted => Step::Done(Dispatch::Accepted { worker, asked }),
        Offer::Disconnected(message) => Step::Done(
            Dispatch::Disconnected { worker, asked, message },
        ),
        Offer::Full(message) => Step::Next(message),
    }
}

/// What follows from the answer of the queue of `worker`: see
/// [`spec_settle`].
pub fn settle<T>(answer: Offer<T>, worker: usize, asked: usize) -> (r: Step<T>)
    ensures
        r == spec_settle(answer, worker, asked),
{
    match answer {
        Offer::Accepted => Step::Done(Dispatch::Accepted { worker, asked }),
        Offer::Disconnected(message) => Step::Done(
            Dispatch::Disconnected { worker, asked, message },
        ),
        Offer::Full(message) => Step::Next(message),
    }
}

/// Whether `worker` is the `asked`-th worker that is asked when the asking
/// starts at `start`, in a pool of `workers`: the asking goes from `start`
/// on round the pool, so the workers asked before it are those from
/// `start` up to it, each once.
pub open spec fn is_asked(start: nat, workers: nat, asked: nat, worker: nat) -> bool {
    1 <= asked <= workers && worker == spec_candidate(start, (asked - 1) as nat, workers)
}

/// Offers the message to the workers, from `start` on round the pool,
/// until one takes it or is found to be gone: each answer is settled by
/// [`settle`], and a worker is asked only after every worker before it in
/// the order of asking was full. Whether a queue takes the message depends
/// on its worker, so the contract says what holds of every outcome: which
/// worker ended the dispatch and how many were asked, which names the
/// workers asked; where all were full, that the message comes back as it
/// was given.
pub fn dispatch<T>(senders: &Vec<crossbeam::channel::Sender<T>>, start: usize, message: T) -> (r:
    Dispatch<T>)
    requires
        start < senders.len(),
    ensures
        match r {
            Dispatch::Accepted { worker, asked } => is_asked(
                start as nat,
                senders@.len(),
                asked as nat,
                worker as nat,
            ),
            Dispatch::Disconnected { worker, asked, message: m } => is_asked(
                start as nat,
                senders@.len(),
                asked as nat,
                worker as nat,
            ) && m == message,
            Dispatch::AllFull { message: m } => m == message,
        },
{
    let n = senders.len();
    let mut held = message;
    let mut k: usize = 0;
    while k < n
        invariant
            k <= n,
            n == senders.len(),
            start < n,
            held == message,
        decreases n - k,
    {
        let worker = candidate(start, k, n);
        match settle(offer(&senders[worker], held), worker, k + 1) {
            Step::Done(outcome) => {
                return outcome;
            },
            Step::Next(m) => {
                held = m;
            },
        }
        k = k + 1;
    }
    Dispatch::AllFull { message: held }
}

} // verus!
