//! The decisions of the worker pool. Each worker claims catalog indices from a
//! shared fetch-and-add cursor, decodes the image at each index and hands the
//! result to the consumer through a bounded queue. The threads, the cursor and
//! the queue belong to the caller; what a worker does next is decided here.

use vstd::prelude::*;
use vstd::set_lib::{lemma_int_range, lemma_len_subset, set_int_range};

verus! {

/// How many decoded images the queue holds before a worker has to wait.
pub const QUEUE_CAPACITY: usize = 7;

/// The number of workers for a machine with `available` hardware threads
/// (`None` where that is unknown): one thread is left for the consumer, and
/// there is always at least one worker.
pub fn worker_count(available: Option<usize>) -> (r: usize)
    ensures
        r == match available {
            Some(n) => if n >= 2 { (n - 1) as usize } else { 1 },
            None => 1,
        },
        r >= 1,
{
    match available {
        Some(n) => if n >= 2 { n - 1 } else { 1 },
        None => 1,
    }
}

/// Where a worker stands in its loop.
#[derive(Debug, Clone, Copy, PartialEq, Eq, Structural)]
pub enum WorkerState {
    /// About to claim the next index from the cursor.
    Claiming,
    /// Decoding the image at this index.
    Decoding(usize),
    /// Handing the decoded image at this index to the queue.
    Sending(usize),
    /// Out of the loop.
    Done,
}

/// What the caller observed after carrying out the worker's last action.
#[derive(Debug, Clone, Copy, PartialEq, Eq, Structural)]
pub enum WorkerEvent {
    /// The cursor handed out this value.
    Claimed(usize),
    /// The image opened and decoded.
    Decoded,
    /// The image could not be opened or decoded.
    DecodeFailed,
    /// The queue took the decoded image.
    Sent,
    /// The consumer is gone: the queue takes nothing more.
    Disconnected,
}

/// What the caller is to do next on the worker's behalf.
#[derive(Debug, Clone, Copy, PartialEq, Eq, Structural)]
pub enum WorkerAction {
    /// Fetch and increment the shared cursor.
    Claim,
    /// Open and decode the image at this index.
    Decode(usize),
    /// Put the decoded image at this index on the queue, waiting while it is full.
    Send(usize),
    /// Leave the loop.
    Exit,
}

/// The worker's transition: from its state, the catalog's length and the
/// event, its next state and action. An event that does not answer the last
/// action ends the worker.
pub open spec fn worker_next(s: WorkerState, n: usize, e: WorkerEvent) -> (WorkerState, WorkerAction) {
    match (s, e) {
        (WorkerState::Claiming, WorkerEvent::Claimed(i)) => if i < n {
            (WorkerState::Decoding(i), WorkerAction::Decode(i))
        } else {
            (WorkerState::Done, WorkerAction::Exit)
        },
        (WorkerState::Decoding(i), WorkerEvent::Decoded) => (WorkerState::Sending(i), WorkerAction::Send(i)),
        (WorkerState::Decoding(_), WorkerEvent::DecodeFailed) => (WorkerState::Claiming, WorkerAction::Claim),
        (WorkerState::Sending(_), WorkerEvent::Sent) => (WorkerState::Claiming, WorkerAction::Claim),
        _ => (WorkerState::Done, WorkerAction::Exit),
    }
}

/// One worker of the pool, for a catalog of `catalog_len` images.
pub struct Worker {
    pub state: WorkerState,
    pub catalog_len: usize,
}

impl Worker {
    /// A worker about to claim its first index; its first action is `Claim`.
    pub fn new(catalog_len: usize) -> (r: Worker)
        ensures
            r.state == WorkerState::Claiming,
            r.catalog_len == catalog_len,
    {
        Worker { state: WorkerState::Claiming, catalog_len }
    }

    /// Takes in what came of the last action and says what to do next.
    pub fn step(&mut self, event: WorkerEvent) -> (r: WorkerAction)
        ensures
            final(self).catalog_len == old(self).catalog_len,
            (final(self).state, r) == worker_next(old(self).state, old(self).catalog_len, event),
    {
        let (s, a) = match (self.state, event) {
            (WorkerState::Claiming, WorkerEvent::Claimed(i)) => if i < self.catalog_len {
                (WorkerState::Decoding(i), WorkerAction::Decode(i))
            } else {
                (WorkerState::Done, WorkerAction::Exit)
            },
            (WorkerState::Decoding(i), WorkerEvent::Decoded) => (WorkerState::Sending(i), WorkerAction::Send(i)),
            (WorkerState::Decoding(_), WorkerEvent::DecodeFailed) => (WorkerState::Claiming, WorkerAction::Claim),
            (WorkerState::Sending(_), WorkerEvent::Sent) => (WorkerState::Claiming, WorkerAction::Claim),
            _ => (WorkerState::Done, WorkerAction::Exit),
        };
        self.state = s;
        a
    }
}

/// The values handed out by the cursor, in the order handed out, that a
/// worker goes on to decode.
pub open spec fn decoded_claims(claims: Seq<usize>, n: usize) -> Seq<usize>
    decreases claims.len(),
{
    if claims.len() == 0 {
        Seq::empty()
    } else {
        let prev = decoded_claims(claims.drop_last(), n);
        let c = claims.last();
        if worker_next(WorkerState::Claiming, n, WorkerEvent::Claimed(c)).1 == WorkerAction::Decode(c) {
            prev.push(c)
        } else {
            prev
        }
    }
}

/// Distinct indices below `n` number at most `n`.
pub proof fn lemma_distinct_below_bound(s: Seq<usize>, n: usize)
    requires
        s.no_duplicates(),
        forall|i: int| 0 <= i < s.len() ==> s[i] < n,
    ensures
        s.len() <= n,
{
    let t = s.map_values(|x: usize| x as int);
    assert(t.no_duplicates()) by {
        assert forall|i: int, j: int| 0 <= i < t.len() && 0 <= j < t.len() && i != j implies t[i] != t[j] by {
            assert(s[i] != s[j]);
        }
    }
    t.unique_seq_to_set();
    lemma_int_range(0, n as int);
    assert(t.to_set().subset_of(set_int_range(0, n as int)));
    lemma_len_subset(t.to_set(), set_int_range(0, n as int));
}

/// Whatever the interleaving of the workers, a fetch-and-add cursor never
/// hands out a value twice. So the indices that the workers decode, and hence
/// the images they deliver, are pairwise distinct, each lies below the
/// catalog's length, there are at most as many as the catalog has images, and
/// they are exactly the handed-out values below that length.
pub proof fn lemma_claims_decoded_once(claims: Seq<usize>, n: usize)
    requires
        claims.no_duplicates(),
    ensures
        decoded_claims(claims, n).no_duplicates(),
        forall|i: int| 0 <= i < decoded_claims(claims, n).len() ==> decoded_claims(claims, n)[i] < n,
        decoded_claims(claims, n).len() <= n,
        forall|c: usize| decoded_claims(claims, n).contains(c) <==> (claims.contains(c) && c < n),
    decreases claims.len(),
{
    if claims.len() > 0 {
        let rest = claims.drop_last();
        let c = claims.last();
        assert(rest.no_duplicates());
        lemma_claims_decoded_once(rest, n);
        assert(!rest.contains(c)) by {
            if rest.contains(c) {
                let j = choose|j: int| 0 <= j < rest.len() && rest[j] == c;
                assert(claims[j] == claims[claims.len() - 1]);
            }
        }
        assert forall|x: usize| claims.contains(x) <==> (rest.contains(x) || x == c) by {
            if claims.contains(x) && x != c {
                let j = choose|j: int| 0 <= j < claims.len() && claims[j] == x;
                assert(rest[j] == x);
            }
            if x == c {
                assert(claims[claims.len() - 1] == x);
            }
            if rest.contains(x) {
                let j = choose|j: int| 0 <= j < rest.len() && rest[j] == x;
                assert(claims[j] == x);
            }
        }
        let d = decoded_claims(claims, n);
        let prev = decoded_claims(rest, n);
        if c < n {
            assert(d == prev.push(c));
            assert(!prev.contains(c));
            assert forall|x: usize| d.contains(x) <==> (prev.contains(x) || x == c) by {
                if d.contains(x) && x != c {
                    let j = choose|j: int| 0 <= j < d.len() && d[j] == x;
                    assert(prev[j] == x);
                }
                if x == c {
                    assert(d[d.len() - 1] == x);
                }
                if prev.contains(x) {
                    let j = choose|j: int| 0 <= j < prev.len() && prev[j] == x;
                    assert(d[j] == x);
                }
            }
        } else {
            assert(d == prev);
        }
        lemma_distinct_below_bound(d, n);
    } else {
        lemma_distinct_below_bound(decoded_claims(claims, n), n);
    }
}

} // verus!
