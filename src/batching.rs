//! Running many independent operations in fixed-size chunks, one chunk after
//! another, with a pause after each chunk.
//!
//! A [`ChunkedRun`] tracks which chunk runs next and gathers the results in
//! submission order. The caller runs the operations of the chunk that
//! [`ChunkedRun::next_chunk`] names, all at once, hands the joined outcome to
//! [`ChunkedRun::record_chunk`], and pauses for the delay it returns. The first
//! failed chunk ends the run with that failure; later chunks never start.

use vstd::prelude::*;

verus! {

/// Chunk length for calls that create or change records on the target.
pub const WRITE_CHUNK: usize = 8;

/// Chunk length for calls that only read.
pub const READ_CHUNK: usize = 24;

/// Pause after each chunk, in milliseconds.
pub const CHUNK_PAUSE_MS: u64 = 500;

/// Pause after each project import, in milliseconds.
pub const IMPORT_PAUSE_MS: u64 = 10_000;

/// Pause after each export request, and between two reads of an export's
/// status, in milliseconds.
pub const EXPORT_PAUSE_MS: u64 = 15_000;

/// Pause after each export download, in milliseconds.
pub const DOWNLOAD_PAUSE_MS: u64 = 60_000;

/// Pause after each archive request, in milliseconds.
pub const ARCHIVE_PAUSE_MS: u64 = 1_000;

/// Retries of a request that failed transiently (a connection error, a
/// timeout, a server error), with exponentially growing waits between them.
pub const MAX_RETRIES: u32 = 3;

/// The chunk length actually used: a requested length of 0 counts as 1.
pub open spec fn effective_chunk(chunk_size: nat) -> nat {
    if chunk_size == 0 {
        1
    } else {
        chunk_size
    }
}

/// The number of chunks that `total` operations fall into.
pub open spec fn chunk_count(total: nat, chunk_size: nat) -> nat {
    let k = effective_chunk(chunk_size);
    ((total + k - 1) / k as int) as nat
}

/// The index of the first operation of chunk `i`.
pub open spec fn chunk_start(chunk_size: nat, i: nat) -> nat {
    i * effective_chunk(chunk_size)
}

/// One past the index of the last operation of chunk `i`.
pub open spec fn chunk_end(total: nat, chunk_size: nat, i: nat) -> nat {
    let e = (i + 1) * effective_chunk(chunk_size);
    if e < total {
        e
    } else {
        total
    }
}

proof fn lemma_count_bounds(total: nat, k: nat)
    requires
        k >= 1,
    ensures
        chunk_count(total, k) * k >= total,
        chunk_count(total, k) > 0 ==> (chunk_count(total, k) - 1) * k < total,
        total == 0 ==> chunk_count(total, k) == 0,
        chunk_count(total, k) <= total,
{
    let c = chunk_count(total, k);
    assert(effective_chunk(k) == k);
    vstd::arithmetic::div_mod::lemma_fundamental_div_mod((total + k - 1) as int, k as int);
    let r = (total + k - 1) as int % k as int;
    assert(0 <= r < k) by {
        vstd::arithmetic::div_mod::lemma_mod_bound((total + k - 1) as int, k as int);
    }
    assert(total + k - 1 == k * c + r);
    assert(c * k >= total) by (nonlinear_arith)
        requires
            total + k - 1 == k * c + r,
            r < k,
    ;
    if c > 0 {
        assert((c - 1) * k < total) by (nonlinear_arith)
            requires
                total + k - 1 == k * c + r,
                0 <= r,
                c > 0,
        ;
        assert(c - 1 <= (c - 1) * k) by (nonlinear_arith)
            requires
                c > 0,
                k >= 1,
        ;
    }
    if total == 0 {
        assert(c == 0) by (nonlinear_arith)
            requires
                k - 1 == k * c + r,
                0 <= r,
                k >= 1,
        ;
    }
}

proof fn lemma_below_count(total: nat, k: nat, i: nat)
    requires
        k >= 1,
        i < chunk_count(total, k),
    ensures
        i * k < total,
        (i + 1) * k <= chunk_count(total, k) * k,
{
    lemma_count_bounds(total, k);
    let c = chunk_count(total, k);
    assert(i * k <= (c - 1) * k) by (nonlinear_arith)
        requires
            i + 1 <= c,
    ;
    assert((i + 1) * k <= c * k) by (nonlinear_arith)
        requires
            i + 1 <= c,
    ;
}

/// The chunks tile the operations: chunk 0 starts at the first operation,
/// each chunk is non-empty, holds at most the chunk length and ends where the
/// next one starts, and the last one ends at the last operation. There are
/// none when there are no operations.
pub proof fn chunks_partition_operations(total: nat, chunk_size: nat)
    ensures
        total == 0 <==> chunk_count(total, chunk_size) == 0,
        chunk_start(chunk_size, 0) == 0,
        forall|i: nat|
            i < chunk_count(total, chunk_size) ==> chunk_start(chunk_size, i) < #[trigger] chunk_end(
                total,
                chunk_size,
                i,
            ) <= chunk_start(chunk_size, i) + effective_chunk(chunk_size),
        forall|i: nat|
            i + 1 < chunk_count(total, chunk_size) ==> #[trigger] chunk_end(total, chunk_size, i)
                == chunk_start(chunk_size, i + 1),
        chunk_count(total, chunk_size) > 0 ==> chunk_end(
            total,
            chunk_size,
            (chunk_count(total, chunk_size) - 1) as nat,
        ) == total,
{
    let k = effective_chunk(chunk_size);
    let c = chunk_count(total, chunk_size);
    assert(chunk_count(total, chunk_size) == chunk_count(total, k));
    lemma_count_bounds(total, k);
    assert forall|i: nat| i < c implies chunk_start(chunk_size, i) < #[trigger] chunk_end(
        total,
        chunk_size,
        i,
    ) <= chunk_start(chunk_size, i) + k by {
        lemma_below_count(total, k, i);
        assert((i + 1) * k == i * k + k) by (nonlinear_arith);
    }
    assert forall|i: nat| i + 1 < c implies #[trigger] chunk_end(total, chunk_size, i)
        == chunk_start(chunk_size, i + 1) by {
        lemma_below_count(total, k, i + 1);
    }
    if c > 0 {
        let last = (c - 1) as nat;
        assert((last + 1) * k == c * k);
    }
}

/// A requested chunk length of 0 plans exactly the chunks of length 1.
pub proof fn zero_chunk_size_acts_as_one(total: nat)
    ensures
        effective_chunk(0) == effective_chunk(1),
        chunk_count(total, 0) == chunk_count(total, 1),
        forall|i: nat|
            chunk_start(0, i) == chunk_start(1, i) && chunk_end(total, 0, i) == #[trigger] chunk_end(
                total,
                1,
                i,
            ),
{
}

/// The chunk length actually used for a requested length.
pub fn effective_chunk_size(chunk_size: usize) -> (r: usize)
    ensures
        r == effective_chunk(chunk_size as nat),
{
    if chunk_size < 1 {
        1
    } else {
        chunk_size
    }
}

/// A chunked run of `total` operations.
pub struct ChunkedRun<T> {
    total: usize,
    chunk: usize,
    throttle_ms: u64,
    chunks_done: usize,
    next_start: usize,
    failed: bool,
    results: Vec<T>,
}

impl<T> ChunkedRun<T> {
    /// The number of operations.
    pub closed spec fn total(&self) -> nat {
        self.total as nat
    }

    /// The chunk length requested, after the zero-to-one rule.
    pub closed spec fn chunk_len(&self) -> nat {
        self.chunk as nat
    }

    /// The pause after each chunk, in milliseconds.
    pub closed spec fn delay(&self) -> u64 {
        self.throttle_ms
    }

    /// The number of chunks that have completed.
    pub closed spec fn chunks_done(&self) -> nat {
        self.chunks_done as nat
    }

    /// The number of operations in the completed chunks.
    pub closed spec fn completed_ops(&self) -> nat {
        self.next_start as nat
    }

    /// Whether a chunk has failed.
    pub closed spec fn is_failed(&self) -> bool {
        self.failed
    }

    /// The results of the completed chunks, in submission order.
    pub closed spec fn results(&self) -> Seq<T> {
        self.results@
    }

    pub closed spec fn well_formed(&self) -> bool {
        &&& self.chunk >= 1
        &&& self.chunks_done <= chunk_count(self.total as nat, self.chunk as nat)
        &&& self.next_start == if self.chunks_done * self.chunk >= self.total {
            self.total as int
        } else {
            self.chunks_done * self.chunk
        }
    }

    /// The chunk to run next, as the range of operation indices it covers;
    /// `None` once every chunk has completed or one has failed.
    pub open spec fn pending_chunk(&self) -> Option<(usize, usize)> {
        if self.is_failed() || self.chunks_done() >= chunk_count(self.total(), self.chunk_len()) {
            None
        } else {
            Some((self.pending_start() as usize, self.pending_end() as usize))
        }
    }

    /// The first operation of the chunk to run next.
    pub open spec fn pending_start(&self) -> nat {
        chunk_start(self.chunk_len(), self.chunks_done())
    }

    /// One past the last operation of the chunk to run next.
    pub open spec fn pending_end(&self) -> nat {
        chunk_end(self.total(), self.chunk_len(), self.chunks_done())
    }

    /// Whether the run has ended, by completing every chunk or by a failure.
    pub open spec fn has_ended(&self) -> bool {
        self.pending_chunk() is None
    }

    pub fn new(total: usize, chunk_size: usize, throttle_ms: u64) -> (r: Self)
        ensures
            r.well_formed(),
            r.total() == total,
            r.chunk_len() == effective_chunk(chunk_size as nat),
            r.delay() == throttle_ms,
            r.chunks_done() == 0,
            r.completed_ops() == 0,
            !r.is_failed(),
            r.results() == Seq::<T>::empty(),
    {
        let chunk = effective_chunk_size(chunk_size);
        ChunkedRun {
            total,
            chunk,
            throttle_ms,
            chunks_done: 0,
            next_start: 0,
            failed: false,
            results: Vec::new(),
        }
    }

    /// The range of operation indices to run next, or `None` once the run has
    /// ended.
    pub fn next_chunk(&self) -> (r: Option<(usize, usize)>)
        requires
            self.well_formed(),
        ensures
            r == self.pending_chunk(),
    {
        let ghost k = self.chunk as nat;
        let ghost t = self.total as nat;
        proof {
            lemma_count_bounds(t, k);
            assert(effective_chunk(k) == k);
            let c = chunk_count(t, k);
            if self.chunks_done < c {
                lemma_below_count(t, k, self.chunks_done as nat);
            } else {
                assert(self.chunks_done * k >= t) by (nonlinear_arith)
                    requires
                        self.chunks_done == c,
                        c * k >= t,
                ;
            }
        }
        if self.failed || self.next_start >= self.total {
            None
        } else {
            let room = self.total - self.next_start;
            let end = if room > self.chunk {
                self.next_start + self.chunk
            } else {
                self.total
            };
            proof {
                assert((self.chunks_done + 1) * k == self.chunks_done * k + k) by (nonlinear_arith);
            }
            Some((self.next_start, end))
        }
    }

    /// Records the joined outcome of the chunk that [`ChunkedRun::next_chunk`]
    /// named. On success the chunk's results are appended and the pause to take
    /// before the next chunk is returned; on failure the run ends with the
    /// failure.
    pub fn record_chunk<E>(&mut self, outcome: Result<Vec<T>, E>) -> (r: Result<u64, E>)
        requires
            old(self).well_formed(),
            old(self).pending_chunk() is Some,
        ensures
            final(self).well_formed(),
            final(self).total() == old(self).total(),
            final(self).chunk_len() == old(self).chunk_len(),
            final(self).delay() == old(self).delay(),
            match outcome {
                Ok(items) => {
                    &&& r == Ok::<u64, E>(old(self).delay())
                    &&& final(self).results() == old(self).results() + items@
                    &&& final(self).chunks_done() == old(self).chunks_done() + 1
                    &&& final(self).completed_ops() == old(self).pending_end()
                    &&& !final(self).is_failed()
                },
                Err(e) => {
                    &&& r == Err::<u64, E>(e)
                    &&& final(self).results() == old(self).results()
                    &&& final(self).chunks_done() == old(self).chunks_done()
                    &&& final(self).completed_ops() == old(self).completed_ops()
                    &&& final(self).is_failed()
                },
            },
    {
        match outcome {
            Ok(items) => {
                let ghost k = self.chunk as nat;
                let ghost t = self.total as nat;
                proof {
                    lemma_count_bounds(t, k);
                    assert(effective_chunk(k) == k);
                    lemma_below_count(t, k, self.chunks_done as nat);
                    assert((self.chunks_done + 1) * k == self.chunks_done * k + k)
                        by (nonlinear_arith);
                }
                let mut items = items;
                self.results.append(&mut items);
                let room = self.total - self.next_start;
                self.next_start = if room > self.chunk {
                    self.next_start + self.chunk
                } else {
                    self.total
                };
                self.chunks_done = self.chunks_done + 1;
                Ok(self.throttle_ms)
            },
            Err(e) => {
                self.failed = true;
                Err(e)
            },
        }
    }

    /// Whether the run has ended.
    pub fn is_ended(&self) -> (r: bool)
        requires
            self.well_formed(),
        ensures
            r == self.has_ended(),
    {
        self.next_chunk().is_none()
    }

    /// The results of all completed chunks, in submission order.
    pub fn into_results(self) -> (r: Vec<T>)
        ensures
            r@ == self.results(),
    {
        self.results
    }
}

/// The chunk to run next starts right after the operations already completed.
pub proof fn next_chunk_follows_completed<T>(run: ChunkedRun<T>)
    requires
        run.well_formed(),
        run.pending_chunk() is Some,
    ensures
        run.pending_start() == run.completed_ops(),
        run.completed_ops() < run.pending_end() <= run.total(),
{
    let k = run.chunk_len();
    let t = run.total();
    lemma_count_bounds(t, k);
    assert(effective_chunk(k) == k);
    lemma_below_count(t, k, run.chunks_done());
    assert((run.chunks_done() + 1) * k == run.chunks_done() * k + k) by (nonlinear_arith);
}

/// Results come back in submission order: where the results gathered so far
/// are those of the completed operations, and a chunk's outcome lists the
/// results of its operations in order, recording it keeps the results those
/// of the completed operations.
pub proof fn results_keep_submission_order<T>(
    outputs: Seq<T>,
    before: ChunkedRun<T>,
    chunk: Seq<T>,
    after: ChunkedRun<T>,
)
    requires
        before.well_formed(),
        before.pending_chunk() is Some,
        outputs.len() == before.total(),
        before.results() == outputs.subrange(0, before.completed_ops() as int),
        chunk == outputs.subrange(
            before.pending_start() as int,
            before.pending_end() as int,
        ),
        after.results() == before.results() + chunk,
        after.completed_ops() == before.pending_end(),
    ensures
        after.results() == outputs.subrange(0, after.completed_ops() as int),
{
    next_chunk_follows_completed(before);
    let s = before.pending_start() as int;
    let e = before.pending_end() as int;
    assert(outputs.subrange(0, s) + outputs.subrange(s, e) =~= outputs.subrange(0, e));
}

/// Once a chunk has failed no further chunk runs, whatever is recorded later.
pub proof fn failure_ends_run<T>(run: ChunkedRun<T>)
    requires
        run.is_failed(),
    ensures
        run.pending_chunk() is None,
        run.has_ended(),
{
}

/// A run that ends without failure has completed every chunk, and so has
/// handed out one pause per chunk.
pub proof fn success_completes_every_chunk<T>(run: ChunkedRun<T>)
    requires
        run.well_formed(),
        run.has_ended(),
        !run.is_failed(),
    ensures
        run.chunks_done() == chunk_count(run.total(), run.chunk_len()),
{
}

} // verus!
