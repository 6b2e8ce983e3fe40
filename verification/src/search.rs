//! The search of a nonce range, batch by batch.
//!
//! A `Search` decides what happens next; whoever drives it runs the batches on the device, asks
//! whether the job was cancelled, and reports back.

use crate::arithmetic::{lemma_quotient_up, quotient_up, smaller};
use crate::batch::{BatchResult, Candidate};
use crate::uint512::{lemma_at_most_max, max_value, Uint512};
use vstd::arithmetic::power2::pow2;
use vstd::prelude::*;

verus! {

/// A range of nonces; both ends belong to it.
#[derive(Clone, Copy, Debug, PartialEq, Eq)]
pub struct Range {
    pub start: Uint512,
    pub end: Uint512,
}

/// The kind of engine that found a candidate.
#[derive(Clone, Copy, Debug, PartialEq, Eq)]
pub enum FoundOrigin {
    GpuG1,
}

/// How a search ended.
#[derive(Clone, Copy, Debug, PartialEq, Eq)]
pub enum EngineStatus {
    Found { candidate: Candidate, hash_count: u64, origin: FoundOrigin },
    Exhausted { hash_count: u64 },
    Cancelled { hash_count: u64 },
}

/// A search under way.
#[derive(Debug)]
pub struct Search {
    next: Uint512,
    end: Uint512,
    batch_size: u64,
    total_hashes: u64,
    batches: u64,
}

/// What to do next.
#[derive(Clone, Copy, Debug, PartialEq, Eq)]
pub enum SearchStep {
    RunBatch { start: Uint512, size: u64 },
    Finished(EngineStatus),
}

/// Where a search stands: the next nonce, the last one, the nonces per batch, the hashes counted
/// and the batches completed so far.
pub ghost struct SearchView {
    pub next: nat,
    pub end: nat,
    pub batch_size: nat,
    pub total_hashes: nat,
    pub batches: nat,
}

impl SearchView {
    /// No nonce is left.
    pub open spec fn is_done(self) -> bool {
        self.next > self.end
    }

    /// The nonces in the next batch: a full batch, or what is left of the range.
    pub open spec fn batch_len(self) -> nat {
        if self.is_done() {
            0
        } else {
            smaller(self.end - self.next + 1, self.batch_size as int) as nat
        }
    }

    /// After a batch in which nothing was found. The next nonce stops at the greatest number.
    pub open spec fn after_miss(self, hash_count: nat) -> SearchView {
        SearchView {
            next: smaller((self.next + self.batch_len()) as int, max_value() as int) as nat,
            total_hashes: self.total_hashes + hash_count,
            batches: self.batches + 1,
            ..self
        }
    }

    /// After one batch without a find for each of the given hash counts.
    pub open spec fn after_misses(self, hash_counts: Seq<nat>) -> SearchView
        decreases hash_counts.len(),
    {
        if hash_counts.len() == 0 {
            self
        } else {
            self.after_misses(hash_counts.drop_last()).after_miss(hash_counts.last())
        }
    }

    /// The next nonce exists as a 512-bit number even when the range is used up.
    pub open spec fn wf(self) -> bool {
        &&& self.end <= max_value()
        &&& self.next <= max_value()
    }
}

impl View for Search {
    type V = SearchView;

    closed spec fn view(&self) -> SearchView {
        SearchView {
            next: self.next@,
            end: self.end@,
            batch_size: self.batch_size as nat,
            total_hashes: self.total_hashes as nat,
            batches: self.batches as nat,
        }
    }
}

impl Search {
    /// A search of `range` that has not started.
    pub fn new(range: Range, batch_size: u64) -> (search: Search)
        ensures
            search@ == (SearchView {
                next: range.start@,
                end: range.end@,
                batch_size: batch_size as nat,
                total_hashes: 0,
                batches: 0,
            }),
            search@.wf(),
    {
        proof {
            lemma_at_most_max(range.start);
            lemma_at_most_max(range.end);
        }
        Search {
            next: range.start,
            end: range.end,
            batch_size,
            total_hashes: 0,
            batches: 0,
        }
    }

    /// The number of nonces in the next batch.
    fn next_batch_size(&self) -> (size: u64)
        requires
            !self@.is_done(),
        ensures
            size == self@.batch_len(),
    {
        proof {
            lemma_at_most_max(self.end);
            lemma_word_below_max();
        }
        let remaining = self.end.saturating_sub(self.next).saturating_add(Uint512::one());
        if remaining.exceeds(Uint512::from_u64(self.batch_size)) {
            self.batch_size
        } else {
            remaining.as_u64()
        }
    }

    /// What to do next, given whether the job was cancelled: a range that is used up ends the
    /// search, so does a cancelled job, and else the next batch is due.
    pub fn next_step(&self, cancelled: bool) -> (step: SearchStep)
        ensures
            match step {
                SearchStep::Finished(EngineStatus::Exhausted { hash_count }) => {
                    &&& self@.is_done()
                    &&& hash_count == self@.total_hashes
                },
                SearchStep::Finished(EngineStatus::Cancelled { hash_count }) => {
                    &&& !self@.is_done()
                    &&& cancelled
                    &&& hash_count == self@.total_hashes
                },
                SearchStep::Finished(EngineStatus::Found { .. }) => false,
                SearchStep::RunBatch { start, size } => {
                    &&& !self@.is_done()
                    &&& !cancelled
                    &&& start@ == self@.next
                    &&& size == self@.batch_len()
                },
            },
    {
        if self.next.exceeds(self.end) {
            SearchStep::Finished(EngineStatus::Exhausted { hash_count: self.total_hashes })
        } else if cancelled {
            SearchStep::Finished(EngineStatus::Cancelled { hash_count: self.total_hashes })
        } else {
            SearchStep::RunBatch { start: self.next, size: self.next_batch_size() }
        }
    }

    /// Takes in what came of the batch that was due. A find ends the search; without one the
    /// search moves on to the next batch.
    pub fn record(&mut self, result: BatchResult) -> (status: Option<EngineStatus>)
        requires
            !old(self)@.is_done(),
            match result {
                BatchResult::Found { hash_count, .. } => old(self)@.total_hashes + hash_count
                    <= u64::MAX,
                BatchResult::NotFound { hash_count } => old(self)@.total_hashes + hash_count
                    <= u64::MAX && old(self)@.batches < u64::MAX,
            },
        ensures
            final(self)@.wf(),
            match result {
                BatchResult::Found { candidate, hash_count } => {
                    &&& final(self)@ == (SearchView {
                        total_hashes: old(self)@.total_hashes + hash_count as nat,
                        ..old(self)@
                    })
                    &&& status == Some(
                        EngineStatus::Found {
                            candidate,
                            hash_count: (old(self)@.total_hashes + hash_count) as u64,
                            origin: FoundOrigin::GpuG1,
                        },
                    )
                },
                BatchResult::NotFound { hash_count } => {
                    &&& final(self)@ == old(self)@.after_miss(hash_count as nat)
                    &&& status is None
                },
            },
    {
        proof {
            lemma_at_most_max(self.next);
            lemma_at_most_max(self.end);
        }
        match result {
            BatchResult::Found { candidate, hash_count } => {
                self.total_hashes = self.total_hashes + hash_count;
                Some(
                    EngineStatus::Found {
                        candidate,
                        hash_count: self.total_hashes,
                        origin: FoundOrigin::GpuG1,
                    },
                )
            },
            BatchResult::NotFound { hash_count } => {
                let size: u64 = self.next_batch_size();
                self.total_hashes = self.total_hashes + hash_count;
                self.next = self.next.saturating_add(Uint512::from_u64(size));
                self.batches = self.batches + 1;
                proof {
                    lemma_at_most_max(self.next);
                }
                None
            },
        }
    }

    /// The hashes counted so far.
    pub fn total_hashes(&self) -> (count: u64)
        ensures
            count == self@.total_hashes,
    {
        self.total_hashes
    }

    /// The batches completed so far.
    pub fn batches(&self) -> (count: u64)
        ensures
            count == self@.batches,
    {
        self.batches
    }

    /// Whether progress is to be reported: after every tenth batch.
    pub fn progress_due(&self) -> (due: bool)
        ensures
            due == (self@.batches % 10 == 0),
    {
        self.batches % 10 == 0
    }
}

proof fn lemma_word_below_max()
    ensures
        u64::MAX < max_value(),
{
    vstd::arithmetic::power2::lemma2_to64();
    vstd::arithmetic::power2::lemma_pow2_strictly_increases(65, 512);
    vstd::arithmetic::power2::lemma_pow2_adds(64, 1);
}

/// The sum of some hash counts.
pub open spec fn sum(hash_counts: Seq<nat>) -> nat
    decreases hash_counts.len(),
{
    if hash_counts.len() == 0 {
        0
    } else {
        sum(hash_counts.drop_last()) + hash_counts.last()
    }
}

/// Each of the counts is the size of the batch that it was reported for: every batch without a
/// find is hashed completely.
pub open spec fn counts_whole_batches(search: SearchView, hash_counts: Seq<nat>) -> bool {
    forall|k: int|
        0 <= k < hash_counts.len() ==> #[trigger] hash_counts[k] == search.after_misses(
            hash_counts.take(k),
        ).batch_len()
}

/// The next batch lies within the range and is no larger than a batch may be; it is empty only if
/// batches hold no nonces.
pub proof fn law_batch_within_the_range(search: SearchView)
    requires
        search.wf(),
        !search.is_done(),
    ensures
        search.batch_len() <= search.batch_size,
        search.next + search.batch_len() <= search.end + 1,
        search.batch_size > 0 ==> search.batch_len() > 0,
        search.batch_len() == search.batch_size || search.next + search.batch_len() == search.end
            + 1,
{
}

/// As long as nothing is found, the search advances by one batch after the other, without a gap
/// and without an overlap, up to the nonce after the last one, or to the greatest number where
/// that one is the last. It counts all reported hashes and all batches.
pub proof fn law_search_advances_batch_by_batch(search: SearchView, hash_counts: Seq<nat>)
    requires
        search.wf(),
        search.next <= search.end + 1,
    ensures
        search.after_misses(hash_counts).next == smaller(
            search.next + hash_counts.len() * search.batch_size as int,
            smaller(search.end + 1int, max_value() as int),
        ),
        search.after_misses(hash_counts).total_hashes == search.total_hashes + sum(hash_counts),
        search.after_misses(hash_counts).batches == search.batches + hash_counts.len(),
        search.after_misses(hash_counts).end == search.end,
        search.after_misses(hash_counts).batch_size == search.batch_size,
    decreases hash_counts.len(),
{
    if hash_counts.len() > 0 {
        let n = hash_counts.len() as int;
        let b = search.batch_size as int;
        law_search_advances_batch_by_batch(search, hash_counts.drop_last());
        assert(n * b == (n - 1) * b + b) by (nonlinear_arith);
    } else {
        assert(0 * search.batch_size == 0);
    }
}

/// A search without a find ends: it is exhausted after as many batches as it takes to hold the
/// range, and not earlier. (Batches must hold at least one nonce, and the range must not end at
/// the greatest number.)
pub proof fn law_search_ends(search: SearchView, hash_counts: Seq<nat>)
    requires
        search.wf(),
        search.end < max_value(),
        search.next <= search.end + 1,
        search.batch_size > 0,
    ensures
        search.after_misses(hash_counts).is_done() <==> hash_counts.len() >= quotient_up(
            search.end - search.next + 1,
            search.batch_size as int,
        ),
{
    let n = hash_counts.len() as int;
    let b = search.batch_size as int;
    let left = search.end - search.next + 1;
    law_search_advances_batch_by_batch(search, hash_counts);
    lemma_quotient_up(left, b);
    let q = quotient_up(left, b);
    if n >= q {
        assert(n * b >= left) by (nonlinear_arith)
            requires
                n >= q,
                q * b >= left,
                b > 0,
        ;
    } else {
        assert(n * b < left) by (nonlinear_arith)
            requires
                n <= q - 1,
                (q - 1) * b < left,
                b > 0,
        ;
    }
}

/// Every nonce of the range belongs to exactly one batch.
pub proof fn law_every_nonce_in_exactly_one_batch(
    search: SearchView,
    hash_counts: Seq<nat>,
    nonce: nat,
)
    requires
        search.wf(),
        search.next <= nonce <= search.end,
        search.after_misses(hash_counts).is_done(),
    ensures
        exists|k: int| #[trigger] in_batch(search, hash_counts, k, nonce),
        forall|j: int, k: int| #[trigger]
            in_batch(search, hash_counts, j, nonce) && #[trigger] in_batch(
                search,
                hash_counts,
                k,
                nonce,
            ) ==> j == k,
{
    law_search_advances_batch_by_batch(search, hash_counts);
    if search.end == max_value() {
        law_range_to_the_greatest_number_is_never_exhausted(search, hash_counts);
    }
    let b = search.batch_size as int;
    if b == 0 {
        assert(hash_counts.len() * b == 0) by (nonlinear_arith)
            requires
                b == 0,
        ;
    }
    let offset = nonce - search.next;
    let k = offset / b;
    vstd::arithmetic::div_mod::lemma_fundamental_div_mod(offset, b);
    assert(k * b <= offset < (k + 1) * b && 0 <= k) by (nonlinear_arith)
        requires
            offset == b * k + offset % b,
            0 <= offset % b < b,
            0 <= offset,
    ;
    let n = hash_counts.len() as int;
    law_search_ends(search, hash_counts);
    lemma_quotient_up(search.end - search.next + 1, b);
    assert(k < n) by {
        let q = quotient_up(search.end - search.next + 1, b);
        assert(k < q) by (nonlinear_arith)
            requires
                k * b < q * b,
                b > 0,
        ;
    }
    law_search_advances_batch_by_batch(search, hash_counts.take(k));
    assert((k + 1) * b == k * b + b) by (nonlinear_arith);
    assert(in_batch(search, hash_counts, k, nonce));
    assert forall|j: int| #[trigger] in_batch(search, hash_counts, j, nonce) implies j == k by {
        law_search_advances_batch_by_batch(search, hash_counts.take(j));
        assert((j + 1) * b == j * b + b) by (nonlinear_arith);
        assert(j == k) by (nonlinear_arith)
            requires
                j * b <= offset < (j + 1) * b,
                k * b <= offset < (k + 1) * b,
                b > 0,
        ;
    }
}

/// `nonce` belongs to the batch that is due after the first `k` ones.
pub open spec fn in_batch(search: SearchView, hash_counts: Seq<nat>, k: int, nonce: nat) -> bool {
    let at = search.after_misses(hash_counts.take(k));
    0 <= k < hash_counts.len() && at.next <= nonce < at.next + at.batch_len()
}

/// An exhausted search in which every batch was hashed completely has counted each nonce of the
/// range once.
pub proof fn law_exhausted_search_counts_the_range(search: SearchView, hash_counts: Seq<nat>)
    requires
        search.wf(),
        search.next <= search.end + 1,
        search.after_misses(hash_counts).is_done(),
        counts_whole_batches(search, hash_counts),
    ensures
        search.after_misses(hash_counts).total_hashes == search.total_hashes + (search.end
            - search.next + 1),
{
    if search.end == max_value() {
        law_range_to_the_greatest_number_is_never_exhausted(search, hash_counts);
    }
    law_search_advances_batch_by_batch(search, hash_counts);
    lemma_whole_batches_sum(search, hash_counts);
}

proof fn lemma_whole_batches_sum(search: SearchView, hash_counts: Seq<nat>)
    requires
        search.wf(),
        search.end < max_value(),
        search.next <= search.end + 1,
        counts_whole_batches(search, hash_counts),
    ensures
        search.after_misses(hash_counts).next == search.next + sum(hash_counts),
    decreases hash_counts.len(),
{
    if hash_counts.len() > 0 {
        let front = hash_counts.drop_last();
        assert(counts_whole_batches(search, front)) by {
            assert forall|k: int| 0 <= k < front.len() implies #[trigger] front[k]
                == search.after_misses(front.take(k)).batch_len() by {
                assert(front.take(k) =~= hash_counts.take(k));
                assert(hash_counts[k] == front[k]);
            }
        }
        lemma_whole_batches_sum(search, front);
        law_search_advances_batch_by_batch(search, front);
        assert(hash_counts.take(hash_counts.len() - 1) =~= front);
        assert(hash_counts[hash_counts.len() - 1] == search.after_misses(front).batch_len());
    }
}

/// A range that ends at the greatest number is never exhausted: the nonce after the last one does
/// not exist, and the search stays at the greatest number.
pub proof fn law_range_to_the_greatest_number_is_never_exhausted(
    search: SearchView,
    hash_counts: Seq<nat>,
)
    requires
        search.wf(),
        search.end == max_value(),
    ensures
        !search.after_misses(hash_counts).is_done(),
    decreases hash_counts.len(),
{
    if hash_counts.len() > 0 {
        law_range_to_the_greatest_number_is_never_exhausted(search, hash_counts.drop_last());
        lemma_end_and_batch_stay(search, hash_counts.drop_last());
    }
}

/// A search whose batches hold no nonces is never exhausted.
pub proof fn law_empty_batches_never_exhaust_the_range(search: SearchView, hash_counts: Seq<nat>)
    requires
        search.wf(),
        !search.is_done(),
        search.batch_size == 0,
    ensures
        !search.after_misses(hash_counts).is_done(),
{
    law_search_advances_batch_by_batch(search, hash_counts);
    assert(hash_counts.len() * search.batch_size == 0) by (nonlinear_arith)
        requires
            search.batch_size == 0,
    ;
}

/// Each of the counts is at most the size of the batch that it was reported for.
pub open spec fn counts_within_batches(search: SearchView, hash_counts: Seq<nat>) -> bool {
    forall|k: int|
        0 <= k < hash_counts.len() ==> #[trigger] hash_counts[k] <= search.after_misses(
            hash_counts.take(k),
        ).batch_len()
}

/// As long as no batch reports more hashes than it has nonces, the search never counts more hashes
/// than it has passed nonces.
pub proof fn law_hash_count_within_passed_nonces(search: SearchView, hash_counts: Seq<nat>)
    requires
        search.wf(),
        search.end < max_value(),
        search.next <= search.end + 1,
        counts_within_batches(search, hash_counts),
    ensures
        search.after_misses(hash_counts).total_hashes - search.total_hashes <= search.after_misses(
            hash_counts,
        ).next - search.next,
    decreases hash_counts.len(),
{
    if hash_counts.len() > 0 {
        let front = hash_counts.drop_last();
        assert(counts_within_batches(search, front)) by {
            assert forall|k: int| 0 <= k < front.len() implies #[trigger] front[k]
                <= search.after_misses(front.take(k)).batch_len() by {
                assert(front.take(k) =~= hash_counts.take(k));
                assert(hash_counts[k] == front[k]);
            }
        }
        law_hash_count_within_passed_nonces(search, front);
        law_search_advances_batch_by_batch(search, front);
        assert(hash_counts.take(hash_counts.len() - 1) =~= front);
        assert(hash_counts[hash_counts.len() - 1] <= search.after_misses(front).batch_len());
    }
}

proof fn lemma_end_and_batch_stay(search: SearchView, hash_counts: Seq<nat>)
    ensures
        search.after_misses(hash_counts).end == search.end,
        search.after_misses(hash_counts).batch_size == search.batch_size,
    decreases hash_counts.len(),
{
    if hash_counts.len() > 0 {
        lemma_end_and_batch_stay(search, hash_counts.drop_last());
    }
}

/// A search is done exactly when the next nonce is beyond the last one. The next batch holds the
/// nonces that are left, or as many as a batch may hold, whichever is less.
pub proof fn law_what_is_left_of_the_range(search: SearchView)
    ensures
        search.is_done() <==> search.next > search.end,
        search.next > search.end ==> search.batch_len() == 0,
        search.next <= search.end && search.end - search.next < search.batch_size
            ==> search.batch_len() == search.end - search.next + 1,
        search.next <= search.end && search.end - search.next >= search.batch_size
            ==> search.batch_len() == search.batch_size,
{
}

/// After a miss the next nonce is the one behind the batch, or 2^512 - 1 where that one does not
/// exist; the hashes are added up, the batch is counted, and the rest stays.
pub proof fn law_a_miss_moves_on(search: SearchView, hash_count: nat)
    ensures
        ({
            let after = search.after_miss(hash_count);
            &&& search.next + search.batch_len() < pow2(512) ==> after.next == search.next
                + search.batch_len()
            &&& search.next + search.batch_len() >= pow2(512) ==> after.next + 1 == pow2(512)
            &&& after.end == search.end
            &&& after.batch_size == search.batch_size
            &&& after.total_hashes == search.total_hashes + hash_count
            &&& after.batches == search.batches + 1
        }),
{
    vstd::arithmetic::power2::lemma_pow2_pos(512);
}

/// A new search stands at the start of its range with nothing counted.
pub proof fn law_new_search(range: Range, batch_size: u64, search: Search)
    requires
        call_ensures(Search::new, (range, batch_size), search),
    ensures
        search@.next == range.start@,
        search@.end == range.end@,
        search@.batch_size == batch_size,
        search@.total_hashes == 0,
        search@.batches == 0,
{
}

/// What `next_step` returns: beyond the last nonce the search is exhausted, whether or not it was
/// cancelled; else a cancelled one ends as such; else the next batch is due, from the next nonce on.
/// At the end all hashes counted so far are reported.
pub proof fn law_next_step(search: Search, cancelled: bool, step: SearchStep)
    requires
        call_ensures(Search::next_step, (&search, cancelled), step),
    ensures
        search@.next > search@.end ==> (step matches SearchStep::Finished(
            EngineStatus::Exhausted { hash_count },
        ) && hash_count == search@.total_hashes),
        search@.next <= search@.end && cancelled ==> (step matches SearchStep::Finished(
            EngineStatus::Cancelled { hash_count },
        ) && hash_count == search@.total_hashes),
        search@.next <= search@.end && !cancelled ==> (step matches SearchStep::RunBatch {
            start,
            size,
        } && start@ == search@.next && size == (if search@.end - search@.next
            < search@.batch_size {
            search@.end - search@.next + 1
        } else {
            search@.batch_size as int
        })),
{
}

/// A search that was given the batch that `next_step` asked for, and in which nothing was found,
/// stands behind that batch, and has counted its hashes; a find ends the search with all hashes
/// counted and the candidate as it was found.
pub proof fn law_recorded_batch(
    search: &mut Search,
    start: Uint512,
    size: u64,
    result: BatchResult,
    status: Option<EngineStatus>,
)
    requires
        call_ensures(
            Search::next_step,
            (&*old(search), false),
            SearchStep::RunBatch { start, size },
        ),
        call_ensures(Search::record, (search, result), status),
        match result {
            BatchResult::Found { hash_count, .. } => old(search)@.total_hashes + hash_count
                <= u64::MAX,
            BatchResult::NotFound { hash_count } => old(search)@.total_hashes + hash_count
                <= u64::MAX && old(search)@.batches < u64::MAX,
        },
    ensures
        final(search)@.end == old(search)@.end,
        final(search)@.batch_size == old(search)@.batch_size,
        result matches BatchResult::NotFound { hash_count } ==> {
            &&& status is None
            &&& start@ + size < pow2(512) ==> final(search)@.next == start@ + size
            &&& start@ + size >= pow2(512) ==> final(search)@.next + 1 == pow2(512)
            &&& final(search)@.total_hashes == old(search)@.total_hashes + hash_count
            &&& final(search)@.batches == old(search)@.batches + 1
        },
        result matches BatchResult::Found { candidate, hash_count } ==> {
            &&& status matches Some(EngineStatus::Found { candidate: found, hash_count: total, .. })
                && found == candidate && total == old(search)@.total_hashes + hash_count
            &&& final(search)@.next == old(search)@.next
            &&& final(search)@.total_hashes == old(search)@.total_hashes + hash_count
            &&& final(search)@.batches == old(search)@.batches
        },
{
    match result {
        BatchResult::Found { .. } => {},
        BatchResult::NotFound { hash_count } => {
            law_a_miss_moves_on(old(search)@, hash_count as nat);
        },
    }
}

/// The counters tell the hashes and the batches so far, and progress is due at every tenth batch.
pub proof fn law_counters(search: Search, hashes: u64, batches: u64, due: bool)
    requires
        call_ensures(Search::total_hashes, (&search,), hashes),
        call_ensures(Search::batches, (&search,), batches),
        call_ensures(Search::progress_due, (&search,), due),
    ensures
        hashes == search@.total_hashes,
        batches == search@.batches,
        due <==> batches % 10 == 0,
{
}

} // verus!
