//! One batch of nonces on one device: how it is split over threads, and what came of it.

use crate::arithmetic::{
    larger, lemma_low_word, lemma_quotient_up, low_word, quotient_up, smaller,
};
use crate::device_memory::{
    flag_set, hash_field, nonce_field, read_results, Solution, RESULTS_BUFFER_SIZE,
};
use crate::uint512::{
    law_bytes_of_a_number_read_back, le_bytes, le_value, lemma_at_most_max, Uint512,
};
use vstd::arithmetic::power2::pow2;
use vstd::prelude::*;

verus! {

/// Threads in one workgroup of the mining kernel.
pub const THREADS_PER_WORKGROUP: u32 = 256;

/// How a batch is laid out over the threads of a device.
#[derive(Clone, Copy, Debug, PartialEq, Eq)]
pub struct DispatchPlan {
    pub num_workgroups: u32,
    pub total_threads: u32,
    pub nonces_per_thread: u32,
    pub batch_size: u64,
}

/// The threads that a batch can keep busy on a device with this many preferred and allowed
/// workgroups: one per nonce, up to the device's share, and at least one.
pub open spec fn wanted_threads(
    optimal_workgroups: u32,
    max_workgroups: u32,
    batch_size: u64,
) -> int {
    let workgroups = smaller(larger(optimal_workgroups as int, 1), max_workgroups as int);
    larger(smaller(batch_size as int, workgroups * THREADS_PER_WORKGROUP), 1)
}

/// The workgroups of a batch: enough for the wanted threads, which count as a 32-bit number.
pub open spec fn planned_workgroups(
    optimal_workgroups: u32,
    max_workgroups: u32,
    batch_size: u64,
) -> int {
    larger(
        quotient_up(
            low_word(wanted_threads(optimal_workgroups, max_workgroups, batch_size)),
            THREADS_PER_WORKGROUP as int,
        ),
        1,
    )
}

/// The thread count of a batch is a 32-bit number.
pub open spec fn plan_fits(optimal_workgroups: u32, max_workgroups: u32, batch_size: u64) -> bool {
    planned_workgroups(optimal_workgroups, max_workgroups, batch_size) * THREADS_PER_WORKGROUP
        <= u32::MAX
}

/// The layout of a batch: whole workgroups, and for each thread an equal share of the nonces,
/// rounded up, at least one, as a 32-bit number.
pub open spec fn dispatch_plan(
    optimal_workgroups: u32,
    max_workgroups: u32,
    batch_size: u64,
) -> DispatchPlan {
    let workgroups = planned_workgroups(optimal_workgroups, max_workgroups, batch_size);
    let threads = workgroups * THREADS_PER_WORKGROUP;
    DispatchPlan {
        num_workgroups: workgroups as u32,
        total_threads: threads as u32,
        nonces_per_thread: low_word(larger(quotient_up(batch_size as int, threads), 1)) as u32,
        batch_size,
    }
}

impl DispatchPlan {
    /// The nonces that the threads get through, all shares together, within the batch.
    pub open spec fn dispatched(self) -> int {
        smaller(self.total_threads * self.nonces_per_thread, self.batch_size as int)
    }

    /// The hashes that all threads together had computed when `nonce` was found: each thread had
    /// done as many steps as the winner. A nonce from before the batch tells nothing of the step.
    pub open spec fn hashes_until(self, batch_start: nat, nonce: nat) -> int {
        if nonce >= batch_start {
            smaller(
                self.total_threads * ((nonce - batch_start) % (self.nonces_per_thread as int) + 1),
                self.dispatched(),
            )
        } else {
            self.dispatched()
        }
    }
}

/// The workgroups of a batch.
fn count_workgroups(optimal_workgroups: u32, max_workgroups: u32, batch_size: u64) -> (count: u32)
    ensures
        count == planned_workgroups(optimal_workgroups, max_workgroups, batch_size),
{
    let at_least_one: u32 = if optimal_workgroups >= 1 {
        optimal_workgroups
    } else {
        1
    };
    let hinted_workgroups: u32 = if at_least_one <= max_workgroups {
        at_least_one
    } else {
        max_workgroups
    };
    let hinted_threads: u64 = hinted_workgroups as u64 * THREADS_PER_WORKGROUP as u64;
    let bounded: u64 = if batch_size <= hinted_threads {
        batch_size
    } else {
        hinted_threads
    };
    let logical_threads: u64 = if bounded >= 1 {
        bounded
    } else {
        1
    };
    proof {
        lemma_low_word(logical_threads);
    }
    let threads: u32 = #[verifier::truncate]
    (logical_threads as u32);
    let whole: u32 = threads / THREADS_PER_WORKGROUP;
    let groups: u32 = if threads % THREADS_PER_WORKGROUP == 0 {
        whole
    } else {
        whole + 1
    };
    if groups >= 1 {
        groups
    } else {
        1
    }
}

/// Whether the batch can be laid out: its thread count is a 32-bit number.
pub fn can_plan(optimal_workgroups: u32, max_workgroups: u32, batch_size: u64) -> (fits: bool)
    ensures
        fits == plan_fits(optimal_workgroups, max_workgroups, batch_size),
{
    let count: u32 = count_workgroups(optimal_workgroups, max_workgroups, batch_size);
    count as u64 * THREADS_PER_WORKGROUP as u64 <= u32::MAX as u64
}

/// Lays out a batch on a device that prefers `optimal_workgroups` workgroups and allows
/// `max_workgroups`.
pub fn plan_dispatch(
    optimal_workgroups: u32,
    max_workgroups: u32,
    batch_size: u64,
) -> (plan: DispatchPlan)
    requires
        plan_fits(optimal_workgroups, max_workgroups, batch_size),
    ensures
        plan == dispatch_plan(optimal_workgroups, max_workgroups, batch_size),
        plan.batch_size == batch_size,
        plan.total_threads == plan.num_workgroups * 256,
        batch_size <= plan.total_threads * 0xffff_ffff ==> plan.total_threads
            * plan.nonces_per_thread >= batch_size,
{
    proof {
        if batch_size <= dispatch_plan(optimal_workgroups, max_workgroups, batch_size).total_threads
            * 0xffff_ffff {
            law_plan_tries_every_nonce(optimal_workgroups, max_workgroups, batch_size);
        }
    }
    let num_workgroups: u32 = count_workgroups(optimal_workgroups, max_workgroups, batch_size);
    let total_threads: u32 = num_workgroups * THREADS_PER_WORKGROUP;
    let threads: u64 = total_threads as u64;
    let whole: u64 = batch_size / threads;
    proof {
        lemma_quotient_up(batch_size as int, threads as int);
    }
    let share: u64 = if batch_size % threads == 0 {
        whole
    } else {
        whole + 1
    };
    let positive: u64 = if share >= 1 {
        share
    } else {
        1
    };
    proof {
        lemma_low_word(positive);
    }
    let nonces_per_thread: u32 = #[verifier::truncate]
    (positive as u32);
    DispatchPlan { num_workgroups, total_threads, nonces_per_thread, batch_size }
}

impl DispatchPlan {
    /// The dispatch configuration of the kernel: thread count, nonces per thread, and the low word
    /// of the batch size.
    pub fn config(&self) -> (config: [u32; 3])
        ensures
            config@ == seq![
                self.total_threads,
                self.nonces_per_thread,
                low_word(self.batch_size as int) as u32,
            ],
            config@[0] == self.total_threads,
            config@[1] == self.nonces_per_thread,
            config@[2] == self.batch_size % 0x1_0000_0000,
    {
        proof {
            lemma_low_word(self.batch_size);
        }
        let total_nonces: u32 = #[verifier::truncate]
        (self.batch_size as u32);
        [self.total_threads, self.nonces_per_thread, total_nonces]
    }

    /// The number of nonces that the batch gets through when nothing is found.
    pub fn dispatched_nonces(&self) -> (count: u64)
        ensures
            count == self.dispatched(),
            count == if self.total_threads * self.nonces_per_thread <= self.batch_size {
                self.total_threads * self.nonces_per_thread
            } else {
                self.batch_size as int
            },
    {
        proof {
            lemma_words_multiply(self.total_threads as int, self.nonces_per_thread as int);
        }
        let all: u64 = self.total_threads as u64 * self.nonces_per_thread as u64;
        if all <= self.batch_size {
            all
        } else {
            self.batch_size
        }
    }

    /// The number of hashes that the batch computed until `nonce` was found.
    pub fn hashes_computed(&self, batch_start: Uint512, nonce: Uint512) -> (count: u64)
        requires
            nonce@ >= batch_start@ ==> nonce@ - batch_start@ <= u64::MAX && self.nonces_per_thread
                > 0,
        ensures
            count == self.hashes_until(batch_start@, nonce@),
            nonce@ < batch_start@ ==> count == self.dispatched(),
            nonce@ >= batch_start@ ==> count == smaller(
                self.total_threads * ((nonce@ - batch_start@) % (self.nonces_per_thread as int) + 1),
                smaller(self.total_threads * self.nonces_per_thread, self.batch_size as int),
            ),
    {
        let dispatched: u64 = self.dispatched_nonces();
        if batch_start.exceeds(nonce) {
            dispatched
        } else {
            let logical_index: u64 = nonce.minus(batch_start).as_u64();
            let winning_iteration: u64 = logical_index % (self.nonces_per_thread as u64);
            proof {
                lemma_words_multiply(self.total_threads as int, winning_iteration + 1);
            }
            let steps: u64 = self.total_threads as u64 * (winning_iteration + 1);
            if steps <= dispatched {
                steps
            } else {
                dispatched
            }
        }
    }
}

proof fn lemma_words_multiply(a: int, b: int)
    requires
        0 <= a <= u32::MAX,
        0 <= b <= u32::MAX,
    ensures
        0 <= a * b <= u64::MAX,
{
    assert(0 <= a * b <= 0xffff_ffff * 0xffff_ffff) by (nonlinear_arith)
        requires
            0 <= a <= 0xffff_ffff,
            0 <= b <= 0xffff_ffff,
    ;
}

/// A nonce whose hash meets the target, with the work that proves it.
#[derive(Clone, Copy, Debug, PartialEq, Eq)]
pub struct Candidate {
    pub nonce: Uint512,
    pub work: [u8; 64],
    pub hash: Uint512,
}

/// What came of one batch.
#[derive(Clone, Copy, Debug, PartialEq, Eq)]
pub enum BatchResult {
    Found { candidate: Candidate, hash_count: u64 },
    NotFound { hash_count: u64 },
}

impl Candidate {
    /// The work is the nonce, most significant byte first.
    pub open spec fn wf(self) -> bool {
        self.work@ == le_bytes(self.nonce@, 64).reverse()
    }

    /// The candidate for a solution of the kernel.
    pub fn from_solution(solution: Solution) -> (candidate: Candidate)
        ensures
            candidate.wf(),
            candidate.nonce == solution.nonce,
            candidate.hash == solution.hash,
    {
        Candidate {
            nonce: solution.nonce,
            work: solution.nonce.to_big_endian(),
            hash: solution.hash,
        }
    }
}

/// The results can be those of the batch: they fill the results buffer, and a nonce that was found
/// at or after the start is at a distance from it that is a 64-bit number, in a batch whose threads
/// have nonces to try.
pub open spec fn results_fit(plan: DispatchPlan, batch_start: nat, data: Seq<u8>) -> bool {
    &&& data.len() == RESULTS_BUFFER_SIZE
    &&& flag_set(data) && nonce_field(data) >= batch_start ==> nonce_field(data) - batch_start
        <= u64::MAX && plan.nonces_per_thread > 0
}

/// Whether the results can be those of the batch.
pub fn can_conclude(plan: &DispatchPlan, batch_start: Uint512, data: &[u8]) -> (fits: bool)
    ensures
        fits == results_fit(*plan, batch_start@, data@),
{
    if data.len() != RESULTS_BUFFER_SIZE {
        return false;
    }
    match read_results(data) {
        Some(solution) => {
            batch_start.exceeds(solution.nonce) || (plan.nonces_per_thread > 0
                && !solution.nonce.minus(batch_start).exceeds(Uint512::from_u64(u64::MAX)))
        },
        None => true,
    }
}

/// What came of a batch, from what the kernel left in the results buffer.
pub fn conclude_batch(plan: &DispatchPlan, batch_start: Uint512, data: &[u8]) -> (result:
    BatchResult)
    requires
        results_fit(*plan, batch_start@, data@),
    ensures
        match result {
            BatchResult::Found { candidate, hash_count } => {
                &&& flag_set(data@)
                &&& candidate.wf()
                &&& candidate.nonce@ == nonce_field(data@)
                &&& candidate.hash@ == hash_field(data@)
                &&& hash_count == plan.hashes_until(batch_start@, nonce_field(data@))
                &&& candidate.work@ == data@.subrange(4, 68).reverse()
                &&& le_bytes(candidate.nonce@, 64) == data@.subrange(4, 68)
                &&& le_bytes(candidate.hash@, 64) == data@.subrange(68, 132)
            },
            BatchResult::NotFound { hash_count } => {
                &&& !flag_set(data@)
                &&& hash_count == plan.dispatched()
                &&& data@.take(4) == seq![0u8, 0u8, 0u8, 0u8]
            },
        },
{
    match read_results(data) {
        Some(solution) => {
            let hash_count: u64 = plan.hashes_computed(batch_start, solution.nonce);
            BatchResult::Found { candidate: Candidate::from_solution(solution), hash_count }
        },
        None => BatchResult::NotFound { hash_count: plan.dispatched_nonces() },
    }
}

/// A batch is laid out in whole workgroups, at least one, and in no more of them than the device
/// prefers or allows.
pub proof fn law_plan_stays_within_the_device(
    optimal_workgroups: u32,
    max_workgroups: u32,
    batch_size: u64,
)
    requires
        plan_fits(optimal_workgroups, max_workgroups, batch_size),
    ensures
        ({
            let plan = dispatch_plan(optimal_workgroups, max_workgroups, batch_size);
            &&& plan.total_threads == plan.num_workgroups * THREADS_PER_WORKGROUP
            &&& 1 <= plan.num_workgroups
            &&& plan.num_workgroups <= larger(optimal_workgroups as int, 1)
            &&& plan.num_workgroups <= larger(max_workgroups as int, 1)
        }),
{
}

/// Every nonce of a batch is dispatched as long as a thread's share is a 32-bit number, and no
/// thread's share is larger than needed.
pub proof fn law_plan_covers_the_batch(
    optimal_workgroups: u32,
    max_workgroups: u32,
    batch_size: u64,
)
    requires
        plan_fits(optimal_workgroups, max_workgroups, batch_size),
        quotient_up(
            batch_size as int,
            planned_workgroups(optimal_workgroups, max_workgroups, batch_size)
                * THREADS_PER_WORKGROUP,
        ) <= u32::MAX,
    ensures
        ({
            let plan = dispatch_plan(optimal_workgroups, max_workgroups, batch_size);
            &&& plan.dispatched() == batch_size
            &&& plan.nonces_per_thread >= 1
            &&& plan.nonces_per_thread > 1 ==> plan.total_threads * (plan.nonces_per_thread - 1)
                < batch_size
        }),
{
    let plan = dispatch_plan(optimal_workgroups, max_workgroups, batch_size);
    let threads = plan.total_threads as int;
    lemma_quotient_up(batch_size as int, threads);
    let share = quotient_up(batch_size as int, threads);
    assert(share * threads == threads * share) by (nonlinear_arith);
    assert((share - 1) * threads == threads * (share - 1)) by (nonlinear_arith);
    assert(plan.nonces_per_thread == larger(share, 1));
    let count = plan.nonces_per_thread as int;
    assert(threads * count >= batch_size) by (nonlinear_arith)
        requires
            share * threads >= batch_size,
            count >= share,
            threads >= 0,
    ;
}

/// A batch whose size is a 32-bit number is dispatched whole, and the kernel is told its exact size.
pub proof fn law_word_sized_batch_is_covered(
    optimal_workgroups: u32,
    max_workgroups: u32,
    batch_size: u64,
)
    requires
        plan_fits(optimal_workgroups, max_workgroups, batch_size),
        batch_size <= u32::MAX,
    ensures
        dispatch_plan(optimal_workgroups, max_workgroups, batch_size).dispatched() == batch_size,
        low_word(batch_size as int) == batch_size,
{
    let plan = dispatch_plan(optimal_workgroups, max_workgroups, batch_size);
    lemma_quotient_up(batch_size as int, plan.total_threads as int);
    law_plan_covers_the_batch(optimal_workgroups, max_workgroups, batch_size);
}

/// A batch never counts more hashes than it has nonces, whatever came of it; and it counts at least
/// one, for a find and for a miss, if it has nonces, threads, and nonces for each thread.
pub proof fn law_hash_count_within_the_batch(plan: DispatchPlan, batch_start: nat, nonce: nat)
    requires
        nonce >= batch_start ==> plan.nonces_per_thread > 0,
    ensures
        0 <= plan.dispatched() <= plan.batch_size,
        0 <= plan.hashes_until(batch_start, nonce) <= plan.dispatched(),
        plan.total_threads > 0 && plan.nonces_per_thread > 0 && plan.batch_size > 0 ==> {
            &&& 1 <= plan.dispatched()
            &&& 1 <= plan.hashes_until(batch_start, nonce)
        },
{
    let a = plan.total_threads as int;
    let b = plan.nonces_per_thread as int;
    assert(0 <= a * b && (a > 0 && b > 0 ==> 1 <= a * b)) by (nonlinear_arith)
        requires
            0 <= a,
            0 <= b,
    ;
    if nonce >= batch_start {
        let step = (nonce - batch_start) % b + 1;
        assert(0 <= a * step && (a > 0 ==> 1 <= a * step)) by (nonlinear_arith)
            requires
                0 <= a,
                1 <= step,
        ;
    }
}

/// The work of a candidate, read as a number with the most significant byte first, is its nonce.
pub proof fn law_work_reads_back_as_the_nonce(candidate: Candidate)
    requires
        candidate.wf(),
    ensures
        candidate.work@.len() == 64,
        le_value(candidate.work@.reverse()) == candidate.nonce@,
{
    lemma_at_most_max(candidate.nonce);
    law_bytes_of_a_number_read_back(candidate.nonce@, 64);
    assert(candidate.work@.reverse() =~= le_bytes(candidate.nonce@, 64));
}

/// The threads of a plan are whole workgroups of 256, just enough for the threads that are wanted:
/// one per nonce of the batch, up to 256 for each workgroup that the device prefers (at least one)
/// and allows, and at least one in all. Only the low 32 bits of that number count.
pub proof fn law_plan_has_just_enough_threads(
    optimal_workgroups: u32,
    max_workgroups: u32,
    batch_size: u64,
)
    ensures
        ({
            let preferred = if optimal_workgroups == 0 {
                1int
            } else {
                optimal_workgroups as int
            };
            let allowed = if preferred <= max_workgroups {
                preferred
            } else {
                max_workgroups as int
            };
            let wanted = if batch_size == 0 || allowed == 0 {
                1int
            } else if batch_size <= 256 * allowed {
                batch_size as int
            } else {
                256 * allowed
            };
            let counted = wanted % 0x1_0000_0000;
            let plan = dispatch_plan(optimal_workgroups, max_workgroups, batch_size);
            &&& plan_fits(optimal_workgroups, max_workgroups, batch_size) <==> counted
                <= 0xffff_ff00
            &&& counted <= 0xffff_ff00 ==> {
                &&& plan.batch_size == batch_size
                &&& plan.total_threads == 256 * plan.num_workgroups
                &&& counted <= plan.total_threads
                &&& counted > 0 ==> plan.total_threads < counted + 256
                &&& counted == 0 ==> plan.num_workgroups == 1
            }
        }),
{
}

/// On a device that allows less than 2^24 workgroups, a batch that can keep all preferred and
/// allowed workgroups busy gets them all; a smaller one gets less than a workgroup more than it has
/// nonces.
pub proof fn law_batch_gets_the_workgroups_it_can_use(
    optimal_workgroups: u32,
    max_workgroups: u32,
    batch_size: u64,
)
    requires
        1 <= optimal_workgroups,
        1 <= max_workgroups < 0x100_0000,
        1 <= batch_size,
    ensures
        ({
            let plan = dispatch_plan(optimal_workgroups, max_workgroups, batch_size);
            &&& plan_fits(optimal_workgroups, max_workgroups, batch_size)
            &&& plan.num_workgroups <= optimal_workgroups
            &&& plan.num_workgroups <= max_workgroups
            &&& batch_size <= plan.total_threads < batch_size + 256 || plan.num_workgroups
                == optimal_workgroups || plan.num_workgroups == max_workgroups
            &&& plan.total_threads < batch_size + 256
        }),
{
}

/// The threads of a plan try every nonce of the batch, and with one nonce less per thread they
/// would not. (Each thread's share must be a 32-bit number.)
pub proof fn law_plan_tries_every_nonce(
    optimal_workgroups: u32,
    max_workgroups: u32,
    batch_size: u64,
)
    requires
        plan_fits(optimal_workgroups, max_workgroups, batch_size),
        batch_size <= dispatch_plan(optimal_workgroups, max_workgroups, batch_size).total_threads
            * 0xffff_ffff,
    ensures
        ({
            let plan = dispatch_plan(optimal_workgroups, max_workgroups, batch_size);
            &&& plan.total_threads * plan.nonces_per_thread >= batch_size
            &&& plan.nonces_per_thread >= 1
            &&& plan.nonces_per_thread > 1 ==> plan.total_threads * (plan.nonces_per_thread - 1)
                < batch_size
        }),
{
    let plan = dispatch_plan(optimal_workgroups, max_workgroups, batch_size);
    let threads = plan.total_threads as int;
    law_share_of_a_thread(optimal_workgroups, max_workgroups, batch_size);
    let q = choose|q: int|
        {
            &&& 1 <= q
            &&& batch_size <= #[trigger] (threads * q)
            &&& q > 1 ==> threads * (q - 1) < batch_size
            &&& plan.nonces_per_thread == q % 0x1_0000_0000
        };
    assert(q <= 0xffff_ffff) by {
        if q > 0xffff_ffff {
            assert(threads * 0xffff_ffff <= threads * (q - 1)) by (nonlinear_arith)
                requires
                    0 <= threads,
                    0xffff_ffff <= q - 1,
            ;
        }
    }
}

/// A thread's share is the least number of nonces with which all threads together get through the
/// batch, and at least one; of it, the low 32 bits count.
pub proof fn law_share_of_a_thread(optimal_workgroups: u32, max_workgroups: u32, batch_size: u64)
    requires
        plan_fits(optimal_workgroups, max_workgroups, batch_size),
    ensures
        ({
            let plan = dispatch_plan(optimal_workgroups, max_workgroups, batch_size);
            exists|q: int|
                {
                    &&& 1 <= q
                    &&& batch_size <= #[trigger] (plan.total_threads * q)
                    &&& q > 1 ==> plan.total_threads * (q - 1) < batch_size
                    &&& plan.nonces_per_thread == q % 0x1_0000_0000
                }
        }),
{
    let plan = dispatch_plan(optimal_workgroups, max_workgroups, batch_size);
    let threads = plan.total_threads as int;
    lemma_quotient_up(batch_size as int, threads);
    let share = quotient_up(batch_size as int, threads);
    let q = larger(share, 1);
    assert(share * threads == threads * share) by (nonlinear_arith);
    assert((share - 1) * threads == threads * (share - 1)) by (nonlinear_arith);
    if share < 1 {
        assert(share * threads == 0) by (nonlinear_arith)
            requires
                share == 0,
        ;
    }
    assert(batch_size <= threads * q);
}

/// A batch in which nothing was found counts each nonce that its threads have tried, and none
/// beyond the batch.
pub proof fn law_miss_counts_the_tried_nonces(plan: DispatchPlan)
    ensures
        plan.dispatched() == if plan.total_threads * plan.nonces_per_thread <= plan.batch_size {
            plan.total_threads * plan.nonces_per_thread
        } else {
            plan.batch_size as int
        },
{
}

/// The hashes counted for a nonce that thread `t` found in step `s` (both from zero) are those of
/// `s + 1` steps of all threads, as far as the batch has them. The thread makes no difference.
pub proof fn law_find_counts_the_steps_of_all_threads(
    plan: DispatchPlan,
    batch_start: nat,
    t: nat,
    s: nat,
)
    requires
        s < plan.nonces_per_thread,
    ensures
        ({
            let count = plan.hashes_until(
                batch_start,
                (batch_start + t * plan.nonces_per_thread + s) as nat,
            );
            &&& count <= plan.total_threads * (s + 1)
            &&& count <= plan.total_threads * plan.nonces_per_thread
            &&& count <= plan.batch_size
            &&& count == plan.total_threads * (s + 1) || count == plan.total_threads
                * plan.nonces_per_thread || count == plan.batch_size
            &&& count == plan.hashes_until(batch_start, batch_start + s)
        }),
{
    let n = plan.nonces_per_thread as int;
    let offset = t * n + s;
    assert(offset % n == s && 0 <= t * n) by (nonlinear_arith)
        requires
            offset == t * n + s,
            0 <= s < n,
            0 <= t,
    ;
    assert(s as int % n == s) by (nonlinear_arith)
        requires
            0 <= s < n,
    ;
    assert(batch_start + t * plan.nonces_per_thread + s - batch_start == offset);
}

/// A nonce from before the batch counts as a miss does.
pub proof fn law_find_before_the_batch_counts_as_a_miss(
    plan: DispatchPlan,
    batch_start: nat,
    nonce: nat,
)
    requires
        nonce < batch_start,
    ensures
        plan.hashes_until(batch_start, nonce) == if plan.total_threads * plan.nonces_per_thread
            <= plan.batch_size {
            plan.total_threads * plan.nonces_per_thread
        } else {
            plan.batch_size as int
        },
{
}

/// The results of a batch fit it unless the buffer is of the wrong size, or the flag is set for a
/// nonce that is 2^64 or more beyond the start, or is not before it while the threads have no
/// nonces to try.
pub proof fn law_which_results_fit(plan: DispatchPlan, batch_start: nat, data: Seq<u8>)
    ensures
        data.len() != 132 ==> !results_fit(plan, batch_start, data),
        data.len() == 132 && data.take(4) == seq![0u8, 0u8, 0u8, 0u8] ==> results_fit(
            plan,
            batch_start,
            data,
        ),
        data.len() == 132 && data.take(4) != seq![0u8, 0u8, 0u8, 0u8] ==> (results_fit(
            plan,
            batch_start,
            data,
        ) <==> {
            ||| le_value(data.subrange(4, 68)) < batch_start
            ||| le_value(data.subrange(4, 68)) < batch_start + 0x1_0000_0000_0000_0000
                && plan.nonces_per_thread > 0
        }),
{
    if data.len() == 132 {
        crate::device_memory::law_flag_is_set_by_any_byte(data);
    }
}

/// What `plan_dispatch` returns: whole workgroups of 256 threads, which try every nonce of the batch
/// as long as a thread's share is a 32-bit number, and would not with one nonce less per thread.
pub proof fn law_planned_threads_try_every_nonce(
    optimal_workgroups: u32,
    max_workgroups: u32,
    batch_size: u64,
    plan: DispatchPlan,
)
    requires
        plan_fits(optimal_workgroups, max_workgroups, batch_size),
        call_ensures(plan_dispatch, (optimal_workgroups, max_workgroups, batch_size), plan),
    ensures
        plan == dispatch_plan(optimal_workgroups, max_workgroups, batch_size),
        plan.batch_size == batch_size,
        plan.total_threads == 256 * plan.num_workgroups,
        plan.num_workgroups >= 1,
        batch_size <= plan.total_threads * 0xffff_ffff ==> {
            &&& plan.total_threads * plan.nonces_per_thread >= batch_size
            &&& plan.nonces_per_thread >= 1
            &&& plan.nonces_per_thread > 1 ==> plan.total_threads * (plan.nonces_per_thread - 1)
                < batch_size
        },
{
    if batch_size <= plan.total_threads * 0xffff_ffff {
        law_plan_tries_every_nonce(optimal_workgroups, max_workgroups, batch_size);
    }
}

/// `can_plan` tells whether the batch can be laid out.
pub proof fn law_can_plan_tells_what_fits(
    optimal_workgroups: u32,
    max_workgroups: u32,
    batch_size: u64,
    fits: bool,
)
    requires
        call_ensures(can_plan, (optimal_workgroups, max_workgroups, batch_size), fits),
    ensures
        fits == plan_fits(optimal_workgroups, max_workgroups, batch_size),
{
}

/// The kernel is told the threads, the nonces per thread, and the batch size less all whole
/// multiples of 2^32.
pub proof fn law_config_of_a_plan(plan: DispatchPlan, config: [u32; 3])
    requires
        call_ensures(DispatchPlan::config, (&plan,), config),
    ensures
        config@[0] == plan.total_threads,
        config@[1] == plan.nonces_per_thread,
        config@[2] == plan.batch_size % 0x1_0000_0000,
{
}

/// A miss in a planned batch counts the product of threads and nonces per thread, and no more than
/// the batch; that is the whole batch where a thread's share is a 32-bit number.
pub proof fn law_miss_counts_the_planned_batch(
    optimal_workgroups: u32,
    max_workgroups: u32,
    batch_size: u64,
    plan: DispatchPlan,
    count: u64,
)
    requires
        plan_fits(optimal_workgroups, max_workgroups, batch_size),
        call_ensures(plan_dispatch, (optimal_workgroups, max_workgroups, batch_size), plan),
        call_ensures(DispatchPlan::dispatched_nonces, (&plan,), count),
    ensures
        count <= batch_size,
        count <= plan.total_threads * plan.nonces_per_thread,
        count == batch_size || count == plan.total_threads * plan.nonces_per_thread,
        batch_size <= plan.total_threads * 0xffff_ffff ==> count == batch_size,
{
    law_planned_threads_try_every_nonce(optimal_workgroups, max_workgroups, batch_size, plan);
}

/// What `hashes_computed` returns for a nonce that thread `t` found in step `s` (both from zero):
/// the hashes of `s + 1` steps of all threads, as far as the threads and the batch have them.
pub proof fn law_hashes_computed_by_step(
    plan: DispatchPlan,
    batch_start: Uint512,
    nonce: Uint512,
    t: nat,
    s: nat,
    count: u64,
)
    requires
        s < plan.nonces_per_thread,
        nonce@ == batch_start@ + t * plan.nonces_per_thread + s,
        call_ensures(DispatchPlan::hashes_computed, (&plan, batch_start, nonce), count),
    ensures
        count <= plan.total_threads * (s + 1),
        count <= plan.total_threads * plan.nonces_per_thread,
        count <= plan.batch_size,
        count == plan.total_threads * (s + 1) || count == plan.total_threads
            * plan.nonces_per_thread || count == plan.batch_size,
{
    law_find_counts_the_steps_of_all_threads(plan, batch_start@, t, s);
    assert(t * plan.nonces_per_thread >= 0) by (nonlinear_arith);
    assert(nonce@ == (batch_start@ + t * plan.nonces_per_thread + s) as nat);
}

/// Two nonces that different threads found in the same step are counted alike.
pub proof fn law_same_step_same_count(
    plan: DispatchPlan,
    batch_start: nat,
    t: nat,
    u: nat,
    s: nat,
)
    requires
        s < plan.nonces_per_thread,
    ensures
        plan.hashes_until(batch_start, (batch_start + t * plan.nonces_per_thread + s) as nat)
            == plan.hashes_until(
            batch_start,
            (batch_start + u * plan.nonces_per_thread + s) as nat,
        ),
{
    law_find_counts_the_steps_of_all_threads(plan, batch_start, t, s);
    law_find_counts_the_steps_of_all_threads(plan, batch_start, u, s);
}

/// What `conclude_batch` makes of the results that the kernel left: with the flag clear, a miss
/// with the count of a miss; else a find with the nonce and the hash that were written, the work
/// being the bytes of the nonce in reverse.
pub proof fn law_concluded_batch(
    plan: DispatchPlan,
    batch_start: Uint512,
    data: &[u8],
    result: BatchResult,
)
    requires
        results_fit(plan, batch_start@, data@),
        call_ensures(conclude_batch, (&plan, batch_start, data), result),
    ensures
        result is NotFound <==> data@.take(4) == seq![0u8, 0u8, 0u8, 0u8],
        result matches BatchResult::NotFound { hash_count } ==> {
            &&& hash_count <= plan.batch_size
            &&& hash_count <= plan.total_threads * plan.nonces_per_thread
            &&& hash_count == plan.batch_size || hash_count == plan.total_threads
                * plan.nonces_per_thread
        },
        result matches BatchResult::Found { candidate, hash_count } ==> {
            &&& le_bytes(candidate.nonce@, 64) == data@.subrange(4, 68)
            &&& le_bytes(candidate.hash@, 64) == data@.subrange(68, 132)
            &&& candidate.work@ == data@.subrange(4, 68).reverse()
            &&& hash_count == plan.hashes_until(batch_start@, candidate.nonce@)
        },
{
    crate::device_memory::law_flag_is_set_by_any_byte(data@);
}

/// `can_conclude` tells whether the results can be those of the batch.
pub proof fn law_can_conclude_tells_what_fits(
    plan: DispatchPlan,
    batch_start: Uint512,
    data: &[u8],
    fits: bool,
)
    requires
        call_ensures(can_conclude, (&plan, batch_start, data), fits),
    ensures
        fits == results_fit(plan, batch_start@, data@),
{
}

/// The work of a candidate has, from the end, the nonce's digits in base 256.
pub proof fn law_work_has_the_digits_of_the_nonce(candidate: Candidate, i: nat)
    requires
        candidate.wf(),
        i < 64,
    ensures
        candidate.work@.len() == 64,
        candidate.work@[63 - i] == (candidate.nonce@ / pow2(8 * i)) % 256,
{
    crate::uint512::law_byte_of_a_number(candidate.nonce@, 64, i);
}

/// The candidate for a solution has its nonce and its hash, and the bytes of the nonce, most
/// significant first, as the work.
pub proof fn law_candidate_of_a_solution(solution: Solution, candidate: Candidate)
    requires
        call_ensures(Candidate::from_solution, (solution,), candidate),
    ensures
        candidate.nonce == solution.nonce,
        candidate.hash == solution.hash,
        candidate.work@ == le_bytes(solution.nonce@, 64).reverse(),
{
}

} // verus!
