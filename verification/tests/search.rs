use engine_gpu::batch::{BatchResult, Candidate};
use engine_gpu::search::{EngineStatus, FoundOrigin, Range, Search, SearchStep};
use engine_gpu::uint512::Uint512;
use primitive_types::U512;

fn number(n: U512) -> Uint512 {
    Uint512 { limbs: n.0 }
}

fn range(start: u64, end: u64) -> Range {
    Range { start: number(U512::from(start)), end: number(U512::from(end)) }
}

fn miss(hash_count: u64) -> BatchResult {
    BatchResult::NotFound { hash_count }
}

#[test]
fn range_is_searched_batch_by_batch_to_its_last_nonce() {
    let mut search = Search::new(range(10, 34), 10);
    let mut seen: Vec<(u64, u64)> = Vec::new();
    let status = loop {
        match search.next_step(false) {
            SearchStep::RunBatch { start, size } => {
                seen.push((U512(start.limbs).as_u64(), size));
                assert_eq!(search.record(miss(size)), None);
            }
            SearchStep::Finished(status) => break status,
        }
    };
    assert_eq!(seen, vec![(10, 10), (20, 10), (30, 5)]);
    assert_eq!(status, EngineStatus::Exhausted { hash_count: 25 });
    assert_eq!(search.batches(), 3);
    assert_eq!(search.total_hashes(), 25);
}

#[test]
fn single_nonce_range_is_one_batch() {
    let mut search = Search::new(range(7, 7), 1000);
    assert_eq!(
        search.next_step(false),
        SearchStep::RunBatch { start: number(U512::from(7u64)), size: 1 }
    );
    search.record(miss(1));
    assert_eq!(
        search.next_step(true),
        SearchStep::Finished(EngineStatus::Exhausted { hash_count: 1 })
    );
}

#[test]
fn cancelled_job_ends_before_the_next_batch() {
    let mut search = Search::new(range(0, 99), 10);
    search.record(miss(10));
    search.record(miss(8));
    assert_eq!(
        search.next_step(true),
        SearchStep::Finished(EngineStatus::Cancelled { hash_count: 18 })
    );
    assert_eq!(
        search.next_step(false),
        SearchStep::RunBatch { start: number(U512::from(20u64)), size: 10 }
    );
}

#[test]
fn find_ends_the_search_with_all_hashes_counted() {
    let mut search = Search::new(range(0, 99), 10);
    search.record(miss(10));
    let candidate = Candidate {
        nonce: number(U512::from(13u64)),
        work: U512::from(13u64).to_big_endian(),
        hash: number(U512::from(1u64)),
    };
    let status = search.record(BatchResult::Found { candidate, hash_count: 4 });
    assert_eq!(
        status,
        Some(EngineStatus::Found { candidate, hash_count: 14, origin: FoundOrigin::GpuG1 })
    );
}

#[test]
fn wide_ranges_have_full_batches() {
    let start = U512::from(1u64) << 400;
    let wide = Range { start: number(start), end: number(start + (U512::from(1u64) << 399)) };
    let mut search = Search::new(wide, u64::MAX);
    search.record(miss(0));
    assert_eq!(
        search.next_step(false),
        SearchStep::RunBatch { start: number(start + U512::from(u64::MAX)), size: u64::MAX }
    );
}

#[test]
fn whole_number_range_starts_with_a_full_batch() {
    let all = Range { start: number(U512::zero()), end: number(U512::MAX) };
    assert_eq!(
        Search::new(all, 4).next_step(false),
        SearchStep::RunBatch { start: number(U512::zero()), size: 4 }
    );
}

#[test]
fn range_to_the_greatest_number_stays_at_it() {
    let top = Range { start: number(U512::MAX - U512::from(5u64)), end: number(U512::MAX) };
    let mut search = Search::new(top, 4);
    search.record(miss(4));
    assert_eq!(
        search.next_step(false),
        SearchStep::RunBatch { start: number(U512::MAX - U512::from(1u64)), size: 2 }
    );
    search.record(miss(2));
    for _ in 0..3 {
        assert_eq!(
            search.next_step(false),
            SearchStep::RunBatch { start: number(U512::MAX), size: 1 }
        );
        search.record(miss(1));
    }
}

#[test]
fn empty_batches_make_no_progress() {
    let mut search = Search::new(range(3, 9), 0);
    for _ in 0..3 {
        assert_eq!(
            search.next_step(false),
            SearchStep::RunBatch { start: number(U512::from(3u64)), size: 0 }
        );
        search.record(miss(0));
    }
}

#[test]
fn progress_is_due_after_every_tenth_batch() {
    let mut search = Search::new(range(0, 1_000_000), 1);
    for n in 1..=30u64 {
        search.record(miss(1));
        assert_eq!(search.progress_due(), n % 10 == 0);
    }
}
