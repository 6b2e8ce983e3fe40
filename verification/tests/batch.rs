use engine_gpu::batch::{
    can_conclude, can_plan, conclude_batch, plan_dispatch, BatchResult, DispatchPlan,
};
use engine_gpu::uint512::Uint512;
use primitive_types::U512;

fn number(n: u64) -> Uint512 {
    Uint512 { limbs: U512::from(n).0 }
}

fn results(flag: u8, nonce: u64, hash: u64) -> Vec<u8> {
    let mut data: Vec<u8> = vec![flag, 0, 0, 0];
    data.extend_from_slice(&U512::from(nonce).to_little_endian());
    data.extend_from_slice(&U512::from(hash).to_little_endian());
    data
}

#[test]
fn large_batch_uses_all_hinted_workgroups() {
    let plan = plan_dispatch(4, 65535, 10_000);
    assert_eq!(
        plan,
        DispatchPlan { num_workgroups: 4, total_threads: 1024, nonces_per_thread: 10, batch_size: 10_000 }
    );
    assert_eq!(plan.config(), [1024, 10, 10_000]);
    assert_eq!(plan.dispatched_nonces(), 10_000);
}

#[test]
fn small_batch_uses_as_few_workgroups_as_it_needs() {
    assert_eq!(plan_dispatch(100, 65535, 257).num_workgroups, 2);
    assert_eq!(plan_dispatch(100, 65535, 256).num_workgroups, 1);
    assert_eq!(plan_dispatch(100, 65535, 1).num_workgroups, 1);
}

#[test]
fn device_limit_caps_the_workgroups() {
    assert_eq!(plan_dispatch(1000, 8, 1 << 30).num_workgroups, 8);
    assert_eq!(plan_dispatch(0, 8, 1 << 30).num_workgroups, 1);
    assert_eq!(plan_dispatch(5, 0, 1 << 30).num_workgroups, 1);
}

#[test]
fn empty_batch_still_plans_one_workgroup() {
    let plan = plan_dispatch(4, 4, 0);
    assert_eq!(plan.num_workgroups, 1);
    assert_eq!(plan.nonces_per_thread, 1);
    assert_eq!(plan.dispatched_nonces(), 0);
}

#[test]
fn large_batch_size_is_passed_as_its_low_word() {
    let plan = plan_dispatch(1, 1, (1u64 << 32) + 5);
    assert_eq!(plan.config()[2], 5);
    assert_eq!(plan.total_threads, 256);
    assert_eq!(plan.nonces_per_thread, (1 << 24) + 1);
    assert_eq!(plan.dispatched_nonces(), (1u64 << 32) + 5);
}

#[test]
fn share_beyond_a_word_loses_its_high_part() {
    let plan = plan_dispatch(1, 1, 256 * ((1u64 << 32) + 3));
    assert_eq!(plan.nonces_per_thread, 3);
    assert_eq!(plan.dispatched_nonces(), 768);
}

#[test]
fn thread_count_must_be_a_word() {
    assert!(can_plan(65535, 65535, u64::MAX));
    assert!(!can_plan(u32::MAX, u32::MAX, u32::MAX as u64));
    assert!(can_plan(u32::MAX, u32::MAX, u32::MAX as u64 - 255));
    assert!(can_plan(u32::MAX, u32::MAX, 1u64 << 32));
    assert_eq!(plan_dispatch(u32::MAX, u32::MAX, 1u64 << 32).num_workgroups, 1);
}

#[test]
fn miss_counts_all_dispatched_nonces() {
    let plan = plan_dispatch(4, 65535, 10_000);
    let result = conclude_batch(&plan, number(5), &results(0, 77, 88));
    assert_eq!(result, BatchResult::NotFound { hash_count: 10_000 });
}

#[test]
fn find_counts_the_steps_of_all_threads() {
    let plan = plan_dispatch(4, 65535, 10_000);
    let result = conclude_batch(&plan, number(1_000), &results(1, 1_023, 9));
    match result {
        BatchResult::Found { candidate, hash_count } => {
            assert_eq!(candidate.nonce, number(1_023));
            assert_eq!(candidate.hash, number(9));
            assert_eq!(candidate.work, U512::from(1_023u64).to_big_endian());
            assert_eq!(hash_count, 4 * 1024);
        }
        BatchResult::NotFound { .. } => panic!("the flag is set"),
    }
}

#[test]
fn find_never_counts_more_than_the_batch() {
    let plan = plan_dispatch(4, 65535, 10_000);
    match conclude_batch(&plan, number(0), &results(1, 9, 0)) {
        BatchResult::Found { hash_count, .. } => assert_eq!(hash_count, 10_000),
        BatchResult::NotFound { .. } => panic!("the flag is set"),
    }
}

#[test]
fn nonce_before_the_batch_counts_the_whole_batch() {
    let plan = plan_dispatch(4, 65535, 10_000);
    match conclude_batch(&plan, number(50), &results(1, 49, 0)) {
        BatchResult::Found { hash_count, candidate } => {
            assert_eq!(hash_count, 10_000);
            assert_eq!(candidate.nonce, number(49));
        }
        BatchResult::NotFound { .. } => panic!("the flag is set"),
    }
}

#[test]
fn work_is_the_nonce_in_big_endian() {
    let plan = plan_dispatch(1, 1, 256);
    match conclude_batch(&plan, number(0), &results(1, 0x0102, 0)) {
        BatchResult::Found { candidate, .. } => {
            assert_eq!(candidate.work[63], 2);
            assert_eq!(candidate.work[62], 1);
            assert!(candidate.work[..62].iter().all(|b| *b == 0));
        }
        BatchResult::NotFound { .. } => panic!("the flag is set"),
    }
}

#[test]
fn results_must_fit_the_batch() {
    let plan = plan_dispatch(4, 65535, 10_000);
    assert!(can_conclude(&plan, number(1_000), &results(1, 1_023, 9)));
    assert!(can_conclude(&plan, number(1_000), &results(1, 5, 9)));
    assert!(can_conclude(&plan, number(0), &results(1, u64::MAX, 9)));
    assert!(!can_conclude(&plan, number(0), &results(0, 0, 0)[1..]));

    let far = U512::from(u64::MAX) + U512::one();
    let mut data: Vec<u8> = vec![1, 0, 0, 0];
    data.extend_from_slice(&far.to_little_endian());
    data.extend_from_slice(&far.to_little_endian());
    assert!(!can_conclude(&plan, number(0), &data));
    assert!(can_conclude(&plan, number(1), &data));
    data[0] = 0;
    assert!(can_conclude(&plan, number(0), &data));

    let idle = plan_dispatch(1, 1, 256 * (1u64 << 32));
    assert_eq!(idle.nonces_per_thread, 0);
    assert!(!can_conclude(&idle, number(5), &results(1, 5, 0)));
    assert!(can_conclude(&idle, number(5), &results(1, 4, 0)));
    assert!(can_conclude(&idle, number(5), &results(0, 5, 0)));
}

#[test]
fn every_batch_fits_a_tuned_device() {
    for batch_size in [0, 1, 10_000_000, u32::MAX as u64, u64::MAX] {
        assert!(can_plan(10922, u32::MAX, batch_size));
    }
}

#[test]
fn batch_with_nonces_counts_at_least_one_hash() {
    let plan = plan_dispatch(1, 1, 1);
    assert_eq!(conclude_batch(&plan, number(9), &results(0, 0, 0)), BatchResult::NotFound { hash_count: 1 });
    for nonce in [8, 9] {
        match conclude_batch(&plan, number(9), &results(1, nonce, 0)) {
            BatchResult::Found { hash_count, .. } => assert_eq!(hash_count, 1),
            BatchResult::NotFound { .. } => panic!("the flag is set"),
        }
    }
}
