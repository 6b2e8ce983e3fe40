use engine_gpu::adapter::{AdapterInfo, Backend, DeviceType};
use engine_gpu::engine::{GpuEngine, InitError, SearchStart, WorkerState};
use engine_gpu::search::{EngineStatus, Range, SearchStep};
use engine_gpu::uint512::Uint512;
use primitive_types::U512;

fn info(name: &str, device_type: DeviceType, device: u32) -> AdapterInfo {
    AdapterInfo {
        name: name.to_string(),
        vendor: 0,
        device,
        device_type,
        backend: Backend::Vulkan,
    }
}

fn range(start: u64, end: u64) -> Range {
    Range {
        start: Uint512 { limbs: U512::from(start).0 },
        end: Uint512 { limbs: U512::from(end).0 },
    }
}

fn engine(devices: usize) -> GpuEngine {
    let mut infos: Vec<AdapterInfo> = Vec::new();
    let mut limits: Vec<u32> = Vec::new();
    for i in 0..devices {
        infos.push(info("NVIDIA RTX 4090", DeviceType::DiscreteGpu, i as u32));
        limits.push(65535);
    }
    GpuEngine::try_new(100, None, &infos, &limits).unwrap()
}

#[test]
fn no_adapter_is_an_error() {
    let error = GpuEngine::try_new(1, None, &[], &[]).unwrap_err();
    assert_eq!(error, InitError::NoAdapters);
    assert_eq!(error.message(), "No suitable GPU adapters found");
}

#[test]
fn no_usable_adapter_is_an_error() {
    let software = [info("llvmpipe", DeviceType::Cpu, 0)];
    let error = GpuEngine::try_new(1, None, &software, &[]).unwrap_err();
    assert_eq!(error, InitError::NoUsableAdapters);
    assert_eq!(error.message(), "No usable GPU adapters found");
    let real = [info("GPU", DeviceType::DiscreteGpu, 0)];
    assert_eq!(
        GpuEngine::try_new(1, Some(0), &real, &[]).unwrap_err(),
        InitError::NoUsableAdapters
    );
}

#[test]
fn each_selected_device_is_tuned_with_its_own_limit() {
    let infos = [
        info("Intel UHD Graphics", DeviceType::IntegratedGpu, 1),
        info("NVIDIA RTX 4090", DeviceType::DiscreteGpu, 2),
    ];
    let engine = GpuEngine::try_new(64, Some(5), &infos, &[65535, 280]).unwrap();
    assert_eq!(engine.device_count(), 2);
    assert_eq!(engine.batch_size(), 64);
    assert_eq!(engine.tuning(0).workgroups, 8191);
    assert_eq!(engine.tuning(1).workgroups, 256);
    assert_eq!(engine.tuning(1).tier, "Intel UHD/HD Graphics (Integrated)");
    assert_eq!(engine.name(), "gpu-wgpu");
}

#[test]
fn workers_get_the_devices_in_turn_and_keep_them() {
    let mut engine = engine(3);
    let mut workers: Vec<WorkerState<u8>> = (0..7).map(|_| WorkerState::new()).collect();
    let mut given: Vec<usize> = Vec::new();
    for worker in workers.iter_mut() {
        given.push(engine.assign_device(worker));
    }
    assert_eq!(given, vec![0, 1, 2, 0, 1, 2, 0]);
    for (worker, device) in workers.iter_mut().zip(&given) {
        assert_eq!(engine.assign_device(worker), *device);
    }
    assert_eq!(engine.assign_device(&mut WorkerState::<u8>::new()), 1);
}

#[test]
fn single_device_serves_all_workers() {
    let mut engine = engine(1);
    for _ in 0..4 {
        assert_eq!(engine.assign_device(&mut WorkerState::<u8>::new()), 0);
    }
}

#[test]
fn clearing_resources_keeps_the_device() {
    let mut engine = engine(2);
    engine.assign_device(&mut WorkerState::<&str>::new());
    let mut worker: WorkerState<&str> = WorkerState::new();
    assert_eq!(engine.assign_device(&mut worker), 1);
    assert!(worker.needs_resources());
    worker.keep_resources("buffers");
    assert!(!worker.needs_resources());
    GpuEngine::clear_worker_resources(&mut worker);
    assert!(worker.needs_resources());
    assert_eq!(worker.assigned_device, Some(1));
    assert_eq!(engine.assign_device(&mut worker), 1);
}

#[test]
fn inverted_range_is_exhausted_at_once() {
    let engine = engine(1);
    for cancelled in [false, true] {
        match engine.begin_search(range(5, 4), cancelled) {
            SearchStart::Finished(status) => {
                assert_eq!(status, EngineStatus::Exhausted { hash_count: 0 })
            }
            SearchStart::Started(_) => panic!("nothing to search"),
        }
    }
}

#[test]
fn cancelled_job_is_not_started() {
    match engine(1).begin_search(range(4, 5), true) {
        SearchStart::Finished(status) => {
            assert_eq!(status, EngineStatus::Cancelled { hash_count: 0 })
        }
        SearchStart::Started(_) => panic!("the job was cancelled"),
    }
}

#[test]
fn search_starts_with_the_engines_batch_size() {
    match engine(1).begin_search(range(4, 1000), false) {
        SearchStart::Started(search) => assert_eq!(
            search.next_step(false),
            SearchStep::RunBatch { start: range(4, 0).start, size: 100 }
        ),
        SearchStart::Finished(_) => panic!("there is a range to search"),
    }
}
