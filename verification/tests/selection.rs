use engine_gpu::adapter::{backend_rank, device_type_rank, AdapterInfo, Backend, DeviceType};
use engine_gpu::selection::{select_adapter_indices, select_adapters, skip_reasons, SkipReason};

fn info(
    name: &str,
    device_type: DeviceType,
    backend: Backend,
    vendor: u32,
    device: u32,
) -> AdapterInfo {
    AdapterInfo {
        name: name.to_string(),
        vendor,
        device,
        device_type,
        backend,
    }
}

// Hybrid laptop: NVIDIA discrete + Intel integrated, both exposed on DX12 and Vulkan.
// Auto-detect must keep only the discrete GPU, on its preferred backend, once.
#[test]
fn auto_detect_prefers_discrete_and_dedupes_backends() {
    let infos = [
        info("Intel UHD Graphics", DeviceType::IntegratedGpu, Backend::Dx12, 0x8086, 0x1),
        info("Intel UHD Graphics", DeviceType::IntegratedGpu, Backend::Vulkan, 0x8086, 0x1),
        info("NVIDIA RTX 4090", DeviceType::DiscreteGpu, Backend::Dx12, 0x10DE, 0x2684),
        info("NVIDIA RTX 4090", DeviceType::DiscreteGpu, Backend::Vulkan, 0x10DE, 0x2684),
    ];
    let picked = select_adapter_indices(&infos, None);
    assert_eq!(picked.len(), 1, "auto-detect should pick exactly one device");
    let chosen = &infos[picked[0]];
    assert_eq!(chosen.device_type, DeviceType::DiscreteGpu);
    assert_eq!(chosen.backend, Backend::Vulkan);
}

// Explicit --gpu-devices 1 on a hybrid laptop must still pick the discrete GPU,
// not whichever happened to be first in enumeration order.
#[test]
fn explicit_one_device_picks_discrete_over_integrated() {
    let infos = [
        info("Intel UHD Graphics", DeviceType::IntegratedGpu, Backend::Vulkan, 0x8086, 0x1),
        info("NVIDIA RTX 4090", DeviceType::DiscreteGpu, Backend::Vulkan, 0x10DE, 0x2684),
    ];
    let picked = select_adapter_indices(&infos, Some(1));
    assert_eq!(picked.len(), 1);
    assert_eq!(infos[picked[0]].device_type, DeviceType::DiscreteGpu);
}

// Two discrete GPUs: auto-detect keeps both. Order is sort-stable but irrelevant.
#[test]
fn auto_detect_keeps_all_discrete() {
    let infos = [
        info("NVIDIA RTX 4090", DeviceType::DiscreteGpu, Backend::Vulkan, 0x10DE, 0x2684),
        info("AMD RX 7900 XTX", DeviceType::DiscreteGpu, Backend::Vulkan, 0x1002, 0x744C),
    ];
    let picked = select_adapter_indices(&infos, None);
    assert_eq!(picked.len(), 2);
    for &i in &picked {
        assert_eq!(infos[i].device_type, DeviceType::DiscreteGpu);
    }
}

// Integrated-only system (no discrete): auto-detect must still produce a working device.
#[test]
fn auto_detect_falls_back_to_integrated_when_no_discrete() {
    let infos = [info(
        "Intel UHD Graphics",
        DeviceType::IntegratedGpu,
        Backend::Vulkan,
        0x8086,
        0x1,
    )];
    let picked = select_adapter_indices(&infos, None);
    assert_eq!(picked.len(), 1);
}

// Software adapters (llvmpipe / WARP) must always be dropped: mining on them is useless.
#[test]
fn cpu_adapters_are_skipped() {
    let infos = [
        info("llvmpipe", DeviceType::Cpu, Backend::Vulkan, 0x10005, 0x0),
        info("NVIDIA RTX 4090", DeviceType::DiscreteGpu, Backend::Vulkan, 0x10DE, 0x2684),
    ];
    let picked = select_adapter_indices(&infos, None);
    assert_eq!(picked.len(), 1);
    assert_eq!(infos[picked[0]].device_type, DeviceType::DiscreteGpu);
}

// Explicit --gpu-devices N caps the result even with many physical GPUs available.
#[test]
fn explicit_caps_to_requested_count() {
    let infos = [
        info("NVIDIA RTX 4090 #1", DeviceType::DiscreteGpu, Backend::Vulkan, 0x10DE, 0x2684),
        info("NVIDIA RTX 4090 #2", DeviceType::DiscreteGpu, Backend::Vulkan, 0x10DE, 0x2685),
        info("Intel UHD Graphics", DeviceType::IntegratedGpu, Backend::Vulkan, 0x8086, 0x1),
    ];
    let picked = select_adapter_indices(&infos, Some(2));
    assert_eq!(picked.len(), 2);
    for &i in &picked {
        assert_eq!(infos[i].device_type, DeviceType::DiscreteGpu);
    }
}

#[test]
fn device_types_rank_from_discrete_to_software() {
    let order = [
        DeviceType::DiscreteGpu,
        DeviceType::VirtualGpu,
        DeviceType::IntegratedGpu,
        DeviceType::Other,
        DeviceType::Cpu,
    ];
    for (rank, t) in order.iter().enumerate() {
        assert_eq!(device_type_rank(*t) as usize, rank);
    }
}

#[test]
fn backends_rank_from_native_to_noop() {
    let order = [
        Backend::Metal,
        Backend::Vulkan,
        Backend::Dx12,
        Backend::Gl,
        Backend::BrowserWebGpu,
        Backend::Noop,
    ];
    for (rank, b) in order.iter().enumerate() {
        assert_eq!(backend_rank(*b) as usize, rank);
    }
}

#[test]
fn ranking_goes_by_type_then_backend_then_name_then_enumeration() {
    let infos = [
        info("Zeta", DeviceType::IntegratedGpu, Backend::Vulkan, 1, 1),
        info("beta", DeviceType::DiscreteGpu, Backend::Vulkan, 1, 2),
        info("Beta", DeviceType::DiscreteGpu, Backend::Vulkan, 1, 3),
        info("Bet", DeviceType::DiscreteGpu, Backend::Vulkan, 1, 4),
        info("Yota", DeviceType::DiscreteGpu, Backend::Metal, 1, 5),
        info("Beta", DeviceType::DiscreteGpu, Backend::Vulkan, 1, 6),
        info("Virt", DeviceType::VirtualGpu, Backend::Gl, 1, 7),
        info("Misc", DeviceType::Other, Backend::Metal, 1, 8),
    ];
    assert_eq!(
        select_adapter_indices(&infos, Some(usize::MAX)),
        vec![4, 3, 2, 5, 1, 6, 0, 7]
    );
    assert_eq!(select_adapter_indices(&infos, None), vec![4, 3, 2, 5, 1]);
}

#[test]
fn one_gpu_is_one_vendor_device_and_name() {
    let infos = [
        info("GPU", DeviceType::DiscreteGpu, Backend::Dx12, 1, 1),
        info("GPU", DeviceType::DiscreteGpu, Backend::Vulkan, 1, 1),
        info("GPU", DeviceType::DiscreteGpu, Backend::Vulkan, 2, 1),
        info("GPU", DeviceType::DiscreteGpu, Backend::Vulkan, 1, 2),
        info("GPU b", DeviceType::DiscreteGpu, Backend::Vulkan, 1, 1),
        info("GPU", DeviceType::DiscreteGpu, Backend::Vulkan, 1, 1),
    ];
    assert_eq!(select_adapter_indices(&infos, Some(10)), vec![1, 2, 3, 4]);
}

#[test]
fn without_discrete_gpu_the_single_best_is_taken() {
    let infos = [
        info("Other", DeviceType::Other, Backend::Metal, 1, 1),
        info("Integrated", DeviceType::IntegratedGpu, Backend::Vulkan, 1, 2),
        info("Virtual", DeviceType::VirtualGpu, Backend::Gl, 1, 3),
    ];
    assert_eq!(select_adapter_indices(&infos, None), vec![2]);
}

#[test]
fn nothing_is_selected_from_software_or_with_limit_zero() {
    let software = [info("llvmpipe", DeviceType::Cpu, Backend::Vulkan, 1, 0)];
    assert!(select_adapter_indices(&software, None).is_empty());
    assert!(select_adapter_indices(&software, Some(3)).is_empty());
    assert!(select_adapter_indices(&[], None).is_empty());
    let real = [info("GPU", DeviceType::DiscreteGpu, Backend::Vulkan, 1, 1)];
    assert!(select_adapter_indices(&real, Some(0)).is_empty());
}

#[test]
fn adapters_are_handed_out_in_rank_order() {
    let infos = [
        info("Integrated", DeviceType::IntegratedGpu, Backend::Vulkan, 1, 1),
        info("B", DeviceType::DiscreteGpu, Backend::Vulkan, 1, 2),
        info("A", DeviceType::DiscreteGpu, Backend::Vulkan, 1, 3),
    ];
    let adapters = vec!["integrated", "b", "a"];
    assert_eq!(select_adapters(&infos, adapters.clone(), None), vec!["a", "b"]);
    assert_eq!(
        select_adapters(&infos, adapters, Some(3)),
        vec!["a", "b", "integrated"]
    );
}

#[test]
fn names_order_by_code_point() {
    let infos = [
        info("\u{e9}", DeviceType::DiscreteGpu, Backend::Vulkan, 1, 1),
        info("z", DeviceType::DiscreteGpu, Backend::Vulkan, 1, 2),
        info("\u{1f600}", DeviceType::DiscreteGpu, Backend::Vulkan, 1, 3),
        info("", DeviceType::DiscreteGpu, Backend::Vulkan, 1, 4),
        info("\u{ffff}", DeviceType::DiscreteGpu, Backend::Vulkan, 1, 5),
    ];
    let mut expected: Vec<usize> = vec![0, 1, 2, 3, 4];
    expected.sort_by(|&a, &b| infos[a].name.cmp(&infos[b].name));
    assert_eq!(select_adapter_indices(&infos, None), expected);
}

fn mixed() -> Vec<AdapterInfo> {
    vec![
        info("Integrated", DeviceType::IntegratedGpu, Backend::Vulkan, 1, 1),
        info("Big", DeviceType::DiscreteGpu, Backend::Dx12, 1, 2),
        info("Big", DeviceType::DiscreteGpu, Backend::Vulkan, 1, 2),
        info("Also", DeviceType::DiscreteGpu, Backend::Vulkan, 1, 3),
        info("Virtual", DeviceType::VirtualGpu, Backend::Vulkan, 1, 4),
    ]
}

#[test]
fn larger_limits_only_append() {
    let infos = mixed();
    let all = select_adapter_indices(&infos, Some(10));
    assert_eq!(all, vec![3, 2, 4, 0]);
    for n in 0..=all.len() {
        assert_eq!(select_adapter_indices(&infos, Some(n)), all[..n].to_vec());
    }
    assert_eq!(select_adapter_indices(&infos, None), all[..2].to_vec());
}

#[test]
fn software_adapters_change_nothing() {
    let infos = mixed();
    for max in [None, Some(1), Some(3), Some(10)] {
        let plain = select_adapter_indices(&infos, max);
        for at in 0..=infos.len() {
            let mut more = infos.clone();
            more.insert(at, info("Big", DeviceType::Cpu, Backend::Metal, 1, 2));
            let moved: Vec<usize> = plain.iter().map(|&i| if i < at { i } else { i + 1 }).collect();
            assert_eq!(select_adapter_indices(&more, max), moved);
        }
    }
}

#[test]
fn passed_over_adapters_have_a_reason() {
    let mut infos = mixed();
    infos.push(info("llvmpipe", DeviceType::Cpu, Backend::Vulkan, 1, 5));
    assert_eq!(
        skip_reasons(&infos, None),
        vec![
            Some(SkipReason::NotDiscrete),
            Some(SkipReason::DuplicateGpu),
            None,
            None,
            Some(SkipReason::NotDiscrete),
            Some(SkipReason::Software),
        ]
    );
    assert_eq!(
        skip_reasons(&infos, Some(1)),
        vec![
            None,
            Some(SkipReason::DuplicateGpu),
            None,
            None,
            None,
            Some(SkipReason::Software),
        ]
    );
}
