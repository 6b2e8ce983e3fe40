use engine_gpu::adapter::{AdapterInfo, Backend, DeviceType};
use engine_gpu::tuning::{get_vendor_specific_dispatch, tune};

fn tuned(name: &str, vendor: u32, backend: Backend, limit: u32) -> (u32, &'static str, bool) {
    let info = AdapterInfo {
        name: name.to_string(),
        vendor,
        device: 0,
        device_type: DeviceType::DiscreteGpu,
        backend,
    };
    let t = get_vendor_specific_dispatch(&info, limit);
    (t.workgroups, t.tier, t.is_fallback)
}

fn vulkan(name: &str) -> (u32, &'static str, bool) {
    tuned(name, 0, Backend::Vulkan, 65535)
}

#[test]
fn nvidia_models() {
    assert_eq!(vulkan("NVIDIA GeForce RTX 5090"), (10922, "NVIDIA RTX 50 Flagship (Blackwell)", false));
    assert_eq!(vulkan("NVIDIA GeForce RTX 5070 Ti"), (9362, "NVIDIA RTX 50 (Blackwell)", false));
    assert_eq!(vulkan("NVIDIA GeForce RTX 4090"), (8191, "NVIDIA RTX 40 Flagship (Ada)", false));
    assert_eq!(vulkan("NVIDIA GeForce RTX 4060"), (6553, "NVIDIA RTX 40 (Ada)", false));
    assert_eq!(vulkan("NVIDIA GeForce RTX 3080"), (5461, "NVIDIA RTX 30/20 (Ampere/Turing)", false));
    assert_eq!(vulkan("NVIDIA GeForce GTX 1660"), (4095, "NVIDIA GTX 16/10 (Turing/Pascal)", false));
    assert_eq!(vulkan("NVIDIA GeForce GTX 970"), (3640, "NVIDIA GTX (Legacy)", false));
    assert_eq!(vulkan("NVIDIA Quadro P400"), (6553, "NVIDIA Quadro/Professional", false));
    assert_eq!(vulkan("NVIDIA Thing"), (3276, "NVIDIA Unknown", true));
}

#[test]
fn amd_models() {
    assert_eq!(vulkan("AMD Radeon RX 9070"), (8191, "AMD RX 9000 (RDNA 4)", false));
    assert_eq!(vulkan("AMD Radeon RX 7900 XTX"), (7281, "AMD RX 7900 (RDNA 3 Flagship)", false));
    assert_eq!(vulkan("AMD Radeon RX 7600"), (6553, "AMD RX 7000 (RDNA 3)", false));
    assert_eq!(vulkan("AMD Radeon RX 6800"), (5461, "AMD RX 6900/6800 (RDNA 2 Flagship)", false));
    assert_eq!(vulkan("AMD Radeon RX 6600"), (4681, "AMD RX 6000 (RDNA 2)", false));
    assert_eq!(vulkan("AMD Radeon RX 5700"), (4095, "AMD RX 5700 (RDNA 1)", false));
    assert_eq!(vulkan("AMD Radeon RX 5500"), (3640, "AMD RX 5000 (RDNA 1)", false));
    assert_eq!(vulkan("Radeon RX 480"), (3276, "AMD RX 500/400 (Polaris)", false));
    assert_eq!(vulkan("AMD Instinct"), (6553, "AMD Radeon Pro/Instinct", false));
    assert_eq!(vulkan("AMD Thing"), (2730, "AMD Unknown", true));
}

#[test]
fn intel_models() {
    assert_eq!(vulkan("Intel(R) Arc B580"), (6553, "Intel Arc B-Series (Battlemage)", false));
    assert_eq!(vulkan("Intel(R) Arc A770"), (5461, "Intel Arc A7 (Alchemist)", false));
    assert_eq!(vulkan("Intel(R) Arc A380"), (4095, "Intel Arc A5/A3 (Alchemist)", false));
    assert_eq!(vulkan("Intel(R) A310"), (3276, "Intel Arc A3 Entry", false));
    assert_eq!(vulkan("Intel(R) Iris Xe"), (2730, "Intel Iris Xe/Plus (Integrated)", false));
    assert_eq!(vulkan("Intel UHD Graphics"), (2340, "Intel UHD/HD Graphics (Integrated)", false));
    assert_eq!(vulkan("Intel Thing"), (2730, "Intel Unknown", true));
}

#[test]
fn apple_models() {
    let models = [
        ("Apple M4 Ultra", 1600),
        ("Apple M4 Max", 800),
        ("Apple M4 Pro", 400),
        ("Apple M4", 200),
        ("Apple M3 Ultra", 1520),
        ("Apple M3 Max", 800),
        ("Apple M3 Pro", 360),
        ("Apple M3", 200),
        ("Apple M2 Ultra", 1520),
        ("Apple M2 Max", 760),
        ("Apple M2 Pro", 380),
        ("Apple M2", 200),
        ("Apple M1 Ultra", 1280),
        ("Apple M1 Max", 640),
        ("Apple M1 Pro", 320),
        ("Apple M1", 160),
    ];
    for (name, workgroups) in models {
        assert_eq!(tuned(name, 0, Backend::Metal, 65535), (workgroups, name, false));
    }
    assert_eq!(
        tuned("Apple M9", 0, Backend::Metal, 65535),
        (160, "Apple Silicon Unknown", true)
    );
}

#[test]
fn apple_counts_stay_within_a_quarter_and_above_the_floor() {
    assert_eq!(tuned("Apple M4 Ultra", 0, Backend::Metal, 1000).0, 250);
    assert_eq!(tuned("Apple M4 Ultra", 0, Backend::Metal, 100).0, 64);
    assert_eq!(tuned("Apple M4 Ultra", 0, Backend::Metal, 0).0, 64);
}

#[test]
fn unknown_maker_gets_a_conservative_share() {
    assert_eq!(vulkan("Some GPU"), (4095, "Unknown GPU", true));
    assert_eq!(tuned("Some GPU", 0, Backend::Vulkan, 1000), (512, "Unknown GPU", true));
}

#[test]
fn vendor_ids_tell_the_maker() {
    assert_eq!(tuned("GPU", 4318, Backend::Vulkan, 65535).1, "NVIDIA Unknown");
    assert_eq!(tuned("GPU", 4098, Backend::Vulkan, 65535).1, "AMD Unknown");
    assert_eq!(tuned("GPU", 32902, Backend::Vulkan, 65535).1, "Intel Unknown");
    assert_eq!(tuned("GPU", 32902, Backend::Metal, 65535).1, "Intel Unknown");
}

#[test]
fn names_beat_vendor_ids_in_the_order_of_makers() {
    assert_eq!(tuned("nvidia on amd", 4098, Backend::Vulkan, 65535).1, "NVIDIA Unknown");
    assert_eq!(tuned("intel radeon", 32902, Backend::Vulkan, 65535).1, "AMD Unknown");
}

#[test]
fn floors_hold_on_small_devices() {
    assert_eq!(tuned("NVIDIA RTX 5090", 0, Backend::Vulkan, 600).0, 5120);
    assert_eq!(tuned("Intel UHD", 0, Backend::Vulkan, 0).0, 256);
}

#[test]
fn limits_above_the_cap_make_no_difference() {
    for limit in [65535, 65536, u32::MAX] {
        assert_eq!(tuned("NVIDIA RTX 4090", 0, Backend::Vulkan, limit).0, 8191);
    }
}

#[test]
fn names_are_matched_in_lower_case() {
    assert_eq!(tune("NVIDIA RTX 4090", 0, Backend::Vulkan, 65535).tier, "Unknown GPU");
    assert_eq!(
        tune("nvidia rtx 4090", 0, Backend::Vulkan, 65535).tier,
        "NVIDIA RTX 40 Flagship (Ada)"
    );
    assert_eq!(vulkan("nViDiA rTx 4090").1, "NVIDIA RTX 40 Flagship (Ada)");
}

#[test]
fn letter_case_makes_no_difference() {
    for name in ["NVIDIA GeForce GTX 980", "AMD Radeon RX 580", "Intel(R) Iris(R) Xe", "[Some] GPU_`{Z"] {
        let given = vulkan(name);
        assert_eq!(vulkan(&name.to_lowercase()), given);
        assert_eq!(vulkan(&name.to_uppercase()), given);
    }
}

#[test]
fn no_device_gets_more_than_a_sixth_of_the_cap() {
    assert_eq!(tuned("NVIDIA RTX 5090", 0, Backend::Vulkan, u32::MAX).0, 10922);
}
