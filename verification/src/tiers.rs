//! The GPU models that the engine knows, and how many workgroups suit each.

use vstd::prelude::*;

verus! {

/// How many workgroups suit a model: a share of what the device allows, but at least a floor; or a
/// fixed number.
#[derive(Clone, Copy, Debug, PartialEq, Eq)]
pub enum Budget {
    Share { divisor: u32, floor: u32 },
    Fixed { workgroups: u32 },
}

/// A group of models: the words that tell it in a lower-case adapter name, its budget and its
/// label.
#[verifier::ext_equal]
pub ghost struct Tier {
    pub words: Seq<&'static str>,
    pub budget: Budget,
    pub label: &'static str,
}

/// A group of models, as data.
pub(crate) struct TierRule {
    pub(crate) words: Vec<&'static str>,
    pub(crate) budget: Budget,
    pub(crate) label: &'static str,
}

impl View for TierRule {
    type V = Tier;

    open(crate) spec fn view(&self) -> Tier {
        Tier { words: self.words@, budget: self.budget, label: self.label }
    }
}

/// The tiers that some rules stand for.
pub(crate) open spec fn tiers(rules: Seq<TierRule>) -> Seq<Tier> {
    rules.map_values(|r: TierRule| r@)
}

/// The known NVIDIA GPUs, from the first model to try to the last.
pub open spec fn nvidia_tiers() -> Seq<Tier> {
    seq![
        Tier {
            words: seq!["5090", "5080"],
            budget: Budget::Share { divisor: 6, floor: 5120 },
            label: "NVIDIA RTX 50 Flagship (Blackwell)",
        },
        Tier {
            words: seq!["5070", "5060", "rtx 50"],
            budget: Budget::Share { divisor: 7, floor: 4608 },
            label: "NVIDIA RTX 50 (Blackwell)",
        },
        Tier {
            words: seq!["4090", "4080"],
            budget: Budget::Share { divisor: 8, floor: 4096 },
            label: "NVIDIA RTX 40 Flagship (Ada)",
        },
        Tier {
            words: seq!["rtx 40", "4070", "4060"],
            budget: Budget::Share { divisor: 10, floor: 3072 },
            label: "NVIDIA RTX 40 (Ada)",
        },
        Tier {
            words: seq!["rtx 30", "rtx 20", "3090", "3080", "3070", "2080", "2070", "2060"],
            budget: Budget::Share { divisor: 12, floor: 2048 },
            label: "NVIDIA RTX 30/20 (Ampere/Turing)",
        },
        Tier {
            words: seq!["gtx 16", "gtx 10", "1660", "1650", "1080", "1070", "1060"],
            budget: Budget::Share { divisor: 16, floor: 1024 },
            label: "NVIDIA GTX 16/10 (Turing/Pascal)",
        },
        Tier {
            words: seq!["gtx"],
            budget: Budget::Share { divisor: 18, floor: 768 },
            label: "NVIDIA GTX (Legacy)",
        },
        Tier {
            words: seq!["quadro", "rtx a", "tesla"],
            budget: Budget::Share { divisor: 10, floor: 2560 },
            label: "NVIDIA Quadro/Professional",
        },
    ]
}

/// The known AMD GPUs, from the first model to try to the last.
pub open spec fn amd_tiers() -> Seq<Tier> {
    seq![
        Tier {
            words: seq!["rx 9", "9070", "9080"],
            budget: Budget::Share { divisor: 8, floor: 4096 },
            label: "AMD RX 9000 (RDNA 4)",
        },
        Tier {
            words: seq!["7900"],
            budget: Budget::Share { divisor: 9, floor: 3584 },
            label: "AMD RX 7900 (RDNA 3 Flagship)",
        },
        Tier {
            words: seq!["rx 7", "7800", "7700", "7600"],
            budget: Budget::Share { divisor: 10, floor: 3072 },
            label: "AMD RX 7000 (RDNA 3)",
        },
        Tier {
            words: seq!["6900", "6800"],
            budget: Budget::Share { divisor: 12, floor: 2560 },
            label: "AMD RX 6900/6800 (RDNA 2 Flagship)",
        },
        Tier {
            words: seq!["rx 6", "6700", "6600"],
            budget: Budget::Share { divisor: 14, floor: 2048 },
            label: "AMD RX 6000 (RDNA 2)",
        },
        Tier {
            words: seq!["5700"],
            budget: Budget::Share { divisor: 16, floor: 1536 },
            label: "AMD RX 5700 (RDNA 1)",
        },
        Tier {
            words: seq!["rx 5", "5600", "5500"],
            budget: Budget::Share { divisor: 18, floor: 1024 },
            label: "AMD RX 5000 (RDNA 1)",
        },
        Tier {
            words: seq!["rx 4", "580", "570"],
            budget: Budget::Share { divisor: 20, floor: 768 },
            label: "AMD RX 500/400 (Polaris)",
        },
        Tier {
            words: seq!["radeon pro", "instinct", "mi"],
            budget: Budget::Share { divisor: 10, floor: 2560 },
            label: "AMD Radeon Pro/Instinct",
        },
    ]
}

/// The known Intel GPUs, from the first model to try to the last.
pub open spec fn intel_tiers() -> Seq<Tier> {
    seq![
        Tier {
            words: seq!["arc b", "b580", "b570"],
            budget: Budget::Share { divisor: 10, floor: 2560 },
            label: "Intel Arc B-Series (Battlemage)",
        },
        Tier {
            words: seq!["a770", "a750"],
            budget: Budget::Share { divisor: 12, floor: 2048 },
            label: "Intel Arc A7 (Alchemist)",
        },
        Tier {
            words: seq!["a580", "a380", "arc a5", "arc a3"],
            budget: Budget::Share { divisor: 16, floor: 1024 },
            label: "Intel Arc A5/A3 (Alchemist)",
        },
        Tier {
            words: seq!["a310"],
            budget: Budget::Share { divisor: 20, floor: 512 },
            label: "Intel Arc A3 Entry",
        },
        Tier {
            words: seq!["iris xe", "iris plus"],
            budget: Budget::Share { divisor: 24, floor: 384 },
            label: "Intel Iris Xe/Plus (Integrated)",
        },
        Tier {
            words: seq!["uhd", "hd graphics"],
            budget: Budget::Share { divisor: 28, floor: 256 },
            label: "Intel UHD/HD Graphics (Integrated)",
        },
    ]
}

/// The known Apple GPUs, from the first model to try to the last.
pub open spec fn apple_tiers() -> Seq<Tier> {
    seq![
        Tier {
            words: seq!["m4 ultra"],
            budget: Budget::Fixed { workgroups: 1600 },
            label: "Apple M4 Ultra",
        },
        Tier {
            words: seq!["m4 max"],
            budget: Budget::Fixed { workgroups: 800 },
            label: "Apple M4 Max",
        },
        Tier {
            words: seq!["m4 pro"],
            budget: Budget::Fixed { workgroups: 400 },
            label: "Apple M4 Pro",
        },
        Tier {
            words: seq!["m4"],
            budget: Budget::Fixed { workgroups: 200 },
            label: "Apple M4",
        },
        Tier {
            words: seq!["m3 ultra"],
            budget: Budget::Fixed { workgroups: 1520 },
            label: "Apple M3 Ultra",
        },
        Tier {
            words: seq!["m3 max"],
            budget: Budget::Fixed { workgroups: 800 },
            label: "Apple M3 Max",
        },
        Tier {
            words: seq!["m3 pro"],
            budget: Budget::Fixed { workgroups: 360 },
            label: "Apple M3 Pro",
        },
        Tier {
            words: seq!["m3"],
            budget: Budget::Fixed { workgroups: 200 },
            label: "Apple M3",
        },
        Tier {
            words: seq!["m2 ultra"],
            budget: Budget::Fixed { workgroups: 1520 },
            label: "Apple M2 Ultra",
        },
        Tier {
            words: seq!["m2 max"],
            budget: Budget::Fixed { workgroups: 760 },
            label: "Apple M2 Max",
        },
        Tier {
            words: seq!["m2 pro"],
            budget: Budget::Fixed { workgroups: 380 },
            label: "Apple M2 Pro",
        },
        Tier {
            words: seq!["m2"],
            budget: Budget::Fixed { workgroups: 200 },
            label: "Apple M2",
        },
        Tier {
            words: seq!["m1 ultra"],
            budget: Budget::Fixed { workgroups: 1280 },
            label: "Apple M1 Ultra",
        },
        Tier {
            words: seq!["m1 max"],
            budget: Budget::Fixed { workgroups: 640 },
            label: "Apple M1 Max",
        },
        Tier {
            words: seq!["m1 pro"],
            budget: Budget::Fixed { workgroups: 320 },
            label: "Apple M1 Pro",
        },
        Tier {
            words: seq!["m1"],
            budget: Budget::Fixed { workgroups: 160 },
            label: "Apple M1",
        },
    ]
}

pub(crate) fn nvidia_rules() -> (rules: Vec<TierRule>)
    ensures
        tiers(rules@) == nvidia_tiers(),
{
    let rules: Vec<TierRule> = vec![
        TierRule {
            words: vec!["5090", "5080"],
            budget: Budget::Share { divisor: 6, floor: 5120 },
            label: "NVIDIA RTX 50 Flagship (Blackwell)",
        },
        TierRule {
            words: vec!["5070", "5060", "rtx 50"],
            budget: Budget::Share { divisor: 7, floor: 4608 },
            label: "NVIDIA RTX 50 (Blackwell)",
        },
        TierRule {
            words: vec!["4090", "4080"],
            budget: Budget::Share { divisor: 8, floor: 4096 },
            label: "NVIDIA RTX 40 Flagship (Ada)",
        },
        TierRule {
            words: vec!["rtx 40", "4070", "4060"],
            budget: Budget::Share { divisor: 10, floor: 3072 },
            label: "NVIDIA RTX 40 (Ada)",
        },
        TierRule {
            words: vec!["rtx 30", "rtx 20", "3090", "3080", "3070", "2080", "2070", "2060"],
            budget: Budget::Share { divisor: 12, floor: 2048 },
            label: "NVIDIA RTX 30/20 (Ampere/Turing)",
        },
        TierRule {
            words: vec!["gtx 16", "gtx 10", "1660", "1650", "1080", "1070", "1060"],
            budget: Budget::Share { divisor: 16, floor: 1024 },
            label: "NVIDIA GTX 16/10 (Turing/Pascal)",
        },
        TierRule {
            words: vec!["gtx"],
            budget: Budget::Share { divisor: 18, floor: 768 },
            label: "NVIDIA GTX (Legacy)",
        },
        TierRule {
            words: vec!["quadro", "rtx a", "tesla"],
            budget: Budget::Share { divisor: 10, floor: 2560 },
            label: "NVIDIA Quadro/Professional",
        },
    ];
    assert(tiers(rules@) =~~= nvidia_tiers());
    rules
}

pub(crate) fn amd_rules() -> (rules: Vec<TierRule>)
    ensures
        tiers(rules@) == amd_tiers(),
{
    let rules: Vec<TierRule> = vec![
        TierRule {
            words: vec!["rx 9", "9070", "9080"],
            budget: Budget::Share { divisor: 8, floor: 4096 },
            label: "AMD RX 9000 (RDNA 4)",
        },
        TierRule {
            words: vec!["7900"],
            budget: Budget::Share { divisor: 9, floor: 3584 },
            label: "AMD RX 7900 (RDNA 3 Flagship)",
        },
        TierRule {
            words: vec!["rx 7", "7800", "7700", "7600"],
            budget: Budget::Share { divisor: 10, floor: 3072 },
            label: "AMD RX 7000 (RDNA 3)",
        },
        TierRule {
            words: vec!["6900", "6800"],
            budget: Budget::Share { divisor: 12, floor: 2560 },
            label: "AMD RX 6900/6800 (RDNA 2 Flagship)",
        },
        TierRule {
            words: vec!["rx 6", "6700", "6600"],
            budget: Budget::Share { divisor: 14, floor: 2048 },
            label: "AMD RX 6000 (RDNA 2)",
        },
        TierRule {
            words: vec!["5700"],
            budget: Budget::Share { divisor: 16, floor: 1536 },
            label: "AMD RX 5700 (RDNA 1)",
        },
        TierRule {
            words: vec!["rx 5", "5600", "5500"],
            budget: Budget::Share { divisor: 18, floor: 1024 },
            label: "AMD RX 5000 (RDNA 1)",
        },
        TierRule {
            words: vec!["rx 4", "580", "570"],
            budget: Budget::Share { divisor: 20, floor: 768 },
            label: "AMD RX 500/400 (Polaris)",
        },
        TierRule {
            words: vec!["radeon pro", "instinct", "mi"],
            budget: Budget::Share { divisor: 10, floor: 2560 },
            label: "AMD Radeon Pro/Instinct",
        },
    ];
    assert(tiers(rules@) =~~= amd_tiers());
    rules
}

pub(crate) fn intel_rules() -> (rules: Vec<TierRule>)
    ensures
        tiers(rules@) == intel_tiers(),
{
    let rules: Vec<TierRule> = vec![
        TierRule {
            words: vec!["arc b", "b580", "b570"],
            budget: Budget::Share { divisor: 10, floor: 2560 },
            label: "Intel Arc B-Series (Battlemage)",
        },
        TierRule {
            words: vec!["a770", "a750"],
            budget: Budget::Share { divisor: 12, floor: 2048 },
            label: "Intel Arc A7 (Alchemist)",
        },
        TierRule {
            words: vec!["a580", "a380", "arc a5", "arc a3"],
            budget: Budget::Share { divisor: 16, floor: 1024 },
            label: "Intel Arc A5/A3 (Alchemist)",
        },
        TierRule {
            words: vec!["a310"],
            budget: Budget::Share { divisor: 20, floor: 512 },
            label: "Intel Arc A3 Entry",
        },
        TierRule {
            words: vec!["iris xe", "iris plus"],
            budget: Budget::Share { divisor: 24, floor: 384 },
            label: "Intel Iris Xe/Plus (Integrated)",
        },
        TierRule {
            words: vec!["uhd", "hd graphics"],
            budget: Budget::Share { divisor: 28, floor: 256 },
            label: "Intel UHD/HD Graphics (Integrated)",
        },
    ];
    assert(tiers(rules@) =~~= intel_tiers());
    rules
}

pub(crate) fn apple_rules() -> (rules: Vec<TierRule>)
    ensures
        tiers(rules@) == apple_tiers(),
{
    let rules: Vec<TierRule> = vec![
        TierRule {
            words: vec!["m4 ultra"],
            budget: Budget::Fixed { workgroups: 1600 },
            label: "Apple M4 Ultra",
        },
        TierRule {
            words: vec!["m4 max"],
            budget: Budget::Fixed { workgroups: 800 },
            label: "Apple M4 Max",
        },
        TierRule {
            words: vec!["m4 pro"],
            budget: Budget::Fixed { workgroups: 400 },
            label: "Apple M4 Pro",
        },
        TierRule {
            words: vec!["m4"],
            budget: Budget::Fixed { workgroups: 200 },
            label: "Apple M4",
        },
        TierRule {
            words: vec!["m3 ultra"],
            budget: Budget::Fixed { workgroups: 1520 },
            label: "Apple M3 Ultra",
        },
        TierRule {
            words: vec!["m3 max"],
            budget: Budget::Fixed { workgroups: 800 },
            label: "Apple M3 Max",
        },
        TierRule {
            words: vec!["m3 pro"],
            budget: Budget::Fixed { workgroups: 360 },
            label: "Apple M3 Pro",
        },
        TierRule {
            words: vec!["m3"],
            budget: Budget::Fixed { workgroups: 200 },
            label: "Apple M3",
        },
        TierRule {
            words: vec!["m2 ultra"],
            budget: Budget::Fixed { workgroups: 1520 },
            label: "Apple M2 Ultra",
        },
        TierRule {
            words: vec!["m2 max"],
            budget: Budget::Fixed { workgroups: 760 },
            label: "Apple M2 Max",
        },
        TierRule {
            words: vec!["m2 pro"],
            budget: Budget::Fixed { workgroups: 380 },
            label: "Apple M2 Pro",
        },
        TierRule {
            words: vec!["m2"],
            budget: Budget::Fixed { workgroups: 200 },
            label: "Apple M2",
        },
        TierRule {
            words: vec!["m1 ultra"],
            budget: Budget::Fixed { workgroups: 1280 },
            label: "Apple M1 Ultra",
        },
        TierRule {
            words: vec!["m1 max"],
            budget: Budget::Fixed { workgroups: 640 },
            label: "Apple M1 Max",
        },
        TierRule {
            words: vec!["m1 pro"],
            budget: Budget::Fixed { workgroups: 320 },
            label: "Apple M1 Pro",
        },
        TierRule {
            words: vec!["m1"],
            budget: Budget::Fixed { workgroups: 160 },
            label: "Apple M1",
        },
    ];
    assert(tiers(rules@) =~~= apple_tiers());
    rules
}

} // verus!
