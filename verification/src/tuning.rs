//! How many workgroups to dispatch on a device, from what its name and vendor say of the model.

use crate::adapter::{AdapterInfo, Backend};
use crate::arithmetic::{larger, smaller};
use crate::batch::plan_fits;
use crate::text::{
    ascii_lowercase, characters, contains_word, has_word, is_ascii_text, lowercase,
    same_but_for_case, to_lowercase,
};
use crate::tiers::{
    amd_rules, amd_tiers, apple_rules, apple_tiers, intel_rules, intel_tiers, nvidia_rules,
    nvidia_tiers, tiers, Budget, Tier, TierRule,
};
use vstd::prelude::*;

verus! {

/// PCI vendor id of NVIDIA.
pub const NVIDIA_VENDOR_ID: u32 = 0x10DE;

/// PCI vendor id of AMD.
pub const AMD_VENDOR_ID: u32 = 0x1002;

/// PCI vendor id of Intel.
pub const INTEL_VENDOR_ID: u32 = 0x8086;

/// The most workgroups that any device is credited with.
pub const WORKGROUP_CAP: u32 = 65535;

/// The makers that the engine tells apart.
#[derive(Clone, Copy, Debug, PartialEq, Eq, Structural)]
pub enum Maker {
    Nvidia,
    Amd,
    Intel,
    Apple,
    Unknown,
}

/// The workgroups for a device, the group of models that it was taken for, and whether that is a
/// guess because the model is not known.
#[derive(Clone, Copy, Debug)]
pub struct Tuning {
    pub workgroups: u32,
    pub tier: &'static str,
    pub is_fallback: bool,
}

/// The maker of a device. The name or the vendor id tells NVIDIA, AMD and Intel, in this order;
/// any other device on the Metal backend is Apple's.
pub open spec fn maker_of(lower_name: Seq<char>, vendor: u32, backend: Backend) -> Maker {
    if contains_word(lower_name, "nvidia"@) || vendor == NVIDIA_VENDOR_ID {
        Maker::Nvidia
    } else if contains_word(lower_name, "amd"@) || contains_word(lower_name, "radeon"@) || vendor
        == AMD_VENDOR_ID {
        Maker::Amd
    } else if contains_word(lower_name, "intel"@) || vendor == INTEL_VENDOR_ID {
        Maker::Intel
    } else if backend == Backend::Metal {
        Maker::Apple
    } else {
        Maker::Unknown
    }
}

/// The known models of a maker.
pub open spec fn tiers_of(maker: Maker) -> Seq<Tier> {
    match maker {
        Maker::Nvidia => nvidia_tiers(),
        Maker::Amd => amd_tiers(),
        Maker::Intel => intel_tiers(),
        Maker::Apple => apple_tiers(),
        Maker::Unknown => Seq::empty(),
    }
}

/// What a maker's unknown models are taken for.
pub open spec fn fallback_of(maker: Maker) -> Tier {
    let (budget, label) = match maker {
        Maker::Nvidia => (Budget::Share { divisor: 20, floor: 512 }, "NVIDIA Unknown"),
        Maker::Amd => (Budget::Share { divisor: 24, floor: 512 }, "AMD Unknown"),
        Maker::Intel => (Budget::Share { divisor: 24, floor: 256 }, "Intel Unknown"),
        Maker::Apple => (Budget::Fixed { workgroups: 160 }, "Apple Silicon Unknown"),
        Maker::Unknown => (Budget::Share { divisor: 16, floor: 512 }, "Unknown GPU"),
    };
    Tier { words: Seq::empty(), budget, label }
}

/// One of the tier's words stands in the name.
pub open spec fn names_tier(lower_name: Seq<char>, tier: Tier) -> bool {
    exists|k: int| 0 <= k < tier.words.len() && contains_word(lower_name, #[trigger] tier.words[k]@)
}

/// The first of the tiers that the name tells, if any.
pub open spec fn first_named(known: Seq<Tier>, lower_name: Seq<char>) -> Option<Tier>
    decreases known.len(),
{
    if known.len() == 0 {
        None
    } else if names_tier(lower_name, known[0]) {
        Some(known[0])
    } else {
        first_named(known.drop_first(), lower_name)
    }
}

/// The workgroups that a budget comes to on a device that allows `max_workgroups`.
pub open spec fn workgroups_for(budget: Budget, max_workgroups: int) -> int {
    match budget {
        Budget::Share { divisor, floor } => larger(max_workgroups / divisor as int, floor as int),
        Budget::Fixed { workgroups } => larger(
            smaller(workgroups as int, max_workgroups / 4),
            64,
        ),
    }
}

/// The tier of a device: the first known one that its name tells, or what its maker's unknown
/// models are taken for.
pub open spec fn tier_of(lower_name: Seq<char>, vendor: u32, backend: Backend) -> Tier {
    let maker = maker_of(lower_name, vendor, backend);
    match first_named(tiers_of(maker), lower_name) {
        Some(tier) => tier,
        None => fallback_of(maker),
    }
}

/// The name tells none of the known models of its maker.
pub open spec fn is_unknown_model(lower_name: Seq<char>, vendor: u32, backend: Backend) -> bool {
    first_named(tiers_of(maker_of(lower_name, vendor, backend)), lower_name) is None
}

impl Tuning {
    /// The tuning is that of a device with this lower-case name, vendor and backend that allows
    /// `max_workgroups` workgroups per dimension.
    pub open spec fn suits(
        self,
        lower_name: Seq<char>,
        vendor: u32,
        backend: Backend,
        max_workgroups: u32,
    ) -> bool {
        let tier = tier_of(lower_name, vendor, backend);
        &&& self.workgroups == workgroups_for(
            tier.budget,
            smaller(max_workgroups as int, WORKGROUP_CAP as int),
        )
        &&& self.tier@ == tier.label@
        &&& self.is_fallback == is_unknown_model(lower_name, vendor, backend)
    }

    /// The tuning is that of the adapter on a device that allows `max_workgroups` workgroups per
    /// dimension. The adapter's name counts in lower case.
    pub open spec fn suits_adapter(self, info: AdapterInfo, max_workgroups: u32) -> bool {
        &&& self.suits(lowercase(info.name@), info.vendor, info.backend, max_workgroups)
        &&& is_ascii_text(info.name@) ==> self.suits(
            ascii_lowercase(info.name@),
            info.vendor,
            info.backend,
            max_workgroups,
        )
    }
}

/// Tells the maker of a device.
fn tell_maker(lower_name: &[char], vendor: u32, backend: Backend) -> (maker: Maker)
    ensures
        maker == maker_of(lower_name@, vendor, backend),
{
    if has_word(lower_name, "nvidia") || vendor == NVIDIA_VENDOR_ID {
        Maker::Nvidia
    } else if has_word(lower_name, "amd") || has_word(lower_name, "radeon") || vendor
        == AMD_VENDOR_ID {
        Maker::Amd
    } else if has_word(lower_name, "intel") || vendor == INTEL_VENDOR_ID {
        Maker::Intel
    } else if backend == Backend::Metal {
        Maker::Apple
    } else {
        Maker::Unknown
    }
}

/// Whether one of the rule's words stands in the name.
fn matches_rule(lower_name: &[char], rule: &TierRule) -> (named: bool)
    ensures
        named == names_tier(lower_name@, rule@),
{
    let mut k: usize = 0;
    while k < rule.words.len()
        invariant
            k <= rule.words@.len(),
            forall|j: int|
                0 <= j < k ==> !contains_word(lower_name@, #[trigger] rule.words@[j]@),
        decreases rule.words@.len() - k,
    {
        if has_word(lower_name, rule.words[k]) {
            assert(contains_word(lower_name@, rule@.words[k as int]@));
            return true;
        }
        k += 1;
    }
    false
}

/// The position of the first rule that the name tells, if any.
fn find_rule(lower_name: &[char], rules: &Vec<TierRule>) -> (found: Option<usize>)
    ensures
        match found {
            Some(i) => i < rules@.len() && first_named(tiers(rules@), lower_name@) == Some(
                rules@[i as int]@,
            ),
            None => first_named(tiers(rules@), lower_name@) is None,
        },
{
    let ghost all = tiers(rules@);
    let mut i: usize = 0;
    assert(all.skip(0) =~= all);
    while i < rules.len()
        invariant
            i <= rules@.len(),
            all == tiers(rules@),
            first_named(all, lower_name@) == first_named(all.skip(i as int), lower_name@),
        decreases rules@.len() - i,
    {
        assert(all.skip(i as int)[0] == rules@[i as int]@);
        if matches_rule(lower_name, &rules[i]) {
            return Some(i);
        }
        assert(all.skip(i as int).drop_first() =~= all.skip(i + 1));
        i += 1;
    }
    None
}

/// The workgroups that a budget comes to.
fn spend(budget: Budget, max_workgroups: u32) -> (workgroups: u32)
    requires
        budget matches Budget::Share { divisor, .. } ==> divisor > 0,
    ensures
        workgroups == workgroups_for(budget, max_workgroups as int),
{
    match budget {
        Budget::Share { divisor, floor } => {
            let share: u32 = max_workgroups / divisor;
            if share >= floor {
                share
            } else {
                floor
            }
        },
        Budget::Fixed { workgroups } => {
            let quarter: u32 = max_workgroups / 4;
            let bounded: u32 = if workgroups <= quarter {
                workgroups
            } else {
                quarter
            };
            if bounded >= 64 {
                bounded
            } else {
                64
            }
        },
    }
}

/// The tuning of a device whose name is given in lower case.
pub fn tune(lower_name: &str, vendor: u32, backend: Backend, max_workgroups: u32) -> (tuning:
    Tuning)
    ensures
        tuning.suits(lower_name@, vendor, backend, max_workgroups),
{
    let name = characters(lower_name);
    let maker = tell_maker(name.as_slice(), vendor, backend);
    let (rules, budget, label): (Vec<TierRule>, Budget, &'static str) = match maker {
        Maker::Nvidia => (
            nvidia_rules(),
            Budget::Share { divisor: 20, floor: 512 },
            "NVIDIA Unknown",
        ),
        Maker::Amd => (amd_rules(), Budget::Share { divisor: 24, floor: 512 }, "AMD Unknown"),
        Maker::Intel => (intel_rules(), Budget::Share { divisor: 24, floor: 256 }, "Intel Unknown"),
        Maker::Apple => (
            apple_rules(),
            Budget::Fixed { workgroups: 160 },
            "Apple Silicon Unknown",
        ),
        Maker::Unknown => (
            Vec::new(),
            Budget::Share { divisor: 16, floor: 512 },
            "Unknown GPU",
        ),
    };
    assert(tiers(rules@) =~= tiers_of(maker));
    let limit: u32 = if max_workgroups <= WORKGROUP_CAP {
        max_workgroups
    } else {
        WORKGROUP_CAP
    };
    proof {
        law_known_budgets_are_sound(maker);
    }
    match find_rule(name.as_slice(), &rules) {
        Some(i) => {
            assert(tiers(rules@)[i as int] == rules@[i as int]@);
            Tuning {
                workgroups: spend(rules[i].budget, limit),
                tier: rules[i].label,
                is_fallback: false,
            }
        },
        None => Tuning { workgroups: spend(budget, limit), tier: label, is_fallback: true },
    }
}

/// The tuning of a device, from its description and from how many workgroups per dimension it
/// allows.
pub fn get_vendor_specific_dispatch(
    adapter_info: &AdapterInfo,
    max_compute_workgroups_per_dimension: u32,
) -> (tuning: Tuning)
    ensures
        tuning.suits_adapter(*adapter_info, max_compute_workgroups_per_dimension),
{
    let lower_name = to_lowercase(adapter_info.name.as_str());
    tune(
        lower_name.as_str(),
        adapter_info.vendor,
        adapter_info.backend,
        max_compute_workgroups_per_dimension,
    )
}

/// The most workgroups that any device is given: a sixth of the cap.
pub const MOST_WORKGROUPS: u32 = 10922;

/// A share is at most a sixth, its floor keeps a device busy, and no floor and no fixed number
/// exceeds the largest share.
pub open spec fn sound_budget(budget: Budget) -> bool {
    match budget {
        Budget::Share { divisor, floor } => divisor >= 6 && 256 <= floor <= MOST_WORKGROUPS,
        Budget::Fixed { workgroups } => workgroups <= MOST_WORKGROUPS,
    }
}

/// Every budget, of a known model or of an unknown one, is sound.
pub proof fn law_known_budgets_are_sound(maker: Maker)
    ensures
        sound_budget(fallback_of(maker).budget),
        forall|i: int|
            0 <= i < tiers_of(maker).len() ==> sound_budget(#[trigger] tiers_of(maker)[i].budget),
{
}

/// The tier of a known model is one of its maker's that the name tells, and the name tells none of
/// those that stand before it; an unknown model is one whose name tells no tier at all.
pub proof fn law_first_named_tier_counts(known: Seq<Tier>, lower_name: Seq<char>)
    ensures
        match first_named(known, lower_name) {
            Some(tier) => exists|i: int|
                {
                    &&& 0 <= i < known.len()
                    &&& #[trigger] known[i] == tier
                    &&& names_tier(lower_name, tier)
                    &&& forall|j: int| 0 <= j < i ==> !names_tier(lower_name, #[trigger] known[j])
                },
            None => forall|j: int|
                0 <= j < known.len() ==> !names_tier(lower_name, #[trigger] known[j]),
        },
    decreases known.len(),
{
    if known.len() > 0 && !names_tier(lower_name, known[0]) {
        let rest = known.drop_first();
        law_first_named_tier_counts(rest, lower_name);
        match first_named(rest, lower_name) {
            Some(tier) => {
                let i = choose|i: int|
                    {
                        &&& 0 <= i < rest.len()
                        &&& #[trigger] rest[i] == tier
                        &&& names_tier(lower_name, tier)
                        &&& forall|j: int|
                            0 <= j < i ==> !names_tier(lower_name, #[trigger] rest[j])
                    };
                assert(known[i + 1] == tier);
                assert forall|j: int| 0 <= j < i + 1 implies !names_tier(
                    lower_name,
                    #[trigger] known[j],
                ) by {
                    if j > 0 {
                        assert(rest[j - 1] == known[j]);
                    }
                }
            },
            None => {
                assert forall|j: int| 0 <= j < known.len() implies !names_tier(
                    lower_name,
                    #[trigger] known[j],
                ) by {
                    if j > 0 {
                        assert(rest[j - 1] == known[j]);
                    }
                }
            },
        }
    } else if known.len() > 0 {
        assert(known[0] == known[0]);
    }
}

proof fn lemma_tier_sound(lower_name: Seq<char>, vendor: u32, backend: Backend)
    ensures
        sound_budget(tier_of(lower_name, vendor, backend).budget),
{
    let maker = maker_of(lower_name, vendor, backend);
    law_known_budgets_are_sound(maker);
    law_first_named_tier_counts(tiers_of(maker), lower_name);
}

/// Every device is given at least 64 workgroups and at most a sixth of the cap.
pub proof fn law_every_device_gets_work(
    tuning: Tuning,
    lower_name: Seq<char>,
    vendor: u32,
    backend: Backend,
    max_workgroups: u32,
)
    requires
        tuning.suits(lower_name, vendor, backend, max_workgroups),
    ensures
        64 <= tuning.workgroups <= MOST_WORKGROUPS,
{
    lemma_tier_sound(lower_name, vendor, backend);
    match tier_of(lower_name, vendor, backend).budget {
        Budget::Share { divisor, .. } => {
            let most = smaller(max_workgroups as int, WORKGROUP_CAP as int);
            let d = divisor as int;
            assert(most / d <= most / 6) by (nonlinear_arith)
                requires
                    0 <= most,
                    6 <= d,
            ;
        },
        Budget::Fixed { .. } => {},
    }
}

/// On a tuned device every batch can be planned, whatever its size and whatever the device allows.
pub proof fn law_every_batch_fits_a_tuned_device(
    tuning: Tuning,
    lower_name: Seq<char>,
    vendor: u32,
    backend: Backend,
    limit: u32,
    max_workgroups: u32,
    batch_size: u64,
)
    requires
        tuning.suits(lower_name, vendor, backend, limit),
    ensures
        plan_fits(tuning.workgroups, max_workgroups, batch_size),
{
    law_every_device_gets_work(tuning, lower_name, vendor, backend, limit);
}

/// Adapters whose names are ASCII and differ in nothing but the case of letters are tuned alike.
pub proof fn law_letter_case_makes_no_difference(
    a: AdapterInfo,
    b: AdapterInfo,
    tuning_a: Tuning,
    tuning_b: Tuning,
    max_workgroups: u32,
)
    requires
        tuning_a.suits_adapter(a, max_workgroups),
        tuning_b.suits_adapter(b, max_workgroups),
        a.vendor == b.vendor,
        a.backend == b.backend,
        is_ascii_text(a.name@),
        is_ascii_text(b.name@),
        same_but_for_case(a.name@, b.name@),
    ensures
        tuning_a.workgroups == tuning_b.workgroups,
        tuning_a.tier@ == tuning_b.tier@,
        tuning_a.is_fallback == tuning_b.is_fallback,
{
    assert(ascii_lowercase(a.name@) =~= ascii_lowercase(b.name@));
}

/// A device that allows more workgroups is never given fewer than an equal one that allows less,
/// and from 65535 allowed workgroups on it makes no difference.
pub proof fn law_more_allowed_never_fewer_given(
    less: Tuning,
    more: Tuning,
    lower_name: Seq<char>,
    vendor: u32,
    backend: Backend,
    limit_less: u32,
    limit_more: u32,
)
    requires
        limit_less <= limit_more,
        less.suits(lower_name, vendor, backend, limit_less),
        more.suits(lower_name, vendor, backend, limit_more),
    ensures
        less.workgroups <= more.workgroups,
        limit_less >= WORKGROUP_CAP ==> less.workgroups == more.workgroups,
{
    lemma_tier_sound(lower_name, vendor, backend);
    let a = smaller(limit_less as int, WORKGROUP_CAP as int);
    let b = smaller(limit_more as int, WORKGROUP_CAP as int);
    match tier_of(lower_name, vendor, backend).budget {
        Budget::Share { divisor, .. } => {
            vstd::arithmetic::div_mod::lemma_div_is_ordered(a, b, divisor as int);
        },
        Budget::Fixed { .. } => {},
    }
}

} // verus!
