//! Which workgroups each known group of GPU models is given, said of the name and the limit alone.
//!
//! In all of these laws `name` is the name in lower case, and the tuning is that of a device with
//! this name, vendor and backend that allows `max_workgroups` workgroups per dimension.

use crate::adapter::{AdapterInfo, Backend};
use crate::text::{ascii_lowercase, contains_word, is_ascii_text, lowercase};
use crate::tiers::{amd_tiers, apple_tiers, intel_tiers, nvidia_tiers, Tier};
use crate::tuning::{first_named, get_vendor_specific_dispatch, names_tier, tune, Tuning};
use vstd::prelude::*;

verus! {

proof fn lemma_first_named_is(known: Seq<Tier>, name: Seq<char>, i: int)
    requires
        0 <= i < known.len(),
        names_tier(name, known[i]),
        forall|j: int| 0 <= j < i ==> !names_tier(name, #[trigger] known[j]),
    ensures
        first_named(known, name) == Some(known[i]),
    decreases known.len(),
{
    if i > 0 {
        let rest = known.drop_first();
        assert(!names_tier(name, known[0]));
        assert forall|j: int| 0 <= j < i - 1 implies !names_tier(name, #[trigger] rest[j]) by {
            assert(rest[j] == known[j + 1]);
        }
        lemma_first_named_is(rest, name, i - 1);
    }
}

proof fn lemma_none_named(known: Seq<Tier>, name: Seq<char>)
    requires
        forall|j: int| 0 <= j < known.len() ==> !names_tier(name, #[trigger] known[j]),
    ensures
        first_named(known, name) is None,
    decreases known.len(),
{
    if known.len() > 0 {
        let rest = known.drop_first();
        assert forall|j: int| 0 <= j < rest.len() implies !names_tier(name, #[trigger] rest[j]) by {
            assert(rest[j] == known[j + 1]);
        }
        lemma_none_named(rest, name);
    }
}

proof fn lemma_words_of_nvidia(name: Seq<char>)
    ensures
        nvidia_tiers().len() == 8,
        names_tier(name, nvidia_tiers()[0]) <==> (contains_word(name, "5090"@)
            || contains_word(name, "5080"@)),
        names_tier(name, nvidia_tiers()[1]) <==> (contains_word(name, "5070"@)
            || contains_word(name, "5060"@)
            || contains_word(name, "rtx 50"@)),
        names_tier(name, nvidia_tiers()[2]) <==> (contains_word(name, "4090"@)
            || contains_word(name, "4080"@)),
        names_tier(name, nvidia_tiers()[3]) <==> (contains_word(name, "rtx 40"@)
            || contains_word(name, "4070"@)
            || contains_word(name, "4060"@)),
        names_tier(name, nvidia_tiers()[4]) <==> (contains_word(name, "rtx 30"@)
            || contains_word(name, "rtx 20"@)
            || contains_word(name, "3090"@)
            || contains_word(name, "3080"@)
            || contains_word(name, "3070"@)
            || contains_word(name, "2080"@)
            || contains_word(name, "2070"@)
            || contains_word(name, "2060"@)),
        names_tier(name, nvidia_tiers()[5]) <==> (contains_word(name, "gtx 16"@)
            || contains_word(name, "gtx 10"@)
            || contains_word(name, "1660"@)
            || contains_word(name, "1650"@)
            || contains_word(name, "1080"@)
            || contains_word(name, "1070"@)
            || contains_word(name, "1060"@)),
        names_tier(name, nvidia_tiers()[6]) <==> (contains_word(name, "gtx"@)),
        names_tier(name, nvidia_tiers()[7]) <==> (contains_word(name, "quadro"@)
            || contains_word(name, "rtx a"@)
            || contains_word(name, "tesla"@)),
{
    let words = nvidia_tiers()[0].words;
    if contains_word(name, "5090"@) {
        assert(contains_word(name, words[0]@));
    }
    if contains_word(name, "5080"@) {
        assert(contains_word(name, words[1]@));
    }
    let words = nvidia_tiers()[1].words;
    if contains_word(name, "5070"@) {
        assert(contains_word(name, words[0]@));
    }
    if contains_word(name, "5060"@) {
        assert(contains_word(name, words[1]@));
    }
    if contains_word(name, "rtx 50"@) {
        assert(contains_word(name, words[2]@));
    }
    let words = nvidia_tiers()[2].words;
    if contains_word(name, "4090"@) {
        assert(contains_word(name, words[0]@));
    }
    if contains_word(name, "4080"@) {
        assert(contains_word(name, words[1]@));
    }
    let words = nvidia_tiers()[3].words;
    if contains_word(name, "rtx 40"@) {
        assert(contains_word(name, words[0]@));
    }
    if contains_word(name, "4070"@) {
        assert(contains_word(name, words[1]@));
    }
    if contains_word(name, "4060"@) {
        assert(contains_word(name, words[2]@));
    }
    let words = nvidia_tiers()[4].words;
    if contains_word(name, "rtx 30"@) {
        assert(contains_word(name, words[0]@));
    }
    if contains_word(name, "rtx 20"@) {
        assert(contains_word(name, words[1]@));
    }
    if contains_word(name, "3090"@) {
        assert(contains_word(name, words[2]@));
    }
    if contains_word(name, "3080"@) {
        assert(contains_word(name, words[3]@));
    }
    if contains_word(name, "3070"@) {
        assert(contains_word(name, words[4]@));
    }
    if contains_word(name, "2080"@) {
        assert(contains_word(name, words[5]@));
    }
    if contains_word(name, "2070"@) {
        assert(contains_word(name, words[6]@));
    }
    if contains_word(name, "2060"@) {
        assert(contains_word(name, words[7]@));
    }
    let words = nvidia_tiers()[5].words;
    if contains_word(name, "gtx 16"@) {
        assert(contains_word(name, words[0]@));
    }
    if contains_word(name, "gtx 10"@) {
        assert(contains_word(name, words[1]@));
    }
    if contains_word(name, "1660"@) {
        assert(contains_word(name, words[2]@));
    }
    if contains_word(name, "1650"@) {
        assert(contains_word(name, words[3]@));
    }
    if contains_word(name, "1080"@) {
        assert(contains_word(name, words[4]@));
    }
    if contains_word(name, "1070"@) {
        assert(contains_word(name, words[5]@));
    }
    if contains_word(name, "1060"@) {
        assert(contains_word(name, words[6]@));
    }
    let words = nvidia_tiers()[6].words;
    if contains_word(name, "gtx"@) {
        assert(contains_word(name, words[0]@));
    }
    let words = nvidia_tiers()[7].words;
    if contains_word(name, "quadro"@) {
        assert(contains_word(name, words[0]@));
    }
    if contains_word(name, "rtx a"@) {
        assert(contains_word(name, words[1]@));
    }
    if contains_word(name, "tesla"@) {
        assert(contains_word(name, words[2]@));
    }
}

/// A device of NVIDIA whose name has one of "5090", "5080".
pub proof fn law_nvidia_rtx_50_flagship(
    tuning: Tuning,
    name: Seq<char>,
    vendor: u32,
    backend: Backend,
    max_workgroups: u32,
)
    requires
        tuning.suits(name, vendor, backend, max_workgroups),
        contains_word(name, "nvidia"@) || vendor == 0x10DE,
        contains_word(name, "5090"@)
            || contains_word(name, "5080"@),
    ensures
        ({
            let allowed = if max_workgroups <= 65535 {
                max_workgroups as int
            } else {
                65535
            };
            tuning.workgroups == if allowed / 6 >= 5120 {
                allowed / 6
            } else {
                5120
            }
        }),
        !tuning.is_fallback,
        tuning.tier@ == "NVIDIA RTX 50 Flagship (Blackwell)"@,
{
    lemma_words_of_nvidia(name);
    lemma_first_named_is(nvidia_tiers(), name, 0);
}

/// A device of NVIDIA whose name has one of "5070", "5060", "rtx 50", and none of the words of the
/// groups before.
pub proof fn law_nvidia_rtx_50(
    tuning: Tuning,
    name: Seq<char>,
    vendor: u32,
    backend: Backend,
    max_workgroups: u32,
)
    requires
        tuning.suits(name, vendor, backend, max_workgroups),
        contains_word(name, "nvidia"@) || vendor == 0x10DE,
        !contains_word(name, "5090"@),
        !contains_word(name, "5080"@),
        contains_word(name, "5070"@)
            || contains_word(name, "5060"@)
            || contains_word(name, "rtx 50"@),
    ensures
        ({
            let allowed = if max_workgroups <= 65535 {
                max_workgroups as int
            } else {
                65535
            };
            tuning.workgroups == if allowed / 7 >= 4608 {
                allowed / 7
            } else {
                4608
            }
        }),
        !tuning.is_fallback,
        tuning.tier@ == "NVIDIA RTX 50 (Blackwell)"@,
{
    lemma_words_of_nvidia(name);
    let known = nvidia_tiers();
    assert forall|j: int| 0 <= j < 1 implies !names_tier(name, #[trigger] known[j]) by {
        assert(j == 0);
    }
    lemma_first_named_is(known, name, 1);
}

/// A device of NVIDIA whose name has one of "4090", "4080", and none of the words of the groups
/// before.
pub proof fn law_nvidia_rtx_40_flagship(
    tuning: Tuning,
    name: Seq<char>,
    vendor: u32,
    backend: Backend,
    max_workgroups: u32,
)
    requires
        tuning.suits(name, vendor, backend, max_workgroups),
        contains_word(name, "nvidia"@) || vendor == 0x10DE,
        !contains_word(name, "5090"@),
        !contains_word(name, "5080"@),
        !contains_word(name, "5070"@),
        !contains_word(name, "5060"@),
        !contains_word(name, "rtx 50"@),
        contains_word(name, "4090"@)
            || contains_word(name, "4080"@),
    ensures
        ({
            let allowed = if max_workgroups <= 65535 {
                max_workgroups as int
            } else {
                65535
            };
            tuning.workgroups == if allowed / 8 >= 4096 {
                allowed / 8
            } else {
                4096
            }
        }),
        !tuning.is_fallback,
        tuning.tier@ == "NVIDIA RTX 40 Flagship (Ada)"@,
{
    lemma_words_of_nvidia(name);
    let known = nvidia_tiers();
    assert forall|j: int| 0 <= j < 2 implies !names_tier(name, #[trigger] known[j]) by {
        assert(j == 0 || j == 1);
    }
    lemma_first_named_is(known, name, 2);
}

/// A device of NVIDIA whose name has one of "rtx 40", "4070", "4060", and none of the words of the
/// groups before.
pub proof fn law_nvidia_rtx_40(
    tuning: Tuning,
    name: Seq<char>,
    vendor: u32,
    backend: Backend,
    max_workgroups: u32,
)
    requires
        tuning.suits(name, vendor, backend, max_workgroups),
        contains_word(name, "nvidia"@) || vendor == 0x10DE,
        !contains_word(name, "5090"@),
        !contains_word(name, "5080"@),
        !contains_word(name, "5070"@),
        !contains_word(name, "5060"@),
        !contains_word(name, "rtx 50"@),
        !contains_word(name, "4090"@),
        !contains_word(name, "4080"@),
        contains_word(name, "rtx 40"@)
            || contains_word(name, "4070"@)
            || contains_word(name, "4060"@),
    ensures
        ({
            let allowed = if max_workgroups <= 65535 {
                max_workgroups as int
            } else {
                65535
            };
            tuning.workgroups == if allowed / 10 >= 3072 {
                allowed / 10
            } else {
                3072
            }
        }),
        !tuning.is_fallback,
        tuning.tier@ == "NVIDIA RTX 40 (Ada)"@,
{
    lemma_words_of_nvidia(name);
    let known = nvidia_tiers();
    assert forall|j: int| 0 <= j < 3 implies !names_tier(name, #[trigger] known[j]) by {
        assert(j == 0 || j == 1 || j == 2);
    }
    lemma_first_named_is(known, name, 3);
}

/// A device of NVIDIA whose name has one of "rtx 30", "rtx 20", "3090", "3080", "3070", "2080",
/// "2070", "2060", and none of the words of the groups before.
pub proof fn law_nvidia_rtx_30_and_20(
    tuning: Tuning,
    name: Seq<char>,
    vendor: u32,
    backend: Backend,
    max_workgroups: u32,
)
    requires
        tuning.suits(name, vendor, backend, max_workgroups),
        contains_word(name, "nvidia"@) || vendor == 0x10DE,
        !contains_word(name, "5090"@),
        !contains_word(name, "5080"@),
        !contains_word(name, "5070"@),
        !contains_word(name, "5060"@),
        !contains_word(name, "rtx 50"@),
        !contains_word(name, "4090"@),
        !contains_word(name, "4080"@),
        !contains_word(name, "rtx 40"@),
        !contains_word(name, "4070"@),
        !contains_word(name, "4060"@),
        contains_word(name, "rtx 30"@)
            || contains_word(name, "rtx 20"@)
            || contains_word(name, "3090"@)
            || contains_word(name, "3080"@)
            || contains_word(name, "3070"@)
            || contains_word(name, "2080"@)
            || contains_word(name, "2070"@)
            || contains_word(name, "2060"@),
    ensures
        ({
            let allowed = if max_workgroups <= 65535 {
                max_workgroups as int
            } else {
                65535
            };
            tuning.workgroups == if allowed / 12 >= 2048 {
                allowed / 12
            } else {
                2048
            }
        }),
        !tuning.is_fallback,
        tuning.tier@ == "NVIDIA RTX 30/20 (Ampere/Turing)"@,
{
    lemma_words_of_nvidia(name);
    let known = nvidia_tiers();
    assert forall|j: int| 0 <= j < 4 implies !names_tier(name, #[trigger] known[j]) by {
        assert(j == 0 || j == 1 || j == 2 || j == 3);
    }
    lemma_first_named_is(known, name, 4);
}

/// A device of NVIDIA whose name has one of "gtx 16", "gtx 10", "1660", "1650", "1080", "1070",
/// "1060", and none of the words of the groups before.
pub proof fn law_nvidia_gtx_16_and_10(
    tuning: Tuning,
    name: Seq<char>,
    vendor: u32,
    backend: Backend,
    max_workgroups: u32,
)
    requires
        tuning.suits(name, vendor, backend, max_workgroups),
        contains_word(name, "nvidia"@) || vendor == 0x10DE,
        !contains_word(name, "5090"@),
        !contains_word(name, "5080"@),
        !contains_word(name, "5070"@),
        !contains_word(name, "5060"@),
        !contains_word(name, "rtx 50"@),
        !contains_word(name, "4090"@),
        !contains_word(name, "4080"@),
        !contains_word(name, "rtx 40"@),
        !contains_word(name, "4070"@),
        !contains_word(name, "4060"@),
        !contains_word(name, "rtx 30"@),
        !contains_word(name, "rtx 20"@),
        !contains_word(name, "3090"@),
        !contains_word(name, "3080"@),
        !contains_word(name, "3070"@),
        !contains_word(name, "2080"@),
        !contains_word(name, "2070"@),
        !contains_word(name, "2060"@),
        contains_word(name, "gtx 16"@)
            || contains_word(name, "gtx 10"@)
            || contains_word(name, "1660"@)
            || contains_word(name, "1650"@)
            || contains_word(name, "1080"@)
            || contains_word(name, "1070"@)
            || contains_word(name, "1060"@),
    ensures
        ({
            let allowed = if max_workgroups <= 65535 {
                max_workgroups as int
            } else {
                65535
            };
            tuning.workgroups == if allowed / 16 >= 1024 {
                allowed / 16
            } else {
                1024
            }
        }),
        !tuning.is_fallback,
        tuning.tier@ == "NVIDIA GTX 16/10 (Turing/Pascal)"@,
{
    lemma_words_of_nvidia(name);
    let known = nvidia_tiers();
    assert forall|j: int| 0 <= j < 5 implies !names_tier(name, #[trigger] known[j]) by {
        assert(j == 0 || j == 1 || j == 2 || j == 3 || j == 4);
    }
    lemma_first_named_is(known, name, 5);
}

/// A device of NVIDIA whose name has "gtx", and none of the words of the groups before.
pub proof fn law_nvidia_gtx(
    tuning: Tuning,
    name: Seq<char>,
    vendor: u32,
    backend: Backend,
    max_workgroups: u32,
)
    requires
        tuning.suits(name, vendor, backend, max_workgroups),
        contains_word(name, "nvidia"@) || vendor == 0x10DE,
        !contains_word(name, "5090"@),
        !contains_word(name, "5080"@),
        !contains_word(name, "5070"@),
        !contains_word(name, "5060"@),
        !contains_word(name, "rtx 50"@),
        !contains_word(name, "4090"@),
        !contains_word(name, "4080"@),
        !contains_word(name, "rtx 40"@),
        !contains_word(name, "4070"@),
        !contains_word(name, "4060"@),
        !contains_word(name, "rtx 30"@),
        !contains_word(name, "rtx 20"@),
        !contains_word(name, "3090"@),
        !contains_word(name, "3080"@),
        !contains_word(name, "3070"@),
        !contains_word(name, "2080"@),
        !contains_word(name, "2070"@),
        !contains_word(name, "2060"@),
        !contains_word(name, "gtx 16"@),
        !contains_word(name, "gtx 10"@),
        !contains_word(name, "1660"@),
        !contains_word(name, "1650"@),
        !contains_word(name, "1080"@),
        !contains_word(name, "1070"@),
        !contains_word(name, "1060"@),
        contains_word(name, "gtx"@),
    ensures
        ({
            let allowed = if max_workgroups <= 65535 {
                max_workgroups as int
            } else {
                65535
            };
            tuning.workgroups == if allowed / 18 >= 768 {
                allowed / 18
            } else {
                768
            }
        }),
        !tuning.is_fallback,
        tuning.tier@ == "NVIDIA GTX (Legacy)"@,
{
    lemma_words_of_nvidia(name);
    let known = nvidia_tiers();
    assert forall|j: int| 0 <= j < 6 implies !names_tier(name, #[trigger] known[j]) by {
        assert(j == 0 || j == 1 || j == 2 || j == 3 || j == 4 || j == 5);
    }
    lemma_first_named_is(known, name, 6);
}

/// A device of NVIDIA whose name has one of "quadro", "rtx a", "tesla", and none of the words of
/// the groups before.
pub proof fn law_nvidia_professional(
    tuning: Tuning,
    name: Seq<char>,
    vendor: u32,
    backend: Backend,
    max_workgroups: u32,
)
    requires
        tuning.suits(name, vendor, backend, max_workgroups),
        contains_word(name, "nvidia"@) || vendor == 0x10DE,
        !contains_word(name, "5090"@),
        !contains_word(name, "5080"@),
        !contains_word(name, "5070"@),
        !contains_word(name, "5060"@),
        !contains_word(name, "rtx 50"@),
        !contains_word(name, "4090"@),
        !contains_word(name, "4080"@),
        !contains_word(name, "rtx 40"@),
        !contains_word(name, "4070"@),
        !contains_word(name, "4060"@),
        !contains_word(name, "rtx 30"@),
        !contains_word(name, "rtx 20"@),
        !contains_word(name, "3090"@),
        !contains_word(name, "3080"@),
        !contains_word(name, "3070"@),
        !contains_word(name, "2080"@),
        !contains_word(name, "2070"@),
        !contains_word(name, "2060"@),
        !contains_word(name, "gtx 16"@),
        !contains_word(name, "gtx 10"@),
        !contains_word(name, "1660"@),
        !contains_word(name, "1650"@),
        !contains_word(name, "1080"@),
        !contains_word(name, "1070"@),
        !contains_word(name, "1060"@),
        !contains_word(name, "gtx"@),
        contains_word(name, "quadro"@)
            || contains_word(name, "rtx a"@)
            || contains_word(name, "tesla"@),
    ensures
        ({
            let allowed = if max_workgroups <= 65535 {
                max_workgroups as int
            } else {
                65535
            };
            tuning.workgroups == if allowed / 10 >= 2560 {
                allowed / 10
            } else {
                2560
            }
        }),
        !tuning.is_fallback,
        tuning.tier@ == "NVIDIA Quadro/Professional"@,
{
    lemma_words_of_nvidia(name);
    let known = nvidia_tiers();
    assert forall|j: int| 0 <= j < 7 implies !names_tier(name, #[trigger] known[j]) by {
        assert(j == 0 || j == 1 || j == 2 || j == 3 || j == 4 || j == 5 || j == 6);
    }
    lemma_first_named_is(known, name, 7);
}

/// A device of NVIDIA whose name tells none of its known models.
pub proof fn law_nvidia_unknown(
    tuning: Tuning,
    name: Seq<char>,
    vendor: u32,
    backend: Backend,
    max_workgroups: u32,
)
    requires
        tuning.suits(name, vendor, backend, max_workgroups),
        contains_word(name, "nvidia"@) || vendor == 0x10DE,
        !contains_word(name, "5090"@),
        !contains_word(name, "5080"@),
        !contains_word(name, "5070"@),
        !contains_word(name, "5060"@),
        !contains_word(name, "rtx 50"@),
        !contains_word(name, "4090"@),
        !contains_word(name, "4080"@),
        !contains_word(name, "rtx 40"@),
        !contains_word(name, "4070"@),
        !contains_word(name, "4060"@),
        !contains_word(name, "rtx 30"@),
        !contains_word(name, "rtx 20"@),
        !contains_word(name, "3090"@),
        !contains_word(name, "3080"@),
        !contains_word(name, "3070"@),
        !contains_word(name, "2080"@),
        !contains_word(name, "2070"@),
        !contains_word(name, "2060"@),
        !contains_word(name, "gtx 16"@),
        !contains_word(name, "gtx 10"@),
        !contains_word(name, "1660"@),
        !contains_word(name, "1650"@),
        !contains_word(name, "1080"@),
        !contains_word(name, "1070"@),
        !contains_word(name, "1060"@),
        !contains_word(name, "gtx"@),
        !contains_word(name, "quadro"@),
        !contains_word(name, "rtx a"@),
        !contains_word(name, "tesla"@),
    ensures
        ({
            let allowed = if max_workgroups <= 65535 {
                max_workgroups as int
            } else {
                65535
            };
            tuning.workgroups == if allowed / 20 >= 512 {
                allowed / 20
            } else {
                512
            }
        }),
        tuning.is_fallback,
        tuning.tier@ == "NVIDIA Unknown"@,
{
    lemma_words_of_nvidia(name);
    let known = nvidia_tiers();
    assert forall|j: int| 0 <= j < known.len() implies !names_tier(name, #[trigger] known[j]) by {
        assert(j == 0 || j == 1 || j == 2 || j == 3 || j == 4 || j == 5 || j == 6 || j == 7);
    }
    lemma_none_named(known, name);
}

proof fn lemma_words_of_amd(name: Seq<char>)
    ensures
        amd_tiers().len() == 9,
        names_tier(name, amd_tiers()[0]) <==> (contains_word(name, "rx 9"@)
            || contains_word(name, "9070"@)
            || contains_word(name, "9080"@)),
        names_tier(name, amd_tiers()[1]) <==> (contains_word(name, "7900"@)),
        names_tier(name, amd_tiers()[2]) <==> (contains_word(name, "rx 7"@)
            || contains_word(name, "7800"@)
            || contains_word(name, "7700"@)
            || contains_word(name, "7600"@)),
        names_tier(name, amd_tiers()[3]) <==> (contains_word(name, "6900"@)
            || contains_word(name, "6800"@)),
        names_tier(name, amd_tiers()[4]) <==> (contains_word(name, "rx 6"@)
            || contains_word(name, "6700"@)
            || contains_word(name, "6600"@)),
        names_tier(name, amd_tiers()[5]) <==> (contains_word(name, "5700"@)),
        names_tier(name, amd_tiers()[6]) <==> (contains_word(name, "rx 5"@)
            || contains_word(name, "5600"@)
            || contains_word(name, "5500"@)),
        names_tier(name, amd_tiers()[7]) <==> (contains_word(name, "rx 4"@)
            || contains_word(name, "580"@)
            || contains_word(name, "570"@)),
        names_tier(name, amd_tiers()[8]) <==> (contains_word(name, "radeon pro"@)
            || contains_word(name, "instinct"@)
            || contains_word(name, "mi"@)),
{
    let words = amd_tiers()[0].words;
    if contains_word(name, "rx 9"@) {
        assert(contains_word(name, words[0]@));
    }
    if contains_word(name, "9070"@) {
        assert(contains_word(name, words[1]@));
    }
    if contains_word(name, "9080"@) {
        assert(contains_word(name, words[2]@));
    }
    let words = amd_tiers()[1].words;
    if contains_word(name, "7900"@) {
        assert(contains_word(name, words[0]@));
    }
    let words = amd_tiers()[2].words;
    if contains_word(name, "rx 7"@) {
        assert(contains_word(name, words[0]@));
    }
    if contains_word(name, "7800"@) {
        assert(contains_word(name, words[1]@));
    }
    if contains_word(name, "7700"@) {
        assert(contains_word(name, words[2]@));
    }
    if contains_word(name, "7600"@) {
        assert(contains_word(name, words[3]@));
    }
    let words = amd_tiers()[3].words;
    if contains_word(name, "6900"@) {
        assert(contains_word(name, words[0]@));
    }
    if contains_word(name, "6800"@) {
        assert(contains_word(name, words[1]@));
    }
    let words = amd_tiers()[4].words;
    if contains_word(name, "rx 6"@) {
        assert(contains_word(name, words[0]@));
    }
    if contains_word(name, "6700"@) {
        assert(contains_word(name, words[1]@));
    }
    if contains_word(name, "6600"@) {
        assert(contains_word(name, words[2]@));
    }
    let words = amd_tiers()[5].words;
    if contains_word(name, "5700"@) {
        assert(contains_word(name, words[0]@));
    }
    let words = amd_tiers()[6].words;
    if contains_word(name, "rx 5"@) {
        assert(contains_word(name, words[0]@));
    }
    if contains_word(name, "5600"@) {
        assert(contains_word(name, words[1]@));
    }
    if contains_word(name, "5500"@) {
        assert(contains_word(name, words[2]@));
    }
    let words = amd_tiers()[7].words;
    if contains_word(name, "rx 4"@) {
        assert(contains_word(name, words[0]@));
    }
    if contains_word(name, "580"@) {
        assert(contains_word(name, words[1]@));
    }
    if contains_word(name, "570"@) {
        assert(contains_word(name, words[2]@));
    }
    let words = amd_tiers()[8].words;
    if contains_word(name, "radeon pro"@) {
        assert(contains_word(name, words[0]@));
    }
    if contains_word(name, "instinct"@) {
        assert(contains_word(name, words[1]@));
    }
    if contains_word(name, "mi"@) {
        assert(contains_word(name, words[2]@));
    }
}

/// A device of AMD whose name has one of "rx 9", "9070", "9080".
pub proof fn law_amd_rx_9000(
    tuning: Tuning,
    name: Seq<char>,
    vendor: u32,
    backend: Backend,
    max_workgroups: u32,
)
    requires
        tuning.suits(name, vendor, backend, max_workgroups),
        !(contains_word(name, "nvidia"@) || vendor == 0x10DE),
        contains_word(name, "amd"@) || contains_word(name, "radeon"@) || vendor == 0x1002,
        contains_word(name, "rx 9"@)
            || contains_word(name, "9070"@)
            || contains_word(name, "9080"@),
    ensures
        ({
            let allowed = if max_workgroups <= 65535 {
                max_workgroups as int
            } else {
                65535
            };
            tuning.workgroups == if allowed / 8 >= 4096 {
                allowed / 8
            } else {
                4096
            }
        }),
        !tuning.is_fallback,
        tuning.tier@ == "AMD RX 9000 (RDNA 4)"@,
{
    lemma_words_of_amd(name);
    lemma_first_named_is(amd_tiers(), name, 0);
}

/// A device of AMD whose name has "7900", and none of the words of the groups before.
pub proof fn law_amd_rx_7900(
    tuning: Tuning,
    name: Seq<char>,
    vendor: u32,
    backend: Backend,
    max_workgroups: u32,
)
    requires
        tuning.suits(name, vendor, backend, max_workgroups),
        !(contains_word(name, "nvidia"@) || vendor == 0x10DE),
        contains_word(name, "amd"@) || contains_word(name, "radeon"@) || vendor == 0x1002,
        !contains_word(name, "rx 9"@),
        !contains_word(name, "9070"@),
        !contains_word(name, "9080"@),
        contains_word(name, "7900"@),
    ensures
        ({
            let allowed = if max_workgroups <= 65535 {
                max_workgroups as int
            } else {
                65535
            };
            tuning.workgroups == if allowed / 9 >= 3584 {
                allowed / 9
            } else {
                3584
            }
        }),
        !tuning.is_fallback,
        tuning.tier@ == "AMD RX 7900 (RDNA 3 Flagship)"@,
{
    lemma_words_of_amd(name);
    let known = amd_tiers();
    assert forall|j: int| 0 <= j < 1 implies !names_tier(name, #[trigger] known[j]) by {
        assert(j == 0);
    }
    lemma_first_named_is(known, name, 1);
}

/// A device of AMD whose name has one of "rx 7", "7800", "7700", "7600", and none of the words of
/// the groups before.
pub proof fn law_amd_rx_7000(
    tuning: Tuning,
    name: Seq<char>,
    vendor: u32,
    backend: Backend,
    max_workgroups: u32,
)
    requires
        tuning.suits(name, vendor, backend, max_workgroups),
        !(contains_word(name, "nvidia"@) || vendor == 0x10DE),
        contains_word(name, "amd"@) || contains_word(name, "radeon"@) || vendor == 0x1002,
        !contains_word(name, "rx 9"@),
        !contains_word(name, "9070"@),
        !contains_word(name, "9080"@),
        !contains_word(name, "7900"@),
        contains_word(name, "rx 7"@)
            || contains_word(name, "7800"@)
            || contains_word(name, "7700"@)
            || contains_word(name, "7600"@),
    ensures
        ({
            let allowed = if max_workgroups <= 65535 {
                max_workgroups as int
            } else {
                65535
            };
            tuning.workgroups == if allowed / 10 >= 3072 {
                allowed / 10
            } else {
                3072
            }
        }),
        !tuning.is_fallback,
        tuning.tier@ == "AMD RX 7000 (RDNA 3)"@,
{
    lemma_words_of_amd(name);
    let known = amd_tiers();
    assert forall|j: int| 0 <= j < 2 implies !names_tier(name, #[trigger] known[j]) by {
        assert(j == 0 || j == 1);
    }
    lemma_first_named_is(known, name, 2);
}

/// A device of AMD whose name has one of "6900", "6800", and none of the words of the groups
/// before.
pub proof fn law_amd_rx_6900_and_6800(
    tuning: Tuning,
    name: Seq<char>,
    vendor: u32,
    backend: Backend,
    max_workgroups: u32,
)
    requires
        tuning.suits(name, vendor, backend, max_workgroups),
        !(contains_word(name, "nvidia"@) || vendor == 0x10DE),
        contains_word(name, "amd"@) || contains_word(name, "radeon"@) || vendor == 0x1002,
        !contains_word(name, "rx 9"@),
        !contains_word(name, "9070"@),
        !contains_word(name, "9080"@),
        !contains_word(name, "7900"@),
        !contains_word(name, "rx 7"@),
        !contains_word(name, "7800"@),
        !contains_word(name, "7700"@),
        !contains_word(name, "7600"@),
        contains_word(name, "6900"@)
            || contains_word(name, "6800"@),
    ensures
        ({
            let allowed = if max_workgroups <= 65535 {
                max_workgroups as int
            } else {
                65535
            };
            tuning.workgroups == if allowed / 12 >= 2560 {
                allowed / 12
            } else {
                2560
            }
        }),
        !tuning.is_fallback,
        tuning.tier@ == "AMD RX 6900/6800 (RDNA 2 Flagship)"@,
{
    lemma_words_of_amd(name);
    let known = amd_tiers();
    assert forall|j: int| 0 <= j < 3 implies !names_tier(name, #[trigger] known[j]) by {
        assert(j == 0 || j == 1 || j == 2);
    }
    lemma_first_named_is(known, name, 3);
}

/// A device of AMD whose name has one of "rx 6", "6700", "6600", and none of the words of the
/// groups before.
pub proof fn law_amd_rx_6000(
    tuning: Tuning,
    name: Seq<char>,
    vendor: u32,
    backend: Backend,
    max_workgroups: u32,
)
    requires
        tuning.suits(name, vendor, backend, max_workgroups),
        !(contains_word(name, "nvidia"@) || vendor == 0x10DE),
        contains_word(name, "amd"@) || contains_word(name, "radeon"@) || vendor == 0x1002,
        !contains_word(name, "rx 9"@),
        !contains_word(name, "9070"@),
        !contains_word(name, "9080"@),
        !contains_word(name, "7900"@),
        !contains_word(name, "rx 7"@),
        !contains_word(name, "7800"@),
        !contains_word(name, "7700"@),
        !contains_word(name, "7600"@),
        !contains_word(name, "6900"@),
        !contains_word(name, "6800"@),
        contains_word(name, "rx 6"@)
            || contains_word(name, "6700"@)
            || contains_word(name, "6600"@),
    ensures
        ({
            let allowed = if max_workgroups <= 65535 {
                max_workgroups as int
            } else {
                65535
            };
            tuning.workgroups == if allowed / 14 >= 2048 {
                allowed / 14
            } else {
                2048
            }
        }),
        !tuning.is_fallback,
        tuning.tier@ == "AMD RX 6000 (RDNA 2)"@,
{
    lemma_words_of_amd(name);
    let known = amd_tiers();
    assert forall|j: int| 0 <= j < 4 implies !names_tier(name, #[trigger] known[j]) by {
        assert(j == 0 || j == 1 || j == 2 || j == 3);
    }
    lemma_first_named_is(known, name, 4);
}

/// A device of AMD whose name has "5700", and none of the words of the groups before.
pub proof fn law_amd_rx_5700(
    tuning: Tuning,
    name: Seq<char>,
    vendor: u32,
    backend: Backend,
    max_workgroups: u32,
)
    requires
        tuning.suits(name, vendor, backend, max_workgroups),
        !(contains_word(name, "nvidia"@) || vendor == 0x10DE),
        contains_word(name, "amd"@) || contains_word(name, "radeon"@) || vendor == 0x1002,
        !contains_word(name, "rx 9"@),
        !contains_word(name, "9070"@),
        !contains_word(name, "9080"@),
        !contains_word(name, "7900"@),
        !contains_word(name, "rx 7"@),
        !contains_word(name, "7800"@),
        !contains_word(name, "7700"@),
        !contains_word(name, "7600"@),
        !contains_word(name, "6900"@),
        !contains_word(name, "6800"@),
        !contains_word(name, "rx 6"@),
        !contains_word(name, "6700"@),
        !contains_word(name, "6600"@),
        contains_word(name, "5700"@),
    ensures
        ({
            let allowed = if max_workgroups <= 65535 {
                max_workgroups as int
            } else {
                65535
            };
            tuning.workgroups == if allowed / 16 >= 1536 {
                allowed / 16
            } else {
                1536
            }
        }),
        !tuning.is_fallback,
        tuning.tier@ == "AMD RX 5700 (RDNA 1)"@,
{
    lemma_words_of_amd(name);
    let known = amd_tiers();
    assert forall|j: int| 0 <= j < 5 implies !names_tier(name, #[trigger] known[j]) by {
        assert(j == 0 || j == 1 || j == 2 || j == 3 || j == 4);
    }
    lemma_first_named_is(known, name, 5);
}

/// A device of AMD whose name has one of "rx 5", "5600", "5500", and none of the words of the
/// groups before.
pub proof fn law_amd_rx_5000(
    tuning: Tuning,
    name: Seq<char>,
    vendor: u32,
    backend: Backend,
    max_workgroups: u32,
)
    requires
        tuning.suits(name, vendor, backend, max_workgroups),
        !(contains_word(name, "nvidia"@) || vendor == 0x10DE),
        contains_word(name, "amd"@) || contains_word(name, "radeon"@) || vendor == 0x1002,
        !contains_word(name, "rx 9"@),
        !contains_word(name, "9070"@),
        !contains_word(name, "9080"@),
        !contains_word(name, "7900"@),
        !contains_word(name, "rx 7"@),
        !contains_word(name, "7800"@),
        !contains_word(name, "7700"@),
        !contains_word(name, "7600"@),
        !contains_word(name, "6900"@),
        !contains_word(name, "6800"@),
        !contains_word(name, "rx 6"@),
        !contains_word(name, "6700"@),
        !contains_word(name, "6600"@),
        !contains_word(name, "5700"@),
        contains_word(name, "rx 5"@)
            || contains_word(name, "5600"@)
            || contains_word(name, "5500"@),
    ensures
        ({
            let allowed = if max_workgroups <= 65535 {
                max_workgroups as int
            } else {
                65535
            };
            tuning.workgroups == if allowed / 18 >= 1024 {
                allowed / 18
            } else {
                1024
            }
        }),
        !tuning.is_fallback,
        tuning.tier@ == "AMD RX 5000 (RDNA 1)"@,
{
    lemma_words_of_amd(name);
    let known = amd_tiers();
    assert forall|j: int| 0 <= j < 6 implies !names_tier(name, #[trigger] known[j]) by {
        assert(j == 0 || j == 1 || j == 2 || j == 3 || j == 4 || j == 5);
    }
    lemma_first_named_is(known, name, 6);
}

/// A device of AMD whose name has one of "rx 4", "580", "570", and none of the words of the groups
/// before.
pub proof fn law_amd_rx_500_and_400(
    tuning: Tuning,
    name: Seq<char>,
    vendor: u32,
    backend: Backend,
    max_workgroups: u32,
)
    requires
        tuning.suits(name, vendor, backend, max_workgroups),
        !(contains_word(name, "nvidia"@) || vendor == 0x10DE),
        contains_word(name, "amd"@) || contains_word(name, "radeon"@) || vendor == 0x1002,
        !contains_word(name, "rx 9"@),
        !contains_word(name, "9070"@),
        !contains_word(name, "9080"@),
        !contains_word(name, "7900"@),
        !contains_word(name, "rx 7"@),
        !contains_word(name, "7800"@),
        !contains_word(name, "7700"@),
        !contains_word(name, "7600"@),
        !contains_word(name, "6900"@),
        !contains_word(name, "6800"@),
        !contains_word(name, "rx 6"@),
        !contains_word(name, "6700"@),
        !contains_word(name, "6600"@),
        !contains_word(name, "5700"@),
        !contains_word(name, "rx 5"@),
        !contains_word(name, "5600"@),
        !contains_word(name, "5500"@),
        contains_word(name, "rx 4"@)
            || contains_word(name, "580"@)
            || contains_word(name, "570"@),
    ensures
        ({
            let allowed = if max_workgroups <= 65535 {
                max_workgroups as int
            } else {
                65535
            };
            tuning.workgroups == if allowed / 20 >= 768 {
                allowed / 20
            } else {
                768
            }
        }),
        !tuning.is_fallback,
        tuning.tier@ == "AMD RX 500/400 (Polaris)"@,
{
    lemma_words_of_amd(name);
    let known = amd_tiers();
    assert forall|j: int| 0 <= j < 7 implies !names_tier(name, #[trigger] known[j]) by {
        assert(j == 0 || j == 1 || j == 2 || j == 3 || j == 4 || j == 5 || j == 6);
    }
    lemma_first_named_is(known, name, 7);
}

/// A device of AMD whose name has one of "radeon pro", "instinct", "mi", and none of the words of
/// the groups before.
pub proof fn law_amd_professional(
    tuning: Tuning,
    name: Seq<char>,
    vendor: u32,
    backend: Backend,
    max_workgroups: u32,
)
    requires
        tuning.suits(name, vendor, backend, max_workgroups),
        !(contains_word(name, "nvidia"@) || vendor == 0x10DE),
        contains_word(name, "amd"@) || contains_word(name, "radeon"@) || vendor == 0x1002,
        !contains_word(name, "rx 9"@),
        !contains_word(name, "9070"@),
        !contains_word(name, "9080"@),
        !contains_word(name, "7900"@),
        !contains_word(name, "rx 7"@),
        !contains_word(name, "7800"@),
        !contains_word(name, "7700"@),
        !contains_word(name, "7600"@),
        !contains_word(name, "6900"@),
        !contains_word(name, "6800"@),
        !contains_word(name, "rx 6"@),
        !contains_word(name, "6700"@),
        !contains_word(name, "6600"@),
        !contains_word(name, "5700"@),
        !contains_word(name, "rx 5"@),
        !contains_word(name, "5600"@),
        !contains_word(name, "5500"@),
        !contains_word(name, "rx 4"@),
        !contains_word(name, "580"@),
        !contains_word(name, "570"@),
        contains_word(name, "radeon pro"@)
            || contains_word(name, "instinct"@)
            || contains_word(name, "mi"@),
    ensures
        ({
            let allowed = if max_workgroups <= 65535 {
                max_workgroups as int
            } else {
                65535
            };
            tuning.workgroups == if allowed / 10 >= 2560 {
                allowed / 10
            } else {
                2560
            }
        }),
        !tuning.is_fallback,
        tuning.tier@ == "AMD Radeon Pro/Instinct"@,
{
    lemma_words_of_amd(name);
    let known = amd_tiers();
    assert forall|j: int| 0 <= j < 8 implies !names_tier(name, #[trigger] known[j]) by {
        assert(j == 0 || j == 1 || j == 2 || j == 3 || j == 4 || j == 5 || j == 6 || j == 7);
    }
    lemma_first_named_is(known, name, 8);
}

/// A device of AMD whose name tells none of its known models.
pub proof fn law_amd_unknown(
    tuning: Tuning,
    name: Seq<char>,
    vendor: u32,
    backend: Backend,
    max_workgroups: u32,
)
    requires
        tuning.suits(name, vendor, backend, max_workgroups),
        !(contains_word(name, "nvidia"@) || vendor == 0x10DE),
        contains_word(name, "amd"@) || contains_word(name, "radeon"@) || vendor == 0x1002,
        !contains_word(name, "rx 9"@),
        !contains_word(name, "9070"@),
        !contains_word(name, "9080"@),
        !contains_word(name, "7900"@),
        !contains_word(name, "rx 7"@),
        !contains_word(name, "7800"@),
        !contains_word(name, "7700"@),
        !contains_word(name, "7600"@),
        !contains_word(name, "6900"@),
        !contains_word(name, "6800"@),
        !contains_word(name, "rx 6"@),
        !contains_word(name, "6700"@),
        !contains_word(name, "6600"@),
        !contains_word(name, "5700"@),
        !contains_word(name, "rx 5"@),
        !contains_word(name, "5600"@),
        !contains_word(name, "5500"@),
        !contains_word(name, "rx 4"@),
        !contains_word(name, "580"@),
        !contains_word(name, "570"@),
        !contains_word(name, "radeon pro"@),
        !contains_word(name, "instinct"@),
        !contains_word(name, "mi"@),
    ensures
        ({
            let allowed = if max_workgroups <= 65535 {
                max_workgroups as int
            } else {
                65535
            };
            tuning.workgroups == if allowed / 24 >= 512 {
                allowed / 24
            } else {
                512
            }
        }),
        tuning.is_fallback,
        tuning.tier@ == "AMD Unknown"@,
{
    lemma_words_of_amd(name);
    let known = amd_tiers();
    assert forall|j: int| 0 <= j < known.len() implies !names_tier(name, #[trigger] known[j]) by {
        assert(j == 0 || j == 1 || j == 2 || j == 3 || j == 4 || j == 5 || j == 6 || j == 7
            || j == 8);
    }
    lemma_none_named(known, name);
}

proof fn lemma_words_of_intel(name: Seq<char>)
    ensures
        intel_tiers().len() == 6,
        names_tier(name, intel_tiers()[0]) <==> (contains_word(name, "arc b"@)
            || contains_word(name, "b580"@)
            || contains_word(name, "b570"@)),
        names_tier(name, intel_tiers()[1]) <==> (contains_word(name, "a770"@)
            || contains_word(name, "a750"@)),
        names_tier(name, intel_tiers()[2]) <==> (contains_word(name, "a580"@)
            || contains_word(name, "a380"@)
            || contains_word(name, "arc a5"@)
            || contains_word(name, "arc a3"@)),
        names_tier(name, intel_tiers()[3]) <==> (contains_word(name, "a310"@)),
        names_tier(name, intel_tiers()[4]) <==> (contains_word(name, "iris xe"@)
            || contains_word(name, "iris plus"@)),
        names_tier(name, intel_tiers()[5]) <==> (contains_word(name, "uhd"@)
            || contains_word(name, "hd graphics"@)),
{
    let words = intel_tiers()[0].words;
    if contains_word(name, "arc b"@) {
        assert(contains_word(name, words[0]@));
    }
    if contains_word(name, "b580"@) {
        assert(contains_word(name, words[1]@));
    }
    if contains_word(name, "b570"@) {
        assert(contains_word(name, words[2]@));
    }
    let words = intel_tiers()[1].words;
    if contains_word(name, "a770"@) {
        assert(contains_word(name, words[0]@));
    }
    if contains_word(name, "a750"@) {
        assert(contains_word(name, words[1]@));
    }
    let words = intel_tiers()[2].words;
    if contains_word(name, "a580"@) {
        assert(contains_word(name, words[0]@));
    }
    if contains_word(name, "a380"@) {
        assert(contains_word(name, words[1]@));
    }
    if contains_word(name, "arc a5"@) {
        assert(contains_word(name, words[2]@));
    }
    if contains_word(name, "arc a3"@) {
        assert(contains_word(name, words[3]@));
    }
    let words = intel_tiers()[3].words;
    if contains_word(name, "a310"@) {
        assert(contains_word(name, words[0]@));
    }
    let words = intel_tiers()[4].words;
    if contains_word(name, "iris xe"@) {
        assert(contains_word(name, words[0]@));
    }
    if contains_word(name, "iris plus"@) {
        assert(contains_word(name, words[1]@));
    }
    let words = intel_tiers()[5].words;
    if contains_word(name, "uhd"@) {
        assert(contains_word(name, words[0]@));
    }
    if contains_word(name, "hd graphics"@) {
        assert(contains_word(name, words[1]@));
    }
}

/// A device of Intel whose name has one of "arc b", "b580", "b570".
pub proof fn law_intel_arc_b(
    tuning: Tuning,
    name: Seq<char>,
    vendor: u32,
    backend: Backend,
    max_workgroups: u32,
)
    requires
        tuning.suits(name, vendor, backend, max_workgroups),
        !(contains_word(name, "nvidia"@) || vendor == 0x10DE),
        !(contains_word(name, "amd"@) || contains_word(name, "radeon"@) || vendor == 0x1002),
        contains_word(name, "intel"@) || vendor == 0x8086,
        contains_word(name, "arc b"@)
            || contains_word(name, "b580"@)
            || contains_word(name, "b570"@),
    ensures
        ({
            let allowed = if max_workgroups <= 65535 {
                max_workgroups as int
            } else {
                65535
            };
            tuning.workgroups == if allowed / 10 >= 2560 {
                allowed / 10
            } else {
                2560
            }
        }),
        !tuning.is_fallback,
        tuning.tier@ == "Intel Arc B-Series (Battlemage)"@,
{
    lemma_words_of_intel(name);
    lemma_first_named_is(intel_tiers(), name, 0);
}

/// A device of Intel whose name has one of "a770", "a750", and none of the words of the groups
/// before.
pub proof fn law_intel_arc_a7(
    tuning: Tuning,
    name: Seq<char>,
    vendor: u32,
    backend: Backend,
    max_workgroups: u32,
)
    requires
        tuning.suits(name, vendor, backend, max_workgroups),
        !(contains_word(name, "nvidia"@) || vendor == 0x10DE),
        !(contains_word(name, "amd"@) || contains_word(name, "radeon"@) || vendor == 0x1002),
        contains_word(name, "intel"@) || vendor == 0x8086,
        !contains_word(name, "arc b"@),
        !contains_word(name, "b580"@),
        !contains_word(name, "b570"@),
        contains_word(name, "a770"@)
            || contains_word(name, "a750"@),
    ensures
        ({
            let allowed = if max_workgroups <= 65535 {
                max_workgroups as int
            } else {
                65535
            };
            tuning.workgroups == if allowed / 12 >= 2048 {
                allowed / 12
            } else {
                2048
            }
        }),
        !tuning.is_fallback,
        tuning.tier@ == "Intel Arc A7 (Alchemist)"@,
{
    lemma_words_of_intel(name);
    let known = intel_tiers();
    assert forall|j: int| 0 <= j < 1 implies !names_tier(name, #[trigger] known[j]) by {
        assert(j == 0);
    }
    lemma_first_named_is(known, name, 1);
}

/// A device of Intel whose name has one of "a580", "a380", "arc a5", "arc a3", and none of the
/// words of the groups before.
pub proof fn law_intel_arc_a5_and_a3(
    tuning: Tuning,
    name: Seq<char>,
    vendor: u32,
    backend: Backend,
    max_workgroups: u32,
)
    requires
        tuning.suits(name, vendor, backend, max_workgroups),
        !(contains_word(name, "nvidia"@) || vendor == 0x10DE),
        !(contains_word(name, "amd"@) || contains_word(name, "radeon"@) || vendor == 0x1002),
        contains_word(name, "intel"@) || vendor == 0x8086,
        !contains_word(name, "arc b"@),
        !contains_word(name, "b580"@),
        !contains_word(name, "b570"@),
        !contains_word(name, "a770"@),
        !contains_word(name, "a750"@),
        contains_word(name, "a580"@)
            || contains_word(name, "a380"@)
            || contains_word(name, "arc a5"@)
            || contains_word(name, "arc a3"@),
    ensures
        ({
            let allowed = if max_workgroups <= 65535 {
                max_workgroups as int
            } else {
                65535
            };
            tuning.workgroups == if allowed / 16 >= 1024 {
                allowed / 16
            } else {
                1024
            }
        }),
        !tuning.is_fallback,
        tuning.tier@ == "Intel Arc A5/A3 (Alchemist)"@,
{
    lemma_words_of_intel(name);
    let known = intel_tiers();
    assert forall|j: int| 0 <= j < 2 implies !names_tier(name, #[trigger] known[j]) by {
        assert(j == 0 || j == 1);
    }
    lemma_first_named_is(known, name, 2);
}

/// A device of Intel whose name has "a310", and none of the words of the groups before.
pub proof fn law_intel_a310(
    tuning: Tuning,
    name: Seq<char>,
    vendor: u32,
    backend: Backend,
    max_workgroups: u32,
)
    requires
        tuning.suits(name, vendor, backend, max_workgroups),
        !(contains_word(name, "nvidia"@) || vendor == 0x10DE),
        !(contains_word(name, "amd"@) || contains_word(name, "radeon"@) || vendor == 0x1002),
        contains_word(name, "intel"@) || vendor == 0x8086,
        !contains_word(name, "arc b"@),
        !contains_word(name, "b580"@),
        !contains_word(name, "b570"@),
        !contains_word(name, "a770"@),
        !contains_word(name, "a750"@),
        !contains_word(name, "a580"@),
        !contains_word(name, "a380"@),
        !contains_word(name, "arc a5"@),
        !contains_word(name, "arc a3"@),
        contains_word(name, "a310"@),
    ensures
        ({
            let allowed = if max_workgroups <= 65535 {
                max_workgroups as int
            } else {
                65535
            };
            tuning.workgroups == if allowed / 20 >= 512 {
                allowed / 20
            } else {
                512
            }
        }),
        !tuning.is_fallback,
        tuning.tier@ == "Intel Arc A3 Entry"@,
{
    lemma_words_of_intel(name);
    let known = intel_tiers();
    assert forall|j: int| 0 <= j < 3 implies !names_tier(name, #[trigger] known[j]) by {
        assert(j == 0 || j == 1 || j == 2);
    }
    lemma_first_named_is(known, name, 3);
}

/// A device of Intel whose name has one of "iris xe", "iris plus", and none of the words of the
/// groups before.
pub proof fn law_intel_iris(
    tuning: Tuning,
    name: Seq<char>,
    vendor: u32,
    backend: Backend,
    max_workgroups: u32,
)
    requires
        tuning.suits(name, vendor, backend, max_workgroups),
        !(contains_word(name, "nvidia"@) || vendor == 0x10DE),
        !(contains_word(name, "amd"@) || contains_word(name, "radeon"@) || vendor == 0x1002),
        contains_word(name, "intel"@) || vendor == 0x8086,
        !contains_word(name, "arc b"@),
        !contains_word(name, "b580"@),
        !contains_word(name, "b570"@),
        !contains_word(name, "a770"@),
        !contains_word(name, "a750"@),
        !contains_word(name, "a580"@),
        !contains_word(name, "a380"@),
        !contains_word(name, "arc a5"@),
        !contains_word(name, "arc a3"@),
        !contains_word(name, "a310"@),
        contains_word(name, "iris xe"@)
            || contains_word(name, "iris plus"@),
    ensures
        ({
            let allowed = if max_workgroups <= 65535 {
                max_workgroups as int
            } else {
                65535
            };
            tuning.workgroups == if allowed / 24 >= 384 {
                allowed / 24
            } else {
                384
            }
        }),
        !tuning.is_fallback,
        tuning.tier@ == "Intel Iris Xe/Plus (Integrated)"@,
{
    lemma_words_of_intel(name);
    let known = intel_tiers();
    assert forall|j: int| 0 <= j < 4 implies !names_tier(name, #[trigger] known[j]) by {
        assert(j == 0 || j == 1 || j == 2 || j == 3);
    }
    lemma_first_named_is(known, name, 4);
}

/// A device of Intel whose name has one of "uhd", "hd graphics", and none of the words of the
/// groups before.
pub proof fn law_intel_uhd(
    tuning: Tuning,
    name: Seq<char>,
    vendor: u32,
    backend: Backend,
    max_workgroups: u32,
)
    requires
        tuning.suits(name, vendor, backend, max_workgroups),
        !(contains_word(name, "nvidia"@) || vendor == 0x10DE),
        !(contains_word(name, "amd"@) || contains_word(name, "radeon"@) || vendor == 0x1002),
        contains_word(name, "intel"@) || vendor == 0x8086,
        !contains_word(name, "arc b"@),
        !contains_word(name, "b580"@),
        !contains_word(name, "b570"@),
        !contains_word(name, "a770"@),
        !contains_word(name, "a750"@),
        !contains_word(name, "a580"@),
        !contains_word(name, "a380"@),
        !contains_word(name, "arc a5"@),
        !contains_word(name, "arc a3"@),
        !contains_word(name, "a310"@),
        !contains_word(name, "iris xe"@),
        !contains_word(name, "iris plus"@),
        contains_word(name, "uhd"@)
            || contains_word(name, "hd graphics"@),
    ensures
        ({
            let allowed = if max_workgroups <= 65535 {
                max_workgroups as int
            } else {
                65535
            };
            tuning.workgroups == if allowed / 28 >= 256 {
                allowed / 28
            } else {
                256
            }
        }),
        !tuning.is_fallback,
        tuning.tier@ == "Intel UHD/HD Graphics (Integrated)"@,
{
    lemma_words_of_intel(name);
    let known = intel_tiers();
    assert forall|j: int| 0 <= j < 5 implies !names_tier(name, #[trigger] known[j]) by {
        assert(j == 0 || j == 1 || j == 2 || j == 3 || j == 4);
    }
    lemma_first_named_is(known, name, 5);
}

/// A device of Intel whose name tells none of its known models.
pub proof fn law_intel_unknown(
    tuning: Tuning,
    name: Seq<char>,
    vendor: u32,
    backend: Backend,
    max_workgroups: u32,
)
    requires
        tuning.suits(name, vendor, backend, max_workgroups),
        !(contains_word(name, "nvidia"@) || vendor == 0x10DE),
        !(contains_word(name, "amd"@) || contains_word(name, "radeon"@) || vendor == 0x1002),
        contains_word(name, "intel"@) || vendor == 0x8086,
        !contains_word(name, "arc b"@),
        !contains_word(name, "b580"@),
        !contains_word(name, "b570"@),
        !contains_word(name, "a770"@),
        !contains_word(name, "a750"@),
        !contains_word(name, "a580"@),
        !contains_word(name, "a380"@),
        !contains_word(name, "arc a5"@),
        !contains_word(name, "arc a3"@),
        !contains_word(name, "a310"@),
        !contains_word(name, "iris xe"@),
        !contains_word(name, "iris plus"@),
        !contains_word(name, "uhd"@),
        !contains_word(name, "hd graphics"@),
    ensures
        ({
            let allowed = if max_workgroups <= 65535 {
                max_workgroups as int
            } else {
                65535
            };
            tuning.workgroups == if allowed / 24 >= 256 {
                allowed / 24
            } else {
                256
            }
        }),
        tuning.is_fallback,
        tuning.tier@ == "Intel Unknown"@,
{
    lemma_words_of_intel(name);
    let known = intel_tiers();
    assert forall|j: int| 0 <= j < known.len() implies !names_tier(name, #[trigger] known[j]) by {
        assert(j == 0 || j == 1 || j == 2 || j == 3 || j == 4 || j == 5);
    }
    lemma_none_named(known, name);
}

proof fn lemma_words_of_apple(name: Seq<char>)
    ensures
        apple_tiers().len() == 16,
        names_tier(name, apple_tiers()[0]) <==> (contains_word(name, "m4 ultra"@)),
        names_tier(name, apple_tiers()[1]) <==> (contains_word(name, "m4 max"@)),
        names_tier(name, apple_tiers()[2]) <==> (contains_word(name, "m4 pro"@)),
        names_tier(name, apple_tiers()[3]) <==> (contains_word(name, "m4"@)),
        names_tier(name, apple_tiers()[4]) <==> (contains_word(name, "m3 ultra"@)),
        names_tier(name, apple_tiers()[5]) <==> (contains_word(name, "m3 max"@)),
        names_tier(name, apple_tiers()[6]) <==> (contains_word(name, "m3 pro"@)),
        names_tier(name, apple_tiers()[7]) <==> (contains_word(name, "m3"@)),
        names_tier(name, apple_tiers()[8]) <==> (contains_word(name, "m2 ultra"@)),
        names_tier(name, apple_tiers()[9]) <==> (contains_word(name, "m2 max"@)),
        names_tier(name, apple_tiers()[10]) <==> (contains_word(name, "m2 pro"@)),
        names_tier(name, apple_tiers()[11]) <==> (contains_word(name, "m2"@)),
        names_tier(name, apple_tiers()[12]) <==> (contains_word(name, "m1 ultra"@)),
        names_tier(name, apple_tiers()[13]) <==> (contains_word(name, "m1 max"@)),
        names_tier(name, apple_tiers()[14]) <==> (contains_word(name, "m1 pro"@)),
        names_tier(name, apple_tiers()[15]) <==> (contains_word(name, "m1"@)),
{
    let words = apple_tiers()[0].words;
    if contains_word(name, "m4 ultra"@) {
        assert(contains_word(name, words[0]@));
    }
    let words = apple_tiers()[1].words;
    if contains_word(name, "m4 max"@) {
        assert(contains_word(name, words[0]@));
    }
    let words = apple_tiers()[2].words;
    if contains_word(name, "m4 pro"@) {
        assert(contains_word(name, words[0]@));
    }
    let words = apple_tiers()[3].words;
    if contains_word(name, "m4"@) {
        assert(contains_word(name, words[0]@));
    }
    let words = apple_tiers()[4].words;
    if contains_word(name, "m3 ultra"@) {
        assert(contains_word(name, words[0]@));
    }
    let words = apple_tiers()[5].words;
    if contains_word(name, "m3 max"@) {
        assert(contains_word(name, words[0]@));
    }
    let words = apple_tiers()[6].words;
    if contains_word(name, "m3 pro"@) {
        assert(contains_word(name, words[0]@));
    }
    let words = apple_tiers()[7].words;
    if contains_word(name, "m3"@) {
        assert(contains_word(name, words[0]@));
    }
    let words = apple_tiers()[8].words;
    if contains_word(name, "m2 ultra"@) {
        assert(contains_word(name, words[0]@));
    }
    let words = apple_tiers()[9].words;
    if contains_word(name, "m2 max"@) {
        assert(contains_word(name, words[0]@));
    }
    let words = apple_tiers()[10].words;
    if contains_word(name, "m2 pro"@) {
        assert(contains_word(name, words[0]@));
    }
    let words = apple_tiers()[11].words;
    if contains_word(name, "m2"@) {
        assert(contains_word(name, words[0]@));
    }
    let words = apple_tiers()[12].words;
    if contains_word(name, "m1 ultra"@) {
        assert(contains_word(name, words[0]@));
    }
    let words = apple_tiers()[13].words;
    if contains_word(name, "m1 max"@) {
        assert(contains_word(name, words[0]@));
    }
    let words = apple_tiers()[14].words;
    if contains_word(name, "m1 pro"@) {
        assert(contains_word(name, words[0]@));
    }
    let words = apple_tiers()[15].words;
    if contains_word(name, "m1"@) {
        assert(contains_word(name, words[0]@));
    }
}

/// A device of Apple whose name has "m4 ultra".
pub proof fn law_apple_m4_ultra(
    tuning: Tuning,
    name: Seq<char>,
    vendor: u32,
    backend: Backend,
    max_workgroups: u32,
)
    requires
        tuning.suits(name, vendor, backend, max_workgroups),
        !(contains_word(name, "nvidia"@) || vendor == 0x10DE),
        !(contains_word(name, "amd"@) || contains_word(name, "radeon"@) || vendor == 0x1002),
        !(contains_word(name, "intel"@) || vendor == 0x8086),
        backend is Metal,
        contains_word(name, "m4 ultra"@),
    ensures
        ({
            let quarter = if max_workgroups <= 65535 {
                max_workgroups / 4
            } else {
                16383
            };
            tuning.workgroups == if quarter >= 1600 {
                1600
            } else if quarter >= 64 {
                quarter as int
            } else {
                64
            }
        }),
        !tuning.is_fallback,
        tuning.tier@ == "Apple M4 Ultra"@,
{
    lemma_words_of_apple(name);
    lemma_first_named_is(apple_tiers(), name, 0);
}

/// A device of Apple whose name has "m4 max", and none of the words of the groups before.
pub proof fn law_apple_m4_max(
    tuning: Tuning,
    name: Seq<char>,
    vendor: u32,
    backend: Backend,
    max_workgroups: u32,
)
    requires
        tuning.suits(name, vendor, backend, max_workgroups),
        !(contains_word(name, "nvidia"@) || vendor == 0x10DE),
        !(contains_word(name, "amd"@) || contains_word(name, "radeon"@) || vendor == 0x1002),
        !(contains_word(name, "intel"@) || vendor == 0x8086),
        backend is Metal,
        !contains_word(name, "m4 ultra"@),
        contains_word(name, "m4 max"@),
    ensures
        ({
            let quarter = if max_workgroups <= 65535 {
                max_workgroups / 4
            } else {
                16383
            };
            tuning.workgroups == if quarter >= 800 {
                800
            } else if quarter >= 64 {
                quarter as int
            } else {
                64
            }
        }),
        !tuning.is_fallback,
        tuning.tier@ == "Apple M4 Max"@,
{
    lemma_words_of_apple(name);
    let known = apple_tiers();
    assert forall|j: int| 0 <= j < 1 implies !names_tier(name, #[trigger] known[j]) by {
        assert(j == 0);
    }
    lemma_first_named_is(known, name, 1);
}

/// A device of Apple whose name has "m4 pro", and none of the words of the groups before.
pub proof fn law_apple_m4_pro(
    tuning: Tuning,
    name: Seq<char>,
    vendor: u32,
    backend: Backend,
    max_workgroups: u32,
)
    requires
        tuning.suits(name, vendor, backend, max_workgroups),
        !(contains_word(name, "nvidia"@) || vendor == 0x10DE),
        !(contains_word(name, "amd"@) || contains_word(name, "radeon"@) || vendor == 0x1002),
        !(contains_word(name, "intel"@) || vendor == 0x8086),
        backend is Metal,
        !contains_word(name, "m4 ultra"@),
        !contains_word(name, "m4 max"@),
        contains_word(name, "m4 pro"@),
    ensures
        ({
            let quarter = if max_workgroups <= 65535 {
                max_workgroups / 4
            } else {
                16383
            };
            tuning.workgroups == if quarter >= 400 {
                400
            } else if quarter >= 64 {
                quarter as int
            } else {
                64
            }
        }),
        !tuning.is_fallback,
        tuning.tier@ == "Apple M4 Pro"@,
{
    lemma_words_of_apple(name);
    let known = apple_tiers();
    assert forall|j: int| 0 <= j < 2 implies !names_tier(name, #[trigger] known[j]) by {
        assert(j == 0 || j == 1);
    }
    lemma_first_named_is(known, name, 2);
}

/// A device of Apple whose name has "m4", and none of the words of the groups before.
pub proof fn law_apple_m4(
    tuning: Tuning,
    name: Seq<char>,
    vendor: u32,
    backend: Backend,
    max_workgroups: u32,
)
    requires
        tuning.suits(name, vendor, backend, max_workgroups),
        !(contains_word(name, "nvidia"@) || vendor == 0x10DE),
        !(contains_word(name, "amd"@) || contains_word(name, "radeon"@) || vendor == 0x1002),
        !(contains_word(name, "intel"@) || vendor == 0x8086),
        backend is Metal,
        !contains_word(name, "m4 ultra"@),
        !contains_word(name, "m4 max"@),
        !contains_word(name, "m4 pro"@),
        contains_word(name, "m4"@),
    ensures
        ({
            let quarter = if max_workgroups <= 65535 {
                max_workgroups / 4
            } else {
                16383
            };
            tuning.workgroups == if quarter >= 200 {
                200
            } else if quarter >= 64 {
                quarter as int
            } else {
                64
            }
        }),
        !tuning.is_fallback,
        tuning.tier@ == "Apple M4"@,
{
    lemma_words_of_apple(name);
    let known = apple_tiers();
    assert forall|j: int| 0 <= j < 3 implies !names_tier(name, #[trigger] known[j]) by {
        assert(j == 0 || j == 1 || j == 2);
    }
    lemma_first_named_is(known, name, 3);
}

/// A device of Apple whose name has "m3 ultra", and none of the words of the groups before.
pub proof fn law_apple_m3_ultra(
    tuning: Tuning,
    name: Seq<char>,
    vendor: u32,
    backend: Backend,
    max_workgroups: u32,
)
    requires
        tuning.suits(name, vendor, backend, max_workgroups),
        !(contains_word(name, "nvidia"@) || vendor == 0x10DE),
        !(contains_word(name, "amd"@) || contains_word(name, "radeon"@) || vendor == 0x1002),
        !(contains_word(name, "intel"@) || vendor == 0x8086),
        backend is Metal,
        !contains_word(name, "m4 ultra"@),
        !contains_word(name, "m4 max"@),
        !contains_word(name, "m4 pro"@),
        !contains_word(name, "m4"@),
        contains_word(name, "m3 ultra"@),
    ensures
        ({
            let quarter = if max_workgroups <= 65535 {
                max_workgroups / 4
            } else {
                16383
            };
            tuning.workgroups == if quarter >= 1520 {
                1520
            } else if quarter >= 64 {
                quarter as int
            } else {
                64
            }
        }),
        !tuning.is_fallback,
        tuning.tier@ == "Apple M3 Ultra"@,
{
    lemma_words_of_apple(name);
    let known = apple_tiers();
    assert forall|j: int| 0 <= j < 4 implies !names_tier(name, #[trigger] known[j]) by {
        assert(j == 0 || j == 1 || j == 2 || j == 3);
    }
    lemma_first_named_is(known, name, 4);
}

/// A device of Apple whose name has "m3 max", and none of the words of the groups before.
pub proof fn law_apple_m3_max(
    tuning: Tuning,
    name: Seq<char>,
    vendor: u32,
    backend: Backend,
    max_workgroups: u32,
)
    requires
        tuning.suits(name, vendor, backend, max_workgroups),
        !(contains_word(name, "nvidia"@) || vendor == 0x10DE),
        !(contains_word(name, "amd"@) || contains_word(name, "radeon"@) || vendor == 0x1002),
        !(contains_word(name, "intel"@) || vendor == 0x8086),
        backend is Metal,
        !contains_word(name, "m4 ultra"@),
        !contains_word(name, "m4 max"@),
        !contains_word(name, "m4 pro"@),
        !contains_word(name, "m4"@),
        !contains_word(name, "m3 ultra"@),
        contains_word(name, "m3 max"@),
    ensures
        ({
            let quarter = if max_workgroups <= 65535 {
                max_workgroups / 4
            } else {
                16383
            };
            tuning.workgroups == if quarter >= 800 {
                800
            } else if quarter >= 64 {
                quarter as int
            } else {
                64
            }
        }),
        !tuning.is_fallback,
        tuning.tier@ == "Apple M3 Max"@,
{
    lemma_words_of_apple(name);
    let known = apple_tiers();
    assert forall|j: int| 0 <= j < 5 implies !names_tier(name, #[trigger] known[j]) by {
        assert(j == 0 || j == 1 || j == 2 || j == 3 || j == 4);
    }
    lemma_first_named_is(known, name, 5);
}

/// A device of Apple whose name has "m3 pro", and none of the words of the groups before.
pub proof fn law_apple_m3_pro(
    tuning: Tuning,
    name: Seq<char>,
    vendor: u32,
    backend: Backend,
    max_workgroups: u32,
)
    requires
        tuning.suits(name, vendor, backend, max_workgroups),
        !(contains_word(name, "nvidia"@) || vendor == 0x10DE),
        !(contains_word(name, "amd"@) || contains_word(name, "radeon"@) || vendor == 0x1002),
        !(contains_word(name, "intel"@) || vendor == 0x8086),
        backend is Metal,
        !contains_word(name, "m4 ultra"@),
        !contains_word(name, "m4 max"@),
        !contains_word(name, "m4 pro"@),
        !contains_word(name, "m4"@),
        !contains_word(name, "m3 ultra"@),
        !contains_word(name, "m3 max"@),
        contains_word(name, "m3 pro"@),
    ensures
        ({
            let quarter = if max_workgroups <= 65535 {
                max_workgroups / 4
            } else {
                16383
            };
            tuning.workgroups == if quarter >= 360 {
                360
            } else if quarter >= 64 {
                quarter as int
            } else {
                64
            }
        }),
        !tuning.is_fallback,
        tuning.tier@ == "Apple M3 Pro"@,
{
    lemma_words_of_apple(name);
    let known = apple_tiers();
    assert forall|j: int| 0 <= j < 6 implies !names_tier(name, #[trigger] known[j]) by {
        assert(j == 0 || j == 1 || j == 2 || j == 3 || j == 4 || j == 5);
    }
    lemma_first_named_is(known, name, 6);
}

/// A device of Apple whose name has "m3", and none of the words of the groups before.
pub proof fn law_apple_m3(
    tuning: Tuning,
    name: Seq<char>,
    vendor: u32,
    backend: Backend,
    max_workgroups: u32,
)
    requires
        tuning.suits(name, vendor, backend, max_workgroups),
        !(contains_word(name, "nvidia"@) || vendor == 0x10DE),
        !(contains_word(name, "amd"@) || contains_word(name, "radeon"@) || vendor == 0x1002),
        !(contains_word(name, "intel"@) || vendor == 0x8086),
        backend is Metal,
        !contains_word(name, "m4 ultra"@),
        !contains_word(name, "m4 max"@),
        !contains_word(name, "m4 pro"@),
        !contains_word(name, "m4"@),
        !contains_word(name, "m3 ultra"@),
        !contains_word(name, "m3 max"@),
        !contains_word(name, "m3 pro"@),
        contains_word(name, "m3"@),
    ensures
        ({
            let quarter = if max_workgroups <= 65535 {
                max_workgroups / 4
            } else {
                16383
            };
            tuning.workgroups == if quarter >= 200 {
                200
            } else if quarter >= 64 {
                quarter as int
            } else {
                64
            }
        }),
        !tuning.is_fallback,
        tuning.tier@ == "Apple M3"@,
{
    lemma_words_of_apple(name);
    let known = apple_tiers();
    assert forall|j: int| 0 <= j < 7 implies !names_tier(name, #[trigger] known[j]) by {
        assert(j == 0 || j == 1 || j == 2 || j == 3 || j == 4 || j == 5 || j == 6);
    }
    lemma_first_named_is(known, name, 7);
}

/// A device of Apple whose name has "m2 ultra", and none of the words of the groups before.
pub proof fn law_apple_m2_ultra(
    tuning: Tuning,
    name: Seq<char>,
    vendor: u32,
    backend: Backend,
    max_workgroups: u32,
)
    requires
        tuning.suits(name, vendor, backend, max_workgroups),
        !(contains_word(name, "nvidia"@) || vendor == 0x10DE),
        !(contains_word(name, "amd"@) || contains_word(name, "radeon"@) || vendor == 0x1002),
        !(contains_word(name, "intel"@) || vendor == 0x8086),
        backend is Metal,
        !contains_word(name, "m4 ultra"@),
        !contains_word(name, "m4 max"@),
        !contains_word(name, "m4 pro"@),
        !contains_word(name, "m4"@),
        !contains_word(name, "m3 ultra"@),
        !contains_word(name, "m3 max"@),
        !contains_word(name, "m3 pro"@),
        !contains_word(name, "m3"@),
        contains_word(name, "m2 ultra"@),
    ensures
        ({
            let quarter = if max_workgroups <= 65535 {
                max_workgroups / 4
            } else {
                16383
            };
            tuning.workgroups == if quarter >= 1520 {
                1520
            } else if quarter >= 64 {
                quarter as int
            } else {
                64
            }
        }),
        !tuning.is_fallback,
        tuning.tier@ == "Apple M2 Ultra"@,
{
    lemma_words_of_apple(name);
    let known = apple_tiers();
    assert forall|j: int| 0 <= j < 8 implies !names_tier(name, #[trigger] known[j]) by {
        assert(j == 0 || j == 1 || j == 2 || j == 3 || j == 4 || j == 5 || j == 6 || j == 7);
    }
    lemma_first_named_is(known, name, 8);
}

/// A device of Apple whose name has "m2 max", and none of the words of the groups before.
pub proof fn law_apple_m2_max(
    tuning: Tuning,
    name: Seq<char>,
    vendor: u32,
    backend: Backend,
    max_workgroups: u32,
)
    requires
        tuning.suits(name, vendor, backend, max_workgroups),
        !(contains_word(name, "nvidia"@) || vendor == 0x10DE),
        !(contains_word(name, "amd"@) || contains_word(name, "radeon"@) || vendor == 0x1002),
        !(contains_word(name, "intel"@) || vendor == 0x8086),
        backend is Metal,
        !contains_word(name, "m4 ultra"@),
        !contains_word(name, "m4 max"@),
        !contains_word(name, "m4 pro"@),
        !contains_word(name, "m4"@),
        !contains_word(name, "m3 ultra"@),
        !contains_word(name, "m3 max"@),
        !contains_word(name, "m3 pro"@),
        !contains_word(name, "m3"@),
        !contains_word(name, "m2 ultra"@),
        contains_word(name, "m2 max"@),
    ensures
        ({
            let quarter = if max_workgroups <= 65535 {
                max_workgroups / 4
            } else {
                16383
            };
            tuning.workgroups == if quarter >= 760 {
                760
            } else if quarter >= 64 {
                quarter as int
            } else {
                64
            }
        }),
        !tuning.is_fallback,
        tuning.tier@ == "Apple M2 Max"@,
{
    lemma_words_of_apple(name);
    let known = apple_tiers();
    assert forall|j: int| 0 <= j < 9 implies !names_tier(name, #[trigger] known[j]) by {
        assert(j == 0 || j == 1 || j == 2 || j == 3 || j == 4 || j == 5 || j == 6 || j == 7
            || j == 8);
    }
    lemma_first_named_is(known, name, 9);
}

/// A device of Apple whose name has "m2 pro", and none of the words of the groups before.
pub proof fn law_apple_m2_pro(
    tuning: Tuning,
    name: Seq<char>,
    vendor: u32,
    backend: Backend,
    max_workgroups: u32,
)
    requires
        tuning.suits(name, vendor, backend, max_workgroups),
        !(contains_word(name, "nvidia"@) || vendor == 0x10DE),
        !(contains_word(name, "amd"@) || contains_word(name, "radeon"@) || vendor == 0x1002),
        !(contains_word(name, "intel"@) || vendor == 0x8086),
        backend is Metal,
        !contains_word(name, "m4 ultra"@),
        !contains_word(name, "m4 max"@),
        !contains_word(name, "m4 pro"@),
        !contains_word(name, "m4"@),
        !contains_word(name, "m3 ultra"@),
        !contains_word(name, "m3 max"@),
        !contains_word(name, "m3 pro"@),
        !contains_word(name, "m3"@),
        !contains_word(name, "m2 ultra"@),
        !contains_word(name, "m2 max"@),
        contains_word(name, "m2 pro"@),
    ensures
        ({
            let quarter = if max_workgroups <= 65535 {
                max_workgroups / 4
            } else {
                16383
            };
            tuning.workgroups == if quarter >= 380 {
                380
            } else if quarter >= 64 {
                quarter as int
            } else {
                64
            }
        }),
        !tuning.is_fallback,
        tuning.tier@ == "Apple M2 Pro"@,
{
    lemma_words_of_apple(name);
    let known = apple_tiers();
    assert forall|j: int| 0 <= j < 10 implies !names_tier(name, #[trigger] known[j]) by {
        assert(j == 0 || j == 1 || j == 2 || j == 3 || j == 4 || j == 5 || j == 6 || j == 7
            || j == 8 || j == 9);
    }
    lemma_first_named_is(known, name, 10);
}

/// A device of Apple whose name has "m2", and none of the words of the groups before.
pub proof fn law_apple_m2(
    tuning: Tuning,
    name: Seq<char>,
    vendor: u32,
    backend: Backend,
    max_workgroups: u32,
)
    requires
        tuning.suits(name, vendor, backend, max_workgroups),
        !(contains_word(name, "nvidia"@) || vendor == 0x10DE),
        !(contains_word(name, "amd"@) || contains_word(name, "radeon"@) || vendor == 0x1002),
        !(contains_word(name, "intel"@) || vendor == 0x8086),
        backend is Metal,
        !contains_word(name, "m4 ultra"@),
        !contains_word(name, "m4 max"@),
        !contains_word(name, "m4 pro"@),
        !contains_word(name, "m4"@),
        !contains_word(name, "m3 ultra"@),
        !contains_word(name, "m3 max"@),
        !contains_word(name, "m3 pro"@),
        !contains_word(name, "m3"@),
        !contains_word(name, "m2 ultra"@),
        !contains_word(name, "m2 max"@),
        !contains_word(name, "m2 pro"@),
        contains_word(name, "m2"@),
    ensures
        ({
            let quarter = if max_workgroups <= 65535 {
                max_workgroups / 4
            } else {
                16383
            };
            tuning.workgroups == if quarter >= 200 {
                200
            } else if quarter >= 64 {
                quarter as int
            } else {
                64
            }
        }),
        !tuning.is_fallback,
        tuning.tier@ == "Apple M2"@,
{
    lemma_words_of_apple(name);
    let known = apple_tiers();
    assert forall|j: int| 0 <= j < 11 implies !names_tier(name, #[trigger] known[j]) by {
        assert(j == 0 || j == 1 || j == 2 || j == 3 || j == 4 || j == 5 || j == 6 || j == 7
            || j == 8 || j == 9 || j == 10);
    }
    lemma_first_named_is(known, name, 11);
}

/// A device of Apple whose name has "m1 ultra", and none of the words of the groups before.
pub proof fn law_apple_m1_ultra(
    tuning: Tuning,
    name: Seq<char>,
    vendor: u32,
    backend: Backend,
    max_workgroups: u32,
)
    requires
        tuning.suits(name, vendor, backend, max_workgroups),
        !(contains_word(name, "nvidia"@) || vendor == 0x10DE),
        !(contains_word(name, "amd"@) || contains_word(name, "radeon"@) || vendor == 0x1002),
        !(contains_word(name, "intel"@) || vendor == 0x8086),
        backend is Metal,
        !contains_word(name, "m4 ultra"@),
        !contains_word(name, "m4 max"@),
        !contains_word(name, "m4 pro"@),
        !contains_word(name, "m4"@),
        !contains_word(name, "m3 ultra"@),
        !contains_word(name, "m3 max"@),
        !contains_word(name, "m3 pro"@),
        !contains_word(name, "m3"@),
        !contains_word(name, "m2 ultra"@),
        !contains_word(name, "m2 max"@),
        !contains_word(name, "m2 pro"@),
        !contains_word(name, "m2"@),
        contains_word(name, "m1 ultra"@),
    ensures
        ({
            let quarter = if max_workgroups <= 65535 {
                max_workgroups / 4
            } else {
                16383
            };
            tuning.workgroups == if quarter >= 1280 {
                1280
            } else if quarter >= 64 {
                quarter as int
            } else {
                64
            }
        }),
        !tuning.is_fallback,
        tuning.tier@ == "Apple M1 Ultra"@,
{
    lemma_words_of_apple(name);
    let known = apple_tiers();
    assert forall|j: int| 0 <= j < 12 implies !names_tier(name, #[trigger] known[j]) by {
        assert(j == 0 || j == 1 || j == 2 || j == 3 || j == 4 || j == 5 || j == 6 || j == 7
            || j == 8 || j == 9 || j == 10 || j == 11);
    }
    lemma_first_named_is(known, name, 12);
}

/// A device of Apple whose name has "m1 max", and none of the words of the groups before.
pub proof fn law_apple_m1_max(
    tuning: Tuning,
    name: Seq<char>,
    vendor: u32,
    backend: Backend,
    max_workgroups: u32,
)
    requires
        tuning.suits(name, vendor, backend, max_workgroups),
        !(contains_word(name, "nvidia"@) || vendor == 0x10DE),
        !(contains_word(name, "amd"@) || contains_word(name, "radeon"@) || vendor == 0x1002),
        !(contains_word(name, "intel"@) || vendor == 0x8086),
        backend is Metal,
        !contains_word(name, "m4 ultra"@),
        !contains_word(name, "m4 max"@),
        !contains_word(name, "m4 pro"@),
        !contains_word(name, "m4"@),
        !contains_word(name, "m3 ultra"@),
        !contains_word(name, "m3 max"@),
        !contains_word(name, "m3 pro"@),
        !contains_word(name, "m3"@),
        !contains_word(name, "m2 ultra"@),
        !contains_word(name, "m2 max"@),
        !contains_word(name, "m2 pro"@),
        !contains_word(name, "m2"@),
        !contains_word(name, "m1 ultra"@),
        contains_word(name, "m1 max"@),
    ensures
        ({
            let quarter = if max_workgroups <= 65535 {
                max_workgroups / 4
            } else {
                16383
            };
            tuning.workgroups == if quarter >= 640 {
                640
            } else if quarter >= 64 {
                quarter as int
            } else {
                64
            }
        }),
        !tuning.is_fallback,
        tuning.tier@ == "Apple M1 Max"@,
{
    lemma_words_of_apple(name);
    let known = apple_tiers();
    assert forall|j: int| 0 <= j < 13 implies !names_tier(name, #[trigger] known[j]) by {
        assert(j == 0 || j == 1 || j == 2 || j == 3 || j == 4 || j == 5 || j == 6 || j == 7
            || j == 8 || j == 9 || j == 10 || j == 11 || j == 12);
    }
    lemma_first_named_is(known, name, 13);
}

/// A device of Apple whose name has "m1 pro", and none of the words of the groups before.
pub proof fn law_apple_m1_pro(
    tuning: Tuning,
    name: Seq<char>,
    vendor: u32,
    backend: Backend,
    max_workgroups: u32,
)
    requires
        tuning.suits(name, vendor, backend, max_workgroups),
        !(contains_word(name, "nvidia"@) || vendor == 0x10DE),
        !(contains_word(name, "amd"@) || contains_word(name, "radeon"@) || vendor == 0x1002),
        !(contains_word(name, "intel"@) || vendor == 0x8086),
        backend is Metal,
        !contains_word(name, "m4 ultra"@),
        !contains_word(name, "m4 max"@),
        !contains_word(name, "m4 pro"@),
        !contains_word(name, "m4"@),
        !contains_word(name, "m3 ultra"@),
        !contains_word(name, "m3 max"@),
        !contains_word(name, "m3 pro"@),
        !contains_word(name, "m3"@),
        !contains_word(name, "m2 ultra"@),
        !contains_word(name, "m2 max"@),
        !contains_word(name, "m2 pro"@),
        !contains_word(name, "m2"@),
        !contains_word(name, "m1 ultra"@),
        !contains_word(name, "m1 max"@),
        contains_word(name, "m1 pro"@),
    ensures
        ({
            let quarter = if max_workgroups <= 65535 {
                max_workgroups / 4
            } else {
                16383
            };
            tuning.workgroups == if quarter >= 320 {
                320
            } else if quarter >= 64 {
                quarter as int
            } else {
                64
            }
        }),
        !tuning.is_fallback,
        tuning.tier@ == "Apple M1 Pro"@,
{
    lemma_words_of_apple(name);
    let known = apple_tiers();
    assert forall|j: int| 0 <= j < 14 implies !names_tier(name, #[trigger] known[j]) by {
        assert(j == 0 || j == 1 || j == 2 || j == 3 || j == 4 || j == 5 || j == 6 || j == 7
            || j == 8 || j == 9 || j == 10 || j == 11 || j == 12 || j == 13);
    }
    lemma_first_named_is(known, name, 14);
}

/// A device of Apple whose name has "m1", and none of the words of the groups before.
pub proof fn law_apple_m1(
    tuning: Tuning,
    name: Seq<char>,
    vendor: u32,
    backend: Backend,
    max_workgroups: u32,
)
    requires
        tuning.suits(name, vendor, backend, max_workgroups),
        !(contains_word(name, "nvidia"@) || vendor == 0x10DE),
        !(contains_word(name, "amd"@) || contains_word(name, "radeon"@) || vendor == 0x1002),
        !(contains_word(name, "intel"@) || vendor == 0x8086),
        backend is Metal,
        !contains_word(name, "m4 ultra"@),
        !contains_word(name, "m4 max"@),
        !contains_word(name, "m4 pro"@),
        !contains_word(name, "m4"@),
        !contains_word(name, "m3 ultra"@),
        !contains_word(name, "m3 max"@),
        !contains_word(name, "m3 pro"@),
        !contains_word(name, "m3"@),
        !contains_word(name, "m2 ultra"@),
        !contains_word(name, "m2 max"@),
        !contains_word(name, "m2 pro"@),
        !contains_word(name, "m2"@),
        !contains_word(name, "m1 ultra"@),
        !contains_word(name, "m1 max"@),
        !contains_word(name, "m1 pro"@),
        contains_word(name, "m1"@),
    ensures
        ({
            let quarter = if max_workgroups <= 65535 {
                max_workgroups / 4
            } else {
                16383
            };
            tuning.workgroups == if quarter >= 160 {
                160
            } else if quarter >= 64 {
                quarter as int
            } else {
                64
            }
        }),
        !tuning.is_fallback,
        tuning.tier@ == "Apple M1"@,
{
    lemma_words_of_apple(name);
    let known = apple_tiers();
    assert forall|j: int| 0 <= j < 15 implies !names_tier(name, #[trigger] known[j]) by {
        assert(j == 0 || j == 1 || j == 2 || j == 3 || j == 4 || j == 5 || j == 6 || j == 7
            || j == 8 || j == 9 || j == 10 || j == 11 || j == 12 || j == 13 || j == 14);
    }
    lemma_first_named_is(known, name, 15);
}

/// A device of Apple whose name tells none of its known models.
pub proof fn law_apple_unknown(
    tuning: Tuning,
    name: Seq<char>,
    vendor: u32,
    backend: Backend,
    max_workgroups: u32,
)
    requires
        tuning.suits(name, vendor, backend, max_workgroups),
        !(contains_word(name, "nvidia"@) || vendor == 0x10DE),
        !(contains_word(name, "amd"@) || contains_word(name, "radeon"@) || vendor == 0x1002),
        !(contains_word(name, "intel"@) || vendor == 0x8086),
        backend is Metal,
        !contains_word(name, "m4 ultra"@),
        !contains_word(name, "m4 max"@),
        !contains_word(name, "m4 pro"@),
        !contains_word(name, "m4"@),
        !contains_word(name, "m3 ultra"@),
        !contains_word(name, "m3 max"@),
        !contains_word(name, "m3 pro"@),
        !contains_word(name, "m3"@),
        !contains_word(name, "m2 ultra"@),
        !contains_word(name, "m2 max"@),
        !contains_word(name, "m2 pro"@),
        !contains_word(name, "m2"@),
        !contains_word(name, "m1 ultra"@),
        !contains_word(name, "m1 max"@),
        !contains_word(name, "m1 pro"@),
        !contains_word(name, "m1"@),
    ensures
        ({
            let quarter = if max_workgroups <= 65535 {
                max_workgroups / 4
            } else {
                16383
            };
            tuning.workgroups == if quarter >= 160 {
                160
            } else if quarter >= 64 {
                quarter as int
            } else {
                64
            }
        }),
        tuning.is_fallback,
        tuning.tier@ == "Apple Silicon Unknown"@,
{
    lemma_words_of_apple(name);
    let known = apple_tiers();
    assert forall|j: int| 0 <= j < known.len() implies !names_tier(name, #[trigger] known[j]) by {
        assert(j == 0 || j == 1 || j == 2 || j == 3 || j == 4 || j == 5 || j == 6 || j == 7
            || j == 8 || j == 9 || j == 10 || j == 11 || j == 12 || j == 13 || j == 14
            || j == 15);
    }
    lemma_none_named(known, name);
}

/// A device of no known maker.
pub proof fn law_unknown_maker(
    tuning: Tuning,
    name: Seq<char>,
    vendor: u32,
    backend: Backend,
    max_workgroups: u32,
)
    requires
        tuning.suits(name, vendor, backend, max_workgroups),
        !(contains_word(name, "nvidia"@) || vendor == 0x10DE),
        !(contains_word(name, "amd"@) || contains_word(name, "radeon"@) || vendor == 0x1002),
        !(contains_word(name, "intel"@) || vendor == 0x8086),
        !(backend is Metal),
    ensures
        ({
            let allowed = if max_workgroups <= 65535 {
                max_workgroups as int
            } else {
                65535
            };
            tuning.workgroups == if allowed / 16 >= 512 {
                allowed / 16
            } else {
                512
            }
        }),
        tuning.is_fallback,
        tuning.tier@ == "Unknown GPU"@,
{
}

/// `tune` returns the tuning of a device with the given name, vendor, backend and limit.
pub proof fn law_tune_returns_what_suits(
    name: &str,
    vendor: u32,
    backend: Backend,
    max_workgroups: u32,
    tuning: Tuning,
)
    requires
        call_ensures(tune, (name, vendor, backend, max_workgroups), tuning),
    ensures
        tuning.suits(name@, vendor, backend, max_workgroups),
{
}

/// `get_vendor_specific_dispatch` tunes an adapter by its name in lower case, and by its own vendor
/// and backend. Of an ASCII name the lower case has 'A' to 'Z' replaced by 'a' to 'z'.
pub proof fn law_adapter_is_tuned_by_its_own_data(
    info: &AdapterInfo,
    max_workgroups: u32,
    tuning: Tuning,
)
    requires
        call_ensures(get_vendor_specific_dispatch, (info, max_workgroups), tuning),
    ensures
        tuning.suits(lowercase(info.name@), info.vendor, info.backend, max_workgroups),
        is_ascii_text(info.name@) ==> tuning.suits(
            ascii_lowercase(info.name@),
            info.vendor,
            info.backend,
            max_workgroups,
        ),
{
}

} // verus!
