//! What selection promises, said of the adapters' own data.

use crate::adapter::{AdapterInfo, DeviceType};
use crate::selection::{
    discrete, law_ranking_is_the_rank_order, lemma_best_of_gpu, lemma_ranking_len,
    lemma_ranks_before_order, lemma_selection_from_ranking, ranking, ranks_before, represents_gpu,
    select_adapter_indices, select_adapters, selection, skip_reason, skip_reasons, SkipReason,
};
use crate::text::{law_dictionary_order, lemma_text_connected, lemma_text_irreflexive};
use vstd::prelude::*;

verus! {

/// Adapter `i` comes first, or is adapter `j`: discrete before virtual before integrated before
/// other before software; among equal ones Metal before Vulkan before DX12 before GL before the
/// browser before none; then the name that is smaller where the two first differ, or ends there;
/// then the adapter that was enumerated first.
pub open spec fn goes_first(infos: Seq<AdapterInfo>, i: int, j: int) -> bool {
    let a = infos[i];
    let b = infos[j];
    &&& b.device_type is DiscreteGpu ==> a.device_type is DiscreteGpu
    &&& b.device_type is VirtualGpu ==> a.device_type is DiscreteGpu || a.device_type is VirtualGpu
    &&& b.device_type is IntegratedGpu ==> a.device_type is DiscreteGpu
        || a.device_type is VirtualGpu || a.device_type is IntegratedGpu
    &&& b.device_type is Other ==> !(a.device_type is Cpu)
    &&& a.device_type == b.device_type ==> {
        &&& b.backend is Metal ==> a.backend is Metal
        &&& b.backend is Vulkan ==> a.backend is Metal || a.backend is Vulkan
        &&& b.backend is Dx12 ==> a.backend is Metal || a.backend is Vulkan || a.backend is Dx12
        &&& b.backend is Gl ==> !(a.backend is BrowserWebGpu) && !(a.backend is Noop)
        &&& b.backend is BrowserWebGpu ==> !(a.backend is Noop)
        &&& a.backend == b.backend && a.name@ == b.name@ ==> i <= j
        &&& a.backend == b.backend && a.name@ != b.name@ ==> exists|k: int|
            {
                &&& 0 <= k <= a.name@.len()
                &&& k < b.name@.len()
                &&& #[trigger] a.name@.take(k) == b.name@.take(k)
                &&& k == a.name@.len() || a.name@[k] < b.name@[k]
            }
    }
}

proof fn lemma_ranks_go_first(infos: Seq<AdapterInfo>, i: int, j: int)
    requires
        i == j || ranks_before(infos, i, j),
    ensures
        goes_first(infos, i, j),
{
    let a = infos[i].name@;
    let b = infos[j].name@;
    lemma_text_irreflexive(a);
    if a != b {
        lemma_text_connected(a, b);
    }
    law_dictionary_order(a, b);
}

/// Every adapter that is no software renderer has its physical GPU selected where the limit is no
/// less than the number of adapters.
pub proof fn law_large_limit_selects_every_gpu(infos: Seq<AdapterInfo>, n: usize, i: int)
    requires
        infos.len() <= n,
        0 <= i < infos.len(),
        infos[i].device_type != DeviceType::Cpu,
    ensures
        ({
            let picked = selection(infos, Some(n));
            exists|k: int|
                {
                    &&& 0 <= k < picked.len()
                    &&& infos[#[trigger] picked[k] as int].vendor == infos[i].vendor
                    &&& infos[picked[k] as int].device == infos[i].device
                    &&& infos[picked[k] as int].name@ == infos[i].name@
                }
        }),
{
    let picked = selection(infos, Some(n));
    law_ranking_is_the_rank_order(infos, picked);
    lemma_ranking_len(infos);
    let best = lemma_best_of_gpu(infos, i);
    assert(represents_gpu(infos, (best as usize) as int));
    assert(picked.contains(best as usize));
}

/// Without a limit nothing is selected only if all adapters are software renderers; and a limit
/// other than zero makes no difference to that.
pub proof fn law_nothing_selected_means_all_software(infos: Seq<AdapterInfo>, n: usize)
    requires
        infos.len() <= usize::MAX,
        n > 0,
    ensures
        selection(infos, None).len() == 0 <==> (forall|i: int|
            0 <= i < infos.len() ==> (#[trigger] infos[i]).device_type == DeviceType::Cpu),
        selection(infos, Some(n)).len() == 0 <==> (forall|i: int|
            0 <= i < infos.len() ==> (#[trigger] infos[i]).device_type == DeviceType::Cpu),
        selection(infos, Some(0)).len() == 0,
{
    lemma_selection_from_ranking(infos, None);
    lemma_selection_from_ranking(infos, Some(n));
    let ranked = ranking(infos);
    let auto = selection(infos, None);
    let limited = selection(infos, Some(n));
    if exists|i: int|
        0 <= i < infos.len() && (#[trigger] infos[i]).device_type != DeviceType::Cpu {
        let i = choose|i: int|
            0 <= i < infos.len() && (#[trigger] infos[i]).device_type != DeviceType::Cpu;
        let best = lemma_best_of_gpu(infos, i);
        assert(represents_gpu(infos, (best as usize) as int));
        assert(ranked.contains(best as usize));
        if exists|j: int| discrete(infos, j) {
            let j = choose|j: int| discrete(infos, j);
            let first = lemma_best_of_gpu(infos, j);
            lemma_ranks_go_first(infos, first, j);
            assert(represents_gpu(infos, (first as usize) as int));
            assert(ranked.contains(first as usize));
            assert(discrete(infos, (first as usize) as int));
            assert(auto.contains(first as usize));
        }
    } else {
        if auto.len() > 0 {
            assert(represents_gpu(infos, auto[0] as int));
        }
        if limited.len() > 0 {
            assert(represents_gpu(infos, limited[0] as int));
        }
    }
}

/// Everything that is selected is an adapter and no software renderer.
pub proof fn law_selected_adapters_are_hardware(
    infos: Seq<AdapterInfo>,
    max_devices: Option<usize>,
    k: int,
)
    requires
        infos.len() <= usize::MAX,
        0 <= k < selection(infos, max_devices).len(),
    ensures
        selection(infos, max_devices)[k] < infos.len(),
        infos[selection(infos, max_devices)[k] as int].device_type != DeviceType::Cpu,
{
    lemma_selection_from_ranking(infos, max_devices);
}

/// No two of the selected adapters agree in vendor, device and name.
pub proof fn law_selected_adapters_are_different_gpus(
    infos: Seq<AdapterInfo>,
    max_devices: Option<usize>,
    a: int,
    b: int,
)
    requires
        infos.len() <= usize::MAX,
        0 <= a < b < selection(infos, max_devices).len(),
    ensures
        ({
            let first = infos[selection(infos, max_devices)[a] as int];
            let second = infos[selection(infos, max_devices)[b] as int];
            first.vendor != second.vendor || first.device != second.device || first.name@
                != second.name@
        }),
{
    lemma_selection_from_ranking(infos, max_devices);
    let i = selection(infos, max_devices)[a] as int;
    let j = selection(infos, max_devices)[b] as int;
    assert(represents_gpu(infos, i) && represents_gpu(infos, j) && ranks_before(infos, i, j));
    lemma_ranks_before_order(infos, i, j, i);
}

/// The selected adapters come best first.
pub proof fn law_selected_adapters_in_order(
    infos: Seq<AdapterInfo>,
    max_devices: Option<usize>,
    a: int,
    b: int,
)
    requires
        infos.len() <= usize::MAX,
        0 <= a < b < selection(infos, max_devices).len(),
    ensures
        goes_first(
            infos,
            selection(infos, max_devices)[a] as int,
            selection(infos, max_devices)[b] as int,
        ),
        selection(infos, max_devices)[a] != selection(infos, max_devices)[b],
{
    lemma_selection_from_ranking(infos, max_devices);
    let i = selection(infos, max_devices)[a] as int;
    let j = selection(infos, max_devices)[b] as int;
    assert(ranks_before(infos, i, j));
    lemma_ranks_before_order(infos, i, j, i);
    lemma_ranks_go_first(infos, i, j);
}

/// A selected adapter is the best one of its physical GPU, software renderers apart.
pub proof fn law_selected_adapter_is_the_best_of_its_gpu(
    infos: Seq<AdapterInfo>,
    max_devices: Option<usize>,
    k: int,
    j: int,
)
    requires
        infos.len() <= usize::MAX,
        0 <= k < selection(infos, max_devices).len(),
        0 <= j < infos.len(),
        infos[j].device_type != DeviceType::Cpu,
        infos[j].vendor == infos[selection(infos, max_devices)[k] as int].vendor,
        infos[j].device == infos[selection(infos, max_devices)[k] as int].device,
        infos[j].name@ == infos[selection(infos, max_devices)[k] as int].name@,
    ensures
        goes_first(infos, selection(infos, max_devices)[k] as int, j),
{
    lemma_selection_from_ranking(infos, max_devices);
    let i = selection(infos, max_devices)[k] as int;
    assert(represents_gpu(infos, i));
    lemma_ranks_go_first(infos, i, j);
}

/// A limit cuts off the end of what a large limit selects, and only what is beyond the limit.
pub proof fn law_limit_cuts_off_the_end(infos: Seq<AdapterInfo>, n: usize, all: usize)
    requires
        infos.len() <= all,
    ensures
        n <= selection(infos, Some(all)).len() ==> selection(infos, Some(n)) == selection(
            infos,
            Some(all),
        ).take(n as int),
        n >= selection(infos, Some(all)).len() ==> selection(infos, Some(n)) == selection(
            infos,
            Some(all),
        ),
{
    lemma_ranking_len(infos);
    let ranked = ranking(infos);
    if n == ranked.len() {
        assert(ranked.take(n as int) =~= ranked);
    }
}

/// Without a limit, on a machine with a discrete GPU, the discrete GPUs are selected, all of them
/// and nothing else.
pub proof fn law_auto_detect_selects_the_discrete_gpus(infos: Seq<AdapterInfo>, i: int)
    requires
        infos.len() <= usize::MAX,
        0 <= i < infos.len(),
        infos[i].device_type == DeviceType::DiscreteGpu,
    ensures
        ({
            let picked = selection(infos, None);
            &&& forall|k: int|
                0 <= k < picked.len() ==> infos[#[trigger] picked[k] as int].device_type
                    == DeviceType::DiscreteGpu
            &&& exists|k: int|
                {
                    &&& 0 <= k < picked.len()
                    &&& infos[#[trigger] picked[k] as int].vendor == infos[i].vendor
                    &&& infos[picked[k] as int].device == infos[i].device
                    &&& infos[picked[k] as int].name@ == infos[i].name@
                }
        }),
{
    let picked = selection(infos, None);
    lemma_selection_from_ranking(infos, None);
    assert(discrete(infos, i));
    assert forall|k: int| 0 <= k < picked.len() implies infos[#[trigger] picked[
        k
    ] as int].device_type == DeviceType::DiscreteGpu by {
        assert(picked.contains(picked[k]));
    }
    let best = lemma_best_of_gpu(infos, i);
    lemma_ranks_go_first(infos, best, i);
    assert(represents_gpu(infos, (best as usize) as int));
    assert(ranking(infos).contains(best as usize));
    assert(discrete(infos, (best as usize) as int));
    assert(picked.contains(best as usize));
}

/// Without a limit, on a machine without a discrete GPU, the one best adapter is selected.
pub proof fn law_auto_detect_selects_one_without_a_discrete_gpu(infos: Seq<AdapterInfo>, i: int)
    requires
        infos.len() <= usize::MAX,
        forall|j: int|
            0 <= j < infos.len() ==> (#[trigger] infos[j]).device_type != DeviceType::DiscreteGpu,
        0 <= i < infos.len(),
        infos[i].device_type != DeviceType::Cpu,
    ensures
        selection(infos, None).len() == 1,
        goes_first(infos, selection(infos, None)[0] as int, i),
{
    let ranked = ranking(infos);
    law_ranking_is_the_rank_order(infos, ranked);
    assert(!(exists|j: int| discrete(infos, j)));
    let best = lemma_best_of_gpu(infos, i);
    assert(represents_gpu(infos, (best as usize) as int));
    assert(ranked.contains(best as usize));
    let at = choose|at: int| 0 <= at < ranked.len() && ranked[at] == best as usize;
    let first = ranked[0] as int;
    if at > 0 {
        assert(ranks_before(infos, ranked[0] as int, ranked[at] as int));
        lemma_ranks_before_order(infos, first, best, i);
    }
    lemma_ranks_go_first(infos, first, i);
}

/// An adapter whose GPU the limit leaves out comes after everything that was selected, and the
/// limit is used up.
pub proof fn law_limit_leaves_out_the_last(infos: Seq<AdapterInfo>, n: usize, i: int)
    requires
        infos.len() <= usize::MAX,
        0 <= i < infos.len(),
        infos[i].device_type != DeviceType::Cpu,
        forall|k: int|
            0 <= k < selection(infos, Some(n)).len() ==> {
                ||| infos[#[trigger] selection(infos, Some(n))[k] as int].vendor != infos[i].vendor
                ||| infos[selection(infos, Some(n))[k] as int].device != infos[i].device
                ||| infos[selection(infos, Some(n))[k] as int].name@ != infos[i].name@
            },
    ensures
        selection(infos, Some(n)).len() == n,
        forall|k: int|
            0 <= k < n ==> goes_first(infos, #[trigger] selection(infos, Some(n))[k] as int, i),
{
    let ranked = ranking(infos);
    let picked = selection(infos, Some(n));
    law_ranking_is_the_rank_order(infos, ranked);
    let best = lemma_best_of_gpu(infos, i);
    assert(represents_gpu(infos, (best as usize) as int));
    assert(ranked.contains(best as usize));
    let at = choose|at: int| 0 <= at < ranked.len() && ranked[at] == best as usize;
    if at < picked.len() {
        assert(picked[at] == ranked[at]);
        assert(infos[picked[at] as int].vendor == infos[i].vendor);
    }
    assert forall|k: int| 0 <= k < n implies goes_first(
        infos,
        #[trigger] picked[k] as int,
        i,
    ) by {
        assert(picked[k] == ranked[k]);
        assert(ranks_before(infos, ranked[k] as int, ranked[at] as int));
        lemma_ranks_before_order(infos, ranked[k] as int, best, i);
        lemma_ranks_go_first(infos, ranked[k] as int, i);
    }
}

/// Why an adapter is passed over: a software renderer for that; another adapter if a better one of
/// its GPU exists; one that is neither, without a limit, if there is a discrete GPU and it is none.
/// Nothing else is a reason.
pub proof fn law_reasons_to_pass_over(
    infos: Seq<AdapterInfo>,
    max_devices: Option<usize>,
    i: int,
)
    requires
        0 <= i < infos.len(),
    ensures
        ({
            let software = infos[i].device_type == DeviceType::Cpu;
            let duplicate = exists|j: int|
                {
                    &&& 0 <= j < infos.len()
                    &&& j != i
                    &&& (#[trigger] infos[j]).device_type != DeviceType::Cpu
                    &&& infos[j].vendor == infos[i].vendor
                    &&& infos[j].device == infos[i].device
                    &&& infos[j].name@ == infos[i].name@
                    &&& goes_first(infos, j, i)
                };
            let not_discrete = max_devices is None && infos[i].device_type
                != DeviceType::DiscreteGpu && exists|j: int|
                0 <= j < infos.len() && (#[trigger] infos[j]).device_type
                    == DeviceType::DiscreteGpu;
            skip_reason(infos, max_devices, i) == if software {
                Some(SkipReason::Software)
            } else if duplicate {
                Some(SkipReason::DuplicateGpu)
            } else if not_discrete {
                Some(SkipReason::NotDiscrete)
            } else {
                None
            }
        }),
{
    if infos[i].device_type != DeviceType::Cpu {
        let best = lemma_best_of_gpu(infos, i);
        if best != i {
            lemma_ranks_go_first(infos, best, i);
            lemma_ranks_before_order(infos, best, i, best);
            assert(infos[best].device_type != DeviceType::Cpu);
        } else {
            assert forall|j: int|
                {
                    &&& 0 <= j < infos.len()
                    &&& j != i
                    &&& (#[trigger] infos[j]).device_type != DeviceType::Cpu
                    &&& infos[j].vendor == infos[i].vendor
                    &&& infos[j].device == infos[i].device
                    &&& infos[j].name@ == infos[i].name@
                } implies !goes_first(infos, j, i) by {
                assert(ranks_before(infos, i, j));
                lemma_ranks_go_first(infos, i, j);
            }
        }
    }
    assert((exists|j: int| discrete(infos, j)) <==> (exists|j: int|
        0 <= j < infos.len() && (#[trigger] infos[j]).device_type == DeviceType::DiscreteGpu)) by {
        if exists|j: int|
            0 <= j < infos.len() && (#[trigger] infos[j]).device_type == DeviceType::DiscreteGpu {
            let j = choose|j: int|
                0 <= j < infos.len() && (#[trigger] infos[j]).device_type
                    == DeviceType::DiscreteGpu;
            assert(discrete(infos, j));
        }
    }
}

/// `select_adapter_indices` returns the selection, `select_adapters` the adapters at its places, and
/// `skip_reasons` the reason for each adapter.
pub proof fn law_what_selection_returns<A>(
    infos: &[AdapterInfo],
    adapters: Vec<A>,
    max_devices: Option<usize>,
    picked: Vec<usize>,
    chosen: Vec<A>,
    reasons: Vec<Option<SkipReason>>,
)
    requires
        infos@.len() == adapters@.len(),
        call_ensures(select_adapter_indices, (infos, max_devices), picked),
        call_ensures(select_adapters::<A>, (infos, adapters, max_devices), chosen),
        call_ensures(skip_reasons, (infos, max_devices), reasons),
    ensures
        picked@ == selection(infos@, max_devices),
        chosen@.len() == picked@.len(),
        forall|k: int|
            0 <= k < chosen@.len() ==> #[trigger] chosen@[k] == adapters@[picked@[k] as int],
        reasons@.len() == infos@.len(),
        forall|i: int|
            0 <= i < reasons@.len() ==> #[trigger] reasons@[i] == skip_reason(
                infos@,
                max_devices,
                i,
            ),
{
}

} // verus!
