//! Which adapters the engine initializes, and in which order.
//!
//! One physical GPU is often exposed several times, once per graphics API, and hybrid machines
//! expose an integrated GPU beside a discrete one. Selection drops software adapters, keeps the
//! best adapter of each physical GPU, ranks what is left and applies the device limit.

use crate::adapter::{
    api_rank, is_preferred, is_same_gpu, preferred, same_gpu, type_rank, AdapterInfo, DeviceType,
};
use crate::text::{
    lemma_text_connected, lemma_text_irreflexive, lemma_text_transitive, text_precedes,
};
use vstd::prelude::*;
use vstd::relations::{sorted_by, total_ordering};

verus! {

/// Adapter `i` exists and is no software renderer.
pub open spec fn usable(infos: Seq<AdapterInfo>, i: int) -> bool {
    0 <= i < infos.len() && infos[i].device_type != DeviceType::Cpu
}

/// Adapter `i` exists and is a discrete GPU.
pub open spec fn discrete(infos: Seq<AdapterInfo>, i: int) -> bool {
    0 <= i < infos.len() && infos[i].device_type == DeviceType::DiscreteGpu
}

/// Adapter `i` ranks before adapter `j`; of two equally good ones the first enumerated does.
pub open spec fn ranks_before(infos: Seq<AdapterInfo>, i: int, j: int) -> bool {
    preferred(infos[i], infos[j]) || (!preferred(infos[j], infos[i]) && i < j)
}

/// Adapter `i` is usable and the best of all usable adapters of its physical GPU.
pub open spec fn represents_gpu(infos: Seq<AdapterInfo>, i: int) -> bool {
    &&& usable(infos, i)
    &&& forall|j: int|
        #![trigger infos[j]]
        usable(infos, j) && same_gpu(infos[j], infos[i]) && j != i ==> ranks_before(infos, i, j)
}

/// One adapter per physical GPU, best first.
pub open spec fn ranking(infos: Seq<AdapterInfo>) -> Seq<usize> {
    Seq::new(infos.len(), |i: int| i as usize).filter(
        |i: usize| represents_gpu(infos, i as int),
    ).sort_by(|i: usize, j: usize| i == j || ranks_before(infos, i as int, j as int))
}

/// The first `n` entries of `s`, or all of them where there are fewer.
pub open spec fn at_most(s: Seq<usize>, n: nat) -> Seq<usize> {
    if n < s.len() {
        s.take(n as int)
    } else {
        s
    }
}

/// The adapters to initialize. Without a limit these are all discrete GPUs, or the single best
/// GPU where there is no discrete one; with a limit, the best ones up to the limit.
pub open spec fn selection(infos: Seq<AdapterInfo>, max_devices: Option<usize>) -> Seq<usize> {
    match max_devices {
        None => if exists|i: int| discrete(infos, i) {
            ranking(infos).filter(|i: usize| discrete(infos, i as int))
        } else {
            at_most(ranking(infos), 1)
        },
        Some(n) => at_most(ranking(infos), n as nat),
    }
}

proof fn lemma_preferred_order(a: AdapterInfo, b: AdapterInfo, c: AdapterInfo)
    ensures
        !preferred(a, a),
        !(preferred(a, b) && preferred(b, a)),
        preferred(a, b) && preferred(b, c) ==> preferred(a, c),
        preferred(a, b) && !preferred(c, b) ==> preferred(a, c),
        !preferred(b, a) && preferred(b, c) ==> preferred(a, c),
{
    lemma_text_irreflexive(a.name@);
    if text_precedes(a.name@, b.name@) && text_precedes(b.name@, a.name@) {
        lemma_text_transitive(a.name@, b.name@, a.name@);
    }
    if text_precedes(a.name@, b.name@) && text_precedes(b.name@, c.name@) {
        lemma_text_transitive(a.name@, b.name@, c.name@);
    }
    if b.name@ != c.name@ {
        lemma_text_connected(b.name@, c.name@);
    }
    if a.name@ != b.name@ {
        lemma_text_connected(a.name@, b.name@);
    }
}

pub(crate) proof fn lemma_ranks_before_order(infos: Seq<AdapterInfo>, i: int, j: int, k: int)
    ensures
        !ranks_before(infos, i, i),
        !(ranks_before(infos, i, j) && ranks_before(infos, j, i)),
        i != j ==> ranks_before(infos, i, j) || ranks_before(infos, j, i),
        ranks_before(infos, i, j) && ranks_before(infos, j, k) ==> ranks_before(infos, i, k),
{
    lemma_preferred_order(infos[i], infos[j], infos[k]);
    lemma_preferred_order(infos[k], infos[j], infos[i]);
    lemma_preferred_order(infos[i], infos[k], infos[j]);
    lemma_preferred_order(infos[k], infos[i], infos[j]);
    lemma_preferred_order(infos[j], infos[i], infos[k]);
}

/// `s` lists exactly the best adapter of each physical GPU, in strict rank order.
pub open spec fn is_ranking(infos: Seq<AdapterInfo>, s: Seq<usize>) -> bool {
    &&& forall|k: int| 0 <= k < s.len() ==> represents_gpu(infos, #[trigger] s[k] as int)
    &&& forall|i: usize| #[trigger] represents_gpu(infos, i as int) ==> s.contains(i)
    &&& in_rank_order(infos, s)
}

/// Every entry of `s` ranks before all later ones.
pub open spec fn in_rank_order(infos: Seq<AdapterInfo>, s: Seq<usize>) -> bool {
    forall|a: int, b: int|
        0 <= a < b < s.len() ==> ranks_before(infos, #[trigger] s[a] as int, #[trigger] s[b] as int)
}

proof fn lemma_rank_order_unique(infos: Seq<AdapterInfo>, s: Seq<usize>, t: Seq<usize>)
    requires
        in_rank_order(infos, s),
        in_rank_order(infos, t),
        forall|i: usize| s.contains(i) <==> t.contains(i),
    ensures
        s == t,
    decreases s.len(),
{
    if s.len() == 0 {
        if t.len() > 0 {
            assert(t.contains(t[0]));
        }
        assert(s =~= t);
    } else {
        assert(s.contains(s[0]));
        let a = choose|a: int| 0 <= a < t.len() && t[a] == s[0];
        assert(t.contains(t[0]));
        let b = choose|b: int| 0 <= b < s.len() && s[b] == t[0];
        lemma_ranks_before_order(infos, s[0] as int, t[0] as int, s[0] as int);
        assert(s[0] == t[0]) by {
            if a > 0 && b > 0 {
                assert(ranks_before(infos, t[0] as int, t[a] as int));
                assert(ranks_before(infos, s[0] as int, s[b] as int));
            }
        }
        let s1 = s.drop_first();
        let t1 = t.drop_first();
        assert(in_rank_order(infos, s1)) by {
            assert forall|a: int, b: int| 0 <= a < b < s1.len() implies ranks_before(
                infos,
                #[trigger] s1[a] as int,
                #[trigger] s1[b] as int,
            ) by {
                assert(s1[a] == s[a + 1] && s1[b] == s[b + 1]);
            }
        }
        assert(in_rank_order(infos, t1)) by {
            assert forall|a: int, b: int| 0 <= a < b < t1.len() implies ranks_before(
                infos,
                #[trigger] t1[a] as int,
                #[trigger] t1[b] as int,
            ) by {
                assert(t1[a] == t[a + 1] && t1[b] == t[b + 1]);
            }
        }
        assert forall|i: usize| s1.contains(i) <==> t1.contains(i) by {
            lemma_rest_contains(infos, s, i);
            lemma_rest_contains(infos, t, i);
        }
        lemma_rank_order_unique(infos, s1, t1);
        assert(s =~= seq![s[0]] + s1);
        assert(t =~= seq![t[0]] + t1);
    }
}

proof fn lemma_rest_contains(infos: Seq<AdapterInfo>, s: Seq<usize>, i: usize)
    requires
        s.len() > 0,
        in_rank_order(infos, s),
    ensures
        s.drop_first().contains(i) <==> s.contains(i) && i != s[0],
{
    if s.drop_first().contains(i) {
        let k = choose|k: int| 0 <= k < s.drop_first().len() && s.drop_first()[k] == i;
        assert(s[k + 1] == i);
        assert(ranks_before(infos, s[0] as int, s[k + 1] as int));
        lemma_ranks_before_order(infos, i as int, i as int, i as int);
    }
    if s.contains(i) && i != s[0] {
        let k = choose|k: int| 0 <= k < s.len() && s[k] == i;
        assert(s.drop_first()[k - 1] == i);
    }
}

proof fn lemma_filter_keeps_order(
    s: Seq<usize>,
    pred: spec_fn(usize) -> bool,
    before: spec_fn(usize, usize) -> bool,
)
    requires
        sorted_by(s, before),
    ensures
        sorted_by(s.filter(pred), before),
        forall|x: usize| #[trigger] s.filter(pred).contains(x) <==> s.contains(x) && pred(x),
    decreases s.len(),
{
    reveal(Seq::filter);
    if s.len() > 0 {
        let rest = s.drop_last();
        let kept = rest.filter(pred);
        lemma_filter_keeps_order(rest, pred, before);
        assert forall|x: usize| #[trigger] s.filter(pred).contains(x) <==> s.contains(x) && pred(
            x,
        ) by {
            assert(s.contains(x) <==> rest.contains(x) || x == s.last()) by {
                if s.contains(x) {
                    let k = choose|k: int| 0 <= k < s.len() && s[k] == x;
                    if k < s.len() - 1 {
                        assert(rest[k] == x);
                    }
                }
                if rest.contains(x) {
                    let k = choose|k: int| 0 <= k < rest.len() && rest[k] == x;
                    assert(s[k] == x);
                }
                assert(s[s.len() - 1] == s.last());
            }
            if pred(s.last()) {
                let out = kept.push(s.last());
                assert(s.filter(pred) == out);
                if kept.contains(x) {
                    let k = choose|k: int| 0 <= k < kept.len() && kept[k] == x;
                    assert(out[k] == x);
                }
                assert(out[kept.len() as int] == s.last());
                if out.contains(x) {
                    let k = choose|k: int| 0 <= k < out.len() && out[k] == x;
                    if k < kept.len() {
                        assert(kept[k] == x);
                    }
                }
            }
        }
        assert forall|a: int, b: int| 0 <= a < b < s.filter(pred).len() implies #[trigger] before(
            s.filter(pred)[a],
            s.filter(pred)[b],
        ) by {
            if b < kept.len() {
                assert(before(kept[a], kept[b]));
            } else {
                assert(kept.contains(kept[a]));
                assert(rest.contains(kept[a]));
                let k = choose|k: int| 0 <= k < rest.len() && rest[k] == kept[a];
                assert(before(s[k], s[s.len() - 1]));
            }
        }
    }
}

/// The ranking lists exactly the best adapter of each physical GPU, in strict rank order, and it
/// is the only list that does.
pub proof fn law_ranking_is_the_rank_order(infos: Seq<AdapterInfo>, s: Seq<usize>)
    requires
        infos.len() <= usize::MAX,
    ensures
        is_ranking(infos, ranking(infos)),
        is_ranking(infos, s) <==> s == ranking(infos),
{
    let all = Seq::new(infos.len(), |i: int| i as usize);
    let pred = |i: usize| represents_gpu(infos, i as int);
    let leq = |i: usize, j: usize| i == j || ranks_before(infos, i as int, j as int);
    let kept = all.filter(pred);
    let sorted = kept.sort_by(leq);
    lemma_filter_keeps_order(all, pred, |a: usize, b: usize| a < b);
    assert(total_ordering(leq)) by {
        assert forall|x: usize, y: usize| #[trigger] leq(x, y) && #[trigger] leq(y, x) implies x
            == y by {
            lemma_ranks_before_order(infos, x as int, y as int, x as int);
        }
        assert forall|x: usize, y: usize, z: usize| #[trigger]
            leq(x, y) && #[trigger] leq(y, z) implies leq(x, z) by {
            lemma_ranks_before_order(infos, x as int, y as int, z as int);
        }
        assert forall|x: usize, y: usize| #[trigger] leq(x, y) || #[trigger] leq(y, x) by {
            lemma_ranks_before_order(infos, x as int, y as int, x as int);
        }
    }
    kept.lemma_sort_by_ensures(leq);
    assert(sorted == ranking(infos));
    assert(kept.no_duplicates()) by {
        let less = |a: usize, b: usize| a < b;
        assert forall|a: int, b: int| 0 <= a < b < kept.len() implies kept[a] != kept[b] by {
            assert(less(kept[a], kept[b]));
        }
    }
    kept.lemma_multiset_has_no_duplicates();
    sorted.lemma_multiset_has_no_duplicates_conv();
    assert forall|x: usize| sorted.contains(x) <==> kept.contains(x) by {
        broadcast use vstd::seq_lib::group_to_multiset_ensures;

        assert(sorted.contains(x) <==> sorted.to_multiset().count(x) > 0);
        assert(kept.contains(x) <==> kept.to_multiset().count(x) > 0);
    }
    assert(in_rank_order(infos, sorted)) by {
        assert forall|a: int, b: int| 0 <= a < b < sorted.len() implies ranks_before(
            infos,
            #[trigger] sorted[a] as int,
            #[trigger] sorted[b] as int,
        ) by {
            assert(leq(sorted[a], sorted[b]));
        }
    }
    assert forall|k: int| 0 <= k < sorted.len() implies represents_gpu(
        infos,
        #[trigger] sorted[k] as int,
    ) by {
        assert(sorted.contains(sorted[k]));
        assert(pred(sorted[k]));
    }
    assert forall|i: usize| #[trigger] represents_gpu(infos, i as int) implies sorted.contains(
        i,
    ) by {
        assert(all[i as int] == i);
        assert(all.contains(i));
        assert(pred(i));
    }
    if is_ranking(infos, s) {
        assert forall|i: usize| s.contains(i) <==> sorted.contains(i) by {
            if s.contains(i) {
                let k = choose|k: int| 0 <= k < s.len() && s[k] == i;
                assert(represents_gpu(infos, s[k] as int));
            }
            if sorted.contains(i) {
                let k = choose|k: int| 0 <= k < sorted.len() && sorted[k] == i;
                assert(represents_gpu(infos, sorted[k] as int));
            }
        }
        lemma_rank_order_unique(infos, s, sorted);
    }
}

/// The ranking is no longer than the list of adapters.
pub(crate) proof fn lemma_ranking_len(infos: Seq<AdapterInfo>)
    requires
        infos.len() <= usize::MAX,
    ensures
        ranking(infos).len() <= infos.len(),
{
    let ranked = ranking(infos);
    law_ranking_is_the_rank_order(infos, ranked);
    assert(ranked.no_duplicates()) by {
        assert forall|a: int, b: int| 0 <= a < b < ranked.len() implies ranked[a] != ranked[b] by {
            lemma_ranks_before_order(infos, ranked[a] as int, ranked[b] as int, ranked[a] as int);
        }
    }
    ranked.unique_seq_to_set();
    let places = ranked.map_values(|i: usize| i as int);
    assert(places.no_duplicates());
    places.unique_seq_to_set();
    let all = vstd::set_lib::set_int_range(0, infos.len() as int);
    vstd::set_lib::lemma_int_range(0, infos.len() as int);
    assert(places.to_set().subset_of(all));
    vstd::set_lib::lemma_len_subset(places.to_set(), all);
}

/// The representative of the physical GPU that adapter `i` belongs to.
pub(crate) proof fn lemma_best_of_gpu(infos: Seq<AdapterInfo>, i: int) -> (best: int)
    requires
        usable(infos, i),
    ensures
        represents_gpu(infos, best),
        same_gpu(infos[best], infos[i]),
        best == i || ranks_before(infos, best, i),
{
    lemma_best_up_to(infos, i, infos.len() as int)
}

/// The best adapter among the first `n` ones that are the same GPU as adapter `i`, and `i`.
proof fn lemma_best_up_to(infos: Seq<AdapterInfo>, i: int, n: int) -> (best: int)
    requires
        usable(infos, i),
        0 <= n <= infos.len(),
    ensures
        usable(infos, best),
        same_gpu(infos[best], infos[i]),
        best == i || ranks_before(infos, best, i),
        forall|j: int|
            #![trigger infos[j]]
            usable(infos, j) && j < n && same_gpu(infos[j], infos[i]) && j != best ==> ranks_before(
                infos,
                best,
                j,
            ),
    decreases n,
{
    if n == 0 {
        i
    } else {
        let b = lemma_best_up_to(infos, i, n - 1);
        let j = n - 1;
        if usable(infos, j) && same_gpu(infos[j], infos[i]) && ranks_before(infos, j, b) {
            lemma_ranks_before_order(infos, j, b, i);
            assert forall|q: int|
                #![trigger infos[q]]
                usable(infos, q) && q < n && same_gpu(infos[q], infos[i]) && q
                    != j implies ranks_before(infos, j, q) by {
                lemma_ranks_before_order(infos, j, b, q);
            }
            j
        } else {
            lemma_ranks_before_order(infos, j, b, i);
            b
        }
    }
}

/// Whether adapter `i` ranks before adapter `j`.
fn is_ranked_before(infos: &[AdapterInfo], i: usize, j: usize) -> (before: bool)
    requires
        i < infos@.len(),
        j < infos@.len(),
    ensures
        before == ranks_before(infos@, i as int, j as int),
{
    if is_preferred(&infos[i], &infos[j]) {
        true
    } else {
        i < j && !is_preferred(&infos[j], &infos[i])
    }
}

/// The usable adapters, best first; equally good ones stay in the order of enumeration.
fn sort_usable(infos: &[AdapterInfo]) -> (order: Vec<usize>)
    ensures
        in_rank_order(infos@, order@),
        forall|i: usize| #[trigger] order@.contains(i) <==> usable(infos@, i as int),
{
    let mut order: Vec<usize> = Vec::new();
    let mut i: usize = 0;
    while i < infos.len()
        invariant
            i <= infos@.len(),
            in_rank_order(infos@, order@),
            forall|j: usize| #[trigger] order@.contains(j) <==> j < i && usable(infos@, j as int),
        decreases infos@.len() - i,
    {
        if infos[i].device_type != DeviceType::Cpu {
            let ghost before = order@;
            let mut at: usize = 0;
            assert forall|k: int| 0 <= k < order@.len() implies #[trigger] order@[k] < i by {
                assert(order@.contains(order@[k]));
            }
            while at < order.len() && !is_ranked_before(infos, i, order[at])
                invariant
                    i < infos@.len(),
                    at <= order@.len(),
                    forall|k: int| 0 <= k < order@.len() ==> #[trigger] order@[k] < i,
                    forall|k: int|
                        0 <= k < at ==> !ranks_before(infos@, i as int, #[trigger] order@[k] as int),
                decreases order@.len() - at,
            {
                at += 1;
            }
            order.insert(at, i);
            proof {
                lemma_insert_ranked(infos@, before, at as int, i);
                assert(order@ =~= before.insert(at as int, i));
            }
        }
        i += 1;
    }
    order
}

proof fn lemma_insert_ranked(infos: Seq<AdapterInfo>, s: Seq<usize>, at: int, x: usize)
    requires
        in_rank_order(infos, s),
        0 <= at <= s.len(),
        forall|k: int| 0 <= k < s.len() ==> #[trigger] s[k] != x,
        forall|k: int| 0 <= k < at ==> !ranks_before(infos, x as int, #[trigger] s[k] as int),
        at < s.len() ==> ranks_before(infos, x as int, s[at] as int),
    ensures
        in_rank_order(infos, s.insert(at, x)),
        forall|y: usize| #[trigger] s.insert(at, x).contains(y) <==> s.contains(y) || y == x,
{
    let t = s.insert(at, x);
    assert forall|a: int, b: int| 0 <= a < b < t.len() implies ranks_before(
        infos,
        #[trigger] t[a] as int,
        #[trigger] t[b] as int,
    ) by {
        let sa = if a < at { a } else { a - 1 };
        let sb = if b < at { b } else { b - 1 };
        if b == at {
            assert(t[a] == s[sa]);
            lemma_ranks_before_order(infos, s[sa] as int, x as int, x as int);
        } else if a == at {
            assert(t[b] == s[sb]);
            if sb > at {
                assert(ranks_before(infos, s[at] as int, s[sb] as int));
                lemma_ranks_before_order(infos, x as int, s[at] as int, s[sb] as int);
            }
        } else {
            assert(t[a] == s[sa] && t[b] == s[sb]);
        }
    }
    assert forall|y: usize| #[trigger] t.contains(y) <==> s.contains(y) || y == x by {
        if t.contains(y) {
            let k = choose|k: int| 0 <= k < t.len() && t[k] == y;
            if k < at {
                assert(s[k] == y);
            } else if k > at {
                assert(s[k - 1] == y);
            }
        }
        if s.contains(y) {
            let k = choose|k: int| 0 <= k < s.len() && s[k] == y;
            if k < at {
                assert(t[k] == y);
            } else {
                assert(t[k + 1] == y);
            }
        }
        assert(t[at] == x);
    }
}

/// The best adapter of each physical GPU, best first.
fn rank_gpus(infos: &[AdapterInfo]) -> (ranked: Vec<usize>)
    ensures
        ranked@ == ranking(infos@),
        is_ranking(infos@, ranked@),
        infos@.len() <= usize::MAX,
{
    let count: usize = infos.len();
    let order = sort_usable(infos);
    let mut ranked: Vec<usize> = Vec::new();
    let mut k: usize = 0;
    while k < order.len()
        invariant
            count == infos@.len(),
            k <= order@.len(),
            in_rank_order(infos@, order@),
            forall|i: usize| #[trigger] order@.contains(i) <==> usable(infos@, i as int),
            in_rank_order(infos@, ranked@),
            forall|r: int|
                0 <= r < ranked@.len() ==> {
                    &&& represents_gpu(infos@, #[trigger] ranked@[r] as int)
                    &&& order@.take(k as int).contains(ranked@[r])
                },
            forall|i: int|
                0 <= i < k && represents_gpu(infos@, #[trigger] order@[i] as int)
                    ==> ranked@.contains(order@[i]),
        decreases order@.len() - k,
    {
        let i: usize = order[k];
        proof {
            assert(order@.contains(order@[k as int]));
        }
        let mut fresh: bool = true;
        let mut r: usize = 0;
        while r < ranked.len()
            invariant
                r <= ranked@.len(),
                usable(infos@, i as int),
                forall|q: int|
                    0 <= q < ranked@.len() ==> usable(infos@, #[trigger] ranked@[q] as int),
                fresh == (forall|q: int|
                    0 <= q < r ==> !same_gpu(
                        infos@[#[trigger] ranked@[q] as int],
                        infos@[i as int],
                    )),
            decreases ranked@.len() - r,
        {
            if is_same_gpu(&infos[ranked[r]], &infos[i]) {
                fresh = false;
            }
            r += 1;
        }
        proof {
            lemma_fresh_represents(infos@, order@, ranked@, k as int, fresh);
        }
        let ghost earlier = ranked@;
        if fresh {
            ranked.push(i);
        }
        proof {
            let now = order@.take(k + 1);
            assert forall|r: int| 0 <= r < ranked@.len() implies {
                &&& represents_gpu(infos@, #[trigger] ranked@[r] as int)
                &&& now.contains(ranked@[r])
            } by {
                if r < earlier.len() {
                    assert(ranked@[r] == earlier[r]);
                    let p = choose|p: int|
                        0 <= p < order@.take(k as int).len() && order@.take(k as int)[p]
                            == earlier[r];
                    assert(now[p] == earlier[r]);
                } else {
                    assert(now[k as int] == i);
                }
            }
            assert forall|p: int|
                0 <= p < k + 1 && represents_gpu(
                    infos@,
                    #[trigger] order@[p] as int,
                ) implies ranked@.contains(order@[p]) by {
                if p < k {
                    let q = choose|q: int| 0 <= q < earlier.len() && earlier[q] == order@[p];
                    assert(ranked@[q] == order@[p]);
                } else {
                    assert(ranked@[earlier.len() as int] == i);
                }
            }
            assert forall|a: int, b: int| 0 <= a < b < ranked@.len() implies ranks_before(
                infos@,
                #[trigger] ranked@[a] as int,
                #[trigger] ranked@[b] as int,
            ) by {
                if b == earlier.len() {
                    let p = choose|p: int|
                        0 <= p < order@.take(k as int).len() && order@.take(k as int)[p]
                            == earlier[a];
                    assert(ranks_before(infos@, order@[p] as int, order@[k as int] as int));
                } else {
                    assert(ranked@[a] == earlier[a] && ranked@[b] == earlier[b]);
                }
            }
        }
        k += 1;
    }
    proof {
        assert forall|i: usize| #[trigger] represents_gpu(infos@, i as int) implies ranked@.contains(
            i,
        ) by {
            assert(order@.contains(i));
            let p = choose|p: int| 0 <= p < order@.len() && order@[p] == i;
            assert(represents_gpu(infos@, order@[p] as int));
        }
        law_ranking_is_the_rank_order(infos@, ranked@);
    }
    ranked
}

/// The entry at `k` of the rank order is the best adapter of its GPU exactly when none of the
/// adapters kept before it is the same GPU.
proof fn lemma_fresh_represents(
    infos: Seq<AdapterInfo>,
    order: Seq<usize>,
    ranked: Seq<usize>,
    k: int,
    fresh: bool,
)
    requires
        infos.len() <= usize::MAX,
        0 <= k < order.len(),
        in_rank_order(infos, order),
        forall|i: usize| #[trigger] order.contains(i) <==> usable(infos, i as int),
        forall|r: int|
            0 <= r < ranked.len() ==> {
                &&& represents_gpu(infos, #[trigger] ranked[r] as int)
                &&& order.take(k).contains(ranked[r])
            },
        forall|i: int|
            0 <= i < k && represents_gpu(infos, #[trigger] order[i] as int) ==> ranked.contains(
                order[i],
            ),
        fresh == (forall|q: int|
            0 <= q < ranked.len() ==> !same_gpu(
                infos[#[trigger] ranked[q] as int],
                infos[order[k] as int],
            )),
    ensures
        fresh == represents_gpu(infos, order[k] as int),
{
    let i = order[k] as int;
    assert(order.contains(order[k]));
    if represents_gpu(infos, i) {
        assert forall|q: int| 0 <= q < ranked.len() implies !same_gpu(
            infos[#[trigger] ranked[q] as int],
            infos[i],
        ) by {
            let j = ranked[q] as int;
            let p = choose|p: int| 0 <= p < order.take(k).len() && order.take(k)[p] == ranked[q];
            assert(order[p] == ranked[q]);
            assert(ranks_before(infos, order[p] as int, order[k] as int));
            lemma_ranks_before_order(infos, i, j, i);
            assert(usable(infos, j));
            if same_gpu(infos[j], infos[i]) {
                assert(ranks_before(infos, i, j));
            }
        }
    } else {
        let best = lemma_best_of_gpu(infos, i);
        assert(usable(infos, (best as usize) as int));
        assert(order.contains(best as usize));
        let p = choose|p: int| 0 <= p < order.len() && order[p] == best as usize;
        if p > k {
            assert(ranks_before(infos, order[k] as int, order[p] as int));
            lemma_ranks_before_order(infos, i, best, i);
        }
        assert(p < k);
        assert(ranked.contains(order[p]));
        let r = choose|r: int| 0 <= r < ranked.len() && ranked[r] == order[p];
        assert(same_gpu(infos[ranked[r] as int], infos[i]));
    }
}

/// Applies the adapter-selection policy and returns the positions in `infos` of the chosen
/// adapters, in the order in which they should be initialized.
pub fn select_adapter_indices(infos: &[AdapterInfo], max_devices: Option<usize>) -> (picked: Vec<
    usize,
>)
    ensures
        picked@ == selection(infos@, max_devices),
{
    let mut ranked = rank_gpus(infos);
    match max_devices {
        None => {
            let mut has_discrete: bool = false;
            let mut chosen: Vec<usize> = Vec::new();
            let mut k: usize = 0;
            let ghost pred = |i: usize| discrete(infos@, i as int);
            proof {
                reveal(Seq::filter);
                assert(ranked@.take(0).filter(pred) =~= chosen@);
            }
            while k < ranked.len()
                invariant
                    k <= ranked@.len(),
                    is_ranking(infos@, ranked@),
                    pred == (|i: usize| discrete(infos@, i as int)),
                    chosen@ == ranked@.take(k as int).filter(pred),
                    has_discrete == (exists|j: int|
                        0 <= j < k && discrete(infos@, #[trigger] ranked@[j] as int)),
                decreases ranked@.len() - k,
            {
                let i: usize = ranked[k];
                proof {
                    assert(represents_gpu(infos@, ranked@[k as int] as int));
                    reveal(Seq::filter);
                    assert(ranked@.take(k + 1).drop_last() =~= ranked@.take(k as int));
                }
                if infos[i].device_type == DeviceType::DiscreteGpu {
                    has_discrete = true;
                    chosen.push(i);
                }
                k += 1;
            }
            proof {
                assert(ranked@.take(ranked@.len() as int) =~= ranked@);
                lemma_discrete_ranked(infos@, ranked@);
            }
            if has_discrete {
                chosen
            } else {
                ranked.truncate(1);
                ranked
            }
        },
        Some(n) => {
            ranked.truncate(n);
            ranked
        },
    }
}

proof fn lemma_discrete_ranked(infos: Seq<AdapterInfo>, ranked: Seq<usize>)
    requires
        is_ranking(infos, ranked),
        infos.len() <= usize::MAX,
    ensures
        (exists|i: int| discrete(infos, i)) <==> (exists|j: int|
            0 <= j < ranked.len() && discrete(infos, #[trigger] ranked[j] as int)),
{
    if exists|j: int| 0 <= j < ranked.len() && discrete(infos, #[trigger] ranked[j] as int) {
        let j = choose|j: int| 0 <= j < ranked.len() && discrete(infos, #[trigger] ranked[j] as int);
        assert(discrete(infos, ranked[j] as int));
    }
    if exists|i: int| discrete(infos, i) {
        let i = choose|i: int| discrete(infos, i);
        let b = lemma_best_of_gpu(infos, i);
        assert(represents_gpu(infos, (b as usize) as int));
        let j = choose|j: int| 0 <= j < ranked.len() && ranked[j] == b as usize;
        assert(discrete(infos, ranked[j] as int));
    }
}

/// Filters, deduplicates and ranks adapters, and hands out the chosen ones in rank order.
///
/// `infos` describes `adapters`, entry by entry. Software adapters are dropped; of the adapters of
/// one physical GPU the one on the most native backend is kept. Without a limit, discrete GPUs are
/// taken exclusively when any exist, else the single best adapter; with a limit, the best ones.
pub fn select_adapters<A>(
    infos: &[AdapterInfo],
    adapters: Vec<A>,
    max_devices: Option<usize>,
) -> (chosen: Vec<A>)
    requires
        infos@.len() == adapters@.len(),
    ensures
        chosen@ == selection(infos@, max_devices).map_values(|i: usize| adapters@[i as int]),
{
    let picked = select_adapter_indices(infos, max_devices);
    let ghost given = adapters@;
    let mut by_index: Vec<Option<A>> = Vec::with_capacity(infos.len());
    for adapter in it: adapters
        invariant
            it.seq() == given,
            by_index@.len() == it.index(),
            forall|i: int| 0 <= i < by_index@.len() ==> #[trigger] by_index@[i] == Some(given[i]),
    {
        by_index.push(Some(adapter));
    }
    proof {
        law_selection_distinct_and_usable(infos@, max_devices);
    }
    let mut chosen: Vec<A> = Vec::new();
    let mut k: usize = 0;
    while k < picked.len()
        invariant
            k <= picked@.len(),
            by_index@.len() == given.len(),
            picked@.no_duplicates(),
            forall|j: int| 0 <= j < picked@.len() ==> #[trigger] picked@[j] < given.len(),
            forall|j: int|
                k <= j < picked@.len() ==> by_index@[#[trigger] picked@[j] as int] == Some(
                    given[picked@[j] as int],
                ),
            chosen@ == picked@.take(k as int).map_values(|i: usize| given[i as int]),
        decreases picked@.len() - k,
    {
        let i: usize = picked[k];
        match by_index[i].take() {
            Some(adapter) => {
                chosen.push(adapter);
            },
            None => {},
        }
        k += 1;
    }
    assert(picked@.take(picked@.len() as int) =~= picked@);
    chosen
}

/// What is selected comes from the ranking, in its order.
pub(crate) proof fn lemma_selection_from_ranking(infos: Seq<AdapterInfo>, max_devices: Option<usize>)
    requires
        infos.len() <= usize::MAX,
    ensures
        is_ranking(infos, ranking(infos)),
        in_rank_order(infos, selection(infos, max_devices)),
        forall|i: usize| #[trigger]
            selection(infos, max_devices).contains(i) ==> ranking(infos).contains(i),
        forall|k: int|
            0 <= k < selection(infos, max_devices).len() ==> represents_gpu(
                infos,
                #[trigger] selection(infos, max_devices)[k] as int,
            ),
        max_devices is None && (exists|i: int| discrete(infos, i)) ==> (forall|i: usize| #[trigger]
            selection(infos, max_devices).contains(i) <==> ranking(infos).contains(i) && discrete(
                infos,
                i as int,
            )),
{
    let ranked = ranking(infos);
    let sel = selection(infos, max_devices);
    law_ranking_is_the_rank_order(infos, ranked);
    if max_devices is None && (exists|i: int| discrete(infos, i)) {
        let pred = |i: usize| discrete(infos, i as int);
        let before = |i: usize, j: usize| ranks_before(infos, i as int, j as int);
        assert(sorted_by(ranked, before));
        lemma_filter_keeps_order(ranked, pred, before);
        assert forall|a: int, b: int| 0 <= a < b < sel.len() implies ranks_before(
            infos,
            #[trigger] sel[a] as int,
            #[trigger] sel[b] as int,
        ) by {
            assert(before(sel[a], sel[b]));
        }
    } else {
        assert forall|k: int| 0 <= k < sel.len() implies #[trigger] sel[k] == ranked[k] by {}
        assert forall|i: usize| #[trigger] sel.contains(i) implies ranked.contains(i) by {
            let k = choose|k: int| 0 <= k < sel.len() && sel[k] == i;
            assert(ranked[k] == i);
        }
    }
    assert forall|k: int| 0 <= k < sel.len() implies represents_gpu(
        infos,
        #[trigger] sel[k] as int,
    ) by {
        assert(sel.contains(sel[k]));
        assert(ranked.contains(sel[k]));
        let j = choose|j: int| 0 <= j < ranked.len() && ranked[j] == sel[k];
        assert(represents_gpu(infos, ranked[j] as int));
    }
}

/// What is selected are distinct, existing adapters, none of them a software renderer.
pub proof fn law_selection_distinct_and_usable(infos: Seq<AdapterInfo>, max_devices: Option<usize>)
    requires
        infos.len() <= usize::MAX,
    ensures
        selection(infos, max_devices).no_duplicates(),
        forall|k: int|
            0 <= k < selection(infos, max_devices).len() ==> usable(
                infos,
                #[trigger] selection(infos, max_devices)[k] as int,
            ),
{
    let sel = selection(infos, max_devices);
    lemma_selection_from_ranking(infos, max_devices);
    assert forall|a: int, b: int| 0 <= a < b < sel.len() implies sel[a] != sel[b] by {
        lemma_ranks_before_order(infos, sel[a] as int, sel[b] as int, sel[a] as int);
    }
}

/// Better adapters are initialized first.
pub proof fn law_selection_best_first(infos: Seq<AdapterInfo>, max_devices: Option<usize>)
    requires
        infos.len() <= usize::MAX,
    ensures
        in_rank_order(infos, selection(infos, max_devices)),
{
    lemma_selection_from_ranking(infos, max_devices);
}

/// No physical GPU is selected twice.
pub proof fn law_selection_one_adapter_per_gpu(infos: Seq<AdapterInfo>, max_devices: Option<usize>)
    requires
        infos.len() <= usize::MAX,
    ensures
        forall|a: int, b: int|
            0 <= a < b < selection(infos, max_devices).len() ==> !same_gpu(
                infos[#[trigger] selection(infos, max_devices)[a] as int],
                infos[#[trigger] selection(infos, max_devices)[b] as int],
            ),
{
    let sel = selection(infos, max_devices);
    lemma_selection_from_ranking(infos, max_devices);
    assert forall|a: int, b: int| 0 <= a < b < sel.len() implies !same_gpu(
        infos[#[trigger] sel[a] as int],
        infos[#[trigger] sel[b] as int],
    ) by {
        let i = sel[a] as int;
        let j = sel[b] as int;
        assert(represents_gpu(infos, i) && represents_gpu(infos, j));
        lemma_ranks_before_order(infos, i, j, i);
        assert(ranks_before(infos, i, j));
        if same_gpu(infos[i], infos[j]) {
            assert(ranks_before(infos, j, i));
        }
    }
}

/// A selected adapter is the best one of its physical GPU: no usable adapter of that GPU has a
/// better device type or, with the same device type, a more native backend.
pub proof fn law_selection_prefers_native_backend(
    infos: Seq<AdapterInfo>,
    max_devices: Option<usize>,
    k: int,
    j: int,
)
    requires
        infos.len() <= usize::MAX,
        0 <= k < selection(infos, max_devices).len(),
        usable(infos, j),
        same_gpu(infos[j], infos[selection(infos, max_devices)[k] as int]),
    ensures
        ({
            let chosen = infos[selection(infos, max_devices)[k] as int];
            &&& type_rank(chosen.device_type) <= type_rank(infos[j].device_type)
            &&& chosen.device_type == infos[j].device_type ==> api_rank(chosen.backend) <= api_rank(
                infos[j].backend,
            )
        }),
{
    lemma_selection_from_ranking(infos, max_devices);
    let i = selection(infos, max_devices)[k] as int;
    assert(represents_gpu(infos, i));
    if i != j {
        assert(ranks_before(infos, i, j));
    }
}

/// Without a limit, when there is a discrete GPU: only discrete adapters are selected, and every
/// discrete adapter's physical GPU is among them.
pub proof fn law_auto_detect_takes_all_discrete(infos: Seq<AdapterInfo>)
    requires
        infos.len() <= usize::MAX,
        exists|i: int| discrete(infos, i),
    ensures
        forall|k: int|
            0 <= k < selection(infos, None).len() ==> discrete(
                infos,
                #[trigger] selection(infos, None)[k] as int,
            ),
        forall|i: int| #[trigger]
            discrete(infos, i) ==> exists|k: int|
                0 <= k < selection(infos, None).len() && same_gpu(
                    infos[#[trigger] selection(infos, None)[k] as int],
                    infos[i],
                ),
{
    let sel = selection(infos, None);
    lemma_selection_from_ranking(infos, None);
    assert forall|k: int| 0 <= k < sel.len() implies discrete(infos, #[trigger] sel[k] as int) by {
        assert(sel.contains(sel[k]));
    }
    assert forall|i: int| #[trigger] discrete(infos, i) implies exists|k: int|
        0 <= k < sel.len() && same_gpu(infos[#[trigger] sel[k] as int], infos[i]) by {
        let best = lemma_best_of_gpu(infos, i);
        assert(represents_gpu(infos, (best as usize) as int));
        assert(ranking(infos).contains(best as usize));
        assert(sel.contains(best as usize));
        let k = choose|k: int| 0 <= k < sel.len() && sel[k] == best as usize;
        assert(same_gpu(infos[sel[k] as int], infos[i]));
    }
}

/// Without a limit and without any discrete GPU, exactly one adapter is selected as soon as there
/// is a usable one, and it ranks before all other usable ones.
pub proof fn law_auto_detect_falls_back_to_the_best(infos: Seq<AdapterInfo>)
    requires
        infos.len() <= usize::MAX,
        !exists|i: int| discrete(infos, i),
        exists|i: int| usable(infos, i),
    ensures
        selection(infos, None).len() == 1,
        forall|j: int| #[trigger]
            usable(infos, j) ==> j == selection(infos, None)[0] || ranks_before(
                infos,
                selection(infos, None)[0] as int,
                j,
            ),
{
    let sel = selection(infos, None);
    let ranked = ranking(infos);
    lemma_selection_from_ranking(infos, None);
    let i = choose|i: int| usable(infos, i);
    let top = lemma_best_of_gpu(infos, i);
    assert(represents_gpu(infos, (top as usize) as int));
    assert(ranked.contains(top as usize));
    assert forall|j: int| #[trigger] usable(infos, j) implies j == sel[0] || ranks_before(
        infos,
        sel[0] as int,
        j,
    ) by {
        let best = lemma_best_of_gpu(infos, j);
        assert(represents_gpu(infos, (best as usize) as int));
        let k = choose|k: int| 0 <= k < ranked.len() && ranked[k] == best as usize;
        if k > 0 {
            assert(ranks_before(infos, ranked[0] as int, ranked[k] as int));
        }
        lemma_ranks_before_order(infos, sel[0] as int, best, j);
    }
}

/// With a limit, as many physical GPUs are selected as there are, up to the limit; every GPU left
/// out ranks after all selected ones, so that a discrete GPU is never left out for another kind.
pub proof fn law_limit_takes_the_best(infos: Seq<AdapterInfo>, n: usize)
    requires
        infos.len() <= usize::MAX,
    ensures
        selection(infos, Some(n)).len() == if n < ranking(infos).len() {
            n as nat
        } else {
            ranking(infos).len()
        },
        forall|k: int, i: usize|
            0 <= k < selection(infos, Some(n)).len() && #[trigger] represents_gpu(infos, i as int)
                && !selection(infos, Some(n)).contains(i) ==> {
                &&& ranks_before(infos, #[trigger] selection(infos, Some(n))[k] as int, i as int)
                &&& discrete(infos, i as int) ==> discrete(
                    infos,
                    selection(infos, Some(n))[k] as int,
                )
            },
{
    let sel = selection(infos, Some(n));
    let ranked = ranking(infos);
    lemma_selection_from_ranking(infos, Some(n));
    assert forall|k: int, i: usize|
        0 <= k < sel.len() && #[trigger] represents_gpu(infos, i as int) && !sel.contains(
            i,
        ) implies {
        &&& ranks_before(infos, #[trigger] sel[k] as int, i as int)
        &&& discrete(infos, i as int) ==> discrete(infos, sel[k] as int)
    } by {
        assert(ranked.contains(i));
        let j = choose|j: int| 0 <= j < ranked.len() && ranked[j] == i;
        if j < sel.len() {
            assert(sel[j] == i);
        }
        assert(ranks_before(infos, ranked[k] as int, ranked[j] as int));
    }
}

/// Nothing is selected exactly when there is no usable adapter or the limit is zero.
pub proof fn law_selection_empty(infos: Seq<AdapterInfo>, max_devices: Option<usize>)
    requires
        infos.len() <= usize::MAX,
    ensures
        selection(infos, max_devices).len() == 0 <==> (max_devices == Some(0usize) || !exists|
            i: int,
        |
            usable(infos, i)),
{
    lemma_selection_from_ranking(infos, max_devices);
    let sel = selection(infos, max_devices);
    if exists|i: int| usable(infos, i) {
        let i = choose|i: int| usable(infos, i);
        let best = lemma_best_of_gpu(infos, i);
        assert(represents_gpu(infos, (best as usize) as int));
        assert(ranking(infos).contains(best as usize));
        if max_devices is None {
            if exists|i: int| discrete(infos, i) {
                law_auto_detect_takes_all_discrete(infos);
            }
        }
    } else if sel.len() > 0 {
        assert(represents_gpu(infos, sel[0] as int));
    }
}

/// A larger limit only appends adapters: those of a smaller limit come first, unchanged.
pub proof fn law_larger_limit_only_appends(infos: Seq<AdapterInfo>, n: usize, m: usize)
    requires
        n <= m,
    ensures
        selection(infos, Some(n)).is_prefix_of(selection(infos, Some(m))),
{
}

/// What is selected, with a limit or without, are the first entries of the ranking.
pub proof fn law_selection_is_a_prefix_of_the_ranking(
    infos: Seq<AdapterInfo>,
    max_devices: Option<usize>,
)
    requires
        infos.len() <= usize::MAX,
    ensures
        selection(infos, max_devices).is_prefix_of(ranking(infos)),
{
    let ranked = ranking(infos);
    if max_devices is None && (exists|i: int| discrete(infos, i)) {
        law_ranking_is_the_rank_order(infos, ranked);
        let pred = |i: usize| discrete(infos, i as int);
        assert forall|a: int, b: int|
            0 <= a < b < ranked.len() && pred(#[trigger] ranked[b]) implies pred(
            #[trigger] ranked[a],
        ) by {
            assert(represents_gpu(infos, ranked[a] as int));
            assert(ranks_before(infos, ranked[a] as int, ranked[b] as int));
        }
        lemma_filter_is_prefix(ranked, pred);
    }
}

proof fn lemma_filter_is_prefix(s: Seq<usize>, pred: spec_fn(usize) -> bool)
    requires
        forall|a: int, b: int|
            0 <= a < b < s.len() && pred(#[trigger] s[b]) ==> pred(#[trigger] s[a]),
    ensures
        s.filter(pred).is_prefix_of(s),
        s.len() > 0 && pred(s.last()) ==> s.filter(pred) == s,
    decreases s.len(),
{
    reveal(Seq::filter);
    if s.len() > 0 {
        let rest = s.drop_last();
        lemma_filter_is_prefix(rest, pred);
        if pred(s.last()) {
            if rest.len() > 0 {
                assert(pred(s[rest.len() - 1]));
            }
            assert(rest.filter(pred) =~= rest);
            assert(s =~= rest.push(s.last()));
        }
    }
}

/// Where adapter `i` stands after another one was put in at place `at`.
pub open spec fn moved(i: usize, at: int) -> usize {
    if i < at {
        i
    } else {
        (i + 1) as usize
    }
}

/// A software adapter among the others makes no difference: the same adapters are selected, in the
/// same order, at the places to which the software adapter has moved them.
pub proof fn law_software_adapters_change_nothing(
    infos: Seq<AdapterInfo>,
    at: int,
    software: AdapterInfo,
    max_devices: Option<usize>,
)
    requires
        infos.len() < usize::MAX,
        0 <= at <= infos.len(),
        software.device_type == DeviceType::Cpu,
    ensures
        selection(infos.insert(at, software), max_devices) == selection(
            infos,
            max_devices,
        ).map_values(|i: usize| moved(i, at)),
{
    let more = infos.insert(at, software);
    let shift = |i: usize| moved(i, at);
    let ranked = ranking(infos);
    let shifted = ranked.map_values(shift);
    law_ranking_is_the_rank_order(infos, ranked);
    assert forall|i: usize| i < infos.len() implies #[trigger] more[moved(i, at) as int]
        == infos[i as int] by {}
    assert(is_ranking(more, shifted)) by {
        assert forall|k: int| 0 <= k < shifted.len() implies represents_gpu(
            more,
            #[trigger] shifted[k] as int,
        ) by {
            assert(represents_gpu(infos, ranked[k] as int));
            lemma_moved_represents(infos, at, software, ranked[k]);
        }
        assert forall|j: usize| #[trigger] represents_gpu(more, j as int) implies shifted.contains(
            j,
        ) by {
            assert(j != at);
            let i: usize = if j < at {
                j
            } else {
                (j - 1) as usize
            };
            assert(moved(i, at) == j);
            lemma_moved_represents(infos, at, software, i);
            assert(ranked.contains(i));
            let k = choose|k: int| 0 <= k < ranked.len() && ranked[k] == i;
            assert(shifted[k] == j);
        }
        assert forall|a: int, b: int| 0 <= a < b < shifted.len() implies ranks_before(
            more,
            #[trigger] shifted[a] as int,
            #[trigger] shifted[b] as int,
        ) by {
            assert(represents_gpu(infos, ranked[a] as int));
            assert(represents_gpu(infos, ranked[b] as int));
            assert(ranks_before(infos, ranked[a] as int, ranked[b] as int));
        }
    }
    law_ranking_is_the_rank_order(more, shifted);
    assert((exists|i: int| discrete(infos, i)) <==> (exists|i: int| discrete(more, i))) by {
        if exists|i: int| discrete(infos, i) {
            let i = choose|i: int| discrete(infos, i);
            assert(discrete(more, moved(i as usize, at) as int));
        }
        if exists|j: int| discrete(more, j) {
            let j = choose|j: int| discrete(more, j);
            assert(discrete(infos, if j < at { j } else { j - 1 }));
        }
    }
    if max_devices is None && (exists|i: int| discrete(infos, i)) {
        let before = |i: usize| discrete(infos, i as int);
        let after = |i: usize| discrete(more, i as int);
        assert forall|k: int| 0 <= k < ranked.len() implies before(#[trigger] ranked[k]) == after(
            shift(ranked[k]),
        ) by {
            assert(represents_gpu(infos, ranked[k] as int));
        }
        lemma_filter_of_map(ranked, shift, before, after);
    } else {
        assert(selection(more, max_devices) =~= selection(infos, max_devices).map_values(shift));
    }
}

proof fn lemma_moved_represents(
    infos: Seq<AdapterInfo>,
    at: int,
    software: AdapterInfo,
    i: usize,
)
    requires
        infos.len() < usize::MAX,
        0 <= at <= infos.len(),
        i < infos.len(),
        software.device_type == DeviceType::Cpu,
    ensures
        represents_gpu(infos.insert(at, software), moved(i, at) as int) <==> represents_gpu(
            infos,
            i as int,
        ),
{
    let more = infos.insert(at, software);
    let m = moved(i, at) as int;
    assert(more[m] == infos[i as int]);
    if represents_gpu(infos, i as int) {
        assert forall|j: int|
            #![trigger more[j]]
            usable(more, j) && same_gpu(more[j], more[m]) && j != m implies ranks_before(
            more,
            m,
            j,
        ) by {
            let k = if j < at {
                j
            } else {
                j - 1
            };
            assert(infos[k] == more[j]);
            assert(usable(infos, k));
            assert(ranks_before(infos, i as int, k));
        }
    }
    if represents_gpu(more, m) {
        assert forall|k: int|
            #![trigger infos[k]]
            usable(infos, k) && same_gpu(infos[k], infos[i as int]) && k
                != i implies ranks_before(infos, i as int, k) by {
            let j = moved(k as usize, at) as int;
            assert(infos[k] == more[j]);
            assert(usable(more, j));
            assert(ranks_before(more, m, j));
        }
    }
}

proof fn lemma_filter_of_map(
    s: Seq<usize>,
    f: spec_fn(usize) -> usize,
    before: spec_fn(usize) -> bool,
    after: spec_fn(usize) -> bool,
)
    requires
        forall|k: int| 0 <= k < s.len() ==> before(#[trigger] s[k]) == after(f(s[k])),
    ensures
        s.map_values(f).filter(after) == s.filter(before).map_values(f),
    decreases s.len(),
{
    reveal(Seq::filter);
    if s.len() > 0 {
        lemma_filter_of_map(s.drop_last(), f, before, after);
        assert(s.map_values(f).drop_last() =~= s.drop_last().map_values(f));
        assert(before(s[s.len() - 1]) == after(f(s[s.len() - 1])));
    }
    assert(s.map_values(f).filter(after) =~= s.filter(before).map_values(f));
}

/// Why an adapter is passed over, apart from the limit.
#[derive(Clone, Copy, Debug, PartialEq, Eq, Structural)]
pub enum SkipReason {
    /// It is a software renderer.
    Software,
    /// A better adapter of the same physical GPU exists.
    DuplicateGpu,
    /// Without a limit, discrete GPUs are taken exclusively, and it is none.
    NotDiscrete,
}

/// Why adapter `i` is passed over, if it is.
pub open spec fn skip_reason(
    infos: Seq<AdapterInfo>,
    max_devices: Option<usize>,
    i: int,
) -> Option<SkipReason> {
    if !usable(infos, i) {
        Some(SkipReason::Software)
    } else if !represents_gpu(infos, i) {
        Some(SkipReason::DuplicateGpu)
    } else if max_devices is None && (exists|j: int| discrete(infos, j)) && !discrete(infos, i) {
        Some(SkipReason::NotDiscrete)
    } else {
        None
    }
}

/// For each adapter, why it is passed over, if it is.
pub fn skip_reasons(infos: &[AdapterInfo], max_devices: Option<usize>) -> (reasons: Vec<
    Option<SkipReason>,
>)
    ensures
        reasons@.len() == infos@.len(),
        forall|i: int|
            0 <= i < infos@.len() ==> #[trigger] reasons@[i] == skip_reason(infos@, max_devices, i),
{
    let ranked = rank_gpus(infos);
    let mut has_discrete: bool = false;
    let mut i: usize = 0;
    while i < infos.len()
        invariant
            i <= infos@.len(),
            has_discrete == (exists|j: int| j < i && discrete(infos@, j)),
        decreases infos@.len() - i,
    {
        if infos[i].device_type == DeviceType::DiscreteGpu {
            assert(discrete(infos@, i as int));
            has_discrete = true;
        }
        i += 1;
    }
    let mut reasons: Vec<Option<SkipReason>> = Vec::new();
    let mut i: usize = 0;
    while i < infos.len()
        invariant
            i <= infos@.len(),
            is_ranking(infos@, ranked@),
            has_discrete == (exists|j: int| discrete(infos@, j)),
            reasons@.len() == i,
            forall|k: int|
                0 <= k < i ==> #[trigger] reasons@[k] == skip_reason(infos@, max_devices, k),
        decreases infos@.len() - i,
    {
        let reason: Option<SkipReason> = if infos[i].device_type == DeviceType::Cpu {
            Some(SkipReason::Software)
        } else if !is_listed(&ranked, i) {
            assert(!represents_gpu(infos@, i as int));
            Some(SkipReason::DuplicateGpu)
        } else {
            proof {
                let k = choose|k: int| 0 <= k < ranked@.len() && ranked@[k] == i;
                assert(represents_gpu(infos@, ranked@[k] as int));
            }
            if max_devices.is_none() && has_discrete && infos[i].device_type
                != DeviceType::DiscreteGpu {
                Some(SkipReason::NotDiscrete)
            } else {
                None
            }
        };
        reasons.push(reason);
        i += 1;
    }
    reasons
}

/// Whether `i` is in the list.
fn is_listed(list: &Vec<usize>, i: usize) -> (listed: bool)
    ensures
        listed == list@.contains(i),
{
    let mut k: usize = 0;
    while k < list.len()
        invariant
            k <= list@.len(),
            forall|j: int| 0 <= j < k ==> #[trigger] list@[j] != i,
        decreases list@.len() - k,
    {
        if list[k] == i {
            return true;
        }
        k += 1;
    }
    false
}

/// An adapter is selected only if there is no reason to pass it over; and without a limit every
/// discrete adapter that there is no reason to pass over is selected.
pub proof fn law_skipped_adapters_are_not_selected(
    infos: Seq<AdapterInfo>,
    max_devices: Option<usize>,
    i: usize,
)
    requires
        infos.len() <= usize::MAX,
    ensures
        selection(infos, max_devices).contains(i) ==> skip_reason(infos, max_devices, i as int)
            is None,
        max_devices is None && discrete(infos, i as int) && skip_reason(
            infos,
            max_devices,
            i as int,
        ) is None ==> selection(infos, max_devices).contains(i),
{
    let sel = selection(infos, max_devices);
    lemma_selection_from_ranking(infos, max_devices);
    if sel.contains(i) {
        let k = choose|k: int| 0 <= k < sel.len() && sel[k] == i;
        assert(represents_gpu(infos, sel[k] as int));
    }
}

} // verus!
