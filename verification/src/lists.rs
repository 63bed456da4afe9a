//! Searching and ordering lists.

use vstd::prelude::*;

verus! {

/// The position of the first item that is `wanted`, or the length of `list`.
pub open spec fn first_at<T>(list: Seq<T>, wanted: spec_fn(T) -> bool) -> int
    decreases list.len(),
{
    if list.len() == 0 || wanted(list[0]) {
        0
    } else {
        1 + first_at(list.drop_first(), wanted)
    }
}

/// Whether some item is `wanted`.
pub open spec fn some_item<T>(list: Seq<T>, wanted: spec_fn(T) -> bool) -> bool {
    first_at(list, wanted) < list.len()
}

/// Where the first wanted item stands.
pub proof fn lemma_first_at<T>(list: Seq<T>, wanted: spec_fn(T) -> bool)
    ensures
        0 <= first_at(list, wanted) <= list.len(),
        forall|j: int| 0 <= j < first_at(list, wanted) ==> !wanted(#[trigger] list[j]),
        first_at(list, wanted) < list.len() ==> wanted(list[first_at(list, wanted)]),
    decreases list.len(),
{
    if list.len() > 0 && !wanted(list[0]) {
        lemma_first_at(list.drop_first(), wanted);
        assert forall|j: int| 0 <= j < first_at(list, wanted) implies !wanted(
            #[trigger] list[j],
        ) by {
            if j > 0 {
                assert(!wanted(list.drop_first()[j - 1]));
            }
        }
    }
}

/// The first wanted item stands at `n` once nothing before it is wanted.
pub proof fn lemma_first_at_is<T>(list: Seq<T>, wanted: spec_fn(T) -> bool, n: int)
    requires
        0 <= n <= list.len(),
        forall|j: int| 0 <= j < n ==> !wanted(#[trigger] list[j]),
        n < list.len() ==> wanted(list[n]),
    ensures
        first_at(list, wanted) == n,
{
    lemma_first_at(list, wanted);
    let m = first_at(list, wanted);
    if m < n {
        assert(!wanted(list[m]));
    }
    if n < m {
        assert(!wanted(list[n]));
    }
}

/// The front of what is kept.
proof fn lemma_filter_front<T>(list: Seq<T>, keep: spec_fn(T) -> bool)
    requires
        list.len() > 0,
    ensures
        list.filter(keep) == (if keep(list[0]) {
            seq![list[0]]
        } else {
            seq![]
        }) + list.drop_first().filter(keep),
{
    assert(list =~= seq![list[0]] + list.drop_first());
    list.drop_first().lemma_filter_prepend(list[0], keep);
    assert(list.filter(keep) =~= (if keep(list[0]) {
        seq![list[0]]
    } else {
        seq![]
    }) + list.drop_first().filter(keep));
}

/// What is looked for is found among what is kept, where it is kept.
pub proof fn lemma_found_in_kept<T>(
    list: Seq<T>,
    keep: spec_fn(T) -> bool,
    wanted: spec_fn(T) -> bool,
)
    requires
        forall|item: T| #[trigger] wanted(item) ==> keep(item),
    ensures
        some_item(list.filter(keep), wanted) == some_item(list, wanted),
        some_item(list, wanted) ==> list.filter(keep)[first_at(list.filter(keep), wanted)]
            == list[first_at(list, wanted)],
    decreases list.len(),
{
    if list.len() == 0 {
        reveal(Seq::filter);
    } else {
        let rest = list.drop_first();
        let kept = list.filter(keep);
        lemma_filter_front(list, keep);
        lemma_found_in_kept(rest, keep, wanted);
        lemma_first_at(rest, wanted);
        lemma_first_at(rest.filter(keep), wanted);
        if wanted(list[0]) {
            assert(kept[0] == list[0]);
        } else if keep(list[0]) {
            assert(kept[0] == list[0]);
            assert(kept.drop_first() =~= rest.filter(keep));
        } else {
            assert(kept =~= rest.filter(keep));
        }
    }
}

/// An item put behind what is kept changes nothing for those who look for
/// something else that is kept.
pub proof fn lemma_found_beside_added<T>(
    list: Seq<T>,
    keep: spec_fn(T) -> bool,
    wanted: spec_fn(T) -> bool,
    added: T,
)
    requires
        forall|item: T| #[trigger] wanted(item) ==> keep(item),
        !wanted(added),
    ensures
        ({
            let changed = list.filter(keep).push(added);
            &&& some_item(changed, wanted) == some_item(list, wanted)
            &&& some_item(list, wanted) ==> changed[first_at(changed, wanted)]
                == list[first_at(list, wanted)]
        }),
{
    let kept = list.filter(keep);
    let changed = kept.push(added);
    lemma_found_in_kept(list, keep, wanted);
    lemma_first_at(kept, wanted);
    let j = first_at(kept, wanted);
    assert forall|k: int| 0 <= k < j implies !wanted(#[trigger] changed[k]) by {
        assert(changed[k] == kept[k]);
    }
    if j < kept.len() {
        assert(changed[j] == kept[j]);
        lemma_first_at_is(changed, wanted, j);
    } else {
        lemma_first_at_is(changed, wanted, changed.len() as int);
    }
}

/// An item put behind what is kept is the one that is found where nothing kept
/// is wanted.
pub proof fn lemma_added_is_found<T>(
    list: Seq<T>,
    keep: spec_fn(T) -> bool,
    wanted: spec_fn(T) -> bool,
    added: T,
)
    requires
        forall|item: T| #[trigger] keep(item) ==> !wanted(item),
        wanted(added),
    ensures
        first_at(list.filter(keep).push(added), wanted) == list.filter(keep).len(),
{
    let kept = list.filter(keep);
    let changed = kept.push(added);
    assert forall|j: int| 0 <= j < kept.len() implies !wanted(#[trigger] changed[j]) by {
        list.lemma_filter_pred(keep, j);
        assert(keep(kept[j]));
    }
    lemma_first_at_is(changed, wanted, kept.len() as int);
}

/// What is kept was there.
pub proof fn lemma_kept_were_there<T>(list: Seq<T>, keep: spec_fn(T) -> bool)
    ensures
        forall|i: int|
            0 <= i < list.filter(keep).len() ==> {
                &&& keep(#[trigger] list.filter(keep)[i])
                &&& list.contains(list.filter(keep)[i])
            },
{
    let kept = list.filter(keep);
    assert forall|i: int| 0 <= i < kept.len() implies keep(#[trigger] kept[i]) && list.contains(
        kept[i],
    ) by {
        list.lemma_filter_pred(keep, i);
        assert(kept.contains(kept[i]));
        list.lemma_filter_contains_rev(keep, kept[i]);
    }
}

/// Nothing is kept where nothing is to be kept, and something where something is.
pub proof fn lemma_kept_none<T>(list: Seq<T>, keep: spec_fn(T) -> bool)
    ensures
        list.filter(keep).len() == 0 <==> forall|i: int|
            0 <= i < list.len() ==> !keep(#[trigger] list[i]),
{
    lemma_kept_were_there(list, keep);
    let kept = list.filter(keep);
    if kept.len() == 0 {
        assert forall|i: int| 0 <= i < list.len() implies !keep(#[trigger] list[i]) by {
            if keep(list[i]) {
                list.lemma_filter_contains(keep, i);
            }
        }
    } else {
        assert(keep(kept[0]) && list.contains(kept[0]));
        let i = choose|i: int| 0 <= i < list.len() && list[i] == kept[0];
        assert(keep(list[i]));
    }
}

/// One item is kept exactly where one is to be kept, and it is that one.
pub proof fn lemma_kept_one<T>(list: Seq<T>, keep: spec_fn(T) -> bool)
    ensures
        forall|i: int|
            0 <= i < list.len() && keep(#[trigger] list[i]) && (forall|j: int|
                0 <= j < list.len() && j != i ==> !keep(#[trigger] list[j])) ==> list.filter(keep)
                == seq![list[i]],
        list.filter(keep).len() == 1 ==> exists|i: int|
            0 <= i < list.len() && keep(#[trigger] list[i]) && (forall|j: int|
                0 <= j < list.len() && j != i ==> !keep(#[trigger] list[j])),
    decreases list.len(),
{
    reveal(Seq::filter);
    if list.len() > 0 {
        let front = list.drop_last();
        let n = list.len() - 1;
        lemma_kept_one(front, keep);
        lemma_kept_none(front, keep);
        assert forall|i: int|
            0 <= i < list.len() && keep(#[trigger] list[i]) && (forall|j: int|
                0 <= j < list.len() && j != i ==> !keep(#[trigger] list[j])) implies list.filter(
            keep,
        ) == seq![list[i]] by {
            if i < n {
                assert(front[i] == list[i]);
                assert forall|j: int| 0 <= j < front.len() && j != i implies !keep(
                    #[trigger] front[j],
                ) by {
                    assert(front[j] == list[j]);
                }
                assert(!keep(list[n]));
            } else {
                assert forall|j: int| 0 <= j < front.len() implies !keep(#[trigger] front[j]) by {
                    assert(front[j] == list[j]);
                }
                assert(list.filter(keep) =~= seq![list[n]]);
            }
        }
        if list.filter(keep).len() == 1 {
            if keep(list[n]) {
                assert(front.filter(keep).len() == 0);
                assert forall|j: int| 0 <= j < list.len() && j != n implies !keep(
                    #[trigger] list[j],
                ) by {
                    assert(front[j] == list[j]);
                }
            } else {
                let i = choose|i: int|
                    0 <= i < front.len() && keep(#[trigger] front[i]) && (forall|j: int|
                        0 <= j < front.len() && j != i ==> !keep(#[trigger] front[j]));
                assert(keep(list[i]));
                assert forall|j: int| 0 <= j < list.len() && j != i implies !keep(
                    #[trigger] list[j],
                ) by {
                    if j < n {
                        assert(front[j] == list[j]);
                    }
                }
            }
        }
    }
}

/// The position of the one wanted item, where there is exactly one.
pub open spec fn sole_at<T>(list: Seq<T>, wanted: spec_fn(T) -> bool) -> Option<int> {
    let n = first_at(list, wanted);
    if n < list.len() && !some_item(list.skip(n + 1), wanted) {
        Some(n)
    } else {
        None
    }
}

/// Where there is exactly one wanted item, it is wanted and no other is.
pub proof fn lemma_sole_at<T>(list: Seq<T>, wanted: spec_fn(T) -> bool)
    ensures
        sole_at(list, wanted) matches Some(n) ==> 0 <= n < list.len() && wanted(list[n]) && forall|
            j: int,
        |
            0 <= j < list.len() && j != n ==> !wanted(#[trigger] list[j]),
        sole_at(list, wanted) is None ==> !some_item(list, wanted) || exists|i: int, j: int|
            0 <= i < j < list.len() && wanted(#[trigger] list[i]) && wanted(#[trigger] list[j]),
{
    lemma_first_at(list, wanted);
    let n = first_at(list, wanted);
    if n < list.len() {
        let rest = list.skip(n + 1);
        lemma_first_at(rest, wanted);
        let m = first_at(rest, wanted);
        if m < rest.len() {
            assert(list[n + 1 + m] == rest[m]);
            assert(wanted(list[n]) && wanted(list[n + 1 + m]));
        } else {
            assert forall|j: int| 0 <= j < list.len() && j != n implies !wanted(
                #[trigger] list[j],
            ) by {
                if j > n {
                    assert(list[j] == rest[j - n - 1]);
                }
            }
        }
    }
}

/// A wanted item that is the only one is the one.
pub proof fn lemma_sole_at_is<T>(list: Seq<T>, wanted: spec_fn(T) -> bool, n: int)
    requires
        0 <= n < list.len(),
        wanted(list[n]),
        forall|j: int| 0 <= j < list.len() && j != n ==> !wanted(#[trigger] list[j]),
    ensures
        sole_at(list, wanted) == Some(n),
{
    lemma_first_at_is(list, wanted, n);
    let rest = list.skip(n + 1);
    assert forall|j: int| 0 <= j < rest.len() implies !wanted(#[trigger] rest[j]) by {
        assert(rest[j] == list[n + 1 + j]);
    }
    lemma_first_at_is(rest, wanted, rest.len() as int);
}

/// Two wanted items leave no single one.
pub proof fn lemma_not_sole<T>(list: Seq<T>, wanted: spec_fn(T) -> bool, i: int, j: int)
    requires
        0 <= i < j < list.len(),
        wanted(list[i]),
        wanted(list[j]),
    ensures
        sole_at(list, wanted) is None,
{
    lemma_sole_at(list, wanted);
}

/// `sorted` with the index `i` behind every index that is not ranked after it.
pub open spec fn index_placed(ranks: Seq<int>, sorted: Seq<int>, i: int) -> Seq<int>
    decreases sorted.len(),
{
    if sorted.len() == 0 || ranks[sorted.last()] <= ranks[i] {
        sorted.push(i)
    } else {
        index_placed(ranks, sorted.drop_last(), i).push(sorted.last())
    }
}

/// The first `n` indices by rank; indices of one rank keep their order.
pub open spec fn indices_by_rank(ranks: Seq<int>, n: int) -> Seq<int>
    decreases n,
{
    if n <= 0 {
        seq![]
    } else {
        index_placed(ranks, indices_by_rank(ranks, n - 1), n - 1)
    }
}

/// Whether the indices are those below `n`, each once, by rank and then by
/// place.
pub open spec fn is_arrangement(ranks: Seq<int>, indices: Seq<int>, n: int) -> bool {
    &&& indices.len() == n
    &&& forall|k: int| 0 <= k < n ==> 0 <= #[trigger] indices[k] < n
    &&& forall|k: int, l: int|
        #![trigger indices[k], indices[l]]
        0 <= k < l < n ==> ranks[indices[k]] < ranks[indices[l]] || (ranks[indices[k]]
            == ranks[indices[l]] && indices[k] < indices[l])
}

proof fn lemma_index_placed_is(ranks: Seq<int>, sorted: Seq<int>, i: int, n: int)
    requires
        0 <= n <= sorted.len(),
        n > 0 ==> ranks[sorted[n - 1]] <= ranks[i],
        forall|j: int| n <= j < sorted.len() ==> ranks[#[trigger] sorted[j]] > ranks[i],
    ensures
        index_placed(ranks, sorted, i) == sorted.insert(n, i),
    decreases sorted.len(),
{
    if n == sorted.len() {
        assert(sorted.insert(n, i) =~= sorted.push(i));
    } else {
        assert(ranks[sorted[sorted.len() - 1]] > ranks[i]);
        lemma_index_placed_is(ranks, sorted.drop_last(), i, n);
        assert(sorted.insert(n, i) =~= sorted.drop_last().insert(n, i).push(sorted.last()));
    }
}

/// Where an index is placed among sorted ones.
proof fn lemma_index_placed(ranks: Seq<int>, sorted: Seq<int>, i: int) -> (n: int)
    requires
        is_arrangement(ranks, sorted, i),
        0 <= i,
    ensures
        0 <= n <= sorted.len(),
        n > 0 ==> ranks[sorted[n - 1]] <= ranks[i],
        forall|j: int| n <= j < sorted.len() ==> ranks[#[trigger] sorted[j]] > ranks[i],
        index_placed(ranks, sorted, i) == sorted.insert(n, i),
{
    let n = lemma_rank_boundary(ranks, sorted, i, sorted.len() as int);
    lemma_index_placed_is(ranks, sorted, i, n);
    n
}

proof fn lemma_rank_boundary(ranks: Seq<int>, sorted: Seq<int>, i: int, m: int) -> (n: int)
    requires
        0 <= m <= sorted.len(),
        forall|j: int| m <= j < sorted.len() ==> ranks[#[trigger] sorted[j]] > ranks[i],
    ensures
        0 <= n <= sorted.len(),
        n > 0 ==> ranks[sorted[n - 1]] <= ranks[i],
        forall|j: int| n <= j < sorted.len() ==> ranks[#[trigger] sorted[j]] > ranks[i],
    decreases m,
{
    if m == 0 || ranks[sorted[m - 1]] <= ranks[i] {
        m
    } else {
        lemma_rank_boundary(ranks, sorted, i, m - 1)
    }
}

/// Ordering by rank loses and repeats no index, and keeps the order of those of
/// one rank.
pub proof fn ordering_by_rank_arranges(ranks: Seq<int>, n: int)
    requires
        0 <= n <= ranks.len(),
    ensures
        is_arrangement(ranks, indices_by_rank(ranks, n), n),
    decreases n,
{
    if n > 0 {
        ordering_by_rank_arranges(ranks, n - 1);
        let sorted = indices_by_rank(ranks, n - 1);
        let at = lemma_index_placed(ranks, sorted, n - 1);
        let whole = sorted.insert(at, n - 1);
        assert forall|k: int, l: int|
            #![trigger whole[k], whole[l]]
            0 <= k < l < n implies ranks[whole[k]] < ranks[whole[l]] || (ranks[whole[k]]
            == ranks[whole[l]] && whole[k] < whole[l]) by {
            let a = if k < at {
                k
            } else {
                k - 1
            };
            let b = if l < at {
                l
            } else {
                l - 1
            };
            if k != at && l != at {
                assert(whole[k] == sorted[a] && whole[l] == sorted[b]);
            } else if k == at {
                assert(whole[l] == sorted[b]);
            } else {
                assert(whole[k] == sorted[a]);
                if a < at - 1 {
                    assert(ranks[sorted[a]] <= ranks[sorted[at - 1]]);
                }
            }
        }
        assert forall|k: int| 0 <= k < n implies 0 <= #[trigger] whole[k] < n by {
            if k < at {
                assert(whole[k] == sorted[k]);
            } else if k > at {
                assert(whole[k] == sorted[k - 1]);
            }
        }
    }
}

/// The ranks, as mathematical integers.
pub open spec fn rank_values(ranks: Seq<usize>) -> Seq<int> {
    ranks.map_values(|rank: usize| rank as int)
}

/// The places, as mathematical integers.
pub open spec fn index_values(indices: Seq<usize>) -> Seq<int> {
    indices.map_values(|index: usize| index as int)
}

/// The indices of `ranks` by rank; indices of one rank keep their order.
pub fn order_by_rank(ranks: &Vec<usize>) -> (indices: Vec<usize>)
    ensures
        index_values(indices@) == indices_by_rank(rank_values(ranks@), ranks@.len() as int),
{
    let ghost values = rank_values(ranks@);
    let mut indices: Vec<usize> = Vec::new();
    assert(index_values(indices@) =~= indices_by_rank(values, 0));
    let mut i: usize = 0;
    while i < ranks.len()
        invariant
            i <= ranks@.len(),
            values == rank_values(ranks@),
            index_values(indices@) == indices_by_rank(values, i as int),
            forall|k: int| 0 <= k < indices@.len() ==> (#[trigger] indices@[k]) < ranks@.len(),
        decreases ranks@.len() - i,
    {
        let ghost before = index_values(indices@);
        let mut at: usize = indices.len();
        while at > 0 && ranks[indices[at - 1]] > ranks[i]
            invariant
                at <= indices@.len(),
                i < ranks@.len(),
                values == rank_values(ranks@),
                before == index_values(indices@),
                forall|k: int| 0 <= k < indices@.len() ==> (#[trigger] indices@[k]) < ranks@.len(),
                forall|j: int|
                    at <= j < before.len() ==> values[#[trigger] before[j]] > values[i as int],
            decreases at,
        {
            assert(before[at - 1] == indices@[at - 1]);
            at -= 1;
        }
        proof {
            if at > 0 {
                assert(before[at - 1] == indices@[at - 1]);
            }
            lemma_index_placed_is(values, before, i as int, at as int);
        }
        let ghost old_indices = indices@;
        indices.insert(at, i);
        assert(index_values(indices@) =~= before.insert(at as int, i as int));
        assert forall|k: int| 0 <= k < indices@.len() implies (#[trigger] indices@[k])
            < ranks@.len() by {
            if k < at {
                assert(indices@[k] == old_indices[k]);
            } else if k > at {
                assert(indices@[k] == old_indices[k - 1]);
            }
        }
        i += 1;
    }
    indices
}

} // verus!
