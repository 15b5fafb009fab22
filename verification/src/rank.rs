use vstd::prelude::*;

verus! {

/// Whether position `i` comes before position `j` when keys are ranked from
/// the largest down: its key is larger, or the keys are equal and `i` is
/// the earlier position.
pub open spec fn ranks_before(keys: Seq<u64>, i: int, j: int) -> bool {
    keys[i] > keys[j] || (keys[i] == keys[j] && i < j)
}

/// Whether `i` is the position that comes first among those not yet taken.
pub open spec fn is_best(keys: Seq<u64>, taken: Set<int>, i: int) -> bool {
    &&& 0 <= i < keys.len()
    &&& !taken.contains(i)
    &&& forall|j: int|
        0 <= j < keys.len() && !taken.contains(j) && j != i ==> ranks_before(keys, i, j)
}

/// The position that comes first among those not yet taken.
pub open spec fn best(keys: Seq<u64>, taken: Set<int>) -> int {
    choose|i: int| is_best(keys, taken, i)
}

/// The first `count` positions of `keys` in ranked order: from the largest
/// key down, positions of equal keys in their own order.
pub open spec fn ranking(keys: Seq<u64>, count: nat) -> Seq<int>
    decreases count,
{
    if count == 0 {
        Seq::empty()
    } else {
        let front = ranking(keys, (count - 1) as nat);
        front.push(best(keys, front.to_set()))
    }
}

/// The positions that a list of indices holds.
pub open spec fn positions(order: Seq<usize>) -> Seq<int> {
    order.map_values(|i: usize| i as int)
}

/// Only one position can come first among those not yet taken.
pub proof fn lemma_best_is_unique(keys: Seq<u64>, taken: Set<int>, i: int)
    requires
        is_best(keys, taken, i),
    ensures
        best(keys, taken) == i,
{
    let other = best(keys, taken);
    assert(is_best(keys, taken, other));
    if other != i {
        assert(ranks_before(keys, i, other));
        assert(ranks_before(keys, other, i));
    }
}

/// The first `count` positions of `keys` in ranked order, or all of them
/// where there are fewer.
pub fn rank(keys: &Vec<u64>, count: usize) -> (order: Vec<usize>)
    ensures
        positions(order@) == ranking(
            keys@,
            if count <= keys@.len() {
                count as nat
            } else {
                keys@.len()
            },
        ),
{
    let total = keys.len();
    let wanted = if count <= total {
        count
    } else {
        total
    };
    let mut taken: Vec<bool> = Vec::new();
    let mut filled: usize = 0;
    while filled < total
        invariant
            filled <= total,
            taken@.len() == filled,
            forall|j: int| 0 <= j < filled ==> !taken@[j],
        decreases total - filled,
    {
        taken.push(false);
        filled += 1;
    }
    let mut order: Vec<usize> = Vec::new();
    proof {
        assert(positions(order@) =~= ranking(keys@, 0));
    }
    while order.len() < wanted
        invariant
            total == keys@.len(),
            wanted <= total,
            order@.len() <= wanted,
            taken@.len() == total,
            positions(order@) == ranking(keys@, order@.len()),
            forall|j: int| 0 <= j < total ==> (taken@[j] <==> positions(order@).to_set().contains(j)),
            forall|k: int| 0 <= k < order@.len() ==> 0 <= #[trigger] positions(order@)[k] < total,
            positions(order@).no_duplicates(),
        decreases wanted - order@.len(),
    {
        let ghost chosen = positions(order@);
        let ghost used = chosen.to_set();
        proof {
            chosen.unique_seq_to_set();
            assert(used.len() == order@.len());
            if forall|j: int| 0 <= j < total ==> taken@[j] {
                let all = Set::new(|j: int| 0 <= j < total);
                vstd::set_lib::lemma_int_range(0, total as int);
                assert(all =~= vstd::set_lib::set_int_range(0, total as int));
                assert forall|j: int| all.contains(j) implies used.contains(j) by {
                    assert(taken@[j]);
                }
                assert(all.subset_of(used));
                vstd::set_lib::lemma_len_subset(all, used);
                assert(false);
            }
        }
        let mut found: Option<usize> = None;
        let mut j: usize = 0;
        while j < total
            invariant
                j <= total,
                total == keys@.len(),
                taken@.len() == total,
                match found {
                    Some(i) => {
                        &&& i < j
                        &&& !taken@[i as int]
                        &&& forall|k: int|
                            0 <= k < j && !taken@[k] && k != i ==> ranks_before(keys@, i as int, k)
                    },
                    None => forall|k: int| 0 <= k < j ==> taken@[k],
                },
            decreases total - j,
        {
            if !taken[j] {
                match found {
                    Some(i) => {
                        if keys[j] > keys[i] {
                            found = Some(j);
                        }
                    },
                    None => {
                        found = Some(j);
                    },
                }
            }
            j += 1;
        }
        let pick = match found {
            Some(i) => i,
            None => {
                proof {
                    assert(false);
                }
                return order;
            },
        };
        proof {
            assert(!taken@[pick as int]);
            assert(!used.contains(pick as int));
            assert forall|j: int|
                0 <= j < keys@.len() && !used.contains(j) && j != pick implies ranks_before(
                keys@,
                pick as int,
                j,
            ) by {
                assert(!taken@[j]);
            }
            assert(is_best(keys@, used, pick as int));
            lemma_best_is_unique(keys@, used, pick as int);
        }
        taken.set(pick, true);
        order.push(pick);
        proof {
            let grown = positions(order@);
            assert(grown =~= chosen.push(pick as int));
            assert forall|j: int| 0 <= j < total implies (taken@[j] <==> grown.to_set().contains(
                j,
            )) by {
                if j == pick {
                    assert(grown[chosen.len() as int] == j);
                } else {
                    if used.contains(j) {
                        let k = choose|k: int| 0 <= k < chosen.len() && chosen[k] == j;
                        assert(grown[k] == j);
                    }
                    if grown.to_set().contains(j) {
                        let k = choose|k: int| 0 <= k < grown.len() && grown[k] == j;
                        assert(chosen[k] == j);
                    }
                }
            }
            assert forall|a: int, b: int|
                0 <= a < grown.len() && 0 <= b < grown.len() && a != b implies grown[a]
                != grown[b] by {
                if a < chosen.len() && b < chosen.len() {
                } else if a < chosen.len() {
                    assert(used.contains(chosen[a]));
                } else {
                    assert(used.contains(chosen[b]));
                }
            }
        }
    }
    order
}

/// Among the first `upto` positions, if one is not yet taken then one of
/// them comes first.
proof fn lemma_best_among(keys: Seq<u64>, taken: Set<int>, upto: int) -> (i: int)
    requires
        0 <= upto <= keys.len(),
        exists|j: int| 0 <= j < upto && !taken.contains(j),
    ensures
        0 <= i < upto,
        !taken.contains(i),
        forall|j: int| 0 <= j < upto && !taken.contains(j) && j != i ==> ranks_before(keys, i, j),
    decreases upto,
{
    let last = upto - 1;
    if exists|j: int| 0 <= j < last && !taken.contains(j) {
        let before = lemma_best_among(keys, taken, last);
        if taken.contains(last) || keys[last] <= keys[before] {
            before
        } else {
            last
        }
    } else {
        last
    }
}

/// The ranked order is what its name says. Each of its positions is a
/// position of `keys`, none occurs twice, and each comes before every
/// position that stands later in the order or is left out of it: no key
/// behind is larger, and equal keys keep the order of their positions.
pub proof fn lemma_ranking_is_ranked(keys: Seq<u64>, count: nat)
    requires
        count <= keys.len(),
    ensures
        ranking(keys, count).len() == count,
        ranking(keys, count).no_duplicates(),
        forall|k: int| 0 <= k < count ==> 0 <= #[trigger] ranking(keys, count)[k] < keys.len(),
        forall|k: int, l: int|
            0 <= k < l < count ==> ranks_before(
                keys,
                #[trigger] ranking(keys, count)[k],
                #[trigger] ranking(keys, count)[l],
            ),
        forall|k: int, j: int|
            0 <= k < count && 0 <= j < keys.len() && !ranking(keys, count).contains(j)
                ==> #[trigger] ranks_before(keys, ranking(keys, count)[k], j),
    decreases count,
{
    if count > 0 {
        let front = ranking(keys, (count - 1) as nat);
        let whole = ranking(keys, count);
        lemma_ranking_is_ranked(keys, (count - 1) as nat);
        let used = front.to_set();
        front.unique_seq_to_set();
        if forall|j: int| 0 <= j < keys.len() ==> used.contains(j) {
            let all = Set::new(|j: int| 0 <= j < keys.len());
            vstd::set_lib::lemma_int_range(0, keys.len() as int);
            assert(all =~= vstd::set_lib::set_int_range(0, keys.len() as int));
            assert(all.subset_of(used));
            vstd::set_lib::lemma_len_subset(all, used);
            assert(false);
        }
        let first = lemma_best_among(keys, used, keys.len() as int);
        assert(is_best(keys, used, first));
        lemma_best_is_unique(keys, used, first);
        assert(whole == front.push(first));
        assert forall|k: int| 0 <= k < count implies 0 <= #[trigger] whole[k] < keys.len() by {
            if k < count - 1 {
                assert(whole[k] == front[k]);
            }
        }
        assert forall|a: int, b: int| 0 <= a < whole.len() && 0 <= b < whole.len() && a
            != b implies whole[a] != whole[b] by {
            if a < front.len() && b < front.len() {
                assert(front[a] != front[b]);
            } else if a < front.len() {
                assert(used.contains(front[a]));
            } else {
                assert(used.contains(front[b]));
            }
        }
        assert forall|k: int, l: int| 0 <= k < l < count implies ranks_before(
            keys,
            #[trigger] whole[k],
            #[trigger] whole[l],
        ) by {
            assert(whole[k] == front[k]);
            if l < count - 1 {
                assert(whole[l] == front[l]);
                assert(ranks_before(keys, front[k], front[l]));
            } else {
                assert(!front.contains(first));
                assert(ranks_before(keys, front[k], first));
            }
        }
        assert forall|k: int, j: int|
            0 <= k < count && 0 <= j < keys.len() && !whole.contains(j) implies #[trigger] ranks_before(
            keys,
            whole[k],
            j,
        ) by {
            assert(j != first) by {
                assert(whole[count - 1] == first);
            }
            assert(!front.contains(j)) by {
                if front.contains(j) {
                    let at = choose|at: int| 0 <= at < front.len() && front[at] == j;
                    assert(whole[at] == j);
                }
            }
            if k < count - 1 {
                assert(whole[k] == front[k]);
                assert(ranks_before(keys, front[k], j));
            } else {
                assert(!used.contains(j));
            }
        }
    }
}

} // verus!
