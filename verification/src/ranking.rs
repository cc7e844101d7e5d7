//! Ranks: the position that each of some numbers takes when they are put in order.
use vstd::prelude::*;
use vstd::seq_lib::{to_multiset_build, to_multiset_remove};
use vstd::set_lib::{lemma_int_range, lemma_map_size, lemma_subset_equality, set_int_range};

verus! {

/// Whether the key at `j` is put before the key at `i`: it is smaller, or it is equal and
/// stands before it already.
pub open spec fn precedes(keys: Seq<int>, j: int, i: int) -> bool {
    keys[j] < keys[i] || (keys[j] == keys[i] && j < i)
}

/// How many of the first `n` keys are put before the key at `i`.
pub open spec fn count_before(keys: Seq<int>, i: int, n: nat) -> nat
    decreases n,
{
    if n == 0 {
        0
    } else {
        count_before(keys, i, (n - 1) as nat) + (if precedes(keys, n - 1, i) {
            1nat
        } else {
            0nat
        })
    }
}

/// The position of the key at `i` when all keys are put in order.
pub open spec fn rank(keys: Seq<int>, i: int) -> nat {
    count_before(keys, i, keys.len())
}

/// The key that takes position `k` when all keys are put in order.
pub open spec fn source(keys: Seq<int>, k: int) -> int {
    choose|i: int| 0 <= i < keys.len() && #[trigger] rank(keys, i) == k
}

proof fn lemma_count_before_bounds(keys: Seq<int>, i: int, n: nat)
    ensures
        count_before(keys, i, n) <= n,
        i < n ==> 0 <= i ==> count_before(keys, i, n) < n,
    decreases n,
{
    if n > 0 {
        lemma_count_before_bounds(keys, i, (n - 1) as nat);
    }
}

/// A rank is a position in the list.
pub proof fn lemma_rank_in_range(keys: Seq<int>, i: int)
    requires
        0 <= i < keys.len(),
    ensures
        0 <= rank(keys, i) < keys.len(),
{
    lemma_count_before_bounds(keys, i, keys.len());
}

proof fn lemma_count_before_monotone(keys: Seq<int>, j: int, i: int, n: nat)
    requires
        precedes(keys, j, i),
        0 <= j,
    ensures
        count_before(keys, j, n) <= count_before(keys, i, n),
        j < n ==> count_before(keys, j, n) < count_before(keys, i, n),
    decreases n,
{
    if n > 0 {
        lemma_count_before_monotone(keys, j, i, (n - 1) as nat);
    }
}

/// Ranks are in the order of the keys, and no two are the same.
pub proof fn lemma_rank_order(keys: Seq<int>, j: int, i: int)
    requires
        0 <= j < keys.len(),
        0 <= i < keys.len(),
    ensures
        precedes(keys, j, i) <==> rank(keys, j) < rank(keys, i),
        rank(keys, j) == rank(keys, i) <==> i == j,
{
    if precedes(keys, j, i) {
        lemma_count_before_monotone(keys, j, i, keys.len());
    } else if j != i {
        lemma_count_before_monotone(keys, i, j, keys.len());
    }
}

/// Every position is taken by exactly one key.
pub proof fn lemma_source(keys: Seq<int>, k: int)
    requires
        0 <= k < keys.len(),
    ensures
        0 <= source(keys, k) < keys.len(),
        rank(keys, source(keys, k)) == k,
{
    let n = keys.len() as int;
    let positions = set_int_range(0, n);
    let f = |i: int| rank(keys, i) as int;
    lemma_int_range(0, n);
    assert(vstd::relations::injective_on(f, positions)) by {
        assert forall|i: int, j: int|
            positions.contains(i) && positions.contains(j) && #[trigger] f(i) == #[trigger] f(
                j,
            ) implies i == j by {
            lemma_rank_order(keys, i, j);
        }
    }
    let taken = positions.map(f);
    lemma_map_size(positions, taken, f);
    assert(taken.subset_of(positions)) by {
        assert forall|v: int| taken.contains(v) implies positions.contains(v) by {
            let i = choose|i: int| positions.contains(i) && f(i) == v;
            lemma_rank_in_range(keys, i);
        }
    }
    lemma_subset_equality(taken, positions);
    assert(positions.contains(k));
    assert(taken.contains(k));
    let i = choose|i: int| positions.contains(i) && f(i) == k;
    assert(rank(keys, i) == k);
}

/// The key at `i` is the one that takes the position of its rank.
pub proof fn lemma_source_of_rank(keys: Seq<int>, i: int)
    requires
        0 <= i < keys.len(),
    ensures
        source(keys, rank(keys, i) as int) == i,
{
    lemma_rank_in_range(keys, i);
    lemma_source(keys, rank(keys, i) as int);
    lemma_rank_order(keys, source(keys, rank(keys, i) as int), i);
}

/// `after` holds the items of `before`, the one at `i` at position `to[i]`.
pub open spec fn is_rearranged<A>(before: Seq<A>, after: Seq<A>, to: Seq<int>) -> bool {
    &&& after.len() == before.len()
    &&& to.len() == before.len()
    &&& forall|i: int|
        0 <= i < to.len() ==> 0 <= #[trigger] to[i] < after.len() && after[to[i]] == before[i]
    &&& forall|i: int, j: int| 0 <= i < j < to.len() ==> #[trigger] to[i] != #[trigger] to[j]
}

/// Rearranging loses no item and adds none.
pub proof fn lemma_rearranged_multiset<A>(before: Seq<A>, after: Seq<A>, to: Seq<int>)
    requires
        is_rearranged(before, after, to),
    ensures
        after.to_multiset() == before.to_multiset(),
    decreases before.len(),
{
    if before.len() == 0 {
        assert(before =~= after);
    } else {
        let n = before.len() - 1;
        let k = to[n];
        let shorter = before.drop_last();
        let rest = after.remove(k);
        let to_rest = Seq::new(
            n as nat,
            |i: int|
                if to[i] < k {
                    to[i]
                } else {
                    to[i] - 1
                },
        );
        assert forall|i: int| 0 <= i < n implies 0 <= #[trigger] to_rest[i] < rest.len()
            && rest[to_rest[i]] == shorter[i] by {
            assert(to[i] != to[n]);
        }
        assert forall|i: int, j: int| 0 <= i < j < n implies #[trigger] to_rest[i]
            != #[trigger] to_rest[j] by {
            assert(to[i] != to[j]);
            assert(to[i] != to[n]);
            assert(to[j] != to[n]);
        }
        lemma_rearranged_multiset(shorter, rest, to_rest);
        assert(before =~= shorter.push(before[n]));
        to_multiset_build(shorter, before[n]);
        to_multiset_remove(after, k);
        assert(after.to_multiset().contains(after[k])) by {
            vstd::seq_lib::to_multiset_contains(after, after[k]);
        }
        assert(after.to_multiset() =~= rest.to_multiset().insert(after[k]));
    }
}

/// The sum of a list of numbers.
pub open spec fn sum(numbers: Seq<int>) -> int
    decreases numbers.len(),
{
    if numbers.len() == 0 {
        0
    } else {
        sum(numbers.drop_last()) + numbers.last()
    }
}

proof fn lemma_sum_remove(numbers: Seq<int>, k: int)
    requires
        0 <= k < numbers.len(),
    ensures
        sum(numbers) == sum(numbers.remove(k)) + numbers[k],
    decreases numbers.len(),
{
    if k == numbers.len() - 1 {
        assert(numbers.remove(k) =~= numbers.drop_last());
    } else {
        lemma_sum_remove(numbers.drop_last(), k);
        assert(numbers.remove(k).drop_last() =~= numbers.drop_last().remove(k));
    }
}

/// The sum does not depend on the order.
pub proof fn lemma_sum_of_multiset(a: Seq<int>, b: Seq<int>)
    requires
        a.to_multiset() == b.to_multiset(),
    ensures
        sum(a) == sum(b),
    decreases a.len(),
{
    vstd::seq_lib::to_multiset_len(a);
    vstd::seq_lib::to_multiset_len(b);
    if a.len() > 0 {
        let x = a.last();
        vstd::seq_lib::to_multiset_contains(a, x);
        vstd::seq_lib::to_multiset_contains(b, x);
        assert(a[a.len() - 1] == x);
        let k = choose|k: int| 0 <= k < b.len() && b[k] == x;
        to_multiset_remove(a, a.len() - 1);
        to_multiset_remove(b, k);
        assert(a.remove(a.len() - 1) =~= a.drop_last());
        lemma_sum_of_multiset(a.drop_last(), b.remove(k));
        lemma_sum_remove(b, k);
    }
}

/// A prefix of numbers that are not negative adds up to at most the whole.
pub proof fn lemma_sum_prefix(numbers: Seq<int>, n: int)
    requires
        0 <= n <= numbers.len(),
        forall|i: int| 0 <= i < numbers.len() ==> 0 <= #[trigger] numbers[i],
    ensures
        0 <= sum(numbers.take(n)) <= sum(numbers),
    decreases numbers.len(), n,
{
    if n == numbers.len() {
        assert(numbers.take(n) =~= numbers);
        if n > 0 {
            lemma_sum_prefix(numbers, n - 1);
            assert(numbers.take(n - 1) =~= numbers.drop_last());
        }
    } else {
        assert(numbers.drop_last().take(n) =~= numbers.take(n));
        lemma_sum_prefix(numbers.drop_last(), n);
    }
}

/// Numbers that are each at most their counterparts add up to at most as much.
pub proof fn lemma_sum_monotone(a: Seq<int>, b: Seq<int>)
    requires
        a.len() == b.len(),
        forall|i: int| 0 <= i < a.len() ==> #[trigger] a[i] <= #[trigger] b[i],
    ensures
        sum(a) <= sum(b),
    decreases a.len(),
{
    if a.len() > 0 {
        lemma_sum_monotone(a.drop_last(), b.drop_last());
    }
}

/// The numbers of `keys` as mathematical integers.
pub open spec fn as_ints(keys: Seq<i64>) -> Seq<int> {
    keys.map_values(|k: i64| k as int)
}

/// The position of the key at `i` when all keys are put in order.
pub fn rank_of(keys: &Vec<i64>, i: usize) -> (r: usize)
    requires
        i < keys.len(),
    ensures
        r == rank(as_ints(keys@), i as int),
{
    let mut count: usize = 0;
    let mut j: usize = 0;
    while j < keys.len()
        invariant
            i < keys.len(),
            j <= keys.len(),
            count <= j,
            count == count_before(as_ints(keys@), i as int, j as nat),
        decreases keys.len() - j,
    {
        if keys[j] < keys[i] || (keys[j] == keys[i] && j < i) {
            count = count + 1;
        }
        j = j + 1;
    }
    count
}

/// A smaller key comes before a larger one, and of two equal keys the one that stands first. No
/// two keys take the same position.
pub proof fn law_ranks_are_in_order(keys: Vec<i64>, i: usize, j: usize, at_i: usize, at_j: usize)
    requires
        i < keys@.len(),
        j < keys@.len(),
        call_ensures(rank_of, (&keys, i), at_i),
        call_ensures(rank_of, (&keys, j), at_j),
    ensures
        at_i < keys@.len(),
        keys@[i as int] < keys@[j as int] ==> at_i < at_j,
        keys@[i as int] == keys@[j as int] && i < j ==> at_i < at_j,
        i != j ==> at_i != at_j,
{
    lemma_rank_in_range(as_ints(keys@), i as int);
    lemma_rank_order(as_ints(keys@), i as int, j as int);
}

/// The sum of numbers is what adding them up one by one comes to, in whatever order.
pub proof fn law_sums(numbers: Seq<int>, more: int)
    ensures
        sum(Seq::<int>::empty()) == 0,
        sum(numbers.push(more)) == sum(numbers) + more,
        sum(seq![more] + numbers) == more + sum(numbers),
{
    assert(numbers.push(more).drop_last() =~= numbers);
    let front = seq![more] + numbers;
    lemma_sum_remove(front, 0);
    assert(front.remove(0) =~= numbers);
}

} // verus!
