//! The relative C/N0 quality test (`--test-antennas`): choosing the
//! reference satellites and ranking the antennas.
//!
//! C/N0 values are compared through order-preserving integer keys: a higher
//! key is a better value.  A satellite is a reference satellite when it has
//! an estimate for every antenna and at least one antenna reaches the
//! threshold.  Each antenna has a score (its median C/N0 over the reference
//! satellites); antennas are ranked by score key, best first; equal keys
//! are ordered by antenna number, and equal antenna numbers by position.

use vstd::prelude::*;

verus! {

/// Entry `j` comes before entry `i` in rank order: a higher key, or an
/// equal key and a lower antenna number, or both equal and an earlier
/// position.
pub open spec fn ranks_before(ants: Seq<usize>, keys: Seq<u64>, j: int, i: int) -> bool {
    keys[j] > keys[i] || (keys[j] == keys[i] && (ants[j] < ants[i] || (ants[j] == ants[i] && j
        < i)))
}

/// The number of entries among the first `n` that come before entry `i`.
pub open spec fn count_before(ants: Seq<usize>, keys: Seq<u64>, i: int, n: int) -> nat
    decreases n,
{
    if n <= 0 {
        0
    } else {
        count_before(ants, keys, i, n - 1) + if ranks_before(ants, keys, n - 1, i) {
            1nat
        } else {
            0nat
        }
    }
}

/// The rank of entry `i` (1 = best): one more than the number of entries
/// that come before it.
pub open spec fn spec_rank(ants: Seq<usize>, keys: Seq<u64>, i: int) -> int {
    1 + count_before(ants, keys, i, ants.len() as int) as int
}

proof fn lemma_count_bound(ants: Seq<usize>, keys: Seq<u64>, i: int, n: int)
    requires
        0 <= n,
    ensures
        count_before(ants, keys, i, n) <= n,
        0 <= i < n ==> count_before(ants, keys, i, n) <= n - 1,
    decreases n,
{
    if n > 0 {
        lemma_count_bound(ants, keys, i, n - 1);
    }
}

/// If everything before `j` is also before `i`, and `j` itself is before
/// `i`, then strictly more entries come before `i` than before `j`.
proof fn lemma_count_monotone(ants: Seq<usize>, keys: Seq<u64>, j: int, i: int, n: int)
    requires
        0 <= n <= ants.len(),
        ants.len() == keys.len(),
        0 <= i < ants.len(),
        0 <= j < ants.len(),
        ranks_before(ants, keys, j, i),
    ensures
        count_before(ants, keys, j, n) <= count_before(ants, keys, i, n),
        j < n ==> count_before(ants, keys, j, n) < count_before(ants, keys, i, n),
    decreases n,
{
    if n > 0 {
        lemma_count_monotone(ants, keys, j, i, n - 1);
    }
}

/// Ranks are distinct and lie in `1..=n`: they number the entries
/// `1, 2, ..., n` in rank order.
pub proof fn lemma_ranks_are_a_permutation(ants: Seq<usize>, keys: Seq<u64>)
    requires
        ants.len() == keys.len(),
    ensures
        forall|i: int| 0 <= i < ants.len() ==> 1 <= #[trigger] spec_rank(ants, keys, i) <= ants.len(),
        forall|i: int, j: int|
            0 <= i < ants.len() && 0 <= j < ants.len() && i != j ==> #[trigger] spec_rank(ants, keys, i)
                != #[trigger] spec_rank(ants, keys, j),
        forall|i: int, j: int|
            0 <= i < ants.len() && 0 <= j < ants.len() && ranks_before(ants, keys, j, i)
                ==> #[trigger] spec_rank(ants, keys, j) < #[trigger] spec_rank(ants, keys, i),
{
    let n = ants.len() as int;
    assert forall|i: int| 0 <= i < n implies 1 <= #[trigger] spec_rank(ants, keys, i) <= n by {
        lemma_count_bound(ants, keys, i, n);
    }
    assert forall|i: int, j: int|
        0 <= i < n && 0 <= j < n && ranks_before(
            ants,
            keys,
            j,
            i,
        ) implies #[trigger] spec_rank(ants, keys, j) < #[trigger] spec_rank(ants, keys, i) by {
        lemma_count_monotone(ants, keys, j, i, n);
    }
    assert forall|i: int, j: int|
        0 <= i < n && 0 <= j < n && i != j implies #[trigger] spec_rank(ants, keys, i)
        != #[trigger] spec_rank(ants, keys, j) by {
        if ranks_before(ants, keys, j, i) {
            lemma_count_monotone(ants, keys, j, i, n);
        } else {
            assert(ranks_before(ants, keys, i, j));
            lemma_count_monotone(ants, keys, i, j, n);
        }
    }
}

/// The entry ranked first has the best key: no entry has a higher one.
pub proof fn lemma_rank_one_is_best(ants: Seq<usize>, keys: Seq<u64>, i: int)
    requires
        ants.len() == keys.len(),
        0 <= i < ants.len(),
        spec_rank(ants, keys, i) == 1,
    ensures
        forall|j: int| 0 <= j < ants.len() ==> #[trigger] keys[j] <= keys[i],
{
    lemma_ranks_are_a_permutation(ants, keys);
    assert forall|j: int| 0 <= j < ants.len() implies #[trigger] keys[j] <= keys[i] by {
        if keys[j] > keys[i] {
            assert(ranks_before(ants, keys, j, i));
            assert(spec_rank(ants, keys, j) < spec_rank(ants, keys, i));
            assert(1 <= spec_rank(ants, keys, j));
        }
    }
}

/// The number of values in `s` that reach `min_key`.
pub open spec fn count_at_least(s: Seq<u64>, min_key: u64) -> nat
    decreases s.len(),
{
    if s.len() == 0 {
        0
    } else {
        count_at_least(s.drop_last(), min_key) + if s.last() >= min_key {
            1nat
        } else {
            0nat
        }
    }
}

/// A satellite's per-antenna C/N0 keys make it a reference satellite: one
/// key for each of the `n_ant` antennas, and at least one reaching
/// `min_key`.
pub open spec fn is_reference_row(keys: Seq<u64>, n_ant: int, min_key: u64) -> bool {
    keys.len() == n_ant && exists|a: int| 0 <= a < keys.len() && #[trigger] keys[a] >= min_key
}

/// Whether a satellite with per-antenna C/N0 keys `keys` is a reference
/// satellite for `n_ant` antennas and threshold `min_key`.
pub fn is_reference(keys: &[u64], n_ant: usize, min_key: u64) -> (r: bool)
    ensures
        r == is_reference_row(keys@, n_ant as int, min_key),
{
    if keys.len() != n_ant {
        return false;
    }
    let mut i: usize = 0;
    while i < keys.len()
        invariant
            i <= keys.len(),
            keys.len() == n_ant,
            forall|a: int| 0 <= a < i ==> #[trigger] keys@[a] < min_key,
        decreases keys.len() - i,
    {
        if keys[i] >= min_key {
            assert(keys@[i as int] >= min_key);
            return true;
        }
        i += 1;
    }
    false
}

/// The number of values that reach `min_key` (an antenna's count of
/// reference satellites on which it meets the threshold); never more than
/// the number of values.
pub fn count_reaching(values: &[u64], min_key: u64) -> (n: usize)
    ensures
        n == count_at_least(values@, min_key),
        n <= values.len(),
{
    let mut n: usize = 0;
    let mut i: usize = 0;
    while i < values.len()
        invariant
            i <= values.len(),
            n <= i,
            n == count_at_least(values@.subrange(0, i as int), min_key),
        decreases values.len() - i,
    {
        assert(values@.subrange(0, i as int + 1).drop_last() =~= values@.subrange(0, i as int));
        if values[i] >= min_key {
            n += 1;
        }
        i += 1;
    }
    assert(values@.subrange(0, values.len() as int) =~= values@);
    n
}

/// Rank the antennas: entry `i` (antenna `antennas[i]` with score key
/// `keys[i]`) gets rank `1 + ` the number of entries that come before it
/// (higher key first, then lower antenna number, then earlier position).
pub fn rank_antennas(antennas: &[usize], keys: &[u64]) -> (ranks: Vec<usize>)
    requires
        antennas.len() == keys.len(),
    ensures
        ranks.len() == antennas.len(),
        forall|i: int|
            0 <= i < ranks.len() ==> #[trigger] ranks@[i] as int == spec_rank(antennas@, keys@, i),
{
    let n = antennas.len();
    let mut ranks: Vec<usize> = Vec::with_capacity(n);
    let mut i: usize = 0;
    while i < n
        invariant
            n == antennas.len(),
            n == keys.len(),
            i <= n,
            ranks.len() == i,
            forall|m: int|
                0 <= m < i ==> #[trigger] ranks@[m] as int == spec_rank(antennas@, keys@, m),
        decreases n - i,
    {
        let mut before: usize = 0;
        let mut j: usize = 0;
        while j < n
            invariant
                n == antennas.len(),
                n == keys.len(),
                i < n,
                j <= n,
                before as int == count_before(antennas@, keys@, i as int, j as int),
            decreases n - j,
        {
            proof {
                lemma_count_bound(antennas@, keys@, i as int, j as int);
            }
            let kj = keys[j];
            let ki = keys[i];
            let aj = antennas[j];
            let ai = antennas[i];
            if kj > ki || (kj == ki && (aj < ai || (aj == ai && j < i))) {
                before += 1;
            }
            j += 1;
        }
        proof {
            lemma_count_bound(antennas@, keys@, i as int, n as int);
        }
        ranks.push(before + 1);
        i += 1;
    }
    ranks
}

} // verus!
