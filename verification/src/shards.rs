//! Cluster building: the deterministic, contiguous partition of the local
//! shard range into the configured number of clusters, as evenly as the
//! counts allow.

use crate::config::Config;
use vstd::arithmetic::div_mod::lemma_fundamental_div_mod;
use vstd::prelude::*;

verus! {

/// Size of cluster `c` when `n` shards are split into `k` clusters: the
/// first `n % k` clusters take one extra shard.
pub open spec fn cluster_size(n: int, k: int, c: int) -> int {
    n / k + if c < n % k {
        1int
    } else {
        0int
    }
}

/// Number of shards assigned to clusters before cluster `c`.
pub open spec fn shards_before(n: int, k: int, c: int) -> int
    decreases c,
{
    if c <= 0 {
        0
    } else {
        shards_before(n, k, c - 1) + cluster_size(n, k, c - 1)
    }
}

/// Closed form of `shards_before`: `c` whole quotients plus one extra
/// shard per remainder cluster already passed.
pub proof fn lemma_shards_before_value(n: int, k: int, c: int)
    requires
        0 <= n,
        1 <= k,
        0 <= c <= k,
    ensures
        shards_before(n, k, c) == c * (n / k) + if c <= n % k {
            c
        } else {
            n % k
        },
    decreases c,
{
    let q = n / k;
    let r = n % k;
    if c > 0 {
        lemma_shards_before_value(n, k, c - 1);
        assert((c - 1) * q + q == c * q) by (nonlinear_arith);
        assert(shards_before(n, k, c) == shards_before(n, k, c - 1) + cluster_size(n, k, c - 1));
        if c - 1 < r {
            assert(shards_before(n, k, c) == (c - 1) * q + (c - 1) + q + 1);
        } else {
            assert(shards_before(n, k, c) == (c - 1) * q + r + q);
        }
    } else {
        assert(0 * q == 0) by (nonlinear_arith);
    }
}

/// All clusters together hold exactly the `n` shards.
pub proof fn lemma_shards_before_total(n: int, k: int)
    requires
        0 <= n,
        1 <= k,
    ensures
        shards_before(n, k, k) == n,
{
    lemma_shards_before_value(n, k, k);
    lemma_fundamental_div_mod(n, k);
    if k <= n % k {
        assert(n % k < k);
    }
    assert(k * (n / k) == (n / k) * k) by (nonlinear_arith);
}

/// `shards_before` grows with the cluster index.
pub proof fn lemma_shards_before_monotone(n: int, k: int, c1: int, c2: int)
    requires
        0 <= n,
        1 <= k,
        0 <= c1 <= c2 <= k,
    ensures
        shards_before(n, k, c1) <= shards_before(n, k, c2),
    decreases c2 - c1,
{
    if c1 < c2 {
        lemma_shards_before_monotone(n, k, c1, c2 - 1);
        lemma_fundamental_div_mod(n, k);
        assert(k * (n / k) == (n / k) * k) by (nonlinear_arith);
        assert((n / k) * k >= 0) by (nonlinear_arith)
            requires
                n >= 0,
                k >= 1,
                n / k >= 0,
        ;
    }
}

/// The property the cluster builder guarantees: `parts` splits the local
/// shard range `[start, end)` into contiguous, maximally even clusters,
/// cluster `c` holding the shards from `start + shards_before(c)` on.
pub open spec fn is_even_partition(parts: Seq<Seq<u64>>, start: u64, end: u64, k: u64) -> bool {
    let n = end - start;
    &&& start <= end
    &&& k >= 1
    &&& parts.len() == k
    &&& forall|c: int| 0 <= c < k ==> (#[trigger] parts[c]).len() == cluster_size(n, k as int, c)
    &&& forall|c: int, j: int|
        0 <= c < k && 0 <= j < parts[c].len() ==> (#[trigger] parts[c][j]) == start + shards_before(
            n,
            k as int,
            c,
        ) + j
}

/// Number of shard ids this process owns: the span of its configured
/// local range.
pub fn get_shards(config: &Config) -> (r: u64)
    requires
        config.valid(),
    ensures
        r == config.shards_end - config.shards_start,
{
    config.shards_end - config.shards_start
}

/// Splits the half-open shard range `[start, end)` into `k` contiguous
/// clusters whose sizes differ by at most one, deterministically: the
/// same inputs always yield the same assignment.
pub fn partition_shards(start: u64, end: u64, k: u64) -> (parts: Vec<Vec<u64>>)
    requires
        start <= end,
        k >= 1,
    ensures
        is_even_partition(parts@.map_values(|v: Vec<u64>| v@), start, end, k),
        parts@.len() == k,
        forall|c: int|
            0 <= c < k ==> (#[trigger] parts@[c])@.len() == cluster_size(
                (end - start) as int,
                k as int,
                c,
            ),
        forall|c: int, j: int|
            0 <= c < k && 0 <= j < parts@[c]@.len() ==> (#[trigger] parts@[c]@[j]) == start
                + shards_before((end - start) as int, k as int, c) + j,
{
    let n = end - start;
    let base = n / k;
    let rem = n % k;
    let mut parts: Vec<Vec<u64>> = Vec::new();
    let mut next: u64 = start;
    let mut c: u64 = 0;
    while c < k
        invariant
            start <= end,
            k >= 1,
            n == end - start,
            base == n as int / k as int,
            rem == n as int % k as int,
            0 <= c <= k,
            parts@.len() == c,
            next == start + shards_before(n as int, k as int, c as int),
            next <= end,
            forall|ci: int|
                0 <= ci < c ==> (#[trigger] parts@[ci])@.len() == cluster_size(
                    n as int,
                    k as int,
                    ci,
                ),
            forall|ci: int, j: int|
                0 <= ci < c && 0 <= j < parts@[ci]@.len() ==> (#[trigger] parts@[ci]@[j]) == start
                    + shards_before(n as int, k as int, ci) + j,
        decreases k - c,
    {
        proof {
            lemma_shards_before_monotone(n as int, k as int, 0, c as int);
            lemma_shards_before_monotone(n as int, k as int, c as int + 1, k as int);
            lemma_shards_before_total(n as int, k as int);
            assert(shards_before(n as int, k as int, c as int + 1) == shards_before(
                n as int,
                k as int,
                c as int,
            ) + cluster_size(n as int, k as int, c as int));
        }
        let size = if c < rem {
            base + 1
        } else {
            base
        };
        proof {
            assert(cluster_size(n as int, k as int, c as int) == size);
            assert(next + size <= end);
        }
        let mut cluster: Vec<u64> = Vec::new();
        let mut j: u64 = 0;
        while j < size
            invariant
                0 <= j <= size,
                next + size <= end,
                cluster@.len() == j,
                forall|ji: int| 0 <= ji < j ==> (#[trigger] cluster@[ji]) == next + ji,
            decreases size - j,
        {
            cluster.push(next + j);
            j = j + 1;
        }
        parts.push(cluster);
        next = next + size;
        c = c + 1;
    }
    proof {
        let pv = parts@.map_values(|v: Vec<u64>| v@);
        assert(pv.len() == k);
        assert forall|ci: int| 0 <= ci < k implies (#[trigger] pv[ci]).len() == cluster_size(
            n as int,
            k as int,
            ci,
        ) by {
            assert(pv[ci] == parts@[ci]@);
        }
        assert forall|ci: int, j: int| 0 <= ci < k && 0 <= j < pv[ci].len() implies (
        #[trigger] pv[ci][j]) == start + shards_before(n as int, k as int, ci) + j by {
            assert(pv[ci] == parts@[ci]@);
        }
    }
    parts
}

/// Builds the fleet's clusters from the validated configuration:
/// `clusters` contiguous, maximally even slices of the local range.
pub fn get_clusters(config: &Config) -> (parts: Vec<Vec<u64>>)
    requires
        config.valid(),
    ensures
        is_even_partition(
            parts@.map_values(|v: Vec<u64>| v@),
            config.shards_start,
            config.shards_end,
            config.clusters,
        ),
        parts@.len() == config.clusters,
        forall|c: int|
            0 <= c < config.clusters ==> (#[trigger] parts@[c])@.len() == cluster_size(
                (config.shards_end - config.shards_start) as int,
                config.clusters as int,
                c,
            ),
        forall|c: int, j: int|
            0 <= c < config.clusters && 0 <= j < parts@[c]@.len() ==> (#[trigger] parts@[c]@[j])
                == config.shards_start + shards_before(
                (config.shards_end - config.shards_start) as int,
                config.clusters as int,
                c,
            ) + j,
{
    partition_shards(config.shards_start, config.shards_end, config.clusters)
}

/// Locates, for a shard offset `d` into the range, the cluster whose slice
/// holds it: clusters cover the range with no gaps.
proof fn lemma_find_cluster(n: int, k: int, m: int, d: int) -> (c: int)
    requires
        0 <= n,
        1 <= k,
        1 <= m <= k,
        0 <= d < shards_before(n, k, m),
    ensures
        0 <= c < m,
        shards_before(n, k, c) <= d < shards_before(n, k, c) + cluster_size(n, k, c),
    decreases m,
{
    if d >= shards_before(n, k, m - 1) {
        m - 1
    } else {
        lemma_find_cluster(n, k, m - 1, d)
    }
}

/// Whether some cluster of `parts` holds the shard id `s`.
pub open spec fn appears(parts: Seq<Seq<u64>>, s: u64) -> bool {
    exists|c: int, j: int| 0 <= c < parts.len() && 0 <= j < parts[c].len() && parts[c][j] == s
}

/// An even partition is a true partition of the local shard range: every
/// local shard id appears in some cluster, every held id is a local shard
/// id, and no id is held twice — across clusters or within one.
pub proof fn lemma_partition_complete_and_disjoint(
    parts: Seq<Seq<u64>>,
    start: u64,
    end: u64,
    k: u64,
)
    requires
        is_even_partition(parts, start, end, k),
    ensures
        forall|s: u64| start <= s < end ==> #[trigger] appears(parts, s),
        forall|c: int, j: int|
            0 <= c < parts.len() && 0 <= j < parts[c].len() ==> start <= (#[trigger] parts[c][j])
                < end,
        forall|c1: int, j1: int, c2: int, j2: int|
            0 <= c1 < parts.len() && 0 <= j1 < parts[c1].len() && 0 <= c2 < parts.len() && 0 <= j2
                < parts[c2].len() && #[trigger] parts[c1][j1] == #[trigger] parts[c2][j2] ==> c1
                == c2 && j1 == j2,
{
    let n = (end - start) as int;
    let ki = k as int;
    lemma_shards_before_total(n, ki);
    assert forall|s: u64| start <= s < end implies #[trigger] appears(parts, s) by {
        let d = s - start;
        let c = lemma_find_cluster(n, ki, ki, d);
        let j = d - shards_before(n, ki, c);
        assert(0 <= c < parts.len() && 0 <= j < parts[c].len() && parts[c][j] == s);
    }
    assert forall|c: int, j: int| 0 <= c < parts.len() && 0 <= j < parts[c].len() implies start <= (
    #[trigger] parts[c][j]) < end by {
        lemma_shards_before_monotone(n, ki, c + 1, ki);
        assert(shards_before(n, ki, c) + cluster_size(n, ki, c) == shards_before(n, ki, c + 1));
        assert(shards_before(n, ki, c) >= 0) by {
            lemma_shards_before_monotone(n, ki, 0, c);
        }
    }
    assert forall|c1: int, j1: int, c2: int, j2: int|
        0 <= c1 < parts.len() && 0 <= j1 < parts[c1].len() && 0 <= c2 < parts.len() && 0 <= j2
            < parts[c2].len() && #[trigger] parts[c1][j1] == #[trigger] parts[c2][j2] implies c1
        == c2 && j1 == j2 by {
        if c1 < c2 {
            lemma_shards_before_monotone(n, ki, c1 + 1, c2);
            assert(shards_before(n, ki, c1) + cluster_size(n, ki, c1) == shards_before(
                n,
                ki,
                c1 + 1,
            ));
        }
        if c2 < c1 {
            lemma_shards_before_monotone(n, ki, c2 + 1, c1);
            assert(shards_before(n, ki, c2) + cluster_size(n, ki, c2) == shards_before(
                n,
                ki,
                c2 + 1,
            ));
        }
    }
}

} // verus!
