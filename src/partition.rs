//! Splitting the input-LWE axis of a key across devices.

use vstd::prelude::*;

verus! {

/// Units given to device `i` when `total` units are split over `count`
/// devices: an even share, plus one for each of the first `total % count`.
pub open spec fn shard_units(total: nat, count: nat, i: nat) -> nat
    recommends
        count > 0,
{
    total / count + if i < total % count {
        1nat
    } else {
        0nat
    }
}

/// First unit held by device `i`: the units of devices `0..i` come before it.
pub open spec fn shard_start(total: nat, count: nat, i: nat) -> nat
    recommends
        count > 0,
{
    i * (total / count) + if i < total % count {
        i
    } else {
        total % count
    }
}

/// The unit counts of all `count` devices, in device order.
pub open spec fn shard_unit_seq(total: nat, count: nat) -> Seq<nat> {
    Seq::new(count, |i: int| shard_units(total, count, i as nat))
}

/// Sum of a sequence of naturals.
pub open spec fn sum_of(s: Seq<nat>) -> nat
    decreases s.len(),
{
    if s.len() == 0 {
        0
    } else {
        sum_of(s.drop_last()) + s.last()
    }
}

proof fn lemma_shard_start_step(total: nat, count: nat, i: nat)
    requires
        count > 0,
    ensures
        shard_start(total, count, i + 1) == shard_start(total, count, i) + shard_units(
            total,
            count,
            i,
        ),
{
    let q = total / count;
    assert((i + 1) * q == i * q + q) by (nonlinear_arith);
}

proof fn lemma_prefix_sum(total: nat, count: nat, k: nat)
    requires
        count > 0,
        k <= count,
    ensures
        sum_of(shard_unit_seq(total, count).subrange(0, k as int)) == shard_start(total, count, k),
    decreases k,
{
    let s = shard_unit_seq(total, count);
    if k == 0 {
        assert(s.subrange(0, 0).len() == 0);
    } else {
        lemma_prefix_sum(total, count, (k - 1) as nat);
        assert(s.subrange(0, k as int).drop_last() =~= s.subrange(0, k - 1));
        lemma_shard_start_step(total, count, (k - 1) as nat);
    }
}

/// The devices' shards start where the previous one ends, and the last one
/// ends at `total`.
pub proof fn lemma_shards_tile(total: nat, count: nat)
    requires
        count > 0,
    ensures
        shard_start(total, count, 0) == 0,
        shard_start(total, count, count) == total,
        forall|i: nat|
            #![trigger shard_start(total, count, i + 1)]
            shard_start(total, count, i + 1) == shard_start(total, count, i) + shard_units(
                total,
                count,
                i,
            ),
{
    assert(total == count * (total / count) + total % count) by {
        vstd::arithmetic::div_mod::lemma_fundamental_div_mod(total as int, count as int);
    }
    assert(count * (total / count) == (total / count) * count) by (nonlinear_arith);
    assert forall|i: nat|
        #![trigger shard_start(total, count, i + 1)]
        shard_start(total, count, i + 1) == shard_start(total, count, i) + shard_units(
            total,
            count,
            i,
        ) by {
        lemma_shard_start_step(total, count, i);
    }
}

/// Partition coverage: the shards of `count` devices add up to `total`, and
/// no two of them differ by more than one unit.
pub proof fn lemma_partition_coverage(total: nat, count: nat)
    requires
        count > 0,
    ensures
        shard_unit_seq(total, count).len() == count,
        sum_of(shard_unit_seq(total, count)) == total,
        forall|i: int, j: int|
            0 <= i < count && 0 <= j < count ==> shard_unit_seq(total, count)[i] <= shard_unit_seq(
                total,
                count,
            )[j] + 1,
{
    let s = shard_unit_seq(total, count);
    lemma_prefix_sum(total, count, count);
    assert(s.subrange(0, count as int) =~= s);
    lemma_shards_tile(total, count);
}

/// Number of units each of `device_count` devices receives out of `total`,
/// in device order.
pub fn shard_sizes(total: usize, device_count: usize) -> (r: Vec<usize>)
    requires
        device_count > 0,
    ensures
        r@.len() == device_count,
        r@.map_values(|x: usize| x as nat) == shard_unit_seq(total as nat, device_count as nat),
        forall|i: int|
            0 <= i < device_count ==> r@[i] as nat == shard_units(
                total as nat,
                device_count as nat,
                i as nat,
            ),
{
    let base = total / device_count;
    let extra = total % device_count;
    let mut r: Vec<usize> = Vec::new();
    let mut i: usize = 0;
    while i < device_count
        invariant
            i <= device_count,
            base == total / device_count,
            extra == total % device_count,
            r@.len() == i,
            forall|k: int|
                0 <= k < i ==> r@[k] as nat == shard_units(
                    total as nat,
                    device_count as nat,
                    k as nat,
                ),
        decreases device_count - i,
    {
        if i < extra {
            assert(base < usize::MAX) by {
                vstd::arithmetic::div_mod::lemma_fundamental_div_mod(
                    total as int,
                    device_count as int,
                );
                assert(base * device_count >= 2 * base) by (nonlinear_arith)
                    requires
                        device_count >= 2,
                ;
                assert(base * device_count == device_count * base) by (nonlinear_arith);
            }
            r.push(base + 1);
        } else {
            r.push(base);
        }
        i = i + 1;
    }
    assert(r@.map_values(|x: usize| x as nat) =~= shard_unit_seq(
        total as nat,
        device_count as nat,
    ));
    r
}

} // verus!
