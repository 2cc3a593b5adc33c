use vstd::prelude::*;

use crate::assign::assign_spec;
use crate::common::Config;
use crate::filter::{filtered, kept};

verus! {

/// All partitions' outputs for `records`, concatenated in partition order,
/// for the partitions below `k` out of `n`.
pub open spec fn concat_partitions(records: Seq<Seq<u8>>, n: nat, k: nat) -> Seq<Seq<u8>>
    decreases k,
{
    if k == 0 {
        Seq::empty()
    } else {
        concat_partitions(records, n, (k - 1) as nat) + kept(records, (k - 1) as nat, n)
    }
}

/// The indices of the records of `records` that belong to `partition` out of
/// `n`, in increasing order.
pub open spec fn kept_indices(records: Seq<Seq<u8>>, partition: nat, n: nat) -> Seq<int>
    decreases records.len(),
{
    if records.len() == 0 {
        Seq::empty()
    } else {
        let prev = kept_indices(records.drop_last(), partition, n);
        if assign_spec(records.last(), n) == partition {
            prev.push(records.len() - 1)
        } else {
            prev
        }
    }
}

/// Determinism: the partition of a record depends on its byte content and
/// the partition count alone, so equal contents get equal partitions.
pub proof fn lemma_assign_deterministic(a: Seq<u8>, b: Seq<u8>, n: nat)
    requires
        a == b,
        n > 0,
    ensures
        assign_spec(a, n) == assign_spec(b, n),
{
}

/// Range: every record's partition lies in `[0, n)`.
pub proof fn lemma_assign_in_range(b: Seq<u8>, n: nat)
    requires
        n > 0,
    ensures
        0 <= assign_spec(b, n) < n,
{
}

/// Appending one record `x` to the input extends the output of partition
/// `p` by `x` when `x` belongs to `p`, and leaves it as it was otherwise.
pub proof fn lemma_kept_push(records: Seq<Seq<u8>>, x: Seq<u8>, p: nat, n: nat)
    ensures
        kept(records.push(x), p, n) == (if assign_spec(x, n) == p {
            kept(records, p, n).push(x)
        } else {
            kept(records, p, n)
        }),
{
    assert(records.push(x).drop_last() =~= records);
}

proof fn lemma_concat_partitions_empty(n: nat, k: nat)
    ensures
        concat_partitions(Seq::empty(), n, k) =~= Seq::<Seq<u8>>::empty(),
    decreases k,
{
    if k > 0 {
        lemma_concat_partitions_empty(n, (k - 1) as nat);
    }
}

proof fn lemma_concat_partitions_push(records: Seq<Seq<u8>>, x: Seq<u8>, n: nat, k: nat)
    ensures
        concat_partitions(records.push(x), n, k).to_multiset() == (if assign_spec(x, n) < k {
            concat_partitions(records, n, k).to_multiset().insert(x)
        } else {
            concat_partitions(records, n, k).to_multiset()
        }),
    decreases k,
{
    broadcast use vstd::multiset::group_multiset_axioms;
    broadcast use vstd::seq_lib::lemma_multiset_commutative;

    if k > 0 {
        let j = (k - 1) as nat;
        lemma_concat_partitions_push(records, x, n, j);
        lemma_kept_push(records, x, j, n);
        kept(records, j, n).to_multiset_ensures();
        let front = concat_partitions(records, n, j).to_multiset();
        let back = kept(records, j, n).to_multiset();
        if assign_spec(x, n) < j {
            assert(front.insert(x).add(back) =~= front.add(back).insert(x));
        } else if assign_spec(x, n) == j {
            assert(front.add(back.insert(x)) =~= front.add(back).insert(x));
        }
    }
}

/// Completeness and disjointness: the outputs of all `n` partitions,
/// concatenated in partition order, hold every input record exactly as many
/// times as the input does.
pub proof fn lemma_partitions_complete(records: Seq<Seq<u8>>, n: nat)
    requires
        n > 0,
    ensures
        concat_partitions(records, n, n).to_multiset() == records.to_multiset(),
    decreases records.len(),
{
    broadcast use vstd::multiset::group_multiset_axioms;

    if records.len() == 0 {
        lemma_concat_partitions_empty(n, n);
        assert(records =~= Seq::<Seq<u8>>::empty());
    } else {
        let prev = records.drop_last();
        let x = records.last();
        assert(prev.push(x) =~= records);
        lemma_partitions_complete(prev, n);
        lemma_concat_partitions_push(prev, x, n, n);
        prev.to_multiset_ensures();
    }
}

/// Order preservation: the output of partition `p` is the input records at
/// the strictly increasing positions `kept_indices(records, p, n)`, and those
/// positions are exactly the ones whose record belongs to `p`.
pub proof fn lemma_kept_order(records: Seq<Seq<u8>>, p: nat, n: nat)
    ensures
        kept_indices(records, p, n).len() == kept(records, p, n).len(),
        forall|j: int|
            0 <= j < kept(records, p, n).len() ==> 0 <= #[trigger] kept_indices(records, p, n)[j]
                < records.len() && kept(records, p, n)[j] == records[kept_indices(
                records,
                p,
                n,
            )[j]],
        forall|j1: int, j2: int|
            0 <= j1 < j2 < kept_indices(records, p, n).len() ==> #[trigger] kept_indices(
                records,
                p,
                n,
            )[j1] < #[trigger] kept_indices(records, p, n)[j2],
        forall|i: int|
            0 <= i < records.len() ==> (assign_spec(records[i], n) == p <==> #[trigger] kept_indices(
                records,
                p,
                n,
            ).contains(i)),
    decreases records.len(),
{
    if records.len() > 0 {
        let prev = records.drop_last();
        lemma_kept_order(prev, p, n);
        let pi = kept_indices(prev, p, n);
        let last = records.len() - 1;
        assert forall|i: int| 0 <= i < records.len() implies (assign_spec(records[i], n) == p
            <==> #[trigger] kept_indices(records, p, n).contains(i)) by {
            if i < last {
                assert(records[i] == prev[i]);
                if assign_spec(records.last(), n) == p {
                    assert(pi.push(last).contains(i) <==> pi.contains(i)) by {
                        if pi.push(last).contains(i) {
                            let k = choose|k: int| 0 <= k < pi.push(last).len() && pi.push(last)[k] == i;
                            if k < pi.len() {
                                assert(pi[k] == i);
                            }
                        }
                        if pi.contains(i) {
                            let k = choose|k: int| 0 <= k < pi.len() && pi[k] == i;
                            assert(pi.push(last)[k] == i);
                        }
                    }
                }
            } else {
                if assign_spec(records.last(), n) == p {
                    assert(pi.push(last)[pi.len() as int] == last);
                } else {
                    if pi.contains(i) {
                        let k = choose|k: int| 0 <= k < pi.len() && pi[k] == i;
                        assert(pi[k] < prev.len());
                    }
                }
            }
        }
    }
}

/// Each input position lands in the output of exactly one partition below
/// `n`: the one its record is assigned to.
pub proof fn lemma_each_record_in_one_partition(records: Seq<Seq<u8>>, n: nat, i: int)
    requires
        n > 0,
        0 <= i < records.len(),
    ensures
        assign_spec(records[i], n) < n,
        kept_indices(records, assign_spec(records[i], n), n).contains(i),
        forall|p: nat| p != assign_spec(records[i], n) ==> !#[trigger] kept_indices(records, p, n).contains(i),
{
    lemma_kept_order(records, assign_spec(records[i], n), n);
    assert forall|p: nat| p != assign_spec(records[i], n) implies !#[trigger] kept_indices(records, p, n).contains(i) by {
        lemma_kept_order(records, p, n);
    }
}

/// Re-running one partition's filter over the same input gives the same
/// output.
pub proof fn lemma_rerun_identical(config: Config, first: Seq<Seq<u8>>, second: Seq<Seq<u8>>)
    requires
        config.wf(),
        first == second,
    ensures
        filtered(config, first) == filtered(config, second),
{
}

/// An empty input gives an empty output.
pub proof fn lemma_empty_input(config: Config)
    requires
        config.wf(),
    ensures
        filtered(config, Seq::empty()) == Seq::<Seq<u8>>::empty(),
{
}

/// A single record goes, whole, to the one partition it belongs to, and
/// every other partition's output over it is empty.
pub proof fn lemma_single_record(x: Seq<u8>, n: nat)
    requires
        n > 0,
    ensures
        assign_spec(x, n) < n,
        kept(seq![x], assign_spec(x, n), n) == seq![x],
        forall|p: nat| p != assign_spec(x, n) ==> #[trigger] kept(seq![x], p, n) == Seq::<Seq<u8>>::empty(),
{
    let none = Seq::<Seq<u8>>::empty();
    assert(none.push(x) =~= seq![x]);
    assert(kept(none, assign_spec(x, n), n) == none);
    lemma_kept_push(none, x, assign_spec(x, n), n);
    assert forall|p: nat| p != assign_spec(x, n) implies #[trigger] kept(seq![x], p, n) == none by {
        assert(kept(none, p, n) == none);
        lemma_kept_push(none, x, p, n);
    }
}

} // verus!
