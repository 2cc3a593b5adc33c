use vstd::prelude::*;

use crate::common::ConfigError;
use crate::hash::{fnv1a, fnv1a_spec};

verus! {

/// The partition that a record with content `record` belongs to among `n`
/// partitions.
pub open spec fn assign_spec(record: Seq<u8>, n: nat) -> nat
    recommends
        n > 0,
{
    (fnv1a_spec(record) as nat) % n
}

/// Maps a record's bytes to its partition index in `[0, num_partitions)`.
///
/// Fails with `ZeroPartitions` exactly when `num_partitions` is zero.
pub fn assign(record: &[u8], num_partitions: usize) -> (r: Result<usize, ConfigError>)
    ensures
        num_partitions == 0 <==> r == Err::<usize, ConfigError>(ConfigError::ZeroPartitions),
        num_partitions > 0 ==> (r matches Ok(p) && p == assign_spec(record@, num_partitions as nat)
            && p < num_partitions),
{
    if num_partitions == 0 {
        return Err(ConfigError::ZeroPartitions);
    }
    Ok(assign_nonzero(record, num_partitions))
}

/// `assign` for a count already known to be positive.
pub fn assign_nonzero(record: &[u8], num_partitions: usize) -> (p: usize)
    requires
        num_partitions > 0,
    ensures
        p == assign_spec(record@, num_partitions as nat),
        p < num_partitions,
{
    let h = fnv1a(record);
    (h % (num_partitions as u64)) as usize
}

} // verus!
