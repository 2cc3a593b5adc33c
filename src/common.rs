use vstd::prelude::*;

use crate::assign::{assign_nonzero, assign_spec};

verus! {

/// Why a partitioning configuration was rejected.
#[derive(Debug, Clone, Copy, PartialEq, Eq, Structural)]
pub enum ConfigError {
    /// The partition count is zero.
    ZeroPartitions,
    /// The partition index is not below the partition count.
    PartitionOutOfRange,
}

impl ConfigError {
    /// A human-readable description of the error.
    pub fn message(&self) -> (r: String) {
        match self {
            ConfigError::ZeroPartitions => "number of partitions must be positive".to_string(),
            ConfigError::PartitionOutOfRange => "partition must be less than the number of partitions".to_string(),
        }
    }
}

/// Which partition a filter accepts, out of how many.
#[derive(Debug, Clone, Copy, PartialEq, Eq, Structural)]
pub struct Config {
    pub partition: usize,
    pub num_partitions: usize,
}

impl Config {
    /// A usable configuration: at least one partition, and the selected
    /// partition is one of them.
    pub open spec fn wf(&self) -> bool {
        0 < self.num_partitions && self.partition < self.num_partitions
    }

    /// Whether a record with content `record` belongs to the selected
    /// partition.
    pub open spec fn accepts_spec(&self, record: Seq<u8>) -> bool {
        assign_spec(record, self.num_partitions as nat) == self.partition
    }

    /// Builds a configuration, rejecting a zero partition count first and an
    /// out-of-range partition index second.
    pub fn new(partition: usize, num_partitions: usize) -> (r: Result<Config, ConfigError>)
        ensures
            num_partitions == 0 ==> r == Err::<Config, ConfigError>(ConfigError::ZeroPartitions),
            num_partitions > 0 && partition >= num_partitions
                ==> r == Err::<Config, ConfigError>(ConfigError::PartitionOutOfRange),
            partition < num_partitions ==> r == Ok::<Config, ConfigError>(
                (Config { partition, num_partitions }),
            ),
            r matches Ok(c) ==> c.wf(),
    {
        if num_partitions == 0 {
            Err(ConfigError::ZeroPartitions)
        } else if partition >= num_partitions {
            Err(ConfigError::PartitionOutOfRange)
        } else {
            Ok(Config { partition, num_partitions })
        }
    }

    /// Whether `record` belongs to the selected partition.
    pub fn accepts(&self, record: &[u8]) -> (r: bool)
        requires
            self.wf(),
        ensures
            r == self.accepts_spec(record@),
    {
        assign_nonzero(record, self.num_partitions) == self.partition
    }
}

} // verus!
