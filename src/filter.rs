use vstd::prelude::*;

use crate::assign::assign_spec;
use crate::common::Config;

verus! {

/// The records of `records` that belong to `partition` out of `n`, in input
/// order.
pub open spec fn kept(records: Seq<Seq<u8>>, partition: nat, n: nat) -> Seq<Seq<u8>>
    decreases records.len(),
{
    if records.len() == 0 {
        Seq::empty()
    } else {
        let prev = kept(records.drop_last(), partition, n);
        if assign_spec(records.last(), n) == partition {
            prev.push(records.last())
        } else {
            prev
        }
    }
}

/// What a filter with configuration `config` outputs for `records`.
pub open spec fn filtered(config: Config, records: Seq<Seq<u8>>) -> Seq<Seq<u8>> {
    kept(records, config.partition as nat, config.num_partitions as nat)
}

/// The byte content of each record of `records`.
pub open spec fn records_view(records: Seq<Vec<u8>>) -> Seq<Seq<u8>> {
    records.map_values(|v: Vec<u8>| v@)
}

/// Length of the record held by `line`: the line without a trailing `"\n"`
/// or `"\r\n"`.
pub open spec fn record_len_spec(line: Seq<u8>) -> nat {
    if line.len() >= 2 && line[line.len() - 2] == 13u8 && line[line.len() - 1] == 10u8 {
        (line.len() - 2) as nat
    } else if line.len() >= 1 && line[line.len() - 1] == 10u8 {
        (line.len() - 1) as nat
    } else {
        line.len()
    }
}

/// The number of leading bytes of `line` that form its record, leaving out
/// the line terminator (`"\n"` or `"\r\n"`) if there is one.
pub fn record_len(line: &[u8]) -> (r: usize)
    ensures
        r == record_len_spec(line@),
        r <= line@.len(),
{
    let n = line.len();
    if n >= 2 && line[n - 2] == 13u8 && line[n - 1] == 10u8 {
        n - 2
    } else if n >= 1 && line[n - 1] == 10u8 {
        n - 1
    } else {
        n
    }
}

/// Filters `records` in memory: the records that belong to the configured
/// partition, in their input order.
pub fn filter_records(config: &Config, records: &Vec<Vec<u8>>) -> (r: Vec<Vec<u8>>)
    requires
        config.wf(),
    ensures
        records_view(r@) == filtered(*config, records_view(records@)),
{
    let mut out: Vec<Vec<u8>> = Vec::new();
    let mut i: usize = 0;
    while i < records.len()
        invariant
            config.wf(),
            i <= records@.len(),
            records_view(out@) == filtered(*config, records_view(records@.subrange(0, i as int))),
        decreases records@.len() - i,
    {
        let rec = &records[i];
        let ghost before = records_view(records@.subrange(0, i as int));
        let ghost after = records_view(records@.subrange(0, i as int + 1));
        proof {
            assert(after.drop_last() =~= before);
            assert(after.last() == rec@);
        }
        let ghost prev_out = out@;
        if config.accepts(rec.as_slice()) {
            let copy = rec.clone();
            assert(copy@ =~= rec@);
            out.push(copy);
            proof {
                assert(records_view(out@) =~= records_view(prev_out).push(rec@));
            }
        }
        i = i + 1;
    }
    proof {
        assert(records@.subrange(0, i as int) =~= records@);
    }
    out
}

/// A single-pass filter over a stream of records, one record at a time.
///
/// It holds nothing of the stream but, as ghost state, the records seen so
/// far, so its contracts can speak of the whole pass.
pub struct StreamFilter {
    config: Config,
    seen: Ghost<Seq<Seq<u8>>>,
}

impl StreamFilter {
    /// The configuration the filter was built with.
    pub closed spec fn config_spec(&self) -> Config {
        self.config
    }

    /// The records handed to the filter so far, in order.
    pub closed spec fn seen(&self) -> Seq<Seq<u8>> {
        self.seen@
    }

    /// The records the filter has accepted so far, in order.
    pub open spec fn emitted(&self) -> Seq<Seq<u8>> {
        filtered(self.config_spec(), self.seen())
    }

    /// The filter's configuration is usable.
    pub open spec fn wf(&self) -> bool {
        self.config_spec().wf()
    }

    /// Starts a pass that has seen no record.
    pub fn new(config: Config) -> (r: StreamFilter)
        requires
            config.wf(),
        ensures
            r.wf(),
            r.config_spec() == config,
            r.seen() == Seq::<Seq<u8>>::empty(),
            r.emitted() == Seq::<Seq<u8>>::empty(),
    {
        StreamFilter { config, seen: Ghost(Seq::empty()) }
    }

    /// The configuration the filter was built with.
    pub fn config(&self) -> (r: Config)
        ensures
            r == self.config_spec(),
    {
        self.config
    }

    /// Takes the next record of the stream and says whether to forward it.
    pub fn step(&mut self, record: &[u8]) -> (r: bool)
        requires
            old(self).wf(),
        ensures
            final(self).wf(),
            final(self).config_spec() == old(self).config_spec(),
            final(self).seen() == old(self).seen().push(record@),
            r == old(self).config_spec().accepts_spec(record@),
            final(self).emitted() == (if r {
                old(self).emitted().push(record@)
            } else {
                old(self).emitted()
            }),
    {
        let r = self.config.accepts(record);
        let ghost prev = self.seen@;
        self.seen = Ghost(prev.push(record@));
        proof {
            assert(self.seen@.drop_last() =~= prev);
        }
        r
    }
}

} // verus!
