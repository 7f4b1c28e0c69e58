//! The length of every read seen so far.

use vstd::prelude::*;
use crate::record::FastqRecord;
use crate::report::{Report, ReportView};

verus! {

/// Collects the sequence length of each record, in the order in which the
/// records arrive. Unlike the other statistics this one accumulates over
/// all records and all inputs.
pub struct LengthDistributionStatistic {
    lengths: Vec<usize>,
}

impl View for LengthDistributionStatistic {
    type V = Seq<usize>;

    closed spec fn view(&self) -> Seq<usize> {
        self.lengths@
    }
}

impl LengthDistributionStatistic {
    /// A distribution that has seen no record.
    pub fn new() -> (stat: Self)
        ensures
            stat@ == Seq::<usize>::empty(),
    {
        LengthDistributionStatistic { lengths: Vec::new() }
    }

    /// Appends the length of the record's sequence. An empty sequence is
    /// recorded as a length of zero.
    pub fn process(&mut self, record: &FastqRecord)
        ensures
            final(self)@ == old(self)@.push(record.seq.len()),
    {
        self.lengths.push(record.seq.len());
    }

    /// The lengths collected so far, oldest first.
    pub fn report(&self) -> (report: Report)
        ensures
            report@ == ReportView::LengthDistribution(self@),
    {
        Report::LengthDistribution(self.lengths.clone())
    }
}

} // verus!
