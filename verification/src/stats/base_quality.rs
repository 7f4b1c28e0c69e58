//! Quality at each position of the most recent read.

use vstd::prelude::*;
use crate::ratio::Ratio;
use crate::record::FastqRecord;
use crate::report::{PositionQuality, Report, ReportView};

verus! {

/// For a read of `len` bases, each quality byte over `len`, position by
/// position. There is one entry for each quality byte, however many bases
/// the read has.
pub open spec fn position_averages(len: nat, qual: Seq<u8>) -> Seq<Ratio> {
    Seq::new(qual.len(), |i: int| Ratio { num: qual[i] as i128, den: len as u64 })
}

/// The averages numbered from one, as they are reported.
pub open spec fn numbered(averages: Seq<Ratio>) -> Seq<PositionQuality> {
    Seq::new(
        averages.len(),
        |i: int| PositionQuality { position: (i + 1) as usize, average_quality: averages[i] },
    )
}

/// Holds, for each position, the quality byte of the most recent read
/// divided by the number of bases of that read.
///
/// This is not an average over the reads: each read with at least one base
/// replaces what the read before it left, and the quality byte enters as
/// it stands in the input, without the offset of its encoding taken off. A
/// read without bases changes nothing.
pub struct BaseQualityPosStatistic {
    avg_per_position: Vec<Ratio>,
}

impl View for BaseQualityPosStatistic {
    type V = Seq<Ratio>;

    closed spec fn view(&self) -> Seq<Ratio> {
        self.avg_per_position@
    }
}

impl BaseQualityPosStatistic {
    #[verifier::type_invariant]
    spec fn all_defined(&self) -> bool {
        forall|i: int| 0 <= i < self.avg_per_position@.len() ==> self.avg_per_position@[i].den > 0
    }

    /// A statistic that has seen no read and holds no position.
    pub fn new() -> (stat: Self)
        ensures
            stat@ == Seq::<Ratio>::empty(),
    {
        BaseQualityPosStatistic { avg_per_position: Vec::new() }
    }

    /// Replaces the positions by those of `record`, unless it has no bases.
    pub fn process(&mut self, record: &FastqRecord)
        ensures
            record.seq@.len() == 0 ==> final(self)@ == old(self)@,
            record.seq@.len() > 0 ==> final(self)@ == position_averages(
                record.seq@.len(),
                record.qual@,
            ),
    {
        let len = record.seq.len();
        if len == 0 {
            return ;
        }
        let mut averages: Vec<Ratio> = Vec::new();
        let mut i: usize = 0;
        while i < record.qual.len()
            invariant
                0 <= i <= record.qual@.len(),
                len == record.seq@.len(),
                len > 0,
                averages@ == position_averages(len as nat, record.qual@).take(i as int),
            decreases record.qual@.len() - i,
        {
            averages.push(Ratio { num: record.qual[i] as i128, den: len as u64 });
            i = i + 1;
            assert(averages@ =~= position_averages(len as nat, record.qual@).take(i as int));
        }
        assert(averages@ =~= position_averages(len as nat, record.qual@));
        self.avg_per_position = averages;
    }

    /// The positions numbered from one, each with its ratio.
    pub fn report(&self) -> (report: Report)
        ensures
            report@ == ReportView::BaseQualityPosition(numbered(self@)),
            forall|i: int| 0 <= i < self@.len() ==> self@[i].is_defined(),
    {
        proof {
            use_type_invariant(self);
        }
        let mut result: Vec<PositionQuality> = Vec::new();
        let mut pos: usize = 0;
        while pos < self.avg_per_position.len()
            invariant
                0 <= pos <= self.avg_per_position@.len(),
                result@ == numbered(self.avg_per_position@).take(pos as int),
            decreases self.avg_per_position@.len() - pos,
        {
            result.push(
                PositionQuality { position: pos + 1, average_quality: self.avg_per_position[pos] },
            );
            pos = pos + 1;
            assert(result@ =~= numbered(self.avg_per_position@).take(pos as int));
        }
        assert(result@ =~= numbered(self.avg_per_position@));
        Report::BaseQualityPosition(result)
    }
}

} // verus!
