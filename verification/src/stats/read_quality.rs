//! Average quality of the most recent read.

use vstd::prelude::*;
use crate::ratio::Ratio;
use crate::record::FastqRecord;
use crate::report::{Report, ReportView};

verus! {

/// What the quality encoding adds to a score to make a printable byte.
pub const PHRED_OFFSET: u8 = 33;

/// The score that a quality byte encodes. A byte below the offset encodes
/// a negative score.
pub open spec fn phred_score(byte: u8) -> int {
    byte - PHRED_OFFSET
}

/// The sum of the scores that `qual` encodes.
pub open spec fn phred_sum(qual: Seq<u8>) -> int
    decreases qual.len(),
{
    if qual.len() == 0 {
        0
    } else {
        phred_sum(qual.drop_last()) + phred_score(qual.last())
    }
}

/// The sum of the scores of a read over the number of its bases.
pub open spec fn read_average(len: nat, qual: Seq<u8>) -> Ratio {
    Ratio { num: phred_sum(qual) as i128, den: len as u64 }
}

/// Quality bytes that are all the same byte sum to the score of that byte
/// times their number, so that their average is that score.
pub proof fn lemma_uniform_quality_sum(qual: Seq<u8>, byte: u8)
    requires
        forall|i: int| 0 <= i < qual.len() ==> qual[i] == byte,
    ensures
        phred_sum(qual) == qual.len() * phred_score(byte),
    decreases qual.len(),
{
    if qual.len() > 0 {
        lemma_uniform_quality_sum(qual.drop_last(), byte);
        assert(qual.len() * phred_score(byte) == (qual.len() - 1) * phred_score(byte)
            + phred_score(byte)) by (nonlinear_arith);
    }
}

/// Holds the average score of the most recent read: the sum of its scores
/// over the number of its bases.
///
/// This is not an average over the reads: each read with at least one base
/// replaces what the read before it left. A read without bases changes
/// nothing.
pub struct ReadQualityStatistic {
    avg_quality_all_reads: Ratio,
}

impl View for ReadQualityStatistic {
    type V = Ratio;

    closed spec fn view(&self) -> Ratio {
        self.avg_quality_all_reads
    }
}

impl ReadQualityStatistic {
    #[verifier::type_invariant]
    spec fn defined(&self) -> bool {
        self.avg_quality_all_reads.den > 0
    }

    /// A statistic that has seen no read; its average is `0/1`.
    pub fn new() -> (stat: Self)
        ensures
            stat@ == (Ratio { num: 0, den: 1 }),
    {
        ReadQualityStatistic { avg_quality_all_reads: Ratio::zero() }
    }

    /// Replaces the average by that of `record`, unless it has no bases.
    pub fn process(&mut self, record: &FastqRecord)
        ensures
            record.seq@.len() == 0 ==> final(self)@ == old(self)@,
            record.seq@.len() > 0 ==> final(self)@ == read_average(
                record.seq@.len(),
                record.qual@,
            ),
    {
        let len = record.seq.len();
        if len == 0 {
            return ;
        }
        let mut total: i128 = 0;
        let mut i: usize = 0;
        while i < record.qual.len()
            invariant
                0 <= i <= record.qual@.len(),
                total == phred_sum(record.qual@.take(i as int)),
                -33 * i <= total <= 222 * i,
            decreases record.qual@.len() - i,
        {
            assert(record.qual@.take(i + 1).drop_last() =~= record.qual@.take(i as int));
            total = total + (record.qual[i] as i128 - PHRED_OFFSET as i128);
            i = i + 1;
        }
        assert(record.qual@.take(i as int) =~= record.qual@);
        self.avg_quality_all_reads = Ratio { num: total, den: len as u64 };
    }

    /// The average as it stands.
    pub fn report(&self) -> (report: Report)
        ensures
            report@ == ReportView::ReadQuality(self@),
            self@.is_defined(),
    {
        proof {
            use_type_invariant(self);
        }
        Report::ReadQuality(self.avg_quality_all_reads)
    }
}

} // verus!
