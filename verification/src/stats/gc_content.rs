//! Share of G and C bases in the most recent read.

use vstd::prelude::*;
use crate::ratio::Ratio;
use crate::record::FastqRecord;
use crate::report::{Report, ReportView};

verus! {

/// The byte of an upper-case G.
pub const BASE_G: u8 = 71;

/// The byte of an upper-case C.
pub const BASE_C: u8 = 67;

/// Whether `base` is an upper-case G or C. Lower-case letters do not count.
pub open spec fn is_gc(base: u8) -> bool {
    base == BASE_G || base == BASE_C
}

/// How many bytes of `seq` are a G or a C.
pub open spec fn gc_count(seq: Seq<u8>) -> nat
    decreases seq.len(),
{
    if seq.len() == 0 {
        0
    } else {
        gc_count(seq.drop_last()) + if is_gc(seq.last()) {
            1nat
        } else {
            0nat
        }
    }
}

/// `1/1` for a G or a C and `0/1` for anything else.
pub open spec fn gc_indicator(base: u8) -> Ratio {
    if is_gc(base) {
        Ratio { num: 1, den: 1 }
    } else {
        Ratio { num: 0, den: 1 }
    }
}

/// The indicator of every position of `seq`.
pub open spec fn gc_indicators(seq: Seq<u8>) -> Seq<Ratio> {
    Seq::new(seq.len(), |i: int| gc_indicator(seq[i]))
}

/// The number of G and C bases of `seq` over the number of its bytes.
pub open spec fn gc_fraction(seq: Seq<u8>) -> Ratio {
    Ratio { num: gc_count(seq) as i128, den: seq.len() as u64 }
}

/// No more bytes are a G or a C than there are bytes; all of them are
/// counted where every byte is one, and none where no byte is.
pub proof fn lemma_gc_count_bounds(seq: Seq<u8>)
    ensures
        gc_count(seq) <= seq.len(),
        (forall|i: int| 0 <= i < seq.len() ==> is_gc(seq[i])) ==> gc_count(seq) == seq.len(),
        (forall|i: int| 0 <= i < seq.len() ==> !is_gc(seq[i])) ==> gc_count(seq) == 0,
    decreases seq.len(),
{
    if seq.len() > 0 {
        lemma_gc_count_bounds(seq.drop_last());
        assert(forall|i: int| 0 <= i < seq.len() - 1 ==> seq.drop_last()[i] == seq[i]);
    }
}

/// The mathematical content of a [`GcContentStatistic`].
pub struct GcContentView {
    pub per_position: Seq<Ratio>,
    pub per_read: Ratio,
}

/// Holds the share of G and C bases in the most recent read, and for each
/// of its positions whether a G or a C stands there.
///
/// This is not a share over the reads: each read with at least one base
/// replaces what the read before it left. A read without bases changes
/// nothing.
pub struct GcContentStatistic {
    gc_per_position: Vec<Ratio>,
    gc_per_read: Ratio,
}

impl View for GcContentStatistic {
    type V = GcContentView;

    closed spec fn view(&self) -> GcContentView {
        GcContentView { per_position: self.gc_per_position@, per_read: self.gc_per_read }
    }
}

impl GcContentStatistic {
    #[verifier::type_invariant]
    spec fn all_defined(&self) -> bool {
        &&& self.gc_per_read.den > 0
        &&& forall|i: int|
            0 <= i < self.gc_per_position@.len() ==> self.gc_per_position@[i].den > 0
    }

    /// A statistic that has seen no read: no position, and a share of `0/1`.
    pub fn new() -> (stat: Self)
        ensures
            stat@ == (GcContentView {
                per_position: Seq::<Ratio>::empty(),
                per_read: Ratio { num: 0, den: 1 },
            }),
    {
        GcContentStatistic { gc_per_position: Vec::new(), gc_per_read: Ratio::zero() }
    }

    /// The share of G and C bases in a sequence that is not empty.
    fn calculate_gc_content(seq: &Vec<u8>) -> (r: Ratio)
        requires
            seq@.len() > 0,
        ensures
            r == gc_fraction(seq@),
            r.is_defined(),
    {
        let mut gc_count: usize = 0;
        let mut i: usize = 0;
        while i < seq.len()
            invariant
                0 <= i <= seq@.len(),
                gc_count == self::gc_count(seq@.take(i as int)),
                gc_count <= i,
            decreases seq@.len() - i,
        {
            assert(seq@.take(i + 1).drop_last() =~= seq@.take(i as int));
            if seq[i] == BASE_G || seq[i] == BASE_C {
                gc_count = gc_count + 1;
            }
            i = i + 1;
        }
        assert(seq@.take(i as int) =~= seq@);
        Ratio { num: gc_count as i128, den: seq.len() as u64 }
    }

    /// Replaces share and positions by those of `record`, unless it has no
    /// bases.
    pub fn process(&mut self, record: &FastqRecord)
        ensures
            record.seq@.len() == 0 ==> final(self)@ == old(self)@,
            record.seq@.len() > 0 ==> final(self)@ == (GcContentView {
                per_position: gc_indicators(record.seq@),
                per_read: gc_fraction(record.seq@),
            }),
    {
        if record.seq.len() == 0 {
            return ;
        }
        let per_read = Self::calculate_gc_content(&record.seq);
        let mut per_position: Vec<Ratio> = Vec::new();
        let mut i: usize = 0;
        while i < record.seq.len()
            invariant
                0 <= i <= record.seq@.len(),
                per_position@ == gc_indicators(record.seq@).take(i as int),
            decreases record.seq@.len() - i,
        {
            let base = record.seq[i];
            if base == BASE_G || base == BASE_C {
                per_position.push(Ratio::one());
            } else {
                per_position.push(Ratio::zero());
            }
            i = i + 1;
            assert(per_position@ =~= gc_indicators(record.seq@).take(i as int));
        }
        assert(per_position@ =~= gc_indicators(record.seq@));
        proof {
            use_type_invariant(&*self);
        }
        self.gc_per_read = per_read;
        self.gc_per_position = per_position;
    }

    /// The share of the read and the indicator of each position.
    pub fn report(&self) -> (report: Report)
        ensures
            report@ == (ReportView::GcContent {
                per_position: self@.per_position,
                per_read: self@.per_read,
            }),
            self@.per_read.is_defined(),
            forall|i: int| 0 <= i < self@.per_position.len() ==> self@.per_position[i].is_defined(),
    {
        proof {
            use_type_invariant(self);
        }
        Report::GcContent {
            per_position: self.gc_per_position.clone(),
            per_read: self.gc_per_read,
        }
    }
}

} // verus!
