//! The statistics that are gathered from the records.
//!
//! Five statistics exist. Four of them describe the most recent read only;
//! the distribution of lengths alone grows with every read.

pub mod base_composition;
pub mod base_quality;
pub mod gc_content;
pub mod length_distribution;
pub mod read_quality;

use vstd::prelude::*;
use crate::ratio::Ratio;
use crate::record::{FastqRecord, RecordView};
use crate::report::{BaseProportions, Report, ReportView};
use crate::stats::base_composition::{composition, BaseCompositionStatistic};
use crate::stats::base_quality::{numbered, position_averages, BaseQualityPosStatistic};
use crate::stats::gc_content::{gc_fraction, gc_indicators, GcContentStatistic, GcContentView};
use crate::stats::length_distribution::LengthDistributionStatistic;
use crate::stats::read_quality::{read_average, ReadQualityStatistic};

verus! {

/// One of the five statistics.
pub enum Statistic {
    BaseQualityPos(BaseQualityPosStatistic),
    ReadQuality(ReadQualityStatistic),
    BaseComposition(BaseCompositionStatistic),
    GcContent(GcContentStatistic),
    LengthDistribution(LengthDistributionStatistic),
}

/// The mathematical content of a [`Statistic`].
pub enum StatisticView {
    BaseQualityPos(Seq<Ratio>),
    ReadQuality(Ratio),
    BaseComposition(Seq<BaseProportions>),
    GcContent(GcContentView),
    LengthDistribution(Seq<usize>),
}

impl View for Statistic {
    type V = StatisticView;

    open spec fn view(&self) -> StatisticView {
        match self {
            Statistic::BaseQualityPos(s) => StatisticView::BaseQualityPos(s@),
            Statistic::ReadQuality(s) => StatisticView::ReadQuality(s@),
            Statistic::BaseComposition(s) => StatisticView::BaseComposition(s@),
            Statistic::GcContent(s) => StatisticView::GcContent(s@),
            Statistic::LengthDistribution(s) => StatisticView::LengthDistribution(s@),
        }
    }
}

/// What a statistic of kind `state` holds once it has seen only `r`, a
/// record with at least one base: nothing of `state` but its kind remains.
pub open spec fn of_record(state: StatisticView, r: RecordView) -> StatisticView {
    match state {
        StatisticView::BaseQualityPos(_) => StatisticView::BaseQualityPos(
            position_averages(r.seq.len(), r.qual),
        ),
        StatisticView::ReadQuality(_) => StatisticView::ReadQuality(
            read_average(r.seq.len(), r.qual),
        ),
        StatisticView::BaseComposition(_) => StatisticView::BaseComposition(composition(r.seq)),
        StatisticView::GcContent(_) => StatisticView::GcContent(
            GcContentView { per_position: gc_indicators(r.seq), per_read: gc_fraction(r.seq) },
        ),
        StatisticView::LengthDistribution(_) => StatisticView::LengthDistribution(
            seq![r.seq.len() as usize],
        ),
    }
}

/// What `state` becomes when the record `r` is processed.
///
/// The distribution of lengths gains the length of `r`. Each of the others
/// forgets what it held and describes `r` alone, unless `r` has no bases:
/// then it stays as it is, since there is nothing to divide by.
pub open spec fn after_record(state: StatisticView, r: RecordView) -> StatisticView {
    match state {
        StatisticView::LengthDistribution(lengths) => StatisticView::LengthDistribution(
            lengths.push(r.seq.len() as usize),
        ),
        _ => if r.seq.len() == 0 {
            state
        } else {
            of_record(state, r)
        },
    }
}

/// What `state` becomes when the records `rs` are processed in order.
pub open spec fn after_records(state: StatisticView, rs: Seq<RecordView>) -> StatisticView
    decreases rs.len(),
{
    if rs.len() == 0 {
        state
    } else {
        after_record(after_records(state, rs.drop_last()), rs.last())
    }
}

/// What a statistic in `state` reports.
pub open spec fn report_of(state: StatisticView) -> ReportView {
    match state {
        StatisticView::BaseQualityPos(averages) => ReportView::BaseQualityPosition(
            numbered(averages),
        ),
        StatisticView::ReadQuality(average) => ReportView::ReadQuality(average),
        StatisticView::BaseComposition(shares) => ReportView::BaseCompositions(shares),
        StatisticView::GcContent(gc) => ReportView::GcContent {
            per_position: gc.per_position,
            per_read: gc.per_read,
        },
        StatisticView::LengthDistribution(lengths) => ReportView::LengthDistribution(lengths),
    }
}

/// Whether `state` is the distribution of lengths, the one statistic that
/// accumulates.
pub open spec fn is_cumulative(state: StatisticView) -> bool {
    state is LengthDistribution
}

/// The lengths of the sequences of `rs`, in order.
pub open spec fn lengths_of(rs: Seq<RecordView>) -> Seq<usize> {
    Seq::new(rs.len(), |i: int| rs[i].seq.len() as usize)
}

/// The distribution of lengths accumulates: after any records it holds
/// what it held before, followed by the length of each record in order.
pub proof fn lemma_lengths_accumulate(lengths: Seq<usize>, rs: Seq<RecordView>)
    ensures
        after_records(StatisticView::LengthDistribution(lengths), rs)
            == StatisticView::LengthDistribution(lengths + lengths_of(rs)),
    decreases rs.len(),
{
    if rs.len() == 0 {
        assert(lengths + lengths_of(rs) =~= lengths);
    } else {
        lemma_lengths_accumulate(lengths, rs.drop_last());
        assert((lengths + lengths_of(rs.drop_last())).push(rs.last().seq.len() as usize) =~= lengths
            + lengths_of(rs));
    }
}

/// The last record wins: a statistic other than the distribution of
/// lengths holds, after records of which the last has at least one base,
/// what that last record alone gives, whatever it held and saw before.
pub proof fn lemma_last_record_wins(state: StatisticView, rs: Seq<RecordView>)
    requires
        !is_cumulative(state),
        rs.len() > 0,
        rs.last().seq.len() > 0,
    ensures
        after_records(state, rs) == of_record(state, rs.last()),
{
    lemma_kind_is_kept(state, rs.drop_last());
}

/// Processing records never changes the kind of a statistic.
pub proof fn lemma_kind_is_kept(state: StatisticView, rs: Seq<RecordView>)
    ensures
        same_kind(state, after_records(state, rs)),
    decreases rs.len(),
{
    if rs.len() > 0 {
        lemma_kind_is_kept(state, rs.drop_last());
    }
}

/// Whether `a` and `b` are states of the same statistic.
pub open spec fn same_kind(a: StatisticView, b: StatisticView) -> bool {
    match a {
        StatisticView::BaseQualityPos(_) => b is BaseQualityPos,
        StatisticView::ReadQuality(_) => b is ReadQuality,
        StatisticView::BaseComposition(_) => b is BaseComposition,
        StatisticView::GcContent(_) => b is GcContent,
        StatisticView::LengthDistribution(_) => b is LengthDistribution,
    }
}

/// Records without bases leave every statistic but the distribution of
/// lengths untouched.
pub proof fn lemma_empty_record_is_skipped(state: StatisticView, r: RecordView)
    requires
        !is_cumulative(state),
        r.seq.len() == 0,
    ensures
        after_record(state, r) == state,
{
}

/// One fresh statistic of each kind, in the order in which their results
/// are listed: quality by position, quality of the read, composition, GC
/// content, lengths.
pub fn all_statistics() -> (set: Vec<Statistic>)
    ensures
        set@.len() == 5,
        set@[0]@ == StatisticView::BaseQualityPos(Seq::empty()),
        set@[1]@ == StatisticView::ReadQuality(Ratio { num: 0, den: 1 }),
        set@[2]@ == StatisticView::BaseComposition(Seq::empty()),
        set@[3]@ == StatisticView::GcContent(
            GcContentView { per_position: Seq::empty(), per_read: Ratio { num: 0, den: 1 } },
        ),
        set@[4]@ == StatisticView::LengthDistribution(Seq::empty()),
{
    let mut set: Vec<Statistic> = Vec::new();
    set.push(Statistic::BaseQualityPos(BaseQualityPosStatistic::new()));
    set.push(Statistic::ReadQuality(ReadQualityStatistic::new()));
    set.push(Statistic::BaseComposition(BaseCompositionStatistic::new()));
    set.push(Statistic::GcContent(GcContentStatistic::new()));
    set.push(Statistic::LengthDistribution(LengthDistributionStatistic::new()));
    set
}

impl Statistic {
    /// Lets the statistic see `record`.
    pub fn process(&mut self, record: &FastqRecord)
        ensures
            final(self)@ == after_record(old(self)@, record@),
    {
        match self {
            Statistic::BaseQualityPos(s) => s.process(record),
            Statistic::ReadQuality(s) => s.process(record),
            Statistic::BaseComposition(s) => s.process(record),
            Statistic::GcContent(s) => s.process(record),
            Statistic::LengthDistribution(s) => s.process(record),
        }
    }

    /// The result of the statistic as it stands.
    pub fn report(&self) -> (report: Report)
        ensures
            report@ == report_of(self@),
    {
        match self {
            Statistic::BaseQualityPos(s) => s.report(),
            Statistic::ReadQuality(s) => s.report(),
            Statistic::BaseComposition(s) => s.report(),
            Statistic::GcContent(s) => s.report(),
            Statistic::LengthDistribution(s) => s.report(),
        }
    }
}

} // verus!
