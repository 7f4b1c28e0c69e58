//! What each statistic hands out when asked for its result.

use vstd::prelude::*;
use crate::ratio::Ratio;

verus! {

/// The average quality at one position of a read.
#[derive(Debug, Clone, Copy, PartialEq, Eq, Structural)]
pub struct PositionQuality {
    /// The position, counted from one.
    pub position: usize,
    pub average_quality: Ratio,
}

/// The share of each base at one position of a read.
#[derive(Debug, Clone, Copy, PartialEq, Eq, Structural)]
pub struct BaseProportions {
    pub a: Ratio,
    pub c: Ratio,
    pub g: Ratio,
    pub t: Ratio,
    pub n: Ratio,
}

/// The result of one statistic.
#[derive(Debug, Clone, PartialEq, Eq)]
pub enum Report {
    BaseQualityPosition(Vec<PositionQuality>),
    ReadQuality(Ratio),
    BaseCompositions(Vec<BaseProportions>),
    GcContent { per_position: Vec<Ratio>, per_read: Ratio },
    LengthDistribution(Vec<usize>),
}

/// The mathematical content of a [`Report`].
pub enum ReportView {
    BaseQualityPosition(Seq<PositionQuality>),
    ReadQuality(Ratio),
    BaseCompositions(Seq<BaseProportions>),
    GcContent { per_position: Seq<Ratio>, per_read: Ratio },
    LengthDistribution(Seq<usize>),
}

impl View for Report {
    type V = ReportView;

    open spec fn view(&self) -> ReportView {
        match self {
            Report::BaseQualityPosition(entries) => ReportView::BaseQualityPosition(entries@),
            Report::ReadQuality(average) => ReportView::ReadQuality(*average),
            Report::BaseCompositions(entries) => ReportView::BaseCompositions(entries@),
            Report::GcContent { per_position, per_read } => ReportView::GcContent {
                per_position: per_position@,
                per_read: *per_read,
            },
            Report::LengthDistribution(lengths) => ReportView::LengthDistribution(lengths@),
        }
    }
}

} // verus!
