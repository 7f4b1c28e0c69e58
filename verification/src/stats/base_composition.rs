//! Share of each base at each position of the most recent read.

use vstd::prelude::*;
use crate::ratio::Ratio;
use crate::record::FastqRecord;
use crate::report::{BaseProportions, Report, ReportView};

verus! {

/// How many bases are told apart: A, C, G, T and N.
pub const BASE_KINDS: usize = 5;

/// The place of a character among the bases, upper and lower case alike: 0 for
/// A, 1 for C, 2 for G, 3 for T and 4 for N. Any other character, a gap
/// included, gets `BASE_KINDS`, which is the place of no base.
pub open spec fn base_index(ch: char) -> int {
    if ch == 'A' || ch == 'a' {
        0
    } else if ch == 'C' || ch == 'c' {
        1
    } else if ch == 'G' || ch == 'g' {
        2
    } else if ch == 'T' || ch == 't' {
        3
    } else if ch == 'N' || ch == 'n' {
        4
    } else {
        BASE_KINDS as int
    }
}

/// How often the base at place `base` occurs in the single byte `ch`.
pub open spec fn base_count(ch: u8, base: int) -> int {
    if base_index(ch as char) == base {
        1
    } else {
        0
    }
}

/// How many bases of any kind the single byte `ch` holds.
pub open spec fn base_total(ch: u8) -> int {
    base_count(ch, 0) + base_count(ch, 1) + base_count(ch, 2) + base_count(ch, 3) + base_count(
        ch,
        4,
    )
}

/// `count` over `total`, or `0/1` where the total is zero and there is
/// nothing to divide by.
pub open spec fn proportion(count: int, total: int) -> Ratio {
    if total == 0 {
        Ratio { num: 0, den: 1 }
    } else {
        Ratio { num: count as i128, den: total as u64 }
    }
}

/// The share of each base at a position that holds the byte `ch`.
pub open spec fn proportions_of(ch: u8) -> BaseProportions {
    BaseProportions {
        a: proportion(base_count(ch, 0), base_total(ch)),
        c: proportion(base_count(ch, 1), base_total(ch)),
        g: proportion(base_count(ch, 2), base_total(ch)),
        t: proportion(base_count(ch, 3), base_total(ch)),
        n: proportion(base_count(ch, 4), base_total(ch)),
    }
}

/// The shares at every position of `seq`.
pub open spec fn composition(seq: Seq<u8>) -> Seq<BaseProportions> {
    Seq::new(seq.len(), |i: int| proportions_of(seq[i]))
}

/// Whether each of the five shares has a value.
pub open spec fn shares_defined(p: BaseProportions) -> bool {
    &&& p.a.is_defined()
    &&& p.c.is_defined()
    &&& p.g.is_defined()
    &&& p.t.is_defined()
    &&& p.n.is_defined()
}

/// Holds, for each position of the most recent read, the share of each of
/// the bases A, C, G, T and N among the bases counted there.
///
/// This is not a composition over the reads: each read with at least one
/// base replaces what the read before it left, so that a position holds
/// the whole of one base, or nothing where its byte is no base. A read
/// without bases changes nothing.
pub struct BaseCompositionStatistic {
    proportions: Vec<BaseProportions>,
}

impl View for BaseCompositionStatistic {
    type V = Seq<BaseProportions>;

    closed spec fn view(&self) -> Seq<BaseProportions> {
        self.proportions@
    }
}

impl BaseCompositionStatistic {
    #[verifier::type_invariant]
    spec fn all_defined(&self) -> bool {
        forall|i: int| 0 <= i < self.proportions@.len() ==> shares_defined(self.proportions@[i])
    }

    /// A statistic that has seen no read and holds no position.
    pub fn new() -> (stat: Self)
        ensures
            stat@ == Seq::<BaseProportions>::empty(),
    {
        BaseCompositionStatistic { proportions: Vec::new() }
    }

    /// The place of `ch` among the bases.
    fn char_to_base_index(ch: char) -> (index: usize)
        ensures
            index == base_index(ch),
    {
        match ch {
            'A' | 'a' => 0,
            'C' | 'c' => 1,
            'G' | 'g' => 2,
            'T' | 't' => 3,
            'N' | 'n' => 4,
            _ => BASE_KINDS,
        }
    }

    /// `count` over `total`, or zero where there is nothing to divide by.
    fn share(count: u64, total: u64) -> (r: Ratio)
        ensures
            r == proportion(count as int, total as int),
            r.is_defined(),
    {
        if total == 0 {
            Ratio::zero()
        } else {
            Ratio { num: count as i128, den: total }
        }
    }

    /// Counts the bases in the single byte `ch` and turns the counts into
    /// shares.
    fn shares_at(ch: u8) -> (p: BaseProportions)
        ensures
            p == proportions_of(ch),
            shares_defined(p),
    {
        let mut counts: [u64; 5] = [0, 0, 0, 0, 0];
        let base_idx = Self::char_to_base_index(ch as char);
        if base_idx < BASE_KINDS {
            counts[base_idx] = counts[base_idx] + 1;
        }
        let total: u64 = counts[0] + counts[1] + counts[2] + counts[3] + counts[4];
        BaseProportions {
            a: Self::share(counts[0], total),
            c: Self::share(counts[1], total),
            g: Self::share(counts[2], total),
            t: Self::share(counts[3], total),
            n: Self::share(counts[4], total),
        }
    }

    /// Replaces the positions by those of `record`, unless it has no bases.
    pub fn process(&mut self, record: &FastqRecord)
        ensures
            record.seq@.len() == 0 ==> final(self)@ == old(self)@,
            record.seq@.len() > 0 ==> final(self)@ == composition(record.seq@),
    {
        if record.seq.len() == 0 {
            return ;
        }
        let mut proportions: Vec<BaseProportions> = Vec::new();
        let mut pos: usize = 0;
        while pos < record.seq.len()
            invariant
                0 <= pos <= record.seq@.len(),
                proportions@ == composition(record.seq@).take(pos as int),
                forall|i: int| 0 <= i < proportions@.len() ==> shares_defined(proportions@[i]),
            decreases record.seq@.len() - pos,
        {
            proportions.push(Self::shares_at(record.seq[pos]));
            pos = pos + 1;
            assert(proportions@ =~= composition(record.seq@).take(pos as int));
        }
        assert(proportions@ =~= composition(record.seq@));
        self.proportions = proportions;
    }

    /// The shares at every position, first position first.
    pub fn report(&self) -> (report: Report)
        ensures
            report@ == ReportView::BaseCompositions(self@),
            forall|i: int| 0 <= i < self@.len() ==> shares_defined(self@[i]),
    {
        proof {
            use_type_invariant(self);
        }
        Report::BaseCompositions(self.proportions.clone())
    }
}

} // verus!
