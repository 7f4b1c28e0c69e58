//! Reads a stream block by block and hands each record to the statistics.

use vstd::prelude::*;
use crate::decoder::{after_block, block_record, blocks, decode_status,
    is_malformed, lemma_after_block_shorter, trim_line_end, DecodeStatus};
use crate::record::{FastqRecord, RecordView};
use crate::stats::{after_record, after_records, Statistic};
use crate::stream::ByteStream;

verus! {

/// How many malformed blocks one stream may hold before reading stops: the
/// block that brings their number above this is the last one read.
pub const MALFORMED_BUDGET: usize = 5;

/// How many of `bs` lack their sequence or their quality.
pub open spec fn malformed_count(bs: Seq<RecordView>) -> nat
    decreases bs.len(),
{
    if bs.len() == 0 {
        0
    } else {
        malformed_count(bs.drop_last()) + if is_malformed(bs.last()) {
            1nat
        } else {
            0nat
        }
    }
}

/// Those of `bs` that have both a sequence and a quality, in order.
pub open spec fn valid_records(bs: Seq<RecordView>) -> Seq<RecordView>
    decreases bs.len(),
{
    if bs.len() == 0 {
        Seq::empty()
    } else if is_malformed(bs.last()) {
        valid_records(bs.drop_last())
    } else {
        valid_records(bs.drop_last()).push(bs.last())
    }
}

/// How many of the blocks `bs` are read when `tolerated` more malformed
/// blocks are put up with: all of them, or those up to and including the
/// malformed block that is one too many.
pub open spec fn read_count(bs: Seq<RecordView>, tolerated: nat) -> nat
    decreases bs.len(),
{
    if bs.len() == 0 {
        0
    } else if !is_malformed(bs[0]) {
        1 + read_count(bs.skip(1), tolerated)
    } else if tolerated == 0 {
        1
    } else {
        1 + read_count(bs.skip(1), (tolerated - 1) as nat)
    }
}

/// What is left of `s` once `n` blocks have been read.
pub open spec fn after_blocks(s: Seq<u8>, n: nat) -> Seq<u8>
    decreases n,
{
    if n == 0 {
        s
    } else {
        after_block(after_blocks(s, (n - 1) as nat))
    }
}

/// The malformed blocks of `bs` are its first block, if that is malformed,
/// and those of the blocks behind it.
pub proof fn lemma_malformed_count_front(bs: Seq<RecordView>)
    requires
        bs.len() > 0,
    ensures
        malformed_count(bs) == malformed_count(bs.skip(1)) + if is_malformed(bs[0]) {
            1nat
        } else {
            0nat
        },
    decreases bs.len(),
{
    if bs.len() == 1 {
        assert(bs.drop_last() =~= bs.skip(1));
    } else {
        lemma_malformed_count_front(bs.drop_last());
        assert(bs.drop_last().skip(1) =~= bs.skip(1).drop_last());
    }
}

/// A stream whose malformed blocks stay within what is tolerated is read
/// to its end.
pub proof fn lemma_within_budget_reads_all(bs: Seq<RecordView>, tolerated: nat)
    requires
        malformed_count(bs) <= tolerated,
    ensures
        read_count(bs, tolerated) == bs.len(),
    decreases bs.len(),
{
    if bs.len() > 0 {
        lemma_malformed_count_front(bs);
        if is_malformed(bs[0]) {
            lemma_within_budget_reads_all(bs.skip(1), (tolerated - 1) as nat);
        } else {
            lemma_within_budget_reads_all(bs.skip(1), tolerated);
        }
    }
}

/// A stream with more malformed blocks than are tolerated is read up to
/// and including the malformed block that is one too many: the last block
/// read is malformed, and with it the blocks read hold exactly one
/// malformed block more than is tolerated.
pub proof fn lemma_over_budget_halts(bs: Seq<RecordView>, tolerated: nat)
    requires
        malformed_count(bs) > tolerated,
    ensures
        0 < read_count(bs, tolerated) <= bs.len(),
        is_malformed(bs[read_count(bs, tolerated) - 1]),
        malformed_count(bs.take(read_count(bs, tolerated) as int)) == tolerated + 1,
    decreases bs.len(),
{
    lemma_malformed_count_front(bs);
    let n = read_count(bs, tolerated);
    let rest = bs.skip(1);
    if is_malformed(bs[0]) && tolerated == 0 {
        assert(bs.take(1).drop_last() =~= Seq::<RecordView>::empty());
        assert(malformed_count(Seq::<RecordView>::empty()) == 0);
        assert(bs.take(1).last() == bs[0]);
    } else {
        let left = if is_malformed(bs[0]) {
            (tolerated - 1) as nat
        } else {
            tolerated
        };
        lemma_over_budget_halts(rest, left);
        let m = read_count(rest, left);
        assert(rest[m - 1] == bs[n - 1]);
        lemma_malformed_count_front(bs.take(n as int));
        assert(bs.take(n as int).skip(1) =~= rest.take(m as int));
        assert(bs.take(n as int)[0] == bs[0]);
    }
}

/// What one run over a stream did.
#[derive(Debug, Clone, Copy, PartialEq, Eq, Structural)]
pub struct RunSummary {
    /// Blocks read from the stream, well formed or not.
    pub blocks_read: usize,
    /// Records handed to the statistics.
    pub records: usize,
    /// Malformed blocks met.
    pub malformed: usize,
    /// Whether reading stopped early because the malformed blocks were one
    /// too many.
    pub halted: bool,
}

/// Owns the statistics and feeds them from streams.
///
/// The statistics live as long as the runner and see the records of every
/// stream that it processes. The count of malformed blocks starts anew
/// with each stream.
pub struct WorkflowRunner {
    pub statistics: Vec<Statistic>,
}

/// Whether `now` holds what the statistics `before` become, each in its
/// place, when the records `rs` are processed in order.
pub open spec fn advanced_by(
    before: Seq<Statistic>,
    now: Seq<Statistic>,
    rs: Seq<RecordView>,
) -> bool {
    &&& now.len() == before.len()
    &&& forall|j: int| 0 <= j < before.len() ==> (#[trigger] now[j])@ == after_records(before[j]@, rs)
}

impl WorkflowRunner {
    /// Decodes the next block of `read` into `record`.
    ///
    /// A stream with nothing left gives `EndOfStream` and leaves `record`
    /// as it is. Otherwise four lines are read, as far as there are any;
    /// `record` receives the second as its sequence and the fourth as its
    /// quality, each without its line terminator, and the result is
    /// `Incomplete` when either is empty and `Decoded` when neither is.
    pub fn parse_record(read: &mut ByteStream, record: &mut FastqRecord) -> (status: DecodeStatus)
        ensures
            status == decode_status(old(read).remaining()),
            status == DecodeStatus::EndOfStream ==> {
                &&& final(read).remaining() == old(read).remaining()
                &&& final(record)@ == old(record)@
            },
            status != DecodeStatus::EndOfStream ==> {
                &&& final(read).remaining() == after_block(old(read).remaining())
                &&& final(record)@ == block_record(old(read).remaining())
            },
    {
        if read.is_exhausted() {
            return DecodeStatus::EndOfStream;
        }
        let _ = read.read_line();
        let seq = trim_line_end(read.read_line());
        let _ = read.read_line();
        let qual = trim_line_end(read.read_line());
        let complete = seq.len() > 0 && qual.len() > 0;
        record.seq = seq;
        record.qual = qual;
        if complete {
            DecodeStatus::Decoded
        } else {
            DecodeStatus::Incomplete
        }
    }

    /// Hands `record` to every statistic, first to last.
    pub fn dispatch(&mut self, record: &FastqRecord)
        ensures
            final(self).statistics@.len() == old(self).statistics@.len(),
            forall|j: int|
                0 <= j < old(self).statistics@.len() ==> (#[trigger] final(self).statistics@[j])@
                    == after_record(old(self).statistics@[j]@, record@),
    {
        let mut i: usize = 0;
        while i < self.statistics.len()
            invariant
                0 <= i <= self.statistics@.len(),
                self.statistics@.len() == old(self).statistics@.len(),
                forall|j: int|
                    0 <= j < i ==> (#[trigger] self.statistics@[j])@ == after_record(
                        old(self).statistics@[j]@,
                        record@,
                    ),
                forall|j: int|
                    i <= j < self.statistics@.len() ==> #[trigger] self.statistics@[j] == old(
                        self,
                    ).statistics@[j],
            decreases self.statistics@.len() - i,
        {
            self.statistics[i].process(record);
            i = i + 1;
        }
    }

    /// Reads `read` block by block until it is exhausted or one malformed
    /// block too many has been met, and hands every well-formed record to
    /// the statistics as soon as it is decoded.
    ///
    /// A malformed block is counted and skipped. When the count exceeds
    /// `MALFORMED_BUDGET` the run halts: the rest of the stream stays
    /// unread, and what the statistics have taken from the records before
    /// that block stays with them.
    pub fn process(&mut self, read: &mut ByteStream) -> (summary: RunSummary)
        ensures
            summary.blocks_read == read_count(
                blocks(old(read).remaining()),
                MALFORMED_BUDGET as nat,
            ),
            summary.malformed == malformed_count(
                blocks(old(read).remaining()).take(summary.blocks_read as int),
            ),
            summary.records == summary.blocks_read - summary.malformed,
            summary.halted <==> malformed_count(blocks(old(read).remaining()))
                > MALFORMED_BUDGET,
            summary.halted ==> summary.malformed == MALFORMED_BUDGET + 1,
            advanced_by(
                old(self).statistics@,
                final(self).statistics@,
                valid_records(blocks(old(read).remaining()).take(summary.blocks_read as int)),
            ),
            final(read).remaining() == after_blocks(
                old(read).remaining(),
                summary.blocks_read as nat,
            ),
    {
        let ghost all = blocks(read.remaining());
        let ghost start = read.remaining();
        let size = read.remaining_len();
        let mut record = FastqRecord { seq: Vec::new(), qual: Vec::new() };
        let mut count: usize = 0;
        let mut error_count: usize = 0;
        let mut halted = false;
        proof {
            assert(all.skip(0) =~= all);
            assert(all.take(0) =~= Seq::<RecordView>::empty());
        }
        while !halted
            invariant
                start == old(read).remaining(),
                all == blocks(start),
                start.len() == size,
                blocks(read.remaining()) == all.skip(count + error_count),
                count + error_count <= all.len(),
                read.remaining() == after_blocks(start, (count + error_count) as nat),
                count + error_count + read.remaining().len() <= size,
                error_count == malformed_count(all.take(count + error_count)),
                halted <==> error_count > MALFORMED_BUDGET,
                error_count <= MALFORMED_BUDGET + 1,
                !halted ==> read_count(all, MALFORMED_BUDGET as nat) == count + error_count
                    + read_count(
                    all.skip(count + error_count),
                    (MALFORMED_BUDGET - error_count) as nat,
                ),
                halted ==> read_count(all, MALFORMED_BUDGET as nat) == count + error_count,
                advanced_by(
                    old(self).statistics@,
                    self.statistics@,
                    valid_records(all.take(count + error_count)),
                ),
            decreases read.remaining().len() + (if halted { 0int } else { 1int }),
        {
            let ghost rest = read.remaining();
            let ghost done = (count + error_count) as int;
            let ghost before = self.statistics@;
            let status = Self::parse_record(read, &mut record);
            proof {
                if status != DecodeStatus::EndOfStream {
                    lemma_after_block_shorter(rest);
                    assert(all.skip(done)[0] == block_record(rest));
                    assert(all.skip(done).skip(1) =~= all.skip(done + 1));
                    assert(blocks(after_block(rest)) =~= blocks(rest).skip(1));
                    assert(all.take(done + 1).drop_last() =~= all.take(done));
                    assert(all.take(done + 1).last() == block_record(rest));
                }
            }
            match status {
                DecodeStatus::EndOfStream => {
                    proof {
                        assert(blocks(rest).len() == 0);
                        assert(all.take(done) =~= all);
                    }
                    assert(malformed_count(all) <= MALFORMED_BUDGET);
                    return RunSummary {
                        blocks_read: count + error_count,
                        records: count,
                        malformed: error_count,
                        halted: false,
                    };
                },
                DecodeStatus::Incomplete => {
                    error_count = error_count + 1;
                    if error_count > MALFORMED_BUDGET {
                        halted = true;
                    }
                },
                DecodeStatus::Decoded => {
                    count = count + 1;
                    self.dispatch(&record);
                    proof {
                        assert forall|j: int| 0 <= j < before.len() implies (
                        #[trigger] self.statistics@[j])@ == after_records(
                            old(self).statistics@[j]@,
                            valid_records(all.take(done + 1)),
                        ) by {
                            assert(before[j]@ == after_records(
                                old(self).statistics@[j]@,
                                valid_records(all.take(done)),
                            ));
                            assert(valid_records(all.take(done + 1)).drop_last() =~= valid_records(
                                all.take(done),
                            ));
                        }
                    }
                },
            }
        }
        proof {
            if malformed_count(all) <= MALFORMED_BUDGET {
                lemma_within_budget_reads_all(all, MALFORMED_BUDGET as nat);
                assert(all.take(all.len() as int) =~= all);
            }
        }
        RunSummary {
            blocks_read: count + error_count,
            records: count,
            malformed: error_count,
            halted: true,
        }
    }

    /// Hands the statistics out and ends the runner.
    pub fn finalize(self) -> (statistics: Vec<Statistic>)
        ensures
            statistics == self.statistics,
    {
        self.statistics
    }
}

} // verus!
