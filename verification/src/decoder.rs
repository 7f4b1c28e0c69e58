//! The four-line record format: identifier, sequence, separator, quality.
//!
//! Everything here is stated over the bytes that a stream still holds. A
//! block is the next four lines; its second line is the sequence and its
//! fourth the quality, each without its line terminator.

use vstd::prelude::*;
use crate::record::RecordView;
use crate::stream::{after_line, first_line, lemma_line_end_bounds, lemma_line_end_is, line_len,
    trim_line, CARRIAGE_RETURN, LINE_FEED};

verus! {

/// Outcome of one attempt to decode a block.
#[derive(Debug, Clone, Copy, PartialEq, Eq, Structural)]
pub enum DecodeStatus {
    /// Sequence and quality were both present.
    Decoded,
    /// The sequence line, the quality line or both were empty. More blocks
    /// may follow.
    Incomplete,
    /// Nothing was left to read where the block should have begun.
    EndOfStream,
}

/// The sequence of the block at the head of `s`.
pub open spec fn block_seq(s: Seq<u8>) -> Seq<u8> {
    trim_line(first_line(after_line(s)))
}

/// The quality of the block at the head of `s`.
pub open spec fn block_qual(s: Seq<u8>) -> Seq<u8> {
    trim_line(first_line(after_line(after_line(after_line(s)))))
}

/// The block at the head of `s`, as a record.
pub open spec fn block_record(s: Seq<u8>) -> RecordView {
    RecordView { seq: block_seq(s), qual: block_qual(s) }
}

/// What is left of `s` once its first four lines have been read.
pub open spec fn after_block(s: Seq<u8>) -> Seq<u8> {
    after_line(after_line(after_line(after_line(s))))
}

/// A record that lacks its sequence or its quality.
pub open spec fn is_malformed(r: RecordView) -> bool {
    r.seq.len() == 0 || r.qual.len() == 0
}

/// What decoding the head of `s` reports.
pub open spec fn decode_status(s: Seq<u8>) -> DecodeStatus {
    if s.len() == 0 {
        DecodeStatus::EndOfStream
    } else if is_malformed(block_record(s)) {
        DecodeStatus::Incomplete
    } else {
        DecodeStatus::Decoded
    }
}

/// Every block of `s` in order, well formed or not, up to the end of `s`.
pub open spec fn blocks(s: Seq<u8>) -> Seq<RecordView>
    decreases s.len(),
    via blocks_decreases
{
    if s.len() == 0 {
        Seq::empty()
    } else {
        seq![block_record(s)] + blocks(after_block(s))
    }
}

#[via_fn]
proof fn blocks_decreases(s: Seq<u8>) {
    if s.len() != 0 {
        lemma_after_block_shorter(s);
    }
}

/// Reading a line never lengthens what is left, and shortens it whenever a
/// byte is left.
pub proof fn lemma_after_line_len(s: Seq<u8>)
    ensures
        after_line(s).len() == s.len() - line_len(s),
        0 <= line_len(s) <= s.len(),
        s.len() > 0 ==> line_len(s) > 0,
{
    lemma_line_end_bounds(s, 0);
}

/// Reading a block from bytes that are not exhausted leaves fewer bytes.
pub proof fn lemma_after_block_shorter(s: Seq<u8>)
    requires
        s.len() > 0,
    ensures
        after_block(s).len() < s.len(),
{
    let s1 = after_line(s);
    let s2 = after_line(s1);
    let s3 = after_line(s2);
    lemma_after_line_len(s);
    lemma_after_line_len(s1);
    lemma_after_line_len(s2);
    lemma_after_line_len(s3);
}

/// Whether `line` holds no line feed.
pub open spec fn has_no_line_feed(line: Seq<u8>) -> bool {
    forall|i: int| 0 <= i < line.len() ==> line[i] != LINE_FEED
}

/// The first line of `body`, a line feed and `rest` is `body` with the line
/// feed, and `rest` is what follows it, provided `body` holds no line feed.
pub proof fn lemma_first_line_of_terminated(body: Seq<u8>, rest: Seq<u8>)
    requires
        has_no_line_feed(body),
    ensures
        first_line(body.push(LINE_FEED) + rest) == body.push(LINE_FEED),
        after_line(body.push(LINE_FEED) + rest) == rest,
{
    let s = body.push(LINE_FEED) + rest;
    let end = (body.len() + 1) as int;
    assert forall|i: int| 0 <= i < end - 1 implies s[i] != LINE_FEED by {
        assert(s[i] == body[i]);
    }
    assert(s[end - 1] == LINE_FEED);
    lemma_line_end_is(s, 0, end);
    assert(s.take(end) =~= body.push(LINE_FEED));
    assert(s.skip(end) =~= rest);
}

/// A line that does not end in a carriage return is what trimming gives
/// back once a line feed has been put behind it.
pub proof fn lemma_trim_terminated(body: Seq<u8>)
    requires
        body.len() == 0 || body.last() != CARRIAGE_RETURN,
    ensures
        trim_line(body.push(LINE_FEED)) == body,
{
    assert(body.push(LINE_FEED).drop_last() =~= body);
}

/// Four lines, each closed by a line feed, followed by anything.
pub open spec fn four_lines(
    id: Seq<u8>,
    seq: Seq<u8>,
    separator: Seq<u8>,
    qual: Seq<u8>,
    rest: Seq<u8>,
) -> Seq<u8> {
    id.push(LINE_FEED) + (seq.push(LINE_FEED) + (separator.push(LINE_FEED) + (qual.push(LINE_FEED)
        + rest)))
}

/// Of four lines that each end in a line feed, the block takes the second
/// as its sequence and the fourth as its quality, both trimmed, and leaves
/// what follows the fourth.
pub proof fn lemma_block_of_four_lines(
    id: Seq<u8>,
    seq: Seq<u8>,
    separator: Seq<u8>,
    qual: Seq<u8>,
    rest: Seq<u8>,
)
    requires
        has_no_line_feed(id),
        has_no_line_feed(seq),
        has_no_line_feed(separator),
        has_no_line_feed(qual),
    ensures
        block_seq(four_lines(id, seq, separator, qual, rest)) == trim_line(seq.push(LINE_FEED)),
        block_qual(four_lines(id, seq, separator, qual, rest)) == trim_line(qual.push(LINE_FEED)),
        after_block(four_lines(id, seq, separator, qual, rest)) == rest,
{
    let s3 = qual.push(LINE_FEED) + rest;
    let s2 = separator.push(LINE_FEED) + s3;
    let s1 = seq.push(LINE_FEED) + s2;
    lemma_first_line_of_terminated(id, s1);
    lemma_first_line_of_terminated(seq, s2);
    lemma_first_line_of_terminated(separator, s3);
    lemma_first_line_of_terminated(qual, rest);
}

/// A block of four lines whose sequence and quality are not empty once
/// trimmed is decoded, and gives exactly the trimmed sequence line and the
/// trimmed quality line, whether or not the two are equally long. Where a
/// line does not end in a carriage return, the trimmed line is the line
/// itself.
pub proof fn lemma_well_formed_block_decodes(
    id: Seq<u8>,
    seq: Seq<u8>,
    separator: Seq<u8>,
    qual: Seq<u8>,
    rest: Seq<u8>,
)
    requires
        has_no_line_feed(id),
        has_no_line_feed(seq),
        has_no_line_feed(separator),
        has_no_line_feed(qual),
        trim_line(seq.push(LINE_FEED)).len() > 0,
        trim_line(qual.push(LINE_FEED)).len() > 0,
    ensures
        decode_status(four_lines(id, seq, separator, qual, rest)) == DecodeStatus::Decoded,
        block_seq(four_lines(id, seq, separator, qual, rest)) == trim_line(seq.push(LINE_FEED)),
        block_qual(four_lines(id, seq, separator, qual, rest)) == trim_line(qual.push(LINE_FEED)),
        seq.last() != CARRIAGE_RETURN ==> block_seq(four_lines(id, seq, separator, qual, rest))
            == seq,
        qual.last() != CARRIAGE_RETURN ==> block_qual(four_lines(id, seq, separator, qual, rest))
            == qual,
{
    lemma_block_of_four_lines(id, seq, separator, qual, rest);
    if seq.len() == 0 || seq.last() != CARRIAGE_RETURN {
        lemma_trim_terminated(seq);
    }
    if qual.len() == 0 || qual.last() != CARRIAGE_RETURN {
        lemma_trim_terminated(qual);
    }
}

/// A block of four lines whose sequence or quality is empty once trimmed
/// is reported as incomplete and gives that field empty; what follows the
/// block can still be read.
pub proof fn lemma_empty_line_is_incomplete(
    id: Seq<u8>,
    seq: Seq<u8>,
    separator: Seq<u8>,
    qual: Seq<u8>,
    rest: Seq<u8>,
)
    requires
        has_no_line_feed(id),
        has_no_line_feed(seq),
        has_no_line_feed(separator),
        has_no_line_feed(qual),
        trim_line(seq.push(LINE_FEED)).len() == 0 || trim_line(qual.push(LINE_FEED)).len() == 0,
    ensures
        decode_status(four_lines(id, seq, separator, qual, rest)) == DecodeStatus::Incomplete,
        trim_line(seq.push(LINE_FEED)).len() == 0 ==> block_seq(
            four_lines(id, seq, separator, qual, rest),
        ).len() == 0,
        trim_line(qual.push(LINE_FEED)).len() == 0 ==> block_qual(
            four_lines(id, seq, separator, qual, rest),
        ).len() == 0,
        after_block(four_lines(id, seq, separator, qual, rest)) == rest,
{
    lemma_block_of_four_lines(id, seq, separator, qual, rest);
}

/// Exhausted bytes are reported as the end of the stream, and nothing else
/// is.
pub proof fn lemma_end_of_stream_iff_empty(s: Seq<u8>)
    ensures
        decode_status(s) == DecodeStatus::EndOfStream <==> s.len() == 0,
{
}

/// Drops the line terminator from `line`.
pub fn trim_line_end(line: Vec<u8>) -> (body: Vec<u8>)
    ensures
        body@ == trim_line(line@),
{
    let mut body = line;
    if body.len() > 0 && body[body.len() - 1] == LINE_FEED {
        body.pop();
    }
    if body.len() > 0 && body[body.len() - 1] == CARRIAGE_RETURN {
        body.pop();
    }
    body
}

} // verus!
