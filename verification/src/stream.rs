//! An in-memory byte stream that is read one line at a time.

use vstd::prelude::*;

verus! {

/// The line feed byte that terminates a line.
pub const LINE_FEED: u8 = 10;

/// The carriage return byte that may precede a line feed.
pub const CARRIAGE_RETURN: u8 = 13;

/// Index just past the first line feed of `s` at or after `from`, or the
/// length of `s` when there is none.
pub open spec fn line_end(s: Seq<u8>, from: int) -> int
    decreases s.len() - from,
{
    if from < 0 || from >= s.len() {
        s.len() as int
    } else if s[from] == LINE_FEED {
        from + 1
    } else {
        line_end(s, from + 1)
    }
}

/// Number of bytes of the first line of `s`, its line feed included.
pub open spec fn line_len(s: Seq<u8>) -> int {
    line_end(s, 0)
}

/// The first line of `s`, its line feed included; empty only when `s` is.
pub open spec fn first_line(s: Seq<u8>) -> Seq<u8> {
    s.take(line_len(s))
}

/// What is left of `s` once its first line has been read.
pub open spec fn after_line(s: Seq<u8>) -> Seq<u8> {
    s.skip(line_len(s))
}

/// `line` without its terminator: a trailing line feed is dropped, and then
/// a carriage return that stood before it.
pub open spec fn trim_line(line: Seq<u8>) -> Seq<u8> {
    let body = if line.len() > 0 && line.last() == LINE_FEED {
        line.drop_last()
    } else {
        line
    };
    if body.len() > 0 && body.last() == CARRIAGE_RETURN {
        body.drop_last()
    } else {
        body
    }
}

/// The end of a line lies between the place the search starts and the end
/// of the bytes, and past the start whenever a byte is left.
pub proof fn lemma_line_end_bounds(s: Seq<u8>, from: int)
    requires
        0 <= from <= s.len(),
    ensures
        from <= line_end(s, from) <= s.len(),
        from < s.len() ==> from < line_end(s, from),
    decreases s.len() - from,
{
    if from < s.len() && s[from] != LINE_FEED {
        lemma_line_end_bounds(s, from + 1);
    }
}

/// A line ends at `end` when no byte from `from` up to the one before the
/// last is a line feed and the line is closed by a line feed or by the end
/// of the bytes.
pub proof fn lemma_line_end_is(s: Seq<u8>, from: int, end: int)
    requires
        0 <= from <= end <= s.len(),
        forall|i: int| from <= i < end - 1 ==> s[i] != LINE_FEED,
        from < end ==> (s[end - 1] == LINE_FEED || (end == s.len() && s[end - 1] != LINE_FEED)),
        from == end ==> end == s.len(),
    ensures
        line_end(s, from) == end,
    decreases end - from,
{
    if from < end {
        if s[from] == LINE_FEED {
            assert(from == end - 1);
        } else {
            lemma_line_end_is(s, from + 1, end);
        }
    }
}

/// Bytes held in memory together with a read position.
pub struct ByteStream {
    bytes: Vec<u8>,
    pos: usize,
}

impl ByteStream {
    #[verifier::type_invariant]
    spec fn within(&self) -> bool {
        self.pos <= self.bytes@.len()
    }

    /// The bytes that have not been read yet.
    pub closed spec fn remaining(&self) -> Seq<u8> {
        self.bytes@.skip(self.pos as int)
    }

    /// A stream positioned before the first of `bytes`.
    pub fn new(bytes: Vec<u8>) -> (stream: Self)
        ensures
            stream.remaining() == bytes@,
    {
        let stream = ByteStream { bytes, pos: 0 };
        assert(stream.bytes@.skip(0) =~= bytes@);
        stream
    }

    /// How many bytes have not been read yet.
    pub fn remaining_len(&self) -> (n: usize)
        ensures
            n == self.remaining().len(),
    {
        proof {
            use_type_invariant(self);
        }
        self.bytes.len() - self.pos
    }

    /// Whether every byte has been read.
    pub fn is_exhausted(&self) -> (done: bool)
        ensures
            done <==> self.remaining().len() == 0,
    {
        proof {
            use_type_invariant(self);
        }
        self.pos >= self.bytes.len()
    }

    /// Reads up to and including the next line feed, or to the end of the
    /// bytes when no line feed is left. The result is empty exactly when
    /// nothing was left to read.
    pub fn read_line(&mut self) -> (line: Vec<u8>)
        ensures
            line@ == first_line(old(self).remaining()),
            final(self).remaining() == after_line(old(self).remaining()),
    {
        proof {
            use_type_invariant(&*self);
        }
        let ghost rest = self.remaining();
        let start = self.pos;
        let total = self.bytes.len();
        let mut line: Vec<u8> = Vec::new();
        let mut i: usize = start;
        let mut closed = false;
        while i < total && !closed
            invariant
                start <= i <= total,
                total == self.bytes@.len(),
                self.pos == start,
                rest == self.bytes@.skip(start as int),
                line@ == rest.take(i - start),
                forall|k: int| 0 <= k < i - start - 1 ==> rest[k] != LINE_FEED,
                closed ==> i > start && rest[i - start - 1] == LINE_FEED,
                !closed && i > start ==> rest[i - start - 1] != LINE_FEED,
            decreases total - i + (if closed { 0int } else { 1int }),
        {
            let byte = self.bytes[i];
            line.push(byte);
            i = i + 1;
            closed = byte == LINE_FEED;
            assert(line@ =~= rest.take(i - start));
        }
        proof {
            lemma_line_end_is(rest, 0, i - start);
            assert(self.bytes@.skip(i as int) =~= rest.skip(i - start));
        }
        self.pos = i;
        line
    }
}

} // verus!
