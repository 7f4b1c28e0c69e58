//! One decoded FASTQ read.

use vstd::prelude::*;

verus! {

/// The mathematical content of a read: its bases and its quality bytes.
pub struct RecordView {
    pub seq: Seq<u8>,
    pub qual: Seq<u8>,
}

/// A sequence line and a quality line, both as raw bytes.
///
/// The two need not have the same length; every consumer copes with a
/// mismatch on its own.
#[derive(Debug, Clone, PartialEq, Eq)]
pub struct FastqRecord {
    pub seq: Vec<u8>,
    pub qual: Vec<u8>,
}

impl View for FastqRecord {
    type V = RecordView;

    open spec fn view(&self) -> RecordView {
        RecordView { seq: self.seq@, qual: self.qual@ }
    }
}

impl Default for FastqRecord {
    fn default() -> (r: Self)
        ensures
            r@.seq.len() == 0,
            r@.qual.len() == 0,
    {
        FastqRecord { seq: Vec::new(), qual: Vec::new() }
    }
}

} // verus!
