use fastqscan::decoder::{trim_line_end, DecodeStatus};
use fastqscan::record::FastqRecord;
use fastqscan::runner::WorkflowRunner;
use fastqscan::stream::ByteStream;

#[test]
fn test_parse_valid_record() {
    let data = b"@seq1\nACGT\n+\n!!!!\n";
    let mut cursor = ByteStream::new(data.to_vec());
    let mut record = FastqRecord::default();
    let result = WorkflowRunner::parse_record(&mut cursor, &mut record);
    assert!(result == DecodeStatus::Decoded, "Expected parse_record to succeed.");
    assert_eq!(record.seq, b"ACGT".to_vec(), "Expected valid sequence.");
    assert_eq!(record.qual, b"!!!!".to_vec(), "Expected valid quality.");
}

#[test]
fn test_parse_invalid_record() {
    let data = b"@seq2\n\n+\n\n";
    let mut cursor = ByteStream::new(data.to_vec());
    let mut record = FastqRecord::default();
    let result = WorkflowRunner::parse_record(&mut cursor, &mut record);

    assert!(result == DecodeStatus::Incomplete, "Expected parse_record to succeed.");
    assert!(record.seq.is_empty(), "Expected empty sequence.");
    assert!(record.qual.is_empty(), "Expected empty quality.");
}

#[test]
fn default_record_is_empty() {
    let record = FastqRecord::default();
    assert!(record.seq.is_empty());
    assert!(record.qual.is_empty());
}

#[test]
fn empty_stream_is_end_of_stream() {
    let mut cursor = ByteStream::new(Vec::new());
    let mut record = FastqRecord { seq: b"AC".to_vec(), qual: b"!!".to_vec() };
    let result = WorkflowRunner::parse_record(&mut cursor, &mut record);
    assert_eq!(result, DecodeStatus::EndOfStream);
    assert_eq!(record.seq, b"AC".to_vec());
    assert_eq!(record.qual, b"!!".to_vec());
    assert!(cursor.is_exhausted());
}

#[test]
fn end_of_stream_follows_the_last_block() {
    let mut cursor = ByteStream::new(b"@seq1\nACGT\n+\n!!!!\n".to_vec());
    let mut record = FastqRecord::default();
    assert_eq!(WorkflowRunner::parse_record(&mut cursor, &mut record), DecodeStatus::Decoded);
    assert_eq!(cursor.remaining_len(), 0);
    assert_eq!(WorkflowRunner::parse_record(&mut cursor, &mut record), DecodeStatus::EndOfStream);
    assert_eq!(WorkflowRunner::parse_record(&mut cursor, &mut record), DecodeStatus::EndOfStream);
    assert_eq!(record.seq, b"ACGT".to_vec());
}

#[test]
fn blocks_are_decoded_one_after_another() {
    let mut cursor = ByteStream::new(b"@a\nACGT\n+\n!!!!\n@b\nTG\n+\n##\n".to_vec());
    let mut record = FastqRecord::default();
    assert_eq!(WorkflowRunner::parse_record(&mut cursor, &mut record), DecodeStatus::Decoded);
    assert_eq!(record.seq, b"ACGT".to_vec());
    assert_eq!(cursor.remaining_len(), 11);
    assert_eq!(WorkflowRunner::parse_record(&mut cursor, &mut record), DecodeStatus::Decoded);
    assert_eq!(record.seq, b"TG".to_vec());
    assert_eq!(record.qual, b"##".to_vec());
    assert!(cursor.is_exhausted());
}

#[test]
fn empty_sequence_line_is_incomplete_and_clears_the_field() {
    let mut cursor = ByteStream::new(b"@a\n\n+\n!!!!\n@b\nTG\n+\n##\n".to_vec());
    let mut record = FastqRecord { seq: b"OLD".to_vec(), qual: b"OLD".to_vec() };
    assert_eq!(WorkflowRunner::parse_record(&mut cursor, &mut record), DecodeStatus::Incomplete);
    assert!(record.seq.is_empty());
    assert_eq!(record.qual, b"!!!!".to_vec());
    assert_eq!(WorkflowRunner::parse_record(&mut cursor, &mut record), DecodeStatus::Decoded);
    assert_eq!(record.seq, b"TG".to_vec());
}

#[test]
fn empty_quality_line_is_incomplete_and_clears_the_field() {
    let mut cursor = ByteStream::new(b"@a\nACGT\n+\n\n".to_vec());
    let mut record = FastqRecord { seq: b"OLD".to_vec(), qual: b"OLD".to_vec() };
    assert_eq!(WorkflowRunner::parse_record(&mut cursor, &mut record), DecodeStatus::Incomplete);
    assert_eq!(record.seq, b"ACGT".to_vec());
    assert!(record.qual.is_empty());
}

#[test]
fn truncated_block_is_incomplete_not_end_of_stream() {
    let mut cursor = ByteStream::new(b"@a\nACGT\n".to_vec());
    let mut record = FastqRecord::default();
    assert_eq!(WorkflowRunner::parse_record(&mut cursor, &mut record), DecodeStatus::Incomplete);
    assert_eq!(record.seq, b"ACGT".to_vec());
    assert!(record.qual.is_empty());
    assert_eq!(WorkflowRunner::parse_record(&mut cursor, &mut record), DecodeStatus::EndOfStream);
}

#[test]
fn last_line_may_lack_its_line_feed() {
    let mut cursor = ByteStream::new(b"@a\nACGT\n+\n!!!!".to_vec());
    let mut record = FastqRecord::default();
    assert_eq!(WorkflowRunner::parse_record(&mut cursor, &mut record), DecodeStatus::Decoded);
    assert_eq!(record.qual, b"!!!!".to_vec());
}

#[test]
fn carriage_returns_are_trimmed_with_the_line_feed() {
    let mut cursor = ByteStream::new(b"@a\r\nACGT\r\n+\r\n!!!!\r\n".to_vec());
    let mut record = FastqRecord::default();
    assert_eq!(WorkflowRunner::parse_record(&mut cursor, &mut record), DecodeStatus::Decoded);
    assert_eq!(record.seq, b"ACGT".to_vec());
    assert_eq!(record.qual, b"!!!!".to_vec());
}

#[test]
fn lengths_of_sequence_and_quality_may_differ() {
    let mut cursor = ByteStream::new(b"@a\nACGTAC\n+\n!!\n".to_vec());
    let mut record = FastqRecord::default();
    assert_eq!(WorkflowRunner::parse_record(&mut cursor, &mut record), DecodeStatus::Decoded);
    assert_eq!(record.seq, b"ACGTAC".to_vec());
    assert_eq!(record.qual, b"!!".to_vec());
}

#[test]
fn read_line_keeps_the_line_feed() {
    let mut cursor = ByteStream::new(b"ab\ncd".to_vec());
    assert_eq!(cursor.read_line(), b"ab\n".to_vec());
    assert_eq!(cursor.remaining_len(), 2);
    assert_eq!(cursor.read_line(), b"cd".to_vec());
    assert!(cursor.is_exhausted());
    assert_eq!(cursor.read_line(), Vec::<u8>::new());
}

#[test]
fn trim_drops_only_the_line_terminator() {
    assert_eq!(trim_line_end(b"ACGT\n".to_vec()), b"ACGT".to_vec());
    assert_eq!(trim_line_end(b"ACGT\r\n".to_vec()), b"ACGT".to_vec());
    assert_eq!(trim_line_end(b"ACGT".to_vec()), b"ACGT".to_vec());
    assert_eq!(trim_line_end(b" ACGT \n".to_vec()), b" ACGT ".to_vec());
    assert_eq!(trim_line_end(b"\n".to_vec()), Vec::<u8>::new());
    assert_eq!(trim_line_end(b"\n\n".to_vec()), b"\n".to_vec());
    assert_eq!(trim_line_end(Vec::new()), Vec::<u8>::new());
}
