//! Quality-control statistics for FASTQ sequencing reads.

pub mod decoder;
pub mod ratio;
pub mod record;
pub mod report;
pub mod runner;
pub mod stats;
pub mod stream;
